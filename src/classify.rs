//! Sorting pull requests into worklists: which searches feed a category, which
//! candidates stay, and the rule each category applies to their approvals.

use vstd::prelude::*;
use std::collections::HashMap;
use crate::models::{GitHubPr, PrApproval, PrView, prs_view, copy_approvals, copy_strings};
use crate::reviews::{PrDetails, strings_view};
use crate::text::{lex_le, lemma_lex_total, text_le};

verus! {

/// The repository every search is scoped to.
pub const REPO: &'static str = "shop/world";

/// The identity whose worklists are built.
pub const USER: &'static str = "atulify";

/// The team whose review requests count as the identity's team's.
pub const TEAM_SLUG: &'static str = "shop/delivery_predictions_platform";

/// The worklists.
#[derive(Debug, Clone, Copy, PartialEq, Eq, Structural)]
pub enum Category {
    HighPriority,
    MediumPriority,
    LowPriority,
    MyApproved,
    MyChangesRequested,
    MyNeedsReview,
}

/// One hit of a pull-request search.
#[derive(Debug, Clone, PartialEq, Eq)]
pub struct GhPrSearchItem {
    pub number: u64,
    pub title: String,
    pub url: String,
    pub author: String,
    pub created_at: String,
}

/// How one search went.
#[derive(Debug, Clone, PartialEq, Eq)]
pub enum SearchOutcome {
    /// The tool could not be started; the text says why.
    NotRun(String),
    /// The tool ran and failed; the text is its diagnostic output.
    Failed(String),
    /// The tool's output did not read as a list of hits; the text says why.
    Unreadable(String),
    /// The hits, in the order the tool gave them.
    Found(Vec<GhPrSearchItem>),
}

/// Lower-case form of a text, as the standard library computes it.
pub uninterp spec fn lower_of(s: Seq<char>) -> Seq<char>;

/// Relies on str::to_lowercase: the result depends on the characters alone.
#[verifier::external_body]
fn lowercase(s: &str) -> (r: String)
    ensures
        r@ == lower_of(s@),
{
    s.to_lowercase()
}

/// Whether a login names `me`, ignoring case.
pub open spec fn same_login(login: Seq<char>, me: Seq<char>) -> bool {
    lower_of(login) == lower_of(me)
}

/// Whether a login names `me`, ignoring case.
pub fn is_same_login(login: &str, me: &str) -> (r: bool)
    ensures
        r == same_login(login@, me@),
{
    lowercase(login) == lowercase(me)
}

/// Whether a category leaves out pull requests that `me` wrote.
pub open spec fn excludes_own(c: Category) -> bool {
    c == Category::HighPriority || c == Category::MediumPriority || c == Category::LowPriority
}

/// How many searches feed a category.
pub open spec fn search_count(c: Category) -> nat {
    if c == Category::LowPriority {
        2
    } else {
        1
    }
}

/// Whether a search hit stays a candidate of category `c`.
pub open spec fn keeps(c: Category, item: GhPrSearchItem, me: Seq<char>) -> bool {
    !excludes_own(c) || !same_login(item.author@, me)
}

/// The hits of one search that stay candidates.
pub open spec fn kept(c: Category, items: Seq<GhPrSearchItem>, me: Seq<char>) -> Seq<GhPrSearchItem>
    decreases items.len(),
{
    if items.len() == 0 {
        seq![]
    } else {
        let rest = kept(c, items.drop_last(), me);
        if keeps(c, items.last(), me) {
            rest.push(items.last())
        } else {
            rest
        }
    }
}

pub open spec fn numbers_of(items: Seq<GhPrSearchItem>) -> Seq<u64> {
    items.map_values(|i: GhPrSearchItem| i.number)
}

/// `items` appended to `acc`, leaving out hits by `me` and numbers already there
/// (the first hit of a number wins).
pub open spec fn merge_hits(acc: Seq<GhPrSearchItem>, items: Seq<GhPrSearchItem>, me: Seq<char>) -> Seq<GhPrSearchItem>
    decreases items.len(),
{
    if items.len() == 0 {
        acc
    } else {
        let before = merge_hits(acc, items.drop_last(), me);
        let x = items.last();
        if !same_login(x.author@, me) && !numbers_of(before).contains(x.number) {
            before.push(x)
        } else {
            before
        }
    }
}

/// The hits of a search that succeeded and read; none otherwise.
pub open spec fn hits_of(o: SearchOutcome) -> Seq<GhPrSearchItem> {
    match o {
        SearchOutcome::Found(items) => items@,
        _ => seq![],
    }
}

/// The error text a failed search gives.
pub open spec fn search_error(o: SearchOutcome) -> Seq<char> {
    match o {
        SearchOutcome::NotRun(e) => "Failed to run gh command: "@ + e@,
        SearchOutcome::Failed(e) => "Failed to search PRs: "@ + e@,
        SearchOutcome::Unreadable(e) => "Failed to parse PR JSON: "@ + e@,
        SearchOutcome::Found(_) => seq![],
    }
}

/// The candidates of a category given how its searches went, or the error
/// that ends the fetch.
pub open spec fn candidates_spec(c: Category, outcomes: Seq<SearchOutcome>, me: Seq<char>) -> Result<Seq<GhPrSearchItem>, Seq<char>> {
    if c == Category::LowPriority {
        if !(outcomes[0] is Found) {
            Err(search_error(outcomes[0]))
        } else if !(outcomes[1] is Found) {
            Err(search_error(outcomes[1]))
        } else {
            Ok(merge_hits(merge_hits(seq![], hits_of(outcomes[0]), me), hits_of(outcomes[1]), me))
        }
    } else {
        match outcomes[0] {
            SearchOutcome::Found(items) => Ok(kept(c, items@, me)),
            _ => Err(search_error(outcomes[0])),
        }
    }
}

pub open spec fn result_view(r: Result<Vec<GhPrSearchItem>, String>) -> Result<Seq<GhPrSearchItem>, Seq<char>> {
    match r {
        Ok(v) => Ok(v@),
        Err(e) => Err(e@),
    }
}

fn error_text(o: &SearchOutcome) -> (r: String)
    ensures
        r@ == search_error(*o),
{
    match o {
        SearchOutcome::NotRun(e) => "Failed to run gh command: ".to_owned().concat(e.as_str()),
        SearchOutcome::Failed(e) => "Failed to search PRs: ".to_owned().concat(e.as_str()),
        SearchOutcome::Unreadable(e) => "Failed to parse PR JSON: ".to_owned().concat(e.as_str()),
        SearchOutcome::Found(_) => String::new(),
    }
}

fn contains_number(items: &Vec<GhPrSearchItem>, n: u64) -> (r: bool)
    ensures
        r == numbers_of(items@).contains(n),
{
    let mut i: usize = 0;
    while i < items.len()
        invariant
            i <= items@.len(),
            forall|j: int| 0 <= j < i ==> items@[j].number != n,
        decreases items@.len() - i,
    {
        if items[i].number == n {
            assert(numbers_of(items@)[i as int] == n);
            return true;
        }
        i = i + 1;
    }
    assert forall|j: int| 0 <= j < numbers_of(items@).len() implies numbers_of(items@)[j] != n by {}
    false
}

/// Appends the hits of one search to `acc`, first hit of a number winning.
fn merge_into(acc: &mut Vec<GhPrSearchItem>, items: Vec<GhPrSearchItem>, me: &str)
    ensures
        final(acc)@ == merge_hits(old(acc)@, items@, me@),
{
    let ghost start = acc@;
    let mut i: usize = 0;
    while i < items.len()
        invariant
            i <= items@.len(),
            acc@ == merge_hits(start, items@.take(i as int), me@),
        decreases items@.len() - i,
    {
        assert(items@.take(i + 1).drop_last() =~= items@.take(i as int));
        let x = &items[i];
        if !is_same_login(x.author.as_str(), me) && !contains_number(acc, x.number) {
            acc.push(x.clone_item());
        }
        i = i + 1;
    }
    assert(items@.take(i as int) =~= items@);
}

/// Keeps the hits of one search that stay candidates of `c`.
fn keep_hits(c: Category, items: Vec<GhPrSearchItem>, me: &str) -> (r: Vec<GhPrSearchItem>)
    ensures
        r@ == kept(c, items@, me@),
{
    let mut r: Vec<GhPrSearchItem> = Vec::new();
    let mut i: usize = 0;
    while i < items.len()
        invariant
            i <= items@.len(),
            r@ == kept(c, items@.take(i as int), me@),
        decreases items@.len() - i,
    {
        assert(items@.take(i + 1).drop_last() =~= items@.take(i as int));
        let x = &items[i];
        let own = matches!(c, Category::HighPriority | Category::MediumPriority | Category::LowPriority);
        if !own || !is_same_login(x.author.as_str(), me) {
            r.push(x.clone_item());
        }
        i = i + 1;
    }
    assert(items@.take(i as int) =~= items@);
    r
}

impl GhPrSearchItem {
    /// A copy equal to `self`.
    pub fn clone_item(&self) -> (r: Self)
        ensures
            r == *self,
    {
        GhPrSearchItem {
            number: self.number,
            title: self.title.clone(),
            url: self.url.clone(),
            author: self.author.clone(),
            created_at: self.created_at.clone(),
        }
    }
}

/// The candidates of a category from how its searches went. Any search that
/// does not yield hits (the tool cannot start, fails, or prints unreadable
/// output) ends the fetch with its error; for the low-priority list the first
/// such search in order decides. Hits written by `me` are left out where the
/// category says so, and the low-priority list keeps the first hit of each
/// number.
pub fn gather_candidates(c: Category, outcomes: Vec<SearchOutcome>, me: &str) -> (r: Result<Vec<GhPrSearchItem>, String>)
    requires
        outcomes@.len() == search_count(c),
    ensures
        result_view(r) == candidates_spec(c, outcomes@, me@),
        c == Category::LowPriority ==> (r matches Ok(v) ==> forall|i: int, j: int|
            0 <= i < j < v@.len() ==> (#[trigger] v@[i]).number != (#[trigger] v@[j]).number),
{
    if c == Category::LowPriority {
        if !outcomes[0].is_found() {
            return Err(error_text(&outcomes[0]));
        }
        if !outcomes[1].is_found() {
            return Err(error_text(&outcomes[1]));
        }
        let mut acc: Vec<GhPrSearchItem> = Vec::new();
        let mut outcomes = outcomes;
        let second = outcomes.pop().unwrap();
        let first = outcomes.pop().unwrap();
        if let SearchOutcome::Found(items) = first {
            merge_into(&mut acc, items, me);
        }
        proof { lemma_merge_unique(seq![], hits_of(first), me@); }
        let ghost mid = acc@;
        if let SearchOutcome::Found(items) = second {
            merge_into(&mut acc, items, me);
        }
        proof { lemma_merge_unique(mid, hits_of(second), me@); }
        Ok(acc)
    } else {
        let mut outcomes = outcomes;
        let only = outcomes.pop().unwrap();
        match only {
            SearchOutcome::Found(items) => Ok(keep_hits(c, items, me)),
            _ => Err(error_text(&only)),
        }
    }
}

impl SearchOutcome {
    /// Whether the search yielded hits.
    pub fn is_found(&self) -> (r: bool)
        ensures
            r == (*self is Found),
    {
        matches!(self, SearchOutcome::Found(_))
    }
}

/// Merging keeps pull-request numbers distinct.
pub proof fn lemma_merge_unique(acc: Seq<GhPrSearchItem>, items: Seq<GhPrSearchItem>, me: Seq<char>)
    requires
        forall|i: int, j: int| 0 <= i < j < acc.len() ==> (#[trigger] acc[i]).number != (#[trigger] acc[j]).number,
    ensures
        forall|i: int, j: int| 0 <= i < j < merge_hits(acc, items, me).len() ==> (#[trigger] merge_hits(acc, items, me)[i]).number != (#[trigger] merge_hits(acc, items, me)[j]).number,
    decreases items.len(),
{
    if items.len() > 0 {
        lemma_merge_unique(acc, items.drop_last(), me);
        let before = merge_hits(acc, items.drop_last(), me);
        let x = items.last();
        if !same_login(x.author@, me) && !numbers_of(before).contains(x.number) {
            let after = before.push(x);
            assert forall|i: int, j: int| 0 <= i < j < after.len() implies (#[trigger] after[i]).number != (#[trigger] after[j]).number by {
                if j == after.len() - 1 {
                    assert(numbers_of(before)[i] == before[i].number);
                }
            }
        }
    }
}

/// Whether `me` is among the approvers, ignoring case.
pub open spec fn approved_by(approvals: Seq<PrApproval>, me: Seq<char>) -> bool {
    exists|i: int| 0 <= i < approvals.len() && same_login((#[trigger] approvals[i]).username@, me)
}

/// The rule a category applies to a candidate's approvals.
pub open spec fn admits(c: Category, approvals: Seq<PrApproval>, me: Seq<char>) -> bool {
    match c {
        Category::HighPriority => approvals.len() == 1 && !approved_by(approvals, me),
        Category::MediumPriority => approvals.len() == 1,
        Category::LowPriority => approvals.len() == 0,
        Category::MyApproved => approvals.len() >= 1,
        Category::MyChangesRequested => true,
        Category::MyNeedsReview => approvals.len() == 0,
    }
}

/// A candidate's approvals: none when the batch had no details for it.
pub open spec fn approvals_for(details: Map<u64, PrDetails>, n: u64) -> Seq<PrApproval> {
    if details.contains_key(n) {
        details[n].approvals@
    } else {
        seq![]
    }
}

/// A candidate's review requests: none when the batch had no details for it.
pub open spec fn reviewers_for(details: Map<u64, PrDetails>, n: u64) -> Seq<String> {
    if details.contains_key(n) {
        details[n].requested_reviewers@
    } else {
        seq![]
    }
}

/// The worklist entry a search hit becomes.
pub open spec fn entry_view(item: GhPrSearchItem, approvals: Seq<PrApproval>, reviewers: Seq<String>) -> PrView {
    PrView {
        number: item.number,
        title: item.title@,
        url: item.url@,
        author: item.author@,
        created_at: item.created_at@,
        approvals,
        requested_reviewers: reviewers,
    }
}

/// The entries of a category, in candidate order, before sorting.
pub open spec fn selected(c: Category, cands: Seq<GhPrSearchItem>, details: Map<u64, PrDetails>, me: Seq<char>) -> Seq<PrView>
    decreases cands.len(),
{
    if cands.len() == 0 {
        seq![]
    } else {
        let rest = selected(c, cands.drop_last(), details, me);
        let x = cands.last();
        if admits(c, approvals_for(details, x.number), me) {
            rest.push(entry_view(x, approvals_for(details, x.number), reviewers_for(details, x.number)))
        } else {
            rest
        }
    }
}

/// Entries in ascending order of creation time.
pub open spec fn sorted_by_created(s: Seq<PrView>) -> bool {
    forall|i: int| 0 <= i < s.len() - 1 ==> lex_le((#[trigger] s[i]).created_at, s[i + 1].created_at)
}

/// Builds a worklist entry from a search hit and its details.
pub fn to_github_pr(item: GhPrSearchItem, approvals: Vec<PrApproval>, requested_reviewers: Vec<String>) -> (r: GitHubPr)
    ensures
        r@ == entry_view(item, approvals@, requested_reviewers@),
{
    GitHubPr {
        number: item.number,
        title: item.title,
        url: item.url,
        author: item.author,
        created_at: item.created_at,
        approvals,
        requested_reviewers,
    }
}

fn approved_by_me(approvals: &Vec<PrApproval>, me: &str) -> (r: bool)
    ensures
        r == approved_by(approvals@, me@),
{
    let mut i: usize = 0;
    while i < approvals.len()
        invariant
            i <= approvals@.len(),
            forall|j: int| 0 <= j < i ==> !same_login((#[trigger] approvals@[j]).username@, me@),
        decreases approvals@.len() - i,
    {
        if is_same_login(approvals[i].username.as_str(), me) {
            return true;
        }
        i = i + 1;
    }
    false
}

fn admits_exec(c: Category, approvals: &Vec<PrApproval>, me: &str) -> (r: bool)
    ensures
        r == admits(c, approvals@, me@),
{
    match c {
        Category::HighPriority => approvals.len() == 1 && !approved_by_me(approvals, me),
        Category::MediumPriority => approvals.len() == 1,
        Category::LowPriority => approvals.len() == 0,
        Category::MyApproved => approvals.len() >= 1,
        Category::MyChangesRequested => true,
        Category::MyNeedsReview => approvals.len() == 0,
    }
}

/// Puts `x` into the sorted list `v` after every entry that sorts no later.
fn insert_sorted(v: &mut Vec<GitHubPr>, x: GitHubPr)
    requires
        sorted_by_created(prs_view(old(v)@)),
    ensures
        sorted_by_created(prs_view(final(v)@)),
        prs_view(final(v)@).to_multiset() == prs_view(old(v)@).to_multiset().insert(x@),
{
    let ghost s = prs_view(v@);
    let mut k = v.len();
    while k > 0 && !text_le(v[k - 1].created_at.as_str(), x.created_at.as_str())
        invariant
            k <= v@.len(),
            s == prs_view(v@),
            k < v@.len() ==> !lex_le(s[k as int].created_at, x@.created_at),
        decreases k,
    {
        k = k - 1;
    }
    v.insert(k, x);
    proof {
        let t = prs_view(v@);
        assert(t =~= s.insert(k as int, x@));
        if k < s.len() {
            lemma_lex_total(s[k as int].created_at, x@.created_at);
        }
        assert forall|i: int| 0 <= i < t.len() - 1 implies lex_le((#[trigger] t[i]).created_at, t[i + 1].created_at) by {
            if i < k - 1 {
                assert(t[i] == s[i] && t[i + 1] == s[i + 1]);
            } else if i == k - 1 {
            } else if i == k {
            } else {
                assert(t[i] == s[i - 1] && t[i + 1] == s[i]);
            }
        }
        lemma_insert_multiset(s, k as int, x@);
    }
}

/// Inserting at any position adds the element once.
pub proof fn lemma_insert_multiset<A>(s: Seq<A>, k: int, x: A)
    requires
        0 <= k <= s.len(),
    ensures
        s.insert(k, x).to_multiset() == s.to_multiset().insert(x),
{
    broadcast use vstd::seq_lib::group_to_multiset_ensures;
    let t = s.insert(k, x);
    assert(t.remove(k) =~= s);
    assert(t[k] == x);
    assert(t.to_multiset().remove(x) == s.to_multiset());
    assert(t.to_multiset().count(x) > 0);
    assert(t.to_multiset() =~= s.to_multiset().insert(x));
}

/// The worklist of a category: the candidates whose approvals the category's
/// rule admits, each with its details (none where the batch had none for it),
/// in ascending order of creation time.
pub fn classify(c: Category, candidates: Vec<GhPrSearchItem>, details: &HashMap<u64, PrDetails>, me: &str) -> (r: Vec<GitHubPr>)
    ensures
        sorted_by_created(prs_view(r@)),
        prs_view(r@).to_multiset() == selected(c, candidates@, details@, me@).to_multiset(),
{
    let mut r: Vec<GitHubPr> = Vec::new();
    let mut i: usize = 0;
    assert(prs_view(r@) =~= selected(c, candidates@.take(0), details@, me@));
    while i < candidates.len()
        invariant
            i <= candidates@.len(),
            sorted_by_created(prs_view(r@)),
            prs_view(r@).to_multiset() == selected(c, candidates@.take(i as int), details@, me@).to_multiset(),
        decreases candidates@.len() - i,
    {
        broadcast use vstd::seq_lib::group_to_multiset_ensures;
        let ghost now = candidates@.take(i + 1);
        assert(now.drop_last() =~= candidates@.take(i as int));
        let x = &candidates[i];
        let (approvals, reviewers) = match details.get(&x.number) {
            Some(d) => (copy_approvals(&d.approvals), copy_strings(&d.requested_reviewers)),
            None => (Vec::new(), Vec::new()),
        };
        assert(approvals@ == approvals_for(details@, x.number));
        assert(reviewers@ == reviewers_for(details@, x.number));
        if admits_exec(c, &approvals, me) {
            let entry = to_github_pr(x.clone_item(), approvals, reviewers);
            insert_sorted(&mut r, entry);
        }
        i = i + 1;
    }
    assert(candidates@.take(i as int) =~= candidates@);
    r
}

/// The arguments of a worklist search with the given scope flags.
pub open spec fn search_line(scope: Seq<Seq<char>>) -> Seq<Seq<char>> {
    seq!["search"@, "prs"@, "--repo"@, REPO@, "--state"@, "open"@] + scope + seq![
        "--json"@,
        "number,title,url,author,createdAt"@,
        "--limit"@,
        "50"@,
    ]
}

/// The searches that feed category `c`, for identity `me` and team `team`.
pub open spec fn searches(c: Category, me: Seq<char>, team: Seq<char>) -> Seq<Seq<Seq<char>>> {
    match c {
        Category::HighPriority => seq![search_line(seq!["--review-requested"@, me])],
        Category::MediumPriority => seq![search_line(seq!["--review-requested"@, team])],
        Category::LowPriority => seq![
            search_line(seq!["--review-requested"@, me]),
            search_line(seq!["--review-requested"@, team]),
        ],
        Category::MyApproved => seq![search_line(seq!["--author"@, me])],
        Category::MyChangesRequested => seq![
            search_line(seq!["--author"@, me, "--review"@, "changes_requested"@]),
        ],
        Category::MyNeedsReview => seq![search_line(seq!["--author"@, me])],
    }
}

pub open spec fn arg_lists_view(v: Seq<Vec<String>>) -> Seq<Seq<Seq<char>>> {
    v.map_values(|a: Vec<String>| strings_view(a@))
}

fn search_line_exec(scope: Vec<String>) -> (r: Vec<String>)
    ensures
        strings_view(r@) == search_line(strings_view(scope@)),
{
    let mut r: Vec<String> = vec![
        "search".to_owned(),
        "prs".to_owned(),
        "--repo".to_owned(),
        REPO.to_owned(),
        "--state".to_owned(),
        "open".to_owned(),
    ];
    let mut scope = scope;
    let ghost head = r@;
    let ghost sv = strings_view(scope@);
    r.append(&mut scope);
    let ghost mid = r@;
    r.push("--json".to_owned());
    r.push("number,title,url,author,createdAt".to_owned());
    r.push("--limit".to_owned());
    r.push("50".to_owned());
    assert(strings_view(mid) =~= strings_view(head) + sv);
    assert(strings_view(r@) =~= search_line(sv));
    r
}

/// The argument lists of the searches that feed category `c`, in the order
/// they are run.
pub fn search_args(c: Category, me: &str, team: &str) -> (r: Vec<Vec<String>>)
    ensures
        arg_lists_view(r@) == searches(c, me@, team@),
        r@.len() == search_count(c),
{
    let mut r: Vec<Vec<String>> = Vec::new();
    match c {
        Category::HighPriority => {
            r.push(search_line_exec(vec!["--review-requested".to_owned(), me.to_owned()]));
        },
        Category::MediumPriority => {
            r.push(search_line_exec(vec!["--review-requested".to_owned(), team.to_owned()]));
        },
        Category::LowPriority => {
            r.push(search_line_exec(vec!["--review-requested".to_owned(), me.to_owned()]));
            r.push(search_line_exec(vec!["--review-requested".to_owned(), team.to_owned()]));
        },
        Category::MyChangesRequested => {
            r.push(search_line_exec(vec![
                "--author".to_owned(),
                me.to_owned(),
                "--review".to_owned(),
                "changes_requested".to_owned(),
            ]));
        },
        _ => {
            r.push(search_line_exec(vec!["--author".to_owned(), me.to_owned()]));
        },
    }
    proof {
        assert forall|i: int| 0 <= i < r@.len() implies strings_view(r@[i]@) == searches(c, me@, team@)[i] by {}
        assert(arg_lists_view(r@) =~= searches(c, me@, team@));
    }
    r
}

/// The numbers of the candidates, in order: the batch the details are fetched for.
pub fn candidate_numbers(items: &Vec<GhPrSearchItem>) -> (r: Vec<u64>)
    ensures
        r@ == numbers_of(items@),
{
    let mut r: Vec<u64> = Vec::new();
    let mut i: usize = 0;
    while i < items.len()
        invariant
            i <= items@.len(),
            r@ == numbers_of(items@.take(i as int)),
        decreases items@.len() - i,
    {
        r.push(items[i].number);
        assert(numbers_of(items@.take(i + 1)) =~= numbers_of(items@.take(i as int)).push(items@[i as int].number));
        i = i + 1;
    }
    assert(items@.take(i as int) =~= items@);
    r
}

/// When the batch call fails and no candidate has details, every candidate
/// counts as unapproved: the lists that need an approval come out empty, and
/// the lists that need none keep every candidate, with no approvals and no
/// review requests.
pub proof fn lemma_failed_batch(c: Category, cands: Seq<GhPrSearchItem>, me: Seq<char>)
    ensures
        c == Category::HighPriority || c == Category::MediumPriority || c == Category::MyApproved
            ==> selected(c, cands, Map::empty(), me).len() == 0,
        c == Category::LowPriority || c == Category::MyNeedsReview || c == Category::MyChangesRequested
            ==> selected(c, cands, Map::empty(), me) == cands.map_values(
            |x: GhPrSearchItem| entry_view(x, seq![], seq![]),
        ),
    decreases cands.len(),
{
    if cands.len() > 0 {
        lemma_failed_batch(c, cands.drop_last(), me);
        assert(cands.drop_last().map_values(|x: GhPrSearchItem| entry_view(x, seq![], seq![])).push(
            entry_view(cands.last(), seq![], seq![]),
        ) =~= cands.map_values(|x: GhPrSearchItem| entry_view(x, seq![], seq![])));
    } else {
        assert(cands.map_values(|x: GhPrSearchItem| entry_view(x, seq![], seq![])) =~= seq![]);
    }
}

/// No two entries share a pull-request number.
pub open spec fn distinct_numbers(s: Seq<PrView>) -> bool {
    forall|i: int, j: int| 0 <= i < j < s.len() ==> (#[trigger] s[i]).number != (#[trigger] s[j]).number
}

/// No two hits share a pull-request number.
pub open spec fn distinct_hits(s: Seq<GhPrSearchItem>) -> bool {
    forall|i: int, j: int| 0 <= i < j < s.len() ==> (#[trigger] s[i]).number != (#[trigger] s[j]).number
}

/// Whether some hit has number `n`.
pub open spec fn has_number(s: Seq<GhPrSearchItem>, n: u64) -> bool {
    exists|j: int| 0 <= j < s.len() && (#[trigger] s[j]).number == n
}

/// Selection keeps only candidates, so distinct candidates give distinct entries.
pub proof fn lemma_selected_distinct(c: Category, cands: Seq<GhPrSearchItem>, details: Map<u64, PrDetails>, me: Seq<char>)
    requires
        distinct_hits(cands),
    ensures
        distinct_numbers(selected(c, cands, details, me)),
        forall|k: int| 0 <= k < selected(c, cands, details, me).len() ==> has_number(
            cands,
            (#[trigger] selected(c, cands, details, me)[k]).number,
        ),
    decreases cands.len(),
{
    if cands.len() > 0 {
        let init = cands.drop_last();
        lemma_selected_distinct(c, init, details, me);
        let rest = selected(c, init, details, me);
        let sel = selected(c, cands, details, me);
        assert forall|k: int| 0 <= k < rest.len() implies has_number(cands, (#[trigger] rest[k]).number) by {
            assert(has_number(init, rest[k].number));
            let j = choose|j: int| 0 <= j < init.len() && (#[trigger] init[j]).number == rest[k].number;
            assert(cands[j] == init[j]);
        }
        if sel.len() > rest.len() {
            assert forall|i: int, j: int| 0 <= i < j < sel.len() implies (#[trigger] sel[i]).number != (#[trigger] sel[j]).number by {
                if j == sel.len() - 1 {
                    assert(has_number(init, rest[i].number));
                    let m = choose|m: int| 0 <= m < init.len() && (#[trigger] init[m]).number == rest[i].number;
                    assert(cands[m] == init[m]);
                    assert(cands[cands.len() - 1].number == sel[j].number);
                }
            }
            assert(sel[sel.len() - 1].number == cands[cands.len() - 1].number);
            assert(has_number(cands, cands[cands.len() - 1].number));
        }
    }
}

/// Reordering keeps numbers distinct.
pub proof fn lemma_permutation_distinct(a: Seq<PrView>, b: Seq<PrView>)
    requires
        a.to_multiset() == b.to_multiset(),
        distinct_numbers(b),
    ensures
        distinct_numbers(a),
{
    broadcast use vstd::seq_lib::group_to_multiset_ensures;
    assert(b.no_duplicates()) by {
        assert forall|i: int, j: int| 0 <= i < b.len() && 0 <= j < b.len() && i != j implies b[i] != b[j] by {
            if i < j {
                assert(b[i].number != b[j].number);
            } else {
                assert(b[j].number != b[i].number);
            }
        }
    }
    b.lemma_multiset_has_no_duplicates();
    a.lemma_multiset_has_no_duplicates_conv();
    assert forall|i: int, j: int| 0 <= i < j < a.len() implies (#[trigger] a[i]).number != (#[trigger] a[j]).number by {
        assert(a.contains(a[i]));
        assert(a.contains(a[j]));
        assert(a.to_multiset().count(a[i]) > 0);
        assert(a.to_multiset().count(a[j]) > 0);
        assert(b.to_multiset().count(a[i]) > 0);
        assert(b.to_multiset().count(a[j]) > 0);
        assert(b.contains(a[i]));
        assert(b.contains(a[j]));
        let p = choose|p: int| 0 <= p < b.len() && b[p] == a[i];
        let q = choose|q: int| 0 <= q < b.len() && b[q] == a[j];
        assert(a[i] != a[j]);
        if p < q {
            assert(b[p].number != b[q].number);
        } else {
            assert(b[q].number != b[p].number);
        }
    }
}

/// The low-priority list never holds a pull request twice, even when both of
/// its searches found it: whatever the details, classifying the merged
/// candidates keeps their numbers distinct.
pub proof fn lemma_low_priority_distinct(
    outcomes: Seq<SearchOutcome>,
    me: Seq<char>,
    details: Map<u64, PrDetails>,
    result: Seq<PrView>,
)
    requires
        outcomes.len() == 2,
        candidates_spec(Category::LowPriority, outcomes, me) is Ok,
        result.to_multiset() == selected(
            Category::LowPriority,
            candidates_spec(Category::LowPriority, outcomes, me)->Ok_0,
            details,
            me,
        ).to_multiset(),
    ensures
        distinct_numbers(result),
{
    let first = merge_hits(seq![], hits_of(outcomes[0]), me);
    lemma_merge_unique(seq![], hits_of(outcomes[0]), me);
    lemma_merge_unique(first, hits_of(outcomes[1]), me);
    let cands = candidates_spec(Category::LowPriority, outcomes, me)->Ok_0;
    lemma_selected_distinct(Category::LowPriority, cands, details, me);
    lemma_permutation_distinct(result, selected(Category::LowPriority, cands, details, me));
}

} // verus!
