//! Review details of pull requests: approvals, review requests, and the one
//! aggregated query that fetches them for a whole batch.

use vstd::prelude::*;
use std::collections::HashMap;
use crate::models::PrApproval;
use crate::text::{decimal_text, decimal_string, str_equals, u64_text_value, has_prefix, parse_u64_range};

verus! {

/// One review event as the hosting service reports it.
#[derive(Debug, Clone, PartialEq, Eq)]
pub struct ReviewEvent {
    pub state: String,
    pub author: Option<String>,
    pub submitted_at: Option<String>,
}

/// Who a review is requested from.
#[derive(Debug, Clone, PartialEq, Eq)]
pub enum RequestedReviewer {
    User { login: String },
    Team { slug: String },
}

/// One pull request's fragment of the aggregated answer.
#[derive(Debug, Clone, PartialEq, Eq)]
pub struct GraphQlPullRequest {
    pub number: u64,
    pub reviews: Vec<ReviewEvent>,
    pub review_requests: Vec<Option<RequestedReviewer>>,
}

/// The fragments of the answer, each under its alias key. A fragment that is
/// null or does not have the expected shape is `None`.
#[derive(Debug, Clone, PartialEq, Eq)]
pub struct GraphQlRepository {
    pub pull_requests: Vec<(String, Option<GraphQlPullRequest>)>,
}

#[derive(Debug, Clone, PartialEq, Eq)]
pub struct GraphQlData {
    pub repository: Option<GraphQlRepository>,
}

/// The envelope of the aggregated answer.
#[derive(Debug, Clone, PartialEq, Eq)]
pub struct GraphQlResponse {
    pub data: Option<GraphQlData>,
}

/// Approvals and review requests of one pull request.
#[derive(Debug, Clone, PartialEq, Eq)]
pub struct PrDetails {
    pub approvals: Vec<PrApproval>,
    pub requested_reviewers: Vec<String>,
}

/// A review event that counts as an approval.
pub open spec fn is_approval(e: ReviewEvent) -> bool {
    e.state@ == "APPROVED"@ && e.author is Some && e.submitted_at is Some
}

/// When `user` last approved, going by the order of `events`.
pub open spec fn last_approval(events: Seq<ReviewEvent>, user: Seq<char>) -> Option<Seq<char>>
    decreases events.len(),
{
    if events.len() == 0 {
        None
    } else {
        let e = events.last();
        if is_approval(e) && e.author->0@ == user {
            Some(e.submitted_at->0@)
        } else {
            last_approval(events.drop_last(), user)
        }
    }
}

/// `a` holds one approval per user who approved in `events`, with the time
/// of that user's last approving event.
pub open spec fn approvals_of(events: Seq<ReviewEvent>, a: Seq<PrApproval>) -> bool {
    &&& forall|i: int, j: int|
        0 <= i < j < a.len() ==> (#[trigger] a[i]).username@ != (#[trigger] a[j]).username@
    &&& forall|i: int|
        0 <= i < a.len() ==> last_approval(events, (#[trigger] a[i]).username@) == Some(
            a[i].approved_at@,
        )
    &&& forall|u: Seq<char>|
        (#[trigger] last_approval(events, u)) is Some ==> exists|i: int|
            0 <= i < a.len() && (#[trigger] a[i]).username@ == u
}

/// The name under which a review request is listed.
pub open spec fn reviewer_name(r: RequestedReviewer) -> Seq<char> {
    match r {
        RequestedReviewer::User { login } => login@,
        RequestedReviewer::Team { slug } => "team:"@ + slug@,
    }
}

/// The names of the review requests that resolve to a user or a team.
pub open spec fn reviewer_names(nodes: Seq<Option<RequestedReviewer>>) -> Seq<Seq<char>>
    decreases nodes.len(),
{
    if nodes.len() == 0 {
        seq![]
    } else {
        let rest = reviewer_names(nodes.drop_last());
        match nodes.last() {
            Some(r) => rest.push(reviewer_name(r)),
            None => rest,
        }
    }
}

pub open spec fn strings_view(v: Seq<String>) -> Seq<Seq<char>> {
    v.map_values(|s: String| s@)
}

/// The approvals in a list of review events, one per user; a later event of
/// the same user replaces an earlier one.
pub fn collect_approvals(events: &Vec<ReviewEvent>) -> (r: Vec<PrApproval>)
    ensures
        approvals_of(events@, r@),
{
    let mut r: Vec<PrApproval> = Vec::new();
    let mut i: usize = 0;
    while i < events.len()
        invariant
            i <= events@.len(),
            approvals_of(events@.take(i as int), r@),
        decreases events@.len() - i,
    {
        let e = &events[i];
        let ghost seen = events@.take(i as int);
        let ghost now = events@.take(i + 1);
        assert(now.drop_last() =~= seen);
        assert(now.last() == *e);
        if str_equals(e.state.as_str(), "APPROVED") && e.author.is_some() && e.submitted_at.is_some() {
            let login = e.author.as_ref().unwrap();
            let at = e.submitted_at.as_ref().unwrap();
            let entry = PrApproval { username: login.clone(), approved_at: at.clone() };
            let mut k: usize = 0;
            while k < r.len() && !(r[k].username == *login)
                invariant
                    k <= r@.len(),
                    forall|j: int| 0 <= j < k ==> r@[j].username@ != login@,
                decreases r@.len() - k,
            {
                k = k + 1;
            }
            let ghost before = r@;
            if k < r.len() {
                r.set(k, entry);
            } else {
                r.push(entry);
            }
            proof {
                assert forall|u: Seq<char>| u != login@ implies last_approval(now, u) == last_approval(seen, u) by {}
                assert(last_approval(now, login@) == Some(at@));
                assert forall|j: int| 0 <= j < r@.len() implies last_approval(now, (#[trigger] r@[j]).username@) == Some(r@[j].approved_at@) by {
                    if j != k {
                        assert(r@[j] == before[j]);
                    }
                }
                assert forall|u: Seq<char>| (#[trigger] last_approval(now, u)) is Some implies exists|j: int| 0 <= j < r@.len() && (#[trigger] r@[j]).username@ == u by {
                    if u == login@ {
                        assert(r@[k as int].username@ == u);
                    } else {
                        let j = choose|j: int| 0 <= j < before.len() && (#[trigger] before[j]).username@ == u;
                        assert(r@[j].username@ == u);
                    }
                }
            }
        } else {
            proof {
                assert forall|u: Seq<char>| last_approval(now, u) == last_approval(seen, u) by {}
            }
        }
        i = i + 1;
    }
    assert(events@.take(i as int) =~= events@);
    r
}

/// The names of the review requests, a team as `team:{slug}`; entries that
/// resolve to neither are left out.
pub fn collect_reviewers(nodes: &Vec<Option<RequestedReviewer>>) -> (r: Vec<String>)
    ensures
        strings_view(r@) == reviewer_names(nodes@),
{
    let mut r: Vec<String> = Vec::new();
    let mut i: usize = 0;
    while i < nodes.len()
        invariant
            i <= nodes@.len(),
            strings_view(r@) == reviewer_names(nodes@.take(i as int)),
        decreases nodes@.len() - i,
    {
        let ghost before = r@;
        assert(nodes@.take(i + 1).drop_last() =~= nodes@.take(i as int));
        match &nodes[i] {
            Some(RequestedReviewer::User { login }) => {
                r.push(login.clone());
                assert(strings_view(r@) =~= strings_view(before).push(login@));
            },
            Some(RequestedReviewer::Team { slug }) => {
                let name = "team:".to_owned().concat(slug.as_str());
                r.push(name);
                assert(strings_view(r@) =~= strings_view(before).push("team:"@ + slug@));
            },
            None => {},
        }
        i = i + 1;
    }
    assert(nodes@.take(i as int) =~= nodes@);
    r
}

/// The pull-request number an alias key such as `pr123` stands for.
pub open spec fn key_number(key: Seq<char>) -> Option<u64> {
    if key.len() >= 2 && key[0] == 'p' && key[1] == 'r' {
        u64_text_value(key.skip(2))
    } else {
        None
    }
}

/// Reads the number out of an alias key (`pr123` gives 123).
pub fn parse_pr_key(key: &str) -> (r: Option<u64>)
    ensures
        r == key_number(key@),
{
    let n = key.unicode_len();
    if n < 2 || key.get_char(0) != 'p' || key.get_char(1) != 'r' {
        return None;
    }
    let r = parse_u64_range(key, 2, n);
    assert(key@.subrange(2, n as int) =~= key@.skip(2));
    r
}

/// Whether `d` holds what `pr` reports: its approvals, one per user, and its
/// review requests in order.
pub open spec fn details_of(pr: GraphQlPullRequest, d: PrDetails) -> bool {
    approvals_of(pr.reviews@, d.approvals@) && strings_view(d.requested_reviewers@)
        == reviewer_names(pr.review_requests@)
}

/// The last fragment, in answer order, whose key stands for `n` and that has
/// the expected shape.
pub open spec fn fragment_for(frags: Seq<(String, Option<GraphQlPullRequest>)>, n: u64) -> Option<
    GraphQlPullRequest,
>
    decreases frags.len(),
{
    if frags.len() == 0 {
        None
    } else {
        let (key, pr) = frags.last();
        if key_number(key@) == Some(n) && pr is Some {
            pr
        } else {
            fragment_for(frags.drop_last(), n)
        }
    }
}

/// The fragments of an answer; none when the call failed or the envelope is
/// missing a level.
pub open spec fn response_fragments(response: Option<GraphQlResponse>) -> Seq<(String, Option<GraphQlPullRequest>)> {
    match response {
        Some(GraphQlResponse { data: Some(GraphQlData { repository: Some(repo) }) }) => repo.pull_requests@,
        _ => seq![],
    }
}

/// `m` maps each number that has a usable fragment to that fragment's details.
pub open spec fn details_match(frags: Seq<(String, Option<GraphQlPullRequest>)>, m: Map<u64, PrDetails>) -> bool {
    &&& forall|n: u64| #[trigger] m.contains_key(n) <==> fragment_for(frags, n) is Some
    &&& forall|n: u64| #[trigger] m.contains_key(n) ==> details_of(fragment_for(frags, n)->0, m[n])
}

/// Turns the aggregated answer into details per pull-request number. A failed
/// call (`None`) or an envelope without data gives no details at all; a
/// fragment that is null, malformed or under a key that names no number is
/// skipped, and the others still count.
pub fn batch_fetch_pr_details(response: Option<GraphQlResponse>) -> (r: HashMap<u64, PrDetails>)
    ensures
        details_match(response_fragments(response), r@),
        response is None ==> r@ == Map::<u64, PrDetails>::empty(),
{
    let mut r: HashMap<u64, PrDetails> = HashMap::new();
    let frags: Vec<(String, Option<GraphQlPullRequest>)> = match response {
        Some(GraphQlResponse { data: Some(GraphQlData { repository: Some(repo) }) }) => repo.pull_requests,
        _ => Vec::new(),
    };
    let mut i: usize = 0;
    while i < frags.len()
        invariant
            i <= frags@.len(),
            details_match(frags@.take(i as int), r@),
        decreases frags@.len() - i,
    {
        let ghost seen = frags@.take(i as int);
        let ghost now = frags@.take(i + 1);
        assert(now.drop_last() =~= seen);
        let (key, pr) = &frags[i];
        if let Some(pr) = pr {
            if let Some(num) = parse_pr_key(key.as_str()) {
                let details = PrDetails {
                    approvals: collect_approvals(&pr.reviews),
                    requested_reviewers: collect_reviewers(&pr.review_requests),
                };
                r.insert(num, details);
                assert forall|n: u64| n != num implies fragment_for(now, n) == fragment_for(seen, n) by {}
                assert(fragment_for(now, num) == Some(*pr));
            } else {
                assert forall|n: u64| fragment_for(now, n) == fragment_for(seen, n) by {}
            }
        } else {
            assert forall|n: u64| fragment_for(now, n) == fragment_for(seen, n) by {}
        }
        i = i + 1;
    }
    assert(frags@.take(i as int) =~= frags@);
    proof {
        if frags@.len() == 0 {
            assert(r@ =~= Map::<u64, PrDetails>::empty());
        }
    }
    r
}

/// What each pull request's fragment of the aggregated query asks for after
/// its number: the 100 latest reviews and the 20 latest review requests.
pub const FRAGMENT_BODY: &'static str = ") { number reviews(last: 100) { nodes { state author { login } submittedAt } } reviewRequests(last: 20) { nodes { requestedReviewer { ... on User { login } ... on Team { slug } } } } }";

/// The query's opening, scoped to the one repository.
pub const QUERY_HEAD: &'static str = "query { repository(owner: \"shop\", name: \"world\") { ";

pub const QUERY_TAIL: &'static str = " } }";

/// The fragment for one number, aliased `pr{n}`.
pub open spec fn fragment_text(n: u64) -> Seq<char> {
    "pr"@ + decimal_text(n as nat) + ": pullRequest(number: "@ + decimal_text(n as nat) + FRAGMENT_BODY@
}

/// The fragments of all numbers, one per line.
pub open spec fn fragments_text(ns: Seq<u64>) -> Seq<char>
    decreases ns.len(),
{
    if ns.len() == 0 {
        seq![]
    } else if ns.len() == 1 {
        fragment_text(ns[0])
    } else {
        fragments_text(ns.drop_last()) + "\n"@ + fragment_text(ns.last())
    }
}

/// The aggregated query for a batch of numbers.
pub open spec fn query_text(ns: Seq<u64>) -> Seq<char> {
    QUERY_HEAD@ + fragments_text(ns) + QUERY_TAIL@
}

fn fragment_string(n: u64) -> (r: String)
    ensures
        r@ == fragment_text(n),
{
    let digits = decimal_string(n);
    "pr".to_owned().concat(digits.as_str()).concat(": pullRequest(number: ").concat(
        digits.as_str(),
    ).concat(FRAGMENT_BODY)
}

/// The aggregated query that asks for the review details of every number at once.
pub fn batch_query(numbers: &Vec<u64>) -> (r: String)
    ensures
        r@ == query_text(numbers@),
{
    let mut body = String::new();
    let mut i: usize = 0;
    while i < numbers.len()
        invariant
            i <= numbers@.len(),
            body@ == fragments_text(numbers@.take(i as int)),
        decreases numbers@.len() - i,
    {
        let ghost now = numbers@.take(i + 1);
        assert(now.drop_last() =~= numbers@.take(i as int));
        let frag = fragment_string(numbers[i]);
        if i == 0 {
            body = frag;
            assert(body@ =~= fragments_text(now));
        } else {
            body = body.concat("\n").concat(frag.as_str());
        }
        i = i + 1;
    }
    assert(numbers@.take(i as int) =~= numbers@);
    QUERY_HEAD.to_owned().concat(body.as_str()).concat(QUERY_TAIL)
}

/// The arguments of the one tool call that fetches a batch's details; none for
/// an empty batch, which needs no call.
pub fn batch_query_args(numbers: &Vec<u64>) -> (r: Option<Vec<String>>)
    ensures
        r is None <==> numbers@.len() == 0,
        r matches Some(args) ==> strings_view(args@) == seq![
            "api"@,
            "graphql"@,
            "-f"@,
            "query="@ + query_text(numbers@),
        ],
{
    if numbers.len() == 0 {
        return None;
    }
    let query = batch_query(numbers);
    let args: Vec<String> = vec![
        "api".to_owned(),
        "graphql".to_owned(),
        "-f".to_owned(),
        "query=".to_owned().concat(query.as_str()),
    ];
    assert(strings_view(args@) =~= seq!["api"@, "graphql"@, "-f"@, "query="@ + query_text(numbers@)]);
    Some(args)
}

} // verus!
