//! The records the engine works on and hands back.

use vstd::prelude::*;

verus! {

/// One approving review: who approved, and when (ISO-8601 text).
#[derive(Debug, Clone, PartialEq, Eq)]
pub struct PrApproval {
    pub username: String,
    pub approved_at: String,
}

/// A pull request with its review state, as shown in a worklist.
#[derive(Debug, Clone, PartialEq, Eq)]
pub struct GitHubPr {
    pub number: u64,
    pub title: String,
    pub url: String,
    pub author: String,
    pub created_at: String,
    pub approvals: Vec<PrApproval>,
    pub requested_reviewers: Vec<String>,
}

/// What a pull request holds, as plain values.
pub struct PrView {
    pub number: u64,
    pub title: Seq<char>,
    pub url: Seq<char>,
    pub author: Seq<char>,
    pub created_at: Seq<char>,
    pub approvals: Seq<PrApproval>,
    pub requested_reviewers: Seq<String>,
}

impl View for GitHubPr {
    type V = PrView;

    open spec fn view(&self) -> PrView {
        PrView {
            number: self.number,
            title: self.title@,
            url: self.url@,
            author: self.author@,
            created_at: self.created_at@,
            approvals: self.approvals@,
            requested_reviewers: self.requested_reviewers@,
        }
    }
}

/// The views of a list of pull requests.
pub open spec fn prs_view(v: Seq<GitHubPr>) -> Seq<PrView> {
    v.map_values(|p: GitHubPr| p@)
}

/// A coloured label.
#[derive(Debug, Clone, PartialEq, Eq)]
pub struct Tag {
    pub id: String,
    pub name: String,
    pub color: String,
}

#[derive(Debug, Clone, Copy, PartialEq, Eq, Structural)]
pub enum LinkType {
    GithubIssue,
    GithubPr,
    Url,
}

/// A link attached to a task.
#[derive(Debug, Clone, PartialEq, Eq)]
pub struct ResourceLink {
    pub id: String,
    pub url: String,
    pub label: String,
    pub link_type: LinkType,
}

#[derive(Debug, Clone, Copy, PartialEq, Eq, Structural)]
pub enum TaskType {
    Regular,
    FlagRollout,
    PrReview,
    GithubIssue,
    DocReview,
}

#[derive(Debug, Clone, Copy, PartialEq, Eq, Structural)]
pub enum ScheduleType {
    OneOff,
    DailyWeekdays,
    Weekly,
}

#[derive(Debug, Clone, Copy, PartialEq, Eq, Structural)]
pub enum Theme {
    Grove,
    Obsidian,
    MiamiNights,
}

/// User preferences.
#[derive(Debug, Clone, PartialEq, Eq)]
pub struct Settings {
    pub theme: Theme,
    pub dark_mode: bool,
    pub launch_at_login: bool,
    pub user_name: String,
    pub onboarding_complete: bool,
}

/// Merged and approved pull-request counts over three date windows.
#[derive(Debug, Clone, Copy, PartialEq, Eq, Structural)]
pub struct GitHubStats {
    pub prs_merged_mtd: u32,
    pub prs_merged_prev_month: u32,
    pub prs_merged_prev_3_months: u32,
    pub prs_approved_mtd: u32,
    pub prs_approved_prev_month: u32,
    pub prs_approved_prev_3_months: u32,
}

impl Default for TaskType {
    fn default() -> (r: Self)
        ensures
            r == TaskType::Regular,
    {
        TaskType::Regular
    }
}

impl Default for Theme {
    fn default() -> (r: Self)
        ensures
            r == Theme::Obsidian,
    {
        Theme::Obsidian
    }
}

impl Default for Settings {
    fn default() -> (r: Self)
        ensures
            r.theme == Theme::Obsidian,
            r.dark_mode,
            !r.launch_at_login,
            r.user_name@.len() == 0,
            !r.onboarding_complete,
    {
        Settings {
            theme: Theme::Obsidian,
            dark_mode: true,
            launch_at_login: false,
            user_name: String::new(),
            onboarding_complete: false,
        }
    }
}

/// Relies on uuid's Uuid::new_v4 and its hyphenated text form (36 characters).
#[verifier::external_body]
fn new_id() -> (r: String)
    ensures
        r@.len() == 36,
{
    uuid::Uuid::new_v4().to_string()
}

impl Tag {
    /// A tag with a fresh random identifier.
    pub fn new(name: String, color: String) -> (r: Self)
        ensures
            r.name == name,
            r.color == color,
            r.id@.len() == 36,
    {
        Tag { id: new_id(), name, color }
    }
}

impl ResourceLink {
    /// A link with a fresh random identifier.
    pub fn new(url: String, label: String, link_type: LinkType) -> (r: Self)
        ensures
            r.url == url,
            r.label == label,
            r.link_type == link_type,
            r.id@.len() == 36,
    {
        ResourceLink { id: new_id(), url, label, link_type }
    }
}

impl PrApproval {
    /// A copy equal to `self`.
    pub fn duplicate(&self) -> (r: Self)
        ensures
            r == *self,
    {
        PrApproval { username: self.username.clone(), approved_at: self.approved_at.clone() }
    }
}

/// A copy of a list of approvals.
pub fn copy_approvals(v: &Vec<PrApproval>) -> (r: Vec<PrApproval>)
    ensures
        r@ == v@,
{
    let mut r: Vec<PrApproval> = Vec::new();
    let mut i: usize = 0;
    while i < v.len()
        invariant
            i <= v@.len(),
            r@ == v@.take(i as int),
        decreases v@.len() - i,
    {
        r.push(v[i].duplicate());
        assert(v@.take(i + 1) =~= v@.take(i as int).push(v@[i as int]));
        i = i + 1;
    }
    assert(v@.take(i as int) =~= v@);
    r
}

/// A copy of a list of strings.
pub fn copy_strings(v: &Vec<String>) -> (r: Vec<String>)
    ensures
        r@ == v@,
{
    let mut r: Vec<String> = Vec::new();
    let mut i: usize = 0;
    while i < v.len()
        invariant
            i <= v@.len(),
            r@ == v@.take(i as int),
        decreases v@.len() - i,
    {
        r.push(v[i].clone());
        assert(v@.take(i + 1) =~= v@.take(i as int).push(v@[i as int]));
        i = i + 1;
    }
    assert(v@.take(i as int) =~= v@);
    r
}

impl GitHubPr {
    /// A copy equal to `self`.
    pub fn duplicate(&self) -> (r: Self)
        ensures
            r@ == self@,
    {
        GitHubPr {
            number: self.number,
            title: self.title.clone(),
            url: self.url.clone(),
            author: self.author.clone(),
            created_at: self.created_at.clone(),
            approvals: copy_approvals(&self.approvals),
            requested_reviewers: copy_strings(&self.requested_reviewers),
        }
    }
}

/// A copy of a list of pull requests.
pub fn copy_prs(v: &Vec<GitHubPr>) -> (r: Vec<GitHubPr>)
    ensures
        prs_view(r@) == prs_view(v@),
{
    let mut r: Vec<GitHubPr> = Vec::new();
    let mut i: usize = 0;
    while i < v.len()
        invariant
            i <= v@.len(),
            prs_view(r@) == prs_view(v@.take(i as int)),
        decreases v@.len() - i,
    {
        let ghost before = r@;
        r.push(v[i].duplicate());
        assert(prs_view(v@.take(i + 1)) =~= prs_view(v@.take(i as int)).push(v@[i as int]@));
        assert(prs_view(r@) =~= prs_view(before).push(v@[i as int]@));
        i = i + 1;
    }
    assert(v@.take(i as int) =~= v@);
    r
}

} // verus!
