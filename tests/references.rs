use review_queue::reviews::{
    batch_fetch_pr_details, batch_query, batch_query_args, collect_approvals, collect_reviewers, parse_pr_key,
    GraphQlData, GraphQlPullRequest, GraphQlRepository, GraphQlResponse, RequestedReviewer, ReviewEvent,
    FRAGMENT_BODY, QUERY_HEAD, QUERY_TAIL,
};
use review_queue::text::decimal_string;
use review_queue::url::{parse_issue_url, parse_pr_url};

fn triple(a: &str, b: &str, c: &str) -> Option<(String, String, String)> {
    Some((a.to_string(), b.to_string(), c.to_string()))
}

fn event(state: &str, author: Option<&str>, at: Option<&str>) -> ReviewEvent {
    ReviewEvent {
        state: state.to_string(),
        author: author.map(|s| s.to_string()),
        submitted_at: at.map(|s| s.to_string()),
    }
}

#[test]
fn github_pr_link_with_query() {
    assert_eq!(parse_pr_url("https://github.com/acme/widgets/pull/42?tab=files"), triple("acme", "widgets", "42"));
}

#[test]
fn graphite_pr_link_with_trailing_path() {
    assert_eq!(parse_pr_url("https://app.graphite.dev/github/pr/acme/widgets/42/edit"), triple("acme", "widgets", "42"));
    assert_eq!(parse_pr_url("https://app.graphite.com/github/pr/acme/widgets/7"), triple("acme", "widgets", "7"));
}

#[test]
fn pr_link_edge_shapes() {
    assert_eq!(parse_pr_url("https://github.com/acme/widgets/pull/42/files/"), triple("acme", "widgets", "42"));
    assert_eq!(parse_pr_url("https://github.com/acme/widgets/pull/"), None);
    assert_eq!(parse_pr_url("https://github.com/acme/widgets/issues/42"), None);
    assert_eq!(parse_pr_url("https://gitlab.com/acme/widgets/pull/42"), None);
    assert_eq!(parse_pr_url("https://GitHub.com/acme/widgets/pull/42"), None);
    assert_eq!(parse_pr_url("http://github.com/acme/widgets/pull/42"), None);
    assert_eq!(parse_pr_url("https://app.graphite.dev/github/pr/acme/widgets"), None);
    assert_eq!(parse_pr_url(""), None);
}

#[test]
fn issue_links() {
    assert_eq!(parse_issue_url("https://github.com/acme/widgets/issues/9?x=1"), triple("acme", "widgets", "9"));
    assert_eq!(parse_issue_url("https://github.com/acme/widgets/pull/9"), None);
    assert_eq!(parse_issue_url("https://app.graphite.dev/github/pr/acme/widgets/9"), None);
}

#[test]
fn repeated_approvals_keep_the_last_parsed() {
    let events = vec![
        event("APPROVED", Some("bob"), Some("2024-01-05T00:00:00Z")),
        event("COMMENTED", Some("carol"), Some("2024-01-02T00:00:00Z")),
        event("APPROVED", Some("bob"), Some("2024-01-01T00:00:00Z")),
        event("APPROVED", None, Some("2024-01-01T00:00:00Z")),
        event("APPROVED", Some("dave"), None),
    ];
    let approvals = collect_approvals(&events);
    assert_eq!(approvals.len(), 1);
    assert_eq!(approvals[0].username, "bob");
    assert_eq!(approvals[0].approved_at, "2024-01-01T00:00:00Z");
}

#[test]
fn approvals_one_per_user() {
    let events = vec![
        event("APPROVED", Some("bob"), Some("t1")),
        event("APPROVED", Some("carol"), Some("t2")),
        event("CHANGES_REQUESTED", Some("bob"), Some("t3")),
    ];
    let mut names: Vec<String> = collect_approvals(&events).into_iter().map(|a| a.username).collect();
    names.sort();
    assert_eq!(names, vec!["bob".to_string(), "carol".to_string()]);
}

#[test]
fn team_requests_are_marked() {
    let nodes = vec![
        Some(RequestedReviewer::User { login: "bob".to_string() }),
        None,
        Some(RequestedReviewer::Team { slug: "core".to_string() }),
    ];
    assert_eq!(collect_reviewers(&nodes), vec!["bob".to_string(), "team:core".to_string()]);
}

#[test]
fn alias_keys() {
    assert_eq!(parse_pr_key("pr123"), Some(123));
    assert_eq!(parse_pr_key("pr+5"), Some(5));
    assert_eq!(parse_pr_key("pr"), None);
    assert_eq!(parse_pr_key("pr12a"), None);
    assert_eq!(parse_pr_key("x12"), None);
    assert_eq!(parse_pr_key("pr18446744073709551615"), Some(u64::MAX));
    assert_eq!(parse_pr_key("pr18446744073709551616"), None);
}

#[test]
fn decimal_text() {
    assert_eq!(decimal_string(0), "0");
    assert_eq!(decimal_string(1234), "1234");
    assert_eq!(decimal_string(u64::MAX), u64::MAX.to_string());
}

#[test]
fn batch_query_text() {
    let q = batch_query(&vec![7, 42]);
    let frag = |n: u64| format!("pr{}: pullRequest(number: {}{}", n, n, FRAGMENT_BODY);
    assert_eq!(q, format!("{}{}\n{}{}", QUERY_HEAD, frag(7), frag(42), QUERY_TAIL));
    assert!(q.starts_with("query { repository(owner: \"shop\", name: \"world\") { pr7: pullRequest(number: 7)"));
    assert!(q.contains("reviews(last: 100)"));
    assert!(q.contains("reviewRequests(last: 20)"));
}

#[test]
fn empty_batch_needs_no_call() {
    assert_eq!(batch_query_args(&vec![]), None);
    let args = batch_query_args(&vec![1]).unwrap();
    assert_eq!(&args[..3], &["api", "graphql", "-f"]);
    assert!(args[3].starts_with("query=query {"));
}

fn fragment(number: u64, approvers: &[&str]) -> GraphQlPullRequest {
    GraphQlPullRequest {
        number,
        reviews: approvers.iter().map(|a| event("APPROVED", Some(a), Some("t"))).collect(),
        review_requests: vec![Some(RequestedReviewer::Team { slug: "core".to_string() })],
    }
}

#[test]
fn batch_answer_is_read_fragment_by_fragment() {
    let response = GraphQlResponse {
        data: Some(GraphQlData {
            repository: Some(GraphQlRepository {
                pull_requests: vec![
                    ("pr1".to_string(), Some(fragment(1, &["bob"]))),
                    ("pr2".to_string(), None),
                    ("prx".to_string(), Some(fragment(3, &["bob"]))),
                    ("pr3".to_string(), Some(fragment(3, &["bob", "carol"]))),
                ],
            }),
        }),
    };
    let details = batch_fetch_pr_details(Some(response));
    assert_eq!(details.len(), 2);
    assert_eq!(details[&1].approvals.len(), 1);
    assert_eq!(details[&3].approvals.len(), 2);
    assert_eq!(details[&3].requested_reviewers, vec!["team:core".to_string()]);
    assert!(!details.contains_key(&2));
}

#[test]
fn batch_answer_without_data_gives_nothing() {
    assert!(batch_fetch_pr_details(Some(GraphQlResponse { data: None })).is_empty());
    let no_repo = GraphQlResponse { data: Some(GraphQlData { repository: None }) };
    assert!(batch_fetch_pr_details(Some(no_repo)).is_empty());
}
