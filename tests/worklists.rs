use std::collections::HashMap;

use review_queue::cache::{cached_result, invalidate_pr_cache, store_result, PrCache, CACHE_TTL_MS};
use review_queue::classify::{
    candidate_numbers, classify, gather_candidates, is_same_login, search_args, to_github_pr, Category,
    GhPrSearchItem, SearchOutcome, USER,
};
use review_queue::fetch::{details_request, finish_fetch};
use review_queue::models::{GitHubPr, PrApproval};
use review_queue::reviews::{batch_fetch_pr_details, PrDetails};

fn item(number: u64, author: &str, created_at: &str) -> GhPrSearchItem {
    GhPrSearchItem {
        number,
        title: format!("PR {}", number),
        url: format!("https://github.com/shop/world/pull/{}", number),
        author: author.to_string(),
        created_at: created_at.to_string(),
    }
}

fn approval(user: &str, at: &str) -> PrApproval {
    PrApproval { username: user.to_string(), approved_at: at.to_string() }
}

fn details_of(approvals: Vec<PrApproval>) -> PrDetails {
    PrDetails { approvals, requested_reviewers: vec![] }
}

fn sample_details() -> HashMap<u64, PrDetails> {
    let mut d = HashMap::new();
    d.insert(1, details_of(vec![approval("bob", "2024-01-01T00:00:00Z")]));
    d.insert(2, details_of(vec![]));
    d.insert(
        3,
        details_of(vec![approval("bob", "2024-01-01T00:00:00Z"), approval("carol", "2024-01-02T00:00:00Z")]),
    );
    d
}

fn sample_candidates() -> Vec<GhPrSearchItem> {
    vec![
        item(1, "dave", "2024-01-03T00:00:00Z"),
        item(2, "erin", "2024-01-02T00:00:00Z"),
        item(3, "frank", "2024-01-01T00:00:00Z"),
    ]
}

fn numbers(prs: &[GitHubPr]) -> Vec<u64> {
    prs.iter().map(|p| p.number).collect()
}

#[test]
fn buckets_from_batch_approvals() {
    let details = sample_details();
    let medium = classify(Category::MediumPriority, sample_candidates(), &details, "alice");
    assert_eq!(numbers(&medium), vec![1]);
    let low = classify(Category::LowPriority, sample_candidates(), &details, "alice");
    assert_eq!(numbers(&low), vec![2]);
    let high_for_bob = classify(Category::HighPriority, sample_candidates(), &details, "bob");
    assert!(high_for_bob.is_empty());
    let high_for_alice = classify(Category::HighPriority, sample_candidates(), &details, "alice");
    assert_eq!(numbers(&high_for_alice), vec![1]);
}

#[test]
fn high_priority_ignores_case_of_own_approval() {
    let details = sample_details();
    let high = classify(Category::HighPriority, sample_candidates(), &details, "BoB");
    assert!(high.is_empty());
}

#[test]
fn my_lists_follow_approval_counts() {
    let details = sample_details();
    let approved = classify(Category::MyApproved, sample_candidates(), &details, USER);
    assert_eq!(numbers(&approved), vec![3, 1]);
    let needs = classify(Category::MyNeedsReview, sample_candidates(), &details, USER);
    assert_eq!(numbers(&needs), vec![2]);
    let changes = classify(Category::MyChangesRequested, sample_candidates(), &details, USER);
    assert_eq!(numbers(&changes), vec![3, 2, 1]);
}

#[test]
fn classified_lists_are_sorted_by_creation_time() {
    let details: HashMap<u64, PrDetails> = HashMap::new();
    let cands = vec![
        item(10, "x", "2024-05-01T00:00:00Z"),
        item(11, "y", "2023-05-01T00:00:00Z"),
        item(12, "z", "2024-01-01T00:00:00Z"),
    ];
    let low = classify(Category::LowPriority, cands, &details, "me");
    assert_eq!(numbers(&low), vec![11, 12, 10]);
}

#[test]
fn entries_carry_their_details() {
    let mut details = HashMap::new();
    details.insert(
        5,
        PrDetails {
            approvals: vec![approval("bob", "t1")],
            requested_reviewers: vec!["carol".to_string(), "team:core".to_string()],
        },
    );
    let out = classify(Category::MediumPriority, vec![item(5, "dave", "t0")], &details, "alice");
    assert_eq!(out.len(), 1);
    assert_eq!(out[0].approvals, vec![approval("bob", "t1")]);
    assert_eq!(out[0].requested_reviewers, vec!["carol".to_string(), "team:core".to_string()]);
    assert_eq!(out[0].title, "PR 5");
    assert_eq!(out[0].author, "dave");
}

#[test]
fn failed_batch_counts_every_candidate_as_unapproved() {
    let details = batch_fetch_pr_details(None);
    assert!(details.is_empty());
    for c in [Category::HighPriority, Category::MediumPriority, Category::MyApproved] {
        assert!(classify(c, sample_candidates(), &details, "alice").is_empty());
    }
    for c in [Category::LowPriority, Category::MyNeedsReview, Category::MyChangesRequested] {
        let out = classify(c, sample_candidates(), &details, "alice");
        assert_eq!(numbers(&out), vec![3, 2, 1]);
        assert!(out.iter().all(|p| p.approvals.is_empty() && p.requested_reviewers.is_empty()));
    }
}

#[test]
fn low_priority_merges_overlapping_searches() {
    let first = SearchOutcome::Found(vec![
        item(1, "dave", "a"),
        item(2, "atulify", "b"),
        item(3, "erin", "c"),
    ]);
    let second = SearchOutcome::Found(vec![item(3, "erin", "c"), item(4, "frank", "d"), item(1, "dave", "a")]);
    let merged = gather_candidates(Category::LowPriority, vec![first, second], "atulify").unwrap();
    assert_eq!(candidate_numbers(&merged), vec![1, 3, 4]);
}

#[test]
fn low_priority_fails_when_a_search_fails() {
    let first = SearchOutcome::Failed("rate limited".to_string());
    let second = SearchOutcome::Found(vec![item(4, "frank", "d")]);
    let r = gather_candidates(Category::LowPriority, vec![first, second], "atulify");
    assert_eq!(r, Err("Failed to search PRs: rate limited".to_string()));
    let first = SearchOutcome::Found(vec![item(4, "frank", "d")]);
    let second = SearchOutcome::Unreadable("bad json".to_string());
    let r = gather_candidates(Category::LowPriority, vec![first, second], "atulify");
    assert_eq!(r, Err("Failed to parse PR JSON: bad json".to_string()));
    let first = SearchOutcome::Unreadable("eof".to_string());
    let second = SearchOutcome::NotRun("denied".to_string());
    let r = gather_candidates(Category::LowPriority, vec![first, second], "atulify");
    assert_eq!(r, Err("Failed to parse PR JSON: eof".to_string()));
}

#[test]
fn low_priority_stops_when_tool_cannot_start() {
    let first = SearchOutcome::Found(vec![item(4, "frank", "d")]);
    let second = SearchOutcome::NotRun("no such file".to_string());
    let r = gather_candidates(Category::LowPriority, vec![first, second], "atulify");
    assert_eq!(r, Err("Failed to run gh command: no such file".to_string()));
}

#[test]
fn single_search_errors_end_the_fetch() {
    let r = gather_candidates(Category::HighPriority, vec![SearchOutcome::Failed("boom".to_string())], "me");
    assert_eq!(r, Err("Failed to search PRs: boom".to_string()));
    let r = gather_candidates(Category::MyApproved, vec![SearchOutcome::Unreadable("eof".to_string())], "me");
    assert_eq!(r, Err("Failed to parse PR JSON: eof".to_string()));
    let r = gather_candidates(Category::MediumPriority, vec![SearchOutcome::NotRun("denied".to_string())], "me");
    assert_eq!(r, Err("Failed to run gh command: denied".to_string()));
}

#[test]
fn own_pull_requests_are_left_out_of_review_lists() {
    let hits = vec![item(1, "Atulify", "a"), item(2, "dave", "b")];
    let high = gather_candidates(Category::HighPriority, vec![SearchOutcome::Found(hits.clone())], "atulify").unwrap();
    assert_eq!(candidate_numbers(&high), vec![2]);
    let mine = gather_candidates(Category::MyApproved, vec![SearchOutcome::Found(hits)], "atulify").unwrap();
    assert_eq!(candidate_numbers(&mine), vec![1, 2]);
}

#[test]
fn login_comparison_ignores_case() {
    assert!(is_same_login("ATULIFY", "atulify"));
    assert!(!is_same_login("atul", "atulify"));
}

#[test]
fn search_arguments_per_category() {
    let low = search_args(Category::LowPriority, "me", "org/team");
    assert_eq!(low.len(), 2);
    let expected: Vec<String> = [
        "search", "prs", "--repo", "shop/world", "--state", "open", "--review-requested", "me", "--json",
        "number,title,url,author,createdAt", "--limit", "50",
    ]
    .iter()
    .map(|s| s.to_string())
    .collect();
    assert_eq!(low[0], expected);
    assert_eq!(low[1][7], "org/team");
    let changes = search_args(Category::MyChangesRequested, "me", "org/team");
    assert_eq!(changes.len(), 1);
    assert_eq!(&changes[0][6..10], &["--author", "me", "--review", "changes_requested"]);
}

#[test]
fn entry_from_search_hit() {
    let pr = to_github_pr(item(9, "dave", "t"), vec![approval("bob", "t2")], vec!["team:x".to_string()]);
    assert_eq!(pr.number, 9);
    assert_eq!(pr.url, "https://github.com/shop/world/pull/9");
    assert_eq!(pr.approvals.len(), 1);
    assert_eq!(pr.requested_reviewers, vec!["team:x".to_string()]);
}

#[test]
fn cache_serves_fresh_results_and_expires() {
    let mut cache = PrCache::new();
    assert!(cached_result(&cache, Category::HighPriority, None, 0).is_none());
    let list = classify(Category::MediumPriority, sample_candidates(), &sample_details(), "alice");
    let returned = store_result(&mut cache, Category::HighPriority, list.clone(), 1_000);
    assert_eq!(returned, list);
    let hit = cached_result(&cache, Category::HighPriority, None, 1_000 + CACHE_TTL_MS - 1).unwrap();
    assert_eq!(hit, list);
    assert!(cached_result(&cache, Category::HighPriority, Some(false), 2_000).is_some());
    assert!(cached_result(&cache, Category::HighPriority, Some(true), 2_000).is_none());
    assert!(cached_result(&cache, Category::HighPriority, None, 1_000 + CACHE_TTL_MS).is_none());
    assert!(cached_result(&cache, Category::LowPriority, None, 1_000).is_none());
}

#[test]
fn cache_invalidation_by_name() {
    let mut cache = PrCache::new();
    store_result(&mut cache, Category::HighPriority, vec![], 0);
    store_result(&mut cache, Category::LowPriority, vec![], 0);
    assert_eq!(invalidate_pr_cache(&mut cache, Some("high".to_string())), Ok(()));
    assert!(cache.get(Category::HighPriority, 1).is_none());
    assert!(cache.get(Category::LowPriority, 1).is_some());
    store_result(&mut cache, Category::HighPriority, vec![], 0);
    invalidate_pr_cache(&mut cache, Some("everything".to_string())).unwrap();
    assert!(cache.get(Category::HighPriority, 1).is_none());
    assert!(cache.get(Category::LowPriority, 1).is_none());
    store_result(&mut cache, Category::MyApproved, vec![], 0);
    invalidate_pr_cache(&mut cache, None).unwrap();
    assert!(cache.get(Category::MyApproved, 1).is_none());
}

#[test]
fn cache_slot_validity() {
    let mut cache = PrCache::new();
    assert!(!PrCache::is_valid(&cache.my_needs_review, 5));
    store_result(&mut cache, Category::MyNeedsReview, vec![], 100);
    assert!(PrCache::is_valid(&cache.my_needs_review, 100));
    assert!(PrCache::is_valid(&cache.my_needs_review, 50));
    assert!(!PrCache::is_valid(&cache.my_needs_review, 100 + CACHE_TTL_MS));
}

#[test]
fn category_names() {
    assert_eq!(Category::from_name("changes_requested"), Some(Category::MyChangesRequested));
    assert_eq!(Category::from_name("needs_review"), Some(Category::MyNeedsReview));
    assert_eq!(Category::from_name("High"), None);
}

#[test]
fn finishing_a_fetch_fills_the_slot() {
    let mut cache = PrCache::new();
    let out = finish_fetch(&mut cache, Category::MediumPriority, sample_candidates(), &sample_details(), "alice", 10);
    assert_eq!(numbers(&out), vec![1]);
    assert_eq!(cache.get(Category::MediumPriority, 20), Some(out));
    assert!(cache.get(Category::HighPriority, 20).is_none());
}

#[test]
fn details_request_only_for_candidates() {
    assert_eq!(details_request(&vec![]), None);
    let args = details_request(&sample_candidates()).unwrap();
    assert_eq!(args.len(), 4);
    assert!(args[3].contains("pr1: pullRequest(number: 1)"));
    assert!(args[3].contains("\npr3: pullRequest(number: 3)"));
}
