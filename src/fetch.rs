//! The steps of a worklist fetch between the tool calls: the caller runs the
//! searches and the batch call, and hands each result to the next step.

use vstd::prelude::*;
use std::collections::HashMap;
use crate::cache::PrCache;
use crate::classify::{Category, GhPrSearchItem, candidate_numbers, classify, numbers_of, selected, sorted_by_created};
use crate::models::{GitHubPr, prs_view};
use crate::reviews::{PrDetails, batch_query_args, query_text, strings_view};

verus! {

/// The arguments of the batch call for the candidates, or none when there are
/// no candidates and so no call to make.
pub fn details_request(candidates: &Vec<GhPrSearchItem>) -> (r: Option<Vec<String>>)
    ensures
        r is None <==> candidates@.len() == 0,
        r matches Some(args) ==> strings_view(args@) == seq![
            "api"@,
            "graphql"@,
            "-f"@,
            "query="@ + query_text(numbers_of(candidates@)),
        ],
{
    let numbers = candidate_numbers(candidates);
    batch_query_args(&numbers)
}

/// Classifies the candidates with their details, stores the list in the
/// category's slot at `now`, and hands it back.
pub fn finish_fetch(
    cache: &mut PrCache,
    c: Category,
    candidates: Vec<GhPrSearchItem>,
    details: &HashMap<u64, PrDetails>,
    me: &str,
    now: u64,
) -> (r: Vec<GitHubPr>)
    ensures
        sorted_by_created(prs_view(r@)),
        prs_view(r@).to_multiset() == selected(c, candidates@, details@, me@).to_multiset(),
        final(cache)@ == old(cache)@.insert(c, (prs_view(r@), now)),
{
    let result = classify(c, candidates, details, me);
    crate::cache::store_result(cache, c, result, now)
}

} // verus!
