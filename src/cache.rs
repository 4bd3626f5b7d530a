//! The time-bounded store of the latest worklist of each category.

use vstd::prelude::*;
use crate::classify::Category;
use crate::models::{GitHubPr, PrView, prs_view, copy_prs};
use crate::text::str_equals;

verus! {

/// How long a stored worklist stays fresh, in seconds.
pub const CACHE_TTL_SECS: u64 = 600;

/// The same span in milliseconds, the unit of the cache's clock.
pub const CACHE_TTL_MS: u64 = CACHE_TTL_SECS * 1000;

/// A stored worklist and the time it was stored (milliseconds on a monotonic clock).
pub struct CachedPrData {
    pub prs: Vec<GitHubPr>,
    pub cached_at: u64,
}

/// One slot per category; a slot is empty until its first fetch and after an
/// invalidation.
pub struct PrCache {
    pub high_priority: Option<CachedPrData>,
    pub medium_priority: Option<CachedPrData>,
    pub low_priority: Option<CachedPrData>,
    pub my_approved: Option<CachedPrData>,
    pub my_changes_requested: Option<CachedPrData>,
    pub my_needs_review: Option<CachedPrData>,
}

/// What a slot holds, as plain values: the entries and the time they were stored.
pub type SlotView = (Seq<PrView>, u64);

/// Whether an entry stored at `at` is still fresh at `now`. A clock reading
/// earlier than the store time counts as no time elapsed.
pub open spec fn fresh(at: u64, now: u64) -> bool {
    (now as int) - (at as int) < CACHE_TTL_MS as int
}

/// What a read of category `c` at `now` finds in cache contents `m`.
pub open spec fn lookup(m: Map<Category, SlotView>, c: Category, now: u64) -> Option<Seq<PrView>> {
    if m.contains_key(c) && fresh(m[c].1, now) {
        Some(m[c].0)
    } else {
        None
    }
}

pub open spec fn slot_view(s: Option<CachedPrData>) -> Option<SlotView> {
    match s {
        Some(d) => Some((prs_view(d.prs@), d.cached_at)),
        None => None,
    }
}

impl PrCache {
    pub open spec fn slot(&self, c: Category) -> Option<CachedPrData> {
        match c {
            Category::HighPriority => self.high_priority,
            Category::MediumPriority => self.medium_priority,
            Category::LowPriority => self.low_priority,
            Category::MyApproved => self.my_approved,
            Category::MyChangesRequested => self.my_changes_requested,
            Category::MyNeedsReview => self.my_needs_review,
        }
    }
}

impl View for PrCache {
    type V = Map<Category, SlotView>;

    open spec fn view(&self) -> Map<Category, SlotView> {
        Map::new(|c: Category| self.slot(c) is Some, |c: Category| slot_view(self.slot(c))->0)
    }
}

impl CachedPrData {
    /// Whether this entry is still fresh at `now`.
    pub fn is_fresh(&self, now: u64) -> (r: bool)
        ensures
            r == fresh(self.cached_at, now),
    {
        now < self.cached_at || now - self.cached_at < CACHE_TTL_MS
    }
}

impl PrCache {
    /// A cache with every slot empty.
    pub fn new() -> (r: Self)
        ensures
            r@ == Map::<Category, SlotView>::empty(),
    {
        let r = PrCache {
            high_priority: None,
            medium_priority: None,
            low_priority: None,
            my_approved: None,
            my_changes_requested: None,
            my_needs_review: None,
        };
        assert(r@ =~= Map::<Category, SlotView>::empty());
        r
    }

    /// Whether a slot holds an entry that is still fresh at `now`.
    pub fn is_valid(cached: &Option<CachedPrData>, now: u64) -> (r: bool)
        ensures
            r == (cached matches Some(d) && fresh(d.cached_at, now)),
    {
        match cached {
            Some(d) => d.is_fresh(now),
            None => false,
        }
    }

    fn slot_ref(&self, c: Category) -> (r: &Option<CachedPrData>)
        ensures
            *r == self.slot(c),
    {
        match c {
            Category::HighPriority => &self.high_priority,
            Category::MediumPriority => &self.medium_priority,
            Category::LowPriority => &self.low_priority,
            Category::MyApproved => &self.my_approved,
            Category::MyChangesRequested => &self.my_changes_requested,
            Category::MyNeedsReview => &self.my_needs_review,
        }
    }

    /// A copy of the fresh worklist of `c` at `now`, if there is one.
    pub fn get(&self, c: Category, now: u64) -> (r: Option<Vec<GitHubPr>>)
        ensures
            r is Some <==> lookup(self@, c, now) is Some,
            r matches Some(v) ==> Some(prs_view(v@)) == lookup(self@, c, now),
    {
        match self.slot_ref(c) {
            Some(d) => {
                if d.is_fresh(now) {
                    Some(copy_prs(&d.prs))
                } else {
                    None
                }
            },
            None => None,
        }
    }

    fn set_slot(&mut self, c: Category, value: Option<CachedPrData>)
        ensures
            forall|k: Category| k != c ==> final(self).slot(k) == old(self).slot(k),
            final(self).slot(c) == value,
    {
        match c {
            Category::HighPriority => self.high_priority = value,
            Category::MediumPriority => self.medium_priority = value,
            Category::LowPriority => self.low_priority = value,
            Category::MyApproved => self.my_approved = value,
            Category::MyChangesRequested => self.my_changes_requested = value,
            Category::MyNeedsReview => self.my_needs_review = value,
        }
    }

    /// Replaces the slot of `c` with `prs`, stored at `now`.
    pub fn put(&mut self, c: Category, prs: Vec<GitHubPr>, now: u64)
        ensures
            final(self)@ == old(self)@.insert(c, (prs_view(prs@), now)),
    {
        let ghost before = self@;
        let ghost v = prs_view(prs@);
        self.set_slot(c, Some(CachedPrData { prs, cached_at: now }));
        assert(self@ =~= before.insert(c, (v, now)));
    }

    /// Empties the slot of `c`, or every slot when no category is named.
    pub fn invalidate(&mut self, c: Option<Category>)
        ensures
            final(self)@ == match c {
                Some(k) => old(self)@.remove(k),
                None => Map::<Category, SlotView>::empty(),
            },
    {
        let ghost before = self@;
        match c {
            Some(k) => {
                self.set_slot(k, None);
                assert(self@ =~= before.remove(k));
            },
            None => {
                self.high_priority = None;
                self.medium_priority = None;
                self.low_priority = None;
                self.my_approved = None;
                self.my_changes_requested = None;
                self.my_needs_review = None;
                assert(self@ =~= Map::<Category, SlotView>::empty());
            },
        }
    }
}

/// The worklist a fetch of `c` answers from the cache without calling the
/// tool: the fresh stored one, unless a refresh is forced.
pub fn cached_result(cache: &PrCache, c: Category, force_refresh: Option<bool>, now: u64) -> (r: Option<Vec<GitHubPr>>)
    ensures
        force_refresh == Some(true) ==> r is None,
        force_refresh != Some(true) ==> (r is Some <==> lookup(cache@, c, now) is Some),
        r matches Some(v) ==> Some(prs_view(v@)) == lookup(cache@, c, now),
{
    let force = match force_refresh {
        Some(f) => f,
        None => false,
    };
    if force {
        None
    } else {
        cache.get(c, now)
    }
}

/// Stores a fresh worklist of `c` and hands back the same list.
pub fn store_result(cache: &mut PrCache, c: Category, prs: Vec<GitHubPr>, now: u64) -> (r: Vec<GitHubPr>)
    ensures
        final(cache)@ == old(cache)@.insert(c, (prs_view(prs@), now)),
        prs_view(r@) == prs_view(prs@),
{
    let copy = copy_prs(&prs);
    cache.put(c, copy, now);
    prs
}

/// The category a name stands for in an invalidation request.
pub open spec fn category_named(name: Seq<char>) -> Option<Category> {
    if name == "high"@ {
        Some(Category::HighPriority)
    } else if name == "medium"@ {
        Some(Category::MediumPriority)
    } else if name == "low"@ {
        Some(Category::LowPriority)
    } else if name == "approved"@ {
        Some(Category::MyApproved)
    } else if name == "changes_requested"@ {
        Some(Category::MyChangesRequested)
    } else if name == "needs_review"@ {
        Some(Category::MyNeedsReview)
    } else {
        None
    }
}

impl Category {
    /// The category a name stands for (`high`, `medium`, `low`, `approved`,
    /// `changes_requested`, `needs_review`).
    pub fn from_name(name: &str) -> (r: Option<Category>)
        ensures
            r == category_named(name@),
    {
        if str_equals(name, "high") {
            Some(Category::HighPriority)
        } else if str_equals(name, "medium") {
            Some(Category::MediumPriority)
        } else if str_equals(name, "low") {
            Some(Category::LowPriority)
        } else if str_equals(name, "approved") {
            Some(Category::MyApproved)
        } else if str_equals(name, "changes_requested") {
            Some(Category::MyChangesRequested)
        } else if str_equals(name, "needs_review") {
            Some(Category::MyNeedsReview)
        } else {
            None
        }
    }
}

/// Invalidates the named category's slot; no name, or a name that stands for
/// no category, invalidates every slot.
pub fn invalidate_pr_cache(cache: &mut PrCache, category: Option<String>) -> (r: Result<(), String>)
    ensures
        r is Ok,
        final(cache)@ == match category {
            Some(name) => match category_named(name@) {
                Some(k) => old(cache)@.remove(k),
                None => Map::<Category, SlotView>::empty(),
            },
            None => Map::<Category, SlotView>::empty(),
        },
{
    let which = match &category {
        Some(name) => Category::from_name(name.as_str()),
        None => None,
    };
    cache.invalidate(which);
    Ok(())
}

/// A worklist stored at `t` is read back unchanged at any time before its
/// lifetime has passed, and is gone once it has passed or once its slot has
/// been invalidated.
pub proof fn lemma_cache_validity(m: Map<Category, SlotView>, c: Category, prs: Seq<PrView>, t: u64, later: u64)
    ensures
        t <= later && (later as int) < t + CACHE_TTL_MS ==> lookup(m.insert(c, (prs, t)), c, later) == Some(prs),
        (later as int) >= t + CACHE_TTL_MS ==> lookup(m.insert(c, (prs, t)), c, later) is None,
        lookup(m.remove(c), c, later) is None,
        lookup(Map::<Category, SlotView>::empty(), c, later) is None,
{
}

} // verus!
