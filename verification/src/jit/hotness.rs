use vstd::prelude::*;

verus! {

/// Lightweight execution counter used to promote cold code.
#[derive(Debug)]
pub struct Hotness {
    hits: u32,
}

impl Hotness {
    /// The number of recorded hits.
    pub closed spec fn hits(&self) -> u32 {
        self.hits
    }

    /// Records one execution; the count saturates at `u32::MAX`.
    pub fn hit(&mut self) -> (r: u32)
        ensures
            final(self).hits() == crate::runtime::dispatch::count_hit_spec(old(self).hits()),
            r == final(self).hits(),
    {
        self.hits = self.hits.saturating_add(1);
        self.hits
    }

    pub fn is_hot(&self, threshold: u32) -> (r: bool)
        ensures
            r == (self.hits() >= threshold),
    {
        self.hits >= threshold
    }
}

/// The hit count of a fresh counter after `k` calls of `hit`.
pub open spec fn hits_after(k: nat) -> u32
    decreases k,
{
    if k == 0 { 0 } else { crate::runtime::dispatch::count_hit_spec(hits_after((k - 1) as nat)) }
}

/// A fresh counter holds, after `k` hits, `k` or `u32::MAX` where `k` is
/// larger; so it is hot for `threshold` exactly when it was hit at least
/// `threshold` times.
pub proof fn lemma_hits_after(k: nat, threshold: u32)
    ensures
        hits_after(k) == (if k >= u32::MAX { u32::MAX as nat } else { k }),
        (hits_after(k) >= threshold) == (k >= threshold),
    decreases k,
{
    if k > 0 {
        lemma_hits_after((k - 1) as nat, threshold);
    }
}

impl Default for Hotness {
    fn default() -> (r: Self)
        ensures
            r.hits() == 0,
    {
        Hotness { hits: 0 }
    }
}

} // verus!
