//! A cache of the latest simulation snapshot, refreshed by at most one
//! outstanding fetch at a time (Idle -> Fetching -> Idle).
//!
//! The fetch itself runs elsewhere: `begin_refresh` says whether to issue one,
//! and its outcome is handed back through `finish_refresh`. Readers never wait:
//! they see whatever snapshot is cached.
use vstd::prelude::*;

verus! {

pub struct SnapshotCache<T> {
    /// The latest snapshot that arrived, if any did.
    pub snapshot: Option<T>,
    /// Whether a fetch is outstanding.
    pub fetching: bool,
}

/// Whether a refresh trigger issues a fetch: only when none is outstanding.
pub open spec fn trigger_issues(fetching: bool) -> bool {
    !fetching
}

/// Number of fetches issued by `n` refresh triggers in a row, with no fetch
/// completing in between, starting from the given flag.
pub open spec fn fetches_issued(fetching: bool, n: nat) -> nat
    decreases n,
{
    if n == 0 {
        0
    } else {
        (if trigger_issues(fetching) {
            1nat
        } else {
            0nat
        }) + fetches_issued(true, (n - 1) as nat)
    }
}

/// The flag after `n` refresh triggers in a row, with no fetch completing.
pub open spec fn fetching_after(fetching: bool, n: nat) -> bool
    decreases n,
{
    if n == 0 {
        fetching
    } else {
        fetching_after(true, (n - 1) as nat)
    }
}

impl<T> SnapshotCache<T> {
    /// An empty cache with no fetch outstanding.
    pub fn new() -> (r: SnapshotCache<T>)
        ensures
            r.snapshot is None,
            !r.fetching,
    {
        SnapshotCache { snapshot: None, fetching: false }
    }

    /// A refresh trigger: moves Idle to Fetching and returns `true` (the caller
    /// then issues the fetch); while a fetch is outstanding it returns `false`
    /// and changes nothing.
    pub fn begin_refresh(&mut self) -> (r: bool)
        ensures
            r == trigger_issues(old(self).fetching),
            final(self).fetching,
            final(self).snapshot == old(self).snapshot,
    {
        if self.fetching {
            false
        } else {
            self.fetching = true;
            true
        }
    }

    /// The outstanding fetch completed: a snapshot that arrived replaces the
    /// cached one, a failed fetch (`None`) keeps the stale one, and the cache is
    /// Idle again either way.
    pub fn finish_refresh(&mut self, result: Option<T>)
        requires
            old(self).fetching,
        ensures
            !final(self).fetching,
            result is Some ==> final(self).snapshot == result,
            result is None ==> final(self).snapshot == old(self).snapshot,
    {
        if result.is_some() {
            self.snapshot = result;
        }
        self.fetching = false;
    }

    /// The cached snapshot, without waiting for an outstanding fetch.
    pub fn latest(&self) -> (r: Option<&T>)
        ensures
            r == match self.snapshot {
                Some(s) => Some(&s),
                None => None::<&T>,
            },
    {
        match &self.snapshot {
            Some(s) => Some(s),
            None => None,
        }
    }

    pub fn is_fetching(&self) -> (r: bool)
        ensures
            r == self.fetching,
    {
        self.fetching
    }
}

/// Single flight: any number of refresh triggers in a row, with no fetch
/// completing, issue at most one fetch (exactly one when the cache was Idle and
/// there was at least one trigger, none while a fetch is outstanding), and once
/// triggered the cache stays Fetching until the fetch completes.
pub proof fn lemma_single_flight(fetching: bool, n: nat)
    ensures
        fetches_issued(fetching, n) == (if !fetching && n > 0 {
            1nat
        } else {
            0nat
        }),
        fetches_issued(fetching, n) <= 1,
        n > 0 ==> fetching_after(fetching, n),
        fetching ==> fetching_after(fetching, n),
    decreases n,
{
    if n > 0 {
        lemma_single_flight(true, (n - 1) as nat);
    }
}

} // verus!
