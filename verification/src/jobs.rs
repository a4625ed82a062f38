//! Single-flight job coordination.
//!
//! The job table maps a cache key to the start timestamp of the transcode
//! attempt presumed in flight for that key. A claim is granted when no record
//! exists, or when the existing record has gone stale — a safety valve
//! against a crashed or hung producer holding the slot forever. This is a
//! best-effort single-flight, not a strict lock: duplicate launches after the
//! staleness timeout are an accepted, bounded cost, since the producer is
//! idempotent for a given key.
//!
//! The table itself holds no clock: callers pass the current time in
//! milliseconds, so every decision is a pure function of table state and
//! arguments.

use vstd::prelude::*;

use crate::assoc::as_map;
use crate::assoc::lemma_as_map_contains;
use crate::assoc::lemma_as_map_index;
use crate::assoc::lemma_as_map_push;
use crate::assoc::lemma_as_map_remove;
use crate::assoc::lemma_as_map_update;
use crate::assoc::pairs_unique;

verus! {

/// Age (milliseconds) beyond which an unreleased claim no longer blocks a
/// new claim.
pub const STALENESS_TIMEOUT_MS: u64 = 30000;

/// Whether a claim started at `started_ms` is stale at `now_ms`.
pub open spec fn spec_is_stale(started_ms: u64, now_ms: u64) -> bool {
    now_ms > started_ms + STALENESS_TIMEOUT_MS
}

/// Whether a claim for `key` at `now_ms` is granted against table state `m`:
/// either no record exists, or the record is stale.
pub open spec fn spec_grants_claim(m: Map<u128, u64>, key: u128, now_ms: u64) -> bool {
    !m.contains_key(key) || spec_is_stale(m[key], now_ms)
}

/// What a claim attempt reported.
pub enum ClaimOutcome {
    /// The caller now owns launching the job for this key.
    Claimed,
    /// Another caller is already driving this key to readiness; the caller
    /// must only wait, never launch a duplicate.
    AlreadyInFlight,
}

/// The claim table: cache key to job-start timestamp (milliseconds).
pub struct JobTable {
    entries: Vec<(u128, u64)>,
}

impl View for JobTable {
    type V = Map<u128, u64>;

    closed spec fn view(&self) -> Map<u128, u64> {
        as_map(self.entries@)
    }
}

impl JobTable {
    /// Internal invariant: one record per key.
    pub closed spec fn wf(&self) -> bool {
        pairs_unique(self.entries@)
    }

    /// An empty table.
    pub fn new() -> (t: JobTable)
        ensures
            t.wf(),
            t@ == Map::<u128, u64>::empty(),
    {
        JobTable { entries: Vec::new() }
    }

    /// Attempts to claim `key` at time `now_ms`. Grants the claim — and
    /// records `now_ms` under the key — when no record exists or the
    /// existing record is stale; otherwise reports the job as already in
    /// flight and leaves the table unchanged.
    pub fn try_claim(&mut self, key: u128, now_ms: u64) -> (r: ClaimOutcome)
        requires
            old(self).wf(),
        ensures
            final(self).wf(),
            (r is Claimed) <==> spec_grants_claim(old(self)@, key, now_ms),
            (r is Claimed) ==> final(self)@ == old(self)@.insert(key, now_ms),
            (r is AlreadyInFlight) ==> final(self)@ == old(self)@,
    {
        let n = self.entries.len();
        let mut i: usize = 0;
        while i < n
            invariant
                i <= n,
                n == self.entries@.len(),
                self == old(self),
                self.wf(),
                forall|j: int| 0 <= j < i ==> self.entries@[j].0 != key,
            decreases n - i,
        {
            if self.entries[i].0 == key {
                let started = self.entries[i].1;
                proof {
                    lemma_as_map_index(self.entries@, i as int);
                }
                if now_ms > started && now_ms - started > STALENESS_TIMEOUT_MS {
                    self.entries.set(i, (key, now_ms));
                    proof {
                        lemma_as_map_update(old(self).entries@, i as int, key, now_ms);
                    }
                    return ClaimOutcome::Claimed;
                } else {
                    return ClaimOutcome::AlreadyInFlight;
                }
            }
            i = i + 1;
        }
        proof {
            lemma_as_map_contains(self.entries@, key);
            lemma_as_map_push(self.entries@, key, now_ms);
        }
        self.entries.push((key, now_ms));
        ClaimOutcome::Claimed
    }

    /// Removes the record for `key`, if any. Idempotent: releasing an absent
    /// key leaves the table as it stands, so any number of waiters may call
    /// it once they observe readiness or give up.
    pub fn release(&mut self, key: u128)
        requires
            old(self).wf(),
        ensures
            final(self).wf(),
            final(self)@ == old(self)@.remove(key),
    {
        let n = self.entries.len();
        let mut i: usize = 0;
        while i < n
            invariant
                i <= n,
                n == self.entries@.len(),
                self == old(self),
                self.wf(),
                forall|j: int| 0 <= j < i ==> self.entries@[j].0 != key,
            decreases n - i,
        {
            if self.entries[i].0 == key {
                proof {
                    lemma_as_map_remove(self.entries@, i as int);
                    assert(pairs_unique(self.entries@.remove(i as int)));
                }
                self.entries.remove(i);
                return ;
            }
            i = i + 1;
        }
        proof {
            lemma_as_map_contains(self.entries@, key);
            assert(self@ =~= self@.remove(key));
        }
    }
}

/// Law: claims are single-flight until staleness. Against a table with no
/// record for `key`, a claim at `n0` is granted; a second claim at any `n1`
/// within the staleness timeout of the recorded `n0` is refused; once the
/// timeout has elapsed with no release, a claim at `n2` is granted again;
/// and a release frees the slot at once, before any timeout.
pub proof fn lemma_single_flight(m0: Map<u128, u64>, key: u128, n0: u64, n1: u64, n2: u64)
    requires
        !m0.contains_key(key),
        n1 <= n0 + STALENESS_TIMEOUT_MS,
        n2 > n0 + STALENESS_TIMEOUT_MS,
    ensures
        spec_grants_claim(m0, key, n0),
        !spec_grants_claim(m0.insert(key, n0), key, n1),
        spec_grants_claim(m0.insert(key, n0), key, n2),
        spec_grants_claim(m0.insert(key, n0).remove(key), key, n1),
{
}

} // verus!
