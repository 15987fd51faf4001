//! Sync-correlation heuristic cache.
//!
//! A per-domain record of recently observed Sync (and FollowUp)
//! senders, used to guess a receiver's transmitter before any
//! Announce-based data exists.  Every update evicts entries older than
//! sixty seconds; a domain exists in the cache exactly as long as it
//! has at least one entry.

use vstd::prelude::*;

use crate::identity::ClockIdentity;
use crate::seq_util::{lemma_filter_elem_of, lemma_filter_take_step};

verus! {

/// Cache entries older than this bound (in milliseconds) are evicted.
pub const SYNC_SENDER_RETENTION_MS: u64 = 60000;

/// One recently seen Sync sender in one domain.
#[derive(Clone, Copy, Debug)]
pub struct SyncSenderRecord {
    pub domain: u8,
    pub identity: ClockIdentity,
    /// When the sender was last seen, in milliseconds on the caller's
    /// clock.
    pub last_sync_ms: u64,
}

/// Elapsed time from `t` to `now`, clamped at zero if the caller's
/// clock ran backwards.
pub open spec fn spec_age(now_ms: u64, t: u64) -> u64 {
    if now_ms >= t {
        (now_ms - t) as u64
    } else {
        0
    }
}

/// Whether an entry stamped `t` survives eviction at `now_ms`.
pub open spec fn spec_retained(now_ms: u64, t: u64) -> bool {
    spec_age(now_ms, t) < SYNC_SENDER_RETENTION_MS
}

/// The index of the entry the heuristic picks for `domain`: the most
/// recently updated sender in that domain, the later entry winning a
/// tie.  `None` where the domain has no entry at all.
pub open spec fn spec_latest(entries: Seq<SyncSenderRecord>, domain: u8) -> Option<int>
    decreases entries.len(),
{
    if entries.len() == 0 {
        None
    } else {
        let i = entries.len() - 1;
        let rest = spec_latest(entries.drop_last(), domain);
        if entries.last().domain == domain && (rest is None || entries[rest->Some_0].last_sync_ms
            <= entries.last().last_sync_ms) {
            Some(i as int)
        } else {
            rest
        }
    }
}

/// The picked index is in range, in the domain, carries the maximal
/// timestamp of its domain, and is the last entry to do so; and an
/// index is picked exactly when the domain has an entry.
pub proof fn lemma_latest_properties(entries: Seq<SyncSenderRecord>, domain: u8)
    ensures
        spec_latest(entries, domain) is None <==> (forall|j: int|
            0 <= j < entries.len() ==> entries[j].domain != domain),
        spec_latest(entries, domain) matches Some(m) ==> {
            &&& 0 <= m < entries.len()
            &&& entries[m].domain == domain
            &&& (forall|j: int|
                0 <= j < entries.len() && entries[j].domain == domain ==> entries[j].last_sync_ms
                    <= entries[m].last_sync_ms)
            &&& (forall|j: int|
                m < j < entries.len() && entries[j].domain == domain ==> entries[j].last_sync_ms
                    < entries[m].last_sync_ms)
        },
    decreases entries.len(),
{
    if entries.len() > 0 {
        lemma_latest_properties(entries.drop_last(), domain);
        assert(forall|j: int|
            0 <= j < entries.len() - 1 ==> entries[j] == entries.drop_last()[j]);
    }
}

/// The cache contents after upserting `(domain, sender)` at `now_ms`:
/// the pair's entry is restamped in place (or appended if new), then
/// entries older than the retention bound are evicted.
pub open spec fn spec_upserted(
    entries: Seq<SyncSenderRecord>,
    domain: u8,
    sender: ClockIdentity,
    now_ms: u64,
) -> Seq<SyncSenderRecord> {
    let stamped = SyncSenderRecord { domain, identity: sender, last_sync_ms: now_ms };
    let upserted = if exists|k: int|
        0 <= k < entries.len() && entries[k].domain == domain && entries[k].identity.clock_id@
            == sender.clock_id@ {
        entries.update(
            choose|k: int|
                0 <= k < entries.len() && entries[k].domain == domain
                    && entries[k].identity.clock_id@ == sender.clock_id@,
            stamped,
        )
    } else {
        entries.push(stamped)
    };
    upserted.filter(|e: SyncSenderRecord| spec_retained(now_ms, e.last_sync_ms))
}

/// The per-domain cache of recent Sync senders, held as a flat list of
/// (domain, sender, last-seen) entries in insertion order.
#[derive(Debug)]
pub struct SyncSenderCache {
    pub entries: Vec<SyncSenderRecord>,
}

/// Each (domain, sender) pair has at most one entry.
pub open spec fn spec_entries_unique(entries: Seq<SyncSenderRecord>) -> bool {
    forall|i: int, j: int|
        0 <= i < j < entries.len() ==> !(entries[i].domain == entries[j].domain
            && entries[i].identity.clock_id@ == entries[j].identity.clock_id@)
}

impl SyncSenderCache {
    pub open spec fn wf(&self) -> bool {
        spec_entries_unique(self.entries@)
    }

    pub fn new() -> (r: SyncSenderCache)
        ensures
            r.entries@ == Seq::<SyncSenderRecord>::empty(),
            r.wf(),
    {
        SyncSenderCache { entries: Vec::new() }
    }

    /// Drops every entry older than the retention bound, keeping the
    /// fresh entries in their original order.
    pub fn cleanup(&mut self, now_ms: u64)
        ensures
            final(self).entries@ == old(self).entries@.filter(
                |e: SyncSenderRecord| spec_retained(now_ms, e.last_sync_ms),
            ),
            forall|i: int|
                0 <= i < final(self).entries@.len() ==> spec_retained(
                    now_ms,
                    (#[trigger] final(self).entries@[i]).last_sync_ms,
                ),
            old(self).wf() ==> final(self).wf(),
    {
        let ghost pred = |e: SyncSenderRecord| spec_retained(now_ms, e.last_sync_ms);
        let n = self.entries.len();
        let mut kept: Vec<SyncSenderRecord> = Vec::new();
        let mut i: usize = 0;
        proof {
            assert(self.entries@.take(0).filter(pred) =~= Seq::<SyncSenderRecord>::empty())
                by {
                reveal_with_fuel(Seq::filter, 2);
            }
        }
        while i < n
            invariant
                n == self.entries@.len(),
                i <= n,
                self.entries@ == old(self).entries@,
                pred == (|e: SyncSenderRecord| spec_retained(now_ms, e.last_sync_ms)),
                kept@ == self.entries@.take(i as int).filter(pred),
                forall|j: int|
                    0 <= j < kept@.len() ==> spec_retained(
                        now_ms,
                        (#[trigger] kept@[j]).last_sync_ms,
                    ),
            decreases n - i,
        {
            let e = self.entries[i];
            proof {
                lemma_filter_take_step(self.entries@, pred, i as int);
            }
            let retained = if now_ms >= e.last_sync_ms {
                now_ms - e.last_sync_ms < SYNC_SENDER_RETENTION_MS
            } else {
                true
            };
            if retained {
                kept.push(e);
            }
            i = i + 1;
        }
        proof {
            assert(self.entries@.take(n as int) =~= self.entries@);
        }
        self.entries = kept;
        proof {
            if old(self).wf() {
                lemma_filter_keeps_uniqueness(old(self).entries@, pred);
            }
        }
    }

    /// Upserts `(domain, sender)` at `now_ms` — refreshing the entry's
    /// timestamp if the pair is already cached, appending it otherwise
    /// — and then evicts entries older than the retention bound.
    pub fn upsert(&mut self, domain: u8, sender: ClockIdentity, now_ms: u64)
        requires
            old(self).wf(),
        ensures
            final(self).wf(),
            final(self).entries@ == spec_upserted(old(self).entries@, domain, sender, now_ms),
    {
        let stamped = SyncSenderRecord { domain, identity: sender, last_sync_ms: now_ms };
        let n = self.entries.len();
        let mut i: usize = 0;
        let mut found = false;
        while i < n && !found
            invariant
                n == self.entries@.len(),
                i <= n,
                old(self).wf(),
                !found ==> self.entries@ == old(self).entries@,
                !found ==> forall|j: int|
                    0 <= j < i ==> !(old(self).entries@[j].domain == domain && old(
                        self,
                    ).entries@[j].identity.clock_id@ == sender.clock_id@),
                found ==> 0 < i <= n && old(self).entries@[i - 1].domain == domain && old(
                    self,
                ).entries@[i - 1].identity.clock_id@ == sender.clock_id@ && self.entries@ == old(
                    self,
                ).entries@.update(i - 1, stamped) && (forall|j: int|
                    0 <= j < i - 1 ==> !(old(self).entries@[j].domain == domain && old(
                        self,
                    ).entries@[j].identity.clock_id@ == sender.clock_id@)),
            decreases n - i,
        {
            let matches_here = self.entries[i].domain == domain && identities_equal(
                &self.entries[i].identity,
                &sender,
            );
            if matches_here {
                self.entries.set(i, stamped);
                found = true;
            }
            i = i + 1;
        }
        if !found {
            self.entries.push(stamped);
        }
        proof {
            let o = old(self).entries@;
            if found {
                let w = choose|k: int|
                    0 <= k < o.len() && o[k].domain == domain && o[k].identity.clock_id@
                        == sender.clock_id@;
                assert(o[i - 1].domain == domain && o[i - 1].identity.clock_id@
                    == sender.clock_id@);
                assert(w == i - 1) by {
                    if w != i - 1 {
                        assert(!(o[w].domain == o[i - 1].domain && o[w].identity.clock_id@
                            == o[i - 1].identity.clock_id@));
                    }
                }
                assert(spec_entries_unique(self.entries@));
            } else {
                assert(forall|j: int|
                    0 <= j < o.len() ==> !(o[j].domain == domain && o[j].identity.clock_id@
                        == sender.clock_id@));
                assert(spec_entries_unique(self.entries@));
            }
        }
        self.cleanup(now_ms);
    }

    /// The heuristic pick for `domain`: the most recently updated
    /// sender, together with the age of its entry.  `None` exactly when
    /// the domain has no cached entry.
    pub fn latest_for_domain(&self, domain: u8, now_ms: u64) -> (r: Option<(ClockIdentity, u64)>)
        ensures
            r is None <==> spec_latest(self.entries@, domain) is None,
            r matches Some(p) ==> {
                let m = spec_latest(self.entries@, domain)->Some_0;
                &&& p.0 == self.entries@[m].identity
                &&& p.1 == spec_age(now_ms, self.entries@[m].last_sync_ms)
            },
    {
        let n = self.entries.len();
        let mut best: Option<usize> = None;
        let mut i: usize = 0;
        proof {
            assert(self.entries@.take(0) =~= Seq::<SyncSenderRecord>::empty());
        }
        while i < n
            invariant
                n == self.entries@.len(),
                i <= n,
                match best {
                    None => spec_latest(self.entries@.take(i as int), domain) is None,
                    Some(b) => b < i && spec_latest(self.entries@.take(i as int), domain) == Some(
                        b as int,
                    ),
                },
            decreases n - i,
        {
            let e = self.entries[i];
            proof {
                assert(self.entries@.take(i as int + 1).drop_last() =~= self.entries@.take(
                    i as int,
                ));
                assert(self.entries@.take(i as int + 1).last() == self.entries@[i as int]);
            }
            if e.domain == domain {
                let replace = match best {
                    None => true,
                    Some(b) => self.entries[b].last_sync_ms <= e.last_sync_ms,
                };
                if replace {
                    best = Some(i);
                }
            }
            i = i + 1;
        }
        proof {
            assert(self.entries@.take(n as int) =~= self.entries@);
        }
        match best {
            None => None,
            Some(b) => {
                let e = self.entries[b];
                let age = if now_ms >= e.last_sync_ms {
                    now_ms - e.last_sync_ms
                } else {
                    0
                };
                Some((e.identity, age))
            },
        }
    }
}

/// Exact byte equality of two clock identities.
pub fn identities_equal(a: &ClockIdentity, b: &ClockIdentity) -> (r: bool)
    ensures
        r == (a.clock_id@ == b.clock_id@),
{
    let mut i: usize = 0;
    while i < 8
        invariant
            i <= 8,
            forall|j: int| 0 <= j < i ==> a.clock_id@[j] == b.clock_id@[j],
        decreases 8 - i,
    {
        if a.clock_id[i] != b.clock_id[i] {
            return false;
        }
        i = i + 1;
    }
    proof {
        assert(a.clock_id@ =~= b.clock_id@);
    }
    true
}

/// Filtering keeps pairwise (domain, identity) uniqueness.
proof fn lemma_filter_keeps_uniqueness(
    s: Seq<SyncSenderRecord>,
    pred: spec_fn(SyncSenderRecord) -> bool,
)
    requires
        spec_entries_unique(s),
    ensures
        spec_entries_unique(s.filter(pred)),
    decreases s.len(),
{
    reveal(Seq::filter);
    if s.len() > 0 {
        assert(spec_entries_unique(s.drop_last())) by {
            assert(forall|j: int| 0 <= j < s.len() - 1 ==> s.drop_last()[j] == s[j]);
        }
        lemma_filter_keeps_uniqueness(s.drop_last(), pred);
        let f = s.filter(pred);
        let fr = s.drop_last().filter(pred);
        if pred(s.last()) {
            assert(f == fr.push(s.last()));
            assert forall|i: int, j: int| 0 <= i < j < f.len() implies !(f[i].domain == f[j].domain
                && f[i].identity.clock_id@ == f[j].identity.clock_id@) by {
                if j < f.len() - 1 {
                    assert(f[i] == fr[i] && f[j] == fr[j]);
                } else {
                    assert(f[j] == s.last());
                    assert(f[i] == fr[i]);
                    lemma_filter_elem_of(s.drop_last(), pred, i);
                    let k = choose|k: int|
                        0 <= k < s.drop_last().len() && s.drop_last()[k] == fr[i];
                    assert(s[k] == fr[i] && 0 <= k < s.len() - 1);
                    assert(!(s[k].domain == s[s.len() - 1].domain && s[k].identity.clock_id@
                        == s[s.len() - 1].identity.clock_id@));
                }
            }
        } else {
            assert(f == fr);
        }
    }
}

} // verus!
