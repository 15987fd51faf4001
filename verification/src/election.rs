//! BMCA election engine.
//!
//! Partitions the transmitter hosts with a known domain by domain
//! number, folds each domain's candidates through the pairwise BMCA
//! comparison keeping the running best, marks the surviving candidate
//! as the winner, and points every receiver in the domain at it.

use vstd::prelude::*;

use crate::host::PtpHost;
use crate::host_state::{
    spec_bmca_less, PtpHostState, PtpHostStateTimeReceiver, PtpHostStateTimeTransmitter,
    CONFIDENCE_FULL,
};
use crate::identity::{id_value, lemma_id_value_injective, ClockIdentity};
use crate::tracker::{spec_hosts_unique, PtpTracker};

verus! {

/// A host takes part in its domain's election exactly when it is in
/// transmitter state and its domain number is known.
pub open spec fn spec_is_candidate(h: PtpHost, d: u8) -> bool {
    h.domain_number == Some(d) && h.state is TimeTransmitter
}

/// The transmitter payload of a candidate.
pub open spec fn spec_candidate_tt(h: PtpHost) -> PtpHostStateTimeTransmitter {
    h.state->TimeTransmitter_0
}

/// Candidate `a` strictly beats candidate `b` under the BMCA cascade.
pub open spec fn spec_beats(a: PtpHost, b: PtpHost) -> bool {
    spec_bmca_less(spec_candidate_tt(a), a.clock_identity, spec_candidate_tt(b), b.clock_identity)
}

/// The index of the first candidate of domain `d` at or after `i`.
pub open spec fn spec_first_candidate(hosts: Seq<PtpHost>, d: u8, i: int) -> Option<int>
    decreases hosts.len() - i,
{
    if i < 0 || i >= hosts.len() {
        None
    } else if spec_is_candidate(hosts[i], d) {
        Some(i)
    } else {
        spec_first_candidate(hosts, d, i + 1)
    }
}

/// Folds the candidates of domain `d` from `i` on through the pairwise
/// comparison, keeping the running best; a later candidate replaces the
/// best only by strictly beating it.
pub open spec fn spec_fold_best(hosts: Seq<PtpHost>, d: u8, i: int, best: int) -> int
    decreases hosts.len() - i,
{
    if i < 0 || i >= hosts.len() {
        best
    } else {
        let next = if spec_is_candidate(hosts[i], d) && spec_beats(hosts[i], hosts[best]) {
            i
        } else {
            best
        };
        spec_fold_best(hosts, d, i + 1, next)
    }
}

/// The index of domain `d`'s elected transmitter: the fold of all its
/// candidates, `None` where the domain has none.
pub open spec fn spec_domain_winner(hosts: Seq<PtpHost>, d: u8) -> Option<int> {
    match spec_first_candidate(hosts, d, 0) {
        None => None,
        Some(f) => Some(spec_fold_best(hosts, d, f + 1, f)),
    }
}

/// What one election run leaves of host `i`: a candidate carries the
/// winner flag exactly if it won its domain, a receiver with a known
/// domain and an elected transmitter selects it with full confidence,
/// and every other host is untouched.
pub open spec fn spec_host_elected(pre: Seq<PtpHost>, i: int, h2: PtpHost) -> bool {
    let h = pre[i];
    match h.domain_number {
        None => h2 == h,
        Some(d) => match spec_domain_winner(pre, d) {
            None => h2 == h,
            Some(w) => match h.state {
                PtpHostState::Listening => h2 == h,
                PtpHostState::TimeTransmitter(t) => h2 == (PtpHost {
                    state: PtpHostState::TimeTransmitter(
                        PtpHostStateTimeTransmitter { is_bmca_winner: w == i, ..t },
                    ),
                    ..h
                }),
                PtpHostState::TimeReceiver(r) => h2 == (PtpHost {
                    state: PtpHostState::TimeReceiver(
                        PtpHostStateTimeReceiver {
                            selected_transmitter_identity: Some(pre[w].clock_identity),
                            selected_transmitter_confidence: CONFIDENCE_FULL,
                            ..r
                        },
                    ),
                    ..h
                }),
            },
        },
    }
}

/// One election run relates the registry before and after: same hosts
/// in the same order, each updated as `spec_host_elected` says.
pub open spec fn spec_election_step(pre: Seq<PtpHost>, post: Seq<PtpHost>) -> bool {
    &&& post.len() == pre.len()
    &&& forall|i: int| 0 <= i < pre.len() ==> spec_host_elected(pre, i, #[trigger] post[i])
}

/// The per-host winner information pass one computes: whether host `i`
/// won its domain, and who did.
pub open spec fn spec_win_info(hosts: Seq<PtpHost>, i: int) -> Option<(bool, ClockIdentity)> {
    match hosts[i].domain_number {
        None => None,
        Some(d) => match spec_domain_winner(hosts, d) {
            None => None,
            Some(w) => Some((w == i, hosts[w].clock_identity)),
        },
    }
}

/// Scans for the first candidate of `d` and folds the rest through the
/// BMCA comparison.
fn best_candidate_index(hosts: &Vec<PtpHost>, d: u8) -> (r: Option<usize>)
    ensures
        match r {
            None => spec_domain_winner(hosts@, d) is None,
            Some(w) => w < hosts@.len() && spec_domain_winner(hosts@, d) == Some(w as int),
        },
{
    let n = hosts.len();
    let mut best: Option<usize> = None;
    let mut i: usize = 0;
    while i < n
        invariant
            n == hosts@.len(),
            i <= n,
            match best {
                None => forall|j: int| 0 <= j < i ==> !spec_is_candidate(hosts@[j], d),
                Some(b) => {
                    &&& b < i
                    &&& spec_is_candidate(hosts@[b as int], d)
                    &&& spec_domain_winner(hosts@, d) == Some(
                        spec_fold_best(hosts@, d, i as int, b as int),
                    )
                },
            },
        decreases n - i,
    {
        let is_cand = match hosts[i].domain_number {
            Some(hd) => hd == d && hosts[i].is_transmitter(),
            None => false,
        };
        match best {
            None => {
                if is_cand {
                    proof {
                        lemma_first_candidate_up_to(hosts@, d, i as int);
                    }
                    best = Some(i);
                }
            },
            Some(b) => {
                if is_cand {
                    let replace = match (&hosts[i].state, &hosts[b].state) {
                        (
                            PtpHostState::TimeTransmitter(cand_tt),
                            PtpHostState::TimeTransmitter(best_tt),
                        ) => {
                            match cand_tt.compare_for_bmca(
                                best_tt,
                                hosts[i].clock_identity,
                                hosts[b].clock_identity,
                            ) {
                                core::cmp::Ordering::Less => true,
                                _ => false,
                            }
                        },
                        _ => false,
                    };
                    if replace {
                        best = Some(i);
                    }
                }
            },
        }
        i = i + 1;
    }
    proof {
        if best is None {
            lemma_first_candidate_none(hosts@, d, 0);
        }
    }
    best
}

/// If no index below `f` is a candidate and `f` is one, the scan from 0
/// finds `f`.
proof fn lemma_first_candidate_up_to(hosts: Seq<PtpHost>, d: u8, f: int)
    requires
        0 <= f < hosts.len(),
        spec_is_candidate(hosts[f], d),
        forall|j: int| 0 <= j < f ==> !spec_is_candidate(hosts[j], d),
    ensures
        spec_first_candidate(hosts, d, 0) == Some(f),
{
    lemma_first_candidate_from(hosts, d, 0, f);
}

proof fn lemma_first_candidate_from(hosts: Seq<PtpHost>, d: u8, i: int, f: int)
    requires
        0 <= i <= f < hosts.len(),
        spec_is_candidate(hosts[f], d),
        forall|j: int| i <= j < f ==> !spec_is_candidate(hosts[j], d),
    ensures
        spec_first_candidate(hosts, d, i) == Some(f),
    decreases f - i,
{
    if i < f {
        lemma_first_candidate_from(hosts, d, i + 1, f);
    }
}

impl PtpTracker {
    /// The identity of the host the BMCA cascade elects for `domain`,
    /// if the domain has any candidate.
    pub fn get_domain_winner(&self, domain: u8) -> (r: Option<ClockIdentity>)
        ensures
            r is Some <==> spec_domain_winner(self.hosts@, domain) is Some,
            r matches Some(id) ==> id == self.hosts@[
                spec_domain_winner(self.hosts@, domain)->Some_0
            ].clock_identity,
    {
        match best_candidate_index(&self.hosts, domain) {
            None => None,
            Some(w) => Some(self.hosts[w].clock_identity),
        }
    }

    /// Runs the BMCA election across the whole registry: in every
    /// domain with at least one candidate the fold's survivor gets the
    /// winner flag (all other candidates lose it), and every receiver
    /// of the domain selects the winner with full confidence.  Nothing
    /// else changes, and what the election reads — domains, roles,
    /// announce-derived data, identities — is left as it was, so the
    /// elected winner of every domain is the same before and after.
    pub fn run_bmca_election(&mut self)
        requires
            old(self).wf(),
        ensures
            final(self).wf(),
            final(self).last_packet == old(self).last_packet,
            final(self).recent_sync_senders == old(self).recent_sync_senders,
            final(self).interfaces == old(self).interfaces,
            spec_election_step(old(self).hosts@, final(self).hosts@),
            forall|d: u8|
                #[trigger] spec_domain_winner(final(self).hosts@, d) == spec_domain_winner(
                    old(self).hosts@,
                    d,
                ),
    {
        let ghost orig = self.hosts@;
        let n = self.hosts.len();
        let mut winfo: Vec<Option<(bool, ClockIdentity)>> = Vec::new();
        let mut i: usize = 0;
        while i < n
            invariant
                n == self.hosts@.len(),
                self.hosts@ == orig,
                i <= n,
                winfo@.len() == i,
                forall|j: int| 0 <= j < i ==> winfo@[j] == spec_win_info(orig, j),
            decreases n - i,
        {
            let wi: Option<(bool, ClockIdentity)> = match self.hosts[i].domain_number {
                None => None,
                Some(d) => match best_candidate_index(&self.hosts, d) {
                    None => None,
                    Some(w) => Some((w == i, self.hosts[w].clock_identity)),
                },
            };
            winfo.push(wi);
            i = i + 1;
        }
        let mut idx: usize = 0;
        while idx < n
            invariant
                old(self).wf(),
                n == self.hosts@.len(),
                n == orig.len(),
                idx <= n,
                self.last_packet == old(self).last_packet,
                self.recent_sync_senders == old(self).recent_sync_senders,
                self.interfaces == old(self).interfaces,
                orig == old(self).hosts@,
                winfo@.len() == n,
                forall|j: int| 0 <= j < n ==> winfo@[j] == spec_win_info(orig, j),
                forall|j: int| idx <= j < n ==> self.hosts@[j] == orig[j],
                forall|j: int|
                    0 <= j < idx ==> spec_host_elected(orig, j, #[trigger] self.hosts@[j]),
                forall|j: int|
                    0 <= j < n ==> self.hosts@[j].clock_identity == orig[j].clock_identity
                        && (#[trigger] self.hosts@[j]).wf(),
            decreases n - idx,
        {
            let ghost before = self.hosts@;
            match winfo[idx] {
                None => {},
                Some(wi) => {
                    let mut h = self.hosts.remove(idx);
                    match h.state {
                        PtpHostState::Listening => {},
                        PtpHostState::TimeTransmitter(t) => {
                            h.state = PtpHostState::TimeTransmitter(
                                PtpHostStateTimeTransmitter { is_bmca_winner: wi.0, ..t },
                            );
                        },
                        PtpHostState::TimeReceiver(r) => {
                            h.state = PtpHostState::TimeReceiver(
                                PtpHostStateTimeReceiver {
                                    selected_transmitter_identity: Some(wi.1),
                                    selected_transmitter_confidence: CONFIDENCE_FULL,
                                    ..r
                                },
                            );
                        },
                    }
                    self.hosts.insert(idx, h);
                    proof {
                        assert(self.hosts@ =~= before.update(idx as int, self.hosts@[idx as int]));
                        assert(winfo@[idx as int] == spec_win_info(orig, idx as int));
                        assert(spec_win_info(orig, idx as int) == Some(wi));
                        assert(orig[idx as int].domain_number is Some);
                        let d = orig[idx as int].domain_number->Some_0;
                        assert(spec_domain_winner(orig, d) is Some);
                        let w = spec_domain_winner(orig, d)->Some_0;
                        assert(wi.0 == (w == idx as int));
                        assert(wi.1 == orig[w].clock_identity);
                        assert(spec_host_elected(orig, idx as int, self.hosts@[idx as int]));
                    }
                },
            }
            proof {
                assert(spec_host_elected(orig, idx as int, self.hosts@[idx as int]));
            }
            idx = idx + 1;
        }
        proof {
            lemma_election_preserves_winners(orig, self.hosts@);
        }
    }
}

/// An election step changes neither which hosts are candidates nor how
/// any two candidates compare, so every domain elects the same winner
/// after the step as before it.
pub proof fn lemma_election_preserves_winners(pre: Seq<PtpHost>, post: Seq<PtpHost>)
    requires
        spec_election_step(pre, post),
    ensures
        forall|d: u8|
            #[trigger] spec_domain_winner(post, d) == spec_domain_winner(pre, d),
{
    assert forall|d: u8|
        #[trigger] spec_domain_winner(post, d) == spec_domain_winner(pre, d) by {
        lemma_first_candidate_invariant(pre, post, d, 0);
        lemma_first_candidate_props(pre, d, 0);
        match spec_first_candidate(pre, d, 0) {
            None => {},
            Some(f) => {
                lemma_fold_best_invariant(pre, post, d, f + 1, f);
            },
        }
    }
}

proof fn lemma_step_preserves_candidate(pre: Seq<PtpHost>, post: Seq<PtpHost>, d: u8, i: int)
    requires
        spec_election_step(pre, post),
        0 <= i < pre.len(),
    ensures
        spec_is_candidate(post[i], d) == spec_is_candidate(pre[i], d),
        spec_is_candidate(pre[i], d) ==> spec_candidate_tt(post[i]) == (
        PtpHostStateTimeTransmitter {
            is_bmca_winner: spec_candidate_tt(post[i]).is_bmca_winner,
            ..spec_candidate_tt(pre[i])
        }),
        post[i].clock_identity == pre[i].clock_identity,
{
    assert(spec_host_elected(pre, i, post[i]));
}

proof fn lemma_step_preserves_beats(
    pre: Seq<PtpHost>,
    post: Seq<PtpHost>,
    d: u8,
    i: int,
    j: int,
)
    requires
        spec_election_step(pre, post),
        0 <= i < pre.len(),
        0 <= j < pre.len(),
        spec_is_candidate(pre[i], d),
        spec_is_candidate(pre[j], d),
    ensures
        spec_beats(post[i], post[j]) == spec_beats(pre[i], pre[j]),
{
    lemma_step_preserves_candidate(pre, post, d, i);
    lemma_step_preserves_candidate(pre, post, d, j);
}

proof fn lemma_first_candidate_invariant(pre: Seq<PtpHost>, post: Seq<PtpHost>, d: u8, i: int)
    requires
        spec_election_step(pre, post),
    ensures
        spec_first_candidate(post, d, i) == spec_first_candidate(pre, d, i),
    decreases pre.len() - i,
{
    if 0 <= i < pre.len() {
        lemma_step_preserves_candidate(pre, post, d, i);
        lemma_first_candidate_invariant(pre, post, d, i + 1);
    }
}

proof fn lemma_fold_best_invariant(
    pre: Seq<PtpHost>,
    post: Seq<PtpHost>,
    d: u8,
    i: int,
    best: int,
)
    requires
        spec_election_step(pre, post),
        0 <= best < pre.len(),
        spec_is_candidate(pre[best], d),
    ensures
        spec_fold_best(post, d, i, best) == spec_fold_best(pre, d, i, best),
        0 <= spec_fold_best(pre, d, i, best) < pre.len(),
        spec_is_candidate(pre[spec_fold_best(pre, d, i, best)], d),
    decreases pre.len() - i,
{
    if 0 <= i < pre.len() {
        lemma_step_preserves_candidate(pre, post, d, i);
        if spec_is_candidate(pre[i], d) {
            lemma_step_preserves_beats(pre, post, d, i, best);
        }
        let next = if spec_is_candidate(pre[i], d) && spec_beats(pre[i], pre[best]) {
            i
        } else {
            best
        };
        lemma_fold_best_invariant(pre, post, d, i + 1, next);
    }
}

/// Re-running the election with no new input changes nothing: the
/// second run elects the same winners and leaves every host exactly as
/// the first run left it.
pub proof fn lemma_election_idempotent(
    pre: Seq<PtpHost>,
    mid: Seq<PtpHost>,
    post: Seq<PtpHost>,
)
    requires
        spec_election_step(pre, mid),
        spec_election_step(mid, post),
    ensures
        post == mid,
{
    lemma_election_preserves_winners(pre, mid);
    assert forall|i: int| 0 <= i < mid.len() implies post[i] == mid[i] by {
        assert(spec_host_elected(pre, i, mid[i]));
        assert(spec_host_elected(mid, i, post[i]));
        match pre[i].domain_number {
            None => {},
            Some(d) => {
                lemma_first_candidate_props(pre, d, 0);
                match spec_first_candidate(pre, d, 0) {
                    None => {},
                    Some(f) => {
                        lemma_fold_best_invariant(pre, mid, d, f + 1, f);
                        let w = spec_domain_winner(pre, d)->Some_0;
                        assert(spec_host_elected(pre, w, mid[w]));
                    },
                }
            },
        }
    }
    assert(post =~= mid);
}

/// The elected winner of a domain is a candidate of that domain and
/// strictly beats every other candidate of the domain under the BMCA
/// cascade; in particular, with unique clock identities the winner is
/// the unique minimum, whatever order the candidates were folded in.
pub proof fn lemma_winner_beats_all(hosts: Seq<PtpHost>, d: u8)
    requires
        spec_hosts_unique(hosts),
    ensures
        spec_domain_winner(hosts, d) is None <==> (forall|j: int|
            0 <= j < hosts.len() ==> !spec_is_candidate(hosts[j], d)),
        spec_domain_winner(hosts, d) matches Some(w) ==> {
            &&& 0 <= w < hosts.len()
            &&& spec_is_candidate(hosts[w], d)
            &&& forall|j: int|
                0 <= j < hosts.len() && spec_is_candidate(#[trigger] hosts[j], d) && j != w
                    ==> spec_beats(hosts[w], hosts[j])
        },
{
    lemma_first_candidate_none(hosts, d, 0);
    match spec_first_candidate(hosts, d, 0) {
        None => {},
        Some(f) => {
            lemma_first_candidate_props(hosts, d, 0);
            lemma_fold_best_props(hosts, d, f + 1, f);
        },
    }
}

proof fn lemma_first_candidate_none(hosts: Seq<PtpHost>, d: u8, i: int)
    requires
        i >= 0,
    ensures
        spec_first_candidate(hosts, d, i) is None <==> (forall|j: int|
            i <= j < hosts.len() ==> !spec_is_candidate(hosts[j], d)),
    decreases hosts.len() - i,
{
    if i < hosts.len() {
        lemma_first_candidate_none(hosts, d, i + 1);
    }
}

proof fn lemma_first_candidate_props(hosts: Seq<PtpHost>, d: u8, i: int)
    requires
        i >= 0,
    ensures
        spec_first_candidate(hosts, d, i) matches Some(f) ==> {
            &&& i <= f < hosts.len()
            &&& spec_is_candidate(hosts[f], d)
            &&& forall|j: int| i <= j < f ==> !spec_is_candidate(hosts[j], d)
        },
    decreases hosts.len() - i,
{
    if i < hosts.len() {
        lemma_first_candidate_props(hosts, d, i + 1);
    }
}

/// Distinct hosts have distinct identity values, so the cascade never
/// ties between them.
proof fn lemma_candidates_comparable(hosts: Seq<PtpHost>, a: int, b: int, d: u8)
    requires
        spec_hosts_unique(hosts),
        0 <= a < hosts.len(),
        0 <= b < hosts.len(),
        a != b,
        spec_is_candidate(hosts[a], d),
        spec_is_candidate(hosts[b], d),
        !spec_beats(hosts[a], hosts[b]),
    ensures
        spec_beats(hosts[b], hosts[a]),
{
    let ia = hosts[a].clock_identity;
    let ib = hosts[b].clock_identity;
    assert(ia.clock_id@ != ib.clock_id@);
    lemma_id_value_injective(ia.clock_id@, ib.clock_id@);
    crate::host_state::lemma_bmca_less_strict_total_order(
        spec_candidate_tt(hosts[a]),
        ia,
        spec_candidate_tt(hosts[b]),
        ib,
        spec_candidate_tt(hosts[a]),
        ia,
    );
}

proof fn lemma_fold_best_props(hosts: Seq<PtpHost>, d: u8, i: int, best: int)
    requires
        spec_hosts_unique(hosts),
        0 <= best < hosts.len(),
        best < i,
        spec_is_candidate(hosts[best], d),
        forall|j: int|
            0 <= j < i && spec_is_candidate(#[trigger] hosts[j], d) && j != best ==> spec_beats(
                hosts[best],
                hosts[j],
            ),
    ensures
        ({
            let w = spec_fold_best(hosts, d, i, best);
            &&& 0 <= w < hosts.len()
            &&& spec_is_candidate(hosts[w], d)
            &&& forall|j: int|
                0 <= j < hosts.len() && spec_is_candidate(#[trigger] hosts[j], d) && j != w
                    ==> spec_beats(hosts[w], hosts[j])
        }),
    decreases hosts.len() - i,
{
    if i >= hosts.len() {
        assert forall|j: int|
            0 <= j < hosts.len() && spec_is_candidate(#[trigger] hosts[j], d) && j != best
            implies spec_beats(hosts[best], hosts[j]) by {}
    } else {
        if spec_is_candidate(hosts[i], d) && spec_beats(hosts[i], hosts[best]) {
            assert forall|j: int|
                0 <= j < i + 1 && spec_is_candidate(#[trigger] hosts[j], d) && j != i
                implies spec_beats(hosts[i], hosts[j]) by {
                if j == best {
                } else {
                    assert(spec_beats(hosts[best], hosts[j]));
                    lemma_beats_transitive(hosts, i, best, j);
                }
            }
            lemma_fold_best_props(hosts, d, i + 1, i);
        } else {
            if spec_is_candidate(hosts[i], d) && i != best {
                lemma_candidates_comparable(hosts, i, best, d);
            }
            lemma_fold_best_props(hosts, d, i + 1, best);
        }
    }
}

proof fn lemma_beats_transitive(hosts: Seq<PtpHost>, a: int, b: int, c: int)
    requires
        0 <= a < hosts.len(),
        0 <= b < hosts.len(),
        0 <= c < hosts.len(),
        spec_beats(hosts[a], hosts[b]),
        spec_beats(hosts[b], hosts[c]),
    ensures
        spec_beats(hosts[a], hosts[c]),
{
    crate::host_state::lemma_bmca_less_strict_total_order(
        spec_candidate_tt(hosts[a]),
        hosts[a].clock_identity,
        spec_candidate_tt(hosts[b]),
        hosts[b].clock_identity,
        spec_candidate_tt(hosts[c]),
        hosts[c].clock_identity,
    );
}

/// What the registry itself shows after an election run: every
/// candidate carries the winner flag exactly if its domain elected it,
/// and every receiver with a known domain that elected a winner
/// selects that winner's identity with full confidence — all stated
/// over the post-election registry alone.
pub proof fn lemma_election_outcome(pre: Seq<PtpHost>, post: Seq<PtpHost>)
    requires
        spec_election_step(pre, post),
    ensures
        forall|i: int|
            0 <= i < post.len() && (#[trigger] post[i]).state is TimeTransmitter && post[
                i
            ].domain_number is Some ==> post[i].state->TimeTransmitter_0.is_bmca_winner == (
            spec_domain_winner(post, post[i].domain_number->Some_0) == Some(i)),
        forall|i: int|
            0 <= i < post.len() && (#[trigger] post[i]).state is TimeReceiver && post[
                i
            ].domain_number is Some && spec_domain_winner(
                post,
                post[i].domain_number->Some_0,
            ) is Some ==> {
                let w = spec_domain_winner(post, post[i].domain_number->Some_0)->Some_0;
                &&& post[i].state->TimeReceiver_0.selected_transmitter_identity == Some(
                    post[w].clock_identity,
                )
                &&& post[i].state->TimeReceiver_0.selected_transmitter_confidence
                    == CONFIDENCE_FULL
            },
{
    lemma_election_preserves_winners(pre, post);
    assert forall|i: int|
        0 <= i < post.len() && (#[trigger] post[i]).state is TimeTransmitter && post[
            i
        ].domain_number is Some implies post[i].state->TimeTransmitter_0.is_bmca_winner == (
    spec_domain_winner(post, post[i].domain_number->Some_0) == Some(i)) by {
        assert(spec_host_elected(pre, i, post[i]));
        let d = post[i].domain_number->Some_0;
        assert(pre[i].domain_number == post[i].domain_number);
        lemma_first_candidate_none(pre, d, 0);
        assert(spec_is_candidate(pre[i], d));
        assert(spec_first_candidate(pre, d, 0) is Some);
        assert(spec_domain_winner(pre, d) is Some);
    }
    assert forall|i: int|
        0 <= i < post.len() && (#[trigger] post[i]).state is TimeReceiver && post[
            i
        ].domain_number is Some && spec_domain_winner(
            post,
            post[i].domain_number->Some_0,
        ) is Some implies {
            let w = spec_domain_winner(post, post[i].domain_number->Some_0)->Some_0;
            &&& post[i].state->TimeReceiver_0.selected_transmitter_identity == Some(
                post[w].clock_identity,
            )
            &&& post[i].state->TimeReceiver_0.selected_transmitter_confidence == CONFIDENCE_FULL
        } by {
        assert(spec_host_elected(pre, i, post[i]));
        let d = post[i].domain_number->Some_0;
        let w = spec_domain_winner(post, d)->Some_0;
        assert(spec_domain_winner(pre, d) == Some(w));
        lemma_first_candidate_props(pre, d, 0);
        match spec_first_candidate(pre, d, 0) {
            None => {},
            Some(f) => {
                lemma_fold_best_invariant(pre, post, d, f + 1, f);
                assert(0 <= w < pre.len());
                assert(spec_host_elected(pre, w, post[w]));
            },
        }
    }
}

/// After an election step, every receiver with a known domain whose
/// domain elected a winner selects that winner's identity with full
/// confidence.
pub proof fn lemma_receivers_follow_winner(pre: Seq<PtpHost>, post: Seq<PtpHost>, i: int)
    requires
        spec_election_step(pre, post),
        0 <= i < pre.len(),
        pre[i].state is TimeReceiver,
        pre[i].domain_number is Some,
        spec_domain_winner(pre, pre[i].domain_number->Some_0) is Some,
    ensures
        post[i].state is TimeReceiver,
        ({
            let w = spec_domain_winner(pre, pre[i].domain_number->Some_0)->Some_0;
            &&& post[i].state->TimeReceiver_0.selected_transmitter_identity == Some(
                pre[w].clock_identity,
            )
            &&& post[i].state->TimeReceiver_0.selected_transmitter_confidence == CONFIDENCE_FULL
        }),
{
    assert(spec_host_elected(pre, i, post[i]));
}

} // verus!
