//! Per-host role state: a tagged union `Listening | TimeTransmitter |
//! TimeReceiver`, plus the BMCA comparison cascade over transmitter
//! state.
//!
//! The cascade compares, in order: priority1, clock class, clock
//! accuracy, offset-scaled log variance, priority2, and finally the
//! clock identity byte-wise.  At each of the first five levels a side
//! that carries a value beats one that does not; the identity level
//! always discriminates between distinct identities.

use vstd::prelude::*;

use crate::codec::{
    AnnounceMessage, DelayRespMessage, FollowUpMessage, PDelayRespFollowUpMessage,
    PDelayRespMessage, PtpClockAccuracy, PtpClockClass, PtpTimestamp, PtpUtcOffset, SyncMessage,
};
use crate::identity::{id_value, ClockIdentity};

verus! {

/// Sync-correlation ages below this bound (in milliseconds) give full
/// confidence in the inferred transmitter.
pub const FRESH_SYNC_WINDOW_MS: u64 = 10000;

/// Confidence that a receiver's selected transmitter is right, in
/// percent: 100 for explicit protocol evidence or a fresh Sync, 50 for
/// a stale Sync, 0 for the "no sync traffic" sentinel.
pub const CONFIDENCE_FULL: u8 = 100;

pub const CONFIDENCE_STALE: u8 = 50;

pub const CONFIDENCE_NONE: u8 = 0;

/// What is known about a host currently acting as a time transmitter.
/// Every descriptive field is optional: it is filled only once a
/// message carrying it has been observed.
#[derive(Clone, Copy, Debug, PartialEq)]
pub struct PtpHostStateTimeTransmitter {
    pub last_sync_timestamp: Option<u64>,
    pub priority1: Option<u8>,
    pub priority2: Option<u8>,
    pub clock_class: Option<PtpClockClass>,
    pub clock_accuracy: Option<PtpClockAccuracy>,
    pub steps_removed: Option<u16>,
    pub offset_scaled_log_variance: Option<u16>,
    pub time_source: Option<u8>,
    pub ptt_identifier: Option<ClockIdentity>,
    pub last_announce_origin_timestamp: Option<PtpTimestamp>,
    pub last_sync_origin_timestamp: Option<PtpTimestamp>,
    pub last_followup_origin_timestamp: Option<PtpTimestamp>,
    pub current_utc_offset: Option<PtpUtcOffset>,
    /// True if this transmitter has been elected Best Master Clock in
    /// its domain by the last election run.
    pub is_bmca_winner: bool,
}

impl PtpHostStateTimeTransmitter {
    pub open spec fn spec_default() -> PtpHostStateTimeTransmitter {
        PtpHostStateTimeTransmitter {
            last_sync_timestamp: None,
            priority1: None,
            priority2: None,
            clock_class: None,
            clock_accuracy: None,
            steps_removed: None,
            offset_scaled_log_variance: None,
            time_source: None,
            ptt_identifier: None,
            last_announce_origin_timestamp: None,
            last_sync_origin_timestamp: None,
            last_followup_origin_timestamp: None,
            current_utc_offset: None,
            is_bmca_winner: false,
        }
    }

    /// The transmitter state after folding in an Announce message.
    pub open spec fn spec_with_announce(
        self,
        msg: AnnounceMessage,
    ) -> PtpHostStateTimeTransmitter {
        PtpHostStateTimeTransmitter {
            priority1: Some(msg.priority1),
            priority2: Some(msg.priority2),
            clock_class: Some(msg.clock_class),
            clock_accuracy: Some(msg.clock_accuracy),
            offset_scaled_log_variance: Some(msg.offset_scaled_log_variance),
            steps_removed: Some(msg.steps_removed),
            time_source: Some(msg.time_source),
            ptt_identifier: Some(msg.ptt_identity),
            current_utc_offset: Some(msg.current_utc_offset),
            last_announce_origin_timestamp: Some(msg.origin_timestamp),
            ..self
        }
    }

    pub open spec fn spec_with_sync(self, msg: SyncMessage, now_ms: u64) -> (
        PtpHostStateTimeTransmitter
    ) {
        PtpHostStateTimeTransmitter {
            last_sync_origin_timestamp: Some(msg.origin_timestamp),
            last_sync_timestamp: Some(now_ms),
            ..self
        }
    }

    pub open spec fn spec_with_follow_up(self, msg: FollowUpMessage) -> (
        PtpHostStateTimeTransmitter
    ) {
        PtpHostStateTimeTransmitter {
            last_followup_origin_timestamp: Some(msg.precise_origin_timestamp),
            ..self
        }
    }

    pub fn from_announce(msg: &AnnounceMessage) -> (r: PtpHostStateTimeTransmitter)
        ensures
            r == Self::spec_default().spec_with_announce(*msg),
    {
        let mut s = PtpHostStateTimeTransmitter::default();
        s.update_from_announce(msg);
        s
    }

    pub fn update_from_announce(&mut self, msg: &AnnounceMessage)
        ensures
            *final(self) == old(self).spec_with_announce(*msg),
    {
        self.priority1 = Some(msg.priority1);
        self.priority2 = Some(msg.priority2);
        self.clock_class = Some(msg.clock_class);
        self.clock_accuracy = Some(msg.clock_accuracy);
        self.offset_scaled_log_variance = Some(msg.offset_scaled_log_variance);
        self.steps_removed = Some(msg.steps_removed);
        self.time_source = Some(msg.time_source);
        self.ptt_identifier = Some(msg.ptt_identity);
        self.current_utc_offset = Some(msg.current_utc_offset);
        self.last_announce_origin_timestamp = Some(msg.origin_timestamp);
    }

    pub fn from_sync(msg: &SyncMessage, now_ms: u64) -> (r: PtpHostStateTimeTransmitter)
        ensures
            r == Self::spec_default().spec_with_sync(*msg, now_ms),
    {
        let mut s = PtpHostStateTimeTransmitter::default();
        s.update_from_sync(msg, now_ms);
        s
    }

    pub fn update_from_sync(&mut self, msg: &SyncMessage, now_ms: u64)
        ensures
            *final(self) == old(self).spec_with_sync(*msg, now_ms),
    {
        self.last_sync_origin_timestamp = Some(msg.origin_timestamp);
        self.last_sync_timestamp = Some(now_ms);
    }

    pub fn from_follow_up(msg: &FollowUpMessage) -> (r: PtpHostStateTimeTransmitter)
        ensures
            r == Self::spec_default().spec_with_follow_up(*msg),
    {
        let mut s = PtpHostStateTimeTransmitter::default();
        s.update_from_follow_up(msg);
        s
    }

    pub fn update_from_follow_up(&mut self, msg: &FollowUpMessage)
        ensures
            *final(self) == old(self).spec_with_follow_up(*msg),
    {
        self.last_followup_origin_timestamp = Some(msg.precise_origin_timestamp);
    }
}

impl Default for PtpHostStateTimeTransmitter {
    fn default() -> (r: PtpHostStateTimeTransmitter)
        ensures
            r == PtpHostStateTimeTransmitter::spec_default(),
    {
        PtpHostStateTimeTransmitter {
            last_sync_timestamp: None,
            priority1: None,
            priority2: None,
            clock_class: None,
            clock_accuracy: None,
            steps_removed: None,
            offset_scaled_log_variance: None,
            time_source: None,
            ptt_identifier: None,
            last_announce_origin_timestamp: None,
            last_sync_origin_timestamp: None,
            last_followup_origin_timestamp: None,
            current_utc_offset: None,
            is_bmca_winner: false,
        }
    }
}

/// A missing value at a cascade level compares worse than any present
/// value: present values map to their number, absence maps past the
/// 8-bit range.
pub open spec fn level_of_u8(o: Option<u8>) -> int {
    match o {
        Some(v) => v as int,
        None => 0x100,
    }
}

pub open spec fn level_of_u16(o: Option<u16>) -> int {
    match o {
        Some(v) => v as int,
        None => 0x10000,
    }
}

pub open spec fn level_of_class(o: Option<PtpClockClass>) -> int {
    match o {
        Some(v) => v.class as int,
        None => 0x100,
    }
}

pub open spec fn level_of_accuracy(o: Option<PtpClockAccuracy>) -> int {
    match o {
        Some(v) => v.accuracy as int,
        None => 0x100,
    }
}

/// The transmitter described by `(a, ai)` is strictly better than the
/// one described by `(b, bi)` under the BMCA cascade: lexicographic
/// comparison of priority1, clock class, clock accuracy, variance,
/// priority2, and finally the byte-wise clock identity order.
pub open spec fn spec_bmca_less(
    a: PtpHostStateTimeTransmitter,
    ai: ClockIdentity,
    b: PtpHostStateTimeTransmitter,
    bi: ClockIdentity,
) -> bool {
    let a1 = level_of_u8(a.priority1);
    let b1 = level_of_u8(b.priority1);
    let a2 = level_of_class(a.clock_class);
    let b2 = level_of_class(b.clock_class);
    let a3 = level_of_accuracy(a.clock_accuracy);
    let b3 = level_of_accuracy(b.clock_accuracy);
    let a4 = level_of_u16(a.offset_scaled_log_variance);
    let b4 = level_of_u16(b.offset_scaled_log_variance);
    let a5 = level_of_u8(a.priority2);
    let b5 = level_of_u8(b.priority2);
    let a6 = id_value(ai.clock_id@);
    let b6 = id_value(bi.clock_id@);
    ||| a1 < b1
    ||| (a1 == b1 && (a2 < b2 || (a2 == b2 && (a3 < b3 || (a3 == b3 && (a4 < b4 || (a4 == b4 && (a5
        < b5 || (a5 == b5 && a6 < b6)))))))))
}

/// Two transmitter descriptions are equivalent under the cascade
/// exactly when every level, the identity included, compares equal.
pub open spec fn spec_bmca_equiv(
    a: PtpHostStateTimeTransmitter,
    ai: ClockIdentity,
    b: PtpHostStateTimeTransmitter,
    bi: ClockIdentity,
) -> bool {
    !spec_bmca_less(a, ai, b, bi) && !spec_bmca_less(b, bi, a, ai)
}

/// The cascade is a strict total order on transmitter descriptions:
/// irreflexive, transitive, and total up to equivalence; descriptions
/// with distinct clock identities are never equivalent, so between
/// those the order always discriminates.
pub proof fn lemma_bmca_less_strict_total_order(
    a: PtpHostStateTimeTransmitter,
    ai: ClockIdentity,
    b: PtpHostStateTimeTransmitter,
    bi: ClockIdentity,
    c: PtpHostStateTimeTransmitter,
    ci: ClockIdentity,
)
    ensures
        !spec_bmca_less(a, ai, a, ai),
        spec_bmca_less(a, ai, b, bi) && spec_bmca_less(b, bi, c, ci) ==> spec_bmca_less(
            a,
            ai,
            c,
            ci,
        ),
        spec_bmca_less(a, ai, b, bi) || spec_bmca_less(b, bi, a, ai) || spec_bmca_equiv(
            a,
            ai,
            b,
            bi,
        ),
        id_value(ai.clock_id@) != id_value(bi.clock_id@) ==> !spec_bmca_equiv(a, ai, b, bi),
{
}

/// Between two transmitters that agree on every announced level —
/// priority1, clock class, clock accuracy, variance, priority2 — the
/// byte-wise smaller clock identity always wins the cascade.
pub proof fn lemma_identity_tiebreak(
    a: PtpHostStateTimeTransmitter,
    ai: ClockIdentity,
    b: PtpHostStateTimeTransmitter,
    bi: ClockIdentity,
)
    requires
        a.priority1 == b.priority1,
        a.clock_class == b.clock_class,
        a.clock_accuracy == b.clock_accuracy,
        a.offset_scaled_log_variance == b.offset_scaled_log_variance,
        a.priority2 == b.priority2,
        id_value(ai.clock_id@) < id_value(bi.clock_id@),
    ensures
        spec_bmca_less(a, ai, b, bi),
        !spec_bmca_less(b, bi, a, ai),
{
}

impl PtpHostStateTimeTransmitter {
    /// The IEEE 1588 BMCA pairwise comparison.  `Ordering::Less` means
    /// this transmitter is better and should win.  The result follows
    /// the cascade priority1, clock class, clock accuracy,
    /// offset-scaled log variance, priority2, clock identity; at each
    /// level but the last, carrying a value beats not carrying one.
    pub fn compare_for_bmca(
        &self,
        other: &Self,
        our_clock_id: ClockIdentity,
        other_clock_id: ClockIdentity,
    ) -> (r: core::cmp::Ordering)
        ensures
            r == core::cmp::Ordering::Less <==> spec_bmca_less(
                *self,
                our_clock_id,
                *other,
                other_clock_id,
            ),
            r == core::cmp::Ordering::Greater <==> spec_bmca_less(
                *other,
                other_clock_id,
                *self,
                our_clock_id,
            ),
            r == core::cmp::Ordering::Equal <==> spec_bmca_equiv(
                *self,
                our_clock_id,
                *other,
                other_clock_id,
            ),
    {
        match level_cmp_u8(self.priority1, other.priority1) {
            core::cmp::Ordering::Less => {
                return core::cmp::Ordering::Less;
            },
            core::cmp::Ordering::Greater => {
                return core::cmp::Ordering::Greater;
            },
            core::cmp::Ordering::Equal => {},
        }
        match level_cmp_class(self.clock_class, other.clock_class) {
            core::cmp::Ordering::Less => {
                return core::cmp::Ordering::Less;
            },
            core::cmp::Ordering::Greater => {
                return core::cmp::Ordering::Greater;
            },
            core::cmp::Ordering::Equal => {},
        }
        match level_cmp_accuracy(self.clock_accuracy, other.clock_accuracy) {
            core::cmp::Ordering::Less => {
                return core::cmp::Ordering::Less;
            },
            core::cmp::Ordering::Greater => {
                return core::cmp::Ordering::Greater;
            },
            core::cmp::Ordering::Equal => {},
        }
        match level_cmp_u16(
            self.offset_scaled_log_variance,
            other.offset_scaled_log_variance,
        ) {
            core::cmp::Ordering::Less => {
                return core::cmp::Ordering::Less;
            },
            core::cmp::Ordering::Greater => {
                return core::cmp::Ordering::Greater;
            },
            core::cmp::Ordering::Equal => {},
        }
        match level_cmp_u8(self.priority2, other.priority2) {
            core::cmp::Ordering::Less => {
                return core::cmp::Ordering::Less;
            },
            core::cmp::Ordering::Greater => {
                return core::cmp::Ordering::Greater;
            },
            core::cmp::Ordering::Equal => {},
        }
        our_clock_id.cmp_bytes(&other_clock_id)
    }
}

fn level_cmp_u8(a: Option<u8>, b: Option<u8>) -> (r: core::cmp::Ordering)
    ensures
        r == core::cmp::Ordering::Less <==> level_of_u8(a) < level_of_u8(b),
        r == core::cmp::Ordering::Greater <==> level_of_u8(a) > level_of_u8(b),
        r == core::cmp::Ordering::Equal <==> level_of_u8(a) == level_of_u8(b),
{
    match (a, b) {
        (Some(x), Some(y)) => {
            if x < y {
                core::cmp::Ordering::Less
            } else if x > y {
                core::cmp::Ordering::Greater
            } else {
                core::cmp::Ordering::Equal
            }
        },
        (Some(_), None) => core::cmp::Ordering::Less,
        (None, Some(_)) => core::cmp::Ordering::Greater,
        (None, None) => core::cmp::Ordering::Equal,
    }
}

fn level_cmp_u16(a: Option<u16>, b: Option<u16>) -> (r: core::cmp::Ordering)
    ensures
        r == core::cmp::Ordering::Less <==> level_of_u16(a) < level_of_u16(b),
        r == core::cmp::Ordering::Greater <==> level_of_u16(a) > level_of_u16(b),
        r == core::cmp::Ordering::Equal <==> level_of_u16(a) == level_of_u16(b),
{
    match (a, b) {
        (Some(x), Some(y)) => {
            if x < y {
                core::cmp::Ordering::Less
            } else if x > y {
                core::cmp::Ordering::Greater
            } else {
                core::cmp::Ordering::Equal
            }
        },
        (Some(_), None) => core::cmp::Ordering::Less,
        (None, Some(_)) => core::cmp::Ordering::Greater,
        (None, None) => core::cmp::Ordering::Equal,
    }
}

fn level_cmp_class(a: Option<PtpClockClass>, b: Option<PtpClockClass>) -> (r: core::cmp::Ordering)
    ensures
        r == core::cmp::Ordering::Less <==> level_of_class(a) < level_of_class(b),
        r == core::cmp::Ordering::Greater <==> level_of_class(a) > level_of_class(b),
        r == core::cmp::Ordering::Equal <==> level_of_class(a) == level_of_class(b),
{
    match (a, b) {
        (Some(x), Some(y)) => {
            if x.class < y.class {
                core::cmp::Ordering::Less
            } else if x.class > y.class {
                core::cmp::Ordering::Greater
            } else {
                core::cmp::Ordering::Equal
            }
        },
        (Some(_), None) => core::cmp::Ordering::Less,
        (None, Some(_)) => core::cmp::Ordering::Greater,
        (None, None) => core::cmp::Ordering::Equal,
    }
}

fn level_cmp_accuracy(a: Option<PtpClockAccuracy>, b: Option<PtpClockAccuracy>) -> (r:
    core::cmp::Ordering)
    ensures
        r == core::cmp::Ordering::Less <==> level_of_accuracy(a) < level_of_accuracy(b),
        r == core::cmp::Ordering::Greater <==> level_of_accuracy(a) > level_of_accuracy(b),
        r == core::cmp::Ordering::Equal <==> level_of_accuracy(a) == level_of_accuracy(b),
{
    match (a, b) {
        (Some(x), Some(y)) => {
            if x.accuracy < y.accuracy {
                core::cmp::Ordering::Less
            } else if x.accuracy > y.accuracy {
                core::cmp::Ordering::Greater
            } else {
                core::cmp::Ordering::Equal
            }
        },
        (Some(_), None) => core::cmp::Ordering::Less,
        (None, Some(_)) => core::cmp::Ordering::Greater,
        (None, None) => core::cmp::Ordering::Equal,
    }
}

/// What is known about a host currently acting as a time receiver.
#[derive(Clone, Copy, Debug, PartialEq)]
pub struct PtpHostStateTimeReceiver {
    pub last_delay_response_origin_timestamp: Option<PtpTimestamp>,
    pub last_pdelay_response_origin_timestamp: Option<PtpTimestamp>,
    pub last_pdelay_follow_up_timestamp: Option<PtpTimestamp>,
    pub selected_transmitter_identity: Option<ClockIdentity>,
    /// Confidence in the selection, in percent (0 to 100).
    pub selected_transmitter_confidence: u8,
}

impl PtpHostStateTimeReceiver {
    pub open spec fn spec_default() -> PtpHostStateTimeReceiver {
        PtpHostStateTimeReceiver {
            last_delay_response_origin_timestamp: None,
            last_pdelay_response_origin_timestamp: None,
            last_pdelay_follow_up_timestamp: None,
            selected_transmitter_identity: None,
            selected_transmitter_confidence: CONFIDENCE_NONE,
        }
    }

    /// The receiver state after a DelayResp addressed to it: the
    /// responding transmitter is explicit protocol evidence, so it is
    /// selected with full confidence.
    pub open spec fn spec_with_delay_resp(self, msg: DelayRespMessage) -> (
        PtpHostStateTimeReceiver
    ) {
        PtpHostStateTimeReceiver {
            last_delay_response_origin_timestamp: Some(msg.receive_timestamp),
            selected_transmitter_identity: Some(msg.header.source_port_identity.clock_identity),
            selected_transmitter_confidence: CONFIDENCE_FULL,
            ..self
        }
    }

    /// The receiver state after the sync-correlation heuristic matched
    /// a recent Sync sender: full confidence within the fresh window,
    /// half confidence for a staler sender.
    pub open spec fn spec_with_recent_sync_sender(
        self,
        sender: ClockIdentity,
        age_ms: u64,
    ) -> PtpHostStateTimeReceiver {
        PtpHostStateTimeReceiver {
            selected_transmitter_identity: Some(sender),
            selected_transmitter_confidence: if age_ms < FRESH_SYNC_WINDOW_MS {
                CONFIDENCE_FULL
            } else {
                CONFIDENCE_STALE
            },
            ..self
        }
    }

    pub open spec fn spec_with_pdelay_resp(self, msg: PDelayRespMessage) -> (
        PtpHostStateTimeReceiver
    ) {
        PtpHostStateTimeReceiver {
            last_pdelay_response_origin_timestamp: Some(msg.request_receipt_timestamp),
            ..self
        }
    }

    pub open spec fn spec_with_pdelay_resp_follow_up(
        self,
        msg: PDelayRespFollowUpMessage,
    ) -> PtpHostStateTimeReceiver {
        PtpHostStateTimeReceiver {
            last_pdelay_follow_up_timestamp: Some(msg.response_origin_timestamp),
            ..self
        }
    }

    pub fn from_delay_resp(msg: &DelayRespMessage) -> (r: PtpHostStateTimeReceiver)
        ensures
            r == Self::spec_default().spec_with_delay_resp(*msg),
    {
        let mut s = PtpHostStateTimeReceiver::default();
        s.update_from_delay_resp(msg);
        s
    }

    pub fn update_from_delay_resp(&mut self, msg: &DelayRespMessage)
        ensures
            *final(self) == old(self).spec_with_delay_resp(*msg),
    {
        self.last_delay_response_origin_timestamp = Some(msg.receive_timestamp);
        self.selected_transmitter_identity = Some(msg.header.source_port_identity.clock_identity);
        self.selected_transmitter_confidence = CONFIDENCE_FULL;
    }

    pub fn from_recent_sync_sender(sender: ClockIdentity, age_ms: u64) -> (r:
        PtpHostStateTimeReceiver)
        ensures
            r == Self::spec_default().spec_with_recent_sync_sender(sender, age_ms),
    {
        let mut s = PtpHostStateTimeReceiver::default();
        s.update_from_recent_sync_sender(sender, age_ms);
        s
    }

    pub fn update_from_recent_sync_sender(&mut self, sender: ClockIdentity, age_ms: u64)
        ensures
            *final(self) == old(self).spec_with_recent_sync_sender(sender, age_ms),
    {
        self.selected_transmitter_identity = Some(sender);
        self.selected_transmitter_confidence = if age_ms < FRESH_SYNC_WINDOW_MS {
            CONFIDENCE_FULL
        } else {
            CONFIDENCE_STALE
        };
    }

    pub fn from_pdelay_resp(msg: &PDelayRespMessage) -> (r: PtpHostStateTimeReceiver)
        ensures
            r == Self::spec_default().spec_with_pdelay_resp(*msg),
    {
        let mut s = PtpHostStateTimeReceiver::default();
        s.update_from_pdelay_resp(msg);
        s
    }

    pub fn update_from_pdelay_resp(&mut self, msg: &PDelayRespMessage)
        ensures
            *final(self) == old(self).spec_with_pdelay_resp(*msg),
    {
        self.last_pdelay_response_origin_timestamp = Some(msg.request_receipt_timestamp);
    }

    pub fn from_pdelay_resp_follow_up(msg: &PDelayRespFollowUpMessage) -> (r:
        PtpHostStateTimeReceiver)
        ensures
            r == Self::spec_default().spec_with_pdelay_resp_follow_up(*msg),
    {
        let mut s = PtpHostStateTimeReceiver::default();
        s.update_from_pdelay_resp_follow_up(msg);
        s
    }

    pub fn update_from_pdelay_resp_follow_up(&mut self, msg: &PDelayRespFollowUpMessage)
        ensures
            *final(self) == old(self).spec_with_pdelay_resp_follow_up(*msg),
    {
        self.last_pdelay_follow_up_timestamp = Some(msg.response_origin_timestamp);
    }
}

impl Default for PtpHostStateTimeReceiver {
    fn default() -> (r: PtpHostStateTimeReceiver)
        ensures
            r == PtpHostStateTimeReceiver::spec_default(),
    {
        PtpHostStateTimeReceiver {
            last_delay_response_origin_timestamp: None,
            last_pdelay_response_origin_timestamp: None,
            last_pdelay_follow_up_timestamp: None,
            selected_transmitter_identity: None,
            selected_transmitter_confidence: CONFIDENCE_NONE,
        }
    }
}

/// A host is in exactly one role at a time; the latest dispatched
/// message type determines the variant.
#[derive(Clone, Copy, Debug, PartialEq)]
pub enum PtpHostState {
    Listening,
    TimeTransmitter(PtpHostStateTimeTransmitter),
    TimeReceiver(PtpHostStateTimeReceiver),
}

impl PtpHostState {
    /// The transmitter payload if the host is in that role, starting
    /// fresh otherwise: messages that imply the transmitter role update
    /// a matching variant in place and replace any other variant.
    pub open spec fn spec_transmitter_base(self) -> PtpHostStateTimeTransmitter {
        match self {
            PtpHostState::TimeTransmitter(t) => t,
            _ => PtpHostStateTimeTransmitter::spec_default(),
        }
    }

    /// The receiver counterpart of `spec_transmitter_base`.
    pub open spec fn spec_receiver_base(self) -> PtpHostStateTimeReceiver {
        match self {
            PtpHostState::TimeReceiver(t) => t,
            _ => PtpHostStateTimeReceiver::spec_default(),
        }
    }

    pub fn update_from_announce(&mut self, msg: &AnnounceMessage)
        ensures
            *final(self) == PtpHostState::TimeTransmitter(
                old(self).spec_transmitter_base().spec_with_announce(*msg),
            ),
    {
        match self {
            PtpHostState::TimeTransmitter(state) => {
                state.update_from_announce(msg);
            },
            _ => {
                *self = PtpHostState::TimeTransmitter(
                    PtpHostStateTimeTransmitter::from_announce(msg),
                );
            },
        }
    }

    pub fn update_from_sync(&mut self, msg: &SyncMessage, now_ms: u64)
        ensures
            *final(self) == PtpHostState::TimeTransmitter(
                old(self).spec_transmitter_base().spec_with_sync(*msg, now_ms),
            ),
    {
        match self {
            PtpHostState::TimeTransmitter(state) => {
                state.update_from_sync(msg, now_ms);
            },
            _ => {
                *self = PtpHostState::TimeTransmitter(
                    PtpHostStateTimeTransmitter::from_sync(msg, now_ms),
                );
            },
        }
    }

    pub fn update_from_follow_up(&mut self, msg: &FollowUpMessage)
        ensures
            *final(self) == PtpHostState::TimeTransmitter(
                old(self).spec_transmitter_base().spec_with_follow_up(*msg),
            ),
    {
        match self {
            PtpHostState::TimeTransmitter(state) => {
                state.update_from_follow_up(msg);
            },
            _ => {
                *self = PtpHostState::TimeTransmitter(
                    PtpHostStateTimeTransmitter::from_follow_up(msg),
                );
            },
        }
    }

    pub fn update_from_recent_sync_sender(&mut self, sender: ClockIdentity, age_ms: u64)
        ensures
            *final(self) == PtpHostState::TimeReceiver(
                old(self).spec_receiver_base().spec_with_recent_sync_sender(sender, age_ms),
            ),
    {
        match self {
            PtpHostState::TimeReceiver(state) => {
                state.update_from_recent_sync_sender(sender, age_ms);
            },
            _ => {
                *self = PtpHostState::TimeReceiver(
                    PtpHostStateTimeReceiver::from_recent_sync_sender(sender, age_ms),
                );
            },
        }
    }

    /// The "no sync traffic" sentinel for a DelayReq sender whose
    /// domain has no cached Sync sender: the host becomes (or stays) a
    /// receiver, and only where it has no prior selection is the
    /// selection left empty with zero confidence.
    pub fn mark_no_sync_traffic(&mut self)
        ensures
            *final(self) == PtpHostState::TimeReceiver(
                if old(self).spec_receiver_base().selected_transmitter_identity is Some {
                    old(self).spec_receiver_base()
                } else {
                    (PtpHostStateTimeReceiver {
                        selected_transmitter_identity: None,
                        selected_transmitter_confidence: CONFIDENCE_NONE,
                        ..old(self).spec_receiver_base()
                    })
                },
            ),
    {
        match self {
            PtpHostState::TimeReceiver(state) => {
                if state.selected_transmitter_identity.is_none() {
                    state.selected_transmitter_confidence = CONFIDENCE_NONE;
                }
            },
            _ => {
                *self = PtpHostState::TimeReceiver(PtpHostStateTimeReceiver::default());
            },
        }
    }

    pub fn update_from_delay_resp(&mut self, msg: &DelayRespMessage)
        ensures
            *final(self) == PtpHostState::TimeReceiver(
                old(self).spec_receiver_base().spec_with_delay_resp(*msg),
            ),
    {
        match self {
            PtpHostState::TimeReceiver(state) => {
                state.update_from_delay_resp(msg);
            },
            _ => {
                *self = PtpHostState::TimeReceiver(
                    PtpHostStateTimeReceiver::from_delay_resp(msg),
                );
            },
        }
    }

    pub fn update_from_pdelay_resp(&mut self, msg: &PDelayRespMessage)
        ensures
            *final(self) == PtpHostState::TimeReceiver(
                old(self).spec_receiver_base().spec_with_pdelay_resp(*msg),
            ),
    {
        match self {
            PtpHostState::TimeReceiver(state) => {
                state.update_from_pdelay_resp(msg);
            },
            _ => {
                *self = PtpHostState::TimeReceiver(
                    PtpHostStateTimeReceiver::from_pdelay_resp(msg),
                );
            },
        }
    }

    pub fn update_from_pdelay_resp_follow_up(&mut self, msg: &PDelayRespFollowUpMessage)
        ensures
            *final(self) == PtpHostState::TimeReceiver(
                old(self).spec_receiver_base().spec_with_pdelay_resp_follow_up(*msg),
            ),
    {
        match self {
            PtpHostState::TimeReceiver(state) => {
                state.update_from_pdelay_resp_follow_up(msg);
            },
            _ => {
                *self = PtpHostState::TimeReceiver(
                    PtpHostStateTimeReceiver::from_pdelay_resp_follow_up(msg),
                );
            },
        }
    }

    /// Short role label: "L" listening, "TT" transmitter, "PTT"
    /// elected transmitter, "TR" receiver.
    pub fn short_string(&self) -> (r: &'static str)
        ensures
            (*self is Listening) ==> r@ == "L"@,
            (*self is TimeReceiver) ==> r@ == "TR"@,
            forall|t: PtpHostStateTimeTransmitter|
                *self == PtpHostState::TimeTransmitter(t) ==> r@ == (if t.is_bmca_winner {
                    "PTT"@
                } else {
                    "TT"@
                }),
    {
        match self {
            PtpHostState::Listening => "L",
            PtpHostState::TimeTransmitter(state) => {
                if state.is_bmca_winner {
                    "PTT"
                } else {
                    "TT"
                }
            },
            PtpHostState::TimeReceiver(_) => "TR",
        }
    }
}

impl Default for PtpHostState {
    fn default() -> (r: PtpHostState)
        ensures
            r == PtpHostState::Listening,
    {
        PtpHostState::Listening
    }
}

} // verus!
