//! Per-host record: identity, observed IPs, message counters, bounded
//! packet history, and the current role state.
//!
//! A record is created on first reference to a clock identity and never
//! deleted automatically; only the counters and the packet history are
//! cumulative, the role state is recomputed as traffic arrives.

use vstd::prelude::*;

use crate::bounded_vec::BoundedVec;
use crate::codec::{PtpCorrectionField, PtpHeader, PtpMessage, PtpVersion};
use crate::host_state::PtpHostState;
use crate::identity::ClockIdentity;
use crate::net::{
    record_ip, spec_contains_ip, spec_ip_recorded, spec_ips_unique, IpAddress, IpRecord,
};

verus! {

/// Default bound on each host's packet history.
pub const DEFAULT_MAX_PACKET_HISTORY: usize = 1000;

/// A packet as recorded in a host's history: the decoded message plus
/// its capture metadata.
#[derive(Clone, Debug)]
pub struct ProcessedPacket {
    pub ptp_message: PtpMessage,
    /// Arrival time in milliseconds on the caller's clock.
    pub timestamp: u64,
    pub vlan_id: Option<u16>,
    pub source_ip: IpAddress,
    pub source_port: u16,
    pub interface: String,
    pub raw_packet_data: Vec<u8>,
}

/// `a` records the same observation as `b`: every field agrees (string
/// and byte contents compared by value).
pub open spec fn packet_like(a: ProcessedPacket, b: ProcessedPacket) -> bool {
    &&& a.ptp_message == b.ptp_message
    &&& a.timestamp == b.timestamp
    &&& a.vlan_id == b.vlan_id
    &&& a.source_ip == b.source_ip
    &&& a.source_port == b.source_port
    &&& a.interface@ == b.interface@
    &&& a.raw_packet_data@ == b.raw_packet_data@
}

impl ProcessedPacket {
    /// A field-for-field copy of the record.
    pub fn duplicate(&self) -> (r: ProcessedPacket)
        ensures
            packet_like(r, *self),
    {
        ProcessedPacket {
            ptp_message: self.ptp_message,
            timestamp: self.timestamp,
            vlan_id: self.vlan_id,
            source_ip: self.source_ip,
            source_port: self.source_port,
            interface: self.interface.clone(),
            raw_packet_data: vstd::slice::slice_to_vec(self.raw_packet_data.as_slice()),
        }
    }
}

/// Saturating counter increment: counters stop at the type's maximum
/// rather than wrap or panic.
pub open spec fn spec_inc(c: u32) -> u32 {
    if c < u32::MAX {
        (c + 1) as u32
    } else {
        c
    }
}

pub fn inc(c: u32) -> (r: u32)
    ensures
        r == spec_inc(c),
{
    if c < u32::MAX {
        c + 1
    } else {
        c
    }
}

/// Everything the observer knows about one PTP clock.
#[derive(Debug)]
pub struct PtpHost {
    pub clock_identity: ClockIdentity,
    pub ip_addresses: Vec<IpRecord>,
    pub domain_number: Option<u8>,
    pub last_version: Option<PtpVersion>,
    /// Milliseconds on the caller's clock when the host last appeared.
    pub last_seen: u64,
    pub announce_count: u32,
    pub sync_count: u32,
    pub follow_up_count: u32,
    pub delay_req_count: u32,
    pub delay_resp_count: u32,
    pub pdelay_req_count: u32,
    pub pdelay_resp_count: u32,
    pub pdelay_resp_follow_up_count: u32,
    pub total_messages_sent_count: u32,
    pub total_messages_received_count: u32,
    pub signaling_message_count: u32,
    pub management_message_count: u32,
    pub state: PtpHostState,
    pub last_correction_field: Option<PtpCorrectionField>,
    pub packet_history: BoundedVec<ProcessedPacket>,
}

impl PtpHost {
    /// No IP is recorded twice and the history respects its bound.
    /// `new` establishes this and every method preserves it.
    pub open spec fn wf(&self) -> bool {
        &&& spec_ips_unique(self.ip_addresses@)
        &&& self.packet_history.wf()
    }

    /// A fresh record in `Listening` state with empty counters and
    /// history.
    pub fn new(clock_identity: ClockIdentity, now_ms: u64) -> (r: PtpHost)
        ensures
            r.clock_identity == clock_identity,
            r.ip_addresses@ == Seq::<IpRecord>::empty(),
            r.domain_number is None,
            r.last_version is None,
            r.last_seen == now_ms,
            r.announce_count == 0,
            r.sync_count == 0,
            r.follow_up_count == 0,
            r.delay_req_count == 0,
            r.delay_resp_count == 0,
            r.pdelay_req_count == 0,
            r.pdelay_resp_count == 0,
            r.pdelay_resp_follow_up_count == 0,
            r.total_messages_sent_count == 0,
            r.total_messages_received_count == 0,
            r.signaling_message_count == 0,
            r.management_message_count == 0,
            r.state == PtpHostState::Listening,
            r.last_correction_field is None,
            r.packet_history@ == Seq::<ProcessedPacket>::empty(),
            r.packet_history.max_size == DEFAULT_MAX_PACKET_HISTORY,
            r.wf(),
    {
        PtpHost {
            clock_identity,
            ip_addresses: Vec::new(),
            domain_number: None,
            last_version: None,
            last_seen: now_ms,
            announce_count: 0,
            sync_count: 0,
            follow_up_count: 0,
            delay_req_count: 0,
            delay_resp_count: 0,
            pdelay_req_count: 0,
            pdelay_resp_count: 0,
            pdelay_resp_follow_up_count: 0,
            total_messages_sent_count: 0,
            total_messages_received_count: 0,
            signaling_message_count: 0,
            management_message_count: 0,
            state: PtpHostState::Listening,
            last_correction_field: None,
            packet_history: BoundedVec::new(DEFAULT_MAX_PACKET_HISTORY),
        }
    }

    /// Folds the common header of an accepted message into the record:
    /// domain, protocol version, correction field and last-seen time.
    pub fn update_from_ptp_header(&mut self, header: &PtpHeader, now_ms: u64)
        ensures
            *final(self) == (PtpHost {
                domain_number: Some(header.domain_number),
                last_version: Some(header.version),
                last_correction_field: Some(header.correction_field),
                last_seen: now_ms,
                ..*old(self)
            }),
    {
        self.domain_number = Some(header.domain_number);
        self.last_version = Some(header.version);
        self.last_correction_field = Some(header.correction_field);
        self.last_seen = now_ms;
    }

    /// Records that this host was seen at `ip` on `interface`: a new IP
    /// gains a record, a known IP gains the interface name at most
    /// once; nothing is ever removed.
    pub fn add_ip_address(&mut self, ip: IpAddress, interface: String)
        requires
            old(self).wf(),
        ensures
            final(self).wf(),
            *final(self) == (PtpHost { ip_addresses: final(self).ip_addresses, ..*old(self) }),
            spec_contains_ip(final(self).ip_addresses@, ip),
            spec_ip_recorded(old(self).ip_addresses@, final(self).ip_addresses@, ip, interface@),
    {
        record_ip(&mut self.ip_addresses, ip, interface);
    }

    pub fn get_ip_count(&self) -> (r: usize)
        ensures
            r == self.ip_addresses@.len(),
    {
        self.ip_addresses.len()
    }

    pub fn has_multiple_ips(&self) -> (r: bool)
        ensures
            r == (self.ip_addresses@.len() > 1),
    {
        self.ip_addresses.len() > 1
    }

    /// The first recorded IP, if any.
    pub fn get_primary_ip(&self) -> (r: Option<&IpAddress>)
        ensures
            self.ip_addresses@.len() == 0 <==> r is None,
            self.ip_addresses@.len() > 0 ==> r == Some(&self.ip_addresses@[0].ip),
    {
        if self.ip_addresses.len() > 0 {
            Some(&self.ip_addresses[0].ip)
        } else {
            None
        }
    }

    /// Whether any of this host's recorded IPs is one of `local_ips`.
    pub fn has_local_ip(&self, local_ips: &Vec<IpAddress>) -> (r: bool)
        ensures
            r == exists|i: int, j: int|
                0 <= i < self.ip_addresses@.len() && 0 <= j < local_ips@.len()
                    && self.ip_addresses@[i].ip == local_ips@[j],
    {
        let mut i: usize = 0;
        while i < self.ip_addresses.len()
            invariant
                i <= self.ip_addresses@.len(),
                forall|ii: int, j: int|
                    0 <= ii < i && 0 <= j < local_ips@.len() ==> self.ip_addresses@[ii].ip
                        != local_ips@[j],
            decreases self.ip_addresses@.len() - i,
        {
            let mut j: usize = 0;
            while j < local_ips.len()
                invariant
                    i < self.ip_addresses@.len(),
                    j <= local_ips@.len(),
                    forall|jj: int|
                        0 <= jj < j ==> self.ip_addresses@[i as int].ip != local_ips@[jj],
                decreases local_ips@.len() - j,
            {
                if self.ip_addresses[i].ip == local_ips[j] {
                    return true;
                }
                j = j + 1;
            }
            i = i + 1;
        }
        false
    }

    pub fn is_transmitter(&self) -> (r: bool)
        ensures
            r == (self.state is TimeTransmitter),
    {
        match self.state {
            PtpHostState::TimeTransmitter(_) => true,
            _ => false,
        }
    }

    pub fn is_receiver(&self) -> (r: bool)
        ensures
            r == (self.state is TimeReceiver),
    {
        match self.state {
            PtpHostState::TimeReceiver(_) => true,
            _ => false,
        }
    }

    /// Milliseconds since the host was last seen, on the caller's
    /// clock; zero if that clock ran backwards.
    pub fn time_since_last_seen(&self, now_ms: u64) -> (r: u64)
        ensures
            r == (if now_ms >= self.last_seen {
                now_ms - self.last_seen
            } else {
                0
            }),
    {
        if now_ms >= self.last_seen {
            now_ms - self.last_seen
        } else {
            0
        }
    }

    /// Appends the packet to the bounded history, evicting the oldest
    /// entry if the bound is exceeded.
    pub fn add_packet(&mut self, packet: ProcessedPacket)
        requires
            old(self).wf(),
        ensures
            final(self).wf(),
            *final(self) == (PtpHost { packet_history: final(self).packet_history, ..*old(self) }),
            final(self).packet_history.max_size == old(self).packet_history.max_size,
            final(self).packet_history@ == (if old(self).packet_history@.len() + 1
                > old(self).packet_history.max_size {
                old(self).packet_history@.push(packet).drop_first()
            } else {
                old(self).packet_history@.push(packet)
            }),
    {
        self.packet_history.push(packet);
    }

    /// The retained history, oldest first, as field-for-field copies.
    pub fn get_packet_history(&self) -> (r: Vec<ProcessedPacket>)
        ensures
            r@.len() == self.packet_history@.len(),
            forall|i: int|
                0 <= i < r@.len() ==> packet_like(r@[i], self.packet_history@[i]),
    {
        let mut r: Vec<ProcessedPacket> = Vec::new();
        let mut i: usize = 0;
        while i < self.packet_history.items.len()
            invariant
                i <= self.packet_history@.len(),
                r@.len() == i,
                forall|j: int| 0 <= j < i ==> packet_like(r@[j], self.packet_history@[j]),
            decreases self.packet_history@.len() - i,
        {
            r.push(self.packet_history.items[i].duplicate());
            i = i + 1;
        }
        r
    }

    pub fn clear_packet_history(&mut self)
        ensures
            *final(self) == (PtpHost { packet_history: final(self).packet_history, ..*old(self) }),
            final(self).packet_history@ == Seq::<ProcessedPacket>::empty(),
            final(self).packet_history.max_size == old(self).packet_history.max_size,
            old(self).wf() ==> final(self).wf(),
    {
        self.packet_history.clear();
    }

    /// Rebounds the history, dropping oldest entries until it fits.
    pub fn set_max_packet_history(&mut self, max_history: usize)
        ensures
            *final(self) == (PtpHost { packet_history: final(self).packet_history, ..*old(self) }),
            final(self).packet_history.max_size == max_history,
            final(self).packet_history@ == old(self).packet_history@.skip(
                if old(self).packet_history@.len() > max_history {
                    old(self).packet_history@.len() - max_history
                } else {
                    0
                },
            ),
            old(self).wf() ==> final(self).wf(),
    {
        self.packet_history.set_max_size(max_history);
    }
}

} // verus!
