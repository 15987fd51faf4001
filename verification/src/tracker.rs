//! The protocol engine: host registry, per-packet dispatch, the
//! sync-correlation heuristic hook-up, and the BMCA election.
//!
//! All mutation happens synchronously inside the caller's periodic scan
//! tick; the engine holds no clock of its own and is handed the current
//! time in milliseconds with every call that needs one.

use vstd::prelude::*;

use crate::codec::{spec_decode_err, message_matches, PtpMessage, PtpMessageType};
use crate::correlation::{
    spec_age, spec_latest, spec_retained, spec_upserted, SyncSenderCache, SyncSenderRecord,
};
use crate::host::{spec_inc, PtpHost, ProcessedPacket, DEFAULT_MAX_PACKET_HISTORY};
use crate::host_state::{
    PtpHostState, PtpHostStateTimeReceiver, CONFIDENCE_FULL, CONFIDENCE_NONE,
};
use crate::identity::ClockIdentity;
use crate::net::{spec_ip_recorded, IpAddress, IpRecord};

verus! {

/// At most this many packets are drained from the inbound queue per
/// scan tick, to bound per-tick latency.
pub const MAX_PACKETS_PER_SCAN: usize = 100;

/// A captured datagram as the capture layer hands it over: the PTP
/// application payload plus its addressing metadata.
#[derive(Clone, Debug)]
pub struct RawPacketRecord {
    /// The raw captured frame, kept for the packet history.
    pub data: Vec<u8>,
    /// The UDP payload that possibly holds a PTP message.
    pub ptp_payload: Vec<u8>,
    pub source_ip: IpAddress,
    pub source_port: u16,
    pub vlan_id: Option<u16>,
    pub interface_name: String,
}

/// Whether some host in `hosts` carries `id`.
pub open spec fn spec_contains_host(hosts: Seq<PtpHost>, id: Seq<u8>) -> bool {
    exists|i: int| 0 <= i < hosts.len() && hosts[i].clock_identity.clock_id@ == id
}

/// The index of the host carrying `id`, assuming one exists.
pub open spec fn spec_host_index(hosts: Seq<PtpHost>, id: Seq<u8>) -> int {
    choose|i: int| 0 <= i < hosts.len() && hosts[i].clock_identity.clock_id@ == id
}

/// Each clock identity owns at most one record.
pub open spec fn spec_hosts_unique(hosts: Seq<PtpHost>) -> bool {
    forall|i: int, j: int|
        0 <= i < j < hosts.len() ==> hosts[i].clock_identity.clock_id@
            != hosts[j].clock_identity.clock_id@
}

/// The registry of every PTP clock seen on the network, with the
/// correlation cache and the time of the last accepted packet.
#[derive(Debug)]
pub struct PtpTracker {
    pub hosts: Vec<PtpHost>,
    /// When the last packet was accepted, in milliseconds on the
    /// caller's clock.
    pub last_packet: u64,
    pub recent_sync_senders: SyncSenderCache,
    /// The monitored interfaces, as (name, local IPv4 address) pairs.
    pub interfaces: Vec<(String, IpAddress)>,
}

impl PtpTracker {
    /// Identities are unique, each host record is well formed, and the
    /// correlation cache is well formed.  `new` establishes this and
    /// every method preserves it.
    pub open spec fn wf(&self) -> bool {
        &&& spec_hosts_unique(self.hosts@)
        &&& (forall|i: int| 0 <= i < self.hosts@.len() ==> (#[trigger] self.hosts@[i]).wf())
        &&& self.recent_sync_senders.wf()
    }

    /// An empty registry monitoring the given interfaces.
    pub fn new(interfaces: Vec<(String, IpAddress)>, now_ms: u64) -> (r: PtpTracker)
        ensures
            r.hosts@ == Seq::<PtpHost>::empty(),
            r.last_packet == now_ms,
            r.recent_sync_senders.entries@.len() == 0,
            r.interfaces == interfaces,
            r.wf(),
    {
        PtpTracker {
            hosts: Vec::new(),
            last_packet: now_ms,
            recent_sync_senders: SyncSenderCache::new(),
            interfaces,
        }
    }

    /// The index of the host carrying `id`, if any; the match is the
    /// only one by the uniqueness invariant.
    fn find_host(&self, id: &ClockIdentity) -> (r: Option<usize>)
        ensures
            match r {
                Some(i) => {
                    &&& i < self.hosts@.len()
                    &&& self.hosts@[i as int].clock_identity.clock_id@ == id.clock_id@
                    &&& forall|j: int|
                        0 <= j < i ==> self.hosts@[j].clock_identity.clock_id@ != id.clock_id@
                },
                None => !spec_contains_host(self.hosts@, id.clock_id@),
            },
    {
        let mut i: usize = 0;
        while i < self.hosts.len()
            invariant
                i <= self.hosts@.len(),
                forall|j: int| 0 <= j < i ==> self.hosts@[j].clock_identity.clock_id@
                    != id.clock_id@,
            decreases self.hosts@.len() - i,
        {
            if crate::correlation::identities_equal(&self.hosts[i].clock_identity, id) {
                return Some(i);
            }
            i = i + 1;
        }
        None
    }

    /// Returns the index of the record for `id`, creating a fresh
    /// `Listening` record if the identity was never seen.
    fn get_or_create_host(&mut self, id: &ClockIdentity, now_ms: u64) -> (r: usize)
        requires
            old(self).wf(),
        ensures
            final(self).wf(),
            final(self).last_packet == old(self).last_packet,
            final(self).recent_sync_senders == old(self).recent_sync_senders,
            final(self).interfaces == old(self).interfaces,
            r < final(self).hosts@.len(),
            final(self).hosts@[r as int].clock_identity.clock_id@ == id.clock_id@,
            spec_contains_host(old(self).hosts@, id.clock_id@) ==> {
                &&& final(self).hosts@ == old(self).hosts@
                &&& r == spec_host_index(old(self).hosts@, id.clock_id@)
            },
            !spec_contains_host(old(self).hosts@, id.clock_id@) ==> {
                &&& r == old(self).hosts@.len()
                &&& final(self).hosts@.len() == old(self).hosts@.len() + 1
                &&& final(self).hosts@.take(r as int) == old(self).hosts@
                &&& final(self).hosts@[r as int] == spec_fresh_host(
                    final(self).hosts@[r as int],
                    *id,
                    now_ms,
                )
                &&& final(self).hosts@[r as int].ip_addresses@.len() == 0
                &&& final(self).hosts@[r as int].packet_history@.len() == 0
                &&& final(self).hosts@[r as int].packet_history.max_size
                    == crate::host::DEFAULT_MAX_PACKET_HISTORY
            },
    {
        match self.find_host(id) {
            Some(i) => {
                proof {
                    let k = spec_host_index(self.hosts@, id.clock_id@);
                    assert(0 <= k < self.hosts@.len()
                        && self.hosts@[k].clock_identity.clock_id@ == id.clock_id@);
                    if k != i {
                        assert(self.hosts@[i as int].clock_identity.clock_id@
                            != self.hosts@[k].clock_identity.clock_id@);
                    }
                }
                i
            },
            None => {
                let i = self.hosts.len();
                self.hosts.push(PtpHost::new(*id, now_ms));
                proof {
                    assert(self.hosts@.take(i as int) =~= old(self).hosts@);
                }
                i
            },
        }
    }

    /// Updates the sender's record for one accepted message and feeds
    /// the sync-correlation cache; returns the sender's index.
    #[verifier::rlimit(100)]
    #[verifier::spinoff_prover]
    fn dispatch_sender(&mut self, msg: PtpMessage, sender_packet: ProcessedPacket, now_ms: u64)
        -> (si: usize)
        requires
            old(self).wf(),
            sender_packet.ptp_message == msg,
            sender_packet.timestamp == now_ms,
        ensures
            final(self).wf(),
            final(self).interfaces == old(self).interfaces,
            final(self).last_packet == old(self).last_packet,
            final(self).recent_sync_senders.entries@ == (match msg {
                PtpMessage::Sync(m) => spec_upserted(
                    old(self).recent_sync_senders.entries@,
                    m.header.domain_number,
                    msg.spec_header().source_port_identity.clock_identity,
                    now_ms,
                ),
                PtpMessage::FollowUp(m) => spec_upserted(
                    old(self).recent_sync_senders.entries@,
                    m.header.domain_number,
                    msg.spec_header().source_port_identity.clock_identity,
                    now_ms,
                ),
                _ => old(self).recent_sync_senders.entries@,
            }),
            old(self).hosts@.len() <= final(self).hosts@.len() <= old(self).hosts@.len() + 1,
            final(self).hosts@.len() > old(self).hosts@.len() ==> si == old(self).hosts@.len(),
            si < final(self).hosts@.len(),
            forall|j: int|
                0 <= j < old(self).hosts@.len() && j != si ==> final(self).hosts@[j] == old(
                    self,
                ).hosts@[j],
            forall|j: int|
                0 <= j < old(self).hosts@.len() ==> final(self).hosts@[j].clock_identity.clock_id@
                    == old(self).hosts@[j].clock_identity.clock_id@,
            final(self).hosts@[si as int].clock_identity.clock_id@
                == msg.spec_header().source_port_identity.clock_identity.clock_id@,
            spec_host_index(
                final(self).hosts@,
                msg.spec_header().source_port_identity.clock_identity.clock_id@,
            ) == si,
            spec_contains_host(
                final(self).hosts@,
                msg.spec_header().source_port_identity.clock_identity.clock_id@,
            ),
            spec_sender_updated(
                old(self).hosts@,
                final(self).hosts@[si as int],
                msg,
                old(self).recent_sync_senders.entries@,
                now_ms,
                sender_packet.vlan_id,
                sender_packet.source_ip,
                sender_packet.source_port,
                sender_packet.interface@,
                sender_packet.raw_packet_data@,
            ),
    {
        let header = *msg.header();
        let sender_id = header.source_port_identity.clock_identity;
        let correlation_hit: Option<(ClockIdentity, u64)> = match &msg {
            PtpMessage::DelayReq(m) => self.recent_sync_senders.latest_for_domain(
                m.header.domain_number,
                now_ms,
            ),
            _ => None,
        };
        let ghost gsp = sender_packet;
        let source_ip = sender_packet.source_ip;
        let interface = sender_packet.interface.clone();
        let si = self.get_or_create_host(&sender_id, now_ms);
        let ghost mid0 = self.hosts@;
        let mut h = self.hosts.remove(si);
        let ghost h0 = h;
        h.add_ip_address(source_ip, interface);
        h.update_from_ptp_header(&header, now_ms);
        h.add_packet(sender_packet);
        match &msg {
            PtpMessage::Announce(m) => {
                h.announce_count = crate::host::inc(h.announce_count);
                h.state.update_from_announce(m);
            },
            PtpMessage::Sync(m) => {
                h.sync_count = crate::host::inc(h.sync_count);
                h.state.update_from_sync(m, now_ms);
                self.recent_sync_senders.upsert(m.header.domain_number, sender_id, now_ms);
            },
            PtpMessage::FollowUp(m) => {
                h.follow_up_count = crate::host::inc(h.follow_up_count);
                h.state.update_from_follow_up(m);
                self.recent_sync_senders.upsert(m.header.domain_number, sender_id, now_ms);
            },
            PtpMessage::DelayReq(_) => {
                h.delay_req_count = crate::host::inc(h.delay_req_count);
                match correlation_hit {
                    Some(hit) => {
                        h.state.update_from_recent_sync_sender(hit.0, hit.1);
                    },
                    None => {
                        h.state.mark_no_sync_traffic();
                    },
                }
            },
            PtpMessage::DelayResp(_) => {
                h.delay_resp_count = crate::host::inc(h.delay_resp_count);
            },
            PtpMessage::PDelayReq(_) => {
                h.pdelay_req_count = crate::host::inc(h.pdelay_req_count);
            },
            PtpMessage::PDelayResp(_) => {
                h.pdelay_resp_count = crate::host::inc(h.pdelay_resp_count);
            },
            PtpMessage::PDelayRespFollowup(_) => {
                h.pdelay_resp_follow_up_count = crate::host::inc(h.pdelay_resp_follow_up_count);
            },
            PtpMessage::Signaling(_) => {
                h.signaling_message_count = crate::host::inc(h.signaling_message_count);
            },
            PtpMessage::Management(_) => {
                h.management_message_count = crate::host::inc(h.management_message_count);
            },
        }
        h.total_messages_sent_count = crate::host::inc(h.total_messages_sent_count);
        self.hosts.insert(si, h);
        proof {
            assert(self.hosts@ =~= mid0.update(si as int, self.hosts@[si as int]));
            assert(spec_packet_matches(
                gsp,
                msg,
                now_ms,
                gsp.vlan_id,
                gsp.source_ip,
                gsp.source_port,
                gsp.interface@,
                gsp.raw_packet_data@,
            ));
            assert(spec_hosts_unique(self.hosts@));
            assert(spec_host_index(self.hosts@, sender_id.clock_id@) == si) by {
                assert(self.hosts@[si as int].clock_identity.clock_id@ == sender_id.clock_id@);
                let k = spec_host_index(self.hosts@, sender_id.clock_id@);
                if k != si {
                    assert(self.hosts@[k].clock_identity.clock_id@ != self.hosts@[
                        si as int
                    ].clock_identity.clock_id@);
                }
            }
            if !spec_contains_host(old(self).hosts@, sender_id.clock_id@) {
                assert(h0.ip_addresses@ =~= Seq::<IpRecord>::empty());
                assert(h0.packet_history@ =~= Seq::<ProcessedPacket>::empty());
            }
        }
        si
    }

    /// Updates the record of the host a delay-style response is
    /// addressed to; returns that host's index.
    #[verifier::rlimit(100)]
    #[verifier::spinoff_prover]
    fn dispatch_requester(&mut self, msg: PtpMessage, rp: ProcessedPacket, now_ms: u64) -> (ri:
        usize)
        requires
            old(self).wf(),
            spec_requester_identity(msg) is Some,
            rp.ptp_message == msg,
            rp.timestamp == now_ms,
        ensures
            final(self).wf(),
            final(self).interfaces == old(self).interfaces,
            final(self).last_packet == old(self).last_packet,
            final(self).recent_sync_senders == old(self).recent_sync_senders,
            old(self).hosts@.len() <= final(self).hosts@.len() <= old(self).hosts@.len() + 1,
            final(self).hosts@.len() > old(self).hosts@.len() ==> ri == old(self).hosts@.len(),
            ri < final(self).hosts@.len(),
            forall|j: int|
                0 <= j < old(self).hosts@.len() && j != ri ==> final(self).hosts@[j] == old(
                    self,
                ).hosts@[j],
            forall|j: int|
                0 <= j < old(self).hosts@.len() ==> final(self).hosts@[j].clock_identity.clock_id@
                    == old(self).hosts@[j].clock_identity.clock_id@,
            final(self).hosts@[ri as int].clock_identity.clock_id@ == spec_requester_identity(
                msg,
            )->Some_0.clock_id@,
            spec_contains_host(
                final(self).hosts@,
                spec_requester_identity(msg)->Some_0.clock_id@,
            ),
            spec_host_index(
                final(self).hosts@,
                spec_requester_identity(msg)->Some_0.clock_id@,
            ) == ri,
            spec_requester_updated(
                old(self).hosts@,
                final(self).hosts@[ri as int],
                msg,
                now_ms,
                rp.vlan_id,
                rp.source_ip,
                rp.source_port,
                rp.interface@,
                rp.raw_packet_data@,
            ),
    {
        let rid = match &msg {
            PtpMessage::DelayResp(m) => m.requesting_port_identity.clock_identity,
            PtpMessage::PDelayResp(m) => m.requesting_port_identity.clock_identity,
            PtpMessage::PDelayRespFollowup(m) => m.requesting_port_identity.clock_identity,
            _ => msg.header().source_port_identity.clock_identity,
        };
        let ghost grp = rp;
        let ri = self.get_or_create_host(&rid, now_ms);
        let ghost mid2 = self.hosts@;
        let mut g = self.hosts.remove(ri);
        let ghost g0 = g;
        match &msg {
            PtpMessage::DelayResp(m) => {
                g.delay_resp_count = crate::host::inc(g.delay_resp_count);
                g.state.update_from_delay_resp(m);
            },
            PtpMessage::PDelayResp(m) => {
                g.pdelay_resp_count = crate::host::inc(g.pdelay_resp_count);
                g.state.update_from_pdelay_resp(m);
            },
            PtpMessage::PDelayRespFollowup(m) => {
                g.pdelay_resp_follow_up_count = crate::host::inc(g.pdelay_resp_follow_up_count);
                g.state.update_from_pdelay_resp_follow_up(m);
            },
            _ => {},
        }
        g.total_messages_received_count = crate::host::inc(g.total_messages_received_count);
        g.add_packet(rp);
        self.hosts.insert(ri, g);
        proof {
            assert(self.hosts@ =~= mid2.update(ri as int, self.hosts@[ri as int]));
            assert(spec_hosts_unique(self.hosts@));
            assert(spec_host_index(self.hosts@, rid.clock_id@) == ri) by {
                assert(self.hosts@[ri as int].clock_identity.clock_id@ == rid.clock_id@);
                let k = spec_host_index(self.hosts@, rid.clock_id@);
                if k != ri {
                    assert(self.hosts@[k].clock_identity.clock_id@ != self.hosts@[
                        ri as int
                    ].clock_identity.clock_id@);
                }
            }
            assert(spec_packet_matches(
                grp,
                msg,
                now_ms,
                grp.vlan_id,
                grp.source_ip,
                grp.source_port,
                grp.interface@,
                grp.raw_packet_data@,
            ));
            if !spec_contains_host(old(self).hosts@, rid.clock_id@) {
                assert(g0.ip_addresses@ =~= Seq::<IpRecord>::empty());
                assert(g0.packet_history@ =~= Seq::<ProcessedPacket>::empty());
            }
        }
        ri
    }

    /// Dispatches one accepted message: updates the sender's record
    /// (and, for a delay-style response, the requester's), feeds the
    /// sync-correlation cache, and advances the last-packet time.
    #[verifier::rlimit(100)]
    #[verifier::spinoff_prover]
    pub fn handle_message(
        &mut self,
        msg: PtpMessage,
        source_ip: IpAddress,
        source_port: u16,
        vlan_id: Option<u16>,
        interface: String,
        raw_packet_data: Vec<u8>,
        now_ms: u64,
    )
        requires
            old(self).wf(),
        ensures
            final(self).wf(),
            spec_message_handled(
                *old(self),
                *final(self),
                msg,
                source_ip,
                source_port,
                vlan_id,
                interface@,
                raw_packet_data@,
                now_ms,
            ),
    {
        let ghost sid = msg.spec_header().source_port_identity.clock_identity;
        let packet = ProcessedPacket {
            ptp_message: msg,
            timestamp: now_ms,
            vlan_id,
            source_ip,
            source_port,
            interface,
            raw_packet_data,
        };
        let has_requester = match &msg {
            PtpMessage::DelayResp(_) => true,
            PtpMessage::PDelayResp(_) => true,
            PtpMessage::PDelayRespFollowup(_) => true,
            _ => false,
        };
        if has_requester {
            let sender_packet = packet.duplicate();
            let si = self.dispatch_sender(msg, sender_packet, now_ms);
            let ghost mid1 = *self;
            let ghost rid = spec_requester_identity(msg)->Some_0;
            let ri = self.dispatch_requester(msg, packet, now_ms);
            self.last_packet = now_ms;
            proof {
                if rid.clock_id@ != sid.clock_id@ {
                    lemma_requester_pre(old(self).hosts@, mid1.hosts@, sid, si as int, rid);
                    assert(ri != si);
                    assert(self.hosts@[si as int] == mid1.hosts@[si as int]);
                    assert(spec_host_index(self.hosts@, sid.clock_id@) == si) by {
                        assert(self.hosts@[si as int].clock_identity.clock_id@ == sid.clock_id@);
                        let k = spec_host_index(self.hosts@, sid.clock_id@);
                        if k != si {
                            assert(self.hosts@[k].clock_identity.clock_id@ != self.hosts@[
                                si as int
                            ].clock_identity.clock_id@);
                        }
                    }
                    assert(spec_sender_updated(
                        old(self).hosts@,
                        self.hosts@[si as int],
                        msg,
                        old(self).recent_sync_senders.entries@,
                        now_ms,
                        vlan_id,
                        source_ip,
                        source_port,
                        interface@,
                        raw_packet_data@,
                    ));
                    assert(spec_requester_updated(
                        old(self).hosts@,
                        self.hosts@[ri as int],
                        msg,
                        now_ms,
                        vlan_id,
                        source_ip,
                        source_port,
                        interface@,
                        raw_packet_data@,
                    ));
                } else {
                    lemma_self_response_composed(
                        *old(self),
                        mid1,
                        *self,
                        msg,
                        si as int,
                        ri as int,
                        now_ms,
                        vlan_id,
                        source_ip,
                        source_port,
                        interface@,
                        raw_packet_data@,
                    );
                }
            }
        } else {
            let si = self.dispatch_sender(msg, packet, now_ms);
            self.last_packet = now_ms;
        }
    }

    /// Decodes one captured datagram and dispatches it.  A buffer that
    /// is not a recognizable PTP message is dropped whole: no host is
    /// created or mutated, no counter moves, nothing is reported.
    pub fn process_raw_packet(&mut self, raw: RawPacketRecord, now_ms: u64) -> (accepted: bool)
        requires
            old(self).wf(),
        ensures
            final(self).wf(),
            accepted <==> spec_decode_err(raw.ptp_payload@) is None,
            !accepted ==> *final(self) == *old(self),
            accepted ==> final(self).last_packet == now_ms,
            spec_packet_processed(*old(self), *final(self), raw, now_ms),
    {
        match PtpMessage::parse(raw.ptp_payload.as_slice()) {
            Err(_) => false,
            Ok(m) => {
                let ghost gm = m;
                self.handle_message(
                    m,
                    raw.source_ip,
                    raw.source_port,
                    raw.vlan_id,
                    raw.interface_name,
                    raw.data,
                    now_ms,
                );
                proof {
                    assert(message_matches(gm, raw.ptp_payload@));
                }
                true
            },
        }
    }

    /// One scan tick: drains the first `MAX_PACKETS_PER_SCAN` packets
    /// of the batch (all of it if shorter) and offers each to the
    /// engine in order, evicts stale sync-correlation entries, runs
    /// the BMCA election, and hands back the un-drained remainder so
    /// the caller can keep it queued for the next tick.  The
    /// last-packet time advances exactly when some drained packet was
    /// accepted.  Afterwards every cache entry is fresh, every
    /// candidate's winner flag says exactly whether its domain elected
    /// it, and every receiver of a domain with an elected winner
    /// selects that winner with full confidence.
    pub fn scan_network(&mut self, packets: Vec<RawPacketRecord>, now_ms: u64) -> (remainder:
        Vec<RawPacketRecord>)
        requires
            old(self).wf(),
        ensures
            final(self).wf(),
            final(self).interfaces == old(self).interfaces,
            remainder@ == packets@.skip(spec_drain_count(packets@.len() as int)),
            exists|ingested: PtpTracker, cleaned: PtpTracker| {
                &&& #[trigger] spec_batch_processed(
                    *old(self),
                    ingested,
                    packets@.take(spec_drain_count(packets@.len() as int)),
                    now_ms,
                )
                &&& #[trigger] spec_cache_cleaned(ingested, cleaned, now_ms)
                &&& spec_election_applied(cleaned, *final(self))
            },
            spec_some_accepted(packets@, spec_drain_count(packets@.len() as int))
                ==> final(self).last_packet == now_ms,
            !spec_some_accepted(packets@, spec_drain_count(packets@.len() as int))
                ==> final(self).last_packet == old(self).last_packet,
            forall|i: int|
                0 <= i < final(self).recent_sync_senders.entries@.len() ==> spec_retained(
                    now_ms,
                    (#[trigger] final(self).recent_sync_senders.entries@[i]).last_sync_ms,
                ),
            forall|i: int|
                0 <= i < final(self).hosts@.len() && (#[trigger] final(self).hosts@[i]).state
                    is TimeTransmitter && final(self).hosts@[i].domain_number is Some
                    ==> final(self).hosts@[i].state->TimeTransmitter_0.is_bmca_winner == (
                crate::election::spec_domain_winner(
                    final(self).hosts@,
                    final(self).hosts@[i].domain_number->Some_0,
                ) == Some(i)),
            forall|i: int|
                0 <= i < final(self).hosts@.len() && (#[trigger] final(self).hosts@[i]).state
                    is TimeReceiver && final(self).hosts@[i].domain_number is Some
                    && crate::election::spec_domain_winner(
                    final(self).hosts@,
                    final(self).hosts@[i].domain_number->Some_0,
                ) is Some ==> {
                    let w = crate::election::spec_domain_winner(
                        final(self).hosts@,
                        final(self).hosts@[i].domain_number->Some_0,
                    )->Some_0;
                    &&& final(self).hosts@[i].state->TimeReceiver_0.selected_transmitter_identity
                        == Some(final(self).hosts@[w].clock_identity)
                    &&& final(self).hosts@[i].state->TimeReceiver_0.selected_transmitter_confidence
                        == CONFIDENCE_FULL
                },
    {
        let mut queue = packets;
        let ghost orig = queue@;
        let n = queue.len();
        let drain = if n > MAX_PACKETS_PER_SCAN {
            MAX_PACKETS_PER_SCAN
        } else {
            n
        };
        proof {
            assert(orig.take(0) =~= Seq::<RawPacketRecord>::empty());
            assert(orig.skip(0) =~= orig);
        }
        let mut processed: usize = 0;
        while processed < drain
            invariant
                self.wf(),
                self.interfaces == old(self).interfaces,
                drain <= orig.len(),
                drain == spec_drain_count(orig.len() as int),
                processed <= drain,
                queue@ == orig.skip(processed as int),
                spec_batch_processed(*old(self), *self, orig.take(processed as int), now_ms),
                spec_some_accepted(orig, processed as int) ==> self.last_packet == now_ms,
                !spec_some_accepted(orig, processed as int)
                    ==> self.last_packet == old(self).last_packet,
            decreases drain - processed,
        {
            let ghost pre_step = *self;
            let raw = queue.remove(0);
            let ghost graw = raw;
            let accepted = self.process_raw_packet(raw, now_ms);
            proof {
                assert(graw == orig[processed as int]);
                lemma_batch_processed_snoc(
                    *old(self),
                    pre_step,
                    *self,
                    orig.take(processed as int),
                    graw,
                    now_ms,
                );
                assert(orig.take(processed as int).push(graw) =~= orig.take(
                    processed as int + 1,
                ));
                assert(queue@ =~= orig.skip(processed as int + 1));
                if accepted {
                    assert(spec_decode_err(orig[processed as int].ptp_payload@) is None);
                    assert(spec_some_accepted(orig, processed as int + 1));
                } else {
                    if spec_some_accepted(orig, processed as int + 1) {
                        let wi = choose|i: int|
                            0 <= i < processed as int + 1 && spec_decode_err(
                                (#[trigger] orig[i]).ptp_payload@,
                            ) is None;
                        assert(wi != processed as int);
                        assert(spec_some_accepted(orig, processed as int));
                    }
                }
            }
            processed = processed + 1;
        }
        let ghost ingested = *self;
        self.recent_sync_senders.cleanup(now_ms);
        let ghost cleaned = *self;
        self.run_bmca_election();
        proof {
            crate::election::lemma_election_outcome(cleaned.hosts@, self.hosts@);
            assert(spec_cache_cleaned(ingested, cleaned, now_ms));
            assert(spec_election_applied(cleaned, *self));
            assert(spec_batch_processed(
                *old(self),
                ingested,
                orig.take(spec_drain_count(orig.len() as int)),
                now_ms,
            ));
        }
        queue
    }

    /// Every host record, in creation order.  Ordering for display is a
    /// presentation concern.
    pub fn get_hosts(&self) -> (r: &Vec<PtpHost>)
        ensures
            r == &self.hosts,
    {
        &self.hosts
    }

    pub fn get_host_by_clock_identity(&self, clock_identity: &ClockIdentity) -> (r: Option<
        &PtpHost,
    >)
        ensures
            r is Some <==> spec_contains_host(self.hosts@, clock_identity.clock_id@),
            r matches Some(h) ==> h.clock_identity.clock_id@ == clock_identity.clock_id@
                && exists|i: int|
                0 <= i < self.hosts@.len() && *h == self.hosts@[i],
    {
        match self.find_host(clock_identity) {
            Some(i) => Some(&self.hosts[i]),
            None => None,
        }
    }

    pub fn clear_hosts(&mut self)
        ensures
            final(self).hosts@ == Seq::<PtpHost>::empty(),
            final(self).last_packet == old(self).last_packet,
            final(self).recent_sync_senders == old(self).recent_sync_senders,
            final(self).interfaces == old(self).interfaces,
            old(self).wf() ==> final(self).wf(),
    {
        self.hosts.clear();
    }

    pub fn get_transmitter_count(&self) -> (r: usize)
        ensures
            r == self.hosts@.filter(|h: PtpHost| h.state is TimeTransmitter).len(),
    {
        let ghost pred = |h: PtpHost| h.state is TimeTransmitter;
        proof {
            crate::seq_util::lemma_filter_empty(pred);
            assert(self.hosts@.take(0) =~= Seq::<PtpHost>::empty());
        }
        let mut count: usize = 0;
        let mut i: usize = 0;
        while i < self.hosts.len()
            invariant
                i <= self.hosts@.len(),
                count == self.hosts@.take(i as int).filter(pred).len(),
                count <= i,
                pred == (|h: PtpHost| h.state is TimeTransmitter),
            decreases self.hosts@.len() - i,
        {
            proof {
                crate::seq_util::lemma_filter_take_step(self.hosts@, pred, i as int);
            }
            if self.hosts[i].is_transmitter() {
                count = count + 1;
            }
            i = i + 1;
        }
        proof {
            assert(self.hosts@.take(self.hosts@.len() as int) =~= self.hosts@);
        }
        count
    }

    pub fn get_receiver_count(&self) -> (r: usize)
        ensures
            r == self.hosts@.filter(|h: PtpHost| h.state is TimeReceiver).len(),
    {
        let ghost pred = |h: PtpHost| h.state is TimeReceiver;
        proof {
            crate::seq_util::lemma_filter_empty(pred);
            assert(self.hosts@.take(0) =~= Seq::<PtpHost>::empty());
        }
        let mut count: usize = 0;
        let mut i: usize = 0;
        while i < self.hosts.len()
            invariant
                i <= self.hosts@.len(),
                count == self.hosts@.take(i as int).filter(pred).len(),
                count <= i,
                pred == (|h: PtpHost| h.state is TimeReceiver),
            decreases self.hosts@.len() - i,
        {
            proof {
                crate::seq_util::lemma_filter_take_step(self.hosts@, pred, i as int);
            }
            if self.hosts[i].is_receiver() {
                count = count + 1;
            }
            i = i + 1;
        }
        proof {
            assert(self.hosts@.take(self.hosts@.len() as int) =~= self.hosts@);
        }
        count
    }

    pub fn get_listening_count(&self) -> (r: usize)
        ensures
            r == self.hosts@.filter(|h: PtpHost| h.state is Listening).len(),
    {
        let ghost pred = |h: PtpHost| h.state is Listening;
        proof {
            crate::seq_util::lemma_filter_empty(pred);
            assert(self.hosts@.take(0) =~= Seq::<PtpHost>::empty());
        }
        let mut count: usize = 0;
        let mut i: usize = 0;
        while i < self.hosts.len()
            invariant
                i <= self.hosts@.len(),
                count == self.hosts@.take(i as int).filter(pred).len(),
                count <= i,
                pred == (|h: PtpHost| h.state is Listening),
            decreases self.hosts@.len() - i,
        {
            proof {
                crate::seq_util::lemma_filter_take_step(self.hosts@, pred, i as int);
            }
            let is_listening = match self.hosts[i].state {
                PtpHostState::Listening => true,
                _ => false,
            };
            if is_listening {
                count = count + 1;
            }
            i = i + 1;
        }
        proof {
            assert(self.hosts@.take(self.hosts@.len() as int) =~= self.hosts@);
        }
        count
    }

    /// Milliseconds since the last accepted packet, zero if the
    /// caller's clock ran backwards.
    pub fn get_last_packet_age(&self, now_ms: u64) -> (r: u64)
        ensures
            r == spec_age(now_ms, self.last_packet),
    {
        if now_ms >= self.last_packet {
            now_ms - self.last_packet
        } else {
            0
        }
    }

    /// The local IPv4 address of every monitored interface.
    pub fn get_local_ips(&self) -> (r: Vec<IpAddress>)
        ensures
            r@.len() == self.interfaces@.len(),
            forall|i: int| 0 <= i < r@.len() ==> r@[i] == self.interfaces@[i].1,
    {
        let mut r: Vec<IpAddress> = Vec::new();
        let mut i: usize = 0;
        while i < self.interfaces.len()
            invariant
                i <= self.interfaces@.len(),
                r@.len() == i,
                forall|j: int| 0 <= j < i ==> r@[j] == self.interfaces@[j].1,
            decreases self.interfaces@.len() - i,
        {
            r.push(self.interfaces[i].1);
            i = i + 1;
        }
        r
    }

    /// Rebounds every host's packet history.
    pub fn set_max_packet_history(&mut self, max_history: usize)
        requires
            old(self).wf(),
        ensures
            final(self).wf(),
            final(self).hosts@.len() == old(self).hosts@.len(),
            forall|i: int|
                0 <= i < old(self).hosts@.len() ==> final(self).hosts@[i]
                    == (PtpHost {
                    packet_history: final(self).hosts@[i].packet_history,
                    ..old(self).hosts@[i]
                }) && final(self).hosts@[i].packet_history.max_size == max_history,
            final(self).last_packet == old(self).last_packet,
            final(self).recent_sync_senders == old(self).recent_sync_senders,
            final(self).interfaces == old(self).interfaces,
    {
        let n = self.hosts.len();
        let mut i: usize = 0;
        while i < n
            invariant
                old(self).wf(),
                n == self.hosts@.len(),
                n == old(self).hosts@.len(),
                i <= n,
                self.last_packet == old(self).last_packet,
                self.recent_sync_senders == old(self).recent_sync_senders,
                self.interfaces == old(self).interfaces,
                forall|j: int|
                    0 <= j < i ==> self.hosts@[j] == (PtpHost {
                        packet_history: self.hosts@[j].packet_history,
                        ..old(self).hosts@[j]
                    }) && self.hosts@[j].packet_history.max_size == max_history && self.hosts@[
                        j
                    ].wf(),
                forall|j: int| i <= j < n ==> self.hosts@[j] == old(self).hosts@[j],
            decreases n - i,
        {
            let ghost before = self.hosts@;
            let mut h = self.hosts.remove(i);
            h.set_max_packet_history(max_history);
            self.hosts.insert(i, h);
            proof {
                assert(self.hosts@ =~= before.update(i as int, self.hosts@[i as int]));
            }
            i = i + 1;
        }
        proof {
            assert(forall|i: int, j: int|
                0 <= i < j < n ==> self.hosts@[i].clock_identity.clock_id@ == old(
                    self,
                ).hosts@[i].clock_identity.clock_id@ && self.hosts@[j].clock_identity.clock_id@
                    == old(self).hosts@[j].clock_identity.clock_id@);
        }
    }

    /// The recorded history of the host carrying `clock_identity`, if
    /// that host exists.
    pub fn get_host_packet_history(&self, clock_identity: &ClockIdentity) -> (r: Option<
        Vec<ProcessedPacket>,
    >)
        ensures
            r is Some <==> spec_contains_host(self.hosts@, clock_identity.clock_id@),
            r matches Some(v) ==> exists|k: int|
                0 <= k < self.hosts@.len() && (#[trigger] self.hosts@[k]).clock_identity.clock_id@
                    == clock_identity.clock_id@ && v@.len() == self.hosts@[k].packet_history@.len()
                    && (forall|i: int|
                    0 <= i < v@.len() ==> crate::host::packet_like(
                        v@[i],
                        self.hosts@[k].packet_history@[i],
                    )),
    {
        match self.find_host(clock_identity) {
            Some(i) => Some(self.hosts[i].get_packet_history()),
            None => None,
        }
    }

    /// Clears the history of the host carrying `clock_identity`, if it
    /// exists; every other host is untouched.
    pub fn clear_host_packet_history(&mut self, clock_identity: &ClockIdentity)
        requires
            old(self).wf(),
        ensures
            final(self).wf(),
            final(self).hosts@.len() == old(self).hosts@.len(),
            forall|i: int|
                0 <= i < old(self).hosts@.len()
                    && old(self).hosts@[i].clock_identity.clock_id@ != clock_identity.clock_id@
                    ==> final(self).hosts@[i] == old(self).hosts@[i],
            forall|i: int|
                0 <= i < old(self).hosts@.len()
                    && old(self).hosts@[i].clock_identity.clock_id@ == clock_identity.clock_id@
                    ==> final(self).hosts@[i] == (PtpHost {
                    packet_history: final(self).hosts@[i].packet_history,
                    ..old(self).hosts@[i]
                }) && final(self).hosts@[i].packet_history@.len() == 0,
            final(self).last_packet == old(self).last_packet,
            final(self).recent_sync_senders == old(self).recent_sync_senders,
            final(self).interfaces == old(self).interfaces,
    {
        match self.find_host(clock_identity) {
            Some(i) => {
                let mut h = self.hosts.remove(i);
                h.clear_packet_history();
                self.hosts.insert(i, h);
                proof {
                    assert(forall|j: int|
                        0 <= j < old(self).hosts@.len() && j != i ==> final(self).hosts@[j]
                            == old(self).hosts@[j]);
                }
            },
            None => {},
        }
    }

    /// Clears every host's history.
    pub fn clear_all_packet_histories(&mut self)
        requires
            old(self).wf(),
        ensures
            final(self).wf(),
            final(self).hosts@.len() == old(self).hosts@.len(),
            forall|i: int|
                0 <= i < old(self).hosts@.len() ==> final(self).hosts@[i] == (PtpHost {
                    packet_history: final(self).hosts@[i].packet_history,
                    ..old(self).hosts@[i]
                }) && final(self).hosts@[i].packet_history@.len() == 0,
            final(self).last_packet == old(self).last_packet,
            final(self).recent_sync_senders == old(self).recent_sync_senders,
            final(self).interfaces == old(self).interfaces,
    {
        let n = self.hosts.len();
        let mut i: usize = 0;
        while i < n
            invariant
                old(self).wf(),
                n == self.hosts@.len(),
                n == old(self).hosts@.len(),
                i <= n,
                self.last_packet == old(self).last_packet,
                self.recent_sync_senders == old(self).recent_sync_senders,
                self.interfaces == old(self).interfaces,
                forall|j: int|
                    0 <= j < i ==> self.hosts@[j] == (PtpHost {
                        packet_history: self.hosts@[j].packet_history,
                        ..old(self).hosts@[j]
                    }) && self.hosts@[j].packet_history@.len() == 0 && self.hosts@[j].wf(),
                forall|j: int| i <= j < n ==> self.hosts@[j] == old(self).hosts@[j],
            decreases n - i,
        {
            let ghost before = self.hosts@;
            let mut h = self.hosts.remove(i);
            h.clear_packet_history();
            self.hosts.insert(i, h);
            proof {
                assert(self.hosts@ =~= before.update(i as int, self.hosts@[i as int]));
            }
            i = i + 1;
        }
        proof {
            assert(forall|i: int, j: int|
                0 <= i < j < n ==> self.hosts@[i].clock_identity.clock_id@ == old(
                    self,
                ).hosts@[i].clock_identity.clock_id@ && self.hosts@[j].clock_identity.clock_id@
                    == old(self).hosts@[j].clock_identity.clock_id@);
        }
    }
}

/// Every counter of `post` equals the matching counter of `pre`, the
/// counter of message type `t` and the aggregate sent (or received)
/// counter incremented by one, saturating.
pub open spec fn spec_counter_bumped(
    pre: PtpHost,
    post: PtpHost,
    t: PtpMessageType,
    sent: bool,
) -> bool {
    &&& post.announce_count == if t == PtpMessageType::Announce {
        spec_inc(pre.announce_count)
    } else {
        pre.announce_count
    }
    &&& post.sync_count == if t == PtpMessageType::Sync {
        spec_inc(pre.sync_count)
    } else {
        pre.sync_count
    }
    &&& post.follow_up_count == if t == PtpMessageType::FollowUp {
        spec_inc(pre.follow_up_count)
    } else {
        pre.follow_up_count
    }
    &&& post.delay_req_count == if t == PtpMessageType::DelayReq {
        spec_inc(pre.delay_req_count)
    } else {
        pre.delay_req_count
    }
    &&& post.delay_resp_count == if t == PtpMessageType::DelayResp {
        spec_inc(pre.delay_resp_count)
    } else {
        pre.delay_resp_count
    }
    &&& post.pdelay_req_count == if t == PtpMessageType::PDelayReq {
        spec_inc(pre.pdelay_req_count)
    } else {
        pre.pdelay_req_count
    }
    &&& post.pdelay_resp_count == if t == PtpMessageType::PDelayResp {
        spec_inc(pre.pdelay_resp_count)
    } else {
        pre.pdelay_resp_count
    }
    &&& post.pdelay_resp_follow_up_count == if t == PtpMessageType::PDelayRespFollowUp {
        spec_inc(pre.pdelay_resp_follow_up_count)
    } else {
        pre.pdelay_resp_follow_up_count
    }
    &&& post.signaling_message_count == if t == PtpMessageType::Signaling {
        spec_inc(pre.signaling_message_count)
    } else {
        pre.signaling_message_count
    }
    &&& post.management_message_count == if t == PtpMessageType::Management {
        spec_inc(pre.management_message_count)
    } else {
        pre.management_message_count
    }
    &&& post.total_messages_sent_count == if sent {
        spec_inc(pre.total_messages_sent_count)
    } else {
        pre.total_messages_sent_count
    }
    &&& post.total_messages_received_count == if !sent {
        spec_inc(pre.total_messages_received_count)
    } else {
        pre.total_messages_received_count
    }
}

/// The role state of a message's sender after dispatch: Announce, Sync
/// and FollowUp imply the transmitter role; DelayReq implies the
/// receiver role with the sync-correlation heuristic consulted on
/// `cache`; every other type leaves the sender's role untouched.
pub open spec fn spec_sender_state_after(
    pre: PtpHostState,
    msg: PtpMessage,
    cache: Seq<SyncSenderRecord>,
    now_ms: u64,
) -> PtpHostState {
    match msg {
        PtpMessage::Announce(m) => PtpHostState::TimeTransmitter(
            pre.spec_transmitter_base().spec_with_announce(m),
        ),
        PtpMessage::Sync(m) => PtpHostState::TimeTransmitter(
            pre.spec_transmitter_base().spec_with_sync(m, now_ms),
        ),
        PtpMessage::FollowUp(m) => PtpHostState::TimeTransmitter(
            pre.spec_transmitter_base().spec_with_follow_up(m),
        ),
        PtpMessage::DelayReq(m) => match spec_latest(cache, m.header.domain_number) {
            Some(k) => PtpHostState::TimeReceiver(
                pre.spec_receiver_base().spec_with_recent_sync_sender(
                    cache[k].identity,
                    spec_age(now_ms, cache[k].last_sync_ms),
                ),
            ),
            None => PtpHostState::TimeReceiver(
                if pre.spec_receiver_base().selected_transmitter_identity is Some {
                    pre.spec_receiver_base()
                } else {
                    PtpHostStateTimeReceiver {
                        selected_transmitter_identity: None,
                        selected_transmitter_confidence: CONFIDENCE_NONE,
                        ..pre.spec_receiver_base()
                    }
                },
            ),
        },
        _ => pre,
    }
}

/// The message type a decoded message's variant stands for.  (A parsed
/// message always agrees with its header's type field; dispatch goes by
/// the variant.)
pub open spec fn spec_variant_type(msg: PtpMessage) -> PtpMessageType {
    match msg {
        PtpMessage::Announce(_) => PtpMessageType::Announce,
        PtpMessage::Sync(_) => PtpMessageType::Sync,
        PtpMessage::FollowUp(_) => PtpMessageType::FollowUp,
        PtpMessage::DelayReq(_) => PtpMessageType::DelayReq,
        PtpMessage::DelayResp(_) => PtpMessageType::DelayResp,
        PtpMessage::PDelayReq(_) => PtpMessageType::PDelayReq,
        PtpMessage::PDelayResp(_) => PtpMessageType::PDelayResp,
        PtpMessage::PDelayRespFollowup(_) => PtpMessageType::PDelayRespFollowUp,
        PtpMessage::Signaling(_) => PtpMessageType::Signaling,
        PtpMessage::Management(_) => PtpMessageType::Management,
    }
}

/// The host a delay-style response is addressed to, named by the
/// message's requesting port identity.
pub open spec fn spec_requester_identity(msg: PtpMessage) -> Option<ClockIdentity> {
    match msg {
        PtpMessage::DelayResp(m) => Some(m.requesting_port_identity.clock_identity),
        PtpMessage::PDelayResp(m) => Some(m.requesting_port_identity.clock_identity),
        PtpMessage::PDelayRespFollowup(m) => Some(m.requesting_port_identity.clock_identity),
        _ => None,
    }
}

/// The role state of the requester after a delay-style response:
/// DelayResp carries explicit transmitter evidence, the peer-delay
/// responses only record their timestamps.
pub open spec fn spec_requester_state_after(pre: PtpHostState, msg: PtpMessage) -> PtpHostState {
    match msg {
        PtpMessage::DelayResp(m) => PtpHostState::TimeReceiver(
            pre.spec_receiver_base().spec_with_delay_resp(m),
        ),
        PtpMessage::PDelayResp(m) => PtpHostState::TimeReceiver(
            pre.spec_receiver_base().spec_with_pdelay_resp(m),
        ),
        PtpMessage::PDelayRespFollowup(m) => PtpHostState::TimeReceiver(
            pre.spec_receiver_base().spec_with_pdelay_resp_follow_up(m),
        ),
        _ => pre,
    }
}

/// `p` records exactly this observation.
pub open spec fn spec_packet_matches(
    p: ProcessedPacket,
    msg: PtpMessage,
    now_ms: u64,
    vlan_id: Option<u16>,
    source_ip: IpAddress,
    source_port: u16,
    interface: Seq<char>,
    raw: Seq<u8>,
) -> bool {
    &&& p.ptp_message == msg
    &&& p.timestamp == now_ms
    &&& p.vlan_id == vlan_id
    &&& p.source_ip == source_ip
    &&& p.source_port == source_port
    &&& p.interface@ == interface
    &&& p.raw_packet_data@ == raw
}

/// A bounded history after appending `p`: the oldest entry leaves if
/// the bound would be exceeded.
pub open spec fn spec_hist_after(
    pre: Seq<ProcessedPacket>,
    p: ProcessedPacket,
    max: int,
) -> Seq<ProcessedPacket> {
    if pre.len() + 1 > max {
        pre.push(p).drop_first()
    } else {
        pre.push(p)
    }
}

/// The message's sender, updated in `post` from its previous record
/// (`Listening` with empty counters where the sender was never seen):
/// counters bumped, header folded in, IP sighting recorded, the packet
/// appended to the history, and the role state advanced.
pub open spec fn spec_sender_updated(
    pre_hosts: Seq<PtpHost>,
    post: PtpHost,
    msg: PtpMessage,
    cache: Seq<SyncSenderRecord>,
    now_ms: u64,
    vlan_id: Option<u16>,
    source_ip: IpAddress,
    source_port: u16,
    interface: Seq<char>,
    raw: Seq<u8>,
) -> bool {
    let h = msg.spec_header();
    let id = h.source_port_identity.clock_identity;
    let known = spec_contains_host(pre_hosts, id.clock_id@);
    let pre = if known {
        pre_hosts[spec_host_index(pre_hosts, id.clock_id@)]
    } else {
        spec_fresh_host(post, id, now_ms)
    };
    let pre_ips = if known {
        pre.ip_addresses@
    } else {
        Seq::<IpRecord>::empty()
    };
    let pre_hist = if known {
        pre.packet_history@
    } else {
        Seq::<ProcessedPacket>::empty()
    };
    let pre_max = if known {
        pre.packet_history.max_size as int
    } else {
        DEFAULT_MAX_PACKET_HISTORY as int
    };
    &&& post.clock_identity.clock_id@ == id.clock_id@
    &&& spec_counter_bumped(pre, post, spec_variant_type(msg), true)
    &&& post.state == spec_sender_state_after(pre.state, msg, cache, now_ms)
    &&& post.domain_number == Some(h.domain_number)
    &&& post.last_version == Some(h.version)
    &&& post.last_correction_field == Some(h.correction_field)
    &&& post.last_seen == now_ms
    &&& spec_ip_recorded(pre_ips, post.ip_addresses@, source_ip, interface)
    &&& post.packet_history.max_size == pre_max
    &&& exists|p: ProcessedPacket|
        #[trigger] spec_packet_matches(p, msg, now_ms, vlan_id, source_ip, source_port, interface, raw)
            && post.packet_history@ == spec_hist_after(pre_hist, p, pre_max)
}

/// The requester of a delay-style response, updated in `post` from its
/// previous record: the response is counted as received, the packet
/// recorded, and the role state advanced; the header of a message the
/// requester did not send is not folded into its record.
pub open spec fn spec_requester_updated(
    pre_hosts: Seq<PtpHost>,
    post: PtpHost,
    msg: PtpMessage,
    now_ms: u64,
    vlan_id: Option<u16>,
    source_ip: IpAddress,
    source_port: u16,
    interface: Seq<char>,
    raw: Seq<u8>,
) -> bool {
    let id = spec_requester_identity(msg)->Some_0;
    let known = spec_contains_host(pre_hosts, id.clock_id@);
    let pre = if known {
        pre_hosts[spec_host_index(pre_hosts, id.clock_id@)]
    } else {
        spec_fresh_host(post, id, now_ms)
    };
    let pre_hist = if known {
        pre.packet_history@
    } else {
        Seq::<ProcessedPacket>::empty()
    };
    let pre_max = if known {
        pre.packet_history.max_size as int
    } else {
        DEFAULT_MAX_PACKET_HISTORY as int
    };
    &&& post.clock_identity.clock_id@ == id.clock_id@
    &&& spec_counter_bumped(pre, post, spec_variant_type(msg), false)
    &&& post.state == spec_requester_state_after(pre.state, msg)
    &&& post.domain_number == pre.domain_number
    &&& post.last_version == pre.last_version
    &&& post.last_correction_field == pre.last_correction_field
    &&& post.last_seen == pre.last_seen
    &&& post.ip_addresses@ == (if known {
        pre.ip_addresses@
    } else {
        Seq::<IpRecord>::empty()
    })
    &&& post.packet_history.max_size == pre_max
    &&& exists|p: ProcessedPacket|
        #[trigger] spec_packet_matches(p, msg, now_ms, vlan_id, source_ip, source_port, interface, raw)
            && post.packet_history@ == spec_hist_after(pre_hist, p, pre_max)
}

/// Counter update of a host that both sent a delay-style response and
/// was addressed by it: the response's type counter moves twice, the
/// aggregate sent and received counters once each, all saturating.
pub open spec fn spec_counter_bumped_twice(pre: PtpHost, post: PtpHost, t: PtpMessageType) -> bool {
    &&& post.announce_count == pre.announce_count
    &&& post.sync_count == pre.sync_count
    &&& post.follow_up_count == pre.follow_up_count
    &&& post.delay_req_count == pre.delay_req_count
    &&& post.delay_resp_count == if t == PtpMessageType::DelayResp {
        spec_inc(spec_inc(pre.delay_resp_count))
    } else {
        pre.delay_resp_count
    }
    &&& post.pdelay_req_count == pre.pdelay_req_count
    &&& post.pdelay_resp_count == if t == PtpMessageType::PDelayResp {
        spec_inc(spec_inc(pre.pdelay_resp_count))
    } else {
        pre.pdelay_resp_count
    }
    &&& post.pdelay_resp_follow_up_count == if t == PtpMessageType::PDelayRespFollowUp {
        spec_inc(spec_inc(pre.pdelay_resp_follow_up_count))
    } else {
        pre.pdelay_resp_follow_up_count
    }
    &&& post.signaling_message_count == pre.signaling_message_count
    &&& post.management_message_count == pre.management_message_count
    &&& post.total_messages_sent_count == spec_inc(pre.total_messages_sent_count)
    &&& post.total_messages_received_count == spec_inc(pre.total_messages_received_count)
}

/// A host that addressed a delay-style response to itself, updated in
/// `post`: the sender and requester updates both land on the one
/// record, in that order — the response counted as sent and as
/// received, the header folded in, the IP sighting recorded, the
/// packet appended twice, and the requester role step applied (the
/// sender step leaves the role alone for response types).
pub open spec fn spec_self_response_updated(
    pre_hosts: Seq<PtpHost>,
    post: PtpHost,
    msg: PtpMessage,
    now_ms: u64,
    vlan_id: Option<u16>,
    source_ip: IpAddress,
    source_port: u16,
    interface: Seq<char>,
    raw: Seq<u8>,
) -> bool {
    let h = msg.spec_header();
    let id = h.source_port_identity.clock_identity;
    let known = spec_contains_host(pre_hosts, id.clock_id@);
    let pre = if known {
        pre_hosts[spec_host_index(pre_hosts, id.clock_id@)]
    } else {
        spec_fresh_host(post, id, now_ms)
    };
    let pre_ips = if known {
        pre.ip_addresses@
    } else {
        Seq::<IpRecord>::empty()
    };
    let pre_hist = if known {
        pre.packet_history@
    } else {
        Seq::<ProcessedPacket>::empty()
    };
    let pre_max = if known {
        pre.packet_history.max_size as int
    } else {
        DEFAULT_MAX_PACKET_HISTORY as int
    };
    &&& post.clock_identity.clock_id@ == id.clock_id@
    &&& spec_counter_bumped_twice(pre, post, spec_variant_type(msg))
    &&& post.state == spec_requester_state_after(pre.state, msg)
    &&& post.domain_number == Some(h.domain_number)
    &&& post.last_version == Some(h.version)
    &&& post.last_correction_field == Some(h.correction_field)
    &&& post.last_seen == now_ms
    &&& spec_ip_recorded(pre_ips, post.ip_addresses@, source_ip, interface)
    &&& post.packet_history.max_size == pre_max
    &&& exists|p1: ProcessedPacket, p2: ProcessedPacket|
        #[trigger] spec_packet_matches(p1, msg, now_ms, vlan_id, source_ip, source_port, interface, raw)
            && #[trigger] spec_packet_matches(
            p2,
            msg,
            now_ms,
            vlan_id,
            source_ip,
            source_port,
            interface,
            raw,
        ) && post.packet_history@ == spec_hist_after(
            spec_hist_after(pre_hist, p1, pre_max),
            p2,
            pre_max,
        )
}

/// The whole effect of dispatching one accepted message at `now_ms`:
/// the sender's record (and, for delay-style responses addressed to a
/// distinct host, the requester's record) is updated as the per-type
/// rules say, every other host is untouched, the correlation cache is
/// upserted exactly on Sync and FollowUp, and the last-packet time
/// advances.  A response a host addresses to itself lands both updates
/// on the one record, in sender-then-requester order.
pub open spec fn spec_message_handled(
    pre: PtpTracker,
    post: PtpTracker,
    msg: PtpMessage,
    source_ip: IpAddress,
    source_port: u16,
    vlan_id: Option<u16>,
    interface: Seq<char>,
    raw: Seq<u8>,
    now_ms: u64,
) -> bool {
    let sid = msg.spec_header().source_port_identity.clock_identity;
    let rq = spec_requester_identity(msg);
    &&& post.wf()
    &&& post.interfaces == pre.interfaces
    &&& post.last_packet == now_ms
    &&& post.recent_sync_senders.entries@ == (match msg {
        PtpMessage::Sync(m) => spec_upserted(
            pre.recent_sync_senders.entries@,
            m.header.domain_number,
            sid,
            now_ms,
        ),
        PtpMessage::FollowUp(m) => spec_upserted(
            pre.recent_sync_senders.entries@,
            m.header.domain_number,
            sid,
            now_ms,
        ),
        _ => pre.recent_sync_senders.entries@,
    })
    &&& pre.hosts@.len() <= post.hosts@.len() <= pre.hosts@.len() + 2
    &&& (forall|j: int|
        0 <= j < pre.hosts@.len() ==> post.hosts@[j].clock_identity.clock_id@ == pre.hosts@[
            j
        ].clock_identity.clock_id@)
    &&& (forall|j: int|
        0 <= j < pre.hosts@.len() && pre.hosts@[j].clock_identity.clock_id@ != sid.clock_id@ && (
        rq is None || rq->Some_0.clock_id@ != pre.hosts@[j].clock_identity.clock_id@)
            ==> post.hosts@[j] == pre.hosts@[j])
    &&& spec_contains_host(post.hosts@, sid.clock_id@)
    &&& ((rq is None || rq->Some_0.clock_id@ != sid.clock_id@) ==> spec_sender_updated(
        pre.hosts@,
        post.hosts@[spec_host_index(post.hosts@, sid.clock_id@)],
        msg,
        pre.recent_sync_senders.entries@,
        now_ms,
        vlan_id,
        source_ip,
        source_port,
        interface,
        raw,
    ))
    &&& (rq matches Some(rid) ==> rid.clock_id@ == sid.clock_id@ || {
        &&& spec_contains_host(post.hosts@, rid.clock_id@)
        &&& spec_requester_updated(
            pre.hosts@,
            post.hosts@[spec_host_index(post.hosts@, rid.clock_id@)],
            msg,
            now_ms,
            vlan_id,
            source_ip,
            source_port,
            interface,
            raw,
        )
    })
    &&& (rq matches Some(rid) ==> rid.clock_id@ != sid.clock_id@ || {
        &&& post.hosts@.len() <= pre.hosts@.len() + 1
        &&& spec_self_response_updated(
            pre.hosts@,
            post.hosts@[spec_host_index(post.hosts@, sid.clock_id@)],
            msg,
            now_ms,
            vlan_id,
            source_ip,
            source_port,
            interface,
            raw,
        )
    })
}

/// How many packets of an `n`-packet batch one scan tick drains: the
/// whole batch, capped at `MAX_PACKETS_PER_SCAN`.
pub open spec fn spec_drain_count(n: int) -> int {
    if n > MAX_PACKETS_PER_SCAN {
        MAX_PACKETS_PER_SCAN as int
    } else {
        n
    }
}

/// Some packet among the first `k` decodes successfully.
pub open spec fn spec_some_accepted(packets: Seq<RawPacketRecord>, k: int) -> bool {
    exists|i: int|
        0 <= i < k && spec_decode_err((#[trigger] packets[i]).ptp_payload@) is None
}

/// The effect of offering one captured datagram to the engine: an
/// unrecognizable buffer changes nothing at all, a decodable one is
/// dispatched as `spec_message_handled` says for the message it
/// encodes.
pub open spec fn spec_packet_processed(
    pre: PtpTracker,
    post: PtpTracker,
    raw: RawPacketRecord,
    now_ms: u64,
) -> bool {
    if spec_decode_err(raw.ptp_payload@) is Some {
        post == pre
    } else {
        exists|m: PtpMessage|
            #[trigger] message_matches(m, raw.ptp_payload@) && spec_message_handled(
                pre,
                post,
                m,
                raw.source_ip,
                raw.source_port,
                raw.vlan_id,
                raw.interface_name@,
                raw.data@,
                now_ms,
            )
    }
}

/// `post` results from `pre` by processing every packet of the batch
/// in order, each step as `spec_packet_processed` says.
pub open spec fn spec_batch_processed(
    pre: PtpTracker,
    post: PtpTracker,
    packets: Seq<RawPacketRecord>,
    now_ms: u64,
) -> bool
    decreases packets.len(),
{
    if packets.len() == 0 {
        post == pre
    } else {
        exists|mid: PtpTracker|
            #[trigger] spec_packet_processed(pre, mid, packets[0], now_ms)
                && spec_batch_processed(mid, post, packets.drop_first(), now_ms)
    }
}

/// Extending a processed batch by one more processed packet.
proof fn lemma_batch_processed_snoc(
    pre: PtpTracker,
    mid: PtpTracker,
    post: PtpTracker,
    packets: Seq<RawPacketRecord>,
    p: RawPacketRecord,
    now_ms: u64,
)
    requires
        spec_batch_processed(pre, mid, packets, now_ms),
        spec_packet_processed(mid, post, p, now_ms),
    ensures
        spec_batch_processed(pre, post, packets.push(p), now_ms),
    decreases packets.len(),
{
    if packets.len() == 0 {
        assert(mid == pre);
        assert(packets.push(p)[0] == p);
        assert(packets.push(p).drop_first() =~= Seq::<RawPacketRecord>::empty());
        assert(spec_packet_processed(pre, post, packets.push(p)[0], now_ms));
        assert(spec_batch_processed(post, post, packets.push(p).drop_first(), now_ms));
    } else {
        let m1 = choose|m: PtpTracker|
            #[trigger] spec_packet_processed(pre, m, packets[0], now_ms)
                && spec_batch_processed(m, mid, packets.drop_first(), now_ms);
        lemma_batch_processed_snoc(m1, mid, post, packets.drop_first(), p, now_ms);
        assert(packets.drop_first().push(p) =~= packets.push(p).drop_first());
        assert(packets.push(p)[0] == packets[0]);
        assert(spec_packet_processed(pre, m1, packets.push(p)[0], now_ms));
        assert(spec_batch_processed(m1, post, packets.push(p).drop_first(), now_ms));
    }
}

/// Everything but the correlation cache stands; the cache holds
/// exactly the retention filter of what it held.
pub open spec fn spec_cache_cleaned(pre: PtpTracker, post: PtpTracker, now_ms: u64) -> bool {
    &&& post.hosts == pre.hosts
    &&& post.last_packet == pre.last_packet
    &&& post.interfaces == pre.interfaces
    &&& post.recent_sync_senders.entries@ == pre.recent_sync_senders.entries@.filter(
        |e: SyncSenderRecord| spec_retained(now_ms, e.last_sync_ms),
    )
}

/// Everything but the hosts stands; the hosts went through exactly one
/// election step.
pub open spec fn spec_election_applied(pre: PtpTracker, post: PtpTracker) -> bool {
    &&& post.last_packet == pre.last_packet
    &&& post.recent_sync_senders == pre.recent_sync_senders
    &&& post.interfaces == pre.interfaces
    &&& crate::election::spec_election_step(pre.hosts@, post.hosts@)
}

/// A delay-style response whose requesting identity is its own sender
/// lands both dispatch phases on the one record: composing the sender
/// update and the requester update gives `spec_self_response_updated`.
#[verifier::rlimit(100)]
#[verifier::spinoff_prover]
proof fn lemma_self_response_composed(
    pre: PtpTracker,
    mid: PtpTracker,
    post: PtpTracker,
    msg: PtpMessage,
    si: int,
    ri: int,
    now_ms: u64,
    vlan_id: Option<u16>,
    source_ip: IpAddress,
    source_port: u16,
    interface: Seq<char>,
    raw: Seq<u8>,
)
    requires
        pre.wf(),
        mid.wf(),
        post.wf(),
        spec_requester_identity(msg) is Some,
        spec_requester_identity(msg)->Some_0.clock_id@ == msg.spec_header(
        ).source_port_identity.clock_identity.clock_id@,
        0 <= si < mid.hosts@.len(),
        pre.hosts@.len() <= mid.hosts@.len() <= pre.hosts@.len() + 1,
        mid.hosts@.len() > pre.hosts@.len() ==> si == pre.hosts@.len(),
        forall|j: int| 0 <= j < pre.hosts@.len() && j != si ==> mid.hosts@[j] == pre.hosts@[j],
        mid.hosts@[si].clock_identity.clock_id@ == msg.spec_header(
        ).source_port_identity.clock_identity.clock_id@,
        spec_host_index(
            mid.hosts@,
            msg.spec_header().source_port_identity.clock_identity.clock_id@,
        ) == si,
        spec_sender_updated(
            pre.hosts@,
            mid.hosts@[si],
            msg,
            pre.recent_sync_senders.entries@,
            now_ms,
            vlan_id,
            source_ip,
            source_port,
            interface,
            raw,
        ),
        0 <= ri < post.hosts@.len(),
        mid.hosts@.len() <= post.hosts@.len() <= mid.hosts@.len() + 1,
        post.hosts@.len() > mid.hosts@.len() ==> ri == mid.hosts@.len(),
        forall|j: int| 0 <= j < mid.hosts@.len() && j != ri ==> post.hosts@[j] == mid.hosts@[j],
        post.hosts@[ri].clock_identity.clock_id@ == spec_requester_identity(msg)->Some_0.clock_id@,
        spec_host_index(post.hosts@, spec_requester_identity(msg)->Some_0.clock_id@) == ri,
        spec_requester_updated(
            mid.hosts@,
            post.hosts@[ri],
            msg,
            now_ms,
            vlan_id,
            source_ip,
            source_port,
            interface,
            raw,
        ),
    ensures
        ri == si,
        post.hosts@.len() <= pre.hosts@.len() + 1,
        spec_self_response_updated(
            pre.hosts@,
            post.hosts@[ri],
            msg,
            now_ms,
            vlan_id,
            source_ip,
            source_port,
            interface,
            raw,
        ),
{
    let sid = msg.spec_header().source_port_identity.clock_identity;
    let rid = spec_requester_identity(msg)->Some_0;
    assert(ri == si) by {
        if ri != si {
            assert(post.hosts@[si] == mid.hosts@[si]);
            assert(post.hosts@[si].clock_identity.clock_id@ == sid.clock_id@);
            assert(post.hosts@[ri].clock_identity.clock_id@ == sid.clock_id@);
            if si < ri {
                assert(post.hosts@[si].clock_identity.clock_id@
                    != post.hosts@[ri].clock_identity.clock_id@);
            } else {
                assert(post.hosts@[ri].clock_identity.clock_id@
                    != post.hosts@[si].clock_identity.clock_id@);
            }
        }
    }
    assert(post.hosts@.len() == mid.hosts@.len());
    let h1 = mid.hosts@[si];
    let h2 = post.hosts@[ri];
    // The requester phase found the sender's record: its "previous
    // record" is the sender phase's result.
    assert(spec_contains_host(mid.hosts@, rid.clock_id@));
    assert(spec_host_index(mid.hosts@, rid.clock_id@) == si);
    let known = spec_contains_host(pre.hosts@, sid.clock_id@);
    let pre_s = if known {
        pre.hosts@[spec_host_index(pre.hosts@, sid.clock_id@)]
    } else {
        spec_fresh_host(h1, sid, now_ms)
    };
    let pre_self = if known {
        pre.hosts@[spec_host_index(pre.hosts@, sid.clock_id@)]
    } else {
        spec_fresh_host(h2, sid, now_ms)
    };
    let pre_hist = if known {
        pre_s.packet_history@
    } else {
        Seq::<ProcessedPacket>::empty()
    };
    let pre_max = if known {
        pre_s.packet_history.max_size as int
    } else {
        DEFAULT_MAX_PACKET_HISTORY as int
    };
    // The two possible fresh records agree on every field the update
    // predicates read.
    assert(pre_self.state == pre_s.state);
    assert(pre_self.announce_count == pre_s.announce_count);
    assert(pre_self.delay_resp_count == pre_s.delay_resp_count);
    assert(pre_self.pdelay_resp_count == pre_s.pdelay_resp_count);
    assert(pre_self.pdelay_resp_follow_up_count == pre_s.pdelay_resp_follow_up_count);
    assert(pre_self.total_messages_sent_count == pre_s.total_messages_sent_count);
    assert(pre_self.total_messages_received_count == pre_s.total_messages_received_count);
    // Counters compose: sent bump then received bump.
    assert(spec_counter_bumped_twice(pre_self, h2, spec_variant_type(msg)));
    // The sender phase leaves the role alone for response types, so the
    // requester step applies to the original role.
    assert(h1.state == pre_s.state);
    assert(h2.state == spec_requester_state_after(pre_self.state, msg));
    // The two history appends compose.
    let p1 = choose|p: ProcessedPacket|
        #[trigger] spec_packet_matches(p, msg, now_ms, vlan_id, source_ip, source_port, interface, raw)
            && h1.packet_history@ == spec_hist_after(pre_hist, p, pre_max);
    let p2 = choose|p: ProcessedPacket|
        #[trigger] spec_packet_matches(p, msg, now_ms, vlan_id, source_ip, source_port, interface, raw)
            && h2.packet_history@ == spec_hist_after(h1.packet_history@, p, h1.packet_history.max_size as int);
    assert(spec_packet_matches(p1, msg, now_ms, vlan_id, source_ip, source_port, interface, raw)
        && spec_packet_matches(p2, msg, now_ms, vlan_id, source_ip, source_port, interface, raw)
        && h2.packet_history@ == spec_hist_after(
        spec_hist_after(pre_hist, p1, pre_max),
        p2,
        pre_max,
    ));
    assert(spec_self_response_updated(
        pre.hosts@,
        h2,
        msg,
        now_ms,
        vlan_id,
        source_ip,
        source_port,
        interface,
        raw,
    ));
}

/// After the sender phase of a dispatch, a distinct requester identity
/// is contained in the intermediate registry exactly where it was
/// contained before, at the same index, with an untouched record.
proof fn lemma_requester_pre(
    pre_hosts: Seq<PtpHost>,
    mid_hosts: Seq<PtpHost>,
    sid: ClockIdentity,
    si: int,
    rid: ClockIdentity,
)
    requires
        spec_hosts_unique(pre_hosts),
        spec_hosts_unique(mid_hosts),
        pre_hosts.len() <= mid_hosts.len() <= pre_hosts.len() + 1,
        0 <= si < mid_hosts.len(),
        mid_hosts[si].clock_identity.clock_id@ == sid.clock_id@,
        mid_hosts.len() > pre_hosts.len() ==> si == pre_hosts.len(),
        forall|j: int| 0 <= j < pre_hosts.len() && j != si ==> mid_hosts[j] == pre_hosts[j],
        forall|j: int|
            0 <= j < pre_hosts.len() ==> mid_hosts[j].clock_identity.clock_id@ == pre_hosts[
                j
            ].clock_identity.clock_id@,
        rid.clock_id@ != sid.clock_id@,
    ensures
        spec_contains_host(pre_hosts, rid.clock_id@) <==> spec_contains_host(
            mid_hosts,
            rid.clock_id@,
        ),
        spec_contains_host(pre_hosts, rid.clock_id@) ==> ({
            let k = spec_host_index(pre_hosts, rid.clock_id@);
            &&& spec_host_index(mid_hosts, rid.clock_id@) == k
            &&& mid_hosts[k] == pre_hosts[k]
        }),
{
    if spec_contains_host(pre_hosts, rid.clock_id@) {
        let k = spec_host_index(pre_hosts, rid.clock_id@);
        assert(0 <= k < pre_hosts.len() && pre_hosts[k].clock_identity.clock_id@
            == rid.clock_id@);
        assert(k != si);
        assert(mid_hosts[k] == pre_hosts[k]);
        assert(spec_contains_host(mid_hosts, rid.clock_id@));
        let km = spec_host_index(mid_hosts, rid.clock_id@);
        if km != k {
            assert(mid_hosts[km].clock_identity.clock_id@
                != mid_hosts[k].clock_identity.clock_id@);
        }
    } else {
        if spec_contains_host(mid_hosts, rid.clock_id@) {
            let km = spec_host_index(mid_hosts, rid.clock_id@);
            assert(0 <= km < mid_hosts.len() && mid_hosts[km].clock_identity.clock_id@
                == rid.clock_id@);
            assert(km != si);
            assert(km < pre_hosts.len());
            assert(pre_hosts[km].clock_identity.clock_id@ == rid.clock_id@);
            assert(spec_contains_host(pre_hosts, rid.clock_id@));
        }
    }
}

/// `h` is a freshly created record for `id` at `now_ms`: `Listening`
/// state, zeroed counters, empty IP list and history.  (Stated as a
/// predicate because an empty container value cannot be written down in
/// a specification.)
pub open spec fn spec_fresh_host(h: PtpHost, id: ClockIdentity, now_ms: u64) -> PtpHost {
    PtpHost {
        clock_identity: id,
        domain_number: None,
        last_version: None,
        last_seen: now_ms,
        announce_count: 0,
        sync_count: 0,
        follow_up_count: 0,
        delay_req_count: 0,
        delay_resp_count: 0,
        pdelay_req_count: 0,
        pdelay_resp_count: 0,
        pdelay_resp_follow_up_count: 0,
        total_messages_sent_count: 0,
        total_messages_received_count: 0,
        signaling_message_count: 0,
        management_message_count: 0,
        state: PtpHostState::Listening,
        last_correction_field: None,
        ..h
    }
}

} // verus!
