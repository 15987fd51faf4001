use ptp_trace::codec::{
    AnnounceMessage, DelayReqMessage, DelayRespMessage, PtpClockAccuracy, PtpClockClass,
    PtpCorrectionField, PtpHeader, PtpMessage, PtpMessageType, PtpTimestamp, PtpUtcOffset,
    PtpVersion, SyncMessage,
};
use ptp_trace::host_state::PtpHostState;
use ptp_trace::identity::{ClockIdentity, PortIdentity};
use ptp_trace::net::IpAddress;
use ptp_trace::tracker::{PtpTracker, RawPacketRecord};

fn identity(last: u8) -> ClockIdentity {
    ClockIdentity::new([0, 0, 0, 0, 0, 0, 0, last])
}

fn header(t: PtpMessageType, domain: u8, sender: ClockIdentity) -> PtpHeader {
    PtpHeader {
        message_type: t,
        version: PtpVersion { major: 2, minor: 1 },
        message_length: 64,
        domain_number: domain,
        flags: 0,
        correction_field: PtpCorrectionField { value: 0 },
        source_port_identity: PortIdentity { clock_identity: sender, port_number: 1 },
        sequence_id: 7,
        control_field: 0,
        log_message_interval: 0,
    }
}

fn zero_ts() -> PtpTimestamp {
    PtpTimestamp { seconds: 0, nanoseconds: 0 }
}

fn announce(domain: u8, sender: ClockIdentity, priority1: u8) -> PtpMessage {
    PtpMessage::Announce(AnnounceMessage {
        header: header(PtpMessageType::Announce, domain, sender),
        origin_timestamp: zero_ts(),
        current_utc_offset: PtpUtcOffset { offset: 37 },
        priority1,
        priority2: 128,
        clock_class: PtpClockClass::new(6),
        clock_accuracy: PtpClockAccuracy::new(0x20),
        offset_scaled_log_variance: 0x4e5d,
        steps_removed: 0,
        time_source: 0x20,
        ptt_identity: sender,
    })
}

fn sync(domain: u8, sender: ClockIdentity) -> PtpMessage {
    PtpMessage::Sync(SyncMessage {
        header: header(PtpMessageType::Sync, domain, sender),
        origin_timestamp: zero_ts(),
    })
}

fn delay_req(domain: u8, sender: ClockIdentity) -> PtpMessage {
    PtpMessage::DelayReq(DelayReqMessage {
        header: header(PtpMessageType::DelayReq, domain, sender),
        origin_timestamp: zero_ts(),
    })
}

fn delay_resp(domain: u8, sender: ClockIdentity, requester: ClockIdentity) -> PtpMessage {
    PtpMessage::DelayResp(DelayRespMessage {
        header: header(PtpMessageType::DelayResp, domain, sender),
        receive_timestamp: zero_ts(),
        requesting_port_identity: PortIdentity { clock_identity: requester, port_number: 2 },
    })
}

fn feed(tracker: &mut PtpTracker, msg: PtpMessage, now_ms: u64) {
    tracker.handle_message(
        msg,
        IpAddress::v4(10, 0, 0, 1),
        319,
        None,
        "eth0".to_string(),
        vec![],
        now_ms,
    );
}

fn host_by<'a>(tracker: &'a PtpTracker, id: &ClockIdentity) -> &'a ptp_trace::host::PtpHost {
    tracker.get_host_by_clock_identity(id).expect("host should exist")
}

#[test]
fn test_sender_host_created_and_counted() {
    let mut tracker = PtpTracker::new(vec![], 0);
    let s = identity(1);
    feed(&mut tracker, announce(0, s, 128), 10);
    feed(&mut tracker, sync(0, s), 20);
    feed(&mut tracker, sync(0, s), 30);

    let host = host_by(&tracker, &s);
    assert_eq!(host.announce_count, 1);
    assert_eq!(host.sync_count, 2);
    assert_eq!(host.total_messages_sent_count, 3);
    assert_eq!(host.domain_number, Some(0));
    assert_eq!(host.last_seen, 30);
    assert!(host.is_transmitter());
    assert_eq!(tracker.get_hosts().len(), 1);
    assert_eq!(tracker.get_last_packet_age(45), 15);
}

#[test]
fn test_announce_fills_transmitter_state() {
    let mut tracker = PtpTracker::new(vec![], 0);
    let s = identity(9);
    feed(&mut tracker, announce(7, s, 64), 5);

    let host = host_by(&tracker, &s);
    match &host.state {
        PtpHostState::TimeTransmitter(t) => {
            assert_eq!(t.priority1, Some(64));
            assert_eq!(t.priority2, Some(128));
            assert_eq!(t.clock_class, Some(PtpClockClass::new(6)));
            assert_eq!(t.clock_accuracy, Some(PtpClockAccuracy::new(0x20)));
            assert_eq!(t.offset_scaled_log_variance, Some(0x4e5d));
            assert_eq!(t.steps_removed, Some(0));
            assert_eq!(t.time_source, Some(0x20));
            assert_eq!(t.ptt_identifier, Some(s));
            assert!(!t.is_bmca_winner);
        }
        other => panic!("expected transmitter state, got {:?}", other),
    }
}

#[test]
fn test_delay_resp_updates_requester() {
    let mut tracker = PtpTracker::new(vec![], 0);
    let transmitter = identity(1);
    let receiver = identity(2);
    feed(&mut tracker, delay_resp(0, transmitter, receiver), 50);

    // Both hosts exist: the sender counted as sending, the requester as
    // receiving, with explicit transmitter evidence.
    let sender_host = host_by(&tracker, &transmitter);
    assert_eq!(sender_host.delay_resp_count, 1);
    assert_eq!(sender_host.total_messages_sent_count, 1);

    let receiver_host = host_by(&tracker, &receiver);
    assert_eq!(receiver_host.delay_resp_count, 1);
    assert_eq!(receiver_host.total_messages_received_count, 1);
    match &receiver_host.state {
        PtpHostState::TimeReceiver(r) => {
            assert_eq!(r.selected_transmitter_identity, Some(transmitter));
            assert_eq!(r.selected_transmitter_confidence, 100);
        }
        other => panic!("expected receiver state, got {:?}", other),
    }
}

#[test]
fn test_delay_req_selects_recent_sync_sender() {
    // A Sync observed 2 seconds before the DelayReq gives a full-
    // confidence guess.
    let mut tracker = PtpTracker::new(vec![], 0);
    let s = identity(1);
    let r = identity(2);
    feed(&mut tracker, sync(5, s), 1000);
    feed(&mut tracker, delay_req(5, r), 3000);

    match &host_by(&tracker, &r).state {
        PtpHostState::TimeReceiver(state) => {
            assert_eq!(state.selected_transmitter_identity, Some(s));
            assert_eq!(state.selected_transmitter_confidence, 100);
        }
        other => panic!("expected receiver state, got {:?}", other),
    }
}

#[test]
fn test_delay_req_stale_sync_sender_half_confidence() {
    // The only Sync is 40 seconds old: same guess, half confidence.
    let mut tracker = PtpTracker::new(vec![], 0);
    let s = identity(1);
    let r = identity(2);
    feed(&mut tracker, sync(5, s), 0);
    feed(&mut tracker, delay_req(5, r), 40_000);

    match &host_by(&tracker, &r).state {
        PtpHostState::TimeReceiver(state) => {
            assert_eq!(state.selected_transmitter_identity, Some(s));
            assert_eq!(state.selected_transmitter_confidence, 50);
        }
        other => panic!("expected receiver state, got {:?}", other),
    }
}

#[test]
fn test_delay_req_without_sync_leaves_sentinel() {
    // No Sync was ever observed in the domain: the receiver carries the
    // "no sync traffic" sentinel.
    let mut tracker = PtpTracker::new(vec![], 0);
    let r = identity(2);
    feed(&mut tracker, delay_req(5, r), 1000);

    match &host_by(&tracker, &r).state {
        PtpHostState::TimeReceiver(state) => {
            assert_eq!(state.selected_transmitter_identity, None);
            assert_eq!(state.selected_transmitter_confidence, 0);
        }
        other => panic!("expected receiver state, got {:?}", other),
    }
}

#[test]
fn test_delay_req_picks_most_recent_sender() {
    let mut tracker = PtpTracker::new(vec![], 0);
    let s1 = identity(1);
    let s2 = identity(2);
    let r = identity(3);
    feed(&mut tracker, sync(5, s1), 1000);
    feed(&mut tracker, sync(5, s2), 2000);
    feed(&mut tracker, delay_req(5, r), 3000);

    match &host_by(&tracker, &r).state {
        PtpHostState::TimeReceiver(state) => {
            assert_eq!(state.selected_transmitter_identity, Some(s2));
            assert_eq!(state.selected_transmitter_confidence, 100);
        }
        other => panic!("expected receiver state, got {:?}", other),
    }
}

#[test]
fn test_correlation_scoped_per_domain() {
    // A Sync in one domain says nothing about another domain.
    let mut tracker = PtpTracker::new(vec![], 0);
    let s = identity(1);
    let r = identity(2);
    feed(&mut tracker, sync(5, s), 1000);
    feed(&mut tracker, delay_req(6, r), 2000);

    match &host_by(&tracker, &r).state {
        PtpHostState::TimeReceiver(state) => {
            assert_eq!(state.selected_transmitter_identity, None);
            assert_eq!(state.selected_transmitter_confidence, 0);
        }
        other => panic!("expected receiver state, got {:?}", other),
    }
}

#[test]
fn test_election_priority1_decides() {
    // Two Announce-derived transmitters in one domain differing only in
    // priority1 (64 vs 128): after election the lower one wins.
    let mut tracker = PtpTracker::new(vec![], 0);
    let a = identity(1);
    let b = identity(2);
    feed(&mut tracker, announce(0, a, 64), 10);
    feed(&mut tracker, announce(0, b, 128), 20);
    tracker.run_bmca_election();

    let flag = |id: &ClockIdentity| match &host_by(&tracker, id).state {
        PtpHostState::TimeTransmitter(t) => t.is_bmca_winner,
        _ => panic!("expected transmitter"),
    };
    assert!(flag(&a));
    assert!(!flag(&b));
}

#[test]
fn test_election_identity_tiebreak_and_idempotence() {
    // Identical announce data: the byte-wise smaller identity wins, and
    // re-running the election with no new input changes nothing.
    let mut tracker = PtpTracker::new(vec![], 0);
    let a = identity(1);
    let b = identity(2);
    feed(&mut tracker, announce(0, b, 128), 10);
    feed(&mut tracker, announce(0, a, 128), 20);
    tracker.run_bmca_election();

    let flags = |tracker: &PtpTracker| {
        let f = |id: &ClockIdentity| match &host_by(tracker, id).state {
            PtpHostState::TimeTransmitter(t) => t.is_bmca_winner,
            _ => panic!("expected transmitter"),
        };
        (f(&a), f(&b))
    };
    assert_eq!(flags(&tracker), (true, false));

    tracker.run_bmca_election();
    assert_eq!(flags(&tracker), (true, false));
}

#[test]
fn test_election_updates_receivers() {
    // After the election every receiver of the domain selects the
    // winner with full confidence, overriding any heuristic guess.
    let mut tracker = PtpTracker::new(vec![], 0);
    let winner = identity(1);
    let loser = identity(2);
    let receiver = identity(3);
    feed(&mut tracker, sync(0, loser), 100);
    feed(&mut tracker, delay_req(0, receiver), 200);
    feed(&mut tracker, announce(0, winner, 64), 300);
    feed(&mut tracker, announce(0, loser, 128), 400);

    // The heuristic pointed the receiver at the Sync sender first.
    match &host_by(&tracker, &receiver).state {
        PtpHostState::TimeReceiver(state) => {
            assert_eq!(state.selected_transmitter_identity, Some(loser));
        }
        other => panic!("expected receiver state, got {:?}", other),
    }

    tracker.run_bmca_election();
    match &host_by(&tracker, &receiver).state {
        PtpHostState::TimeReceiver(state) => {
            assert_eq!(state.selected_transmitter_identity, Some(winner));
            assert_eq!(state.selected_transmitter_confidence, 100);
        }
        other => panic!("expected receiver state, got {:?}", other),
    }
}

#[test]
fn test_election_scoped_per_domain() {
    let mut tracker = PtpTracker::new(vec![], 0);
    let a = identity(1);
    let b = identity(2);
    feed(&mut tracker, announce(0, a, 128), 10);
    feed(&mut tracker, announce(1, b, 128), 20);
    tracker.run_bmca_election();

    let flag = |id: &ClockIdentity| match &host_by(&tracker, id).state {
        PtpHostState::TimeTransmitter(t) => t.is_bmca_winner,
        _ => panic!("expected transmitter"),
    };
    // Each is alone in its own domain, so each wins its own election.
    assert!(flag(&a));
    assert!(flag(&b));
}

#[test]
fn test_counts_and_clear() {
    let mut tracker = PtpTracker::new(vec![], 0);
    feed(&mut tracker, announce(0, identity(1), 128), 10);
    feed(&mut tracker, delay_req(0, identity(2)), 20);
    feed(&mut tracker, sync(0, identity(3)), 30);
    assert_eq!(tracker.get_transmitter_count(), 2);
    assert_eq!(tracker.get_receiver_count(), 1);

    tracker.clear_hosts();
    assert_eq!(tracker.get_hosts().len(), 0);
    assert_eq!(tracker.get_transmitter_count(), 0);
}

#[test]
fn test_packet_history_recording() {
    let mut tracker = PtpTracker::new(vec![], 0);
    let s = identity(1);
    feed(&mut tracker, sync(0, s), 10);
    feed(&mut tracker, sync(0, s), 20);

    let history = tracker.get_host_packet_history(&s).unwrap();
    assert_eq!(history.len(), 2);
    assert_eq!(history[0].timestamp, 10);
    assert_eq!(history[1].timestamp, 20);
    assert_eq!(history[0].interface, "eth0");
    assert_eq!(history[0].source_port, 319);

    tracker.clear_host_packet_history(&s);
    assert_eq!(tracker.get_host_packet_history(&s).unwrap().len(), 0);
}

#[test]
fn test_process_raw_packet_drops_invalid() {
    let mut tracker = PtpTracker::new(vec![], 0);
    let raw = RawPacketRecord {
        data: vec![],
        ptp_payload: vec![0u8; 20], // shorter than the common header
        source_ip: IpAddress::v4(10, 0, 0, 1),
        source_port: 319,
        vlan_id: None,
        interface_name: "eth0".to_string(),
    };
    assert!(!tracker.process_raw_packet(raw, 100));
    assert_eq!(tracker.get_hosts().len(), 0);
    // A dropped packet does not advance the last-packet time.
    assert_eq!(tracker.get_last_packet_age(100), 100);
}

#[test]
fn test_scan_network_processes_and_elects() {
    let mut tracker = PtpTracker::new(vec![], 0);

    // A well-formed Sync datagram on the wire.
    let mut payload = vec![0u8; 44];
    payload[0] = 0x0; // Sync
    payload[1] = 0x02;
    payload[27] = 0x07; // sender identity ...07
    let raw = RawPacketRecord {
        data: payload.clone(),
        ptp_payload: payload,
        source_ip: IpAddress::v4(10, 0, 0, 2),
        source_port: 319,
        vlan_id: Some(12),
        interface_name: "eth1".to_string(),
    };
    let remainder = tracker.scan_network(vec![raw], 500);
    assert!(remainder.is_empty());

    let s = ClockIdentity::new([0, 0, 0, 0, 0, 0, 0, 7]);
    let host = host_by(&tracker, &s);
    assert_eq!(host.sync_count, 1);
    assert!(host.is_transmitter());
    assert_eq!(tracker.get_last_packet_age(500), 0);
}

#[test]
fn test_local_ips() {
    let tracker = PtpTracker::new(
        vec![
            ("eth0".to_string(), IpAddress::v4(10, 0, 0, 1)),
            ("eth1".to_string(), IpAddress::v4(10, 0, 0, 2)),
        ],
        0,
    );
    let ips = tracker.get_local_ips();
    assert_eq!(ips, vec![IpAddress::v4(10, 0, 0, 1), IpAddress::v4(10, 0, 0, 2)]);
}

#[test]
fn test_get_domain_winner() {
    let mut tracker = PtpTracker::new(vec![], 0);
    assert_eq!(tracker.get_domain_winner(0), None);

    let a = identity(1);
    let b = identity(2);
    feed(&mut tracker, announce(0, a, 200), 10);
    feed(&mut tracker, announce(0, b, 100), 20);
    assert_eq!(tracker.get_domain_winner(0), Some(b));
    assert_eq!(tracker.get_domain_winner(3), None);
}

#[test]
fn test_listening_count() {
    let mut tracker = PtpTracker::new(vec![], 0);
    // A Signaling message creates a host but gives it no role.
    feed(
        &mut tracker,
        PtpMessage::Signaling(ptp_trace::codec::SignalingMessage {
            header: header(PtpMessageType::Signaling, 0, identity(4)),
        }),
        10,
    );
    feed(&mut tracker, sync(0, identity(5)), 20);
    assert_eq!(tracker.get_listening_count(), 1);
    assert_eq!(tracker.get_transmitter_count(), 1);
    assert_eq!(tracker.get_receiver_count(), 0);
}

#[test]
fn test_scan_network_drains_at_most_one_hundred() {
    let mut tracker = PtpTracker::new(vec![], 0);
    // 101 valid Sync datagrams from distinct senders: only the first
    // hundred are drained this tick.
    let mut batch = Vec::new();
    for i in 0..101u8 {
        let mut payload = vec![0u8; 44];
        payload[0] = 0x0;
        payload[1] = 0x02;
        payload[26] = 1;
        payload[27] = i;
        batch.push(RawPacketRecord {
            data: payload.clone(),
            ptp_payload: payload,
            source_ip: IpAddress::v4(10, 0, 0, 3),
            source_port: 319,
            vlan_id: None,
            interface_name: "eth0".to_string(),
        });
    }
    let remainder = tracker.scan_network(batch, 1000);
    assert_eq!(tracker.get_hosts().len(), 100);
    // The un-drained packet is handed back and can be re-queued for the
    // next tick.
    assert_eq!(remainder.len(), 1);
    let remainder = tracker.scan_network(remainder, 2000);
    assert!(remainder.is_empty());
    assert_eq!(tracker.get_hosts().len(), 101);
}

#[test]
fn test_delay_resp_addressed_to_sender_itself() {
    // A response whose requesting identity is its own sender lands both
    // updates on the one record: the type counter moves twice, the sent
    // and received totals once each, and the receiver role step applies.
    let mut tracker = PtpTracker::new(vec![], 0);
    let host_id = identity(1);
    feed(&mut tracker, delay_resp(0, host_id, host_id), 50);

    assert_eq!(tracker.get_hosts().len(), 1);
    let host = host_by(&tracker, &host_id);
    assert_eq!(host.delay_resp_count, 2);
    assert_eq!(host.total_messages_sent_count, 1);
    assert_eq!(host.total_messages_received_count, 1);
    match &host.state {
        PtpHostState::TimeReceiver(r) => {
            assert_eq!(r.selected_transmitter_identity, Some(host_id));
            assert_eq!(r.selected_transmitter_confidence, 100);
        }
        other => panic!("expected receiver state, got {:?}", other),
    }
}
