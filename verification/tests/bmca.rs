use ptp_trace::codec::{PtpClockAccuracy, PtpClockClass};
use ptp_trace::host_state::PtpHostStateTimeTransmitter;
use ptp_trace::identity::ClockIdentity;

fn create_test_transmitter_state() -> PtpHostStateTimeTransmitter {
    PtpHostStateTimeTransmitter {
        priority1: Some(128),
        priority2: Some(128),
        clock_class: Some(PtpClockClass::new(6)),
        clock_accuracy: Some(PtpClockAccuracy::new(0x20)),
        offset_scaled_log_variance: Some(0x4E5D),
        steps_removed: Some(0),
        time_source: Some(0x20),
        ..Default::default()
    }
}

fn create_test_clock_identity(id: u64) -> ClockIdentity {
    ClockIdentity {
        clock_id: [
            (id >> 56) as u8,
            (id >> 48) as u8,
            (id >> 40) as u8,
            (id >> 32) as u8,
            (id >> 24) as u8,
            (id >> 16) as u8,
            (id >> 8) as u8,
            id as u8,
        ],
    }
}

#[test]
fn test_bmca_priority1_comparison() {
    let mut state1 = create_test_transmitter_state();
    let mut state2 = create_test_transmitter_state();

    state1.priority1 = Some(64);
    state2.priority1 = Some(128);

    let clock1 = create_test_clock_identity(1);
    let clock2 = create_test_clock_identity(2);

    // Lower priority1 should win
    assert_eq!(
        state1.compare_for_bmca(&state2, clock1, clock2),
        std::cmp::Ordering::Less
    );
    assert_eq!(
        state2.compare_for_bmca(&state1, clock2, clock1),
        std::cmp::Ordering::Greater
    );
}

#[test]
fn test_bmca_clock_class_comparison() {
    let mut state1 = create_test_transmitter_state();
    let mut state2 = create_test_transmitter_state();

    // Same priority1, different clock class
    state1.priority1 = Some(128);
    state2.priority1 = Some(128);
    state1.clock_class = Some(PtpClockClass::new(6)); // Better (lower)
    state2.clock_class = Some(PtpClockClass::new(7)); // Worse (higher)

    let clock1 = create_test_clock_identity(1);
    let clock2 = create_test_clock_identity(2);

    // Lower clock class should win
    assert_eq!(
        state1.compare_for_bmca(&state2, clock1, clock2),
        std::cmp::Ordering::Less
    );
}

#[test]
fn test_bmca_clock_identity_tiebreaker() {
    let state1 = create_test_transmitter_state();
    let state2 = create_test_transmitter_state();

    // Identical parameters, should use clock identity as tiebreaker
    let clock1 = create_test_clock_identity(0x0000000000000001);
    let clock2 = create_test_clock_identity(0x0000000000000002);

    // Lower clock identity should win
    assert_eq!(
        state1.compare_for_bmca(&state2, clock1, clock2),
        std::cmp::Ordering::Less
    );
    assert_eq!(
        state2.compare_for_bmca(&state1, clock2, clock1),
        std::cmp::Ordering::Greater
    );
}

#[test]
fn test_bmca_missing_data_handling() {
    let mut state1 = create_test_transmitter_state();
    let mut state2 = create_test_transmitter_state();

    // State1 has priority1, state2 doesn't
    state1.priority1 = Some(128);
    state2.priority1 = None;

    let clock1 = create_test_clock_identity(1);
    let clock2 = create_test_clock_identity(2);

    // Having data should be better than not having data
    assert_eq!(
        state1.compare_for_bmca(&state2, clock1, clock2),
        std::cmp::Ordering::Less
    );
    assert_eq!(
        state2.compare_for_bmca(&state1, clock2, clock1),
        std::cmp::Ordering::Greater
    );
}

#[test]
fn test_bmca_winner_flag() {
    let mut state = create_test_transmitter_state();
    assert!(!state.is_bmca_winner);

    state.is_bmca_winner = true;
    assert!(state.is_bmca_winner);
}
