use ptp_trace::bounded_vec::BoundedVec;
use ptp_trace::host::PtpHost;
use ptp_trace::identity::ClockIdentity;
use ptp_trace::net::IpAddress;

#[test]
fn test_multiple_ip_addresses() {
    let mut host = PtpHost::new(ClockIdentity::default(), 0);

    host.add_ip_address(IpAddress::v4(10, 0, 0, 50), "eth1".to_string());

    // Initially should have one IP
    assert_eq!(host.get_ip_count(), 1);
    assert!(host.get_primary_ip().is_some());
    assert!(!host.has_multiple_ips());

    // Add a second IP with different address
    host.add_ip_address(IpAddress::v4(192, 168, 1, 100), "eth0".to_string());
    assert_eq!(host.get_ip_count(), 2);
    assert!(host.has_multiple_ips());

    // Adding the same IP again with different interface should not increase count
    host.add_ip_address(IpAddress::v4(10, 0, 0, 50), "eth1-backup".to_string());
    assert_eq!(host.get_ip_count(), 2);

    // Add a third IP
    host.add_ip_address(IpAddress::v4(172, 16, 0, 1), "eth2".to_string());
    assert_eq!(host.get_ip_count(), 3);
    assert!(host.has_multiple_ips());
}

// Seeing a host on a new IP adds a record; re-seeing a known IP on a new
// interface only extends that IP's interface set.
#[test]
fn test_ip_interface_sets() {
    let mut host = PtpHost::new(ClockIdentity::new([1, 2, 3, 4, 5, 6, 7, 8]), 0);

    host.add_ip_address(IpAddress::v4(10, 0, 0, 1), "eth0".to_string());
    host.add_ip_address(IpAddress::v4(10, 0, 0, 2), "eth1".to_string());
    assert_eq!(host.get_ip_count(), 2);

    // Re-observing the first IP via the second interface grows its set,
    // not the IP count.
    host.add_ip_address(IpAddress::v4(10, 0, 0, 1), "eth1".to_string());
    assert_eq!(host.get_ip_count(), 2);
    assert_eq!(host.ip_addresses[0].interfaces.len(), 2);
    assert_eq!(host.ip_addresses[0].interfaces[0], "eth0");
    assert_eq!(host.ip_addresses[0].interfaces[1], "eth1");

    // The same interface is never recorded twice for one IP.
    host.add_ip_address(IpAddress::v4(10, 0, 0, 1), "eth1".to_string());
    assert_eq!(host.ip_addresses[0].interfaces.len(), 2);
}

#[test]
fn test_has_local_ip() {
    let mut host = PtpHost::new(ClockIdentity::new([1, 2, 3, 4, 5, 6, 7, 8]), 0);
    host.add_ip_address(IpAddress::v4(10, 0, 0, 7), "eth0".to_string());

    let locals = vec![IpAddress::v4(192, 168, 0, 1), IpAddress::v4(10, 0, 0, 7)];
    assert!(host.has_local_ip(&locals));

    let others = vec![IpAddress::v4(192, 168, 0, 1)];
    assert!(!host.has_local_ip(&others));
}

// Pushing one element past the bound evicts exactly the single oldest
// element and keeps the relative order of the rest.
#[test]
fn test_bounded_history_eviction() {
    let mut history: BoundedVec<u32> = BoundedVec::new(3);
    history.push(1);
    history.push(2);
    history.push(3);
    assert_eq!(history.len(), 3);

    history.push(4);
    assert_eq!(history.len(), 3);
    let items = history.to_vec();
    assert_eq!(items, vec![2, 3, 4]);
}

#[test]
fn test_bounded_history_set_max_size() {
    let mut history: BoundedVec<u32> = BoundedVec::new(5);
    for v in [10, 20, 30, 40, 50] {
        history.push(v);
    }
    history.set_max_size(2);
    assert_eq!(history.to_vec(), vec![40, 50]);

    history.clear();
    assert_eq!(history.len(), 0);
}

#[test]
fn test_time_since_last_seen() {
    let host = PtpHost::new(ClockIdentity::default(), 1000);
    assert_eq!(host.time_since_last_seen(4500), 3500);
    assert_eq!(host.time_since_last_seen(500), 0);
}

#[test]
fn test_vendor_prefix() {
    let id = ClockIdentity::new([0xaa, 0xbb, 0xcc, 0xff, 0xfe, 0x11, 0x22, 0x33]);
    assert_eq!(id.vendor_prefix(), [0xaa, 0xbb, 0xcc, 0x11, 0x22, 0x33]);
}
