use harmonia::net::{multicast, open_multicast, BindStep, Connection, NetError, SocketPlan, MAX_TRIES};

const LO: u32 = 0x7F00_0001;
const ETH: u32 = 0xC0A8_0105;
const WIFI: u32 = 0x0A00_0007;

fn bound(addrs: &[u32]) -> Connection {
    let mut connection = Connection::new();
    for addr in addrs {
        assert_eq!(connection.bind(*addr, true, 0), BindStep::Bound);
    }
    connection
}

#[test]
fn test_defaults() {
    let (group, port) = multicast();
    assert_eq!(group.to_be_bytes(), [224, 76, 78, 75]);
    assert_eq!(port, 20810);
    // 224.0.0.0/4 is the multicast range
    assert_eq!(group >> 28, 0b1110);
}

#[test]
fn socket_plan_loops_back_on_loopback_only() {
    assert_eq!(
        open_multicast(LO),
        SocketPlan {
            interface: LO,
            nonblocking: true,
            reuse_address: true,
            reuse_port: true,
            read_timeout_millis: 100,
            multicast_loop: true,
            group: 0xE04C_4E4B,
            bind_address: 0,
            bind_port: 20810,
        }
    );
    assert!(!open_multicast(ETH).multicast_loop);
    assert!(!open_multicast(0x8000_0001).multicast_loop);
    assert!(open_multicast(0x7FFF_FFFF).multicast_loop);
}

#[test]
fn bind_records_the_socket() {
    let mut connection = Connection::default();
    assert_eq!(connection.check_usable(), Err(NetError::NoInterface));
    assert!(!connection.is_established(ETH));
    assert_eq!(connection.bind(ETH, true, 0), BindStep::Bound);
    assert!(connection.is_established(ETH));
    assert!(!connection.is_established(LO));
    assert_eq!(connection.sockets, vec![ETH]);
    assert_eq!(connection.established.len(), 1);
    assert_eq!(connection.check_usable(), Ok(()));
}

#[test]
fn bind_rejects_with_the_fifth_failure() {
    let mut connection = Connection::new();
    assert_eq!(MAX_TRIES, 5);
    for failed_before in 0..4 {
        assert_eq!(connection.bind(ETH, false, failed_before), BindStep::Retry);
        assert!(connection.rejected.is_empty());
    }
    assert_eq!(connection.bind(ETH, false, 4), BindStep::Rejected { first_time: true });
    assert!(connection.rejected.contains(&ETH));
    assert_eq!(connection.rejected.len(), 1);
    // the next round fails again: no news
    assert_eq!(connection.bind(ETH, false, 4), BindStep::Rejected { first_time: false });
    assert_eq!(connection.rejected.len(), 1);
    assert_eq!(connection.bind(ETH, false, u32::MAX), BindStep::Rejected { first_time: false });
    assert!(connection.sockets.is_empty());
}

#[test]
fn bind_succeeds_after_failures() {
    let mut connection = Connection::new();
    assert_eq!(connection.bind(ETH, false, 0), BindStep::Retry);
    assert_eq!(connection.bind(ETH, true, 1), BindStep::Bound);
    assert_eq!(connection.sockets, vec![ETH]);
    assert!(connection.rejected.is_empty());
}

#[test]
fn send_failures_are_counted_and_reset() {
    let mut connection = bound(&[LO, ETH]);
    assert_eq!(connection.record_broadcast(&vec![true, false]), Vec::<usize>::new());
    assert_eq!(connection.failures.get(&ETH), Some(&1));
    assert_eq!(connection.failures.get(&LO), None);
    connection.record_broadcast(&vec![false, false]);
    assert_eq!(connection.failures.get(&ETH), Some(&2));
    assert_eq!(connection.failures.get(&LO), Some(&1));
    connection.record_broadcast(&vec![false, true]);
    assert_eq!(connection.failures.get(&ETH), None);
    assert_eq!(connection.failures.get(&LO), Some(&2));
}

#[test]
fn socket_is_evicted_after_more_than_five_failures_in_a_row() {
    let mut connection = bound(&[LO, ETH, WIFI]);
    for _ in 0..5 {
        assert_eq!(connection.record_broadcast(&vec![true, false, true]), Vec::<usize>::new());
    }
    assert_eq!(connection.failures.get(&ETH), Some(&5));
    // the sixth failure in a row
    let failed = connection.record_broadcast(&vec![true, false, true]);
    assert_eq!(failed, vec![1]);
    assert_eq!(connection.failures.get(&ETH), Some(&6));
    assert_eq!(connection.remove(&failed), vec![ETH]);
    assert_eq!(connection.sockets, vec![LO, WIFI]);
    assert!(!connection.is_established(ETH));
    assert!(connection.is_established(LO));
    assert!(connection.is_established(WIFI));
}

#[test]
fn after_broadcast_removes_at_the_sixth_failure() {
    let mut connection = bound(&[LO, ETH]);
    for _ in 0..5 {
        assert_eq!(connection.after_broadcast(&vec![false, true]), Vec::<u32>::new());
        assert_eq!(connection.sockets, vec![LO, ETH]);
    }
    assert_eq!(connection.after_broadcast(&vec![false, true]), vec![LO]);
    assert_eq!(connection.sockets, vec![ETH]);
    assert!(!connection.is_established(LO));
    assert!(connection.is_established(ETH));
    assert_eq!(connection.failures.get(&ETH), None);
}

#[test]
fn success_in_between_saves_the_socket() {
    let mut connection = bound(&[ETH]);
    for _ in 0..5 {
        connection.record_broadcast(&vec![false]);
    }
    connection.record_broadcast(&vec![true]);
    for _ in 0..5 {
        assert_eq!(connection.record_broadcast(&vec![false]), Vec::<usize>::new());
    }
    assert_eq!(connection.record_broadcast(&vec![false]), vec![0]);
}

#[test]
fn failures_are_counted_across_a_rebind() {
    let mut connection = bound(&[ETH]);
    for _ in 0..5 {
        connection.after_broadcast(&vec![false]);
    }
    assert_eq!(connection.after_broadcast(&vec![false]), vec![ETH]);
    // bound again without a success in between: the row goes on
    assert_eq!(connection.bind(ETH, true, 0), BindStep::Bound);
    assert_eq!(connection.after_broadcast(&vec![false]), vec![ETH]);
    assert_eq!(connection.bind(ETH, true, 0), BindStep::Bound);
    assert_eq!(connection.after_broadcast(&vec![true]), Vec::<u32>::new());
    assert_eq!(connection.after_broadcast(&vec![false]), Vec::<u32>::new());
    assert_eq!(connection.failures.get(&ETH), Some(&1));
}

#[test]
fn failure_count_saturates() {
    let mut connection = bound(&[ETH]);
    connection.failures.insert(ETH, u32::MAX);
    assert_eq!(connection.record_broadcast(&vec![false]), vec![0]);
    assert_eq!(connection.failures.get(&ETH), Some(&u32::MAX));
}

#[test]
fn remove_keeps_the_order_of_the_rest() {
    let mut connection = bound(&[1, 2, 3, 4, 5]);
    assert_eq!(connection.remove(&vec![0, 2, 4]), vec![1, 3, 5]);
    assert_eq!(connection.sockets, vec![2, 4]);
    assert_eq!(connection.remove(&vec![0, 1]), vec![2, 4]);
    assert!(connection.sockets.is_empty());
    assert_eq!(connection.check_usable(), Err(NetError::NoInterface));
}

#[test]
fn removed_interface_can_be_bound_again() {
    let mut connection = bound(&[ETH, LO]);
    connection.remove(&vec![0]);
    assert!(!connection.is_established(ETH));
    assert_eq!(connection.bind(ETH, true, 0), BindStep::Bound);
    assert_eq!(connection.sockets, vec![LO, ETH]);
}
