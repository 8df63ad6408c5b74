use modem_sockets::{Error, SocketAddr, SocketHandle, UdpListener};

fn peer_addr(last: u8, port: u16) -> SocketAddr {
    SocketAddr::V4 { ip: 0xc0a8_0000 | last as u32, port }
}

#[test]
fn bind_registers_handle_and_port() {
    let mut l: UdpListener<4, 2> = UdpListener::new();
    assert!(!l.is_bound(SocketHandle(1)));
    assert!(!l.is_port_bound(80));
    assert_eq!(l.bind(SocketHandle(1), 80), Ok(()));
    assert!(l.is_bound(SocketHandle(1)));
    assert!(l.is_port_bound(80));
    assert_eq!(l.available(SocketHandle(1)), Ok(false));
}

#[test]
fn bind_rejects_rebinding() {
    let mut l: UdpListener<4, 2> = UdpListener::new();
    l.bind(SocketHandle(1), 80).unwrap();
    // A handle bound once cannot be re-bound.
    assert_eq!(l.bind(SocketHandle(1), 81), Err(Error::ListenerError));
    // A port owns at most one queue.
    assert_eq!(l.bind(SocketHandle(2), 80), Err(Error::ListenerError));
    assert_eq!(l.bind(SocketHandle(2), 81), Ok(()));
}

#[test]
fn bind_rejects_beyond_capacity() {
    let mut l: UdpListener<2, 2> = UdpListener::new();
    l.bind(SocketHandle(1), 80).unwrap();
    l.bind(SocketHandle(2), 81).unwrap();
    assert_eq!(l.bind(SocketHandle(3), 82), Err(Error::ListenerError));
}

#[test]
fn listener_fifo_and_overflow() {
    // Two arrivals come back out of accept in arrival order; a third
    // arrival is rejected while the queue is at its bound depth.
    let mut l: UdpListener<4, 2> = UdpListener::new();
    let h = SocketHandle(1);
    l.bind(h, 80).unwrap();
    let p1 = (SocketHandle(10), peer_addr(1, 4000));
    let p2 = (SocketHandle(11), peer_addr(2, 4001));
    let p3 = (SocketHandle(12), peer_addr(3, 4002));
    {
        let q = l.incoming(80).unwrap();
        assert!(q.enqueue(p1));
        assert!(q.enqueue(p2));
        assert!(!q.enqueue(p3));
    }
    assert_eq!(l.available(h), Ok(true));
    assert_eq!(l.peek_remote(h), Ok(p1));
    assert_eq!(l.get_remote(h), Ok(p1));
    assert_eq!(l.accept(h), Ok(p1));
    assert_eq!(l.accept(h), Ok(p2));
    assert_eq!(l.accept(h), Err(Error::Exhausted));
    // With room again, the rejected peer can arrive.
    {
        let q = l.incoming(80).unwrap();
        assert!(q.enqueue(p3));
    }
    assert_eq!(l.accept(h), Ok(p3));
}

#[test]
fn incoming_unknown_port_is_none() {
    let mut l: UdpListener<4, 2> = UdpListener::new();
    assert!(l.incoming(99).is_none());
}

#[test]
fn listener_queries_fail_when_not_bound() {
    let mut l: UdpListener<4, 2> = UdpListener::new();
    assert_eq!(l.available(SocketHandle(7)), Err(Error::NotBound));
    assert_eq!(l.peek_remote(SocketHandle(7)), Err(Error::NotBound));
    assert_eq!(l.get_remote(SocketHandle(7)), Err(Error::NotBound));
    assert_eq!(l.accept(SocketHandle(7)), Err(Error::NotBound));
}

#[test]
fn peek_remote_leaves_the_queue_intact() {
    let mut l: UdpListener<4, 2> = UdpListener::new();
    let h = SocketHandle(1);
    l.bind(h, 80).unwrap();
    let p1 = (SocketHandle(10), peer_addr(1, 4000));
    l.incoming(80).unwrap().enqueue(p1);
    assert_eq!(l.peek_remote(h), Ok(p1));
    assert_eq!(l.peek_remote(h), Ok(p1));
    assert_eq!(l.accept(h), Ok(p1));
    assert_eq!(l.peek_remote(h), Err(Error::Exhausted));
}

#[test]
fn outgoing_reuse_resolves_back() {
    // Registering an association and resolving the address yields the
    // registering handle.
    let mut l: UdpListener<4, 2> = UdpListener::new();
    let h = SocketHandle(3);
    let a = peer_addr(7, 7000);
    assert_eq!(l.get_outgoing(a), None);
    assert_eq!(l.outgoing_connection(h, a), Ok(()));
    assert_eq!(l.get_outgoing(a), Some(h));
    // Resolution is persistent: repeated sends reuse the association.
    assert_eq!(l.get_outgoing(a), Some(h));
}

#[test]
fn outgoing_collision_is_rejected() {
    let mut l: UdpListener<4, 2> = UdpListener::new();
    let a = peer_addr(7, 7000);
    l.outgoing_connection(SocketHandle(3), a).unwrap();
    // Re-registering the same pair is a no-op.
    assert_eq!(l.outgoing_connection(SocketHandle(3), a), Ok(()));
    // Re-registering the address to a different handle is rejected.
    assert_eq!(l.outgoing_connection(SocketHandle(4), a), Err(Error::ListenerError));
    assert_eq!(l.get_outgoing(a), Some(SocketHandle(3)));
}

#[test]
fn outgoing_table_is_capacity_bounded() {
    let mut l: UdpListener<2, 2> = UdpListener::new();
    l.outgoing_connection(SocketHandle(1), peer_addr(1, 1)).unwrap();
    l.outgoing_connection(SocketHandle(2), peer_addr(2, 2)).unwrap();
    assert_eq!(
        l.outgoing_connection(SocketHandle(3), peer_addr(3, 3)),
        Err(Error::ListenerError)
    );
    // Known addresses still resolve at capacity.
    assert_eq!(l.outgoing_connection(SocketHandle(2), peer_addr(2, 2)), Ok(()));
}

#[test]
fn v6_addresses_are_distinguished() {
    let mut l: UdpListener<4, 2> = UdpListener::new();
    let a1 = SocketAddr::V6 { hi: 1, lo: 2, port: 9 };
    let a2 = SocketAddr::V6 { hi: 1, lo: 3, port: 9 };
    l.outgoing_connection(SocketHandle(1), a1).unwrap();
    assert_eq!(l.get_outgoing(a2), None);
    l.outgoing_connection(SocketHandle(2), a2).unwrap();
    assert_eq!(l.get_outgoing(a1), Some(SocketHandle(1)));
    assert_eq!(l.get_outgoing(a2), Some(SocketHandle(2)));
}
