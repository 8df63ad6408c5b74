use modem_sockets::{
    AnySocket, Error, Socket, SocketAddr, SocketHandle, SocketSet, SocketType, TcpSocket,
    TcpState, UdpSocket,
};

fn tcp(id: u8) -> Socket<8> {
    Socket::Tcp(TcpSocket::new(id, 15, Some(15)))
}

fn udp(id: u8) -> Socket<8> {
    Socket::Udp(UdpSocket::new(id, 15))
}

#[test]
fn add_and_get_by_handle() {
    let mut set: SocketSet<2, 8> = SocketSet::new();
    assert_eq!(set.capacity(), 2);
    assert_eq!(set.add(tcp(1)), Ok(SocketHandle(1)));
    assert_eq!(set.add(udp(2)), Ok(SocketHandle(2)));
    let s = set.get(SocketHandle(2)).unwrap();
    assert_eq!(s.get_type(), SocketType::Udp);
    assert_eq!(s.handle(), SocketHandle(2));
    assert_eq!(set.get(SocketHandle(3)).err(), Some(Error::InvalidSocket));
}

#[test]
fn add_at_capacity_is_rejected() {
    let mut set: SocketSet<2, 8> = SocketSet::new();
    set.add(tcp(1)).unwrap();
    set.add(tcp(2)).unwrap();
    assert_eq!(set.add(tcp(3)), Err(Error::SocketSetFull));
}

#[test]
fn add_duplicate_handle_is_rejected() {
    let mut set: SocketSet<3, 8> = SocketSet::new();
    set.add(tcp(1)).unwrap();
    assert_eq!(set.add(udp(1)), Err(Error::DuplicateSocket));
}

#[test]
fn remove_then_add_same_handle_succeeds() {
    let mut set: SocketSet<2, 8> = SocketSet::new();
    set.add(tcp(1)).unwrap();
    set.add(tcp(2)).unwrap();
    assert_eq!(set.add(udp(1)), Err(Error::DuplicateSocket));
    let removed = set.remove(SocketHandle(1)).unwrap();
    assert_eq!(removed.handle(), SocketHandle(1));
    assert_eq!(set.remove(SocketHandle(1)).err(), Some(Error::InvalidSocket));
    assert_eq!(set.add(udp(1)), Ok(SocketHandle(1)));
    let s = set.get(SocketHandle(1)).unwrap();
    assert_eq!(s.get_type(), SocketType::Udp);
}

#[test]
fn get_borrows_a_mutable_socket() {
    let mut set: SocketSet<2, 8> = SocketSet::new();
    set.add(tcp(1)).unwrap();
    {
        let s = set.get(SocketHandle(1)).unwrap();
        s.set_available_data(9);
        assert_eq!(s.rx_enqueue_slice(&[1, 2]), 2);
    }
    let s = set.get(SocketHandle(1)).unwrap();
    assert_eq!(s.available_data(), 9);
    assert_eq!(s.rx_window(), 6);
}

#[test]
fn recycle_sweep_frees_expired_sockets() {
    let mut set: SocketSet<3, 8> = SocketSet::new();
    set.add(tcp(1)).unwrap();
    set.add(tcp(2)).unwrap();
    set.add(udp(3)).unwrap();
    set.get(SocketHandle(1)).unwrap().closed_by_remote(100);
    // Before the grace period nothing is freed.
    assert_eq!(set.recycle(110), 0);
    // At the boundary the shut-down socket goes; the others stay.
    assert_eq!(set.recycle(115), 1);
    assert_eq!(set.get(SocketHandle(1)).err(), Some(Error::InvalidSocket));
    assert!(set.get(SocketHandle(2)).is_ok());
    assert!(set.get(SocketHandle(3)).is_ok());
    // The freed slot can be reused.
    assert_eq!(set.add(tcp(1)), Ok(SocketHandle(1)));
}

#[test]
fn socket_dispatch_is_uniform() {
    let mut s = tcp(4);
    assert_eq!(s.get_type(), SocketType::Tcp);
    assert!(!s.should_update_available_data(10));
    s.set_available_data(3);
    assert_eq!(s.available_data(), 3);
    assert!(!s.recycle(1000));
    assert_eq!(s.rx_enqueue_slice(&[1, 2, 3]), 3);
    assert_eq!(s.rx_window(), 5);
    assert!(s.can_recv());
    s.closed_by_remote(7);
    assert_eq!(s.available_data(), 0);
    assert!(s.recycle(22));
}

#[test]
fn downcast_recovers_the_concrete_socket() {
    let mut s = tcp(5);
    {
        let t: &mut TcpSocket<8> = TcpSocket::downcast(&mut s).unwrap();
        t.set_state(TcpState::Connected(SocketAddr::V4 { ip: 1, port: 80 }));
    }
    assert!(s.can_recv());
    assert_eq!(UdpSocket::downcast(&mut s).err(), Some(Error::Illegal));
    let mut u = udp(6);
    assert!(UdpSocket::<8>::downcast(&mut u).is_ok());
    assert_eq!(TcpSocket::<8>::downcast(&mut u).err(), Some(Error::Illegal));
}

#[test]
fn socket_from_concrete_sockets() {
    let t: Socket<8> = TcpSocket::new(1, 15, Some(15)).into();
    assert_eq!(t.get_type(), SocketType::Tcp);
    let u: Socket<8> = UdpSocket::new(2, 15).into();
    assert_eq!(u.get_type(), SocketType::Udp);
}
