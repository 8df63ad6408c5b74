use modem_sockets::{Error, SocketAddr, SocketHandle, UdpSocket, UdpState};

fn addr() -> SocketAddr {
    SocketAddr::V6 { hi: 0xfe80_0000_0000_0000, lo: 1, port: 5683 }
}

#[test]
fn new_udp_socket_is_closed() {
    let s: UdpSocket<8> = UdpSocket::new(2, 15);
    assert_eq!(s.handle(), SocketHandle(2));
    assert_eq!(*s.state(), UdpState::Closed);
    assert_eq!(s.endpoint(), None);
    assert_eq!(s.recv_queue(), 0);
}

#[test]
fn bind_associates_an_endpoint_once() {
    let mut s: UdpSocket<8> = UdpSocket::new(0, 15);
    assert_eq!(s.bind(addr()), Ok(()));
    assert_eq!(*s.state(), UdpState::Established);
    assert_eq!(s.endpoint(), Some(addr()));
    assert_eq!(s.bind(addr()), Err(Error::Illegal));
}

#[test]
fn udp_recv_illegal_when_closed_and_empty() {
    let mut s: UdpSocket<8> = UdpSocket::new(0, 15);
    let mut out = [0u8; 2];
    assert_eq!(s.recv_slice(&mut out), Err(Error::Illegal));
    assert_eq!(s.peek(1).err(), Some(Error::Illegal));
}

#[test]
fn udp_recv_round_trip() {
    let mut s: UdpSocket<8> = UdpSocket::new(0, 15);
    s.bind(addr()).unwrap();
    assert_eq!(s.rx_enqueue_slice(&[5, 6, 7]), 3);
    assert_eq!(s.get_available_data(), 0);
    let mut out = [0u8; 3];
    assert_eq!(s.peek_slice(&mut out), Ok(3));
    assert_eq!(out, [5, 6, 7]);
    let taken = s.recv(|b: &[u8]| (1, b[0])).unwrap();
    assert_eq!(taken, 5);
    assert_eq!(s.recv_slice(&mut out), Ok(2));
    assert_eq!(&out[..2], &[6, 7]);
}

#[test]
fn udp_drains_after_remote_close() {
    let mut s: UdpSocket<8> = UdpSocket::new(0, 15);
    s.bind(addr()).unwrap();
    s.rx_enqueue_slice(&[9]);
    s.set_available_data(4);
    s.closed_by_remote();
    assert_eq!(*s.state(), UdpState::Closed);
    assert_eq!(s.get_available_data(), 0);
    // Buffered data stays readable.
    assert!(s.may_recv());
    let mut out = [0u8; 1];
    assert_eq!(s.recv_slice(&mut out), Ok(1));
    assert_eq!(out[0], 9);
    assert!(!s.may_recv());
}

#[test]
fn udp_is_never_recycled() {
    let mut s: UdpSocket<8> = UdpSocket::new(0, 15);
    assert!(!s.recycle());
    s.bind(addr()).unwrap();
    s.closed_by_remote();
    assert!(!s.recycle());
}

#[test]
fn udp_poll_throttled_like_tcp() {
    let mut s: UdpSocket<8> = UdpSocket::new(0, 20);
    assert!(!s.should_update_available_data(5));
    s.bind(addr()).unwrap();
    assert!(s.should_update_available_data(100));
    assert!(!s.should_update_available_data(119));
    assert!(s.should_update_available_data(120));
}

#[test]
fn udp_reset_restores_fresh_shape() {
    let mut s: UdpSocket<8> = UdpSocket::new(0, 15);
    s.bind(addr()).unwrap();
    s.rx_enqueue_slice(&[1]);
    s.set_available_data(3);
    s.reset();
    assert_eq!(*s.state(), UdpState::Closed);
    assert_eq!(s.endpoint(), None);
    assert_eq!(s.recv_queue(), 0);
    assert_eq!(s.get_available_data(), 0);
}
