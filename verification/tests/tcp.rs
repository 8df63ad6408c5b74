use modem_sockets::{Error, SocketAddr, SocketHandle, TcpSocket, TcpState};

fn addr() -> SocketAddr {
    SocketAddr::V4 { ip: 0x7f00_0001, port: 8080 }
}

#[test]
fn new_socket_is_created_and_empty() {
    let s: TcpSocket<8> = TcpSocket::new(3, 15, Some(15));
    assert_eq!(s.handle(), SocketHandle(3));
    assert_eq!(*s.state(), TcpState::Created);
    assert_eq!(s.endpoint(), None);
    assert_eq!(s.get_available_data(), 0);
    assert_eq!(s.recv_queue(), 0);
    assert_eq!(s.rx_window(), 8);
}

#[test]
fn update_handle_changes_only_the_handle() {
    let mut s: TcpSocket<8> = TcpSocket::new(1, 15, Some(15));
    s.update_handle(SocketHandle(9));
    assert_eq!(s.handle(), SocketHandle(9));
    assert_eq!(*s.state(), TcpState::Created);
}

#[test]
fn endpoint_follows_the_state() {
    let mut s: TcpSocket<8> = TcpSocket::new(0, 15, Some(15));
    assert_eq!(s.endpoint(), None);
    s.set_state(TcpState::WaitingForConnect(addr()));
    assert_eq!(s.endpoint(), Some(addr()));
    s.set_state(TcpState::Connected(addr()));
    assert_eq!(s.endpoint(), Some(addr()));
    assert!(s.is_connected());
    s.set_state(TcpState::ShutdownForWrite(100));
    assert_eq!(s.endpoint(), None);
    assert!(!s.is_connected());
}

#[test]
fn recv_illegal_before_connection() {
    // State legality: receives in Created or WaitingForConnect with an
    // empty buffer always fail with Illegal.
    let mut s: TcpSocket<8> = TcpSocket::new(0, 15, Some(15));
    let mut out = [0u8; 4];
    assert_eq!(s.recv_slice(&mut out), Err(Error::Illegal));
    assert_eq!(s.peek(1).err(), Some(Error::Illegal));
    assert_eq!(s.peek_slice(&mut out), Err(Error::Illegal));
    assert_eq!(s.recv(|b: &[u8]| (0, b.len())).err(), Some(Error::Illegal));
    assert_eq!(s.recv_wrapping(|a: &[u8], _b| a.len()).err(), Some(Error::Illegal));
    s.set_state(TcpState::WaitingForConnect(addr()));
    assert_eq!(s.recv_slice(&mut out), Err(Error::Illegal));
}

#[test]
fn recv_legal_when_connected_or_draining() {
    let mut s: TcpSocket<8> = TcpSocket::new(0, 15, Some(15));
    s.set_state(TcpState::Connected(addr()));
    assert!(s.may_recv());
    assert!(s.can_recv());
    assert_eq!(s.rx_enqueue_slice(&[1, 2, 3]), 3);
    let mut out = [0u8; 2];
    assert_eq!(s.recv_slice(&mut out), Ok(2));
    assert_eq!(out, [1, 2]);
    s.set_state(TcpState::ShutdownForWrite(5));
    assert!(s.may_recv());
    assert_eq!(s.recv_slice(&mut out), Ok(1));
    assert_eq!(out[0], 3);
}

#[test]
fn recv_legal_with_buffered_data_in_any_state() {
    let mut s: TcpSocket<8> = TcpSocket::new(0, 15, Some(15));
    s.set_state(TcpState::Connected(addr()));
    s.rx_enqueue_slice(&[42]);
    s.set_state(TcpState::Created);
    assert!(s.may_recv());
    let mut out = [0u8; 1];
    assert_eq!(s.recv_slice(&mut out), Ok(1));
    assert_eq!(out[0], 42);
    // Drained: back to illegal.
    assert_eq!(s.recv_slice(&mut out), Err(Error::Illegal));
}

#[test]
fn recv_closure_dequeues_what_it_consumes() {
    let mut s: TcpSocket<8> = TcpSocket::new(0, 15, Some(15));
    s.set_state(TcpState::Connected(addr()));
    s.rx_enqueue_slice(&[10, 20, 30]);
    let taken = s.recv(|b: &[u8]| (2, (b[0], b[1]))).unwrap();
    assert_eq!(taken, (10, 20));
    assert_eq!(s.recv_queue(), 1);
}

#[test]
fn recv_wrapping_reassembles_wrapped_content() {
    let mut s: TcpSocket<4> = TcpSocket::new(0, 15, Some(15));
    s.set_state(TcpState::Connected(addr()));
    s.rx_enqueue_slice(&[1, 2, 3]);
    let mut out = [0u8; 2];
    s.recv_slice(&mut out).unwrap();
    s.rx_enqueue_slice(&[4, 5, 6]);
    // Content is [3, 4, 5, 6], wrapped in the buffer.
    let mut gathered: Vec<u8> = Vec::new();
    let n = s
        .recv_wrapping(|a: &[u8], rest: Option<&[u8]>| {
            gathered.extend_from_slice(a);
            if let Some(r) = rest {
                gathered.extend_from_slice(r);
            }
            gathered.len()
        })
        .unwrap();
    assert_eq!(n, 4);
    assert_eq!(gathered, vec![3, 4, 5, 6]);
    assert_eq!(s.recv_queue(), 0);
}

#[test]
fn peek_slice_does_not_dequeue() {
    let mut s: TcpSocket<8> = TcpSocket::new(0, 15, Some(15));
    s.set_state(TcpState::Connected(addr()));
    s.rx_enqueue_slice(&[7, 8, 9]);
    let mut out = [0u8; 2];
    assert_eq!(s.peek_slice(&mut out), Ok(2));
    assert_eq!(out, [7, 8]);
    assert_eq!(s.recv_queue(), 3);
    let head = s.peek(3).unwrap();
    assert_eq!(head, &[7, 8, 9]);
}

#[test]
fn rx_enqueue_clips_as_backpressure() {
    let mut s: TcpSocket<4> = TcpSocket::new(0, 15, Some(15));
    s.set_state(TcpState::Connected(addr()));
    assert_eq!(s.rx_enqueue_slice(&[1, 2, 3, 4, 5, 6]), 4);
    assert_eq!(s.rx_window(), 0);
    assert!(!s.can_recv());
    assert!(s.may_recv());
    assert_eq!(s.rx_enqueue_slice(&[7]), 0);
}

#[test]
fn poll_throttled_within_interval() {
    // Two polls less than check_interval apart: true then false; spaced
    // at least check_interval apart: true again.
    let mut s: TcpSocket<8> = TcpSocket::new(0, 15, Some(15));
    s.set_state(TcpState::Connected(addr()));
    assert!(s.should_update_available_data(100));
    assert!(!s.should_update_available_data(114));
    assert!(s.should_update_available_data(115));
    assert!(s.should_update_available_data(130));
}

#[test]
fn poll_refused_when_not_connected() {
    let mut s: TcpSocket<8> = TcpSocket::new(0, 15, Some(15));
    assert!(!s.should_update_available_data(1000));
    s.set_state(TcpState::ShutdownForWrite(0));
    assert!(!s.should_update_available_data(2000));
}

#[test]
fn recycle_timing_boundary() {
    // Shut down at t0 with grace period rt: not recyclable one tick
    // before t0 + rt, recyclable exactly at t0 + rt.
    let mut s: TcpSocket<8> = TcpSocket::new(0, 15, Some(15));
    s.set_state(TcpState::Connected(addr()));
    assert!(!s.recycle(1_000_000));
    s.closed_by_remote(100);
    assert_eq!(*s.state(), TcpState::ShutdownForWrite(100));
    assert!(!s.recycle(114));
    assert!(s.recycle(115));
    assert!(s.recycle(400));
}

#[test]
fn recycle_disabled_without_timeout() {
    let mut s: TcpSocket<8> = TcpSocket::new(0, 15, None);
    s.closed_by_remote(0);
    assert!(!s.recycle(1_000_000));
}

#[test]
fn closed_by_remote_zeroes_available_data() {
    let mut s: TcpSocket<8> = TcpSocket::new(0, 15, Some(15));
    s.set_state(TcpState::Connected(addr()));
    s.set_available_data(77);
    assert_eq!(s.get_available_data(), 77);
    s.closed_by_remote(50);
    assert_eq!(s.get_available_data(), 0);
}

#[test]
fn reset_restores_created_shape() {
    let mut s: TcpSocket<8> = TcpSocket::new(0, 15, Some(15));
    s.set_state(TcpState::Connected(addr()));
    s.rx_enqueue_slice(&[1, 2]);
    s.set_available_data(5);
    s.should_update_available_data(10);
    s.reset();
    assert_eq!(*s.state(), TcpState::Created);
    assert_eq!(s.recv_queue(), 0);
    assert_eq!(s.get_available_data(), 0);
    // A fresh socket polls immediately once connected.
    s.set_state(TcpState::Connected(addr()));
    assert!(s.should_update_available_data(11));
}
