use embassy::net::client::{ClientError, Connecting, TcpClient, TcpConnection};
use embassy::net::pool::Pool;
use embassy::net::smol::{NoBytes, NotTaken, Refused, State};
use embassy::net::stack::{SocketStack, LOCAL_PORT_MAX, LOCAL_PORT_MIN};
use embassy::net::tcp;
use embassy::net::tcp::{AcceptError, ConnectError, TcpSocket};
use embassy::net::udp;
use embassy::net::udp::{BindError, UdpSocket};
use embassy::net::wire::{Endpoint, IpAddress, ListenEndpoint};
use embassy::waker::Poll;
use smoltcp::iface::{Config, Interface};
use smoltcp::phy::{
    ChecksumCapabilities, Device, DeviceCapabilities, Loopback, Medium, RxToken, TxToken,
};
use smoltcp::socket::udp::PacketMetadata;
use smoltcp::socket::Socket;
use smoltcp::time::{Duration, Instant};
use smoltcp::wire::{
    IpCidr, IpProtocol, Ipv4Address, Ipv4Packet, Ipv4Repr, TcpControl, TcpPacket, TcpRepr,
    TcpSeqNumber,
};
use std::sync::atomic::{AtomicUsize, Ordering};
use std::sync::Arc;
use std::task::{Wake, Waker};

const HERE: IpAddress = IpAddress::Ipv4([127, 0, 0, 1]);

struct Counter(AtomicUsize);

impl Wake for Counter {
    fn wake(self: Arc<Self>) {
        self.0.fetch_add(1, Ordering::SeqCst);
    }
}

fn counter() -> (Arc<Counter>, Waker) {
    let c = Arc::new(Counter(AtomicUsize::new(0)));
    (c.clone(), Waker::from(c))
}

fn count(c: &Arc<Counter>) -> usize {
    c.0.load(Ordering::SeqCst)
}

/// A device that sends a number of packets and receives none.
struct Outlet {
    left: usize,
}

struct Sending<'a> {
    left: &'a mut usize,
}

enum NothingReceived {}

impl TxToken for Sending<'_> {
    fn consume<R, F: FnOnce(&mut [u8]) -> R>(self, len: usize, f: F) -> R {
        *self.left -= 1;
        f(&mut vec![0; len])
    }
}

impl RxToken for NothingReceived {
    fn consume<R, F: FnOnce(&mut [u8]) -> R>(self, _: F) -> R {
        match self {}
    }
}

impl Device for Outlet {
    type RxToken<'a> = NothingReceived;
    type TxToken<'a> = Sending<'a>;

    fn capabilities(&self) -> DeviceCapabilities {
        Loopback::new(Medium::Ip).capabilities()
    }

    fn receive(&mut self, _: Instant) -> Option<(NothingReceived, Sending<'_>)> {
        None
    }

    fn transmit(&mut self, _: Instant) -> Option<Sending<'_>> {
        if self.left > 0 {
            Some(Sending {
                left: &mut self.left,
            })
        } else {
            None
        }
    }
}

struct Net {
    device: Loopback,
    stack: SocketStack,
    now: Instant,
}

impl Net {
    fn new() -> Net {
        Net::with_first_port(50000)
    }

    fn with_first_port(first_port: u16) -> Net {
        let mut device = Loopback::new(Medium::Ip);
        let mut iface = Interface::new(Config::new(), &mut device);
        iface.update_ip_addrs(|addrs| {
            addrs
                .push(IpCidr::new(smoltcp::wire::IpAddress::v4(127, 0, 0, 1), 8))
                .unwrap();
        });
        Net {
            device,
            stack: SocketStack::new(iface, first_port),
            now: Instant::from_millis(0),
        }
    }

    fn pump(&mut self) {
        for _ in 0..20 {
            self.now += Duration::from_millis(10);
            let (iface, sockets) = self.stack.parts_mut();
            iface.poll(self.now, &mut self.device, sockets);
        }
    }

    /// Puts a request to connect on the wire whose sender never answers.
    fn request_from_nobody(&mut self, port: u16) {
        let (src, dst) = (Ipv4Address::new(127, 0, 0, 5), Ipv4Address::new(127, 0, 0, 1));
        let tcp = TcpRepr {
            src_port: 9,
            dst_port: port,
            control: TcpControl::Syn,
            seq_number: TcpSeqNumber(1),
            ack_number: None,
            window_len: 64,
            window_scale: None,
            max_seg_size: None,
            sack_permitted: false,
            sack_ranges: [None, None, None],
            payload: &[],
        };
        let ip = Ipv4Repr {
            src_addr: src,
            dst_addr: dst,
            next_header: IpProtocol::Tcp,
            payload_len: tcp.buffer_len(),
            hop_limit: 64,
        };
        let sums = ChecksumCapabilities::default();
        let token = self.device.transmit(self.now).unwrap();
        token.consume(ip.buffer_len() + tcp.buffer_len(), |buf| {
            let mut packet = Ipv4Packet::new_unchecked(buf);
            ip.emit(&mut packet, &sums);
            let mut segment = TcpPacket::new_unchecked(packet.payload_mut());
            tcp.emit(&mut segment, &src.into(), &dst.into(), &sums);
        });
    }

    fn send_packets(&mut self, n: usize) {
        let (iface, sockets) = self.stack.parts_mut();
        let mut outlet = Outlet { left: n };
        iface.poll(self.now, &mut outlet, sockets);
        assert_eq!(outlet.left, 0);
    }

    fn step(&mut self) {
        self.now += Duration::from_millis(1);
        let (iface, sockets) = self.stack.parts_mut();
        iface.poll(self.now, &mut self.device, sockets);
    }

    /// Lets time pass with every packet lost, until a socket wakes its task.
    fn silence_until_woken(&mut self, woken: &Arc<Counter>) -> u64 {
        let start = self.now;
        let before = count(woken);
        for _ in 0..1000 {
            self.device = Loopback::new(Medium::Ip);
            self.step();
            if count(woken) > before {
                return (self.now - start).total_micros();
            }
        }
        panic!("nothing happened");
    }

    /// Moves packets until a socket wakes its task, and tells how many microseconds that took.
    fn pump_until_woken(&mut self, woken: &Arc<Counter>) -> u64 {
        let start = self.now;
        let before = count(woken);
        for _ in 0..100 {
            self.now += Duration::from_millis(10);
            let (iface, sockets) = self.stack.parts_mut();
            iface.poll(self.now, &mut self.device, sockets);
            if count(woken) > before {
                return (self.now - start).total_micros();
            }
        }
        panic!("nothing happened");
    }

    fn tcp(&mut self, rx: usize, tx: usize) -> TcpSocket {
        TcpSocket::new(&mut self.stack, vec![0; rx], vec![0; tx])
    }

    fn udp(&mut self, slots: usize, bytes: usize) -> UdpSocket {
        UdpSocket::new(
            &mut self.stack,
            vec![PacketMetadata::EMPTY; slots],
            vec![0; bytes],
            vec![PacketMetadata::EMPTY; slots],
            vec![0; bytes],
        )
    }

    /// A server on port 80 and a client that is connected to it.
    fn connected(&mut self, rx: usize, tx: usize) -> (TcpSocket, TcpSocket) {
        let (_, w) = counter();
        let mut server = self.tcp(rx, tx);
        let mut client = self.tcp(rx, tx);
        assert_eq!(server.accept(&mut self.stack, port(80)), Ok(()));
        assert_eq!(client.connect(&mut self.stack, at(80)), Ok(()));
        self.pump();
        assert_eq!(client.poll_connect(&mut self.stack, &w, 0), Poll::Ready(Ok(())));
        assert_eq!(server.poll_accept(&mut self.stack, &w, 0), Poll::Ready(Ok(())));
        (server, client)
    }
}

fn at(port: u16) -> Endpoint {
    Endpoint { addr: HERE, port }
}

fn port(port: u16) -> ListenEndpoint {
    ListenEndpoint { addr: None, port }
}

#[test]
fn ports_come_in_turn() {
    let mut net = Net::new();
    assert_eq!(net.stack.get_local_port(), 50000);
    assert_eq!(net.stack.get_local_port(), 50001);
    let mut net = Net::with_first_port(LOCAL_PORT_MAX);
    assert_eq!(net.stack.get_local_port(), 65535);
    assert_eq!(net.stack.get_local_port(), LOCAL_PORT_MIN);
    assert_eq!(net.stack.get_local_port(), 1026);
}

#[test]
fn operations_wake_the_runner() {
    let mut net = Net::new();
    let (_, w) = counter();
    let mut socket = net.tcp(64, 64);
    net.stack.register(w.clone());
    assert_eq!(net.stack.take_due().len(), 0);
    assert_eq!(socket.state(&net.stack), State::Closed);
    assert_eq!(net.stack.take_due().len(), 0);
    socket.close(&mut net.stack);
    let due = net.stack.take_due();
    assert_eq!(due.len(), 1);
    assert!(due[0].will_wake(&w));
    socket.close(&mut net.stack);
    assert_eq!(net.stack.take_due().len(), 0);
}

#[test]
fn a_new_socket_is_closed() {
    let mut net = Net::new();
    let (_, w) = counter();
    let mut socket = net.tcp(64, 64);
    assert_eq!(socket.state(&net.stack), State::Closed);
    assert_eq!(socket.local_endpoint(&net.stack), None);
    assert_eq!(socket.remote_endpoint(&net.stack), None);
    assert!(!socket.may_send(&net.stack));
    assert!(!socket.may_recv(&net.stack));
    assert_eq!(
        socket.read(&mut net.stack, &w, &mut [0; 4]),
        Poll::Ready(Err(tcp::Error::ConnectionReset))
    );
    assert_eq!(
        socket.write(&mut net.stack, &w, &[1]),
        Poll::Ready(Err(tcp::Error::ConnectionReset))
    );
    assert_eq!(socket.flush(), Poll::Ready(Ok(())));
}

#[test]
fn connecting_to_a_listener() {
    let mut net = Net::new();
    let (woken, w) = counter();
    let mut server = net.tcp(64, 64);
    let mut client = net.tcp(64, 64);
    assert_eq!(server.accept(&mut net.stack, port(80)), Ok(()));
    assert_eq!(server.state(&net.stack), State::Listen);
    assert_eq!(server.poll_accept(&mut net.stack, &w, 0), Poll::Pending);
    assert_eq!(client.connect(&mut net.stack, at(80)), Ok(()));
    assert_eq!(client.state(&net.stack), State::SynSent);
    assert_eq!(client.local_endpoint(&net.stack), Some(at(50000)));
    assert_eq!(client.remote_endpoint(&net.stack), Some(at(80)));
    assert_eq!(net.stack.get_local_port(), 50001);
    assert_eq!(client.poll_connect(&mut net.stack, &w, 0), Poll::Pending);
    assert_eq!(count(&woken), 0);
    net.pump();
    assert_eq!(count(&woken), 2);
    assert_eq!(client.poll_connect(&mut net.stack, &w, 0), Poll::Ready(Ok(())));
    assert_eq!(server.poll_accept(&mut net.stack, &w, 0), Poll::Ready(Ok(())));
    assert_eq!(server.remote_endpoint(&net.stack), Some(at(50000)));
    assert_eq!(client.state(&net.stack), State::Established);
}

#[test]
fn refused_connections() {
    let mut net = Net::new();
    let (_, w) = counter();
    let mut socket = net.tcp(64, 64);
    assert_eq!(
        socket.connect(&mut net.stack, at(0)),
        Err(ConnectError::NoRoute)
    );
    let nowhere = Endpoint {
        addr: IpAddress::Ipv4([0; 4]),
        port: 80,
    };
    assert_eq!(
        socket.connect(&mut net.stack, nowhere),
        Err(ConnectError::NoRoute)
    );
    // The first octet alone makes an IPv4 address unspecified.
    let partly = Endpoint {
        addr: IpAddress::Ipv4([0, 1, 2, 3]),
        port: 80,
    };
    assert_eq!(
        socket.connect(&mut net.stack, partly),
        Err(ConnectError::NoRoute)
    );
    let mut v6 = [0; 16];
    v6[15] = 1;
    let other = Endpoint {
        addr: IpAddress::Ipv6(v6),
        port: 80,
    };
    assert_eq!(
        socket.connect(&mut net.stack, other),
        Err(ConnectError::NoRoute)
    );
    assert_eq!(net.stack.get_local_port(), 50004);
    assert_eq!(socket.state(&net.stack), State::Closed);
    assert_eq!(socket.connect(&mut net.stack, at(80)), Ok(()));
    assert_eq!(
        socket.connect(&mut net.stack, at(80)),
        Err(ConnectError::InvalidState)
    );
    // Nobody listens: the answer is a reset.
    net.pump();
    assert_eq!(
        socket.poll_connect(&mut net.stack, &w, 0),
        Poll::Ready(Err(ConnectError::ConnectionReset))
    );
}

#[test]
fn refused_listeners() {
    let mut net = Net::new();
    let mut socket = net.tcp(64, 64);
    assert_eq!(
        socket.accept(&mut net.stack, port(0)),
        Err(AcceptError::InvalidPort)
    );
    let local = ListenEndpoint {
        addr: Some(HERE),
        port: 80,
    };
    assert_eq!(socket.accept(&mut net.stack, local), Ok(()));
    assert_eq!(
        socket.accept(&mut net.stack, local),
        Err(AcceptError::InvalidState)
    );
    assert_eq!(
        socket.accept(&mut net.stack, port(0)),
        Err(AcceptError::InvalidPort)
    );
}

#[test]
fn bytes_arrive_in_order() {
    let mut net = Net::new();
    let (woken, w) = counter();
    let (mut server, mut client) = net.connected(64, 64);
    let mut buf = [9; 3];
    assert_eq!(server.read(&mut net.stack, &w, &mut buf), Poll::Pending);
    assert_eq!(buf, [9; 3]);
    assert_eq!(
        client.write(&mut net.stack, &w, &[1, 2, 3, 4, 5]),
        Poll::Ready(Ok(5))
    );
    assert_eq!(count(&woken), 0);
    net.pump();
    assert_eq!(count(&woken), 1);
    assert_eq!(server.read(&mut net.stack, &w, &mut buf), Poll::Ready(Ok(3)));
    assert_eq!(buf, [1, 2, 3]);
    assert_eq!(server.read(&mut net.stack, &w, &mut buf), Poll::Ready(Ok(2)));
    assert_eq!(buf, [4, 5, 3]);
    assert_eq!(server.read(&mut net.stack, &w, &mut buf), Poll::Pending);
}

#[test]
fn halves_share_the_socket() {
    let mut net = Net::new();
    let (_, w) = counter();
    let (mut server, mut client) = net.connected(64, 64);
    let (mut reader, _) = server.split();
    let (_, mut writer) = client.split();
    assert_eq!(writer.write(&mut net.stack, &w, &[7]), Poll::Ready(Ok(1)));
    assert_eq!(writer.flush(), Poll::Ready(Ok(())));
    net.pump();
    let mut buf = [0; 2];
    assert_eq!(reader.read(&mut net.stack, &w, &mut buf), Poll::Ready(Ok(1)));
    assert_eq!(buf, [7, 0]);
}

#[test]
fn a_full_buffer_is_waited_for() {
    let mut net = Net::new();
    let (woken, w) = counter();
    let (_, mut client) = net.connected(64, 4);
    assert_eq!(
        client.write(&mut net.stack, &w, &[1, 2, 3, 4, 5, 6]),
        Poll::Ready(Ok(4))
    );
    assert_eq!(client.write(&mut net.stack, &w, &[5, 6]), Poll::Pending);
    assert_eq!(count(&woken), 0);
    net.pump();
    assert_eq!(count(&woken), 1);
    assert_eq!(client.write(&mut net.stack, &w, &[5, 6]), Poll::Ready(Ok(2)));
    // Nothing to write is waited for as well.
    assert_eq!(client.write(&mut net.stack, &w, &[]), Poll::Pending);
}

#[test]
fn the_end_of_the_stream_reads_as_zero() {
    let mut net = Net::new();
    let (_, w) = counter();
    let (mut server, mut client) = net.connected(64, 64);
    assert_eq!(client.write(&mut net.stack, &w, &[8]), Poll::Ready(Ok(1)));
    client.close(&mut net.stack);
    assert_eq!(client.state(&net.stack), State::FinWait1);
    net.pump();
    assert_eq!(server.state(&net.stack), State::CloseWait);
    assert!(server.may_send(&net.stack));
    assert!(server.may_recv(&net.stack));
    let mut buf = [0; 2];
    assert_eq!(server.read(&mut net.stack, &w, &mut buf), Poll::Ready(Ok(1)));
    assert!(!server.may_recv(&net.stack));
    assert_eq!(server.read(&mut net.stack, &w, &mut buf), Poll::Ready(Ok(0)));
    assert_eq!(server.read(&mut net.stack, &w, &mut buf), Poll::Ready(Ok(0)));
    server.close(&mut net.stack);
    assert_eq!(server.state(&net.stack), State::LastAck);
    net.pump();
    assert_eq!(client.state(&net.stack), State::TimeWait);
    assert!(matches!(
        client.poll_connect(&mut net.stack, &w, 0),
        Poll::Ready(Err(ConnectError::ConnectionReset))
    ));
}

#[test]
fn an_aborted_connection_is_reset() {
    let mut net = Net::new();
    let (_, w) = counter();
    let (mut server, mut client) = net.connected(64, 64);
    client.abort(&mut net.stack);
    assert_eq!(client.state(&net.stack), State::Closed);
    net.pump();
    assert_eq!(
        server.read(&mut net.stack, &w, &mut [0; 2]),
        Poll::Ready(Err(tcp::Error::ConnectionReset))
    );
}

#[test]
fn settings_reach_the_socket() {
    let mut net = Net::new();
    let mut socket = net.tcp(64, 64);
    socket.set_timeout(&mut net.stack, Some(3_000_000));
    socket.set_keep_alive(&mut net.stack, Some(500));
    socket.set_hop_limit(&mut net.stack, Some(9));
    let mut seen = 0;
    for (_, s) in net.stack.set_ref().iter() {
        if let Socket::Tcp(s) = s {
            assert_eq!(s.timeout(), Some(Duration::from_secs(3)));
            assert_eq!(s.keep_alive(), Some(Duration::from_micros(500)));
            assert_eq!(s.hop_limit(), Some(9));
            seen += 1;
        }
    }
    assert_eq!(seen, 1);
    socket.set_timeout(&mut net.stack, None);
    socket.set_keep_alive(&mut net.stack, None);
    socket.set_hop_limit(&mut net.stack, None);
    for (_, s) in net.stack.set_ref().iter() {
        if let Socket::Tcp(s) = s {
            assert_eq!(s.timeout(), None);
            assert_eq!(s.keep_alive(), None);
            assert_eq!(s.hop_limit(), None);
        }
    }
}

#[test]
fn a_connection_that_is_not_answered_times_out() {
    let mut net = Net::new();
    let (woken, w) = counter();
    let mut socket = net.tcp(64, 64);
    socket.set_timeout(&mut net.stack, Some(100_000));
    let nobody = Endpoint {
        addr: IpAddress::Ipv4([127, 0, 0, 9]),
        port: 80,
    };
    assert_eq!(socket.connect(&mut net.stack, nobody), Ok(()));
    assert_eq!(
        socket.poll_connect(&mut net.stack, &w, 0),
        Poll::Pending
    );
    let silent = net.pump_until_woken(&woken);
    assert!(silent >= 100_000);
    assert_eq!(
        socket.poll_connect(&mut net.stack, &w, silent),
        Poll::Ready(Err(ConnectError::TimedOut))
    );
}

#[test]
fn a_rejected_connection_is_reset_however_late_it_is_looked_at() {
    let mut net = Net::new();
    let (woken, w) = counter();
    let mut socket = net.tcp(64, 64);
    socket.set_timeout(&mut net.stack, Some(100_000));
    assert_eq!(socket.connect(&mut net.stack, at(80)), Ok(()));
    assert_eq!(socket.poll_connect(&mut net.stack, &w, 0), Poll::Pending);
    // The RST ends the silence within the timeout.
    let silent = net.pump_until_woken(&woken);
    assert!(silent < 100_000);
    net.pump();
    assert_eq!(
        socket.poll_connect(&mut net.stack, &w, silent),
        Poll::Ready(Err(ConnectError::ConnectionReset))
    );
}

#[test]
fn a_rejected_connection_without_a_timeout_is_reset() {
    let mut net = Net::new();
    let (_, w) = counter();
    let mut socket = net.tcp(64, 64);
    assert_eq!(socket.connect(&mut net.stack, at(80)), Ok(()));
    net.pump();
    assert_eq!(
        socket.poll_connect(&mut net.stack, &w, u64::MAX),
        Poll::Ready(Err(ConnectError::ConnectionReset))
    );
}

#[test]
fn a_connection_that_is_reset_before_it_is_accepted() {
    let mut net = Net::new();
    let (_, w) = counter();
    let mut server = net.tcp(64, 64);
    let mut client = net.tcp(64, 64);
    assert_eq!(server.accept(&mut net.stack, port(80)), Ok(()));
    assert_eq!(client.connect(&mut net.stack, at(80)), Ok(()));
    net.pump();
    client.abort(&mut net.stack);
    net.pump();
    assert_eq!(server.state(&net.stack), State::Closed);
    assert_eq!(
        server.poll_accept(&mut net.stack, &w, 0),
        Poll::Ready(Err(AcceptError::ConnectionReset))
    );
}

#[test]
fn a_connection_that_goes_silent_before_it_is_made_counts_as_accepted() {
    let mut net = Net::new();
    let (woken, w) = counter();
    let mut server = net.tcp(64, 64);
    server.set_timeout(&mut net.stack, Some(100_000));
    assert_eq!(server.accept(&mut net.stack, port(80)), Ok(()));
    assert_eq!(server.poll_accept(&mut net.stack, &w, 0), Poll::Pending);
    net.request_from_nobody(80);
    net.step();
    assert_eq!(server.state(&net.stack), State::SynReceived);
    assert_eq!(count(&woken), 1);
    assert_eq!(server.poll_accept(&mut net.stack, &w, 0), Poll::Pending);
    let silent = net.silence_until_woken(&woken);
    assert!(silent >= 100_000);
    assert_eq!(server.state(&net.stack), State::Closed);
    assert_eq!(
        server.poll_accept(&mut net.stack, &w, silent),
        Poll::Ready(Ok(()))
    );
}

#[test]
fn each_buffer_serves_its_direction() {
    let mut net = Net::new();
    let _tcp = net.tcp(10, 20);
    let _udp = UdpSocket::new(
        &mut net.stack,
        vec![PacketMetadata::EMPTY; 1],
        vec![0; 11],
        vec![PacketMetadata::EMPTY; 2],
        vec![0; 22],
    );
    let mut tx: Pool<[u8; 30], 1> = Pool::new();
    let mut rx: Pool<[u8; 40], 1> = Pool::new();
    let _connection = TcpConnection::new(&mut net.stack, &mut tx, &mut rx)
        .unwrap_or_else(|_| panic!("there is room"));
    let mut tcp = Vec::new();
    let mut udp = Vec::new();
    for (_, s) in net.stack.set_ref().iter() {
        match s {
            Socket::Tcp(s) => tcp.push((s.recv_capacity(), s.send_capacity())),
            Socket::Udp(s) => udp.push((
                s.packet_recv_capacity(),
                s.payload_recv_capacity(),
                s.packet_send_capacity(),
                s.payload_send_capacity(),
            )),
        }
    }
    assert_eq!(tcp, vec![(10, 20), (40, 30)]);
    assert_eq!(udp, vec![(1, 11, 2, 22)]);
}

#[test]
fn removed_sockets_are_gone() {
    let mut net = Net::new();
    let first = net.tcp(64, 64);
    let second = net.udp(1, 16);
    assert_eq!(net.stack.set_ref().iter().count(), 2);
    first.remove(&mut net.stack);
    assert_eq!(net.stack.set_ref().iter().count(), 1);
    assert!(!second.is_open(&net.stack));
    second.remove(&mut net.stack);
    assert_eq!(net.stack.set_ref().iter().count(), 0);
}

#[test]
fn every_state_of_a_connection_has_an_outcome() {
    let reset = Poll::Ready(Err(ConnectError::ConnectionReset));
    let timed_out = Poll::Ready(Err(ConnectError::TimedOut));
    assert_eq!(tcp::connect_progress(State::Closed, None, u64::MAX), reset);
    assert_eq!(tcp::connect_progress(State::Closed, Some(5), 4), reset);
    assert_eq!(tcp::connect_progress(State::Closed, Some(5), 5), timed_out);
    assert_eq!(tcp::connect_progress(State::Closed, Some(5), 6), timed_out);
    assert_eq!(tcp::connect_progress(State::TimeWait, Some(5), 6), reset);
    assert_eq!(
        tcp::connect_progress(State::SynSent, Some(5), 6),
        Poll::Pending
    );
    assert_eq!(
        tcp::connect_progress(State::SynReceived, None, 0),
        Poll::Pending
    );
    let rejected = Poll::Ready(Err(AcceptError::ConnectionReset));
    let accepted = Poll::Ready(Ok(()));
    for state in [State::Listen, State::SynSent, State::SynReceived] {
        assert_eq!(tcp::accept_progress(state, Some(5), 6), Poll::Pending);
    }
    assert_eq!(tcp::accept_progress(State::Closed, None, u64::MAX), rejected);
    assert_eq!(tcp::accept_progress(State::Closed, Some(5), 4), rejected);
    assert_eq!(tcp::accept_progress(State::Closed, Some(5), 5), accepted);
    assert_eq!(tcp::accept_progress(State::TimeWait, None, 0), accepted);
    for state in [
        State::Established,
        State::FinWait1,
        State::FinWait2,
        State::CloseWait,
        State::Closing,
        State::LastAck,
    ] {
        assert_eq!(
            tcp::connect_progress(state, Some(5), 6),
            Poll::Ready(Ok(()))
        );
        assert_eq!(tcp::accept_progress(state, None, 0), accepted);
    }
}

#[test]
fn outcomes_of_moving_bytes() {
    let reset = Poll::Ready(Err(tcp::Error::ConnectionReset));
    assert_eq!(tcp::read_progress(Ok(0)), Poll::Pending);
    assert_eq!(tcp::read_progress(Ok(7)), Poll::Ready(Ok(7)));
    assert_eq!(tcp::read_progress(Err(NoBytes::Finished)), Poll::Ready(Ok(0)));
    assert_eq!(tcp::read_progress(Err(NoBytes::InvalidState)), reset);
    assert_eq!(tcp::write_progress(Some(0)), Poll::Pending);
    assert_eq!(tcp::write_progress(Some(7)), Poll::Ready(Ok(7)));
    assert_eq!(tcp::write_progress(None), reset);
    assert_eq!(udp::send_progress(Ok(())), Poll::Ready(Ok(())));
    assert_eq!(udp::send_progress(Err(NotTaken::BufferFull)), Poll::Pending);
    assert_eq!(
        udp::send_progress(Err(NotTaken::Unaddressable)),
        Poll::Ready(Err(udp::Error::NoRoute))
    );
}

#[test]
fn refusals_by_cause() {
    assert_eq!(
        tcp::connect_error(Refused::InvalidState),
        ConnectError::InvalidState
    );
    assert_eq!(
        tcp::connect_error(Refused::Unaddressable),
        ConnectError::NoRoute
    );
    assert_eq!(
        tcp::accept_error(Refused::InvalidState),
        AcceptError::InvalidState
    );
    assert_eq!(
        tcp::accept_error(Refused::Unaddressable),
        AcceptError::InvalidPort
    );
    assert_eq!(
        udp::bind_error(Refused::InvalidState),
        BindError::InvalidState
    );
    assert_eq!(udp::bind_error(Refused::Unaddressable), BindError::NoRoute);
}

#[test]
fn slots_are_lent_in_order() {
    let mut pool: Pool<[u8; 8], 3> = Pool::new();
    assert_eq!(pool.allocate(), Some(0));
    assert_eq!(pool.allocate(), Some(1));
    assert_eq!(pool.allocate(), Some(2));
    assert_eq!(pool.allocate(), None);
    pool.free(1);
    assert_eq!(pool.allocate(), Some(1));
    assert_eq!(pool.allocate(), None);
    pool.free(2);
    pool.free(0);
    assert_eq!(pool.allocate(), Some(0));
    assert_eq!(pool.allocate(), Some(2));
}

#[test]
fn a_pool_without_slots_lends_nothing() {
    let mut pool: Pool<u8, 0> = Pool::new();
    assert_eq!(pool.allocate(), None);
}

#[test]
fn a_client_connects_and_talks() {
    let mut net = Net::new();
    let (_, w) = counter();
    let mut server = net.tcp(64, 64);
    assert_eq!(server.accept(&mut net.stack, port(80)), Ok(()));
    let mut client: TcpClient<1, 16, 32> = TcpClient::new(Pool::new(), Pool::new());
    let c = client.connect(&mut net.stack, at(80)).unwrap_or_else(|_| panic!("refused"));
    assert!(matches!(
        client.connect(&mut net.stack, at(80)),
        Err(ClientError::OutOfMemory)
    ));
    let c = match client.poll_connect(&mut net.stack, c, &w, 0) {
        Connecting::Waiting(c) => c,
        _ => panic!("too early"),
    };
    net.pump();
    let mut c = match client.poll_connect(&mut net.stack, c, &w, 0) {
        Connecting::Connected(c) => c,
        _ => panic!("not connected"),
    };
    assert_eq!(c.write(&mut net.stack, &w, &[5; 20]), Poll::Ready(Ok(16)));
    assert_eq!(c.flush(), Poll::Ready(Ok(())));
    net.pump();
    let mut buf = [0; 20];
    assert_eq!(server.read(&mut net.stack, &w, &mut buf), Poll::Ready(Ok(16)));
    assert_eq!(server.write(&mut net.stack, &w, &[6]), Poll::Ready(Ok(1)));
    net.pump();
    assert_eq!(c.read(&mut net.stack, &w, &mut buf), Poll::Ready(Ok(1)));
    assert_eq!(buf[0], 6);
    c.release(&mut net.stack, &mut client.tx, &mut client.rx);
    assert_eq!(net.stack.set_ref().iter().count(), 1);
    assert_eq!(client.tx.allocate(), Some(0));
    assert_eq!(client.rx.allocate(), Some(0));
}

#[test]
fn a_client_gives_back_what_a_failed_connection_held() {
    let mut net = Net::new();
    let (_, w) = counter();
    let mut client: TcpClient<1, 16, 16> = TcpClient::new(Pool::new(), Pool::new());
    assert!(matches!(
        client.connect(&mut net.stack, at(0)),
        Err(ClientError::Tcp(tcp::Error::ConnectionReset))
    ));
    assert_eq!(net.stack.set_ref().iter().count(), 0);
    let c = client.connect(&mut net.stack, at(80)).unwrap_or_else(|_| panic!("refused"));
    net.pump();
    assert!(matches!(
        client.poll_connect(&mut net.stack, c, &w, 0),
        Connecting::Failed(ClientError::Tcp(tcp::Error::ConnectionReset))
    ));
    assert_eq!(net.stack.set_ref().iter().count(), 0);
    assert!(client.connect(&mut net.stack, at(80)).is_ok());
}

#[test]
fn a_connection_without_a_receive_buffer_keeps_the_other_slot() {
    let mut net = Net::new();
    let mut tx: Pool<[u8; 4], 2> = Pool::new();
    let mut rx: Pool<[u8; 4], 2> = Pool::new();
    assert_eq!(rx.allocate(), Some(0));
    assert_eq!(rx.allocate(), Some(1));
    assert!(matches!(
        TcpConnection::new(&mut net.stack, &mut tx, &mut rx),
        Err(ClientError::OutOfMemory)
    ));
    assert_eq!(tx.allocate(), Some(1));
    rx.free(1);
    assert!(matches!(
        TcpConnection::new(&mut net.stack, &mut tx, &mut rx),
        Err(ClientError::OutOfMemory)
    ));
    tx.free(0);
    let mut c = TcpConnection::new(&mut net.stack, &mut tx, &mut rx)
        .unwrap_or_else(|_| panic!("there is room"));
    assert_eq!(c.connect(&mut net.stack, at(80)), Ok(()));
    assert_eq!(
        c.connect(&mut net.stack, at(80)),
        Err(ConnectError::InvalidState)
    );
}

#[test]
fn client_errors_keep_their_cause() {
    assert!(matches!(
        ClientError::from(ConnectError::TimedOut),
        ClientError::Connect(ConnectError::TimedOut)
    ));
    assert!(matches!(
        ClientError::from(tcp::Error::ConnectionReset),
        ClientError::Tcp(tcp::Error::ConnectionReset)
    ));
}

#[test]
fn binding() {
    let mut net = Net::new();
    let mut socket = net.udp(2, 16);
    assert!(!socket.is_open(&net.stack));
    assert_eq!(socket.endpoint(&net.stack), port(0));
    assert_eq!(socket.bind(&mut net.stack, port(53)), Ok(()));
    assert_eq!(socket.endpoint(&net.stack), port(53));
    assert!(socket.is_open(&net.stack));
    assert_eq!(
        socket.bind(&mut net.stack, port(54)),
        Err(BindError::InvalidState)
    );
    assert_eq!(net.stack.get_local_port(), 50000);
    assert_eq!(
        socket.bind(&mut net.stack, port(0)),
        Err(BindError::InvalidState)
    );
    assert_eq!(net.stack.get_local_port(), 50002);
    socket.close(&mut net.stack);
    assert_eq!(socket.endpoint(&net.stack), port(0));
    let local = ListenEndpoint {
        addr: Some(HERE),
        port: 0,
    };
    assert_eq!(socket.bind(&mut net.stack, local), Ok(()));
    assert_eq!(
        socket.endpoint(&net.stack),
        ListenEndpoint {
            addr: Some(HERE),
            port: 50003
        }
    );
}

#[test]
fn datagrams_arrive_in_order() {
    let mut net = Net::new();
    let (_, w) = counter();
    let mut sender = net.udp(4, 64);
    let mut receiver = net.udp(4, 64);
    assert_eq!(sender.bind(&mut net.stack, port(1)), Ok(()));
    assert_eq!(receiver.bind(&mut net.stack, port(2)), Ok(()));
    assert!(!receiver.may_recv(&net.stack));
    assert!(sender.may_send(&net.stack));
    assert_eq!(
        sender.send_to(&mut net.stack, &w, &[1, 2, 3], at(2)),
        Poll::Ready(Ok(()))
    );
    assert_eq!(
        sender.send_to(&mut net.stack, &w, &[4, 5], at(2)),
        Poll::Ready(Ok(()))
    );
    net.pump();
    assert!(receiver.may_recv(&net.stack));
    let mut buf = [9; 2];
    assert_eq!(
        receiver.recv_from(&mut net.stack, &w, &mut buf),
        Poll::Ready(Ok((2, at(1))))
    );
    assert_eq!(buf, [1, 2]);
    let mut buf = [9; 3];
    assert_eq!(
        receiver.recv_from(&mut net.stack, &w, &mut buf),
        Poll::Ready(Ok((2, at(1))))
    );
    assert_eq!(buf, [4, 5, 9]);
    assert!(!receiver.may_recv(&net.stack));
}

#[test]
fn waiting_for_a_datagram_asks_again_at_once() {
    let mut net = Net::new();
    let (_, runner) = counter();
    let (_, w) = counter();
    let mut socket = net.udp(1, 8);
    assert_eq!(socket.bind(&mut net.stack, port(1)), Ok(()));
    net.stack.register(runner.clone());
    assert_eq!(
        socket.recv_from(&mut net.stack, &w, &mut [0; 1]),
        Poll::Pending
    );
    let due = net.stack.take_due();
    assert_eq!(due.len(), 2);
    assert!(due[0].will_wake(&w));
    assert!(due[1].will_wake(&runner));
}

#[test]
fn a_full_datagram_buffer_is_waited_for() {
    let mut net = Net::new();
    let (woken, w) = counter();
    let mut socket = net.udp(1, 8);
    assert_eq!(
        socket.send_to(&mut net.stack, &w, &[1], at(2)),
        Poll::Ready(Err(udp::Error::NoRoute))
    );
    assert_eq!(socket.bind(&mut net.stack, port(1)), Ok(()));
    assert_eq!(
        socket.send_to(&mut net.stack, &w, &[1], at(0)),
        Poll::Ready(Err(udp::Error::NoRoute))
    );
    let partly = Endpoint {
        addr: IpAddress::Ipv4([0, 1, 2, 3]),
        port: 2,
    };
    assert_eq!(
        socket.send_to(&mut net.stack, &w, &[1], partly),
        Poll::Ready(Err(udp::Error::NoRoute))
    );
    // Larger than the buffer: it never fits.
    assert_eq!(
        socket.send_to(&mut net.stack, &w, &[0; 9], at(2)),
        Poll::Pending
    );
    assert_eq!(
        socket.send_to(&mut net.stack, &w, &[0; 8], at(2)),
        Poll::Ready(Ok(()))
    );
    assert!(!socket.may_send(&net.stack));
    assert_eq!(socket.send_to(&mut net.stack, &w, &[], at(2)), Poll::Pending);
    assert_eq!(count(&woken), 0);
    net.pump();
    assert_eq!(count(&woken), 1);
    assert!(socket.may_send(&net.stack));
    assert_eq!(
        socket.send_to(&mut net.stack, &w, &[], at(2)),
        Poll::Ready(Ok(()))
    );
    socket.close(&mut net.stack);
    assert!(socket.may_send(&net.stack));
}

#[test]
fn a_datagram_leaves_the_rest_of_an_empty_buffer() {
    let mut net = Net::new();
    let (_, w) = counter();
    let mut socket = net.udp(3, 8);
    assert_eq!(socket.bind(&mut net.stack, port(1)), Ok(()));
    assert_eq!(
        socket.send_to(&mut net.stack, &w, &[], at(2)),
        Poll::Ready(Ok(()))
    );
    assert_eq!(
        socket.send_to(&mut net.stack, &w, &[0; 3], at(2)),
        Poll::Ready(Ok(()))
    );
    assert_eq!(
        socket.send_to(&mut net.stack, &w, &[0; 6], at(2)),
        Poll::Pending
    );
    assert_eq!(
        socket.send_to(&mut net.stack, &w, &[0; 5], at(2)),
        Poll::Ready(Ok(()))
    );
    assert!(!socket.may_send(&net.stack));
}

#[test]
fn a_datagram_starts_over_at_the_front_of_the_buffer() {
    let mut net = Net::new();
    let (_, w) = counter();
    let mut socket = net.udp(4, 8);
    assert_eq!(socket.bind(&mut net.stack, port(1)), Ok(()));
    for size in [5, 2] {
        assert_eq!(
            socket.send_to(&mut net.stack, &w, &vec![0; size], at(2)),
            Poll::Ready(Ok(()))
        );
    }
    net.send_packets(1);
    // Five bytes are free at the front, and one behind the contents, which becomes padding.
    assert_eq!(
        socket.send_to(&mut net.stack, &w, &[0; 6], at(2)),
        Poll::Pending
    );
    assert_eq!(
        socket.send_to(&mut net.stack, &w, &[0; 4], at(2)),
        Poll::Ready(Ok(()))
    );
    assert_eq!(
        socket.send_to(&mut net.stack, &w, &[0; 2], at(2)),
        Poll::Pending
    );
    assert!(socket.may_send(&net.stack));
    assert_eq!(
        socket.send_to(&mut net.stack, &w, &[0; 1], at(2)),
        Poll::Ready(Ok(()))
    );
    assert!(!socket.may_send(&net.stack));
}

#[test]
fn padding_uses_up_the_last_description() {
    let mut net = Net::new();
    let (_, w) = counter();
    let mut socket = net.udp(2, 8);
    assert_eq!(socket.bind(&mut net.stack, port(1)), Ok(()));
    for size in [5, 2] {
        assert_eq!(
            socket.send_to(&mut net.stack, &w, &vec![0; size], at(2)),
            Poll::Ready(Ok(()))
        );
    }
    net.send_packets(1);
    assert!(socket.may_send(&net.stack));
    assert_eq!(
        socket.send_to(&mut net.stack, &w, &[0; 4], at(2)),
        Poll::Pending
    );
    assert!(!socket.may_send(&net.stack));
    assert_eq!(
        socket.send_to(&mut net.stack, &w, &[], at(2)),
        Poll::Pending
    );
    net.send_packets(1);
    assert!(socket.may_send(&net.stack));
}

#[test]
fn datagrams_fill_the_buffer() {
    let mut net = Net::new();
    let (_, w) = counter();
    let mut socket = net.udp(4, 8);
    assert_eq!(socket.bind(&mut net.stack, port(1)), Ok(()));
    for size in [3, 3] {
        assert_eq!(
            socket.send_to(&mut net.stack, &w, &vec![0; size], at(2)),
            Poll::Ready(Ok(()))
        );
    }
    // Two bytes are left behind the contents, and none in front.
    assert_eq!(
        socket.send_to(&mut net.stack, &w, &[0; 3], at(2)),
        Poll::Pending
    );
    assert_eq!(
        socket.send_to(&mut net.stack, &w, &[0; 2], at(2)),
        Poll::Ready(Ok(()))
    );
    assert!(socket.may_send(&net.stack));
    assert_eq!(
        socket.send_to(&mut net.stack, &w, &[], at(2)),
        Poll::Ready(Ok(()))
    );
    assert!(!socket.may_send(&net.stack));
}

#[test]
fn a_socket_without_descriptions_sends_nothing() {
    let mut net = Net::new();
    let (_, w) = counter();
    let mut socket = net.udp(0, 8);
    assert!(!socket.may_send(&net.stack));
    assert_eq!(socket.bind(&mut net.stack, port(1)), Ok(()));
    assert_eq!(socket.send_to(&mut net.stack, &w, &[], at(2)), Poll::Pending);
}
