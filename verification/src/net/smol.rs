//! The calls into the TCP/IP implementation.

use crate::net::wire::{Endpoint, IpAddress, ListenEndpoint};
use core::task::Waker;
use smoltcp::iface::{Interface, SocketHandle, SocketSet};
use smoltcp::socket::{tcp, udp};
use smoltcp::time::Duration;
use smoltcp::wire;
use vstd::prelude::*;

#[allow(unused_imports)]
use crate::net::wire::{source_address, unbound};

verus! {

/// A set of sockets.
#[verifier::external_type_specification]
#[verifier::external_body]
pub struct ExSocketSet<'a>(smoltcp::iface::SocketSet<'a>);

/// A handle of a socket in a set.
#[verifier::external_type_specification]
#[verifier::external_body]
pub struct ExSocketHandle(smoltcp::iface::SocketHandle);

/// A network interface.
#[verifier::external_type_specification]
#[verifier::external_body]
pub struct ExInterface(smoltcp::iface::Interface);

/// A place for the description of a datagram.
#[verifier::external_type_specification]
#[verifier::external_body]
#[verifier::reject_recursive_types(H)]
pub struct ExPacketMetadata<H>(smoltcp::storage::PacketMetadata<H>);

/// An endpoint, in the form that descriptions of datagrams hold it in.
#[verifier::external_type_specification]
#[verifier::external_body]
pub struct ExIpEndpoint(smoltcp::wire::IpEndpoint);

/// What a task is woken with. Two wakers of the same task are the same value here.
#[verifier::external_type_specification]
#[verifier::external_body]
pub struct ExWaker(core::task::Waker);

/// The state of a TCP connection.
#[derive(Clone, Copy, Debug, PartialEq, Eq, Structural)]
pub enum State {
    Closed,
    Listen,
    SynSent,
    SynReceived,
    Established,
    FinWait1,
    FinWait2,
    CloseWait,
    Closing,
    LastAck,
    TimeWait,
}

/// What a TCP socket holds.
pub struct TcpView {
    pub state: State,
    /// The bytes that were received and not yet taken.
    pub rx: Seq<u8>,
    /// The bytes that were accepted for sending and not yet acknowledged.
    pub tx: Seq<u8>,
    /// How many received bytes the socket can hold.
    pub rx_capacity: nat,
    /// How many bytes the socket can hold for sending.
    pub tx_capacity: nat,
    /// Whether the remote end has closed its half of the connection.
    pub fin_received: bool,
    /// In microseconds.
    pub timeout: Option<u64>,
    /// In microseconds.
    pub keep_alive: Option<u64>,
    pub hop_limit: Option<u8>,
    pub listen: ListenEndpoint,
    pub local: Option<Endpoint>,
    pub remote: Option<Endpoint>,
    pub recv_waker: Option<Waker>,
    pub send_waker: Option<Waker>,
}

/// What a UDP socket holds: datagrams with the endpoints that they came from or go to.
pub struct UdpView {
    pub endpoint: ListenEndpoint,
    pub rx: Seq<(Seq<u8>, Endpoint)>,
    pub tx: Seq<(Seq<u8>, Endpoint)>,
    /// How many datagrams the receive buffer takes when it is empty.
    pub rx_slots: nat,
    /// How many bytes the receive buffer takes when it is empty.
    pub rx_bytes: nat,
    /// How many datagrams the transmit buffer takes when it is empty.
    pub tx_slots: nat,
    /// How many bytes the transmit buffer takes when it is empty.
    pub tx_bytes: nat,
    /// Where in the transmit buffer its contents start.
    pub tx_at: nat,
    /// How many bytes of the transmit buffer are in use. A datagram that does not fit behind the
    /// contents starts over at the front of the buffer, and the bytes in between are padding, which
    /// counts as in use and has a description of its own.
    pub tx_used: nat,
    /// How many descriptions of the transmit buffer are in use.
    pub tx_entries: nat,
    /// Whether padding stands behind the last received datagram.
    pub rx_padding: bool,
    pub recv_waker: Option<Waker>,
    pub send_waker: Option<Waker>,
}

/// What a socket holds.
pub enum SocketView {
    Tcp(TcpView),
    Udp(UdpView),
}

/// The sockets in a set, by their handles.
pub uninterp spec fn sockets(set: SocketSet<'static>) -> Map<SocketHandle, SocketView>;

/// Whether a set makes room for further sockets as needed.
pub uninterp spec fn growable(set: SocketSet<'static>) -> bool;

/// The addresses of an interface.
pub uninterp spec fn addresses(iface: Interface) -> Seq<IpAddress>;

/// Calls `core::task::Waker::clone`.
///
/// Trusted: the clone wakes the same task.
#[verifier::external_body]
pub(crate) fn waker_clone(waker: &Waker) -> (r: Waker)
    ensures
        r == *waker,
{
    waker.clone()
}

/// Calls `smoltcp::iface::SocketSet::new` on an empty vector.
///
/// Trusted: the set is empty, and a set over a vector grows.
#[verifier::external_body]
pub(crate) fn set_new() -> (r: SocketSet<'static>)
    ensures
        sockets(r).dom() == Set::<SocketHandle>::empty(),
        growable(r),
{
    SocketSet::new(Vec::new())
}

/// The TCP socket behind a handle.
pub open spec fn tcp_at(set: SocketSet<'static>, handle: SocketHandle) -> TcpView {
    sockets(set)[handle]->Tcp_0
}

/// Whether a handle refers to a TCP socket.
pub open spec fn is_tcp(set: SocketSet<'static>, handle: SocketHandle) -> bool {
    sockets(set).dom().contains(handle) && sockets(set)[handle] is Tcp
}

/// Whether `after` is `before` with a TCP socket put in the place of the one behind a handle.
pub open spec fn tcp_replaced(
    before: SocketSet<'static>,
    after: SocketSet<'static>,
    handle: SocketHandle,
    socket: TcpView,
) -> bool {
    sockets(after) == sockets(before).insert(handle, SocketView::Tcp(socket)) && growable(after)
        == growable(before)
}

/// A set holds each of its TCP sockets, and putting a socket in place of another twice leaves the
/// one that came last.
pub proof fn lemma_tcp_replaced(
    a: SocketSet<'static>,
    b: SocketSet<'static>,
    c: SocketSet<'static>,
    handle: SocketHandle,
    first: TcpView,
    second: TcpView,
)
    requires
        is_tcp(a, handle),
    ensures
        tcp_replaced(a, a, handle, tcp_at(a, handle)),
        tcp_replaced(a, b, handle, first) && tcp_replaced(b, c, handle, second) ==> tcp_replaced(
            a,
            c,
            handle,
            second,
        ),
{
    assert(sockets(a).insert(handle, SocketView::Tcp(tcp_at(a, handle))) =~= sockets(a));
    assert(sockets(a).insert(handle, SocketView::Tcp(first)).insert(
        handle,
        SocketView::Tcp(second),
    ) =~= sockets(a).insert(handle, SocketView::Tcp(second)));
}

/// The UDP socket behind a handle.
pub open spec fn udp_at(set: SocketSet<'static>, handle: SocketHandle) -> UdpView {
    sockets(set)[handle]->Udp_0
}

/// Whether a handle refers to a UDP socket.
pub open spec fn is_udp(set: SocketSet<'static>, handle: SocketHandle) -> bool {
    sockets(set).dom().contains(handle) && sockets(set)[handle] is Udp
}

/// Whether `after` is `before` with a UDP socket put in the place of the one behind a handle.
pub open spec fn udp_replaced(
    before: SocketSet<'static>,
    after: SocketSet<'static>,
    handle: SocketHandle,
    socket: UdpView,
) -> bool {
    sockets(after) == sockets(before).insert(handle, SocketView::Udp(socket)) && growable(after)
        == growable(before)
}

/// A set holds each of its UDP sockets, and putting a socket in place of another twice leaves the
/// one that came last.
pub proof fn lemma_udp_replaced(
    a: SocketSet<'static>,
    b: SocketSet<'static>,
    c: SocketSet<'static>,
    handle: SocketHandle,
    first: UdpView,
    second: UdpView,
)
    requires
        is_udp(a, handle),
    ensures
        udp_replaced(a, a, handle, udp_at(a, handle)),
        udp_replaced(a, b, handle, first) && udp_replaced(b, c, handle, second) ==> udp_replaced(
            a,
            c,
            handle,
            second,
        ),
{
    assert(sockets(a).insert(handle, SocketView::Udp(udp_at(a, handle))) =~= sockets(a));
    assert(sockets(a).insert(handle, SocketView::Udp(first)).insert(
        handle,
        SocketView::Udp(second),
    ) =~= sockets(a).insert(handle, SocketView::Udp(second)));
}

/// Whether a socket takes part in the protocol.
pub open spec fn is_open(state: State) -> bool {
    state != State::Closed && state != State::TimeWait
}

/// Whether the transmit half of a connection is open.
pub open spec fn may_send(s: TcpView) -> bool {
    s.state == State::Established || s.state == State::CloseWait
}

/// Whether the receive half of a connection is open or has left bytes behind.
pub open spec fn may_recv(s: TcpView) -> bool {
    s.state == State::Established || s.state == State::FinWait1 || s.state == State::FinWait2
        || s.rx.len() > 0
}

/// A new TCP socket.
pub open spec fn tcp_fresh(rx_capacity: nat, tx_capacity: nat) -> TcpView {
    TcpView {
        state: State::Closed,
        rx: Seq::empty(),
        tx: Seq::empty(),
        rx_capacity,
        tx_capacity,
        fin_received: false,
        timeout: None,
        keep_alive: None,
        hop_limit: None,
        listen: unbound(),
        local: None,
        remote: None,
        recv_waker: None,
        send_waker: None,
    }
}

/// A socket back in its first state; the settings stay.
pub open spec fn tcp_reset(s: TcpView) -> TcpView {
    TcpView {
        timeout: s.timeout,
        keep_alive: s.keep_alive,
        hop_limit: s.hop_limit,
        ..tcp_fresh(s.rx_capacity, s.tx_capacity)
    }
}

/// A socket that moved to a state, with the waiting tasks woken.
pub open spec fn tcp_moved(s: TcpView, state: State) -> TcpView {
    TcpView { state, recv_waker: None, send_waker: None, ..s }
}

/// A socket whose transmit half was closed.
pub open spec fn tcp_closed(s: TcpView) -> TcpView {
    match s.state {
        State::Listen | State::SynSent => tcp_moved(s, State::Closed),
        State::SynReceived | State::Established => tcp_moved(s, State::FinWait1),
        State::CloseWait => tcp_moved(s, State::LastAck),
        _ => s,
    }
}

/// Whether a TCP socket holds no more than it can, and has a closed receive half once the remote
/// end has closed its own.
pub open spec fn tcp_sound(s: TcpView) -> bool {
    &&& s.rx.len() <= s.rx_capacity
    &&& s.tx.len() <= s.tx_capacity
    &&& s.fin_received ==> s.state != State::Established && s.state != State::FinWait1 && s.state
        != State::FinWait2
}

/// Whether a UDP socket uses no more of its transmit buffer than there is.
pub open spec fn udp_sound(s: UdpView) -> bool {
    &&& s.tx_used <= s.tx_bytes
    &&& s.tx_entries <= s.tx_slots
    &&& s.tx_at < s.tx_bytes || s.tx_at == 0
}

/// How many bytes are free in a row behind the contents of the transmit buffer. An empty buffer is
/// filled from its front.
pub open spec fn room_behind(s: UdpView) -> int {
    if s.tx_used == 0 {
        s.tx_bytes as int
    } else {
        shorter(s.tx_bytes - s.tx_used, s.tx_bytes - (s.tx_at + s.tx_used) % s.tx_bytes)
    }
}

/// How many more bytes are free at the front of the transmit buffer.
pub open spec fn room_in_front(s: UdpView) -> int {
    s.tx_bytes - s.tx_used - room_behind(s)
}

/// Whether the transmit buffer takes a datagram of `size` bytes: behind its contents, or at its
/// front, for which the padding in between needs a description too.
pub open spec fn fits(s: UdpView, size: nat) -> bool {
    ||| s.tx_entries < s.tx_slots && size <= room_behind(s)
    ||| s.tx_entries + 1 < s.tx_slots && size <= room_in_front(s)
}

/// A socket whose transmit buffer took a datagram.
pub open spec fn udp_took(s: UdpView, datagram: Seq<u8>, remote: Endpoint) -> UdpView {
    let size = datagram.len();
    let s = UdpView { tx: s.tx.push((datagram, remote)), ..s };
    if s.tx_used == 0 {
        UdpView { tx_at: 0, tx_used: size, tx_entries: s.tx_entries + 1, ..s }
    } else if size <= room_behind(s) {
        UdpView { tx_used: s.tx_used + size, tx_entries: s.tx_entries + 1, ..s }
    } else {
        UdpView {
            tx_used: (s.tx_used + room_behind(s) + size) as nat,
            tx_entries: s.tx_entries + 2,
            ..s
        }
    }
}

/// A socket whose transmit buffer did not take a datagram of `size` bytes. Where only a description
/// was missing for it to stand at the front, the padding was put in place.
pub open spec fn udp_full(s: UdpView, size: nat) -> UdpView {
    if s.tx_entries < s.tx_slots && room_behind(s) < size <= room_in_front(s) {
        UdpView {
            tx_used: (s.tx_used + room_behind(s)) as nat,
            tx_entries: s.tx_entries + 1,
            ..s
        }
    } else {
        s
    }
}

/// Whether the receive buffer holds datagrams, or padding that datagrams left behind.
pub open spec fn receivable(s: UdpView) -> bool {
    s.rx.len() > 0 || s.rx_padding
}

/// A new UDP socket.
pub open spec fn udp_fresh(rx_slots: nat, rx_bytes: nat, tx_slots: nat, tx_bytes: nat) -> UdpView {
    UdpView {
        endpoint: unbound(),
        rx: Seq::empty(),
        tx: Seq::empty(),
        rx_slots,
        rx_bytes,
        tx_slots,
        tx_bytes,
        tx_at: 0,
        tx_used: 0,
        tx_entries: 0,
        rx_padding: false,
        recv_waker: None,
        send_waker: None,
    }
}

/// A socket that was unbound and lost its datagrams.
pub open spec fn udp_emptied(s: UdpView) -> UdpView {
    udp_fresh(s.rx_slots, s.rx_bytes, s.tx_slots, s.tx_bytes)
}

/// The smaller of two lengths.
pub open spec fn shorter(a: int, b: int) -> int {
    if a <= b {
        a
    } else {
        b
    }
}

/// A buffer after bytes were copied to its front.
pub open spec fn overwritten(buf: Seq<u8>, bytes: Seq<u8>) -> Seq<u8> {
    bytes + buf.skip(bytes.len() as int)
}

/// Why a socket refused to connect, to listen or to be bound.
#[derive(Clone, Copy, Debug, PartialEq, Eq, Structural)]
pub enum Refused {
    /// The socket is open.
    InvalidState,
    /// An endpoint is incomplete or cannot be reached.
    Unaddressable,
}

/// Why a TCP socket has no bytes to give.
#[derive(Clone, Copy, Debug, PartialEq, Eq, Structural)]
pub enum NoBytes {
    /// The remote end has closed its half of the connection.
    Finished,
    /// There is no connection.
    InvalidState,
}

/// Why a UDP socket did not take a datagram.
#[derive(Clone, Copy, Debug, PartialEq, Eq, Structural)]
pub enum NotTaken {
    /// The socket is not bound, or the remote endpoint is incomplete.
    Unaddressable,
    /// The transmit buffer has no room.
    BufferFull,
}

/// Calls `smoltcp::iface::SocketSet::remove`.
///
/// Trusted: the socket leaves the set.
#[verifier::external_body]
pub(crate) fn set_remove(set: &mut SocketSet<'static>, handle: SocketHandle)
    requires
        sockets(*old(set)).dom().contains(handle),
    ensures
        sockets(*final(set)) == sockets(*old(set)).remove(handle),
        growable(*final(set)) == growable(*old(set)),
{
    set.remove(handle);
}

/// Calls `smoltcp::socket::tcp::Socket::new` and `smoltcp::iface::SocketSet::add`.
///
/// Trusted: a set that grows takes the new socket under a handle that was not in use, and the
/// socket uses each buffer for its own direction. A receive buffer of more than one gibibyte is not
/// allowed.
#[verifier::external_body]
pub(crate) fn tcp_add(
    set: &mut SocketSet<'static>,
    rx_buffer: Vec<u8>,
    tx_buffer: Vec<u8>,
) -> (r: SocketHandle)
    requires
        growable(*old(set)),
        rx_buffer@.len() <= 0x4000_0000,
    ensures
        !sockets(*old(set)).dom().contains(r),
        tcp_replaced(
            *old(set),
            *final(set),
            r,
            tcp_fresh(rx_buffer@.len(), tx_buffer@.len()),
        ),
{
    set.add(
        tcp::Socket::new(tcp::SocketBuffer::new(rx_buffer), tcp::SocketBuffer::new(tx_buffer)),
    )
}

/// Calls `smoltcp::socket::tcp::Socket::connect` on a socket of a set.
///
/// Trusted: an open socket is refused, and so are endpoints without a port, an unspecified remote
/// address and an address that no address of the interface can reach; a refusal changes nothing.
/// Otherwise the socket is reset, which wakes the waiting tasks, and starts connecting.
#[verifier::external_body]
pub(crate) fn tcp_connect(
    set: &mut SocketSet<'static>,
    iface: &mut Interface,
    handle: SocketHandle,
    remote: Endpoint,
    local_port: u16,
) -> (r: Result<(), Refused>)
    requires
        is_tcp(*old(set), handle),
    ensures
        addresses(*final(iface)) == addresses(*old(iface)),
        ({
            let s = tcp_at(*old(set), handle);
            let source = source_address(addresses(*old(iface)), remote.addr);
            if is_open(s.state) {
                r == Err::<(), Refused>(Refused::InvalidState) && *final(set) == *old(set)
            } else if !remote.is_specified() || local_port == 0 || source is None {
                r == Err::<(), Refused>(Refused::Unaddressable) && *final(set) == *old(set)
            } else {
                r == Ok::<(), Refused>(()) && tcp_replaced(
                    *old(set),
                    *final(set),
                    handle,
                    TcpView {
                        state: State::SynSent,
                        local: Some(Endpoint { addr: source->Some_0, port: local_port }),
                        remote: Some(remote),
                        ..tcp_reset(s)
                    },
                )
            }
        }),
{
    let addr = match remote.addr {
        IpAddress::Ipv4(a) => wire::IpAddress::Ipv4(wire::Ipv4Address(a)),
        IpAddress::Ipv6(a) => wire::IpAddress::Ipv6(wire::Ipv6Address(a)),
    };
    let socket = set.get_mut::<tcp::Socket>(handle);
    match socket.connect(iface.context(), (addr, remote.port), local_port) {
        Ok(()) => Ok(()),
        Err(tcp::ConnectError::InvalidState) => Err(Refused::InvalidState),
        Err(tcp::ConnectError::Unaddressable) => Err(Refused::Unaddressable),
    }
}

/// Calls `smoltcp::socket::tcp::Socket::listen` on a socket of a set.
///
/// Trusted: an endpoint without a port is refused, and then an open socket; a refusal changes
/// nothing. Otherwise the socket is reset, which wakes the waiting tasks, and listens.
#[verifier::external_body]
pub(crate) fn tcp_listen(
    set: &mut SocketSet<'static>,
    handle: SocketHandle,
    local: ListenEndpoint,
) -> (r: Result<(), Refused>)
    requires
        is_tcp(*old(set), handle),
    ensures
        if local.port == 0 {
            r == Err::<(), Refused>(Refused::Unaddressable) && *final(set) == *old(set)
        } else if is_open(tcp_at(*old(set), handle).state) {
            r == Err::<(), Refused>(Refused::InvalidState) && *final(set) == *old(set)
        } else {
            r == Ok::<(), Refused>(()) && tcp_replaced(
                *old(set),
                *final(set),
                handle,
                TcpView {
                    state: State::Listen,
                    listen: local,
                    ..tcp_reset(tcp_at(*old(set), handle))
                },
            )
        },
{
    let addr = match local.addr {
        None => None,
        Some(IpAddress::Ipv4(a)) => Some(wire::IpAddress::Ipv4(wire::Ipv4Address(a))),
        Some(IpAddress::Ipv6(a)) => Some(wire::IpAddress::Ipv6(wire::Ipv6Address(a))),
    };
    let endpoint = wire::IpListenEndpoint { addr, port: local.port };
    match set.get_mut::<tcp::Socket>(handle).listen(endpoint) {
        Ok(()) => Ok(()),
        Err(tcp::ListenError::InvalidState) => Err(Refused::InvalidState),
        Err(tcp::ListenError::Unaddressable) => Err(Refused::Unaddressable),
    }
}

/// Calls `smoltcp::socket::tcp::Socket::state` on a socket of a set.
///
/// Trusted: it is the state of the connection.
#[verifier::external_body]
pub(crate) fn tcp_state(set: &SocketSet<'static>, handle: SocketHandle) -> (r: State)
    requires
        is_tcp(*set, handle),
    ensures
        r == tcp_at(*set, handle).state,
{
    match set.get::<tcp::Socket>(handle).state() {
        tcp::State::Closed => State::Closed,
        tcp::State::Listen => State::Listen,
        tcp::State::SynSent => State::SynSent,
        tcp::State::SynReceived => State::SynReceived,
        tcp::State::Established => State::Established,
        tcp::State::FinWait1 => State::FinWait1,
        tcp::State::FinWait2 => State::FinWait2,
        tcp::State::CloseWait => State::CloseWait,
        tcp::State::Closing => State::Closing,
        tcp::State::LastAck => State::LastAck,
        tcp::State::TimeWait => State::TimeWait,
    }
}

/// Calls `smoltcp::socket::tcp::Socket::timeout` on a socket of a set.
///
/// Trusted: it is the timeout that was set, here in microseconds.
#[verifier::external_body]
pub(crate) fn tcp_timeout(set: &SocketSet<'static>, handle: SocketHandle) -> (r: Option<u64>)
    requires
        is_tcp(*set, handle),
    ensures
        r == tcp_at(*set, handle).timeout,
{
    match set.get::<tcp::Socket>(handle).timeout() {
        Some(d) => Some(d.total_micros()),
        None => None,
    }
}

/// Calls `smoltcp::socket::tcp::Socket::register_recv_waker` on a socket of a set.
///
/// Trusted: the waker takes the place of the one that was registered for receiving.
#[verifier::external_body]
pub(crate) fn tcp_register_recv(
    set: &mut SocketSet<'static>,
    handle: SocketHandle,
    waker: &Waker,
)
    requires
        is_tcp(*old(set), handle),
    ensures
        tcp_replaced(
            *old(set),
            *final(set),
            handle,
            TcpView { recv_waker: Some(*waker), ..tcp_at(*old(set), handle) },
        ),
{
    set.get_mut::<tcp::Socket>(handle).register_recv_waker(waker)
}

/// Calls `smoltcp::socket::tcp::Socket::register_send_waker` on a socket of a set.
///
/// Trusted: the waker takes the place of the one that was registered for sending.
#[verifier::external_body]
pub(crate) fn tcp_register_send(
    set: &mut SocketSet<'static>,
    handle: SocketHandle,
    waker: &Waker,
)
    requires
        is_tcp(*old(set), handle),
    ensures
        tcp_replaced(
            *old(set),
            *final(set),
            handle,
            TcpView { send_waker: Some(*waker), ..tcp_at(*old(set), handle) },
        ),
{
    set.get_mut::<tcp::Socket>(handle).register_send_waker(waker)
}

/// Calls `smoltcp::socket::tcp::Socket::recv_slice` on a socket of a set.
///
/// Trusted: as many received bytes as fit move to the front of the buffer. Without an open
/// receive half and without bytes, the call fails and changes nothing; the failure tells whether
/// the remote end closed its half. The receive half is not open once that has happened, and no
/// buffer holds more than its capacity.
#[verifier::external_body]
pub(crate) fn tcp_recv(
    set: &mut SocketSet<'static>,
    handle: SocketHandle,
    buf: &mut [u8],
) -> (r: Result<usize, NoBytes>)
    requires
        is_tcp(*old(set), handle),
    ensures
        ({
            let s = tcp_at(*old(set), handle);
            let n = shorter(s.rx.len() as int, old(buf)@.len() as int);
            if may_recv(s) {
                &&& r == Ok::<usize, NoBytes>(n as usize)
                &&& final(buf)@ == overwritten(old(buf)@, s.rx.take(n))
                &&& tcp_replaced(
                    *old(set),
                    *final(set),
                    handle,
                    TcpView { rx: s.rx.skip(n), ..s },
                )
            } else {
                &&& r == Err::<usize, NoBytes>(
                    if s.fin_received {
                        NoBytes::Finished
                    } else {
                        NoBytes::InvalidState
                    },
                )
                &&& final(buf)@ == old(buf)@
                &&& *final(set) == *old(set)
            }
        }),
        tcp_sound(tcp_at(*final(set), handle)),
{
    match set.get_mut::<tcp::Socket>(handle).recv_slice(buf) {
        Ok(n) => Ok(n),
        Err(tcp::RecvError::Finished) => Err(NoBytes::Finished),
        Err(tcp::RecvError::InvalidState) => Err(NoBytes::InvalidState),
    }
}

/// Calls `smoltcp::socket::tcp::Socket::send_slice` on a socket of a set.
///
/// Trusted: as many bytes as there is room for go to the end of the transmit buffer. Without an
/// open transmit half the call fails, here with `None`, and changes nothing. The receive half is
/// not open once the remote end has closed its own, and no buffer holds more than its capacity.
#[verifier::external_body]
pub(crate) fn tcp_send(
    set: &mut SocketSet<'static>,
    handle: SocketHandle,
    buf: &[u8],
) -> (r: Option<usize>)
    requires
        is_tcp(*old(set), handle),
    ensures
        ({
            let s = tcp_at(*old(set), handle);
            let n = shorter(s.tx_capacity - s.tx.len(), buf@.len() as int);
            if may_send(s) {
                &&& r == Some(n as usize)
                &&& 0 <= n
                &&& tcp_replaced(
                    *old(set),
                    *final(set),
                    handle,
                    TcpView { tx: s.tx + buf@.take(n), ..s },
                )
            } else {
                &&& r is None
                &&& *final(set) == *old(set)
            }
        }),
        tcp_sound(tcp_at(*final(set), handle)),
{
    match set.get_mut::<tcp::Socket>(handle).send_slice(buf) {
        Ok(n) => Some(n),
        Err(tcp::SendError::InvalidState) => None,
    }
}

/// Calls `smoltcp::socket::tcp::Socket::set_timeout` on a socket of a set.
///
/// Trusted: the timeout is set, and nothing else.
#[verifier::external_body]
pub(crate) fn tcp_set_timeout(
    set: &mut SocketSet<'static>,
    handle: SocketHandle,
    micros: Option<u64>,
)
    requires
        is_tcp(*old(set), handle),
    ensures
        tcp_replaced(
            *old(set),
            *final(set),
            handle,
            TcpView { timeout: micros, ..tcp_at(*old(set), handle) },
        ),
{
    set.get_mut::<tcp::Socket>(handle).set_timeout(micros.map(Duration::from_micros))
}

/// Calls `smoltcp::socket::tcp::Socket::set_keep_alive` on a socket of a set.
///
/// Trusted: the interval is set; the timer of the socket, which is not modelled, may be wound up.
#[verifier::external_body]
pub(crate) fn tcp_set_keep_alive(
    set: &mut SocketSet<'static>,
    handle: SocketHandle,
    micros: Option<u64>,
)
    requires
        is_tcp(*old(set), handle),
    ensures
        tcp_replaced(
            *old(set),
            *final(set),
            handle,
            TcpView { keep_alive: micros, ..tcp_at(*old(set), handle) },
        ),
{
    set.get_mut::<tcp::Socket>(handle).set_keep_alive(micros.map(Duration::from_micros))
}

/// Calls `smoltcp::socket::tcp::Socket::set_hop_limit` on a socket of a set.
///
/// Trusted: the hop limit is set, and nothing else. A limit of zero is not allowed.
#[verifier::external_body]
pub(crate) fn tcp_set_hop_limit(
    set: &mut SocketSet<'static>,
    handle: SocketHandle,
    hop_limit: Option<u8>,
)
    requires
        is_tcp(*old(set), handle),
        hop_limit != Some(0u8),
    ensures
        tcp_replaced(
            *old(set),
            *final(set),
            handle,
            TcpView { hop_limit, ..tcp_at(*old(set), handle) },
        ),
{
    set.get_mut::<tcp::Socket>(handle).set_hop_limit(hop_limit)
}

/// Calls `smoltcp::socket::tcp::Socket::local_endpoint` on a socket of a set.
///
/// Trusted: it is the local end of the connection, if there is one.
#[verifier::external_body]
pub(crate) fn tcp_local_endpoint(set: &SocketSet<'static>, handle: SocketHandle) -> (r: Option<
    Endpoint,
>)
    requires
        is_tcp(*set, handle),
    ensures
        r == tcp_at(*set, handle).local,
{
    let endpoint = set.get::<tcp::Socket>(handle).local_endpoint()?;
    let addr = match endpoint.addr {
        wire::IpAddress::Ipv4(a) => IpAddress::Ipv4(a.0),
        wire::IpAddress::Ipv6(a) => IpAddress::Ipv6(a.0),
    };
    Some(Endpoint { addr, port: endpoint.port })
}

/// Calls `smoltcp::socket::tcp::Socket::remote_endpoint` on a socket of a set.
///
/// Trusted: it is the remote end of the connection, if there is one.
#[verifier::external_body]
pub(crate) fn tcp_remote_endpoint(set: &SocketSet<'static>, handle: SocketHandle) -> (r: Option<
    Endpoint,
>)
    requires
        is_tcp(*set, handle),
    ensures
        r == tcp_at(*set, handle).remote,
{
    let endpoint = set.get::<tcp::Socket>(handle).remote_endpoint()?;
    let addr = match endpoint.addr {
        wire::IpAddress::Ipv4(a) => IpAddress::Ipv4(a.0),
        wire::IpAddress::Ipv6(a) => IpAddress::Ipv6(a.0),
    };
    Some(Endpoint { addr, port: endpoint.port })
}

/// Calls `smoltcp::socket::tcp::Socket::close` on a socket of a set.
///
/// Trusted: an open transmit half moves on towards the end of the connection, which wakes the
/// waiting tasks; in the other states nothing happens.
#[verifier::external_body]
pub(crate) fn tcp_close(set: &mut SocketSet<'static>, handle: SocketHandle)
    requires
        is_tcp(*old(set), handle),
    ensures
        tcp_replaced(*old(set), *final(set), handle, tcp_closed(tcp_at(*old(set), handle))),
{
    set.get_mut::<tcp::Socket>(handle).close()
}

/// Calls `smoltcp::socket::tcp::Socket::abort` on a socket of a set.
///
/// Trusted: the socket is closed at once, which wakes the waiting tasks.
#[verifier::external_body]
pub(crate) fn tcp_abort(set: &mut SocketSet<'static>, handle: SocketHandle)
    requires
        is_tcp(*old(set), handle),
    ensures
        tcp_replaced(
            *old(set),
            *final(set),
            handle,
            tcp_moved(tcp_at(*old(set), handle), State::Closed),
        ),
{
    set.get_mut::<tcp::Socket>(handle).abort()
}

/// Calls `smoltcp::socket::tcp::Socket::may_send` on a socket of a set.
///
/// Trusted: it tells whether the transmit half is open.
#[verifier::external_body]
pub(crate) fn tcp_may_send(set: &SocketSet<'static>, handle: SocketHandle) -> (r: bool)
    requires
        is_tcp(*set, handle),
    ensures
        r == may_send(tcp_at(*set, handle)),
{
    set.get::<tcp::Socket>(handle).may_send()
}

/// Calls `smoltcp::socket::tcp::Socket::may_recv` on a socket of a set.
///
/// Trusted: it tells whether the receive half is open or has left bytes behind.
#[verifier::external_body]
pub(crate) fn tcp_may_recv(set: &SocketSet<'static>, handle: SocketHandle) -> (r: bool)
    requires
        is_tcp(*set, handle),
    ensures
        r == may_recv(tcp_at(*set, handle)),
{
    set.get::<tcp::Socket>(handle).may_recv()
}

/// Calls `smoltcp::socket::udp::Socket::new` and `smoltcp::iface::SocketSet::add`.
///
/// Trusted: a set that grows takes the new socket under a handle that was not in use, and the
/// socket uses each buffer, with its descriptions, for its own direction. Both start out empty.
#[verifier::external_body]
pub(crate) fn udp_add(
    set: &mut SocketSet<'static>,
    rx_meta: Vec<udp::PacketMetadata>,
    rx_buffer: Vec<u8>,
    tx_meta: Vec<udp::PacketMetadata>,
    tx_buffer: Vec<u8>,
) -> (r: SocketHandle)
    requires
        growable(*old(set)),
    ensures
        !sockets(*old(set)).dom().contains(r),
        udp_replaced(
            *old(set),
            *final(set),
            r,
            udp_fresh(rx_meta@.len(), rx_buffer@.len(), tx_meta@.len(), tx_buffer@.len()),
        ),
{
    set.add(
        udp::Socket::new(
            udp::PacketBuffer::new(rx_meta, rx_buffer),
            udp::PacketBuffer::new(tx_meta, tx_buffer),
        ),
    )
}

/// Calls `smoltcp::socket::udp::Socket::bind` on a socket of a set.
///
/// Trusted: an endpoint without a port is refused, and then a socket that is bound; a refusal
/// changes nothing. Otherwise the socket is bound and the waiting tasks are woken.
#[verifier::external_body]
pub(crate) fn udp_bind(
    set: &mut SocketSet<'static>,
    handle: SocketHandle,
    local: ListenEndpoint,
) -> (r: Result<(), Refused>)
    requires
        is_udp(*old(set), handle),
    ensures
        if local.port == 0 {
            r == Err::<(), Refused>(Refused::Unaddressable) && *final(set) == *old(set)
        } else if udp_at(*old(set), handle).endpoint.port != 0 {
            r == Err::<(), Refused>(Refused::InvalidState) && *final(set) == *old(set)
        } else {
            r == Ok::<(), Refused>(()) && udp_replaced(
                *old(set),
                *final(set),
                handle,
                UdpView {
                    endpoint: local,
                    recv_waker: None,
                    send_waker: None,
                    ..udp_at(*old(set), handle)
                },
            )
        },
{
    let addr = match local.addr {
        None => None,
        Some(IpAddress::Ipv4(a)) => Some(wire::IpAddress::Ipv4(wire::Ipv4Address(a))),
        Some(IpAddress::Ipv6(a)) => Some(wire::IpAddress::Ipv6(wire::Ipv6Address(a))),
    };
    let endpoint = wire::IpListenEndpoint { addr, port: local.port };
    match set.get_mut::<udp::Socket>(handle).bind(endpoint) {
        Ok(()) => Ok(()),
        Err(udp::BindError::InvalidState) => Err(Refused::InvalidState),
        Err(udp::BindError::Unaddressable) => Err(Refused::Unaddressable),
    }
}

/// Calls `smoltcp::socket::udp::Socket::recv_slice` on a socket of a set.
///
/// Trusted: the oldest datagram leaves the socket and as much of it as fits goes to the front of
/// the buffer; what does not fit is lost. Without a datagram the call fails, here with `None`, and
/// padding is dropped.
#[verifier::external_body]
pub(crate) fn udp_recv(
    set: &mut SocketSet<'static>,
    handle: SocketHandle,
    buf: &mut [u8],
) -> (r: Option<(usize, Endpoint)>)
    requires
        is_udp(*old(set), handle),
    ensures
        ({
            let s = udp_at(*old(set), handle);
            if s.rx.len() > 0 {
                let n = shorter(s.rx[0].0.len() as int, old(buf)@.len() as int);
                &&& r == Some((n as usize, s.rx[0].1))
                &&& final(buf)@ == overwritten(old(buf)@, s.rx[0].0.take(n))
                &&& udp_replaced(
                    *old(set),
                    *final(set),
                    handle,
                    UdpView { rx: s.rx.skip(1), ..s },
                )
            } else {
                &&& r is None
                &&& final(buf)@ == old(buf)@
                &&& udp_replaced(
                    *old(set),
                    *final(set),
                    handle,
                    UdpView { rx_padding: false, ..s },
                )
            }
        }),
{
    match set.get_mut::<udp::Socket>(handle).recv_slice(buf) {
        Ok((n, endpoint)) => {
            let addr = match endpoint.addr {
                wire::IpAddress::Ipv4(a) => IpAddress::Ipv4(a.0),
                wire::IpAddress::Ipv6(a) => IpAddress::Ipv6(a.0),
            };
            Some((n, Endpoint { addr, port: endpoint.port }))
        },
        Err(udp::RecvError::Exhausted) => None,
    }
}

/// Calls `smoltcp::socket::udp::Socket::send_slice` on a socket of a set.
///
/// Trusted: a socket that is not bound and a remote endpoint that is incomplete are refused, and
/// nothing changes. A datagram goes behind the contents of the transmit buffer, or behind padding
/// to the front of it, if there are that many bytes in a row and descriptions for both. A buffer
/// that has no room keeps its datagrams, but may be left with the padding. No more of the buffer is
/// in use than there is.
#[verifier::external_body]
pub(crate) fn udp_send(
    set: &mut SocketSet<'static>,
    handle: SocketHandle,
    buf: &[u8],
    remote: Endpoint,
) -> (r: Result<(), NotTaken>)
    requires
        is_udp(*old(set), handle),
    ensures
        ({
            let s = udp_at(*old(set), handle);
            if s.endpoint.port == 0 || !remote.is_specified() {
                r == Err::<(), NotTaken>(NotTaken::Unaddressable) && *final(set) == *old(set)
            } else if fits(s, buf@.len()) {
                r == Ok::<(), NotTaken>(()) && udp_replaced(
                    *old(set),
                    *final(set),
                    handle,
                    udp_took(s, buf@, remote),
                )
            } else {
                r == Err::<(), NotTaken>(NotTaken::BufferFull) && udp_replaced(
                    *old(set),
                    *final(set),
                    handle,
                    udp_full(s, buf@.len()),
                )
            }
        }),
        udp_sound(udp_at(*final(set), handle)),
{
    let addr = match remote.addr {
        IpAddress::Ipv4(a) => wire::IpAddress::Ipv4(wire::Ipv4Address(a)),
        IpAddress::Ipv6(a) => wire::IpAddress::Ipv6(wire::Ipv6Address(a)),
    };
    let endpoint = wire::IpEndpoint { addr, port: remote.port };
    match set.get_mut::<udp::Socket>(handle).send_slice(buf, endpoint) {
        Ok(()) => Ok(()),
        Err(udp::SendError::Unaddressable) => Err(NotTaken::Unaddressable),
        Err(udp::SendError::BufferFull) => Err(NotTaken::BufferFull),
    }
}

/// Calls `smoltcp::socket::udp::Socket::register_send_waker` on a socket of a set.
///
/// Trusted: the waker takes the place of the one that was registered for sending.
#[verifier::external_body]
pub(crate) fn udp_register_send(
    set: &mut SocketSet<'static>,
    handle: SocketHandle,
    waker: &Waker,
)
    requires
        is_udp(*old(set), handle),
    ensures
        udp_replaced(
            *old(set),
            *final(set),
            handle,
            UdpView { send_waker: Some(*waker), ..udp_at(*old(set), handle) },
        ),
{
    set.get_mut::<udp::Socket>(handle).register_send_waker(waker)
}

/// Calls `smoltcp::socket::udp::Socket::endpoint` on a socket of a set.
///
/// Trusted: it is the endpoint that the socket is bound to.
#[verifier::external_body]
pub(crate) fn udp_endpoint(set: &SocketSet<'static>, handle: SocketHandle) -> (r:
    ListenEndpoint)
    requires
        is_udp(*set, handle),
    ensures
        r == udp_at(*set, handle).endpoint,
{
    let endpoint = set.get::<udp::Socket>(handle).endpoint();
    let addr = match endpoint.addr {
        None => None,
        Some(wire::IpAddress::Ipv4(a)) => Some(IpAddress::Ipv4(a.0)),
        Some(wire::IpAddress::Ipv6(a)) => Some(IpAddress::Ipv6(a.0)),
    };
    ListenEndpoint { addr, port: endpoint.port }
}

/// Calls `smoltcp::socket::udp::Socket::is_open` on a socket of a set.
///
/// Trusted: a socket is open exactly if it is bound to a port.
#[verifier::external_body]
pub(crate) fn udp_is_open(set: &SocketSet<'static>, handle: SocketHandle) -> (r: bool)
    requires
        is_udp(*set, handle),
    ensures
        r == (udp_at(*set, handle).endpoint.port != 0),
{
    set.get::<udp::Socket>(handle).is_open()
}

/// Calls `smoltcp::socket::udp::Socket::close` on a socket of a set.
///
/// Trusted: the socket is unbound, loses its datagrams and wakes the waiting tasks.
#[verifier::external_body]
pub(crate) fn udp_close(set: &mut SocketSet<'static>, handle: SocketHandle)
    requires
        is_udp(*old(set), handle),
    ensures
        udp_replaced(
            *old(set),
            *final(set),
            handle,
            udp_emptied(udp_at(*old(set), handle)),
        ),
{
    set.get_mut::<udp::Socket>(handle).close()
}

/// Calls `smoltcp::socket::udp::Socket::can_send` on a socket of a set.
///
/// Trusted: it tells whether the transmit buffer has a description left.
#[verifier::external_body]
pub(crate) fn udp_can_send(set: &SocketSet<'static>, handle: SocketHandle) -> (r: bool)
    requires
        is_udp(*set, handle),
    ensures
        r == (udp_at(*set, handle).tx_entries < udp_at(*set, handle).tx_slots),
{
    set.get::<udp::Socket>(handle).can_send()
}

/// Calls `smoltcp::socket::udp::Socket::can_recv` on a socket of a set.
///
/// Trusted: it tells whether the receive buffer holds anything, be it a datagram or padding.
#[verifier::external_body]
pub(crate) fn udp_can_recv(set: &SocketSet<'static>, handle: SocketHandle) -> (r: bool)
    requires
        is_udp(*set, handle),
    ensures
        r == receivable(udp_at(*set, handle)),
{
    set.get::<udp::Socket>(handle).can_recv()
}

} // verus!
