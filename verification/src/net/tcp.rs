//! TCP sockets.
//!
//! An operation that may have to wait is polled: each poll either ends it or registers a waker
//! with the socket. Every operation that can change a socket wakes the task that moves packets.

use crate::net::smol;
use crate::net::smol::{NoBytes, Refused, State};
use crate::net::stack::SocketStack;
use crate::net::wire::{Endpoint, ListenEndpoint};
use crate::waker::Poll;
use core::task::Waker;
use smoltcp::iface::SocketHandle;
use vstd::prelude::*;

#[allow(unused_imports)]
use crate::net::smol::{
    addresses, growable, is_open, is_tcp, lemma_tcp_replaced, may_recv, may_send, overwritten,
    shorter, sockets, tcp_at, tcp_closed, tcp_fresh, tcp_moved, tcp_replaced, tcp_reset, tcp_sound,
    TcpView,
};
#[allow(unused_imports)]
use crate::net::stack::{next_port, only_sockets, tcp_became, touched};
#[allow(unused_imports)]
use crate::net::wire::{lemma_first_of_the_version, source_address};
#[allow(unused_imports)]
use crate::stream::flows;

verus! {

/// Why bytes could not be moved.
#[derive(Clone, Copy, Debug, PartialEq, Eq, Structural)]
pub enum Error {
    ConnectionReset,
}

/// Why a connection was not made.
#[derive(Clone, Copy, Debug, PartialEq, Eq, Structural)]
pub enum ConnectError {
    /// The socket is already connected or listening.
    InvalidState,
    /// The remote host rejected the connection with a RST packet.
    ConnectionReset,
    /// Connect timed out.
    TimedOut,
    /// No route to host.
    NoRoute,
}

/// Why a connection was not accepted.
#[derive(Clone, Copy, Debug, PartialEq, Eq, Structural)]
pub enum AcceptError {
    /// The socket is already connected or listening.
    InvalidState,
    /// Invalid listen port.
    InvalidPort,
    /// The remote host rejected the connection with a RST packet.
    ConnectionReset,
}

/// What a refusal to connect means to the caller.
pub fn connect_error(refused: Refused) -> (r: ConnectError)
    ensures
        refused == Refused::InvalidState ==> r == ConnectError::InvalidState,
        refused == Refused::Unaddressable ==> r == ConnectError::NoRoute,
{
    match refused {
        Refused::InvalidState => ConnectError::InvalidState,
        Refused::Unaddressable => ConnectError::NoRoute,
    }
}

/// What a refusal to listen means to the caller.
pub fn accept_error(refused: Refused) -> (r: AcceptError)
    ensures
        refused == Refused::InvalidState ==> r == AcceptError::InvalidState,
        refused == Refused::Unaddressable ==> r == AcceptError::InvalidPort,
{
    match refused {
        Refused::InvalidState => AcceptError::InvalidState,
        Refused::Unaddressable => AcceptError::InvalidPort,
    }
}

/// Whether the remote end had been silent for the whole timeout of a socket, both in microseconds.
pub open spec fn given_up(timeout: Option<u64>, silent: u64) -> bool {
    timeout matches Some(limit) && silent >= limit
}

/// How far a socket that was told to connect has come. A socket keeps no record of why it closed.
/// It is taken as timed out where the remote end had been silent for the whole timeout, since that
/// is when it gives up, and as reset elsewhere.
pub open spec fn connecting(state: State, timeout: Option<u64>, silent: u64) -> Poll<
    Result<(), ConnectError>,
> {
    if state == State::Closed && given_up(timeout, silent) {
        Poll::Ready(Err(ConnectError::TimedOut))
    } else if state == State::Closed || state == State::TimeWait {
        Poll::Ready(Err(ConnectError::ConnectionReset))
    } else if state == State::SynSent || state == State::SynReceived {
        Poll::Pending
    } else {
        Poll::Ready(Ok(()))
    }
}

/// Tells how far a socket that was told to connect has come, from its state, its timeout and how
/// long the remote end had been silent when the socket woke its task.
pub fn connect_progress(state: State, timeout: Option<u64>, silent: u64) -> (r: Poll<
    Result<(), ConnectError>,
>)
    requires
        state != State::Listen,
    ensures
        r == connecting(state, timeout, silent),
{
    match state {
        State::Closed => match timeout {
            Some(limit) if silent >= limit => Poll::Ready(Err(ConnectError::TimedOut)),
            _ => Poll::Ready(Err(ConnectError::ConnectionReset)),
        },
        State::TimeWait => Poll::Ready(Err(ConnectError::ConnectionReset)),
        State::SynSent | State::SynReceived => Poll::Pending,
        _ => Poll::Ready(Ok(())),
    }
}

/// How far a socket that was told to listen has come. A socket keeps no record of why it closed. It
/// is taken as reset, unless the remote end had been silent for the whole timeout: a connection
/// that came in and went silent counts as accepted.
pub open spec fn accepting(state: State, timeout: Option<u64>, silent: u64) -> Poll<
    Result<(), AcceptError>,
> {
    if state == State::Listen || state == State::SynSent || state == State::SynReceived {
        Poll::Pending
    } else if state == State::Closed && !given_up(timeout, silent) {
        Poll::Ready(Err(AcceptError::ConnectionReset))
    } else {
        Poll::Ready(Ok(()))
    }
}

/// Tells how far a socket that was told to listen has come, from its state, its timeout and how
/// long the remote end had been silent when the socket woke its task.
pub fn accept_progress(state: State, timeout: Option<u64>, silent: u64) -> (r: Poll<
    Result<(), AcceptError>,
>)
    ensures
        r == accepting(state, timeout, silent),
{
    match state {
        State::Listen | State::SynSent | State::SynReceived => Poll::Pending,
        State::Closed => match timeout {
            Some(limit) if silent >= limit => Poll::Ready(Ok(())),
            _ => Poll::Ready(Err(AcceptError::ConnectionReset)),
        },
        _ => Poll::Ready(Ok(())),
    }
}

/// A connection that a packet from the remote end closed is reported as reset, and an attempt to
/// connect that was never answered as timed out.
pub proof fn lemma_why_it_closed(timeout: Option<u64>, silent: u64)
    ensures
        silent == 0 && timeout != Some(0u64) ==> {
            &&& connecting(State::Closed, timeout, silent) == Poll::<Result<(), ConnectError>>::Ready(
                Err(ConnectError::ConnectionReset),
            )
            &&& accepting(State::Closed, timeout, silent) == Poll::<Result<(), AcceptError>>::Ready(
                Err(AcceptError::ConnectionReset),
            )
        },
        timeout is Some && silent >= timeout->Some_0 ==> connecting(
            State::Closed,
            timeout,
            silent,
        ) == Poll::<Result<(), ConnectError>>::Ready(Err(ConnectError::TimedOut)),
{
}

/// What taking bytes out of a socket means to a reader. The end of the stream reads as zero
/// bytes; an open stream without bytes is waited for.
pub open spec fn reading(received: Result<usize, NoBytes>) -> Poll<Result<usize, Error>> {
    match received {
        Ok(n) => if n == 0 {
            Poll::Pending
        } else {
            Poll::Ready(Ok(n))
        },
        Err(NoBytes::Finished) => Poll::Ready(Ok(0)),
        Err(NoBytes::InvalidState) => Poll::Ready(Err(Error::ConnectionReset)),
    }
}

/// Tells a reader the outcome of taking bytes out of a socket.
pub fn read_progress(received: Result<usize, NoBytes>) -> (r: Poll<Result<usize, Error>>)
    ensures
        r == reading(received),
{
    match received {
        Ok(0) => Poll::Pending,
        Ok(n) => Poll::Ready(Ok(n)),
        Err(NoBytes::Finished) => Poll::Ready(Ok(0)),
        Err(NoBytes::InvalidState) => Poll::Ready(Err(Error::ConnectionReset)),
    }
}

/// What putting bytes into a socket means to a writer. Room in the buffer is waited for.
pub open spec fn writing(sent: Option<usize>) -> Poll<Result<usize, Error>> {
    match sent {
        Some(n) => if n == 0 {
            Poll::Pending
        } else {
            Poll::Ready(Ok(n))
        },
        None => Poll::Ready(Err(Error::ConnectionReset)),
    }
}

/// Tells a writer the outcome of putting bytes into a socket.
pub fn write_progress(sent: Option<usize>) -> (r: Poll<Result<usize, Error>>)
    ensures
        r == writing(sent),
{
    match sent {
        Some(0) => Poll::Pending,
        Some(n) => Poll::Ready(Ok(n)),
        None => Poll::Ready(Err(Error::ConnectionReset)),
    }
}

/// What a socket gives to a buffer of `room` bytes.
pub open spec fn received(s: TcpView, room: nat) -> Result<usize, NoBytes> {
    if may_recv(s) {
        Ok(shorter(s.rx.len() as int, room as int) as usize)
    } else if s.fin_received {
        Err(NoBytes::Finished)
    } else {
        Err(NoBytes::InvalidState)
    }
}

/// The bytes that a read moves to a buffer of `room` bytes.
pub open spec fn read_bytes(s: TcpView, room: nat) -> Seq<u8> {
    if may_recv(s) {
        s.rx.take(shorter(s.rx.len() as int, room as int))
    } else {
        Seq::empty()
    }
}

/// A socket after a read.
pub open spec fn after_read(s: TcpView, room: nat, waker: Waker) -> TcpView {
    TcpView {
        rx: s.rx.skip(read_bytes(s, room).len() as int),
        recv_waker: if reading(received(s, room)) is Pending {
            Some(waker)
        } else {
            s.recv_waker
        },
        ..s
    }
}

/// How many of `len` bytes a socket takes.
pub open spec fn sent(s: TcpView, len: nat) -> Option<usize> {
    if may_send(s) {
        Some(shorter(s.tx_capacity - s.tx.len(), len as int) as usize)
    } else {
        None
    }
}

/// The bytes that a write moves to the socket.
pub open spec fn written_bytes(s: TcpView, buf: Seq<u8>) -> Seq<u8> {
    if may_send(s) {
        buf.take(shorter(s.tx_capacity - s.tx.len(), buf.len() as int))
    } else {
        Seq::empty()
    }
}

/// A socket after a write.
pub open spec fn after_write(s: TcpView, buf: Seq<u8>, waker: Waker) -> TcpView {
    TcpView {
        tx: s.tx + written_bytes(s, buf),
        send_waker: if writing(sent(s, buf.len())) is Pending {
            Some(waker)
        } else {
            s.send_waker
        },
        ..s
    }
}

/// A socket that has sent its request to connect.
pub open spec fn syn_sent(s: TcpView, local: Endpoint, remote: Endpoint) -> TcpView {
    TcpView {
        state: State::SynSent,
        local: Some(local),
        remote: Some(remote),
        ..tcp_reset(s)
    }
}

/// Whether an attempt to connect was made, from the port that is next in turn. A socket that was
/// refused is unchanged; the port is spent in any case.
pub open spec fn connect_started(
    before: SocketStack,
    after: SocketStack,
    handle: SocketHandle,
    remote: Endpoint,
    r: Result<(), ConnectError>,
) -> bool {
    let s = tcp_at(before.set(), handle);
    let port = before.next_local_port();
    let source = source_address(addresses(before.iface()), remote.addr);
    &&& after.has_port()
    &&& growable(after.set()) == growable(before.set())
    &&& touched(before, after)
    &&& after.next_local_port() == next_port(port)
    &&& if is_open(s.state) {
        r == Err::<(), ConnectError>(ConnectError::InvalidState) && after.set() == before.set()
    } else if !remote.is_specified() || source is None {
        r == Err::<(), ConnectError>(ConnectError::NoRoute) && after.set() == before.set()
    } else {
        r == Ok::<(), ConnectError>(()) && tcp_replaced(
            before.set(),
            after.set(),
            handle,
            syn_sent(s, Endpoint { addr: source->Some_0, port }, remote),
        )
    }
}

/// Whether an attempt to connect was looked at, with the waker registered if it has to go on.
pub open spec fn connect_polled(
    before: SocketStack,
    after: SocketStack,
    handle: SocketHandle,
    waker: Waker,
    silent: u64,
    r: Poll<Result<(), ConnectError>>,
) -> bool {
    let s = tcp_at(before.set(), handle);
    &&& r == connecting(s.state, s.timeout, silent)
    &&& tcp_became(
        before,
        after,
        handle,
        if r is Pending {
            TcpView { send_waker: Some(waker), ..s }
        } else {
            s
        },
    )
}

/// Whether a socket started to listen. A socket that was refused is unchanged.
pub open spec fn accept_started(
    before: SocketStack,
    after: SocketStack,
    handle: SocketHandle,
    local: ListenEndpoint,
    r: Result<(), AcceptError>,
) -> bool {
    let s = tcp_at(before.set(), handle);
    &&& touched(before, after)
    &&& after.next_local_port() == before.next_local_port()
    &&& if local.port == 0 {
        r == Err::<(), AcceptError>(AcceptError::InvalidPort) && after.set() == before.set()
    } else if is_open(s.state) {
        r == Err::<(), AcceptError>(AcceptError::InvalidState) && after.set() == before.set()
    } else {
        r == Ok::<(), AcceptError>(()) && tcp_replaced(
            before.set(),
            after.set(),
            handle,
            TcpView { state: State::Listen, listen: local, ..tcp_reset(s) },
        )
    }
}

/// Whether a socket that listens was looked at, with the waker registered if it has to go on.
pub open spec fn accept_polled(
    before: SocketStack,
    after: SocketStack,
    handle: SocketHandle,
    waker: Waker,
    silent: u64,
    r: Poll<Result<(), AcceptError>>,
) -> bool {
    let s = tcp_at(before.set(), handle);
    &&& r == accepting(s.state, s.timeout, silent)
    &&& tcp_became(
        before,
        after,
        handle,
        if r is Pending {
            TcpView { send_waker: Some(waker), ..s }
        } else {
            s
        },
    )
}

/// A buffer after a read.
pub open spec fn read_into(before: SocketStack, handle: SocketHandle, buf: Seq<u8>) -> Seq<u8> {
    overwritten(buf, read_bytes(tcp_at(before.set(), handle), buf.len()))
}

/// Whether a read into `buf` went as the socket demands.
pub open spec fn read_done(
    before: SocketStack,
    after: SocketStack,
    handle: SocketHandle,
    waker: Waker,
    buf: Seq<u8>,
    r: Poll<Result<usize, Error>>,
) -> bool {
    let s = tcp_at(before.set(), handle);
    &&& r == reading(received(s, buf.len()))
    &&& tcp_became(before, after, handle, after_read(s, buf.len(), waker))
    &&& tcp_sound(after_read(s, buf.len(), waker))
}

/// Whether a write of `buf` went as the socket demands.
pub open spec fn write_done(
    before: SocketStack,
    after: SocketStack,
    handle: SocketHandle,
    waker: Waker,
    buf: Seq<u8>,
    r: Poll<Result<usize, Error>>,
) -> bool {
    let s = tcp_at(before.set(), handle);
    &&& may_send(s) ==> s.tx.len() <= s.tx_capacity
    &&& r == writing(sent(s, buf.len()))
    &&& tcp_became(before, after, handle, after_write(s, buf, waker))
    &&& tcp_sound(after_write(s, buf, waker))
}

/// Bytes are read in the order in which they were received. A read that returns a number of bytes
/// has moved that many, and a read that has to wait has moved none and is registered.
pub proof fn lemma_read_in_order(s: TcpView, room: nat, waker: Waker)
    requires
        room <= usize::MAX,
    ensures
        flows(s.rx, Seq::empty(), read_bytes(s, room), after_read(s, room, waker).rx),
        match reading(received(s, room)) {
            Poll::Ready(Ok(n)) => read_bytes(s, room).len() == n,
            Poll::Ready(Err(_)) => after_read(s, room, waker) == s,
            Poll::Pending => after_read(s, room, waker) == (TcpView {
                recv_waker: Some(waker),
                ..s
            }),
        },
{
    let n = read_bytes(s, room).len() as int;
    assert(s.rx + Seq::empty() =~= s.rx.take(n) + s.rx.skip(n));
    assert(s.rx.skip(0) =~= s.rx);
}

/// A read of zero bytes stands for the end of the stream: the remote end has closed its half and
/// every byte has been read.
pub proof fn lemma_end_of_stream(s: TcpView, room: nat)
    requires
        room <= usize::MAX,
        tcp_sound(s),
    ensures
        reading(received(s, room)) == Poll::<Result<usize, Error>>::Ready(Ok(0)) <==> s.fin_received
            && s.rx.len() == 0,
{
}

/// Bytes are sent in the order in which they were written. A write that returns a number of bytes
/// has moved that many from the front of the buffer, and a write that has to wait has moved none
/// and is registered.
pub proof fn lemma_write_in_order(s: TcpView, buf: Seq<u8>, waker: Waker)
    requires
        buf.len() <= usize::MAX,
        s.tx.len() <= s.tx_capacity,
    ensures
        flows(s.tx, written_bytes(s, buf), Seq::empty(), after_write(s, buf, waker).tx),
        after_write(s, buf, waker).tx.len() <= s.tx_capacity,
        match writing(sent(s, buf.len())) {
            Poll::Ready(Ok(n)) => n > 0 && written_bytes(s, buf) == buf.take(n as int),
            Poll::Ready(Err(_)) => after_write(s, buf, waker) == s,
            Poll::Pending => after_write(s, buf, waker) == (TcpView {
                send_waker: Some(waker),
                ..s
            }),
        },
{
    assert(Seq::empty() + after_write(s, buf, waker).tx =~= after_write(s, buf, waker).tx);
    assert(buf.take(0) =~= Seq::empty());
    assert(s.tx + Seq::empty() =~= s.tx);
}

/// Whether a socket that was told to connect has to wait depends on nothing but its state: it waits
/// while the handshake goes on, and is connected from then on until the connection is over. The
/// timeout and the silence of the remote end matter to a closed socket alone, and only to why.
pub proof fn lemma_connect_outcome(
    before: SocketStack,
    after: SocketStack,
    handle: SocketHandle,
    waker: Waker,
    silent: u64,
    r: Poll<Result<(), ConnectError>>,
)
    requires
        tcp_at(before.set(), handle).state != State::Listen,
        connect_polled(before, after, handle, waker, silent, r),
    ensures
        ({
            let s = tcp_at(before.set(), handle);
            let late = s.timeout is Some && silent >= s.timeout->Some_0;
            &&& is_tcp(after.set(), handle)
            &&& match s.state {
                State::SynSent | State::SynReceived => {
                    &&& r is Pending
                    &&& tcp_at(after.set(), handle) == (TcpView { send_waker: Some(waker), ..s })
                },
                State::Established
                | State::FinWait1
                | State::FinWait2
                | State::CloseWait
                | State::Closing
                | State::LastAck => {
                    &&& r == Poll::<Result<(), ConnectError>>::Ready(Ok(()))
                    &&& tcp_at(after.set(), handle) == s
                },
                State::Closed if late => {
                    &&& r == Poll::<Result<(), ConnectError>>::Ready(Err(ConnectError::TimedOut))
                    &&& tcp_at(after.set(), handle) == s
                },
                _ => {
                    &&& r == Poll::<Result<(), ConnectError>>::Ready(
                        Err(ConnectError::ConnectionReset),
                    )
                    &&& tcp_at(after.set(), handle) == s
                },
            }
        }),
{
}

/// Whether a socket that was told to listen has to wait depends on nothing but its state: it waits
/// until a handshake is over, and then has accepted a connection. The timeout and the silence of
/// the remote end matter to a closed socket alone.
pub proof fn lemma_accept_outcome(
    before: SocketStack,
    after: SocketStack,
    handle: SocketHandle,
    waker: Waker,
    silent: u64,
    r: Poll<Result<(), AcceptError>>,
)
    requires
        accept_polled(before, after, handle, waker, silent, r),
    ensures
        ({
            let s = tcp_at(before.set(), handle);
            let late = s.timeout is Some && silent >= s.timeout->Some_0;
            &&& is_tcp(after.set(), handle)
            &&& match s.state {
                State::Listen | State::SynSent | State::SynReceived => {
                    &&& r is Pending
                    &&& tcp_at(after.set(), handle) == (TcpView { send_waker: Some(waker), ..s })
                },
                State::Closed if !late => {
                    &&& r == Poll::<Result<(), AcceptError>>::Ready(
                        Err(AcceptError::ConnectionReset),
                    )
                    &&& tcp_at(after.set(), handle) == s
                },
                _ => {
                    &&& r == Poll::<Result<(), AcceptError>>::Ready(Ok(()))
                    &&& tcp_at(after.set(), handle) == s
                },
            }
        }),
{
}

/// A read into a buffer with room takes the bytes that there are, as many as fit and at least one,
/// in whatever state the socket is. Without bytes it waits as long as more can come, which is while
/// the connection is established or only the local half is closed. After that it reads the end of
/// the stream if the remote end has closed its half, and fails if not.
pub proof fn lemma_read_outcome(
    before: SocketStack,
    after: SocketStack,
    handle: SocketHandle,
    waker: Waker,
    buf: Seq<u8>,
    r: Poll<Result<usize, Error>>,
)
    requires
        buf.len() <= usize::MAX,
        read_done(before, after, handle, waker, buf, r),
    ensures
        ({
            let s = tcp_at(before.set(), handle);
            let t = tcp_at(after.set(), handle);
            let filled = read_into(before, handle, buf);
            let more = s.state == State::Established || s.state == State::FinWait1 || s.state
                == State::FinWait2;
            &&& is_tcp(after.set(), handle)
            &&& filled.len() == buf.len()
            &&& if s.rx.len() > 0 && buf.len() > 0 {
                &&& r matches Poll::Ready(Ok(n))
                &&& 0 < n <= s.rx.len()
                &&& n <= buf.len()
                &&& n == s.rx.len() || n == buf.len()
                &&& forall|i: int| 0 <= i < n ==> filled[i] == s.rx[i]
                &&& forall|i: int| n <= i < buf.len() ==> filled[i] == buf[i]
                &&& t == (TcpView { rx: s.rx.skip(n as int), ..s })
            } else {
                &&& filled == buf
                &&& if s.rx.len() > 0 || more {
                    r is Pending && t == (TcpView { recv_waker: Some(waker), ..s })
                } else if s.fin_received {
                    r == Poll::<Result<usize, Error>>::Ready(Ok(0)) && t == s
                } else {
                    r == Poll::<Result<usize, Error>>::Ready(Err(Error::ConnectionReset)) && t == s
                }
            }
        }),
{
    let s = tcp_at(before.set(), handle);
    assert(s.rx.skip(0) =~= s.rx);
    assert(s.rx.take(0) =~= Seq::empty());
    assert(Seq::empty() + buf.skip(0) =~= buf);
}

/// A write of any bytes to a socket with room puts in as many as there is room for and at least
/// one, from the front of the buffer. It waits where there is no room, and fails exactly if the
/// local half of the connection is not open.
pub proof fn lemma_write_outcome(
    before: SocketStack,
    after: SocketStack,
    handle: SocketHandle,
    waker: Waker,
    buf: Seq<u8>,
    r: Poll<Result<usize, Error>>,
)
    requires
        buf.len() <= usize::MAX,
        write_done(before, after, handle, waker, buf, r),
    ensures
        ({
            let s = tcp_at(before.set(), handle);
            let t = tcp_at(after.set(), handle);
            &&& is_tcp(after.set(), handle)
            &&& if s.state != State::Established && s.state != State::CloseWait {
                r == Poll::<Result<usize, Error>>::Ready(Err(Error::ConnectionReset)) && t == s
            } else if buf.len() == 0 || s.tx.len() == s.tx_capacity {
                r is Pending && t == (TcpView { send_waker: Some(waker), ..s })
            } else {
                &&& r matches Poll::Ready(Ok(n))
                &&& 0 < n <= buf.len()
                &&& s.tx.len() + n <= s.tx_capacity
                &&& n == buf.len() || s.tx.len() + n == s.tx_capacity
                &&& t == (TcpView { tx: s.tx + buf.take(n as int), ..s })
            }
        }),
{
    let s = tcp_at(before.set(), handle);
    assert(buf.take(0) =~= Seq::empty());
    assert(s.tx + Seq::<u8>::empty() =~= s.tx);
}

/// Whether nothing is left of what went through a socket, while its settings are as they were.
pub open spec fn only_settings_left(s: TcpView, t: TcpView) -> bool {
    &&& t.rx.len() == 0
    &&& t.tx.len() == 0
    &&& !t.fin_received
    &&& t.recv_waker is None
    &&& t.send_waker is None
    &&& t.rx_capacity == s.rx_capacity
    &&& t.tx_capacity == s.tx_capacity
    &&& t.timeout == s.timeout
    &&& t.keep_alive == s.keep_alive
    &&& t.hop_limit == s.hop_limit
}

/// An attempt to connect is made exactly if the socket is closed or its last connection is over,
/// and the interface has an address for the version of a complete remote endpoint. The socket then
/// is on its way from that address and the port that was next, with nothing left of an earlier
/// connection but the settings. The next port goes up in any case.
pub proof fn lemma_connect_start(
    before: SocketStack,
    after: SocketStack,
    handle: SocketHandle,
    remote: Endpoint,
    r: Result<(), ConnectError>,
)
    requires
        connect_started(before, after, handle, remote, r),
    ensures
        ({
            let s = tcp_at(before.set(), handle);
            let t = tcp_at(after.set(), handle);
            let port = before.next_local_port();
            let addrs = addresses(before.iface());
            let reachable = exists|i: int|
                #![trigger addrs[i]]
                0 <= i < addrs.len() && (addrs[i] is Ipv4 <==> remote.addr is Ipv4);
            let usable = s.state == State::Closed || s.state == State::TimeWait;
            &&& after.next_local_port() == if port == 65535 {
                1025int
            } else {
                port + 1
            }
            &&& touched(before, after)
            &&& r == Err::<(), ConnectError>(ConnectError::InvalidState) <==> !usable
            &&& r == Err::<(), ConnectError>(ConnectError::NoRoute) <==> usable && (
            !remote.is_specified() || !reachable)
            &&& r is Ok <==> usable && remote.is_specified() && reachable
            &&& r is Err ==> after.set() == before.set()
            &&& r is Ok ==> {
                &&& is_tcp(after.set(), handle)
                &&& t.state == State::SynSent
                &&& t.remote == Some(remote)
                &&& t.local matches Some(local)
                &&& local.port == port
                &&& addrs.contains(local.addr)
                &&& local.addr is Ipv4 <==> remote.addr is Ipv4
                &&& only_settings_left(s, t)
                &&& t.listen.port == 0
            }
        }),
{
    lemma_first_of_the_version(addresses(before.iface()), remote.addr);
}

/// A socket starts to listen exactly if it is given a port and is closed or its last connection is
/// over. It then listens there, with nothing left of an earlier connection but the settings.
pub proof fn lemma_accept_start(
    before: SocketStack,
    after: SocketStack,
    handle: SocketHandle,
    local: ListenEndpoint,
    r: Result<(), AcceptError>,
)
    requires
        accept_started(before, after, handle, local, r),
    ensures
        ({
            let s = tcp_at(before.set(), handle);
            let t = tcp_at(after.set(), handle);
            let usable = s.state == State::Closed || s.state == State::TimeWait;
            &&& after.next_local_port() == before.next_local_port()
            &&& touched(before, after)
            &&& r == Err::<(), AcceptError>(AcceptError::InvalidPort) <==> local.port == 0
            &&& r == Err::<(), AcceptError>(AcceptError::InvalidState) <==> local.port != 0
                && !usable
            &&& r is Ok <==> local.port != 0 && usable
            &&& r is Err ==> after.set() == before.set()
            &&& r is Ok ==> {
                &&& is_tcp(after.set(), handle)
                &&& t.state == State::Listen
                &&& t.listen == local
                &&& t.local is None
                &&& t.remote is None
                &&& only_settings_left(s, t)
            }
        }),
{
}

/// Closing the transmit half ends an attempt, or goes on with the handshake that ends a connection.
/// Nothing can be written from then on. No byte is lost that was received or accepted for sending,
/// and what can still be read can be read.
pub proof fn lemma_close(s: TcpView)
    ensures
        ({
            let t = tcp_closed(s);
            &&& t.state == match s.state {
                State::Listen | State::SynSent => State::Closed,
                State::SynReceived | State::Established => State::FinWait1,
                State::CloseWait => State::LastAck,
                state => state,
            }
            &&& !may_send(t)
            &&& t.rx == s.rx
            &&& t.tx == s.tx
            &&& t.fin_received == s.fin_received
            &&& may_recv(s) ==> may_recv(t)
            &&& if t.state == s.state {
                t == s
            } else {
                t == (TcpView { state: t.state, recv_waker: None, send_waker: None, ..s })
            }
        }),
{
}

/// A connection that was ended at once is closed, with the waiting tasks woken and the bytes that
/// were received left to be read.
pub proof fn lemma_abort(s: TcpView)
    ensures
        ({
            let t = tcp_moved(s, State::Closed);
            &&& t == (TcpView {
                state: State::Closed,
                recv_waker: None,
                send_waker: None,
                ..s
            })
            &&& !may_send(t)
            &&& may_recv(t) <==> s.rx.len() > 0
        }),
{
}

/// A socket can be written to in two states and read from in three, and from any state while bytes
/// are left.
pub proof fn lemma_open_halves(s: TcpView)
    ensures
        may_send(s) <==> s.state == State::Established || s.state == State::CloseWait,
        s.rx.len() > 0 ==> may_recv(s),
        s.rx.len() == 0 ==> (may_recv(s) <==> s.state == State::Established || s.state
            == State::FinWait1 || s.state == State::FinWait2),
{
}

/// A new socket is closed and empty, without settings.
pub proof fn lemma_new_socket(rx_capacity: nat, tx_capacity: nat)
    ensures
        ({
            let s = tcp_fresh(rx_capacity, tx_capacity);
            &&& s.state == State::Closed
            &&& only_settings_left(s, s)
            &&& s.rx_capacity == rx_capacity
            &&& s.tx_capacity == tx_capacity
            &&& s.timeout is None && s.keep_alive is None && s.hop_limit is None
            &&& s.listen.port == 0 && s.local is None && s.remote is None
            &&& tcp_sound(s)
        }),
{
}

/// Access to a socket of a stack.
#[derive(Clone, Copy)]
pub struct TcpIo {
    handle: SocketHandle,
}

/// Reads from a socket.
pub struct TcpReader {
    io: TcpIo,
}

/// Writes to a socket.
pub struct TcpWriter {
    io: TcpIo,
}

/// A TCP socket.
pub struct TcpSocket {
    io: TcpIo,
}

impl TcpIo {
    /// The socket that is accessed.
    pub closed spec fn handle(&self) -> SocketHandle {
        self.handle
    }

    /// Reads bytes, or registers `waker` until there are any.
    pub fn read(&self, stack: &mut SocketStack, waker: &Waker, buf: &mut [u8]) -> (r: Poll<
        Result<usize, Error>,
    >)
        requires
            is_tcp(old(stack).set(), self.handle()),
        ensures
            read_done(*old(stack), *final(stack), self.handle(), *waker, old(buf)@, r),
            final(buf)@ == read_into(*old(stack), self.handle(), old(buf)@),
    {
        let ghost s = tcp_at(stack.set(), self.handle());
        let ghost room = buf@.len();
        let ghost next = after_read(s, room, *waker);
        let received = smol::tcp_recv(stack.set_mut(), self.handle, buf);
        let ghost mid = stack.set();
        let progress = read_progress(received);
        if let Poll::Pending = progress {
            smol::tcp_register_recv(stack.set_mut(), self.handle, waker);
        }
        stack.wake();
        proof {
            assert(overwritten(old(buf)@, Seq::empty()) =~= old(buf)@);
            assert(s.rx.skip(0) =~= s.rx);
            assert(tcp_at(mid, self.handle()) == (TcpView { rx: next.rx, ..s }));
            lemma_tcp_replaced(
                old(stack).set(),
                mid,
                stack.set(),
                self.handle(),
                TcpView { rx: next.rx, ..s },
                next,
            );
        }
        progress
    }

    /// Writes bytes, or registers `waker` until there is room for any.
    pub fn write(&self, stack: &mut SocketStack, waker: &Waker, buf: &[u8]) -> (r: Poll<
        Result<usize, Error>,
    >)
        requires
            is_tcp(old(stack).set(), self.handle()),
        ensures
            write_done(*old(stack), *final(stack), self.handle(), *waker, buf@, r),
    {
        let ghost s = tcp_at(stack.set(), self.handle());
        let ghost next = after_write(s, buf@, *waker);
        let sent = smol::tcp_send(stack.set_mut(), self.handle, buf);
        let ghost mid = stack.set();
        let progress = write_progress(sent);
        if let Poll::Pending = progress {
            smol::tcp_register_send(stack.set_mut(), self.handle, waker);
        }
        stack.wake();
        proof {
            assert(s.tx + Seq::<u8>::empty() =~= s.tx);
            assert(tcp_at(mid, self.handle()) == (TcpView { tx: next.tx, ..s }));
            lemma_tcp_replaced(
                old(stack).set(),
                mid,
                stack.set(),
                self.handle(),
                TcpView { tx: next.tx, ..s },
                next,
            );
        }
        progress
    }

    /// Does not wait for bytes to be sent.
    pub fn flush(&self) -> (r: Poll<Result<(), Error>>)
        ensures
            r == Poll::<Result<(), Error>>::Ready(Ok(())),
    {
        Poll::Ready(Ok(()))
    }
}

impl TcpReader {
    /// The socket that is read from.
    pub closed spec fn handle(&self) -> SocketHandle {
        self.io.handle()
    }

    /// Reads bytes, or registers `waker` until there are any.
    pub fn read(&mut self, stack: &mut SocketStack, waker: &Waker, buf: &mut [u8]) -> (r: Poll<
        Result<usize, Error>,
    >)
        requires
            is_tcp(old(stack).set(), old(self).handle()),
        ensures
            *final(self) == *old(self),
            read_done(*old(stack), *final(stack), old(self).handle(), *waker, old(buf)@, r),
            final(buf)@ == read_into(*old(stack), old(self).handle(), old(buf)@),
    {
        self.io.read(stack, waker, buf)
    }
}

impl TcpWriter {
    /// The socket that is written to.
    pub closed spec fn handle(&self) -> SocketHandle {
        self.io.handle()
    }

    /// Writes bytes, or registers `waker` until there is room for any.
    pub fn write(&mut self, stack: &mut SocketStack, waker: &Waker, buf: &[u8]) -> (r: Poll<
        Result<usize, Error>,
    >)
        requires
            is_tcp(old(stack).set(), old(self).handle()),
        ensures
            *final(self) == *old(self),
            write_done(*old(stack), *final(stack), old(self).handle(), *waker, buf@, r),
    {
        self.io.write(stack, waker, buf)
    }

    /// Does not wait for bytes to be sent.
    pub fn flush(&mut self) -> (r: Poll<Result<(), Error>>)
        ensures
            *final(self) == *old(self),
            r == Poll::<Result<(), Error>>::Ready(Ok(())),
    {
        self.io.flush()
    }
}

impl TcpSocket {
    /// The socket in its stack.
    pub closed spec fn handle(&self) -> SocketHandle {
        self.io.handle()
    }

    /// Adds a socket to a stack.
    pub fn new(stack: &mut SocketStack, rx_buffer: Vec<u8>, tx_buffer: Vec<u8>) -> (r: Self)
        requires
            growable(old(stack).set()),
            rx_buffer@.len() <= 0x4000_0000,
        ensures
            growable(final(stack).set()),
            !sockets(old(stack).set()).dom().contains(r.handle()),
            tcp_replaced(
                old(stack).set(),
                final(stack).set(),
                r.handle(),
                tcp_fresh(rx_buffer@.len(), tx_buffer@.len()),
            ),
            only_sockets(*old(stack), *final(stack)),
    {
        let handle = smol::tcp_add(stack.set_mut(), rx_buffer, tx_buffer);
        TcpSocket { io: TcpIo { handle } }
    }

    /// Splits a socket into a half that reads and a half that writes.
    pub fn split(&mut self) -> (r: (TcpReader, TcpWriter))
        ensures
            *final(self) == *old(self),
            r.0.handle() == old(self).handle(),
            r.1.handle() == old(self).handle(),
    {
        (TcpReader { io: self.io }, TcpWriter { io: self.io })
    }

    /// Starts to connect, from a port that is handed out for it. A socket that was refused is
    /// unchanged; the port is spent in any case.
    pub fn connect(&mut self, stack: &mut SocketStack, remote_endpoint: Endpoint) -> (r: Result<
        (),
        ConnectError,
    >)
        requires
            old(stack).has_port(),
            is_tcp(old(stack).set(), old(self).handle()),
        ensures
            *final(self) == *old(self),
            connect_started(*old(stack), *final(stack), old(self).handle(), remote_endpoint, r),
    {
        let local_port: u16 = stack.get_local_port();
        let (iface, set) = stack.parts_mut();
        let connected = smol::tcp_connect(
            set,
            iface,
            self.io.handle,
            remote_endpoint,
            local_port,
        );
        stack.wake();
        match connected {
            Ok(()) => Ok(()),
            Err(refused) => Err(connect_error(refused)),
        }
    }

    /// Tells whether the connection was made, or registers `waker` until that is known. Nothing had
    /// come from the remote end for `silent` microseconds when the socket last woke its task; that
    /// is zero where a packet, such as a RST, made it do so.
    pub fn poll_connect(&mut self, stack: &mut SocketStack, waker: &Waker, silent: u64) -> (r:
        Poll<Result<(), ConnectError>>)
        requires
            is_tcp(old(stack).set(), old(self).handle()),
            tcp_at(old(stack).set(), old(self).handle()).state != State::Listen,
        ensures
            *final(self) == *old(self),
            connect_polled(*old(stack), *final(stack), old(self).handle(), *waker, silent, r),
    {
        let state = smol::tcp_state(stack.set_ref(), self.io.handle);
        let timeout = smol::tcp_timeout(stack.set_ref(), self.io.handle);
        let progress = connect_progress(state, timeout, silent);
        if let Poll::Pending = progress {
            smol::tcp_register_send(stack.set_mut(), self.io.handle, waker);
        }
        stack.wake();
        proof {
            let s = tcp_at(old(stack).set(), self.handle());
            let a = old(stack).set();
            lemma_tcp_replaced(a, a, a, self.handle(), s, s);
        }
        progress
    }

    /// Starts to listen. A socket that was refused is unchanged.
    pub fn accept(&mut self, stack: &mut SocketStack, local_endpoint: ListenEndpoint) -> (r: Result<
        (),
        AcceptError,
    >)
        requires
            is_tcp(old(stack).set(), old(self).handle()),
        ensures
            *final(self) == *old(self),
            accept_started(*old(stack), *final(stack), old(self).handle(), local_endpoint, r),
    {
        let listening = smol::tcp_listen(stack.set_mut(), self.io.handle, local_endpoint);
        stack.wake();
        match listening {
            Ok(()) => Ok(()),
            Err(refused) => Err(accept_error(refused)),
        }
    }

    /// Tells whether a connection came in, or registers `waker` until one does. Nothing had come
    /// from the remote end for `silent` microseconds when the socket last woke its task; that is
    /// zero where a packet, such as a RST, made it do so.
    pub fn poll_accept(&mut self, stack: &mut SocketStack, waker: &Waker, silent: u64) -> (r: Poll<
        Result<(), AcceptError>,
    >)
        requires
            is_tcp(old(stack).set(), old(self).handle()),
        ensures
            *final(self) == *old(self),
            accept_polled(*old(stack), *final(stack), old(self).handle(), *waker, silent, r),
    {
        let state = smol::tcp_state(stack.set_ref(), self.io.handle);
        let timeout = smol::tcp_timeout(stack.set_ref(), self.io.handle);
        let progress = accept_progress(state, timeout, silent);
        if let Poll::Pending = progress {
            smol::tcp_register_send(stack.set_mut(), self.io.handle, waker);
        }
        stack.wake();
        proof {
            let s = tcp_at(old(stack).set(), self.handle());
            let a = old(stack).set();
            lemma_tcp_replaced(a, a, a, self.handle(), s, s);
        }
        progress
    }

    /// Reads bytes, or registers `waker` until there are any.
    pub fn read(&mut self, stack: &mut SocketStack, waker: &Waker, buf: &mut [u8]) -> (r: Poll<
        Result<usize, Error>,
    >)
        requires
            is_tcp(old(stack).set(), old(self).handle()),
        ensures
            *final(self) == *old(self),
            read_done(*old(stack), *final(stack), old(self).handle(), *waker, old(buf)@, r),
            final(buf)@ == read_into(*old(stack), old(self).handle(), old(buf)@),
    {
        self.io.read(stack, waker, buf)
    }

    /// Writes bytes, or registers `waker` until there is room for any.
    pub fn write(&mut self, stack: &mut SocketStack, waker: &Waker, buf: &[u8]) -> (r: Poll<
        Result<usize, Error>,
    >)
        requires
            is_tcp(old(stack).set(), old(self).handle()),
        ensures
            *final(self) == *old(self),
            write_done(*old(stack), *final(stack), old(self).handle(), *waker, buf@, r),
    {
        self.io.write(stack, waker, buf)
    }

    /// Does not wait for bytes to be sent.
    pub fn flush(&mut self) -> (r: Poll<Result<(), Error>>)
        ensures
            *final(self) == *old(self),
            r == Poll::<Result<(), Error>>::Ready(Ok(())),
    {
        self.io.flush()
    }

    /// Sets after how many microseconds without an answer the connection is given up.
    pub fn set_timeout(&mut self, stack: &mut SocketStack, duration: Option<u64>)
        requires
            is_tcp(old(stack).set(), old(self).handle()),
        ensures
            *final(self) == *old(self),
            tcp_became(
                *old(stack),
                *final(stack),
                old(self).handle(),
                TcpView { timeout: duration, ..tcp_at(old(stack).set(), old(self).handle()) },
            ),
    {
        smol::tcp_set_timeout(stack.set_mut(), self.io.handle, duration);
        stack.wake();
    }

    /// Sets after how many idle microseconds the remote end is asked for a sign of life.
    pub fn set_keep_alive(&mut self, stack: &mut SocketStack, interval: Option<u64>)
        requires
            is_tcp(old(stack).set(), old(self).handle()),
        ensures
            *final(self) == *old(self),
            tcp_became(
                *old(stack),
                *final(stack),
                old(self).handle(),
                TcpView { keep_alive: interval, ..tcp_at(old(stack).set(), old(self).handle()) },
            ),
    {
        smol::tcp_set_keep_alive(stack.set_mut(), self.io.handle, interval);
        stack.wake();
    }

    /// Sets over how many hops packets may go.
    pub fn set_hop_limit(&mut self, stack: &mut SocketStack, hop_limit: Option<u8>)
        requires
            is_tcp(old(stack).set(), old(self).handle()),
            hop_limit != Some(0u8),
        ensures
            *final(self) == *old(self),
            tcp_became(
                *old(stack),
                *final(stack),
                old(self).handle(),
                TcpView { hop_limit, ..tcp_at(old(stack).set(), old(self).handle()) },
            ),
    {
        smol::tcp_set_hop_limit(stack.set_mut(), self.io.handle, hop_limit);
        stack.wake();
    }

    /// The local end of the connection.
    pub fn local_endpoint(&self, stack: &SocketStack) -> (r: Option<Endpoint>)
        requires
            is_tcp(stack.set(), self.handle()),
        ensures
            r == tcp_at(stack.set(), self.handle()).local,
    {
        smol::tcp_local_endpoint(stack.set_ref(), self.io.handle)
    }

    /// The remote end of the connection.
    pub fn remote_endpoint(&self, stack: &SocketStack) -> (r: Option<Endpoint>)
        requires
            is_tcp(stack.set(), self.handle()),
        ensures
            r == tcp_at(stack.set(), self.handle()).remote,
    {
        smol::tcp_remote_endpoint(stack.set_ref(), self.io.handle)
    }

    /// The state of the connection.
    pub fn state(&self, stack: &SocketStack) -> (r: State)
        requires
            is_tcp(stack.set(), self.handle()),
        ensures
            r == tcp_at(stack.set(), self.handle()).state,
    {
        smol::tcp_state(stack.set_ref(), self.io.handle)
    }

    /// Closes the transmit half of the connection.
    pub fn close(&mut self, stack: &mut SocketStack)
        requires
            is_tcp(old(stack).set(), old(self).handle()),
        ensures
            *final(self) == *old(self),
            tcp_became(
                *old(stack),
                *final(stack),
                old(self).handle(),
                tcp_closed(tcp_at(old(stack).set(), old(self).handle())),
            ),
    {
        smol::tcp_close(stack.set_mut(), self.io.handle);
        stack.wake();
    }

    /// Ends the connection at once.
    pub fn abort(&mut self, stack: &mut SocketStack)
        requires
            is_tcp(old(stack).set(), old(self).handle()),
        ensures
            *final(self) == *old(self),
            tcp_became(
                *old(stack),
                *final(stack),
                old(self).handle(),
                tcp_moved(tcp_at(old(stack).set(), old(self).handle()), State::Closed),
            ),
    {
        smol::tcp_abort(stack.set_mut(), self.io.handle);
        stack.wake();
    }

    /// Whether the transmit half of the connection is open.
    pub fn may_send(&self, stack: &SocketStack) -> (r: bool)
        requires
            is_tcp(stack.set(), self.handle()),
        ensures
            r == may_send(tcp_at(stack.set(), self.handle())),
    {
        smol::tcp_may_send(stack.set_ref(), self.io.handle)
    }

    /// Whether the receive half of the connection is open or has left bytes behind.
    pub fn may_recv(&self, stack: &SocketStack) -> (r: bool)
        requires
            is_tcp(stack.set(), self.handle()),
        ensures
            r == may_recv(tcp_at(stack.set(), self.handle())),
    {
        smol::tcp_may_recv(stack.set_ref(), self.io.handle)
    }

    /// Takes the socket out of its stack.
    pub fn remove(self, stack: &mut SocketStack)
        requires
            is_tcp(old(stack).set(), self.handle()),
        ensures
            sockets(final(stack).set()) == sockets(old(stack).set()).remove(self.handle()),
            old(stack).wf() ==> final(stack).wf(),
            only_sockets(*old(stack), *final(stack)),
    {
        smol::set_remove(stack.set_mut(), self.io.handle);
    }
}

} // verus!
