//! UDP sockets.

use crate::net::smol;
use crate::net::smol::{NotTaken, Refused};
use crate::net::stack::SocketStack;
use crate::net::wire::{Endpoint, ListenEndpoint};
use crate::waker::Poll;
use core::task::Waker;
use smoltcp::iface::SocketHandle;
use smoltcp::socket::udp::PacketMetadata;
use vstd::prelude::*;

#[allow(unused_imports)]
use crate::net::smol::{
    addresses, fits, growable, is_udp, lemma_udp_replaced, overwritten, receivable, shorter,
    sockets, udp_at, udp_emptied, udp_fresh, udp_full, udp_replaced, udp_sound, udp_took, UdpView,
};
#[allow(unused_imports)]
use crate::net::stack::{
    lemma_ports_differ, next_port, nth_port, only_sockets, touched, udp_became, LOCAL_PORT_MIN,
};
#[allow(unused_imports)]
use crate::ring_buffer::{lemma_wraps_around, wrapped};
#[allow(unused_imports)]
use crate::stream::flows;
#[allow(unused_imports)]
use crate::waker::after_wake;

verus! {

/// Why a socket was not bound.
#[derive(Clone, Copy, Debug, PartialEq, Eq, Structural)]
pub enum BindError {
    /// The socket was already open.
    InvalidState,
    /// No route to host.
    NoRoute,
}

/// Why a datagram was not sent.
#[derive(Clone, Copy, Debug, PartialEq, Eq, Structural)]
pub enum Error {
    /// No route to host.
    NoRoute,
}

/// What a refusal to be bound means to the caller.
pub fn bind_error(refused: Refused) -> (r: BindError)
    ensures
        refused == Refused::InvalidState ==> r == BindError::InvalidState,
        refused == Refused::Unaddressable ==> r == BindError::NoRoute,
{
    match refused {
        Refused::InvalidState => BindError::InvalidState,
        Refused::Unaddressable => BindError::NoRoute,
    }
}

/// What handing a datagram to a socket means to the sender. Room in the buffer is waited for.
pub open spec fn sending(taken: Result<(), NotTaken>) -> Poll<Result<(), Error>> {
    match taken {
        Ok(_) => Poll::Ready(Ok(())),
        Err(NotTaken::BufferFull) => Poll::Pending,
        Err(NotTaken::Unaddressable) => Poll::Ready(Err(Error::NoRoute)),
    }
}

/// Tells a sender the outcome of handing a datagram to a socket.
pub fn send_progress(taken: Result<(), NotTaken>) -> (r: Poll<Result<(), Error>>)
    ensures
        r == sending(taken),
{
    match taken {
        Ok(()) => Poll::Ready(Ok(())),
        Err(NotTaken::BufferFull) => Poll::Pending,
        Err(NotTaken::Unaddressable) => Poll::Ready(Err(Error::NoRoute)),
    }
}

/// The endpoint that a socket is bound to on request: a port is filled in where none is given.
pub open spec fn bound_to(endpoint: ListenEndpoint, next_local_port: u16) -> ListenEndpoint {
    if endpoint.port == 0 {
        ListenEndpoint { addr: endpoint.addr, port: next_local_port }
    } else {
        endpoint
    }
}

/// The datagram that a receive takes out of a socket.
pub open spec fn oldest(s: UdpView) -> Option<(Seq<u8>, Endpoint)> {
    if s.rx.len() > 0 {
        Some(s.rx[0])
    } else {
        None
    }
}

/// The bytes of a datagram that fit into a buffer of `room` bytes.
pub open spec fn fitting(datagram: Seq<u8>, room: nat) -> Seq<u8> {
    datagram.take(shorter(datagram.len() as int, room as int))
}

/// Whether a socket and an endpoint are complete enough to send.
pub open spec fn has_route(s: UdpView, remote: Endpoint) -> bool {
    s.endpoint.port != 0 && remote.is_specified()
}

/// Whether a request to be bound went as the socket demands. A port is handed out where none is
/// given, even to a socket that is bound already.
pub open spec fn bind_done(
    before: SocketStack,
    after: SocketStack,
    handle: SocketHandle,
    endpoint: ListenEndpoint,
    r: Result<(), BindError>,
) -> bool {
    let s = udp_at(before.set(), handle);
    &&& after.has_port()
    &&& growable(after.set()) == growable(before.set())
    &&& touched(before, after)
    &&& after.next_local_port() == (if endpoint.port == 0 {
        next_port(before.next_local_port())
    } else {
        before.next_local_port()
    })
    &&& if s.endpoint.port != 0 {
        r == Err::<(), BindError>(BindError::InvalidState) && after.set() == before.set()
    } else {
        r == Ok::<(), BindError>(()) && udp_replaced(
            before.set(),
            after.set(),
            handle,
            UdpView {
                endpoint: bound_to(endpoint, before.next_local_port()),
                recv_waker: None,
                send_waker: None,
                ..s
            },
        )
    }
}

/// Whether a receive into `buf`, which left `filled` in it, went as the socket demands.
pub open spec fn recv_done(
    before: SocketStack,
    after: SocketStack,
    handle: SocketHandle,
    waker: Waker,
    buf: Seq<u8>,
    filled: Seq<u8>,
    r: Poll<Result<(usize, Endpoint), Error>>,
) -> bool {
    let s = udp_at(before.set(), handle);
    &&& after.runner() is None
    &&& after.next_local_port() == before.next_local_port()
    &&& match oldest(s) {
        Some((datagram, remote)) => {
            let bytes = fitting(datagram, buf.len());
            &&& r == Poll::Ready(Ok::<(usize, Endpoint), Error>((bytes.len() as usize, remote)))
            &&& filled == overwritten(buf, bytes)
            &&& udp_became(before, after, handle, UdpView { rx: s.rx.skip(1), ..s })
        },
        None => {
            &&& r is Pending
            &&& filled == buf
            &&& after.due() == after_wake(before.due().push(waker), before.runner())
            &&& addresses(after.iface()) == addresses(before.iface())
            &&& udp_replaced(
                before.set(),
                after.set(),
                handle,
                UdpView { rx_padding: false, ..s },
            )
        },
    }
}

/// Whether handing over the datagram `buf` went as the socket demands.
pub open spec fn send_done(
    before: SocketStack,
    after: SocketStack,
    handle: SocketHandle,
    waker: Waker,
    buf: Seq<u8>,
    remote: Endpoint,
    r: Poll<Result<(), Error>>,
) -> bool {
    let s = udp_at(before.set(), handle);
    if !has_route(s, remote) {
        &&& r == Poll::<Result<(), Error>>::Ready(Err(Error::NoRoute))
        &&& udp_became(before, after, handle, s)
    } else if fits(s, buf.len()) {
        &&& r == Poll::<Result<(), Error>>::Ready(Ok(()))
        &&& udp_became(before, after, handle, udp_took(s, buf, remote))
    } else {
        &&& r is Pending
        &&& udp_became(
            before,
            after,
            handle,
            UdpView { send_waker: Some(waker), ..udp_full(s, buf.len()) },
        )
    }
}

/// A UDP socket.
pub struct UdpSocket {
    handle: SocketHandle,
}

impl UdpSocket {
    /// The socket in its stack.
    pub closed spec fn handle(&self) -> SocketHandle {
        self.handle
    }

    /// Adds a socket to a stack.
    pub fn new(
        stack: &mut SocketStack,
        rx_meta: Vec<PacketMetadata>,
        rx_buffer: Vec<u8>,
        tx_meta: Vec<PacketMetadata>,
        tx_buffer: Vec<u8>,
    ) -> (r: Self)
        requires
            growable(old(stack).set()),
        ensures
            growable(final(stack).set()),
            !sockets(old(stack).set()).dom().contains(r.handle()),
            udp_replaced(
                old(stack).set(),
                final(stack).set(),
                r.handle(),
                udp_fresh(
                    rx_meta@.len(),
                    rx_buffer@.len(),
                    tx_meta@.len(),
                    tx_buffer@.len(),
                ),
            ),
            only_sockets(*old(stack), *final(stack)),
    {
        let handle = smol::udp_add(stack.set_mut(), rx_meta, rx_buffer, tx_meta, tx_buffer);
        UdpSocket { handle }
    }

    /// Binds a socket that is not bound yet. Where no port is given, one is handed out, even to a
    /// socket that is bound already.
    pub fn bind(&mut self, stack: &mut SocketStack, endpoint: ListenEndpoint) -> (r: Result<
        (),
        BindError,
    >)
        requires
            old(stack).has_port(),
            is_udp(old(stack).set(), old(self).handle()),
        ensures
            *final(self) == *old(self),
            bind_done(*old(stack), *final(stack), old(self).handle(), endpoint, r),
    {
        let mut endpoint = endpoint;
        if endpoint.port == 0 {
            endpoint.port = stack.get_local_port();
        }
        let bound = smol::udp_bind(stack.set_mut(), self.handle, endpoint);
        stack.wake();
        match bound {
            Ok(()) => Ok(()),
            Err(refused) => Err(bind_error(refused)),
        }
    }

    /// Receives the oldest datagram; what does not fit into `buf` is lost. Without a datagram the
    /// task is woken at once to ask again.
    pub fn recv_from(&self, stack: &mut SocketStack, waker: &Waker, buf: &mut [u8]) -> (r: Poll<
        Result<(usize, Endpoint), Error>,
    >)
        requires
            is_udp(old(stack).set(), self.handle()),
        ensures
            recv_done(
                *old(stack),
                *final(stack),
                self.handle(),
                *waker,
                old(buf)@,
                final(buf)@,
                r,
            ),
    {
        match smol::udp_recv(stack.set_mut(), self.handle, buf) {
            Some(x) => {
                stack.wake();
                Poll::Ready(Ok(x))
            },
            None => {
                stack.wake_later(smol::waker_clone(waker));
                stack.wake();
                Poll::Pending
            },
        }
    }

    /// Hands a datagram to the socket, or registers `waker` until there is room for it.
    pub fn send_to(
        &self,
        stack: &mut SocketStack,
        waker: &Waker,
        buf: &[u8],
        remote_endpoint: Endpoint,
    ) -> (r: Poll<Result<(), Error>>)
        requires
            is_udp(old(stack).set(), self.handle()),
        ensures
            send_done(*old(stack), *final(stack), self.handle(), *waker, buf@, remote_endpoint, r),
    {
        let ghost s = udp_at(stack.set(), self.handle());
        let taken = smol::udp_send(stack.set_mut(), self.handle, buf, remote_endpoint);
        let ghost mid = stack.set();
        let progress = send_progress(taken);
        if let Poll::Pending = progress {
            smol::udp_register_send(stack.set_mut(), self.handle, waker);
        }
        stack.wake();
        proof {
            let full = udp_full(s, buf@.len());
            lemma_udp_replaced(
                old(stack).set(),
                mid,
                stack.set(),
                self.handle(),
                full,
                UdpView { send_waker: Some(*waker), ..full },
            );
        }
        progress
    }

    /// The endpoint that the socket is bound to.
    pub fn endpoint(&self, stack: &SocketStack) -> (r: ListenEndpoint)
        requires
            is_udp(stack.set(), self.handle()),
        ensures
            r == udp_at(stack.set(), self.handle()).endpoint,
    {
        smol::udp_endpoint(stack.set_ref(), self.handle)
    }

    /// Whether the socket is bound.
    pub fn is_open(&self, stack: &SocketStack) -> (r: bool)
        requires
            is_udp(stack.set(), self.handle()),
        ensures
            r == (udp_at(stack.set(), self.handle()).endpoint.port != 0),
    {
        smol::udp_is_open(stack.set_ref(), self.handle)
    }

    /// Unbinds the socket and drops its datagrams.
    pub fn close(&mut self, stack: &mut SocketStack)
        requires
            is_udp(old(stack).set(), old(self).handle()),
        ensures
            *final(self) == *old(self),
            ({
                let s = udp_at(old(stack).set(), old(self).handle());
                udp_became(
                    *old(stack),
                    *final(stack),
                    old(self).handle(),
                    udp_emptied(s),
                )
            }),
    {
        smol::udp_close(stack.set_mut(), self.handle);
        stack.wake();
    }

    /// Whether there is room for a datagram, if only for an empty one.
    pub fn may_send(&self, stack: &SocketStack) -> (r: bool)
        requires
            is_udp(stack.set(), self.handle()),
        ensures
            ({
                let s = udp_at(stack.set(), self.handle());
                r == (s.tx_entries < s.tx_slots)
            }),
    {
        smol::udp_can_send(stack.set_ref(), self.handle)
    }

    /// Whether there may be a datagram. If not, there is none.
    pub fn may_recv(&self, stack: &SocketStack) -> (r: bool)
        requires
            is_udp(stack.set(), self.handle()),
        ensures
            r == receivable(udp_at(stack.set(), self.handle())),
            !r ==> oldest(udp_at(stack.set(), self.handle())) is None,
    {
        smol::udp_can_recv(stack.set_ref(), self.handle)
    }

    /// Takes the socket out of its stack.
    pub fn remove(self, stack: &mut SocketStack)
        requires
            is_udp(old(stack).set(), self.handle()),
        ensures
            sockets(final(stack).set()) == sockets(old(stack).set()).remove(self.handle()),
            old(stack).wf() ==> final(stack).wf(),
            only_sockets(*old(stack), *final(stack)),
    {
        smol::set_remove(stack.set_mut(), self.handle);
    }
}

/// A socket is always bound to a port: where none is asked for, the next one is filled in whatever
/// the address, and a port that was asked for is kept.
pub proof fn lemma_bound_to_a_port(endpoint: ListenEndpoint, next_local_port: u16)
    requires
        LOCAL_PORT_MIN <= next_local_port,
    ensures
        bound_to(endpoint, next_local_port).port != 0,
        bound_to(endpoint, next_local_port).addr == endpoint.addr,
        endpoint.port == 0 ==> bound_to(endpoint, next_local_port).port == next_local_port,
        endpoint.port != 0 ==> bound_to(endpoint, next_local_port) == endpoint,
{
}

/// Datagrams are received in the order in which they came in, each once and from its sender.
pub proof fn lemma_datagrams_in_order(s: UdpView)
    requires
        oldest(s) is Some,
    ensures
        flows(s.rx, Seq::empty(), seq![oldest(s)->Some_0], s.rx.skip(1)),
{
    assert(s.rx + Seq::empty() =~= seq![s.rx[0]] + s.rx.skip(1));
}

/// Datagrams are sent in the order in which they were handed over, each once and to its receiver.
pub proof fn lemma_datagrams_sent_in_order(s: UdpView, datagram: Seq<u8>, remote: Endpoint)
    ensures
        flows(s.tx, seq![(datagram, remote)], Seq::empty(), udp_took(s, datagram, remote).tx),
{
    assert(s.tx + seq![(datagram, remote)] =~= Seq::empty() + s.tx.push((datagram, remote)));
}

/// A transmit buffer that is filled from its front takes datagrams until its bytes or its
/// descriptions are used up: one that finds both is taken, and uses what it needs of them.
pub proof fn lemma_fills_in_turn(s: UdpView, datagram: Seq<u8>, remote: Endpoint)
    requires
        udp_sound(s),
        s.tx_at == 0,
        s.tx_used + datagram.len() <= s.tx_bytes,
        s.tx_entries < s.tx_slots,
    ensures
        fits(s, datagram.len()),
        ({
            let after = udp_took(s, datagram, remote);
            &&& udp_sound(after)
            &&& after.tx_at == 0
            &&& after.tx_used == s.tx_used + datagram.len()
            &&& after.tx_entries == s.tx_entries + 1
        }),
{
    if s.tx_used > 0 && s.tx_used < s.tx_bytes {
        vstd::arithmetic::div_mod::lemma_small_mod(s.tx_used, s.tx_bytes);
    }
}

/// A socket has room for an empty datagram exactly if it has a description left, and no room for
/// any datagram otherwise.
pub proof fn lemma_room_for_any(s: UdpView, size: nat)
    requires
        udp_sound(s),
    ensures
        fits(s, 0) <==> s.tx_entries < s.tx_slots,
        fits(s, size) ==> s.tx_entries < s.tx_slots && s.tx_used + size <= s.tx_bytes,
{
    if s.tx_used > 0 {
        vstd::arithmetic::div_mod::lemma_mod_bound(
            (s.tx_at + s.tx_used) as int,
            s.tx_bytes as int,
        );
    }
}

/// A datagram is received whole exactly if the buffer has room for all of it.
pub proof fn lemma_received_whole(datagram: Seq<u8>, room: nat)
    ensures
        fitting(datagram, room) == datagram <==> datagram.len() <= room,
        fitting(datagram, room).is_prefix_of(datagram),
        fitting(datagram, room).len() <= room,
        datagram.len() > room ==> fitting(datagram, room).len() == room,
{
    if datagram.len() <= room {
        assert(fitting(datagram, room) =~= datagram);
    }
}

/// A socket that is not bound is bound on request, to the address that was asked for and the port
/// that was asked for. Where none was, it gets the port that is next, and the port after that is
/// next from then on. A socket that is bound is left alone.
pub proof fn lemma_bind_outcome(
    before: SocketStack,
    after: SocketStack,
    handle: SocketHandle,
    endpoint: ListenEndpoint,
    r: Result<(), BindError>,
)
    requires
        bind_done(before, after, handle, endpoint, r),
    ensures
        ({
            let s = udp_at(before.set(), handle);
            let t = udp_at(after.set(), handle);
            let port = before.next_local_port();
            &&& touched(before, after)
            &&& after.next_local_port() == if endpoint.port != 0 {
                port as int
            } else if port == 65535 {
                1025
            } else {
                port + 1
            }
            &&& if s.endpoint.port == 0 {
                &&& r is Ok
                &&& is_udp(after.set(), handle)
                &&& t.endpoint.addr == endpoint.addr
                &&& endpoint.port != 0 ==> t.endpoint.port == endpoint.port
                &&& endpoint.port == 0 ==> t.endpoint.port == port
                &&& t.recv_waker is None && t.send_waker is None
                &&& t == (UdpView {
                    endpoint: t.endpoint,
                    recv_waker: t.recv_waker,
                    send_waker: t.send_waker,
                    ..s
                })
            } else {
                &&& r == Err::<(), BindError>(BindError::InvalidState)
                &&& after.set() == before.set()
            }
        }),
{
}

/// Two sockets that are bound without a port being asked for get different ports, whatever their
/// addresses, unless every other port was handed out in between.
pub proof fn lemma_bound_apart(
    first: (SocketStack, SocketStack),
    second: (SocketStack, SocketStack),
    handles: (SocketHandle, SocketHandle),
    endpoints: (ListenEndpoint, ListenEndpoint),
    port: u16,
    i: nat,
    j: nat,
)
    requires
        LOCAL_PORT_MIN <= port,
        i < j < i + 64511,
        first.0.next_local_port() == nth_port(port, i),
        second.0.next_local_port() == nth_port(port, j),
        endpoints.0.port == 0,
        endpoints.1.port == 0,
        udp_at(first.0.set(), handles.0).endpoint.port == 0,
        udp_at(second.0.set(), handles.1).endpoint.port == 0,
        bind_done(first.0, first.1, handles.0, endpoints.0, Ok(())),
        bind_done(second.0, second.1, handles.1, endpoints.1, Ok(())),
    ensures
        udp_at(first.1.set(), handles.0).endpoint.port != udp_at(
            second.1.set(),
            handles.1,
        ).endpoint.port,
        first.1.next_local_port() == nth_port(port, i + 1),
{
    lemma_ports_differ(port, i, j);
}

/// A receive gives the datagram that came in first, with its sender, and takes it out. As much of
/// it as fits is put at the front of the buffer, and the rest of the buffer stays. Without a
/// datagram the buffer stays, and the task is woken to ask again.
pub proof fn lemma_recv_outcome(
    before: SocketStack,
    after: SocketStack,
    handle: SocketHandle,
    waker: Waker,
    buf: Seq<u8>,
    filled: Seq<u8>,
    r: Poll<Result<(usize, Endpoint), Error>>,
)
    requires
        buf.len() <= usize::MAX,
        recv_done(before, after, handle, waker, buf, filled, r),
    ensures
        ({
            let s = udp_at(before.set(), handle);
            let t = udp_at(after.set(), handle);
            &&& is_udp(after.set(), handle)
            &&& filled.len() == buf.len()
            &&& after.next_local_port() == before.next_local_port()
            &&& if s.rx.len() > 0 {
                &&& r matches Poll::Ready(Ok((n, remote)))
                &&& remote == s.rx[0].1
                &&& n <= s.rx[0].0.len()
                &&& n <= buf.len()
                &&& n == s.rx[0].0.len() || n == buf.len()
                &&& forall|i: int| 0 <= i < n ==> filled[i] == s.rx[0].0[i]
                &&& forall|i: int| n <= i < buf.len() ==> filled[i] == buf[i]
                &&& t == (UdpView { rx: t.rx, ..s })
                &&& seq![s.rx[0]] + t.rx == s.rx
                &&& touched(before, after)
            } else {
                &&& r is Pending
                &&& filled == buf
                &&& t == (UdpView { rx_padding: t.rx_padding, ..s })
                &&& !receivable(t)
                &&& after.runner() is None
                &&& before.due().push(waker).is_prefix_of(after.due())
                &&& before.runner() is None ==> after.due() == before.due().push(waker)
                &&& before.runner() matches Some(w) ==> after.due() == before.due().push(
                    waker,
                ).push(w)
            }
        }),
{
    let s = udp_at(before.set(), handle);
    if s.rx.len() > 0 {
        assert(seq![s.rx[0]] + s.rx.skip(1) =~= s.rx);
    }
}

/// A datagram goes nowhere exactly if the socket is not bound or the remote endpoint is incomplete.
/// Otherwise it joins the end of those to be sent, whole and with its receiver, or there is no room
/// for it and the sender is registered. Nothing else that is to be sent or was received changes.
pub proof fn lemma_send_outcome(
    before: SocketStack,
    after: SocketStack,
    handle: SocketHandle,
    waker: Waker,
    buf: Seq<u8>,
    remote: Endpoint,
    r: Poll<Result<(), Error>>,
)
    requires
        udp_sound(udp_at(before.set(), handle)),
        send_done(before, after, handle, waker, buf, remote, r),
    ensures
        ({
            let s = udp_at(before.set(), handle);
            let t = udp_at(after.set(), handle);
            &&& is_udp(after.set(), handle)
            &&& r == Poll::<Result<(), Error>>::Ready(Err(Error::NoRoute)) <==> s.endpoint.port == 0
                || !remote.is_specified()
            &&& t.rx == s.rx && t.endpoint == s.endpoint && t.recv_waker == s.recv_waker
            &&& match r {
                Poll::Ready(Ok(_)) => {
                    &&& t.tx == s.tx.push((buf, remote))
                    &&& t.send_waker == s.send_waker
                    &&& s.tx_entries < s.tx_slots
                    &&& s.tx_used + buf.len() <= s.tx_bytes
                },
                Poll::Ready(Err(_)) => t == s,
                Poll::Pending => {
                    &&& t.tx == s.tx
                    &&& t.send_waker == Some(waker)
                    &&& s.tx_used == 0 ==> s.tx_entries == s.tx_slots || buf.len() > s.tx_bytes
                },
            }
        }),
{
    lemma_room_for_any(udp_at(before.set(), handle), buf.len());
}

/// The contents of a transmit buffer stand in one row, or go over its end. In the first case a
/// datagram fits between them and the end, or with padding between the front and them; in the
/// second it fits wherever there are bytes enough.
pub proof fn lemma_fits_where(s: UdpView, size: nat)
    requires
        udp_sound(s),
        s.tx_used > 0,
    ensures
        s.tx_at + s.tx_used < s.tx_bytes ==> (fits(s, size) <==> {
            ||| s.tx_entries < s.tx_slots && s.tx_at + s.tx_used + size <= s.tx_bytes
            ||| s.tx_entries + 1 < s.tx_slots && size <= s.tx_at
        }),
        s.tx_at + s.tx_used >= s.tx_bytes ==> (fits(s, size) <==> s.tx_entries < s.tx_slots
            && s.tx_used + size <= s.tx_bytes),
{
    lemma_wraps_around((s.tx_at + s.tx_used) as int, s.tx_bytes as int);
}

/// What a transmit buffer takes stays within it, and uses the bytes of the datagram and one
/// description, or padding and two.
pub proof fn lemma_took_soundly(s: UdpView, datagram: Seq<u8>, remote: Endpoint)
    requires
        udp_sound(s),
        fits(s, datagram.len()),
    ensures
        ({
            let t = udp_took(s, datagram, remote);
            &&& udp_sound(t)
            &&& s.tx_used + datagram.len() <= t.tx_used
            &&& t.tx_entries == s.tx_entries + 1 ==> t.tx_used == s.tx_used + datagram.len()
            &&& t.tx_entries == s.tx_entries + 1 || t.tx_entries == s.tx_entries + 2
            &&& s.tx_used > 0 ==> t.tx_at == s.tx_at
        }),
{
    if s.tx_used > 0 {
        lemma_wraps_around((s.tx_at + s.tx_used) as int, s.tx_bytes as int);
    }
}

/// A socket that was closed is not bound and holds no datagram, as a new one, with the same
/// buffers.
pub proof fn lemma_closed_is_as_new(s: UdpView)
    ensures
        ({
            let t = udp_emptied(s);
            &&& t.endpoint.port == 0 && t.endpoint.addr is None
            &&& t.rx.len() == 0 && t.tx.len() == 0
            &&& t.tx_used == 0 && t.tx_entries == 0
            &&& t.recv_waker is None && t.send_waker is None
            &&& !receivable(t)
            &&& udp_fresh(s.rx_slots, s.rx_bytes, s.tx_slots, s.tx_bytes) == t
            &&& t.rx_slots == s.rx_slots && t.rx_bytes == s.rx_bytes
            &&& t.tx_slots == s.tx_slots && t.tx_bytes == s.tx_bytes
            &&& udp_sound(t)
        }),
{
}

/// Handing a datagram over succeeds, has to wait for room, or fails for want of a route.
pub proof fn lemma_sending(taken: Result<(), NotTaken>)
    ensures
        sending(taken) is Pending <==> taken == Err::<(), NotTaken>(NotTaken::BufferFull),
        sending(taken) == Poll::<Result<(), Error>>::Ready(Ok(())) <==> taken is Ok,
{
}

} // verus!
