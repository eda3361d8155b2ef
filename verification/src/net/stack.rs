//! The sockets of a device and the interface that serves them.

use crate::net::smol;
use crate::waker::WakerRegistration;
use core::task::Waker;
use smoltcp::iface::{Interface, SocketHandle, SocketSet};
use vstd::prelude::*;

#[allow(unused_imports)]
use crate::net::smol::{
    addresses, growable, is_tcp, is_udp, sockets, tcp_at, tcp_replaced, udp_at, udp_replaced,
    TcpView, UdpView,
};
#[allow(unused_imports)]
use crate::waker::after_wake;

verus! {

/// The first of the ports that are handed out.
pub const LOCAL_PORT_MIN: u16 = 1025;

/// The last of the ports that are handed out.
pub const LOCAL_PORT_MAX: u16 = 65535;

/// Everything that sockets share.
pub struct SocketStack {
    sockets: SocketSet<'static>,
    iface: Interface,
    waker: WakerRegistration<Waker>,
    due: Vec<Waker>,
    next_local_port: u16,
}

/// The port that is handed out after `port`.
pub open spec fn next_port(port: u16) -> u16 {
    if port == LOCAL_PORT_MAX {
        LOCAL_PORT_MIN
    } else {
        (port + 1) as u16
    }
}

/// Whether nothing but the sockets changed.
pub open spec fn only_sockets(before: SocketStack, after: SocketStack) -> bool {
    &&& after.iface() == before.iface()
    &&& after.runner() == before.runner()
    &&& after.due() == before.due()
    &&& after.next_local_port() == before.next_local_port()
}

/// Whether the task that moves packets was woken, with the addresses of the interface unchanged.
pub open spec fn touched(before: SocketStack, after: SocketStack) -> bool {
    &&& after.runner() is None
    &&& after.due() == after_wake(before.due(), before.runner())
    &&& addresses(after.iface()) == addresses(before.iface())
}

/// Whether a TCP socket took the given form, with the task that moves packets woken.
pub open spec fn tcp_became(
    before: SocketStack,
    after: SocketStack,
    handle: SocketHandle,
    socket: TcpView,
) -> bool {
    &&& touched(before, after)
    &&& after.next_local_port() == before.next_local_port()
    &&& tcp_replaced(before.set(), after.set(), handle, socket)
}

/// Whether a UDP socket took the given form, with the task that moves packets woken.
pub open spec fn udp_became(
    before: SocketStack,
    after: SocketStack,
    handle: SocketHandle,
    socket: UdpView,
) -> bool {
    &&& touched(before, after)
    &&& after.next_local_port() == before.next_local_port()
    &&& udp_replaced(before.set(), after.set(), handle, socket)
}

impl SocketStack {
    /// The sockets.
    pub closed spec fn set(&self) -> SocketSet<'static> {
        self.sockets
    }

    /// The interface that serves the sockets.
    pub closed spec fn iface(&self) -> Interface {
        self.iface
    }

    /// The waker of the task that moves packets between the interface and the sockets.
    pub closed spec fn runner(&self) -> Option<Waker> {
        self.waker@
    }

    /// The tasks to wake.
    pub closed spec fn due(&self) -> Seq<Waker> {
        self.due@
    }

    /// The port that is handed out next.
    pub closed spec fn next_local_port(&self) -> u16 {
        self.next_local_port
    }

    /// Whether the next port can be handed out.
    pub open spec fn has_port(&self) -> bool {
        LOCAL_PORT_MIN <= self.next_local_port()
    }

    /// Whether sockets can be added and the next port can be handed out.
    pub open spec fn wf(&self) -> bool {
        growable(self.set()) && self.has_port()
    }

    /// A stack without sockets, which starts handing out ports with `next_local_port`.
    pub fn new(iface: Interface, next_local_port: u16) -> (r: Self)
        requires
            LOCAL_PORT_MIN <= next_local_port,
        ensures
            r.wf(),
            sockets(r.set()).dom() == Set::<SocketHandle>::empty(),
            r.iface() == iface,
            r.runner() is None,
            r.due() == Seq::<Waker>::empty(),
            r.next_local_port() == next_local_port,
    {
        SocketStack {
            sockets: smol::set_new(),
            iface,
            waker: WakerRegistration::new(),
            due: Vec::new(),
            next_local_port,
        }
    }

    /// Hands out a port. The ports come in turn, from the last one back to the first.
    pub fn get_local_port(&mut self) -> (r: u16)
        requires
            old(self).has_port(),
        ensures
            r == old(self).next_local_port(),
            final(self).next_local_port() == next_port(r),
            final(self).has_port(),
            final(self).set() == old(self).set(),
            final(self).iface() == old(self).iface(),
            final(self).runner() == old(self).runner(),
            final(self).due() == old(self).due(),
    {
        let port: u16 = self.next_local_port;
        self.next_local_port = if port == LOCAL_PORT_MAX {
            LOCAL_PORT_MIN
        } else {
            port + 1
        };
        port
    }

    /// Registers the waker of the task that moves packets, in place of the one before.
    pub fn register(&mut self, waker: Waker)
        ensures
            final(self).runner() == Some(waker),
            final(self).set() == old(self).set(),
            final(self).iface() == old(self).iface(),
            final(self).due() == old(self).due(),
            final(self).next_local_port() == old(self).next_local_port(),
    {
        self.waker.register(waker);
    }

    /// Wakes the task that moves packets.
    pub fn wake(&mut self)
        ensures
            touched(*old(self), *final(self)),
            final(self).set() == old(self).set(),
            final(self).iface() == old(self).iface(),
            final(self).next_local_port() == old(self).next_local_port(),
    {
        self.waker.wake(&mut self.due);
    }

    /// Puts a task at the end of those to wake.
    pub(crate) fn wake_later(&mut self, waker: Waker)
        ensures
            final(self).due() == old(self).due().push(waker),
            final(self).set() == old(self).set(),
            final(self).iface() == old(self).iface(),
            final(self).runner() == old(self).runner(),
            final(self).next_local_port() == old(self).next_local_port(),
    {
        self.due.push(waker);
    }

    /// Takes the tasks to wake.
    pub fn take_due(&mut self) -> (r: Vec<Waker>)
        ensures
            r@ == old(self).due(),
            final(self).due() == Seq::<Waker>::empty(),
            final(self).set() == old(self).set(),
            final(self).iface() == old(self).iface(),
            final(self).runner() == old(self).runner(),
            final(self).next_local_port() == old(self).next_local_port(),
    {
        let mut due: Vec<Waker> = Vec::new();
        core::mem::swap(&mut due, &mut self.due);
        due
    }

    /// Shows the sockets.
    pub fn set_ref(&self) -> (r: &SocketSet<'static>)
        ensures
            *r == self.set(),
    {
        &self.sockets
    }

    /// Lends the sockets.
    pub(crate) fn set_mut(&mut self) -> (r: &mut SocketSet<'static>)
        ensures
            *r == old(self).set(),
            final(self).set() == *final(r),
            only_sockets(*old(self), *final(self)),
    {
        &mut self.sockets
    }

    /// Lends the interface and the sockets, for packets to be moved between them. The set has to
    /// stay one that grows.
    pub fn parts_mut(&mut self) -> (r: (&mut Interface, &mut SocketSet<'static>))
        ensures
            *r.0 == old(self).iface(),
            *r.1 == old(self).set(),
            final(self).iface() == *final(r.0),
            final(self).set() == *final(r.1),
            final(self).runner() == old(self).runner(),
            final(self).due() == old(self).due(),
            final(self).next_local_port() == old(self).next_local_port(),
    {
        (&mut self.iface, &mut self.sockets)
    }
}

/// The port that is handed out `n` calls after `port`.
pub open spec fn nth_port(port: u16, n: nat) -> u16
    decreases n,
{
    if n == 0 {
        port
    } else {
        next_port(nth_port(port, (n - 1) as nat))
    }
}

/// The ports that are handed out go up one by one and start over with the first one after the last.
pub proof fn lemma_nth_port(port: u16, n: nat)
    requires
        LOCAL_PORT_MIN <= port,
    ensures
        LOCAL_PORT_MIN <= nth_port(port, n),
        nth_port(port, n) - LOCAL_PORT_MIN == (port - LOCAL_PORT_MIN + n) % 64511,
    decreases n,
{
    if n > 0 {
        lemma_nth_port(port, (n - 1) as nat);
    }
}

/// A port is not handed out again before every other port was: two calls that are fewer than
/// 64511 calls apart give different ports.
pub proof fn lemma_ports_differ(port: u16, i: nat, j: nat)
    requires
        LOCAL_PORT_MIN <= port,
        i < j < i + 64511,
    ensures
        nth_port(port, i) != nth_port(port, j),
        LOCAL_PORT_MIN <= nth_port(port, i),
{
    lemma_nth_port(port, i);
    lemma_nth_port(port, j);
}

/// What is done to one socket leaves every other socket of the stack alone.
pub proof fn lemma_others_untouched(
    before: SocketStack,
    after: SocketStack,
    handle: SocketHandle,
    other: SocketHandle,
    tcp: TcpView,
    udp: UdpView,
)
    requires
        tcp_became(before, after, handle, tcp) || udp_became(before, after, handle, udp),
        other != handle,
    ensures
        sockets(after.set()).dom().contains(other) == sockets(before.set()).dom().contains(
            other,
        ),
        sockets(after.set()).dom().contains(other) ==> sockets(after.set())[other] == sockets(
            before.set(),
        )[other],
{
}

/// A stack that is in order hands out ports from the first one on, and takes further sockets.
pub proof fn lemma_in_order(stack: SocketStack)
    ensures
        stack.wf() ==> 1025 <= stack.next_local_port() && growable(stack.set()),
{
}

/// Where nothing but the sockets changed, nobody is woken and no port is handed out.
pub proof fn lemma_nobody_woken(before: SocketStack, after: SocketStack)
    requires
        only_sockets(before, after),
    ensures
        after.due() == before.due(),
        after.runner() == before.runner(),
        after.next_local_port() == before.next_local_port(),
        addresses(after.iface()) == addresses(before.iface()),
{
}

/// Every operation on a socket wakes the task that moves packets, once and after those that are to
/// be woken already, and leaves the addresses as they are.
pub proof fn lemma_runner_woken(before: SocketStack, after: SocketStack)
    requires
        touched(before, after),
    ensures
        after.runner() is None,
        before.runner() matches Some(w) ==> after.due() == before.due().push(w),
        before.runner() is None ==> after.due() == before.due(),
        addresses(after.iface()) == addresses(before.iface()),
{
}

/// A socket that took a form is found in it, in the same stack with the same ports to hand out.
pub proof fn lemma_found_as_it_became(
    before: SocketStack,
    after: SocketStack,
    handle: SocketHandle,
    tcp: TcpView,
    udp: UdpView,
)
    ensures
        tcp_became(before, after, handle, tcp) ==> is_tcp(after.set(), handle) && tcp_at(
            after.set(),
            handle,
        ) == tcp,
        udp_became(before, after, handle, udp) ==> is_udp(after.set(), handle) && udp_at(
            after.set(),
            handle,
        ) == udp,
        tcp_became(before, after, handle, tcp) || udp_became(before, after, handle, udp) ==> {
            &&& growable(after.set()) == growable(before.set())
            &&& after.next_local_port() == before.next_local_port()
            &&& touched(before, after)
        },
{
}

} // verus!
