//! TCP connections over a limited number of buffers.

use crate::net::pool::Pool;
use crate::net::stack::SocketStack;
use crate::net::tcp::{ConnectError, Error, TcpSocket};
use crate::net::wire::Endpoint;
use crate::waker::Poll;
use core::task::Waker;
use smoltcp::iface::SocketHandle;
use vstd::prelude::*;

#[allow(unused_imports)]
use crate::net::pool::{first_free, free_slots, lemma_free_undoes_allocate, lemma_lent_while_free};
#[allow(unused_imports)]
use crate::net::smol::{
    addresses, growable, is_tcp, sockets, tcp_at, tcp_fresh, tcp_replaced, State, TcpView,
};
#[allow(unused_imports)]
use crate::net::stack::{next_port, only_sockets, touched};
#[allow(unused_imports)]
use crate::net::tcp::{
    connect_polled, connect_started, connecting, read_done, read_into, syn_sent, write_done,
};
#[allow(unused_imports)]
use crate::net::wire::{lemma_first_of_the_version, source_address};

verus! {

/// Why a client has no connection.
#[derive(Debug)]
pub enum ClientError {
    /// Every buffer is in use.
    OutOfMemory,
    Connect(ConnectError),
    Tcp(Error),
}

impl From<ConnectError> for ClientError {
    fn from(e: ConnectError) -> (r: Self) {
        ClientError::Connect(e)
    }
}

impl vstd::std_specs::convert::FromSpecImpl<ConnectError> for ClientError {
    open spec fn obeys_from_spec() -> bool {
        true
    }

    open spec fn from_spec(e: ConnectError) -> Self {
        ClientError::Connect(e)
    }
}

impl From<Error> for ClientError {
    fn from(e: Error) -> (r: Self) {
        ClientError::Tcp(e)
    }
}

impl vstd::std_specs::convert::FromSpecImpl<Error> for ClientError {
    open spec fn obeys_from_spec() -> bool {
        true
    }

    open spec fn from_spec(e: Error) -> Self {
        ClientError::Tcp(e)
    }
}

/// A connection with its buffers.
pub struct TcpConnection<const N: usize, const TX_SZ: usize, const RX_SZ: usize> {
    socket: TcpSocket,
    txb: usize,
    rxb: usize,
}

impl<const N: usize, const TX_SZ: usize, const RX_SZ: usize> TcpConnection<N, TX_SZ, RX_SZ> {
    /// The socket in its stack.
    pub closed spec fn handle(&self) -> SocketHandle {
        self.socket.handle()
    }

    /// The slot of the transmit buffer.
    pub closed spec fn tx_slot(&self) -> int {
        self.txb as int
    }

    /// The slot of the receive buffer.
    pub closed spec fn rx_slot(&self) -> int {
        self.rxb as int
    }

    /// Whether the slots are slots of a pool.
    pub open spec fn wf(&self) -> bool {
        0 <= self.tx_slot() < N && 0 <= self.rx_slot() < N
    }

    /// Adds a socket with buffers from the two pools to a stack. Where only the second pool is
    /// exhausted, the slot from the first one stays lent out.
    pub fn new(
        stack: &mut SocketStack,
        tx: &mut Pool<[u8; TX_SZ], N>,
        rx: &mut Pool<[u8; RX_SZ], N>,
    ) -> (r: Result<Self, ClientError>)
        requires
            growable(old(stack).set()),
            old(tx).wf(),
            old(rx).wf(),
            RX_SZ <= 0x4000_0000,
        ensures
            growable(final(stack).set()),
            final(tx).wf(),
            final(rx).wf(),
            r is Ok <==> free_slots(old(tx)@) > 0 && free_slots(old(rx)@) > 0,
            free_slots(old(tx)@) == 0 ==> final(tx)@ == old(tx)@,
            free_slots(old(tx)@) > 0 ==> exists|slot: int| #[trigger]
                first_free(old(tx)@, slot) && final(tx)@ == old(tx)@.update(slot, true),
            match r {
                Ok(c) => {
                    &&& c.wf()
                    &&& first_free(old(tx)@, c.tx_slot())
                    &&& final(tx)@ == old(tx)@.update(c.tx_slot(), true)
                    &&& first_free(old(rx)@, c.rx_slot())
                    &&& final(rx)@ == old(rx)@.update(c.rx_slot(), true)
                    &&& !sockets(old(stack).set()).dom().contains(c.handle())
                    &&& tcp_replaced(
                        old(stack).set(),
                        final(stack).set(),
                        c.handle(),
                        tcp_fresh(RX_SZ as nat, TX_SZ as nat),
                    )
                    &&& only_sockets(*old(stack), *final(stack))
                },
                Err(e) => {
                    &&& e == ClientError::OutOfMemory
                    &&& final(rx)@ == old(rx)@
                    &&& *final(stack) == *old(stack)
                },
            },
    {
        proof {
            lemma_lent_while_free(tx@);
            lemma_lent_while_free(rx@);
        }
        let txb: usize = match tx.allocate() {
            Some(slot) => slot,
            None => {
                return Err(ClientError::OutOfMemory);
            },
        };
        assert(first_free(old(tx)@, txb as int));
        let rxb: usize = match rx.allocate() {
            Some(slot) => slot,
            None => {
                return Err(ClientError::OutOfMemory);
            },
        };
        let socket = TcpSocket::new(stack, vec![0u8; RX_SZ], vec![0u8; TX_SZ]);
        Ok(TcpConnection { socket, txb, rxb })
    }

    /// Starts to connect.
    pub fn connect(&mut self, stack: &mut SocketStack, remote_endpoint: Endpoint) -> (r: Result<
        (),
        ConnectError,
    >)
        requires
            old(stack).has_port(),
            is_tcp(old(stack).set(), old(self).handle()),
        ensures
            *final(self) == *old(self),
            connect_started(*old(stack), *final(stack), old(self).handle(), remote_endpoint, r),
    {
        self.socket.connect(stack, remote_endpoint)
    }

    /// Reads bytes, or registers `waker` until there are any.
    pub fn read(&mut self, stack: &mut SocketStack, waker: &Waker, buf: &mut [u8]) -> (r: Poll<
        Result<usize, Error>,
    >)
        requires
            is_tcp(old(stack).set(), old(self).handle()),
        ensures
            *final(self) == *old(self),
            read_done(*old(stack), *final(stack), old(self).handle(), *waker, old(buf)@, r),
            final(buf)@ == read_into(*old(stack), old(self).handle(), old(buf)@),
    {
        self.socket.read(stack, waker, buf)
    }

    /// Writes bytes, or registers `waker` until there is room for any.
    pub fn write(&mut self, stack: &mut SocketStack, waker: &Waker, buf: &[u8]) -> (r: Poll<
        Result<usize, Error>,
    >)
        requires
            is_tcp(old(stack).set(), old(self).handle()),
        ensures
            *final(self) == *old(self),
            write_done(*old(stack), *final(stack), old(self).handle(), *waker, buf@, r),
    {
        self.socket.write(stack, waker, buf)
    }

    /// Does not wait for bytes to be sent.
    pub fn flush(&mut self) -> (r: Poll<Result<(), Error>>)
        ensures
            *final(self) == *old(self),
            r == Poll::<Result<(), Error>>::Ready(Ok(())),
    {
        self.socket.flush()
    }

    /// Closes the connection, takes its socket out of the stack and gives its buffers back.
    pub fn release(
        self,
        stack: &mut SocketStack,
        tx: &mut Pool<[u8; TX_SZ], N>,
        rx: &mut Pool<[u8; RX_SZ], N>,
    )
        requires
            self.wf(),
            old(tx).wf(),
            old(rx).wf(),
            is_tcp(old(stack).set(), self.handle()),
        ensures
            final(tx).wf(),
            final(tx)@ == old(tx)@.update(self.tx_slot(), false),
            final(rx).wf(),
            final(rx)@ == old(rx)@.update(self.rx_slot(), false),
            old(stack).wf() ==> final(stack).wf(),
            touched(*old(stack), *final(stack)),
            final(stack).next_local_port() == old(stack).next_local_port(),
            sockets(final(stack).set()) == sockets(old(stack).set()).remove(self.handle()),
    {
        let mut this = self;
        let ghost before = *stack;
        this.socket.close(stack);
        rx.free(this.rxb);
        tx.free(this.txb);
        this.socket.remove(stack);
        assert(sockets(stack.set()) =~= sockets(before.set()).remove(self.handle()));
    }
}

/// How far a client has come with a connection.
pub enum Connecting<const N: usize, const TX_SZ: usize, const RX_SZ: usize> {
    /// The connection was made.
    Connected(TcpConnection<N, TX_SZ, RX_SZ>),
    /// The connection was given up.
    Failed(ClientError),
    /// The remote end has not answered yet.
    Waiting(TcpConnection<N, TX_SZ, RX_SZ>),
}

/// Makes up to `N` connections at a time.
pub struct TcpClient<const N: usize, const TX_SZ: usize, const RX_SZ: usize> {
    pub tx: Pool<[u8; TX_SZ], N>,
    pub rx: Pool<[u8; RX_SZ], N>,
}

impl<const N: usize, const TX_SZ: usize, const RX_SZ: usize> TcpClient<N, TX_SZ, RX_SZ> {
    /// Whether the slots of both pools are accounted for.
    pub open spec fn wf(&self) -> bool {
        self.tx.wf() && self.rx.wf()
    }

    /// A client that takes buffers from two pools.
    pub fn new(tx: Pool<[u8; TX_SZ], N>, rx: Pool<[u8; RX_SZ], N>) -> (r: Self)
        ensures
            r == (TcpClient { tx, rx }),
    {
        TcpClient { tx, rx }
    }

    /// Starts to connect to a remote host. A host that cannot be reached is reported as a reset
    /// connection, and the buffers are given back.
    pub fn connect(&mut self, stack: &mut SocketStack, remote: Endpoint) -> (r: Result<
        TcpConnection<N, TX_SZ, RX_SZ>,
        ClientError,
    >)
        requires
            old(self).wf(),
            old(stack).wf(),
            RX_SZ <= 0x4000_0000,
        ensures
            final(self).wf(),
            final(stack).wf(),
            client_connect_started(*old(self), *final(self), *old(stack), *final(stack), remote, r),
    {
        let mut connection = match TcpConnection::new(stack, &mut self.tx, &mut self.rx) {
            Ok(connection) => connection,
            Err(e) => {
                return Err(e);
            },
        };
        let ghost added = *stack;
        match connection.connect(stack, remote) {
            Ok(()) => {
                assert(sockets(stack.set()) =~= sockets(old(stack).set()).insert(
                    connection.handle(),
                    sockets(stack.set())[connection.handle()],
                ));
                Ok(connection)
            },
            Err(_) => {
                proof {
                    lemma_free_undoes_allocate(old(self).tx@, connection.tx_slot());
                    lemma_free_undoes_allocate(old(self).rx@, connection.rx_slot());
                    assert(sockets(added.set()).remove(connection.handle()) =~= sockets(
                        old(stack).set(),
                    ));
                }
                connection.release(stack, &mut self.tx, &mut self.rx);
                Err(ClientError::from(Error::ConnectionReset))
            },
        }
    }

    /// Tells whether a connection was made, or registers `waker` until that is known. Nothing had
    /// come from the remote end for `silent` microseconds when the socket last woke its task. A
    /// connection that failed is released, and reported as reset.
    pub fn poll_connect(
        &mut self,
        stack: &mut SocketStack,
        connection: TcpConnection<N, TX_SZ, RX_SZ>,
        waker: &Waker,
        silent: u64,
    ) -> (r: Connecting<N, TX_SZ, RX_SZ>)
        requires
            old(self).wf(),
            connection.wf(),
            is_tcp(old(stack).set(), connection.handle()),
            tcp_at(old(stack).set(), connection.handle()).state != State::Listen,
        ensures
            final(self).wf(),
            client_connect_polled(
                *old(self),
                *final(self),
                *old(stack),
                *final(stack),
                connection,
                *waker,
                silent,
                r,
            ),
    {
        let mut connection = connection;
        let ghost before = *stack;
        match connection.socket.poll_connect(stack, waker, silent) {
            Poll::Ready(Ok(())) => Connecting::Connected(connection),
            Poll::Pending => Connecting::Waiting(connection),
            Poll::Ready(Err(_)) => {
                assert(sockets(stack.set()).remove(connection.handle()) =~= sockets(
                    before.set(),
                ).remove(connection.handle()));
                connection.release(stack, &mut self.tx, &mut self.rx);
                Connecting::Failed(ClientError::from(Error::ConnectionReset))
            },
        }
    }
}

/// Whether a client started to connect. A host that cannot be reached is reported as a reset
/// connection, and the buffers are given back. Where only the receive buffers are exhausted, the
/// slot of a transmit buffer stays lent out.
pub open spec fn client_connect_started<const N: usize, const TX_SZ: usize, const RX_SZ: usize>(
    before: TcpClient<N, TX_SZ, RX_SZ>,
    after: TcpClient<N, TX_SZ, RX_SZ>,
    stack_before: SocketStack,
    stack_after: SocketStack,
    remote: Endpoint,
    r: Result<TcpConnection<N, TX_SZ, RX_SZ>, ClientError>,
) -> bool {
    let source = source_address(addresses(stack_before.iface()), remote.addr);
    let port = stack_before.next_local_port();
    if free_slots(before.tx@) == 0 {
        &&& r matches Err(ClientError::OutOfMemory)
        &&& after.tx@ == before.tx@
        &&& after.rx@ == before.rx@
        &&& stack_after == stack_before
    } else if free_slots(before.rx@) == 0 {
        &&& r matches Err(ClientError::OutOfMemory)
        &&& exists|slot: int| #[trigger]
            first_free(before.tx@, slot) && after.tx@ == before.tx@.update(slot, true)
        &&& after.rx@ == before.rx@
        &&& stack_after == stack_before
    } else {
        &&& touched(stack_before, stack_after)
        &&& stack_after.next_local_port() == next_port(port)
        &&& if !remote.is_specified() || source is None {
            &&& r matches Err(ClientError::Tcp(Error::ConnectionReset))
            &&& after.tx@ == before.tx@
            &&& after.rx@ == before.rx@
            &&& sockets(stack_after.set()) == sockets(stack_before.set())
        } else {
            &&& r matches Ok(c)
            &&& c.wf()
            &&& first_free(before.tx@, c.tx_slot())
            &&& after.tx@ == before.tx@.update(c.tx_slot(), true)
            &&& first_free(before.rx@, c.rx_slot())
            &&& after.rx@ == before.rx@.update(c.rx_slot(), true)
            &&& !sockets(stack_before.set()).dom().contains(c.handle())
            &&& tcp_replaced(
                stack_before.set(),
                stack_after.set(),
                c.handle(),
                syn_sent(
                    tcp_fresh(RX_SZ as nat, TX_SZ as nat),
                    Endpoint { addr: source->Some_0, port },
                    remote,
                ),
            )
        }
    }
}

/// Whether an attempt of a client to connect was looked at. A connection that failed is released,
/// and reported as reset.
pub open spec fn client_connect_polled<const N: usize, const TX_SZ: usize, const RX_SZ: usize>(
    before: TcpClient<N, TX_SZ, RX_SZ>,
    after: TcpClient<N, TX_SZ, RX_SZ>,
    stack_before: SocketStack,
    stack_after: SocketStack,
    connection: TcpConnection<N, TX_SZ, RX_SZ>,
    waker: Waker,
    silent: u64,
    r: Connecting<N, TX_SZ, RX_SZ>,
) -> bool {
    let handle = connection.handle();
    let s = tcp_at(stack_before.set(), handle);
    let progress = connecting(s.state, s.timeout, silent);
    match r {
        Connecting::Connected(c) => {
            &&& progress matches Poll::Ready(Ok(_))
            &&& c == connection
            &&& after == before
            &&& connect_polled(stack_before, stack_after, handle, waker, silent, progress)
        },
        Connecting::Waiting(c) => {
            &&& progress is Pending
            &&& c == connection
            &&& after == before
            &&& connect_polled(stack_before, stack_after, handle, waker, silent, progress)
        },
        Connecting::Failed(e) => {
            &&& progress matches Poll::Ready(Err(_))
            &&& e == ClientError::Tcp(Error::ConnectionReset)
            &&& after.tx@ == before.tx@.update(connection.tx_slot(), false)
            &&& after.rx@ == before.rx@.update(connection.rx_slot(), false)
            &&& touched(stack_before, stack_after)
            &&& stack_after.next_local_port() == stack_before.next_local_port()
            &&& sockets(stack_after.set()) == sockets(stack_before.set()).remove(handle)
        },
    }
}

/// A client starts to connect exactly if each pool has a slot left, and the interface has an
/// address for the version of a complete remote endpoint. The new socket is on its way there, from
/// the port that was next, and the slots of its buffers were free and are not any more. A host that
/// cannot be reached costs no slot and leaves no socket behind.
pub proof fn lemma_client_connect<const N: usize, const TX_SZ: usize, const RX_SZ: usize>(
    before: TcpClient<N, TX_SZ, RX_SZ>,
    after: TcpClient<N, TX_SZ, RX_SZ>,
    stack_before: SocketStack,
    stack_after: SocketStack,
    remote: Endpoint,
    r: Result<TcpConnection<N, TX_SZ, RX_SZ>, ClientError>,
)
    requires
        before.wf(),
        client_connect_started(before, after, stack_before, stack_after, remote, r),
    ensures
        ({
            let tx = before.tx@;
            let rx = before.rx@;
            let addrs = addresses(stack_before.iface());
            let room = (exists|i: int| 0 <= i < N && !tx[i]) && (exists|i: int|
                0 <= i < N && !rx[i]);
            let reachable = remote.is_specified() && exists|i: int|
                #![trigger addrs[i]]
                0 <= i < addrs.len() && (addrs[i] is Ipv4 <==> remote.addr is Ipv4);
            &&& r is Ok <==> room && reachable
            &&& !room <==> (r matches Err(ClientError::OutOfMemory))
            &&& room && !reachable <==> (r matches Err(ClientError::Tcp(Error::ConnectionReset)))
            &&& !room ==> stack_after == stack_before && after.rx@ == rx
            &&& r is Err && room ==> {
                &&& after.tx@ == tx
                &&& after.rx@ == rx
                &&& sockets(stack_after.set()) == sockets(stack_before.set())
            }
            &&& r matches Ok(c) ==> {
                let s = tcp_at(stack_after.set(), c.handle());
                &&& !tx[c.tx_slot()] && after.tx@ == tx.update(c.tx_slot(), true)
                &&& !rx[c.rx_slot()] && after.rx@ == rx.update(c.rx_slot(), true)
                &&& !sockets(stack_before.set()).dom().contains(c.handle())
                &&& is_tcp(stack_after.set(), c.handle())
                &&& s.state == State::SynSent
                &&& s.remote == Some(remote)
                &&& s.local matches Some(local)
                &&& local.port == stack_before.next_local_port()
                &&& addrs.contains(local.addr)
                &&& local.addr is Ipv4 <==> remote.addr is Ipv4
                &&& s.rx_capacity == RX_SZ && s.tx_capacity == TX_SZ
                &&& s.rx.len() == 0 && s.tx.len() == 0
            }
        }),
{
    lemma_lent_while_free(before.tx@);
    lemma_lent_while_free(before.rx@);
    lemma_first_of_the_version(addresses(stack_before.iface()), remote.addr);
}

/// A client waits exactly while the handshake goes on, and has a connection from then on until that
/// is over. If it is over, the slots of both buffers are free and the socket is gone, and the
/// client is told so in one way, whatever the reason.
pub proof fn lemma_client_progress<const N: usize, const TX_SZ: usize, const RX_SZ: usize>(
    before: TcpClient<N, TX_SZ, RX_SZ>,
    after: TcpClient<N, TX_SZ, RX_SZ>,
    stack_before: SocketStack,
    stack_after: SocketStack,
    connection: TcpConnection<N, TX_SZ, RX_SZ>,
    waker: Waker,
    silent: u64,
    r: Connecting<N, TX_SZ, RX_SZ>,
)
    requires
        before.wf(),
        connection.wf(),
        tcp_at(stack_before.set(), connection.handle()).state != State::Listen,
        client_connect_polled(
            before,
            after,
            stack_before,
            stack_after,
            connection,
            waker,
            silent,
            r,
        ),
    ensures
        ({
            let handle = connection.handle();
            let s = tcp_at(stack_before.set(), handle);
            match s.state {
                State::SynSent | State::SynReceived => {
                    &&& r == Connecting::Waiting(connection)
                    &&& after == before
                    &&& is_tcp(stack_after.set(), handle)
                    &&& tcp_at(stack_after.set(), handle) == (TcpView {
                        send_waker: Some(waker),
                        ..s
                    })
                },
                State::Closed | State::TimeWait => {
                    &&& r == Connecting::<N, TX_SZ, RX_SZ>::Failed(
                        ClientError::Tcp(Error::ConnectionReset),
                    )
                    &&& !after.tx@[connection.tx_slot()]
                    &&& !after.rx@[connection.rx_slot()]
                    &&& forall|i: int|
                        0 <= i < N && i != connection.tx_slot() ==> after.tx@[i] == before.tx@[i]
                    &&& forall|i: int|
                        0 <= i < N && i != connection.rx_slot() ==> after.rx@[i] == before.rx@[i]
                    &&& !sockets(stack_after.set()).dom().contains(handle)
                },
                _ => {
                    &&& r == Connecting::Connected(connection)
                    &&& after == before
                    &&& is_tcp(stack_after.set(), handle)
                    &&& tcp_at(stack_after.set(), handle) == s
                },
            }
        }),
{
}

/// An error of a connection shows in the error of a client as it is.
pub proof fn lemma_errors_kept(connect: ConnectError, tcp: Error)
    ensures
        <ClientError as vstd::std_specs::convert::FromSpec<ConnectError>>::from_spec(connect)
            == ClientError::Connect(connect),
        <ClientError as vstd::std_specs::convert::FromSpec<Error>>::from_spec(tcp)
            == ClientError::Tcp(tcp),
{
}

} // verus!
