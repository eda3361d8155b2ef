//! A buffered serial port on top of an unbuffered one.
//!
//! The interrupt handler moves bytes between the port and the two rings; the tasks ask for the
//! interrupt only where the handler may have stopped: when the receive ring was full before bytes
//! were consumed, and when the transmit ring was empty before bytes were written.

use crate::ring_buffer::{front_len, window_len, RingBuffer};
use crate::usart::uart::Uart;
use crate::usart::{Error, NoDma};
use crate::waker::{Poll, WakerRegistration};
use vstd::prelude::*;

#[allow(unused_imports)]
use crate::ring_buffer::{lemma_window_is_all_there_is, lemma_wraps_around, wrapped};
#[allow(unused_imports)]
use crate::stream::flows;
#[allow(unused_imports)]
use crate::usart::accepted;

verus! {

/// The state that the interrupt handler shares with the tasks that read and write.
pub struct StateInner<T, W> {
    pub uart: Uart<T, NoDma, NoDma>,
    pub rx_waker: WakerRegistration<W>,
    pub rx: RingBuffer,
    pub tx_waker: WakerRegistration<W>,
    pub tx: RingBuffer,
    /// The wakers that are due.
    pub due: Vec<W>,
}

impl<T, W> StateInner<T, W> {
    /// The invariant: both rings are in order.
    pub open spec fn wf(&self) -> bool {
        self.rx.wf() && self.tx.wf()
    }
}

/// The place that a buffered serial port keeps its state in.
pub struct State<T, W>(Option<StateInner<T, W>>);

impl<T, W> State<T, W> {
    /// Whether a driver has put its state here.
    pub closed spec fn in_use(&self) -> bool {
        self.0 is Some
    }

    /// Creates an unused place.
    pub fn new() -> (r: Self)
        ensures
            !r.in_use(),
    {
        State(None)
    }
}

/// What has to be done to the port before its interrupt is enabled.
#[derive(Clone, Copy, Debug, PartialEq, Eq, Structural)]
pub enum IrqSetup {
    /// Enable the interrupts on received frames and on an idle line, and change no other bit.
    EnableReceive,
}

/// A serial port that receives and transmits in the background, through two rings.
pub struct BufferedUart<T, W> {
    state: State<T, W>,
    pended: bool,
}

impl<T, W> BufferedUart<T, W> {
    /// The state that is shared with the interrupt handler.
    pub closed spec fn inner(&self) -> StateInner<T, W> {
        self.state.0->Some_0
    }

    /// Whether the interrupt is to be marked as pending.
    pub closed spec fn pended(&self) -> bool {
        self.pended
    }

    /// The invariant of the port.
    pub closed spec fn wf(&self) -> bool {
        self.state.in_use() && self.inner().wf()
    }

    /// What the invariant of the port says of its state.
    pub proof fn lemma_state(&self)
        requires
            self.wf(),
        ensures
            self.inner().wf(),
    {
    }

    /// Turns a serial port into a buffered one, with empty rings.
    pub fn new(
        state: State<T, W>,
        uart: Uart<T, NoDma, NoDma>,
        tx_buffer: Vec<u8>,
        rx_buffer: Vec<u8>,
    ) -> (r: (BufferedUart<T, W>, IrqSetup))
        ensures
            r.0.wf(),
            !r.0.pended(),
            r.0.inner().uart == uart,
            r.0.inner().rx@ == Seq::<u8>::empty(),
            r.0.inner().rx.head() == 0,
            r.0.inner().rx.capacity() == rx_buffer@.len(),
            r.0.inner().rx_waker@ is None,
            r.0.inner().tx@ == Seq::<u8>::empty(),
            r.0.inner().tx.head() == 0,
            r.0.inner().tx.capacity() == tx_buffer@.len(),
            r.0.inner().tx_waker@ is None,
            r.0.inner().due@ == Seq::<W>::empty(),
            r.1 == IrqSetup::EnableReceive,
    {
        let mut state = state;
        state.0 = Some(
            StateInner {
                uart,
                rx_waker: WakerRegistration::new(),
                rx: RingBuffer::new(rx_buffer),
                tx_waker: WakerRegistration::new(),
                tx: RingBuffer::new(tx_buffer),
                due: Vec::new(),
            },
        );
        (BufferedUart { state, pended: false }, IrqSetup::EnableReceive)
    }

    /// Lends the state, for the interrupt handler.
    pub fn state_mut(&mut self) -> (r: &mut StateInner<T, W>)
        requires
            old(self).wf(),
        ensures
            *r == old(self).inner(),
            final(self).inner() == *final(r),
            final(r).wf() ==> final(self).wf(),
            final(self).pended() == old(self).pended(),
    {
        self.state.0.as_mut().unwrap()
    }

    /// Takes the wakers that are due, for them to be woken in order.
    pub fn take_due(&mut self) -> (r: Vec<W>)
        requires
            old(self).wf(),
        ensures
            final(self).wf(),
            r@ == old(self).inner().due@,
            final(self).inner() == (StateInner {
                due: final(self).inner().due,
                ..old(self).inner()
            }),
            final(self).inner().due@ == Seq::<W>::empty(),
            final(self).pended() == old(self).pended(),
    {
        let s = self.state_mut();
        let mut r: Vec<W> = Vec::new();
        r.append(&mut s.due);
        r
    }

    /// Takes the request to mark the interrupt as pending.
    pub fn take_pend(&mut self) -> (r: bool)
        requires
            old(self).wf(),
        ensures
            final(self).wf(),
            r == old(self).pended(),
            !final(self).pended(),
            final(self).inner() == old(self).inner(),
    {
        let r = self.pended;
        self.pended = false;
        r
    }

    /// Lends the received bytes that stand together at the front, or registers the waker of the
    /// reader if there are none.
    pub fn poll_fill_buf(&mut self, waker: W) -> (r: Poll<Result<&[u8], Error>>)
        requires
            old(self).wf(),
        ensures
            final(self).wf(),
            match r {
                Poll::Ready(Ok(buf)) => lent(*old(self), *final(self), waker, Some(buf@)),
                Poll::Ready(Err(_)) => false,
                Poll::Pending => lent(*old(self), *final(self), waker, None),
            },
    {
        let s = self.state_mut();
        if s.rx.is_empty() {
            s.rx_waker.register(waker);
            return Poll::Pending;
        }
        Poll::Ready(Ok(s.rx.pop_buf()))
    }

    /// Removes received bytes from the front, after they were read where `poll_fill_buf` lent
    /// them. The interrupt is asked for if the ring was full.
    pub fn consume(&mut self, amt: usize)
        requires
            old(self).wf(),
            amt <= front_len(
                old(self).inner().rx.head(),
                old(self).inner().rx@.len() as int,
                old(self).inner().rx.capacity(),
            ),
        ensures
            final(self).wf(),
            consumed(*old(self), *final(self), amt as int),
            flows(
                old(self).inner().rx@,
                Seq::empty(),
                old(self).inner().rx@.take(amt as int),
                final(self).inner().rx@,
            ),
    {
        let s = self.state_mut();
        let full = s.rx.is_full();
        s.rx.pop(amt);
        if full {
            self.pended = true;
        }
        proof {
            let before = old(self).inner().rx@;
            assert(before + Seq::empty() =~= before.take(amt as int) + self.inner().rx@);
        }
    }

    /// Accepts as many bytes as fit into the contiguous free region of the transmit ring, or
    /// registers the waker of the writer if the ring is full. The interrupt is asked for if the
    /// ring was empty.
    pub fn poll_write(&mut self, waker: W, buf: &[u8]) -> (r: Poll<Result<usize, Error>>)
        requires
            old(self).wf(),
        ensures
            final(self).wf(),
            wrote(*old(self), *final(self), waker, buf@, r),
            flows(
                old(self).inner().tx@,
                accepted(r, buf@),
                Seq::empty(),
                final(self).inner().tx@,
            ),
    {
        let s = self.state_mut();
        proof {
            s.tx.lemma_measures();
        }
        let empty = s.tx.is_empty();
        let r = if s.tx.push_len() == 0 {
            s.tx_waker.register(waker);
            Poll::Pending
        } else {
            Poll::Ready(Ok(s.tx.push_slice(buf)))
        };
        if empty {
            self.pended = true;
        }
        proof {
            let before = old(self).inner().tx@;
            assert(before + accepted(r, buf@) =~= Seq::empty() + self.inner().tx@);
        }
        r
    }
}

/// Whether a port lent received bytes, or registered the waker of the reader where it had none.
pub open spec fn lent<T, W>(
    before: BufferedUart<T, W>,
    after: BufferedUart<T, W>,
    waker: W,
    bytes: Option<Seq<u8>>,
) -> bool {
    let s = before.inner();
    let t = after.inner();
    &&& after.pended() == before.pended()
    &&& if s.rx@.len() > 0 {
        &&& bytes == Some(
            s.rx@.take(front_len(s.rx.head(), s.rx@.len() as int, s.rx.capacity())),
        )
        &&& bytes->Some_0.len() > 0
        &&& t == s
    } else {
        &&& bytes is None
        &&& t.rx_waker@ == Some(waker)
        &&& t == (StateInner { rx_waker: t.rx_waker, ..s })
    }
}

/// Whether `amt` received bytes left a port. The interrupt is asked for if the ring was full.
pub open spec fn consumed<T, W>(
    before: BufferedUart<T, W>,
    after: BufferedUart<T, W>,
    amt: int,
) -> bool {
    let s = before.inner();
    let t = after.inner();
    &&& after.pended() == (before.pended() || s.rx@.len() == s.rx.capacity() && s.rx.capacity() > 0)
    &&& t == (StateInner { rx: t.rx, ..s })
    &&& t.rx@ == s.rx@.skip(amt)
    &&& t.rx.head() == if amt == 0 {
        s.rx.head()
    } else {
        wrapped(s.rx.head() + amt, s.rx.capacity())
    }
    &&& t.rx.capacity() == s.rx.capacity()
}

/// Whether a port accepted bytes from the front of `buf`, or registered the waker of the writer
/// where it had no room. The interrupt is asked for if the ring was empty.
pub open spec fn wrote<T, W>(
    before: BufferedUart<T, W>,
    after: BufferedUart<T, W>,
    waker: W,
    buf: Seq<u8>,
    r: Poll<Result<usize, Error>>,
) -> bool {
    let s = before.inner();
    let t = after.inner();
    let room = window_len(s.tx.head(), s.tx@.len() as int, s.tx.capacity());
    &&& after.pended() == (before.pended() || s.tx@.len() == 0)
    &&& if room == 0 {
        &&& r is Pending
        &&& t.tx_waker@ == Some(waker)
        &&& t == (StateInner { tx_waker: t.tx_waker, ..s })
    } else {
        &&& r matches Poll::Ready(Ok(n))
        &&& n == (if buf.len() <= room {
            buf.len() as int
        } else {
            room
        })
        &&& t.tx@ == s.tx@ + buf.take(n as int)
        &&& t.tx.head() == s.tx.head()
        &&& t.tx.capacity() == s.tx.capacity()
        &&& t == (StateInner { tx: t.tx, ..s })
    }
}

/// A reader is lent the oldest bytes of the ring, at least one and all that stand in one row, and
/// has to wait exactly if the ring is empty.
pub proof fn lemma_lent<T, W>(
    before: BufferedUart<T, W>,
    after: BufferedUart<T, W>,
    waker: W,
    bytes: Option<Seq<u8>>,
)
    requires
        before.wf(),
        lent(before, after, waker, bytes),
    ensures
        after.pended() == before.pended(),
        after.inner().rx == before.inner().rx,
        bytes is None <==> before.inner().rx@.len() == 0,
        bytes is None ==> after.inner().rx_waker@ == Some(waker),
        bytes matches Some(b) ==> {
            &&& 0 < b.len()
            &&& b.is_prefix_of(before.inner().rx@)
            &&& b.len() == before.inner().rx@.len() || before.inner().rx.head() + b.len()
                == before.inner().rx.capacity()
            &&& after.inner() == before.inner()
        },
{
    before.lemma_state();
    before.inner().rx.lemma_measures();
}

/// The bytes that are consumed are the oldest ones, and as many as was said; the others stay. A
/// handler that stopped for want of room is asked for, and otherwise nothing is asked for.
pub proof fn lemma_consumed<T, W>(
    before: BufferedUart<T, W>,
    after: BufferedUart<T, W>,
    amt: int,
)
    requires
        before.wf(),
        0 <= amt <= before.inner().rx@.len(),
        consumed(before, after, amt),
    ensures
        before.inner().rx@ == before.inner().rx@.take(amt) + after.inner().rx@,
        after.inner().rx.capacity() == before.inner().rx.capacity(),
        before.inner().rx.capacity() > 0 ==> after.inner().rx.head() == (before.inner().rx.head()
            + amt) % before.inner().rx.capacity(),
        before.inner().rx@.len() > 0 && before.inner().rx@.len() == before.inner().rx.capacity()
            ==> after.pended(),
        before.inner().rx@.len() < before.inner().rx.capacity() ==> after.pended()
            == before.pended(),
        after.inner().tx == before.inner().tx,
        after.inner().rx_waker@ == before.inner().rx_waker@,
        after.inner().tx_waker@ == before.inner().tx_waker@,
        after.inner().due@ == before.inner().due@,
{
    before.lemma_state();
    let s = before.inner();
    s.rx.lemma_measures();
    if s.rx.capacity() > 0 {
        lemma_wraps_around(s.rx.head() + amt, s.rx.capacity());
    }
    assert(s.rx@ =~= s.rx@.take(amt) + s.rx@.skip(amt));
}

/// A writer has to wait exactly if the ring is full. Otherwise bytes are accepted from the front of
/// the buffer, all of them or as many as fit in one row. A handler that stopped for want of bytes
/// is asked for.
pub proof fn lemma_wrote<T, W>(
    before: BufferedUart<T, W>,
    after: BufferedUart<T, W>,
    waker: W,
    buf: Seq<u8>,
    r: Poll<Result<usize, Error>>,
)
    requires
        before.wf(),
        wrote(before, after, waker, buf, r),
    ensures
        ({
            let s = before.inner();
            let t = after.inner();
            &&& s.tx@.len() == 0 ==> after.pended()
            &&& s.tx@.len() > 0 ==> after.pended() == before.pended()
            &&& t.rx == s.rx && t.due@ == s.due@ && t.rx_waker@ == s.rx_waker@
            &&& r is Pending <==> s.tx@.len() == s.tx.capacity()
            &&& r is Pending ==> t.tx == s.tx && t.tx_waker@ == Some(waker)
            &&& r is Ready ==> {
                &&& r matches Poll::Ready(Ok(n))
                &&& n <= buf.len()
                &&& buf.len() > 0 ==> n > 0
                &&& n == buf.len() || s.tx@.len() + n == s.tx.capacity() || (s.tx.head()
                    + s.tx@.len() as int) % s.tx.capacity() + n == s.tx.capacity()
                &&& t.tx@ == s.tx@ + buf.take(n as int)
                &&& t.tx_waker@ == s.tx_waker@
            }
        }),
{
    before.lemma_state();
    let s = before.inner();
    s.tx.lemma_measures();
    if s.tx.capacity() > 0 {
        lemma_window_is_all_there_is(s.tx.head(), s.tx@.len() as int, s.tx.capacity());
    }
}

} // verus!
