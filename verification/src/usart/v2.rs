//! Serial port driver for peripherals with separate receive and transmit data registers.

use crate::ring_buffer::{front_len, window_len, RingBuffer};
use crate::usart::uart::Uart;
use crate::usart::{data_byte, Error, NoDma, Status};
use crate::waker::{Poll, WakerRegistration};
use vstd::prelude::*;

#[allow(unused_imports)]
use crate::ring_buffer::{
    lemma_front_is_all_there_is, lemma_window_is_all_there_is, lemma_wraps_around, wrapped,
};
#[allow(unused_imports)]
use crate::stream::{flows, lemma_first_in_first_out};
#[allow(unused_imports)]
use crate::usart::{accepted, lemma_low_byte, low_byte};
#[allow(unused_imports)]
use crate::waker::after_wake;

verus! {

/// What the receive half is doing.
#[derive(Clone, Copy, Debug, PartialEq, Eq, Structural)]
pub enum RxState {
    /// No region of the receive ring is in use.
    Idle,
    /// `Receiving(read, len)`: of a region of `len` free bytes behind the contents of the receive
    /// ring, the first `read` hold received bytes.
    Receiving(usize, usize),
}

/// What the transmit half is doing.
#[derive(Clone, Copy, Debug, PartialEq, Eq, Structural)]
pub enum TxState {
    /// Nothing is under way.
    Idle,
    /// `Transmitting(written, len)`: of the first `len` bytes of the transmit ring, `written`
    /// have been handed to the peripheral.
    Transmitting(usize, usize),
}

/// A flag that is cleared by writing the interrupt clear register.
#[derive(Clone, Copy, Debug, PartialEq, Eq, Structural)]
pub enum ClearFlag {
    Framing,
    Noise,
    Overrun,
    Idle,
}

/// A register access of the transmit half.
#[derive(Clone, Copy, Debug, PartialEq, Eq, Structural)]
pub enum TxWrite {
    /// Enable the interrupt on an empty transmit register.
    EnableInterrupt,
    /// Disable the interrupt on an empty transmit register.
    DisableInterrupt,
    /// Write the transmit data register.
    Data(u32),
}

/// What the interrupt handler has to be handed next.
#[derive(Clone, Copy, Debug, PartialEq, Eq, Structural)]
pub enum Next {
    /// The status register, for `on_rx_status`.
    RxStatus,
    /// The receive data register, for `on_rx_data`.
    RxData,
    /// The status register, for `on_tx_status`.
    TxStatus,
    /// Nothing: the interrupt has been handled.
    Done,
}

/// The bytes that a sequence of register accesses hands to the peripheral.
pub open spec fn handed_over(writes: Seq<TxWrite>) -> Seq<u8>
    decreases writes.len(),
{
    if writes.len() == 0 {
        Seq::empty()
    } else {
        handed_over(writes.drop_last()) + match writes.last() {
            TxWrite::Data(word) => seq![low_byte(word)],
            _ => Seq::empty(),
        }
    }
}

/// The state that the interrupt handler shares with the tasks that read and write.
pub struct StateInner<T, W> {
    inner: T,
    rx_state: RxState,
    rx_waker: WakerRegistration<W>,
    rx: RingBuffer,
    tx_state: TxState,
    tx_waker: WakerRegistration<W>,
    tx: RingBuffer,
    due: Vec<W>,
}

/// The receive state of a driver that looks for room in a ring.
pub open spec fn claimed(window: int) -> RxState {
    if window > 0 {
        RxState::Receiving(0, window as usize)
    } else {
        RxState::Idle
    }
}

impl<T, W> StateInner<T, W> {
    /// The peripheral.
    pub closed spec fn peripheral(&self) -> T {
        self.inner
    }

    /// The receive state.
    pub closed spec fn rx_state(&self) -> RxState {
        self.rx_state
    }

    /// The ring of received bytes.
    pub closed spec fn rx(&self) -> RingBuffer {
        self.rx
    }

    /// The waker of the task that waits for received bytes.
    pub closed spec fn rx_waker(&self) -> Option<W> {
        self.rx_waker@
    }

    /// The transmit state.
    pub closed spec fn tx_state(&self) -> TxState {
        self.tx_state
    }

    /// The ring of bytes to transmit.
    pub closed spec fn tx(&self) -> RingBuffer {
        self.tx
    }

    /// The waker of the task that waits for room to write.
    pub closed spec fn tx_waker(&self) -> Option<W> {
        self.tx_waker@
    }

    /// The wakers that are due, in the order in which their tasks became ready.
    pub closed spec fn due(&self) -> Seq<W> {
        self.due@
    }

    /// The invariant: a reception fits into the free region, a transmission consists of bytes that
    /// are still in the ring, and no task waits for what is already there.
    pub open spec fn wf(&self) -> bool {
        &&& self.rx().wf()
        &&& self.tx().wf()
        &&& self.rx_waker() is Some ==> self.rx()@.len() == 0
        &&& self.tx_waker() is Some ==> self.tx()@.len() == self.tx().capacity()
        &&& match self.rx_state() {
            RxState::Idle => true,
            RxState::Receiving(read, len) => read < len <= self.rx().window().len(),
        }
        &&& match self.tx_state() {
            TxState::Idle => true,
            TxState::Transmitting(written, len) => 1 <= written <= len <= front_len(
                self.tx().head(),
                self.tx()@.len() as int,
                self.tx().capacity(),
            ),
        }
    }

    /// The bytes received by the reception that is under way.
    pub open spec fn received(&self) -> Seq<u8> {
        match self.rx_state() {
            RxState::Idle => Seq::empty(),
            RxState::Receiving(read, _) => self.rx().window().take(read as int),
        }
    }

    /// All bytes that were received and not yet consumed, oldest first.
    pub open spec fn rx_stream(&self) -> Seq<u8> {
        self.rx()@ + self.received()
    }

    /// The number of bytes that still stand in the transmit ring but were already handed over.
    pub open spec fn tx_written(&self) -> int {
        match self.tx_state() {
            TxState::Idle => 0,
            TxState::Transmitting(written, _) => written as int,
        }
    }

    /// All bytes that were accepted for transmission and not yet handed to the peripheral.
    pub open spec fn tx_pending(&self) -> Seq<u8> {
        self.tx()@.skip(self.tx_written())
    }

    /// Whether the receive half is as it was in `before`.
    pub open spec fn same_rx(&self, before: &Self) -> bool {
        &&& self.rx() == before.rx()
        &&& self.rx_state() == before.rx_state()
        &&& self.rx_waker() == before.rx_waker()
    }

    /// Whether the transmit half is as it was in `before`.
    pub open spec fn same_tx(&self, before: &Self) -> bool {
        &&& self.tx() == before.tx()
        &&& self.tx_state() == before.tx_state()
        &&& self.tx_waker() == before.tx_waker()
    }

    /// Whether `self` is `before` after the first `n` bytes of the free region were committed to
    /// the receive ring, the reader was woken and a new reception was started if there is room.
    pub open spec fn committed(&self, before: &Self, n: int) -> bool {
        &&& self.rx()@ == before.rx()@ + before.rx().window().take(n)
        &&& self.rx().head() == before.rx().head()
        &&& self.rx().capacity() == before.rx().capacity()
        &&& self.rx_state() == claimed(
            window_len(self.rx().head(), self.rx()@.len() as int, self.rx().capacity()),
        )
        &&& self.rx_waker() is None
        &&& self.due() == after_wake(before.due(), before.rx_waker())
    }

    /// Whether `self` is `before` after it started to handle an interrupt.
    pub open spec fn interrupted(&self, before: &Self, next: Next) -> bool {
        &&& self.peripheral() == before.peripheral()
        &&& self.rx() == before.rx()
        &&& self.rx_waker() == before.rx_waker()
        &&& self.same_tx(before)
        &&& self.due() == before.due()
        &&& self.rx_stream() == before.rx_stream()
        &&& match before.rx_state() {
            RxState::Idle => {
                &&& next == Next::TxStatus
                &&& self.rx_state() == claimed(
                    window_len(
                        before.rx().head(),
                        before.rx()@.len() as int,
                        before.rx().capacity(),
                    ),
                )
            },
            RxState::Receiving(_, _) => {
                &&& next == Next::RxStatus
                &&& self.rx_state() == before.rx_state()
            },
        }
    }

    /// Whether `self` is `before` after the status of a receive half at work was looked at.
    pub open spec fn looked_at(
        &self,
        before: &Self,
        sr: Status,
        clear: Option<ClearFlag>,
        next: Next,
    ) -> bool {
        &&& self.peripheral() == before.peripheral()
        &&& self.same_tx(before)
        &&& self.rx_stream() == before.rx_stream()
        &&& clear == if sr.pe {
            None
        } else if sr.fe {
            Some(ClearFlag::Framing)
        } else if sr.nf {
            Some(ClearFlag::Noise)
        } else if sr.ore {
            Some(ClearFlag::Overrun)
        } else if !sr.rxne && sr.idle {
            Some(ClearFlag::Idle)
        } else {
            None
        }
        &&& next == if !sr.pe && !sr.fe && !sr.nf && !sr.ore && sr.rxne {
            Next::RxData
        } else {
            Next::TxStatus
        }
        &&& if clear == Some(ClearFlag::Idle) && before.received().len() > 0 {
            self.committed(before, before.received().len() as int)
        } else {
            self.same_rx(before) && self.due() == before.due()
        }
    }

    /// Whether `self` is `before` after a receive half at work was handed the data register.
    pub open spec fn stored(&self, before: &Self, word: u32, next: Next) -> bool {
        &&& self.peripheral() == before.peripheral()
        &&& self.same_tx(before)
        &&& self.rx_stream() == before.rx_stream().push(low_byte(word))
        &&& self.rx().head() == before.rx().head()
        &&& self.rx().capacity() == before.rx().capacity()
        &&& match before.rx_state() {
            RxState::Idle => true,
            RxState::Receiving(read, len) => if read + 1 == len {
                &&& next == Next::TxStatus
                &&& self.rx()@ == before.rx_stream().push(low_byte(word))
                &&& self.rx_state() == claimed(
                    window_len(self.rx().head(), self.rx()@.len() as int, self.rx().capacity()),
                )
                &&& self.rx_waker() is None
                &&& self.due() == after_wake(before.due(), before.rx_waker())
            } else {
                &&& next == Next::RxStatus
                &&& self.rx()@ == before.rx()@
                &&& self.rx_state() == RxState::Receiving((read + 1) as usize, len)
                &&& self.rx_waker() == before.rx_waker()
                &&& self.due() == before.due()
            },
        }
    }

    /// Whether `self` is `before` after the transmit half was handed the status and asked for
    /// `writes`.
    pub open spec fn sent(
        &self,
        before: &Self,
        sr: Status,
        writes: Seq<TxWrite>,
        next: Next,
    ) -> bool {
        &&& self.peripheral() == before.peripheral()
        &&& self.same_rx(before)
        &&& match before.tx_state() {
            TxState::Idle => {
                &&& next == Next::Done
                &&& self.due() == before.due()
                &&& self.tx() == before.tx()
                &&& self.tx_waker() == before.tx_waker()
                &&& if sr.txe && before.tx()@.len() > 0 {
                    &&& writes == seq![
                        TxWrite::EnableInterrupt,
                        TxWrite::Data(before.tx()@[0] as u32),
                    ]
                    &&& self.tx_state() == TxState::Transmitting(
                        1,
                        front_len(
                            before.tx().head(),
                            before.tx()@.len() as int,
                            before.tx().capacity(),
                        ) as usize,
                    )
                    &&& before.tx_pending() == seq![before.tx()@[0]] + self.tx_pending()
                } else {
                    &&& writes == Seq::<TxWrite>::empty()
                    &&& self.tx_state() == TxState::Idle
                    &&& self.tx_pending() == before.tx_pending()
                }
            },
            TxState::Transmitting(written, len) => {
                if !sr.txe {
                    &&& writes == Seq::<TxWrite>::empty()
                    &&& next == Next::TxStatus
                    &&& self.same_tx(before)
                    &&& self.due() == before.due()
                } else if written < len {
                    &&& writes == seq![TxWrite::Data(before.tx()@[written as int] as u32)]
                    &&& next == Next::Done
                    &&& self.tx_state() == TxState::Transmitting((written + 1) as usize, len)
                    &&& self.tx() == before.tx()
                    &&& self.tx_waker() == before.tx_waker()
                    &&& self.due() == before.due()
                    &&& before.tx_pending() == seq![before.tx()@[written as int]]
                        + self.tx_pending()
                } else {
                    &&& writes == seq![TxWrite::DisableInterrupt]
                    &&& next == Next::TxStatus
                    &&& self.tx_state() == TxState::Idle
                    &&& self.tx()@ == before.tx()@.skip(written as int)
                    &&& self.tx().head() == wrapped(
                        before.tx().head() + written,
                        before.tx().capacity(),
                    )
                    &&& self.tx().capacity() == before.tx().capacity()
                    &&& self.tx_waker() is None
                    &&& self.due() == after_wake(before.due(), before.tx_waker())
                    &&& self.tx_pending() == before.tx_pending()
                }
            },
        }
    }

    fn claim(&mut self)
        requires
            old(self).rx().wf(),
        ensures
            final(self).peripheral() == old(self).peripheral(),
            final(self).rx() == old(self).rx(),
            final(self).rx_waker() == old(self).rx_waker(),
            final(self).same_tx(old(self)),
            final(self).due() == old(self).due(),
            final(self).rx_state() == claimed(
                window_len(
                    old(self).rx().head(),
                    old(self).rx()@.len() as int,
                    old(self).rx().capacity(),
                ),
            ),
    {
        let n: usize = self.rx.push_len();
        if n > 0 {
            self.rx_state = RxState::Receiving(0, n);
        } else {
            self.rx_state = RxState::Idle;
        }
    }

    fn commit(&mut self, n: usize)
        requires
            old(self).wf(),
            n <= old(self).rx().window().len(),
        ensures
            final(self).wf(),
            final(self).peripheral() == old(self).peripheral(),
            final(self).same_tx(old(self)),
            final(self).committed(old(self), n as int),
            final(self).rx_state() is Idle ==> final(self).rx()@.len() == final(
                self).rx().capacity(),
    {
        self.rx.push(n);
        self.rx_waker.wake(&mut self.due);
        self.claim();
        proof {
            self.rx.lemma_measures();
        }
    }

    /// Starts handling an interrupt.
    ///
    /// A receive half that is idle claims the free region of the receive ring, if there is one;
    /// only a receive half that was already receiving is served in this interrupt.
    pub fn on_interrupt(&mut self) -> (next: Next)
        requires
            old(self).wf(),
        ensures
            final(self).wf(),
            final(self).interrupted(old(self), next),
            final(self).rx_state() is Idle ==> final(self).rx()@.len() == final(
                self).rx().capacity(),
    {
        match self.rx_state {
            RxState::Idle => {
                self.claim();
                proof {
                    self.rx.lemma_measures();
                    assert(self.rx_stream() =~= old(self).rx_stream());
                }
                Next::TxStatus
            },
            RxState::Receiving(_, _) => Next::RxStatus,
        }
    }

    /// Handles the status of the receive half.
    ///
    /// An error flag ends the reception for this interrupt; all but the parity flag are cleared.
    /// A full receive register is read next. An idle line commits what was received so far.
    pub fn on_rx_status(&mut self, sr: Status) -> (r: (Option<ClearFlag>, Next))
        requires
            old(self).wf(),
            old(self).rx_state() is Receiving,
        ensures
            final(self).wf(),
            final(self).looked_at(old(self), sr, r.0, r.1),
            final(self).rx_state() is Idle ==> final(self).rx()@.len() == final(
                self).rx().capacity(),
    {
        if sr.pe {
            (None, Next::TxStatus)
        } else if sr.fe {
            (Some(ClearFlag::Framing), Next::TxStatus)
        } else if sr.nf {
            (Some(ClearFlag::Noise), Next::TxStatus)
        } else if sr.ore {
            (Some(ClearFlag::Overrun), Next::TxStatus)
        } else if sr.rxne {
            (None, Next::RxData)
        } else if sr.idle {
            if let RxState::Receiving(read, _) = self.rx_state {
                if read > 0 {
                    self.commit(read);
                    proof {
                        assert(self.rx_stream() =~= old(self).rx_stream());
                    }
                }
            }
            (Some(ClearFlag::Idle), Next::TxStatus)
        } else {
            (None, Next::TxStatus)
        }
    }

    /// Handles the receive data register: stores the byte, and commits the region once it is
    /// full.
    pub fn on_rx_data(&mut self, word: u32) -> (next: Next)
        requires
            old(self).wf(),
            old(self).rx_state() is Receiving,
        ensures
            final(self).wf(),
            final(self).stored(old(self), word, next),
            flows(
                old(self).rx_stream(),
                seq![low_byte(word)],
                Seq::empty(),
                final(self).rx_stream(),
            ),
            final(self).rx_state() is Idle ==> final(self).rx()@.len() == final(
                self).rx().capacity(),
    {
        if let RxState::Receiving(read, len) = self.rx_state {
            self.rx.write(read, data_byte(word));
            if read + 1 == len {
                self.commit(len);
                proof {
                    let w = old(self).rx.window().update(read as int, low_byte(word));
                    assert(w.take(len as int) =~= old(self).received().push(low_byte(word)));
                    assert(self.rx@ =~= old(self).rx_stream().push(low_byte(word)));
                    assert(self.rx_stream() =~= self.rx@);
                    assert(old(self).rx_stream() + seq![low_byte(word)] =~= Seq::empty()
                        + self.rx_stream());
                }
                return Next::TxStatus;
            }
            self.rx_state = RxState::Receiving(read + 1, len);
            proof {
                assert(self.received() =~= old(self).received().push(low_byte(word)));
                assert(self.rx_stream() =~= old(self).rx_stream().push(low_byte(word)));
                assert(old(self).rx_stream() + seq![low_byte(word)] =~= Seq::empty()
                    + self.rx_stream());
            }
        }
        Next::RxStatus
    }

    /// Handles the status of the transmit half.
    ///
    /// The accesses in the answer are to be made in order. While a transmission is under way and
    /// the transmit register is not empty, the status is asked for again.
    pub fn on_tx_status(&mut self, sr: Status) -> (r: (Vec<TxWrite>, Next))
        requires
            old(self).wf(),
        ensures
            final(self).wf(),
            final(self).sent(old(self), sr, r.0@, r.1),
            flows(
                old(self).tx_pending(),
                Seq::empty(),
                handed_over(r.0@),
                final(self).tx_pending(),
            ),
    {
        let mut writes: Vec<TxWrite> = Vec::new();
        proof {
            reveal_with_fuel(handed_over, 3);
            assert(old(self).tx_pending() + Seq::empty() =~= old(self).tx_pending());
        }
        match self.tx_state {
            TxState::Idle => {
                if sr.txe {
                    let buf = self.tx.pop_buf();
                    if buf.len() > 0 {
                        writes.push(TxWrite::EnableInterrupt);
                        writes.push(TxWrite::Data(buf[0] as u32));
                        let n: usize = buf.len();
                        self.tx_state = TxState::Transmitting(1, n);
                        proof {
                            assert(old(self).tx_pending() =~= seq![old(self).tx()@[0]]
                                + self.tx_pending());
                            assert(writes@.drop_last() =~= seq![TxWrite::EnableInterrupt]);
                            assert(handed_over(writes@) =~= seq![old(self).tx()@[0]]);
                            assert(writes@ =~= seq![
                                TxWrite::EnableInterrupt,
                                TxWrite::Data(old(self).tx()@[0] as u32),
                            ]);
                        }
                    }
                }
                (writes, Next::Done)
            },
            TxState::Transmitting(written, len) => {
                if !sr.txe {
                    (writes, Next::TxStatus)
                } else if written < len {
                    writes.push(TxWrite::Data(self.tx.pop_buf()[written] as u32));
                    self.tx_state = TxState::Transmitting(written + 1, len);
                    proof {
                        assert(old(self).tx_pending() =~= seq![old(self).tx()@[written as int]]
                            + self.tx_pending());
                        assert(handed_over(writes@) =~= seq![old(self).tx()@[written as int]]);
                    }
                    (writes, Next::Done)
                } else {
                    writes.push(TxWrite::DisableInterrupt);
                    self.tx.pop(written);
                    self.tx_waker.wake(&mut self.due);
                    self.tx_state = TxState::Idle;
                    proof {
                        assert(self.tx_pending() =~= old(self).tx_pending());
                        assert(handed_over(writes@) =~= Seq::empty());
                    }
                    (writes, Next::TxStatus)
                }
            },
        }
    }
}

/// Over any number of steps, the bytes that readers consumed are those that had been received
/// before and those that arrived, in that order; what was not consumed is still there. `history`
/// holds the states, `arrived` and `consumed` what each step read from the line and handed out.
pub proof fn lemma_received_in_order<T, W>(
    history: Seq<StateInner<T, W>>,
    arrived: Seq<Seq<u8>>,
    consumed: Seq<Seq<u8>>,
)
    requires
        history.len() == arrived.len() + 1,
        consumed.len() == arrived.len(),
        forall|i: int|
            #![trigger arrived[i]]
            0 <= i < arrived.len() ==> flows(
                history[i].rx_stream(),
                arrived[i],
                consumed[i],
                history[i + 1].rx_stream(),
            ),
    ensures
        history[0].rx_stream() + arrived.flatten() == consumed.flatten()
            + history.last().rx_stream(),
{
    let contents = Seq::new(history.len(), |i: int| history[i].rx_stream());
    lemma_first_in_first_out(contents, arrived, consumed);
}

/// Over any number of steps, the bytes that were handed to the peripheral are those that were
/// pending before and those that writers got accepted, in that order; what was not handed over is
/// still pending. `history` holds the states, `taken` and `sent` what each step accepted and
/// handed over.
pub proof fn lemma_transmitted_in_order<T, W>(
    history: Seq<StateInner<T, W>>,
    taken: Seq<Seq<u8>>,
    sent: Seq<Seq<u8>>,
)
    requires
        history.len() == taken.len() + 1,
        sent.len() == taken.len(),
        forall|i: int|
            #![trigger taken[i]]
            0 <= i < taken.len() ==> flows(
                history[i].tx_pending(),
                taken[i],
                sent[i],
                history[i + 1].tx_pending(),
            ),
    ensures
        history[0].tx_pending() + taken.flatten() == sent.flatten() + history.last().tx_pending(),
{
    let contents = Seq::new(history.len(), |i: int| history[i].tx_pending());
    lemma_first_in_first_out(contents, taken, sent);
}

/// No wake-up is lost: whatever the handler and the tasks did, a reader that is registered finds no
/// received bytes, and a writer that is registered finds no room.
pub proof fn lemma_no_lost_wakeup<T, W>(state: StateInner<T, W>)
    requires
        state.wf(),
    ensures
        state.rx_waker() is Some ==> state.rx()@.len() == 0,
        state.tx_waker() is Some ==> window_len(
            state.tx().head(),
            state.tx()@.len() as int,
            state.tx().capacity(),
        ) == 0,
{
}

/// A receive half that looks for room stays idle only if the ring is full. Otherwise it receives
/// into the whole contiguous free region, from its start.
pub proof fn lemma_receives_while_there_is_room(ring: RingBuffer)
    requires
        ring.wf(),
    ensures
        match claimed(window_len(ring.head(), ring@.len() as int, ring.capacity())) {
            RxState::Idle => ring@.len() == ring.capacity(),
            RxState::Receiving(read, len) => {
                &&& read == 0
                &&& 0 < len == ring.window().len()
                &&& ring@.len() < ring.capacity()
            },
        },
        ring@.len() + ring.window().len() == ring.capacity() || ring.capacity() > 0 && (ring.head()
            + ring@.len() as int) % ring.capacity() + ring.window().len() == ring.capacity(),
{
    ring.lemma_measures();
    if ring.capacity() > 0 {
        lemma_window_is_all_there_is(ring.head(), ring@.len() as int, ring.capacity());
    }
}

/// Committing received bytes appends them to the ring, wakes the reader that was registered, and
/// goes on receiving unless the ring is full.
pub proof fn lemma_commit_reaches_the_reader<T, W>(
    before: StateInner<T, W>,
    after: StateInner<T, W>,
    n: int,
)
    requires
        before.wf(),
        after.wf(),
        0 <= n <= before.rx().window().len(),
        after.committed(&before, n),
    ensures
        after.rx()@.len() == before.rx()@.len() + n,
        before.rx()@.is_prefix_of(after.rx()@),
        forall|i: int|
            0 <= i < n ==> after.rx()@[before.rx()@.len() + i] == before.rx().window()[i],
        before.rx_waker() matches Some(w) ==> after.due().len() == before.due().len() + 1
            && after.due().last() == w,
        before.rx_waker() is None ==> after.due() == before.due(),
        after.rx_state() is Idle ==> after.rx()@.len() == after.rx().capacity(),
        after.rx_state() matches RxState::Receiving(read, len) ==> read == 0 && len
            == after.rx().window().len(),
{
    lemma_receives_while_there_is_room(after.rx());
}

/// An interrupt is handled for a receive half that was at work before it. One that was idle starts
/// to receive into the whole free region if there is any, whatever its size.
pub proof fn lemma_interrupt<T, W>(
    before: StateInner<T, W>,
    after: StateInner<T, W>,
    next: Next,
)
    requires
        before.wf(),
        after.interrupted(&before, next),
    ensures
        next == Next::RxStatus <==> before.rx_state() is Receiving,
        next == Next::TxStatus <==> before.rx_state() is Idle,
        before.rx_state() is Receiving ==> after.same_rx(&before),
        before.rx_state() is Idle && before.rx()@.len() == before.rx().capacity() ==> after.same_rx(
            &before,
        ),
        before.rx_state() is Idle && before.rx()@.len() < before.rx().capacity()
            ==> after.rx_state() == RxState::Receiving(0, before.rx().window().len() as usize)
            && before.rx().window().len() > 0,
        after.rx_state() is Idle ==> after.rx()@.len() == after.rx().capacity(),
        after.rx() == before.rx() && after.rx_waker() == before.rx_waker(),
        after.same_tx(&before) && after.due() == before.due(),
{
    before.rx().lemma_measures();
    lemma_receives_while_there_is_room(before.rx());
}

/// A status with an error flag leads to no byte being read, and to the first of the flags that can
/// be cleared being cleared unless the parity is wrong. Without one a byte is read if there is one.
/// If there is none and the line is idle, every byte received so far reaches the ring and the
/// reader. No status loses a byte.
pub proof fn lemma_receive_status<T, W>(
    before: StateInner<T, W>,
    sr: Status,
    after: StateInner<T, W>,
    clear: Option<ClearFlag>,
    next: Next,
)
    requires
        before.wf(),
        after.wf(),
        before.rx_state() is Receiving,
        after.looked_at(&before, sr, clear, next),
    ensures
        after.rx_stream() == before.rx_stream(),
        after.same_tx(&before),
        next == Next::RxData <==> sr.rxne && !sr.pe && !sr.fe && !sr.nf && !sr.ore,
        next == Next::RxData || next == Next::TxStatus,
        sr.pe ==> clear is None,
        clear == Some(ClearFlag::Framing) <==> !sr.pe && sr.fe,
        clear == Some(ClearFlag::Noise) <==> !sr.pe && !sr.fe && sr.nf,
        clear == Some(ClearFlag::Overrun) <==> !sr.pe && !sr.fe && !sr.nf && sr.ore,
        clear == Some(ClearFlag::Idle) <==> !sr.pe && !sr.fe && !sr.nf && !sr.ore && !sr.rxne
            && sr.idle,
        clear == Some(ClearFlag::Idle) && before.rx_state()->Receiving_0 > 0 ==> {
            &&& after.rx()@ == before.rx_stream()
            &&& after.rx_waker() is None
            &&& before.rx_waker() matches Some(w) ==> after.due() == before.due().push(w)
            &&& before.rx_waker() is None ==> after.due() == before.due()
            &&& after.rx_state() is Idle ==> after.rx()@.len() == after.rx().capacity()
            &&& after.rx_state() matches RxState::Receiving(read, len) ==> read == 0 && len
                == after.rx().window().len()
        },
        clear != Some(ClearFlag::Idle) || before.rx_state()->Receiving_0 == 0 ==> after.same_rx(
            &before,
        ) && after.due() == before.due(),
{
    lemma_receives_while_there_is_room(after.rx());
}

/// A byte that was read joins the received bytes at their end. Once the region is full, all of them
/// are in the ring, the reader is woken, and the next region is used if there is room; until then
/// the reader sees no change.
pub proof fn lemma_receive_byte<T, W>(
    before: StateInner<T, W>,
    word: u32,
    after: StateInner<T, W>,
    next: Next,
)
    requires
        before.wf(),
        after.wf(),
        before.rx_state() is Receiving,
        after.stored(&before, word, next),
    ensures
        after.rx_stream().len() == before.rx_stream().len() + 1,
        before.rx_stream().is_prefix_of(after.rx_stream()),
        after.rx_stream().last() as u32 == word & 0xff,
        after.same_tx(&before),
        match before.rx_state() {
            RxState::Receiving(read, len) => {
                &&& read + 1 == len <==> next == Next::TxStatus
                &&& read + 1 < len <==> next == Next::RxStatus
                &&& next == Next::TxStatus ==> {
                    &&& after.rx()@ == after.rx_stream()
                    &&& after.rx_waker() is None
                    &&& before.rx_waker() matches Some(w) ==> after.due() == before.due().push(w)
                    &&& before.rx_waker() is None ==> after.due() == before.due()
                    &&& after.rx_state() is Idle ==> after.rx()@.len() == after.rx().capacity()
                    &&& after.rx_state() matches RxState::Receiving(r, n) ==> r == 0 && n
                        == after.rx().window().len()
                }
                &&& next == Next::RxStatus ==> {
                    &&& after.rx()@ == before.rx()@
                    &&& after.rx_waker() == before.rx_waker()
                    &&& after.due() == before.due()
                    &&& after.rx_state() == RxState::Receiving((read + 1) as usize, len)
                }
            },
            RxState::Idle => true,
        },
{
    lemma_low_byte(word, 0);
    lemma_receives_while_there_is_room(after.rx());
    assert(after.rx()@ + Seq::empty() =~= after.rx()@);
}

/// A byte is handed over exactly if the transmit register is empty and a byte is due, and it is the
/// oldest one that is pending. The interrupt on an empty register is enabled with the first byte of
/// a region and disabled once all of them were handed over; only then do they leave the ring, and
/// the writer is woken.
pub proof fn lemma_transmit_status<T, W>(
    before: StateInner<T, W>,
    sr: Status,
    after: StateInner<T, W>,
    writes: Seq<TxWrite>,
    next: Next,
)
    requires
        before.wf(),
        after.wf(),
        after.sent(&before, sr, writes, next),
    ensures
        after.same_rx(&before),
        !sr.txe ==> writes.len() == 0 && after.same_tx(&before) && after.due() == before.due(),
        next == Next::TxStatus <==> before.tx_state() is Transmitting && (!sr.txe
            || before.tx_state()->Transmitting_0 == before.tx_state()->Transmitting_1),
        next == Next::TxStatus || next == Next::Done,
        sr.txe ==> match before.tx_state() {
            TxState::Idle => if before.tx_pending().len() > 0 {
                &&& writes.len() == 2
                &&& writes[0] == TxWrite::EnableInterrupt
                &&& writes[1] == TxWrite::Data(before.tx_pending()[0] as u32)
                &&& after.tx_pending() == before.tx_pending().skip(1)
                &&& after.tx_state() matches TxState::Transmitting(written, len)
                &&& written == 1
                &&& len == before.tx()@.len() || before.tx().head() + len == before.tx().capacity()
                &&& after.tx() == before.tx()
                &&& after.due() == before.due()
            } else {
                writes.len() == 0 && after.same_tx(&before) && after.due() == before.due()
            },
            TxState::Transmitting(written, len) => if written < len {
                &&& writes.len() == 1
                &&& writes[0] == TxWrite::Data(before.tx_pending()[0] as u32)
                &&& after.tx_pending() == before.tx_pending().skip(1)
                &&& after.tx() == before.tx()
                &&& after.tx_state() == TxState::Transmitting((written + 1) as usize, len)
                &&& after.due() == before.due()
            } else {
                &&& writes.len() == 1
                &&& writes[0] == TxWrite::DisableInterrupt
                &&& after.tx_pending() == before.tx_pending()
                &&& after.tx()@ == after.tx_pending()
                &&& after.tx_state() is Idle
                &&& after.tx_waker() is None
                &&& before.tx_waker() matches Some(w) ==> after.due() == before.due().push(w)
                &&& before.tx_waker() is None ==> after.due() == before.due()
            },
        },
{
    before.tx().lemma_measures();
    if before.tx().capacity() > 0 {
        lemma_front_is_all_there_is(
            before.tx().head(),
            before.tx()@.len() as int,
            before.tx().capacity(),
        );
    }
    assert(before.tx()@.skip(0) =~= before.tx()@);
    assert(after.tx()@.skip(0) =~= after.tx()@);
    if sr.txe && after.tx_pending().len() < before.tx_pending().len() {
        assert(after.tx_pending() =~= before.tx_pending().skip(1));
    }
}

/// A half that stayed as it was holds the same bytes, is doing the same, and has the same task
/// waiting.
pub proof fn lemma_left_alone<T, W>(before: StateInner<T, W>, after: StateInner<T, W>)
    ensures
        after.same_rx(&before) ==> {
            &&& after.rx()@ == before.rx()@
            &&& after.rx_stream() == before.rx_stream()
            &&& after.rx_state() == before.rx_state()
            &&& after.rx_waker() == before.rx_waker()
        },
        after.same_tx(&before) ==> {
            &&& after.tx()@ == before.tx()@
            &&& after.tx_pending() == before.tx_pending()
            &&& after.tx_state() == before.tx_state()
            &&& after.tx_waker() == before.tx_waker()
        },
{
}

/// A half that is idle holds its bytes in the ring alone; one that is at work adds the bytes of the
/// reception, or has handed over the bytes of the transmission that it counts.
pub proof fn lemma_streams<T, W>(state: StateInner<T, W>)
    requires
        state.wf(),
    ensures
        state.rx_state() is Idle ==> state.rx_stream() == state.rx()@,
        state.rx_state() matches RxState::Receiving(read, _) ==> state.rx_stream() == state.rx()@
            + state.rx().window().take(read as int),
        state.tx_state() is Idle ==> state.tx_pending() == state.tx()@,
        state.tx_state() matches TxState::Transmitting(written, _) ==> state.tx()@.take(
            written as int,
        ) + state.tx_pending() == state.tx()@,
{
    assert(state.rx()@ + Seq::empty() =~= state.rx()@);
    assert(state.tx()@.skip(0) =~= state.tx()@);
    if let TxState::Transmitting(written, _) = state.tx_state() {
        state.tx().lemma_measures();
        assert(state.tx()@.take(written as int) + state.tx_pending() =~= state.tx()@);
    }
}

/// The bytes that register accesses hand to the peripheral are those of the data writes among them,
/// in order.
pub proof fn lemma_handed_over(writes: Seq<TxWrite>, more: Seq<TxWrite>, byte: u8)
    ensures
        handed_over(writes + more) == handed_over(writes) + handed_over(more),
        handed_over(seq![TxWrite::Data(byte as u32)]) == seq![byte],
        handed_over(seq![TxWrite::EnableInterrupt]) == Seq::<u8>::empty(),
        handed_over(seq![TxWrite::DisableInterrupt]) == Seq::<u8>::empty(),
    decreases more.len(),
{
    reveal_with_fuel(handed_over, 2);
    lemma_low_byte(0, byte);
    assert(seq![TxWrite::Data(byte as u32)].drop_last() =~= Seq::empty());
    assert(seq![TxWrite::EnableInterrupt].drop_last() =~= Seq::empty());
    assert(seq![TxWrite::DisableInterrupt].drop_last() =~= Seq::empty());
    if more.len() == 0 {
        assert(writes + more =~= writes);
        assert(handed_over(writes) + Seq::empty() =~= handed_over(writes));
    } else {
        lemma_handed_over(writes, more.drop_last(), byte);
        assert((writes + more).drop_last() =~= writes + more.drop_last());
        assert(handed_over(writes + more) =~= handed_over(writes) + handed_over(more));
    }
}

/// The place that a buffered serial port keeps its state in.
pub struct State<T, W>(Option<StateInner<T, W>>);

impl<T, W> State<T, W> {
    /// Whether a driver has put its state here.
    pub closed spec fn in_use(&self) -> bool {
        self.0 is Some
    }

    /// Creates an unused place.
    pub fn new() -> (r: Self)
        ensures
            !r.in_use(),
    {
        State(None)
    }
}

/// A step of bringing up the interrupts of a buffered serial port.
#[derive(Clone, Copy, Debug, PartialEq, Eq, Structural)]
pub enum IrqSetup {
    /// Disable the interrupt of the peripheral.
    Disable,
    /// Mark the interrupt of the peripheral as pending.
    Pend,
    /// Enable the interrupts on received frames and on an idle line, and change no other bit.
    EnableReceive,
}

/// Whether a port lent received bytes, or registered the waker of the reader where it had none.
pub open spec fn lent<T, W>(
    before: BufferedUart<T, W>,
    after: BufferedUart<T, W>,
    waker: W,
    bytes: Option<Seq<u8>>,
) -> bool {
    let s = before.inner();
    let t = after.inner();
    &&& after.pended() == before.pended()
    &&& t.peripheral() == s.peripheral()
    &&& t.rx() == s.rx()
    &&& t.rx_state() == s.rx_state()
    &&& t.same_tx(&s)
    &&& t.due() == s.due()
    &&& if s.rx()@.len() > 0 {
        &&& bytes == Some(
            s.rx()@.take(front_len(s.rx().head(), s.rx()@.len() as int, s.rx().capacity())),
        )
        &&& bytes->Some_0.len() > 0
        &&& t.rx_waker() == s.rx_waker()
    } else {
        &&& bytes is None
        &&& t.rx_waker() == Some(waker)
    }
}

/// Whether `amt` received bytes left a port, and the interrupt was asked for.
pub open spec fn consumed<T, W>(
    before: BufferedUart<T, W>,
    after: BufferedUart<T, W>,
    amt: int,
) -> bool {
    let s = before.inner();
    let t = after.inner();
    &&& after.pended()
    &&& t.peripheral() == s.peripheral()
    &&& t.rx()@ == s.rx()@.skip(amt)
    &&& t.rx().head() == if amt == 0 {
        s.rx().head()
    } else {
        wrapped(s.rx().head() + amt, s.rx().capacity())
    }
    &&& t.rx().capacity() == s.rx().capacity()
    &&& t.rx_state() == s.rx_state()
    &&& t.rx_waker() == s.rx_waker()
    &&& t.rx_stream() == s.rx_stream().skip(amt)
    &&& t.same_tx(&s)
    &&& t.due() == s.due()
}

/// Whether a port accepted bytes from the front of `buf`, or registered the waker of the writer
/// where it had no room, and asked for the interrupt.
pub open spec fn wrote<T, W>(
    before: BufferedUart<T, W>,
    after: BufferedUart<T, W>,
    waker: W,
    buf: Seq<u8>,
    r: Poll<Result<usize, Error>>,
) -> bool {
    let s = before.inner();
    let t = after.inner();
    let room = window_len(s.tx().head(), s.tx()@.len() as int, s.tx().capacity());
    &&& after.pended()
    &&& t.peripheral() == s.peripheral()
    &&& t.same_rx(&s)
    &&& t.tx_state() == s.tx_state()
    &&& t.due() == s.due()
    &&& t.tx().head() == s.tx().head()
    &&& t.tx().capacity() == s.tx().capacity()
    &&& if room == 0 {
        &&& r is Pending
        &&& t.tx() == s.tx()
        &&& t.tx_waker() == Some(waker)
        &&& t.tx_pending() == s.tx_pending()
    } else {
        &&& r matches Poll::Ready(Ok(n))
        &&& n == (if buf.len() <= room {
            buf.len() as int
        } else {
            room
        })
        &&& t.tx()@ == s.tx()@ + buf.take(n as int)
        &&& t.tx_pending() == s.tx_pending() + buf.take(n as int)
        &&& t.tx_waker() == s.tx_waker()
    }
}

/// A reader is lent the oldest bytes of the ring, at least one and all that stand in one row, and
/// has to wait exactly if the ring is empty.
pub proof fn lemma_lent<T, W>(
    before: BufferedUart<T, W>,
    after: BufferedUart<T, W>,
    waker: W,
    bytes: Option<Seq<u8>>,
)
    requires
        before.wf(),
        lent(before, after, waker, bytes),
    ensures
        after.inner().rx() == before.inner().rx(),
        bytes is None <==> before.inner().rx()@.len() == 0,
        bytes is None ==> after.inner().rx_waker() == Some(waker),
        bytes matches Some(b) ==> {
            &&& 0 < b.len()
            &&& b.is_prefix_of(before.inner().rx()@)
            &&& b.len() == before.inner().rx()@.len() || before.inner().rx().head() + b.len()
                == before.inner().rx().capacity()
            &&& after.inner().rx_waker() == before.inner().rx_waker()
        },
{
    before.lemma_state();
    before.inner().rx().lemma_measures();
}

/// The bytes that are consumed are the oldest ones, and as many as was said. The others stay as
/// they are, and the interrupt is asked for in any case, since there may be room to receive again.
pub proof fn lemma_consumed<T, W>(
    before: BufferedUart<T, W>,
    after: BufferedUart<T, W>,
    amt: int,
)
    requires
        before.wf(),
        0 <= amt <= before.inner().rx()@.len(),
        consumed(before, after, amt),
    ensures
        after.pended(),
        before.inner().rx()@ == before.inner().rx()@.take(amt) + after.inner().rx()@,
        before.inner().rx_stream() == before.inner().rx()@.take(amt) + after.inner().rx_stream(),
        after.inner().rx_state() == before.inner().rx_state(),
        after.inner().rx().capacity() == before.inner().rx().capacity(),
        before.inner().rx().capacity() > 0 ==> after.inner().rx().head() == (
        before.inner().rx().head() + amt) % before.inner().rx().capacity(),
        after.inner().same_tx(&before.inner()),
        after.inner().due() == before.inner().due(),
{
    before.lemma_state();
    let s = before.inner();
    s.rx().lemma_measures();
    if s.rx().capacity() > 0 {
        lemma_wraps_around(s.rx().head() + amt, s.rx().capacity());
    }
    assert(s.rx()@ =~= s.rx()@.take(amt) + s.rx()@.skip(amt));
    assert(s.rx_stream() =~= s.rx()@.take(amt) + s.rx_stream().skip(amt));
}

/// A writer has to wait exactly if the ring is full. Otherwise bytes are accepted from the front of
/// the buffer, all of them or as many as fit in one row. The interrupt is asked for either way.
pub proof fn lemma_wrote<T, W>(
    before: BufferedUart<T, W>,
    after: BufferedUart<T, W>,
    waker: W,
    buf: Seq<u8>,
    r: Poll<Result<usize, Error>>,
)
    requires
        before.wf(),
        wrote(before, after, waker, buf, r),
    ensures
        ({
            let s = before.inner();
            let t = after.inner();
            &&& after.pended()
            &&& t.same_rx(&s) && t.tx_state() == s.tx_state() && t.due() == s.due()
            &&& r is Pending <==> s.tx()@.len() == s.tx().capacity()
            &&& r is Pending ==> t.tx() == s.tx() && t.tx_waker() == Some(waker)
            &&& r is Ready ==> {
                &&& r matches Poll::Ready(Ok(n))
                &&& n <= buf.len()
                &&& buf.len() > 0 ==> n > 0
                &&& n == buf.len() || s.tx()@.len() + n == s.tx().capacity() || (s.tx().head()
                    + s.tx()@.len() as int) % s.tx().capacity() + n == s.tx().capacity()
                &&& t.tx()@ == s.tx()@ + buf.take(n as int)
                &&& t.tx_pending() == s.tx_pending() + buf.take(n as int)
                &&& t.tx_waker() == s.tx_waker()
            }
        }),
{
    before.lemma_state();
    let s = before.inner();
    s.tx().lemma_measures();
    if s.tx().capacity() > 0 {
        lemma_window_is_all_there_is(s.tx().head(), s.tx()@.len() as int, s.tx().capacity());
    }
}

/// A serial port that receives and transmits in the background, through two rings.
pub struct BufferedUart<T, W> {
    state: State<T, W>,
    pended: bool,
}

impl<T, W> BufferedUart<T, W> {
    /// The state that is shared with the interrupt handler.
    pub closed spec fn inner(&self) -> StateInner<T, W> {
        self.state.0->Some_0
    }

    /// Whether the interrupt is to be marked as pending.
    pub closed spec fn pended(&self) -> bool {
        self.pended
    }

    /// The invariant of the port.
    pub closed spec fn wf(&self) -> bool {
        self.state.in_use() && self.inner().wf()
    }

    /// What the invariant of the port says of its state.
    pub proof fn lemma_state(&self)
        requires
            self.wf(),
        ensures
            self.inner().wf(),
    {
    }

    /// Turns a serial port into a buffered one.
    ///
    /// Both halves start idle with empty rings; the steps in the answer are to be taken in order.
    pub fn new(
        state: State<T, W>,
        uart: Uart<T, NoDma, NoDma>,
        tx_buffer: Vec<u8>,
        rx_buffer: Vec<u8>,
    ) -> (r: (BufferedUart<T, W>, Vec<IrqSetup>))
        ensures
            r.0.wf(),
            !r.0.pended(),
            r.0.inner().peripheral() == uart.inner,
            r.0.inner().rx_state() == RxState::Idle,
            r.0.inner().rx()@ == Seq::<u8>::empty(),
            r.0.inner().rx().head() == 0,
            r.0.inner().rx().capacity() == rx_buffer@.len(),
            r.0.inner().rx_waker() is None,
            r.0.inner().tx_state() == TxState::Idle,
            r.0.inner().tx()@ == Seq::<u8>::empty(),
            r.0.inner().tx().head() == 0,
            r.0.inner().tx().capacity() == tx_buffer@.len(),
            r.0.inner().tx_waker() is None,
            r.0.inner().due() == Seq::<W>::empty(),
            r.1@ == seq![
                IrqSetup::Disable,
                IrqSetup::Pend,
                IrqSetup::Disable,
                IrqSetup::Pend,
                IrqSetup::EnableReceive,
            ],
    {
        let mut steps: Vec<IrqSetup> = Vec::new();
        steps.push(IrqSetup::Disable);
        steps.push(IrqSetup::Pend);
        steps.push(IrqSetup::Disable);
        steps.push(IrqSetup::Pend);
        steps.push(IrqSetup::EnableReceive);
        let mut state = state;
        state.0 = Some(
            StateInner {
                inner: uart.inner,
                rx_state: RxState::Idle,
                rx_waker: WakerRegistration::new(),
                rx: RingBuffer::new(rx_buffer),
                tx_state: TxState::Idle,
                tx_waker: WakerRegistration::new(),
                tx: RingBuffer::new(tx_buffer),
                due: Vec::new(),
            },
        );
        (BufferedUart { state, pended: false }, steps)
    }

    /// Lends the state, for the interrupt handler.
    pub fn state_mut(&mut self) -> (r: &mut StateInner<T, W>)
        requires
            old(self).wf(),
        ensures
            *r == old(self).inner(),
            final(self).inner() == *final(r),
            final(r).wf() ==> final(self).wf(),
            final(self).pended() == old(self).pended(),
    {
        self.state.0.as_mut().unwrap()
    }

    /// Takes the wakers that are due, for them to be woken in order.
    pub fn take_due(&mut self) -> (r: Vec<W>)
        requires
            old(self).wf(),
        ensures
            final(self).wf(),
            r@ == old(self).inner().due(),
            final(self).inner().due() == Seq::<W>::empty(),
            final(self).inner().peripheral() == old(self).inner().peripheral(),
            final(self).inner().same_rx(&old(self).inner()),
            final(self).inner().same_tx(&old(self).inner()),
            final(self).pended() == old(self).pended(),
    {
        let s = self.state_mut();
        let mut r: Vec<W> = Vec::new();
        r.append(&mut s.due);
        r
    }

    /// Takes the request to mark the interrupt as pending.
    pub fn take_pend(&mut self) -> (r: bool)
        requires
            old(self).wf(),
        ensures
            final(self).wf(),
            r == old(self).pended(),
            !final(self).pended(),
            final(self).inner() == old(self).inner(),
    {
        let r = self.pended;
        self.pended = false;
        r
    }

    /// Lends the received bytes that stand together at the front, or registers the waker of the
    /// reader if there are none.
    pub fn poll_fill_buf(&mut self, waker: W) -> (r: Poll<Result<&[u8], Error>>)
        requires
            old(self).wf(),
        ensures
            final(self).wf(),
            match r {
                Poll::Ready(Ok(buf)) => lent(*old(self), *final(self), waker, Some(buf@)),
                Poll::Ready(Err(_)) => false,
                Poll::Pending => lent(*old(self), *final(self), waker, None),
            },
    {
        let s = self.state_mut();
        if s.rx.is_empty() {
            s.rx_waker.register(waker);
            return Poll::Pending;
        }
        Poll::Ready(Ok(s.rx.pop_buf()))
    }

    /// Removes received bytes from the front, after they were read where `poll_fill_buf` lent
    /// them, and asks for the interrupt.
    pub fn consume(&mut self, amt: usize)
        requires
            old(self).wf(),
            amt <= front_len(
                old(self).inner().rx().head(),
                old(self).inner().rx()@.len() as int,
                old(self).inner().rx().capacity(),
            ),
        ensures
            final(self).wf(),
            consumed(*old(self), *final(self), amt as int),
            flows(
                old(self).inner().rx_stream(),
                Seq::empty(),
                old(self).inner().rx()@.take(amt as int),
                final(self).inner().rx_stream(),
            ),
    {
        let s = self.state_mut();
        s.rx.pop(amt);
        self.pended = true;
        proof {
            let before = old(self).inner();
            let after = self.inner();
            assert(after.received() =~= before.received());
            assert(after.rx_stream() =~= before.rx_stream().skip(amt as int));
            assert(before.rx_stream() + Seq::empty() =~= before.rx()@.take(amt as int)
                + after.rx_stream());
        }
    }

    /// Accepts as many bytes as fit into the contiguous free region of the transmit ring, or
    /// registers the waker of the writer if the ring is full. The interrupt is asked for either
    /// way.
    pub fn poll_write(&mut self, waker: W, buf: &[u8]) -> (r: Poll<Result<usize, Error>>)
        requires
            old(self).wf(),
        ensures
            final(self).wf(),
            wrote(*old(self), *final(self), waker, buf@, r),
            flows(
                old(self).inner().tx_pending(),
                accepted(r, buf@),
                Seq::empty(),
                final(self).inner().tx_pending(),
            ),
    {
        let s = self.state_mut();
        proof {
            s.tx.lemma_measures();
        }
        if s.tx.push_len() == 0 {
            s.tx_waker.register(waker);
            self.pended = true;
            return Poll::Pending;
        }
        let n: usize = s.tx.push_slice(buf);
        self.pended = true;
        proof {
            let before = old(self).inner();
            let after = self.inner();
            after.tx().lemma_measures();
            assert(after.tx_pending() =~= before.tx_pending() + buf@.take(n as int));
        }
        Poll::Ready(Ok(n))
    }
}

} // verus!
