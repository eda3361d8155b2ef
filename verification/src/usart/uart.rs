//! The unbuffered serial port: set-up, blocking transfers and DMA transfers.

use crate::usart::{data_byte, Config, Error, Parity, Status};
use vstd::prelude::*;

#[allow(unused_imports)]
use crate::usart::{lemma_low_byte, low_byte};

verus! {

/// A serial port, with the DMA channels of its two directions.
pub struct Uart<T, TxDma, RxDma> {
    pub inner: T,
    pub tx_dma: TxDma,
    pub rx_dma: RxDma,
}

/// The first word length field of control register 1.
#[derive(Clone, Copy, Debug, PartialEq, Eq, Structural)]
pub enum M0 {
    Bit8,
    Bit9,
}

/// The second word length field of control register 1.
#[derive(Clone, Copy, Debug, PartialEq, Eq, Structural)]
pub enum M1 {
    /// The length is the one that `M0` gives.
    M0,
    Bit7,
}

/// The parity selection field of control register 1.
#[derive(Clone, Copy, Debug, PartialEq, Eq, Structural)]
pub enum Ps {
    Even,
    Odd,
}

/// Control register 1; every field that is not named here is zero.
#[derive(Clone, Copy, Debug, PartialEq, Eq, Structural)]
pub struct Cr1 {
    /// The peripheral is enabled.
    pub ue: bool,
    /// The transmitter is enabled.
    pub te: bool,
    /// The receiver is enabled.
    pub re: bool,
    pub m0: M0,
    pub m1: M1,
    /// Frames carry a parity bit.
    pub pce: bool,
    pub ps: Ps,
}

/// A step of setting up a serial port.
#[derive(Clone, Copy, Debug, PartialEq, Eq, Structural)]
pub enum Setup {
    /// Switch the receive pin to the function of the peripheral.
    RxPin,
    /// Switch the transmit pin to the function of the peripheral.
    TxPin,
    /// Write zero to control register 2.
    ResetCr2,
    /// Write zero to control register 3.
    ResetCr3,
    /// Write the baud rate register.
    Brr(u16),
    /// Write control register 1.
    Cr1(Cr1),
}

/// A step of a DMA transfer.
#[derive(Clone, Copy, Debug, PartialEq, Eq, Structural)]
pub enum DmaStep {
    /// Set the bit that makes the transmitter ask for bytes, and change no other bit.
    EnableTransmit,
    /// Set the bit that makes the receiver offer bytes, and change no other bit.
    EnableReceive,
    /// Move this many bytes from the buffer to the transmit data register.
    Write(usize),
    /// Move this many bytes from the receive data register to the buffer.
    Read(usize),
}

/// The clock ticks per bit, rounded to the nearest integer.
pub open spec fn divisor(pclk: int, baudrate: int) -> int {
    (pclk + baudrate / 2) / baudrate
}

/// Control register 1 for a parity setting.
pub open spec fn control(parity: Parity) -> Cr1 {
    Cr1 {
        ue: true,
        te: true,
        re: true,
        m0: M0::Bit8,
        m1: M1::M0,
        pce: parity != Parity::ParityNone,
        ps: if parity == Parity::ParityOdd {
            Ps::Odd
        } else {
            Ps::Even
        },
    }
}

impl<T, TxDma, RxDma> Uart<T, TxDma, RxDma> {
    /// Creates a port on an enabled peripheral whose clock runs at `pclk` hertz.
    ///
    /// The steps in the answer are to be taken in order. The baud rate register keeps the low 16
    /// bits of the divisor.
    pub fn new(inner: T, tx_dma: TxDma, rx_dma: RxDma, pclk: u32, config: Config) -> (r: (
        Self,
        Vec<Setup>,
    ))
        requires
            config.baudrate > 0,
            pclk + config.baudrate / 2 <= u32::MAX,
        ensures
            r.0 == (Uart { inner, tx_dma, rx_dma }),
            r.1@ == seq![
                Setup::RxPin,
                Setup::TxPin,
                Setup::ResetCr2,
                Setup::ResetCr3,
                Setup::Brr((divisor(pclk as int, config.baudrate as int) % 65536) as u16),
                Setup::Cr1(control(config.parity)),
                Setup::ResetCr2,
                Setup::ResetCr3,
            ],
    {
        let div: u32 = (pclk + config.baudrate / 2) / config.baudrate;
        let pce = match config.parity {
            Parity::ParityNone => false,
            _ => true,
        };
        let ps = match config.parity {
            Parity::ParityOdd => Ps::Odd,
            Parity::ParityEven => Ps::Even,
            _ => Ps::Even,
        };
        let mut steps: Vec<Setup> = Vec::new();
        steps.push(Setup::RxPin);
        steps.push(Setup::TxPin);
        steps.push(Setup::ResetCr2);
        steps.push(Setup::ResetCr3);
        steps.push(Setup::Brr((div % 65536) as u16));
        steps.push(
            Setup::Cr1(Cr1 { ue: true, te: true, re: true, m0: M0::Bit8, m1: M1::M0, pce, ps }),
        );
        steps.push(Setup::ResetCr2);
        steps.push(Setup::ResetCr3);
        (Uart { inner, tx_dma, rx_dma }, steps)
    }

    /// The steps of transmitting a whole buffer through DMA; such a transfer always succeeds.
    pub fn write_dma(&mut self, buffer: &[u8]) -> (r: (Vec<DmaStep>, Result<(), Error>))
        ensures
            *final(self) == *old(self),
            r.0@ == seq![DmaStep::EnableTransmit, DmaStep::Write(buffer.len())],
            r.1 == Ok::<(), Error>(()),
    {
        let mut steps: Vec<DmaStep> = Vec::new();
        steps.push(DmaStep::EnableTransmit);
        steps.push(DmaStep::Write(buffer.len()));
        (steps, Ok(()))
    }

    /// The steps of receiving a whole buffer through DMA; such a transfer always succeeds.
    pub fn read_dma(&mut self, buffer: &[u8]) -> (r: (Vec<DmaStep>, Result<(), Error>))
        ensures
            *final(self) == *old(self),
            r.0@ == seq![DmaStep::EnableReceive, DmaStep::Read(buffer.len())],
            r.1 == Ok::<(), Error>(()),
    {
        let mut steps: Vec<DmaStep> = Vec::new();
        steps.push(DmaStep::EnableReceive);
        steps.push(DmaStep::Read(buffer.len()));
        (steps, Ok(()))
    }

    /// Starts filling a buffer.
    pub fn read_blocking(&mut self, buffer: Vec<u8>) -> (r: BlockingRead)
        ensures
            *final(self) == *old(self),
            r.wf(),
            r@ == buffer@,
            r.filled() == 0,
            r.next() == next_read(0, buffer@.len() as int),
            buffer@.len() == 0 ==> r.next() == ReadStep::Done(Ok(())),
            buffer@.len() > 0 ==> r.next() == ReadStep::Status,
    {
        let step = if buffer.len() == 0 {
            ReadStep::Done(Ok(()))
        } else {
            ReadStep::Status
        };
        BlockingRead { buffer, filled: 0, step }
    }

    /// Starts transmitting a buffer.
    pub fn bwrite_all(&mut self, buffer: Vec<u8>) -> (r: BlockingWrite)
        ensures
            *final(self) == *old(self),
            r.wf(),
            r.remaining() == buffer@,
    {
        let r = BlockingWrite { buffer, written: 0 };
        proof {
            assert(r.remaining() =~= buffer@);
        }
        r
    }

    /// Handles the status while the transmitter is flushed: `None` asks for the status again.
    pub fn bflush(&mut self, sr: Status) -> (r: Option<Result<(), Error>>)
        ensures
            *final(self) == *old(self),
            r == if sr.tc {
                Some(Ok::<(), Error>(()))
            } else {
                None
            },
    {
        if sr.tc {
            Some(Ok(()))
        } else {
            None
        }
    }
}

/// What a blocking read has to be handed next.
#[derive(Clone, Copy, Debug)]
pub enum ReadStep {
    /// The status register.
    Status,
    /// The receive data register, whose byte is stored.
    Data,
    /// The receive data register, whose byte is dropped because of an error.
    Discard(Error),
    /// Nothing: the read is over.
    Done(Result<(), Error>),
}

/// The step that follows once `filled` bytes of `len` are in place.
pub open spec fn next_read(filled: int, len: int) -> ReadStep {
    if filled == len {
        ReadStep::Done(Ok(()))
    } else {
        ReadStep::Status
    }
}

/// The error that a status reports first, if any.
pub open spec fn reported(sr: Status) -> Option<Error> {
    if sr.pe {
        Some(Error::Parity)
    } else if sr.fe {
        Some(Error::Framing)
    } else if sr.nf {
        Some(Error::Noise)
    } else if sr.ore {
        Some(Error::Overrun)
    } else {
        None
    }
}

/// A blocking read that is under way.
pub struct BlockingRead {
    buffer: Vec<u8>,
    filled: usize,
    step: ReadStep,
}

impl View for BlockingRead {
    type V = Seq<u8>;

    /// The buffer.
    closed spec fn view(&self) -> Seq<u8> {
        self.buffer@
    }
}

impl BlockingRead {
    /// The number of bytes that have been stored.
    pub closed spec fn filled(&self) -> int {
        self.filled as int
    }

    /// The step that comes next.
    pub closed spec fn next(&self) -> ReadStep {
        self.step
    }

    /// The invariant: the read is over without an error exactly when the buffer is full.
    pub open spec fn wf(&self) -> bool {
        &&& 0 <= self.filled() <= self@.len()
        &&& self.next() == ReadStep::Done(Ok(())) <==> self.filled() == self@.len()
    }

    /// Tells what comes next.
    pub fn step(&self) -> (r: ReadStep)
        ensures
            r == self.next(),
    {
        self.step
    }

    /// Handles the status: an error is reported once the receive data register has been read, and
    /// without one the status is asked for until a frame has arrived.
    pub fn on_status(&mut self, sr: Status)
        requires
            old(self).wf(),
            old(self).next() == ReadStep::Status,
        ensures
            read_moved(*old(self), ReadEvent::Status(sr), *final(self)),
    {
        if sr.pe {
            self.step = ReadStep::Discard(Error::Parity);
        } else if sr.fe {
            self.step = ReadStep::Discard(Error::Framing);
        } else if sr.nf {
            self.step = ReadStep::Discard(Error::Noise);
        } else if sr.ore {
            self.step = ReadStep::Discard(Error::Overrun);
        } else if sr.rxne {
            self.step = ReadStep::Data;
        }
    }

    /// Handles the receive data register: stores its byte, or drops it and fails.
    pub fn on_data(&mut self, word: u32)
        requires
            old(self).wf(),
            old(self).next() == ReadStep::Data || old(self).next() is Discard,
        ensures
            read_moved(*old(self), ReadEvent::Data(word), *final(self)),
    {
        match self.step {
            ReadStep::Discard(e) => {
                self.step = ReadStep::Done(Err(e));
            },
            _ => {
                assert(self.buffer.len() == self.buffer@.len());
                let at: usize = self.filled;
                self.buffer[at] = data_byte(word);
                self.filled = at + 1;
                self.step = if self.filled == self.buffer.len() {
                    ReadStep::Done(Ok(()))
                } else {
                    ReadStep::Status
                };
            },
        }
    }

    /// Hands the buffer back.
    pub fn into_buffer(self) -> (r: Vec<u8>)
        ensures
            r@ == self@,
    {
        self.buffer
    }
}

/// A register that a blocking read is handed.
pub enum ReadEvent {
    /// The status register.
    Status(Status),
    /// The receive data register.
    Data(u32),
}

/// Whether a blocking read went from `before` to `after` when it was handed a register. An error in
/// the status ends the read once the byte that comes with it has been dropped; a byte without an
/// error is stored behind those before it.
pub open spec fn read_moved(before: BlockingRead, event: ReadEvent, after: BlockingRead) -> bool {
    &&& before.wf()
    &&& after.wf()
    &&& match event {
        ReadEvent::Status(sr) => {
            &&& before.next() == ReadStep::Status
            &&& after@ == before@
            &&& after.filled() == before.filled()
            &&& after.next() == match reported(sr) {
                Some(e) => ReadStep::Discard(e),
                None => if sr.rxne {
                    ReadStep::Data
                } else {
                    ReadStep::Status
                },
            }
        },
        ReadEvent::Data(word) => match before.next() {
            ReadStep::Data => {
                &&& after@ == before@.update(before.filled(), low_byte(word))
                &&& after.filled() == before.filled() + 1
                &&& after.next() == next_read(before.filled() + 1, before@.len() as int)
            },
            ReadStep::Discard(e) => {
                &&& after@ == before@
                &&& after.filled() == before.filled()
                &&& after.next() == ReadStep::Done(Err(e))
            },
            _ => false,
        },
    }
}

/// A blocking write that is under way.
pub struct BlockingWrite {
    buffer: Vec<u8>,
    written: usize,
}

/// Whether a blocking write went from `before` to `after` when it handed out `word`.
pub open spec fn write_moved(
    before: BlockingWrite,
    word: Option<u32>,
    after: BlockingWrite,
) -> bool {
    match word {
        Some(w) => {
            &&& before.remaining().len() > 0
            &&& w == before.remaining()[0]
            &&& after.remaining() == before.remaining().skip(1)
        },
        None => after.remaining() == before.remaining(),
    }
}

/// The bytes that a blocking write handed out.
pub open spec fn written(words: Seq<Option<u32>>) -> Seq<u8>
    decreases words.len(),
{
    if words.len() == 0 {
        Seq::empty()
    } else {
        match words.last() {
            Some(w) => written(words.drop_last()).push(low_byte(w)),
            None => written(words.drop_last()),
        }
    }
}

impl BlockingWrite {
    /// The bytes that have not been written yet.
    pub closed spec fn remaining(&self) -> Seq<u8> {
        self.buffer@.skip(self.written as int)
    }

    /// The invariant of the write.
    pub closed spec fn wf(&self) -> bool {
        self.written <= self.buffer@.len()
    }

    /// The result, once every byte has been written; `None` asks for the status.
    pub fn result(&self) -> (r: Option<Result<(), Error>>)
        requires
            self.wf(),
        ensures
            r == if self.remaining().len() == 0 {
                Some(Ok::<(), Error>(()))
            } else {
                None
            },
    {
        if self.written == self.buffer.len() {
            Some(Ok(()))
        } else {
            None
        }
    }

    /// Handles the status: once the transmit register is empty, the next byte is written to it.
    pub fn on_status(&mut self, sr: Status) -> (r: Option<u32>)
        requires
            old(self).wf(),
            old(self).remaining().len() > 0,
        ensures
            final(self).wf(),
            r is Some <==> sr.txe,
            write_moved(*old(self), r, *final(self)),
    {
        if sr.txe {
            assert(self.buffer.len() == self.buffer@.len());
            let b: u8 = self.buffer[self.written];
            self.written = self.written + 1;
            proof {
                assert(self.remaining() =~= old(self).remaining().skip(1));
            }
            Some(b as u32)
        } else {
            None
        }
    }
}

/// No other divisor comes closer to the asked baud rate: the ticks of a bit are off by at most half
/// a tick, and where two divisors are equally close the larger one is taken.
pub proof fn lemma_divisor_is_nearest(pclk: int, baudrate: int)
    requires
        pclk >= 0,
        baudrate > 0,
    ensures
        -baudrate < 2 * (divisor(pclk, baudrate) * baudrate - pclk) <= baudrate,
        divisor(pclk, baudrate) >= 0,
{
    let d = divisor(pclk, baudrate);
    let sum = pclk + baudrate / 2;
    assert(d * baudrate <= sum < d * baudrate + baudrate && d >= 0) by (nonlinear_arith)
        requires
            d == sum / baudrate,
            sum >= 0,
            baudrate > 0,
    ;
}

/// The bytes of the frames that a blocking read was handed without an error. `history` holds the
/// read before, between and after the registers that it was handed.
pub open spec fn frames(history: Seq<BlockingRead>, events: Seq<ReadEvent>) -> Seq<u8>
    decreases events.len(),
{
    if events.len() == 0 {
        Seq::empty()
    } else {
        let before = frames(history.drop_last(), events.drop_last());
        match (events.last(), history[events.len() - 1].next()) {
            (ReadEvent::Data(word), ReadStep::Data) => before.push(low_byte(word)),
            _ => before,
        }
    }
}

/// Whatever a blocking read is handed, it stores the bytes of the frames without an error, in the
/// order in which they came, and leaves the rest of the buffer alone. A read that succeeded has
/// filled the buffer with them.
pub proof fn lemma_read_in_order(history: Seq<BlockingRead>, events: Seq<ReadEvent>)
    requires
        history.len() == events.len() + 1,
        history[0].wf(),
        history[0].filled() == 0,
        forall|i: int|
            #![trigger events[i]]
            0 <= i < events.len() ==> read_moved(history[i], events[i], history[i + 1]),
    ensures
        ({
            let bytes = frames(history, events);
            let last = history.last();
            &&& last.wf()
            &&& last.filled() == bytes.len()
            &&& last@.len() == history[0]@.len()
            &&& last@ == bytes + history[0]@.skip(bytes.len() as int)
            &&& last.next() == ReadStep::Done(Ok(())) ==> last@ == bytes
        }),
    decreases events.len(),
{
    let bytes = frames(history, events);
    let last = history.last();
    if events.len() == 0 {
        assert(last@ =~= bytes + history[0]@.skip(0));
    } else {
        let n = events.len() - 1;
        let earlier = events.drop_last();
        let before = history.drop_last();
        assert forall|i: int| #![trigger earlier[i]] 0 <= i < earlier.len() implies read_moved(
            before[i],
            earlier[i],
            before[i + 1],
        ) by {
            assert(earlier[i] == events[i]);
        }
        lemma_read_in_order(before, earlier);
        assert(read_moved(history[n], events[n], history[n + 1]));
        let stored = frames(before, earlier);
        assert(before.last() == history[n] && before[0] == history[0]);
        match (events[n], history[n].next()) {
            (ReadEvent::Data(word), ReadStep::Data) => {
                assert(bytes == stored.push(low_byte(word)));
                assert(last@ =~= bytes + history[0]@.skip(bytes.len() as int));
            },
            _ => {
                assert(bytes == stored);
            },
        }
    }
    if last.next() == ReadStep::Done(Ok(())) {
        assert(last@ =~= bytes);
    }
}

/// Whatever statuses a blocking write is handed, the bytes that it hands out are those of its
/// buffer, in order and each once; the others remain. `history` holds the write before, between and
/// after the statuses, and `words` what it handed out for each.
pub proof fn lemma_written_in_order(history: Seq<BlockingWrite>, words: Seq<Option<u32>>)
    requires
        history.len() == words.len() + 1,
        forall|i: int|
            #![trigger words[i]]
            0 <= i < words.len() ==> write_moved(history[i], words[i], history[i + 1]),
    ensures
        history[0].remaining() == written(words) + history.last().remaining(),
    decreases words.len(),
{
    if words.len() == 0 {
        assert(history[0].remaining() =~= written(words) + history.last().remaining());
    } else {
        let n = words.len() - 1;
        let earlier = words.drop_last();
        let before = history.drop_last();
        assert forall|i: int| #![trigger earlier[i]] 0 <= i < earlier.len() implies write_moved(
            before[i],
            earlier[i],
            before[i + 1],
        ) by {
            assert(earlier[i] == words[i]);
        }
        lemma_written_in_order(before, earlier);
        assert(write_moved(history[n], words[n], history[n + 1]));
        assert(written(words) + history.last().remaining() =~= written(earlier)
            + history[n].remaining());
    }
}

/// Frames have eight bits and the port works in both directions, whatever the parity; a parity bit
/// is added exactly if one is asked for, and is an odd one exactly if that is.
pub proof fn lemma_control(parity: Parity)
    ensures
        ({
            let cr1 = control(parity);
            &&& cr1.ue && cr1.te && cr1.re
            &&& cr1.m0 == M0::Bit8
            &&& cr1.m1 == M1::M0
            &&& !cr1.pce <==> parity == Parity::ParityNone
            &&& cr1.ps == Ps::Odd <==> parity == Parity::ParityOdd
        }),
{
}

/// A status with any of the four error flags is an error, a parity error before a framing error
/// before noise before an overrun, and a status with none of them is not.
pub proof fn lemma_errors_are_reported(sr: Status)
    ensures
        reported(sr) is None <==> !sr.pe && !sr.fe && !sr.nf && !sr.ore,
        sr.pe ==> reported(sr) == Some(Error::Parity),
        !sr.pe && sr.fe ==> reported(sr) == Some(Error::Framing),
        !sr.pe && !sr.fe && sr.nf ==> reported(sr) == Some(Error::Noise),
        !sr.pe && !sr.fe && !sr.nf && sr.ore ==> reported(sr) == Some(Error::Overrun),
{
}

/// A status with an error flag leads to its byte being dropped, a status without one to a byte
/// being stored if there is one, and to the next status if there is none.
pub proof fn lemma_status_decides(before: BlockingRead, sr: Status, after: BlockingRead)
    requires
        read_moved(before, ReadEvent::Status(sr), after),
    ensures
        after@ == before@,
        after.filled() == before.filled(),
        sr.pe ==> after.next() == ReadStep::Discard(Error::Parity),
        !sr.pe && sr.fe ==> after.next() == ReadStep::Discard(Error::Framing),
        !sr.pe && !sr.fe && sr.nf ==> after.next() == ReadStep::Discard(Error::Noise),
        !sr.pe && !sr.fe && !sr.nf && sr.ore ==> after.next() == ReadStep::Discard(Error::Overrun),
        after.next() == ReadStep::Data <==> sr.rxne && !sr.pe && !sr.fe && !sr.nf && !sr.ore,
        after.next() == ReadStep::Status <==> !sr.rxne && !sr.pe && !sr.fe && !sr.nf && !sr.ore,
{
}

/// A byte that is read after an error ends the read with that error. Any other byte is stored at
/// the next place, after which the read is over if the buffer is full, and asks for the status
/// otherwise.
pub proof fn lemma_byte_is_stored_or_dropped(before: BlockingRead, word: u32, after: BlockingRead)
    requires
        read_moved(before, ReadEvent::Data(word), after),
    ensures
        before.next() matches ReadStep::Discard(e) ==> after.next() == ReadStep::Done(Err(e))
            && after@ == before@ && after.filled() == before.filled(),
        before.next() == ReadStep::Data ==> {
            &&& after.filled() == before.filled() + 1
            &&& after@.len() == before@.len()
            &&& after@[before.filled()] as u32 == word & 0xff
            &&& forall|i: int|
                0 <= i < before@.len() && i != before.filled() ==> after@[i] == before@[i]
            &&& after.filled() == after@.len() ==> after.next() == ReadStep::Done(Ok(()))
            &&& after.filled() < after@.len() ==> after.next() == ReadStep::Status
        },
{
    lemma_low_byte(word, 0);
}

/// A status with an error flag is the last one that a read is handed, and the read fails for it. So
/// a read that succeeded was handed none.
pub proof fn lemma_success_means_no_error(
    history: Seq<BlockingRead>,
    events: Seq<ReadEvent>,
    i: int,
)
    requires
        history.len() == events.len() + 1,
        forall|j: int|
            #![trigger events[j]]
            0 <= j < events.len() ==> read_moved(history[j], events[j], history[j + 1]),
        0 <= i < events.len(),
    ensures
        events[i] matches ReadEvent::Status(sr) ==> sr.pe || sr.fe || sr.nf || sr.ore ==> {
            &&& i + 2 >= events.len()
            &&& history.last().next() is Discard || history.last().next() matches ReadStep::Done(
                Err(_),
            )
        },
{
    assert(read_moved(history[i], events[i], history[i + 1]));
    if let ReadEvent::Status(sr) = events[i] {
        if sr.pe || sr.fe || sr.nf || sr.ore {
            if i + 1 < events.len() {
                assert(read_moved(history[i + 1], events[i + 1], history[i + 2]));
            }
            if i + 2 < events.len() {
                assert(read_moved(history[i + 2], events[i + 2], history[i + 3]));
            }
        }
    }
}

/// A word that is handed out is the first byte that remained, without any other bit, and that byte
/// does not remain. Where none is handed out, every byte remains.
pub proof fn lemma_word_is_the_first_byte(
    before: BlockingWrite,
    word: Option<u32>,
    after: BlockingWrite,
)
    requires
        write_moved(before, word, after),
    ensures
        match word {
            Some(w) => w < 256 && before.remaining() == seq![w as u8] + after.remaining(),
            None => after.remaining() == before.remaining(),
        },
{
    if let Some(w) = word {
        assert(before.remaining() =~= seq![w as u8] + before.remaining().skip(1));
    }
}

} // verus!
