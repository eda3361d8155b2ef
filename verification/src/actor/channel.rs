//! A bounded channel between one sender and one receiver.

use crate::waker::{Poll, WakerRegistration};
use heapless::consts;
use heapless::spsc::Queue;
use vstd::prelude::*;

#[allow(unused_imports)]
use crate::stream::{flows, lemma_first_in_first_out};
#[allow(unused_imports)]
use crate::waker::after_wake;

verus! {

/// The number of messages that a channel holds.
pub const CAPACITY: usize = 4;

/// A first-in, first-out queue of slot numbers, kept by a `heapless::spsc::Queue` of `CAPACITY`
/// places.
#[verifier::external_body]
pub struct SlotQueue {
    queue: Queue<usize, consts::U4>,
}

/// The slot numbers in a queue, oldest first.
pub uninterp spec fn queued(q: SlotQueue) -> Seq<usize>;

/// Calls `heapless::spsc::Queue::new`.
///
/// Trusted: the new queue is empty.
#[verifier::external_body]
fn queue_new() -> (q: SlotQueue)
    ensures
        queued(q) == Seq::<usize>::empty(),
{
    SlotQueue { queue: Queue::new() }
}

/// Calls `heapless::spsc::Producer::ready` on the producing end of the queue.
///
/// Trusted: a queue is ready for another element exactly if it holds fewer than its capacity, and
/// asking changes nothing.
#[verifier::external_body]
fn queue_ready(q: &mut SlotQueue) -> (r: bool)
    ensures
        r == (queued(*old(q)).len() < CAPACITY),
        queued(*final(q)) == queued(*old(q)),
{
    let (producer, _) = q.queue.split();
    producer.ready()
}

/// Calls `heapless::spsc::Producer::enqueue` on the producing end of the queue.
///
/// Trusted: the element goes to the end of a queue that has room; a full queue stays as it is and
/// the element comes back.
#[verifier::external_body]
fn queue_enqueue(q: &mut SlotQueue, slot: usize) -> (r: Result<(), usize>)
    ensures
        if queued(*old(q)).len() < CAPACITY {
            r is Ok && queued(*final(q)) == queued(*old(q)).push(slot)
        } else {
            r == Err::<(), usize>(slot) && queued(*final(q)) == queued(*old(q))
        },
{
    let (mut producer, _) = q.queue.split();
    producer.enqueue(slot)
}

/// Calls `heapless::spsc::Consumer::dequeue` on the consuming end of the queue.
///
/// Trusted: the oldest element is taken off the queue; an empty queue gives `None`.
#[verifier::external_body]
fn queue_dequeue(q: &mut SlotQueue) -> (r: Option<usize>)
    ensures
        if queued(*old(q)).len() > 0 {
            r == Some(queued(*old(q))[0]) && queued(*final(q)) == queued(*old(q)).skip(1)
        } else {
            r is None && queued(*final(q)) == queued(*old(q))
        },
{
    let (_, mut consumer) = q.queue.split();
    consumer.dequeue()
}

/// The messages that a poll for a message yielded.
pub open spec fn taken<T>(r: Poll<T>) -> Seq<T> {
    match r {
        Poll::Ready(value) => seq![value],
        Poll::Pending => Seq::empty(),
    }
}

/// A poll that is ready yields the one message that it holds, and a poll that is pending yields
/// none.
pub proof fn lemma_taken<T>(r: Poll<T>)
    ensures
        match r {
            Poll::Ready(value) => taken(r).len() == 1 && taken(r)[0] == value,
            Poll::Pending => taken(r).len() == 0,
        },
{
}

/// The queue of a channel and the tasks that wait for it.
///
/// Messages lie in numbered slots; the queue holds the numbers of the occupied slots in the order
/// in which the messages were sent.
pub struct ChannelInner<T, W> {
    queue: SlotQueue,
    slots: Vec<Option<T>>,
    ends: bool,
    producer_waker: WakerRegistration<W>,
    consumer_waker: WakerRegistration<W>,
    due: Vec<W>,
}

impl<T, W> View for ChannelInner<T, W> {
    type V = Seq<T>;

    /// The messages in the channel, oldest first.
    closed spec fn view(&self) -> Seq<T> {
        Seq::new(
            queued(self.queue).len(),
            |i: int| self.slots@[queued(self.queue)[i] as int]->Some_0,
        )
    }
}

impl<T, W> ChannelInner<T, W> {
    /// Whether the two ends of the channel exist.
    pub closed spec fn ends(&self) -> bool {
        self.ends
    }

    /// The waker of the task that waits for room.
    pub closed spec fn producer_waker(&self) -> Option<W> {
        self.producer_waker@
    }

    /// The waker of the task that waits for a message.
    pub closed spec fn consumer_waker(&self) -> Option<W> {
        self.consumer_waker@
    }

    /// The wakers that are due, in the order in which their tasks became ready.
    pub closed spec fn due(&self) -> Seq<W> {
        self.due@
    }

    /// The invariant: the queue names every occupied slot once, and no task waits for what is
    /// already there.
    pub closed spec fn wf(&self) -> bool {
        let q = queued(self.queue);
        &&& self.slots@.len() == CAPACITY
        &&& q.no_duplicates()
        &&& forall|i: int| #![trigger q[i]] 0 <= i < q.len() ==> q[i] < CAPACITY
        &&& forall|i: int| #![trigger q[i]] 0 <= i < q.len() ==> self.slots@[q[i] as int] is Some
        &&& forall|s: int|
            #![trigger self.slots@[s]]
            0 <= s < CAPACITY && self.slots@[s] is Some ==> q.contains(s as usize)
        &&& self.consumer_waker@ is Some ==> q.len() == 0
        &&& self.producer_waker@ is Some ==> q.len() == CAPACITY
    }

    /// No wake-up is lost: whatever was sent and received, a receiver that is registered finds no
    /// message, and a sender that is registered finds no room.
    pub proof fn lemma_no_lost_wakeup(&self)
        requires
            self.wf(),
        ensures
            self.consumer_waker() is Some ==> self@.len() == 0,
            self.producer_waker() is Some ==> self@.len() == CAPACITY,
    {
    }

    /// A channel never holds more than its capacity of four messages.
    pub proof fn lemma_bounded(&self)
        requires
            self.wf(),
        ensures
            self@.len() <= CAPACITY,
            CAPACITY == 4,
    {
        let q = queued(self.queue);
        q.unique_seq_to_set();
        let all = vstd::set_lib::set_int_range(0, CAPACITY as int);
        vstd::set_lib::lemma_int_range(0, CAPACITY as int);
        let nums = q.to_set().map(|s: usize| s as int);
        vstd::set_lib::lemma_map_size(q.to_set(), nums, |s: usize| s as int);
        assert(nums.subset_of(all));
        vstd::set_lib::lemma_len_subset(nums, all);
    }

    proof fn lemma_free_slot(&self)
        requires
            self.wf(),
            self@.len() < CAPACITY,
        ensures
            exists|s: int| 0 <= s < CAPACITY && self.slots@[s] is None,
    {
        if forall|s: int| 0 <= s < CAPACITY ==> self.slots@[s] is Some {
            let q = queued(self.queue);
            q.unique_seq_to_set();
            let all = vstd::set_lib::set_int_range(0, CAPACITY as int);
            vstd::set_lib::lemma_int_range(0, CAPACITY as int);
            let nums = q.to_set().map(|s: usize| s as int);
            vstd::set_lib::lemma_map_size(q.to_set(), nums, |s: usize| s as int);
            assert forall|n: int| all.contains(n) implies nums.contains(n) by {
                assert(self.slots@[n] is Some);
                assert(q.to_set().contains(n as usize));
            }
            vstd::set_lib::lemma_len_subset(all, nums);
        }
    }

    /// Creates an empty channel without ends.
    pub fn new() -> (r: Self)
        ensures
            r.wf(),
            r@ == Seq::<T>::empty(),
            !r.ends(),
            r.producer_waker() is None,
            r.consumer_waker() is None,
            r.due() == Seq::<W>::empty(),
    {
        let mut slots: Vec<Option<T>> = Vec::new();
        let mut i: usize = 0;
        while i < CAPACITY
            invariant
                i <= CAPACITY,
                slots@.len() == i,
                forall|s: int| 0 <= s < i ==> slots@[s] is None,
            decreases CAPACITY - i,
        {
            slots.push(None);
            i = i + 1;
        }
        let r = ChannelInner {
            queue: queue_new(),
            slots,
            ends: false,
            producer_waker: WakerRegistration::new(),
            consumer_waker: WakerRegistration::new(),
            due: Vec::new(),
        };
        proof {
            assert(r@ =~= Seq::<T>::empty());
        }
        r
    }

    /// Creates the two ends of the channel.
    pub fn split(&mut self)
        requires
            old(self).wf(),
        ensures
            final(self).wf(),
            final(self).ends(),
            final(self)@ == old(self)@,
            final(self).producer_waker() == old(self).producer_waker(),
            final(self).consumer_waker() == old(self).consumer_waker(),
            final(self).due() == old(self).due(),
    {
        self.ends = true;
        proof {
            assert(self@ =~= old(self)@);
        }
    }

    /// Takes the oldest message and wakes the sender, or registers the receiver if there is no
    /// message.
    pub fn poll_dequeue(&mut self, waker: W) -> (r: Poll<T>)
        requires
            old(self).wf(),
            old(self).ends(),
        ensures
            final(self).wf(),
            final(self).ends(),
            flows(old(self)@, Seq::empty(), taken(r), final(self)@),
            dequeued(*old(self), *final(self), waker, r),
    {
        match queue_dequeue(&mut self.queue) {
            Some(slot) => {
                let ghost q = queued(old(self).queue);
                assert(slot == q[0]);
                let value = self.slots[slot].take().unwrap();
                self.producer_waker.wake(&mut self.due);
                proof {
                    let rest = queued(self.queue);
                    assert(rest =~= q.skip(1));
                    assert forall|i: int| 0 <= i < rest.len() implies rest[i] != slot by {
                        assert(rest[i] == q[i + 1]);
                    }
                    assert forall|s: int|
                        #![trigger self.slots@[s]]
                        0 <= s < CAPACITY && self.slots@[s] is Some implies rest.contains(
                        s as usize,
                    ) by {
                        assert(old(self).slots@[s] is Some);
                        let i = choose|i: int| 0 <= i < q.len() && q[i] == s as usize;
                        assert(rest[i - 1] == s as usize);
                    }
                    assert(self@ =~= old(self)@.skip(1));
                    assert(old(self)@ + Seq::empty() =~= seq![value] + self@);
                }
                Poll::Ready(value)
            },
            None => {
                self.consumer_waker.register(waker);
                proof {
                    assert(self@ =~= old(self)@);
                    assert(old(self)@ + Seq::empty() =~= Seq::empty() + self@);
                }
                Poll::Pending
            },
        }
    }

    /// Moves a message into the channel and wakes the receiver, or registers the sender if the
    /// channel is full.
    pub fn poll_enqueue(&mut self, waker: W, element: &mut Option<T>) -> (r: Poll<()>)
        requires
            old(self).wf(),
            old(self).ends(),
            *old(element) is Some || old(self)@.len() >= CAPACITY,
        ensures
            final(self).wf(),
            final(self).ends(),
            flows(
                old(self)@,
                if r is Ready {
                    seq![old(element)->Some_0]
                } else {
                    Seq::empty()
                },
                Seq::empty(),
                final(self)@,
            ),
            enqueued(*old(self), *final(self), waker, *old(element), *final(element), r),
    {
        if queue_ready(&mut self.queue) {
            let value = element.take().unwrap();
            proof {
                self.lemma_free_slot();
            }
            let mut slot: usize = 0;
            while self.slots[slot].is_some()
                invariant
                    slot < CAPACITY,
                    self.slots@.len() == CAPACITY,
                    forall|s: int| 0 <= s < slot ==> self.slots@[s] is Some,
                    exists|s: int| 0 <= s < CAPACITY && self.slots@[s] is None,
                decreases CAPACITY - slot,
            {
                slot = slot + 1;
            }
            let ghost q = queued(self.queue);
            self.slots[slot] = Some(value);
            let _ = queue_enqueue(&mut self.queue, slot);
            self.consumer_waker.wake(&mut self.due);
            proof {
                let after = queued(self.queue);
                assert forall|s: int|
                    #![trigger self.slots@[s]]
                    0 <= s < CAPACITY && self.slots@[s] is Some implies after.contains(
                    s as usize,
                ) by {
                    if s == slot {
                        assert(after[q.len() as int] == slot);
                    } else {
                        assert(old(self).slots@[s] is Some);
                        let i = choose|i: int| 0 <= i < q.len() && q[i] == s as usize;
                        assert(after[i] == s as usize);
                    }
                }
                assert(self@ =~= old(self)@.push(old(element)->Some_0));
                assert(old(self)@ + seq![old(element)->Some_0] =~= Seq::empty() + self@);
            }
            Poll::Ready(())
        } else {
            proof {
                old(self).lemma_bounded();
            }
            self.producer_waker.register(waker);
            proof {
                assert(self@ =~= old(self)@);
                assert(old(self)@ + Seq::empty() =~= Seq::empty() + self@);
            }
            Poll::Pending
        }
    }

    /// Takes the wakers that are due, for them to be woken in order.
    pub fn take_due(&mut self) -> (r: Vec<W>)
        requires
            old(self).wf(),
        ensures
            final(self).wf(),
            r@ == old(self).due(),
            final(self).due() == Seq::<W>::empty(),
            final(self)@ == old(self)@,
            final(self).ends() == old(self).ends(),
            final(self).producer_waker() == old(self).producer_waker(),
            final(self).consumer_waker() == old(self).consumer_waker(),
    {
        let mut r: Vec<W> = Vec::new();
        r.append(&mut self.due);
        proof {
            assert(self@ =~= old(self)@);
        }
        r
    }
}

/// Whether the oldest message was taken out of a channel and the sender was woken, or the receiver
/// was registered where there was no message.
pub open spec fn dequeued<T, W>(
    before: ChannelInner<T, W>,
    after: ChannelInner<T, W>,
    waker: W,
    r: Poll<T>,
) -> bool {
    if before@.len() > 0 {
        &&& r == Poll::Ready(before@[0])
        &&& after@ == before@.skip(1)
        &&& after.producer_waker() is None
        &&& after.consumer_waker() == before.consumer_waker()
        &&& after.due() == after_wake(before.due(), before.producer_waker())
    } else {
        &&& r is Pending
        &&& after@ == before@
        &&& after.producer_waker() == before.producer_waker()
        &&& after.consumer_waker() == Some(waker)
        &&& after.due() == before.due()
    }
}

/// Whether a message was moved into a channel and the receiver was woken, or the sender was
/// registered where there was no room. What is left of the message is `left`.
pub open spec fn enqueued<T, W>(
    before: ChannelInner<T, W>,
    after: ChannelInner<T, W>,
    waker: W,
    message: Option<T>,
    left: Option<T>,
    r: Poll<()>,
) -> bool {
    if before@.len() < CAPACITY {
        &&& r == Poll::Ready(())
        &&& after@ == before@.push(message->Some_0)
        &&& left is None
        &&& after.producer_waker() == before.producer_waker()
        &&& after.consumer_waker() is None
        &&& after.due() == after_wake(before.due(), before.consumer_waker())
    } else {
        &&& r is Pending
        &&& after@ == before@
        &&& left == message
        &&& after.producer_waker() == Some(waker)
        &&& after.consumer_waker() == before.consumer_waker()
        &&& after.due() == before.due()
    }
}

/// A receiver has to wait exactly if the channel is empty. Otherwise it gets the message that was
/// sent first, and the sender that waited for room is woken.
pub proof fn lemma_dequeued<T, W>(
    before: ChannelInner<T, W>,
    after: ChannelInner<T, W>,
    waker: W,
    r: Poll<T>,
)
    requires
        dequeued(before, after, waker, r),
    ensures
        r is Pending <==> before@.len() == 0,
        r matches Poll::Ready(message) ==> {
            &&& before@ == seq![message] + after@
            &&& after.producer_waker() is None
            &&& before.producer_waker() matches Some(w) ==> after.due() == before.due().push(w)
            &&& before.producer_waker() is None ==> after.due() == before.due()
            &&& after.consumer_waker() == before.consumer_waker()
        },
        r is Pending ==> {
            &&& after@.len() == 0
            &&& after.consumer_waker() == Some(waker)
            &&& after.producer_waker() == before.producer_waker()
            &&& after.due() == before.due()
        },
{
    if before@.len() > 0 {
        assert(before@ =~= seq![before@[0]] + before@.skip(1));
    }
}

/// A sender has to wait exactly if the channel holds four messages, and keeps its message then.
/// Otherwise the message is the last one in the channel, the sender does not have it any more, and
/// the receiver that waited for one is woken.
pub proof fn lemma_enqueued<T, W>(
    before: ChannelInner<T, W>,
    after: ChannelInner<T, W>,
    waker: W,
    message: Option<T>,
    left: Option<T>,
    r: Poll<()>,
)
    requires
        before.wf(),
        enqueued(before, after, waker, message, left, r),
    ensures
        r is Pending <==> before@.len() == 4,
        r is Ready ==> {
            &&& left is None
            &&& after@.len() == before@.len() + 1
            &&& before@.is_prefix_of(after@)
            &&& message matches Some(m) ==> after@.last() == m
            &&& after.consumer_waker() is None
            &&& before.consumer_waker() matches Some(w) ==> after.due() == before.due().push(w)
            &&& before.consumer_waker() is None ==> after.due() == before.due()
            &&& after.producer_waker() == before.producer_waker()
        },
        r is Pending ==> {
            &&& left == message
            &&& after@ == before@
            &&& after.producer_waker() == Some(waker)
            &&& after.consumer_waker() == before.consumer_waker()
            &&& after.due() == before.due()
        },
{
    before.lemma_bounded();
}

/// Whatever is sent and received through a channel, in whatever order: the messages that were
/// taken out are those that were in the channel and those that were moved into it, in that order,
/// and the others are still there. `history` holds the states of the channel, `sent` and
/// `received` what each step moved in and took out.
pub proof fn lemma_messages_in_order<T, W>(
    history: Seq<ChannelInner<T, W>>,
    sent: Seq<Seq<T>>,
    received: Seq<Seq<T>>,
)
    requires
        history.len() == sent.len() + 1,
        received.len() == sent.len(),
        forall|i: int|
            #![trigger sent[i]]
            0 <= i < sent.len() ==> flows(history[i]@, sent[i], received[i], history[i + 1]@),
    ensures
        history[0]@ + sent.flatten() == received.flatten() + history.last()@,
{
    let contents = Seq::new(history.len(), |i: int| history[i]@);
    lemma_first_in_first_out(contents, sent, received);
}

/// A bounded channel between one sender and one receiver.
pub struct Channel<T, W> {
    inner: ChannelInner<T, W>,
}

impl<T, W> Channel<T, W> {
    /// The queue of the channel.
    pub closed spec fn inner(&self) -> ChannelInner<T, W> {
        self.inner
    }

    /// Creates an empty channel, which has to be initialized before use.
    pub fn new() -> (r: Self)
        ensures
            r.inner().wf(),
            r.inner()@ == Seq::<T>::empty(),
            !r.inner().ends(),
            r.inner().producer_waker() is None,
            r.inner().consumer_waker() is None,
            r.inner().due() == Seq::<W>::empty(),
    {
        Channel { inner: ChannelInner::new() }
    }

    /// Makes the channel ready for use.
    pub fn initialize(&mut self)
        requires
            old(self).inner().wf(),
        ensures
            final(self).inner().wf(),
            final(self).inner().ends(),
            final(self).inner()@ == old(self).inner()@,
            final(self).inner().producer_waker() == old(self).inner().producer_waker(),
            final(self).inner().consumer_waker() == old(self).inner().consumer_waker(),
            final(self).inner().due() == old(self).inner().due(),
    {
        self.inner.split();
    }

    /// Starts sending a message.
    pub fn send(&self, value: T) -> (r: ChannelSend<T>)
        ensures
            r@ == Some(value),
    {
        ChannelSend { element: Some(value) }
    }

    /// Starts receiving a message.
    pub fn receive(&self) -> (r: ChannelReceive)
        ensures
            r == ChannelReceive,
    {
        ChannelReceive
    }

    /// Lends the queue of the channel.
    pub fn inner_mut(&mut self) -> (r: &mut ChannelInner<T, W>)
        ensures
            *r == old(self).inner(),
            final(self).inner() == *final(r),
    {
        &mut self.inner
    }
}

/// A message that is being sent.
pub struct ChannelSend<T> {
    element: Option<T>,
}

impl<T> View for ChannelSend<T> {
    type V = Option<T>;

    /// The message, until it is in the channel.
    closed spec fn view(&self) -> Option<T> {
        self.element
    }
}

impl<T> ChannelSend<T> {
    /// Tries to move the message into the channel. A message can be moved only once.
    pub fn poll<W>(&mut self, channel: &mut Channel<T, W>, waker: W) -> (r: Poll<()>)
        requires
            old(channel).inner().wf(),
            old(channel).inner().ends(),
            old(self)@ is Some || old(channel).inner()@.len() >= CAPACITY,
        ensures
            final(channel).inner().wf(),
            final(channel).inner().ends(),
            enqueued(
                old(channel).inner(),
                final(channel).inner(),
                waker,
                old(self)@,
                final(self)@,
                r,
            ),
    {
        channel.inner.poll_enqueue(waker, &mut self.element)
    }
}

/// A message that is being waited for.
#[derive(Clone, Copy, Debug, PartialEq, Eq, Structural)]
pub struct ChannelReceive;

impl ChannelReceive {
    /// Tries to take a message out of the channel.
    pub fn poll<T, W>(&mut self, channel: &mut Channel<T, W>, waker: W) -> (r: Poll<T>)
        requires
            old(channel).inner().wf(),
            old(channel).inner().ends(),
        ensures
            *final(self) == *old(self),
            final(channel).inner().wf(),
            final(channel).inner().ends(),
            dequeued(old(channel).inner(), final(channel).inner(), waker, r),
    {
        channel.inner.poll_dequeue(waker)
    }
}

} // verus!
