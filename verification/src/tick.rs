//! An actor that is started once and then handles numbered events, one after the other.
//!
//! The machine decides which future is created and polled; the futures themselves belong to the
//! caller.

use crate::text::decimal;
use vstd::prelude::*;
use vstd::string::*;

#[allow(unused_imports)]
use crate::text::decimal_text;

verus! {

/// Where an actor stands.
#[derive(Clone, Copy, Debug, PartialEq, Eq, Structural)]
pub enum ActorState {
    /// Not started.
    New,
    /// Its start future is under way.
    Start,
    /// Ready for the next event.
    Process,
    /// The future of an event is under way.
    Event,
}

/// What the caller has to do next.
#[derive(Clone, Copy, Debug, PartialEq, Eq, Structural)]
pub enum Work {
    /// Create the start future, and poll again.
    CreateStart,
    /// Poll the start future, and report the outcome.
    PollStart,
    /// Create the future of this event, and poll again.
    CreateEvent(u32),
    /// Poll the future of the current event, and report the outcome.
    PollEvent,
}

/// The work that is due in a state.
pub open spec fn due_work(state: ActorState, counter: u32) -> Work {
    match state {
        ActorState::New => Work::CreateStart,
        ActorState::Start => Work::PollStart,
        ActorState::Process => Work::CreateEvent(counter),
        ActorState::Event => Work::PollEvent,
    }
}

/// The state once the due work has been handed out.
pub open spec fn handed_out(state: ActorState) -> ActorState {
    match state {
        ActorState::New => ActorState::Start,
        ActorState::Process => ActorState::Event,
        other => other,
    }
}

/// The number of the event that follows `n`; the numbers wrap around.
pub open spec fn successor(n: u32) -> u32 {
    if n == u32::MAX {
        0
    } else {
        (n + 1) as u32
    }
}

/// The state once a polled future was pending or not.
pub open spec fn reported(state: ActorState, pending: bool) -> ActorState {
    if pending {
        state
    } else {
        ActorState::Process
    }
}

/// An actor that runs.
pub struct B {
    state: ActorState,
    counter: u32,
}

impl B {
    /// Where the actor stands.
    pub closed spec fn state(&self) -> ActorState {
        self.state
    }

    /// The number of the next event.
    pub closed spec fn counter(&self) -> u32 {
        self.counter
    }

    /// Creates an actor that numbers its events from `counter` on.
    pub fn new(counter: u32) -> (r: B)
        ensures
            r.state() == ActorState::New,
            r.counter() == counter,
    {
        B { state: ActorState::New, counter }
    }

    /// Tells what is to be done next.
    pub fn poll(&mut self) -> (r: Work)
        ensures
            r == due_work(old(self).state(), old(self).counter()),
            final(self).state() == handed_out(old(self).state()),
            final(self).counter() == if r is CreateEvent {
                successor(old(self).counter())
            } else {
                old(self).counter()
            },
    {
        match self.state {
            ActorState::New => {
                self.state = ActorState::Start;
                Work::CreateStart
            },
            ActorState::Start => Work::PollStart,
            ActorState::Process => {
                let event: u32 = self.counter;
                self.counter = if event == u32::MAX {
                    0
                } else {
                    event + 1
                };
                self.state = ActorState::Event;
                Work::CreateEvent(event)
            },
            ActorState::Event => Work::PollEvent,
        }
    }

    /// Takes the outcome of polling a future, and tells whether the actor is pending too.
    ///
    /// An actor never completes: once a future is ready, the next event is due.
    pub fn polled(&mut self, pending: bool) -> (r: bool)
        requires
            old(self).state() == ActorState::Start || old(self).state() == ActorState::Event,
        ensures
            r == pending,
            final(self).state() == reported(old(self).state(), pending),
            final(self).counter() == old(self).counter(),
    {
        if !pending {
            self.state = ActorState::Process;
        }
        pending
    }
}

/// The events that an actor creates while the futures that it polls turn out as `pending` says,
/// from a state in which all due work but polling has been handed out.
pub open spec fn events(state: ActorState, counter: u32, pending: Seq<bool>) -> Seq<u32>
    decreases pending.len(),
{
    if pending.len() == 0 {
        Seq::empty()
    } else if pending[0] {
        events(state, counter, pending.skip(1))
    } else {
        let next = reported(state, false);
        seq![due_work(next, counter)->CreateEvent_0] + events(
            handed_out(next),
            successor(counter),
            pending.skip(1),
        )
    }
}

/// The number of polled futures that were ready.
pub open spec fn ready_count(pending: Seq<bool>) -> nat
    decreases pending.len(),
{
    if pending.len() == 0 {
        0
    } else {
        (if pending[0] {
            0nat
        } else {
            1nat
        }) + ready_count(pending.skip(1))
    }
}

/// The number that is `i` events after `counter`.
pub open spec fn numbered(counter: u32, i: int) -> int {
    (counter + i) % 0x1_0000_0000
}

/// The events of an actor are numbered without a gap and without a repetition, and there is one
/// event for each future that became ready.
pub proof fn lemma_events_are_consecutive(state: ActorState, counter: u32, pending: Seq<bool>)
    requires
        state == ActorState::Start || state == ActorState::Event,
    ensures
        events(state, counter, pending).len() == ready_count(pending),
        forall|i: int|
            0 <= i < events(state, counter, pending).len() ==> events(state, counter, pending)[i]
                == numbered(counter, i),
    decreases pending.len(),
{
    if pending.len() > 0 {
        let rest = pending.skip(1);
        if pending[0] {
            lemma_events_are_consecutive(state, counter, rest);
        } else {
            lemma_events_are_consecutive(ActorState::Event, successor(counter), rest);
            let all = events(state, counter, pending);
            let later = events(ActorState::Event, successor(counter), rest);
            assert forall|i: int| 0 <= i < all.len() implies all[i] == numbered(counter, i) by {
                if i > 0 {
                    assert(all[i] == later[i - 1]);
                    assert(later[i - 1] == numbered(successor(counter), i - 1));
                }
            }
        }
    }
}

/// An actor is started first and only once: the start future is created in the new state alone,
/// and no work and no outcome leads back to that state.
pub proof fn lemma_started_once(state: ActorState, counter: u32, pending: bool)
    ensures
        due_work(state, counter) == Work::CreateStart <==> state == ActorState::New,
        handed_out(state) != ActorState::New,
        reported(handed_out(state), pending) != ActorState::New,
{
}

/// What is created is polled: after the start future was created it is polled, and after the future
/// of an event was created that one is. A future that was pending is polled again, and polling it
/// uses up no number. Once a future was ready, the next event is created, whichever future it was.
pub proof fn lemma_polled_until_ready(state: ActorState, counter: u32, later: u32)
    ensures
        due_work(state, counter) == Work::CreateStart ==> due_work(handed_out(state), later)
            == Work::PollStart,
        due_work(state, counter) is CreateEvent ==> due_work(state, counter) == Work::CreateEvent(
            counter,
        ) && due_work(handed_out(state), later) == Work::PollEvent,
        due_work(state, counter) == Work::PollStart || due_work(state, counter) == Work::PollEvent
            ==> {
            &&& due_work(handed_out(state), later) == due_work(state, counter)
            &&& due_work(reported(state, true), later) == due_work(state, counter)
            &&& due_work(reported(state, false), later) == Work::CreateEvent(later)
        },
        state == ActorState::New ==> due_work(state, counter) == Work::CreateStart,
        state == ActorState::Process ==> due_work(state, counter) == Work::CreateEvent(counter),
        state == ActorState::Start ==> due_work(state, counter) == Work::PollStart,
        state == ActorState::Event ==> due_work(state, counter) == Work::PollEvent,
{
}

/// The numbers of events go up by one and start over after the largest.
pub proof fn lemma_successor(n: u32)
    ensures
        successor(n) == (n + 1) % 0x1_0000_0000,
        successor(n) != n,
{
}

/// What an actor prints for an event.
pub fn tick_line(event: u32) -> (r: String)
    ensures
        r@ == "Tick "@ + decimal_text(event as nat),
{
    let mut r = "Tick ".to_owned();
    r.append(decimal(event).as_str());
    r
}

} // verus!
