//! Actors: tasks that own their state and are reached through bounded channels.

pub mod channel;

use crate::actor::channel::{Channel, ChannelSend};
use crate::text::decimal;
use vstd::prelude::*;
use vstd::string::*;

#[allow(unused_imports)]
use crate::text::decimal_text;

verus! {

/// A type that handles messages.
pub trait Actor {
    type Message;
}

/// An actor and the channel that its messages arrive on.
pub struct ActorState<A: Actor, W> {
    pub actor: A,
    pub channel: Channel<A::Message, W>,
}

impl<A: Actor, W> ActorState<A, W> {
    /// Creates the state of an actor, with an empty channel.
    pub fn new(actor: A) -> (r: Self)
        ensures
            r.actor == actor,
            r.channel.inner().wf(),
            r.channel.inner()@ == Seq::<A::Message>::empty(),
            !r.channel.inner().ends(),
            r.channel.inner().producer_waker() is None,
            r.channel.inner().consumer_waker() is None,
            r.channel.inner().due() == Seq::<W>::empty(),
    {
        ActorState { actor, channel: Channel::new() }
    }

    /// Makes the actor reachable: from now on messages can be sent and received.
    pub fn mount(&mut self) -> (r: Address<'_, A, W>)
        requires
            old(self).channel.inner().wf(),
        ensures
            *r.channel() == final(self).channel,
            final(self).actor == old(self).actor,
            final(self).channel.inner().wf(),
            final(self).channel.inner().ends(),
            final(self).channel.inner()@ == old(self).channel.inner()@,
            final(self).channel.inner().producer_waker() == old(
                self).channel.inner().producer_waker(),
            final(self).channel.inner().consumer_waker() == old(
                self).channel.inner().consumer_waker(),
            final(self).channel.inner().due() == old(self).channel.inner().due(),
    {
        self.channel.initialize();
        Address::new(&self.channel)
    }
}

/// Where an actor can be reached.
pub struct Address<'a, A: Actor, W> {
    channel: &'a Channel<A::Message, W>,
}

impl<'a, A: Actor, W> Address<'a, A, W> {
    /// The channel that messages to the actor go through.
    pub closed spec fn channel(&self) -> &'a Channel<A::Message, W> {
        self.channel
    }

    /// Creates the address of the actor at the other end of a channel.
    pub fn new(channel: &'a Channel<A::Message, W>) -> (r: Self)
        ensures
            r.channel() == channel,
    {
        Address { channel }
    }

    /// Starts sending a message to the actor.
    pub fn send(&self, message: A::Message) -> (r: ChannelSend<A::Message>)
        ensures
            r@ == Some(message),
    {
        self.channel.send(message)
    }
}

impl<'a, A: Actor, W> Clone for Address<'a, A, W> {
    /// Another address of the same actor.
    fn clone(&self) -> (r: Self)
        ensures
            r.channel() == self.channel(),
    {
        Address { channel: self.channel }
    }
}

impl<'a, A: Actor, W> Copy for Address<'a, A, W> {

}

/// The place where the tasks of a device are started from; `S` spawns them.
pub struct Device<S> {
    spawner: Option<S>,
}

impl<S> Device<S> {
    /// The spawner, once it is known.
    pub closed spec fn spawner(&self) -> Option<S> {
        self.spawner
    }

    /// Creates a device that cannot start tasks yet.
    pub fn new() -> (r: Self)
        ensures
            r.spawner() is None,
    {
        Device { spawner: None }
    }

    /// Sets the spawner, in place of the one set before.
    pub fn set_spawner(&mut self, spawner: S)
        ensures
            final(self).spawner() == Some(spawner),
    {
        self.spawner = Some(spawner);
    }

    /// The spawner to start a task with; it has to be set.
    pub fn start(&self) -> (r: &S)
        requires
            self.spawner() is Some,
        ensures
            *r == self.spawner()->Some_0,
    {
        self.spawner.as_ref().unwrap()
    }
}

/// An actor that counts greetings.
pub struct MyActor {
    pub counter: u32,
}

/// The request for a greeting.
pub struct SayHello;

impl Actor for MyActor {
    type Message = SayHello;
}

impl MyActor {
    /// Creates an actor that has not greeted anybody.
    pub fn new() -> (r: MyActor)
        ensures
            r.counter == 0,
    {
        MyActor { counter: 0 }
    }
}

/// Handles a request: returns the greeting to log, and counts it.
pub fn process(state: &mut MyActor, request: SayHello) -> (r: String)
    requires
        old(state).counter < u32::MAX,
    ensures
        r@ == "Hello: "@ + decimal_text(old(state).counter as nat),
        final(state).counter == old(state).counter + 1,
{
    let mut r = "Hello: ".to_owned();
    r.append(decimal(state.counter).as_str());
    state.counter = state.counter + 1;
    r
}

} // verus!
