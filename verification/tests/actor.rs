use embassy::actor::channel::{Channel, CAPACITY};
use embassy::actor::{process, ActorState, Address, Device, MyActor, SayHello};
use embassy::waker::{Poll, WakerRegistration};

#[test]
fn messages_arrive_in_order() {
    let mut channel: Channel<u32, &str> = Channel::new();
    channel.initialize();
    for n in 0..3 {
        let mut send = channel.send(n);
        assert_eq!(send.poll(&mut channel, "sender"), Poll::Ready(()));
    }
    let mut receive = channel.receive();
    assert_eq!(receive.poll(&mut channel, "receiver"), Poll::Ready(0));
    let mut send = channel.send(3);
    assert_eq!(send.poll(&mut channel, "sender"), Poll::Ready(()));
    for n in 1..4 {
        assert_eq!(receive.poll(&mut channel, "receiver"), Poll::Ready(n));
    }
    assert_eq!(receive.poll(&mut channel, "receiver"), Poll::Pending);
}

#[test]
fn a_full_channel_makes_the_sender_wait() {
    let mut channel: Channel<String, &str> = Channel::new();
    channel.initialize();
    for n in 0..CAPACITY {
        let mut send = channel.send(format!("{}", n));
        assert_eq!(send.poll(&mut channel, "sender"), Poll::Ready(()));
    }
    assert_eq!(CAPACITY, 4);
    let mut send = channel.send(String::from("late"));
    assert_eq!(send.poll(&mut channel, "sender"), Poll::Pending);
    assert_eq!(channel.inner_mut().take_due().len(), 0);
    let mut receive = channel.receive();
    assert_eq!(
        receive.poll(&mut channel, "receiver"),
        Poll::Ready(String::from("0"))
    );
    assert_eq!(channel.inner_mut().take_due(), vec!["sender"]);
    assert_eq!(send.poll(&mut channel, "sender"), Poll::Ready(()));
    for text in ["1", "2", "3", "late"] {
        assert_eq!(
            receive.poll(&mut channel, "receiver"),
            Poll::Ready(String::from(text))
        );
    }
}

#[test]
fn an_empty_channel_makes_the_receiver_wait() {
    let mut channel: Channel<u8, &str> = Channel::new();
    channel.initialize();
    let mut receive = channel.receive();
    assert_eq!(receive.poll(&mut channel, "receiver"), Poll::Pending);
    let mut send = channel.send(1);
    assert_eq!(send.poll(&mut channel, "sender"), Poll::Ready(()));
    assert_eq!(channel.inner_mut().take_due(), vec!["receiver"]);
    assert_eq!(receive.poll(&mut channel, "receiver"), Poll::Ready(1));
    assert_eq!(channel.inner_mut().take_due().len(), 0);
}

#[test]
fn initializing_again_keeps_the_messages() {
    let mut channel: Channel<u8, &str> = Channel::new();
    channel.initialize();
    let mut send = channel.send(1);
    assert_eq!(send.poll(&mut channel, "sender"), Poll::Ready(()));
    channel.initialize();
    let mut receive = channel.receive();
    assert_eq!(receive.poll(&mut channel, "receiver"), Poll::Ready(1));
}

#[test]
fn an_actor_greets_and_counts() {
    let mut state: ActorState<MyActor, &str> = ActorState::new(MyActor::new());
    let mut send = state.mount().send(SayHello);
    assert_eq!(send.poll(&mut state.channel, "main"), Poll::Ready(()));
    let mut receive = state.channel.receive();
    let request = match receive.poll(&mut state.channel, "actor") {
        Poll::Ready(request) => request,
        Poll::Pending => panic!("nothing was sent"),
    };
    assert_eq!(process(&mut state.actor, request), "Hello: 0");
    assert_eq!(process(&mut state.actor, SayHello), "Hello: 1");
    assert_eq!(state.actor.counter, 2);
    state.actor.counter = 4294967294;
    assert_eq!(process(&mut state.actor, SayHello), "Hello: 4294967294");
}

#[test]
fn an_address_reaches_its_actor() {
    let mut state: ActorState<MyActor, &str> = ActorState::new(MyActor::new());
    state.mount();
    let address: Address<MyActor, &str> = Address::new(&state.channel);
    let copy = address.clone();
    let mut first = address.send(SayHello);
    let mut second = copy.send(SayHello);
    assert_eq!(first.poll(&mut state.channel, "main"), Poll::Ready(()));
    assert_eq!(second.poll(&mut state.channel, "main"), Poll::Ready(()));
    let mut receive = state.channel.receive();
    assert!(matches!(
        receive.poll(&mut state.channel, "actor"),
        Poll::Ready(SayHello)
    ));
    assert!(matches!(
        receive.poll(&mut state.channel, "actor"),
        Poll::Ready(SayHello)
    ));
    assert!(matches!(
        receive.poll(&mut state.channel, "actor"),
        Poll::Pending
    ));
}

#[test]
fn a_device_starts_tasks_with_its_spawner() {
    let mut device = Device::new();
    device.set_spawner("first");
    assert_eq!(*device.start(), "first");
    device.set_spawner("second");
    assert_eq!(*device.start(), "second");
}

#[test]
fn the_last_registered_waker_is_woken_once() {
    let mut registration = WakerRegistration::new();
    let mut due = Vec::new();
    registration.wake(&mut due);
    assert_eq!(due.len(), 0);
    registration.register("a");
    registration.register("b");
    registration.wake(&mut due);
    registration.wake(&mut due);
    assert_eq!(due, vec!["b"]);
}
