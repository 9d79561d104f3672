use minitokio::net::{
    reactor_to_use, registered, Attempt, IoError, IoResource, PollStep, ReactorStopped,
    TcpListener, TcpStream,
};
use minitokio::reactor::{
    Delivery, Interest, Operation, PollRequest, ReactorState, Registration,
};

fn request(operation: Operation, token: usize, interest: Interest) -> PollRequest {
    PollRequest { operation, token, interest, delivery: Delivery::EdgeOneshot }
}

#[test]
fn new_reactor_reserves_the_stop_key() {
    let (reactor, stop) = ReactorState::new(7);
    assert_eq!(stop.operation, Operation::Register);
    assert_eq!(stop.token, 0);
    assert_eq!(stop.interest, Interest::Readable);
    assert_eq!(stop.delivery, Delivery::Edge);
    assert_eq!(reactor.slot(0), Some(None));
    assert_eq!(reactor.slot(1), None);
    assert!(!reactor.is_stopped());
    assert!(reactor.has_room());
}

#[test]
fn resource_is_registered_once_and_then_again() {
    let (mut reactor, _) = ReactorState::new(7);
    let mut resource = IoResource::new("socket");
    let first = resource.register(Some(7), &mut reactor, Interest::Readable, 11);
    assert_eq!(first, Ok(request(Operation::Register, 1, Interest::Readable)));
    assert_eq!(resource.registration, Some(Registration { reactor: 7, key: 1 }));
    assert_eq!(reactor.slot(1), Some(Some(11)));
    assert_eq!(reactor.take_wakers(&[1]), vec![11]);
    let second = resource.register(Some(7), &mut reactor, Interest::Writable, 12);
    assert_eq!(second, Ok(request(Operation::Reregister, 1, Interest::Writable)));
    assert_eq!(reactor.slot(1), Some(Some(12)));
    assert_eq!(resource.inner, "socket");
}

#[test]
fn waker_fires_once() {
    let (mut reactor, _) = ReactorState::new(7);
    let mut resource = IoResource::new(());
    resource.register(Some(7), &mut reactor, Interest::Readable, 7).unwrap();
    assert_eq!(reactor.take_wakers(&[1, 1]), vec![7]);
    assert_eq!(reactor.take_wakers(&[1]), Vec::<usize>::new());
    assert_eq!(reactor.slot(1), Some(None));
}

#[test]
fn stop_signal_wakes_nobody() {
    let (mut reactor, stop) = ReactorState::new(7);
    let mut resource = IoResource::new(());
    resource.register(Some(7), &mut reactor, Interest::Readable, 7).unwrap();
    let action = reactor.after_poll(Some(&[stop.token]));
    assert_eq!(action.wake, Vec::<usize>::new());
    assert!(!action.exit);
    assert_eq!(reactor.slot(1), Some(Some(7)));
}

#[test]
fn events_wake_in_their_order() {
    let (mut reactor, _) = ReactorState::new(7);
    for waker in [21, 22, 23] {
        IoResource::new(()).register(Some(7), &mut reactor, Interest::Readable, waker).unwrap();
    }
    let action = reactor.after_poll(Some(&[3, 1]));
    assert_eq!(action.wake, vec![23, 21]);
    assert!(!action.exit);
    assert_eq!(reactor.slot(2), Some(Some(22)));
}

#[test]
fn stopping_wakes_everyone_in_the_order_of_the_keys() {
    let (mut reactor, _) = ReactorState::new(7);
    let mut resources = Vec::new();
    for waker in [31, 32, 33, 34] {
        let mut resource = IoResource::new(());
        resource.register(Some(7), &mut reactor, Interest::Readable, waker).unwrap();
        resources.push(resource);
    }
    assert_eq!(resources[1].registration.unwrap().release(&mut reactor), Some(32));
    assert_eq!(reactor.take_wakers(&[3]), vec![33]);
    assert_eq!(reactor.set_stopped(), vec![31, 34]);
    assert!(reactor.is_stopped());
    assert_eq!(reactor.slot(0), None);
    assert_eq!(reactor.set_stopped(), Vec::<usize>::new());
}

#[test]
fn stopped_reactor_refuses_and_stays_stopped() {
    let (mut reactor, _) = ReactorState::new(7);
    let mut old = IoResource::new(());
    old.register(Some(7), &mut reactor, Interest::Readable, 1).unwrap();
    reactor.set_stopped();
    let mut new = IoResource::new(());
    assert_eq!(new.register(Some(7), &mut reactor, Interest::Readable, 2), Err(ReactorStopped));
    assert_eq!(new.registration, None);
    assert_eq!(old.register(Some(7), &mut reactor, Interest::Readable, 3), Err(ReactorStopped));
    assert_eq!(old.registration, Some(Registration { reactor: 7, key: 1 }));
    assert_eq!(old.registration.unwrap().release(&mut reactor), None);
    let action = reactor.after_poll(Some(&[0, 1]));
    assert!(action.exit);
    assert!(action.wake.is_empty());
    assert_eq!(reactor.slot(1), None);
}

#[test]
fn failed_poll_stops_the_reactor() {
    let (mut reactor, _) = ReactorState::new(7);
    IoResource::new(()).register(Some(7), &mut reactor, Interest::Writable, 5).unwrap();
    let action = reactor.after_poll(None);
    assert_eq!(action.wake, vec![5]);
    assert!(action.exit);
    assert!(reactor.is_stopped());
}

#[test]
fn events_are_known_up_to_the_first_unknown_token() {
    let (mut reactor, _) = ReactorState::new(7);
    let mut resource = IoResource::new(());
    resource.register(Some(7), &mut reactor, Interest::Readable, 7).unwrap();
    assert_eq!(reactor.known_events(&[]), 0);
    assert_eq!(reactor.known_events(&[1, 0, 1]), 3);
    assert_eq!(reactor.known_events(&[2, 1]), 0);
    let tokens = [0, 1, 9, 1];
    let known = reactor.known_events(&tokens);
    assert_eq!(known, 2);
    assert_eq!(reactor.after_poll(Some(&tokens[..known])).wake, vec![7]);
    reactor.set_stopped();
    assert_eq!(reactor.known_events(&[0, 1]), 0);
}

#[test]
fn registered_resource_goes_to_its_own_reactor() {
    let (mut reactor, _) = ReactorState::new(7);
    assert_eq!(reactor.number(), 7);
    let mut resource = IoResource::new(());
    assert_eq!(reactor_to_use(resource.registration, None), None);
    assert_eq!(reactor_to_use(resource.registration, Some(7)), Some(7));
    resource.register(Some(7), &mut reactor, Interest::Readable, 1).unwrap();
    assert_eq!(resource.registration, Some(Registration { reactor: 7, key: 1 }));
    // Another reactor is current later, or none, or the own one was stopped.
    assert_eq!(reactor_to_use(resource.registration, Some(8)), Some(7));
    assert_eq!(reactor_to_use(resource.registration, None), Some(7));
    assert_eq!(reactor.take_wakers(&[1]), vec![1]);
    let again = resource.register(Some(8), &mut reactor, Interest::Writable, 2);
    assert_eq!(again, Ok(request(Operation::Reregister, 1, Interest::Writable)));
    assert_eq!(resource.registration, Some(Registration { reactor: 7, key: 1 }));
    assert_eq!(reactor.set_stopped(), vec![2]);
    assert_eq!(reactor.number(), 7);
    let refused = resource.register(None, &mut reactor, Interest::Readable, 3);
    assert_eq!(refused, Err(ReactorStopped));
    assert_eq!(reactor_to_use(resource.registration, Some(8)), Some(7));
}

#[test]
fn released_slot_is_used_again() {
    let (mut reactor, _) = ReactorState::new(7);
    let mut a = IoResource::new(());
    let mut b = IoResource::new(());
    a.register(Some(7), &mut reactor, Interest::Readable, 1).unwrap();
    b.register(Some(7), &mut reactor, Interest::Readable, 2).unwrap();
    assert_eq!(a.registration.unwrap().release(&mut reactor), Some(1));
    assert_eq!(reactor.slot(1), None);
    let mut c = IoResource::new(());
    let again = c.register(Some(7), &mut reactor, Interest::Readable, 3);
    assert_eq!(again, Ok(request(Operation::Register, 1, Interest::Readable)));
    assert_eq!(reactor.slot(2), Some(Some(2)));
}

#[test]
fn streams_and_listeners_start_unregistered() {
    let stream = TcpStream::connect(Ok::<u8, String>(9)).unwrap();
    assert_eq!(stream.resource.inner, 9);
    assert_eq!(stream.resource.registration, None);
    let refused: Result<TcpStream<u8>, String> = TcpStream::connect(Err("refused".to_string()));
    assert_eq!(refused.unwrap_err(), "refused");
    let listener = TcpListener::bind(Ok::<u8, String>(8)).unwrap();
    assert_eq!(listener.resource.inner, 8);
    assert_eq!(listener.resource.registration, None);
    let in_use: Result<TcpListener<u8>, String> = TcpListener::bind(Err("in use".to_string()));
    assert_eq!(in_use.unwrap_err(), "in use");
}

#[test]
fn read_completes_fails_or_waits() {
    let (mut reactor, _) = ReactorState::new(7);
    let mut stream = TcpStream::connect(Ok::<(), ()>(())).unwrap();
    let step = stream.read(&mut [0; 32]).poll(None, None, 1, Attempt::<usize, u32>::Complete(17));
    assert!(matches!(step, PollStep::Ready(Ok(17))));
    let step = stream.read(&mut [0; 32]).poll(None, None, 1, Attempt::<usize, u32>::Failed(104));
    assert!(matches!(step, PollStep::Ready(Err(IoError::Os(104)))));
    assert_eq!(stream.resource.registration, None);
    let blocked = Attempt::<usize, u32>::WouldBlock;
    let step = stream.read(&mut [0; 32]).poll(Some(7), Some(&mut reactor), 6, blocked);
    match step {
        PollStep::Register(r) => assert_eq!(r, request(Operation::Register, 1, Interest::Readable)),
        _ => panic!("no registration"),
    }
    assert_eq!(reactor.slot(1), Some(Some(6)));
    assert!(matches!(registered::<usize, u32>(Ok(())), PollStep::Pending));
    assert!(matches!(
        registered::<usize, u32>(Err(9)),
        PollStep::Ready(Err(IoError::Os(9)))
    ));
}

#[test]
fn write_waits_until_writable() {
    let (mut reactor, _) = ReactorState::new(7);
    let mut stream = TcpStream::connect(Ok::<(), ()>(())).unwrap();
    let step = stream.write(b"abc").poll(None, None, 1, Attempt::<usize, u32>::Complete(3));
    assert!(matches!(step, PollStep::Ready(Ok(3))));
    let blocked = Attempt::<usize, u32>::WouldBlock;
    let step = stream.write(b"abc").poll(Some(7), Some(&mut reactor), 6, blocked);
    match step {
        PollStep::Register(r) => assert_eq!(r, request(Operation::Register, 1, Interest::Writable)),
        _ => panic!("no registration"),
    }
}

#[test]
fn accept_gives_an_unregistered_stream() {
    let (mut reactor, _) = ReactorState::new(7);
    let mut listener = TcpListener::bind(Ok::<(), ()>(())).unwrap();
    let blocked = Attempt::<(u8, u16), u32>::WouldBlock;
    let step = listener.accept().poll(Some(7), Some(&mut reactor), 4, blocked);
    match step {
        PollStep::Register(r) => assert_eq!(r, request(Operation::Register, 1, Interest::Readable)),
        _ => panic!("no registration"),
    }
    assert_eq!(reactor.take_wakers(&[1]), vec![4]);
    let complete = Attempt::<(u8, u16), u32>::Complete((5, 8000));
    let step = listener.accept().poll(None, None, 4, complete);
    match step {
        PollStep::Ready(Ok((stream, addr))) => {
            assert_eq!(stream.resource.inner, 5);
            assert_eq!(stream.resource.registration, None);
            assert_eq!(addr, 8000);
        }
        _ => panic!("not accepted"),
    }
    let step = listener.accept().poll(None, None, 4, Attempt::<(u8, u16), u32>::Failed(24));
    assert!(matches!(step, PollStep::Ready(Err(IoError::Os(24)))));
}

#[test]
fn nobody_waits_for_a_stopped_reactor() {
    let (mut reactor, _) = ReactorState::new(7);
    reactor.set_stopped();
    let mut stream = TcpStream::connect(Ok::<(), ()>(())).unwrap();
    let blocked = Attempt::<usize, u32>::WouldBlock;
    let step = stream.read(&mut [0; 32]).poll(Some(7), Some(&mut reactor), 6, blocked);
    match step {
        PollStep::Ready(Err(e)) => assert_eq!(e.message(), Some("reactor already stopped")),
        _ => panic!("the future waits"),
    }
    assert_eq!(IoError::Os(1).message(), None);
}
