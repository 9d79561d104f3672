//! TCP streams and listeners as the runtime sees them: a socket, its registration with the
//! reactor, and the futures that read, write and accept.
//!
//! The caller tries the operation on the socket and hands in what came of it. The future then is
//! ready, or asks for a registration with the operating system.

use crate::reactor::{
    Delivery, Interest, Operation, PollRequest, ReactorState, ReactorView, Registration,
};
use vstd::prelude::*;

verus! {

/// What came of an operation on a socket.
#[derive(Debug)]
pub enum Attempt<T, E> {
    Complete(T),
    WouldBlock,
    Failed(E),
}

/// Why a future failed.
#[derive(Debug)]
pub enum IoError<E> {
    /// The reactor was stopped: nobody would wake the task.
    ReactorStopped,
    /// The operating system reported this error.
    Os(E),
}

impl<E> IoError<E> {
    /// What to say of an error that does not come from the operating system.
    pub fn message(&self) -> (message: Option<&'static str>)
        ensures
            match self {
                IoError::ReactorStopped => message is Some && message->0@
                    == "reactor already stopped"@,
                IoError::Os(_) => message is None,
            },
    {
        match self {
            IoError::ReactorStopped => Some("reactor already stopped"),
            IoError::Os(_) => None,
        }
    }
}

/// What a future does when it is polled.
#[derive(Debug)]
pub enum PollStep<T, E> {
    /// It is ready.
    Ready(Result<T, IoError<E>>),
    /// It asks for this registration with the operating system; `registered` says what follows.
    Register(PollRequest),
    /// It waits to be woken.
    Pending,
}

/// What a future does after the registration that it asked for.
pub fn registered<T, E>(outcome: Result<(), E>) -> (step: PollStep<T, E>)
    ensures
        step == (match outcome {
            Ok(_) => PollStep::<T, E>::Pending,
            Err(e) => PollStep::<T, E>::Ready(Err(IoError::Os(e))),
        }),
{
    match outcome {
        Ok(_) => PollStep::Pending,
        Err(e) => PollStep::Ready(Err(IoError::Os(e))),
    }
}

/// The reactor was stopped.
#[derive(Clone, Copy, Debug, PartialEq, Eq, Structural)]
pub struct ReactorStopped;

/// A socket and its registration with the reactor, once it has one.
#[derive(Debug)]
pub struct IoResource<T> {
    pub inner: T,
    pub registration: Option<Registration>,
}

/// Whether a resource with this registration can be registered: it has a slot and nobody waits in
/// it, or it has none and there is room for one more. A reactor that was stopped refuses anyway.
pub open spec fn can_register(
    registration: Option<Registration>,
    reactor: ReactorView,
) -> bool {
    reactor.stopped || match registration {
        Some(r) => reactor.io.contains(r.key) && reactor.io.live[r.key] is None,
        None => reactor.io.has_room(),
    }
}

/// The key of the slot of a resource that is registered now.
pub open spec fn slot_key(registration: Option<Registration>, reactor: ReactorView) -> usize {
    match registration {
        Some(r) => r.key,
        None => reactor.io.next_key(),
    }
}

/// What registering a resource makes of the reactor: the waker is in the slot of the resource.
pub open spec fn after_register(
    registration: Option<Registration>,
    reactor: ReactorView,
    waker: usize,
) -> ReactorView {
    if reactor.stopped {
        reactor
    } else {
        ReactorView {
            number: reactor.number,
            io: match registration {
                Some(r) => reactor.io.update(r.key, Some(waker)),
                None => reactor.io.insert(Some(waker)),
            },
            stopped: false,
        }
    }
}

/// What registering a resource asks of the operating system, or why it is refused.
pub open spec fn poll_request(
    registration: Option<Registration>,
    reactor: ReactorView,
    interest: Interest,
) -> Result<PollRequest, ReactorStopped> {
    if reactor.stopped {
        Err(ReactorStopped)
    } else {
        Ok(
            PollRequest {
                operation: match registration {
                    Some(_) => Operation::Reregister,
                    None => Operation::Register,
                },
                token: slot_key(registration, reactor),
                interest,
                delivery: Delivery::EdgeOneshot,
            },
        )
    }
}

/// The registration of a resource after it was registered.
pub open spec fn new_registration(
    registration: Option<Registration>,
    reactor: ReactorView,
) -> Option<Registration> {
    if reactor.stopped {
        registration
    } else {
        Some(Registration { reactor: reactor.number, key: slot_key(registration, reactor) })
    }
}

/// The number of the reactor that a resource goes to: its own, where it was registered already,
/// and else the current one of the thread.
pub open spec fn own_or_current(
    registration: Option<Registration>,
    current: Option<usize>,
) -> Option<usize> {
    match registration {
        Some(r) => Some(r.reactor),
        None => current,
    }
}

/// The number of the reactor that a resource goes to: its own, where it was registered already,
/// and else the current one of the thread. There may be none.
pub fn reactor_to_use(registration: Option<Registration>, current: Option<usize>) -> (number:
    Option<usize>)
    ensures
        number == own_or_current(registration, current),
{
    match registration {
        Some(r) => Some(r.reactor),
        None => current,
    }
}

impl<T> IoResource<T> {
    /// A socket that is not registered.
    pub fn new(inner: T) -> (resource: IoResource<T>)
        ensures
            resource == (IoResource { inner, registration: None }),
    {
        IoResource { inner, registration: None }
    }

    /// Add the waker of the current toplevel task to the reactor, and say which registration with
    /// the operating system the resource needs. With `Delivery::EdgeOneshot` no other event for
    /// the resource arrives until it is registered again. `current` is the number of the current
    /// reactor of the thread; `reactor` is the one that `reactor_to_use` gives.
    pub fn register(
        &mut self,
        current: Option<usize>,
        reactor: &mut ReactorState,
        interest: Interest,
        waker: usize,
    ) -> (request: Result<PollRequest, ReactorStopped>)
        requires
            old(reactor).wf(),
            own_or_current(old(self).registration, current) == Some(old(reactor)@.number),
            can_register(old(self).registration, old(reactor)@),
        ensures
            final(reactor).wf(),
            request == poll_request(old(self).registration, old(reactor)@, interest),
            final(reactor)@ == after_register(old(self).registration, old(reactor)@, waker),
            *final(self) == (IoResource {
                inner: old(self).inner,
                registration: new_registration(old(self).registration, old(reactor)@),
            }),
    {
        if reactor.is_stopped() {
            return Err(ReactorStopped);
        }
        match self.registration {
            Some(r) => {
                reactor.replace(r.key, waker);
                Ok(
                    PollRequest {
                        operation: Operation::Reregister,
                        token: r.key,
                        interest,
                        delivery: Delivery::EdgeOneshot,
                    },
                )
            },
            None => {
                let key: usize = reactor.insert(waker);
                self.registration = Some(Registration { reactor: reactor.number(), key });
                Ok(
                    PollRequest {
                        operation: Operation::Register,
                        token: key,
                        interest,
                        delivery: Delivery::EdgeOneshot,
                    },
                )
            },
        }
    }
}

/// Represents a TCP connection.
#[derive(Debug)]
pub struct TcpStream<S> {
    pub resource: IoResource<S>,
}

impl<S> TcpStream<S> {
    /// The stream for a socket that has started to connect, or the error that it met. It is not
    /// registered.
    pub fn connect<E>(socket: Result<S, E>) -> (stream: Result<TcpStream<S>, E>)
        ensures
            match socket {
                Ok(s) => stream == Ok::<TcpStream<S>, E>(
                    TcpStream { resource: IoResource { inner: s, registration: None } },
                ),
                Err(e) => stream == Err::<TcpStream<S>, E>(e),
            },
    {
        match socket {
            Ok(s) => Ok(TcpStream { resource: IoResource::new(s) }),
            Err(e) => Err(e),
        }
    }

    /// Asynchronously read from the stream into `buf`.
    pub fn read<'a, 'b>(&'a mut self, buf: &'b mut [u8]) -> (future: ReadFuture<'a, 'b, S>)
        ensures
            *future.stream == *old(self),
            *final(self) == *final(future.stream),
            future.buf@ == old(buf)@,
            final(buf)@ == final(future.buf)@,
    {
        ReadFuture { stream: self, buf }
    }

    /// Asynchronously write `buf` to the stream.
    pub fn write<'a, 'b>(&'a mut self, buf: &'b [u8]) -> (future: WriteFuture<'a, 'b, S>)
        ensures
            *future.stream == *old(self),
            *final(self) == *final(future.stream),
            future.buf@ == buf@,
    {
        WriteFuture { stream: self, buf }
    }
}

/// Reads from a stream into a buffer.
pub struct ReadFuture<'a, 'b, S> {
    pub stream: &'a mut TcpStream<S>,
    pub buf: &'b mut [u8],
}

/// Writes a buffer to a stream.
pub struct WriteFuture<'a, 'b, S> {
    pub stream: &'a mut TcpStream<S>,
    pub buf: &'b [u8],
}

/// Represents a TCP listening socket.
#[derive(Debug)]
pub struct TcpListener<L> {
    pub resource: IoResource<L>,
}

/// Accepts a connection.
pub struct AcceptFuture<'a, L> {
    pub listener: &'a mut TcpListener<L>,
}

/// Whether a future can be polled: where the operation would block, the reactor that the resource
/// goes to is there, and the resource can be registered with it.
pub open spec fn can_poll<T, U, E>(
    resource: IoResource<T>,
    current: Option<usize>,
    reactor: Option<ReactorView>,
    attempt: Attempt<U, E>,
) -> bool {
    attempt is WouldBlock ==> {
        &&& reactor is Some
        &&& own_or_current(resource.registration, current) == Some(reactor->0.number)
        &&& can_register(resource.registration, reactor->0)
    }
}

/// What a future does that waits for `interest` when its operation came out like this.
pub open spec fn poll_step<T, U, E>(
    resource: IoResource<T>,
    reactor: Option<ReactorView>,
    interest: Interest,
    attempt: Attempt<U, E>,
) -> PollStep<U, E> {
    match attempt {
        Attempt::Complete(value) => PollStep::Ready(Ok(value)),
        Attempt::Failed(e) => PollStep::Ready(Err(IoError::Os(e))),
        Attempt::WouldBlock => match poll_request(resource.registration, reactor->0, interest) {
            Ok(request) => PollStep::Register(request),
            Err(_) => PollStep::Ready(Err(IoError::ReactorStopped)),
        },
    }
}

/// The resource after the poll.
pub open spec fn polled_resource<T, U, E>(
    resource: IoResource<T>,
    reactor: Option<ReactorView>,
    attempt: Attempt<U, E>,
) -> IoResource<T> {
    match attempt {
        Attempt::WouldBlock => IoResource {
            inner: resource.inner,
            registration: new_registration(resource.registration, reactor->0),
        },
        _ => resource,
    }
}

/// The reactor after the poll.
pub open spec fn polled_reactor<T, U, E>(
    resource: IoResource<T>,
    reactor: ReactorView,
    waker: usize,
    attempt: Attempt<U, E>,
) -> ReactorView {
    match attempt {
        Attempt::WouldBlock => after_register(resource.registration, reactor, waker),
        _ => reactor,
    }
}

/// Its view, where there is a reactor.
pub open spec fn reactor_view(reactor: Option<&mut ReactorState>) -> Option<ReactorView> {
    match reactor {
        Some(r) => Some(r@),
        None => None,
    }
}

/// Poll a future whose operation came out like this: it is ready, unless the operation would
/// block. Then the waker is added to the reactor, and the resource is to be registered.
fn poll_resource<T, U, E>(
    resource: &mut IoResource<T>,
    current: Option<usize>,
    reactor: Option<&mut ReactorState>,
    interest: Interest,
    waker: usize,
    attempt: Attempt<U, E>,
) -> (step: PollStep<U, E>)
    requires
        reactor matches Some(r) ==> r.wf(),
        can_poll(*old(resource), current, reactor_view(reactor), attempt),
    ensures
        step == poll_step(*old(resource), reactor_view(reactor), interest, attempt),
        *final(resource) == polled_resource(*old(resource), reactor_view(reactor), attempt),
        reactor matches Some(r) ==> final(r).wf() && final(r)@ == polled_reactor(
            *old(resource),
            r@,
            waker,
            attempt,
        ),
{
    match attempt {
        Attempt::Complete(value) => PollStep::Ready(Ok(value)),
        Attempt::Failed(e) => PollStep::Ready(Err(IoError::Os(e))),
        Attempt::WouldBlock => match reactor {
            Some(r) => match resource.register(current, r, interest, waker) {
                Ok(request) => PollStep::Register(request),
                Err(_) => PollStep::Ready(Err(IoError::ReactorStopped)),
            },
            None => PollStep::Pending,
        },
    }
}

impl<'a, 'b, S> ReadFuture<'a, 'b, S> {
    /// Poll the future, after trying to read from the socket into the buffer, which gave so many
    /// bytes.
    pub fn poll<E>(
        &mut self,
        current: Option<usize>,
        reactor: Option<&mut ReactorState>,
        waker: usize,
        attempt: Attempt<usize, E>,
    ) -> (step: PollStep<usize, E>)
        requires
            reactor matches Some(r) ==> r.wf(),
            can_poll(old(self).stream.resource, current, reactor_view(reactor), attempt),
        ensures
            step == poll_step(
                old(self).stream.resource,
                reactor_view(reactor),
                Interest::Readable,
                attempt,
            ),
            final(self).stream.resource == polled_resource(
                old(self).stream.resource,
                reactor_view(reactor),
                attempt,
            ),
            *final(final(self).stream) == *final(old(self).stream),
            final(self).buf@ == old(self).buf@,
            final(final(self).buf)@ == final(old(self).buf)@,
            reactor matches Some(r) ==> final(r).wf() && final(r)@ == polled_reactor(
                old(self).stream.resource,
                r@,
                waker,
                attempt,
            ),
    {
        poll_resource(
            &mut self.stream.resource,
            current,
            reactor,
            Interest::Readable,
            waker,
            attempt,
        )
    }
}

impl<'a, 'b, S> WriteFuture<'a, 'b, S> {
    /// Poll the future, after trying to write the buffer to the socket, which took so many bytes.
    pub fn poll<E>(
        &mut self,
        current: Option<usize>,
        reactor: Option<&mut ReactorState>,
        waker: usize,
        attempt: Attempt<usize, E>,
    ) -> (step: PollStep<usize, E>)
        requires
            reactor matches Some(r) ==> r.wf(),
            can_poll(old(self).stream.resource, current, reactor_view(reactor), attempt),
        ensures
            step == poll_step(
                old(self).stream.resource,
                reactor_view(reactor),
                Interest::Writable,
                attempt,
            ),
            final(self).stream.resource == polled_resource(
                old(self).stream.resource,
                reactor_view(reactor),
                attempt,
            ),
            *final(final(self).stream) == *final(old(self).stream),
            final(self).buf@ == old(self).buf@,
            reactor matches Some(r) ==> final(r).wf() && final(r)@ == polled_reactor(
                old(self).stream.resource,
                r@,
                waker,
                attempt,
            ),
    {
        poll_resource(
            &mut self.stream.resource,
            current,
            reactor,
            Interest::Writable,
            waker,
            attempt,
        )
    }
}

/// The stream for an accepted socket. It is not registered.
pub open spec fn accepted<S, A, E>(attempt: Attempt<(S, A), E>) -> Attempt<(TcpStream<S>, A), E> {
    match attempt {
        Attempt::Complete(pair) => Attempt::Complete(
            (TcpStream { resource: IoResource { inner: pair.0, registration: None } }, pair.1),
        ),
        Attempt::WouldBlock => Attempt::WouldBlock,
        Attempt::Failed(e) => Attempt::Failed(e),
    }
}

impl<L> TcpListener<L> {
    /// The listener for a socket that was bound, or the error that it met. It is not registered.
    pub fn bind<E>(socket: Result<L, E>) -> (listener: Result<TcpListener<L>, E>)
        ensures
            match socket {
                Ok(s) => listener == Ok::<TcpListener<L>, E>(
                    TcpListener { resource: IoResource { inner: s, registration: None } },
                ),
                Err(e) => listener == Err::<TcpListener<L>, E>(e),
            },
    {
        match socket {
            Ok(s) => Ok(TcpListener { resource: IoResource::new(s) }),
            Err(e) => Err(e),
        }
    }

    /// Asynchronously accept a connection from the listening socket.
    pub fn accept<'a>(&'a mut self) -> (future: AcceptFuture<'a, L>)
        ensures
            *future.listener == *old(self),
            *final(self) == *final(future.listener),
    {
        AcceptFuture { listener: self }
    }
}

impl<'a, L> AcceptFuture<'a, L> {
    /// Poll the future, after trying to accept a connection, which gave a socket and the address
    /// of the peer.
    pub fn poll<S, A, E>(
        &mut self,
        current: Option<usize>,
        reactor: Option<&mut ReactorState>,
        waker: usize,
        attempt: Attempt<(S, A), E>,
    ) -> (step: PollStep<(TcpStream<S>, A), E>)
        requires
            reactor matches Some(r) ==> r.wf(),
            can_poll(old(self).listener.resource, current, reactor_view(reactor), attempt),
        ensures
            step == poll_step(
                old(self).listener.resource,
                reactor_view(reactor),
                Interest::Readable,
                accepted(attempt),
            ),
            final(self).listener.resource == polled_resource(
                old(self).listener.resource,
                reactor_view(reactor),
                attempt,
            ),
            *final(final(self).listener) == *final(old(self).listener),
            reactor matches Some(r) ==> final(r).wf() && final(r)@ == polled_reactor(
                old(self).listener.resource,
                r@,
                waker,
                attempt,
            ),
    {
        let attempt: Attempt<(TcpStream<S>, A), E> = match attempt {
            Attempt::Complete((socket, addr)) => Attempt::Complete(
                (TcpStream { resource: IoResource::new(socket) }, addr),
            ),
            Attempt::WouldBlock => Attempt::WouldBlock,
            Attempt::Failed(e) => Attempt::Failed(e),
        };
        poll_resource(
            &mut self.listener.resource,
            current,
            reactor,
            Interest::Readable,
            waker,
            attempt,
        )
    }
}

} // verus!
