//! What streams, listeners and their futures do, call by call.
//!
//! `call_ensures(f, arguments, result)` says that a call of `f` with these arguments can give this
//! result. Where an argument is a mutable reference `r`, `old(r)` is the value before the call and
//! `final(r)` the value after it.

use crate::net::{
    reactor_to_use, registered, AcceptFuture, Attempt, IoError, IoResource, PollStep,
    ReactorStopped, ReadFuture, TcpListener, TcpStream, WriteFuture,
};
use crate::reactor::{Interest, PollRequest, ReactorState, Registration};
use crate::registry::{Registry, RegistryStep};
use vstd::prelude::*;

verus! {

/// An error says that the reactor was stopped if, and only if, it was; the operating system speaks
/// for its own errors.
pub proof fn law_only_own_errors_have_a_message<E>(
    error: &IoError<E>,
    message: Option<&'static str>,
)
    requires
        call_ensures(IoError::<E>::message, (error,), message),
    ensures
        message is Some <==> error is ReactorStopped,
        message is Some ==> message->0@ == "reactor already stopped"@,
{
}

/// A future whose resource was registered waits, and one whose resource could not be registered is
/// ready with the error of the operating system.
pub proof fn law_registered_future_waits<T, E>(outcome: Result<(), E>, step: PollStep<T, E>)
    requires
        call_ensures(registered::<T, E>, (outcome,), step),
    ensures
        outcome is Ok <==> step is Pending,
        forall|e: E| outcome == Err::<(), E>(e) ==> step == PollStep::<T, E>::Ready(
            Err(IoError::Os(e)),
        ),
{
}

/// A resource goes to the reactor that it is registered with, whichever is current, and one that
/// is not registered to the current one.
pub proof fn law_own_reactor_comes_first(
    registration: Option<Registration>,
    current: Option<usize>,
    number: Option<usize>,
)
    requires
        call_ensures(reactor_to_use, (registration, current), number),
    ensures
        registration is Some ==> number == Some(registration->0.reactor),
        registration is None ==> number == current,
{
}

/// A reactor that was stopped refuses every resource, and neither changes. Any other reactor takes
/// it, and asks the operating system for one event, of the interest that was asked for, with the
/// key of the slot.
pub proof fn law_registration_asks_for_the_interest<T>(
    resource: &mut IoResource<T>,
    current: Option<usize>,
    reactor: &mut ReactorState,
    interest: Interest,
    waker: usize,
    request: Result<PollRequest, ReactorStopped>,
)
    requires
        call_ensures(
            IoResource::<T>::register,
            (resource, current, reactor, interest, waker),
            request,
        ),
    ensures
        old(reactor)@.stopped <==> request is Err,
        old(reactor)@.stopped ==> {
            &&& *final(resource) == *old(resource)
            &&& final(reactor)@ == old(reactor)@
        },
        !old(reactor)@.stopped ==> {
            &&& request->Ok_0.interest == interest
            &&& request->Ok_0.delivery is EdgeOneshot
            &&& request->Ok_0.operation is Reregister <==> old(resource).registration is Some
            &&& final(resource).registration == Some(
                Registration { reactor: old(reactor)@.number, key: request->Ok_0.token },
            )
            &&& final(resource).inner == old(resource).inner
        },
{
}

/// After a registration the waker waits in the slot of the resource: the one that it has, or a new
/// one that no other resource has. No other slot changes.
pub proof fn law_registered_waker_waits_in_its_slot<T>(
    resource: &mut IoResource<T>,
    current: Option<usize>,
    reactor: &mut ReactorState,
    interest: Interest,
    waker: usize,
    request: Result<PollRequest, ReactorStopped>,
)
    requires
        old(reactor).wf(),
        !old(reactor)@.stopped,
        old(resource).registration is None ==> old(reactor)@.io.live.len() < usize::MAX / 128,
        call_ensures(
            IoResource::<T>::register,
            (resource, current, reactor, interest, waker),
            request,
        ),
    ensures
        ({
            let key = request->Ok_0.token;
            let before = old(reactor)@.io;
            let after = final(reactor)@.io;
            &&& after.live == before.live.insert(key, Some(waker))
            &&& old(resource).registration is Some ==> {
                &&& key == old(resource).registration->0.key
                &&& after.vacant == before.vacant
            }
            &&& old(resource).registration is None ==> {
                &&& !before.live.dom().contains(key)
                &&& before.vacant.len() == 0 ==> {
                    &&& key == before.live.len()
                    &&& after.vacant.len() == 0
                }
                &&& before.vacant.len() > 0 ==> before.vacant == seq![key] + after.vacant
            }
        }),
        !final(reactor)@.stopped,
        final(reactor)@.number == old(reactor)@.number,
        final(reactor).wf(),
{
    let before = old(reactor)@.io;
    let after = final(reactor)@.io;
    if old(resource).registration is None {
        if before.vacant.len() > 0 {
            assert(before.vacant.contains(before.vacant[0]));
            assert(before.vacant =~= seq![request->Ok_0.token] + after.vacant);
        } else {
            assert(!before.vacant.contains(request->Ok_0.token));
        }
    }
}

/// The next event for a resource that was registered wakes the waker that it was registered with,
/// and a second one wakes nobody.
pub proof fn law_registered_waker_is_woken<T>(
    resource: &mut IoResource<T>,
    current: Option<usize>,
    reactor: &mut ReactorState,
    interest: Interest,
    waker: usize,
    request: Result<PollRequest, ReactorStopped>,
    polled: &mut ReactorState,
    tokens: &[usize],
    wake: Vec<usize>,
)
    requires
        !old(reactor)@.stopped,
        call_ensures(
            IoResource::<T>::register,
            (resource, current, reactor, interest, waker),
            request,
        ),
        old(polled)@ == final(reactor)@,
        tokens@ == seq![request->Ok_0.token] || tokens@ == seq![
            request->Ok_0.token,
            request->Ok_0.token,
        ],
        call_ensures(ReactorState::take_wakers, (polled, tokens), wake),
    ensures
        wake@ == seq![waker],
        final(polled)@.io.live[request->Ok_0.token] is None,
{
    let key = request->Ok_0.token;
    assert(seq![key].drop_last() =~= Seq::<usize>::empty());
    assert(seq![key, key].drop_last() =~= seq![key]);
    reveal_with_fuel(crate::reactor::emptied, 3);
    reveal_with_fuel(crate::reactor::fired, 3);
    assert(wake@ =~= seq![waker]);
}

/// A new resource, stream or listener holds its socket and is not registered, and an error of the
/// socket is handed on.
pub proof fn law_sockets_start_unregistered<S, E>(
    socket: S,
    resource: IoResource<S>,
    connected: Result<S, E>,
    stream: Result<TcpStream<S>, E>,
    bound: Result<S, E>,
    listener: Result<TcpListener<S>, E>,
)
    requires
        call_ensures(IoResource::<S>::new, (socket,), resource),
        call_ensures(TcpStream::<S>::connect::<E>, (connected,), stream),
        call_ensures(TcpListener::<S>::bind::<E>, (bound,), listener),
    ensures
        resource.inner == socket && resource.registration is None,
        connected is Ok <==> stream is Ok,
        connected is Ok ==> {
            &&& stream->Ok_0.resource.inner == connected->Ok_0
            &&& stream->Ok_0.resource.registration is None
        },
        connected is Err ==> stream->Err_0 == connected->Err_0,
        bound is Ok <==> listener is Ok,
        bound is Ok ==> {
            &&& listener->Ok_0.resource.inner == bound->Ok_0
            &&& listener->Ok_0.resource.registration is None
        },
        bound is Err ==> listener->Err_0 == bound->Err_0,
{
}

/// A future works on the stream or listener, and on the buffer, that it was made of.
pub proof fn law_futures_borrow_their_stream<S, L>(
    reader: &mut TcpStream<S>,
    into: &mut [u8],
    read: ReadFuture<S>,
    writer: &mut TcpStream<S>,
    from: &[u8],
    write: WriteFuture<S>,
    listener: &mut TcpListener<L>,
    accept: AcceptFuture<L>,
)
    requires
        call_ensures(TcpStream::<S>::read, (reader, into), read),
        call_ensures(TcpStream::<S>::write, (writer, from), write),
        call_ensures(TcpListener::<L>::accept, (listener,), accept),
    ensures
        *old(read.stream) == *old(reader),
        *final(read.stream) == *final(reader),
        old(read.buf)@ == old(into)@,
        final(read.buf)@ == final(into)@,
        *old(write.stream) == *old(writer),
        *final(write.stream) == *final(writer),
        write.buf@ == from@,
        *old(accept.listener) == *old(listener),
        *final(accept.listener) == *final(listener),
{
}

/// A read that gave so many bytes makes its future ready with that number, and one that failed
/// with that error, whatever the registration and the reactor are; and neither changes. Only a
/// read that would block does anything else, and it never gives a number.
pub proof fn law_read_is_ready_unless_it_would_block<S, E>(
    future: &mut ReadFuture<S>,
    current: Option<usize>,
    reactor: Option<&mut ReactorState>,
    waker: usize,
    attempt: Attempt<usize, E>,
    step: PollStep<usize, E>,
)
    requires
        call_ensures(
            ReadFuture::<S>::poll::<E>,
            (future, current, reactor, waker, attempt),
            step,
        ),
    ensures
        forall|n: usize|
            attempt == Attempt::<usize, E>::Complete(n) <==> step == PollStep::<usize, E>::Ready(
                Ok(n),
            ),
        forall|e: E|
            attempt == Attempt::<usize, E>::Failed(e) <==> step == PollStep::<usize, E>::Ready(
                Err(IoError::Os(e)),
            ),
        step is Register ==> attempt is WouldBlock,
        !(step is Pending),
        !(attempt is WouldBlock) ==> {
            &&& final(future).stream.resource == old(future).stream.resource
            &&& reactor matches Some(r) ==> final(r)@ == r@
        },
        final(future).stream.resource.inner == old(future).stream.resource.inner,
        final(future).buf@ == old(future).buf@,
{
}

/// A read that would block registers its stream with the reactor, for readable.
pub proof fn law_blocked_read_waits_for_readable<S, E>(
    future: &mut ReadFuture<S>,
    current: Option<usize>,
    reactor: &mut ReactorState,
    waker: usize,
    step: PollStep<usize, E>,
    resource: &mut IoResource<S>,
    same: &mut ReactorState,
    request: Result<PollRequest, ReactorStopped>,
)
    requires
        call_ensures(
            ReadFuture::<S>::poll::<E>,
            (future, current, Some(reactor), waker, Attempt::WouldBlock),
            step,
        ),
        *old(resource) == old(future).stream.resource,
        old(same)@ == old(reactor)@,
        call_ensures(
            IoResource::<S>::register,
            (resource, current, same, Interest::Readable, waker),
            request,
        ),
    ensures
        request is Ok ==> step == PollStep::<usize, E>::Register(request->Ok_0),
        request is Ok ==> step->Register_0.interest is Readable,
        request is Err ==> step == PollStep::<usize, E>::Ready(Err(IoError::ReactorStopped)),
        final(future).stream.resource == *final(resource),
        final(reactor)@ == final(same)@,
{
}

/// A write that took so many bytes makes its future ready with that number, and one that failed
/// with that error, whatever the registration and the reactor are; and neither changes. Only a
/// write that would block does anything else, and it never gives a number.
pub proof fn law_write_is_ready_unless_it_would_block<S, E>(
    future: &mut WriteFuture<S>,
    current: Option<usize>,
    reactor: Option<&mut ReactorState>,
    waker: usize,
    attempt: Attempt<usize, E>,
    step: PollStep<usize, E>,
)
    requires
        call_ensures(
            WriteFuture::<S>::poll::<E>,
            (future, current, reactor, waker, attempt),
            step,
        ),
    ensures
        forall|n: usize|
            attempt == Attempt::<usize, E>::Complete(n) <==> step == PollStep::<usize, E>::Ready(
                Ok(n),
            ),
        forall|e: E|
            attempt == Attempt::<usize, E>::Failed(e) <==> step == PollStep::<usize, E>::Ready(
                Err(IoError::Os(e)),
            ),
        step is Register ==> attempt is WouldBlock,
        !(step is Pending),
        !(attempt is WouldBlock) ==> {
            &&& final(future).stream.resource == old(future).stream.resource
            &&& reactor matches Some(r) ==> final(r)@ == r@
        },
        final(future).stream.resource.inner == old(future).stream.resource.inner,
        final(future).buf@ == old(future).buf@,
{
}

/// A write that would block registers its stream with the reactor, for writable.
pub proof fn law_blocked_write_waits_for_writable<S, E>(
    future: &mut WriteFuture<S>,
    current: Option<usize>,
    reactor: &mut ReactorState,
    waker: usize,
    step: PollStep<usize, E>,
    resource: &mut IoResource<S>,
    same: &mut ReactorState,
    request: Result<PollRequest, ReactorStopped>,
)
    requires
        call_ensures(
            WriteFuture::<S>::poll::<E>,
            (future, current, Some(reactor), waker, Attempt::WouldBlock),
            step,
        ),
        *old(resource) == old(future).stream.resource,
        old(same)@ == old(reactor)@,
        call_ensures(
            IoResource::<S>::register,
            (resource, current, same, Interest::Writable, waker),
            request,
        ),
    ensures
        request is Ok ==> step == PollStep::<usize, E>::Register(request->Ok_0),
        request is Ok ==> step->Register_0.interest is Writable,
        request is Err ==> step == PollStep::<usize, E>::Ready(Err(IoError::ReactorStopped)),
        final(future).stream.resource == *final(resource),
        final(reactor)@ == final(same)@,
{
}

/// A connection that was accepted makes the future ready with a stream that holds its socket and
/// is not registered, and with the address of the peer; an accept that failed makes it ready with
/// that error. Neither changes the listener or the reactor. Only an accept that would block does
/// anything else.
pub proof fn law_accept_is_ready_unless_it_would_block<L, S, A, E>(
    future: &mut AcceptFuture<L>,
    current: Option<usize>,
    reactor: Option<&mut ReactorState>,
    waker: usize,
    attempt: Attempt<(S, A), E>,
    step: PollStep<(TcpStream<S>, A), E>,
)
    requires
        call_ensures(
            AcceptFuture::<L>::poll::<S, A, E>,
            (future, current, reactor, waker, attempt),
            step,
        ),
    ensures
        attempt is Complete <==> step is Ready && step->Ready_0 is Ok,
        attempt is Complete ==> {
            let stream = step->Ready_0->Ok_0.0;
            &&& stream.resource.inner == attempt->Complete_0.0
            &&& stream.resource.registration is None
            &&& step->Ready_0->Ok_0.1 == attempt->Complete_0.1
        },
        forall|e: E|
            attempt == Attempt::<(S, A), E>::Failed(e) <==> step == PollStep::<
                (TcpStream<S>, A),
                E,
            >::Ready(Err(IoError::Os(e))),
        step is Register ==> attempt is WouldBlock,
        !(step is Pending),
        !(attempt is WouldBlock) ==> {
            &&& final(future).listener.resource == old(future).listener.resource
            &&& reactor matches Some(r) ==> final(r)@ == r@
        },
        final(future).listener.resource.inner == old(future).listener.resource.inner,
{
}

/// An accept that would block registers its listener with the reactor, for readable.
pub proof fn law_blocked_accept_waits_for_readable<L, S, A, E>(
    future: &mut AcceptFuture<L>,
    current: Option<usize>,
    reactor: &mut ReactorState,
    waker: usize,
    step: PollStep<(TcpStream<S>, A), E>,
    resource: &mut IoResource<L>,
    same: &mut ReactorState,
    request: Result<PollRequest, ReactorStopped>,
)
    requires
        call_ensures(
            AcceptFuture::<L>::poll::<S, A, E>,
            (future, current, Some(reactor), waker, Attempt::WouldBlock),
            step,
        ),
        *old(resource) == old(future).listener.resource,
        old(same)@ == old(reactor)@,
        call_ensures(
            IoResource::<L>::register,
            (resource, current, same, Interest::Readable, waker),
            request,
        ),
    ensures
        request is Ok ==> step == PollStep::<(TcpStream<S>, A), E>::Register(request->Ok_0),
        request is Ok ==> step->Register_0.interest is Readable,
        request is Err ==> step == PollStep::<(TcpStream<S>, A), E>::Ready(
            Err(IoError::ReactorStopped),
        ),
        final(future).listener.resource == *final(resource),
        final(reactor)@ == final(same)@,
{
}

/// Polling a future gives back the stream or listener that it borrows, and its buffer, with what
/// the poll has made of them.
pub proof fn law_polled_future_keeps_its_borrow<S, L, A, E>(
    read: &mut ReadFuture<S>,
    write: &mut WriteFuture<S>,
    accept: &mut AcceptFuture<L>,
    current: Option<usize>,
    readers: Option<&mut ReactorState>,
    writers: Option<&mut ReactorState>,
    listeners: Option<&mut ReactorState>,
    waker: usize,
    count: Attempt<usize, E>,
    pair: Attempt<(S, A), E>,
    read_step: PollStep<usize, E>,
    write_step: PollStep<usize, E>,
    accept_step: PollStep<(TcpStream<S>, A), E>,
)
    requires
        call_ensures(
            ReadFuture::<S>::poll::<E>,
            (read, current, readers, waker, count),
            read_step,
        ),
        call_ensures(
            WriteFuture::<S>::poll::<E>,
            (write, current, writers, waker, count),
            write_step,
        ),
        call_ensures(
            AcceptFuture::<L>::poll::<S, A, E>,
            (accept, current, listeners, waker, pair),
            accept_step,
        ),
    ensures
        *final(final(read).stream) == *final(old(read).stream),
        final(final(read).buf)@ == final(old(read).buf)@,
        *final(final(write).stream) == *final(old(write).stream),
        *final(final(accept).listener) == *final(old(accept).listener),
{
}

/// To register a resource is the step of the registry of that name.
pub proof fn law_registering_is_a_step<T>(
    r: Registry,
    resource: &mut IoResource<T>,
    current: Option<usize>,
    reactor: &mut ReactorState,
    interest: Interest,
    waker: usize,
    request: Result<PollRequest, ReactorStopped>,
)
    requires
        r.reactor == old(reactor)@,
        call_ensures(
            IoResource::<T>::register,
            (resource, current, reactor, interest, waker),
            request,
        ),
    ensures
        old(resource).registration is None ==> {
            let t = r.after(RegistryStep::Register(waker));
            &&& t.reactor == final(reactor)@
            &&& request is Ok ==> t.owned == r.owned.insert(request->Ok_0.token)
        },
        old(resource).registration is Some ==> {
            let t = r.after(RegistryStep::Reregister(old(resource).registration->0.key, waker));
            &&& t.reactor == final(reactor)@
            &&& t.owned == r.owned
        },
{
}

/// The resource goes to this reactor, and the reactor was stopped, or nobody waits in the slot of
/// the resource, or it has none and there is room for one.
pub open spec fn can_be_registered<T>(
    resource: IoResource<T>,
    current: Option<usize>,
    reactor: ReactorState,
) -> bool {
    match resource.registration {
        Some(r) => r.reactor == reactor@.number && (reactor@.stopped
            || reactor@.io.live.dom().contains(r.key) && reactor@.io.live[r.key] is None),
        None => current == Some(reactor@.number) && (reactor@.stopped || reactor@.io.live.len()
            < usize::MAX / 128),
    }
}

/// A resource that nobody waits for can be registered with the reactor that it goes to, whatever
/// it is to wait for.
pub proof fn law_every_idle_resource_is_accepted<T>(
    resource: &mut IoResource<T>,
    current: Option<usize>,
    reactor: &mut ReactorState,
    interest: Interest,
    waker: usize,
)
    requires
        old(reactor)@.io.wf(),
        can_be_registered(*old(resource), current, *old(reactor)),
    ensures
        call_requires(
            IoResource::<T>::register,
            (resource, current, reactor, interest, waker),
        ),
{
}

/// A future can be polled with every outcome of its operation: with or without a reactor where it
/// would not block, and where it would, whenever its resource can be registered.
pub proof fn law_every_attempt_is_accepted<S, L, A, E>(
    read: &mut ReadFuture<S>,
    write: &mut WriteFuture<S>,
    accept: &mut AcceptFuture<L>,
    current: Option<usize>,
    reactor: &mut ReactorState,
    waker: usize,
    count: Attempt<usize, E>,
    pair: Attempt<(S, A), E>,
    stream: &mut IoResource<S>,
    listener: &mut IoResource<L>,
)
    requires
        old(reactor)@.io.wf(),
        *old(stream) == old(read).stream.resource,
        *old(stream) == old(write).stream.resource,
        *old(listener) == old(accept).listener.resource,
    ensures
        !(count is WouldBlock) ==> {
            &&& call_requires(
                ReadFuture::<S>::poll::<E>,
                (read, current, None::<&mut ReactorState>, waker, count),
            )
            &&& call_requires(
                WriteFuture::<S>::poll::<E>,
                (write, current, None::<&mut ReactorState>, waker, count),
            )
        },
        !(pair is WouldBlock) ==> call_requires(
            AcceptFuture::<L>::poll::<S, A, E>,
            (accept, current, None::<&mut ReactorState>, waker, pair),
        ),
        can_be_registered(*old(stream), current, *old(reactor)) ==> {
            &&& call_requires(
                ReadFuture::<S>::poll::<E>,
                (read, current, Some(reactor), waker, count),
            )
            &&& call_requires(
                WriteFuture::<S>::poll::<E>,
                (write, current, Some(reactor), waker, count),
            )
        },
        can_be_registered(*old(listener), current, *old(reactor)) ==> call_requires(
            AcceptFuture::<L>::poll::<S, A, E>,
            (accept, current, Some(reactor), waker, pair),
        ),
{
}

} // verus!
