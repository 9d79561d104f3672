//! What the operations of a reactor do, call by call.
//!
//! `call_ensures(f, arguments, result)` says that a call of `f` with these arguments can give this
//! result. Where an argument is a mutable reference `r`, `old(r)` is the value before the call and
//! `final(r)` the value after it.

use crate::reactor::{
    all_known, fired, wakers_of, PollRequest, ReactorAction, ReactorState, Registration,
};
use crate::registry::{lemma_emptied_slot, Registry, RegistryStep};
use crate::slots::Slots;
use vstd::prelude::*;

verus! {

/// The keys below `bound` of the slots in which a waker waits.
pub open spec fn awaited(live: Map<usize, Option<usize>>, bound: int) -> Set<usize> {
    Set::new(|key: usize| key < bound && live.dom().contains(key) && live[key] is Some)
}

/// The first `n` events, without those for slots in which no waker waits and without those for a
/// slot that an earlier event is for.
pub open spec fn waking(live: Map<usize, Option<usize>>, tokens: Seq<usize>, n: int) -> Set<int> {
    Set::new(
        |i: int|
            {
                &&& 0 <= i < n
                &&& i < tokens.len()
                &&& live[tokens[i]] is Some
                &&& forall|j: int| 0 <= j < i ==> #[trigger] tokens[j] != tokens[i]
            },
    )
}

/// The keys of the slots in which a waker waits and that one of the first `n` events is for.
pub open spec fn reached(
    live: Map<usize, Option<usize>>,
    tokens: Seq<usize>,
    n: int,
) -> Set<usize> {
    Set::new(|key: usize| live[key] is Some && tokens.take(n).contains(key))
}

/// A new reactor has its number, runs, and has one slot, in which nobody waits. The signal to stop
/// is registered for that slot, to be reported on every change to readable.
pub proof fn law_new_reactor_waits_for_the_stop_signal(
    number: usize,
    made: (ReactorState, PollRequest),
)
    requires
        call_ensures(ReactorState::new, (number,), made),
    ensures
        made.0@.number == number,
        !made.0@.stopped,
        forall|key: usize| #[trigger] made.0@.io.live.dom().contains(key) <==> key == made.1.token,
        made.0@.io.live[made.1.token] is None,
        made.0@.io.vacant.len() == 0,
        made.1.token == 0,
        made.1.operation is Register,
        made.1.interest is Readable,
        made.1.delivery is Edge,
        made.0.wf(),
{
}

/// What a reactor reports of itself is so.
pub proof fn law_reactor_reports_its_state(
    reactor: &ReactorState,
    stopped: bool,
    number: usize,
    room: bool,
    key: usize,
    slot: Option<Option<usize>>,
)
    requires
        call_ensures(ReactorState::is_stopped, (reactor,), stopped),
        call_ensures(ReactorState::number, (reactor,), number),
        call_ensures(ReactorState::has_room, (reactor,), room),
        call_ensures(ReactorState::slot, (reactor, key), slot),
    ensures
        stopped == reactor@.stopped,
        number == reactor@.number,
        room <==> reactor@.io.live.len() < usize::MAX / 128,
        slot is Some <==> reactor@.io.live.dom().contains(key),
        slot is Some ==> slot->0 == reactor@.io.live[key],
{
}

proof fn lemma_stop_order(io: Slots<Option<usize>>, bound: nat)
    requires
        bound <= usize::MAX,
    ensures
        ({
            let wake = wakers_of(io.values_below(bound));
            &&& awaited(io.live, bound as int).finite()
            &&& wake.len() == awaited(io.live, bound as int).len()
            &&& forall|key: usize| #[trigger]
                awaited(io.live, bound as int).contains(key) ==> {
                    &&& awaited(io.live, key as int).len() < wake.len()
                    &&& Some(wake[awaited(io.live, key as int).len() as int]) == io.live[key]
                }
        }),
    decreases bound,
{
    if bound == 0 {
        assert(awaited(io.live, 0) =~= Set::<usize>::empty());
    } else {
        let key = (bound - 1) as usize;
        let init = io.values_below((bound - 1) as nat);
        lemma_stop_order(io, (bound - 1) as nat);
        let before = awaited(io.live, bound - 1);
        let after = awaited(io.live, bound as int);
        if io.live.dom().contains(key) {
            assert(io.values_below(bound).drop_last() =~= init);
        }
        if io.live.dom().contains(key) && io.live[key] is Some {
            assert(after =~= before.insert(key));
        } else {
            assert(after =~= before);
        }
        assert forall|k: usize| #[trigger] after.contains(k) && k != key implies before.contains(
            k,
        ) by {}
    }
}

/// A reactor that is stopped wakes everyone who waits, once for each slot, in the order of the
/// slots: who waits in a slot is woken after as many others as wait in slots with smaller keys. It
/// has no slots then.
pub proof fn law_stop_wakes_in_the_order_of_the_slots(reactor: &mut ReactorState, wake: Vec<usize>)
    requires
        old(reactor).wf(),
        call_ensures(ReactorState::set_stopped, (reactor,), wake),
    ensures
        final(reactor)@.stopped,
        final(reactor)@.number == old(reactor)@.number,
        forall|key: usize| !#[trigger] final(reactor)@.io.live.dom().contains(key),
        final(reactor)@.io.vacant.len() == 0,
        wake@.len() == awaited(old(reactor)@.io.live, usize::MAX + 1).len(),
        forall|key: usize| #[trigger]
            old(reactor)@.io.live.dom().contains(key) && old(reactor)@.io.live[key] is Some ==> {
                let others = awaited(old(reactor)@.io.live, key as int).len();
                &&& others < wake@.len()
                &&& wake@[others as int] == old(reactor)@.io.live[key]->0
            },
{
    let io = old(reactor)@.io;
    lemma_stop_order(io, io.handed_out());
    assert(awaited(io.live, usize::MAX + 1) =~= awaited(io.live, io.handed_out() as int));
    assert forall|key: usize| #[trigger]
        io.live.dom().contains(key) && io.live[key] is Some implies {
        let others = awaited(io.live, key as int).len();
        &&& others < wake@.len()
        &&& wake@[others as int] == io.live[key]->0
    } by {
        assert(awaited(io.live, io.handed_out() as int).contains(key));
    }
}

proof fn lemma_event_order(io: Slots<Option<usize>>, tokens: Seq<usize>, n: int)
    requires
        0 <= n <= tokens.len(),
    ensures
        ({
            let wake = fired(io, tokens.take(n));
            &&& waking(io.live, tokens, n).finite()
            &&& wake.len() == waking(io.live, tokens, n).len()
            &&& reached(io.live, tokens, n).finite()
            &&& wake.len() == reached(io.live, tokens, n).len()
            &&& forall|i: int| #[trigger]
                waking(io.live, tokens, n).contains(i) ==> {
                    &&& waking(io.live, tokens, i).len() < wake.len()
                    &&& Some(wake[waking(io.live, tokens, i).len() as int]) == io.live[tokens[i]]
                }
        }),
    decreases n,
{
    if n == 0 {
        assert(waking(io.live, tokens, 0) =~= Set::<int>::empty());
        assert(reached(io.live, tokens, 0) =~= Set::<usize>::empty());
    } else {
        let last = tokens[n - 1];
        let init = tokens.take(n - 1);
        let before = waking(io.live, tokens, n - 1);
        let after = waking(io.live, tokens, n);
        let keys_before = reached(io.live, tokens, n - 1);
        let keys_after = reached(io.live, tokens, n);
        lemma_event_order(io, tokens, n - 1);
        assert(tokens.take(n).drop_last() =~= init);
        lemma_emptied_slot(io, init, last);
        assert forall|k: usize| tokens.take(n).contains(k) <==> init.contains(k) || k == last by {
            if init.contains(k) {
                let i = choose|i: int| 0 <= i < init.len() && init[i] == k;
                assert(tokens.take(n)[i] == k);
            }
            assert(tokens.take(n)[n - 1] == last);
            if tokens.take(n).contains(k) && k != last {
                let i = choose|i: int| 0 <= i < n && tokens.take(n)[i] == k;
                assert(init[i] == k);
            }
        }
        assert(init.contains(last) <==> exists|j: int|
            0 <= j < n - 1 && #[trigger] tokens[j] == last) by {
            if init.contains(last) {
                let j = choose|j: int| 0 <= j < init.len() && init[j] == last;
                assert(tokens[j] == last);
            }
            if exists|j: int| 0 <= j < n - 1 && #[trigger] tokens[j] == last {
                let j = choose|j: int| 0 <= j < n - 1 && #[trigger] tokens[j] == last;
                assert(init[j] == last);
            }
        }
        if io.live[last] is Some {
            assert(keys_after =~= keys_before.insert(last));
            if init.contains(last) {
                assert(keys_before.contains(last));
                assert(after =~= before);
            } else {
                assert(after =~= before.insert(n - 1));
            }
        } else {
            assert(keys_after =~= keys_before);
            assert(after =~= before);
        }
        assert forall|i: int| #[trigger] after.contains(i) && i != n - 1 implies before.contains(
            i,
        ) by {}
    }
}

/// A batch of events wakes whoever waits for one of their resources, each once, in the order of
/// the first events for them: there are as many wakers as awaited resources among those of the
/// events, and an event wakes its waker after as many others as were woken by the events before
/// it. An event for a resource that nobody waits for, or that came up before, wakes nobody.
pub proof fn law_each_event_wakes_its_waker_once(
    reactor: &mut ReactorState,
    tokens: &[usize],
    wake: Vec<usize>,
)
    requires
        call_ensures(ReactorState::take_wakers, (reactor, tokens), wake),
    ensures
        wake@.len() == reached(old(reactor)@.io.live, tokens@, tokens@.len() as int).len(),
        wake@.len() == waking(old(reactor)@.io.live, tokens@, tokens@.len() as int).len(),
        forall|i: int|
            0 <= i < tokens@.len() && old(reactor)@.io.live[#[trigger] tokens@[i]] is Some && (
            forall|j: int| 0 <= j < i ==> #[trigger] tokens@[j] != tokens@[i]) ==> {
                let others = waking(old(reactor)@.io.live, tokens@, i).len();
                &&& others < wake@.len()
                &&& wake@[others as int] == old(reactor)@.io.live[tokens@[i]]->0
            },
{
    let io = old(reactor)@.io;
    let n = tokens@.len() as int;
    lemma_event_order(io, tokens@, n);
    assert(tokens@.take(n) =~= tokens@);
    assert forall|i: int|
        0 <= i < tokens@.len() && io.live[#[trigger] tokens@[i]] is Some && (forall|j: int|
            0 <= j < i ==> #[trigger] tokens@[j] != tokens@[i]) implies {
        let others = waking(io.live, tokens@, i).len();
        &&& others < wake@.len()
        &&& wake@[others as int] == io.live[tokens@[i]]->0
    } by {
        assert(waking(io.live, tokens@, n).contains(i));
    }
}

/// Where each event is for another resource, and each resource is awaited, the wakers are those of
/// the resources, in the order of the events.
pub proof fn law_distinct_events_wake_in_order(
    reactor: &mut ReactorState,
    tokens: &[usize],
    wake: Vec<usize>,
)
    requires
        call_ensures(ReactorState::take_wakers, (reactor, tokens), wake),
        tokens@.no_duplicates(),
        forall|i: int|
            0 <= i < tokens@.len() ==> old(reactor)@.io.live[#[trigger] tokens@[i]] is Some,
    ensures
        wake@.len() == tokens@.len(),
        forall|i: int|
            0 <= i < tokens@.len() ==> #[trigger] wake@[i] == old(reactor)@.io.live[tokens@[i]]->0,
{
    let io = old(reactor)@.io;
    let n = tokens@.len() as int;
    lemma_event_order(io, tokens@, n);
    assert(tokens@.take(n) =~= tokens@);
    assert forall|i: int| 0 <= i <= n implies #[trigger] waking(io.live, tokens@, i).len()
        == i by {
        assert(waking(io.live, tokens@, i) =~= vstd::set_lib::set_int_range(0, i));
        vstd::set_lib::lemma_int_range(0, i);
    }
    assert forall|i: int| 0 <= i < n implies #[trigger] wake@[i] == io.live[tokens@[i]]->0 by {
        assert(waking(io.live, tokens@, n).contains(i));
        assert(waking(io.live, tokens@, i).len() == i);
    }
}

/// Nobody waits in the slots that events were for, afterwards. Nothing else changes: no slot comes
/// or goes, and who waits in another slot goes on to wait.
pub proof fn law_events_empty_their_slots(
    reactor: &mut ReactorState,
    tokens: &[usize],
    wake: Vec<usize>,
    key: usize,
)
    requires
        all_known(old(reactor)@.io, tokens@),
        call_ensures(ReactorState::take_wakers, (reactor, tokens), wake),
    ensures
        final(reactor)@.io.live.dom().contains(key) <==> old(reactor)@.io.live.dom().contains(key),
        tokens@.contains(key) ==> final(reactor)@.io.live[key] is None,
        !tokens@.contains(key) ==> final(reactor)@.io.live[key] == old(reactor)@.io.live[key],
        final(reactor)@.io.vacant == old(reactor)@.io.vacant,
        final(reactor)@.stopped == old(reactor)@.stopped,
        final(reactor)@.number == old(reactor)@.number,
{
    lemma_emptied_slot(old(reactor)@.io, tokens@, key);
    if tokens@.contains(key) {
        let i = choose|i: int| 0 <= i < tokens@.len() && tokens@[i] == key;
        assert(old(reactor)@.io.contains(tokens@[i]));
    }
}

/// After a poll that failed the reactor thread stops the reactor and exits. After any other poll
/// it exits, and does nothing else, if the reactor was stopped; and otherwise it dispatches the
/// events and goes on.
pub proof fn law_reactor_thread(
    polled: &mut ReactorState,
    tokens: &[usize],
    action: ReactorAction,
    failed: &mut ReactorState,
    last: ReactorAction,
    dispatched: &mut ReactorState,
    woken: Vec<usize>,
    halted: &mut ReactorState,
    everyone: Vec<usize>,
)
    requires
        call_ensures(ReactorState::after_poll, (polled, Some(tokens)), action),
        call_ensures(ReactorState::after_poll, (failed, None::<&[usize]>), last),
        call_ensures(ReactorState::take_wakers, (dispatched, tokens), woken),
        call_ensures(ReactorState::set_stopped, (halted,), everyone),
        old(dispatched)@ == old(polled)@,
        old(halted)@ == old(failed)@,
    ensures
        last.exit,
        last.wake@ == everyone@,
        final(failed)@ == final(halted)@,
        action.exit <==> old(polled)@.stopped,
        old(polled)@.stopped ==> action.wake@.len() == 0 && final(polled)@ == old(polled)@,
        !old(polled)@.stopped ==> action.wake@ == woken@ && final(polled)@ == final(dispatched)@,
{
}

/// The events that can be handled are those before the first one whose token belongs to no slot.
pub proof fn law_known_events_come_first(reactor: &ReactorState, tokens: &[usize], n: usize)
    requires
        call_ensures(ReactorState::known_events, (reactor, tokens), n),
    ensures
        n <= tokens@.len(),
        forall|i: int| 0 <= i < n ==> reactor@.io.live.dom().contains(#[trigger] tokens@[i]),
        n < tokens@.len() ==> !reactor@.io.live.dom().contains(tokens@[n as int]),
{
    assert forall|i: int| 0 <= i < n implies reactor@.io.live.dom().contains(
        #[trigger] tokens@[i],
    ) by {
        assert(tokens@.take(n as int)[i] == tokens@[i]);
        assert(reactor@.io.contains(tokens@.take(n as int)[i]));
    }
}

/// A resource that is gone gives up its slot, and no other; the slot is the next one to be given
/// out. Who waited in it is handed back. A reactor that was stopped does not change.
pub proof fn law_released_slot_is_gone(
    registration: Registration,
    reactor: &mut ReactorState,
    left: Option<usize>,
)
    requires
        call_ensures(Registration::release, (registration, reactor), left),
    ensures
        old(reactor)@.stopped ==> left is None && final(reactor)@ == old(reactor)@,
        !old(reactor)@.stopped ==> {
            &&& left == old(reactor)@.io.live[registration.key]
            &&& final(reactor)@.io.live == old(reactor)@.io.live.remove(registration.key)
            &&& final(reactor)@.io.vacant == seq![registration.key] + old(reactor)@.io.vacant
            &&& !final(reactor)@.stopped
            &&& final(reactor)@.number == old(reactor)@.number
        },
{
}

/// What each operation does to a reactor is what the step of the registry of its name does, so
/// that what holds of the steps holds of the operations.
pub proof fn law_reactor_operations_are_steps(
    r: Registry,
    reactor: &mut ReactorState,
    wake: Vec<usize>,
    tokens: &[usize],
    action: ReactorAction,
    registration: Registration,
    left: Option<usize>,
)
    requires
        r.reactor == old(reactor)@,
    ensures
        call_ensures(ReactorState::set_stopped, (reactor,), wake) ==> r.after(
            RegistryStep::Stop,
        ).reactor == final(reactor)@,
        call_ensures(ReactorState::after_poll, (reactor, Some(tokens)), action) ==> r.after(
            RegistryStep::Events(tokens@),
        ).reactor == final(reactor)@,
        call_ensures(ReactorState::after_poll, (reactor, None::<&[usize]>), action) ==> r.after(
            RegistryStep::Stop,
        ).reactor == final(reactor)@,
        call_ensures(Registration::release, (registration, reactor), left) ==> r.after(
            RegistryStep::Release(registration.key),
        ).reactor == final(reactor)@,
{
}

/// Every well formed reactor takes events for its slots, and any events once it was stopped; it
/// can be stopped at any time; and a resource of it can be released.
pub proof fn law_every_known_event_is_accepted(
    reactor: &mut ReactorState,
    tokens: &[usize],
    registration: Registration,
)
    requires
        old(reactor)@.io.wf(),
    ensures
        call_requires(ReactorState::set_stopped, (reactor,)),
        call_requires(ReactorState::after_poll, (reactor, None::<&[usize]>)),
        (forall|i: int|
            0 <= i < tokens@.len() ==> old(reactor)@.io.live.dom().contains(
                #[trigger] tokens@[i],
            )) ==> {
            &&& call_requires(ReactorState::take_wakers, (reactor, tokens))
            &&& call_requires(ReactorState::after_poll, (reactor, Some(tokens)))
        },
        old(reactor)@.stopped ==> call_requires(
            ReactorState::after_poll,
            (reactor, Some(tokens)),
        ),
        registration.reactor == old(reactor)@.number && (old(reactor)@.stopped
            || old(reactor)@.io.live.dom().contains(registration.key)) ==> call_requires(
            Registration::release,
            (registration, reactor),
        ),
{
}

/// Every operation keeps a reactor well formed.
pub proof fn law_operations_keep_reactor_well_formed(
    reactor: &mut ReactorState,
    tokens: &[usize],
    events: Option<&[usize]>,
    wake: Vec<usize>,
    action: ReactorAction,
    registration: Registration,
    left: Option<usize>,
)
    requires
        call_ensures(ReactorState::set_stopped, (reactor,), wake) || call_ensures(
            ReactorState::take_wakers,
            (reactor, tokens),
            wake,
        ) || call_ensures(ReactorState::after_poll, (reactor, events), action) || call_ensures(
            Registration::release,
            (registration, reactor),
            left,
        ),
    ensures
        final(reactor)@.io.wf(),
{
}

} // verus!
