//! What holds of a reactor and the resources registered with it, whatever happens to them.

use crate::net::{
    after_register, can_register, new_registration, own_or_current, poll_request, poll_step,
    slot_key, Attempt, IoError, IoResource, PollStep,
};
use crate::reactor::{
    all_known, emptied, fired, lemma_emptied, wakers_of, Interest, Operation, ReactorView,
    Registration,
};
use crate::slots::{lemma_insert_wf, lemma_remove_wf, lemma_update_wf, Slots};
use vstd::prelude::*;

verus! {

/// A reactor and the resources registered with it at one moment.
#[verifier::ext_equal]
pub struct Registry {
    pub reactor: ReactorView,
    /// The key of the slot that is reserved for the signal to stop.
    pub stop_key: usize,
    /// The keys of the resources that have a registration.
    pub owned: Set<usize>,
}

/// What can happen to a reactor.
pub enum RegistryStep {
    /// A resource without a registration is registered, with this waker.
    Register(usize),
    /// The resource with this key is registered again, with this waker.
    Reregister(usize, usize),
    /// Events with these tokens arrive.
    Events(Seq<usize>),
    /// The resource with this key is gone.
    Release(usize),
    /// The reactor is stopped.
    Stop,
}

impl Registry {
    /// A new reactor with this number.
    pub open spec fn start(number: usize) -> Registry {
        Registry {
            reactor: ReactorView {
                number,
                io: Slots::<Option<usize>>::empty().insert(None),
                stopped: false,
            },
            stop_key: 0,
            owned: Set::empty(),
        }
    }

    /// The registration of the resource with this key.
    pub open spec fn registration(self, key: usize) -> Registration {
        Registration { reactor: self.reactor.number, key }
    }

    /// Whether events with these tokens can arrive: they come for registered resources and for the
    /// signal to stop.
    pub open spec fn expects(self, tokens: Seq<usize>) -> bool {
        forall|i: int| #![trigger tokens[i]]
            0 <= i < tokens.len() ==> tokens[i] == self.stop_key || self.owned.contains(tokens[i])
    }

    /// Whether `step` can happen now.
    pub open spec fn enabled(self, step: RegistryStep) -> bool {
        match step {
            RegistryStep::Register(_) => can_register(None, self.reactor),
            RegistryStep::Reregister(key, _) => {
                &&& self.owned.contains(key)
                &&& self.reactor.stopped || self.reactor.io.live[key] is None
            },
            RegistryStep::Events(tokens) => self.expects(tokens),
            RegistryStep::Release(key) => self.owned.contains(key),
            RegistryStep::Stop => true,
        }
    }

    /// What `step` makes of this.
    pub open spec fn after(self, step: RegistryStep) -> Registry {
        match step {
            RegistryStep::Register(waker) => Registry {
                reactor: after_register(None, self.reactor, waker),
                stop_key: self.stop_key,
                owned: if self.reactor.stopped {
                    self.owned
                } else {
                    self.owned.insert(self.reactor.io.next_key())
                },
            },
            RegistryStep::Reregister(key, waker) => Registry {
                reactor: after_register(Some(self.registration(key)), self.reactor, waker),
                stop_key: self.stop_key,
                owned: self.owned,
            },
            RegistryStep::Events(tokens) => Registry {
                reactor: if self.reactor.stopped {
                    self.reactor
                } else {
                    ReactorView {
                        number: self.reactor.number,
                        io: emptied(self.reactor.io, tokens),
                        stopped: false,
                    }
                },
                stop_key: self.stop_key,
                owned: self.owned,
            },
            RegistryStep::Release(key) => Registry {
                reactor: if self.reactor.stopped {
                    self.reactor
                } else {
                    ReactorView {
                        number: self.reactor.number,
                        io: self.reactor.io.remove(key),
                        stopped: false,
                    }
                },
                stop_key: self.stop_key,
                owned: self.owned.remove(key),
            },
            RegistryStep::Stop => Registry {
                reactor: ReactorView {
                    number: self.reactor.number,
                    io: Slots::empty(),
                    stopped: true,
                },
                stop_key: self.stop_key,
                owned: self.owned,
            },
        }
    }

    /// Whether `steps` can happen one after the other.
    pub open spec fn enabled_all(self, steps: Seq<RegistryStep>) -> bool
        decreases steps.len(),
    {
        steps.len() == 0 || {
            &&& self.enabled_all(steps.drop_last())
            &&& self.after_all(steps.drop_last()).enabled(steps.last())
        }
    }

    /// What `steps` make of this, one after the other.
    pub open spec fn after_all(self, steps: Seq<RegistryStep>) -> Registry
        decreases steps.len(),
    {
        if steps.len() == 0 {
            self
        } else {
            self.after_all(steps.drop_last()).after(steps.last())
        }
    }

    /// While the reactor runs there is a slot for each registered resource, one for the signal to
    /// stop, in which nobody waits, and no other. Once it was stopped there is none.
    pub open spec fn inv(self) -> bool {
        &&& self.reactor.io.wf()
        &&& if self.reactor.stopped {
            self.reactor.io == Slots::<Option<usize>>::empty()
        } else {
            &&& self.reactor.io.live.dom() == self.owned.insert(self.stop_key)
            &&& !self.owned.contains(self.stop_key)
            &&& self.reactor.io.live[self.stop_key] is None
        }
    }
}

/// Events change nothing but the slots that they are for, and leave those empty.
pub(crate) proof fn lemma_emptied_slot(io: Slots<Option<usize>>, tokens: Seq<usize>, key: usize)
    ensures
        emptied(io, tokens).vacant == io.vacant,
        emptied(io, tokens).live[key] == if tokens.contains(key) {
            None
        } else {
            io.live[key]
        },
        emptied(io, tokens).contains(key) <==> io.contains(key) || tokens.contains(key),
    decreases tokens.len(),
{
    if tokens.len() > 0 {
        let init = tokens.drop_last();
        lemma_emptied_slot(io, init, key);
        assert(tokens =~= init.push(tokens.last()));
        assert(tokens.contains(key) <==> init.contains(key) || tokens.last() == key) by {
            if init.contains(key) {
                let i = choose|i: int| 0 <= i < init.len() && init[i] == key;
                assert(tokens[i] == key);
            }
            if tokens.contains(key) && tokens.last() != key {
                let i = choose|i: int| 0 <= i < tokens.len() && tokens[i] == key;
                assert(init[i] == key);
            }
            assert(tokens[tokens.len() - 1] == tokens.last());
        }
    }
}

/// A new reactor satisfies the invariant.
pub proof fn law_registry_start(number: usize)
    ensures
        Registry::start(number).inv(),
{
    let empty = Slots::<Option<usize>>::empty();
    assert(empty.wf());
    lemma_insert_wf(empty, None);
    assert(Registry::start(number).reactor.io.live.dom() =~= Set::<usize>::empty().insert(0));
}

/// Every step keeps the invariant, and the number of the reactor.
pub proof fn law_registry_step(r: Registry, step: RegistryStep)
    requires
        r.inv(),
        r.enabled(step),
    ensures
        r.after(step).inv(),
        r.after(step).reactor.number == r.reactor.number,
{
    let t = r.after(step);
    let io = r.reactor.io;
    match step {
        RegistryStep::Register(waker) => if !r.reactor.stopped {
            lemma_insert_wf(io, Some(waker));
            assert(io.contains(r.stop_key));
            assert(t.reactor.io.live.dom() =~= t.owned.insert(t.stop_key));
        },
        RegistryStep::Reregister(key, waker) => if !r.reactor.stopped {
            assert(io.contains(key));
            lemma_update_wf(io, key, Some(waker));
        },
        RegistryStep::Events(tokens) => if !r.reactor.stopped {
            assert(all_known(io, tokens));
            lemma_emptied(io, tokens);
            lemma_emptied_slot(io, tokens, r.stop_key);
        },
        RegistryStep::Release(key) => if !r.reactor.stopped {
            assert(io.contains(key));
            lemma_remove_wf(io, key);
            assert(t.reactor.io.live.dom() =~= t.owned.insert(t.stop_key));
        },
        RegistryStep::Stop => {
            assert(Slots::<Option<usize>>::empty().wf());
        },
    }
}

/// Whatever happens to a new reactor, the invariant holds, and it keeps its number.
pub proof fn law_registry_always(number: usize, steps: Seq<RegistryStep>)
    requires
        Registry::start(number).enabled_all(steps),
    ensures
        Registry::start(number).after_all(steps).inv(),
        Registry::start(number).after_all(steps).reactor.number == number,
    decreases steps.len(),
{
    if steps.len() == 0 {
        law_registry_start(number);
    } else {
        law_registry_always(number, steps.drop_last());
        law_registry_step(Registry::start(number).after_all(steps.drop_last()), steps.last());
    }
}

/// While the reactor runs, a registered resource has its slot: it can be released, and it can be
/// registered again unless a task waits for it already. The events that can arrive are all for
/// slots.
pub proof fn law_registered_resource_has_slot(r: Registry, key: usize, tokens: Seq<usize>)
    requires
        r.inv(),
        !r.reactor.stopped,
        r.expects(tokens),
    ensures
        r.owned.contains(key) ==> r.reactor.io.contains(key),
        r.owned.contains(key) ==> (can_register(Some(r.registration(key)), r.reactor) <==>
            r.reactor.io.live[key] is None),
        all_known(r.reactor.io, tokens),
{
}

/// The slot of a newly registered resource is that of no other resource, and not the one for the
/// signal to stop.
pub proof fn law_new_slot_is_unshared(r: Registry)
    requires
        r.inv(),
        !r.reactor.stopped,
        r.reactor.io.has_room(),
    ensures
        !r.owned.contains(slot_key(None, r.reactor)),
        slot_key(None, r.reactor) != r.stop_key,
{
    lemma_insert_wf(r.reactor.io, None);
    assert(r.reactor.io.contains(r.stop_key));
}

/// The signal to stop wakes no task by itself, and leaves the slots as they are.
pub proof fn law_stop_signal_wakes_nobody(r: Registry)
    requires
        r.inv(),
        !r.reactor.stopped,
    ensures
        fired(r.reactor.io, seq![r.stop_key]) == Seq::<usize>::empty(),
        emptied(r.reactor.io, seq![r.stop_key]) == r.reactor.io,
{
    let io = r.reactor.io;
    let tokens = seq![r.stop_key];
    assert(tokens.drop_last() =~= Seq::<usize>::empty());
    reveal_with_fuel(emptied, 2);
    reveal_with_fuel(fired, 2);
    assert(io.contains(r.stop_key));
    assert(io.live.insert(r.stop_key, None) =~= io.live);
}

/// A waker that was registered is woken by the first event for its resource, and not by the next
/// one.
pub proof fn law_waker_fires_once(
    registration: Option<Registration>,
    reactor: ReactorView,
    waker: usize,
)
    requires
        !reactor.stopped,
    ensures
        ({
            let io = after_register(registration, reactor, waker).io;
            let key = slot_key(registration, reactor);
            &&& fired(io, seq![key]) == seq![waker]
            &&& fired(io, seq![key, key]) == seq![waker]
            &&& fired(emptied(io, seq![key]), seq![key]) == Seq::<usize>::empty()
        }),
{
    let io = after_register(registration, reactor, waker).io;
    let key = slot_key(registration, reactor);
    assert(seq![key].drop_last() =~= Seq::<usize>::empty());
    assert(seq![key, key].drop_last() =~= seq![key]);
    reveal_with_fuel(emptied, 3);
    reveal_with_fuel(fired, 3);
    assert(fired(io, seq![key]) =~= seq![waker]);
}

/// Events wake nobody who waits for another resource, and leave its slot as it is. The resources
/// that they are for can be registered again.
pub proof fn law_events_are_for_their_resource(r: Registry, tokens: Seq<usize>, key: usize)
    requires
        r.inv(),
        !r.reactor.stopped,
        r.expects(tokens),
        r.owned.contains(key),
    ensures
        ({
            let t = r.after(RegistryStep::Events(tokens));
            &&& !tokens.contains(key) ==> t.reactor.io.live[key] == r.reactor.io.live[key]
            &&& tokens.contains(key) ==> can_register(Some(t.registration(key)), t.reactor)
        }),
{
    assert(r.reactor.io.contains(key));
    lemma_emptied_slot(r.reactor.io, tokens, key);
}

/// Whom events wake was waiting for one of their resources; and who was waiting for one of them is
/// woken.
pub proof fn law_events_wake_who_waits(io: Slots<Option<usize>>, tokens: Seq<usize>, waker: usize)
    ensures
        fired(io, tokens).contains(waker) <==> exists|i: int|
            0 <= i < tokens.len() && io.live[#[trigger] tokens[i]] == Some(waker),
    decreases tokens.len(),
{
    if tokens.len() > 0 {
        let init = tokens.drop_last();
        let last = tokens.last();
        law_events_wake_who_waits(io, init, waker);
        lemma_emptied_slot(io, init, last);
        let before = fired(io, init);
        let all = fired(io, tokens);
        assert(tokens[tokens.len() - 1] == last);
        if before.contains(waker) {
            let i = choose|i: int|
                0 <= i < init.len() && io.live[#[trigger] init[i]] == Some(waker);
            assert(tokens[i] == init[i]);
            let j = choose|j: int| 0 <= j < before.len() && before[j] == waker;
            assert(all[j] == waker);
        }
        if emptied(io, init).live[last] == Some(waker) {
            assert(all[before.len() as int] == waker);
        }
        if all.contains(waker) && !before.contains(waker) {
            let j = choose|j: int| 0 <= j < all.len() && all[j] == waker;
            assert(j == before.len()) by {
                if j < before.len() {
                    assert(before[j] == waker);
                }
            }
            assert(io.live[tokens[tokens.len() - 1]] == Some(waker));
        }
        if exists|i: int| 0 <= i < tokens.len() && io.live[#[trigger] tokens[i]] == Some(waker) {
            let i = choose|i: int|
                0 <= i < tokens.len() && io.live[#[trigger] tokens[i]] == Some(waker);
            if i < init.len() {
                assert(init[i] == tokens[i]);
            } else if init.contains(last) {
                let k = choose|k: int| 0 <= k < init.len() && init[k] == last;
                assert(io.live[init[k]] == Some(waker));
            }
        }
    }
}

/// The wakers among the values below `bound` are those in the slots below `bound`.
proof fn lemma_wakers_below(io: Slots<Option<usize>>, bound: nat, waker: usize)
    requires
        bound <= usize::MAX,
    ensures
        wakers_of(io.values_below(bound)).contains(waker) <==> exists|key: usize|
            key < bound && #[trigger] io.contains(key) && io.live[key] == Some(waker),
    decreases bound,
{
    if bound > 0 {
        let key = (bound - 1) as usize;
        let init = io.values_below((bound - 1) as nat);
        let all = io.values_below(bound);
        lemma_wakers_below(io, (bound - 1) as nat, waker);
        if io.contains(key) {
            assert(all.drop_last() =~= init);
            let before = wakers_of(init);
            let after = wakers_of(all);
            if let Some(w) = io.live[key] {
                assert(after == before.push(w));
                assert(after[before.len() as int] == w);
                if before.contains(waker) {
                    let i = choose|i: int| 0 <= i < before.len() && before[i] == waker;
                    assert(after[i] == waker);
                }
                if after.contains(waker) && w != waker {
                    let i = choose|i: int| 0 <= i < after.len() && after[i] == waker;
                    assert(before[i] == waker);
                }
            }
        }
    }
}

/// The keys below `bound` of the resources that somebody waits for.
spec fn awaited_below(io: Slots<Option<usize>>, bound: nat) -> Set<usize> {
    Set::new(|key: usize| key < bound && io.contains(key) && io.live[key] is Some)
}

/// There are as many wakers among the values below `bound` as resources that somebody waits for.
proof fn lemma_count_wakers_below(io: Slots<Option<usize>>, bound: nat)
    requires
        bound <= usize::MAX,
    ensures
        awaited_below(io, bound).finite(),
        wakers_of(io.values_below(bound)).len() == awaited_below(io, bound).len(),
    decreases bound,
{
    if bound == 0 {
        assert(awaited_below(io, bound) =~= Set::<usize>::empty());
    } else {
        let key = (bound - 1) as usize;
        let init = io.values_below((bound - 1) as nat);
        lemma_count_wakers_below(io, (bound - 1) as nat);
        if io.contains(key) {
            assert(io.values_below(bound).drop_last() =~= init);
        }
        if io.contains(key) && io.live[key] is Some {
            assert(awaited_below(io, bound) =~= awaited_below(io, (bound - 1) as nat).insert(key));
        } else {
            assert(awaited_below(io, bound) =~= awaited_below(io, (bound - 1) as nat));
        }
    }
}

/// Stopping the reactor wakes everyone who waits for a resource, once for each such resource, and
/// nobody else.
pub proof fn law_stop_wakes_everyone(io: Slots<Option<usize>>, waker: usize)
    requires
        io.wf(),
    ensures
        wakers_of(io.values()).contains(waker) <==> exists|key: usize| #[trigger]
            io.contains(key) && io.live[key] == Some(waker),
        wakers_of(io.values()).len() == io.live.dom().filter(
            |key: usize| io.live[key] is Some,
        ).len(),
{
    lemma_wakers_below(io, io.handed_out(), waker);
    lemma_count_wakers_below(io, io.handed_out());
    assert(awaited_below(io, io.handed_out()) =~= io.live.dom().filter(
        |key: usize| io.live[key] is Some,
    ));
}

/// A reactor that was stopped stays so: it takes no resource, wakes nobody and changes no more.
pub proof fn law_stopped_for_good(
    r: Registry,
    step: RegistryStep,
    registration: Option<Registration>,
    interest: Interest,
)
    requires
        r.inv(),
        r.reactor.stopped,
        r.enabled(step),
    ensures
        r.after(step).reactor == r.reactor,
        poll_request(registration, r.reactor, interest) is Err,
        wakers_of(r.reactor.io.values()) == Seq::<usize>::empty(),
{
}

/// No future waits for a reactor that was stopped: whatever came of its operation, it is ready,
/// and where the operation would block it fails.
pub proof fn law_nobody_waits_for_a_stopped_reactor<T, U, E>(
    resource: IoResource<T>,
    reactor: ReactorView,
    interest: Interest,
    attempt: Attempt<U, E>,
)
    requires
        reactor.stopped,
    ensures
        poll_step(resource, Some(reactor), interest, attempt) is Ready,
        attempt is WouldBlock ==> poll_step(resource, Some(reactor), interest, attempt)
            == PollStep::<U, E>::Ready(Err(IoError::ReactorStopped)),
{
}

/// A resource keeps the slot that it got when it was first registered, and is known to the
/// operating system by its key from then on.
pub proof fn law_registration_is_kept(
    registration: Registration,
    reactor: ReactorView,
    interest: Interest,
)
    requires
        !reactor.stopped,
    ensures
        registration.reactor == reactor.number ==> new_registration(Some(registration), reactor)
            == Some(registration),
        ({
            let first = poll_request(None, reactor, interest)->Ok_0;
            &&& first.operation == Operation::Register
            &&& new_registration(None, reactor) == Some(
                Registration { reactor: reactor.number, key: first.token },
            )
        }),
        ({
            let again = poll_request(Some(registration), reactor, interest)->Ok_0;
            &&& again.operation == Operation::Reregister
            &&& again.token == registration.key
        }),
{
}

/// A resource stays with the reactor that it was first registered with, which was the current one
/// of its thread: whichever reactor is current later, on whichever thread, and whether its own was
/// stopped in the meantime or not.
pub proof fn law_resource_stays_with_its_reactor(
    first: ReactorView,
    current: Option<usize>,
    again: ReactorView,
    later: Option<usize>,
    latest: Option<usize>,
)
    requires
        !first.stopped,
        own_or_current(None, current) == Some(first.number),
        own_or_current(new_registration(None, first), later) == Some(again.number),
    ensures
        current == Some(first.number),
        again.number == first.number,
        own_or_current(new_registration(new_registration(None, first), again), latest) == Some(
            first.number,
        ),
{
}

} // verus!
