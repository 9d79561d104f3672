//! The reactor: which waker waits for which I/O resource, and whom to wake on an event.
//!
//! The caller polls the operating system, and registers and wakes as it is told. Wakers are
//! numbers, under which the caller keeps them.

use crate::slots::{lemma_insert_wf, lemma_remove_wf, lemma_update_wf, Slots, MAX_SLOTS};
use crate::waker_slab;
use slab::Slab;
use vstd::prelude::*;

verus! {

/// What readiness an I/O resource waits for.
#[derive(Clone, Copy, Debug, PartialEq, Eq, Structural)]
pub enum Interest {
    Readable,
    Writable,
}

/// How the operating system is to report readiness.
#[derive(Clone, Copy, Debug, PartialEq, Eq, Structural)]
pub enum Delivery {
    /// On every change.
    Edge,
    /// On the next change; then the resource has to be registered again.
    EdgeOneshot,
}

/// Whether the operating system knows the resource already.
#[derive(Clone, Copy, Debug, PartialEq, Eq, Structural)]
pub enum Operation {
    Register,
    Reregister,
}

/// A registration that the caller makes with the operating system.
#[derive(Clone, Copy, Debug, PartialEq, Eq, Structural)]
pub struct PollRequest {
    pub operation: Operation,
    /// The token that the events carry: the key of the slot.
    pub token: usize,
    pub interest: Interest,
    pub delivery: Delivery,
}

/// What the reactor thread does after polling: it wakes these wakers in this order, and then
/// leaves its loop or polls again.
pub struct ReactorAction {
    pub wake: Vec<usize>,
    pub exit: bool,
}

/// A reactor at one moment.
#[verifier::ext_equal]
pub struct ReactorView {
    /// The number by which its owner tells it from other reactors.
    pub number: usize,
    /// For each registered resource the waker that waits for it, if one does. It is expected that
    /// only one task owns a resource, so at most one waits for it.
    pub io: Slots<Option<usize>>,
    pub stopped: bool,
}

/// The wakers in `slots`, in order.
pub open spec fn wakers_of(slots: Seq<Option<usize>>) -> Seq<usize>
    decreases slots.len(),
{
    if slots.len() == 0 {
        Seq::empty()
    } else {
        match slots.last() {
            Some(waker) => wakers_of(slots.drop_last()).push(waker),
            None => wakers_of(slots.drop_last()),
        }
    }
}

/// What events with these tokens, one after the other, make of the slots: each empties its slot.
pub open spec fn emptied(io: Slots<Option<usize>>, tokens: Seq<usize>) -> Slots<Option<usize>>
    decreases tokens.len(),
{
    if tokens.len() == 0 {
        io
    } else {
        emptied(io, tokens.drop_last()).update(tokens.last(), None)
    }
}

/// The wakers that events with these tokens, one after the other, wake: each wakes the one in its
/// slot, if there is one.
pub open spec fn fired(io: Slots<Option<usize>>, tokens: Seq<usize>) -> Seq<usize>
    decreases tokens.len(),
{
    if tokens.len() == 0 {
        Seq::empty()
    } else {
        match emptied(io, tokens.drop_last()).live[tokens.last()] {
            Some(waker) => fired(io, tokens.drop_last()).push(waker),
            None => fired(io, tokens.drop_last()),
        }
    }
}

/// Every token belongs to a slot.
pub open spec fn all_known(io: Slots<Option<usize>>, tokens: Seq<usize>) -> bool {
    forall|i: int| 0 <= i < tokens.len() ==> io.contains(#[trigger] tokens[i])
}

/// Events keep the slots well formed and take none away.
pub(crate) proof fn lemma_emptied(io: Slots<Option<usize>>, tokens: Seq<usize>)
    requires
        io.wf(),
        all_known(io, tokens),
    ensures
        emptied(io, tokens).wf(),
        emptied(io, tokens).live.dom() == io.live.dom(),
    decreases tokens.len(),
{
    if tokens.len() > 0 {
        assert(io.contains(tokens[tokens.len() - 1]));
        assert forall|i: int| 0 <= i < tokens.drop_last().len() implies io.contains(
            #[trigger] tokens.drop_last()[i],
        ) by {
            assert(io.contains(tokens[i]));
        }
        lemma_emptied(io, tokens.drop_last());
        lemma_update_wf(emptied(io, tokens.drop_last()), tokens.last(), None);
    }
}

/// The state of a reactor.
pub struct ReactorState {
    number: usize,
    io_resources: Slab<Option<usize>>,
    is_stopped: bool,
}

impl View for ReactorState {
    type V = ReactorView;

    closed spec fn view(&self) -> ReactorView {
        ReactorView {
            number: self.number,
            io: waker_slab::waker_slots(self.io_resources),
            stopped: self.is_stopped,
        }
    }
}

impl ReactorState {
    /// The slots are well formed.
    pub open spec fn wf(&self) -> bool {
        self@.io.wf()
    }

    /// A reactor with this number and with one slot, reserved for the signal to stop, and the
    /// registration that the signal needs.
    pub fn new(number: usize) -> (made: (ReactorState, PollRequest))
        ensures
            made.0.wf(),
            made.0@ == (ReactorView {
                number,
                io: Slots::<Option<usize>>::empty().insert(None),
                stopped: false,
            }),
            made.1 == (PollRequest {
                operation: Operation::Register,
                token: 0,
                interest: Interest::Readable,
                delivery: Delivery::Edge,
            }),
    {
        let mut io_resources = waker_slab::new();
        proof {
            lemma_insert_wf(Slots::<Option<usize>>::empty(), None);
        }
        let stop_key: usize = waker_slab::insert(&mut io_resources, None);
        let request = PollRequest {
            operation: Operation::Register,
            token: stop_key,
            interest: Interest::Readable,
            delivery: Delivery::Edge,
        };
        (ReactorState { number, io_resources, is_stopped: false }, request)
    }

    /// The number of the reactor.
    pub fn number(&self) -> (number: usize)
        ensures
            number == self@.number,
    {
        self.number
    }

    /// Whether the reactor was stopped.
    pub fn is_stopped(&self) -> (stopped: bool)
        ensures
            stopped == self@.stopped,
    {
        self.is_stopped
    }

    /// Whether one more resource fits.
    pub fn has_room(&self) -> (room: bool)
        ensures
            room == self@.io.has_room(),
    {
        waker_slab::len(&self.io_resources) < MAX_SLOTS
    }

    /// The slot with this key, if there is one.
    pub fn slot(&self, key: usize) -> (slot: Option<Option<usize>>)
        ensures
            slot == (if self@.io.contains(key) {
                Some(self@.io.live[key])
            } else {
                None
            }),
    {
        match waker_slab::get(&self.io_resources, key) {
            Some(slot) => Some(*slot),
            None => None,
        }
    }

    /// Set the `stopped` flag and give up all slots. The wakers returned are to be woken in this
    /// order, so that their tasks finish as soon as possible: they will find the flag and exit.
    pub fn set_stopped(&mut self) -> (wake: Vec<usize>)
        ensures
            final(self).wf(),
            final(self)@ == (ReactorView {
                number: old(self)@.number,
                io: Slots::<Option<usize>>::empty(),
                stopped: true,
            }),
            wake@ == wakers_of(old(self)@.io.values()),
    {
        self.is_stopped = true;
        let slots: Vec<Option<usize>> = waker_slab::drain(&mut self.io_resources);
        let mut wake: Vec<usize> = Vec::new();
        let mut i: usize = 0;
        while i < slots.len()
            invariant
                i <= slots.len(),
                wake@ == wakers_of(slots@.take(i as int)),
            decreases slots.len() - i,
        {
            assert(slots@.take(i as int) =~= slots@.take(i + 1).drop_last());
            if let Some(waker) = slots[i] {
                wake.push(waker);
            }
            i += 1;
        }
        assert(slots@.take(slots@.len() as int) =~= slots@);
        wake
    }

    /// How many of these events can be handled, one after the other, before one comes whose token
    /// belongs to no slot.
    pub fn known_events(&self, tokens: &[usize]) -> (n: usize)
        ensures
            n <= tokens@.len(),
            all_known(self@.io, tokens@.take(n as int)),
            n < tokens@.len() ==> !self@.io.contains(tokens@[n as int]),
    {
        let mut n: usize = 0;
        while n < tokens.len() && self.slot(tokens[n]).is_some()
            invariant
                n <= tokens@.len(),
                all_known(self@.io, tokens@.take(n as int)),
            ensures
                n <= tokens@.len(),
                all_known(self@.io, tokens@.take(n as int)),
                n < tokens@.len() ==> !self@.io.contains(tokens@[n as int]),
            decreases tokens.len() - n,
        {
            n += 1;
        }
        n
    }

    /// The operating system has reported events with these tokens: each empties its slot, and the
    /// wakers that were in them are returned, to be woken in this order.
    pub fn take_wakers(&mut self, tokens: &[usize]) -> (wake: Vec<usize>)
        requires
            old(self).wf(),
            all_known(old(self)@.io, tokens@),
        ensures
            final(self).wf(),
            final(self)@ == (ReactorView {
                number: old(self)@.number,
                io: emptied(old(self)@.io, tokens@),
                stopped: old(self)@.stopped,
            }),
            wake@ == fired(old(self)@.io, tokens@),
    {
        let ghost io = self@.io;
        let mut wake: Vec<usize> = Vec::new();
        let mut i: usize = 0;
        while i < tokens.len()
            invariant
                i <= tokens.len(),
                io == old(self)@.io,
                io.wf(),
                all_known(io, tokens@),
                self@ == (ReactorView {
                    number: old(self)@.number,
                    io: emptied(io, tokens@.take(i as int)),
                    stopped: old(self)@.stopped,
                }),
                wake@ == fired(io, tokens@.take(i as int)),
            decreases tokens.len() - i,
        {
            assert(tokens@.take(i as int) =~= tokens@.take(i + 1).drop_last());
            assert(io.contains(tokens@[i as int]));
            proof {
                lemma_emptied(io, tokens@.take(i as int));
            }
            if let Some(slot) = waker_slab::get_mut(&mut self.io_resources, tokens[i]) {
                if let Some(waker) = *slot {
                    wake.push(waker);
                }
                *slot = None;
            }
            i += 1;
        }
        assert(tokens@.take(tokens@.len() as int) =~= tokens@);
        proof {
            lemma_emptied(io, tokens@);
        }
        wake
    }

    /// What the reactor thread does after polling, which gave events with these tokens, or, where
    /// it failed, nothing.
    pub fn after_poll(&mut self, events: Option<&[usize]>) -> (action: ReactorAction)
        requires
            old(self).wf(),
            events matches Some(tokens) ==> !old(self)@.stopped ==> all_known(
                old(self)@.io,
                tokens@,
            ),
        ensures
            final(self).wf(),
            match events {
                None => {
                    &&& action.exit
                    &&& action.wake@ == wakers_of(old(self)@.io.values())
                    &&& final(self)@ == (ReactorView {
                        number: old(self)@.number,
                        io: Slots::<Option<usize>>::empty(),
                        stopped: true,
                    })
                },
                Some(tokens) => if old(self)@.stopped {
                    &&& action.exit
                    &&& action.wake@ == Seq::<usize>::empty()
                    &&& final(self)@ == old(self)@
                } else {
                    &&& !action.exit
                    &&& action.wake@ == fired(old(self)@.io, tokens@)
                    &&& final(self)@ == (ReactorView {
                        number: old(self)@.number,
                        io: emptied(old(self)@.io, tokens@),
                        stopped: false,
                    })
                },
            },
    {
        match events {
            None => ReactorAction { wake: self.set_stopped(), exit: true },
            Some(tokens) => if self.is_stopped {
                ReactorAction { wake: Vec::new(), exit: true }
            } else {
                ReactorAction { wake: self.take_wakers(tokens), exit: false }
            },
        }
    }

    /// Give a new resource a slot, with this waker in it.
    pub(crate) fn insert(&mut self, waker: usize) -> (key: usize)
        requires
            old(self).wf(),
            old(self)@.io.has_room(),
        ensures
            final(self).wf(),
            key == old(self)@.io.next_key(),
            final(self)@ == (ReactorView {
                number: old(self)@.number,
                io: old(self)@.io.insert(Some(waker)),
                stopped: old(self)@.stopped,
            }),
    {
        proof {
            lemma_insert_wf(self@.io, Some(waker));
        }
        waker_slab::insert(&mut self.io_resources, Some(waker))
    }

    /// Put this waker in the slot of a resource.
    pub(crate) fn replace(&mut self, key: usize, waker: usize)
        requires
            old(self).wf(),
            old(self)@.io.contains(key),
        ensures
            final(self).wf(),
            final(self)@ == (ReactorView {
                number: old(self)@.number,
                io: old(self)@.io.update(key, Some(waker)),
                stopped: old(self)@.stopped,
            }),
    {
        proof {
            lemma_update_wf(self@.io, key, Some(waker));
        }
        if let Some(slot) = waker_slab::get_mut(&mut self.io_resources, key) {
            *slot = Some(waker);
        }
    }
}

/// The registration of an I/O resource with a reactor.
#[derive(Clone, Copy, Debug, PartialEq, Eq, Structural)]
pub struct Registration {
    /// The number of the reactor.
    pub reactor: usize,
    /// The key of the slot that the resource has there.
    pub key: usize,
}

impl Registration {
    /// The resource is gone: its slot in its reactor is given up, unless the reactor was stopped,
    /// and has given it up already. Returns the waker that was left in the slot; nobody will wake
    /// it.
    pub fn release(self, reactor: &mut ReactorState) -> (left: Option<usize>)
        requires
            old(reactor).wf(),
            self.reactor == old(reactor)@.number,
            !old(reactor)@.stopped ==> old(reactor)@.io.contains(self.key),
        ensures
            final(reactor).wf(),
            if old(reactor)@.stopped {
                &&& left is None
                &&& final(reactor)@ == old(reactor)@
            } else {
                &&& left == old(reactor)@.io.live[self.key]
                &&& final(reactor)@ == (ReactorView {
                    number: old(reactor)@.number,
                    io: old(reactor)@.io.remove(self.key),
                    stopped: false,
                })
            },
    {
        if reactor.is_stopped {
            None
        } else {
            proof {
                lemma_remove_wf(reactor@.io, self.key);
            }
            waker_slab::remove(&mut reactor.io_resources, self.key)
        }
    }
}

} // verus!
