//! The slab that holds the states of the tasks.

use crate::executor::TaskState;
use crate::slots::{Slots, MAX_SLOTS};
use slab::Slab;
use vstd::prelude::*;

verus! {

/// The values that a slab of task states holds, under their keys.
pub uninterp spec fn task_live(slab: Slab<TaskState>) -> Map<usize, TaskState>;

/// The keys that a slab of task states has taken back and not handed out again, the one that goes
/// out next first.
pub uninterp spec fn task_vacant(slab: Slab<TaskState>) -> Seq<usize>;

/// The contents of a slab of task states.
pub open spec fn task_slots(slab: Slab<TaskState>) -> Slots<TaskState> {
    Slots { live: task_live(slab), vacant: task_vacant(slab) }
}

/// `Slab::new`: a slab that holds nothing and has handed out no key.
#[verifier::external_body]
pub(crate) fn new() -> (slab: Slab<TaskState>)
    ensures
        task_live(slab) == Slots::<TaskState>::empty().live,
        task_vacant(slab) == Slots::<TaskState>::empty().vacant,
{
    Slab::new()
}

/// `Slab::len`: the number of values in the slab.
#[verifier::external_body]
pub(crate) fn len(slab: &Slab<TaskState>) -> (n: usize)
    ensures
        n == task_live(*slab).len(),
{
    slab.len()
}

/// `Slab::is_empty`: whether the slab holds no value.
#[verifier::external_body]
pub(crate) fn is_empty(slab: &Slab<TaskState>) -> (empty: bool)
    ensures
        empty == (task_live(*slab) == Map::<usize, TaskState>::empty()),
{
    slab.is_empty()
}

/// `Slab::get`: the value under `key`, if there is one.
#[verifier::external_body]
pub(crate) fn get(slab: &Slab<TaskState>, key: usize) -> (value: Option<&TaskState>)
    ensures
        match value {
            Some(v) => task_slots(*slab).contains(key) && *v == task_live(*slab)[key],
            None => !task_slots(*slab).contains(key),
        },
{
    slab.get(key)
}

/// `Slab::get_mut`: the value under `key`, if there is one, open to change. Nothing else in the
/// slab changes.
#[verifier::external_body]
pub(crate) fn get_mut(slab: &mut Slab<TaskState>, key: usize) -> (value: Option<&mut TaskState>)
    ensures
        match value {
            Some(v) => {
                &&& task_slots(*old(slab)).contains(key)
                &&& *v == task_live(*old(slab))[key]
                &&& task_live(*final(slab)) == task_live(*old(slab)).insert(key, *final(v))
            },
            None => {
                &&& !task_slots(*old(slab)).contains(key)
                &&& task_live(*final(slab)) == task_live(*old(slab))
            },
        },
        task_vacant(*final(slab)) == task_vacant(*old(slab)),
{
    slab.get_mut(key)
}

/// `Slab::insert`: adds `value` and returns its key, which is the key released last, or a new one
/// where none is left. It panics where the storage cannot grow, which `MAX_SLOTS` rules out.
#[verifier::external_body]
pub(crate) fn insert(slab: &mut Slab<TaskState>, value: TaskState) -> (key: usize)
    requires
        task_live(*old(slab)).len() < MAX_SLOTS,
    ensures
        key == task_slots(*old(slab)).next_key(),
        task_live(*final(slab)) == task_slots(*old(slab)).insert(value).live,
        task_vacant(*final(slab)) == task_slots(*old(slab)).insert(value).vacant,
{
    slab.insert(value)
}

/// `Slab::remove`: takes out the value under `key`, which becomes the next key to be handed out.
/// It panics where there is no value under `key`.
#[verifier::external_body]
pub(crate) fn remove(slab: &mut Slab<TaskState>, key: usize) -> (value: TaskState)
    requires
        task_slots(*old(slab)).contains(key),
    ensures
        value == task_live(*old(slab))[key],
        task_live(*final(slab)) == task_slots(*old(slab)).remove(key).live,
        task_vacant(*final(slab)) == task_slots(*old(slab)).remove(key).vacant,
{
    slab.remove(key)
}

} // verus!
