//! The slab that holds a slot for each I/O resource: the number of the waker that waits for it, if
//! one does.

use crate::slots::{Slots, MAX_SLOTS};
use slab::Slab;
use vstd::prelude::*;

verus! {

/// The values that a slab of wakers holds, under their keys.
pub uninterp spec fn waker_live(slab: Slab<Option<usize>>) -> Map<usize, Option<usize>>;

/// The keys that a slab of wakers has taken back and not handed out again, the one that goes
/// out next first.
pub uninterp spec fn waker_vacant(slab: Slab<Option<usize>>) -> Seq<usize>;

/// The contents of a slab of wakers.
pub open spec fn waker_slots(slab: Slab<Option<usize>>) -> Slots<Option<usize>> {
    Slots { live: waker_live(slab), vacant: waker_vacant(slab) }
}

/// `Slab::new`: a slab that holds nothing and has handed out no key.
#[verifier::external_body]
pub(crate) fn new() -> (slab: Slab<Option<usize>>)
    ensures
        waker_live(slab) == Slots::<Option<usize>>::empty().live,
        waker_vacant(slab) == Slots::<Option<usize>>::empty().vacant,
{
    Slab::new()
}

/// `Slab::len`: the number of values in the slab.
#[verifier::external_body]
pub(crate) fn len(slab: &Slab<Option<usize>>) -> (n: usize)
    ensures
        n == waker_live(*slab).len(),
{
    slab.len()
}

/// `Slab::get`: the value under `key`, if there is one.
#[verifier::external_body]
pub(crate) fn get(slab: &Slab<Option<usize>>, key: usize) -> (value: Option<&Option<usize>>)
    ensures
        match value {
            Some(v) => waker_slots(*slab).contains(key) && *v == waker_live(*slab)[key],
            None => !waker_slots(*slab).contains(key),
        },
{
    slab.get(key)
}

/// `Slab::get_mut`: the value under `key`, if there is one, open to change. Nothing else in the
/// slab changes.
#[verifier::external_body]
pub(crate) fn get_mut(slab: &mut Slab<Option<usize>>, key: usize) -> (value: Option<
    &mut Option<usize>,
>)
    ensures
        match value {
            Some(v) => {
                &&& waker_slots(*old(slab)).contains(key)
                &&& *v == waker_live(*old(slab))[key]
                &&& waker_live(*final(slab)) == waker_live(*old(slab)).insert(key, *final(v))
            },
            None => {
                &&& !waker_slots(*old(slab)).contains(key)
                &&& waker_live(*final(slab)) == waker_live(*old(slab))
            },
        },
        waker_vacant(*final(slab)) == waker_vacant(*old(slab)),
{
    slab.get_mut(key)
}

/// `Slab::insert`: adds `value` and returns its key, which is the key released last, or a new one
/// where none is left. It panics where the storage cannot grow, which `MAX_SLOTS` rules out.
#[verifier::external_body]
pub(crate) fn insert(slab: &mut Slab<Option<usize>>, value: Option<usize>) -> (key: usize)
    requires
        waker_live(*old(slab)).len() < MAX_SLOTS,
    ensures
        key == waker_slots(*old(slab)).next_key(),
        waker_live(*final(slab)) == waker_slots(*old(slab)).insert(value).live,
        waker_vacant(*final(slab)) == waker_slots(*old(slab)).insert(value).vacant,
{
    slab.insert(value)
}

/// `Slab::remove`: takes out the value under `key`, which becomes the next key to be handed out.
/// It panics where there is no value under `key`.
#[verifier::external_body]
pub(crate) fn remove(slab: &mut Slab<Option<usize>>, key: usize) -> (value: Option<usize>)
    requires
        waker_slots(*old(slab)).contains(key),
    ensures
        value == waker_live(*old(slab))[key],
        waker_live(*final(slab)) == waker_slots(*old(slab)).remove(key).live,
        waker_vacant(*final(slab)) == waker_slots(*old(slab)).remove(key).vacant,
{
    slab.remove(key)
}

/// `Slab::drain`, walked to its end: takes out all values, in the order of their keys. No key
/// counts as handed out any more.
#[verifier::external_body]
pub(crate) fn drain(slab: &mut Slab<Option<usize>>) -> (values: Vec<Option<usize>>)
    ensures
        values@ == waker_slots(*old(slab)).values(),
        waker_live(*final(slab)) == Slots::<Option<usize>>::empty().live,
        waker_vacant(*final(slab)) == Slots::<Option<usize>>::empty().vacant,
{
    slab.drain().collect()
}

} // verus!
