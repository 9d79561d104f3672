//! What is current on a thread, while it is inside a scope: its executor, and its reactor.

use vstd::prelude::*;

verus! {

/// What is current on one thread, if anything is.
pub struct Current<C> {
    value: Option<C>,
}

impl<C> View for Current<C> {
    type V = Option<C>;

    closed spec fn view(&self) -> Option<C> {
        self.value
    }
}

impl<C> Current<C> {
    /// Outside of any scope.
    pub fn new() -> (current: Current<C>)
        ensures
            current@ == None::<C>,
    {
        Current { value: None }
    }

    /// A scope starts in which `value` is current, whatever was before.
    pub fn enter(&mut self, value: C)
        ensures
            final(self)@ == Some(value),
    {
        self.value = Some(value);
    }

    /// A scope ends. Nothing is current after it, even if something was before it. Returns what
    /// was current in the scope.
    pub fn leave(&mut self) -> (left: Option<C>)
        ensures
            final(self)@ == None::<C>,
            left == old(self)@,
    {
        self.value.take()
    }

    /// What is current.
    pub fn get(&self) -> (value: Option<&C>)
        ensures
            match value {
                Some(v) => self@ == Some(*v),
                None => self@ is None,
            },
    {
        self.value.as_ref()
    }
}

/// Nothing is current on a new thread. What a scope was entered with is current until it is left,
/// whatever was current before it, and it is what leaving gives back. Nothing is current then,
/// also where something was before the scope.
pub proof fn law_scope<C>(
    made: Current<C>,
    entered: &mut Current<C>,
    value: C,
    inside: &Current<C>,
    got: Option<&C>,
    leaving: &mut Current<C>,
    back: Option<C>,
    outside: &Current<C>,
    rest: Option<&C>,
)
    requires
        call_ensures(Current::<C>::new, (), made),
        call_ensures(Current::<C>::enter, (entered, value), ()),
        inside@ == final(entered)@,
        call_ensures(Current::<C>::get, (inside,), got),
        old(leaving)@ == final(entered)@,
        call_ensures(Current::<C>::leave, (leaving,), back),
        outside@ == final(leaving)@ || outside@ == made@,
        call_ensures(Current::<C>::get, (outside,), rest),
    ensures
        got is Some && *got->0 == value,
        back == Some(value),
        rest is None,
{
}

} // verus!
