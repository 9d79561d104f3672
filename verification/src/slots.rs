//! What a slab holds, as a mathematical value: the values under their keys, and the released
//! keys in the order in which they will be handed out again.

use vstd::prelude::*;

verus! {

/// `slab::Slab`, opaque here. What it holds is named in `task_slab` and `waker_slab`, one name
/// for each type of value that this crate keeps in one.
#[verifier::external_type_specification]
#[verifier::external_body]
#[verifier::reject_recursive_types(T)]
pub struct ExSlab<T>(slab::Slab<T>);

/// A slab with fewer live values than this can take one more. The storage of a slab doubles when
/// it is full, and may not exceed `isize::MAX` bytes; one slot of the slabs of this crate takes
/// at most four words, of 64 bits. Where words are shorter, more would fit.
pub const MAX_SLOTS: usize = usize::MAX / 128;

/// The contents of a slab.
#[verifier::ext_equal]
pub struct Slots<V> {
    /// The values under their keys.
    pub live: Map<usize, V>,
    /// The keys that were released and not handed out again; the first one goes out next.
    pub vacant: Seq<usize>,
}

impl<V> Slots<V> {
    /// No values, and no key handed out so far.
    pub open spec fn empty() -> Slots<V> {
        Slots { live: Map::empty(), vacant: Seq::empty() }
    }

    /// Whether there is a value under `key`.
    pub open spec fn contains(self, key: usize) -> bool {
        self.live.dom().contains(key)
    }

    /// Whether one more value fits.
    pub open spec fn has_room(self) -> bool {
        self.live.len() < MAX_SLOTS
    }

    /// The key that the next value gets: the one released last, or else the smallest one that was
    /// never handed out.
    pub open spec fn next_key(self) -> usize {
        if self.vacant.len() == 0 {
            self.live.len() as usize
        } else {
            self.vacant[0]
        }
    }

    /// How many keys were handed out so far.
    pub open spec fn handed_out(self) -> nat {
        self.live.len() + self.vacant.len()
    }

    /// The values under the keys below `bound`, in the order of the keys.
    pub open spec fn values_below(self, bound: nat) -> Seq<V>
        decreases bound,
    {
        if bound == 0 {
            Seq::empty()
        } else {
            let key = (bound - 1) as usize;
            if self.live.dom().contains(key) {
                self.values_below((bound - 1) as nat).push(self.live[key])
            } else {
                self.values_below((bound - 1) as nat)
            }
        }
    }

    /// All values, in the order of their keys.
    pub open spec fn values(self) -> Seq<V> {
        self.values_below(self.handed_out())
    }

    /// The contents with `value` added under `next_key()`.
    pub open spec fn insert(self, value: V) -> Slots<V> {
        Slots {
            live: self.live.insert(self.next_key(), value),
            vacant: if self.vacant.len() == 0 {
                self.vacant
            } else {
                self.vacant.skip(1)
            },
        }
    }

    /// The contents with the value under `key` replaced.
    pub open spec fn update(self, key: usize, value: V) -> Slots<V> {
        Slots { live: self.live.insert(key, value), vacant: self.vacant }
    }

    /// The contents without `key`, which is released.
    pub open spec fn remove(self, key: usize) -> Slots<V> {
        Slots { live: self.live.remove(key), vacant: seq![key] + self.vacant }
    }

    /// The keys handed out so far are the first ones, without gaps, and each of them is either
    /// live or vacant.
    pub open spec fn wf(self) -> bool {
        &&& self.live.dom().finite()
        &&& self.handed_out() <= MAX_SLOTS
        &&& self.vacant.no_duplicates()
        &&& forall|k: usize|
            (#[trigger] self.live.dom().contains(k) || self.vacant.contains(k))
                <==> k < self.handed_out()
        &&& forall|k: usize| #[trigger]
            self.vacant.contains(k) ==> !self.live.dom().contains(k)
    }
}

/// The key handed out for a new value is not in use, and the contents stay well formed.
pub proof fn lemma_insert_wf<V>(s: Slots<V>, value: V)
    requires
        s.wf(),
        s.has_room(),
    ensures
        !s.contains(s.next_key()),
        s.insert(value).wf(),
        s.insert(value).live.len() == s.live.len() + 1,
{
    let t = s.insert(value);
    if s.vacant.len() == 0 {
        assert(!s.vacant.contains(s.next_key()));
        assert forall|k: usize|
            (#[trigger] t.live.dom().contains(k) || t.vacant.contains(k))
                <==> k < t.handed_out() by {
            assert(!s.vacant.contains(k));
            assert(s.live.dom().contains(k) <==> k < s.live.len());
        }
    } else {
        assert(s.vacant.contains(s.vacant[0]));
        assert forall|k: usize| t.vacant.contains(k) <==> s.vacant.contains(k) && k
            != s.vacant[0] by {
            if t.vacant.contains(k) {
                let i = choose|i: int| 0 <= i < t.vacant.len() && t.vacant[i] == k;
                assert(s.vacant[i + 1] == k);
            }
            if s.vacant.contains(k) && k != s.vacant[0] {
                let i = choose|i: int| 0 <= i < s.vacant.len() && s.vacant[i] == k;
                assert(t.vacant[i - 1] == k);
            }
        }
        assert forall|k: usize|
            (#[trigger] t.live.dom().contains(k) || t.vacant.contains(k))
                <==> k < t.handed_out() by {
            assert((s.live.dom().contains(k) || s.vacant.contains(k)) <==> k < s.handed_out());
        }
    }
}

/// Replacing a value keeps the contents well formed.
pub proof fn lemma_update_wf<V>(s: Slots<V>, key: usize, value: V)
    requires
        s.wf(),
        s.contains(key),
    ensures
        s.update(key, value).wf(),
        s.update(key, value).live.dom() == s.live.dom(),
{
    assert(s.update(key, value).live.dom() =~= s.live.dom());
}

/// Removing a value keeps the contents well formed.
pub proof fn lemma_remove_wf<V>(s: Slots<V>, key: usize)
    requires
        s.wf(),
        s.contains(key),
    ensures
        s.remove(key).wf(),
        s.remove(key).live.len() == s.live.len() - 1,
{
    let t = s.remove(key);
    assert(t.vacant[0] == key);
    assert forall|k: usize| t.vacant.contains(k) <==> s.vacant.contains(k) || k == key by {
        if s.vacant.contains(k) {
            let i = choose|i: int| 0 <= i < s.vacant.len() && s.vacant[i] == k;
            assert(t.vacant[i + 1] == k);
        }
        if t.vacant.contains(k) && k != key {
            let i = choose|i: int| 0 <= i < t.vacant.len() && t.vacant[i] == k;
            assert(s.vacant[i - 1] == k);
        }
    }
    assert forall|k: usize|
        (#[trigger] t.live.dom().contains(k) || t.vacant.contains(k))
            <==> k < t.handed_out() by {
        assert((s.live.dom().contains(k) || s.vacant.contains(k)) <==> k < s.handed_out());
    }
    assert(!s.vacant.contains(key));
}

} // verus!
