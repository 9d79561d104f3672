//! What a slab does with keys and values.

use crate::slots::{lemma_insert_wf, Slots};
use vstd::prelude::*;

verus! {

/// Empty contents have no key, live or vacant, and room for a value.
pub proof fn law_empty_slots<V>()
    ensures
        forall|key: usize| !#[trigger] Slots::<V>::empty().live.dom().contains(key),
        Slots::<V>::empty().vacant.len() == 0,
        Slots::<V>::empty().next_key() == 0,
        Slots::<V>::empty().has_room(),
        Slots::<V>::empty().wf(),
{
}

/// There is a value under a key if the key is live; and where there is room, there is room with
/// fewer values too.
pub proof fn law_live_keys<V>(s: Slots<V>, t: Slots<V>, key: usize)
    ensures
        s.contains(key) <==> s.live.dom().contains(key),
        s.has_room() <==> s.live.len() < usize::MAX / 128,
        s.has_room() && t.live.len() <= s.live.len() ==> t.has_room(),
{
}

/// A new value gets a key that is not in use, and no other value changes. The key is the first of
/// the vacant ones, which is vacant no more, and where there is none the smallest one that is not
/// in use.
pub proof fn law_insert_uses_a_free_key<V>(s: Slots<V>, value: V)
    requires
        s.wf(),
        s.has_room(),
    ensures
        ({
            let key = s.next_key();
            let t = s.insert(value);
            &&& !s.live.dom().contains(key)
            &&& t.live == s.live.insert(key, value)
            &&& s.vacant.len() > 0 ==> s.vacant == seq![key] + t.vacant
            &&& s.vacant.len() == 0 ==> {
                &&& t.vacant.len() == 0
                &&& forall|k: usize| k < key ==> #[trigger] s.live.dom().contains(k)
            }
        }),
{
    let key = s.next_key();
    let t = s.insert(value);
    lemma_insert_wf(s, value);
    if s.vacant.len() > 0 {
        assert(s.vacant =~= seq![key] + t.vacant);
    } else {
        assert forall|k: usize| k < key implies #[trigger] s.live.dom().contains(k) by {
            assert(!s.vacant.contains(k));
        }
    }
}

/// A removed value is gone, and no other changes. Its key is the next one to be handed out: a
/// value that is inserted then takes the place of the removed one.
pub proof fn law_removed_key_is_used_next<V>(s: Slots<V>, key: usize, value: V)
    requires
        s.contains(key),
    ensures
        s.remove(key).live == s.live.remove(key),
        s.remove(key).vacant == seq![key] + s.vacant,
        s.remove(key).next_key() == key,
        s.remove(key).insert(value).live == s.live.insert(key, value),
        s.remove(key).insert(value).vacant == s.vacant,
{
    assert(s.remove(key).insert(value).live =~= s.live.insert(key, value));
    assert(s.remove(key).insert(value).vacant =~= s.vacant);
}

/// Replacing a value changes that value and nothing else.
pub proof fn law_update_changes_one_value<V>(s: Slots<V>, key: usize, value: V)
    requires
        s.contains(key),
    ensures
        s.update(key, value).live == s.live.insert(key, value),
        s.update(key, value).live.dom() == s.live.dom(),
        s.update(key, value).vacant == s.vacant,
{
    assert(s.update(key, value).live.dom() =~= s.live.dom());
}

/// The live keys below `bound`.
pub open spec fn keys_below<V>(s: Slots<V>, bound: int) -> Set<usize> {
    Set::new(|key: usize| key < bound && s.live.dom().contains(key))
}

proof fn lemma_value_order<V>(s: Slots<V>, bound: nat)
    requires
        bound <= usize::MAX,
    ensures
        keys_below(s, bound as int).finite(),
        s.values_below(bound).len() == keys_below(s, bound as int).len(),
        forall|key: usize| #[trigger]
            keys_below(s, bound as int).contains(key) ==> {
                &&& keys_below(s, key as int).len() < s.values_below(bound).len()
                &&& s.values_below(bound)[keys_below(s, key as int).len() as int] == s.live[key]
            },
    decreases bound,
{
    if bound == 0 {
        assert(keys_below(s, 0) =~= Set::<usize>::empty());
    } else {
        let key = (bound - 1) as usize;
        lemma_value_order(s, (bound - 1) as nat);
        let before = keys_below(s, bound - 1);
        let after = keys_below(s, bound as int);
        if s.live.dom().contains(key) {
            assert(after =~= before.insert(key));
        } else {
            assert(after =~= before);
        }
        assert forall|k: usize| #[trigger] after.contains(k) && k != key implies before.contains(
            k,
        ) by {}
    }
}

/// The values in the order of their keys are all of the values, each once: before each come as
/// many as there are smaller keys.
pub proof fn law_values_are_in_the_order_of_the_keys<V>(s: Slots<V>)
    requires
        s.wf(),
    ensures
        s.values().len() == s.live.len(),
        forall|key: usize| #[trigger]
            s.live.dom().contains(key) ==> {
                &&& keys_below(s, key as int).len() < s.values().len()
                &&& s.values()[keys_below(s, key as int).len() as int] == s.live[key]
            },
{
    lemma_value_order(s, s.handed_out());
    assert(keys_below(s, s.handed_out() as int) =~= s.live.dom());
}

/// Contents are well formed if, and only if, the first keys, without gaps, were handed out, and
/// each of them is either live or once among the vacant ones, and they fit in the storage.
pub proof fn law_well_formed_slots<V>(s: Slots<V>)
    ensures
        s.wf() <==> {
            &&& s.live.dom().finite()
            &&& s.live.len() + s.vacant.len() <= usize::MAX / 128
            &&& s.vacant.no_duplicates()
            &&& forall|key: usize|
                (#[trigger] s.live.dom().contains(key) || s.vacant.contains(key)) <==> key
                    < s.live.len() + s.vacant.len()
            &&& forall|key: usize| #[trigger]
                s.vacant.contains(key) ==> !s.live.dom().contains(key)
        },
{
}

} // verus!
