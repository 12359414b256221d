//! Configurable bindings of keyboard keys and mouse buttons to ability slots.
//!
//! Keys and buttons are numbered by the game loop; the keymap only compares
//! the numbers.

use std::collections::HashMap;

use vstd::prelude::*;

use vstd::std_specs::iter::IteratorSpec;

use crate::slots::SlotId;

verus! {

broadcast use {vstd::std_specs::hash::group_hash_axioms, vstd::std_specs::hash::axiom_spec_hash_map_iter};

/// Bindings of keys and of mouse buttons to slots.
#[derive(Clone)]
pub struct AbilityKeymap {
    bindings: HashMap<u32, SlotId>,
    mouse_bindings: HashMap<u32, SlotId>,
}

impl AbilityKeymap {
    /// The key bindings, by key number.
    pub closed spec fn keys(&self) -> Map<u32, SlotId> {
        self.bindings@
    }

    /// The mouse bindings, by button number.
    pub closed spec fn buttons(&self) -> Map<u32, SlotId> {
        self.mouse_bindings@
    }

    /// No bindings at all.
    pub fn new() -> (k: Self)
        ensures
            k.keys() == Map::<u32, SlotId>::empty(),
            k.buttons() == Map::<u32, SlotId>::empty(),
    {
        AbilityKeymap { bindings: HashMap::new(), mouse_bindings: HashMap::new() }
    }

    /// Binds `key` to `slot`, replacing an earlier binding of that key.
    pub fn bind_key(&mut self, key: u32, slot: SlotId) -> (r: &mut Self)
        ensures
            r.keys() == old(self).keys().insert(key, slot),
            r.buttons() == old(self).buttons(),
            *final(self) == *final(r),
    {
        self.bindings.insert(key, slot);
        self
    }

    /// Binds mouse `button` to `slot`, replacing an earlier binding of that
    /// button.
    pub fn bind_mouse(&mut self, button: u32, slot: SlotId) -> (r: &mut Self)
        ensures
            r.buttons() == old(self).buttons().insert(button, slot),
            r.keys() == old(self).keys(),
            *final(self) == *final(r),
    {
        self.mouse_bindings.insert(button, slot);
        self
    }

    /// Removes the binding of `key`, if any.
    pub fn unbind_key(&mut self, key: &u32) -> (r: &mut Self)
        ensures
            r.keys() == old(self).keys().remove(*key),
            r.buttons() == old(self).buttons(),
            *final(self) == *final(r),
    {
        self.bindings.remove(key);
        self
    }

    /// Removes the binding of mouse `button`, if any.
    pub fn unbind_mouse(&mut self, button: &u32) -> (r: &mut Self)
        ensures
            r.buttons() == old(self).buttons().remove(*button),
            r.keys() == old(self).keys(),
            *final(self) == *final(r),
    {
        self.mouse_bindings.remove(button);
        self
    }

    /// The slot bound to `key`, if any.
    pub fn get_slot_for_key(&self, key: &u32) -> (s: Option<SlotId>)
        ensures
            s == (if self.keys().contains_key(*key) {
                Some(self.keys()[*key])
            } else {
                None
            }),
    {
        match self.bindings.get(key) {
            Some(s) => Some(*s),
            None => None,
        }
    }

    /// The slot bound to mouse `button`, if any.
    pub fn get_slot_for_mouse(&self, button: &u32) -> (s: Option<SlotId>)
        ensures
            s == (if self.buttons().contains_key(*button) {
                Some(self.buttons()[*button])
            } else {
                None
            }),
    {
        match self.mouse_bindings.get(button) {
            Some(s) => Some(*s),
            None => None,
        }
    }

    /// Every key bound to `slot_id`, each once, in no particular order.
    pub fn get_keys_for_slot(&self, slot_id: SlotId) -> (keys: Vec<u32>)
        ensures
            keys@.no_duplicates(),
            forall|k: u32| #[trigger]
                keys@.contains(k) <==> (self.keys().contains_key(k) && self.keys()[k] == slot_id),
    {
        inputs_bound_to(&self.bindings, slot_id)
    }

    /// Every mouse button bound to `slot_id`, each once, in no particular
    /// order.
    pub fn get_mouse_buttons_for_slot(&self, slot_id: SlotId) -> (buttons: Vec<u32>)
        ensures
            buttons@.no_duplicates(),
            forall|b: u32| #[trigger]
                buttons@.contains(b) <==> (self.buttons().contains_key(b) && self.buttons()[b]
                    == slot_id),
    {
        inputs_bound_to(&self.mouse_bindings, slot_id)
    }
}

/// The slots bound to `inputs` under `bindings`, in the order of the
/// inputs; unbound inputs give nothing.
pub open spec fn bound_slots(bindings: Map<u32, SlotId>, inputs: Seq<u32>) -> Seq<SlotId>
    decreases inputs.len(),
{
    if inputs.len() == 0 {
        Seq::empty()
    } else {
        let rest = bound_slots(bindings, inputs.drop_last());
        let k = inputs.last();
        if bindings.contains_key(k) {
            rest.push(bindings[k])
        } else {
            rest
        }
    }
}

/// `res` holds, in the order of the inputs, the slot of every input in
/// `inputs` that has a binding, and nothing else: `idx` gives, for each
/// entry of `res`, the position of the input it came from.
pub open spec fn lists_bound_slots(bindings: Map<u32, SlotId>, inputs: Seq<u32>, res: Seq<SlotId>, idx: Seq<int>) -> bool {
    &&& idx.len() == res.len()
    &&& forall|j: int|
        0 <= j < idx.len() ==> {
            &&& 0 <= #[trigger] idx[j] < inputs.len()
            &&& bindings.contains_key(inputs[idx[j]])
            &&& res[j] == bindings[inputs[idx[j]]]
        }
    &&& forall|j: int, k: int| 0 <= j < k < idx.len() ==> idx[j] < idx[k]
    &&& forall|i: int|
        0 <= i < inputs.len() && bindings.contains_key(#[trigger] inputs[i]) ==> exists|j: int|
            0 <= j < idx.len() && idx[j] == i
}

proof fn lemma_bound_positions(bindings: Map<u32, SlotId>, inputs: Seq<u32>) -> (idx: Seq<int>)
    ensures
        lists_bound_slots(bindings, inputs, bound_slots(bindings, inputs), idx),
    decreases inputs.len(),
{
    if inputs.len() == 0 {
        Seq::empty()
    } else {
        let n = inputs.len() - 1;
        let i0 = inputs.drop_last();
        let before = lemma_bound_positions(bindings, i0);
        assert forall|i: int| 0 <= i < n implies #[trigger] i0[i] == inputs[i] by {}
        if bindings.contains_key(inputs.last()) {
            let idx = before.push(n);
            assert forall|j: int| 0 <= j < idx.len() implies {
                &&& 0 <= #[trigger] idx[j] < inputs.len()
                &&& bindings.contains_key(inputs[idx[j]])
                &&& bound_slots(bindings, inputs)[j] == bindings[inputs[idx[j]]]
            } by {
                if j < before.len() {
                    assert(idx[j] == before[j]);
                    assert(i0[before[j]] == inputs[before[j]]);
                }
            }
            assert forall|i: int|
                0 <= i < inputs.len() && bindings.contains_key(#[trigger] inputs[i]) implies exists|j: int|
                0 <= j < idx.len() && idx[j] == i by {
                if i < n {
                    assert(i0[i] == inputs[i]);
                    let j = choose|j: int| 0 <= j < before.len() && before[j] == i;
                    assert(idx[j] == i);
                } else {
                    assert(idx[before.len() as int] == i);
                }
            }
            idx
        } else {
            assert forall|j: int| 0 <= j < before.len() implies {
                &&& 0 <= #[trigger] before[j] < inputs.len()
                &&& bindings.contains_key(inputs[before[j]])
                &&& bound_slots(bindings, inputs)[j] == bindings[inputs[before[j]]]
            } by {
                assert(i0[before[j]] == inputs[before[j]]);
            }
            assert forall|i: int|
                0 <= i < inputs.len() && bindings.contains_key(#[trigger] inputs[i]) implies exists|j: int|
                0 <= j < before.len() && before[j] == i by {
                assert(i < n);
                assert(i0[i] == inputs[i]);
            }
            before
        }
    }
}

/// Every pressed input that has a binding triggers its slot, once, in the
/// order the inputs come; inputs without a binding trigger nothing.
pub proof fn law_every_bound_input_triggers(bindings: Map<u32, SlotId>, inputs: Seq<u32>)
    ensures
        exists|idx: Seq<int>| lists_bound_slots(bindings, inputs, bound_slots(bindings, inputs), idx),
        forall|i: int|
            0 <= i < inputs.len() && bindings.contains_key(#[trigger] inputs[i]) ==> bound_slots(
                bindings,
                inputs,
            ).contains(bindings[inputs[i]]),
        forall|s: SlotId|
            #[trigger] bound_slots(bindings, inputs).contains(s) ==> exists|i: int|
                0 <= i < inputs.len() && bindings.contains_key(inputs[i]) && bindings[inputs[i]] == s,
{
    let res = bound_slots(bindings, inputs);
    let idx = lemma_bound_positions(bindings, inputs);
    assert forall|i: int|
        0 <= i < inputs.len() && bindings.contains_key(#[trigger] inputs[i]) implies res.contains(
        bindings[inputs[i]],
    ) by {
        let j = choose|j: int| 0 <= j < idx.len() && idx[j] == i;
        assert(res[j] == bindings[inputs[idx[j]]]);
    }
    assert forall|s: SlotId| #[trigger] res.contains(s) implies exists|i: int|
        0 <= i < inputs.len() && bindings.contains_key(inputs[i]) && bindings[inputs[i]] == s by {
        let j = choose|j: int| 0 <= j < res.len() && res[j] == s;
        assert(0 <= idx[j] < inputs.len());
    }
}

fn bound_slots_of(map: &AbilityKeymap, inputs: &Vec<u32>, mouse: bool, out: &mut Vec<SlotId>)
    ensures
        final(out)@ == old(out)@ + bound_slots(
            if mouse {
                map.buttons()
            } else {
                map.keys()
            },
            inputs@,
        ),
{
    let ghost bindings = if mouse {
        map.buttons()
    } else {
        map.keys()
    };
    let ghost start = out@;
    let mut i: usize = 0;
    while i < inputs.len()
        invariant
            i <= inputs@.len(),
            bindings == if mouse {
                map.buttons()
            } else {
                map.keys()
            },
            out@ == start + bound_slots(bindings, inputs@.take(i as int)),
        decreases inputs.len() - i,
    {
        proof {
            assert(inputs@.take(i + 1).drop_last() =~= inputs@.take(i as int));
        }
        let found = if mouse {
            map.get_slot_for_mouse(&inputs[i])
        } else {
            map.get_slot_for_key(&inputs[i])
        };
        if let Some(slot) = found {
            out.push(slot);
        }
        proof {
            assert(out@ =~= start + bound_slots(bindings, inputs@.take(i + 1)));
        }
        i = i + 1;
    }
    proof {
        assert(inputs@.take(i as int) =~= inputs@);
    }
}

impl AbilityKeymap {
    /// The slots to cast this frame: those bound to the pressed keys, in
    /// the keys' order, then those bound to the pressed mouse buttons.
    pub fn slots_to_trigger(&self, pressed_keys: &Vec<u32>, pressed_buttons: &Vec<u32>) -> (ids:
        Vec<SlotId>)
        ensures
            ids@ == bound_slots(self.keys(), pressed_keys@) + bound_slots(
                self.buttons(),
                pressed_buttons@,
            ),
            forall|i: int|
                0 <= i < pressed_keys@.len() && self.keys().contains_key(#[trigger] pressed_keys@[i])
                    ==> ids@.contains(self.keys()[pressed_keys@[i]]),
            forall|i: int|
                0 <= i < pressed_buttons@.len() && self.buttons().contains_key(
                    #[trigger] pressed_buttons@[i],
                ) ==> ids@.contains(self.buttons()[pressed_buttons@[i]]),
    {
        proof {
            law_every_bound_input_triggers(self.keys(), pressed_keys@);
            law_every_bound_input_triggers(self.buttons(), pressed_buttons@);
        }
        let mut ids: Vec<SlotId> = Vec::new();
        bound_slots_of(self, pressed_keys, false, &mut ids);
        bound_slots_of(self, pressed_buttons, true, &mut ids);
        proof {
            let a = bound_slots(self.keys(), pressed_keys@);
            let b = bound_slots(self.buttons(), pressed_buttons@);
            assert(ids@ =~= a + b);
            assert forall|i: int|
                0 <= i < pressed_keys@.len() && self.keys().contains_key(#[trigger] pressed_keys@[i])
                    implies ids@.contains(self.keys()[pressed_keys@[i]]) by {
                let j = choose|j: int| 0 <= j < a.len() && a[j] == self.keys()[pressed_keys@[i]];
                assert(ids@[j] == a[j]);
            }
            assert forall|i: int|
                0 <= i < pressed_buttons@.len() && self.buttons().contains_key(
                    #[trigger] pressed_buttons@[i],
                ) implies ids@.contains(self.buttons()[pressed_buttons@[i]]) by {
                let j = choose|j: int| 0 <= j < b.len() && b[j] == self.buttons()[pressed_buttons@[i]];
                assert(ids@[a.len() + j] == b[j]);
            }
        }
        ids
    }
}

/// A key looked up right after being bound gives the slot it was bound to,
/// and binding one key leaves every other key's binding as it was; a key
/// looked up after being unbound has no slot.
pub proof fn law_bind_then_lookup(keys: Map<u32, SlotId>, key: u32, slot: SlotId, other: u32)
    requires
        other != key,
    ensures
        keys.insert(key, slot).contains_key(key) && keys.insert(key, slot)[key] == slot,
        keys.insert(key, slot).contains_key(other) == keys.contains_key(other),
        keys.contains_key(other) ==> keys.insert(key, slot)[other] == keys[other],
        !keys.remove(key).contains_key(key),
        keys.remove(key).contains_key(other) == keys.contains_key(other),
{
}

/// The keys reported for a slot are exactly the keys whose lookup gives
/// that slot.
pub proof fn law_keys_for_slot_agree_with_lookup(keys: Map<u32, SlotId>, found: Seq<u32>, slot: SlotId)
    requires
        forall|k: u32| #[trigger] found.contains(k) <==> (keys.contains_key(k) && keys[k] == slot),
    ensures
        forall|k: u32|
            #[trigger] found.contains(k) <==> (if keys.contains_key(k) {
                Some(keys[k])
            } else {
                None
            }) == Some(slot),
{
}

fn inputs_bound_to(bindings: &HashMap<u32, SlotId>, slot_id: SlotId) -> (found: Vec<u32>)
    ensures
        found@.no_duplicates(),
        forall|k: u32| #[trigger]
            found@.contains(k) <==> (bindings@.contains_key(k) && bindings@[k] == slot_id),
{
    let mut found: Vec<u32> = Vec::new();
    let ghost entries = vstd::std_specs::hash::spec_hash_map_iter(bindings).remaining();
    for entry in iter: bindings.iter()
        invariant
            iter.seq() == entries,
            entries.no_duplicates(),
            entries.len() == bindings@.dom().len(),
            forall|i: int|
                0 <= i < entries.len() ==> bindings@.contains_key(*entries[i].0) && bindings@[*entries[i].0]
                    == *entries[i].1,
            forall|k: u32| bindings@.contains_key(k) ==> entries.contains((&k, &bindings@[k])),
            found@.no_duplicates(),
            forall|k: u32| #[trigger]
                found@.contains(k) <==> exists|j: int|
                    0 <= j < iter.index() && *entries[j].0 == k && *entries[j].1 == slot_id,
    {
        let (k, v) = entry;
        let ghost pos = iter.index();
        assert(entry == entries[pos]);
        let ghost before = found@;
        if *v == slot_id {
            proof {
                if found@.contains(*k) {
                    let j = choose|j: int| 0 <= j < pos && *entries[j].0 == *k && *entries[j].1 == slot_id;
                    assert(entries[j] == entries[pos]);
                }
            }
            found.push(*k);
        }
        proof {
            assert forall|x: u32| #[trigger] found@.contains(x) implies exists|j: int|
                0 <= j < pos + 1 && *entries[j].0 == x && *entries[j].1 == slot_id by {
                if x != *k || *v != slot_id {
                    assert(before.contains(x));
                }
            }
            assert forall|x: u32|
                (exists|j: int| 0 <= j < pos + 1 && *entries[j].0 == x && *entries[j].1 == slot_id)
                    implies #[trigger] found@.contains(x) by {
                let j = choose|j: int| 0 <= j < pos + 1 && *entries[j].0 == x && *entries[j].1 == slot_id;
                if j < pos {
                    assert(before.contains(x));
                    let w = choose|w: int| 0 <= w < before.len() && before[w] == x;
                    assert(found@[w] == x);
                } else {
                    assert(found@[found@.len() - 1] == x);
                }
            }
        }
    }
    proof {
        assert forall|k: u32| #[trigger]
            found@.contains(k) <== (bindings@.contains_key(k) && bindings@[k] == slot_id) by {
            if bindings@.contains_key(k) && bindings@[k] == slot_id {
                let j = choose|j: int| 0 <= j < entries.len() && entries[j] == (&k, &bindings@[k]);
            }
        }
    }
    found
}

} // verus!
