//! Ability slots of a caster and the bindings of input buttons to slots.

use std::collections::HashMap;

use vstd::prelude::*;

use crate::ability::{CastDynamicAbility, DynamicAbility, IntendedTarget};
use crate::entity::Entity;
use crate::timer::{fresh_timer, spent_timer, ticked, Timer, TimerMode, TimerView};

verus! {

broadcast use vstd::std_specs::hash::group_hash_axioms;

/// Index of an ability slot.
#[derive(Copy, Clone, Debug, Hash, PartialEq, Eq, Structural)]
pub struct SlotId(pub usize);

/// A fixed row of ability slots, each empty or holding one ability.
#[derive(Debug)]
pub struct AbilitySlots<A> {
    slots: Vec<Option<A>>,
}

impl<A> View for AbilitySlots<A> {
    type V = Seq<Option<A>>;

    closed spec fn view(&self) -> Seq<Option<A>> {
        self.slots@
    }
}

/// The indices `i` below `slots.len()` whose slot is empty (`want_empty`) or
/// occupied (otherwise), in ascending order.
pub open spec fn slot_ids_where<A>(slots: Seq<Option<A>>, want_empty: bool, upto: int) -> Seq<SlotId>
    decreases upto,
{
    if upto <= 0 {
        Seq::empty()
    } else {
        let before = slot_ids_where(slots, want_empty, upto - 1);
        if (slots[upto - 1] is None) == want_empty {
            before.push(SlotId((upto - 1) as usize))
        } else {
            before
        }
    }
}

impl<A> AbilitySlots<A> {
    /// `slot_count` empty slots.
    pub fn new(slot_count: usize) -> (s: Self)
        ensures
            s@.len() == slot_count,
            forall|i: int| 0 <= i < slot_count ==> s@[i] is None,
    {
        let mut slots: Vec<Option<A>> = Vec::new();
        let mut i: usize = 0;
        while i < slot_count
            invariant
                i <= slot_count,
                slots@.len() == i,
                forall|j: int| 0 <= j < i ==> slots@[j] is None,
            decreases slot_count - i,
        {
            slots.push(None);
            i = i + 1;
        }
        AbilitySlots { slots }
    }

    /// One occupied slot per ability, in the given order.
    pub fn with_abilities(abilities: Vec<A>) -> (s: Self)
        ensures
            s@.len() == abilities@.len(),
            forall|i: int| 0 <= i < abilities@.len() ==> s@[i] == Some(abilities@[i]),
    {
        let mut abilities = abilities;
        let ghost all = abilities@;
        let mut reversed: Vec<Option<A>> = Vec::new();
        while abilities.len() > 0
            invariant
                abilities@.len() + reversed@.len() == all.len(),
                abilities@ == all.subrange(0, abilities@.len() as int),
                forall|j: int|
                    0 <= j < reversed@.len() ==> reversed@[j] == Some(all[all.len() - 1 - j]),
            decreases abilities.len(),
        {
            let a = abilities.pop().unwrap();
            reversed.push(Some(a));
        }
        let mut slots: Vec<Option<A>> = Vec::new();
        while reversed.len() > 0
            invariant
                reversed@.len() + slots@.len() == all.len(),
                forall|j: int|
                    0 <= j < reversed@.len() ==> reversed@[j] == Some(all[all.len() - 1 - j]),
                forall|j: int| 0 <= j < slots@.len() ==> slots@[j] == Some(all[j]),
            decreases reversed.len(),
        {
            let a = reversed.pop().unwrap();
            slots.push(a);
        }
        AbilitySlots { slots }
    }

    /// Puts `ability` into the slot, replacing what was there. A slot
    /// beyond the last one is refused and nothing changes.
    pub fn set_ability(&mut self, slot_id: SlotId, ability: A) -> (r: Result<(), String>)
        ensures
            slot_id.0 < old(self)@.len() ==> r is Ok && final(self)@ == old(self)@.update(
                slot_id.0 as int,
                Some(ability),
            ),
            slot_id.0 >= old(self)@.len() ==> r is Err && final(self)@ == old(self)@,
    {
        if slot_id.0 >= self.slots.len() {
            return Err(out_of_range_message(slot_id.0));
        }
        self.slots.set(slot_id.0, Some(ability));
        Ok(())
    }

    /// The ability in the slot, if the slot exists and is occupied.
    pub fn get_ability(&self, slot_id: SlotId) -> (a: Option<&A>)
        ensures
            a == (if slot_id.0 < self@.len() {
                match self@[slot_id.0 as int] {
                    Some(x) => Some(&x),
                    None => None,
                }
            } else {
                None
            }),
    {
        if slot_id.0 < self.slots.len() {
            match &self.slots[slot_id.0] {
                Some(x) => Some(x),
                None => None,
            }
        } else {
            None
        }
    }

    /// The ability in the slot, for changing it in place, if the slot exists
    /// and is occupied.
    pub fn get_ability_mut(&mut self, slot_id: SlotId) -> (a: Option<&mut A>)
        ensures
            slot_id.0 < old(self)@.len() && old(self)@[slot_id.0 as int] is Some ==> (a matches Some(
                r,
            ) && *r == old(self)@[slot_id.0 as int]->0 && final(self)@ == old(self)@.update(
                slot_id.0 as int,
                Some(*final(r)),
            )),
            !(slot_id.0 < old(self)@.len() && old(self)@[slot_id.0 as int] is Some) ==> (a is None
                && final(self)@ == old(self)@),
    {
        if slot_id.0 < self.slots.len() {
            match &mut self.slots[slot_id.0] {
                Some(x) => Some(x),
                None => None,
            }
        } else {
            None
        }
    }

    /// Empties the slot; a slot beyond the last one is ignored.
    pub fn clear_slot(&mut self, slot_id: SlotId)
        ensures
            final(self)@ == if slot_id.0 < old(self)@.len() {
                old(self)@.update(slot_id.0 as int, None)
            } else {
                old(self)@
            },
    {
        if slot_id.0 < self.slots.len() {
            self.slots.set(slot_id.0, None);
        }
    }

    pub fn slot_count(&self) -> (n: usize)
        ensures
            n == self@.len(),
    {
        self.slots.len()
    }

    /// The empty slots, in ascending order.
    pub fn available_slots(&self) -> (ids: Vec<SlotId>)
        ensures
            ids@ == slot_ids_where(self@, true, self@.len() as int),
    {
        self.slots_where(true)
    }

    /// The occupied slots, in ascending order.
    pub fn occupied_slots(&self) -> (ids: Vec<SlotId>)
        ensures
            ids@ == slot_ids_where(self@, false, self@.len() as int),
    {
        self.slots_where(false)
    }

    fn slots_where(&self, want_empty: bool) -> (ids: Vec<SlotId>)
        ensures
            ids@ == slot_ids_where(self@, want_empty, self@.len() as int),
    {
        let mut ids: Vec<SlotId> = Vec::new();
        let mut i: usize = 0;
        while i < self.slots.len()
            invariant
                i <= self@.len(),
                self@ == self.slots@,
                ids@ == slot_ids_where(self@, want_empty, i as int),
            decreases self.slots.len() - i,
        {
            if self.slots[i].is_none() == want_empty {
                ids.push(SlotId(i));
            }
            i = i + 1;
        }
        ids
    }
}

proof fn lemma_slot_ids_where<A>(slots: Seq<Option<A>>, want_empty: bool, upto: int)
    requires
        0 <= upto <= slots.len() <= usize::MAX,
    ensures
        forall|i: int|
            0 <= i < slots.len() ==> (#[trigger] slot_ids_where(slots, want_empty, upto).contains(
                SlotId(i as usize),
            ) <==> (i < upto && (slots[i] is None) == want_empty)),
        forall|j: int|
            0 <= j < slot_ids_where(slots, want_empty, upto).len() ==> #[trigger] slot_ids_where(
                slots,
                want_empty,
                upto,
            )[j].0 < upto,
        forall|j: int, k: int|
            0 <= j < k < slot_ids_where(slots, want_empty, upto).len() ==> slot_ids_where(
                slots,
                want_empty,
                upto,
            )[j].0 < slot_ids_where(slots, want_empty, upto)[k].0,
        slot_ids_where(slots, want_empty, upto).len() + slot_ids_where(slots, !want_empty, upto).len()
            == upto,
    decreases upto,
{
    if upto > 0 {
        lemma_slot_ids_where(slots, want_empty, upto - 1);
        lemma_slot_ids_where(slots, !want_empty, upto - 1);
        let before = slot_ids_where(slots, want_empty, upto - 1);
        let now = slot_ids_where(slots, want_empty, upto);
        assert(now == if (slots[upto - 1] is None) == want_empty {
            before.push(SlotId((upto - 1) as usize))
        } else {
            before
        });
        assert forall|i: int| 0 <= i < slots.len() implies (#[trigger] now.contains(SlotId(i as usize))
            <==> (i < upto && (slots[i] is None) == want_empty)) by {
            broadcast use vstd::seq_lib::group_seq_properties;
            assert(before.contains(SlotId(i as usize)) <==> (i < upto - 1 && (slots[i] is None) == want_empty));
            if (slots[upto - 1] is None) == want_empty {
                assert(now.contains(SlotId(i as usize)) <==> (before.contains(SlotId(i as usize)) || SlotId(i as usize) == SlotId((upto - 1) as usize)));
            }
        }
    }
}

/// Every slot is either available or occupied, never both: the available
/// slots are exactly the empty ones and the occupied slots exactly the
/// others, each list in strictly ascending order, and together they count
/// every slot once.
pub proof fn law_available_and_occupied_partition<A>(slots: Seq<Option<A>>)
    requires
        slots.len() <= usize::MAX,
    ensures
        forall|i: int|
            0 <= i < slots.len() ==> (#[trigger] slot_ids_where(slots, true, slots.len() as int).contains(
                SlotId(i as usize),
            ) <==> slots[i] is None),
        forall|i: int|
            0 <= i < slots.len() ==> (#[trigger] slot_ids_where(slots, false, slots.len() as int).contains(
                SlotId(i as usize),
            ) <==> slots[i] is Some),
        forall|j: int, k: int|
            0 <= j < k < slot_ids_where(slots, true, slots.len() as int).len() ==> slot_ids_where(
                slots,
                true,
                slots.len() as int,
            )[j].0 < slot_ids_where(slots, true, slots.len() as int)[k].0,
        forall|j: int, k: int|
            0 <= j < k < slot_ids_where(slots, false, slots.len() as int).len() ==> slot_ids_where(
                slots,
                false,
                slots.len() as int,
            )[j].0 < slot_ids_where(slots, false, slots.len() as int)[k].0,
        slot_ids_where(slots, true, slots.len() as int).len() + slot_ids_where(
            slots,
            false,
            slots.len() as int,
        ).len() == slots.len(),
{
    lemma_slot_ids_where(slots, true, slots.len() as int);
    lemma_slot_ids_where(slots, false, slots.len() as int);
}

/// Setting a slot and then reading it gives the ability just set, and no
/// other slot changes; clearing a slot and then reading it gives nothing.
pub proof fn law_set_then_get<A>(slots: Seq<Option<A>>, slot: int, ability: A)
    requires
        0 <= slot < slots.len(),
    ensures
        slots.update(slot, Some(ability))[slot] == Some(ability),
        slots.update(slot, None::<A>)[slot] is None,
        forall|i: int|
            0 <= i < slots.len() && i != slot ==> slots.update(slot, Some(ability))[i] == slots[i]
                && slots.update(slot, None::<A>)[i] == slots[i],
{
}


/// How an ability picks what it aims at when cast from a slot.
///
/// Distances and ranges are compared by keys that order as the distances
/// do (such as the bit patterns of non-negative floats).
#[derive(Copy, Clone, Debug, PartialEq, Eq, Structural)]
pub enum AbilityTargeting {
    /// At the cursor.
    Cursor,
    /// At the enemy nearest to the cursor within `max_range`, else at the
    /// cursor.
    NearestEnemyToCursor { max_range: u32 },
    /// At nothing: the ability goes off where its caster is.
    SelfCast,
}

/// An ability in a slot, with how it targets and its cooldown.
#[derive(Clone, Debug)]
pub struct SlottedAbility<C> {
    pub ability: DynamicAbility<C>,
    pub targeting: AbilityTargeting,
    /// Cooldown after each cast, in nanoseconds.
    pub base_cooldown: u64,
    pub cooldown_timer: Timer,
}

impl<C> SlottedAbility<C> {
    /// A slotted ability that starts ready: its cooldown timer has already
    /// run out.
    pub fn new(ability: DynamicAbility<C>, targeting: AbilityTargeting, cooldown: u64) -> (s: Self)
        ensures
            s.ability == ability,
            s.targeting == targeting,
            s.base_cooldown == cooldown,
            s.cooldown_timer@ == spent_timer(0, TimerMode::Once),
            s.cooldown_timer@.finished,
    {
        SlottedAbility {
            ability,
            targeting,
            base_cooldown: cooldown,
            cooldown_timer: Timer::spent(0, TimerMode::Once),
        }
    }

    /// Whether the cooldown has run out.
    pub fn is_ready(&self) -> (b: bool)
        ensures
            b == self.cooldown_timer@.finished,
    {
        self.cooldown_timer.finished()
    }

    /// Starts a full cooldown.
    pub fn trigger_cooldown(&mut self)
        ensures
            final(self).cooldown_timer@ == fresh_timer(old(self).base_cooldown, TimerMode::Once),
            final(self).ability == old(self).ability,
            final(self).targeting == old(self).targeting,
            final(self).base_cooldown == old(self).base_cooldown,
    {
        self.cooldown_timer = Timer::from_duration(self.base_cooldown, TimerMode::Once);
    }

    /// Lets `delta` nanoseconds of cooldown pass.
    pub fn update_cooldown(&mut self, delta: u64)
        ensures
            final(self).cooldown_timer@ == ticked(old(self).cooldown_timer@, delta),
            final(self).ability == old(self).ability,
            final(self).targeting == old(self).targeting,
            final(self).base_cooldown == old(self).base_cooldown,
    {
        self.cooldown_timer.tick(delta);
    }

    /// Nanoseconds until the ability is ready; zero when it is.
    pub fn remaining_cooldown(&self) -> (r: u64)
        ensures
            r == if self.cooldown_timer@.finished {
                0
            } else {
                self.cooldown_timer@.duration - self.cooldown_timer@.elapsed
            },
    {
        if self.is_ready() {
            0
        } else {
            self.cooldown_timer.remaining()
        }
    }
}

/// `b` is `a` with its cooldown timer now at `t`.
pub open spec fn with_timer<C>(a: SlottedAbility<C>, b: SlottedAbility<C>, t: TimerView) -> bool {
    &&& b.ability == a.ability
    &&& b.targeting == a.targeting
    &&& b.base_cooldown == a.base_cooldown
    &&& b.cooldown_timer@ == t
}

/// An object that a targeted ability may aim at, with its distance key
/// from the cursor.
#[derive(Copy, Clone, Debug, PartialEq, Eq, Structural)]
pub struct TargetCandidate {
    pub entity: Entity,
    pub distance: u32,
}

/// The first candidate of least distance among those within `max_range`.
pub open spec fn nearest_within(cands: Seq<TargetCandidate>, max_range: u32) -> Option<
    TargetCandidate,
>
    decreases cands.len(),
{
    if cands.len() == 0 {
        None
    } else {
        let best = nearest_within(cands.drop_last(), max_range);
        let last = cands.last();
        if last.distance > max_range {
            best
        } else {
            match best {
                None => Some(last),
                Some(b) => if last.distance < b.distance {
                    Some(last)
                } else {
                    best
                },
            }
        }
    }
}

/// The candidate nearest to the cursor within `max_range`; of several at
/// the same least distance, the first.
pub fn nearest_candidate(cands: &Vec<TargetCandidate>, max_range: u32) -> (n: Option<
    TargetCandidate,
>)
    ensures
        n == nearest_within(cands@, max_range),
        n matches Some(b) ==> cands@.contains(b) && b.distance <= max_range && forall|i: int|
            0 <= i < cands@.len() && cands@[i].distance <= max_range ==> b.distance
                <= #[trigger] cands@[i].distance,
        n is None ==> forall|i: int| 0 <= i < cands@.len() ==> #[trigger] cands@[i].distance > max_range,
{
    proof {
        law_nearest_is_least_within_range(cands@, max_range);
    }
    let mut best: Option<TargetCandidate> = None;
    let mut i: usize = 0;
    while i < cands.len()
        invariant
            i <= cands@.len(),
            best == nearest_within(cands@.take(i as int), max_range),
        decreases cands.len() - i,
    {
        proof {
            assert(cands@.take(i + 1).drop_last() =~= cands@.take(i as int));
        }
        let c = cands[i];
        if c.distance <= max_range {
            match best {
                None => {
                    best = Some(c);
                },
                Some(b) => {
                    if c.distance < b.distance {
                        best = Some(c);
                    }
                },
            }
        }
        i = i + 1;
    }
    proof {
        assert(cands@.take(i as int) =~= cands@);
    }
    best
}

/// The nearest candidate is within range and no candidate within range is
/// nearer; none is found only when no candidate is within range.
pub proof fn law_nearest_is_least_within_range(cands: Seq<TargetCandidate>, max_range: u32)
    ensures
        nearest_within(cands, max_range) matches Some(b) ==> {
            &&& cands.contains(b)
            &&& b.distance <= max_range
            &&& forall|i: int|
                0 <= i < cands.len() && cands[i].distance <= max_range ==> b.distance
                    <= #[trigger] cands[i].distance
        },
        nearest_within(cands, max_range) is None ==> forall|i: int|
            0 <= i < cands.len() ==> #[trigger] cands[i].distance > max_range,
    decreases cands.len(),
{
    if cands.len() > 0 {
        let rest = cands.drop_last();
        law_nearest_is_least_within_range(rest, max_range);
        assert forall|i: int| 0 <= i < rest.len() implies #[trigger] rest[i] == cands[i] by {}
        if let Some(b) = nearest_within(rest, max_range) {
            assert(rest.contains(b));
            let k = choose|k: int| 0 <= k < rest.len() && rest[k] == b;
            assert(cands[k] == b);
        }
        if let Some(b) = nearest_within(cands, max_range) {
            assert forall|i: int|
                0 <= i < cands.len() && cands[i].distance <= max_range implies b.distance
                    <= #[trigger] cands[i].distance by {
                if i < cands.len() - 1 {
                    assert(rest[i] == cands[i]);
                }
            }
            if b == cands.last() {
                assert(cands[cands.len() - 1] == b);
            }
        } else {
            assert forall|i: int| 0 <= i < cands.len() implies #[trigger] cands[i].distance
                > max_range by {
                if i < cands.len() - 1 {
                    assert(rest[i] == cands[i]);
                }
            }
        }
    }
}

/// What an ability with `targeting` aims at, given the cursor's position
/// (if there is a cursor) and the candidates around it.
pub open spec fn targeted(
    targeting: AbilityTargeting,
    cursor: Option<glam::Vec3>,
    cands: Seq<TargetCandidate>,
) -> IntendedTarget {
    match targeting {
        AbilityTargeting::Cursor => match cursor {
            Some(p) => IntendedTarget::Position(p),
            None => IntendedTarget::Nothing,
        },
        AbilityTargeting::NearestEnemyToCursor { max_range } => match cursor {
            Some(p) => match nearest_within(cands, max_range) {
                Some(c) => IntendedTarget::Entity(c.entity),
                None => IntendedTarget::Position(p),
            },
            None => IntendedTarget::Nothing,
        },
        AbilityTargeting::SelfCast => IntendedTarget::Nothing,
    }
}

/// Resolves what an ability aims at; see [`targeted`].
pub fn resolve_targeting(
    targeting: AbilityTargeting,
    cursor: Option<glam::Vec3>,
    cands: &Vec<TargetCandidate>,
) -> (t: IntendedTarget)
    ensures
        t == targeted(targeting, cursor, cands@),
{
    match targeting {
        AbilityTargeting::Cursor => match cursor {
            Some(p) => IntendedTarget::Position(p),
            None => IntendedTarget::Nothing,
        },
        AbilityTargeting::NearestEnemyToCursor { max_range } => match cursor {
            Some(p) => match nearest_candidate(cands, max_range) {
                Some(c) => IntendedTarget::Entity(c.entity),
                None => IntendedTarget::Position(p),
            },
            None => IntendedTarget::Nothing,
        },
        AbilityTargeting::SelfCast => IntendedTarget::Nothing,
    }
}

/// The slot exists, holds an ability, and that ability's cooldown has run
/// out.
pub open spec fn slot_ready<C>(slots: Seq<Option<SlottedAbility<C>>>, slot_id: SlotId) -> bool {
    &&& slot_id.0 < slots.len()
    &&& slots[slot_id.0 as int] is Some
    &&& slots[slot_id.0 as int]->0.cooldown_timer@.finished
}

/// A request to cast the ability in a slot.
#[derive(Copy, Clone, Debug, PartialEq, Eq, Structural)]
pub struct TriggerAbilitySlot {
    pub slot_id: SlotId,
}

impl TriggerAbilitySlot {
    pub fn from_id(id: SlotId) -> (t: Self)
        ensures
            t.slot_id == id,
    {
        TriggerAbilitySlot { slot_id: id }
    }
}

impl<C: Clone> AbilitySlots<SlottedAbility<C>> {
    /// Lets `delta` nanoseconds of cooldown pass for every slotted ability.
    pub fn update_cooldowns(&mut self, delta: u64)
        ensures
            final(self)@.len() == old(self)@.len(),
            forall|i: int|
                0 <= i < old(self)@.len() ==> match #[trigger] old(self)@[i] {
                    None => final(self)@[i] is None,
                    Some(a) => final(self)@[i] matches Some(b) && with_timer(
                        a,
                        b,
                        ticked(a.cooldown_timer@, delta),
                    ),
                },
    {
        let mut i: usize = 0;
        while i < self.slots.len()
            invariant
                i <= self.slots@.len(),
                self.slots@.len() == old(self)@.len(),
                forall|j: int|
                    0 <= j < i ==> match #[trigger] old(self)@[j] {
                        None => self.slots@[j] is None,
                        Some(a) => self.slots@[j] matches Some(b) && with_timer(
                            a,
                            b,
                            ticked(a.cooldown_timer@, delta),
                        ),
                    },
                forall|j: int| i <= j < self.slots@.len() ==> #[trigger] self.slots@[j] == old(
                    self,
                )@[j],
            decreases self.slots@.len() - i,
        {
            let mut taken: Option<SlottedAbility<C>> = None;
            self.slots.set_and_swap(i, &mut taken);
            if let Some(mut a) = taken {
                a.update_cooldown(delta);
                self.slots.set(i, Some(a));
            }
            i = i + 1;
        }
    }

    /// Casts the ability in `slot_id` for `caster`, if there is one and it
    /// is ready: the cast aims as the ability's targeting says, and the
    /// ability's cooldown starts over. An empty, missing or cooling slot
    /// casts nothing and changes nothing.
    pub fn trigger_slot(
        &mut self,
        slot_id: SlotId,
        caster: Entity,
        cursor: Option<glam::Vec3>,
        cands: &Vec<TargetCandidate>,
    ) -> (cast: Option<CastDynamicAbility<C>>)
        ensures
            final(self)@.len() == old(self)@.len(),
            slot_ready(old(self)@, slot_id) ==> {
                let i = slot_id.0 as int;
                let a = old(self)@[i]->0;
                &&& cast matches Some(e) && {
                    &&& e.caster == caster
                    &&& e.target == targeted(a.targeting, cursor, cands@)
                    &&& e.sub_cast is None
                    &&& e.ability.config == a.ability.config
                    &&& cloned(a.ability.components, e.ability.components)
                }
                &&& final(self)@[i] matches Some(b) && with_timer(
                    a,
                    b,
                    fresh_timer(a.base_cooldown, TimerMode::Once),
                )
                &&& forall|j: int|
                    0 <= j < old(self)@.len() && j != i ==> #[trigger] final(self)@[j] == old(
                        self,
                    )@[j]
            },
            !slot_ready(old(self)@, slot_id) ==> cast is None && final(self)@ == old(self)@,
    {
        let i = slot_id.0;
        if i >= self.slots.len() {
            return None;
        }
        let mut taken: Option<SlottedAbility<C>> = None;
        self.slots.set_and_swap(i, &mut taken);
        match taken {
            None => {
                self.slots.set(i, None);
                proof {
                    assert(self.slots@ =~= old(self)@);
                }
                None
            },
            Some(mut a) => {
                if !a.is_ready() {
                    self.slots.set(i, Some(a));
                    proof {
                        assert(self.slots@ =~= old(self)@);
                    }
                    return None;
                }
                let copy = DynamicAbility { components: a.ability.components.clone(), config: a.ability.config };
                let event = CastDynamicAbility::at_caster(copy, caster);
                let target = resolve_targeting(a.targeting, cursor, cands);
                let event = CastDynamicAbility { target, ..event };
                a.trigger_cooldown();
                self.slots.set(i, Some(a));
                Some(event)
            },
        }
    }
}

/// A cast puts its slot on cooldown: right after it the slot is not ready,
/// and a later cooldown update makes it ready exactly when at least the
/// ability's cooldown has passed.
pub proof fn law_cast_puts_slot_on_cooldown<C>(
    slots: Seq<Option<SlottedAbility<C>>>,
    slot_id: SlotId,
    b: SlottedAbility<C>,
    delta: u64,
)
    requires
        slot_id.0 < slots.len(),
        b.cooldown_timer@ == fresh_timer(b.base_cooldown, TimerMode::Once),
    ensures
        !slot_ready(slots.update(slot_id.0 as int, Some(b)), slot_id),
        ticked(b.cooldown_timer@, delta).finished == (delta >= b.base_cooldown),
{
}

/// "Slot <n> out of range".
fn out_of_range_message(slot: usize) -> (m: String)
    ensures
        m@ == "Slot "@ + crate::text::decimal(slot as int) + " out of range"@,
{
    let mut m = String::from_str("Slot ");
    m.append(crate::text::usize_to_string(slot).as_str());
    m.append(" out of range");
    proof {
        reveal_strlit("Slot ");
        reveal_strlit(" out of range");
    }
    m
}

} // verus!
