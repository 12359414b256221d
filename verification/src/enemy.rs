//! Enemy behaviours that run on timers: contact damage, abilities cast at
//! a fixed interval, and despawning after a while.

use vstd::prelude::*;

use crate::ability::{CastDynamicAbility, DynamicAbility, IntendedTarget};
use crate::entity::{Entity, Faction};
use crate::timer::{fresh_timer, ticked, Timer, TimerMode};

verus! {

/// Damage dealt on touch, at most once per cooldown.
#[derive(Copy, Clone, Debug)]
pub struct ContactDamage {
    pub damage: i32,
    pub cooldown: Timer,
    pub self_damage: i32,
}

impl ContactDamage {
    /// `damage` on touch, then `cooldown` nanoseconds of rest; no damage to
    /// itself.
    pub fn new(damage: i32, cooldown: u64) -> (c: Self)
        ensures
            c.damage == damage,
            c.cooldown@ == fresh_timer(cooldown, TimerMode::Once),
            c.self_damage == 0,
    {
        ContactDamage {
            damage,
            cooldown: Timer::from_duration(cooldown, TimerMode::Once),
            self_damage: 0,
        }
    }

    /// Also takes `damage` itself on each touch.
    pub fn with_self_damage(self, damage: i32) -> (c: Self)
        ensures
            c.damage == self.damage,
            c.cooldown@ == self.cooldown@,
            c.self_damage == damage,
    {
        ContactDamage { self_damage: damage, ..self }
    }
}

/// An object that contact damage may touch.
#[derive(Copy, Clone, Debug, PartialEq, Eq, Structural)]
pub struct ContactTarget {
    pub entity: Entity,
    pub faction: Faction,
    /// Whether it is within the contact radius.
    pub in_reach: bool,
}

/// The outcome of a touch.
#[derive(Copy, Clone, Debug, PartialEq, Eq, Structural)]
pub struct ContactHit {
    /// Position of the target in the list of targets.
    pub index: usize,
    pub target: Entity,
    pub damage: i32,
    /// Damage the toucher takes itself, if any.
    pub self_damage: Option<i32>,
}

/// A target that `me`, fighting for `side`, damages on touch.
pub open spec fn touchable(t: ContactTarget, me: Entity, side: Faction) -> bool {
    t.entity != me && t.faction != side && t.in_reach
}

/// The first touchable target, if any.
pub open spec fn first_touchable(targets: Seq<ContactTarget>, me: Entity, side: Faction) -> Option<
    int,
>
    decreases targets.len(),
{
    if targets.len() == 0 {
        None
    } else {
        match first_touchable(targets.drop_last(), me, side) {
            Some(i) => Some(i),
            None => if touchable(targets.last(), me, side) {
                Some(targets.len() - 1)
            } else {
                None
            },
        }
    }
}

impl ContactDamage {
    /// Lets `delta` nanoseconds pass and, once the cooldown has run out,
    /// touches the first target in reach that is not itself and fights for
    /// the other side. A touch restarts the cooldown.
    pub fn strike(&mut self, delta: u64, me: Entity, side: Faction, targets: &Vec<ContactTarget>) -> (hit:
        Option<ContactHit>)
        ensures
            final(self).damage == old(self).damage,
            final(self).self_damage == old(self).self_damage,
            ({
                let t = ticked(old(self).cooldown@, delta);
                let first = first_touchable(targets@, me, side);
                if t.finished && first is Some {
                    &&& hit matches Some(h) && {
                        &&& h.index == first->0
                        &&& h.target == targets@[h.index as int].entity
                        &&& h.damage == old(self).damage
                        &&& h.self_damage == if old(self).self_damage > 0 {
                            Some(old(self).self_damage)
                        } else {
                            None::<i32>
                        }
                    }
                    &&& final(self).cooldown@ == fresh_timer(t.duration, t.mode)
                } else {
                    &&& hit is None
                    &&& final(self).cooldown@ == t
                }
            }),
    {
        self.cooldown.tick(delta);
        if !self.cooldown.finished() {
            return None;
        }
        let mut i: usize = 0;
        while i < targets.len()
            invariant
                i <= targets@.len(),
                first_touchable(targets@.take(i as int), me, side) is None,
                self.damage == old(self).damage,
                self.self_damage == old(self).self_damage,
                self.cooldown@ == ticked(old(self).cooldown@, delta),
                self.cooldown@.finished,
            decreases targets.len() - i,
        {
            proof {
                assert(targets@.take(i + 1).drop_last() =~= targets@.take(i as int));
            }
            let t = targets[i];
            if t.entity != me && t.faction != side && t.in_reach {
                proof {
                    lemma_first_touchable_prefix(targets@, me, side, i as int);
                }
                self.cooldown.reset();
                return Some(
                    ContactHit {
                        index: i,
                        target: t.entity,
                        damage: self.damage,
                        self_damage: if self.self_damage > 0 {
                            Some(self.self_damage)
                        } else {
                            None
                        },
                    },
                );
            }
            i = i + 1;
        }
        proof {
            assert(targets@.take(i as int) =~= targets@);
        }
        None
    }
}

/// A touch lands on a target that may be touched, and every target before
/// it in the list may not be; nothing is touched only when no target may be.
pub proof fn law_touch_lands_on_first_touchable(targets: Seq<ContactTarget>, me: Entity, side: Faction)
    ensures
        first_touchable(targets, me, side) matches Some(k) ==> {
            &&& 0 <= k < targets.len()
            &&& touchable(targets[k], me, side)
            &&& forall|i: int| 0 <= i < k ==> !touchable(#[trigger] targets[i], me, side)
        },
        first_touchable(targets, me, side) is None ==> forall|i: int|
            0 <= i < targets.len() ==> !touchable(#[trigger] targets[i], me, side),
    decreases targets.len(),
{
    if targets.len() > 0 {
        let rest = targets.drop_last();
        law_touch_lands_on_first_touchable(rest, me, side);
        let n = targets.len() - 1;
        match first_touchable(rest, me, side) {
            Some(k) => {
                assert(rest[k] == targets[k]);
                assert forall|i: int| 0 <= i < k implies !touchable(#[trigger] targets[i], me, side) by {
                    assert(rest[i] == targets[i]);
                }
            },
            None => {
                assert forall|i: int| 0 <= i < n implies !touchable(#[trigger] targets[i], me, side) by {
                    assert(rest[i] == targets[i]);
                }
                assert(targets.last() == targets[n]);
            },
        }
    }
}

proof fn lemma_first_touchable_prefix(targets: Seq<ContactTarget>, me: Entity, side: Faction, i: int)
    requires
        0 <= i < targets.len(),
        first_touchable(targets.take(i), me, side) is None,
        touchable(targets[i], me, side),
    ensures
        first_touchable(targets, me, side) == Some(i),
    decreases targets.len(),
{
    assert(targets.take(i + 1).drop_last() =~= targets.take(i));
    assert(first_touchable(targets.take(i + 1), me, side) == Some(i));
    lemma_first_touchable_extends(targets, me, side, i + 1);
}

proof fn lemma_first_touchable_extends(targets: Seq<ContactTarget>, me: Entity, side: Faction, n: int)
    requires
        0 <= n <= targets.len(),
        first_touchable(targets.take(n), me, side) is Some,
    ensures
        first_touchable(targets, me, side) == first_touchable(targets.take(n), me, side),
    decreases targets.len() - n,
{
    if n < targets.len() {
        assert(targets.take(n + 1).drop_last() =~= targets.take(n));
        lemma_first_touchable_extends(targets, me, side, n + 1);
    } else {
        assert(targets.take(n) =~= targets);
    }
}

/// Casts an ability at the spawner's target every interval.
#[derive(Clone, Debug)]
pub struct SingleAbilityTimed<C> {
    pub ability: DynamicAbility<C>,
    pub timer: Timer,
}

impl<C: Clone> SingleAbilityTimed<C> {
    /// Casts `ability` after every `interval` nanoseconds.
    pub fn new(ability: DynamicAbility<C>, interval: u64) -> (s: Self)
        ensures
            s.ability == ability,
            s.timer@ == fresh_timer(interval, TimerMode::Repeating),
    {
        SingleAbilityTimed { ability, timer: Timer::from_duration(interval, TimerMode::Repeating) }
    }

    /// Lets `delta` nanoseconds pass; when the interval runs out, casts the
    /// ability from `caster` at `target`.
    pub fn advance(&mut self, delta: u64, caster: Entity, target: Entity) -> (cast: Option<
        CastDynamicAbility<C>,
    >)
        ensures
            final(self).timer@ == ticked(old(self).timer@, delta),
            final(self).ability == old(self).ability,
            final(self).timer@.times_finished_this_tick > 0 ==> (cast matches Some(e) && {
                &&& e.caster == caster
                &&& e.target == IntendedTarget::Entity(target)
                &&& e.sub_cast is None
                &&& e.ability.config == old(self).ability.config
                &&& cloned(old(self).ability.components, e.ability.components)
            }),
            final(self).timer@.times_finished_this_tick == 0 ==> cast is None,
    {
        self.timer.tick(delta);
        if self.timer.just_finished() {
            let copy = DynamicAbility {
                components: self.ability.components.clone(),
                config: self.ability.config,
            };
            Some(CastDynamicAbility::at_caster(copy, caster).with_target_entity(target))
        } else {
            None
        }
    }
}

/// Removes its owner once its time is up.
#[derive(Copy, Clone, Debug)]
pub struct DespawnTimer {
    pub timer: Timer,
}

impl DespawnTimer {
    /// Despawns after `duration` nanoseconds.
    pub fn new(duration: u64) -> (d: Self)
        ensures
            d.timer@ == fresh_timer(duration, TimerMode::Once),
    {
        DespawnTimer { timer: Timer::from_duration(duration, TimerMode::Once) }
    }

    /// Lets `delta` nanoseconds pass; returns whether the owner goes away
    /// now.
    pub fn advance(&mut self, delta: u64) -> (despawn: bool)
        ensures
            final(self).timer@ == ticked(old(self).timer@, delta),
            despawn == (final(self).timer@.times_finished_this_tick > 0),
    {
        self.timer.tick(delta);
        self.timer.just_finished()
    }
}

/// A despawn timer fires exactly once: after it has fired, no further time
/// makes it fire again.
pub proof fn law_despawn_timer_fires_once(t: crate::timer::TimerView, d1: u64, d2: u64)
    requires
        t.mode == TimerMode::Once,
        ticked(t, d1).times_finished_this_tick > 0,
    ensures
        ticked(ticked(t, d1), d2).times_finished_this_tick == 0,
{
}

} // verus!
