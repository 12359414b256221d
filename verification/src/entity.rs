//! Identities of game objects and the side they fight on.

use vstd::prelude::*;

verus! {

/// A game object, identified by the bits the game world assigns to it.
#[derive(Copy, Clone, Debug, PartialEq, Eq, Hash, Structural)]
pub struct Entity {
    pub bits: u64,
}

/// The side an object fights on.
#[derive(Copy, Clone, Debug, PartialEq, Eq, Hash, Structural)]
pub enum Faction {
    Friendly,
    Enemy,
}

/// Whether `items` holds `x`.
pub fn contains_entity(items: &Vec<Entity>, x: Entity) -> (found: bool)
    ensures
        found == items@.contains(x),
{
    let mut i: usize = 0;
    while i < items.len()
        invariant
            i <= items@.len(),
            forall|j: int| 0 <= j < i ==> items@[j] != x,
        decreases items.len() - i,
    {
        if items[i] == x {
            return true;
        }
        i = i + 1;
    }
    false
}

/// A blast hurts every object but its caster, except those known to fight
/// on the caster's side.
pub open spec fn blast_hits(
    caster: Entity,
    target: Entity,
    caster_faction: Option<Faction>,
    target_faction: Option<Faction>,
) -> bool {
    target != caster && !(caster_faction is Some && caster_faction == target_faction)
}

pub fn blast_may_hit(
    caster: Entity,
    target: Entity,
    caster_faction: Option<Faction>,
    target_faction: Option<Faction>,
) -> (hits: bool)
    ensures
        hits == blast_hits(caster, target, caster_faction, target_faction),
{
    if target == caster {
        return false;
    }
    match (caster_faction, target_faction) {
        (Some(a), Some(b)) => a != b,
        _ => true,
    }
}

/// A projectile damages what it hits only when the two fight on different
/// sides.
pub fn collision_may_damage(source_faction: Faction, target_faction: Faction) -> (hurts: bool)
    ensures
        hurts == (source_faction != target_faction),
{
    source_faction != target_faction
}

/// A seeker may pick a target unless both are known to fight on the same
/// side.
pub open spec fn targetable_by(seeker: Option<Faction>, target: Option<Faction>) -> bool {
    seeker is None || target is None || seeker != target
}

pub fn may_target(seeker: Option<Faction>, target: Option<Faction>) -> (ok: bool)
    ensures
        ok == targetable_by(seeker, target),
{
    match (seeker, target) {
        (Some(a), Some(b)) => a != b,
        _ => true,
    }
}

/// No side turns on itself: a blast never hits its own caster nor an object
/// known to be on the caster's side, and a seeker never picks a target
/// known to be on its own side; objects of the other side are always fair
/// game.
pub proof fn law_no_friendly_fire(caster: Entity, target: Entity, side: Faction, other: Faction)
    requires
        side != other,
    ensures
        !blast_hits(caster, caster, Some(side), Some(side)),
        !blast_hits(caster, caster, None, None),
        !blast_hits(caster, target, Some(side), Some(side)),
        target != caster ==> blast_hits(caster, target, Some(side), Some(other)),
        !targetable_by(Some(side), Some(side)),
        targetable_by(Some(side), Some(other)),
{
}

} // verus!
