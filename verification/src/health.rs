//! Health of living objects: damage, healing, regeneration and death.

use vstd::prelude::*;

use crate::entity::{contains_entity, Entity};

verus! {

/// Current state of an object's health.
#[derive(Copy, Clone, Debug, PartialEq, Eq, Structural)]
pub struct HealthPool {
    pub current_health: i32,
    pub max_health: i32,
    pub regen: i32,
}

/// Base values from which an object's health pool is derived.
#[derive(Copy, Clone, Debug, PartialEq, Eq, Structural)]
pub struct Health {
    pub base_health: i32,
    pub base_regen: i32,
}

impl Health {
    pub fn new(base_health: i32, base_regen: i32) -> (h: Self)
        ensures
            h.base_health == base_health,
            h.base_regen == base_regen,
    {
        Health { base_health, base_regen }
    }
}

/// Base health together with a pool that starts full.
#[derive(Copy, Clone, Debug)]
pub struct HealthBundle {
    pub health: Health,
    pub pool: HealthPool,
}

impl HealthBundle {
    pub fn new(base_health: i32, base_regen: i32) -> (b: Self)
        ensures
            b.health == (Health { base_health, base_regen }),
            b.pool == (HealthPool {
                current_health: base_health,
                max_health: base_health,
                regen: base_regen,
            }),
    {
        HealthBundle {
            health: Health { base_health, base_regen },
            pool: HealthPool { max_health: base_health, current_health: base_health, regen: base_regen },
        }
    }
}

impl HealthPool {
    /// One regeneration tick: adds the regeneration rate, but never beyond
    /// the maximum.
    pub fn apply_regen(&mut self)
        requires
            i32::MIN <= old(self).current_health + old(self).regen <= i32::MAX,
        ensures
            final(self).current_health == if old(self).current_health + old(self).regen
                < old(self).max_health {
                old(self).current_health + old(self).regen
            } else {
                old(self).max_health as int
            },
            final(self).max_health == old(self).max_health,
            final(self).regen == old(self).regen,
    {
        let raised = self.current_health + self.regen;
        self.current_health = if raised < self.max_health { raised } else { self.max_health };
    }

    /// Takes `damage` off the current health, with no lower bound.
    pub fn take_damage(&mut self, damage: i32)
        requires
            i32::MIN <= old(self).current_health - damage <= i32::MAX,
        ensures
            final(self).current_health == old(self).current_health - damage,
            final(self).max_health == old(self).max_health,
            final(self).regen == old(self).regen,
    {
        self.current_health = self.current_health - damage;
    }

    /// Adds `amount` to the current health, with no upper bound.
    pub fn heal(&mut self, amount: i32)
        requires
            i32::MIN <= old(self).current_health + amount <= i32::MAX,
        ensures
            final(self).current_health == old(self).current_health + amount,
            final(self).max_health == old(self).max_health,
            final(self).regen == old(self).regen,
    {
        self.current_health = self.current_health + amount;
    }

    /// An object dies once its health is zero or below.
    pub fn is_dead(&self) -> (dead: bool)
        ensures
            dead == (self.current_health <= 0),
    {
        self.current_health <= 0
    }
}

/// The objects among `entities` whose pool (given at the same position of
/// `pools`) is at zero or below, in their order.
pub open spec fn dead_entities(entities: Seq<Entity>, pools: Seq<HealthPool>) -> Seq<Entity>
    decreases entities.len(),
{
    if entities.len() == 0 {
        Seq::empty()
    } else {
        let rest = dead_entities(entities.drop_last(), pools.drop_last());
        if pools.last().current_health <= 0 {
            rest.push(entities.last())
        } else {
            rest
        }
    }
}

/// `dead` lists, in the order they come, exactly the entities whose pool
/// (at the same position) is at zero or below: `idx` gives, for each entry
/// of `dead`, the position it was taken from.
pub open spec fn lists_the_dead(entities: Seq<Entity>, pools: Seq<HealthPool>, dead: Seq<Entity>, idx: Seq<int>) -> bool {
    &&& idx.len() == dead.len()
    &&& forall|j: int|
        0 <= j < idx.len() ==> {
            &&& 0 <= #[trigger] idx[j] < entities.len()
            &&& pools[idx[j]].current_health <= 0
            &&& dead[j] == entities[idx[j]]
        }
    &&& forall|j: int, k: int| 0 <= j < k < idx.len() ==> idx[j] < idx[k]
    &&& forall|i: int|
        0 <= i < entities.len() && #[trigger] pools[i].current_health <= 0 ==> exists|j: int|
            0 <= j < idx.len() && idx[j] == i
}

proof fn lemma_dead_positions(entities: Seq<Entity>, pools: Seq<HealthPool>) -> (idx: Seq<int>)
    requires
        entities.len() == pools.len(),
    ensures
        lists_the_dead(entities, pools, dead_entities(entities, pools), idx),
    decreases entities.len(),
{
    if entities.len() == 0 {
        Seq::empty()
    } else {
        let n = entities.len() - 1;
        let e0 = entities.drop_last();
        let p0 = pools.drop_last();
        let before = lemma_dead_positions(e0, p0);
        assert forall|i: int| 0 <= i < n implies #[trigger] e0[i] == entities[i] && p0[i] == pools[i] by {}
        if pools.last().current_health <= 0 {
            let idx = before.push(n);
            assert forall|j: int| 0 <= j < idx.len() implies {
                &&& 0 <= #[trigger] idx[j] < entities.len()
                &&& pools[idx[j]].current_health <= 0
                &&& dead_entities(entities, pools)[j] == entities[idx[j]]
            } by {
                if j < before.len() {
                    assert(idx[j] == before[j]);
                    assert(e0[before[j]] == entities[before[j]]);
                }
            }
            assert forall|i: int|
                0 <= i < entities.len() && #[trigger] pools[i].current_health <= 0 implies exists|j: int|
                0 <= j < idx.len() && idx[j] == i by {
                if i < n {
                    assert(p0[i] == pools[i]);
                    let j = choose|j: int| 0 <= j < before.len() && before[j] == i;
                    assert(idx[j] == i);
                } else {
                    assert(idx[before.len() as int] == i);
                }
            }
            idx
        } else {
            assert forall|j: int| 0 <= j < before.len() implies {
                &&& 0 <= #[trigger] before[j] < entities.len()
                &&& pools[before[j]].current_health <= 0
                &&& dead_entities(entities, pools)[j] == entities[before[j]]
            } by {
                assert(e0[before[j]] == entities[before[j]]);
            }
            assert forall|i: int|
                0 <= i < entities.len() && #[trigger] pools[i].current_health <= 0 implies exists|j: int|
                0 <= j < before.len() && before[j] == i by {
                assert(i < n);
                assert(p0[i] == pools[i]);
            }
            before
        }
    }
}

/// The deaths of a frame are exactly the objects at zero health or below:
/// every such object is reported, every reported object is one, and they
/// are reported once each, in the order they come.
pub proof fn law_deaths_are_exactly_the_dead(entities: Seq<Entity>, pools: Seq<HealthPool>)
    requires
        entities.len() == pools.len(),
    ensures
        exists|idx: Seq<int>| lists_the_dead(entities, pools, dead_entities(entities, pools), idx),
        forall|i: int|
            0 <= i < entities.len() && pools[i].current_health <= 0 ==> dead_entities(entities, pools).contains(
                #[trigger] entities[i],
            ),
        forall|x: Entity|
            #[trigger] dead_entities(entities, pools).contains(x) ==> exists|i: int|
                0 <= i < entities.len() && entities[i] == x && pools[i].current_health <= 0,
{
    let dead = dead_entities(entities, pools);
    let idx = lemma_dead_positions(entities, pools);
    assert forall|i: int|
        0 <= i < entities.len() && pools[i].current_health <= 0 implies dead.contains(
        #[trigger] entities[i],
    ) by {
        assert(pools[i].current_health <= 0);
        let j = choose|j: int| 0 <= j < idx.len() && idx[j] == i;
        assert(dead[j] == entities[idx[j]]);
    }
    assert forall|x: Entity| #[trigger] dead.contains(x) implies exists|i: int|
        0 <= i < entities.len() && entities[i] == x && pools[i].current_health <= 0 by {
        let j = choose|j: int| 0 <= j < dead.len() && dead[j] == x;
        assert(0 <= idx[j] < entities.len());
    }
}

/// The objects that die this frame: those whose health is zero or below.
pub fn deaths_among(entities: &Vec<Entity>, pools: &Vec<HealthPool>) -> (dead: Vec<Entity>)
    requires
        entities@.len() == pools@.len(),
    ensures
        dead@ == dead_entities(entities@, pools@),
        forall|i: int|
            0 <= i < entities@.len() && pools@[i].current_health <= 0 ==> dead@.contains(
                #[trigger] entities@[i],
            ),
        forall|x: Entity|
            #[trigger] dead@.contains(x) ==> exists|i: int|
                0 <= i < entities@.len() && entities@[i] == x && pools@[i].current_health <= 0,
{
    proof {
        law_deaths_are_exactly_the_dead(entities@, pools@);
    }
    let mut dead: Vec<Entity> = Vec::new();
    let mut i: usize = 0;
    while i < entities.len()
        invariant
            i <= entities@.len(),
            entities@.len() == pools@.len(),
            dead@ == dead_entities(entities@.take(i as int), pools@.take(i as int)),
        decreases entities.len() - i,
    {
        proof {
            assert(entities@.take(i + 1).drop_last() =~= entities@.take(i as int));
            assert(pools@.take(i + 1).drop_last() =~= pools@.take(i as int));
        }
        if pools[i].is_dead() {
            dead.push(entities[i]);
        }
        i = i + 1;
    }
    proof {
        assert(entities@.take(i as int) =~= entities@);
        assert(pools@.take(i as int) =~= pools@);
    }
    dead
}

/// The members of `items` that are also in `among`, in their order.
pub open spec fn members_in(items: Seq<Entity>, among: Seq<Entity>) -> Seq<Entity> {
    items.filter(|e: Entity| among.contains(e))
}

/// The dead objects to remove from the world: every reported death of an
/// object that has a health pool and is not the player.
pub fn npc_deaths_to_despawn(deaths: &Vec<Entity>, npcs: &Vec<Entity>) -> (gone: Vec<Entity>)
    ensures
        gone@ == members_in(deaths@, npcs@),
{
    let mut gone: Vec<Entity> = Vec::new();
    let mut i: usize = 0;
    while i < deaths.len()
        invariant
            i <= deaths@.len(),
            gone@ == members_in(deaths@.take(i as int), npcs@),
        decreases deaths.len() - i,
    {
        proof {
            reveal_with_fuel(Seq::<Entity>::filter, 1);
            assert(deaths@.take(i + 1).drop_last() =~= deaths@.take(i as int));
        }
        if contains_entity(npcs, deaths[i]) {
            gone.push(deaths[i]);
        }
        i = i + 1;
    }
    proof {
        assert(deaths@.take(i as int) =~= deaths@);
    }
    gone
}

/// Whether any of this frame's deaths is the player's.
pub fn player_died(deaths: &Vec<Entity>, players: &Vec<Entity>) -> (died: bool)
    ensures
        died == exists|i: int| 0 <= i < deaths@.len() && players@.contains(deaths@[i]),
{
    let mut i: usize = 0;
    while i < deaths.len()
        invariant
            i <= deaths@.len(),
            forall|j: int| 0 <= j < i ==> !players@.contains(deaths@[j]),
        decreases deaths.len() - i,
    {
        if contains_entity(players, deaths[i]) {
            return true;
        }
        i = i + 1;
    }
    false
}

/// Regeneration happens once a second: the game time of the last
/// regeneration, in nanoseconds.
#[derive(Copy, Clone, Debug, PartialEq, Eq, Structural)]
pub struct RegenTick {
    pub last_regen_tick: u64,
}

impl Default for RegenTick {
    fn default() -> (t: Self)
        ensures
            t.last_regen_tick == 0,
    {
        RegenTick { last_regen_tick: 0 }
    }
}

/// One second, in nanoseconds.
pub const REGEN_INTERVAL_NANOS: u64 = 1_000_000_000;

impl RegenTick {
    /// Whether more than a second has passed since the last regeneration at
    /// game time `now`; if so, `now` becomes the last regeneration.
    pub fn due(&mut self, now: u64) -> (regen: bool)
        ensures
            regen == (now - old(self).last_regen_tick > REGEN_INTERVAL_NANOS),
            final(self).last_regen_tick == if regen {
                now
            } else {
                old(self).last_regen_tick
            },
    {
        if now > self.last_regen_tick && now - self.last_regen_tick > REGEN_INTERVAL_NANOS {
            self.last_regen_tick = now;
            true
        } else {
            false
        }
    }
}

/// Regeneration never lifts health above the maximum, and never lowers a
/// health that is at or below the maximum when the rate is not negative.
pub proof fn law_regen_stays_within_max(current: int, max: int, regen: int)
    requires
        current <= max,
        regen >= 0,
    ensures
        current <= (if current + regen < max {
            current + regen
        } else {
            max
        }) <= max,
{
}

} // verus!
