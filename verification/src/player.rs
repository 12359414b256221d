//! The player's starting loadout: health, abilities and input bindings.

use vstd::prelude::*;

use crate::ability::DynamicAbility;
use crate::health::HealthBundle;
use crate::keymap::AbilityKeymap;
use crate::slots::{AbilitySlots, AbilityTargeting, SlotId, SlottedAbility};
use crate::timer::{spent_timer, TimerMode};

verus! {

/// Cooldown of the player's shot, in nanoseconds.
pub const SHOT_COOLDOWN_NANOS: u64 = 500_000_000;

/// Cooldown of the player's dash, in nanoseconds.
pub const DASH_COOLDOWN_NANOS: u64 = 2_000_000_000;

/// The player's two ability slots: the shot (half a second of cooldown) in
/// the first, the dash (two seconds) in the second, both aimed at the cursor
/// and both ready at once.
pub fn player_abilities<C>(shot: DynamicAbility<C>, dash: DynamicAbility<C>) -> (slots: AbilitySlots<
    SlottedAbility<C>,
>)
    ensures
        slots@.len() == 2,
        slots@[0] matches Some(a) && a.ability == shot && a.targeting == AbilityTargeting::Cursor
            && a.base_cooldown == SHOT_COOLDOWN_NANOS && a.cooldown_timer@ == spent_timer(
            0,
            TimerMode::Once,
        ),
        slots@[1] matches Some(a) && a.ability == dash && a.targeting == AbilityTargeting::Cursor
            && a.base_cooldown == DASH_COOLDOWN_NANOS && a.cooldown_timer@ == spent_timer(
            0,
            TimerMode::Once,
        ),
{
    let mut abilities: Vec<SlottedAbility<C>> = Vec::new();
    abilities.push(SlottedAbility::new(shot, AbilityTargeting::Cursor, SHOT_COOLDOWN_NANOS));
    abilities.push(SlottedAbility::new(dash, AbilityTargeting::Cursor, DASH_COOLDOWN_NANOS));
    AbilitySlots::with_abilities(abilities)
}

/// The player's bindings: the shooting button casts the first slot, the
/// dash key the second.
pub fn player_keymap(shoot_button: u32, dash_key: u32) -> (k: AbilityKeymap)
    ensures
        k.buttons() == Map::<u32, SlotId>::empty().insert(shoot_button, SlotId(0)),
        k.keys() == Map::<u32, SlotId>::empty().insert(dash_key, SlotId(1)),
{
    let mut k = AbilityKeymap::new();
    k.bind_mouse(shoot_button, SlotId(0)).bind_key(dash_key, SlotId(1));
    k
}

/// The player's health: 100, without regeneration.
pub fn player_health() -> (h: HealthBundle)
    ensures
        h.health.base_health == 100,
        h.health.base_regen == 0,
        h.pool.current_health == 100,
        h.pool.max_health == 100,
        h.pool.regen == 0,
{
    HealthBundle::new(100, 0)
}

} // verus!
