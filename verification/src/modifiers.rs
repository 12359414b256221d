//! Names of the stats that runes and abilities modify.

use vstd::prelude::*;

verus! {

/// Name of a modifiable stat.
#[derive(Copy, Clone, Debug)]
pub struct ModifierID(pub &'static str);

impl ModifierID {
    pub fn as_str(&self) -> (s: &'static str)
        ensures
            s@ == self.0@,
    {
        self.0
    }
}

pub fn damage_modifier() -> (id: ModifierID)
    ensures
        id.0@ == "basic-damage"@,
{
    ModifierID("basic-damage")
}

pub fn player_speed_modifier() -> (id: ModifierID)
    ensures
        id.0@ == "player-speed"@,
{
    ModifierID("player-speed")
}

pub fn projectile_speed_modifier() -> (id: ModifierID)
    ensures
        id.0@ == "projectile-speed"@,
{
    ModifierID("projectile-speed")
}

pub fn projectile_count_modifier() -> (id: ModifierID)
    ensures
        id.0@ == "projectile-count"@,
{
    ModifierID("projectile-count")
}

pub fn projectile_duration_modifier() -> (id: ModifierID)
    ensures
        id.0@ == "projectile-duration"@,
{
    ModifierID("projectile-duration")
}

pub fn aoe_radius_modifier() -> (id: ModifierID)
    ensures
        id.0@ == "aoe-radius"@,
{
    ModifierID("aoe-radius")
}

} // verus!
