//! Casting abilities: what a cast asks for, where the cast object appears,
//! what it inherits from the object it comes from, and how targets resolve.

use vstd::prelude::*;

use crate::components::SubCastInfo;
use crate::entity::{Entity, Faction};

verus! {

/// Declares `glam::Vec3`, the engine's point or direction in space, so that
/// positions can be held and handed on. Nothing is claimed of its contents:
/// the library only copies positions and compares them for equality in its
/// contracts, never reads their coordinates.
#[verifier::external_type_specification]
#[verifier::external_body]
pub struct ExVec3(glam::Vec3);

/// Where a cast object appears.
#[derive(Copy, Clone, Debug, PartialEq, Eq, Structural)]
pub enum SpawnLocation {
    Source,
    Target,
}

/// What a cast object takes over from the object it is cast from.
#[derive(Copy, Clone, Debug, PartialEq, Eq, Structural)]
pub struct CastConfig {
    pub spawn_location: SpawnLocation,
    pub inherit_transform: bool,
    pub inherit_velocity: bool,
    pub inherit_faction: bool,
}

impl Default for CastConfig {
    fn default() -> (c: Self)
        ensures
            c == (CastConfig {
                spawn_location: SpawnLocation::Source,
                inherit_transform: true,
                inherit_velocity: true,
                inherit_faction: true,
            }),
    {
        CastConfig {
            spawn_location: SpawnLocation::Source,
            inherit_velocity: true,
            inherit_transform: true,
            inherit_faction: true,
        }
    }
}

/// An ability: the components its cast object starts with, and how it is
/// cast.
#[derive(Clone, Debug)]
pub struct DynamicAbility<C> {
    pub components: C,
    pub config: CastConfig,
}

impl<C> DynamicAbility<C> {
    /// An ability with the default cast settings.
    pub fn from_components(components: C) -> (a: Self)
        ensures
            a.components == components,
            a.config == (CastConfig {
                spawn_location: SpawnLocation::Source,
                inherit_transform: true,
                inherit_velocity: true,
                inherit_faction: true,
            }),
    {
        DynamicAbility { components, config: CastConfig::default() }
    }

    pub fn with_config(self, config: CastConfig) -> (a: Self)
        ensures
            a.components == self.components,
            a.config == config,
    {
        DynamicAbility { config, ..self }
    }
}

/// Marks a cast object with the object that cast it.
#[derive(Copy, Clone, Debug, PartialEq, Eq, Structural)]
pub struct CastBy {
    pub entity: Entity,
}

/// What a cast aims at.
#[derive(Copy, Clone, Debug)]
pub enum IntendedTarget {
    Entity(Entity),
    Position(glam::Vec3),
    /// Aimed at nothing: the cast stays where it comes from.
    Nothing,
}

/// A target with its position found.
#[derive(Copy, Clone, Debug)]
pub struct ResolvedTarget {
    pub entity: Option<Entity>,
    pub position: glam::Vec3,
}

/// Why a target or a cast could not be resolved.
#[derive(Copy, Clone, Debug, PartialEq, Eq, Structural)]
pub enum CastError {
    /// The cast aims at nothing.
    NoTarget,
    /// The target object has no position in the world.
    MissingTarget,
    /// The object the cast comes from has no position in the world.
    MissingSource,
}

/// Finds where `target` is. `entity_position` is the position of the target
/// object, when the target is an object and it has one.
pub fn resolve_target(target: IntendedTarget, entity_position: Option<glam::Vec3>) -> (r: Result<
    ResolvedTarget,
    CastError,
>)
    ensures
        match target {
            IntendedTarget::Entity(e) => match entity_position {
                Some(p) => r == Ok::<ResolvedTarget, CastError>(
                    ResolvedTarget { entity: Some(e), position: p },
                ),
                None => r == Err::<ResolvedTarget, CastError>(CastError::MissingTarget),
            },
            IntendedTarget::Position(p) => r == Ok::<ResolvedTarget, CastError>(
                ResolvedTarget { entity: None, position: p },
            ),
            IntendedTarget::Nothing => r == Err::<ResolvedTarget, CastError>(CastError::NoTarget),
        },
{
    match target {
        IntendedTarget::Entity(entity) => match entity_position {
            Some(position) => Ok(ResolvedTarget { entity: Some(entity), position }),
            None => Err(CastError::MissingTarget),
        },
        IntendedTarget::Position(position) => Ok(ResolvedTarget { entity: None, position }),
        IntendedTarget::Nothing => Err(CastError::NoTarget),
    }
}

/// A cast made by another cast object: which one, and which of how many
/// casts this is.
#[derive(Copy, Clone, Debug, PartialEq, Eq, Structural)]
pub struct SubCast {
    pub parent: Entity,
    pub num_casts: i32,
    pub cast_index: i32,
}

/// A request to cast `ability` for `caster`.
#[derive(Clone, Debug)]
pub struct CastDynamicAbility<C> {
    pub ability: DynamicAbility<C>,
    pub caster: Entity,
    pub target: IntendedTarget,
    pub sub_cast: Option<SubCast>,
}

impl<C> CastDynamicAbility<C> {
    /// A cast from `caster` aimed at nothing.
    pub fn at_caster(ability: DynamicAbility<C>, caster: Entity) -> (e: Self)
        ensures
            e.ability == ability,
            e.caster == caster,
            e.target is Nothing,
            e.sub_cast is None,
    {
        CastDynamicAbility { ability, caster, target: IntendedTarget::Nothing, sub_cast: None }
    }

    /// Marks the cast as number `cast_index` of the `num_casts` casts made
    /// by `parent_ability`.
    pub fn with_sub_cast(self, parent_ability: Entity, num_casts: i32, cast_index: i32) -> (e:
        Self)
        ensures
            e.ability == self.ability,
            e.caster == self.caster,
            e.target == self.target,
            e.sub_cast == Some(
                SubCast { parent: parent_ability, num_casts, cast_index },
            ),
    {
        CastDynamicAbility {
            sub_cast: Some(SubCast { parent: parent_ability, num_casts, cast_index }),
            ..self
        }
    }

    pub fn with_target_entity(self, target: Entity) -> (e: Self)
        ensures
            e.ability == self.ability,
            e.caster == self.caster,
            e.target == IntendedTarget::Entity(target),
            e.sub_cast == self.sub_cast,
    {
        CastDynamicAbility { target: IntendedTarget::Entity(target), ..self }
    }

    pub fn with_target_position(self, position: glam::Vec3) -> (e: Self)
        ensures
            e.ability == self.ability,
            e.caster == self.caster,
            e.target == IntendedTarget::Position(position),
            e.sub_cast == self.sub_cast,
    {
        CastDynamicAbility { target: IntendedTarget::Position(position), ..self }
    }

    /// The object the cast comes from: the parent cast object of a sub-cast,
    /// else the caster.
    pub fn root_entity(&self) -> (root: Entity)
        ensures
            root == match self.sub_cast {
                Some(s) => s.parent,
                None => self.caster,
            },
    {
        match self.sub_cast {
            Some(s) => s.parent,
            None => self.caster,
        }
    }
}

/// What the game world knows of the object a cast comes from.
#[derive(Copy, Clone, Debug)]
pub struct CastSource {
    pub position: glam::Vec3,
    pub faction: Option<Faction>,
    pub has_velocity: bool,
}

/// How to set up the object that a cast creates.
#[derive(Copy, Clone, Debug)]
pub struct CastPlan {
    /// The object credited with the cast.
    pub caster: Entity,
    /// What the cast aims at, kept on the new object.
    pub target: IntendedTarget,
    /// Which of the casts of a sub-cast this is.
    pub sub_cast_info: Option<SubCastInfo>,
    /// Where the new object appears.
    pub position: glam::Vec3,
    /// Whether it takes the source's rotation.
    pub inherit_rotation: bool,
    /// The side it fights on, if it takes one.
    pub faction: Option<Faction>,
    /// Whether it takes the source's velocity (else it starts at rest).
    pub inherit_velocity: bool,
}

/// Where a cast aims, given the source's position and, for an object
/// target, that object's position.
pub open spec fn aimed_position(
    target: IntendedTarget,
    source_position: glam::Vec3,
    target_position: glam::Vec3,
) -> glam::Vec3 {
    match target {
        IntendedTarget::Entity(_) => target_position,
        IntendedTarget::Position(p) => p,
        IntendedTarget::Nothing => source_position,
    }
}

/// Plans the object a cast creates. `source` is what is known of the cast's
/// root object (`None` when it has no position); `target_position` is the
/// position of the target object, when the cast aims at an object that has
/// one.
pub fn plan_cast<C>(
    event: &CastDynamicAbility<C>,
    source: Option<CastSource>,
    target_position: Option<glam::Vec3>,
) -> (r: Result<CastPlan, CastError>)
    ensures
        source is None ==> r == Err::<CastPlan, CastError>(CastError::MissingSource),
        source is Some && event.target is Entity && target_position is None ==> r == Err::<
            CastPlan,
            CastError,
        >(CastError::MissingTarget),
        source is Some && !(event.target is Entity && target_position is None) ==> r is Ok,
        r matches Ok(plan) ==> {
            let src = source->0;
            let config = event.ability.config;
            &&& plan.caster == event.caster
            &&& plan.target == event.target
            &&& plan.sub_cast_info == match event.sub_cast {
                Some(s) => Some(SubCastInfo::spec_new(s.cast_index, s.num_casts)),
                None => None::<SubCastInfo>,
            }
            &&& plan.position == match config.spawn_location {
                SpawnLocation::Source => src.position,
                SpawnLocation::Target => aimed_position(
                    event.target,
                    src.position,
                    target_position->0,
                ),
            }
            &&& plan.inherit_rotation == config.inherit_transform
            &&& plan.faction == if config.inherit_faction {
                src.faction
            } else {
                None::<Faction>
            }
            &&& plan.inherit_velocity == (config.inherit_velocity && src.has_velocity)
        },
{
    let src = match source {
        Some(s) => s,
        None => {
            return Err(CastError::MissingSource);
        },
    };
    let aimed = match event.target {
        IntendedTarget::Entity(_) => match target_position {
            Some(p) => p,
            None => {
                return Err(CastError::MissingTarget);
            },
        },
        IntendedTarget::Position(p) => p,
        IntendedTarget::Nothing => src.position,
    };
    let sub_cast_info = match event.sub_cast {
        Some(s) => Some(SubCastInfo::new(s.cast_index, s.num_casts)),
        None => None,
    };
    let config = event.ability.config;
    let position = match config.spawn_location {
        SpawnLocation::Source => src.position,
        SpawnLocation::Target => aimed,
    };
    Ok(CastPlan {
        caster: event.caster,
        target: event.target,
        sub_cast_info,
        position,
        inherit_rotation: config.inherit_transform,
        faction: if config.inherit_faction {
            src.faction
        } else {
            None
        },
        inherit_velocity: config.inherit_velocity && src.has_velocity,
    })
}

/// What a basic ability is cast with.
#[derive(Copy, Clone, Debug)]
pub struct CastInfo {
    pub caster: Entity,
    pub target_position: glam::Vec3,
    pub target_entity: Option<Entity>,
}

/// What a projectile attack is cast with.
#[derive(Copy, Clone, Debug)]
pub struct BasicProjectileAttackParams {
    pub target_position: glam::Vec3,
}

/// Where a dash goes: along a direction, or towards a position.
#[derive(Copy, Clone, Debug)]
pub enum DashParams {
    Directional(glam::Vec3),
    ToPosition(glam::Vec3),
}

/// What a missile volley is cast with.
#[derive(Copy, Clone, Debug, PartialEq, Eq, Structural)]
pub struct MissileParams {
    pub target_entity: Entity,
}

/// What a missile flies at: an object it follows, or a position it has
/// locked onto.
#[derive(Copy, Clone, Debug)]
pub enum MissileTarget {
    Entity(Entity),
    Locked(glam::Vec3),
}

/// A missile has spent its tracking share of its life: `elapsed` of
/// `max_lifetime` nanoseconds have passed, and `tracking_share` is the share
/// of the lifetime spent tracking, in thousandths (700 tracks for the first
/// 70% of the flight).
pub open spec fn tracking_over(elapsed: u64, max_lifetime: u64, tracking_share: u32) -> bool {
    elapsed * 1000 >= tracking_share * max_lifetime
}

impl MissileTarget {
    /// A missile follows its target object for the first `tracking_share`
    /// thousandths of its lifetime; once that share has passed it locks
    /// onto where the object then is, so that the object can dodge it.
    /// `target_position` is the followed object's position, when it still
    /// has one; a missile already locked keeps its position.
    pub fn lock_on(
        self,
        target_position: Option<glam::Vec3>,
        elapsed: u64,
        max_lifetime: u64,
        tracking_share: u32,
    ) -> (t: Self)
        ensures
            t == match (self, target_position) {
                (MissileTarget::Entity(_), Some(p)) => if tracking_over(
                    elapsed,
                    max_lifetime,
                    tracking_share,
                ) {
                    MissileTarget::Locked(p)
                } else {
                    self
                },
                _ => self,
            },
    {
        match (self, target_position) {
            (MissileTarget::Entity(_), Some(p)) => {
                let share = tracking_share as u128;
                let max = max_lifetime as u128;
                assert(share * max <= 0xffff_ffffu128 * 0xffff_ffff_ffff_ffffu128) by (nonlinear_arith)
                    requires
                        share <= 0xffff_ffffu128,
                        max <= 0xffff_ffff_ffff_ffffu128,
                ;
                let over = (elapsed as u128) * 1000 >= share * max;
                if over {
                    MissileTarget::Locked(p)
                } else {
                    self
                }
            },
            _ => self,
        }
    }
}

/// A volley of missiles all start out following the cast's target object.
pub fn missile_targets(params: MissileParams, missile_count: i32) -> (targets: Vec<MissileTarget>)
    ensures
        targets@.len() == if missile_count > 0 {
            missile_count as int
        } else {
            0
        },
        forall|i: int|
            0 <= i < targets@.len() ==> targets@[i] == MissileTarget::Entity(params.target_entity),
{
    let mut targets: Vec<MissileTarget> = Vec::new();
    let mut i: i32 = 0;
    while i < missile_count
        invariant
            0 <= i,
            missile_count > 0 ==> i <= missile_count,
            missile_count <= 0 ==> i == 0,
            targets@.len() == i,
            forall|j: int|
                0 <= j < targets@.len() ==> targets@[j] == MissileTarget::Entity(
                    params.target_entity,
                ),
        decreases missile_count - i,
    {
        targets.push(MissileTarget::Entity(params.target_entity));
        i = i + 1;
    }
    targets
}

} // verus!
