use glam::Vec3;
use rune_arena::ability::{
    plan_cast, resolve_target, CastConfig, CastDynamicAbility, CastError, CastSource,
    DynamicAbility, IntendedTarget, MissileParams, MissileTarget, SpawnLocation,
};
use rune_arena::components::{
    plugin, select_nearest_target, sub_cast_volley, ComponentPlugin, Lifetime, LifetimeAction,
    LifetimePhase, SeekCandidate, SubCastInfo, SubCastOnce, TimedSubCast,
};
use rune_arena::entity::{Entity, Faction};
use rune_arena::modifiers::projectile_count_modifier;

fn e(bits: u64) -> Entity {
    Entity { bits }
}

#[test]
fn default_cast_config_inherits_everything_from_source() {
    let c = CastConfig::default();
    assert_eq!(c.spawn_location, SpawnLocation::Source);
    assert!(c.inherit_transform && c.inherit_velocity && c.inherit_faction);
    let a = DynamicAbility::from_components(1u8);
    assert_eq!(a.config, c);
}

#[test]
fn resolving_targets() {
    let p = Vec3::new(1.0, 2.0, 3.0);
    let r = resolve_target(IntendedTarget::Entity(e(5)), Some(p)).unwrap();
    assert_eq!(r.entity, Some(e(5)));
    assert_eq!(r.position, p);
    assert_eq!(resolve_target(IntendedTarget::Entity(e(5)), None).unwrap_err(), CastError::MissingTarget);
    let r = resolve_target(IntendedTarget::Position(p), None).unwrap();
    assert_eq!(r.entity, None);
    assert_eq!(resolve_target(IntendedTarget::Nothing, Some(p)).unwrap_err(), CastError::NoTarget);
}

#[test]
fn cast_plan_at_source_with_inherited_side() {
    let src = CastSource { position: Vec3::new(1.0, 0.0, 0.0), faction: Some(Faction::Friendly), has_velocity: true };
    let ev = CastDynamicAbility::at_caster(DynamicAbility::from_components(()), e(1))
        .with_target_position(Vec3::new(9.0, 0.0, 9.0));
    let plan = plan_cast(&ev, Some(src), None).unwrap();
    assert_eq!(plan.caster, e(1));
    assert_eq!(plan.position, Vec3::new(1.0, 0.0, 0.0));
    assert_eq!(plan.faction, Some(Faction::Friendly));
    assert!(plan.inherit_rotation);
    assert!(plan.inherit_velocity);
    assert!(plan.sub_cast_info.is_none());
}

#[test]
fn cast_plan_at_target_without_inheritance() {
    let config = CastConfig {
        spawn_location: SpawnLocation::Target,
        inherit_transform: false,
        inherit_velocity: true,
        inherit_faction: false,
    };
    let src = CastSource { position: Vec3::ZERO, faction: Some(Faction::Enemy), has_velocity: false };
    let ev = CastDynamicAbility::at_caster(DynamicAbility::from_components(()).with_config(config), e(1))
        .with_target_entity(e(2))
        .with_sub_cast(e(3), 4, 2);
    assert_eq!(ev.root_entity(), e(3));
    let target_pos = Vec3::new(5.0, 0.0, 5.0);
    let plan = plan_cast(&ev, Some(src), Some(target_pos)).unwrap();
    assert_eq!(plan.position, target_pos);
    assert_eq!(plan.faction, None);
    assert!(!plan.inherit_rotation);
    assert!(!plan.inherit_velocity);
    let info = plan.sub_cast_info.unwrap();
    assert_eq!((info.index(), info.num_casts()), (2, 4));
    assert_eq!(plan_cast(&ev, Some(src), None).unwrap_err(), CastError::MissingTarget);
    assert_eq!(plan_cast(&ev, None, Some(target_pos)).unwrap_err(), CastError::MissingSource);
}

#[test]
fn untargeted_cast_at_target_appears_at_source() {
    let config = CastConfig { spawn_location: SpawnLocation::Target, ..CastConfig::default() };
    let src = CastSource { position: Vec3::new(2.0, 0.0, 0.0), faction: None, has_velocity: true };
    let ev = CastDynamicAbility::at_caster(DynamicAbility::from_components(()).with_config(config), e(1));
    let plan = plan_cast(&ev, Some(src), None).unwrap();
    assert_eq!(plan.position, Vec3::new(2.0, 0.0, 0.0));
}

#[test]
fn missiles_follow_then_lock() {
    let targets = missile_targets_for(3);
    assert_eq!(targets.len(), 3);
    let p = Vec3::new(4.0, 0.0, 0.0);
    let t = MissileTarget::Entity(e(7));
    // Tracks for the first 70% of a 1000 ns flight, however far the target.
    assert!(matches!(t.lock_on(Some(p), 699, 1000, 700), MissileTarget::Entity(x) if x == e(7)));
    assert!(matches!(t.lock_on(Some(p), 700, 1000, 700), MissileTarget::Locked(q) if q == p));
    assert!(matches!(t.lock_on(None, 900, 1000, 700), MissileTarget::Entity(_)));
    let locked = MissileTarget::Locked(p);
    assert!(matches!(locked.lock_on(Some(Vec3::ZERO), 900, 1000, 700), MissileTarget::Locked(q) if q == p));
    assert!(missile_targets_for(0).is_empty());
    assert!(missile_targets_for(-2).is_empty());
}

fn missile_targets_for(n: i32) -> Vec<MissileTarget> {
    rune_arena::ability::missile_targets(MissileParams { target_entity: e(7) }, n)
}

#[test]
fn component_plugins_in_order() {
    assert_eq!(
        plugin(),
        vec![
            ComponentPlugin::Projectile,
            ComponentPlugin::Subcast,
            ComponentPlugin::Spawn,
            ComponentPlugin::Common,
            ComponentPlugin::Blast,
            ComponentPlugin::Events,
            ComponentPlugin::Visual,
            ComponentPlugin::Dash,
        ]
    );
}

#[test]
fn sub_cast_volley_numbers_its_casts() {
    let ability = DynamicAbility::from_components(3u16);
    let pos = Vec3::new(0.0, 1.0, 0.0);
    let v = sub_cast_volley(&ability, e(1), e(9), pos, 3);
    assert_eq!(v.len(), 3);
    for (i, c) in v.iter().enumerate() {
        assert_eq!(c.caster, e(1));
        assert_eq!(c.ability.components, 3);
        let s = c.sub_cast.unwrap();
        assert_eq!((s.parent, s.num_casts, s.cast_index), (e(9), 3, i as i32));
        assert!(matches!(c.target, IntendedTarget::Position(p) if p == pos));
    }
    assert!(sub_cast_volley(&ability, e(1), e(9), pos, 0).is_empty());
    let once = SubCastOnce::new(ability, 2).modified_by(projectile_count_modifier());
    assert_eq!(once.num_casts, 2);
    assert_eq!(once.modified_by.unwrap().as_str(), "projectile-count");
    assert_eq!(SubCastInfo::new(1, 5).index(), 1);
}

#[test]
fn timed_sub_cast_fires_repeats_plus_one_volleys() {
    let mut t = TimedSubCast::new_repeating(DynamicAbility::from_components(()), 2, 10, 2);
    let mut volleys = 0;
    let mut done = false;
    let mut steps = 0;
    while !done && steps < 100 {
        let (fire, gone) = t.advance(4);
        if fire {
            volleys += 1;
        }
        done = gone;
        steps += 1;
    }
    assert!(done);
    assert_eq!(volleys, 3);
    let mut once = TimedSubCast::new_once(DynamicAbility::from_components(()), 1, 5);
    assert_eq!(once.advance(4), (false, false));
    assert_eq!(once.advance(1), (true, true));
}

#[test]
fn lifetime_phases() {
    let mut l = Lifetime::fixed(100);
    assert!(l.just_spawned());
    // An unscaled fixed lifetime starts with its base duration, whatever
    // scaled duration is offered.
    assert_eq!(l.advance(10, 7), LifetimeAction::Nothing);
    assert!(matches!(l.phase(), LifetimePhase::Alive { duration: 100, elapsed: 0 }));
    l.advance(100, 100);
    assert!(matches!(l.phase(), LifetimePhase::Alive { elapsed: 100, .. }));
    l.advance(1, 100);
    assert!(l.just_died());
    assert_eq!(l.advance(1, 100), LifetimeAction::Despawn);

    let mut d = Lifetime::dynamic();
    assert_eq!(d.advance(10, 5), LifetimeAction::Nothing);
    assert!(d.just_spawned());
    assert_eq!(d.set_dynamic_duration(30), Ok(()));
    assert!(matches!(d.phase(), LifetimePhase::Alive { duration: 30, elapsed: 0 }));
    assert_eq!(
        d.set_dynamic_duration(30),
        Err("Can only set duration for dynamic lifetime sources")
    );
    assert!(Lifetime::fixed_with_modifier(5, projectile_count_modifier()).just_spawned());
}

#[test]
fn seeker_picks_nearest_hostile_strictly_within_range() {
    let cands = vec![
        SeekCandidate { entity: e(1), distance: 5, faction: Some(Faction::Friendly) },
        SeekCandidate { entity: e(2), distance: 8, faction: Some(Faction::Enemy) },
        SeekCandidate { entity: e(3), distance: 8, faction: None },
        SeekCandidate { entity: e(4), distance: 10, faction: Some(Faction::Enemy) },
    ];
    assert_eq!(select_nearest_target(&cands, Some(Faction::Friendly), 20), Some(e(2)));
    assert_eq!(select_nearest_target(&cands, None, 20), Some(e(1)));
    assert_eq!(select_nearest_target(&cands, Some(Faction::Friendly), 8), None);
}

#[test]
fn scaled_lifetime_starts_with_the_scaled_duration() {
    let mut l = Lifetime::fixed_with_modifier(100, projectile_count_modifier());
    l.advance(0, 250);
    assert!(matches!(l.phase(), LifetimePhase::Alive { duration: 250, elapsed: 0 }));
}

#[test]
fn fixed_lifetime_despawns_two_steps_after_its_age_passes() {
    // d = 10, delta = 3: ages 0, 3, 6, 9, then 12 > 10 dies; m = 4.
    let mut l = Lifetime::fixed(10);
    let mut calls = 0;
    loop {
        calls += 1;
        if l.advance(3, 0) == LifetimeAction::Despawn {
            break;
        }
        assert!(calls < 100);
    }
    assert_eq!(calls, 6);
}
