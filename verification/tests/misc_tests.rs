use glam::Vec3;
use rune_arena::ability::{DynamicAbility, IntendedTarget};
use rune_arena::enemy::{ContactDamage, ContactTarget, DespawnTimer, SingleAbilityTimed};
use rune_arena::entity::{blast_may_hit, collision_may_damage, contains_entity, may_target, Entity, Faction};
use rune_arena::health::{deaths_among, npc_deaths_to_despawn, player_died, Health, HealthBundle, HealthPool, RegenTick};
use rune_arena::localization::{language_name, Language, LocalizationResource};
use rune_arena::modifiers::{aoe_radius_modifier, damage_modifier, player_speed_modifier, projectile_duration_modifier, projectile_speed_modifier};
use rune_arena::player::{player_abilities, player_health, player_keymap};
use rune_arena::slots::{AbilityTargeting, SlotId};
use rune_arena::text::{i32_to_string, i64_to_string, labelled_number, str_equal, usize_to_string};
use rune_arena::ui::{damage_text, health_text, no_modifiers_text, popup_rows, stats_screen_change, RunePopupManager, ScreenChange};

fn e(bits: u64) -> Entity {
    Entity { bits }
}

#[test]
fn decimal_texts() {
    assert_eq!(i32_to_string(0), "0");
    assert_eq!(i32_to_string(-45), "-45");
    assert_eq!(i64_to_string(i64::MIN), "-9223372036854775808");
    assert_eq!(usize_to_string(1200), "1200");
    assert_eq!(labelled_number("x=", 7), "x=7");
    assert!(str_equal("abc", "abc"));
    assert!(!str_equal("abc", "abd"));
}

#[test]
fn hud_texts() {
    assert_eq!(damage_text(12), "-12");
    assert_eq!(health_text(37, 100), "37 / 100");
    assert_eq!(no_modifiers_text(), "No modifiers active");
}

#[test]
fn popups_take_rows_until_the_screen_is_clear() {
    let mut m = RunePopupManager::default();
    assert_eq!(m.claim_slot(), 0);
    assert_eq!(m.claim_slot(), 1);
    m.release_when_empty(1);
    assert_eq!(m.claim_slot(), 2);
    m.release_when_empty(0);
    assert_eq!(m.claim_slot(), 0);
}

#[test]
fn stats_screen_follows_the_key() {
    assert_eq!(stats_screen_change(true, false), ScreenChange::Show);
    assert_eq!(stats_screen_change(false, true), ScreenChange::Hide);
    assert_eq!(stats_screen_change(true, true), ScreenChange::Keep);
    assert_eq!(stats_screen_change(false, false), ScreenChange::Keep);
}

#[test]
fn health_pools() {
    let b = HealthBundle::new(50, 2);
    assert_eq!((b.pool.current_health, b.pool.max_health, b.pool.regen), (50, 50, 2));
    assert_eq!(b.health, Health::new(50, 2));
    let mut p = HealthPool { current_health: 49, max_health: 50, regen: 2 };
    p.apply_regen();
    assert_eq!(p.current_health, 50);
    p.take_damage(60);
    assert_eq!(p.current_health, -10);
    assert!(p.is_dead());
    p.heal(15);
    assert_eq!(p.current_health, 5);
    assert!(!p.is_dead());
}

#[test]
fn regeneration_once_a_second() {
    let mut t = RegenTick::default();
    assert!(!t.due(1_000_000_000));
    assert!(t.due(1_000_000_001));
    assert_eq!(t.last_regen_tick, 1_000_000_001);
    assert!(!t.due(1_500_000_000));
    assert!(t.due(2_100_000_000));
}

#[test]
fn deaths_and_despawns() {
    let ents = vec![e(1), e(2), e(3)];
    let pools = vec![
        HealthPool { current_health: 0, max_health: 10, regen: 0 },
        HealthPool { current_health: 5, max_health: 10, regen: 0 },
        HealthPool { current_health: -2, max_health: 10, regen: 0 },
    ];
    let dead = deaths_among(&ents, &pools);
    assert_eq!(dead, vec![e(1), e(3)]);
    assert_eq!(npc_deaths_to_despawn(&dead, &vec![e(3), e(2)]), vec![e(3)]);
    assert!(player_died(&dead, &vec![e(1)]));
    assert!(!player_died(&dead, &vec![e(2)]));
    assert!(contains_entity(&ents, e(2)));
    assert!(!contains_entity(&ents, e(9)));
}

#[test]
fn factions() {
    assert!(!blast_may_hit(e(1), e(1), None, None));
    assert!(!blast_may_hit(e(1), e(2), Some(Faction::Enemy), Some(Faction::Enemy)));
    assert!(blast_may_hit(e(1), e(2), Some(Faction::Enemy), Some(Faction::Friendly)));
    assert!(blast_may_hit(e(1), e(2), Some(Faction::Enemy), None));
    assert!(collision_may_damage(Faction::Friendly, Faction::Enemy));
    assert!(!collision_may_damage(Faction::Enemy, Faction::Enemy));
    assert!(may_target(None, Some(Faction::Enemy)));
    assert!(!may_target(Some(Faction::Friendly), Some(Faction::Friendly)));
}

#[test]
fn languages_cycle() {
    let mut l = LocalizationResource::default();
    assert_eq!(l.current_language, Language::UsEnglish);
    l.cycle_language();
    assert_eq!(l.current_language, Language::German);
    l.cycle_language();
    assert_eq!(l.current_language, Language::SwissGerman);
    l.cycle_language();
    assert_eq!(l.current_language, Language::UsEnglish);
    l.switch_language(Language::Other);
    l.cycle_language();
    assert_eq!(l.current_language, Language::UsEnglish);
    assert_eq!(language_name(Language::German), "Deutsch");
    assert_eq!(language_name(Language::SwissGerman), "Schwiizerdütsch");
    assert_eq!(language_name(Language::Other), "Unknown");
    assert_eq!(l.stat_key(damage_modifier()), "stat-basic-damage");
}

#[test]
fn modifier_names() {
    assert_eq!(player_speed_modifier().as_str(), "player-speed");
    assert_eq!(projectile_speed_modifier().as_str(), "projectile-speed");
    assert_eq!(projectile_duration_modifier().as_str(), "projectile-duration");
    assert_eq!(aoe_radius_modifier().as_str(), "aoe-radius");
}

#[test]
fn contact_damage_hits_first_foe_in_reach_then_rests() {
    let mut c = ContactDamage::new(10, 100).with_self_damage(3);
    let me = e(1);
    let targets = vec![
        ContactTarget { entity: e(1), faction: Faction::Friendly, in_reach: true },
        ContactTarget { entity: e(2), faction: Faction::Enemy, in_reach: true },
        ContactTarget { entity: e(3), faction: Faction::Friendly, in_reach: false },
        ContactTarget { entity: e(4), faction: Faction::Friendly, in_reach: true },
    ];
    assert!(c.strike(50, me, Faction::Enemy, &targets).is_none());
    let hit = c.strike(50, me, Faction::Enemy, &targets).expect("cooldown over");
    assert_eq!((hit.index, hit.target, hit.damage, hit.self_damage), (3, e(4), 10, Some(3)));
    assert!(c.strike(99, me, Faction::Enemy, &targets).is_none());
    let no_self = ContactDamage::new(4, 0);
    let mut n = no_self;
    let hit = n.strike(0, me, Faction::Enemy, &targets).unwrap();
    assert_eq!(hit.self_damage, None);
}

#[test]
fn timed_ability_casts_every_interval() {
    let mut s = SingleAbilityTimed::new(DynamicAbility::from_components(5u8), 10);
    assert!(s.advance(9, e(1), e(2)).is_none());
    let cast = s.advance(1, e(1), e(2)).unwrap();
    assert_eq!(cast.caster, e(1));
    assert!(matches!(cast.target, IntendedTarget::Entity(t) if t == e(2)));
    assert!(s.advance(9, e(1), e(2)).is_none());
    assert!(s.advance(1, e(1), e(2)).is_some());
}

#[test]
fn despawn_timer_fires_once() {
    let mut d = DespawnTimer::new(10);
    assert!(!d.advance(5));
    assert!(d.advance(5));
    assert!(!d.advance(5));
}

#[test]
fn player_loadout() {
    let slots = player_abilities(DynamicAbility::from_components(1u8), DynamicAbility::from_components(2u8));
    assert_eq!(slots.slot_count(), 2);
    let shot = slots.get_ability(SlotId(0)).unwrap();
    assert_eq!(shot.base_cooldown, 500_000_000);
    assert!(shot.is_ready());
    assert_eq!(shot.targeting, AbilityTargeting::Cursor);
    assert_eq!(slots.get_ability(SlotId(1)).unwrap().base_cooldown, 2_000_000_000);
    let k = player_keymap(0, 32);
    assert_eq!(k.get_slot_for_mouse(&0), Some(SlotId(0)));
    assert_eq!(k.get_slot_for_key(&32), Some(SlotId(1)));
    let h = player_health();
    assert_eq!((h.pool.current_health, h.pool.max_health, h.pool.regen), (100, 100, 0));
    let _ = Vec3::ZERO;
}

#[test]
fn popups_close_ranks_in_order() {
    assert_eq!(popup_rows(&vec![30, 10, 30, 20]), vec![2, 0, 3, 1]);
    assert!(popup_rows(&vec![]).is_empty());
}
