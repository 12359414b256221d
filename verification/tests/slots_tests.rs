use glam::Vec3;
use rune_arena::ability::{DynamicAbility, IntendedTarget};
use rune_arena::entity::Entity;
use rune_arena::keymap::AbilityKeymap;
use rune_arena::slots::{
    nearest_candidate, resolve_targeting, AbilitySlots, AbilityTargeting, SlotId, SlottedAbility,
    TargetCandidate, TriggerAbilitySlot,
};

#[test]
fn slot_out_of_range_is_refused() {
    let mut slots: AbilitySlots<u8> = AbilitySlots::new(2);
    assert_eq!(slots.set_ability(SlotId(5), 7), Err("Slot 5 out of range".to_string()));
    assert_eq!(slots.set_ability(SlotId(1), 7), Ok(()));
    assert_eq!(slots.get_ability(SlotId(1)), Some(&7));
    assert_eq!(slots.get_ability(SlotId(0)), None);
    assert_eq!(slots.get_ability(SlotId(9)), None);
}

#[test]
fn available_and_occupied_slots_partition() {
    let mut slots: AbilitySlots<u8> = AbilitySlots::new(4);
    slots.set_ability(SlotId(1), 1).unwrap();
    slots.set_ability(SlotId(3), 3).unwrap();
    assert_eq!(slots.available_slots(), vec![SlotId(0), SlotId(2)]);
    assert_eq!(slots.occupied_slots(), vec![SlotId(1), SlotId(3)]);
    slots.clear_slot(SlotId(1));
    assert_eq!(slots.occupied_slots(), vec![SlotId(3)]);
    assert_eq!(slots.slot_count(), 4);
}

#[test]
fn with_abilities_fills_slots_in_order() {
    let slots = AbilitySlots::with_abilities(vec![10u8, 20, 30]);
    assert_eq!(slots.slot_count(), 3);
    assert_eq!(slots.get_ability(SlotId(0)), Some(&10));
    assert_eq!(slots.get_ability(SlotId(2)), Some(&30));
    assert!(slots.available_slots().is_empty());
}

#[test]
fn keymap_binds_and_unbinds() {
    let mut k = AbilityKeymap::new();
    k.bind_key(32, SlotId(1)).bind_mouse(0, SlotId(0)).bind_key(81, SlotId(1));
    assert_eq!(k.get_slot_for_key(&32), Some(SlotId(1)));
    assert_eq!(k.get_slot_for_mouse(&0), Some(SlotId(0)));
    let mut keys = k.get_keys_for_slot(SlotId(1));
    keys.sort();
    assert_eq!(keys, vec![32, 81]);
    assert_eq!(k.get_mouse_buttons_for_slot(SlotId(0)), vec![0]);
    k.unbind_key(&32);
    assert_eq!(k.get_slot_for_key(&32), None);
    k.unbind_mouse(&0);
    assert_eq!(k.get_slot_for_mouse(&0), None);
}

#[test]
fn pressed_inputs_trigger_their_slots_keys_first() {
    let mut k = AbilityKeymap::new();
    k.bind_key(32, SlotId(1)).bind_mouse(0, SlotId(0));
    let ids = k.slots_to_trigger(&vec![5, 32], &vec![0, 2]);
    assert_eq!(ids, vec![SlotId(1), SlotId(0)]);
    assert_eq!(TriggerAbilitySlot::from_id(SlotId(3)).slot_id, SlotId(3));
}

#[test]
fn nearest_candidate_picks_first_closest_in_range() {
    let e = |b| Entity { bits: b };
    let cands = vec![
        TargetCandidate { entity: e(1), distance: 50 },
        TargetCandidate { entity: e(2), distance: 20 },
        TargetCandidate { entity: e(3), distance: 20 },
        TargetCandidate { entity: e(4), distance: 5 },
    ];
    assert_eq!(nearest_candidate(&cands, 30).map(|c| c.entity), Some(e(4)));
    assert_eq!(nearest_candidate(&cands[..3].to_vec(), 30).map(|c| c.entity), Some(e(2)));
    assert_eq!(nearest_candidate(&cands, 4), None);
}

#[test]
fn targeting_resolution() {
    let cursor = Vec3::new(1.0, 0.0, 2.0);
    let cands = vec![TargetCandidate { entity: Entity { bits: 9 }, distance: 3 }];
    match resolve_targeting(AbilityTargeting::Cursor, Some(cursor), &cands) {
        IntendedTarget::Position(p) => assert_eq!(p, cursor),
        _ => panic!("cursor targeting must aim at the cursor"),
    }
    match resolve_targeting(AbilityTargeting::NearestEnemyToCursor { max_range: 10 }, Some(cursor), &cands) {
        IntendedTarget::Entity(x) => assert_eq!(x, Entity { bits: 9 }),
        _ => panic!("an enemy in range must be chosen"),
    }
    match resolve_targeting(AbilityTargeting::NearestEnemyToCursor { max_range: 1 }, Some(cursor), &cands) {
        IntendedTarget::Position(p) => assert_eq!(p, cursor),
        _ => panic!("with no enemy in range the cursor is the target"),
    }
    assert!(matches!(resolve_targeting(AbilityTargeting::Cursor, None, &cands), IntendedTarget::Nothing));
    assert!(matches!(resolve_targeting(AbilityTargeting::SelfCast, Some(cursor), &cands), IntendedTarget::Nothing));
}

#[test]
fn triggering_a_slot_casts_and_starts_cooldown() {
    let ability = DynamicAbility::from_components(7u32);
    let mut slots = AbilitySlots::with_abilities(vec![SlottedAbility::new(
        ability,
        AbilityTargeting::Cursor,
        100,
    )]);
    let caster = Entity { bits: 42 };
    let cursor = Some(Vec3::new(3.0, 0.0, 4.0));
    // A new ability starts ready.
    assert!(slots.get_ability(SlotId(0)).unwrap().is_ready());
    assert_eq!(slots.get_ability(SlotId(0)).unwrap().remaining_cooldown(), 0);
    let cast = slots.trigger_slot(SlotId(0), caster, cursor, &vec![]).expect("ready ability casts");
    assert_eq!(cast.caster, caster);
    assert_eq!(cast.ability.components, 7);
    assert!(matches!(cast.target, IntendedTarget::Position(_)));
    assert!(cast.sub_cast.is_none());
    // On cooldown now.
    assert!(slots.trigger_slot(SlotId(0), caster, cursor, &vec![]).is_none());
    assert_eq!(slots.get_ability(SlotId(0)).unwrap().remaining_cooldown(), 100);
    slots.update_cooldowns(60);
    assert_eq!(slots.get_ability(SlotId(0)).unwrap().remaining_cooldown(), 40);
    assert!(slots.trigger_slot(SlotId(0), caster, cursor, &vec![]).is_none());
    slots.update_cooldowns(40);
    assert_eq!(slots.get_ability(SlotId(0)).unwrap().remaining_cooldown(), 0);
    assert!(slots.trigger_slot(SlotId(0), caster, cursor, &vec![]).is_some());
    // Missing and empty slots cast nothing.
    assert!(slots.trigger_slot(SlotId(3), caster, cursor, &vec![]).is_none());
}

#[test]
fn abilities_can_be_changed_in_place() {
    let mut slots: AbilitySlots<u8> = AbilitySlots::new(2);
    assert!(slots.get_ability_mut(SlotId(0)).is_none());
    slots.set_ability(SlotId(0), 4).unwrap();
    if let Some(a) = slots.get_ability_mut(SlotId(0)) {
        *a = 9;
    }
    assert_eq!(slots.get_ability(SlotId(0)), Some(&9));
    assert!(slots.get_ability_mut(SlotId(7)).is_none());
}
