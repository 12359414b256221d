use rune_arena::spawn::{
    eligible_kinds, wave_always_completes, draw_wave, game_roster, wave_time_scale, Enemy, EnemyConfig, EnemyRegistry, SpawnerState,
};

fn roster() -> EnemyRegistry<&'static str> {
    game_roster("r", "s", "p", "b")
}

fn cost_of(registry: &EnemyRegistry<&'static str>, picks: &[usize]) -> i32 {
    picks.iter().map(|&i| registry.enemies()[i].config().num_slots).sum()
}

#[test]
fn roster_holds_the_four_kinds() {
    let r = roster();
    let ids: Vec<&str> = r.enemies().iter().map(|e| e.id().as_str()).collect();
    assert_eq!(ids, vec!["rusher", "small-ranger", "spiral-shooter", "star-blaster"]);
    let slots: Vec<i32> = r.enemies().iter().map(|e| e.config().num_slots).collect();
    assert_eq!(slots, vec![1, 2, 7, 10]);
    assert_eq!(r.enemies()[3].config().min_level, 15);
    assert_eq!(*r.get("spiral-shooter").unwrap().components(), "p");
    assert!(r.get("dragon").is_none());
}

#[test]
fn waves_spend_their_whole_budget() {
    let r = roster();
    for level in 0..30 {
        let picks = draw_wave(&r, level);
        assert_eq!(cost_of(&r, &picks), level);
        for &p in &picks {
            let c = r.enemies()[p].config();
            assert!(level >= c.min_level);
        }
    }
}

#[test]
fn star_blaster_never_before_level_fifteen() {
    let r = roster();
    for _ in 0..50 {
        let picks = draw_wave(&r, 14);
        assert!(!picks.contains(&3));
    }
}

#[test]
fn first_pick_fits_the_budget() {
    let r = roster();
    for _ in 0..50 {
        let picks = draw_wave(&r, 3);
        assert!(!picks.contains(&2));
        assert!(!picks.is_empty());
    }
}

#[test]
fn registry_lookup_finds_first_match() {
    let mut r: EnemyRegistry<u8> = EnemyRegistry::new();
    r.register_enemy(Enemy::from_components("a", 1).with_num_slots(3));
    r.register_enemy(Enemy::from_components("a", 2));
    assert_eq!(*r.get("a").unwrap().components(), 1);
    assert_eq!(r.get("a").unwrap().config().num_slots, 3);
    let d = EnemyConfig::default();
    assert_eq!((d.min_level, d.max_level, d.num_slots), (0, None, 1));
}

#[test]
fn wave_timer_runs_ten_times_faster_without_enemies() {
    assert_eq!(wave_time_scale(0), 10);
    assert_eq!(wave_time_scale(3), 1);
    let r = roster();
    let mut s = SpawnerState::new();
    assert_eq!(s.wave_index, 0);
    assert!(s.advance(999_999_999, 0, &r).is_none());
    let picks = s.advance(1, 0, &r).expect("ten seconds of wave time have passed");
    assert_eq!(cost_of(&r, &picks), 1);
    assert_eq!(s.wave_index, 1);
    assert_eq!(s.wave_timer.elapsed(), 0);
    assert!(s.advance(9_999_999_999, 5, &r).is_none());
    let picks = s.advance(1, 5, &r).expect("second wave");
    assert_eq!(cost_of(&r, &picks), 2);
    assert_eq!(s.wave_index, 2);
    assert_eq!(s.wave_text(), "Wave 2");
}

#[test]
fn waves_that_can_stall_are_detected() {
    let r = roster();
    for level in 0..40 {
        assert!(wave_always_completes(&r, level));
    }
    let mut only_pairs: EnemyRegistry<u8> = EnemyRegistry::new();
    only_pairs.register_enemy(Enemy::from_components("pair", 0).with_num_slots(2));
    assert!(wave_always_completes(&only_pairs, 4));
    assert!(!wave_always_completes(&only_pairs, 3));
    assert!(wave_always_completes(&only_pairs, 0));
    let empty: EnemyRegistry<u8> = EnemyRegistry::new();
    assert!(!wave_always_completes(&empty, 1));
}

#[test]
fn eligible_kinds_follow_level_and_budget() {
    let r = roster();
    assert_eq!(eligible_kinds(&r, 3, 3), vec![0, 1]);
    assert_eq!(eligible_kinds(&r, 20, 10), vec![0, 1, 2, 3]);
    assert_eq!(eligible_kinds(&r, 14, 10), vec![0, 1, 2]);
    assert_eq!(eligible_kinds(&r, 20, 1), vec![0]);
    assert!(eligible_kinds(&r, 20, 0).is_empty());
}
