use rune_arena::entity::Entity;
use rune_arena::health::HealthPool;
use rune_arena::score::{
    apply_damage_event, game_over_input, state_after_deaths, GameScore, GameState,
};

fn pool(current: i32) -> HealthPool {
    HealthPool { current_health: current, max_health: 100, regen: 0 }
}

#[test]
fn kills_in_a_combo_are_worth_fifty_more_each() {
    let mut s = GameScore::default();
    s.register_kill();
    assert_eq!((s.current, s.kills, s.combo), (100, 1, 1));
    s.register_kill();
    assert_eq!((s.current, s.kills, s.combo), (250, 2, 2));
    s.register_kill();
    assert_eq!((s.current, s.kills, s.combo), (450, 3, 3));
}

#[test]
fn combo_drops_after_three_seconds_without_a_kill() {
    let mut s = GameScore::default();
    s.register_kill();
    s.register_kill();
    s.update_combo(2_999_999_999);
    assert_eq!(s.combo, 2);
    s.update_combo(1);
    assert_eq!(s.combo, 0);
    assert_eq!(s.current, 250);
    s.register_kill();
    assert_eq!(s.combo, 1);
    assert_eq!(s.current, 350);
}

#[test]
fn combo_is_shown_from_two_kills() {
    let mut s = GameScore::default();
    assert_eq!(s.combo_multiplier(), None);
    s.register_kill();
    assert_eq!(s.combo_multiplier(), None);
    s.register_kill();
    assert_eq!(s.combo_multiplier(), Some(2));
}

#[test]
fn player_kill_of_an_enemy_scores() {
    let player = Entity { bits: 1 };
    let enemy = Entity { bits: 2 };
    let players = vec![player];
    let mut p = pool(10);
    let mut s = GameScore::default();
    assert!(apply_damage_event(&mut p, &mut s, enemy, Some(player), 10, &players));
    assert_eq!(p.current_health, 0);
    assert_eq!(s.kills, 1);
    assert_eq!(s.current, 100);
}

#[test]
fn non_lethal_hits_and_other_sources_do_not_score() {
    let player = Entity { bits: 1 };
    let enemy = Entity { bits: 2 };
    let other = Entity { bits: 3 };
    let players = vec![player];
    let mut s = GameScore::default();

    let mut p = pool(50);
    assert!(!apply_damage_event(&mut p, &mut s, enemy, Some(player), 10, &players));
    assert_eq!(p.current_health, 40);

    let mut p = pool(5);
    assert!(!apply_damage_event(&mut p, &mut s, enemy, Some(other), 10, &players));
    assert_eq!(p.current_health, -5);

    let mut p = pool(5);
    assert!(!apply_damage_event(&mut p, &mut s, enemy, None, 10, &players));

    let mut p = pool(5);
    assert!(!apply_damage_event(&mut p, &mut s, player, Some(player), 10, &players));
    assert_eq!(s.kills, 0);
    assert_eq!(s.current, 0);
}

#[test]
fn overkill_of_a_dead_enemy_scores_again() {
    let player = Entity { bits: 1 };
    let enemy = Entity { bits: 2 };
    let players = vec![player];
    let mut p = pool(-3);
    let mut s = GameScore::default();
    assert!(apply_damage_event(&mut p, &mut s, enemy, Some(player), 1, &players));
    assert_eq!(p.current_health, -4);
    assert_eq!(s.kills, 1);
}

#[test]
fn game_over_screen_texts() {
    let mut s = GameScore::default();
    s.register_kill();
    s.register_kill();
    assert_eq!(s.final_score_text(), "Final Score: 250");
    assert_eq!(s.kills_text(), "Enemies Defeated: 2");
}

#[test]
fn game_over_keys_and_player_death() {
    let a = game_over_input(true, false);
    assert_eq!(a.next_state, Some(GameState::Playing));
    assert!(!a.exit);
    let a = game_over_input(false, true);
    assert_eq!(a.next_state, None);
    assert!(a.exit);
    assert_eq!(state_after_deaths(true), Some(GameState::GameOver));
    assert_eq!(state_after_deaths(false), None);
    assert_eq!(GameState::default(), GameState::Playing);
}
