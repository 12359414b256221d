//! Score, kill combos, and the two states the game can be in.

use vstd::prelude::*;

use crate::entity::{contains_entity, Entity};
use crate::health::HealthPool;
use crate::text::{decimal, labelled_number};
use crate::timer::{fresh_timer, ticked, Timer, TimerMode};

verus! {

/// Whether a round is running or over.
#[derive(Copy, Clone, Debug, PartialEq, Eq, Hash, Structural)]
pub enum GameState {
    Playing,
    GameOver,
}

impl Default for GameState {
    fn default() -> (s: Self)
        ensures
            s == GameState::Playing,
    {
        GameState::Playing
    }
}

/// How long a combo lasts after the last kill, in nanoseconds.
pub const COMBO_WINDOW_NANOS: u64 = 3_000_000_000;

/// Points for any kill.
pub const BASE_KILL_POINTS: i32 = 100;

/// Extra points per combo level above the first.
pub const COMBO_BONUS_POINTS: i32 = 50;

/// The player's score for the current round.
#[derive(Copy, Clone, Debug)]
pub struct GameScore {
    pub current: i32,
    pub kills: i32,
    pub combo: i32,
    pub combo_timer: Timer,
}

impl Default for GameScore {
    fn default() -> (s: Self)
        ensures
            s.current == 0,
            s.kills == 0,
            s.combo == 0,
            s.combo_timer@ == fresh_timer(COMBO_WINDOW_NANOS, TimerMode::Once),
    {
        GameScore {
            current: 0,
            kills: 0,
            combo: 0,
            combo_timer: Timer::from_duration(COMBO_WINDOW_NANOS, TimerMode::Once),
        }
    }
}

/// Points for a kill that brings the combo to `combo`.
pub open spec fn kill_points(combo: int) -> int {
    BASE_KILL_POINTS + (combo - 1) * COMBO_BONUS_POINTS
}

/// One more kill can be counted without leaving the range of `i32`.
pub open spec fn kill_fits(s: GameScore) -> bool {
    &&& s.kills < i32::MAX
    &&& s.combo < i32::MAX
    &&& i32::MIN <= s.combo * COMBO_BONUS_POINTS <= i32::MAX
    &&& i32::MIN <= kill_points(s.combo + 1) <= i32::MAX
    &&& i32::MIN <= s.current + kill_points(s.combo + 1) <= i32::MAX
}

/// `after` is `before` with one kill by the player counted: one more kill,
/// one more combo level, the kill's points added, and the combo window
/// started over.
pub open spec fn counts_kill(before: GameScore, after: GameScore) -> bool {
    &&& after.current == before.current + kill_points(before.combo + 1)
    &&& after.kills == before.kills + 1
    &&& after.combo == before.combo + 1
    &&& after.combo_timer@ == fresh_timer(before.combo_timer@.duration, before.combo_timer@.mode)
}

impl GameScore {
    /// Counts a kill by the player: the combo grows by one and its window
    /// starts over, and the kill is worth 100 points plus 50 for each combo
    /// level above the first.
    pub fn register_kill(&mut self)
        requires
            kill_fits(*old(self)),
        ensures
            counts_kill(*old(self), *final(self)),
    {
        self.kills = self.kills + 1;
        self.combo = self.combo + 1;
        self.combo_timer.reset();
        let combo_bonus = (self.combo - 1) * COMBO_BONUS_POINTS;
        let points_earned = BASE_KILL_POINTS + combo_bonus;
        self.current = self.current + points_earned;
    }

    /// Whether one more kill can be counted without leaving the range of
    /// `i32`.
    pub fn can_count_kill(&self) -> (ok: bool)
        ensures
            ok == kill_fits(*self),
    {
        self.kills < i32::MAX && self.combo < i32::MAX && self.combo <= 42949672 && self.combo
            >= -42949672 && {
            let points = (BASE_KILL_POINTS as i64) + (self.combo as i64) * (COMBO_BONUS_POINTS as i64);
            points <= i32::MAX as i64 && points >= i32::MIN as i64 && (self.current as i64) + points
                <= i32::MAX as i64 && (self.current as i64) + points >= i32::MIN as i64
        }
    }

    /// Lets `delta` nanoseconds pass; a combo whose window has run out drops
    /// to zero.
    pub fn update_combo(&mut self, delta: u64)
        ensures
            final(self).combo_timer@ == ticked(old(self).combo_timer@, delta),
            final(self).combo == if ticked(old(self).combo_timer@, delta).finished && old(
                self,
            ).combo > 0 {
                0
            } else {
                old(self).combo
            },
            final(self).current == old(self).current,
            final(self).kills == old(self).kills,
    {
        self.combo_timer.tick(delta);
        if self.combo_timer.finished() && self.combo > 0 {
            self.combo = 0;
        }
    }

    /// The combo level to show, if there is a combo worth showing: two kills
    /// or more.
    pub fn combo_multiplier(&self) -> (m: Option<i32>)
        ensures
            m == if self.combo > 1 {
                Some(self.combo)
            } else {
                None::<i32>
            },
    {
        if self.combo > 1 {
            Some(self.combo)
        } else {
            None
        }
    }

    /// The final score line of the game-over screen.
    pub fn final_score_text(&self) -> (t: String)
        ensures
            t@ == "Final Score: "@ + decimal(self.current as int),
    {
        labelled_number("Final Score: ", self.current as i64)
    }

    /// The kill count line of the game-over screen.
    pub fn kills_text(&self) -> (t: String)
        ensures
            t@ == "Enemies Defeated: "@ + decimal(self.kills as int),
    {
        labelled_number("Enemies Defeated: ", self.kills as i64)
    }
}

/// A hit scores when it leaves its target at zero health or below, the
/// target is not a player, and the hit came from a player.
pub open spec fn hit_scores(
    health_after: int,
    target: Entity,
    source: Option<Entity>,
    players: Seq<Entity>,
) -> bool {
    &&& health_after <= 0
    &&& !players.contains(target)
    &&& source matches Some(s) && players.contains(s)
}

/// Applies one damage event to its target's health pool and, when the hit
/// kills a non-player by the player's hand, counts the kill. Returns whether
/// it counted.
pub fn apply_damage_event(
    pool: &mut HealthPool,
    score: &mut GameScore,
    target: Entity,
    source: Option<Entity>,
    damage: i32,
    players: &Vec<Entity>,
) -> (scored: bool)
    requires
        i32::MIN <= old(pool).current_health - damage <= i32::MAX,
        hit_scores(old(pool).current_health - damage, target, source, players@) ==> kill_fits(
            *old(score),
        ),
    ensures
        final(pool).current_health == old(pool).current_health - damage,
        final(pool).max_health == old(pool).max_health,
        final(pool).regen == old(pool).regen,
        scored == hit_scores(old(pool).current_health - damage, target, source, players@),
        scored ==> counts_kill(*old(score), *final(score)),
        !scored ==> *final(score) == *old(score),
{
    pool.take_damage(damage);
    if pool.is_dead() {
        if !contains_entity(players, target) {
            if let Some(s) = source {
                if contains_entity(players, s) {
                    score.register_kill();
                    return true;
                }
            }
        }
    }
    false
}

/// What the game-over screen does with the keys pressed this frame.
#[derive(Copy, Clone, Debug, PartialEq, Eq, Structural)]
pub struct GameOverAction {
    pub next_state: Option<GameState>,
    pub exit: bool,
}

/// `R` starts a new round; `Escape` quits.
pub fn game_over_input(restart_pressed: bool, quit_pressed: bool) -> (a: GameOverAction)
    ensures
        a.next_state == if restart_pressed {
            Some(GameState::Playing)
        } else {
            None::<GameState>
        },
        a.exit == quit_pressed,
{
    GameOverAction {
        next_state: if restart_pressed {
            Some(GameState::Playing)
        } else {
            None
        },
        exit: quit_pressed,
    }
}

/// The state to move to after this frame's deaths: a round ends when the
/// player dies.
pub fn state_after_deaths(player_died: bool) -> (next: Option<GameState>)
    ensures
        next == if player_died {
            Some(GameState::GameOver)
        } else {
            None::<GameState>
        },
{
    if player_died {
        Some(GameState::GameOver)
    } else {
        None
    }
}

/// Within an unbroken combo, each kill is worth 50 points more than the one
/// before it.
pub proof fn law_each_combo_kill_worth_fifty_more(a: GameScore, b: GameScore, c: GameScore)
    requires
        counts_kill(a, b),
        counts_kill(b, c),
    ensures
        c.current - b.current == (b.current - a.current) + COMBO_BONUS_POINTS,
{
}

/// Starting from a fresh score, `n` kills in one combo make
/// `100 n + 50 n (n - 1) / 2` points.
pub open spec fn combo_total(n: nat) -> int
    decreases n,
{
    if n == 0 {
        0
    } else {
        combo_total((n - 1) as nat) + kill_points(n as int)
    }
}

pub proof fn law_combo_total_closed_form(n: nat)
    ensures
        combo_total(n) == 100 * n + 25 * n * (n - 1),
    decreases n,
{
    if n > 0 {
        let k = (n - 1) as nat;
        law_combo_total_closed_form(k);
        assert(combo_total(n) == combo_total(k) + 100 + k * 50);
        assert(100 * n + 25 * n * (n - 1) == 100 * k + 25 * k * (k - 1) + 100 + k * 50)
            by (nonlinear_arith)
            requires
                k == n - 1,
        ;
        assert(combo_total(k) == 100 * k + 25 * k * (k - 1));
        assert(combo_total(n) == 100 * n + 25 * n * (n - 1));
    } else {
        assert(combo_total(n) == 0);
        assert(25 * n * (n - 1) == 0);
    }
}

} // verus!
