//! Enemy registry and wave spawning.
//!
//! Each wave has a budget of enemy slots equal to its level. Enemies are
//! drawn at random among those whose minimum level is reached and whose slot
//! cost still fits the remaining budget, until the budget is spent.

use vstd::prelude::*;

use crate::text::{decimal, labelled_number, str_equal};
use crate::timer::{fresh_timer, ticked, Timer, TimerMode};

verus! {

/// Name under which an enemy kind is registered.
#[derive(Clone, Copy, Debug)]
pub struct EnemyID(pub &'static str);

impl EnemyID {
    pub fn as_str(&self) -> (s: &'static str)
        ensures
            s@ == self.0@,
    {
        self.0
    }
}

/// When and how expensively an enemy kind may appear in a wave.
#[derive(Clone, Copy, Debug)]
pub struct EnemyConfig {
    pub min_level: i32,
    pub max_level: Option<i32>,
    pub num_slots: i32,
}

impl Default for EnemyConfig {
    fn default() -> (c: Self)
        ensures
            c.min_level == 0,
            c.max_level is None,
            c.num_slots == 1,
    {
        EnemyConfig { min_level: 0, max_level: None, num_slots: 1 }
    }
}

/// A registered enemy kind: its name, its spawn rules and the components
/// that make up a spawned enemy of this kind.
#[derive(Clone, Debug)]
pub struct Enemy<C> {
    id: EnemyID,
    config: EnemyConfig,
    components: C,
}

impl<C> Enemy<C> {
    pub closed spec fn spec_id(&self) -> EnemyID {
        self.id
    }

    pub closed spec fn spec_config(&self) -> EnemyConfig {
        self.config
    }

    pub closed spec fn spec_components(&self) -> C {
        self.components
    }

    pub fn id(&self) -> (id: EnemyID)
        ensures
            id == self.spec_id(),
    {
        self.id
    }

    pub fn config(&self) -> (c: EnemyConfig)
        ensures
            c == self.spec_config(),
    {
        self.config
    }

    /// The components that are added to each spawned enemy of this kind.
    pub fn components(&self) -> (c: &C)
        ensures
            *c == self.spec_components(),
    {
        &self.components
    }

    pub fn from_components(id: &'static str, components: C) -> (e: Self)
        ensures
            e.spec_id().0@ == id@,
            e.spec_config().min_level == 0,
            e.spec_config().max_level is None,
            e.spec_config().num_slots == 1,
            e.spec_components() == components,
    {
        Enemy { id: EnemyID(id), config: EnemyConfig::default(), components }
    }

    pub fn with_min_level(self, level: i32) -> (e: Self)
        ensures
            e.spec_id() == self.spec_id(),
            e.spec_components() == self.spec_components(),
            e.spec_config() == (EnemyConfig { min_level: level, ..self.spec_config() }),
    {
        let mut e = self;
        e.config.min_level = level;
        e
    }

    pub fn with_num_slots(self, num_slots: i32) -> (e: Self)
        ensures
            e.spec_id() == self.spec_id(),
            e.spec_components() == self.spec_components(),
            e.spec_config() == (EnemyConfig { num_slots: num_slots, ..self.spec_config() }),
    {
        let mut e = self;
        e.config.num_slots = num_slots;
        e
    }
}

/// All enemy kinds known to the spawner, in registration order.
pub struct EnemyRegistry<C> {
    enemies: Vec<Enemy<C>>,
}

impl<C> View for EnemyRegistry<C> {
    type V = Seq<Enemy<C>>;

    closed spec fn view(&self) -> Seq<Enemy<C>> {
        self.enemies@
    }
}

/// The spawn rules of the registered kinds, in registration order.
pub open spec fn configs_of<C>(enemies: Seq<Enemy<C>>) -> Seq<EnemyConfig> {
    enemies.map_values(|e: Enemy<C>| e.spec_config())
}

impl<C> EnemyRegistry<C> {
    pub fn new() -> (r: Self)
        ensures
            r@ == Seq::<Enemy<C>>::empty(),
    {
        EnemyRegistry { enemies: Vec::new() }
    }

    pub fn register_enemy(&mut self, enemy: Enemy<C>)
        ensures
            final(self)@ == old(self)@.push(enemy),
    {
        self.enemies.push(enemy);
    }

    /// The registered kinds, in registration order.
    pub fn enemies(&self) -> (e: &[Enemy<C>])
        ensures
            e@ == self@,
    {
        self.enemies.as_slice()
    }

    /// The first registered kind whose name is `id`, if any.
    pub fn get(&self, id: &str) -> (found: Option<&Enemy<C>>)
        ensures
            match found {
                Some(e) => exists|i: int|
                    0 <= i < self@.len() && self@[i] == *e && self@[i].spec_id().0@ == id@
                        && forall|j: int| 0 <= j < i ==> self@[j].spec_id().0@ != id@,
                None => forall|j: int| 0 <= j < self@.len() ==> self@[j].spec_id().0@ != id@,
            },
    {
        let mut i: usize = 0;
        while i < self.enemies.len()
            invariant
                i <= self@.len(),
                self@ == self.enemies@,
                forall|j: int| 0 <= j < i ==> self@[j].spec_id().0@ != id@,
            decreases self.enemies.len() - i,
        {
            let e = &self.enemies[i];
            if str_equal(e.id.0, id) {
                return Some(e);
            }
            i = i + 1;
        }
        None
    }
}

/// Whether an enemy kind may be drawn for a wave of level `level` with
/// `slots` slots of budget left.
pub open spec fn eligible(c: EnemyConfig, level: int, slots: int) -> bool {
    level >= c.min_level && slots >= c.num_slots
}

/// Whether drawing a wave of level `level` with `slots` slots of budget left
/// always finishes, whatever the random draws: there is always an eligible
/// kind, every eligible kind costs at least one slot, and every draw leads to
/// a budget from which the wave again always finishes.
pub open spec fn wave_completes(configs: Seq<EnemyConfig>, level: int, slots: int) -> bool
    decreases slots,
{
    if slots <= 0 {
        true
    } else {
        &&& exists|i: int| 0 <= i < configs.len() && eligible(configs[i], level, slots)
        &&& forall|i: int|
            0 <= i < configs.len() && eligible(configs[i], level, slots) ==> {
                &&& configs[i].num_slots >= 1
                &&& wave_completes(configs, level, slots - configs[i].num_slots)
            }
    }
}

/// Whether `picks` is a possible sequence of draws for a wave of level
/// `level` that starts with `slots` slots: each pick is a registered kind
/// that is eligible for the budget left before it, and the picks use up the
/// budget exactly.
pub open spec fn valid_draws(configs: Seq<EnemyConfig>, level: int, slots: int, picks: Seq<usize>) -> bool
    decreases picks.len(),
{
    if picks.len() == 0 {
        slots <= 0
    } else {
        &&& slots > 0
        &&& picks[0] < configs.len()
        &&& eligible(configs[picks[0] as int], level, slots)
        &&& valid_draws(configs, level, slots - configs[picks[0] as int].num_slots, picks.drop_first())
    }
}

/// Total slot cost of a sequence of picks.
pub open spec fn slot_cost(configs: Seq<EnemyConfig>, picks: Seq<usize>) -> int
    decreases picks.len(),
{
    if picks.len() == 0 {
        0
    } else {
        configs[picks[0] as int].num_slots + slot_cost(configs, picks.drop_first())
    }
}

/// Whether every draw of a wave of level `level` from `registry` runs to
/// the end (see [`wave_completes`]); the spawner only draws such waves.
pub fn wave_always_completes<C>(registry: &EnemyRegistry<C>, level: i32) -> (ok: bool)
    ensures
        ok == wave_completes(configs_of(registry@), level as int, level as int),
{
    let ghost configs = configs_of(registry@);
    if level <= 0 {
        return true;
    }
    let n = registry.enemies.len();
    let top = level as usize;
    let mut table: Vec<bool> = Vec::new();
    table.push(true);
    let mut s: usize = 1;
    while s <= top
        invariant
            configs == configs_of(registry@),
            n == registry@.len(),
            top == level,
            1 <= s <= top + 1,
            table@.len() == s,
            forall|x: int| 0 <= x < s ==> #[trigger] table@[x] == wave_completes(configs, level as int, x),
        decreases top + 1 - s,
    {
        let mut any = false;
        let mut all = true;
        let mut j: usize = 0;
        while j < n
            invariant
                configs == configs_of(registry@),
                n == registry@.len(),
                top == level,
                1 <= s <= top,
                table@.len() == s,
                forall|x: int| 0 <= x < s ==> #[trigger] table@[x] == wave_completes(configs, level as int, x),
                j <= n,
                any == exists|i: int| 0 <= i < j && eligible(configs[i], level as int, s as int),
                all == forall|i: int|
                    0 <= i < j && eligible(configs[i], level as int, s as int) ==> {
                        &&& configs[i].num_slots >= 1
                        &&& wave_completes(configs, level as int, s - configs[i].num_slots)
                    },
            decreases n - j,
        {
            let c = registry.enemies[j].config();
            assert(c == configs[j as int]);
            if level >= c.min_level && (s as i64) >= (c.num_slots as i64) {
                any = true;
                if c.num_slots < 1 {
                    all = false;
                } else {
                    let rest = s - (c.num_slots as usize);
                    if !table[rest] {
                        all = false;
                    }
                }
            }
            j = j + 1;
        }
        table.push(any && all);
        s = s + 1;
    }
    table[top]
}

/// Picks one of `candidates` at random.
///
/// Calls `fastrand::choice`, which returns `None` for an empty iterator and
/// otherwise an item of the iterator at a random index; which item is left
/// unsaid.
#[verifier::external_body]
fn choose_candidate(candidates: &Vec<usize>) -> (picked: Option<usize>)
    ensures
        candidates@.len() == 0 <==> picked is None,
        picked matches Some(i) ==> candidates@.contains(i),
{
    fastrand::choice(candidates.iter()).copied()
}

/// The registry indices below `upto` of the kinds eligible for a wave of
/// level `level` with `slots` slots left, in ascending order.
pub open spec fn eligible_indices(configs: Seq<EnemyConfig>, level: int, slots: int, upto: int) -> Seq<usize>
    decreases upto,
{
    if upto <= 0 {
        Seq::empty()
    } else {
        let before = eligible_indices(configs, level, slots, upto - 1);
        if eligible(configs[upto - 1], level, slots) {
            before.push((upto - 1) as usize)
        } else {
            before
        }
    }
}

/// The kinds listed as eligible are exactly the eligible ones among the
/// first `upto`, each below `upto`.
pub proof fn law_eligible_kinds_are_exactly_the_eligible(configs: Seq<EnemyConfig>, level: int, slots: int, upto: int)
    requires
        0 <= upto <= configs.len(),
        configs.len() <= usize::MAX,
    ensures
        forall|i: int|
            0 <= i < configs.len() ==> (#[trigger] eligible_indices(configs, level, slots, upto).contains(
                i as usize,
            ) <==> (i < upto && eligible(configs[i], level, slots))),
        forall|x: int|
            0 <= x < eligible_indices(configs, level, slots, upto).len() ==> {
                let k = #[trigger] eligible_indices(configs, level, slots, upto)[x];
                &&& k < upto
                &&& eligible(configs[k as int], level, slots)
            },
    decreases upto,
{
    if upto > 0 {
        law_eligible_kinds_are_exactly_the_eligible(configs, level, slots, upto - 1);
        let before = eligible_indices(configs, level, slots, upto - 1);
        let now = eligible_indices(configs, level, slots, upto);
        assert forall|i: int| 0 <= i < configs.len() implies (#[trigger] now.contains(i as usize) <==> (i
            < upto && eligible(configs[i], level, slots))) by {
            if eligible(configs[upto - 1], level, slots) {
                assert(now == before.push((upto - 1) as usize));
                if now.contains(i as usize) && i as usize != (upto - 1) as usize {
                    let w = choose|w: int| 0 <= w < now.len() && now[w] == i as usize;
                    assert(before[w] == i as usize);
                }
                if before.contains(i as usize) {
                    let w = choose|w: int| 0 <= w < before.len() && before[w] == i as usize;
                    assert(now[w] == i as usize);
                }
                if i == upto - 1 {
                    assert(now[now.len() - 1] == i as usize);
                }
            }
        }
    }
}

/// The kinds that may be drawn for a wave of level `level` with `slots`
/// slots of budget left: their registry indices, in ascending order.
pub fn eligible_kinds<C>(registry: &EnemyRegistry<C>, level: i32, slots: i32) -> (k: Vec<usize>)
    ensures
        k@ == eligible_indices(configs_of(registry@), level as int, slots as int, registry@.len() as int),
{
    let ghost configs = configs_of(registry@);
    let n = registry.enemies.len();
    let mut k: Vec<usize> = Vec::new();
    let mut i: usize = 0;
    while i < n
        invariant
            n == registry@.len(),
            configs == configs_of(registry@),
            i <= n,
            k@ == eligible_indices(configs, level as int, slots as int, i as int),
        decreases n - i,
    {
        let c = registry.enemies[i].config;
        assert(c == configs[i as int]);
        if level >= c.min_level && slots >= c.num_slots {
            k.push(i);
        }
        i = i + 1;
    }
    k
}

/// Draws the kinds of a wave of level `level`: while budget is left, picks
/// one at random among all the kinds still eligible (see [`eligible_kinds`])
/// and takes its cost off the budget.
///
/// Returns the registry indices of the drawn kinds, in draw order.
pub fn draw_wave<C>(registry: &EnemyRegistry<C>, level: i32) -> (picks: Vec<usize>)
    requires
        wave_completes(configs_of(registry@), level as int, level as int),
    ensures
        valid_draws(configs_of(registry@), level as int, level as int, picks@),
        slot_cost(configs_of(registry@), picks@) == if level >= 0 { level as int } else { 0 },
{
    let ghost configs = configs_of(registry@);
    let n = registry.enemies.len();
    let mut slots: i32 = level;
    let mut picks: Vec<usize> = Vec::new();
    while slots > 0
        invariant
            n == registry@.len(),
            configs == configs_of(registry@),
            configs.len() == n,
            slots <= level,
            wave_completes(configs, level as int, slots as int),
            forall|tail: Seq<usize>|
                valid_draws(configs, level as int, slots as int, tail) ==> valid_draws(
                    configs,
                    level as int,
                    level as int,
                    picks@ + tail,
                ),
        decreases slots,
    {
        let candidates = eligible_kinds(registry, level, slots);
        let picked = choose_candidate(&candidates);
        proof {
            law_eligible_kinds_are_exactly_the_eligible(configs, level as int, slots as int, n as int);
            let w = choose|i: int| 0 <= i < configs.len() && eligible(configs[i], level as int, slots as int);
            assert(candidates@.contains(w as usize));
        }
        let p = match picked {
            Some(p) => p,
            None => { proof { assert(false); } 0 },
        };
        let cost = registry.enemies[p].config.num_slots;
        proof {
            let ci = choose|x: int| 0 <= x < candidates@.len() && candidates@[x] == p;
            assert(candidates@[ci] < n);
            assert(eligible(configs[p as int], level as int, slots as int));
            assert forall|tail: Seq<usize>|
                valid_draws(configs, level as int, (slots - cost) as int, tail) implies valid_draws(
                    configs,
                    level as int,
                    level as int,
                    picks@.push(p) + tail,
                ) by {
                let t2 = seq![p] + tail;
                assert(t2.drop_first() =~= tail);
                assert(valid_draws(configs, level as int, slots as int, t2));
                assert(picks@ + t2 =~= picks@.push(p) + tail);
            }
        }
        picks.push(p);
        slots = slots - cost;
    }
    proof {
        assert(valid_draws(configs, level as int, slots as int, Seq::<usize>::empty()));
        assert(picks@ + Seq::<usize>::empty() =~= picks@);
        lemma_draws_spend_budget(configs, level as int, level as int, picks@);
    }
    picks
}

/// A valid sequence of draws spends the whole budget it started with.
pub proof fn lemma_draws_spend_budget(configs: Seq<EnemyConfig>, level: int, slots: int, picks: Seq<usize>)
    requires
        valid_draws(configs, level, slots, picks),
    ensures
        slot_cost(configs, picks) == if slots >= 0 { slots } else { 0 },
    decreases picks.len(),
{
    if picks.len() > 0 {
        lemma_draws_spend_budget(configs, level, slots - configs[picks[0] as int].num_slots, picks.drop_first());
    }
}

/// Whether the roster has a kind that costs a single slot and is allowed
/// from level `level` on, while every kind costs at least one slot.
pub open spec fn has_filler(configs: Seq<EnemyConfig>, level: int) -> bool {
    &&& exists|i: int| 0 <= i < configs.len() && configs[i].min_level <= level && configs[i].num_slots == 1
    &&& forall|i: int| 0 <= i < configs.len() ==> #[trigger] configs[i].num_slots >= 1
}

/// A roster with a one-slot kind that is allowed at `level`, and no kind
/// cheaper than one slot, can always finish drawing a wave of that level,
/// whatever budget is left.
pub proof fn lemma_filler_completes(configs: Seq<EnemyConfig>, level: int, slots: int)
    requires
        has_filler(configs, level),
    ensures
        wave_completes(configs, level, slots),
    decreases slots,
{
    if slots > 0 {
        let f = choose|i: int| 0 <= i < configs.len() && configs[i].min_level <= level && configs[i].num_slots == 1;
        assert(eligible(configs[f], level, slots));
        assert forall|i: int|
            0 <= i < configs.len() && eligible(configs[i], level, slots) implies {
                &&& configs[i].num_slots >= 1
                &&& wave_completes(configs, level, slots - configs[i].num_slots)
            } by {
            assert(configs[i].num_slots >= 1);
            lemma_filler_completes(configs, level, slots - configs[i].num_slots);
        }
    }
}

/// Registry of the game's enemy kinds, given the components of each kind:
/// "rusher" (one slot), "small-ranger" (two slots), "spiral-shooter" (seven
/// slots) and "star-blaster" (ten slots, from level 15 on), in that order.
pub fn game_roster<C>(rusher: C, small_ranger: C, spiral_shooter: C, star_blaster: C) -> (r: EnemyRegistry<C>)
    ensures
        r@.len() == 4,
        r@[0].spec_id().0@ == "rusher"@,
        r@[1].spec_id().0@ == "small-ranger"@,
        r@[2].spec_id().0@ == "spiral-shooter"@,
        r@[3].spec_id().0@ == "star-blaster"@,
        r@[0].spec_components() == rusher,
        r@[1].spec_components() == small_ranger,
        r@[2].spec_components() == spiral_shooter,
        r@[3].spec_components() == star_blaster,
        configs_of(r@) == seq![
            EnemyConfig { min_level: 0, max_level: None, num_slots: 1 },
            EnemyConfig { min_level: 0, max_level: None, num_slots: 2 },
            EnemyConfig { min_level: 0, max_level: None, num_slots: 7 },
            EnemyConfig { min_level: 15, max_level: None, num_slots: 10 },
        ],
{
    let mut registry = EnemyRegistry::new();
    registry.register_enemy(Enemy::from_components("rusher", rusher).with_num_slots(1));
    registry.register_enemy(Enemy::from_components("small-ranger", small_ranger).with_num_slots(2));
    registry.register_enemy(Enemy::from_components("spiral-shooter", spiral_shooter).with_num_slots(7));
    registry.register_enemy(
        Enemy::from_components("star-blaster", star_blaster).with_min_level(15).with_num_slots(10),
    );
    proof {
        assert(configs_of(registry@) =~= seq![
            EnemyConfig { min_level: 0, max_level: None, num_slots: 1 },
            EnemyConfig { min_level: 0, max_level: None, num_slots: 2 },
            EnemyConfig { min_level: 0, max_level: None, num_slots: 7 },
            EnemyConfig { min_level: 15, max_level: None, num_slots: 10 },
        ]);
    }
    registry
}

/// Every wave of non-negative level can be drawn from the game's roster to
/// the end, whatever the random draws: the one-slot rusher is always
/// eligible while budget is left.
pub proof fn lemma_game_roster_never_stalls<C>(roster: EnemyRegistry<C>, level: int)
    requires
        configs_of(roster@) == seq![
            EnemyConfig { min_level: 0, max_level: None, num_slots: 1 },
            EnemyConfig { min_level: 0, max_level: None, num_slots: 2 },
            EnemyConfig { min_level: 0, max_level: None, num_slots: 7 },
            EnemyConfig { min_level: 15, max_level: None, num_slots: 10 },
        ],
        level >= 0,
    ensures
        wave_completes(configs_of(roster@), level, level),
{
    let configs = configs_of(roster@);
    assert(configs[0].min_level <= level && configs[0].num_slots == 1);
    assert forall|i: int| 0 <= i < configs.len() implies #[trigger] configs[i].num_slots >= 1 by {
        assert(configs.len() == 4);
    }
    lemma_filler_completes(configs, level, level);
}

/// The spawner's wave timer and the number of waves spawned so far.
pub struct SpawnerState {
    pub wave_timer: Timer,
    pub wave_index: i32,
}

/// Time between waves, in nanoseconds.
pub const WAVE_INTERVAL_NANOS: u64 = 10_000_000_000;

impl SpawnerState {
    /// No wave yet, and a repeating ten-second wave timer.
    pub fn new() -> (s: Self)
        ensures
            s.wave_index == 0,
            s.wave_timer@ == fresh_timer(WAVE_INTERVAL_NANOS, TimerMode::Repeating),
    {
        SpawnerState {
            wave_timer: Timer::from_duration(WAVE_INTERVAL_NANOS, TimerMode::Repeating),
            wave_index: 0,
        }
    }

    /// The level of the wave that is about to spawn: one more than the
    /// number of waves spawned so far.
    pub fn level(&self) -> (l: i32)
        requires
            self.wave_index < i32::MAX,
        ensures
            l == self.wave_index + 1,
    {
        self.wave_index + 1
    }

    /// Handles one tick of the wave timer. When the timer has just run out,
    /// draws the next wave from `registry` and counts it; otherwise nothing
    /// happens.
    pub fn on_wave_timer<C>(&mut self, timer_finished: bool, registry: &EnemyRegistry<C>) -> (picks: Option<Vec<usize>>)
        requires
            old(self).wave_index < i32::MAX,
            timer_finished ==> wave_completes(
                configs_of(registry@),
                old(self).wave_index + 1,
                old(self).wave_index + 1,
            ),
        ensures
            timer_finished ==> {
                &&& final(self).wave_index == old(self).wave_index + 1
                &&& picks matches Some(p) && valid_draws(
                    configs_of(registry@),
                    old(self).wave_index + 1,
                    old(self).wave_index + 1,
                    p@,
                )
            },
            !timer_finished ==> final(self).wave_index == old(self).wave_index && picks is None,
            final(self).wave_timer@ == old(self).wave_timer@,
    {
        if timer_finished {
            let level = self.level();
            let picks = draw_wave(registry, level);
            self.wave_index = self.wave_index + 1;
            Some(picks)
        } else {
            None
        }
    }
}

impl SpawnerState {
    /// Lets `delta` nanoseconds of game time pass. The wave timer runs ten
    /// times as fast while no enemy is alive; when it runs out, the next
    /// wave is drawn from `registry` and counted, and the timer starts
    /// over from zero: time by which the tick overran the interval is not
    /// carried into the next wave.
    pub fn advance<C>(&mut self, delta: u64, alive_enemies: usize, registry: &EnemyRegistry<C>) -> (picks:
        Option<Vec<usize>>)
        requires
            delta <= u64::MAX / 10,
            old(self).wave_index < i32::MAX,
            ticked(
                old(self).wave_timer@,
                (delta * if alive_enemies == 0 {
                    10int
                } else {
                    1int
                }) as u64,
            ).times_finished_this_tick > 0 ==> wave_completes(
                configs_of(registry@),
                old(self).wave_index + 1,
                old(self).wave_index + 1,
            ),
        ensures
            ({
                let t = ticked(
                    old(self).wave_timer@,
                    (delta * if alive_enemies == 0 {
                        10int
                    } else {
                        1int
                    }) as u64,
                );
                if t.times_finished_this_tick > 0 {
                    &&& final(self).wave_timer@ == fresh_timer(t.duration, t.mode)
                    &&& final(self).wave_index == old(self).wave_index + 1
                    &&& picks matches Some(p) && valid_draws(
                        configs_of(registry@),
                        old(self).wave_index + 1,
                        old(self).wave_index + 1,
                        p@,
                    )
                } else {
                    &&& final(self).wave_timer@ == t
                    &&& final(self).wave_index == old(self).wave_index
                    &&& picks is None
                }
            }),
    {
        let scaled = delta * (wave_time_scale(alive_enemies) as u64);
        self.wave_timer.tick(scaled);
        let finished = self.wave_timer.just_finished();
        let picks = self.on_wave_timer(finished, registry);
        if finished {
            self.wave_timer.reset();
        }
        picks
    }

    /// The wave counter shown on the HUD.
    pub fn wave_text(&self) -> (t: String)
        ensures
            t@ == "Wave "@ + decimal(self.wave_index as int),
    {
        labelled_number("Wave ", self.wave_index as i64)
    }
}

/// How much faster the wave timer runs: ten times as fast while no enemy
/// of the last waves is alive, at normal speed otherwise.
pub fn wave_time_scale(alive_enemies: usize) -> (scale: u32)
    ensures
        scale == if alive_enemies == 0 { 10u32 } else { 1u32 },
{
    if alive_enemies == 0 { 10 } else { 1 }
}

} // verus!
