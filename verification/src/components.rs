//! Components of cast objects: the groups of systems that drive them, and
//! sub-casts, the casts that a cast object makes in its turn.

use vstd::prelude::*;

use crate::ability::{CastDynamicAbility, DynamicAbility, IntendedTarget, SubCast};
use crate::entity::{may_target, targetable_by, Entity, Faction};
use crate::modifiers::ModifierID;
use crate::timer::{fresh_timer, ticked, timer_wf, Timer, TimerMode, TimerView};

verus! {

/// A group of systems that drive one kind of cast-object component.
#[derive(Copy, Clone, Debug, PartialEq, Eq, Structural)]
pub enum ComponentPlugin {
    Projectile,
    Subcast,
    Spawn,
    Common,
    Blast,
    Events,
    Visual,
    Dash,
}

/// The component groups to install, in the order they are installed.
pub fn plugin() -> (plugins: Vec<ComponentPlugin>)
    ensures
        plugins@ == seq![
            ComponentPlugin::Projectile,
            ComponentPlugin::Subcast,
            ComponentPlugin::Spawn,
            ComponentPlugin::Common,
            ComponentPlugin::Blast,
            ComponentPlugin::Events,
            ComponentPlugin::Visual,
            ComponentPlugin::Dash,
        ],
{
    let mut plugins: Vec<ComponentPlugin> = Vec::new();
    plugins.push(ComponentPlugin::Projectile);
    plugins.push(ComponentPlugin::Subcast);
    plugins.push(ComponentPlugin::Spawn);
    plugins.push(ComponentPlugin::Common);
    plugins.push(ComponentPlugin::Blast);
    plugins.push(ComponentPlugin::Events);
    plugins.push(ComponentPlugin::Visual);
    plugins.push(ComponentPlugin::Dash);
    plugins
}

/// Which of how many casts of a sub-cast an object was made by.
#[derive(Copy, Clone, Debug, PartialEq, Eq, Structural)]
pub struct SubCastInfo {
    index: i32,
    num_casts: i32,
}

impl SubCastInfo {
    pub closed spec fn spec_new(index: i32, num_casts: i32) -> Self {
        SubCastInfo { index, num_casts }
    }

    pub closed spec fn spec_index(&self) -> i32 {
        self.index
    }

    pub closed spec fn spec_num_casts(&self) -> i32 {
        self.num_casts
    }

    pub fn new(index: i32, num_casts: i32) -> (s: Self)
        ensures
            s == Self::spec_new(index, num_casts),
            s.spec_index() == index,
            s.spec_num_casts() == num_casts,
    {
        SubCastInfo { index, num_casts }
    }

    pub fn index(&self) -> (i: i32)
        ensures
            i == self.spec_index(),
    {
        self.index
    }

    pub fn num_casts(&self) -> (n: i32)
        ensures
            n == self.spec_num_casts(),
    {
        self.num_casts
    }
}

/// The casts a cast object makes of `ability` for `caster`: `num_casts`
/// of them, numbered from 0, all aimed at `position` and marked as made by
/// `parent`.
pub open spec fn is_sub_cast_volley<C: Clone>(
    events: Seq<CastDynamicAbility<C>>,
    ability: DynamicAbility<C>,
    caster: Entity,
    parent: Entity,
    position: glam::Vec3,
    num_casts: i32,
) -> bool {
    &&& events.len() == if num_casts > 0 {
        num_casts as int
    } else {
        0
    }
    &&& forall|i: int|
        0 <= i < events.len() ==> {
            let e = #[trigger] events[i];
            &&& e.caster == caster
            &&& e.target == IntendedTarget::Position(position)
            &&& e.sub_cast == Some(SubCast { parent, num_casts, cast_index: i as i32 })
            &&& e.ability.config == ability.config
            &&& cloned(ability.components, e.ability.components)
        }
}

/// The volley of casts a cast object makes: `num_casts` casts of `ability`
/// for `caster`, each aimed at `position` and numbered.
pub fn sub_cast_volley<C: Clone>(
    ability: &DynamicAbility<C>,
    caster: Entity,
    parent: Entity,
    position: glam::Vec3,
    num_casts: i32,
) -> (events: Vec<CastDynamicAbility<C>>)
    ensures
        is_sub_cast_volley(events@, *ability, caster, parent, position, num_casts),
{
    let mut events: Vec<CastDynamicAbility<C>> = Vec::new();
    let mut index: i32 = 0;
    while index < num_casts
        invariant
            0 <= index,
            num_casts > 0 ==> index <= num_casts,
            num_casts <= 0 ==> index == 0,
            events@.len() == index,
            forall|i: int|
                0 <= i < events@.len() ==> {
                    let e = #[trigger] events@[i];
                    &&& e.caster == caster
                    &&& e.target == IntendedTarget::Position(position)
                    &&& e.sub_cast == Some(SubCast { parent, num_casts, cast_index: i as i32 })
                    &&& e.ability.config == ability.config
                    &&& cloned(ability.components, e.ability.components)
                },
        decreases num_casts - index,
    {
        let components = ability.components.clone();
        let copy = DynamicAbility { components, config: ability.config };
        let event = CastDynamicAbility::at_caster(copy, caster).with_target_position(
            position,
        ).with_sub_cast(parent, num_casts, index);
        events.push(event);
        index = index + 1;
    }
    events
}

/// Casts `num_casts` copies of an ability once, then goes away. The count
/// may be scaled by a stat modifier of the caster.
#[derive(Clone, Debug)]
pub struct SubCastOnce<C> {
    pub ability: DynamicAbility<C>,
    pub num_casts: i32,
    pub modified_by: Option<ModifierID>,
}

impl<C> SubCastOnce<C> {
    pub fn new(ability: DynamicAbility<C>, num_casts: i32) -> (s: Self)
        ensures
            s.ability == ability,
            s.num_casts == num_casts,
            s.modified_by is None,
    {
        SubCastOnce { ability, num_casts, modified_by: None }
    }

    pub fn modified_by(self, modifier_id: ModifierID) -> (s: Self)
        ensures
            s.ability == self.ability,
            s.num_casts == self.num_casts,
            s.modified_by == Some(modifier_id),
    {
        SubCastOnce { modified_by: Some(modifier_id), ..self }
    }
}

/// Casts copies of an ability when its owner despawns. The count may be
/// scaled by a stat modifier of the caster.
#[derive(Clone, Debug)]
pub struct CastOnDespawn<C> {
    pub ability: DynamicAbility<C>,
    pub num_casts: i32,
    pub modified_by: Option<ModifierID>,
}

impl<C> CastOnDespawn<C> {
    pub fn new(ability: DynamicAbility<C>, num_casts: i32) -> (s: Self)
        ensures
            s.ability == ability,
            s.num_casts == num_casts,
            s.modified_by is None,
    {
        CastOnDespawn { ability, num_casts, modified_by: None }
    }

    pub fn modified_by(self, modifier_id: ModifierID) -> (s: Self)
        ensures
            s.ability == self.ability,
            s.num_casts == self.num_casts,
            s.modified_by == Some(modifier_id),
    {
        CastOnDespawn { modified_by: Some(modifier_id), ..self }
    }
}

/// Casts copies of an ability after a delay, and again after each further
/// interval as long as repeats are left.
#[derive(Clone, Debug)]
pub struct TimedSubCast<C> {
    pub ability: DynamicAbility<C>,
    pub num_casts_per_interval: i32,
    pub timer: Timer,
    pub num_repeats: i32,
}

impl<C> TimedSubCast<C> {
    /// Casts once, `delay` nanoseconds from now.
    pub fn new_once(ability: DynamicAbility<C>, num_casts_per_interval: i32, delay: u64) -> (s:
        Self)
        ensures
            s.ability == ability,
            s.num_casts_per_interval == num_casts_per_interval,
            s.timer@ == fresh_timer(delay, TimerMode::Once),
            s.num_repeats == 0,
    {
        TimedSubCast {
            ability,
            num_casts_per_interval,
            timer: Timer::from_duration(delay, TimerMode::Once),
            num_repeats: 0,
        }
    }

    /// Casts after each `interval` nanoseconds, `num_repeats + 1` times.
    pub fn new_repeating(
        ability: DynamicAbility<C>,
        num_casts_per_interval: i32,
        interval: u64,
        num_repeats: i32,
    ) -> (s: Self)
        ensures
            s.ability == ability,
            s.num_casts_per_interval == num_casts_per_interval,
            s.timer@ == fresh_timer(interval, TimerMode::Once),
            s.num_repeats == num_repeats,
    {
        TimedSubCast {
            ability,
            num_casts_per_interval,
            timer: Timer::from_duration(interval, TimerMode::Once),
            num_repeats,
        }
    }

    /// Lets `delta` nanoseconds pass. Returns how many casts are due now
    /// (none, or a volley of `num_casts_per_interval`) and whether the
    /// object is done and goes away. After a volley a repeat is used up and
    /// the interval starts over; with no repeat left the object is done.
    pub fn advance(&mut self, delta: u64) -> (r: (bool, bool))
        ensures
            ({
                let (t, left, fire, done) = sub_cast_step(
                    old(self).timer@,
                    old(self).num_repeats as int,
                    delta,
                );
                &&& r == (fire, done)
                &&& final(self).timer@ == t
                &&& final(self).num_repeats == left
                &&& final(self).num_casts_per_interval == old(self).num_casts_per_interval
                &&& final(self).ability == old(self).ability
            }),
            r.0 && !r.1 ==> final(self).timer@.elapsed == 0 && !final(self).timer@.finished
                && final(self).timer@.duration == old(self).timer@.duration,
            timer_wf(final(self).timer@),
    {
        self.timer.tick(delta);
        if self.timer.finished() {
            if self.num_repeats > 0 {
                self.num_repeats = self.num_repeats - 1;
                self.timer.reset();
                (true, false)
            } else {
                (true, true)
            }
        } else {
            (false, false)
        }
    }
}

/// One step of `delta` nanoseconds of a timed sub-cast whose timer is `t`
/// and that has `repeats` repeats left: its timer and repeats afterwards,
/// whether it fires a volley, and whether it is done. It fires when its
/// timer runs out; after a volley a repeat is used up and the interval
/// starts over, and with no repeat left it is done.
pub open spec fn sub_cast_step(t: TimerView, repeats: int, delta: u64) -> (TimerView, int, bool, bool) {
    let ticked_timer = ticked(t, delta);
    let (gone, left) = after_volley(repeats);
    if ticked_timer.finished {
        (
            if gone {
                ticked_timer
            } else {
                fresh_timer(ticked_timer.duration, ticked_timer.mode)
            },
            left,
            true,
            gone,
        )
    } else {
        (ticked_timer, repeats, false, false)
    }
}

/// How many volleys a timed sub-cast fires over the steps `deltas`, and
/// whether it is done by the end; it stops at the step that finishes it.
pub open spec fn sub_cast_life(t: TimerView, repeats: int, deltas: Seq<u64>) -> (nat, bool)
    decreases deltas.len(),
{
    if deltas.len() == 0 {
        (0, false)
    } else {
        let (t2, r2, fire, done) = sub_cast_step(t, repeats, deltas[0]);
        if done {
            (1, true)
        } else {
            let (n, d) = sub_cast_life(t2, r2, deltas.drop_first());
            (n + if fire {
                1nat
            } else {
                0nat
            }, d)
        }
    }
}

/// Over its whole life a timed sub-cast with `r >= 0` repeats fires at most
/// one volley per step and exactly `r + 1` volleys in all: it is done only
/// at a step that fires, and by then it has fired `r + 1` times; until it
/// is done it has fired at most `r` times.
pub proof fn law_timed_sub_cast_whole_life(t: TimerView, repeats: int, deltas: Seq<u64>)
    requires
        repeats >= 0,
    ensures
        sub_cast_life(t, repeats, deltas).1 ==> sub_cast_life(t, repeats, deltas).0 == repeats + 1,
        !sub_cast_life(t, repeats, deltas).1 ==> sub_cast_life(t, repeats, deltas).0 <= repeats,
        forall|d: u64| #[trigger] sub_cast_step(t, repeats, d).3 ==> sub_cast_step(t, repeats, d).2,
    decreases deltas.len(),
{
    if deltas.len() > 0 {
        let (t2, r2, fire, done) = sub_cast_step(t, repeats, deltas[0]);
        if !done {
            law_timed_sub_cast_whole_life(t2, r2, deltas.drop_first());
        }
    }
}

/// A timed sub-cast (whose timer is one-shot) that has not fired since its
/// interval began fires exactly when the time since then reaches the
/// interval; after a volley that leaves repeats, the interval starts over
/// from nothing, so the next volley comes only once another full interval
/// has passed.
pub proof fn law_timed_sub_cast_waits_full_interval(t: TimerView, repeats: int, d1: u64, d2: u64)
    requires
        t.mode == TimerMode::Once,
        timer_wf(t),
        !t.finished,
    ensures
        sub_cast_step(t, repeats, d1).2 == (t.elapsed + d1 >= t.duration),
        ({
            let (t2, r2, fired, done) = sub_cast_step(t, repeats, d1);
            fired && !done ==> {
                &&& t2.elapsed == 0
                &&& !t2.finished
                &&& t2.duration == t.duration
                &&& sub_cast_step(t2, r2, d2).2 == (d2 >= t.duration)
            }
        }),
{
}

/// After a volley, a timed sub-cast with `repeats` repeats left is done
/// when none is left; otherwise one repeat is used up.
pub open spec fn after_volley(repeats: int) -> (bool, int) {
    if repeats > 0 {
        (false, repeats - 1)
    } else {
        (true, repeats)
    }
}

/// How many volleys a timed sub-cast with `repeats` repeats left fires
/// before it is done, volley after volley as [`after_volley`] says.
pub open spec fn volleys_until_done(repeats: int) -> nat
    decreases (if repeats > 0 {
        repeats
    } else {
        0
    }),
{
    let (done, left) = after_volley(repeats);
    if done {
        1
    } else {
        1 + volleys_until_done(left)
    }
}

/// A timed sub-cast fires `num_repeats + 1` volleys in all (one when it
/// has no repeats).
pub proof fn law_timed_sub_cast_fires_repeats_plus_one(repeats: int)
    ensures
        volleys_until_done(repeats) == if repeats > 0 {
            repeats + 1
        } else {
            1
        },
    decreases (if repeats > 0 {
        repeats
    } else {
        0
    }),
{
    if repeats > 0 {
        law_timed_sub_cast_fires_repeats_plus_one(repeats - 1);
    }
}

/// Where a cast object's lifetime comes from: a fixed duration (possibly
/// scaled by a stat of the caster), or one set after it spawns.
#[derive(Copy, Clone, Debug)]
pub enum LifetimeSource {
    Fixed { base_duration: u64, modified_by: Option<ModifierID> },
    Dynamic,
}

/// The stages of a cast object's life; durations in nanoseconds.
#[derive(Copy, Clone, Debug)]
pub enum LifetimePhase {
    JustSpawned(LifetimeSource),
    Alive { duration: u64, elapsed: u64 },
    JustDied,
}

/// How long a cast object lives.
#[derive(Copy, Clone, Debug)]
pub struct Lifetime {
    phase: LifetimePhase,
}

/// What the owner of a lifetime must do.
#[derive(Copy, Clone, Debug, PartialEq, Eq, Structural)]
pub enum LifetimeAction {
    Nothing,
    /// Announce the despawn to the object's hooks, then despawn it.
    Despawn,
}

/// Message of the refusal to set the duration of a lifetime that is not
/// waiting for one.
pub open spec fn not_dynamic_message() -> Seq<char> {
    "Can only set duration for dynamic lifetime sources"@
}

/// The lifetime after one step of `delta` nanoseconds, and what to do.
/// A fixed lifetime that just spawned starts living for its base duration,
/// or, when it names a stat of the caster, for `modified_duration` (the base
/// duration scaled by that stat); a dynamic one waits for its duration to be
/// set. A living one ages and dies
/// once its age passes its duration. A dead one is despawned.
pub open spec fn lifetime_step(p: LifetimePhase, delta: u64, modified_duration: u64) -> (
    LifetimePhase,
    LifetimeAction,
) {
    match p {
        LifetimePhase::JustSpawned(LifetimeSource::Fixed { base_duration, modified_by }) => (
            LifetimePhase::Alive {
                duration: if modified_by is Some {
                    modified_duration
                } else {
                    base_duration
                },
                elapsed: 0,
            },
            LifetimeAction::Nothing,
        ),
        LifetimePhase::JustSpawned(LifetimeSource::Dynamic) => (p, LifetimeAction::Nothing),
        LifetimePhase::Alive { duration, elapsed } => {
            let e = crate::timer::saturating_sum(elapsed, delta);
            if e > duration {
                (LifetimePhase::JustDied, LifetimeAction::Nothing)
            } else {
                (LifetimePhase::Alive { duration, elapsed: e }, LifetimeAction::Nothing)
            }
        },
        LifetimePhase::JustDied => (p, LifetimeAction::Despawn),
    }
}

impl Lifetime {
    pub closed spec fn spec_phase(&self) -> LifetimePhase {
        self.phase
    }

    /// Lives `base_duration` nanoseconds.
    pub fn fixed(base_duration: u64) -> (l: Self)
        ensures
            l.spec_phase() == LifetimePhase::JustSpawned(
                (LifetimeSource::Fixed { base_duration, modified_by: None }),
            ),
    {
        Lifetime {
            phase: LifetimePhase::JustSpawned(
                LifetimeSource::Fixed { base_duration, modified_by: None },
            ),
        }
    }

    /// Lives `base_duration` nanoseconds, scaled by the caster's `modifier`.
    pub fn fixed_with_modifier(base_duration: u64, modifier: ModifierID) -> (l: Self)
        ensures
            l.spec_phase() == LifetimePhase::JustSpawned(
                (LifetimeSource::Fixed { base_duration, modified_by: Some(modifier) }),
            ),
    {
        Lifetime {
            phase: LifetimePhase::JustSpawned(
                LifetimeSource::Fixed { base_duration, modified_by: Some(modifier) },
            ),
        }
    }

    /// Lives as long as is set once it has spawned.
    pub fn dynamic() -> (l: Self)
        ensures
            l.spec_phase() == LifetimePhase::JustSpawned(LifetimeSource::Dynamic),
    {
        Lifetime { phase: LifetimePhase::JustSpawned(LifetimeSource::Dynamic) }
    }

    pub fn phase(&self) -> (p: LifetimePhase)
        ensures
            p == self.spec_phase(),
    {
        self.phase
    }

    pub fn just_spawned(&self) -> (b: bool)
        ensures
            b == self.spec_phase() is JustSpawned,
    {
        match self.phase {
            LifetimePhase::JustSpawned(_) => true,
            _ => false,
        }
    }

    pub fn just_died(&self) -> (b: bool)
        ensures
            b == self.spec_phase() is JustDied,
    {
        match self.phase {
            LifetimePhase::JustDied => true,
            _ => false,
        }
    }

    /// Sets the duration of a dynamic lifetime that has just spawned; any
    /// other lifetime refuses and stays as it is.
    pub fn set_dynamic_duration(&mut self, duration: u64) -> (r: Result<(), &'static str>)
        ensures
            old(self).spec_phase() == LifetimePhase::JustSpawned(LifetimeSource::Dynamic) ==> {
                &&& r is Ok
                &&& final(self).spec_phase() == (LifetimePhase::Alive { duration, elapsed: 0 })
            },
            old(self).spec_phase() != LifetimePhase::JustSpawned(LifetimeSource::Dynamic) ==> {
                &&& r matches Err(m) && m@ == not_dynamic_message()
                &&& final(self).spec_phase() == old(self).spec_phase()
            },
    {
        match self.phase {
            LifetimePhase::JustSpawned(LifetimeSource::Dynamic) => {
                self.phase = LifetimePhase::Alive { duration, elapsed: 0 };
                Ok(())
            },
            _ => {
                proof {
                    reveal_strlit("Can only set duration for dynamic lifetime sources");
                }
                Err("Can only set duration for dynamic lifetime sources")
            },
        }
    }

    /// One step of `delta` nanoseconds; see [`lifetime_step`].
    /// `modified_duration` is the duration a fixed lifetime that names a
    /// stat starts with; it is not read otherwise.
    pub fn advance(&mut self, delta: u64, modified_duration: u64) -> (action: LifetimeAction)
        ensures
            (final(self).spec_phase(), action) == lifetime_step(
                old(self).spec_phase(),
                delta,
                modified_duration,
            ),
    {
        match self.phase {
            LifetimePhase::JustSpawned(LifetimeSource::Fixed { base_duration, modified_by }) => {
                let duration = match modified_by {
                    Some(_) => modified_duration,
                    None => base_duration,
                };
                self.phase = LifetimePhase::Alive { duration, elapsed: 0 };
                LifetimeAction::Nothing
            },
            LifetimePhase::JustSpawned(LifetimeSource::Dynamic) => LifetimeAction::Nothing,
            LifetimePhase::Alive { duration, elapsed } => {
                let e = elapsed.saturating_add(delta);
                if e > duration {
                    self.phase = LifetimePhase::JustDied;
                } else {
                    self.phase = LifetimePhase::Alive { duration, elapsed: e };
                }
                LifetimeAction::Nothing
            },
            LifetimePhase::JustDied => LifetimeAction::Despawn,
        }
    }
}

/// A living object never outlives its duration by more than one step: it
/// stays alive while its age is within its duration, and the step that
/// takes its age past the duration ends its life; the step after that
/// despawns it.
pub proof fn law_lifetime_ends_after_duration(duration: u64, elapsed: u64, delta: u64, d: u64)
    requires
        elapsed <= duration,
        elapsed + delta <= u64::MAX,
    ensures
        elapsed + delta <= duration ==> lifetime_step(
            (LifetimePhase::Alive { duration, elapsed }),
            delta,
            d,
        ).0 == (LifetimePhase::Alive { duration, elapsed: (elapsed + delta) as u64 }),
        elapsed + delta > duration ==> lifetime_step(
            (LifetimePhase::Alive { duration, elapsed }),
            delta,
            d,
        ).0 == LifetimePhase::JustDied,
        lifetime_step(LifetimePhase::JustDied, delta, d).1 == LifetimeAction::Despawn,
{
}

/// The lifetime after `n` steps of `delta` nanoseconds each.
pub open spec fn phase_after(p: LifetimePhase, delta: u64, modified_duration: u64, n: nat) -> LifetimePhase
    decreases n,
{
    if n == 0 {
        p
    } else {
        lifetime_step(phase_after(p, delta, modified_duration, (n - 1) as nat), delta, modified_duration).0
    }
}

/// What the step after `n` steps of `delta` nanoseconds asks for.
pub open spec fn action_after(p: LifetimePhase, delta: u64, modified_duration: u64, n: nat) -> LifetimeAction {
    lifetime_step(phase_after(p, delta, modified_duration, n), delta, modified_duration).1
}

proof fn lemma_fixed_lifetime_ages(d: u64, delta: u64, md: u64, m: nat, j: nat)
    requires
        delta > 0,
        m >= 1,
        j <= m - 1,
        (m - 1) * delta <= d,
        m * delta <= u64::MAX,
    ensures
        phase_after(
            LifetimePhase::JustSpawned(LifetimeSource::Fixed { base_duration: d, modified_by: None }),
            delta,
            md,
            j + 1,
        ) == (LifetimePhase::Alive { duration: d, elapsed: (j * delta) as u64 }),
    decreases j,
{
    let p0 = LifetimePhase::JustSpawned(LifetimeSource::Fixed { base_duration: d, modified_by: None });
    if j > 0 {
        let k = (j - 1) as nat;
        lemma_fixed_lifetime_ages(d, delta, md, m, k);
        assert(k * delta + delta == j * delta) by (nonlinear_arith)
            requires
                k + 1 == j,
        ;
        assert(j * delta <= (m - 1) * delta) by (nonlinear_arith)
            requires
                j <= m - 1,
                delta > 0,
        ;
        assert(0 <= k * delta) by (nonlinear_arith);
        let prev = phase_after(p0, delta, md, j);
        assert(j == k + 1);
        assert(prev == (LifetimePhase::Alive { duration: d, elapsed: (k * delta) as u64 }));
        assert(crate::timer::saturating_sum((k * delta) as u64, delta) == j * delta);
        assert(phase_after(p0, delta, md, j + 1) == lifetime_step(
            phase_after(p0, delta, md, j),
            delta,
            md,
        ).0);
    } else {
        assert(phase_after(p0, delta, md, 1) == lifetime_step(p0, delta, md).0);
        assert(j * delta == 0) by (nonlinear_arith)
            requires
                j == 0,
        ;
    }
}

/// A fixed lifetime of `d` nanoseconds with no stat to scale it, stepped
/// by the same `delta > 0` each frame, lives through the steps in which its
/// age stays within `d`: if `m` is the first count of steps with
/// `m * delta > d`, the object dies at step `m + 1` and is despawned (its
/// despawn announced) at step `m + 2`, and not before.
pub proof fn law_fixed_lifetime_despawns_after_duration(d: u64, delta: u64, md: u64, m: nat)
    requires
        delta > 0,
        m >= 1,
        (m - 1) * delta <= d,
        m * delta > d,
        m * delta <= u64::MAX,
    ensures
        forall|n: nat|
            n <= m ==> action_after(
                LifetimePhase::JustSpawned(LifetimeSource::Fixed { base_duration: d, modified_by: None }),
                delta,
                md,
                n,
            ) == LifetimeAction::Nothing,
        phase_after(
            LifetimePhase::JustSpawned(LifetimeSource::Fixed { base_duration: d, modified_by: None }),
            delta,
            md,
            m + 1,
        ) == LifetimePhase::JustDied,
        action_after(
            LifetimePhase::JustSpawned(LifetimeSource::Fixed { base_duration: d, modified_by: None }),
            delta,
            md,
            m + 1,
        ) == LifetimeAction::Despawn,
{
    let p0 = LifetimePhase::JustSpawned(LifetimeSource::Fixed { base_duration: d, modified_by: None });
    assert forall|n: nat| n <= m implies action_after(p0, delta, md, n) == LifetimeAction::Nothing by {
        if n > 0 {
            lemma_fixed_lifetime_ages(d, delta, md, m, (n - 1) as nat);
        }
    }
    lemma_fixed_lifetime_ages(d, delta, md, m, (m - 1) as nat);
    assert((m - 1) * delta + delta == m * delta) by (nonlinear_arith);
    assert(phase_after(p0, delta, md, m + 1) == lifetime_step(phase_after(p0, delta, md, m), delta, md).0);
}

/// An object a freshly cast seeker may lock onto, with its distance key
/// from the cast's target point and its side, if it has one.
#[derive(Copy, Clone, Debug, PartialEq, Eq, Structural)]
pub struct SeekCandidate {
    pub entity: Entity,
    pub distance: u32,
    pub faction: Option<Faction>,
}

/// The first candidate of least distance among those closer than
/// `max_distance` and not known to be on the seeker's side.
pub open spec fn nearest_hostile(
    cands: Seq<SeekCandidate>,
    seeker: Option<Faction>,
    max_distance: u32,
) -> Option<SeekCandidate>
    decreases cands.len(),
{
    if cands.len() == 0 {
        None
    } else {
        let best = nearest_hostile(cands.drop_last(), seeker, max_distance);
        let last = cands.last();
        if last.distance < max_distance && targetable_by(seeker, last.faction) && (best is None
            || last.distance < best->0.distance) {
            Some(last)
        } else {
            best
        }
    }
}

/// A candidate a seeker of side `seeker` may lock onto: closer than
/// `max_distance` and not known to be on the seeker's side.
pub open spec fn seekable(c: SeekCandidate, seeker: Option<Faction>, max_distance: u32) -> bool {
    c.distance < max_distance && (seeker is None || c.faction is None || seeker != c.faction)
}

/// A seeker locks onto a candidate it may lock onto, and no candidate it
/// may lock onto is nearer; it locks onto nothing only when there is no
/// candidate it may lock onto.
pub proof fn law_seeker_picks_nearest_hostile(cands: Seq<SeekCandidate>, seeker: Option<Faction>, max_distance: u32)
    ensures
        nearest_hostile(cands, seeker, max_distance) matches Some(b) ==> {
            &&& cands.contains(b)
            &&& seekable(b, seeker, max_distance)
            &&& forall|i: int|
                0 <= i < cands.len() && seekable(cands[i], seeker, max_distance) ==> b.distance
                    <= #[trigger] cands[i].distance
        },
        nearest_hostile(cands, seeker, max_distance) is None ==> forall|i: int|
            0 <= i < cands.len() ==> !seekable(#[trigger] cands[i], seeker, max_distance),
    decreases cands.len(),
{
    if cands.len() > 0 {
        let rest = cands.drop_last();
        law_seeker_picks_nearest_hostile(rest, seeker, max_distance);
        assert forall|i: int| 0 <= i < rest.len() implies #[trigger] rest[i] == cands[i] by {}
        if let Some(b) = nearest_hostile(rest, seeker, max_distance) {
            let k = choose|k: int| 0 <= k < rest.len() && rest[k] == b;
            assert(cands[k] == b);
        }
        if let Some(b) = nearest_hostile(cands, seeker, max_distance) {
            assert forall|i: int|
                0 <= i < cands.len() && seekable(cands[i], seeker, max_distance) implies b.distance
                    <= #[trigger] cands[i].distance by {
                if i < cands.len() - 1 {
                    assert(rest[i] == cands[i]);
                }
            }
            if b == cands.last() {
                assert(cands[cands.len() - 1] == b);
            }
        } else {
            assert forall|i: int| 0 <= i < cands.len() implies !seekable(
                #[trigger] cands[i],
                seeker,
                max_distance,
            ) by {
                if i < cands.len() - 1 {
                    assert(rest[i] == cands[i]);
                }
            }
        }
    }
}

/// The target a seeker locks onto when it spawns; see [`nearest_hostile`].
pub fn select_nearest_target(
    cands: &Vec<SeekCandidate>,
    seeker: Option<Faction>,
    max_distance: u32,
) -> (target: Option<Entity>)
    ensures
        target == match nearest_hostile(cands@, seeker, max_distance) {
            Some(c) => Some(c.entity),
            None => None::<Entity>,
        },
        target matches Some(t) ==> exists|k: int|
            0 <= k < cands@.len() && cands@[k].entity == t && seekable(cands@[k], seeker, max_distance)
                && forall|i: int|
                0 <= i < cands@.len() && seekable(cands@[i], seeker, max_distance) ==> cands@[k].distance
                    <= #[trigger] cands@[i].distance,
        target is None ==> forall|i: int|
            0 <= i < cands@.len() ==> !seekable(#[trigger] cands@[i], seeker, max_distance),
{
    proof {
        law_seeker_picks_nearest_hostile(cands@, seeker, max_distance);
    }
    let mut best: Option<SeekCandidate> = None;
    let mut i: usize = 0;
    while i < cands.len()
        invariant
            i <= cands@.len(),
            best == nearest_hostile(cands@.take(i as int), seeker, max_distance),
        decreases cands.len() - i,
    {
        proof {
            assert(cands@.take(i + 1).drop_last() =~= cands@.take(i as int));
        }
        let c = cands[i];
        let closer = match best {
            None => true,
            Some(b) => c.distance < b.distance,
        };
        if c.distance < max_distance && may_target(seeker, c.faction) && closer {
            best = Some(c);
        }
        i = i + 1;
    }
    proof {
        assert(cands@.take(i as int) =~= cands@);
    }
    match best {
        Some(c) => Some(c.entity),
        None => None,
    }
}

} // verus!
