//! The attack lifecycle: a per-actor state machine that opens a timed window
//! for a melee attack and owns the hit-volume that exists while the window
//! is open.
//!
//! The machine decides; the host acts. Each call of
//! [`attack_handler_system`] takes one event and answers with the one thing
//! the host has to do: nothing, spawn a hit-volume, or despawn one. Time is
//! in microseconds; hit-volumes are named by the host's handles.

use vstd::prelude::*;
use bevy::time::{Timer, TimerMode};
use crate::vector::Vec2;
use std::time::Duration;

verus! {

/// Whether an attack's window is open.
#[derive(Clone, Copy, Debug, PartialEq, Eq, Structural)]
pub struct IsAttacking(pub bool);

/// The timer of the attack window: the time for which the window has been
/// open, and the time after which it closes, in microseconds.
#[derive(Clone, Copy, Debug, PartialEq, Eq, Structural)]
pub struct AttackTimer {
    pub elapsed: u64,
    pub duration: u64,
}

/// The hit-volume of an attack: a rectangle of this half width and this half
/// height, its centre this far from the actor's. It is a sensor: it reports
/// what it overlaps and pushes nothing. Lengths are fixed-point
/// (thousandths of a pixel).
#[derive(Clone, Copy, Debug, PartialEq, Eq, Structural)]
pub struct HitVolume {
    pub half_width: i32,
    pub half_height: i32,
    pub offset: Vec2,
}

/// What happened, as the host reports it.
#[derive(Clone, Copy, Debug, PartialEq, Eq, Structural)]
pub enum AttackEvent {
    /// The attack action was just pressed.
    Pressed,
    /// The host has spawned the hit-volume it was asked for, under this
    /// handle.
    HitboxSpawned(u64),
    /// This many microseconds have passed.
    Tick(u32),
}

/// What the host has to do.
#[derive(Clone, Copy, Debug, PartialEq, Eq, Structural)]
pub enum AttackAction {
    /// Nothing.
    Nothing,
    /// Spawn this hit-volume as a child of the actor, and report its handle
    /// with [`AttackEvent::HitboxSpawned`].
    SpawnHitbox(HitVolume),
    /// Despawn the hit-volume with this handle, and whatever it owns.
    DespawnHitbox(u64),
}

/// One actor's attack state.
#[derive(Clone, Copy, Debug)]
pub struct AttackState {
    attacking: IsAttacking,
    timer: AttackTimer,
    hit_volume: HitVolume,
    active_hitbox: Option<u64>,
}

/// What an [`AttackState`] stands for.
pub struct AttackView {
    /// Whether the window is open.
    pub attacking: bool,
    /// For how long it has been open.
    pub elapsed: nat,
    /// After how long it closes.
    pub duration: nat,
    /// The hit-volume that the attack asks for when its window opens.
    pub hit_volume: HitVolume,
    /// The handle of the hit-volume that the attack owns.
    pub hitbox: Option<u64>,
}

impl AttackView {
    /// While no window is open the timer is at zero and no hit-volume is
    /// owned; and no window is open for as long as its duration, or longer.
    pub open spec fn wf(self) -> bool {
        &&& !self.attacking ==> self.elapsed == 0 && self.hitbox is None
        &&& self.elapsed == 0 || self.elapsed < self.duration
    }

    /// The idle state of an attack whose window lasts `duration` and whose
    /// hit-volume is `hit_volume`.
    pub open spec fn idle(duration: nat, hit_volume: HitVolume) -> AttackView {
        AttackView { attacking: false, elapsed: 0, duration, hit_volume, hitbox: None }
    }

    /// How many hit-volumes the attack owns: one or none.
    pub open spec fn owned(self) -> nat {
        if self.hitbox is Some {
            1
        } else {
            0
        }
    }
}

/// Whether a timer that stands at `elapsed` reaches `duration` when `dt` more
/// has passed.
pub open spec fn reaches(elapsed: nat, duration: nat, dt: nat) -> bool {
    elapsed + dt >= duration
}

/// The state after the event `e` in the state `s`, and what the host has to
/// do.
///
/// - A press opens the window from idle, with the timer at zero, and asks
///   for the attack's hit-volume. While the window is open a press is
///   ignored.
/// - A spawned hit-volume is taken over if the window is open and owns none.
///   Otherwise it is not wanted, and the host is told to despawn it.
/// - A tick advances the timer of an open window. When the timer reaches the
///   duration the window closes: the timer goes back to zero and the owned
///   hit-volume, if there is one, is to be despawned. While idle a tick
///   changes nothing.
pub open spec fn attack_step(s: AttackView, e: AttackEvent) -> (AttackView, AttackAction) {
    match e {
        AttackEvent::Pressed => if s.attacking {
            (s, AttackAction::Nothing)
        } else {
            (
                AttackView { attacking: true, elapsed: 0, hitbox: None, ..s },
                AttackAction::SpawnHitbox(s.hit_volume),
            )
        },
        AttackEvent::HitboxSpawned(handle) => if s.attacking && s.hitbox is None {
            (AttackView { hitbox: Some(handle), ..s }, AttackAction::Nothing)
        } else {
            (s, AttackAction::DespawnHitbox(handle))
        },
        AttackEvent::Tick(dt) => if !s.attacking {
            (s, AttackAction::Nothing)
        } else if reaches(s.elapsed, s.duration, dt as nat) {
            (
                AttackView::idle(s.duration, s.hit_volume),
                match s.hitbox {
                    Some(handle) => AttackAction::DespawnHitbox(handle),
                    None => AttackAction::Nothing,
                },
            )
        } else {
            (AttackView { elapsed: s.elapsed + dt as nat, ..s }, AttackAction::Nothing)
        },
    }
}

/// Advances a repeating `bevy::time::Timer` of the duration `duration`
/// microseconds, which stands at `elapsed` microseconds, by `delta`
/// microseconds, with `Timer::tick`. Returns where the timer stands then and
/// whether it has finished.
///
/// Trusted: a repeating timer that is not paused adds `delta` to its elapsed
/// time, is finished exactly if that sum has reached the duration, and then
/// keeps the remainder of the sum by the duration as its elapsed time. The
/// timer must stand below its duration: a duration of zero would be divided
/// by, and the count of the times that a timer finishes in one tick must fit
/// 32 bits.
#[verifier::external_body]
fn tick_repeating(elapsed: u64, duration: u64, delta: u32) -> (r: (u64, bool))
    requires
        elapsed < duration,
    ensures
        r.1 == (elapsed + delta >= duration),
        r.0 == (elapsed + delta) % (duration as int),
{
    let mut timer = Timer::new(Duration::from_micros(duration), TimerMode::Repeating);
    timer.set_elapsed(Duration::from_micros(elapsed));
    timer.tick(Duration::from_micros(delta as u64));
    (timer.elapsed().as_micros() as u64, timer.finished())
}

impl AttackTimer {
    /// The timer after `dt` more microseconds. It starts over each time it
    /// reaches its duration, and keeps what is left of the time; a timer that
    /// was already at or past its duration starts over at zero.
    pub open spec fn ticked(self, dt: nat) -> AttackTimer {
        if self.elapsed >= self.duration {
            AttackTimer { elapsed: 0, duration: self.duration }
        } else {
            AttackTimer {
                elapsed: ((self.elapsed + dt) % (self.duration as int)) as u64,
                duration: self.duration,
            }
        }
    }

    /// A timer at zero that runs for `duration` microseconds.
    pub fn new(duration: u64) -> (r: AttackTimer)
        ensures
            r == (AttackTimer { elapsed: 0, duration }),
    {
        AttackTimer { elapsed: 0, duration }
    }

    /// Advances the timer by `dt` microseconds. Returns whether it has
    /// reached its duration in that time; if not, it stands `dt` further.
    pub fn tick(&mut self, dt: u32) -> (finished: bool)
        ensures
            finished == reaches(old(self).elapsed as nat, old(self).duration as nat, dt as nat),
            *final(self) == old(self).ticked(dt as nat),
            !finished ==> final(self).elapsed == old(self).elapsed + dt,
    {
        if self.elapsed >= self.duration {
            self.elapsed = 0;
            return true;
        }
        let (elapsed, finished) = tick_repeating(self.elapsed, self.duration, dt);
        proof {
            if !finished {
                vstd::arithmetic::div_mod::lemma_small_mod(
                    (self.elapsed + dt) as nat,
                    self.duration as nat,
                );
            }
        }
        self.elapsed = elapsed;
        finished
    }

    /// Puts the timer back to zero.
    pub fn reset(&mut self)
        ensures
            *final(self) == (AttackTimer { elapsed: 0, duration: old(self).duration }),
    {
        self.elapsed = 0;
    }
}

impl View for AttackState {
    type V = AttackView;

    closed spec fn view(&self) -> AttackView {
        AttackView {
            attacking: self.attacking.0,
            elapsed: self.timer.elapsed as nat,
            duration: self.timer.duration as nat,
            hit_volume: self.hit_volume,
            hitbox: self.active_hitbox,
        }
    }
}

impl AttackState {
    #[verifier::type_invariant]
    spec fn valid(self) -> bool {
        &&& !self.attacking.0 ==> self.timer.elapsed == 0 && self.active_hitbox is None
        &&& self.timer.elapsed == 0 || self.timer.elapsed < self.timer.duration
    }

    /// An idle attack whose window lasts `duration` microseconds and whose
    /// hit-volume is `hit_volume`.
    pub fn new(duration: u64, hit_volume: HitVolume) -> (r: AttackState)
        ensures
            r@ == AttackView::idle(duration as nat, hit_volume),
    {
        AttackState {
            attacking: IsAttacking(false),
            timer: AttackTimer::new(duration),
            hit_volume,
            active_hitbox: None,
        }
    }

    /// Whether the window is open.
    pub fn is_attacking(&self) -> (r: IsAttacking)
        ensures
            r.0 == self@.attacking,
    {
        self.attacking
    }

    /// The timer.
    pub fn timer(&self) -> (r: AttackTimer)
        ensures
            r.elapsed == self@.elapsed,
            r.duration == self@.duration,
    {
        self.timer
    }

    /// The hit-volume that the attack asks for when its window opens.
    pub fn hit_volume(&self) -> (r: HitVolume)
        ensures
            r == self@.hit_volume,
    {
        self.hit_volume
    }

    /// The handle of the hit-volume that the attack owns.
    pub fn active_hitbox(&self) -> (r: Option<u64>)
        ensures
            r == self@.hitbox,
            self@.wf(),
    {
        proof {
            use_type_invariant(self);
        }
        self.active_hitbox
    }
}

/// Takes one event to the actor's attack state and returns what the host has
/// to do (see [`attack_step`]).
pub fn attack_handler_system(state: &mut AttackState, event: AttackEvent) -> (action: AttackAction)
    ensures
        (final(state)@, action) == attack_step(old(state)@, event),
        final(state)@.wf(),
{
    proof {
        use_type_invariant(&*state);
    }
    match event {
        AttackEvent::Pressed => {
            if state.attacking.0 {
                AttackAction::Nothing
            } else {
                *state = AttackState {
                    attacking: IsAttacking(true),
                    timer: AttackTimer::new(state.timer.duration),
                    hit_volume: state.hit_volume,
                    active_hitbox: None,
                };
                AttackAction::SpawnHitbox(state.hit_volume)
            }
        },
        AttackEvent::HitboxSpawned(handle) => {
            if state.attacking.0 && state.active_hitbox.is_none() {
                state.active_hitbox = Some(handle);
                AttackAction::Nothing
            } else {
                AttackAction::DespawnHitbox(handle)
            }
        },
        AttackEvent::Tick(dt) => {
            if !state.attacking.0 {
                AttackAction::Nothing
            } else {
                let mut timer: AttackTimer = state.timer;
                let finished: bool = timer.tick(dt);
                if finished {
                    timer.reset();
                    let owned: Option<u64> = state.active_hitbox;
                    *state = AttackState {
                        attacking: IsAttacking(false),
                        timer,
                        hit_volume: state.hit_volume,
                        active_hitbox: None,
                    };
                    match owned {
                        Some(handle) => AttackAction::DespawnHitbox(handle),
                        None => AttackAction::Nothing,
                    }
                } else {
                    state.timer = timer;
                    AttackAction::Nothing
                }
            }
        },
    }
}

/// The state after the events `events`, taken in order from the state `s`.
pub open spec fn state_after(s: AttackView, events: Seq<AttackEvent>) -> AttackView
    decreases events.len(),
{
    if events.len() == 0 {
        s
    } else {
        attack_step(state_after(s, events.drop_last()), events.last()).0
    }
}

/// What the host is told to do at the last of the events `events`.
pub open spec fn last_action(s: AttackView, events: Seq<AttackEvent>) -> AttackAction
    recommends
        events.len() > 0,
{
    attack_step(state_after(s, events.drop_last()), events.last()).1
}

/// How often the host is asked for a hit-volume over the events `events`.
pub open spec fn spawn_requests(s: AttackView, events: Seq<AttackEvent>) -> nat
    decreases events.len(),
{
    if events.len() == 0 {
        0
    } else {
        spawn_requests(s, events.drop_last()) + if last_action(s, events)
            is SpawnHitbox {
            1nat
        } else {
            0nat
        }
    }
}

/// How often the host is told to despawn a hit-volume over the events
/// `events`.
pub open spec fn despawn_orders(s: AttackView, events: Seq<AttackEvent>) -> nat
    decreases events.len(),
{
    if events.len() == 0 {
        0
    } else {
        despawn_orders(s, events.drop_last()) + if last_action(s, events)
            is DespawnHitbox {
            1nat
        } else {
            0nat
        }
    }
}

/// How many hit-volumes the host reports as spawned in the events `events`.
pub open spec fn deliveries(events: Seq<AttackEvent>) -> nat
    decreases events.len(),
{
    if events.len() == 0 {
        0
    } else {
        deliveries(events.drop_last()) + if events.last() is HitboxSpawned {
            1nat
        } else {
            0nat
        }
    }
}

/// The window is open after each of the events `events`, of which there is
/// at least one.
pub open spec fn open_throughout(s: AttackView, events: Seq<AttackEvent>) -> bool
    decreases events.len(),
{
    &&& events.len() >= 1
    &&& state_after(s, events).attacking
    &&& events.len() == 1 || open_throughout(s, events.drop_last())
}

/// The events `events` take the attack through one full cycle: idle before
/// them, open after each but the last, idle again after the last.
pub open spec fn full_cycle(s: AttackView, events: Seq<AttackEvent>) -> bool {
    &&& !s.attacking
    &&& events.len() >= 2
    &&& open_throughout(s, events.drop_last())
    &&& !state_after(s, events).attacking
}

/// A press while the window is open changes nothing and asks for nothing:
/// no second hit-volume is ever requested.
pub proof fn law_press_while_open_is_ignored(s: AttackView)
    requires
        s.attacking,
    ensures
        attack_step(s, AttackEvent::Pressed) == (s, AttackAction::Nothing),
{
}

/// A hit-volume is asked for exactly when the window opens, and it is the
/// attack's own.
pub proof fn law_spawn_request_marks_opening(s: AttackView, e: AttackEvent)
    ensures
        attack_step(s, e).1 is SpawnHitbox <==> !s.attacking && attack_step(s, e).0.attacking,
        attack_step(s, e).1 is SpawnHitbox ==> attack_step(s, e).1 == AttackAction::SpawnHitbox(
            s.hit_volume,
        ),
{
}

/// The attack never owns more than one hit-volume and never loses one: over
/// any events, each hit-volume that the host reports is either owned
/// afterwards or ordered to be despawned, exactly once.
pub proof fn law_hit_volumes_are_accounted_for(s: AttackView, events: Seq<AttackEvent>)
    requires
        s.wf(),
    ensures
        state_after(s, events).wf(),
        state_after(s, events).duration == s.duration,
        state_after(s, events).hit_volume == s.hit_volume,
        deliveries(events) + s.owned() == despawn_orders(s, events) + state_after(
            s,
            events,
        ).owned(),
    decreases events.len(),
{
    if events.len() > 0 {
        law_hit_volumes_are_accounted_for(s, events.drop_last());
    }
}

/// While the window stays open after the first of the events, exactly one
/// hit-volume is asked for.
pub proof fn lemma_one_spawn_request_while_open(s: AttackView, events: Seq<AttackEvent>)
    requires
        !s.attacking,
        open_throughout(s, events),
    ensures
        spawn_requests(s, events) == 1,
    decreases events.len(),
{
    if events.len() == 1 {
        assert(events.drop_last().len() == 0);
        assert(state_after(s, events.drop_last()) == s);
        assert(spawn_requests(s, events.drop_last()) == 0);
    } else {
        lemma_one_spawn_request_while_open(s, events.drop_last());
    }
}

/// One full cycle of the attack, from idle through the open window back to
/// idle, asks for exactly one hit-volume, and orders as many despawned as the
/// host has reported: one for one.
pub proof fn law_full_cycle_spawns_and_despawns_once(s: AttackView, events: Seq<AttackEvent>)
    requires
        s.wf(),
        full_cycle(s, events),
    ensures
        spawn_requests(s, events) == 1,
        despawn_orders(s, events) == deliveries(events),
        deliveries(events) == 1 ==> despawn_orders(s, events) == 1,
{
    lemma_one_spawn_request_while_open(s, events.drop_last());
    law_hit_volumes_are_accounted_for(s, events);
}

} // verus!
