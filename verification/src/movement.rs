//! The movement controller: one actor's velocity for the next tick, from the
//! directions that are held, the time that has passed and the actor's
//! movement profile.
//!
//! Velocities, accelerations and speeds are fixed-point (thousandths of a
//! pixel per second, or per second squared); time is in microseconds.

use vstd::prelude::*;
use crate::fixed::{
    div_toward_zero, lemma_square_monotonic, lemma_square_strictly_monotonic, MICROS_PER_SECOND,
};
use crate::vector::{
    abs, lemma_rescaled, lemma_rescaled_keeps_direction, lemma_rescaled_keeps_longer_component,
    magnitude, rescale, rescaled, sq_len, Vec2, Wide,
};

verus! {

/// The length of a direction vector: directions are vectors of (at most) this
/// length, so that a direction times a magnitude is divided by it.
pub const DIRECTION_ONE: i32 = 1_000_000;

/// How an actor speeds up and slows down, constant for the session.
#[derive(Clone, Copy, Debug, PartialEq, Eq, Structural)]
pub struct PlayerMovementInfo {
    /// Speed gained per second while a direction is held.
    pub acceleration: u32,
    /// Speed lost per second while no direction is held.
    pub deceleration: u32,
    /// The speed that acceleration never exceeds.
    pub max_speed: u32,
}

/// An actor's velocity.
#[derive(Clone, Copy, Debug, PartialEq, Eq, Structural)]
pub struct Velocity {
    pub linvel: Vec2,
}

/// Which of the four directional actions are held during a tick.
#[derive(Clone, Copy, Debug, PartialEq, Eq, Structural)]
pub struct HeldDirections {
    pub up: bool,
    pub right: bool,
    pub down: bool,
    pub left: bool,
}

/// How far the desired direction is from the direction of travel.
#[derive(Clone, Copy, Debug, PartialEq, Eq, Structural)]
pub enum TurnRegime {
    /// Cosine similarity below 0.9: the push is four times as strong.
    Sharp,
    /// Cosine similarity from 0.9 up to, but not including, 0.98: the push is
    /// steered against the current velocity.
    Shallow,
    /// Cosine similarity of 0.98 or more, or no velocity at all: the push goes
    /// straight in the desired direction.
    Aligned,
}

impl HeldDirections {
    /// Whether any direction is held.
    pub open spec fn spec_any(self) -> bool {
        self.up || self.right || self.down || self.left
    }

    /// The sum of the held directions: right and up count as `+1`, left and
    /// down as `-1`.
    pub open spec fn spec_net(self) -> Wide {
        Wide {
            x: (if self.right { 1int } else { 0 }) - (if self.left { 1int } else { 0 }),
            y: (if self.up { 1int } else { 0 }) - (if self.down { 1int } else { 0 }),
        }
    }

    /// Whether any direction is held.
    pub fn any(&self) -> (r: bool)
        ensures
            r == self.spec_any(),
    {
        self.up || self.right || self.down || self.left
    }

    /// The sum of the held directions.
    pub fn net(&self) -> (r: Vec2)
        ensures
            r@ == self.spec_net(),
    {
        let right: i32 = if self.right { 1 } else { 0 };
        let left: i32 = if self.left { 1 } else { 0 };
        let up: i32 = if self.up { 1 } else { 0 };
        let down: i32 = if self.down { 1 } else { 0 };
        Vec2 { x: right - left, y: up - down }
    }
}

impl PlayerMovementInfo {
    /// The speed cap that is applied: the profile's, or the largest speed
    /// that a [`Vec2`] can hold if the profile's is larger.
    pub open spec fn spec_speed_cap(self) -> int {
        if self.max_speed <= i32::MAX {
            self.max_speed as int
        } else {
            i32::MAX as int
        }
    }

    /// The speed cap that is applied.
    pub fn speed_cap(&self) -> (r: i64)
        ensures
            r == self.spec_speed_cap(),
    {
        if self.max_speed <= 0x7fff_ffff {
            self.max_speed as i64
        } else {
            0x7fff_ffff
        }
    }
}

/// The change of speed that a rate of `rate` per second makes in `dt`
/// microseconds, rounded down.
pub open spec fn speed_change(rate: int, dt: int) -> int {
    rate * dt / (MICROS_PER_SECOND as int)
}

/// `v` slowed down by `amount`: shortened by that much, or zero where it is
/// no longer than that.
pub open spec fn decelerated(v: Wide, amount: int) -> Wide {
    if v.sq_len() > amount * amount {
        Wide { x: v.x - rescaled(v.x, v.y, amount), y: v.y - rescaled(v.y, v.x, amount) }
    } else {
        Wide { x: 0, y: 0 }
    }
}

/// `v` held to the speed `cap`: given that length where it is longer.
pub open spec fn clamped(v: Wide, cap: int) -> Wide {
    if v.sq_len() > cap * cap {
        v.rescaled(cap)
    } else {
        v
    }
}

/// The direction vector of the sum of held directions `net`: the sum, given
/// the length of a direction.
pub open spec fn unit_direction(net: Wide) -> Wide {
    net.rescaled(DIRECTION_ONE as int)
}

/// The turn regime of a velocity and a desired direction, from their dot
/// product `dot` and their squared lengths `sq_speed` and `sq_direction`.
/// The cosine similarity is `dot / sqrt(sq_speed * sq_direction)`, and it is
/// compared with 0.9 and 0.98 exactly, by the squares. With no velocity there
/// is no similarity, and the regime is the aligned one.
pub open spec fn turn_regime(dot: int, sq_speed: int, sq_direction: int) -> TurnRegime {
    if dot < 0 || 100 * (dot * dot) < 81 * (sq_speed * sq_direction) {
        TurnRegime::Sharp
    } else if 2500 * (dot * dot) < 2401 * (sq_speed * sq_direction) {
        TurnRegime::Shallow
    } else {
        TurnRegime::Aligned
    }
}

/// The turn regime of the velocity `v` and the held directions' sum `net`.
pub open spec fn turn_regime_of(v: Wide, net: Wide) -> TurnRegime {
    turn_regime(v.x * net.x + v.y * net.y, v.sq_len(), net.sq_len())
}

/// The direction of the push in a shallow turn: the desired direction minus
/// 0.8 times the direction of travel, as a direction vector again.
pub open spec fn steered(v: Wide, net: Wide) -> Wide {
    let unit = unit_direction(net);
    let heading = v.rescaled(DIRECTION_ONE as int);
    Wide { x: 5 * unit.x - 4 * heading.x, y: 5 * unit.y - 4 * heading.y }.rescaled(
        DIRECTION_ONE as int,
    )
}

/// The direction of the push.
pub open spec fn push_direction(v: Wide, net: Wide) -> Wide {
    if turn_regime_of(v, net) == TurnRegime::Shallow {
        steered(v, net)
    } else {
        unit_direction(net)
    }
}

/// The factor on the push.
pub open spec fn boost(regime: TurnRegime) -> int {
    if regime == TurnRegime::Sharp {
        4
    } else {
        1
    }
}

/// `v` after a push of `strength` in the direction `direction`.
pub open spec fn pushed(v: Wide, direction: Wide, strength: int) -> Wide {
    Wide {
        x: v.x + div_toward_zero(direction.x * strength, DIRECTION_ONE as int),
        y: v.y + div_toward_zero(direction.y * strength, DIRECTION_ONE as int),
    }
}

/// `v` after a tick of `dt` microseconds in which directions with the
/// non-zero sum `net` are held.
pub open spec fn accelerated(v: Wide, movement: PlayerMovementInfo, net: Wide, dt: int) -> Wide {
    let strength = speed_change(boost(turn_regime_of(v, net)) * movement.acceleration, dt);
    clamped(pushed(v, push_direction(v, net), strength), movement.spec_speed_cap())
}

/// The velocity after a tick of `dt` microseconds. With no direction held
/// the actor slows down; with directions held that cancel each other the
/// velocity stays as it is; otherwise the actor is pushed and held to its
/// maximum speed.
pub open spec fn next_velocity(
    v: Wide,
    movement: PlayerMovementInfo,
    held: HeldDirections,
    dt: int,
) -> Wide {
    if !held.spec_any() {
        decelerated(v, speed_change(movement.deceleration as int, dt))
    } else if held.spec_net() == (Wide { x: 0, y: 0 }) {
        v
    } else {
        accelerated(v, movement, held.spec_net(), dt)
    }
}

/// What slowing down does: no component grows or changes its sign, and a
/// velocity no longer than `amount` becomes zero.
pub proof fn lemma_decelerated(v: Wide, amount: int)
    requires
        0 <= amount,
    ensures
        decelerated(v, amount).shrunk_from(v),
        v.sq_len() <= amount * amount ==> decelerated(v, amount) == (Wide { x: 0, y: 0 }),
{
    if v.sq_len() > amount * amount {
        lemma_rescaled(v.x, v.y, amount);
        lemma_rescaled(v.y, v.x, amount);
        assert(sq_len(v.y, v.x) == sq_len(v.x, v.y)) by (nonlinear_arith)
            requires
                sq_len(v.y, v.x) == v.y * v.y + v.x * v.x,
                sq_len(v.x, v.y) == v.x * v.x + v.y * v.y,
        ;
    }
}

/// Slowing down by two units or more makes an actor that moves slower.
pub proof fn lemma_decelerated_is_shorter(v: Wide, amount: int)
    requires
        2 <= amount,
        v != (Wide { x: 0, y: 0 }),
    ensures
        decelerated(v, amount).sq_len() < v.sq_len(),
{
    let after = decelerated(v, amount);
    let ax = abs(v.x);
    let ay = abs(v.y);
    assert(ax * ax == v.x * v.x && ay * ay == v.y * v.y) by (nonlinear_arith)
        requires
            ax == v.x || ax == -v.x,
            ay == v.y || ay == -v.y,
    ;
    if v.sq_len() > amount * amount {
        lemma_decelerated(v, amount);
        lemma_rescaled(v.x, v.y, amount);
        lemma_rescaled(v.y, v.x, amount);
        assert(sq_len(v.y, v.x) == sq_len(v.x, v.y)) by (nonlinear_arith)
            requires
                sq_len(v.y, v.x) == v.y * v.y + v.x * v.x,
                sq_len(v.x, v.y) == v.x * v.x + v.y * v.y,
        ;
        let bx = abs(after.x);
        let by = abs(after.y);
        assert(bx * bx == after.x * after.x && by * by == after.y * after.y) by (nonlinear_arith)
            requires
                bx == after.x || bx == -after.x,
                by == after.y || by == -after.y,
        ;
        lemma_square_monotonic(bx, ax);
        lemma_square_monotonic(by, ay);
        if ay <= ax {
            lemma_rescaled_keeps_longer_component(v.x, v.y, amount);
            lemma_square_strictly_monotonic(bx, ax);
        } else {
            lemma_rescaled_keeps_longer_component(v.y, v.x, amount);
            lemma_square_strictly_monotonic(by, ay);
        }
    } else {
        assert(ax * ax + ay * ay >= 1) by (nonlinear_arith)
            requires
                ax >= 1 || ay >= 1,
                ax >= 0,
                ay >= 0,
        ;
    }
}

/// What the speed cap does: the result is no longer than `cap`, and no
/// component has changed its sign.
pub proof fn lemma_clamped(v: Wide, cap: int)
    requires
        0 <= cap,
    ensures
        clamped(v, cap).sq_len() <= cap * cap,
        abs(clamped(v, cap).x) <= cap,
        abs(clamped(v, cap).y) <= cap,
        v.x >= 0 ==> clamped(v, cap).x >= 0,
        v.x <= 0 ==> clamped(v, cap).x <= 0,
        v.y >= 0 ==> clamped(v, cap).y >= 0,
        v.y <= 0 ==> clamped(v, cap).y <= 0,
{
    lemma_rescaled(v.x, v.y, cap);
    lemma_rescaled(v.y, v.x, cap);
    if v.sq_len() <= cap * cap {
        let ax = abs(v.x);
        let ay = abs(v.y);
        assert(ax * ax == v.x * v.x && ay * ay == v.y * v.y) by (nonlinear_arith)
            requires
                ax == v.x || ax == -v.x,
                ay == v.y || ay == -v.y,
        ;
        if ax > cap {
            lemma_square_strictly_monotonic(cap, ax);
        }
        if ay > cap {
            lemma_square_strictly_monotonic(cap, ay);
        }
        assert(ax * ax >= 0 && ay * ay >= 0) by (nonlinear_arith);
    }
}

/// A vector whose components have not grown is no longer than before.
pub proof fn lemma_shrunk_is_no_longer(after: Wide, before: Wide)
    requires
        after.shrunk_from(before),
    ensures
        after.sq_len() <= before.sq_len(),
{
    let ax = abs(after.x);
    let ay = abs(after.y);
    let bx = abs(before.x);
    let by = abs(before.y);
    lemma_square_monotonic(ax, bx);
    lemma_square_monotonic(ay, by);
    assert(ax * ax == after.x * after.x && ay * ay == after.y * after.y) by (nonlinear_arith)
        requires
            ax == after.x || ax == -after.x,
            ay == after.y || ay == -after.y,
    ;
    assert(bx * bx == before.x * before.x && by * by == before.y * before.y) by (nonlinear_arith)
        requires
            bx == before.x || bx == -before.x,
            by == before.y || by == -before.y,
    ;
}

/// The speed after a push never exceeds the profile's maximum speed,
/// whatever the velocity before, the directions held and the time passed.
pub proof fn law_push_respects_maximum_speed(
    v: Wide,
    movement: PlayerMovementInfo,
    net: Wide,
    dt: int,
)
    ensures
        accelerated(v, movement, net, dt).sq_len() <= movement.max_speed * movement.max_speed,
{
    let cap = movement.spec_speed_cap();
    let strength = speed_change(boost(turn_regime_of(v, net)) * movement.acceleration, dt);
    lemma_clamped(pushed(v, push_direction(v, net), strength), cap);
    lemma_square_monotonic(cap, movement.max_speed as int);
}

/// The speed cap keeps the direction of travel: no component changes its
/// sign, and the capped velocity lies on one line with the uncapped one up to
/// the rounding of its components (their cross product stays below the
/// longer component of the uncapped velocity).
pub proof fn law_speed_cap_keeps_direction(v: Wide, cap: int)
    requires
        0 <= cap,
    ensures
        v.x >= 0 ==> clamped(v, cap).x >= 0,
        v.x <= 0 ==> clamped(v, cap).x <= 0,
        v.y >= 0 ==> clamped(v, cap).y >= 0,
        v.y <= 0 ==> clamped(v, cap).y <= 0,
        abs(clamped(v, cap).cross(v)) <= v.longer_component(),
{
    lemma_clamped(v, cap);
    if v.sq_len() > cap * cap {
        lemma_rescaled_keeps_direction(v, cap);
    } else {
        assert(v.cross(v) == 0) by (nonlinear_arith)
            requires
                v.cross(v) == v.x * v.y - v.y * v.x,
        ;
    }
}

/// An actor that is no faster than its maximum speed is no faster than it
/// after a tick, whatever is held.
pub proof fn law_speed_stays_within_maximum(
    v: Wide,
    movement: PlayerMovementInfo,
    held: HeldDirections,
    dt: int,
)
    requires
        0 <= dt,
        v.sq_len() <= movement.max_speed * movement.max_speed,
    ensures
        next_velocity(v, movement, held, dt).sq_len() <= movement.max_speed * movement.max_speed,
{
    if !held.spec_any() {
        let amount = speed_change(movement.deceleration as int, dt);
        assert(amount >= 0) by (nonlinear_arith)
            requires
                amount == movement.deceleration * dt / 1_000_000,
                0 <= movement.deceleration,
                0 <= dt,
        ;
        lemma_decelerated(v, amount);
        lemma_shrunk_is_no_longer(decelerated(v, amount), v);
    } else if held.spec_net() == (Wide { x: 0, y: 0 }) {
    } else {
        law_push_respects_maximum_speed(v, movement, held.spec_net(), dt);
    }
}

/// Slowing down never turns the actor around, and brings it to rest: with
/// no direction held, no component of the velocity grows or changes its
/// sign; a velocity that the tick's deceleration would use up becomes
/// exactly zero; and while the actor moves, a deceleration of two units or
/// more makes it slower.
pub proof fn law_deceleration_never_overshoots(
    v: Wide,
    movement: PlayerMovementInfo,
    held: HeldDirections,
    dt: int,
)
    requires
        0 <= dt,
        !held.spec_any(),
    ensures
        next_velocity(v, movement, held, dt).shrunk_from(v),
        v.sq_len() <= speed_change(movement.deceleration as int, dt) * speed_change(
            movement.deceleration as int,
            dt,
        ) ==> next_velocity(v, movement, held, dt) == (Wide { x: 0, y: 0 }),
        speed_change(movement.deceleration as int, dt) >= 2 && v != (Wide { x: 0, y: 0 })
            ==> next_velocity(v, movement, held, dt).sq_len() < v.sq_len(),
{
    let amount = speed_change(movement.deceleration as int, dt);
    assert(amount >= 0) by (nonlinear_arith)
        requires
            amount == movement.deceleration * dt / 1_000_000,
            0 <= movement.deceleration,
            0 <= dt,
    ;
    lemma_decelerated(v, amount);
    if amount >= 2 && v != (Wide { x: 0, y: 0 }) {
        lemma_decelerated_is_shorter(v, amount);
    }
}

/// Opposite directions held together cancel: with left and right both held,
/// and up and down both held or both released (or the other way round), the
/// velocity does not change in the tick.
pub proof fn law_opposite_directions_cancel(
    v: Wide,
    movement: PlayerMovementInfo,
    held: HeldDirections,
    dt: int,
)
    requires
        (held.left && held.right && held.up == held.down) || (held.up && held.down && held.left
            == held.right),
    ensures
        next_velocity(v, movement, held, dt) == v,
{
}

/// The two thresholds belong to the regime above them: a cosine similarity of
/// exactly 0.9 is a shallow turn, and one of exactly 0.98 is aligned. Below
/// 0.9, and for every negative dot product, the turn is sharp.
pub proof fn law_turn_regime_boundaries(dot: int, sq_speed: int, sq_direction: int)
    requires
        sq_speed * sq_direction > 0,
    ensures
        dot >= 0 && 100 * (dot * dot) == 81 * (sq_speed * sq_direction) ==> turn_regime(
            dot,
            sq_speed,
            sq_direction,
        ) == TurnRegime::Shallow,
        dot >= 0 && 2500 * (dot * dot) == 2401 * (sq_speed * sq_direction) ==> turn_regime(
            dot,
            sq_speed,
            sq_direction,
        ) == TurnRegime::Aligned,
        dot < 0 || 100 * (dot * dot) < 81 * (sq_speed * sq_direction) <==> turn_regime(
            dot,
            sq_speed,
            sq_direction,
        ) == TurnRegime::Sharp,
        dot >= 0 && 2500 * (dot * dot) >= 2401 * (sq_speed * sq_direction) <==> turn_regime(
            dot,
            sq_speed,
            sq_direction,
        ) == TurnRegime::Aligned,
{
}

/// Slows `v` down by `amount`.
pub fn decelerate(v: Vec2, amount: u64) -> (r: Vec2)
    ensures
        r@ == decelerated(v@, amount as int),
        r@.shrunk_from(v@),
        v@.sq_len() <= amount * amount ==> r == (Vec2 { x: 0, y: 0 }),
{
    proof {
        lemma_decelerated(v@, amount as int);
    }
    let speed_sq: u64 = v.length_squared();
    let wide_amount: u128 = amount as u128;
    proof {
        lemma_square_monotonic(amount as int, u64::MAX as int);
        assert(u64::MAX * u64::MAX <= u128::MAX) by (nonlinear_arith);
    }
    if (speed_sq as u128) > wide_amount * wide_amount {
        proof {
            if amount >= 0x1_0000_0000 {
                lemma_square_monotonic(0x1_0000_0000, amount as int);
                assert(0x1_0000_0000int * 0x1_0000_0000int > u64::MAX) by (nonlinear_arith);
            }
            lemma_rescaled(v.x as int, v.y as int, amount as int);
            lemma_rescaled(v.y as int, v.x as int, amount as int);
        }
        let (cx, cy) = rescale(v.x as i64, v.y as i64, amount as i64);
        Vec2 { x: (v.x as i64 - cx) as i32, y: (v.y as i64 - cy) as i32 }
    } else {
        Vec2 { x: 0, y: 0 }
    }
}

/// Holds the velocity `(x, y)` to the speed `cap`.
pub fn clamp_speed(x: i64, y: i64, cap: i64) -> (r: Vec2)
    requires
        -0x8000_0000_0000 <= x <= 0x8000_0000_0000,
        -0x8000_0000_0000 <= y <= 0x8000_0000_0000,
        0 <= cap <= i32::MAX,
    ensures
        r@ == clamped(Wide { x: x as int, y: y as int }, cap as int),
        r@.sq_len() <= cap * cap,
{
    let ax: u128 = magnitude(x);
    let ay: u128 = magnitude(y);
    let wide_cap: u128 = cap as u128;
    proof {
        lemma_clamped(Wide { x: x as int, y: y as int }, cap as int);
        lemma_square_monotonic(ax as int, 0x8000_0000_0000);
        lemma_square_monotonic(ay as int, 0x8000_0000_0000);
        lemma_square_monotonic(cap as int, 0x8000_0000);
        assert(0x8000_0000_0000int * 0x8000_0000_0000int == 0x4000_0000_0000_0000_0000_0000int)
            by (nonlinear_arith);
        assert(ax * ax == x * x && ay * ay == y * y) by (nonlinear_arith)
            requires
                ax == x || ax == -x,
                ay == y || ay == -y,
        ;
    }
    if ax * ax + ay * ay > wide_cap * wide_cap {
        let (cx, cy) = rescale(x, y, cap);
        Vec2 { x: cx as i32, y: cy as i32 }
    } else {
        Vec2 { x: x as i32, y: y as i32 }
    }
}

/// Tells the turn regime from the dot product of the velocity and the desired
/// direction and from their squared lengths.
pub fn classify_turn(dot: i64, sq_speed: u64, sq_direction: u8) -> (r: TurnRegime)
    ensures
        r == turn_regime(dot as int, sq_speed as int, sq_direction as int),
{
    if dot < 0 {
        return TurnRegime::Sharp;
    }
    let d: u128 = dot as u128;
    proof {
        assert(sq_speed * sq_direction <= 0x100_0000_0000_0000_0000) by (nonlinear_arith)
            requires
                0 <= sq_speed <= 0xffff_ffff_ffff_ffff,
                0 <= sq_direction <= 0xff,
        ;
    }
    let base: u128 = (sq_speed as u128) * (sq_direction as u128);
    if d >= 0x100_0000_0000 {
        proof {
            lemma_square_monotonic(0x100_0000_0000, d as int);
            assert(0x100_0000_0000int * 0x100_0000_0000int == 0x1_0000_0000_0000_0000_0000int)
                by (nonlinear_arith);
        }
        return TurnRegime::Aligned;
    }
    proof {
        lemma_square_monotonic(d as int, 0x100_0000_0000);
        assert(0x100_0000_0000int * 0x100_0000_0000int == 0x1_0000_0000_0000_0000_0000int)
            by (nonlinear_arith);
    }
    let dd: u128 = d * d;
    if 100 * dd < 81 * base {
        TurnRegime::Sharp
    } else if 2500 * dd < 2401 * base {
        TurnRegime::Shallow
    } else {
        TurnRegime::Aligned
    }
}

/// The direction vector of a sum of held directions.
fn direction_of(net: Vec2) -> (r: Vec2)
    ensures
        r@ == unit_direction(net@),
        -DIRECTION_ONE <= r.x <= DIRECTION_ONE,
        -DIRECTION_ONE <= r.y <= DIRECTION_ONE,
{
    proof {
        lemma_rescaled(net.x as int, net.y as int, DIRECTION_ONE as int);
        lemma_rescaled(net.y as int, net.x as int, DIRECTION_ONE as int);
    }
    let (x, y) = rescale(net.x as i64, net.y as i64, DIRECTION_ONE as i64);
    Vec2 { x: x as i32, y: y as i32 }
}

/// The direction of the push in a shallow turn, from the velocity and the
/// direction vector of the held directions.
fn steer(v: Vec2, unit: Vec2) -> (r: Vec2)
    requires
        -DIRECTION_ONE <= unit.x <= DIRECTION_ONE,
        -DIRECTION_ONE <= unit.y <= DIRECTION_ONE,
    ensures
        r@ == (Wide {
            x: 5 * unit.x - 4 * v@.rescaled(DIRECTION_ONE as int).x,
            y: 5 * unit.y - 4 * v@.rescaled(DIRECTION_ONE as int).y,
        }).rescaled(DIRECTION_ONE as int),
        -DIRECTION_ONE <= r.x <= DIRECTION_ONE,
        -DIRECTION_ONE <= r.y <= DIRECTION_ONE,
{
    proof {
        lemma_rescaled(v.x as int, v.y as int, DIRECTION_ONE as int);
        lemma_rescaled(v.y as int, v.x as int, DIRECTION_ONE as int);
    }
    let (hx, hy) = rescale(v.x as i64, v.y as i64, DIRECTION_ONE as i64);
    let wx: i64 = 5 * (unit.x as i64) - 4 * hx;
    let wy: i64 = 5 * (unit.y as i64) - 4 * hy;
    proof {
        lemma_rescaled(wx as int, wy as int, DIRECTION_ONE as int);
        lemma_rescaled(wy as int, wx as int, DIRECTION_ONE as int);
    }
    let (rx, ry) = rescale(wx, wy, DIRECTION_ONE as i64);
    Vec2 { x: rx as i32, y: ry as i32 }
}

/// One component of a push: the direction's component times the strength,
/// divided by the length of a direction, rounded toward zero.
fn push_component(direction: i32, strength: u128) -> (r: i64)
    requires
        -DIRECTION_ONE <= direction <= DIRECTION_ONE,
        strength <= 74_000_000_000_000,
    ensures
        r == div_toward_zero(direction * strength, DIRECTION_ONE as int),
        -74_000_000_000_000 <= r <= 74_000_000_000_000,
{
    let a: u128 = magnitude(direction as i64);
    proof {
        assert(a * strength <= DIRECTION_ONE * strength) by (nonlinear_arith)
            requires
                0 <= a <= DIRECTION_ONE,
                0 <= strength,
        ;
        assert(a * strength == direction * strength || a * strength == -(direction * strength))
            by (nonlinear_arith)
            requires
                a == direction || a == -direction,
        ;
        assert(direction >= 0 ==> direction * strength >= 0) by (nonlinear_arith)
            requires
                0 <= strength,
        ;
        assert(direction < 0 ==> direction * strength <= 0) by (nonlinear_arith)
            requires
                0 <= strength,
        ;
    }
    let q: u128 = (a * strength) / (DIRECTION_ONE as u128);
    if direction >= 0 {
        q as i64
    } else {
        -(q as i64)
    }
}

/// Pushes `v` in the held directions for `dt_micros` microseconds and holds
/// the result to the profile's maximum speed.
pub fn accelerate(
    v: Vec2,
    movement: &PlayerMovementInfo,
    held: &HeldDirections,
    dt_micros: u32,
) -> (r: Vec2)
    ensures
        r@ == accelerated(v@, *movement, held.spec_net(), dt_micros as int),
        r@.sq_len() <= movement.spec_speed_cap() * movement.spec_speed_cap(),
        r@.sq_len() <= movement.max_speed * movement.max_speed,
{
    let net: Vec2 = held.net();
    proof {
        assert(-0x8000_0000 <= v.x * net.x <= 0x8000_0000) by (nonlinear_arith)
            requires
                -0x8000_0000 <= v.x <= 0x8000_0000,
                -1 <= net.x <= 1,
        ;
        assert(-0x8000_0000 <= v.y * net.y <= 0x8000_0000) by (nonlinear_arith)
            requires
                -0x8000_0000 <= v.y <= 0x8000_0000,
                -1 <= net.y <= 1,
        ;
        assert(0 <= net.x * net.x <= 1 && 0 <= net.y * net.y <= 1) by (nonlinear_arith)
            requires
                -1 <= net.x <= 1,
                -1 <= net.y <= 1,
        ;
    }
    let dot: i64 = v.dot(net) as i64;
    let sq_speed: u64 = v.length_squared();
    let sq_direction: u8 = (net.x * net.x + net.y * net.y) as u8;
    let regime: TurnRegime = classify_turn(dot, sq_speed, sq_direction);
    let unit: Vec2 = direction_of(net);
    let direction: Vec2 = match regime {
        TurnRegime::Shallow => steer(v, unit),
        _ => unit,
    };
    let factor: u128 = match regime {
        TurnRegime::Sharp => 4,
        _ => 1,
    };
    proof {
        assert(factor * movement.acceleration * dt_micros <= 4 * 0xffff_ffff * 0xffff_ffff)
            by (nonlinear_arith)
            requires
                0 <= factor <= 4,
                0 <= movement.acceleration <= 0xffff_ffff,
                0 <= dt_micros <= 0xffff_ffff,
        ;
    }
    let product: u128 = (factor * (movement.acceleration as u128)) * (dt_micros as u128);
    let strength: u128 = product / (MICROS_PER_SECOND as u128);
    proof {
        assert(strength == product / 1_000_000);
    }
    let px: i64 = push_component(direction.x, strength);
    let py: i64 = push_component(direction.y, strength);
    let cap: i64 = movement.speed_cap();
    proof {
        lemma_square_monotonic(movement.spec_speed_cap(), movement.max_speed as int);
    }
    clamp_speed(v.x as i64 + px, v.y as i64 + py, cap)
}

/// Moves the actor's velocity on by one tick of `dt_micros` microseconds.
///
/// With no direction held the actor slows down by `deceleration * dt` and
/// stops rather than turn around. With directions held that cancel each
/// other the velocity stays as it is. Otherwise the actor is pushed by
/// `acceleration * dt` in the held direction (four times that in a sharp
/// turn, steered against the current velocity in a shallow one) and held to
/// `max_speed`.
pub fn player_movement_system(
    velocity: &mut Velocity,
    movement: &PlayerMovementInfo,
    held: &HeldDirections,
    dt_micros: u32,
)
    ensures
        final(velocity).linvel@ == next_velocity(
            old(velocity).linvel@,
            *movement,
            *held,
            dt_micros as int,
        ),
        held.spec_any() && held.spec_net() != (Wide { x: 0, y: 0 })
            ==> final(velocity).linvel@.sq_len() <= movement.max_speed * movement.max_speed,
        !held.spec_any() ==> final(velocity).linvel@.shrunk_from(old(velocity).linvel@),
        held.spec_any() && held.spec_net() == (Wide { x: 0, y: 0 })
            ==> final(velocity).linvel == old(velocity).linvel,
{
    let v: Vec2 = velocity.linvel;
    if !held.any() {
        proof {
            assert(movement.deceleration * dt_micros <= 0xffff_ffff * 0xffff_ffff)
                by (nonlinear_arith)
                requires
                    0 <= movement.deceleration <= 0xffff_ffff,
                    0 <= dt_micros <= 0xffff_ffff,
            ;
        }
        let amount: u64 = (movement.deceleration as u64) * (dt_micros as u64)
            / (MICROS_PER_SECOND as u64);
        velocity.linvel = decelerate(v, amount);
    } else {
        let net: Vec2 = held.net();
        if net.x == 0 && net.y == 0 {
            return ;
        }
        velocity.linvel = accelerate(v, movement, held, dt_micros);
    }
}

} // verus!
