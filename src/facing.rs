//! Headings and how an agent turns: angles are integer microradians, wrapped
//! to the half-open range (-PI_MICRO, PI_MICRO].
use vstd::prelude::*;

verus! {

/// Half a turn, in microradians.
pub const PI_MICRO: i64 = 3141593;

/// A whole turn, in microradians.
pub const TAU_MICRO: i64 = 6283186;

/// Largest magnitude of an angle handed to the turning functions.
pub const ANGLE_LIMIT: i64 = 1000000000000;

/// Largest turn rate, in microradians per second.
pub const MAX_TURN_RATE: i64 = 1000000000;

/// Longest time step, in milliseconds.
pub const MAX_STEP_MS: i64 = 3600000;

/// `a` brought into (-PI_MICRO, PI_MICRO] by whole turns.
pub open spec fn wrap(a: int) -> int {
    PI_MICRO - (PI_MICRO - a) % (TAU_MICRO as int)
}

/// The signed turn of least size that brings heading `from` onto `to`.
pub open spec fn shortest_turn(from: int, to: int) -> int {
    wrap(to - from)
}

/// The most that `turn_rate` microradians per second turn in `dt_ms`
/// milliseconds.
pub open spec fn max_step(turn_rate: int, dt_ms: int) -> int {
    turn_rate * dt_ms / 1000
}

/// `needed`, cut down to at most `step` in size, sign kept.
pub open spec fn limit_turn(needed: int, step: int) -> int {
    if needed > step {
        step
    } else if needed < -step {
        -step
    } else {
        needed
    }
}

/// `a` brought into (-PI_MICRO, PI_MICRO] by whole turns.
pub fn wrap_angle(a: i64) -> (r: i64)
    requires
        -4 * ANGLE_LIMIT <= a <= 4 * ANGLE_LIMIT,
    ensures
        r == wrap(a as int),
        -PI_MICRO < r <= PI_MICRO,
{
    let m = PI_MICRO - a;
    let rem = if m >= 0 {
        m % TAU_MICRO
    } else {
        let k = (-m - 1) % TAU_MICRO;
        proof {
            let mi = m as int;
            let t = TAU_MICRO as int;
            vstd::arithmetic::div_mod::lemma_fundamental_div_mod(-mi - 1, t);
            vstd::arithmetic::div_mod::lemma_fundamental_div_mod_converse(
                mi,
                t,
                -((-mi - 1) / t) - 1,
                t - 1 - (-mi - 1) % t,
            );
        }
        TAU_MICRO - 1 - k
    };
    PI_MICRO - rem
}

/// Where an agent faces, and how fast it can turn.
pub struct Facing {
    pub angle: i64,
    pub turn_rate: i64,
}

impl Facing {
    /// Heading wrapped, turn rate within bounds.
    pub open spec fn wf(self) -> bool {
        -PI_MICRO < self.angle <= PI_MICRO && 0 <= self.turn_rate <= MAX_TURN_RATE
    }

    /// Facing along +x, turning at `turn_rate` microradians per second.
    pub fn new(turn_rate: i64) -> (r: Facing)
        ensures
            r.angle == 0,
            r.turn_rate == turn_rate,
    {
        Facing { angle: 0, turn_rate }
    }

    /// Turns towards `target_angle` the short way round, by at most what the
    /// turn rate allows in `dt_ms` milliseconds.
    pub fn turn_towards(&mut self, target_angle: i64, dt_ms: i64)
        requires
            old(self).wf(),
            -ANGLE_LIMIT <= target_angle <= ANGLE_LIMIT,
            0 <= dt_ms <= MAX_STEP_MS,
        ensures
            final(self).wf(),
            final(self).turn_rate == old(self).turn_rate,
            final(self).angle == wrap(
                old(self).angle + limit_turn(
                    shortest_turn(old(self).angle as int, target_angle as int),
                    max_step(old(self).turn_rate as int, dt_ms as int),
                ),
            ),
    {
        let needed_turn = wrap_angle(target_angle - self.angle);
        proof {
            assert(0 <= self.turn_rate * dt_ms <= MAX_TURN_RATE * MAX_STEP_MS) by (nonlinear_arith)
                requires 0 <= self.turn_rate <= MAX_TURN_RATE, 0 <= dt_ms <= MAX_STEP_MS;
        }
        let step = self.turn_rate * dt_ms / 1000;
        let change = if needed_turn > step {
            step
        } else if needed_turn < -step {
            -step
        } else {
            needed_turn
        };
        self.angle = wrap_angle(self.angle + change);
    }

    /// Turns by what the turn rate allows in `dt_ms` milliseconds, towards
    /// increasing angles when `direction` is positive, decreasing ones when it
    /// is negative; not at all when it is zero.
    pub fn turn(&mut self, direction: i64, dt_ms: i64)
        requires
            old(self).wf(),
            0 <= dt_ms <= MAX_STEP_MS,
        ensures
            final(self).wf(),
            final(self).turn_rate == old(self).turn_rate,
            final(self).angle == wrap(
                old(self).angle + if direction > 0 {
                    max_step(old(self).turn_rate as int, dt_ms as int)
                } else if direction < 0 {
                    -max_step(old(self).turn_rate as int, dt_ms as int)
                } else {
                    0
                },
            ),
    {
        proof {
            assert(0 <= self.turn_rate * dt_ms <= MAX_TURN_RATE * MAX_STEP_MS) by (nonlinear_arith)
                requires 0 <= self.turn_rate <= MAX_TURN_RATE, 0 <= dt_ms <= MAX_STEP_MS;
        }
        let step = self.turn_rate * dt_ms / 1000;
        let change = if direction > 0 {
            step
        } else if direction < 0 {
            -step
        } else {
            0
        };
        self.angle = wrap_angle(self.angle + change);
    }
}

/// A turn towards a target never goes the long way round: the heading moves
/// by at most half a turn, in the direction of the shortest turn, and never
/// past the target.
pub proof fn lemma_turn_short_way(angle: int, target: int, step: int)
    requires
        step >= 0,
    ensures
        -PI_MICRO < shortest_turn(angle, target) <= PI_MICRO,
        limit_turn(shortest_turn(angle, target), step) * shortest_turn(angle, target) >= 0,
        -PI_MICRO < limit_turn(shortest_turn(angle, target), step) <= PI_MICRO,
        (if limit_turn(shortest_turn(angle, target), step) >= 0 {
            limit_turn(shortest_turn(angle, target), step)
        } else {
            -limit_turn(shortest_turn(angle, target), step)
        }) <= (if shortest_turn(angle, target) >= 0 {
            shortest_turn(angle, target)
        } else {
            -shortest_turn(angle, target)
        }),
{
    let d = shortest_turn(angle, target);
    vstd::arithmetic::div_mod::lemma_mod_bound(PI_MICRO - (target - angle), TAU_MICRO as int);
    assert(limit_turn(d, step) * d >= 0) by (nonlinear_arith)
        requires
            limit_turn(d, step) == if d > step { step } else if d < -step { -step } else { d },
            step >= 0;
}

} // verus!
