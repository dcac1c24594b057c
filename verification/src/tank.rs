use vstd::prelude::*;
use crate::normalize_angle;
use crate::norm_spec;
use crate::FULL_TURN_MDEG;

verus! {

/// Top speed of a tank chassis, in milli-units per second (2.0 units/s).
pub const MAX_TANK_SPEED_MILLI: i64 = 2_000;
/// Acceleration applied by a full forward or backward input, in
/// milli-units per second squared (6.0 units/s^2).
pub const TANK_ACCELERATION_MILLI: i64 = 6_000;
/// Braking rate applied when no drive input is given, in milli-units per
/// second squared (4.0 units/s^2).
pub const TANK_BRAKING_MILLI: i64 = 4_000;
/// Chassis turn rate for a full rotation input, in millidegrees per
/// second (140 degrees/s).
pub const TANK_ROTATE_RATE_MDEG: i64 = 140_000;

/// Largest tick length accepted by the per-tick update functions, in
/// milliseconds; keeps all intermediate products well inside `i64`.
pub const MAX_TICK_MS: u64 = 1_000_000;

/// Drive intent for one tick, produced by user input or an AI.
/// Strengths are in per-mille of the full input range.
pub struct TankBodyInput {
    /// Strength of the forward action, 0..=1000.
    forward: i64,
    /// Strength of the backward action, 0..=1000.
    backward: i64,
    /// Rotation strength, -1000..=1000; negative turns clockwise.
    rotate: i64,
}

impl TankBodyInput {
    pub closed spec fn forward(&self) -> int {
        self.forward as int
    }

    pub closed spec fn backward(&self) -> int {
        self.backward as int
    }

    pub closed spec fn rotate(&self) -> int {
        self.rotate as int
    }

    pub closed spec fn wf(&self) -> bool {
        &&& 0 <= self.forward <= 1000
        &&& 0 <= self.backward <= 1000
        &&& -1000 <= self.rotate <= 1000
    }

    /// Build a drive input, clamping each strength into its range.
    pub fn new(forward: i64, backward: i64, rotate: i64) -> (r: TankBodyInput)
        ensures
            r.wf(),
            r.forward() == clamp_i64(forward as int, 0, 1000),
            r.backward() == clamp_i64(backward as int, 0, 1000),
            r.rotate() == clamp_i64(rotate as int, -1000, 1000),
    {
        TankBodyInput {
            forward: clamp(forward, 0, 1000),
            backward: clamp(backward, 0, 1000),
            rotate: clamp(rotate, -1000, 1000),
        }
    }
}

/// The mutable per-entity state of a tank chassis.
pub struct TankBody {
    /// Current longitudinal speed in milli-units per second; positive is
    /// forward. Always within `[-MAX_TANK_SPEED_MILLI, MAX_TANK_SPEED_MILLI]`.
    pub speed_milli: i64,
    /// Current chassis orientation in millidegrees, normalized to
    /// `[0, FULL_TURN_MDEG)`.
    pub orientation_mdeg: i64,
    /// Display name of the tank.
    pub name: String,
    /// Whether this tank is driven by the player.
    pub player_controlled: bool,
}

impl TankBody {
    pub open spec fn wf(&self) -> bool {
        &&& -MAX_TANK_SPEED_MILLI <= self.speed_milli <= MAX_TANK_SPEED_MILLI
        &&& 0 <= self.orientation_mdeg < FULL_TURN_MDEG
    }

    /// A tank at rest facing angle zero.
    pub fn new(name: String, player_controlled: bool) -> (r: TankBody)
        ensures
            r.wf(),
            r.speed_milli == 0,
            r.orientation_mdeg == 0,
            r.name == name,
            r.player_controlled == player_controlled,
    {
        TankBody { speed_milli: 0, orientation_mdeg: 0, name, player_controlled }
    }
}

/// The velocity a tank asks the physics collaborator to apply, in polar
/// form: a direction in millidegrees and a magnitude in milli-units per
/// second. The collaborator turns it into a Cartesian vector.
pub struct VelocityCommand {
    pub angle_mdeg: i64,
    pub speed_milli: i64,
}

pub open spec fn clamp_i64(v: int, lo: int, hi: int) -> int {
    if v < lo {
        lo
    } else if v > hi {
        hi
    } else {
        v
    }
}

fn clamp(v: i64, lo: i64, hi: i64) -> (r: i64)
    requires
        lo <= hi,
    ensures
        r == clamp_i64(v as int, lo as int, hi as int),
{
    if v < lo {
        lo
    } else if v > hi {
        hi
    } else {
        v
    }
}

/// How far the chassis turns this tick, in millidegrees: the rotation
/// input scaled by the turn rate and the tick length. Truncation is
/// toward zero, as the strength and the rate are applied symmetrically
/// for either turning direction.
pub open spec fn spin_delta_mdeg(rotate: int, dt_ms: int) -> int {
    if rotate >= 0 {
        rotate * TANK_ROTATE_RATE_MDEG * dt_ms / 1_000_000
    } else {
        -((-rotate) * TANK_ROTATE_RATE_MDEG * dt_ms / 1_000_000)
    }
}

/// Speed added this tick by a drive input at strength `s` (per-mille),
/// in milli-units per second.
pub open spec fn accel_delta_milli(s: int, dt_ms: int) -> int {
    s * TANK_ACCELERATION_MILLI * dt_ms / 1_000_000
}

/// Braking moves the speed toward zero by up to `dec`, never past zero.
pub open spec fn brake_toward_zero(speed: int, dec: int) -> int {
    if speed >= 0 {
        if dec <= speed {
            speed - dec
        } else {
            0
        }
    } else {
        if dec <= -speed {
            speed + dec
        } else {
            0
        }
    }
}

/// The chassis speed after one tick: acceleration from the drive inputs,
/// then braking when no drive input was given, then the unconditional
/// clamp to the top speed.
pub open spec fn body_speed_after(speed: int, forward: int, backward: int, dt_ms: int) -> int {
    let accelerated = speed + accel_delta_milli(forward, dt_ms) - accel_delta_milli(
        backward,
        dt_ms,
    );
    let braked = if forward == 0 && backward == 0 {
        brake_toward_zero(accelerated, TANK_BRAKING_MILLI * dt_ms / 1000)
    } else {
        accelerated
    };
    clamp_i64(braked, -MAX_TANK_SPEED_MILLI as int, MAX_TANK_SPEED_MILLI as int)
}

/// The chassis orientation after one tick, normalized.
pub open spec fn body_orientation_after(orientation: int, rotate: int, dt_ms: int) -> int {
    norm_spec(orientation + spin_delta_mdeg(rotate, dt_ms))
}

/// A per-mille strength times a rate times the tick length in
/// milliseconds, scaled back down; the common shape of the control-law
/// integration terms.
fn scaled_term(s: i64, rate: i64, dt: i64) -> (r: i64)
    requires
        0 <= s <= 1000,
        0 <= rate <= 1_000_000,
        0 <= dt <= MAX_TICK_MS,
    ensures
        r == s * rate * dt / 1_000_000,
        0 <= r <= 1_000_000_000_000,
{
    proof {
        assert(0 <= s * rate <= 1_000_000_000 && 0 <= s * rate * dt <= 1000 * 1_000_000
            * 1_000_000)
            by (nonlinear_arith)
            requires
                0 <= s <= 1000,
                0 <= rate <= 1_000_000,
                0 <= dt <= 1_000_000,
        ;
    }
    s * rate * dt / 1_000_000
}

/// One tick of the tank chassis control law: rotate by the rotation
/// input, integrate the drive inputs into the speed, brake when idle,
/// clamp the speed, and emit the velocity for the physics collaborator.
#[verifier::rlimit(60)]
pub fn update_tank_body_input(body: &mut TankBody, input: &TankBodyInput, dt_ms: u64) -> (vel:
    VelocityCommand)
    requires
        old(body).wf(),
        input.wf(),
        dt_ms <= MAX_TICK_MS,
    ensures
        final(body).wf(),
        final(body).orientation_mdeg == body_orientation_after(
            old(body).orientation_mdeg as int,
            input.rotate(),
            dt_ms as int,
        ),
        final(body).speed_milli == body_speed_after(
            old(body).speed_milli as int,
            input.forward(),
            input.backward(),
            dt_ms as int,
        ),
        final(body).name == old(body).name,
        final(body).player_controlled == old(body).player_controlled,
        vel.angle_mdeg == final(body).orientation_mdeg,
        vel.speed_milli == final(body).speed_milli,
{
    let dt = dt_ms as i64;
    if input.rotate != 0 {
        let delta: i64 = if input.rotate >= 0 {
            scaled_term(input.rotate, TANK_ROTATE_RATE_MDEG, dt)
        } else {
            -scaled_term(-input.rotate, TANK_ROTATE_RATE_MDEG, dt)
        };
        body.orientation_mdeg = normalize_angle(body.orientation_mdeg + delta);
    } else {
        proof {
            assert(input.rotate() * TANK_ROTATE_RATE_MDEG * (dt as int) == 0) by (nonlinear_arith)
                requires
                    input.rotate() == 0,
            ;
            assert(spin_delta_mdeg(input.rotate(), dt as int) == 0);
            assert(norm_spec(old(body).orientation_mdeg as int) == old(
                body,
            ).orientation_mdeg as int) by {
                vstd::arithmetic::div_mod::lemma_small_mod(
                    old(body).orientation_mdeg as nat,
                    FULL_TURN_MDEG as nat,
                );
            }
        }
    }

    let mut accelerating = false;
    if input.forward != 0 {
        body.speed_milli = body.speed_milli + scaled_term(
            input.forward,
            TANK_ACCELERATION_MILLI,
            dt,
        );
        accelerating = true;
    }
    if input.backward != 0 {
        body.speed_milli = body.speed_milli - scaled_term(
            input.backward,
            TANK_ACCELERATION_MILLI,
            dt,
        );
        accelerating = true;
    }

    if !accelerating {
        let dec = TANK_BRAKING_MILLI * dt / 1000;
        if body.speed_milli >= 0 {
            body.speed_milli = if dec <= body.speed_milli {
                body.speed_milli - dec
            } else {
                0
            };
        } else {
            body.speed_milli = if dec <= -body.speed_milli {
                body.speed_milli + dec
            } else {
                0
            };
        }
    }

    body.speed_milli = clamp(body.speed_milli, -MAX_TANK_SPEED_MILLI, MAX_TANK_SPEED_MILLI);

    VelocityCommand { angle_mdeg: body.orientation_mdeg, speed_milli: body.speed_milli }
}

} // verus!

