use vstd::prelude::*;
use crate::normalize_angle;
use crate::norm_spec;
use crate::FULL_TURN_MDEG;
use crate::tank::MAX_TICK_MS;

verus! {

/// Turret turn rate for the gun, in millidegrees per second (220 degrees/s).
pub const GUN_ROTATE_RATE_MDEG: i64 = 220_000;
/// Speed given to a spawned bullet, in milli-units per second (18.0 units/s).
pub const BULLET_SHOOT_SPEED_MILLI: i64 = 18_000;
/// Half extent of a bullet, in milli-units (bullets are 0.2 x 0.2 units).
pub const BULLET_HALF_EXTENT_MILLI: i64 = 100;
/// The square root of two in milli fixed point; scales a half extent to
/// the radius of the circle that circumscribes the bounding box.
pub const SQRT2_MILLI: i64 = 1_414;
/// The reload interval: one ammunition point per full second.
pub const RELOAD_PERIOD_MS: u64 = 1_000;
/// Half a turn in millidegrees; the largest possible shortest-arc error.
pub const HALF_TURN_MDEG: i64 = 180_000;

/// Aim intent for one tick, produced by user input or an AI.
pub struct TankGunInput {
    /// Desired gun angle in millidegrees, normalized to `[0, FULL_TURN_MDEG)`.
    pub gun_angle_mdeg: i64,
    /// True if shooting the gun is desired this update.
    pub shoot: bool,
}

impl TankGunInput {
    pub open spec fn wf(&self) -> bool {
        0 <= self.gun_angle_mdeg < FULL_TURN_MDEG
    }

    /// Build an aim input, reducing the desired angle modulo a full turn.
    pub fn new(gun_angle_mdeg: i64, shoot: bool) -> (r: TankGunInput)
        ensures
            r.wf(),
            r.gun_angle_mdeg == norm_spec(gun_angle_mdeg as int),
            r.shoot == shoot,
    {
        TankGunInput { gun_angle_mdeg: normalize_angle(gun_angle_mdeg), shoot }
    }
}

/// Ammunition pool and reload timer of one turret.
pub struct TankGun {
    /// Shots currently available; never exceeds `max_ammo`.
    pub ammo: u64,
    /// Capacity of the ammunition pool.
    pub max_ammo: u64,
    /// Time accumulated toward the next reload, in milliseconds; always
    /// below `RELOAD_PERIOD_MS`.
    pub elapsed_ms: u64,
}

impl TankGun {
    pub open spec fn wf(&self) -> bool {
        &&& self.ammo <= self.max_ammo
        &&& self.elapsed_ms < RELOAD_PERIOD_MS
    }

    /// A full gun with an idle reload timer.
    pub fn new(max_ammo: u64) -> (r: TankGun)
        ensures
            r.wf(),
            r.ammo == max_ammo,
            r.max_ammo == max_ammo,
            r.elapsed_ms == 0,
    {
        TankGun { ammo: max_ammo, max_ammo, elapsed_ms: 0 }
    }

    /// Accumulate `dt_ms` into the reload timer; each completed period
    /// restores one ammunition point, capped at the pool's capacity.
    pub fn reload(&mut self, dt_ms: u64)
        requires
            old(self).wf(),
            dt_ms <= MAX_TICK_MS,
        ensures
            final(self).wf(),
            final(self).max_ammo == old(self).max_ammo,
            final(self).elapsed_ms == reload_elapsed_after(
                old(self).elapsed_ms as int,
                dt_ms as int,
            ),
            final(self).ammo == reload_ammo_after(
                old(self).ammo as int,
                old(self).max_ammo as int,
                old(self).elapsed_ms as int,
                dt_ms as int,
            ),
    {
        let total = self.elapsed_ms + dt_ms;
        let credits = total / RELOAD_PERIOD_MS;
        self.elapsed_ms = total % RELOAD_PERIOD_MS;
        if credits >= self.max_ammo - self.ammo {
            self.ammo = self.max_ammo;
        } else {
            self.ammo = self.ammo + credits;
        }
    }

    /// Spend one ammunition point and describe the bullet to spawn: it
    /// leaves from the turret position, along the turret's world angle,
    /// displaced so that it starts outside the shooter's collision box.
    /// With an empty pool nothing happens.
    pub fn fire(
        &mut self,
        owner: u64,
        world_angle_mdeg: i64,
        pos_x_milli: i64,
        pos_y_milli: i64,
        half_x_milli: i64,
        half_y_milli: i64,
    ) -> (r: Option<BulletSpawnRequest>)
        requires
            old(self).wf(),
            0 <= half_x_milli <= 1_000_000_000,
            0 <= half_y_milli <= 1_000_000_000,
        ensures
            final(self).wf(),
            final(self).max_ammo == old(self).max_ammo,
            final(self).elapsed_ms == old(self).elapsed_ms,
            old(self).ammo == 0 ==> final(self).ammo == 0 && r is None,
            old(self).ammo > 0 ==> {
                &&& final(self).ammo == old(self).ammo - 1
                &&& r matches Some(b)
                &&& r matches Some(b) ==> {
                    &&& b.owner == owner
                    &&& b.origin_x_milli == pos_x_milli
                    &&& b.origin_y_milli == pos_y_milli
                    &&& b.angle_mdeg == world_angle_mdeg
                    &&& b.spawn_distance_milli == spawn_distance_milli(
                        half_x_milli as int,
                        half_y_milli as int,
                    )
                    &&& b.speed_milli == BULLET_SHOOT_SPEED_MILLI
                    &&& b.half_extent_milli == BULLET_HALF_EXTENT_MILLI
                }
            },
    {
        if self.ammo == 0 {
            return None;
        }
        self.ammo = self.ammo - 1;
        let larger = if half_x_milli >= half_y_milli {
            half_x_milli
        } else {
            half_y_milli
        };
        let distance = (larger + BULLET_HALF_EXTENT_MILLI) * SQRT2_MILLI / 1000;
        Some(
            BulletSpawnRequest {
                owner,
                origin_x_milli: pos_x_milli,
                origin_y_milli: pos_y_milli,
                angle_mdeg: world_angle_mdeg,
                spawn_distance_milli: distance,
                speed_milli: BULLET_SHOOT_SPEED_MILLI,
                half_extent_milli: BULLET_HALF_EXTENT_MILLI,
            },
        )
    }
}

/// What the spawn collaborator needs to materialize one bullet. The
/// start point is `spawn_distance_milli` away from the origin along
/// `angle_mdeg`, and the velocity points the same way with magnitude
/// `speed_milli`.
#[derive(Clone, Copy, PartialEq, Eq, Structural, Debug)]
pub struct BulletSpawnRequest {
    pub owner: u64,
    pub origin_x_milli: i64,
    pub origin_y_milli: i64,
    pub angle_mdeg: i64,
    pub spawn_distance_milli: i64,
    pub speed_milli: i64,
    pub half_extent_milli: i64,
}

/// The reload timer after one tick: accumulated time modulo the period.
pub open spec fn reload_elapsed_after(elapsed: int, dt: int) -> int {
    (elapsed + dt) % (RELOAD_PERIOD_MS as int)
}

/// The ammunition count after one tick: one point per completed period,
/// capped at the capacity.
pub open spec fn reload_ammo_after(ammo: int, max_ammo: int, elapsed: int, dt: int) -> int {
    let credits = (elapsed + dt) / (RELOAD_PERIOD_MS as int);
    if ammo + credits >= max_ammo {
        max_ammo
    } else {
        ammo + credits
    }
}

/// Distance from the turret center at which a bullet appears: the
/// circumscribing radius of the shooter's bounding box grown by the
/// bullet's own half extent.
pub open spec fn spawn_distance_milli(half_x: int, half_y: int) -> int {
    let larger = if half_x >= half_y {
        half_x
    } else {
        half_y
    };
    (larger + BULLET_HALF_EXTENT_MILLI) * SQRT2_MILLI / 1000
}

/// The total of a sequence of tick lengths.
pub open spec fn total_ms(dts: Seq<int>) -> int
    decreases dts.len(),
{
    if dts.len() == 0 {
        0
    } else {
        dts[0] + total_ms(dts.subrange(1, dts.len() as int))
    }
}

/// The ammunition count and reload timer after a sequence of reload
/// ticks, starting from the given state.
pub open spec fn reload_seq(ammo: int, max_ammo: int, elapsed: int, dts: Seq<int>) -> (int, int)
    decreases dts.len(),
{
    if dts.len() == 0 {
        (ammo, elapsed)
    } else {
        reload_seq(
            reload_ammo_after(ammo, max_ammo, elapsed, dts[0]),
            max_ammo,
            reload_elapsed_after(elapsed, dts[0]),
            dts.subrange(1, dts.len() as int),
        )
    }
}

/// A total of non-negative tick lengths is itself non-negative.
pub proof fn lemma_total_nonneg(dts: Seq<int>)
    requires
        forall|i: int| 0 <= i < dts.len() ==> dts[i] >= 0,
    ensures
        total_ms(dts) >= 0,
    decreases dts.len(),
{
    if dts.len() > 0 {
        lemma_total_nonneg(dts.subrange(1, dts.len() as int));
    }
}

/// Reload ticks that add no time at all leave the gun exactly as it was.
pub proof fn lemma_reload_zero_total(ammo: int, max_ammo: int, dts: Seq<int>)
    requires
        0 <= ammo <= max_ammo,
        forall|i: int| 0 <= i < dts.len() ==> dts[i] >= 0,
        total_ms(dts) == 0,
    ensures
        reload_seq(ammo, max_ammo, 0, dts) == (ammo, 0int),
    decreases dts.len(),
{
    if dts.len() > 0 {
        let rest = dts.subrange(1, dts.len() as int);
        lemma_total_nonneg(rest);
        assert(dts[0] == 0);
        assert(reload_ammo_after(ammo, max_ammo, 0, 0) == ammo);
        assert(reload_elapsed_after(0, 0) == 0);
        lemma_reload_zero_total(ammo, max_ammo, rest);
    }
}

/// Law: reload ticks that, together with the time already accumulated,
/// add up to exactly one reload period restore exactly one ammunition
/// point, capped at the capacity, and leave the timer idle.
pub proof fn lemma_reload_completes_period(ammo: int, max_ammo: int, elapsed: int, dts: Seq<int>)
    requires
        0 <= ammo <= max_ammo,
        0 <= elapsed < RELOAD_PERIOD_MS,
        forall|i: int| 0 <= i < dts.len() ==> dts[i] >= 0,
        elapsed + total_ms(dts) == RELOAD_PERIOD_MS,
    ensures
        reload_seq(ammo, max_ammo, elapsed, dts) == (
            if ammo + 1 >= max_ammo {
                max_ammo
            } else {
                ammo + 1
            },
            0int,
        ),
    decreases dts.len(),
{
    let rest = dts.subrange(1, dts.len() as int);
    lemma_total_nonneg(dts);
    if dts.len() > 0 {
        lemma_total_nonneg(rest);
        let d = dts[0];
        assert(elapsed + d <= RELOAD_PERIOD_MS);
        if elapsed + d < RELOAD_PERIOD_MS {
            assert(reload_ammo_after(ammo, max_ammo, elapsed, d) == ammo);
            assert(reload_elapsed_after(elapsed, d) == elapsed + d) by {
                vstd::arithmetic::div_mod::lemma_small_mod(
                    (elapsed + d) as nat,
                    RELOAD_PERIOD_MS as nat,
                );
            }
            lemma_reload_completes_period(ammo, max_ammo, elapsed + d, rest);
        } else {
            assert((elapsed + d) / (RELOAD_PERIOD_MS as int) == 1 && (elapsed + d) % (
            RELOAD_PERIOD_MS as int) == 0);
            assert(reload_elapsed_after(elapsed, d) == 0);
            let a2 = reload_ammo_after(ammo, max_ammo, elapsed, d);
            assert(a2 == if ammo + 1 >= max_ammo {
                max_ammo
            } else {
                ammo + 1
            });
            lemma_reload_zero_total(a2, max_ammo, rest);
        }
    }
}

/// Law: a single reload tick of exactly one period, on an idle timer,
/// restores exactly one ammunition point, capped at the capacity.
pub proof fn lemma_reload_one_full_second(ammo: int, max_ammo: int)
    requires
        0 <= ammo <= max_ammo,
    ensures
        reload_ammo_after(ammo, max_ammo, 0, RELOAD_PERIOD_MS as int) == (
            if ammo + 1 >= max_ammo {
                max_ammo
            } else {
                ammo + 1
            }),
        reload_elapsed_after(0, RELOAD_PERIOD_MS as int) == 0,
{
}

/// The turret's orientation in the world: its parent body's orientation
/// composed with the turret's own local orientation.
pub open spec fn world_orientation(body: int, local: int) -> int {
    norm_spec(body + local)
}

/// The unsigned shortest-arc angular error from `world` to `desired`,
/// in `[0, HALF_TURN_MDEG]`.
pub open spec fn angular_error(world: int, desired: int) -> int {
    let diff = norm_spec(desired - world);
    if diff <= HALF_TURN_MDEG {
        diff
    } else {
        FULL_TURN_MDEG - diff
    }
}

/// The turret's local orientation after one tick: step along the
/// shortest arc toward the desired angle, by at most the turn rate times
/// the tick length; a zero error leaves the turret untouched.
pub open spec fn turret_local_after(local: int, body: int, desired: int, dt: int) -> int {
    let w = world_orientation(body, local);
    let diff = norm_spec(desired - w);
    let error = angular_error(w, desired);
    if error == 0 {
        local
    } else {
        let maxstep = GUN_ROTATE_RATE_MDEG * dt / 1000;
        let step = if maxstep <= error {
            maxstep
        } else {
            error
        };
        if diff <= HALF_TURN_MDEG {
            norm_spec(local + step)
        } else {
            norm_spec(local - step)
        }
    }
}

/// One tick of the turret aim control law. The turret's orientation is
/// kept relative to its carrying body, so the incremental rotation is
/// applied to the local angle while the error is measured in the world.
pub fn update_turret_aim(local_mdeg: &mut i64, body_mdeg: i64, desired_mdeg: i64, dt_ms: u64)
    requires
        0 <= *old(local_mdeg) < FULL_TURN_MDEG,
        0 <= body_mdeg < FULL_TURN_MDEG,
        0 <= desired_mdeg < FULL_TURN_MDEG,
        dt_ms <= MAX_TICK_MS,
    ensures
        0 <= *final(local_mdeg) < FULL_TURN_MDEG,
        *final(local_mdeg) == turret_local_after(
            *old(local_mdeg) as int,
            body_mdeg as int,
            desired_mdeg as int,
            dt_ms as int,
        ),
        world_orientation(body_mdeg as int, *old(local_mdeg) as int) == desired_mdeg
            ==> *final(local_mdeg) == *old(local_mdeg),
{
    let world = normalize_angle(body_mdeg + *local_mdeg);
    let diff = normalize_angle(desired_mdeg - world);
    let error = if diff <= HALF_TURN_MDEG {
        diff
    } else {
        FULL_TURN_MDEG - diff
    };
    if error == 0 {
        return ;
    }
    let maxstep = GUN_ROTATE_RATE_MDEG * (dt_ms as i64) / 1000;
    let step = if maxstep <= error {
        maxstep
    } else {
        error
    };
    if diff <= HALF_TURN_MDEG {
        *local_mdeg = normalize_angle(*local_mdeg + step);
    } else {
        *local_mdeg = normalize_angle(*local_mdeg - step);
    }
}

/// One full turret tick: rotate the gun toward the desired angle, then,
/// when shooting is desired, spend one ammunition point and describe the
/// bullet. The bullet leaves along the turret's just-updated world angle.
pub fn update_tank_gun_input(
    gun: &mut TankGun,
    local_mdeg: &mut i64,
    body_mdeg: i64,
    input: &TankGunInput,
    dt_ms: u64,
    owner: u64,
    pos_x_milli: i64,
    pos_y_milli: i64,
    half_x_milli: i64,
    half_y_milli: i64,
) -> (r: Option<BulletSpawnRequest>)
    requires
        old(gun).wf(),
        input.wf(),
        0 <= *old(local_mdeg) < FULL_TURN_MDEG,
        0 <= body_mdeg < FULL_TURN_MDEG,
        dt_ms <= MAX_TICK_MS,
        0 <= half_x_milli <= 1_000_000_000,
        0 <= half_y_milli <= 1_000_000_000,
    ensures
        final(gun).wf(),
        0 <= *final(local_mdeg) < FULL_TURN_MDEG,
        *final(local_mdeg) == turret_local_after(
            *old(local_mdeg) as int,
            body_mdeg as int,
            input.gun_angle_mdeg as int,
            dt_ms as int,
        ),
        final(gun).max_ammo == old(gun).max_ammo,
        final(gun).elapsed_ms == old(gun).elapsed_ms,
        !input.shoot ==> final(gun).ammo == old(gun).ammo && r is None,
        input.shoot && old(gun).ammo == 0 ==> final(gun).ammo == 0 && r is None,
        input.shoot && old(gun).ammo > 0 ==> {
            &&& final(gun).ammo == old(gun).ammo - 1
            &&& r matches Some(b)
            &&& r matches Some(b) ==> {
                &&& b.owner == owner
                &&& b.origin_x_milli == pos_x_milli
                &&& b.origin_y_milli == pos_y_milli
                &&& b.angle_mdeg == world_orientation(
                    body_mdeg as int,
                    *final(local_mdeg) as int,
                )
                &&& b.spawn_distance_milli == spawn_distance_milli(
                    half_x_milli as int,
                    half_y_milli as int,
                )
                &&& b.speed_milli == BULLET_SHOOT_SPEED_MILLI
                &&& b.half_extent_milli == BULLET_HALF_EXTENT_MILLI
            }
        },
{
    update_turret_aim(local_mdeg, body_mdeg, input.gun_angle_mdeg, dt_ms);
    if input.shoot {
        let world = normalize_angle(body_mdeg + *local_mdeg);
        gun.fire(owner, world, pos_x_milli, pos_y_milli, half_x_milli, half_y_milli)
    } else {
        None
    }
}

} // verus!
