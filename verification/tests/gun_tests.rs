use tanks::gun::{TankGun, TankGunInput, update_tank_gun_input, update_turret_aim};

#[test]
fn fire_with_empty_pool_is_a_silent_no_op() {
    let mut gun = TankGun::new(5);
    gun.ammo = 0;
    let r = gun.fire(1, 0, 0, 0, 500, 500);
    assert!(r.is_none());
    assert_eq!(gun.ammo, 0);
    assert_eq!(gun.max_ammo, 5);
}

#[test]
fn fire_with_full_pool_spends_one_and_describes_the_bullet() {
    let mut gun = TankGun::new(5);
    let r = gun.fire(7, 90_000, 2_000, 3_000, 500, 400).expect("a full gun fires");
    assert_eq!(gun.ammo, 4);
    assert_eq!(r.owner, 7);
    assert_eq!(r.angle_mdeg, 90_000);
    assert_eq!(r.origin_x_milli, 2_000);
    assert_eq!(r.origin_y_milli, 3_000);
    // velocity magnitude is 18.0 units per second
    assert_eq!(r.speed_milli, 18_000);
    assert_eq!(r.half_extent_milli, 100);
    // (max(0.5, 0.4) + 0.1) * sqrt(2), in milli fixed point
    assert_eq!(r.spawn_distance_milli, (500 + 100) * 1414 / 1000);
}

#[test]
fn reload_accumulates_across_calls_and_caps() {
    let mut gun = TankGun::new(5);
    gun.ammo = 3;
    gun.reload(400);
    assert_eq!(gun.ammo, 3);
    assert_eq!(gun.elapsed_ms, 400);
    gun.reload(600);
    // exactly one second accumulated: exactly one point back
    assert_eq!(gun.ammo, 4);
    assert_eq!(gun.elapsed_ms, 0);
    gun.reload(1000);
    assert_eq!(gun.ammo, 5);
    // at capacity further periods change nothing
    gun.reload(1000);
    assert_eq!(gun.ammo, 5);
    assert_eq!(gun.elapsed_ms, 0);
}

#[test]
fn one_long_reload_tick_grants_every_completed_period() {
    let mut gun = TankGun::new(9);
    gun.ammo = 1;
    gun.reload(2_500);
    assert_eq!(gun.ammo, 3);
    assert_eq!(gun.elapsed_ms, 500);
}

#[test]
fn aim_at_current_orientation_changes_nothing() {
    let mut local: i64 = 30_000;
    update_turret_aim(&mut local, 0, 30_000, 16);
    assert_eq!(local, 30_000);
    // also when the world angle comes from body plus local
    let mut local: i64 = 40_000;
    update_turret_aim(&mut local, 50_000, 90_000, 16);
    assert_eq!(local, 40_000);
}

#[test]
fn aim_steps_by_the_turn_rate_toward_the_target() {
    // 220 degrees/s for 0.1 s is 22 degrees
    let mut local: i64 = 0;
    update_turret_aim(&mut local, 0, 90_000, 100);
    assert_eq!(local, 22_000);
    // a small error is closed in one tick, without overshoot
    let mut local: i64 = 0;
    update_turret_aim(&mut local, 0, 10_000, 100);
    assert_eq!(local, 10_000);
}

#[test]
fn aim_turns_along_the_shorter_arc() {
    // the target sits 10 degrees clockwise, not 350 counterclockwise
    let mut local: i64 = 0;
    update_turret_aim(&mut local, 0, 350_000, 100);
    assert_eq!(local, 350_000);
}

#[test]
fn zero_length_tick_changes_nothing() {
    let mut local: i64 = 120_000;
    update_turret_aim(&mut local, 0, 90_000, 0);
    assert_eq!(local, 120_000);
    let mut gun = TankGun::new(5);
    gun.ammo = 2;
    gun.reload(0);
    assert_eq!(gun.ammo, 2);
    assert_eq!(gun.elapsed_ms, 0);
}

#[test]
fn gun_input_normalizes_the_desired_angle() {
    let input = TankGunInput::new(725_000, false);
    assert_eq!(input.gun_angle_mdeg, 5_000);
    assert!(!input.shoot);
    let input = TankGunInput::new(-90_000, true);
    assert_eq!(input.gun_angle_mdeg, 270_000);
    assert!(input.shoot);
}

#[test]
fn full_gun_tick_aims_before_it_fires() {
    let mut gun = TankGun::new(5);
    let mut local: i64 = 0;
    let input = TankGunInput::new(90_000, true);
    let r = update_tank_gun_input(&mut gun, &mut local, 0, &input, 100, 3, 0, 0, 500, 500).expect(
        "a full gun fires",
    );
    assert_eq!(local, 22_000);
    // the bullet leaves along the just-updated world angle
    assert_eq!(r.angle_mdeg, 22_000);
    assert_eq!(gun.ammo, 4);
    assert_eq!(r.owner, 3);
}

#[test]
fn full_gun_tick_without_shooting_only_aims() {
    let mut gun = TankGun::new(5);
    let mut local: i64 = 10_000;
    let input = TankGunInput::new(0, false);
    let r = update_tank_gun_input(&mut gun, &mut local, 0, &input, 20, 3, 0, 0, 500, 500);
    assert!(r.is_none());
    assert_eq!(gun.ammo, 5);
    // 220 degrees/s for 20 ms is 4.4 degrees toward zero
    assert_eq!(local, 5_600);
}
