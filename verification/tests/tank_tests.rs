use tanks::tank::{TankBody, TankBodyInput, update_tank_body_input};

fn fresh_body() -> TankBody {
    TankBody::new(String::from("Troy"), true)
}

#[test]
fn full_throttle_one_second_hits_the_speed_cap() {
    let mut body = fresh_body();
    let input = TankBodyInput::new(1000, 0, 0);
    let vel = update_tank_body_input(&mut body, &input, 1000);
    // 6.0 units/s^2 for one second exceeds the 2.0 cap
    assert_eq!(body.speed_milli, 2000);
    assert_eq!(vel.speed_milli, 2000);
    assert_eq!(vel.angle_mdeg, 0);
}

#[test]
fn braking_never_overshoots_zero() {
    let mut body = fresh_body();
    let throttle = TankBodyInput::new(1000, 0, 0);
    update_tank_body_input(&mut body, &throttle, 1000);
    assert_eq!(body.speed_milli, 2000);
    // no input: 4.0 units/s^2 of braking, clamped at zero
    let idle = TankBodyInput::new(0, 0, 0);
    update_tank_body_input(&mut body, &idle, 1000);
    assert_eq!(body.speed_milli, 0);
}

#[test]
fn partial_braking_subtracts_the_rate() {
    let mut body = fresh_body();
    let throttle = TankBodyInput::new(1000, 0, 0);
    update_tank_body_input(&mut body, &throttle, 1000);
    let idle = TankBodyInput::new(0, 0, 0);
    update_tank_body_input(&mut body, &idle, 100);
    // 2.0 minus 4.0 * 0.1
    assert_eq!(body.speed_milli, 1600);
}

#[test]
fn reverse_throttle_caps_at_negative_max() {
    let mut body = fresh_body();
    let input = TankBodyInput::new(0, 1000, 0);
    update_tank_body_input(&mut body, &input, 1000);
    assert_eq!(body.speed_milli, -2000);
    let idle = TankBodyInput::new(0, 0, 0);
    update_tank_body_input(&mut body, &idle, 250);
    // braking moves a reverse speed toward zero as well
    assert_eq!(body.speed_milli, -1000);
}

#[test]
fn rotation_integrates_the_turn_rate() {
    let mut body = fresh_body();
    let left = TankBodyInput::new(0, 0, 1000);
    update_tank_body_input(&mut body, &left, 1000);
    // 140 degrees per second
    assert_eq!(body.orientation_mdeg, 140_000);
    let right = TankBodyInput::new(0, 0, -1000);
    update_tank_body_input(&mut body, &right, 500);
    assert_eq!(body.orientation_mdeg, 70_000);
    // turning past zero wraps around
    update_tank_body_input(&mut body, &right, 1000);
    assert_eq!(body.orientation_mdeg, 290_000);
}

#[test]
fn inputs_are_clamped_into_range() {
    // strengths beyond the range behave exactly as the range's edge
    let mut a = fresh_body();
    let mut b = fresh_body();
    let wild = TankBodyInput::new(5000, -3, 2000);
    let edge = TankBodyInput::new(1000, 0, 1000);
    update_tank_body_input(&mut a, &wild, 100);
    update_tank_body_input(&mut b, &edge, 100);
    assert_eq!(a.speed_milli, b.speed_milli);
    assert_eq!(a.orientation_mdeg, b.orientation_mdeg);
}

#[test]
fn half_throttle_accelerates_half_as_fast() {
    let mut body = fresh_body();
    let input = TankBodyInput::new(500, 0, 0);
    update_tank_body_input(&mut body, &input, 100);
    // 0.5 * 6.0 units/s^2 * 0.1 s
    assert_eq!(body.speed_milli, 300);
}
