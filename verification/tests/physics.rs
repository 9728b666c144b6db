use platformer::input::PlayerEvent;
use platformer::level::{default_platforms, DimensionPosition, Platform};
use platformer::physics::{collide, integrate, overlaps, resolve, step};
use platformer::player::{Color, Player, Sprite};
use platformer::units::{sat_add, sat_sub, FRAME_MS, GRAVITY, JUMP_IMPULSE, MOVE_SPEED, UNITS_PER_PIXEL};

fn at(x: i64, y: i64) -> Player {
    Player { id: 1, rgb: Color::Red, w: 10000, h: 10000, x_velocity: 0, y_velocity: 0, x, y }
}

fn floor() -> DimensionPosition {
    DimensionPosition { w: 400000, h: 15000, x: 0, y: 70000 }
}

#[test]
fn constants_are_in_thousandths() {
    assert_eq!(UNITS_PER_PIXEL, 1000);
    assert_eq!(GRAVITY, 4);
    assert_eq!(JUMP_IMPULSE, 50);
    assert_eq!(MOVE_SPEED, 50);
    assert_eq!(FRAME_MS, 1);
}

#[test]
fn saturating_sums_stop_at_the_bounds() {
    assert_eq!(sat_add(1, 2), 3);
    assert_eq!(sat_add(i64::MAX, 1), i64::MAX);
    assert_eq!(sat_add(i64::MIN, -1), i64::MIN);
    assert_eq!(sat_add(i64::MAX, i64::MIN), -1);
    assert_eq!(sat_sub(5, 7), -2);
    assert_eq!(sat_sub(i64::MIN, 1), i64::MIN);
    assert_eq!(sat_sub(i64::MAX, -1), i64::MAX);
    assert_eq!(sat_sub(0, i64::MIN), i64::MAX);
}

#[test]
fn decode_knows_exactly_five_characters() {
    assert_eq!(PlayerEvent::from_char('j'), Some(PlayerEvent::Jump));
    assert_eq!(PlayerEvent::from_char('l'), Some(PlayerEvent::StartLeft));
    assert_eq!(PlayerEvent::from_char('r'), Some(PlayerEvent::StartRight));
    assert_eq!(PlayerEvent::from_char('a'), Some(PlayerEvent::StopLeft));
    assert_eq!(PlayerEvent::from_char('d'), Some(PlayerEvent::StopRight));
    let mut known = 0;
    let mut code = 0u32;
    while code <= 0x10ffff {
        if let Some(c) = char::from_u32(code) {
            if PlayerEvent::from_char(c).is_some() {
                known += 1;
                assert!(matches!(c, 'j' | 'l' | 'r' | 'a' | 'd'));
            }
        }
        code += 1;
    }
    assert_eq!(known, 5);
}

#[test]
fn execute_applies_each_event() {
    let start = Player { x_velocity: 7, y_velocity: 9, ..at(1, 2) };
    let mut p = start;
    PlayerEvent::Jump.execute(&mut p);
    assert_eq!(p, Player { y_velocity: -41, ..start });
    let mut p = start;
    PlayerEvent::StartLeft.execute(&mut p);
    assert_eq!(p, Player { x_velocity: -50, ..start });
    let mut p = start;
    PlayerEvent::StartRight.execute(&mut p);
    assert_eq!(p, Player { x_velocity: 50, ..start });
    let mut p = start;
    PlayerEvent::StopLeft.execute(&mut p);
    assert_eq!(p, start);
    PlayerEvent::StopRight.execute(&mut p);
    assert_eq!(p, start);
}

#[test]
fn jump_saturates_at_the_lowest_velocity() {
    let mut p = Player { y_velocity: i64::MIN + 10, ..at(0, 0) };
    PlayerEvent::Jump.execute(&mut p);
    assert_eq!(p.y_velocity, i64::MIN);
}

#[test]
fn integrate_adds_gravity_then_moves() {
    let mut p = Player { x_velocity: -3, y_velocity: 10, ..at(100, 200) };
    integrate(&mut p);
    assert_eq!(p, Player { x_velocity: -3, y_velocity: 14, ..at(97, 214) });
}

#[test]
fn integrate_saturates() {
    let mut p = Player { x_velocity: 5, y_velocity: i64::MAX - 1, ..at(i64::MAX - 2, 10) };
    integrate(&mut p);
    assert_eq!(p.y_velocity, i64::MAX);
    assert_eq!(p.x, i64::MAX);
    assert_eq!(p.y, i64::MAX);
}

#[test]
fn overlap_is_strict_on_every_edge() {
    let r = floor();
    assert!(overlaps(&at(0, 65000), &r));
    assert!(!overlaps(&at(0, 60000), &r));
    assert!(overlaps(&at(0, 60001), &r));
    assert!(!overlaps(&at(0, 85000), &r));
    assert!(overlaps(&at(0, 84999), &r));
    assert!(!overlaps(&at(-10000, 75000), &r));
    assert!(overlaps(&at(-9999, 75000), &r));
    assert!(!overlaps(&at(400000, 75000), &r));
    assert!(overlaps(&at(399999, 75000), &r));
}

#[test]
fn overlap_survives_extreme_coordinates() {
    let r = DimensionPosition { w: i64::MAX, h: i64::MAX, x: i64::MAX, y: i64::MAX };
    let p = Player { w: i64::MAX, h: i64::MAX, ..at(i64::MAX, i64::MAX) };
    assert!(overlaps(&p, &r));
    assert!(!overlaps(&at(i64::MIN, i64::MIN), &r));
}

#[test]
fn solid_platform_grounds_and_marks() {
    let mut p = Player { y_velocity: 10, ..at(0, 65000) };
    collide(&mut p, &Platform::Base(floor()));
    assert_eq!(p, Player { y_velocity: 6, rgb: Color::Green, ..at(0, 65000) });
    let mut q = Player { y_velocity: 10, ..at(0, 0) };
    collide(&mut q, &Platform::Base(floor()));
    assert_eq!(q, Player { y_velocity: 10, ..at(0, 0) });
}

#[test]
fn jumpthrough_platform_resolves_nothing() {
    let mut p = Player { y_velocity: 10, ..at(0, 65000) };
    collide(&mut p, &Platform::Jumpthrough(floor()));
    assert_eq!(p, Player { y_velocity: 10, ..at(0, 65000) });
}

#[test]
fn resolve_cancels_once_per_solid_platform() {
    let level = vec![
        Platform::Base(floor()),
        Platform::Jumpthrough(floor()),
        Platform::Base(DimensionPosition { w: 1000, h: 1000, x: 5000, y: 66000 }),
        Platform::Base(DimensionPosition { w: 1000, h: 1000, x: 50000, y: 0 }),
    ];
    let mut p = Player { y_velocity: 10, ..at(0, 65000) };
    resolve(&mut p, &level);
    assert_eq!(p, Player { y_velocity: 2, rgb: Color::Green, ..at(0, 65000) });
}

#[test]
fn grounded_tick_leaves_vertical_velocity_unchanged() {
    let mut p = Player { y_velocity: 12, ..at(30000, 65000) };
    step(&mut p, &default_platforms());
    assert_eq!(p.y_velocity, 12);
    assert_eq!(p.y, 65016);
    assert_eq!(p.rgb, Color::Green);
}

#[test]
fn overlapping_player_is_green_after_one_tick() {
    let mut p = at(30000, 62000);
    step(&mut p, &default_platforms());
    assert_eq!(p.sprite(), Sprite { rgb: Color::Green, w: 10000, h: 10000, x: 30000, y: 62004 });
}

#[test]
fn step_without_level_is_plain_integration() {
    let mut p = at(0, 0);
    for _ in 0..5 {
        step(&mut p, &Vec::new());
    }
    assert_eq!(p.y_velocity, 20);
    assert_eq!(p.y, 60);
}

#[test]
fn colour_names() {
    assert_eq!(Color::Red.name(), "red");
    assert_eq!(Color::Green.name(), "green");
}
