use platformer::level::{default_platforms, DimensionPosition, Platform};
use platformer::player::{Color, Player, Sprite};
use platformer::world::Platformer;

fn ids(world: &Platformer) -> Vec<u128> {
    world.players().iter().map(|p| p.id).collect()
}

#[test]
fn new_world_is_empty_and_keeps_its_level() {
    let world = Platformer::new(default_platforms());
    assert!(world.players().is_empty());
    assert_eq!(
        world.platforms(),
        &vec![Platform::Base(DimensionPosition { w: 400000, h: 15000, x: 0, y: 70000 })]
    );
}

#[test]
fn join_spawns_a_resting_red_player() {
    let mut world = Platformer::new(default_platforms());
    let id = world.join().unwrap();
    assert_eq!(
        world.players(),
        &vec![Player {
            id,
            rgb: Color::Red,
            w: 10000,
            h: 10000,
            x_velocity: 0,
            y_velocity: 0,
            x: 20000,
            y: 20000,
        }]
    );
}

#[test]
fn join_draws_version_four_ids() {
    let mut world = Platformer::new(default_platforms());
    let first = world.join().unwrap();
    let second = world.join().unwrap();
    assert_ne!(first, second);
    for id in [first, second] {
        assert_eq!((id >> 76) & 0xf, 4);
        assert_eq!((id >> 62) & 0x3, 2);
    }
}

#[test]
fn join_with_refuses_a_taken_id() {
    let mut world = Platformer::new(default_platforms());
    assert_eq!(world.join_with(7), Some(7));
    assert_eq!(world.join_with(7), None);
    assert_eq!(ids(&world), vec![7]);
    assert_eq!(world.join_with(8), Some(8));
    assert_eq!(ids(&world), vec![7, 8]);
}

#[test]
fn ids_follow_joins_and_leaves() {
    let mut world = Platformer::new(default_platforms());
    for id in [1u128, 2, 3, 4] {
        assert_eq!(world.join_with(id), Some(id));
    }
    assert!(world.leave(2));
    assert_eq!(ids(&world), vec![1, 3, 4]);
    assert!(world.leave(4));
    assert_eq!(world.join_with(2), Some(2));
    assert_eq!(ids(&world), vec![1, 3, 2]);
    assert!(world.leave(1));
    assert!(world.leave(3));
    assert!(world.leave(2));
    assert!(ids(&world).is_empty());
}

#[test]
fn leave_twice_is_harmless() {
    let mut world = Platformer::new(default_platforms());
    world.join_with(1);
    world.join_with(2);
    assert!(world.leave(1));
    let after_first = world.players().clone();
    assert!(!world.leave(1));
    assert_eq!(world.players(), &after_first);
    assert!(!world.leave(99));
    assert_eq!(world.players(), &after_first);
}

#[test]
fn position_and_get_find_players_by_id() {
    let mut world = Platformer::new(default_platforms());
    world.join_with(5);
    world.join_with(6);
    assert_eq!(world.position(5), Some(0));
    assert_eq!(world.position(6), Some(1));
    assert_eq!(world.position(7), None);
    assert_eq!(world.get(6), Some(Player::spawn(6)));
    assert_eq!(world.get(7), None);
}

#[test]
fn jump_then_tick_nets_impulse_and_gravity() {
    let mut world = Platformer::new(default_platforms());
    let id = world.join().unwrap();
    let before = world.get(id).unwrap().y_velocity;
    world.stdin(id, "j");
    assert_eq!(world.get(id).unwrap().y_velocity, before - 50);
    world.frame();
    assert_eq!(world.get(id).unwrap().y_velocity, before - 50 + 4);
    assert_eq!(world.get(id).unwrap().y, 20000 - 46);
}

#[test]
fn repeated_jumps_accumulate() {
    let mut world = Platformer::new(default_platforms());
    world.join_with(1);
    world.stdin(1, "j");
    world.stdin(1, "j");
    world.stdin(1, "j");
    assert_eq!(world.get(1).unwrap().y_velocity, -150);
}

#[test]
fn start_left_and_right_set_horizontal_velocity() {
    let mut world = Platformer::new(default_platforms());
    world.join_with(1);
    world.stdin(1, "l");
    assert_eq!(world.get(1).unwrap().x_velocity, -50);
    world.frame();
    assert_eq!(world.get(1).unwrap().x, 19950);
    world.stdin(1, "r");
    assert_eq!(world.get(1).unwrap().x_velocity, 50);
    world.frame();
    assert_eq!(world.get(1).unwrap().x, 20000);
}

#[test]
fn stop_tokens_change_nothing() {
    let mut world = Platformer::new(default_platforms());
    world.join_with(1);
    world.stdin(1, "r");
    let before = world.get(1).unwrap();
    world.stdin(1, "a");
    world.stdin(1, "d");
    assert_eq!(world.get(1).unwrap(), before);
}

#[test]
fn empty_or_unknown_input_changes_nothing() {
    let mut world = Platformer::new(default_platforms());
    let id = world.join().unwrap();
    world.frame();
    let before = world.players().clone();
    world.stdin(id, "");
    assert_eq!(world.players(), &before);
    world.stdin(id, "z");
    assert_eq!(world.players(), &before);
    world.stdin(id, "J");
    assert_eq!(world.players(), &before);
    world.stdin(id, "\u{e9}");
    assert_eq!(world.players(), &before);
}

#[test]
fn only_the_first_character_counts() {
    let mut world = Platformer::new(default_platforms());
    world.join_with(1);
    world.stdin(1, "jl");
    let p = world.get(1).unwrap();
    assert_eq!(p.y_velocity, -50);
    assert_eq!(p.x_velocity, 0);
    world.stdin(1, "zj");
    assert_eq!(world.get(1).unwrap(), p);
}

#[test]
fn input_for_an_absent_player_is_dropped() {
    let mut world = Platformer::new(default_platforms());
    world.join_with(1);
    let before = world.players().clone();
    world.stdin(2, "j");
    assert_eq!(world.players(), &before);
    world.leave(1);
    world.stdin(1, "j");
    assert!(world.players().is_empty());
}

#[test]
fn input_reaches_only_its_own_player() {
    let mut world = Platformer::new(default_platforms());
    world.join_with(1);
    world.join_with(2);
    world.stdin(2, "j");
    assert_eq!(world.get(1).unwrap(), Player::spawn(1));
    assert_eq!(world.get(2).unwrap().y_velocity, -50);
}

#[test]
fn frame_of_an_empty_world_yields_nothing() {
    let mut world = Platformer::new(default_platforms());
    assert_eq!(world.frame(), None);
}

#[test]
fn free_fall_follows_the_closed_form() {
    let mut world = Platformer::new(default_platforms());
    world.join_with(1);
    for _ in 0..10 {
        world.frame();
    }
    let p = world.get(1).unwrap();
    assert_eq!(p.y_velocity, 40);
    assert_eq!(p.y, 20220);
    assert_eq!(p.x, 20000);
    assert_eq!(p.rgb, Color::Red);
}

#[test]
fn snapshot_shows_public_fields_in_join_order() {
    let mut world = Platformer::new(default_platforms());
    world.join_with(1);
    world.join_with(2);
    world.stdin(2, "r");
    let snapshot = world.frame().unwrap();
    assert_eq!(
        snapshot,
        vec![
            Sprite { rgb: Color::Red, w: 10000, h: 10000, x: 20000, y: 20004 },
            Sprite { rgb: Color::Red, w: 10000, h: 10000, x: 20050, y: 20004 },
        ]
    );
}

#[test]
fn falling_player_turns_green_on_the_floor() {
    let mut world = Platformer::new(default_platforms());
    world.join_with(1);
    let mut last = Vec::new();
    for _ in 0..140 {
        last = world.frame().unwrap();
    }
    assert_eq!(last[0].rgb, Color::Red);
    assert_eq!(last[0].y, 20000 + 2 * 140 * 141);
    assert_eq!(world.get(1).unwrap().y_velocity, 560);
    let landed = world.frame().unwrap();
    assert_eq!(landed[0].rgb, Color::Green);
    assert_eq!(landed[0].y, 20000 + 2 * 141 * 142);
    assert_eq!(world.get(1).unwrap().y_velocity, 560);
    world.frame();
    assert_eq!(world.get(1).unwrap().y_velocity, 560);
}

#[test]
fn disconnecting_one_client_keeps_the_other() {
    let mut world = Platformer::new(default_platforms());
    let first = world.join().unwrap();
    let second = world.join().unwrap();
    world.stdin(second, "r");
    assert!(world.leave(first));
    let snapshot = world.frame().unwrap();
    assert_eq!(
        snapshot,
        vec![Sprite { rgb: Color::Red, w: 10000, h: 10000, x: 20050, y: 20004 }]
    );
    assert_eq!(ids(&world), vec![second]);
}

#[test]
fn leave_takes_out_exactly_one_player_and_keeps_the_order() {
    let mut world = Platformer::new(default_platforms());
    for id in [10u128, 20, 30] {
        world.join_with(id);
    }
    world.stdin(30, "j");
    let third = world.get(30).unwrap();
    assert!(world.leave(20));
    assert_eq!(world.players(), &vec![Player::spawn(10), third]);
}

#[test]
fn many_frames_treat_each_player_alone() {
    let mut world = Platformer::new(default_platforms());
    world.join_with(1);
    world.join_with(2);
    world.stdin(2, "j");
    for _ in 0..3 {
        world.frame();
    }
    let first = world.get(1).unwrap();
    let second = world.get(2).unwrap();
    assert_eq!((first.y_velocity, first.y), (12, 20024));
    assert_eq!((second.y_velocity, second.y), (-38, 20000 - 46 - 42 - 38));
}

#[test]
fn join_into_an_empty_world_never_fails() {
    for _ in 0..50 {
        let mut world = Platformer::new(default_platforms());
        let id = world.join().unwrap();
        assert_eq!(ids(&world), vec![id]);
        assert!(world.leave(id));
        assert!(world.join().is_some());
    }
}
