use platformer::accessory::{rotate_circle, RotatingClothes, FULL_TURN, HALF_TURN, QUARTER_TURN};
use platformer::collision::RectObstacle;
use platformer::geometry::Point;
use platformer::player::{
    initial_player, player_controls, player_movements, wrap_check, EdgeRule, Player, GROUND_Y,
    JUMP_POWER, UNIT,
};
use platformer::world::{level_obstacles, step, tick};

fn resting(x: i64) -> Player {
    Player {
        position: Point { x, y: -91 * UNIT },
        velocity: Point { x: 0, y: 0 },
        vel_x_mod: 0,
        jumping: false,
        size: 20 * UNIT,
        map: 1,
    }
}

#[test]
fn jump_from_ground_one_tick() {
    let mut p = resting(0);
    step(&mut p, true, EdgeRule::Wrap, 0, &[], &[]);
    assert_eq!(p.velocity.y, JUMP_POWER);
    assert!(p.jumping);
    assert!(p.position.y > -91 * UNIT);
    assert_eq!(p.position.y, -87 * UNIT);
}

#[test]
fn jump_from_ground_random_tick() {
    for _ in 0..50 {
        let mut p = resting(0);
        tick(&mut p, true, EdgeRule::Wrap, &[], &[]);
        assert_eq!(p.velocity.y, JUMP_POWER);
        assert!(p.jumping);
        assert!(p.position.y > -91 * UNIT);
    }
}

#[test]
fn tick_jitter_is_drawn() {
    let mut seen_up = false;
    for _ in 0..400 {
        let mut p = resting(0);
        tick(&mut p, false, EdgeRule::Wrap, &[], &[]);
        assert!(p.position.y == -91 * UNIT || p.position.y == -90 * UNIT);
        if p.position.y == -90 * UNIT {
            seen_up = true;
        }
    }
    assert!(seen_up);
}

#[test]
fn jump_uses_accessory_bias() {
    let mut p = resting(0);
    p.vel_x_mod = UNIT;
    player_controls(&mut p, true);
    assert_eq!(p.velocity, Point { x: 3 * UNIT, y: JUMP_POWER });
    assert!(p.jumping);
}

#[test]
fn no_jump_while_airborne() {
    let mut p = resting(0);
    p.jumping = true;
    p.velocity = Point { x: 5, y: -7 };
    let before = p;
    player_controls(&mut p, true);
    assert_eq!(p, before);
}

#[test]
fn wrap_right_edge() {
    let mut p = resting(221 * UNIT);
    p.position.y = 30 * UNIT;
    wrap_check(&mut p, EdgeRule::Wrap);
    assert_eq!(p.position, Point { x: -220 * UNIT, y: 0 });
    assert_eq!(p.map, 2);
}

#[test]
fn wrap_left_edge() {
    let mut p = resting(-221 * UNIT);
    wrap_check(&mut p, EdgeRule::Wrap);
    assert_eq!(p.position, Point { x: 220 * UNIT, y: 0 });
    assert_eq!(p.map, 0);
}

#[test]
fn wrap_inside_bounds_untouched() {
    let before = resting(220 * UNIT);
    let mut p = before;
    wrap_check(&mut p, EdgeRule::Wrap);
    assert_eq!(p, before);
}

#[test]
fn clamp_edge_rule_holds_play_range() {
    let mut p = resting(250 * UNIT);
    wrap_check(&mut p, EdgeRule::Clamp);
    assert_eq!(p.position.x, 200 * UNIT);
    assert_eq!(p.map, 1);
    let mut q = resting(-201 * UNIT);
    wrap_check(&mut q, EdgeRule::Clamp);
    assert_eq!(q.position.x, -200 * UNIT);
}

#[test]
fn movement_crossing_edge_steps_map_once() {
    let mut p = resting(219 * UNIT);
    p.velocity.x = 3 * UNIT;
    player_movements(&mut p, EdgeRule::Wrap, 0);
    assert_eq!(p.position.x, -220 * UNIT);
    assert_eq!(p.map, 2);
    let mut q = resting(219 * UNIT);
    q.velocity.x = 3 * UNIT;
    player_movements(&mut q, EdgeRule::Clamp, 0);
    assert_eq!(q.position.x, 200 * UNIT);
    assert_eq!(q.map, 1);
}

#[test]
fn gravity_above_ground() {
    let mut p = resting(0);
    p.position.y = 0;
    p.jumping = true;
    player_movements(&mut p, EdgeRule::Wrap, 0);
    assert_eq!(p.velocity.y, -100);
    assert_eq!(p.position.y, -100);
    assert!(p.jumping);
}

#[test]
fn landing_clamps_to_ground() {
    let mut p = resting(0);
    p.position.y = -90 * UNIT;
    p.velocity.y = -5 * UNIT;
    p.jumping = true;
    player_movements(&mut p, EdgeRule::Wrap, 0);
    assert_eq!(p.position.y, GROUND_Y);
    assert_eq!(p.velocity.y, 0);
    assert!(!p.jumping);
}

#[test]
fn ground_holds_for_many_ticks() {
    let mut p = resting(0);
    p.position.y = 50 * UNIT;
    p.jumping = true;
    for i in 0..500 {
        player_movements(&mut p, EdgeRule::Wrap, if i % 3 == 0 { -2 * UNIT } else { UNIT });
        assert!(p.position.y >= GROUND_Y);
    }
}

#[test]
fn drag_slows_towards_zero() {
    let mut p = resting(0);
    p.velocity.x = 3 * UNIT;
    player_movements(&mut p, EdgeRule::Wrap, 0);
    assert_eq!(p.velocity.x, 2900);
    assert_eq!(p.position.x, 2900);
    let mut q = resting(0);
    q.velocity.x = 50;
    player_movements(&mut q, EdgeRule::Wrap, 0);
    assert_eq!(q.velocity.x, 0);
    let mut r = resting(0);
    r.velocity.x = -150;
    player_movements(&mut r, EdgeRule::Wrap, 0);
    assert_eq!(r.velocity.x, -50);
}

#[test]
fn step_lands_on_square() {
    let floor = RectObstacle { position: Point { x: 0, y: 0 }, size: 20 * UNIT };
    let mut p = resting(0);
    p.position.y = 20 * UNIT;
    p.jumping = true;
    step(&mut p, false, EdgeRule::Wrap, 0, &[], &[floor]);
    assert_eq!(p.position, Point { x: 0, y: 20 * UNIT });
    assert_eq!(p.velocity.y, 0);
    assert!(!p.jumping);
}

#[test]
fn accessory_upper_right_pushes_right() {
    let mut c = RotatingClothes::new(20 * UNIT);
    let mut p = resting(0);
    rotate_circle(&mut c, &mut p, 100_000);
    assert_eq!(c.angle, 500_000);
    assert_eq!(p.vel_x_mod, UNIT);
}

#[test]
fn accessory_upper_left_pushes_left() {
    let mut c = RotatingClothes { radius: 5 * UNIT, angle: QUARTER_TURN };
    let mut p = resting(0);
    rotate_circle(&mut c, &mut p, 1);
    assert_eq!(c.angle, QUARTER_TURN + 5);
    assert_eq!(p.vel_x_mod, -UNIT);
}

#[test]
fn accessory_below_gives_no_bias() {
    let mut c = RotatingClothes { radius: 5 * UNIT, angle: HALF_TURN };
    let mut p = resting(0);
    p.vel_x_mod = UNIT;
    rotate_circle(&mut c, &mut p, 0);
    assert_eq!(p.vel_x_mod, 0);
}

#[test]
fn accessory_no_bias_while_jumping() {
    let mut c = RotatingClothes::new(20 * UNIT);
    let mut p = resting(0);
    p.jumping = true;
    rotate_circle(&mut c, &mut p, 100_000);
    assert_eq!(p.vel_x_mod, 0);
}

#[test]
fn accessory_angle_wraps_full_turn() {
    let mut c = RotatingClothes { radius: 5 * UNIT, angle: FULL_TURN - 1 };
    let mut p = resting(0);
    rotate_circle(&mut c, &mut p, 1);
    assert_eq!(c.angle, 4);
    assert_eq!(p.vel_x_mod, UNIT);
}

#[test]
fn initial_player_state() {
    let p = initial_player();
    assert_eq!(p.position, Point { x: 0, y: 200 * UNIT });
    assert_eq!(p.size, 20 * UNIT);
    assert_eq!(p.map, 1);
    assert!(!p.jumping);
    assert!(p.is_movable());
}

#[test]
fn level_layout() {
    let obs = level_obstacles();
    assert_eq!(obs.len(), 40);
    assert_eq!(obs[0], RectObstacle { position: Point { x: -200 * UNIT, y: -100 * UNIT }, size: 20 * UNIT });
    assert_eq!(obs[29], RectObstacle { position: Point { x: 380 * UNIT, y: -100 * UNIT }, size: 20 * UNIT });
    assert_eq!(obs[30], RectObstacle { position: Point { x: -200 * UNIT, y: -60 * UNIT }, size: 10 * UNIT });
    assert_eq!(obs[39], RectObstacle { position: Point { x: -110 * UNIT, y: -60 * UNIT }, size: 10 * UNIT });
}
