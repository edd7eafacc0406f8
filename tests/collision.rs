use platformer::collision::{
    collision_check_player, collision_check_player_rect, normalize, resolve_circle_contact,
    resolve_rect_contact, CircleObstacle, RectObstacle,
};
use platformer::geometry::{distance, Point};
use platformer::player::{Player, UNIT};

fn player_at(x: i64, y: i64, size: i64) -> Player {
    Player {
        position: Point { x, y },
        velocity: Point { x: 700, y: -2500 },
        vel_x_mod: 0,
        jumping: true,
        size,
        map: 1,
    }
}

#[test]
fn circle_push_to_contact_distance() {
    let mut p = player_at(100 * UNIT, 0, 20 * UNIT);
    let obstacle = CircleObstacle { position: Point { x: 105 * UNIT, y: 0 }, size: 30 * UNIT };
    collision_check_player(&mut p, &[obstacle]);
    assert_eq!(p.position, Point { x: 80 * UNIT, y: 0 });
    assert_eq!(p.velocity, Point { x: 700, y: 0 });
    assert!(!p.jumping);
    assert_eq!(distance(p.position.x, p.position.y, 105 * UNIT, 0), 25 * UNIT);
}

#[test]
fn circle_diagonal_push_clears_overlap() {
    let mut p = player_at(1000, 1000, 20 * UNIT);
    let obstacle = CircleObstacle { position: Point { x: 0, y: 0 }, size: 20 * UNIT };
    resolve_circle_contact(&mut p, &obstacle);
    let dx = p.position.x as i128;
    let dy = p.position.y as i128;
    assert!(4 * (dx * dx + dy * dy) >= (40 * UNIT as i128) * (40 * UNIT as i128));
    assert!(p.position.x > 0 && p.position.y > 0);
    assert_eq!(p.position.x, p.position.y);
}

#[test]
fn circle_far_away_untouched() {
    let before = player_at(0, 0, 20 * UNIT);
    let mut p = before;
    let obstacle = CircleObstacle { position: Point { x: 25 * UNIT, y: 0 }, size: 30 * UNIT };
    resolve_circle_contact(&mut p, &obstacle);
    assert_eq!(p, before);
}

#[test]
fn circle_concentric_not_moved() {
    let mut p = player_at(5 * UNIT, 5 * UNIT, 20 * UNIT);
    let obstacle = CircleObstacle { position: Point { x: 5 * UNIT, y: 5 * UNIT }, size: 20 * UNIT };
    resolve_circle_contact(&mut p, &obstacle);
    assert_eq!(p.position, Point { x: 5 * UNIT, y: 5 * UNIT });
    assert_eq!(p.velocity.y, 0);
    assert!(!p.jumping);
}

#[test]
fn circles_later_push_wins() {
    let mut p = player_at(0, 0, 20 * UNIT);
    let left = CircleObstacle { position: Point { x: -5 * UNIT, y: 0 }, size: 20 * UNIT };
    let right = CircleObstacle { position: Point { x: 30 * UNIT, y: 0 }, size: 20 * UNIT };
    collision_check_player(&mut p, &[left, right]);
    assert_eq!(p.position, Point { x: 10 * UNIT, y: 0 });
}

#[test]
fn circles_empty_list_untouched() {
    let before = player_at(0, 0, 20 * UNIT);
    let mut p = before;
    collision_check_player(&mut p, &[]);
    assert_eq!(p, before);
}

#[test]
fn rect_centre_inside_degenerate_fallback() {
    let mut p = player_at(0, 0, 10 * UNIT);
    let obstacle = RectObstacle { position: Point { x: 0, y: 0 }, size: 20 * UNIT };
    collision_check_player_rect(&mut p, &[obstacle]);
    assert_eq!(p.position, Point { x: 0, y: 0 });
    assert_eq!(p.velocity.y, 0);
    assert!(!p.jumping);
}

#[test]
fn rect_push_up_from_top_face() {
    let mut p = player_at(0, 15 * UNIT, 20 * UNIT);
    let obstacle = RectObstacle { position: Point { x: 0, y: 0 }, size: 20 * UNIT };
    resolve_rect_contact(&mut p, &obstacle);
    assert_eq!(p.position, Point { x: 0, y: 20 * UNIT });
    assert_eq!(p.velocity, Point { x: 700, y: 0 });
    assert!(!p.jumping);
}

#[test]
fn rect_push_from_corner() {
    let mut p = player_at(13 * UNIT, 14 * UNIT, 20 * UNIT);
    let obstacle = RectObstacle { position: Point { x: 0, y: 0 }, size: 20 * UNIT };
    resolve_rect_contact(&mut p, &obstacle);
    // nearest point is the corner (10, 10); offset (3, 4) scaled to length 10
    assert_eq!(p.position, Point { x: 16 * UNIT, y: 18 * UNIT });
}

#[test]
fn rect_far_away_untouched() {
    let before = player_at(0, 21 * UNIT, 20 * UNIT);
    let mut p = before;
    let obstacle = RectObstacle { position: Point { x: 0, y: 0 }, size: 20 * UNIT };
    resolve_rect_contact(&mut p, &obstacle);
    assert_eq!(p, before);
}

#[test]
fn rect_touching_is_not_overlap() {
    let before = player_at(0, 20 * UNIT, 20 * UNIT);
    let mut p = before;
    let obstacle = RectObstacle { position: Point { x: 0, y: 0 }, size: 20 * UNIT };
    resolve_rect_contact(&mut p, &obstacle);
    assert_eq!(p, before);
}

#[test]
fn obstacle_validity() {
    assert!(RectObstacle { position: Point { x: 0, y: 0 }, size: 1 }.is_valid());
    assert!(!RectObstacle { position: Point { x: 0, y: 0 }, size: 0 }.is_valid());
    assert!(CircleObstacle { position: Point { x: 3, y: -4 }, size: 10 }.is_valid());
    assert!(!CircleObstacle { position: Point { x: i64::MAX, y: 0 }, size: 10 }.is_valid());
}

#[test]
fn normalize_scales_to_one_unit() {
    assert_eq!(normalize(Point { x: 3, y: 4 }), Point { x: 600, y: 800 });
    assert_eq!(normalize(Point { x: -30_000, y: 0 }), Point { x: -UNIT, y: 0 });
    assert_eq!(normalize(Point { x: 0, y: 0 }), Point { x: 0, y: 0 });
}
