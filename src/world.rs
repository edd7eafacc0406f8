//! One fixed simulation tick over the player and the obstacles, and the
//! level's obstacle layout.
use vstd::prelude::*;
use rand::Rng;
use crate::collision::{
    CircleObstacle, RectObstacle, collision_check_player, collision_check_player_rect,
    resolve_circles, resolve_rects,
};
use crate::geometry::Point;
use crate::player::{
    EdgeRule, MOVE_LIMIT, Player, UNIT, after_controls, after_movement, crosses_wrap_bound,
    player_controls, player_movements,
};

verus! {

/// The player after one tick: the jump input, motion and the edge check,
/// then the circle pass, then the square pass.
pub open spec fn after_step(
    p: Player,
    jump: bool,
    edge: EdgeRule,
    jitter: int,
    circles: Seq<CircleObstacle>,
    rects: Seq<RectObstacle>,
) -> Player {
    resolve_rects(resolve_circles(after_movement(after_controls(p, jump), edge, jitter), circles), rects)
}

/// One tick with a given vertical `jitter`.
pub fn step(
    player: &mut Player,
    jump: bool,
    edge: EdgeRule,
    jitter: i64,
    circles: &[CircleObstacle],
    rects: &[RectObstacle],
)
    requires
        old(player).movable(),
        -MOVE_LIMIT <= jitter <= MOVE_LIMIT,
        forall|i: int| 0 <= i < circles@.len() ==> (#[trigger] circles@[i]).wf(),
        forall|i: int| 0 <= i < rects@.len() ==> (#[trigger] rects@[i]).wf(),
    ensures
        *final(player) == after_step(*old(player), jump, edge, jitter as int, circles@, rects@),
        final(player).in_range(),
        -1 <= final(player).map - old(player).map <= 1,
        final(player).map != old(player).map ==> edge == EdgeRule::Wrap
            && crosses_wrap_bound(after_controls(*old(player), jump)),
{
    player_controls(player, jump);
    player_movements(player, edge, jitter);
    collision_check_player(player, circles);
    collision_check_player_rect(player, rects);
}

/// Relies on `rand::thread_rng` and `rand::Rng::gen_range`: a value drawn
/// from `lo..hi`, which must not be empty (`gen_range` panics on an empty
/// range).
#[verifier::external_body]
fn generate_random_int(lo: i32, hi: i32) -> (r: i32)
    requires
        lo < hi,
    ensures
        lo <= r < hi,
{
    rand::thread_rng().gen_range(lo..hi)
}

/// One tick, with a vertical jitter of a whole number of units drawn at
/// random from `-2..2`.
pub fn tick(
    player: &mut Player,
    jump: bool,
    edge: EdgeRule,
    circles: &[CircleObstacle],
    rects: &[RectObstacle],
)
    requires
        old(player).movable(),
        forall|i: int| 0 <= i < circles@.len() ==> (#[trigger] circles@[i]).wf(),
        forall|i: int| 0 <= i < rects@.len() ==> (#[trigger] rects@[i]).wf(),
    ensures
        exists|j: int|
            -2 <= j < 2 && *final(player) == #[trigger] after_step(
                *old(player),
                jump,
                edge,
                j * UNIT,
                circles@,
                rects@,
            ),
        final(player).in_range(),
        -1 <= final(player).map - old(player).map <= 1,
        final(player).map != old(player).map ==> edge == EdgeRule::Wrap
            && crosses_wrap_bound(after_controls(*old(player), jump)),
{
    let j = generate_random_int(-2, 2);
    let jitter: i64 = j as i64 * UNIT;
    step(player, jump, edge, jitter, circles, rects);
    assert(-2 <= j < 2 && *player == after_step(
        *old(player),
        jump,
        edge,
        j * UNIT,
        circles@,
        rects@,
    ));
}

/// The `i`-th obstacle of the level: a floor of thirty squares of side 20
/// centred at height -100 from `x = -200` on, 20 apart, then a ledge of ten
/// squares of side 10 centred at height -60 from `x = -200` on, 10 apart.
pub open spec fn level_obstacle(i: int) -> RectObstacle {
    if i < 30 {
        RectObstacle {
            position: Point { x: (-200 * UNIT + i * 20 * UNIT) as i64, y: (-100 * UNIT) as i64 },
            size: (20 * UNIT) as i64,
        }
    } else {
        RectObstacle {
            position: Point { x: (-200 * UNIT + (i - 30) * 10 * UNIT) as i64, y: (-60 * UNIT) as i64 },
            size: (10 * UNIT) as i64,
        }
    }
}

/// The level's obstacles.
pub fn level_obstacles() -> (r: Vec<RectObstacle>)
    ensures
        r@.len() == 40,
        forall|i: int| 0 <= i < 40 ==> r@[i] == level_obstacle(i),
        forall|i: int| 0 <= i < r@.len() ==> (#[trigger] r@[i]).wf(),
{
    let mut r: Vec<RectObstacle> = Vec::new();
    let mut x: i64 = -200 * UNIT;
    let mut i: usize = 0;
    while i < 30
        invariant
            i <= 30,
            r@.len() == i,
            x == -200 * UNIT + i * 20 * UNIT,
            forall|k: int| 0 <= k < i ==> r@[k] == level_obstacle(k),
        decreases 30 - i,
    {
        r.push(RectObstacle { position: Point { x, y: -100 * UNIT }, size: 20 * UNIT });
        x = x + 20 * UNIT;
        i = i + 1;
    }
    x = -200 * UNIT;
    while i < 40
        invariant
            30 <= i <= 40,
            r@.len() == i,
            x == -200 * UNIT + (i - 30) * 10 * UNIT,
            forall|k: int| 0 <= k < i ==> r@[k] == level_obstacle(k),
        decreases 40 - i,
    {
        r.push(RectObstacle { position: Point { x, y: -60 * UNIT }, size: 10 * UNIT });
        x = x + 10 * UNIT;
        i = i + 1;
    }
    assert forall|k: int| 0 <= k < r@.len() implies (#[trigger] r@[k]).wf() by {
        assert(r@[k] == level_obstacle(k));
    }
    r
}

} // verus!
