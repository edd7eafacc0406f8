//! Pushing the player out of circular and square obstacles.
use vstd::prelude::*;
use vstd::arithmetic::div_mod::{lemma_fundamental_div_mod, lemma_mod_pos_bound};
use crate::geometry::{Point, clamped, constrain, div_away, isqrt, lemma_root, root, sq_dist, squared_distance};
use crate::player::{Player, POS_LIMIT, SIZE_LIMIT, UNIT};

verus! {

/// Bound on obstacle coordinates.
pub const OBSTACLE_LIMIT: i64 = 0x40_0000_0000;

/// A static circular obstacle.
#[derive(Clone, Copy, Debug, PartialEq, Eq, Structural)]
pub struct CircleObstacle {
    /// Centre of the circle.
    pub position: Point,
    /// Diameter of the circle.
    pub size: i64,
}

/// A static axis-aligned square obstacle.
#[derive(Clone, Copy, Debug, PartialEq, Eq, Structural)]
pub struct RectObstacle {
    /// Centre of the square.
    pub position: Point,
    /// Side length of the square.
    pub size: i64,
}

impl CircleObstacle {
    pub open spec fn wf(&self) -> bool {
        &&& -OBSTACLE_LIMIT <= self.position.x <= OBSTACLE_LIMIT
        &&& -OBSTACLE_LIMIT <= self.position.y <= OBSTACLE_LIMIT
        &&& 0 < self.size <= SIZE_LIMIT
    }

    /// Executable test of `wf`.
    pub fn is_valid(&self) -> (r: bool)
        ensures
            r == self.wf(),
    {
        -OBSTACLE_LIMIT <= self.position.x && self.position.x <= OBSTACLE_LIMIT
            && -OBSTACLE_LIMIT <= self.position.y && self.position.y <= OBSTACLE_LIMIT
            && 0 < self.size && self.size <= SIZE_LIMIT
    }
}

impl RectObstacle {
    pub open spec fn wf(&self) -> bool {
        &&& -OBSTACLE_LIMIT <= self.position.x <= OBSTACLE_LIMIT
        &&& -OBSTACLE_LIMIT <= self.position.y <= OBSTACLE_LIMIT
        &&& 0 < self.size <= SIZE_LIMIT
    }

    /// Executable test of `wf`.
    pub fn is_valid(&self) -> (r: bool)
        ensures
            r == self.wf(),
    {
        -OBSTACLE_LIMIT <= self.position.x && self.position.x <= OBSTACLE_LIMIT
            && -OBSTACLE_LIMIT <= self.position.y && self.position.y <= OBSTACLE_LIMIT
            && 0 < self.size && self.size <= SIZE_LIMIT
    }
}

/// The point at which `from` ends when moved along the ray from `anchor`
/// through it to distance `reach / 2` from `anchor` (each coordinate of the
/// offset rounded away from zero). A `from` equal to `anchor` gives no
/// direction and stays where it is.
pub open spec fn push_from(anchor: Point, from: Point, reach: int) -> Point {
    let dx = from.x - anchor.x;
    let dy = from.y - anchor.y;
    let n = root(dx * dx + dy * dy);
    if n == 0 {
        from
    } else {
        Point {
            x: (anchor.x + div_away(dx * reach, 2 * n)) as i64,
            y: (anchor.y + div_away(dy * reach, 2 * n)) as i64,
        }
    }
}

/// The player's circle overlaps the obstacle: the distance between centres
/// is less than the sum of the radii.
pub open spec fn circle_overlaps(p: Player, o: CircleObstacle) -> bool {
    4 * sq_dist(p.position.x as int, p.position.y as int, o.position.x as int, o.position.y as int)
        < (p.size + o.size) * (p.size + o.size)
}

/// The player after touching a body: moved to `position`, vertical speed
/// zero, on its feet.
pub open spec fn landed_at(p: Player, position: Point) -> Player {
    Player { position, velocity: Point { x: p.velocity.x, y: 0 }, jumping: false, ..p }
}

/// One circle pass: an overlapping player is pushed out along the line of
/// centres to touch the obstacle.
pub open spec fn resolve_circle(p: Player, o: CircleObstacle) -> Player {
    if circle_overlaps(p, o) {
        landed_at(p, push_from(o.position, p.position, p.size + o.size))
    } else {
        p
    }
}

/// The player after the circle pass over `obs`, in order.
pub open spec fn resolve_circles(p: Player, obs: Seq<CircleObstacle>) -> Player
    decreases obs.len(),
{
    if obs.len() == 0 {
        p
    } else {
        resolve_circle(resolve_circles(p, obs.drop_last()), obs.last())
    }
}

/// The point of the square nearest to `q`.
pub open spec fn closest_point(q: Point, r: RectObstacle) -> Point {
    let lo_x = r.position.x - r.size / 2;
    let lo_y = r.position.y - r.size / 2;
    Point {
        x: clamped(q.x as int, lo_x, lo_x + r.size) as i64,
        y: clamped(q.y as int, lo_y, lo_y + r.size) as i64,
    }
}

/// The player's circle overlaps the square: the square's nearest point is
/// closer to the centre than the radius.
pub open spec fn rect_overlaps(p: Player, r: RectObstacle) -> bool {
    let c = closest_point(p.position, r);
    4 * sq_dist(p.position.x as int, p.position.y as int, c.x as int, c.y as int) < p.size * p.size
}

/// One square pass: an overlapping player is pushed away from the square's
/// nearest point until it touches it.
pub open spec fn resolve_rect(p: Player, r: RectObstacle) -> Player {
    if rect_overlaps(p, r) {
        landed_at(p, push_from(closest_point(p.position, r), p.position, p.size as int))
    } else {
        p
    }
}

/// The player after the square pass over `obs`, in order.
pub open spec fn resolve_rects(p: Player, obs: Seq<RectObstacle>) -> Player
    decreases obs.len(),
{
    if obs.len() == 0 {
        p
    } else {
        resolve_rect(resolve_rects(p, obs.drop_last()), obs.last())
    }
}

proof fn lemma_div_away(a: int, b: int)
    requires
        b > 0,
    ensures
        a >= 0 ==> div_away(a, b) >= 0 && div_away(a, b) * b >= a,
        a <= 0 ==> div_away(a, b) <= 0 && div_away(a, b) * b <= a,
        a == 0 <==> div_away(a, b) == 0,
{
    let m = if a >= 0 { a } else { -a };
    let q = (m + b - 1) / b;
    lemma_fundamental_div_mod(m + b - 1, b);
    lemma_mod_pos_bound(m + b - 1, b);
    assert(q * b >= m) by (nonlinear_arith)
        requires
            m + b - 1 == b * q + (m + b - 1) % b,
            (m + b - 1) % b < b,
    ;
    assert(q >= 0 && (m == 0 <==> q == 0)) by (nonlinear_arith)
        requires
            m + b - 1 == b * q + (m + b - 1) % b,
            0 <= (m + b - 1) % b < b,
            m >= 0,
            b > 0,
    ;
    assert((-q) * b == -(q * b)) by (nonlinear_arith);
}

proof fn lemma_div_away_bound(a: int, n: int, reach: int)
    requires
        n > 0,
        reach > 0,
        -(n * reach) <= a <= n * reach,
    ensures
        -reach <= div_away(a, 2 * n) <= reach,
{
    let b = 2 * n;
    let m = if a >= 0 { a } else { -a };
    let q = (m + b - 1) / b;
    lemma_fundamental_div_mod(m + b - 1, b);
    lemma_mod_pos_bound(m + b - 1, b);
    assert(q <= reach) by (nonlinear_arith)
        requires
            m + b - 1 == b * q + (m + b - 1) % b,
            0 <= (m + b - 1) % b,
            0 <= m <= n * reach,
            b == 2 * n,
            n > 0,
    ;
}

/// The offset `div_away(d * reach, 2 * n)` for a component `d` of a vector
/// whose length rounds down to `n`.
fn push_offset(d: i64, reach: i64, n: u128) -> (r: i64)
    requires
        -POS_LIMIT * 2 <= d <= POS_LIMIT * 2,
        0 < reach <= SIZE_LIMIT * 2,
        0 < n <= 0x1000_0000_0000,
        d * d < (n + 1) * (n + 1),
    ensures
        r == div_away(d * reach, 2 * n),
        -reach <= r <= reach,
{
    proof {
        if d > n {
            assert(d * d >= (n + 1) * (n + 1)) by (nonlinear_arith)
                requires
                    d >= n + 1,
                    n > 0,
            ;
        }
        if d < -n {
            assert(d * d >= (n + 1) * (n + 1)) by (nonlinear_arith)
                requires
                    -d >= n + 1,
                    n > 0,
            ;
        }
    }
    assert(-0x4_0000_0000_0000_0000_0000i128 <= d * reach <= 0x4_0000_0000_0000_0000_0000i128) by (nonlinear_arith)
        requires
            -0x800_0000_0000 <= d <= 0x800_0000_0000,
            0 < reach <= 0x80_0000_0000,
    ;
    assert(-(n * reach) <= d * reach <= n * reach) by (nonlinear_arith)
        requires
            -n <= d <= n,
            reach > 0,
    ;
    proof {
        lemma_div_away_bound(d * reach, n as int, reach as int);
    }
    let a: i128 = d as i128 * reach as i128;
    let b: i128 = 2 * n as i128;
    let q: i128 = if a >= 0 {
        (a + b - 1) / b
    } else {
        -((-a + b - 1) / b)
    };
    q as i64
}

/// Bound on the point that a push is measured from.
const ANCHOR_LIMIT: i64 = 0x100_0000_0000;

/// Moves `from` along the ray from `anchor` to distance `reach / 2`.
fn push_point(anchor: Point, from: Point, reach: i64) -> (r: Point)
    requires
        -ANCHOR_LIMIT <= anchor.x <= ANCHOR_LIMIT,
        -ANCHOR_LIMIT <= anchor.y <= ANCHOR_LIMIT,
        -POS_LIMIT <= from.x <= POS_LIMIT,
        -POS_LIMIT <= from.y <= POS_LIMIT,
        0 < reach <= SIZE_LIMIT * 2,
    ensures
        r == push_from(anchor, from, reach as int),
        -POS_LIMIT <= r.x <= POS_LIMIT,
        -POS_LIMIT <= r.y <= POS_LIMIT,
{
    let d2 = squared_distance(anchor.x, anchor.y, from.x, from.y);
    let ghost dx = from.x - anchor.x;
    let ghost dy = from.y - anchor.y;
    assert(d2 == dx * dx + dy * dy) by (nonlinear_arith)
        requires
            d2 == sq_dist(anchor.x as int, anchor.y as int, from.x as int, from.y as int),
            dx == from.x - anchor.x,
            dy == from.y - anchor.y,
    ;
    let n = isqrt(d2);
    if n == 0 {
        from
    } else {
        proof {
            lemma_root(d2 as int);
            assert(dx * dx <= d2 && dy * dy <= d2) by (nonlinear_arith)
                requires
                    d2 == dx * dx + dy * dy,
            ;
        }
        let ex = push_offset(from.x - anchor.x, reach, n);
        let ey = push_offset(from.y - anchor.y, reach, n);
        Point { x: anchor.x + ex, y: anchor.y + ey }
    }
}

/// `v` scaled to length one unit, each coordinate rounded away from zero;
/// the zero vector has no direction and stays zero.
pub fn normalize(v: Point) -> (r: Point)
    requires
        -POS_LIMIT <= v.x <= POS_LIMIT,
        -POS_LIMIT <= v.y <= POS_LIMIT,
    ensures
        r == push_from(Point { x: 0, y: 0 }, v, 2 * UNIT),
{
    push_point(Point { x: 0, y: 0 }, v, 2 * UNIT)
}

/// One circle pass: pushes an overlapping player out of `obstacle` along the
/// line of centres, zeroes its vertical speed and puts it on its feet.
pub fn resolve_circle_contact(player: &mut Player, obstacle: &CircleObstacle)
    requires
        old(player).in_range(),
        obstacle.wf(),
    ensures
        *final(player) == resolve_circle(*old(player), *obstacle),
        final(player).in_range(),
{
    let d2 = squared_distance(player.position.x, player.position.y, obstacle.position.x, obstacle.position.y);
    let reach = player.size + obstacle.size;
    assert(reach * reach <= 0x1_0000_0000_0000_0000_0000_0000u128) by (nonlinear_arith)
        requires
            0 < reach <= 0x80_0000_0000,
    ;
    if 4 * d2 < reach as u128 * reach as u128 {
        let position = push_point(obstacle.position, player.position, reach);
        player.position = position;
        player.velocity.y = 0;
        player.jumping = false;
    }
}

/// One square pass: pushes an overlapping player away from the square's
/// nearest point until the two touch, zeroes its vertical speed and puts it
/// on its feet.
pub fn resolve_rect_contact(player: &mut Player, obstacle: &RectObstacle)
    requires
        old(player).in_range(),
        obstacle.wf(),
    ensures
        *final(player) == resolve_rect(*old(player), *obstacle),
        final(player).in_range(),
{
    let half = obstacle.size / 2;
    let lo_x = obstacle.position.x - half;
    let lo_y = obstacle.position.y - half;
    let closest = Point {
        x: constrain(player.position.x, lo_x, lo_x + obstacle.size),
        y: constrain(player.position.y, lo_y, lo_y + obstacle.size),
    };
    let d2 = squared_distance(player.position.x, player.position.y, closest.x, closest.y);
    let size = player.size;
    assert(size * size <= 0x1_0000_0000_0000_0000_0000_0000u128) by (nonlinear_arith)
        requires
            0 < size <= 0x40_0000_0000,
    ;
    if 4 * d2 < size as u128 * size as u128 {
        let position = push_point(closest, player.position, size);
        player.position = position;
        player.velocity.y = 0;
        player.jumping = false;
    }
}

/// Runs the circle pass of every obstacle against the player, in order.
pub fn collision_check_player(player: &mut Player, obstacles: &[CircleObstacle])
    requires
        old(player).in_range(),
        forall|i: int| 0 <= i < obstacles@.len() ==> (#[trigger] obstacles@[i]).wf(),
    ensures
        *final(player) == resolve_circles(*old(player), obstacles@),
        final(player).in_range(),
        final(player).map == old(player).map,
{
    let ghost start = *player;
    let mut i: usize = 0;
    while i < obstacles.len()
        invariant
            0 <= i <= obstacles@.len(),
            player.in_range(),
            player.map == start.map,
            *player == resolve_circles(start, obstacles@.take(i as int)),
            forall|k: int| 0 <= k < obstacles@.len() ==> (#[trigger] obstacles@[k]).wf(),
        decreases obstacles@.len() - i,
    {
        resolve_circle_contact(player, &obstacles[i]);
        proof {
            assert(obstacles@.take(i + 1).drop_last() =~= obstacles@.take(i as int));
        }
        i = i + 1;
    }
    proof {
        assert(obstacles@.take(i as int) =~= obstacles@);
    }
}

/// Runs the square pass of every obstacle against the player, in order.
pub fn collision_check_player_rect(player: &mut Player, obstacles: &[RectObstacle])
    requires
        old(player).in_range(),
        forall|i: int| 0 <= i < obstacles@.len() ==> (#[trigger] obstacles@[i]).wf(),
    ensures
        *final(player) == resolve_rects(*old(player), obstacles@),
        final(player).in_range(),
        final(player).map == old(player).map,
{
    let ghost start = *player;
    let mut i: usize = 0;
    while i < obstacles.len()
        invariant
            0 <= i <= obstacles@.len(),
            player.in_range(),
            player.map == start.map,
            *player == resolve_rects(start, obstacles@.take(i as int)),
            forall|k: int| 0 <= k < obstacles@.len() ==> (#[trigger] obstacles@[k]).wf(),
        decreases obstacles@.len() - i,
    {
        resolve_rect_contact(player, &obstacles[i]);
        proof {
            assert(obstacles@.take(i + 1).drop_last() =~= obstacles@.take(i as int));
        }
        i = i + 1;
    }
    proof {
        assert(obstacles@.take(i as int) =~= obstacles@);
    }
}

proof fn lemma_square_ge(a: int, b: int)
    requires
        (a >= b && b >= 0) || (a <= b && b <= 0),
    ensures
        a * a >= b * b,
{
    assert(a * a >= b * b) by (nonlinear_arith)
        requires
            (a >= b && b >= 0) || (a <= b && b <= 0),
    ;
}

proof fn lemma_scaled_length(x: int, y: int, dx: int, dy: int, n: int, reach: int)
    requires
        n > 0,
        (2 * n * x) * (2 * n * x) >= (dx * reach) * (dx * reach),
        (2 * n * y) * (2 * n * y) >= (dy * reach) * (dy * reach),
        dx * dx + dy * dy >= n * n,
    ensures
        4 * (x * x + y * y) >= reach * reach,
{
    let nn = n * n;
    let rr = reach * reach;
    assert((2 * n * x) * (2 * n * x) == 4 * nn * (x * x)) by (nonlinear_arith)
        requires
            nn == n * n,
    ;
    assert((2 * n * y) * (2 * n * y) == 4 * nn * (y * y)) by (nonlinear_arith)
        requires
            nn == n * n,
    ;
    assert((dx * reach) * (dx * reach) == (dx * dx) * rr) by (nonlinear_arith)
        requires
            rr == reach * reach,
    ;
    assert((dy * reach) * (dy * reach) == (dy * dy) * rr) by (nonlinear_arith)
        requires
            rr == reach * reach,
    ;
    assert(4 * nn * (x * x) + 4 * nn * (y * y) == 4 * nn * (x * x + y * y)) by (nonlinear_arith);
    assert((dx * dx) * rr + (dy * dy) * rr == (dx * dx + dy * dy) * rr) by (nonlinear_arith);
    assert(4 * (n * n) * (x * x + y * y) >= (dx * dx + dy * dy) * (reach * reach));
    assert((dx * dx + dy * dy) * (reach * reach) >= (n * n) * (reach * reach)) by (nonlinear_arith)
        requires
            dx * dx + dy * dy >= n * n,
    ;
    assert(4 * (x * x + y * y) >= reach * reach) by (nonlinear_arith)
        requires
            n > 0,
            4 * (n * n) * (x * x + y * y) >= (n * n) * (reach * reach),
    ;
}

/// A push from a distinct point ends at distance at least `reach / 2` from
/// `anchor`, on the same side of it along each axis.
proof fn lemma_push_reaches(anchor: Point, from: Point, reach: int)
    requires
        -ANCHOR_LIMIT <= anchor.x <= ANCHOR_LIMIT,
        -ANCHOR_LIMIT <= anchor.y <= ANCHOR_LIMIT,
        -POS_LIMIT <= from.x <= POS_LIMIT,
        -POS_LIMIT <= from.y <= POS_LIMIT,
        0 < reach <= SIZE_LIMIT * 2,
        from != anchor,
    ensures
        ({
            let q = push_from(anchor, from, reach);
            &&& 4 * sq_dist(q.x as int, q.y as int, anchor.x as int, anchor.y as int) >= reach * reach
            &&& from.x > anchor.x ==> q.x > anchor.x
            &&& from.x < anchor.x ==> q.x < anchor.x
            &&& from.x == anchor.x ==> q.x == anchor.x
            &&& from.y > anchor.y ==> q.y > anchor.y
            &&& from.y < anchor.y ==> q.y < anchor.y
            &&& from.y == anchor.y ==> q.y == anchor.y
        }),
{
    let dx = from.x - anchor.x;
    let dy = from.y - anchor.y;
    let v = dx * dx + dy * dy;
    assert(dx * dx >= 0 && dy * dy >= 0) by (nonlinear_arith);
    assert(v > 0) by (nonlinear_arith)
        requires
            v == dx * dx + dy * dy,
            dx != 0 || dy != 0,
    ;
    lemma_root(v);
    let n = root(v);
    if n == 0 {
        assert((n + 1) * (n + 1) == 1) by (nonlinear_arith)
            requires
                n == 0,
        ;
    }
    assert(n > 0);
    assert(-n <= dx <= n && -n <= dy <= n) by (nonlinear_arith)
        requires
            dx * dx <= v,
            dy * dy <= v,
            v < (n + 1) * (n + 1),
            n > 0,
    {
        if dx > n {
            assert(dx * dx >= (n + 1) * (n + 1)) by (nonlinear_arith)
                requires
                    dx >= n + 1,
                    n > 0,
            ;
        }
        if dx < -n {
            assert(dx * dx >= (n + 1) * (n + 1)) by (nonlinear_arith)
                requires
                    -dx >= n + 1,
                    n > 0,
            ;
        }
        if dy > n {
            assert(dy * dy >= (n + 1) * (n + 1)) by (nonlinear_arith)
                requires
                    dy >= n + 1,
                    n > 0,
            ;
        }
        if dy < -n {
            assert(dy * dy >= (n + 1) * (n + 1)) by (nonlinear_arith)
                requires
                    -dy >= n + 1,
                    n > 0,
            ;
        }
    }
    assert(-(n * reach) <= dx * reach <= n * reach && -(n * reach) <= dy * reach <= n * reach)
        by (nonlinear_arith)
        requires
            -n <= dx <= n,
            -n <= dy <= n,
            reach > 0,
    ;
    lemma_div_away_bound(dx * reach, n, reach);
    lemma_div_away_bound(dy * reach, n, reach);
    lemma_div_away(dx * reach, 2 * n);
    lemma_div_away(dy * reach, 2 * n);
    let ex = div_away(dx * reach, 2 * n);
    let ey = div_away(dy * reach, 2 * n);
    assert((dx > 0 <==> dx * reach > 0) && (dx < 0 <==> dx * reach < 0)) by (nonlinear_arith)
        requires
            reach > 0,
    ;
    assert((dy > 0 <==> dy * reach > 0) && (dy < 0 <==> dy * reach < 0)) by (nonlinear_arith)
        requires
            reach > 0,
    ;
    assert(ex * (2 * n) == 2 * n * ex && ey * (2 * n) == 2 * n * ey) by (nonlinear_arith);
    lemma_square_ge(2 * n * ex, dx * reach);
    lemma_square_ge(2 * n * ey, dy * reach);
    lemma_scaled_length(ex, ey, dx, dy, n, reach);
    let q = push_from(anchor, from, reach);
    assert(q.x == anchor.x + ex && q.y == anchor.y + ey);
}

/// After one circle pass the player does not overlap that obstacle: the
/// distance between centres is at least the sum of the radii. (When the
/// centres coincide no direction is defined and the player is not moved.)
pub proof fn lemma_circle_separated(p: Player, o: CircleObstacle)
    requires
        p.in_range(),
        o.wf(),
        p.position != o.position,
    ensures
        !circle_overlaps(resolve_circle(p, o), o),
{
    if circle_overlaps(p, o) {
        lemma_push_reaches(o.position, p.position, p.size + o.size);
        let q = push_from(o.position, p.position, p.size + o.size);
        assert(sq_dist(q.x as int, q.y as int, o.position.x as int, o.position.y as int)
            == sq_dist(o.position.x as int, o.position.y as int, q.x as int, q.y as int))
            by (nonlinear_arith);
    }
}

/// After one square pass the player does not overlap that square: the
/// square's nearest point is at least the radius away. (When the centre
/// lies in the square no direction is defined and the player is not moved.)
pub proof fn lemma_rect_separated(p: Player, r: RectObstacle)
    requires
        p.in_range(),
        r.wf(),
        p.position != closest_point(p.position, r),
    ensures
        !rect_overlaps(resolve_rect(p, r), r),
{
    if rect_overlaps(p, r) {
        let c = closest_point(p.position, r);
        lemma_push_reaches(c, p.position, p.size as int);
        let q = push_from(c, p.position, p.size as int);
        assert(closest_point(q, r) == c);
        assert(sq_dist(q.x as int, q.y as int, c.x as int, c.y as int)
            == sq_dist(c.x as int, c.y as int, q.x as int, q.y as int))
            by (nonlinear_arith);
    }
}

} // verus!
