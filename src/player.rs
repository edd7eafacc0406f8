//! The player body and its kinematics: jump impulse, drag, gravity, the
//! ground line and the screen edges.
use vstd::prelude::*;
use crate::geometry::{Point, clamped, constrain};

verus! {

/// Bound on the player's coordinates and velocity components that the
/// collision passes accept.
pub const POS_LIMIT: i64 = 0x400_0000_0000;

/// Bound on any body's size (diameter or side length).
pub const SIZE_LIMIT: i64 = 0x40_0000_0000;

/// The controllable body.
#[derive(Clone, Copy, Debug, PartialEq, Eq, Structural)]
pub struct Player {
    /// Centre of the body.
    pub position: Point,
    /// Displacement per tick.
    pub velocity: Point,
    /// Horizontal bias set by the orbiting accessory; a jump launches
    /// sideways at three times this speed.
    pub vel_x_mod: i64,
    /// Whether the body is in the air.
    pub jumping: bool,
    /// Diameter of the collision circle.
    pub size: i64,
    /// Index of the current map page.
    pub map: i32,
}

impl Player {
    /// Coordinates and velocity small enough for the collision passes, and a
    /// positive size.
    pub open spec fn in_range(&self) -> bool {
        &&& -POS_LIMIT <= self.position.x <= POS_LIMIT
        &&& -POS_LIMIT <= self.position.y <= POS_LIMIT
        &&& -POS_LIMIT <= self.velocity.x <= POS_LIMIT
        &&& -POS_LIMIT <= self.velocity.y <= POS_LIMIT
        &&& 0 < self.size <= SIZE_LIMIT
    }
}

/// One world unit.
pub const UNIT: i64 = 1000;

/// Speed lost to gravity per tick while above the ground line.
pub const GRAVITY: i64 = 100;

/// Vertical speed given by a jump.
pub const JUMP_POWER: i64 = 4000;

/// A jump launches sideways at this multiple of `vel_x_mod`.
pub const JUMP_SPEED_FACTOR: i64 = 3;

/// Horizontal speed lost to drag per tick.
pub const DRAG: i64 = 100;

/// Height of the ground line.
pub const GROUND_Y: i64 = -91000;

/// Crossing `x = WRAP_BOUND` or `x = -WRAP_BOUND` moves to the next or the
/// previous map.
pub const WRAP_BOUND: i64 = 220000;

/// Half-width of the visible play range.
pub const PLAY_BOUND: i64 = 200000;

/// Bound on the coordinates and velocity that a tick starts from.
pub const MOVE_LIMIT: i64 = 0x100_0000_0000;

/// Bound on `vel_x_mod` that a tick starts from.
pub const MOD_LIMIT: i64 = 0x40_0000_0000;

/// What happens at the left and right edges.
#[derive(Clone, Copy, Debug, PartialEq, Eq, Structural)]
pub enum EdgeRule {
    /// Past a wrap bound the player reappears at the opposite bound at
    /// height zero, on the next (right edge) or previous (left edge) map.
    Wrap,
    /// The player is held inside the visible play range.
    Clamp,
}

impl Player {
    /// The state that a tick may start from: small enough coordinates,
    /// velocity and bias, a positive size, and room to change the map index.
    pub open spec fn movable(&self) -> bool {
        &&& -MOVE_LIMIT <= self.position.x <= MOVE_LIMIT
        &&& -MOVE_LIMIT <= self.position.y <= MOVE_LIMIT
        &&& -MOVE_LIMIT <= self.velocity.x <= MOVE_LIMIT
        &&& -MOVE_LIMIT <= self.velocity.y <= MOVE_LIMIT
        &&& -MOD_LIMIT <= self.vel_x_mod <= MOD_LIMIT
        &&& 0 < self.size <= SIZE_LIMIT
        &&& i32::MIN < self.map < i32::MAX
    }

    /// Executable test of `movable`.
    pub fn is_movable(&self) -> (r: bool)
        ensures
            r == self.movable(),
    {
        -MOVE_LIMIT <= self.position.x && self.position.x <= MOVE_LIMIT
            && -MOVE_LIMIT <= self.position.y && self.position.y <= MOVE_LIMIT
            && -MOVE_LIMIT <= self.velocity.x && self.velocity.x <= MOVE_LIMIT
            && -MOVE_LIMIT <= self.velocity.y && self.velocity.y <= MOVE_LIMIT
            && -MOD_LIMIT <= self.vel_x_mod && self.vel_x_mod <= MOD_LIMIT
            && 0 < self.size && self.size <= SIZE_LIMIT
            && i32::MIN < self.map && self.map < i32::MAX
    }
}

/// The player's state at the start of the game: at `(0, 200)`, at rest,
/// on its feet, size 20, on map 1.
pub fn initial_player() -> (r: Player)
    ensures
        r == (Player {
            position: Point { x: 0, y: (200 * UNIT) as i64 },
            velocity: Point { x: 0, y: 0 },
            vel_x_mod: 0,
            jumping: false,
            size: (20 * UNIT) as i64,
            map: 1,
        }),
        r.movable(),
{
    Player {
        position: Point { x: 0, y: (200 * UNIT) as i64 },
        velocity: Point { x: 0, y: 0 },
        vel_x_mod: 0,
        jumping: false,
        size: (20 * UNIT) as i64,
        map: 1,
    }
}

/// The player after the jump input: a player on its feet that is asked to
/// jump takes off with `JUMP_POWER` upwards and three times its bias
/// sideways; otherwise nothing changes.
pub open spec fn after_controls(p: Player, jump: bool) -> Player {
    if jump && !p.jumping {
        Player {
            velocity: Point { x: (JUMP_SPEED_FACTOR * p.vel_x_mod) as i64, y: JUMP_POWER },
            jumping: true,
            ..p
        }
    } else {
        p
    }
}

/// Applies the jump input.
pub fn player_controls(player: &mut Player, jump: bool)
    requires
        old(player).movable(),
    ensures
        *final(player) == after_controls(*old(player), jump),
        final(player).movable(),
{
    if jump && !player.jumping {
        player.velocity.y = JUMP_POWER;
        player.velocity.x = JUMP_SPEED_FACTOR * player.vel_x_mod;
        player.jumping = true;
    }
}

/// Horizontal speed after one tick of drag: `DRAG` closer to zero, never
/// past it.
pub open spec fn decayed(v: int) -> int {
    if v > DRAG {
        v - DRAG
    } else if v < -DRAG {
        v + DRAG
    } else {
        0
    }
}

/// The player after the edge check under `edge`.
pub open spec fn after_edges(p: Player, edge: EdgeRule) -> Player {
    match edge {
        EdgeRule::Wrap => {
            if p.position.x > WRAP_BOUND {
                Player { position: Point { x: (-WRAP_BOUND) as i64, y: 0 }, map: (p.map + 1) as i32, ..p }
            } else if p.position.x < -WRAP_BOUND {
                Player { position: Point { x: WRAP_BOUND, y: 0 }, map: (p.map - 1) as i32, ..p }
            } else {
                p
            }
        },
        EdgeRule::Clamp => Player {
            position: Point {
                x: clamped(p.position.x as int, -PLAY_BOUND as int, PLAY_BOUND as int) as i64,
                y: p.position.y,
            },
            ..p
        },
    }
}

/// The player after one tick of motion, before the edge check: drag, then
/// the horizontal move; gravity while above the ground line, then the
/// vertical move with `jitter` added; a body that reaches the ground line
/// stops on it.
pub open spec fn after_motion(p: Player, jitter: int) -> Player {
    let vx = decayed(p.velocity.x as int);
    let vy = if p.position.y > GROUND_Y {
        p.velocity.y - GRAVITY
    } else {
        p.velocity.y as int
    };
    let y = p.position.y + vy + jitter;
    if y <= GROUND_Y {
        Player {
            position: Point { x: (p.position.x + vx) as i64, y: GROUND_Y },
            velocity: Point { x: vx as i64, y: 0 },
            jumping: false,
            ..p
        }
    } else {
        Player {
            position: Point { x: (p.position.x + vx) as i64, y: y as i64 },
            velocity: Point { x: vx as i64, y: vy as i64 },
            ..p
        }
    }
}

/// The player after one tick of motion and the edge check.
pub open spec fn after_movement(p: Player, edge: EdgeRule, jitter: int) -> Player {
    after_edges(after_motion(p, jitter), edge)
}

/// The horizontal position after this tick's drag and move lies past a wrap
/// bound.
pub open spec fn crosses_wrap_bound(p: Player) -> bool {
    let x = p.position.x + decayed(p.velocity.x as int);
    x > WRAP_BOUND || x < -WRAP_BOUND
}

/// The edge check: under `EdgeRule::Wrap` a player past a wrap bound
/// reappears at the opposite one at height zero and the map index steps by
/// one; under `EdgeRule::Clamp` it is held inside the play range.
pub fn wrap_check(player: &mut Player, edge: EdgeRule)
    requires
        i32::MIN < old(player).map < i32::MAX,
    ensures
        *final(player) == after_edges(*old(player), edge),
{
    match edge {
        EdgeRule::Wrap => {
            if player.position.x > WRAP_BOUND {
                player.position.x = -WRAP_BOUND;
                player.position.y = 0;
                player.map = player.map + 1;
            } else if player.position.x < -WRAP_BOUND {
                player.position.x = WRAP_BOUND;
                player.position.y = 0;
                player.map = player.map - 1;
            }
        },
        EdgeRule::Clamp => {
            player.position.x = constrain(player.position.x, -PLAY_BOUND, PLAY_BOUND);
        },
    }
}

/// One tick of motion: drag, horizontal move, gravity, vertical move with
/// `jitter`, the ground line, then the edge check.
pub fn player_movements(player: &mut Player, edge: EdgeRule, jitter: i64)
    requires
        old(player).movable(),
        -MOVE_LIMIT <= jitter <= MOVE_LIMIT,
    ensures
        *final(player) == after_movement(*old(player), edge, jitter as int),
        final(player).in_range(),
        final(player).position.y >= GROUND_Y,
        -1 <= final(player).map - old(player).map <= 1,
        final(player).map != old(player).map ==> edge == EdgeRule::Wrap && crosses_wrap_bound(*old(player)),
{
    if player.velocity.x > DRAG {
        player.velocity.x = player.velocity.x - DRAG;
    } else if player.velocity.x < -DRAG {
        player.velocity.x = player.velocity.x + DRAG;
    } else {
        player.velocity.x = 0;
    }
    player.position.x = player.position.x + player.velocity.x;
    if player.position.y > GROUND_Y {
        player.velocity.y = player.velocity.y - GRAVITY;
    }
    player.position.y = player.position.y + player.velocity.y + jitter;
    if player.position.y <= GROUND_Y {
        player.position.y = GROUND_Y;
        player.velocity.y = 0;
        player.jumping = false;
    }
    wrap_check(player, edge);
}

} // verus!
