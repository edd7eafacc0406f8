//! The accessory that orbits the player and steers its jumps.
use vstd::prelude::*;
use crate::player::{Player, UNIT};

verus! {

/// A full turn, in millionths of a radian (2 pi, rounded down).
pub const FULL_TURN: i64 = 6283185;

/// Half a turn, in millionths of a radian (pi, rounded).
pub const HALF_TURN: i64 = 3141593;

/// A quarter turn, in millionths of a radian (pi / 2, rounded).
pub const QUARTER_TURN: i64 = 1570796;

/// Angular speed, in millionths of a radian per microsecond (5 rad/s).
pub const SPIN_RATE: i64 = 5;

/// Longest frame, in microseconds, that `rotate_circle` accepts.
pub const ELAPSED_LIMIT: u64 = 0x100_0000_0000;

/// An accessory circling the player.
#[derive(Clone, Copy, Debug, PartialEq, Eq, Structural)]
pub struct RotatingClothes {
    /// Distance from the player's centre.
    pub radius: i64,
    /// Current angle, in millionths of a radian, counter-clockwise from the
    /// positive x axis.
    pub angle: i64,
}

impl RotatingClothes {
    /// An accessory at angle zero.
    pub fn new(radius: i64) -> (r: RotatingClothes)
        ensures
            r == (RotatingClothes { radius, angle: 0 }),
    {
        RotatingClothes { radius, angle: 0 }
    }
}

/// The horizontal bias that the accessory at `angle` gives the player: none
/// while it jumps; otherwise one unit towards the side the accessory is on
/// while it is above the player (upper right quadrant: rightwards, upper
/// left: leftwards, straight above: none), and none while it is not above.
pub open spec fn drag_target(radius: int, angle: int, jumping: bool) -> int {
    if jumping || radius <= 0 || !(0 < angle < HALF_TURN) {
        0
    } else if angle < QUARTER_TURN {
        UNIT as int
    } else if angle > QUARTER_TURN {
        -UNIT
    } else {
        0
    }
}

/// Advances the accessory by `elapsed_micros` and sets the player's
/// horizontal bias from where it now stands.
pub fn rotate_circle(clothes: &mut RotatingClothes, player: &mut Player, elapsed_micros: u64)
    requires
        0 <= old(clothes).angle < FULL_TURN,
        elapsed_micros <= ELAPSED_LIMIT,
    ensures
        final(clothes).radius == old(clothes).radius,
        final(clothes).angle == (old(clothes).angle + SPIN_RATE * elapsed_micros) % (FULL_TURN as int),
        0 <= final(clothes).angle < FULL_TURN,
        *final(player) == (Player {
            vel_x_mod: drag_target(
                final(clothes).radius as int,
                final(clothes).angle as int,
                old(player).jumping,
            ) as i64,
            ..*old(player)
        }),
{
    let advanced: i64 = clothes.angle + SPIN_RATE * (elapsed_micros as i64);
    clothes.angle = advanced % FULL_TURN;
    let target: i64 = if player.jumping || clothes.radius <= 0 || !(0 < clothes.angle
        && clothes.angle < HALF_TURN) {
        0
    } else if clothes.angle < QUARTER_TURN {
        UNIT
    } else if clothes.angle > QUARTER_TURN {
        -UNIT
    } else {
        0
    };
    player.vel_x_mod = target;
}

} // verus!
