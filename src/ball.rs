//! The ball: a small square with a velocity that bounces off the side and
//! top edges of the screen and may leave through the bottom.

use crate::geometry::{Point, Rectangle, Size};
use vstd::prelude::*;

verus! {

pub const BALL_WIDTH: u32 = 4;

pub const BALL_HEIGHT: u32 = 4;

/// Distance covered per tick along each axis with a unit velocity component.
pub const BALL_SPEED: i32 = 2;

/// Half-extent of the playing field: the screen, the paddle and the blocks
/// all lie within `[-FIELD_LIMIT, FIELD_LIMIT]` on both axes.
pub const FIELD_LIMIT: i32 = 0x1_0000;

/// Largest screen extent supported.
pub const SCREEN_LIMIT: i32 = 0x8000;

#[derive(Clone, Copy, Debug, PartialEq, Eq, Structural)]
pub struct Ball {
    pub rect: Rectangle,
    pub vel: Point,
    pub screen_width: i32,
}

/// `r` read as a two's-complement `i32`.
pub open spec fn as_signed(r: u32) -> int {
    if r < 0x8000_0000 { r as int } else { r - 0x1_0000_0000 }
}

/// Remainder of a division rounded toward zero, as Rust's `%` computes it.
pub open spec fn trunc_rem(a: int, d: int) -> int {
    if a >= 0 { a % d } else { -((-a) % d) }
}

pub open spec fn clamp_int(v: int, lo: int, hi: int) -> int {
    if v < lo { lo } else if v > hi { hi } else { v }
}

/// Horizontal direction of a new ball drawn from the random word `r`:
/// `r` as an `i32`, modulo 21, shifted down by 10, clamped to `[-1, 1]`.
pub open spec fn random_direction(r: u32) -> int {
    clamp_int(trunc_rem(as_signed(r), 21) - 10, -1, 1)
}

/// Horizontal velocity after the edge bounce, for a ball whose left edge has
/// just moved to `x`.
pub open spec fn bounced_vel_x(x: int, screen_width: int, vx: int) -> int {
    if x > screen_width - BALL_WIDTH {
        -1
    } else if x < 0 {
        1
    } else {
        vx
    }
}

/// Vertical velocity after the edge bounce, for a ball whose top edge has
/// just moved to `y`.
pub open spec fn bounced_vel_y(y: int, vy: int) -> int {
    if y < 0 { 1 } else { vy }
}

/// The direction a new ball takes, drawn from the random word `r`.
pub fn direction_from_random(r: u32) -> (d: i32)
    ensures
        d == random_direction(r),
        -1 <= d <= 1,
{
    let s: i64 = if r < 0x8000_0000 { r as i64 } else { r as i64 - 0x1_0000_0000 };
    let rem: i64 = if s >= 0 { s % 21 } else { -((-s) % 21) };
    let shifted: i64 = rem - 10;
    if shifted < -1 {
        -1
    } else if shifted > 1 {
        1
    } else {
        shifted as i32
    }
}

/// A new ball at `top_left` heading down, horizontally in the direction
/// drawn from `random`.
pub open spec fn spawned(top_left: Point, random: u32, screen_width: i32) -> Ball {
    Ball {
        rect: Rectangle { top_left, size: Size { width: BALL_WIDTH, height: BALL_HEIGHT } },
        vel: Point { x: random_direction(random) as i32, y: 1 },
        screen_width,
    }
}

impl Ball {
    /// The ball one tick later: moved by `BALL_SPEED` times its velocity,
    /// with the velocity turned back at the left, right and top edges.
    pub open spec fn advanced(self) -> Ball {
        let x = self.rect.top_left.x + BALL_SPEED * self.vel.x;
        let y = self.rect.top_left.y + BALL_SPEED * self.vel.y;
        Ball {
            rect: Rectangle { top_left: Point { x: x as i32, y: y as i32 }, size: self.rect.size },
            vel: Point {
                x: bounced_vel_x(x, self.screen_width as int, self.vel.x as int) as i32,
                y: bounced_vel_y(y, self.vel.y as int) as i32,
            },
            screen_width: self.screen_width,
        }
    }

    /// The ball is a `BALL_WIDTH` by `BALL_HEIGHT` square with unit velocity
    /// components, on a supported screen, and inside the playing field with
    /// the slack that edge bounces leave: a ball just beyond the left, right
    /// or top margin is already heading back.
    pub open spec fn wf(self) -> bool {
        let x = self.rect.top_left.x;
        let y = self.rect.top_left.y;
        &&& self.rect.size == Size { width: BALL_WIDTH, height: BALL_HEIGHT }
        &&& -1 <= self.vel.x <= 1
        &&& -1 <= self.vel.y <= 1
        &&& BALL_WIDTH <= self.screen_width <= SCREEN_LIMIT
        &&& -FIELD_LIMIT - 6 <= x <= FIELD_LIMIT + 2
        &&& x < -FIELD_LIMIT - 4 ==> self.vel.x == 1
        &&& x > FIELD_LIMIT ==> self.vel.x == -1
        &&& -FIELD_LIMIT - 6 <= y <= FIELD_LIMIT + 2
        &&& y < -FIELD_LIMIT - 4 ==> self.vel.y == 1
    }

    /// A ball at `top_left`, heading down, with the horizontal direction
    /// drawn from the random word `random`.
    pub fn new(top_left: Point, random: u32, screen_width: i32) -> (b: Ball)
        ensures
            b == spawned(top_left, random, screen_width),
            b.rect == (Rectangle { top_left, size: Size { width: BALL_WIDTH, height: BALL_HEIGHT } }),
            b.vel.x == random_direction(random),
            b.vel.y == 1,
            b.screen_width == screen_width,
    {
        let rand_x = direction_from_random(random);
        Ball {
            rect: Rectangle::new(top_left, Size::new(BALL_WIDTH, BALL_HEIGHT)),
            vel: Point::new(rand_x, 1),
            screen_width,
        }
    }

    /// The top edge is above the bottom of a screen `screen_height` tall.
    pub open spec fn on_screen(self, screen_height: int) -> bool {
        self.rect.top_left.y < screen_height
    }

    /// Whether the ball is still on a screen `screen_height` tall.
    pub fn is_on_screen(&self, screen_height: i32) -> (r: bool)
        ensures
            r == self.on_screen(screen_height as int),
    {
        self.rect.top_left.y < screen_height
    }

    /// Moves the ball by its velocity times `BALL_SPEED`, then turns it back
    /// from the left, right and top edges of the screen. There is no bottom
    /// edge.
    pub fn update(&mut self)
        requires
            old(self).wf(),
            old(self).rect.top_left.y <= FIELD_LIMIT,
        ensures
            final(self).wf(),
            *final(self) == old(self).advanced(),
            final(self).rect.size == old(self).rect.size,
            final(self).screen_width == old(self).screen_width,
            final(self).rect.top_left.x == old(self).rect.top_left.x + BALL_SPEED * old(self).vel.x,
            final(self).rect.top_left.y == old(self).rect.top_left.y + BALL_SPEED * old(self).vel.y,
            final(self).vel.x == bounced_vel_x(
                final(self).rect.top_left.x as int,
                old(self).screen_width as int,
                old(self).vel.x as int,
            ),
            final(self).vel.y == bounced_vel_y(final(self).rect.top_left.y as int, old(self).vel.y as int),
    {
        self.rect = self.rect.translate(Point::new(self.vel.x * BALL_SPEED, self.vel.y * BALL_SPEED));
        if self.rect.top_left.x < 0 {
            self.vel.x = 1;
        }
        if self.rect.top_left.x > self.screen_width - self.rect.size.width as i32 {
            self.vel.x = -1;
        }
        if self.rect.top_left.y < 0 {
            self.vel.y = 1;
        }
    }
}

} // verus!
