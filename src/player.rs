//! The paddle, moved horizontally by the direction input.

use crate::geometry::{Point, Rectangle, Size, COORD_LIMIT};
use vstd::prelude::*;

verus! {

pub const PLAYER_WIDTH: u32 = 40;

pub const PLAYER_HEIGHT: u32 = 5;

/// Distance the paddle covers in one tick.
pub const PLAYER_VELOCITY: i32 = 5;

/// Lives a paddle starts with.
pub const PLAYER_LIVES: u8 = 3;

/// Where the player wants the paddle to go.
#[derive(Clone, Copy, Debug, PartialEq, Eq, Structural)]
pub enum PlayerDirection {
    Left,
    Right,
    Idle,
}

#[derive(Clone, Copy, Debug, PartialEq, Eq, Structural)]
pub struct Player {
    pub rect: Rectangle,
    pub direction: PlayerDirection,
    pub lives: u8,
}

/// Left edge of the paddle after one tick of `direction` from `x` on a
/// screen `screen_width` wide: one step left, floored at 0; one step right,
/// capped at `screen_width - PLAYER_WIDTH`; or no move.
pub open spec fn moved_x(x: int, direction: PlayerDirection, screen_width: int) -> int {
    match direction {
        PlayerDirection::Idle => x,
        PlayerDirection::Left => if x - PLAYER_VELOCITY >= 0 { x - PLAYER_VELOCITY } else { 0 },
        PlayerDirection::Right => {
            let right_edge = screen_width - PLAYER_WIDTH;
            if x + PLAYER_VELOCITY <= right_edge { x + PLAYER_VELOCITY } else { right_edge }
        },
    }
}

/// The paddle after one tick of `direction` on a screen `screen_width` wide.
pub open spec fn moved_player(p: Player, direction: PlayerDirection, screen_width: int) -> Player {
    if direction == PlayerDirection::Idle {
        p
    } else {
        Player {
            rect: Rectangle {
                top_left: Point { x: moved_x(p.rect.top_left.x as int, direction, screen_width) as i32, y: p.rect.top_left.y },
                size: Size { width: PLAYER_WIDTH, height: PLAYER_HEIGHT },
            },
            direction: p.direction,
            lives: p.lives,
        }
    }
}

/// The paddle after the ticks of `directions`, in order.
pub open spec fn moved_through(p: Player, directions: Seq<PlayerDirection>, screen_width: int) -> Player
    decreases directions.len(),
{
    if directions.len() == 0 {
        p
    } else {
        moved_player(moved_through(p, directions.drop_last(), screen_width), directions.last(), screen_width)
    }
}

/// Whatever the inputs, a paddle that starts inside the screen stays inside
/// it after every tick: its left edge stays in `[0, screen_width - PLAYER_WIDTH]`.
pub proof fn lemma_paddle_stays_on_screen(p: Player, directions: Seq<PlayerDirection>, screen_width: int)
    requires
        PLAYER_WIDTH <= screen_width <= COORD_LIMIT,
        0 <= p.rect.top_left.x <= screen_width - PLAYER_WIDTH,
    ensures
        forall|k: int|
            0 <= k <= directions.len() ==> {
                let q = #[trigger] moved_through(p, directions.subrange(0, k), screen_width);
                0 <= q.rect.top_left.x <= screen_width - PLAYER_WIDTH
            },
    decreases directions.len(),
{
    if directions.len() > 0 {
        let init = directions.drop_last();
        lemma_paddle_stays_on_screen(p, init, screen_width);
        assert forall|k: int| 0 <= k <= directions.len() implies {
            let q = #[trigger] moved_through(p, directions.subrange(0, k), screen_width);
            0 <= q.rect.top_left.x <= screen_width - PLAYER_WIDTH
        } by {
            if k < directions.len() {
                assert(directions.subrange(0, k) =~= init.subrange(0, k));
            } else {
                assert(directions.subrange(0, k) =~= directions);
                assert(init.subrange(0, init.len() as int) =~= init);
                let before = moved_through(p, init.subrange(0, init.len() as int), screen_width);
                assert(0 <= before.rect.top_left.x <= screen_width - PLAYER_WIDTH);
                assert(moved_through(p, directions, screen_width) == moved_player(before, directions.last(), screen_width));
            }
        }
    } else {
        assert(directions.subrange(0, 0) =~= directions);
    }
}

impl Player {
    /// A paddle of `PLAYER_WIDTH` by `PLAYER_HEIGHT` with its top-left corner
    /// at `(x, y)`, standing still.
    pub fn new(x: i32, y: i32) -> (p: Player)
        ensures
            p.rect == (Rectangle {
                top_left: Point { x, y },
                size: Size { width: PLAYER_WIDTH, height: PLAYER_HEIGHT },
            }),
            p.direction == PlayerDirection::Idle,
            p.lives == PLAYER_LIVES,
    {
        Player {
            rect: Rectangle::new(Point::new(x, y), Size::new(PLAYER_WIDTH, PLAYER_HEIGHT)),
            direction: PlayerDirection::Idle,
            lives: PLAYER_LIVES,
        }
    }

    /// Moves the paddle one tick in `direction` on a screen `screen_width`
    /// wide. A paddle inside the screen stays inside it.
    pub fn update(&mut self, direction: PlayerDirection, screen_width: i32)
        requires
            -COORD_LIMIT <= old(self).rect.top_left.x <= COORD_LIMIT,
            0 <= screen_width <= COORD_LIMIT,
        ensures
            *final(self) == moved_player(*old(self), direction, screen_width as int),
            direction == PlayerDirection::Idle ==> *final(self) == *old(self),
            direction != PlayerDirection::Idle ==> final(self).rect == (Rectangle {
                top_left: Point {
                    x: moved_x(old(self).rect.top_left.x as int, direction, screen_width as int) as i32,
                    y: old(self).rect.top_left.y,
                },
                size: Size { width: PLAYER_WIDTH, height: PLAYER_HEIGHT },
            }),
            final(self).direction == old(self).direction,
            final(self).lives == old(self).lives,
            final(self).rect.top_left.y == old(self).rect.top_left.y,
            final(self).rect.top_left.x == moved_x(old(self).rect.top_left.x as int, direction, screen_width as int),
            PLAYER_WIDTH <= screen_width && 0 <= old(self).rect.top_left.x <= screen_width - PLAYER_WIDTH
                ==> 0 <= final(self).rect.top_left.x <= screen_width - PLAYER_WIDTH,
    {
        match direction {
            PlayerDirection::Idle => {},
            PlayerDirection::Left => {
                let stepped = self.rect.top_left.x - PLAYER_VELOCITY;
                let new_x = if stepped >= 0 { stepped } else { 0 };
                self.rect = Rectangle::new(Point::new(new_x, self.rect.top_left.y), Size::new(PLAYER_WIDTH, PLAYER_HEIGHT));
            },
            PlayerDirection::Right => {
                let right_edge = screen_width - PLAYER_WIDTH as i32;
                let stepped = self.rect.top_left.x + PLAYER_VELOCITY;
                let new_x = if stepped <= right_edge { stepped } else { right_edge };
                self.rect = Rectangle::new(Point::new(new_x, self.rect.top_left.y), Size::new(PLAYER_WIDTH, PLAYER_HEIGHT));
            },
        }
    }
}

} // verus!
