//! A destructible block.

use crate::geometry::{Point, Rectangle, Size};
use vstd::prelude::*;

verus! {

pub const BLOCK_WIDTH: u32 = 20;

pub const BLOCK_HEIGHT: u32 = 3;

/// Hits a new block takes before it is destroyed.
pub const BLOCK_LIVES: i32 = 2;

#[derive(Clone, Copy, Debug, PartialEq, Eq, Structural)]
pub struct Block {
    pub rect: Rectangle,
    pub lives: i32,
}

impl Block {
    /// A full-strength block with its top-left corner at `point`.
    pub fn new(point: Point) -> (b: Block)
        ensures
            b.rect == (Rectangle { top_left: point, size: Size { width: BLOCK_WIDTH, height: BLOCK_HEIGHT } }),
            b.lives == BLOCK_LIVES,
    {
        Block { rect: Rectangle::new(point, Size::new(BLOCK_WIDTH, BLOCK_HEIGHT)), lives: BLOCK_LIVES }
    }

    pub open spec fn alive(self) -> bool {
        self.lives > 0
    }

    /// Whether the block still stands.
    pub fn is_alive(&self) -> (r: bool)
        ensures
            r == self.alive(),
    {
        self.lives > 0
    }
}

} // verus!
