//! The fixed-capacity collections of blocks and balls, held in `heapless`
//! vectors. Their contents are named by spec functions, and each vector
//! method the game calls has a wrapper stating what it does to them.

use crate::ball::Ball;
use crate::block::Block;
use vstd::prelude::*;

verus! {

/// Most blocks a level can hold.
pub const MAX_BLOCKS: usize = 50;

/// Most balls in play at once.
pub const MAX_BALLS: usize = 5;

#[verifier::external_type_specification]
#[verifier::external_body]
#[verifier::reject_recursive_types(T)]
pub struct ExHeaplessVec<T, const N: usize>(heapless::Vec<T, N>);

/// The blocks held, in order.
pub uninterp spec fn blocks_held(v: heapless::Vec<Block, MAX_BLOCKS>) -> Seq<Block>;

/// The balls held, in order.
pub uninterp spec fn balls_held(v: heapless::Vec<Ball, MAX_BALLS>) -> Seq<Ball>;

/// Relies on heapless `Vec::new`: an empty vector.
#[verifier::external_body]
pub(crate) fn empty_blocks() -> (v: heapless::Vec<Block, MAX_BLOCKS>)
    ensures
        blocks_held(v) == Seq::<Block>::empty(),
{
    heapless::Vec::new()
}

/// Relies on heapless `Vec::push`: appends when below capacity, and hands
/// the item back otherwise.
#[verifier::external_body]
pub(crate) fn push_block(v: &mut heapless::Vec<Block, MAX_BLOCKS>, b: Block) -> (r: Result<(), Block>)
    ensures
        r is Ok <==> blocks_held(*old(v)).len() < MAX_BLOCKS,
        r is Ok ==> blocks_held(*final(v)) == blocks_held(*old(v)).push(b),
        r is Err ==> blocks_held(*final(v)) == blocks_held(*old(v)),
{
    v.push(b)
}

/// Relies on the slice a heapless `Vec` derefs to: its `len` is the number
/// of items held.
#[verifier::external_body]
pub(crate) fn block_count(v: &heapless::Vec<Block, MAX_BLOCKS>) -> (r: usize)
    ensures
        r == blocks_held(*v).len(),
{
    v.len()
}

/// Relies on indexing a heapless `Vec` through its slice: the item at `i`.
#[verifier::external_body]
pub(crate) fn block_at(v: &heapless::Vec<Block, MAX_BLOCKS>, i: usize) -> (r: Block)
    requires
        i < blocks_held(*v).len(),
    ensures
        r == blocks_held(*v)[i as int],
{
    v[i]
}

/// Relies on indexing a heapless `Vec` mutably through its slice: the item
/// at `i` is replaced.
#[verifier::external_body]
pub(crate) fn set_block(v: &mut heapless::Vec<Block, MAX_BLOCKS>, i: usize, b: Block)
    requires
        i < blocks_held(*old(v)).len(),
    ensures
        blocks_held(*final(v)) == blocks_held(*old(v)).update(i as int, b),
{
    v[i] = b;
}

/// Relies on heapless `Vec::retain`: keeps the blocks still standing, in
/// their order.
#[verifier::external_body]
pub(crate) fn retain_alive_blocks(v: &mut heapless::Vec<Block, MAX_BLOCKS>)
    ensures
        blocks_held(*final(v)) == blocks_held(*old(v)).filter(|b: Block| b.alive()),
{
    v.retain(|b| b.is_alive())
}

/// Relies on heapless `Vec::new`: an empty vector.
#[verifier::external_body]
pub(crate) fn empty_balls() -> (v: heapless::Vec<Ball, MAX_BALLS>)
    ensures
        balls_held(v) == Seq::<Ball>::empty(),
{
    heapless::Vec::new()
}

/// Relies on heapless `Vec::push`: appends when below capacity, and hands
/// the item back otherwise.
#[verifier::external_body]
pub(crate) fn push_ball(v: &mut heapless::Vec<Ball, MAX_BALLS>, b: Ball) -> (r: Result<(), Ball>)
    ensures
        r is Ok <==> balls_held(*old(v)).len() < MAX_BALLS,
        r is Ok ==> balls_held(*final(v)) == balls_held(*old(v)).push(b),
        r is Err ==> balls_held(*final(v)) == balls_held(*old(v)),
{
    v.push(b)
}

/// Relies on the slice a heapless `Vec` derefs to: its `len` is the number
/// of items held.
#[verifier::external_body]
pub(crate) fn ball_count(v: &heapless::Vec<Ball, MAX_BALLS>) -> (r: usize)
    ensures
        r == balls_held(*v).len(),
{
    v.len()
}

/// Relies on indexing a heapless `Vec` through its slice: the item at `i`.
#[verifier::external_body]
pub(crate) fn ball_at(v: &heapless::Vec<Ball, MAX_BALLS>, i: usize) -> (r: Ball)
    requires
        i < balls_held(*v).len(),
    ensures
        r == balls_held(*v)[i as int],
{
    v[i]
}

/// Relies on indexing a heapless `Vec` mutably through its slice: the item
/// at `i` is replaced.
#[verifier::external_body]
pub(crate) fn set_ball(v: &mut heapless::Vec<Ball, MAX_BALLS>, i: usize, b: Ball)
    requires
        i < balls_held(*old(v)).len(),
    ensures
        balls_held(*final(v)) == balls_held(*old(v)).update(i as int, b),
{
    v[i] = b;
}

/// Relies on heapless `Vec::retain`: keeps the balls whose top edge is above
/// `screen_height`, in their order.
#[verifier::external_body]
pub(crate) fn retain_balls_on_screen(v: &mut heapless::Vec<Ball, MAX_BALLS>, screen_height: i32)
    ensures
        balls_held(*final(v)) == balls_held(*old(v)).filter(|b: Ball| b.on_screen(screen_height as int)),
{
    v.retain(|b| b.is_on_screen(screen_height))
}

} // verus!
