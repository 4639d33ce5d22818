//! The game engine: the entities of a round, the per-tick update, and the
//! Menu / Playing / LevelCompleted / Dead state machine.

use crate::ball::{spawned, Ball, FIELD_LIMIT, SCREEN_LIMIT};
use crate::block::{Block, BLOCK_HEIGHT, BLOCK_LIVES, BLOCK_WIDTH};
use crate::bounded::{
    ball_at, ball_count, balls_held, block_at, block_count, blocks_held, empty_balls,
    empty_blocks, push_ball, push_block, retain_alive_blocks, retain_balls_on_screen, set_ball,
    set_block, MAX_BALLS, MAX_BLOCKS,
};
use crate::geometry::{overlaps, resolve_collison, resolved, Point, Rectangle, Size};
use crate::player::{moved_player, Player, PlayerDirection, PLAYER_HEIGHT, PLAYER_LIVES, PLAYER_WIDTH};
use vstd::prelude::*;

verus! {

/// Columns of the block grid.
pub const GRID_COLS: i32 = 6;

/// Rows of the block grid.
pub const GRID_ROWS: i32 = 5;

/// Blocks in a full grid.
pub const GRID_BLOCKS: usize = 30;

/// Gap between neighbouring blocks.
pub const GRID_PADDING: u32 = 1;

/// Points for each destroyed block.
pub const BLOCK_REWARD: u32 = 10;

/// Lives at the start of a round.
pub const START_LIVES: u8 = 3;

#[derive(Clone, Copy, Debug, PartialEq, Eq, Structural)]
pub enum GameState {
    Menu,
    Playing,
    LevelCompleted,
    Dead,
}

impl Default for GameState {
    fn default() -> (r: GameState)
        ensures
            r == GameState::Menu,
    {
        GameState::Menu
    }
}

/// One round: the paddle, the blocks, the balls, the score and the lives,
/// on a screen of `screen_width` by `screen_height`.
pub struct Game {
    pub state: GameState,
    pub score: u32,
    pub player_lives: u8,
    pub player: Player,
    pub blocks: heapless::Vec<Block, MAX_BLOCKS>,
    pub balls: heapless::Vec<Ball, MAX_BALLS>,
    pub screen_width: i32,
    pub screen_height: i32,
}

/// Block `i` of the full grid: row-major, `GRID_COLS` to a row, starting one
/// cell in from the top-left corner, one cell apart.
pub open spec fn grid_block(i: int) -> Block {
    Block {
        rect: Rectangle {
            top_left: Point {
                x: (1 + (i % GRID_COLS as int) * (BLOCK_WIDTH + GRID_PADDING)) as i32,
                y: (1 + (i / GRID_COLS as int) * (BLOCK_HEIGHT + GRID_PADDING)) as i32,
            },
            size: Size { width: BLOCK_WIDTH, height: BLOCK_HEIGHT },
        },
        lives: BLOCK_LIVES,
    }
}

/// The full block grid.
pub open spec fn grid() -> Seq<Block> {
    Seq::new(GRID_BLOCKS as nat, |i: int| grid_block(i))
}

/// A block of the grid's size, inside the grid's area, with no more lives
/// than a new one.
pub open spec fn block_ok(b: Block) -> bool {
    &&& b.rect.size == Size { width: BLOCK_WIDTH, height: BLOCK_HEIGHT }
    &&& 0 <= b.rect.top_left.x <= 200
    &&& 0 <= b.rect.top_left.y <= 200
    &&& 0 <= b.lives <= BLOCK_LIVES
}

/// Number of blocks still standing.
pub open spec fn alive_count(s: Seq<Block>) -> nat
    decreases s.len(),
{
    if s.len() == 0 {
        0
    } else {
        alive_count(s.drop_last()) + if s.last().alive() { 1nat } else { 0nat }
    }
}

/// The paddle of a new round: centred horizontally, resting on the bottom
/// edge.
pub open spec fn start_player(screen_width: int, screen_height: int) -> Player {
    Player {
        rect: Rectangle {
            top_left: Point {
                x: (screen_width / 2 - PLAYER_WIDTH / 2) as i32,
                y: (screen_height - PLAYER_HEIGHT) as i32,
            },
            size: Size { width: PLAYER_WIDTH, height: PLAYER_HEIGHT },
        },
        direction: PlayerDirection::Idle,
        lives: PLAYER_LIVES,
    }
}

/// The ball of a new round: at the center of the screen.
pub open spec fn start_balls(random: u32, screen_width: i32, screen_height: i32) -> Seq<Ball> {
    seq![spawned(Point { x: (screen_width / 2) as i32, y: (screen_height / 2) as i32 }, random, screen_width)]
}

/// Where a ball respawns: half a paddle right of the paddle's left edge, and
/// as far above the paddle as the paddle is above the bottom edge.
pub open spec fn respawn_point(player: Player, screen_height: int) -> Point {
    Point {
        x: (player.rect.top_left.x + PLAYER_WIDTH / 2) as i32,
        y: (player.rect.top_left.y + player.rect.top_left.y - screen_height) as i32,
    }
}

pub open spec fn screen_ok(screen_width: int, screen_height: int) -> bool {
    PLAYER_WIDTH <= screen_width <= SCREEN_LIMIT && PLAYER_HEIGHT <= screen_height <= SCREEN_LIMIT
}

/// A sequence whose blocks all stand counts each of them.
pub proof fn lemma_alive_count_all(s: Seq<Block>)
    requires
        forall|i: int| 0 <= i < s.len() ==> (#[trigger] s[i]).alive(),
    ensures
        alive_count(s) == s.len(),
    decreases s.len(),
{
    if s.len() > 0 {
        lemma_alive_count_all(s.drop_last());
    }
}

/// A sequence of destroyed blocks counts none.
pub proof fn lemma_alive_count_none(s: Seq<Block>)
    requires
        forall|i: int| 0 <= i < s.len() ==> !(#[trigger] s[i]).alive(),
    ensures
        alive_count(s) == 0,
    decreases s.len(),
{
    if s.len() > 0 {
        lemma_alive_count_none(s.drop_last());
    }
}

/// Replacing block `i` changes the count by what the two blocks count.
pub proof fn lemma_alive_count_update(s: Seq<Block>, i: int, b: Block)
    requires
        0 <= i < s.len(),
    ensures
        alive_count(s.update(i, b)) + (if s[i].alive() { 1int } else { 0int })
            == alive_count(s) + (if b.alive() { 1int } else { 0int }),
    decreases s.len(),
{
    let t = s.update(i, b);
    if i == s.len() - 1 {
        assert(t.drop_last() =~= s.drop_last());
    } else {
        assert(t.drop_last() =~= s.drop_last().update(i, b));
        lemma_alive_count_update(s.drop_last(), i, b);
    }
}

/// Keeping the standing blocks keeps exactly the counted ones, each of them
/// standing, and keeps blocks that were grid blocks grid blocks.
pub proof fn lemma_filter_alive(s: Seq<Block>)
    ensures
        ({
            let f = s.filter(|b: Block| b.alive());
            &&& f.len() == alive_count(s)
            &&& alive_count(f) == alive_count(s)
            &&& forall|j: int| 0 <= j < f.len() ==> (#[trigger] f[j]).alive()
            &&& (forall|i: int| 0 <= i < s.len() ==> block_ok(#[trigger] s[i]))
                ==> forall|j: int| 0 <= j < f.len() ==> block_ok(#[trigger] f[j])
        }),
    decreases s.len(),
{
    reveal(Seq::filter);
    let f = s.filter(|b: Block| b.alive());
    if s.len() > 0 {
        lemma_filter_alive(s.drop_last());
        let g = s.drop_last().filter(|b: Block| b.alive());
        if (forall|i: int| 0 <= i < s.len() ==> block_ok(#[trigger] s[i])) {
            assert forall|i: int| 0 <= i < s.drop_last().len() implies block_ok(#[trigger] s.drop_last()[i]) by {
                assert(s.drop_last()[i] == s[i]);
            }
            assert(block_ok(s.last()));
        }
    }
    lemma_alive_count_all(f);
}

/// A full-strength block brought down by two hits (lives 2, then 1, then 0)
/// lowers the standing count by exactly one, so a tick's score, which grows
/// by `BLOCK_REWARD` per block no longer standing, grows by exactly one
/// reward for it.
pub proof fn lemma_two_hits_one_reward(s: Seq<Block>, i: int)
    requires
        0 <= i < s.len(),
        s[i].lives == BLOCK_LIVES,
    ensures
        ({
            let once = s.update(i, Block { rect: s[i].rect, lives: 1 });
            let twice = once.update(i, Block { rect: s[i].rect, lives: 0 });
            &&& alive_count(once) == alive_count(s)
            &&& alive_count(twice) + 1 == alive_count(s)
        }),
{
    let once = s.update(i, Block { rect: s[i].rect, lives: 1 });
    lemma_alive_count_update(s, i, Block { rect: s[i].rect, lives: 1 });
    lemma_alive_count_update(once, i, Block { rect: s[i].rect, lives: 0 });
}

/// Once every block is destroyed, none is kept: the tick that sees it
/// completes the level.
pub proof fn lemma_all_destroyed_none_kept(s: Seq<Block>)
    requires
        forall|i: int| 0 <= i < s.len() ==> !(#[trigger] s[i]).alive(),
    ensures
        s.filter(|b: Block| b.alive()).len() == 0,
{
    lemma_filter_alive(s);
    lemma_alive_count_none(s);
}

/// The full grid: every block stands and lies in the grid's area.
pub proof fn lemma_grid_ok()
    ensures
        grid().len() == GRID_BLOCKS,
        forall|i: int| 0 <= i < grid().len() ==> block_ok(#[trigger] grid()[i]) && grid()[i].alive(),
        alive_count(grid()) == GRID_BLOCKS,
{
    assert forall|i: int| 0 <= i < grid().len() implies block_ok(#[trigger] grid()[i]) && grid()[i].alive() by {
        assert(0 <= i % 6 < 6 && 0 <= i / 6 < 5) by (nonlinear_arith)
            requires
                0 <= i < 30,
        ;
        assert(0 <= (i % 6) * 21 <= 105 && 0 <= (i / 6) * 4 <= 16) by (nonlinear_arith)
            requires
                0 <= i % 6 < 6,
                0 <= i / 6 < 5,
        ;
    }
    lemma_alive_count_all(grid());
}

/// Every ball is well formed on a screen `screen_width` wide.
pub open spec fn balls_ok(s: Seq<Ball>, screen_width: i32) -> bool {
    forall|i: int| 0 <= i < s.len() ==> (#[trigger] s[i]).wf() && s[i].screen_width == screen_width
}

/// Every block is a grid block.
pub open spec fn blocks_ok(s: Seq<Block>) -> bool {
    forall|i: int| 0 <= i < s.len() ==> block_ok(#[trigger] s[i])
}

/// A rectangle inside the playing field.
pub open spec fn in_field(r: Rectangle) -> bool {
    &&& r.fits()
    &&& -FIELD_LIMIT <= r.left()
    &&& r.right() <= FIELD_LIMIT
    &&& -FIELD_LIMIT <= r.top()
    &&& r.bottom() <= FIELD_LIMIT
}

/// The ball after it meets the paddle `paddle`: pushed out and bounced when
/// they overlap.
pub open spec fn meet_paddle(ball: Ball, paddle: Rectangle) -> Ball {
    if overlaps(ball.rect, paddle) {
        let (r, v) = resolved(ball.rect, ball.vel, paddle);
        Ball { rect: r, vel: v, screen_width: ball.screen_width }
    } else {
        ball
    }
}

/// The ball and the block after they meet: a standing block that the ball
/// overlaps pushes the ball out, bounces it, and loses a life.
pub open spec fn meet_block(ball: Ball, block: Block) -> (Ball, Block) {
    if block.alive() && overlaps(ball.rect, block.rect) {
        let (r, v) = resolved(ball.rect, ball.vel, block.rect);
        (Ball { rect: r, vel: v, screen_width: ball.screen_width }, Block { rect: block.rect, lives: (block.lives - 1) as i32 })
    } else {
        (ball, block)
    }
}

/// The ball and the blocks after the ball has met the first `j` blocks in
/// order.
pub open spec fn sweep(ball: Ball, blocks: Seq<Block>, j: int) -> (Ball, Seq<Block>)
    decreases j,
{
    if j <= 0 || j > blocks.len() {
        (ball, blocks)
    } else {
        let (b1, s1) = sweep(ball, blocks, j - 1);
        let (b2, k) = meet_block(b1, s1[j - 1]);
        (b2, s1.update(j - 1, k))
    }
}

/// The balls and the blocks after each of the first `i` balls in turn has
/// met the paddle and then every block.
pub open spec fn collide(balls: Seq<Ball>, paddle: Rectangle, blocks: Seq<Block>, i: int) -> (Seq<Ball>, Seq<Block>)
    decreases i,
{
    if i <= 0 || i > balls.len() {
        (balls, blocks)
    } else {
        let (bs, ks) = collide(balls, paddle, blocks, i - 1);
        let (b, ks2) = sweep(meet_paddle(bs[i - 1], paddle), ks, ks.len() as int);
        (bs.update(i - 1, b), ks2)
    }
}

/// A well-formed ball pushed out of a rectangle inside the playing field is
/// still well formed.
pub proof fn lemma_resolved_ball_ok(ball: Ball, r: Rectangle)
    requires
        ball.wf(),
        in_field(r),
        overlaps(ball.rect, r),
    ensures
        ({
            let (r2, v2) = resolved(ball.rect, ball.vel, r);
            (Ball { rect: r2, vel: v2, screen_width: ball.screen_width }).wf()
        }),
{
}

/// The balls whose top edge is above the bottom of a screen
/// `screen_height` tall.
pub open spec fn balls_kept(s: Seq<Ball>, screen_height: int) -> Seq<Ball> {
    s.filter(|b: Ball| b.on_screen(screen_height))
}

/// Every ball in play has just left the screen.
pub open spec fn all_balls_lost(s: Seq<Ball>, screen_height: int) -> bool {
    s.len() > 0 && balls_kept(s, screen_height).len() == 0
}

/// The lives after a lost ball: one fewer, floored at zero.
pub open spec fn lives_after_loss(lives: u8) -> u8 {
    if lives > 0 { (lives - 1) as u8 } else { 0 }
}

/// Keeping the balls of a one-ball sequence keeps it or empties it.
pub proof fn lemma_kept_single(s: Seq<Ball>, screen_height: int)
    requires
        s.len() == 1,
    ensures
        balls_kept(s, screen_height) == (if s[0].on_screen(screen_height) { s } else { Seq::<Ball>::empty() }),
{
    reveal_with_fuel(Seq::filter, 2);
    assert(s.drop_last() =~= Seq::<Ball>::empty());
    if s[0].on_screen(screen_height) {
        assert(Seq::<Ball>::empty().push(s[0]) =~= s);
    }
}

impl Game {
    pub open spec fn blocks_seq(&self) -> Seq<Block> {
        blocks_held(self.blocks)
    }

    pub open spec fn balls_seq(&self) -> Seq<Ball> {
        balls_held(self.balls)
    }

    /// The paddle is inside the screen on its bottom edge; the blocks are
    /// grid blocks, no more than a full grid; the score counts at most the
    /// blocks destroyed; exactly one ball is in play, on the screen; play
    /// stops once the lives are gone or the blocks are.
    pub open spec fn wf(&self) -> bool {
        &&& screen_ok(self.screen_width as int, self.screen_height as int)
        &&& self.player.rect.size == Size { width: PLAYER_WIDTH, height: PLAYER_HEIGHT }
        &&& 0 <= self.player.rect.top_left.x <= self.screen_width - PLAYER_WIDTH
        &&& self.player.rect.top_left.y == self.screen_height - PLAYER_HEIGHT
        &&& self.blocks_seq().len() <= GRID_BLOCKS
        &&& forall|i: int| 0 <= i < self.blocks_seq().len() ==> block_ok(#[trigger] self.blocks_seq()[i])
        &&& self.score + BLOCK_REWARD * alive_count(self.blocks_seq()) <= BLOCK_REWARD * GRID_BLOCKS
        &&& self.player_lives <= START_LIVES
        &&& self.balls_seq().len() == 1
        &&& forall|i: int|
            0 <= i < self.balls_seq().len() ==> {
                let b = #[trigger] self.balls_seq()[i];
                b.wf() && b.screen_width == self.screen_width && b.on_screen(self.screen_height as int)
            }
        &&& self.state == GameState::Playing ==> self.player_lives > 0 && self.blocks_seq().len() > 0
    }

    /// A game in the menu, with a full round set up on a screen of
    /// `screen_width` by `screen_height`; the ball's direction is drawn from
    /// `random`.
    pub fn new(screen_width: i32, screen_height: i32, random: u32) -> (g: Game)
        requires
            screen_ok(screen_width as int, screen_height as int),
        ensures
            g.wf(),
            g.state == GameState::Menu,
            g.score == 0,
            g.player_lives == START_LIVES,
            g.player == start_player(screen_width as int, screen_height as int),
            g.blocks_seq() == grid(),
            g.balls_seq() == start_balls(random, screen_width, screen_height),
            g.screen_width == screen_width,
            g.screen_height == screen_height,
    {
        let (player, blocks, balls) = Game::init_game_state(screen_width, screen_height, random);
        proof {
            lemma_grid_ok();
        }
        Game {
            state: GameState::Menu,
            score: 0,
            player_lives: START_LIVES,
            player,
            blocks,
            balls,
            screen_width,
            screen_height,
        }
    }

    fn init_game_state(screen_width: i32, screen_height: i32, random: u32) -> (r: (
        Player,
        heapless::Vec<Block, MAX_BLOCKS>,
        heapless::Vec<Ball, MAX_BALLS>,
    ))
        requires
            screen_ok(screen_width as int, screen_height as int),
        ensures
            r.0 == start_player(screen_width as int, screen_height as int),
            blocks_held(r.1) == grid(),
            balls_held(r.2) == start_balls(random, screen_width, screen_height),
    {
        (
            Game::spawn_player(screen_width, screen_height),
            Game::init_blocks(),
            Game::init_balls(random, screen_width, screen_height),
        )
    }

    /// Starts the round over: full lives, no score, the paddle centred, the
    /// full grid, and one ball at the center of the screen with its direction
    /// drawn from `random`. The state is left as it was.
    pub fn reset_game(&mut self, random: u32)
        requires
            old(self).wf(),
        ensures
            final(self).wf(),
            final(self).state == old(self).state,
            final(self).score == 0,
            final(self).player_lives == START_LIVES,
            final(self).player == start_player(old(self).screen_width as int, old(self).screen_height as int),
            final(self).blocks_seq() == grid(),
            final(self).balls_seq() == start_balls(random, old(self).screen_width, old(self).screen_height),
            final(self).screen_width == old(self).screen_width,
            final(self).screen_height == old(self).screen_height,
    {
        self.player_lives = START_LIVES;
        self.score = 0;
        let (player, blocks, balls) = Game::init_game_state(self.screen_width, self.screen_height, random);
        self.player = player;
        self.blocks = blocks;
        self.balls = balls;
        proof {
            lemma_grid_ok();
        }
    }

    /// Moves every ball one tick.
    fn move_balls(&mut self)
        requires
            balls_ok(old(self).balls_seq(), old(self).screen_width),
            forall|i: int| 0 <= i < old(self).balls_seq().len() ==> (#[trigger] old(self).balls_seq()[i]).rect.top_left.y <= FIELD_LIMIT,
        ensures
            final(self).balls_seq() == old(self).balls_seq().map_values(|b: Ball| b.advanced()),
            balls_ok(final(self).balls_seq(), final(self).screen_width),
            final(self).blocks == old(self).blocks,
            final(self).player == old(self).player,
            final(self).state == old(self).state,
            final(self).score == old(self).score,
            final(self).player_lives == old(self).player_lives,
            final(self).screen_width == old(self).screen_width,
            final(self).screen_height == old(self).screen_height,
    {
        let n = ball_count(&self.balls);
        let mut i: usize = 0;
        while i < n
            invariant
                0 <= i <= n,
                n == old(self).balls_seq().len(),
                self.balls_seq().len() == n,
                forall|k: int| 0 <= k < i ==> #[trigger] self.balls_seq()[k] == old(self).balls_seq()[k].advanced(),
                forall|k: int| i <= k < n ==> #[trigger] self.balls_seq()[k] == old(self).balls_seq()[k],
                balls_ok(self.balls_seq(), self.screen_width),
                forall|k: int| 0 <= k < n ==> (#[trigger] old(self).balls_seq()[k]).rect.top_left.y <= FIELD_LIMIT,
                balls_ok(old(self).balls_seq(), old(self).screen_width),
                self.blocks == old(self).blocks,
                self.player == old(self).player,
                self.state == old(self).state,
                self.score == old(self).score,
                self.player_lives == old(self).player_lives,
                self.screen_width == old(self).screen_width,
                self.screen_height == old(self).screen_height,
            decreases n - i,
        {
            let mut ball = ball_at(&self.balls, i);
            ball.update();
            set_ball(&mut self.balls, i, ball);
            i = i + 1;
        }
        proof {
            assert(self.balls_seq() =~= old(self).balls_seq().map_values(|b: Ball| b.advanced()));
        }
    }

    /// Each ball in turn meets the paddle and then every standing block; each
    /// block a ball hits loses a life, and each block destroyed so is worth
    /// `BLOCK_REWARD` points.
    fn collison_handle(&mut self)
        requires
            balls_ok(old(self).balls_seq(), old(self).screen_width),
            blocks_ok(old(self).blocks_seq()),
            in_field(old(self).player.rect),
            old(self).score + BLOCK_REWARD * alive_count(old(self).blocks_seq()) <= BLOCK_REWARD * GRID_BLOCKS,
        ensures
            ({
                let (bs, ks) = collide(
                    old(self).balls_seq(),
                    old(self).player.rect,
                    old(self).blocks_seq(),
                    old(self).balls_seq().len() as int,
                );
                &&& final(self).balls_seq() == bs
                &&& final(self).blocks_seq() == ks
                &&& final(self).score + BLOCK_REWARD * alive_count(ks) == old(self).score + BLOCK_REWARD * alive_count(old(self).blocks_seq())
            }),
            balls_ok(final(self).balls_seq(), final(self).screen_width),
            blocks_ok(final(self).blocks_seq()),
            final(self).balls_seq().len() == old(self).balls_seq().len(),
            final(self).blocks_seq().len() == old(self).blocks_seq().len(),
            final(self).player == old(self).player,
            final(self).state == old(self).state,
            final(self).player_lives == old(self).player_lives,
            final(self).screen_width == old(self).screen_width,
            final(self).screen_height == old(self).screen_height,
    {
        let n = ball_count(&self.balls);
        let nb = block_count(&self.blocks);
        let ghost balls0 = self.balls_seq();
        let ghost blocks0 = self.blocks_seq();
        let ghost score0 = self.score;
        let mut i: usize = 0;
        while i < n
            invariant
                0 <= i <= n,
                n == balls0.len(),
                nb == blocks0.len(),
                balls0 == old(self).balls_seq(),
                blocks0 == old(self).blocks_seq(),
                score0 == old(self).score,
                (self.balls_seq(), self.blocks_seq()) == collide(balls0, self.player.rect, blocks0, i as int),
                self.blocks_seq().len() == nb,
                self.balls_seq().len() == n,
                balls_ok(self.balls_seq(), self.screen_width),
                blocks_ok(self.blocks_seq()),
                in_field(self.player.rect),
                self.score + BLOCK_REWARD * alive_count(self.blocks_seq()) == score0 + BLOCK_REWARD * alive_count(blocks0),
                score0 + BLOCK_REWARD * alive_count(blocks0) <= BLOCK_REWARD * GRID_BLOCKS,
                self.player == old(self).player,
                self.state == old(self).state,
                self.player_lives == old(self).player_lives,
                self.screen_width == old(self).screen_width,
                self.screen_height == old(self).screen_height,
            decreases n - i,
        {
            let mut ball = ball_at(&self.balls, i);
            let ghost ball_in = ball;
            let hit_paddle = resolve_collison(&mut ball.rect, &mut ball.vel, &self.player.rect);
            proof {
                if hit_paddle {
                    lemma_resolved_ball_ok(ball_in, self.player.rect);
                }
            }
            let ghost ball1 = ball;
            let ghost blocks1 = self.blocks_seq();
            let ghost score1 = self.score;
            let ghost balls_i = self.balls_seq();
            assert(ball1 == meet_paddle(ball_in, self.player.rect));
            let mut j: usize = 0;
            while j < nb
                invariant
                    0 <= j <= nb,
                    nb == blocks1.len(),
                    (ball, self.blocks_seq()) == sweep(ball1, blocks1, j as int),
                    self.blocks_seq().len() == nb,
                    ball.wf(),
                    ball.screen_width == self.screen_width,
                    blocks_ok(self.blocks_seq()),
                    self.score + BLOCK_REWARD * alive_count(self.blocks_seq()) == score1 + BLOCK_REWARD * alive_count(blocks1),
                    score1 + BLOCK_REWARD * alive_count(blocks1) <= BLOCK_REWARD * GRID_BLOCKS,
                    self.balls_seq() == balls_i,
                    (balls_i, blocks1) == collide(balls0, self.player.rect, blocks0, i as int),
                    balls_ok(balls_i, self.screen_width),
                    balls_i.len() == n,
                    n == balls0.len(),
                    i < n,
                    in_field(self.player.rect),
                    score0 + BLOCK_REWARD * alive_count(blocks0) == score1 + BLOCK_REWARD * alive_count(blocks1),
                    self.player == old(self).player,
                    self.state == old(self).state,
                    self.player_lives == old(self).player_lives,
                    self.screen_width == old(self).screen_width,
                    self.screen_height == old(self).screen_height,
                decreases nb - j,
            {
                let mut block = block_at(&self.blocks, j);
                let ghost ball_before = ball;
                let ghost block_before = block;
                if block.is_alive() {
                    if resolve_collison(&mut ball.rect, &mut ball.vel, &block.rect) {
                        proof {
                            lemma_resolved_ball_ok(ball_before, block_before.rect);
                            lemma_alive_count_update(self.blocks_seq(), j as int, Block { rect: block.rect, lives: (block.lives - 1) as i32 });
                        }
                        block.lives = block.lives - 1;
                        if block.lives <= 0 {
                            self.score = self.score + BLOCK_REWARD;
                        }
                        set_block(&mut self.blocks, j, block);
                    }
                }
                j = j + 1;
            }
            set_ball(&mut self.balls, i, ball);
            proof {
                assert(self.balls_seq() == collide(balls0, self.player.rect, blocks0, (i + 1) as int).0);
            }
            i = i + 1;
        }
    }

    /// Drops the balls that have left through the bottom of the screen. When
    /// that leaves none, a life is lost (floored at zero), one ball respawns
    /// above the paddle with its direction drawn from `random`, and with no
    /// lives left the game is over.
    fn remove_balls(&mut self, random: u32)
        requires
            balls_ok(old(self).balls_seq(), old(self).screen_width),
            old(self).balls_seq().len() == 1,
            screen_ok(old(self).screen_width as int, old(self).screen_height as int),
            0 <= old(self).player.rect.top_left.x <= old(self).screen_width - PLAYER_WIDTH,
            old(self).player.rect.top_left.y == old(self).screen_height - PLAYER_HEIGHT,
        ensures
            all_balls_lost(old(self).balls_seq(), old(self).screen_height as int) ==> {
                &&& final(self).player_lives == lives_after_loss(old(self).player_lives)
                &&& final(self).balls_seq() == seq![spawned(
                    respawn_point(old(self).player, old(self).screen_height as int),
                    random,
                    old(self).screen_width,
                )]
                &&& final(self).state == if final(self).player_lives == 0 { GameState::Dead } else { old(self).state }
            },
            !all_balls_lost(old(self).balls_seq(), old(self).screen_height as int) ==> {
                &&& final(self).player_lives == old(self).player_lives
                &&& final(self).balls_seq() == balls_kept(old(self).balls_seq(), old(self).screen_height as int)
                &&& final(self).state == old(self).state
            },
            final(self).balls_seq().len() == 1,
            forall|i: int|
                0 <= i < final(self).balls_seq().len() ==> {
                    let b = #[trigger] final(self).balls_seq()[i];
                    b.wf() && b.screen_width == final(self).screen_width && b.on_screen(final(self).screen_height as int)
                },
            final(self).blocks == old(self).blocks,
            final(self).player == old(self).player,
            final(self).score == old(self).score,
            final(self).screen_width == old(self).screen_width,
            final(self).screen_height == old(self).screen_height,
    {
        let balls_len = ball_count(&self.balls);
        retain_balls_on_screen(&mut self.balls, self.screen_height);
        proof {
            lemma_kept_single(old(self).balls_seq(), self.screen_height as int);
        }
        let remaining = ball_count(&self.balls);
        if balls_len > remaining && remaining == 0 {
            self.player_lives = if self.player_lives > 0 { self.player_lives - 1 } else { 0 };
            let player_half: i32 = (PLAYER_WIDTH / 2) as i32;
            let ball_pos = Point::new(
                self.player.rect.top_left.x + player_half,
                self.player.rect.top_left.y + (self.player.rect.top_left.y - self.screen_height),
            );
            let pushed = push_ball(&mut self.balls, Ball::new(ball_pos, random, self.screen_width));
            proof {
                assert(pushed is Ok);
                assert(self.balls_seq() =~= seq![spawned(
                    respawn_point(old(self).player, old(self).screen_height as int),
                    random,
                    old(self).screen_width,
                )]);
            }
            if self.player_lives == 0 {
                self.state = GameState::Dead;
            }
        }
    }

    /// Whether this tick would act on a reset request: in every state but
    /// `Playing`. A request made while playing waits.
    pub fn listens_for_reset(&self) -> (r: bool)
        ensures
            r == (self.state != GameState::Playing),
    {
        match self.state {
            GameState::Playing => false,
            _ => true,
        }
    }

    /// One tick of play: the paddle moves in `direction`, every ball moves,
    /// then meets the paddle and the standing blocks; lost balls are dropped
    /// (a life lost and a ball respawned when none is left, its direction
    /// drawn from `random`), destroyed blocks are dropped, and the level is
    /// complete when none is left.
    fn play_tick(&mut self, direction: PlayerDirection, random: u32)
        requires
            old(self).wf(),
            old(self).state == GameState::Playing,
        ensures
            final(self).wf(),
            ({
                let sh = old(self).screen_height as int;
                let player = moved_player(old(self).player, direction, old(self).screen_width as int);
                let moved = old(self).balls_seq().map_values(|b: Ball| b.advanced());
                let (hit_balls, hit_blocks) = collide(moved, player.rect, old(self).blocks_seq(), moved.len() as int);
                let lost = all_balls_lost(hit_balls, sh);
                let kept_blocks = hit_blocks.filter(|b: Block| b.alive());
                &&& final(self).player == player
                &&& final(self).score == old(self).score + BLOCK_REWARD * (alive_count(old(self).blocks_seq()) - alive_count(hit_blocks))
                &&& final(self).blocks_seq() == kept_blocks
                &&& lost ==> final(self).player_lives == lives_after_loss(old(self).player_lives)
                    && final(self).balls_seq() == seq![spawned(respawn_point(player, sh), random, old(self).screen_width)]
                &&& !lost ==> final(self).player_lives == old(self).player_lives
                    && final(self).balls_seq() == balls_kept(hit_balls, sh)
                &&& final(self).state == if kept_blocks.len() == 0 {
                    GameState::LevelCompleted
                } else if lost && final(self).player_lives == 0 {
                    GameState::Dead
                } else {
                    GameState::Playing
                }
            }),
            final(self).screen_width == old(self).screen_width,
            final(self).screen_height == old(self).screen_height,
    {
        let ghost blocks0 = self.blocks_seq();
        self.player.update(direction, self.screen_width);
        self.move_balls();
        self.collison_handle();
        let ghost hit_blocks = self.blocks_seq();
        self.remove_balls(random);
        retain_alive_blocks(&mut self.blocks);
        proof {
            lemma_filter_alive(hit_blocks);
            hit_blocks.lemma_filter_len(|b: Block| b.alive());
        }
        if block_count(&self.blocks) == 0 {
            self.state = GameState::LevelCompleted;
        }
    }

    /// One tick of the game. `reset_requested` tells whether a reset request
    /// was taken for this tick; only the states that listen for one (see
    /// `listens_for_reset`) act on it. In the menu a request starts a new
    /// round, its ball's direction drawn from `random`; while playing the
    /// round advances one tick; after a win or a death a request returns to
    /// the menu.
    pub fn tick(&mut self, direction: PlayerDirection, reset_requested: bool, random: u32)
        requires
            old(self).wf(),
        ensures
            final(self).wf(),
            final(self).screen_width == old(self).screen_width,
            final(self).screen_height == old(self).screen_height,
            old(self).state == GameState::Menu && reset_requested ==> {
                &&& final(self).state == GameState::Playing
                &&& final(self).score == 0
                &&& final(self).player_lives == START_LIVES
                &&& final(self).player == start_player(old(self).screen_width as int, old(self).screen_height as int)
                &&& final(self).blocks_seq() == grid()
                &&& final(self).balls_seq() == start_balls(random, old(self).screen_width, old(self).screen_height)
            },
            old(self).state != GameState::Playing && !reset_requested ==> {
                &&& final(self).state == old(self).state
                &&& final(self).score == old(self).score
                &&& final(self).player_lives == old(self).player_lives
                &&& final(self).player == old(self).player
                &&& final(self).blocks == old(self).blocks
                &&& final(self).balls == old(self).balls
            },
            (old(self).state == GameState::LevelCompleted || old(self).state == GameState::Dead) && reset_requested ==> {
                &&& final(self).state == GameState::Menu
                &&& final(self).score == old(self).score
                &&& final(self).player_lives == old(self).player_lives
                &&& final(self).player == old(self).player
                &&& final(self).blocks == old(self).blocks
                &&& final(self).balls == old(self).balls
            },
            old(self).state == GameState::Playing ==> ({
                let sh = old(self).screen_height as int;
                let player = moved_player(old(self).player, direction, old(self).screen_width as int);
                let moved = old(self).balls_seq().map_values(|b: Ball| b.advanced());
                let (hit_balls, hit_blocks) = collide(moved, player.rect, old(self).blocks_seq(), moved.len() as int);
                let lost = all_balls_lost(hit_balls, sh);
                let kept_blocks = hit_blocks.filter(|b: Block| b.alive());
                &&& final(self).player == player
                &&& final(self).score == old(self).score + BLOCK_REWARD * (alive_count(old(self).blocks_seq()) - alive_count(hit_blocks))
                &&& final(self).blocks_seq() == kept_blocks
                &&& lost ==> final(self).player_lives == lives_after_loss(old(self).player_lives)
                    && final(self).balls_seq() == seq![spawned(respawn_point(player, sh), random, old(self).screen_width)]
                &&& !lost ==> final(self).player_lives == old(self).player_lives
                    && final(self).balls_seq() == balls_kept(hit_balls, sh)
                &&& final(self).state == if kept_blocks.len() == 0 {
                    GameState::LevelCompleted
                } else if lost && final(self).player_lives == 0 {
                    GameState::Dead
                } else {
                    GameState::Playing
                }
            }),
    {
        match self.state {
            GameState::Menu => {
                if reset_requested {
                    self.reset_game(random);
                    self.state = GameState::Playing;
                }
            },
            GameState::Playing => {
                self.play_tick(direction, random);
            },
            _ => {
                if reset_requested {
                    self.state = GameState::Menu;
                }
            },
        }
    }

    /// The paddle of a new round on a screen of `screen_width` by
    /// `screen_height`.
    pub fn spawn_player(screen_width: i32, screen_height: i32) -> (p: Player)
        requires
            screen_ok(screen_width as int, screen_height as int),
        ensures
            p == start_player(screen_width as int, screen_height as int),
    {
        Player::new(screen_width / 2 - PLAYER_WIDTH as i32 / 2, screen_height - PLAYER_HEIGHT as i32)
    }

    /// The full block grid.
    fn init_blocks() -> (v: heapless::Vec<Block, MAX_BLOCKS>)
        ensures
            blocks_held(v) == grid(),
    {
        let mut blocks = empty_blocks();
        let total_width: i32 = (BLOCK_WIDTH + GRID_PADDING) as i32;
        let total_height: i32 = (BLOCK_HEIGHT + GRID_PADDING) as i32;
        let mut i: i32 = 0;
        while i < GRID_COLS * GRID_ROWS
            invariant
                0 <= i <= GRID_COLS * GRID_ROWS,
                total_width == BLOCK_WIDTH + GRID_PADDING,
                total_height == BLOCK_HEIGHT + GRID_PADDING,
                blocks_held(blocks) == Seq::new(i as nat, |k: int| grid_block(k)),
            decreases GRID_COLS * GRID_ROWS - i,
        {
            let col = i % GRID_COLS;
            let row = i / GRID_COLS;
            assert(0 <= col < GRID_COLS && 0 <= row < GRID_ROWS) by (nonlinear_arith)
                requires
                    0 <= i < GRID_COLS * GRID_ROWS,
                    col == i % GRID_COLS,
                    row == i / GRID_COLS,
            ;
            assert(0 <= col * total_width <= 105 && 0 <= row * total_height <= 16) by (nonlinear_arith)
                requires
                    0 <= col < GRID_COLS,
                    0 <= row < GRID_ROWS,
                    total_width == 21,
                    total_height == 4,
            ;
            let block_x = col * total_width;
            let block_y = row * total_height;
            let pushed = push_block(&mut blocks, Block::new(Point::new(1 + block_x, 1 + block_y)));
            proof {
                assert(pushed is Ok);
                assert(blocks_held(blocks) =~= Seq::new((i + 1) as nat, |k: int| grid_block(k)));
            }
            i = i + 1;
        }
        proof {
            assert(blocks_held(blocks) =~= grid());
        }
        blocks
    }

    /// The ball of a new round, at the center of the screen, its direction
    /// drawn from `random`.
    pub fn init_balls(random: u32, screen_width: i32, screen_height: i32) -> (v: heapless::Vec<Ball, MAX_BALLS>)
        requires
            screen_ok(screen_width as int, screen_height as int),
        ensures
            balls_held(v) == start_balls(random, screen_width, screen_height),
    {
        let ball_pos = Point::new(screen_width / 2, screen_height / 2);
        let mut balls = empty_balls();
        let pushed = push_ball(&mut balls, Ball::new(ball_pos, random, screen_width));
        proof {
            assert(pushed is Ok);
            assert(balls_held(balls) =~= start_balls(random, screen_width, screen_height));
        }
        balls
    }
}

} // verus!
