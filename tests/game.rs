use breakout::game::{Game, GameState};
use breakout::geometry::{Point, Rectangle, Size};
use breakout::player::PlayerDirection;

fn playing_game() -> Game {
    let mut g = Game::new(128, 64, 11);
    g.tick(PlayerDirection::Idle, true, 11);
    assert_eq!(g.state, GameState::Playing);
    g
}

/// Puts the only ball at `(x, y)` moving by `vel`.
fn place_ball(g: &mut Game, x: i32, y: i32, vel: Point) {
    g.balls[0].rect.top_left = Point::new(x, y);
    g.balls[0].vel = vel;
}

#[test]
fn default_state_is_menu() {
    assert_eq!(GameState::default(), GameState::Menu);
}

#[test]
fn new_game_waits_in_menu_with_full_round() {
    let g = Game::new(128, 64, 11);
    assert_eq!(g.state, GameState::Menu);
    assert_eq!(g.score, 0);
    assert_eq!(g.player_lives, 3);
    assert_eq!(g.player.rect, Rectangle::new(Point::new(44, 59), Size::new(40, 5)));
    assert_eq!(g.blocks.len(), 30);
    assert_eq!(g.blocks[0].rect, Rectangle::new(Point::new(1, 1), Size::new(20, 3)));
    assert_eq!(g.blocks[7].rect.top_left, Point::new(22, 5));
    assert_eq!(g.blocks[29].rect.top_left, Point::new(106, 17));
    assert!(g.blocks.iter().all(|b| b.lives == 2));
    assert_eq!(g.balls.len(), 1);
    assert_eq!(g.balls[0].rect.top_left, Point::new(64, 32));
    assert_eq!(g.balls[0].vel, Point::new(1, 1));
}

#[test]
fn spawn_player_centres_paddle_on_bottom_edge() {
    let p = Game::spawn_player(128, 64);
    assert_eq!(p.rect.top_left, Point::new(44, 59));
}

#[test]
fn init_balls_places_one_ball_at_center() {
    let balls = Game::init_balls(0, 100, 50);
    assert_eq!(balls.len(), 1);
    assert_eq!(balls[0].rect.top_left, Point::new(50, 25));
    assert_eq!(balls[0].vel, Point::new(-1, 1));
}

#[test]
fn menu_waits_for_reset_request() {
    let mut g = Game::new(128, 64, 11);
    assert!(g.listens_for_reset());
    g.tick(PlayerDirection::Left, false, 11);
    assert_eq!(g.state, GameState::Menu);
    assert_eq!(g.player.rect.top_left, Point::new(44, 59));
    assert_eq!(g.balls[0].rect.top_left, Point::new(64, 32));
}

#[test]
fn reset_request_in_menu_starts_play() {
    let g = playing_game();
    assert!(!g.listens_for_reset());
    assert_eq!(g.player_lives, 3);
    assert_eq!(g.blocks.len(), 30);
    assert_eq!(g.balls.len(), 1);
}

#[test]
fn playing_tick_moves_paddle_and_ball() {
    let mut g = playing_game();
    g.tick(PlayerDirection::Right, false, 0);
    assert_eq!(g.player.rect.top_left, Point::new(49, 59));
    assert_eq!(g.balls[0].rect.top_left, Point::new(66, 34));
    assert_eq!(g.state, GameState::Playing);
}

#[test]
fn ball_bottom_exit_costs_one_life_and_respawns_one_ball() {
    let mut g = playing_game();
    place_ball(&mut g, 0, 63, Point::new(0, 1));
    g.tick(PlayerDirection::Idle, false, 11);
    assert_eq!(g.player_lives, 2);
    assert_eq!(g.balls.len(), 1);
    assert_eq!(g.balls[0].rect.top_left, Point::new(64, 54));
    assert_eq!(g.balls[0].vel, Point::new(1, 1));
    assert_eq!(g.state, GameState::Playing);
}

#[test]
fn ball_on_paddle_bounces_up() {
    let mut g = playing_game();
    // Falls onto the paddle (x 44..84, y 59..64).
    place_ball(&mut g, 60, 55, Point::new(0, 1));
    g.tick(PlayerDirection::Idle, false, 11);
    assert_eq!(g.balls[0].rect.top_left, Point::new(60, 55));
    assert_eq!(g.balls[0].vel, Point::new(0, -1));
    assert_eq!(g.player_lives, 3);
}

#[test]
fn losing_every_life_ends_in_death_then_menu_then_full_reset() {
    let mut g = playing_game();
    for lives_left in [2u8, 1, 0] {
        place_ball(&mut g, 0, 63, Point::new(0, 1));
        g.tick(PlayerDirection::Idle, false, 11);
        assert_eq!(g.player_lives, lives_left);
        assert_eq!(g.balls.len(), 1);
    }
    assert_eq!(g.state, GameState::Dead);
    assert!(g.listens_for_reset());
    g.tick(PlayerDirection::Idle, false, 11);
    assert_eq!(g.state, GameState::Dead);
    g.tick(PlayerDirection::Idle, true, 11);
    assert_eq!(g.state, GameState::Menu);
    assert_eq!(g.player_lives, 0);
    g.blocks[3].lives = 1;
    g.tick(PlayerDirection::Idle, true, 11);
    assert_eq!(g.state, GameState::Playing);
    assert_eq!(g.player_lives, 3);
    assert_eq!(g.score, 0);
    assert_eq!(g.blocks.len(), 30);
    assert!(g.blocks.iter().all(|b| b.lives == 2));
    assert_eq!(g.balls.len(), 1);
}

#[test]
fn destroying_all_blocks_completes_level() {
    let mut g = playing_game();
    for b in g.blocks.iter_mut() {
        b.lives = 0;
    }
    g.tick(PlayerDirection::Idle, false, 11);
    assert_eq!(g.state, GameState::LevelCompleted);
    assert!(g.blocks.is_empty());
    g.tick(PlayerDirection::Idle, true, 11);
    assert_eq!(g.state, GameState::Menu);
}

#[test]
fn level_completed_waits_for_reset_request() {
    let mut g = playing_game();
    for b in g.blocks.iter_mut() {
        b.lives = 0;
    }
    g.tick(PlayerDirection::Idle, false, 11);
    g.tick(PlayerDirection::Right, false, 11);
    assert_eq!(g.state, GameState::LevelCompleted);
    assert_eq!(g.player.rect.top_left, Point::new(44, 59));
}

#[test]
fn block_destroyed_by_two_hits_scores_ten() {
    let mut g = playing_game();
    place_ball(&mut g, 5, 2, Point::new(0, -1));
    g.tick(PlayerDirection::Idle, false, 11);
    assert_eq!(g.blocks[0].lives, 1);
    assert_eq!(g.score, 0);
    assert_eq!(g.blocks.len(), 30);
    g.tick(PlayerDirection::Idle, false, 11);
    assert_eq!(g.score, 10);
    assert_eq!(g.blocks.len(), 29);
    assert_eq!(g.blocks[0].rect.top_left, Point::new(22, 1));
}

#[test]
fn two_blocks_destroyed_in_one_tick_score_twenty() {
    let mut g = playing_game();
    g.blocks[0].lives = 1;
    g.blocks[1].lives = 1;
    place_ball(&mut g, 19, 2, Point::new(0, -1));
    g.tick(PlayerDirection::Idle, false, 11);
    assert_eq!(g.score, 20);
    assert_eq!(g.blocks.len(), 28);
    assert_eq!(g.blocks[0].rect.top_left, Point::new(43, 1));
}

#[test]
fn reset_request_while_playing_is_ignored() {
    let mut g = playing_game();
    g.tick(PlayerDirection::Idle, true, 11);
    assert_eq!(g.state, GameState::Playing);
    assert_eq!(g.balls[0].rect.top_left, Point::new(66, 34));
}

#[test]
fn reset_game_restores_round() {
    let mut g = playing_game();
    g.score = 30;
    g.player_lives = 1;
    g.blocks[0].lives = 0;
    g.reset_game(0);
    assert_eq!(g.score, 0);
    assert_eq!(g.player_lives, 3);
    assert_eq!(g.blocks.len(), 30);
    assert_eq!(g.blocks[0].lives, 2);
    assert_eq!(g.balls[0].vel, Point::new(-1, 1));
    assert_eq!(g.state, GameState::Playing);
}
