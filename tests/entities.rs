use breakout::ball::{direction_from_random, Ball};
use breakout::block::Block;
use breakout::geometry::{Point, Rectangle, Size};
use breakout::joystick::direction_from_reading;
use breakout::player::{Player, PlayerDirection};

#[test]
fn random_direction_is_clamped_remainder() {
    assert_eq!(direction_from_random(0), -1);
    assert_eq!(direction_from_random(10), 0);
    assert_eq!(direction_from_random(11), 1);
    assert_eq!(direction_from_random(20), 1);
    assert_eq!(direction_from_random(21), -1);
    assert_eq!(direction_from_random(31), 0);
    assert_eq!(direction_from_random(u32::MAX), -1);
    assert_eq!(direction_from_random(0x8000_0000), -1);
    assert_eq!(direction_from_random(0x7fff_ffff), -1);
}

#[test]
fn new_ball_heads_down() {
    let b = Ball::new(Point::new(64, 32), 11, 128);
    assert_eq!(b.rect, Rectangle::new(Point::new(64, 32), Size::new(4, 4)));
    assert_eq!(b.vel, Point::new(1, 1));
    assert_eq!(b.screen_width, 128);
}

#[test]
fn ball_moves_by_twice_its_velocity() {
    let mut b = Ball::new(Point::new(10, 10), 11, 128);
    b.update();
    assert_eq!(b.rect.top_left, Point::new(12, 12));
    assert_eq!(b.vel, Point::new(1, 1));
}

#[test]
fn ball_bounces_off_left_edge() {
    let mut b = Ball::new(Point::new(1, 5), 0, 128);
    b.vel = Point::new(-1, -1);
    b.update();
    assert_eq!(b.rect.top_left, Point::new(-1, 3));
    assert_eq!(b.vel, Point::new(1, -1));
}

#[test]
fn ball_bounces_off_right_and_top_edges() {
    let mut b = Ball::new(Point::new(123, 0), 11, 128);
    b.vel = Point::new(1, -1);
    b.update();
    assert_eq!(b.rect.top_left, Point::new(125, -2));
    assert_eq!(b.vel, Point::new(-1, 1));
}

#[test]
fn ball_passes_bottom_edge() {
    let mut b = Ball::new(Point::new(10, 63), 10, 128);
    b.update();
    assert_eq!(b.rect.top_left, Point::new(10, 65));
    assert_eq!(b.vel, Point::new(0, 1));
    assert!(!b.is_on_screen(64));
}

#[test]
fn new_block_has_two_lives() {
    let b = Block::new(Point::new(1, 1));
    assert_eq!(b.rect, Rectangle::new(Point::new(1, 1), Size::new(20, 3)));
    assert_eq!(b.lives, 2);
    assert!(b.is_alive());
}

#[test]
fn paddle_moves_and_clamps() {
    let mut p = Player::new(44, 59);
    p.update(PlayerDirection::Left, 128);
    assert_eq!(p.rect.top_left, Point::new(39, 59));
    p.update(PlayerDirection::Idle, 128);
    assert_eq!(p.rect.top_left, Point::new(39, 59));
    p.update(PlayerDirection::Right, 128);
    assert_eq!(p.rect.top_left, Point::new(44, 59));
    assert_eq!(p.rect.size, Size::new(40, 5));
}

#[test]
fn paddle_floors_at_zero() {
    let mut p = Player::new(2, 59);
    p.update(PlayerDirection::Left, 128);
    assert_eq!(p.rect.top_left.x, 0);
    p.update(PlayerDirection::Left, 128);
    assert_eq!(p.rect.top_left.x, 0);
}

#[test]
fn paddle_caps_at_right_edge() {
    let mut p = Player::new(86, 59);
    p.update(PlayerDirection::Right, 128);
    assert_eq!(p.rect.top_left.x, 88);
    p.update(PlayerDirection::Right, 128);
    assert_eq!(p.rect.top_left.x, 88);
}

#[test]
fn paddle_stays_in_bounds_over_many_inputs() {
    let mut p = Player::new(44, 59);
    let inputs = [PlayerDirection::Left, PlayerDirection::Right, PlayerDirection::Idle];
    for k in 0..500usize {
        let d = inputs[(k * 7 + k / 13) % 3];
        p.update(d, 128);
        assert!(p.rect.top_left.x >= 0 && p.rect.top_left.x <= 88);
    }
}

#[test]
fn joystick_reading_maps_to_direction() {
    assert_eq!(direction_from_reading(4095), PlayerDirection::Left);
    assert_eq!(direction_from_reading(3001), PlayerDirection::Left);
    assert_eq!(direction_from_reading(3000), PlayerDirection::Idle);
    assert_eq!(direction_from_reading(1500), PlayerDirection::Idle);
    assert_eq!(direction_from_reading(1499), PlayerDirection::Right);
    assert_eq!(direction_from_reading(0), PlayerDirection::Right);
}
