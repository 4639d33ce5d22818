//! Simulation core of a breakout arcade game: geometry, entities, collision
//! resolution and the game state machine, with fixed-capacity collections.

pub mod ball;
pub mod block;
pub mod bounded;
pub mod game;
pub mod geometry;
pub mod joystick;
pub mod player;
