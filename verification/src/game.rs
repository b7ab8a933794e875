//! The game itself: the board, the snakes and the engine that ticks them.

pub mod board;
pub mod clock;
pub mod engine;
pub mod snake;
