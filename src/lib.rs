//! Rooms of a two-player 3x3 board game: the board engine, the room
//! registry, the move service and the decisions of the board publisher.

pub mod board;
pub mod error;
pub mod store;
pub mod stream;
