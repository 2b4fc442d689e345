//! The sliding fifteen puzzle: a four by four board of fifteen numbered tiles
//! and one empty cell, with the rules for shuffling it, sliding tiles into the
//! empty cell, counting the accepted moves and recognising the solved board.

pub mod tile;
pub mod board;
pub mod direction;
pub mod game;
pub mod puzzle;
pub mod random;
