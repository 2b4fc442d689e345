//! One turn of a game: what a key does to the puzzle, and whether the game
//! goes on after it.

use vstd::prelude::*;
use crate::puzzle::{Position, Puzzle};

verus! {

/// The key that ends the game: the small letter q.
pub const QUIT_KEY: i32 = 113;

/// How a game stands after a key.
#[derive(Clone, Copy, Debug, PartialEq, Eq, Structural)]
pub enum Turn {
    /// The game goes on.
    Continue,
    /// The key left the board solved: the player has won.
    Solved,
    /// The player gave up.
    Quit,
}

/// How the game stands after `key` has led to `after`.
pub open spec fn turn_of(key: i32, after: Position) -> Turn {
    if key == QUIT_KEY {
        Turn::Quit
    } else if after.solved() {
        Turn::Solved
    } else {
        Turn::Continue
    }
}

/// Plays one key. The quit key ends the game and leaves the puzzle as it is.
/// Every other key is handed to the puzzle, and the game is won if the board
/// is solved after it, whether or not the key moved a tile.
pub fn play_turn(puzzle: &mut Puzzle, key: i32) -> (turn: Turn)
    requires
        key != QUIT_KEY ==> old(puzzle).wf(),
        old(puzzle)@.press(key).moves == old(puzzle)@.moves || old(puzzle)@.moves < u32::MAX,
    ensures
        final(puzzle)@ == old(puzzle)@.press(key),
        turn == turn_of(key, final(puzzle)@),
        old(puzzle).wf() ==> final(puzzle).wf(),
{
    if key == QUIT_KEY {
        return Turn::Quit;
    }
    puzzle.handle_input(key);
    if puzzle.is_solved() {
        Turn::Solved
    } else {
        Turn::Continue
    }
}

} // verus!
