//! The puzzle itself: a board and a count of the accepted moves.

use vstd::prelude::*;
use crate::board::{border, cells_text, render, row_text, rows_text};
use crate::board::{destination, empty_index, exchange, is_board, solved_board};
use crate::board::{deal, lemma_all_present_is_board, lemma_deal_permutes};
use crate::board::{lemma_exchange_is_board, lemma_one_empty_cell, lemma_solved_is_board};
use crate::random::{random_usize, thread_rng};
use crate::direction::{key_direction, Direction};
pub use crate::tile::Tile;

verus! {

/// What a puzzle stands for: its board, and the number of moves accepted so
/// far.
pub struct Position {
    pub tiles: Seq<Tile>,
    pub moves: nat,
}

impl Position {
    /// The board is solved.
    pub open spec fn solved(self) -> bool {
        self.tiles == solved_board()
    }

    /// The position after the empty cell at `from` was sent to `to`: the two
    /// cells have changed places and the move is counted; with no place to
    /// go the move is rejected and nothing changes.
    pub open spec fn moved(self, from: int, to: Option<int>) -> Position {
        match to {
            Some(target) => Position {
                tiles: exchange(self.tiles, from, target),
                moves: self.moves + 1,
            },
            None => self,
        }
    }

    /// Whether a move in `direction` is accepted here.
    pub open spec fn accepts(self, direction: Direction) -> bool {
        destination(empty_index(self.tiles), direction).is_some()
    }

    /// The position after the player asked for `direction`.
    pub open spec fn slide(self, direction: Direction) -> Position {
        self.moved(empty_index(self.tiles), destination(empty_index(self.tiles), direction))
    }

    /// The position after the key `key` was pressed: a key that stands for a
    /// direction asks for a move, any other key changes nothing.
    pub open spec fn press(self, key: i32) -> Position {
        match key_direction(key) {
            Some(direction) => self.slide(direction),
            None => self,
        }
    }

    /// Whether the key `key` leads to an accepted move here: it stands for a
    /// direction, and a move in that direction is accepted.
    pub open spec fn accepts_key(self, key: i32) -> bool {
        match key_direction(key) {
            Some(direction) => self.accepts(direction),
            None => false,
        }
    }

    /// The position after the keys were pressed one after another.
    pub open spec fn press_all(self, keys: Seq<i32>) -> Position
        decreases keys.len(),
    {
        if keys.len() == 0 {
            self
        } else {
            self.press(keys[0]).press_all(keys.drop_first())
        }
    }

    /// How many of the keys, pressed one after another from here, lead to an
    /// accepted move.
    pub open spec fn accepted_moves(self, keys: Seq<i32>) -> nat
        decreases keys.len(),
    {
        if keys.len() == 0 {
            0
        } else {
            let first: nat = if self.accepts_key(keys[0]) {
                1
            } else {
                0
            };
            first + self.press(keys[0]).accepted_moves(keys.drop_first())
        }
    }
}

/// A move and then the move in the opposite direction lead back: where the
/// first is accepted the second is accepted too, the board is again what it
/// was, and two moves have been counted.
pub proof fn lemma_opposite_move_restores(position: Position, direction: Direction)
    requires
        is_board(position.tiles),
        position.accepts(direction),
    ensures
        position.slide(direction).accepts(direction.opposite()),
        position.slide(direction).slide(direction.opposite()) == (Position {
            tiles: position.tiles,
            moves: position.moves + 2,
        }),
{
    let from = empty_index(position.tiles);
    let to = destination(from, direction).unwrap();
    let there = position.slide(direction);
    lemma_one_empty_cell(position.tiles);
    lemma_exchange_is_board(position.tiles, from, to);
    lemma_one_empty_cell(there.tiles);
    assert(there.tiles[to] == Tile::Empty);
    assert(exchange(there.tiles, to, from) =~= position.tiles);
}

/// A move keeps a board a board, with the empty cell where the move sent it.
pub proof fn lemma_slide_keeps_board(position: Position, direction: Direction)
    requires
        is_board(position.tiles),
    ensures
        is_board(position.slide(direction).tiles),
        position.slide(direction).tiles.to_multiset() == position.tiles.to_multiset(),
        position.accepts(direction) ==> empty_index(position.slide(direction).tiles)
            == destination(empty_index(position.tiles), direction).unwrap(),
        !position.accepts(direction) ==> position.slide(direction) == position,
{
    lemma_one_empty_cell(position.tiles);
    match destination(empty_index(position.tiles), direction) {
        Some(target) => {
            lemma_exchange_is_board(position.tiles, empty_index(position.tiles), target);
            lemma_one_empty_cell(position.slide(direction).tiles);
            assert(position.slide(direction).tiles[target] == Tile::Empty);
        },
        None => {},
    }
}

/// A key that stands for no direction changes neither the board nor the
/// count of moves.
pub proof fn lemma_other_key_ignored(position: Position, key: i32)
    requires
        key_direction(key).is_none(),
    ensures
        position.press(key) == position,
{
}

/// On a board, a key changes the tiles exactly when it leads to an accepted
/// move, and the move is counted exactly then.
pub proof fn lemma_key_counts_when_accepted(position: Position, key: i32)
    requires
        is_board(position.tiles),
    ensures
        is_board(position.press(key).tiles),
        position.accepts_key(key) <==> position.press(key).tiles != position.tiles,
        position.press(key).moves == position.moves + if position.accepts_key(key) {
            1nat
        } else {
            0
        },
{
    lemma_one_empty_cell(position.tiles);
    match key_direction(key) {
        Some(direction) => {
            lemma_slide_keeps_board(position, direction);
            match destination(empty_index(position.tiles), direction) {
                Some(target) => {
                    assert(position.press(key).tiles[target] == Tile::Empty);
                    assert(position.tiles[target] != Tile::Empty);
                },
                None => {},
            }
        },
        None => {},
    }
}

/// After any run of keys the count of moves has grown by the number of keys
/// that led to an accepted move, and by nothing else. A board stays a board
/// throughout.
pub proof fn lemma_count_is_accepted_moves(position: Position, keys: Seq<i32>)
    ensures
        position.press_all(keys).moves == position.moves + position.accepted_moves(keys),
        is_board(position.tiles) ==> is_board(position.press_all(keys).tiles),
    decreases keys.len(),
{
    if keys.len() > 0 {
        lemma_count_is_accepted_moves(position.press(keys[0]), keys.drop_first());
        if is_board(position.tiles) {
            lemma_key_counts_when_accepted(position, keys[0]);
        }
    }
}

/// The solved board with two different cells exchanged, two neighbouring
/// ones in particular, is not solved.
pub proof fn lemma_exchange_unsolves(i: int, j: int, moves: nat)
    requires
        0 <= i < 16,
        0 <= j < 16,
        i != j,
    ensures
        !(Position { tiles: exchange(solved_board(), i, j), moves }).solved(),
{
    let s = solved_board();
    assert(exchange(s, i, j)[i] == s[j]);
    assert(s[j] != s[i]);
}

/// A fifteen puzzle.
pub struct Puzzle {
    pub tiles: Vec<Tile>,
    moves: u32,
}

impl View for Puzzle {
    type V = Position;

    closed spec fn view(&self) -> Position {
        Position { tiles: self.tiles@, moves: self.moves as nat }
    }
}

/// The tiles of the solved board.
fn solved_tiles() -> (tiles: Vec<Tile>)
    ensures
        tiles@ == solved_board(),
{
    let tiles = vec![
        Tile::One,
        Tile::Two,
        Tile::Three,
        Tile::Four,
        Tile::Five,
        Tile::Six,
        Tile::Seven,
        Tile::Eight,
        Tile::Nine,
        Tile::Ten,
        Tile::Eleven,
        Tile::Twelve,
        Tile::Thirteen,
        Tile::Fourteen,
        Tile::Fifteen,
        Tile::Empty,
    ];
    tiles
}

impl Puzzle {
    /// The tiles form a board: sixteen cells, each tile exactly once.
    pub open spec fn wf(&self) -> bool {
        is_board(self@.tiles)
    }

    /// A solved puzzle with no move made.
    pub fn new() -> (puzzle: Puzzle)
        ensures
            puzzle@ == (Position { tiles: solved_board(), moves: 0 }),
            puzzle@.solved(),
            puzzle.wf(),
    {
        proof {
            lemma_solved_is_board();
        }
        Self { tiles: solved_tiles(), moves: 0 }
    }

    /// Whether the board is the solved board.
    pub fn is_solved(&self) -> (solved: bool)
        ensures
            solved == self@.solved(),
    {
        let solved_puzzle = solved_tiles();
        if self.tiles.len() != solved_puzzle.len() {
            return false;
        }
        let mut i: usize = 0;
        while i < solved_puzzle.len()
            invariant
                i <= solved_puzzle.len(),
                solved_puzzle@ == solved_board(),
                self.tiles@.len() == solved_puzzle@.len(),
                forall|j: int| 0 <= j < i ==> self.tiles@[j] == solved_puzzle@[j],
            decreases solved_puzzle.len() - i,
        {
            if self.tiles[i] != solved_puzzle[i] {
                return false;
            }
            i += 1;
        }
        assert(self.tiles@ =~= solved_board());
        true
    }

    /// Puts the solved board back. The moves made so far stay counted.
    pub fn reset(&mut self)
        ensures
            final(self)@ == (Position { tiles: solved_board(), moves: old(self)@.moves }),
            final(self)@.solved(),
            final(self).wf(),
    {
        proof {
            lemma_solved_is_board();
        }
        self.tiles = solved_tiles();
    }

    /// Handles one key. A key that stands for a direction asks the empty
    /// cell to change places with its neighbour on that side; the move is
    /// counted unless the board's edge is in the way. Any other key is
    /// ignored.
    pub fn handle_input(&mut self, keypress: i32)
        requires
            old(self).wf(),
            old(self)@.press(keypress).moves == old(self)@.moves || old(self)@.moves < u32::MAX,
        ensures
            final(self)@ == old(self)@.press(keypress),
            final(self).wf(),
    {
        let empty_index = self.empty_position();

        if !Direction::is_direction(keypress) {
            return;
        }
        let direction = Direction::from(keypress);

        proof {
            lemma_slide_keeps_board(self@, direction);
        }
        match direction {
            Direction::Up => self.move_up(empty_index),
            Direction::Down => self.move_down(empty_index),
            Direction::Left => self.move_left(empty_index),
            Direction::Right => self.move_right(empty_index),
        }
    }

    /// Whether `keypress` would lead to an accepted move: it stands for a
    /// direction and the board's edge is not in the way.
    pub fn accepts_key(&self, keypress: i32) -> (accepted: bool)
        requires
            self.wf(),
        ensures
            accepted == self@.accepts_key(keypress),
    {
        if !Direction::is_direction(keypress) {
            return false;
        }
        let empty_index = self.empty_position();
        match Direction::from(keypress) {
            Direction::Up => empty_index >= 4,
            Direction::Down => empty_index < 12,
            Direction::Left => empty_index % 4 != 3,
            Direction::Right => empty_index % 4 != 0,
        }
    }

    /// The index of the empty cell.
    fn empty_position(&self) -> (index: usize)
        requires
            self.wf(),
        ensures
            index == empty_index(self@.tiles),
            index < 16,
    {
        proof {
            lemma_one_empty_cell(self.tiles@);
        }
        let mut i: usize = 0;
        while i < self.tiles.len()
            invariant
                i <= self.tiles@.len(),
                self.tiles@.len() == 16,
                0 <= empty_index(self.tiles@) < 16,
                self.tiles@[empty_index(self.tiles@)] == Tile::Empty,
                forall|j: int|
                    0 <= j < 16 && self.tiles@[j] == Tile::Empty ==> j == empty_index(self.tiles@),
                forall|j: int| 0 <= j < i ==> self.tiles@[j] != Tile::Empty,
            decreases self.tiles@.len() - i,
        {
            if self.tiles[i] == Tile::Empty {
                return i;
            }
            i += 1;
        }
        i
    }

    /// Exchanges the contents of two cells.
    fn swap_cells(&mut self, i: usize, j: usize)
        requires
            i < old(self)@.tiles.len(),
            j < old(self)@.tiles.len(),
        ensures
            final(self)@ == (Position {
                tiles: exchange(old(self)@.tiles, i as int, j as int),
                moves: old(self)@.moves,
            }),
    {
        let at_i = self.tiles[i];
        let at_j = self.tiles[j];
        self.tiles.set(i, at_j);
        self.tiles.set(j, at_i);
    }

    /// Sends the empty cell at `empty_index` one row up, unless it is in the
    /// first row.
    fn move_up(&mut self, empty_index: usize)
        requires
            old(self)@.tiles.len() == 16,
            empty_index < 16,
            old(self)@.moved(
                empty_index as int,
                destination(empty_index as int, Direction::Up),
            ).moves <= u32::MAX,
        ensures
            final(self)@ == old(self)@.moved(
                empty_index as int,
                destination(empty_index as int, Direction::Up),
            ),
    {
        match empty_index {
            0 | 1 | 2 | 3 => return,
            _ => {
                self.moves += 1;
                self.swap_cells(empty_index, empty_index - 4)
            },
        }
    }

    /// Sends the empty cell at `empty_index` one row down, unless it is in
    /// the last row.
    fn move_down(&mut self, empty_index: usize)
        requires
            old(self)@.tiles.len() == 16,
            empty_index < 16,
            old(self)@.moved(
                empty_index as int,
                destination(empty_index as int, Direction::Down),
            ).moves <= u32::MAX,
        ensures
            final(self)@ == old(self)@.moved(
                empty_index as int,
                destination(empty_index as int, Direction::Down),
            ),
    {
        match empty_index {
            12 | 13 | 14 | 15 => return,
            _ => {
                self.moves += 1;
                self.swap_cells(empty_index, empty_index + 4)
            },
        }
    }

    /// Sends the empty cell at `empty_index` to the next index, unless it is
    /// in the last column.
    fn move_left(&mut self, empty_index: usize)
        requires
            old(self)@.tiles.len() == 16,
            empty_index < 16,
            old(self)@.moved(
                empty_index as int,
                destination(empty_index as int, Direction::Left),
            ).moves <= u32::MAX,
        ensures
            final(self)@ == old(self)@.moved(
                empty_index as int,
                destination(empty_index as int, Direction::Left),
            ),
    {
        match empty_index {
            3 | 7 | 11 | 15 => return,
            _ => {
                self.moves += 1;
                self.swap_cells(empty_index, empty_index + 1)
            },
        }
    }

    /// Sends the empty cell at `empty_index` to the index before, unless it
    /// is in the first column.
    fn move_right(&mut self, empty_index: usize)
        requires
            old(self)@.tiles.len() == 16,
            empty_index < 16,
            old(self)@.moved(
                empty_index as int,
                destination(empty_index as int, Direction::Right),
            ).moves <= u32::MAX,
        ensures
            final(self)@ == old(self)@.moved(
                empty_index as int,
                destination(empty_index as int, Direction::Right),
            ),
    {
        match empty_index {
            0 | 4 | 8 | 12 => return,
            _ => {
                self.moves += 1;
                self.swap_cells(empty_index, empty_index - 1)
            },
        }
    }

    /// Shuffles the board: draws a random number for each tile and deals the
    /// tiles in the order the numbers pick. Every order can come out, also
    /// one from which the puzzle cannot be solved. The count of moves stays.
    pub fn shuffle(&mut self)
        ensures
            exists|draws: Seq<usize>|
                draws.len() == old(self)@.tiles.len() && final(self)@ == (Position {
                    tiles: #[trigger] deal(old(self)@.tiles, draws),
                    moves: old(self)@.moves,
                }),
            final(self)@.tiles.to_multiset() == old(self)@.tiles.to_multiset(),
            final(self)@.tiles.len() == old(self)@.tiles.len(),
            final(self)@.moves == old(self)@.moves,
            old(self).wf() ==> final(self).wf(),
            old(self).wf() ==> final(self)@.tiles.to_multiset().count(Tile::Empty) == 1,
    {
        let mut rng = thread_rng();

        let mut draws: Vec<usize> = Vec::new();
        while draws.len() < self.tiles.len()
            invariant
                *self == *old(self),
                draws@.len() <= self.tiles@.len(),
            decreases self.tiles@.len() - draws@.len(),
        {
            draws.push(random_usize(&mut rng));
        }
        self.shuffle_with(&draws);
        assert(self@.tiles == deal(old(self)@.tiles, draws@));
    }

    /// Deals the tiles anew in the order that `draws` picks: each draw, taken
    /// modulo the number of tiles not yet dealt, is the index among them of
    /// the tile that comes next. Tiles left when the draws run out keep their
    /// order. The count of moves stays.
    pub fn shuffle_with(&mut self, draws: &Vec<usize>)
        ensures
            final(self)@ == (Position {
                tiles: deal(old(self)@.tiles, draws@),
                moves: old(self)@.moves,
            }),
            final(self)@.tiles.to_multiset() == old(self)@.tiles.to_multiset(),
            final(self)@.tiles.len() == old(self)@.tiles.len(),
            old(self).wf() ==> final(self).wf(),
    {
        proof {
            lemma_deal_permutes(self.tiles@, draws@);
        }
        let mut old_tiles = self.tiles.clone();
        self.tiles = Vec::new();
        assert(draws@.skip(0) =~= draws@);

        let mut next: usize = 0;
        while next < draws.len() && !old_tiles.is_empty()
            invariant
                next <= draws@.len(),
                self.moves == old(self).moves,
                deal(old(self).tiles@, draws@) == self.tiles@ + deal(
                    old_tiles@,
                    draws@.skip(next as int),
                ),
            decreases old_tiles@.len(),
        {
            let index = draws[next] % old_tiles.len();
            let ghost pool = old_tiles@;
            let ghost dealt = self.tiles@;
            self.tiles.push(old_tiles.remove(index));
            next += 1;
            proof {
                let left = draws@.skip(next - 1);
                assert(left.drop_first() =~= draws@.skip(next as int));
                assert(self.tiles@ + deal(old_tiles@, draws@.skip(next as int)) =~= dealt + deal(
                    pool,
                    left,
                ));
            }
        }
        self.tiles.append(&mut old_tiles);
    }

    /// The picture of the board as text: a border, then each of the four
    /// rows with a border below it. A row is a bar and then, for each of its
    /// cells, a blank, the label, a blank and a bar, so that rows and borders
    /// are of one width.
    pub fn to_string(&self) -> (text: String)
        requires
            self@.tiles.len() == 16,
        ensures
            text@ == render(self@.tiles),
    {
        let mut result = String::new();
        result.append("\n+----+----+----+----+\n");
        let mut i: usize = 0;
        while i < 4
            invariant
                i <= 4,
                self.tiles@.len() == 16,
                result@ == border() + rows_text(self.tiles@, i as int),
            decreases 4 - i,
        {
            let ghost before = result@;
            result.append("|");
            let mut j: usize = 0;
            while j < 4
                invariant
                    i < 4,
                    j <= 4,
                    self.tiles@.len() == 16,
                    result@ == before + "|"@ + cells_text(self.tiles@, 4 * i, 4 * i + j),
                decreases 4 - j,
            {
                let index = i * 4 + j;
                result.append(" ");
                result.append(self.tiles[index].to_string().as_str());
                result.append(" |");
                j += 1;
                assert(result@ =~= before + "|"@ + cells_text(self.tiles@, 4 * i, 4 * i + j));
            }
            result.append("\n+----+----+----+----+\n");
            i += 1;
            assert(result@ =~= border() + rows_text(self.tiles@, i as int));
        }
        result
    }

    /// The number of moves accepted so far.
    pub fn get_moves(&self) -> (moves: u32)
        ensures
            moves == self@.moves,
    {
        self.moves
    }

    /// Whether the tiles form a board. The field is open to everyone, and
    /// the moves are defined on boards only.
    pub fn is_valid(&self) -> (valid: bool)
        ensures
            valid == self.wf(),
    {
        if self.tiles.len() != 16 {
            return false;
        }
        let every = solved_tiles();
        let mut k: usize = 0;
        while k < every.len()
            invariant
                k <= every@.len(),
                every@ == solved_board(),
                forall|m: int| 0 <= m < k ==> self.tiles@.contains(#[trigger] every@[m]),
            decreases every@.len() - k,
        {
            if !self.holds(every[k]) {
                proof {
                    broadcast use vstd::seq_lib::group_to_multiset_ensures;

                    assert(self.tiles@.to_multiset().count(every@[k as int]) == 0);
                }
                return false;
            }
            k += 1;
        }
        proof {
            assert forall|t: Tile| self.tiles@.contains(t) by {
                let m = if t == Tile::Empty {
                    15
                } else {
                    t.number() - 1
                };
                assert(every@[m] == t);
            }
            lemma_all_present_is_board(self.tiles@);
        }
        true
    }

    /// Whether some cell holds `tile`.
    fn holds(&self, tile: Tile) -> (found: bool)
        ensures
            found == self@.tiles.contains(tile),
    {
        let mut i: usize = 0;
        while i < self.tiles.len()
            invariant
                i <= self.tiles@.len(),
                forall|j: int| 0 <= j < i ==> self.tiles@[j] != tile,
            decreases self.tiles@.len() - i,
        {
            if self.tiles[i] == tile {
                return true;
            }
            i += 1;
        }
        false
    }
}

} // verus!
