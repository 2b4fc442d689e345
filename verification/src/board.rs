//! Boards as sequences of sixteen tiles, read row by row: which sequences are
//! boards, where the empty cell is, and what a move does to a board.

use vstd::prelude::*;
use crate::direction::Direction;
use crate::tile::Tile;

verus! {

/// The solved board: the tiles 1 to 15 in order, then the empty cell.
pub open spec fn solved_board() -> Seq<Tile> {
    seq![
        Tile::One,
        Tile::Two,
        Tile::Three,
        Tile::Four,
        Tile::Five,
        Tile::Six,
        Tile::Seven,
        Tile::Eight,
        Tile::Nine,
        Tile::Ten,
        Tile::Eleven,
        Tile::Twelve,
        Tile::Thirteen,
        Tile::Fourteen,
        Tile::Fifteen,
        Tile::Empty,
    ]
}

/// A board has sixteen cells and holds each of the sixteen tiles, the empty
/// one among them, exactly once.
pub open spec fn is_board(tiles: Seq<Tile>) -> bool {
    &&& tiles.len() == 16
    &&& forall|t: Tile| #[trigger] tiles.to_multiset().count(t) == 1
}

/// The index of the empty cell.
pub open spec fn empty_index(tiles: Seq<Tile>) -> int {
    choose|i: int| 0 <= i < tiles.len() && tiles[i] == Tile::Empty
}

/// The board with the contents of the cells `i` and `j` exchanged.
pub open spec fn exchange(tiles: Seq<Tile>, i: int, j: int) -> Seq<Tile> {
    tiles.update(i, tiles[j]).update(j, tiles[i])
}

/// Where the empty cell goes from index `empty` when the player asks for
/// `direction`, or `None` where the move would take it off the board: up is
/// one row towards index 0 and is refused in the first row, down is one row
/// the other way and is refused in the last row, left is the next index and
/// is refused in the last column, right is the index before and is refused
/// in the first column.
pub open spec fn destination(empty: int, direction: Direction) -> Option<int> {
    match direction {
        Direction::Up => if empty >= 4 {
            Some(empty - 4)
        } else {
            None
        },
        Direction::Down => if empty < 12 {
            Some(empty + 4)
        } else {
            None
        },
        Direction::Left => if empty % 4 != 3 {
            Some(empty + 1)
        } else {
            None
        },
        Direction::Right => if empty % 4 != 0 {
            Some(empty - 1)
        } else {
            None
        },
    }
}

/// The order in which the tiles of `pool` come out when they are drawn one
/// by one: each draw, taken modulo the number of tiles still in the pool,
/// picks the index of the next tile, which leaves the pool. When the draws run
/// out, the tiles still in the pool follow in the order they have there.
pub open spec fn deal(pool: Seq<Tile>, draws: Seq<usize>) -> Seq<Tile>
    decreases pool.len(),
{
    if pool.len() == 0 || draws.len() == 0 {
        pool
    } else {
        let picked = draws[0] as int % pool.len() as int;
        seq![pool[picked]] + deal(pool.remove(picked), draws.drop_first())
    }
}

/// The line that frames the rows of the picture. It starts on a new line.
pub open spec fn border() -> Seq<char> {
    "\n+----+----+----+----+\n"@
}

/// The text of the cells `from` up to `to`: for each a blank, its label, a
/// blank and the bar that closes the cell.
pub open spec fn cells_text(tiles: Seq<Tile>, from: int, to: int) -> Seq<char>
    decreases to - from,
{
    if to <= from {
        Seq::empty()
    } else {
        cells_text(tiles, from, to - 1) + " "@ + tiles[to - 1].label() + " |"@
    }
}

/// The text of one row: the opening bar, the four cells of the row, so that
/// the line ends with the bar of the last cell, and the border below it.
pub open spec fn row_text(tiles: Seq<Tile>, row: int) -> Seq<char> {
    "|"@ + cells_text(tiles, 4 * row, 4 * row + 4) + border()
}

/// The text of the first `rows` rows.
pub open spec fn rows_text(tiles: Seq<Tile>, rows: int) -> Seq<char>
    decreases rows,
{
    if rows <= 0 {
        Seq::empty()
    } else {
        rows_text(tiles, rows - 1) + row_text(tiles, rows - 1)
    }
}

/// The picture of a board: the top border, then the four rows.
pub open spec fn render(tiles: Seq<Tile>) -> Seq<char> {
    border() + rows_text(tiles, 4)
}

/// The picture is a grid of one width: the bar and the four cells of a row
/// take 21 characters, as many as the border has between its two line
/// breaks, so that the whole picture has 199.
pub proof fn lemma_picture_widths(tiles: Seq<Tile>)
    requires
        tiles.len() == 16,
    ensures
        border().len() == 23,
        border()[0] == '\n',
        border()[22] == '\n',
        forall|row: int|
            0 <= row < 4 ==> #[trigger] row_text(tiles, row).len() == 21 + border().len(),
        render(tiles).len() == 199,
{
    reveal_strlit("\n+----+----+----+----+\n");
    reveal_strlit("|");
    reveal_strlit(" ");
    reveal_strlit(" |");
    assert forall|from: int| 0 <= from <= 12 implies #[trigger] cells_text(tiles, from, from + 4).len()
        == 20 by {
        assert(cells_text(tiles, from, from).len() == 0);
        assert(cells_text(tiles, from, from + 1).len() == 5);
        assert(cells_text(tiles, from, from + 2).len() == 10);
        assert(cells_text(tiles, from, from + 3).len() == 15);
    }
    assert forall|row: int| 0 <= row < 4 implies #[trigger] row_text(tiles, row).len() == 21
        + border().len() by {
        assert(cells_text(tiles, 4 * row, 4 * row + 4).len() == 20);
    }
    assert(rows_text(tiles, 0).len() == 0);
    assert(rows_text(tiles, 1).len() == 44);
    assert(rows_text(tiles, 2).len() == 88);
    assert(rows_text(tiles, 3).len() == 132);
    assert(rows_text(tiles, 4).len() == 176);
}

/// The solved board is a board.
pub proof fn lemma_solved_is_board()
    ensures
        is_board(solved_board()),
{
    broadcast use vstd::seq_lib::group_to_multiset_ensures;

    let s = solved_board();
    s.lemma_multiset_has_no_duplicates();
    assert forall|t: Tile| #[trigger] s.to_multiset().count(t) == 1 by {
        let i = if t == Tile::Empty {
            15
        } else {
            t.number() - 1
        };
        assert(s[i] == t);
    }
}

/// A board has its empty cell at exactly one index.
pub proof fn lemma_one_empty_cell(tiles: Seq<Tile>)
    requires
        is_board(tiles),
    ensures
        0 <= empty_index(tiles) < 16,
        forall|i: int| 0 <= i < 16 ==> (tiles[i] == Tile::Empty <==> i == empty_index(tiles)),
{
    broadcast use vstd::seq_lib::group_to_multiset_ensures;

    assert(tiles.to_multiset().count(Tile::Empty) == 1);
    tiles.lemma_multiset_has_no_duplicates_conv();
}

/// Exchanging two cells of a board gives a board.
pub proof fn lemma_exchange_is_board(tiles: Seq<Tile>, i: int, j: int)
    requires
        is_board(tiles),
        0 <= i < 16,
        0 <= j < 16,
    ensures
        is_board(exchange(tiles, i, j)),
        exchange(tiles, i, j).to_multiset() == tiles.to_multiset(),
{
    let once = tiles.update(i, tiles[j]);
    vstd::seq_lib::to_multiset_update(tiles, i, tiles[j]);
    vstd::seq_lib::to_multiset_update(once, j, tiles[i]);
}

/// Sixteen cells in which every tile occurs form a board: no room is left
/// for any tile to occur twice.
pub proof fn lemma_all_present_is_board(tiles: Seq<Tile>)
    requires
        tiles.len() == 16,
        forall|t: Tile| tiles.contains(t),
    ensures
        is_board(tiles),
{
    broadcast use {vstd::seq_lib::group_to_multiset_ensures, vstd::multiset::group_multiset_axioms};

    lemma_solved_is_board();
    let here = tiles.to_multiset();
    let once = solved_board().to_multiset();
    assert forall|t: Tile| once.count(t) <= here.count(t) by {
        assert(tiles.contains(t));
    }
    let rest = here.sub(once);
    assert(rest.len() == 0);
    vstd::multiset::lemma_multiset_empty_len(rest);
    assert forall|t: Tile| #[trigger] here.count(t) == 1 by {
        assert(rest.count(t) == 0);
    }
}

/// Dealing only reorders: the tiles that come out are the tiles of the pool,
/// each as often as it was there.
pub proof fn lemma_deal_permutes(pool: Seq<Tile>, draws: Seq<usize>)
    ensures
        deal(pool, draws).len() == pool.len(),
        deal(pool, draws).to_multiset() == pool.to_multiset(),
        is_board(pool) ==> is_board(deal(pool, draws)),
    decreases pool.len(),
{
    broadcast use vstd::seq_lib::group_to_multiset_ensures;

    if pool.len() == 0 || draws.len() == 0 {
    } else {
        let picked = draws[0] as int % pool.len() as int;
        let rest = deal(pool.remove(picked), draws.drop_first());
        lemma_deal_permutes(pool.remove(picked), draws.drop_first());
        assert(seq![pool[picked]] + rest =~= rest.insert(0, pool[picked]));
    }
}

} // verus!
