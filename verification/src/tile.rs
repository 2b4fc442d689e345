//! The sixteen things a cell of the board can hold, and their labels.

use vstd::prelude::*;

verus! {

/// What one cell of the board holds: nothing, or one of the tiles 1 to 15.
#[derive(Clone, Copy, Debug, PartialEq, Eq, Structural)]
pub enum Tile {
    Empty,
    One,
    Two,
    Three,
    Four,
    Five,
    Six,
    Seven,
    Eight,
    Nine,
    Ten,
    Eleven,
    Twelve,
    Thirteen,
    Fourteen,
    Fifteen,
}

/// The character that writes the decimal digit `d`.
pub open spec fn digit_char(d: nat) -> char
    recommends
        d < 10,
{
    ('0' as nat + d) as char
}

impl Tile {
    /// The number printed on the tile; 0 stands for the empty cell.
    pub open spec fn number(self) -> nat {
        match self {
            Tile::Empty => 0,
            Tile::One => 1,
            Tile::Two => 2,
            Tile::Three => 3,
            Tile::Four => 4,
            Tile::Five => 5,
            Tile::Six => 6,
            Tile::Seven => 7,
            Tile::Eight => 8,
            Tile::Nine => 9,
            Tile::Ten => 10,
            Tile::Eleven => 11,
            Tile::Twelve => 12,
            Tile::Thirteen => 13,
            Tile::Fourteen => 14,
            Tile::Fifteen => 15,
        }
    }

    /// The two characters shown for the tile: two blanks for the empty cell,
    /// else the tile's number in decimal, with a leading zero below ten.
    pub open spec fn label(self) -> Seq<char> {
        if self == Tile::Empty {
            seq![' ', ' ']
        } else {
            seq![digit_char(self.number() / 10), digit_char(self.number() % 10)]
        }
    }

    /// The tile's label as a string.
    pub fn to_string(&self) -> (text: String)
        ensures
            text@ == self.label(),
    {
        proof {
            reveal_strlit("  ");
            reveal_strlit("01");
            reveal_strlit("02");
            reveal_strlit("03");
            reveal_strlit("04");
            reveal_strlit("05");
            reveal_strlit("06");
            reveal_strlit("07");
            reveal_strlit("08");
            reveal_strlit("09");
            reveal_strlit("10");
            reveal_strlit("11");
            reveal_strlit("12");
            reveal_strlit("13");
            reveal_strlit("14");
            reveal_strlit("15");
        }
        match self {
            Tile::Empty => "  ".to_string(),
            Tile::One => "01".to_string(),
            Tile::Two => "02".to_string(),
            Tile::Three => "03".to_string(),
            Tile::Four => "04".to_string(),
            Tile::Five => "05".to_string(),
            Tile::Six => "06".to_string(),
            Tile::Seven => "07".to_string(),
            Tile::Eight => "08".to_string(),
            Tile::Nine => "09".to_string(),
            Tile::Ten => "10".to_string(),
            Tile::Eleven => "11".to_string(),
            Tile::Twelve => "12".to_string(),
            Tile::Thirteen => "13".to_string(),
            Tile::Fourteen => "14".to_string(),
            Tile::Fifteen => "15".to_string(),
        }
    }
}

} // verus!
