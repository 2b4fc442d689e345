use fifteen_puzzle::puzzle::{Puzzle, Tile};

const UP: i32 = 259;
const DOWN: i32 = 258;
const LEFT: i32 = 260;
const RIGHT: i32 = 261;

fn solved() -> Vec<Tile> {
    vec![
        Tile::One,
        Tile::Two,
        Tile::Three,
        Tile::Four,
        Tile::Five,
        Tile::Six,
        Tile::Seven,
        Tile::Eight,
        Tile::Nine,
        Tile::Ten,
        Tile::Eleven,
        Tile::Twelve,
        Tile::Thirteen,
        Tile::Fourteen,
        Tile::Fifteen,
        Tile::Empty,
    ]
}

fn empty_first() -> Vec<Tile> {
    vec![
        Tile::Empty,
        Tile::One,
        Tile::Two,
        Tile::Three,
        Tile::Four,
        Tile::Five,
        Tile::Six,
        Tile::Seven,
        Tile::Eight,
        Tile::Nine,
        Tile::Ten,
        Tile::Eleven,
        Tile::Twelve,
        Tile::Thirteen,
        Tile::Fourteen,
        Tile::Fifteen,
    ]
}

fn with_empty_at(index: usize) -> Puzzle {
    let mut tiles = solved();
    tiles.swap(index, 15);
    let mut puzzle = Puzzle::new();
    puzzle.tiles = tiles;
    puzzle
}

fn empty_at(puzzle: &Puzzle) -> usize {
    puzzle.tiles.iter().position(|&tile| tile == Tile::Empty).unwrap()
}

#[test]
fn new_puzzle_is_solved_with_no_moves() {
    let puzzle = Puzzle::new();
    assert_eq!(puzzle.tiles, solved());
    assert!(puzzle.is_solved());
    assert!(puzzle.is_valid());
    assert_eq!(puzzle.get_moves(), 0);
}

#[test]
fn up_is_rejected_in_the_first_row() {
    let mut puzzle = Puzzle::new();
    puzzle.tiles = empty_first();
    puzzle.handle_input(UP);
    assert_eq!(puzzle.tiles, empty_first());
    assert_eq!(puzzle.get_moves(), 0);
}

#[test]
fn right_is_rejected_in_the_first_column() {
    let mut puzzle = Puzzle::new();
    puzzle.tiles = empty_first();
    puzzle.handle_input(RIGHT);
    assert_eq!(puzzle.tiles, empty_first());
    assert_eq!(puzzle.get_moves(), 0);
}

#[test]
fn down_from_the_first_cell_swaps_with_the_cell_below() {
    let mut puzzle = Puzzle::new();
    puzzle.tiles = empty_first();
    puzzle.handle_input(DOWN);
    let mut expected = empty_first();
    expected.swap(0, 4);
    assert_eq!(puzzle.tiles, expected);
    assert_eq!(puzzle.tiles[0], Tile::Four);
    assert_eq!(puzzle.tiles[4], Tile::Empty);
    assert_eq!(puzzle.get_moves(), 1);
}

#[test]
fn left_from_the_first_cell_swaps_with_the_next_cell() {
    let mut puzzle = Puzzle::new();
    puzzle.tiles = empty_first();
    puzzle.handle_input(LEFT);
    let mut expected = empty_first();
    expected.swap(0, 1);
    assert_eq!(puzzle.tiles, expected);
    assert_eq!(puzzle.get_moves(), 1);
}

#[test]
fn down_is_rejected_in_the_last_row() {
    for index in 12..16usize {
        let mut puzzle = with_empty_at(index);
        let before = puzzle.tiles.clone();
        puzzle.handle_input(DOWN);
        assert_eq!(puzzle.tiles, before);
        assert_eq!(puzzle.get_moves(), 0);
    }
}

#[test]
fn up_is_rejected_in_every_cell_of_the_first_row() {
    for index in 0..4usize {
        let mut puzzle = with_empty_at(index);
        let before = puzzle.tiles.clone();
        puzzle.handle_input(UP);
        assert_eq!(puzzle.tiles, before);
        assert_eq!(puzzle.get_moves(), 0);
    }
}

#[test]
fn left_is_rejected_in_the_last_column() {
    for row in 0..4usize {
        let mut puzzle = with_empty_at(4 * row + 3);
        let before = puzzle.tiles.clone();
        puzzle.handle_input(LEFT);
        assert_eq!(puzzle.tiles, before);
        assert_eq!(puzzle.get_moves(), 0);
    }
}

#[test]
fn right_is_rejected_in_every_cell_of_the_first_column() {
    for row in 0..4usize {
        let mut puzzle = with_empty_at(4 * row);
        let before = puzzle.tiles.clone();
        puzzle.handle_input(RIGHT);
        assert_eq!(puzzle.tiles, before);
        assert_eq!(puzzle.get_moves(), 0);
    }
}

#[test]
fn each_direction_moves_the_empty_cell_from_the_middle() {
    let cases: [(i32, usize); 4] = [(UP, 1), (DOWN, 9), (LEFT, 6), (RIGHT, 4)];
    for (key, target) in cases {
        let mut puzzle = with_empty_at(5);
        let mut expected = puzzle.tiles.clone();
        expected.swap(5, target);
        puzzle.handle_input(key);
        assert_eq!(puzzle.tiles, expected);
        assert_eq!(empty_at(&puzzle), target);
        assert_eq!(puzzle.get_moves(), 1);
    }
}

#[test]
fn letters_move_like_the_arrow_keys() {
    let cases: [(i32, i32); 8] = [
        (75, UP),
        (107, UP),
        (74, DOWN),
        (106, DOWN),
        (72, LEFT),
        (104, LEFT),
        (76, RIGHT),
        (108, RIGHT),
    ];
    for (letter, arrow) in cases {
        let mut by_letter = with_empty_at(5);
        let mut by_arrow = with_empty_at(5);
        by_letter.handle_input(letter);
        by_arrow.handle_input(arrow);
        assert_eq!(by_letter.tiles, by_arrow.tiles);
        assert_eq!(by_letter.get_moves(), 1);
    }
}

#[test]
fn a_move_and_its_opposite_restore_the_board() {
    let pairs: [(i32, i32); 4] = [(UP, DOWN), (DOWN, UP), (LEFT, RIGHT), (RIGHT, LEFT)];
    for (first, second) in pairs {
        for index in 0..16usize {
            let mut puzzle = with_empty_at(index);
            let before = puzzle.tiles.clone();
            puzzle.handle_input(first);
            if puzzle.get_moves() == 1 {
                assert_ne!(puzzle.tiles, before);
                puzzle.handle_input(second);
                assert_eq!(puzzle.tiles, before);
                assert_eq!(empty_at(&puzzle), index);
                assert_eq!(puzzle.get_moves(), 2);
            } else {
                assert_eq!(puzzle.tiles, before);
            }
        }
    }
}

#[test]
fn up_then_down_counts_two_moves() {
    let mut puzzle = Puzzle::new();
    puzzle.handle_input(UP);
    assert_eq!(empty_at(&puzzle), 11);
    assert_eq!(puzzle.get_moves(), 1);
    puzzle.handle_input(DOWN);
    assert_eq!(puzzle.tiles, solved());
    assert_eq!(puzzle.get_moves(), 2);
}

#[test]
fn solved_board_is_solved() {
    let mut puzzle = Puzzle::new();
    puzzle.tiles = solved();
    assert!(puzzle.is_solved());
}

#[test]
fn any_adjacent_transposition_is_not_solved() {
    for index in 0..15usize {
        let mut puzzle = Puzzle::new();
        puzzle.tiles.swap(index, index + 1);
        assert!(!puzzle.is_solved());
    }
    for index in 0..12usize {
        let mut puzzle = Puzzle::new();
        puzzle.tiles.swap(index, index + 4);
        assert!(!puzzle.is_solved());
    }
}

#[test]
fn a_board_of_another_length_is_not_solved() {
    let mut puzzle = Puzzle::new();
    puzzle.tiles.pop();
    assert!(!puzzle.is_solved());
    puzzle.tiles = Vec::new();
    assert!(!puzzle.is_solved());
}

#[test]
fn unrecognized_key_changes_nothing() {
    let mut puzzle = with_empty_at(5);
    let before = puzzle.tiles.clone();
    puzzle.handle_input(122);
    assert_eq!(puzzle.tiles, before);
    assert_eq!(puzzle.get_moves(), 0);
    for key in [0i32, -1, 113, 81, 257, 262, 73, 105, i32::MAX, i32::MIN] {
        puzzle.handle_input(key);
        assert_eq!(puzzle.tiles, before);
        assert_eq!(puzzle.get_moves(), 0);
    }
}

#[test]
fn rejected_moves_are_not_counted() {
    let mut puzzle = Puzzle::new();
    puzzle.handle_input(DOWN);
    puzzle.handle_input(LEFT);
    assert_eq!(puzzle.get_moves(), 0);
    puzzle.handle_input(UP);
    puzzle.handle_input(LEFT);
    assert_eq!(puzzle.get_moves(), 1);
    puzzle.handle_input(RIGHT);
    assert_eq!(puzzle.get_moves(), 2);
    assert_eq!(empty_at(&puzzle), 10);
}

#[test]
fn reset_restores_the_board_and_keeps_the_count() {
    let mut puzzle = Puzzle::new();
    puzzle.handle_input(UP);
    puzzle.handle_input(RIGHT);
    puzzle.handle_input(UP);
    assert_eq!(puzzle.get_moves(), 3);
    assert!(!puzzle.is_solved());
    puzzle.reset();
    assert_eq!(puzzle.tiles, solved());
    assert!(puzzle.is_solved());
    assert_eq!(puzzle.get_moves(), 3);
}

#[test]
fn scrambled_puzzle_is_solved_by_its_moves() {
    let mut puzzle = Puzzle::new();
    let draws: Vec<usize> = vec![0, 0, 0, 0, 0, 0, 0, 0, 0, 0, 5, 0, 1, 1, 1, 0];
    puzzle.shuffle_with(&draws);
    let mut scrambled = solved();
    scrambled.swap(15, 11);
    scrambled.swap(11, 10);
    assert_eq!(puzzle.tiles, scrambled);
    assert!(!puzzle.is_solved());
    assert_eq!(puzzle.get_moves(), 0);

    puzzle.handle_input(LEFT);
    assert!(!puzzle.is_solved());
    puzzle.handle_input(DOWN);
    assert!(puzzle.is_solved());
    assert_eq!(puzzle.get_moves(), 2);
}

#[test]
fn longer_scramble_is_solved_by_the_reverse_moves() {
    let mut puzzle = Puzzle::new();
    let scramble: [i32; 9] = [UP, UP, RIGHT, RIGHT, UP, LEFT, DOWN, RIGHT, RIGHT];
    for key in scramble {
        puzzle.handle_input(key);
    }
    assert_eq!(puzzle.get_moves(), 9);
    assert!(!puzzle.is_solved());
    assert_eq!(empty_at(&puzzle), 4);
    let undo: [i32; 9] = [LEFT, LEFT, UP, RIGHT, DOWN, LEFT, LEFT, DOWN, DOWN];
    for key in undo {
        assert!(!puzzle.is_solved());
        puzzle.handle_input(key);
    }
    assert!(puzzle.is_solved());
    assert_eq!(puzzle.get_moves(), 18);
}

#[test]
fn shuffled_puzzle_counts_only_accepted_moves() {
    let mut puzzle = Puzzle::new();
    puzzle.shuffle();
    assert_eq!(puzzle.get_moves(), 0);
    let keys: [i32; 8] = [UP, LEFT, DOWN, RIGHT, 122, UP, UP, LEFT];
    let mut accepted: u32 = 0;
    for key in keys {
        let before = puzzle.tiles.clone();
        puzzle.handle_input(key);
        if puzzle.tiles != before {
            accepted += 1;
        }
        assert_eq!(puzzle.get_moves(), accepted);
        assert!(puzzle.is_valid());
    }
}
