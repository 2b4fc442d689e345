use fifteen_puzzle::direction::Direction;
use fifteen_puzzle::game::{play_turn, Turn, QUIT_KEY};
use fifteen_puzzle::puzzle::Puzzle;

#[test]
fn twelve_codes_are_directions() {
    let known: [i32; 12] = [258, 259, 260, 261, 72, 74, 75, 76, 104, 106, 107, 108];
    for code in -10..400i32 {
        assert_eq!(Direction::is_direction(code), known.contains(&code));
    }
    assert!(!Direction::is_direction(122));
    assert!(!Direction::is_direction(113));
    assert!(!Direction::is_direction(i32::MIN));
    assert!(!Direction::is_direction(i32::MAX));
}

#[test]
fn codes_map_to_their_directions() {
    for code in [259i32, 75, 107] {
        assert_eq!(Direction::from(code), Direction::Up);
    }
    for code in [258i32, 74, 106] {
        assert_eq!(Direction::from(code), Direction::Down);
    }
    for code in [260i32, 72, 104] {
        assert_eq!(Direction::from(code), Direction::Left);
    }
    for code in [261i32, 76, 108] {
        assert_eq!(Direction::from(code), Direction::Right);
    }
}

#[test]
fn quit_key_ends_the_game_and_leaves_the_puzzle() {
    assert_eq!(QUIT_KEY, 'q' as i32);
    let mut puzzle = Puzzle::new();
    puzzle.handle_input(259);
    let before = puzzle.tiles.clone();
    assert_eq!(play_turn(&mut puzzle, QUIT_KEY), Turn::Quit);
    assert_eq!(puzzle.tiles, before);
    assert_eq!(puzzle.get_moves(), 1);
    let mut solved = Puzzle::new();
    assert_eq!(play_turn(&mut solved, QUIT_KEY), Turn::Quit);
}

#[test]
fn turn_that_solves_the_board_wins() {
    let mut puzzle = Puzzle::new();
    assert_eq!(play_turn(&mut puzzle, 259), Turn::Continue);
    assert_eq!(puzzle.get_moves(), 1);
    assert_eq!(play_turn(&mut puzzle, 122), Turn::Continue);
    assert_eq!(puzzle.get_moves(), 1);
    assert_eq!(play_turn(&mut puzzle, 258), Turn::Solved);
    assert_eq!(puzzle.get_moves(), 2);
    assert!(puzzle.is_solved());
}

#[test]
fn any_key_but_quit_wins_on_a_solved_board() {
    let mut puzzle = Puzzle::new();
    assert_eq!(play_turn(&mut puzzle, 122), Turn::Solved);
    assert_eq!(puzzle.get_moves(), 0);
    assert_eq!(play_turn(&mut puzzle, 258), Turn::Solved);
    assert_eq!(puzzle.get_moves(), 0);
    assert_eq!(play_turn(&mut puzzle, 81), Turn::Solved);
}

#[test]
fn accepted_keys_are_those_that_move_a_tile() {
    let keys: [i32; 16] = [
        258, 259, 260, 261, 72, 74, 75, 76, 104, 106, 107, 108, 122, 113, 0, -1,
    ];
    let mut puzzle = Puzzle::new();
    for round in 0..40usize {
        for key in keys {
            let mut after = Puzzle::new();
            after.tiles = puzzle.tiles.clone();
            after.handle_input(key);
            assert_eq!(puzzle.accepts_key(key), after.tiles != puzzle.tiles);
            assert_eq!(puzzle.accepts_key(key), after.get_moves() == 1);
        }
        puzzle.handle_input(keys[(round * 7 + 3) % 12]);
    }
}

#[test]
fn solved_board_accepts_up_and_right_only() {
    let puzzle = Puzzle::new();
    assert!(puzzle.accepts_key(259));
    assert!(puzzle.accepts_key(261));
    assert!(!puzzle.accepts_key(258));
    assert!(!puzzle.accepts_key(260));
    assert!(!puzzle.accepts_key(122));
}
