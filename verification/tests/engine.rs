use tetris_core::{Color, Game, PieceType};

const W: usize = 10;
const H: usize = 20;

fn type_of_color(c: Color) -> PieceType {
    match c {
        Color::Cyan => PieceType::I,
        Color::Yellow => PieceType::O,
        Color::Purple => PieceType::T,
        Color::Green => PieceType::S,
        Color::Red => PieceType::Z,
        Color::Blue => PieceType::J,
        Color::Orange => PieceType::L,
        Color::Empty => panic!("the active piece always has a piece color"),
    }
}

fn code_of_type(t: PieceType) -> u8 {
    match t {
        PieceType::I => 0,
        PieceType::O => 1,
        PieceType::T => 2,
        PieceType::S => 3,
        PieceType::Z => 4,
        PieceType::J => 5,
        PieceType::L => 6,
    }
}

fn non_empty_cells(g: &Game) -> Vec<(usize, Color)> {
    g.board()
        .iter()
        .enumerate()
        .filter(|(_, &c)| c != Color::Empty)
        .map(|(i, &c)| (i, c))
        .collect()
}

#[test]
fn new_game_starts_clean() {
    let g = Game::new(W, H, 1);
    assert_eq!(g.board().len(), W * H);
    assert!(g.board().iter().all(|&c| c == Color::Empty));
    assert_eq!(g.next_pieces().len(), 3);
    assert_eq!(g.score, 0);
    assert!(!g.is_lost());
    assert_eq!(g.get_held(), 0);
    assert_eq!(g.active_piece_coords_len(), 4);
    assert_eq!(g.ground_hint_coords_len(), 0);
}

#[test]
fn board_and_queue_invariants_hold_across_ticks() {
    let mut g = Game::new(W, H, 2);
    for k in 0..60u32 {
        if k % 3 == 0 {
            g.move_left();
        }
        if k % 5 == 0 {
            g.rotate_clockwise();
        }
        if k % 11 == 0 {
            g.drop();
        }
        g.update(250_000);
        assert_eq!(g.board().len(), W * H);
        assert_eq!(g.next_pieces().len(), 3);
        for &idx in g.active_piece_coords().iter() {
            assert!((idx as usize) < W * H);
        }
        for &idx in g.ground_hint_coords().iter() {
            assert!((idx as usize) < W * H);
        }
    }
}

#[test]
fn active_piece_never_rests_on_occupied_cells() {
    let mut g = Game::new(W, H, 3);
    for _ in 0..40u32 {
        g.move_right();
        g.update(500_000);
        if g.is_lost() {
            break;
        }
        for &idx in g.active_piece_coords().iter() {
            assert_eq!(g.board()[idx as usize], Color::Empty);
        }
    }
}

#[test]
fn gravity_needs_the_full_fall_threshold() {
    let mut g = Game::new(W, H, 4);
    let before = g.active_piece_coords().clone();
    g.update(499_999);
    assert_eq!(g.active_piece_coords(), &before, "below the threshold nothing falls");
    g.update(1);
    let after = g.active_piece_coords().clone();
    let shifted: Vec<u8> = before.iter().map(|&i| i + W as u8).collect();
    assert_eq!(after, shifted, "reaching the threshold falls exactly one row");
}

#[test]
fn left_and_right_in_one_tick_cancel() {
    let mut g = Game::new(W, H, 5);
    let before = g.active_piece_coords().clone();
    g.move_left();
    g.move_right();
    g.update(0);
    assert_eq!(g.active_piece_coords(), &before);
}

#[test]
fn repeated_intents_collapse_to_one() {
    let mut ga = Game::new(W, H, 6);
    let mut gb = Game::new(W, H, 6);
    ga.move_left();
    gb.move_left();
    gb.move_left();
    gb.move_left();
    ga.update(0);
    gb.update(0);
    assert_eq!(ga.active_piece_coords(), gb.active_piece_coords());
}

#[test]
fn hard_drop_locks_in_one_tick() {
    let mut g = Game::new(W, H, 7);
    let color = g.active_piece_color();
    let queue_head = g.next_pieces()[0];
    g.drop();
    g.update(0);
    let filled = non_empty_cells(&g);
    assert_eq!(filled.len(), 4, "the dropped piece fused into the board");
    assert!(filled.iter().all(|&(_, c)| c == color));
    assert!(filled.iter().all(|&(i, _)| i >= (H - 4) * W), "it fused near the floor");
    assert_eq!(g.active_piece_color(), tetris_core::Tetrimino::color_of(queue_head));
    assert_eq!(g.score, 0);
    assert!(!g.is_lost());
}

#[test]
fn piece_rests_one_tick_before_locking() {
    let mut g = Game::new(W, H, 8);
    let q0 = g.next_pieces().clone();
    let mut guard = 0;
    // While the piece still has room below, a tick moves it and never locks,
    // however large the elapsed time.
    while g.active_piece_coords() != g.ground_hint_coords() {
        g.update(5_000_000);
        guard += 1;
        assert!(guard < 50);
        assert_eq!(g.next_pieces(), &q0, "a tick that still moves the piece does not lock it");
    }
    let rest = g.active_piece_coords().clone();
    let color = g.active_piece_color();
    // The piece now rests on the floor; only the next tick locks it.
    g.update(500_000);
    assert_ne!(g.next_pieces(), &q0, "the second tick at rest fuses the piece");
    for &idx in rest.iter() {
        assert_eq!(g.board()[idx as usize], color, "it fused exactly where it rested");
    }
    assert_eq!(g.next_pieces()[0], q0[1]);
    assert_eq!(g.next_pieces()[1], q0[2]);
}

#[test]
fn single_full_row_clears_and_scores_ten() {
    let mut g = Game::new(W, H, 9);
    let color = g.active_piece_color();
    for col in 0..W {
        g.set_cell(5, col, Color::Orange);
    }
    g.drop();
    g.update(0);
    assert_eq!(g.score, 10, "one cleared row scores ten");
    for col in 0..W {
        assert_eq!(g.board()[col], Color::Empty, "the top row is empty after the shift");
    }
    for idx in 6 * W..H * W {
        assert_eq!(g.board()[idx], Color::Empty, "rows below the cleared one are untouched");
    }
    let filled = non_empty_cells(&g);
    assert_eq!(filled.len(), 4, "only the dropped piece remains");
    assert!(filled.iter().all(|&(_, c)| c == color));
    assert!(!g.is_lost());
}

#[test]
fn hold_twice_in_one_tick_acts_once() {
    let mut g = Game::new(W, H, 10);
    let first_type = type_of_color(g.active_piece_color());
    let queue_head = g.next_pieces()[0];
    g.hold();
    g.hold();
    g.update(0);
    assert_eq!(g.get_held(), code_of_type(first_type));
    assert_eq!(g.active_piece_color(), tetris_core::Tetrimino::color_of(queue_head));
}

#[test]
fn hold_stays_disabled_until_the_next_lock() {
    let mut g = Game::new(W, H, 11);
    let first_type = type_of_color(g.active_piece_color());
    g.hold();
    g.update(0);
    let held_after_first = g.get_held();
    let active_after_first = g.active_piece_color();
    assert_eq!(held_after_first, code_of_type(first_type));

    // A second hold before any lock is suppressed.
    g.hold();
    g.update(0);
    assert_eq!(g.get_held(), held_after_first);
    assert_eq!(g.active_piece_color(), active_after_first);

    // Lock the piece; holding becomes available again, and the next hold
    // swaps the originally held piece back in.
    g.drop();
    g.update(0);
    let respawned = type_of_color(g.active_piece_color());
    g.hold();
    g.update(0);
    assert_eq!(g.get_held(), code_of_type(respawned));
    assert_eq!(g.active_piece_color(), tetris_core::Tetrimino::color_of(first_type));
}

#[test]
fn spawning_onto_filled_cells_loses_and_freezes() {
    let mut g = Game::new(W, H, 12);
    // Occupy the whole spawn region without completing any row.
    for row in 0..6 {
        for col in 2..9 {
            g.set_cell(row, col, Color::Green);
        }
    }
    g.drop();
    g.update(0);
    assert!(g.is_lost(), "the next piece cannot spawn");
    assert_eq!(g.ground_hint_coords_len(), 0, "no ground preview once lost");

    let board = g.board().clone();
    let score = g.score;
    let coords = g.active_piece_coords().clone();
    let held = g.get_held();
    g.move_left();
    g.drop();
    g.hold();
    g.update(5_000_000);
    g.update(5_000_000);
    assert!(g.is_lost());
    assert_eq!(g.board(), &board, "a lost game ignores ticks");
    assert_eq!(g.score, score);
    assert_eq!(g.active_piece_coords(), &coords);
    assert_eq!(g.get_held(), held);
}

#[test]
fn restart_reinitializes_everything() {
    let mut g = Game::new(W, H, 13);
    g.hold();
    g.update(0);
    g.drop();
    g.update(0);
    for col in 0..W {
        g.set_cell(3, col, Color::Red);
    }
    g.restart_game();
    assert!(!g.is_lost());
    assert_eq!(g.score, 0);
    assert!(g.board().iter().all(|&c| c == Color::Empty));
    assert_eq!(g.next_pieces().len(), 3);
    assert_eq!(g.get_held(), 0);
    assert_eq!(g.active_piece_coords_len(), 4);
    assert_eq!(g.ground_hint_coords_len(), 0);
}

#[test]
fn set_cell_writes_one_cell() {
    let mut g = Game::new(W, H, 14);
    g.set_cell(7, 3, Color::Blue);
    assert_eq!(g.board()[7 * W + 3], Color::Blue);
    assert_eq!(
        g.board().iter().filter(|&&c| c != Color::Empty).count(),
        1
    );
}

#[test]
fn ground_hint_tracks_the_straight_drop() {
    let mut g = Game::new(W, H, 15);
    g.update(0);
    let hint = g.ground_hint_coords().clone();
    assert_eq!(hint.len(), 4);
    g.drop();
    g.update(0);
    let filled: Vec<u8> = non_empty_cells(&g).iter().map(|&(i, _)| i as u8).collect();
    let mut sorted_hint = hint.clone();
    sorted_hint.sort();
    let mut sorted_filled = filled.clone();
    sorted_filled.sort();
    assert_eq!(sorted_hint, sorted_filled, "the preview is where the piece lands");
}

#[test]
fn clockwise_wins_when_both_rotations_are_requested() {
    // A piece that actually changes shape when rotated at spawn: not O
    // (single shape) and not T (spawns a row high, so its first rotation
    // is rejected at the top edge).
    let seed = (0..50u64)
        .find(|&s| {
            let c = Game::new(W, H, s).active_piece_color();
            c != Color::Yellow && c != Color::Purple
        })
        .unwrap();

    let mut ga = Game::new(W, H, seed);
    ga.rotate_clockwise();
    ga.update(0);
    let mut gb = Game::new(W, H, seed);
    gb.rotate_clockwise();
    gb.rotate_counter_clockwise();
    gb.update(0);
    assert_eq!(
        ga.active_piece_coords(),
        gb.active_piece_coords(),
        "with both rotation intents set, clockwise wins"
    );

    let mut gc = Game::new(W, H, seed);
    let before = gc.active_piece_coords().clone();
    gc.rotate_clockwise();
    gc.update(0);
    assert_ne!(gc.active_piece_coords(), &before, "an accepted rotation moves cells");
}

#[test]
fn pieces_stack_on_each_other() {
    let mut g = Game::new(W, H, 16);
    g.drop();
    g.update(0);
    assert_eq!(non_empty_cells(&g).len(), 4);
    g.drop();
    g.update(0);
    assert_eq!(non_empty_cells(&g).len(), 8, "the second piece rests on or beside the first");
    assert_eq!(g.score, 0);
}
