use tetris_core::{Color, PieceType, Rng, SevenGenerator, Tetrimino};

const ALL_TYPES: [PieceType; 7] = [
    PieceType::I,
    PieceType::O,
    PieceType::T,
    PieceType::S,
    PieceType::Z,
    PieceType::J,
    PieceType::L,
];

#[test]
fn colors_are_fixed_per_type() {
    assert_eq!(Tetrimino::color_of(PieceType::I), Color::Cyan);
    assert_eq!(Tetrimino::color_of(PieceType::O), Color::Yellow);
    assert_eq!(Tetrimino::color_of(PieceType::T), Color::Purple);
    assert_eq!(Tetrimino::color_of(PieceType::S), Color::Green);
    assert_eq!(Tetrimino::color_of(PieceType::Z), Color::Red);
    assert_eq!(Tetrimino::color_of(PieceType::J), Color::Blue);
    assert_eq!(Tetrimino::color_of(PieceType::L), Color::Orange);
}

#[test]
fn i_piece_masks_match_reference() {
    let m0 = Tetrimino::block_of(PieceType::I, 0);
    let occupied: Vec<usize> = (0..16).filter(|&i| m0[i]).collect();
    assert_eq!(occupied, vec![2, 6, 10, 14]);

    let m1 = Tetrimino::block_of(PieceType::I, 1);
    let occupied: Vec<usize> = (0..16).filter(|&i| m1[i]).collect();
    assert_eq!(occupied, vec![8, 9, 10, 11]);
}

#[test]
fn t_piece_masks_match_reference() {
    let m0 = Tetrimino::block_of(PieceType::T, 0);
    let occupied: Vec<usize> = (0..16).filter(|&i| m0[i]).collect();
    assert_eq!(occupied, vec![4, 5, 6, 9]);

    let m3 = Tetrimino::block_of(PieceType::T, 3);
    let occupied: Vec<usize> = (0..16).filter(|&i| m3[i]).collect();
    assert_eq!(occupied, vec![1, 5, 6, 9]);
}

#[test]
fn o_piece_mask_is_same_in_every_state() {
    let m0 = Tetrimino::block_of(PieceType::O, 0);
    for s in 1..4 {
        assert_eq!(Tetrimino::block_of(PieceType::O, s), m0);
    }
}

#[test]
fn every_mask_has_four_cells() {
    for &t in ALL_TYPES.iter() {
        for s in 0..4 {
            let m = Tetrimino::block_of(t, s);
            assert_eq!(m.len(), 16);
            assert_eq!(m.iter().filter(|&&b| b).count(), 4);
        }
    }
}

#[test]
fn rotation_cycles_through_four_states() {
    let p = Tetrimino::from(PieceType::L);
    assert_eq!(p.state, 0);
    let cw = p.rotate_clockwise();
    assert_eq!(cw.state, 3);
    assert_eq!(cw.ttype, PieceType::L);
    let back = cw.rotate_counter_clockwise();
    assert_eq!(back.state, 0);

    let mut q = Tetrimino::from(PieceType::S);
    for _ in 0..4 {
        q = q.rotate_counter_clockwise();
    }
    assert_eq!(q.state, 0);
}

#[test]
fn rng_next_below_respects_bound() {
    let mut rng = Rng::new(42);
    for n in 1..50u64 {
        for _ in 0..20 {
            assert!(rng.next_below(n) < n);
        }
    }
}

#[test]
fn rng_is_deterministic_per_seed() {
    let mut a = Rng::new(7);
    let mut b = Rng::new(7);
    for _ in 0..10 {
        assert_eq!(a.next_u64(), b.next_u64());
    }
}

#[test]
fn shuffle_keeps_every_element() {
    let mut rng = Rng::new(99);
    let mut v: Vec<PieceType> = ALL_TYPES.to_vec();
    tetris_core::shuffle(&mut v, &mut rng);
    assert_eq!(v.len(), 7);
    for &t in ALL_TYPES.iter() {
        assert_eq!(v.iter().filter(|&&x| x == t).count(), 1);
    }
}

#[test]
fn bag_yields_each_type_once_per_seven_draws() {
    for seed in 0..5u64 {
        let mut gen = SevenGenerator::new(seed);
        for _window in 0..4 {
            let mut draws: Vec<PieceType> = Vec::new();
            for _ in 0..7 {
                draws.push(gen.next());
            }
            for &t in ALL_TYPES.iter() {
                assert_eq!(
                    draws.iter().filter(|&&x| x == t).count(),
                    1,
                    "type missing or repeated within a bag window"
                );
            }
        }
    }
}

#[test]
fn bag_draws_are_deterministic_per_seed() {
    let mut a = SevenGenerator::new(11);
    let mut b = SevenGenerator::new(11);
    for _ in 0..21 {
        assert_eq!(a.next(), b.next());
    }
}
