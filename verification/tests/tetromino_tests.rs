use macroquad::color::Color;
use tetris::tetromino::{kind_color, Tetromino, TetrominoType, ALL_KINDS, SPAWN_X, SPAWN_Y};

#[test]
fn shapes_of_i_are_the_four_bars() {
    let table = Tetromino::shapes(TetrominoType::I);
    assert_eq!(table[0], [(0, 1), (1, 1), (2, 1), (3, 1)]);
    assert_eq!(table[1], [(2, 0), (2, 1), (2, 2), (2, 3)]);
    assert_eq!(table[2], [(0, 2), (1, 2), (2, 2), (3, 2)]);
    assert_eq!(table[3], [(1, 0), (1, 1), (1, 2), (1, 3)]);
}

#[test]
fn shapes_of_o_do_not_change_with_rotation() {
    let table = Tetromino::shapes(TetrominoType::O);
    for state in table.iter() {
        assert_eq!(*state, [(1, 0), (2, 0), (1, 1), (2, 1)]);
    }
}

#[test]
fn shapes_of_t_s_z_j_l_first_states() {
    assert_eq!(Tetromino::shapes(TetrominoType::T)[0], [(1, 0), (0, 1), (1, 1), (2, 1)]);
    assert_eq!(Tetromino::shapes(TetrominoType::S)[0], [(1, 0), (2, 0), (0, 1), (1, 1)]);
    assert_eq!(Tetromino::shapes(TetrominoType::Z)[0], [(0, 0), (1, 0), (1, 1), (2, 1)]);
    assert_eq!(Tetromino::shapes(TetrominoType::J)[0], [(0, 0), (0, 1), (1, 1), (2, 1)]);
    assert_eq!(Tetromino::shapes(TetrominoType::L)[0], [(2, 0), (0, 1), (1, 1), (2, 1)]);
}

#[test]
fn shapes_of_t_s_z_j_l_later_states() {
    assert_eq!(Tetromino::shapes(TetrominoType::T)[3], [(1, 0), (0, 1), (1, 1), (1, 2)]);
    assert_eq!(Tetromino::shapes(TetrominoType::S)[2], [(1, 1), (2, 1), (0, 2), (1, 2)]);
    assert_eq!(Tetromino::shapes(TetrominoType::Z)[1], [(2, 0), (1, 1), (2, 1), (1, 2)]);
    assert_eq!(Tetromino::shapes(TetrominoType::J)[2], [(0, 1), (1, 1), (2, 1), (2, 2)]);
    assert_eq!(Tetromino::shapes(TetrominoType::L)[3], [(0, 0), (1, 0), (1, 1), (1, 2)]);
}

#[test]
fn every_state_has_four_different_offsets_in_the_box() {
    for kind in ALL_KINDS.iter() {
        let table = Tetromino::shapes(*kind);
        for state in table.iter() {
            for i in 0..4 {
                assert!(0 <= state[i].0 && state[i].0 < 4);
                assert!(0 <= state[i].1 && state[i].1 < 4);
                for j in (i + 1)..4 {
                    assert_ne!(state[i], state[j]);
                }
            }
        }
    }
}

#[test]
fn blocks_are_the_offsets_moved_to_the_position() {
    let piece = Tetromino { kind: TetrominoType::T, rotation: 0, x: 3, y: 5 };
    assert_eq!(piece.blocks(), [(4, 5), (3, 6), (4, 6), (5, 6)]);
    let piece = Tetromino { kind: TetrominoType::I, rotation: 1, x: -2, y: 16 };
    assert_eq!(piece.blocks(), [(0, 16), (0, 17), (0, 18), (0, 19)]);
}

#[test]
fn blocks_take_the_rotation_modulo_four() {
    let turned = Tetromino { kind: TetrominoType::L, rotation: 6, x: 1, y: 1 };
    let plain = Tetromino { kind: TetrominoType::L, rotation: 2, x: 1, y: 1 };
    assert_eq!(turned.blocks(), plain.blocks());
    assert_eq!(plain.blocks(), [(1, 2), (2, 2), (3, 2), (1, 3)]);
}

#[test]
fn blocks_of_a_piece_at_the_end_of_the_number_range() {
    let piece = Tetromino { kind: TetrominoType::I, rotation: 0, x: i32::MAX, y: i32::MIN };
    let x = i32::MAX as i64;
    let y = i32::MIN as i64;
    assert_eq!(piece.blocks(), [(x, y + 1), (x + 1, y + 1), (x + 2, y + 1), (x + 3, y + 1)]);
}

#[test]
fn kind_colors_are_the_fixed_seven() {
    assert_eq!(kind_color(TetrominoType::I), Color::from_rgba(0, 255, 255, 255));
    assert_eq!(kind_color(TetrominoType::O), Color::from_rgba(255, 255, 0, 255));
    assert_eq!(kind_color(TetrominoType::T), Color::from_rgba(128, 0, 128, 255));
    assert_eq!(kind_color(TetrominoType::S), Color::from_rgba(0, 255, 0, 255));
    assert_eq!(kind_color(TetrominoType::Z), Color::from_rgba(255, 0, 0, 255));
    assert_eq!(kind_color(TetrominoType::J), Color::from_rgba(0, 0, 255, 255));
    assert_eq!(kind_color(TetrominoType::L), Color::from_rgba(255, 165, 0, 255));
}

#[test]
fn kind_colors_are_opaque_and_scaled_to_one() {
    assert_eq!(kind_color(TetrominoType::I), Color::new(0.0, 1.0, 1.0, 1.0));
    assert_eq!(kind_color(TetrominoType::O), Color::new(1.0, 1.0, 0.0, 1.0));
    assert_eq!(kind_color(TetrominoType::S), Color::new(0.0, 1.0, 0.0, 1.0));
    assert_eq!(kind_color(TetrominoType::Z), Color::new(1.0, 0.0, 0.0, 1.0));
    assert_eq!(kind_color(TetrominoType::J), Color::new(0.0, 0.0, 1.0, 1.0));
    let purple = kind_color(TetrominoType::T);
    assert_eq!(purple, Color::new(128.0 / 255.0, 0.0, 128.0 / 255.0, 1.0));
    let orange = kind_color(TetrominoType::L);
    assert_eq!(orange, Color::new(1.0, 165.0 / 255.0, 0.0, 1.0));
    for kind in ALL_KINDS.iter() {
        assert_eq!(kind_color(*kind).a, 1.0);
    }
}

#[test]
fn kind_colors_differ_from_each_other() {
    for (i, a) in ALL_KINDS.iter().enumerate() {
        for b in ALL_KINDS.iter().skip(i + 1) {
            assert_ne!(kind_color(*a), kind_color(*b));
        }
    }
}

#[test]
fn from_index_follows_the_order_of_all_kinds() {
    assert_eq!(TetrominoType::from_index(0), TetrominoType::I);
    assert_eq!(TetrominoType::from_index(1), TetrominoType::O);
    assert_eq!(TetrominoType::from_index(2), TetrominoType::T);
    assert_eq!(TetrominoType::from_index(3), TetrominoType::S);
    assert_eq!(TetrominoType::from_index(4), TetrominoType::Z);
    assert_eq!(TetrominoType::from_index(5), TetrominoType::J);
    assert_eq!(TetrominoType::from_index(6), TetrominoType::L);
}

#[test]
fn spawn_places_the_piece_at_the_top_middle() {
    assert_eq!(SPAWN_X, 3);
    assert_eq!(SPAWN_Y, 0);
    let piece = Tetromino::spawn(TetrominoType::Z);
    assert_eq!(piece, Tetromino { kind: TetrominoType::Z, rotation: 0, x: 3, y: 0 });
}

#[test]
fn new_random_spawns_some_kind() {
    let mut seen = [false; 7];
    for _ in 0..400 {
        let piece = Tetromino::new_random();
        assert_eq!(piece, Tetromino::spawn(piece.kind));
        let index = ALL_KINDS.iter().position(|k| *k == piece.kind).unwrap();
        seen[index] = true;
    }
    assert_eq!(seen, [true; 7]);
}
