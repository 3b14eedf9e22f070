use tetris::shapes::{cell, TetrominoType};

const ALL: [TetrominoType; 7] = [
    TetrominoType::I,
    TetrominoType::T,
    TetrominoType::S,
    TetrominoType::Z,
    TetrominoType::O,
    TetrominoType::L,
    TetrominoType::J,
];

fn rows_of(kind: TetrominoType, rotation: usize) -> Vec<Vec<u8>> {
    (0..4)
        .map(|r| (0..4).map(|c| if cell(kind, rotation, r, c) { 1 } else { 0 }).collect())
        .collect()
}

#[test]
fn bounding_boxes_per_kind() {
    assert_eq!(TetrominoType::I.bounding_width(), 4);
    assert_eq!(TetrominoType::I.bounding_height(), 4);
    assert_eq!(TetrominoType::O.bounding_width(), 4);
    assert_eq!(TetrominoType::O.bounding_height(), 3);
    for k in [TetrominoType::J, TetrominoType::L, TetrominoType::S, TetrominoType::T, TetrominoType::Z] {
        assert_eq!(k.bounding_width(), 3);
        assert_eq!(k.bounding_height(), 3);
    }
}

#[test]
fn cells_outside_box_are_empty() {
    for k in ALL {
        for rot in 0..8 {
            for r in 0..8 {
                for c in 0..8 {
                    if r >= k.bounding_height() || c >= k.bounding_width() {
                        assert!(!cell(k, rot, r, c), "{:?} {} {} {}", k, rot, r, c);
                    }
                }
            }
        }
    }
}

#[test]
fn rotation_taken_modulo_four() {
    for k in ALL {
        for rot in 0..4 {
            assert_eq!(rows_of(k, rot), rows_of(k, rot + 4));
            assert_eq!(rows_of(k, rot), rows_of(k, rot + 400));
        }
    }
}

#[test]
fn stored_rotation_states() {
    assert_eq!(
        rows_of(TetrominoType::I, 0),
        vec![vec![0, 0, 0, 0], vec![1, 1, 1, 1], vec![0, 0, 0, 0], vec![0, 0, 0, 0]]
    );
    assert_eq!(
        rows_of(TetrominoType::I, 1),
        vec![vec![0, 0, 1, 0], vec![0, 0, 1, 0], vec![0, 0, 1, 0], vec![0, 0, 1, 0]]
    );
    assert_eq!(
        rows_of(TetrominoType::J, 3),
        vec![vec![0, 1, 0, 0], vec![0, 1, 0, 0], vec![1, 1, 0, 0], vec![0, 0, 0, 0]]
    );
    assert_eq!(
        rows_of(TetrominoType::L, 2),
        vec![vec![0, 0, 0, 0], vec![1, 1, 1, 0], vec![1, 0, 0, 0], vec![0, 0, 0, 0]]
    );
    assert_eq!(
        rows_of(TetrominoType::O, 2),
        vec![vec![0, 1, 1, 0], vec![0, 1, 1, 0], vec![0, 0, 0, 0], vec![0, 0, 0, 0]]
    );
    assert_eq!(
        rows_of(TetrominoType::S, 1),
        vec![vec![0, 1, 0, 0], vec![0, 1, 1, 0], vec![0, 0, 1, 0], vec![0, 0, 0, 0]]
    );
    assert_eq!(
        rows_of(TetrominoType::T, 0),
        vec![vec![0, 1, 0, 0], vec![1, 1, 1, 0], vec![0, 0, 0, 0], vec![0, 0, 0, 0]]
    );
    assert_eq!(
        rows_of(TetrominoType::Z, 3),
        vec![vec![0, 1, 0, 0], vec![1, 1, 0, 0], vec![1, 0, 0, 0], vec![0, 0, 0, 0]]
    );
}

#[test]
fn every_state_has_four_cells() {
    for k in ALL {
        for rot in 0..4 {
            let n: usize = rows_of(k, rot).iter().flatten().map(|&v| v as usize).sum();
            assert_eq!(n, 4);
        }
    }
}

#[test]
fn kind_from_index() {
    assert_eq!(TetrominoType::from(0), TetrominoType::I);
    assert_eq!(TetrominoType::from(1), TetrominoType::T);
    assert_eq!(TetrominoType::from(2), TetrominoType::S);
    assert_eq!(TetrominoType::from(3), TetrominoType::Z);
    assert_eq!(TetrominoType::from(4), TetrominoType::O);
    assert_eq!(TetrominoType::from(5), TetrominoType::L);
    assert_eq!(TetrominoType::from(6), TetrominoType::J);
    assert_eq!(TetrominoType::from(7), TetrominoType::I);
    assert_eq!(TetrominoType::from(-1), TetrominoType::I);
}
