use tetris::field::PlayField;
use tetris::shapes::TetrominoType;

fn filled_count(f: &PlayField) -> usize {
    let mut n = 0;
    for y in 0..f.height() {
        for x in 0..f.width() {
            if f.occupied(x, y) {
                n += 1;
            }
        }
    }
    n
}

fn row_bits(f: &PlayField, y: usize) -> Vec<u8> {
    (0..f.width()).map(|x| if f.occupied(x, y) { 1 } else { 0 }).collect()
}

#[test]
fn new_field_is_empty() {
    let f = PlayField::new(8, 32);
    assert_eq!(f.width(), 8);
    assert_eq!(f.height(), 32);
    assert_eq!(filled_count(&f), 0);
    assert!(!f.occupied(8, 0));
    assert!(!f.occupied(0, 32));
}

#[test]
fn collision_with_walls_and_floor() {
    let f = PlayField::new(8, 32);
    // J in state 0 fills column 0 of its box.
    assert!(!f.test_collision(TetrominoType::J, 0, 0, 5));
    assert!(f.test_collision(TetrominoType::J, 0, -1, 5));
    // Its box is three wide: column 5 is the last anchor that fits.
    assert!(!f.test_collision(TetrominoType::J, 0, 5, 5));
    assert!(f.test_collision(TetrominoType::J, 0, 6, 5));
    // Its lowest filled row is row 1 of the box.
    assert!(!f.test_collision(TetrominoType::J, 0, 2, 30));
    assert!(f.test_collision(TetrominoType::J, 0, 2, 31));
    // An I in state 1 fills only column 2: anchors left of the wall fit.
    assert!(!f.test_collision(TetrominoType::I, 1, -2, 3));
    assert!(f.test_collision(TetrominoType::I, 1, -3, 3));
}

#[test]
fn cells_at_or_above_row_zero_never_collide() {
    let f = PlayField::new(8, 32);
    assert!(!f.test_collision(TetrominoType::T, 0, 2, -1));
    assert!(!f.test_collision(TetrominoType::I, 1, 2, -20));
}

#[test]
fn collision_with_filled_cells() {
    let mut f = PlayField::new(8, 32);
    f.lock(TetrominoType::I, 0, 0, 9); // fills row 10, columns 0 to 3
    assert!(f.occupied(0, 10) && f.occupied(3, 10) && !f.occupied(4, 10));
    assert!(f.test_collision(TetrominoType::O, 0, 0, 9));
    assert!(!f.test_collision(TetrominoType::O, 0, 0, 8));
    assert!(!f.test_collision(TetrominoType::O, 0, 3, 9));
}

#[test]
fn lock_skips_row_zero() {
    let mut f = PlayField::new(4, 4);
    // The I lands on row 0, which a lock never fills.
    f.lock(TetrominoType::I, 0, 0, -1);
    assert_eq!(filled_count(&f), 0);
    assert!(!f.test_collision(TetrominoType::I, 0, 0, -1));
}

#[test]
fn lock_keeps_only_cells_inside_the_field() {
    let mut f = PlayField::new(4, 4);
    f.lock(TetrominoType::O, 0, 2, 1);
    // O fills box columns 1 and 2 of rows 0 and 1: field column 3 of rows 1, 2.
    assert_eq!(row_bits(&f, 1), vec![0, 0, 0, 1]);
    assert_eq!(row_bits(&f, 2), vec![0, 0, 0, 1]);
    assert_eq!(filled_count(&f), 2);
    // Locking over filled cells keeps them filled.
    f.lock(TetrominoType::O, 0, 2, 1);
    assert_eq!(filled_count(&f), 2);
}

#[test]
fn clear_row_scenario_on_small_field() {
    let mut f = PlayField::new(4, 4);
    f.lock(TetrominoType::I, 0, -1, 1); // row 2, columns 0 to 2
    assert_eq!(row_bits(&f, 2), vec![1, 1, 1, 0]);
    f.lock(TetrominoType::O, 0, 2, 1); // column 3 of rows 1 and 2
    assert_eq!(row_bits(&f, 2), vec![1, 1, 1, 1]);
    assert!(f.is_row_full(2));
    f.clear_full_rows();
    assert_eq!(row_bits(&f, 0), vec![0, 0, 0, 0]);
    assert_eq!(row_bits(&f, 1), vec![0, 0, 0, 0]);
    assert_eq!(row_bits(&f, 2), vec![0, 0, 0, 1]);
    assert_eq!(row_bits(&f, 3), vec![0, 0, 0, 0]);
}

#[test]
fn clear_counts_removed_cells() {
    let mut f = PlayField::new(4, 6);
    f.lock(TetrominoType::I, 0, 0, 4); // row 5 full
    f.lock(TetrominoType::I, 0, 0, 3); // row 4 full
    f.lock(TetrominoType::T, 0, 0, 1); // row 1 column 1, row 2 columns 0 to 2
    let before = filled_count(&f);
    assert_eq!(before, 12);
    f.clear_full_rows();
    assert_eq!(filled_count(&f), before - 2 * 4);
    // The T moved down by two rows.
    assert_eq!(row_bits(&f, 3), vec![0, 1, 0, 0]);
    assert_eq!(row_bits(&f, 4), vec![1, 1, 1, 0]);
    assert_eq!(row_bits(&f, 5), vec![0, 0, 0, 0]);
}

#[test]
fn clear_without_full_rows_changes_nothing() {
    let mut f = PlayField::new(4, 4);
    f.lock(TetrominoType::T, 0, 0, 1);
    let before: Vec<Vec<u8>> = (0..4).map(|y| row_bits(&f, y)).collect();
    f.clear_full_rows();
    let after: Vec<Vec<u8>> = (0..4).map(|y| row_bits(&f, y)).collect();
    assert_eq!(before, after);
}

#[test]
fn full_row_check() {
    let mut f = PlayField::new(4, 4);
    assert!(!f.is_row_full(3));
    f.lock(TetrominoType::I, 0, 0, 2);
    assert!(f.is_row_full(3));
    assert!(!f.is_row_full(2));
}
