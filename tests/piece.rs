use tetris::field::PlayField;
use tetris::piece::Tetromino;
use tetris::shapes::TetrominoType;

#[test]
fn new_piece_starts_unrotated() {
    let t = Tetromino::new(TetrominoType::L, 4, 0);
    assert_eq!(t, Tetromino { x: 4, y: 0, typ: TetrominoType::L, rotation: 0 });
    assert_eq!(t.w(), 3);
    assert_eq!(t.h(), 3);
    assert_eq!(t.get_data(0, 2), 1);
    assert_eq!(t.get_data(0, 0), 0);
    assert_eq!(t.get_data(5, 5), 0);
}

#[test]
fn rotations_cancel() {
    let f = PlayField::new(8, 32);
    for r in 0..4 {
        let start = Tetromino { x: -7, y: 40, typ: TetrominoType::S, rotation: r };
        let mut t = start;
        t.rotate_left();
        t.rotate_right();
        assert_eq!(t, start);
        t.rotate_right();
        t.rotate_left();
        assert_eq!(t, start);
    }
    let mut t = Tetromino::new(TetrominoType::T, 0, 0);
    t.rotate_left();
    assert_eq!(t.rotation, 3);
    t.rotate_right();
    t.rotate_right();
    assert_eq!(t.rotation, 1);
    // Rotation is not checked against the field: this one ends up past the wall.
    let mut w = Tetromino { x: -2, y: 3, typ: TetrominoType::I, rotation: 1 };
    assert!(!f.test_collision(w.typ, w.rotation, w.x, w.y));
    w.rotate_right();
    assert_eq!(w.rotation, 2);
    assert!(f.test_collision(w.typ, w.rotation, w.x, w.y));
}

#[test]
fn moves_blocked_by_walls_are_no_ops() {
    let f = PlayField::new(8, 32);
    let mut t = Tetromino::new(TetrominoType::O, -1, 5);
    assert!(!t.can_move_left(&f));
    t.move_left(&f);
    assert_eq!(t.x, -1);
    t.move_right(&f);
    assert_eq!(t.x, 0);
    let mut r = Tetromino::new(TetrominoType::O, 5, 5);
    assert!(!r.can_move_right(&f));
    r.move_right(&f);
    assert_eq!(r, Tetromino::new(TetrominoType::O, 5, 5));
}

#[test]
fn moves_blocked_by_cells_are_no_ops() {
    let mut f = PlayField::new(8, 32);
    f.lock(TetrominoType::I, 1, 0, 10); // column 2, rows 10 to 13
    let mut t = Tetromino::new(TetrominoType::O, 2, 10); // columns 3 and 4
    t.move_left(&f);
    assert_eq!(t.x, 2);
    t.move_right(&f);
    assert_eq!(t.x, 3);
}

#[test]
fn moves_at_coordinate_limits() {
    let f = PlayField::new(8, 32);
    let mut t = Tetromino::new(TetrominoType::Z, i32::MIN, 0);
    t.move_left(&f);
    assert_eq!(t.x, i32::MIN);
    let mut u = Tetromino::new(TetrominoType::Z, i32::MAX, 0);
    u.move_right(&f);
    assert_eq!(u.x, i32::MAX);
    let mut d = Tetromino::new(TetrominoType::Z, 0, i32::MAX);
    assert!(!d.can_move_down(&f));
    d.move_down(&f);
    assert_eq!(d.y, i32::MAX);
}

#[test]
fn move_down_until_floor() {
    let f = PlayField::new(8, 32);
    let mut t = Tetromino::new(TetrominoType::I, 0, 0); // fills box row 1
    for _ in 0..100 {
        t.move_down(&f);
    }
    assert_eq!(t.y, 30);
}

#[test]
fn piece_cells_in_field_coordinates() {
    let t = Tetromino { x: 2, y: 7, typ: TetrominoType::T, rotation: 1 };
    let mut cells = t.cells();
    cells.sort();
    assert_eq!(cells, vec![(7, 3), (8, 3), (8, 4), (9, 3)]);
}
