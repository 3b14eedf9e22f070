use tetris::generator::{draw_kinds, next_kind, NUM_TETROMINOES, SEED_STEP};
use tetris::shapes::TetrominoType;
use tetris::shapes::TetrominoType::{I, J, L, S, T, Z};

#[test]
fn first_draw_advances_state() {
    let mut seed = 3u64;
    let k = next_kind(&mut seed);
    // wyrng(3) is 0x03e9_9a77_2750_dcbe, which is 2 modulo 7.
    assert_eq!(0x03e9_9a77_2750_dcbeu64 % NUM_TETROMINOES, 2);
    assert_eq!(k, TetrominoType::S);
    assert_eq!(seed, 0xa076_1d64_78bd_6432);
    assert_eq!(seed, 3u64.wrapping_add(SEED_STEP));
}

#[test]
fn fixed_seed_sequence() {
    assert_eq!(draw_kinds(3, 12), vec![S, Z, Z, L, Z, Z, T, J, I, J, J, I]);
}

#[test]
fn sequence_is_reproducible() {
    let a = draw_kinds(3, 40);
    let b = draw_kinds(3, 40);
    assert_eq!(a, b);
    assert_eq!(draw_kinds(3, 5), a[..5].to_vec());
    let mut seed = 3u64;
    let one_by_one: Vec<TetrominoType> = (0..40).map(|_| next_kind(&mut seed)).collect();
    assert_eq!(one_by_one, a);
    assert!(draw_kinds(3, 0).is_empty());
}

#[test]
fn state_wraps_around() {
    let mut seed = u64::MAX;
    next_kind(&mut seed);
    assert_eq!(seed, SEED_STEP - 1);
}
