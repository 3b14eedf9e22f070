//! The seeded piece generator: each draw takes one value from the wyhash
//! random number generator and reduces it modulo 7 to a piece kind.
use vstd::prelude::*;

use crate::shapes::{kind_of_index, TetrominoType};

verus! {

/// The number of piece kinds.
pub const NUM_TETROMINOES: u64 = 7;

/// The constant that the generator adds to its state on every draw.
pub const SEED_STEP: u64 = 0xa076_1d64_78bd_642f;

/// The value that `wyhash::wyrng` returns when called on the state `seed`.
pub uninterp spec fn wyrng_value(seed: u64) -> u64;

/// The generator state after one draw from `seed`.
pub open spec fn next_seed(seed: u64) -> u64 {
    ((seed as nat + SEED_STEP as nat) % 0x1_0000_0000_0000_0000) as u64
}

/// Relies on wyhash::wyrng: it adds `SEED_STEP` to the state, wrapping, and
/// returns a value that depends on the previous state alone.
#[verifier::external_body]
fn wyrng(seed: &mut u64) -> (r: u64)
    ensures
        r == wyrng_value(*old(seed)),
        *final(seed) == next_seed(*old(seed)),
{
    wyhash::wyrng(seed)
}

/// The kind that a drawn value selects.
pub open spec fn kind_of_draw(v: u64) -> TetrominoType {
    kind_of_index((v % NUM_TETROMINOES) as int)
}

/// The kinds of the first `n` draws from the state `seed`, in order.
pub open spec fn kind_sequence(seed: u64, n: nat) -> Seq<TetrominoType>
    decreases n,
{
    if n == 0 {
        Seq::empty()
    } else {
        seq![kind_of_draw(wyrng_value(seed))] + kind_sequence(next_seed(seed), (n - 1) as nat)
    }
}

/// Draws the next piece kind and advances the state.
pub fn next_kind(seed: &mut u64) -> (r: TetrominoType)
    ensures
        r == kind_of_draw(wyrng_value(*old(seed))),
        *final(seed) == next_seed(*old(seed)),
{
    let v = wyrng(seed);
    TetrominoType::from((v % NUM_TETROMINOES) as i32)
}

/// The kinds of the first `n` draws from the state `seed`.
pub fn draw_kinds(seed: u64, n: usize) -> (r: Vec<TetrominoType>)
    ensures
        r@ == kind_sequence(seed, n as nat),
{
    let mut state = seed;
    let mut r: Vec<TetrominoType> = Vec::new();
    let mut i: usize = 0;
    while i < n
        invariant
            i <= n,
            r@ + kind_sequence(state, (n - i) as nat) == kind_sequence(seed, n as nat),
        decreases n - i,
    {
        let ghost before = state;
        let k = next_kind(&mut state);
        assert(r@.push(k) + kind_sequence(state, (n - i - 1) as nat) =~= r@ + kind_sequence(
            before,
            (n - i) as nat,
        ));
        r.push(k);
        i += 1;
    }
    assert(r@ + kind_sequence(state, 0) =~= r@);
    r
}

proof fn lemma_sequence_len(seed: u64, n: nat)
    ensures
        kind_sequence(seed, n).len() == n,
    decreases n,
{
    if n > 0 {
        lemma_sequence_len(next_seed(seed), (n - 1) as nat);
    }
}

/// The first `n` kinds drawn from a state do not depend on how many more are
/// drawn after them.
pub proof fn lemma_sequence_prefix(seed: u64, n: nat, m: nat)
    requires
        n <= m,
    ensures
        kind_sequence(seed, m).subrange(0, n as int) == kind_sequence(seed, n),
    decreases n,
{
    if n > 0 {
        lemma_sequence_prefix(next_seed(seed), (n - 1) as nat, (m - 1) as nat);
        lemma_sequence_len(next_seed(seed), (m - 1) as nat);
        lemma_sequence_len(next_seed(seed), (n - 1) as nat);
        let tail_m = kind_sequence(next_seed(seed), (m - 1) as nat);
        let tail_n = kind_sequence(next_seed(seed), (n - 1) as nat);
        assert forall|i: int| 1 <= i < n implies #[trigger] tail_m[i - 1] == tail_n[i - 1] by {
            assert(tail_m.subrange(0, n - 1)[i - 1] == tail_m[i - 1]);
        }
        assert(kind_sequence(seed, m).subrange(0, n as int) =~= kind_sequence(seed, n));
    } else {
        assert(kind_sequence(seed, m).subrange(0, 0) =~= kind_sequence(seed, 0));
    }
}

} // verus!
