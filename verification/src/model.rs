//! AES-128 encryption over plain bytes. The homomorphic circuits are held to
//! these functions: what a circuit leaves in its ciphertexts is what the
//! function of the same name computes from what they held before.
//!
//! A state is a sequence of sixteen cells in row-major order: the cell in row
//! `r` and column `c` stands at index `4 * r + c`. A round key has the same
//! order. A block image as callers hold it is column-major.

use crate::field::gf_mul;
use crate::tables::{rcon, sbox};
use vstd::prelude::*;

verus! {

/// Turns a column-major block image into a row-major state, and back: the
/// cell at `4 * c + r` of one is the cell at `4 * r + c` of the other.
pub open spec fn transpose<T>(s: Seq<T>) -> Seq<T> {
    Seq::new(16, |i: int| s[(i % 4) * 4 + i / 4])
}

/// Every cell replaced by its substitute.
pub open spec fn sub_bytes(s: Seq<u8>) -> Seq<u8> {
    Seq::new(16, |i: int| sbox(s[i]))
}

/// The index of the cell that row rotation moves to index `i`: the same row,
/// as many columns to the right as the row's number, around the end.
pub open spec fn shift_source(i: int) -> int {
    (i / 4) * 4 + (i % 4 + i / 4) % 4
}

/// The index that row rotation moves the cell at index `t` to.
pub open spec fn shift_target(t: int) -> int {
    (t / 4) * 4 + (t % 4 + 4 - t / 4) % 4
}

/// Row `r` rotated to the left by `r` cells.
pub open spec fn shift_rows<T>(s: Seq<T>) -> Seq<T> {
    Seq::new(16, |i: int| s[shift_source(i)])
}

/// The entry in row `r` and column `c` of the mixing matrix, whose rows are
/// 2 3 1 1, 1 2 3 1, 1 1 2 3 and 3 1 1 2.
pub open spec fn mix_factor(r: int, c: int) -> u8 {
    let d = (c - r + 4) % 4;
    if d == 0 {
        2u8
    } else if d == 1 {
        3u8
    } else {
        1u8
    }
}

/// The cell in row `r` of column `c` after mixing: row `r` of the matrix times
/// column `c` of the state, over GF(2^8).
pub open spec fn mix_cell(s: Seq<u8>, r: int, c: int) -> u8 {
    gf_mul(s[c], mix_factor(r, 0)) ^ gf_mul(s[4 + c], mix_factor(r, 1)) ^ gf_mul(
        s[8 + c],
        mix_factor(r, 2),
    ) ^ gf_mul(s[12 + c], mix_factor(r, 3))
}

/// Every column replaced by its product with the mixing matrix.
pub open spec fn mix_columns(s: Seq<u8>) -> Seq<u8> {
    Seq::new(16, |i: int| mix_cell(s, i / 4, i % 4))
}

/// Every cell combined with the round key's byte at the same index.
pub open spec fn add_round_key(s: Seq<u8>, k: Seq<u8>) -> Seq<u8> {
    Seq::new(16, |i: int| s[i] ^ k[i])
}

/// What the schedule makes of the word before the first word of a round key:
/// rotated by one byte, each byte substituted, the round constant added to
/// the first.
pub open spec fn schedule_core(w: Seq<u8>, round: int) -> Seq<u8> {
    seq![sbox(w[1]) ^ rcon(round), sbox(w[2]), sbox(w[3]), sbox(w[0])]
}

/// Two words of four bytes added byte by byte.
pub open spec fn xor_words(a: Seq<u8>, b: Seq<u8>) -> Seq<u8> {
    Seq::new(4, |j: int| a[j] ^ b[j])
}

/// Word `i` of the key schedule of the sixteen-byte key `key`, for `i` below 44.
pub open spec fn schedule_word(key: Seq<u8>, i: nat) -> Seq<u8>
    decreases i,
{
    if i < 4 {
        key.subrange(4 * i as int, 4 * i as int + 4)
    } else {
        let previous = schedule_word(key, (i - 1) as nat);
        let mixed = if i % 4 == 0 {
            schedule_core(previous, i / 4 - 1)
        } else {
            previous
        };
        xor_words(schedule_word(key, (i - 4) as nat), mixed)
    }
}

/// Round key `n`: words `4 * n` to `4 * n + 3` as the columns of a state.
pub open spec fn round_key(key: Seq<u8>, n: nat) -> Seq<u8> {
    Seq::new(16, |p: int| schedule_word(key, (4 * n + p % 4) as nat)[p / 4])
}

/// The eleven round keys of `key`.
pub open spec fn key_schedule(key: Seq<u8>) -> Seq<Seq<u8>> {
    Seq::new(11, |n: int| round_key(key, n as nat))
}

/// One main round: substitution, row rotation, column mixing, round key.
pub open spec fn main_round(s: Seq<u8>, k: Seq<u8>) -> Seq<u8> {
    add_round_key(mix_columns(shift_rows(sub_bytes(s))), k)
}

/// The last round, which mixes no columns.
pub open spec fn final_round(s: Seq<u8>, k: Seq<u8>) -> Seq<u8> {
    add_round_key(shift_rows(sub_bytes(s)), k)
}

/// The state after whitening with round key 0 and `n` main rounds.
pub open spec fn after_rounds(s: Seq<u8>, keys: Seq<Seq<u8>>, n: nat) -> Seq<u8>
    decreases n,
{
    if n == 0 {
        add_round_key(s, keys[0])
    } else {
        main_round(after_rounds(s, keys, (n - 1) as nat), keys[n as int])
    }
}

/// The state after the whole pipeline: whitening, nine main rounds, the
/// last round.
pub open spec fn encrypt_state(s: Seq<u8>, keys: Seq<Seq<u8>>) -> Seq<u8> {
    final_round(after_rounds(s, keys, 9), keys[10])
}

/// The ciphertext block of the plaintext block `block` under the round keys
/// `keys`, both block images column-major.
pub open spec fn cipher_with(keys: Seq<Seq<u8>>, block: Seq<u8>) -> Seq<u8> {
    transpose(encrypt_state(transpose(block), keys))
}

/// The ciphertext block of the plaintext block `block` under `key`.
pub open spec fn cipher(key: Seq<u8>, block: Seq<u8>) -> Seq<u8> {
    cipher_with(key_schedule(key), block)
}

/// Transposing twice gives the sixteen cells back.
pub proof fn lemma_transpose_twice<T>(s: Seq<T>)
    requires
        s.len() == 16,
    ensures
        transpose(transpose(s)) == s,
{
    assert(transpose(transpose(s)) =~= s);
}

/// Row rotation is a bijection on the sixteen cells: every cell comes from a
/// cell of the state, no two from the same, and where a cell goes to and where
/// a cell comes from undo each other.
pub proof fn lemma_shift_rows_bijective()
    ensures
        forall|i: int| 0 <= i < 16 ==> 0 <= #[trigger] shift_source(i) < 16,
        forall|i: int, j: int|
            0 <= i < 16 && 0 <= j < 16 && #[trigger] shift_source(i) == #[trigger] shift_source(j)
                ==> i == j,
        forall|t: int| 0 <= t < 16 ==> 0 <= #[trigger] shift_target(t) < 16,
        forall|t: int| 0 <= t < 16 ==> shift_source(#[trigger] shift_target(t)) == t,
        forall|i: int| 0 <= i < 16 ==> shift_target(#[trigger] shift_source(i)) == i,
{
}

/// Where a cell comes from stays in its row, `r` columns further on.
proof fn lemma_shift_source(i: int)
    requires
        0 <= i < 16,
    ensures
        0 <= shift_source(i) < 16,
        shift_source(i) / 4 == i / 4,
        shift_source(i) % 4 == (i % 4 + i / 4) % 4,
{
}

/// Each row has its own period under rotation: row 0 is never moved, row 2 is
/// back after two rotations, rows 1 and 3 after four. So four rotations
/// restore the whole state.
pub proof fn lemma_shift_rows_period<T>(s: Seq<T>)
    requires
        s.len() == 16,
    ensures
        forall|i: int| 0 <= i < 4 ==> shift_rows(s)[i] == s[i],
        forall|i: int| 8 <= i < 12 ==> shift_rows(shift_rows(s))[i] == s[i],
        shift_rows(shift_rows(shift_rows(shift_rows(s)))) == s,
{
    let once = shift_rows(s);
    let twice = shift_rows(once);
    let thrice = shift_rows(twice);
    let four = shift_rows(thrice);
    assert forall|i: int| 0 <= i < 16 implies #[trigger] four[i] == s[i] && (8 <= i < 12
        ==> twice[i] == s[i]) by {
        let a = shift_source(i);
        lemma_shift_source(i);
        let b = shift_source(a);
        lemma_shift_source(a);
        let c = shift_source(b);
        lemma_shift_source(b);
        let d = shift_source(c);
        lemma_shift_source(c);
        assert(four[i] == thrice[a]);
        assert(thrice[a] == twice[b]);
        assert(twice[b] == once[c]);
        assert(once[c] == s[d]);
        assert(d / 4 == i / 4);
        assert(d % 4 == i % 4);
        assert(twice[i] == once[a]);
        assert(once[a] == s[b]);
    }
    assert(four =~= s);
}

} // verus!
