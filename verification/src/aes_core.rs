//! The cipher's stages as circuits over ciphertexts, and the round pipeline
//! that composes them.

use crate::evaluator::{
    count, lemma_after_then, lemma_count_add, lemma_count_repeated, repeated, Evaluator, Op,
};
use crate::field::{
    bit, gf_mul, lemma_branch_free_step, lemma_mul_one, lemma_xor_zero, partial_product, times_x,
    times_x_pow, REDUCTION,
};
use crate::model;
use crate::scheme::{byte_of, content, is_byte, raw_copy};
use crate::tables::{sbox, sbox_entry};
use crate::types::{all_bytes, bytes_of, ExpandedKey, State, NR};
use tfhe::integer::{RadixCiphertext, ServerKey};
use vstd::prelude::*;

verus! {

/// The operations that one candidate of the substitution scan costs: the
/// candidate index as a constant, the comparison, the table entry as a
/// constant, the guarded choice, the accumulation.
pub open spec fn sub_byte_step_ops() -> Seq<Op> {
    seq![Op::Constant, Op::Equals, Op::Constant, Op::Select, Op::Xor]
}

/// The operations of one substitution: two constants of zero, then all 256
/// candidates, whatever the input holds.
pub open spec fn sub_byte_ops() -> Seq<Op> {
    seq![Op::Constant, Op::Constant] + repeated(sub_byte_step_ops(), 256)
}

/// Looks up the substitution table at the index that `input` holds, without
/// learning it: every index is compared with the input, and the entries are
/// summed, each guarded by its comparison.
pub fn sub_byte(input: &RadixCiphertext, evaluator: &mut Evaluator) -> (r: RadixCiphertext)
    requires
        is_byte(*input, old(evaluator).key()),
    ensures
        final(evaluator).after(*old(evaluator), sub_byte_ops()),
        content(r, old(evaluator).key()) == Some(sbox(byte_of(*input, old(evaluator).key()))),
{
    let ghost start = *evaluator;
    let ghost key = evaluator.key();
    let ghost v = byte_of(*input, key);
    let zero = evaluator.constant(0, input);
    let mut result = evaluator.constant(0, input);
    assert(evaluator.issued() =~= start.issued() + (seq![Op::Constant, Op::Constant] + repeated(
        sub_byte_step_ops(),
        0,
    )));
    let mut i: usize = 0;
    while i < 256
        invariant
            i <= 256,
            key == start.key(),
            is_byte(*input, key),
            v == byte_of(*input, key),
            content(zero, key) == Some(0u8),
            evaluator.after(
                start,
                seq![Op::Constant, Op::Constant] + repeated(sub_byte_step_ops(), i as nat),
            ),
            content(result, key) == Some(
                if (v as int) < i {
                    sbox(v)
                } else {
                    0u8
                },
            ),
        decreases 256 - i,
    {
        let ghost before = *evaluator;
        let candidate = evaluator.constant(i as u8, input);
        let matches = evaluator.equals(input, &candidate);
        let entry = evaluator.constant(sbox_entry(i as u8), input);
        let guarded = evaluator.select(&matches, &entry, &zero);
        let ghost held = byte_of(result, key);
        result = evaluator.xor(&result, &guarded);
        proof {
            lemma_xor_zero(held);
            lemma_xor_zero(sbox(v));
            assert(evaluator.issued() =~= before.issued() + sub_byte_step_ops());
            assert(evaluator.issued() =~= start.issued() + (seq![Op::Constant, Op::Constant]
                + repeated(sub_byte_step_ops(), (i + 1) as nat)));
        }
        i += 1;
    }
    result
}

/// What one substitution costs, whatever the input holds: 256 comparisons,
/// 256 guarded choices and 256 sums, over 514 public constants, and no other
/// operation.
pub proof fn lemma_sub_byte_cost()
    ensures
        count(sub_byte_ops(), Op::Equals) == 256,
        count(sub_byte_ops(), Op::Select) == 256,
        count(sub_byte_ops(), Op::Xor) == 256,
        count(sub_byte_ops(), Op::Constant) == 514,
        sub_byte_ops().len() == 1282,
{
    let head = seq![Op::Constant, Op::Constant];
    let step = sub_byte_step_ops();
    assert forall|kind: Op| #[trigger]
        count(sub_byte_ops(), kind) == count(head, kind) + 256 * count(step, kind) by {
        lemma_count_repeated(step, 256, kind);
        lemma_count_add(head, repeated(step, 256), kind);
    }
    lemma_count_repeated(step, 256, Op::Equals);
    reveal_with_fuel(count, 6);
    assert(step.drop_last() =~= seq![Op::Constant, Op::Equals, Op::Constant, Op::Select]);
    assert(step.drop_last().drop_last() =~= seq![Op::Constant, Op::Equals, Op::Constant]);
    assert(step.drop_last().drop_last().drop_last() =~= seq![Op::Constant, Op::Equals]);
    assert(step.drop_last().drop_last().drop_last().drop_last() =~= seq![Op::Constant]);
    assert(head.drop_last() =~= seq![Op::Constant]);
}

/// Two substitutions issue the same operations, whatever their inputs hold:
/// from evaluators with equal records they leave equal records.
pub proof fn lemma_sub_byte_oblivious(
    before_one: Evaluator,
    after_one: Evaluator,
    before_other: Evaluator,
    after_other: Evaluator,
)
    requires
        after_one.after(before_one, sub_byte_ops()),
        after_other.after(before_other, sub_byte_ops()),
        before_one.issued() == before_other.issued(),
    ensures
        after_one.issued() == after_other.issued(),
{
}

/// The operations that refresh the running multiple: the top bit isolated,
/// the shift, the reduction constant scaled by the top bit, the merge.
pub open spec fn double_ops() -> Seq<Op> {
    seq![Op::ShiftRight, Op::Mask, Op::ShiftLeft, Op::Scale, Op::Xor]
}

/// The operations of step `i` of a multiplication by `k`: an accumulation
/// where bit `i` of `k` is set, then the refresh.
pub open spec fn gmul_step_ops(k: u8, i: nat) -> Seq<Op> {
    if bit(k, i) {
        seq![Op::Xor] + double_ops()
    } else {
        double_ops()
    }
}

/// The operations of a multiplication by `k`, up to step `n`.
pub open spec fn gmul_ops_upto(k: u8, n: nat) -> Seq<Op>
    decreases n,
{
    if n == 0 {
        seq![Op::Constant]
    } else {
        gmul_ops_upto(k, (n - 1) as nat) + gmul_step_ops(k, (n - 1) as nat)
    }
}

/// The operations of a multiplication by the public byte `k`. They depend on
/// `k` and on nothing else.
pub open spec fn gmul_ops(k: u8) -> Seq<Op> {
    gmul_ops_upto(k, 8)
}

/// Multiplies what `a` holds by the public byte `b` in GF(2^8): for each bit
/// of `b` that is set, the matching multiple of `a` by a power of x is added
/// to the result. The reduction of each multiple depends on a secret bit and
/// is merged without a branch.
pub fn gmul(a: &RadixCiphertext, b: u8, evaluator: &mut Evaluator) -> (r: RadixCiphertext)
    requires
        is_byte(*a, old(evaluator).key()),
    ensures
        final(evaluator).after(*old(evaluator), gmul_ops(b)),
        content(r, old(evaluator).key()) == Some(gf_mul(byte_of(*a, old(evaluator).key()), b)),
{
    let ghost start = *evaluator;
    let ghost key = evaluator.key();
    let ghost v = byte_of(*a, key);
    let mut result = evaluator.constant(0, a);
    let mut p = raw_copy(a);
    let mut i: u8 = 0;
    while i < 8
        invariant
            i <= 8,
            key == start.key(),
            evaluator.after(start, gmul_ops_upto(b, i as nat)),
            content(p, key) == Some(times_x_pow(v, i as nat)),
            content(result, key) == Some(partial_product(v, b, i as nat)),
        decreases 8 - i,
    {
        let ghost before = *evaluator;
        let ghost multiple = byte_of(p, key);
        if (b >> i) & 1 == 1 {
            result = evaluator.xor(&result, &p);
        }
        let ghost mid = *evaluator;
        let top = evaluator.shift_right(&p, 7);
        let high_bit = evaluator.mask(&top, 1);
        let shifted = evaluator.shift_left(&p, 1);
        let reduction = evaluator.scale(&high_bit, REDUCTION);
        p = evaluator.xor(&shifted, &reduction);
        proof {
            lemma_branch_free_step(multiple);
            assert(byte_of(p, key) == times_x(multiple));
            assert(evaluator.issued() =~= mid.issued() + double_ops());
            assert(evaluator.issued() =~= before.issued() + gmul_step_ops(b, i as nat));
            assert(evaluator.issued() =~= start.issued() + gmul_ops_upto(b, (i + 1) as nat));
        }
        i += 1;
    }
    result
}

/// The operations of substituting a whole state: one substitution per cell.
pub open spec fn sub_bytes_ops() -> Seq<Op> {
    repeated(sub_byte_ops(), 16)
}

/// Substitutes every cell of the state.
pub fn sub_bytes(state: &mut State, evaluator: &mut Evaluator)
    requires
        old(state).valid(old(evaluator).key()),
    ensures
        final(evaluator).after(*old(evaluator), sub_bytes_ops()),
        final(state).valid(old(evaluator).key()),
        final(state).bytes(old(evaluator).key()) == model::sub_bytes(
            old(state).bytes(old(evaluator).key()),
        ),
{
    let ghost start = *evaluator;
    let ghost key = evaluator.key();
    let mut cells: Vec<RadixCiphertext> = Vec::new();
    let mut i: usize = 0;
    while i < 16
        invariant
            i <= 16,
            key == start.key(),
            state.valid(key),
            evaluator.after(start, repeated(sub_byte_ops(), i as nat)),
            cells@.len() == i,
            forall|j: int|
                0 <= j < i ==> content(#[trigger] cells@[j], key) == Some(
                    sbox(byte_of(state.cells()[j], key)),
                ),
        decreases 16 - i,
    {
        let ghost before = *evaluator;
        assert(state.cells()[i as int] == state.data@[(i / 4) as int]@[(i % 4) as int]);
        let cell = sub_byte(&state.data[i / 4][i % 4], evaluator);
        cells.push(cell);
        proof {
            lemma_after_then(
                start,
                before,
                *evaluator,
                repeated(sub_byte_ops(), i as nat),
                sub_byte_ops(),
            );
        }
        i += 1;
    }
    let ghost before = state.bytes(key);
    *state = State::from_cells(cells);
    assert(state.bytes(key) =~= model::sub_bytes(before));
}

/// Rotates row `r` of the state to the left by `r` cells. Ciphertexts are
/// moved, none is computed: the evaluator has no part in it.
pub fn shift_rows(state: &mut State)
    requires
        old(state).shaped(),
    ensures
        final(state).shaped(),
        final(state).cells() == model::shift_rows(old(state).cells()),
        forall|key: ServerKey|
            old(state).valid(key) ==> #[trigger] final(state).valid(key) && final(state).bytes(key)
                == model::shift_rows(old(state).bytes(key)),
{
    let mut cells: Vec<RadixCiphertext> = Vec::new();
    let mut i: usize = 0;
    while i < 16
        invariant
            i <= 16,
            state.shaped(),
            cells@.len() == i,
            forall|j: int|
                0 <= j < i ==> #[trigger] cells@[j] == state.cells()[model::shift_source(j)],
        decreases 16 - i,
    {
        let r = i / 4;
        let c = (i % 4 + r) % 4;
        assert(state.cells()[model::shift_source(i as int)] == state.data@[r as int]@[c as int]);
        cells.push(raw_copy(&state.data[r][c]));
        i += 1;
    }
    let ghost before = *state;
    *state = State::from_cells(cells);
    assert(state.cells() =~= model::shift_rows(before.cells()));
    assert forall|key: ServerKey| before.valid(key) implies #[trigger] state.valid(key)
        && state.bytes(key) == model::shift_rows(before.bytes(key)) by {
        assert forall|j: int| 0 <= j < 16 implies is_byte(#[trigger] state.cells()[j], key) by {
            assert(is_byte(before.cells()[model::shift_source(j)], key));
        }
        assert(state.bytes(key) =~= model::shift_rows(before.bytes(key)));
    }
}

/// The operations of combining a state with a round key: one sum per cell.
pub open spec fn add_round_key_ops() -> Seq<Op> {
    repeated(seq![Op::Xor], 16)
}

/// Adds the round key to the state, cell by cell, in GF(2^8).
pub fn add_round_key(state: &mut State, round_key: &[RadixCiphertext], evaluator: &mut Evaluator)
    requires
        old(state).valid(old(evaluator).key()),
        round_key@.len() == 16,
        all_bytes(round_key@, old(evaluator).key()),
    ensures
        final(evaluator).after(*old(evaluator), add_round_key_ops()),
        final(state).valid(old(evaluator).key()),
        final(state).bytes(old(evaluator).key()) == model::add_round_key(
            old(state).bytes(old(evaluator).key()),
            bytes_of(round_key@, old(evaluator).key()),
        ),
{
    let ghost start = *evaluator;
    let ghost key = evaluator.key();
    let mut cells: Vec<RadixCiphertext> = Vec::new();
    let mut i: usize = 0;
    while i < 16
        invariant
            i <= 16,
            key == start.key(),
            state.valid(key),
            round_key@.len() == 16,
            all_bytes(round_key@, key),
            evaluator.after(start, repeated(seq![Op::Xor], i as nat)),
            cells@.len() == i,
            forall|j: int|
                0 <= j < i ==> content(#[trigger] cells@[j], key) == Some(
                    byte_of(state.cells()[j], key) ^ byte_of(round_key@[j], key),
                ),
        decreases 16 - i,
    {
        let ghost before = *evaluator;
        assert(state.cells()[i as int] == state.data@[(i / 4) as int]@[(i % 4) as int]);
        let cell = evaluator.xor(&state.data[i / 4][i % 4], &round_key[i]);
        cells.push(cell);
        proof {
            lemma_after_then(
                start,
                before,
                *evaluator,
                repeated(seq![Op::Xor], i as nat),
                seq![Op::Xor],
            );
        }
        i += 1;
    }
    let ghost before = state.bytes(key);
    *state = State::from_cells(cells);
    assert(state.bytes(key) =~= model::add_round_key(before, bytes_of(round_key@, key)));
}

/// The entry in row `r` and column `c` of the mixing matrix.
pub fn mix_factor_of(r: usize, c: usize) -> (f: u8)
    requires
        r < 4,
        c < 4,
    ensures
        f == model::mix_factor(r as int, c as int),
{
    let d = (c + 4 - r) % 4;
    if d == 0 {
        2
    } else if d == 1 {
        3
    } else {
        1
    }
}

/// The operations of one term of a mixed cell: none where the factor is one,
/// a multiplication otherwise.
pub open spec fn mix_term_ops(factor: u8) -> Seq<Op> {
    if factor == 1 {
        Seq::<Op>::empty()
    } else {
        gmul_ops(factor)
    }
}

/// The product of the state's cell in row `k` and column `c` with a factor
/// of the mixing matrix.
fn mix_term(state: &State, k: usize, c: usize, factor: u8, evaluator: &mut Evaluator) -> (r:
    RadixCiphertext)
    requires
        state.valid(old(evaluator).key()),
        k < 4,
        c < 4,
    ensures
        final(evaluator).after(*old(evaluator), mix_term_ops(factor)),
        content(r, old(evaluator).key()) == Some(
            gf_mul(state.bytes(old(evaluator).key())[4 * k + c], factor),
        ),
{
    assert(state.cells()[4 * k + c] == state.data@[k as int]@[c as int]);
    if factor == 1 {
        proof {
            lemma_mul_one(state.bytes(evaluator.key())[4 * k + c]);
            assert(evaluator.issued() =~= evaluator.issued() + Seq::<Op>::empty());
        }
        raw_copy(&state.data[k][c])
    } else {
        gmul(&state.data[k][c], factor, evaluator)
    }
}

/// The operations of one mixed cell in row `r`: the four terms in the order
/// of the column, each but the first followed by its sum into the cell.
pub open spec fn mix_cell_ops(r: int) -> Seq<Op> {
    mix_term_ops(model::mix_factor(r, 0)) + mix_term_ops(model::mix_factor(r, 1)) + seq![Op::Xor]
        + mix_term_ops(model::mix_factor(r, 2)) + seq![Op::Xor] + mix_term_ops(
        model::mix_factor(r, 3),
    ) + seq![Op::Xor]
}

/// The cell in row `r` and column `c` of the mixed state.
fn mix_cell(state: &State, r: usize, c: usize, evaluator: &mut Evaluator) -> (cell:
    RadixCiphertext)
    requires
        state.valid(old(evaluator).key()),
        r < 4,
        c < 4,
    ensures
        final(evaluator).after(*old(evaluator), mix_cell_ops(r as int)),
        content(cell, old(evaluator).key()) == Some(
            model::mix_cell(state.bytes(old(evaluator).key()), r as int, c as int),
        ),
{
    let ghost start = *evaluator;
    let t0 = mix_term(state, 0, c, mix_factor_of(r, 0), evaluator);
    let t1 = mix_term(state, 1, c, mix_factor_of(r, 1), evaluator);
    let sum = evaluator.xor(&t0, &t1);
    let t2 = mix_term(state, 2, c, mix_factor_of(r, 2), evaluator);
    let sum = evaluator.xor(&sum, &t2);
    let t3 = mix_term(state, 3, c, mix_factor_of(r, 3), evaluator);
    let sum = evaluator.xor(&sum, &t3);
    assert(evaluator.issued() =~= start.issued() + mix_cell_ops(r as int));
    sum
}

/// The operations of mixing the first `n` cells of a state, row by row.
pub open spec fn mix_columns_ops_upto(n: nat) -> Seq<Op>
    decreases n,
{
    if n == 0 {
        Seq::<Op>::empty()
    } else {
        mix_columns_ops_upto((n - 1) as nat) + mix_cell_ops((n - 1) / 4)
    }
}

/// The operations of mixing a whole state.
pub open spec fn mix_columns_ops() -> Seq<Op> {
    mix_columns_ops_upto(16)
}

/// Replaces every column of the state by its product with the mixing matrix
/// over GF(2^8).
pub fn mix_columns(state: &mut State, evaluator: &mut Evaluator)
    requires
        old(state).valid(old(evaluator).key()),
    ensures
        final(evaluator).after(*old(evaluator), mix_columns_ops()),
        final(state).valid(old(evaluator).key()),
        final(state).bytes(old(evaluator).key()) == model::mix_columns(
            old(state).bytes(old(evaluator).key()),
        ),
{
    let ghost start = *evaluator;
    let ghost key = evaluator.key();
    let mut cells: Vec<RadixCiphertext> = Vec::new();
    let mut i: usize = 0;
    assert(evaluator.issued() =~= start.issued() + mix_columns_ops_upto(0));
    while i < 16
        invariant
            i <= 16,
            key == start.key(),
            state.valid(key),
            evaluator.after(start, mix_columns_ops_upto(i as nat)),
            cells@.len() == i,
            forall|j: int|
                0 <= j < i ==> content(#[trigger] cells@[j], key) == Some(
                    model::mix_cell(state.bytes(key), j / 4, j % 4),
                ),
        decreases 16 - i,
    {
        let ghost before = *evaluator;
        let cell = mix_cell(state, i / 4, i % 4, evaluator);
        cells.push(cell);
        proof {
            lemma_after_then(
                start,
                before,
                *evaluator,
                mix_columns_ops_upto(i as nat),
                mix_cell_ops(i as int / 4),
            );
        }
        i += 1;
    }
    let ghost before = state.bytes(key);
    *state = State::from_cells(cells);
    assert(state.bytes(key) =~= model::mix_columns(before));
}

/// The operations of one main round.
pub open spec fn main_round_ops() -> Seq<Op> {
    sub_bytes_ops() + mix_columns_ops() + add_round_key_ops()
}

/// The operations of encrypting one block: the whitening, nine main rounds,
/// and the last round, which mixes no columns.
pub open spec fn encrypt_block_ops() -> Seq<Op> {
    add_round_key_ops() + repeated(main_round_ops(), 9) + sub_bytes_ops() + add_round_key_ops()
}

/// Runs the round pipeline on the state: whitening with round key 0, then
/// rounds 1 to 9 of substitution, row rotation, column mixing and round key,
/// then round 10 without the mixing. The steps follow one another
/// unconditionally.
pub fn encrypt_block(state: &mut State, expanded_key: &ExpandedKey, evaluator: &mut Evaluator)
    requires
        old(state).valid(old(evaluator).key()),
        expanded_key.valid(old(evaluator).key()),
    ensures
        final(evaluator).after(*old(evaluator), encrypt_block_ops()),
        final(state).valid(old(evaluator).key()),
        final(state).bytes(old(evaluator).key()) == model::encrypt_state(
            old(state).bytes(old(evaluator).key()),
            expanded_key.bytes(old(evaluator).key()),
        ),
{
    let ghost start = *evaluator;
    let ghost key = evaluator.key();
    let ghost plain = state.bytes(key);
    let ghost keys = expanded_key.bytes(key);
    add_round_key(state, expanded_key.round_keys[0].as_slice(), evaluator);
    assert(evaluator.issued() =~= start.issued() + (add_round_key_ops() + repeated(
        main_round_ops(),
        0,
    )));
    let mut round: usize = 1;
    while round < NR
        invariant
            1 <= round <= NR,
            key == start.key(),
            expanded_key.valid(key),
            keys == expanded_key.bytes(key),
            state.valid(key),
            state.bytes(key) == model::after_rounds(plain, keys, (round - 1) as nat),
            evaluator.after(
                start,
                add_round_key_ops() + repeated(main_round_ops(), (round - 1) as nat),
            ),
        decreases NR - round,
    {
        let ghost before = *evaluator;
        sub_bytes(state, evaluator);
        shift_rows(state);
        mix_columns(state, evaluator);
        add_round_key(state, expanded_key.round_keys[round].as_slice(), evaluator);
        proof {
            assert(evaluator.issued() =~= before.issued() + main_round_ops());
            assert(evaluator.issued() =~= start.issued() + (add_round_key_ops() + repeated(
                main_round_ops(),
                round as nat,
            )));
        }
        round += 1;
    }
    sub_bytes(state, evaluator);
    shift_rows(state);
    add_round_key(state, expanded_key.round_keys[NR].as_slice(), evaluator);
    assert(evaluator.issued() =~= start.issued() + encrypt_block_ops());
}

/// Encrypts one block image of sixteen encrypted bytes under the expanded
/// key, and returns the block image of the result.
pub fn encrypt_block_image(
    block: &[RadixCiphertext],
    expanded_key: &ExpandedKey,
    evaluator: &mut Evaluator,
) -> (out: Vec<RadixCiphertext>)
    requires
        block@.len() == 16,
        all_bytes(block@, old(evaluator).key()),
        expanded_key.valid(old(evaluator).key()),
    ensures
        final(evaluator).after(*old(evaluator), encrypt_block_ops()),
        out@.len() == 16,
        all_bytes(out@, old(evaluator).key()),
        bytes_of(out@, old(evaluator).key()) == model::cipher_with(
            expanded_key.bytes(old(evaluator).key()),
            bytes_of(block@, old(evaluator).key()),
        ),
{
    let ghost key = evaluator.key();
    let mut state = State::from_block(block);
    proof {
        assert forall|i: int| 0 <= i < 16 implies is_byte(#[trigger] state.cells()[i], key) by {
            assert(is_byte(block@[(i % 4) * 4 + i / 4], key));
        }
        assert(state.bytes(key) =~= model::transpose(bytes_of(block@, key)));
    }
    encrypt_block(&mut state, expanded_key, evaluator);
    let out = state.to_block();
    proof {
        assert forall|i: int| 0 <= i < 16 implies is_byte(#[trigger] out@[i], key) by {
            assert(is_byte(state.cells()[(i % 4) * 4 + i / 4], key));
        }
        assert(bytes_of(out@, key) =~= model::transpose(state.bytes(key)));
    }
    out
}

/// Encryption is a function of the bytes alone: two runs of the pipeline on
/// states that hold the same bytes, with expanded keys that hold the same
/// bytes, leave states that hold the same bytes, under whatever evaluation
/// keys and from whatever ciphertexts.
pub proof fn lemma_encryption_deterministic(
    before_one: State,
    before_other: State,
    expanded_one: ExpandedKey,
    expanded_other: ExpandedKey,
    key_one: ServerKey,
    key_other: ServerKey,
    after_one: State,
    after_other: State,
)
    requires
        before_one.bytes(key_one) == before_other.bytes(key_other),
        expanded_one.bytes(key_one) == expanded_other.bytes(key_other),
        after_one.bytes(key_one) == model::encrypt_state(
            before_one.bytes(key_one),
            expanded_one.bytes(key_one),
        ),
        after_other.bytes(key_other) == model::encrypt_state(
            before_other.bytes(key_other),
            expanded_other.bytes(key_other),
        ),
    ensures
        after_one.bytes(key_one) == after_other.bytes(key_other),
{
}

/// Under the round keys of a key's schedule, a block image is encrypted to
/// the cipher's output for that key.
pub proof fn lemma_scheduled_encryption(key: Seq<u8>, round_keys: Seq<Seq<u8>>, block: Seq<u8>)
    requires
        round_keys == model::key_schedule(key),
    ensures
        model::cipher_with(round_keys, block) == model::cipher(key, block),
{
}

} // verus!
