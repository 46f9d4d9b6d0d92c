//! The key schedule over ciphertexts: one encrypted key of sixteen bytes is
//! expanded into 44 words of four bytes, which make up eleven round keys.

use crate::aes_core::{sub_byte, sub_byte_ops};
use crate::evaluator::{lemma_after_then, repeated, Evaluator, Op};
use crate::model;
use crate::scheme::{byte_of, content, is_byte, paired, raw_copy, raw_encrypt};
use crate::tables::round_constant;
use crate::types::{all_bytes, bytes_of, ExpandedKey, NB, NK, NR};
use tfhe::integer::{RadixCiphertext, RadixClientKey, ServerKey};
use vstd::prelude::*;

verus! {

/// Whether `word` is four ciphertexts that hold the bytes `plain` under `key`.
pub open spec fn holds_word(word: Seq<RadixCiphertext>, key: ServerKey, plain: Seq<u8>) -> bool {
    &&& word.len() == 4
    &&& all_bytes(word, key)
    &&& bytes_of(word, key) == plain
}

/// Whether the first `count` words of `words` hold the first `count` words
/// of the schedule of `master`.
pub open spec fn holds_schedule(
    words: Seq<Vec<RadixCiphertext>>,
    key: ServerKey,
    master: Seq<u8>,
    count: nat,
) -> bool {
    &&& words.len() >= count
    &&& forall|i: int|
        0 <= i < count ==> holds_word(
            (#[trigger] words[i])@,
            key,
            model::schedule_word(master, i as nat),
        )
}

/// The operations on the word before the first word of a round key: four
/// substitutions, the round constant, its sum into the first byte.
pub open spec fn schedule_core_ops() -> Seq<Op> {
    repeated(sub_byte_ops(), 4) + seq![Op::Constant, Op::Xor]
}

/// Rotates `word` by one byte, substitutes each byte, and adds the round
/// constant of `round` to the first.
fn schedule_core(word: &Vec<RadixCiphertext>, round: usize, evaluator: &mut Evaluator) -> (r: Vec<
    RadixCiphertext,
>)
    requires
        word@.len() == 4,
        all_bytes(word@, old(evaluator).key()),
        round < 10,
    ensures
        final(evaluator).after(*old(evaluator), schedule_core_ops()),
        holds_word(
            r@,
            old(evaluator).key(),
            model::schedule_core(bytes_of(word@, old(evaluator).key()), round as int),
        ),
{
    let ghost start = *evaluator;
    let ghost key = evaluator.key();
    assert(is_byte(word@[0], key) && is_byte(word@[1], key) && is_byte(word@[2], key) && is_byte(
        word@[3],
        key,
    ));
    let first = sub_byte(&word[1], evaluator);
    let second = sub_byte(&word[2], evaluator);
    let third = sub_byte(&word[3], evaluator);
    let fourth = sub_byte(&word[0], evaluator);
    let ghost substituted = *evaluator;
    assert(substituted.issued() =~= start.issued() + repeated(sub_byte_ops(), 4)) by {
        reveal_with_fuel(repeated, 5);
    }
    let constant = evaluator.constant(round_constant(round), &first);
    let first = evaluator.xor(&first, &constant);
    assert(evaluator.issued() =~= start.issued() + schedule_core_ops());
    let r = vec![first, second, third, fourth];
    assert(bytes_of(r@, key) =~= model::schedule_core(bytes_of(word@, key), round as int));
    r
}

/// Adds two words byte by byte in GF(2^8).
fn xor_words(a: &Vec<RadixCiphertext>, b: &Vec<RadixCiphertext>, evaluator: &mut Evaluator) -> (r:
    Vec<RadixCiphertext>)
    requires
        a@.len() == 4,
        b@.len() == 4,
        all_bytes(a@, old(evaluator).key()),
        all_bytes(b@, old(evaluator).key()),
    ensures
        final(evaluator).after(*old(evaluator), repeated(seq![Op::Xor], 4)),
        holds_word(
            r@,
            old(evaluator).key(),
            model::xor_words(
                bytes_of(a@, old(evaluator).key()),
                bytes_of(b@, old(evaluator).key()),
            ),
        ),
{
    let ghost start = *evaluator;
    let ghost key = evaluator.key();
    let mut r: Vec<RadixCiphertext> = Vec::new();
    let mut j: usize = 0;
    while j < 4
        invariant
            j <= 4,
            key == start.key(),
            a@.len() == 4,
            b@.len() == 4,
            all_bytes(a@, key),
            all_bytes(b@, key),
            evaluator.after(start, repeated(seq![Op::Xor], j as nat)),
            r@.len() == j,
            forall|t: int|
                0 <= t < j ==> content(#[trigger] r@[t], key) == Some(
                    byte_of(a@[t], key) ^ byte_of(b@[t], key),
                ),
        decreases 4 - j,
    {
        let ghost before = *evaluator;
        let sum = evaluator.xor(&a[j], &b[j]);
        r.push(sum);
        proof {
            lemma_after_then(
                start,
                before,
                *evaluator,
                repeated(seq![Op::Xor], j as nat),
                seq![Op::Xor],
            );
        }
        j += 1;
    }
    assert(bytes_of(r@, key) =~= model::xor_words(bytes_of(a@, key), bytes_of(b@, key)));
    r
}

/// The operations that make word `i` of the schedule, for `i` from 4 on.
pub open spec fn next_word_ops(i: nat) -> Seq<Op> {
    if i % 4 == 0 {
        schedule_core_ops() + repeated(seq![Op::Xor], 4)
    } else {
        repeated(seq![Op::Xor], 4)
    }
}

/// Word `i` of the schedule, from the words before it.
fn next_word(words: &Vec<Vec<RadixCiphertext>>, i: usize, evaluator: &mut Evaluator, Ghost(
    master,
): Ghost<Seq<u8>>) -> (r: Vec<RadixCiphertext>)
    requires
        4 <= i < 44,
        words@.len() == i,
        holds_schedule(words@, old(evaluator).key(), master, i as nat),
    ensures
        final(evaluator).after(*old(evaluator), next_word_ops(i as nat)),
        holds_word(r@, old(evaluator).key(), model::schedule_word(master, i as nat)),
{
    let ghost start = *evaluator;
    let ghost key = evaluator.key();
    assert(holds_word(words@[i - 1]@, key, model::schedule_word(master, (i - 1) as nat)));
    assert(holds_word(words@[i - 4]@, key, model::schedule_word(master, (i - 4) as nat)));
    if i % 4 == 0 {
        let mixed = schedule_core(&words[i - 1], i / 4 - 1, evaluator);
        let ghost cored = *evaluator;
        let r = xor_words(&words[i - 4], &mixed, evaluator);
        proof {
            lemma_after_then(
                start,
                cored,
                *evaluator,
                schedule_core_ops(),
                repeated(seq![Op::Xor], 4),
            );
        }
        r
    } else {
        xor_words(&words[i - 4], &words[i - 1], evaluator)
    }
}

/// The operations that make the words from 4 up to `n` of the schedule.
pub open spec fn expand_ops_upto(n: nat) -> Seq<Op>
    decreases n,
{
    if n <= 4 {
        Seq::<Op>::empty()
    } else {
        expand_ops_upto((n - 1) as nat) + next_word_ops((n - 1) as nat)
    }
}

/// The operations of one key expansion. No key byte has a part in them.
pub open spec fn expand_ops() -> Seq<Op> {
    expand_ops_upto(44)
}

impl ExpandedKey {
    /// Expands an encrypted key of sixteen bytes into the eleven round keys.
    /// The first four words are the key itself; every later word is the sum of
    /// the word four places before it and the word just before it, which is
    /// first rotated, substituted and given its round constant where the new
    /// word begins a round key.
    pub fn expand(master: &[RadixCiphertext], evaluator: &mut Evaluator) -> (e: ExpandedKey)
        requires
            master@.len() == 16,
            all_bytes(master@, old(evaluator).key()),
        ensures
            final(evaluator).after(*old(evaluator), expand_ops()),
            e.valid(old(evaluator).key()),
            e.bytes(old(evaluator).key()) == model::key_schedule(
                bytes_of(master@, old(evaluator).key()),
            ),
    {
        let ghost start = *evaluator;
        let ghost key = evaluator.key();
        let ghost plain = bytes_of(master@, key);
        let mut words: Vec<Vec<RadixCiphertext>> = Vec::new();
        let mut i: usize = 0;
        while i < NK
            invariant
                i <= NK,
                master@.len() == 16,
                all_bytes(master@, key),
                plain == bytes_of(master@, key),
                words@.len() == i,
                holds_schedule(words@, key, plain, i as nat),
            decreases NK - i,
        {
            let word = vec![
                raw_copy(&master[4 * i]),
                raw_copy(&master[4 * i + 1]),
                raw_copy(&master[4 * i + 2]),
                raw_copy(&master[4 * i + 3]),
            ];
            proof {
                assert(bytes_of(word@, key) =~= model::schedule_word(plain, i as nat));
            }
            words.push(word);
            i += 1;
        }
        assert(evaluator.issued() =~= start.issued() + expand_ops_upto(4));
        while i < NB * (NR + 1)
            invariant
                NK <= i <= NB * (NR + 1),
                key == start.key(),
                words@.len() == i,
                holds_schedule(words@, key, plain, i as nat),
                evaluator.after(start, expand_ops_upto(i as nat)),
            decreases NB * (NR + 1) - i,
        {
            let ghost before = *evaluator;
            let word = next_word(&words, i, evaluator, Ghost(plain));
            words.push(word);
            proof {
                lemma_after_then(
                    start,
                    before,
                    *evaluator,
                    expand_ops_upto(i as nat),
                    next_word_ops(i as nat),
                );
            }
            i += 1;
        }
        let mut round_keys: Vec<Vec<RadixCiphertext>> = Vec::new();
        let mut n: usize = 0;
        while n < NR + 1
            invariant
                n <= NR + 1,
                words@.len() == 44,
                holds_schedule(words@, key, plain, 44),
                round_keys@.len() == n,
                forall|m: int|
                    0 <= m < n ==> {
                        &&& (#[trigger] round_keys@[m])@.len() == 16
                        &&& all_bytes(round_keys@[m]@, key)
                        &&& bytes_of(round_keys@[m]@, key) == model::round_key(plain, m as nat)
                    },
            decreases NR + 1 - n,
        {
            let mut round_key: Vec<RadixCiphertext> = Vec::new();
            let mut p: usize = 0;
            while p < 16
                invariant
                    p <= 16,
                    n < 11,
                    words@.len() == 44,
                    holds_schedule(words@, key, plain, 44),
                    round_key@.len() == p,
                    forall|q: int|
                        0 <= q < p ==> is_byte(#[trigger] round_key@[q], key) && byte_of(
                            round_key@[q],
                            key,
                        ) == model::schedule_word(plain, (4 * n + q % 4) as nat)[q / 4],
                decreases 16 - p,
            {
                let at = 4 * n + p % 4;
                proof {
                    assert(holds_word(words@[at as int]@, key, model::schedule_word(plain, at as nat)));
                    assert(is_byte(words@[at as int]@[(p / 4) as int], key));
                    assert(bytes_of(words@[at as int]@, key)[(p / 4) as int] == byte_of(
                        words@[at as int]@[(p / 4) as int],
                        key,
                    ));
                }
                round_key.push(raw_copy(&words[at][p / 4]));
                p += 1;
            }
            proof {
                assert(bytes_of(round_key@, key) =~= model::round_key(plain, n as nat));
            }
            round_keys.push(round_key);
            n += 1;
        }
        let e = ExpandedKey { round_keys };
        assert(e.bytes(key) =~= model::key_schedule(plain));
        e
    }

    /// Encrypts the sixteen bytes of `key` and expands them into the eleven
    /// round keys.
    pub fn new(key: &[u8], client_key: &RadixClientKey, evaluator: &mut Evaluator) -> (e:
        ExpandedKey)
        requires
            key@.len() == 16,
            paired(old(evaluator).key(), *client_key),
        ensures
            final(evaluator).after(*old(evaluator), expand_ops()),
            e.valid(old(evaluator).key()),
            e.bytes(old(evaluator).key()) == model::key_schedule(key@),
    {
        let ghost evaluation = evaluator.key();
        let mut master: Vec<RadixCiphertext> = Vec::new();
        let mut i: usize = 0;
        while i < 16
            invariant
                i <= 16,
                key@.len() == 16,
                paired(evaluation, *client_key),
                master@.len() == i,
                forall|j: int|
                    0 <= j < i ==> is_byte(#[trigger] master@[j], evaluation) && byte_of(
                        master@[j],
                        evaluation,
                    ) == key@[j],
            decreases 16 - i,
        {
            master.push(raw_encrypt(client_key, key[i]));
            i += 1;
        }
        assert(bytes_of(master@, evaluation) =~= key@);
        ExpandedKey::expand(master.as_slice(), evaluator)
    }
}

/// The schedule is a function of the key's bytes alone: two expansions of
/// keys that hold the same bytes give round keys that hold the same bytes,
/// under whatever evaluation keys and from whatever ciphertexts.
pub proof fn lemma_expansion_deterministic(
    master_one: Seq<RadixCiphertext>,
    master_other: Seq<RadixCiphertext>,
    key_one: ServerKey,
    key_other: ServerKey,
    one: ExpandedKey,
    other: ExpandedKey,
)
    requires
        bytes_of(master_one, key_one) == bytes_of(master_other, key_other),
        one.bytes(key_one) == model::key_schedule(bytes_of(master_one, key_one)),
        other.bytes(key_other) == model::key_schedule(bytes_of(master_other, key_other)),
    ensures
        one.bytes(key_one) == other.bytes(key_other),
{
}

} // verus!
