//! The evaluating party: an evaluation key and the record of every primitive
//! operation issued with it.
//!
//! A ciphertext is opaque to this library, so no step can depend on what one
//! holds. The record makes that visible: each circuit appends a sequence of
//! operations that is a function of its public arguments alone.

use crate::scheme::{
    byte_of, content, is_byte, raw_constant, raw_equals, raw_mask, raw_scale, raw_select,
    raw_shift_left, raw_shift_right, raw_xor, truth,
};
use tfhe::integer::{BooleanBlock, RadixCiphertext, ServerKey};
use vstd::prelude::*;

verus! {

/// The kinds of primitive operation that the scheme evaluates.
#[derive(Clone, Copy, PartialEq, Eq, Debug)]
pub enum Op {
    /// A public constant made into a ciphertext.
    Constant,
    /// Two ciphertexts tested for equality.
    Equals,
    /// One of two ciphertexts chosen by an encrypted condition.
    Select,
    /// Two ciphertexts added in GF(2^8): their exclusive or.
    Xor,
    /// A ciphertext shifted to the left by a public count.
    ShiftLeft,
    /// A ciphertext shifted to the right by a public count.
    ShiftRight,
    /// A ciphertext masked with a public byte.
    Mask,
    /// A ciphertext multiplied by a public byte.
    Scale,
}

/// `ops` one after the other, `n` times.
pub open spec fn repeated(ops: Seq<Op>, n: nat) -> Seq<Op>
    decreases n,
{
    if n == 0 {
        Seq::<Op>::empty()
    } else {
        repeated(ops, (n - 1) as nat) + ops
    }
}

/// An evaluation key with the record of the operations issued with it.
pub struct Evaluator {
    key: ServerKey,
    record: Vec<Op>,
}

impl Evaluator {
    /// The evaluation key.
    pub closed spec fn key(&self) -> ServerKey {
        self.key
    }

    /// The operations issued so far, oldest first.
    pub closed spec fn issued(&self) -> Seq<Op> {
        self.record@
    }

    /// Whether this evaluator is `before` with `ops` issued since.
    pub open spec fn after(&self, before: Evaluator, ops: Seq<Op>) -> bool {
        self.key() == before.key() && self.issued() == before.issued() + ops
    }

    /// An evaluator that has issued nothing yet.
    pub fn new(key: ServerKey) -> (e: Evaluator)
        ensures
            e.key() == key,
            e.issued() == Seq::<Op>::empty(),
    {
        Evaluator { key, record: Vec::new() }
    }

    /// The operations issued so far, oldest first.
    pub fn operations(&self) -> (r: &Vec<Op>)
        ensures
            r@ == self.issued(),
    {
        &self.record
    }

    /// Empties the record.
    pub fn forget_operations(&mut self)
        ensures
            final(self).key() == old(self).key(),
            final(self).issued() == Seq::<Op>::empty(),
    {
        self.record = Vec::new();
    }

    /// Appends one operation to the record.
    fn note(&mut self, op: Op)
        ensures
            final(self).after(*old(self), seq![op]),
    {
        self.record.push(op);
        assert(self.record@ =~= old(self).record@ + seq![op]);
    }

    /// A ciphertext of the public byte `value`, of the shape of `like`.
    pub fn constant(&mut self, value: u8, like: &RadixCiphertext) -> (r: RadixCiphertext)
        requires
            is_byte(*like, old(self).key()),
        ensures
            final(self).after(*old(self), seq![Op::Constant]),
            content(r, old(self).key()) == Some(value),
    {
        self.note(Op::Constant);
        raw_constant(&self.key, value, like)
    }

    /// The encrypted condition that `a` and `b` hold the same byte.
    pub fn equals(&mut self, a: &RadixCiphertext, b: &RadixCiphertext) -> (r: BooleanBlock)
        requires
            is_byte(*a, old(self).key()),
            is_byte(*b, old(self).key()),
        ensures
            final(self).after(*old(self), seq![Op::Equals]),
            truth(r, old(self).key()) == Some(
                byte_of(*a, old(self).key()) == byte_of(*b, old(self).key()),
            ),
    {
        self.note(Op::Equals);
        raw_equals(&self.key, a, b)
    }

    /// A ciphertext of what `if_true` holds where `condition` holds, and of
    /// what `if_false` holds where it does not.
    pub fn select(
        &mut self,
        condition: &BooleanBlock,
        if_true: &RadixCiphertext,
        if_false: &RadixCiphertext,
    ) -> (r: RadixCiphertext)
        requires
            truth(*condition, old(self).key()) is Some,
            is_byte(*if_true, old(self).key()),
            is_byte(*if_false, old(self).key()),
        ensures
            final(self).after(*old(self), seq![Op::Select]),
            content(r, old(self).key()) == if truth(*condition, old(self).key()).unwrap() {
                content(*if_true, old(self).key())
            } else {
                content(*if_false, old(self).key())
            },
    {
        self.note(Op::Select);
        raw_select(&self.key, condition, if_true, if_false)
    }

    /// A ciphertext of the sum in GF(2^8) of what `a` and `b` hold.
    pub fn xor(&mut self, a: &RadixCiphertext, b: &RadixCiphertext) -> (r: RadixCiphertext)
        requires
            is_byte(*a, old(self).key()),
            is_byte(*b, old(self).key()),
        ensures
            final(self).after(*old(self), seq![Op::Xor]),
            content(r, old(self).key()) == Some(
                byte_of(*a, old(self).key()) ^ byte_of(*b, old(self).key()),
            ),
    {
        self.note(Op::Xor);
        raw_xor(&self.key, a, b)
    }

    /// A ciphertext of what `a` holds, shifted to the left by `bits`.
    pub fn shift_left(&mut self, a: &RadixCiphertext, bits: u8) -> (r: RadixCiphertext)
        requires
            is_byte(*a, old(self).key()),
            bits < 8,
        ensures
            final(self).after(*old(self), seq![Op::ShiftLeft]),
            content(r, old(self).key()) == Some(byte_of(*a, old(self).key()) << bits),
    {
        self.note(Op::ShiftLeft);
        raw_shift_left(&self.key, a, bits)
    }

    /// A ciphertext of what `a` holds, shifted to the right by `bits`.
    pub fn shift_right(&mut self, a: &RadixCiphertext, bits: u8) -> (r: RadixCiphertext)
        requires
            is_byte(*a, old(self).key()),
            bits < 8,
        ensures
            final(self).after(*old(self), seq![Op::ShiftRight]),
            content(r, old(self).key()) == Some(byte_of(*a, old(self).key()) >> bits),
    {
        self.note(Op::ShiftRight);
        raw_shift_right(&self.key, a, bits)
    }

    /// A ciphertext of what `a` holds, with the bits outside `mask` cleared.
    pub fn mask(&mut self, a: &RadixCiphertext, mask: u8) -> (r: RadixCiphertext)
        requires
            is_byte(*a, old(self).key()),
        ensures
            final(self).after(*old(self), seq![Op::Mask]),
            content(r, old(self).key()) == Some(byte_of(*a, old(self).key()) & mask),
    {
        self.note(Op::Mask);
        raw_mask(&self.key, a, mask)
    }

    /// A ciphertext of what `a` holds times `factor`, modulo 256.
    pub fn scale(&mut self, a: &RadixCiphertext, factor: u8) -> (r: RadixCiphertext)
        requires
            is_byte(*a, old(self).key()),
        ensures
            final(self).after(*old(self), seq![Op::Scale]),
            content(r, old(self).key()) == Some(
                ((byte_of(*a, old(self).key()) * factor) % 256) as u8,
            ),
    {
        self.note(Op::Scale);
        raw_scale(&self.key, a, factor)
    }
}

/// Operations issued one run after another add up.
pub proof fn lemma_after_then(
    first: Evaluator,
    second: Evaluator,
    third: Evaluator,
    a: Seq<Op>,
    b: Seq<Op>,
)
    requires
        second.after(first, a),
        third.after(second, b),
    ensures
        third.after(first, a + b),
{
    assert(first.issued() + (a + b) =~= (first.issued() + a) + b);
}

/// How many operations of `ops` are of the kind `kind`.
pub open spec fn count(ops: Seq<Op>, kind: Op) -> nat
    decreases ops.len(),
{
    if ops.len() == 0 {
        0
    } else {
        count(ops.drop_last(), kind) + if ops.last() == kind {
            1nat
        } else {
            0nat
        }
    }
}

/// The count over two runs is the sum of the counts over each.
pub proof fn lemma_count_add(a: Seq<Op>, b: Seq<Op>, kind: Op)
    ensures
        count(a + b, kind) == count(a, kind) + count(b, kind),
    decreases b.len(),
{
    if b.len() == 0 {
        assert(a + b =~= a);
    } else {
        assert((a + b).drop_last() =~= a + b.drop_last());
        lemma_count_add(a, b.drop_last(), kind);
    }
}

/// A run repeated `n` times holds `n` times as many operations of each kind,
/// and is `n` times as long.
pub proof fn lemma_count_repeated(ops: Seq<Op>, n: nat, kind: Op)
    ensures
        count(repeated(ops, n), kind) == n * count(ops, kind),
        repeated(ops, n).len() == n * ops.len(),
    decreases n,
{
    let each = count(ops, kind);
    let long = ops.len();
    if n == 0 {
        assert(n * each == 0 && n * long == 0) by (nonlinear_arith)
            requires
                n == 0,
        ;
    } else {
        let m = (n - 1) as nat;
        lemma_count_repeated(ops, m, kind);
        lemma_count_add(repeated(ops, m), ops, kind);
        assert(m * each + each == n * each && m * long + long == n * long) by (nonlinear_arith)
            requires
                n == m + 1,
        ;
    }
}

} // verus!
