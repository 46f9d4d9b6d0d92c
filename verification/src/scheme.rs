//! The boundary to the homomorphic encryption scheme, `tfhe`: its key and ciphertext
//! types, what a ciphertext holds, and one function per primitive operation.
//!
//! Nothing in this file is proved. Each contract restates what the scheme
//! documents of the operation it names: what the result decrypts to, given
//! what the operands decrypt to. The scheme keeps that promise up to the
//! failure probability of its parameter set.

use tfhe::integer::{BooleanBlock, IntegerCiphertext, RadixCiphertext, RadixClientKey, ServerKey};
use vstd::prelude::*;

verus! {

/// The scheme's evaluation key: the public material that lets its holder
/// compute on ciphertexts and decrypt none.
#[verifier::external_type_specification]
#[verifier::external_body]
pub struct ExServerKey(tfhe::integer::ServerKey);

/// The scheme's client key for radix ciphertexts: the secret that encrypts
/// and decrypts.
#[verifier::external_type_specification]
#[verifier::external_body]
pub struct ExRadixClientKey(tfhe::integer::RadixClientKey);

/// The scheme's ciphertext of a condition.
#[verifier::external_type_specification]
#[verifier::external_body]
pub struct ExBooleanBlock(tfhe::integer::BooleanBlock);

/// One block of a radix ciphertext.
#[verifier::external_type_specification]
#[verifier::external_body]
pub struct ExBlock(tfhe::shortint::Ciphertext);

/// The scheme's ciphertext of an unsigned integer, split into blocks. The
/// library's encrypted byte is one of these over the block type above.
#[verifier::external_type_specification]
#[verifier::external_body]
#[verifier::reject_recursive_types(Block)]
pub struct ExBaseRadixCiphertext<Block>(tfhe::integer::ciphertext::BaseRadixCiphertext<Block>);

/// What a radix ciphertext holds under an evaluation key: `Some(v)` where it is
/// a well-formed ciphertext of the key's parameter set, of as many blocks as
/// make up eight bits, and the client key that the evaluation key was derived
/// from decrypts it to `v`; `None` for any other ciphertext.
pub uninterp spec fn content(c: RadixCiphertext, key: ServerKey) -> Option<u8>;

/// What an encrypted condition holds under an evaluation key, in the same way.
pub uninterp spec fn truth(b: BooleanBlock, key: ServerKey) -> Option<bool>;

/// Whether `key` is an evaluation key derived from the client key `secret`, in
/// a parameter set that the scheme supports for radix integers, and `secret`
/// splits a value into as many blocks as make up eight bits.
///
/// Key generation is the caller's: no function of this library makes a key,
/// so none establishes this relation. It is what the library takes on the
/// caller's word wherever a client key and an evaluation key meet.
pub uninterp spec fn paired(key: ServerKey, secret: RadixClientKey) -> bool;

/// Whether `secret` is a client key for bytes: one half of a pair.
pub open spec fn for_bytes(secret: RadixClientKey) -> bool {
    exists|key: ServerKey| #[trigger] paired(key, secret)
}

/// Whether `c` holds a byte under `key`.
pub open spec fn is_byte(c: RadixCiphertext, key: ServerKey) -> bool {
    content(c, key) is Some
}

/// The byte that `c` holds under `key`.
pub open spec fn byte_of(c: RadixCiphertext, key: ServerKey) -> u8 {
    content(c, key).unwrap()
}

/// Whether `secret` can decrypt `c`: it holds a byte under an evaluation key
/// derived from `secret`.
pub open spec fn readable(c: RadixCiphertext, secret: RadixClientKey) -> bool {
    exists|key: ServerKey| #[trigger] paired(key, secret) && is_byte(c, key)
}

/// `RadixClientKey::encrypt`: a fresh ciphertext of `value`. Under every
/// evaluation key derived from `secret` it holds `value`. A client key whose
/// blocks are wider than a byte makes the call panic, so `secret` has to be
/// one for bytes.
#[verifier::external_body]
pub(crate) fn raw_encrypt(secret: &RadixClientKey, value: u8) -> (r: RadixCiphertext)
    requires
        for_bytes(*secret),
    ensures
        forall|key: ServerKey| #[trigger] paired(key, *secret) ==> content(r, key) == Some(value),
{
    secret.encrypt(value)
}

/// `RadixClientKey::decrypt`: the byte that `c` holds under the evaluation
/// keys derived from `secret`. A ciphertext of another parameter set makes
/// the call panic, so `c` has to be one of this key's.
#[verifier::external_body]
pub(crate) fn raw_decrypt(secret: &RadixClientKey, c: &RadixCiphertext) -> (r: u8)
    requires
        readable(*c, *secret),
    ensures
        forall|key: ServerKey|
            #[trigger] paired(key, *secret) && is_byte(*c, key) ==> r == byte_of(*c, key),
{
    secret.decrypt(c)
}

/// `Clone::clone` of a ciphertext: a copy of its blocks.
#[verifier::external_body]
pub(crate) fn raw_copy(c: &RadixCiphertext) -> (r: RadixCiphertext)
    ensures
        r == *c,
{
    c.clone()
}

/// `ServerKey::create_trivial_radix`: an unencrypted ciphertext of `value`, with as
/// many blocks as `like` has. Any client key of the parameter set decrypts it
/// to `value`.
#[verifier::external_body]
pub(crate) fn raw_constant(key: &ServerKey, value: u8, like: &RadixCiphertext) -> (r:
    RadixCiphertext)
    requires
        is_byte(*like, *key),
    ensures
        content(r, *key) == Some(value),
{
    key.create_trivial_radix(value, like.blocks().len())
}

/// `ServerKey::eq_parallelized`: the condition holds exactly when the two
/// operands decrypt to the same byte.
#[verifier::external_body]
pub(crate) fn raw_equals(key: &ServerKey, a: &RadixCiphertext, b: &RadixCiphertext) -> (r:
    BooleanBlock)
    requires
        is_byte(*a, *key),
        is_byte(*b, *key),
    ensures
        truth(r, *key) == Some(byte_of(*a, *key) == byte_of(*b, *key)),
{
    key.eq_parallelized(a, b)
}

/// `ServerKey::if_then_else_parallelized`: the result decrypts to what
/// `if_true` decrypts to where the condition holds, and to what `if_false`
/// decrypts to where it does not.
#[verifier::external_body]
pub(crate) fn raw_select(
    key: &ServerKey,
    condition: &BooleanBlock,
    if_true: &RadixCiphertext,
    if_false: &RadixCiphertext,
) -> (r: RadixCiphertext)
    requires
        truth(*condition, *key) is Some,
        is_byte(*if_true, *key),
        is_byte(*if_false, *key),
    ensures
        content(r, *key) == if truth(*condition, *key).unwrap() {
            content(*if_true, *key)
        } else {
            content(*if_false, *key)
        },
{
    key.if_then_else_parallelized(condition, if_true, if_false)
}

/// `ServerKey::bitxor_parallelized`: the result decrypts to the bitwise
/// exclusive or of what the two operands decrypt to.
#[verifier::external_body]
pub(crate) fn raw_xor(key: &ServerKey, a: &RadixCiphertext, b: &RadixCiphertext) -> (r:
    RadixCiphertext)
    requires
        is_byte(*a, *key),
        is_byte(*b, *key),
    ensures
        content(r, *key) == Some(byte_of(*a, *key) ^ byte_of(*b, *key)),
{
    key.bitxor_parallelized(a, b)
}

/// `ServerKey::scalar_left_shift_parallelized`: the result decrypts to the
/// operand's byte shifted to the left, the bits that leave the byte dropped.
#[verifier::external_body]
pub(crate) fn raw_shift_left(key: &ServerKey, a: &RadixCiphertext, bits: u8) -> (r:
    RadixCiphertext)
    requires
        is_byte(*a, *key),
        bits < 8,
    ensures
        content(r, *key) == Some(byte_of(*a, *key) << bits),
{
    key.scalar_left_shift_parallelized(a, bits)
}

/// `ServerKey::scalar_right_shift_parallelized`: the result decrypts to the
/// operand's byte shifted to the right.
#[verifier::external_body]
pub(crate) fn raw_shift_right(key: &ServerKey, a: &RadixCiphertext, bits: u8) -> (r:
    RadixCiphertext)
    requires
        is_byte(*a, *key),
        bits < 8,
    ensures
        content(r, *key) == Some(byte_of(*a, *key) >> bits),
{
    key.scalar_right_shift_parallelized(a, bits)
}

/// `ServerKey::scalar_bitand_parallelized`: the result decrypts to the
/// operand's byte with the bits outside `mask` cleared.
#[verifier::external_body]
pub(crate) fn raw_mask(key: &ServerKey, a: &RadixCiphertext, mask: u8) -> (r: RadixCiphertext)
    requires
        is_byte(*a, *key),
    ensures
        content(r, *key) == Some(byte_of(*a, *key) & mask),
{
    key.scalar_bitand_parallelized(a, mask)
}

/// `ServerKey::scalar_mul_parallelized`: the result decrypts to the product
/// of the operand's byte and `factor`, modulo 256.
#[verifier::external_body]
pub(crate) fn raw_scale(key: &ServerKey, a: &RadixCiphertext, factor: u8) -> (r: RadixCiphertext)
    requires
        is_byte(*a, *key),
    ensures
        content(r, *key) == Some(((byte_of(*a, *key) * factor) % 256) as u8),
{
    key.scalar_mul_parallelized(a, factor)
}

} // verus!
