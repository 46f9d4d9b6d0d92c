//! What holds of the cipher for all inputs, tried on concrete values, and
//! the published test vectors.
//!
//! Most inputs here are unencrypted ciphertexts of the scheme: it evaluates
//! them with the same operations in the same order, in a fraction of the
//! time. The keys are made with parameters far too small to be secure.

use fhe_aes::tables::SBOX;
use fhe_aes::{
    encrypt_block, encrypt_block_image, gmul, shift_rows, sub_byte, Evaluator, ExpandedKey, Op,
    State,
};
use tfhe::integer::{gen_keys_radix, RadixCiphertext, RadixClientKey, ServerKey};
use tfhe::shortint::parameters::{
    DynamicDistribution, GlweDimension, LweDimension, PolynomialSize, StandardDev,
    PARAM_MESSAGE_2_CARRY_2_KS_PBS,
};

fn setup() -> (RadixClientKey, ServerKey) {
    let mut parameters = PARAM_MESSAGE_2_CARRY_2_KS_PBS;
    parameters.lwe_dimension = LweDimension(2);
    parameters.glwe_dimension = GlweDimension(1);
    parameters.polynomial_size = PolynomialSize(64);
    parameters.lwe_noise_distribution =
        DynamicDistribution::new_gaussian_from_std_dev(StandardDev(0.0));
    parameters.glwe_noise_distribution =
        DynamicDistribution::new_gaussian_from_std_dev(StandardDev(0.0));
    gen_keys_radix(parameters, 4)
}

fn decrypt(client_key: &RadixClientKey, c: &RadixCiphertext) -> u8 {
    client_key.decrypt(c)
}

fn public(server_key: &ServerKey, bytes: &[u8]) -> Vec<RadixCiphertext> {
    bytes.iter().map(|b| server_key.create_trivial_radix(*b, 4)).collect()
}

fn from_hex(text: &str) -> Vec<u8> {
    (0..text.len() / 2).map(|i| u8::from_str_radix(&text[2 * i..2 * i + 2], 16).unwrap()).collect()
}

/// The product in GF(2^8), computed on plain bytes.
fn plain_product(a: u8, b: u8) -> u8 {
    let mut a = a;
    let mut b = b;
    let mut product = 0u8;
    while b != 0 {
        if b & 1 == 1 {
            product ^= a;
        }
        let carry = a & 0x80 != 0;
        a <<= 1;
        if carry {
            a ^= 0x1b;
        }
        b >>= 1;
    }
    product
}

/// The substitute of a byte from its definition: the inverse in GF(2^8),
/// then the affine map.
fn plain_substitute(a: u8) -> u8 {
    let inverse = (0u8..=255).find(|b| plain_product(a, *b) == 1).unwrap_or(0);
    inverse
        ^ inverse.rotate_left(1)
        ^ inverse.rotate_left(2)
        ^ inverse.rotate_left(3)
        ^ inverse.rotate_left(4)
        ^ 0x63
}

fn count(ops: &[Op], kind: Op) -> usize {
    ops.iter().filter(|op| **op == kind).count()
}

/// Runs one whole encryption from plain key and block, on unencrypted
/// ciphertexts, and returns the decrypted block image with the evaluator.
fn run(key: &[u8], block: &[u8]) -> (Vec<u8>, Vec<Vec<u8>>, Evaluator) {
    let (client_key, server_key) = setup();
    let mut evaluator = Evaluator::new(server_key.clone());
    let expanded = ExpandedKey::expand(&public(&server_key, key), &mut evaluator);
    let round_keys = expanded
        .round_keys
        .iter()
        .map(|k| k.iter().map(|c| decrypt(&client_key, c)).collect())
        .collect();
    let out = encrypt_block_image(&public(&server_key, block), &expanded, &mut evaluator);
    (out.iter().map(|c| decrypt(&client_key, c)).collect(), round_keys, evaluator)
}

#[test]
fn substitution_agrees_with_the_table_for_every_byte() {
    let (client_key, server_key) = setup();
    let mut evaluator = Evaluator::new(server_key.clone());
    for v in 0u8..=255 {
        let input: RadixCiphertext = server_key.create_trivial_radix(v, 4);
        let result = decrypt(&client_key, &sub_byte(&input, &mut evaluator));
        assert_eq!(result, SBOX[v as usize], "substitute of {:#04x}", v);
        assert_eq!(result, plain_substitute(v), "substitute of {:#04x}", v);
        evaluator.forget_operations();
    }
}

#[test]
fn substitution_of_encrypted_edge_bytes() {
    let (client_key, server_key) = setup();
    let mut evaluator = Evaluator::new(server_key);
    for (v, expected) in [(0x00u8, 0x63u8), (0xff, 0x16), (0x52, 0x00)] {
        let input = client_key.encrypt(v);
        assert_eq!(decrypt(&client_key, &sub_byte(&input, &mut evaluator)), expected);
    }
}

#[test]
fn row_rotation_is_a_bijection_with_a_period_per_row() {
    let (client_key, _) = setup();
    let bytes: Vec<u8> = (0u8..16).map(|i| 3 * i + 1).collect();
    let initial = State::from_bytes(&bytes, &client_key);
    let mut state = State::from_block(&initial.to_block());
    assert_eq!(state.data, initial.data);

    shift_rows(&mut state);
    let mut moved = state.to_bytes(&client_key);
    moved.sort();
    let mut all = bytes.clone();
    all.sort();
    assert_eq!(moved, all);
    assert_eq!(state.data[0], initial.data[0]);
    assert_ne!(state.data[1], initial.data[1]);
    assert_ne!(state.data[2], initial.data[2]);
    assert_ne!(state.data[3], initial.data[3]);

    shift_rows(&mut state);
    assert_eq!(state.data[2], initial.data[2]);
    assert_ne!(state.data[1], initial.data[1]);
    assert_ne!(state.data[3], initial.data[3]);

    shift_rows(&mut state);
    assert_ne!(state.data[1], initial.data[1]);
    assert_ne!(state.data[3], initial.data[3]);

    shift_rows(&mut state);
    assert_eq!(state.data, initial.data);
}

#[test]
fn product_with_one_zero_and_repeated_doubling() {
    let (client_key, server_key) = setup();
    let mut evaluator = Evaluator::new(server_key.clone());
    for a in 0u8..=255 {
        let input: RadixCiphertext = server_key.create_trivial_radix(a, 4);
        assert_eq!(decrypt(&client_key, &gmul(&input, 1, &mut evaluator)), a);
        assert_eq!(decrypt(&client_key, &gmul(&input, 0, &mut evaluator)), 0);
        let doubled = gmul(&input, 2, &mut evaluator);
        let twice = gmul(&doubled, 2, &mut evaluator);
        let fourfold = gmul(&input, 4, &mut evaluator);
        assert_eq!(decrypt(&client_key, &twice), decrypt(&client_key, &fourfold));
        evaluator.forget_operations();
    }
}

#[test]
fn product_agrees_with_the_field() {
    let (client_key, server_key) = setup();
    let mut evaluator = Evaluator::new(server_key.clone());
    for a in [0x00u8, 0x01, 0x02, 0x53, 0x57, 0x7f, 0x80, 0xca, 0xff] {
        let input: RadixCiphertext = server_key.create_trivial_radix(a, 4);
        for k in [0x00u8, 0x01, 0x02, 0x03, 0x09, 0x0b, 0x0d, 0x0e, 0x13, 0x80, 0xff] {
            let product = decrypt(&client_key, &gmul(&input, k, &mut evaluator));
            assert_eq!(product, plain_product(a, k), "{:#04x} times {:#04x}", a, k);
        }
    }
    // 0x53 and 0xca are inverses of each other.
    let input: RadixCiphertext = server_key.create_trivial_radix(0x53u8, 4);
    assert_eq!(decrypt(&client_key, &gmul(&input, 0xca, &mut evaluator)), 0x01);
}

#[test]
fn product_costs_depend_on_the_constant_alone() {
    let (client_key, server_key) = setup();
    let mut evaluator = Evaluator::new(server_key.clone());
    let hidden = client_key.encrypt(0x80u8);
    let known: RadixCiphertext = server_key.create_trivial_radix(0x01u8, 4);
    gmul(&hidden, 3, &mut evaluator);
    let for_hidden = evaluator.operations().clone();
    evaluator.forget_operations();
    gmul(&known, 3, &mut evaluator);
    assert_eq!(&for_hidden, evaluator.operations());
    // One constant, a sum for each of the two set bits, eight refreshes of five.
    assert_eq!(for_hidden.len(), 1 + 2 + 8 * 5);
    assert_eq!(count(&for_hidden, Op::Xor), 2 + 8);
    assert_eq!(count(&for_hidden, Op::Scale), 8);
    assert_eq!(count(&for_hidden, Op::ShiftLeft), 8);
    assert_eq!(count(&for_hidden, Op::ShiftRight), 8);
    assert_eq!(count(&for_hidden, Op::Mask), 8);
    assert_eq!(count(&for_hidden, Op::Constant), 1);
}

#[test]
fn key_expansion_is_deterministic() {
    let (client_key, server_key) = setup();
    let key = from_hex("000102030405060708090a0b0c0d0e0f");
    let mut evaluator = Evaluator::new(server_key.clone());
    let one = ExpandedKey::expand(&public(&server_key, &key), &mut evaluator);
    let issued_by_one = evaluator.operations().clone();
    evaluator.forget_operations();
    let other = ExpandedKey::expand(&public(&server_key, &key), &mut evaluator);
    assert_eq!(&issued_by_one, evaluator.operations());
    assert_eq!(one.round_keys.len(), 11);
    assert_eq!(other.round_keys.len(), 11);
    for n in 0..11 {
        let a: Vec<u8> = one.round_keys[n].iter().map(|c| decrypt(&client_key, c)).collect();
        let b: Vec<u8> = other.round_keys[n].iter().map(|c| decrypt(&client_key, c)).collect();
        assert_eq!(a.len(), 16);
        assert_eq!(a, b, "round key {}", n);
    }
}

#[test]
fn key_expansion_gives_the_published_round_keys() {
    let key = from_hex("000102030405060708090a0b0c0d0e0f");
    let published = [
        "000102030405060708090a0b0c0d0e0f",
        "d6aa74fdd2af72fadaa678f1d6ab76fe",
        "b692cf0b643dbdf1be9bc5006830b3fe",
        "b6ff744ed2c2c9bf6c590cbf0469bf41",
        "47f7f7bc95353e03f96c32bcfd058dfd",
        "3caaa3e8a99f9deb50f3af57adf622aa",
        "5e390f7df7a69296a7553dc10aa31f6b",
        "14f9701ae35fe28c440adf4d4ea9c026",
        "47438735a41c65b9e016baf4aebf7ad2",
        "549932d1f08557681093ed9cbe2c974e",
        "13111d7fe3944a17f307a78b4d2b30c5",
    ];
    let (client_key, server_key) = setup();
    let mut evaluator = Evaluator::new(server_key.clone());
    let expanded = ExpandedKey::expand(&public(&server_key, &key), &mut evaluator);
    for (n, text) in published.iter().enumerate() {
        let words = from_hex(text);
        let held: Vec<u8> =
            expanded.round_keys[n].iter().map(|c| decrypt(&client_key, c)).collect();
        // Byte `row` of word `col` stands at `4 * row + col` of the round key.
        for row in 0..4 {
            for col in 0..4 {
                assert_eq!(held[4 * row + col], words[4 * col + row], "round key {}", n);
            }
        }
    }
    // Forty substitutions, ten round constants with their sums, forty words of four sums.
    assert_eq!(evaluator.operations().len(), 40 * 1282 + 10 * 2 + 40 * 4);
}

#[test]
fn encrypts_the_standard_vector() {
    let key = from_hex("000102030405060708090a0b0c0d0e0f");
    let block = from_hex("00112233445566778899aabbccddeeff");
    let (out, _, evaluator) = run(&key, &block);
    assert_eq!(out, from_hex("69c4e0d86a7b0430d8cdb78070b4c55a"));
    let ops = evaluator.operations();
    let expansion = 40 * 1282 + 10 * 2 + 40 * 4;
    // 160 substitutions, eleven round keys, nine mixings of sixteen cells.
    let block_ops = 160 * 1282 + 11 * 16 + 9 * 16 * (42 + 43 + 3);
    assert_eq!(ops.len(), expansion + block_ops);
    assert_eq!(count(ops, Op::Equals), 200 * 256);
    assert_eq!(count(ops, Op::Select), 200 * 256);
}

#[test]
fn encrypts_the_worked_example_of_the_standard() {
    let key = from_hex("2b7e151628aed2a6abf7158809cf4f3c");
    let block = from_hex("3243f6a8885a308d313198a2e0370734");
    let (out, round_keys, _) = run(&key, &block);
    assert_eq!(out, from_hex("3925841d02dc09fbdc118597196a0b32"));
    let last = from_hex("d014f9a8c9ee2589e13f0cc8b6630ca6");
    for row in 0..4 {
        for col in 0..4 {
            assert_eq!(round_keys[10][4 * row + col], last[4 * col + row]);
        }
    }
}

#[test]
fn encrypting_twice_gives_the_same_bytes() {
    // The last round key of the standard vector, used for every round: the
    // expanded key is shared by both calls and never changed.
    let round_key = from_hex("13e3f34d1194072b1d4aa7307f178bc5");
    let block = from_hex("00112233445566778899aabbccddeeff");
    let (client_key, server_key) = setup();
    let expanded =
        ExpandedKey { round_keys: (0..11).map(|_| public(&server_key, &round_key)).collect() };
    let mut outputs: Vec<Vec<u8>> = Vec::new();
    let mut records: Vec<Vec<Op>> = Vec::new();
    for _ in 0..2 {
        let mut evaluator = Evaluator::new(server_key.clone());
        let mut state = State::from_block(&public(&server_key, &block));
        encrypt_block(&mut state, &expanded, &mut evaluator);
        outputs.push(state.to_bytes(&client_key));
        records.push(evaluator.operations().clone());
    }
    assert_eq!(outputs[0], outputs[1]);
    assert_eq!(records[0], records[1]);
    assert_ne!(outputs[0], block);
    for k in &expanded.round_keys {
        let held: Vec<u8> = k.iter().map(|c| decrypt(&client_key, c)).collect();
        assert_eq!(held, round_key);
    }
}

#[test]
fn substitution_issues_the_same_operations_for_every_input() {
    let (client_key, server_key) = setup();
    let mut evaluator = Evaluator::new(server_key.clone());
    let mut records: Vec<Vec<Op>> = Vec::new();
    let inputs: Vec<RadixCiphertext> = vec![
        server_key.create_trivial_radix(0x00u8, 4),
        server_key.create_trivial_radix(0xffu8, 4),
        client_key.encrypt(0x53u8),
    ];
    for input in &inputs {
        evaluator.forget_operations();
        sub_byte(input, &mut evaluator);
        records.push(evaluator.operations().clone());
    }
    assert_eq!(records[0], records[1]);
    assert_eq!(records[0], records[2]);
    assert_eq!(count(&records[0], Op::Equals), 256);
    assert_eq!(count(&records[0], Op::Select), 256);
    assert_eq!(count(&records[0], Op::Xor), 256);
    assert_eq!(count(&records[0], Op::Constant), 514);
    assert_eq!(records[0].len(), 1282);
}
