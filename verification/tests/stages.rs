//! The cipher's stages on encrypted bytes, one stage at a time.
//!
//! The keys are made with parameters far too small to be secure and without
//! noise. The scheme's code runs as it would with real parameters, only
//! faster, and every result is exact.

use fhe_aes::{
    add_round_key, gmul, mix_columns, shift_rows, sub_byte, sub_bytes, Evaluator, ExpandedKey,
    State,
};
use tfhe::integer::{gen_keys_radix, RadixCiphertext, RadixClientKey, ServerKey};
use tfhe::shortint::parameters::{
    DynamicDistribution, GlweDimension, LweDimension, PolynomialSize, StandardDev,
    PARAM_MESSAGE_2_CARRY_2_KS_PBS,
};

fn setup() -> (RadixClientKey, ServerKey) {
    let mut parameters = PARAM_MESSAGE_2_CARRY_2_KS_PBS;
    parameters.lwe_dimension = LweDimension(2);
    parameters.glwe_dimension = GlweDimension(1);
    parameters.polynomial_size = PolynomialSize(64);
    parameters.lwe_noise_distribution =
        DynamicDistribution::new_gaussian_from_std_dev(StandardDev(0.0));
    parameters.glwe_noise_distribution =
        DynamicDistribution::new_gaussian_from_std_dev(StandardDev(0.0));
    gen_keys_radix(parameters, 4)
}

fn decrypt(client_key: &RadixClientKey, c: &RadixCiphertext) -> u8 {
    client_key.decrypt(c)
}

#[test]
fn test_sub_byte() {
    let (client_key, server_key) = setup();
    let mut evaluator = Evaluator::new(server_key);
    let input = client_key.encrypt(0x53u8);
    let result = sub_byte(&input, &mut evaluator);
    assert_eq!(decrypt(&client_key, &result), 0xed);
}

#[test]
fn test_shift_rows() {
    let (client_key, _) = setup();
    let mut state = State::new(&client_key);

    for i in 0..4 {
        for j in 0..4 {
            state.data[i][j] = client_key.encrypt((i * 4 + j) as u8);
        }
    }

    shift_rows(&mut state);

    assert_eq!(decrypt(&client_key, &state.data[0][0]), 0);
    assert_eq!(decrypt(&client_key, &state.data[0][1]), 1);
    assert_eq!(decrypt(&client_key, &state.data[0][2]), 2);
    assert_eq!(decrypt(&client_key, &state.data[0][3]), 3);

    assert_eq!(decrypt(&client_key, &state.data[1][0]), 5);
    assert_eq!(decrypt(&client_key, &state.data[2][0]), 10);
    assert_eq!(decrypt(&client_key, &state.data[3][0]), 15);
}

#[test]
fn test_gmul() {
    let (client_key, server_key) = setup();
    let mut evaluator = Evaluator::new(server_key);

    let a = client_key.encrypt(0x57u8);
    let result = gmul(&a, 2, &mut evaluator);
    assert_eq!(decrypt(&client_key, &result), 0xae);

    let result = gmul(&a, 3, &mut evaluator);
    assert_eq!(decrypt(&client_key, &result), 0xf9);
}

#[test]
fn shift_rows_moves_every_row_by_its_number() {
    let (client_key, _) = setup();
    let bytes: Vec<u8> = (0u8..16).collect();
    let mut state = State::from_bytes(&bytes, &client_key);
    // Column-major fill: row r holds r, r + 4, r + 8, r + 12.
    shift_rows(&mut state);
    let rows: Vec<Vec<u8>> = state
        .data
        .iter()
        .map(|row| row.iter().map(|c| decrypt(&client_key, c)).collect())
        .collect();
    assert_eq!(rows[0], vec![0, 4, 8, 12]);
    assert_eq!(rows[1], vec![5, 9, 13, 1]);
    assert_eq!(rows[2], vec![10, 14, 2, 6]);
    assert_eq!(rows[3], vec![15, 3, 7, 11]);
}

#[test]
fn gmul_of_encrypted_byte_by_larger_constants() {
    let (client_key, server_key) = setup();
    let mut evaluator = Evaluator::new(server_key);
    let a = client_key.encrypt(0x57u8);
    assert_eq!(decrypt(&client_key, &gmul(&a, 0x13, &mut evaluator)), 0xfe);
    assert_eq!(decrypt(&client_key, &gmul(&a, 0x83, &mut evaluator)), 0xc1);
    assert_eq!(decrypt(&client_key, &gmul(&a, 0x80, &mut evaluator)), 0x38);
}

#[test]
fn mix_columns_of_known_columns() {
    let (client_key, server_key) = setup();
    let mut evaluator = Evaluator::new(server_key.clone());
    // Four columns with known images under the mixing matrix.
    let block: [u8; 16] = [
        0xdb, 0x13, 0x53, 0x45, 0xf2, 0x0a, 0x22, 0x5c, 0x01, 0x01, 0x01, 0x01, 0xd4, 0xd4, 0xd4,
        0xd5,
    ];
    let cells: Vec<RadixCiphertext> =
        block.iter().map(|b| server_key.create_trivial_radix(*b, 4)).collect();
    let mut state = State::from_block(&cells);
    // One cell truly encrypted, so that the circuit meets a secret operand.
    state.data[1][0] = client_key.encrypt(0x13u8);
    mix_columns(&mut state, &mut evaluator);
    let mixed: Vec<u8> = state.to_block().iter().map(|c| decrypt(&client_key, c)).collect();
    assert_eq!(
        mixed,
        vec![
            0x8e, 0x4d, 0xa1, 0xbc, 0x9f, 0xdc, 0x58, 0x9d, 0x01, 0x01, 0x01, 0x01, 0xd5, 0xd5,
            0xd7, 0xd6
        ]
    );
}

#[test]
fn add_round_key_combines_by_exclusive_or() {
    let (client_key, server_key) = setup();
    let mut evaluator = Evaluator::new(server_key);
    let bytes: Vec<u8> = (0u8..16).map(|i| i * 0x11).collect();
    let mut state = State::from_bytes(&bytes, &client_key);
    let round_key: Vec<RadixCiphertext> =
        (0u8..16).map(|i| client_key.encrypt(0xf0 | i)).collect();
    add_round_key(&mut state, &round_key, &mut evaluator);
    for r in 0..4 {
        for c in 0..4 {
            let plain = bytes[4 * c + r];
            let key = 0xf0 | (4 * r + c) as u8;
            // 0xff + 0xf0 would carry as an integer sum; the sum in GF(2^8) is 0x0f.
            assert_eq!(decrypt(&client_key, &state.data[r][c]), plain ^ key);
        }
    }
    assert_eq!(decrypt(&client_key, &state.data[3][3]), 0x00);
    assert_eq!(decrypt(&client_key, &state.data[0][0]), 0xf0);
}

#[test]
fn sub_bytes_substitutes_every_cell() {
    let (client_key, server_key) = setup();
    let mut evaluator = Evaluator::new(server_key.clone());
    let cells: Vec<RadixCiphertext> =
        (0u8..16).map(|i| server_key.create_trivial_radix(i * 0x10, 4)).collect();
    let mut state = State::from_block(&cells);
    sub_bytes(&mut state, &mut evaluator);
    let out: Vec<u8> = state.to_block().iter().map(|c| decrypt(&client_key, c)).collect();
    assert_eq!(
        out,
        vec![
            0x63, 0xca, 0xb7, 0x04, 0x09, 0x53, 0xd0, 0x51, 0xcd, 0x60, 0xe0, 0xe7, 0xba, 0x70,
            0xe1, 0x8c
        ]
    );
    assert_eq!(evaluator.operations().len(), 16 * 1282);
}

#[test]
fn block_image_is_column_major() {
    let (client_key, _) = setup();
    let bytes: Vec<u8> = (0u8..16).map(|i| 0xa0 + i).collect();
    let state = State::from_bytes(&bytes, &client_key);
    for r in 0..4 {
        for c in 0..4 {
            assert_eq!(decrypt(&client_key, &state.data[r][c]), bytes[4 * c + r]);
        }
    }
    assert_eq!(state.to_bytes(&client_key), bytes);
    let block = state.to_block();
    assert_eq!(block.len(), 16);
    for (i, c) in block.iter().enumerate() {
        assert_eq!(decrypt(&client_key, c), bytes[i]);
    }
    let again = State::from_block(&block);
    assert_eq!(again.data, state.data);
}

#[test]
fn new_state_is_all_zero() {
    let (client_key, _) = setup();
    let state = State::new(&client_key);
    assert_eq!(state.data.len(), 4);
    assert!(state.data.iter().all(|row| row.len() == 4));
    assert_eq!(state.to_bytes(&client_key), vec![0u8; 16]);
    // Fresh encryptions, not one ciphertext sixteen times.
    assert_ne!(state.data[0][0], state.data[0][1]);
}

#[test]
fn expanded_key_fields_are_plain_data() {
    let (_, server_key) = setup();
    let round_keys: Vec<Vec<RadixCiphertext>> = (0..11)
        .map(|_| (0u8..16).map(|i| server_key.create_trivial_radix(i, 4)).collect())
        .collect();
    let key = ExpandedKey { round_keys };
    assert_eq!(key.round_keys.len(), fhe_aes::NR + 1);
    assert_eq!(key.round_keys[0].len(), fhe_aes::NB * fhe_aes::NK);
}
