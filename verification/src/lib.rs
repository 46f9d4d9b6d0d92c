//! AES-128 block encryption evaluated over homomorphically encrypted bytes.
//!
//! Every byte of state and key material is a ciphertext. The evaluator holds an
//! evaluation key only and issues a fixed sequence of primitive operations,
//! whatever the ciphertexts hold.
//!
//! - [`scheme`] is the boundary to the encryption scheme, taken on trust.
//! - [`evaluator`] issues the scheme's operations and keeps their record.
//! - [`field`], [`tables`] and [`model`] define the cipher over plain bytes.
//! - [`aes_core`] and [`key_schedule`] are the circuits, each proved to leave
//!   in its ciphertexts what the model computes from what they held.

pub mod aes_core;
pub mod evaluator;
pub mod field;
pub mod key_schedule;
pub mod model;
pub mod scheme;
pub mod tables;
pub mod types;

pub use aes_core::{
    add_round_key, encrypt_block, encrypt_block_image, gmul, mix_columns, shift_rows, sub_byte,
    sub_bytes,
};
pub use evaluator::{Evaluator, Op};
pub use types::{ExpandedKey, State, NB, NK, NR};
