//! The encrypted state matrix and the expanded key.

use crate::model::transpose;
use crate::scheme::{
    byte_of, for_bytes, is_byte, paired, raw_copy, raw_decrypt, raw_encrypt,
};
use tfhe::integer::{RadixCiphertext, RadixClientKey, ServerKey};
use vstd::prelude::*;

verus! {

/// Number of columns of the state.
pub const NB: usize = 4;

/// Number of four-byte words of the key.
pub const NK: usize = 4;

/// Number of rounds.
pub const NR: usize = 10;

/// Whether every ciphertext of `cs` holds a byte under `key`.
pub open spec fn all_bytes(cs: Seq<RadixCiphertext>, key: ServerKey) -> bool {
    forall|i: int| 0 <= i < cs.len() ==> is_byte(#[trigger] cs[i], key)
}

/// The bytes that the ciphertexts of `cs` hold under `key`, in their order.
pub open spec fn bytes_of(cs: Seq<RadixCiphertext>, key: ServerKey) -> Seq<u8> {
    Seq::new(cs.len(), |i: int| byte_of(cs[i], key))
}

/// Whether `secret` can decrypt every ciphertext of `cs`, all of them under
/// one evaluation key derived from it.
pub open spec fn all_readable(cs: Seq<RadixCiphertext>, secret: RadixClientKey) -> bool {
    exists|key: ServerKey| #[trigger] paired(key, secret) && all_bytes(cs, key)
}

/// The cipher's state: four rows of four ciphertexts.
#[derive(Clone)]
pub struct State {
    pub data: Vec<Vec<RadixCiphertext>>,
}

impl State {
    /// Whether the state has four rows of four cells.
    pub open spec fn shaped(&self) -> bool {
        &&& self.data@.len() == 4
        &&& forall|r: int| 0 <= r < 4 ==> (#[trigger] self.data@[r])@.len() == 4
    }

    /// The sixteen cells in row-major order.
    pub open spec fn cells(&self) -> Seq<RadixCiphertext> {
        Seq::new(16, |i: int| self.data@[i / 4]@[i % 4])
    }

    /// Whether the state is four by four and every cell holds a byte under `key`.
    pub open spec fn valid(&self, key: ServerKey) -> bool {
        self.shaped() && all_bytes(self.cells(), key)
    }

    /// The sixteen bytes that the cells hold under `key`, in row-major order.
    pub open spec fn bytes(&self, key: ServerKey) -> Seq<u8> {
        bytes_of(self.cells(), key)
    }

    /// The state whose cells, in row-major order, are `cells`.
    pub fn from_cells(cells: Vec<RadixCiphertext>) -> (s: State)
        requires
            cells@.len() == 16,
        ensures
            s.shaped(),
            s.cells() == cells@,
    {
        let ghost all = cells@;
        let mut rest = cells;
        let mut data: Vec<Vec<RadixCiphertext>> = Vec::new();
        let mut r: usize = 0;
        while r < 4
            invariant
                r <= 4,
                all.len() == 16,
                data@.len() == r,
                rest@ == all.subrange(4 * r as int, 16),
                forall|a: int| 0 <= a < r ==> (#[trigger] data@[a])@.len() == 4,
                forall|a: int, b: int|
                    0 <= a < r && 0 <= b < 4 ==> #[trigger] data@[a]@[b] == all[4 * a + b],
            decreases 4 - r,
        {
            let mut row: Vec<RadixCiphertext> = Vec::new();
            let mut c: usize = 0;
            while c < 4
                invariant
                    c <= 4,
                    r < 4,
                    all.len() == 16,
                    row@.len() == c,
                    rest@ == all.subrange(4 * r as int + c as int, 16),
                    forall|b: int| 0 <= b < c ==> #[trigger] row@[b] == all[4 * r + b],
                decreases 4 - c,
            {
                let cell = rest.remove(0);
                row.push(cell);
                c += 1;
            }
            data.push(row);
            r += 1;
        }
        let s = State { data };
        assert(s.cells() =~= all);
        s
    }

    /// A state of sixteen fresh ciphertexts of zero.
    pub fn new(client_key: &RadixClientKey) -> (s: State)
        requires
            for_bytes(*client_key),
        ensures
            s.shaped(),
            forall|key: ServerKey| #[trigger]
                paired(key, *client_key) ==> s.valid(key) && s.bytes(key) == Seq::new(
                    16,
                    |i: int| 0u8,
                ),
    {
        let mut cells: Vec<RadixCiphertext> = Vec::new();
        let mut i: usize = 0;
        while i < 16
            invariant
                i <= 16,
                for_bytes(*client_key),
                cells@.len() == i,
                forall|key: ServerKey, j: int| #[trigger]
                    paired(key, *client_key) && 0 <= j < i ==> #[trigger] is_byte(cells@[j], key)
                        && byte_of(cells@[j], key) == 0,
            decreases 16 - i,
        {
            cells.push(raw_encrypt(client_key, 0));
            i += 1;
        }
        let s = State::from_cells(cells);
        assert forall|key: ServerKey| #[trigger] paired(key, *client_key) implies s.valid(key)
            && s.bytes(key) == Seq::new(16, |i: int| 0u8) by {
            assert forall|j: int| 0 <= j < 16 implies is_byte(#[trigger] s.cells()[j], key) by {
                assert(is_byte(cells@[j], key));
            }
            assert(s.bytes(key) =~= Seq::new(16, |i: int| 0u8));
        }
        s
    }

    /// The state of a block image of sixteen ciphertexts: the ciphertext at
    /// offset `4 * c + r` of the image becomes the cell in row `r` and column `c`.
    pub fn from_block(block: &[RadixCiphertext]) -> (s: State)
        requires
            block@.len() == 16,
        ensures
            s.shaped(),
            s.cells() == transpose(block@),
    {
        let mut cells: Vec<RadixCiphertext> = Vec::new();
        let mut i: usize = 0;
        while i < 16
            invariant
                i <= 16,
                block@.len() == 16,
                cells@.len() == i,
                forall|j: int| 0 <= j < i ==> #[trigger] cells@[j] == block@[(j % 4) * 4 + j / 4],
            decreases 16 - i,
        {
            cells.push(raw_copy(&block[(i % 4) * 4 + i / 4]));
            i += 1;
        }
        assert(cells@ =~= transpose(block@));
        State::from_cells(cells)
    }

    /// The block image of the state: the exact inverse of `from_block`.
    pub fn to_block(&self) -> (block: Vec<RadixCiphertext>)
        requires
            self.shaped(),
        ensures
            block@ == transpose(self.cells()),
    {
        let mut block: Vec<RadixCiphertext> = Vec::new();
        let mut i: usize = 0;
        while i < 16
            invariant
                i <= 16,
                self.shaped(),
                block@.len() == i,
                forall|j: int|
                    0 <= j < i ==> #[trigger] block@[j] == self.cells()[(j % 4) * 4 + j / 4],
            decreases 16 - i,
        {
            block.push(raw_copy(&self.data[i % 4][i / 4]));
            i += 1;
        }
        assert(block@ =~= transpose(self.cells()));
        block
    }

    /// Encrypts a plain block image of sixteen bytes into a state: the byte at
    /// offset `4 * c + r` goes to the cell in row `r` and column `c`.
    pub fn from_bytes(bytes: &[u8], client_key: &RadixClientKey) -> (s: State)
        requires
            bytes@.len() == 16,
            for_bytes(*client_key),
        ensures
            s.shaped(),
            forall|key: ServerKey| #[trigger]
                paired(key, *client_key) ==> s.valid(key) && s.bytes(key) == transpose(bytes@),
    {
        let mut cells: Vec<RadixCiphertext> = Vec::new();
        let mut i: usize = 0;
        while i < 16
            invariant
                i <= 16,
                bytes@.len() == 16,
                for_bytes(*client_key),
                cells@.len() == i,
                forall|key: ServerKey, j: int| #[trigger]
                    paired(key, *client_key) && 0 <= j < i ==> #[trigger] is_byte(cells@[j], key)
                        && byte_of(cells@[j], key) == bytes@[(j % 4) * 4 + j / 4],
            decreases 16 - i,
        {
            cells.push(raw_encrypt(client_key, bytes[(i % 4) * 4 + i / 4]));
            i += 1;
        }
        let s = State::from_cells(cells);
        assert forall|key: ServerKey| #[trigger] paired(key, *client_key) implies s.valid(key)
            && s.bytes(key) == transpose(bytes@) by {
            assert forall|j: int| 0 <= j < 16 implies is_byte(#[trigger] s.cells()[j], key)
                && byte_of(s.cells()[j], key) == bytes@[(j % 4) * 4 + j / 4] by {
                assert(is_byte(cells@[j], key));
            }
            assert(s.bytes(key) =~= transpose(bytes@));
        }
        s
    }

    /// Decrypts the state into a plain block image of sixteen bytes: the
    /// cell in row `r` and column `c` goes to offset `4 * c + r`.
    pub fn to_bytes(&self, client_key: &RadixClientKey) -> (bytes: Vec<u8>)
        requires
            self.shaped(),
            all_readable(self.cells(), *client_key),
        ensures
            bytes@.len() == 16,
            forall|key: ServerKey| #[trigger]
                paired(key, *client_key) && self.valid(key) ==> bytes@ == transpose(
                    self.bytes(key),
                ),
    {
        let ghost witness = choose|key: ServerKey| #[trigger]
            paired(key, *client_key) && all_bytes(self.cells(), key);
        let mut bytes: Vec<u8> = Vec::new();
        let mut i: usize = 0;
        while i < 16
            invariant
                i <= 16,
                self.shaped(),
                paired(witness, *client_key),
                all_bytes(self.cells(), witness),
                bytes@.len() == i,
                forall|key: ServerKey, j: int| #[trigger]
                    paired(key, *client_key) && 0 <= j < i && #[trigger] is_byte(
                        self.cells()[(j % 4) * 4 + j / 4],
                        key,
                    ) ==> bytes@[j] == byte_of(self.cells()[(j % 4) * 4 + j / 4], key),
            decreases 16 - i,
        {
            let ghost at = (i % 4) * 4 + i / 4;
            assert(self.cells()[at as int] == self.data@[(i % 4) as int]@[(i / 4) as int]);
            assert(is_byte(self.cells()[at as int], witness));
            bytes.push(raw_decrypt(client_key, &self.data[i % 4][i / 4]));
            i += 1;
        }
        assert forall|key: ServerKey| #[trigger]
            paired(key, *client_key) && self.valid(key) implies bytes@ == transpose(
            self.bytes(key),
        ) by {
            assert forall|j: int| 0 <= j < 16 implies bytes@[j] == transpose(self.bytes(key))[j] by {
                assert(is_byte(self.cells()[(j % 4) * 4 + j / 4], key));
            }
            assert(bytes@ =~= transpose(self.bytes(key)));
        }
        bytes
    }
}

/// The eleven round keys of one master key, each a sequence of sixteen
/// ciphertexts in the order of the state's cells.
pub struct ExpandedKey {
    pub round_keys: Vec<Vec<RadixCiphertext>>,
}

impl ExpandedKey {
    /// Whether there are eleven round keys of sixteen ciphertexts.
    pub open spec fn shaped(&self) -> bool {
        &&& self.round_keys@.len() == 11
        &&& forall|n: int| 0 <= n < 11 ==> (#[trigger] self.round_keys@[n])@.len() == 16
    }

    /// Whether the key has its shape and every ciphertext holds a byte under `key`.
    pub open spec fn valid(&self, key: ServerKey) -> bool {
        &&& self.shaped()
        &&& forall|n: int| 0 <= n < 11 ==> all_bytes((#[trigger] self.round_keys@[n])@, key)
    }

    /// The bytes that the round keys hold under `key`.
    pub open spec fn bytes(&self, key: ServerKey) -> Seq<Seq<u8>> {
        Seq::new(11, |n: int| bytes_of(self.round_keys@[n]@, key))
    }
}

} // verus!
