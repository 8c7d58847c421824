use vstd::prelude::*;

verus! {

/// A supply-chain participant's identity: a 256-bit account address.
///
/// The address is stored as four 64-bit words so that equality is plain
/// structural equality on integers, both in executable code and in
/// specifications. `from_bytes` builds an identity from the usual 32-byte
/// form, packing the bytes little-endian, eight to a word.
#[derive(Clone, Copy, PartialEq, Eq, Structural, Debug)]
pub struct AccountId {
    pub w0: u64,
    pub w1: u64,
    pub w2: u64,
    pub w3: u64,
}

impl AccountId {
    /// The little-endian packing of eight bytes into one word, as a
    /// mathematical function over the 32-byte form; `k` is the word index.
    pub open spec fn spec_word(bytes: Seq<u8>, k: int) -> u64 {
        (bytes[8 * k] as u64) | ((bytes[8 * k + 1] as u64) << 8)
            | ((bytes[8 * k + 2] as u64) << 16) | ((bytes[8 * k + 3] as u64) << 24)
            | ((bytes[8 * k + 4] as u64) << 32) | ((bytes[8 * k + 5] as u64) << 40)
            | ((bytes[8 * k + 6] as u64) << 48) | ((bytes[8 * k + 7] as u64) << 56)
    }

    /// The identity that a 32-byte address denotes.
    pub open spec fn spec_from_bytes(bytes: Seq<u8>) -> AccountId {
        AccountId {
            w0: Self::spec_word(bytes, 0),
            w1: Self::spec_word(bytes, 1),
            w2: Self::spec_word(bytes, 2),
            w3: Self::spec_word(bytes, 3),
        }
    }

    /// Builds the identity denoted by a 32-byte address.
    pub fn from_bytes(bytes: [u8; 32]) -> (r: AccountId)
        ensures
            r == Self::spec_from_bytes(bytes@),
    {
        AccountId {
            w0: Self::word(&bytes, 0),
            w1: Self::word(&bytes, 1),
            w2: Self::word(&bytes, 2),
            w3: Self::word(&bytes, 3),
        }
    }

    fn word(bytes: &[u8; 32], k: usize) -> (r: u64)
        requires
            k < 4,
        ensures
            r == Self::spec_word(bytes@, k as int),
    {
        (bytes[8 * k] as u64) | ((bytes[8 * k + 1] as u64) << 8)
            | ((bytes[8 * k + 2] as u64) << 16) | ((bytes[8 * k + 3] as u64) << 24)
            | ((bytes[8 * k + 4] as u64) << 32) | ((bytes[8 * k + 5] as u64) << 40)
            | ((bytes[8 * k + 6] as u64) << 48) | ((bytes[8 * k + 7] as u64) << 56)
    }
}

} // verus!
