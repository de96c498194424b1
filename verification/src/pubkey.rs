//! The public key that identifies an account.

use vstd::prelude::*;
use vstd::array::*;
use vstd::string::*;
use crate::hex::{decode_hex, encode_hex, hex_bytes, hex_text, is_hex, lemma_hex_round_trip};

verus! {

/// A public key: 32 bytes.
#[derive(Debug, Clone, Copy, PartialEq, Eq, Hash)]
pub struct Pubkey {
    bytes: [u8; 32],
}

/// Why a text is not a public key.
#[derive(Debug, Clone, Copy, PartialEq, Eq)]
pub enum KeyError {
    /// The text is not an even number of hexadecimal digits.
    NotHex,
    /// The text writes some number of bytes other than 32.
    WrongLength,
}

impl View for Pubkey {
    type V = Seq<u8>;

    /// The 32 bytes of the key.
    closed spec fn view(&self) -> Seq<u8> {
        self.bytes@
    }
}

/// What reading `text` as a key gives.
pub open spec fn key_from_hex(text: Seq<char>) -> Result<Seq<u8>, KeyError> {
    if !is_hex(text) {
        Err(KeyError::NotHex)
    } else if text.len() != 64 {
        Err(KeyError::WrongLength)
    } else {
        Ok(hex_bytes(text))
    }
}

impl Pubkey {
    /// The key made of the given bytes.
    pub fn new(bytes: [u8; 32]) -> (key: Self)
        ensures
            key@ == bytes@,
    {
        Pubkey { bytes }
    }

    /// The bytes of the key.
    pub fn bytes(&self) -> (bytes: &[u8; 32])
        ensures
            bytes@ == self@,
    {
        &self.bytes
    }

    /// The key in lower-case hexadecimal: 64 digits.
    pub fn hex(&self) -> (text: String)
        ensures
            text@ == hex_text(self@),
    {
        encode_hex(self.bytes.as_slice())
    }

    /// Reads a key from 64 hexadecimal digits of either case.
    pub fn from_hex(text: &str) -> (key: Result<Self, KeyError>)
        ensures
            match key {
                Ok(k) => key_from_hex(text@) == Ok::<Seq<u8>, KeyError>(k@),
                Err(e) => key_from_hex(text@) == Err::<Seq<u8>, KeyError>(e),
            },
    {
        match decode_hex(text) {
            None => Err(KeyError::NotHex),
            Some(decoded) => {
                if decoded.len() != 32 {
                    return Err(KeyError::WrongLength);
                }
                let mut bytes = [0u8; 32];
                let mut i: usize = 0;
                while i < 32
                    invariant
                        i <= 32,
                        decoded.len() == 32,
                        forall|j: int| 0 <= j < i ==> bytes@[j] == decoded@[j],
                    decreases 32 - i,
                {
                    bytes[i] = decoded[i];
                    i += 1;
                }
                assert(bytes@ =~= decoded@);
                Ok(Pubkey { bytes })
            },
        }
    }

    /// Whether two keys hold the same bytes.
    pub fn same(&self, other: &Pubkey) -> (same: bool)
        ensures
            same == (self@ == other@),
    {
        let mut i: usize = 0;
        while i < 32
            invariant
                i <= 32,
                forall|j: int| 0 <= j < i ==> self.bytes@[j] == other.bytes@[j],
            decreases 32 - i,
        {
            if self.bytes[i] != other.bytes[i] {
                return false;
            }
            i += 1;
        }
        assert(self.bytes@ =~= other.bytes@);
        true
    }
}

/// A key has 32 bytes, and keys with the same bytes are the same key.
pub proof fn lemma_key_bytes(a: Pubkey, b: Pubkey)
    ensures
        a@.len() == 32,
        a@ == b@ ==> a == b,
{
    if a@ == b@ {
        assert(a.bytes =~= b.bytes);
    }
}

/// A key read back from its hexadecimal text is the same key.
pub proof fn lemma_key_hex_round_trip(key: Pubkey)
    ensures
        key_from_hex(hex_text(key@)) == Ok::<Seq<u8>, KeyError>(key@),
{
    lemma_hex_round_trip(key@);
}

} // verus!
