//! Public keys as handed back by the device's key derivation: an
//! uncompressed point with its length and chain code, with helpers to
//! compress it and to hash it for address derivation.

use vstd::prelude::*;
use vstd::slice::slice_subrange;

use crate::error::AppSW;
use crate::hashing::{hash160, ripemd160_of, sha256_of};

verus! {

/// A public key with its chain code: the raw 65-byte key buffer, how
/// much of it is in use, and the 32-byte chain code.
#[derive(Clone)]
pub struct PubKeyWithCC {
    pub public_key: Vec<u8>,
    pub public_key_len: usize,
    pub chain_code: Vec<u8>,
}

impl PubKeyWithCC {
    pub open spec fn wf(&self) -> bool {
        &&& self.public_key@.len() == 65
        &&& self.public_key_len <= 65
        &&& self.chain_code@.len() == 32
    }

    /// The used prefix of the key buffer.
    pub fn public_key_slice(&self) -> (s: &[u8])
        requires
            self.wf(),
        ensures
            s@ == self.public_key@.take(self.public_key_len as int),
    {
        slice_subrange(self.public_key.as_slice(), 0, self.public_key_len)
    }

    /// Compresses an uncompressed 65-byte key: the x coordinate prefixed
    /// by `0x03` for an odd y, `0x02` for an even one. Any other key
    /// length is rejected.
    pub fn compressed_public_key(&self) -> (r: Result<Vec<u8>, AppSW>)
        requires
            self.wf(),
        ensures
            r is Ok <==> self.public_key_len == 65,
            match r {
                Ok(pk) => {
                    &&& pk@.len() == 33
                    &&& pk@[0] == (if self.public_key@[64] & 1 == 1 {
                        0x03u8
                    } else {
                        0x02u8
                    })
                    &&& pk@.subrange(1, 33) == self.public_key@.subrange(1, 33)
                },
                Err(e) => e == AppSW::IncorrectData,
            },
    {
        if self.public_key_len != 65 {
            return Err(AppSW::IncorrectData);
        }
        let mut compressed_pk: Vec<u8> = Vec::new();
        let parity_byte = self.public_key[64];
        compressed_pk.push(if parity_byte & 1 == 1 {
            0x03u8
        } else {
            0x02u8
        });
        compressed_pk.extend_from_slice(slice_subrange(self.public_key.as_slice(), 1, 33));
        proof {
            assert(compressed_pk@.subrange(1, 33) =~= self.public_key@.subrange(1, 33));
        }
        Ok(compressed_pk)
    }

    /// The HASH160 (RIPEMD-160 over SHA-256) of the used key bytes.
    pub fn public_key_hash160(self) -> (r: Result<Vec<u8>, AppSW>)
        requires
            self.wf(),
        ensures
            match r {
                Ok(h) => {
                    &&& h@ == ripemd160_of(
                        sha256_of(self.public_key@.take(self.public_key_len as int)),
                    )
                    &&& h@.len() == 20
                },
                Err(_) => false,
            },
    {
        hash160(self.public_key_slice())
    }
}

} // verus!
