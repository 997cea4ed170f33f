//! BIP32 derivation paths.
//!
//! A path is a short vector of `u32` components; hardened derivation is
//! indicated by the high bit. On the wire a path arrives as one length
//! byte followed by that many big-endian 4-byte components.

use vstd::prelude::*;
use vstd::slice::slice_index_get;

use crate::error::AppSW;

verus! {

/// The most path components a path may carry.
pub const MAX_ZCASH_BIP32_PATH: usize = 10;

/// The big-endian 32-bit value at offset `k` of `b`.
pub open spec fn spec_u32_be_at(b: Seq<u8>, k: int) -> u32 {
    ((b[k] as u32) << 24) | ((b[k + 1] as u32) << 16) | ((b[k + 2] as u32) << 8) | (b[k
        + 3] as u32)
}

/// BIP32 derivation path stored as a vector of u32 components.
pub struct Bip32Path {
    path: Vec<u32>,
}

impl View for Bip32Path {
    type V = Seq<u32>;

    closed spec fn view(&self) -> Seq<u32> {
        self.path@
    }
}

impl Bip32Path {
    pub open spec fn wf(&self) -> bool {
        self@.len() <= MAX_ZCASH_BIP32_PATH
    }

    /// The path's components.
    pub fn as_slice(&self) -> (s: &[u32])
        ensures
            s@ == self@,
    {
        self.path.as_slice()
    }

    /// Decodes a path from its wire form: one length byte, then that
    /// many big-endian u32 components. Rejects a length byte that does
    /// not match the data length, and a path longer than
    /// [`MAX_ZCASH_BIP32_PATH`].
    pub fn from_bytes(data: &[u8]) -> (r: Result<Bip32Path, AppSW>)
        ensures
            r is Ok <==> (data@.len() >= 1 && (data@[0] as int) * 4 == data@.len() - 1 && data@[0]
                <= MAX_ZCASH_BIP32_PATH),
            match r {
                Ok(p) => {
                    &&& p.wf()
                    &&& p@.len() == data@[0]
                    &&& forall|i: int|
                        0 <= i < p@.len() ==> p@[i] == spec_u32_be_at(data@, 1 + 4 * i)
                },
                Err(e) => e == AppSW::WrongApduLength,
            },
    {
        if data.len() == 0 {
            return Err(AppSW::WrongApduLength);
        }
        let count = *slice_index_get(data, 0) as usize;
        if count * 4 != data.len() - 1 {
            return Err(AppSW::WrongApduLength);
        }
        if count > MAX_ZCASH_BIP32_PATH {
            return Err(AppSW::WrongApduLength);
        }

        let mut path: Vec<u32> = Vec::new();
        let mut i: usize = 0;
        while i < count
            invariant
                i <= count,
                count <= MAX_ZCASH_BIP32_PATH,
                data@.len() == 1 + 4 * count,
                path@.len() == i,
                forall|j: int| 0 <= j < i ==> path@[j] == spec_u32_be_at(data@, 1 + 4 * j),
            decreases count - i,
        {
            let b0 = *slice_index_get(data, 1 + i * 4);
            let b1 = *slice_index_get(data, 1 + i * 4 + 1);
            let b2 = *slice_index_get(data, 1 + i * 4 + 2);
            let b3 = *slice_index_get(data, 1 + i * 4 + 3);
            let component: u32 = ((b0 as u32) << 24) | ((b1 as u32) << 16) | ((b2 as u32) << 8) | (
            b3 as u32);
            path.push(component);
            i = i + 1;
        }
        Ok(Bip32Path { path })
    }
}

} // verus!
