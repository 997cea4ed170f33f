//! Decoding of the Sapling pool balance.
//!
//! The balance arrives as 8 little-endian bytes holding a signed 64-bit
//! zatoshi amount, and is only valid inside the monetary range
//! `-MAX_MONEY_ZAT ..= MAX_MONEY_ZAT`.

use vstd::bytes::spec_u64_from_le_bytes;
use vstd::prelude::*;

use crate::error::ParserError;

verus! {

/// The largest representable monetary amount, in zatoshis
/// (21,000,000 coins of 10^8 zatoshis each).
pub const MAX_MONEY_ZAT: i64 = 2_100_000_000_000_000;

#[verifier::external_type_specification]
#[verifier::external_body]
pub struct ExBalanceError(zcash_protocol::value::BalanceError);

/// The signed value whose 64-bit two's-complement pattern is `u`.
pub open spec fn signed_of(u: u64) -> int {
    if u < 0x8000_0000_0000_0000 {
        u as int
    } else {
        u - 0x1_0000_0000_0000_0000
    }
}

/// Whether a signed amount lies inside the monetary range.
pub open spec fn balance_in_range(v: int) -> bool {
    -MAX_MONEY_ZAT <= v <= MAX_MONEY_ZAT
}

/// Relies on zcash_protocol::value::ZatBalance::from_i64_le_bytes (and on
/// `From<ZatBalance> for i64`): the bytes are read as a little-endian
/// signed 64-bit integer, accepted exactly when that integer lies inside
/// the monetary range.
#[verifier::external_body]
fn zat_balance_from_le_bytes(bytes: &[u8]) -> (r: Result<
    i64,
    zcash_protocol::value::BalanceError,
>)
    requires
        bytes@.len() == 8,
    ensures
        r is Ok <==> balance_in_range(signed_of(spec_u64_from_le_bytes(bytes@))),
        match r {
            Ok(v) => v as int == signed_of(spec_u64_from_le_bytes(bytes@)),
            Err(_) => true,
        },
{
    let arr: [u8; 8] = bytes.try_into().unwrap();
    match zcash_protocol::value::ZatBalance::from_i64_le_bytes(arr) {
        Ok(z) => Ok(i64::from(z)),
        Err(e) => Err(e),
    }
}

/// Decodes the pool balance from its 8 little-endian bytes, rejecting an
/// amount outside the monetary range as `MalformedValue`.
pub fn decode_balance(bytes: &[u8]) -> (r: Result<i64, ParserError>)
    requires
        bytes@.len() == 8,
    ensures
        r is Ok <==> balance_in_range(signed_of(spec_u64_from_le_bytes(bytes@))),
        match r {
            Ok(v) => v as int == signed_of(spec_u64_from_le_bytes(bytes@)),
            Err(e) => e == ParserError::MalformedValue,
        },
{
    match zat_balance_from_le_bytes(bytes) {
        Ok(v) => Ok(v),
        Err(_) => Err(ParserError::MalformedValue),
    }
}

} // verus!
