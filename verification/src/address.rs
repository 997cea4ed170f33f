//! Transparent (base58) address derivation.
//!
//! A pay-to-public-key-hash payload — a two-byte version prefix followed
//! by a 20-byte key hash — is extended with a 4-byte double-SHA-256
//! checksum and base58-encoded into a fixed 35-byte buffer.

use vstd::prelude::*;
use vstd::slice::{slice_index_get, slice_subrange, slice_to_vec};

use crate::error::AppSW;
use crate::hashing::{hash160, ripemd160_of, sha256, sha256_of};

verus! {

/// Length of the base58 buffer a transparent address is written into.
pub const TRANSPARENT_ADDRESS_B58_LEN: usize = 35;

/// Version prefix of a mainnet transparent pay-to-public-key-hash
/// address.
pub const P2PKH_PREFIX: [u8; 2] = [0x1c, 0xb8];

/// The version a transparent output script's address is encoded under;
/// its big-endian bytes are the mainnet prefix.
pub const COIN_P2PKH_VERSION: u16 = 7352;

/// The base58 encoding (big-endian base-58 digits, one leading `1` per
/// leading zero byte) of `data`.
pub uninterp spec fn base58_of(data: Seq<u8>) -> Seq<u8>;

#[verifier::external_type_specification]
#[verifier::external_body]
pub struct ExBs58EncodeError(bs58::encode::Error);

/// Relies on bs58::encode(..).onto(&mut [u8]): it writes the base58
/// encoding of `data` into the front of `out` and returns its length,
/// leaving the rest of the buffer untouched, exactly when the encoding
/// fits; a buffer too small for it is reported as an error.
#[verifier::external_body]
fn base58_onto(data: &[u8], out: &mut Vec<u8>) -> (r: Result<usize, bs58::encode::Error>)
    ensures
        final(out)@.len() == old(out)@.len(),
        r is Ok <==> base58_of(data@).len() <= old(out)@.len(),
        match r {
            Ok(n) => {
                &&& n == base58_of(data@).len()
                &&& final(out)@.subrange(0, n as int) == base58_of(data@)
                &&& final(out)@.skip(n as int) == old(out)@.skip(n as int)
            },
            Err(_) => true,
        },
{
    bs58::encode(data).onto(&mut out[..])
}

/// First four bytes of the double SHA-256 of `data`: the checksum a
/// base58 address carries.
pub open spec fn spec_checksum(data: Seq<u8>) -> Seq<u8> {
    sha256_of(sha256_of(data)).subrange(0, 4)
}

/// Computes the 4-byte double-SHA-256 checksum of `input`.
pub fn compute_checksum(input: &[u8]) -> (r: Vec<u8>)
    ensures
        r@ == spec_checksum(input@),
        r@.len() == 4,
{
    let first = sha256(input);
    let mut second = sha256(first.as_slice());
    second.truncate(4);
    second
}

/// A base58 transparent address: `len` digits written into the front of
/// a fixed 35-byte buffer whose tail stays zero.
pub struct Base58Address {
    pub bytes: Vec<u8>,
    pub len: usize,
}

/// The full byte string a payload is base58-encoded from: the payload
/// followed by its checksum.
pub open spec fn spec_address_preimage(payload: Seq<u8>) -> Seq<u8> {
    payload + spec_checksum(payload)
}

/// Appends the checksum to a 22-byte payload and base58-encodes the 26
/// bytes into the fixed address buffer. Fails exactly when the encoding
/// does not fit the 35-byte buffer.
fn p2pkh_payload_to_base58_bytes(payload: &[u8]) -> (r: Result<Base58Address, AppSW>)
    requires
        payload@.len() == 22,
    ensures
        r is Ok <==> base58_of(spec_address_preimage(payload@)).len() <= 35,
        match r {
            Ok(a) => {
                let digits = base58_of(spec_address_preimage(payload@));
                &&& a.bytes@.len() == 35
                &&& a.len == digits.len()
                &&& a.bytes@.subrange(0, a.len as int) == digits
                &&& forall|i: int| a.len <= i < 35 ==> a.bytes@[i] == 0u8
            },
            Err(e) => e == AppSW::IncorrectData,
        },
{
    let mut buf: Vec<u8> = slice_to_vec(payload);
    let checksum = compute_checksum(payload);
    buf.extend_from_slice(checksum.as_slice());
    proof {
        assert(buf@ =~= spec_address_preimage(payload@));
    }

    let mut out: Vec<u8> = Vec::new();
    let mut i: usize = 0;
    while i < 35
        invariant
            out@.len() == i,
            i <= 35,
            forall|j: int| 0 <= j < i ==> out@[j] == 0u8,
        decreases 35 - i,
    {
        out.push(0u8);
        i = i + 1;
    }

    let ghost zeros = out@;
    match base58_onto(buf.as_slice(), &mut out) {
        Ok(written) => {
            proof {
                assert forall|i: int| written <= i < 35 implies out@[i] == 0u8 by {
                    assert(out@.skip(written as int)[i - written] == zeros.skip(
                        written as int,
                    )[i - written]);
                }
            }
            Ok(Base58Address { bytes: out, len: written })
        },
        Err(_) => Err(AppSW::IncorrectData),
    }
}

/// Whether a transparent output script is an OP_RETURN script.
pub open spec fn spec_is_op_return(script: Seq<u8>) -> bool {
    script.len() > 0 && script[0] == 0x6a
}

/// Whether a transparent output script has the regular
/// pay-to-public-key-hash shape: OP_DUP OP_HASH160, a 20-byte push,
/// OP_EQUALVERIFY OP_CHECKSIG.
pub open spec fn spec_is_regular(script: Seq<u8>) -> bool {
    &&& script.len() == 25
    &&& script[0] == 0x76
    &&& script[1] == 0xa9
    &&& script[2] == 0x14
    &&& script[23] == 0x88
    &&& script[24] == 0xac
}

/// Recognizes an OP_RETURN output script.
pub fn output_script_is_op_return(script: &[u8]) -> (r: bool)
    ensures
        r == spec_is_op_return(script@),
{
    script.len() > 0 && *slice_index_get(script, 0) == 0x6a
}

/// Recognizes a regular pay-to-public-key-hash output script.
pub fn output_script_is_regular(script: &[u8]) -> (r: bool)
    ensures
        r == spec_is_regular(script@),
{
    script.len() == 25 && *slice_index_get(script, 0) == 0x76 && *slice_index_get(script, 1)
        == 0xa9 && *slice_index_get(script, 2) == 0x14 && *slice_index_get(script, 23) == 0x88
        && *slice_index_get(script, 24) == 0xac
}

/// The 22-byte address payload of a regular output script: the version's
/// big-endian bytes followed by the 20-byte key hash at the script's
/// address offset.
pub open spec fn spec_p2pkh_payload(script: Seq<u8>, version: u16) -> Seq<u8> {
    seq![(version >> 8) as u8, (version & 0xff) as u8] + script.subrange(3, 23)
}

/// Extracts the address payload from a regular output script, rejecting
/// OP_RETURN and any other non-regular script shape.
pub fn output_script_to_p2pkh_payload(script: &[u8], version: u16) -> (r: Result<Vec<u8>, AppSW>)
    ensures
        r is Ok <==> (!spec_is_op_return(script@) && spec_is_regular(script@)),
        match r {
            Ok(p) => p@ == spec_p2pkh_payload(script@, version) && p@.len() == 22,
            Err(e) => e == AppSW::IncorrectData,
        },
{
    if output_script_is_op_return(script) {
        return Err(AppSW::IncorrectData);
    }
    if !output_script_is_regular(script) {
        return Err(AppSW::IncorrectData);
    }

    let mut payload: Vec<u8> = Vec::new();
    proof {
        assert((version >> 8) < 256 && (version & 0xff) < 256) by (bit_vector);
    }
    payload.push((version >> 8) as u8);
    payload.push((version & 0xff) as u8);
    payload.extend_from_slice(slice_subrange(script, 3, 23));
    proof {
        assert(payload@ =~= spec_p2pkh_payload(script@, version));
    }
    Ok(payload)
}

/// Derives the base58 transparent address named by a regular output
/// script, under the mainnet version prefix.
pub fn get_address_from_output_script(script: &[u8]) -> (r: Result<Base58Address, AppSW>)
    ensures
        ({
            let digits = base58_of(
                spec_address_preimage(spec_p2pkh_payload(script@, COIN_P2PKH_VERSION)),
            );
            &&& (r is Ok <==> (!spec_is_op_return(script@) && spec_is_regular(script@)
                && digits.len() <= 35))
            &&& match r {
                Ok(a) => {
                    &&& a.bytes@.len() == 35
                    &&& a.len == digits.len()
                    &&& a.bytes@.subrange(0, a.len as int) == digits
                    &&& forall|i: int| a.len <= i < 35 ==> a.bytes@[i] == 0u8
                },
                Err(e) => e == AppSW::IncorrectData,
            }
        }),
{
    let payload = match output_script_to_p2pkh_payload(script, COIN_P2PKH_VERSION) {
        Ok(p) => p,
        Err(e) => {
            return Err(e);
        },
    };
    p2pkh_payload_to_base58_bytes(payload.as_slice())
}

/// Derives the base58 transparent address of a public-key hash: the
/// mainnet prefix, followed by the HASH160 of the given bytes, with
/// checksum, base58-encoded.
pub fn get_address_from_public_key(public_key_hash160: &[u8]) -> (r: Result<Base58Address, AppSW>)
    requires
        public_key_hash160@.len() == 20,
    ensures
        ({
            let payload = P2PKH_PREFIX@ + ripemd160_of(sha256_of(public_key_hash160@));
            let digits = base58_of(spec_address_preimage(payload));
            &&& (r is Ok <==> digits.len() <= 35)
            &&& match r {
                Ok(a) => {
                    &&& a.bytes@.len() == 35
                    &&& a.len == digits.len()
                    &&& a.bytes@.subrange(0, a.len as int) == digits
                    &&& forall|i: int| a.len <= i < 35 ==> a.bytes@[i] == 0u8
                },
                Err(e) => e == AppSW::IncorrectData,
            }
        }),
{
    let pubkey_hash160 = match hash160(public_key_hash160) {
        Ok(h) => h,
        Err(e) => {
            return Err(e);
        },
    };
    let mut buf: Vec<u8> = Vec::new();
    buf.push(P2PKH_PREFIX[0]);
    buf.push(P2PKH_PREFIX[1]);
    buf.extend_from_slice(pubkey_hash160.as_slice());
    proof {
        assert(buf@ =~= P2PKH_PREFIX@ + ripemd160_of(sha256_of(public_key_hash160@)));
    }
    p2pkh_payload_to_base58_bytes(buf.as_slice())
}

} // verus!
