use sapling_digest::address::{
    compute_checksum, get_address_from_output_script, get_address_from_public_key,
    output_script_is_op_return, output_script_is_regular, output_script_to_p2pkh_payload,
};
use sapling_digest::amount::format_zec_amount;
use sapling_digest::balance::decode_balance;
use sapling_digest::bip32::Bip32Path;
use sapling_digest::error::{AppSW, ParserError};
use sapling_digest::hashing::hash160;
use sapling_digest::pubkey::PubKeyWithCC;
use sapling_digest::reader::ByteReader;

fn sha256_ref(data: &[u8]) -> Vec<u8> {
    <sha2::Sha256 as sha2::Digest>::digest(data).to_vec()
}

fn ripemd160_ref(data: &[u8]) -> Vec<u8> {
    <ripemd::Ripemd160 as ripemd::Digest>::digest(data).to_vec()
}

/// A regular pay-to-public-key-hash script around the given 20-byte
/// hash.
fn p2pkh_script(hash: &[u8; 20]) -> Vec<u8> {
    let mut script = vec![0x76u8, 0xa9, 0x14];
    script.extend_from_slice(hash);
    script.extend_from_slice(&[0x88, 0xac]);
    script
}

#[test]
fn checksum_is_double_sha256_prefix() {
    let data = b"checksum input";
    let expected = &sha256_ref(&sha256_ref(data))[..4];
    assert_eq!(compute_checksum(data), expected);
}

#[test]
fn hash160_is_ripemd_over_sha() {
    let data = b"some key bytes";
    let expected = ripemd160_ref(&sha256_ref(data));
    assert_eq!(hash160(data).unwrap(), expected);
}

#[test]
fn script_shape_recognizers() {
    let script = p2pkh_script(&[0x11; 20]);
    assert!(output_script_is_regular(&script));
    assert!(!output_script_is_op_return(&script));
    assert!(output_script_is_op_return(&[0x6a, 0x04, 1, 2, 3, 4]));
    assert!(!output_script_is_regular(&[0x6a, 0x04, 1, 2, 3, 4]));
    assert!(!output_script_is_regular(&script[..24]));
}

#[test]
fn payload_carries_version_and_hash() {
    let hash = [0x42u8; 20];
    let script = p2pkh_script(&hash);
    let payload = output_script_to_p2pkh_payload(&script, 7352).unwrap();
    assert_eq!(payload.len(), 22);
    assert_eq!(&payload[..2], &[0x1c, 0xb8]);
    assert_eq!(&payload[2..], &hash);

    let op_return = vec![0x6au8, 0x01, 0xff];
    assert_eq!(
        output_script_to_p2pkh_payload(&op_return, 7352),
        Err(AppSW::IncorrectData)
    );
    assert_eq!(
        output_script_to_p2pkh_payload(&script[..24], 7352),
        Err(AppSW::IncorrectData)
    );
}

#[test]
fn address_from_output_script_matches_reference() {
    let hash = [0x37u8; 20];
    let script = p2pkh_script(&hash);
    let addr = get_address_from_output_script(&script).unwrap();

    let mut preimage = vec![0x1cu8, 0xb8];
    preimage.extend_from_slice(&hash);
    let checksum = sha256_ref(&sha256_ref(&preimage));
    preimage.extend_from_slice(&checksum[..4]);
    let expected = bs58::encode(&preimage).into_vec();

    assert_eq!(addr.bytes.len(), 35);
    assert_eq!(addr.len, expected.len());
    assert_eq!(&addr.bytes[..addr.len], &expected[..]);
    assert!(addr.bytes[addr.len..].iter().all(|&b| b == 0));
    // A mainnet transparent address begins with `t`.
    assert_eq!(addr.bytes[0], b't');
}

#[test]
fn address_from_public_key_matches_reference() {
    let key_hash = [0x66u8; 20];
    let addr = get_address_from_public_key(&key_hash).unwrap();

    let mut preimage = vec![0x1cu8, 0xb8];
    preimage.extend_from_slice(&ripemd160_ref(&sha256_ref(&key_hash)));
    let checksum = sha256_ref(&sha256_ref(&preimage));
    preimage.extend_from_slice(&checksum[..4]);
    let expected = bs58::encode(&preimage).into_vec();

    assert_eq!(addr.len, expected.len());
    assert_eq!(&addr.bytes[..addr.len], &expected[..]);
}

#[test]
fn bip32_path_from_bytes() {
    // m/44'/133'/0'/0/1
    let mut data = vec![5u8];
    for component in [0x8000002cu32, 0x80000085, 0x80000000, 0, 1] {
        data.extend_from_slice(&component.to_be_bytes());
    }
    let path = Bip32Path::from_bytes(&data).unwrap();
    assert_eq!(
        path.as_slice(),
        &[0x8000002c, 0x80000085, 0x80000000, 0, 1]
    );
}

#[test]
fn bip32_path_rejects_bad_lengths() {
    assert!(matches!(
        Bip32Path::from_bytes(&[]),
        Err(AppSW::WrongApduLength)
    ));
    // Length byte does not match the data.
    assert!(matches!(
        Bip32Path::from_bytes(&[2, 0, 0, 0, 1]),
        Err(AppSW::WrongApduLength)
    ));
    // Eleven components: one over the cap.
    let mut data = vec![11u8];
    data.extend_from_slice(&[0u8; 44]);
    assert!(matches!(
        Bip32Path::from_bytes(&data),
        Err(AppSW::WrongApduLength)
    ));
}

fn example_key(parity: u8) -> PubKeyWithCC {
    let mut public_key = vec![4u8];
    public_key.extend_from_slice(&[0xabu8; 32]);
    public_key.extend_from_slice(&[0xcdu8; 31]);
    public_key.push(parity);
    PubKeyWithCC {
        public_key,
        public_key_len: 65,
        chain_code: vec![0u8; 32],
    }
}

#[test]
fn compressed_public_key_parity() {
    let even = example_key(0x02).compressed_public_key().unwrap();
    assert_eq!(even[0], 0x02);
    assert_eq!(&even[1..], &[0xab; 32]);
    let odd = example_key(0x03).compressed_public_key().unwrap();
    assert_eq!(odd[0], 0x03);
}

#[test]
fn compressed_public_key_rejects_short_key() {
    let mut key = example_key(0x02);
    key.public_key_len = 33;
    assert_eq!(key.compressed_public_key(), Err(AppSW::IncorrectData));
}

#[test]
fn public_key_hash160_matches_reference() {
    let key = example_key(0x02);
    let used = key.public_key[..65].to_vec();
    let h = key.public_key_hash160().unwrap();
    assert_eq!(h, ripemd160_ref(&sha256_ref(&used)));
}

#[test]
fn format_zec_amounts() {
    assert_eq!(format_zec_amount(0), "ZEC 0.00000000");
    assert_eq!(format_zec_amount(1), "ZEC 0.00000001");
    assert_eq!(format_zec_amount(100_000_000), "ZEC 1.00000000");
    assert_eq!(format_zec_amount(123_456_789), "ZEC 1.23456789");
    assert_eq!(format_zec_amount(2_100_000_000_000_000), "ZEC 21000000.00000000");
}

#[test]
fn balance_decoding_range() {
    let max = 2_100_000_000_000_000i64;
    assert_eq!(decode_balance(&max.to_le_bytes()), Ok(max));
    assert_eq!(decode_balance(&(-max).to_le_bytes()), Ok(-max));
    assert_eq!(
        decode_balance(&(max + 1).to_le_bytes()),
        Err(ParserError::MalformedValue)
    );
    assert_eq!(
        decode_balance(&(-max - 1).to_le_bytes()),
        Err(ParserError::MalformedValue)
    );
    assert_eq!(decode_balance(&0i64.to_le_bytes()), Ok(0));
}

#[test]
fn byte_reader_bounds() {
    let data = [1u8, 2, 3, 4, 5];
    let mut reader = ByteReader::new(&data);
    assert_eq!(reader.remaining_len(), 5);
    assert_eq!(reader.remaining_slice(), &data[..]);
    let first = reader.read_exact(2).unwrap();
    assert_eq!(first, vec![1, 2]);
    assert_eq!(reader.remaining_len(), 3);
    assert_eq!(
        reader.read_exact(4),
        Err(ParserError::InsufficientData)
    );
    // A failed read consumes nothing.
    assert_eq!(reader.remaining_len(), 3);
    reader.advance(3).unwrap();
    assert_eq!(reader.remaining_len(), 0);
    assert_eq!(reader.advance(1), Err(ParserError::InsufficientData));
}
