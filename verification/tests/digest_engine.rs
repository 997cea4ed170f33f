use sapling_digest::error::ParserError;
use sapling_digest::reader::ByteReader;
use sapling_digest::sapling::{Hashers, Parser, ParserCtx, ParserState};

const PERSO_SAPLING: &[u8; 16] = b"ZTxIdSaplingHash";
const PERSO_SPENDS: &[u8; 16] = b"ZTxIdSSpendsHash";
const PERSO_SPENDS_COMPACT: &[u8; 16] = b"ZTxIdSSpendCHash";
const PERSO_SPENDS_NONCOMPACT: &[u8; 16] = b"ZTxIdSSpendNHash";
const PERSO_OUTPUTS: &[u8; 16] = b"ZTxIdSOutputHash";
const PERSO_OUTPUTS_COMPACT: &[u8; 16] = b"ZTxIdSOutC__Hash";
const PERSO_OUTPUTS_MEMO: &[u8; 16] = b"ZTxIdSOutM__Hash";
const PERSO_OUTPUTS_NONCOMPACT: &[u8; 16] = b"ZTxIdSOutN__Hash";

fn b2(perso: &[u8; 16]) -> blake2b_simd::State {
    blake2b_simd::Params::new()
        .hash_length(32)
        .personal(perso)
        .to_state()
}

fn pattern(len: usize, seed: u8) -> Vec<u8> {
    (0..len).map(|i| (i as u8).wrapping_mul(31).wrapping_add(seed)).collect()
}

fn from_hex(s: &str) -> Vec<u8> {
    (0..s.len() / 2)
        .map(|i| u8::from_str_radix(&s[2 * i..2 * i + 2], 16).unwrap())
        .collect()
}

fn new_machine(spends: usize, outputs: usize, orchard: usize) -> (Parser, ParserCtx) {
    let parser = Parser::new(spends, outputs, orchard);
    let ctx = ParserCtx { hashers: Hashers::new() };
    (parser, ctx)
}

/// Feeds the stream in the given chunk sizes (which must cover it
/// exactly) and returns the final pool digest.
fn run_chunked(
    spends: usize,
    outputs: usize,
    orchard: usize,
    stream: &[u8],
    chunks: &[usize],
) -> Result<Vec<u8>, ParserError> {
    let (mut parser, mut ctx) = new_machine(spends, outputs, orchard);
    let mut offset = 0;
    for &n in chunks {
        let mut reader = ByteReader::new(&stream[offset..offset + n]);
        parser.process_message(&mut ctx, &mut reader)?;
        offset += n;
    }
    assert_eq!(offset, stream.len());
    assert_eq!(parser.state, ParserState::ProcessExtra);
    Ok(ctx.hashers.finalize_sapling())
}

/// A transaction with no spends and one output, as one byte stream:
/// balance, compact region, memo, non-compact region.
fn one_output_stream(balance: i64) -> (Vec<u8>, Vec<u8>, Vec<u8>, Vec<u8>) {
    let compact = pattern(116, 3);
    let memo = pattern(512, 5);
    let non_compact = pattern(128, 7);
    let mut stream = Vec::new();
    stream.extend_from_slice(&balance.to_le_bytes());
    stream.extend_from_slice(&compact);
    stream.extend_from_slice(&memo);
    stream.extend_from_slice(&non_compact);
    (stream, compact, memo, non_compact)
}

/// Pool digest of the one-output transaction, composed independently of
/// the library, following the transaction-digest tree order.
fn one_output_expected(balance: i64, compact: &[u8], memo: &[u8], non_compact: &[u8]) -> Vec<u8> {
    let empty_spends = b2(PERSO_SPENDS).finalize();

    let mut c = b2(PERSO_OUTPUTS_COMPACT);
    c.update(compact);
    let mut m = b2(PERSO_OUTPUTS_MEMO);
    m.update(memo);
    let mut n = b2(PERSO_OUTPUTS_NONCOMPACT);
    n.update(non_compact);

    let mut outputs = b2(PERSO_OUTPUTS);
    outputs.update(c.finalize().as_bytes());
    outputs.update(m.finalize().as_bytes());
    outputs.update(n.finalize().as_bytes());

    let mut pool = b2(PERSO_SAPLING);
    pool.update(empty_spends.as_bytes());
    pool.update(outputs.finalize().as_bytes());
    pool.update(&balance.to_le_bytes());
    pool.finalize().as_bytes().to_vec()
}

#[test]
fn known_vector_one_output() {
    let balance = 123_456_789i64;
    let (stream, compact, memo, non_compact) = one_output_stream(balance);
    let digest = run_chunked(0, 1, 0, &stream, &[stream.len()]).unwrap();
    // Reference value precomputed with an independent BLAKE2b
    // implementation, following the transaction-digest tree order.
    let reference =
        from_hex("f5dd421d89a3966a26b8b13668189f08335c862367e1862fd4dcd6334cd674f4");
    assert_eq!(digest, reference);
    // Cross-check of the tree composition against blake2b_simd itself.
    let expected = one_output_expected(balance, &compact, &memo, &non_compact);
    assert_eq!(digest, expected);
}

#[test]
fn chunking_invariance_one_output() {
    let balance = -42i64;
    let (stream, _, _, _) = one_output_stream(balance);
    // 8 + 116 + 512 + 128 = 764 bytes in all.
    let whole = run_chunked(0, 1, 0, &stream, &[764]).unwrap();
    // Split at phase boundaries.
    let a = run_chunked(0, 1, 0, &stream, &[8, 116, 512, 128]).unwrap();
    // Split arbitrarily inside the memo stream.
    let b = run_chunked(0, 1, 0, &stream, &[8, 116, 128, 128, 128, 128, 128]).unwrap();
    let c = run_chunked(0, 1, 0, &stream, &[124, 100, 412, 128]).unwrap();
    // Header and compact region in one chunk, the rest in another.
    let d = run_chunked(0, 1, 0, &stream, &[124, 640]).unwrap();
    assert_eq!(whole, a);
    assert_eq!(whole, b);
    assert_eq!(whole, c);
    assert_eq!(whole, d);
}

#[test]
fn chunking_split_inside_compact_region_fails() {
    let (stream, _, _, _) = one_output_stream(7);
    let (mut parser, mut ctx) = new_machine(0, 1, 0);
    // First message: the balance and only 115 of the 116 compact bytes.
    let mut reader = ByteReader::new(&stream[..8 + 115]);
    let r = parser.process_message(&mut ctx, &mut reader);
    assert_eq!(r, Err(ParserError::InsufficientData));
}

#[test]
fn truncated_compact_output_leaves_state_unchanged() {
    let (stream, compact, _, _) = one_output_stream(7);
    let (mut parser, mut ctx) = new_machine(0, 1, 0);
    // Header alone: consumes the 8 balance bytes and stops cleanly.
    let mut reader = ByteReader::new(&stream[..8]);
    parser.process_message(&mut ctx, &mut reader).unwrap();
    assert_eq!(parser.state, ParserState::ProcessSaplingOutputsCompact);

    let digest_before = ctx.hashers.tx_compact_hasher.finalize();
    let mut short_reader = ByteReader::new(&compact[..115]);
    let r = parser.parse_sapling_outputs_compact(&mut ctx, &mut short_reader);
    assert_eq!(r, Err(ParserError::InsufficientData));
    assert_eq!(parser.state, ParserState::ProcessSaplingOutputsCompact);
    assert_eq!(parser.sapling_output_parsed_count, 0);
    assert_eq!(short_reader.remaining_len(), 115);
    // No partial accumulator update for the atomic region.
    let digest_after = ctx.hashers.tx_compact_hasher.finalize();
    assert_eq!(digest_before.as_bytes(), digest_after.as_bytes());
}

#[test]
fn empty_spends_digest_constant_across_output_counts() {
    // Two transactions with zero spends and different output counts
    // contribute the same empty-spends digest: after the header phase the
    // pool accumulators agree, whatever the output count.
    let balance = 9i64;
    let mut stream = Vec::new();
    stream.extend_from_slice(&balance.to_le_bytes());

    let (mut p1, mut ctx1) = new_machine(0, 1, 0);
    let mut r1 = ByteReader::new(&stream);
    p1.parse_sapling(&mut ctx1, &mut r1).unwrap();

    let (mut p2, mut ctx2) = new_machine(0, 200, 0);
    let mut r2 = ByteReader::new(&stream);
    p2.parse_sapling(&mut ctx2, &mut r2).unwrap();

    let d1 = ctx1.hashers.finalize_sapling();
    let d2 = ctx2.hashers.finalize_sapling();
    assert_eq!(d1, d2);

    // And the contribution is exactly finalize(init(spends tag)) with no
    // updates; both digests precomputed with an independent BLAKE2b
    // implementation.
    let empty_spends =
        from_hex("d79c8dcb8af46bd80fe3bcdc0e5d0ed7344d5f48cbeff3c94b13d40a2305f84d");
    assert_eq!(b2(PERSO_SPENDS).finalize().as_bytes(), &empty_spends[..]);
    assert_eq!(
        d1,
        from_hex("7cde7c5a97bdd9114b2766318bd78d705f1e9c331ee63400b066ae44c0022ac8")
    );
    let mut pool = b2(PERSO_SAPLING);
    pool.update(&empty_spends);
    assert_eq!(d1, pool.finalize().as_bytes().to_vec());
}

fn one_spend_stream(balance: i64, anchor: &[u8; 32]) -> (Vec<u8>, Vec<u8>, Vec<u8>, Vec<u8>) {
    let cv = pattern(32, 11);
    let nullifier = pattern(32, 13);
    let rk = pattern(32, 17);
    let mut stream = Vec::new();
    stream.extend_from_slice(&balance.to_le_bytes());
    stream.extend_from_slice(anchor);
    stream.extend_from_slice(&cv);
    stream.extend_from_slice(&nullifier);
    stream.extend_from_slice(&rk);
    (stream, cv, nullifier, rk)
}

#[test]
fn known_vector_one_spend_no_outputs() {
    let balance = 55i64;
    let anchor = [0xa5u8; 32];
    let (stream, cv, nullifier, rk) = one_spend_stream(balance, &anchor);

    let digest = run_chunked(1, 0, 0, &stream, &[stream.len()]).unwrap();

    let mut compact = b2(PERSO_SPENDS_COMPACT);
    compact.update(&nullifier);
    let mut non_compact = b2(PERSO_SPENDS_NONCOMPACT);
    non_compact.update(&cv);
    non_compact.update(&anchor);
    non_compact.update(&rk);
    let mut spends = b2(PERSO_SPENDS);
    spends.update(compact.finalize().as_bytes());
    spends.update(non_compact.finalize().as_bytes());
    let mut pool = b2(PERSO_SAPLING);
    pool.update(spends.finalize().as_bytes());
    // No outputs: the machine hands over right after the spends tree;
    // the outputs tree and the balance are contributed only by the
    // output-hashing phase, which zero outputs never reach.
    assert_eq!(digest, pool.finalize().as_bytes().to_vec());
    // Reference value precomputed with an independent BLAKE2b
    // implementation.
    let reference =
        from_hex("891dcc1275d2ce74358477a31130dd54e534798055a3aec15f512ffdb16b71fa");
    assert_eq!(digest, reference);
}

#[test]
fn spends_split_across_messages() {
    let balance = 55i64;
    let anchor = [0x5au8; 32];
    let (stream, _, _, _) = one_spend_stream(balance, &anchor);
    // 8 + 32 + 96 = 136 bytes; split between the header and the spend,
    // and also inside the spend at its 32-byte field boundaries.
    let whole = run_chunked(1, 0, 0, &stream, &[136]).unwrap();
    let split = run_chunked(1, 0, 0, &stream, &[40, 96]).unwrap();
    let mid_spend = run_chunked(1, 0, 0, &stream, &[72, 64]).unwrap();
    let per_field = run_chunked(1, 0, 0, &stream, &[40, 32, 32, 32]).unwrap();
    assert_eq!(whole, split);
    assert_eq!(whole, mid_spend);
    assert_eq!(whole, per_field);
}

#[test]
fn spend_resumes_at_recorded_field() {
    let balance = 55i64;
    let anchor = [0x5au8; 32];
    let (stream, _, _, _) = one_spend_stream(balance, &anchor);
    let (mut parser, mut ctx) = new_machine(1, 0, 0);
    // Header, anchor and the value commitment: the message ends at a
    // field boundary, so the machine stops cleanly, remembering that
    // the same spend resumes at its second field.
    let mut reader = ByteReader::new(&stream[..72]);
    parser.process_message(&mut ctx, &mut reader).unwrap();
    assert_eq!(
        parser.state,
        ParserState::ProcessSaplingSpends { next_field: 1 }
    );
    assert_eq!(parser.sapling_spend_parsed_count, 0);
    // The rest of the spend completes it; with no outputs the machine
    // then runs the hashing phase and hands over in the same message.
    let mut reader = ByteReader::new(&stream[72..]);
    parser.process_message(&mut ctx, &mut reader).unwrap();
    assert_eq!(parser.sapling_spend_parsed_count, 1);
    assert_eq!(parser.state, ParserState::ProcessExtra);
}

#[test]
fn spend_split_inside_field_fails() {
    let balance = 55i64;
    let anchor = [0x5au8; 32];
    let (stream, _, _, _) = one_spend_stream(balance, &anchor);
    let (mut parser, mut ctx) = new_machine(1, 0, 0);
    // The message ends 16 bytes into the value commitment.
    let mut reader = ByteReader::new(&stream[..56]);
    let r = parser.process_message(&mut ctx, &mut reader);
    assert_eq!(r, Err(ParserError::InsufficientData));
}

#[test]
fn spend_order_sensitivity() {
    // Swapping the value commitment and the anchor in the non-compact
    // update changes the digest.
    let anchor = [1u8; 32];
    let cv = [2u8; 32];
    let rk = [3u8; 32];
    let mut in_order = b2(PERSO_SPENDS_NONCOMPACT);
    in_order.update(&cv);
    in_order.update(&anchor);
    in_order.update(&rk);
    let mut swapped = b2(PERSO_SPENDS_NONCOMPACT);
    swapped.update(&anchor);
    swapped.update(&cv);
    swapped.update(&rk);
    assert_ne!(in_order.finalize().as_bytes(), swapped.finalize().as_bytes());
}

#[test]
fn counter_transitions_exactly_at_totals() {
    let balance = 1i64;
    let anchor = [9u8; 32];
    let cv = pattern(32, 1);
    let nullifier = pattern(32, 2);
    let rk = pattern(32, 3);
    let mut spend = Vec::new();
    spend.extend_from_slice(&cv);
    spend.extend_from_slice(&nullifier);
    spend.extend_from_slice(&rk);

    let (mut parser, mut ctx) = new_machine(2, 0, 0);
    let mut header = Vec::new();
    header.extend_from_slice(&balance.to_le_bytes());
    header.extend_from_slice(&anchor);
    let mut r = ByteReader::new(&header);
    parser.process_message(&mut ctx, &mut r).unwrap();
    assert_eq!(
        parser.state,
        ParserState::ProcessSaplingSpends { next_field: 0 }
    );
    assert_eq!(parser.sapling_spend_parsed_count, 0);

    // First spend: still below the total, no transition.
    let mut r = ByteReader::new(&spend);
    parser.parse_sapling_spends(&mut ctx, &mut r, 0).unwrap();
    assert_eq!(parser.sapling_spend_parsed_count, 1);
    assert_eq!(
        parser.state,
        ParserState::ProcessSaplingSpends { next_field: 0 }
    );

    // Second spend: reaches the total, transitions exactly now.
    let mut r = ByteReader::new(&spend);
    parser.parse_sapling_spends(&mut ctx, &mut r, 0).unwrap();
    assert_eq!(parser.sapling_spend_parsed_count, 2);
    assert_eq!(parser.state, ParserState::ProcessSaplingSpendsHashing);
}

#[test]
fn memo_remaining_size_decreases_to_zero() {
    let (stream, _, _, _) = one_output_stream(0);
    let (mut parser, mut ctx) = new_machine(0, 1, 0);
    // Header and compact region.
    let mut r = ByteReader::new(&stream[..124]);
    parser.process_message(&mut ctx, &mut r).unwrap();
    assert_eq!(
        parser.state,
        ParserState::ProcessSaplingOutputsMemo { size: 512, remaining_size: 512 }
    );

    // 100 memo bytes: the owed size drops by exactly 100.
    let mut r = ByteReader::new(&stream[124..224]);
    parser.process_message(&mut ctx, &mut r).unwrap();
    assert_eq!(
        parser.state,
        ParserState::ProcessSaplingOutputsMemo { size: 512, remaining_size: 412 }
    );

    // The remaining 412 memo bytes: the owed size reaches exactly zero
    // and the machine moves on, resetting the parsed output counter.
    let mut r = ByteReader::new(&stream[224..636]);
    parser.process_message(&mut ctx, &mut r).unwrap();
    assert_eq!(parser.state, ParserState::ProcessSaplingOutputsNonCompact);
    assert_eq!(parser.sapling_output_parsed_count, 0);
}

#[test]
fn orchard_actions_unsupported() {
    let (stream, _, _, _) = one_output_stream(3);
    let r = run_chunked(0, 1, 5, &stream, &[stream.len()]);
    assert_eq!(r, Err(ParserError::UnsupportedBranch));
}

#[test]
fn header_insufficient_data() {
    let (mut parser, mut ctx) = new_machine(0, 1, 0);
    let mut reader = ByteReader::new(&[0u8; 7]);
    let r = parser.parse_sapling(&mut ctx, &mut reader);
    assert_eq!(r, Err(ParserError::InsufficientData));
    assert_eq!(parser.state, ParserState::ProcessSaplingHeader);
}

#[test]
fn header_balance_out_of_range() {
    let (mut parser, mut ctx) = new_machine(0, 1, 0);
    // i64::MAX is far outside the monetary range.
    let bytes = i64::MAX.to_le_bytes();
    let mut reader = ByteReader::new(&bytes);
    let r = parser.parse_sapling(&mut ctx, &mut reader);
    assert_eq!(r, Err(ParserError::MalformedValue));
}

#[test]
fn header_missing_anchor() {
    let (mut parser, mut ctx) = new_machine(1, 0, 0);
    // Balance present, anchor truncated.
    let mut bytes = vec![0u8; 8];
    bytes.extend_from_slice(&[1u8; 20]);
    let mut reader = ByteReader::new(&bytes);
    let r = parser.parse_sapling(&mut ctx, &mut reader);
    assert_eq!(r, Err(ParserError::InsufficientData));
    assert_eq!(parser.state, ParserState::ProcessSaplingHeader);
}

#[test]
fn header_no_spends_no_outputs_hands_over() {
    let (mut parser, mut ctx) = new_machine(0, 0, 0);
    let bytes = 77i64.to_le_bytes();
    let mut reader = ByteReader::new(&bytes);
    parser.parse_sapling(&mut ctx, &mut reader).unwrap();
    assert_eq!(parser.state, ParserState::ProcessExtra);
    assert_eq!(parser.sapling_balance, 77);
    assert_eq!(reader.remaining_len(), 0);
}
