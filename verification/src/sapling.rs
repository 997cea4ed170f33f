//! The incremental Sapling transaction-digest state machine.
//!
//! The parser consumes transaction bytes as they arrive across many
//! messages. Each phase handler advances as far as the available bytes
//! allow and returns, leaving behind an updated [`ParserState`] and
//! updated hash accumulators, so that the next message resumes exactly
//! where the previous one stopped. Phases run strictly forward; a phase
//! interrupted by a message boundary is re-entered with reduced embedded
//! counters, never revisited otherwise.

use vstd::bytes::{spec_u64_from_le_bytes, spec_u64_to_le_bytes, u64_from_le_bytes, u64_to_le_bytes};
use vstd::prelude::*;
use vstd::slice::slice_subrange;

use crate::balance::{balance_in_range, decode_balance, signed_of};
use crate::error::ParserError;
use crate::hashing::{
    blake2b256, blake2b_absorbed, blake2b_finalize, blake2b_init, blake2b_perso, blake2b_update,
    blake2b_valid,
};
use crate::reader::ByteReader;

verus! {

/// Tag `ZTxIdSaplingHash`: the pool-level accumulator.
pub const PERSO_SAPLING: [u8; 16] = [
    0x5a,
    0x54,
    0x78,
    0x49,
    0x64,
    0x53,
    0x61,
    0x70,
    0x6c,
    0x69,
    0x6e,
    0x67,
    0x48,
    0x61,
    0x73,
    0x68,
];

/// Tag `ZTxIdSSpendsHash`: the combined spends digest.
pub const PERSO_SAPLING_SPENDS: [u8; 16] = [
    0x5a,
    0x54,
    0x78,
    0x49,
    0x64,
    0x53,
    0x53,
    0x70,
    0x65,
    0x6e,
    0x64,
    0x73,
    0x48,
    0x61,
    0x73,
    0x68,
];

/// Tag `ZTxIdSSpendCHash`: the compact region of the spends.
pub const PERSO_SAPLING_SPENDS_COMPACT: [u8; 16] = [
    0x5a,
    0x54,
    0x78,
    0x49,
    0x64,
    0x53,
    0x53,
    0x70,
    0x65,
    0x6e,
    0x64,
    0x43,
    0x48,
    0x61,
    0x73,
    0x68,
];

/// Tag `ZTxIdSSpendNHash`: the non-compact region of the spends.
pub const PERSO_SAPLING_SPENDS_NONCOMPACT: [u8; 16] = [
    0x5a,
    0x54,
    0x78,
    0x49,
    0x64,
    0x53,
    0x53,
    0x70,
    0x65,
    0x6e,
    0x64,
    0x4e,
    0x48,
    0x61,
    0x73,
    0x68,
];

/// Tag `ZTxIdSOutputHash`: the combined outputs digest.
pub const PERSO_SAPLING_OUTPUTS: [u8; 16] = [
    0x5a,
    0x54,
    0x78,
    0x49,
    0x64,
    0x53,
    0x4f,
    0x75,
    0x74,
    0x70,
    0x75,
    0x74,
    0x48,
    0x61,
    0x73,
    0x68,
];

/// Tag `ZTxIdSOutC__Hash`: the compact region of the outputs.
pub const PERSO_SAPLING_OUTPUTS_COMPACT: [u8; 16] = [
    0x5a,
    0x54,
    0x78,
    0x49,
    0x64,
    0x53,
    0x4f,
    0x75,
    0x74,
    0x43,
    0x5f,
    0x5f,
    0x48,
    0x61,
    0x73,
    0x68,
];

/// Tag `ZTxIdSOutM__Hash`: the memo stream of the outputs.
pub const PERSO_SAPLING_OUTPUTS_MEMO: [u8; 16] = [
    0x5a,
    0x54,
    0x78,
    0x49,
    0x64,
    0x53,
    0x4f,
    0x75,
    0x74,
    0x4d,
    0x5f,
    0x5f,
    0x48,
    0x61,
    0x73,
    0x68,
];

/// Tag `ZTxIdSOutN__Hash`: the non-compact region of the outputs.
pub const PERSO_SAPLING_OUTPUTS_NONCOMPACT: [u8; 16] = [
    0x5a,
    0x54,
    0x78,
    0x49,
    0x64,
    0x53,
    0x4f,
    0x75,
    0x74,
    0x4e,
    0x5f,
    0x5f,
    0x48,
    0x61,
    0x73,
    0x68,
];

/// Bytes of one output's compact region: note commitment (32), ephemeral
/// key (32) and ciphertext prefix (52).
pub const OUTPUT_COMPACT_SIZE: usize = 116;

/// Bytes of one output's non-compact region: value commitment (32), a
/// 16-byte field and the ciphertext suffix (80).
pub const OUTPUT_NON_COMPACT_SIZE: usize = 128;

/// Bytes of one output's memo field.
pub const MEMO_SIZE: usize = 512;

/// The digest contributed for the spends tree when a transaction has no
/// spends: a fresh accumulator under the spends tag, finalized with
/// nothing absorbed. It does not depend on the output count.
pub open spec fn empty_spends_digest() -> Seq<u8> {
    blake2b256(PERSO_SAPLING_SPENDS@, Seq::<u8>::empty())
}

/// The current phase of the state machine. Transitions are strictly
/// forward; within-phase re-entry caused by message boundaries keeps the
/// same variant with updated embedded counters.
#[derive(Clone, Copy, Debug, PartialEq, Eq, Structural)]
pub enum ParserState {
    ProcessSaplingHeader,
    ProcessSaplingSpends { next_field: u8 },
    ProcessSaplingSpendsHashing,
    ProcessSaplingOutputsCompact,
    ProcessSaplingOutputsMemo { size: usize, remaining_size: usize },
    ProcessSaplingOutputsNonCompact,
    ProcessSaplingOutputHashing,
    ProcessExtra,
}

/// The personalized hash accumulators owned by one signing operation:
/// one per logical hash tree, plus the pool-level accumulator that the
/// per-tree digests feed into.
pub struct Hashers {
    pub tx_compact_hasher: blake2b_simd::State,
    pub tx_non_compact_hasher: blake2b_simd::State,
    pub tx_memo_hasher: blake2b_simd::State,
    pub sapling_hasher: blake2b_simd::State,
}

impl Hashers {
    /// A fresh bundle: the pool-level accumulator starts under the
    /// Sapling tag with nothing absorbed; the per-tree accumulators are
    /// given their tags by the phase that first feeds them.
    pub fn new() -> (h: Hashers)
        ensures
            blake2b_valid(h.tx_compact_hasher),
            blake2b_valid(h.tx_non_compact_hasher),
            blake2b_valid(h.tx_memo_hasher),
            blake2b_valid(h.sapling_hasher),
            blake2b_perso(h.sapling_hasher) == PERSO_SAPLING@,
            blake2b_absorbed(h.sapling_hasher) == Seq::<u8>::empty(),
    {
        Hashers {
            tx_compact_hasher: blake2b_init(&PERSO_SAPLING_SPENDS_COMPACT),
            tx_non_compact_hasher: blake2b_init(&PERSO_SAPLING_SPENDS_NONCOMPACT),
            tx_memo_hasher: blake2b_init(&PERSO_SAPLING_OUTPUTS_MEMO),
            sapling_hasher: blake2b_init(&PERSO_SAPLING),
        }
    }

    /// Finalizes the pool-level accumulator: the digest handed to the
    /// next bundle up. The accumulator must be one this engine
    /// configured, as every bundle from [`Hashers::new`] is.
    pub fn finalize_sapling(&self) -> (digest: Vec<u8>)
        requires
            blake2b_valid(self.sapling_hasher),
        ensures
            digest@ == blake2b256(
                blake2b_perso(self.sapling_hasher),
                blake2b_absorbed(self.sapling_hasher),
            ),
            digest@.len() == 32,
    {
        blake2b_finalize(&self.sapling_hasher)
    }
}

/// Context threaded by reference through every message-handling call.
pub struct ParserCtx {
    pub hashers: Hashers,
}

/// The transaction-digest state machine: transient counters, the running
/// pool balance, the anchor, and the current phase.
pub struct Parser {
    pub state: ParserState,
    pub sapling_spend_count: usize,
    pub sapling_output_count: usize,
    pub orchard_action_count: usize,
    pub sapling_spend_parsed_count: usize,
    pub sapling_output_parsed_count: usize,
    pub sapling_balance: i64,
    pub sapling_balance_raw: u64,
    pub sapling_anchor: Vec<u8>,
}

impl Parser {
    /// Counter and phase invariants: a parsed count never exceeds its
    /// total; each phase pins the counters that drive its transition.
    pub open spec fn wf(&self) -> bool {
        &&& self.sapling_anchor@.len() == 32
        &&& self.sapling_output_count <= usize::MAX / 512
        &&& self.sapling_spend_parsed_count <= self.sapling_spend_count
        &&& self.sapling_output_parsed_count <= self.sapling_output_count
        &&& self.sapling_balance as int == signed_of(self.sapling_balance_raw)
        &&& match self.state {
            ParserState::ProcessSaplingHeader => {
                &&& self.sapling_spend_parsed_count == 0
                &&& self.sapling_output_parsed_count == 0
            },
            ParserState::ProcessSaplingSpends { next_field } => {
                &&& next_field < 3
                &&& self.sapling_spend_parsed_count < self.sapling_spend_count
                &&& self.sapling_output_parsed_count == 0
            },
            ParserState::ProcessSaplingSpendsHashing => {
                &&& self.sapling_spend_parsed_count == self.sapling_spend_count
                &&& self.sapling_output_parsed_count == 0
            },
            ParserState::ProcessSaplingOutputsCompact => {
                self.sapling_output_parsed_count < self.sapling_output_count
            },
            ParserState::ProcessSaplingOutputsMemo { size, remaining_size } => {
                &&& size == self.sapling_output_count * 512
                &&& 0 < remaining_size <= size
                &&& self.sapling_output_parsed_count == self.sapling_output_count
            },
            ParserState::ProcessSaplingOutputsNonCompact => {
                self.sapling_output_parsed_count < self.sapling_output_count
            },
            ParserState::ProcessSaplingOutputHashing => {
                self.sapling_output_parsed_count == self.sapling_output_count
            },
            ParserState::ProcessExtra => true,
        }
    }

    /// A fresh state machine for one transaction, given the item counts
    /// read earlier in the stream.
    pub fn new(
        sapling_spend_count: usize,
        sapling_output_count: usize,
        orchard_action_count: usize,
    ) -> (p: Parser)
        requires
            sapling_output_count <= usize::MAX / 512,
        ensures
            p.wf(),
            p.state == ParserState::ProcessSaplingHeader,
            p.sapling_spend_count == sapling_spend_count,
            p.sapling_output_count == sapling_output_count,
            p.orchard_action_count == orchard_action_count,
            p.sapling_spend_parsed_count == 0,
            p.sapling_output_parsed_count == 0,
    {
        let anchor: Vec<u8> = vec![0u8; 32];
        Parser {
            state: ParserState::ProcessSaplingHeader,
            sapling_spend_count,
            sapling_output_count,
            orchard_action_count,
            sapling_spend_parsed_count: 0,
            sapling_output_parsed_count: 0,
            sapling_balance: 0,
            sapling_balance_raw: 0,
            sapling_anchor: anchor,
        }
    }
}

/// Which accumulators carry which personalization tag in each phase.
/// The pool-level accumulator keeps the Sapling tag throughout; a
/// per-tree accumulator carries its tag from the phase that initializes
/// it until the phase that finalizes it.
pub open spec fn hashers_wf(p: Parser, h: Hashers) -> bool {
    &&& blake2b_valid(h.tx_compact_hasher)
    &&& blake2b_valid(h.tx_non_compact_hasher)
    &&& blake2b_valid(h.tx_memo_hasher)
    &&& blake2b_valid(h.sapling_hasher)
    &&& blake2b_perso(h.sapling_hasher) == PERSO_SAPLING@
    &&& match p.state {
        ParserState::ProcessSaplingSpends { .. } => {
            &&& blake2b_perso(h.tx_compact_hasher) == PERSO_SAPLING_SPENDS_COMPACT@
            &&& blake2b_perso(h.tx_non_compact_hasher) == PERSO_SAPLING_SPENDS_NONCOMPACT@
        },
        ParserState::ProcessSaplingSpendsHashing => {
            &&& blake2b_perso(h.tx_compact_hasher) == PERSO_SAPLING_SPENDS_COMPACT@
            &&& blake2b_perso(h.tx_non_compact_hasher) == PERSO_SAPLING_SPENDS_NONCOMPACT@
        },
        ParserState::ProcessSaplingOutputsCompact => {
            blake2b_perso(h.tx_compact_hasher) == PERSO_SAPLING_OUTPUTS_COMPACT@
        },
        ParserState::ProcessSaplingOutputsMemo { .. } => {
            &&& blake2b_perso(h.tx_compact_hasher) == PERSO_SAPLING_OUTPUTS_COMPACT@
            &&& blake2b_perso(h.tx_memo_hasher) == PERSO_SAPLING_OUTPUTS_MEMO@
        },
        ParserState::ProcessSaplingOutputsNonCompact => {
            &&& blake2b_perso(h.tx_compact_hasher) == PERSO_SAPLING_OUTPUTS_COMPACT@
            &&& blake2b_perso(h.tx_memo_hasher) == PERSO_SAPLING_OUTPUTS_MEMO@
            &&& blake2b_perso(h.tx_non_compact_hasher) == PERSO_SAPLING_OUTPUTS_NONCOMPACT@
        },
        ParserState::ProcessSaplingOutputHashing => {
            &&& blake2b_perso(h.tx_compact_hasher) == PERSO_SAPLING_OUTPUTS_COMPACT@
            &&& blake2b_perso(h.tx_memo_hasher) == PERSO_SAPLING_OUTPUTS_MEMO@
            &&& blake2b_perso(h.tx_non_compact_hasher) == PERSO_SAPLING_OUTPUTS_NONCOMPACT@
        },
        _ => true,
    }
}

/// What one 32-byte wire field of a spend feeds to the non-compact
/// tree: the value commitment (field 0) is followed by the stored
/// anchor, the randomized key (field 2) stands alone, and the nullifier
/// (field 1) feeds the compact tree instead.
pub open spec fn spend_field_nc(field: int, bytes: Seq<u8>, anchor: Seq<u8>) -> Seq<u8> {
    if field == 0 {
        bytes + anchor
    } else if field == 2 {
        bytes
    } else {
        Seq::<u8>::empty()
    }
}

/// What one 32-byte wire field of a spend feeds to the compact tree.
pub open spec fn spend_field_c(field: int, bytes: Seq<u8>) -> Seq<u8> {
    if field == 1 {
        bytes
    } else {
        Seq::<u8>::empty()
    }
}

/// Non-compact absorption of `k` consecutive 32-byte wire fields of one
/// spend, starting at `field`, taken from the front of `rem`.
pub open spec fn spend_fields_nc(field: int, k: int, rem: Seq<u8>, anchor: Seq<u8>) -> Seq<u8>
    decreases k,
{
    if k <= 0 {
        Seq::<u8>::empty()
    } else {
        spend_field_nc(field, rem.take(32), anchor) + spend_fields_nc(
            field + 1,
            k - 1,
            rem.skip(32),
            anchor,
        )
    }
}

/// Compact absorption of `k` consecutive 32-byte wire fields of one
/// spend, starting at `field`, taken from the front of `rem`.
pub open spec fn spend_fields_c(field: int, k: int, rem: Seq<u8>) -> Seq<u8>
    decreases k,
{
    if k <= 0 {
        Seq::<u8>::empty()
    } else {
        spend_field_c(field, rem.take(32)) + spend_fields_c(field + 1, k - 1, rem.skip(32))
    }
}

/// Reading one more wire field extends both absorbed streams at the
/// back by that field's contribution.
proof fn lemma_spend_fields_snoc(field: int, k: int, rem: Seq<u8>, anchor: Seq<u8>)
    requires
        0 <= k,
        32 * (k + 1) <= rem.len(),
    ensures
        spend_fields_nc(field, k + 1, rem, anchor) == spend_fields_nc(field, k, rem, anchor)
            + spend_field_nc(field + k, rem.subrange(32 * k, 32 * k + 32), anchor),
        spend_fields_c(field, k + 1, rem) == spend_fields_c(field, k, rem) + spend_field_c(
            field + k,
            rem.subrange(32 * k, 32 * k + 32),
        ),
    decreases k,
{
    if k == 0 {
        assert(rem.take(32) =~= rem.subrange(0, 32));
        assert(spend_fields_nc(field + 1, 0, rem.skip(32), anchor) == Seq::<u8>::empty());
        assert(spend_fields_c(field + 1, 0, rem.skip(32)) == Seq::<u8>::empty());
        assert(spend_fields_nc(field, 1, rem, anchor) =~= spend_fields_nc(field, 0, rem, anchor)
            + spend_field_nc(field, rem.subrange(0, 32), anchor));
        assert(spend_fields_c(field, 1, rem) =~= spend_fields_c(field, 0, rem) + spend_field_c(
            field,
            rem.subrange(0, 32),
        ));
    } else {
        lemma_spend_fields_snoc(field + 1, k - 1, rem.skip(32), anchor);
        assert(rem.skip(32).subrange(32 * (k - 1), 32 * (k - 1) + 32) =~= rem.subrange(
            32 * k,
            32 * k + 32,
        ));
        assert(spend_fields_nc(field, k + 1, rem, anchor) == spend_field_nc(
            field,
            rem.take(32),
            anchor,
        ) + spend_fields_nc(field + 1, k, rem.skip(32), anchor));
        assert(spend_fields_nc(field, k, rem, anchor) == spend_field_nc(field, rem.take(32), anchor)
            + spend_fields_nc(field + 1, k - 1, rem.skip(32), anchor));
        assert(spend_fields_c(field, k + 1, rem) == spend_field_c(field, rem.take(32))
            + spend_fields_c(field + 1, k, rem.skip(32)));
        assert(spend_fields_c(field, k, rem) == spend_field_c(field, rem.take(32))
            + spend_fields_c(field + 1, k - 1, rem.skip(32)));
        assert(spend_fields_nc(field, k + 1, rem, anchor) =~= spend_fields_nc(
            field,
            k,
            rem,
            anchor,
        ) + spend_field_nc(field + k, rem.subrange(32 * k, 32 * k + 32), anchor));
        assert(spend_fields_c(field, k + 1, rem) =~= spend_fields_c(field, k, rem) + spend_field_c(
            field + k,
            rem.subrange(32 * k, 32 * k + 32),
        ));
    }
}

impl Parser {
    /// Sapling header phase: reads the 8-byte little-endian pool balance,
    /// then branches on the item counts. With spends present it reads the
    /// 32-byte anchor and starts the spend accumulators; with only
    /// outputs present it contributes the well-defined empty-spends
    /// digest to the pool accumulator and starts the compact output
    /// accumulator; with neither it hands over to the next bundle.
    pub fn parse_sapling(&mut self, ctx: &mut ParserCtx, reader: &mut ByteReader) -> (r: Result<
        (),
        ParserError,
    >)
        requires
            old(self).wf(),
            old(self).state == ParserState::ProcessSaplingHeader,
            hashers_wf(*old(self), old(ctx).hashers),
            old(reader).wf(),
        ensures
            final(self).wf(),
            hashers_wf(*final(self), final(ctx).hashers),
            final(reader).wf(),
            final(reader).all_bytes() == old(reader).all_bytes(),
            final(self).sapling_spend_count == old(self).sapling_spend_count,
            final(self).sapling_output_count == old(self).sapling_output_count,
            final(self).orchard_action_count == old(self).orchard_action_count,
            final(self).sapling_spend_parsed_count == 0,
            final(self).sapling_output_parsed_count == 0,
            match r {
                Ok(()) => {
                    let rem0 = old(reader).remaining();
                    &&& rem0.len() >= 8
                    &&& balance_in_range(signed_of(spec_u64_from_le_bytes(rem0.take(8))))
                    &&& final(self).sapling_balance_raw == spec_u64_from_le_bytes(rem0.take(8))
                    &&& if old(self).sapling_spend_count > 0 {
                        &&& rem0.len() >= 40
                        &&& final(reader).position() == old(reader).position() + 40
                        &&& final(self).sapling_anchor@ == rem0.subrange(8, 40)
                        &&& final(self).state == (ParserState::ProcessSaplingSpends {
                            next_field: 0,
                        })
                        &&& blake2b_absorbed(final(ctx).hashers.tx_compact_hasher)
                            == Seq::<u8>::empty()
                        &&& blake2b_absorbed(final(ctx).hashers.tx_non_compact_hasher)
                            == Seq::<u8>::empty()
                        &&& final(ctx).hashers.sapling_hasher == old(ctx).hashers.sapling_hasher
                        &&& final(ctx).hashers.tx_memo_hasher == old(ctx).hashers.tx_memo_hasher
                    } else if old(self).sapling_output_count > 0 {
                        &&& final(reader).position() == old(reader).position() + 8
                        &&& final(self).sapling_anchor == old(self).sapling_anchor
                        &&& final(self).state == ParserState::ProcessSaplingOutputsCompact
                        &&& blake2b_absorbed(final(ctx).hashers.sapling_hasher)
                            == blake2b_absorbed(old(ctx).hashers.sapling_hasher)
                            + empty_spends_digest()
                        &&& blake2b_absorbed(final(ctx).hashers.tx_compact_hasher)
                            == Seq::<u8>::empty()
                        &&& final(ctx).hashers.tx_memo_hasher == old(ctx).hashers.tx_memo_hasher
                        &&& final(ctx).hashers.tx_non_compact_hasher
                            == old(ctx).hashers.tx_non_compact_hasher
                    } else {
                        &&& final(reader).position() == old(reader).position() + 8
                        &&& final(self).sapling_anchor == old(self).sapling_anchor
                        &&& final(self).state == ParserState::ProcessExtra
                        &&& final(ctx).hashers == old(ctx).hashers
                    }
                },
                Err(e) => {
                    let rem0 = old(reader).remaining();
                    &&& final(self).state == old(self).state
                    &&& final(self).sapling_anchor == old(self).sapling_anchor
                    &&& final(ctx).hashers == old(ctx).hashers
                    &&& (e == ParserError::InsufficientData || e == ParserError::MalformedValue)
                    &&& (e == ParserError::MalformedValue <==> (rem0.len() >= 8
                        && !balance_in_range(signed_of(spec_u64_from_le_bytes(rem0.take(8))))))
                    &&& (e == ParserError::InsufficientData <==> (rem0.len() < 8 || (rem0.len()
                        >= 8 && balance_in_range(
                        signed_of(spec_u64_from_le_bytes(rem0.take(8))),
                    ) && old(self).sapling_spend_count > 0 && rem0.len() < 40)))
                },
            },
    {
        let bal_bytes = match reader.read_exact(8) {
            Ok(v) => v,
            Err(e) => {
                return Err(e);
            },
        };
        let bal = match decode_balance(bal_bytes.as_slice()) {
            Ok(v) => v,
            Err(e) => {
                return Err(e);
            },
        };
        self.sapling_balance = bal;
        self.sapling_balance_raw = u64_from_le_bytes(bal_bytes.as_slice());

        if self.sapling_spend_count > 0 {
            let anchor = match reader.read_exact(32) {
                Ok(v) => v,
                Err(e) => {
                    return Err(e);
                },
            };
            proof {
                assert(anchor@ =~= old(reader).remaining().subrange(8, 40));
            }
            self.sapling_anchor = anchor;
            ctx.hashers.tx_compact_hasher = blake2b_init(&PERSO_SAPLING_SPENDS_COMPACT);
            ctx.hashers.tx_non_compact_hasher = blake2b_init(&PERSO_SAPLING_SPENDS_NONCOMPACT);
            self.state = ParserState::ProcessSaplingSpends { next_field: 0 };
        } else if self.sapling_output_count > 0 {
            let tmp_spend_hasher = blake2b_init(&PERSO_SAPLING_SPENDS);
            let sapling_spend = blake2b_finalize(&tmp_spend_hasher);
            blake2b_update(&mut ctx.hashers.sapling_hasher, sapling_spend.as_slice());
            ctx.hashers.tx_compact_hasher = blake2b_init(&PERSO_SAPLING_OUTPUTS_COMPACT);
            self.state = ParserState::ProcessSaplingOutputsCompact;
        } else {
            self.state = ParserState::ProcessExtra;
        }

        Ok(())
    }

    /// Spends phase: per spend, three 32-byte wire fields in fixed
    /// order — the value commitment (followed by the stored anchor) into
    /// the non-compact tree, the nullifier into the compact tree, the
    /// randomized key into the non-compact tree. One call completes at
    /// most one spend; a message that ends at a field boundary stops
    /// cleanly, keeping the absorptions already made, and the next
    /// message resumes at the field recorded in the state. Only a
    /// message that ends inside a 32-byte field fails. Reaching the
    /// total spend count is the sole trigger of the transition to the
    /// hashing phase.
    pub fn parse_sapling_spends(
        &mut self,
        ctx: &mut ParserCtx,
        reader: &mut ByteReader,
        next_field: u8,
    ) -> (r: Result<(), ParserError>)
        requires
            old(self).wf(),
            old(self).state == (ParserState::ProcessSaplingSpends { next_field }),
            hashers_wf(*old(self), old(ctx).hashers),
            old(reader).wf(),
        ensures
            final(self).wf(),
            hashers_wf(*final(self), final(ctx).hashers),
            final(reader).wf(),
            final(reader).all_bytes() == old(reader).all_bytes(),
            final(self).sapling_spend_count == old(self).sapling_spend_count,
            final(self).sapling_output_count == old(self).sapling_output_count,
            final(self).orchard_action_count == old(self).orchard_action_count,
            final(self).sapling_output_parsed_count == old(self).sapling_output_parsed_count,
            final(self).sapling_balance == old(self).sapling_balance,
            final(self).sapling_balance_raw == old(self).sapling_balance_raw,
            final(self).sapling_anchor == old(self).sapling_anchor,
            final(ctx).hashers.sapling_hasher == old(ctx).hashers.sapling_hasher,
            final(ctx).hashers.tx_memo_hasher == old(ctx).hashers.tx_memo_hasher,
            ({
                let rem0 = old(reader).remaining();
                let want = 3 - next_field as int;
                let k = rem0.len() as int / 32;
                let done = if want <= k {
                    want
                } else {
                    k
                };
                &&& blake2b_absorbed(final(ctx).hashers.tx_non_compact_hasher)
                    == blake2b_absorbed(old(ctx).hashers.tx_non_compact_hasher) + spend_fields_nc(
                    next_field as int,
                    done,
                    rem0,
                    old(self).sapling_anchor@,
                )
                &&& blake2b_absorbed(final(ctx).hashers.tx_compact_hasher) == blake2b_absorbed(
                    old(ctx).hashers.tx_compact_hasher,
                ) + spend_fields_c(next_field as int, done, rem0)
                &&& final(reader).position() == old(reader).position() + 32 * done
                &&& match r {
                    Ok(()) => {
                        if rem0.len() >= 32 * want {
                            // the spend completed
                            &&& final(self).sapling_spend_parsed_count == old(
                                self,
                            ).sapling_spend_parsed_count + 1
                            &&& final(self).state == (if old(self).sapling_spend_parsed_count + 1
                                == old(self).sapling_spend_count {
                                ParserState::ProcessSaplingSpendsHashing
                            } else {
                                ParserState::ProcessSaplingSpends { next_field: 0 }
                            })
                        } else {
                            // message exhausted at a field boundary: the
                            // same spend resumes at its next field
                            &&& rem0.len() % 32 == 0
                            &&& final(self).sapling_spend_parsed_count == old(
                                self,
                            ).sapling_spend_parsed_count
                            &&& final(self).state == (ParserState::ProcessSaplingSpends {
                                next_field: (next_field + k) as u8,
                            })
                        }
                    },
                    Err(e) => {
                        &&& e == ParserError::InsufficientData
                        &&& rem0.len() % 32 != 0
                        &&& rem0.len() < 32 * want
                        &&& final(self).sapling_spend_parsed_count == old(
                            self,
                        ).sapling_spend_parsed_count
                        &&& final(self).state == (ParserState::ProcessSaplingSpends {
                            next_field: (next_field + k) as u8,
                        })
                    },
                }
            }),
    {
        let ghost rem0 = old(reader).remaining();
        let ghost anchor0 = self.sapling_anchor@;
        let mut field: u8 = next_field;

        while field < 3
            invariant
                self.wf(),
                next_field <= field <= 3,
                self.state == (ParserState::ProcessSaplingSpends { next_field }),
                self.sapling_spend_count == old(self).sapling_spend_count,
                self.sapling_output_count == old(self).sapling_output_count,
                self.orchard_action_count == old(self).orchard_action_count,
                self.sapling_spend_parsed_count == old(self).sapling_spend_parsed_count,
                self.sapling_output_parsed_count == old(self).sapling_output_parsed_count,
                self.sapling_balance == old(self).sapling_balance,
                self.sapling_balance_raw == old(self).sapling_balance_raw,
                self.sapling_anchor == old(self).sapling_anchor,
                anchor0 == self.sapling_anchor@,
                hashers_wf(*self, ctx.hashers),
                reader.wf(),
                old(reader).wf(),
                reader.all_bytes() == old(reader).all_bytes(),
                rem0 == old(reader).remaining(),
                rem0.len() == old(reader).all_bytes().len() - old(reader).position(),
                rem0.len() >= 32 * (field - next_field),
                reader.position() == old(reader).position() + 32 * (field - next_field),
                blake2b_absorbed(ctx.hashers.tx_non_compact_hasher) == blake2b_absorbed(
                    old(ctx).hashers.tx_non_compact_hasher,
                ) + spend_fields_nc(next_field as int, field - next_field, rem0, anchor0),
                blake2b_absorbed(ctx.hashers.tx_compact_hasher) == blake2b_absorbed(
                    old(ctx).hashers.tx_compact_hasher,
                ) + spend_fields_c(next_field as int, field - next_field, rem0),
                ctx.hashers.sapling_hasher == old(ctx).hashers.sapling_hasher,
                ctx.hashers.tx_memo_hasher == old(ctx).hashers.tx_memo_hasher,
            decreases 3 - field,
        {
            let ghost q = field - next_field;
            let ghost rem_here = reader.remaining();
            proof {
                assert(rem_here.len() == rem0.len() - 32 * q);
                assert forall|i: int| 0 <= i < rem_here.len() implies rem_here[i] == rem0.skip(
                    32 * q,
                )[i] by {
                    assert(rem_here[i] == reader.all_bytes()[reader.position() + i]);
                    assert(rem0.skip(32 * q)[i] == rem0[32 * q + i]);
                    assert(rem0[32 * q + i] == reader.all_bytes()[old(reader).position() + 32 * q
                        + i]);
                }
                assert(rem_here =~= rem0.skip(32 * q));
            }
            if reader.remaining_len() == 0 {
                // a field boundary and the message is exhausted: stop
                // cleanly, the next message resumes at this field
                self.state = ParserState::ProcessSaplingSpends { next_field: field };
                proof {
                    assert(rem_here.len() == rem0.len() - 32 * q);
                    assert(rem0.len() == 32 * q);
                    assert((32 * q) / 32 == q) by (nonlinear_arith)
                        requires
                            0 <= q,
                    ;
                    assert((32 * q) % 32 == 0int) by (nonlinear_arith)
                        requires
                            0 <= q,
                    ;
                }
                return Ok(());
            }
            let bytes = match reader.read_exact(32) {
                Ok(v) => v,
                Err(e) => {
                    // the message ends inside this 32-byte field
                    self.state = ParserState::ProcessSaplingSpends { next_field: field };
                    proof {
                        let r = rem0.len() - 32 * q;
                        assert(rem_here.len() == r);
                        assert(0 < r < 32);
                        assert((32 * q + r) / 32 == q) by (nonlinear_arith)
                            requires
                                0 <= q && 0 < r < 32,
                        ;
                        assert((32 * q + r) % 32 == r) by (nonlinear_arith)
                            requires
                                0 <= q && 0 < r < 32,
                        ;
                    }
                    return Err(e);
                },
            };
            proof {
                assert(rem_here.len() >= 32);
                assert(bytes@ =~= rem0.subrange(32 * q, 32 * q + 32));
            }
            if field == 0 {
                blake2b_update(&mut ctx.hashers.tx_non_compact_hasher, bytes.as_slice());
                blake2b_update(
                    &mut ctx.hashers.tx_non_compact_hasher,
                    self.sapling_anchor.as_slice(),
                );
            } else if field == 1 {
                blake2b_update(&mut ctx.hashers.tx_compact_hasher, bytes.as_slice());
            } else {
                blake2b_update(&mut ctx.hashers.tx_non_compact_hasher, bytes.as_slice());
            }
            proof {
                lemma_spend_fields_snoc(next_field as int, q, rem0, anchor0);
            }
            field = field + 1;
        }

        self.sapling_spend_parsed_count = self.sapling_spend_parsed_count + 1;
        if self.sapling_spend_count == self.sapling_spend_parsed_count {
            self.state = ParserState::ProcessSaplingSpendsHashing;
        } else {
            self.state = ParserState::ProcessSaplingSpends { next_field: 0 };
        }
        proof {
            let want = 3 - next_field as int;
            assert(rem0.len() >= 32 * want);
            assert(rem0.len() as int / 32 >= want) by (nonlinear_arith)
                requires
                    rem0.len() >= 32 * want && 0 <= want,
            ;
        }
        Ok(())
    }

    /// Spends-hashing phase: finalizes the compact and non-compact spend
    /// trees, combines the two digests under the spends tag, and feeds
    /// the result into the pool-level accumulator. Then, exactly as in
    /// the header's no-spends branch, outputs present start the compact
    /// output accumulator, otherwise the machine hands over to the next
    /// bundle.
    pub fn parse_sapling_spends_hashing(
        &mut self,
        ctx: &mut ParserCtx,
        reader: &mut ByteReader,
    ) -> (r: Result<(), ParserError>)
        requires
            old(self).wf(),
            old(self).state == ParserState::ProcessSaplingSpendsHashing,
            hashers_wf(*old(self), old(ctx).hashers),
            old(reader).wf(),
        ensures
            final(self).wf(),
            hashers_wf(*final(self), final(ctx).hashers),
            final(reader).wf(),
            *final(reader) == *old(reader),
            final(self).sapling_spend_count == old(self).sapling_spend_count,
            final(self).sapling_output_count == old(self).sapling_output_count,
            final(self).orchard_action_count == old(self).orchard_action_count,
            final(self).sapling_spend_parsed_count == old(self).sapling_spend_parsed_count,
            final(self).sapling_output_parsed_count == old(self).sapling_output_parsed_count,
            final(self).sapling_balance == old(self).sapling_balance,
            final(self).sapling_balance_raw == old(self).sapling_balance_raw,
            final(self).sapling_anchor == old(self).sapling_anchor,
            final(ctx).hashers.tx_memo_hasher == old(ctx).hashers.tx_memo_hasher,
            r is Ok,
            blake2b_absorbed(final(ctx).hashers.sapling_hasher) == blake2b_absorbed(
                old(ctx).hashers.sapling_hasher,
            ) + blake2b256(
                PERSO_SAPLING_SPENDS@,
                blake2b256(
                    PERSO_SAPLING_SPENDS_COMPACT@,
                    blake2b_absorbed(old(ctx).hashers.tx_compact_hasher),
                ) + blake2b256(
                    PERSO_SAPLING_SPENDS_NONCOMPACT@,
                    blake2b_absorbed(old(ctx).hashers.tx_non_compact_hasher),
                ),
            ),
            if old(self).sapling_output_count > 0 {
                &&& final(self).state == ParserState::ProcessSaplingOutputsCompact
                &&& blake2b_absorbed(final(ctx).hashers.tx_compact_hasher) == Seq::<u8>::empty()
            } else {
                final(self).state == ParserState::ProcessExtra
            },
    {
        let sapling_spend_compact_digest = blake2b_finalize(&ctx.hashers.tx_compact_hasher);
        let sapling_spend_non_compact_digest = blake2b_finalize(
            &ctx.hashers.tx_non_compact_hasher,
        );

        let mut tmp_spend_hasher = blake2b_init(&PERSO_SAPLING_SPENDS);
        blake2b_update(&mut tmp_spend_hasher, sapling_spend_compact_digest.as_slice());
        blake2b_update(&mut tmp_spend_hasher, sapling_spend_non_compact_digest.as_slice());
        let sapling_spend = blake2b_finalize(&tmp_spend_hasher);

        blake2b_update(&mut ctx.hashers.sapling_hasher, sapling_spend.as_slice());

        if self.sapling_output_count > 0 {
            ctx.hashers.tx_compact_hasher = blake2b_init(&PERSO_SAPLING_OUTPUTS_COMPACT);
            self.state = ParserState::ProcessSaplingOutputsCompact;
        } else {
            self.state = ParserState::ProcessExtra;
        }

        Ok(())
    }
}

/// How many memo bytes one call consumes: all that remain of the memo
/// stream, bounded by what the current message still holds.
pub open spec fn memo_consumed(remaining: int, avail: int) -> int {
    if avail < remaining {
        avail
    } else {
        remaining
    }
}

/// What the memo accumulator holds after one call that starts with
/// `abs` absorbed, `remaining` memo bytes owed, and `chunk` available.
pub open spec fn memo_absorb(abs: Seq<u8>, remaining: int, chunk: Seq<u8>) -> Seq<u8> {
    abs + chunk.take(memo_consumed(remaining, chunk.len() as int))
}

/// How many memo bytes stay owed after one call.
pub open spec fn memo_left(remaining: int, avail: int) -> int {
    remaining - memo_consumed(remaining, avail)
}

impl Parser {
    /// Compact output phase: one output's fixed 116-byte compact region
    /// per call, absorbed whole into the compact tree. The region is
    /// atomic by policy: a message holding fewer than 116 bytes fails
    /// the call with nothing consumed and nothing absorbed. Reaching the
    /// total output count starts the memo accumulator and carries the
    /// full memo size into the memo phase.
    pub fn parse_sapling_outputs_compact(
        &mut self,
        ctx: &mut ParserCtx,
        reader: &mut ByteReader,
    ) -> (r: Result<(), ParserError>)
        requires
            old(self).wf(),
            old(self).state == ParserState::ProcessSaplingOutputsCompact,
            hashers_wf(*old(self), old(ctx).hashers),
            old(reader).wf(),
        ensures
            final(self).wf(),
            hashers_wf(*final(self), final(ctx).hashers),
            final(reader).wf(),
            final(reader).all_bytes() == old(reader).all_bytes(),
            final(self).sapling_spend_count == old(self).sapling_spend_count,
            final(self).sapling_output_count == old(self).sapling_output_count,
            final(self).orchard_action_count == old(self).orchard_action_count,
            final(self).sapling_spend_parsed_count == old(self).sapling_spend_parsed_count,
            final(self).sapling_balance == old(self).sapling_balance,
            final(self).sapling_balance_raw == old(self).sapling_balance_raw,
            final(self).sapling_anchor == old(self).sapling_anchor,
            final(ctx).hashers.sapling_hasher == old(ctx).hashers.sapling_hasher,
            final(ctx).hashers.tx_non_compact_hasher == old(ctx).hashers.tx_non_compact_hasher,
            match r {
                Ok(()) => {
                    let rem0 = old(reader).remaining();
                    &&& rem0.len() >= OUTPUT_COMPACT_SIZE
                    &&& final(reader).position() == old(reader).position() + 116
                    &&& blake2b_absorbed(final(ctx).hashers.tx_compact_hasher) == blake2b_absorbed(
                        old(ctx).hashers.tx_compact_hasher,
                    ) + rem0.take(116)
                    &&& final(self).sapling_output_parsed_count == old(
                        self,
                    ).sapling_output_parsed_count + 1
                    &&& if final(self).sapling_output_parsed_count == old(
                        self,
                    ).sapling_output_count {
                        &&& final(self).state == (ParserState::ProcessSaplingOutputsMemo {
                            size: (old(self).sapling_output_count * 512) as usize,
                            remaining_size: (old(self).sapling_output_count * 512) as usize,
                        })
                        &&& blake2b_absorbed(final(ctx).hashers.tx_memo_hasher)
                            == Seq::<u8>::empty()
                    } else {
                        &&& final(self).state == ParserState::ProcessSaplingOutputsCompact
                        &&& final(ctx).hashers.tx_memo_hasher == old(ctx).hashers.tx_memo_hasher
                    }
                },
                Err(e) => {
                    &&& e == ParserError::InsufficientData
                    &&& old(reader).remaining().len() < OUTPUT_COMPACT_SIZE
                    &&& final(self).state == old(self).state
                    &&& final(self).sapling_output_parsed_count == old(
                        self,
                    ).sapling_output_parsed_count
                    &&& final(ctx).hashers == old(ctx).hashers
                    &&& final(reader).position() == old(reader).position()
                },
            },
    {
        let compact_chunk = match reader.read_exact(OUTPUT_COMPACT_SIZE) {
            Ok(v) => v,
            Err(e) => {
                return Err(e);
            },
        };
        blake2b_update(&mut ctx.hashers.tx_compact_hasher, compact_chunk.as_slice());

        self.sapling_output_parsed_count = self.sapling_output_parsed_count + 1;

        if self.sapling_output_count == self.sapling_output_parsed_count {
            ctx.hashers.tx_memo_hasher = blake2b_init(&PERSO_SAPLING_OUTPUTS_MEMO);
            proof {
                assert(self.sapling_output_count * 512 <= (usize::MAX / 512) * 512 <= usize::MAX)
                    by (nonlinear_arith)
                    requires
                        self.sapling_output_count <= usize::MAX / 512,
                ;
            }
            let memo_total = self.sapling_output_count * MEMO_SIZE;
            self.state = ParserState::ProcessSaplingOutputsMemo {
                size: memo_total,
                remaining_size: memo_total,
            };
        }

        Ok(())
    }

    /// Memo phase: the memo stream totals `output count * 512` bytes and
    /// may be chunked arbitrarily across messages. Each call absorbs
    /// `min(remaining_size, message remainder)` bytes into the memo tree
    /// and decreases the owed size by exactly that much; reaching zero
    /// starts the non-compact output accumulator and resets the parsed
    /// output counter for the next pass over the outputs.
    pub fn parse_sapling_outputs_memo(
        &mut self,
        ctx: &mut ParserCtx,
        reader: &mut ByteReader,
        size: usize,
        remaining_size: usize,
    ) -> (r: Result<(), ParserError>)
        requires
            old(self).wf(),
            old(self).state == (ParserState::ProcessSaplingOutputsMemo { size, remaining_size }),
            hashers_wf(*old(self), old(ctx).hashers),
            old(reader).wf(),
        ensures
            final(self).wf(),
            hashers_wf(*final(self), final(ctx).hashers),
            final(reader).wf(),
            final(reader).all_bytes() == old(reader).all_bytes(),
            final(self).sapling_spend_count == old(self).sapling_spend_count,
            final(self).sapling_output_count == old(self).sapling_output_count,
            final(self).orchard_action_count == old(self).orchard_action_count,
            final(self).sapling_spend_parsed_count == old(self).sapling_spend_parsed_count,
            final(self).sapling_balance == old(self).sapling_balance,
            final(self).sapling_balance_raw == old(self).sapling_balance_raw,
            final(self).sapling_anchor == old(self).sapling_anchor,
            final(ctx).hashers.sapling_hasher == old(ctx).hashers.sapling_hasher,
            final(ctx).hashers.tx_compact_hasher == old(ctx).hashers.tx_compact_hasher,
            r is Ok,
            ({
                let rem0 = old(reader).remaining();
                let consumed = memo_consumed(remaining_size as int, rem0.len() as int);
                &&& final(reader).position() == old(reader).position() + consumed
                &&& blake2b_absorbed(final(ctx).hashers.tx_memo_hasher) == memo_absorb(
                    blake2b_absorbed(old(ctx).hashers.tx_memo_hasher),
                    remaining_size as int,
                    rem0,
                )
                &&& if memo_left(remaining_size as int, rem0.len() as int) == 0 {
                    &&& final(self).state == ParserState::ProcessSaplingOutputsNonCompact
                    &&& final(self).sapling_output_parsed_count == 0
                    &&& blake2b_absorbed(final(ctx).hashers.tx_non_compact_hasher)
                        == Seq::<u8>::empty()
                } else {
                    &&& final(self).state == (ParserState::ProcessSaplingOutputsMemo {
                        size,
                        remaining_size: memo_left(
                            remaining_size as int,
                            rem0.len() as int,
                        ) as usize,
                    })
                    &&& final(self).sapling_output_parsed_count == old(
                        self,
                    ).sapling_output_parsed_count
                    &&& final(ctx).hashers.tx_non_compact_hasher == old(
                        ctx,
                    ).hashers.tx_non_compact_hasher
                }
            }),
    {
        let avail = reader.remaining_len();
        let to_read: usize = if remaining_size < avail {
            remaining_size
        } else {
            avail
        };
        let memo_data = slice_subrange(reader.remaining_slice(), 0, to_read);
        blake2b_update(&mut ctx.hashers.tx_memo_hasher, memo_data);
        match reader.advance(to_read) {
            Ok(()) => {},
            Err(_) => {
                proof {
                    assert(false);
                }
                return Err(ParserError::InsufficientData);
            },
        }
        let new_remaining_size = remaining_size - to_read;

        if new_remaining_size == 0 {
            ctx.hashers.tx_non_compact_hasher = blake2b_init(&PERSO_SAPLING_OUTPUTS_NONCOMPACT);
            self.sapling_output_parsed_count = 0;
            self.state = ParserState::ProcessSaplingOutputsNonCompact;
        } else {
            self.state = ParserState::ProcessSaplingOutputsMemo {
                size,
                remaining_size: new_remaining_size,
            };
        }

        Ok(())
    }

    /// Non-compact output phase: one output's fixed 128-byte non-compact
    /// region per call, absorbed whole into the non-compact tree; atomic
    /// by policy exactly like the compact region. Reaching the total
    /// output count moves to the final output-hashing phase.
    pub fn parse_sapling_outputs_non_compact(
        &mut self,
        ctx: &mut ParserCtx,
        reader: &mut ByteReader,
    ) -> (r: Result<(), ParserError>)
        requires
            old(self).wf(),
            old(self).state == ParserState::ProcessSaplingOutputsNonCompact,
            hashers_wf(*old(self), old(ctx).hashers),
            old(reader).wf(),
        ensures
            final(self).wf(),
            hashers_wf(*final(self), final(ctx).hashers),
            final(reader).wf(),
            final(reader).all_bytes() == old(reader).all_bytes(),
            final(self).sapling_spend_count == old(self).sapling_spend_count,
            final(self).sapling_output_count == old(self).sapling_output_count,
            final(self).orchard_action_count == old(self).orchard_action_count,
            final(self).sapling_spend_parsed_count == old(self).sapling_spend_parsed_count,
            final(self).sapling_balance == old(self).sapling_balance,
            final(self).sapling_balance_raw == old(self).sapling_balance_raw,
            final(self).sapling_anchor == old(self).sapling_anchor,
            final(ctx).hashers.sapling_hasher == old(ctx).hashers.sapling_hasher,
            final(ctx).hashers.tx_compact_hasher == old(ctx).hashers.tx_compact_hasher,
            final(ctx).hashers.tx_memo_hasher == old(ctx).hashers.tx_memo_hasher,
            match r {
                Ok(()) => {
                    let rem0 = old(reader).remaining();
                    &&& rem0.len() >= OUTPUT_NON_COMPACT_SIZE
                    &&& final(reader).position() == old(reader).position() + 128
                    &&& blake2b_absorbed(final(ctx).hashers.tx_non_compact_hasher)
                        == blake2b_absorbed(old(ctx).hashers.tx_non_compact_hasher) + rem0.take(128)
                    &&& final(self).sapling_output_parsed_count == old(
                        self,
                    ).sapling_output_parsed_count + 1
                    &&& final(self).state == (if final(self).sapling_output_parsed_count == old(
                        self,
                    ).sapling_output_count {
                        ParserState::ProcessSaplingOutputHashing
                    } else {
                        ParserState::ProcessSaplingOutputsNonCompact
                    })
                },
                Err(e) => {
                    &&& e == ParserError::InsufficientData
                    &&& old(reader).remaining().len() < OUTPUT_NON_COMPACT_SIZE
                    &&& final(self).state == old(self).state
                    &&& final(self).sapling_output_parsed_count == old(
                        self,
                    ).sapling_output_parsed_count
                    &&& final(ctx).hashers == old(ctx).hashers
                    &&& final(reader).position() == old(reader).position()
                },
            },
    {
        let non_compact_chunk = match reader.read_exact(OUTPUT_NON_COMPACT_SIZE) {
            Ok(v) => v,
            Err(e) => {
                return Err(e);
            },
        };
        blake2b_update(&mut ctx.hashers.tx_non_compact_hasher, non_compact_chunk.as_slice());

        self.sapling_output_parsed_count = self.sapling_output_parsed_count + 1;

        if self.sapling_output_count == self.sapling_output_parsed_count {
            self.state = ParserState::ProcessSaplingOutputHashing;
        }

        Ok(())
    }

    /// Output-hashing phase and pool closure: finalizes the compact,
    /// memo and non-compact output trees, combines the three digests
    /// under the outputs tag in that fixed order, and feeds the result
    /// followed by the little-endian pool balance into the pool-level
    /// accumulator. A nonzero orchard action count then routes into a
    /// phase this engine does not implement and fails; zero hands over
    /// to the next bundle.
    pub fn parse_sapling_output_hashing(
        &mut self,
        ctx: &mut ParserCtx,
        reader: &mut ByteReader,
    ) -> (r: Result<(), ParserError>)
        requires
            old(self).wf(),
            old(self).state == ParserState::ProcessSaplingOutputHashing,
            hashers_wf(*old(self), old(ctx).hashers),
            old(reader).wf(),
        ensures
            final(self).wf(),
            hashers_wf(*final(self), final(ctx).hashers),
            final(reader).wf(),
            *final(reader) == *old(reader),
            final(self).sapling_spend_count == old(self).sapling_spend_count,
            final(self).sapling_output_count == old(self).sapling_output_count,
            final(self).orchard_action_count == old(self).orchard_action_count,
            final(self).sapling_spend_parsed_count == old(self).sapling_spend_parsed_count,
            final(self).sapling_output_parsed_count == old(self).sapling_output_parsed_count,
            final(self).sapling_balance == old(self).sapling_balance,
            final(self).sapling_balance_raw == old(self).sapling_balance_raw,
            final(self).sapling_anchor == old(self).sapling_anchor,
            blake2b_absorbed(final(ctx).hashers.sapling_hasher) == blake2b_absorbed(
                old(ctx).hashers.sapling_hasher,
            ) + blake2b256(
                PERSO_SAPLING_OUTPUTS@,
                blake2b256(
                    PERSO_SAPLING_OUTPUTS_COMPACT@,
                    blake2b_absorbed(old(ctx).hashers.tx_compact_hasher),
                ) + blake2b256(
                    PERSO_SAPLING_OUTPUTS_MEMO@,
                    blake2b_absorbed(old(ctx).hashers.tx_memo_hasher),
                ) + blake2b256(
                    PERSO_SAPLING_OUTPUTS_NONCOMPACT@,
                    blake2b_absorbed(old(ctx).hashers.tx_non_compact_hasher),
                ),
            ) + spec_u64_to_le_bytes(old(self).sapling_balance_raw),
            r is Ok <==> old(self).orchard_action_count == 0,
            match r {
                Ok(()) => final(self).state == ParserState::ProcessExtra,
                Err(e) => {
                    &&& e == ParserError::UnsupportedBranch
                    &&& final(self).state == old(self).state
                },
            },
    {
        let sapling_output_compact_digest = blake2b_finalize(&ctx.hashers.tx_compact_hasher);
        let sapling_output_memo_digest = blake2b_finalize(&ctx.hashers.tx_memo_hasher);
        let sapling_output_non_compact_digest = blake2b_finalize(
            &ctx.hashers.tx_non_compact_hasher,
        );

        let mut tmp_output_hasher = blake2b_init(&PERSO_SAPLING_OUTPUTS);
        blake2b_update(&mut tmp_output_hasher, sapling_output_compact_digest.as_slice());
        blake2b_update(&mut tmp_output_hasher, sapling_output_memo_digest.as_slice());
        blake2b_update(&mut tmp_output_hasher, sapling_output_non_compact_digest.as_slice());
        let sapling_output = blake2b_finalize(&tmp_output_hasher);

        blake2b_update(&mut ctx.hashers.sapling_hasher, sapling_output.as_slice());
        let balance_bytes = u64_to_le_bytes(self.sapling_balance_raw);
        blake2b_update(&mut ctx.hashers.sapling_hasher, balance_bytes.as_slice());

        if self.orchard_action_count > 0 {
            return Err(ParserError::UnsupportedBranch);
        }
        self.state = ParserState::ProcessExtra;
        Ok(())
    }
}

/// How far along the fixed phase order a state stands: phases only ever
/// move to a lower rank.
pub open spec fn state_rank(s: ParserState) -> int {
    match s {
        ParserState::ProcessSaplingHeader => 7,
        ParserState::ProcessSaplingSpends { .. } => 6,
        ParserState::ProcessSaplingSpendsHashing => 5,
        ParserState::ProcessSaplingOutputsCompact => 4,
        ParserState::ProcessSaplingOutputsMemo { .. } => 3,
        ParserState::ProcessSaplingOutputsNonCompact => 2,
        ParserState::ProcessSaplingOutputHashing => 1,
        ParserState::ProcessExtra => 0,
    }
}

/// How much work is left inside a phase: items not yet parsed, or memo
/// bytes still owed.
pub open spec fn run_work(
    state: ParserState,
    spend_count: usize,
    output_count: usize,
    spend_parsed: usize,
    output_parsed: usize,
) -> int {
    match state {
        ParserState::ProcessSaplingSpends { .. } => spend_count - spend_parsed,
        ParserState::ProcessSaplingOutputsCompact => output_count - output_parsed,
        ParserState::ProcessSaplingOutputsMemo { remaining_size, .. } => remaining_size as int,
        ParserState::ProcessSaplingOutputsNonCompact => output_count - output_parsed,
        _ => 0,
    }
}

/// How much work is left inside the current phase.
pub open spec fn phase_work(p: Parser) -> int {
    run_work(
        p.state,
        p.sapling_spend_count,
        p.sapling_output_count,
        p.sapling_spend_parsed_count,
        p.sapling_output_parsed_count,
    )
}

/// What one message does to the machine, decided by the machine's
/// position and the message bytes alone: `Ok` when the machine hands
/// over to the next bundle or stops cleanly at a phase or field
/// boundary with the message exhausted, and the exact phase error
/// otherwise. [`Parser::process_message`] returns exactly this.
pub open spec fn sapling_run(
    state: ParserState,
    spend_count: usize,
    output_count: usize,
    orchard_count: usize,
    spend_parsed: usize,
    output_parsed: usize,
    rem: Seq<u8>,
) -> Result<(), ParserError>
    decreases
            state_rank(state),
            run_work(state, spend_count, output_count, spend_parsed, output_parsed),
            rem.len(),
{
    match state {
        ParserState::ProcessExtra => Ok(()),
        ParserState::ProcessSaplingHeader => {
            if rem.len() == 0 {
                Ok(())
            } else if rem.len() < 8 {
                Err(ParserError::InsufficientData)
            } else if !balance_in_range(signed_of(spec_u64_from_le_bytes(rem.take(8)))) {
                Err(ParserError::MalformedValue)
            } else if spend_count > 0 {
                if rem.len() < 40 {
                    Err(ParserError::InsufficientData)
                } else {
                    sapling_run(
                        ParserState::ProcessSaplingSpends { next_field: 0 },
                        spend_count,
                        output_count,
                        orchard_count,
                        spend_parsed,
                        output_parsed,
                        rem.skip(40),
                    )
                }
            } else if output_count > 0 {
                sapling_run(
                    ParserState::ProcessSaplingOutputsCompact,
                    spend_count,
                    output_count,
                    orchard_count,
                    spend_parsed,
                    output_parsed,
                    rem.skip(8),
                )
            } else {
                Ok(())
            }
        },
        ParserState::ProcessSaplingSpends { next_field } => {
            if spend_parsed >= spend_count {
                Ok(())
            } else if rem.len() == 0 {
                Ok(())
            } else {
                let want = 3 - next_field as int;
                if rem.len() >= 32 * want {
                    let st = if spend_parsed + 1 == spend_count {
                        ParserState::ProcessSaplingSpendsHashing
                    } else {
                        ParserState::ProcessSaplingSpends { next_field: 0 }
                    };
                    sapling_run(
                        st,
                        spend_count,
                        output_count,
                        orchard_count,
                        (spend_parsed + 1) as usize,
                        output_parsed,
                        rem.skip(32 * want),
                    )
                } else if rem.len() % 32 == 0 {
                    Ok(())
                } else {
                    Err(ParserError::InsufficientData)
                }
            }
        },
        ParserState::ProcessSaplingSpendsHashing => {
            if output_count > 0 {
                sapling_run(
                    ParserState::ProcessSaplingOutputsCompact,
                    spend_count,
                    output_count,
                    orchard_count,
                    spend_parsed,
                    output_parsed,
                    rem,
                )
            } else {
                Ok(())
            }
        },
        ParserState::ProcessSaplingOutputsCompact => {
            if output_parsed >= output_count {
                Ok(())
            } else if rem.len() == 0 {
                Ok(())
            } else if rem.len() < 116 {
                Err(ParserError::InsufficientData)
            } else {
                let st = if output_parsed + 1 == output_count {
                    ParserState::ProcessSaplingOutputsMemo {
                        size: (output_count * 512) as usize,
                        remaining_size: (output_count * 512) as usize,
                    }
                } else {
                    ParserState::ProcessSaplingOutputsCompact
                };
                sapling_run(
                    st,
                    spend_count,
                    output_count,
                    orchard_count,
                    spend_parsed,
                    (output_parsed + 1) as usize,
                    rem.skip(116),
                )
            }
        },
        ParserState::ProcessSaplingOutputsMemo { size, remaining_size } => {
            if rem.len() == 0 {
                Ok(())
            } else if memo_left(remaining_size as int, rem.len() as int) == 0 {
                sapling_run(
                    ParserState::ProcessSaplingOutputsNonCompact,
                    spend_count,
                    output_count,
                    orchard_count,
                    spend_parsed,
                    0,
                    rem.skip(memo_consumed(remaining_size as int, rem.len() as int)),
                )
            } else {
                Ok(())
            }
        },
        ParserState::ProcessSaplingOutputsNonCompact => {
            if output_parsed >= output_count {
                Ok(())
            } else if rem.len() == 0 {
                Ok(())
            } else if rem.len() < 128 {
                Err(ParserError::InsufficientData)
            } else {
                let st = if output_parsed + 1 == output_count {
                    ParserState::ProcessSaplingOutputHashing
                } else {
                    ParserState::ProcessSaplingOutputsNonCompact
                };
                sapling_run(
                    st,
                    spend_count,
                    output_count,
                    orchard_count,
                    spend_parsed,
                    (output_parsed + 1) as usize,
                    rem.skip(128),
                )
            }
        },
        ParserState::ProcessSaplingOutputHashing => {
            if orchard_count > 0 {
                Err(ParserError::UnsupportedBranch)
            } else {
                Ok(())
            }
        },
    }
}

/// Skipping `p + c` elements is skipping `p`, then `c` more.
proof fn lemma_skip_shift(s: Seq<u8>, p: int, c: int)
    requires
        0 <= p,
        0 <= c,
        p + c <= s.len(),
    ensures
        s.skip(p + c) == s.skip(p).skip(c),
{
    assert forall|i: int| 0 <= i < s.len() - (p + c) implies s.skip(p + c)[i] == s.skip(p).skip(
        c,
    )[i] by {
        assert(s.skip(p + c)[i] == s[p + c + i]);
        assert(s.skip(p).skip(c)[i] == s.skip(p)[c + i]);
        assert(s.skip(p)[c + i] == s[p + c + i]);
    }
    assert(s.skip(p + c) =~= s.skip(p).skip(c));
}

impl Parser {
    /// Dispatches on the current state and advances as far as the bytes
    /// of this message allow: zero, one or many whole fields. It returns
    /// when the machine has handed over to the next bundle, when the
    /// message is exhausted (the same phase state, with reduced embedded
    /// counters, resumes on the next message), or when a phase fails —
    /// which aborts the whole signing operation. The result is exactly
    /// [`sapling_run`] of the starting position and the message bytes.
    pub fn process_message(&mut self, ctx: &mut ParserCtx, reader: &mut ByteReader) -> (r: Result<
        (),
        ParserError,
    >)
        requires
            old(self).wf(),
            hashers_wf(*old(self), old(ctx).hashers),
            old(reader).wf(),
        ensures
            final(self).wf(),
            hashers_wf(*final(self), final(ctx).hashers),
            final(reader).wf(),
            final(reader).all_bytes() == old(reader).all_bytes(),
            final(self).sapling_spend_count == old(self).sapling_spend_count,
            final(self).sapling_output_count == old(self).sapling_output_count,
            final(self).orchard_action_count == old(self).orchard_action_count,
            state_rank(final(self).state) <= state_rank(old(self).state),
            r is Ok ==> final(self).state == ParserState::ProcessExtra || final(
                reader
            ).remaining().len() == 0,
            r == sapling_run(
                old(self).state,
                old(self).sapling_spend_count,
                old(self).sapling_output_count,
                old(self).orchard_action_count,
                old(self).sapling_spend_parsed_count,
                old(self).sapling_output_parsed_count,
                old(reader).remaining(),
            ),
    {
        let ghost run0 = sapling_run(
            old(self).state,
            old(self).sapling_spend_count,
            old(self).sapling_output_count,
            old(self).orchard_action_count,
            old(self).sapling_spend_parsed_count,
            old(self).sapling_output_parsed_count,
            old(reader).remaining(),
        );
        loop
            invariant
                self.wf(),
                hashers_wf(*self, ctx.hashers),
                reader.wf(),
                reader.all_bytes() == old(reader).all_bytes(),
                self.sapling_spend_count == old(self).sapling_spend_count,
                self.sapling_output_count == old(self).sapling_output_count,
                self.orchard_action_count == old(self).orchard_action_count,
                state_rank(self.state) <= state_rank(old(self).state),
                run0 == sapling_run(
                    old(self).state,
                    old(self).sapling_spend_count,
                    old(self).sapling_output_count,
                    old(self).orchard_action_count,
                    old(self).sapling_spend_parsed_count,
                    old(self).sapling_output_parsed_count,
                    old(reader).remaining(),
                ),
                run0 == sapling_run(
                    self.state,
                    self.sapling_spend_count,
                    self.sapling_output_count,
                    self.orchard_action_count,
                    self.sapling_spend_parsed_count,
                    self.sapling_output_parsed_count,
                    reader.remaining(),
                ),
            decreases state_rank(self.state), phase_work(*self), reader.remaining().len(),
        {
            let ghost pre = *self;
            let ghost pre_rem = reader.remaining();
            let ghost pre_pos = reader.position();
            match self.state {
                ParserState::ProcessExtra => {
                    return Ok(());
                },
                ParserState::ProcessSaplingHeader => {
                    if reader.remaining_len() == 0 {
                        return Ok(());
                    }
                    match self.parse_sapling(ctx, reader) {
                        Ok(()) => {
                            proof {
                                if pre.sapling_spend_count > 0 {
                                    lemma_skip_shift(reader.all_bytes(), pre_pos, 40);
                                    assert(reader.remaining() == pre_rem.skip(40));
                                } else {
                                    lemma_skip_shift(reader.all_bytes(), pre_pos, 8);
                                    assert(reader.remaining() == pre_rem.skip(8));
                                }
                            }
                        },
                        Err(e) => {
                            return Err(e);
                        },
                    }
                },
                ParserState::ProcessSaplingSpends { next_field } => {
                    if reader.remaining_len() == 0 {
                        return Ok(());
                    }
                    match self.parse_sapling_spends(ctx, reader, next_field) {
                        Ok(()) => {
                            proof {
                                let want = 3 - next_field as int;
                                if pre_rem.len() >= 32 * want {
                                    lemma_skip_shift(reader.all_bytes(), pre_pos, 32 * want);
                                    assert(reader.remaining() == pre_rem.skip(32 * want));
                                } else {
                                    assert(pre_rem.len() == 32 * (pre_rem.len() as int / 32));
                                    assert(reader.remaining().len() == 0);
                                }
                            }
                        },
                        Err(e) => {
                            return Err(e);
                        },
                    }
                },
                ParserState::ProcessSaplingSpendsHashing => {
                    match self.parse_sapling_spends_hashing(ctx, reader) {
                        Ok(()) => {},
                        Err(e) => {
                            return Err(e);
                        },
                    }
                },
                ParserState::ProcessSaplingOutputsCompact => {
                    if reader.remaining_len() == 0 {
                        return Ok(());
                    }
                    match self.parse_sapling_outputs_compact(ctx, reader) {
                        Ok(()) => {
                            proof {
                                lemma_skip_shift(reader.all_bytes(), pre_pos, 116);
                                assert(reader.remaining() == pre_rem.skip(116));
                            }
                        },
                        Err(e) => {
                            return Err(e);
                        },
                    }
                },
                ParserState::ProcessSaplingOutputsMemo { size, remaining_size } => {
                    if reader.remaining_len() == 0 {
                        return Ok(());
                    }
                    match self.parse_sapling_outputs_memo(ctx, reader, size, remaining_size) {
                        Ok(()) => {
                            proof {
                                let consumed = memo_consumed(
                                    remaining_size as int,
                                    pre_rem.len() as int,
                                );
                                lemma_skip_shift(reader.all_bytes(), pre_pos, consumed);
                                assert(reader.remaining() == pre_rem.skip(consumed));
                            }
                        },
                        Err(e) => {
                            return Err(e);
                        },
                    }
                },
                ParserState::ProcessSaplingOutputsNonCompact => {
                    if reader.remaining_len() == 0 {
                        return Ok(());
                    }
                    match self.parse_sapling_outputs_non_compact(ctx, reader) {
                        Ok(()) => {
                            proof {
                                lemma_skip_shift(reader.all_bytes(), pre_pos, 128);
                                assert(reader.remaining() == pre_rem.skip(128));
                            }
                        },
                        Err(e) => {
                            return Err(e);
                        },
                    }
                },
                ParserState::ProcessSaplingOutputHashing => {
                    match self.parse_sapling_output_hashing(ctx, reader) {
                        Ok(()) => {},
                        Err(e) => {
                            return Err(e);
                        },
                    }
                },
            }
        }
    }
}

/// Chunking invariance of the memo stream: absorbing two successive
/// message chunks leaves the memo accumulator and the owed byte count
/// exactly as absorbing their concatenation in one message would —
/// for every split, including one that ends the stream inside the first
/// chunk.
pub proof fn lemma_memo_chunking(abs: Seq<u8>, remaining: int, c1: Seq<u8>, c2: Seq<u8>)
    requires
        0 <= remaining,
    ensures
        memo_absorb(memo_absorb(abs, remaining, c1), memo_left(remaining, c1.len() as int), c2)
            == memo_absorb(abs, remaining, c1 + c2),
        memo_left(memo_left(remaining, c1.len() as int), c2.len() as int) == memo_left(
            remaining,
            (c1 + c2).len() as int,
        ),
{
    if c1.len() >= remaining {
        assert((c1 + c2).take(remaining) =~= c1.take(remaining));
        assert(memo_absorb(memo_absorb(abs, remaining, c1), 0, c2) =~= memo_absorb(
            abs,
            remaining,
            c1 + c2,
        ));
    } else {
        let left = remaining - c1.len();
        let consumed2 = memo_consumed(left, c2.len() as int);
        assert(c1.take(c1.len() as int) =~= c1);
        assert((c1 + c2).take(c1.len() + consumed2) =~= c1 + c2.take(consumed2));
        assert(memo_absorb(memo_absorb(abs, remaining, c1), left, c2) =~= memo_absorb(
            abs,
            remaining,
            c1 + c2,
        ));
    }
}

/// Memo remaining-size monotonicity: one call decreases the owed size by
/// exactly the consumed byte count, never below zero; it reaches zero
/// exactly when the message holds at least the owed bytes, and strictly
/// decreases whenever any byte is available.
pub proof fn lemma_memo_remaining_monotonic(remaining: int, avail: int)
    requires
        0 <= remaining,
        0 <= avail,
    ensures
        memo_left(remaining, avail) == remaining - memo_consumed(remaining, avail),
        0 <= memo_left(remaining, avail) <= remaining,
        remaining > 0 && avail > 0 ==> memo_left(remaining, avail) < remaining,
        memo_left(remaining, avail) == 0 <==> avail >= remaining,
{
}

/// Order sensitivity of the spend update: swapping the value commitment
/// and the anchor changes the byte stream handed to the non-compact
/// tree whenever the two values differ.
pub proof fn lemma_spend_update_order(abs: Seq<u8>, cv: Seq<u8>, anchor: Seq<u8>, rk: Seq<u8>)
    requires
        cv.len() == 32,
        anchor.len() == 32,
        cv != anchor,
    ensures
        abs + cv + anchor + rk != abs + anchor + cv + rk,
{
    if forall|i: int| 0 <= i < 32 ==> cv[i] == anchor[i] {
        assert(cv =~= anchor);
    }
    let i = choose|i: int| 0 <= i < 32 && cv[i] != anchor[i];
    let a = abs + cv + anchor + rk;
    let b = abs + anchor + cv + rk;
    assert(a[abs.len() + i] == cv[i]);
    assert(b[abs.len() + i] == anchor[i]);
}

} // verus!
