//! Captures as sequences of units, and what decoding them gives.
//!
//! A capture is well formed when its bytes are one unit after another, each
//! decodable in the state that the units before it leave.

use crate::blocks::BlockView;
use crate::capture::{decode_all, Run};
use crate::decoder::{decode_step, lemma_step_extends, lemma_step_sound, DecoderState, Step};
use crate::error::PcapError;
use vstd::prelude::*;

verus! {

/// Whether `bytes` are exactly one unit in `state`.
pub open spec fn is_unit(state: DecoderState, bytes: Seq<u8>) -> bool {
    decode_step(state, bytes) matches Step::Unit { size, .. } && size == bytes.len()
}

/// The decoder state after the unit `bytes`.
pub open spec fn state_after(state: DecoderState, bytes: Seq<u8>) -> DecoderState {
    match decode_step(state, bytes) {
        Step::Unit { next, .. } => next,
        _ => state,
    }
}

/// The block that the unit `bytes` holds.
pub open spec fn block_of(state: DecoderState, bytes: Seq<u8>) -> BlockView
    recommends
        is_unit(state, bytes),
{
    match decode_step(state, bytes) {
        Step::Unit { block, .. } => block,
        _ => arbitrary(),
    }
}

/// Whether each of `units` is exactly one unit, in the state that the ones
/// before it leave, starting from `state`.
pub open spec fn are_units(state: DecoderState, units: Seq<Seq<u8>>) -> bool
    decreases units.len(),
{
    units.len() == 0 || (is_unit(state, units[0]) && are_units(
        state_after(state, units[0]),
        units.drop_first(),
    ))
}

/// The blocks that `units` hold.
pub open spec fn unit_blocks(state: DecoderState, units: Seq<Seq<u8>>) -> Seq<BlockView>
    decreases units.len(),
{
    if units.len() == 0 {
        Seq::empty()
    } else {
        seq![block_of(state, units[0])] + unit_blocks(
            state_after(state, units[0]),
            units.drop_first(),
        )
    }
}

/// Whether the offset `k` lies between two of `units`, or before the first,
/// or after the last.
pub open spec fn is_boundary(units: Seq<Seq<u8>>, k: int) -> bool
    decreases units.len(),
{
    k == 0 || (units.len() > 0 && k >= units[0].len() && is_boundary(
        units.drop_first(),
        k - units[0].len(),
    ))
}

/// Whether every data record among `blocks` respects the snapshot length in
/// force where it stands: `snaplen` at first, then what the headers before
/// it declare.
pub open spec fn all_respect(blocks: Seq<BlockView>, snaplen: u32) -> bool
    decreases blocks.len(),
{
    blocks.len() == 0 || (blocks[0].respects(snaplen) && all_respect(
        blocks.drop_first(),
        blocks[0].snaplen_after(snaplen),
    ))
}

/// Decoding a capture made of units gives one block for each unit, in
/// order, and ends well.
pub proof fn lemma_units_decode(state: DecoderState, units: Seq<Seq<u8>>)
    requires
        are_units(state, units),
    ensures
        decode_all(state, units.flatten()) == (Run {
            blocks: unit_blocks(state, units),
            end: PcapError::Eof,
        }),
        unit_blocks(state, units).len() == units.len(),
    decreases units.len(),
{
    if units.len() > 0 {
        let first = units[0];
        let rest = units.drop_first();
        let whole = units.flatten();
        assert(first.is_prefix_of(whole));
        lemma_step_sound(state, first);
        lemma_step_extends(state, first, whole);
        assert(whole.skip(first.len() as int) =~= rest.flatten());
        lemma_units_decode(state_after(state, first), rest);
    }
}

/// Every data record that decoding hands out respects the snapshot length
/// in force where it stands: its captured length is the number of its
/// bytes and exceeds neither its original length nor the snapshot length.
pub proof fn lemma_records_respect(state: DecoderState, input: Seq<u8>)
    ensures
        all_respect(decode_all(state, input).blocks, state.snaplen()),
    decreases input.len(),
{
    if input.len() > 0 {
        lemma_step_sound(state, input);
        match decode_step(state, input) {
            Step::Unit { size, block, next } => {
                let rest = decode_all(next, input.skip(size as int));
                lemma_records_respect(next, input.skip(size as int));
                assert((seq![block] + rest.blocks).drop_first() =~= rest.blocks);
            },
            _ => {},
        }
    }
}

/// A capture made of units and cut off anywhere but between two units does
/// not decode to a good end: the bytes end in the middle of a unit.
pub proof fn lemma_truncated_run(state: DecoderState, units: Seq<Seq<u8>>, k: int)
    requires
        are_units(state, units),
        0 <= k <= units.flatten().len(),
        !is_boundary(units, k),
    ensures
        decode_all(state, units.flatten().take(k)).end == PcapError::UnexpectedEof,
    decreases units.len(),
{
    if units.len() > 0 {
        let first = units[0];
        let rest = units.drop_first();
        let cut = units.flatten().take(k);
        lemma_step_sound(state, first);
        lemma_step_sound(state, cut);
        if k >= first.len() {
            assert(first.is_prefix_of(cut));
            lemma_step_extends(state, first, cut);
            assert(cut.skip(first.len() as int) =~= rest.flatten().take(k - first.len()));
            lemma_truncated_run(state_after(state, first), rest, k - first.len());
        } else {
            assert(cut.is_prefix_of(first));
            lemma_step_extends(state, cut, first);
        }
    }
}

/// In a legacy capture every unit after the global header is a data record.
pub proof fn lemma_legacy_records(state: DecoderState, units: Seq<Seq<u8>>)
    requires
        state is LegacyRecords,
        are_units(state, units),
    ensures
        unit_blocks(state, units).len() == units.len(),
        forall|i: int|
            0 <= i < units.len() ==> (#[trigger] unit_blocks(state, units)[i]) is DataRecord,
    decreases units.len(),
{
    if units.len() > 0 {
        let next = state_after(state, units[0]);
        let later = unit_blocks(next, units.drop_first());
        assert(block_of(state, units[0]) is DataRecord && next is LegacyRecords) by {
            reveal(decode_step);
        }
        lemma_legacy_records(next, units.drop_first());
        assert forall|i: int| 0 <= i < units.len() implies (#[trigger] unit_blocks(
            state,
            units,
        )[i]) is DataRecord by {
            if i > 0 {
                assert(unit_blocks(state, units)[i] == later[i - 1]);
            }
        }
    }
}

/// A legacy capture made of a global header and well-formed records decodes
/// to one block more than it has records: the dialect header first, then
/// one data record for each record, and a good end.
pub proof fn lemma_legacy_block_count(header: Seq<u8>, records: Seq<Seq<u8>>)
    requires
        are_units(DecoderState::LegacyHeader, seq![header] + records),
    ensures
        ({
            let run = decode_all(DecoderState::LegacyHeader, header + records.flatten());
            &&& run.end == PcapError::Eof
            &&& run.blocks.len() == 1 + records.len()
            &&& run.blocks[0] is DialectHeader
            &&& forall|i: int| 1 <= i < run.blocks.len() ==> (#[trigger] run.blocks[i]) is DataRecord
        }),
{
    let units = seq![header] + records;
    let start = DecoderState::LegacyHeader;
    assert(units[0] == header);
    assert(units.drop_first() =~= records);
    assert(units.flatten() =~= header + records.flatten());
    lemma_units_decode(start, units);
    assert(block_of(start, header) is DialectHeader && state_after(start, header)
        is LegacyRecords) by {
        reveal(decode_step);
    }
    lemma_legacy_records(state_after(start, header), records);
    let run = decode_all(start, header + records.flatten());
    let later = unit_blocks(state_after(start, header), records);
    lemma_units_decode(state_after(start, header), records);
    assert forall|i: int| 1 <= i < run.blocks.len() implies (#[trigger] run.blocks[i])
        is DataRecord by {
        assert(run.blocks[i] == later[i - 1]);
    }
}

} // verus!
