//! The canonical driver loop over a reader, written as a function of the
//! reader and its source, and what holds of it for every input and every way
//! in which the source may cut its bytes into reads.
//!
//! The loop is: call `next`; on a unit, use it and `consume` its size; on
//! `Incomplete`, read from the source and `refill`; on anything else,
//! stop.

use crate::blocks::BlockView;
use crate::capture::{decode_all, Run};
use crate::decoder::{decode_step, lemma_step_extends, lemma_step_sound, DecoderState, Step};
use crate::error::PcapError;
use crate::prober::{lemma_probe_extends, probe_spec};
use crate::units::{are_units, is_boundary, lemma_truncated_run};
use crate::reader::ReaderView;
use vstd::prelude::*;

verus! {

/// How many bytes a read hands over when up to `wanted` are asked for and
/// `left` are left in the source, where the source would like to hand over
/// `pick`: at least one and at most what is asked for and left, and none
/// only where that is nothing.
pub open spec fn chunk_size(pick: nat, wanted: nat, left: nat) -> nat {
    let most = if wanted <= left {
        wanted
    } else {
        left
    };
    if most == 0 {
        0
    } else if pick == 0 {
        1
    } else if pick > most {
        most
    } else {
        pick
    }
}

/// The size that the source would like its next read to have.
pub open spec fn next_pick(picks: Seq<nat>) -> nat {
    if picks.len() == 0 {
        0
    } else {
        picks[0]
    }
}

/// The sizes that the source would like its reads after the next to have.
pub open spec fn later_picks(picks: Seq<nat>) -> Seq<nat> {
    if picks.len() == 0 {
        picks
    } else {
        picks.drop_first()
    }
}

/// Runs the canonical loop for at most `fuel` turns on a reader whose source
/// still holds `source` and cuts it into reads as `picks` says. The result
/// is the blocks handed out and the outcome that stopped the loop; `None`
/// if the loop is still running when the fuel is spent.
pub open spec fn drive(reader: ReaderView, source: Seq<u8>, picks: Seq<nat>, fuel: nat) -> Option<
    Run,
>
    decreases fuel,
{
    if fuel == 0 {
        None
    } else {
        let (after, outcome) = reader.next_spec();
        match outcome {
            Ok((size, block)) => match drive(
                after.after_consume(size),
                source,
                picks,
                (fuel - 1) as nat,
            ) {
                Some(run) => Some(Run { blocks: seq![block] + run.blocks, end: run.end }),
                None => None,
            },
            Err(PcapError::Incomplete(_)) => {
                let n = chunk_size(next_pick(picks), after.wanted(), source.len()) as int;
                drive(
                    after.refill_spec(Some(source.take(n))).0,
                    source.skip(n),
                    later_picks(picks),
                    (fuel - 1) as nat,
                )
            },
            Err(error) => Some(Run { blocks: Seq::empty(), end: error }),
        }
    }
}

/// A number of turns within which the loop stops.
pub open spec fn enough_fuel(reader: ReaderView, source: Seq<u8>) -> nat {
    2 * reader.buffered.len() + 3 * source.len() + 3
}

/// A reader in normal operation in front of a source that holds `source`:
/// a source that has reported its end holds nothing.
pub open spec fn streaming(reader: ReaderView, source: Seq<u8>) -> bool {
    &&& reader.wf()
    &&& reader.status is Active
    &&& reader.source_exhausted ==> source.len() == 0
}

/// How a run of the loop relates to decoding the same bytes in memory: it
/// is the same run, blocks and end, unless the loop stopped because a unit
/// did not fit into the buffer; then it handed out the first blocks of the
/// other.
pub open spec fn agrees(run: Run, whole: Run) -> bool {
    if run.end == PcapError::BufferTooSmall {
        run.blocks.is_prefix_of(whole.blocks)
    } else {
        run == whole
    }
}

/// The canonical loop stops, however the source cuts its bytes into reads,
/// and what it hands out is what decoding the buffered bytes and the bytes
/// of the source in memory gives.
pub proof fn lemma_drive(reader: ReaderView, source: Seq<u8>, picks: Seq<nat>, fuel: nat)
    requires
        streaming(reader, source),
        fuel > 2 * reader.buffered.len() + 3 * source.len() + (if reader.source_exhausted {
            0int
        } else {
            1int
        }),
    ensures
        drive(reader, source, picks, fuel) matches Some(run) && agrees(
            run,
            decode_all(reader.state, reader.buffered + source),
        ),
    decreases fuel,
{
    let (after, outcome) = reader.next_spec();
    let whole = reader.buffered + source;
    lemma_step_sound(reader.state, reader.buffered);
    assert(reader.buffered.is_prefix_of(whole));
    lemma_step_extends(reader.state, reader.buffered, whole);
    if reader.buffered.len() == 0 && reader.source_exhausted {
        assert(whole =~= Seq::<u8>::empty());
    } else {
        match decode_step(reader.state, reader.buffered) {
            Step::Unit { size, block, next } => {
                let then = after.after_consume(size);
                assert(whole.skip(size as int) =~= then.buffered + source);
                lemma_drive(then, source, picks, (fuel - 1) as nat);
                let rest = drive(then, source, picks, (fuel - 1) as nat)->Some_0;
                let rest_whole = decode_all(next, whole.skip(size as int));
                if rest.end == PcapError::BufferTooSmall {
                    assert((seq![block] + rest.blocks).is_prefix_of(
                        seq![block] + rest_whole.blocks,
                    ));
                }
            },
            Step::Invalid(error) => {},
            Step::Incomplete(needed) => {
                if reader.source_exhausted {
                    assert(whole =~= reader.buffered);
                } else if reader.buffered.len() + needed.at_least_spec() > reader.capacity {
                    assert(Seq::<BlockView>::empty().is_prefix_of(
                        decode_all(reader.state, whole).blocks,
                    ));
                } else {
                    let n = chunk_size(next_pick(picks), after.wanted(), source.len()) as int;
                    let then = after.refill_spec(Some(source.take(n))).0;
                    assert(then.buffered + source.skip(n) =~= whole);
                    if then.awaiting {
                        lemma_step_extends(reader.state, reader.buffered, then.buffered);
                    }
                    lemma_drive(then, source.skip(n), later_picks(picks), (fuel - 1) as nat);
                }
            },
        }
    }
}

/// Reading a capture through a streaming reader and decoding the same bytes
/// in memory hand out the same blocks and end alike, whatever the capacity
/// of the reader and however the source cuts its bytes into reads. The one
/// exception is a unit that does not fit into the reader's buffer, where
/// the reader stops with `BufferTooSmall` after the first blocks of the
/// other. `first` is what the first read gave and `rest` what the source
/// holds after it.
pub proof fn lemma_stream_matches_memory(
    capacity: nat,
    first: Seq<u8>,
    rest: Seq<u8>,
    picks: Seq<nat>,
    strict: bool,
)
    requires
        0 < first.len() <= capacity <= usize::MAX,
        probe_spec(first) is Ok,
    ensures
        probe_spec(first + rest) == probe_spec(first),
        ({
            let dialect = probe_spec(first)->Ok_0;
            let reader = ReaderView::fresh(capacity, first, dialect, strict);
            drive(reader, rest, picks, enough_fuel(reader, rest)) matches Some(run) && agrees(
                run,
                decode_all(DecoderState::initial(dialect, strict), first + rest),
            )
        }),
{
    assert(first.is_prefix_of(first + rest));
    lemma_probe_extends(first, first + rest);
    let dialect = probe_spec(first)->Ok_0;
    let reader = ReaderView::fresh(capacity, first, dialect, strict);
    lemma_drive(reader, rest, picks, enough_fuel(reader, rest));
}

/// A capture made of units and cut off anywhere but between two units is
/// never read to a good end: the canonical loop stops, and it stops with
/// `UnexpectedEof`, or with `BufferTooSmall` where a unit does not fit into
/// the reader's buffer. `k` is the offset of the cut; the reader has
/// buffered the first of the bytes before it and the source holds the
/// others.
pub proof fn lemma_truncated_stream(
    reader: ReaderView,
    source: Seq<u8>,
    picks: Seq<nat>,
    units: Seq<Seq<u8>>,
    k: int,
)
    requires
        streaming(reader, source),
        are_units(reader.state, units),
        0 <= k <= units.flatten().len(),
        !is_boundary(units, k),
        reader.buffered + source == units.flatten().take(k),
    ensures
        drive(reader, source, picks, enough_fuel(reader, source)) matches Some(run) && (run.end
            == PcapError::UnexpectedEof || run.end == PcapError::BufferTooSmall),
{
    lemma_drive(reader, source, picks, enough_fuel(reader, source));
    lemma_truncated_run(reader.state, units, k);
}

} // verus!
