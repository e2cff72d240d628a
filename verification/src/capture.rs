//! Captures that are wholly in memory, and the entry point for those that
//! arrive piece by piece.

use crate::blocks::{BlockView, PcapBlock};
use crate::decoder::{decode, decode_step, lemma_step_sound, Decode, DecoderState, Dialect,
    Step};
use crate::error::PcapError;
use crate::packet::Linktype;
use crate::prober::{probe, probe_spec};
use crate::reader::{PcapReader, ReaderView};
use vstd::prelude::*;
use vstd::slice::slice_subrange;

verus! {

/// What decoding an input to its end gives: the blocks, and how it ended.
/// `Eof` is the good end, with every byte decoded.
pub struct Run {
    pub blocks: Seq<BlockView>,
    pub end: PcapError,
}

/// Decodes `input` unit by unit from `state`. Bytes that end in the middle
/// of a unit are a failure, `UnexpectedEof`: no more will come.
pub open spec fn decode_all(state: DecoderState, input: Seq<u8>) -> Run
    decreases input.len(),
{
    if input.len() == 0 {
        Run { blocks: Seq::empty(), end: PcapError::Eof }
    } else {
        match decode_step(state, input) {
            Step::Unit { size, block, next } => if 0 < size <= input.len() {
                let rest = decode_all(next, input.skip(size as int));
                Run { blocks: seq![block] + rest.blocks, end: rest.end }
            } else {
                // a unit is never empty: `lemma_step_sound`
                Run { blocks: Seq::empty(), end: PcapError::UnexpectedEof }
            },
            Step::Incomplete(_) => Run { blocks: Seq::empty(), end: PcapError::UnexpectedEof },
            Step::Invalid(error) => Run { blocks: Seq::empty(), end: error },
        }
    }
}

/// The link type and snapshot length that the first dialect header among
/// `blocks` declares.
pub open spec fn first_header(blocks: Seq<BlockView>) -> Option<(Linktype, u32)>
    decreases blocks.len(),
{
    if blocks.len() == 0 {
        None
    } else {
        match blocks[0] {
            BlockView::DialectHeader { linktype, snaplen } => Some((linktype, snaplen)),
            _ => first_header(blocks.drop_first()),
        }
    }
}

/// What each of `blocks` is.
pub open spec fn block_views<'a>(blocks: Seq<PcapBlock<'a>>) -> Seq<BlockView> {
    blocks.map_values(|block: PcapBlock<'a>| block@)
}

/// Builds a streaming reader from the outcome of the first read from a byte
/// source: `None` if the read failed, else the bytes it gave, which are no
/// more than `capacity`. No byte at all is `Eof`. Otherwise the input is
/// probed for the sectioned dialect first, then for the legacy one.
pub fn create_reader(capacity: usize, first: Option<&[u8]>) -> (r: Result<PcapReader, PcapError>)
    requires
        capacity <= isize::MAX,
        first matches Some(bytes) ==> bytes@.len() <= capacity,
    ensures
        first is None ==> r == Err::<PcapReader, PcapError>(PcapError::ReadError),
        first matches Some(bytes) ==> match r {
            Ok(reader) => bytes@.len() > 0 && (probe_spec(bytes@) matches Ok(dialect) && reader@
                == ReaderView::fresh(capacity as nat, bytes@, dialect, false)) && reader.wf(),
            Err(error) => if bytes@.len() == 0 {
                error == PcapError::Eof
            } else {
                probe_spec(bytes@) == Err::<Dialect, PcapError>(error)
            },
        },
{
    PcapReader::new(capacity, first, false)
}

/// A position in a capture that is wholly in memory, from which the blocks
/// are decoded one at a time.
#[derive(Debug)]
pub struct BlockCursor<'a> {
    data: &'a [u8],
    at: usize,
    state: DecoderState,
    done: bool,
}

impl<'a> BlockCursor<'a> {
    /// The invariant of a cursor: it stands within its input.
    pub closed spec fn wf(&self) -> bool {
        self.at <= self.data@.len()
    }

    /// What is left to hand out: the blocks, and the end after them.
    pub closed spec fn remaining(&self) -> Run {
        if self.done {
            Run { blocks: Seq::empty(), end: PcapError::Eof }
        } else {
            decode_all(self.state, self.data@.skip(self.at as int))
        }
    }

    /// A cursor at the start of `data`, decoding from `state`.
    pub fn new(data: &'a [u8], state: DecoderState) -> (cursor: BlockCursor<'a>)
        ensures
            cursor.wf(),
            cursor.remaining() == decode_all(state, data@),
    {
        assert(data@.skip(0) =~= data@);
        BlockCursor { data, at: 0, state, done: false }
    }

    /// Hands out the next block. `None` at the good end. A failure is handed
    /// out once, as `Some(Err(..))`, and ends the sequence.
    pub fn next(&mut self) -> (r: Option<Result<PcapBlock<'a>, PcapError>>)
        requires
            old(self).wf(),
        ensures
            final(self).wf(),
            match r {
                None => old(self).remaining() == (Run {
                    blocks: Seq::empty(),
                    end: PcapError::Eof,
                }) && final(self).remaining() == old(self).remaining(),
                Some(Ok(block)) => old(self).remaining().blocks.len() > 0 && block@ == old(
                    self,
                ).remaining().blocks[0] && final(self).remaining() == (Run {
                    blocks: old(self).remaining().blocks.drop_first(),
                    end: old(self).remaining().end,
                }),
                Some(Err(error)) => old(self).remaining() == (Run {
                    blocks: Seq::empty(),
                    end: error,
                }) && error != PcapError::Eof && final(self).remaining() == (Run {
                    blocks: Seq::empty(),
                    end: PcapError::Eof,
                }),
            },
    {
        if self.done {
            return None;
        }
        let rest = slice_subrange(self.data, self.at, self.data.len());
        if rest.len() == 0 {
            self.done = true;
            return None;
        }
        proof {
            lemma_step_sound(self.state, rest@);
        }
        match decode(&self.state, rest) {
            Decode::Unit { size, block, next } => {
                proof {
                    let after = decode_all(next, rest@.skip(size as int));
                    assert(self.data@.skip(self.at + size) =~= rest@.skip(size as int));
                    assert((seq![block@] + after.blocks).drop_first() =~= after.blocks);
                }
                self.at = self.at + size;
                self.state = next;
                Some(Ok(block))
            },
            Decode::Incomplete(_) => {
                self.done = true;
                Some(Err(PcapError::UnexpectedEof))
            },
            Decode::Invalid(error) => {
                self.done = true;
                Some(Err(error))
            },
        }
    }
}

/// Access to a capture that is wholly available.
pub trait Capture {
    /// The link type of the capture.
    spec fn datalink(&self) -> Linktype;

    /// The snapshot length of the capture.
    spec fn snaplen(&self) -> u32;

    /// The blocks of the capture, in order.
    spec fn blocks(&self) -> Seq<BlockView>;

    fn get_datalink(&self) -> (linktype: Linktype)
        ensures
            linktype == self.datalink(),
    ;

    fn get_snaplen(&self) -> (snaplen: u32)
        ensures
            snaplen == self.snaplen(),
    ;

    /// The blocks of the capture, in order.
    fn iter<'a>(&'a self) -> (blocks: Vec<PcapBlock<'a>>)
        ensures
            block_views(blocks@) == self.blocks(),
    ;
}

/// A capture in either dialect that is wholly in memory.
#[derive(Debug)]
pub struct PcapCapture<'a> {
    data: &'a [u8],
    start: DecoderState,
    datalink: Linktype,
    snaplen: u32,
}

impl<'a> PcapCapture<'a> {
    /// The bytes of the capture.
    pub closed spec fn input(&self) -> Seq<u8> {
        self.data@
    }

    /// The state in which decoding the capture starts.
    pub closed spec fn start(&self) -> DecoderState {
        self.start
    }

    /// What decoding the capture gives: the blocks up to the first failure,
    /// and the failure, or `Eof` if there is none.
    pub open spec fn run(&self) -> Run {
        decode_all(self.start(), self.input())
    }

    /// The link type and snapshot length of a capture with the given blocks:
    /// those of its first dialect header, and link type 0 with snapshot
    /// length 0 where it has none.
    pub open spec fn global_header(blocks: Seq<BlockView>) -> (Linktype, u32) {
        match first_header(blocks) {
            Some(header) => header,
            None => (Linktype(0), 0),
        }
    }

    /// Opens the capture that `data` holds, handing out blocks of unknown
    /// kind as they are. Fails where no dialect is detected; bytes that end
    /// within the first header are an `UnexpectedEof`.
    pub fn from_file(data: &'a [u8]) -> (r: Result<PcapCapture<'a>, PcapError>)
        ensures
            match probe_spec(data@) {
                Ok(dialect) => r matches Ok(capture) && capture.input() == data@
                    && capture.start() == DecoderState::initial(dialect, false) && (
                capture.datalink(), capture.snaplen()) == PcapCapture::global_header(
                    capture.blocks(),
                ),
                Err(PcapError::Incomplete(_)) => r == Err::<PcapCapture<'a>, PcapError>(
                    PcapError::UnexpectedEof,
                ),
                Err(error) => r == Err::<PcapCapture<'a>, PcapError>(error),
            },
    {
        PcapCapture::with_policy(data, false)
    }

    /// Opens the capture that `data` holds. `strict` is the policy on blocks
    /// of unknown kind: reject them, or hand them out as they are.
    pub fn with_policy(data: &'a [u8], strict: bool) -> (r: Result<PcapCapture<'a>, PcapError>)
        ensures
            match probe_spec(data@) {
                Ok(dialect) => r matches Ok(capture) && capture.input() == data@
                    && capture.start() == DecoderState::initial(dialect, strict) && (
                capture.datalink(), capture.snaplen()) == PcapCapture::global_header(
                    capture.blocks(),
                ),
                Err(PcapError::Incomplete(_)) => r == Err::<PcapCapture<'a>, PcapError>(
                    PcapError::UnexpectedEof,
                ),
                Err(error) => r == Err::<PcapCapture<'a>, PcapError>(error),
            },
    {
        let dialect = match probe(data) {
            Ok(dialect) => dialect,
            Err(PcapError::Incomplete(_)) => {
                return Err(PcapError::UnexpectedEof);
            },
            Err(error) => {
                return Err(error);
            },
        };
        let start = DecoderState::start(dialect, strict);
        let mut cursor = BlockCursor::new(data, start);
        let mut found: Option<(Linktype, u32)> = None;
        let ghost all = decode_all(start, data@).blocks;
        loop
            invariant_except_break
                cursor.wf(),
                found is None,
                first_header(all) == first_header(cursor.remaining().blocks),
            ensures
                found == first_header(all),
            decreases cursor.remaining().blocks.len(),
        {
            match cursor.next() {
                Some(Ok(PcapBlock::DialectHeader { linktype, snaplen })) => {
                    found = Some((linktype, snaplen));
                    break ;
                },
                Some(Ok(_)) => {},
                _ => {
                    break ;
                },
            }
        }
        let (datalink, snaplen) = match found {
            Some(header) => header,
            None => (Linktype(0), 0),
        };
        Ok(PcapCapture { data, start, datalink, snaplen })
    }

    /// A cursor at the first block of the capture.
    pub fn cursor(&self) -> (cursor: BlockCursor<'a>)
        ensures
            cursor.wf(),
            cursor.remaining() == self.run(),
    {
        BlockCursor::new(self.data, self.start)
    }
}

impl<'c> Capture for PcapCapture<'c> {
    closed spec fn datalink(&self) -> Linktype {
        self.datalink
    }

    closed spec fn snaplen(&self) -> u32 {
        self.snaplen
    }

    open spec fn blocks(&self) -> Seq<BlockView> {
        self.run().blocks
    }

    fn get_datalink(&self) -> (linktype: Linktype) {
        self.datalink
    }

    fn get_snaplen(&self) -> (snaplen: u32) {
        self.snaplen
    }

    fn iter<'a>(&'a self) -> (blocks: Vec<PcapBlock<'a>>) {
        let mut cursor = self.cursor();
        let mut blocks: Vec<PcapBlock<'a>> = Vec::new();
        let ghost all = self.run().blocks;
        assert(block_views(blocks@) + cursor.remaining().blocks =~= all);
        loop
            invariant_except_break
                cursor.wf(),
                block_views(blocks@) + cursor.remaining().blocks == all,
            ensures
                block_views(blocks@) == all,
            decreases cursor.remaining().blocks.len(),
        {
            let ghost before = blocks@;
            let ghost left = cursor.remaining().blocks;
            match cursor.next() {
                Some(Ok(block)) => {
                    blocks.push(block);
                    assert(block_views(blocks@) =~= block_views(before).push(block@));
                    assert(block_views(before).push(block@) + left.drop_first() =~= block_views(
                        before,
                    ) + left);
                },
                _ => {
                    assert(block_views(blocks@) + Seq::<BlockView>::empty() =~= block_views(
                        blocks@,
                    ));
                    break ;
                },
            }
        }
        blocks
    }
}

} // verus!
