//! Dialect detection from the first bytes of an input.

use crate::decoder::{Dialect, Parsed};
use crate::error::{Needed, PcapError};
use crate::pcap::{parse_pcap_header, pcap_header, PcapHeader};
use crate::pcapng::{lemma_section_type_symmetric, parse_sectionheaderblock, section_header,
    SectionHeader};
use vstd::prelude::*;

verus! {

/// The dialect that two decoding attempts on the same bytes select. A valid
/// section header selects the sectioned dialect; failing that, a valid
/// global header selects the legacy dialect. Where neither is valid, an
/// attempt that ran out of bytes makes the outcome `Incomplete`, with the
/// hint of the legacy attempt if that one ran out and of the sectioned
/// attempt otherwise; where none ran out, no header was recognized.
pub open spec fn select(sectioned: Parsed<SectionHeader>, legacy: Parsed<PcapHeader>) -> Result<
    Dialect,
    PcapError,
> {
    if sectioned is Done {
        Ok(Dialect::Sectioned)
    } else if legacy is Done {
        Ok(Dialect::Legacy)
    } else if let Parsed::Incomplete(needed) = legacy {
        Err(PcapError::Incomplete(needed.hint_spec()))
    } else if let Parsed::Incomplete(needed) = sectioned {
        Err(PcapError::Incomplete(needed.hint_spec()))
    } else {
        Err(PcapError::HeaderNotRecognized)
    }
}

/// The dialect of the capture that begins with `window`.
pub open spec fn probe_spec(window: Seq<u8>) -> Result<Dialect, PcapError> {
    select(section_header(window), pcap_header(window))
}

/// Selects a dialect from the outcomes of the two decoding attempts.
pub fn select_dialect(sectioned: &Parsed<SectionHeader>, legacy: &Parsed<PcapHeader>) -> (r:
    Result<Dialect, PcapError>)
    ensures
        r == select(*sectioned, *legacy),
{
    if let Parsed::Done { .. } = sectioned {
        return Ok(Dialect::Sectioned);
    }
    if let Parsed::Done { .. } = legacy {
        return Ok(Dialect::Legacy);
    }
    if let Parsed::Incomplete(needed) = legacy {
        return Err(PcapError::Incomplete(needed.hint()));
    }
    if let Parsed::Incomplete(needed) = sectioned {
        return Err(PcapError::Incomplete(needed.hint()));
    }
    Err(PcapError::HeaderNotRecognized)
}

/// Detects the dialect of the capture that begins with `window`. Nothing is
/// consumed: decoding starts again at the first byte.
pub fn probe(window: &[u8]) -> (r: Result<Dialect, PcapError>)
    ensures
        r == probe_spec(window@),
{
    let sectioned = parse_sectionheaderblock(window);
    let legacy = parse_pcap_header(window);
    select_dialect(&sectioned, &legacy)
}

/// No dialect can be told from nothing: both attempts ask for the four bytes
/// that tell a header's kind.
pub proof fn lemma_probe_empty()
    ensures
        probe_spec(Seq::<u8>::empty()) == Err::<Dialect, PcapError>(PcapError::Incomplete(4)),
{
}

/// A single byte is never enough: the outcome is `Incomplete`, asking for
/// the three bytes that complete the first word.
pub proof fn lemma_probe_single_byte(byte: u8)
    ensures
        probe_spec(seq![byte]) == Err::<Dialect, PcapError>(PcapError::Incomplete(3)),
{
}

/// A dialect detected from the start of an input is the dialect of the
/// whole input.
pub proof fn lemma_probe_extends(a: Seq<u8>, b: Seq<u8>)
    requires
        a.is_prefix_of(b),
        probe_spec(a) is Ok,
    ensures
        probe_spec(b) == probe_spec(a),
{
    assert(forall|i: int| 0 <= i < a.len() ==> a[i] == b[i]);
    lemma_section_type_symmetric(a);
}

} // verus!
