//! The decoded tag records that the reconciliation container holds.
//!
//! Each record is produced elsewhere by a decoder for one tag kind and is
//! immutable once produced. A record only ever reaches a container slot after
//! it has been validated; the well-formedness predicates below state the part
//! of that validation the reconciliation layer relies on.

use vstd::prelude::*;

use crate::util::Color;

verus! {

/// The analysis-version record. The reconciliation layer looks no further
/// than its presence or absence.
#[derive(Clone, Copy, Debug, PartialEq, Eq, Structural)]
pub struct Analysis {
    pub version_major: u8,
    pub version_minor: u8,
}

/// The gain record. Both gain values are IEEE-754 double-precision bit
/// patterns, carried through unchanged; callers that want the number decode
/// the bits outside this crate.
#[derive(Clone, Copy, Debug, PartialEq, Eq, Structural)]
pub struct Autotags {
    pub auto_gain: u64,
    pub gain_db: u64,
}

/// A beat marker that is followed by at least one more marker. Both fields
/// are carried through unchanged: `position` is the IEEE-754 single-precision
/// bit pattern of the marker's position as the decoder produced it.
#[derive(Clone, Copy, Debug, PartialEq, Eq, Structural)]
pub struct NonTerminalMarker {
    pub position: u32,
    pub beats_till_next_marker: u32,
}

/// The last beat marker of a grid. `position` and `bpm` are IEEE-754
/// single-precision bit patterns, carried through unchanged.
#[derive(Clone, Copy, Debug, PartialEq, Eq, Structural)]
pub struct TerminalMarker {
    pub position: u32,
    pub bpm: u32,
}

/// The beat-grid record: the non-terminal markers in playback order and
/// exactly one terminal marker.
#[derive(Clone, Debug, PartialEq, Eq)]
pub struct Beatgrid {
    pub non_terminal_markers: Vec<NonTerminalMarker>,
    pub terminal_marker: TerminalMarker,
}

/// The kind tag of a legacy marker entry.
#[derive(Clone, Copy, Debug, PartialEq, Eq, Structural)]
pub enum EntryKind {
    /// An explicit "this marker does not exist" signal.
    Invalid,
    /// A cue point.
    Cue,
    /// A saved loop.
    Loop,
    /// Any kind this layer does not know; such entries are ignored.
    Unknown,
}

/// One entry of the legacy markers record: a kind tag, optional start and end
/// times in milliseconds (the end time is meaningful for loops only), a color,
/// and a lock flag (loops only). The entry carries the index it is keyed by.
#[derive(Clone, Copy, Debug, PartialEq, Eq)]
pub struct MarkerEntry {
    pub index: u8,
    pub kind: EntryKind,
    pub start_position_millis: Option<u32>,
    pub end_position_millis: Option<u32>,
    pub color: Color,
    pub is_locked: bool,
}

/// The legacy markers record: an ordered mapping from index to entry, plus
/// the overall track color.
#[derive(Clone, Debug, PartialEq, Eq)]
pub struct Markers {
    /// The entries, ordered by index. A validated record keys each entry by a
    /// distinct index, so the indices are strictly increasing.
    pub entries: Vec<MarkerEntry>,
    /// The overall track color. The legacy record always carries one.
    pub track_color: Color,
}

/// True when the entries' indices are strictly increasing, i.e. the sequence
/// is an ordered mapping keyed by index.
pub open spec fn entry_indices_ascending(entries: Seq<MarkerEntry>) -> bool {
    forall|i: int, j: int|
        0 <= i < j < entries.len() ==> entries[i].index < entries[j].index
}

impl Markers {
    /// A validated legacy record lists its entries in strictly increasing
    /// index order.
    pub open spec fn wf(self) -> bool {
        entry_indices_ascending(self.entries@)
    }
}

/// A cue marker from the extended markers record: an index, a position in
/// milliseconds, a color, and an optional label.
#[derive(Clone, Debug, PartialEq, Eq)]
pub struct CueMarker {
    pub index: u8,
    pub position_millis: u32,
    pub color: Color,
    pub label: Option<String>,
}

/// A loop marker from the extended markers record: an index, a start and end
/// time in milliseconds, a color, an optional label, and a lock flag.
#[derive(Clone, Debug, PartialEq, Eq)]
pub struct LoopMarker {
    pub index: u8,
    pub start_position_millis: u32,
    pub end_position_millis: u32,
    pub color: Color,
    pub label: Option<String>,
    pub is_locked: bool,
}

/// The extended markers record: cue and loop markers keyed by index, plus an
/// optional overall track color and an optional BPM-lock flag.
#[derive(Clone, Debug, PartialEq, Eq)]
pub struct Markers2 {
    /// The cue markers, ordered by index.
    pub cues: Vec<CueMarker>,
    /// The loop markers, ordered by index.
    pub loops: Vec<LoopMarker>,
    /// The overall track color, if the record carries one.
    pub track_color: Option<Color>,
    /// The BPM-lock flag, if the record encodes a lock state.
    pub bpm_locked: Option<bool>,
}

/// True when the cue markers' indices are strictly increasing.
pub open spec fn cue_indices_ascending(cues: Seq<CueMarker>) -> bool {
    forall|i: int, j: int| 0 <= i < j < cues.len() ==> cues[i].index < cues[j].index
}

/// True when the loop markers' indices are strictly increasing.
pub open spec fn loop_indices_ascending(loops: Seq<LoopMarker>) -> bool {
    forall|i: int, j: int| 0 <= i < j < loops.len() ==> loops[i].index < loops[j].index
}

impl Markers2 {
    /// A validated extended record keys its cue markers and its loop markers
    /// each by distinct, ascending indices.
    pub open spec fn wf(self) -> bool {
        &&& cue_indices_ascending(self.cues@)
        &&& loop_indices_ascending(self.loops@)
    }
}

/// The waveform overview record: an ordered sequence of byte rows of summary
/// data, carried through unchanged.
#[derive(Clone, Debug, PartialEq, Eq)]
pub struct Overview {
    pub data: Vec<Vec<u8>>,
}

} // verus!
