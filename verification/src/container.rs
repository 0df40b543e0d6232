//! The reconciliation container and its query surface.
//!
//! The container holds six independent optional slots, one per tag record
//! kind. It is constructed with every slot absent; each slot is populated at
//! most once, by direct assignment, and never cleared afterwards. Every query
//! is a pure function of the current slot contents: it never writes a slot,
//! never fails, and recomputes its answer on every call.

use vstd::prelude::*;

use crate::reconcile::{
    cue_outcome, has_entry, lemma_entry_at_position, lemma_reconcile_cues_sorted,
    lemma_reconcile_loops_sorted, loop_outcome, reconcile_cues, reconcile_loops,
};
use crate::tag::{
    Analysis, Autotags, Beatgrid, CueMarker, EntryKind, LoopMarker, MarkerEntry, Markers, Markers2,
    NonTerminalMarker, Overview, TerminalMarker, cue_indices_ascending, entry_indices_ascending,
    loop_indices_ascending,
};
use crate::util::Color;

verus! {

/// Holds the decoded tag records of one track and answers semantic queries
/// over them, merging redundant records with the precedence rules the
/// producing ecosystem uses: the legacy markers record wins for position,
/// color, existence and lock state, while the extended markers record is the
/// sole source of labels and of the index space.
pub struct Container {
    pub analysis: Option<Analysis>,
    pub autotags: Option<Autotags>,
    pub beatgrid: Option<Beatgrid>,
    pub markers: Option<Markers>,
    pub markers2: Option<Markers2>,
    pub overview: Option<Overview>,
}

impl Container {
    /// The container's invariant: a slot is either absent or holds one
    /// complete, previously-validated record.
    pub open spec fn wf(self) -> bool {
        &&& (self.markers is Some ==> self.markers->0.wf())
        &&& (self.markers2 is Some ==> self.markers2->0.wf())
    }

    /// The cue index space: the extended record's cue markers, or empty.
    pub open spec fn spec_v2_cues(self) -> Seq<CueMarker> {
        if self.markers2 is Some {
            self.markers2->0.cues@
        } else {
            Seq::empty()
        }
    }

    /// The loop index space: the extended record's loop markers, or empty.
    pub open spec fn spec_v2_loops(self) -> Seq<LoopMarker> {
        if self.markers2 is Some {
            self.markers2->0.loops@
        } else {
            Seq::empty()
        }
    }

    /// The legacy record's entries, or empty.
    pub open spec fn spec_v1_entries(self) -> Seq<MarkerEntry> {
        if self.markers is Some {
            self.markers->0.entries@
        } else {
            Seq::empty()
        }
    }

    /// What `auto_gain` returns.
    pub open spec fn spec_auto_gain(self) -> Option<u64> {
        match self.autotags {
            Some(t) => Some(t.auto_gain),
            None => None,
        }
    }

    /// What `gain_db` returns.
    pub open spec fn spec_gain_db(self) -> Option<u64> {
        match self.autotags {
            Some(t) => Some(t.gain_db),
            None => None,
        }
    }

    /// The record that `beatgrid` returns a view of.
    pub open spec fn spec_beatgrid(self) -> Option<Beatgrid> {
        self.beatgrid
    }

    /// What `bpm_locked` returns.
    pub open spec fn spec_bpm_locked(self) -> Option<bool> {
        match self.markers2 {
            Some(m) => m.bpm_locked,
            None => None,
        }
    }

    /// What `cues` returns.
    pub open spec fn spec_cues(self) -> Seq<CueMarker> {
        reconcile_cues(self.spec_v2_cues(), self.spec_v1_entries())
    }

    /// What `loops` returns.
    pub open spec fn spec_loops(self) -> Seq<LoopMarker> {
        reconcile_loops(self.spec_v2_loops(), self.spec_v1_entries())
    }

    /// What `track_color` returns: the legacy record's color when that record
    /// is present, else the extended record's optional color, else absent.
    pub open spec fn spec_track_color(self) -> Option<Color> {
        if self.markers is Some {
            Some(self.markers->0.track_color)
        } else if self.markers2 is Some {
            self.markers2->0.track_color
        } else {
            None
        }
    }

    /// The data that `overview` returns a view of.
    pub open spec fn spec_overview(self) -> Option<Vec<Vec<u8>>> {
        match self.overview {
            Some(o) => Some(o.data),
            None => None,
        }
    }

    /// Creates an empty container: all six slots absent.
    pub fn new() -> (result: Container)
        ensures
            result.analysis is None,
            result.autotags is None,
            result.beatgrid is None,
            result.markers is None,
            result.markers2 is None,
            result.overview is None,
    {
        Container {
            analysis: None,
            autotags: None,
            beatgrid: None,
            markers: None,
            markers2: None,
            overview: None,
        }
    }

    /// Returns the auto-gain value (an IEEE-754 double bit pattern) from the
    /// gain record, or absent when that slot is empty.
    pub fn auto_gain(&self) -> (result: Option<u64>)
        ensures
            result == self.spec_auto_gain(),
    {
        match &self.autotags {
            Some(tag) => Some(tag.auto_gain),
            None => None,
        }
    }

    /// Returns the gain-in-decibels value (an IEEE-754 double bit pattern)
    /// from the gain record, or absent when that slot is empty.
    pub fn gain_db(&self) -> (result: Option<u64>)
        ensures
            result == self.spec_gain_db(),
    {
        match &self.autotags {
            Some(tag) => Some(tag.gain_db),
            None => None,
        }
    }

    /// Returns the non-terminal marker sequence and the terminal marker from
    /// the beat-grid record, or absent when that slot is empty.
    pub fn beatgrid(&self) -> (result: Option<(&Vec<NonTerminalMarker>, &TerminalMarker)>)
        ensures
            result is Some <==> self.spec_beatgrid() is Some,
            result is Some ==> *(result->0).0 == self.spec_beatgrid()->0.non_terminal_markers
                && *(result->0).1 == self.spec_beatgrid()->0.terminal_marker,
    {
        match &self.beatgrid {
            Some(tag) => Some((&tag.non_terminal_markers, &tag.terminal_marker)),
            None => None,
        }
    }

    /// Returns the BPM-lock flag from the extended markers record, or absent
    /// when that slot is empty or the record encodes no lock state.
    pub fn bpm_locked(&self) -> (result: Option<bool>)
        ensures
            result == self.spec_bpm_locked(),
    {
        match &self.markers2 {
            Some(m) => m.bpm_locked,
            None => None,
        }
    }

    /// Returns the authoritative cue list, reconciled from the two markers
    /// records and sorted ascending by index.
    ///
    /// The extended record seeds the cue set; the legacy record then
    /// overrides position and color, deletes invalidated or malformed
    /// entries, and never adds an index of its own. Labels always come from
    /// the extended record, which is the only one that can encode them.
    pub fn cues(&self) -> (result: Vec<CueMarker>)
        requires
            self.wf(),
        ensures
            result@ == self.spec_cues(),
            cue_indices_ascending(result@),
    {
        let mut result: Vec<CueMarker> = Vec::new();
        let m2 = match &self.markers2 {
            Some(m2) => m2,
            None => {
                proof {
                    assert(self.spec_v2_cues() == Seq::<CueMarker>::empty());
                    assert(self.spec_cues() == Seq::<CueMarker>::empty());
                }
                return result;
            },
        };
        let no_entries: Vec<MarkerEntry> = Vec::new();
        let entries: &Vec<MarkerEntry> = match &self.markers {
            Some(m) => &m.entries,
            None => &no_entries,
        };
        proof {
            assert(entries@ == self.spec_v1_entries());
            assert(entry_indices_ascending(entries@));
        }
        let ghost v1 = entries@;
        let mut j: usize = 0;
        while j < m2.cues.len()
            invariant
                j <= m2.cues.len(),
                entries@ == v1,
                entry_indices_ascending(v1),
                result@ == reconcile_cues(m2.cues@.take(j as int), v1),
            decreases m2.cues.len() - j,
        {
            let c = &m2.cues[j];
            proof {
                assert(m2.cues@.take(j + 1).take(j as int) =~= m2.cues@.take(j as int));
                assert(m2.cues@.take(j + 1).last() == m2.cues@[j as int]);
            }
            match find_entry(entries, c.index) {
                None => {
                    // The legacy record says nothing about this index: the
                    // extended cue is kept unchanged.
                    result.push(clone_cue(c));
                    proof {
                        assert(cue_outcome(v1, m2.cues@[j as int]) == Some(m2.cues@[j as int]));
                    }
                },
                Some(k) => {
                    proof {
                        lemma_entry_at_position(v1, k as int);
                    }
                    let e = &entries[k];
                    match e.kind {
                        EntryKind::Invalid => {
                            // An explicit deletion: the index must not appear
                            // in the result, whatever the extended record says.
                            proof {
                                assert(cue_outcome(v1, m2.cues@[j as int]) is None);
                            }
                        },
                        EntryKind::Cue => {
                            match e.start_position_millis {
                                Some(start) => {
                                    // Present in both records: the legacy
                                    // position and color win; the label is
                                    // preserved from the extended record.
                                    result.push(
                                        CueMarker {
                                            index: c.index,
                                            position_millis: start,
                                            color: e.color,
                                            label: clone_label(&c.label),
                                        },
                                    );
                                },
                                None => {
                                    // A cue entry without a start time is
                                    // malformed upstream data: the index is
                                    // dropped rather than failing the query.
                                    proof {
                                        assert(cue_outcome(v1, m2.cues@[j as int]) is None);
                                    }
                                },
                            }
                        },
                        _ => {
                            // An entry of a kind that is no cue decision is
                            // ignored: the extended cue is kept unchanged.
                            result.push(clone_cue(c));
                            proof {
                                assert(cue_outcome(v1, m2.cues@[j as int]) == Some(
                                    m2.cues@[j as int],
                                ));
                            }
                        },
                    }
                },
            }
            j += 1;
            proof {
                assert(result@ == reconcile_cues(m2.cues@.take(j as int), v1));
            }
        }
        proof {
            assert(m2.cues@.take(j as int) =~= m2.cues@);
            assert(cue_indices_ascending(m2.cues@));
            lemma_reconcile_cues_sorted(m2.cues@, v1);
        }
        result
    }

    /// Returns the authoritative loop list, reconciled from the two markers
    /// records and sorted ascending by index.
    ///
    /// The extended record seeds the loop set; a legacy loop entry then
    /// overrides start, end, color and lock flag, a legacy loop entry missing
    /// either time deletes the index, and entries of any other kind are
    /// ignored. Labels always come from the extended record.
    pub fn loops(&self) -> (result: Vec<LoopMarker>)
        requires
            self.wf(),
        ensures
            result@ == self.spec_loops(),
            loop_indices_ascending(result@),
    {
        let mut result: Vec<LoopMarker> = Vec::new();
        let m2 = match &self.markers2 {
            Some(m2) => m2,
            None => {
                proof {
                    assert(self.spec_v2_loops() == Seq::<LoopMarker>::empty());
                    assert(self.spec_loops() == Seq::<LoopMarker>::empty());
                }
                return result;
            },
        };
        let no_entries: Vec<MarkerEntry> = Vec::new();
        let entries: &Vec<MarkerEntry> = match &self.markers {
            Some(m) => &m.entries,
            None => &no_entries,
        };
        proof {
            assert(entries@ == self.spec_v1_entries());
            assert(entry_indices_ascending(entries@));
        }
        let ghost v1 = entries@;
        let mut j: usize = 0;
        while j < m2.loops.len()
            invariant
                j <= m2.loops.len(),
                entries@ == v1,
                entry_indices_ascending(v1),
                result@ == reconcile_loops(m2.loops@.take(j as int), v1),
            decreases m2.loops.len() - j,
        {
            let l = &m2.loops[j];
            proof {
                assert(m2.loops@.take(j + 1).take(j as int) =~= m2.loops@.take(j as int));
                assert(m2.loops@.take(j + 1).last() == m2.loops@[j as int]);
            }
            match find_entry(entries, l.index) {
                None => {
                    // The legacy record says nothing about this index: the
                    // extended loop is kept unchanged.
                    result.push(clone_loop(l));
                    proof {
                        assert(loop_outcome(v1, m2.loops@[j as int]) == Some(m2.loops@[j as int]));
                    }
                },
                Some(k) => {
                    proof {
                        lemma_entry_at_position(v1, k as int);
                    }
                    let e = &entries[k];
                    match e.kind {
                        EntryKind::Loop => {
                            match (e.start_position_millis, e.end_position_millis) {
                                (Some(start), Some(end)) => {
                                    // Present in both records: the legacy
                                    // times, color and lock flag win; the
                                    // label is preserved from the extended
                                    // record.
                                    result.push(
                                        LoopMarker {
                                            index: l.index,
                                            start_position_millis: start,
                                            end_position_millis: end,
                                            color: e.color,
                                            label: clone_label(&l.label),
                                            is_locked: e.is_locked,
                                        },
                                    );
                                },
                                _ => {
                                    // A loop entry missing either time is
                                    // malformed upstream data: the index is
                                    // dropped rather than failing the query.
                                    proof {
                                        assert(loop_outcome(v1, m2.loops@[j as int]) is None);
                                    }
                                },
                            }
                        },
                        _ => {
                            // An entry of a kind that is no loop decision is
                            // ignored: the extended loop is kept unchanged.
                            result.push(clone_loop(l));
                            proof {
                                assert(loop_outcome(v1, m2.loops@[j as int]) == Some(
                                    m2.loops@[j as int],
                                ));
                            }
                        },
                    }
                },
            }
            j += 1;
            proof {
                assert(result@ == reconcile_loops(m2.loops@.take(j as int), v1));
            }
        }
        proof {
            assert(m2.loops@.take(j as int) =~= m2.loops@);
            assert(loop_indices_ascending(m2.loops@));
            lemma_reconcile_loops_sorted(m2.loops@, v1);
        }
        result
    }

    /// Returns the overall track color: the legacy record's color when that
    /// record is present (it always wins for this single scalar fact), else
    /// the extended record's optional color, else absent.
    pub fn track_color(&self) -> (result: Option<Color>)
        ensures
            result == self.spec_track_color(),
    {
        let mut track_color: Option<Color> = None;
        match &self.markers2 {
            Some(m) => {
                track_color = m.track_color;
            },
            None => {},
        }
        match &self.markers {
            Some(m) => {
                track_color = Some(m.track_color);
            },
            None => {},
        }
        track_color
    }

    /// Returns the waveform overview rows, or absent when that slot is empty.
    pub fn overview(&self) -> (result: Option<&Vec<Vec<u8>>>)
        ensures
            result is Some <==> self.spec_overview() is Some,
            result is Some ==> *(result->0) == self.spec_overview()->0,
    {
        match &self.overview {
            Some(tag) => Some(&tag.data),
            None => None,
        }
    }
}

impl Default for Container {
    /// Same as `Container::new`: an empty container.
    fn default() -> (result: Self)
        ensures
            result.analysis is None,
            result.autotags is None,
            result.beatgrid is None,
            result.markers is None,
            result.markers2 is None,
            result.overview is None,
    {
        Container::new()
    }
}

/// Finds the position of the legacy entry carrying the given index, if any.
fn find_entry(entries: &Vec<MarkerEntry>, index: u8) -> (result: Option<usize>)
    ensures
        match result {
            Some(k) => k < entries@.len() && entries@[k as int].index == index,
            None => !has_entry(entries@, index),
        },
{
    let mut k: usize = 0;
    while k < entries.len()
        invariant
            k <= entries@.len(),
            forall|i: int| 0 <= i < k ==> entries@[i].index != index,
        decreases entries@.len() - k,
    {
        if entries[k].index == index {
            return Some(k);
        }
        k += 1;
    }
    None
}

/// Copies an optional label.
fn clone_label(label: &Option<String>) -> (result: Option<String>)
    ensures
        result == *label,
{
    match label {
        Some(s) => Some(s.clone()),
        None => None,
    }
}

/// Copies a cue marker, label included.
fn clone_cue(cue: &CueMarker) -> (result: CueMarker)
    ensures
        result == *cue,
{
    CueMarker {
        index: cue.index,
        position_millis: cue.position_millis,
        color: cue.color,
        label: clone_label(&cue.label),
    }
}

/// Copies a loop marker, label included.
fn clone_loop(lp: &LoopMarker) -> (result: LoopMarker)
    ensures
        result == *lp,
{
    LoopMarker {
        index: lp.index,
        start_position_millis: lp.start_position_millis,
        end_position_millis: lp.end_position_millis,
        color: lp.color,
        label: clone_label(&lp.label),
        is_locked: lp.is_locked,
    }
}

} // verus!
