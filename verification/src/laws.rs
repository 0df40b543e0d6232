//! The laws of the reconciliation layer, stated and proved once over the
//! same spec functions the queries' contracts use.
//!
//! The lemmas about cue reconciliation take the two records' marker
//! sequences together with their validity (distinct, ascending indices — the
//! part of record validation this layer relies on) and nothing else.

use vstd::prelude::*;

use crate::container::Container;
use crate::reconcile::{
    cue_outcome, has_entry, lemma_entry_at_position, lemma_reconcile_cues_elements,
    lemma_reconcile_cues_present, lemma_reconcile_cues_sorted, lemma_reconcile_loops_elements,
    lemma_reconcile_loops_present, lemma_reconcile_loops_sorted, loop_outcome, reconcile_cues,
    reconcile_loops,
};
use crate::tag::{
    Beatgrid, CueMarker, EntryKind, LoopMarker, MarkerEntry, cue_indices_ascending,
    entry_indices_ascending, loop_indices_ascending,
};
use crate::util::Color;

verus! {

/// When both records define a cue at the same index and the legacy entry is a
/// well-formed cue, the reconciled list carries at that index the legacy
/// position and color and the extended label.
pub proof fn lemma_cue_shared_index(
    cues: Seq<CueMarker>,
    entries: Seq<MarkerEntry>,
    j: int,
    k: int,
)
    requires
        cue_indices_ascending(cues),
        entry_indices_ascending(entries),
        0 <= j < cues.len(),
        0 <= k < entries.len(),
        entries[k].index == cues[j].index,
        entries[k].kind == EntryKind::Cue,
        entries[k].start_position_millis is Some,
    ensures
        exists|m: int|
            0 <= m < reconcile_cues(cues, entries).len() && #[trigger] reconcile_cues(
                cues,
                entries,
            )[m] == (CueMarker {
                index: cues[j].index,
                position_millis: entries[k].start_position_millis->0,
                color: entries[k].color,
                label: cues[j].label,
            }),
{
    lemma_entry_at_position(entries, k);
    assert(cue_outcome(entries, cues[j]) == Some(
        CueMarker {
            index: cues[j].index,
            position_millis: entries[k].start_position_millis->0,
            color: entries[k].color,
            label: cues[j].label,
        },
    ));
    lemma_reconcile_cues_present(cues, entries, j);
}

/// An index the legacy record marks invalid is absent from the reconciled cue
/// list, even when the extended record defines it.
pub proof fn lemma_cue_invalidated(cues: Seq<CueMarker>, entries: Seq<MarkerEntry>, k: int)
    requires
        cue_indices_ascending(cues),
        entry_indices_ascending(entries),
        0 <= k < entries.len(),
        entries[k].kind == EntryKind::Invalid,
    ensures
        forall|m: int|
            0 <= m < reconcile_cues(cues, entries).len() ==> #[trigger] reconcile_cues(
                cues,
                entries,
            )[m].index != entries[k].index,
{
    lemma_entry_at_position(entries, k);
    lemma_reconcile_cues_elements(cues, entries);
    let r = reconcile_cues(cues, entries);
    assert forall|m: int| 0 <= m < r.len() implies #[trigger] r[m].index
        != entries[k].index by {
        let j = choose|j: int|
            0 <= j < cues.len() && cue_outcome(entries, cues[j]) == Some(r[m]) && r[m].index
                == cues[j].index;
        if cues[j].index == entries[k].index {
            assert(cue_outcome(entries, cues[j]) is None);
        }
    }
}

/// A legacy cue entry without a start time is malformed; its index is absent
/// from the reconciled cue list.
pub proof fn lemma_cue_missing_start(cues: Seq<CueMarker>, entries: Seq<MarkerEntry>, k: int)
    requires
        cue_indices_ascending(cues),
        entry_indices_ascending(entries),
        0 <= k < entries.len(),
        entries[k].kind == EntryKind::Cue,
        entries[k].start_position_millis is None,
    ensures
        forall|m: int|
            0 <= m < reconcile_cues(cues, entries).len() ==> #[trigger] reconcile_cues(
                cues,
                entries,
            )[m].index != entries[k].index,
{
    lemma_entry_at_position(entries, k);
    lemma_reconcile_cues_elements(cues, entries);
    let r = reconcile_cues(cues, entries);
    assert forall|m: int| 0 <= m < r.len() implies #[trigger] r[m].index
        != entries[k].index by {
        let j = choose|j: int|
            0 <= j < cues.len() && cue_outcome(entries, cues[j]) == Some(r[m]) && r[m].index
                == cues[j].index;
        if cues[j].index == entries[k].index {
            assert(cue_outcome(entries, cues[j]) is None);
        }
    }
}

/// A cue whose index the legacy record never mentions is returned unchanged.
pub proof fn lemma_cue_v2_only(cues: Seq<CueMarker>, entries: Seq<MarkerEntry>, j: int)
    requires
        0 <= j < cues.len(),
        !has_entry(entries, cues[j].index),
    ensures
        exists|m: int|
            0 <= m < reconcile_cues(cues, entries).len() && #[trigger] reconcile_cues(
                cues,
                entries,
            )[m] == cues[j],
{
    assert(cue_outcome(entries, cues[j]) == Some(cues[j]));
    lemma_reconcile_cues_present(cues, entries, j);
}

/// An index only the legacy record mentions never appears in the reconciled
/// cue list: the index space comes from the extended record alone.
pub proof fn lemma_cue_v1_only(cues: Seq<CueMarker>, entries: Seq<MarkerEntry>, index: u8)
    requires
        forall|j: int| 0 <= j < cues.len() ==> #[trigger] cues[j].index != index,
    ensures
        forall|m: int|
            0 <= m < reconcile_cues(cues, entries).len() ==> #[trigger] reconcile_cues(
                cues,
                entries,
            )[m].index != index,
{
    lemma_reconcile_cues_elements(cues, entries);
    let r = reconcile_cues(cues, entries);
    assert forall|m: int| 0 <= m < r.len() implies #[trigger] r[m].index != index by {
        let j = choose|j: int|
            0 <= j < cues.len() && cue_outcome(entries, cues[j]) == Some(r[m]) && r[m].index
                == cues[j].index;
        assert(cues[j].index != index);
    }
}

/// A legacy entry whose kind makes no cue decision (neither a cue nor an
/// invalidation) is ignored: the extended cue at its index is returned
/// unchanged.
pub proof fn lemma_cue_other_kind_ignored(
    cues: Seq<CueMarker>,
    entries: Seq<MarkerEntry>,
    j: int,
    k: int,
)
    requires
        entry_indices_ascending(entries),
        0 <= j < cues.len(),
        0 <= k < entries.len(),
        entries[k].index == cues[j].index,
        entries[k].kind != EntryKind::Invalid,
        entries[k].kind != EntryKind::Cue,
    ensures
        exists|m: int|
            0 <= m < reconcile_cues(cues, entries).len() && #[trigger] reconcile_cues(
                cues,
                entries,
            )[m] == cues[j],
{
    lemma_entry_at_position(entries, k);
    assert(cue_outcome(entries, cues[j]) == Some(cues[j]));
    lemma_reconcile_cues_present(cues, entries, j);
}

/// Reconciled cue lists are strictly ascending by index, so no index repeats.
pub proof fn lemma_cues_ascending(cues: Seq<CueMarker>, entries: Seq<MarkerEntry>)
    requires
        cue_indices_ascending(cues),
    ensures
        cue_indices_ascending(reconcile_cues(cues, entries)),
{
    lemma_reconcile_cues_sorted(cues, entries);
}

/// Reconciled loop lists are strictly ascending by index, so no index
/// repeats.
pub proof fn lemma_loops_ascending(loops: Seq<LoopMarker>, entries: Seq<MarkerEntry>)
    requires
        loop_indices_ascending(loops),
    ensures
        loop_indices_ascending(reconcile_loops(loops, entries)),
{
    lemma_reconcile_loops_sorted(loops, entries);
}

/// When both records define a loop at the same index and the legacy entry is
/// a well-formed loop, the reconciled list carries at that index the legacy
/// times, color and lock flag and the extended label.
pub proof fn lemma_loop_shared_index(
    loops: Seq<LoopMarker>,
    entries: Seq<MarkerEntry>,
    j: int,
    k: int,
)
    requires
        loop_indices_ascending(loops),
        entry_indices_ascending(entries),
        0 <= j < loops.len(),
        0 <= k < entries.len(),
        entries[k].index == loops[j].index,
        entries[k].kind == EntryKind::Loop,
        entries[k].start_position_millis is Some,
        entries[k].end_position_millis is Some,
    ensures
        exists|m: int|
            0 <= m < reconcile_loops(loops, entries).len() && #[trigger] reconcile_loops(
                loops,
                entries,
            )[m] == (LoopMarker {
                index: loops[j].index,
                start_position_millis: entries[k].start_position_millis->0,
                end_position_millis: entries[k].end_position_millis->0,
                color: entries[k].color,
                label: loops[j].label,
                is_locked: entries[k].is_locked,
            }),
{
    lemma_entry_at_position(entries, k);
    assert(loop_outcome(entries, loops[j]) == Some(
        LoopMarker {
            index: loops[j].index,
            start_position_millis: entries[k].start_position_millis->0,
            end_position_millis: entries[k].end_position_millis->0,
            color: entries[k].color,
            label: loops[j].label,
            is_locked: entries[k].is_locked,
        },
    ));
    lemma_reconcile_loops_present(loops, entries, j);
}

/// A legacy loop entry missing either time is malformed; its index is absent
/// from the reconciled loop list.
pub proof fn lemma_loop_missing_time(loops: Seq<LoopMarker>, entries: Seq<MarkerEntry>, k: int)
    requires
        loop_indices_ascending(loops),
        entry_indices_ascending(entries),
        0 <= k < entries.len(),
        entries[k].kind == EntryKind::Loop,
        entries[k].start_position_millis is None || entries[k].end_position_millis is None,
    ensures
        forall|m: int|
            0 <= m < reconcile_loops(loops, entries).len() ==> #[trigger] reconcile_loops(
                loops,
                entries,
            )[m].index != entries[k].index,
{
    lemma_entry_at_position(entries, k);
    lemma_reconcile_loops_elements(loops, entries);
    let r = reconcile_loops(loops, entries);
    assert forall|m: int| 0 <= m < r.len() implies #[trigger] r[m].index
        != entries[k].index by {
        let j = choose|j: int|
            0 <= j < loops.len() && loop_outcome(entries, loops[j]) == Some(r[m]) && r[m].index
                == loops[j].index;
        if loops[j].index == entries[k].index {
            assert(loop_outcome(entries, loops[j]) is None);
        }
    }
}

/// A loop whose index the legacy record never mentions is returned
/// unchanged.
pub proof fn lemma_loop_v2_only(loops: Seq<LoopMarker>, entries: Seq<MarkerEntry>, j: int)
    requires
        0 <= j < loops.len(),
        !has_entry(entries, loops[j].index),
    ensures
        exists|m: int|
            0 <= m < reconcile_loops(loops, entries).len() && #[trigger] reconcile_loops(
                loops,
                entries,
            )[m] == loops[j],
{
    assert(loop_outcome(entries, loops[j]) == Some(loops[j]));
    lemma_reconcile_loops_present(loops, entries, j);
}

/// A legacy entry whose kind makes no loop decision (an invalidation
/// included) is ignored: the extended loop at its index is returned
/// unchanged.
pub proof fn lemma_loop_other_kind_ignored(
    loops: Seq<LoopMarker>,
    entries: Seq<MarkerEntry>,
    j: int,
    k: int,
)
    requires
        entry_indices_ascending(entries),
        0 <= j < loops.len(),
        0 <= k < entries.len(),
        entries[k].index == loops[j].index,
        entries[k].kind != EntryKind::Loop,
    ensures
        exists|m: int|
            0 <= m < reconcile_loops(loops, entries).len() && #[trigger] reconcile_loops(
                loops,
                entries,
            )[m] == loops[j],
{
    lemma_entry_at_position(entries, k);
    assert(loop_outcome(entries, loops[j]) == Some(loops[j]));
    lemma_reconcile_loops_present(loops, entries, j);
}

/// An index only the legacy record mentions never appears in the reconciled
/// loop list: the index space comes from the extended record alone.
pub proof fn lemma_loop_v1_only(loops: Seq<LoopMarker>, entries: Seq<MarkerEntry>, index: u8)
    requires
        forall|j: int| 0 <= j < loops.len() ==> #[trigger] loops[j].index != index,
    ensures
        forall|m: int|
            0 <= m < reconcile_loops(loops, entries).len() ==> #[trigger] reconcile_loops(
                loops,
                entries,
            )[m].index != index,
{
    lemma_reconcile_loops_elements(loops, entries);
    let r = reconcile_loops(loops, entries);
    assert forall|m: int| 0 <= m < r.len() implies #[trigger] r[m].index != index by {
        let j = choose|j: int|
            0 <= j < loops.len() && loop_outcome(entries, loops[j]) == Some(r[m]) && r[m].index
                == loops[j].index;
        assert(loops[j].index != index);
    }
}

/// Track-color precedence: with the legacy record present its color wins;
/// with only the extended record present its optional color is returned;
/// with neither, the color is absent.
pub proof fn lemma_track_color_precedence(c: Container)
    ensures
        c.markers is Some ==> c.spec_track_color() == Some(c.markers->0.track_color),
        c.markers is None && c.markers2 is Some ==> c.spec_track_color()
            == c.markers2->0.track_color,
        c.markers is None && c.markers2 is None ==> c.spec_track_color() is None,
{
}

/// Querying cues twice on an unchanged container yields identical results.
pub proof fn lemma_cues_idempotent(c: Container, r1: Seq<CueMarker>, r2: Seq<CueMarker>)
    requires
        r1 == c.spec_cues(),
        r2 == c.spec_cues(),
    ensures
        r1 == r2,
{
}

/// Querying loops twice on an unchanged container yields identical results.
pub proof fn lemma_loops_idempotent(c: Container, r1: Seq<LoopMarker>, r2: Seq<LoopMarker>)
    requires
        r1 == c.spec_loops(),
        r2 == c.spec_loops(),
    ensures
        r1 == r2,
{
}

/// Querying the track color twice on an unchanged container yields identical
/// results.
pub proof fn lemma_track_color_idempotent(c: Container, r1: Option<Color>, r2: Option<Color>)
    requires
        r1 == c.spec_track_color(),
        r2 == c.spec_track_color(),
    ensures
        r1 == r2,
{
}

/// Querying either gain value twice on an unchanged container yields
/// identical results.
pub proof fn lemma_gain_idempotent(c: Container, r1: Option<u64>, r2: Option<u64>)
    requires
        (r1 == c.spec_auto_gain() && r2 == c.spec_auto_gain()) || (r1 == c.spec_gain_db() && r2
            == c.spec_gain_db()),
    ensures
        r1 == r2,
{
}

/// Querying the beat grid twice on an unchanged container yields views of
/// identical records.
pub proof fn lemma_beatgrid_idempotent(c: Container, r1: Option<Beatgrid>, r2: Option<Beatgrid>)
    requires
        r1 == c.spec_beatgrid(),
        r2 == c.spec_beatgrid(),
    ensures
        r1 == r2,
{
}

/// Querying the BPM lock twice on an unchanged container yields identical
/// results.
pub proof fn lemma_bpm_locked_idempotent(c: Container, r1: Option<bool>, r2: Option<bool>)
    requires
        r1 == c.spec_bpm_locked(),
        r2 == c.spec_bpm_locked(),
    ensures
        r1 == r2,
{
}

/// Querying the overview twice on an unchanged container yields views of
/// identical data.
pub proof fn lemma_overview_idempotent(
    c: Container,
    r1: Option<Vec<Vec<u8>>>,
    r2: Option<Vec<Vec<u8>>>,
)
    requires
        r1 == c.spec_overview(),
        r2 == c.spec_overview(),
    ensures
        r1 == r2,
{
}

} // verus!
