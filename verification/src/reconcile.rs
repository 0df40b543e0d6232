//! The ordered precedence merge that reconciles the two markers records.
//!
//! The extended record (the lower-precedence source) seeds the index space;
//! the legacy record (the higher-precedence source) then overrides or deletes
//! per index. An index only the legacy record mentions is never added: the
//! index space comes from the extended record alone, which mirrors the
//! producing ecosystem's behavior.

use vstd::prelude::*;

use crate::tag::{CueMarker, EntryKind, LoopMarker, MarkerEntry};

verus! {

/// True when some legacy entry carries the given index.
pub open spec fn has_entry(entries: Seq<MarkerEntry>, index: u8) -> bool {
    exists|k: int| 0 <= k < entries.len() && entries[k].index == index
}

/// The legacy entry carrying the given index. Meaningful when the index is
/// present and the entries are keyed by distinct indices.
pub open spec fn entry_at(entries: Seq<MarkerEntry>, index: u8) -> MarkerEntry
    recommends
        has_entry(entries, index),
{
    entries[choose|k: int| 0 <= k < entries.len() && entries[k].index == index]
}

/// With distinct ascending entry indices, a position that carries an index is
/// the one `entry_at` denotes.
pub proof fn lemma_entry_at_position(entries: Seq<MarkerEntry>, k: int)
    requires
        crate::tag::entry_indices_ascending(entries),
        0 <= k < entries.len(),
    ensures
        has_entry(entries, entries[k].index),
        entry_at(entries, entries[k].index) == entries[k],
{
    assert(has_entry(entries, entries[k].index));
    let k2 = choose|i: int| 0 <= i < entries.len() && entries[i].index == entries[k].index;
    if k2 < k {
        assert(entries[k2].index < entries[k].index);
    }
    if k < k2 {
        assert(entries[k].index < entries[k2].index);
    }
}

/// What the legacy record decides about one extended cue marker:
/// - no legacy entry at its index: the cue is kept unchanged;
/// - an `Invalid` entry: the cue is deleted;
/// - a `Cue` entry with a start time: position and color are replaced by the
///   legacy values while the label is preserved (the legacy record cannot
///   encode labels);
/// - a `Cue` entry without a start time is malformed: the cue is deleted;
/// - an entry of any other kind is ignored: the cue is kept unchanged.
pub open spec fn cue_outcome(entries: Seq<MarkerEntry>, cue: CueMarker) -> Option<CueMarker> {
    if !has_entry(entries, cue.index) {
        Some(cue)
    } else {
        let e = entry_at(entries, cue.index);
        if e.kind == EntryKind::Invalid {
            None
        } else if e.kind == EntryKind::Cue {
            match e.start_position_millis {
                Some(start) => Some(
                    CueMarker {
                        index: cue.index,
                        position_millis: start,
                        color: e.color,
                        label: cue.label,
                    },
                ),
                None => None,
            }
        } else {
            Some(cue)
        }
    }
}

/// What the legacy record decides about one extended loop marker:
/// - no legacy entry at its index: the loop is kept unchanged;
/// - a `Loop` entry with both times: start, end, color and lock flag are
///   replaced by the legacy values while the label is preserved;
/// - a `Loop` entry missing either time is malformed: the loop is deleted;
/// - an entry of any other kind (`Invalid` included) is ignored: the loop is
///   kept unchanged.
pub open spec fn loop_outcome(entries: Seq<MarkerEntry>, lp: LoopMarker) -> Option<LoopMarker> {
    if !has_entry(entries, lp.index) {
        Some(lp)
    } else {
        let e = entry_at(entries, lp.index);
        if e.kind == EntryKind::Loop {
            match (e.start_position_millis, e.end_position_millis) {
                (Some(start), Some(end)) => Some(
                    LoopMarker {
                        index: lp.index,
                        start_position_millis: start,
                        end_position_millis: end,
                        color: e.color,
                        label: lp.label,
                        is_locked: e.is_locked,
                    },
                ),
                _ => None,
            }
        } else {
            Some(lp)
        }
    }
}

/// The reconciled cue list: each extended cue in order, kept, replaced or
/// deleted according to the legacy entry at its index.
pub open spec fn reconcile_cues(cues: Seq<CueMarker>, entries: Seq<MarkerEntry>) -> Seq<CueMarker>
    decreases cues.len(),
{
    if cues.len() == 0 {
        Seq::empty()
    } else {
        let init = reconcile_cues(cues.take(cues.len() - 1), entries);
        match cue_outcome(entries, cues.last()) {
            Some(c) => init.push(c),
            None => init,
        }
    }
}

/// The reconciled loop list: each extended loop in order, kept, replaced or
/// deleted according to the legacy entry at its index.
pub open spec fn reconcile_loops(loops: Seq<LoopMarker>, entries: Seq<MarkerEntry>) -> Seq<
    LoopMarker,
>
    decreases loops.len(),
{
    if loops.len() == 0 {
        Seq::empty()
    } else {
        let init = reconcile_loops(loops.take(loops.len() - 1), entries);
        match loop_outcome(entries, loops.last()) {
            Some(l) => init.push(l),
            None => init,
        }
    }
}

/// Every reconciled cue is the outcome of exactly the extended cue whose
/// index it carries: reconciliation invents no markers.
pub proof fn lemma_reconcile_cues_elements(cues: Seq<CueMarker>, entries: Seq<MarkerEntry>)
    ensures
        forall|m: int|
            0 <= m < reconcile_cues(cues, entries).len() ==> exists|j: int|
                0 <= j < cues.len() && cue_outcome(entries, cues[j]) == Some(
                    #[trigger] reconcile_cues(cues, entries)[m],
                ) && reconcile_cues(cues, entries)[m].index == cues[j].index,
    decreases cues.len(),
{
    if cues.len() == 0 {
    } else {
        let prefix = cues.take(cues.len() - 1);
        lemma_reconcile_cues_elements(prefix, entries);
        let init = reconcile_cues(prefix, entries);
        let r = reconcile_cues(cues, entries);
        assert forall|m: int| 0 <= m < r.len() implies exists|j: int|
            0 <= j < cues.len() && cue_outcome(entries, cues[j]) == Some(#[trigger] r[m])
                && r[m].index == cues[j].index by {
            if m < init.len() {
                let j = choose|j: int|
                    0 <= j < prefix.len() && cue_outcome(entries, prefix[j]) == Some(init[m])
                        && init[m].index == prefix[j].index;
                assert(prefix[j] == cues[j]);
                assert(r[m] == init[m]);
            } else {
                let j = cues.len() - 1;
                assert(cues.last() == cues[j]);
                assert(r[m] == cue_outcome(entries, cues[j])->0);
            }
        }
    }
}

/// Every extended cue with a surviving outcome appears in the reconciled
/// list: reconciliation loses no marker it should keep.
pub proof fn lemma_reconcile_cues_present(
    cues: Seq<CueMarker>,
    entries: Seq<MarkerEntry>,
    j: int,
)
    requires
        0 <= j < cues.len(),
        cue_outcome(entries, cues[j]) is Some,
    ensures
        exists|m: int|
            0 <= m < reconcile_cues(cues, entries).len() && #[trigger] reconcile_cues(
                cues,
                entries,
            )[m] == cue_outcome(entries, cues[j])->0,
    decreases cues.len(),
{
    let prefix = cues.take(cues.len() - 1);
    let init = reconcile_cues(prefix, entries);
    let r = reconcile_cues(cues, entries);
    if j == cues.len() - 1 {
        assert(cues.last() == cues[j]);
        assert(r[init.len() as int] == cue_outcome(entries, cues[j])->0);
    } else {
        assert(prefix[j] == cues[j]);
        lemma_reconcile_cues_present(prefix, entries, j);
        let m = choose|m: int|
            0 <= m < init.len() && #[trigger] init[m] == cue_outcome(entries, prefix[j])->0;
        assert(r[m] == init[m]);
    }
}

/// Reconciliation keeps the cue list strictly ascending by index.
pub proof fn lemma_reconcile_cues_sorted(cues: Seq<CueMarker>, entries: Seq<MarkerEntry>)
    requires
        crate::tag::cue_indices_ascending(cues),
    ensures
        crate::tag::cue_indices_ascending(reconcile_cues(cues, entries)),
    decreases cues.len(),
{
    if cues.len() == 0 {
    } else {
        let prefix = cues.take(cues.len() - 1);
        assert(crate::tag::cue_indices_ascending(prefix));
        lemma_reconcile_cues_sorted(prefix, entries);
        lemma_reconcile_cues_elements(prefix, entries);
        let init = reconcile_cues(prefix, entries);
        let r = reconcile_cues(cues, entries);
        match cue_outcome(entries, cues.last()) {
            Some(c) => {
                assert(c.index == cues.last().index);
                assert forall|i: int, j: int| 0 <= i < j < r.len() implies r[i].index
                    < r[j].index by {
                    if j < init.len() {
                        assert(r[i] == init[i] && r[j] == init[j]);
                    } else {
                        assert(r[j] == c);
                        let ji = choose|k: int|
                            0 <= k < prefix.len() && cue_outcome(entries, prefix[k]) == Some(
                                init[i],
                            ) && init[i].index == prefix[k].index;
                        assert(prefix[ji] == cues[ji]);
                        assert(cues[ji].index < cues.last().index);
                    }
                }
            },
            None => {},
        }
    }
}

/// Every reconciled loop is the outcome of exactly the extended loop whose
/// index it carries: reconciliation invents no markers.
pub proof fn lemma_reconcile_loops_elements(loops: Seq<LoopMarker>, entries: Seq<MarkerEntry>)
    ensures
        forall|m: int|
            0 <= m < reconcile_loops(loops, entries).len() ==> exists|j: int|
                0 <= j < loops.len() && loop_outcome(entries, loops[j]) == Some(
                    #[trigger] reconcile_loops(loops, entries)[m],
                ) && reconcile_loops(loops, entries)[m].index == loops[j].index,
    decreases loops.len(),
{
    if loops.len() == 0 {
    } else {
        let prefix = loops.take(loops.len() - 1);
        lemma_reconcile_loops_elements(prefix, entries);
        let init = reconcile_loops(prefix, entries);
        let r = reconcile_loops(loops, entries);
        assert forall|m: int| 0 <= m < r.len() implies exists|j: int|
            0 <= j < loops.len() && loop_outcome(entries, loops[j]) == Some(#[trigger] r[m])
                && r[m].index == loops[j].index by {
            if m < init.len() {
                let j = choose|j: int|
                    0 <= j < prefix.len() && loop_outcome(entries, prefix[j]) == Some(init[m])
                        && init[m].index == prefix[j].index;
                assert(prefix[j] == loops[j]);
                assert(r[m] == init[m]);
            } else {
                let j = loops.len() - 1;
                assert(loops.last() == loops[j]);
                assert(r[m] == loop_outcome(entries, loops[j])->0);
            }
        }
    }
}

/// Every extended loop with a surviving outcome appears in the reconciled
/// list: reconciliation loses no marker it should keep.
pub proof fn lemma_reconcile_loops_present(
    loops: Seq<LoopMarker>,
    entries: Seq<MarkerEntry>,
    j: int,
)
    requires
        0 <= j < loops.len(),
        loop_outcome(entries, loops[j]) is Some,
    ensures
        exists|m: int|
            0 <= m < reconcile_loops(loops, entries).len() && #[trigger] reconcile_loops(
                loops,
                entries,
            )[m] == loop_outcome(entries, loops[j])->0,
    decreases loops.len(),
{
    let prefix = loops.take(loops.len() - 1);
    let init = reconcile_loops(prefix, entries);
    let r = reconcile_loops(loops, entries);
    if j == loops.len() - 1 {
        assert(loops.last() == loops[j]);
        assert(r[init.len() as int] == loop_outcome(entries, loops[j])->0);
    } else {
        assert(prefix[j] == loops[j]);
        lemma_reconcile_loops_present(prefix, entries, j);
        let m = choose|m: int|
            0 <= m < init.len() && #[trigger] init[m] == loop_outcome(entries, prefix[j])->0;
        assert(r[m] == init[m]);
    }
}

/// Reconciliation keeps the loop list strictly ascending by index.
pub proof fn lemma_reconcile_loops_sorted(loops: Seq<LoopMarker>, entries: Seq<MarkerEntry>)
    requires
        crate::tag::loop_indices_ascending(loops),
    ensures
        crate::tag::loop_indices_ascending(reconcile_loops(loops, entries)),
    decreases loops.len(),
{
    if loops.len() == 0 {
    } else {
        let prefix = loops.take(loops.len() - 1);
        assert(crate::tag::loop_indices_ascending(prefix));
        lemma_reconcile_loops_sorted(prefix, entries);
        lemma_reconcile_loops_elements(prefix, entries);
        let init = reconcile_loops(prefix, entries);
        let r = reconcile_loops(loops, entries);
        match loop_outcome(entries, loops.last()) {
            Some(l) => {
                assert(l.index == loops.last().index);
                assert forall|i: int, j: int| 0 <= i < j < r.len() implies r[i].index
                    < r[j].index by {
                    if j < init.len() {
                        assert(r[i] == init[i] && r[j] == init[j]);
                    } else {
                        assert(r[j] == l);
                        let ji = choose|k: int|
                            0 <= k < prefix.len() && loop_outcome(entries, prefix[k]) == Some(
                                init[i],
                            ) && init[i].index == prefix[k].index;
                        assert(prefix[ji] == loops[ji]);
                        assert(loops[ji].index < loops.last().index);
                    }
                }
            },
            None => {},
        }
    }
}

} // verus!
