use serato_tags::container::Container;
use serato_tags::tag::{
    Autotags, Beatgrid, CueMarker, EntryKind, LoopMarker, MarkerEntry, Markers, Markers2,
    NonTerminalMarker, Overview, TerminalMarker,
};
use serato_tags::util::Color;

const RED: Color = Color { red: 204, green: 0, blue: 0 };
const GREEN: Color = Color { red: 0, green: 204, blue: 0 };
const BLUE: Color = Color { red: 0, green: 0, blue: 204 };
const WHITE: Color = Color { red: 255, green: 255, blue: 255 };

fn cue(index: u8, position_millis: u32, color: Color, label: Option<&str>) -> CueMarker {
    CueMarker { index, position_millis, color, label: label.map(|s| s.to_string()) }
}

fn lp(
    index: u8,
    start: u32,
    end: u32,
    color: Color,
    label: Option<&str>,
    is_locked: bool,
) -> LoopMarker {
    LoopMarker {
        index,
        start_position_millis: start,
        end_position_millis: end,
        color,
        label: label.map(|s| s.to_string()),
        is_locked,
    }
}

fn entry(
    index: u8,
    kind: EntryKind,
    start: Option<u32>,
    end: Option<u32>,
    color: Color,
    is_locked: bool,
) -> MarkerEntry {
    MarkerEntry {
        index,
        kind,
        start_position_millis: start,
        end_position_millis: end,
        color,
        is_locked,
    }
}

fn markers2(cues: Vec<CueMarker>, loops: Vec<LoopMarker>) -> Markers2 {
    Markers2 { cues, loops, track_color: None, bpm_locked: None }
}

fn markers(entries: Vec<MarkerEntry>, track_color: Color) -> Markers {
    Markers { entries, track_color }
}

#[test]
fn empty_container_all_queries_absent() {
    let c = Container::new();
    assert_eq!(c.auto_gain(), None);
    assert_eq!(c.gain_db(), None);
    assert!(c.beatgrid().is_none());
    assert_eq!(c.bpm_locked(), None);
    assert_eq!(c.cues(), Vec::new());
    assert_eq!(c.loops(), Vec::new());
    assert_eq!(c.track_color(), None);
    assert!(c.overview().is_none());
}

#[test]
fn default_container_is_empty() {
    let c = Container::default();
    assert_eq!(c.cues(), Vec::new());
    assert_eq!(c.loops(), Vec::new());
    assert_eq!(c.track_color(), None);
}

#[test]
fn cue_override_takes_v1_position_and_color_keeps_v2_label() {
    let mut c = Container::new();
    c.markers2 = Some(markers2(vec![cue(3, 1000, BLUE, Some("Intro"))], Vec::new()));
    c.markers = Some(markers(
        vec![entry(3, EntryKind::Cue, Some(1200), None, RED, false)],
        WHITE,
    ));
    assert_eq!(c.cues(), vec![cue(3, 1200, RED, Some("Intro"))]);
}

#[test]
fn cue_invalid_in_v1_removes_v2_cue() {
    let mut c = Container::new();
    c.markers2 = Some(markers2(vec![cue(5, 4000, BLUE, Some("Drop"))], Vec::new()));
    c.markers = Some(markers(
        vec![entry(5, EntryKind::Invalid, None, None, WHITE, false)],
        WHITE,
    ));
    assert_eq!(c.cues(), Vec::new());
}

#[test]
fn cue_missing_start_in_v1_removes_v2_cue() {
    let mut c = Container::new();
    c.markers2 = Some(markers2(vec![cue(2, 700, GREEN, None)], Vec::new()));
    c.markers = Some(markers(
        vec![entry(2, EntryKind::Cue, None, None, RED, false)],
        WHITE,
    ));
    assert_eq!(c.cues(), Vec::new());
}

#[test]
fn cue_only_in_v2_returned_unchanged() {
    let mut c = Container::new();
    c.markers2 = Some(markers2(vec![cue(1, 250, GREEN, Some("Verse"))], Vec::new()));
    c.markers = Some(markers(
        vec![entry(4, EntryKind::Cue, Some(900), None, RED, false)],
        WHITE,
    ));
    assert_eq!(c.cues(), vec![cue(1, 250, GREEN, Some("Verse"))]);
}

#[test]
fn cue_only_in_v1_is_not_added() {
    let mut c = Container::new();
    c.markers2 = Some(markers2(Vec::new(), Vec::new()));
    c.markers = Some(markers(
        vec![entry(0, EntryKind::Cue, Some(100), None, RED, false)],
        WHITE,
    ));
    assert_eq!(c.cues(), Vec::new());
}

#[test]
fn cues_without_v1_record_returned_as_is() {
    let mut c = Container::new();
    c.markers2 = Some(markers2(
        vec![cue(0, 100, BLUE, Some("One")), cue(3, 400, RED, None)],
        Vec::new(),
    ));
    assert_eq!(c.cues(), vec![cue(0, 100, BLUE, Some("One")), cue(3, 400, RED, None)]);
}

#[test]
fn cue_entry_of_unknown_kind_is_ignored() {
    let mut c = Container::new();
    c.markers2 = Some(markers2(vec![cue(2, 600, BLUE, Some("Bridge"))], Vec::new()));
    c.markers = Some(markers(
        vec![entry(2, EntryKind::Unknown, Some(999), None, RED, false)],
        WHITE,
    ));
    assert_eq!(c.cues(), vec![cue(2, 600, BLUE, Some("Bridge"))]);
}

#[test]
fn cues_are_sorted_ascending_without_duplicates() {
    let mut c = Container::new();
    c.markers2 = Some(markers2(
        vec![
            cue(0, 10, BLUE, None),
            cue(2, 30, BLUE, Some("A")),
            cue(4, 50, BLUE, None),
            cue(6, 70, BLUE, Some("B")),
        ],
        Vec::new(),
    ));
    c.markers = Some(markers(
        vec![
            entry(2, EntryKind::Cue, Some(35), None, RED, false),
            entry(3, EntryKind::Cue, Some(45), None, RED, false),
            entry(4, EntryKind::Invalid, None, None, WHITE, false),
        ],
        WHITE,
    ));
    let cues = c.cues();
    assert_eq!(
        cues,
        vec![cue(0, 10, BLUE, None), cue(2, 35, RED, Some("A")), cue(6, 70, BLUE, Some("B"))]
    );
    for pair in cues.windows(2) {
        assert!(pair[0].index < pair[1].index);
    }
}

#[test]
fn loop_override_takes_v1_times_color_lock_keeps_v2_label() {
    let mut c = Container::new();
    c.markers2 = Some(markers2(
        Vec::new(),
        vec![lp(1, 1000, 2000, BLUE, Some("Groove"), false)],
    ));
    c.markers = Some(markers(
        vec![entry(1, EntryKind::Loop, Some(1100), Some(2200), RED, true)],
        WHITE,
    ));
    assert_eq!(c.loops(), vec![lp(1, 1100, 2200, RED, Some("Groove"), true)]);
}

#[test]
fn loop_missing_end_in_v1_removes_v2_loop() {
    let mut c = Container::new();
    c.markers2 = Some(markers2(Vec::new(), vec![lp(0, 500, 900, BLUE, None, false)]));
    c.markers = Some(markers(
        vec![entry(0, EntryKind::Loop, Some(550), None, RED, false)],
        WHITE,
    ));
    assert_eq!(c.loops(), Vec::new());
}

#[test]
fn loop_missing_start_in_v1_removes_v2_loop() {
    let mut c = Container::new();
    c.markers2 = Some(markers2(Vec::new(), vec![lp(0, 500, 900, BLUE, None, false)]));
    c.markers = Some(markers(
        vec![entry(0, EntryKind::Loop, None, Some(950), RED, false)],
        WHITE,
    ));
    assert_eq!(c.loops(), Vec::new());
}

#[test]
fn loop_entry_of_other_kind_is_ignored() {
    // Unlike for cues, an invalid legacy entry makes no loop decision: the
    // extended loop stays.
    let mut c = Container::new();
    c.markers2 = Some(markers2(Vec::new(), vec![lp(2, 100, 200, BLUE, Some("Keep"), true)]));
    c.markers = Some(markers(
        vec![entry(2, EntryKind::Invalid, None, None, WHITE, false)],
        WHITE,
    ));
    assert_eq!(c.loops(), vec![lp(2, 100, 200, BLUE, Some("Keep"), true)]);
}

#[test]
fn loop_only_in_v1_is_not_added() {
    let mut c = Container::new();
    c.markers2 = Some(markers2(Vec::new(), Vec::new()));
    c.markers = Some(markers(
        vec![entry(7, EntryKind::Loop, Some(10), Some(20), RED, false)],
        WHITE,
    ));
    assert_eq!(c.loops(), Vec::new());
}

#[test]
fn loops_are_sorted_ascending_without_duplicates() {
    let mut c = Container::new();
    c.markers2 = Some(markers2(
        Vec::new(),
        vec![
            lp(0, 10, 20, BLUE, None, false),
            lp(3, 40, 50, BLUE, Some("L"), false),
            lp(5, 60, 70, BLUE, None, true),
        ],
    ));
    c.markers = Some(markers(
        vec![
            entry(3, EntryKind::Loop, Some(41), Some(51), RED, true),
            entry(5, EntryKind::Loop, None, None, RED, false),
        ],
        WHITE,
    ));
    let loops = c.loops();
    assert_eq!(
        loops,
        vec![lp(0, 10, 20, BLUE, None, false), lp(3, 41, 51, RED, Some("L"), true)]
    );
    for pair in loops.windows(2) {
        assert!(pair[0].index < pair[1].index);
    }
}

#[test]
fn track_color_from_v2_then_overridden_by_v1() {
    let mut c = Container::new();
    c.markers2 = Some(Markers2 {
        cues: Vec::new(),
        loops: Vec::new(),
        track_color: Some(BLUE),
        bpm_locked: None,
    });
    assert_eq!(c.track_color(), Some(BLUE));

    let mut c2 = Container::new();
    c2.markers2 = Some(Markers2 {
        cues: Vec::new(),
        loops: Vec::new(),
        track_color: Some(BLUE),
        bpm_locked: None,
    });
    c2.markers = Some(markers(Vec::new(), GREEN));
    assert_eq!(c2.track_color(), Some(GREEN));
}

#[test]
fn track_color_from_v1_alone() {
    let mut c = Container::new();
    c.markers = Some(markers(Vec::new(), RED));
    assert_eq!(c.track_color(), Some(RED));
}

#[test]
fn track_color_absent_when_v2_carries_none_and_no_v1() {
    let mut c = Container::new();
    c.markers2 = Some(markers2(Vec::new(), Vec::new()));
    assert_eq!(c.track_color(), None);
}

#[test]
fn gain_values_pass_through_unchanged() {
    let auto_gain = (0.5f64).to_bits();
    let gain_db = (-3.25f64).to_bits();
    let mut c = Container::new();
    c.autotags = Some(Autotags { auto_gain, gain_db });
    assert_eq!(c.auto_gain(), Some(auto_gain));
    assert_eq!(c.gain_db(), Some(gain_db));
    assert_eq!(f64::from_bits(c.gain_db().unwrap()), -3.25);
}

#[test]
fn beatgrid_passes_markers_through() {
    let non_terminal = vec![
        NonTerminalMarker { position: (0.0f32).to_bits(), beats_till_next_marker: 16 },
        NonTerminalMarker { position: (8.0f32).to_bits(), beats_till_next_marker: 32 },
    ];
    let terminal = TerminalMarker { position: (24.0f32).to_bits(), bpm: (120.0f32).to_bits() };
    let mut c = Container::new();
    c.beatgrid = Some(Beatgrid {
        non_terminal_markers: non_terminal.clone(),
        terminal_marker: terminal,
    });
    let (nt, t) = c.beatgrid().unwrap();
    assert_eq!(*nt, non_terminal);
    assert_eq!(*t, terminal);
}

#[test]
fn bpm_locked_reflects_v2_flag() {
    let mut c = Container::new();
    assert_eq!(c.bpm_locked(), None);
    c.markers2 = Some(markers2(Vec::new(), Vec::new()));
    assert_eq!(c.bpm_locked(), None);
    let mut c2 = Container::new();
    c2.markers2 = Some(Markers2 {
        cues: Vec::new(),
        loops: Vec::new(),
        track_color: None,
        bpm_locked: Some(true),
    });
    assert_eq!(c2.bpm_locked(), Some(true));
}

#[test]
fn overview_passes_rows_through() {
    let rows = vec![vec![1u8, 2, 3], vec![4u8, 5, 6]];
    let mut c = Container::new();
    c.overview = Some(Overview { data: rows.clone() });
    assert_eq!(*c.overview().unwrap(), rows);
}

#[test]
fn queries_are_idempotent_without_slot_mutation() {
    let mut c = Container::new();
    c.autotags = Some(Autotags { auto_gain: 17, gain_db: 23 });
    c.beatgrid = Some(Beatgrid {
        non_terminal_markers: vec![NonTerminalMarker { position: 7, beats_till_next_marker: 4 }],
        terminal_marker: TerminalMarker { position: 11, bpm: 13 },
    });
    c.markers2 = Some(Markers2 {
        cues: vec![cue(0, 10, BLUE, Some("A")), cue(1, 20, BLUE, None)],
        loops: vec![lp(0, 5, 15, GREEN, Some("B"), false)],
        track_color: Some(BLUE),
        bpm_locked: Some(false),
    });
    c.markers = Some(markers(
        vec![
            entry(0, EntryKind::Cue, Some(12), None, RED, false),
            entry(1, EntryKind::Invalid, None, None, WHITE, false),
        ],
        GREEN,
    ));
    c.overview = Some(Overview { data: vec![vec![9u8]] });

    assert_eq!(c.auto_gain(), c.auto_gain());
    assert_eq!(c.gain_db(), c.gain_db());
    assert_eq!(c.beatgrid(), c.beatgrid());
    assert_eq!(c.bpm_locked(), c.bpm_locked());
    assert_eq!(c.cues(), c.cues());
    assert_eq!(c.loops(), c.loops());
    assert_eq!(c.track_color(), c.track_color());
    assert_eq!(c.overview(), c.overview());
}

#[test]
fn analysis_slot_presence_only() {
    let mut c = Container::new();
    assert!(c.analysis.is_none());
    c.analysis = Some(serato_tags::tag::Analysis { version_major: 2, version_minor: 1 });
    assert!(c.analysis.is_some());
    // The analysis record takes part in no query.
    assert_eq!(c.cues(), Vec::new());
    assert_eq!(c.track_color(), None);
}
