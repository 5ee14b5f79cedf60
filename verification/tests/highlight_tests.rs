use diffstream::app::App;
use diffstream::highlight::{HlJob, HlService, PEEK_HL};
use diffstream::model::{Changeset, DiffFile, FileStatus, Hunk, Line, LineKind, Stats};
use diffstream::peek::{Peek, PeekMode};

fn file() -> DiffFile {
    DiffFile {
        path: "a.rs".into(),
        previous_path: None,
        status: FileStatus::Modified,
        staged: false,
        hunks: vec![Hunk {
            old_start: 1,
            old_len: 1,
            new_start: 1,
            new_len: 1,
            lines: vec![Line { kind: LineKind::Added, old_lineno: None, new_lineno: Some(1), text: "fn b() {}".into(), emphasis: None }],
        }],
        stats: Stats { additions: 1, deletions: 1 },
        is_binary: false,
        old_text: Some("fn a() {}\n".into()),
        new_text: Some("fn b() {}\n".into()),
        diffed: true,
    }
}

#[test]
fn default_constructs_and_needs_tracks_requests() {
    let mut hl = HlService::new();
    assert!(hl.needs(0), "nothing requested or cached yet");
    assert_eq!(hl.request(0, &file()), Some(HlJob { idx: 0, epoch: 0, theme: 0 }));
    assert!(!hl.needs(0), "a requested index no longer needs a request");
    assert!(hl.needs(1), "an untouched index still needs one");
    assert_eq!(hl.request(0, &file()), None, "asked once");
    let mut bin = file();
    bin.is_binary = true;
    assert_eq!(hl.request(2, &bin), None, "a binary file has nothing to highlight");
}

#[test]
fn set_theme_same_theme_is_a_noop() {
    let mut hl = HlService::new();
    let before = hl.epoch();
    hl.set_theme(0);
    assert_eq!(hl.epoch(), before, "re-setting the active theme changes nothing");
}

#[test]
fn set_theme_drops_theme_dependent_highlights_and_bumps_epoch() {
    let mut hl = HlService::new();
    assert!(hl.land(0, 0, true) && hl.land(1, 0, false));
    assert!(hl.has(0) && hl.has(1), "both held");
    let before = hl.epoch();
    hl.set_theme(1);
    assert!(!hl.has(0), "theme-dependent highlight dropped on theme change");
    assert!(hl.has(1), "theme-independent highlight survives the theme change");
    assert_ne!(hl.epoch(), before, "epoch bumped so in-flight jobs are discarded");
    assert!(!hl.land(2, before, false), "a result from the old epoch is discarded");
    assert!(!hl.has(2));
}

#[test]
fn reset_clears_cache_and_bumps_epoch() {
    let mut hl = HlService::new();
    hl.land(0, 0, false);
    assert!(hl.has(0), "held highlight present");
    let before = hl.epoch();
    hl.reset(0);
    assert!(!hl.has(0), "cache dropped on view switch");
    assert_ne!(hl.epoch(), before, "epoch bumped so stale results are discarded");
}

#[test]
fn drain_takes_current_results_and_forget_frees_a_slot() {
    let mut hl = HlService::new();
    hl.set_theme(3);
    let (taken, any) = hl.drain(&vec![(4, 0, false), (5, 1, true)]);
    assert_eq!(taken, vec![false, true]);
    assert!(any);
    assert!(hl.has(5) && !hl.has(4));
    hl.forget(5);
    assert!(hl.needs(5));
}

#[test]
fn request_visible_is_noop_for_an_empty_changeset() {
    let app = App::new(Changeset { source: String::new(), files: Vec::new() });
    let mut hl = HlService::new();
    assert!(hl.request_visible(&app).is_empty());
    assert!(hl.needs(0), "no highlight requested for empty changeset");
}

#[test]
fn request_visible_requests_on_screen_files() {
    let mut app = App::new(Changeset { source: String::new(), files: vec![file()] });
    app.viewport_h = 10;
    let mut hl = HlService::new();
    assert!(hl.needs(0), "not yet requested");
    assert_eq!(hl.request_visible(&app), vec![HlJob { idx: 0, epoch: 0, theme: 0 }]);
    assert!(!hl.needs(0), "the visible file's highlight was requested");
    assert!(hl.request_visible(&app).is_empty(), "and only once");
}

#[test]
fn request_peek_highlight_enqueues_then_is_idempotent() {
    let mut app = App::new(Changeset { source: String::new(), files: vec![file()] });
    let mut hl = HlService::new();
    assert_eq!(hl.request_peek(&app), None, "no open peek means nothing is requested");
    app.set_peek(Peek::new("a.rs".into(), true, PeekMode::Diff, "old\n".into(), "new fn\n".into(), true));
    assert!(hl.needs(PEEK_HL), "fresh peek slot needs a highlight");
    assert!(hl.request_peek(&app).is_some());
    assert!(!hl.needs(PEEK_HL));
    assert!(hl.request_peek(&app).is_none());
}
