use diffstream::app::App;
use diffstream::commands::Effect;
use diffstream::keys::{Command, Key, Mods};
use diffstream::model::{Changeset, DiffFile, FileStatus, Hunk, LayoutMode, Line, LineKind, Stats};
use diffstream::session::{LoadRequest, ViewKind};
use diffstream::submit::{LogStatus, SubmitRequest};
use diffstream::types::VerdictPreset;

const NONE: Mods = Mods { ctrl: false, shift: false };
const CTRL: Mods = Mods { ctrl: true, shift: false };

fn cs_one_file() -> Changeset {
    Changeset {
        source: "wt".into(),
        files: vec![DiffFile {
            path: "a.rs".into(),
            previous_path: None,
            status: FileStatus::Modified,
            staged: false,
            hunks: vec![Hunk {
                old_start: 1,
                old_len: 1,
                new_start: 1,
                new_len: 1,
                lines: vec![Line {
                    kind: LineKind::Added,
                    old_lineno: None,
                    new_lineno: Some(1),
                    text: "let x = 1;".into(),
                    emphasis: None,
                }],
            }],
            stats: Stats { additions: 1, deletions: 0 },
            is_binary: false,
            old_text: None,
            new_text: Some("let x = 1;\n".into()),
            diffed: true,
        }],
    }
}

fn presets() -> Vec<VerdictPreset> {
    vec![
        VerdictPreset { name: "approve".into(), body: "looks good".into() },
        VerdictPreset { name: "rework".into(), body: "another pass".into() },
    ]
}

fn app_with_log() -> App {
    let mut app = App::with_launch(
        cs_one_file(),
        LayoutMode::Stack,
        Some("repo".into()),
        ViewKind::Local,
        true,
        None,
        Some(LoadRequest::WorkingTree { include_untracked: true, base: None }),
        Vec::new(),
    );
    app.viewport_h = 12;
    app
}

/// The caller's side of the submit effects over a log holding `rounds`
/// rounds; what gets sent lands in `sent`.
struct Log {
    rounds: usize,
    sent: Vec<SubmitRequest>,
}

fn key_with(app: &mut App, k: Key, m: Mods, log: &mut Log, p: fn() -> Vec<VerdictPreset>) {
    match app.handle_key(k, m, 0) {
        Effect::Outside(Command::OpenSubmit) => app.open_submit(LogStatus::Rounds(log.rounds), p()),
        Effect::Submit(r) => {
            log.sent.push(r);
            app.submit_settled(Ok(log.rounds as u32));
        },
        _ => {},
    }
}

fn key(app: &mut App, k: Key, m: Mods, log: &mut Log) {
    key_with(app, k, m, log, presets)
}

fn type_str(app: &mut App, text: &str, log: &mut Log) {
    for c in text.chars() {
        key(app, Key::Char(c), NONE, log);
    }
}

#[test]
fn submitting_closes_the_round_with_the_edited_text_and_the_preset_name() {
    let mut app = app_with_log();
    let mut log = Log { rounds: 1, sent: Vec::new() };
    key(&mut app, Key::Char('y'), NONE, &mut log);
    let d = app.submit_draft().expect("the picker opened");
    assert!(d.buffer.is_none(), "stage one is the preset list");
    assert!(d.title().contains("pick a verdict"));

    key(&mut app, Key::Char('j'), NONE, &mut log);
    key(&mut app, Key::Enter, NONE, &mut log);
    let d = app.submit_draft().expect("still open, now editing");
    assert_eq!(d.buffer.as_deref(), Some("another pass"), "pre-filled from the preset");
    assert!(d.title().contains("rework"), "{}", d.title());
    type_str(&mut app, " on the parser", &mut log);
    key(&mut app, Key::Enter, NONE, &mut log);

    assert!(app.submit_draft().is_none(), "the overlay closed");
    assert_eq!(log.sent.len(), 1);
    assert_eq!(log.sent[0].body, "another pass on the parser", "the text sent, not the preset's");
    assert_eq!(log.sent[0].preset.as_deref(), Some("rework"), "with the preset named alongside");
    assert!(app.flash.as_deref().unwrap().contains("round 1"));
}

#[test]
fn there_is_nothing_to_submit_before_a_round_exists() {
    let mut app = app_with_log();
    let mut log = Log { rounds: 0, sent: Vec::new() };
    key(&mut app, Key::Char('y'), NONE, &mut log);
    assert!(app.submit_draft().is_none(), "no overlay");
    assert!(app.flash.as_deref().unwrap().contains("nothing to submit"), "{:?}", app.flash);
}

#[test]
fn esc_steps_back_one_stage_rather_than_discarding_the_instruction() {
    let mut app = app_with_log();
    let mut log = Log { rounds: 1, sent: Vec::new() };
    key(&mut app, Key::Char('y'), NONE, &mut log);
    key(&mut app, Key::Enter, NONE, &mut log);
    type_str(&mut app, "!", &mut log);
    assert!(app.submit_draft().unwrap().buffer.is_some());
    key(&mut app, Key::Esc, NONE, &mut log);
    let d = app.submit_draft().expect("still open");
    assert!(d.buffer.is_none(), "back to the preset list");
    key(&mut app, Key::Esc, NONE, &mut log);
    assert!(app.submit_draft().is_none());
}

fn blank_preset() -> Vec<VerdictPreset> {
    vec![VerdictPreset { name: "blank".into(), body: "   ".into() }]
}

#[test]
fn an_empty_instruction_is_refused_inside_the_box() {
    let mut app = app_with_log();
    let mut log = Log { rounds: 1, sent: Vec::new() };
    key_with(&mut app, Key::Char('y'), NONE, &mut log, blank_preset);
    key(&mut app, Key::Enter, NONE, &mut log);
    key(&mut app, Key::Enter, NONE, &mut log);
    let d = app.submit_draft().expect("stays open");
    assert!(d.refusal.as_deref().unwrap().contains("closes nothing"), "{:?}", d.refusal);
    assert!(log.sent.is_empty());
    type_str(&mut app, "x", &mut log);
    assert!(app.submit_draft().unwrap().refusal.is_none(), "typing clears the refusal");
}

#[test]
fn the_picker_clamps_and_q_closes_it() {
    let mut app = app_with_log();
    let mut log = Log { rounds: 1, sent: Vec::new() };
    key(&mut app, Key::Char('y'), NONE, &mut log);
    for _ in 0..4 {
        key(&mut app, Key::Down, NONE, &mut log);
    }
    assert_eq!(app.submit_draft().unwrap().selected, 1, "clamped at the end");
    for _ in 0..4 {
        key(&mut app, Key::Char('k'), NONE, &mut log);
    }
    assert_eq!(app.submit_draft().unwrap().selected, 0, "and at the start");
    key(&mut app, Key::Other, NONE, &mut log);
    assert!(app.submit_draft().is_some());
    key(&mut app, Key::Char('q'), NONE, &mut log);
    assert!(app.submit_draft().is_none());
}

#[test]
fn while_editing_the_preset_is_fixed_and_ctrl_chords_are_not_text() {
    let mut app = app_with_log();
    let mut log = Log { rounds: 1, sent: Vec::new() };
    key(&mut app, Key::Char('y'), NONE, &mut log);
    key(&mut app, Key::Enter, NONE, &mut log);
    type_str(&mut app, "jk", &mut log);
    key(&mut app, Key::Down, NONE, &mut log);
    let d = app.submit_draft().unwrap();
    assert_eq!(d.selected, 0, "the preset stays put");
    assert_eq!(d.buffer.as_deref(), Some("looks goodjk"));
    key(&mut app, Key::Char('c'), CTRL, &mut log);
    key(&mut app, Key::Backspace, NONE, &mut log);
    assert_eq!(app.submit_draft().unwrap().buffer.as_deref(), Some("looks goodj"), "a Ctrl chord is not typed");
}

#[test]
fn submitting_is_inert_outside_a_review_and_without_a_log() {
    let mut browse = App::with_launch(
        cs_one_file(),
        LayoutMode::Stack,
        Some("repo".into()),
        ViewKind::Commit("abc".into()),
        false,
        None,
        Some(LoadRequest::Show { rev: "abc".into() }),
        Vec::new(),
    );
    let mut log = Log { rounds: 1, sent: Vec::new() };
    key(&mut browse, Key::Char('y'), NONE, &mut log);
    assert!(browse.submit_draft().is_none() && browse.flash.is_none());

    let mut app = app_with_log();
    app.open_submit(LogStatus::Missing, presets());
    assert!(app.submit_draft().is_none());
    assert!(app.flash.as_deref().unwrap().contains("no worktree"));
}

#[test]
fn an_unreadable_log_is_reported_at_both_ends() {
    let mut app = app_with_log();
    let mut log = Log { rounds: 1, sent: Vec::new() };
    key(&mut app, Key::Char('y'), NONE, &mut log);
    key(&mut app, Key::Enter, NONE, &mut log);
    // The write fails: the box stays open with the text intact.
    assert!(matches!(app.handle_key(Key::Enter, NONE, 0), Effect::Submit(_)));
    app.submit_settled(Err("could not read the review log".into()));
    let d = app.submit_draft().expect("stays open, text intact");
    assert!(d.refusal.as_deref().unwrap().contains("could not read"), "{:?}", d.refusal);
    assert_eq!(d.buffer.as_deref(), Some("looks good"));

    app.submit_cancel();
    app.submit_cancel();
    app.flash = None;
    app.open_submit(LogStatus::Unreadable, presets());
    assert!(app.submit_draft().is_none());
    assert!(app.flash.as_deref().unwrap().contains("could not read"));
}

#[test]
fn the_draft_accessors_are_inert_with_nothing_open() {
    let mut app = app_with_log();
    app.submit_move(1);
    app.submit_input('x');
    app.submit_backspace();
    app.submit_cancel();
    assert!(app.submit_confirm().is_none());
    assert!(app.submit_draft().is_none());
}

#[test]
fn recording_a_submit_without_a_log_reports_rather_than_panicking() {
    let mut app = app_with_log();
    let mut log = Log { rounds: 1, sent: Vec::new() };
    key(&mut app, Key::Char('y'), NONE, &mut log);
    key(&mut app, Key::Enter, NONE, &mut log);
    assert!(matches!(app.handle_key(Key::Enter, NONE, 0), Effect::Submit(_)));
    app.submit_settled(Err("no review log".into()));
    let d = app.submit_draft().expect("stays open");
    assert!(d.refusal.as_deref().unwrap().contains("no review log"));
}
