use diffstream::app::App;
use diffstream::keys::{Key, Mods};
use diffstream::marks::text_less;
use diffstream::model::{Changeset, DiffFile, FileStatus, Hunk, LayoutMode, Line, LineKind, Stats};
use diffstream::rows::Row;
use diffstream::session::{LoadRequest, ViewKind};
use diffstream::view::ViewState;

const NONE: Mods = Mods { ctrl: false, shift: false };

fn file(path: &str) -> DiffFile {
    DiffFile {
        path: path.into(),
        previous_path: None,
        status: FileStatus::Modified,
        staged: false,
        hunks: vec![Hunk {
            old_start: 1,
            old_len: 1,
            new_start: 1,
            new_len: 1,
            lines: vec![Line {
                kind: LineKind::Added,
                old_lineno: None,
                new_lineno: Some(1),
                text: "let x = 1;".into(),
                emphasis: None,
            }],
        }],
        stats: Stats { additions: 1, deletions: 0 },
        is_binary: false,
        old_text: None,
        new_text: Some("let x = 1;\n".into()),
        diffed: true,
    }
}

fn cs(paths: &[&str]) -> Changeset {
    Changeset { source: "wt".into(), files: paths.iter().map(|p| file(p)).collect() }
}

fn app_over(paths: &[&str]) -> App {
    let mut app = App::with_launch(
        cs(paths),
        LayoutMode::Stack,
        Some("repo".into()),
        ViewKind::Local,
        true,
        None,
        Some(LoadRequest::WorkingTree { include_untracked: true, base: None }),
        Vec::new(),
    );
    app.viewport_h = 12;
    app
}

fn st(app: &mut App) -> &mut ViewState {
    let c = app.session.cursor;
    &mut app.session.views[c].state
}

#[test]
fn marking_reviewed_with_no_review_open_writes_nothing() {
    let mut app = app_over(&["a.rs", "b.rs"]);
    app.handle_key(Key::Char('v'), NONE, 0);
    assert!(app.state().viewed[0], "the flag still applies in-session");
    // What would be recorded, were a review open; with none, the caller writes nothing.
    assert_eq!(app.viewed_record(&Vec::new()), Some(vec!["a.rs".to_string()]));
}

#[test]
fn marks_survive_a_reopen_and_follow_paths_not_positions() {
    let mut app = app_over(&["a.rs", "b.rs", "c.rs"]);
    st(&mut app).selected = 1;
    app.handle_key(Key::Char('v'), NONE, 0);
    assert_eq!(app.state().viewed, vec![false, true, false]);
    let logged = app.viewed_record(&Vec::new()).expect("a change to record");
    assert_eq!(logged, vec!["b.rs".to_string()]);

    let mut later = app_over(&["c.rs", "b.rs", "a.rs"]);
    later.restore_viewed(&logged);
    assert_eq!(later.state().viewed, vec![false, true, false], "b.rs is still the reviewed one");
}

#[test]
fn an_unchanged_set_is_not_re_recorded() {
    let mut app = app_over(&["a.rs", "b.rs"]);
    let mut logged: Vec<String> = Vec::new();
    let mut records = 0;
    for _ in 0..3 {
        // The viewed toggle collapses the file and moves on; step back to it.
        st(&mut app).selected = 0;
        st(&mut app).selected_dir = None;
        app.handle_key(Key::Char('v'), NONE, 0);
        if let Some(paths) = app.viewed_record(&logged) {
            logged = paths;
            records += 1;
        }
    }
    assert_eq!(records, 3, "on, off, on — each a real change");
    assert_eq!(app.viewed_record(&logged), None, "the set already logged adds nothing");
}

#[test]
fn restoring_is_inert_where_there_is_nothing_to_restore() {
    let mut browse = App::with_launch(
        cs(&["a.rs"]),
        LayoutMode::Stack,
        Some("repo".into()),
        ViewKind::Commit("abc".into()),
        false,
        None,
        Some(LoadRequest::Show { rev: "abc".into() }),
        Vec::new(),
    );
    browse.restore_viewed(&vec!["a.rs".to_string()]);
    assert_eq!(browse.state().viewed, vec![false], "a browse view has no marks to restore");

    let mut app = app_over(&["a.rs"]);
    app.restore_viewed(&Vec::new());
    assert_eq!(app.state().viewed, vec![false], "no review, no marks");
}

#[test]
fn a_reviewed_file_that_left_the_changeset_restores_nothing() {
    let mut later = app_over(&["c.rs", "d.rs"]);
    later.restore_viewed(&vec!["a.rs".to_string()]);
    assert_eq!(later.state().viewed, vec![false, false]);
}

#[test]
fn restoring_collapses_the_files_it_marks() {
    let placeholders = |app: &App| app.plan().rows.iter().filter(|r| matches!(r, Row::Collapsed(_))).count();
    let mut app = app_over(&["a.rs", "b.rs"]);
    app.handle_key(Key::Char('v'), NONE, 0);
    assert_eq!(placeholders(&app), 1, "the reviewed file's body is folded");
    let logged = app.viewed_record(&Vec::new()).unwrap();

    let mut later = app_over(&["a.rs", "b.rs"]);
    assert_eq!(placeholders(&later), 0, "a fresh view shows every body");
    later.restore_viewed(&logged);
    assert_eq!(placeholders(&later), 1, "and the restored mark folds its file away again");
}

#[test]
fn the_record_is_sorted_by_path() {
    let mut app = app_over(&["src/z.rs", "b.rs", "a.rs", "src/a.rs"]);
    for i in 0..4 {
        st(&mut app).viewed[i] = true;
    }
    assert_eq!(app.viewed_paths(), vec!["a.rs", "b.rs", "src/a.rs", "src/z.rs"]);
    assert!(text_less("a.rs", "b.rs") && !text_less("b.rs", "a.rs") && !text_less("a.rs", "a.rs"));
    assert!(text_less("src", "src/a"), "a prefix sorts first");
}
