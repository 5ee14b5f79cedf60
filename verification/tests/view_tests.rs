use diffstream::app::App;
use diffstream::commands::Effect;
use diffstream::diff::compute_hunks_with_context;
use diffstream::keys::{Command, Key, Mods};
use diffstream::model::{Changeset, CommitInfo, DiffFile, FileStatus, LayoutMode, Stats};
use diffstream::rows::Row;
use diffstream::session::{FileStub, ViewKind};
use diffstream::types::Focus;
use diffstream::view::ViewState;

const NONE: Mods = Mods { ctrl: false, shift: false };

fn file(path: &str, old: &str, new: &str, status: FileStatus) -> DiffFile {
    let (hunks, additions, deletions) = compute_hunks_with_context(old, new, 3);
    DiffFile {
        path: path.into(),
        previous_path: None,
        status,
        staged: false,
        hunks,
        stats: Stats { additions, deletions },
        is_binary: false,
        old_text: if old.is_empty() { None } else { Some(old.to_string()) },
        new_text: if new.is_empty() { None } else { Some(new.to_string()) },
        diffed: true,
    }
}

fn sample() -> Changeset {
    Changeset {
        source: "working tree".into(),
        files: vec![
            file(
                "src/auth.rs",
                "fn login() {\n    ok()\n}\n",
                "fn login() {\n    check()\n    ok()\n}\n",
                FileStatus::Modified,
            ),
            file("README.md", "", "hello\n", FileStatus::Untracked),
        ],
    }
}

fn big_sample() -> Changeset {
    let files = (0..5)
        .map(|i| {
            let mut old = String::new();
            let mut new = String::new();
            for n in 0..25 {
                old.push_str(&format!("line {n}\n"));
                new.push_str(&format!("line {n}{}\n", if n == 5 { " X" } else { "" }));
            }
            file(&format!("src/file{i}.rs"), &old, &new, FileStatus::Modified)
        })
        .collect();
    Changeset { source: "wt".into(), files }
}

/// root.rs (0), lib/c.rs (1), src/a.rs (2), src/b.rs (3).
fn multi_dir() -> Changeset {
    Changeset {
        source: "working tree".into(),
        files: vec![
            file("root.rs", "a\n", "b\n", FileStatus::Modified),
            file("lib/c.rs", "a\n", "b\n", FileStatus::Modified),
            file("src/a.rs", "a\n", "b\n", FileStatus::Modified),
            file("src/b.rs", "a\n", "b\n", FileStatus::Modified),
        ],
    }
}

fn drawn(cs: Changeset) -> App {
    let mut app = App::new(cs);
    app.viewport_h = 18;
    app.viewport_w = 60;
    app
}

fn key(app: &mut App, k: Key) -> Effect {
    app.handle_key(k, NONE, 0)
}

fn st(app: &mut App) -> &mut ViewState {
    let c = app.session.cursor;
    &mut app.session.views[c].state
}

fn folded(app: &App, dir: &str) -> bool {
    app.state().is_folded(dir)
}

fn push(app: &mut App, cs: Changeset, rev: &str) {
    app.push_view(ViewKind::Commit(rev.into()), cs, None, None, false, Vec::new());
}

#[test]
fn commit_picker_loads_real_commit_and_switches_view() {
    let mut app = App::with_launch(
        sample(),
        LayoutMode::Stack,
        Some("repo".into()),
        ViewKind::Local,
        true,
        None,
        None,
        Vec::new(),
    );
    assert!(app.is_review(), "launched on local review");
    let e = key(&mut app, Key::Char('c'));
    assert!(matches!(e, Effect::Outside(Command::OpenCommitPalette)));
    let commits = vec![
        CommitInfo { id: "c0ffee00".into(), short: "c0ffee0".into(), summary: "newest".into() },
        CommitInfo { id: "beef0000".into(), short: "beef000".into(), summary: "older".into() },
    ];
    app.open_commit_picker(commits, None, false);
    assert!(app.commit_palette_open());

    let e = key(&mut app, Key::Char('1'));
    let rev = match e {
        Effect::FetchCommit(rev) => rev,
        other => panic!("expected a commit fetch, got {other:?}"),
    };
    assert_eq!(rev, "c0ffee00", "the first commit is picked");
    let stubs = vec![FileStub { path: "x.rs".into(), previous_path: None, status: FileStatus::Modified, staged: false }];
    let jobs = app.palette_open_commit("c0ffee0 newest", stubs, Vec::new(), 0);
    assert_eq!(jobs.map(|j| j.len()), Some(1), "the commit's diff is dispatched");
    assert!(!app.palette_open(), "picking closes the palette");
    assert_eq!(app.session.cursor, 1, "a new view was pushed");
    assert!(matches!(app.kind(), ViewKind::Commit(_)), "now viewing a commit");
    assert!(!app.is_review(), "a browsed commit is not a review session");
    assert_eq!(app.cs().files.len(), 1, "the commit's files are listed");

    app.view_home(0);
    assert_eq!(app.session.cursor, 0);
    assert!(app.is_review());
}

#[test]
fn browse_view_disables_viewed_until_promoted() {
    let mut app = App::new(sample());
    assert!(app.is_review());
    push(&mut app, sample(), "abc");
    assert!(!app.is_review(), "browsed commit is not a review session");

    app.toggle_viewed();
    assert!(app.state().viewed.iter().all(|v| !*v), "v is inert while browsing");
    assert!(!app.next_unviewed(), "next-unviewed is inert while browsing");

    app.promote_review();
    assert!(app.is_review(), "R promotes the browse view to a review");
    app.toggle_viewed();
    assert!(app.state().viewed.iter().any(|v| *v), "v works after promotion");
}

#[test]
fn review_progress_survives_browsing() {
    let mut app = App::new(big_sample());
    st(&mut app).selected = 2;
    app.toggle_viewed();
    assert!(app.state().viewed[2]);

    push(&mut app, big_sample(), "c1");
    assert!(!app.state().viewed[2], "browse view has its own (empty) viewed state");

    app.view_back(0);
    assert!(app.state().viewed[2], "review progress restored on return");
}

#[test]
fn view_back_forward_restores_position() {
    let mut app = App::new(big_sample());
    app.viewport_h = 8;
    app.scroll_view(6);
    let home_scroll = app.state().scroll;
    assert!(home_scroll > 0);

    push(&mut app, big_sample(), "c1");
    assert_eq!(app.state().scroll, 0, "new view starts at the top");

    app.view_back(0);
    assert_eq!(app.session.cursor, 0);
    assert_eq!(app.state().scroll, home_scroll, "home scroll restored");

    app.view_forward(0);
    assert_eq!(app.session.cursor, 1, "forward returns to the pushed view");
}

#[test]
fn new_view_truncates_forward_history() {
    let mut app = App::new(sample());
    push(&mut app, sample(), "a");
    push(&mut app, sample(), "b");
    app.view_back(0);
    assert_eq!(app.session.cursor, 1);
    push(&mut app, sample(), "c");
    assert_eq!(app.session.cursor, 2);
    assert_eq!(app.session.views.len(), 3, "forward 'b' was truncated by the new view");
    app.view_forward(0);
    assert_eq!(app.session.cursor, 2, "nothing forward of the newest view");
}

#[test]
fn home_inert_when_launched_on_commit() {
    let mut app = App::with_launch(
        sample(),
        LayoutMode::Stack,
        None,
        ViewKind::Commit("h".into()),
        false,
        None,
        None,
        Vec::new(),
    );
    assert!(!app.session.home_reviewable());
    push(&mut app, sample(), "x");
    app.view_home(0);
    assert_eq!(app.session.cursor, 1, "C is inert when there is no home review");
}

#[test]
fn z_folds_and_unfolds_with_cursor_landing() {
    let mut app = drawn(multi_dir());
    app.goto_file(2);
    key(&mut app, Key::Char('z'));
    assert!(folded(&app, "src"), "z folds the file's directory");
    assert_eq!(app.state().selected_dir.as_deref(), Some("src"), "cursor lands on the placeholder");
    let has_src_header = app.plan().rows.iter().any(|r| matches!(r, Row::FileHeader(i) if *i >= 2));
    assert!(!has_src_header, "folded src files leave no body headers");
    key(&mut app, Key::Char('z'));
    assert!(!folded(&app, "src"), "z again unfolds");
    assert_eq!(app.state().selected_file(), Some(2), "cursor lands on the directory's first file");
}

#[test]
fn finishing_a_directory_auto_folds_and_advances() {
    let mut app = drawn(multi_dir());
    app.goto_file(2);
    key(&mut app, Key::Char('v'));
    assert!(!folded(&app, "src"), "directory not complete after one file");
    app.goto_file(3);
    key(&mut app, Key::Char('v'));
    assert!(folded(&app, "src"), "completing the directory auto-folds it");
    assert_eq!(app.state().selected_file(), Some(0), "cursor advances to the next unviewed file");
}

#[test]
fn manual_unfold_of_auto_folded_directory_persists() {
    let mut app = drawn(multi_dir());
    app.goto_file(2);
    key(&mut app, Key::Char('v'));
    app.goto_file(3);
    key(&mut app, Key::Char('v'));
    assert!(folded(&app, "src"), "auto-folded after completion");
    // Step onto the src placeholder and unfold.
    st(&mut app).select_dir("src".into(), 2);
    key(&mut app, Key::Char('z'));
    assert!(!folded(&app, "src"), "manual unfold removes the fold");
    app.rebuild_plan();
    assert!(!folded(&app, "src"), "manual unfold persists across rebuilds");
}

#[test]
fn file_actions_are_inert_on_a_placeholder() {
    let mut app = drawn(multi_dir());
    app.goto_file(2);
    key(&mut app, Key::Char('z'));
    let viewed_before = app.state().viewed.clone();
    key(&mut app, Key::Char('v'));
    assert_eq!(app.state().viewed, viewed_before, "v does nothing on a placeholder");
    assert_eq!(app.peek_target(), None, "no file to peek");
    app.open_peek_preview("b\n".into(), "b\n".into());
    assert!(!app.peek_open(), "peek does not open on a placeholder");
}

#[test]
fn d_to_flat_from_placeholder_lands_on_first_file() {
    let mut app = drawn(multi_dir());
    app.goto_file(2);
    key(&mut app, Key::Char('z'));
    key(&mut app, Key::Char('D'));
    assert!(!app.grouped);
    assert_eq!(app.state().selected_file(), Some(2), "placeholder converts to src's first file");
    assert!(folded(&app, "src"), "folds are kept for when grouping returns");
}

#[test]
fn fuzzy_jump_into_a_folded_directory_unfolds_it() {
    let mut app = drawn(multi_dir());
    app.goto_file(2);
    key(&mut app, Key::Char('z'));
    assert!(folded(&app, "src"));
    app.open_palette(&[Some(0), Some(0), Some(0), Some(0)]);
    for c in "src/b".chars() {
        app.palette_input(c);
    }
    // Only src/b.rs matches the query.
    app.palette_refresh(&[None, None, Some(3), Some(10)]);
    app.palette_confirm();
    assert!(!folded(&app, "src"), "jumping by path unfolds the directory");
    assert_eq!(app.state().selected_file(), Some(3), "lands on the jumped-to file");
}

#[test]
fn folded_directory_renders_placeholder_in_both_panes() {
    let mut app = drawn(multi_dir());
    app.goto_file(2);
    key(&mut app, Key::Char('z'));
    let rows = &app.plan().rows;
    assert!(
        rows.iter().any(|r| matches!(r, Row::CollapsedDir { dir, n: 2, .. } if dir == "src")),
        "the body stands the folded directory's two files in one placeholder"
    );
    assert!(!rows.iter().any(|r| matches!(r, Row::FileHeader(2) | Row::FileHeader(3))), "folded files are absent");
}

#[test]
fn placeholder_shows_reviewed_progress() {
    let mut app = drawn(multi_dir());
    app.goto_file(2);
    key(&mut app, Key::Char('v'));
    app.goto_file(2);
    key(&mut app, Key::Char('z'));
    assert!(
        app.plan().rows.iter().any(|r| matches!(r, Row::CollapsedDir { n: 2, reviewed: 1, .. })),
        "placeholder carries reviewed/total"
    );
}

#[test]
fn folding_keeps_focus_on_the_file_list() {
    let mut app = drawn(multi_dir());
    app.toggle_focus();
    assert_eq!(app.focus(), Focus::Sidebar);
    app.goto_file(2);
    app.set_focus(Focus::Sidebar);
    key(&mut app, Key::Char('z'));
    assert_eq!(app.focus(), Focus::Sidebar, "fold keeps focus on the file list");
    key(&mut app, Key::Char('z'));
    assert_eq!(app.focus(), Focus::Sidebar, "unfold keeps focus on the file list");
}

#[test]
fn fold_state_is_restored_with_the_view() {
    let mut app = drawn(multi_dir());
    app.goto_file(2);
    key(&mut app, Key::Char('z'));
    assert!(folded(&app, "src"));
    push(&mut app, multi_dir(), "x");
    assert!(!folded(&app, "src"), "the pushed view has its own (empty) folds");
    app.view_back(0);
    assert!(folded(&app, "src"), "returning restores the home view's folds");
}
