use diffstream::app::App;
use diffstream::model::{Changeset, CommitMessage, DiffFile, FileStatus, Hunk, LayoutMode, Line, LineKind, Stats};
use diffstream::rows::Row;
use diffstream::session::{banner_lines, stub_changeset, FileStub, LoadKind, LoadRequest, LoadStatus, ViewKind};
use diffstream::view::ViewState;

fn stub(path: &str) -> FileStub {
    FileStub { path: path.into(), previous_path: None, status: FileStatus::Modified, staged: false }
}

fn stubs(paths: &[&str]) -> Vec<FileStub> {
    paths.iter().map(|p| stub(p)).collect()
}

/// A finished diff for `path`: one added line.
fn diffed(path: &str) -> DiffFile {
    DiffFile {
        path: path.into(),
        previous_path: None,
        status: FileStatus::Modified,
        staged: false,
        hunks: vec![Hunk {
            old_start: 1,
            old_len: 0,
            new_start: 1,
            new_len: 1,
            lines: vec![Line {
                kind: LineKind::Added,
                old_lineno: None,
                new_lineno: Some(1),
                text: "x".into(),
                emphasis: None,
            }],
        }],
        stats: Stats { additions: 1, deletions: 0 },
        is_binary: false,
        old_text: None,
        new_text: Some("x\n".into()),
        diffed: true,
    }
}

/// An app showing a commit's diff as undiffed stand-ins over a repository,
/// with the load not yet started, and the stubs to begin it with.
fn stub_app(rev: &str) -> (App, Vec<FileStub>) {
    let st = stubs(&["a.rs", "src/b.rs", "src/c.rs"]);
    let cs = stub_changeset(rev, &st);
    let app = App::with_launch(
        cs,
        LayoutMode::Stack,
        Some("repo".into()),
        ViewKind::Commit(rev.into()),
        false,
        None,
        Some(LoadRequest::Show { rev: rev.into() }),
        Vec::new(),
    );
    (app, st)
}

/// Run every dispatched job and hand the results back in one finished batch.
fn drive(app: &mut App, jobs: Vec<(usize, FileStub)>) {
    let batch: Vec<(usize, DiffFile)> = jobs.iter().map(|(i, s)| (*i, diffed(&s.path))).collect();
    app.drain_loader(batch, true);
}

fn st(app: &mut App) -> &mut ViewState {
    let c = app.session.cursor;
    &mut app.session.views[c].state
}

fn message() -> CommitMessage {
    CommitMessage {
        sha: "0123456789abcdef".into(),
        author: "Ann".into(),
        date: "2024-01-01".into(),
        body: "Subject\n\nBody line".into(),
    }
}

fn has_banner(app: &App) -> bool {
    app.plan().rows.iter().any(|r| matches!(r, Row::Banner(_)))
}

#[test]
fn streaming_installs_diffs_and_finishes() {
    let (mut app, stubs) = stub_app("HEAD");
    let n = stubs.len();
    assert!(app.cs().files.iter().all(|f| !f.diffed), "stubs before load");
    let jobs = app.begin_load(stubs, false, 1_000);
    assert!(app.loading());
    assert!(!app.show_progress(1_000), "fast load shows no chrome before threshold");
    assert_eq!(app.load_progress().1, n, "total known up front");
    drive(&mut app, jobs);
    assert!(!app.loading(), "load finished");
    assert!(app.cs().files.iter().all(|f| f.diffed), "all files diffed");
    assert!(app.session.views[app.session.cursor].cs.files.iter().all(|f| f.diffed), "entry synced");
    assert!(!app.plan().rows.iter().any(|r| matches!(r, Row::Pending)), "no pending rows after completion");
}

#[test]
fn abandoned_load_retains_progress_and_resumes_only_remainder() {
    let (mut app, stubs) = stub_app("HEAD");
    let n = stubs.len();
    app.session.views[0].stubs = stubs;
    let other = app.cs().clone();
    for f in app.session.views[0].cs.files.iter_mut().take(n - 1) {
        f.diffed = true;
    }
    app.push_view(ViewKind::Commit("x".into()), other, None, None, false, Vec::new());
    let kept = &app.session.views[0].cs;
    assert!(kept.files.iter().take(n - 1).all(|f| f.diffed), "completed diffs are retained on the abandoned view's entry");
    assert!(!kept.files[n - 1].diffed, "the unfinished file stays undiffed");

    let jobs = app.view_back(2_000);
    assert_eq!(app.session.cursor, 0);
    assert_eq!(app.cs().files.len(), n, "file set length is fixed for the view's lifetime");
    assert!(app.cs().files.iter().take(n - 1).all(|f| f.diffed), "previously completed diffs survive the return");
    assert_eq!(app.load_progress().1, 1, "resume diffs only the remainder, not all {n} files");
    assert_eq!(jobs.len(), 1);
    assert_eq!(jobs[0].0, n - 1, "at its original index");
    assert_eq!(app.session.load_kind, LoadKind::Resume);
}

#[test]
fn file_set_is_stable_across_switch_away_and_return() {
    let (mut app, _stubs) = stub_app("HEAD");
    let paths: Vec<String> = app.cs().files.iter().map(|f| f.path.clone()).collect();
    let other = app.cs().clone();
    app.push_view(ViewKind::Commit("x".into()), other, None, None, false, Vec::new());
    app.view_back(0);
    let after: Vec<String> = app.cs().files.iter().map(|f| f.path.clone()).collect();
    assert_eq!(after, paths, "paths and order are identical on return; no re-enumeration");
}

#[test]
fn transient_cs_clone_does_not_corrupt_install() {
    let (mut app, _stubs) = stub_app("HEAD");
    let snapshot = app.cs().clone();
    app.session.views[0].cs.files[0].diffed = true;
    assert!(app.cs().files[0].diffed, "install applied to the live changeset");
    assert!(!snapshot.files[0].diffed, "the transient render clone is unaffected");
}

#[test]
fn cancel_at_startup_quits() {
    let (mut app, stubs) = stub_app("HEAD");
    let jobs = app.begin_load(stubs, false, 0);
    assert!(!jobs.is_empty());
    app.cancel_load(5);
    assert!(app.should_quit, "cancelling the launch load quits");
    assert!(!app.loading());
}

#[test]
fn cancel_resumed_load_stops_without_quitting_or_popping() {
    let cs = Changeset { source: String::new(), files: Vec::new() };
    let mut app = App::new(cs);
    app.session.loader = Some(LoadStatus { done: 0, total: 0 });
    app.session.load_kind = LoadKind::Resume;
    let views = app.session.views.len();
    app.cancel_load(0);
    assert!(!app.should_quit, "a resumed-load cancel does not quit");
    assert_eq!(app.session.views.len(), views, "and keeps the view");
    assert!(!app.loading(), "the loader was dropped");
}

#[test]
fn cancel_switch_returns_to_previous_view() {
    let home = stubs(&["a.rs", "b.rs"]);
    let cs = stub_changeset("working tree", &home);
    let mut app = App::with_launch(
        cs,
        LayoutMode::Stack,
        Some("repo".into()),
        ViewKind::Local,
        true,
        None,
        Some(LoadRequest::WorkingTree { include_untracked: true, base: None }),
        Vec::new(),
    );
    let jobs = app.begin_load(home, false, 0);
    drive(&mut app, jobs);

    let jobs = app.open_commit("HEAD", "HEAD", stubs(&["c.rs"]), Vec::new(), None, 10);
    assert!(jobs.is_some());
    assert_eq!(app.session.cursor, 1, "pushed a commit view");
    assert!(app.loading(), "switch load streaming");

    app.cancel_load(20);
    assert_eq!(app.session.cursor, 0, "cancel returns to the previous view");
    assert!(!app.should_quit, "a switch cancel does not quit");
    assert!(app.cs().files.iter().all(|f| f.diffed), "previous (home) view intact");
}

#[test]
fn commit_view_has_a_message_banner_but_local_does_not() {
    let empty = || Changeset { source: String::new(), files: Vec::new() };
    let commit = App::with_launch(
        empty(),
        LayoutMode::Stack,
        Some("repo".into()),
        ViewKind::Commit("HEAD".into()),
        false,
        None,
        None,
        banner_lines(&message()),
    );
    assert!(has_banner(&commit), "a commit view shows a message banner");
    let local =
        App::with_launch(empty(), LayoutMode::Stack, Some("repo".into()), ViewKind::Local, false, None, None, Vec::new());
    assert!(!has_banner(&local), "a local view has no banner");
}

#[test]
fn streaming_rebuild_keeps_the_banner_in_view() {
    let empty = Changeset { source: String::new(), files: Vec::new() };
    let mut app =
        App::with_launch(empty, LayoutMode::Stack, Some("repo".into()), ViewKind::Local, true, None, None, Vec::new());
    app.open_commit("HEAD", "HEAD", stubs(&["a.rs", "b.rs"]), banner_lines(&message()), None, 0);
    let first_file = app.plan().file_starts.first().copied().unwrap_or(0);
    assert!(first_file > 0, "the commit view has a banner above the first file");
    st(&mut app).scroll = 0;
    let (layout, grouped) = (app.layout, app.grouped());
    app.session.rebuild_plan(layout, grouped, 20, 80);
    assert_eq!(app.state().scroll, 0, "the banner stays in view across a plan rebuild");
}

#[test]
fn open_commit_attaches_a_banner_to_the_pushed_view() {
    let empty = Changeset { source: String::new(), files: Vec::new() };
    let mut app =
        App::with_launch(empty, LayoutMode::Stack, Some("repo".into()), ViewKind::Local, true, None, None, Vec::new());
    app.open_commit("HEAD", "HEAD", stubs(&["a.rs"]), banner_lines(&message()), None, 0);
    assert_eq!(app.session.cursor, 1, "a commit view was pushed");
    assert!(!app.session.views[1].banner.is_empty(), "the pushed commit view carries a message banner");
    assert!(has_banner(&app), "the plan includes the banner rows");
}

#[test]
fn open_commit_without_repo_dir_is_noop() {
    let cs = Changeset { source: String::new(), files: Vec::new() };
    let mut app = App::new(cs);
    assert!(app.open_commit("HEAD", "HEAD", stubs(&["a.rs"]), Vec::new(), None, 0).is_none());
    assert_eq!(app.session.cursor, 0, "no view pushed without a repo dir");
    assert_eq!(app.session.views.len(), 1);
}

#[test]
fn open_commit_lands_on_the_requested_file() {
    let empty = Changeset { source: String::new(), files: Vec::new() };
    let mut app =
        App::with_launch(empty, LayoutMode::Stack, Some("repo".into()), ViewKind::Local, true, None, None, Vec::new());
    let path = "src/b.rs";
    assert!(
        app.open_commit("HEAD", "HEAD", stubs(&["a.rs", "src/b.rs", "src/c.rs"]), Vec::new(), Some(path), 0).is_some(),
        "the switch succeeded"
    );
    assert_eq!(app.session.cursor, 1, "the commit view was pushed");
    let i = app.cs().files.iter().position(|f| f.path == path).expect("landed file present");
    assert_eq!(app.state().selected, i, "landed on the requested file");
}

#[test]
fn wrap_and_h_scroll_do_not_leak_across_views() {
    let (mut app, _) = stub_app("HEAD");
    st(&mut app).h_scroll = 5;
    st(&mut app).wrap = true;
    let other = app.cs().clone();
    app.push_view(ViewKind::Commit("x".into()), other, None, None, false, Vec::new());
    assert_eq!(app.state().h_scroll, 0, "h_scroll does not leak into the new view");
    assert!(!app.state().wrap, "wrap does not leak into the new view");
    app.view_back(0);
    assert!(app.state().wrap, "the home view's wrap is restored on return");
}

#[test]
fn view_forward_and_home_walk_the_stack() {
    let (mut app, _) = stub_app("HEAD");
    let other = app.cs().clone();
    app.push_view(ViewKind::Commit("x".into()), other, None, None, false, Vec::new());
    assert!(app.view_forward(0).is_empty());
    assert_eq!(app.session.cursor, 1, "nothing forward of the newest view");
    app.view_back(0);
    assert_eq!(app.session.cursor, 0);
    app.view_forward(0);
    assert_eq!(app.session.cursor, 1);
    // The home view is a commit browse: `C` does not return to it.
    app.view_home(0);
    assert_eq!(app.session.cursor, 1, "home is inert when launched on a commit browse");
}

#[test]
fn home_returns_when_launched_local() {
    let cs = stub_changeset("wt", &stubs(&["a.rs"]));
    let mut app = App::with_launch(cs, LayoutMode::Stack, None, ViewKind::Local, false, None, None, Vec::new());
    let other = app.cs().clone();
    app.push_view(ViewKind::Commit("x".into()), other, None, None, false, Vec::new());
    app.view_home(0);
    assert_eq!(app.session.cursor, 0, "home returns to a local launch");
}

#[test]
fn promoting_a_browse_view_makes_it_a_review() {
    let (mut app, _) = stub_app("HEAD");
    assert!(!app.is_review());
    app.promote_review();
    assert!(app.is_review());
    assert!(app.state().viewed.iter().all(|v| !v));
}

#[test]
fn a_pushed_view_focuses_the_stream_and_starts_unreviewed() {
    let (mut app, _) = stub_app("HEAD");
    app.toggle_focus();
    let other = app.cs().clone();
    app.push_view(ViewKind::Commit("y".into()), other, None, None, true, Vec::new());
    assert_eq!(app.focus(), diffstream::types::Focus::Stream);
    assert!(app.state().viewed.iter().all(|v| !v));
    assert!(app.state().collapsed.is_empty());
    assert!(app.state().reveal_selected);
}

#[test]
fn next_unviewed_is_in_bounds_after_abandon_and_resume() {
    let st = stubs(&["a.rs", "src/b.rs", "src/c.rs"]);
    let mut app = App::with_launch(
        stub_changeset("HEAD", &st),
        LayoutMode::Stack,
        Some("repo".into()),
        ViewKind::Commit("HEAD".into()),
        true,
        None,
        Some(LoadRequest::Show { rev: "HEAD".into() }),
        Vec::new(),
    );
    app.session.views[0].stubs = st;
    let other = app.cs().clone();
    app.push_view(ViewKind::Commit("x".into()), other, None, None, false, Vec::new());
    app.view_back(0);
    assert_eq!(app.state().viewed.len(), app.cs().files.len(), "viewed stays sized to the file set");
    let moved = app.next_unviewed();
    assert!(moved, "lands on an unreviewed file");
    assert!(app.state().selected < app.cs().files.len(), "selection stays in bounds");
}
