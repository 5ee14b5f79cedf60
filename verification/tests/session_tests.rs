use diffstream::model::{
    Changeset, CommitMessage, DiffFile, FileStatus, Hunk, LayoutMode, Line, LineKind, Stats,
};
use diffstream::rows::Plan;
use diffstream::session::{
    banner_lines, stub_changeset, FileStub, LoadCancel, LoadKind, LoadStatus, Session, ViewEntry, ViewKind,
};
use diffstream::view::ViewState;

fn stub(path: &str) -> FileStub {
    FileStub { path: path.into(), previous_path: None, status: FileStatus::Modified, staged: false }
}

fn cs(paths: &[&str]) -> Changeset {
    let stubs: Vec<FileStub> = paths.iter().map(|p| stub(p)).collect();
    stub_changeset("test", &stubs)
}

fn session_with(view: Changeset) -> Session {
    let viewed = vec![false; view.files.len()];
    let plan = Plan::build(&view, &viewed, LayoutMode::Stack, &[]);
    Session {
        views: vec![ViewEntry {
            kind: ViewKind::Local,
            cs: view,
            base: None,
            req: None,
            stubs: Vec::new(),
            state: ViewState { viewed, ..ViewState::default() },
            plan,
            review: false,
            banner: Vec::new(),
        }],
        cursor: 0,
        repo_dir: None,
        loader: None,
        load_started_ms: None,
        load_kind: LoadKind::Launch,
    }
}

fn diffed(path: &str, n: u32) -> DiffFile {
    DiffFile {
        path: path.into(),
        previous_path: None,
        status: FileStatus::Modified,
        staged: false,
        hunks: vec![Hunk {
            old_start: 1,
            old_len: 0,
            new_start: 1,
            new_len: n,
            lines: (1..=n)
                .map(|i| Line {
                    kind: LineKind::Added,
                    old_lineno: None,
                    new_lineno: Some(i),
                    text: "x".into(),
                    emphasis: None,
                })
                .collect(),
        }],
        stats: Stats { additions: n as usize, deletions: 0 },
        is_binary: false,
        old_text: None,
        new_text: None,
        diffed: true,
    }
}

#[test]
fn push_entry_advances_cursor_and_truncates_forward() {
    let mut s = session_with(cs(&["a.rs", "b.rs"]));
    s.push_entry(ViewKind::Commit("x".into()), cs(&["c.rs"]), None, None, false, LayoutMode::Stack, Vec::new());
    assert_eq!(s.cursor, 1);
    assert_eq!(s.views.len(), 2);
    assert_eq!(s.cs().files.len(), 1, "current view is the pushed one");

    s.cursor = 0;
    s.push_entry(
        ViewKind::Commit("y".into()),
        cs(&["d.rs", "e.rs"]),
        None,
        None,
        false,
        LayoutMode::Stack,
        Vec::new(),
    );
    assert_eq!(s.cursor, 1);
    assert_eq!(s.views.len(), 2, "the forward 'x' view was truncated");
}

#[test]
fn cancel_load_outcome_depends_on_the_load_kind() {
    let mut s = session_with(cs(&["a.rs"]));
    s.push_entry(ViewKind::Commit("b".into()), cs(&["b.rs"]), None, None, false, LayoutMode::Stack, Vec::new());
    assert_eq!(s.cursor, 1);
    s.load_kind = LoadKind::Resume;
    assert!(matches!(s.cancel_load(), LoadCancel::Stopped));
    assert_eq!(s.views.len(), 2, "resume-stop keeps the view");
    assert_eq!(s.cursor, 1, "and stays put");
    s.load_kind = LoadKind::Push;
    assert!(matches!(s.cancel_load(), LoadCancel::PoppedView));
    assert_eq!(s.views.len(), 1, "push-cancel drops the pushed view");
    assert_eq!(s.cursor, 0);
    s.load_kind = LoadKind::Launch;
    assert!(matches!(s.cancel_load(), LoadCancel::Quit));
}

#[test]
fn promote_review_seeds_viewed() {
    let mut s = session_with(cs(&["a.rs", "b.rs", "c.rs"]));
    assert!(!s.is_review());
    s.promote_review();
    assert!(s.is_review());
    assert_eq!(s.state().viewed.len(), 3);
    assert!(s.state().viewed.iter().all(|v| !v));
}

#[test]
fn resize_and_reveal_resizes_viewed_and_requests_reveal() {
    let mut s = session_with(cs(&["a.rs", "b.rs", "c.rs"]));
    s.views[0].state.viewed = vec![true];
    s.views[0].state.reveal_selected = false;
    s.resize_and_reveal();
    assert_eq!(s.state().viewed.len(), 3, "viewed re-sized to the file count");
    assert!(s.state().reveal_selected, "a sidebar reveal is requested");

    s.views[0].state.reveal_selected = false;
    s.resize_and_reveal();
    assert_eq!(s.state().viewed.len(), 3);
    assert!(s.state().reveal_selected);
}

#[test]
fn drain_loader_without_a_loader_is_false() {
    let mut s = session_with(cs(&["a.rs"]));
    assert!(!s.drain_loader(Vec::new(), false, LayoutMode::Stack, true, 20, 80), "no loader → nothing changed");
}

#[test]
fn resume_load_if_stale_is_a_noop_without_a_repo() {
    let mut s = session_with(cs(&["a.rs"]));
    let jobs = s.resume_load_if_stale(0);
    assert!(jobs.is_empty());
    assert!(!s.loading());
}

/// A session over undiffed stubs with a repository to load from.
fn loading_session() -> (Session, Vec<FileStub>) {
    let stubs = vec![stub("a.rs"), stub("src/b.rs"), stub("src/c.rs")];
    let view = stub_changeset("HEAD", &stubs);
    let mut s = session_with(view);
    s.repo_dir = Some(".".into());
    (s, stubs)
}

#[test]
fn resume_load_if_stale_restarts_undiffed_work() {
    let (mut s, stubs) = loading_session();
    let jobs = s.begin_load(stubs, false, 0);
    assert_eq!(jobs.len(), 3);
    s.clear_load();
    assert!(!s.loading());

    let jobs = s.resume_load_if_stale(5);
    assert!(s.loading(), "undiffed work remains → the load resumes");
    assert_eq!(jobs.iter().map(|(i, _)| *i).collect::<Vec<_>>(), vec![0, 1, 2]);
    assert_eq!(s.load_kind, LoadKind::Resume);
    let again = s.resume_load_if_stale(6);
    assert!(again.is_empty());
    assert!(s.loading(), "already loading → a no-op");
}

#[test]
fn drain_loader_streams_diffs_and_clears_when_finished() {
    let (mut s, stubs) = loading_session();
    let jobs = s.begin_load(stubs, false, 0);
    assert_eq!(s.load_progress(), (0, 3), "total known up front");
    assert!(!s.show_progress(10), "fast load shows no chrome before the threshold");
    assert!(s.show_progress(100));

    let batch: Vec<(usize, DiffFile)> = jobs[..2].iter().map(|(i, st)| (*i, diffed(&st.path, 2))).collect();
    assert!(s.drain_loader(batch, false, LayoutMode::Stack, true, 20, 80));
    assert_eq!(s.load_progress(), (2, 3));
    assert!(s.cs().files[0].diffed && s.cs().files[1].diffed && !s.cs().files[2].diffed);

    // Only the still-undiffed file would be dispatched again.
    s.clear_load();
    let rest = s.resume_load_if_stale(1);
    assert_eq!(rest.iter().map(|(i, _)| *i).collect::<Vec<_>>(), vec![2]);

    assert!(s.drain_loader(vec![(2, diffed("src/c.rs", 1))], true, LayoutMode::Stack, true, 20, 80));
    assert!(!s.loading(), "the loader is cleared once finished");
    assert!(s.cs().fully_diffed(), "every file ends up diffed");
    assert!(s.plan().rows.len() > 9, "the plan was rebuilt around the diffs");
}

#[test]
fn an_empty_finished_batch_just_clears_the_load() {
    let (mut s, stubs) = loading_session();
    s.begin_load(stubs, true, 0);
    assert_eq!(s.load_kind, LoadKind::Push);
    assert!(!s.drain_loader(Vec::new(), false, LayoutMode::Stack, true, 20, 80), "nothing yet");
    assert!(s.loading());
    assert!(s.drain_loader(Vec::new(), true, LayoutMode::Stack, true, 20, 80));
    assert!(!s.loading());
    assert_eq!(s.load_kind, LoadKind::Launch);
    assert_eq!(s.loader, None::<LoadStatus>);
}

#[test]
fn a_pushed_view_that_is_cancelled_returns_to_its_parent() {
    let mut s = session_with(cs(&["a.rs"]));
    s.repo_dir = Some(".".into());
    let pushed = cs(&["b.rs", "c.rs"]);
    s.push_entry(ViewKind::Commit("abc".into()), pushed, None, None, false, LayoutMode::Split, Vec::new());
    let stubs = vec![stub("b.rs"), stub("c.rs")];
    let jobs = s.begin_load(stubs, true, 3);
    assert_eq!(jobs.len(), 2);
    assert!(matches!(s.cancel_load(), LoadCancel::PoppedView));
    assert_eq!(s.cursor, 0);
    assert_eq!(s.views.len(), 1);
    assert_eq!(s.cs().files[0].path, "a.rs");
    assert!(!s.loading());
}

#[test]
fn home_view_is_reviewable_when_local_or_a_review() {
    let mut s = session_with(cs(&["a.rs"]));
    assert!(s.home_reviewable(), "a local view");
    assert!(s.source_is_local());
    s.views[0].kind = ViewKind::Commit("abc".into());
    assert!(!s.home_reviewable());
    s.views[0].review = true;
    assert!(s.home_reviewable());
    s.views[0].kind = ViewKind::Staged;
    assert!(s.kind().is_local());
}

#[test]
fn rebuild_keeps_the_offset_within_the_top_file() {
    let mut view = cs(&["a.rs", "b.rs"]);
    view.files[1] = diffed("b.rs", 30);
    let mut s = session_with(view);
    // Put the viewport 3 rows into b.rs.
    let b_start = s.file_start(1).unwrap();
    s.views[0].state.scroll = b_start + 3;
    s.views[0].state.cursor_row = b_start + 3;
    assert_eq!(s.current_file(), 1);
    // a.rs's diff arrives and grows above it.
    s.views[0].cs.files[0] = diffed("a.rs", 10);
    s.rebuild_plan(LayoutMode::Stack, true, 12, 80);
    let new_start = s.file_start(1).unwrap();
    assert!(new_start > b_start);
    assert_eq!(s.state().scroll, new_start + 3, "same offset within b.rs");
    assert_eq!(s.state().cursor_row, new_start + 3, "the cursor stays on its line");
    assert_eq!(s.active_file(), 0);
    assert_eq!(s.total_rows(), s.plan().rows.len());
}

#[test]
fn banner_lines_head_with_the_identity_then_the_body() {
    let msg = CommitMessage {
        sha: "abcdef0123".into(),
        author: "me".into(),
        date: "2026-06-30".into(),
        body: "subject\r\n\nbody line\n".into(),
    };
    assert_eq!(
        banner_lines(&msg),
        vec!["abcdef0 · me · 2026-06-30".to_string(), String::new(), "subject".into(), String::new(), "body line".into()]
    );
    let bare = CommitMessage { body: String::new(), ..msg };
    assert_eq!(banner_lines(&bare), vec!["abcdef0 · me · 2026-06-30".to_string()]);
}

#[test]
fn a_stub_file_is_undiffed_and_empty() {
    let f = FileStub {
        path: "new.rs".into(),
        previous_path: Some("old.rs".into()),
        status: FileStatus::Renamed,
        staged: true,
    }
    .as_stub_file();
    assert_eq!(f.path, "new.rs");
    assert_eq!(f.previous_path.as_deref(), Some("old.rs"));
    assert_eq!(f.status, FileStatus::Renamed);
    assert!(f.staged && !f.diffed && f.hunks.is_empty());
}
