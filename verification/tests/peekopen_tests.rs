use diffstream::app::App;
use diffstream::commands::Effect;
use diffstream::keys::{Key, Mods};
use diffstream::model::{BlameCommit, BlameLine, Changeset, CommitMessage, DiffFile, FileStatus, LayoutMode, Stats};
use diffstream::peek::{Peek, PeekMode};
use diffstream::peekopen::{BlameOutcome, TextSource};
use diffstream::session::{FileStub, ViewKind};
use diffstream::view::ViewState;

fn app_kind(kind: ViewKind, repo: Option<&str>, base: Option<&str>) -> App {
    let cs = Changeset { source: String::new(), files: Vec::new() };
    App::with_launch(cs, LayoutMode::Stack, repo.map(Into::into), kind, false, base.map(Into::into), None, Vec::new())
}

/// A not-yet-diffed stand-in.
fn stub(path: &str) -> DiffFile {
    DiffFile::stub(path.into(), None, FileStatus::Modified, false)
}

/// An already-diffed file carrying cached old/new text.
fn diffed(path: &str, old: Option<&str>, new: Option<&str>) -> DiffFile {
    DiffFile {
        path: path.into(),
        previous_path: None,
        status: FileStatus::Modified,
        staged: false,
        hunks: Vec::new(),
        stats: Stats::default(),
        is_binary: false,
        old_text: old.map(Into::into),
        new_text: new.map(Into::into),
        diffed: true,
    }
}

fn one(f: DiffFile) -> Changeset {
    Changeset { source: String::new(), files: vec![f] }
}

fn st(app: &mut App) -> &mut ViewState {
    let c = app.session.cursor;
    &mut app.session.views[c].state
}

fn at(s: &TextSource) -> Option<&str> {
    match s {
        TextSource::Worktree => None,
        TextSource::At(r) => Some(r.as_str()),
    }
}

/// An app over a repository with one selectable stand-in file.
fn blame_app() -> App {
    App::with_launch(
        one(stub("Cargo.toml")),
        LayoutMode::Stack,
        Some("repo".into()),
        ViewKind::Local,
        false,
        None,
        None,
        Vec::new(),
    )
}

fn blame_line(sha: &str) -> BlameLine {
    BlameLine {
        commit: BlameCommit {
            sha: sha.into(),
            author: "Ann".into(),
            summary: "first".into(),
            time_secs: 1_700_000_000,
            color_key: 7,
        },
    }
}

/// Settle the open peek's blame fetch with the file's committed text.
fn drive_blame(app: &mut App) {
    let text = "[package]\nname = \"x\"\n".to_string();
    let lines = vec![blame_line("0123456789abcdef"), blame_line("0123456789abcdef")];
    assert!(app.drain_blame(BlameOutcome::Ready(text, lines)), "the fetch landed");
}

/// The texts a caller reads for a stand-in's sides.
fn fetched_sides() -> Option<(String, String)> {
    Some(("[package]\n".to_string(), "[package]\nname = \"x\"\n".to_string()))
}

#[test]
fn peek_new_text_covers_every_source() {
    // Diffed → cached new text (and the empty default).
    let mut app = App::new(one(diffed("a", None, Some("hi"))));
    assert_eq!(app.cached_sides(0), Some((String::new(), "hi".to_string())));
    app = App::new(one(diffed("a", None, None)));
    assert_eq!(app.cached_sides(0), Some((String::new(), String::new())));
    // An undiffed stand-in is read from the repository.
    app = App::new(one(stub("Cargo.toml")));
    assert_eq!(app.cached_sides(0), None);

    let c = app_kind(ViewKind::Commit("HEAD".into()), Some("repo"), None);
    assert_eq!(at(&c.new_side_source()), Some("HEAD"), "commit view: the commit");
    let r = app_kind(ViewKind::Range { base: "B".into(), target: "T".into() }, Some("repo"), None);
    assert_eq!(at(&r.new_side_source()), Some("T"), "range view: the target");
    let l = app_kind(ViewKind::Local, Some("repo"), None);
    assert_eq!(at(&l.new_side_source()), None, "local view: the worktree");
}

#[test]
fn diff_sides_cover_every_source() {
    let app = App::new(one(diffed("a", Some("old"), Some("new"))));
    assert_eq!(app.cached_sides(0), Some(("old".to_string(), "new".to_string())));
    assert_eq!(app.cached_sides(1), None, "no such file");

    // Stand-ins: the new side from the view's newest side, the old side from
    // the commit's parent, the range's base, or the local view's base (HEAD).
    let c = app_kind(ViewKind::Commit("HEAD".into()), Some("repo"), None);
    assert_eq!(at(&c.new_side_source()), Some("HEAD"));
    assert_eq!(c.blame_revs().1, "HEAD^");
    let r = app_kind(ViewKind::Range { base: "B".into(), target: "T".into() }, Some("repo"), None);
    assert_eq!((at(&r.new_side_source()), r.blame_revs().1.as_str()), (Some("T"), "B"));
    let l = app_kind(ViewKind::Local, Some("repo"), Some("main"));
    assert_eq!((at(&l.new_side_source()), l.blame_revs().1.as_str()), (None, "main"));
    let l2 = app_kind(ViewKind::Local, Some("repo"), None);
    assert_eq!(l2.blame_revs().1, "HEAD", "local old side defaults to HEAD");
}

#[test]
fn home_top_text_covers_every_source() {
    assert!(app_kind(ViewKind::Local, None, None).home_top_source().is_none(), "no repository: nothing");
    let c = app_kind(ViewKind::Commit("HEAD".into()), Some("repo"), None);
    assert_eq!(c.home_top_source().as_ref().map(at), Some(Some("HEAD")));
    let r = app_kind(ViewKind::Range { base: "B".into(), target: "T".into() }, Some("repo"), None);
    assert_eq!(r.home_top_source().as_ref().map(at), Some(Some("T")));
    let l = app_kind(ViewKind::Local, Some("repo"), None);
    assert_eq!(l.home_top_source().as_ref().map(at), Some(None));
}

#[test]
fn peek_mut_is_some_only_when_a_peek_is_open() {
    let mut app = app_kind(ViewKind::Local, None, None);
    assert!(app.peek().is_none(), "normal base has no peek");
    app.set_peek(Peek::new("a".into(), true, PeekMode::Content, "x".into(), "x".into(), true));
    assert!(app.peek().is_some(), "peek base yields the peek");
}

#[test]
fn open_peek_review_skips_empty_selection_and_binary() {
    let mut app = App::new(Changeset { source: String::new(), files: Vec::new() });
    app.open_peek_review(String::new(), String::new());
    assert!(!app.peek_open(), "nothing to peek with an empty changeset");

    let mut bin = diffed("img.png", None, None);
    bin.is_binary = true;
    let mut app = App::new(one(bin));
    app.open_peek_review(String::new(), String::new());
    assert!(!app.peek_open(), "binary files are not peeked");

    let mut app = App::new(one(diffed("a.rs", Some("old\n"), Some("new\n"))));
    let (old, new) = app.cached_sides(0).unwrap();
    app.open_peek_review(old, new);
    assert!(app.peek_open(), "review peek opens on a normal file");
}

#[test]
fn open_peek_blame_loads_committed_attribution() {
    let mut app = blame_app();
    let req = app.open_peek_blame().expect("a repository: the fetch is asked for");
    assert_eq!((req.rev.as_str(), req.path.as_str()), ("HEAD", "Cargo.toml"));
    assert!(app.peek_open(), "blame peek opened");
    assert_eq!(app.peek().unwrap().mode, PeekMode::Blame);
    assert!(app.peek_blame_loading());
    drive_blame(&mut app);
    let p = app.peek().unwrap();
    assert!(!p.blame().is_empty(), "blame attribution loaded");
    assert!(p.label().contains("blame"), "header is the blame label");
    assert!(p.blame_cursor().is_some(), "cursor line has a blame entry");
}

#[test]
fn open_peek_blame_inert_on_a_placeholder() {
    let mut app = blame_app();
    st(&mut app).select_dir("x".into(), 0);
    assert!(app.open_peek_blame().is_none());
    assert!(!app.peek_open(), "blame is inert on a collapsed placeholder");
}

#[test]
fn blame_peek_has_content_in_the_other_modes() {
    let mut app = blame_app();
    app.open_peek_blame();
    drive_blame(&mut app);
    assert!(!app.peek().unwrap().is_empty(), "blame mode has content");
    let k = app.peek_sides_wanted().expect("the sides are still wanted");
    assert_eq!(app.cached_sides(k), None, "a stand-in: read from the repository");
    app.peek_switch_mode(fetched_sides());
    assert_eq!(app.peek().unwrap().mode, PeekMode::Content);
    assert!(!app.peek().unwrap().is_empty(), "content mode has content after opening via blame");
}

#[test]
fn peek_toggle_cycles_content_diff_blame() {
    let mut app = blame_app();
    let (old, new) = fetched_sides().unwrap();
    app.open_peek_preview(new.clone(), old);
    assert_eq!(app.peek().unwrap().mode, PeekMode::Content);
    assert!(app.peek_switch_mode(None).is_none());
    assert_eq!(app.peek().unwrap().mode, PeekMode::Diff);
    assert!(app.peek_switch_mode(None).is_some(), "arriving in blame asks for its fetch");
    assert_eq!(app.peek().unwrap().mode, PeekMode::Blame, "Tab cycles to blame");
    app.peek_switch_mode(None);
    assert_eq!(app.peek().unwrap().mode, PeekMode::Content, "and wraps back");
}

#[test]
fn peek_blame_enter_opens_the_commit_message() {
    let mut app = blame_app();
    app.open_peek_blame();
    drive_blame(&mut app);
    let e = app.handle_key(Key::Enter, Mods { ctrl: false, shift: false }, 0);
    let sha = match e {
        Effect::FetchMessage(sha) => sha,
        other => panic!("expected a message fetch, got {other:?}"),
    };
    assert_eq!(sha, "0123456789abcdef");
    app.open_commit_message(CommitMessage {
        sha,
        author: "Ann".into(),
        date: "2024".into(),
        body: "first".into(),
    });
    assert!(app.commit_msg_open(), "Enter on a blame line opens the commit-message popup");
}

#[test]
fn peek_blame_open_message_is_noop_without_blame() {
    let mut app = App::new(one(diffed("a.rs", Some("old\n"), Some("new\n"))));
    app.open_peek_preview("new\n".into(), "new\n".into());
    assert_eq!(app.peek_blame_sha(), None, "no blame cursor");
    let e = app.handle_key(Key::Enter, Mods { ctrl: false, shift: false }, 0);
    assert!(matches!(e, Effect::Done));
    assert!(!app.commit_msg_open(), "no blame cursor → nothing opens");
}

#[test]
fn drain_blame_without_a_peek_is_false() {
    let mut app = blame_app();
    assert!(!app.drain_blame(BlameOutcome::Died), "no peek → nothing to drain");
}

#[test]
fn drain_blame_settles_when_the_worker_died_without_sending() {
    let mut app = blame_app();
    app.open_peek_blame();
    assert!(!app.drain_blame(BlameOutcome::Pending), "nothing yet");
    assert!(app.peek_blame_loading());
    assert!(app.drain_blame(BlameOutcome::Died), "a dead worker settles (and redraws)");
    assert!(!app.peek_blame_loading(), "loading cleared");
    assert!(!app.peek().unwrap().needs_blame(), "settled as attempted, not respawned");
    assert!(!app.drain_blame(BlameOutcome::Died), "nothing left to drain");
}

#[test]
fn blame_settles_empty_without_respawning_for_a_file_missing_at_head() {
    let mut app = App::with_launch(
        one(DiffFile::stub("no_such_file_in_repo.xyz".into(), None, FileStatus::Untracked, false)),
        LayoutMode::Stack,
        Some("repo".into()),
        ViewKind::Local,
        false,
        None,
        None,
        Vec::new(),
    );
    app.open_peek_blame();
    assert!(app.drain_blame(BlameOutcome::Ready(String::new(), Vec::new())));
    assert!(app.peek().unwrap().blame().is_empty(), "no blame for an untracked file");
    assert!(!app.peek().unwrap().needs_blame(), "the fetch settled");
    assert!(app.peek_switch_mode(fetched_sides()).is_none()); // blame → content
    assert!(app.peek_switch_mode(None).is_none()); // content → diff
    assert!(app.peek_switch_mode(None).is_none(), "no fetch asked on re-entry"); // diff → blame
    assert!(!app.peek_blame_loading(), "no doomed respawn on re-entry");
    assert!(!app.peek().unwrap().needs_blame());
}

#[test]
fn fill_peek_sides_is_inert_when_the_file_left_the_view() {
    let mut app = App::new(Changeset { source: String::new(), files: Vec::new() });
    app.set_peek(Peek::new_blame("ghost.rs".into(), true));
    assert_eq!(app.peek_sides_wanted(), None, "no source file to read");
    app.peek_switch_mode(None);
    assert!(app.peek().unwrap().sides_unfilled(), "no source file → still unfilled");
}

#[test]
fn split_toggle_is_inert_outside_diff_mode() {
    let mut app = blame_app();
    app.open_peek_blame();
    app.peek_toggle_split();
    assert!(!app.peek().unwrap().split_view, "m must not silently arm a layout change in blame mode");
    app.peek_close();
    let (old, new) = fetched_sides().unwrap();
    app.open_peek_review(old, new);
    app.peek_toggle_split();
    assert!(app.peek().unwrap().split_view, "m toggles in diff mode");
}

#[test]
fn enter_outside_blame_mode_does_not_open_a_message() {
    let mut app = blame_app();
    app.open_peek_blame();
    drive_blame(&mut app);
    assert!(app.peek().unwrap().blame_cursor().is_some(), "blame is loaded");
    app.peek_switch_mode(fetched_sides());
    assert_eq!(app.peek_blame_sha(), None, "Enter is inert outside blame mode even with blame loaded");
    let e = app.handle_key(Key::Enter, Mods { ctrl: false, shift: false }, 0);
    assert!(matches!(e, Effect::Done));
    assert!(!app.commit_msg_open());
}

#[test]
fn blame_revs_resolve_per_view_kind() {
    let pair = |a: &App| a.blame_revs();
    assert_eq!(pair(&app_kind(ViewKind::Local, Some("r"), None)), ("HEAD".to_string(), "HEAD".to_string()));
    assert_eq!(pair(&app_kind(ViewKind::Staged, Some("r"), None)), ("HEAD".to_string(), "HEAD".to_string()));
    assert_eq!(
        pair(&app_kind(ViewKind::Commit("abc123".into()), Some("r"), None)),
        ("abc123".to_string(), "abc123^".to_string())
    );
    assert_eq!(
        pair(&app_kind(ViewKind::Range { base: "x".into(), target: "y".into() }, Some("r"), None)),
        ("y".to_string(), "x".to_string())
    );
    assert_eq!(
        pair(&app_kind(ViewKind::Local, Some("r"), Some("origin/main"))),
        ("HEAD".to_string(), "origin/main".to_string())
    );
}

#[test]
fn peek_blame_confirm_switches_and_closes_the_peek() {
    let mut app = blame_app();
    app.open_peek_blame();
    drive_blame(&mut app);
    let sha = app.peek_blame_sha().unwrap();
    app.open_commit_message(CommitMessage {
        sha: sha.clone(),
        author: "Ann".into(),
        date: "2024".into(),
        body: "first".into(),
    });
    assert!(app.commit_msg_open(), "the popup is open over the blame peek");
    let stubs = vec![FileStub { path: "Cargo.toml".into(), previous_path: None, status: FileStatus::Modified, staged: false }];
    let jobs = app.commit_msg_confirm(&sha, stubs, 0);
    assert!(jobs.is_some(), "the switch dispatches its load");
    assert!(!app.commit_msg_open(), "confirm closes the popup");
    assert!(!app.peek_open(), "confirm closes the blame peek");
    assert_eq!(app.session.cursor, 1, "and switches to the commit view");
}

#[test]
fn peek_sources_a_stub_file_from_git() {
    let mut app = App::with_launch(
        one(stub("src/lib.rs")),
        LayoutMode::Stack,
        Some("repo".into()),
        ViewKind::Commit("HEAD".into()),
        false,
        None,
        None,
        Vec::new(),
    );
    assert_eq!(app.cached_sides(0), None, "a stand-in is read from the repository");
    assert_eq!(at(&app.new_side_source()), Some("HEAD"));
    let (old, new) = fetched_sides().unwrap();
    app.open_peek_preview(new.clone(), new.clone());
    assert!(app.peek_open(), "preview opened on a stub");
    assert!(!app.peek().unwrap().is_empty(), "stub content installed");
    app.peek_close();
    app.open_peek_review(old, new);
    assert!(app.peek_open(), "diff opened on a stub");
}
