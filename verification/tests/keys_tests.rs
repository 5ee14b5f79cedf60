use diffstream::app::App;
use diffstream::commands::Effect;
use diffstream::diff::compute_hunks_with_context;
use diffstream::keys::{Command, Key, Mods};
use diffstream::model::{Changeset, CommitMessage, DiffFile, FileStatus, LayoutMode, Stats};
use diffstream::peek::PeekMode;
use diffstream::session::{stub_changeset, FileStub, LoadRequest, ViewKind};
use diffstream::types::{CommitMsg, Focus, Overlay};
use diffstream::view::ViewState;

const NONE: Mods = Mods { ctrl: false, shift: false };
const CTRL: Mods = Mods { ctrl: true, shift: false };
const SHIFT: Mods = Mods { ctrl: false, shift: true };

fn file(path: &str, old: &str, new: &str, status: FileStatus) -> DiffFile {
    let (hunks, additions, deletions) = compute_hunks_with_context(old, new, 3);
    DiffFile {
        path: path.into(),
        previous_path: None,
        status,
        staged: false,
        hunks,
        stats: Stats { additions, deletions },
        is_binary: false,
        old_text: if old.is_empty() { None } else { Some(old.to_string()) },
        new_text: if new.is_empty() { None } else { Some(new.to_string()) },
        diffed: true,
    }
}

fn sample() -> Changeset {
    Changeset {
        source: "working tree".into(),
        files: vec![
            file(
                "src/auth.rs",
                "fn login() {\n    ok()\n}\n",
                "fn login() {\n    check()\n    ok()\n}\n",
                FileStatus::Modified,
            ),
            file("README.md", "", "hello\n", FileStatus::Untracked),
        ],
    }
}

/// A changeset big enough that the stream actually scrolls.
fn big_sample() -> Changeset {
    let files = (0..5)
        .map(|i| {
            let mut old = String::new();
            for n in 0..25 {
                old.push_str(&format!("line {n}\n"));
            }
            let mut new = String::new();
            for n in 0..25 {
                new.push_str(&format!("line {n}{}\n", if n == 5 { " X" } else { "" }));
            }
            file(&format!("src/file{i}.rs"), &old, &new, FileStatus::Modified)
        })
        .collect();
    Changeset { source: "wt".into(), files }
}

fn key(app: &mut App, k: Key, m: Mods) -> Effect {
    app.handle_key(k, m, 0)
}

fn st(app: &mut App) -> &mut ViewState {
    let c = app.session.cursor;
    &mut app.session.views[c].state
}

fn palette_query(app: &App) -> String {
    match app.mode.overlay() {
        Some(Overlay::Palette(p)) => p.query.clone(),
        _ => panic!("no palette open"),
    }
}

fn palette_selected(app: &App) -> usize {
    match app.mode.overlay() {
        Some(Overlay::Palette(p)) => p.selected,
        _ => panic!("no palette open"),
    }
}

fn commit_scroll(app: &App) -> usize {
    match app.mode.overlay() {
        Some(Overlay::CommitMessage(m)) => m.scroll,
        _ => panic!("no commit popup open"),
    }
}

fn lines(n: usize) -> String {
    let mut s = String::new();
    for i in 0..n {
        s.push_str(&format!("line {i}\n"));
    }
    s
}

#[test]
fn palette_number_pick_jumps() {
    let mut app = App::new(sample());
    // The empty query scores every file alike: changeset order.
    app.open_palette(&[Some(0), Some(0)]);
    key(&mut app, Key::Char('2'), NONE);
    assert!(!app.palette_open(), "picking a number closes the palette");
    assert_eq!(app.current_file(), 1);
}

#[test]
fn d_toggles_sidebar_grouping_keeping_selection() {
    let mut app = App::new(sample());
    st(&mut app).selected = 1;
    assert!(app.grouped, "grouped by directory by default");
    key(&mut app, Key::Char('D'), NONE);
    assert!(!app.grouped, "D toggles to the flat list");
    assert_eq!(app.state().selected, 1, "selection preserved across the toggle");
    key(&mut app, Key::Char('D'), NONE);
    assert!(app.grouped, "D again returns to grouped");
    assert_eq!(app.state().selected, 1, "selection still preserved");
}

#[test]
fn angle_brackets_navigate_view_history() {
    let mut app = App::new(sample());
    app.push_view(ViewKind::Commit("x".into()), sample(), None, None, false, Vec::new());
    assert_eq!(app.session.cursor, 1);
    key(&mut app, Key::Char('<'), NONE);
    assert_eq!(app.session.cursor, 0, "< → view back");
    key(&mut app, Key::Char('>'), NONE);
    assert_eq!(app.session.cursor, 1, "> → view forward");
}

#[test]
fn ctrl_f_b_half_page() {
    let mut app = App::new(big_sample());
    app.viewport_h = 10;
    key(&mut app, Key::Char('f'), CTRL);
    assert_eq!(app.state().cursor_row, 4, "ctrl-f moves half a page down");
    key(&mut app, Key::Char('b'), CTRL);
    assert_eq!(app.state().cursor_row, 0, "ctrl-b moves half a page up");
}

#[test]
fn palette_overlay_keys_cover_edit_and_move() {
    let mut app = App::new(sample()); // 2 files: src/auth.rs (0), README.md (1)
    let e = key(&mut app, Key::Char('/'), NONE);
    assert!(matches!(e, Effect::Outside(Command::OpenPalette)), "/ asks for the file palette");
    app.open_palette(&[Some(0), Some(0)]);
    assert!(app.palette_open());

    // A non-digit char is appended to the query; Backspace removes it.
    let e = key(&mut app, Key::Char('r'), NONE);
    assert!(matches!(e, Effect::RefreshPalette));
    assert_eq!(palette_query(&app), "r", "a letter filters");
    app.palette_refresh(&[Some(5), Some(9)]);
    let e = key(&mut app, Key::Backspace, NONE);
    assert!(matches!(e, Effect::RefreshPalette));
    assert_eq!(palette_query(&app), "", "Backspace deletes a char");
    app.palette_refresh(&[Some(0), Some(0)]);

    // Down / Up move the highlighted match.
    key(&mut app, Key::Down, NONE);
    assert_eq!(palette_selected(&app), 1, "Down moves selection");
    key(&mut app, Key::Up, NONE);
    assert_eq!(palette_selected(&app), 0, "Up moves selection");

    // Enter confirms the highlighted match and closes.
    key(&mut app, Key::Enter, NONE);
    assert!(!app.palette_open(), "Enter confirms and closes");
    assert_eq!(app.current_file(), 0, "jumped to the first match");

    // Esc closes a re-opened palette.
    app.open_palette(&[Some(0), Some(0)]);
    key(&mut app, Key::Esc, NONE);
    assert!(!app.palette_open(), "Esc closes the palette");
}

#[test]
fn palette_ignores_unhandled_keys() {
    let mut app = App::new(sample());
    app.open_palette(&[Some(0), Some(0)]);
    key(&mut app, Key::Left, NONE);
    assert!(app.palette_open(), "Left is ignored, palette stays open");
    assert_eq!(palette_query(&app), "", "no input recorded");
}

#[test]
fn help_overlay_any_key_dismisses() {
    let mut app = App::new(sample());
    app.toggle_help();
    assert!(app.help_open());
    key(&mut app, Key::Char('z'), NONE);
    assert!(!app.help_open(), "any key dismisses the help overlay");
}

#[test]
fn peek_plain_arrows_scroll_one_line_and_ignore_unbound() {
    let content = lines(50);
    let cs = Changeset { source: "wt".into(), files: vec![file("a.rs", "x\n", &content, FileStatus::Modified)] };
    let mut app = App::new(cs);
    let e = key(&mut app, Key::Char('p'), NONE);
    assert!(matches!(e, Effect::Outside(Command::OpenPeekPreview)));
    app.open_peek_preview(content.clone(), content.clone());
    app.peek_viewport_h = 18;

    key(&mut app, Key::Char('j'), NONE);
    assert_eq!(app.peek().unwrap().state.scroll, 1, "j scrolls down one");
    key(&mut app, Key::Down, NONE);
    assert_eq!(app.peek().unwrap().state.scroll, 2, "Down scrolls down one");
    key(&mut app, Key::Char('k'), NONE);
    assert_eq!(app.peek().unwrap().state.scroll, 1, "k scrolls up one");
    key(&mut app, Key::Up, NONE);
    assert_eq!(app.peek().unwrap().state.scroll, 0, "Up scrolls up one");
    key(&mut app, Key::Left, NONE);
    assert_eq!(app.peek().unwrap().state.scroll, 0, "Left is a no-op in the peek");
}

#[test]
fn peek_mode_specific_keys_dispatch_only_in_their_mode() {
    let content = lines(30);
    let cs = Changeset { source: "wt".into(), files: vec![file("a.rs", "x\n", &content, FileStatus::Modified)] };
    let mut app = App::new(cs);

    // Diff peek: `m` toggles split and `-` switches to compact.
    let e = key(&mut app, Key::Char('='), NONE);
    assert!(matches!(e, Effect::Outside(Command::OpenPeekReview)));
    app.open_peek_review("x\n".into(), content.clone());
    assert_eq!(app.peek().unwrap().mode, PeekMode::Diff);
    let split = app.peek().unwrap().split_view;
    key(&mut app, Key::Char('m'), NONE);
    assert_ne!(app.peek().unwrap().split_view, split, "m toggles split in diff mode");
    key(&mut app, Key::Char('-'), NONE);
    assert!(!app.peek().unwrap().full, "- sets compact context in diff mode");
    app.peek_close();

    // Content peek: `m` is not a content-mode key.
    app.open_peek_preview(content.clone(), content.clone());
    let split = app.peek().unwrap().split_view;
    key(&mut app, Key::Char('m'), NONE);
    assert_eq!(app.peek().unwrap().split_view, split, "m does not act in content mode");
    app.peek_close();

    // Blame peek: Enter is routed (no repo here, so nothing opens).
    let e = key(&mut app, Key::Char('b'), NONE);
    assert!(matches!(e, Effect::Done), "no repository: nothing to fetch");
    assert_eq!(app.peek().unwrap().mode, PeekMode::Blame);
    let e = key(&mut app, Key::Enter, NONE);
    assert!(matches!(e, Effect::Done));
    assert!(!app.commit_msg_open(), "Enter routed in blame; no blame → no popup");
}

fn popup() -> Overlay {
    Overlay::CommitMessage(CommitMsg::new(CommitMessage {
        sha: "abc".into(),
        author: "me".into(),
        date: "2026".into(),
        body: "l1\nl2\nl3\nl4\nl5\n".into(),
    }))
}

#[test]
fn commit_message_overlay_routes_scroll_confirm_and_dismiss() {
    let mut app = App::new(sample());
    app.commit_msg_viewport_h = 2;
    app.mode.push_overlay(popup());
    key(&mut app, Key::Char('j'), NONE);
    assert_eq!(commit_scroll(&app), 1, "j scrolls down");
    key(&mut app, Key::Char('k'), NONE);
    assert_eq!(commit_scroll(&app), 0, "k scrolls up");
    key(&mut app, Key::PageDown, NONE);
    assert!(commit_scroll(&app) > 0, "PageDown scrolls");
    key(&mut app, Key::PageUp, NONE);
    assert_eq!(commit_scroll(&app), 0, "PageUp returns to top");
    key(&mut app, Key::Char('z'), NONE);
    assert!(app.commit_msg_open(), "unbound key is a no-op");
    key(&mut app, Key::Tab, NONE);
    assert!(!app.commit_msg_open(), "Tab dismisses the popup");
    app.mode.push_overlay(popup());
    key(&mut app, Key::Esc, NONE);
    assert!(!app.commit_msg_open(), "Esc dismisses the popup");

    // Enter asks the caller to switch; until it does, the popup stays put.
    app.mode.push_overlay(popup());
    let e = key(&mut app, Key::Enter, NONE);
    assert!(matches!(e, Effect::Outside(Command::CommitMsgConfirm)));
    assert!(app.commit_msg_open(), "an unperformed confirm keeps the popup open");
}

fn stub(path: &str) -> FileStub {
    FileStub { path: path.into(), previous_path: None, status: FileStatus::Modified, staged: false }
}

#[test]
fn esc_cancels_a_streaming_load_at_launch() {
    let stubs = vec![stub("a.rs"), stub("b.rs")];
    let mut app = App::with_launch(
        stub_changeset("HEAD", &stubs),
        LayoutMode::Stack,
        Some("repo".into()),
        ViewKind::Commit("HEAD".into()),
        false,
        None,
        Some(LoadRequest::Show { rev: "HEAD".into() }),
        Vec::new(),
    );
    app.begin_load(stubs, false, 0);
    assert!(app.loading());
    let e = key(&mut app, Key::Esc, NONE);
    assert!(matches!(e, Effect::Load(ref jobs) if jobs.is_empty()));
    assert!(app.should_quit, "cancelling the launch load quits");
}

#[test]
fn b_opens_a_blame_peek_and_placeholder_is_inert() {
    let mut app = App::new(sample());
    key(&mut app, Key::Char('b'), NONE);
    assert!(app.peek_open(), "b opened a peek");
    assert_eq!(app.peek().unwrap().mode, PeekMode::Blame, "in blame mode");
    app.peek_close();

    st(&mut app).select_dir("src".into(), 0);
    key(&mut app, Key::Char('b'), NONE);
    assert!(!app.peek_open(), "b is inert on a placeholder");
}

#[test]
fn ctrl_d_u_half_page_and_unbound_ctrl_is_ignored() {
    let mut app = App::new(big_sample());
    app.viewport_h = 10;
    key(&mut app, Key::Char('d'), CTRL);
    assert_eq!(app.state().cursor_row, 4, "ctrl+d half-pages down");
    key(&mut app, Key::Char('u'), CTRL);
    assert_eq!(app.state().cursor_row, 0, "ctrl+u half-pages up");
    let before = app.state().selected;
    let e = key(&mut app, Key::Char('x'), CTRL);
    assert!(matches!(e, Effect::Done));
    assert_eq!(app.state().selected, before, "ctrl+x is ignored");
}

#[test]
fn ctrl_f_in_sidebar_scrolls_list_keeping_selection() {
    let files: Vec<_> = (0..30).map(|i| file(&format!("f{i}.rs"), "a\n", "b\n", FileStatus::Modified)).collect();
    let mut app = App::new(Changeset { source: "wt".into(), files });
    app.toggle_focus();
    let sel_before = app.state().selected;
    let e = key(&mut app, Key::Char('f'), CTRL);
    assert!(matches!(e, Effect::Outside(Command::HalfPageFocused(1))), "the list scroll is the sidebar's");
    assert_eq!(app.state().selected, sel_before, "selection stays put");
}

#[test]
fn ctrl_arrows_move_between_files() {
    let mut app = App::new(big_sample());
    assert!(matches!(key(&mut app, Key::Down, CTRL), Effect::Outside(Command::NextFile)), "ctrl-down → next file");
    assert!(matches!(key(&mut app, Key::Up, CTRL), Effect::Outside(Command::PrevFile)), "ctrl-up → prev file");
}

#[test]
fn shift_brackets_move_between_files() {
    let mut app = App::new(big_sample());
    assert!(matches!(key(&mut app, Key::Char('}'), NONE), Effect::Outside(Command::NextFile)));
    assert!(matches!(key(&mut app, Key::Char('{'), NONE), Effect::Outside(Command::PrevFile)));
    // Plain ] stays hunk navigation, not file navigation.
    app.viewport_h = 14;
    assert!(matches!(key(&mut app, Key::Char(']'), NONE), Effect::Done));
    assert_eq!(app.state().selected, 0, "plain ] does not change the selected file");
}

#[test]
fn space_steps_files_shift_space_steps_back() {
    let mut app = App::new(big_sample());
    assert!(matches!(key(&mut app, Key::Char(' '), NONE), Effect::Outside(Command::NextFile)), "Space → next file");
    assert!(
        matches!(key(&mut app, Key::Char(' '), SHIFT), Effect::Outside(Command::PrevFile)),
        "Shift+Space → prev file"
    );
}

#[test]
fn global_keys_cover_remaining_actions() {
    let cs = big_sample(); // 5 files under src/, a local review
    let mut app = App::new(big_sample());
    app.viewport_h = 14;

    key(&mut app, Key::Tab, NONE);
    assert_eq!(app.focus(), Focus::Sidebar, "Tab → sidebar");
    key(&mut app, Key::BackTab, NONE);
    assert_eq!(app.focus(), Focus::Stream, "BackTab → stream");

    key(&mut app, Key::Char('s'), NONE);
    assert!(app.sidebar_hidden, "s hides the sidebar");
    key(&mut app, Key::Char('s'), NONE);
    assert!(!app.sidebar_hidden, "s again shows it");

    let layout_before = app.layout;
    key(&mut app, Key::Char('m'), NONE);
    assert_ne!(app.layout, layout_before, "m cycles the layout");

    assert!(!app.state().wrap);
    key(&mut app, Key::Char('w'), NONE);
    assert!(app.state().wrap, "w enables wrapping");
    key(&mut app, Key::Char('w'), NONE);
    assert!(!app.state().wrap, "w again disables it");

    for i in [0usize, 1, 2] {
        st(&mut app).viewed[i] = true;
    }
    st(&mut app).selected = 0;
    key(&mut app, Key::Char('u'), NONE);
    assert_eq!(app.current_file(), 3, "u jumps to the next unviewed file");

    assert!(matches!(key(&mut app, Key::Char('/'), NONE), Effect::Outside(Command::OpenPalette)));
    assert!(matches!(key(&mut app, Key::Char('f'), NONE), Effect::Outside(Command::OpenPalette)));
    assert!(matches!(key(&mut app, Key::Char('c'), NONE), Effect::Outside(Command::OpenCommitPalette)));
    assert!(matches!(key(&mut app, Key::Char('F'), NONE), Effect::Outside(Command::OpenFileHistory)));
    assert!(!app.palette_open(), "the pickers are the caller's to open");

    key(&mut app, Key::Char('Z'), NONE);
    assert!(app.state().collapsed.iter().any(|d| d == "src"), "Z folds all dirs");

    app.push_view(ViewKind::Commit("x".into()), cs.clone(), None, None, false, Vec::new());
    assert_eq!(app.session.cursor, 1);
    key(&mut app, Key::Char('C'), NONE);
    assert_eq!(app.session.cursor, 0, "C returns home");

    app.push_view(ViewKind::Commit("y".into()), cs.clone(), None, None, false, Vec::new());
    assert!(!app.is_review(), "a pushed browse view is not a review");
    key(&mut app, Key::Char('R'), NONE);
    assert!(app.is_review(), "R promotes the browse view");

    key(&mut app, Key::Char('q'), NONE);
    assert!(app.should_quit, "q quits");
}

#[test]
fn sidebar_keys_cover_navigation_and_exit() {
    let files: Vec<_> = (0..10).map(|i| file(&format!("f{i}.rs"), "a\n", "b\n", FileStatus::Modified)).collect();
    let mut app = App::new(Changeset { source: "wt".into(), files });
    app.toggle_focus();
    assert_eq!(app.focus(), Focus::Sidebar);

    assert!(matches!(key(&mut app, Key::Char('j'), NONE), Effect::Outside(Command::SidebarMove(1))));
    assert!(matches!(key(&mut app, Key::Down, NONE), Effect::Outside(Command::SidebarMove(1))));
    assert!(matches!(key(&mut app, Key::Char('k'), NONE), Effect::Outside(Command::SidebarMove(-1))));
    assert!(matches!(key(&mut app, Key::Up, NONE), Effect::Outside(Command::SidebarMove(-1))));
    assert!(matches!(key(&mut app, Key::Char('G'), NONE), Effect::Outside(Command::SidebarMove(d)) if d > 0));
    assert!(matches!(key(&mut app, Key::Char('g'), NONE), Effect::Outside(Command::SidebarMove(d)) if d < 0));

    for k in [Key::Enter, Key::Char('l'), Key::Right, Key::Esc] {
        key(&mut app, k, NONE);
        assert_eq!(app.focus(), Focus::Stream, "{k:?} drops into the stream");
        app.toggle_focus();
    }
}

#[test]
fn stream_keys_cover_paging_hunks_and_extremes() {
    let mut app = App::new(big_sample());
    app.viewport_h = 14;
    assert_eq!(app.focus(), Focus::Stream);

    key(&mut app, Key::PageDown, NONE);
    assert!(app.state().cursor_row > 0, "PageDown advances the stream");
    key(&mut app, Key::PageUp, NONE);
    assert_eq!(app.state().cursor_row, 0, "PageUp returns to the top");

    key(&mut app, Key::Char(']'), NONE);
    let after_hunk = app.state().scroll;
    assert!(after_hunk > 0, "] jumps to the next hunk");
    assert_eq!(app.state().cursor_row, after_hunk, "and the cursor lands on it");
    key(&mut app, Key::Char('['), NONE);
    assert!(app.state().scroll <= after_hunk, "[ steps back a hunk");

    key(&mut app, Key::Char('G'), NONE);
    let bottom = app.state().scroll;
    assert!(bottom > 0, "G jumps to the bottom");
    key(&mut app, Key::Char('g'), NONE);
    assert_eq!(app.state().scroll, 0, "g jumps to the top");
    key(&mut app, Key::End, NONE);
    assert_eq!(app.state().scroll, bottom, "End jumps to the bottom");
    key(&mut app, Key::Home, NONE);
    assert_eq!(app.state().scroll, 0, "Home jumps to the top");

    key(&mut app, Key::Esc, NONE);
    assert!(app.should_quit, "Esc in the stream quits");
}

#[test]
fn theme_picker_overlay_keys_navigate_grid() {
    let mut app = App::new(big_sample());
    assert!(matches!(key(&mut app, Key::Char('t'), NONE), Effect::Outside(Command::OpenThemePicker)));
    app.open_theme_picker(0, 0, true);
    assert!(app.theme_picker_open());
    for k in [
        Key::Right,
        Key::Left,
        Key::Down,
        Key::Up,
        Key::Char('l'),
        Key::Char('h'),
        Key::Char('j'),
        Key::Char('k'),
        Key::Tab,
        Key::BackTab,
    ] {
        let e = key(&mut app, k, NONE);
        assert!(
            matches!(e, Effect::Outside(Command::ThemeMove(_, _)) | Effect::Outside(Command::ThemeToggleTab)),
            "{k:?} moves within the grid"
        );
        assert!(app.theme_picker_open(), "navigation keeps the picker open");
    }
    let e = key(&mut app, Key::Char('x'), NONE);
    assert!(matches!(e, Effect::Done));
    assert!(app.theme_picker_open(), "unknown key is a no-op");
}
