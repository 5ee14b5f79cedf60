use diffstream::app::App;
use diffstream::commands::Effect;
use diffstream::diff::compute_hunks_with_context;
use diffstream::keys::{Command, Key, Mods, BIG_STEP};
use diffstream::model::{Changeset, DiffFile, FileStatus, Stats};
use diffstream::peek::PeekMode;
use diffstream::rows::Row;
use diffstream::types::Overlay;

const NONE: Mods = Mods { ctrl: false, shift: false };
const CTRL: Mods = Mods { ctrl: true, shift: false };
const SHIFT: Mods = Mods { ctrl: false, shift: true };

fn file(path: &str, old: &str, new: &str, status: FileStatus) -> DiffFile {
    let (hunks, additions, deletions) = compute_hunks_with_context(old, new, 3);
    DiffFile {
        path: path.into(),
        previous_path: None,
        status,
        staged: false,
        hunks,
        stats: Stats { additions, deletions },
        is_binary: false,
        old_text: if old.is_empty() { None } else { Some(old.to_string()) },
        new_text: if new.is_empty() { None } else { Some(new.to_string()) },
        diffed: true,
    }
}

fn sample() -> Changeset {
    Changeset {
        source: "working tree".into(),
        files: vec![
            file(
                "src/auth.rs",
                "fn login() {\n    ok()\n}\n",
                "fn login() {\n    check()\n    ok()\n}\n",
                FileStatus::Modified,
            ),
            file("README.md", "", "hello\n", FileStatus::Untracked),
        ],
    }
}

fn one(old: &str, new: &str) -> Changeset {
    Changeset { source: "wt".into(), files: vec![file("a.rs", old, new, FileStatus::Modified)] }
}

/// Press a key, carrying out the peek openers as the caller does: the
/// selected file's cached texts (no repository here).
fn key(app: &mut App, k: Key, m: Mods) {
    match app.handle_key(k, m, 0) {
        Effect::Outside(Command::OpenPeekPreview) => {
            if let Some(i) = app.peek_target() {
                let (_, new) = app.cached_sides(i).unwrap();
                app.open_peek_preview(new.clone(), new);
            }
        },
        Effect::Outside(Command::OpenPeekReview) => {
            if let Some(i) = app.peek_target() {
                let (old, new) = app.cached_sides(i).unwrap();
                app.open_peek_review(old, new);
            }
        },
        _ => {},
    }
}

fn lines(n: usize, prefix: &str) -> String {
    let mut s = String::new();
    for i in 0..n {
        s.push_str(&format!("{prefix} {i}\n"));
    }
    s
}

fn scroll(app: &App) -> usize {
    app.peek().unwrap().state.scroll
}

#[test]
fn peek_preview_opens_content_and_renders() {
    let mut app = App::new(sample());
    key(&mut app, Key::Char('p'), NONE);
    let p = app.peek().expect("peek open");
    assert_eq!(p.mode, PeekMode::Content);
    assert!(p.label().contains("preview"), "header shows preview mode");
    assert!(!p.is_empty(), "full file content is shown");
    key(&mut app, Key::Esc, NONE);
    assert!(!app.peek_open(), "Esc closes the peek");
}

#[test]
fn help_over_peek_retains_the_peek_base() {
    let mut app = App::new(sample());
    key(&mut app, Key::Char('p'), NONE);
    assert!(app.peek_open(), "peek is the active base");
    app.mode.push_overlay(Overlay::Help);
    assert!(app.help_open());
    key(&mut app, Key::Char('x'), NONE);
    assert!(!app.help_open(), "help dismissed");
    assert!(app.peek_open(), "returns to the peek base, not the normal stream");
}

#[test]
fn peek_review_opens_diff_and_context_adjusts() {
    let mut app = App::new(sample());
    key(&mut app, Key::Char('='), NONE);
    let p = app.peek().expect("peek open");
    assert_eq!(p.mode, PeekMode::Diff);
    assert!(p.full, "= opens with full context");
    key(&mut app, Key::Char('-'), NONE);
    assert!(!app.peek().unwrap().full, "- flips to compact");
    key(&mut app, Key::Char('='), NONE);
    assert!(app.peek().unwrap().full, "= flips back to full");
    key(&mut app, Key::Tab, NONE);
    assert_eq!(app.peek().unwrap().mode, PeekMode::Blame);
    key(&mut app, Key::Tab, NONE);
    assert_eq!(app.peek().unwrap().mode, PeekMode::Content);
    app.peek_viewport_h = 1;
    app.peek_scroll(2);
    assert_eq!(scroll(&app), 2, "peek scrolls");
    key(&mut app, Key::Char('q'), NONE);
    assert!(!app.peek_open(), "q also closes the peek");
}

#[test]
fn peek_supports_full_navigation() {
    let mut app = App::new(one("x\n", &lines(100, "line")));
    key(&mut app, Key::Char('p'), NONE);
    app.peek_viewport_h = 18;
    key(&mut app, Key::Char('f'), CTRL);
    let half = scroll(&app);
    assert!(half > 1, "ctrl-f half-pages the peek (got {half})");
    key(&mut app, Key::Char('b'), CTRL);
    assert_eq!(scroll(&app), 0, "ctrl-b pages back up");
    key(&mut app, Key::Char('G'), NONE);
    assert!(scroll(&app) > half, "G jumps to the bottom");
    key(&mut app, Key::Char('g'), NONE);
    assert_eq!(scroll(&app), 0, "g jumps to the top");
}

#[test]
fn peek_context_keys_inert_in_content_mode() {
    let mut app = App::new(sample());
    key(&mut app, Key::Char('p'), NONE);
    assert_eq!(app.peek().unwrap().mode, PeekMode::Content);
    key(&mut app, Key::Char('-'), NONE);
    key(&mut app, Key::Char('='), NONE);
    assert_eq!(app.peek().unwrap().mode, PeekMode::Content);
    assert!(!app.peek().unwrap().is_empty(), "content stays visible");
}

#[test]
fn peek_diff_header_shows_stat_not_hunk_span() {
    let mut app = App::new(one("a\nb\nc\n", "a\nX\nc\nd\n"));
    key(&mut app, Key::Char('='), NONE);
    let p = app.peek().unwrap();
    assert!(p.label().contains("+2 -1"), "header shows the real change stat: {}", p.label());
    assert!(!p.plan.rows.iter().any(|r| matches!(r, Row::HunkHeader(_))), "no hunk header in the peek body");
}

#[test]
fn peek_diff_switches_to_split_layout() {
    let mut app = App::new(one("foo\n", "bar\n"));
    key(&mut app, Key::Char('='), NONE);
    assert!(!app.peek().unwrap().split_view, "opens unified");
    let unified = app.peek().unwrap().plan.rows.len();
    key(&mut app, Key::Char('m'), NONE);
    assert!(app.peek().unwrap().split_view, "m flips to split");
    assert!(app.peek().unwrap().plan.rows.len() < unified, "old and new share a row");
}

#[test]
fn peek_full_to_compact_keeps_content_on_screen() {
    let mut old = String::from("change-me\n");
    let mut new = String::from("CHANGED\n");
    for i in 0..80 {
        old.push_str(&format!("tail {i}\n"));
        new.push_str(&format!("tail {i}\n"));
    }
    let mut app = App::new(one(&old, &new));
    key(&mut app, Key::Char('='), NONE);
    app.peek_viewport_h = 14;
    key(&mut app, Key::Char('G'), NONE);
    key(&mut app, Key::Char('-'), NONE);
    let p = app.peek().unwrap();
    let rows = p.plan.rows.len();
    assert!(p.state.scroll <= rows.saturating_sub(app.peek_viewport_h), "compact keeps a full page");
    assert!(p.state.scroll < rows, "content is visible after full→compact");
}

#[test]
fn peek_bottom_scroll_keeps_a_full_page() {
    let mut app = App::new(one("x\n", &lines(60, "line")));
    key(&mut app, Key::Char('p'), NONE);
    app.peek_viewport_h = 18;
    key(&mut app, Key::Char('G'), NONE);
    let p = app.peek().unwrap();
    let rows = p.plan.rows.len();
    assert!(p.state.scroll <= rows.saturating_sub(app.peek_viewport_h), "last page stays full");
    assert!(rows - p.state.scroll >= app.peek_viewport_h.min(rows), "viewport is filled");
}

#[test]
fn peek_toggle_split_after_bottom_scroll_does_not_panic() {
    let mut app = App::new(one(&lines(50, "a"), &lines(50, "b")));
    key(&mut app, Key::Char('='), NONE);
    key(&mut app, Key::Char('m'), NONE);
    app.peek_viewport_h = 12;
    key(&mut app, Key::Char('G'), NONE);
    key(&mut app, Key::Char('m'), NONE);
    assert!(scroll(&app) < app.peek().unwrap().plan.rows.len());
}

#[test]
fn peek_split_hunk_nav_uses_split_positions() {
    let pre = lines(10, "ctx");
    let mid = lines(20, "mid");
    let old = format!("{pre}a\nb\nc\n{mid}p\nq\nr\n{pre}");
    let new = format!("{pre}X\nY\nZ\n{mid}P\nQ\nR\n{pre}");
    let mut app = App::new(one(&old, &new));
    key(&mut app, Key::Char('='), NONE);
    app.peek_viewport_h = 5;
    let stack_starts = app.peek().unwrap().change_starts.clone();
    key(&mut app, Key::Char('m'), NONE);
    let split_starts = app.peek().unwrap().change_starts.clone();
    assert_eq!(stack_starts.len(), 2);
    assert_eq!(split_starts.len(), 2);
    assert_ne!(stack_starts[1], split_starts[1], "second region diverges between layouts");
    key(&mut app, Key::Char(']'), NONE);
    assert_eq!(scroll(&app), split_starts[0], "lands on split region 1");
    key(&mut app, Key::Char(']'), NONE);
    assert_eq!(scroll(&app), split_starts[1], "lands on split region 2");
}

#[test]
fn peek_hunk_nav_jumps_between_hunks() {
    let mut app = App::new(one("1\n2\n3\n4\n5\n6\n7\n8\n9\n10\n", "X\n2\n3\n4\n5\n6\n7\n8\n9\nY\n"));
    key(&mut app, Key::Char('='), NONE);
    app.peek_viewport_h = 3;
    assert_eq!(app.peek().unwrap().plan.hunk_starts.len(), 1, "full = one hunk");
    assert!(app.peek().unwrap().change_starts.len() >= 2, "two change regions");
    key(&mut app, Key::Char(']'), NONE);
    let s1 = scroll(&app);
    key(&mut app, Key::Char(']'), NONE);
    let s2 = scroll(&app);
    assert!(s2 > s1, "] advances to the next change region in full mode");
    key(&mut app, Key::Char('['), NONE);
    assert_eq!(scroll(&app), s1, "[ goes back a region");
}

#[test]
fn peek_keys_cover_fast_scroll_and_paging() {
    let mut app = App::new(one("x\n", &lines(200, "line")));
    key(&mut app, Key::Char('p'), NONE);
    app.peek_viewport_h = 18;
    key(&mut app, Key::Char('J'), NONE);
    assert_eq!(scroll(&app), BIG_STEP as usize, "J fast-scrolls");
    key(&mut app, Key::Char('K'), NONE);
    assert_eq!(scroll(&app), 0, "K fast-scrolls back");
    key(&mut app, Key::Down, SHIFT);
    assert_eq!(scroll(&app), BIG_STEP as usize, "Shift+Down fast-scrolls");
    key(&mut app, Key::Up, SHIFT);
    assert_eq!(scroll(&app), 0, "Shift+Up fast-scrolls back");
    key(&mut app, Key::Char(' '), NONE);
    assert!(scroll(&app) > 0, "Space pages the peek down");
    key(&mut app, Key::PageUp, NONE);
    assert_eq!(scroll(&app), 0, "PageUp pages back");
    key(&mut app, Key::PageDown, NONE);
    assert!(scroll(&app) > 0, "PageDown pages the peek down");
}
