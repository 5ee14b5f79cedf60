use diffstream::model::{BlameCommit, BlameLine};
use diffstream::peek::{Peek, PeekMode};
use diffstream::rows::Row;

fn peek() -> Peek {
    Peek::new("a.rs".into(), true, PeekMode::Content, "fn a() {}\n".into(), "fn b() {}\n".into(), true)
}

#[test]
fn toggle_mode_cycles_content_diff_blame_resetting_scroll() {
    let mut p = peek();
    assert_eq!(p.mode, PeekMode::Content);
    p.state.scroll = 7;

    p.toggle_mode();
    assert_eq!(p.mode, PeekMode::Diff, "content → diff");
    assert_eq!(p.state.scroll, 0, "scroll reset on the mode switch");

    p.state.scroll = 4;
    p.toggle_mode();
    assert_eq!(p.mode, PeekMode::Blame, "diff → blame");
    assert_eq!(p.state.scroll, 0, "scroll reset again");

    p.state.scroll = 2;
    p.toggle_mode();
    assert_eq!(p.mode, PeekMode::Content, "blame → content wraps");
    assert_eq!(p.state.scroll, 0, "scroll reset again");
}

#[test]
fn blame_opened_peek_fills_sides_lazily() {
    let mut p = Peek::new_blame("a.rs".into(), true);
    assert_eq!(p.mode, PeekMode::Blame);
    assert!(p.sides_unfilled(), "`b` defers the content/diff sides");
    p.toggle_mode();
    assert!(p.is_empty(), "unfilled content is empty, not stale");
    p.set_sides("fn a() {}\n".into(), "fn b() {}\n".into(), true);
    assert!(!p.sides_unfilled());
    assert!(!p.is_empty(), "sides installed and the plan rebuilt");
    p.toggle_mode();
    assert!(!p.is_empty(), "diff mode sees the installed sides");
}

#[test]
fn blame_label_covers_unloaded_loading_and_loaded() {
    let mut p = Peek::new("a.rs".into(), true, PeekMode::Blame, String::new(), String::new(), true);
    let bare = p.label();
    assert!(bare.contains("blame") && !bare.contains('…'), "{bare}");

    p.set_blame_pending(true);
    assert!(p.label().contains('…'), "loading shows an ellipsis");
    p.set_blame_pending(false);

    p.install_blame(
        "fn x() {}\n".into(),
        vec![BlameLine {
            commit: BlameCommit {
                sha: "abcdef0123".into(),
                author: "me".into(),
                summary: "do the thing".into(),
                time_secs: 1,
                color_key: 0,
            },
        }],
    );
    let loaded = p.label();
    assert!(loaded.contains("abcdef0"), "short sha in header: {loaded}");
    assert!(loaded.contains("do the thing"), "summary in header: {loaded}");
}

#[test]
fn set_full_and_set_split_are_inert_when_unchanged() {
    let mut p = peek();
    p.set_full(false);
    assert!(p.full, "set_full ignored outside diff mode");
    p.toggle_mode();
    assert_eq!(p.mode, PeekMode::Diff);
    p.set_full(true);
    assert!(p.full, "no-op when already full");
    p.set_full(false);
    assert!(!p.full, "compact context applied");
    let split = p.split_view;
    p.set_split(split);
    assert_eq!(p.split_view, split, "no-op when unchanged");
    p.set_split(!split);
    assert_ne!(p.split_view, split, "a change applies");
}

#[test]
fn labels_name_the_path_and_the_mode() {
    let mut p = peek();
    assert_eq!(p.label(), "a.rs · preview");
    p.toggle_mode();
    assert_eq!(p.label(), "a.rs  +1 -1 · full · unified");
    p.set_split(true);
    assert_eq!(p.label(), "a.rs  +1 -1 · full · split");
    assert!(p.is_split());
    p.toggle_mode();
    assert_eq!(p.label(), "a.rs · blame");
    assert!(!p.is_split(), "split only applies in diff mode");
}

#[test]
fn three_mode_switches_give_back_the_same_rows() {
    let mut p = peek();
    let before: Vec<String> = p.plan.rows.iter().map(|r| format!("{r:?}")).collect();
    p.toggle_mode();
    p.toggle_mode();
    p.toggle_mode();
    let after: Vec<String> = p.plan.rows.iter().map(|r| format!("{r:?}")).collect();
    assert_eq!(p.mode, PeekMode::Content);
    assert_eq!(before, after);
}

#[test]
fn a_diff_peek_marks_where_each_change_run_starts() {
    let mut p = Peek::new(
        "a.rs".into(),
        false,
        PeekMode::Diff,
        "a\nb\nc\nd\n".into(),
        "a\nB\nc\nD\n".into(),
        true,
    );
    p.set_full(false);
    assert!(!p.is_empty());
    for &s in &p.change_starts {
        assert!(matches!(p.plan.rows[s], Row::Line { .. } | Row::Pair(..)));
    }
    assert!(!p.change_starts.is_empty());
    assert_eq!(p.active_rows(), p.plan.rows.len());
}

#[test]
fn the_blame_cursor_maps_the_top_line_to_its_attribution() {
    let mut p = Peek::new_blame("a.rs".into(), false);
    assert!(p.blame_cursor().is_none());
    assert!(p.needs_blame());
    let commit = |sha: &str| BlameLine {
        commit: BlameCommit { sha: sha.into(), author: "a".into(), summary: "s".into(), time_secs: 0, color_key: 0 },
    };
    p.install_blame("one\ntwo\n".into(), vec![commit("1111111111"), commit("2222222222")]);
    assert!(!p.needs_blame());
    assert_eq!(p.blame().len(), 2);
    let first = p.blame_cursor().map(|b| b.commit.sha.clone());
    assert_eq!(first.as_deref(), Some("1111111111"));
    p.state.scroll = 2;
    let second = p.blame_cursor().map(|b| b.commit.sha.clone());
    assert_eq!(second.as_deref(), Some("2222222222"));
}
