use diffstream::model::{CommitInfo, CommitMessage, Side};
use diffstream::palette::{commit_haystack, filter_commits_text, rank_scores, recompute};
use diffstream::reviewlog::Anchor;
use diffstream::types::{
    Base, CommentInput, CommitMsg, Focus, LiveThread, Mode, Overlay, Palette, PaletteKind, Resolution,
    SubmitDraft, ThreadList, VerdictPreset,
};

#[test]
fn the_title_names_the_anchor_and_whether_it_is_an_edit() {
    let a = Anchor {
        path: "src/lib.rs".into(),
        side: Side::New,
        line: 42,
        quote: "x".into(),
        before: Vec::new(),
        after: Vec::new(),
    };
    let mut c = CommentInput::new(Some(a));
    assert_eq!(c.title(), "comment on src/lib.rs:42");
    c.replacing = Some("t1".into());
    assert_eq!(c.title(), "edit comment on src/lib.rs:42");

    let mut r = CommentInput::new(None);
    assert_eq!(r.title(), "comment on this review");
    r.replacing = Some("t1".into());
    assert_eq!(r.title(), "edit review comment");
}

fn thread(placement: Option<Resolution>, resolved: bool) -> LiveThread {
    LiveThread {
        id: "t".into(),
        body: "b".into(),
        resolved,
        deleted: false,
        placement,
        path: Some("a.rs".into()),
        key: None,
    }
}

#[test]
fn every_thread_state_has_its_own_label() {
    assert_eq!(thread(Some(Resolution::Attached { line: 1 }), false).state_label(), "here");
    assert_eq!(thread(Some(Resolution::Shifted { from: 1, to: 2 }), false).state_label(), "moved");
    assert_eq!(thread(Some(Resolution::Detached), false).state_label(), "detached");
    assert_eq!(thread(Some(Resolution::Unresolved), false).state_label(), "loading");
    assert_eq!(thread(None, false).state_label(), "review");
    assert_eq!(thread(Some(Resolution::Detached), true).state_label(), "resolved");
}

#[test]
fn a_draft_with_no_presets_titles_and_sends_without_one() {
    let mut d = SubmitDraft::new(Vec::new());
    assert!(d.title().contains("pick a verdict"));
    d.begin_edit();
    assert!(d.buffer.is_none(), "nothing to pre-fill from");
    d.buffer = Some("typed by hand".into());
    assert_eq!(d.title(), "submit", "no preset to name");
    assert!(d.current().is_none());
}

#[test]
fn a_draft_names_its_preset_once_editing() {
    let presets = vec![
        VerdictPreset { name: "approve".into(), body: "ship it".into() },
        VerdictPreset { name: "revise".into(), body: "please fix".into() },
    ];
    let mut d = SubmitDraft::new(presets);
    d.move_by(5);
    assert_eq!(d.selected, 1, "clamped to the last preset");
    d.begin_edit();
    assert_eq!(d.buffer.as_deref(), Some("please fix"));
    assert_eq!(d.title(), "submit · revise");
    d.move_by(-1);
    assert_eq!(d.selected, 1, "no moving while editing");
}

#[test]
fn the_thread_list_clamps_its_selection() {
    let mut t = ThreadList::new(vec![thread(None, false), thread(None, true)]);
    assert_eq!(t.selected, 0);
    t.move_by(-3);
    assert_eq!(t.selected, 0);
    t.move_by(7);
    assert_eq!(t.selected, 1);
    assert!(t.current().unwrap().resolved);
    let mut empty = ThreadList::new(Vec::new());
    empty.move_by(1);
    assert_eq!(empty.selected, 0);
    assert!(empty.current().is_none());
}

#[test]
fn the_commit_popup_counts_body_lines() {
    let c = CommitMsg::new(CommitMessage {
        sha: "abc".into(),
        author: "me".into(),
        date: "d".into(),
        body: "one\ntwo\n\nfour\n".into(),
    });
    assert_eq!(c.body_lines, 4);
    assert_eq!(c.scroll, 0);
}

#[test]
fn dismissing_an_overlay_restores_what_was_beneath() {
    let mut m = Mode::normal();
    assert!(m.overlay().is_none());
    assert!(matches!(m.base, Base::Normal { focus: Focus::Stream }));
    m.push_overlay(Overlay::Help);
    m.push_overlay(Overlay::Threads(ThreadList::new(Vec::new())));
    assert!(matches!(m.overlay(), Some(Overlay::Threads(_))));
    if let Some(Overlay::Threads(t)) = m.overlay_mut() {
        t.selected = 3;
    }
    assert!(matches!(m.overlay(), Some(Overlay::Threads(t)) if t.selected == 3));
    assert!(matches!(m.pop_overlay(), Some(Overlay::Threads(_))));
    assert!(matches!(m.overlay(), Some(Overlay::Help)));
    assert!(matches!(m.pop_overlay(), Some(Overlay::Help)));
    assert!(m.pop_overlay().is_none());
}

fn commit(summary: &str, short: &str) -> CommitInfo {
    CommitInfo { id: format!("{short}000"), short: short.into(), summary: summary.into() }
}

#[test]
fn an_empty_query_keeps_every_commit_in_order() {
    let commits = vec![commit("a", "1"), commit("b", "2"), commit("c", "3")];
    assert_eq!(filter_commits_text(&commits, "", &[None, None, None]), vec![0, 1, 2]);
}

#[test]
fn scored_commits_come_best_first_and_ties_keep_their_order() {
    let commits = vec![commit("a", "1"), commit("b", "2"), commit("c", "3"), commit("d", "4")];
    let scores = [Some(5), None, Some(9), Some(5)];
    assert_eq!(filter_commits_text(&commits, "x", &scores), vec![2, 0, 3]);
    assert_eq!(rank_scores(&[]), Vec::<usize>::new());
    assert_eq!(rank_scores(&[Some(-1), Some(-1), Some(0)]), vec![2, 0, 1]);
}

#[test]
fn a_commit_is_matched_against_its_summary_and_short_sha() {
    assert_eq!(commit_haystack(&commit("fix the thing", "abc1234")), "fix the thing abc1234");
}

#[test]
fn recompute_keeps_the_selection_inside_the_matches() {
    let mut p = Palette {
        kind: PaletteKind::Files,
        query: "ma".into(),
        matches: Vec::new(),
        selected: 5,
        mode_hint: "",
    };
    recompute(&mut p, &[Some(1), None, Some(3)]);
    assert_eq!(p.matches, vec![2, 0]);
    assert_eq!(p.selected, 1);
    recompute(&mut p, &[None, None, None]);
    assert!(p.matches.is_empty());
    assert_eq!(p.selected, 0);

    let mut c = Palette {
        kind: PaletteKind::Commits { commits: vec![commit("a", "1"), commit("b", "2")], scoped_path: None, truncated: false },
        query: String::new(),
        matches: Vec::new(),
        selected: 0,
        mode_hint: "summary",
    };
    recompute(&mut c, &[None, None]);
    assert_eq!(c.matches, vec![0, 1], "an empty query lists every commit");
}
