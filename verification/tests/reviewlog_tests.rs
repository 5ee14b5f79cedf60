use diffstream::model::{Changeset, DiffFile, FileStatus, Hunk, LayoutMode, Line, LineKind, Side, Stats};
use diffstream::reviewlog::{anchor_at, ensure_review, AnchorError, EnsureError, OpenReview, Opened};
use diffstream::rows::{find_key, Plan, Row};

fn file_with(old: &str, new: &str, lines: Vec<Line>) -> DiffFile {
    DiffFile {
        path: "f.rs".into(),
        previous_path: None,
        status: FileStatus::Modified,
        staged: false,
        hunks: vec![Hunk { old_start: 1, old_len: 2, new_start: 1, new_len: 2, lines }],
        stats: Stats { additions: 1, deletions: 1 },
        is_binary: false,
        old_text: if old.is_empty() { None } else { Some(old.to_string()) },
        new_text: if new.is_empty() { None } else { Some(new.to_string()) },
        diffed: true,
    }
}

fn line(kind: LineKind, old: Option<u32>, new: Option<u32>, text: &str) -> Line {
    Line { kind, old_lineno: old, new_lineno: new, text: text.into(), emphasis: None }
}

fn sample() -> Changeset {
    Changeset {
        source: "t".into(),
        files: vec![file_with(
            "alpha\nbeta\n",
            "alpha\ngamma\n",
            vec![
                line(LineKind::Context, Some(1), Some(1), "alpha"),
                line(LineKind::Removed, Some(2), None, "beta"),
                line(LineKind::Added, None, Some(2), "gamma"),
            ],
        )],
    }
}

fn plan_of(cs: &Changeset, layout: LayoutMode) -> Plan {
    Plan::build(cs, &[false], layout, &[])
}

#[test]
fn an_added_line_anchors_to_its_new_side_with_quote_and_context() {
    let cs = sample();
    let p = plan_of(&cs, LayoutMode::Stack);
    let row = find_key(&p, (0, Side::New, 2)).unwrap();
    let a = anchor_at(&cs, &p, row).expect("added line anchors");
    assert_eq!((a.side, a.line), (Side::New, 2));
    assert_eq!(a.quote, "gamma");
    assert_eq!(a.before, vec!["alpha".to_string()], "context is captured");
}

#[test]
fn a_removed_line_anchors_to_the_old_side() {
    let cs = sample();
    let p = plan_of(&cs, LayoutMode::Stack);
    let row = find_key(&p, (0, Side::Old, 2)).unwrap();
    let a = anchor_at(&cs, &p, row).expect("removed line anchors");
    assert_eq!((a.side, a.line), (Side::Old, 2));
    assert_eq!(a.quote, "beta");
}

#[test]
fn a_context_line_anchors_to_its_new_side_in_either_layout() {
    let cs = sample();
    for layout in [LayoutMode::Stack, LayoutMode::Split] {
        let p = plan_of(&cs, layout);
        let row = find_key(&p, (0, Side::New, 1)).unwrap();
        let a = anchor_at(&cs, &p, row).expect("context line anchors");
        assert_eq!((a.side, a.line), (Side::New, 1), "{layout:?}");
        assert_eq!(a.quote, "alpha");
    }
}

#[test]
fn every_chrome_row_is_not_a_line() {
    let cs = sample();
    let p = plan_of(&cs, LayoutMode::Stack);
    for row in [0, p.rows.len() - 1] {
        assert_eq!(anchor_at(&cs, &p, row).unwrap_err(), AnchorError::NotALine, "row {row} is chrome");
    }
    assert_eq!(anchor_at(&cs, &p, 999).unwrap_err(), AnchorError::NotALine);
}

#[test]
fn a_binary_note_is_not_a_line_rather_than_a_capture_failure() {
    let mut cs = sample();
    cs.files[0].is_binary = true;
    cs.files[0].hunks.clear();
    let p = plan_of(&cs, LayoutMode::Stack);
    let note = p
        .rows
        .iter()
        .position(|r| matches!(r, Row::Line { .. }))
        .expect("stack layout shows a note row for a binary");
    assert_eq!(anchor_at(&cs, &p, note).unwrap_err(), AnchorError::NotALine);
}

#[test]
fn a_row_whose_side_has_no_text_reports_no_text() {
    let cs = sample();
    let p = plan_of(&cs, LayoutMode::Stack);
    let row = find_key(&p, (0, Side::New, 2)).unwrap();

    let mut stripped = sample();
    stripped.files[0].new_text = None;
    assert_eq!(anchor_at(&stripped, &p, row).unwrap_err(), AnchorError::NoText);

    let empty = Changeset { source: "t".into(), files: Vec::new() };
    assert_eq!(anchor_at(&empty, &p, row).unwrap_err(), AnchorError::NoText);
}

#[test]
fn a_line_past_the_end_of_the_side_text_reports_no_text() {
    let cs = sample();
    let p = plan_of(&cs, LayoutMode::Stack);
    let row = find_key(&p, (0, Side::New, 2)).unwrap();
    let mut short = sample();
    short.files[0].new_text = Some("only one line\n".into());
    assert_eq!(anchor_at(&short, &p, row).unwrap_err(), AnchorError::NoText);
}

#[test]
fn the_first_comment_opens_a_review_and_a_round() {
    let cs = sample();
    let op = ensure_review(&None, &cs, "worktree", false).expect("opens");
    assert_eq!(op, Opened::Created, "no review yet: one is opened");
}

#[test]
fn a_second_comment_attaches_rather_than_reopening() {
    let cs = sample();
    let open = Some(OpenReview { target: "worktree".into(), safe_to_replace: false });
    let second = ensure_review(&open, &cs, "worktree", false).unwrap();
    assert_eq!(second, Opened::Attached, "attached, not reopened");
}

#[test]
fn a_still_loading_view_is_refused_and_writes_nothing() {
    let mut cs = sample();
    cs.files[0].diffed = false;
    let err = ensure_review(&None, &cs, "worktree", false).unwrap_err();
    assert!(matches!(err, EnsureError::StillLoading));
}

#[test]
fn a_filtered_view_is_refused_and_writes_nothing() {
    let err = ensure_review(&None, &sample(), "worktree", true).unwrap_err();
    assert!(matches!(err, EnsureError::Filtered));
}

#[test]
fn a_different_target_is_refused_while_feedback_is_pending() {
    let cs = sample();
    let open = Some(OpenReview { target: "worktree".into(), safe_to_replace: false });
    let err = ensure_review(&open, &cs, "show:HEAD~3", false).unwrap_err();
    match err {
        EnsureError::TargetMismatch { open, want } => {
            assert_eq!(open, "worktree");
            assert_eq!(want, "show:HEAD~3");
            let m = EnsureError::TargetMismatch { open, want }.message();
            assert!(m.contains("worktree") && m.contains("show:HEAD~3"), "{m}");
        },
        other => panic!("expected a target mismatch, got {other:?}"),
    }
}

#[test]
fn a_different_target_is_allowed_once_the_feedback_is_delivered() {
    let cs = sample();
    let open = Some(OpenReview { target: "worktree".into(), safe_to_replace: true });
    let op = ensure_review(&open, &cs, "show:HEAD~3", false).expect("replaces a spent review");
    assert_eq!(op, Opened::Created);
}

#[test]
fn every_refusal_has_its_own_message() {
    let msgs = [
        EnsureError::StillLoading.message(),
        EnsureError::Filtered.message(),
        EnsureError::TargetMismatch { open: "a".into(), want: "b".into() }.message(),
        EnsureError::Io(std::io::Error::other("disk on fire")).message(),
    ];
    for m in &msgs {
        assert!(!m.is_empty());
    }
    let uniq: std::collections::HashSet<&String> = msgs.iter().collect();
    assert_eq!(uniq.len(), msgs.len(), "each refusal reads differently");
    assert!(msgs[3].contains("disk on fire"), "io errors carry their cause");
}

#[test]
fn both_messages_are_distinct_and_non_empty() {
    assert_ne!(AnchorError::NotALine.message(), AnchorError::NoText.message());
    assert!(!AnchorError::NotALine.message().is_empty());
}

#[test]
fn an_io_failure_becomes_a_message_rather_than_a_panic() {
    let e: EnsureError = std::io::Error::other("nope").into();
    assert!(e.message().contains("nope"));
    assert!(e.message().starts_with("could not write the review log: "));
}

#[test]
fn the_filter_refusal_comes_before_the_loading_one() {
    let mut cs = sample();
    cs.files[0].diffed = false;
    let err = ensure_review(&None, &cs, "worktree", true).unwrap_err();
    assert!(matches!(err, EnsureError::Filtered));
}

#[test]
fn an_anchor_quotes_up_to_three_lines_either_side() {
    let text = "l1\nl2\nl3\nl4\nl5\nl6\nl7\nl8\n";
    let cs = Changeset {
        source: "t".into(),
        files: vec![file_with("", text, vec![line(LineKind::Added, None, Some(5), "l5")])],
    };
    let p = plan_of(&cs, LayoutMode::Stack);
    let row = find_key(&p, (0, Side::New, 5)).unwrap();
    let a = anchor_at(&cs, &p, row).unwrap();
    assert_eq!(a.path, "f.rs");
    assert_eq!(a.quote, "l5");
    assert_eq!(a.before, vec!["l2".to_string(), "l3".into(), "l4".into()]);
    assert_eq!(a.after, vec!["l6".to_string(), "l7".into(), "l8".into()]);
}
