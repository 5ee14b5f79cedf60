use diffstream::model::{Changeset, DiffFile, FileStatus, Hunk, LayoutMode, Line, LineKind, Side, Stats};
use diffstream::rows::{
    capture_cursor, cursor_key, file_at, find_key, restore_cursor, row_keys, CursorAnchor, Key, Plan, Row,
    SplitCell,
};

fn nofold() -> Vec<String> {
    Vec::new()
}

fn line(kind: LineKind, old: Option<u32>, new: Option<u32>, text: &str) -> Line {
    Line { kind, old_lineno: old, new_lineno: new, text: text.into(), emphasis: None }
}

/// One file with a hunk: 1 context, 2 removed, 1 added.
fn fixture() -> Changeset {
    let hunk = Hunk {
        old_start: 1,
        old_len: 3,
        new_start: 1,
        new_len: 2,
        lines: vec![
            line(LineKind::Context, Some(1), Some(1), "ctx"),
            line(LineKind::Removed, Some(2), None, "a"),
            line(LineKind::Removed, Some(3), None, "b"),
            line(LineKind::Added, None, Some(2), "c"),
        ],
    };
    let f = DiffFile {
        path: "f.rs".into(),
        previous_path: None,
        status: FileStatus::Modified,
        staged: false,
        hunks: vec![hunk],
        stats: Stats { additions: 1, deletions: 2 },
        is_binary: false,
        old_text: None,
        new_text: None,
        diffed: true,
    };
    Changeset { source: "t".into(), files: vec![f] }
}

fn kinds(rows: &[Row]) -> Vec<&'static str> {
    rows.iter()
        .map(|r| match r {
            Row::FileHeader(_) => "fh",
            Row::Collapsed(_) => "col",
            Row::CollapsedDir { .. } => "cdir",
            Row::Pending => "pend",
            Row::Banner(_) => "ban",
            Row::HunkHeader(_) => "hh",
            Row::Line { .. } => "line",
            Row::Pair(..) => "pair",
            Row::Spacer => "sp",
        })
        .collect()
}

#[test]
fn stack_sequence_interleaves_lines() {
    let cs = fixture();
    let p = Plan::build(&cs, &[false], LayoutMode::Stack, &nofold());
    assert_eq!(kinds(&p.rows), ["fh", "line", "line", "line", "line", "sp"]);
    assert_eq!(p.file_starts, vec![0]);
    assert_eq!(p.hunk_starts, vec![1]);
}

#[test]
fn split_sequence_pairs_removed_with_added() {
    let cs = fixture();
    let p = Plan::build(&cs, &[false], LayoutMode::Split, &nofold());
    assert_eq!(kinds(&p.rows), ["fh", "pair", "pair", "pair", "sp"]);
    assert_eq!(p.hunk_starts, vec![1]);
}

#[test]
fn change_starts_are_consistent_per_layout() {
    let cs = fixture();
    let stack = Plan::build(&cs, &[false], LayoutMode::Stack, &nofold());
    let first_change = stack.rows.iter().position(|r| matches!(r, Row::Line { kind: LineKind::Removed, .. }));
    assert_eq!(first_change, Some(2));
    let split = Plan::build(&cs, &[false], LayoutMode::Split, &nofold());
    let first_pair_change =
        split.rows.iter().position(|r| matches!(r, Row::Pair(Some(c), _) if c.kind != LineKind::Context));
    assert_eq!(first_pair_change, Some(2));
}

#[test]
fn first_hunk_has_no_gap_marker_but_later_hunks_do() {
    let hunk = |new_start: u32, new_len: u32| Hunk {
        old_start: new_start,
        old_len: new_len,
        new_start,
        new_len,
        lines: (0..new_len).map(|i| line(LineKind::Added, None, Some(new_start + i), "x")).collect(),
    };
    let f = DiffFile {
        path: "f.rs".into(),
        previous_path: None,
        status: FileStatus::Modified,
        staged: false,
        hunks: vec![hunk(10, 3), hunk(120, 1)],
        stats: Stats::default(),
        is_binary: false,
        old_text: None,
        new_text: None,
        diffed: true,
    };
    let cs = Changeset { source: "t".into(), files: vec![f] };
    let p = Plan::build(&cs, &[false], LayoutMode::Stack, &nofold());
    assert_eq!(kinds(&p.rows), ["fh", "line", "line", "line", "hh", "line", "sp"]);
    let markers: Vec<u32> = p
        .rows
        .iter()
        .filter_map(|r| match r {
            Row::HunkHeader(n) => Some(*n),
            _ => None,
        })
        .collect();
    assert_eq!(markers, vec![12]);
}

/// Two files in `src/`, one at root.
fn two_dir_fixture() -> Changeset {
    let mk = |path: &str| DiffFile {
        path: path.into(),
        previous_path: None,
        status: FileStatus::Modified,
        staged: false,
        hunks: vec![Hunk {
            old_start: 1,
            old_len: 1,
            new_start: 1,
            new_len: 1,
            lines: vec![line(LineKind::Added, None, Some(1), "x")],
        }],
        stats: Stats { additions: 1, deletions: 0 },
        is_binary: false,
        old_text: None,
        new_text: None,
        diffed: true,
    };
    Changeset { source: "t".into(), files: vec![mk("a.rs"), mk("src/b.rs"), mk("src/c.rs")] }
}

#[test]
fn folded_directory_yields_one_placeholder_and_no_file_rows() {
    let cs = two_dir_fixture();
    let collapsed = vec!["src".to_string()];
    let p = Plan::build(&cs, &[false, false, false], LayoutMode::Stack, &collapsed);
    let headers: Vec<usize> = p
        .rows
        .iter()
        .filter_map(|r| match r {
            Row::FileHeader(i) => Some(*i),
            _ => None,
        })
        .collect();
    assert_eq!(headers, vec![0], "only the root file has a header; src is folded");
    let cdirs = p.rows.iter().filter(|r| matches!(r, Row::CollapsedDir { .. })).count();
    assert_eq!(cdirs, 1, "one placeholder for the folded directory");
    assert_eq!(p.visible_files, vec![0], "only the root file is visible");
    assert_eq!(p.visible_ordinal(0), Some(0));
    assert_eq!(p.visible_ordinal(1), None, "folded file has no visible ordinal");
    assert!(p.collapsed_row("src").is_some(), "the placeholder row is locatable");
}

#[test]
fn banner_rows_precede_files_and_offset_indices() {
    let cs = fixture();
    let banner = vec!["abc123 · me · 2026-06-30".to_string(), String::new(), "the message".to_string()];
    let p = Plan::build_with_banner(&cs, &[false], LayoutMode::Stack, &nofold(), &banner);
    assert_eq!(&kinds(&p.rows)[..4], ["ban", "ban", "ban", "sp"]);
    assert_eq!(p.file_starts, vec![4], "the file header is offset past the banner+spacer");
    assert_eq!(p.hunk_starts, vec![5], "hunk index carries the banner offset");
    let p0 = Plan::build(&cs, &[false], LayoutMode::Stack, &nofold());
    assert_eq!(p0.file_starts, vec![0]);
}

#[test]
fn viewed_file_collapses_to_one_placeholder() {
    let cs = fixture();
    let p = Plan::build(&cs, &[true], LayoutMode::Stack, &nofold());
    assert_eq!(kinds(&p.rows), ["fh", "col", "sp"]);
}

#[test]
fn binary_file_body_differs_by_layout() {
    let mut cs = fixture();
    cs.files[0].is_binary = true;
    cs.files[0].hunks.clear();
    let stack = Plan::build(&cs, &[false], LayoutMode::Stack, &nofold());
    assert_eq!(kinds(&stack.rows), ["fh", "line", "sp"]);
    let split = Plan::build(&cs, &[false], LayoutMode::Split, &nofold());
    assert_eq!(kinds(&split.rows), ["fh", "sp"]);
}

/// Every key carried by any row of a plan, in row order.
fn all_keys(p: &Plan) -> Vec<Key> {
    p.rows
        .iter()
        .flat_map(|r| {
            let (o, n) = row_keys(r);
            [o, n]
        })
        .flatten()
        .collect()
}

#[test]
fn a_unified_context_row_carries_both_sides() {
    let row = Row::Line {
        file: 3,
        kind: LineKind::Context,
        old: Some(5),
        new: Some(7),
        text: "ctx".into(),
        emphasis: None,
    };
    assert_eq!(row_keys(&row), (Some((3, Side::Old, 5)), Some((3, Side::New, 7))));
}

#[test]
fn one_sided_unified_rows_carry_one_key_and_binary_notes_carry_none() {
    let mk = |old, new| Row::Line { file: 0, kind: LineKind::Context, old, new, text: String::new(), emphasis: None };
    assert_eq!(row_keys(&mk(Some(2), None)), (Some((0, Side::Old, 2)), None));
    assert_eq!(row_keys(&mk(None, Some(2))), (None, Some((0, Side::New, 2))));
    assert_eq!(row_keys(&mk(None, None)), (None, None));
}

#[test]
fn split_cells_key_by_their_own_recorded_side() {
    let cell = |side_new, lineno| SplitCell {
        file: 1,
        side_new,
        lineno,
        kind: LineKind::Context,
        text: String::new(),
        emphasis: None,
    };
    let both = Row::Pair(Some(cell(false, Some(5))), Some(cell(true, Some(7))));
    assert_eq!(row_keys(&both), (Some((1, Side::Old, 5)), Some((1, Side::New, 7))));
    assert_eq!(row_keys(&Row::Pair(Some(cell(false, Some(9))), None)), (Some((1, Side::Old, 9)), None));
    assert_eq!(row_keys(&Row::Pair(None, Some(cell(true, Some(9))))), (None, Some((1, Side::New, 9))));
    assert_eq!(row_keys(&Row::Pair(Some(cell(false, None)), None)), (None, None));
}

#[test]
fn every_chrome_row_carries_no_key() {
    let chrome = [
        Row::FileHeader(0),
        Row::Collapsed(3),
        Row::CollapsedDir { dir: "src".into(), n: 2, reviewed: 1 },
        Row::Pending,
        Row::Banner("msg".into()),
        Row::HunkHeader(12),
        Row::Spacer,
    ];
    for row in &chrome {
        assert_eq!(row_keys(row), (None, None), "chrome carries no identity");
    }
}

#[test]
fn a_context_row_is_found_from_either_of_its_keys() {
    let cs = fixture();
    let p = Plan::build(&cs, &[false], LayoutMode::Stack, &nofold());
    let by_old = find_key(&p, (0, Side::Old, 1));
    let by_new = find_key(&p, (0, Side::New, 1));
    assert_eq!(by_old, by_new, "both keys resolve to the one context row");
    assert!(by_old.is_some());
}

#[test]
fn a_removed_and_an_added_line_at_the_same_number_are_distinct_rows() {
    let cs = fixture();
    let p = Plan::build(&cs, &[false], LayoutMode::Stack, &nofold());
    let rem = find_key(&p, (0, Side::Old, 2)).expect("removed line 2");
    let add = find_key(&p, (0, Side::New, 2)).expect("added line 2");
    assert_ne!(rem, add, "same number, different sides, different rows");
}

#[test]
fn keys_are_unique_within_a_plan_in_both_layouts() {
    let cs = fixture();
    for layout in [LayoutMode::Stack, LayoutMode::Split] {
        let p = Plan::build(&cs, &[false], layout, &nofold());
        let keys = all_keys(&p);
        let uniq: std::collections::HashSet<Key> = keys.iter().copied().collect();
        assert_eq!(keys.len(), uniq.len(), "duplicate key in {layout:?} plan");
        assert!(!keys.is_empty(), "the fixture does carry keys");
    }
}

#[test]
fn cursor_key_prefers_the_new_side_and_falls_back_to_old() {
    let cs = fixture();
    let p = Plan::build(&cs, &[false], LayoutMode::Stack, &nofold());
    assert_eq!(cursor_key(&p, 1), Some((0, Side::New, 1)));
    assert_eq!(cursor_key(&p, 2), Some((0, Side::Old, 2)));
    assert_eq!(cursor_key(&p, 0), None);
    assert_eq!(cursor_key(&p, 999), None);
}

/// Rebuild `cs` under `layout`/`collapsed` and carry the cursor across.
fn rebuild(
    cs: &Changeset,
    from: &Plan,
    row: usize,
    viewed: &[bool],
    layout: LayoutMode,
    collapsed: &[String],
) -> (Plan, usize) {
    let anchor = capture_cursor(from, row);
    let plan = Plan::build(cs, viewed, layout, collapsed);
    let row = restore_cursor(&plan, &anchor, cs);
    (plan, row)
}

#[test]
fn a_layout_toggle_keeps_the_cursor_on_the_same_change_both_ways() {
    let cs = fixture();
    let stack = Plan::build(&cs, &[false], LayoutMode::Stack, &nofold());
    let ctx = find_key(&stack, (0, Side::New, 1)).unwrap();
    let (split, moved) = rebuild(&cs, &stack, ctx, &[false], LayoutMode::Split, &nofold());
    assert!(matches!(&split.rows[moved], Row::Pair(..)), "landed on a split row");
    assert_eq!(row_keys(&split.rows[moved]).1, Some((0, Side::New, 1)), "the same context line");
    let (_, back) = rebuild(&cs, &split, moved, &[false], LayoutMode::Stack, &nofold());
    assert_eq!(back, ctx, "round-tripped to the same row");
}

#[test]
fn a_split_context_rows_old_cell_survives_the_toggle_to_unified() {
    let cs = fixture();
    let split = Plan::build(&cs, &[false], LayoutMode::Split, &nofold());
    let ctx = find_key(&split, (0, Side::Old, 1)).unwrap();
    let (stack, moved) = rebuild(&cs, &split, ctx, &[false], LayoutMode::Stack, &nofold());
    let (old, _) = row_keys(&stack.rows[moved]);
    assert_eq!(old, Some((0, Side::Old, 1)), "found from the old side");
}

#[test]
fn a_placeholder_stays_with_its_own_file_when_another_file_grows() {
    let mut cs = two_dir_fixture();
    cs.files[0].hunks[0].lines = (1..=20).map(|i| line(LineKind::Added, None, Some(i), "x")).collect();
    for f in &mut cs.files {
        f.diffed = false;
    }
    let viewed = [false, false, false];
    let before = Plan::build(&cs, &viewed, LayoutMode::Stack, &nofold());
    let last_start = *before.file_starts.last().unwrap();
    let pending = last_start + 1;
    assert!(matches!(before.rows[pending], Row::Pending));

    cs.files[0].diffed = true;
    let (after, moved) = rebuild(&cs, &before, pending, &viewed, LayoutMode::Stack, &nofold());
    assert!(after.rows.len() > before.rows.len(), "the plan did grow");
    assert!(matches!(after.rows[moved], Row::Pending), "still on a Pending placeholder, not adrift in the grown file");
    assert_eq!(file_at(&after.file_starts, moved), 2, "and it is still the third file's placeholder");
}

#[test]
fn folding_the_cursors_directory_lands_on_that_directorys_placeholder() {
    let cs = two_dir_fixture();
    let viewed = [false, false, false];
    let before = Plan::build(&cs, &viewed, LayoutMode::Stack, &nofold());
    let row = find_key(&before, (1, Side::New, 1)).unwrap();
    let collapsed = vec!["src".to_string()];
    let (after, moved) = rebuild(&cs, &before, row, &viewed, LayoutMode::Stack, &collapsed);
    assert_eq!(
        after.collapsed_row("src"),
        Some(moved),
        "landed on the placeholder that replaced it, not an unrelated file"
    );
}

#[test]
fn a_cursor_on_a_folded_placeholder_is_not_mistaken_for_the_file_before_it() {
    let mut cs = two_dir_fixture();
    cs.files[0].diffed = false;
    let viewed = [false, false, false];
    let collapsed = vec!["src".to_string()];
    let before = Plan::build(&cs, &viewed, LayoutMode::Stack, &collapsed);
    let ph = before.collapsed_row("src").unwrap();
    assert_eq!(
        capture_cursor(&before, ph),
        CursorAnchor::Dir("src".into()),
        "classified as a directory, not as the preceding file"
    );
    assert_eq!(capture_cursor(&before, ph + 1), CursorAnchor::Dir("src".into()));

    cs.files[0].diffed = true;
    let (after, moved) = rebuild(&cs, &before, ph, &viewed, LayoutMode::Stack, &collapsed);
    assert_eq!(after.collapsed_row("src"), Some(moved), "still on src's placeholder");
}

#[test]
fn a_banner_row_keeps_its_index_and_a_body_row_is_classified_by_content() {
    let cs = fixture();
    let banner = ["abc123 · me".to_string(), "the message".to_string()];
    let p = Plan::build_with_banner(&cs, &[false], LayoutMode::Stack, &nofold(), &banner);
    assert_eq!(capture_cursor(&p, 1), CursorAnchor::Above(1));
    let header = p.file_starts[0];
    assert_eq!(capture_cursor(&p, header), CursorAnchor::InFile { file: 0, offset: 0 });
    assert!(matches!(capture_cursor(&p, header + 1), CursorAnchor::Line(_)));
}

#[test]
fn capture_then_restore_against_the_same_plan_holds_every_row() {
    let cs = two_dir_fixture();
    let viewed = [false, true, false];
    let collapsed = vec!["src".to_string()];
    let banner = ["abc123 · me".to_string(), "the message".to_string()];
    for fold in [&nofold(), &collapsed] {
        for layout in [LayoutMode::Stack, LayoutMode::Split] {
            for b in [&[][..], &banner[..]] {
                let p = Plan::build_with_banner(&cs, &viewed, layout, fold, b);
                for row in 0..p.rows.len() {
                    let back = restore_cursor(&p, &capture_cursor(&p, row), &cs);
                    let trailing_dir_spacer = matches!(p.rows.get(row), Some(Row::Spacer))
                        && row > 0
                        && matches!(p.rows.get(row - 1), Some(Row::CollapsedDir { .. }));
                    if trailing_dir_spacer {
                        assert_eq!(back, row - 1, "normalises onto its placeholder");
                    } else {
                        assert_eq!(back, row, "row {row} of a {layout:?} plan round-tripped");
                    }
                    let again = restore_cursor(&p, &capture_cursor(&p, back), &cs);
                    assert_eq!(again, back, "restore is stable");
                }
            }
        }
    }
}

#[test]
fn a_keyless_row_does_not_bleed_into_the_next_file_when_its_own_file_shrinks() {
    let mut cs = two_dir_fixture();
    cs.files.truncate(2);
    for f in &mut cs.files {
        f.hunks[0].lines = (1..=5).map(|i| line(LineKind::Added, None, Some(i), "x")).collect();
    }
    let before = Plan::build(&cs, &[false, false], LayoutMode::Stack, &nofold());
    let sp = before.rows.iter().position(|r| matches!(r, Row::Spacer)).expect("the first file ends with a spacer");
    assert_eq!(capture_cursor(&before, sp), CursorAnchor::InFile { file: 0, offset: sp });

    let after = Plan::build(&cs, &[true, false], LayoutMode::Stack, &nofold());
    let moved = restore_cursor(&after, &capture_cursor(&before, sp), &cs);
    assert!(matches!(after.rows[moved], Row::Spacer), "stayed on a spacer, not adrift in the next file");
    assert_eq!(file_at(&after.file_starts, moved), 0, "and still inside its own file's region");
}

#[test]
fn restore_is_always_in_range_even_for_an_empty_plan() {
    let cs = fixture();
    let p = Plan::build(&cs, &[false], LayoutMode::Stack, &nofold());
    let empty = Changeset { source: "t".into(), files: Vec::new() };
    let blank = Plan::build(&empty, &[], LayoutMode::Stack, &nofold());
    for row in 0..p.rows.len() {
        let r = restore_cursor(&blank, &capture_cursor(&p, row), &empty);
        assert_eq!(r, 0, "a plan with no rows leaves nowhere else to be");
    }
}

#[test]
fn file_at_locates_the_region_containing_a_row() {
    let starts = vec![0, 5, 12];
    assert_eq!(file_at(&starts, 0), 0, "exact match on a start");
    assert_eq!(file_at(&starts, 5), 1, "exact match on a later start");
    assert_eq!(file_at(&starts, 3), 0, "between starts → previous region");
    assert_eq!(file_at(&starts, 20), 2, "past the last start → last region");
    let starts2 = vec![3, 8];
    assert_eq!(file_at(&starts2, 1), 0, "before the first start → 0");
}

#[test]
fn collapsed_and_pending_chrome_match_across_layouts() {
    let mut cs = fixture();
    cs.files[0].diffed = false;
    for layout in [LayoutMode::Stack, LayoutMode::Split] {
        let p = Plan::build(&cs, &[false], layout, &nofold());
        assert_eq!(kinds(&p.rows), ["fh", "pend", "sp"], "undiffed chrome is layout-independent");
    }
}

#[test]
fn a_folded_directory_counts_its_files_and_reviewed_ones() {
    let cs = two_dir_fixture();
    let collapsed = vec!["src".to_string()];
    let p = Plan::build(&cs, &[false, true, false], LayoutMode::Split, &collapsed);
    let dir = p.rows.iter().find_map(|r| match r {
        Row::CollapsedDir { dir, n, reviewed } => Some((dir.clone(), *n, *reviewed)),
        _ => None,
    });
    assert_eq!(dir, Some(("src".to_string(), 2, 1)));
    assert_eq!(p.file_starts.len(), p.visible_files.len());
}

#[test]
fn content_width_is_the_widest_line_plus_the_gutter() {
    let cs = fixture();
    let p = Plan::build(&cs, &[false], LayoutMode::Stack, &nofold());
    // The widest text is "ctx" (3 columns) behind a 6-column gutter.
    assert_eq!(p.content_w, 9);
    assert_eq!(p.layout, LayoutMode::Stack);
}
