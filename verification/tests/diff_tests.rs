use diffstream::diff::{compute_hunks_with_context, whole_file_hunks};
use diffstream::model::{Hunk, LineKind};

fn kinds(h: &Hunk) -> Vec<(LineKind, String)> {
    h.lines.iter().map(|l| (l.kind, l.text.clone())).collect()
}

#[test]
fn a_changed_line_is_removed_then_added_and_shared_lines_are_kept() {
    let (hunks, added, removed) = compute_hunks_with_context("a\nb\nc\n", "a\nX\nc\nd\n", 3);
    assert_eq!((added, removed), (2, 1), "X and d added, b removed");
    assert_eq!(hunks.len(), 1);
    let h = &hunks[0];
    assert_eq!((h.old_start, h.old_len, h.new_start, h.new_len), (1, 3, 1, 4));
    assert_eq!(
        kinds(h),
        vec![
            (LineKind::Context, "a".to_string()),
            (LineKind::Removed, "b".to_string()),
            (LineKind::Added, "X".to_string()),
            (LineKind::Context, "c".to_string()),
            (LineKind::Added, "d".to_string()),
        ]
    );
    let nums: Vec<(Option<u32>, Option<u32>)> = h.lines.iter().map(|l| (l.old_lineno, l.new_lineno)).collect();
    assert_eq!(nums, vec![(Some(1), Some(1)), (Some(2), None), (None, Some(2)), (Some(3), Some(3)), (None, Some(4))]);
}

#[test]
fn equal_texts_have_no_hunks() {
    let (hunks, added, removed) = compute_hunks_with_context("x\ny\n", "x\ny\n", 3);
    assert!(hunks.is_empty());
    assert_eq!((added, removed), (0, 0));
}

#[test]
fn distant_changes_split_into_hunks_unless_the_context_joins_them() {
    let old = "1\n2\n3\n4\n5\n6\n7\n8\n9\n10\n";
    let new = "X\n2\n3\n4\n5\n6\n7\n8\n9\nY\n";
    let (compact, _, _) = compute_hunks_with_context(old, new, 1);
    assert_eq!(compact.len(), 2, "eight kept lines apart with one line of context");
    assert_eq!((compact[0].old_start, compact[0].old_len), (1, 2));
    assert_eq!((compact[1].old_start, compact[1].old_len), (9, 2));
    let (joined, _, _) = compute_hunks_with_context(old, new, 4);
    assert_eq!(joined.len(), 1, "four lines of context on each side bridge the gap");
    assert_eq!(joined[0].lines.len(), 12);
}

#[test]
fn a_moved_block_keeps_the_longest_common_run() {
    let (hunks, added, removed) = compute_hunks_with_context("a\nb\nc\nd\n", "b\nc\nd\na\n", 0);
    assert_eq!((added, removed), (1, 1), "only the moved line changes");
    assert_eq!(hunks.len(), 2);
    assert_eq!(kinds(&hunks[0]), vec![(LineKind::Removed, "a".to_string())]);
    assert_eq!(kinds(&hunks[1]), vec![(LineKind::Added, "a".to_string())]);
}

#[test]
fn a_very_large_rewrite_is_shown_as_two_blocks() {
    let old: String = (0..2100).map(|i| format!("old {i}\n")).collect();
    let new: String = (0..2100).map(|i| format!("new {i}\n")).collect();
    let (hunks, added, removed) = compute_hunks_with_context(&old, &new, 3);
    assert_eq!((added, removed), (2100, 2100));
    assert_eq!(hunks.len(), 1);
    assert_eq!(hunks[0].lines[0].kind, LineKind::Removed);
    assert_eq!(hunks[0].lines[2100].kind, LineKind::Added);
}

#[test]
fn a_whole_file_is_one_context_hunk() {
    let hs = whole_file_hunks("p\nq\n");
    assert_eq!(hs.len(), 1);
    assert_eq!((hs[0].old_start, hs[0].old_len, hs[0].new_start, hs[0].new_len), (1, 2, 1, 2));
    assert!(hs[0].lines.iter().all(|l| l.kind == LineKind::Context));
    assert!(whole_file_hunks("").is_empty());
}
