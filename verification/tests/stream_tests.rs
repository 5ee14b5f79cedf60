use diffstream::model::LayoutMode;
use diffstream::rows::{Plan, Row};
use diffstream::stream::{
    anchor_selected, bottom, clamp, current_file, cursor_file, h_scroll_by, half_page, jump_to_collapsed,
    jump_to_file, max_h_scroll, max_scroll, max_scroll_rows, move_cursor_by, next_hunk, page, prev_hunk,
    reanchored, scroll_by, scroll_into_view, scroll_to, scroll_view_by, toggle_wrap, top, usable,
};
use diffstream::view::ViewState;

fn plan_with(rows: usize, file_starts: Vec<usize>) -> Plan {
    let visible_files = (0..file_starts.len()).collect();
    Plan {
        rows: (0..rows).map(|_| Row::Spacer).collect(),
        file_starts,
        visible_files,
        hunk_starts: Vec::new(),
        content_w: 0,
        layout: LayoutMode::Stack,
    }
}

fn at(scroll: usize, cursor_row: usize) -> ViewState {
    ViewState { scroll, cursor_row, ..ViewState::default() }
}

#[test]
fn reanchored_keeps_banner_region_and_preserves_in_file_offset() {
    assert_eq!(reanchored(2, 5, 5), 2);
    assert_eq!(reanchored(0, 5, 9), 0);
    assert_eq!(reanchored(4, 5, 9), 4, "still above the header → unchanged");
    assert_eq!(reanchored(5, 5, 9), 9, "header → new header");
    assert_eq!(reanchored(7, 5, 9), 11, "offset 2 past the header preserved");
}

#[test]
fn scroll_by_clamps_to_the_plan() {
    let plan = plan_with(20, vec![0]);
    let mut st = ViewState::default();
    scroll_by(&mut st, &plan, 5, 1000);
    assert_eq!(st.scroll, 15, "clamped to max_scroll = rows - viewport");
    assert_eq!(max_scroll(&plan, 5), 15);
    scroll_by(&mut st, &plan, 5, -1000);
    assert_eq!(st.scroll, 0, "clamped at the top");
}

#[test]
fn jump_to_file_lands_on_the_file_start() {
    let plan = plan_with(20, vec![0, 8, 14]);
    let mut st = ViewState::default();
    jump_to_file(&mut st, &plan, 5, 1);
    assert_eq!(st.scroll, 8, "viewport top sits on file 1's header row");
    jump_to_file(&mut st, &plan, 5, 2);
    assert_eq!(st.scroll, 14);
}

#[test]
fn jump_to_file_is_a_noop_for_an_unknown_file() {
    let plan = plan_with(20, vec![0, 8]);
    let mut st = at(5, 0);
    jump_to_file(&mut st, &plan, 5, 99);
    assert_eq!(st.scroll, 5, "unknown file index leaves scroll put");
}

#[test]
fn usable_reserves_the_sticky_row_and_never_over_estimates() {
    let with_files = plan_with(20, vec![0]);
    let no_files = plan_with(20, Vec::new());
    assert_eq!(usable(&with_files, 10), 9, "reserve the pinnable header row");
    assert_eq!(usable(&no_files, 10), 10, "no file header, nothing to pin");
    assert_eq!(usable(&with_files, 1), 0, "no floor");
    assert_eq!(usable(&with_files, 0), 0);
}

#[test]
fn motion_inside_the_viewport_does_not_scroll() {
    let plan = plan_with(20, vec![0]);
    let mut st = ViewState::default();
    move_cursor_by(&mut st, &plan, 9, 5);
    assert_eq!(st.cursor_row, 5);
    assert_eq!(st.scroll, 0, "the row was already on screen");
}

#[test]
fn motion_past_the_edge_scrolls_exactly_one_row() {
    let plan = plan_with(20, vec![0]);
    let mut st = at(0, 8);
    move_cursor_by(&mut st, &plan, 9, 1);
    assert_eq!(st.cursor_row, 9);
    assert_eq!(st.scroll, 1, "scrolled just enough, not re-centred");
}

#[test]
fn motion_clamps_at_both_ends() {
    let plan = plan_with(20, vec![0]);
    let mut st = ViewState::default();
    move_cursor_by(&mut st, &plan, 9, -100);
    assert_eq!((st.cursor_row, st.scroll), (0, 0), "clamped at the top");
    move_cursor_by(&mut st, &plan, 9, 1000);
    assert_eq!(st.cursor_row, 19, "clamped on the last row");
    assert_eq!(st.scroll, max_scroll(&plan, 9), "which is reachable");
    assert!(st.cursor_row < st.scroll + 9, "and drawn");
}

#[test]
fn nothing_drawable_leaves_the_viewport_alone() {
    let plan = plan_with(20, vec![0]);
    let mut st = at(4, 4);
    move_cursor_by(&mut st, &plan, 0, 5);
    assert_eq!(st.cursor_row, 9, "the cursor still moves");
    assert_eq!(st.scroll, 4, "the viewport is left alone");
}

#[test]
fn a_scroll_gesture_keeps_the_cursors_screen_row_at_the_bottom() {
    let plan = plan_with(30, vec![0]);
    let mut st = at(18, 25);
    let screen_row = st.cursor_row - st.scroll;
    scroll_view_by(&mut st, &plan, 10, 3);
    assert_eq!(st.scroll, 20, "clamped at max_scroll, so only 2 applied");
    assert_eq!(st.cursor_row, 27, "the cursor moved by 2, not the requested 3");
    assert_eq!(st.cursor_row - st.scroll, screen_row, "same row on screen");
}

#[test]
fn a_scroll_gesture_keeps_the_cursors_screen_row_at_the_top() {
    let plan = plan_with(30, vec![0]);
    let mut st = at(0, 3);
    scroll_view_by(&mut st, &plan, 10, -5);
    assert_eq!((st.scroll, st.cursor_row), (0, 3), "nothing applied, nothing moved");
}

#[test]
fn next_hunk_is_relative_to_the_cursor_not_the_viewport() {
    let mut plan = plan_with(40, vec![0]);
    plan.hunk_starts = vec![5, 15, 25];
    let mut st = at(0, 20);
    next_hunk(&mut st, &plan, 9);
    assert_eq!(st.cursor_row, 25, "the next hunk *after the cursor*");
}

#[test]
fn jump_to_collapsed_places_the_cursor_on_the_placeholder() {
    let mut plan = plan_with(20, vec![0, 8]);
    plan.rows[5] = Row::CollapsedDir { dir: "src".into(), n: 2, reviewed: 0 };
    let mut st = ViewState::default();
    jump_to_collapsed(&mut st, &plan, 9, "src");
    assert_eq!(st.cursor_row, 5, "the cursor lands on the placeholder");
    assert_eq!(st.scroll, 5, "and the viewport top-aligns on it");
    assert_eq!(st.selected_dir, None, "and it does not clear a placeholder selection via anchor_selected");
}

#[test]
fn a_jump_with_no_target_moves_neither_viewport_nor_cursor() {
    let plan = plan_with(20, vec![0, 8]);
    let mut st = at(5, 6);
    jump_to_file(&mut st, &plan, 9, 99);
    jump_to_collapsed(&mut st, &plan, 9, "nope");
    assert_eq!((st.scroll, st.cursor_row), (5, 6), "a half-move would be worse");
}

#[test]
fn clamp_pulls_a_stale_cursor_back_into_range_and_into_view() {
    let plan = plan_with(20, vec![0]);
    let mut st = at(0, 500);
    clamp(&mut st, &plan, 9, 80);
    assert_eq!(st.cursor_row, 19, "clamped into the plan");
    assert!((st.scroll..st.scroll + 9).contains(&st.cursor_row), "and made visible");
}

/// A plan of `len` blank rows, with a file header iff it has any rows.
fn grid_plan(len: usize) -> Plan {
    plan_with(len, if len == 0 { Vec::new() } else { vec![0] })
}

#[test]
fn clamp_is_idempotent_across_the_whole_small_grid() {
    for len in 0..8usize {
        for usable in 0..6usize {
            for scroll in 0..10usize {
                for cursor in 0..10usize {
                    let plan = grid_plan(len);
                    let mut once = at(scroll, cursor);
                    clamp(&mut once, &plan, usable, 80);
                    let mut twice = at(once.scroll, once.cursor_row);
                    twice.h_scroll = once.h_scroll;
                    clamp(&mut twice, &plan, usable, 80);
                    assert_eq!(
                        (once.scroll, once.cursor_row),
                        (twice.scroll, twice.cursor_row),
                        "not idempotent: len={len} usable={usable} in=({scroll},{cursor})"
                    );
                }
            }
        }
    }
}

#[test]
fn clamp_always_leaves_the_cursor_on_screen() {
    for len in 1..8usize {
        for usable in 1..6usize {
            for scroll in 0..10usize {
                for cursor in 0..10usize {
                    let plan = grid_plan(len);
                    let mut st = at(scroll, cursor);
                    clamp(&mut st, &plan, usable, 80);
                    assert!(
                        st.cursor_row >= st.scroll && st.cursor_row < st.scroll + usable,
                        "cursor off screen: len={len} usable={usable} in=({scroll},{cursor})"
                    );
                }
            }
        }
    }
}

#[test]
fn cursor_file_reads_the_cursor_while_current_file_reads_the_viewport() {
    let plan = plan_with(20, vec![0, 8, 14]);
    let st = at(0, 9);
    assert_eq!(current_file(&st, &plan), 0, "viewport top is in file 0");
    assert_eq!(cursor_file(&st, &plan), 1, "cursor is in file 1");
}

#[test]
fn cursor_file_maps_through_visible_files_when_something_is_folded() {
    let mut plan = plan_with(20, vec![0, 8]);
    plan.visible_files = vec![0, 5];
    let st = at(0, 9);
    assert_eq!(cursor_file(&st, &plan), 5, "ordinal 1 maps to file 5");
}

#[test]
fn cursor_file_falls_back_to_zero_with_no_visible_file() {
    let plan = plan_with(4, Vec::new());
    let st = at(0, 2);
    assert_eq!(cursor_file(&st, &plan), 0);
}

#[test]
fn prev_hunk_steps_back_and_clamps_at_the_top() {
    let mut plan = plan_with(40, vec![0]);
    plan.hunk_starts = vec![5, 15, 25];
    let mut st = at(0, 30);
    prev_hunk(&mut st, &plan, 10);
    assert_eq!(st.cursor_row, 25, "lands on the nearest earlier hunk start");
    assert_eq!(st.scroll, 25, "and top-aligns the viewport on it");
    prev_hunk(&mut st, &plan, 10);
    assert_eq!(st.cursor_row, 15, "steps back another hunk");
    st.cursor_row = 3;
    st.scroll = 3;
    prev_hunk(&mut st, &plan, 10);
    assert_eq!(st.cursor_row, 3, "no earlier hunk → unchanged");
}

#[test]
fn max_scroll_rows_is_rows_minus_viewport_floored_at_zero() {
    assert_eq!(max_scroll_rows(20, 5), 15);
    assert_eq!(max_scroll_rows(3, 5), 0);
    assert_eq!(max_scroll_rows(5, 5), 0);
}

#[test]
fn max_h_scroll_is_content_minus_viewport_and_zero_when_wrapping_fits() {
    let mut plan = plan_with(5, vec![0]);
    plan.content_w = 100;
    assert_eq!(max_h_scroll(&plan, 80), 20);
    assert_eq!(max_h_scroll(&plan, 120), 0);
}

#[test]
fn h_scroll_clamps_to_the_widest_row_and_wrap_toggles() {
    let mut plan = plan_with(5, vec![0]);
    plan.content_w = 100;
    let mut st = ViewState::default();
    h_scroll_by(&mut st, &plan, 80, 50);
    assert_eq!(st.h_scroll, 20);
    h_scroll_by(&mut st, &plan, 80, -50);
    assert_eq!(st.h_scroll, 0);
    toggle_wrap(&mut st);
    assert!(st.wrap);
    toggle_wrap(&mut st);
    assert!(!st.wrap);
}

#[test]
fn paging_moves_the_cursor_by_a_page_and_a_half_page() {
    let plan = plan_with(100, vec![0]);
    let mut st = ViewState::default();
    page(&mut st, &plan, 10, 1);
    let after_page = st.cursor_row;
    assert!(after_page > 0, "a page forward moves down");
    half_page(&mut st, &plan, 10, 1);
    assert!(st.cursor_row > after_page, "a half page moves further");
    top(&mut st, &plan);
    assert_eq!((st.scroll, st.cursor_row), (0, 0));
    bottom(&mut st, &plan, 10);
    assert_eq!(st.cursor_row, 99);
    assert_eq!(st.scroll, 90);
}

#[test]
fn scroll_to_top_aligns_and_into_view_follows_the_cursor() {
    let plan = plan_with(50, vec![0]);
    let mut st = ViewState::default();
    scroll_to(&mut st, &plan, 10, 12);
    assert_eq!(st.scroll, 12);
    scroll_to(&mut st, &plan, 10, 48);
    assert_eq!(st.scroll, 40, "as far as the last full page allows");
    let mut st = at(0, 30);
    scroll_into_view(&mut st, &plan, 10);
    assert_eq!(st.scroll, 21, "the minimum move that shows the cursor");
}

#[test]
fn anchor_selected_follows_the_cursor_into_its_file() {
    let plan = plan_with(20, vec![0, 8, 14]);
    let mut st = at(0, 15);
    anchor_selected(&mut st, &plan);
    assert_eq!(st.selected, 2);
    assert_eq!(st.selected_dir, None);
}

#[test]
fn several_pages_at_once_move_as_far_as_that_many_single_pages() {
    let plan = plan_with(100, vec![0]);
    let mut twice = ViewState::default();
    page(&mut twice, &plan, 10, 2);
    assert_eq!(twice.cursor_row, 18, "two pages of nine rows each");
    let mut once = ViewState::default();
    page(&mut once, &plan, 10, 1);
    page(&mut once, &plan, 10, 1);
    assert_eq!(once.cursor_row, twice.cursor_row);
    let mut moved = ViewState::default();
    move_cursor_by(&mut moved, &plan, 10, 18);
    assert_eq!((moved.cursor_row, moved.scroll), (twice.cursor_row, twice.scroll));
    page(&mut twice, &plan, 10, -3);
    assert_eq!(twice.cursor_row, 0, "three pages up from row 18 stops at the top");
    let mut halves = ViewState::default();
    half_page(&mut halves, &plan, 10, 3);
    assert_eq!(halves.cursor_row, 15, "three half pages of five rows");
}
