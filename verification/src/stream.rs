//! Diff-stream navigation: pure viewport/cursor operations over a view's
//! [`ViewState`] and its [`Plan`], shared by the main stream and the
//! single-file peek.

use vstd::prelude::*;

use crate::model::LayoutMode;
use crate::rows::{
    dir_at, file_at, is_region_of, sorted_strict, spec_collapsed_row, spec_dir_at, spec_file_at,
    spec_file_start_of, spec_position, Plan, PlanV,
};
use crate::view::ViewState;

verus! {

/// One split column's text width.
pub open spec fn spec_split_col_w(viewport_w: usize) -> int {
    if viewport_w >= 1 {
        (viewport_w - 1) / 2
    } else {
        0
    }
}

/// One split column's text width (the divider takes one column).
fn split_col_w(viewport_w: usize) -> (r: usize)
    ensures
        r == spec_split_col_w(viewport_w),
{
    viewport_w.saturating_sub(1) / 2
}

/// Max horizontal scroll: content width beyond the viewport (one column's
/// width in split layout).
pub open spec fn spec_max_h_scroll(p: PlanV, viewport_w: usize) -> int {
    let visible = if p.layout == LayoutMode::Split {
        spec_split_col_w(viewport_w)
    } else {
        viewport_w as int
    };
    if p.content_w > visible {
        p.content_w - visible
    } else {
        0
    }
}

/// Max horizontal scroll: content width beyond the viewport. In split layout
/// the bound is one column's width, since each side pans within its column.
pub fn max_h_scroll(plan: &Plan, viewport_w: usize) -> (r: usize)
    ensures
        r == spec_max_h_scroll(plan@, viewport_w),
{
    let visible = match plan.layout {
        LayoutMode::Split => split_col_w(viewport_w),
        LayoutMode::Stack => viewport_w,
    };
    plan.content_w.saturating_sub(visible)
}

/// The last top that still fills a `viewport_h`-tall viewport over `rows` rows.
pub open spec fn spec_max_scroll(rows: int, viewport_h: int) -> int {
    let h = if viewport_h >= 1 {
        viewport_h
    } else {
        1
    };
    if rows > h {
        rows - h
    } else {
        0
    }
}

/// Max vertical scroll for a `rows`-row body in a `viewport_h`-tall viewport:
/// the last top that still fills the viewport, so the final page stays full.
pub fn max_scroll_rows(rows: usize, viewport_h: usize) -> (r: usize)
    ensures
        r == spec_max_scroll(rows as int, viewport_h as int),
{
    rows.saturating_sub(if viewport_h >= 1 {
        viewport_h
    } else {
        1
    })
}

/// Max vertical scroll: the last viewport-top that still shows content.
pub fn max_scroll(plan: &Plan, viewport_h: usize) -> (r: usize)
    ensures
        r == spec_max_scroll(plan@.rows.len() as int, viewport_h as int),
{
    max_scroll_rows(plan.rows.len(), viewport_h)
}

/// The `Changeset::files` index of the visible file whose region holds `row`
/// (0 when no visible file does).
pub open spec fn spec_file_of_row(p: PlanV, row: usize) -> usize {
    let ord = spec_file_at(p.file_starts, row);
    if 0 <= ord < p.visible_files.len() {
        p.visible_files[ord]
    } else {
        0
    }
}

fn file_of_row(plan: &Plan, row: usize) -> (r: usize)
    ensures
        sorted_strict(plan@.file_starts) ==> r == spec_file_of_row(plan@, row),
{
    let ord = file_at(plan.file_starts.as_slice(), row);
    if ord < plan.visible_files.len() {
        plan.visible_files[ord]
    } else {
        0
    }
}

/// `Changeset::files` index of the file at the top of the viewport.
pub fn current_file(st: &ViewState, plan: &Plan) -> (r: usize)
    ensures
        sorted_strict(plan@.file_starts) ==> r == spec_file_of_row(plan@, st.scroll),
{
    file_of_row(plan, st.scroll)
}

/// `Changeset::files` index of the file the line cursor is in.
pub fn cursor_file(st: &ViewState, plan: &Plan) -> (r: usize)
    ensures
        sorted_strict(plan@.file_starts) ==> r == spec_file_of_row(plan@, st.cursor_row),
{
    file_of_row(plan, st.cursor_row)
}

/// The selection after following the line cursor: the cursor's folded
/// directory when it sits on one, else the cursor's file.
pub open spec fn follows_cursor(before: ViewState, after: ViewState, p: PlanV) -> bool {
    &&& sorted_strict(p.file_starts) ==> after.selected == spec_file_of_row(p, before.cursor_row)
    &&& match spec_dir_at(p, before.cursor_row as int) {
        Some(d) => after.selected_dir matches Some(s) && s@ == d,
        None => after.selected_dir is None,
    }
    &&& after.reveal_selected
    &&& after.scroll == before.scroll
    &&& after.h_scroll == before.h_scroll
    &&& after.cursor_row == before.cursor_row
    &&& after.wrap == before.wrap
    &&& after.viewed == before.viewed
    &&& after.collapsed == before.collapsed
}

/// As the line cursor moves, the active (sidebar-highlighted) file follows
/// the file the cursor is in, and the sidebar reveals it. On a folded
/// directory's placeholder the directory itself is selected.
pub fn anchor_selected(st: &mut ViewState, plan: &Plan)
    ensures
        follows_cursor(*old(st), *final(st), plan@),
{
    let near = cursor_file(st, plan);
    match dir_at(plan, st.cursor_row) {
        Some(dir) => st.select_dir(dir.clone(), near),
        None => st.select_file(near),
    }
    st.reveal_selected = true;
}

/// Rows available for the body: one fewer than the viewport whenever a
/// sticky file header can be pinned (never an over-estimate, no floor).
pub open spec fn spec_usable(p: PlanV, viewport_h: usize) -> int {
    if p.file_starts.len() == 0 {
        viewport_h as int
    } else if viewport_h >= 1 {
        viewport_h - 1
    } else {
        0
    }
}

/// Rows actually available for the body: one fewer than the viewport
/// whenever a sticky file header can be pinned.
pub fn usable(plan: &Plan, viewport_h: usize) -> (r: usize)
    ensures
        r == spec_usable(plan@, viewport_h),
{
    if plan.file_starts.len() == 0 {
        viewport_h
    } else {
        viewport_h.saturating_sub(1)
    }
}

/// The viewport top after moving it the minimum distance that shows the
/// cursor, bounded by the last full page; unchanged when nothing is drawable.
pub open spec fn spec_into_view(scroll: int, cursor: int, rows: int, usable: int) -> int {
    if usable == 0 {
        scroll
    } else {
        let s = if cursor < scroll {
            cursor
        } else if cursor >= scroll + usable {
            cursor + 1 - usable
        } else {
            scroll
        };
        let m = spec_max_scroll(rows, usable);
        if s < m {
            s
        } else {
            m
        }
    }
}

/// Move `scroll` the minimum distance that puts the cursor on screen. Never
/// re-centres: a step past the edge scrolls exactly one row.
pub fn scroll_into_view(st: &mut ViewState, plan: &Plan, usable: usize)
    ensures
        final(st).scroll == spec_into_view(
            old(st).scroll as int,
            old(st).cursor_row as int,
            plan@.rows.len() as int,
            usable as int,
        ),
        final(st).cursor_row == old(st).cursor_row,
        final(st).h_scroll == old(st).h_scroll,
        final(st).wrap == old(st).wrap,
        final(st).selected == old(st).selected,
        final(st).selected_dir == old(st).selected_dir,
        final(st).reveal_selected == old(st).reveal_selected,
        final(st).viewed == old(st).viewed,
        final(st).collapsed == old(st).collapsed,
{
    if usable == 0 {
        return ;
    }
    if st.cursor_row < st.scroll {
        st.scroll = st.cursor_row;
    } else if st.cursor_row - st.scroll >= usable {
        st.scroll = st.cursor_row - (usable - 1);
    }
    let m = max_scroll(plan, usable);
    if st.scroll > m {
        st.scroll = m;
    }
}

pub open spec fn min_int(a: int, b: int) -> int {
    if a <= b {
        a
    } else {
        b
    }
}

/// The last row index (0 for an empty plan).
pub open spec fn spec_last_row(p: PlanV) -> int {
    if p.rows.len() >= 1 {
        p.rows.len() - 1
    } else {
        0
    }
}

/// The viewport top `clamp` leaves.
pub open spec fn spec_clamp_scroll(scroll: int, cursor: int, p: PlanV, usable: int) -> int {
    spec_into_view(
        min_int(scroll, spec_max_scroll(p.rows.len() as int, usable)),
        min_int(cursor, spec_last_row(p)),
        p.rows.len() as int,
        usable,
    )
}

/// Clamp scroll, horizontal scroll, and the line cursor into range, then make
/// the cursor visible (after a resize / plan rebuild).
pub fn clamp(st: &mut ViewState, plan: &Plan, usable: usize, viewport_w: usize)
    ensures
        final(st).cursor_row == min_int(old(st).cursor_row as int, spec_last_row(plan@)),
        final(st).scroll == spec_clamp_scroll(
            old(st).scroll as int,
            old(st).cursor_row as int,
            plan@,
            usable as int,
        ),
        final(st).h_scroll == min_int(old(st).h_scroll as int, spec_max_h_scroll(plan@, viewport_w)),
        final(st).wrap == old(st).wrap,
        final(st).selected == old(st).selected,
        final(st).selected_dir == old(st).selected_dir,
        final(st).reveal_selected == old(st).reveal_selected,
        final(st).viewed == old(st).viewed,
        final(st).collapsed == old(st).collapsed,
{
    let m = max_scroll(plan, usable);
    if st.scroll > m {
        st.scroll = m;
    }
    let mh = max_h_scroll(plan, viewport_w);
    if st.h_scroll > mh {
        st.h_scroll = mh;
    }
    let last = plan.rows.len().saturating_sub(1);
    if st.cursor_row > last {
        st.cursor_row = last;
    }
    scroll_into_view(st, plan, usable);
}

/// Re-anchor a viewport `scroll` after a plan rebuild: the offset within the
/// anchor file is kept; a scroll above the anchor file's header (the banner
/// region) stays exactly where it is.
pub open spec fn spec_reanchored(scroll: int, old_start: int, new_start: int) -> int {
    if scroll < old_start {
        scroll
    } else {
        new_start + (scroll - old_start)
    }
}

/// Re-anchor a viewport `scroll` after a plan rebuild.
pub fn reanchored(scroll: usize, old_start: usize, new_start: usize) -> (r: usize)
    requires
        scroll < old_start || new_start + (scroll - old_start) <= usize::MAX,
    ensures
        r == spec_reanchored(scroll as int, old_start as int, new_start as int),
{
    if scroll < old_start {
        scroll
    } else {
        new_start + (scroll - old_start)
    }
}

/// Top-align the viewport on `row`, as far as the last full page allows.
pub fn scroll_to(st: &mut ViewState, plan: &Plan, viewport_h: usize, row: usize)
    ensures
        final(st).scroll == min_int(row as int, spec_max_scroll(plan@.rows.len() as int, viewport_h as int)),
        final(st).cursor_row == old(st).cursor_row,
        final(st).h_scroll == old(st).h_scroll,
        final(st).wrap == old(st).wrap,
        final(st).selected == old(st).selected,
        final(st).selected_dir == old(st).selected_dir,
        final(st).reveal_selected == old(st).reveal_selected,
        final(st).viewed == old(st).viewed,
        final(st).collapsed == old(st).collapsed,
{
    let m = max_scroll(plan, viewport_h);
    st.scroll = if row < m {
        row
    } else {
        m
    };
}

pub open spec fn clamp_int(x: int, lo: int, hi: int) -> int {
    if x < lo {
        lo
    } else if x > hi {
        hi
    } else {
        x
    }
}

/// Scroll the viewport, leaving the line cursor alone (the peek's scroll).
pub fn scroll_by(st: &mut ViewState, plan: &Plan, viewport_h: usize, delta: isize)
    requires
        old(st).scroll <= isize::MAX,
        plan@.rows.len() <= isize::MAX,
        isize::MIN <= old(st).scroll + delta <= isize::MAX,
    ensures
        final(st).scroll == clamp_int(
            old(st).scroll + delta,
            0,
            spec_max_scroll(plan@.rows.len() as int, viewport_h as int),
        ),
        final(st).cursor_row == old(st).cursor_row,
        final(st).h_scroll == old(st).h_scroll,
        final(st).wrap == old(st).wrap,
        final(st).viewed == old(st).viewed,
        final(st).collapsed == old(st).collapsed,
        follows_cursor(
            ViewState { scroll: final(st).scroll, ..*old(st) },
            *final(st),
            plan@,
        ),
{
    let next = st.scroll as isize + delta;
    let m = max_scroll(plan, viewport_h) as isize;
    st.scroll = if next < 0 {
        0
    } else if next > m {
        m as usize
    } else {
        next as usize
    };
    anchor_selected(st, plan);
}


/// `after` is `before` with the line cursor moved by `delta`, clamped to
/// the plan, the viewport following only as far as needed, and the
/// selection following the cursor.
pub open spec fn cursor_moved(before: ViewState, after: ViewState, plan: PlanV, usable: usize, delta: int) -> bool {
    &&& after.cursor_row == clamp_int(before.cursor_row + delta, 0, spec_last_row(plan))
    &&& after.scroll == spec_into_view(
        before.scroll as int,
        after.cursor_row as int,
        plan.rows.len() as int,
        usable as int,
    )
    &&& follows_cursor(ViewState { scroll: after.scroll, cursor_row: after.cursor_row, ..before }, after, plan)
}

/// Move the line cursor by `delta`, clamped to the plan, with the viewport
/// following only as far as needed, and the selection following the cursor.
/// This is `j`/`k`, the arrows, and the page steps.
pub fn move_cursor_by(st: &mut ViewState, plan: &Plan, usable: usize, delta: isize)
    requires
        old(st).cursor_row <= isize::MAX,
        plan@.rows.len() <= isize::MAX,
        isize::MIN <= old(st).cursor_row + delta <= isize::MAX,
    ensures
        cursor_moved(*old(st), *final(st), plan@, usable, delta as int),
{
    let last = plan.rows.len().saturating_sub(1) as isize;
    let next = st.cursor_row as isize + delta;
    st.cursor_row = if next < 0 {
        0
    } else if next > last {
        last as usize
    } else {
        next as usize
    };
    scroll_into_view(st, plan, usable);
    anchor_selected(st, plan);
}

/// Scroll the viewport and carry the cursor with it by the delta actually
/// applied, so the cursor keeps its row on screen. This is `J`/`K`,
/// Shift+arrows, and the mouse wheel.
pub fn scroll_view_by(st: &mut ViewState, plan: &Plan, usable: usize, delta: isize)
    requires
        old(st).scroll <= isize::MAX,
        old(st).cursor_row + plan@.rows.len() <= isize::MAX,
        isize::MIN <= old(st).scroll + delta <= isize::MAX,
    ensures
        ({
            let next = clamp_int(
                old(st).scroll + delta,
                0,
                spec_max_scroll(plan@.rows.len() as int, usable as int),
            );
            let cur = clamp_int(
                old(st).cursor_row + (next - old(st).scroll),
                0,
                spec_last_row(plan@),
            );
            &&& final(st).cursor_row == cur
            &&& final(st).scroll == spec_into_view(next, cur, plan@.rows.len() as int, usable as int)
            &&& follows_cursor(
                ViewState { scroll: final(st).scroll, cursor_row: final(st).cursor_row, ..*old(st) },
                *final(st),
                plan@,
            )
        }),
{
    let before = st.scroll as isize;
    let m = max_scroll(plan, usable) as isize;
    let raw = before + delta;
    let next = if raw < 0 {
        0
    } else if raw > m {
        m
    } else {
        raw
    };
    st.scroll = next as usize;
    let applied = next - before;
    let last = plan.rows.len().saturating_sub(1) as isize;
    let c = st.cursor_row as isize + applied;
    st.cursor_row = if c < 0 {
        0
    } else if c > last {
        last as usize
    } else {
        c as usize
    };
    scroll_into_view(st, plan, usable);
    anchor_selected(st, plan);
}

/// The page step: one row short of a screen, at least one.
pub open spec fn spec_page_step(usable: usize) -> int {
    if usable >= 2 {
        usable - 1
    } else {
        1
    }
}

/// Move the cursor `dir` pages (down for `dir` positive, up for negative):
/// the cursor move of `dir` times the page step.
pub fn page(st: &mut ViewState, plan: &Plan, usable: usize, dir: isize)
    requires
        isize::MIN <= dir * spec_page_step(usable) <= isize::MAX,
        usable <= isize::MAX,
        old(st).cursor_row <= isize::MAX,
        plan@.rows.len() <= isize::MAX,
        isize::MIN <= old(st).cursor_row + dir * spec_page_step(usable) <= isize::MAX,
    ensures
        cursor_moved(*old(st), *final(st), plan@, usable, dir * spec_page_step(usable)),
{
    let step = if usable >= 2 {
        (usable - 1) as isize
    } else {
        1
    };
    assert(dir * step == dir * spec_page_step(usable)) by (nonlinear_arith)
        requires
            step == spec_page_step(usable),
    ;
    move_cursor_by(st, plan, usable, dir * step);
}

/// The half-page step: half a screen, at least one.
pub open spec fn spec_half_step(usable: usize) -> int {
    if usable / 2 >= 1 {
        (usable / 2) as int
    } else {
        1
    }
}

/// Move the cursor `dir` half pages (down for `dir` positive, up for
/// negative): the cursor move of `dir` times the half-page step.
pub fn half_page(st: &mut ViewState, plan: &Plan, usable: usize, dir: isize)
    requires
        isize::MIN <= dir * spec_half_step(usable) <= isize::MAX,
        usable <= isize::MAX,
        old(st).cursor_row <= isize::MAX,
        plan@.rows.len() <= isize::MAX,
        isize::MIN <= old(st).cursor_row + dir * spec_half_step(usable) <= isize::MAX,
    ensures
        cursor_moved(*old(st), *final(st), plan@, usable, dir * spec_half_step(usable)),
{
    let step = if usable / 2 >= 1 {
        (usable / 2) as isize
    } else {
        1
    };
    assert(dir * step == dir * spec_half_step(usable)) by (nonlinear_arith)
        requires
            step == spec_half_step(usable),
    ;
    move_cursor_by(st, plan, usable, dir * step);
}

/// The top of the stream: viewport and cursor on row 0.
pub fn top(st: &mut ViewState, plan: &Plan)
    ensures
        final(st).scroll == 0,
        final(st).cursor_row == 0,
        follows_cursor(ViewState { scroll: 0, cursor_row: 0, ..*old(st) }, *final(st), plan@),
{
    st.scroll = 0;
    st.cursor_row = 0;
    anchor_selected(st, plan);
}

/// The end of the stream: the cursor on the last row, the viewport wherever
/// it must be to show it.
pub fn bottom(st: &mut ViewState, plan: &Plan, usable: usize)
    ensures
        final(st).cursor_row == spec_last_row(plan@),
        final(st).scroll == spec_into_view(
            old(st).scroll as int,
            spec_last_row(plan@),
            plan@.rows.len() as int,
            usable as int,
        ),
        follows_cursor(
            ViewState { scroll: final(st).scroll, cursor_row: final(st).cursor_row, ..*old(st) },
            *final(st),
            plan@,
        ),
{
    st.cursor_row = plan.rows.len().saturating_sub(1);
    scroll_into_view(st, plan, usable);
    anchor_selected(st, plan);
}

/// The first hunk start strictly after `row`, in stream order.
pub open spec fn spec_next_hunk(hs: Seq<usize>, row: usize) -> Option<usize> {
    if exists|i: int| 0 <= i < hs.len() && hs[i] > row {
        let i = choose|i: int|
            0 <= i < hs.len() && hs[i] > row && forall|j: int| 0 <= j < i ==> hs[j] <= row;
        Some(hs[i])
    } else {
        None
    }
}

/// The last hunk start strictly before `row`, in stream order.
pub open spec fn spec_prev_hunk(hs: Seq<usize>, row: usize) -> Option<usize> {
    if exists|i: int| 0 <= i < hs.len() && hs[i] < row {
        let i = choose|i: int|
            0 <= i < hs.len() && hs[i] < row && forall|j: int| i < j < hs.len() ==> hs[j] >= row;
        Some(hs[i])
    } else {
        None
    }
}

proof fn lemma_next_hunk_at(hs: Seq<usize>, row: usize, i: int)
    requires
        0 <= i < hs.len(),
        hs[i] > row,
        forall|j: int| 0 <= j < i ==> hs[j] <= row,
    ensures
        spec_next_hunk(hs, row) == Some(hs[i]),
{
    let k = choose|k: int| 0 <= k < hs.len() && hs[k] > row && forall|j: int| 0 <= j < k ==> hs[j] <= row;
    assert(0 <= k < hs.len() && hs[k] > row);
    if k < i {
        assert(hs[k] <= row);
    }
    if i < k {
        assert(hs[i] <= row);
    }
}

proof fn lemma_prev_hunk_at(hs: Seq<usize>, row: usize, i: int)
    requires
        0 <= i < hs.len(),
        hs[i] < row,
        forall|j: int| i < j < hs.len() ==> hs[j] >= row,
    ensures
        spec_prev_hunk(hs, row) == Some(hs[i]),
{
    let k = choose|k: int|
        0 <= k < hs.len() && hs[k] < row && forall|j: int| k < j < hs.len() ==> hs[j] >= row;
    assert(0 <= k < hs.len() && hs[k] < row);
    if k < i {
        assert(hs[i] >= row);
    }
    if i < k {
        assert(hs[k] >= row);
    }
}

/// The first start strictly after `row`.
pub fn next_start(starts: &Vec<usize>, row: usize) -> (r: Option<usize>)
    ensures
        r == spec_next_hunk(starts@, row),
{
    let mut i: usize = 0;
    while i < starts.len() && starts[i] <= row
        invariant
            i <= starts@.len(),
            forall|j: int| 0 <= j < i ==> starts@[j] <= row,
        decreases starts@.len() - i,
    {
        i = i + 1;
    }
    if i < starts.len() {
        proof {
            lemma_next_hunk_at(starts@, row, i as int);
        }
        Some(starts[i])
    } else {
        None
    }
}

/// The last start strictly before `row`.
pub fn prev_start(starts: &Vec<usize>, row: usize) -> (r: Option<usize>)
    ensures
        r == spec_prev_hunk(starts@, row),
{
    let mut i: usize = starts.len();
    while i > 0 && starts[i - 1] >= row
        invariant
            i <= starts@.len(),
            forall|j: int| i <= j < starts@.len() ==> starts@[j] >= row,
        decreases i,
    {
        i = i - 1;
    }
    if i > 0 {
        proof {
            lemma_prev_hunk_at(starts@, row, i - 1);
        }
        Some(starts[i - 1])
    } else {
        None
    }
}

/// Land the cursor on `row`, top-aligning the viewport on it.
pub open spec fn lands_on(before: ViewState, after: ViewState, p: PlanV, usable: usize, row: usize) -> bool {
    let sc = min_int(row as int, spec_max_scroll(p.rows.len() as int, usable as int));
    &&& after.cursor_row == row
    &&& after.scroll == sc
    &&& follows_cursor(ViewState { scroll: after.scroll, cursor_row: row, ..before }, after, p)
}

/// The viewport and cursor are left exactly where they were.
pub open spec fn unmoved(before: ViewState, after: ViewState) -> bool {
    &&& after.scroll == before.scroll
    &&& after.cursor_row == before.cursor_row
    &&& after.h_scroll == before.h_scroll
    &&& after.wrap == before.wrap
    &&& after.selected == before.selected
    &&& after.selected_dir == before.selected_dir
    &&& after.reveal_selected == before.reveal_selected
    &&& after.viewed == before.viewed
    &&& after.collapsed == before.collapsed
}

/// Jump to the next hunk after the cursor, top-aligning the viewport; no
/// movement when there is none.
pub fn next_hunk(st: &mut ViewState, plan: &Plan, usable: usize)
    ensures
        match spec_next_hunk(plan@.hunk_starts, old(st).cursor_row) {
            Some(row) => lands_on(*old(st), *final(st), plan@, usable, row),
            None => unmoved(*old(st), *final(st)),
        },
{
    let cur = st.cursor_row;
    let mut i: usize = 0;
    while i < plan.hunk_starts.len() && plan.hunk_starts[i] <= cur
        invariant
            i <= plan.hunk_starts@.len(),
            forall|j: int| 0 <= j < i ==> plan.hunk_starts@[j] <= cur,
        decreases plan.hunk_starts@.len() - i,
    {
        i = i + 1;
    }
    if i < plan.hunk_starts.len() {
        let row = plan.hunk_starts[i];
        proof {
            lemma_next_hunk_at(plan.hunk_starts@, cur, i as int);
        }
        scroll_to(st, plan, usable, row);
        st.cursor_row = row;
        anchor_selected(st, plan);
    }
}

/// Jump to the nearest hunk before the cursor, top-aligning the viewport; no
/// movement when there is none.
pub fn prev_hunk(st: &mut ViewState, plan: &Plan, usable: usize)
    ensures
        match spec_prev_hunk(plan@.hunk_starts, old(st).cursor_row) {
            Some(row) => lands_on(*old(st), *final(st), plan@, usable, row),
            None => unmoved(*old(st), *final(st)),
        },
{
    let cur = st.cursor_row;
    let mut i: usize = plan.hunk_starts.len();
    while i > 0 && plan.hunk_starts[i - 1] >= cur
        invariant
            i <= plan.hunk_starts@.len(),
            forall|j: int| i <= j < plan.hunk_starts@.len() ==> plan.hunk_starts@[j] >= cur,
        decreases i,
    {
        i = i - 1;
    }
    if i > 0 {
        let row = plan.hunk_starts[i - 1];
        proof {
            lemma_prev_hunk_at(plan.hunk_starts@, cur, i - 1);
        }
        scroll_to(st, plan, usable, row);
        st.cursor_row = row;
        anchor_selected(st, plan);
    }
}

/// Land the cursor on `row` and top-align the viewport, selection untouched.
pub open spec fn jumps_to(before: ViewState, after: ViewState, p: PlanV, usable: usize, row: int) -> bool {
    &&& after.cursor_row == row
    &&& after.scroll == min_int(row, spec_max_scroll(p.rows.len() as int, usable as int))
    &&& after.h_scroll == before.h_scroll
    &&& after.wrap == before.wrap
    &&& after.selected == before.selected
    &&& after.selected_dir == before.selected_dir
    &&& after.reveal_selected == before.reveal_selected
    &&& after.viewed == before.viewed
    &&& after.collapsed == before.collapsed
}

/// Jump the viewport and cursor to a file's header row (a `Changeset::files`
/// index); a folded or unknown file leaves both alone.
pub fn jump_to_file(st: &mut ViewState, plan: &Plan, usable: usize, idx: usize)
    ensures
        match spec_file_start_of(plan@, idx) {
            Some(row) => jumps_to(*old(st), *final(st), plan@, usable, row as int),
            None => unmoved(*old(st), *final(st)),
        },
{
    if let Some(ord) = plan.visible_ordinal(idx) {
        if ord < plan.file_starts.len() {
            let row = plan.file_starts[ord];
            scroll_to(st, plan, usable, row);
            st.cursor_row = row;
        }
    }
}

/// Scroll the viewport to a folded directory's placeholder row and put the
/// cursor on it, leaving the placeholder selection alone; a missing
/// placeholder leaves everything alone.
pub fn jump_to_collapsed(st: &mut ViewState, plan: &Plan, usable: usize, dir: &str)
    ensures
        match spec_collapsed_row(plan@, dir@) {
            Some(row) => jumps_to(*old(st), *final(st), plan@, usable, row),
            None => unmoved(*old(st), *final(st)),
        },
{
    if let Some(row) = plan.collapsed_row(dir) {
        scroll_to(st, plan, usable, row);
        st.cursor_row = row;
    }
}

/// Pan horizontally by `delta`, clamped to the content width.
pub fn h_scroll_by(st: &mut ViewState, plan: &Plan, viewport_w: usize, delta: isize)
    requires
        old(st).h_scroll <= isize::MAX,
        plan@.content_w <= isize::MAX,
        isize::MIN <= old(st).h_scroll + delta <= isize::MAX,
    ensures
        final(st).h_scroll == clamp_int(old(st).h_scroll + delta, 0, spec_max_h_scroll(plan@, viewport_w)),
        final(st).scroll == old(st).scroll,
        final(st).cursor_row == old(st).cursor_row,
        final(st).wrap == old(st).wrap,
        final(st).selected == old(st).selected,
        final(st).selected_dir == old(st).selected_dir,
        final(st).reveal_selected == old(st).reveal_selected,
        final(st).viewed == old(st).viewed,
        final(st).collapsed == old(st).collapsed,
{
    let max = max_h_scroll(plan, viewport_w) as isize;
    let next = st.h_scroll as isize + delta;
    st.h_scroll = if next < 0 {
        0
    } else if next > max {
        max as usize
    } else {
        next as usize
    };
}

/// Toggle line wrap; wrapping resets the horizontal pan.
pub fn toggle_wrap(st: &mut ViewState)
    ensures
        final(st).wrap == !old(st).wrap,
        final(st).h_scroll == 0,
        final(st).scroll == old(st).scroll,
        final(st).cursor_row == old(st).cursor_row,
        final(st).selected == old(st).selected,
        final(st).selected_dir == old(st).selected_dir,
        final(st).reveal_selected == old(st).reveal_selected,
        final(st).viewed == old(st).viewed,
        final(st).collapsed == old(st).collapsed,
{
    st.wrap = !st.wrap;
    st.h_scroll = 0;
}

// ---- laws -----------------------------------------------------------------

/// After `clamp`, whenever anything can be drawn, the line cursor is inside
/// the drawn window: `scroll <= cursor < scroll + usable`.
pub proof fn law_clamp_shows_cursor(scroll: int, cursor: int, p: PlanV, usable: int)
    requires
        scroll >= 0,
        cursor >= 0,
        usable >= 1,
    ensures
        ({
            let c = min_int(cursor, spec_last_row(p));
            let s = spec_clamp_scroll(scroll, cursor, p, usable);
            s <= c < s + usable
        }),
{
}

/// `clamp` runs on every frame, so it must be idempotent: clamping a clamped
/// state changes nothing.
pub proof fn law_clamp_idempotent(scroll: int, cursor: int, hs: int, p: PlanV, usable: int, w: usize)
    requires
        scroll >= 0,
        cursor >= 0,
        hs >= 0,
        usable >= 0,
    ensures
        ({
            let c = min_int(cursor, spec_last_row(p));
            let s = spec_clamp_scroll(scroll, cursor, p, usable);
            let h = min_int(hs, spec_max_h_scroll(p, w));
            &&& min_int(c, spec_last_row(p)) == c
            &&& spec_clamp_scroll(s, c, p, usable) == s
            &&& min_int(h, spec_max_h_scroll(p, w)) == h
        }),
{
}

} // verus!
