//! The shape every built plan has, and what it buys: capturing the cursor
//! and restoring it into the same plan leaves it where it was.

use vstd::prelude::*;
use crate::model::{DiffFileV, HunkV, LayoutMode, LineV, Side, spec_parent_dir};
use crate::model::LineKind;
use crate::rows::{
    Key, PlanV, RowV, line_row, AnchorV, split_rows, flush_rows, ctx_pair, hunks_rows, hunk_rows, hunk_body, hunk_end, file_body,
    note_rows, plan_upto, spec_build, starts_ok, sorted_strict, is_region_of, spec_file_at, spec_dir_at,
    spec_capture, spec_restore, spec_restore_raw, spec_last, row_has_key, is_dir_row, spec_cursor_key,
    spec_row_keys, spec_find_key, spec_collapsed_row, spec_position, spec_file_start_of,
    spec_file_or_placeholder, spec_file_end, lemma_first_unique, lemma_position_unique,
    lemma_collapsed_unique, lemma_file_end_is, lemma_find_key_bounds, lemma_first_key_exists, lemma_region_unique, lemma_plan_starts, viewed_at,
    first_of_dir, run_len, count_viewed, spec_first_in_dir, lemma_first_in_dir_is, lemma_first_in_dir_bounds,
};

verus! {

/// No row of `rows` is a spacer.
pub open spec fn no_spacer(rows: Seq<RowV>) -> bool {
    forall|i: int| 0 <= i < rows.len() ==> !(#[trigger] rows[i] is Spacer)
}

proof fn lemma_no_spacer_concat(a: Seq<RowV>, b: Seq<RowV>)
    requires
        no_spacer(a),
        no_spacer(b),
    ensures
        no_spacer(a + b),
{
    assert forall|i: int| 0 <= i < (a + b).len() implies !(#[trigger] (a + b)[i] is Spacer) by {
        if i < a.len() {
            assert((a + b)[i] == a[i]);
        } else {
            assert((a + b)[i] == b[i - a.len()]);
        }
    }
}

proof fn lemma_split_rows_no_spacer(fi: usize, lines: Seq<LineV>, rem: Seq<LineV>, add: Seq<LineV>)
    ensures
        no_spacer(split_rows(fi, lines, rem, add)),
    decreases lines.len(),
{
    if lines.len() > 0 {
        let l = lines[0];
        match l.kind {
            LineKind::Context => {
                lemma_split_rows_no_spacer(fi, lines.drop_first(), Seq::empty(), Seq::empty());
                lemma_no_spacer_concat(flush_rows(fi, rem, add), seq![ctx_pair(fi, l)]);
                lemma_no_spacer_concat(
                    flush_rows(fi, rem, add) + seq![ctx_pair(fi, l)],
                    split_rows(fi, lines.drop_first(), Seq::empty(), Seq::empty()),
                );
            },
            LineKind::Removed => {
                lemma_split_rows_no_spacer(fi, lines.drop_first(), rem.push(l), add);
            },
            LineKind::Added => {
                lemma_split_rows_no_spacer(fi, lines.drop_first(), rem, add.push(l));
            },
        }
    }
}

proof fn lemma_hunks_rows_no_spacer(fi: usize, hunks: Seq<HunkV>, k: int, split: bool)
    requires
        0 <= k <= hunks.len(),
    ensures
        no_spacer(hunks_rows(fi, hunks, k, split)),
    decreases k,
{
    if k > 0 {
        lemma_hunks_rows_no_spacer(fi, hunks, k - 1, split);
        let h = hunks[k - 1];
        if split {
            lemma_split_rows_no_spacer(fi, h.lines, Seq::empty(), Seq::empty());
        }
        let gap: Seq<RowV> = if k - 1 > 0 {
            seq![RowV::HunkHeader(hunk_end(hunks[k - 2]) as u32)]
        } else {
            Seq::empty()
        };
        lemma_no_spacer_concat(gap, hunk_body(fi, h, split));
        lemma_no_spacer_concat(hunks_rows(fi, hunks, k - 1, split), hunk_rows(fi, hunks, k - 1, split));
    }
}

/// A file's body is closed by exactly one spacer: its last row.
proof fn lemma_file_body_shape(fi: usize, f: DiffFileV, viewed: bool, split: bool)
    ensures
        file_body(fi, f, viewed, split).len() >= 1,
        file_body(fi, f, viewed, split).last() is Spacer,
        no_spacer(file_body(fi, f, viewed, split).drop_last()),
{
    let b = file_body(fi, f, viewed, split);
    if !viewed && f.diffed && !(f.is_binary && split) {
        lemma_hunks_rows_no_spacer(fi, f.hunks, f.hunks.len() as int, split);
        lemma_no_spacer_concat(note_rows(fi, f), hunks_rows(fi, f.hunks, f.hunks.len() as int, split));
        assert(b.drop_last() =~= note_rows(fi, f) + hunks_rows(fi, f.hunks, f.hunks.len() as int, split));
    }
}

/// Where visible file `o`'s region ends: at the next visible header, or at
/// the end of the plan.
pub open spec fn region_end(p: PlanV, o: int) -> int {
    if o + 1 < p.file_starts.len() {
        p.file_starts[o + 1] as int
    } else {
        p.rows.len() as int
    }
}

/// Row `e` closes visible file `o`: it is the first spacer after the file's
/// header, inside its region, and every later row of the region belongs to
/// a folded directory.
pub open spec fn closes_region(p: PlanV, o: int, e: int) -> bool {
    &&& p.file_starts[o] < e < region_end(p, o)
    &&& p.rows[e] is Spacer
    &&& forall|j: int| p.file_starts[o] <= j < e ==> !(#[trigger] p.rows[j] is Spacer)
    &&& forall|j: int| e < j < region_end(p, o) ==> (#[trigger] spec_dir_at(p, j)) is Some
}

/// Visible file `o`'s region is closed by some spacer.
pub open spec fn region_ok(p: PlanV, o: int) -> bool {
    exists|e: int| closes_region(p, o, e)
}

/// The shape of a plan laid out over `k` files: file starts strictly
/// increase inside the rows, visible files strictly increase below `k`, and
/// every visible file's region is closed by its own spacer.
pub open spec fn shaped(p: PlanV, k: int) -> bool {
    &&& starts_ok(p)
    &&& sorted_strict(p.visible_files)
    &&& forall|i: int| 0 <= i < p.visible_files.len() ==> #[trigger] p.visible_files[i] < k
    &&& forall|o: int| 0 <= o < p.file_starts.len() ==> #[trigger] region_ok(p, o)
}

/// Appending rows leaves what the earlier rows belong to unchanged.
proof fn lemma_dir_at_prefix(p: PlanV, q: PlanV, j: int)
    requires
        q.rows.len() >= p.rows.len(),
        q.rows.subrange(0, p.rows.len() as int) == p.rows,
        0 <= j < p.rows.len(),
    ensures
        spec_dir_at(q, j) == spec_dir_at(p, j),
{
    assert(q.rows[j] == p.rows[j]);
    if j >= 1 {
        assert(q.rows[j - 1] == p.rows[j - 1]);
    }
}

/// Every plan laid out over a prefix of the files has the shape.
pub proof fn lemma_plan_shaped(
    files: Seq<DiffFileV>,
    viewed: Seq<bool>,
    layout: LayoutMode,
    collapsed: Seq<Seq<char>>,
    banner: Seq<Seq<char>>,
    k: int,
)
    requires
        0 <= k <= files.len(),
        files.len() <= usize::MAX,
        plan_upto(files, viewed, layout, collapsed, banner, k).rows.len() <= usize::MAX,
    ensures
        shaped(plan_upto(files, viewed, layout, collapsed, banner, k), k),
    decreases k,
{
    lemma_plan_starts(files, viewed, layout, collapsed, banner, k);
    if k > 0 {
        let prev = plan_upto(files, viewed, layout, collapsed, banner, k - 1);
        let cur = plan_upto(files, viewed, layout, collapsed, banner, k);
        assert(prev.rows.len() <= cur.rows.len());
        lemma_plan_shaped(files, viewed, layout, collapsed, banner, k - 1);
        let fi = k - 1;
        let f = files[fi];
        let dir = spec_parent_dir(f.path);
        let split = layout == LayoutMode::Split;
        let n = prev.file_starts.len();
        let len0 = prev.rows.len() as int;
        assert(cur.rows.subrange(0, len0) =~= prev.rows);
        if collapsed.contains(dir) {
            if first_of_dir(files, fi) {
                assert(cur.file_starts == prev.file_starts);
                assert(cur.visible_files == prev.visible_files);
                assert(cur.rows.len() == len0 + 2);
                assert forall|o: int| 0 <= o < cur.file_starts.len() implies #[trigger] region_ok(cur, o) by {
                    assert(region_ok(prev, o));
                    let e = choose|e: int| closes_region(prev, o, e);
                    assert forall|j: int| e < j < region_end(cur, o) implies (#[trigger] spec_dir_at(cur, j)) is Some by {
                        if j < len0 {
                            lemma_dir_at_prefix(prev, cur, j);
                            assert(spec_dir_at(prev, j) is Some);
                        } else if j == len0 {
                            assert(cur.rows[j] is CollapsedDir);
                        } else {
                            assert(cur.rows[j] is Spacer);
                            assert(cur.rows[j - 1] is CollapsedDir);
                        }
                    }
                    assert forall|j: int| cur.file_starts[o] <= j < e implies !(#[trigger] cur.rows[j] is Spacer) by {
                        assert(cur.rows[j] == prev.rows[j]);
                    }
                    assert(cur.rows[e] == prev.rows[e]);
                    assert(closes_region(cur, o, e));
                }
            }
        } else {
            let v = viewed_at(viewed, fi);
            let body = file_body(fi as usize, f, v, split);
            lemma_file_body_shape(fi as usize, f, v, split);
            assert(cur.rows =~= prev.rows + seq![RowV::FileHeader(fi as usize)] + body);
            assert(cur.file_starts == prev.file_starts.push(len0 as usize));
            assert(cur.visible_files == prev.visible_files.push(fi as usize));
            let e = cur.rows.len() - 1;
            assert forall|o: int| 0 <= o < cur.file_starts.len() implies #[trigger] region_ok(cur, o) by {
                if o < n {
                    assert(region_ok(prev, o));
                    let e0 = choose|e: int| closes_region(prev, o, e);
                    assert(region_end(cur, o) == region_end(prev, o));
                    assert forall|j: int| e0 < j < region_end(cur, o) implies (#[trigger] spec_dir_at(cur, j)) is Some by {
                        lemma_dir_at_prefix(prev, cur, j);
                        assert(spec_dir_at(prev, j) is Some);
                    }
                    assert forall|j: int| cur.file_starts[o] <= j < e0 implies !(#[trigger] cur.rows[j] is Spacer) by {
                        assert(cur.rows[j] == prev.rows[j]);
                    }
                    assert(cur.rows[e0] == prev.rows[e0]);
                    assert(closes_region(cur, o, e0));
                } else {
                    assert(cur.file_starts[o] == len0);
                    assert(region_end(cur, o) == cur.rows.len());
                    assert(cur.rows[e] == body.last());
                    assert forall|j: int| cur.file_starts[o] <= j < e implies !(#[trigger] cur.rows[j] is Spacer) by {
                        if j > len0 {
                            assert(cur.rows[j] == body.drop_last()[j - len0 - 1]);
                        }
                    }
                    assert(closes_region(cur, o, e));
                }
            }
        }
    }
}

/// No key is carried by two rows.
pub open spec fn keys_unique(p: PlanV) -> bool {
    forall|i: int, j: int, k: Key|
        0 <= i < p.rows.len() && 0 <= j < p.rows.len() && #[trigger] row_has_key(p.rows[i], k)
            && #[trigger] row_has_key(p.rows[j], k) ==> i == j
}

/// No folded directory has two placeholders.
pub open spec fn dirs_unique(p: PlanV) -> bool {
    forall|i: int, j: int, d: Seq<char>|
        0 <= i < p.rows.len() && 0 <= j < p.rows.len() && #[trigger] is_dir_row(p.rows[i], d)
            && #[trigger] is_dir_row(p.rows[j], d) ==> i == j
}

/// The spacer right after a folded directory's placeholder.
pub open spec fn trailing_dir_spacer(p: PlanV, row: int) -> bool {
    &&& 1 <= row < p.rows.len()
    &&& p.rows[row] is Spacer
    &&& p.rows[row - 1] is CollapsedDir
}

/// A row at or after the first start lies in some region.
proof fn lemma_region_exists(starts: Seq<usize>, row: usize)
    requires
        sorted_strict(starts),
        starts.len() > 0,
        starts[0] <= row,
    ensures
        exists|k: int| is_region_of(starts, row, k),
    decreases starts.len(),
{
    let n = starts.len();
    if starts[n - 1] <= row {
        assert(is_region_of(starts, row, n - 1));
    } else {
        let s = starts.drop_last();
        assert(sorted_strict(s));
        lemma_region_exists(s, row);
        let k = choose|k: int| is_region_of(s, row, k);
        assert(is_region_of(starts, row, k));
    }
}

/// In a shaped plan whose keys and folded directories are unique, restoring
/// a row's capture into the same plan gives the row back, except that the
/// spacer after a folded directory's placeholder gives the placeholder.
proof fn lemma_round_trip(p: PlanV, files: Seq<DiffFileV>, row: usize)
    requires
        shaped(p, files.len() as int),
        keys_unique(p),
        dirs_unique(p),
        row < p.rows.len(),
    ensures
        spec_restore(p, spec_capture(p, row), files) == if trailing_dir_spacer(p, row as int) {
            row - 1
        } else {
            row as int
        },
{
    let r = row as int;
    match spec_dir_at(p, r) {
        Some(d) => {
            if p.rows[r] is CollapsedDir {
                assert(is_dir_row(p.rows[r], d));
                assert forall|j: int| 0 <= j < r implies !is_dir_row(#[trigger] p.rows[j], d) by {
                    if is_dir_row(p.rows[j], d) {
                        assert(is_dir_row(p.rows[r], d));
                    }
                }
                lemma_collapsed_unique(p, d, r);
            } else {
                assert(is_dir_row(p.rows[r - 1], d));
                assert forall|j: int| 0 <= j < r - 1 implies !is_dir_row(#[trigger] p.rows[j], d) by {
                    if is_dir_row(p.rows[j], d) {
                        assert(is_dir_row(p.rows[r - 1], d));
                    }
                }
                lemma_collapsed_unique(p, d, r - 1);
            }
        },
        None => {
            assert(!trailing_dir_spacer(p, r));
            match spec_cursor_key(p, r) {
                Some(key) => {
                    assert(row_has_key(p.rows[r], key));
                    assert forall|j: int| 0 <= j < r implies !row_has_key(#[trigger] p.rows[j], key) by {
                        if row_has_key(p.rows[j], key) {
                            assert(row_has_key(p.rows[r], key));
                        }
                    }
                    lemma_first_unique(p, key, r);
                },
                None => {
                    if p.file_starts.len() > 0 && p.file_starts[0] <= row {
                        let fs = p.file_starts;
                        lemma_region_exists(fs, row);
                        let ord = choose|k: int| is_region_of(fs, row, k);
                        lemma_region_unique(fs, row, ord);
                        let file = p.visible_files[ord];
                        assert forall|j: int| 0 <= j < ord implies p.visible_files[j] != file by {
                            assert(p.visible_files[j] < p.visible_files[ord]);
                        }
                        lemma_position_unique(p.visible_files, file, ord);
                        assert(spec_file_start_of(p, file) == Some(fs[ord]));
                        assert(region_ok(p, ord));
                        let e = choose|e: int| closes_region(p, ord, e);
                        lemma_file_end_is(p, fs[ord] as int, e);
                        assert(region_end(p, ord) > r);
                        if r > e {
                            assert(spec_dir_at(p, r) is Some);
                        }
                    }
                },
            }
        },
    }
}

/// Capturing the cursor and restoring it into the very plan it was captured
/// from leaves it on its row; the one exception is the spacer after a folded
/// directory's placeholder, which moves onto the placeholder. Either way the
/// result is a fixed point: restoring again does not move it. This holds
/// whenever files sharing a directory sit together, every line is numbered
/// only on its own side(s), and within each file no two lines share a
/// number on the same side.
pub proof fn law_capture_restore_same_plan(
    files: Seq<DiffFileV>,
    viewed: Seq<bool>,
    layout: LayoutMode,
    collapsed: Seq<Seq<char>>,
    banner: Seq<Seq<char>>,
    row: usize,
)
    requires
        files.len() <= usize::MAX,
        spec_build(files, viewed, layout, collapsed, banner).rows.len() <= usize::MAX,
        row < spec_build(files, viewed, layout, collapsed, banner).rows.len(),
        files_wf(files),
        numbered_once(files),
        grouped_by_dir(files),
    ensures
        ({
            let p = spec_build(files, viewed, layout, collapsed, banner);
            let back = spec_restore(p, spec_capture(p, row), files);
            &&& back == if trailing_dir_spacer(p, row as int) {
                row - 1
            } else {
                row as int
            }
            &&& spec_restore(p, spec_capture(p, back as usize), files) == back
        }),
{
    let p = spec_build(files, viewed, layout, collapsed, banner);
    lemma_plan_shaped(files, viewed, layout, collapsed, banner, files.len() as int);
    lemma_grouped_dirs_unique(files, viewed, layout, collapsed, banner);
    law_keys_unique(files, viewed, layout, collapsed, banner);
    lemma_round_trip(p, files, row);
    let back = spec_restore(p, spec_capture(p, row), files);
    lemma_round_trip(p, files, back as usize);
}

/// Some row of `rows` carries `k`.
pub open spec fn carries(rows: Seq<RowV>, k: Key) -> bool {
    exists|i: int| 0 <= i < rows.len() && #[trigger] row_has_key(rows[i], k)
}

/// The stacked rows of `lines`.
pub open spec fn stack_rows(fi: usize, lines: Seq<LineV>) -> Seq<RowV> {
    lines.map_values(|l: LineV| line_row(fi, l))
}

/// A diff line numbered only on the side(s) it is on: a removed line has no
/// new-side number and an added line no old-side one.
pub open spec fn line_wf(l: LineV) -> bool {
    &&& l.kind == LineKind::Removed ==> l.new is None
    &&& l.kind == LineKind::Added ==> l.old is None
}

/// Every line of every hunk of every file is numbered only on its own side(s),
/// and a binary file carries no hunks.
pub open spec fn files_wf(files: Seq<DiffFileV>) -> bool {
    &&& forall|i: int, h: int, j: int|
        0 <= i < files.len() && 0 <= h < files[i].hunks.len() && 0 <= j < files[i].hunks[h].lines.len()
            ==> line_wf(#[trigger] files[i].hunks[h].lines[j])
    &&& forall|i: int| 0 <= i < files.len() && (#[trigger] files[i]).is_binary ==> files[i].hunks.len() == 0
}

proof fn lemma_carries_concat(a: Seq<RowV>, b: Seq<RowV>, k: Key)
    ensures
        carries(a + b, k) == (carries(a, k) || carries(b, k)),
{
    if carries(a + b, k) {
        let i = choose|i: int| 0 <= i < (a + b).len() && #[trigger] row_has_key((a + b)[i], k);
        if i < a.len() {
            assert(row_has_key(a[i], k));
        } else {
            assert(row_has_key(b[i - a.len()], k));
        }
    }
    if carries(a, k) {
        let i = choose|i: int| 0 <= i < a.len() && #[trigger] row_has_key(a[i], k);
        assert(row_has_key((a + b)[i], k));
    }
    if carries(b, k) {
        let i = choose|i: int| 0 <= i < b.len() && #[trigger] row_has_key(b[i], k);
        assert(row_has_key((a + b)[a.len() + i], k));
    }
}

proof fn lemma_carries_one(r: RowV, k: Key)
    ensures
        carries(seq![r], k) == row_has_key(r, k),
{
    if row_has_key(r, k) {
        assert(row_has_key(seq![r][0], k));
    }
}

/// A pending removal's left cell, and a pending insertion's right cell, carry
/// exactly the keys of the line's stacked row.
proof fn lemma_flush_carries(fi: usize, rem: Seq<LineV>, add: Seq<LineV>, k: Key)
    requires
        forall|i: int| 0 <= i < rem.len() ==> (#[trigger] rem[i]).kind == LineKind::Removed && line_wf(rem[i]),
        forall|i: int| 0 <= i < add.len() ==> (#[trigger] add[i]).kind == LineKind::Added && line_wf(add[i]),
    ensures
        carries(flush_rows(fi, rem, add), k) == (carries(stack_rows(fi, rem), k) || carries(
            stack_rows(fi, add),
            k,
        )),
{
    let fl = flush_rows(fi, rem, add);
    if carries(fl, k) {
        let i = choose|i: int| 0 <= i < fl.len() && #[trigger] row_has_key(fl[i], k);
        if i < rem.len() && spec_row_keys(fl[i]).0 == Some(k) {
            assert(row_has_key(stack_rows(fi, rem)[i], k));
        } else {
            assert(row_has_key(stack_rows(fi, add)[i], k));
        }
    }
    if carries(stack_rows(fi, rem), k) {
        let i = choose|i: int| 0 <= i < stack_rows(fi, rem).len() && #[trigger] row_has_key(stack_rows(fi, rem)[i], k);
        assert(row_has_key(fl[i], k));
    }
    if carries(stack_rows(fi, add), k) {
        let i = choose|i: int| 0 <= i < stack_rows(fi, add).len() && #[trigger] row_has_key(stack_rows(fi, add)[i], k);
        assert(row_has_key(fl[i], k));
    }
}

proof fn lemma_stack_rows_push(fi: usize, lines: Seq<LineV>, l: LineV)
    ensures
        stack_rows(fi, lines.push(l)) == stack_rows(fi, lines) + seq![line_row(fi, l)],
{
    assert(stack_rows(fi, lines.push(l)) =~= stack_rows(fi, lines) + seq![line_row(fi, l)]);
}

proof fn lemma_stack_rows_first(fi: usize, lines: Seq<LineV>)
    requires
        lines.len() > 0,
    ensures
        stack_rows(fi, lines) == seq![line_row(fi, lines[0])] + stack_rows(fi, lines.drop_first()),
{
    assert(stack_rows(fi, lines) =~= seq![line_row(fi, lines[0])] + stack_rows(fi, lines.drop_first()));
}

/// The split rows of a run of lines carry exactly the keys of its stacked
/// rows (and of the removals and insertions still pending).
proof fn lemma_split_carries(fi: usize, lines: Seq<LineV>, rem: Seq<LineV>, add: Seq<LineV>, k: Key)
    requires
        forall|i: int| 0 <= i < lines.len() ==> line_wf(#[trigger] lines[i]),
        forall|i: int| 0 <= i < rem.len() ==> (#[trigger] rem[i]).kind == LineKind::Removed && line_wf(rem[i]),
        forall|i: int| 0 <= i < add.len() ==> (#[trigger] add[i]).kind == LineKind::Added && line_wf(add[i]),
    ensures
        carries(split_rows(fi, lines, rem, add), k) == (carries(stack_rows(fi, rem), k) || carries(
            stack_rows(fi, add),
            k,
        ) || carries(stack_rows(fi, lines), k)),
    decreases lines.len(),
{
    if lines.len() == 0 {
        lemma_flush_carries(fi, rem, add, k);
        assert(stack_rows(fi, lines).len() == 0);
    } else {
        let l = lines[0];
        let rest = lines.drop_first();
        assert(line_wf(l));
        lemma_stack_rows_first(fi, lines);
        lemma_carries_concat(seq![line_row(fi, l)], stack_rows(fi, rest), k);
        lemma_carries_one(line_row(fi, l), k);
        match l.kind {
            LineKind::Context => {
                let e: Seq<LineV> = Seq::empty();
                lemma_split_carries(fi, rest, e, e, k);
                assert(stack_rows(fi, e).len() == 0);
                lemma_flush_carries(fi, rem, add, k);
                lemma_carries_concat(flush_rows(fi, rem, add), seq![ctx_pair(fi, l)], k);
                lemma_carries_concat(
                    flush_rows(fi, rem, add) + seq![ctx_pair(fi, l)],
                    split_rows(fi, rest, e, e),
                    k,
                );
                lemma_carries_one(ctx_pair(fi, l), k);
            },
            LineKind::Removed => {
                lemma_split_carries(fi, rest, rem.push(l), add, k);
                lemma_stack_rows_push(fi, rem, l);
                lemma_carries_concat(stack_rows(fi, rem), seq![line_row(fi, l)], k);
            },
            LineKind::Added => {
                lemma_split_carries(fi, rest, rem, add.push(l), k);
                lemma_stack_rows_push(fi, add, l);
                lemma_carries_concat(stack_rows(fi, add), seq![line_row(fi, l)], k);
            },
        }
    }
}

/// A file's hunks carry the same keys in both layouts.
proof fn lemma_hunks_carries(fi: usize, hunks: Seq<HunkV>, n: int, k: Key)
    requires
        0 <= n <= hunks.len(),
        forall|h: int, j: int| 0 <= h < hunks.len() && 0 <= j < hunks[h].lines.len() ==> line_wf(#[trigger] hunks[h].lines[j]),
    ensures
        carries(hunks_rows(fi, hunks, n, true), k) == carries(hunks_rows(fi, hunks, n, false), k),
    decreases n,
{
    if n > 0 {
        lemma_hunks_carries(fi, hunks, n - 1, k);
        let h = hunks[n - 1];
        let e: Seq<LineV> = Seq::empty();
        assert forall|j: int| 0 <= j < h.lines.len() implies line_wf(#[trigger] h.lines[j]) by {
            assert(line_wf(hunks[n - 1].lines[j]));
        }
        lemma_split_carries(fi, h.lines, e, e, k);
        assert(stack_rows(fi, e).len() == 0);
        assert(hunk_body(fi, h, false) == stack_rows(fi, h.lines));
        let gap: Seq<RowV> = if n - 1 > 0 {
            seq![RowV::HunkHeader(hunk_end(hunks[n - 2]) as u32)]
        } else {
            Seq::empty()
        };
        if n - 1 > 0 {
            lemma_carries_one(RowV::HunkHeader(hunk_end(hunks[n - 2]) as u32), k);
        }
        lemma_carries_concat(gap, hunk_body(fi, h, true), k);
        lemma_carries_concat(gap, hunk_body(fi, h, false), k);
        lemma_carries_concat(hunks_rows(fi, hunks, n - 1, true), hunk_rows(fi, hunks, n - 1, true), k);
        lemma_carries_concat(hunks_rows(fi, hunks, n - 1, false), hunk_rows(fi, hunks, n - 1, false), k);
    }
}

/// A plan laid out split carries exactly the keys of the same files laid
/// out stacked.
proof fn lemma_layouts_carry_alike(
    files: Seq<DiffFileV>,
    viewed: Seq<bool>,
    collapsed: Seq<Seq<char>>,
    banner: Seq<Seq<char>>,
    n: int,
    k: Key,
)
    requires
        0 <= n <= files.len(),
        files_wf(files),
    ensures
        carries(plan_upto(files, viewed, LayoutMode::Split, collapsed, banner, n).rows, k) == carries(
            plan_upto(files, viewed, LayoutMode::Stack, collapsed, banner, n).rows,
            k,
        ),
    decreases n,
{
    if n > 0 {
        lemma_layouts_carry_alike(files, viewed, collapsed, banner, n - 1, k);
        let sp = plan_upto(files, viewed, LayoutMode::Split, collapsed, banner, n - 1);
        let st = plan_upto(files, viewed, LayoutMode::Stack, collapsed, banner, n - 1);
        let fi = n - 1;
        let f = files[fi];
        let dir = spec_parent_dir(f.path);
        if collapsed.contains(dir) {
            if first_of_dir(files, fi) {
                let tail = seq![
                    RowV::CollapsedDir {
                        dir,
                        n: run_len(files, dir, fi) as usize,
                        reviewed: count_viewed(viewed, fi, run_len(files, dir, fi)) as usize,
                    },
                    RowV::Spacer,
                ];
                lemma_carries_concat(sp.rows, tail, k);
                lemma_carries_concat(st.rows, tail, k);
            }
        } else {
            let v = viewed_at(viewed, fi);
            let head = seq![RowV::FileHeader(fi as usize)];
            let bsp = file_body(fi as usize, f, v, true);
            let bst = file_body(fi as usize, f, v, false);
            assert(carries(bsp, k) == carries(bst, k)) by {
                if !v && f.diffed {
                    assert forall|h: int, j: int| 0 <= h < f.hunks.len() && 0 <= j < f.hunks[h].lines.len()
                        implies line_wf(#[trigger] f.hunks[h].lines[j]) by {
                        assert(line_wf(files[fi].hunks[h].lines[j]));
                    }
                    let sp_tail: Seq<RowV> = seq![RowV::Spacer];
                    lemma_carries_one(RowV::Spacer, k);
                    if f.is_binary {
                        assert(files[fi].is_binary);
                        assert(f.hunks.len() == 0);
                        assert(bsp == sp_tail);
                        assert(hunks_rows(fi as usize, f.hunks, 0, false).len() == 0);
                        assert(bst =~= seq![crate::rows::binary_note(fi as usize)] + sp_tail);
                        lemma_carries_concat(seq![crate::rows::binary_note(fi as usize)], sp_tail, k);
                        lemma_carries_one(crate::rows::binary_note(fi as usize), k);
                    } else {
                        let hsp = hunks_rows(fi as usize, f.hunks, f.hunks.len() as int, true);
                        let hst = hunks_rows(fi as usize, f.hunks, f.hunks.len() as int, false);
                        lemma_hunks_carries(fi as usize, f.hunks, f.hunks.len() as int, k);
                        assert(bsp =~= hsp + sp_tail);
                        assert(bst =~= hst + sp_tail);
                        lemma_carries_concat(hsp, sp_tail, k);
                        lemma_carries_concat(hst, sp_tail, k);
                    }
                } else {
                    assert(bsp == bst);
                }
            }
            lemma_carries_concat(sp.rows, head, k);
            lemma_carries_concat(st.rows, head, k);
            lemma_carries_concat(sp.rows + head, bsp, k);
            lemma_carries_concat(st.rows + head, bst, k);
        }
    }
}

/// The other layout.
pub open spec fn toggled(layout: LayoutMode) -> LayoutMode {
    match layout {
        LayoutMode::Stack => LayoutMode::Split,
        LayoutMode::Split => LayoutMode::Stack,
    }
}

/// Toggling the layout keeps the line cursor on the same change, both ways:
/// restoring a body row's capture into the same files laid out the other
/// way lands on a row carrying the key the row was captured by (its new
/// side when it has one, else its old). This holds whenever every line is
/// numbered only on its own side(s) and binary files carry no hunks.
pub proof fn law_layout_toggle_keeps_line(
    files: Seq<DiffFileV>,
    viewed: Seq<bool>,
    collapsed: Seq<Seq<char>>,
    banner: Seq<Seq<char>>,
    from: LayoutMode,
    row: usize,
)
    requires
        files_wf(files),
        row < spec_build(files, viewed, from, collapsed, banner).rows.len(),
        spec_cursor_key(spec_build(files, viewed, from, collapsed, banner), row as int) is Some,
    ensures
        ({
            let p = spec_build(files, viewed, from, collapsed, banner);
            let q = spec_build(files, viewed, toggled(from), collapsed, banner);
            let key = spec_cursor_key(p, row as int)->0;
            let back = spec_restore(q, spec_capture(p, row), files);
            &&& 0 <= back < q.rows.len()
            &&& row_has_key(q.rows[back], key)
        }),
{
    let p = spec_build(files, viewed, from, collapsed, banner);
    let q = spec_build(files, viewed, toggled(from), collapsed, banner);
    let key = spec_cursor_key(p, row as int)->0;
    assert(row_has_key(p.rows[row as int], key));
    assert(spec_dir_at(p, row as int) is None);
    assert(spec_capture(p, row) == AnchorV::Line(key));
    assert(carries(p.rows, key));
    lemma_layouts_carry_alike(files, viewed, collapsed, banner, files.len() as int, key);
    let j = choose|i: int| 0 <= i < q.rows.len() && #[trigger] row_has_key(q.rows[i], key);
    lemma_first_key_exists(q, key, j);
    lemma_find_key_bounds(q, key);
}

/// No row of `rows` is a folded directory's placeholder.
pub open spec fn no_dir_rows(rows: Seq<RowV>) -> bool {
    forall|i: int| 0 <= i < rows.len() ==> !(#[trigger] rows[i] is CollapsedDir)
}

proof fn lemma_no_dir_concat(a: Seq<RowV>, b: Seq<RowV>)
    requires
        no_dir_rows(a),
        no_dir_rows(b),
    ensures
        no_dir_rows(a + b),
{
    assert forall|i: int| 0 <= i < (a + b).len() implies !(#[trigger] (a + b)[i] is CollapsedDir) by {
        if i < a.len() {
            assert((a + b)[i] == a[i]);
        } else {
            assert((a + b)[i] == b[i - a.len()]);
        }
    }
}

proof fn lemma_split_rows_no_dir(fi: usize, lines: Seq<LineV>, rem: Seq<LineV>, add: Seq<LineV>)
    ensures
        no_dir_rows(split_rows(fi, lines, rem, add)),
    decreases lines.len(),
{
    if lines.len() > 0 {
        let l = lines[0];
        match l.kind {
            LineKind::Context => {
                lemma_split_rows_no_dir(fi, lines.drop_first(), Seq::empty(), Seq::empty());
                lemma_no_dir_concat(flush_rows(fi, rem, add), seq![ctx_pair(fi, l)]);
                lemma_no_dir_concat(
                    flush_rows(fi, rem, add) + seq![ctx_pair(fi, l)],
                    split_rows(fi, lines.drop_first(), Seq::empty(), Seq::empty()),
                );
            },
            LineKind::Removed => {
                lemma_split_rows_no_dir(fi, lines.drop_first(), rem.push(l), add);
            },
            LineKind::Added => {
                lemma_split_rows_no_dir(fi, lines.drop_first(), rem, add.push(l));
            },
        }
    }
}

proof fn lemma_hunks_rows_no_dir(fi: usize, hunks: Seq<HunkV>, k: int, split: bool)
    requires
        0 <= k <= hunks.len(),
    ensures
        no_dir_rows(hunks_rows(fi, hunks, k, split)),
    decreases k,
{
    if k > 0 {
        lemma_hunks_rows_no_dir(fi, hunks, k - 1, split);
        let h = hunks[k - 1];
        if split {
            lemma_split_rows_no_dir(fi, h.lines, Seq::empty(), Seq::empty());
        }
        let gap: Seq<RowV> = if k - 1 > 0 {
            seq![RowV::HunkHeader(hunk_end(hunks[k - 2]) as u32)]
        } else {
            Seq::empty()
        };
        lemma_no_dir_concat(gap, hunk_body(fi, h, split));
        lemma_no_dir_concat(hunks_rows(fi, hunks, k - 1, split), hunk_rows(fi, hunks, k - 1, split));
    }
}

/// A visible file's header and body hold no folded directory's placeholder.
proof fn lemma_file_rows_no_dir(fi: usize, f: DiffFileV, viewed: bool, split: bool)
    ensures
        no_dir_rows(seq![RowV::FileHeader(fi)] + file_body(fi, f, viewed, split)),
{
    let b = file_body(fi, f, viewed, split);
    if !viewed && f.diffed && !(f.is_binary && split) {
        lemma_hunks_rows_no_dir(fi, f.hunks, f.hunks.len() as int, split);
        lemma_no_dir_concat(note_rows(fi, f), hunks_rows(fi, f.hunks, f.hunks.len() as int, split));
        lemma_no_dir_concat(
            note_rows(fi, f) + hunks_rows(fi, f.hunks, f.hunks.len() as int, split),
            seq![RowV::Spacer],
        );
    }
    lemma_no_dir_concat(seq![RowV::FileHeader(fi)], b);
}

/// Files that share a parent directory sit next to each other.
#[verifier::opaque]
pub open spec fn grouped_by_dir(files: Seq<DiffFileV>) -> bool {
    forall|i: int, j: int, k: int|
        0 <= i < j < k < files.len() && spec_parent_dir(#[trigger] files[i].path) == spec_parent_dir(
            #[trigger] files[k].path,
        ) ==> spec_parent_dir(#[trigger] files[j].path) == spec_parent_dir(files[i].path)
}

/// What a plan laid out over the first `k` files shows of them: the
/// visible files are exactly those whose directory is not folded, in
/// order; each has its header at its start row; a reviewed file shows one
/// placeholder and a spacer, and a file whose diff has not arrived one
/// pending row and a spacer.
pub open spec fn files_laid_out(
    files: Seq<DiffFileV>,
    viewed: Seq<bool>,
    collapsed: Seq<Seq<char>>,
    p: PlanV,
    k: int,
) -> bool {
    &&& p.visible_files.len() == p.file_starts.len()
    &&& sorted_strict(p.visible_files)
    &&& forall|m: int| 0 <= m < p.visible_files.len() ==> #[trigger] p.visible_files[m] < k
    &&& forall|i: int|
        0 <= i < k ==> (p.visible_files.contains(i as usize) <==> !collapsed.contains(
            spec_parent_dir(#[trigger] files[i].path),
        ))
    &&& forall|m: int|
        0 <= m < p.file_starts.len() ==> {
            let h = #[trigger] p.file_starts[m] as int;
            let fi = p.visible_files[m] as int;
            &&& h < p.rows.len()
            &&& p.rows[h] == RowV::FileHeader(fi as usize)
            &&& viewed_at(viewed, fi) ==> h + 2 < p.rows.len() && p.rows[h + 1] == RowV::Collapsed(
                files[fi].hunks.len() as usize,
            ) && p.rows[h + 2] == RowV::Spacer
            &&& !viewed_at(viewed, fi) && !files[fi].diffed ==> h + 2 < p.rows.len() && p.rows[h + 1]
                == RowV::Pending && p.rows[h + 2] == RowV::Spacer
        }
}

proof fn lemma_files_laid_out(
    files: Seq<DiffFileV>,
    viewed: Seq<bool>,
    layout: LayoutMode,
    collapsed: Seq<Seq<char>>,
    banner: Seq<Seq<char>>,
    k: int,
)
    requires
        0 <= k <= files.len(),
        files.len() <= usize::MAX,
        plan_upto(files, viewed, layout, collapsed, banner, k).rows.len() <= usize::MAX,
    ensures
        files_laid_out(files, viewed, collapsed, plan_upto(files, viewed, layout, collapsed, banner, k), k),
    decreases k,
{
    lemma_plan_starts(files, viewed, layout, collapsed, banner, k);
    let cur = plan_upto(files, viewed, layout, collapsed, banner, k);
    if k > 0 {
        let prev = plan_upto(files, viewed, layout, collapsed, banner, k - 1);
        assert(prev.rows.len() <= cur.rows.len());
        lemma_files_laid_out(files, viewed, layout, collapsed, banner, k - 1);
        let fi = k - 1;
        let f = files[fi];
        let dir = spec_parent_dir(f.path);
        let split = layout == LayoutMode::Split;
        let len0 = prev.rows.len() as int;
        if collapsed.contains(dir) {
            assert(cur.file_starts == prev.file_starts);
            assert(cur.visible_files == prev.visible_files);
            assert forall|m: int| 0 <= m < cur.file_starts.len() implies {
                let h = #[trigger] cur.file_starts[m] as int;
                let fj = cur.visible_files[m] as int;
                &&& h < cur.rows.len()
                &&& cur.rows[h] == RowV::FileHeader(fj as usize)
                &&& viewed_at(viewed, fj) ==> h + 2 < cur.rows.len() && cur.rows[h + 1] == RowV::Collapsed(
                    files[fj].hunks.len() as usize,
                ) && cur.rows[h + 2] == RowV::Spacer
                &&& !viewed_at(viewed, fj) && !files[fj].diffed ==> h + 2 < cur.rows.len() && cur.rows[h + 1]
                    == RowV::Pending && cur.rows[h + 2] == RowV::Spacer
            } by {
                let h = prev.file_starts[m] as int;
                assert(cur.rows[h] == prev.rows[h]);
                if h + 2 < len0 {
                    assert(cur.rows[h + 1] == prev.rows[h + 1]);
                    assert(cur.rows[h + 2] == prev.rows[h + 2]);
                }
            }
            assert forall|i: int| 0 <= i < k implies (cur.visible_files.contains(i as usize) <==> !collapsed.contains(
                spec_parent_dir(#[trigger] files[i].path),
            )) by {
                if i == fi {
                    if cur.visible_files.contains(i as usize) {
                        let m = choose|m: int| 0 <= m < cur.visible_files.len() && cur.visible_files[m] == i as usize;
                        assert(prev.visible_files[m] < k - 1);
                    }
                }
            }
        } else {
            let v = viewed_at(viewed, fi);
            let body = file_body(fi as usize, f, v, split);
            assert(cur.rows =~= prev.rows + seq![RowV::FileHeader(fi as usize)] + body);
            assert(cur.file_starts == prev.file_starts.push(len0 as usize));
            assert(cur.visible_files == prev.visible_files.push(fi as usize));
            assert forall|m: int| 0 <= m < cur.file_starts.len() implies {
                let h = #[trigger] cur.file_starts[m] as int;
                let fj = cur.visible_files[m] as int;
                &&& h < cur.rows.len()
                &&& cur.rows[h] == RowV::FileHeader(fj as usize)
                &&& viewed_at(viewed, fj) ==> h + 2 < cur.rows.len() && cur.rows[h + 1] == RowV::Collapsed(
                    files[fj].hunks.len() as usize,
                ) && cur.rows[h + 2] == RowV::Spacer
                &&& !viewed_at(viewed, fj) && !files[fj].diffed ==> h + 2 < cur.rows.len() && cur.rows[h + 1]
                    == RowV::Pending && cur.rows[h + 2] == RowV::Spacer
            } by {
                if m < prev.file_starts.len() {
                    let h = prev.file_starts[m] as int;
                    assert(cur.rows[h] == prev.rows[h]);
                    if h + 2 < len0 {
                        assert(cur.rows[h + 1] == prev.rows[h + 1]);
                        assert(cur.rows[h + 2] == prev.rows[h + 2]);
                    }
                } else {
                    assert(cur.rows[len0] == RowV::FileHeader(fi as usize));
                    if v || !f.diffed {
                        assert(cur.rows[len0 + 1] == body[0]);
                        assert(cur.rows[len0 + 2] == body[1]);
                    }
                }
            }
            assert forall|m: int| 0 <= m < cur.visible_files.len() implies #[trigger] cur.visible_files[m] < k by {
                if m < prev.visible_files.len() {
                    assert(cur.visible_files[m] == prev.visible_files[m]);
                }
            }
            assert forall|a: int, b: int| 0 <= a < b < cur.visible_files.len() implies cur.visible_files[a]
                < cur.visible_files[b] by {
                assert(cur.visible_files[a] == prev.visible_files[a]);
                if b < prev.visible_files.len() {
                    assert(cur.visible_files[b] == prev.visible_files[b]);
                }
            }
            assert forall|i: int| 0 <= i < k implies (cur.visible_files.contains(i as usize) <==> !collapsed.contains(
                spec_parent_dir(#[trigger] files[i].path),
            )) by {
                if i == fi {
                    assert(cur.visible_files[cur.visible_files.len() - 1] == i as usize);
                } else {
                    if cur.visible_files.contains(i as usize) {
                        let m = choose|m: int| 0 <= m < cur.visible_files.len() && cur.visible_files[m] == i as usize;
                        if m < prev.visible_files.len() {
                            assert(prev.visible_files[m] == i as usize);
                        }
                    }
                    if prev.visible_files.contains(i as usize) {
                        let m = choose|m: int| 0 <= m < prev.visible_files.len() && prev.visible_files[m] == i as usize;
                        assert(cur.visible_files[m] == i as usize);
                    }
                }
            }
        }
    }
}

/// What a plan laid out over the first `k` files shows of directory `d`:
/// once its first file is laid out and `d` is folded, one placeholder
/// counting the run of files from that first one and how many of them are
/// reviewed, followed by a spacer, and no other placeholder for `d`;
/// otherwise no placeholder for `d` at all.
pub open spec fn folded_once(
    files: Seq<DiffFileV>,
    viewed: Seq<bool>,
    collapsed: Seq<Seq<char>>,
    p: PlanV,
    k: int,
    d: Seq<char>,
) -> bool {
    let first = spec_first_in_dir(files, d);
    if collapsed.contains(d) && first is Some && first->0 < k {
        let f = first->0;
        let n = run_len(files, d, f);
        exists|r: int|
            #![trigger p.rows[r]]
            0 <= r && r + 1 < p.rows.len() && p.rows[r] == (RowV::CollapsedDir {
                dir: d,
                n: n as usize,
                reviewed: count_viewed(viewed, f, n) as usize,
            }) && p.rows[r + 1] == RowV::Spacer && forall|j: int|
                0 <= j < p.rows.len() && is_dir_row(#[trigger] p.rows[j], d) ==> j == r
    } else {
        forall|j: int| 0 <= j < p.rows.len() ==> !is_dir_row(#[trigger] p.rows[j], d)
    }
}

proof fn lemma_banner_no_dir(banner: Seq<Seq<char>>)
    ensures
        no_dir_rows(crate::rows::banner_rows(banner)),
{
    let b = crate::rows::banner_rows(banner);
    assert forall|i: int| 0 <= i < b.len() implies !(#[trigger] b[i] is CollapsedDir) by {
        if i < banner.len() {
            assert(b[i] == RowV::Banner(banner[i]));
        } else {
            assert(b[i] == RowV::Spacer);
        }
    }
}

/// A directory's first file is the first one in it: none before it is.
proof fn lemma_first_is_first(files: Seq<DiffFileV>, d: Seq<char>)
    ensures
        spec_first_in_dir(files, d) matches Some(i) ==> 0 <= i < files.len() && spec_parent_dir(files[i].path)
            == d && forall|j: int| 0 <= j < i ==> spec_parent_dir(#[trigger] files[j].path) != d,
{
    if exists|i: int| 0 <= i < files.len() && spec_parent_dir(#[trigger] files[i].path) == d {
        let k = choose|i: int| 0 <= i < files.len() && spec_parent_dir(#[trigger] files[i].path) == d;
        crate::rows::lemma_first_in_dir_exists(files, d, k);
    }
}

/// Rows appended with no placeholder for `d` keep what the plan shows of
/// `d`, unless the file laid out is the first of a folded `d`.
proof fn lemma_folded_extend(
    files: Seq<DiffFileV>,
    viewed: Seq<bool>,
    collapsed: Seq<Seq<char>>,
    prev: PlanV,
    cur: PlanV,
    k: int,
    d: Seq<char>,
    tail: Seq<RowV>,
)
    requires
        cur.rows == prev.rows + tail,
        forall|j: int| 0 <= j < tail.len() ==> !is_dir_row(#[trigger] tail[j], d),
        folded_once(files, viewed, collapsed, prev, k - 1, d),
        !(collapsed.contains(d) && spec_first_in_dir(files, d) == Some(k - 1)),
    ensures
        folded_once(files, viewed, collapsed, cur, k, d),
{
    let first = spec_first_in_dir(files, d);
    let len0 = prev.rows.len() as int;
    let now = collapsed.contains(d) && first is Some && first->0 < k;
    if now {
        let r = choose|r: int|
            #![trigger prev.rows[r]]
            0 <= r && r + 1 < prev.rows.len() && prev.rows[r] == (RowV::CollapsedDir {
                dir: d,
                n: run_len(files, d, first->0) as usize,
                reviewed: count_viewed(viewed, first->0, run_len(files, d, first->0)) as usize,
            }) && prev.rows[r + 1] == RowV::Spacer && forall|j: int|
                0 <= j < prev.rows.len() && is_dir_row(#[trigger] prev.rows[j], d) ==> j == r;
        assert(cur.rows[r] == prev.rows[r]);
        assert(cur.rows[r + 1] == prev.rows[r + 1]);
        assert forall|j: int| 0 <= j < cur.rows.len() && is_dir_row(#[trigger] cur.rows[j], d) implies j == r by {
            if j < len0 {
                assert(cur.rows[j] == prev.rows[j]);
            } else {
                assert(cur.rows[j] == tail[j - len0]);
            }
        }
    } else {
        assert forall|j: int| 0 <= j < cur.rows.len() implies !is_dir_row(#[trigger] cur.rows[j], d) by {
            if j < len0 {
                assert(cur.rows[j] == prev.rows[j]);
            } else {
                assert(cur.rows[j] == tail[j - len0]);
            }
        }
    }
}

/// Laying out the first file of a folded `d` adds its one placeholder.
proof fn lemma_folded_first(
    files: Seq<DiffFileV>,
    viewed: Seq<bool>,
    collapsed: Seq<Seq<char>>,
    prev: PlanV,
    cur: PlanV,
    k: int,
    d: Seq<char>,
)
    requires
        1 <= k <= files.len(),
        collapsed.contains(d),
        spec_first_in_dir(files, d) == Some(k - 1),
        cur.rows == prev.rows + seq![
            RowV::CollapsedDir {
                dir: d,
                n: run_len(files, d, k - 1) as usize,
                reviewed: count_viewed(viewed, k - 1, run_len(files, d, k - 1)) as usize,
            },
            RowV::Spacer,
        ],
        folded_once(files, viewed, collapsed, prev, k - 1, d),
    ensures
        folded_once(files, viewed, collapsed, cur, k, d),
{
    let len0 = prev.rows.len() as int;
    assert(cur.rows[len0] == prev.rows.add(seq![
        RowV::CollapsedDir {
            dir: d,
            n: run_len(files, d, k - 1) as usize,
            reviewed: count_viewed(viewed, k - 1, run_len(files, d, k - 1)) as usize,
        },
        RowV::Spacer,
    ])[len0]);
    assert forall|j: int| 0 <= j < cur.rows.len() && is_dir_row(#[trigger] cur.rows[j], d) implies j == len0 by {
        if j < len0 {
            assert(cur.rows[j] == prev.rows[j]);
        }
    }
}

/// In files grouped by directory, a file that starts a run of its
/// directory is that directory's first file.
proof fn lemma_run_starts_dir(files: Seq<DiffFileV>, fi: int)
    requires
        0 <= fi < files.len(),
        grouped_by_dir(files),
        first_of_dir(files, fi),
    ensures
        spec_first_in_dir(files, spec_parent_dir(files[fi].path)) == Some(fi),
{
    reveal(grouped_by_dir);
    let dd = spec_parent_dir(files[fi].path);
    assert forall|j: int| 0 <= j < fi implies spec_parent_dir(#[trigger] files[j].path) != dd by {
        if spec_parent_dir(files[j].path) == dd && j < fi - 1 {
            assert(spec_parent_dir(files[fi - 1].path) == spec_parent_dir(files[j].path));
        }
    }
    lemma_first_in_dir_is(files, dd, fi);
}

proof fn lemma_folded_once(
    files: Seq<DiffFileV>,
    viewed: Seq<bool>,
    layout: LayoutMode,
    collapsed: Seq<Seq<char>>,
    banner: Seq<Seq<char>>,
    k: int,
    d: Seq<char>,
)
    requires
        0 <= k <= files.len(),
        grouped_by_dir(files),
    ensures
        folded_once(files, viewed, collapsed, plan_upto(files, viewed, layout, collapsed, banner, k), k, d),
    decreases k,
{
    let cur = plan_upto(files, viewed, layout, collapsed, banner, k);
    let first = spec_first_in_dir(files, d);
    lemma_first_is_first(files, d);
    if k == 0 {
        lemma_banner_no_dir(banner);
        assert forall|j: int| 0 <= j < cur.rows.len() implies !is_dir_row(#[trigger] cur.rows[j], d) by {
            assert(!(cur.rows[j] is CollapsedDir));
        }
    } else {
        let prev = plan_upto(files, viewed, layout, collapsed, banner, k - 1);
        lemma_folded_once(files, viewed, layout, collapsed, banner, k - 1, d);
        let fi = k - 1;
        let f = files[fi];
        let dd = spec_parent_dir(f.path);
        let split = layout == LayoutMode::Split;
        if collapsed.contains(dd) && first_of_dir(files, fi) {
            let n = run_len(files, dd, fi);
            let row = RowV::CollapsedDir { dir: dd, n: n as usize, reviewed: count_viewed(viewed, fi, n) as usize };
            assert(cur.rows == prev.rows + seq![row, RowV::Spacer]);
            if d == dd {
                lemma_run_starts_dir(files, fi);
                lemma_folded_first(files, viewed, collapsed, prev, cur, k, d);
            } else {
                let tail = seq![row, RowV::Spacer];
                assert forall|j: int| 0 <= j < tail.len() implies !is_dir_row(#[trigger] tail[j], d) by {}
                lemma_folded_extend(files, viewed, collapsed, prev, cur, k, d, tail);
            }
        } else if collapsed.contains(dd) {
            assert(cur.rows == prev.rows + Seq::<RowV>::empty());
            if d == dd {
                assert(fi > 0 && spec_parent_dir(files[fi - 1].path) == dd);
            }
            lemma_folded_extend(files, viewed, collapsed, prev, cur, k, d, Seq::empty());
        } else {
            let v = viewed_at(viewed, fi);
            let tail = seq![RowV::FileHeader(fi as usize)] + file_body(fi as usize, f, v, split);
            lemma_file_rows_no_dir(fi as usize, f, v, split);
            assert(cur.rows == prev.rows + tail);
            assert forall|j: int| 0 <= j < tail.len() implies !is_dir_row(#[trigger] tail[j], d) by {
                assert(!(tail[j] is CollapsedDir));
            }
            lemma_folded_extend(files, viewed, collapsed, prev, cur, k, d, tail);
        }
    }
}

/// How many of the first `m` files lie directly in `d`.
pub open spec fn files_in(files: Seq<DiffFileV>, d: Seq<char>, m: int) -> int
    decreases m,
{
    if m <= 0 {
        0
    } else {
        files_in(files, d, m - 1) + if spec_parent_dir(files[m - 1].path) == d {
            1int
        } else {
            0
        }
    }
}

/// How many of the first `m` files lie directly in `d` and are reviewed.
pub open spec fn reviewed_in(files: Seq<DiffFileV>, viewed: Seq<bool>, d: Seq<char>, m: int) -> int
    decreases m,
{
    if m <= 0 {
        0
    } else {
        reviewed_in(files, viewed, d, m - 1) + if spec_parent_dir(files[m - 1].path) == d && viewed_at(
            viewed,
            m - 1,
        ) {
            1int
        } else {
            0
        }
    }
}

/// The run of files in `d` from `i` is where it says: all of them in `d`,
/// and the file after it (if any) elsewhere.
proof fn lemma_run_len_facts(files: Seq<DiffFileV>, d: Seq<char>, i: int)
    requires
        0 <= i <= files.len(),
    ensures
        0 <= run_len(files, d, i),
        i + run_len(files, d, i) <= files.len(),
        forall|j: int| i <= j < i + run_len(files, d, i) ==> spec_parent_dir(#[trigger] files[j].path) == d,
        i + run_len(files, d, i) < files.len() ==> spec_parent_dir(files[i + run_len(files, d, i)].path) != d,
    decreases files.len() - i,
{
    if i < files.len() && spec_parent_dir(files[i].path) == d {
        lemma_run_len_facts(files, d, i + 1);
    }
}

/// In files grouped by directory, the run from a directory's first file
/// holds every file in it: counting the files of `d` among the first `m`
/// counts the run so far.
proof fn lemma_run_counts_dir(files: Seq<DiffFileV>, viewed: Seq<bool>, d: Seq<char>, m: int)
    requires
        grouped_by_dir(files),
        spec_first_in_dir(files, d) is Some,
        0 <= m <= files.len(),
    ensures
        ({
            let f = spec_first_in_dir(files, d)->0;
            let r = run_len(files, d, f);
            let c = if m <= f {
                0
            } else if m <= f + r {
                m - f
            } else {
                r
            };
            &&& files_in(files, d, m) == c
            &&& reviewed_in(files, viewed, d, m) == count_viewed(viewed, f, c)
        }),
    decreases m,
{
    lemma_first_is_first(files, d);
    let f = spec_first_in_dir(files, d)->0;
    lemma_run_len_facts(files, d, f);
    let r = run_len(files, d, f);
    if m > 0 {
        lemma_run_counts_dir(files, viewed, d, m - 1);
        let j = m - 1;
        if j < f {
            assert(spec_parent_dir(files[j].path) != d);
        } else if j < f + r {
            assert(spec_parent_dir(files[j].path) == d);
        } else {
            if spec_parent_dir(files[j].path) == d {
                assert(spec_parent_dir(files[f].path) == d);
                if j > f + r {
                    reveal(grouped_by_dir);
                    assert(spec_parent_dir(files[f + r].path) == spec_parent_dir(files[f].path));
                }
            }
        }
    }
}

/// In files grouped by directory, each directory's run from its first file
/// counts all its files and all its reviewed files.
proof fn lemma_runs_count_dirs(files: Seq<DiffFileV>, viewed: Seq<bool>)
    requires
        grouped_by_dir(files),
    ensures
        forall|d: Seq<char>|
            #[trigger] spec_first_in_dir(files, d) matches Some(f) ==> run_len(files, d, f) == files_in(
                files,
                d,
                files.len() as int,
            ) && count_viewed(viewed, f, run_len(files, d, f)) == reviewed_in(files, viewed, d, files.len() as int),
{
    let n = files.len() as int;
    assert forall|d: Seq<char>|
        #[trigger] spec_first_in_dir(files, d) matches Some(f) ==> run_len(files, d, f) == files_in(files, d, n)
            && count_viewed(viewed, f, run_len(files, d, f)) == reviewed_in(files, viewed, d, n) by {
        if spec_first_in_dir(files, d) is Some {
            lemma_first_is_first(files, d);
            lemma_run_counts_dir(files, viewed, d, n);
            lemma_run_len_facts(files, d, spec_first_in_dir(files, d)->0);
        }
    }
}

/// What a built plan shows of its files, for every changeset: the visible
/// files are exactly those whose directory is not folded, in ascending
/// order, one per file start; the starts strictly increase and each holds
/// its file's header; each file's rows end at the first spacer after its
/// header; a reviewed file shows one placeholder (counting its
/// hunks) and then a spacer, and a file whose diff has not arrived one
/// pending row and then a spacer. When files sharing a directory sit
/// together, a folded directory with files has exactly one placeholder,
/// counting the run of its files from its first and how many of them are
/// reviewed, followed by a spacer, and any other directory has none; that
/// run is every file in the directory, so the placeholder counts them all.
pub proof fn law_plan_shows_files(
    files: Seq<DiffFileV>,
    viewed: Seq<bool>,
    layout: LayoutMode,
    collapsed: Seq<Seq<char>>,
    banner: Seq<Seq<char>>,
)
    requires
        files.len() <= usize::MAX,
        spec_build(files, viewed, layout, collapsed, banner).rows.len() <= usize::MAX,
    ensures
        ({
            let p = spec_build(files, viewed, layout, collapsed, banner);
            &&& starts_ok(p)
            &&& shaped(p, files.len() as int)
            &&& files_laid_out(files, viewed, collapsed, p, files.len() as int)
            &&& grouped_by_dir(files) ==> forall|d: Seq<char>|
                #[trigger] folded_once(files, viewed, collapsed, p, files.len() as int, d)
            &&& grouped_by_dir(files) ==> forall|d: Seq<char>|
                #[trigger] spec_first_in_dir(files, d) matches Some(f) ==> run_len(files, d, f) == files_in(
                    files,
                    d,
                    files.len() as int,
                ) && count_viewed(viewed, f, run_len(files, d, f)) == reviewed_in(
                    files,
                    viewed,
                    d,
                    files.len() as int,
                )
        }),
{
    let n = files.len() as int;
    let p = spec_build(files, viewed, layout, collapsed, banner);
    lemma_plan_starts(files, viewed, layout, collapsed, banner, n);
    lemma_plan_shaped(files, viewed, layout, collapsed, banner, n);
    lemma_files_laid_out(files, viewed, layout, collapsed, banner, n);
    if grouped_by_dir(files) {
        assert forall|d: Seq<char>| #[trigger] folded_once(files, viewed, collapsed, p, n, d) by {
            lemma_folded_once(files, viewed, layout, collapsed, banner, n, d);
        }
        lemma_runs_count_dirs(files, viewed);
    }
}

/// In files grouped by directory, no folded directory has two placeholders.
proof fn lemma_grouped_dirs_unique(
    files: Seq<DiffFileV>,
    viewed: Seq<bool>,
    layout: LayoutMode,
    collapsed: Seq<Seq<char>>,
    banner: Seq<Seq<char>>,
)
    requires
        grouped_by_dir(files),
    ensures
        dirs_unique(spec_build(files, viewed, layout, collapsed, banner)),
{
    let n = files.len() as int;
    let p = spec_build(files, viewed, layout, collapsed, banner);
    assert forall|i: int, j: int, d: Seq<char>|
        0 <= i < p.rows.len() && 0 <= j < p.rows.len() && #[trigger] is_dir_row(p.rows[i], d)
            && #[trigger] is_dir_row(p.rows[j], d) implies i == j by {
        lemma_folded_once(files, viewed, layout, collapsed, banner, n, d);
    }
}

/// No key is carried by two rows of `rows`.
pub open spec fn unique_keys(rows: Seq<RowV>) -> bool {
    forall|i: int, j: int, k: Key|
        0 <= i < rows.len() && 0 <= j < rows.len() && #[trigger] row_has_key(rows[i], k)
            && #[trigger] row_has_key(rows[j], k) ==> i == j
}

/// No key is carried both by a row of `a` and by a row of `b`.
pub open spec fn disjoint_keys(a: Seq<RowV>, b: Seq<RowV>) -> bool {
    forall|k: Key| #[trigger] carries(a, k) ==> !carries(b, k)
}

proof fn lemma_unique_concat(a: Seq<RowV>, b: Seq<RowV>)
    requires
        unique_keys(a),
        unique_keys(b),
        disjoint_keys(a, b),
    ensures
        unique_keys(a + b),
{
    let s = a + b;
    assert forall|i: int, j: int, k: Key|
        0 <= i < s.len() && 0 <= j < s.len() && #[trigger] row_has_key(s[i], k) && #[trigger] row_has_key(s[j], k)
            implies i == j by {
        if i < a.len() && j < a.len() {
            assert(s[i] == a[i] && s[j] == a[j]);
        } else if i >= a.len() && j >= a.len() {
            assert(s[i] == b[i - a.len()] && s[j] == b[j - a.len()]);
        } else if i < a.len() {
            assert(s[i] == a[i] && s[j] == b[j - a.len()]);
            assert(carries(a, k));
            assert(carries(b, k));
        } else {
            assert(s[j] == a[j] && s[i] == b[i - a.len()]);
            assert(carries(a, k));
            assert(carries(b, k));
        }
    }
}

proof fn lemma_unique_parts(a: Seq<RowV>, b: Seq<RowV>)
    requires
        unique_keys(a + b),
    ensures
        unique_keys(a),
        unique_keys(b),
        disjoint_keys(a, b),
{
    let s = a + b;
    assert forall|i: int, j: int, k: Key|
        0 <= i < a.len() && 0 <= j < a.len() && #[trigger] row_has_key(a[i], k) && #[trigger] row_has_key(a[j], k)
            implies i == j by {
        assert(s[i] == a[i] && s[j] == a[j]);
    }
    assert forall|i: int, j: int, k: Key|
        0 <= i < b.len() && 0 <= j < b.len() && #[trigger] row_has_key(b[i], k) && #[trigger] row_has_key(b[j], k)
            implies i == j by {
        assert(s[a.len() + i] == b[i] && s[a.len() + j] == b[j]);
    }
    assert forall|k: Key| #[trigger] carries(a, k) implies !carries(b, k) by {
        if carries(b, k) {
            let i = choose|i: int| 0 <= i < a.len() && #[trigger] row_has_key(a[i], k);
            let j = choose|j: int| 0 <= j < b.len() && #[trigger] row_has_key(b[j], k);
            assert(s[i] == a[i] && s[a.len() + j] == b[j]);
        }
    }
}

/// A single row, or rows carrying no key, repeat no key.
proof fn lemma_unique_one(r: RowV)
    ensures
        unique_keys(seq![r]),
{
}

/// The pairs of pending removals and insertions repeat no key when neither
/// the removals nor the insertions do.
proof fn lemma_flush_unique(fi: usize, rem: Seq<LineV>, add: Seq<LineV>)
    requires
        forall|i: int| 0 <= i < rem.len() ==> (#[trigger] rem[i]).kind == LineKind::Removed && line_wf(rem[i]),
        forall|i: int| 0 <= i < add.len() ==> (#[trigger] add[i]).kind == LineKind::Added && line_wf(add[i]),
        unique_keys(stack_rows(fi, rem)),
        unique_keys(stack_rows(fi, add)),
    ensures
        unique_keys(flush_rows(fi, rem, add)),
{
    let f = flush_rows(fi, rem, add);
    let sr = stack_rows(fi, rem);
    let sa = stack_rows(fi, add);
    assert forall|i: int, j: int, k: Key|
        0 <= i < f.len() && 0 <= j < f.len() && #[trigger] row_has_key(f[i], k) && #[trigger] row_has_key(f[j], k)
            implies i == j by {
        if k.1 == Side::Old {
            assert(i < rem.len() && j < rem.len());
            assert(sr[i] == line_row(fi, rem[i]) && sr[j] == line_row(fi, rem[j]));
            assert(row_has_key(sr[i], k) && row_has_key(sr[j], k));
        } else {
            assert(i < add.len() && j < add.len());
            assert(sa[i] == line_row(fi, add[i]) && sa[j] == line_row(fi, add[j]));
            assert(row_has_key(sa[i], k) && row_has_key(sa[j], k));
        }
    }
}

/// Stacked rows of a run that follows a line carry only keys of the whole run.
proof fn lemma_stack_tail_carries(fi: usize, lines: Seq<LineV>, k: Key)
    requires
        lines.len() > 0,
    ensures
        carries(stack_rows(fi, lines), k) == (row_has_key(line_row(fi, lines[0]), k) || carries(
            stack_rows(fi, lines.drop_first()),
            k,
        )),
{
    lemma_stack_rows_first(fi, lines);
    lemma_carries_concat(seq![line_row(fi, lines[0])], stack_rows(fi, lines.drop_first()), k);
    lemma_carries_one(line_row(fi, lines[0]), k);
}

/// The split rows of a run repeat no key when its lines, and the pending
/// removals and insertions, repeat none among them.
proof fn lemma_split_unique(fi: usize, lines: Seq<LineV>, rem: Seq<LineV>, add: Seq<LineV>)
    requires
        forall|i: int| 0 <= i < lines.len() ==> line_wf(#[trigger] lines[i]),
        forall|i: int| 0 <= i < rem.len() ==> (#[trigger] rem[i]).kind == LineKind::Removed && line_wf(rem[i]),
        forall|i: int| 0 <= i < add.len() ==> (#[trigger] add[i]).kind == LineKind::Added && line_wf(add[i]),
        unique_keys(stack_rows(fi, rem)),
        unique_keys(stack_rows(fi, add)),
        unique_keys(stack_rows(fi, lines)),
        disjoint_keys(stack_rows(fi, rem), stack_rows(fi, lines)),
        disjoint_keys(stack_rows(fi, add), stack_rows(fi, lines)),
    ensures
        unique_keys(split_rows(fi, lines, rem, add)),
    decreases lines.len(),
{
    if lines.len() == 0 {
        lemma_flush_unique(fi, rem, add);
    } else {
        let l = lines[0];
        let rest = lines.drop_first();
        let one = seq![line_row(fi, l)];
        lemma_stack_rows_first(fi, lines);
        lemma_unique_parts(one, stack_rows(fi, rest));
        assert forall|k: Key| #[trigger] carries(stack_rows(fi, rest), k) implies carries(stack_rows(fi, lines), k) by {
            lemma_stack_tail_carries(fi, lines, k);
        }
        assert forall|k: Key| row_has_key(line_row(fi, l), k) implies #[trigger] carries(stack_rows(fi, lines), k) by {
            lemma_stack_tail_carries(fi, lines, k);
        }
        assert(line_wf(l));
        match l.kind {
            LineKind::Context => {
                let e: Seq<LineV> = Seq::empty();
                assert(stack_rows(fi, e).len() == 0);
                lemma_split_unique(fi, rest, e, e);
                lemma_flush_unique(fi, rem, add);
                let fl = flush_rows(fi, rem, add);
                let cx = seq![ctx_pair(fi, l)];
                lemma_unique_one(ctx_pair(fi, l));
                assert forall|k: Key| #[trigger] carries(fl, k) implies !carries(cx, k) by {
                    lemma_flush_carries(fi, rem, add, k);
                    lemma_carries_one(ctx_pair(fi, l), k);
                    if carries(cx, k) {
                        assert(row_has_key(line_row(fi, l), k));
                        assert(carries(stack_rows(fi, lines), k));
                    }
                }
                lemma_unique_concat(fl, cx);
                let tl = split_rows(fi, rest, e, e);
                assert forall|k: Key| #[trigger] carries(fl + cx, k) implies !carries(tl, k) by {
                    lemma_carries_concat(fl, cx, k);
                    lemma_flush_carries(fi, rem, add, k);
                    lemma_carries_one(ctx_pair(fi, l), k);
                    lemma_split_carries(fi, rest, e, e, k);
                    if carries(tl, k) {
                        assert(carries(stack_rows(fi, rest), k));
                        assert(carries(stack_rows(fi, lines), k));
                        if carries(cx, k) {
                            assert(row_has_key(line_row(fi, l), k));
                            lemma_carries_one(line_row(fi, l), k);
                            assert(carries(one, k));
                        }
                    }
                }
                lemma_unique_concat(fl + cx, tl);
            },
            LineKind::Removed => {
                let rem2 = rem.push(l);
                lemma_stack_rows_push(fi, rem, l);
                assert forall|k: Key| #[trigger] carries(stack_rows(fi, rem), k) implies !carries(one, k) by {
                    lemma_carries_one(line_row(fi, l), k);
                }
                lemma_unique_concat(stack_rows(fi, rem), one);
                assert forall|k: Key| #[trigger] carries(stack_rows(fi, rem2), k) implies !carries(
                    stack_rows(fi, rest),
                    k,
                ) by {
                    lemma_carries_concat(stack_rows(fi, rem), one, k);
                }
                assert forall|k: Key| #[trigger] carries(stack_rows(fi, add), k) implies !carries(
                    stack_rows(fi, rest),
                    k,
                ) by {}
                lemma_split_unique(fi, rest, rem2, add);
            },
            LineKind::Added => {
                let add2 = add.push(l);
                lemma_stack_rows_push(fi, add, l);
                assert forall|k: Key| #[trigger] carries(stack_rows(fi, add), k) implies !carries(one, k) by {
                    lemma_carries_one(line_row(fi, l), k);
                }
                lemma_unique_concat(stack_rows(fi, add), one);
                assert forall|k: Key| #[trigger] carries(stack_rows(fi, add2), k) implies !carries(
                    stack_rows(fi, rest),
                    k,
                ) by {
                    lemma_carries_concat(stack_rows(fi, add), one, k);
                }
                assert forall|k: Key| #[trigger] carries(stack_rows(fi, rem), k) implies !carries(
                    stack_rows(fi, rest),
                    k,
                ) by {}
                lemma_split_unique(fi, rest, rem, add2);
            },
        }
    }
}

/// The lines of a file's first `n` hunks, in order.
pub open spec fn file_lines(hunks: Seq<HunkV>, n: int) -> Seq<LineV>
    decreases n,
{
    if n <= 0 {
        Seq::empty()
    } else {
        file_lines(hunks, n - 1) + hunks[n - 1].lines
    }
}

/// Within each file, no two lines share a number on the same side.
pub open spec fn numbered_once(files: Seq<DiffFileV>) -> bool {
    forall|fi: int, a: int, b: int|
        #![trigger file_lines(files[fi].hunks, files[fi].hunks.len() as int)[a], file_lines(
            files[fi].hunks,
            files[fi].hunks.len() as int,
        )[b]]
        0 <= fi < files.len() && 0 <= a < file_lines(files[fi].hunks, files[fi].hunks.len() as int).len() && 0
            <= b < file_lines(files[fi].hunks, files[fi].hunks.len() as int).len() && a != b ==> {
            let l = file_lines(files[fi].hunks, files[fi].hunks.len() as int)[a];
            let m = file_lines(files[fi].hunks, files[fi].hunks.len() as int)[b];
            &&& l.old is Some ==> l.old != m.old
            &&& l.new is Some ==> l.new != m.new
        }
}

proof fn lemma_stack_rows_concat(fi: usize, a: Seq<LineV>, b: Seq<LineV>)
    ensures
        stack_rows(fi, a + b) == stack_rows(fi, a) + stack_rows(fi, b),
{
    assert(stack_rows(fi, a + b) =~= stack_rows(fi, a) + stack_rows(fi, b));
}

/// Stacked rows of file `fi` carry only keys of file `fi`.
proof fn lemma_stack_keys_of(fi: usize, lines: Seq<LineV>, k: Key)
    ensures
        carries(stack_rows(fi, lines), k) ==> k.0 == fi,
{
    if carries(stack_rows(fi, lines), k) {
        let i = choose|i: int| 0 <= i < stack_rows(fi, lines).len() && #[trigger] row_has_key(stack_rows(fi, lines)[i], k);
        assert(stack_rows(fi, lines)[i] == line_row(fi, lines[i]));
    }
}

/// A file whose lines are numbered once per side has stacked rows that
/// repeat no key.
proof fn lemma_numbered_unique(files: Seq<DiffFileV>, fi: int)
    requires
        0 <= fi < files.len(),
        numbered_once(files),
    ensures
        unique_keys(stack_rows(fi as usize, file_lines(files[fi].hunks, files[fi].hunks.len() as int))),
{
    let ls = file_lines(files[fi].hunks, files[fi].hunks.len() as int);
    let s = stack_rows(fi as usize, ls);
    assert forall|i: int, j: int, k: Key|
        0 <= i < s.len() && 0 <= j < s.len() && #[trigger] row_has_key(s[i], k) && #[trigger] row_has_key(s[j], k)
            implies i == j by {
        assert(s[i] == line_row(fi as usize, ls[i]) && s[j] == line_row(fi as usize, ls[j]));
        if i != j {
            let l = ls[i];
            let m = ls[j];
            assert(l.old is Some ==> l.old != m.old);
            assert(m.old is Some ==> m.old != l.old);
            assert(l.new is Some ==> l.new != m.new);
        }
    }
}

/// A file's hunks repeat no key, in either layout, when its lines do not;
/// and they carry exactly the keys of its lines.
proof fn lemma_hunks_unique(fi: usize, hunks: Seq<HunkV>, n: int, split: bool)
    requires
        0 <= n <= hunks.len(),
        forall|h: int, j: int| 0 <= h < hunks.len() && 0 <= j < hunks[h].lines.len() ==> line_wf(#[trigger] hunks[h].lines[j]),
        unique_keys(stack_rows(fi, file_lines(hunks, n))),
    ensures
        unique_keys(hunks_rows(fi, hunks, n, split)),
        forall|k: Key| #[trigger] carries(hunks_rows(fi, hunks, n, split), k) == carries(
            stack_rows(fi, file_lines(hunks, n)),
            k,
        ),
    decreases n,
{
    if n > 0 {
        let h = hunks[n - 1];
        let a = stack_rows(fi, file_lines(hunks, n - 1));
        let b = stack_rows(fi, h.lines);
        lemma_stack_rows_concat(fi, file_lines(hunks, n - 1), h.lines);
        lemma_unique_parts(a, b);
        lemma_hunks_unique(fi, hunks, n - 1, split);
        let e: Seq<LineV> = Seq::empty();
        assert(stack_rows(fi, e).len() == 0);
        assert forall|j: int| 0 <= j < h.lines.len() implies line_wf(#[trigger] h.lines[j]) by {
            assert(line_wf(hunks[n - 1].lines[j]));
        }
        let body = hunk_body(fi, h, split);
        if split {
            lemma_split_unique(fi, h.lines, e, e);
        } else {
            assert(body == b);
        }
        assert forall|k: Key| #[trigger] carries(body, k) == carries(b, k) by {
            if split {
                lemma_split_carries(fi, h.lines, e, e, k);
            }
        }
        let gap: Seq<RowV> = if n - 1 > 0 {
            seq![RowV::HunkHeader(hunk_end(hunks[n - 2]) as u32)]
        } else {
            Seq::empty()
        };
        assert forall|k: Key| #[trigger] carries(gap, k) implies !carries(body, k) by {
            if n - 1 > 0 {
                lemma_carries_one(RowV::HunkHeader(hunk_end(hunks[n - 2]) as u32), k);
            }
        }
        assert(unique_keys(gap));
        lemma_unique_concat(gap, body);
        let prev = hunks_rows(fi, hunks, n - 1, split);
        let last = hunk_rows(fi, hunks, n - 1, split);
        assert(last == gap + body);
        assert forall|k: Key| #[trigger] carries(last, k) == carries(b, k) by {
            lemma_carries_concat(gap, body, k);
            if n - 1 > 0 {
                lemma_carries_one(RowV::HunkHeader(hunk_end(hunks[n - 2]) as u32), k);
            }
        }
        assert forall|k: Key| #[trigger] carries(prev, k) implies !carries(last, k) by {
            assert(carries(a, k));
        }
        lemma_unique_concat(prev, last);
        assert forall|k: Key| #[trigger] carries(hunks_rows(fi, hunks, n, split), k) == carries(
            stack_rows(fi, file_lines(hunks, n)),
            k,
        ) by {
            lemma_carries_concat(prev, last, k);
            lemma_carries_concat(a, b, k);
        }
    }
}

/// A laid-out file's header and body repeat no key when its lines do not,
/// and carry only keys of that file.
proof fn lemma_file_rows_unique(fi: usize, f: DiffFileV, viewed: bool, split: bool)
    requires
        forall|h: int, j: int| 0 <= h < f.hunks.len() && 0 <= j < f.hunks[h].lines.len() ==> line_wf(#[trigger] f.hunks[h].lines[j]),
        unique_keys(stack_rows(fi, file_lines(f.hunks, f.hunks.len() as int))),
    ensures
        unique_keys(seq![RowV::FileHeader(fi)] + file_body(fi, f, viewed, split)),
        forall|k: Key| #[trigger] carries(seq![RowV::FileHeader(fi)] + file_body(fi, f, viewed, split), k) ==> k.0 == fi,
{
    let head = seq![RowV::FileHeader(fi)];
    let body = file_body(fi, f, viewed, split);
    let sp: Seq<RowV> = seq![RowV::Spacer];
    assert forall|k: Key| !(#[trigger] carries(head, k)) by {
        lemma_carries_one(RowV::FileHeader(fi), k);
    }
    if !viewed && f.diffed && !(f.is_binary && split) {
        let n = f.hunks.len() as int;
        let hr = hunks_rows(fi, f.hunks, n, split);
        let note = note_rows(fi, f);
        lemma_hunks_unique(fi, f.hunks, n, split);
        assert forall|k: Key| !(#[trigger] carries(note, k)) by {
            if f.is_binary {
                lemma_carries_one(crate::rows::binary_note(fi), k);
            }
        }
        assert forall|k: Key| !(#[trigger] carries(sp, k)) by {
            lemma_carries_one(RowV::Spacer, k);
        }
        assert(unique_keys(note));
        lemma_unique_concat(note, hr);
        assert forall|k: Key| #[trigger] carries(note + hr, k) implies !carries(sp, k) by {}
        lemma_unique_concat(note + hr, sp);
        assert(body == note + hr + sp);
        assert forall|k: Key| #[trigger] carries(head, k) implies !carries(body, k) by {}
        lemma_unique_concat(head, body);
        assert forall|k: Key| #[trigger] carries(head + body, k) implies k.0 == fi by {
            lemma_carries_concat(head, body, k);
            lemma_carries_concat(note + hr, sp, k);
            lemma_carries_concat(note, hr, k);
            lemma_stack_keys_of(fi, file_lines(f.hunks, n), k);
        }
    } else {
        assert forall|i: int, k: Key| 0 <= i < (head + body).len() implies !(#[trigger] row_has_key(
            (head + body)[i],
            k,
        )) by {}
    }
}

/// Every plan laid out over a prefix of files whose lines are numbered once
/// per side repeats no key, and carries only keys of the files laid out.
proof fn lemma_plan_keys(
    files: Seq<DiffFileV>,
    viewed: Seq<bool>,
    layout: LayoutMode,
    collapsed: Seq<Seq<char>>,
    banner: Seq<Seq<char>>,
    k: int,
)
    requires
        0 <= k <= files.len(),
        files.len() <= usize::MAX,
        files_wf(files),
        numbered_once(files),
    ensures
        unique_keys(plan_upto(files, viewed, layout, collapsed, banner, k).rows),
        forall|key: Key| #[trigger] carries(plan_upto(files, viewed, layout, collapsed, banner, k).rows, key) ==> key.0
            < k,
    decreases k,
{
    let cur = plan_upto(files, viewed, layout, collapsed, banner, k);
    if k == 0 {
        let b = crate::rows::banner_rows(banner);
        assert forall|i: int, key: Key| 0 <= i < b.len() implies !(#[trigger] row_has_key(b[i], key)) by {
            if i < banner.len() {
                assert(b[i] == RowV::Banner(banner[i]));
            } else {
                assert(b[i] == RowV::Spacer);
            }
        }
    } else {
        let prev = plan_upto(files, viewed, layout, collapsed, banner, k - 1);
        lemma_plan_keys(files, viewed, layout, collapsed, banner, k - 1);
        let fi = k - 1;
        let f = files[fi];
        let dir = spec_parent_dir(f.path);
        let split = layout == LayoutMode::Split;
        let tail: Seq<RowV> = if collapsed.contains(dir) {
            if first_of_dir(files, fi) {
                seq![
                    RowV::CollapsedDir {
                        dir,
                        n: run_len(files, dir, fi) as usize,
                        reviewed: count_viewed(viewed, fi, run_len(files, dir, fi)) as usize,
                    },
                    RowV::Spacer,
                ]
            } else {
                Seq::empty()
            }
        } else {
            seq![RowV::FileHeader(fi as usize)] + file_body(fi as usize, f, viewed_at(viewed, fi), split)
        };
        assert(cur.rows =~= prev.rows + tail);
        if collapsed.contains(dir) {
            assert forall|i: int, key: Key| 0 <= i < tail.len() implies !(#[trigger] row_has_key(tail[i], key)) by {}
        } else {
            assert forall|h: int, j: int| 0 <= h < f.hunks.len() && 0 <= j < f.hunks[h].lines.len() implies line_wf(
                #[trigger] f.hunks[h].lines[j],
            ) by {
                assert(line_wf(files[fi].hunks[h].lines[j]));
            }
            lemma_numbered_unique(files, fi);
            lemma_file_rows_unique(fi as usize, f, viewed_at(viewed, fi), split);
        }
        assert forall|key: Key| #[trigger] carries(prev.rows, key) implies !carries(tail, key) by {
            if collapsed.contains(dir) {
                if carries(tail, key) {
                    let i = choose|i: int| 0 <= i < tail.len() && #[trigger] row_has_key(tail[i], key);
                    assert(!row_has_key(tail[i], key));
                }
            } else {
                let t2 = seq![RowV::FileHeader(fi as usize)] + file_body(fi as usize, f, viewed_at(viewed, fi), split);
                assert(tail == t2);
                assert forall|h: int, j: int| 0 <= h < f.hunks.len() && 0 <= j < f.hunks[h].lines.len() implies line_wf(
                    #[trigger] f.hunks[h].lines[j],
                ) by {
                    assert(line_wf(files[fi].hunks[h].lines[j]));
                }
                lemma_numbered_unique(files, fi);
                lemma_file_rows_unique(fi as usize, f, viewed_at(viewed, fi), split);
                assert(carries(t2, key) ==> key.0 == fi);
            }
        }
        lemma_unique_concat(prev.rows, tail);
        assert forall|key: Key| #[trigger] carries(cur.rows, key) implies key.0 < k by {
            lemma_carries_concat(prev.rows, tail, key);
        }
    }
}

/// When every line is numbered only on its own side(s) and, within each
/// file, no two lines share a number on the same side, no key appears on two
/// rows of a built plan, in either layout.
pub proof fn law_keys_unique(
    files: Seq<DiffFileV>,
    viewed: Seq<bool>,
    layout: LayoutMode,
    collapsed: Seq<Seq<char>>,
    banner: Seq<Seq<char>>,
)
    requires
        files.len() <= usize::MAX,
        files_wf(files),
        numbered_once(files),
    ensures
        keys_unique(spec_build(files, viewed, layout, collapsed, banner)),
{
    lemma_plan_keys(files, viewed, layout, collapsed, banner, files.len() as int);
}

} // verus!
