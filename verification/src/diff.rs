//! Line diffs of two texts, as hunks: the whole-file view of one text, and
//! the diff of two texts along a longest common subsequence of their lines,
//! with an adjustable amount of context around each change.

use vstd::prelude::*;

use crate::model::{Hunk, HunkV, Line, LineKind, LineV};
use crate::rows::GUTTER_W;
use crate::text::{lemma_lines_short, spec_lines, split_lines, str_eq, strs_v};

verus! {

/// The sizes a text's lines must fit: line numbers fit a `u32`, and a line's
/// width (gutter included) fits a `usize`.
pub open spec fn text_fits(t: Seq<char>) -> bool {
    t.len() < u32::MAX && t.len() + GUTTER_W <= usize::MAX
}

/// The hunks as mathematical values.
pub open spec fn hunks_v(v: Seq<Hunk>) -> Seq<HunkV> {
    v.map_values(|h: Hunk| h@)
}

/// A context line at old line `i + 1` and new line `j + 1`.
pub open spec fn ctx_line(text: Seq<char>, i: int, j: int) -> LineV {
    LineV {
        kind: LineKind::Context,
        old: Some((i + 1) as u32),
        new: Some((j + 1) as u32),
        text,
        emphasis: None,
    }
}

/// The whole of a text as one all-context hunk (no hunk for an empty text).
pub open spec fn spec_whole_file_hunks(t: Seq<char>) -> Seq<HunkV> {
    let ls = spec_lines(t);
    if ls.len() == 0 {
        Seq::empty()
    } else {
        seq![
            HunkV {
                old_start: 1,
                old_len: ls.len() as u32,
                new_start: 1,
                new_len: ls.len() as u32,
                lines: Seq::new(ls.len(), |i: int| ctx_line(ls[i], i, i)),
            },
        ]
    }
}

/// The whole of `content` as one all-context hunk, numbered from 1 on both
/// sides; an empty text has no hunk.
pub fn whole_file_hunks(content: &str) -> (hs: Vec<Hunk>)
    requires
        text_fits(content@),
    ensures
        hunks_v(hs@) == spec_whole_file_hunks(content@),
{
    let ls = split_lines(content);
    let ghost lv = strs_v(ls@);
    proof {
        lemma_lines_short(content@);
    }
    let n = ls.len();
    let mut hs: Vec<Hunk> = Vec::new();
    if n == 0 {
        assert(hunks_v(hs@) =~= spec_whole_file_hunks(content@));
        return hs;
    }
    let mut lines: Vec<Line> = Vec::new();
    let mut i: usize = 0;
    while i < n
        invariant
            i <= n,
            n == ls@.len(),
            lv == strs_v(ls@),
            n < u32::MAX,
            lines@.len() == i,
            forall|k: int| 0 <= k < i ==> (#[trigger] lines@[k])@ == ctx_line(lv[k], k, k),
        decreases n - i,
    {
        let no = (i + 1) as u32;
        lines.push(
            Line {
                kind: LineKind::Context,
                old_lineno: Some(no),
                new_lineno: Some(no),
                text: ls[i].clone(),
                emphasis: None,
            },
        );
        i = i + 1;
    }
    let h = Hunk { old_start: 1, old_len: n as u32, new_start: 1, new_len: n as u32, lines };
    assert(h@.lines =~= Seq::new(lv.len(), |k: int| ctx_line(lv[k], k, k)));
    hs.push(h);
    assert(hunks_v(hs@) =~= spec_whole_file_hunks(content@));
    hs
}

/// The length of the common prefix of `a` and `b`, counting from `i`.
pub open spec fn common_prefix(a: Seq<Seq<char>>, b: Seq<Seq<char>>, i: int) -> int
    decreases a.len() - i,
{
    if 0 <= i < a.len() && i < b.len() && a[i] == b[i] {
        common_prefix(a, b, i + 1)
    } else {
        i
    }
}

/// The length of the common suffix of `a` and `b` that stays clear of the
/// first `p` lines, counting from `k`.
pub open spec fn common_suffix(a: Seq<Seq<char>>, b: Seq<Seq<char>>, p: int, k: int) -> int
    decreases a.len() - k,
{
    if 0 <= k && 0 <= p && p + k < a.len() && p + k < b.len() && a[a.len() - 1 - k] == b[b.len() - 1 - k] {
        common_suffix(a, b, p, k + 1)
    } else {
        k
    }
}

/// The common prefix stays inside both sequences.
pub proof fn lemma_prefix_le(a: Seq<Seq<char>>, b: Seq<Seq<char>>, i: int)
    requires
        0 <= i <= a.len(),
        i <= b.len(),
    ensures
        i <= common_prefix(a, b, i) <= a.len(),
        common_prefix(a, b, i) <= b.len(),
    decreases a.len() - i,
{
    if i < a.len() && i < b.len() && a[i] == b[i] {
        lemma_prefix_le(a, b, i + 1);
    }
}

/// The common suffix stays clear of the prefix, inside both sequences.
pub proof fn lemma_suffix_le(a: Seq<Seq<char>>, b: Seq<Seq<char>>, p: int, k: int)
    requires
        0 <= p,
        0 <= k,
        p + k <= a.len(),
        p + k <= b.len(),
    ensures
        k <= common_suffix(a, b, p, k),
        p + common_suffix(a, b, p, k) <= a.len(),
        p + common_suffix(a, b, p, k) <= b.len(),
    decreases a.len() - k,
{
    if p + k < a.len() && p + k < b.len() && a[a.len() - 1 - k] == b[b.len() - 1 - k] {
        lemma_suffix_le(a, b, p, k + 1);
    }
}

/// One step of an edit script and the old and new line positions it
/// stands at: a kept line (`Context`: old line `i` is new line `j`), a
/// removed old line `i`, or an added new line `j`.
pub type EditStep = (LineKind, int, int);

/// How far `x` is below `e` (nothing when it is not).
pub open spec fn gap(x: int, e: int) -> int {
    if x < e {
        e - x
    } else {
        0
    }
}

/// The length of a longest common subsequence of `a[i..ea]` and `b[j..eb]`.
pub open spec fn lcs_len(a: Seq<Seq<char>>, b: Seq<Seq<char>>, i: int, j: int, ea: int, eb: int) -> int
    decreases gap(i, ea) + gap(j, eb),
{
    if i >= ea || j >= eb {
        0
    } else if a[i] == b[j] {
        1 + lcs_len(a, b, i + 1, j + 1, ea, eb)
    } else {
        let x = lcs_len(a, b, i + 1, j, ea, eb);
        let y = lcs_len(a, b, i, j + 1, ea, eb);
        if x >= y {
            x
        } else {
            y
        }
    }
}

/// The edit script taking `a[i..ea]` to `b[j..eb]` along a longest common
/// subsequence: a shared line is kept; otherwise the old line is removed
/// when that loses no common line, else the new line is added.
pub open spec fn lcs_steps(a: Seq<Seq<char>>, b: Seq<Seq<char>>, i: int, j: int, ea: int, eb: int) -> Seq<EditStep>
    decreases gap(i, ea) + gap(j, eb),
{
    if i >= ea && j >= eb {
        Seq::empty()
    } else if i >= ea {
        seq![(LineKind::Added, i, j)] + lcs_steps(a, b, i, j + 1, ea, eb)
    } else if j >= eb {
        seq![(LineKind::Removed, i, j)] + lcs_steps(a, b, i + 1, j, ea, eb)
    } else if a[i] == b[j] {
        seq![(LineKind::Context, i, j)] + lcs_steps(a, b, i + 1, j + 1, ea, eb)
    } else if lcs_len(a, b, i + 1, j, ea, eb) >= lcs_len(a, b, i, j + 1, ea, eb) {
        seq![(LineKind::Removed, i, j)] + lcs_steps(a, b, i + 1, j, ea, eb)
    } else {
        seq![(LineKind::Added, i, j)] + lcs_steps(a, b, i, j + 1, ea, eb)
    }
}

/// `n` kept lines from old line `i` and new line `j` on.
pub open spec fn keep_steps(i: int, j: int, n: int) -> Seq<EditStep> {
    Seq::new(n as nat, |k: int| (LineKind::Context, i + k, j + k))
}

/// The old lines `p..ea` removed, then the new lines `p..eb` added.
pub open spec fn block_steps(p: int, ea: int, eb: int) -> Seq<EditStep> {
    Seq::new((ea - p) as nat, |k: int| (LineKind::Removed, p + k, p)) + Seq::new(
        (eb - p) as nat,
        |k: int| (LineKind::Added, ea, p + k),
    )
}

/// The most cells the table of a longest common subsequence may have; a
/// larger changed middle is shown as one removed block and one added block.
pub const MAX_CELLS: usize = 4_000_000;

/// Whether the changed middle `p..ea` / `p..eb` is small enough for its
/// longest common subsequence to be computed.
pub open spec fn lcs_fits(p: int, ea: int, eb: int) -> bool {
    (ea - p + 1) * (eb - p + 1) <= MAX_CELLS
}

/// The edit script of `a` to `b`: the common prefix and suffix kept, and
/// the changed middle between them along a longest common subsequence
/// (as two blocks when it is too large for one).
pub open spec fn edit_script(a: Seq<Seq<char>>, b: Seq<Seq<char>>) -> Seq<EditStep> {
    let p = common_prefix(a, b, 0);
    let s = common_suffix(a, b, p, 0);
    let ea = a.len() - s;
    let eb = b.len() - s;
    keep_steps(0, 0, p) + (if lcs_fits(p, ea, eb) {
        lcs_steps(a, b, p, p, ea, eb)
    } else {
        block_steps(p, ea, eb)
    }) + keep_steps(ea, eb, s)
}

/// A step that removes or adds a line.
pub open spec fn is_change(st: EditStep) -> bool {
    st.0 != LineKind::Context
}

/// How many of the first `t` steps are changes.
pub open spec fn changes_before(s: Seq<EditStep>, t: int) -> int
    decreases t,
{
    if t <= 0 {
        0
    } else {
        changes_before(s, t - 1) + if is_change(s[t - 1]) {
            1int
        } else {
            0int
        }
    }
}

/// How many of the first `t` steps are of kind `k`.
pub open spec fn kind_before(s: Seq<EditStep>, k: LineKind, t: int) -> int
    decreases t,
{
    if t <= 0 {
        0
    } else {
        kind_before(s, k, t - 1) + if s[t - 1].0 == k {
            1int
        } else {
            0int
        }
    }
}

/// Whether step `t` is shown with `ctx` lines of context: some change lies
/// within `ctx` steps of it (the changes counted before the window's end
/// outnumber those before its start).
pub open spec fn shown(s: Seq<EditStep>, t: int, ctx: int) -> bool {
    let lo = if t - ctx > 0 {
        t - ctx
    } else {
        0
    };
    let hi = if t + ctx + 1 < s.len() {
        t + ctx + 1
    } else {
        s.len() as int
    };
    changes_before(s, hi) > changes_before(s, lo)
}

/// The diff line of a step.
pub open spec fn step_line(a: Seq<Seq<char>>, b: Seq<Seq<char>>, st: EditStep) -> LineV {
    match st.0 {
        LineKind::Context => ctx_line(a[st.1], st.1, st.2),
        LineKind::Removed => LineV {
            kind: LineKind::Removed,
            old: Some((st.1 + 1) as u32),
            new: None,
            text: a[st.1],
            emphasis: None,
        },
        LineKind::Added => LineV {
            kind: LineKind::Added,
            old: None,
            new: Some((st.2 + 1) as u32),
            text: b[st.2],
            emphasis: None,
        },
    }
}

/// The positions after a step.
pub open spec fn advance(st: EditStep) -> (int, int) {
    (
        st.1 + if st.0 == LineKind::Added {
            0int
        } else {
            1int
        },
        st.2 + if st.0 == LineKind::Removed {
            0int
        } else {
            1int
        },
    )
}

/// The hunk over steps `t..e`: the old and new lines they span, and their
/// lines.
pub open spec fn run_hunk(a: Seq<Seq<char>>, b: Seq<Seq<char>>, s: Seq<EditStep>, t: int, e: int) -> HunkV {
    let end = advance(s[e - 1]);
    HunkV {
        old_start: (s[t].1 + 1) as u32,
        old_len: (end.0 - s[t].1) as u32,
        new_start: (s[t].2 + 1) as u32,
        new_len: (end.1 - s[t].2) as u32,
        lines: Seq::new((e - t) as nat, |k: int| step_line(a, b, s[t + k])),
    }
}

/// The hunks of `s` from step `t` on, with `ctx` lines of context: each
/// maximal run of shown steps is one hunk (`start` is where the run under
/// way began, negative when none is).
pub open spec fn hunks_from(
    a: Seq<Seq<char>>,
    b: Seq<Seq<char>>,
    s: Seq<EditStep>,
    ctx: int,
    t: int,
    start: int,
) -> Seq<HunkV>
    decreases s.len() - t,
{
    if t >= s.len() {
        if start >= 0 {
            seq![run_hunk(a, b, s, start, s.len() as int)]
        } else {
            Seq::empty()
        }
    } else if shown(s, t, ctx) {
        hunks_from(a, b, s, ctx, t + 1, if start >= 0 { start } else { t })
    } else if start >= 0 {
        seq![run_hunk(a, b, s, start, t)] + hunks_from(a, b, s, ctx, t + 1, -1)
    } else {
        hunks_from(a, b, s, ctx, t + 1, -1)
    }
}

/// The diff of two line lists with `ctx` lines of context: the hunks of
/// their edit script, and how many lines it adds and removes.
pub open spec fn spec_diff(a: Seq<Seq<char>>, b: Seq<Seq<char>>, ctx: int) -> (Seq<HunkV>, int, int) {
    let s = edit_script(a, b);
    (
        hunks_from(a, b, s, ctx, 0, -1),
        kind_before(s, LineKind::Added, s.len() as int),
        kind_before(s, LineKind::Removed, s.len() as int),
    )
}

/// A step stays within `na` old and `nb` new lines, reading a line on each
/// side it has one.
pub open spec fn step_in(st: EditStep, na: int, nb: int) -> bool {
    &&& 0 <= st.1 <= na
    &&& 0 <= st.2 <= nb
    &&& st.0 != LineKind::Added ==> st.1 < na
    &&& st.0 != LineKind::Removed ==> st.2 < nb
}

/// Every step of `s` stays within `na` old and `nb` new lines.
pub open spec fn steps_in(s: Seq<EditStep>, na: int, nb: int) -> bool {
    forall|k: int| 0 <= k < s.len() ==> step_in(#[trigger] s[k], na, nb)
}

/// `s` walks from `(i, j)` to `(ei, ej)` one line at a time.
pub open spec fn walks(s: Seq<EditStep>, i: int, j: int, ei: int, ej: int) -> bool {
    &&& s.len() == 0 ==> i == ei && j == ej
    &&& s.len() > 0 ==> s[0].1 == i && s[0].2 == j && advance(s.last()) == (ei, ej)
    &&& forall|k: int| 0 <= k < s.len() - 1 ==> (#[trigger] s[k + 1]).1 == advance(s[k]).0 && s[k + 1].2 == advance(s[k]).1
}

/// Two walks, one after the other, are one walk.
pub proof fn lemma_walks_concat(s1: Seq<EditStep>, s2: Seq<EditStep>, i: int, j: int, x: int, y: int, ei: int, ej: int)
    requires
        walks(s1, i, j, x, y),
        walks(s2, x, y, ei, ej),
    ensures
        walks(s1 + s2, i, j, ei, ej),
{
    let s = s1 + s2;
    assert forall|k: int| 0 <= k < s.len() - 1 implies (#[trigger] s[k + 1]).1 == advance(s[k]).0 && s[k + 1].2
        == advance(s[k]).1 by {
        if k + 1 < s1.len() {
            assert(s[k + 1] == s1[k + 1] && s[k] == s1[k]);
        } else if k + 1 == s1.len() {
            assert(s[k] == s1.last());
            assert(s[k + 1] == s2[0]);
        } else {
            let kk = k - s1.len();
            assert(s[k + 1] == s2[kk + 1] && s[k] == s2[kk]);
        }
    }
    if s2.len() > 0 {
        assert(s.last() == s2.last());
    }
    if s1.len() == 0 {
        assert(s =~= s2);
    }
}

/// Kept lines walk from `(i, j)` to `(i + n, j + n)`.
pub proof fn lemma_keep_walks(i: int, j: int, n: int, na: int, nb: int)
    requires
        0 <= i,
        0 <= j,
        0 <= n,
        i + n <= na,
        j + n <= nb,
    ensures
        walks(keep_steps(i, j, n), i, j, i + n, j + n),
        steps_in(keep_steps(i, j, n), na, nb),
{
    let s = keep_steps(i, j, n);
    if n > 0 {
        assert(s.last() == s[n - 1]);
    }
}

/// Two blocks walk from `(p, p)` to `(ea, eb)`.
pub proof fn lemma_block_walks(p: int, ea: int, eb: int)
    requires
        0 <= p <= ea,
        p <= eb,
    ensures
        walks(block_steps(p, ea, eb), p, p, ea, eb),
        steps_in(block_steps(p, ea, eb), ea, eb),
{
    let r = Seq::new((ea - p) as nat, |k: int| (LineKind::Removed, p + k, p));
    let d = Seq::new((eb - p) as nat, |k: int| (LineKind::Added, ea, p + k));
    assert(walks(r, p, p, ea, p)) by {
        if r.len() > 0 {
            assert(r.last() == r[r.len() - 1]);
        }
    }
    assert(walks(d, ea, p, ea, eb)) by {
        if d.len() > 0 {
            assert(d.last() == d[d.len() - 1]);
        }
    }
    lemma_walks_concat(r, d, p, p, ea, p, ea, eb);
    assert(block_steps(p, ea, eb) == r + d);
    let s = r + d;
    assert forall|k: int| 0 <= k < s.len() implies step_in(#[trigger] s[k], ea, eb) by {
        if k < r.len() {
            assert(s[k] == r[k]);
        } else {
            assert(s[k] == d[k - r.len()]);
        }
    }
}

/// The script along a longest common subsequence walks from `(i, j)` to
/// `(ea, eb)`, reading only lines before them.
pub proof fn lemma_lcs_walks(a: Seq<Seq<char>>, b: Seq<Seq<char>>, i: int, j: int, ea: int, eb: int)
    requires
        0 <= i <= ea,
        0 <= j <= eb,
    ensures
        walks(lcs_steps(a, b, i, j, ea, eb), i, j, ea, eb),
        steps_in(lcs_steps(a, b, i, j, ea, eb), ea, eb),
    decreases gap(i, ea) + gap(j, eb),
{
    let s = lcs_steps(a, b, i, j, ea, eb);
    if i >= ea && j >= eb {
    } else {
        let (x, y) = if i >= ea {
            (i, j + 1)
        } else if j >= eb {
            (i + 1, j)
        } else if a[i] == b[j] {
            (i + 1, j + 1)
        } else if lcs_len(a, b, i + 1, j, ea, eb) >= lcs_len(a, b, i, j + 1, ea, eb) {
            (i + 1, j)
        } else {
            (i, j + 1)
        };
        lemma_lcs_walks(a, b, x, y, ea, eb);
        let head = seq![s[0]];
        let rest = lcs_steps(a, b, x, y, ea, eb);
        assert(s == head + rest);
        assert(walks(head, i, j, x, y));
        lemma_walks_concat(head, rest, i, j, x, y, ea, eb);
        assert forall|k: int| 0 <= k < s.len() implies step_in(#[trigger] s[k], ea, eb) by {
            if k > 0 {
                assert(s[k] == rest[k - 1]);
            }
        }
    }
}

/// Along a walk, positions never go back.
pub proof fn lemma_walk_mono(s: Seq<EditStep>, i: int, j: int, ei: int, ej: int, k1: int, k2: int)
    requires
        walks(s, i, j, ei, ej),
        0 <= k1 <= k2 < s.len(),
    ensures
        s[k1].1 <= s[k2].1,
        s[k1].2 <= s[k2].2,
        s[k2].1 <= advance(s[k2]).0,
        s[k2].2 <= advance(s[k2]).1,
    decreases k2 - k1,
{
    if k1 < k2 {
        lemma_walk_mono(s, i, j, ei, ej, k1, k2 - 1);
        assert(s[(k2 - 1) + 1] == s[k2]);
    }
}

/// The edit script walks over both line lists, reading only their lines.
pub proof fn lemma_script_walks(a: Seq<Seq<char>>, b: Seq<Seq<char>>)
    ensures
        walks(edit_script(a, b), 0, 0, a.len() as int, b.len() as int),
        steps_in(edit_script(a, b), a.len() as int, b.len() as int),
{
    lemma_prefix_le(a, b, 0);
    let p = common_prefix(a, b, 0);
    lemma_suffix_le(a, b, p, 0);
    let s = common_suffix(a, b, p, 0);
    let ea = a.len() - s;
    let eb = b.len() - s;
    let k1 = keep_steps(0, 0, p);
    let mid = if lcs_fits(p, ea, eb) {
        lcs_steps(a, b, p, p, ea, eb)
    } else {
        block_steps(p, ea, eb)
    };
    let k2 = keep_steps(ea, eb, s);
    lemma_keep_walks(0, 0, p, a.len() as int, b.len() as int);
    lemma_keep_walks(ea, eb, s, a.len() as int, b.len() as int);
    if lcs_fits(p, ea, eb) {
        lemma_lcs_walks(a, b, p, p, ea, eb);
    } else {
        lemma_block_walks(p, ea, eb);
    }
    lemma_walks_concat(k1, mid, 0, 0, p, p, ea, eb);
    lemma_walks_concat(k1 + mid, k2, 0, 0, ea, eb, a.len() as int, b.len() as int);
    let all = k1 + mid + k2;
    assert(edit_script(a, b) == all);
    assert forall|k: int| 0 <= k < all.len() implies step_in(#[trigger] all[k], a.len() as int, b.len() as int) by {
        if k < k1.len() {
            assert(all[k] == k1[k]);
        } else if k < k1.len() + mid.len() {
            assert(all[k] == mid[k - k1.len()]);
            assert(step_in(mid[k - k1.len()], ea, eb));
        } else {
            assert(all[k] == k2[k - k1.len() - mid.len()]);
        }
    }
}

/// A common subsequence is no longer than what is left of the old lines.
pub proof fn lemma_lcs_le(a: Seq<Seq<char>>, b: Seq<Seq<char>>, i: int, j: int, ea: int, eb: int)
    ensures
        0 <= lcs_len(a, b, i, j, ea, eb) <= gap(i, ea),
    decreases gap(i, ea) + gap(j, eb),
{
    if i >= ea || j >= eb {
    } else if a[i] == b[j] {
        lemma_lcs_le(a, b, i + 1, j + 1, ea, eb);
    } else {
        lemma_lcs_le(a, b, i + 1, j, ea, eb);
        lemma_lcs_le(a, b, i, j + 1, ea, eb);
    }
}

/// The hunk over a run of a walk's steps ends within the new lines, and its
/// lines are no longer than the longest line of either side.
pub proof fn lemma_run_hunk_fits(a: Seq<Seq<char>>, b: Seq<Seq<char>>, s: Seq<EditStep>, t: int, e: int, l: int)
    requires
        0 <= t < e <= s.len(),
        walks(s, 0, 0, a.len() as int, b.len() as int),
        steps_in(s, a.len() as int, b.len() as int),
        a.len() < u32::MAX,
        b.len() < u32::MAX,
        forall|x: int| 0 <= x < a.len() ==> (#[trigger] a[x]).len() <= l,
        forall|y: int| 0 <= y < b.len() ==> (#[trigger] b[y]).len() <= l,
    ensures
        crate::rows::hunk_end(run_hunk(a, b, s, t, e)) <= u32::MAX,
        forall|j: int|
            0 <= j < run_hunk(a, b, s, t, e).lines.len() ==> (#[trigger] run_hunk(a, b, s, t, e).lines[j]).text.len()
                <= l,
{
    let h = run_hunk(a, b, s, t, e);
    lemma_walk_mono(s, 0, 0, a.len() as int, b.len() as int, t, e - 1);
    assert(step_in(s[t], a.len() as int, b.len() as int));
    assert(step_in(s[e - 1], a.len() as int, b.len() as int));
    assert forall|j: int| 0 <= j < h.lines.len() implies (#[trigger] h.lines[j]).text.len() <= l by {
        assert(step_in(s[t + j], a.len() as int, b.len() as int));
        assert(h.lines[j] == step_line(a, b, s[t + j]));
    }
}

/// Every hunk of a walk's script ends within the new lines, and its lines
/// are no longer than the longest line of either side.
pub proof fn lemma_hunks_fit(
    a: Seq<Seq<char>>,
    b: Seq<Seq<char>>,
    s: Seq<EditStep>,
    ctx: int,
    t: int,
    start: int,
    l: int,
)
    requires
        0 <= t <= s.len(),
        -1 <= start < t,
        walks(s, 0, 0, a.len() as int, b.len() as int),
        steps_in(s, a.len() as int, b.len() as int),
        a.len() < u32::MAX,
        b.len() < u32::MAX,
        forall|x: int| 0 <= x < a.len() ==> (#[trigger] a[x]).len() <= l,
        forall|y: int| 0 <= y < b.len() ==> (#[trigger] b[y]).len() <= l,
    ensures
        forall|k: int|
            0 <= k < hunks_from(a, b, s, ctx, t, start).len() ==> crate::rows::hunk_end(
                #[trigger] hunks_from(a, b, s, ctx, t, start)[k],
            ) <= u32::MAX,
        forall|k: int, j: int|
            0 <= k < hunks_from(a, b, s, ctx, t, start).len() && 0 <= j < hunks_from(
                a,
                b,
                s,
                ctx,
                t,
                start,
            )[k].lines.len() ==> (#[trigger] hunks_from(a, b, s, ctx, t, start)[k].lines[j]).text.len() <= l,
    decreases s.len() - t,
{
    let hs = hunks_from(a, b, s, ctx, t, start);
    if t >= s.len() {
        if start >= 0 {
            lemma_run_hunk_fits(a, b, s, start, s.len() as int, l);
        }
    } else if shown(s, t, ctx) {
        let st = if start >= 0 {
            start
        } else {
            t
        };
        lemma_hunks_fit(a, b, s, ctx, t + 1, st, l);
    } else if start >= 0 {
        lemma_run_hunk_fits(a, b, s, start, t, l);
        lemma_hunks_fit(a, b, s, ctx, t + 1, -1, l);
        let rest = hunks_from(a, b, s, ctx, t + 1, -1);
        assert(hs == seq![run_hunk(a, b, s, start, t)] + rest);
        assert forall|k: int| 0 <= k < hs.len() implies crate::rows::hunk_end(#[trigger] hs[k]) <= u32::MAX by {
            if k > 0 {
                assert(hs[k] == rest[k - 1]);
            }
        }
        assert forall|k: int, j: int| 0 <= k < hs.len() && 0 <= j < hs[k].lines.len() implies (
        #[trigger] hs[k].lines[j]).text.len() <= l by {
            if k > 0 {
                assert(hs[k] == rest[k - 1]);
            }
        }
    } else {
        lemma_hunks_fit(a, b, s, ctx, t + 1, -1, l);
    }
}

/// Steps as mathematical values.
pub open spec fn steps_v(v: Seq<(LineKind, usize, usize)>) -> Seq<EditStep> {
    v.map_values(|x: (LineKind, usize, usize)| (x.0, x.1 as int, x.2 as int))
}

/// The table of longest common subsequences of the suffixes of `a[p..ea]`
/// and `b[p..eb]`, row `r` and column `q` holding the one from old line
/// `ea - r` and new line `eb - q`.
fn lcs_table(a: &Vec<String>, b: &Vec<String>, p: usize, ea: usize, eb: usize) -> (t: Vec<Vec<usize>>)
    requires
        p <= ea <= a@.len(),
        p <= eb <= b@.len(),
        a@.len() < u32::MAX,
        b@.len() < u32::MAX,
    ensures
        t@.len() == ea - p + 1,
        forall|r: int| 0 <= r <= ea - p ==> (#[trigger] t@[r])@.len() == eb - p + 1,
        forall|r: int, q: int|
            0 <= r <= ea - p && 0 <= q <= eb - p ==> (#[trigger] t@[r]@[q]) == lcs_len(
                strs_v(a@),
                strs_v(b@),
                ea - r,
                eb - q,
                ea as int,
                eb as int,
            ),
{
    let ghost av = strs_v(a@);
    let ghost bv = strs_v(b@);
    let w = eb - p + 1;
    let mut first: Vec<usize> = Vec::new();
    let mut q: usize = 0;
    while q < w
        invariant
            q <= w,
            w == eb - p + 1,
            first@.len() == q,
            forall|k: int| 0 <= k < q ==> (#[trigger] first@[k]) == lcs_len(av, bv, ea as int, eb - k, ea as int, eb as int),
        decreases w - q,
    {
        first.push(0);
        q = q + 1;
    }
    let mut rows: Vec<Vec<usize>> = Vec::new();
    rows.push(first);
    let mut r: usize = 1;
    while r <= ea - p
        invariant
            1 <= r <= ea - p + 1,
            a@.len() < u32::MAX,
            p <= ea <= a@.len(),
            p <= eb <= b@.len(),
            w == eb - p + 1,
            av == strs_v(a@),
            bv == strs_v(b@),
            rows@.len() == r,
            forall|x: int| 0 <= x < r ==> (#[trigger] rows@[x])@.len() == w,
            forall|x: int, k: int|
                0 <= x < r && 0 <= k < w ==> (#[trigger] rows@[x]@[k]) == lcs_len(
                    av,
                    bv,
                    ea - x,
                    eb - k,
                    ea as int,
                    eb as int,
                ),
        decreases ea - p + 1 - r,
    {
        let i = ea - r;
        let mut cur: Vec<usize> = Vec::new();
        let mut q: usize = 0;
        while q < w
            invariant
                q <= w,
                i == ea - r,
                1 <= r <= ea - p,
                p <= ea <= a@.len(),
                p <= eb <= b@.len(),
                w == eb - p + 1,
                av == strs_v(a@),
                bv == strs_v(b@),
                rows@.len() == r,
                forall|x: int| 0 <= x < r ==> (#[trigger] rows@[x])@.len() == w,
                forall|x: int, k: int|
                    0 <= x < r && 0 <= k < w ==> (#[trigger] rows@[x]@[k]) == lcs_len(
                        av,
                        bv,
                        ea - x,
                        eb - k,
                        ea as int,
                        eb as int,
                    ),
                cur@.len() == q,
                forall|k: int| 0 <= k < q ==> (#[trigger] cur@[k]) == lcs_len(av, bv, i as int, eb - k, ea as int, eb as int),
            decreases w - q,
        {
            let v = if q == 0 {
                0
            } else {
                let j = eb - q;
                if str_eq(a[i].as_str(), b[j].as_str()) {
                    proof {
                        lemma_lcs_le(av, bv, i + 1, j + 1, ea as int, eb as int);
                        assert(rows@[r - 1]@[q - 1] == lcs_len(av, bv, ea - (r - 1), eb - (q - 1), ea as int, eb as int));
                    }
                    rows[r - 1][q - 1] + 1
                } else {
                    proof {
                        assert(rows@[r - 1]@[q as int] == lcs_len(av, bv, ea - (r - 1), eb - q, ea as int, eb as int));
                        assert(cur@[q - 1] == lcs_len(av, bv, i as int, eb - (q - 1), ea as int, eb as int));
                    }
                    let x = rows[r - 1][q];
                    let y = cur[q - 1];
                    if x >= y {
                        x
                    } else {
                        y
                    }
                }
            };
            cur.push(v);
            q = q + 1;
        }
        rows.push(cur);
        r = r + 1;
    }
    rows
}

/// Append the steps along a longest common subsequence of `a[p..ea]` and
/// `b[p..eb]`, read from their table.
fn push_lcs_steps(
    a: &Vec<String>,
    b: &Vec<String>,
    t: &Vec<Vec<usize>>,
    p: usize,
    ea: usize,
    eb: usize,
    out: &mut Vec<(LineKind, usize, usize)>,
)
    requires
        p <= ea <= a@.len(),
        p <= eb <= b@.len(),
        t@.len() == ea - p + 1,
        forall|r: int| 0 <= r <= ea - p ==> (#[trigger] t@[r])@.len() == eb - p + 1,
        forall|r: int, q: int|
            0 <= r <= ea - p && 0 <= q <= eb - p ==> (#[trigger] t@[r]@[q]) == lcs_len(
                strs_v(a@),
                strs_v(b@),
                ea - r,
                eb - q,
                ea as int,
                eb as int,
            ),
    ensures
        steps_v(final(out)@) == steps_v(old(out)@) + lcs_steps(
            strs_v(a@),
            strs_v(b@),
            p as int,
            p as int,
            ea as int,
            eb as int,
        ),
{
    let ghost av = strs_v(a@);
    let ghost bv = strs_v(b@);
    let ghost goal = steps_v(old(out)@) + lcs_steps(av, bv, p as int, p as int, ea as int, eb as int);
    let mut i = p;
    let mut j = p;
    assert(steps_v(out@) + lcs_steps(av, bv, i as int, j as int, ea as int, eb as int) == goal);
    while i < ea || j < eb
        invariant
            p <= i <= ea,
            p <= j <= eb,
            p <= ea <= a@.len(),
            p <= eb <= b@.len(),
            av == strs_v(a@),
            bv == strs_v(b@),
            t@.len() == ea - p + 1,
            forall|r: int| 0 <= r <= ea - p ==> (#[trigger] t@[r])@.len() == eb - p + 1,
            forall|r: int, q: int|
                0 <= r <= ea - p && 0 <= q <= eb - p ==> (#[trigger] t@[r]@[q]) == lcs_len(
                    av,
                    bv,
                    ea - r,
                    eb - q,
                    ea as int,
                    eb as int,
                ),
            steps_v(out@) + lcs_steps(av, bv, i as int, j as int, ea as int, eb as int) == goal,
        decreases (ea - i) + (eb - j),
    {
        let ghost before = steps_v(out@);
        let ghost rest = lcs_steps(av, bv, i as int, j as int, ea as int, eb as int);
        let step = if i >= ea {
            (LineKind::Added, i, j)
        } else if j >= eb {
            (LineKind::Removed, i, j)
        } else if str_eq(a[i].as_str(), b[j].as_str()) {
            (LineKind::Context, i, j)
        } else {
            proof {
                assert(t@[ea - i - 1]@[eb - j] == lcs_len(av, bv, ea - (ea - i - 1), eb - (eb - j), ea as int, eb as int));
                assert(t@[ea - i]@[eb - j - 1] == lcs_len(av, bv, ea - (ea - i), eb - (eb - j - 1), ea as int, eb as int));
            }
            let down = t[ea - i - 1][eb - j];
            let right = t[ea - i][eb - j - 1];
            if down >= right {
                (LineKind::Removed, i, j)
            } else {
                (LineKind::Added, i, j)
            }
        };
        out.push(step);
        match step.0 {
            LineKind::Context => {
                i = i + 1;
                j = j + 1;
            },
            LineKind::Removed => {
                i = i + 1;
            },
            LineKind::Added => {
                j = j + 1;
            },
        }
        proof {
            let next = lcs_steps(av, bv, i as int, j as int, ea as int, eb as int);
            assert(rest == seq![(step.0, step.1 as int, step.2 as int)] + next);
            assert(steps_v(out@) =~= before.push((step.0, step.1 as int, step.2 as int)));
            assert(steps_v(out@) + next =~= before + rest);
        }
    }
    assert(lcs_steps(av, bv, i as int, j as int, ea as int, eb as int) =~= Seq::<EditStep>::empty());
    assert(steps_v(out@) =~= goal);
}

/// Append `n` kept lines from old line `i` and new line `j` on.
fn push_keeps(out: &mut Vec<(LineKind, usize, usize)>, i: usize, j: usize, n: usize)
    requires
        i + n <= usize::MAX,
        j + n <= usize::MAX,
    ensures
        steps_v(final(out)@) == steps_v(old(out)@) + keep_steps(i as int, j as int, n as int),
{
    let ghost start = steps_v(out@);
    let mut k: usize = 0;
    while k < n
        invariant
            k <= n,
            i + n <= usize::MAX,
            j + n <= usize::MAX,
            steps_v(out@) =~= start + keep_steps(i as int, j as int, k as int),
        decreases n - k,
    {
        let ghost before = steps_v(out@);
        out.push((LineKind::Context, i + k, j + k));
        assert(steps_v(out@) =~= before.push((LineKind::Context, (i + k) as int, (j + k) as int)));
        k = k + 1;
        assert(keep_steps(i as int, j as int, k as int) =~= keep_steps(i as int, j as int, k - 1).push(
            (LineKind::Context, i + k - 1, j + k - 1),
        ));
    }
}

/// Append the old lines `p..ea` removed, then the new lines `p..eb` added.
fn push_block(out: &mut Vec<(LineKind, usize, usize)>, p: usize, ea: usize, eb: usize)
    requires
        p <= ea,
        p <= eb,
    ensures
        steps_v(final(out)@) == steps_v(old(out)@) + block_steps(p as int, ea as int, eb as int),
{
    let ghost start = steps_v(out@);
    let ghost r = Seq::new((ea - p) as nat, |k: int| (LineKind::Removed, p + k, p as int));
    let ghost d = Seq::new((eb - p) as nat, |k: int| (LineKind::Added, ea as int, p + k));
    let mut i = p;
    while i < ea
        invariant
            p <= i <= ea,
            r == Seq::new((ea - p) as nat, |k: int| (LineKind::Removed, p + k, p as int)),
            steps_v(out@) =~= start + r.take(i - p),
        decreases ea - i,
    {
        let ghost before = steps_v(out@);
        out.push((LineKind::Removed, i, p));
        assert(steps_v(out@) =~= before.push((LineKind::Removed, i as int, p as int)));
        i = i + 1;
        assert(r.take(i - p) =~= r.take(i - p - 1).push(r[i - p - 1]));
    }
    assert(r.take(ea - p) =~= r);
    let mut j = p;
    while j < eb
        invariant
            p <= j <= eb,
            d == Seq::new((eb - p) as nat, |k: int| (LineKind::Added, ea as int, p + k)),
            steps_v(out@) =~= start + r + d.take(j - p),
        decreases eb - j,
    {
        let ghost before = steps_v(out@);
        out.push((LineKind::Added, ea, j));
        assert(steps_v(out@) =~= before.push((LineKind::Added, ea as int, j as int)));
        j = j + 1;
        assert(d.take(j - p) =~= d.take(j - p - 1).push(d[j - p - 1]));
    }
    assert(d.take(eb - p) =~= d);
    assert(block_steps(p as int, ea as int, eb as int) == r + d);
    assert(steps_v(out@) =~= start + (r + d));
}

/// The edit script of `a` to `b`, whose common prefix is `p` lines and
/// common suffix `s` lines.
fn build_script(a: &Vec<String>, b: &Vec<String>, p: usize, s: usize) -> (v: Vec<(LineKind, usize, usize)>)
    requires
        a@.len() < u32::MAX,
        b@.len() < u32::MAX,
        common_prefix(strs_v(a@), strs_v(b@), 0) == p,
        common_suffix(strs_v(a@), strs_v(b@), p as int, 0) == s,
        p + s <= a@.len(),
        p + s <= b@.len(),
    ensures
        steps_v(v@) == edit_script(strs_v(a@), strs_v(b@)),
{
    let ghost av = strs_v(a@);
    let ghost bv = strs_v(b@);
    let na = a.len();
    let nb = b.len();
    let ea = na - s;
    let eb = nb - s;
    let mut v: Vec<(LineKind, usize, usize)> = Vec::new();
    assert(steps_v(v@) =~= Seq::<EditStep>::empty());
    push_keeps(&mut v, 0, 0, p);
    let ghost k1 = steps_v(v@);
    let fits = match (ea - p + 1).checked_mul(eb - p + 1) {
        Some(c) => c <= MAX_CELLS,
        None => false,
    };
    assert(fits == lcs_fits(p as int, ea as int, eb as int));
    if fits {
        let t = lcs_table(a, b, p, ea, eb);
        push_lcs_steps(a, b, &t, p, ea, eb, &mut v);
    } else {
        push_block(&mut v, p, ea, eb);
    }
    let ghost k2 = steps_v(v@);
    push_keeps(&mut v, ea, eb, s);
    assert(av.len() == na && bv.len() == nb);
    assert(steps_v(v@) =~= edit_script(av, bv));
    v
}

/// The diff line of a step.
fn step_line_exec(a: &Vec<String>, b: &Vec<String>, st: (LineKind, usize, usize)) -> (l: Line)
    requires
        step_in((st.0, st.1 as int, st.2 as int), a@.len() as int, b@.len() as int),
        a@.len() < u32::MAX,
        b@.len() < u32::MAX,
    ensures
        l@ == step_line(strs_v(a@), strs_v(b@), (st.0, st.1 as int, st.2 as int)),
{
    let (k, i, j) = st;
    match k {
        LineKind::Context => Line {
            kind: LineKind::Context,
            old_lineno: Some((i + 1) as u32),
            new_lineno: Some((j + 1) as u32),
            text: a[i].clone(),
            emphasis: None,
        },
        LineKind::Removed => Line {
            kind: LineKind::Removed,
            old_lineno: Some((i + 1) as u32),
            new_lineno: None,
            text: a[i].clone(),
            emphasis: None,
        },
        LineKind::Added => Line {
            kind: LineKind::Added,
            old_lineno: None,
            new_lineno: Some((j + 1) as u32),
            text: b[j].clone(),
            emphasis: None,
        },
    }
}

/// The hunk over steps `t..e` of the script `sv`.
fn make_hunk(a: &Vec<String>, b: &Vec<String>, sv: &Vec<(LineKind, usize, usize)>, t: usize, e: usize) -> (h: Hunk)
    requires
        t < e <= sv@.len(),
        walks(steps_v(sv@), 0, 0, a@.len() as int, b@.len() as int),
        steps_in(steps_v(sv@), a@.len() as int, b@.len() as int),
        a@.len() < u32::MAX,
        b@.len() < u32::MAX,
    ensures
        h@ == run_hunk(strs_v(a@), strs_v(b@), steps_v(sv@), t as int, e as int),
{
    let ghost av = strs_v(a@);
    let ghost bv = strs_v(b@);
    let ghost s = steps_v(sv@);
    let ghost want = run_hunk(av, bv, s, t as int, e as int);
    let mut lines: Vec<Line> = Vec::new();
    let mut k = t;
    while k < e
        invariant
            t <= k <= e <= sv@.len(),
            s == steps_v(sv@),
            steps_in(s, a@.len() as int, b@.len() as int),
            a@.len() < u32::MAX,
            b@.len() < u32::MAX,
            av == strs_v(a@),
            bv == strs_v(b@),
            lines@.len() == k - t,
            forall|x: int| 0 <= x < k - t ==> (#[trigger] lines@[x])@ == step_line(av, bv, s[t + x]),
        decreases e - k,
    {
        assert(step_in(s[k as int], a@.len() as int, b@.len() as int));
        let l = step_line_exec(a, b, sv[k]);
        lines.push(l);
        k = k + 1;
    }
    let first = sv[t];
    let last = sv[e - 1];
    proof {
        lemma_walk_mono(s, 0, 0, a@.len() as int, b@.len() as int, t as int, e - 1);
        assert(step_in(s[e - 1], a@.len() as int, b@.len() as int));
    }
    let old_end = match last.0 {
        LineKind::Added => last.1,
        _ => last.1 + 1,
    };
    let new_end = match last.0 {
        LineKind::Removed => last.2,
        _ => last.2 + 1,
    };
    let h = Hunk {
        old_start: (first.1 + 1) as u32,
        old_len: (old_end - first.1) as u32,
        new_start: (first.2 + 1) as u32,
        new_len: (new_end - first.2) as u32,
        lines,
    };
    assert(h@.lines =~= want.lines);
    h
}

/// How many of the steps up to and including each one are changes.
fn change_counts(sv: &Vec<(LineKind, usize, usize)>) -> (c: Vec<usize>)
    ensures
        c@.len() == sv@.len(),
        forall|t: int| 0 <= t < sv@.len() ==> (#[trigger] c@[t]) == changes_before(steps_v(sv@), t + 1),
{
    let ghost s = steps_v(sv@);
    let mut c: Vec<usize> = Vec::new();
    let mut n: usize = 0;
    let mut t: usize = 0;
    while t < sv.len()
        invariant
            t <= sv@.len(),
            s == steps_v(sv@),
            c@.len() == t,
            n == changes_before(s, t as int),
            n <= t,
            forall|x: int| 0 <= x < t ==> (#[trigger] c@[x]) == changes_before(s, x + 1),
        decreases sv@.len() - t,
    {
        if sv[t].0 != LineKind::Context {
            n = n + 1;
        }
        c.push(n);
        t = t + 1;
    }
    c
}

/// How many steps add and remove a line.
fn count_kinds(sv: &Vec<(LineKind, usize, usize)>) -> (r: (usize, usize))
    ensures
        r.0 == kind_before(steps_v(sv@), LineKind::Added, sv@.len() as int),
        r.1 == kind_before(steps_v(sv@), LineKind::Removed, sv@.len() as int),
{
    let ghost s = steps_v(sv@);
    let mut adds: usize = 0;
    let mut dels: usize = 0;
    let mut t: usize = 0;
    while t < sv.len()
        invariant
            t <= sv@.len(),
            s == steps_v(sv@),
            adds == kind_before(s, LineKind::Added, t as int),
            dels == kind_before(s, LineKind::Removed, t as int),
            adds + dels <= t,
        decreases sv@.len() - t,
    {
        match sv[t].0 {
            LineKind::Added => {
                adds = adds + 1;
            },
            LineKind::Removed => {
                dels = dels + 1;
            },
            LineKind::Context => {},
        }
        t = t + 1;
    }
    (adds, dels)
}

/// The hunks of the script `sv` with `ctx` lines of context.
fn group_hunks(a: &Vec<String>, b: &Vec<String>, sv: &Vec<(LineKind, usize, usize)>, ctx: u32) -> (hs: Vec<Hunk>)
    requires
        walks(steps_v(sv@), 0, 0, a@.len() as int, b@.len() as int),
        steps_in(steps_v(sv@), a@.len() as int, b@.len() as int),
        a@.len() < u32::MAX,
        b@.len() < u32::MAX,
    ensures
        hunks_v(hs@) == hunks_from(strs_v(a@), strs_v(b@), steps_v(sv@), ctx as int, 0, -1),
{
    let ghost av = strs_v(a@);
    let ghost bv = strs_v(b@);
    let ghost s = steps_v(sv@);
    let ghost goal = hunks_from(av, bv, s, ctx as int, 0, -1);
    let n = sv.len();
    let c = change_counts(sv);
    let cx = ctx as usize;
    let mut hs: Vec<Hunk> = Vec::new();
    let mut open = false;
    let mut start: usize = 0;
    let mut t: usize = 0;
    assert(hunks_v(hs@) + hunks_from(av, bv, s, ctx as int, 0, -1) =~= goal);
    while t < n
        invariant
            t <= n,
            n == sv@.len(),
            s == steps_v(sv@),
            av == strs_v(a@),
            bv == strs_v(b@),
            cx == ctx,
            c@.len() == n,
            forall|x: int| 0 <= x < n ==> (#[trigger] c@[x]) == changes_before(s, x + 1),
            walks(s, 0, 0, a@.len() as int, b@.len() as int),
            steps_in(s, a@.len() as int, b@.len() as int),
            a@.len() < u32::MAX,
            b@.len() < u32::MAX,
            open ==> start < t,
            hunks_v(hs@) + hunks_from(av, bv, s, ctx as int, t as int, if open { start as int } else { -1 }) == goal,
        decreases n - t,
    {
        let lo = if t > cx {
            t - cx
        } else {
            0
        };
        let hi = if cx < n - t - 1 {
            t + cx + 1
        } else {
            n
        };
        let before_lo = if lo == 0 {
            0
        } else {
            c[lo - 1]
        };
        let before_hi = if hi == 0 {
            0
        } else {
            c[hi - 1]
        };
        proof {
            if lo > 0 {
                assert(c@[lo - 1] == changes_before(s, (lo - 1) + 1));
            }
            if hi > 0 {
                assert(c@[hi - 1] == changes_before(s, (hi - 1) + 1));
            }
        }
        let sh = before_hi > before_lo;
        assert(sh == shown(s, t as int, ctx as int));
        let ghost st = if open { start as int } else { -1 };
        let ghost hs0 = hunks_v(hs@);
        if sh {
            if !open {
                open = true;
                start = t;
            }
        } else if open {
            let h = make_hunk(a, b, sv, start, t);
            hs.push(h);
            open = false;
            assert(hunks_v(hs@) =~= hs0.push(run_hunk(av, bv, s, st, t as int)));
            assert(hunks_v(hs@) + hunks_from(av, bv, s, ctx as int, t + 1, -1) =~= hs0 + (seq![
                run_hunk(av, bv, s, st, t as int),
            ] + hunks_from(av, bv, s, ctx as int, t + 1, -1)));
        }
        t = t + 1;
    }
    if open {
        let ghost hs0 = hunks_v(hs@);
        let h = make_hunk(a, b, sv, start, n);
        hs.push(h);
        assert(hunks_v(hs@) =~= hs0.push(run_hunk(av, bv, s, start as int, n as int)));
    }
    assert(hunks_v(hs@) =~= goal);
    hs
}

/// The diff of `old_text` and `new_text` with `context` lines of context
/// around each change (see [`spec_diff`]), plus the counts of added and
/// removed lines.
pub fn compute_hunks_with_context(old_text: &str, new_text: &str, context: u32) -> (r: (
    Vec<Hunk>,
    usize,
    usize,
))
    requires
        text_fits(old_text@),
        text_fits(new_text@),
    ensures
        ({
            let d = spec_diff(spec_lines(old_text@), spec_lines(new_text@), context as int);
            &&& hunks_v(r.0@) == d.0
            &&& r.1 == d.1
            &&& r.2 == d.2
        }),
{
    let a = split_lines(old_text);
    let b = split_lines(new_text);
    let ghost av = strs_v(a@);
    let ghost bv = strs_v(b@);
    proof {
        lemma_lines_short(old_text@);
        lemma_lines_short(new_text@);
    }
    let na = a.len();
    let nb = b.len();
    let mut p: usize = 0;
    assert(av.len() == na && bv.len() == nb);
    while p < na && p < nb && str_eq(a[p].as_str(), b[p].as_str())
        invariant
            p <= na,
            p <= nb,
            na == a@.len(),
            nb == b@.len(),
            av == strs_v(a@),
            bv == strs_v(b@),
            av.len() == na,
            bv.len() == nb,
            common_prefix(av, bv, 0) == common_prefix(av, bv, p as int),
        decreases na - p,
    {
        p = p + 1;
    }
    assert(common_prefix(av, bv, p as int) == p);
    let mut s: usize = 0;
    while p + s < na && p + s < nb && str_eq(a[na - 1 - s].as_str(), b[nb - 1 - s].as_str())
        invariant
            p + s <= na,
            p + s <= nb,
            na == a@.len(),
            nb == b@.len(),
            av == strs_v(a@),
            bv == strs_v(b@),
            av.len() == na,
            bv.len() == nb,
            common_prefix(av, bv, 0) == p,
            common_suffix(av, bv, p as int, 0) == common_suffix(av, bv, p as int, s as int),
        decreases na - s,
    {
        s = s + 1;
    }
    assert(common_suffix(av, bv, p as int, s as int) == s);
    let sv = build_script(&a, &b, p, s);
    proof {
        lemma_script_walks(av, bv);
    }
    let hs = group_hunks(&a, &b, &sv, context);
    let (adds, dels) = count_kinds(&sv);
    (hs, adds, dels)
}

} // verus!
