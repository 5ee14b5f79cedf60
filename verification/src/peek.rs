//! The single-file "peek" overlay: a modal, scrollable view of one file in
//! content mode (the whole file), diff mode (a diff with an adjustable amount
//! of context, unified or split), or blame mode (the committed file with a
//! per-line attribution gutter). Reuses the row plan over a one-file
//! changeset.

use vstd::prelude::*;

use crate::diff::{
    compute_hunks_with_context, edit_script, hunks_v, lemma_hunks_fit, lemma_script_walks, spec_diff,
    spec_whole_file_hunks, text_fits,
    whole_file_hunks,
};
use crate::model::{BlameLine, Changeset, DiffFile, DiffFileV, FileStatus, LayoutMode, LineKind, Stats};
use crate::rows::{fits, fits_file, spec_build, Plan, PlanV, Row, RowV, GUTTER_W};
use crate::text::{lemma_lines_short, push_decimal, spec_decimal, spec_lines};
use crate::view::ViewState;

verus! {

/// Compact diff context (a tight hunk view).
pub const COMPACT_CONTEXT: u32 = 3;

/// "Full" diff context — large enough to show the whole file inline.
pub const FULL_CONTEXT: u32 = 1_000_000;

/// What the peek shows.
#[derive(Clone, Copy, PartialEq, Eq, Debug, Structural)]
pub enum PeekMode {
    Content,
    Diff,
    /// Whole-file content at the committed rev, with a blame gutter.
    Blame,
}

/// The texts backing content and diff modes. The content pane shows one of
/// the two diff sides.
#[derive(Debug)]
pub struct Sides {
    pub diff_old: String,
    pub diff_new: String,
    /// Whether the content pane shows `diff_new` (else `diff_old`).
    pub content_from_new: bool,
}

/// A single-file overlay. Holds the source texts and rebuilds its one-file
/// changeset and plan when the mode, context or layout changes.
#[derive(Debug)]
pub struct Peek {
    pub path: String,
    /// Blue accent when opened from a local/staged view.
    pub origin_local: bool,
    pub mode: PeekMode,
    /// Diff context: full (whole file inline) when true, compact when false.
    pub full: bool,
    /// Render the diff side by side rather than unified.
    pub split_view: bool,
    /// The content/diff texts; `None` until fetched (a blame-opened peek
    /// defers them until the first switch out of blame).
    pub sides: Option<Sides>,
    pub cs: Changeset,
    pub plan: Plan,
    /// Row index where each contiguous run of changed lines begins.
    pub change_starts: Vec<usize>,
    pub state: ViewState,
    /// The file at the committed rev, shown in blame mode.
    pub blame_text: String,
    /// Per-line attribution, `None` until a fetch settles.
    pub blame: Option<Vec<BlameLine>>,
    /// Whether a blame fetch is in flight.
    pub blame_pending: bool,
}

/// Whether a row shows a change: an added/removed unified line, or a split
/// pair with a non-context side.
pub open spec fn row_changed(r: RowV) -> bool {
    match r {
        RowV::Line { kind, .. } => kind != LineKind::Context,
        RowV::Pair(l, r) => (l matches Some(c) && c.kind != LineKind::Context) || (
        r matches Some(c) && c.kind != LineKind::Context),
        _ => false,
    }
}

/// The rows among the first `n` that begin a run of changed rows.
pub open spec fn spec_change_starts(rows: Seq<RowV>, n: int) -> Seq<usize>
    decreases n,
{
    if n <= 0 {
        Seq::empty()
    } else {
        let i = n - 1;
        let start = row_changed(rows[i]) && (i == 0 || !row_changed(rows[i - 1]));
        if start {
            spec_change_starts(rows, n - 1).push(i as usize)
        } else {
            spec_change_starts(rows, n - 1)
        }
    }
}

fn changed(r: &Row) -> (b: bool)
    ensures
        b == row_changed(r@),
{
    match r {
        Row::Line { kind, .. } => match kind {
            LineKind::Context => false,
            _ => true,
        },
        Row::Pair(l, r) => {
            let lc = match l {
                Some(c) => match c.kind {
                    LineKind::Context => false,
                    _ => true,
                },
                None => false,
            };
            let rc = match r {
                Some(c) => match c.kind {
                    LineKind::Context => false,
                    _ => true,
                },
                None => false,
            };
            lc || rc
        },
        _ => false,
    }
}

/// Row indices where a contiguous run of changed lines begins, in either layout.
pub fn change_starts(rows: &Vec<Row>) -> (v: Vec<usize>)
    ensures
        v@ == spec_change_starts(crate::rows::rows_v(rows@), rows@.len() as int),
{
    let ghost rv = crate::rows::rows_v(rows@);
    let mut starts: Vec<usize> = Vec::new();
    let mut prev_changed = false;
    let mut i: usize = 0;
    while i < rows.len()
        invariant
            i <= rows@.len(),
            rv == crate::rows::rows_v(rows@),
            starts@ == spec_change_starts(rv, i as int),
            i > 0 ==> prev_changed == row_changed(rv[i - 1]),
            i == 0 ==> !prev_changed,
        decreases rows@.len() - i,
    {
        let c = changed(&rows[i]);
        if c && !prev_changed {
            starts.push(i);
        }
        prev_changed = c;
        i = i + 1;
    }
    starts
}

/// The one-file view of `content`: a single all-context hunk.
pub open spec fn content_file_v(path: Seq<char>, content: Seq<char>) -> DiffFileV {
    DiffFileV {
        path,
        hunks: spec_whole_file_hunks(content),
        stats: Stats { additions: 0, deletions: 0 },
        is_binary: false,
        old_text: None,
        new_text: Some(content),
        diffed: true,
    }
}

/// The one-file diff of `old` against `new` with `context` lines of context.
pub open spec fn diff_file_v(path: Seq<char>, old: Seq<char>, new: Seq<char>, context: u32) -> DiffFileV {
    let d = spec_diff(spec_lines(old), spec_lines(new), context as int);
    DiffFileV {
        path,
        hunks: d.0,
        stats: Stats { additions: d.1 as usize, deletions: d.2 as usize },
        is_binary: false,
        old_text: Some(old),
        new_text: Some(new),
        diffed: true,
    }
}

fn content_file(path: &str, content: &str) -> (f: DiffFile)
    requires
        text_fits(content@),
    ensures
        f@ == content_file_v(path@, content@),
{
    let hunks = whole_file_hunks(content);
    let f = DiffFile {
        path: path.to_owned(),
        previous_path: None,
        status: FileStatus::Modified,
        staged: false,
        hunks,
        stats: Stats { additions: 0, deletions: 0 },
        is_binary: false,
        old_text: None,
        new_text: Some(content.to_owned()),
        diffed: true,
    };
    assert(f@.hunks =~= content_file_v(path@, content@).hunks);
    f
}

fn diff_file(path: &str, old: &str, new: &str, context: u32) -> (f: DiffFile)
    requires
        text_fits(old@),
        text_fits(new@),
    ensures
        f@ == diff_file_v(path@, old@, new@, context),
{
    let (hunks, additions, deletions) = compute_hunks_with_context(old, new, context);
    let f = DiffFile {
        path: path.to_owned(),
        previous_path: None,
        status: FileStatus::Modified,
        staged: false,
        hunks,
        stats: Stats { additions, deletions },
        is_binary: false,
        old_text: Some(old.to_owned()),
        new_text: Some(new.to_owned()),
        diffed: true,
    };
    assert(f@.hunks =~= diff_file_v(path@, old@, new@, context).hunks);
    f
}


/// A whole-file view of a text that fits has rows whose arithmetic fits.
pub proof fn lemma_content_fits(path: Seq<char>, t: Seq<char>)
    requires
        text_fits(t),
    ensures
        fits_file(content_file_v(path, t)),
{
    lemma_lines_short(t);
    let f = content_file_v(path, t);
    let ls = spec_lines(t);
    if ls.len() > 0 {
        assert forall|k: int, j: int|
            0 <= k < f.hunks.len() && 0 <= j < f.hunks[k].lines.len() implies GUTTER_W + (
            #[trigger] f.hunks[k].lines[j]).text.len() <= usize::MAX by {
            assert(f.hunks[k].lines[j].text == ls[j]);
        }
    }
}

/// A diff of two texts that fit has rows whose arithmetic fits.
pub proof fn lemma_diff_fits(path: Seq<char>, old: Seq<char>, new: Seq<char>, context: u32)
    requires
        text_fits(old),
        text_fits(new),
    ensures
        fits_file(diff_file_v(path, old, new, context)),
{
    lemma_lines_short(old);
    lemma_lines_short(new);
    let a = spec_lines(old);
    let b = spec_lines(new);
    let l = if old.len() >= new.len() {
        old.len() as int
    } else {
        new.len() as int
    };
    lemma_script_walks(a, b);
    lemma_hunks_fit(a, b, edit_script(a, b), context as int, 0, -1, l);
}


/// The content-pane text of the sides: the view's new side (empty while
/// the sides are unfetched).
pub open spec fn content_text(sides: Option<Sides>) -> Seq<char> {
    match sides {
        Some(s) => if s.content_from_new {
            s.diff_new@
        } else {
            s.diff_old@
        },
        None => Seq::empty(),
    }
}

/// The diff texts of the sides (both empty while unfetched).
pub open spec fn diff_texts(sides: Option<Sides>) -> (Seq<char>, Seq<char>) {
    match sides {
        Some(s) => (s.diff_old@, s.diff_new@),
        None => (Seq::empty(), Seq::empty()),
    }
}

/// The context a diff is built with.
pub open spec fn context_of(full: bool) -> u32 {
    if full {
        FULL_CONTEXT
    } else {
        COMPACT_CONTEXT
    }
}

/// The layout the peek's plan is built for: split only for a split diff.
pub open spec fn peek_layout(mode: PeekMode, split_view: bool) -> LayoutMode {
    if mode == PeekMode::Diff && split_view {
        LayoutMode::Split
    } else {
        LayoutMode::Stack
    }
}

/// The one file a peek shows in `mode`.
pub open spec fn expected_file(
    path: Seq<char>,
    mode: PeekMode,
    full: bool,
    sides: Option<Sides>,
    blame_text: Seq<char>,
) -> DiffFileV {
    match mode {
        PeekMode::Content => content_file_v(path, content_text(sides)),
        PeekMode::Diff => diff_file_v(path, diff_texts(sides).0, diff_texts(sides).1, context_of(full)),
        PeekMode::Blame => content_file_v(path, blame_text),
    }
}

/// Whether the sides' texts fit a plan's arithmetic.
pub open spec fn sides_fit(sides: Option<Sides>) -> bool {
    match sides {
        Some(s) => text_fits(s.diff_old@) && text_fits(s.diff_new@),
        None => true,
    }
}

/// The next mode in the `Tab` cycle: content → diff → blame → content.
pub open spec fn next_mode(m: PeekMode) -> PeekMode {
    match m {
        PeekMode::Content => PeekMode::Diff,
        PeekMode::Diff => PeekMode::Blame,
        PeekMode::Blame => PeekMode::Content,
    }
}

/// Whether a row is a unified line with a new-side number.
pub open spec fn has_new(r: RowV) -> bool {
    r matches RowV::Line { new: Some(_), .. }
}

proof fn lemma_first_new_at(rows: Seq<RowV>, from: int, i: int)
    requires
        from <= i < rows.len(),
        has_new(rows[i]),
        forall|j: int| from <= j < i ==> !has_new(#[trigger] rows[j]),
    ensures
        Peek::first_new_line(rows, from) == Some(rows[i]->new.unwrap()),
{
    let k = choose|k: int|
        from <= k < rows.len() && has_new(#[trigger] rows[k]) && forall|j: int|
            from <= j < k ==> !has_new(#[trigger] rows[j]);
    assert(from <= k < rows.len() && has_new(rows[k]));
    if k < i {
        assert(!has_new(rows[k]));
    }
    if i < k {
        assert(!has_new(rows[i]));
    }
}

fn is_new_line(r: &Row) -> (b: bool)
    ensures
        b == has_new(r@),
{
    match r {
        Row::Line { new: Some(_), .. } => true,
        _ => false,
    }
}

/// The new-side number of the first unified line at or after `from`.
fn first_new_line_exec(rows: &Vec<Row>, from: usize) -> (r: Option<u32>)
    ensures
        r == Peek::first_new_line(crate::rows::rows_v(rows@), from as int),
{
    let ghost rv = crate::rows::rows_v(rows@);
    if from >= rows.len() {
        return None;
    }
    let mut i: usize = from;
    while i < rows.len() && !is_new_line(&rows[i])
        invariant
            from <= i <= rows@.len(),
            rv == crate::rows::rows_v(rows@),
            forall|j: int| from <= j < i ==> !has_new(#[trigger] rv[j]),
        decreases rows@.len() - i,
    {
        i = i + 1;
    }
    if i < rows.len() {
        proof {
            lemma_first_new_at(rv, from as int, i as int);
        }
        match &rows[i] {
            Row::Line { new: Some(n), .. } => Some(*n),
            _ => None,
        }
    } else {
        None
    }
}

/// Whether any row shows diff content.
pub open spec fn has_body(rows: Seq<RowV>) -> bool {
    exists|i: int| 0 <= i < rows.len() && (#[trigger] rows[i] is Line || rows[i] is Pair)
}

/// A scroll kept inside a plan of `rows` rows (0 for an empty plan).
pub open spec fn kept_scroll(scroll: usize, rows: int) -> int {
    if scroll as int <= rows - 1 {
        scroll as int
    } else if rows >= 1 {
        rows - 1
    } else {
        0
    }
}

impl Peek {
    /// Every text the peek may rebuild from fits a plan's arithmetic.
    pub open spec fn texts_fit(&self) -> bool {
        sides_fit(self.sides) && text_fits(self.blame_text@)
    }

    /// The changeset, plan and change starts are those of the active mode.
    pub open spec fn rebuilt(&self) -> bool {
        &&& self.cs.files_v() == seq![
            expected_file(self.path@, self.mode, self.full, self.sides, self.blame_text@),
        ]
        &&& self.cs.source@ == self.path@
        &&& self.plan@ == spec_build(
            self.cs.files_v(),
            seq![false],
            peek_layout(self.mode, self.split_view),
            Seq::empty(),
            Seq::empty(),
        )
        &&& self.change_starts@ == spec_change_starts(self.plan@.rows, self.plan@.rows.len() as int)
    }

    /// Everything but the derived view and the scroll position is unchanged.
    pub open spec fn same_source(&self, other: &Peek) -> bool {
        &&& self.path == other.path
        &&& self.origin_local == other.origin_local
        &&& self.sides == other.sides
        &&& self.blame_text == other.blame_text
        &&& self.blame == other.blame
        &&& self.blame_pending == other.blame_pending
    }

    /// Rebuild the one-file changeset and plan for the active mode, context
    /// and layout, keeping the scroll inside the new plan.
    fn rebuild(&mut self)
        requires
            old(self).texts_fit(),
        ensures
            final(self).rebuilt(),
            final(self).texts_fit(),
            final(self).same_source(old(self)),
            final(self).mode == old(self).mode,
            final(self).full == old(self).full,
            final(self).split_view == old(self).split_view,
            final(self).state.scroll == kept_scroll(old(self).state.scroll, final(self).plan@.rows.len() as int),
            final(self).state.cursor_row == old(self).state.cursor_row,
            final(self).state.h_scroll == old(self).state.h_scroll,
            final(self).state.wrap == old(self).state.wrap,
    {
        let context = if self.full {
            FULL_CONTEXT
        } else {
            COMPACT_CONTEXT
        };
        proof {
            reveal_strlit("");
            assert(""@ =~= Seq::<char>::empty());
        }
        let file = match self.mode {
            PeekMode::Content => match &self.sides {
                Some(s) => if s.content_from_new {
                    content_file(self.path.as_str(), s.diff_new.as_str())
                } else {
                    content_file(self.path.as_str(), s.diff_old.as_str())
                },
                None => content_file(self.path.as_str(), ""),
            },
            PeekMode::Diff => match &self.sides {
                Some(s) => diff_file(self.path.as_str(), s.diff_old.as_str(), s.diff_new.as_str(), context),
                None => diff_file(self.path.as_str(), "", "", context),
            },
            PeekMode::Blame => content_file(self.path.as_str(), self.blame_text.as_str()),
        };
        proof {
            lemma_content_fits(self.path@, content_text(self.sides));
            lemma_content_fits(self.path@, self.blame_text@);
            lemma_diff_fits(self.path@, diff_texts(self.sides).0, diff_texts(self.sides).1, context);
        }
        assert(file@ == expected_file(self.path@, self.mode, self.full, self.sides, self.blame_text@));
        let mut files: Vec<DiffFile> = Vec::new();
        files.push(file);
        self.cs = Changeset { source: self.path.clone(), files };
        assert(self.cs.files_v() =~= seq![
            expected_file(self.path@, self.mode, self.full, self.sides, self.blame_text@),
        ]);
        let layout = if self.mode == PeekMode::Diff && self.split_view {
            LayoutMode::Split
        } else {
            LayoutMode::Stack
        };
        let viewed = vec![false];
        let none: Vec<String> = Vec::new();
        assert(viewed@ =~= seq![false]);
        assert(crate::text::strs_v(none@) =~= Seq::<Seq<char>>::empty());
        self.plan = Plan::build(&self.cs, viewed.as_slice(), layout, none.as_slice());
        self.change_starts = change_starts(&self.plan.rows);
        let max = self.plan.rows.len().saturating_sub(1);
        if self.state.scroll > max {
            self.state.scroll = max;
        }
    }

    /// A peek over `diff_old`/`diff_new` (the content pane showing the new
    /// side when `content_from_new`), opened in `mode` with full context.
    pub fn new(
        path: String,
        origin_local: bool,
        mode: PeekMode,
        diff_old: String,
        diff_new: String,
        content_from_new: bool,
    ) -> (p: Peek)
        requires
            text_fits(diff_old@),
            text_fits(diff_new@),
        ensures
            p.rebuilt(),
            p.texts_fit(),
            p.path == path,
            p.origin_local == origin_local,
            p.mode == mode,
            p.full,
            !p.split_view,
            p.sides == Some(Sides { diff_old, diff_new, content_from_new }),
            p.blame_text@ == Seq::<char>::empty(),
            p.blame is None,
            !p.blame_pending,
            p.state.scroll == 0,
    {
        Self::build(path, origin_local, mode, Some(Sides { diff_old, diff_new, content_from_new }))
    }

    /// A peek opened directly in blame mode: the content/diff sides start
    /// unfetched and are installed on the first switch out of blame.
    pub fn new_blame(path: String, origin_local: bool) -> (p: Peek)
        ensures
            p.rebuilt(),
            p.texts_fit(),
            p.path == path,
            p.origin_local == origin_local,
            p.mode == PeekMode::Blame,
            p.full,
            !p.split_view,
            p.sides is None,
            p.blame_text@ == Seq::<char>::empty(),
            p.blame is None,
            !p.blame_pending,
            p.state.scroll == 0,
    {
        Self::build(path, origin_local, PeekMode::Blame, None)
    }

    fn build(path: String, origin_local: bool, mode: PeekMode, sides: Option<Sides>) -> (p: Peek)
        requires
            sides_fit(sides),
        ensures
            p.rebuilt(),
            p.texts_fit(),
            p.path == path,
            p.origin_local == origin_local,
            p.mode == mode,
            p.full,
            !p.split_view,
            p.sides == sides,
            p.blame_text@ == Seq::<char>::empty(),
            p.blame is None,
            !p.blame_pending,
            p.state.scroll == 0,
    {
        let mut p = Peek {
            path,
            origin_local,
            mode,
            full: true,
            split_view: false,
            sides,
            cs: Changeset { source: String::new(), files: Vec::new() },
            plan: Plan {
                rows: Vec::new(),
                file_starts: Vec::new(),
                visible_files: Vec::new(),
                hunk_starts: Vec::new(),
                content_w: 0,
                layout: LayoutMode::Stack,
            },
            change_starts: Vec::new(),
            state: ViewState::new(),
            blame_text: String::new(),
            blame: None,
            blame_pending: false,
        };
        p.rebuild();
        p
    }

    /// Whether blame should be kicked off: in blame mode, never settled, and
    /// no fetch already in flight.
    pub fn needs_blame(&self) -> (b: bool)
        ensures
            b == (self.mode == PeekMode::Blame && self.blame is None && !self.blame_pending),
    {
        self.mode == PeekMode::Blame && self.blame.is_none() && !self.blame_pending
    }

    /// Whether the content/diff sides are still unfetched.
    pub fn sides_unfilled(&self) -> (b: bool)
        ensures
            b == self.sides is None,
    {
        self.sides.is_none()
    }

    /// Store the content/diff sides without rebuilding, for a caller that
    /// rebuilds right after (the switch out of blame).
    pub fn install_sides(&mut self, diff_old: String, diff_new: String, content_from_new: bool)
        requires
            old(self).texts_fit(),
            text_fits(diff_old@),
            text_fits(diff_new@),
        ensures
            final(self).sides == Some(Sides { diff_old, diff_new, content_from_new }),
            final(self).texts_fit(),
            final(self).path == old(self).path,
            final(self).mode == old(self).mode,
            final(self).full == old(self).full,
            final(self).split_view == old(self).split_view,
            final(self).blame_text == old(self).blame_text,
            final(self).blame == old(self).blame,
            final(self).blame_pending == old(self).blame_pending,
    {
        self.sides = Some(Sides { diff_old, diff_new, content_from_new });
    }

    /// Install the content/diff sides and rebuild the plan for the active mode.
    pub fn set_sides(&mut self, diff_old: String, diff_new: String, content_from_new: bool)
        requires
            old(self).texts_fit(),
            text_fits(diff_old@),
            text_fits(diff_new@),
        ensures
            final(self).sides == Some(Sides { diff_old, diff_new, content_from_new }),
            final(self).rebuilt(),
            final(self).texts_fit(),
            final(self).path == old(self).path,
            final(self).mode == old(self).mode,
            final(self).full == old(self).full,
            final(self).split_view == old(self).split_view,
            final(self).blame_text == old(self).blame_text,
            final(self).blame == old(self).blame,
            final(self).blame_pending == old(self).blame_pending,
    {
        self.install_sides(diff_old, diff_new, content_from_new);
        self.rebuild();
    }

    /// The settled per-line attribution (empty while unfetched, or for a
    /// file with no blame at the rev).
    pub fn blame(&self) -> (b: &[BlameLine])
        ensures
            match self.blame {
                Some(v) => b@ == v@,
                None => b@.len() == 0,
            },
    {
        match &self.blame {
            Some(v) => v.as_slice(),
            None => &[],
        }
    }

    /// Record whether a blame fetch is in flight.
    pub fn set_blame_pending(&mut self, pending: bool)
        ensures
            final(self).blame_pending == pending,
            final(self).rebuilt() == old(self).rebuilt(),
            final(self).texts_fit() == old(self).texts_fit(),
            final(self).path == old(self).path,
            final(self).mode == old(self).mode,
            final(self).sides == old(self).sides,
            final(self).blame == old(self).blame,
            final(self).blame_text == old(self).blame_text,
    {
        self.blame_pending = pending;
    }

    /// Install a completed blame fetch: the committed-rev content plus the
    /// per-line attribution. Marks the fetch settled and rebuilds the plan.
    pub fn install_blame(&mut self, text: String, lines: Vec<BlameLine>)
        requires
            old(self).texts_fit(),
            text_fits(text@),
        ensures
            final(self).blame_text == text,
            final(self).blame == Some(lines),
            !final(self).blame_pending,
            final(self).rebuilt(),
            final(self).texts_fit(),
            final(self).path == old(self).path,
            final(self).mode == old(self).mode,
            final(self).full == old(self).full,
            final(self).split_view == old(self).split_view,
            final(self).sides == old(self).sides,
            final(self).state.scroll == kept_scroll(old(self).state.scroll, final(self).plan@.rows.len() as int),
            final(self).state.cursor_row == old(self).state.cursor_row,
            final(self).state.h_scroll == old(self).state.h_scroll,
            final(self).state.wrap == old(self).state.wrap,
    {
        self.blame_text = text;
        self.blame = Some(lines);
        self.blame_pending = false;
        self.rebuild();
    }

    /// True while a blame fetch is in flight.
    pub fn blame_loading(&self) -> (b: bool)
        ensures
            b == self.blame_pending,
    {
        self.blame_pending
    }

    /// Cycle the mode (content → diff → blame → content), resetting the
    /// scroll, and rebuild.
    pub fn toggle_mode(&mut self)
        requires
            old(self).texts_fit(),
        ensures
            final(self).mode == next_mode(old(self).mode),
            final(self).state.scroll == 0,
            final(self).rebuilt(),
            final(self).texts_fit(),
            final(self).same_source(old(self)),
            final(self).full == old(self).full,
            final(self).split_view == old(self).split_view,
    {
        self.mode = match self.mode {
            PeekMode::Content => PeekMode::Diff,
            PeekMode::Diff => PeekMode::Blame,
            PeekMode::Blame => PeekMode::Content,
        };
        self.state.scroll = 0;
        self.rebuild();
    }

    /// Flip the diff context between full and compact. Inert outside diff
    /// mode, and a no-op when the level is unchanged.
    pub fn set_full(&mut self, full: bool)
        requires
            old(self).texts_fit(),
        ensures
            final(self).full == if old(self).mode == PeekMode::Diff {
                full
            } else {
                old(self).full
            },
            final(self).mode == old(self).mode,
            final(self).split_view == old(self).split_view,
            final(self).same_source(old(self)),
            final(self).texts_fit(),
            old(self).mode != PeekMode::Diff || full == old(self).full ==> *final(self) == *old(self),
            old(self).mode == PeekMode::Diff && full != old(self).full ==> final(self).rebuilt(),
            old(self).mode == PeekMode::Diff && full != old(self).full ==> final(self).state.scroll == kept_scroll(
                old(self).state.scroll,
                final(self).plan@.rows.len() as int,
            ),
    {
        if self.mode != PeekMode::Diff || full == self.full {
            return ;
        }
        self.full = full;
        self.rebuild();
    }

    /// Switch between unified and side-by-side (effective in diff mode); a
    /// no-op when unchanged.
    pub fn set_split(&mut self, split: bool)
        requires
            old(self).texts_fit(),
        ensures
            final(self).split_view == split,
            final(self).mode == old(self).mode,
            final(self).full == old(self).full,
            final(self).same_source(old(self)),
            final(self).texts_fit(),
            split == old(self).split_view ==> *final(self) == *old(self),
            split != old(self).split_view ==> final(self).rebuilt(),
            split != old(self).split_view ==> final(self).state.scroll == kept_scroll(
                old(self).state.scroll,
                final(self).plan@.rows.len() as int,
            ),
    {
        if split == self.split_view {
            return ;
        }
        self.split_view = split;
        self.rebuild();
    }

    /// True when there is no renderable content: no unified line and no split
    /// pair (a diff with no changes shows a message, not a blank).
    pub fn is_empty(&self) -> (b: bool)
        ensures
            b == !has_body(self.plan@.rows),
    {
        let mut i: usize = 0;
        while i < self.plan.rows.len()
            invariant
                i <= self.plan.rows@.len(),
                forall|j: int|
                    0 <= j < i ==> !(#[trigger] self.plan@.rows[j] is Line || self.plan@.rows[j] is Pair),
            decreases self.plan.rows@.len() - i,
        {
            match &self.plan.rows[i] {
                Row::Line { .. } => {
                    assert(self.plan@.rows[i as int] is Line);
                    return false;
                },
                Row::Pair(..) => {
                    assert(self.plan@.rows[i as int] is Pair);
                    return false;
                },
                _ => {},
            }
            i = i + 1;
        }
        true
    }

    /// The new-side line number of the first unified line at or after `from`.
    pub open spec fn first_new_line(rows: Seq<RowV>, from: int) -> Option<u32> {
        if exists|i: int| from <= i < rows.len() && has_new(#[trigger] rows[i]) {
            let i = choose|i: int|
                from <= i < rows.len() && has_new(#[trigger] rows[i])
                    && forall|j: int| from <= j < i ==> !has_new(#[trigger] rows[j]);
            Some(rows[i]->new.unwrap())
        } else {
            None
        }
    }

    /// The blame attribution for the first content line at or below the
    /// viewport top: its new line number `n` picks attribution `n - 1`.
    pub open spec fn spec_blame_cursor(&self) -> Option<BlameLine> {
        match Self::first_new_line(self.plan@.rows, self.state.scroll as int) {
            Some(n) => {
                let k = if n >= 1 {
                    n - 1
                } else {
                    0
                };
                match self.blame {
                    Some(v) => if k < v@.len() {
                        Some(v@[k])
                    } else {
                        None
                    },
                    None => None,
                }
            },
            None => None,
        }
    }

    /// The blame attribution for the content line at the top of the viewport.
    pub fn blame_cursor(&self) -> (r: Option<&BlameLine>)
        ensures
            match r {
                Some(b) => self.spec_blame_cursor() == Some(*b),
                None => self.spec_blame_cursor() is None,
            },
    {
        match first_new_line_exec(&self.plan.rows, self.state.scroll) {
            Some(n) => {
                let k = if n >= 1 {
                    (n - 1) as usize
                } else {
                    0
                };
                match &self.blame {
                    Some(v) => if k < v.len() {
                        Some(&v[k])
                    } else {
                        None
                    },
                    None => None,
                }
            },
            None => None,
        }
    }

    /// The first seven characters of a sha (all of a shorter one).
    pub open spec fn short_sha(sha: Seq<char>) -> Seq<char> {
        if sha.len() >= 7 {
            sha.take(7)
        } else {
            sha
        }
    }

    /// The header label: path · mode, with the cursor line's commit in blame
    /// mode and the real change stat in diff mode.
    pub open spec fn spec_label(&self) -> Seq<char> {
        match self.mode {
            PeekMode::Content => self.path@ + " · preview"@,
            PeekMode::Blame => match self.spec_blame_cursor() {
                Some(b) => self.path@ + " · blame · "@ + Self::short_sha(b.commit.sha@) + " "@
                    + b.commit.summary@,
                None => if self.blame_pending {
                    self.path@ + " · blame · …"@
                } else {
                    self.path@ + " · blame"@
                },
            },
            PeekMode::Diff => {
                let st = if self.cs.files@.len() > 0 {
                    self.cs.files@[0].stats
                } else {
                    Stats { additions: 0, deletions: 0 }
                };
                self.path@ + "  +"@ + spec_decimal(st.additions as nat) + " -"@ + spec_decimal(
                    st.deletions as nat,
                ) + " · "@ + (if self.full {
                    "full"@
                } else {
                    "compact"@
                }) + " · "@ + (if self.split_view {
                    "split"@
                } else {
                    "unified"@
                })
            },
        }
    }

    /// Header label: path · mode. In diff mode it shows the file's real change
    /// stat (+added −removed); in blame mode the cursor line's commit.
    pub fn label(&self) -> (s: String)
        ensures
            s@ == self.spec_label(),
    {
        let mut s = self.path.clone();
        match self.mode {
            PeekMode::Content => {
                s.append(" · preview");
            },
            PeekMode::Blame => {
                match self.blame_cursor() {
                    Some(b) => {
                        s.append(" · blame · ");
                        let sha = b.commit.sha.as_str();
                        let n = sha.unicode_len();
                        if n >= 7 {
                            s.append(sha.substring_char(0, 7));
                        } else {
                            s.append(sha);
                        }
                        s.append(" ");
                        s.append(b.commit.summary.as_str());
                    },
                    None => {
                        if self.blame_pending {
                            s.append(" · blame · …");
                        } else {
                            s.append(" · blame");
                        }
                    },
                }
            },
            PeekMode::Diff => {
                let (a, d) = if self.cs.files.len() > 0 {
                    (self.cs.files[0].stats.additions, self.cs.files[0].stats.deletions)
                } else {
                    (0, 0)
                };
                s.append("  +");
                push_decimal(&mut s, a);
                s.append(" -");
                push_decimal(&mut s, d);
                s.append(" · ");
                s.append(if self.full { "full" } else { "compact" });
                s.append(" · ");
                s.append(if self.split_view { "split" } else { "unified" });
            },
        }
        assert(s@ =~= self.spec_label());
        s
    }

    /// Row count of the plan being rendered.
    pub fn active_rows(&self) -> (n: usize)
        ensures
            n == self.plan@.rows.len(),
    {
        self.plan.rows.len()
    }

    /// Whether the diff is shown side by side.
    pub fn is_split(&self) -> (b: bool)
        ensures
            b == (self.mode == PeekMode::Diff && self.split_view),
    {
        self.mode == PeekMode::Diff && self.split_view
    }
}

/// Three `Tab`s bring a peek back where it was: the same mode, and (with the
/// sources, context and layout untouched) the very same rows.
pub proof fn law_mode_cycle_returns(start: Peek, end: Peek)
    requires
        start.rebuilt(),
        end.rebuilt(),
        end.mode == next_mode(next_mode(next_mode(start.mode))),
        end.same_source(&start),
        end.full == start.full,
        end.split_view == start.split_view,
    ensures
        end.mode == start.mode,
        end.plan@ == start.plan@,
        end.change_starts@ == start.change_starts@,
{
    assert(end.cs.files_v() =~= start.cs.files_v());
}

} // verus!
