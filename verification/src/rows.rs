//! The single row-planning layer: flatten a changeset into a flat list of rows.
//! Windowing, scrolling, and navigation all derive from this one structure.
//!
//! One [`Plan`] serves both layouts: the chrome rows (file/hunk headers,
//! collapsed/pending placeholders, spacers) are identical, and only the body
//! differs — a stacked [`Row::Line`] in unified layout, or a side-by-side
//! [`Row::Pair`] in split layout.

use vstd::prelude::*;

use crate::model::{Changeset, DiffFile, DiffFileV, Hunk, HunkV, LayoutMode, Line, LineKind, LineV, Side, spec_parent_dir, parent_dir};
use crate::text::{chars_of, str_eq, strs_v};

verus! {

/// One side of a split (side-by-side) row.
#[derive(Debug)]
pub struct SplitCell {
    pub file: usize,
    pub side_new: bool,
    pub lineno: Option<u32>,
    pub kind: LineKind,
    pub text: String,
    pub emphasis: Option<(u32, u32)>,
}

/// The mathematical content of a [`SplitCell`].
pub struct CellV {
    pub file: usize,
    pub side_new: bool,
    pub lineno: Option<u32>,
    pub kind: LineKind,
    pub text: Seq<char>,
    pub emphasis: Option<(u32, u32)>,
}

impl View for SplitCell {
    type V = CellV;

    open spec fn view(&self) -> CellV {
        CellV {
            file: self.file,
            side_new: self.side_new,
            lineno: self.lineno,
            kind: self.kind,
            text: self.text@,
            emphasis: self.emphasis,
        }
    }
}

pub open spec fn opt_cell(c: Option<SplitCell>) -> Option<CellV> {
    match c {
        Some(c) => Some(c@),
        None => None,
    }
}

/// One renderable row in the review stream.
#[derive(Debug)]
pub enum Row {
    /// A file header; carries the index into `Changeset::files`.
    FileHeader(usize),
    /// A collapsed (reviewed) file body placeholder; carries the hidden-hunk count.
    Collapsed(usize),
    /// A folded directory's placeholder: stands in for all of its `n` files, of
    /// which `reviewed` are reviewed.
    CollapsedDir { dir: String, n: usize, reviewed: usize },
    /// An undiffed file's body placeholder, shown while its diff streams in.
    Pending,
    /// A commit-message banner line, prepended above the diff.
    Banner(String),
    /// A hunk boundary; carries the previous hunk's last new-side line number.
    HunkHeader(u32),
    /// A stacked (unified) diff line.
    Line {
        file: usize,
        kind: LineKind,
        old: Option<u32>,
        new: Option<u32>,
        text: String,
        emphasis: Option<(u32, u32)>,
    },
    /// A split row: deletions on the left paired with insertions on the right.
    Pair(Option<SplitCell>, Option<SplitCell>),
    /// Blank separator between files.
    Spacer,
}

/// The mathematical content of a [`Row`].
pub enum RowV {
    FileHeader(usize),
    Collapsed(usize),
    CollapsedDir { dir: Seq<char>, n: usize, reviewed: usize },
    Pending,
    Banner(Seq<char>),
    HunkHeader(u32),
    Line {
        file: usize,
        kind: LineKind,
        old: Option<u32>,
        new: Option<u32>,
        text: Seq<char>,
        emphasis: Option<(u32, u32)>,
    },
    Pair(Option<CellV>, Option<CellV>),
    Spacer,
}

impl View for Row {
    type V = RowV;

    open spec fn view(&self) -> RowV {
        match self {
            Row::FileHeader(i) => RowV::FileHeader(*i),
            Row::Collapsed(n) => RowV::Collapsed(*n),
            Row::CollapsedDir { dir, n, reviewed } => RowV::CollapsedDir {
                dir: dir@,
                n: *n,
                reviewed: *reviewed,
            },
            Row::Pending => RowV::Pending,
            Row::Banner(s) => RowV::Banner(s@),
            Row::HunkHeader(n) => RowV::HunkHeader(*n),
            Row::Line { file, kind, old, new, text, emphasis } => RowV::Line {
                file: *file,
                kind: *kind,
                old: *old,
                new: *new,
                text: text@,
                emphasis: *emphasis,
            },
            Row::Pair(l, r) => RowV::Pair(opt_cell(*l), opt_cell(*r)),
            Row::Spacer => RowV::Spacer,
        }
    }
}

/// The flattened plan plus the indices needed for navigation.
#[derive(Debug)]
pub struct Plan {
    pub rows: Vec<Row>,
    /// Row index of each *visible* file's header, parallel to `visible_files`.
    pub file_starts: Vec<usize>,
    /// `Changeset::files` index of each visible file, in stream order.
    pub visible_files: Vec<usize>,
    /// Row index where each hunk begins, in stream order.
    pub hunk_starts: Vec<usize>,
    /// Widest rendered row, in columns (one column in split layout).
    pub content_w: usize,
    /// The layout these rows were built for.
    pub layout: LayoutMode,
}

/// The mathematical content of a [`Plan`].
pub struct PlanV {
    pub rows: Seq<RowV>,
    pub file_starts: Seq<usize>,
    pub visible_files: Seq<usize>,
    pub hunk_starts: Seq<usize>,
    pub content_w: usize,
    pub layout: LayoutMode,
}

impl View for Plan {
    type V = PlanV;

    open spec fn view(&self) -> PlanV {
        PlanV {
            rows: self.rows@.map_values(|r: Row| r@),
            file_starts: self.file_starts@,
            visible_files: self.visible_files@,
            hunk_starts: self.hunk_starts@,
            content_w: self.content_w,
            layout: self.layout,
        }
    }
}

/// A row's content identity: the file, which side of the diff, and the line
/// number on that side.
pub type Key = (usize, Side, u32);

pub open spec fn spec_cell_key(c: Option<CellV>) -> Option<Key> {
    match c {
        Some(c) => match c.lineno {
            Some(n) => Some((c.file, if c.side_new { Side::New } else { Side::Old }, n)),
            None => None,
        },
        None => None,
    }
}

/// Every identity a row carries, old side first: a unified line carries one
/// per side it has a number on, a split pair one per populated cell, and every
/// chrome row none.
pub open spec fn spec_row_keys(r: RowV) -> (Option<Key>, Option<Key>) {
    match r {
        RowV::Line { file, old, new, .. } => (
            match old {
                Some(n) => Some((file, Side::Old, n)),
                None => None,
            },
            match new {
                Some(n) => Some((file, Side::New, n)),
                None => None,
            },
        ),
        RowV::Pair(l, r) => (spec_cell_key(l), spec_cell_key(r)),
        _ => (None, None),
    }
}

/// Whether row `r` carries `key` on either side.
pub open spec fn row_has_key(r: RowV, key: Key) -> bool {
    spec_row_keys(r).0 == Some(key) || spec_row_keys(r).1 == Some(key)
}

/// The key to re-anchor row `row` by: its new side when it has one, else its old.
pub open spec fn spec_cursor_key(p: PlanV, row: int) -> Option<Key> {
    if 0 <= row < p.rows.len() {
        let (o, n) = spec_row_keys(p.rows[row]);
        if n is Some {
            n
        } else {
            o
        }
    } else {
        None
    }
}

fn key_is(k: Option<Key>, key: Key) -> (r: bool)
    ensures
        r == (k == Some(key)),
{
    match k {
        Some((f, s, n)) => f == key.0 && n == key.2 && match (s, key.1) {
            (Side::Old, Side::Old) => true,
            (Side::New, Side::New) => true,
            _ => false,
        },
        None => false,
    }
}

fn cell_key(cell: &Option<SplitCell>) -> (k: Option<Key>)
    ensures
        k == spec_cell_key(opt_cell(*cell)),
{
    match cell {
        Some(c) => match c.lineno {
            Some(n) => Some((c.file, if c.side_new { Side::New } else { Side::Old }, n)),
            None => None,
        },
        None => None,
    }
}

/// Every identity a row carries, old side first.
pub fn row_keys(row: &Row) -> (k: (Option<Key>, Option<Key>))
    ensures
        k == spec_row_keys(row@),
{
    match row {
        Row::Line { file, old, new, .. } => (
            match old {
                Some(n) => Some((*file, Side::Old, *n)),
                None => None,
            },
            match new {
                Some(n) => Some((*file, Side::New, *n)),
                None => None,
            },
        ),
        Row::Pair(l, r) => (cell_key(l), cell_key(r)),
        _ => (None, None),
    }
}

/// The single key to re-anchor `row` by: the new side when the row carries
/// one, the old side otherwise; `None` past the end or on a keyless row.
pub fn cursor_key(plan: &Plan, row: usize) -> (k: Option<Key>)
    ensures
        k == spec_cursor_key(plan@, row as int),
{
    if row >= plan.rows.len() {
        return None;
    }
    let (old, new) = row_keys(&plan.rows[row]);
    match new {
        Some(_) => new,
        None => old,
    }
}

/// The first row carrying `key`, if any.
pub open spec fn spec_find_key(p: PlanV, key: Key) -> Option<int> {
    if exists|i: int| 0 <= i < p.rows.len() && row_has_key(#[trigger] p.rows[i], key) {
        Some(
            choose|i: int|
                0 <= i < p.rows.len() && row_has_key(#[trigger] p.rows[i], key) && forall|j: int|
                    0 <= j < i ==> !row_has_key(#[trigger] p.rows[j], key),
        )
    } else {
        None
    }
}

/// The first index satisfying a predicate is unique.
pub proof fn lemma_first_unique(p: PlanV, key: Key, i: int)
    requires
        0 <= i < p.rows.len(),
        row_has_key(p.rows[i], key),
        forall|j: int| 0 <= j < i ==> !row_has_key(#[trigger] p.rows[j], key),
    ensures
        spec_find_key(p, key) == Some(i),
{
    let k = choose|k: int|
        0 <= k < p.rows.len() && row_has_key(#[trigger] p.rows[k], key) && forall|j: int|
            0 <= j < k ==> !row_has_key(#[trigger] p.rows[j], key);
    assert(0 <= k < p.rows.len() && row_has_key(p.rows[k], key));
    if k < i {
        assert(!row_has_key(p.rows[k], key));
    }
    if i < k {
        assert(!row_has_key(p.rows[i], key));
    }
}

/// The row carrying `key`, if any (the first one, should several).
pub fn find_key(plan: &Plan, key: Key) -> (r: Option<usize>)
    ensures
        r matches Some(i) ==> spec_find_key(plan@, key) == Some(i as int),
        r is None ==> spec_find_key(plan@, key) is None,
{
    let mut i: usize = 0;
    while i < plan.rows.len()
        invariant
            i <= plan.rows@.len(),
            forall|j: int| 0 <= j < i ==> !row_has_key(#[trigger] plan@.rows[j], key),
        decreases plan.rows@.len() - i,
    {
        let (old, new) = row_keys(&plan.rows[i]);
        if key_is(old, key) || key_is(new, key) {
            proof {
                lemma_first_unique(plan@, key, i as int);
            }
            return Some(i);
        }
        i = i + 1;
    }
    None
}

/// The first position of `x` in `s`.
pub open spec fn spec_position(s: Seq<usize>, x: usize) -> Option<int> {
    if exists|i: int| 0 <= i < s.len() && s[i] == x {
        Some(choose|i: int| 0 <= i < s.len() && s[i] == x && forall|j: int| 0 <= j < i ==> s[j] != x)
    } else {
        None
    }
}

pub proof fn lemma_position_unique(s: Seq<usize>, x: usize, i: int)
    requires
        0 <= i < s.len(),
        s[i] == x,
        forall|j: int| 0 <= j < i ==> s[j] != x,
    ensures
        spec_position(s, x) == Some(i),
{
    let k = choose|k: int| 0 <= k < s.len() && s[k] == x && forall|j: int| 0 <= j < k ==> s[j] != x;
    assert(0 <= k < s.len() && s[k] == x);
}

/// The first position of `x` in `v`.
fn position(v: &Vec<usize>, x: usize) -> (r: Option<usize>)
    ensures
        r matches Some(i) ==> spec_position(v@, x) == Some(i as int),
        r is None ==> spec_position(v@, x) is None,
{
    let mut i: usize = 0;
    while i < v.len()
        invariant
            i <= v@.len(),
            forall|j: int| 0 <= j < i ==> v@[j] != x,
        decreases v@.len() - i,
    {
        if v[i] == x {
            proof {
                lemma_position_unique(v@, x, i as int);
            }
            return Some(i);
        }
        i = i + 1;
    }
    None
}

pub open spec fn is_dir_row(r: RowV, dir: Seq<char>) -> bool {
    r matches RowV::CollapsedDir { dir: d, .. } && d == dir
}

/// The row of the folded-directory placeholder for `dir`, if present.
pub open spec fn spec_collapsed_row(p: PlanV, dir: Seq<char>) -> Option<int> {
    if exists|i: int| 0 <= i < p.rows.len() && is_dir_row(#[trigger] p.rows[i], dir) {
        Some(
            choose|i: int|
                0 <= i < p.rows.len() && is_dir_row(#[trigger] p.rows[i], dir) && forall|j: int|
                    0 <= j < i ==> !is_dir_row(#[trigger] p.rows[j], dir),
        )
    } else {
        None
    }
}

pub proof fn lemma_collapsed_unique(p: PlanV, dir: Seq<char>, i: int)
    requires
        0 <= i < p.rows.len(),
        is_dir_row(p.rows[i], dir),
        forall|j: int| 0 <= j < i ==> !is_dir_row(#[trigger] p.rows[j], dir),
    ensures
        spec_collapsed_row(p, dir) == Some(i),
{
    let k = choose|k: int|
        0 <= k < p.rows.len() && is_dir_row(#[trigger] p.rows[k], dir) && forall|j: int|
            0 <= j < k ==> !is_dir_row(#[trigger] p.rows[j], dir);
    assert(0 <= k < p.rows.len() && is_dir_row(p.rows[k], dir));
    if k < i {
        assert(!is_dir_row(p.rows[k], dir));
    }
    if i < k {
        assert(!is_dir_row(p.rows[i], dir));
    }
}

impl Plan {
    /// The visible ordinal (index into `file_starts`/`visible_files`) of the
    /// file at `Changeset::files` index `fi`, or `None` when it is folded away.
    pub fn visible_ordinal(&self, fi: usize) -> (r: Option<usize>)
        ensures
            r matches Some(o) ==> spec_position(self@.visible_files, fi) == Some(o as int),
            r is None ==> spec_position(self@.visible_files, fi) is None,
    {
        position(&self.visible_files, fi)
    }

    /// Row index of the folded-directory placeholder for `dir`, if present.
    pub fn collapsed_row(&self, dir: &str) -> (r: Option<usize>)
        ensures
            r matches Some(i) ==> spec_collapsed_row(self@, dir@) == Some(i as int),
            r is None ==> spec_collapsed_row(self@, dir@) is None,
    {
        let mut i: usize = 0;
        while i < self.rows.len()
            invariant
                i <= self.rows@.len(),
                forall|j: int| 0 <= j < i ==> !is_dir_row(#[trigger] self@.rows[j], dir@),
            decreases self.rows@.len() - i,
        {
            if let Row::CollapsedDir { dir: d, .. } = &self.rows[i] {
                if str_eq(d.as_str(), dir) {
                    proof {
                        lemma_collapsed_unique(self@, dir@, i as int);
                    }
                    return Some(i);
                }
            }
            i = i + 1;
        }
        None
    }
}


/// Strictly increasing.
pub open spec fn sorted_strict(s: Seq<usize>) -> bool {
    forall|i: int, j: int| 0 <= i < j < s.len() ==> s[i] < s[j]
}

/// `k` names the region of `starts` that contains `row`: the last start at
/// or before `row`.
pub open spec fn is_region_of(starts: Seq<usize>, row: usize, k: int) -> bool {
    &&& 0 <= k < starts.len()
    &&& starts[k] <= row
    &&& (k + 1 == starts.len() || row < starts[k + 1])
}

/// Index of the region of `starts` containing `row`: the last start at or
/// before `row`, or 0 when `row` precedes every start (or there is none).
pub open spec fn spec_file_at(starts: Seq<usize>, row: usize) -> int {
    if starts.len() == 0 || row < starts[0] {
        0
    } else {
        choose|k: int| is_region_of(starts, row, k)
    }
}

/// Over strictly increasing starts the region is unique.
pub proof fn lemma_region_unique(starts: Seq<usize>, row: usize, k: int)
    requires
        sorted_strict(starts),
        is_region_of(starts, row, k),
    ensures
        spec_file_at(starts, row) == k,
{
    let c = choose|c: int| is_region_of(starts, row, c);
    assert(is_region_of(starts, row, c));
    if c < k {
        assert(starts[c + 1] <= starts[k]);
    }
    if k < c {
        assert(starts[k + 1] <= starts[c]);
    }
}

/// Index of the file whose region contains `row` (the last start <= row).
pub fn file_at(starts: &[usize], row: usize) -> (r: usize)
    ensures
        starts@.len() == 0 ==> r == 0,
        starts@.len() > 0 ==> r < starts@.len(),
        sorted_strict(starts@) ==> r == spec_file_at(starts@, row),
        sorted_strict(starts@) && starts@.len() > 0 && starts@[0] <= row ==> is_region_of(
            starts@,
            row,
            r as int,
        ),
{
    // `lo` becomes the first index whose start lies past `row`.
    let mut lo: usize = 0;
    let mut hi: usize = starts.len();
    while lo < hi
        invariant
            lo <= hi <= starts@.len(),
            sorted_strict(starts@) ==> forall|j: int| 0 <= j < lo ==> starts@[j] <= row,
            sorted_strict(starts@) ==> forall|j: int| hi <= j < starts@.len() ==> row < starts@[j],
        decreases hi - lo,
    {
        let mid = lo + (hi - lo) / 2;
        if starts[mid] <= row {
            lo = mid + 1;
        } else {
            hi = mid;
        }
    }
    if lo == 0 {
        0
    } else {
        proof {
            if sorted_strict(starts@) {
                lemma_region_unique(starts@, row, lo - 1);
            }
        }
        lo - 1
    }
}

/// The folded-directory name a row belongs to: the placeholder itself, or the
/// spacer immediately after one.
pub open spec fn spec_dir_at(p: PlanV, row: int) -> Option<Seq<char>> {
    if 0 <= row < p.rows.len() && p.rows[row] is CollapsedDir {
        Some(p.rows[row]->dir)
    } else if 1 <= row < p.rows.len() && p.rows[row] is Spacer && p.rows[row - 1] is CollapsedDir {
        Some(p.rows[row - 1]->dir)
    } else {
        None
    }
}

/// The folded directory a row belongs to, if `row` is a placeholder or the
/// spacer immediately after one.
pub fn dir_at(plan: &Plan, row: usize) -> (r: Option<&String>)
    ensures
        r matches Some(d) ==> spec_dir_at(plan@, row as int) == Some(d@),
        r is None ==> spec_dir_at(plan@, row as int) is None,
{
    if row < plan.rows.len() {
        if let Row::CollapsedDir { dir, .. } = &plan.rows[row] {
            return Some(dir);
        }
        if let Row::Spacer = &plan.rows[row] {
            if row >= 1 {
                if let Row::CollapsedDir { dir, .. } = &plan.rows[row - 1] {
                    return Some(dir);
                }
            }
        }
    }
    None
}

/// What the line cursor was pointing at, captured before a plan is rebuilt.
#[derive(Debug, PartialEq, Eq)]
pub enum CursorAnchor {
    /// A body row, identified by its content.
    Line(Key),
    /// A folded directory's placeholder (or the spacer that follows it).
    Dir(String),
    /// Any other row of a file, as an offset from the file's own header.
    InFile { file: usize, offset: usize },
    /// A row above the first file: the banner region, whose rows never move.
    Above(usize),
}

/// The mathematical content of a [`CursorAnchor`].
pub enum AnchorV {
    Line(Key),
    Dir(Seq<char>),
    InFile { file: usize, offset: usize },
    Above(usize),
}

impl View for CursorAnchor {
    type V = AnchorV;

    open spec fn view(&self) -> AnchorV {
        match self {
            CursorAnchor::Line(k) => AnchorV::Line(*k),
            CursorAnchor::Dir(d) => AnchorV::Dir(d@),
            CursorAnchor::InFile { file, offset } => AnchorV::InFile { file: *file, offset: *offset },
            CursorAnchor::Above(r) => AnchorV::Above(*r),
        }
    }
}

/// How the cursor's row is classified: a folded directory first, then a
/// keyed body row, then a row of some file, else the banner region.
pub open spec fn spec_capture(p: PlanV, row: usize) -> AnchorV {
    match spec_dir_at(p, row as int) {
        Some(d) => AnchorV::Dir(d),
        None => match spec_cursor_key(p, row as int) {
            Some(k) => AnchorV::Line(k),
            None => if p.file_starts.len() > 0 && p.file_starts[0] <= row {
                let ord = spec_file_at(p.file_starts, row);
                AnchorV::InFile {
                    file: if ord < p.visible_files.len() {
                        p.visible_files[ord]
                    } else {
                        0
                    },
                    offset: (row - p.file_starts[ord]) as usize,
                }
            } else {
                AnchorV::Above(row)
            },
        },
    }
}

/// Classify the cursor's row against the plan it currently sits in.
pub fn capture_cursor(plan: &Plan, row: usize) -> (a: CursorAnchor)
    requires
        sorted_strict(plan@.file_starts),
    ensures
        a@ == spec_capture(plan@, row),
{
    if let Some(dir) = dir_at(plan, row) {
        return CursorAnchor::Dir(dir.clone());
    }
    if let Some(key) = cursor_key(plan, row) {
        return CursorAnchor::Line(key);
    }
    if plan.file_starts.len() > 0 && plan.file_starts[0] <= row {
        let ord = file_at(plan.file_starts.as_slice(), row);
        let start = plan.file_starts[ord];
        let file = if ord < plan.visible_files.len() {
            plan.visible_files[ord]
        } else {
            0
        };
        CursorAnchor::InFile { file, offset: row - start }
    } else {
        CursorAnchor::Above(row)
    }
}


/// Row where a visible file's header sits, or `None` when it is folded away.
pub open spec fn spec_file_start_of(p: PlanV, file: usize) -> Option<usize> {
    match spec_position(p.visible_files, file) {
        Some(o) => if o < p.file_starts.len() {
            Some(p.file_starts[o])
        } else {
            None
        },
        None => None,
    }
}

/// Row where a file's header sits in this plan, or `None` when it is folded away.
pub fn file_start_of(plan: &Plan, file: usize) -> (r: Option<usize>)
    ensures
        r == spec_file_start_of(plan@, file),
{
    match plan.visible_ordinal(file) {
        Some(o) => if o < plan.file_starts.len() {
            Some(plan.file_starts[o])
        } else {
            None
        },
        None => None,
    }
}

/// Where a file's rows went: its header, or the placeholder of the directory
/// that swallowed it.
pub open spec fn spec_file_or_placeholder(p: PlanV, files: Seq<DiffFileV>, file: usize) -> Option<
    int,
> {
    match spec_file_start_of(p, file) {
        Some(s) => Some(s as int),
        None => if file < files.len() {
            spec_collapsed_row(p, spec_parent_dir(files[file as int].path))
        } else {
            None
        },
    }
}

fn file_or_placeholder(plan: &Plan, cs: &Changeset, file: usize) -> (r: Option<usize>)
    ensures
        r matches Some(i) ==> spec_file_or_placeholder(plan@, cs.files_v(), file) == Some(i as int),
        r is None ==> spec_file_or_placeholder(plan@, cs.files_v(), file) is None,
{
    match file_start_of(plan, file) {
        Some(s) => Some(s),
        None => if file < cs.files.len() {
            let d = parent_dir(cs.files[file].path.as_str());
            plan.collapsed_row(d.as_str())
        } else {
            None
        },
    }
}

/// The first spacer at or after `start`, else the last row (0 for no rows).
pub open spec fn spec_file_end(p: PlanV, start: int) -> int {
    if exists|i: int| start <= i < p.rows.len() && #[trigger] p.rows[i] is Spacer {
        choose|i: int|
            start <= i < p.rows.len() && #[trigger] p.rows[i] is Spacer && forall|j: int|
                start <= j < i ==> !(#[trigger] p.rows[j] is Spacer)
    } else if p.rows.len() == 0 {
        0
    } else {
        p.rows.len() - 1
    }
}

pub proof fn lemma_file_end_is(p: PlanV, start: int, i: int)
    requires
        start <= i < p.rows.len(),
        p.rows[i] is Spacer,
        forall|j: int| start <= j < i ==> !(#[trigger] p.rows[j] is Spacer),
    ensures
        spec_file_end(p, start) == i,
{
    let k = choose|k: int|
        start <= k < p.rows.len() && #[trigger] p.rows[k] is Spacer && forall|j: int|
            start <= j < k ==> !(#[trigger] p.rows[j] is Spacer);
    assert(start <= k < p.rows.len() && p.rows[k] is Spacer);
    if k < i {
        assert(!(p.rows[k] is Spacer));
    }
    if i < k {
        assert(!(p.rows[i] is Spacer));
    }
}

/// Last row belonging to the file whose header is at `start`: the first
/// spacer at or after it (every file's rows end with exactly one).
fn file_end(plan: &Plan, start: usize) -> (r: usize)
    ensures
        r == spec_file_end(plan@, start as int),
{
    let mut i: usize = start;
    while i < plan.rows.len()
        invariant
            start <= i,
            forall|j: int| start <= j < i && j < plan@.rows.len() ==> !(#[trigger] plan@.rows[j] is Spacer),
        decreases plan.rows@.len() - i,
    {
        if let Row::Spacer = &plan.rows[i] {
            proof {
                lemma_file_end_is(plan@, start as int, i as int);
            }
            return i;
        }
        i = i + 1;
    }
    if plan.rows.len() == 0 {
        0
    } else {
        plan.rows.len() - 1
    }
}

/// The first file whose parent directory is `dir`.
pub open spec fn spec_first_in_dir(files: Seq<DiffFileV>, dir: Seq<char>) -> Option<int> {
    if exists|i: int| 0 <= i < files.len() && spec_parent_dir(#[trigger] files[i].path) == dir {
        Some(
            choose|i: int|
                0 <= i < files.len() && spec_parent_dir(#[trigger] files[i].path) == dir
                    && forall|j: int| 0 <= j < i ==> spec_parent_dir(#[trigger] files[j].path) != dir,
        )
    } else {
        None
    }
}

pub proof fn lemma_first_in_dir_is(files: Seq<DiffFileV>, dir: Seq<char>, i: int)
    requires
        0 <= i < files.len(),
        spec_parent_dir(files[i].path) == dir,
        forall|j: int| 0 <= j < i ==> spec_parent_dir(#[trigger] files[j].path) != dir,
    ensures
        spec_first_in_dir(files, dir) == Some(i),
{
    let k = choose|k: int|
        0 <= k < files.len() && spec_parent_dir(#[trigger] files[k].path) == dir && forall|j: int|
            0 <= j < k ==> spec_parent_dir(#[trigger] files[j].path) != dir;
    assert(0 <= k < files.len() && spec_parent_dir(files[k].path) == dir);
}

/// The first file of `cs` whose parent directory is `dir`.
pub fn first_in_dir(cs: &Changeset, dir: &str) -> (r: Option<usize>)
    ensures
        r matches Some(i) ==> spec_first_in_dir(cs.files_v(), dir@) == Some(i as int),
        r is None ==> spec_first_in_dir(cs.files_v(), dir@) is None,
{
    let ghost files = cs.files_v();
    let mut i: usize = 0;
    while i < cs.files.len()
        invariant
            i <= cs.files@.len(),
            files == cs.files_v(),
            forall|j: int| 0 <= j < i ==> spec_parent_dir(#[trigger] files[j].path) != dir@,
        decreases cs.files@.len() - i,
    {
        let d = parent_dir(cs.files[i].path.as_str());
        if str_eq(d.as_str(), dir) {
            proof {
                lemma_first_in_dir_is(files, dir@, i as int);
            }
            return Some(i);
        }
        i = i + 1;
    }
    None
}

/// The last row index (0 for an empty plan).
pub open spec fn spec_last(p: PlanV) -> int {
    if p.rows.len() == 0 {
        0
    } else {
        p.rows.len() - 1
    }
}

/// Where a captured cursor lands in a freshly built plan, before the final
/// clamp to the last row.
pub open spec fn spec_restore_raw(p: PlanV, a: AnchorV, files: Seq<DiffFileV>) -> int {
    let last = spec_last(p);
    match a {
        AnchorV::Line(key) => match spec_find_key(p, key) {
            Some(i) => i,
            None => match spec_file_or_placeholder(p, files, key.0) {
                Some(i) => i,
                None => last,
            },
        },
        AnchorV::Dir(dir) => match spec_collapsed_row(p, dir) {
            Some(i) => i,
            None => match spec_first_in_dir(files, dir) {
                Some(f) => match spec_file_start_of(p, f as usize) {
                    Some(s) => s as int,
                    None => last,
                },
                None => last,
            },
        },
        AnchorV::InFile { file, offset } => match spec_file_or_placeholder(p, files, file) {
            Some(start) => {
                let end = spec_file_end(p, start);
                if start + offset < end {
                    start + offset
                } else {
                    end
                }
            },
            None => last,
        },
        AnchorV::Above(row) => row as int,
    }
}

/// Where a captured cursor lands in a freshly built plan.
pub open spec fn spec_restore(p: PlanV, a: AnchorV, files: Seq<DiffFileV>) -> int {
    let raw = spec_restore_raw(p, a, files);
    if raw < spec_last(p) {
        raw
    } else {
        spec_last(p)
    }
}

/// Some row carrying `key` is the first to carry it.
pub proof fn lemma_first_key_exists(p: PlanV, key: Key, k: int)
    requires
        0 <= k < p.rows.len(),
        row_has_key(p.rows[k], key),
    ensures
        exists|i: int|
            0 <= i <= k && row_has_key(#[trigger] p.rows[i], key) && forall|j: int|
                0 <= j < i ==> !row_has_key(#[trigger] p.rows[j], key),
    decreases k,
{
    if exists|j: int| 0 <= j < k && row_has_key(#[trigger] p.rows[j], key) {
        let j = choose|j: int| 0 <= j < k && row_has_key(#[trigger] p.rows[j], key);
        lemma_first_key_exists(p, key, j);
    }
}

/// Some placeholder row for `dir` is the first one.
proof fn lemma_first_dir_exists(p: PlanV, dir: Seq<char>, k: int)
    requires
        0 <= k < p.rows.len(),
        is_dir_row(p.rows[k], dir),
    ensures
        exists|i: int|
            0 <= i <= k && is_dir_row(#[trigger] p.rows[i], dir) && forall|j: int|
                0 <= j < i ==> !is_dir_row(#[trigger] p.rows[j], dir),
    decreases k,
{
    if exists|j: int| 0 <= j < k && is_dir_row(#[trigger] p.rows[j], dir) {
        let j = choose|j: int| 0 <= j < k && is_dir_row(#[trigger] p.rows[j], dir);
        lemma_first_dir_exists(p, dir, j);
    }
}

/// A found key's row is a row of the plan carrying the key.
pub proof fn lemma_find_key_bounds(p: PlanV, key: Key)
    ensures
        spec_find_key(p, key) matches Some(i) ==> 0 <= i < p.rows.len() && row_has_key(p.rows[i], key),
{
    if exists|i: int| 0 <= i < p.rows.len() && row_has_key(#[trigger] p.rows[i], key) {
        let k = choose|i: int| 0 <= i < p.rows.len() && row_has_key(#[trigger] p.rows[i], key);
        lemma_first_key_exists(p, key, k);
    }
}

/// A found placeholder row is a placeholder of the plan for that directory.
pub proof fn lemma_collapsed_row_bounds(p: PlanV, dir: Seq<char>)
    ensures
        spec_collapsed_row(p, dir) matches Some(i) ==> 0 <= i < p.rows.len() && is_dir_row(p.rows[i], dir),
{
    if exists|i: int| 0 <= i < p.rows.len() && is_dir_row(#[trigger] p.rows[i], dir) {
        let k = choose|i: int| 0 <= i < p.rows.len() && is_dir_row(#[trigger] p.rows[i], dir);
        lemma_first_dir_exists(p, dir, k);
    }
}

/// Some spacer at or after `start` is the first one.
proof fn lemma_first_spacer_exists(p: PlanV, start: int, k: int)
    requires
        start <= k < p.rows.len(),
        p.rows[k] is Spacer,
    ensures
        exists|i: int|
            start <= i <= k && #[trigger] p.rows[i] is Spacer && forall|j: int|
                start <= j < i ==> !(#[trigger] p.rows[j] is Spacer),
    decreases k - start,
{
    if exists|j: int| start <= j < k && #[trigger] p.rows[j] is Spacer {
        let j = choose|j: int| start <= j < k && #[trigger] p.rows[j] is Spacer;
        lemma_first_spacer_exists(p, start, j);
    }
}

/// A file's end lies inside the plan, at or after its start.
proof fn lemma_file_end_bounds(p: PlanV, start: int)
    requires
        0 <= start,
    ensures
        0 <= spec_file_end(p, start),
        p.rows.len() > 0 ==> spec_file_end(p, start) < p.rows.len(),
{
    if exists|i: int| start <= i < p.rows.len() && #[trigger] p.rows[i] is Spacer {
        let k = choose|i: int| start <= i < p.rows.len() && #[trigger] p.rows[i] is Spacer;
        lemma_first_spacer_exists(p, start, k);
    }
}

/// Where a file's rows went is a row of the plan.
proof fn lemma_file_or_placeholder_bounds(p: PlanV, files: Seq<DiffFileV>, file: usize)
    ensures
        spec_file_or_placeholder(p, files, file) matches Some(i) ==> 0 <= i,
{
    if file < files.len() {
        lemma_collapsed_row_bounds(p, spec_parent_dir(files[file as int].path));
    }
}

/// The unclamped landing row is never negative.
proof fn lemma_restore_raw_nonneg(p: PlanV, a: AnchorV, files: Seq<DiffFileV>)
    ensures
        0 <= spec_restore_raw(p, a, files),
{
    match a {
        AnchorV::Line(key) => {
            lemma_find_key_bounds(p, key);
            lemma_file_or_placeholder_bounds(p, files, key.0);
        },
        AnchorV::Dir(dir) => {
            lemma_collapsed_row_bounds(p, dir);
        },
        AnchorV::InFile { file, offset } => {
            lemma_file_or_placeholder_bounds(p, files, file);
            if let Some(start) = spec_file_or_placeholder(p, files, file) {
                lemma_file_end_bounds(p, start);
            }
        },
        AnchorV::Above(_) => {},
    }
}

/// Some position holding `x` is the first one.
proof fn lemma_first_position_exists(s: Seq<usize>, x: usize, k: int)
    requires
        0 <= k < s.len(),
        s[k] == x,
    ensures
        exists|i: int| 0 <= i <= k && s[i] == x && forall|j: int| 0 <= j < i ==> s[j] != x,
    decreases k,
{
    if exists|j: int| 0 <= j < k && s[j] == x {
        let j = choose|j: int| 0 <= j < k && s[j] == x;
        lemma_first_position_exists(s, x, j);
    }
}

/// A found position holds `x`.
pub proof fn lemma_position_bounds(s: Seq<usize>, x: usize)
    ensures
        spec_position(s, x) matches Some(i) ==> 0 <= i < s.len() && s[i] == x,
{
    if exists|i: int| 0 <= i < s.len() && s[i] == x {
        let k = choose|i: int| 0 <= i < s.len() && s[i] == x;
        lemma_first_position_exists(s, x, k);
    }
}

/// A visible file's header row lies inside the plan.
pub proof fn lemma_file_start_bounds(p: PlanV, file: usize)
    requires
        starts_ok(p),
    ensures
        spec_file_start_of(p, file) matches Some(r) ==> r < p.rows.len(),
{
    lemma_position_bounds(p.visible_files, file);
}

/// Some file directly in `dir` is the first one.
pub proof fn lemma_first_in_dir_exists(files: Seq<DiffFileV>, dir: Seq<char>, k: int)
    requires
        0 <= k < files.len(),
        spec_parent_dir(files[k].path) == dir,
    ensures
        exists|i: int|
            0 <= i <= k && spec_parent_dir(#[trigger] files[i].path) == dir && forall|j: int|
                0 <= j < i ==> spec_parent_dir(#[trigger] files[j].path) != dir,
    decreases k,
{
    if exists|j: int| 0 <= j < k && spec_parent_dir(#[trigger] files[j].path) == dir {
        let j = choose|j: int| 0 <= j < k && spec_parent_dir(#[trigger] files[j].path) == dir;
        lemma_first_in_dir_exists(files, dir, j);
    }
}

/// A directory's first file is a file of the changeset directly in it.
pub proof fn lemma_first_in_dir_bounds(files: Seq<DiffFileV>, dir: Seq<char>)
    ensures
        spec_first_in_dir(files, dir) matches Some(i) ==> 0 <= i < files.len() && spec_parent_dir(files[i].path)
            == dir,
{
    if exists|i: int| 0 <= i < files.len() && spec_parent_dir(#[trigger] files[i].path) == dir {
        let k = choose|i: int| 0 <= i < files.len() && spec_parent_dir(#[trigger] files[i].path) == dir;
        lemma_first_in_dir_exists(files, dir, k);
    }
}

/// Restoring never leaves the plan: the row is at most the last one (and 0
/// for an empty plan), whatever was captured and whatever the files are.
pub proof fn law_restore_in_range(p: PlanV, a: AnchorV, files: Seq<DiffFileV>)
    ensures
        0 <= spec_restore(p, a, files) <= spec_last(p),
        p.rows.len() > 0 ==> spec_restore(p, a, files) < p.rows.len(),
{
    lemma_restore_raw_nonneg(p, a, files);
}

/// Place the cursor in a freshly built plan.
pub fn restore_cursor(plan: &Plan, anchor: &CursorAnchor, cs: &Changeset) -> (r: usize)
    ensures
        r == spec_restore(plan@, anchor@, cs.files_v()),
{
    let last = if plan.rows.len() == 0 {
        0
    } else {
        plan.rows.len() - 1
    };
    let row = match anchor {
        CursorAnchor::Line(key) => match find_key(plan, *key) {
            Some(i) => i,
            None => match file_or_placeholder(plan, cs, key.0) {
                Some(i) => i,
                None => last,
            },
        },
        CursorAnchor::Dir(dir) => match plan.collapsed_row(dir.as_str()) {
            Some(i) => i,
            None => match first_in_dir(cs, dir.as_str()) {
                Some(f) => match file_start_of(plan, f) {
                    Some(s) => s,
                    None => last,
                },
                None => last,
            },
        },
        CursorAnchor::InFile { file, offset } => match file_or_placeholder(plan, cs, *file) {
            Some(start) => {
                let end = file_end(plan, start);
                if start <= end && *offset < end - start {
                    start + *offset
                } else {
                    end
                }
            },
            None => last,
        },
        CursorAnchor::Above(row) => *row,
    };
    if row < last {
        row
    } else {
        last
    }
}


// ---- building --------------------------------------------------------------

/// Columns the line-number gutter + sign prefix occupy before the body text.
pub const GUTTER_W: usize = 6;

/// The rows as mathematical values.
pub open spec fn rows_v(v: Seq<Row>) -> Seq<RowV> {
    v.map_values(|r: Row| r@)
}

fn push_row(rows: &mut Vec<Row>, r: Row)
    ensures
        rows_v(final(rows)@) == rows_v(old(rows)@).push(r@),
{
    let ghost before = rows@;
    let ghost rv = r@;
    rows.push(r);
    assert(rows_v(rows@) =~= rows_v(before).push(rv));
}

/// The banner rows: one per line, then a spacer (nothing for no banner).
pub open spec fn banner_rows(banner: Seq<Seq<char>>) -> Seq<RowV> {
    banner.map_values(|l: Seq<char>| RowV::Banner(l)) + if banner.len() > 0 {
        seq![RowV::Spacer]
    } else {
        Seq::empty()
    }
}

/// A stacked diff line of file `fi`.
pub open spec fn line_row(fi: usize, l: LineV) -> RowV {
    RowV::Line { file: fi, kind: l.kind, old: l.old, new: l.new, text: l.text, emphasis: l.emphasis }
}

/// The left (old-side) cell of a removed line.
pub open spec fn rem_cell(fi: usize, l: LineV) -> CellV {
    CellV {
        file: fi,
        side_new: false,
        lineno: l.old,
        kind: LineKind::Removed,
        text: l.text,
        emphasis: l.emphasis,
    }
}

/// The right (new-side) cell of an added line.
pub open spec fn add_cell(fi: usize, l: LineV) -> CellV {
    CellV {
        file: fi,
        side_new: true,
        lineno: l.new,
        kind: LineKind::Added,
        text: l.text,
        emphasis: l.emphasis,
    }
}

/// A context line, aligned on both sides.
pub open spec fn ctx_pair(fi: usize, l: LineV) -> RowV {
    RowV::Pair(
        Some(
            CellV {
                file: fi,
                side_new: false,
                lineno: l.old,
                kind: LineKind::Context,
                text: l.text,
                emphasis: None,
            },
        ),
        Some(
            CellV {
                file: fi,
                side_new: true,
                lineno: l.new,
                kind: LineKind::Context,
                text: l.text,
                emphasis: None,
            },
        ),
    )
}

/// Pending removals paired row-for-row with pending insertions.
pub open spec fn flush_rows(fi: usize, rem: Seq<LineV>, add: Seq<LineV>) -> Seq<RowV> {
    Seq::new(
        if rem.len() >= add.len() {
            rem.len()
        } else {
            add.len()
        },
        |i: int|
            RowV::Pair(
                if i < rem.len() {
                    Some(rem_cell(fi, rem[i]))
                } else {
                    None
                },
                if i < add.len() {
                    Some(add_cell(fi, add[i]))
                } else {
                    None
                },
            ),
    )
}

/// The split rows of `lines`, given removals and insertions still waiting to
/// be paired: each run of changes between context lines becomes paired rows,
/// each context line one aligned row.
pub open spec fn split_rows(fi: usize, lines: Seq<LineV>, rem: Seq<LineV>, add: Seq<LineV>) -> Seq<
    RowV,
>
    decreases lines.len(),
{
    if lines.len() == 0 {
        flush_rows(fi, rem, add)
    } else {
        let l = lines[0];
        match l.kind {
            LineKind::Context => flush_rows(fi, rem, add) + seq![ctx_pair(fi, l)] + split_rows(
                fi,
                lines.drop_first(),
                Seq::empty(),
                Seq::empty(),
            ),
            LineKind::Removed => split_rows(fi, lines.drop_first(), rem.push(l), add),
            LineKind::Added => split_rows(fi, lines.drop_first(), rem, add.push(l)),
        }
    }
}

/// A hunk's body rows in the given layout.
pub open spec fn hunk_body(fi: usize, h: HunkV, split: bool) -> Seq<RowV> {
    if split {
        split_rows(fi, h.lines, Seq::empty(), Seq::empty())
    } else {
        h.lines.map_values(|l: LineV| line_row(fi, l))
    }
}

/// A hunk's last new-side line number.
pub open spec fn hunk_end(h: HunkV) -> int {
    h.new_start + if h.new_len == 0 {
        0int
    } else {
        h.new_len - 1
    }
}

/// Hunk `k`'s rows: a gap marker (for every hunk but the first) aligned to the
/// previous hunk's last new-side line, then its body.
pub open spec fn hunk_rows(fi: usize, hunks: Seq<HunkV>, k: int, split: bool) -> Seq<RowV> {
    (if k > 0 {
        seq![RowV::HunkHeader(hunk_end(hunks[k - 1]) as u32)]
    } else {
        Seq::empty()
    }) + hunk_body(fi, hunks[k], split)
}

/// The rows of the first `k` hunks.
pub open spec fn hunks_rows(fi: usize, hunks: Seq<HunkV>, k: int, split: bool) -> Seq<RowV>
    decreases k,
{
    if k <= 0 {
        Seq::empty()
    } else {
        hunks_rows(fi, hunks, k - 1, split) + hunk_rows(fi, hunks, k - 1, split)
    }
}

/// The start rows of the first `k` hunks, with the first hunk at row `base`.
pub open spec fn hunk_starts_of(fi: usize, hunks: Seq<HunkV>, split: bool, base: int, k: int) -> Seq<
    usize,
>
    decreases k,
{
    if k <= 0 {
        Seq::empty()
    } else {
        hunk_starts_of(fi, hunks, split, base, k - 1).push(
            (base + hunks_rows(fi, hunks, k - 1, split).len()) as usize,
        )
    }
}

pub open spec fn max_int(a: int, b: int) -> int {
    if a >= b {
        a
    } else {
        b
    }
}

/// The widest of the first `j` lines, gutter included.
pub open spec fn lines_w(lines: Seq<LineV>, j: int) -> int
    decreases j,
{
    if j <= 0 {
        0
    } else {
        max_int(lines_w(lines, j - 1), GUTTER_W + lines[j - 1].text.len())
    }
}

/// The widest line of the first `k` hunks, gutter included.
pub open spec fn hunks_w(hunks: Seq<HunkV>, k: int) -> int
    decreases k,
{
    if k <= 0 {
        0
    } else {
        max_int(hunks_w(hunks, k - 1), lines_w(hunks[k - 1].lines, hunks[k - 1].lines.len() as int))
    }
}

/// Whether file `k` is marked reviewed (missing marks read as unreviewed).
pub open spec fn viewed_at(viewed: Seq<bool>, k: int) -> bool {
    0 <= k < viewed.len() && viewed[k]
}

/// Whether a file's hunks are laid out (it is neither reviewed, undiffed,
/// nor a binary in split layout).
pub open spec fn shows_hunks(f: DiffFileV, viewed: bool, split: bool) -> bool {
    !viewed && f.diffed && !(f.is_binary && split)
}

/// The binary-file note shown in stacked layout.
pub open spec fn binary_note(fi: usize) -> RowV {
    RowV::Line {
        file: fi,
        kind: LineKind::Context,
        old: None,
        new: None,
        text: "Binary file — no preview"@,
        emphasis: None,
    }
}

/// Rows that precede a file's first hunk, after its header.
pub open spec fn note_rows(fi: usize, f: DiffFileV) -> Seq<RowV> {
    if f.is_binary {
        seq![binary_note(fi)]
    } else {
        Seq::empty()
    }
}

/// The rows under a visible file's header: a reviewed placeholder, a pending
/// placeholder, nothing for a binary in split layout, or the note and hunks;
/// always closed by one spacer.
pub open spec fn file_body(fi: usize, f: DiffFileV, viewed: bool, split: bool) -> Seq<RowV> {
    if viewed {
        seq![RowV::Collapsed(f.hunks.len() as usize), RowV::Spacer]
    } else if !f.diffed {
        seq![RowV::Pending, RowV::Spacer]
    } else if f.is_binary && split {
        seq![RowV::Spacer]
    } else {
        note_rows(fi, f) + hunks_rows(fi, f.hunks, f.hunks.len() as int, split) + seq![RowV::Spacer]
    }
}

/// Whether file `fi` starts a new directory run.
pub open spec fn first_of_dir(files: Seq<DiffFileV>, fi: int) -> bool {
    fi == 0 || spec_parent_dir(files[fi - 1].path) != spec_parent_dir(files[fi].path)
}

/// The length of the run of consecutive files, from `i`, directly in `dir`.
pub open spec fn run_len(files: Seq<DiffFileV>, dir: Seq<char>, i: int) -> int
    decreases files.len() - i,
{
    if 0 <= i < files.len() && spec_parent_dir(files[i].path) == dir {
        1 + run_len(files, dir, i + 1)
    } else {
        0
    }
}

/// How many of files `lo..lo+n` are marked reviewed.
pub open spec fn count_viewed(viewed: Seq<bool>, lo: int, n: int) -> int
    decreases n,
{
    if n <= 0 {
        0
    } else {
        count_viewed(viewed, lo, n - 1) + if viewed_at(viewed, lo + n - 1) {
            1int
        } else {
            0
        }
    }
}

/// The plan after laying out the first `k` files.
pub open spec fn plan_upto(
    files: Seq<DiffFileV>,
    viewed: Seq<bool>,
    layout: LayoutMode,
    collapsed: Seq<Seq<char>>,
    banner: Seq<Seq<char>>,
    k: int,
) -> PlanV
    decreases k,
{
    if k <= 0 {
        PlanV {
            rows: banner_rows(banner),
            file_starts: Seq::empty(),
            visible_files: Seq::empty(),
            hunk_starts: Seq::empty(),
            content_w: 0,
            layout,
        }
    } else {
        let prev = plan_upto(files, viewed, layout, collapsed, banner, k - 1);
        let fi = k - 1;
        let f = files[fi];
        let dir = spec_parent_dir(f.path);
        let split = layout == LayoutMode::Split;
        if collapsed.contains(dir) {
            if first_of_dir(files, fi) {
                let n = run_len(files, dir, fi);
                PlanV {
                    rows: prev.rows + seq![
                        RowV::CollapsedDir {
                            dir,
                            n: n as usize,
                            reviewed: count_viewed(viewed, fi, n) as usize,
                        },
                        RowV::Spacer,
                    ],
                    ..prev
                }
            } else {
                prev
            }
        } else {
            let base = prev.rows.len();
            let v = viewed_at(viewed, fi);
            let shows = shows_hunks(f, v, split);
            PlanV {
                rows: prev.rows + seq![RowV::FileHeader(fi as usize)] + file_body(
                    fi as usize,
                    f,
                    v,
                    split,
                ),
                file_starts: prev.file_starts.push(base as usize),
                visible_files: prev.visible_files.push(fi as usize),
                hunk_starts: if shows {
                    prev.hunk_starts + hunk_starts_of(
                        fi as usize,
                        f.hunks,
                        split,
                        (base + 1 + note_rows(fi as usize, f).len()) as int,
                        f.hunks.len() as int,
                    )
                } else {
                    prev.hunk_starts
                },
                content_w: if shows {
                    max_int(prev.content_w as int, hunks_w(f.hunks, f.hunks.len() as int)) as usize
                } else {
                    prev.content_w
                },
                layout,
            }
        }
    }
}

/// Laying out files never changes the plan's layout.
pub proof fn lemma_plan_layout(
    files: Seq<DiffFileV>,
    viewed: Seq<bool>,
    layout: LayoutMode,
    collapsed: Seq<Seq<char>>,
    banner: Seq<Seq<char>>,
    k: int,
)
    ensures
        plan_upto(files, viewed, layout, collapsed, banner, k).layout == layout,
    decreases k,
{
    if k > 0 {
        lemma_plan_layout(files, viewed, layout, collapsed, banner, k - 1);
    }
}

/// The shape every laid-out prefix keeps: file starts strictly increase and
/// point inside the rows, one per visible file.
pub open spec fn starts_ok(p: PlanV) -> bool {
    &&& sorted_strict(p.file_starts)
    &&& forall|i: int| 0 <= i < p.file_starts.len() ==> #[trigger] p.file_starts[i] < p.rows.len()
    &&& p.visible_files.len() == p.file_starts.len()
}

/// Laying out files keeps file starts strictly increasing and inside the rows.
pub proof fn lemma_plan_starts(
    files: Seq<DiffFileV>,
    viewed: Seq<bool>,
    layout: LayoutMode,
    collapsed: Seq<Seq<char>>,
    banner: Seq<Seq<char>>,
    k: int,
)
    requires
        0 <= k <= files.len(),
        plan_upto(files, viewed, layout, collapsed, banner, k).rows.len() <= usize::MAX,
    ensures
        starts_ok(plan_upto(files, viewed, layout, collapsed, banner, k)),
    decreases k,
{
    if k > 0 {
        let prev = plan_upto(files, viewed, layout, collapsed, banner, k - 1);
        let cur = plan_upto(files, viewed, layout, collapsed, banner, k);
        assert(prev.rows.len() <= cur.rows.len());
        lemma_plan_starts(files, viewed, layout, collapsed, banner, k - 1);
        if cur.file_starts.len() > prev.file_starts.len() {
            assert(cur.file_starts == prev.file_starts.push(prev.rows.len() as usize));
            assert(cur.rows.len() > prev.rows.len());
        }
    }
}

/// The plan for a whole changeset.
pub open spec fn spec_build(
    files: Seq<DiffFileV>,
    viewed: Seq<bool>,
    layout: LayoutMode,
    collapsed: Seq<Seq<char>>,
    banner: Seq<Seq<char>>,
) -> PlanV {
    plan_upto(files, viewed, layout, collapsed, banner, files.len() as int)
}

/// The sizes a file's rows must fit: every hunk's last new-side line fits a
/// `u32`, and every line's width fits a `usize`.
pub open spec fn fits_file(f: DiffFileV) -> bool {
    &&& forall|k: int| 0 <= k < f.hunks.len() ==> hunk_end(#[trigger] f.hunks[k]) <= u32::MAX
    &&& forall|k: int, j: int|
        0 <= k < f.hunks.len() && 0 <= j < f.hunks[k].lines.len() ==> GUTTER_W + (
        #[trigger] f.hunks[k].lines[j]).text.len() <= usize::MAX
}

/// The sizes a plan's arithmetic must fit, for every file.
pub open spec fn fits(files: Seq<DiffFileV>) -> bool {
    forall|i: int| 0 <= i < files.len() ==> fits_file(#[trigger] files[i])
}

/// Whether a hunk's rows have arithmetic that fits.
fn hunk_fits(h: &Hunk) -> (r: bool)
    ensures
        r == (hunk_end(h@) <= u32::MAX && forall|j: int|
            0 <= j < h@.lines.len() ==> GUTTER_W + (#[trigger] h@.lines[j]).text.len() <= usize::MAX),
{
    let end: u64 = if h.new_len == 0 {
        h.new_start as u64
    } else {
        h.new_start as u64 + (h.new_len - 1) as u64
    };
    if end > u32::MAX as u64 {
        return false;
    }
    let mut j: usize = 0;
    while j < h.lines.len()
        invariant
            j <= h.lines@.len(),
            forall|x: int| 0 <= x < j ==> GUTTER_W + (#[trigger] h@.lines[x]).text.len() <= usize::MAX,
        decreases h.lines@.len() - j,
    {
        if h.lines[j].text.as_str().unicode_len() > usize::MAX - GUTTER_W {
            assert(h@.lines[j as int] == h.lines@[j as int]@);
            return false;
        }
        j = j + 1;
    }
    true
}

/// Whether a file's rows have arithmetic that fits (see [`fits_file`]).
pub fn file_fits(f: &DiffFile) -> (r: bool)
    ensures
        r == fits_file(f@),
{
    let mut k: usize = 0;
    while k < f.hunks.len()
        invariant
            k <= f.hunks@.len(),
            forall|x: int| 0 <= x < k ==> hunk_end(#[trigger] f@.hunks[x]) <= u32::MAX,
            forall|x: int, j: int|
                0 <= x < k && 0 <= j < f@.hunks[x].lines.len() ==> GUTTER_W + (
                #[trigger] f@.hunks[x].lines[j]).text.len() <= usize::MAX,
        decreases f.hunks@.len() - k,
    {
        assert(f@.hunks[k as int] == f.hunks@[k as int]@);
        if !hunk_fits(&f.hunks[k]) {
            return false;
        }
        k = k + 1;
    }
    true
}

/// Whether every file's rows have arithmetic that fits (see [`fits`]).
pub fn files_fit(files: &Vec<DiffFile>) -> (r: bool)
    ensures
        r == fits(files@.map_values(|f: DiffFile| f@)),
{
    let ghost v = files@.map_values(|f: DiffFile| f@);
    let mut i: usize = 0;
    while i < files.len()
        invariant
            i <= files@.len(),
            v == files@.map_values(|f: DiffFile| f@),
            forall|x: int| 0 <= x < i ==> fits_file(#[trigger] v[x]),
        decreases files@.len() - i,
    {
        if !file_fits(&files[i]) {
            assert(v[i as int] == files@[i as int]@);
            return false;
        }
        i = i + 1;
    }
    true
}



/// Prepend the commit-message banner: one banner row per line, then a
/// spacer; nothing for an empty banner.
fn prepend_banner(rows: &mut Vec<Row>, banner: &[String])
    ensures
        rows_v(final(rows)@) == rows_v(old(rows)@) + banner_rows(strs_v(banner@)),
{
    let ghost start = rows_v(rows@);
    let ghost b = strs_v(banner@);
    let mut i: usize = 0;
    while i < banner.len()
        invariant
            i <= banner@.len(),
            b == strs_v(banner@),
            rows_v(rows@) =~= start + b.take(i as int).map_values(|l: Seq<char>| RowV::Banner(l)),
        decreases banner@.len() - i,
    {
        push_row(rows, Row::Banner(banner[i].clone()));
        assert(b.take(i + 1).map_values(|l: Seq<char>| RowV::Banner(l)) =~= b.take(i as int).map_values(
            |l: Seq<char>| RowV::Banner(l),
        ).push(RowV::Banner(b[i as int])));
        i = i + 1;
    }
    assert(b.take(b.len() as int) =~= b);
    if banner.len() > 0 {
        push_row(rows, Row::Spacer);
    }
    assert(rows_v(rows@) =~= start + banner_rows(b));
}

/// The lines as mathematical values.
pub open spec fn lines_v(v: Seq<Line>) -> Seq<LineV> {
    v.map_values(|l: Line| l@)
}

/// The lines at positions `idx`.
pub open spec fn pick(lines: Seq<LineV>, idx: Seq<usize>) -> Seq<LineV> {
    idx.map_values(|j: usize| lines[j as int])
}

/// Pair pending removals with pending insertions, row for row.
fn flush(rows: &mut Vec<Row>, fi: usize, lines: &Vec<Line>, rem: &Vec<usize>, add: &Vec<usize>)
    requires
        forall|k: int| 0 <= k < rem@.len() ==> rem@[k] < lines@.len(),
        forall|k: int| 0 <= k < add@.len() ==> add@[k] < lines@.len(),
    ensures
        rows_v(final(rows)@) == rows_v(old(rows)@) + flush_rows(
            fi,
            pick(lines_v(lines@), rem@),
            pick(lines_v(lines@), add@),
        ),
{
    let ghost start = rows_v(rows@);
    let ghost target = flush_rows(fi, pick(lines_v(lines@), rem@), pick(lines_v(lines@), add@));
    let n = if rem.len() >= add.len() {
        rem.len()
    } else {
        add.len()
    };
    let mut i: usize = 0;
    while i < n
        invariant
            i <= n,
            n == target.len(),
            target == flush_rows(fi, pick(lines_v(lines@), rem@), pick(lines_v(lines@), add@)),
            forall|k: int| 0 <= k < rem@.len() ==> rem@[k] < lines@.len(),
            forall|k: int| 0 <= k < add@.len() ==> add@[k] < lines@.len(),
            rows_v(rows@) =~= start + target.take(i as int),
        decreases n - i,
    {
        let left = if i < rem.len() {
            let l = &lines[rem[i]];
            Some(
                SplitCell {
                    file: fi,
                    side_new: false,
                    lineno: l.old_lineno,
                    kind: LineKind::Removed,
                    text: l.text.clone(),
                    emphasis: l.emphasis,
                },
            )
        } else {
            None
        };
        let right = if i < add.len() {
            let l = &lines[add[i]];
            Some(
                SplitCell {
                    file: fi,
                    side_new: true,
                    lineno: l.new_lineno,
                    kind: LineKind::Added,
                    text: l.text.clone(),
                    emphasis: l.emphasis,
                },
            )
        } else {
            None
        };
        let r = Row::Pair(left, right);
        assert(r@ == target[i as int]);
        push_row(rows, r);
        assert(target.take(i + 1) =~= target.take(i as int).push(target[i as int]));
        i = i + 1;
    }
    assert(target.take(n as int) =~= target);
}

/// Emit a hunk's lines as split pair rows: removals are paired with
/// insertions row for row, context lines align on both sides.
fn emit_split_body(rows: &mut Vec<Row>, fi: usize, lines: &Vec<Line>)
    ensures
        rows_v(final(rows)@) == rows_v(old(rows)@) + split_rows(
            fi,
            lines_v(lines@),
            Seq::empty(),
            Seq::empty(),
        ),
{
    let ghost ls = lines_v(lines@);
    let ghost total = rows_v(rows@) + split_rows(fi, ls, Seq::empty(), Seq::empty());
    let mut rem: Vec<usize> = Vec::new();
    let mut add: Vec<usize> = Vec::new();
    let mut i: usize = 0;
    assert(ls.skip(0) =~= ls);
    assert(pick(ls, rem@) =~= Seq::<LineV>::empty());
    assert(pick(ls, add@) =~= Seq::<LineV>::empty());
    while i < lines.len()
        invariant
            i <= lines@.len(),
            ls == lines_v(lines@),
            forall|k: int| 0 <= k < rem@.len() ==> rem@[k] < i,
            forall|k: int| 0 <= k < add@.len() ==> add@[k] < i,
            total == rows_v(rows@) + split_rows(fi, ls.skip(i as int), pick(ls, rem@), pick(ls, add@)),
        decreases lines@.len() - i,
    {
        let ghost rest = ls.skip(i as int);
        assert(rest[0] == ls[i as int]);
        assert(rest.drop_first() =~= ls.skip(i + 1));
        let l = &lines[i];
        match l.kind {
            LineKind::Context => {
                let ghost before = rows_v(rows@);
                let ghost fl = flush_rows(fi, pick(ls, rem@), pick(ls, add@));
                flush(rows, fi, lines, &rem, &add);
                rem = Vec::new();
                add = Vec::new();
                let left = SplitCell {
                    file: fi,
                    side_new: false,
                    lineno: l.old_lineno,
                    kind: LineKind::Context,
                    text: l.text.clone(),
                    emphasis: None,
                };
                let right = SplitCell {
                    file: fi,
                    side_new: true,
                    lineno: l.new_lineno,
                    kind: LineKind::Context,
                    text: l.text.clone(),
                    emphasis: None,
                };
                let r = Row::Pair(Some(left), Some(right));
                assert(r@ == ctx_pair(fi, ls[i as int]));
                push_row(rows, r);
                assert(pick(ls, rem@) =~= Seq::<LineV>::empty());
                assert(pick(ls, add@) =~= Seq::<LineV>::empty());
                assert(rows_v(rows@) + split_rows(fi, ls.skip(i + 1), Seq::empty(), Seq::empty())
                    =~= before + (fl + seq![ctx_pair(fi, ls[i as int])] + split_rows(
                    fi,
                    ls.skip(i + 1),
                    Seq::empty(),
                    Seq::empty(),
                )));
            },
            LineKind::Removed => {
                let ghost pr = pick(ls, rem@);
                rem.push(i);
                assert(pick(ls, rem@) =~= pr.push(ls[i as int]));
            },
            LineKind::Added => {
                let ghost pa = pick(ls, add@);
                add.push(i);
                assert(pick(ls, add@) =~= pa.push(ls[i as int]));
            },
        }
        i = i + 1;
    }
    let ghost before = rows_v(rows@);
    assert(ls.skip(i as int) =~= Seq::<LineV>::empty());
    flush(rows, fi, lines, &rem, &add);
}


/// Whether `dirs` holds `d`.
pub fn dirs_contain(dirs: &[String], d: &str) -> (r: bool)
    ensures
        r == strs_v(dirs@).contains(d@),
{
    let ghost ds = strs_v(dirs@);
    let mut i: usize = 0;
    while i < dirs.len()
        invariant
            i <= dirs@.len(),
            ds == strs_v(dirs@),
            forall|j: int| 0 <= j < i ==> ds[j] != d@,
        decreases dirs@.len() - i,
    {
        if str_eq(dirs[i].as_str(), d) {
            assert(ds[i as int] == d@);
            return true;
        }
        i = i + 1;
    }
    false
}

proof fn lemma_run_len_bounds(files: Seq<DiffFileV>, dir: Seq<char>, i: int)
    requires
        0 <= i <= files.len(),
    ensures
        0 <= run_len(files, dir, i) <= files.len() - i,
    decreases files.len() - i,
{
    if i < files.len() && spec_parent_dir(files[i].path) == dir {
        lemma_run_len_bounds(files, dir, i + 1);
    }
}

/// How many consecutive files from `fi` sit directly in `dir`.
fn dir_run(cs: &Changeset, dir: &str, fi: usize) -> (n: usize)
    requires
        fi <= cs.files@.len(),
    ensures
        n == run_len(cs.files_v(), dir@, fi as int),
        fi + n <= cs.files@.len(),
{
    let ghost files = cs.files_v();
    let mut j: usize = fi;
    while j < cs.files.len()
        invariant
            fi <= j <= cs.files@.len(),
            files == cs.files_v(),
            run_len(files, dir@, fi as int) == (j - fi) + run_len(files, dir@, j as int),
        decreases cs.files@.len() - j,
    {
        let d = parent_dir(cs.files[j].path.as_str());
        if !str_eq(d.as_str(), dir) {
            return j - fi;
        }
        j = j + 1;
    }
    j - fi
}

proof fn lemma_count_viewed_bounds(viewed: Seq<bool>, lo: int, n: int)
    ensures
        0 <= count_viewed(viewed, lo, n) <= if n < 0 {
            0
        } else {
            n
        },
    decreases n,
{
    if n > 0 {
        lemma_count_viewed_bounds(viewed, lo, n - 1);
    }
}

/// How many of files `lo..lo+n` are marked reviewed.
fn viewed_in(viewed: &[bool], lo: usize, n: usize) -> (c: usize)
    requires
        lo + n <= usize::MAX,
    ensures
        c == count_viewed(viewed@, lo as int, n as int),
{
    let mut c: usize = 0;
    let mut t: usize = 0;
    while t < n
        invariant
            t <= n,
            lo + n <= usize::MAX,
            c == count_viewed(viewed@, lo as int, t as int),
        decreases n - t,
    {
        proof {
            lemma_count_viewed_bounds(viewed@, lo as int, t as int);
        }
        let k = lo + t;
        if k < viewed.len() && viewed[k] {
            c = c + 1;
        }
        t = t + 1;
    }
    c
}

/// The widest line of a hunk's first lines, folded into a running maximum.
fn widen(w: usize, lines: &Vec<Line>) -> (r: usize)
    requires
        forall|j: int| 0 <= j < lines@.len() ==> GUTTER_W + (#[trigger] lines@[j]).text@.len() <= usize::MAX,
    ensures
        r == max_int(w as int, lines_w(lines_v(lines@), lines@.len() as int)),
{
    let ghost ls = lines_v(lines@);
    let mut r = w;
    let mut j: usize = 0;
    while j < lines.len()
        invariant
            j <= lines@.len(),
            ls == lines_v(lines@),
            forall|t: int| 0 <= t < lines@.len() ==> GUTTER_W + (#[trigger] lines@[t]).text@.len() <= usize::MAX,
            r == max_int(w as int, lines_w(ls, j as int)),
        decreases lines@.len() - j,
    {
        let lw = GUTTER_W + lines[j].text.as_str().unicode_len();
        if lw > r {
            r = lw;
        }
        j = j + 1;
    }
    r
}

/// Emit every hunk of file `fi`: a gap marker before each but the first,
/// then its body; recording each hunk's start row and widening `content_w`.
fn emit_hunks(
    rows: &mut Vec<Row>,
    hunk_starts: &mut Vec<usize>,
    content_w: &mut usize,
    fi: usize,
    f: &DiffFile,
    split: bool,
)
    requires
        fits_file(f@),
    ensures
        rows_v(final(rows)@) == rows_v(old(rows)@) + hunks_rows(fi, f@.hunks, f@.hunks.len() as int, split),
        final(hunk_starts)@ == old(hunk_starts)@ + hunk_starts_of(
            fi,
            f@.hunks,
            split,
            old(rows)@.len() as int,
            f@.hunks.len() as int,
        ),
        *final(content_w) == max_int(*old(content_w) as int, hunks_w(f@.hunks, f@.hunks.len() as int)),
{
    let ghost fv = f@;
    let ghost head = rows_v(rows@);
    let ghost hs0 = hunk_starts@;
    let ghost w0 = *content_w;
    let ghost base = rows@.len() as int;
    assert(head.len() == base);
    assert(rows_v(rows@) =~= head + hunks_rows(fi, fv.hunks, 0, split));
    assert(hunk_starts@ =~= hs0 + hunk_starts_of(fi, fv.hunks, split, base, 0));
    let mut k: usize = 0;
    while k < f.hunks.len()
        invariant
            k <= f.hunks@.len(),
            fv == f@,
            fits_file(fv),
            head.len() == base,
            rows_v(rows@) == head + hunks_rows(fi, fv.hunks, k as int, split),
            hunk_starts@ == hs0 + hunk_starts_of(fi, fv.hunks, split, base, k as int),
            *content_w == max_int(w0 as int, hunks_w(fv.hunks, k as int)),
        decreases f.hunks@.len() - k,
    {
        let ghost r0 = rows_v(rows@);
        assert(r0.len() == rows@.len());
        hunk_starts.push(rows.len());
        assert(hunk_starts@ =~= hs0 + hunk_starts_of(fi, fv.hunks, split, base, k + 1));
        if k > 0 {
            let ph = &f.hunks[k - 1];
            assert(hunk_end(fv.hunks[k - 1]) <= u32::MAX);
            let end = ph.new_start + if ph.new_len == 0 {
                0
            } else {
                ph.new_len - 1
            };
            push_row(rows, Row::HunkHeader(end));
        }
        let ghost r1 = rows_v(rows@);
        let h = &f.hunks[k];
        assert(fv.hunks[k as int] == h@);
        assert forall|j: int| 0 <= j < h.lines@.len() implies GUTTER_W + (
        #[trigger] h.lines@[j]).text@.len() <= usize::MAX by {
            assert(fv.hunks[k as int].lines[j] == h.lines@[j]@);
        }
        *content_w = widen(*content_w, &h.lines);
        assert(lines_v(h.lines@) =~= fv.hunks[k as int].lines);
        if split {
            emit_split_body(rows, fi, &h.lines);
        } else {
            let mut j: usize = 0;
            while j < h.lines.len()
                invariant
                    j <= h.lines@.len(),
                    rows_v(rows@) =~= r1 + lines_v(h.lines@).take(j as int).map_values(
                        |l: LineV| line_row(fi, l),
                    ),
                decreases h.lines@.len() - j,
            {
                let l = &h.lines[j];
                let r = Row::Line {
                    file: fi,
                    kind: l.kind,
                    old: l.old_lineno,
                    new: l.new_lineno,
                    text: l.text.clone(),
                    emphasis: l.emphasis,
                };
                push_row(rows, r);
                assert(lines_v(h.lines@).take(j + 1).map_values(|l: LineV| line_row(fi, l))
                    =~= lines_v(h.lines@).take(j as int).map_values(|l: LineV| line_row(fi, l)).push(
                    line_row(fi, l@),
                ));
                j = j + 1;
            }
            assert(lines_v(h.lines@).take(h.lines@.len() as int) =~= lines_v(h.lines@));
        }
        assert(rows_v(rows@) =~= r0 + hunk_rows(fi, fv.hunks, k as int, split));
        assert(rows_v(rows@) =~= head + hunks_rows(fi, fv.hunks, k + 1, split));
        k = k + 1;
    }
}

/// Emit a visible file: its header, then its body (closed by a spacer).
fn emit_file(
    rows: &mut Vec<Row>,
    hunk_starts: &mut Vec<usize>,
    content_w: &mut usize,
    fi: usize,
    f: &DiffFile,
    v: bool,
    split: bool,
)
    requires
        fits_file(f@),
    ensures
        rows_v(final(rows)@) == rows_v(old(rows)@) + seq![RowV::FileHeader(fi)] + file_body(fi, f@, v, split),
        final(hunk_starts)@ == if shows_hunks(f@, v, split) {
            old(hunk_starts)@ + hunk_starts_of(
                fi,
                f@.hunks,
                split,
                (old(rows)@.len() + 1 + note_rows(fi, f@).len()) as int,
                f@.hunks.len() as int,
            )
        } else {
            old(hunk_starts)@
        },
        *final(content_w) == if shows_hunks(f@, v, split) {
            max_int(*old(content_w) as int, hunks_w(f@.hunks, f@.hunks.len() as int)) as usize
        } else {
            *old(content_w)
        },
{
    let ghost r0 = rows_v(rows@);
    push_row(rows, Row::FileHeader(fi));
    if v {
        push_row(rows, Row::Collapsed(f.hunks.len()));
        push_row(rows, Row::Spacer);
        assert(rows_v(rows@) =~= r0 + seq![RowV::FileHeader(fi)] + file_body(fi, f@, v, split));
        return ;
    }
    if !f.diffed {
        push_row(rows, Row::Pending);
        push_row(rows, Row::Spacer);
        assert(rows_v(rows@) =~= r0 + seq![RowV::FileHeader(fi)] + file_body(fi, f@, v, split));
        return ;
    }
    if f.is_binary {
        if split {
            push_row(rows, Row::Spacer);
            assert(rows_v(rows@) =~= r0 + seq![RowV::FileHeader(fi)] + file_body(fi, f@, v, split));
            return ;
        }
        let note = Row::Line {
            file: fi,
            kind: LineKind::Context,
            old: None,
            new: None,
            text: "Binary file — no preview".to_string(),
            emphasis: None,
        };
        assert(note@ == binary_note(fi));
        push_row(rows, note);
    }
    let ghost r1 = rows_v(rows@);
    assert(r1 =~= r0 + seq![RowV::FileHeader(fi)] + note_rows(fi, f@));
    assert(r1.len() == rows@.len());
    emit_hunks(rows, hunk_starts, content_w, fi, f, split);
    push_row(rows, Row::Spacer);
    assert(rows_v(rows@) =~= r0 + seq![RowV::FileHeader(fi)] + file_body(fi, f@, v, split));
}

impl Plan {
    /// Build the plan for `layout` from a changeset. Files marked viewed are
    /// collapsed to a single placeholder row; files whose parent directory is
    /// in `collapsed` are folded out entirely, replaced by one
    /// [`Row::CollapsedDir`] placeholder per directory run.
    pub fn build(cs: &Changeset, viewed: &[bool], layout: LayoutMode, collapsed: &[String]) -> (p:
        Plan)
        requires
            fits(cs.files_v()),
        ensures
            p@ == spec_build(cs.files_v(), viewed@, layout, strs_v(collapsed@), Seq::empty()),
            starts_ok(p@),
    {
        let empty: Vec<String> = Vec::new();
        let p = Self::build_with_banner(cs, viewed, layout, collapsed, empty.as_slice());
        assert(strs_v(empty@) =~= Seq::<Seq<char>>::empty());
        p
    }

    /// Like [`Plan::build`], but prepends `banner` (one [`Row::Banner`] per
    /// line, then a spacer) ahead of the first file; every navigation index
    /// carries the banner's offset.
    pub fn build_with_banner(
        cs: &Changeset,
        viewed: &[bool],
        layout: LayoutMode,
        collapsed: &[String],
        banner: &[String],
    ) -> (p: Plan)
        requires
            fits(cs.files_v()),
        ensures
            p@ == spec_build(cs.files_v(), viewed@, layout, strs_v(collapsed@), strs_v(banner@)),
            starts_ok(p@),
    {
        let ghost files = cs.files_v();
        let ghost cv = strs_v(collapsed@);
        let ghost bv = strs_v(banner@);
        let split = match layout {
            LayoutMode::Split => true,
            LayoutMode::Stack => false,
        };
        let mut rows: Vec<Row> = Vec::new();
        let mut file_starts: Vec<usize> = Vec::new();
        let mut visible_files: Vec<usize> = Vec::new();
        let mut hunk_starts: Vec<usize> = Vec::new();
        assert(rows_v(rows@) =~= Seq::<RowV>::empty());
        prepend_banner(&mut rows, banner);
        let mut content_w: usize = 0;
        let mut prev_dir: Option<String> = None;
        let mut fi: usize = 0;
        assert(rows_v(rows@) =~= plan_upto(files, viewed@, layout, cv, bv, 0).rows);
        assert(file_starts@ =~= plan_upto(files, viewed@, layout, cv, bv, 0).file_starts);
        assert(visible_files@ =~= plan_upto(files, viewed@, layout, cv, bv, 0).visible_files);
        assert(hunk_starts@ =~= plan_upto(files, viewed@, layout, cv, bv, 0).hunk_starts);
        while fi < cs.files.len()
            invariant
                fi <= cs.files@.len(),
                files == cs.files_v(),
                cv == strs_v(collapsed@),
                bv == strs_v(banner@),
                fits(files),
                split == (layout == LayoutMode::Split),
                rows_v(rows@) == plan_upto(files, viewed@, layout, cv, bv, fi as int).rows,
                file_starts@ == plan_upto(files, viewed@, layout, cv, bv, fi as int).file_starts,
                visible_files@ == plan_upto(files, viewed@, layout, cv, bv, fi as int).visible_files,
                hunk_starts@ == plan_upto(files, viewed@, layout, cv, bv, fi as int).hunk_starts,
                content_w == plan_upto(files, viewed@, layout, cv, bv, fi as int).content_w,
                fi == 0 ==> prev_dir is None,
                fi > 0 ==> (prev_dir matches Some(d) && d@ == spec_parent_dir(files[fi - 1].path)),
            decreases cs.files@.len() - fi,
        {
            let ghost prev = plan_upto(files, viewed@, layout, cv, bv, fi as int);
            let ghost next = plan_upto(files, viewed@, layout, cv, bv, fi + 1);
            let f = &cs.files[fi];
            assert(files[fi as int] == f@);
            assert(fits_file(f@));
            let dir = parent_dir(f.path.as_str());
            let first = match &prev_dir {
                None => true,
                Some(p) => !str_eq(p.as_str(), dir.as_str()),
            };
            assert(first == first_of_dir(files, fi as int));
            if dirs_contain(collapsed, dir.as_str()) {
                if first {
                    let n = dir_run(cs, dir.as_str(), fi);
                    let reviewed = viewed_in(viewed, fi, n);
                    push_row(&mut rows, Row::CollapsedDir { dir: dir.clone(), n, reviewed });
                    push_row(&mut rows, Row::Spacer);
                    assert(rows_v(rows@) =~= next.rows);
                }
            } else {
                let ghost base = rows@.len();
                assert(rows_v(rows@).len() == base);
                file_starts.push(rows.len());
                visible_files.push(fi);
                let v = fi < viewed.len() && viewed[fi];
                assert(v == viewed_at(viewed@, fi as int));
                emit_file(&mut rows, &mut hunk_starts, &mut content_w, fi, f, v, split);
                assert(rows_v(rows@) =~= next.rows);
            }
            prev_dir = Some(dir);
            fi = fi + 1;
        }
        assert(files.len() == cs.files@.len());
        let p = Plan { rows, file_starts, visible_files, hunk_starts, content_w, layout };
        assert(p@.rows =~= spec_build(files, viewed@, layout, cv, bv).rows);
        assert(p@.rows.len() == p.rows@.len());
        let total_rows = p.rows.len();
        assert(p.rows@.len() == total_rows);
        proof {
            lemma_plan_layout(files, viewed@, layout, cv, bv, files.len() as int);
            lemma_plan_starts(files, viewed@, layout, cv, bv, files.len() as int);
        }
        p
    }
}

} // verus!
