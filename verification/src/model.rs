//! The changeset model the planners work over: files, hunks and lines of a
//! diff, plus the small vocabulary types (line kind, side, layout).

use vstd::prelude::*;

use crate::text::{chars_of, last_index_of, subrange_string};

verus! {

/// What a diff line is: unchanged on both sides, only on the new side, or
/// only on the old side.
#[derive(Clone, Copy, Debug, PartialEq, Eq, Structural)]
pub enum LineKind {
    Context,
    Added,
    Removed,
}

/// Which side of a diff a line number refers to.
#[derive(Clone, Copy, Debug, PartialEq, Eq, Hash, Structural)]
pub enum Side {
    Old,
    New,
}

/// The body layout of the review stream: stacked (unified) or split
/// (side by side).
#[derive(Clone, Copy, Debug, PartialEq, Eq, Structural)]
pub enum LayoutMode {
    Stack,
    Split,
}

/// How a file changed.
#[derive(Clone, Copy, Debug, PartialEq, Eq, Structural)]
pub enum FileStatus {
    Added,
    Modified,
    Deleted,
    Renamed,
    /// A new file git does not track yet.
    Untracked,
}

/// One diff line.
#[derive(Clone, Debug)]
pub struct Line {
    pub kind: LineKind,
    pub old_lineno: Option<u32>,
    pub new_lineno: Option<u32>,
    pub text: String,
    /// Intra-line emphasis span, in columns.
    pub emphasis: Option<(u32, u32)>,
}

/// The mathematical content of a [`Line`].
pub struct LineV {
    pub kind: LineKind,
    pub old: Option<u32>,
    pub new: Option<u32>,
    pub text: Seq<char>,
    pub emphasis: Option<(u32, u32)>,
}

impl View for Line {
    type V = LineV;

    open spec fn view(&self) -> LineV {
        LineV {
            kind: self.kind,
            old: self.old_lineno,
            new: self.new_lineno,
            text: self.text@,
            emphasis: self.emphasis,
        }
    }
}

/// A hunk: a run of lines with its old/new ranges.
#[derive(Clone, Debug)]
pub struct Hunk {
    pub old_start: u32,
    pub old_len: u32,
    pub new_start: u32,
    pub new_len: u32,
    pub lines: Vec<Line>,
}

/// The mathematical content of a [`Hunk`].
pub struct HunkV {
    pub old_start: u32,
    pub old_len: u32,
    pub new_start: u32,
    pub new_len: u32,
    pub lines: Seq<LineV>,
}

impl View for Hunk {
    type V = HunkV;

    open spec fn view(&self) -> HunkV {
        HunkV {
            old_start: self.old_start,
            old_len: self.old_len,
            new_start: self.new_start,
            new_len: self.new_len,
            lines: self.lines@.map_values(|l: Line| l@),
        }
    }
}

/// Added/removed line counts of a file.
#[derive(Clone, Copy, Debug, PartialEq, Eq, Default, Structural)]
pub struct Stats {
    pub additions: usize,
    pub deletions: usize,
}

/// One file of a changeset. `diffed` is false while its diff is still being
/// computed in the background; such a file has no hunks yet.
#[derive(Clone, Debug)]
pub struct DiffFile {
    pub path: String,
    pub previous_path: Option<String>,
    pub status: FileStatus,
    pub staged: bool,
    pub hunks: Vec<Hunk>,
    pub stats: Stats,
    pub is_binary: bool,
    pub old_text: Option<String>,
    pub new_text: Option<String>,
    pub diffed: bool,
}

/// The mathematical content of a [`DiffFile`].
pub struct DiffFileV {
    pub path: Seq<char>,
    pub hunks: Seq<HunkV>,
    pub stats: Stats,
    pub is_binary: bool,
    pub old_text: Option<Seq<char>>,
    pub new_text: Option<Seq<char>>,
    pub diffed: bool,
}

pub open spec fn opt_text(s: Option<String>) -> Option<Seq<char>> {
    match s {
        Some(t) => Some(t@),
        None => None,
    }
}

impl View for DiffFile {
    type V = DiffFileV;

    open spec fn view(&self) -> DiffFileV {
        DiffFileV {
            path: self.path@,
            hunks: self.hunks@.map_values(|h: Hunk| h@),
            stats: self.stats,
            is_binary: self.is_binary,
            old_text: opt_text(self.old_text),
            new_text: opt_text(self.new_text),
            diffed: self.diffed,
        }
    }
}

impl DiffFile {
    /// An undiffed placeholder for a file whose diff has not arrived yet.
    pub fn stub(path: String, previous_path: Option<String>, status: FileStatus, staged: bool) -> (f:
        DiffFile)
        ensures
            f.path@ == path@,
            f.previous_path == previous_path,
            f.status == status,
            f.staged == staged,
            f.hunks@.len() == 0,
            f.stats == (Stats { additions: 0, deletions: 0 }),
            !f.is_binary,
            f.old_text is None,
            f.new_text is None,
            !f.diffed,
    {
        DiffFile {
            path,
            previous_path,
            status,
            staged,
            hunks: Vec::new(),
            stats: Stats { additions: 0, deletions: 0 },
            is_binary: false,
            old_text: None,
            new_text: None,
            diffed: false,
        }
    }
}

/// A set of file diffs, in stream order.
#[derive(Clone, Debug)]
pub struct Changeset {
    pub source: String,
    pub files: Vec<DiffFile>,
}

impl Changeset {
    /// The files as mathematical values.
    pub open spec fn files_v(&self) -> Seq<DiffFileV> {
        self.files@.map_values(|f: DiffFile| f@)
    }

    /// Whether every file's diff has arrived.
    pub open spec fn spec_fully_diffed(&self) -> bool {
        forall|i: int| 0 <= i < self.files@.len() ==> #[trigger] self.files@[i].diffed
    }

    /// Whether every file's diff has arrived.
    pub fn fully_diffed(&self) -> (r: bool)
        ensures
            r == self.spec_fully_diffed(),
    {
        let mut i: usize = 0;
        while i < self.files.len()
            invariant
                i <= self.files@.len(),
                forall|j: int| 0 <= j < i ==> #[trigger] self.files@[j].diffed,
            decreases self.files@.len() - i,
        {
            if !self.files[i].diffed {
                return false;
            }
            i = i + 1;
        }
        true
    }
}

/// The directory part of a path: everything before the last `/`, or the
/// empty string for a file at the root.
pub open spec fn spec_parent_dir(path: Seq<char>) -> Seq<char> {
    match crate::text::spec_last_index_of(path, '/') {
        Some(i) => path.take(i),
        None => Seq::empty(),
    }
}

/// The directory part of a path: everything before the last `/`, or the
/// empty string for a file at the root.
pub fn parent_dir(path: &str) -> (d: String)
    ensures
        d@ == spec_parent_dir(path@),
{
    let cs = chars_of(path);
    match last_index_of(&cs, '/') {
        Some(i) => subrange_string(path, 0, i),
        None => String::new(),
    }
}

/// The author, date and message of one commit.
#[derive(Clone, Debug)]
pub struct CommitMessage {
    pub sha: String,
    pub author: String,
    pub date: String,
    pub body: String,
}

/// The first seven characters of a sha (all of a shorter one).
pub open spec fn spec_short_sha(sha: Seq<char>) -> Seq<char> {
    if sha.len() >= 7 {
        sha.take(7)
    } else {
        sha
    }
}

impl CommitMessage {
    /// The one-line identity: `short sha · author · date`.
    pub open spec fn spec_identity(&self) -> Seq<char> {
        spec_short_sha(self.sha@) + " · "@ + self.author@ + " · "@ + self.date@
    }

    /// The one-line identity: `short sha · author · date`.
    pub fn identity(&self) -> (s: String)
        ensures
            s@ == self.spec_identity(),
    {
        let sha = self.sha.as_str();
        let mut s = if sha.unicode_len() >= 7 {
            sha.substring_char(0, 7).to_owned()
        } else {
            sha.to_owned()
        };
        s.append(" · ");
        s.append(self.author.as_str());
        s.append(" · ");
        s.append(self.date.as_str());
        s
    }
}

/// One entry of a commit list.
#[derive(Clone, Debug)]
pub struct CommitInfo {
    /// The full commit id.
    pub id: String,
    pub short: String,
    pub summary: String,
}

/// The commit a blamed line was last changed in.
#[derive(Clone, Debug)]
pub struct BlameCommit {
    pub sha: String,
    pub author: String,
    pub summary: String,
    pub time_secs: i64,
    pub color_key: u32,
}

/// The blame attribution of one line.
#[derive(Clone, Debug)]
pub struct BlameLine {
    pub commit: BlameCommit,
}

} // verus!
