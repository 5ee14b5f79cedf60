//! The bridge between the line cursor and the review log's anchors: turning
//! the cursor's row into a quoted line anchor, and deciding whether a comment
//! may open or join a review.

use vstd::prelude::*;

use crate::model::{Changeset, DiffFile, DiffFileV, Side};
use crate::rows::{cursor_key, spec_cursor_key, Plan};
use crate::text::{spec_lines, split_lines, strs_v, str_eq};

verus! {

/// How many lines of context an anchor records on each side of its line.
pub const ANCHOR_CONTEXT: usize = 3;

/// A review comment's position: a line on one side of a file's diff, quoted
/// with the lines around it so it can be found again after the file moves.
#[derive(Debug)]
pub struct Anchor {
    pub path: String,
    pub side: Side,
    pub line: u32,
    pub quote: String,
    pub before: Vec<String>,
    pub after: Vec<String>,
}

/// The mathematical content of an [`Anchor`].
pub struct AnchorV {
    pub path: Seq<char>,
    pub side: Side,
    pub line: u32,
    pub quote: Seq<char>,
    pub before: Seq<Seq<char>>,
    pub after: Seq<Seq<char>>,
}

impl View for Anchor {
    type V = AnchorV;

    open spec fn view(&self) -> AnchorV {
        AnchorV {
            path: self.path@,
            side: self.side,
            line: self.line,
            quote: self.quote@,
            before: strs_v(self.before@),
            after: strs_v(self.after@),
        }
    }
}

/// The text of one side of a file, when it carries one.
pub open spec fn side_text(f: DiffFileV, side: Side) -> Option<Seq<char>> {
    match side {
        Side::Old => f.old_text,
        Side::New => f.new_text,
    }
}

/// The anchor for 1-based line `line` of `side`: the line itself plus up to
/// [`ANCHOR_CONTEXT`] lines before and after; `None` when the side has no
/// text or no such line.
pub open spec fn spec_capture(f: DiffFileV, side: Side, line: u32) -> Option<AnchorV> {
    match side_text(f, side) {
        None => None,
        Some(t) => {
            let ls = spec_lines(t);
            if 1 <= line <= ls.len() {
                let lo = if line - 1 >= ANCHOR_CONTEXT {
                    line - 1 - ANCHOR_CONTEXT
                } else {
                    0
                };
                let hi = if line + ANCHOR_CONTEXT <= ls.len() {
                    line + ANCHOR_CONTEXT
                } else {
                    ls.len() as int
                };
                Some(
                    AnchorV {
                        path: f.path,
                        side,
                        line,
                        quote: ls[line - 1],
                        before: ls.subrange(lo, line - 1),
                        after: ls.subrange(line as int, hi),
                    },
                )
            } else {
                None
            }
        },
    }
}

fn copy_lines(ls: &Vec<String>, lo: usize, hi: usize) -> (r: Vec<String>)
    requires
        lo <= hi <= ls@.len(),
    ensures
        strs_v(r@) == strs_v(ls@).subrange(lo as int, hi as int),
{
    let mut r: Vec<String> = Vec::new();
    let mut i = lo;
    while i < hi
        invariant
            lo <= i <= hi <= ls@.len(),
            strs_v(r@) =~= strs_v(ls@).subrange(lo as int, i as int),
        decreases hi - i,
    {
        let ghost before = strs_v(r@);
        r.push(ls[i].clone());
        assert(strs_v(r@) =~= before.push(ls@[i as int]@));
        i = i + 1;
    }
    r
}

impl Anchor {
    /// A copy of this anchor.
    pub fn copy(&self) -> (r: Anchor)
        ensures
            r@ == self@,
    {
        let before = copy_lines(&self.before, 0, self.before.len());
        let after = copy_lines(&self.after, 0, self.after.len());
        proof {
            assert(strs_v(self.before@).subrange(0, self.before@.len() as int) =~= strs_v(self.before@));
            assert(strs_v(self.after@).subrange(0, self.after@.len() as int) =~= strs_v(self.after@));
        }
        Anchor { path: self.path.clone(), side: self.side, line: self.line, quote: self.quote.clone(), before, after }
    }
}

/// Quote 1-based line `line` of `side` of `file`, with its context.
pub fn capture(file: &DiffFile, side: Side, line: u32) -> (r: Option<Anchor>)
    ensures
        match r {
            Some(a) => spec_capture(file@, side, line) == Some(a@),
            None => spec_capture(file@, side, line) is None,
        },
{
    let text = match side {
        Side::Old => &file.old_text,
        Side::New => &file.new_text,
    };
    let t = match text {
        Some(t) => t,
        None => return None,
    };
    let ls = split_lines(t.as_str());
    let n = ls.len();
    let l = line as usize;
    if l < 1 || l > n {
        return None;
    }
    let lo = if l - 1 >= ANCHOR_CONTEXT {
        l - 1 - ANCHOR_CONTEXT
    } else {
        0
    };
    let hi = if n >= ANCHOR_CONTEXT && l <= n - ANCHOR_CONTEXT {
        l + ANCHOR_CONTEXT
    } else {
        n
    };
    let a = Anchor {
        path: file.path.clone(),
        side,
        line,
        quote: ls[l - 1].clone(),
        before: copy_lines(&ls, lo, l - 1),
        after: copy_lines(&ls, l, hi),
    };
    Some(a)
}

/// Why the cursor's row could not be turned into an anchor.
#[derive(Debug, Clone, Copy, PartialEq, Eq, Structural)]
pub enum AnchorError {
    /// The row is chrome — a header, hunk gap, placeholder, spacer, banner —
    /// or a binary-file note: it carries no `(file, side, line)`.
    NotALine,
    /// The row names a line whose text cannot be read: the changeset has no
    /// such file, or the side carries no such line.
    NoText,
}

/// The anchor for the cursor's row: the row's key (new side preferred), then
/// its file, then the quoted line.
pub open spec fn spec_anchor_at(files: Seq<DiffFileV>, p: crate::rows::PlanV, row: usize) -> Result<
    AnchorV,
    AnchorError,
> {
    match spec_cursor_key(p, row as int) {
        None => Err(AnchorError::NotALine),
        Some((fi, side, line)) => if fi < files.len() {
            match spec_capture(files[fi as int], side, line) {
                Some(a) => Ok(a),
                None => Err(AnchorError::NoText),
            }
        } else {
            Err(AnchorError::NoText)
        },
    }
}

/// Resolve the line cursor's row to a review anchor.
pub fn anchor_at(cs: &Changeset, plan: &Plan, row: usize) -> (r: Result<Anchor, AnchorError>)
    ensures
        match r {
            Ok(a) => spec_anchor_at(cs.files_v(), plan@, row) == Ok::<AnchorV, AnchorError>(a@),
            Err(e) => spec_anchor_at(cs.files_v(), plan@, row) == Err::<AnchorV, AnchorError>(e),
        },
{
    let (fi, side, line) = match cursor_key(plan, row) {
        Some(k) => k,
        None => return Err(AnchorError::NotALine),
    };
    if fi >= cs.files.len() {
        return Err(AnchorError::NoText);
    }
    assert(cs.files_v()[fi as int] == cs.files@[fi as int]@);
    match capture(&cs.files[fi], side, line) {
        Some(a) => Ok(a),
        None => Err(AnchorError::NoText),
    }
}

/// What to show the user when a line cannot be anchored.
pub open spec fn anchor_error_note(e: AnchorError) -> Seq<char> {
    match e {
        AnchorError::NotALine => "nothing to comment on here — move to a diff line"@,
        AnchorError::NoText => "this line's text can't be read, so it can't be anchored"@,
    }
}

impl AnchorError {
    /// What to show the user, as a status-line flash.
    pub fn message(self) -> (m: &'static str)
        ensures
            m@ == anchor_error_note(self),
    {
        match self {
            AnchorError::NotALine => "nothing to comment on here — move to a diff line",
            AnchorError::NoText => "this line's text can't be read, so it can't be anchored",
        }
    }
}


/// `std::io::Error`, carried opaquely inside [`EnsureError::Io`].
#[verifier::external_type_specification]
#[verifier::external_body]
pub struct ExIoError(std::io::Error);

/// The text `std::io::Error`'s `Display` gives for `e`. Nothing is claimed of
/// the text: it depends on the error's kind and, for an OS error, on the
/// platform's message for its code.
#[verifier::external_body]
fn io_error_text(e: &std::io::Error) -> String {
    format!("{e}")
}

/// Why a review could not be opened for this view.
#[derive(Debug)]
pub enum EnsureError {
    /// The view's diffs have not all arrived.
    StillLoading,
    /// The view is narrowed by path filters; a review covers a whole target.
    Filtered,
    /// A review is already open over a different target and still holds
    /// feedback nobody has drained.
    TargetMismatch { open: String, want: String },
    /// Reading or writing the log failed.
    Io(std::io::Error),
}

impl EnsureError {
    /// What to show the user, as a status-line flash.
    pub fn message(&self) -> (m: String)
        ensures
            match self {
                EnsureError::StillLoading => m@ == "still loading — try again when the diff finishes"@,
                EnsureError::Filtered => m@ == "a review covers a whole target; this view is filtered"@,
                EnsureError::TargetMismatch { open, want } => m@ == "`"@ + open@
                    + "` is open with undelivered feedback; this is `"@ + want@ + "`"@,
                EnsureError::Io(_) => m@.len() >= "could not write the review log: "@.len()
                    && m@.take("could not write the review log: "@.len() as int)
                    == "could not write the review log: "@,
            },
    {
        match self {
            EnsureError::StillLoading => "still loading — try again when the diff finishes".to_string(),
            EnsureError::Filtered => "a review covers a whole target; this view is filtered".to_string(),
            EnsureError::TargetMismatch { open, want } => {
                let mut m = "`".to_string();
                m.append(open.as_str());
                m.append("` is open with undelivered feedback; this is `");
                m.append(want.as_str());
                m.append("`");
                m
            },
            EnsureError::Io(e) => {
                let mut m = "could not write the review log: ".to_string();
                let ghost p = m@;
                m.append(io_error_text(e).as_str());
                assert(m@.take(p.len() as int) =~= p);
                m
            },
        }
    }
}

impl From<std::io::Error> for EnsureError {
    fn from(e: std::io::Error) -> (r: EnsureError) {
        EnsureError::Io(e)
    }
}

impl vstd::std_specs::convert::FromSpecImpl<std::io::Error> for EnsureError {
    open spec fn obeys_from_spec() -> bool {
        true
    }

    open spec fn from_spec(v: std::io::Error) -> EnsureError {
        EnsureError::Io(v)
    }
}

/// The review the log holds open, as read from it: its target, and whether
/// it may be replaced (none of its feedback is still waiting for delivery).
#[derive(Debug)]
pub struct OpenReview {
    pub target: String,
    pub safe_to_replace: bool,
}

/// How a comment gets its review.
#[derive(Debug, Clone, Copy, PartialEq, Eq, Structural)]
pub enum Opened {
    /// A new review is to be opened (appending to, not truncating, the log).
    Created,
    /// The open review is already over this target: join it.
    Attached,
}

/// A review that is open and has a round covering this changeset.
#[derive(Debug, Clone, Copy, PartialEq, Eq, Structural)]
pub struct Opening {
    pub opened: Opened,
    pub round: u32,
}

/// Decide how a comment on `target` gets its review, given the review the
/// log holds open (if any). The refusals come before anything is written: a
/// filtered view, then a still-loading one, then a different target whose
/// feedback is still pending. Otherwise the open review is joined when it is
/// over this target, and a new one is opened when there is none or the open
/// one is spent.
pub fn ensure_review(open: &Option<OpenReview>, cs: &Changeset, target: &str, filtered: bool) -> (r:
    Result<Opened, EnsureError>)
    ensures
        filtered ==> r matches Err(EnsureError::Filtered),
        !filtered && !cs.spec_fully_diffed() ==> r matches Err(EnsureError::StillLoading),
        !filtered && cs.spec_fully_diffed() ==> match open {
            Some(o) => if o.target@ == target@ {
                r == Ok::<Opened, EnsureError>(Opened::Attached)
            } else if !o.safe_to_replace {
                r matches Err(EnsureError::TargetMismatch { open: a, want: b }) && a@ == o.target@ && b@
                    == target@
            } else {
                r == Ok::<Opened, EnsureError>(Opened::Created)
            },
            None => r == Ok::<Opened, EnsureError>(Opened::Created),
        },
{
    if filtered {
        return Err(EnsureError::Filtered);
    }
    if !cs.fully_diffed() {
        return Err(EnsureError::StillLoading);
    }
    match open {
        Some(o) => {
            if str_eq(o.target.as_str(), target) {
                Ok(Opened::Attached)
            } else if !o.safe_to_replace {
                Err(EnsureError::TargetMismatch { open: o.target.clone(), want: target.to_owned() })
            } else {
                Ok(Opened::Created)
            }
        },
        None => Ok(Opened::Created),
    }
}

} // verus!
