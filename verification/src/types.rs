//! The input model of the review UI: a base context (the stream or the
//! single-file peek) with a stack of transient overlays, and the state each
//! overlay carries.

use vstd::prelude::*;

use crate::model::{CommitInfo, CommitMessage};
use crate::peek::Peek;
use crate::reviewlog::Anchor;
use crate::rows::Key;
use crate::text::{push_decimal, spec_decimal, spec_lines, split_lines};

verus! {

/// Reserved highlight-cache index for the single-file peek (never a real file).
pub const PEEK_HL: usize = usize::MAX;

/// Width of one theme picker grid cell (the theme's name and a swatch), in
/// columns.
pub const THEME_CELL_W: usize = 24;

/// How long a load must run, in milliseconds, before any progress chrome
/// appears, so small, fast loads never flash a loading indicator.
pub const LOAD_PROGRESS_DELAY_MS: u64 = 80;

/// Which pane currently receives navigation keys.
#[derive(Debug, Clone, Copy, PartialEq, Eq, Structural)]
pub enum Focus {
    Stream,
    Sidebar,
}

/// What the body is showing — the context the user lives in.
#[derive(Debug)]
pub enum Base {
    /// The normal diff stream, with keyboard focus on the stream or the sidebar.
    Normal { focus: Focus },
    /// The modal single-file peek.
    Peek(Box<Peek>),
}

/// A transient layer summoned over a base; it captures input until dismissed.
#[derive(Debug)]
pub enum Overlay {
    Palette(Palette),
    Help,
    ThemePicker(ThemePicker),
    /// The commit-message popup.
    CommitMessage(CommitMsg),
    /// Composing a review comment.
    Comment(CommentInput),
    /// The review's threads, with a selection.
    Threads(ThreadList),
    /// Closing a review round.
    Submit(SubmitDraft),
}

/// The active input mode: a base context with a stack of transient overlays
/// layered on top. The topmost overlay captures input and is the one drawn;
/// dismissing it pops back to whatever was beneath.
#[derive(Debug)]
pub struct Mode {
    pub base: Base,
    pub overlays: Vec<Overlay>,
}

impl Mode {
    /// The overlay stack, bottom first.
    pub open spec fn stack(&self) -> Seq<Overlay> {
        self.overlays@
    }

    /// The normal stream with focus on it and no overlay.
    pub fn normal() -> (m: Mode)
        ensures
            m.base matches Base::Normal { focus: Focus::Stream },
            m.stack().len() == 0,
    {
        Mode { base: Base::Normal { focus: Focus::Stream }, overlays: Vec::new() }
    }

    /// The active (topmost) overlay, if any.
    pub open spec fn overlay_spec(&self) -> Option<Overlay> {
        if self.stack().len() > 0 {
            Some(self.stack().last())
        } else {
            None
        }
    }

    /// The active (topmost) overlay, if any.
    pub fn overlay(&self) -> (o: Option<&Overlay>)
        ensures
            self.stack().len() == 0 ==> o is None,
            self.stack().len() > 0 ==> o == Some(&self.stack().last()),
    {
        let n = self.overlays.len();
        if n == 0 {
            None
        } else {
            Some(&self.overlays[n - 1])
        }
    }

    /// The active (topmost) overlay, for editing in place.
    pub fn overlay_mut(&mut self) -> (o: Option<&mut Overlay>)
        ensures
            old(self).stack().len() == 0 ==> o is None && final(self).stack() == old(self).stack(),
            old(self).stack().len() > 0 ==> (o matches Some(r) && *r == old(self).stack().last()
                && final(self).stack() == old(self).stack().update(
                old(self).stack().len() - 1,
                *final(r),
            )),
            final(self).base == old(self).base,
    {
        let n = self.overlays.len();
        if n == 0 {
            None
        } else {
            Some(&mut self.overlays[n - 1])
        }
    }

    /// Push a transient overlay onto the stack (the new topmost one).
    pub fn push_overlay(&mut self, overlay: Overlay)
        ensures
            final(self).stack() == old(self).stack().push(overlay),
            final(self).base == old(self).base,
    {
        self.overlays.push(overlay);
    }

    /// Pop the topmost overlay, revealing whatever was beneath it.
    pub fn pop_overlay(&mut self) -> (o: Option<Overlay>)
        ensures
            old(self).stack().len() == 0 ==> o is None && final(self).stack() == old(self).stack(),
            old(self).stack().len() > 0 ==> o == Some(old(self).stack().last()) && final(self).stack()
                == old(self).stack().drop_last(),
            final(self).base == old(self).base,
    {
        let r = self.overlays.pop();
        proof {
            if old(self).overlays@.len() > 0 {
                assert(self.overlays@ =~= old(self).overlays@.drop_last());
            }
        }
        r
    }
}

/// Dismissing an overlay restores exactly what was beneath it: pushing then
/// popping gives back the pushed overlay and the previous stack and base.
pub proof fn law_push_then_pop(before: Mode, pushed: Mode, popped: Mode, o: Overlay, r: Option<Overlay>)
    requires
        pushed.stack() == before.stack().push(o),
        pushed.base == before.base,
        pushed.stack().len() > 0 ==> r == Some(pushed.stack().last()) && popped.stack()
            == pushed.stack().drop_last(),
        popped.base == pushed.base,
    ensures
        r == Some(o),
        popped.stack() == before.stack(),
        popped.base == before.base,
{
    assert(before.stack().push(o).drop_last() =~= before.stack());
}

/// Which surface captures input right now.
#[derive(Clone, Copy, PartialEq, Eq, Debug, Structural)]
pub enum InputContext {
    Help,
    CommitMsg,
    Palette,
    ThemePicker,
    Comment,
    Threads,
    Submit,
    Peek,
    Normal,
}

/// Where a thread's anchor resolved to in the current view.
#[derive(Clone, Copy, PartialEq, Eq, Debug, Structural)]
pub enum Resolution {
    /// Found at its recorded line.
    Attached { line: u32 },
    /// Found, but the line moved.
    Shifted { from: u32, to: u32 },
    /// Its quoted line is gone.
    Detached,
    /// Not resolved yet (the file is still loading).
    Unresolved,
}

/// A live review thread as the thread list shows it.
#[derive(Debug)]
pub struct LiveThread {
    pub id: String,
    pub body: String,
    pub resolved: bool,
    pub deleted: bool,
    /// Where the anchor landed; `None` for a review-level thread.
    pub placement: Option<Resolution>,
    pub path: Option<String>,
    pub key: Option<Key>,
}

impl LiveThread {
    /// The thread's state as one word: resolved first, then where its anchor
    /// landed, and `review` for a thread with no anchor.
    pub fn state_label(&self) -> (s: &'static str)
        ensures
            s@ == if self.resolved {
                "resolved"@
            } else {
                match self.placement {
                    None => "review"@,
                    Some(Resolution::Attached { .. }) => "here"@,
                    Some(Resolution::Shifted { .. }) => "moved"@,
                    Some(Resolution::Detached) => "detached"@,
                    Some(Resolution::Unresolved) => "loading"@,
                }
            },
    {
        if self.resolved {
            return "resolved";
        }
        match self.placement {
            None => "review",
            Some(Resolution::Attached { .. }) => "here",
            Some(Resolution::Shifted { .. }) => "moved",
            Some(Resolution::Detached) => "detached",
            Some(Resolution::Unresolved) => "loading",
        }
    }
}

/// The review's live threads, with a cursor over them.
#[derive(Debug)]
pub struct ThreadList {
    pub threads: Vec<LiveThread>,
    pub selected: usize,
}

pub open spec fn clamp_sel(x: int, len: int) -> int {
    let last = if len >= 1 {
        len - 1
    } else {
        0
    };
    if x < 0 {
        0
    } else if x > last {
        last
    } else {
        x
    }
}

impl ThreadList {
    /// A list over `threads`, the first one selected.
    pub fn new(threads: Vec<LiveThread>) -> (t: ThreadList)
        ensures
            t.threads == threads,
            t.selected == 0,
    {
        ThreadList { threads, selected: 0 }
    }

    /// The selected thread, if any.
    pub fn current(&self) -> (t: Option<&LiveThread>)
        ensures
            self.selected < self.threads@.len() ==> t == Some(&self.threads@[self.selected as int]),
            self.selected >= self.threads@.len() ==> t is None,
    {
        if self.selected < self.threads.len() {
            Some(&self.threads[self.selected])
        } else {
            None
        }
    }

    /// Move the selection, clamped to the list (a list this short does not wrap).
    pub fn move_by(&mut self, delta: isize)
        requires
            old(self).selected <= isize::MAX,
            old(self).threads@.len() <= isize::MAX,
            isize::MIN <= old(self).selected + delta <= isize::MAX,
        ensures
            final(self).selected == clamp_sel(old(self).selected + delta, old(self).threads@.len() as int),
            final(self).threads == old(self).threads,
    {
        let last = self.threads.len().saturating_sub(1) as isize;
        let next = self.selected as isize + delta;
        self.selected = if next < 0 {
            0
        } else if next > last {
            last as usize
        } else {
            next as usize
        };
    }
}

/// Composing a review comment: one line of text about `anchor`, or about the
/// whole review when `anchor` is `None`.
#[derive(Debug)]
pub struct CommentInput {
    pub anchor: Option<Anchor>,
    pub buffer: String,
    /// Set when editing an existing thread: the id whose record this supersedes.
    pub replacing: Option<String>,
    /// Why the last save attempt was refused, shown inside the box.
    pub refusal: Option<String>,
}

impl CommentInput {
    /// A fresh comment on `anchor` (or on the review, when `None`).
    pub fn new(anchor: Option<Anchor>) -> (c: CommentInput)
        ensures
            c.anchor == anchor,
            c.buffer@ == Seq::<char>::empty(),
            c.replacing is None,
            c.refusal is None,
    {
        CommentInput { anchor, buffer: String::new(), replacing: None, refusal: None }
    }

    /// The one-line summary shown in the overlay's title.
    pub open spec fn spec_title(&self) -> Seq<char> {
        match (self.anchor, self.replacing) {
            (Some(a), None) => "comment on "@ + a.path@ + ":"@ + spec_decimal(a.line as nat),
            (Some(a), Some(_)) => "edit comment on "@ + a.path@ + ":"@ + spec_decimal(a.line as nat),
            (None, None) => "comment on this review"@,
            (None, Some(_)) => "edit review comment"@,
        }
    }

    /// The one-line summary shown in the overlay's title.
    pub fn title(&self) -> (s: String)
        ensures
            s@ == self.spec_title(),
    {
        match &self.anchor {
            Some(a) => {
                let mut s = if self.replacing.is_some() {
                    "edit comment on ".to_string()
                } else {
                    "comment on ".to_string()
                };
                s.append(a.path.as_str());
                s.append(":");
                push_decimal(&mut s, a.line as usize);
                s
            },
            None => if self.replacing.is_some() {
                "edit review comment".to_string()
            } else {
                "comment on this review".to_string()
            },
        }
    }
}

/// The commit-message popup: a commit's full message, scrolled independently.
#[derive(Debug)]
pub struct CommitMsg {
    pub msg: CommitMessage,
    /// Body scroll offset (top line).
    pub scroll: usize,
    /// The body's line count, cached at construction.
    pub body_lines: usize,
}

impl CommitMsg {
    /// Open a popup for `msg`, caching its body line count.
    pub fn new(msg: CommitMessage) -> (c: CommitMsg)
        ensures
            c.msg == msg,
            c.scroll == 0,
            c.body_lines == spec_lines(msg.body@).len(),
    {
        let n = split_lines(msg.body.as_str()).len();
        CommitMsg { msg, scroll: 0, body_lines: n }
    }
}

/// The live-preview theme picker: a grid of themes. Moving the cursor applies
/// a theme at once; `Enter` commits, `Esc` restores `original`.
#[derive(Debug)]
pub struct ThemePicker {
    /// Cursor position within the active tab's theme list.
    pub selected: usize,
    /// Which tab is shown: dark themes (`true`) or light themes.
    pub dark_tab: bool,
    /// The theme active when the picker opened, by its position in the
    /// catalog, restored on cancel.
    pub original: usize,
}

/// What a palette overlay selects.
#[derive(Debug)]
pub enum PaletteKind {
    /// Fuzzy file jump within the current view; matches index into `cs.files`.
    Files,
    /// Commit picker; matches index into `commits`.
    Commits { commits: Vec<CommitInfo>, scoped_path: Option<String>, truncated: bool },
}

/// A filtered popup overlay (file jump or commit pick).
#[derive(Debug)]
pub struct Palette {
    pub kind: PaletteKind,
    pub query: String,
    /// Indices into the palette's backing list, best first.
    pub matches: Vec<usize>,
    pub selected: usize,
    /// Active interpretation of the query, for the commit picker.
    pub mode_hint: &'static str,
}

/// A verdict preset: a name and the instruction text it seeds.
#[derive(Debug)]
pub struct VerdictPreset {
    pub name: String,
    pub body: String,
}

/// Closing a review round in two stages: pick a preset, then edit its text.
#[derive(Debug)]
pub struct SubmitDraft {
    pub presets: Vec<VerdictPreset>,
    pub selected: usize,
    /// The instruction being edited; `None` while picking a preset.
    pub buffer: Option<String>,
    /// Why the last send was refused, shown inside the box.
    pub refusal: Option<String>,
}

impl SubmitDraft {
    /// A draft at the preset list, the first preset selected.
    pub fn new(presets: Vec<VerdictPreset>) -> (d: SubmitDraft)
        ensures
            d.presets == presets,
            d.selected == 0,
            d.buffer is None,
            d.refusal is None,
    {
        SubmitDraft { presets, selected: 0, buffer: None, refusal: None }
    }

    /// The selected preset, if any.
    pub fn current(&self) -> (p: Option<&VerdictPreset>)
        ensures
            self.selected < self.presets@.len() ==> p == Some(&self.presets@[self.selected as int]),
            self.selected >= self.presets@.len() ==> p is None,
    {
        if self.selected < self.presets.len() {
            Some(&self.presets[self.selected])
        } else {
            None
        }
    }

    /// Move the preset selection, clamped (only while picking).
    pub fn move_by(&mut self, delta: isize)
        requires
            old(self).selected <= isize::MAX,
            old(self).presets@.len() <= isize::MAX,
            isize::MIN <= old(self).selected + delta <= isize::MAX,
        ensures
            old(self).buffer is None ==> final(self).selected == clamp_sel(
                old(self).selected + delta,
                old(self).presets@.len() as int,
            ),
            old(self).buffer is Some ==> final(self).selected == old(self).selected,
            final(self).presets == old(self).presets,
            final(self).buffer == old(self).buffer,
            final(self).refusal == old(self).refusal,
    {
        if self.buffer.is_some() {
            return ;
        }
        let last = self.presets.len().saturating_sub(1) as isize;
        let next = self.selected as isize + delta;
        self.selected = if next < 0 {
            0
        } else if next > last {
            last as usize
        } else {
            next as usize
        };
    }

    /// Enter the editing stage, seeded with the selected preset's text
    /// (nothing to seed from without a preset).
    pub fn begin_edit(&mut self)
        ensures
            old(self).selected < old(self).presets@.len() ==> (final(self).buffer matches Some(b) && b@
                == old(self).presets@[old(self).selected as int].body@),
            old(self).selected >= old(self).presets@.len() ==> final(self).buffer == old(self).buffer,
            final(self).presets == old(self).presets,
            final(self).selected == old(self).selected,
            final(self).refusal == old(self).refusal,
    {
        if self.selected < self.presets.len() {
            let b = self.presets[self.selected].body.clone();
            self.buffer = Some(b);
        }
    }

    /// The box title: the picking prompt, or `submit` with the preset named.
    pub open spec fn spec_title(&self) -> Seq<char> {
        match self.buffer {
            None => "pick a verdict"@,
            Some(_) => if self.selected < self.presets@.len() {
                "submit · "@ + self.presets@[self.selected as int].name@
            } else {
                "submit"@
            },
        }
    }

    /// The box title: the picking prompt, or `submit` with the preset named.
    pub fn title(&self) -> (s: String)
        ensures
            s@ == self.spec_title(),
    {
        if self.buffer.is_none() {
            return "pick a verdict".to_string();
        }
        if self.selected < self.presets.len() {
            let mut s = "submit · ".to_string();
            s.append(self.presets[self.selected].name.as_str());
            s
        } else {
            "submit".to_string()
        }
    }
}

} // verus!
