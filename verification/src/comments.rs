//! Composing review comments and browsing the review's threads: opening the
//! comment box on the cursor's line (refused, with a reason, where there is
//! nothing to anchor), editing it, handing a finished comment to the caller
//! to record, and jumping from the thread list to a thread's line. Nothing
//! is written while a comment is only being composed.

use vstd::prelude::*;
use crate::app::App;
use crate::reviewlog::{Anchor, anchor_at, spec_anchor_at};
use crate::rows::{find_key, spec_find_key};
use crate::stream;
use crate::text::push_char;
use crate::types::{CommentInput, Mode, Overlay, ThreadList};

verus! {

/// Whether `c` is whitespace: Unicode's `White_Space` property, the
/// twenty-five code points std's `char::is_whitespace` answers `true` for.
pub open spec fn white_space(c: char) -> bool {
    let n = c as int;
    ||| 0x9 <= n <= 0xd
    ||| n == 0x20
    ||| n == 0x85
    ||| n == 0xa0
    ||| n == 0x1680
    ||| 0x2000 <= n <= 0x200a
    ||| n == 0x2028
    ||| n == 0x2029
    ||| n == 0x202f
    ||| n == 0x205f
    ||| n == 0x3000
}

/// Whether `c` is whitespace (see [`white_space`]).
pub fn is_white(c: char) -> (r: bool)
    ensures
        r == white_space(c),
{
    let n = c as u32;
    (0x9 <= n && n <= 0xd) || n == 0x20 || n == 0x85 || n == 0xa0 || n == 0x1680 || (0x2000 <= n && n <= 0x200a)
        || n == 0x2028 || n == 0x2029 || n == 0x202f || n == 0x205f || n == 0x3000
}

/// A text with nothing but whitespace in it (what trims to nothing).
pub open spec fn is_blank(s: Seq<char>) -> bool {
    forall|i: int| 0 <= i < s.len() ==> white_space(#[trigger] s[i])
}

/// Whether `s` has nothing but whitespace in it.
pub fn blank_text(s: &String) -> (r: bool)
    ensures
        r == is_blank(s@),
{
    let v = crate::text::chars_of(s.as_str());
    let mut i: usize = 0;
    while i < v.len()
        invariant
            i <= v@.len(),
            v@ == s@,
            forall|j: int| 0 <= j < i ==> white_space(#[trigger] v@[j]),
        decreases v@.len() - i,
    {
        if !is_white(v[i]) {
            return false;
        }
        i = i + 1;
    }
    true
}

/// A finished comment for the caller to record: on `anchor` (the review as
/// a whole when `None`), superseding thread `replacing` when it is an edit.
#[derive(Debug)]
pub struct CommentDraft {
    pub anchor: Option<Anchor>,
    pub body: String,
    pub replacing: Option<String>,
}

/// Two optional anchors with the same content.
pub open spec fn same_anchor(a: Option<Anchor>, b: Option<Anchor>) -> bool {
    match (a, b) {
        (Some(x), Some(y)) => x@ == y@,
        (None, None) => true,
        _ => false,
    }
}

/// The note shown when the first comment opened a fresh review.
pub open spec fn fresh_review_note() -> Seq<char> {
    "review points are written to rediff.jsonl — add it to .gitignore if you don't want it tracked"@
}

/// The note shown when there is no review log to comment into.
pub open spec fn no_log_note() -> Seq<char> {
    "this repository has no worktree to hold a review log"@
}

/// The topmost overlay, when it is the comment box.
pub open spec fn top_comment(m: Mode) -> Option<CommentInput> {
    match m.overlay_spec() {
        Some(Overlay::Comment(c)) => Some(c),
        _ => None,
    }
}

/// The topmost overlay, when it is the thread list.
pub open spec fn top_threads(m: Mode) -> Option<ThreadList> {
    match m.overlay_spec() {
        Some(Overlay::Threads(l)) => Some(l),
        _ => None,
    }
}

/// The first file at `path`, or whose previous path is `path` (a thread
/// anchored before a rename).
pub open spec fn file_for_path(files: Seq<crate::model::DiffFile>, path: Seq<char>, from: int) -> Option<int>
    decreases files.len() - from,
{
    if from < 0 || from >= files.len() {
        None
    } else if files[from].path@ == path || (files[from].previous_path matches Some(p) && p@ == path) {
        Some(from)
    } else {
        file_for_path(files, path, from + 1)
    }
}

/// The row of the selected thread's line in `a`'s current view, or why
/// there is none: `Err(true)` when its line is not in this diff (no
/// anchor, or no such file), `Err(false)` when the line is not shown.
pub open spec fn thread_row(a: App, l: ThreadList) -> Result<int, bool> {
    if l.selected < l.threads@.len() {
        let t = l.threads@[l.selected as int];
        match (t.path, t.key) {
            (Some(p), Some(k)) => match file_for_path(a.session.cur().cs.files@, p@, 0) {
                Some(fi) => match spec_find_key(a.pl(), (fi as usize, k.1, k.2)) {
                    Some(row) => Ok(row),
                    None => Err(false),
                },
                None => Err(true),
            },
            _ => Err(true),
        }
    } else {
        Err(true)
    }
}

/// The note shown when the thread list cannot jump.
pub open spec fn jump_note(not_in_diff: bool) -> Seq<char> {
    if not_in_diff {
        "that comment's line is not in this diff"@
    } else {
        "that comment's line is not shown here"@
    }
}

impl App {
    /// The comment being composed, when the comment box is on top.
    pub fn comment_input_state(&self) -> (r: Option<&CommentInput>)
        ensures
            match top_comment(self.mode) {
                Some(c) => r == Some(&c),
                None => r is None,
            },
    {
        match self.mode.overlay() {
            Some(Overlay::Comment(c)) => Some(c),
            _ => None,
        }
    }

    /// Open the comment box on the cursor's line (`anchored`) or on the
    /// review as a whole. Only a review takes comments; without a review log
    /// (`has_log`) a note says why, and a cursor with nothing to anchor to
    /// says so instead of opening the box.
    pub fn open_comment(&mut self, anchored: bool, has_log: bool)
        requires
            old(self).wf(),
        ensures
            final(self).session == old(self).session,
            final(self).mode.base == old(self).mode.base,
            !old(self).session.cur().review ==> final(self).mode.stack() == old(self).mode.stack() && final(self).flash == old(self).flash,
            old(self).session.cur().review && !has_log ==> final(self).mode.stack() == old(self).mode.stack() && (
            final(self).flash matches Some(f) && f@ == no_log_note()),
            old(self).session.cur().review && has_log ==> ({
                let a = spec_anchor_at(old(self).session.cur().cs.files_v(), old(self).pl(), old(self).st().cursor_row);
                if !anchored {
                    &&& final(self).flash == old(self).flash
                    &&& final(self).mode.stack().drop_last() == old(self).mode.stack()
                    &&& top_comment(final(self).mode) matches Some(c) && c.anchor is None && c.buffer@.len() == 0
                        && c.replacing is None && c.refusal is None
                } else {
                    match a {
                        Ok(av) => {
                            &&& final(self).flash == old(self).flash
                            &&& final(self).mode.stack().drop_last() == old(self).mode.stack()
                            &&& top_comment(final(self).mode) matches Some(c) && (c.anchor matches Some(x) && x@ == av)
                                && c.buffer@.len() == 0 && c.replacing is None && c.refusal is None
                        },
                        Err(e) => {
                            &&& final(self).mode.stack() == old(self).mode.stack()
                            &&& final(self).flash matches Some(f) && f@ == crate::reviewlog::anchor_error_note(e)
                        },
                    }
                }
            }),
    {
        proof {
            reveal_strlit("this repository has no worktree to hold a review log");
        }
        if !self.is_review() {
            return ;
        }
        if !has_log {
            self.flash = Some("this repository has no worktree to hold a review log".to_string());
            return ;
        }
        let anchor = if anchored {
            let i = self.session.cursor;
            let row = self.session.views[i].state.cursor_row;
            match anchor_at(&self.session.views[i].cs, &self.session.views[i].plan, row) {
                Ok(a) => Some(a),
                Err(e) => {
                    self.flash = Some(e.message().to_string());
                    return ;
                },
            }
        } else {
            None
        };
        self.mode.push_overlay(Overlay::Comment(CommentInput::new(anchor)));
        proof {
            assert(self.mode.stack().drop_last() =~= old(self).mode.stack());
        }
    }

    /// What [`App::comment_input`] promises: `after` is the app once the call has run on
    /// `before`.
    pub open spec fn comment_input_done(before: App, after: App, c: char) -> bool {
        &&& after.session == before.session
        &&& after.mode.base == before.mode.base
        &&& top_comment(before.mode) is None ==> after.mode.stack() == before.mode.stack()
        &&& top_comment(before.mode) matches Some(ci) ==> {
            &&& after.mode.stack().drop_last() == before.mode.stack().drop_last()
            &&& after.mode.stack().len() == before.mode.stack().len()
            &&& top_comment(after.mode) matches Some(n) && n.buffer@ == ci.buffer@.push(c) && n.refusal is None
                && n.anchor == ci.anchor && n.replacing == ci.replacing
        }
    }

    /// Type `c` into the comment (clearing a shown refusal). Without the
    /// comment box on top nothing changes.
    pub fn comment_input(&mut self, c: char)
        ensures
            Self::comment_input_done(*old(self), *final(self), c),
    {
        match self.mode.pop_overlay() {
            Some(Overlay::Comment(mut ci)) => {
                push_char(&mut ci.buffer, c);
                ci.refusal = None;
                self.mode.push_overlay(Overlay::Comment(ci));
            },
            Some(other) => self.mode.push_overlay(other),
            None => {},
        }
        proof {
            if old(self).mode.stack().len() > 0 {
                assert(old(self).mode.stack().drop_last().push(old(self).mode.stack().last()) =~= old(self).mode.stack());
                assert(self.mode.stack().drop_last() =~= old(self).mode.stack().drop_last());
            }
        }
    }

    /// What [`App::comment_backspace`] promises: `after` is the app once the call has run on
    /// `before`.
    pub open spec fn comment_backspace_done(before: App, after: App) -> bool {
        &&& after.session == before.session
        &&& after.mode.base == before.mode.base
        &&& top_comment(before.mode) is None ==> after.mode.stack() == before.mode.stack()
        &&& top_comment(before.mode) matches Some(ci) ==> {
            &&& after.mode.stack().drop_last() == before.mode.stack().drop_last()
            &&& after.mode.stack().len() == before.mode.stack().len()
            &&& top_comment(after.mode) matches Some(n) && n.buffer@ == (if ci.buffer@.len() > 0 {
                ci.buffer@.drop_last()
            } else {
                ci.buffer@
            }) && n.refusal is None && n.anchor == ci.anchor && n.replacing == ci.replacing
        }
    }

    /// Delete the comment's last character (clearing a shown refusal).
    /// Without the comment box on top nothing changes.
    pub fn comment_backspace(&mut self)
        ensures
            Self::comment_backspace_done(*old(self), *final(self)),
    {
        match self.mode.pop_overlay() {
            Some(Overlay::Comment(mut ci)) => {
                let n = ci.buffer.unicode_len();
                if n > 0 {
                    let shorter = ci.buffer.as_str().substring_char(0, n - 1).to_owned();
                    ci.buffer = shorter;
                }
                ci.refusal = None;
                self.mode.push_overlay(Overlay::Comment(ci));
            },
            Some(other) => self.mode.push_overlay(other),
            None => {},
        }
        proof {
            if old(self).mode.stack().len() > 0 {
                assert(old(self).mode.stack().drop_last().push(old(self).mode.stack().last()) =~= old(self).mode.stack());
                assert(self.mode.stack().drop_last() =~= old(self).mode.stack().drop_last());
            }
        }
    }

    /// What [`App::comment_cancel`] promises: `after` is the app once the call has run on
    /// `before`.
    pub open spec fn comment_cancel_done(before: App, after: App) -> bool {
        &&& after.session == before.session
        &&& after.mode.base == before.mode.base
        &&& before.mode.stack().len() > 0 ==> after.mode.stack() == before.mode.stack().drop_last()
        &&& before.mode.stack().len() == 0 ==> after.mode.stack() == before.mode.stack()
    }

    /// Discard the comment (close the topmost overlay), recording nothing.
    pub fn comment_cancel(&mut self)
        ensures
            Self::comment_cancel_done(*old(self), *final(self)),
    {
        self.mode.pop_overlay();
    }

    /// What [`App::comment_confirm`] promises: `after` is the app once the call has run on
    /// `before`.
    pub open spec fn comment_confirm_done(before: App, after: App, draft: Option<CommentDraft>) -> bool {
        &&& after.session == before.session
        &&& after.mode.base == before.mode.base
        &&& top_comment(before.mode) is None ==> after.mode.stack() == before.mode.stack() && draft is None
        &&& top_comment(before.mode) matches Some(ci) ==> if is_blank(ci.buffer@) {
            after.mode.stack() == before.mode.stack().drop_last() && draft is None
        } else {
            &&& after.mode.stack() == before.mode.stack()
            &&& draft matches Some(d) && same_anchor(d.anchor, ci.anchor) && d.body@ == ci.buffer@
                && d.replacing == ci.replacing
        }
    }

    /// Finish the comment: a blank one is a cancel; otherwise the box stays
    /// open and the comment is handed back for the caller to record (and to
    /// report with [`App::comment_settled`]).
    pub fn comment_confirm(&mut self) -> (draft: Option<CommentDraft>)
        ensures
            Self::comment_confirm_done(*old(self), *final(self), draft),
    {
        let (is_box, empty) = match self.mode.overlay() {
            Some(Overlay::Comment(ci)) => (true, blank_text(&ci.buffer)),
            _ => (false, false),
        };
        if !is_box {
            return None;
        }
        if empty {
            self.mode.pop_overlay();
            return None;
        }
        match self.mode.overlay() {
            Some(Overlay::Comment(ci)) => Some(
                CommentDraft {
                    anchor: match &ci.anchor {
                        Some(a) => Some(a.copy()),
                        None => None,
                    },
                    body: ci.buffer.clone(),
                    replacing: match &ci.replacing {
                        Some(r) => Some(r.clone()),
                        None => None,
                    },
                },
            ),
            _ => None,
        }
    }

    /// Report how recording the comment went: a refusal stays in the box
    /// (the typed text is kept); success closes it, with a note when it
    /// opened a fresh review (`Ok(true)`). Without the comment box on top
    /// nothing changes.
    pub fn comment_settled(&mut self, result: Result<bool, String>)
        ensures
            final(self).session == old(self).session,
            final(self).mode.base == old(self).mode.base,
            top_comment(old(self).mode) is None ==> final(self).mode.stack() == old(self).mode.stack() && final(self).flash == old(self).flash,
            top_comment(old(self).mode) matches Some(ci) ==> match result {
                Err(msg) => {
                    &&& final(self).flash == old(self).flash
                    &&& final(self).mode.stack() == old(self).mode.stack().update(
                        old(self).mode.stack().len() - 1,
                        Overlay::Comment(CommentInput { refusal: Some(msg), ..ci }),
                    )
                },
                Ok(fresh) => {
                    &&& final(self).mode.stack() == old(self).mode.stack().drop_last()
                    &&& fresh ==> (final(self).flash matches Some(f) && f@ == fresh_review_note())
                    &&& !fresh ==> final(self).flash == old(self).flash
                },
            },
    {
        proof {
            reveal_strlit(
                "review points are written to rediff.jsonl — add it to .gitignore if you don't want it tracked",
            );
        }
        match self.mode.pop_overlay() {
            Some(Overlay::Comment(mut ci)) => match result {
                Err(msg) => {
                    ci.refusal = Some(msg);
                    self.mode.push_overlay(Overlay::Comment(ci));
                },
                Ok(fresh) => {
                    if fresh {
                        self.flash = Some(
                            "review points are written to rediff.jsonl — add it to .gitignore if you don't want it tracked".to_string(),
                        );
                    }
                },
            },
            Some(other) => self.mode.push_overlay(other),
            None => {},
        }
        proof {
            if old(self).mode.stack().len() > 0 {
                assert(old(self).mode.stack().drop_last().push(old(self).mode.stack().last()) =~= old(self).mode.stack());
                assert(self.mode.stack() =~= old(self).mode.stack().update(
                    old(self).mode.stack().len() - 1,
                    self.mode.stack().last(),
                ) || self.mode.stack() =~= old(self).mode.stack().drop_last());
            }
        }
    }

    /// The thread list, when it is on top.
    pub fn thread_list(&self) -> (r: Option<&ThreadList>)
        ensures
            match top_threads(self.mode) {
                Some(l) => r == Some(&l),
                None => r is None,
            },
    {
        match self.mode.overlay() {
            Some(Overlay::Threads(l)) => Some(l),
            _ => None,
        }
    }

    /// Open the thread list over `threads` (the review's live threads, read
    /// by the caller), the first one selected; with none, a note says how
    /// to add one. Only a review has threads.
    pub fn open_threads(&mut self, threads: Vec<crate::types::LiveThread>)
        requires
            old(self).wf(),
        ensures
            final(self).session == old(self).session,
            final(self).mode.base == old(self).mode.base,
            !old(self).session.cur().review ==> final(self).mode.stack() == old(self).mode.stack() && final(self).flash == old(self).flash,
            old(self).session.cur().review && threads@.len() == 0 ==> final(self).mode.stack() == old(self).mode.stack() && (final(self).flash matches Some(f) && f@
                == "no review points yet — `a` comments on a line"@),
            old(self).session.cur().review && threads@.len() > 0 ==> final(self).mode.stack() == old(self).mode.stack().push(Overlay::Threads(ThreadList { threads, selected: 0 })) && final(self).flash == old(self).flash,
    {
        proof {
            reveal_strlit("no review points yet — `a` comments on a line");
        }
        if !self.is_review() {
            return ;
        }
        if threads.len() == 0 {
            self.flash = Some("no review points yet — `a` comments on a line".to_string());
            return ;
        }
        self.mode.push_overlay(Overlay::Threads(ThreadList::new(threads)));
    }

    /// What [`App::threads_move`] promises: `after` is the app once the call has run on
    /// `before`.
    pub open spec fn threads_move_done(before: App, after: App, delta: isize) -> bool {
        &&& after.session == before.session
        &&& after.mode.base == before.mode.base
        &&& match top_threads(before.mode) {
            Some(l) => l.selected <= isize::MAX && l.threads@.len() <= isize::MAX && isize::MIN <= l.selected
                + delta <= isize::MAX ==> after.mode.stack() == before.mode.stack().update(
                before.mode.stack().len() - 1,
                Overlay::Threads(
                    ThreadList {
                        selected: crate::types::clamp_sel(l.selected + delta, l.threads@.len() as int) as usize,
                        ..l
                    },
                ),
            ),
            None => after.mode.stack() == before.mode.stack(),
        }
    }

    /// Move the thread list's selection by `delta`, clamped to the list.
    /// Without the list on top nothing changes.
    pub fn threads_move(&mut self, delta: isize)
        ensures
            Self::threads_move_done(*old(self), *final(self), delta),
    {
        match self.mode.pop_overlay() {
            Some(Overlay::Threads(mut l)) => {
                if l.selected <= isize::MAX as usize && l.threads.len() <= isize::MAX as usize {
                    let s = l.selected as isize;
                    if let Some(_) = s.checked_add(delta) {
                        l.move_by(delta);
                    }
                }
                self.mode.push_overlay(Overlay::Threads(l));
            },
            Some(other) => self.mode.push_overlay(other),
            None => {},
        }
        proof {
            if old(self).mode.stack().len() > 0 {
                assert(old(self).mode.stack().drop_last().push(old(self).mode.stack().last()) =~= old(self).mode.stack());
                assert(self.mode.stack() =~= old(self).mode.stack().update(
                    old(self).mode.stack().len() - 1,
                    self.mode.stack().last(),
                ));
            }
        }
    }

    /// What [`App::threads_close`] promises: `after` is the app once the call has run on
    /// `before`.
    pub open spec fn threads_close_done(before: App, after: App) -> bool {
        &&& after.session == before.session
        &&& after.mode.base == before.mode.base
        &&& before.mode.stack().len() > 0 ==> after.mode.stack() == before.mode.stack().drop_last()
        &&& before.mode.stack().len() == 0 ==> after.mode.stack() == before.mode.stack()
    }

    /// Close the topmost overlay (the thread list).
    pub fn threads_close(&mut self)
        ensures
            Self::threads_close_done(*old(self), *final(self)),
    {
        self.mode.pop_overlay();
    }

    /// What [`App::threads_jump`] promises: `after` is the app once the call has run on
    /// `before`.
    pub open spec fn threads_jump_done(before: App, after: App) -> bool {
        &&& top_threads(before.mode) is None ==> after == before
        &&& top_threads(before.mode) matches Some(l) ==> match thread_row(before, l) {
            Err(not_in_diff) => {
                &&& after.session == before.session
                &&& after.mode == before.mode
                &&& after.flash matches Some(f) && f@ == jump_note(not_in_diff)
            },
            Ok(row) => {
                let p = before.pl();
                let mid = crate::view::ViewState {
                    scroll: stream::min_int(
                        row,
                        stream::spec_max_scroll(p.rows.len() as int, stream::spec_usable(p, before.viewport_h)),
                    ) as usize,
                    cursor_row: row as usize,
                    ..before.st()
                };
                &&& after.mode.base == before.mode.base
                &&& after.mode.stack() == before.mode.stack().drop_last()
                &&& crate::app::only_state_changed(
                    before.session_only(after),
                    after,
                )
                &&& stream::follows_cursor(mid, after.st(), p)
            },
        }
    }

    /// Jump to the selected thread's line and close the list: the line
    /// cursor goes to it (the viewport top-aligned on it as far as the last
    /// page allows) and the active file follows. A thread whose line is not
    /// in this diff, or not shown, leaves everything but a note saying so.
    pub fn threads_jump(&mut self)
        requires
            old(self).wf(),
        ensures
            final(self).wf(),
            Self::threads_jump_done(*old(self), *final(self)),
    {
        proof {
            reveal_strlit("that comment's line is not in this diff");
            reveal_strlit("that comment's line is not shown here");
        }
        let target = match self.thread_list() {
            Some(l) => if l.selected < l.threads.len() {
                let t = &l.threads[l.selected];
                match (&t.path, &t.key) {
                    (Some(p), Some(k)) => match self.file_for(p.as_str()) {
                        Some(fi) => Some((fi, k.1, k.2)),
                        None => None,
                    },
                    _ => None,
                }
            } else {
                None
            },
            None => {
                return ;
            },
        };
        let key = match target {
            Some(k) => k,
            None => {
                self.flash = Some("that comment's line is not in this diff".to_string());
                return ;
            },
        };
        let i = self.session.cursor;
        let row = match find_key(&self.session.views[i].plan, key) {
            Some(r) => r,
            None => {
                self.flash = Some("that comment's line is not shown here".to_string());
                return ;
            },
        };
        self.mode.pop_overlay();
        let vh = self.viewport_h;
        let e = &mut self.session.views[i];
        let usable = stream::usable(&e.plan, vh);
        stream::scroll_to(&mut e.state, &e.plan, usable, row);
        e.state.cursor_row = row;
        stream::anchor_selected(&mut e.state, &e.plan);
        proof {
            assert(self.session.views@[i as int].wf()) by {
                assert(old(self).session.views@[i as int].wf());
            }
            assert forall|j: int| 0 <= j < self.session.views@.len() implies (#[trigger] self.session.views@[j]).wf() by {
                assert(old(self).session.views@[j].wf());
            }
        }
    }

    /// `self` with its mode and note taken from `other`: what a change of
    /// the current view's state alone compares against.
    pub open spec fn session_only(&self, other: App) -> App {
        App { mode: other.mode, flash: other.flash, ..*self }
    }

    /// The first file at `path`, or renamed from it.
    fn file_for(&self, path: &str) -> (r: Option<usize>)
        requires
            self.wf(),
        ensures
            match file_for_path(self.session.cur().cs.files@, path@, 0) {
                Some(k) => r == Some(k as usize),
                None => r is None,
            },
    {
        let i = self.session.cursor;
        let n = self.session.views[i].cs.files.len();
        let mut k: usize = 0;
        while k < n
            invariant
                i == self.session.cursor,
                self.wf(),
                n == self.session.cur().cs.files@.len(),
                k <= n,
                file_for_path(self.session.cur().cs.files@, path@, 0) == file_for_path(
                    self.session.cur().cs.files@,
                    path@,
                    k as int,
                ),
            decreases n - k,
        {
            let f = &self.session.views[i].cs.files[k];
            let renamed = match &f.previous_path {
                Some(p) => crate::text::str_eq(p.as_str(), path),
                None => false,
            };
            if crate::text::str_eq(f.path.as_str(), path) || renamed {
                return Some(k);
            }
            k = k + 1;
        }
        None
    }
}

} // verus!
