//! Carrying out what an input asks for: each command the library can do
//! on its own state is done here, through the action that owns it; what
//! needs the outside world (the repository, the review log, the fuzzy
//! scorer, the theme catalog, the sidebar's layout) comes back as an
//! effect for the caller to perform.

use vstd::prelude::*;
use crate::app::App;
use crate::comments::CommentDraft;
use crate::keys::{Command, Event, Key, Mods, editing_of, event_command, key_command, peek_mode_of};
use crate::app::context_of;
use crate::peekopen::BlameRequest;
use crate::session::FileStub;
use crate::submit::SubmitRequest;
use crate::types::{Base, Focus};
use crate::overlays::top_palette;
use crate::peekopen::{half_step, page_step};
use crate::app::any_expanded;

verus! {

/// What a command leaves for the caller to do.
#[derive(Debug)]
pub enum Effect {
    /// Nothing more.
    Done,
    /// Dispatch these diff jobs (a load started or resumed).
    Load(Vec<(usize, FileStub)>),
    /// Run this blame fetch for the open peek.
    Blame(BlameRequest),
    /// Score the open palette's candidates against its query and hand the
    /// scores to [`App::palette_refresh`].
    RefreshPalette,
    /// Enumerate this commit and hand it to [`App::palette_open_commit`].
    FetchCommit(String),
    /// Fetch this commit's message and hand it to
    /// [`App::open_commit_message`].
    FetchMessage(String),
    /// Record this comment in the review log and report with
    /// [`App::comment_settled`].
    Record(CommentDraft),
    /// Record this verdict in the review log and report with
    /// [`App::submit_settled`].
    Submit(SubmitRequest),
    /// The command needs the outside world; the caller carries it out.
    Outside(Command),
}

/// Commands whose work lies outside the library: they read the repository,
/// the review log, the theme catalog or the fuzzy scorer, or move through
/// the sidebar's rows.
pub open spec fn is_outside(cmd: Command) -> bool {
    match cmd {
        Command::OpenPeekPreview | Command::OpenPeekReview | Command::OpenPalette | Command::OpenCommitPalette
        | Command::OpenFileHistory | Command::CommitMsgConfirm | Command::ThemeCancel | Command::ThemeCommit
        | Command::ThemeMove(_, _) | Command::ThemeToggleTab | Command::ThemeNext | Command::OpenThemePicker
        | Command::OpenComment(_) | Command::NextFile | Command::PrevFile | Command::SidebarMove(_)
        | Command::SidebarScroll(_) | Command::GotoDigit(_) | Command::Click(_, _) | Command::OpenThreads
        | Command::OpenSubmit | Command::ThreadsEdit | Command::ThreadsRetract | Command::ThreadsResolve => true,
        _ => false,
    }
}

/// A move of `delta` from `x` stays in the range of `isize`.
pub open spec fn step_fits(x: int, delta: int) -> bool {
    x <= isize::MAX && isize::MIN <= x + delta <= isize::MAX
}

/// Whether a page (`half` false) or half page (`half` true) of the stream
/// in direction `dir` stays in the range of `isize`.
pub open spec fn page_fits(a: App, dir: isize, half: bool) -> bool {
    let u = crate::stream::spec_usable(a.pl(), a.viewport_h) as usize;
    let step = if half {
        crate::stream::spec_half_step(u)
    } else {
        crate::stream::spec_page_step(u)
    };
    &&& a.viewport_h <= isize::MAX
    &&& a.st().cursor_row <= isize::MAX
    &&& a.pl().rows.len() <= isize::MAX
    &&& isize::MIN <= dir * step <= isize::MAX
    &&& isize::MIN <= a.st().cursor_row + dir * step <= isize::MAX
}

/// A motion beyond the range of `isize` leaves the app alone; otherwise
/// `done` holds.
pub open spec fn guarded(fits: bool, before: App, after: App, done: bool) -> bool {
    if fits {
        done
    } else {
        after == before
    }
}

/// The peek's mode switched over `sides`, with the blame fetch it asks for
/// as the effect.
pub open spec fn switched_peek(before: App, after: App, sides: Option<(String, String)>, e: Effect) -> bool {
    match e {
        Effect::Blame(x) => App::peek_switch_mode_done(before, after, sides, Some(x)),
        Effect::Done => App::peek_switch_mode_done(before, after, sides, None),
        _ => false,
    }
}

/// What carrying out `cmd` at `now_ms` from `before` to `after` with effect
/// `e` comes to: a command needing the outside world, and `Nothing`, leave
/// the state alone; `Quit` only raises the quit flag; every other command
/// is what the action that owns it promises, with the effect carrying that
/// action's answer.
pub open spec fn ran(before: App, after: App, cmd: Command, now_ms: u64, e: Effect) -> bool {
    if is_outside(cmd) {
        after == before && e == Effect::Outside(cmd)
    } else {
        match cmd {
            Command::Nothing => after == before && e == Effect::Done,
            Command::Quit => after == (App { should_quit: true, ..before }) && e == Effect::Done,
            Command::ToggleHelp => App::toggle_help_done(before, after) && e == Effect::Done,
            Command::CommitMsgDismiss => App::commit_msg_dismiss_done(before, after) && e == Effect::Done,
            Command::CommitMsgScroll(d) => App::commit_msg_scroll_done(before, after, d) && e == Effect::Done,
            Command::CommitMsgPage(d) => e == Effect::Done && guarded(
                before.commit_msg_viewport_h <= isize::MAX && isize::MIN <= d * crate::stream::spec_page_step(
                    before.commit_msg_viewport_h,
                ) <= isize::MAX,
                before,
                after,
                App::commit_msg_page_done(before, after, d),
            ),
            Command::PaletteClose => App::palette_close_done(before, after) && e == Effect::Done,
            Command::PaletteConfirm => match e {
                Effect::FetchCommit(x) => App::palette_confirm_done(before, after, Some(x)),
                Effect::Done => App::palette_confirm_done(before, after, None),
                _ => false,
            },
            Command::PalettePick(n) => match e {
                Effect::FetchCommit(x) => App::palette_pick_done(before, after, n, Some(x)),
                Effect::Done => App::palette_pick_done(before, after, n, None),
                _ => false,
            },
            Command::PaletteOpenMessage => after == before && match e {
                Effect::FetchMessage(x) => App::palette_highlighted_sha_done(before, Some(x)),
                Effect::Done => App::palette_highlighted_sha_done(before, None),
                _ => false,
            },
            Command::PaletteMove(d) => App::palette_move_done(before, after, d) && e == Effect::Done,
            Command::PaletteBackspace => if top_palette(before.mode) is Some {
                App::palette_backspace_done(before, after) && e == Effect::RefreshPalette
            } else {
                after == before && e == Effect::Done
            },
            Command::PaletteInput(c) => if top_palette(before.mode) is Some {
                App::palette_input_done(before, after, c) && e == Effect::RefreshPalette
            } else {
                after == before && e == Effect::Done
            },
            Command::CommentCancel => App::comment_cancel_done(before, after) && e == Effect::Done,
            Command::CommentConfirm => match e {
                Effect::Record(x) => App::comment_confirm_done(before, after, Some(x)),
                Effect::Done => App::comment_confirm_done(before, after, None),
                _ => false,
            },
            Command::CommentBackspace => App::comment_backspace_done(before, after) && e == Effect::Done,
            Command::CommentInput(c) => App::comment_input_done(before, after, c) && e == Effect::Done,
            Command::ThreadsMove(d) => App::threads_move_done(before, after, d) && e == Effect::Done,
            Command::ThreadsJump => App::threads_jump_done(before, after) && e == Effect::Done,
            Command::ThreadsClose => App::threads_close_done(before, after) && e == Effect::Done,
            Command::SubmitMove(d) => App::submit_move_done(before, after, d) && e == Effect::Done,
            Command::SubmitConfirm => match e {
                Effect::Submit(x) => App::submit_confirm_done(before, after, Some(x)),
                Effect::Done => App::submit_confirm_done(before, after, None),
                _ => false,
            },
            Command::SubmitCancel => App::submit_cancel_done(before, after) && e == Effect::Done,
            Command::SubmitBackspace => App::submit_backspace_done(before, after) && e == Effect::Done,
            Command::SubmitInput(c) => App::submit_input_done(before, after, c) && e == Effect::Done,
            Command::PeekClose => App::peek_close_done(before, after) && e == Effect::Done,
            Command::PeekSwitchMode => exists|w: Option<usize>|
                #![trigger App::peek_sides_wanted_done(before, w)]
                App::peek_sides_wanted_done(before, w) && match w {
                    Some(i) => exists|c: Option<(String, String)>|
                        #![trigger App::cached_sides_done(before, i, c)]
                        App::cached_sides_done(before, i, c) && match c {
                            Some(t) => switched_peek(before, after, Some(t), e),
                            None => after == before && e == Effect::Outside(cmd),
                        },
                    None => switched_peek(before, after, None, e),
                },
            Command::PeekHalfPage(d) => e == Effect::Done && guarded(
                isize::MIN <= d * half_step(before.peek_viewport_h) <= isize::MAX,
                before,
                after,
                App::peek_half_page_done(before, after, d),
            ),
            Command::PeekHunk(d) => App::peek_hunk_done(before, after, d) && e == Effect::Done,
            Command::PeekScroll(d) => e == Effect::Done && guarded(
                before.mode.base matches Base::Peek(p) ==> step_fits(p.state.scroll as int, d as int)
                    && p.plan@.rows.len() <= isize::MAX,
                before,
                after,
                App::peek_scroll_done(before, after, d),
            ),
            Command::PeekPage(d) => e == Effect::Done && guarded(
                before.peek_viewport_h <= isize::MAX && isize::MIN <= d * page_step(before.peek_viewport_h)
                    <= isize::MAX,
                before,
                after,
                App::peek_page_done(before, after, d),
            ),
            Command::PeekTop => App::peek_top_done(before, after) && e == Effect::Done,
            Command::PeekBottom => App::peek_bottom_done(before, after) && e == Effect::Done,
            Command::PeekSetFull(full) => App::peek_set_full_done(before, after, full) && e == Effect::Done,
            Command::PeekToggleSplit => App::peek_toggle_split_done(before, after) && e == Effect::Done,
            Command::PeekBlameMessage => after == before && match e {
                Effect::FetchMessage(x) => App::peek_blame_sha_done(before, Some(x)),
                Effect::Done => App::peek_blame_sha_done(before, None),
                _ => false,
            },
            Command::CancelLoad => e matches Effect::Load(jobs) && App::cancel_load_done(before, after, now_ms, jobs),
            Command::HalfPageFocused(d) => if before.focus_of() == Focus::Sidebar {
                after == before && e == Effect::Outside(cmd)
            } else {
                e == Effect::Done && guarded(
                    page_fits(before, d, true),
                    before,
                    after,
                    App::half_page_done(before, after, d),
                )
            },
            Command::ToggleFocus => App::toggle_focus_done(before, after) && e == Effect::Done,
            Command::ToggleSidebar => App::toggle_sidebar_done(before, after) && e == Effect::Done,
            Command::OpenPeekBlame => match e {
                Effect::Blame(x) => App::open_peek_blame_done(before, after, Some(x)),
                Effect::Done => App::open_peek_blame_done(before, after, None),
                _ => false,
            },
            Command::ViewHome => e matches Effect::Load(jobs) && App::view_home_done(before, after, now_ms, jobs),
            Command::ViewBack => e matches Effect::Load(jobs) && App::view_back_done(before, after, now_ms, jobs),
            Command::ViewForward => e matches Effect::Load(jobs) && App::view_forward_done(
                before,
                after,
                now_ms,
                jobs,
            ),
            Command::PromoteReview => App::promote_review_done(before, after) && e == Effect::Done,
            Command::ToggleViewed => App::toggle_viewed_done(before, after) && e == Effect::Done,
            Command::NextUnviewed => e == Effect::Done && exists|found: bool|
                #![trigger App::next_unviewed_done(before, after, found)]
                App::next_unviewed_done(before, after, found),
            Command::CycleMode => App::cycle_mode_done(before, after) && e == Effect::Done,
            Command::ToggleWrap => App::toggle_wrap_done(before, after) && e == Effect::Done,
            Command::ToggleGrouping => App::toggle_grouping_done(before, after) && e == Effect::Done,
            Command::ToggleFold => App::toggle_fold_done(before, after) && e == Effect::Done,
            Command::FoldAll => e == Effect::Done && guarded(
                !(before.grouped && any_expanded(before) && before.st().selected_dir is None
                    && before.st().selected >= before.session.cur().cs.files@.len()),
                before,
                after,
                App::fold_all_done(before, after),
            ),
            Command::FocusStream => App::focus_stream_done(before, after) && e == Effect::Done,
            Command::ScrollView(d) => e == Effect::Done && guarded(
                step_fits(before.st().scroll as int, d as int) && before.st().cursor_row + before.pl().rows.len()
                    <= isize::MAX,
                before,
                after,
                App::scroll_view_done(before, after, d),
            ),
            Command::MoveCursor(d) => e == Effect::Done && guarded(
                step_fits(before.st().cursor_row as int, d as int) && before.pl().rows.len() <= isize::MAX,
                before,
                after,
                App::move_cursor_done(before, after, d),
            ),
            Command::Page(d) => e == Effect::Done && guarded(
                page_fits(before, d, false),
                before,
                after,
                App::page_done(before, after, d),
            ),
            Command::NextHunk => App::next_hunk_done(before, after) && e == Effect::Done,
            Command::PrevHunk => App::prev_hunk_done(before, after) && e == Effect::Done,
            Command::Top => App::top_done(before, after) && e == Effect::Done,
            Command::Bottom => App::bottom_done(before, after) && e == Effect::Done,
            Command::HScroll(d) => e == Effect::Done && guarded(
                step_fits(before.st().h_scroll as int, d as int) && before.pl().content_w <= isize::MAX,
                before,
                after,
                App::h_scroll_by_done(before, after, d),
            ),
            _ => after == before && e == Effect::Outside(cmd),
        }
    }
}

/// Whether a step of `delta` from `x` stays in the plain range the stream's
/// motions take.
fn small(x: usize, delta: isize) -> (r: bool)
    ensures
        r == (x <= isize::MAX && isize::MIN <= x + delta <= isize::MAX),
{
    if x > (isize::MAX as usize) {
        return false;
    }
    (x as isize).checked_add(delta).is_some()
}

impl App {
    /// Carry out `cmd` at `now_ms` (see [`Effect`]): commands that need the
    /// outside world leave the state alone and come back as effects; the
    /// rest act through the action that owns them. A motion beyond the
    /// range of `isize` does nothing.
    #[verifier::rlimit(60)]
    pub fn run_command(&mut self, cmd: Command, now_ms: u64) -> (e: Effect)
        requires
            old(self).wf(),
        ensures
            final(self).wf(),
            ran(*old(self), *final(self), cmd, now_ms, e),
    {
        match cmd {
            Command::Nothing => Effect::Done,
            Command::Quit => {
                self.should_quit = true;
                Effect::Done
            },
            Command::ToggleHelp => {
                self.toggle_help();
                Effect::Done
            },
            Command::CommitMsgDismiss => {
                self.commit_msg_dismiss();
                Effect::Done
            },
            Command::CommitMsgScroll(d) => {
                self.commit_msg_scroll(d);
                Effect::Done
            },
            Command::CommitMsgPage(d) => {
                let h = self.commit_msg_viewport_h;
                if h <= isize::MAX as usize {
                    let step: isize = if h > 1 {
                        (h - 1) as isize
                    } else {
                        1
                    };
                    if d.checked_mul(step).is_some() {
                        self.commit_msg_page(d);
                    }
                }
                Effect::Done
            },
            Command::PaletteClose => {
                self.palette_close();
                Effect::Done
            },
            Command::PaletteConfirm => match self.palette_confirm() {
                Some(rev) => Effect::FetchCommit(rev),
                None => Effect::Done,
            },
            Command::PalettePick(n) => match self.palette_pick(n) {
                Some(rev) => Effect::FetchCommit(rev),
                None => Effect::Done,
            },
            Command::PaletteOpenMessage => match self.palette_highlighted_sha() {
                Some(sha) => Effect::FetchMessage(sha),
                None => Effect::Done,
            },
            Command::PaletteMove(d) => {
                self.palette_move(d);
                Effect::Done
            },
            Command::PaletteBackspace => {
                if self.palette_open() {
                    self.palette_backspace();
                    Effect::RefreshPalette
                } else {
                    Effect::Done
                }
            },
            Command::PaletteInput(c) => {
                if self.palette_open() {
                    self.palette_input(c);
                    Effect::RefreshPalette
                } else {
                    Effect::Done
                }
            },
            Command::CommentCancel => {
                self.comment_cancel();
                Effect::Done
            },
            Command::CommentConfirm => match self.comment_confirm() {
                Some(d) => Effect::Record(d),
                None => Effect::Done,
            },
            Command::CommentBackspace => {
                self.comment_backspace();
                Effect::Done
            },
            Command::CommentInput(c) => {
                self.comment_input(c);
                Effect::Done
            },
            Command::ThreadsMove(d) => {
                self.threads_move(d);
                Effect::Done
            },
            Command::ThreadsJump => {
                self.threads_jump();
                Effect::Done
            },
            Command::ThreadsClose => {
                self.threads_close();
                Effect::Done
            },
            Command::SubmitMove(d) => {
                self.submit_move(d);
                Effect::Done
            },
            Command::SubmitConfirm => match self.submit_confirm() {
                Some(r) => Effect::Submit(r),
                None => Effect::Done,
            },
            Command::SubmitCancel => {
                self.submit_cancel();
                Effect::Done
            },
            Command::SubmitBackspace => {
                self.submit_backspace();
                Effect::Done
            },
            Command::SubmitInput(c) => {
                self.submit_input(c);
                Effect::Done
            },
            Command::PeekClose => {
                self.peek_close();
                Effect::Done
            },
            Command::PeekSwitchMode => {
                let sides = match self.peek_sides_wanted() {
                    Some(i) => match self.cached_sides(i) {
                        Some(t) => Some(t),
                        None => {
                            return Effect::Outside(cmd);
                        },
                    },
                    None => None,
                };
                match self.peek_switch_mode(sides) {
                    Some(r) => Effect::Blame(r),
                    None => Effect::Done,
                }
            },
            Command::PeekHalfPage(d) => {
                let h = self.peek_viewport_h;
                if h / 2 <= isize::MAX as usize {
                    let step: isize = if h / 2 > 1 {
                        (h / 2) as isize
                    } else {
                        1
                    };
                    if d.checked_mul(step).is_some() {
                        self.peek_half_page(d);
                    }
                }
                Effect::Done
            },
            Command::PeekHunk(d) => {
                self.peek_hunk(d);
                Effect::Done
            },
            Command::PeekScroll(d) => {
                let ok = match &self.mode.base {
                    Base::Peek(p) => small(p.state.scroll, d) && p.plan.rows.len() <= isize::MAX as usize,
                    Base::Normal { .. } => true,
                };
                if ok {
                    self.peek_scroll(d);
                }
                Effect::Done
            },
            Command::PeekPage(d) => {
                let h = self.peek_viewport_h;
                if h <= isize::MAX as usize {
                    let step: isize = if h > 1 {
                        (h - 1) as isize
                    } else {
                        1
                    };
                    if d.checked_mul(step).is_some() {
                        self.peek_page(d);
                    }
                }
                Effect::Done
            },
            Command::PeekTop => {
                self.peek_top();
                Effect::Done
            },
            Command::PeekBottom => {
                self.peek_bottom();
                Effect::Done
            },
            Command::PeekSetFull(full) => {
                self.peek_set_full(full);
                Effect::Done
            },
            Command::PeekToggleSplit => {
                self.peek_toggle_split();
                Effect::Done
            },
            Command::PeekBlameMessage => match self.peek_blame_sha() {
                Some(sha) => Effect::FetchMessage(sha),
                None => Effect::Done,
            },
            Command::CancelLoad => {
                let jobs = self.cancel_load(now_ms);
                Effect::Load(jobs)
            },
            Command::HalfPageFocused(d) => {
                match self.focus() {
                    Focus::Sidebar => {
                        return Effect::Outside(cmd);
                    },
                    Focus::Stream => {},
                }
                if self.page_fits(d, true) {
                    self.half_page(d);
                }
                Effect::Done
            },
            Command::ToggleFocus => {
                self.toggle_focus();
                Effect::Done
            },
            Command::ToggleSidebar => {
                self.toggle_sidebar();
                Effect::Done
            },
            Command::OpenPeekBlame => match self.open_peek_blame() {
                Some(r) => Effect::Blame(r),
                None => Effect::Done,
            },
            Command::ViewHome => Effect::Load(self.view_home(now_ms)),
            Command::ViewBack => Effect::Load(self.view_back(now_ms)),
            Command::ViewForward => Effect::Load(self.view_forward(now_ms)),
            Command::PromoteReview => {
                self.promote_review();
                Effect::Done
            },
            Command::ToggleViewed => {
                self.toggle_viewed();
                Effect::Done
            },
            Command::NextUnviewed => {
                self.next_unviewed();
                Effect::Done
            },
            Command::CycleMode => {
                self.cycle_mode();
                Effect::Done
            },
            Command::ToggleWrap => {
                self.toggle_wrap();
                Effect::Done
            },
            Command::ToggleGrouping => {
                self.toggle_grouping();
                Effect::Done
            },
            Command::ToggleFold => {
                self.toggle_fold();
                Effect::Done
            },
            Command::FoldAll => {
                let i = self.session.cursor;
                let bad = self.grouped && self.session.views[i].state.selected_dir.is_none()
                    && self.session.views[i].state.selected >= self.session.views[i].cs.files.len()
                    && self.any_expanded();
                if !bad {
                    self.fold_all();
                }
                Effect::Done
            },
            Command::FocusStream => {
                self.focus_stream();
                Effect::Done
            },
            Command::ScrollView(d) => {
                let i = self.session.cursor;
                let st = &self.session.views[i].state;
                let rows = self.session.views[i].plan.rows.len();
                if small(st.scroll, d) && st.cursor_row <= isize::MAX as usize && rows <= (isize::MAX as usize)
                    - st.cursor_row {
                    self.scroll_view(d);
                }
                Effect::Done
            },
            Command::MoveCursor(d) => {
                let i = self.session.cursor;
                let st = &self.session.views[i].state;
                if small(st.cursor_row, d) && self.session.views[i].plan.rows.len() <= isize::MAX as usize {
                    self.move_cursor(d);
                }
                Effect::Done
            },
            Command::Page(d) => {
                if self.page_fits(d, false) {
                    self.page(d);
                }
                Effect::Done
            },
            Command::NextHunk => {
                self.next_hunk();
                Effect::Done
            },
            Command::PrevHunk => {
                self.prev_hunk();
                Effect::Done
            },
            Command::Top => {
                self.top();
                Effect::Done
            },
            Command::Bottom => {
                self.bottom();
                Effect::Done
            },
            Command::HScroll(d) => {
                let i = self.session.cursor;
                if small(self.session.views[i].state.h_scroll, d) && self.session.views[i].plan.content_w
                    <= isize::MAX as usize {
                    self.h_scroll_by(d);
                }
                Effect::Done
            },
            _ => Effect::Outside(cmd),
        }
    }

    /// Whether a page (`half` false) or half page (`half` true) of the
    /// stream in direction `dir` stays in the range of `isize`.
    fn page_fits(&self, dir: isize, half: bool) -> (r: bool)
        requires
            self.wf(),
        ensures
            r == page_fits(*self, dir, half),
    {
        let i = self.session.cursor;
        let vh = self.viewport_h;
        let rows = self.session.views[i].plan.rows.len();
        let cur = self.session.views[i].state.cursor_row;
        if vh > isize::MAX as usize || cur > isize::MAX as usize || rows > isize::MAX as usize {
            return false;
        }
        let u = crate::stream::usable(&self.session.views[i].plan, vh);
        let step: isize = if half {
            if u / 2 >= 1 {
                (u / 2) as isize
            } else {
                1
            }
        } else if u >= 2 {
            (u - 1) as isize
        } else {
            1
        };
        match dir.checked_mul(step) {
            Some(m) => (cur as isize).checked_add(m).is_some(),
            None => false,
        }
    }

    /// Handle a key at `now_ms`: route it (clearing the transient note) and
    /// carry the command out.
    pub fn handle_key(&mut self, key: Key, mods: Mods, now_ms: u64) -> (e: Effect)
        requires
            old(self).wf(),
        ensures
            final(self).wf(),
            ran(
                App { flash: None, ..*old(self) },
                *final(self),
                key_command(
                    context_of(old(self).mode),
                    old(self).focus_of(),
                    old(self).session.loader is Some,
                    peek_mode_of(old(self).mode),
                    editing_of(old(self).mode),
                    key,
                    mods,
                ),
                now_ms,
                e,
            ),
    {
        let cmd = self.key_command(key, mods);
        self.run_command(cmd, now_ms)
    }

    /// Handle an input event at `now_ms`: route it and carry the command
    /// out; answers the effect and whether the frame needs drawing again.
    pub fn handle_event(&mut self, ev: Event, now_ms: u64) -> (r: (Effect, bool))
        requires
            old(self).wf(),
        ensures
            final(self).wf(),
            ({
                let routed = event_command(
                    context_of(old(self).mode),
                    old(self).focus_of(),
                    old(self).session.loader is Some,
                    peek_mode_of(old(self).mode),
                    editing_of(old(self).mode),
                    ev,
                );
                let before = if ev matches Event::Key { press, .. } && press {
                    App { flash: None, ..*old(self) }
                } else {
                    *old(self)
                };
                &&& ran(before, *final(self), routed.0, now_ms, r.0)
                &&& r.1 == routed.1
            }),
    {
        let (cmd, dirty) = self.event_command(ev);
        (self.run_command(cmd, now_ms), dirty)
    }
}

} // verus!
