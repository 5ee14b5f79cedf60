//! The viewer session state and its navigation actions: layout and
//! grouping toggles, directory folding, cursor and viewport motion, focus,
//! reviewed-file tracking, and the overlays' plain-state actions. Everything
//! here is a step from one state to the next; drawing and I/O live outside.

use vstd::prelude::*;
use crate::model::{Changeset, DiffFileV, LayoutMode, spec_parent_dir, parent_dir};
use crate::text::strs_v;
use crate::rows::{self, Plan, PlanV};
use crate::session::{Session, ViewEntry};
use crate::stream;
use crate::text::str_eq;
use crate::types::{Base, CommitMsg, Focus, InputContext, Mode, Overlay, Palette, PaletteKind};
use crate::keymap::{Binding, HintTable, spec_table, table};
use crate::peek::{Peek, PeekMode};
use crate::view::ViewState;

verus! {

/// The state the actions work over.
#[derive(Debug)]
pub struct App {
    /// The browsing session: the view stack and the load state.
    pub session: Session,
    /// Configured layout (split/stack), shared by every view.
    pub layout: LayoutMode,
    /// Whether the sidebar groups files by directory (folding applies only then).
    pub grouped: bool,
    /// Last known stream viewport height (rows).
    pub viewport_h: usize,
    /// Last known stream viewport width (columns).
    pub viewport_w: usize,
    /// Whether the sidebar is hidden to give the diff full width.
    pub sidebar_hidden: bool,
    /// The active input mode: base plus overlay stack.
    pub mode: Mode,
    /// Peek viewport height (rows) from the last draw.
    pub peek_viewport_h: usize,
    /// Commit-message popup body height (rows) from the last draw.
    pub commit_msg_viewport_h: usize,
    /// A transient one-line status note, shown until the next key clears it.
    pub flash: Option<String>,
    /// Whether the launch view was narrowed by path filters.
    pub launch_filtered: bool,
    pub should_quit: bool,
}

/// `after` is `before` with at most the current view's state changed.
pub open spec fn only_state_changed(before: App, after: App) -> bool {
    &&& after.session.cursor == before.session.cursor
    &&& after.session.views@.len() == before.session.views@.len()
    &&& forall|i: int|
        0 <= i < after.session.views@.len() && i != after.session.cursor ==> #[trigger] after.session.views@[i]
            == before.session.views@[i]
    &&& after.session.cur() == (ViewEntry { state: after.session.cur().state, ..before.session.cur() })
    &&& after.session.repo_dir == before.session.repo_dir
    &&& after.session.loader == before.session.loader
    &&& after.session.load_started_ms == before.session.load_started_ms
    &&& after.session.load_kind == before.session.load_kind
    &&& after.rest_same(before)
}

impl App {
    /// The session is well formed, and an open peek's texts fit a plan.
    pub open spec fn wf(&self) -> bool {
        &&& self.session.wf()
        &&& self.mode.base matches Base::Peek(p) ==> p.texts_fit()
    }

    /// Everything but the session is as in `other`.
    pub open spec fn rest_same(&self, other: App) -> bool {
        &&& self.layout == other.layout
        &&& self.grouped == other.grouped
        &&& self.viewport_h == other.viewport_h
        &&& self.viewport_w == other.viewport_w
        &&& self.sidebar_hidden == other.sidebar_hidden
        &&& self.mode == other.mode
        &&& self.peek_viewport_h == other.peek_viewport_h
        &&& self.commit_msg_viewport_h == other.commit_msg_viewport_h
        &&& self.flash == other.flash
        &&& self.launch_filtered == other.launch_filtered
        &&& self.should_quit == other.should_quit
    }

    /// Everything but the session and the mode is as in `other`.
    pub open spec fn rest_same_but_mode(&self, other: App) -> bool {
        &&& self.layout == other.layout
        &&& self.grouped == other.grouped
        &&& self.viewport_h == other.viewport_h
        &&& self.viewport_w == other.viewport_w
        &&& self.sidebar_hidden == other.sidebar_hidden
        &&& self.peek_viewport_h == other.peek_viewport_h
        &&& self.commit_msg_viewport_h == other.commit_msg_viewport_h
        &&& self.flash == other.flash
        &&& self.launch_filtered == other.launch_filtered
        &&& self.should_quit == other.should_quit
    }

    /// The current view's state.
    pub open spec fn st(&self) -> ViewState {
        self.session.cur().state
    }

    /// The current view's plan.
    pub open spec fn pl(&self) -> PlanV {
        self.session.cur().plan@
    }

    /// The current view's changeset.
    pub fn cs(&self) -> (r: &Changeset)
        requires
            self.wf(),
        ensures
            *r == self.session.cur().cs,
    {
        self.session.cs()
    }

    /// The current view's row plan.
    pub fn plan(&self) -> (r: &Plan)
        requires
            self.wf(),
        ensures
            *r == self.session.cur().plan,
    {
        self.session.plan()
    }

    /// The current view's navigation state.
    pub fn state(&self) -> (r: &ViewState)
        requires
            self.wf(),
        ensures
            *r == self.st(),
    {
        self.session.state()
    }

    /// Whether the current view is a review session.
    pub fn is_review(&self) -> (r: bool)
        requires
            self.wf(),
        ensures
            r == self.session.cur().review,
    {
        self.session.is_review()
    }

    /// Whether the current plan is laid out side by side.
    pub fn is_split(&self) -> (r: bool)
        requires
            self.wf(),
        ensures
            r == (self.pl().layout == LayoutMode::Split),
    {
        match self.plan().layout {
            LayoutMode::Split => true,
            LayoutMode::Stack => false,
        }
    }

    /// Index of the file at the top of the viewport.
    pub fn current_file(&self) -> (r: usize)
        requires
            self.wf(),
        ensures
            r == stream::spec_file_of_row(self.pl(), self.st().scroll),
    {
        self.session.current_file()
    }

    /// Whether the sidebar groups by directory (folding applies only then).
    pub fn grouped(&self) -> (r: bool)
        ensures
            r == self.grouped,
    {
        self.grouped
    }

    /// What [`App::cycle_mode`] promises: `after` is the app once the call has run on
    /// `before`.
    pub open spec fn cycle_mode_done(before: App, after: App) -> bool {
        &&& after.layout == match before.layout {
            LayoutMode::Split => LayoutMode::Stack,
            LayoutMode::Stack => LayoutMode::Split,
        }
        &&& after.session == before.session
        &&& after.mode == before.mode
        &&& after.grouped == before.grouped
    }

    /// Toggle between the two layouts (split and stack); the plan follows on
    /// the next [`App::set_layout`].
    pub fn cycle_mode(&mut self)
        ensures
            Self::cycle_mode_done(*old(self), *final(self)),
    {
        self.layout = match self.layout {
            LayoutMode::Split => LayoutMode::Stack,
            LayoutMode::Stack => LayoutMode::Split,
        };
    }

    // ---- focus ---------------------------------------------------------------

    /// The keyboard focus (the stream while peeking: focus applies to the
    /// normal base only).
    pub open spec fn focus_of(&self) -> Focus {
        match self.mode.base {
            Base::Normal { focus } => focus,
            Base::Peek(_) => Focus::Stream,
        }
    }

    /// The keyboard focus (the stream while peeking).
    pub fn focus(&self) -> (f: Focus)
        ensures
            f == self.focus_of(),
    {
        match &self.mode.base {
            Base::Normal { focus } => *focus,
            Base::Peek(_) => Focus::Stream,
        }
    }

    /// Set the focus of the normal base (a no-op while peeking).
    pub fn set_focus(&mut self, f: Focus)
        ensures
            final(self).mode.base == match old(self).mode.base {
                Base::Normal { .. } => Base::Normal { focus: f },
                b => b,
            },
            final(self).mode.overlays == old(self).mode.overlays,
            final(self).session == old(self).session,
            final(self).rest_same_but_mode(*old(self)),
    {
        if let Base::Normal { .. } = &self.mode.base {
            self.mode.base = Base::Normal { focus: f };
        }
    }

    /// What [`App::toggle_focus`] promises: `after` is the app once the call has run on
    /// `before`.
    pub open spec fn toggle_focus_done(before: App, after: App) -> bool {
        &&& after.mode.base == match before.mode.base {
            Base::Normal { focus: Focus::Stream } => Base::Normal { focus: Focus::Sidebar },
            Base::Normal { focus: Focus::Sidebar } => Base::Normal { focus: Focus::Stream },
            b => b,
        }
        &&& after.mode.overlays == before.mode.overlays
        &&& after.session == before.session
    }

    /// Swap the focus between the stream and the sidebar.
    pub fn toggle_focus(&mut self)
        ensures
            Self::toggle_focus_done(*old(self), *final(self)),
    {
        let next = match &self.mode.base {
            Base::Normal { focus: Focus::Stream } => Focus::Sidebar,
            Base::Normal { focus: Focus::Sidebar } => Focus::Stream,
            Base::Peek(_) => {
                return ;
            },
        };
        self.mode.base = Base::Normal { focus: next };
    }

    /// What [`App::focus_stream`] promises: `after` is the app once the call has run on
    /// `before`.
    pub open spec fn focus_stream_done(before: App, after: App) -> bool {
        &&& after.mode.base == match before.mode.base {
            Base::Normal { .. } => Base::Normal { focus: Focus::Stream },
            b => b,
        }
        &&& after.mode.overlays == before.mode.overlays
        &&& after.session == before.session
    }

    /// Focus the stream.
    pub fn focus_stream(&mut self)
        ensures
            Self::focus_stream_done(*old(self), *final(self)),
    {
        self.set_focus(Focus::Stream);
    }

    /// Whether the sidebar is drawn: always unless hidden, and while focused.
    pub fn sidebar_shown(&self) -> (r: bool)
        ensures
            r == (!self.sidebar_hidden || self.focus_of() == Focus::Sidebar),
    {
        !self.sidebar_hidden || match self.focus() {
            Focus::Sidebar => true,
            Focus::Stream => false,
        }
    }

    /// What [`App::toggle_sidebar`] promises: `after` is the app once the call has run on
    /// `before`.
    pub open spec fn toggle_sidebar_done(before: App, after: App) -> bool {
        &&& after.sidebar_hidden == !before.sidebar_hidden
        &&& after.sidebar_hidden ==> after.focus_of() == Focus::Stream
        &&& !after.sidebar_hidden ==> after.mode == before.mode
        &&& before.mode.base is Peek ==> after.mode.base == before.mode.base
        &&& before.mode.base is Normal ==> after.mode.base is Normal
        &&& after.mode.overlays == before.mode.overlays
        &&& after.session == before.session
    }

    /// Show or hide the sidebar; hiding it moves the focus to the stream.
    pub fn toggle_sidebar(&mut self)
        ensures
            Self::toggle_sidebar_done(*old(self), *final(self)),
    {
        self.sidebar_hidden = !self.sidebar_hidden;
        if self.sidebar_hidden {
            self.set_focus(Focus::Stream);
        }
    }
}

/// Changing only the current view's state keeps the session well formed.
proof fn lemma_state_change_wf(before: Session, after: Session)
    requires
        before.wf(),
        after.cursor == before.cursor,
        after.views@.len() == before.views@.len(),
        forall|i: int| 0 <= i < after.views@.len() && i != after.cursor ==> #[trigger] after.views@[i] == before.views@[i],
        after.cur().cs == before.cur().cs,
        after.cur().plan == before.cur().plan,
    ensures
        after.wf(),
{
    assert forall|i: int| 0 <= i < after.views@.len() implies (#[trigger] after.views@[i]).wf() by {
        assert(before.views@[i].wf());
    }
}

/// The selection, marks and folds of two states agree.
pub open spec fn same_marks(a: ViewState, b: ViewState) -> bool {
    &&& a.wrap == b.wrap
    &&& a.selected == b.selected
    &&& a.selected_dir == b.selected_dir
    &&& a.reveal_selected == b.reveal_selected
    &&& a.viewed == b.viewed
    &&& a.collapsed == b.collapsed
}

impl App {
    /// Clamp the current view into its plan and make the cursor visible.
    pub fn clamp(&mut self)
        requires
            old(self).wf(),
        ensures
            final(self).wf(),
            only_state_changed(*old(self), *final(self)),
            ({
                let p = old(self).pl();
                let st = old(self).st();
                &&& final(self).st().cursor_row == stream::min_int(st.cursor_row as int, stream::spec_last_row(p))
                &&& final(self).st().scroll == stream::spec_clamp_scroll(
                    st.scroll as int,
                    st.cursor_row as int,
                    p,
                    stream::spec_usable(p, old(self).viewport_h),
                )
                &&& final(self).st().h_scroll == stream::min_int(
                    st.h_scroll as int,
                    stream::spec_max_h_scroll(p, old(self).viewport_w),
                )
                &&& same_marks(final(self).st(), st)
            }),
    {
        let (vh, vw) = (self.viewport_h, self.viewport_w);
        let i = self.session.cursor;
        let e = &mut self.session.views[i];
        let usable = stream::usable(&e.plan, vh);
        stream::clamp(&mut e.state, &e.plan, usable, vw);
        proof {
            lemma_state_change_wf(old(self).session, self.session);
        }
    }

    /// Rebuild the current view's plan for the configured layout and
    /// grouping, putting the cursor back on the same content.
    pub fn build_plan(&mut self)
        requires
            old(self).wf(),
        ensures
            final(self).wf(),
            final(self).session.only_current_changed(&old(self).session),
            final(self).session.cur().cs == old(self).session.cur().cs,
            crate::session::same_but_layout(old(self).session.cur(), final(self).session.cur()),
            final(self).pl() == rows::spec_build(
                old(self).session.cur().cs.files_v(),
                old(self).st().viewed@,
                old(self).layout,
                crate::session::folds(old(self).session.cur(), old(self).grouped),
                crate::text::strs_v(old(self).session.cur().banner@),
            ),
            final(self).st().cursor_row == rows::spec_restore(
                final(self).pl(),
                rows::spec_capture(old(self).pl(), old(self).st().cursor_row),
                old(self).session.cur().cs.files_v(),
            ),
            final(self).st().scroll == old(self).st().scroll,
            final(self).st().h_scroll == old(self).st().h_scroll,
            final(self).rest_same(*old(self)),
            laid_out(*final(self)),
    {
        self.session.build_plan(self.layout, self.grouped);
        proof {
            reveal(laid_out);
        }
    }

    /// Rebuild the current view's plan, keeping the viewport's place within
    /// the file at its top, then clamp.
    pub fn rebuild_plan(&mut self)
        requires
            old(self).wf(),
        ensures
            final(self).wf(),
            final(self).session.only_current_changed(&old(self).session),
            final(self).session.cur().cs == old(self).session.cur().cs,
            crate::session::relaid(
                old(self).session.cur(),
                final(self).session.cur(),
                old(self).layout,
                old(self).grouped,
                old(self).viewport_h,
                old(self).viewport_w,
            ),
            final(self).rest_same(*old(self)),
    {
        self.session.rebuild_plan(self.layout, self.grouped, self.viewport_h, self.viewport_w);
    }

    /// What [`App::move_cursor`] promises: `after` is the app once the call has run on
    /// `before`.
    pub open spec fn move_cursor_done(before: App, after: App, delta: isize) -> bool {
        &&& only_state_changed(before, after)
        &&& stream::cursor_moved(
            before.st(),
            after.st(),
            before.pl(),
            stream::spec_usable(before.pl(), before.viewport_h) as usize,
            delta as int,
        )
    }

    /// Move the line cursor by `delta`, the viewport following as needed.
    pub fn move_cursor(&mut self, delta: isize)
        requires
            old(self).wf(),
            old(self).st().cursor_row <= isize::MAX,
            old(self).pl().rows.len() <= isize::MAX,
            isize::MIN <= old(self).st().cursor_row + delta <= isize::MAX,
        ensures
            final(self).wf(),
            Self::move_cursor_done(*old(self), *final(self), delta),
    {
        let vh = self.viewport_h;
        let i = self.session.cursor;
        let e = &mut self.session.views[i];
        let usable = stream::usable(&e.plan, vh);
        stream::move_cursor_by(&mut e.state, &e.plan, usable, delta);
        proof {
            lemma_state_change_wf(old(self).session, self.session);
        }
    }

    /// What [`App::scroll_view`] promises: `after` is the app once the call has run on
    /// `before`.
    pub open spec fn scroll_view_done(before: App, after: App, delta: isize) -> bool {
        &&& only_state_changed(before, after)
        &&& ({
            let p = before.pl();
            let u = stream::spec_usable(p, before.viewport_h);
            let next = stream::clamp_int(
                before.st().scroll + delta,
                0,
                stream::spec_max_scroll(p.rows.len() as int, u as int),
            );
            let cur = stream::clamp_int(
                before.st().cursor_row + (next - before.st().scroll),
                0,
                stream::spec_last_row(p),
            );
            &&& after.st().cursor_row == cur
            &&& after.st().scroll == stream::spec_into_view(next, cur, p.rows.len() as int, u as int)
        })
    }

    /// Scroll the viewport by `delta`, carrying the cursor so it keeps its
    /// row on screen.
    pub fn scroll_view(&mut self, delta: isize)
        requires
            old(self).wf(),
            old(self).st().scroll <= isize::MAX,
            old(self).st().cursor_row + old(self).pl().rows.len() <= isize::MAX,
            isize::MIN <= old(self).st().scroll + delta <= isize::MAX,
        ensures
            final(self).wf(),
            Self::scroll_view_done(*old(self), *final(self), delta),
    {
        let vh = self.viewport_h;
        let i = self.session.cursor;
        let e = &mut self.session.views[i];
        let usable = stream::usable(&e.plan, vh);
        stream::scroll_view_by(&mut e.state, &e.plan, usable, delta);
        proof {
            lemma_state_change_wf(old(self).session, self.session);
        }
    }

    /// What [`App::top`] promises: `after` is the app once the call has run on
    /// `before`.
    pub open spec fn top_done(before: App, after: App) -> bool {
        &&& only_state_changed(before, after)
        &&& after.st().scroll == 0
        &&& after.st().cursor_row == 0
    }

    /// The stream's top: viewport and cursor on row 0.
    pub fn top(&mut self)
        requires
            old(self).wf(),
        ensures
            final(self).wf(),
            Self::top_done(*old(self), *final(self)),
    {
        let i = self.session.cursor;
        let e = &mut self.session.views[i];
        stream::top(&mut e.state, &e.plan);
        proof {
            lemma_state_change_wf(old(self).session, self.session);
        }
    }

    /// What [`App::bottom`] promises: `after` is the app once the call has run on
    /// `before`.
    pub open spec fn bottom_done(before: App, after: App) -> bool {
        &&& only_state_changed(before, after)
        &&& after.st().cursor_row == stream::spec_last_row(before.pl())
        &&& after.st().scroll == stream::spec_into_view(
            before.st().scroll as int,
            stream::spec_last_row(before.pl()),
            before.pl().rows.len() as int,
            stream::spec_usable(before.pl(), before.viewport_h) as int,
        )
    }

    /// The stream's end: the cursor on the last row, in view.
    pub fn bottom(&mut self)
        requires
            old(self).wf(),
        ensures
            final(self).wf(),
            Self::bottom_done(*old(self), *final(self)),
    {
        let vh = self.viewport_h;
        let i = self.session.cursor;
        let e = &mut self.session.views[i];
        let usable = stream::usable(&e.plan, vh);
        stream::bottom(&mut e.state, &e.plan, usable);
        proof {
            lemma_state_change_wf(old(self).session, self.session);
        }
    }

    /// What [`App::next_hunk`] promises: `after` is the app once the call has run on
    /// `before`.
    pub open spec fn next_hunk_done(before: App, after: App) -> bool {
        &&& only_state_changed(before, after)
        &&& match stream::spec_next_hunk(before.pl().hunk_starts, before.st().cursor_row) {
            Some(row) => stream::lands_on(
                before.st(),
                after.st(),
                before.pl(),
                stream::spec_usable(before.pl(), before.viewport_h) as usize,
                row,
            ),
            None => stream::unmoved(before.st(), after.st()),
        }
    }

    /// Jump to the next hunk after the cursor (none: nothing moves).
    pub fn next_hunk(&mut self)
        requires
            old(self).wf(),
        ensures
            final(self).wf(),
            Self::next_hunk_done(*old(self), *final(self)),
    {
        let vh = self.viewport_h;
        let i = self.session.cursor;
        let e = &mut self.session.views[i];
        let usable = stream::usable(&e.plan, vh);
        stream::next_hunk(&mut e.state, &e.plan, usable);
        proof {
            lemma_state_change_wf(old(self).session, self.session);
        }
    }

    /// What [`App::prev_hunk`] promises: `after` is the app once the call has run on
    /// `before`.
    pub open spec fn prev_hunk_done(before: App, after: App) -> bool {
        &&& only_state_changed(before, after)
        &&& match stream::spec_prev_hunk(before.pl().hunk_starts, before.st().cursor_row) {
            Some(row) => stream::lands_on(
                before.st(),
                after.st(),
                before.pl(),
                stream::spec_usable(before.pl(), before.viewport_h) as usize,
                row,
            ),
            None => stream::unmoved(before.st(), after.st()),
        }
    }

    /// Jump to the previous hunk before the cursor (none: nothing moves).
    pub fn prev_hunk(&mut self)
        requires
            old(self).wf(),
        ensures
            final(self).wf(),
            Self::prev_hunk_done(*old(self), *final(self)),
    {
        let vh = self.viewport_h;
        let i = self.session.cursor;
        let e = &mut self.session.views[i];
        let usable = stream::usable(&e.plan, vh);
        stream::prev_hunk(&mut e.state, &e.plan, usable);
        proof {
            lemma_state_change_wf(old(self).session, self.session);
        }
    }

    /// Jump viewport and cursor to a file's header (a folded or unknown file
    /// leaves both alone).
    pub fn jump_to_file(&mut self, idx: usize)
        requires
            old(self).wf(),
        ensures
            final(self).wf(),
            only_state_changed(*old(self), *final(self)),
            match rows::spec_file_start_of(old(self).pl(), idx) {
                Some(row) => stream::jumps_to(
                    old(self).st(),
                    final(self).st(),
                    old(self).pl(),
                    stream::spec_usable(old(self).pl(), old(self).viewport_h) as usize,
                    row as int,
                ),
                None => stream::unmoved(old(self).st(), final(self).st()),
            },
    {
        let vh = self.viewport_h;
        let i = self.session.cursor;
        let e = &mut self.session.views[i];
        let usable = stream::usable(&e.plan, vh);
        stream::jump_to_file(&mut e.state, &e.plan, usable, idx);
        proof {
            lemma_state_change_wf(old(self).session, self.session);
        }
    }

    /// Scroll the body to the selection: a file's header, or a folded
    /// directory's placeholder.
    pub fn sync_body_to_selection(&mut self)
        requires
            old(self).wf(),
        ensures
            final(self).wf(),
            only_state_changed(*old(self), *final(self)),
            ({
                let u = stream::spec_usable(old(self).pl(), old(self).viewport_h) as usize;
                let target = match old(self).st().selected_dir {
                    Some(d) => rows::spec_collapsed_row(old(self).pl(), d@),
                    None => match rows::spec_file_start_of(old(self).pl(), old(self).st().selected) {
                        Some(r) => Some(r as int),
                        None => None,
                    },
                };
                match target {
                    Some(row) => stream::jumps_to(old(self).st(), final(self).st(), old(self).pl(), u, row),
                    None => stream::unmoved(old(self).st(), final(self).st()),
                }
            }),
    {
        let vh = self.viewport_h;
        let i = self.session.cursor;
        let e = &mut self.session.views[i];
        let usable = stream::usable(&e.plan, vh);
        let sel = e.state.selected;
        match &e.state.selected_dir {
            Some(dir) => {
                let d = dir.clone();
                stream::jump_to_collapsed(&mut e.state, &e.plan, usable, d.as_str());
            },
            None => stream::jump_to_file(&mut e.state, &e.plan, usable, sel),
        }
        proof {
            lemma_state_change_wf(old(self).session, self.session);
        }
    }

    /// Select a file and reveal it in both panes (focus untouched); an index
    /// past the files does nothing.
    pub fn reveal_file(&mut self, idx: usize)
        requires
            old(self).wf(),
        ensures
            final(self).wf(),
            only_state_changed(*old(self), *final(self)),
            idx >= old(self).session.cur().cs.files@.len() ==> final(self).st() == old(self).st(),
            idx < old(self).session.cur().cs.files@.len() ==> {
                let mid = ViewState {
                    selected: idx,
                    selected_dir: None,
                    reveal_selected: true,
                    ..old(self).st()
                };
                let u = stream::spec_usable(old(self).pl(), old(self).viewport_h) as usize;
                match rows::spec_file_start_of(old(self).pl(), idx) {
                    Some(row) => stream::jumps_to(mid, final(self).st(), old(self).pl(), u, row as int),
                    None => stream::unmoved(mid, final(self).st()),
                }
            },
    {
        let i = self.session.cursor;
        if idx < self.session.views[i].cs.files.len() {
            let e = &mut self.session.views[i];
            e.state.select_file(idx);
            e.state.reveal_selected = true;
            proof {
                lemma_state_change_wf(old(self).session, self.session);
            }
            self.jump_to_file(idx);
        }
    }

    /// Go to a file: reveal it and focus the stream.
    pub fn goto_file(&mut self, idx: usize)
        requires
            old(self).wf(),
        ensures
            final(self).wf(),
            final(self).session.cursor == old(self).session.cursor,
            final(self).session.views@.len() == old(self).session.views@.len(),
            final(self).session.cur().cs == old(self).session.cur().cs,
            final(self).session.cur().plan == old(self).session.cur().plan,
            final(self).st().collapsed == old(self).st().collapsed,
            final(self).st().viewed == old(self).st().viewed,
            final(self).rest_same_but_mode(*old(self)),
            final(self).session.only_current_changed(&old(self).session),
            crate::session::same_content(old(self).session.cur(), final(self).session.cur()),
            final(self).mode.overlays == old(self).mode.overlays,
            idx < old(self).session.cur().cs.files@.len() ==> {
                &&& final(self).st().selected == idx
                &&& final(self).st().selected_dir is None
                &&& final(self).st().reveal_selected
                &&& final(self).mode.base == match old(self).mode.base {
                    Base::Normal { .. } => Base::Normal { focus: Focus::Stream },
                    b => b,
                }
                &&& (rows::spec_file_start_of(old(self).pl(), idx) matches Some(row) ==> final(self).st().cursor_row == row)
            },
            idx >= old(self).session.cur().cs.files@.len() ==> *final(self) == *old(self),
    {
        if idx < self.session.cs().files.len() {
            self.reveal_file(idx);
            self.set_focus(Focus::Stream);
        }
    }
}

/// The folds the current view's plan is built with.
pub open spec fn app_folds(a: App) -> Seq<Seq<char>> {
    crate::session::folds(a.session.cur(), a.grouped)
}

/// `after`'s current plan is the one laid out from its own files, marks and
/// folds.
#[verifier::opaque]
pub open spec fn laid_out(a: App) -> bool {
    a.pl() == rows::spec_build(
        a.session.cur().cs.files_v(),
        a.st().viewed@,
        a.layout,
        app_folds(a),
        crate::text::strs_v(a.session.cur().banner@),
    )
}

/// Whether a plan is laid out depends only on the plan, the files, the
/// marks, the folds, the banner and the layout settings.
pub proof fn lemma_laid_out_same(a: App, b: App)
    requires
        laid_out(a),
        a.wf(),
        b.wf(),
        b.pl() == a.pl(),
        b.session.cur().cs == a.session.cur().cs,
        b.session.cur().banner == a.session.cur().banner,
        b.st().viewed == a.st().viewed,
        b.st().collapsed == a.st().collapsed,
        b.layout == a.layout,
        b.grouped == a.grouped,
    ensures
        laid_out(b),
{
    reveal(laid_out);
}

/// `after` differs from `before` only in the current view's plan and state.
pub open spec fn only_view_changed(before: App, after: App) -> bool {
    &&& after.session.cursor == before.session.cursor
    &&& after.session.views@.len() == before.session.views@.len()
    &&& forall|i: int|
        0 <= i < after.session.views@.len() && i != after.session.cursor ==> #[trigger] after.session.views@[i]
            == before.session.views@[i]
    &&& after.session.cur() == (ViewEntry {
        state: after.session.cur().state,
        plan: after.session.cur().plan,
        ..before.session.cur()
    })
    &&& after.session.repo_dir == before.session.repo_dir
    &&& after.session.loader == before.session.loader
    &&& after.session.load_started_ms == before.session.load_started_ms
    &&& after.session.load_kind == before.session.load_kind
}

impl App {
    /// Fold `dir`: its files leave both panes, and the cursor lands on the
    /// new placeholder (so folding again from there undoes it).
    #[verifier::spinoff_prover]
    #[verifier::rlimit(80)]
    pub fn fold_dir(&mut self, dir: &str)
        requires
            old(self).wf(),
        ensures
            final(self).wf(),
            only_view_changed(*old(self), *final(self)),
            final(self).rest_same(*old(self)),
            laid_out(*final(self)),
            forall|d: Seq<char>| #[trigger] final(self).st().collapsed_v().contains(d) == (d == dir@
                || old(self).st().collapsed_v().contains(d)),
            final(self).st().viewed == old(self).st().viewed,
            final(self).st().selected == old(self).st().selected,
            final(self).st().selected_dir matches Some(s) && s@ == dir@,
            final(self).st().reveal_selected,
            rows::spec_collapsed_row(final(self).pl(), dir@) matches Some(row) ==> final(self).st().cursor_row
                == row,
    {
        let i = self.session.cursor;
        let near = self.session.views[i].state.selected;
        self.session.views[i].state.add_fold(dir);
        let ghost s1 = *self;
        proof {
            lemma_state_change_wf(old(self).session, self.session);
        }
        self.build_plan();
        let ghost s2 = *self;
        self.session.views[i].state.select_dir(dir.to_string(), near);
        self.session.views[i].state.reveal_selected = true;
        let ghost s3 = *self;
        proof {
            lemma_state_change_wf(s2.session, self.session);
            rows::lemma_collapsed_row_bounds(s3.pl(), dir@);
        }
        self.sync_body_to_selection();
        let ghost s4 = *self;
        self.clamp();
        proof {
            assert(s1.st().collapsed == s2.st().collapsed);
            assert(s3.st().collapsed == s2.st().collapsed);
            assert(s4.st().collapsed == s3.st().collapsed);
            assert(self.st().collapsed == s4.st().collapsed);
            assert(self.st().collapsed_v() == s1.st().collapsed_v());
            lemma_laid_out_same(s2, *self);
        }
    }
}

impl App {
    /// Unfold `dir`: its files come back, and the cursor lands on the
    /// directory's first file (focus untouched).
    #[verifier::spinoff_prover]
    #[verifier::rlimit(80)]
    pub fn unfold_dir(&mut self, dir: &str)
        requires
            old(self).wf(),
        ensures
            final(self).wf(),
            only_view_changed(*old(self), *final(self)),
            final(self).rest_same(*old(self)),
            laid_out(*final(self)),
            forall|d: Seq<char>| #[trigger] final(self).st().collapsed_v().contains(d) == (d != dir@
                && old(self).st().collapsed_v().contains(d)),
            final(self).st().viewed == old(self).st().viewed,
            match rows::spec_first_in_dir(old(self).session.cur().cs.files_v(), dir@) {
                Some(f) => {
                    &&& final(self).st().selected == f
                    &&& final(self).st().selected_dir is None
                    &&& final(self).st().reveal_selected
                    &&& (rows::spec_file_start_of(final(self).pl(), f as usize) matches Some(row)
                        ==> final(self).st().cursor_row == row)
                },
                None => {
                    &&& final(self).st().selected == old(self).st().selected
                    &&& final(self).st().selected_dir == old(self).st().selected_dir
                },
            },
    {
        let i = self.session.cursor;
        self.session.views[i].state.remove_fold(dir);
        let ghost s1 = *self;
        proof {
            lemma_state_change_wf(old(self).session, self.session);
        }
        self.build_plan();
        let ghost s2 = *self;
        let first = rows::first_in_dir(&self.session.views[i].cs, dir);
        if let Some(f) = first {
            proof {
                rows::lemma_first_in_dir_bounds(s2.session.cur().cs.files_v(), dir@);
            }
            self.reveal_file(f);
        }
        let ghost s3 = *self;
        proof {
            if let Some(f) = first {
                if let Some(row) = rows::spec_file_start_of(s3.pl(), f) {
                    assert(s2.session.cur().wf());
                    rows::lemma_file_start_bounds(s3.pl(), f);
                }
            }
        }
        self.clamp();
        proof {
            assert(s2.st().collapsed == s1.st().collapsed);
            assert(s3.st().collapsed == s2.st().collapsed);
            assert(self.st().collapsed == s3.st().collapsed);
            assert(self.st().collapsed_v() == s1.st().collapsed_v());
            lemma_laid_out_same(s2, *self);
        }
    }

    /// Fold or unfold `dir` (a click on its header or placeholder). Inert in
    /// the flat view.
    pub fn toggle_fold_dir(&mut self, dir: &str)
        requires
            old(self).wf(),
        ensures
            final(self).wf(),
            !old(self).grouped ==> *final(self) == *old(self),
            old(self).grouped ==> forall|d: Seq<char>| #[trigger] final(self).st().collapsed_v().contains(d) == if d
                == dir@ {
                !old(self).st().collapsed_v().contains(d)
            } else {
                old(self).st().collapsed_v().contains(d)
            },
    {
        if !self.grouped {
            return ;
        }
        if self.state().is_folded(dir) {
            self.unfold_dir(dir);
        } else {
            self.fold_dir(dir);
        }
    }

    /// What [`App::toggle_fold`] promises: `after` is the app once the call has run on
    /// `before`.
    pub open spec fn toggle_fold_done(before: App, after: App) -> bool {
        &&& !before.grouped ==> after == before
        &&& before.grouped ==> match before.st().selected_dir {
            Some(d) => forall|x: Seq<char>| #[trigger] after.st().collapsed_v().contains(x) == (x != d@
                && before.st().collapsed_v().contains(x)),
            None => if before.st().selected < before.session.cur().cs.files@.len() {
                let d = spec_parent_dir(before.session.cur().cs.files@[before.st().selected as int].path@);
                &&& forall|x: Seq<char>| #[trigger] after.st().collapsed_v().contains(x) == (x == d
                    || before.st().collapsed_v().contains(x))
                &&& after.st().selected_dir matches Some(s) && s@ == d
            } else {
                after == before
            },
        }
    }

    /// Toggle the fold of the cursor's context: on a file, fold its
    /// directory; on a placeholder, unfold it. Inert in the flat view.
    pub fn toggle_fold(&mut self)
        requires
            old(self).wf(),
        ensures
            final(self).wf(),
            Self::toggle_fold_done(*old(self), *final(self)),
    {
        if !self.grouped {
            return ;
        }
        let i = self.session.cursor;
        match &self.session.views[i].state.selected_dir {
            Some(d) => {
                let dir = d.clone();
                self.unfold_dir(dir.as_str());
            },
            None => {
                let sel = self.session.views[i].state.selected;
                if sel >= self.session.views[i].cs.files.len() {
                    return ;
                }
                let dir = parent_dir(self.session.views[i].cs.files[sel].path.as_str());
                self.fold_dir(dir.as_str());
            },
        }
    }

    /// Land on a file by index, unfolding its directory first when folded, so
    /// a jump always reaches its target. An index past the files does nothing.
    pub fn land_on_file(&mut self, idx: usize)
        requires
            old(self).wf(),
        ensures
            final(self).wf(),
            final(self).rest_same_but_mode(*old(self)),
            final(self).session.only_current_changed(&old(self).session),
            crate::session::same_content(old(self).session.cur(), final(self).session.cur()),
            final(self).st().viewed == old(self).st().viewed,
            final(self).mode.overlays == old(self).mode.overlays,
            idx >= old(self).session.cur().cs.files@.len() ==> *final(self) == *old(self),
            idx < old(self).session.cur().cs.files@.len() ==> {
                let d = spec_parent_dir(old(self).session.cur().cs.files@[idx as int].path@);
                &&& forall|x: Seq<char>| #[trigger] final(self).st().collapsed_v().contains(x) == (x != d
                    && old(self).st().collapsed_v().contains(x))
                &&& !old(self).st().collapsed_v().contains(d) ==> final(self).st().collapsed == old(self).st().collapsed
                &&& final(self).mode.base == match old(self).mode.base {
                    Base::Normal { .. } => Base::Normal { focus: Focus::Stream },
                    b => b,
                }
                &&& final(self).st().selected == idx
                &&& final(self).st().selected_dir is None
                &&& final(self).session.cur().cs == old(self).session.cur().cs
            },
    {
        let i = self.session.cursor;
        if idx >= self.session.views[i].cs.files.len() {
            return ;
        }
        let dir = parent_dir(self.session.views[i].cs.files[idx].path.as_str());
        if self.session.views[i].state.is_folded(dir.as_str()) {
            self.session.views[i].state.remove_fold(dir.as_str());
            let ghost s1 = *self;
            proof {
                lemma_state_change_wf(old(self).session, self.session);
            }
            self.build_plan();
            proof {
                assert(self.st().collapsed == s1.st().collapsed);
                assert(self.st().collapsed_v() == s1.st().collapsed_v());
            }
        } else {
            proof {
                assert(!old(self).st().collapsed_v().contains(dir@));
                assert forall|x: Seq<char>| #[trigger] self.st().collapsed_v().contains(x) == (x != dir@
                    && old(self).st().collapsed_v().contains(x)) by {
                    if x == dir@ {
                    }
                }
            }
        }
        let ghost s2 = *self;
        self.goto_file(idx);
        proof {
            assert(self.st().collapsed == s2.st().collapsed);
            assert(self.st().collapsed_v() == s2.st().collapsed_v());
        }
    }
}

/// The directory of file `i`.
pub open spec fn dir_of(files: Seq<DiffFileV>, i: int) -> Seq<char> {
    spec_parent_dir(files[i].path)
}

/// Some file of the current view lies in a directory that is not folded.
pub open spec fn any_expanded(a: App) -> bool {
    exists|i: int|
        0 <= i < a.session.cur().cs.files@.len() && !a.st().collapsed_v().contains(
            #[trigger] dir_of(a.session.cur().cs.files_v(), i),
        )
}

/// The distinct directories of `files`, in order of first appearance.
fn all_dirs(cs: &Changeset) -> (v: Vec<String>)
    ensures
        forall|d: Seq<char>| #[trigger] strs_v(v@).contains(d) == exists|i: int|
            0 <= i < cs.files@.len() && dir_of(cs.files_v(), i) == d,
{
    let ghost files = cs.files_v();
    let mut v: Vec<String> = Vec::new();
    let mut i: usize = 0;
    while i < cs.files.len()
        invariant
            i <= cs.files@.len(),
            files == cs.files_v(),
            forall|d: Seq<char>| #[trigger] strs_v(v@).contains(d) == exists|j: int| 0 <= j < i && dir_of(files, j) == d,
        decreases cs.files@.len() - i,
    {
        let d = parent_dir(cs.files[i].path.as_str());
        assert(d@ == dir_of(files, i as int));
        let ghost before = strs_v(v@);
        if !rows::dirs_contain(v.as_slice(), d.as_str()) {
            v.push(d);
            assert(strs_v(v@) =~= before.push(dir_of(files, i as int)));
        }
        assert forall|x: Seq<char>| #[trigger] strs_v(v@).contains(x) == exists|j: int| 0 <= j < i + 1 && dir_of(files, j) == x by {
            if strs_v(v@).contains(x) {
                let k = choose|k: int| 0 <= k < strs_v(v@).len() && strs_v(v@)[k] == x;
                if k < before.len() {
                    assert(before.contains(x));
                    let j = choose|j: int| 0 <= j < i && dir_of(files, j) == x;
                    assert(0 <= j < i + 1 && dir_of(files, j) == x);
                } else {
                    assert(dir_of(files, i as int) == x);
                }
            }
            if exists|j: int| 0 <= j < i + 1 && dir_of(files, j) == x {
                let j = choose|j: int| 0 <= j < i + 1 && dir_of(files, j) == x;
                if j < i {
                    assert(before.contains(x));
                    let k = choose|k: int| 0 <= k < before.len() && before[k] == x;
                    assert(strs_v(v@)[k] == x);
                } else if before.contains(x) {
                    let k = choose|k: int| 0 <= k < before.len() && before[k] == x;
                    assert(strs_v(v@)[k] == x);
                } else {
                    assert(strs_v(v@)[before.len() as int] == x);
                }
            }
        }
        i = i + 1;
    }
    v
}

impl App {
    /// Whether some file's directory is not folded.
    pub(crate) fn any_expanded(&self) -> (r: bool)
        requires
            self.wf(),
        ensures
            r == any_expanded(*self),
    {
        let cs = self.cs();
        let st = self.state();
        let ghost files = cs.files_v();
        let mut i: usize = 0;
        while i < cs.files.len()
            invariant
                i <= cs.files@.len(),
                files == cs.files_v(),
                *cs == self.session.cur().cs,
                *st == self.st(),
                forall|j: int| 0 <= j < i ==> st.collapsed_v().contains(#[trigger] dir_of(files, j)),
            decreases cs.files@.len() - i,
        {
            let d = parent_dir(cs.files[i].path.as_str());
            if !st.is_folded(d.as_str()) {
                assert(!self.st().collapsed_v().contains(dir_of(files, i as int)));
                return true;
            }
            i = i + 1;
        }
        false
    }

    /// What [`App::fold_all`] promises: `after` is the app once the call has run on
    /// `before`.
    pub open spec fn fold_all_done(before: App, after: App) -> bool {
        &&& !before.grouped ==> after == before
        &&& before.grouped ==> {
            &&& only_view_changed(before, after)
            &&& laid_out(after)
            &&& after.st().viewed == before.st().viewed
        }
        &&& before.grouped && any_expanded(before) ==> {
            let d0 = match before.st().selected_dir {
                Some(d) => d@,
                None => dir_of(before.session.cur().cs.files_v(), before.st().selected as int),
            };
            &&& forall|d: Seq<char>| #[trigger] after.st().collapsed_v().contains(d) == exists|i: int|
                0 <= i < before.session.cur().cs.files@.len() && dir_of(before.session.cur().cs.files_v(), i) == d
            &&& after.st().selected == before.st().selected
            &&& after.st().selected_dir matches Some(s) && s@ == d0
            &&& after.st().reveal_selected
            &&& rows::spec_collapsed_row(after.pl(), d0) matches Some(row) ==> after.st().cursor_row
                == stream::min_int(row, stream::spec_last_row(after.pl()))
        }
        &&& before.grouped && !any_expanded(before) ==> {
            &&& after.st().collapsed@.len() == 0
            &&& before.session.cur().cs.files@.len() > 0 ==> {
                let target = stream::min_int(before.st().selected as int, before.session.cur().cs.files@.len() - 1);
                &&& after.st().selected == target
                &&& after.st().selected_dir is None
                &&& rows::spec_file_start_of(after.pl(), target as usize) matches Some(row) ==> after.st().cursor_row
                    == stream::min_int(row as int, stream::spec_last_row(after.pl()))
            }
        }
    }

    /// Fold every directory when any is unfolded, landing on the placeholder
    /// of the selection's directory; else unfold them all, landing on the
    /// selected file. Inert in the flat view.
    #[verifier::spinoff_prover]
    #[verifier::rlimit(60)]
    pub fn fold_all(&mut self)
        requires
            old(self).wf(),
            old(self).grouped && any_expanded(*old(self)) && old(self).st().selected_dir is None
                ==> old(self).st().selected < old(self).session.cur().cs.files@.len(),
        ensures
            final(self).wf(),
            Self::fold_all_done(*old(self), *final(self)),
    {
        if !self.grouped {
            return ;
        }
        let i = self.session.cursor;
        if self.any_expanded() {
            let dirs = all_dirs(&self.session.views[i].cs);
            let dir = match &self.session.views[i].state.selected_dir {
                Some(d) => d.clone(),
                None => {
                    let sel = self.session.views[i].state.selected;
                    assert(self.session.cur().cs.files_v()[sel as int] == self.session.cur().cs.files@[sel as int]@);
                    parent_dir(self.session.views[i].cs.files[sel].path.as_str())
                },
            };
            let near = self.session.views[i].state.selected;
            self.session.views[i].state.collapsed = dirs;
            let ghost s1 = *self;
            proof {
                lemma_state_change_wf(old(self).session, self.session);
            }
            self.build_plan();
            let ghost s2 = *self;
            self.session.views[i].state.select_dir(dir, near);
            self.session.views[i].state.reveal_selected = true;
            proof {
                lemma_state_change_wf(s2.session, self.session);
            }
            let ghost s3 = *self;
            self.sync_body_to_selection();
            let ghost s4 = *self;
            self.clamp();
            proof {
                assert(s3.pl() == s2.pl());
                assert(s4.pl() == s3.pl());
                assert(self.pl() == s4.pl());
                assert(s2.st().collapsed == s1.st().collapsed);
                assert(s3.st().collapsed == s2.st().collapsed);
                assert(s4.st().collapsed == s3.st().collapsed);
                assert(self.st().collapsed == s4.st().collapsed);
                assert(self.st().collapsed_v() == s1.st().collapsed_v());
                lemma_laid_out_same(s2, *self);
            }
        } else {
            self.session.views[i].state.collapsed = Vec::new();
            let ghost s1 = *self;
            proof {
                lemma_state_change_wf(old(self).session, self.session);
            }
            self.build_plan();
            let ghost s2 = *self;
            let n = self.session.views[i].cs.files.len();
            let last = if n == 0 {
                0
            } else {
                n - 1
            };
            let sel = self.session.views[i].state.selected;
            let target = if sel < last {
                sel
            } else {
                last
            };
            self.reveal_file(target);
            let ghost s3 = *self;
            self.clamp();
            proof {
                assert(s3.pl() == s2.pl());
                assert(self.pl() == s3.pl());
                assert(s2.st().collapsed == s1.st().collapsed);
                assert(s3.st().collapsed == s2.st().collapsed);
                assert(self.st().collapsed == s3.st().collapsed);
                lemma_laid_out_same(s2, *self);
            }
        }
    }
}

/// The marks with `idx`'s flipped (a mark past the list is left alone).
pub open spec fn flipped(v: Seq<bool>, idx: usize) -> Seq<bool> {
    if idx < v.len() {
        v.update(idx as int, !v[idx as int])
    } else {
        v
    }
}

/// Every file directly in `dir` is marked reviewed.
pub open spec fn fully_reviewed(files: Seq<DiffFileV>, viewed: Seq<bool>, dir: Seq<char>) -> bool {
    forall|i: int| 0 <= i < files.len() && dir_of(files, i) == dir ==> #[trigger] rows::viewed_at(viewed, i)
}

/// The file `k` steps after `start` (wrapping over `n` files).
pub open spec fn step_from(start: usize, n: usize, k: int) -> usize {
    (((start % n) as int + k) % (n as int)) as usize
}

/// The first file at most `n` steps after `start` (wrapping), from step `k`
/// on, that is neither reviewed nor hidden.
pub open spec fn first_unviewed_from(viewed: Seq<bool>, hidden: Seq<bool>, start: usize, n: usize, k: int) -> Option<usize>
    decreases n as int + 1 - k,
{
    if n == 0 || k > n || k < 1 {
        None
    } else {
        let i = step_from(start, n, k);
        if !rows::viewed_at(viewed, i as int) && !(0 <= i < hidden.len() && hidden[i as int]) {
            Some(i)
        } else {
            first_unviewed_from(viewed, hidden, start, n, k + 1)
        }
    }
}

/// The next file after `start` (wrapping over the `n` files) that is neither
/// reviewed nor hidden.
pub open spec fn next_unviewed_visible(viewed: Seq<bool>, hidden: Seq<bool>, start: usize, n: usize) -> Option<usize> {
    first_unviewed_from(viewed, hidden, start, n, 1)
}

/// How many of the first `n` files are hidden and not reviewed.
pub open spec fn hidden_unviewed(viewed: Seq<bool>, hidden: Seq<bool>, n: int) -> int
    decreases n,
{
    if n <= 0 {
        0
    } else {
        hidden_unviewed(viewed, hidden, n - 1) + if 0 <= n - 1 < hidden.len() && hidden[n - 1] && !rows::viewed_at(viewed, n - 1) {
            1int
        } else {
            0
        }
    }
}

/// How many marks are set among the first `n`.
pub open spec fn count_marked(v: Seq<bool>, n: int) -> int
    decreases n,
{
    if n <= 0 {
        0
    } else {
        count_marked(v, n - 1) + if v[n - 1] {
            1int
        } else {
            0
        }
    }
}

proof fn lemma_count_bound(v: Seq<bool>, n: int)
    requires
        0 <= n <= v.len(),
    ensures
        0 <= count_marked(v, n) <= n,
    decreases n,
{
    if n > 0 {
        lemma_count_bound(v, n - 1);
    }
}

proof fn lemma_hidden_unviewed_bound(viewed: Seq<bool>, hidden: Seq<bool>, n: int)
    requires
        0 <= n,
    ensures
        0 <= hidden_unviewed(viewed, hidden, n) <= n,
    decreases n,
{
    if n > 0 {
        lemma_hidden_unviewed_bound(viewed, hidden, n - 1);
    }
}

/// The status note when nothing in view is left to review.
pub open spec fn none_left_note(hidden_unviewed: int) -> Seq<char> {
    if hidden_unviewed > 0 {
        "none in view · "@ + crate::text::spec_decimal(hidden_unviewed as nat) + " hidden in folded dirs"@
    } else {
        "all reviewed"@
    }
}

impl App {
    /// How many files of the current view are marked reviewed.
    pub fn viewed_count(&self) -> (c: usize)
        requires
            self.wf(),
        ensures
            c == count_marked(self.st().viewed@, self.st().viewed@.len() as int),
    {
        let v = &self.state().viewed;
        let mut c: usize = 0;
        let mut i: usize = 0;
        while i < v.len()
            invariant
                i <= v@.len(),
                c == count_marked(v@, i as int),
            decreases v@.len() - i,
        {
            proof {
                lemma_count_bound(v@, i + 1);
            }
            if v[i] {
                c = c + 1;
            }
            i = i + 1;
        }
        c
    }

    /// Whether every file directly in `dir` is marked reviewed.
    pub fn dir_fully_reviewed(&self, dir: &str) -> (r: bool)
        requires
            self.wf(),
        ensures
            r == fully_reviewed(self.session.cur().cs.files_v(), self.st().viewed@, dir@),
    {
        let cs = self.cs();
        let v = &self.state().viewed;
        let ghost files = cs.files_v();
        let mut i: usize = 0;
        while i < cs.files.len()
            invariant
                i <= cs.files@.len(),
                files == cs.files_v(),
                *cs == self.session.cur().cs,
                *v == self.st().viewed,
                forall|j: int| 0 <= j < i && dir_of(files, j) == dir@ ==> #[trigger] rows::viewed_at(v@, j),
            decreases cs.files@.len() - i,
        {
            let d = parent_dir(cs.files[i].path.as_str());
            if str_eq(d.as_str(), dir) {
                let marked = i < v.len() && v[i];
                if !marked {
                    assert(dir_of(files, i as int) == dir@);
                    assert(!rows::viewed_at(v@, i as int));
                    return false;
                }
            }
            i = i + 1;
        }
        true
    }

    /// Per file: whether its directory is folded (in the grouped view).
    pub fn hidden_mask(&self) -> (m: Vec<bool>)
        requires
            self.wf(),
        ensures
            m@.len() == self.session.cur().cs.files@.len(),
            forall|i: int| 0 <= i < m@.len() ==> #[trigger] m@[i] == (self.grouped
                && self.st().collapsed_v().contains(dir_of(self.session.cur().cs.files_v(), i))),
    {
        let cs = self.cs();
        let st = self.state();
        let ghost files = cs.files_v();
        let mut m: Vec<bool> = Vec::new();
        let mut i: usize = 0;
        while i < cs.files.len()
            invariant
                i <= cs.files@.len(),
                files == cs.files_v(),
                *cs == self.session.cur().cs,
                *st == self.st(),
                m@.len() == i,
                forall|j: int| 0 <= j < i ==> #[trigger] m@[j] == (self.grouped && st.collapsed_v().contains(dir_of(files, j))),
            decreases cs.files@.len() - i,
        {
            let d = parent_dir(cs.files[i].path.as_str());
            let h = self.grouped && st.is_folded(d.as_str());
            m.push(h);
            i = i + 1;
        }
        m
    }

    /// What [`App::next_unviewed`] promises: `after` is the app once the call has run on
    /// `before`.
    pub open spec fn next_unviewed_done(before: App, after: App, found: bool) -> bool {
        &&& after.viewport_h == before.viewport_h
        &&& !before.session.cur().review ==> !found && after == before
        &&& before.session.cur().review ==> {
            let n = before.session.cur().cs.files@.len();
            let hidden = Seq::new(n, |i: int| before.grouped && before.st().collapsed_v().contains(
                dir_of(before.session.cur().cs.files_v(), i)));
            match next_unviewed_visible(before.st().viewed@, hidden, before.st().selected, n as usize) {
                Some(idx) => {
                    &&& found
                    &&& after.flash is None
                    &&& after.st().selected == idx
                    &&& after.st().selected_dir is None
                    &&& after.st().collapsed == before.st().collapsed
                    &&& after.st().viewed == before.st().viewed
                    &&& after.session.cur().plan == before.session.cur().plan
                    &&& after.session.cursor == before.session.cursor
                    &&& after.session.cur().cs == before.session.cur().cs
                },
                None => {
                    &&& !found
                    &&& after.flash matches Some(f) && f@ == none_left_note(
                        hidden_unviewed(before.st().viewed@, hidden, n as int),
                    )
                    &&& after.session == before.session
                },
            }
        }
    }

    /// Jump to the next unreviewed visible file after the active one
    /// (wrapping), skipping folded directories. When there is none, say so in
    /// the status note, counting the unreviewed files folded away, and
    /// answer false.
    #[verifier::spinoff_prover]
    pub fn next_unviewed(&mut self) -> (found: bool)
        requires
            old(self).wf(),
        ensures
            final(self).wf(),
            Self::next_unviewed_done(*old(self), *final(self), found),
    {
        if !self.is_review() {
            return false;
        }
        let start = self.session.active_file();
        let n = self.cs().files.len();
        let hidden = self.hidden_mask();
        let ghost hid = Seq::new(n as nat, |i: int| self.grouped && self.st().collapsed_v().contains(
            dir_of(self.session.cur().cs.files_v(), i)));
        assert(hidden@ =~= hid);
        let found = self.find_unviewed(&hidden, start, n);
        match found {
            Some(idx) => {
                self.flash = None;
                self.goto_file(idx);
                true
            },
            None => {
                let c = self.count_hidden_unviewed(&hidden, n);
                let mut note = String::new();
                if c > 0 {
                    note.append("none in view · ");
                    crate::text::push_decimal(&mut note, c);
                    note.append(" hidden in folded dirs");
                } else {
                    note = "all reviewed".to_string();
                }
                assert(note@ =~= none_left_note(c as int));
                self.flash = Some(note);
                false
            },
        }
    }

    /// The first file after `start` (wrapping) neither reviewed nor hidden.
    fn find_unviewed(&self, hidden: &Vec<bool>, start: usize, n: usize) -> (r: Option<usize>)
        requires
            self.wf(),
        ensures
            r == next_unviewed_visible(self.st().viewed@, hidden@, start, n),
            r matches Some(i) ==> i < n,
    {
        if n == 0 {
            return None;
        }
        let v = &self.state().viewed;
        let s = start % n;
        let mut k: usize = 1;
        while k <= n
            invariant
                1 <= k <= n,
                n > 0,
                s == start % n,
                *v == self.st().viewed,
                next_unviewed_visible(v@, hidden@, start, n) == first_unviewed_from(v@, hidden@, start, n, k as int),
            decreases n + 1 - k,
        {
            let i = if k >= n - s {
                k - (n - s)
            } else {
                s + k
            };
            assert(i == step_from(start, n, k as int)) by {
                assert(s < n);
                if k >= n - s {
                    assert((s + k) % (n as int) == s + k - n) by {
                        assert(s + k - n < n);
                        vstd::arithmetic::div_mod::lemma_fundamental_div_mod_converse(
                            s + k,
                            n as int,
                            1,
                            s + k - n,
                        );
                    }
                } else {
                    vstd::arithmetic::div_mod::lemma_small_mod((s + k) as nat, n as nat);
                }
            }
            let marked = i < v.len() && v[i];
            let hid = i < hidden.len() && hidden[i];
            if !marked && !hid {
                return Some(i);
            }
            if k == n {
                assert(first_unviewed_from(v@, hidden@, start, n, k + 1) is None);
                return None;
            }
            k = k + 1;
        }
        None
    }

    /// How many of the first `n` files are hidden and not reviewed.
    fn count_hidden_unviewed(&self, hidden: &Vec<bool>, n: usize) -> (c: usize)
        requires
            self.wf(),
        ensures
            c == hidden_unviewed(self.st().viewed@, hidden@, n as int),
    {
        let v = &self.state().viewed;
        let mut c: usize = 0;
        let mut i: usize = 0;
        while i < n
            invariant
                i <= n,
                *v == self.st().viewed,
                c == hidden_unviewed(v@, hidden@, i as int),
            decreases n - i,
        {
            proof {
                lemma_hidden_unviewed_bound(v@, hidden@, i + 1);
            }
            let hid = i < hidden.len() && hidden[i];
            let marked = i < v.len() && v[i];
            if hid && !marked {
                c = c + 1;
            }
            i = i + 1;
        }
        c
    }
}

impl App {
    /// What [`App::toggle_viewed`] promises: `after` is the app once the call has run on
    /// `before`.
    pub open spec fn toggle_viewed_done(before: App, after: App) -> bool {
        &&& !before.session.cur().review || before.st().selected_dir is Some ==> after == before
        &&& before.session.cur().review && before.st().selected_dir is None ==> {
            let idx = before.st().selected;
            let files = before.session.cur().cs.files_v();
            let marks = flipped(before.st().viewed@, idx);
            &&& after.st().viewed@ == marks
            &&& after.session.cursor == before.session.cursor
            &&& after.session.cur().cs == before.session.cur().cs
            &&& idx >= files.len() ==> after.st().collapsed == before.st().collapsed
            &&& idx < files.len() ==> {
                let d = dir_of(files, idx as int);
                let auto = before.grouped && rows::viewed_at(marks, idx as int)
                    && !before.st().collapsed_v().contains(d) && fully_reviewed(files, marks, d);
                forall|x: Seq<char>| #[trigger] after.st().collapsed_v().contains(x) == ((auto && x == d)
                    || before.st().collapsed_v().contains(x))
            }
        }
    }

    /// Mark or unmark the selected file as reviewed. When this completes its
    /// directory (in a grouped review, and the directory was not folded), the
    /// directory folds once, and the review moves on to the next unreviewed
    /// file, or parks on the new placeholder when there is none. Inert
    /// outside a review and on a folded directory's placeholder.
    #[verifier::spinoff_prover]
    #[verifier::rlimit(60)]
    pub fn toggle_viewed(&mut self)
        requires
            old(self).wf(),
        ensures
            final(self).wf(),
            Self::toggle_viewed_done(*old(self), *final(self)),
    {
        if !self.is_review() {
            return ;
        }
        let i = self.session.cursor;
        let idx = match self.session.views[i].state.selected_file() {
            Some(x) => x,
            None => {
                return ;
            },
        };
        if idx < self.session.views[i].state.viewed.len() {
            let b = self.session.views[i].state.viewed[idx];
            self.session.views[i].state.viewed.set(idx, !b);
        }
        proof {
            lemma_state_change_wf(old(self).session, self.session);
            assert(self.st().viewed@ =~= flipped(old(self).st().viewed@, idx));
        }
        if idx >= self.session.views[i].cs.files.len() {
            return ;
        }
        assert(self.session.cur().cs.files_v()[idx as int] == self.session.cur().cs.files@[idx as int]@);
        let dir = parent_dir(self.session.views[i].cs.files[idx].path.as_str());
        let marked = idx < self.session.views[i].state.viewed.len() && self.session.views[i].state.viewed[idx];
        let auto = self.grouped && marked && !self.session.views[i].state.is_folded(dir.as_str())
            && self.dir_fully_reviewed(dir.as_str());
        let ghost s0 = *self;
        if auto {
            self.session.views[i].state.add_fold(dir.as_str());
            proof {
                lemma_state_change_wf(s0.session, self.session);
            }
        }
        let ghost s1 = *self;
        self.rebuild_plan();
        let ghost s2 = *self;
        if auto {
            self.move_on_after_fold(dir);
        }
        proof {
            assert(s2.st().collapsed == s1.st().collapsed);
            assert(self.st().collapsed == s1.st().collapsed);
            assert(self.st().collapsed_v() == s1.st().collapsed_v());
            assert(self.st().viewed == s0.st().viewed);
            assert(s1.session.cur().cs == s0.session.cur().cs);
        }
    }
}

impl App {
    /// After a directory auto-folds: move on to the next unreviewed file, or
    /// park on the directory's new placeholder when there is none.
    fn move_on_after_fold(&mut self, dir: String)
        requires
            old(self).wf(),
        ensures
            final(self).wf(),
            final(self).session.cursor == old(self).session.cursor,
            final(self).session.cur().cs == old(self).session.cur().cs,
            final(self).st().collapsed == old(self).st().collapsed,
            final(self).st().viewed == old(self).st().viewed,
            ({
                let n = old(self).session.cur().cs.files@.len();
                let hidden = Seq::new(n, |i: int| old(self).grouped && old(self).st().collapsed_v().contains(
                    dir_of(old(self).session.cur().cs.files_v(), i)));
                let next = if old(self).session.cur().review {
                    next_unviewed_visible(old(self).st().viewed@, hidden, old(self).st().selected, n as usize)
                } else {
                    None
                };
                match next {
                    Some(idx) => {
                        &&& final(self).st().selected == idx
                        &&& final(self).st().selected_dir is None
                        &&& final(self).flash is None
                    },
                    None => {
                        let mid = ViewState { selected_dir: Some(dir), reveal_selected: true, ..old(self).st() };
                        let u = stream::spec_usable(old(self).pl(), old(self).viewport_h) as usize;
                        match rows::spec_collapsed_row(old(self).pl(), dir@) {
                            Some(row) => stream::jumps_to(mid, final(self).st(), old(self).pl(), u, row),
                            None => stream::unmoved(mid, final(self).st()),
                        }
                    },
                }
            }),
    {
        let i = self.session.cursor;
        let ghost d = dir;
        if !self.next_unviewed() {
            let ghost s2 = *self;
            let near = self.session.views[i].state.selected;
            self.session.views[i].state.select_dir(dir, near);
            self.session.views[i].state.reveal_selected = true;
            proof {
                lemma_state_change_wf(s2.session, self.session);
                assert(s2.st() == old(self).st());
                assert(s2.pl() == old(self).pl());
                assert(self.st() == ViewState { selected_dir: Some(d), reveal_selected: true, ..old(self).st() });
                assert(self.pl() == old(self).pl());
            }
            self.sync_body_to_selection();
        }
    }
}

/// Which surface captures input, from the overlay stack and the base.
pub open spec fn context_of(m: Mode) -> InputContext {
    if m.stack().len() > 0 {
        match m.stack().last() {
            Overlay::Help => InputContext::Help,
            Overlay::CommitMessage(_) => InputContext::CommitMsg,
            Overlay::Palette(_) => InputContext::Palette,
            Overlay::ThemePicker(_) => InputContext::ThemePicker,
            Overlay::Comment(_) => InputContext::Comment,
            Overlay::Threads(_) => InputContext::Threads,
            Overlay::Submit(_) => InputContext::Submit,
        }
    } else if m.base is Peek {
        InputContext::Peek
    } else {
        InputContext::Normal
    }
}

/// The hint table the status line shows for a mode (none over help).
pub open spec fn table_of(m: Mode) -> Option<HintTable> {
    match context_of(m) {
        InputContext::Help => None,
        InputContext::CommitMsg => Some(HintTable::CommitMsg),
        InputContext::Comment => Some(HintTable::Comment),
        InputContext::ThemePicker => Some(HintTable::Theme),
        InputContext::Threads => Some(HintTable::Threads),
        InputContext::Submit => Some(
            match m.stack().last() {
                Overlay::Submit(d) => if d.buffer is Some {
                    HintTable::SubmitEdit
                } else {
                    HintTable::SubmitPick
                },
                _ => HintTable::SubmitPick,
            },
        ),
        InputContext::Palette => Some(
            match m.stack().last() {
                Overlay::Palette(p) => if p.kind is Commits {
                    HintTable::PaletteCommit
                } else {
                    HintTable::PaletteFile
                },
                _ => HintTable::PaletteFile,
            },
        ),
        InputContext::Peek => Some(
            match m.base {
                Base::Peek(p) => match p.mode {
                    PeekMode::Diff => HintTable::PeekDiff,
                    PeekMode::Blame => HintTable::PeekBlame,
                    PeekMode::Content => HintTable::PeekContent,
                },
                _ => HintTable::PeekContent,
            },
        ),
        InputContext::Normal => Some(
            match m.base {
                Base::Normal { focus: Focus::Sidebar } => HintTable::Sidebar,
                _ => HintTable::Stream,
            },
        ),
    }
}

/// The commit popup's scroll after moving it by `delta`, within its last
/// full page.
pub open spec fn popup_scroll(scroll: usize, delta: isize, body_lines: usize, viewport_h: usize) -> int {
    let max = stream::spec_max_scroll(body_lines as int, viewport_h as int);
    if delta >= 0 {
        stream::min_int(scroll + delta, max)
    } else if scroll + delta >= 0 {
        scroll + delta
    } else {
        0
    }
}

impl App {
    /// Which surface captures input right now: the topmost overlay, else the
    /// peek, else the normal panes.
    pub fn active_context(&self) -> (c: InputContext)
        ensures
            c == context_of(self.mode),
    {
        match self.mode.overlay() {
            Some(Overlay::Help) => InputContext::Help,
            Some(Overlay::CommitMessage(_)) => InputContext::CommitMsg,
            Some(Overlay::Palette(_)) => InputContext::Palette,
            Some(Overlay::ThemePicker(_)) => InputContext::ThemePicker,
            Some(Overlay::Comment(_)) => InputContext::Comment,
            Some(Overlay::Threads(_)) => InputContext::Threads,
            Some(Overlay::Submit(_)) => InputContext::Submit,
            None => match &self.mode.base {
                Base::Peek(_) => InputContext::Peek,
                Base::Normal { .. } => InputContext::Normal,
            },
        }
    }

    /// The hint table the status line renders for the active context.
    pub fn status_table(&self) -> (t: Option<HintTable>)
        ensures
            t == table_of(self.mode),
    {
        match self.mode.overlay() {
            Some(Overlay::Help) => None,
            Some(Overlay::CommitMessage(_)) => Some(HintTable::CommitMsg),
            Some(Overlay::Comment(_)) => Some(HintTable::Comment),
            Some(Overlay::ThemePicker(_)) => Some(HintTable::Theme),
            Some(Overlay::Threads(_)) => Some(HintTable::Threads),
            Some(Overlay::Submit(d)) => Some(
                if d.buffer.is_some() {
                    HintTable::SubmitEdit
                } else {
                    HintTable::SubmitPick
                },
            ),
            Some(Overlay::Palette(p)) => Some(
                match &p.kind {
                    PaletteKind::Commits { .. } => HintTable::PaletteCommit,
                    PaletteKind::Files => HintTable::PaletteFile,
                },
            ),
            None => match &self.mode.base {
                Base::Peek(p) => Some(
                    match p.mode {
                        PeekMode::Diff => HintTable::PeekDiff,
                        PeekMode::Blame => HintTable::PeekBlame,
                        PeekMode::Content => HintTable::PeekContent,
                    },
                ),
                Base::Normal { focus: Focus::Sidebar } => Some(HintTable::Sidebar),
                Base::Normal { focus: Focus::Stream } => Some(HintTable::Stream),
            },
        }
    }

    /// The bindings the status line shows for the active context (none over
    /// the help screen, which shows its own dismiss hint).
    pub fn status_bindings(&self) -> (v: Vec<Binding>)
        ensures
            v@ == match table_of(self.mode) {
                Some(t) => spec_table(t),
                None => Seq::empty(),
            },
    {
        match self.status_table() {
            Some(t) => table(t),
            None => Vec::new(),
        }
    }

    /// Whether the help screen is the topmost overlay.
    pub fn help_open(&self) -> (r: bool)
        ensures
            r == (self.mode.stack().len() > 0 && self.mode.stack().last() is Help),
    {
        match self.mode.overlay() {
            Some(Overlay::Help) => true,
            _ => false,
        }
    }

    /// What [`App::toggle_help`] promises: `after` is the app once the call has run on
    /// `before`.
    pub open spec fn toggle_help_done(before: App, after: App) -> bool {
        &&& after.mode.base == before.mode.base
        &&& after.session == before.session
        &&& (before.mode.stack().len() > 0 && before.mode.stack().last() is Help) ==> after.mode.stack()
            == before.mode.stack().drop_last()
        &&& !(before.mode.stack().len() > 0 && before.mode.stack().last() is Help) ==> after.mode.stack()
            == before.mode.stack().push(Overlay::Help)
    }

    /// Show the help screen, or dismiss it when it is on top.
    pub fn toggle_help(&mut self)
        ensures
            Self::toggle_help_done(*old(self), *final(self)),
    {
        if self.help_open() {
            self.mode.pop_overlay();
        } else {
            self.mode.push_overlay(Overlay::Help);
        }
    }

    /// Whether the topmost overlay is the commit picker.
    pub fn commit_palette_open(&self) -> (r: bool)
        ensures
            r == (self.mode.overlay_spec() matches Some(Overlay::Palette(p)) && p.kind is Commits),
    {
        match self.mode.overlay() {
            Some(Overlay::Palette(p)) => match &p.kind {
                PaletteKind::Commits { .. } => true,
                PaletteKind::Files => false,
            },
            _ => false,
        }
    }

    /// What [`App::palette_move`] promises: `after` is the app once the call has run on
    /// `before`.
    pub open spec fn palette_move_done(before: App, after: App, delta: isize) -> bool {
        &&& after.session == before.session
        &&& after.mode.base == before.mode.base
        &&& after.mode.stack().len() == before.mode.stack().len()
        &&& match before.mode.overlay_spec() {
            Some(Overlay::Palette(p)) => p.matches@.len() > 0 && p.selected <= isize::MAX && p.matches@.len()
                <= isize::MAX && isize::MIN <= p.selected + delta <= isize::MAX ==> after.mode.stack()
                == before.mode.stack().update(
                before.mode.stack().len() - 1,
                Overlay::Palette(
                    Palette {
                        selected: crate::types::clamp_sel(p.selected + delta, p.matches@.len() as int)
                            as usize,
                        ..p
                    },
                ),
            ),
            _ => after.mode.stack() == before.mode.stack(),
        }
    }

    /// Move the palette's selection by `delta`, clamped to its matches (no
    /// matches: nothing moves).
    pub fn palette_move(&mut self, delta: isize)
        ensures
            Self::palette_move_done(*old(self), *final(self), delta),
    {
        match self.mode.pop_overlay() {
            Some(Overlay::Palette(mut p)) => {
                let n = p.matches.len();
                if n > 0 && p.selected <= isize::MAX as usize && n <= isize::MAX as usize {
                    let next = p.selected as isize;
                    if let Some(v) = next.checked_add(delta) {
                        let last = (n - 1) as isize;
                        p.selected = if v < 0 {
                            0
                        } else if v > last {
                            last as usize
                        } else {
                            v as usize
                        };
                    }
                }
                self.mode.push_overlay(Overlay::Palette(p));
            },
            Some(other) => self.mode.push_overlay(other),
            None => {},
        }
        proof {
            if old(self).mode.stack().len() > 0 {
                assert(old(self).mode.stack().drop_last().push(old(self).mode.stack().last()) =~= old(
                    self,
                ).mode.stack());
                assert(self.mode.stack() =~= old(self).mode.stack().update(
                    old(self).mode.stack().len() - 1,
                    self.mode.stack().last(),
                ));
            }
        }
    }
}

/// Paging `dir` pages (or half pages, `half`) is moving the line cursor by
/// `dir` times the page (or half-page) step: every outcome the one may
/// leave, the other may leave too.
pub proof fn law_page_is_a_cursor_move(before: App, after: App, dir: isize, half: bool)
    requires
        ({
            let u = stream::spec_usable(before.pl(), before.viewport_h) as usize;
            let step = if half {
                stream::spec_half_step(u)
            } else {
                stream::spec_page_step(u)
            };
            isize::MIN <= dir * step <= isize::MAX
        }),
    ensures
        ({
            let u = stream::spec_usable(before.pl(), before.viewport_h) as usize;
            let step = if half {
                stream::spec_half_step(u)
            } else {
                stream::spec_page_step(u)
            };
            &&& half ==> App::half_page_done(before, after, dir) == App::move_cursor_done(
                before,
                after,
                (dir * step) as isize,
            )
            &&& !half ==> App::page_done(before, after, dir) == App::move_cursor_done(
                before,
                after,
                (dir * step) as isize,
            )
        }),
{
}

/// A peek's scroll kept within its last full page of `viewport_h` rows.
pub open spec fn peek_kept(scroll: usize, rows: int, viewport_h: usize) -> int {
    let bound = if rows > viewport_h {
        rows - viewport_h
    } else {
        0
    };
    stream::min_int(scroll as int, bound)
}

/// The first change start after `cur` (`dir > 0`), or the last one before it.
pub open spec fn peek_target(starts: Seq<usize>, cur: usize, dir: isize) -> Option<usize> {
    if dir > 0 {
        stream::spec_next_hunk(starts, cur)
    } else {
        stream::spec_prev_hunk(starts, cur)
    }
}

impl App {
    /// Whether the single-file peek is the base.
    pub fn peek_open(&self) -> (r: bool)
        ensures
            r == self.mode.base is Peek,
    {
        match &self.mode.base {
            Base::Peek(_) => true,
            Base::Normal { .. } => false,
        }
    }

    /// The open peek, if any.
    pub fn peek(&self) -> (r: Option<&Peek>)
        ensures
            match self.mode.base {
                Base::Peek(p) => r == Some(&*p),
                Base::Normal { .. } => r is None,
            },
    {
        match &self.mode.base {
            Base::Peek(p) => Some(&**p),
            Base::Normal { .. } => None,
        }
    }

    /// What [`App::peek_close`] promises: `after` is the app once the call has run on
    /// `before`.
    pub open spec fn peek_close_done(before: App, after: App) -> bool {
        &&& after.mode.base == (Base::Normal { focus: Focus::Stream })
        &&& after.mode.overlays == before.mode.overlays
        &&& after.session == before.session
    }

    /// Close the peek, back to the normal stream with focus on it.
    pub fn peek_close(&mut self)
        requires
            old(self).wf(),
        ensures
            final(self).wf(),
            Self::peek_close_done(*old(self), *final(self)),
    {
        self.mode.base = Base::Normal { focus: Focus::Stream };
    }

    /// Open `peek` as the base, in the main view's layout (unified or side
    /// by side).
    pub fn set_peek(&mut self, peek: Peek)
        requires
            old(self).wf(),
            peek.texts_fit(),
        ensures
            final(self).wf(),
            final(self).mode.base matches Base::Peek(q) && {
                &&& q.split_view == (old(self).pl().layout == LayoutMode::Split)
                &&& q.mode == peek.mode
                &&& q.full == peek.full
                &&& q.same_source(&peek)
                &&& q.split_view == peek.split_view ==> *q == peek
                &&& q.split_view != peek.split_view ==> q.rebuilt() && q.state.scroll
                    == crate::peek::kept_scroll(peek.state.scroll, q.plan@.rows.len() as int)
            },
            final(self).mode.overlays == old(self).mode.overlays,
            final(self).session == old(self).session,
    {
        let mut peek = peek;
        let split = self.is_split();
        peek.set_split(split);
        self.mode.base = Base::Peek(Box::new(peek));
    }

    /// Take the peek out of the base to work on it (the base is left normal).
    pub(crate) fn take_peek(&mut self) -> (r: Option<Peek>)
        requires
            old(self).wf(),
        ensures
            final(self).wf(),
            final(self).session == old(self).session,
            final(self).mode.overlays == old(self).mode.overlays,
            match old(self).mode.base {
                Base::Peek(p) => r == Some(*p) && final(self).mode.base == (Base::Normal { focus: Focus::Stream }),
                Base::Normal { .. } => r is None && final(self).mode.base == old(self).mode.base,
            },
            r matches Some(p) ==> p.texts_fit(),
    {
        let mut b = Base::Normal { focus: Focus::Stream };
        std::mem::swap(&mut self.mode.base, &mut b);
        match b {
            Base::Peek(p) => Some(*p),
            other => {
                self.mode.base = other;
                None
            },
        }
    }

    /// What [`App::peek_toggle_split`] promises: `after` is the app once the call has run on
    /// `before`.
    pub open spec fn peek_toggle_split_done(before: App, after: App) -> bool {
        &&& after.session == before.session
        &&& after.mode.overlays == before.mode.overlays
        &&& match before.mode.base {
            Base::Peek(p) => after.mode.base matches Base::Peek(q) && if p.mode == PeekMode::Diff {
                &&& q.split_view == !p.split_view
                &&& q.mode == p.mode
                &&& q.same_source(&*p)
                &&& q.rebuilt()
                &&& q.state.scroll == peek_kept(
                    p.state.scroll,
                    q.plan@.rows.len() as int,
                    if before.peek_viewport_h >= 1 {
                        before.peek_viewport_h
                    } else {
                        1
                    },
                )
            } else {
                *q == *p
            },
            Base::Normal { .. } => after.mode.base == before.mode.base,
        }
    }

    /// Switch the peek's diff between unified and side by side (diff mode
    /// only), keeping its last page full.
    pub fn peek_toggle_split(&mut self)
        requires
            old(self).wf(),
        ensures
            final(self).wf(),
            Self::peek_toggle_split_done(*old(self), *final(self)),
    {
        let vh = if self.peek_viewport_h >= 1 {
            self.peek_viewport_h
        } else {
            1
        };
        if let Some(mut p) = self.take_peek() {
            if p.mode == PeekMode::Diff {
                let ghost before = p.state.scroll;
                p.set_split(!p.split_view);
                let rows = p.active_rows();
                let bound = rows.saturating_sub(vh);
                if p.state.scroll > bound {
                    p.state.scroll = bound;
                }
            }
            self.mode.base = Base::Peek(Box::new(p));
        }
    }
}

impl App {
    /// The peek viewport height used for its paging (at least one row).
    pub open spec fn peek_h(&self) -> usize {
        if self.peek_viewport_h >= 1 {
            self.peek_viewport_h
        } else {
            1
        }
    }

    /// What [`App::peek_set_full`] promises: `after` is the app once the call has run on
    /// `before`.
    pub open spec fn peek_set_full_done(before: App, after: App, full: bool) -> bool {
        &&& after.session == before.session
        &&& after.mode.overlays == before.mode.overlays
        &&& match before.mode.base {
            Base::Peek(p) => after.mode.base matches Base::Peek(q) && if p.mode == PeekMode::Diff
                && full != p.full {
                &&& q.full == full
                &&& q.mode == p.mode
                &&& q.split_view == p.split_view
                &&& q.same_source(&*p)
                &&& q.rebuilt()
                &&& q.state.scroll == peek_kept(
                    crate::peek::kept_scroll(p.state.scroll, q.plan@.rows.len() as int) as usize,
                    q.plan@.rows.len() as int,
                    before.peek_h(),
                )
            } else {
                &&& q.full == p.full
                &&& q.plan == p.plan
                &&& q.state.scroll == peek_kept(p.state.scroll, p.plan@.rows.len() as int, before.peek_h())
            },
            Base::Normal { .. } => after.mode.base == before.mode.base,
        }
    }

    /// Set the peek's diff context (diff mode only), keeping its last page
    /// full.
    pub fn peek_set_full(&mut self, full: bool)
        requires
            old(self).wf(),
        ensures
            final(self).wf(),
            Self::peek_set_full_done(*old(self), *final(self), full),
    {
        let vh = if self.peek_viewport_h >= 1 {
            self.peek_viewport_h
        } else {
            1
        };
        if let Some(mut p) = self.take_peek() {
            p.set_full(full);
            let bound = p.active_rows().saturating_sub(vh);
            if p.state.scroll > bound {
                p.state.scroll = bound;
            }
            self.mode.base = Base::Peek(Box::new(p));
        }
    }

    /// What [`App::peek_scroll`] promises: `after` is the app once the call has run on
    /// `before`.
    pub open spec fn peek_scroll_done(before: App, after: App, delta: isize) -> bool {
        &&& after.session == before.session
        &&& after.mode.overlays == before.mode.overlays
        &&& match before.mode.base {
            Base::Peek(p) => after.mode.base matches Base::Peek(q) && {
                &&& q.state.scroll == stream::clamp_int(
                    p.state.scroll + delta,
                    0,
                    stream::spec_max_scroll(p.plan@.rows.len() as int, before.peek_h() as int),
                )
                &&& q.plan == p.plan
                &&& q.mode == p.mode
                &&& q.same_source(&*p)
                &&& q.change_starts == p.change_starts
            },
            Base::Normal { .. } => after.mode.base == before.mode.base,
        }
    }

    /// Scroll the peek by `delta`, within its last full page.
    pub fn peek_scroll(&mut self, delta: isize)
        requires
            old(self).wf(),
            old(self).mode.base matches Base::Peek(p) ==> {
                &&& p.state.scroll <= isize::MAX
                &&& p.plan@.rows.len() <= isize::MAX
                &&& isize::MIN <= p.state.scroll + delta <= isize::MAX
            },
        ensures
            final(self).wf(),
            Self::peek_scroll_done(*old(self), *final(self), delta),
    {
        let vh = if self.peek_viewport_h >= 1 {
            self.peek_viewport_h
        } else {
            1
        };
        if let Some(mut p) = self.take_peek() {
            stream::scroll_by(&mut p.state, &p.plan, vh, delta);
            self.mode.base = Base::Peek(Box::new(p));
        }
    }

    /// What [`App::peek_hunk`] promises: `after` is the app once the call has run on
    /// `before`.
    pub open spec fn peek_hunk_done(before: App, after: App, dir: isize) -> bool {
        &&& after.session == before.session
        &&& after.mode.overlays == before.mode.overlays
        &&& match before.mode.base {
            Base::Peek(p) => after.mode.base matches Base::Peek(q) && {
                &&& q.state.scroll == match peek_target(p.change_starts@, p.state.scroll, dir) {
                    Some(row) => stream::min_int(row as int, stream::spec_last_row(p.plan@)),
                    None => p.state.scroll as int,
                }
                &&& q.plan == p.plan
                &&& q.mode == p.mode
                &&& q.same_source(&*p)
            },
            Base::Normal { .. } => after.mode.base == before.mode.base,
        }
    }

    /// Jump the peek's top to the next (`dir > 0`) or previous change start;
    /// no such start leaves it put.
    pub fn peek_hunk(&mut self, dir: isize)
        requires
            old(self).wf(),
        ensures
            final(self).wf(),
            Self::peek_hunk_done(*old(self), *final(self), dir),
    {
        if let Some(mut p) = self.take_peek() {
            let cur = p.state.scroll;
            let target = if dir > 0 {
                stream::next_start(&p.change_starts, cur)
            } else {
                stream::prev_start(&p.change_starts, cur)
            };
            if let Some(row) = target {
                let last = p.active_rows().saturating_sub(1);
                p.state.scroll = if row < last {
                    row
                } else {
                    last
                };
            }
            self.mode.base = Base::Peek(Box::new(p));
        }
    }

    /// Cycle the peek's mode (content, diff, blame), resetting its scroll.
    /// The caller fills a blame-opened peek's sides first and starts the
    /// blame fetch after, as both read the repository.
    pub fn peek_toggle_mode(&mut self)
        requires
            old(self).wf(),
        ensures
            final(self).wf(),
            final(self).session == old(self).session,
            final(self).mode.overlays == old(self).mode.overlays,
            match old(self).mode.base {
                Base::Peek(p) => final(self).mode.base matches Base::Peek(q) && {
                    &&& q.mode == crate::peek::next_mode(p.mode)
                    &&& q.state.scroll == 0
                    &&& q.rebuilt()
                    &&& q.same_source(&*p)
                    &&& q.full == p.full
                    &&& q.split_view == p.split_view
                },
                Base::Normal { .. } => final(self).mode.base == old(self).mode.base,
            },
    {
        if let Some(mut p) = self.take_peek() {
            p.toggle_mode();
            self.mode.base = Base::Peek(Box::new(p));
        }
    }
}

impl App {
    /// The commit-message popup, when it is the topmost overlay.
    pub fn commit_msg(&self) -> (r: Option<&CommitMsg>)
        ensures
            match self.mode.overlay_spec() {
                Some(Overlay::CommitMessage(m)) => r == Some(&m),
                _ => r is None,
            },
    {
        match self.mode.overlay() {
            Some(Overlay::CommitMessage(m)) => Some(m),
            _ => None,
        }
    }

    /// The palette, when it is the topmost overlay.
    pub fn palette(&self) -> (r: Option<&Palette>)
        ensures
            match self.mode.overlay_spec() {
                Some(Overlay::Palette(p)) => r == Some(&p),
                _ => r is None,
            },
    {
        match self.mode.overlay() {
            Some(Overlay::Palette(p)) => Some(p),
            _ => None,
        }
    }

    /// What [`App::commit_msg_scroll`] promises: `after` is the app once the call has run on
    /// `before`.
    pub open spec fn commit_msg_scroll_done(before: App, after: App, delta: isize) -> bool {
        &&& after.session == before.session
        &&& after.mode.base == before.mode.base
        &&& match before.mode.overlay_spec() {
            Some(Overlay::CommitMessage(m)) => after.mode.stack() == before.mode.stack().update(
                before.mode.stack().len() - 1,
                Overlay::CommitMessage(
                    CommitMsg {
                        scroll: popup_scroll(
                            m.scroll,
                            delta,
                            m.body_lines,
                            before.commit_msg_viewport_h,
                        ) as usize,
                        ..m
                    },
                ),
            ),
            _ => after.mode.stack() == before.mode.stack(),
        }
    }

    /// Scroll the commit-message popup by `delta`, stopping a page short of
    /// the end so the last screen stays full.
    pub fn commit_msg_scroll(&mut self, delta: isize)
        ensures
            Self::commit_msg_scroll_done(*old(self), *final(self), delta),
    {
        let vh = self.commit_msg_viewport_h;
        match self.mode.pop_overlay() {
            Some(Overlay::CommitMessage(mut m)) => {
                let max = stream::max_scroll_rows(m.body_lines, vh);
                let step: usize = if delta >= 0 {
                    delta as usize
                } else {
                    (-(delta + 1)) as usize + 1
                };
                if delta >= 0 {
                    m.scroll = if m.scroll >= max || step >= max - m.scroll {
                        max
                    } else {
                        m.scroll + step
                    };
                } else {
                    m.scroll = if step >= m.scroll {
                        0
                    } else {
                        m.scroll - step
                    };
                }
                self.mode.push_overlay(Overlay::CommitMessage(m));
            },
            Some(other) => self.mode.push_overlay(other),
            None => {},
        }
        proof {
            if old(self).mode.stack().len() > 0 {
                assert(old(self).mode.stack().drop_last().push(old(self).mode.stack().last()) =~= old(
                    self,
                ).mode.stack());
                assert(self.mode.stack() =~= old(self).mode.stack().update(
                    old(self).mode.stack().len() - 1,
                    self.mode.stack().last(),
                ));
            }
        }
    }

    /// Dismiss the topmost overlay (the palette or the commit popup),
    /// revealing what it was summoned over.
    pub fn close_overlay(&mut self)
        ensures
            final(self).session == old(self).session,
            final(self).mode.base == old(self).mode.base,
            old(self).mode.stack().len() > 0 ==> final(self).mode.stack() == old(self).mode.stack().drop_last(),
            old(self).mode.stack().len() == 0 ==> final(self).mode.stack() == old(self).mode.stack(),
    {
        self.mode.pop_overlay();
    }

    /// What [`App::toggle_grouping`] promises: `after` is the app once the call has run on
    /// `before`.
    pub open spec fn toggle_grouping_done(before: App, after: App) -> bool {
        &&& after.grouped == !before.grouped
        &&& after.st().reveal_selected
        &&& after.st().collapsed == before.st().collapsed
        &&& after.st().viewed == before.st().viewed
        &&& after.session.cur().cs == before.session.cur().cs
        &&& before.grouped ==> match before.st().selected_dir {
            Some(d) => match rows::spec_first_in_dir(before.session.cur().cs.files_v(), d@) {
                Some(i) => after.st().selected == i && after.st().selected_dir is None,
                None => after.st().selected == before.st().selected && after.st().selected_dir is None,
            },
            None => after.st().selected == before.st().selected && after.st().selected_dir is None,
        }
        &&& !before.grouped ==> after.st().selected == before.st().selected
            && after.st().selected_dir == before.st().selected_dir
        &&& after.pl() == rows::spec_build(
            before.session.cur().cs.files_v(),
            before.st().viewed@,
            before.layout,
            crate::session::folds(before.session.cur(), !before.grouped),
            crate::text::strs_v(before.session.cur().banner@),
        )
    }

    /// Toggle the sidebar between the flat list and the grouped view,
    /// rebuilding the plan (folds apply only when grouped). Going flat, a
    /// selected folded directory becomes its first file.
    pub fn toggle_grouping(&mut self)
        requires
            old(self).wf(),
        ensures
            final(self).wf(),
            Self::toggle_grouping_done(*old(self), *final(self)),
    {
        self.grouped = !self.grouped;
        let i = self.session.cursor;
        if !self.grouped {
            let sel_dir = match &self.session.views[i].state.selected_dir {
                Some(d) => Some(d.clone()),
                None => None,
            };
            if let Some(dir) = sel_dir {
                match rows::first_in_dir(&self.session.views[i].cs, dir.as_str()) {
                    Some(f) => self.session.views[i].state.select_file(f),
                    None => self.session.views[i].state.selected_dir = None,
                }
                proof {
                    lemma_state_change_wf(old(self).session, self.session);
                }
            }
        }
        self.rebuild_plan();
        let ghost s2 = *self;
        self.session.views[i].state.reveal_selected = true;
        proof {
            lemma_state_change_wf(s2.session, self.session);
        }
    }
}

impl App {
    /// An app over `cs` with a single home view: nothing reviewed, nothing
    /// folded, grouped by directory, `banner` above the first file, the
    /// normal stream focused. `review` makes the home view a review session.
    pub fn with_launch(
        cs: Changeset,
        layout: LayoutMode,
        repo_dir: Option<String>,
        kind: crate::session::ViewKind,
        review: bool,
        base: Option<String>,
        req: Option<crate::session::LoadRequest>,
        banner: Vec<String>,
    ) -> (app: App)
        requires
            rows::fits(cs.files_v()),
        ensures
            app.wf(),
            app.session.views@.len() == 1,
            app.session.cursor == 0,
            app.session.repo_dir == repo_dir,
            app.session.loader is None,
            app.session.cur().cs == cs,
            app.session.cur().kind == kind,
            app.session.cur().review == review,
            app.session.cur().banner == banner,
            app.session.cur().base == base,
            app.session.cur().req == req,
            app.session.cur().stubs@.len() == 0,
            app.session.load_started_ms is None,
            app.viewport_h == 1 && app.viewport_w == 1 && app.peek_viewport_h == 1 && app.commit_msg_viewport_h == 1,
            !app.sidebar_hidden,
            !app.launch_filtered,
            app.st().viewed@ == Seq::new(cs.files@.len(), |i: int| false),
            app.st().collapsed@.len() == 0,
            app.st().reveal_selected,
            app.st().scroll == 0 && app.st().cursor_row == 0 && app.st().selected == 0,
            app.layout == layout,
            app.grouped,
            laid_out(app),
            app.mode.base == (Base::Normal { focus: Focus::Stream }),
            app.mode.stack().len() == 0,
            app.flash is None,
            !app.should_quit,
    {
        let viewed = vec![false; cs.files.len()];
        assert(viewed@ =~= Seq::new(cs.files@.len(), |i: int| false));
        let none: Vec<String> = Vec::new();
        let plan = Plan::build_with_banner(&cs, viewed.as_slice(), layout, none.as_slice(), banner.as_slice());
        let mut state = ViewState::new();
        state.viewed = viewed;
        state.reveal_selected = true;
        let home = ViewEntry { kind, cs, base, req, stubs: Vec::new(), state, plan, review, banner };
        let app = App {
            session: Session {
                views: vec![home],
                cursor: 0,
                repo_dir,
                loader: None,
                load_started_ms: None,
                load_kind: crate::session::LoadKind::Launch,
            },
            layout,
            grouped: true,
            viewport_h: 1,
            viewport_w: 1,
            sidebar_hidden: false,
            mode: Mode::normal(),
            peek_viewport_h: 1,
            commit_msg_viewport_h: 1,
            flash: None,
            launch_filtered: false,
            should_quit: false,
        };
        proof {
            assert(app.st().collapsed_v() =~= strs_v(none@));
            reveal(laid_out);
        }
        app
    }

    /// Apply the configured layout when the plan was built for the other one:
    /// rebuild, then put the viewport on the header of the file that was at
    /// its top (a viewport parked above the first file stays there), and clamp.
    #[verifier::spinoff_prover]
    pub fn set_layout(&mut self, _stream_width: u16)
        requires
            old(self).wf(),
        ensures
            final(self).wf(),
            only_view_changed(*old(self), *final(self)),
            final(self).rest_same(*old(self)),
            (old(self).layout == LayoutMode::Split) == (old(self).pl().layout == LayoutMode::Split) ==> *final(self)
                == *old(self),
            (old(self).layout == LayoutMode::Split) != (old(self).pl().layout == LayoutMode::Split) ==> {
                &&& laid_out(*final(self))
                &&& final(self).st().viewed == old(self).st().viewed
                &&& final(self).st().collapsed == old(self).st().collapsed
            },
    {
        let want_split = match self.layout {
            LayoutMode::Split => true,
            LayoutMode::Stack => false,
        };
        if want_split == self.is_split() {
            return ;
        }
        let anchor = self.current_file();
        let old_start = match self.session.file_start(anchor) {
            Some(r) => r,
            None => 0,
        };
        let in_banner = self.state().scroll < old_start;
        self.build_plan();
        let ghost s2 = *self;
        if !in_banner {
            if let Some(row) = self.session.file_start(anchor) {
                let i = self.session.cursor;
                self.session.views[i].state.scroll = row;
                proof {
                    lemma_state_change_wf(s2.session, self.session);
                }
            }
        }
        let ghost s3 = *self;
        self.clamp();
        proof {
            lemma_laid_out_same(s2, s3);
            lemma_laid_out_same(s3, *self);
        }
    }

    /// What [`App::page`] promises: `after` is the app once the call has run on
    /// `before`.
    pub open spec fn page_done(before: App, after: App, dir: isize) -> bool {
        let u = stream::spec_usable(before.pl(), before.viewport_h) as usize;
        &&& only_state_changed(before, after)
        &&& stream::cursor_moved(before.st(), after.st(), before.pl(), u, dir * stream::spec_page_step(u))
    }

    /// Move the line cursor `dir` pages (down for `dir` positive, up for
    /// negative).
    pub fn page(&mut self, dir: isize)
        requires
            old(self).wf(),
            isize::MIN <= dir * stream::spec_page_step(
                stream::spec_usable(old(self).pl(), old(self).viewport_h) as usize,
            ) <= isize::MAX,
            old(self).viewport_h <= isize::MAX,
            old(self).st().cursor_row <= isize::MAX,
            old(self).pl().rows.len() <= isize::MAX,
            isize::MIN <= old(self).st().cursor_row + dir * stream::spec_page_step(
                stream::spec_usable(old(self).pl(), old(self).viewport_h) as usize,
            ) <= isize::MAX,
        ensures
            final(self).wf(),
            Self::page_done(*old(self), *final(self), dir),
    {
        let vh = self.viewport_h;
        let i = self.session.cursor;
        let e = &mut self.session.views[i];
        let usable = stream::usable(&e.plan, vh);
        stream::page(&mut e.state, &e.plan, usable, dir);
        proof {
            lemma_state_change_wf(old(self).session, self.session);
        }
    }

    /// What [`App::half_page`] promises: `after` is the app once the call has run on
    /// `before`.
    pub open spec fn half_page_done(before: App, after: App, dir: isize) -> bool {
        let u = stream::spec_usable(before.pl(), before.viewport_h) as usize;
        &&& only_state_changed(before, after)
        &&& stream::cursor_moved(before.st(), after.st(), before.pl(), u, dir * stream::spec_half_step(u))
    }

    /// Move the line cursor `dir` half pages (down for `dir` positive, up
    /// for negative).
    pub fn half_page(&mut self, dir: isize)
        requires
            old(self).wf(),
            isize::MIN <= dir * stream::spec_half_step(
                stream::spec_usable(old(self).pl(), old(self).viewport_h) as usize,
            ) <= isize::MAX,
            old(self).viewport_h <= isize::MAX,
            old(self).st().cursor_row <= isize::MAX,
            old(self).pl().rows.len() <= isize::MAX,
            isize::MIN <= old(self).st().cursor_row + dir * stream::spec_half_step(
                stream::spec_usable(old(self).pl(), old(self).viewport_h) as usize,
            ) <= isize::MAX,
        ensures
            final(self).wf(),
            Self::half_page_done(*old(self), *final(self), dir),
    {
        let vh = self.viewport_h;
        let i = self.session.cursor;
        let e = &mut self.session.views[i];
        let usable = stream::usable(&e.plan, vh);
        stream::half_page(&mut e.state, &e.plan, usable, dir);
        proof {
            lemma_state_change_wf(old(self).session, self.session);
        }
    }

    /// What [`App::h_scroll_by`] promises: `after` is the app once the call has run on
    /// `before`.
    pub open spec fn h_scroll_by_done(before: App, after: App, delta: isize) -> bool {
        &&& only_state_changed(before, after)
        &&& after.st().h_scroll == stream::clamp_int(
            before.st().h_scroll + delta,
            0,
            stream::spec_max_h_scroll(before.pl(), before.viewport_w),
        )
        &&& after.st().scroll == before.st().scroll
        &&& after.st().cursor_row == before.st().cursor_row
    }

    /// Pan horizontally by `delta`, within the content width.
    pub fn h_scroll_by(&mut self, delta: isize)
        requires
            old(self).wf(),
            old(self).st().h_scroll <= isize::MAX,
            old(self).pl().content_w <= isize::MAX,
            isize::MIN <= old(self).st().h_scroll + delta <= isize::MAX,
        ensures
            final(self).wf(),
            Self::h_scroll_by_done(*old(self), *final(self), delta),
    {
        let vw = self.viewport_w;
        let i = self.session.cursor;
        let e = &mut self.session.views[i];
        stream::h_scroll_by(&mut e.state, &e.plan, vw, delta);
        proof {
            lemma_state_change_wf(old(self).session, self.session);
        }
    }

    /// What [`App::toggle_wrap`] promises: `after` is the app once the call has run on
    /// `before`.
    pub open spec fn toggle_wrap_done(before: App, after: App) -> bool {
        &&& only_state_changed(before, after)
        &&& after.st().wrap == !before.st().wrap
        &&& after.st().h_scroll == 0
    }

    /// Toggle line wrap (wrapping resets the horizontal pan).
    pub fn toggle_wrap(&mut self)
        requires
            old(self).wf(),
        ensures
            final(self).wf(),
            Self::toggle_wrap_done(*old(self), *final(self)),
    {
        let i = self.session.cursor;
        stream::toggle_wrap(&mut self.session.views[i].state);
        proof {
            lemma_state_change_wf(old(self).session, self.session);
        }
    }
}

/// Folding a directory and unfolding it again (`z`, `z`) gives back the
/// folds there were, when it was not folded before.
pub proof fn law_fold_then_unfold_restores(before: App, folded: App, after: App, dir: Seq<char>)
    requires
        !before.st().collapsed_v().contains(dir),
        forall|d: Seq<char>| #[trigger] folded.st().collapsed_v().contains(d) == (d == dir || before.st().collapsed_v().contains(d)),
        forall|d: Seq<char>| #[trigger] after.st().collapsed_v().contains(d) == (d != dir && folded.st().collapsed_v().contains(d)),
    ensures
        forall|d: Seq<char>| #[trigger] after.st().collapsed_v().contains(d) == before.st().collapsed_v().contains(d),
{
    assert forall|d: Seq<char>| #[trigger] after.st().collapsed_v().contains(d) == before.st().collapsed_v().contains(d) by {
        assert(folded.st().collapsed_v().contains(d) == (d == dir || before.st().collapsed_v().contains(d)));
    }
}

/// Marking a file reviewed and then unmarking it gives back the marks there
/// were.
pub proof fn law_toggle_mark_twice(v: Seq<bool>, idx: usize)
    ensures
        flipped(flipped(v, idx), idx) == v,
{
    if idx < v.len() {
        assert(flipped(flipped(v, idx), idx) =~= v);
    }
}

/// Toggling the help screen twice gives back the overlay stack there was.
pub proof fn law_toggle_help_twice(before: Mode, shown: Mode, after: Mode)
    requires
        (before.stack().len() > 0 && before.stack().last() is Help) ==> shown.stack() == before.stack().drop_last(),
        !(before.stack().len() > 0 && before.stack().last() is Help) ==> shown.stack() == before.stack().push(Overlay::Help),
        (shown.stack().len() > 0 && shown.stack().last() is Help) ==> after.stack() == shown.stack().drop_last(),
        !(shown.stack().len() > 0 && shown.stack().last() is Help) ==> after.stack() == shown.stack().push(Overlay::Help),
        !(before.stack().len() >= 2 && before.stack()[before.stack().len() - 2] is Help),
    ensures
        after.stack() == before.stack(),
{
    if before.stack().len() > 0 && before.stack().last() is Help {
        assert(shown.stack().push(Overlay::Help) =~= before.stack());
    } else {
        assert(before.stack().push(Overlay::Help).drop_last() =~= before.stack());
    }
}

/// Swapping the focus twice gives back the focus there was.
pub proof fn law_toggle_focus_twice(b0: Base, b1: Base, b2: Base)
    requires
        b1 == match b0 {
            Base::Normal { focus: Focus::Stream } => Base::Normal { focus: Focus::Sidebar },
            Base::Normal { focus: Focus::Sidebar } => Base::Normal { focus: Focus::Stream },
            b => b,
        },
        b2 == match b1 {
            Base::Normal { focus: Focus::Stream } => Base::Normal { focus: Focus::Sidebar },
            Base::Normal { focus: Focus::Sidebar } => Base::Normal { focus: Focus::Stream },
            b => b,
        },
    ensures
        b2 == b0,
{
}

} // verus!
