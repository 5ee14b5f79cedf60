//! The browsing session: the stack of visited views, the active cursor into
//! it, and the state of the background diff load that fills the current
//! view. The worker pool itself lives with the caller; the session decides
//! what to dispatch, installs what comes back, and says what a cancel means.

use vstd::prelude::*;
use crate::model::{Changeset, DiffFile, DiffFileV, FileStatus, LayoutMode, CommitMessage};
use crate::rows::{self, Plan, PlanV, fits, fits_file, starts_ok, spec_build};
use crate::text::{spec_lines, split_lines, strs_v};
use crate::stream;
use crate::view::ViewState;

verus! {

/// What a view shows.
#[derive(Debug)]
pub enum ViewKind {
    /// Working-tree changes.
    Local,
    /// Staged changes.
    Staged,
    /// One commit, by revision.
    Commit(String),
    /// The changes from `base` to `target`.
    Range { target: String, base: String },
}

impl ViewKind {
    /// Local or staged changes (a blue source).
    pub open spec fn spec_is_local(&self) -> bool {
        self is Local || self is Staged
    }

    /// Whether the view shows local or staged changes.
    pub fn is_local(&self) -> (r: bool)
        ensures
            r == self.spec_is_local(),
    {
        match self {
            ViewKind::Local | ViewKind::Staged => true,
            _ => false,
        }
    }
}

/// How a view's diff was asked for.
#[derive(Debug)]
pub enum LoadRequest {
    /// The working tree against `base` (HEAD when absent).
    WorkingTree { include_untracked: bool, base: Option<String> },
    /// The index against HEAD.
    Staged,
    /// One commit against its parent.
    Show { rev: String },
}

/// An enumerated, not yet diffed file.
#[derive(Debug)]
pub struct FileStub {
    pub path: String,
    pub previous_path: Option<String>,
    pub status: FileStatus,
    pub staged: bool,
}

impl FileStub {
    /// The undiffed placeholder file for this stub.
    pub fn as_stub_file(&self) -> (f: DiffFile)
        ensures
            f.path@ == self.path@,
            f.previous_path == self.previous_path,
            f.status == self.status,
            f.staged == self.staged,
            f.hunks@.len() == 0,
            !f.is_binary,
            f.old_text is None,
            f.new_text is None,
            !f.diffed,
    {
        let prev = match &self.previous_path {
            Some(p) => Some(p.clone()),
            None => None,
        };
        DiffFile::stub(self.path.clone(), prev, self.status, self.staged)
    }
}

/// The changeset of undiffed stubs shown while the diffs stream in.
pub fn stub_changeset(source: &str, stubs: &[FileStub]) -> (cs: Changeset)
    ensures
        cs.source@ == source@,
        cs.files@.len() == stubs@.len(),
        forall|i: int|
            0 <= i < stubs@.len() ==> {
                &&& (#[trigger] cs.files@[i]).path@ == stubs@[i].path@
                &&& cs.files@[i].previous_path == stubs@[i].previous_path
                &&& cs.files@[i].status == stubs@[i].status
                &&& cs.files@[i].staged == stubs@[i].staged
                &&& cs.files@[i].hunks@.len() == 0
                &&& !cs.files@[i].diffed
            },
        fits(cs.files_v()),
{
    let mut files: Vec<DiffFile> = Vec::new();
    let mut i: usize = 0;
    while i < stubs.len()
        invariant
            i <= stubs@.len(),
            files@.len() == i,
            forall|j: int|
                0 <= j < i ==> {
                    &&& (#[trigger] files@[j]).path@ == stubs@[j].path@
                    &&& files@[j].previous_path == stubs@[j].previous_path
                    &&& files@[j].status == stubs@[j].status
                    &&& files@[j].staged == stubs@[j].staged
                    &&& files@[j].hunks@.len() == 0
                    &&& !files@[j].diffed
                },
        decreases stubs@.len() - i,
    {
        files.push(stubs[i].as_stub_file());
        i = i + 1;
    }
    let cs = Changeset { source: source.to_string(), files };
    assert forall|k: int| 0 <= k < cs.files_v().len() implies fits_file(#[trigger] cs.files_v()[k]) by {
        assert(cs.files_v()[k].hunks.len() == 0);
    }
    cs
}

/// One entry of the view stack: what it shows, its changeset, and its live
/// navigation state and row plan.
#[derive(Debug)]
pub struct ViewEntry {
    pub kind: ViewKind,
    pub cs: Changeset,
    /// The base revision a local view diffs against, if not HEAD.
    pub base: Option<String>,
    pub req: Option<LoadRequest>,
    /// The enumerated files, parallel to `cs.files`; fixed for the view's life.
    pub stubs: Vec<FileStub>,
    pub state: ViewState,
    pub plan: Plan,
    /// Whether the view is a review session (viewed-tracking active).
    pub review: bool,
    /// Commit-message lines shown above the first file.
    pub banner: Vec<String>,
}

impl ViewEntry {
    /// The entry's shape: its files fit the plan's arithmetic and its plan's
    /// file starts are strictly increasing rows.
    pub open spec fn wf(&self) -> bool {
        &&& fits(self.cs.files_v())
        &&& starts_ok(self.plan@)
    }
}

/// How the active diff load came to be, which decides what a cancel does.
#[derive(Clone, Copy, PartialEq, Eq, Debug, Structural)]
pub enum LoadKind {
    /// The initial load at startup.
    Launch,
    /// A commit or range view just pushed onto the stack.
    Push,
    /// An existing view's leftover diffs, restarted after switching back to it.
    Resume,
}

/// What a cancelled load asks the app to do next.
#[derive(Clone, Copy, PartialEq, Eq, Debug, Structural)]
pub enum LoadCancel {
    /// The launch load was cancelled: quit.
    Quit,
    /// A freshly pushed view was abandoned: the cursor moved back.
    PoppedView,
    /// A resumed load was stopped: stay on the current view.
    Stopped,
}

/// Progress of the background load: files diffed so far and files dispatched.
#[derive(Clone, Copy, PartialEq, Eq, Debug, Structural)]
pub struct LoadStatus {
    pub done: usize,
    pub total: usize,
}

/// The browsing session.
#[derive(Debug)]
pub struct Session {
    /// Browser-style stack of visited views.
    pub views: Vec<ViewEntry>,
    /// The active view in the stack.
    pub cursor: usize,
    /// Repository directory, for loading commits and ranges at runtime.
    pub repo_dir: Option<String>,
    /// The background diff load for the current view, while one streams.
    pub loader: Option<LoadStatus>,
    /// When the active load started, in milliseconds of the caller's clock.
    pub load_started_ms: Option<u64>,
    /// What kind of load is active.
    pub load_kind: LoadKind,
}

impl Session {
    /// The session's shape: the cursor points into the stack, and every entry
    /// is well formed.
    pub open spec fn wf(&self) -> bool {
        &&& self.cursor < self.views@.len()
        &&& forall|i: int| 0 <= i < self.views@.len() ==> (#[trigger] self.views@[i]).wf()
    }

    /// The active entry.
    pub open spec fn cur(&self) -> ViewEntry {
        self.views@[self.cursor as int]
    }

    /// The current view's changeset.
    pub fn cs(&self) -> (r: &Changeset)
        requires
            self.wf(),
        ensures
            *r == self.cur().cs,
    {
        &self.views[self.cursor].cs
    }

    /// The current view's row plan.
    pub fn plan(&self) -> (r: &Plan)
        requires
            self.wf(),
        ensures
            *r == self.cur().plan,
    {
        &self.views[self.cursor].plan
    }

    /// The current view's live navigation state.
    pub fn state(&self) -> (r: &ViewState)
        requires
            self.wf(),
        ensures
            *r == self.cur().state,
    {
        &self.views[self.cursor].state
    }

    /// Whether the current view is a review session.
    pub fn is_review(&self) -> (r: bool)
        requires
            self.wf(),
        ensures
            r == self.cur().review,
    {
        self.views[self.cursor].review
    }

    /// The current view kind.
    pub fn kind(&self) -> (r: &ViewKind)
        requires
            self.wf(),
        ensures
            *r == self.cur().kind,
    {
        &self.views[self.cursor].kind
    }

    /// Whether the current view shows local or staged changes.
    pub fn source_is_local(&self) -> (r: bool)
        requires
            self.wf(),
        ensures
            r == self.cur().kind.spec_is_local(),
    {
        self.kind().is_local()
    }

    /// Whether the home (launch) view is a review or shows local changes.
    pub fn home_reviewable(&self) -> (r: bool)
        ensures
            r == (self.views@.len() > 0 && (self.views@[0].review
                || self.views@[0].kind.spec_is_local())),
    {
        if self.views.len() == 0 {
            false
        } else {
            self.views[0].review || self.views[0].kind.is_local()
        }
    }

    /// Rows in the current plan.
    pub fn total_rows(&self) -> (n: usize)
        requires
            self.wf(),
        ensures
            n == self.cur().plan@.rows.len(),
    {
        self.plan().rows.len()
    }

    /// Row of the header of the file at `Changeset::files` index `idx`, if
    /// that file is visible.
    pub fn file_start(&self, idx: usize) -> (r: Option<usize>)
        requires
            self.wf(),
        ensures
            r == rows::spec_file_start_of(self.cur().plan@, idx),
    {
        rows::file_start_of(self.plan(), idx)
    }

    /// Index of the file at the top of the viewport.
    pub fn current_file(&self) -> (r: usize)
        requires
            self.wf(),
        ensures
            r == stream::spec_file_of_row(self.cur().plan@, self.cur().state.scroll),
    {
        proof {
            assert(self.cur().wf());
        }
        stream::current_file(self.state(), self.plan())
    }

    /// The file the viewed actions apply to: the selected one.
    pub fn active_file(&self) -> (r: usize)
        requires
            self.wf(),
        ensures
            r == self.cur().state.selected,
    {
        self.state().selected
    }

    /// Whether a background diff load is in progress.
    pub fn loading(&self) -> (r: bool)
        ensures
            r == self.loader is Some,
    {
        self.loader.is_some()
    }

    /// Whether to show progress chrome at `now_ms`: a load is active and has
    /// run for at least the delay (so fast loads stay indicator-free).
    pub fn show_progress(&self, now_ms: u64) -> (r: bool)
        ensures
            r == (self.loader is Some && (self.load_started_ms matches Some(t) && t <= now_ms
                && now_ms - t >= crate::types::LOAD_PROGRESS_DELAY_MS)),
    {
        match (self.loader, self.load_started_ms) {
            (Some(_), Some(t)) => t <= now_ms && now_ms - t >= crate::types::LOAD_PROGRESS_DELAY_MS,
            _ => false,
        }
    }

    /// Progress as `(done, total)` for the active load, zero and zero when idle.
    pub fn load_progress(&self) -> (r: (usize, usize))
        ensures
            r == (match self.loader {
                Some(l) => (l.done, l.total),
                None => (0usize, 0usize),
            }),
    {
        match self.loader {
            Some(l) => (l.done, l.total),
            None => (0, 0),
        }
    }
}


/// The folds a plan is built with: the view's folded directories in the
/// grouped view, none in the flat one.
pub open spec fn folds(e: ViewEntry, grouped: bool) -> Seq<Seq<char>> {
    if grouped {
        e.state.collapsed_v()
    } else {
        Seq::empty()
    }
}

/// Two entries that differ at most in their changeset's files, their plan,
/// and their view state's scroll, horizontal scroll and line cursor.
pub open spec fn same_but_layout(a: ViewEntry, b: ViewEntry) -> bool {
    &&& a.kind == b.kind
    &&& a.cs.source == b.cs.source
    &&& a.base == b.base
    &&& a.req == b.req
    &&& a.stubs == b.stubs
    &&& a.review == b.review
    &&& a.banner == b.banner
    &&& a.state.wrap == b.state.wrap
    &&& a.state.selected == b.state.selected
    &&& a.state.selected_dir == b.state.selected_dir
    &&& a.state.reveal_selected == b.state.reveal_selected
    &&& a.state.viewed == b.state.viewed
    &&& a.state.collapsed == b.state.collapsed
}

/// The viewport top after re-anchoring `scroll` from plan `old` into plan
/// `new`, before clamping: the offset within the file at the top is kept
/// when that file is visible in both plans (saturating at the top of the
/// address range), else the scroll is unchanged.
pub open spec fn reanchored_scroll(old: PlanV, scroll: usize, new: PlanV) -> int {
    let anchor = stream::spec_file_of_row(old, scroll);
    match (rows::spec_file_start_of(old, anchor), rows::spec_file_start_of(new, anchor)) {
        (Some(o), Some(n)) => stream::min_int(
            stream::spec_reanchored(scroll as int, o as int, n as int),
            usize::MAX as int,
        ),
        _ => scroll as int,
    }
}

/// `after` is `before` laid out again for `layout` over `after`'s files: its
/// plan is the freshly built one, the line cursor is back on the content it
/// was on, and the viewport keeps its place in the file at its top, then is
/// clamped into the new plan for a `viewport_h` by `viewport_w` viewport.
pub open spec fn relaid(
    before: ViewEntry,
    after: ViewEntry,
    layout: LayoutMode,
    grouped: bool,
    viewport_h: usize,
    viewport_w: usize,
) -> bool {
    let p = spec_build(
        after.cs.files_v(),
        before.state.viewed@,
        layout,
        folds(before, grouped),
        strs_v(before.banner@),
    );
    let row = rows::spec_restore(
        p,
        rows::spec_capture(before.plan@, before.state.cursor_row),
        after.cs.files_v(),
    );
    &&& same_but_layout(before, after)
    &&& after.plan@ == p
    &&& after.state.cursor_row == row
    &&& after.state.scroll == stream::spec_clamp_scroll(
        reanchored_scroll(before.plan@, before.state.scroll, p),
        row,
        p,
        stream::spec_usable(p, viewport_h),
    )
    &&& after.state.h_scroll == stream::min_int(
        before.state.h_scroll as int,
        stream::spec_max_h_scroll(p, viewport_w),
    )
}

impl Session {
    /// The other views, the cursor and the load state are as they were.
    pub open spec fn only_current_changed(&self, before: &Session) -> bool {
        &&& self.cursor == before.cursor
        &&& self.views@.len() == before.views@.len()
        &&& forall|i: int|
            0 <= i < self.views@.len() && i != self.cursor ==> #[trigger] self.views@[i]
                == before.views@[i]
        &&& self.repo_dir == before.repo_dir
        &&& self.loader == before.loader
        &&& self.load_started_ms == before.load_started_ms
        &&& self.load_kind == before.load_kind
    }

    /// Rebuild the current view's plan for `layout` and put the line cursor
    /// back on the same content: the same line, the same folded directory,
    /// or the same offset within the same file.
    pub fn build_plan(&mut self, layout: LayoutMode, grouped: bool)
        requires
            old(self).wf(),
        ensures
            final(self).wf(),
            final(self).only_current_changed(&*old(self)),
            same_but_layout(old(self).cur(), final(self).cur()),
            final(self).cur().cs == old(self).cur().cs,
            final(self).cur().plan@ == spec_build(
                old(self).cur().cs.files_v(),
                old(self).cur().state.viewed@,
                layout,
                folds(old(self).cur(), grouped),
                strs_v(old(self).cur().banner@),
            ),
            final(self).cur().state.cursor_row == rows::spec_restore(
                final(self).cur().plan@,
                rows::spec_capture(old(self).cur().plan@, old(self).cur().state.cursor_row),
                old(self).cur().cs.files_v(),
            ),
            final(self).cur().state.scroll == old(self).cur().state.scroll,
            final(self).cur().state.h_scroll == old(self).cur().state.h_scroll,
    {
        let i = self.cursor;
        proof {
            assert(self.views@[i as int].wf());
        }
        let anchor = rows::capture_cursor(&self.views[i].plan, self.views[i].state.cursor_row);
        let empty: Vec<String> = Vec::new();
        let plan = {
            let e = &self.views[i];
            let collapsed = if grouped {
                e.state.collapsed.as_slice()
            } else {
                empty.as_slice()
            };
            proof {
                assert(strs_v(empty@) =~= Seq::<Seq<char>>::empty());
                assert(strs_v(collapsed@) == folds(*e, grouped));
            }
            Plan::build_with_banner(
                &e.cs,
                e.state.viewed.as_slice(),
                layout,
                collapsed,
                e.banner.as_slice(),
            )
        };
        let row = rows::restore_cursor(&plan, &anchor, &self.views[i].cs);
        let e = &mut self.views[i];
        e.plan = plan;
        e.state.cursor_row = row;
    }

    /// Rebuild the current view's plan, keeping the viewport at the same
    /// offset within the file at its top (when that file is visible in both
    /// plans), then clamp the view into the new plan.
    #[verifier::spinoff_prover]
    #[verifier::rlimit(40)]
    pub fn rebuild_plan(&mut self, layout: LayoutMode, grouped: bool, viewport_h: usize, viewport_w: usize)
        requires
            old(self).wf(),
        ensures
            final(self).wf(),
            final(self).only_current_changed(&*old(self)),
            final(self).cur().cs == old(self).cur().cs,
            relaid(old(self).cur(), final(self).cur(), layout, grouped, viewport_h, viewport_w),
    {
        let anchor = self.current_file();
        let old_start = self.file_start(anchor);
        let scroll = self.state().scroll;
        self.build_plan(layout, grouped);
        let new_start = self.file_start(anchor);
        let i = self.cursor;
        match (old_start, new_start) {
            (Some(o), Some(n)) => {
                let r = if scroll < o {
                    scroll
                } else {
                    n.saturating_add(scroll - o)
                };
                self.views[i].state.scroll = r;
            },
            _ => {},
        }
        proof {
            assert(self.views@[i as int].wf());
        }
        let e = &mut self.views[i];
        let usable = stream::usable(&e.plan, viewport_h);
        stream::clamp(&mut e.state, &e.plan, usable, viewport_w);
    }

    /// Push a new view after the current one, dropping any forward history
    /// (browser semantics), and make it current. Its state starts fresh,
    /// nothing reviewed, and its plan is laid out with `banner` on top.
    pub fn push_entry(
        &mut self,
        kind: ViewKind,
        cs: Changeset,
        base: Option<String>,
        req: Option<LoadRequest>,
        review: bool,
        layout: LayoutMode,
        banner: Vec<String>,
    )
        requires
            old(self).wf(),
            fits(cs.files_v()),
        ensures
            final(self).wf(),
            pushed(*old(self), *final(self)),
            final(self).cur().kind == kind,
            final(self).cur().cs == cs,
            final(self).cur().base == base,
            final(self).cur().req == req,
            final(self).cur().stubs@.len() == 0,
            final(self).cur().review == review,
            final(self).cur().banner == banner,
            final(self).cur().state.viewed@ == Seq::new(cs.files@.len(), |i: int| false),
            final(self).cur().state.scroll == 0,
            final(self).cur().state.h_scroll == 0,
            final(self).cur().state.cursor_row == 0,
            !final(self).cur().state.wrap,
            final(self).cur().state.selected == 0,
            final(self).cur().state.selected_dir is None,
            !final(self).cur().state.reveal_selected,
            final(self).cur().state.collapsed@.len() == 0,
            final(self).cur().plan@ == spec_build(
                cs.files_v(),
                Seq::new(cs.files@.len(), |i: int| false),
                layout,
                Seq::empty(),
                strs_v(banner@),
            ),
            final(self).repo_dir == old(self).repo_dir,
            final(self).loader == old(self).loader,
            final(self).load_started_ms == old(self).load_started_ms,
            final(self).load_kind == old(self).load_kind,
    {
        let len = self.views.len();
        assert(self.cursor < len);
        self.views.truncate(self.cursor + 1);
        let viewed = vec![false; cs.files.len()];
        assert(viewed@ =~= Seq::new(cs.files@.len(), |i: int| false));
        let none: Vec<String> = Vec::new();
        assert(strs_v(none@) =~= Seq::<Seq<char>>::empty());
        let plan = Plan::build_with_banner(&cs, viewed.as_slice(), layout, none.as_slice(), banner.as_slice());
        let mut state = ViewState::new();
        state.viewed = viewed;
        self.views.push(
            ViewEntry { kind, cs, base, req, stubs: Vec::new(), state, plan, review, banner },
        );
        self.cursor = self.views.len() - 1;
        assert forall|i: int| 0 <= i < self.views@.len() implies (#[trigger] self.views@[i]).wf() by {
            if i < self.cursor {
                assert(self.views@[i] == old(self).views@[i]);
                assert(old(self).views@[i].wf());
            }
        }
    }

    /// Promote the current browse view into a review session: nothing is
    /// reviewed yet. A view that already is one is left alone.
    pub fn promote_review(&mut self)
        requires
            old(self).wf(),
        ensures
            final(self).wf(),
            final(self).only_current_changed(&*old(self)),
            final(self).cur().review,
            old(self).cur().review ==> final(self).cur() == old(self).cur(),
            !old(self).cur().review ==> {
                &&& final(self).cur().state.viewed@ == Seq::new(
                    old(self).cur().cs.files@.len(),
                    |i: int| false,
                )
                &&& final(self).cur() == (ViewEntry {
                    review: true,
                    state: ViewState { viewed: final(self).cur().state.viewed, ..old(self).cur().state },
                    ..old(self).cur()
                })
            },
    {
        let i = self.cursor;
        if !self.views[i].review {
            let n = self.views[i].cs.files.len();
            let viewed = vec![false; n];
            assert(viewed@ =~= Seq::new(n as nat, |i: int| false));
            let e = &mut self.views[i];
            e.review = true;
            e.state.viewed = viewed;
        }
        proof {
            assert(self.views@[i as int].wf()) by {
                assert(old(self).views@[i as int].wf());
            }
        }
    }

    /// Keep the reviewed marks sized to the file set (truncating, or padding
    /// with unreviewed) and ask the sidebar to reveal the selection.
    pub fn resize_and_reveal(&mut self)
        requires
            old(self).wf(),
        ensures
            final(self).wf(),
            final(self).only_current_changed(&*old(self)),
            final(self).cur().state.viewed@ == resized_marks(
                old(self).cur().state.viewed@,
                old(self).cur().cs.files@.len(),
            ),
            final(self).cur() == (ViewEntry {
                state: ViewState {
                    viewed: final(self).cur().state.viewed,
                    reveal_selected: true,
                    ..old(self).cur().state
                },
                ..old(self).cur()
            }),
    {
        let i = self.cursor;
        let n = self.views[i].cs.files.len();
        let e = &mut self.views[i];
        let ghost v = e.state.viewed@;
        if e.state.viewed.len() != n {
            e.state.viewed.resize(n, false);
        }
        proof {
            if v.len() < n {
                assert(e.state.viewed@ =~= v + Seq::new((n - v.len()) as nat, |i: int| false));
            } else {
                assert(e.state.viewed@ =~= v.take(n as int));
            }
        }
        e.state.reveal_selected = true;
        proof {
            assert(self.views@[i as int].wf()) by {
                assert(old(self).views@[i as int].wf());
            }
        }
    }

    /// Nothing is loading.
    pub open spec fn idle(&self) -> bool {
        &&& self.loader is None
        &&& self.load_started_ms is None
        &&& self.load_kind == LoadKind::Launch
    }

    /// Start (or resume) the load for the current view: the jobs to dispatch
    /// are exactly the stubs whose file is not yet diffed, at their original
    /// indices. Nothing starts without a repository or without such a stub.
    fn start_load_undiffed(&mut self, kind: LoadKind, now_ms: u64) -> (jobs: Vec<(usize, FileStub)>)
        requires
            old(self).wf(),
        ensures
            final(self).wf(),
            final(self).views == old(self).views,
            final(self).cursor == old(self).cursor,
            final(self).repo_dir == old(self).repo_dir,
            old(self).repo_dir is None ==> jobs@.len() == 0,
            old(self).repo_dir is Some ==> jobs@ == undiffed_jobs(
                old(self).cur().cs.files@,
                old(self).cur().stubs@,
                old(self).cur().cs.files@.len() as int,
            ),
            jobs@.len() == 0 ==> {
                &&& final(self).loader == old(self).loader
                &&& final(self).load_started_ms == old(self).load_started_ms
                &&& final(self).load_kind == old(self).load_kind
            },
            jobs@.len() > 0 ==> {
                &&& final(self).loader == Some(LoadStatus { done: 0, total: jobs@.len() as usize })
                &&& final(self).load_started_ms == Some(now_ms)
                &&& final(self).load_kind == kind
            },
    {
        let mut jobs: Vec<(usize, FileStub)> = Vec::new();
        if self.repo_dir.is_none() {
            return jobs;
        }
        let e = &self.views[self.cursor];
        let mut i: usize = 0;
        while i < e.cs.files.len()
            invariant
                i <= e.cs.files@.len(),
                jobs@ == undiffed_jobs(e.cs.files@, e.stubs@, i as int),
            decreases e.cs.files@.len() - i,
        {
            if !e.cs.files[i].diffed && i < e.stubs.len() {
                jobs.push((i, copy_stub(&e.stubs[i])));
            }
            i = i + 1;
        }
        if jobs.len() == 0 {
            return jobs;
        }
        self.load_kind = kind;
        self.load_started_ms = Some(now_ms);
        self.loader = Some(LoadStatus { done: 0, total: jobs.len() });
        jobs
    }

    /// Begin the initial load of the current view: record its enumerated
    /// `stubs` (fixing the view's file set for its lifetime) and dispatch
    /// every undiffed file. A switch to a freshly pushed view is a `Push`
    /// load, the startup one a `Launch` load.
    pub fn begin_load(&mut self, stubs: Vec<FileStub>, is_switch: bool, now_ms: u64) -> (jobs: Vec<(usize, FileStub)>)
        requires
            old(self).wf(),
        ensures
            final(self).wf(),
            began(*old(self), *final(self), stubs, is_switch, now_ms, jobs@),
    {
        let i = self.cursor;
        self.views[i].stubs = stubs;
        proof {
            assert(self.views@[i as int].wf()) by {
                assert(old(self).views@[i as int].wf());
            }
        }
        let kind = if is_switch {
            LoadKind::Push
        } else {
            LoadKind::Launch
        };
        self.start_load_undiffed(kind, now_ms)
    }

    /// Resume a load abandoned by switching away: re-dispatch only the files
    /// still undiffed, at their original indices. A no-op while loading.
    pub fn resume_load_if_stale(&mut self, now_ms: u64) -> (jobs: Vec<(usize, FileStub)>)
        requires
            old(self).wf(),
        ensures
            final(self).wf(),
            final(self).views == old(self).views,
            final(self).cursor == old(self).cursor,
            final(self).repo_dir == old(self).repo_dir,
            (old(self).loader is Some || old(self).repo_dir is None) ==> jobs@.len() == 0,
            (old(self).loader is None && old(self).repo_dir is Some) ==> jobs@ == undiffed_jobs(
                old(self).cur().cs.files@,
                old(self).cur().stubs@,
                old(self).cur().cs.files@.len() as int,
            ),
            jobs@.len() == 0 ==> {
                &&& final(self).loader == old(self).loader
                &&& final(self).load_started_ms == old(self).load_started_ms
                &&& final(self).load_kind == old(self).load_kind
            },
            jobs@.len() > 0 ==> {
                &&& final(self).loader == Some(LoadStatus { done: 0, total: jobs@.len() as usize })
                &&& final(self).load_started_ms == Some(now_ms)
                &&& final(self).load_kind == LoadKind::Resume
            },
    {
        if self.loader.is_some() {
            return Vec::new();
        }
        self.start_load_undiffed(LoadKind::Resume, now_ms)
    }

    /// Install a drained batch of finished diffs into the current view's
    /// changeset and relay the view out once for the batch; `finished` says
    /// the load has nothing more to send. Returns whether anything changed.
    pub fn drain_loader(
        &mut self,
        batch: Vec<(usize, DiffFile)>,
        finished: bool,
        layout: LayoutMode,
        grouped: bool,
        viewport_h: usize,
        viewport_w: usize,
    ) -> (changed: bool)
        requires
            old(self).wf(),
            forall|k: int| 0 <= k < batch@.len() ==> fits_file((#[trigger] batch@[k]).1@),
        ensures
            final(self).wf(),
            drained(*old(self), *final(self), batch@, finished, layout, grouped, viewport_h, viewport_w, changed),
    {
        let status = match self.loader {
            Some(l) => l,
            None => {
                return false;
            },
        };
        if batch.len() == 0 {
            if finished {
                self.clear_load();
                return true;
            }
            return false;
        }
        let n = batch.len();
        let i = self.cursor;
        let ghost files0 = self.views@[i as int].cs.files@;
        let ghost b = batch@;
        proof {
            assert(self.views@[i as int].wf());
        }
        for item in iter: batch.into_iter()
            invariant
                i == self.cursor,
                i < self.views@.len(),
                self.views@.len() == old(self).views@.len(),
                forall|j: int|
                    0 <= j < self.views@.len() && j != i ==> #[trigger] self.views@[j] == old(self).views@[j],
                self.views@[i as int] == (ViewEntry {
                    cs: Changeset {
                        files: self.views@[i as int].cs.files,
                        ..old(self).views@[i as int].cs
                    },
                    ..old(self).views@[i as int]
                }),
                self.views@[i as int].cs.files@ == installed(files0, b.take(iter.index() as int)),
                *self == (Session { views: self.views, ..*old(self) }),
                iter.seq() == b,
        {
            let ghost k = iter.index() as int;
            assert(item == iter.seq()[k]);
            let ghost before = self.views@[i as int].cs.files@;
            let (idx, file) = item;
            if idx < self.views[i].cs.files.len() {
                self.views[i].cs.files[idx] = file;
            }
            proof {
                assert(b.take(k + 1).drop_last() =~= b.take(k));
                assert(b.take(k + 1).last() == item);
                lemma_installed_len(files0, b.take(k));
            }
        }
        assert(b.take(b.len() as int) =~= b);
        proof {
            let fs = self.views@[i as int].cs.files@;
            lemma_installed_len(files0, b);
            assert(old(self).views@[i as int].wf());
            assert forall|j: int| 0 <= j < fs.len() implies fits_file(
                #[trigger] self.views@[i as int].cs.files_v()[j],
            ) by {
                lemma_installed_from(files0, b, j);
                if fs[j] != files0[j] {
                    let k = choose|k: int| 0 <= k < b.len() && #[trigger] b[k].1 == fs[j];
                    assert(fits_file(b[k].1@));
                } else {
                    assert(old(self).views@[i as int].cs.files_v()[j] == files0[j]@);
                }
            }
            assert forall|j: int| 0 <= j < self.views@.len() implies (#[trigger] self.views@[j]).wf() by {
                assert(old(self).views@[j].wf());
            }
        }
        self.rebuild_plan(layout, grouped, viewport_h, viewport_w);
        if finished {
            self.clear_load();
        } else {
            self.loader = Some(LoadStatus { done: status.done.saturating_add(n), total: status.total });
        }
        true
    }

    /// Drop the load state (the completed diffs already live in the view).
    pub fn clear_load(&mut self)
        ensures
            final(self).idle(),
            final(self).views == old(self).views,
            final(self).cursor == old(self).cursor,
            final(self).repo_dir == old(self).repo_dir,
    {
        self.loader = None;
        self.load_started_ms = None;
        self.load_kind = LoadKind::Launch;
    }

    /// Cancel the load and say what should happen next: a freshly pushed
    /// view is popped, the launch load quits, and a resumed load (or a push
    /// at the root) merely stops.
    pub fn cancel_load(&mut self) -> (r: LoadCancel)
        requires
            old(self).wf(),
        ensures
            final(self).wf(),
            final(self).idle(),
            final(self).repo_dir == old(self).repo_dir,
            cancelled(*old(self), *final(self), r),
    {
        self.loader = None;
        self.load_started_ms = None;
        let kind = self.load_kind;
        self.load_kind = LoadKind::Launch;
        match kind {
            LoadKind::Push => {
                if self.cursor > 0 {
                    self.views.truncate(self.cursor);
                    self.cursor = self.cursor - 1;
                    LoadCancel::PoppedView
                } else {
                    LoadCancel::Stopped
                }
            },
            LoadKind::Launch => LoadCancel::Quit,
            LoadKind::Resume => LoadCancel::Stopped,
        }
    }
}

/// `after` is `before` with the load of its current view begun from
/// `stubs` (which become the view's file set): with a repository, the jobs
/// are exactly the undiffed files that have a stub, and a load of them is
/// under way (a `Push` load for a switch, else the `Launch` one) when there
/// is any.
pub open spec fn began(
    before: Session,
    after: Session,
    stubs: Vec<FileStub>,
    is_switch: bool,
    now_ms: u64,
    jobs: Seq<(usize, FileStub)>,
) -> bool {
    &&& after.cursor == before.cursor
    &&& after.views@.len() == before.views@.len()
    &&& forall|i: int|
        0 <= i < before.views@.len() && i != before.cursor ==> #[trigger] after.views@[i] == before.views@[i]
    &&& after.cur() == (ViewEntry { stubs: stubs, ..before.cur() })
    &&& after.repo_dir == before.repo_dir
    &&& before.repo_dir is None ==> jobs.len() == 0
    &&& before.repo_dir is Some ==> jobs == undiffed_jobs(
        before.cur().cs.files@,
        stubs@,
        before.cur().cs.files@.len() as int,
    )
    &&& jobs.len() == 0 ==> {
        &&& after.loader == before.loader
        &&& after.load_started_ms == before.load_started_ms
        &&& after.load_kind == before.load_kind
    }
    &&& jobs.len() > 0 ==> {
        &&& after.loader == Some(LoadStatus { done: 0, total: jobs.len() as usize })
        &&& after.load_started_ms == Some(now_ms)
        &&& after.load_kind == if is_switch {
            LoadKind::Push
        } else {
            LoadKind::Launch
        }
    }
}

/// `after` is `before` once a drained `batch` of finished diffs (and whether
/// the load is `finished`) was taken in: nothing happens without a load; an
/// empty batch only ends a finished load; otherwise the batch is installed,
/// the view laid out once again, and the progress counted.
pub open spec fn drained(
    before: Session,
    after: Session,
    batch: Seq<(usize, DiffFile)>,
    finished: bool,
    layout: LayoutMode,
    grouped: bool,
    viewport_h: usize,
    viewport_w: usize,
    changed: bool,
) -> bool {
    &&& before.loader is None ==> !changed && after == before
    &&& (before.loader is Some && batch.len() == 0) ==> {
        &&& changed == finished
        &&& finished ==> after.idle()
        &&& !finished ==> after == before
        &&& after.views == before.views
        &&& after.cursor == before.cursor
        &&& after.repo_dir == before.repo_dir
    }
    &&& (before.loader is Some && batch.len() > 0) ==> {
        &&& changed
        &&& after.cursor == before.cursor
        &&& after.views@.len() == before.views@.len()
        &&& forall|i: int|
            0 <= i < after.views@.len() && i != after.cursor ==> #[trigger] after.views@[i] == before.views@[i]
        &&& after.repo_dir == before.repo_dir
        &&& after.cur().cs.files@ == installed(before.cur().cs.files@, batch)
        &&& relaid(before.cur(), after.cur(), layout, grouped, viewport_h, viewport_w)
        &&& finished ==> after.idle()
        &&& !finished ==> {
            &&& after.loader == Some(LoadStatus {
                done: before.loader->0.done.saturating_add(batch.len() as usize),
                total: before.loader->0.total,
            })
            &&& after.load_started_ms == before.load_started_ms
            &&& after.load_kind == before.load_kind
        }
    }
}

/// Marks kept in step with `n` files: cut to `n`, or padded with unreviewed.
pub open spec fn resized_marks(v: Seq<bool>, n: nat) -> Seq<bool> {
    if v.len() >= n {
        v.take(n as int)
    } else {
        v + Seq::new((n - v.len()) as nat, |i: int| false)
    }
}

/// Two entries show the same thing the same way: the same kind, changeset,
/// base, request, stubs, review flag and banner.
pub open spec fn same_content(a: ViewEntry, b: ViewEntry) -> bool {
    &&& a.kind == b.kind
    &&& a.cs == b.cs
    &&& a.base == b.base
    &&& a.req == b.req
    &&& a.stubs == b.stubs
    &&& a.review == b.review
    &&& a.banner == b.banner
}

/// The files after installing a batch of `(index, file)` results in order;
/// a result whose index is past the files is dropped.
pub open spec fn installed(files: Seq<DiffFile>, batch: Seq<(usize, DiffFile)>) -> Seq<DiffFile>
    decreases batch.len(),
{
    if batch.len() == 0 {
        files
    } else {
        let prev = installed(files, batch.drop_last());
        let (idx, f) = batch.last();
        if idx < prev.len() {
            prev.update(idx as int, f)
        } else {
            prev
        }
    }
}

/// Installing never changes how many files there are.
pub proof fn lemma_installed_len(files: Seq<DiffFile>, batch: Seq<(usize, DiffFile)>)
    ensures
        installed(files, batch).len() == files.len(),
    decreases batch.len(),
{
    if batch.len() > 0 {
        lemma_installed_len(files, batch.drop_last());
    }
}

/// Every installed file is an original file or one of the batch's.
pub proof fn lemma_installed_from(files: Seq<DiffFile>, batch: Seq<(usize, DiffFile)>, i: int)
    requires
        0 <= i < files.len(),
    ensures
        installed(files, batch)[i] == files[i] || exists|k: int| 0 <= k < batch.len() && #[trigger] batch[k].1 == installed(files, batch)[i],
    decreases batch.len(),
{
    if batch.len() > 0 {
        lemma_installed_len(files, batch.drop_last());
        lemma_installed_from(files, batch.drop_last(), i);
        let prev = installed(files, batch.drop_last());
        if prev[i] != files[i] {
            let k = choose|k: int| 0 <= k < batch.drop_last().len() && #[trigger] batch.drop_last()[k].1 == prev[i];
            assert(batch[k].1 == batch.drop_last()[k].1);
        }
        if batch.last().0 == i {
            assert(batch[batch.len() - 1].1 == installed(files, batch)[i]);
        }
    }
}

/// `after` is `before` with one view pushed after the current one: any
/// forward history is gone and the new view is current.
pub open spec fn pushed(before: Session, after: Session) -> bool {
    &&& after.cursor == before.cursor + 1
    &&& after.views@.len() == before.cursor + 2
    &&& forall|i: int| 0 <= i <= before.cursor ==> #[trigger] after.views@[i] == before.views@[i]
}

/// What cancelling a load of `kind` with the cursor at `cursor` answers.
pub open spec fn cancel_outcome(kind: LoadKind, cursor: usize) -> LoadCancel {
    match kind {
        LoadKind::Push => if cursor > 0 {
            LoadCancel::PoppedView
        } else {
            LoadCancel::Stopped
        },
        LoadKind::Launch => LoadCancel::Quit,
        LoadKind::Resume => LoadCancel::Stopped,
    }
}

/// `after` is `before` with its load cancelled, answering `r`: a popped
/// view moves the cursor back and drops the views from the cancelled one on.
pub open spec fn cancelled(before: Session, after: Session, r: LoadCancel) -> bool {
    &&& r == cancel_outcome(before.load_kind, before.cursor)
    &&& after.idle()
    &&& after.repo_dir == before.repo_dir
    &&& r == LoadCancel::PoppedView ==> {
        &&& after.cursor == before.cursor - 1
        &&& after.views@ == before.views@.take(before.cursor as int)
    }
    &&& r != LoadCancel::PoppedView ==> {
        &&& after.cursor == before.cursor
        &&& after.views == before.views
    }
}

/// Cancelling the load of a freshly pushed view goes back to the view it was
/// pushed from, with that view's forward history gone and nothing loading.
pub proof fn law_cancel_push_returns(before: Session, pushed_s: Session, after: Session, r: LoadCancel)
    requires
        before.wf(),
        pushed(before, pushed_s),
        pushed_s.load_kind == LoadKind::Push,
        cancelled(pushed_s, after, r),
    ensures
        r == LoadCancel::PoppedView,
        after.cursor == before.cursor,
        after.views@ == before.views@.take(before.cursor + 1),
        after.idle(),
{
    assert(after.views@ =~= before.views@.take(before.cursor + 1));
}

/// The stubs to dispatch among the first `k` files: each undiffed file that
/// has a stub, paired with its index.
pub open spec fn undiffed_jobs(files: Seq<DiffFile>, stubs: Seq<FileStub>, k: int) -> Seq<(usize, FileStub)>
    decreases k,
{
    if k <= 0 {
        Seq::empty()
    } else {
        let prev = undiffed_jobs(files, stubs, k - 1);
        if !files[k - 1].diffed && k - 1 < stubs.len() {
            prev.push(((k - 1) as usize, stubs[k - 1]))
        } else {
            prev
        }
    }
}

/// A copy of a stub.
fn copy_stub(s: &FileStub) -> (r: FileStub)
    ensures
        r == *s,
{
    let previous_path = match &s.previous_path {
        Some(p) => Some(p.clone()),
        None => None,
    };
    FileStub { path: s.path.clone(), previous_path, status: s.status, staged: s.staged }
}

/// The commit-message banner for a fetched message: the identity line, then,
/// when there is a body, a blank separator and the body's lines.
pub open spec fn spec_banner_lines(msg: CommitMessage) -> Seq<Seq<char>> {
    seq![msg.spec_identity()] + if msg.body@.len() == 0 {
        Seq::empty()
    } else {
        seq![Seq::<char>::empty()] + spec_lines(msg.body@)
    }
}

/// Format a fetched commit message as banner lines.
pub fn banner_lines(msg: &CommitMessage) -> (out: Vec<String>)
    ensures
        strs_v(out@) == spec_banner_lines(*msg),
{
    let mut out: Vec<String> = Vec::new();
    out.push(msg.identity());
    if msg.body.unicode_len() > 0 {
        out.push(String::new());
        let lines = split_lines(msg.body.as_str());
        let mut i: usize = 0;
        while i < lines.len()
            invariant
                i <= lines@.len(),
                strs_v(out@) == seq![msg.spec_identity(), Seq::<char>::empty()] + strs_v(lines@).take(i as int),
            decreases lines@.len() - i,
        {
            let ghost before = strs_v(out@);
            out.push(lines[i].clone());
            assert(strs_v(out@) =~= before.push(lines@[i as int]@));
            assert(strs_v(lines@).take(i + 1) =~= strs_v(lines@).take(i as int).push(lines@[i as int]@));
            i = i + 1;
        }
        assert(strs_v(lines@).take(lines@.len() as int) =~= strs_v(lines@));
    }
    assert(strs_v(out@) =~= spec_banner_lines(*msg));
    out
}

} // verus!
