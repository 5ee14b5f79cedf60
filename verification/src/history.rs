//! The app's view history and background loads: pushing a view, stepping
//! back, forward and home through the stack, switching to a commit, and the
//! load controls. Every switch enters the view it lands on afresh.

use vstd::prelude::*;
use crate::app::{App, laid_out, lemma_laid_out_same};
use crate::model::{Changeset, LayoutMode};
use crate::rows::{self, fits, PlanV};
use crate::session::{
    FileStub, LoadKind, LoadRequest, LoadStatus, Session, ViewEntry, ViewKind, resized_marks,
    undiffed_jobs,
};
use crate::stream;
use crate::text::{str_eq, strs_v};
use crate::types::{Base, Focus};

verus! {

/// `a`'s viewport once a view whose plan was `p0`, with its line cursor at
/// `row0`, its top at `scroll0` and its pan at `h0`, was laid out again: the
/// cursor back on the same content, then everything clamped into the plan.
pub open spec fn settled(a: App, p0: PlanV, row0: usize, scroll0: usize, h0: usize) -> bool {
    let p = a.pl();
    let row = rows::spec_restore(p, rows::spec_capture(p0, row0), a.session.cur().cs.files_v());
    &&& a.st().cursor_row == stream::min_int(row, stream::spec_last_row(p))
    &&& a.st().scroll == stream::spec_clamp_scroll(
        scroll0 as int,
        row,
        p,
        stream::spec_usable(p, a.viewport_h),
    )
    &&& a.st().h_scroll == stream::min_int(h0 as int, stream::spec_max_h_scroll(p, a.viewport_w))
}

/// `a`'s current view is `e` entered afresh: its marks sized to its files,
/// the sidebar asked to reveal the selection, its plan laid out for the
/// app's layout and folds, and its viewport settled.
pub open spec fn entered(e: ViewEntry, a: App) -> bool {
    &&& a.session.cur() == (ViewEntry { state: a.st(), plan: a.session.cur().plan, ..e })
    &&& a.st().viewed@ == resized_marks(e.state.viewed@, e.cs.files@.len())
    &&& a.st().reveal_selected
    &&& a.st().wrap == e.state.wrap
    &&& a.st().selected == e.state.selected
    &&& a.st().selected_dir == e.state.selected_dir
    &&& a.st().collapsed == e.state.collapsed
    &&& laid_out(a)
    &&& settled(a, e.plan@, e.state.cursor_row, e.state.scroll, e.state.h_scroll)
}

/// After a switch that dropped the previous load, `s` resumes the leftover
/// diffs of its current view `e`: with a repository, every undiffed file
/// that has a stub is dispatched (`jobs`), and a resumed load of them is
/// under way when there is any.
pub open spec fn resumed(s: Session, e: ViewEntry, jobs: Seq<(usize, FileStub)>, now_ms: u64) -> bool {
    &&& s.repo_dir is None ==> jobs.len() == 0
    &&& s.repo_dir is Some ==> jobs == undiffed_jobs(e.cs.files@, e.stubs@, e.cs.files@.len() as int)
    &&& jobs.len() == 0 ==> s.idle()
    &&& jobs.len() > 0 ==> {
        &&& s.loader == Some(LoadStatus { done: 0, total: jobs.len() as usize })
        &&& s.load_started_ms == Some(now_ms)
        &&& s.load_kind == LoadKind::Resume
    }
}

/// `after` is `before` switched to the view at `target` of its stack: the
/// other views as they were, the target entered afresh, and its leftover
/// diffs resumed (`jobs`).
pub open spec fn switched(
    before: App,
    after: App,
    target: int,
    jobs: Seq<(usize, FileStub)>,
    now_ms: u64,
) -> bool {
    let e = before.session.views@[target];
    &&& after.session.cursor == target
    &&& after.session.views@.len() == before.session.views@.len()
    &&& forall|i: int|
        0 <= i < before.session.views@.len() && i != target ==> #[trigger] after.session.views@[i]
            == before.session.views@[i]
    &&& after.session.repo_dir == before.session.repo_dir
    &&& entered(e, after)
    &&& resumed(after.session, e, jobs, now_ms)
    &&& after.rest_same(before)
}

impl App {
    /// An app over `cs` as a local review session in the stacked layout,
    /// with no repository and no banner.
    pub fn new(cs: Changeset) -> (app: App)
        requires
            fits(cs.files_v()),
        ensures
            app.wf(),
            app.session.views@.len() == 1,
            app.session.repo_dir is None,
            app.session.cur().cs == cs,
            app.session.cur().kind == ViewKind::Local,
            app.session.cur().review,
            app.session.cur().banner@.len() == 0,
            app.st().viewed@ == Seq::new(cs.files@.len(), |i: int| false),
            app.st().collapsed@.len() == 0,
            app.layout == LayoutMode::Stack,
            app.grouped,
            laid_out(app),
            app.mode.base == (Base::Normal { focus: Focus::Stream }),
    {
        App::with_mode(cs, LayoutMode::Stack)
    }

    /// An app over `cs` as a local review session in `layout`, with no
    /// repository and no banner.
    pub fn with_mode(cs: Changeset, layout: LayoutMode) -> (app: App)
        requires
            fits(cs.files_v()),
        ensures
            app.wf(),
            app.session.views@.len() == 1,
            app.session.repo_dir is None,
            app.session.cur().cs == cs,
            app.session.cur().kind == ViewKind::Local,
            app.session.cur().review,
            app.session.cur().banner@.len() == 0,
            app.st().viewed@ == Seq::new(cs.files@.len(), |i: int| false),
            app.st().collapsed@.len() == 0,
            app.layout == layout,
            app.grouped,
            laid_out(app),
            app.mode.base == (Base::Normal { focus: Focus::Stream }),
    {
        App::with_launch(cs, layout, None, ViewKind::Local, true, None, None, Vec::new())
    }

    /// The rows of the visible files' headers, in order.
    pub fn file_starts(&self) -> (r: &[usize])
        requires
            self.wf(),
        ensures
            r@ == self.pl().file_starts,
    {
        self.plan().file_starts.as_slice()
    }

    /// What the current view shows.
    pub fn kind(&self) -> (r: &ViewKind)
        requires
            self.wf(),
        ensures
            *r == self.session.cur().kind,
    {
        self.session.kind()
    }

    /// Whether the current view shows local or staged changes.
    pub fn source_is_local(&self) -> (r: bool)
        requires
            self.wf(),
        ensures
            r == self.session.cur().kind.spec_is_local(),
    {
        self.session.source_is_local()
    }

    /// Make the entry at the cursor current: drop the load of the view left
    /// behind, size its marks to its files, lay it out again and clamp.
    fn load_current(&mut self)
        requires
            old(self).wf(),
        ensures
            final(self).wf(),
            final(self).session.idle(),
            final(self).session.cursor == old(self).session.cursor,
            final(self).session.views@.len() == old(self).session.views@.len(),
            forall|i: int|
                0 <= i < old(self).session.views@.len() && i != old(self).session.cursor
                    ==> #[trigger] final(self).session.views@[i] == old(self).session.views@[i],
            final(self).session.repo_dir == old(self).session.repo_dir,
            entered(old(self).session.cur(), *final(self)),
            final(self).rest_same(*old(self)),
    {
        self.session.clear_load();
        self.session.resize_and_reveal();
        let ghost s1 = *self;
        self.build_plan();
        let ghost s2 = *self;
        self.clamp();
        proof {
            lemma_laid_out_same(s2, *self);
            assert(self.session.cur().cs == old(self).session.cur().cs);
        }
    }

    /// Push a new view after the current one (dropping any forward history)
    /// and make it current, focusing the stream. Its marks start unreviewed
    /// and nothing is folded; `banner` stands above its first file.
    pub fn push_view(
        &mut self,
        kind: ViewKind,
        cs: Changeset,
        base: Option<String>,
        req: Option<LoadRequest>,
        review: bool,
        banner: Vec<String>,
    )
        requires
            old(self).wf(),
            fits(cs.files_v()),
        ensures
            final(self).wf(),
            crate::session::pushed(old(self).session, final(self).session),
            final(self).session.repo_dir == old(self).session.repo_dir,
            final(self).session.idle(),
            final(self).session.cur().kind == kind,
            final(self).session.cur().cs == cs,
            final(self).session.cur().base == base,
            final(self).session.cur().req == req,
            final(self).session.cur().stubs@.len() == 0,
            final(self).session.cur().review == review,
            final(self).session.cur().banner == banner,
            final(self).st().viewed@ == Seq::new(cs.files@.len(), |i: int| false),
            final(self).st().collapsed@.len() == 0,
            final(self).st().selected == 0,
            final(self).st().selected_dir is None,
            final(self).st().reveal_selected,
            !final(self).st().wrap,
            laid_out(*final(self)),
            final(self).pl() == rows::spec_build(
                cs.files_v(),
                Seq::new(cs.files@.len(), |i: int| false),
                old(self).layout,
                Seq::empty(),
                strs_v(banner@),
            ),
            settled(*final(self), final(self).pl(), 0, 0, 0),
            final(self).mode.base == match old(self).mode.base {
                Base::Normal { .. } => Base::Normal { focus: Focus::Stream },
                b => b,
            },
            final(self).mode.overlays == old(self).mode.overlays,
            final(self).rest_same_but_mode(*old(self)),
    {
        let layout = self.layout;
        self.session.push_entry(kind, cs, base, req, review, layout, banner);
        let ghost s1 = *self;
        proof {
            assert(self.wf());
        }
        self.load_current();
        let ghost s2 = *self;
        self.set_focus(Focus::Stream);
        proof {
            let n = s1.session.cur().cs.files@.len();
            assert(s1.st().viewed@.take(n as int) =~= s1.st().viewed@);
            assert(s2.st().collapsed_v() =~= Seq::<Seq<char>>::empty());
            reveal(laid_out);
            assert(crate::app::app_folds(s2) =~= Seq::<Seq<char>>::empty());
            lemma_laid_out_same(s2, *self);
        }
    }

    /// What [`App::view_back`] promises: `after` is the app once the call has run on
    /// `before`.
    pub open spec fn view_back_done(before: App, after: App, now_ms: u64, jobs: Vec<(usize, FileStub)>) -> bool {
        &&& before.session.cursor == 0 ==> after == before && jobs@.len() == 0
        &&& before.session.cursor > 0 ==> switched(
            before,
            after,
            before.session.cursor - 1,
            jobs@,
            now_ms,
        )
    }

    /// Step back in the view history, resuming the leftover diffs of the
    /// view it lands on; returns the jobs to dispatch. At the first view
    /// nothing happens.
    pub fn view_back(&mut self, now_ms: u64) -> (jobs: Vec<(usize, FileStub)>)
        requires
            old(self).wf(),
        ensures
            final(self).wf(),
            Self::view_back_done(*old(self), *final(self), now_ms, jobs),
    {
        if self.session.cursor == 0 {
            return Vec::new();
        }
        self.session.cursor = self.session.cursor - 1;
        self.switch_in(now_ms)
    }

    /// What [`App::view_forward`] promises: `after` is the app once the call has run on
    /// `before`.
    pub open spec fn view_forward_done(before: App, after: App, now_ms: u64, jobs: Vec<(usize, FileStub)>) -> bool {
        &&& before.session.cursor + 1 >= before.session.views@.len() ==> after == before
            && jobs@.len() == 0
        &&& before.session.cursor + 1 < before.session.views@.len() ==> switched(
            before,
            after,
            before.session.cursor + 1,
            jobs@,
            now_ms,
        )
    }

    /// Step forward in the view history, resuming the leftover diffs of the
    /// view it lands on; returns the jobs to dispatch. At the last view
    /// nothing happens.
    pub fn view_forward(&mut self, now_ms: u64) -> (jobs: Vec<(usize, FileStub)>)
        requires
            old(self).wf(),
        ensures
            final(self).wf(),
            Self::view_forward_done(*old(self), *final(self), now_ms, jobs),
    {
        if self.session.cursor >= self.session.views.len() - 1 {
            return Vec::new();
        }
        self.session.cursor = self.session.cursor + 1;
        self.switch_in(now_ms)
    }

    /// What [`App::view_home`] promises: `after` is the app once the call has run on
    /// `before`.
    pub open spec fn view_home_done(before: App, after: App, now_ms: u64, jobs: Vec<(usize, FileStub)>) -> bool {
        &&& ({
            let home = before.session.views@[0];
            let go = before.session.cursor != 0 && (home.review || home.kind.spec_is_local());
            &&& !go ==> after == before && jobs@.len() == 0
            &&& go ==> switched(before, after, 0, jobs@, now_ms)
        })
    }

    /// Return to the home (launch) view when it is a review or shows local
    /// changes, resuming its leftover diffs; returns the jobs to dispatch.
    pub fn view_home(&mut self, now_ms: u64) -> (jobs: Vec<(usize, FileStub)>)
        requires
            old(self).wf(),
        ensures
            final(self).wf(),
            Self::view_home_done(*old(self), *final(self), now_ms, jobs),
    {
        if self.session.cursor == 0 || !self.session.home_reviewable() {
            return Vec::new();
        }
        self.session.cursor = 0;
        self.switch_in(now_ms)
    }

    /// Enter the view the cursor was just moved to and resume its leftover
    /// diffs.
    fn switch_in(&mut self, now_ms: u64) -> (jobs: Vec<(usize, FileStub)>)
        requires
            old(self).wf(),
        ensures
            final(self).wf(),
            switched(*old(self), *final(self), old(self).session.cursor as int, jobs@, now_ms),
    {
        self.load_current();
        let ghost s1 = *self;
        let jobs = self.session.resume_load_if_stale(now_ms);
        proof {
            lemma_laid_out_same(s1, *self);
        }
        jobs
    }

    /// What [`App::promote_review`] promises: `after` is the app once the call has run on
    /// `before`.
    pub open spec fn promote_review_done(before: App, after: App) -> bool {
        &&& after.session.only_current_changed(&before.session)
        &&& after.session.cur().review
        &&& before.session.cur().review ==> after.session.cur() == before.session.cur()
        &&& !before.session.cur().review ==> {
            &&& after.st().viewed@ == Seq::new(
                before.session.cur().cs.files@.len(),
                |i: int| false,
            )
            &&& after.session.cur() == (ViewEntry {
                review: true,
                state: crate::view::ViewState { viewed: after.st().viewed, ..before.st() },
                ..before.session.cur()
            })
        }
        &&& after.rest_same(before)
    }

    /// Turn the current view into a review session (a no-op when it is one).
    pub fn promote_review(&mut self)
        requires
            old(self).wf(),
        ensures
            final(self).wf(),
            Self::promote_review_done(*old(self), *final(self)),
    {
        self.session.promote_review();
    }
}

/// `files` are the undiffed stand-ins of `stubs`, one for one.
pub open spec fn stands_for(files: Seq<crate::model::DiffFile>, stubs: Seq<FileStub>) -> bool {
    &&& files.len() == stubs.len()
    &&& forall|i: int|
        0 <= i < stubs.len() ==> {
            &&& (#[trigger] files[i]).path@ == stubs[i].path@
            &&& files[i].previous_path == stubs[i].previous_path
            &&& files[i].status == stubs[i].status
            &&& files[i].staged == stubs[i].staged
            &&& files[i].hunks@.len() == 0
            &&& !files[i].diffed
        }
}

/// Some file of `files` has the path `p`.
pub open spec fn has_path(files: Seq<crate::model::DiffFile>, p: Seq<char>) -> bool {
    exists|i: int| 0 <= i < files.len() && (#[trigger] files[i]).path@ == p
}

impl App {
    /// Begin the initial load of the current view from its enumerated
    /// `stubs`; returns the jobs to dispatch.
    pub fn begin_load(&mut self, stubs: Vec<FileStub>, is_switch: bool, now_ms: u64) -> (jobs: Vec<(usize, FileStub)>)
        requires
            old(self).wf(),
        ensures
            final(self).wf(),
            crate::session::began(old(self).session, final(self).session, stubs, is_switch, now_ms, jobs@),
            final(self).rest_same(*old(self)),
    {
        self.session.begin_load(stubs, is_switch, now_ms)
    }

    /// Take in a drained batch of finished diffs (`finished`: the load has
    /// nothing more to send); returns whether anything changed.
    pub fn drain_loader(&mut self, batch: Vec<(usize, crate::model::DiffFile)>, finished: bool) -> (changed: bool)
        requires
            old(self).wf(),
            forall|k: int| 0 <= k < batch@.len() ==> rows::fits_file((#[trigger] batch@[k]).1@),
        ensures
            final(self).wf(),
            crate::session::drained(
                old(self).session,
                final(self).session,
                batch@,
                finished,
                old(self).layout,
                old(self).grouped,
                old(self).viewport_h,
                old(self).viewport_w,
                changed,
            ),
            final(self).rest_same(*old(self)),
    {
        let (layout, grouped, vh, vw) = (self.layout, self.grouped, self.viewport_h, self.viewport_w);
        self.session.drain_loader(batch, finished, layout, grouped, vh, vw)
    }

    /// What [`App::cancel_load`] promises: `after` is the app once the call has run on
    /// `before`.
    pub open spec fn cancel_load_done(before: App, after: App, now_ms: u64, jobs: Vec<(usize, FileStub)>) -> bool {
        &&& before.session.loader is None ==> after == before && jobs@.len() == 0
        &&& before.session.loader is Some ==> {
            let r = crate::session::cancel_outcome(before.session.load_kind, before.session.cursor);
            let c = before.session.cursor as int;
            &&& r == crate::session::LoadCancel::Quit ==> {
                &&& after.session == (Session {
                    loader: None,
                    load_started_ms: None,
                    load_kind: LoadKind::Launch,
                    ..before.session
                })
                &&& after == (App { session: after.session, should_quit: true, ..before })
                &&& jobs@.len() == 0
            }
            &&& r == crate::session::LoadCancel::Stopped ==> {
                &&& after.session.cursor == c
                &&& after.session.views@.len() == before.session.views@.len()
                &&& forall|i: int|
                    0 <= i < before.session.views@.len() && i != c ==> #[trigger] after.session.views@[i]
                        == before.session.views@[i]
                &&& after.session.repo_dir == before.session.repo_dir
                &&& after.session.idle()
                &&& entered(before.session.cur(), after)
                &&& after.rest_same(before)
                &&& jobs@.len() == 0
            }
            &&& r == crate::session::LoadCancel::PoppedView ==> {
                &&& after.session.cursor == c - 1
                &&& after.session.views@.len() == c
                &&& forall|i: int| 0 <= i < c - 1 ==> #[trigger] after.session.views@[i] == before.session.views@[i]
                &&& after.session.repo_dir == before.session.repo_dir
                &&& entered(before.session.views@[c - 1], after)
                &&& resumed(after.session, before.session.views@[c - 1], jobs@, now_ms)
                &&& after.rest_same(before)
            }
        }
    }

    /// Cancel the load in progress: the launch load quits, a freshly pushed
    /// view is abandoned for the one it was pushed from (whose leftover
    /// diffs resume), and a resumed load merely stops where it is. Returns
    /// the jobs to dispatch. Without a load nothing happens.
    pub fn cancel_load(&mut self, now_ms: u64) -> (jobs: Vec<(usize, FileStub)>)
        requires
            old(self).wf(),
        ensures
            final(self).wf(),
            Self::cancel_load_done(*old(self), *final(self), now_ms, jobs),
    {
        if !self.session.loading() {
            return Vec::new();
        }
        let r = self.session.cancel_load();
        match r {
            crate::session::LoadCancel::PoppedView => self.switch_in(now_ms),
            crate::session::LoadCancel::Stopped => {
                self.load_current();
                Vec::new()
            },
            crate::session::LoadCancel::Quit => {
                self.should_quit = true;
                Vec::new()
            },
        }
    }

    /// Whether a background diff load is in progress.
    pub fn loading(&self) -> (r: bool)
        ensures
            r == self.session.loader is Some,
    {
        self.session.loading()
    }

    /// Whether to show progress chrome at `now_ms`: a load is active and has
    /// run for at least the delay.
    pub fn show_progress(&self, now_ms: u64) -> (r: bool)
        ensures
            r == (self.session.loader is Some && (self.session.load_started_ms matches Some(t) && t <= now_ms
                && now_ms - t >= crate::types::LOAD_PROGRESS_DELAY_MS)),
    {
        self.session.show_progress(now_ms)
    }

    /// Progress as `(done, total)` for the active load, zero and zero when idle.
    pub fn load_progress(&self) -> (r: (usize, usize))
        ensures
            r == (match self.session.loader {
                Some(l) => (l.done, l.total),
                None => (0usize, 0usize),
            }),
    {
        self.session.load_progress()
    }

    /// Land on the first file at `path` (see [`App::land_on_file`]); a path
    /// no file has changes nothing.
    pub fn land_on_path(&mut self, path: &str)
        requires
            old(self).wf(),
        ensures
            final(self).wf(),
            !has_path(old(self).session.cur().cs.files@, path@) ==> *final(self) == *old(self),
            has_path(old(self).session.cur().cs.files@, path@) ==> {
                let files = old(self).session.cur().cs.files@;
                let k = final(self).st().selected as int;
                let d = crate::model::spec_parent_dir(path@);
                &&& 0 <= k < files.len()
                &&& files[k].path@ == path@
                &&& forall|j: int| 0 <= j < k ==> (#[trigger] files[j]).path@ != path@
                &&& final(self).st().selected_dir is None
                &&& forall|x: Seq<char>| #[trigger] final(self).st().collapsed_v().contains(x) == (x != d
                    && old(self).st().collapsed_v().contains(x))
                &&& !old(self).st().collapsed_v().contains(d) ==> final(self).st().collapsed == old(self).st().collapsed
                &&& final(self).st().viewed == old(self).st().viewed
                &&& final(self).session.only_current_changed(&old(self).session)
                &&& crate::session::same_content(old(self).session.cur(), final(self).session.cur())
                &&& final(self).mode.base == match old(self).mode.base {
                    Base::Normal { .. } => Base::Normal { focus: Focus::Stream },
                    b => b,
                }
                &&& final(self).mode.overlays == old(self).mode.overlays
                &&& final(self).rest_same_but_mode(*old(self))
            },
    {
        let i = self.session.cursor;
        let n = self.session.views[i].cs.files.len();
        let mut k: usize = 0;
        while k < n
            invariant
                *self == *old(self),
                i == self.session.cursor,
                self.wf(),
                n == self.session.cur().cs.files@.len(),
                k <= n,
                forall|j: int| 0 <= j < k ==> (#[trigger] self.session.cur().cs.files@[j]).path@ != path@,
            ensures
                k <= n,
                forall|j: int| 0 <= j < k ==> (#[trigger] self.session.cur().cs.files@[j]).path@ != path@,
                k < n ==> self.session.cur().cs.files@[k as int].path@ == path@,
            decreases n - k,
        {
            if str_eq(self.session.views[i].cs.files[k].path.as_str(), path) {
                break;
            }
            k = k + 1;
        }
        if k < n {
            self.land_on_file(k);
        } else {
            proof {
                assert forall|j: int| 0 <= j < n implies (#[trigger] old(self).session.cur().cs.files@[j]).path@ != path@ by {}
            }
        }
    }

    /// Switch to commit `rev`'s view (browsing, not a review) from its
    /// enumerated `stubs` (listed under `source`) and its message `banner`:
    /// the stand-in files show at once, all of them are dispatched as a
    /// pushed load, and the cursor lands on the file at `land_path` when
    /// there is one. Without a repository nothing happens (`None`).
    #[verifier::rlimit(40)]
    pub fn open_commit(
        &mut self,
        rev: &str,
        source: &str,
        stubs: Vec<FileStub>,
        banner: Vec<String>,
        land_path: Option<&str>,
        now_ms: u64,
    ) -> (jobs: Option<Vec<(usize, FileStub)>>)
        requires
            old(self).wf(),
        ensures
            final(self).wf(),
            old(self).session.repo_dir is None ==> jobs is None && *final(self) == *old(self),
            old(self).session.repo_dir is Some ==> {
                let e = final(self).session.cur();
                let n = stubs@.len();
                let landed = land_path matches Some(p) && has_path(e.cs.files@, p@);
                &&& jobs matches Some(js) && js@ == undiffed_jobs(e.cs.files@, stubs@, n as int)
                &&& final(self).session.cursor == old(self).session.cursor + 1
                &&& final(self).session.views@.len() == old(self).session.cursor + 2
                &&& forall|i: int|
                    0 <= i <= old(self).session.cursor ==> #[trigger] final(self).session.views@[i]
                        == old(self).session.views@[i]
                &&& final(self).session.repo_dir == old(self).session.repo_dir
                &&& e.kind matches ViewKind::Commit(r) && r@ == rev@
                &&& e.req matches Some(LoadRequest::Show { rev: r }) && r@ == rev@
                &&& e.base is None
                &&& !e.review
                &&& e.banner == banner
                &&& e.stubs == stubs
                &&& e.cs.source@ == source@
                &&& stands_for(e.cs.files@, stubs@)
                &&& n == 0 ==> final(self).session.idle()
                &&& n > 0 ==> {
                    &&& final(self).session.loader == Some(LoadStatus { done: 0, total: n as usize })
                    &&& final(self).session.load_started_ms == Some(now_ms)
                    &&& final(self).session.load_kind == LoadKind::Push
                }
                &&& final(self).st().viewed@ == Seq::new(n, |i: int| false)
                &&& final(self).st().collapsed@.len() == 0
                &&& final(self).st().selected_dir is None
                &&& landed ==> final(self).st().selected < n && e.cs.files@[final(self).st().selected as int].path@
                    == land_path->0@
                &&& !landed ==> final(self).st().selected == 0
                &&& final(self).mode.base == match old(self).mode.base {
                    Base::Normal { .. } => Base::Normal { focus: Focus::Stream },
                    b => b,
                }
                &&& final(self).mode.overlays == old(self).mode.overlays
                &&& final(self).rest_same_but_mode(*old(self))
            },
    {
        if self.session.repo_dir.is_none() {
            return None;
        }
        let cs = crate::session::stub_changeset(source, stubs.as_slice());
        let ghost files = cs.files@;
        let req = LoadRequest::Show { rev: rev.to_string() };
        self.push_view(ViewKind::Commit(rev.to_string()), cs, None, Some(req), false, banner);
        let ghost s1 = *self;
        let jobs = self.begin_load(stubs, true, now_ms);
        proof {
            assert(self.session.cur().cs.files@ == files);
            lemma_all_undiffed_len(files, stubs@, stubs@.len() as int);
        }
        if let Some(path) = land_path {
            let ghost s2 = *self;
            self.land_on_path(path);
            proof {
                assert(s2.st().collapsed_v() =~= Seq::<Seq<char>>::empty());
            }
        }
        Some(jobs)
    }
}

/// Every stand-in file is undiffed, so each of the first `k` files with a
/// stub is a job.
proof fn lemma_all_undiffed_len(files: Seq<crate::model::DiffFile>, stubs: Seq<FileStub>, k: int)
    requires
        stands_for(files, stubs),
        0 <= k <= stubs.len(),
    ensures
        undiffed_jobs(files, stubs, k).len() == k,
    decreases k,
{
    if k > 0 {
        lemma_all_undiffed_len(files, stubs, k - 1);
    }
}

} // verus!
