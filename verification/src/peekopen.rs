//! Opening the single-file peek and feeding it: which file it opens on,
//! where each of its texts comes from, the blame fetch it asks for and what
//! the fetch's outcome installs, and its paging. Reading the repository and
//! running the fetch are the caller's.

use vstd::prelude::*;
use crate::app::App;
use crate::diff::text_fits;
use crate::model::{BlameLine, FileStatus};
use crate::peek::{Peek, PeekMode, Sides};
use crate::session::ViewKind;
use crate::types::{Base, Focus};

verus! {

/// Where the text of one side of a file comes from: the working copy, or
/// the file at a revision.
#[derive(Debug)]
pub enum TextSource {
    Worktree,
    At(String),
}

/// A blame fetch to run: `path` at `rev`; when the path has no history
/// there, its previous path (`prev_path`, a rename), then the old side
/// (`fallback_rev`, for a deleted file).
#[derive(Debug)]
pub struct BlameRequest {
    pub rev: String,
    pub path: String,
    pub prev_path: Option<String>,
    pub fallback_rev: Option<String>,
}

/// How a blame fetch ended, as its caller saw it: a result, a worker that
/// died without one, or nothing yet.
#[derive(Debug)]
pub enum BlameOutcome {
    Ready(String, Vec<BlameLine>),
    Died,
    Pending,
}

/// The revision a source names (`None` for the working copy).
pub open spec fn source_rev(s: TextSource) -> Option<Seq<char>> {
    match s {
        TextSource::Worktree => None,
        TextSource::At(r) => Some(r@),
    }
}

/// The revision holding a view's new side (`None`: the working copy): the
/// commit, or a range's target.
pub open spec fn new_side_rev(k: ViewKind) -> Option<Seq<char>> {
    match k {
        ViewKind::Commit(rev) => Some(rev@),
        ViewKind::Range { target, .. } => Some(target@),
        ViewKind::Local | ViewKind::Staged => None,
    }
}

/// Where blame is computed for a view, and where a file its new side
/// deleted still has history: a commit and its parent, a range's target and
/// base, or HEAD and the local view's base (HEAD when it has none).
pub open spec fn spec_blame_revs(k: ViewKind, base: Option<String>) -> (Seq<char>, Seq<char>) {
    match k {
        ViewKind::Commit(rev) => (rev@, rev@ + "^"@),
        ViewKind::Range { target, base: b } => (target@, b@),
        ViewKind::Local | ViewKind::Staged => (
            "HEAD"@,
            match base {
                Some(b) => b@,
                None => "HEAD"@,
            },
        ),
    }
}

/// The file a peek opens on: the selected file, unless a folded directory
/// is selected, there is no such file, or it is binary.
pub open spec fn peek_file(a: App) -> Option<int> {
    let files = a.session.cur().cs.files@;
    let st = a.st();
    if st.selected_dir is None && st.selected < files.len() && !files[st.selected as int].is_binary {
        Some(st.selected as int)
    } else {
        None
    }
}

/// The first file at `path` from position `from` on, when there is one.
pub open spec fn first_at(files: Seq<crate::model::DiffFile>, path: Seq<char>, from: int) -> Option<int>
    decreases files.len() - from,
{
    if from < 0 || from >= files.len() {
        None
    } else if files[from].path@ == path {
        Some(from)
    } else {
        first_at(files, path, from + 1)
    }
}

/// The first file at `path`, when there is one.
pub open spec fn file_at_path(files: Seq<crate::model::DiffFile>, path: Seq<char>) -> Option<int> {
    first_at(files, path, 0)
}

/// A first file found from `from` on lies there and is at `path`.
proof fn lemma_first_at(files: Seq<crate::model::DiffFile>, path: Seq<char>, from: int)
    ensures
        first_at(files, path, from) matches Some(k) ==> from <= k < files.len() && files[k].path@ == path,
    decreases files.len() - from,
{
    if 0 <= from < files.len() && files[from].path@ != path {
        lemma_first_at(files, path, from + 1);
    }
}

/// The text of a side, or nothing.
pub open spec fn or_empty(t: Option<String>) -> Seq<char> {
    match t {
        Some(s) => s@,
        None => Seq::empty(),
    }
}

/// Whether a text fits a peek's plan.
fn fits(s: &String) -> (r: bool)
    ensures
        r == text_fits(s@),
{
    let n = s.as_str().unicode_len();
    n < 0xFFFF_FFFF && n <= usize::MAX - crate::rows::GUTTER_W
}

/// A copy of an optional text.
fn copy_opt(t: &Option<String>) -> (r: Option<String>)
    ensures
        r == *t,
{
    match t {
        Some(s) => Some(s.clone()),
        None => None,
    }
}

impl App {
    /// The file a peek opens on (see [`peek_file`]).
    pub fn peek_target(&self) -> (r: Option<usize>)
        requires
            self.wf(),
        ensures
            match peek_file(*self) {
                Some(i) => r == Some(i as usize),
                None => r is None,
            },
    {
        let i = self.session.cursor;
        let st = &self.session.views[i].state;
        if st.selected_dir.is_some() || st.selected >= self.session.views[i].cs.files.len() {
            return None;
        }
        if self.session.views[i].cs.files[st.selected].is_binary {
            None
        } else {
            Some(st.selected)
        }
    }

    /// Where the current view's new side is read from.
    pub fn new_side_source(&self) -> (r: TextSource)
        requires
            self.wf(),
        ensures
            source_rev(r) == new_side_rev(self.session.cur().kind),
    {
        match self.kind() {
            ViewKind::Commit(rev) => TextSource::At(rev.clone()),
            ViewKind::Range { target, .. } => TextSource::At(target.clone()),
            ViewKind::Local | ViewKind::Staged => TextSource::Worktree,
        }
    }

    /// Where the newest side of the launch view is read from (the text a
    /// preview compares against); without a repository, nowhere.
    pub fn home_top_source(&self) -> (r: Option<TextSource>)
        requires
            self.wf(),
        ensures
            self.session.repo_dir is None ==> r is None,
            self.session.repo_dir is Some ==> (r matches Some(s) && source_rev(s) == new_side_rev(
                self.session.views@[0].kind,
            )),
    {
        if self.session.repo_dir.is_none() {
            return None;
        }
        Some(
            match &self.session.views[0].kind {
                ViewKind::Commit(rev) => TextSource::At(rev.clone()),
                ViewKind::Range { target, .. } => TextSource::At(target.clone()),
                ViewKind::Local | ViewKind::Staged => TextSource::Worktree,
            },
        )
    }

    /// Where blame is computed for the current view, and where a file its
    /// new side deleted still has history (see [`spec_blame_revs`]).
    pub fn blame_revs(&self) -> (r: (String, String))
        requires
            self.wf(),
        ensures
            (r.0@, r.1@) == spec_blame_revs(self.session.cur().kind, self.session.cur().base),
    {
        proof {
            reveal_strlit("^");
            reveal_strlit("HEAD");
        }
        let i = self.session.cursor;
        match &self.session.views[i].kind {
            ViewKind::Commit(rev) => {
                let mut parent = rev.clone();
                parent.append("^");
                (rev.clone(), parent)
            },
            ViewKind::Range { target, base } => (target.clone(), base.clone()),
            ViewKind::Local | ViewKind::Staged => {
                let old = match &self.session.views[i].base {
                    Some(b) => b.clone(),
                    None => "HEAD".to_string(),
                };
                ("HEAD".to_string(), old)
            },
        }
    }

    /// What [`App::cached_sides`] answers, read off the app `app`.
    pub open spec fn cached_sides_done(app: App, idx: usize, r: Option<(String, String)>) -> bool {
        &&& ({
            let files = app.session.cur().cs.files@;
            if idx < files.len() && files[idx as int].diffed {
                r matches Some(t) && t.0@ == or_empty(files[idx as int].old_text) && t.1@ == or_empty(
                    files[idx as int].new_text,
                )
            } else {
                r is None
            }
        })
    }

    /// The old and new texts of file `idx` when its diff has arrived (an
    /// absent side reads as empty); `None` while it is still a stand-in,
    /// whose texts the caller reads from the repository.
    pub fn cached_sides(&self, idx: usize) -> (r: Option<(String, String)>)
        requires
            self.wf(),
        ensures
            Self::cached_sides_done(*self, idx, r),
    {
        let i = self.session.cursor;
        if idx >= self.session.views[i].cs.files.len() || !self.session.views[i].cs.files[idx].diffed {
            return None;
        }
        let f = &self.session.views[i].cs.files[idx];
        let old = match &f.old_text {
            Some(t) => t.clone(),
            None => String::new(),
        };
        let new = match &f.new_text {
            Some(t) => t.clone(),
            None => String::new(),
        };
        Some((old, new))
    }

    /// Open the peek on the selected file in content mode: `content` is its
    /// new side, `top` the launch view's newest side, which its diff
    /// compares against. No target file (or a text past a plan's limits)
    /// opens nothing.
    pub fn open_peek_preview(&mut self, content: String, top: String)
        requires
            old(self).wf(),
        ensures
            final(self).wf(),
            final(self).session == old(self).session,
            final(self).mode.overlays == old(self).mode.overlays,
            (peek_file(*old(self)) is None || !text_fits(content@) || !text_fits(top@)) ==> final(self).mode.base
                == old(self).mode.base,
            peek_file(*old(self)) matches Some(i) ==> (text_fits(content@) && text_fits(top@)
                ==> opened(*old(self), *final(self), i, PeekMode::Content, Some(Sides { diff_old: content, diff_new: top, content_from_new: false }))),
    {
        let i = match self.peek_target() {
            Some(i) => i,
            None => {
                return ;
            },
        };
        if !fits(&content) || !fits(&top) {
            return ;
        }
        let path = self.session.views[self.session.cursor].cs.files[i].path.clone();
        let local = self.source_is_local();
        let peek = Peek::new(path, local, PeekMode::Content, content, top, false);
        self.set_peek(peek);
    }

    /// Open the peek on the selected file in diff mode, over its `old_text`
    /// and `new_text`. No target file (or a text past a plan's limits) opens
    /// nothing.
    pub fn open_peek_review(&mut self, old_text: String, new_text: String)
        requires
            old(self).wf(),
        ensures
            final(self).wf(),
            final(self).session == old(self).session,
            final(self).mode.overlays == old(self).mode.overlays,
            (peek_file(*old(self)) is None || !text_fits(old_text@) || !text_fits(new_text@)) ==> final(self).mode.base
                == old(self).mode.base,
            peek_file(*old(self)) matches Some(i) ==> (text_fits(old_text@) && text_fits(new_text@) ==> opened(
                *old(self),
                *final(self),
                i,
                PeekMode::Diff,
                Some(Sides { diff_old: old_text, diff_new: new_text, content_from_new: true }),
            )),
    {
        let i = match self.peek_target() {
            Some(i) => i,
            None => {
                return ;
            },
        };
        if !fits(&old_text) || !fits(&new_text) {
            return ;
        }
        let path = self.session.views[self.session.cursor].cs.files[i].path.clone();
        let local = self.source_is_local();
        let peek = Peek::new(path, local, PeekMode::Diff, old_text, new_text, true);
        self.set_peek(peek);
    }

    /// What [`App::open_peek_blame`] promises: `after` is the app once the call has run on
    /// `before`.
    pub open spec fn open_peek_blame_done(before: App, after: App, req: Option<BlameRequest>) -> bool {
        &&& after.session == before.session
        &&& after.mode.overlays == before.mode.overlays
        &&& peek_file(before) is None ==> after.mode.base == before.mode.base && req is None
        &&& peek_file(before) matches Some(i) ==> {
            let files = before.session.cur().cs.files@;
            &&& after.mode.base matches Base::Peek(q) && {
                &&& q.path@ == files[i].path@
                &&& q.mode == PeekMode::Blame
                &&& q.sides is None
                &&& q.blame is None
                &&& q.blame_pending == before.session.repo_dir is Some
            }
            &&& before.session.repo_dir is None ==> req is None
            &&& before.session.repo_dir is Some ==> (req matches Some(r) && blame_asked(
                before,
                files[i].path@,
                r,
            ))
        }
    }

    /// Open the peek on the selected file in blame mode (its other sides
    /// wait for the first switch out of blame) and ask for its blame fetch
    /// (see [`App::prepare_blame`]). No target file opens nothing.
    pub fn open_peek_blame(&mut self) -> (req: Option<BlameRequest>)
        requires
            old(self).wf(),
        ensures
            final(self).wf(),
            Self::open_peek_blame_done(*old(self), *final(self), req),
    {
        let i = match self.peek_target() {
            Some(i) => i,
            None => {
                return None;
            },
        };
        let path = self.session.views[self.session.cursor].cs.files[i].path.clone();
        let local = self.source_is_local();
        let peek = Peek::new_blame(path, local);
        self.set_peek(peek);
        self.prepare_blame()
    }

    /// Ask for the open blame peek's fetch (once: not while one is in
    /// flight or after one settled), marking it in flight. Without a blame
    /// peek needing it, or without a repository, nothing happens.
    pub fn prepare_blame(&mut self) -> (req: Option<BlameRequest>)
        requires
            old(self).wf(),
        ensures
            final(self).wf(),
            final(self).session == old(self).session,
            final(self).mode.overlays == old(self).mode.overlays,
            !(old(self).mode.base matches Base::Peek(p) && p.mode == PeekMode::Blame && p.blame is None
                && !p.blame_pending) || old(self).session.repo_dir is None ==> final(self).mode.base
                == old(self).mode.base && req is None,
            old(self).session.repo_dir is Some ==> (old(self).mode.base matches Base::Peek(p) ==> (p.mode
                == PeekMode::Blame && p.blame is None && !p.blame_pending ==> {
                &&& final(self).mode.base == Base::Peek(Box::new(Peek { blame_pending: true, ..*p }))
                &&& req matches Some(r) && blame_asked(*old(self), p.path@, r)
            })),
    {
        let (path, wanted) = match &self.mode.base {
            Base::Peek(p) => (p.path.clone(), p.needs_blame()),
            Base::Normal { .. } => (String::new(), false),
        };
        if !wanted || self.session.repo_dir.is_none() {
            return None;
        }
        let i = self.session.cursor;
        let found = self.file_index(path.as_str());
        let ghost files = self.session.cur().cs.files@;
        let mut prev_path: Option<String> = None;
        let mut deleted = false;
        if let Some(k) = found {
            prev_path = copy_opt(&self.session.views[i].cs.files[k].previous_path);
            deleted = match self.session.views[i].cs.files[k].status {
                FileStatus::Deleted => true,
                _ => false,
            };
        }
        let (rev, old_side) = self.blame_revs();
        let fallback_rev = if deleted {
            Some(old_side)
        } else {
            None
        };
        if let Some(mut p) = self.take_peek() {
            p.blame_pending = true;
            self.mode.base = Base::Peek(Box::new(p));
        }
        let req = BlameRequest { rev, path, prev_path, fallback_rev };
        proof {
            let pp = old(self).mode.base->Peek_0;
            lemma_first_at(files, pp.path@, 0);
            assert(files.len() == old(self).session.cur().cs.files.len());
        }
        Some(req)
    }

    /// The index of the first file at `path`.
    fn file_index(&self, path: &str) -> (r: Option<usize>)
        requires
            self.wf(),
        ensures
            match file_at_path(self.session.cur().cs.files@, path@) {
                Some(k) => r == Some(k as usize) && 0 <= k < self.session.cur().cs.files@.len()
                    && self.session.cur().cs.files@[k].path@ == path@,
                None => r is None,
            },
    {
        let i = self.session.cursor;
        let n = self.session.views[i].cs.files.len();
        let mut k: usize = 0;
        while k < n
            invariant
                i == self.session.cursor,
                self.wf(),
                n == self.session.cur().cs.files@.len(),
                k <= n,
                file_at_path(self.session.cur().cs.files@, path@) == first_at(
                    self.session.cur().cs.files@,
                    path@,
                    k as int,
                ),
            decreases n - k,
        {
            if crate::text::str_eq(self.session.views[i].cs.files[k].path.as_str(), path) {
                return Some(k);
            }
            k = k + 1;
        }
        None
    }

    /// Take in how the open peek's blame fetch ended: a result is installed
    /// (a text past a plan's limits settles as no blame), a worker that died
    /// settles as no blame, and nothing yet changes nothing. Returns whether
    /// anything landed. Without a peek awaiting blame nothing happens.
    pub fn drain_blame(&mut self, outcome: BlameOutcome) -> (landed: bool)
        requires
            old(self).wf(),
        ensures
            final(self).wf(),
            final(self).session == old(self).session,
            final(self).mode.overlays == old(self).mode.overlays,
            !(old(self).mode.base matches Base::Peek(p) && p.blame_pending) || outcome is Pending ==> !landed
                && final(self).mode.base == old(self).mode.base,
            old(self).mode.base matches Base::Peek(p) ==> (p.blame_pending && !(outcome is Pending) ==> {
                &&& landed
                &&& final(self).mode.base matches Base::Peek(q) && {
                    &&& !q.blame_pending
                    &&& q.rebuilt()
                    &&& q.path == p.path
                    &&& q.mode == p.mode
                    &&& q.sides == p.sides
                    &&& match outcome {
                        BlameOutcome::Ready(text, lines) => if text_fits(text@) {
                            q.blame_text == text && q.blame == Some(lines)
                        } else {
                            q.blame_text@.len() == 0 && (q.blame matches Some(v) && v@.len() == 0)
                        },
                        _ => q.blame_text@.len() == 0 && (q.blame matches Some(v) && v@.len() == 0),
                    }
                }
            }),
    {
        let pending = match &self.mode.base {
            Base::Peek(p) => p.blame_pending,
            Base::Normal { .. } => false,
        };
        if !pending {
            return false;
        }
        let (text, lines) = match outcome {
            BlameOutcome::Pending => {
                return false;
            },
            BlameOutcome::Died => (String::new(), Vec::new()),
            BlameOutcome::Ready(text, lines) => if fits(&text) {
                (text, lines)
            } else {
                (String::new(), Vec::new())
            },
        };
        match &mut self.mode.base {
            Base::Peek(p) => {
                p.install_blame(text, lines);
            },
            Base::Normal { .. } => {},
        }
        true
    }

    /// Whether the open peek's blame fetch is in flight.
    pub fn peek_blame_loading(&self) -> (r: bool)
        ensures
            r == (self.mode.base matches Base::Peek(p) && p.blame_pending),
    {
        match &self.mode.base {
            Base::Peek(p) => p.blame_loading(),
            Base::Normal { .. } => false,
        }
    }

    /// What [`App::peek_blame_sha`] answers, read off the app `app`.
    pub open spec fn peek_blame_sha_done(app: App, r: Option<String>) -> bool {
        &&& match app.mode.base {
            Base::Peek(p) => if p.mode == PeekMode::Blame {
                match p.spec_blame_cursor() {
                    Some(b) => r matches Some(s) && s@ == b.commit.sha@,
                    None => r is None,
                }
            } else {
                r is None
            },
            Base::Normal { .. } => r is None,
        }
    }

    /// The commit of the blame line at the top of a blame peek, whose
    /// message `Enter` opens.
    pub fn peek_blame_sha(&self) -> (r: Option<String>)
        ensures
            Self::peek_blame_sha_done(*self, r),
    {
        match &self.mode.base {
            Base::Peek(p) => if p.mode == PeekMode::Blame {
                match p.blame_cursor() {
                    Some(b) => Some(b.commit.sha.clone()),
                    None => None,
                }
            } else {
                None
            },
            Base::Normal { .. } => None,
        }
    }

    /// What [`App::peek_sides_wanted`] answers, read off the app `app`.
    pub open spec fn peek_sides_wanted_done(app: App, r: Option<usize>) -> bool {
        &&& match app.mode.base {
            Base::Peek(p) => if p.mode == PeekMode::Blame && p.sides is None {
                match file_at_path(app.session.cur().cs.files@, p.path@) {
                    Some(k) => r == Some(k as usize),
                    None => r is None,
                }
            } else {
                r is None
            },
            Base::Normal { .. } => r is None,
        }
    }

    /// The file whose old and new texts a blame peek still lacks, for the
    /// caller to supply before the peek first leaves blame.
    pub fn peek_sides_wanted(&self) -> (r: Option<usize>)
        requires
            self.wf(),
        ensures
            Self::peek_sides_wanted_done(*self, r),
    {
        let path = match &self.mode.base {
            Base::Peek(p) => if p.mode == PeekMode::Blame && p.sides_unfilled() {
                p.path.clone()
            } else {
                return None;
            },
            Base::Normal { .. } => {
                return None;
            },
        };
        self.file_index(path.as_str())
    }

    /// What [`App::peek_switch_mode`] promises: `after` is the app once the call has run on
    /// `before`.
    pub open spec fn peek_switch_mode_done(before: App, after: App, sides: Option<(String, String)>, req: Option<BlameRequest>) -> bool {
        &&& after.session == before.session
        &&& after.mode.overlays == before.mode.overlays
        &&& before.mode.base is Normal ==> after.mode.base == before.mode.base && req is None
        &&& before.mode.base matches Base::Peek(p) ==> after.mode.base matches Base::Peek(q) && {
            &&& q.mode == crate::peek::next_mode(p.mode)
            &&& q.state.scroll == 0
            &&& q.rebuilt()
            &&& q.path == p.path
            &&& q.full == p.full
            &&& q.split_view == p.split_view
            &&& q.sides == if p.mode == PeekMode::Blame && p.sides is None {
                match sides {
                    Some(t) => if text_fits(t.0@) && text_fits(t.1@) {
                        Some(Sides { diff_old: t.0, diff_new: t.1, content_from_new: true })
                    } else {
                        p.sides
                    },
                    None => p.sides,
                }
            } else {
                p.sides
            }
            &&& q.blame_pending == (p.blame_pending || (q.mode == PeekMode::Blame && p.blame is None
                && before.session.repo_dir is Some))
            &&& (req is Some <==> (q.mode == PeekMode::Blame && p.blame is None && !p.blame_pending
                && before.session.repo_dir is Some))
        }
    }

    /// Cycle the peek's mode (content, diff, blame). A blame peek leaving
    /// blame for the first time takes its old and new texts from `sides`
    /// first; arriving in blame asks for its fetch (see
    /// [`App::prepare_blame`]).
    pub fn peek_switch_mode(&mut self, sides: Option<(String, String)>) -> (req: Option<BlameRequest>)
        requires
            old(self).wf(),
        ensures
            final(self).wf(),
            Self::peek_switch_mode_done(*old(self), *final(self), sides, req),
    {
        match sides {
            Some((old_text, new_text)) => {
                if fits(&old_text) && fits(&new_text) {
                    match &mut self.mode.base {
                        Base::Peek(p) => if p.mode == PeekMode::Blame && p.sides_unfilled() {
                            p.install_sides(old_text, new_text, true);
                        },
                        Base::Normal { .. } => {},
                    }
                }
            },
            None => {},
        }
        self.peek_toggle_mode();
        self.prepare_blame()
    }

    /// What [`App::peek_page`] promises: `after` is the app once the call has run on
    /// `before`.
    pub open spec fn peek_page_done(before: App, after: App, dir: isize) -> bool {
        &&& after.session == before.session
        &&& after.mode.overlays == before.mode.overlays
        &&& match before.mode.base {
            Base::Peek(p) => after.mode.base == Base::Peek(Box::new(Peek {
                state: crate::view::ViewState {
                    scroll: paged(
                        p.state.scroll,
                        dir,
                        spec_times(dir, page_step(before.peek_viewport_h)),
                        crate::stream::spec_max_scroll(p.plan@.rows.len() as int, before.peek_h() as int),
                    ) as usize,
                    ..p.state
                },
                ..*p
            })),
            Base::Normal { .. } => after.mode.base == before.mode.base,
        }
    }

    /// Page the peek `dir` times its viewport height less one row (at least
    /// one row), down for `dir` positive and up for negative, within its
    /// last full page.
    pub fn peek_page(&mut self, dir: isize)
        requires
            old(self).wf(),
            isize::MIN <= dir * page_step(old(self).peek_viewport_h) <= isize::MAX,
        ensures
            final(self).wf(),
            Self::peek_page_done(*old(self), *final(self), dir),
    {
        let h = self.peek_viewport_h;
        let step = if h > 1 {
            h - 1
        } else {
            1
        };
        let rows = times(dir, step);
        self.peek_step(dir, rows);
    }

    /// What [`App::peek_half_page`] promises: `after` is the app once the call has run on
    /// `before`.
    pub open spec fn peek_half_page_done(before: App, after: App, dir: isize) -> bool {
        &&& after.session == before.session
        &&& after.mode.overlays == before.mode.overlays
        &&& match before.mode.base {
            Base::Peek(p) => after.mode.base == Base::Peek(Box::new(Peek {
                state: crate::view::ViewState {
                    scroll: paged(
                        p.state.scroll,
                        dir,
                        spec_times(dir, half_step(before.peek_viewport_h)),
                        crate::stream::spec_max_scroll(p.plan@.rows.len() as int, before.peek_h() as int),
                    ) as usize,
                    ..p.state
                },
                ..*p
            })),
            Base::Normal { .. } => after.mode.base == before.mode.base,
        }
    }

    /// Move the peek `dir` times half its viewport height (at least one
    /// row), down for `dir` positive and up for negative, within its last
    /// full page.
    pub fn peek_half_page(&mut self, dir: isize)
        requires
            old(self).wf(),
            isize::MIN <= dir * half_step(old(self).peek_viewport_h) <= isize::MAX,
        ensures
            final(self).wf(),
            Self::peek_half_page_done(*old(self), *final(self), dir),
    {
        let h = self.peek_viewport_h;
        let step = if h / 2 > 1 {
            h / 2
        } else {
            1
        };
        let rows = times(dir, step);
        self.peek_step(dir, rows);
    }

    /// What [`App::peek_top`] promises: `after` is the app once the call has run on
    /// `before`.
    pub open spec fn peek_top_done(before: App, after: App) -> bool {
        &&& after.session == before.session
        &&& after.mode.overlays == before.mode.overlays
        &&& match before.mode.base {
            Base::Peek(p) => after.mode.base == Base::Peek(Box::new(Peek {
                state: crate::view::ViewState {
                    scroll: paged(
                        p.state.scroll,
                        -1isize,
                        usize::MAX,
                        crate::stream::spec_max_scroll(p.plan@.rows.len() as int, before.peek_h() as int),
                    ) as usize,
                    ..p.state
                },
                ..*p
            })),
            Base::Normal { .. } => after.mode.base == before.mode.base,
        }
    }

    /// Move the peek to its top.
    pub fn peek_top(&mut self)
        requires
            old(self).wf(),
        ensures
            final(self).wf(),
            Self::peek_top_done(*old(self), *final(self)),
    {
        self.peek_step(-1, usize::MAX);
    }

    /// What [`App::peek_bottom`] promises: `after` is the app once the call has run on
    /// `before`.
    pub open spec fn peek_bottom_done(before: App, after: App) -> bool {
        &&& after.session == before.session
        &&& after.mode.overlays == before.mode.overlays
        &&& match before.mode.base {
            Base::Peek(p) => after.mode.base == Base::Peek(Box::new(Peek {
                state: crate::view::ViewState {
                    scroll: paged(
                        p.state.scroll,
                        1,
                        usize::MAX,
                        crate::stream::spec_max_scroll(p.plan@.rows.len() as int, before.peek_h() as int),
                    ) as usize,
                    ..p.state
                },
                ..*p
            })),
            Base::Normal { .. } => after.mode.base == before.mode.base,
        }
    }

    /// Move the peek to its last full page.
    pub fn peek_bottom(&mut self)
        requires
            old(self).wf(),
        ensures
            final(self).wf(),
            Self::peek_bottom_done(*old(self), *final(self)),
    {
        self.peek_step(1, usize::MAX);
    }

    /// Move the peek `step` rows down (`dir` positive) or up (`dir`
    /// negative), within its last full page.
    fn peek_step(&mut self, dir: isize, step: usize)
        requires
            old(self).wf(),
        ensures
            final(self).wf(),
            final(self).session == old(self).session,
            final(self).mode.overlays == old(self).mode.overlays,
            match old(self).mode.base {
                Base::Peek(p) => final(self).mode.base == Base::Peek(Box::new(Peek {
                    state: crate::view::ViewState {
                        scroll: paged(
                            p.state.scroll,
                            dir,
                            step,
                            crate::stream::spec_max_scroll(p.plan@.rows.len() as int, old(self).peek_h() as int),
                        ) as usize,
                        ..p.state
                    },
                    ..*p
                })),
                Base::Normal { .. } => final(self).mode.base == old(self).mode.base,
            },
    {
        let vh = if self.peek_viewport_h >= 1 {
            self.peek_viewport_h
        } else {
            1
        };
        if let Some(mut p) = self.take_peek() {
            let max = crate::stream::max_scroll_rows(p.plan.rows.len(), vh);
            let s = p.state.scroll;
            p.state.scroll = if dir > 0 {
                if s >= max || step >= max - s {
                    max
                } else {
                    s + step
                }
            } else if dir < 0 {
                if step >= s {
                    0
                } else if s - step > max {
                    max
                } else {
                    s - step
                }
            } else if s > max {
                max
            } else {
                s
            };
            self.mode.base = Base::Peek(Box::new(p));
        }
    }
}

/// `step` rows taken as many times as `dir` counts, whichever its sign.
pub open spec fn spec_times(dir: isize, step: usize) -> usize {
    ((if dir < 0 {
        -dir
    } else {
        dir as int
    }) * step) as usize
}

/// `step` rows taken as many times as `dir` counts, whichever its sign.
fn times(dir: isize, step: usize) -> (r: usize)
    requires
        isize::MIN <= dir * step <= isize::MAX,
    ensures
        r == spec_times(dir, step),
{
    if dir >= 0 {
        let m = dir as usize;
        assert(m * step <= usize::MAX) by (nonlinear_arith)
            requires
                m == dir,
                dir * step <= isize::MAX,
                isize::MAX <= usize::MAX,
        ;
        m * step
    } else {
        let m = ((-(dir + 1)) as usize) + 1;
        assert(m * step <= usize::MAX && m * step == -dir * step) by (nonlinear_arith)
            requires
                m == -dir,
                isize::MIN <= dir * step,
                isize::MAX + 1 <= usize::MAX,
                isize::MIN == -isize::MAX - 1,
        ;
        m * step
    }
}

/// The peek's scroll after moving `step` rows down (`dir` positive) or up
/// (`dir` negative) from `scroll`, kept within `0..=max`.
pub open spec fn paged(scroll: usize, dir: isize, step: usize, max: int) -> int {
    let t = if dir > 0 {
        scroll + step
    } else if dir < 0 {
        scroll - step
    } else {
        scroll as int
    };
    if t < 0 {
        0
    } else if t > max {
        max
    } else {
        t
    }
}

/// A page's step: the viewport height less one row, at least one row.
pub open spec fn page_step(h: usize) -> usize {
    if h > 1 {
        (h - 1) as usize
    } else {
        1
    }
}

/// A half page's step: half the viewport height, at least one row.
pub open spec fn half_step(h: usize) -> usize {
    if h / 2 > 1 {
        h / 2
    } else {
        1
    }
}

/// `after` has the peek on file `i` of `before`'s view open in `mode` over
/// `sides`, in the main view's layout.
pub open spec fn opened(before: App, after: App, i: int, mode: PeekMode, sides: Option<Sides>) -> bool {
    after.mode.base matches Base::Peek(q) && {
        &&& q.path@ == before.session.cur().cs.files@[i].path@
        &&& q.origin_local == before.session.cur().kind.spec_is_local()
        &&& q.mode == mode
        &&& q.sides == sides
        &&& q.full
        &&& q.split_view == (before.pl().layout == crate::model::LayoutMode::Split)
        &&& q.rebuilt()
        &&& q.blame is None
        &&& !q.blame_pending
    }
}

/// `r` asks for the blame of `path` in `a`'s current view: at the view's
/// blame revision, through the previous path of the first file at `path`,
/// and, when that file was deleted, the view's old side.
pub open spec fn blame_asked(a: App, path: Seq<char>, r: BlameRequest) -> bool {
    let (rev, old_side) = spec_blame_revs(a.session.cur().kind, a.session.cur().base);
    let files = a.session.cur().cs.files@;
    &&& r.rev@ == rev
    &&& r.path@ == path
    &&& match file_at_path(files, path) {
        Some(k) => {
            &&& r.prev_path == files[k].previous_path
            &&& files[k].status == FileStatus::Deleted ==> (r.fallback_rev matches Some(f) && f@ == old_side)
            &&& files[k].status != FileStatus::Deleted ==> r.fallback_rev is None
        },
        None => r.prev_path is None && r.fallback_rev is None,
    }
}

} // verus!
