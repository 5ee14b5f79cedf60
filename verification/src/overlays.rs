//! The palette and commit-message overlays: opening the file and commit
//! pickers, editing and re-reading the query (a commit picker takes a hex
//! query as a sha prefix and a known path as a request to show that file's
//! history), confirming a pick, and the commit-message popup. Fuzzy scores,
//! commit lists and commit messages come from the caller.

use vstd::prelude::*;
use crate::app::App;
use crate::history::has_path;
use crate::model::{CommitInfo, CommitMessage};
use crate::palette::{all_indices, indices, is_ranking, kept_selection, rank_scores, recompute, scored_count};
use crate::session::{FileStub, ViewKind, undiffed_jobs};
use crate::text::{all_hex, is_hex_digit, push_char, starts_with};
use crate::types::{Base, CommitMsg, Focus, Mode, Overlay, Palette, PaletteKind};

verus! {

/// The topmost overlay, when it is a palette.
pub open spec fn top_palette(m: Mode) -> Option<Palette> {
    match m.overlay_spec() {
        Some(Overlay::Palette(p)) => Some(p),
        _ => None,
    }
}

/// `after`'s overlays are `before`'s with only the topmost one replaced.
pub open spec fn top_replaced(before: Mode, after: Mode) -> bool {
    &&& after.base == before.base
    &&& after.stack().len() == before.stack().len()
    &&& after.stack().drop_last() == before.stack().drop_last()
}

/// Two modes with the same base and the same overlays.
pub open spec fn same_mode(a: Mode, b: Mode) -> bool {
    a.base == b.base && a.stack() == b.stack()
}

/// A query read as a sha prefix: at least four characters, all hex digits.
pub open spec fn is_sha_query(q: Seq<char>) -> bool {
    q.len() >= 4 && forall|i: int| 0 <= i < q.len() ==> is_hex_digit(#[trigger] q[i])
}

/// The first `k` commits whose full or short id begins with `q`, by index.
pub open spec fn sha_hits(commits: Seq<CommitInfo>, q: Seq<char>, k: int) -> Seq<usize>
    decreases k,
{
    if k <= 0 {
        Seq::empty()
    } else {
        let prev = sha_hits(commits, q, k - 1);
        if q.is_prefix_of(commits[k - 1].id@) || q.is_prefix_of(commits[k - 1].short@) {
            prev.push((k - 1) as usize)
        } else {
            prev
        }
    }
}

/// The commits whose full or short id begins with `q`, by index.
fn sha_matches(commits: &Vec<CommitInfo>, q: &str) -> (r: Vec<usize>)
    ensures
        r@ == sha_hits(commits@, q@, commits@.len() as int),
{
    let mut r: Vec<usize> = Vec::new();
    let mut i: usize = 0;
    while i < commits.len()
        invariant
            i <= commits@.len(),
            r@ == sha_hits(commits@, q@, i as int),
        decreases commits@.len() - i,
    {
        if starts_with(commits[i].id.as_str(), q) || starts_with(commits[i].short.as_str(), q) {
            r.push(i);
        }
        i = i + 1;
    }
    r
}

/// The selection after re-reading a palette `p` whose first recompute found
/// `scored` scored candidates.
pub open spec fn first_pass_selection(p: Palette, scored: nat) -> usize {
    match p.kind {
        PaletteKind::Files => kept_selection(p.selected, scored as int),
        PaletteKind::Commits { commits, .. } => kept_selection(
            p.selected,
            if p.query@.len() == 0 {
                commits@.len() as int
            } else {
                scored as int
            },
        ),
    }
}

impl App {
    /// Whether the topmost overlay is a palette.
    pub fn palette_open(&self) -> (r: bool)
        ensures
            r == top_palette(self.mode) is Some,
    {
        match self.mode.overlay() {
            Some(Overlay::Palette(_)) => true,
            _ => false,
        }
    }

    /// What [`App::palette_close`] promises: `after` is the app once the call has run on
    /// `before`.
    pub open spec fn palette_close_done(before: App, after: App) -> bool {
        &&& after.session == before.session
        &&& after.mode.base == before.mode.base
        &&& before.mode.stack().len() > 0 ==> after.mode.stack() == before.mode.stack().drop_last()
        &&& before.mode.stack().len() == 0 ==> after.mode.stack() == before.mode.stack()
    }

    /// Close the topmost overlay (the palette).
    pub fn palette_close(&mut self)
        ensures
            Self::palette_close_done(*old(self), *final(self)),
    {
        self.close_overlay();
    }

    /// Whether the topmost overlay is the commit-message popup.
    pub fn commit_msg_open(&self) -> (r: bool)
        ensures
            r == (self.mode.overlay_spec() matches Some(Overlay::CommitMessage(_))),
    {
        match self.mode.overlay() {
            Some(Overlay::CommitMessage(_)) => true,
            _ => false,
        }
    }

    /// What [`App::commit_msg_dismiss`] promises: `after` is the app once the call has run on
    /// `before`.
    pub open spec fn commit_msg_dismiss_done(before: App, after: App) -> bool {
        &&& after.session == before.session
        &&& after.mode.base == before.mode.base
        &&& before.mode.stack().len() > 0 ==> after.mode.stack() == before.mode.stack().drop_last()
        &&& before.mode.stack().len() == 0 ==> after.mode.stack() == before.mode.stack()
    }

    /// Dismiss the popup, revealing what it was summoned over.
    pub fn commit_msg_dismiss(&mut self)
        ensures
            Self::commit_msg_dismiss_done(*old(self), *final(self)),
    {
        self.close_overlay();
    }

    /// What [`App::commit_msg_page`] promises: `after` is the app once the call has run on
    /// `before`.
    pub open spec fn commit_msg_page_done(before: App, after: App, dir: isize) -> bool {
        &&& after.session == before.session
        &&& after.mode.base == before.mode.base
        &&& ({
            let h = before.commit_msg_viewport_h;
            let step = if h > 1 {
                h - 1
            } else {
                1
            };
            match before.mode.overlay_spec() {
                Some(Overlay::CommitMessage(m)) => after.mode.stack() == before.mode.stack().update(
                    before.mode.stack().len() - 1,
                    Overlay::CommitMessage(
                        CommitMsg {
                            scroll: crate::app::popup_scroll(m.scroll, (dir * step) as isize, m.body_lines, h)
                                as usize,
                            ..m
                        },
                    ),
                ),
                _ => after.mode.stack() == before.mode.stack(),
            }
        })
    }

    /// Page the popup body `dir` times its viewport height less one row (at
    /// least one row), down for `dir` positive and up for negative.
    pub fn commit_msg_page(&mut self, dir: isize)
        requires
            old(self).commit_msg_viewport_h <= isize::MAX,
            isize::MIN <= dir * crate::stream::spec_page_step(old(self).commit_msg_viewport_h) <= isize::MAX,
        ensures
            Self::commit_msg_page_done(*old(self), *final(self), dir),
    {
        let h = self.commit_msg_viewport_h;
        let step: isize = if h > 1 {
            (h - 1) as isize
        } else {
            1
        };
        assert(step == crate::stream::spec_page_step(h));
        self.commit_msg_scroll(dir * step);
    }

    /// Open the file palette over the view's files, given each file's fuzzy
    /// score against the empty query: the scored files, best first.
    pub fn open_palette(&mut self, scores: &[Option<i32>])
        ensures
            final(self).session == old(self).session,
            final(self).mode.base == old(self).mode.base,
            final(self).mode.stack().len() == old(self).mode.stack().len() + 1,
            final(self).mode.stack().drop_last() == old(self).mode.stack(),
            top_palette(final(self).mode) matches Some(p) && {
                &&& p.kind is Files
                &&& p.query@.len() == 0
                &&& is_ranking(scores@, p.matches@)
                &&& p.selected == 0
                &&& p.mode_hint@.len() == 0
            },
    {
        proof {
            reveal_strlit("");
        }
        let matches = rank_scores(scores);
        let p = Palette { kind: PaletteKind::Files, query: String::new(), matches, selected: 0, mode_hint: "" };
        self.mode.push_overlay(Overlay::Palette(p));
        proof {
            assert(self.mode.stack().drop_last() =~= old(self).mode.stack());
        }
    }

    /// Open the commit picker over `commits` (the newest first, `scoped_path`
    /// when they are one file's history, `truncated` when the list was cut):
    /// every commit listed in order. Without a repository nothing opens.
    pub fn open_commit_picker(&mut self, commits: Vec<CommitInfo>, scoped_path: Option<String>, truncated: bool)
        ensures
            final(self).session == old(self).session,
            final(self).mode.base == old(self).mode.base,
            old(self).session.repo_dir is None ==> same_mode(old(self).mode, final(self).mode),
            old(self).session.repo_dir is Some ==> {
                &&& final(self).mode.stack().len() == old(self).mode.stack().len() + 1
                &&& final(self).mode.stack().drop_last() == old(self).mode.stack()
                &&& top_palette(final(self).mode) matches Some(p) && {
                    &&& p.kind == (PaletteKind::Commits { commits, scoped_path, truncated })
                    &&& p.query@.len() == 0
                    &&& p.matches@ == all_indices(commits@.len())
                    &&& p.selected == 0
                    &&& p.mode_hint@ == "summary"@
                }
            },
    {
        proof {
            reveal_strlit("summary");
        }
        if self.session.repo_dir.is_none() {
            return;
        }
        let matches = indices(commits.len());
        let kind = PaletteKind::Commits { commits, scoped_path, truncated };
        let p = Palette { kind, query: String::new(), matches, selected: 0, mode_hint: "summary" };
        self.mode.push_overlay(Overlay::Palette(p));
        proof {
            assert(self.mode.stack().drop_last() =~= old(self).mode.stack());
        }
    }

    /// The path whose history `F` shows: the selected file's (none while a
    /// folded directory is selected).
    pub fn file_history_path(&self) -> (r: Option<String>)
        requires
            self.wf(),
        ensures
            ({
                let files = self.session.cur().cs.files@;
                let st = self.st();
                match r {
                    Some(s) => st.selected_dir is None && st.selected < files.len() && s@ == files[st.selected as int].path@,
                    None => st.selected_dir is Some || st.selected >= files.len(),
                }
            }),
    {
        let i = self.session.cursor;
        match self.session.views[i].state.selected_file() {
            Some(k) => {
                if k < self.session.views[i].cs.files.len() {
                    Some(self.session.views[i].cs.files[k].path.clone())
                } else {
                    None
                }
            },
            None => None,
        }
    }

    /// What [`App::palette_input`] promises: `after` is the app once the call has run on
    /// `before`.
    pub open spec fn palette_input_done(before: App, after: App, c: char) -> bool {
        &&& after.session == before.session
        &&& top_palette(before.mode) is None ==> same_mode(before.mode, after.mode)
        &&& top_palette(before.mode) matches Some(p) ==> {
            &&& top_replaced(before.mode, after.mode)
            &&& top_palette(after.mode) matches Some(q) && q == (Palette { query: q.query, ..p })
                && q.query@ == p.query@.push(c)
        }
    }

    /// Type `c` into the open palette's query (re-read it with
    /// [`App::palette_refresh`]). Without a palette on top nothing changes.
    pub fn palette_input(&mut self, c: char)
        ensures
            Self::palette_input_done(*old(self), *final(self), c),
    {
        match self.mode.pop_overlay() {
            Some(Overlay::Palette(mut p)) => {
                push_char(&mut p.query, c);
                self.mode.push_overlay(Overlay::Palette(p));
            },
            Some(other) => self.mode.push_overlay(other),
            None => {},
        }
        proof {
            if old(self).mode.stack().len() > 0 {
                assert(old(self).mode.stack().drop_last().push(old(self).mode.stack().last()) =~= old(
                    self,
                ).mode.stack());
                assert(self.mode.stack().drop_last() =~= old(self).mode.stack().drop_last());
            }
        }
    }

    /// What [`App::palette_backspace`] promises: `after` is the app once the call has run on
    /// `before`.
    pub open spec fn palette_backspace_done(before: App, after: App) -> bool {
        &&& after.session == before.session
        &&& top_palette(before.mode) is None ==> same_mode(before.mode, after.mode)
        &&& top_palette(before.mode) matches Some(p) ==> {
            &&& top_replaced(before.mode, after.mode)
            &&& top_palette(after.mode) matches Some(q) && q == (Palette { query: q.query, ..p })
                && q.query@ == if p.query@.len() > 0 {
                p.query@.drop_last()
            } else {
                p.query@
            }
        }
    }

    /// Delete the last character of the open palette's query (re-read it
    /// with [`App::palette_refresh`]). Without a palette on top nothing
    /// changes.
    pub fn palette_backspace(&mut self)
        ensures
            Self::palette_backspace_done(*old(self), *final(self)),
    {
        match self.mode.pop_overlay() {
            Some(Overlay::Palette(mut p)) => {
                let n = p.query.unicode_len();
                if n > 0 {
                    let shorter = p.query.as_str().substring_char(0, n - 1).to_owned();
                    p.query = shorter;
                }
                self.mode.push_overlay(Overlay::Palette(p));
            },
            Some(other) => self.mode.push_overlay(other),
            None => {},
        }
        proof {
            if old(self).mode.stack().len() > 0 {
                assert(old(self).mode.stack().drop_last().push(old(self).mode.stack().last()) =~= old(
                    self,
                ).mode.stack());
                assert(self.mode.stack().drop_last() =~= old(self).mode.stack().drop_last());
            }
        }
    }

    /// Re-read the open palette's query, given each candidate's fuzzy score
    /// against it (the view's files, or the commit list). A file palette
    /// lists the scored files best first. A commit picker reads the query:
    /// within one file's history, or while empty, it ranks by summary; a sha
    /// prefix lists the commits whose id begins with it; a path of the view
    /// asks (the returned path) to show that file's history instead, once
    /// the caller has fetched it ([`App::palette_rescope`]); anything else
    /// ranks by summary. The selection stays within the matches.
    #[verifier::rlimit(30)]
    pub fn palette_refresh(&mut self, scores: &[Option<i32>]) -> (ask: Option<String>)
        requires
            old(self).wf(),
            top_palette(old(self).mode) matches Some(p) ==> (p.kind matches PaletteKind::Commits { commits, .. }
                ==> scores@.len() == commits@.len()),
        ensures
            final(self).session == old(self).session,
            top_palette(old(self).mode) is None ==> same_mode(old(self).mode, final(self).mode) && ask is None,
            top_palette(old(self).mode) matches Some(p) ==> {
                let q = p.query@;
                let sel = first_pass_selection(p, scored_count(scores@));
                &&& top_replaced(old(self).mode, final(self).mode)
                &&& top_palette(final(self).mode) matches Some(np) && {
                    &&& np.kind == p.kind
                    &&& np.query == p.query
                    &&& match p.kind {
                        PaletteKind::Files => {
                            &&& ask is None
                            &&& np.mode_hint == p.mode_hint
                            &&& is_ranking(scores@, np.matches@)
                            &&& np.selected == sel
                        },
                        PaletteKind::Commits { commits, scoped_path, .. } => {
                            let ranked = if q.len() == 0 {
                                np.matches@ == all_indices(commits@.len())
                            } else {
                                is_ranking(scores@, np.matches@)
                            };
                            if scoped_path is Some || q.len() == 0 {
                                &&& ask is None
                                &&& np.mode_hint@ == if scoped_path is Some {
                                    "file history"@
                                } else {
                                    "summary"@
                                }
                                &&& ranked
                                &&& np.selected == sel
                            } else if is_sha_query(q) {
                                let hits = sha_hits(commits@, q, commits@.len() as int);
                                &&& ask is None
                                &&& np.mode_hint@ == "sha"@
                                &&& np.matches@ == hits
                                &&& np.selected == kept_selection(sel, hits.len() as int)
                            } else if has_path(old(self).session.cur().cs.files@, q) {
                                &&& (ask is Some <==> old(self).session.repo_dir is Some)
                                &&& (ask matches Some(s) ==> s@ == q)
                                &&& np.mode_hint == p.mode_hint
                                &&& ranked
                                &&& np.selected == sel
                            } else {
                                &&& ask is None
                                &&& np.mode_hint@ == "summary"@
                                &&& ranked
                                &&& np.selected == sel
                            }
                        },
                    }
                }
            },
    {
        proof {
            reveal_strlit("file history");
            reveal_strlit("summary");
            reveal_strlit("sha");
        }
        let mut ask: Option<String> = None;
        match self.mode.pop_overlay() {
            Some(Overlay::Palette(mut p)) => {
                recompute(&mut p, scores);
                let is_commits = match &p.kind {
                    PaletteKind::Commits { .. } => true,
                    PaletteKind::Files => false,
                };
                if is_commits {
                    let scoped = match &p.kind {
                        PaletteKind::Commits { scoped_path, .. } => scoped_path.is_some(),
                        PaletteKind::Files => false,
                    };
                    let n = p.query.unicode_len();
                    if scoped || n == 0 {
                        p.mode_hint = if scoped {
                            "file history"
                        } else {
                            "summary"
                        };
                    } else if n >= 4 && all_hex(p.query.as_str()) {
                        let hits = match &p.kind {
                            PaletteKind::Commits { commits, .. } => sha_matches(commits, p.query.as_str()),
                            PaletteKind::Files => Vec::new(),
                        };
                        p.mode_hint = "sha";
                        let last = if hits.len() == 0 {
                            0
                        } else {
                            hits.len() - 1
                        };
                        p.matches = hits;
                        if p.selected > last {
                            p.selected = last;
                        }
                    } else if self.names_file(p.query.as_str()) {
                        if self.session.repo_dir.is_some() {
                            ask = Some(p.query.clone());
                        }
                    } else {
                        p.mode_hint = "summary";
                    }
                }
                self.mode.push_overlay(Overlay::Palette(p));
            },
            Some(other) => self.mode.push_overlay(other),
            None => {},
        }
        proof {
            if old(self).mode.stack().len() > 0 {
                assert(old(self).mode.stack().drop_last().push(old(self).mode.stack().last()) =~= old(
                    self,
                ).mode.stack());
                assert(self.mode.stack().drop_last() =~= old(self).mode.stack().drop_last());
            }
        }
        ask
    }

    /// Whether some file of the current view has the path `q`.
    fn names_file(&self, q: &str) -> (r: bool)
        requires
            self.wf(),
        ensures
            r == has_path(self.session.cur().cs.files@, q@),
    {
        let i = self.session.cursor;
        let n = self.session.views[i].cs.files.len();
        let mut k: usize = 0;
        while k < n
            invariant
                i == self.session.cursor,
                self.wf(),
                n == self.session.cur().cs.files@.len(),
                k <= n,
                forall|j: int| 0 <= j < k ==> (#[trigger] self.session.cur().cs.files@[j]).path@ != q@,
            decreases n - k,
        {
            if crate::text::str_eq(self.session.views[i].cs.files[k].path.as_str(), q) {
                return true;
            }
            k = k + 1;
        }
        false
    }

    /// Show `path`'s history in the open commit picker: the fetched
    /// `commits` all listed in order, the query cleared. Without a commit
    /// picker on top nothing changes.
    pub fn palette_rescope(&mut self, path: String, commits: Vec<CommitInfo>, truncated: bool)
        ensures
            final(self).session == old(self).session,
            !(top_palette(old(self).mode) matches Some(p) && p.kind is Commits) ==> same_mode(old(self).mode, final(self).mode),
            top_palette(old(self).mode) matches Some(p) && p.kind is Commits ==> {
                &&& top_replaced(old(self).mode, final(self).mode)
                &&& top_palette(final(self).mode) matches Some(np) && {
                    &&& np.kind == (PaletteKind::Commits { commits, scoped_path: Some(path), truncated })
                    &&& np.query@.len() == 0
                    &&& np.matches@ == all_indices(commits@.len())
                    &&& np.selected == 0
                    &&& np.mode_hint@ == "file history"@
                }
            },
    {
        proof {
            reveal_strlit("file history");
        }
        match self.mode.pop_overlay() {
            Some(Overlay::Palette(p)) => {
                let is_commits = match &p.kind {
                    PaletteKind::Commits { .. } => true,
                    PaletteKind::Files => false,
                };
                if is_commits {
                    let matches = indices(commits.len());
                    let np = Palette {
                        kind: PaletteKind::Commits { commits, scoped_path: Some(path), truncated },
                        query: String::new(),
                        matches,
                        selected: 0,
                        mode_hint: "file history",
                    };
                    self.mode.push_overlay(Overlay::Palette(np));
                } else {
                    self.mode.push_overlay(Overlay::Palette(p));
                }
            },
            Some(other) => self.mode.push_overlay(other),
            None => {},
        }
        proof {
            if old(self).mode.stack().len() > 0 {
                assert(old(self).mode.stack().drop_last().push(old(self).mode.stack().last()) =~= old(
                    self,
                ).mode.stack());
                assert(self.mode.stack().drop_last() =~= old(self).mode.stack().drop_last());
            }
        }
    }
}

/// The commit a commit picker `p` has selected: its index into the list,
/// when the selection is a match and the match a commit.
pub open spec fn picked_commit(p: Palette) -> Option<int> {
    match p.kind {
        PaletteKind::Commits { commits, .. } => if p.selected < p.matches@.len() && p.matches@[p.selected as int]
            < commits@.len() {
            Some(p.matches@[p.selected as int] as int)
        } else {
            None
        },
        PaletteKind::Files => None,
    }
}

impl App {
    /// What [`App::palette_confirm`] promises: `after` is the app once the call has run on
    /// `before`.
    pub open spec fn palette_confirm_done(before: App, after: App, rev: Option<String>) -> bool {
        &&& ({
            match top_palette(before.mode) {
                None => after == before && rev is None,
                Some(p) => if p.selected >= p.matches@.len() {
                    after == before && rev is None
                } else {
                    let idx = p.matches@[p.selected as int];
                    match p.kind {
                        PaletteKind::Files => {
                            let n = before.session.cur().cs.files@.len();
                            &&& rev is None
                            &&& after.mode.stack() == before.mode.stack().drop_last()
                            &&& idx < n ==> after.st().selected == idx && after.st().selected_dir is None
                            &&& idx >= n ==> after.session == before.session
                        },
                        PaletteKind::Commits { commits, .. } => if idx < commits@.len() {
                            after == before && (rev matches Some(r) && r@ == commits@[idx as int].id@)
                        } else {
                            &&& rev is None
                            &&& after.session == before.session
                            &&& after.mode.base == before.mode.base
                            &&& after.mode.stack() == before.mode.stack().drop_last()
                        },
                    }
                },
            }
        })
    }

    /// Confirm the palette's selection. A file palette closes and lands on
    /// the file (unfolding its directory); a commit picker stays open and
    /// answers the selected commit's id, for the caller to fetch and then
    /// switch to with [`App::palette_open_commit`]. With no match selected
    /// the palette stays open and nothing happens.
    pub fn palette_confirm(&mut self) -> (rev: Option<String>)
        requires
            old(self).wf(),
        ensures
            final(self).wf(),
            Self::palette_confirm_done(*old(self), *final(self), rev),
    {
        let ghost m0 = self.mode;
        let (open, idx, files, rev) = match self.mode.overlay() {
            Some(Overlay::Palette(p)) => if p.selected < p.matches.len() {
                let idx = p.matches[p.selected];
                match &p.kind {
                    PaletteKind::Files => (true, idx, true, None),
                    PaletteKind::Commits { commits, .. } => if idx < commits.len() {
                        (true, idx, false, Some(commits[idx].id.clone()))
                    } else {
                        (true, idx, false, None)
                    },
                }
            } else {
                (false, 0, false, None)
            },
            _ => (false, 0, false, None),
        };
        if !open {
            return None;
        }
        if files {
            self.mode.pop_overlay();
            self.land_on_file(idx);
            return None;
        }
        match rev {
            Some(r) => Some(r),
            None => {
                self.mode.pop_overlay();
                None
            },
        }
    }

    /// What [`App::palette_pick`] promises: `after` is the app once the call has run on
    /// `before`.
    pub open spec fn palette_pick_done(before: App, after: App, n: usize, rev: Option<String>) -> bool {
        &&& !(top_palette(before.mode) matches Some(p) && n < p.matches@.len()) ==> after == before
            && rev is None
        &&& top_palette(before.mode) matches Some(p) ==> (n < p.matches@.len() ==> ({
            let idx = p.matches@[n as int];
            match p.kind {
                PaletteKind::Files => {
                    let files = before.session.cur().cs.files@;
                    &&& rev is None
                    &&& after.mode.stack() == before.mode.stack().drop_last()
                    &&& idx < files.len() ==> after.st().selected == idx
                        && after.st().selected_dir is None
                },
                PaletteKind::Commits { commits, .. } => idx < commits@.len() ==> (rev matches Some(r) && r@
                    == commits@[idx as int].id@ && after.session == before.session
                    && top_palette(after.mode) == Some(Palette { selected: n, ..p })),
            }
        }))
    }

    /// Pick the `n`-th match (from 0) and confirm it, as
    /// [`App::palette_confirm`] does; a number past the matches does nothing.
    pub fn palette_pick(&mut self, n: usize) -> (rev: Option<String>)
        requires
            old(self).wf(),
        ensures
            final(self).wf(),
            Self::palette_pick_done(*old(self), *final(self), n, rev),
    {
        let pick = match self.mode.overlay() {
            Some(Overlay::Palette(p)) => n < p.matches.len(),
            _ => false,
        };
        if !pick {
            return None;
        }
        match self.mode.pop_overlay() {
            Some(Overlay::Palette(mut p)) => {
                p.selected = n;
                self.mode.push_overlay(Overlay::Palette(p));
            },
            Some(other) => self.mode.push_overlay(other),
            None => {},
        }
        proof {
            assert(self.mode.stack().drop_last() =~= old(self).mode.stack().drop_last());
            assert(self.wf());
        }
        self.palette_confirm()
    }

    /// Switch to the commit the open commit picker has selected, from its
    /// fetched `stubs` (listed under `source`) and message `banner`, landing
    /// on the picker's file when it lists one file's history; the picker
    /// closes. Without such a selection, or without a repository, nothing
    /// happens (`None`).
    pub fn palette_open_commit(
        &mut self,
        source: &str,
        stubs: Vec<FileStub>,
        banner: Vec<String>,
        now_ms: u64,
    ) -> (jobs: Option<Vec<(usize, FileStub)>>)
        requires
            old(self).wf(),
        ensures
            final(self).wf(),
            !(top_palette(old(self).mode) matches Some(p) && picked_commit(p) is Some)
                || old(self).session.repo_dir is None ==> *final(self) == *old(self) && jobs is None,
            old(self).session.repo_dir is Some ==> (top_palette(old(self).mode) matches Some(p)
                ==> (picked_commit(p) matches Some(k) ==> ({
                let commits = p.kind->commits;
                let e = final(self).session.cur();
                &&& jobs matches Some(js) && js@ == undiffed_jobs(e.cs.files@, stubs@, stubs@.len() as int)
                &&& final(self).mode.stack() == old(self).mode.stack().drop_last()
                &&& final(self).session.cursor == old(self).session.cursor + 1
                &&& e.kind matches ViewKind::Commit(r) && r@ == commits@[k].id@
                &&& e.banner == banner
                &&& e.stubs == stubs
                &&& !e.review
                &&& (p.kind->scoped_path matches Some(sp) ==> (has_path(e.cs.files@, sp@)
                    ==> e.cs.files@[final(self).st().selected as int].path@ == sp@))
            }))),
    {
        let target = match self.mode.overlay() {
            Some(Overlay::Palette(p)) => match &p.kind {
                PaletteKind::Commits { commits, scoped_path, .. } => if p.selected < p.matches.len()
                    && p.matches[p.selected] < commits.len() {
                    Some((commits[p.matches[p.selected]].id.clone(), scoped_path.clone()))
                } else {
                    None
                },
                PaletteKind::Files => None,
            },
            _ => None,
        };
        let (rev, land) = match target {
            Some(t) => t,
            None => {
                return None;
            },
        };
        if self.session.repo_dir.is_none() {
            return None;
        }
        let ghost before = *self;
        let popped = self.mode.pop_overlay();
        proof {
            assert(self.wf());
        }
        let land_ref: Option<&str> = match &land {
            Some(s) => Some(s.as_str()),
            None => None,
        };
        let jobs = self.open_commit(rev.as_str(), source, stubs, banner, land_ref, now_ms);
        proof {
            assert(self.mode.stack() == before.mode.stack().drop_last());
        }
        jobs
    }

    /// What [`App::palette_highlighted_sha`] answers, read off the app `app`.
    pub open spec fn palette_highlighted_sha_done(app: App, r: Option<String>) -> bool {
        &&& top_palette(app.mode) matches Some(p) ==> (picked_commit(p) matches Some(k) ==> (r matches Some(s)
            && s@ == p.kind->commits@[k].id@))
        &&& !(top_palette(app.mode) matches Some(p) && picked_commit(p) is Some) ==> r is None
    }

    /// The id of the commit the open commit picker has selected, whose full
    /// message `Tab` shows.
    pub fn palette_highlighted_sha(&self) -> (r: Option<String>)
        ensures
            Self::palette_highlighted_sha_done(*self, r),
    {
        match self.mode.overlay() {
            Some(Overlay::Palette(p)) => match &p.kind {
                PaletteKind::Commits { commits, .. } => if p.selected < p.matches.len()
                    && p.matches[p.selected] < commits.len() {
                    Some(commits[p.matches[p.selected]].id.clone())
                } else {
                    None
                },
                PaletteKind::Files => None,
            },
            _ => None,
        }
    }

    /// Open the commit-message popup over whatever is on screen, for a
    /// fetched `msg`. Without a repository nothing opens.
    pub fn open_commit_message(&mut self, msg: CommitMessage)
        ensures
            final(self).session == old(self).session,
            final(self).mode.base == old(self).mode.base,
            old(self).session.repo_dir is None ==> final(self).mode.stack() == old(self).mode.stack(),
            old(self).session.repo_dir is Some ==> {
                &&& final(self).mode.stack().drop_last() == old(self).mode.stack()
                &&& final(self).mode.stack().len() == old(self).mode.stack().len() + 1
                &&& final(self).mode.stack().last() matches Overlay::CommitMessage(m) && m.msg == msg && m.scroll == 0
            },
    {
        if self.session.repo_dir.is_none() {
            return;
        }
        self.mode.push_overlay(Overlay::CommitMessage(CommitMsg::new(msg)));
        proof {
            assert(self.mode.stack().drop_last() =~= old(self).mode.stack());
        }
    }

    /// Confirm the commit-message popup: switch to its commit from the
    /// fetched `stubs` (listed under `source`), with the message as banner,
    /// landing on the file it was reached through (the picker's file history
    /// beneath it, else the peeked file). On success the popup, a picker
    /// beneath it and the peek close; without a repository nothing changes.
    #[verifier::rlimit(30)]
    pub fn commit_msg_confirm(&mut self, source: &str, stubs: Vec<FileStub>, now_ms: u64) -> (jobs: Option<
        Vec<(usize, FileStub)>,
    >)
        requires
            old(self).wf(),
        ensures
            final(self).wf(),
            !(old(self).mode.overlay_spec() matches Some(Overlay::CommitMessage(_))) || old(self).session.repo_dir is None
                ==> *final(self) == *old(self) && jobs is None,
            old(self).session.repo_dir is Some ==> (old(self).mode.overlay_spec() matches Some(
                Overlay::CommitMessage(m),
            ) ==> ({
                let e = final(self).session.cur();
                let below = old(self).mode.stack().drop_last();
                &&& jobs matches Some(js) && js@ == undiffed_jobs(e.cs.files@, stubs@, stubs@.len() as int)
                &&& final(self).session.cursor == old(self).session.cursor + 1
                &&& e.kind matches ViewKind::Commit(r) && r@ == m.msg.sha@
                &&& crate::text::strs_v(e.banner@) == crate::session::spec_banner_lines(m.msg)
                &&& e.stubs == stubs
                &&& final(self).mode.base == (Base::Normal { focus: Focus::Stream })
                &&& final(self).mode.stack() == if below.len() > 0 && below.last() is Palette {
                    below.drop_last()
                } else {
                    below
                }
            })),
    {
        let is_popup = match self.mode.overlay() {
            Some(Overlay::CommitMessage(_)) => true,
            _ => false,
        };
        if !is_popup || self.session.repo_dir.is_none() {
            return None;
        }
        let ghost before = *self;
        let m = match self.mode.pop_overlay() {
            Some(Overlay::CommitMessage(m)) => m,
            Some(other) => {
                self.mode.push_overlay(other);
                return None;
            },
            None => {
                return None;
            },
        };
        let land: Option<String> = match self.mode.overlay() {
            Some(Overlay::Palette(p)) => match &p.kind {
                PaletteKind::Commits { scoped_path, .. } => scoped_path.clone(),
                PaletteKind::Files => self.peek_path(),
            },
            _ => self.peek_path(),
        };
        let land_ref: Option<&str> = match &land {
            Some(s) => Some(s.as_str()),
            None => None,
        };
        let banner = crate::session::banner_lines(&m.msg);
        proof {
            assert(self.wf());
        }
        let ghost mid = self.mode;
        let jobs = self.open_commit(m.msg.sha.as_str(), source, stubs, banner, land_ref, now_ms);
        let below_palette = match self.mode.overlay() {
            Some(Overlay::Palette(_)) => true,
            _ => false,
        };
        if below_palette {
            self.mode.pop_overlay();
        }
        proof {
            assert(self.wf());
        }
        self.peek_close();
        jobs
    }

    /// The peeked file's path, when the peek is open.
    fn peek_path(&self) -> (r: Option<String>)
        ensures
            match self.mode.base {
                Base::Peek(p) => r matches Some(s) && s@ == p.path@,
                Base::Normal { .. } => r is None,
            },
    {
        match &self.mode.base {
            Base::Peek(p) => Some(p.path.clone()),
            Base::Normal { .. } => None,
        }
    }
}

} // verus!
