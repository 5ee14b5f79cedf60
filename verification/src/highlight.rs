//! The bookkeeping of off-thread highlighting: which files' highlights have
//! been asked for, which have arrived (and whether they were baked for one
//! theme), under which theme, and in which epoch. A result asked for before
//! the last theme change or reset belongs to an older epoch and is
//! discarded, so a late result cannot paint a view it was not made for.
//! Running the highlighter and keeping the highlights is the caller's.

use vstd::prelude::*;
use crate::app::App;
use crate::model::DiffFile;
use crate::peek::PeekMode;
use crate::rows::{file_at, spec_file_at};
use crate::types::Base;

verus! {

/// The slot the peek's file is highlighted under.
pub const PEEK_HL: usize = usize::MAX;

/// A highlight to compute: file `idx` under `theme`, asked in `epoch`.
#[derive(Clone, Copy, Debug, PartialEq, Eq, Structural)]
pub struct HlJob {
    pub idx: usize,
    pub epoch: u32,
    pub theme: usize,
}

/// Highlight bookkeeping (see the module documentation). Themes are named
/// by their position in the caller's catalog.
#[derive(Debug)]
pub struct HlService {
    requested: Vec<usize>,
    cached: Vec<(usize, bool)>,
    theme: usize,
    epoch: u32,
}

/// Whether `held` has a highlight for `k`.
pub open spec fn holds(held: Set<(usize, bool)>, k: usize) -> bool {
    held.contains((k, true)) || held.contains((k, false))
}

/// The epoch after `e`, wrapping around.
pub open spec fn next_epoch(e: u32) -> u32 {
    if e == u32::MAX {
        0
    } else {
        (e + 1) as u32
    }
}

/// Whether a file has anything to highlight.
pub open spec fn highlightable(f: DiffFile) -> bool {
    !f.is_binary && (f.old_text is Some || f.new_text is Some)
}

impl HlService {
    /// The files whose highlights have been asked for.
    pub closed spec fn asked(&self) -> Set<usize> {
        self.requested@.to_set()
    }

    /// The highlights held, each with whether it was baked for the theme.
    pub closed spec fn held(&self) -> Set<(usize, bool)> {
        self.cached@.to_set()
    }

    /// The active theme.
    pub closed spec fn theme_now(&self) -> usize {
        self.theme
    }

    /// The current epoch.
    pub closed spec fn epoch_now(&self) -> u32 {
        self.epoch
    }

    /// Well formed: at most one highlight is held per file.
    pub closed spec fn wf(&self) -> bool {
        forall|p: (usize, bool), q: (usize, bool)|
            self.cached@.contains(p) && self.cached@.contains(q) && p.0 == q.0 ==> p == q
    }

    /// Nothing asked or held, under the catalog's first theme, in epoch 0.
    pub fn new() -> (h: HlService)
        ensures
            h.wf(),
            h.asked() == Set::<usize>::empty(),
            h.held() == Set::<(usize, bool)>::empty(),
            h.theme_now() == 0,
            h.epoch_now() == 0,
    {
        let h = HlService { requested: Vec::new(), cached: Vec::new(), theme: 0, epoch: 0 };
        assert(h.requested@.to_set() =~= Set::<usize>::empty());
        assert(h.cached@.to_set() =~= Set::<(usize, bool)>::empty());
        h
    }

    /// The current epoch.
    pub fn epoch(&self) -> (e: u32)
        ensures
            e == self.epoch_now(),
    {
        self.epoch
    }

    /// Whether a highlight for `idx` has been asked for.
    fn is_asked(&self, idx: usize) -> (r: bool)
        ensures
            r == self.asked().contains(idx),
    {
        let mut i: usize = 0;
        while i < self.requested.len()
            invariant
                i <= self.requested@.len(),
                forall|k: int| 0 <= k < i ==> self.requested@[k] != idx,
            decreases self.requested@.len() - i,
        {
            if self.requested[i] == idx {
                assert(self.requested@.contains(idx));
                return true;
            }
            i = i + 1;
        }
        false
    }

    /// Whether a highlight for `idx` is held.
    pub fn has(&self, idx: usize) -> (r: bool)
        ensures
            r == holds(self.held(), idx),
    {
        file_held(&self.cached, idx)
    }

    /// Whether `idx` still needs a highlight asked for: neither asked for
    /// nor held.
    pub fn needs(&self, idx: usize) -> (r: bool)
        ensures
            r == (!self.asked().contains(idx) && !holds(self.held(), idx)),
    {
        !self.is_asked(idx) && !self.has(idx)
    }

    /// Ask for `file`'s highlight under slot `idx`, once: nothing for a
    /// binary file, one with no text, or one already asked for.
    pub fn request(&mut self, idx: usize, file: &DiffFile) -> (job: Option<HlJob>)
        requires
            old(self).wf(),
        ensures
            final(self).wf(),
            final(self).held() == old(self).held(),
            final(self).theme_now() == old(self).theme_now(),
            final(self).epoch_now() == old(self).epoch_now(),
            highlightable(*file) && !old(self).asked().contains(idx) ==> job == Some(
                HlJob { idx, epoch: old(self).epoch_now(), theme: old(self).theme_now() },
            ) && final(self).asked() == old(self).asked().insert(idx),
            !(highlightable(*file) && !old(self).asked().contains(idx)) ==> job is None && final(self).asked()
                == old(self).asked(),
    {
        if file.is_binary || self.is_asked(idx) {
            return None;
        }
        if file.old_text.is_none() && file.new_text.is_none() {
            return None;
        }
        let ghost before = self.requested@;
        self.requested.push(idx);
        assert(self.requested@.to_set() =~= before.to_set().insert(idx)) by {
            assert forall|k: usize| self.requested@.contains(k) <==> before.contains(k) || k == idx by {
                if self.requested@.contains(k) {
                    let j = choose|j: int| 0 <= j < self.requested@.len() && self.requested@[j] == k;
                    if j < before.len() {
                        assert(before[j] == k);
                    }
                }
                if before.contains(k) {
                    let j = choose|j: int| 0 <= j < before.len() && before[j] == k;
                    assert(self.requested@[j] == k);
                }
                if k == idx {
                    assert(self.requested@[before.len() as int] == idx);
                }
            }
        }
        Some(HlJob { idx, epoch: self.epoch, theme: self.theme })
    }

    /// Switch to `theme`: highlights baked for the old theme are dropped,
    /// and asked for again when next wanted (theme-independent ones stay);
    /// the epoch moves on so one still being computed is discarded. The
    /// theme already active changes nothing.
    pub fn set_theme(&mut self, theme: usize)
        requires
            old(self).wf(),
        ensures
            final(self).wf(),
            theme == old(self).theme_now() ==> final(self).held() == old(self).held() && final(self).asked()
                == old(self).asked() && final(self).epoch_now() == old(self).epoch_now() && final(self).theme_now()
                == theme,
            theme != old(self).theme_now() ==> {
                &&& final(self).held() == old(self).held().filter(|p: (usize, bool)| !p.1)
                &&& final(self).asked() == old(self).asked().filter(|k: usize| holds(final(self).held(), k))
                &&& final(self).theme_now() == theme
                &&& final(self).epoch_now() == next_epoch(old(self).epoch_now())
            },
    {
        if theme == self.theme {
            return ;
        }
        let cached = keep_independent(&self.cached);
        let requested = keep_held(&self.requested, &cached);
        proof {
            assert forall|p: (usize, bool), q: (usize, bool)|
                cached@.contains(p) && cached@.contains(q) && p.0 == q.0 implies p == q by {
                assert(self.cached@.to_set().contains(p) && self.cached@.to_set().contains(q));
            }
        }
        self.cached = cached;
        self.requested = requested;
        self.theme = theme;
        self.epoch = if self.epoch == u32::MAX {
            0
        } else {
            self.epoch + 1
        };
    }

    /// Drop every highlight asked for or held and move to the next epoch,
    /// under `theme` (a view switch: the new view highlights afresh).
    pub fn reset(&mut self, theme: usize)
        requires
            old(self).wf(),
        ensures
            final(self).wf(),
            final(self).asked() == Set::<usize>::empty(),
            final(self).held() == Set::<(usize, bool)>::empty(),
            final(self).theme_now() == theme,
            final(self).epoch_now() == next_epoch(old(self).epoch_now()),
    {
        self.requested = Vec::new();
        self.cached = Vec::new();
        self.theme = theme;
        self.epoch = if self.epoch == u32::MAX {
            0
        } else {
            self.epoch + 1
        };
        assert(self.requested@.to_set() =~= Set::<usize>::empty());
        assert(self.cached@.to_set() =~= Set::<(usize, bool)>::empty());
    }

    /// Forget slot `idx` (asked for and held), so it is highlighted afresh.
    pub fn forget(&mut self, idx: usize)
        requires
            old(self).wf(),
        ensures
            final(self).wf(),
            final(self).asked() == old(self).asked().remove(idx),
            final(self).held() == old(self).held().remove((idx, true)).remove((idx, false)),
            final(self).theme_now() == old(self).theme_now(),
            final(self).epoch_now() == old(self).epoch_now(),
    {
        let cached = without_file(&self.cached, idx);
        let requested = without_index(&self.requested, idx);
        proof {
            assert forall|x: (usize, bool)| cached@.to_set().contains(x) == self.cached@.to_set().remove(
                (idx, true),
            ).remove((idx, false)).contains(x) by {
                if x.0 == idx {
                    assert(x == (idx, x.1));
                }
            }
            assert(cached@.to_set() =~= self.cached@.to_set().remove((idx, true)).remove((idx, false)));
            assert forall|p: (usize, bool), q: (usize, bool)|
                cached@.contains(p) && cached@.contains(q) && p.0 == q.0 implies p == q by {
                assert(self.cached@.to_set().contains(p) && self.cached@.to_set().contains(q));
            }
        }
        self.cached = cached;
        self.requested = requested;
    }

    /// Take in a finished highlight for slot `idx` asked in `epoch`
    /// (`theme_dependent` when baked for the theme): one from another epoch
    /// is discarded; otherwise it is held in place of any earlier one, and
    /// the caller keeps it. Returns whether it was taken.
    pub fn land(&mut self, idx: usize, epoch: u32, theme_dependent: bool) -> (taken: bool)
        requires
            old(self).wf(),
        ensures
            final(self).wf(),
            taken == (epoch == old(self).epoch_now()),
            !taken ==> final(self).held() == old(self).held() && final(self).asked() == old(self).asked(),
            taken ==> final(self).held() == old(self).held().remove((idx, !theme_dependent)).insert(
                (idx, theme_dependent),
            ) && final(self).asked() == old(self).asked(),
            final(self).theme_now() == old(self).theme_now(),
            final(self).epoch_now() == old(self).epoch_now(),
    {
        if epoch != self.epoch {
            return false;
        }
        let mut cached = without_file(&self.cached, idx);
        let ghost mid = cached@;
        cached.push((idx, theme_dependent));
        proof {
            assert forall|x: (usize, bool)| cached@.contains(x) <==> mid.contains(x) || x == (idx, theme_dependent) by {
                if cached@.contains(x) {
                    let j = choose|j: int| 0 <= j < cached@.len() && cached@[j] == x;
                    if j < mid.len() {
                        assert(mid[j] == x);
                    }
                }
                if mid.contains(x) {
                    let j = choose|j: int| 0 <= j < mid.len() && mid[j] == x;
                    assert(cached@[j] == x);
                }
                if x == (idx, theme_dependent) {
                    assert(cached@[mid.len() as int] == x);
                }
            }
            if self.cached@.contains((idx, theme_dependent)) {
                assert(!self.cached@.contains((idx, !theme_dependent)));
            }
            assert forall|x: (usize, bool)| cached@.to_set().contains(x) == self.cached@.to_set().remove(
                (idx, !theme_dependent),
            ).insert((idx, theme_dependent)).contains(x) by {
                if x.0 == idx {
                    assert(x == (idx, x.1));
                }
            }
            assert(cached@.to_set() =~= self.cached@.to_set().remove((idx, !theme_dependent)).insert(
                (idx, theme_dependent),
            ));
            assert forall|p: (usize, bool), q: (usize, bool)|
                cached@.contains(p) && cached@.contains(q) && p.0 == q.0 implies p == q by {
                if p.0 != idx {
                    assert(mid.contains(p) && mid.contains(q));
                    assert(self.cached@.to_set().contains(p) && self.cached@.to_set().contains(q));
                }
            }
        }
        self.cached = cached;
        true
    }

    /// Take in the finished highlights `results` (slot, epoch asked in,
    /// theme-dependent) in order, answering for each whether it was taken;
    /// whether any was.
    pub fn drain(&mut self, results: &Vec<(usize, u32, bool)>) -> (r: (Vec<bool>, bool))
        requires
            old(self).wf(),
        ensures
            final(self).wf(),
            r.0@.len() == results@.len(),
            forall|k: int| 0 <= k < results@.len() ==> r.0@[k] == (results@[k].1 == old(self).epoch_now()),
            r.1 == exists|k: int| 0 <= k < results@.len() && results@[k].1 == old(self).epoch_now(),
            final(self).asked() == old(self).asked(),
            final(self).theme_now() == old(self).theme_now(),
            final(self).epoch_now() == old(self).epoch_now(),
    {
        let mut taken: Vec<bool> = Vec::new();
        let mut any = false;
        let mut k: usize = 0;
        while k < results.len()
            invariant
                self.wf(),
                k <= results@.len(),
                taken@.len() == k,
                self.asked() == old(self).asked(),
                self.theme_now() == old(self).theme_now(),
                self.epoch_now() == old(self).epoch_now(),
                forall|x: int| 0 <= x < k ==> taken@[x] == (results@[x].1 == old(self).epoch_now()),
                any == exists|x: int| 0 <= x < k && results@[x].1 == old(self).epoch_now(),
            decreases results@.len() - k,
        {
            let (idx, epoch, dep) = results[k];
            let t = self.land(idx, epoch, dep);
            taken.push(t);
            any = any || t;
            k = k + 1;
        }
        (taken, any)
    }
}

/// The highlights asked for, and the jobs issued, when the files shown at
/// ordinals `o..=end` of `vis` are asked for in turn from `asked` (in
/// `epoch`, under `theme`).
pub open spec fn ask_from(
    asked: Set<usize>,
    files: Seq<DiffFile>,
    vis: Seq<usize>,
    o: int,
    end: int,
    epoch: u32,
    theme: usize,
) -> (Set<usize>, Seq<HlJob>)
    decreases end + 1 - o,
{
    if o > end || o < 0 || o >= vis.len() {
        (asked, Seq::empty())
    } else {
        let idx = vis[o];
        if idx < files.len() && highlightable(files[idx as int]) && !asked.contains(idx) {
            let r = ask_from(asked.insert(idx), files, vis, o + 1, end, epoch, theme);
            (r.0, seq![HlJob { idx, epoch, theme }] + r.1)
        } else {
            ask_from(asked, files, vis, o + 1, end, epoch, theme)
        }
    }
}

/// The ordinals of the first and last files on screen in `a`'s stream:
/// those of the rows at the viewport's top and bottom (`None` when the
/// stream has no rows).
pub open spec fn on_screen(a: App) -> Option<(int, int)> {
    let p = a.pl();
    let n = p.rows.len();
    if n == 0 {
        None
    } else {
        let top = a.st().scroll;
        let bottom = if top + a.viewport_h < n - 1 {
            top + a.viewport_h
        } else {
            n - 1
        };
        Some((spec_file_at(p.file_starts, top), spec_file_at(p.file_starts, bottom as usize)))
    }
}

impl HlService {
    /// Ask for the highlights of the files on screen in `app`'s stream (see
    /// [`on_screen`]) that still need one; the jobs to run.
    pub fn request_visible(&mut self, app: &App) -> (jobs: Vec<HlJob>)
        requires
            old(self).wf(),
            app.wf(),
        ensures
            final(self).wf(),
            final(self).held() == old(self).held(),
            final(self).theme_now() == old(self).theme_now(),
            final(self).epoch_now() == old(self).epoch_now(),
            on_screen(*app) is None ==> final(self).asked() == old(self).asked() && jobs@.len() == 0,
            on_screen(*app) matches Some((first, last)) ==> ({
                let r = ask_from(
                    old(self).asked(),
                    app.session.cur().cs.files@,
                    app.pl().visible_files,
                    first,
                    last,
                    old(self).epoch_now(),
                    old(self).theme_now(),
                );
                final(self).asked() == r.0 && jobs@ == r.1
            }),
    {
        let i = app.session.cursor;
        let plan = &app.session.views[i].plan;
        let n = plan.rows.len();
        let mut jobs: Vec<HlJob> = Vec::new();
        if n == 0 {
            return jobs;
        }
        let top = app.session.views[i].state.scroll;
        let vh = app.viewport_h;
        let bottom = if top < n - 1 && vh < n - 1 - top {
            top + vh
        } else {
            n - 1
        };
        let first = file_at(plan.file_starts.as_slice(), top);
        let last = file_at(plan.file_starts.as_slice(), bottom);
        let files = &app.session.views[i].cs.files;
        let vis = &plan.visible_files;
        let ghost target = ask_from(
            old(self).asked(),
            files@,
            vis@,
            first as int,
            last as int,
            self.epoch_now(),
            self.theme_now(),
        );
        let mut o = first;
        while o <= last && o < vis.len()
            invariant
                self.wf(),
                self.held() == old(self).held(),
                self.theme_now() == old(self).theme_now(),
                self.epoch_now() == old(self).epoch_now(),
                first <= o,
                ({
                    let r = ask_from(self.asked(), files@, vis@, o as int, last as int, self.epoch_now(), self.theme_now());
                    r.0 == target.0 && jobs@ + r.1 == target.1
                }),
            decreases vis@.len() - o,
        {
            let idx = vis[o];
            let ghost before = jobs@;
            if idx < files.len() {
                match self.request(idx, &files[idx]) {
                    Some(job) => {
                        jobs.push(job);
                        proof {
                            let rest = ask_from(self.asked(), files@, vis@, o + 1, last as int, self.epoch_now(), self.theme_now()).1;
                            assert(jobs@ + rest =~= before + (seq![job] + rest));
                        }
                    },
                    None => {},
                }
            }
            o = o + 1;
        }
        proof {
            let r = ask_from(self.asked(), files@, vis@, o as int, last as int, self.epoch_now(), self.theme_now());
            assert(r.1 =~= Seq::<HlJob>::empty());
            assert(jobs@ + r.1 =~= jobs@);
        }
        jobs
    }

    /// Ask for the highlight of the peeked file under its own slot, unless
    /// the peek is a blame still waiting for its text, or the slot is asked
    /// for or held already; the job to run.
    pub fn request_peek(&mut self, app: &App) -> (job: Option<HlJob>)
        requires
            old(self).wf(),
        ensures
            final(self).wf(),
            final(self).held() == old(self).held(),
            final(self).theme_now() == old(self).theme_now(),
            final(self).epoch_now() == old(self).epoch_now(),
            ({
                let wanted = app.mode.base matches Base::Peek(p) && !(p.mode == PeekMode::Blame && p.blame_pending)
                    && !old(self).asked().contains(PEEK_HL) && !holds(old(self).held(), PEEK_HL) && p.cs.files@.len()
                    > 0 && highlightable(p.cs.files@[0]);
                &&& wanted ==> job == Some(
                    HlJob { idx: PEEK_HL, epoch: old(self).epoch_now(), theme: old(self).theme_now() },
                ) && final(self).asked() == old(self).asked().insert(PEEK_HL)
                &&& !wanted ==> job is None && final(self).asked() == old(self).asked()
            }),
    {
        match &app.mode.base {
            Base::Peek(p) => {
                if p.mode == PeekMode::Blame && p.blame_pending {
                    return None;
                }
                if !self.needs(PEEK_HL) || p.cs.files.len() == 0 {
                    return None;
                }
                self.request(PEEK_HL, &p.cs.files[0])
            },
            Base::Normal { .. } => None,
        }
    }
}

/// The pairs of `v` not baked for a theme.
fn keep_independent(v: &Vec<(usize, bool)>) -> (r: Vec<(usize, bool)>)
    ensures
        r@.to_set() == v@.to_set().filter(|p: (usize, bool)| !p.1),
        forall|x: (usize, bool)| r@.contains(x) ==> v@.contains(x),
{
    let mut r: Vec<(usize, bool)> = Vec::new();
    let mut i: usize = 0;
    while i < v.len()
        invariant
            i <= v@.len(),
            forall|x: (usize, bool)| r@.contains(x) <==> v@.subrange(0, i as int).contains(x) && !x.1,
        decreases v@.len() - i,
    {
        let ghost before = r@;
        if !v[i].1 {
            r.push(v[i]);
        }
        proof {
            let s0 = v@.subrange(0, i as int);
            let s1 = v@.subrange(0, i + 1);
            assert(s1 =~= s0.push(v@[i as int]));
            assert forall|x: (usize, bool)| r@.contains(x) <==> s1.contains(x) && !x.1 by {
                if r@.contains(x) {
                    let j = choose|j: int| 0 <= j < r@.len() && r@[j] == x;
                    if j < before.len() {
                        assert(before[j] == x);
                        assert(before.contains(x));
                        assert(s0.contains(x));
                        let t = choose|t: int| 0 <= t < s0.len() && s0[t] == x;
                        assert(s1[t] == x);
                    } else {
                        assert(s1[i as int] == x);
                    }
                }
                if s1.contains(x) && !x.1 {
                    let t = choose|t: int| 0 <= t < s1.len() && s1[t] == x;
                    if t < i {
                        assert(s0[t] == x);
                        assert(s0.contains(x));
                        assert(before.contains(x));
                        let j = choose|j: int| 0 <= j < before.len() && before[j] == x;
                        assert(r@[j] == x);
                    } else {
                        assert(r@[before.len() as int] == x);
                    }
                }
            }
        }
        i = i + 1;
    }
    assert(v@.subrange(0, v@.len() as int) =~= v@);
    assert(r@.to_set() =~= v@.to_set().filter(|p: (usize, bool)| !p.1));
    r
}

/// The pairs of `v` for files other than `idx`.
fn without_file(v: &Vec<(usize, bool)>, idx: usize) -> (r: Vec<(usize, bool)>)
    ensures
        forall|x: (usize, bool)| r@.contains(x) <==> v@.contains(x) && x.0 != idx,
{
    let mut r: Vec<(usize, bool)> = Vec::new();
    let mut i: usize = 0;
    while i < v.len()
        invariant
            i <= v@.len(),
            forall|x: (usize, bool)| r@.contains(x) <==> v@.subrange(0, i as int).contains(x) && x.0 != idx,
        decreases v@.len() - i,
    {
        let ghost before = r@;
        if v[i].0 != idx {
            r.push(v[i]);
        }
        proof {
            let s0 = v@.subrange(0, i as int);
            let s1 = v@.subrange(0, i + 1);
            assert(s1 =~= s0.push(v@[i as int]));
            assert forall|x: (usize, bool)| r@.contains(x) <==> s1.contains(x) && x.0 != idx by {
                if r@.contains(x) {
                    let j = choose|j: int| 0 <= j < r@.len() && r@[j] == x;
                    if j < before.len() {
                        assert(before[j] == x);
                        assert(before.contains(x));
                        assert(s0.contains(x));
                        let t = choose|t: int| 0 <= t < s0.len() && s0[t] == x;
                        assert(s1[t] == x);
                    } else {
                        assert(s1[i as int] == x);
                    }
                }
                if s1.contains(x) && x.0 != idx {
                    let t = choose|t: int| 0 <= t < s1.len() && s1[t] == x;
                    if t < i {
                        assert(s0[t] == x);
                        assert(s0.contains(x));
                        assert(before.contains(x));
                        let j = choose|j: int| 0 <= j < before.len() && before[j] == x;
                        assert(r@[j] == x);
                    } else {
                        assert(r@[before.len() as int] == x);
                    }
                }
            }
        }
        i = i + 1;
    }
    assert(v@.subrange(0, v@.len() as int) =~= v@);
    r
}

/// The entries of `v` other than `idx`.
fn without_index(v: &Vec<usize>, idx: usize) -> (r: Vec<usize>)
    ensures
        r@.to_set() == v@.to_set().remove(idx),
{
    let mut r: Vec<usize> = Vec::new();
    let mut i: usize = 0;
    while i < v.len()
        invariant
            i <= v@.len(),
            forall|x: usize| r@.contains(x) <==> v@.subrange(0, i as int).contains(x) && x != idx,
        decreases v@.len() - i,
    {
        let ghost before = r@;
        if v[i] != idx {
            r.push(v[i]);
        }
        proof {
            let s0 = v@.subrange(0, i as int);
            let s1 = v@.subrange(0, i + 1);
            assert(s1 =~= s0.push(v@[i as int]));
            assert forall|x: usize| r@.contains(x) <==> s1.contains(x) && x != idx by {
                if r@.contains(x) {
                    let j = choose|j: int| 0 <= j < r@.len() && r@[j] == x;
                    if j < before.len() {
                        assert(before[j] == x);
                        assert(before.contains(x));
                        assert(s0.contains(x));
                        let t = choose|t: int| 0 <= t < s0.len() && s0[t] == x;
                        assert(s1[t] == x);
                    } else {
                        assert(s1[i as int] == x);
                    }
                }
                if s1.contains(x) && x != idx {
                    let t = choose|t: int| 0 <= t < s1.len() && s1[t] == x;
                    if t < i {
                        assert(s0[t] == x);
                        assert(s0.contains(x));
                        assert(before.contains(x));
                        let j = choose|j: int| 0 <= j < before.len() && before[j] == x;
                        assert(r@[j] == x);
                    } else {
                        assert(r@[before.len() as int] == x);
                    }
                }
            }
        }
        i = i + 1;
    }
    assert(v@.subrange(0, v@.len() as int) =~= v@);
    assert(r@.to_set() =~= v@.to_set().remove(idx));
    r
}

/// The entries of `v` that `held` has a highlight for.
fn keep_held(v: &Vec<usize>, held: &Vec<(usize, bool)>) -> (r: Vec<usize>)
    ensures
        r@.to_set() == v@.to_set().filter(|k: usize| holds(held@.to_set(), k)),
{
    let mut r: Vec<usize> = Vec::new();
    let mut i: usize = 0;
    while i < v.len()
        invariant
            i <= v@.len(),
            forall|x: usize| r@.contains(x) <==> v@.subrange(0, i as int).contains(x) && holds(held@.to_set(), x),
        decreases v@.len() - i,
    {
        let ghost before = r@;
        let keep = file_held(held, v[i]);
        if keep {
            r.push(v[i]);
        }
        proof {
            let s0 = v@.subrange(0, i as int);
            let s1 = v@.subrange(0, i + 1);
            assert(s1 =~= s0.push(v@[i as int]));
            assert forall|x: usize| r@.contains(x) <==> s1.contains(x) && holds(held@.to_set(), x) by {
                if r@.contains(x) {
                    let j = choose|j: int| 0 <= j < r@.len() && r@[j] == x;
                    if j < before.len() {
                        assert(before[j] == x);
                        assert(before.contains(x));
                        assert(s0.contains(x));
                        let t = choose|t: int| 0 <= t < s0.len() && s0[t] == x;
                        assert(s1[t] == x);
                    } else {
                        assert(s1[i as int] == x);
                    }
                }
                if s1.contains(x) && holds(held@.to_set(), x) {
                    let t = choose|t: int| 0 <= t < s1.len() && s1[t] == x;
                    if t < i {
                        assert(s0[t] == x);
                        assert(s0.contains(x));
                        assert(before.contains(x));
                        let j = choose|j: int| 0 <= j < before.len() && before[j] == x;
                        assert(r@[j] == x);
                    } else {
                        assert(r@[before.len() as int] == x);
                    }
                }
            }
        }
        i = i + 1;
    }
    assert(v@.subrange(0, v@.len() as int) =~= v@);
    assert(r@.to_set() =~= v@.to_set().filter(|k: usize| holds(held@.to_set(), k)));
    r
}

/// Whether `held` has a highlight for `idx`.
fn file_held(held: &Vec<(usize, bool)>, idx: usize) -> (r: bool)
    ensures
        r == holds(held@.to_set(), idx),
{
    let mut i: usize = 0;
    while i < held.len()
        invariant
            i <= held@.len(),
            forall|k: int| 0 <= k < i ==> held@[k].0 != idx,
        decreases held@.len() - i,
    {
        if held[i].0 == idx {
            assert(held@.contains(held@[i as int]));
            assert(held@[i as int] == (idx, held@[i as int].1));
            return true;
        }
        i = i + 1;
    }
    proof {
        if held@.contains((idx, true)) {
            let k = choose|k: int| 0 <= k < held@.len() && held@[k] == (idx, true);
            assert(held@[k].0 == idx);
        }
        if held@.contains((idx, false)) {
            let k = choose|k: int| 0 <= k < held@.len() && held@[k] == (idx, false);
            assert(held@[k].0 == idx);
        }
    }
    false
}

} // verus!
