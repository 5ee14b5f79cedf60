//! Carrying the reviewed marks across sessions, by path: the marks are
//! positional over the view's files, whose order differs between sessions,
//! so they are recorded as the sorted list of marked paths and restored by
//! looking each file's path up in it. The review log itself is the caller's.

use vstd::prelude::*;
use crate::app::{App, laid_out};
use crate::model::DiffFile;
use crate::text::{chars_of, str_eq, strs_v};

verus! {

broadcast use vstd::seq_lib::to_multiset_insert, vstd::seq_lib::to_multiset_build;

/// Texts compared character by character from position `i` on: the first
/// difference decides, and a text that runs out first is the smaller.
pub open spec fn text_lt_from(a: Seq<char>, b: Seq<char>, i: int) -> bool
    decreases a.len() - i,
{
    if i < 0 {
        false
    } else if i >= a.len() {
        i < b.len()
    } else if i >= b.len() {
        false
    } else if a[i] != b[i] {
        a[i] < b[i]
    } else {
        text_lt_from(a, b, i + 1)
    }
}

/// `a` sorts strictly before `b` (the order of `str`).
pub open spec fn text_lt(a: Seq<char>, b: Seq<char>) -> bool {
    text_lt_from(a, b, 0)
}

/// The order is transitive.
pub proof fn lemma_text_lt_trans(a: Seq<char>, b: Seq<char>, c: Seq<char>, i: int)
    requires
        i >= 0,
        text_lt_from(a, b, i),
        text_lt_from(b, c, i),
    ensures
        text_lt_from(a, c, i),
    decreases a.len() - i,
{
    if i < a.len() && i < b.len() && i < c.len() && a[i] == b[i] && b[i] == c[i] {
        lemma_text_lt_trans(a, b, c, i + 1);
    }
}

/// No text sorts before itself.
pub proof fn lemma_text_lt_irrefl(a: Seq<char>, i: int)
    requires
        i >= 0,
    ensures
        !text_lt_from(a, a, i),
    decreases a.len() - i,
{
    if i < a.len() {
        lemma_text_lt_irrefl(a, i + 1);
    }
}

/// Texts in order: none sorts before one listed ahead of it.
pub open spec fn sorted_texts(s: Seq<Seq<char>>) -> bool {
    forall|i: int, j: int| 0 <= i < j < s.len() ==> !text_lt(#[trigger] s[j], #[trigger] s[i])
}

/// The paths of the first `k` files marked reviewed, in file order (marks
/// past the end of `viewed` count as unmarked).
pub open spec fn marked_paths(files: Seq<DiffFile>, viewed: Seq<bool>, k: int) -> Seq<Seq<char>>
    decreases k,
{
    if k <= 0 {
        Seq::empty()
    } else {
        let prev = marked_paths(files, viewed, k - 1);
        if k - 1 < viewed.len() && viewed[k - 1] {
            prev.push(files[k - 1].path@)
        } else {
            prev
        }
    }
}

/// The marks restored from a recorded list of paths: each file is marked
/// when its path is listed.
pub open spec fn restored_marks(files: Seq<DiffFile>, logged: Seq<Seq<char>>) -> Seq<bool> {
    Seq::new(files.len(), |i: int| logged.contains(files[i].path@))
}

/// Whether `a` sorts strictly before `b`.
pub fn text_less(a: &str, b: &str) -> (r: bool)
    ensures
        r == text_lt(a@, b@),
{
    let x = chars_of(a);
    let y = chars_of(b);
    let mut i: usize = 0;
    while i < x.len() && i < y.len() && x[i] == y[i]
        invariant
            x@ == a@,
            y@ == b@,
            i <= x@.len(),
            i <= y@.len(),
            text_lt(a@, b@) == text_lt_from(a@, b@, i as int),
        decreases x@.len() - i,
    {
        i = i + 1;
    }
    if i >= x.len() {
        i < y.len()
    } else if i >= y.len() {
        false
    } else {
        x[i] < y[i]
    }
}

/// Whether two lists hold the same texts in the same order.
fn same_texts(a: &Vec<String>, b: &Vec<String>) -> (r: bool)
    ensures
        r == (strs_v(a@) == strs_v(b@)),
{
    if a.len() != b.len() {
        proof {
            assert(strs_v(a@).len() != strs_v(b@).len());
        }
        return false;
    }
    let mut i: usize = 0;
    while i < a.len()
        invariant
            a@.len() == b@.len(),
            i <= a@.len(),
            forall|j: int| 0 <= j < i ==> a@[j]@ == b@[j]@,
        decreases a@.len() - i,
    {
        if !str_eq(a[i].as_str(), b[i].as_str()) {
            proof {
                assert(strs_v(a@)[i as int] != strs_v(b@)[i as int]);
            }
            return false;
        }
        i = i + 1;
    }
    assert(strs_v(a@) =~= strs_v(b@));
    true
}

/// Whether `s` is one of the texts of `list`.
fn listed(list: &Vec<String>, s: &str) -> (r: bool)
    ensures
        r == strs_v(list@).contains(s@),
{
    let mut i: usize = 0;
    while i < list.len()
        invariant
            i <= list@.len(),
            forall|j: int| 0 <= j < i ==> list@[j]@ != s@,
        decreases list@.len() - i,
    {
        if str_eq(list[i].as_str(), s) {
            proof {
                assert(strs_v(list@)[i as int] == s@);
            }
            return true;
        }
        i = i + 1;
    }
    proof {
        if strs_v(list@).contains(s@) {
            let j = choose|j: int| 0 <= j < strs_v(list@).len() && strs_v(list@)[j] == s@;
            assert(list@[j]@ == s@);
        }
    }
    false
}

impl App {
    /// The paths of the files this view has marked reviewed, sorted: each
    /// marked file's path once, in `str` order.
    pub fn viewed_paths(&self) -> (r: Vec<String>)
        requires
            self.wf(),
        ensures
            sorted_texts(strs_v(r@)),
            strs_v(r@).to_multiset() == marked_paths(
                self.session.cur().cs.files@,
                self.st().viewed@,
                self.session.cur().cs.files@.len() as int,
            ).to_multiset(),
    {
        let c = self.session.cursor;
        let files = &self.session.views[c].cs.files;
        let viewed = &self.session.views[c].state.viewed;
        let mut out: Vec<String> = Vec::new();
        assert(strs_v(out@) =~= Seq::<Seq<char>>::empty());
        let mut i: usize = 0;
        while i < files.len()
            invariant
                i <= files@.len(),
                files@ == self.session.cur().cs.files@,
                viewed@ == self.st().viewed@,
                sorted_texts(strs_v(out@)),
                strs_v(out@).to_multiset() == marked_paths(files@, viewed@, i as int).to_multiset(),
            decreases files@.len() - i,
        {
            if i < viewed.len() && viewed[i] {
                let p = files[i].path.clone();
                let mut pos: usize = 0;
                while pos < out.len() && !text_less(p.as_str(), out[pos].as_str())
                    invariant
                        pos <= out@.len(),
                        forall|k: int| 0 <= k < pos ==> !text_lt(p@, #[trigger] out@[k]@),
                    decreases out@.len() - pos,
                {
                    pos = pos + 1;
                }
                let ghost before = out@;
                out.insert(pos, p);
                proof {
                    let sb = strs_v(before);
                    assert(strs_v(out@) =~= sb.insert(pos as int, p@));
                    assert forall|a: int, b: int| 0 <= a < b < strs_v(out@).len() implies !text_lt(
                        #[trigger] strs_v(out@)[b],
                        #[trigger] strs_v(out@)[a],
                    ) by {
                        let s = strs_v(out@);
                        if a < pos && b == pos {
                            assert(s[a] == sb[a]);
                        } else if a < pos && b > pos {
                            assert(s[a] == sb[a] && s[b] == sb[b - 1]);
                            assert(!text_lt(sb[b - 1], sb[a]));
                        } else if a < pos {
                            assert(s[a] == sb[a] && s[b] == sb[b]);
                        } else if a == pos {
                            assert(s[b] == sb[b - 1]);
                            assert(pos < sb.len());
                            assert(text_lt(p@, sb[pos as int]));
                            if text_lt(sb[b - 1], p@) {
                                lemma_text_lt_trans(sb[b - 1], p@, sb[pos as int], 0);
                                if b - 1 > pos {
                                    assert(!text_lt(sb[b - 1], sb[pos as int]));
                                } else {
                                    lemma_text_lt_irrefl(sb[pos as int], 0);
                                }
                            }
                        } else {
                            assert(s[a] == sb[a - 1] && s[b] == sb[b - 1]);
                        }
                    }
                    assert(marked_paths(files@, viewed@, i + 1) == marked_paths(files@, viewed@, i as int).push(
                        files@[i as int].path@,
                    ));
                }
            }
            i = i + 1;
        }
        out
    }

    /// The sorted marked paths to record, unless they are what the log
    /// already holds (`logged`); the caller records them only while a
    /// review of this view is open.
    pub fn viewed_record(&self, logged: &Vec<String>) -> (r: Option<Vec<String>>)
        requires
            self.wf(),
        ensures
            match r {
                Some(v) => {
                    &&& strs_v(v@) != strs_v(logged@)
                    &&& sorted_texts(strs_v(v@))
                    &&& strs_v(v@).to_multiset() == marked_paths(
                        self.session.cur().cs.files@,
                        self.st().viewed@,
                        self.session.cur().cs.files@.len() as int,
                    ).to_multiset()
                },
                None => {
                    &&& sorted_texts(strs_v(logged@))
                    &&& strs_v(logged@).to_multiset() == marked_paths(
                        self.session.cur().cs.files@,
                        self.st().viewed@,
                        self.session.cur().cs.files@.len() as int,
                    ).to_multiset()
                },
            },
    {
        let paths = self.viewed_paths();
        if same_texts(&paths, logged) {
            None
        } else {
            Some(paths)
        }
    }

    /// Seed a review's reviewed marks from the recorded list of paths
    /// (`logged`, read by the caller from the review of this view), by
    /// path, and lay the view out again. A view that is not a review, an
    /// empty list, or a list naming none of the files changes nothing.
    pub fn restore_viewed(&mut self, logged: &Vec<String>)
        requires
            old(self).wf(),
        ensures
            final(self).wf(),
            ({
                let marks = restored_marks(old(self).session.cur().cs.files@, strs_v(logged@));
                let change = old(self).session.cur().review && logged@.len() > 0 && marks.contains(true);
                &&& !change ==> *final(self) == *old(self)
                &&& change ==> {
                    &&& final(self).st().viewed@ == marks
                    &&& final(self).session.only_current_changed(&old(self).session)
                    &&& final(self).session.cur().cs == old(self).session.cur().cs
                    &&& final(self).st().collapsed == old(self).st().collapsed
                    &&& final(self).rest_same(*old(self))
                    &&& laid_out(*final(self))
                }
            }),
    {
        if !self.is_review() || logged.len() == 0 {
            return ;
        }
        let c = self.session.cursor;
        let n = self.session.views[c].cs.files.len();
        let mut flags: Vec<bool> = Vec::new();
        let mut any = false;
        let mut i: usize = 0;
        while i < n
            invariant
                c == self.session.cursor,
                self.wf(),
                n == self.session.cur().cs.files@.len(),
                i <= n,
                flags@ == restored_marks(self.session.cur().cs.files@, strs_v(logged@)).take(i as int),
                any == flags@.contains(true),
            decreases n - i,
        {
            let hit = listed(logged, self.session.views[c].cs.files[i].path.as_str());
            let ghost before = flags@;
            flags.push(hit);
            proof {
                assert(flags@ =~= before.push(hit));
                if hit {
                    assert(flags@[i as int] == true);
                } else if flags@.contains(true) {
                    let k = choose|k: int| 0 <= k < flags@.len() && flags@[k] == true;
                    assert(before[k] == true);
                }
                if before.contains(true) {
                    let k = choose|k: int| 0 <= k < before.len() && before[k] == true;
                    assert(flags@[k] == true);
                }
            }
            any = any || hit;
            i = i + 1;
        }
        let ghost marks = restored_marks(self.session.cur().cs.files@, strs_v(logged@));
        proof {
            assert(marks.take(n as int) =~= marks);
        }
        if !any {
            return ;
        }
        self.session.views[c].state.viewed = flags;
        proof {
            assert(self.session.views@[c as int].wf()) by {
                assert(old(self).session.views@[c as int].wf());
            }
            assert forall|j: int| 0 <= j < self.session.views@.len() implies (#[trigger] self.session.views@[j]).wf() by {
                assert(old(self).session.views@[j].wf());
            }
        }
        self.build_plan();
    }
}

} // verus!
