//! Ranking the palette's matches. A fuzzy scorer gives each candidate an
//! optional score; the palette lists the scored candidates best first, ties
//! in their given order.

use vstd::prelude::*;
use crate::model::CommitInfo;
use crate::types::{Palette, PaletteKind};

verus! {

/// The score of a scored candidate.
pub open spec fn score_of(scores: Seq<Option<i32>>, i: usize) -> int {
    match scores[i as int] {
        Some(s) => s as int,
        None => 0,
    }
}

/// Candidate `a` is listed before candidate `b`: a better score, or the
/// same score and an earlier position.
pub open spec fn ranks_before(scores: Seq<Option<i32>>, a: usize, b: usize) -> bool {
    score_of(scores, a) > score_of(scores, b) || (score_of(scores, a) == score_of(scores, b) && a < b)
}

/// `r` lists exactly the scored candidates, best score first and ties in
/// their original order.
pub open spec fn is_ranking(scores: Seq<Option<i32>>, r: Seq<usize>) -> bool {
    &&& forall|k: int| 0 <= k < r.len() ==> #[trigger] r[k] < scores.len() && scores[r[k] as int] is Some
    &&& forall|j: int| 0 <= j < scores.len() && (#[trigger] scores[j]) is Some ==> exists|k: int|
        0 <= k < r.len() && r[k] == j
    &&& forall|a: int, b: int| 0 <= a < b < r.len() ==> ranks_before(scores, #[trigger] r[a], #[trigger] r[b])
}

/// How many candidates are scored.
pub open spec fn scored_count(scores: Seq<Option<i32>>) -> nat
    decreases scores.len(),
{
    if scores.len() == 0 {
        0
    } else {
        scored_count(scores.drop_last()) + if scores.last() is Some {
            1nat
        } else {
            0nat
        }
    }
}

/// The scored candidates' indices, best score first, ties in given order.
pub fn rank_scores(scores: &[Option<i32>]) -> (r: Vec<usize>)
    ensures
        is_ranking(scores@, r@),
        r@.len() == scored_count(scores@),
{
    let mut v: Vec<usize> = Vec::new();
    let mut i: usize = 0;
    while i < scores.len()
        invariant
            i <= scores@.len(),
            v@.len() == scored_count(scores@.take(i as int)),
            forall|k: int| 0 <= k < v@.len() ==> #[trigger] v@[k] < i && scores@[v@[k] as int] is Some,
            forall|j: int| 0 <= j < i && (#[trigger] scores@[j]) is Some ==> exists|k: int|
                0 <= k < v@.len() && v@[k] == j,
            forall|a: int, b: int|
                0 <= a < b < v@.len() ==> ranks_before(scores@, #[trigger] v@[a], #[trigger] v@[b]),
        decreases scores@.len() - i,
    {
        if let Some(s) = scores[i] {
            // The new candidate has the largest index so far, so it goes after
            // every candidate scoring at least as well.
            let mut pos: usize = 0;
            while pos < v.len() && score_at(scores, v[pos]) >= s
                invariant
                    pos <= v@.len(),
                    i < scores@.len(),
                    scores@[i as int] == Some(s),
                    forall|k: int| 0 <= k < v@.len() ==> #[trigger] v@[k] < i && scores@[v@[k] as int] is Some,
                    forall|k: int| 0 <= k < pos ==> score_of(scores@, #[trigger] v@[k]) >= s,
                decreases v@.len() - pos,
            {
                pos = pos + 1;
            }
            proof {
                assert forall|b: int| pos <= b < v@.len() implies score_of(scores@, #[trigger] v@[b]) < s by {
                    if pos < b {
                        assert(ranks_before(scores@, v@[pos as int], v@[b]));
                    }
                }
            }
            let ghost old_v = v@;
            v.insert(pos, i);
            proof {
                assert(v@ =~= old_v.insert(pos as int, i));
                assert forall|a: int, b: int| 0 <= a < b < v@.len() implies ranks_before(
                    scores@,
                    #[trigger] v@[a],
                    #[trigger] v@[b],
                ) by {
                    if a < pos && b < pos {
                        assert(v@[a] == old_v[a] && v@[b] == old_v[b]);
                    } else if a < pos && b == pos {
                        assert(v@[a] == old_v[a]);
                    } else if a < pos {
                        assert(v@[a] == old_v[a] && v@[b] == old_v[b - 1]);
                    } else if a == pos {
                        assert(v@[b] == old_v[b - 1]);
                    } else {
                        assert(v@[a] == old_v[a - 1] && v@[b] == old_v[b - 1]);
                    }
                }
                assert forall|j: int| 0 <= j < i + 1 && (#[trigger] scores@[j]) is Some implies exists|k: int|
                    0 <= k < v@.len() && v@[k] == j by {
                    if j == i {
                        assert(v@[pos as int] == j);
                    } else {
                        let k = choose|k: int| 0 <= k < old_v.len() && old_v[k] == j;
                        if k < pos {
                            assert(v@[k] == j);
                        } else {
                            assert(v@[k + 1] == j);
                        }
                    }
                }
            }
        }
        assert(scores@.take(i + 1).drop_last() =~= scores@.take(i as int));
        i = i + 1;
    }
    assert(scores@.take(scores@.len() as int) =~= scores@);
    v
}

/// Dropping the best candidate of a ranking leaves a ranking of the scores
/// without it.
proof fn lemma_ranking_tail(scores: Seq<Option<i32>>, r: Seq<usize>)
    requires
        is_ranking(scores, r),
        r.len() > 0,
    ensures
        is_ranking(scores.update(r[0] as int, None), r.drop_first()),
{
    let x = r[0];
    let s2 = scores.update(x as int, None);
    let t = r.drop_first();
    assert forall|k: int| 0 <= k < t.len() implies #[trigger] t[k] < s2.len() && s2[t[k] as int] is Some by {
        assert(ranks_before(scores, r[0], r[k + 1]));
    }
    assert forall|j: int| 0 <= j < s2.len() && (#[trigger] s2[j]) is Some implies exists|k: int|
        0 <= k < t.len() && t[k] == j by {
        assert(scores[j] is Some);
        let k = choose|k: int| 0 <= k < r.len() && r[k] == j;
        assert(t[k - 1] == j);
    }
    assert forall|a: int, b: int| 0 <= a < b < t.len() implies ranks_before(s2, #[trigger] t[a], #[trigger] t[b]) by {
        assert(ranks_before(scores, r[a + 1], r[b + 1]));
        assert(ranks_before(scores, r[0], r[a + 1]));
        assert(ranks_before(scores, r[0], r[b + 1]));
    }
}

/// The scores decide the ranking: any two rankings of the same scores are
/// the same list.
pub proof fn law_ranking_unique(scores: Seq<Option<i32>>, r1: Seq<usize>, r2: Seq<usize>)
    requires
        is_ranking(scores, r1),
        is_ranking(scores, r2),
    ensures
        r1 == r2,
    decreases r1.len(),
{
    if r1.len() == 0 {
        if r2.len() > 0 {
            assert(scores[r2[0] as int] is Some);
        }
        assert(r1 =~= r2);
    } else {
        let x = r1[0];
        assert(scores[x as int] is Some);
        let b = choose|k: int| 0 <= k < r2.len() && r2[k] == x;
        let y = r2[0];
        assert(scores[y as int] is Some);
        let a = choose|k: int| 0 <= k < r1.len() && r1[k] == y;
        if a > 0 && b > 0 {
            assert(ranks_before(scores, r1[0], r1[a]));
            assert(ranks_before(scores, r2[0], r2[b]));
        }
        assert(x == y);
        lemma_ranking_tail(scores, r1);
        lemma_ranking_tail(scores, r2);
        law_ranking_unique(scores.update(x as int, None), r1.drop_first(), r2.drop_first());
        assert(r1.len() == r2.len());
        assert forall|i: int| 0 <= i < r1.len() implies r1[i] == r2[i] by {
            if i > 0 {
                assert(r1[i] == r1.drop_first()[i - 1]);
                assert(r2[i] == r2.drop_first()[i - 1]);
            }
        }
        assert(r1 =~= r2);
    }
}

/// The score of a candidate known to be scored.
fn score_at(scores: &[Option<i32>], i: usize) -> (s: i32)
    requires
        i < scores@.len(),
        scores@[i as int] is Some,
    ensures
        s == score_of(scores@, i),
{
    match scores[i] {
        Some(s) => s,
        None => 0,
    }
}

/// The text a commit is matched against: its summary, a space, its short sha.
pub fn commit_haystack(c: &CommitInfo) -> (h: String)
    ensures
        h@ == c.summary@ + " "@ + c.short@,
{
    let mut h = c.summary.clone();
    h.append(" ");
    h.append(c.short.as_str());
    h
}

/// Every index below `n`, in order.
pub open spec fn all_indices(n: nat) -> Seq<usize> {
    Seq::new(n, |i: int| i as usize)
}

/// The indices below `n`, in order.
pub fn indices(n: usize) -> (r: Vec<usize>)
    ensures
        r@ == all_indices(n as nat),
{
    let mut r: Vec<usize> = Vec::new();
    let mut i: usize = 0;
    while i < n
        invariant
            i <= n,
            r@ == all_indices(i as nat),
        decreases n - i,
    {
        r.push(i);
        assert(r@ =~= all_indices((i + 1) as nat));
        i = i + 1;
    }
    r
}

/// Filter the commit list for `query`, given each commit's fuzzy score of
/// the query against its haystack: an empty query keeps every commit in
/// order; otherwise the scored commits come best first.
pub fn filter_commits_text(commits: &[CommitInfo], query: &str, scores: &[Option<i32>]) -> (r: Vec<usize>)
    requires
        scores@.len() == commits@.len(),
    ensures
        query@.len() == 0 ==> r@ == all_indices(commits@.len()),
        query@.len() > 0 ==> is_ranking(scores@, r@) && r@.len() == scored_count(scores@),
{
    if query.unicode_len() == 0 {
        indices(commits.len())
    } else {
        rank_scores(scores)
    }
}

/// The selection kept within the matches (0 when there are none).
pub open spec fn kept_selection(selected: usize, n: int) -> usize {
    if n == 0 {
        0
    } else if selected < n {
        selected
    } else {
        (n - 1) as usize
    }
}

/// Recompute the palette's matches for its current query, given each
/// candidate's fuzzy score (the files of the view, or the commit list), and
/// keep the selection within them.
pub fn recompute(p: &mut Palette, scores: &[Option<i32>])
    requires
        old(p).kind matches PaletteKind::Commits { commits, .. } ==> scores@.len() == commits@.len(),
    ensures
        final(p).kind == old(p).kind,
        final(p).query == old(p).query,
        final(p).mode_hint == old(p).mode_hint,
        (old(p).kind is Files || old(p).query@.len() > 0) ==> is_ranking(scores@, final(p).matches@)
            && final(p).matches@.len() == scored_count(scores@),
        old(p).query@.len() == 0 ==> (old(p).kind matches PaletteKind::Commits { commits, .. }
            ==> final(p).matches@ == all_indices(commits@.len())),
        final(p).selected == kept_selection(old(p).selected, final(p).matches@.len() as int),
{
    let matches = match &p.kind {
        PaletteKind::Files => rank_scores(scores),
        PaletteKind::Commits { commits, .. } => filter_commits_text(commits.as_slice(), p.query.as_str(), scores),
    };
    let last = if matches.len() == 0 {
        0
    } else {
        matches.len() - 1
    };
    p.matches = matches;
    if p.selected > last {
        p.selected = last;
    }
}

} // verus!
