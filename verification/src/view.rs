//! Per-view navigation state: viewport position, line cursor, selection, and
//! the reviewed/folded bookkeeping that the row plan is built from.

use vstd::prelude::*;
use crate::text::{str_eq, strs_v};

verus! {

/// The live navigation state of one view.
#[derive(Debug)]
pub struct ViewState {
    /// Row at the top of the viewport.
    pub scroll: usize,
    /// Horizontal pan, in columns.
    pub h_scroll: usize,
    /// Row the line cursor sits on.
    pub cursor_row: usize,
    /// Whether long lines wrap (no horizontal pan).
    pub wrap: bool,
    /// The active (sidebar-highlighted) file, a `Changeset::files` index.
    pub selected: usize,
    /// A folded directory whose placeholder is selected, if any.
    pub selected_dir: Option<String>,
    /// Whether the sidebar should scroll the selection into view.
    pub reveal_selected: bool,
    /// Per-file reviewed marks, parallel to `Changeset::files`.
    pub viewed: Vec<bool>,
    /// Folded directories.
    pub collapsed: Vec<String>,
}

impl ViewState {
    /// The folded directories, as character sequences.
    pub open spec fn collapsed_v(&self) -> Seq<Seq<char>> {
        strs_v(self.collapsed@)
    }

    /// A fresh state: everything at the top, nothing selected or folded.
    pub fn new() -> (st: ViewState)
        ensures
            st.scroll == 0,
            st.h_scroll == 0,
            st.cursor_row == 0,
            !st.wrap,
            st.selected == 0,
            st.selected_dir is None,
            !st.reveal_selected,
            st.viewed@.len() == 0,
            st.collapsed@.len() == 0,
    {
        ViewState {
            scroll: 0,
            h_scroll: 0,
            cursor_row: 0,
            wrap: false,
            selected: 0,
            selected_dir: None,
            reveal_selected: false,
            viewed: Vec::new(),
            collapsed: Vec::new(),
        }
    }

    /// The selected file, or `None` while a folded directory's placeholder is
    /// selected.
    pub fn selected_file(&self) -> (r: Option<usize>)
        ensures
            r == if self.selected_dir is Some {
                None
            } else {
                Some(self.selected)
            },
    {
        if self.selected_dir.is_some() {
            None
        } else {
            Some(self.selected)
        }
    }

    /// Whether `dir` is folded.
    pub fn is_folded(&self, dir: &str) -> (r: bool)
        ensures
            r == self.collapsed_v().contains(dir@),
    {
        assert(self.collapsed_v() == strs_v(self.collapsed@));
        crate::rows::dirs_contain(self.collapsed.as_slice(), dir)
    }

    /// Fold `dir` (already folded: unchanged).
    pub fn add_fold(&mut self, dir: &str)
        ensures
            forall|d: Seq<char>| #[trigger] final(self).collapsed_v().contains(d) == (d == dir@ || old(self).collapsed_v().contains(d)),
            final(self).scroll == old(self).scroll,
            final(self).h_scroll == old(self).h_scroll,
            final(self).cursor_row == old(self).cursor_row,
            final(self).wrap == old(self).wrap,
            final(self).selected == old(self).selected,
            final(self).selected_dir == old(self).selected_dir,
            final(self).reveal_selected == old(self).reveal_selected,
            final(self).viewed == old(self).viewed,
    {
        if !self.is_folded(dir) {
            let ghost before = self.collapsed_v();
            self.collapsed.push(dir.to_string());
            assert(self.collapsed_v() =~= before.push(dir@));
            assert forall|d: Seq<char>| #[trigger] self.collapsed_v().contains(d) == (d == dir@ || before.contains(d)) by {
                if d == dir@ {
                    assert(self.collapsed_v()[before.len() as int] == d);
                }
                if before.contains(d) {
                    let k = choose|k: int| 0 <= k < before.len() && before[k] == d;
                    assert(self.collapsed_v()[k] == d);
                }
            }
        }
    }

    /// Unfold `dir` (not folded: unchanged).
    pub fn remove_fold(&mut self, dir: &str)
        ensures
            forall|d: Seq<char>| #[trigger] final(self).collapsed_v().contains(d) == (d != dir@ && old(self).collapsed_v().contains(d)),
            final(self).scroll == old(self).scroll,
            final(self).h_scroll == old(self).h_scroll,
            final(self).cursor_row == old(self).cursor_row,
            final(self).wrap == old(self).wrap,
            final(self).selected == old(self).selected,
            final(self).selected_dir == old(self).selected_dir,
            final(self).reveal_selected == old(self).reveal_selected,
            final(self).viewed == old(self).viewed,
    {
        let ghost before = self.collapsed_v();
        let ghost keep = |x: Seq<char>| x != dir@;
        let mut kept: Vec<String> = Vec::new();
        let mut i: usize = 0;
        assert(before.take(0) =~= Seq::<Seq<char>>::empty());
        assert(strs_v(kept@) =~= before.take(0).filter(keep)) by {
            reveal(Seq::filter);
        }
        while i < self.collapsed.len()
            invariant
                i <= self.collapsed@.len(),
                before == self.collapsed_v(),
                keep == (|x: Seq<char>| x != dir@),
                strs_v(kept@) == before.take(i as int).filter(keep),
            decreases self.collapsed@.len() - i,
        {
            let ghost kb = strs_v(kept@);
            assert(before.take(i + 1) =~= before.take(i as int).push(before[i as int]));
            proof {
                before.take(i as int).lemma_filter_push(before[i as int], keep);
            }
            if !str_eq(self.collapsed[i].as_str(), dir) {
                kept.push(self.collapsed[i].clone());
                assert(strs_v(kept@) =~= kb.push(before[i as int]));
            } else {
                assert(strs_v(kept@) =~= kb);
            }
            i = i + 1;
        }
        assert(before.take(before.len() as int) =~= before);
        self.collapsed = kept;
        assert forall|d: Seq<char>| #[trigger] self.collapsed_v().contains(d) == (d != dir@ && before.contains(d)) by {
            let f = before.filter(keep);
            assert(self.collapsed_v() == f);
            if f.contains(d) {
                before.lemma_filter_contains_rev(keep, d);
                let k = choose|k: int| 0 <= k < f.len() && f[k] == d;
                before.lemma_filter_pred(keep, k);
            }
            if d != dir@ && before.contains(d) {
                let k = choose|k: int| 0 <= k < before.len() && before[k] == d;
                before.lemma_filter_contains(keep, k);
            }
        }
    }

    /// Select a file (clearing any placeholder selection).
    pub fn select_file(&mut self, i: usize)
        ensures
            final(self).selected == i,
            final(self).selected_dir is None,
            final(self).scroll == old(self).scroll,
            final(self).h_scroll == old(self).h_scroll,
            final(self).cursor_row == old(self).cursor_row,
            final(self).wrap == old(self).wrap,
            final(self).reveal_selected == old(self).reveal_selected,
            final(self).viewed == old(self).viewed,
            final(self).collapsed == old(self).collapsed,
    {
        self.selected = i;
        self.selected_dir = None;
    }

    /// Select a folded directory's placeholder; `near` is the file the
    /// selection was closest to, kept as the active file.
    pub fn select_dir(&mut self, dir: String, near: usize)
        ensures
            final(self).selected == near,
            final(self).selected_dir == Some(dir),
            final(self).scroll == old(self).scroll,
            final(self).h_scroll == old(self).h_scroll,
            final(self).cursor_row == old(self).cursor_row,
            final(self).wrap == old(self).wrap,
            final(self).reveal_selected == old(self).reveal_selected,
            final(self).viewed == old(self).viewed,
            final(self).collapsed == old(self).collapsed,
    {
        self.selected = near;
        self.selected_dir = Some(dir);
    }
}

impl Default for ViewState {
    fn default() -> (st: ViewState)
        ensures
            st.scroll == 0,
            st.h_scroll == 0,
            st.cursor_row == 0,
            !st.wrap,
            st.selected == 0,
            st.selected_dir is None,
            !st.reveal_selected,
            st.viewed@.len() == 0,
            st.collapsed@.len() == 0,
    {
        ViewState::new()
    }
}

} // verus!
