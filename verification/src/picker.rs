//! The theme picker overlay: the themes of one tab (dark or light) laid out
//! column-major in a grid as wide as the body allows. Moving the cursor
//! previews the theme under it at once; `Enter` keeps it and `Esc` goes back
//! to the theme the picker opened with. The theme catalog lives with the
//! caller, which names themes by their position in a tab.

use vstd::prelude::*;
use crate::app::App;
use crate::keys::{Command, Key, theme_key};
use crate::types::{Mode, Overlay, ThemePicker, THEME_CELL_W};

verus! {

/// The topmost overlay, when it is the theme picker.
pub open spec fn top_picker(m: Mode) -> Option<ThemePicker> {
    match m.overlay_spec() {
        Some(Overlay::ThemePicker(p)) => Some(p),
        _ => None,
    }
}

/// Columns of the picker grid for a body `viewport_w` wide and a tab of
/// `count` themes: as many cells as nine tenths of the width holds (at least
/// one cell's width), at least one and at most one per theme.
pub open spec fn grid_cols(viewport_w: usize, count: usize) -> int {
    let w = if viewport_w * 9 / 10 > THEME_CELL_W {
        viewport_w * 9 / 10
    } else {
        THEME_CELL_W as int
    };
    let c = w / (THEME_CELL_W as int);
    let hi = if count > 1 {
        count as int
    } else {
        1
    };
    if c < 1 {
        1
    } else if c > hi {
        hi
    } else {
        c
    }
}

/// Rows of the picker grid: a column's height, enough columns to hold the
/// tab.
pub open spec fn grid_rows(viewport_w: usize, count: usize) -> int {
    let c = grid_cols(viewport_w, count);
    (count + c - 1) / c
}

/// The cell a move by `dx` columns and `dy` rows lands on from `selected`,
/// within a tab of `count` themes: the grid is column-major, so a row step
/// walks within a column (flowing into the next one) and a column step
/// jumps a column's height.
pub open spec fn moved_to(selected: usize, dx: isize, dy: isize, rows: int, count: usize) -> int {
    let t = selected + dy + dx * rows;
    if t < 0 {
        0
    } else if t > count - 1 {
        count - 1
    } else {
        t
    }
}

/// `after`'s overlays are `before`'s with the topmost one now `o`.
pub open spec fn top_now(before: Mode, after: Mode, o: Overlay) -> bool {
    &&& after.base == before.base
    &&& after.stack() == before.stack().update(before.stack().len() - 1, o)
}

impl App {
    /// Open the picker on the tab of the current theme (`dark`), its cursor
    /// on that theme (`position` in the tab); `original` names the theme for
    /// a cancel to restore.
    pub fn open_theme_picker(&mut self, original: usize, position: usize, dark: bool)
        ensures
            final(self).session == old(self).session,
            final(self).mode.base == old(self).mode.base,
            final(self).mode.stack() == old(self).mode.stack().push(
                Overlay::ThemePicker(ThemePicker { selected: position, dark_tab: dark, original }),
            ),
    {
        self.mode.push_overlay(Overlay::ThemePicker(ThemePicker { selected: position, dark_tab: dark, original }));
    }

    /// The open theme picker, if it is the topmost overlay.
    pub fn theme_picker(&self) -> (r: Option<&ThemePicker>)
        ensures
            match top_picker(self.mode) {
                Some(p) => r == Some(&p),
                None => r is None,
            },
    {
        match self.mode.overlay() {
            Some(Overlay::ThemePicker(p)) => Some(p),
            _ => None,
        }
    }

    /// Whether the theme picker is the topmost overlay.
    pub fn theme_picker_open(&self) -> (r: bool)
        ensures
            r == top_picker(self.mode) is Some,
    {
        self.theme_picker().is_some()
    }

    /// Columns of the picker grid for a tab of `count` themes.
    pub fn theme_picker_cols(&self, count: usize) -> (c: usize)
        requires
            self.viewport_w <= usize::MAX / 9,
        ensures
            c == grid_cols(self.viewport_w, count),
            c >= 1,
    {
        let w0 = self.viewport_w * 9 / 10;
        let w = if w0 > THEME_CELL_W {
            w0
        } else {
            THEME_CELL_W
        };
        let c = w / THEME_CELL_W;
        let hi = if count > 1 {
            count
        } else {
            1
        };
        if c < 1 {
            1
        } else if c > hi {
            hi
        } else {
            c
        }
    }

    /// Rows of the picker grid (a column's height) for a tab of `count`
    /// themes.
    pub fn theme_picker_rows(&self, count: usize) -> (r: usize)
        requires
            self.viewport_w <= usize::MAX / 9,
        ensures
            r == grid_rows(self.viewport_w, count),
    {
        let c = self.theme_picker_cols(count);
        let q = count / c;
        proof {
            assert(count == c * q + count % c) by (nonlinear_arith)
                requires
                    c >= 1,
                    q == count / c,
            ;
            assert((count + c - 1) / (c as int) == q + if count % c == 0 {
                0int
            } else {
                1int
            }) by (nonlinear_arith)
                requires
                    c >= 1,
                    q == count / c,
                    count == c * q + count % c,
                    0 <= count % c < c,
            ;
            assert(count % c != 0 ==> q < count) by (nonlinear_arith)
                requires
                    c >= 1,
                    count == c * q + count % c,
                    0 <= count % c < c,
            ;
        }
        if count % c == 0 {
            q
        } else {
            q + 1
        }
    }

    /// What [`App::theme_picker_move`] promises: `after` is the app once the
    /// call has run on `before`, answering `r`.
    pub open spec fn theme_picker_move_done(
        before: App,
        after: App,
        dx: isize,
        dy: isize,
        count: usize,
        r: Option<usize>,
    ) -> bool {
        &&& after.session == before.session
        &&& (count == 0 || top_picker(before.mode) is None) ==> r is None && crate::overlays::same_mode(
            before.mode,
            after.mode,
        )
        &&& count > 0 ==> (top_picker(before.mode) matches Some(p) ==> ({
            let next = moved_to(p.selected, dx, dy, grid_rows(before.viewport_w, count), count);
            &&& r == Some(next as usize)
            &&& top_now(before.mode, after.mode, Overlay::ThemePicker(ThemePicker { selected: next as usize, ..p }))
        }))
    }

    /// Move the picker cursor by `dx` columns and `dy` rows within a tab of
    /// `count` themes, clamped to the tab; returns the position now under
    /// the cursor, for the caller to preview. Without a picker, or with an
    /// empty tab, nothing happens.
    pub fn theme_picker_move(&mut self, dx: isize, dy: isize, count: usize) -> (r: Option<usize>)
        requires
            old(self).viewport_w <= usize::MAX / 9,
        ensures
            Self::theme_picker_move_done(*old(self), *final(self), dx, dy, count, r),
    {
        if count == 0 {
            return None;
        }
        let rows = self.theme_picker_rows(count);
        let sel = match self.theme_picker() {
            Some(p) => p.selected,
            None => {
                return None;
            },
        };
        proof {
            assert(rows <= count) by (nonlinear_arith)
                requires
                    rows == grid_rows(self.viewport_w, count),
                    grid_cols(self.viewport_w, count) >= 1,
                    count >= 1,
            ;
            assert(-0x8000_0000_0000_0000 * 0xFFFF_FFFF_FFFF_FFFF <= (dx as int) * (rows as int)
                <= 0x7FFF_FFFF_FFFF_FFFF * 0xFFFF_FFFF_FFFF_FFFF) by (nonlinear_arith)
                requires
                    -0x8000_0000_0000_0000 <= dx <= 0x7FFF_FFFF_FFFF_FFFF,
                    0 <= rows <= 0xFFFF_FFFF_FFFF_FFFF,
            ;
        }
        let jump: i128 = (dx as i128) * (rows as i128);
        let big: i128 = 0x4_0000_0000_0000_0000;
        let jump = if jump > big {
            big
        } else if jump < -big {
            -big
        } else {
            jump
        };
        let t: i128 = (sel as i128) + (dy as i128) + jump;
        let last = (count - 1) as i128;
        let next: usize = if t < 0 {
            0
        } else if t > last {
            count - 1
        } else {
            t as usize
        };
        self.set_picker_selection(next);
        Some(next)
    }

    /// Put the picker cursor on `idx`.
    fn set_picker_selection(&mut self, idx: usize)
        ensures
            final(self).session == old(self).session,
            top_picker(old(self).mode) is None ==> crate::overlays::same_mode(old(self).mode, final(self).mode),
            top_picker(old(self).mode) matches Some(p) ==> top_now(
                old(self).mode,
                final(self).mode,
                Overlay::ThemePicker(ThemePicker { selected: idx, ..p }),
            ),
    {
        match self.mode.pop_overlay() {
            Some(Overlay::ThemePicker(mut p)) => {
                p.selected = idx;
                self.mode.push_overlay(Overlay::ThemePicker(p));
            },
            Some(other) => self.mode.push_overlay(other),
            None => {},
        }
        proof {
            if old(self).mode.stack().len() > 0 {
                assert(old(self).mode.stack().drop_last().push(old(self).mode.stack().last()) =~= old(
                    self,
                ).mode.stack());
                assert(self.mode.stack() =~= old(self).mode.stack().update(
                    old(self).mode.stack().len() - 1,
                    self.mode.stack().last(),
                ));
            }
        }
    }

    /// Advance the cursor to the next theme of a tab of `count` themes,
    /// wrapping at the end; returns the position now under the cursor.
    /// Without a picker, or with an empty tab, nothing happens.
    pub fn theme_picker_next(&mut self, count: usize) -> (r: Option<usize>)
        ensures
            final(self).session == old(self).session,
            (count == 0 || top_picker(old(self).mode) is None) ==> r is None && crate::overlays::same_mode(old(self).mode, final(self).mode),
            count > 0 ==> (top_picker(old(self).mode) matches Some(p) ==> ({
                let next = ((p.selected + 1) % (count as int)) as usize;
                &&& r == Some(next)
                &&& top_now(old(self).mode, final(self).mode, Overlay::ThemePicker(ThemePicker { selected: next, ..p }))
            })),
    {
        if count == 0 {
            return None;
        }
        let sel = match self.theme_picker() {
            Some(p) => p.selected,
            None => {
                return None;
            },
        };
        let next = (sel % count + 1) % count;
        proof {
            assert((sel % count + 1) % (count as int) == (sel + 1) % (count as int)) by (nonlinear_arith)
                requires
                    count >= 1,
            ;
        }
        self.set_picker_selection(next);
        Some(next)
    }

    /// Switch the picker to the other tab, of `other_count` themes, keeping
    /// the cursor within it; returns the position now under the cursor.
    /// Without a picker, or with an empty other tab, nothing happens.
    pub fn theme_picker_toggle_tab(&mut self, other_count: usize) -> (r: Option<usize>)
        ensures
            final(self).session == old(self).session,
            (other_count == 0 || top_picker(old(self).mode) is None) ==> r is None
                && crate::overlays::same_mode(old(self).mode, final(self).mode),
            other_count > 0 ==> (top_picker(old(self).mode) matches Some(p) ==> ({
                let next = if p.selected < other_count {
                    p.selected
                } else {
                    (other_count - 1) as usize
                };
                &&& r == Some(next)
                &&& top_now(
                    old(self).mode,
                    final(self).mode,
                    Overlay::ThemePicker(ThemePicker { selected: next, dark_tab: !p.dark_tab, ..p }),
                )
            })),
    {
        if other_count == 0 {
            return None;
        }
        let r = match self.mode.pop_overlay() {
            Some(Overlay::ThemePicker(mut p)) => {
                p.dark_tab = !p.dark_tab;
                if p.selected >= other_count {
                    p.selected = other_count - 1;
                }
                let sel = p.selected;
                self.mode.push_overlay(Overlay::ThemePicker(p));
                Some(sel)
            },
            Some(other) => {
                self.mode.push_overlay(other);
                None
            },
            None => None,
        };
        proof {
            if old(self).mode.stack().len() > 0 {
                assert(old(self).mode.stack().drop_last().push(old(self).mode.stack().last()) =~= old(
                    self,
                ).mode.stack());
                assert(self.mode.stack() =~= old(self).mode.stack().update(
                    old(self).mode.stack().len() - 1,
                    self.mode.stack().last(),
                ));
            }
        }
        r
    }

    /// Close the topmost overlay, keeping the previewed theme; answers
    /// whether it was the theme picker (whose theme the caller then saves).
    pub fn theme_picker_commit(&mut self) -> (r: bool)
        ensures
            final(self).session == old(self).session,
            final(self).mode.base == old(self).mode.base,
            r == top_picker(old(self).mode) is Some,
            old(self).mode.stack().len() > 0 ==> final(self).mode.stack() == old(self).mode.stack().drop_last(),
            old(self).mode.stack().len() == 0 ==> final(self).mode.stack() == old(self).mode.stack(),
    {
        match self.mode.pop_overlay() {
            Some(Overlay::ThemePicker(_)) => true,
            _ => false,
        }
    }

    /// Close the topmost overlay; when it was the theme picker, answers the
    /// theme it opened with, for the caller to restore.
    pub fn theme_picker_cancel(&mut self) -> (r: Option<usize>)
        ensures
            final(self).session == old(self).session,
            final(self).mode.base == old(self).mode.base,
            r == match top_picker(old(self).mode) {
                Some(p) => Some(p.original),
                None => None,
            },
            old(self).mode.stack().len() > 0 ==> final(self).mode.stack() == old(self).mode.stack().drop_last(),
            old(self).mode.stack().len() == 0 ==> final(self).mode.stack() == old(self).mode.stack(),
    {
        match self.mode.pop_overlay() {
            Some(Overlay::ThemePicker(p)) => Some(p.original),
            _ => None,
        }
    }
}

/// A tab of at least one theme has columns at least one theme high.
proof fn lemma_grid_rows_positive(viewport_w: usize, count: usize)
    requires
        count >= 1,
    ensures
        1 <= grid_rows(viewport_w, count) <= count,
{
    let c = grid_cols(viewport_w, count);
    assert(1 <= c <= count);
    assert(1 <= (count + c - 1) / c <= count) by (nonlinear_arith)
        requires
            1 <= c <= count,
    ;
}

/// Moving in the theme picker goes where the column-major grid says, with
/// the cursor at column `selected / rows` and row `selected % rows` for
/// columns `rows` themes high: a move across columns alone keeps the
/// cursor's row and shifts its column by `dx`, whenever that cell holds a
/// theme; a move along rows alone that stays inside the cursor's column
/// keeps the column and shifts the row by `dy`; and the cursor always ends
/// on a theme of the tab.
pub proof fn law_theme_move_in_grid(
    before: App,
    after: App,
    dx: isize,
    dy: isize,
    count: usize,
    r: Option<usize>,
)
    requires
        App::theme_picker_move_done(before, after, dx, dy, count, r),
        count > 0,
        top_picker(before.mode) matches Some(p) && p.selected < count,
    ensures
        ({
            let s = top_picker(before.mode)->0.selected as int;
            let rows = grid_rows(before.viewport_w, count);
            &&& r matches Some(n) && n < count
            &&& (dy == 0 && 0 <= s / rows + dx && (s / rows + dx) * rows + s % rows < count) ==> (r->0 as int) / rows == s
                / rows + dx && (r->0 as int) % rows == s % rows
            &&& (dx == 0 && 0 <= s % rows + dy < rows && s + dy < count) ==> (r->0 as int) / rows == s / rows && (r->0 as int)
                % rows == s % rows + dy
        }),
{
    let s = top_picker(before.mode)->0.selected as int;
    let rows = grid_rows(before.viewport_w, count);
    lemma_grid_rows_positive(before.viewport_w, count);
    vstd::arithmetic::div_mod::lemma_fundamental_div_mod(s, rows);
    let q = s / rows;
    let m = s % rows;
    if dy == 0 && 0 <= q + dx && (q + dx) * rows + m < count {
        assert(s + dy + dx * rows == (q + dx) * rows + m) by (nonlinear_arith)
            requires
                s == rows * q + m,
                dy == 0,
        ;
        assert((q + dx) * rows + m >= 0) by (nonlinear_arith)
            requires
                0 <= q + dx,
                rows >= 1,
                0 <= m,
        ;
        vstd::arithmetic::div_mod::lemma_fundamental_div_mod_converse((q + dx) * rows + m, rows, q + dx, m);
    }
    if dx == 0 && 0 <= m + dy < rows && s + dy < count {
        assert(s + dy + dx * rows == q * rows + (m + dy)) by (nonlinear_arith)
            requires
                s == rows * q + m,
                dx == 0,
        ;
        assert(s + dy >= 0) by (nonlinear_arith)
            requires
                s == rows * q + m,
                0 <= m + dy,
                q >= 0,
                rows >= 1,
        ;
        vstd::arithmetic::div_mod::lemma_fundamental_div_mod_converse(q * rows + (m + dy), rows, q, m + dy);
    }
}

/// Each arrow key moves the picker cursor the way it points: left (or
/// `h`) never onto a later theme and right (or `l`) never onto an earlier
/// one; up (or `k`) and down (or `j`) likewise; and where the grid has a
/// theme in that direction, the cursor does move.
pub proof fn law_theme_arrows_move_their_way(
    before: App,
    after: App,
    key: Key,
    count: usize,
    r: Option<usize>,
)
    requires
        theme_key(key) matches Command::ThemeMove(dx, dy) && App::theme_picker_move_done(
            before,
            after,
            dx,
            dy,
            count,
            r,
        ),
        count > 0,
        top_picker(before.mode) matches Some(p) && p.selected < count,
    ensures
        ({
            let s = top_picker(before.mode)->0.selected as int;
            let n = r->0 as int;
            &&& (key == Key::Left || key == Key::Char('h') || key == Key::Up || key == Key::Char('k')) ==> n <= s
                && (s > 0 ==> n < s)
            &&& (key == Key::Right || key == Key::Char('l') || key == Key::Down || key == Key::Char('j')) ==> n
                >= s && (s < count - 1 ==> n > s)
        }),
{
    lemma_grid_rows_positive(before.viewport_w, count);
}

} // verus!
