//! Closing a review round: pick a verdict preset, edit its text, send. The
//! two stages keep the body delivered exactly the body written. Reading and
//! writing the review log is the caller's; this decides what to ask and
//! what each answer does.

use vstd::prelude::*;
use crate::app::App;
use crate::comments::{is_blank, no_log_note};
use crate::text::{push_char, push_decimal, spec_decimal};
use crate::types::{Mode, Overlay, SubmitDraft, VerdictPreset};

verus! {

/// What the review log holds, as far as opening a submit cares: no log,
/// an unreadable one, or one with `Rounds(n)` rounds.
#[derive(Debug)]
pub enum LogStatus {
    Missing,
    Unreadable,
    Rounds(usize),
}

/// A verdict to record: the instruction as written, and the preset it
/// started from.
#[derive(Debug)]
pub struct SubmitRequest {
    pub body: String,
    pub preset: Option<String>,
}

/// The topmost overlay, when it is the submit box.
pub open spec fn top_submit(m: Mode) -> Option<SubmitDraft> {
    match m.overlay_spec() {
        Some(Overlay::Submit(d)) => Some(d),
        _ => None,
    }
}

/// `after`'s overlays are `before`'s with the topmost one now `o`.
pub open spec fn top_is_now(before: Mode, after: Mode, o: Overlay) -> bool {
    &&& after.base == before.base
    &&& after.stack() == before.stack().update(before.stack().len() - 1, o)
}

/// The note that a round was submitted.
pub open spec fn submitted_note(round: u32) -> Seq<char> {
    "round "@ + spec_decimal(round as nat) + " submitted"@
}

impl App {
    /// The submit box, when it is on top.
    pub fn submit_draft(&self) -> (r: Option<&SubmitDraft>)
        ensures
            match top_submit(self.mode) {
                Some(d) => r == Some(&d),
                None => r is None,
            },
    {
        match self.mode.overlay() {
            Some(Overlay::Submit(d)) => Some(d),
            _ => None,
        }
    }

    /// Open the submit box over `presets` when there is a round to close
    /// (only a review has one); otherwise a note says why not.
    pub fn open_submit(&mut self, log: LogStatus, presets: Vec<VerdictPreset>)
        requires
            old(self).wf(),
        ensures
            final(self).session == old(self).session,
            final(self).mode.base == old(self).mode.base,
            !old(self).session.cur().review ==> final(self).mode.stack() == old(self).mode.stack()
                && final(self).flash == old(self).flash,
            old(self).session.cur().review ==> match log {
                LogStatus::Missing => final(self).mode.stack() == old(self).mode.stack() && (final(self).flash matches Some(
                    f,
                ) && f@ == no_log_note()),
                LogStatus::Unreadable => final(self).mode.stack() == old(self).mode.stack() && (final(self).flash matches Some(
                    f,
                ) && f@ == "could not read the review log"@),
                LogStatus::Rounds(n) => if n == 0 {
                    final(self).mode.stack() == old(self).mode.stack() && (final(self).flash matches Some(f) && f@
                        == "nothing to submit yet — `a` or `A` leaves a review point"@)
                } else {
                    final(self).mode.stack() == old(self).mode.stack().push(
                        Overlay::Submit(SubmitDraft { presets, selected: 0, buffer: None, refusal: None }),
                    ) && final(self).flash == old(self).flash
                },
            },
    {
        proof {
            reveal_strlit("this repository has no worktree to hold a review log");
            reveal_strlit("could not read the review log");
            reveal_strlit("nothing to submit yet — `a` or `A` leaves a review point");
        }
        if !self.is_review() {
            return ;
        }
        match log {
            LogStatus::Missing => {
                self.flash = Some("this repository has no worktree to hold a review log".to_string());
            },
            LogStatus::Unreadable => {
                self.flash = Some("could not read the review log".to_string());
            },
            LogStatus::Rounds(n) => {
                if n == 0 {
                    self.flash = Some("nothing to submit yet — `a` or `A` leaves a review point".to_string());
                } else {
                    self.mode.push_overlay(Overlay::Submit(SubmitDraft::new(presets)));
                }
            },
        }
    }

    /// What [`App::submit_move`] promises: `after` is the app once the call has run on
    /// `before`.
    pub open spec fn submit_move_done(before: App, after: App, delta: isize) -> bool {
        &&& after.session == before.session
        &&& after.mode.base == before.mode.base
        &&& match top_submit(before.mode) {
            Some(d) => d.selected <= isize::MAX && d.presets@.len() <= isize::MAX && isize::MIN <= d.selected
                + delta <= isize::MAX ==> top_is_now(
                before.mode,
                after.mode,
                Overlay::Submit(
                    SubmitDraft {
                        selected: if d.buffer is None {
                            crate::types::clamp_sel(d.selected + delta, d.presets@.len() as int) as usize
                        } else {
                            d.selected
                        },
                        ..d
                    },
                ),
            ),
            None => after.mode.stack() == before.mode.stack() && after.mode.base == before.mode.base,
        }
    }

    /// Move the preset selection while picking. Without the submit box on
    /// top nothing changes.
    pub fn submit_move(&mut self, delta: isize)
        ensures
            Self::submit_move_done(*old(self), *final(self), delta),
    {
        match self.mode.pop_overlay() {
            Some(Overlay::Submit(mut d)) => {
                if d.selected <= isize::MAX as usize && d.presets.len() <= isize::MAX as usize {
                    let s = d.selected as isize;
                    if let Some(_) = s.checked_add(delta) {
                        d.move_by(delta);
                    }
                }
                self.mode.push_overlay(Overlay::Submit(d));
            },
            Some(other) => self.mode.push_overlay(other),
            None => {},
        }
        proof {
            if old(self).mode.stack().len() > 0 {
                assert(old(self).mode.stack().drop_last().push(old(self).mode.stack().last()) =~= old(self).mode.stack());
                assert(self.mode.stack().drop_last() =~= old(self).mode.stack().drop_last());
                assert(self.mode.stack() =~= old(self).mode.stack().update(
                    old(self).mode.stack().len() - 1,
                    self.mode.stack().last(),
                ));
            }
        }
    }

    /// What [`App::submit_input`] promises: `after` is the app once the call has run on
    /// `before`.
    pub open spec fn submit_input_done(before: App, after: App, c: char) -> bool {
        &&& after.session == before.session
        &&& match top_submit(before.mode) {
            Some(d) => top_submit(after.mode) matches Some(n) && {
                &&& after.mode.base == before.mode.base
                &&& after.mode.stack().drop_last() == before.mode.stack().drop_last()
                &&& after.mode.stack().len() == before.mode.stack().len()
                &&& n.presets == d.presets
                &&& n.selected == d.selected
                &&& n.refusal is None
                &&& match d.buffer {
                    Some(b) => n.buffer matches Some(nb) && nb@ == b@.push(c),
                    None => n.buffer is None,
                }
            },
            None => after.mode.stack() == before.mode.stack() && after.mode.base == before.mode.base,
        }
    }

    /// Type `c` into the instruction being edited (clearing a shown
    /// refusal). Without the submit box on top nothing changes.
    pub fn submit_input(&mut self, c: char)
        ensures
            Self::submit_input_done(*old(self), *final(self), c),
    {
        match self.mode.pop_overlay() {
            Some(Overlay::Submit(mut d)) => {
                match d.buffer {
                    Some(mut b) => {
                        push_char(&mut b, c);
                        d.buffer = Some(b);
                    },
                    None => {},
                }
                d.refusal = None;
                self.mode.push_overlay(Overlay::Submit(d));
            },
            Some(other) => self.mode.push_overlay(other),
            None => {},
        }
        proof {
            if old(self).mode.stack().len() > 0 {
                assert(old(self).mode.stack().drop_last().push(old(self).mode.stack().last()) =~= old(self).mode.stack());
                assert(self.mode.stack().drop_last() =~= old(self).mode.stack().drop_last());
                assert(self.mode.stack() =~= old(self).mode.stack().update(
                    old(self).mode.stack().len() - 1,
                    self.mode.stack().last(),
                ));
            }
        }
    }

    /// What [`App::submit_backspace`] promises: `after` is the app once the call has run on
    /// `before`.
    pub open spec fn submit_backspace_done(before: App, after: App) -> bool {
        &&& after.session == before.session
        &&& match top_submit(before.mode) {
            Some(d) => top_submit(after.mode) matches Some(n) && {
                &&& after.mode.base == before.mode.base
                &&& after.mode.stack().drop_last() == before.mode.stack().drop_last()
                &&& after.mode.stack().len() == before.mode.stack().len()
                &&& n.presets == d.presets
                &&& n.selected == d.selected
                &&& n.refusal is None
                &&& match d.buffer {
                    Some(b) => n.buffer matches Some(nb) && nb@ == if b@.len() > 0 {
                        b@.drop_last()
                    } else {
                        b@
                    },
                    None => n.buffer is None,
                }
            },
            None => after.mode.stack() == before.mode.stack() && after.mode.base == before.mode.base,
        }
    }

    /// Delete the last character of the instruction being edited (clearing
    /// a shown refusal). Without the submit box on top nothing changes.
    pub fn submit_backspace(&mut self)
        ensures
            Self::submit_backspace_done(*old(self), *final(self)),
    {
        match self.mode.pop_overlay() {
            Some(Overlay::Submit(mut d)) => {
                match d.buffer {
                    Some(b) => {
                        let n = b.unicode_len();
                        let nb = if n > 0 {
                            b.as_str().substring_char(0, n - 1).to_owned()
                        } else {
                            b
                        };
                        d.buffer = Some(nb);
                    },
                    None => {},
                }
                d.refusal = None;
                self.mode.push_overlay(Overlay::Submit(d));
            },
            Some(other) => self.mode.push_overlay(other),
            None => {},
        }
        proof {
            if old(self).mode.stack().len() > 0 {
                assert(old(self).mode.stack().drop_last().push(old(self).mode.stack().last()) =~= old(self).mode.stack());
                assert(self.mode.stack().drop_last() =~= old(self).mode.stack().drop_last());
                assert(self.mode.stack() =~= old(self).mode.stack().update(
                    old(self).mode.stack().len() - 1,
                    self.mode.stack().last(),
                ));
            }
        }
    }

    /// What [`App::submit_cancel`] promises: `after` is the app once the call has run on
    /// `before`.
    pub open spec fn submit_cancel_done(before: App, after: App) -> bool {
        &&& after.session == before.session
        &&& after.mode.base == before.mode.base
        &&& top_submit(before.mode) matches Some(d) ==> (d.buffer is Some ==> after.mode.stack() == before.mode.stack().update(
            before.mode.stack().len() - 1,
            Overlay::Submit(SubmitDraft { buffer: None, refusal: None, ..d }),
        ))
        &&& !(top_submit(before.mode) matches Some(d) && d.buffer is Some) ==> if before.mode.stack().len() > 0 {
            after.mode.stack() == before.mode.stack().drop_last()
        } else {
            after.mode.stack() == before.mode.stack()
        }
    }

    /// Back out one stage: editing returns to the preset list, picking (or
    /// any other topmost overlay) closes.
    pub fn submit_cancel(&mut self)
        ensures
            Self::submit_cancel_done(*old(self), *final(self)),
    {
        match self.mode.pop_overlay() {
            Some(Overlay::Submit(mut d)) => {
                if d.buffer.is_some() {
                    d.buffer = None;
                    d.refusal = None;
                    self.mode.push_overlay(Overlay::Submit(d));
                }
            },
            _ => {},
        }
        proof {
            if old(self).mode.stack().len() > 0 {
                assert(old(self).mode.stack().drop_last().push(old(self).mode.stack().last()) =~= old(self).mode.stack());
                assert(self.mode.stack() =~= old(self).mode.stack().update(
                    old(self).mode.stack().len() - 1,
                    self.mode.stack().last(),
                ) || self.mode.stack() =~= old(self).mode.stack().drop_last());
            }
        }
    }

    /// What [`App::submit_confirm`] promises: `after` is the app once the call has run on
    /// `before`.
    pub open spec fn submit_confirm_done(before: App, after: App, req: Option<SubmitRequest>) -> bool {
        &&& after.session == before.session
        &&& after.mode.base == before.mode.base
        &&& top_submit(before.mode) is None ==> after.mode.stack() == before.mode.stack() && req is None
        &&& top_submit(before.mode) matches Some(d) ==> match d.buffer {
            None => {
                &&& req is None
                &&& after.mode.stack().len() == before.mode.stack().len()
                &&& after.mode.stack().drop_last() == before.mode.stack().drop_last()
                &&& top_submit(after.mode) matches Some(n) && n.presets == d.presets && n.selected
                    == d.selected && n.refusal == d.refusal && if d.selected < d.presets@.len() {
                    n.buffer matches Some(b) && b@ == d.presets@[d.selected as int].body@
                } else {
                    n.buffer is None
                }
            },
            Some(b) => if is_blank(b@) {
                &&& req is None
                &&& after.mode.stack().len() == before.mode.stack().len()
                &&& after.mode.stack().drop_last() == before.mode.stack().drop_last()
                &&& top_submit(after.mode) matches Some(n) && n.presets == d.presets && n.selected
                    == d.selected && n.buffer == d.buffer && (n.refusal matches Some(r) && r@
                    == "an empty instruction closes nothing"@)
            } else {
                &&& after.mode.stack() == before.mode.stack()
                &&& req matches Some(r) && r.body@ == b@ && if d.selected < d.presets@.len() {
                    r.preset matches Some(p) && p@ == d.presets@[d.selected as int].name@
                } else {
                    r.preset is None
                }
            },
        }
    }

    /// Advance the submit box: picking starts editing the selected preset's
    /// text; editing a blank instruction is refused in the box; otherwise
    /// the verdict is handed back for the caller to record (and to report
    /// with [`App::submit_settled`]).
    pub fn submit_confirm(&mut self) -> (req: Option<SubmitRequest>)
        ensures
            Self::submit_confirm_done(*old(self), *final(self), req),
    {
        proof {
            reveal_strlit("an empty instruction closes nothing");
        }
        let (is_box, editing, empty) = match self.mode.overlay() {
            Some(Overlay::Submit(d)) => match &d.buffer {
                Some(b) => (true, true, crate::comments::blank_text(b)),
                None => (true, false, false),
            },
            _ => (false, false, false),
        };
        if !is_box {
            return None;
        }
        if !editing || empty {
            match self.mode.pop_overlay() {
                Some(Overlay::Submit(mut d)) => {
                    if !editing {
                        d.begin_edit();
                    } else {
                        d.refusal = Some("an empty instruction closes nothing".to_string());
                    }
                    self.mode.push_overlay(Overlay::Submit(d));
                },
                Some(other) => self.mode.push_overlay(other),
                None => {},
            }
            proof {
                if old(self).mode.stack().len() > 0 {
                    assert(old(self).mode.stack().drop_last().push(old(self).mode.stack().last()) =~= old(self).mode.stack());
                    assert(self.mode.stack().drop_last() =~= old(self).mode.stack().drop_last());
                }
            }
            return None;
        }
        match self.mode.overlay() {
            Some(Overlay::Submit(d)) => {
                let body = match &d.buffer {
                    Some(b) => b.clone(),
                    None => String::new(),
                };
                let preset = match d.current() {
                    Some(p) => Some(p.name.clone()),
                    None => None,
                };
                Some(SubmitRequest { body, preset })
            },
            _ => None,
        }
    }

    /// Report how recording the verdict went: success closes the box with a
    /// note naming the round; a refusal stays in the box (the typed text is
    /// kept). Without the submit box on top nothing changes.
    pub fn submit_settled(&mut self, result: Result<u32, String>)
        ensures
            final(self).session == old(self).session,
            final(self).mode.base == old(self).mode.base,
            top_submit(old(self).mode) is None ==> final(self).mode.stack() == old(self).mode.stack() && final(self).flash == old(self).flash,
            top_submit(old(self).mode) matches Some(d) ==> match result {
                Ok(round) => final(self).mode.stack() == old(self).mode.stack().drop_last() && (final(self).flash matches Some(f) && f@ == submitted_note(round)),
                Err(msg) => final(self).flash == old(self).flash && final(self).mode.stack() == old(self).mode.stack().update(
                    old(self).mode.stack().len() - 1,
                    Overlay::Submit(SubmitDraft { refusal: Some(msg), ..d }),
                ),
            },
    {
        proof {
            reveal_strlit("round ");
            reveal_strlit(" submitted");
        }
        match self.mode.pop_overlay() {
            Some(Overlay::Submit(mut d)) => match result {
                Ok(round) => {
                    let mut note = "round ".to_string();
                    push_decimal(&mut note, round as usize);
                    note.append(" submitted");
                    self.flash = Some(note);
                },
                Err(msg) => {
                    d.refusal = Some(msg);
                    self.mode.push_overlay(Overlay::Submit(d));
                },
            },
            Some(other) => self.mode.push_overlay(other),
            None => {},
        }
        proof {
            if old(self).mode.stack().len() > 0 {
                assert(old(self).mode.stack().drop_last().push(old(self).mode.stack().last()) =~= old(self).mode.stack());
                assert(self.mode.stack() =~= old(self).mode.stack().update(
                    old(self).mode.stack().len() - 1,
                    self.mode.stack().last(),
                ) || self.mode.stack() =~= old(self).mode.stack().drop_last());
            }
        }
    }
}

} // verus!
