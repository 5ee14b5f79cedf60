//! Input routing: which action a key or mouse event asks for, decided by the
//! same context resolver the status line renders its hints from (overlay,
//! then peek, then the normal panes), so what is dispatched and what is
//! advertised follow one precedence. Performing the action is the caller's.

use vstd::prelude::*;
use crate::peek::PeekMode;
use crate::app::{App, context_of};
use crate::types::{Base, Focus, InputContext, Mode, Overlay};

verus! {

/// Rows or columns a Shift-modified ("fast") scroll or pan moves.
pub const BIG_STEP: isize = 8;

/// Rows one wheel notch scrolls.
pub const WHEEL_STEP: isize = 3;

/// A key, as routing reads it.
#[derive(Clone, Copy, PartialEq, Eq, Debug, Structural)]
pub enum Key {
    Char(char),
    Esc,
    Enter,
    Tab,
    BackTab,
    Backspace,
    Up,
    Down,
    Left,
    Right,
    PageUp,
    PageDown,
    Home,
    End,
    Other,
}

/// The modifiers routing reads.
#[derive(Clone, Copy, PartialEq, Eq, Debug, Structural)]
pub struct Mods {
    pub ctrl: bool,
    pub shift: bool,
}

/// An input event, as routing reads it.
#[derive(Clone, Copy, PartialEq, Eq, Debug, Structural)]
pub enum Event {
    /// A key went down (`press`: a press or a repeat, not a release).
    Key { key: Key, mods: Mods, press: bool },
    /// The wheel turned a notch (`down` or up), over the sidebar or not.
    Wheel { down: bool, ctrl: bool, over_sidebar: bool },
    /// A mouse button went down at a screen cell.
    Click { column: u16, row: u16 },
    /// The terminal was resized.
    Resize,
    /// Anything else.
    Other,
}

/// What an input asks for.
#[derive(Clone, Copy, PartialEq, Eq, Debug, Structural)]
pub enum Command {
    Nothing,
    ToggleHelp,
    CommitMsgDismiss,
    CommitMsgConfirm,
    CommitMsgScroll(isize),
    CommitMsgPage(isize),
    PaletteClose,
    PaletteConfirm,
    PaletteOpenMessage,
    PaletteMove(isize),
    PaletteBackspace,
    PalettePick(usize),
    PaletteInput(char),
    ThemeCancel,
    ThemeCommit,
    ThemeMove(isize, isize),
    ThemeToggleTab,
    ThemeNext,
    CommentCancel,
    CommentConfirm,
    CommentBackspace,
    CommentInput(char),
    PeekClose,
    PeekSwitchMode,
    PeekHalfPage(isize),
    PeekHunk(isize),
    PeekScroll(isize),
    PeekPage(isize),
    PeekTop,
    PeekBottom,
    PeekSetFull(bool),
    PeekToggleSplit,
    PeekBlameMessage,
    CancelLoad,
    NextFile,
    PrevFile,
    HalfPageFocused(isize),
    Quit,
    ToggleFocus,
    ToggleSidebar,
    OpenPeekPreview,
    OpenPeekReview,
    OpenPeekBlame,
    OpenPalette,
    OpenCommitPalette,
    OpenFileHistory,
    ViewHome,
    PromoteReview,
    ViewBack,
    ViewForward,
    ToggleViewed,
    NextUnviewed,
    CycleMode,
    OpenThemePicker,
    ToggleWrap,
    ToggleGrouping,
    ToggleFold,
    FoldAll,
    GotoDigit(usize),
    OpenComment(bool),
    OpenThreads,
    OpenSubmit,
    ThreadsMove(isize),
    ThreadsJump,
    ThreadsClose,
    ThreadsEdit,
    ThreadsRetract,
    ThreadsResolve,
    SubmitMove(isize),
    SubmitConfirm,
    SubmitCancel,
    SubmitBackspace,
    SubmitInput(char),
    SidebarMove(isize),
    SidebarScroll(isize),
    FocusStream,
    ScrollView(isize),
    MoveCursor(isize),
    Page(isize),
    NextHunk,
    PrevHunk,
    Top,
    Bottom,
    HScroll(isize),
    Click(u16, u16),
}

/// A digit key from 1 to 9.
pub open spec fn is_pick_digit(c: char) -> bool {
    '1' <= c && c <= '9'
}

/// The commit-message popup's keys.
pub open spec fn commit_msg_key(key: Key) -> Command {
    match key {
        Key::Esc | Key::Char('q') | Key::Tab => Command::CommitMsgDismiss,
        Key::Enter => Command::CommitMsgConfirm,
        Key::Down | Key::Char('j') => Command::CommitMsgScroll(1),
        Key::Up | Key::Char('k') => Command::CommitMsgScroll(-1isize),
        Key::PageDown | Key::Char(' ') => Command::CommitMsgPage(1),
        Key::PageUp => Command::CommitMsgPage(-1isize),
        _ => Command::Nothing,
    }
}

/// The palette's keys: digits pick a result, other characters type.
pub open spec fn palette_key(key: Key) -> Command {
    match key {
        Key::Esc => Command::PaletteClose,
        Key::Enter => Command::PaletteConfirm,
        Key::Tab => Command::PaletteOpenMessage,
        Key::Up => Command::PaletteMove(-1isize),
        Key::Down => Command::PaletteMove(1),
        Key::Backspace => Command::PaletteBackspace,
        Key::Char(c) => if is_pick_digit(c) {
            Command::PalettePick((c as u32 - '1' as u32) as usize)
        } else {
            Command::PaletteInput(c)
        },
        _ => Command::Nothing,
    }
}

/// The theme picker's keys.
pub open spec fn theme_key(key: Key) -> Command {
    match key {
        Key::Esc | Key::Char('q') => Command::ThemeCancel,
        Key::Enter => Command::ThemeCommit,
        Key::Left | Key::Char('h') => Command::ThemeMove(-1isize, 0),
        Key::Right | Key::Char('l') => Command::ThemeMove(1isize, 0),
        Key::Up | Key::Char('k') => Command::ThemeMove(0, -1isize),
        Key::Down | Key::Char('j') => Command::ThemeMove(0, 1isize),
        Key::Tab | Key::BackTab => Command::ThemeToggleTab,
        Key::Char('t') => Command::ThemeNext,
        _ => Command::Nothing,
    }
}

/// In the theme picker each arrow, and its vi letter, moves one step the
/// way it points: left and `h` back across columns, right and `l` forward
/// across columns, up and `k` back along rows, down and `j` forward along
/// rows; these keys, and only these, move the cursor.
pub proof fn law_theme_keys_follow_arrows(key: Key)
    ensures
        (theme_key(key) is ThemeMove) <==> (key == Key::Left || key == Key::Char('h') || key == Key::Right || key
            == Key::Char('l') || key == Key::Up || key == Key::Char('k') || key == Key::Down || key == Key::Char(
            'j',
        )),
        theme_key(key) matches Command::ThemeMove(dx, dy) ==> {
            &&& -1 <= dx <= 1 && -1 <= dy <= 1
            &&& (dx < 0 <==> (key == Key::Left || key == Key::Char('h')))
            &&& (dx > 0 <==> (key == Key::Right || key == Key::Char('l')))
            &&& (dy < 0 <==> (key == Key::Up || key == Key::Char('k')))
            &&& (dy > 0 <==> (key == Key::Down || key == Key::Char('j')))
        },
{
}

/// The comment box's keys: a Ctrl chord is not text.
pub open spec fn comment_key(key: Key, mods: Mods) -> Command {
    match key {
        Key::Esc => Command::CommentCancel,
        Key::Enter => Command::CommentConfirm,
        Key::Backspace => Command::CommentBackspace,
        Key::Char(c) => if mods.ctrl {
            Command::Nothing
        } else {
            Command::CommentInput(c)
        },
        _ => Command::Nothing,
    }
}

/// The thread list's keys: acting on the selected thread (edit, retract,
/// resolve) needs the review log.
pub open spec fn threads_key(key: Key) -> Command {
    match key {
        Key::Down | Key::Char('j') => Command::ThreadsMove(1),
        Key::Up | Key::Char('k') => Command::ThreadsMove(-1isize),
        Key::Enter => Command::ThreadsJump,
        Key::Esc | Key::Char('q') => Command::ThreadsClose,
        Key::Char('e') => Command::ThreadsEdit,
        Key::Char('x') => Command::ThreadsRetract,
        Key::Char('o') => Command::ThreadsResolve,
        _ => Command::Nothing,
    }
}

/// The submit box's keys: while picking a preset (`editing` false) they
/// move and choose; while editing its text they type, and a Ctrl chord is
/// not text.
pub open spec fn submit_key(editing: bool, key: Key, mods: Mods) -> Command {
    if editing {
        match key {
            Key::Enter => Command::SubmitConfirm,
            Key::Esc => Command::SubmitCancel,
            Key::Backspace => Command::SubmitBackspace,
            Key::Char(c) => if mods.ctrl {
                Command::Nothing
            } else {
                Command::SubmitInput(c)
            },
            _ => Command::Nothing,
        }
    } else {
        match key {
            Key::Down | Key::Char('j') => Command::SubmitMove(1),
            Key::Up | Key::Char('k') => Command::SubmitMove(-1isize),
            Key::Enter => Command::SubmitConfirm,
            Key::Esc | Key::Char('q') => Command::SubmitCancel,
            _ => Command::Nothing,
        }
    }
}

/// The keys only one peek mode advertises, in that mode.
pub open spec fn peek_mode_key(mode: PeekMode, key: Key) -> Command {
    match (mode, key) {
        (PeekMode::Diff, Key::Char('=')) | (PeekMode::Diff, Key::Char('+')) => Command::PeekSetFull(true),
        (PeekMode::Diff, Key::Char('-')) | (PeekMode::Diff, Key::Char('_')) => Command::PeekSetFull(false),
        (PeekMode::Diff, Key::Char('m')) => Command::PeekToggleSplit,
        (PeekMode::Blame, Key::Enter) => Command::PeekBlameMessage,
        _ => Command::Nothing,
    }
}

/// The peek's keys: its mode's own keys first, then its controls and the
/// stream's navigation set.
pub open spec fn peek_key(mode: PeekMode, key: Key, mods: Mods) -> Command {
    let own = peek_mode_key(mode, key);
    if own != Command::Nothing {
        own
    } else {
        match key {
            Key::Esc | Key::Char('q') => Command::PeekClose,
            Key::Tab => Command::PeekSwitchMode,
            Key::Char('f') if mods.ctrl => Command::PeekHalfPage(1),
            Key::Char('d') if mods.ctrl => Command::PeekHalfPage(1),
            Key::Char('b') if mods.ctrl => Command::PeekHalfPage(-1isize),
            Key::Char('u') if mods.ctrl => Command::PeekHalfPage(-1isize),
            Key::Char(']') => Command::PeekHunk(1),
            Key::Char('[') => Command::PeekHunk(-1isize),
            Key::Char('J') => Command::PeekScroll(BIG_STEP),
            Key::Char('K') => Command::PeekScroll((-BIG_STEP) as isize),
            Key::Down if mods.shift => Command::PeekScroll(BIG_STEP),
            Key::Up if mods.shift => Command::PeekScroll((-BIG_STEP) as isize),
            Key::Down | Key::Char('j') => Command::PeekScroll(1),
            Key::Up | Key::Char('k') => Command::PeekScroll(-1isize),
            Key::PageDown | Key::Char(' ') => Command::PeekPage(1),
            Key::PageUp => Command::PeekPage(-1isize),
            Key::Char('g') | Key::Home => Command::PeekTop,
            Key::Char('G') | Key::End => Command::PeekBottom,
            _ => Command::Nothing,
        }
    }
}

/// Ctrl chords: file stepping and half-paging the focused pane.
pub open spec fn ctrl_key(key: Key) -> Command {
    match key {
        Key::Down => Command::NextFile,
        Key::Up => Command::PrevFile,
        Key::Char('f') | Key::Char('d') => Command::HalfPageFocused(1isize),
        Key::Char('b') | Key::Char('u') => Command::HalfPageFocused(-1isize),
        _ => Command::Nothing,
    }
}

/// The keys that act whichever pane is focused.
pub open spec fn global_key(key: Key, mods: Mods) -> Command {
    match key {
        Key::Char('q') => Command::Quit,
        Key::Tab | Key::BackTab => Command::ToggleFocus,
        Key::Char('s') => Command::ToggleSidebar,
        Key::Char('?') => Command::ToggleHelp,
        Key::Char('p') => Command::OpenPeekPreview,
        Key::Char('=') | Key::Char('+') => Command::OpenPeekReview,
        Key::Char('b') => Command::OpenPeekBlame,
        Key::Char(' ') => if mods.shift {
            Command::PrevFile
        } else {
            Command::NextFile
        },
        Key::Char('/') | Key::Char('f') => Command::OpenPalette,
        Key::Char('c') => Command::OpenCommitPalette,
        Key::Char('F') => Command::OpenFileHistory,
        Key::Char('C') => Command::ViewHome,
        Key::Char('R') => Command::PromoteReview,
        Key::Char('{') => Command::PrevFile,
        Key::Char('}') => Command::NextFile,
        Key::Char('<') => Command::ViewBack,
        Key::Char('>') => Command::ViewForward,
        Key::Char('v') => Command::ToggleViewed,
        Key::Char('u') => Command::NextUnviewed,
        Key::Char('m') => Command::CycleMode,
        Key::Char('t') => Command::OpenThemePicker,
        Key::Char('w') => Command::ToggleWrap,
        Key::Char('D') => Command::ToggleGrouping,
        Key::Char('z') => Command::ToggleFold,
        Key::Char('Z') => Command::FoldAll,
        Key::Char(c) => if is_pick_digit(c) {
            Command::GotoDigit((c as u32 - '0' as u32) as usize)
        } else {
            Command::Nothing
        },
        _ => Command::Nothing,
    }
}

/// The review keys, live in either pane.
pub open spec fn review_key(key: Key) -> Command {
    match key {
        Key::Char('a') => Command::OpenComment(true),
        Key::Char('A') => Command::OpenComment(false),
        Key::Char('n') => Command::OpenThreads,
        Key::Char('y') => Command::OpenSubmit,
        _ => Command::Nothing,
    }
}

/// The sidebar's keys.
pub open spec fn sidebar_key(key: Key) -> Command {
    match key {
        Key::Down | Key::Char('j') => Command::SidebarMove(1),
        Key::Up | Key::Char('k') => Command::SidebarMove(-1isize),
        Key::Char('g') | Key::Home => Command::SidebarMove((isize::MIN / 2) as isize),
        Key::Char('G') | Key::End => Command::SidebarMove((isize::MAX / 2) as isize),
        Key::Enter | Key::Esc | Key::Char('l') | Key::Right => Command::FocusStream,
        _ => Command::Nothing,
    }
}

/// The stream's keys.
pub open spec fn stream_key(key: Key, mods: Mods) -> Command {
    match key {
        Key::Esc => Command::Quit,
        Key::Down if mods.shift => Command::ScrollView(BIG_STEP),
        Key::Up if mods.shift => Command::ScrollView((-BIG_STEP) as isize),
        Key::Char('J') => Command::ScrollView(BIG_STEP),
        Key::Char('K') => Command::ScrollView((-BIG_STEP) as isize),
        Key::Down | Key::Char('j') => Command::MoveCursor(1),
        Key::Up | Key::Char('k') => Command::MoveCursor(-1isize),
        Key::PageDown => Command::Page(1),
        Key::PageUp => Command::Page(-1isize),
        Key::Char(']') => Command::NextHunk,
        Key::Char('[') => Command::PrevHunk,
        Key::Char('g') | Key::Home => Command::Top,
        Key::Char('G') | Key::End => Command::Bottom,
        Key::Right if mods.shift => Command::HScroll(BIG_STEP),
        Key::Left if mods.shift => Command::HScroll((-BIG_STEP) as isize),
        Key::Char('L') => Command::HScroll(BIG_STEP),
        Key::Char('H') => Command::HScroll((-BIG_STEP) as isize),
        Key::Right | Key::Char('l') => Command::HScroll(1),
        Key::Left | Key::Char('h') => Command::HScroll(-1isize),
        _ => Command::Nothing,
    }
}

/// The normal panes' keys, by stage: a load in progress takes `Esc`/`q`,
/// then Ctrl chords, the keys of either pane, the review keys, and last the
/// focused pane's keys.
pub open spec fn base_key(focus: Focus, loading: bool, key: Key, mods: Mods) -> Command {
    if loading && (key == Key::Esc || key == Key::Char('q')) {
        Command::CancelLoad
    } else if mods.ctrl {
        ctrl_key(key)
    } else if global_key(key, mods) != Command::Nothing {
        global_key(key, mods)
    } else if review_key(key) != Command::Nothing {
        review_key(key)
    } else {
        match focus {
            Focus::Sidebar => sidebar_key(key),
            Focus::Stream => stream_key(key, mods),
        }
    }
}

/// The action a key asks for in `ctx` (the peek's mode, whether the submit
/// box is editing, the focus and whether a load is in progress decide
/// within their contexts). The help screen takes any key as its dismissal.
pub open spec fn key_command(
    ctx: InputContext,
    focus: Focus,
    loading: bool,
    peek_mode: PeekMode,
    editing: bool,
    key: Key,
    mods: Mods,
) -> Command {
    match ctx {
        InputContext::Help => Command::ToggleHelp,
        InputContext::CommitMsg => commit_msg_key(key),
        InputContext::Palette => palette_key(key),
        InputContext::ThemePicker => theme_key(key),
        InputContext::Comment => comment_key(key, mods),
        InputContext::Peek => peek_key(peek_mode, key, mods),
        InputContext::Normal => base_key(focus, loading, key, mods),
        InputContext::Threads => threads_key(key),
        InputContext::Submit => submit_key(editing, key, mods),
    }
}

/// The action a mouse event asks for in `ctx`, and whether the frame needs
/// drawing again: the commit popup and the peek scroll with the wheel and
/// absorb clicks, the comment box absorbs the mouse, the other overlays
/// ignore it, and the normal panes step files (Ctrl), scroll the file list
/// (over the sidebar) or the stream with the wheel, and take clicks.
pub open spec fn mouse_command(ctx: InputContext, ev: Event) -> (Command, bool) {
    let wheel: Option<isize> = match ev {
        Event::Wheel { down, .. } => Some(
            if down {
                WHEEL_STEP
            } else {
                (-WHEEL_STEP) as isize
            },
        ),
        _ => None,
    };
    match ctx {
        InputContext::CommitMsg => (
            match wheel {
                Some(d) => Command::CommitMsgScroll(d),
                None => Command::Nothing,
            },
            true,
        ),
        InputContext::Comment => (Command::Nothing, true),
        InputContext::Peek => (
            match wheel {
                Some(d) => Command::PeekScroll(d),
                None => Command::Nothing,
            },
            true,
        ),
        InputContext::Normal => (
            match ev {
                Event::Wheel { down, ctrl, over_sidebar } => {
                    let dir: isize = if down {
                        1
                    } else {
                        -1isize
                    };
                    if ctrl {
                        Command::SidebarMove(dir)
                    } else if over_sidebar {
                        Command::SidebarScroll(dir)
                    } else {
                        Command::ScrollView((dir * WHEEL_STEP) as isize)
                    }
                },
                Event::Click { column, row } => Command::Click(column, row),
                _ => Command::Nothing,
            },
            true,
        ),
        _ => (Command::Nothing, false),
    }
}

/// The action an event asks for and whether the frame needs drawing again:
/// a key press or repeat acts (a release does not), the mouse goes by
/// [`mouse_command`], and a resize only redraws.
pub open spec fn event_command(
    ctx: InputContext,
    focus: Focus,
    loading: bool,
    peek_mode: PeekMode,
    editing: bool,
    ev: Event,
) -> (Command, bool) {
    match ev {
        Event::Key { key, mods, press } => if press {
            (key_command(ctx, focus, loading, peek_mode, editing, key, mods), true)
        } else {
            (Command::Nothing, false)
        },
        Event::Wheel { .. } | Event::Click { .. } => mouse_command(ctx, ev),
        Event::Resize => (Command::Nothing, true),
        Event::Other => (Command::Nothing, false),
    }
}

fn pick_index(c: char) -> (r: usize)
    requires
        is_pick_digit(c),
    ensures
        r == (c as u32 - '1' as u32) as usize,
{
    (c as u32 - '1' as u32) as usize
}

fn digit_value(c: char) -> (r: usize)
    requires
        is_pick_digit(c),
    ensures
        r == (c as u32 - '0' as u32) as usize,
{
    (c as u32 - '0' as u32) as usize
}

/// The commit-message popup's keys.
pub fn route_commit_msg_key(key: Key) -> (c: Command)
    ensures
        c == commit_msg_key(key),
{
    match key {
        Key::Esc | Key::Char('q') | Key::Tab => Command::CommitMsgDismiss,
        Key::Enter => Command::CommitMsgConfirm,
        Key::Down | Key::Char('j') => Command::CommitMsgScroll(1),
        Key::Up | Key::Char('k') => Command::CommitMsgScroll(-1),
        Key::PageDown | Key::Char(' ') => Command::CommitMsgPage(1),
        Key::PageUp => Command::CommitMsgPage(-1),
        _ => Command::Nothing,
    }
}

/// The palette's keys.
pub fn route_palette_key(key: Key) -> (c: Command)
    ensures
        c == palette_key(key),
{
    match key {
        Key::Esc => Command::PaletteClose,
        Key::Enter => Command::PaletteConfirm,
        Key::Tab => Command::PaletteOpenMessage,
        Key::Up => Command::PaletteMove(-1),
        Key::Down => Command::PaletteMove(1),
        Key::Backspace => Command::PaletteBackspace,
        Key::Char(c) => if '1' <= c && c <= '9' {
            Command::PalettePick(pick_index(c))
        } else {
            Command::PaletteInput(c)
        },
        _ => Command::Nothing,
    }
}

/// The theme picker's keys.
pub fn route_theme_key(key: Key) -> (c: Command)
    ensures
        c == theme_key(key),
{
    match key {
        Key::Esc | Key::Char('q') => Command::ThemeCancel,
        Key::Enter => Command::ThemeCommit,
        Key::Left | Key::Char('h') => Command::ThemeMove(-1, 0),
        Key::Right | Key::Char('l') => Command::ThemeMove(1, 0),
        Key::Up | Key::Char('k') => Command::ThemeMove(0, -1),
        Key::Down | Key::Char('j') => Command::ThemeMove(0, 1),
        Key::Tab | Key::BackTab => Command::ThemeToggleTab,
        Key::Char('t') => Command::ThemeNext,
        _ => Command::Nothing,
    }
}

/// The comment box's keys.
pub fn route_comment_key(key: Key, mods: Mods) -> (c: Command)
    ensures
        c == comment_key(key, mods),
{
    match key {
        Key::Esc => Command::CommentCancel,
        Key::Enter => Command::CommentConfirm,
        Key::Backspace => Command::CommentBackspace,
        Key::Char(c) => if mods.ctrl {
            Command::Nothing
        } else {
            Command::CommentInput(c)
        },
        _ => Command::Nothing,
    }
}

/// The thread list's keys.
pub fn route_threads_key(key: Key) -> (c: Command)
    ensures
        c == threads_key(key),
{
    match key {
        Key::Down | Key::Char('j') => Command::ThreadsMove(1),
        Key::Up | Key::Char('k') => Command::ThreadsMove(-1),
        Key::Enter => Command::ThreadsJump,
        Key::Esc | Key::Char('q') => Command::ThreadsClose,
        Key::Char('e') => Command::ThreadsEdit,
        Key::Char('x') => Command::ThreadsRetract,
        Key::Char('o') => Command::ThreadsResolve,
        _ => Command::Nothing,
    }
}

/// The submit box's keys, by stage.
pub fn route_submit_key(editing: bool, key: Key, mods: Mods) -> (c: Command)
    ensures
        c == submit_key(editing, key, mods),
{
    if editing {
        match key {
            Key::Enter => Command::SubmitConfirm,
            Key::Esc => Command::SubmitCancel,
            Key::Backspace => Command::SubmitBackspace,
            Key::Char(c) => if mods.ctrl {
                Command::Nothing
            } else {
                Command::SubmitInput(c)
            },
            _ => Command::Nothing,
        }
    } else {
        match key {
            Key::Down | Key::Char('j') => Command::SubmitMove(1),
            Key::Up | Key::Char('k') => Command::SubmitMove(-1),
            Key::Enter => Command::SubmitConfirm,
            Key::Esc | Key::Char('q') => Command::SubmitCancel,
            _ => Command::Nothing,
        }
    }
}

/// The peek's keys.
pub fn route_peek_key(mode: PeekMode, key: Key, mods: Mods) -> (c: Command)
    ensures
        c == peek_key(mode, key, mods),
{
    let own = match (mode, key) {
        (PeekMode::Diff, Key::Char('=')) | (PeekMode::Diff, Key::Char('+')) => Command::PeekSetFull(true),
        (PeekMode::Diff, Key::Char('-')) | (PeekMode::Diff, Key::Char('_')) => Command::PeekSetFull(false),
        (PeekMode::Diff, Key::Char('m')) => Command::PeekToggleSplit,
        (PeekMode::Blame, Key::Enter) => Command::PeekBlameMessage,
        _ => Command::Nothing,
    };
    if own != Command::Nothing {
        return own;
    }
    match key {
        Key::Esc | Key::Char('q') => Command::PeekClose,
        Key::Tab => Command::PeekSwitchMode,
        Key::Char('f') if mods.ctrl => Command::PeekHalfPage(1),
        Key::Char('d') if mods.ctrl => Command::PeekHalfPage(1),
        Key::Char('b') if mods.ctrl => Command::PeekHalfPage(-1),
        Key::Char('u') if mods.ctrl => Command::PeekHalfPage(-1),
        Key::Char(']') => Command::PeekHunk(1),
        Key::Char('[') => Command::PeekHunk(-1),
        Key::Char('J') => Command::PeekScroll(BIG_STEP),
        Key::Char('K') => Command::PeekScroll(-BIG_STEP),
        Key::Down if mods.shift => Command::PeekScroll(BIG_STEP),
        Key::Up if mods.shift => Command::PeekScroll(-BIG_STEP),
        Key::Down | Key::Char('j') => Command::PeekScroll(1),
        Key::Up | Key::Char('k') => Command::PeekScroll(-1),
        Key::PageDown | Key::Char(' ') => Command::PeekPage(1),
        Key::PageUp => Command::PeekPage(-1),
        Key::Char('g') | Key::Home => Command::PeekTop,
        Key::Char('G') | Key::End => Command::PeekBottom,
        _ => Command::Nothing,
    }
}

/// The keys that act whichever pane is focused.
pub fn route_global_key(key: Key, mods: Mods) -> (c: Command)
    ensures
        c == global_key(key, mods),
{
    match key {
        Key::Char('q') => Command::Quit,
        Key::Tab | Key::BackTab => Command::ToggleFocus,
        Key::Char('s') => Command::ToggleSidebar,
        Key::Char('?') => Command::ToggleHelp,
        Key::Char('p') => Command::OpenPeekPreview,
        Key::Char('=') | Key::Char('+') => Command::OpenPeekReview,
        Key::Char('b') => Command::OpenPeekBlame,
        Key::Char(' ') => if mods.shift {
            Command::PrevFile
        } else {
            Command::NextFile
        },
        Key::Char('/') | Key::Char('f') => Command::OpenPalette,
        Key::Char('c') => Command::OpenCommitPalette,
        Key::Char('F') => Command::OpenFileHistory,
        Key::Char('C') => Command::ViewHome,
        Key::Char('R') => Command::PromoteReview,
        Key::Char('{') => Command::PrevFile,
        Key::Char('}') => Command::NextFile,
        Key::Char('<') => Command::ViewBack,
        Key::Char('>') => Command::ViewForward,
        Key::Char('v') => Command::ToggleViewed,
        Key::Char('u') => Command::NextUnviewed,
        Key::Char('m') => Command::CycleMode,
        Key::Char('t') => Command::OpenThemePicker,
        Key::Char('w') => Command::ToggleWrap,
        Key::Char('D') => Command::ToggleGrouping,
        Key::Char('z') => Command::ToggleFold,
        Key::Char('Z') => Command::FoldAll,
        Key::Char(c) => if '1' <= c && c <= '9' {
            Command::GotoDigit(digit_value(c))
        } else {
            Command::Nothing
        },
        _ => Command::Nothing,
    }
}

/// The normal panes' keys.
pub fn route_base_key(focus: Focus, loading: bool, key: Key, mods: Mods) -> (c: Command)
    ensures
        c == base_key(focus, loading, key, mods),
{
    if loading && (key == Key::Esc || key == Key::Char('q')) {
        return Command::CancelLoad;
    }
    if mods.ctrl {
        return match key {
            Key::Down => Command::NextFile,
            Key::Up => Command::PrevFile,
            Key::Char('f') | Key::Char('d') => Command::HalfPageFocused(1),
            Key::Char('b') | Key::Char('u') => Command::HalfPageFocused(-1),
            _ => Command::Nothing,
        };
    }
    let g = route_global_key(key, mods);
    if g != Command::Nothing {
        return g;
    }
    match key {
        Key::Char('a') => {
            return Command::OpenComment(true);
        },
        Key::Char('A') => {
            return Command::OpenComment(false);
        },
        Key::Char('n') => {
            return Command::OpenThreads;
        },
        Key::Char('y') => {
            return Command::OpenSubmit;
        },
        _ => {},
    }
    match focus {
        Focus::Sidebar => match key {
            Key::Down | Key::Char('j') => Command::SidebarMove(1),
            Key::Up | Key::Char('k') => Command::SidebarMove(-1),
            Key::Char('g') | Key::Home => Command::SidebarMove(isize::MIN / 2),
            Key::Char('G') | Key::End => Command::SidebarMove(isize::MAX / 2),
            Key::Enter | Key::Esc | Key::Char('l') | Key::Right => Command::FocusStream,
            _ => Command::Nothing,
        },
        Focus::Stream => match key {
            Key::Esc => Command::Quit,
            Key::Down if mods.shift => Command::ScrollView(BIG_STEP),
            Key::Up if mods.shift => Command::ScrollView(-BIG_STEP),
            Key::Char('J') => Command::ScrollView(BIG_STEP),
            Key::Char('K') => Command::ScrollView(-BIG_STEP),
            Key::Down | Key::Char('j') => Command::MoveCursor(1),
            Key::Up | Key::Char('k') => Command::MoveCursor(-1),
            Key::PageDown => Command::Page(1),
            Key::PageUp => Command::Page(-1),
            Key::Char(']') => Command::NextHunk,
            Key::Char('[') => Command::PrevHunk,
            Key::Char('g') | Key::Home => Command::Top,
            Key::Char('G') | Key::End => Command::Bottom,
            Key::Right if mods.shift => Command::HScroll(BIG_STEP),
            Key::Left if mods.shift => Command::HScroll(-BIG_STEP),
            Key::Char('L') => Command::HScroll(BIG_STEP),
            Key::Char('H') => Command::HScroll(-BIG_STEP),
            Key::Right | Key::Char('l') => Command::HScroll(1),
            Key::Left | Key::Char('h') => Command::HScroll(-1),
            _ => Command::Nothing,
        },
    }
}

/// The action a key asks for in `ctx` (see [`key_command`]).
pub fn route_key(
    ctx: InputContext,
    focus: Focus,
    loading: bool,
    peek_mode: PeekMode,
    editing: bool,
    key: Key,
    mods: Mods,
) -> (c: Command)
    ensures
        c == key_command(ctx, focus, loading, peek_mode, editing, key, mods),
{
    match ctx {
        InputContext::Help => Command::ToggleHelp,
        InputContext::CommitMsg => route_commit_msg_key(key),
        InputContext::Palette => route_palette_key(key),
        InputContext::ThemePicker => route_theme_key(key),
        InputContext::Comment => route_comment_key(key, mods),
        InputContext::Peek => route_peek_key(peek_mode, key, mods),
        InputContext::Normal => route_base_key(focus, loading, key, mods),
        InputContext::Threads => route_threads_key(key),
        InputContext::Submit => route_submit_key(editing, key, mods),
    }
}

/// The action an event asks for and whether the frame needs drawing again
/// (see [`event_command`]).
pub fn route_event(
    ctx: InputContext,
    focus: Focus,
    loading: bool,
    peek_mode: PeekMode,
    editing: bool,
    ev: Event,
) -> (r: (Command, bool))
    ensures
        r == event_command(ctx, focus, loading, peek_mode, editing, ev),
{
    match ev {
        Event::Key { key, mods, press } => if press {
            (route_key(ctx, focus, loading, peek_mode, editing, key, mods), true)
        } else {
            (Command::Nothing, false)
        },
        Event::Wheel { down, ctrl, over_sidebar } => {
            let notch: isize = if down {
                WHEEL_STEP
            } else {
                -WHEEL_STEP
            };
            match ctx {
                InputContext::CommitMsg => (Command::CommitMsgScroll(notch), true),
                InputContext::Comment => (Command::Nothing, true),
                InputContext::Peek => (Command::PeekScroll(notch), true),
                InputContext::Normal => {
                    let dir: isize = if down {
                        1
                    } else {
                        -1
                    };
                    (
                        if ctrl {
                            Command::SidebarMove(dir)
                        } else if over_sidebar {
                            Command::SidebarScroll(dir)
                        } else {
                            Command::ScrollView(dir * WHEEL_STEP)
                        },
                        true,
                    )
                },
                _ => (Command::Nothing, false),
            }
        },
        Event::Click { column, row } => match ctx {
            InputContext::CommitMsg | InputContext::Comment | InputContext::Peek => (Command::Nothing, true),
            InputContext::Normal => (Command::Click(column, row), true),
            _ => (Command::Nothing, false),
        },
        Event::Resize => (Command::Nothing, true),
        Event::Other => (Command::Nothing, false),
    }
}

/// Whether the submit box on top is editing its text (only the submit
/// box's context reads it).
pub open spec fn editing_of(m: Mode) -> bool {
    m.overlay_spec() matches Some(Overlay::Submit(d)) && d.buffer is Some
}

/// The open peek's mode (content when there is none; only the peek's
/// context reads it).
pub open spec fn peek_mode_of(m: Mode) -> PeekMode {
    match m.base {
        Base::Peek(p) => p.mode,
        Base::Normal { .. } => PeekMode::Content,
    }
}

impl App {
    /// The action a key asks for now; a keystroke also clears the transient
    /// status note.
    pub fn key_command(&mut self, key: Key, mods: Mods) -> (c: Command)
        ensures
            *final(self) == (App { flash: None, ..*old(self) }),
            c == key_command(
                context_of(old(self).mode),
                old(self).focus_of(),
                old(self).session.loader is Some,
                peek_mode_of(old(self).mode),
                editing_of(old(self).mode),
                key,
                mods,
            ),
    {
        self.flash = None;
        let ctx = self.active_context();
        let focus = self.focus();
        let loading = self.session.loading();
        let mode = self.peek_mode();
        let editing = self.submit_editing();
        route_key(ctx, focus, loading, mode, editing, key, mods)
    }

    /// The action an event asks for now and whether the frame needs drawing
    /// again; a key press or repeat also clears the transient status note.
    pub fn event_command(&mut self, ev: Event) -> (r: (Command, bool))
        ensures
            (ev matches Event::Key { press, .. } && press) ==> *final(self) == (App { flash: None, ..*old(self) }),
            !(ev matches Event::Key { press, .. } && press) ==> *final(self) == *old(self),
            r == event_command(
                context_of(old(self).mode),
                old(self).focus_of(),
                old(self).session.loader is Some,
                peek_mode_of(old(self).mode),
                editing_of(old(self).mode),
                ev,
            ),
    {
        match ev {
            Event::Key { press: true, .. } => {
                self.flash = None;
            },
            _ => {},
        }
        let ctx = self.active_context();
        let focus = self.focus();
        let loading = self.session.loading();
        let mode = self.peek_mode();
        let editing = self.submit_editing();
        route_event(ctx, focus, loading, mode, editing, ev)
    }

    fn submit_editing(&self) -> (r: bool)
        ensures
            r == editing_of(self.mode),
    {
        match self.mode.overlay() {
            Some(Overlay::Submit(d)) => d.buffer.is_some(),
            _ => false,
        }
    }

    fn peek_mode(&self) -> (m: PeekMode)
        ensures
            m == peek_mode_of(self.mode),
    {
        match &self.mode.base {
            Base::Peek(p) => p.mode,
            Base::Normal { .. } => PeekMode::Content,
        }
    }
}

} // verus!
