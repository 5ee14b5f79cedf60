use diffstream::app::App;
use diffstream::commands::Effect;
use diffstream::diff::compute_hunks_with_context;
use diffstream::keys::{Command, Event, Key, Mods};
use diffstream::model::{Changeset, CommitMessage, DiffFile, FileStatus, Stats};
use diffstream::types::{CommentInput, CommitMsg, Focus, Overlay};

const NONE: Mods = Mods { ctrl: false, shift: false };

fn file(path: &str, old: &str, new: &str, status: FileStatus) -> DiffFile {
    let (hunks, additions, deletions) = compute_hunks_with_context(old, new, 3);
    DiffFile {
        path: path.into(),
        previous_path: None,
        status,
        staged: false,
        hunks,
        stats: Stats { additions, deletions },
        is_binary: false,
        old_text: if old.is_empty() { None } else { Some(old.to_string()) },
        new_text: if new.is_empty() { None } else { Some(new.to_string()) },
        diffed: true,
    }
}

fn big_sample() -> Changeset {
    let files = (0..5)
        .map(|i| {
            let mut old = String::new();
            let mut new = String::new();
            for n in 0..25 {
                old.push_str(&format!("line {n}\n"));
                new.push_str(&format!("line {n}{}\n", if n == 5 { " X" } else { "" }));
            }
            file(&format!("src/file{i}.rs"), &old, &new, FileStatus::Modified)
        })
        .collect();
    Changeset { source: "wt".into(), files }
}

fn press(k: Key) -> Event {
    Event::Key { key: k, mods: NONE, press: true }
}

fn wheel(down: bool, over_sidebar: bool) -> Event {
    Event::Wheel { down, ctrl: false, over_sidebar }
}

fn dispatch(app: &mut App, ev: Event) -> bool {
    app.handle_event(ev, 0).1
}

#[test]
fn dispatch_event_routes_keys_mouse_and_resize() {
    let mut app = App::new(big_sample());
    app.viewport_h = 14;

    assert!(dispatch(&mut app, press(Key::Char('j'))), "a key press redraws");
    assert_eq!(app.state().cursor_row, 1, "j moved the line cursor");

    let release = Event::Key { key: Key::Char('j'), mods: NONE, press: false };
    assert!(!dispatch(&mut app, release), "a key release is ignored");
    assert_eq!(app.state().cursor_row, 1, "release did not move the cursor");

    assert!(dispatch(&mut app, Event::Resize), "resize redraws");

    let before = app.state().scroll;
    assert!(dispatch(&mut app, wheel(true, false)), "a wheel event redraws");
    assert!(app.state().scroll > before, "the wheel scrolled the stream");

    assert!(!dispatch(&mut app, Event::Other), "an unhandled event needs no redraw");
}

#[test]
fn dispatch_event_overlay_mouse_capture() {
    let mut content = String::new();
    for i in 0..100 {
        content.push_str(&format!("line {i}\n"));
    }
    let cs = Changeset { source: "wt".into(), files: vec![file("a.rs", "x\n", &content, FileStatus::Modified)] };
    let mut app = App::new(cs);

    // Peek open: the wheel scrolls the peek; clicks are swallowed but consume.
    app.open_peek_preview(content.clone(), content.clone());
    app.peek_viewport_h = 18;
    assert!(dispatch(&mut app, wheel(true, false)));
    assert_eq!(app.peek().unwrap().state.scroll, 3, "the wheel scrolls the peek by 3");
    assert!(dispatch(&mut app, wheel(false, false)));
    assert_eq!(app.peek().unwrap().state.scroll, 0, "wheel-up scrolls back");
    assert!(dispatch(&mut app, Event::Click { column: 10, row: 5 }), "a click while peeking still consumes the event");
    assert_eq!(app.peek().unwrap().state.scroll, 0, "the click did nothing");
    app.peek_close();

    // Palette open: the mouse is absorbed.
    app.open_palette(&[Some(0)]);
    assert!(!dispatch(&mut app, wheel(true, false)), "the palette absorbs the mouse");
    assert!(app.palette_open(), "the palette stays open");
    app.palette_close();

    // Help open: the mouse is absorbed too.
    dispatch(&mut app, press(Key::Char('?')));
    assert!(app.help_open());
    assert!(!dispatch(&mut app, wheel(true, false)), "help absorbs the mouse");
    assert!(app.help_open(), "help stays open");
    dispatch(&mut app, press(Key::Esc));

    // Theme picker open: nothing scrolls beneath it.
    let scroll_before = app.state().scroll;
    app.open_theme_picker(0, 0, true);
    assert!(!dispatch(&mut app, wheel(true, false)), "picker absorbs the mouse");
    assert_eq!(app.state().scroll, scroll_before, "nothing scrolled beneath the picker");
    assert!(app.theme_picker_open(), "the picker stays open");
}

fn popup_scroll(app: &App) -> usize {
    match app.mode.overlay() {
        Some(Overlay::CommitMessage(m)) => m.scroll,
        _ => panic!("no popup"),
    }
}

#[test]
fn commit_msg_popup_takes_the_mouse() {
    let mut app = App::new(big_sample());
    app.commit_msg_viewport_h = 8;
    let body = (1..=30).map(|i| format!("l{i}")).collect::<Vec<_>>().join("\n");
    app.mode.push_overlay(Overlay::CommitMessage(CommitMsg::new(CommitMessage {
        sha: "s".into(),
        author: String::new(),
        date: String::new(),
        body,
    })));
    let stream_before = app.state().scroll;
    assert!(dispatch(&mut app, wheel(true, false)), "the popup consumes + redraws");
    assert_eq!(popup_scroll(&app), 3, "the wheel scrolls the popup body");
    assert_eq!(app.state().scroll, stream_before, "the stream underneath did not move");
    assert!(dispatch(&mut app, Event::Click { column: 10, row: 5 }));
    assert_eq!(app.state().scroll, stream_before, "click hit nothing below");
    assert!(app.commit_msg_open(), "the popup stays open");
    assert!(dispatch(&mut app, wheel(false, false)));
    assert_eq!(popup_scroll(&app), 0);
}

fn mouse_app() -> App {
    let files: Vec<_> = (0..30)
        .map(|i| {
            let mut new = String::new();
            for n in 0..6 {
                new.push_str(&format!("f{i} line {n}\n"));
            }
            file(&format!("f{i}.rs"), "a\n", &new, FileStatus::Modified)
        })
        .collect();
    let mut app = App::new(Changeset { source: "wt".into(), files });
    app.viewport_h = 12;
    app
}

#[test]
fn apply_mouse_wheel_branches() {
    let mut app = mouse_app();
    // Ctrl+wheel steps through files (the sidebar's rows decide which).
    let (e, redraw) = app.handle_event(Event::Wheel { down: true, ctrl: true, over_sidebar: false }, 0);
    assert!(redraw);
    assert!(matches!(e, Effect::Outside(Command::SidebarMove(1))), "ctrl+wheel → next file");
    let (e, _) = app.handle_event(Event::Wheel { down: false, ctrl: true, over_sidebar: false }, 0);
    assert!(matches!(e, Effect::Outside(Command::SidebarMove(-1))), "ctrl+wheel up → prev file");

    // A plain wheel over the sidebar scrolls the list, selection unchanged.
    let sel_before = app.state().selected;
    let (e, _) = app.handle_event(wheel(true, true), 0);
    assert!(matches!(e, Effect::Outside(Command::SidebarScroll(1))));
    assert_eq!(app.state().selected, sel_before, "a sidebar wheel keeps the selection");

    // A plain wheel over the stream scrolls the diff.
    let scroll_before = app.state().scroll;
    dispatch(&mut app, wheel(true, false));
    assert!(app.state().scroll > scroll_before, "a stream wheel scrolled the diff");
}

#[test]
fn apply_mouse_click_and_inert_branches() {
    let mut app = mouse_app();
    let (e, redraw) = app.handle_event(Event::Click { column: 1, row: 3 }, 0);
    assert!(redraw);
    assert!(matches!(e, Effect::Outside(Command::Click(1, 3))), "the click is placed by the drawn layout");

    let snap = (app.state().selected, app.state().scroll, app.focus());
    assert!(!dispatch(&mut app, Event::Other));
    assert_eq!((app.state().selected, app.state().scroll, app.focus()), snap, "a moved-pointer event changes nothing");
}

#[test]
fn the_comment_overlay_absorbs_the_mouse() {
    let files: Vec<_> = (0..12)
        .map(|i| {
            let body = "a line of content\n".repeat(12);
            file(&format!("f{i}.rs"), "", &body, FileStatus::Added)
        })
        .collect();
    let mut app = App::new(Changeset { source: "wt".into(), files });
    app.viewport_h = 12;
    dispatch(&mut app, press(Key::Char('j')));
    let snap = |a: &App| (a.state().scroll, a.state().cursor_row, a.state().selected, a.focus());
    let before = snap(&app);
    assert_eq!(before.3, Focus::Stream);

    app.mode.push_overlay(Overlay::Comment(CommentInput::new(None)));
    for ev in [
        wheel(true, false),
        wheel(false, false),
        wheel(true, true),
        Event::Click { column: 2, row: 4 },
        Event::Click { column: 40, row: 4 },
    ] {
        let (e, redraw) = app.handle_event(ev, 0);
        assert!(redraw, "the event is consumed");
        assert!(matches!(e, Effect::Done));
        assert_eq!(snap(&app), before, "nothing behind the modal moved ({ev:?})");
    }
}
