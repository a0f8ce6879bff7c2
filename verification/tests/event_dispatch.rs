use rengine::events::Event;
use rengine::events::Key;
use rengine::events::KeyAction;
use rengine::events::TimedEvent;
use rengine::events::Title;
use rengine::events::WindowCommand;
use rengine::events::WindowState;
use rengine::events::dispatch_all;
use rengine::events::handle_window_event;

fn state(w: i32, h: i32) -> WindowState {
    WindowState {
        title: Title::Fixed("Rul Engine".to_string()),
        width: w,
        height: h,
        pos_x: 10,
        pos_y: 20,
        should_close: false,
    }
}

fn key_event(key: Key, action: KeyAction) -> TimedEvent {
    TimedEvent { time_ms: 5, event: Event::Key(key, 0, action, 0) }
}

#[test]
fn escape_release_sets_should_close() {
    let mut w = state(300, 300);
    let cmds = handle_window_event(&mut w, &key_event(Key::Escape, KeyAction::Release));
    assert!(w.should_close);
    assert_eq!(cmds.len(), 1);
    assert!(matches!(cmds[0], WindowCommand::SetShouldClose(true)));
}

#[test]
fn escape_release_closes_whatever_the_state_was() {
    let mut w = state(77, 1);
    w.pos_x = -4;
    w.pos_y = 9000;
    let _ = handle_window_event(&mut w, &key_event(Key::Escape, KeyAction::Release));
    assert!(w.should_close);
    let mut v = state(1, 1);
    v.title = Title::ShowsSize { time_ms: 3, w: 1, h: 1 };
    let _ = handle_window_event(&mut v, &key_event(Key::Escape, KeyAction::Release));
    assert!(v.should_close);
}

#[test]
fn escape_press_does_not_close() {
    let mut w = state(300, 300);
    let cmds = handle_window_event(&mut w, &key_event(Key::Escape, KeyAction::Press));
    assert!(!w.should_close);
    assert_eq!(cmds.len(), 0);
}

#[test]
fn refresh_key_round_trips_the_size() {
    let mut w = state(300, 200);
    let cmds = handle_window_event(&mut w, &key_event(Key::R, KeyAction::Release));
    assert_eq!(w.width, 300);
    assert_eq!(w.height, 200);
    assert_eq!(cmds.len(), 2);
    assert!(matches!(cmds[0], WindowCommand::SetSize(301, 200)));
    assert!(matches!(cmds[1], WindowCommand::SetSize(300, 200)));
}

#[test]
fn pos_event_updates_position_and_title() {
    let mut w = state(300, 300);
    let ev = TimedEvent { time_ms: 42, event: Event::Pos(15, 25) };
    let cmds = handle_window_event(&mut w, &ev);
    assert_eq!(w.pos_x, 15);
    assert_eq!(w.pos_y, 25);
    assert!(matches!(w.title, Title::ShowsPos { time_ms: 42, x: 15, y: 25 }));
    assert_eq!(cmds.len(), 1);
    assert!(matches!(cmds[0], WindowCommand::SetTitle(Title::ShowsPos { time_ms: 42, x: 15, y: 25 })));
}

#[test]
fn size_event_updates_geometry_and_title() {
    let mut w = state(300, 300);
    let ev = TimedEvent { time_ms: 7, event: Event::Size(640, 480) };
    let cmds = handle_window_event(&mut w, &ev);
    assert_eq!(w.width, 640);
    assert_eq!(w.height, 480);
    assert!(matches!(w.title, Title::ShowsSize { time_ms: 7, w: 640, h: 480 }));
    assert_eq!(cmds.len(), 1);
}

#[test]
fn close_event_mutates_nothing() {
    let mut w = state(300, 300);
    let cmds = handle_window_event(&mut w, &TimedEvent { time_ms: 1, event: Event::Close });
    assert!(!w.should_close);
    assert_eq!(w.width, 300);
    assert_eq!(cmds.len(), 0);
}

#[test]
fn diagnostic_events_mutate_nothing() {
    let mut w = state(300, 300);
    let evs = vec![
        TimedEvent { time_ms: 1, event: Event::Refresh },
        TimedEvent { time_ms: 2, event: Event::Focus(true) },
        TimedEvent { time_ms: 3, event: Event::Iconify(false) },
        TimedEvent { time_ms: 4, event: Event::FramebufferSize(12, 34) },
        TimedEvent { time_ms: 5, event: Event::Char('q') },
        TimedEvent { time_ms: 6, event: Event::MouseButton(0, KeyAction::Press, 0) },
        TimedEvent { time_ms: 7, event: Event::CursorPos(8, 9) },
        TimedEvent { time_ms: 8, event: Event::CursorEnter(true) },
        TimedEvent { time_ms: 9, event: Event::Scroll(-1, 1) },
        TimedEvent { time_ms: 10, event: Event::Key(Key::Other(65), 0, KeyAction::Release, 0) },
    ];
    let cmds = dispatch_all(&mut w, &evs);
    assert_eq!(cmds.len(), 0);
    assert!(!w.should_close);
    assert_eq!((w.width, w.height, w.pos_x, w.pos_y), (300, 300, 10, 20));
}

#[test]
fn queued_events_dispatch_in_arrival_order() {
    let mut w = state(300, 300);
    let evs = vec![
        TimedEvent { time_ms: 1, event: Event::Size(400, 350) },
        TimedEvent { time_ms: 2, event: Event::Key(Key::Escape, 0, KeyAction::Release, 0) },
        TimedEvent { time_ms: 3, event: Event::Pos(50, 60) },
    ];
    let cmds = dispatch_all(&mut w, &evs);
    // All three took effect, none skipped, and the commands come in arrival
    // order: resize title, close, move title.
    assert_eq!((w.width, w.height), (400, 350));
    assert!(w.should_close);
    assert_eq!((w.pos_x, w.pos_y), (50, 60));
    assert!(matches!(w.title, Title::ShowsPos { time_ms: 3, x: 50, y: 60 }));
    assert_eq!(cmds.len(), 3);
    assert!(matches!(cmds[0], WindowCommand::SetTitle(Title::ShowsSize { time_ms: 1, w: 400, h: 350 })));
    assert!(matches!(cmds[1], WindowCommand::SetShouldClose(true)));
    assert!(matches!(cmds[2], WindowCommand::SetTitle(Title::ShowsPos { time_ms: 3, x: 50, y: 60 })));
}

#[test]
fn empty_queue_changes_nothing() {
    let mut w = state(300, 300);
    let cmds = dispatch_all(&mut w, &Vec::new());
    assert_eq!(cmds.len(), 0);
    assert!(!w.should_close);
    assert_eq!(w.width, 300);
}
