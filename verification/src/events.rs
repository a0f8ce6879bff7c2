use vstd::prelude::*;

verus! {

/// Keys the dispatcher reacts to; every other key code is carried as `Other`.
#[derive(Clone, Copy, Debug, PartialEq, Eq, Structural)]
pub enum Key {
    Escape,
    R,
    Other(i32),
}

/// What happened to a key or mouse button.
#[derive(Clone, Copy, Debug, PartialEq, Eq, Structural)]
pub enum KeyAction {
    Press,
    Release,
    Repeat,
}

/// One raw window event, a closed sum over every category the window layer
/// reports. Cursor and scroll coordinates are carried as integers (the
/// dispatcher only echoes them; it never computes with them).
#[derive(Clone, Copy, Debug, PartialEq, Eq, Structural)]
pub enum Event {
    Pos(i32, i32),
    Size(i32, i32),
    Close,
    Refresh,
    Focus(bool),
    Iconify(bool),
    FramebufferSize(i32, i32),
    Char(char),
    MouseButton(i32, KeyAction, u8),
    CursorPos(i64, i64),
    CursorEnter(bool),
    Scroll(i64, i64),
    Key(Key, i32, KeyAction, u8),
}

/// An event together with the millisecond timestamp it arrived at.
#[derive(Clone, Copy, Debug, PartialEq, Eq, Structural)]
pub struct TimedEvent {
    pub time_ms: u64,
    pub event: Event,
}

/// What the window title currently shows: the fixed startup title, or the
/// live geometry echoed after a move or resize event.
#[derive(Debug)]
pub enum Title {
    Fixed(String),
    ShowsPos { time_ms: u64, x: i32, y: i32 },
    ShowsSize { time_ms: u64, w: i32, h: i32 },
}

/// The window-side state the dispatcher reads and rewrites. The geometry
/// fields follow the Pos/Size events the window layer reports.
#[derive(Debug)]
pub struct WindowState {
    pub title: Title,
    pub width: i32,
    pub height: i32,
    pub pos_x: i32,
    pub pos_y: i32,
    pub should_close: bool,
}

/// A call the surrounding program must make on the real window after a
/// dispatch step, in order.
#[derive(Debug)]
pub enum WindowCommand {
    SetTitle(Title),
    SetSize(i32, i32),
    SetShouldClose(bool),
}

/// The state after dispatching one event: Pos and Size track the reported
/// geometry and retitle the window; Key(Escape, Release) raises the
/// should-close flag; everything else leaves the state untouched.
pub open spec fn spec_dispatch(s: WindowState, e: TimedEvent) -> WindowState {
    match e.event {
        Event::Pos(x, y) => WindowState {
            title: Title::ShowsPos { time_ms: e.time_ms, x, y },
            pos_x: x,
            pos_y: y,
            ..s
        },
        Event::Size(w, h) => WindowState {
            title: Title::ShowsSize { time_ms: e.time_ms, w, h },
            width: w,
            height: h,
            ..s
        },
        Event::Key(Key::Escape, _, KeyAction::Release, _) => WindowState {
            should_close: true,
            ..s
        },
        _ => s,
    }
}

/// The window calls one dispatch step asks for. Key(R, Release) emits the
/// forced-redraw trick: grow the width by one, then restore it, so the net
/// geometry is unchanged but the window layer repaints.
pub open spec fn spec_commands(s: WindowState, e: TimedEvent) -> Seq<WindowCommand> {
    match e.event {
        Event::Pos(x, y) => seq![
            WindowCommand::SetTitle(Title::ShowsPos { time_ms: e.time_ms, x, y }),
        ],
        Event::Size(w, h) => seq![
            WindowCommand::SetTitle(Title::ShowsSize { time_ms: e.time_ms, w, h }),
        ],
        Event::Key(Key::Escape, _, KeyAction::Release, _) => seq![
            WindowCommand::SetShouldClose(true),
        ],
        Event::Key(Key::R, _, KeyAction::Release, _) => seq![
            WindowCommand::SetSize((s.width + 1) as i32, s.height),
            WindowCommand::SetSize(s.width, s.height),
        ],
        _ => Seq::empty(),
    }
}

/// Dispatch one event against the window state. Returns the window calls to
/// perform, in order; diagnostics for the remaining event categories are the
/// caller's concern and mutate nothing.
pub fn handle_window_event(window: &mut WindowState, ev: &TimedEvent) -> (cmds: Vec<
    WindowCommand,
>)
    requires
        old(window).width < i32::MAX,
    ensures
        *final(window) == spec_dispatch(*old(window), *ev),
        cmds@ == spec_commands(*old(window), *ev),
{
    let mut cmds: Vec<WindowCommand> = Vec::new();
    match ev.event {
        Event::Pos(x, y) => {
            window.title = Title::ShowsPos { time_ms: ev.time_ms, x, y };
            window.pos_x = x;
            window.pos_y = y;
            cmds.push(WindowCommand::SetTitle(Title::ShowsPos { time_ms: ev.time_ms, x, y }));
        },
        Event::Size(w, h) => {
            window.title = Title::ShowsSize { time_ms: ev.time_ms, w, h };
            window.width = w;
            window.height = h;
            cmds.push(WindowCommand::SetTitle(Title::ShowsSize { time_ms: ev.time_ms, w, h }));
        },
        Event::Key(key, _, action, _) => {
            match (key, action) {
                (Key::Escape, KeyAction::Release) => {
                    window.should_close = true;
                    cmds.push(WindowCommand::SetShouldClose(true));
                },
                (Key::R, KeyAction::Release) => {
                    cmds.push(WindowCommand::SetSize(window.width + 1, window.height));
                    cmds.push(WindowCommand::SetSize(window.width, window.height));
                },
                _ => {},
            }
        },
        _ => {},
    }
    proof {
        assert(cmds@ =~= spec_commands(*old(window), *ev));
    }
    cmds
}

/// A Size event whose reported width would overflow the refresh trick is the
/// one input the machine cannot represent.
pub open spec fn event_width_ok(e: TimedEvent) -> bool {
    match e.event {
        Event::Size(w, _) => w < i32::MAX,
        _ => true,
    }
}

/// The state after dispatching a whole poll tick's queue, first event first.
pub open spec fn spec_run(s: WindowState, evs: Seq<TimedEvent>) -> WindowState
    decreases evs.len(),
{
    if evs.len() == 0 {
        s
    } else {
        spec_run(spec_dispatch(s, evs[0]), evs.drop_first())
    }
}

/// The window calls a whole queue asks for: each event's commands in arrival
/// order, none skipped, none repeated.
pub open spec fn spec_run_commands(s: WindowState, evs: Seq<TimedEvent>) -> Seq<WindowCommand>
    decreases evs.len(),
{
    if evs.len() == 0 {
        Seq::empty()
    } else {
        spec_commands(s, evs[0]) + spec_run_commands(spec_dispatch(s, evs[0]), evs.drop_first())
    }
}

/// Dispatch every queued event of one poll tick, in arrival order.
pub fn dispatch_all(window: &mut WindowState, evs: &Vec<TimedEvent>) -> (cmds: Vec<WindowCommand>)
    requires
        old(window).width < i32::MAX,
        forall|i: int| 0 <= i < evs@.len() ==> event_width_ok(evs@[i]),
    ensures
        *final(window) == spec_run(*old(window), evs@),
        cmds@ == spec_run_commands(*old(window), evs@),
        final(window).width < i32::MAX,
{
    let mut cmds: Vec<WindowCommand> = Vec::new();
    let mut i: usize = 0;
    proof {
        assert(evs@.skip(0) =~= evs@);
    }
    while i < evs.len()
        invariant
            0 <= i <= evs@.len(),
            window.width < i32::MAX,
            forall|j: int| 0 <= j < evs@.len() ==> event_width_ok(evs@[j]),
            spec_run(*old(window), evs@) == spec_run(*window, evs@.skip(i as int)),
            spec_run_commands(*old(window), evs@) == cmds@ + spec_run_commands(
                *window,
                evs@.skip(i as int),
            ),
        decreases evs@.len() - i,
    {
        let ghost pre = *window;
        let ghost pre_cmds = cmds@;
        let mut step = handle_window_event(window, &evs[i]);
        cmds.append(&mut step);
        proof {
            assert(evs@.skip(i as int)[0] == evs@[i as int]);
            assert(evs@.skip(i as int).drop_first() =~= evs@.skip(i as int + 1));
            assert(spec_run(pre, evs@.skip(i as int)) == spec_run(
                spec_dispatch(pre, evs@[i as int]),
                evs@.skip(i as int + 1),
            ));
            assert(cmds@ + spec_run_commands(*window, evs@.skip(i as int + 1)) =~= pre_cmds
                + spec_run_commands(pre, evs@.skip(i as int)));
        }
        i = i + 1;
    }
    proof {
        assert(evs@.skip(evs@.len() as int) =~= Seq::<TimedEvent>::empty());
        assert(cmds@ + spec_run_commands(*window, evs@.skip(evs@.len() as int)) =~= cmds@);
    }
    cmds
}

/// Dispatching one queue and then another, tick after tick, is the same as
/// dispatching their concatenation: no event is looked ahead across frames.
pub proof fn lemma_run_append(s: WindowState, a: Seq<TimedEvent>, b: Seq<TimedEvent>)
    ensures
        spec_run(s, a + b) == spec_run(spec_run(s, a), b),
    decreases a.len(),
{
    if a.len() == 0 {
        assert(a + b =~= b);
    } else {
        assert((a + b)[0] == a[0]);
        assert((a + b).drop_first() =~= a.drop_first() + b);
        lemma_run_append(spec_dispatch(s, a[0]), a.drop_first(), b);
    }
}

/// Releasing Escape closes the window whatever state it was in.
pub proof fn lemma_escape_always_closes(s: WindowState, time_ms: u64, scancode: i32, mods: u8)
    ensures
        spec_dispatch(
            s,
            TimedEvent {
                time_ms,
                event: Event::Key(Key::Escape, scancode, KeyAction::Release, mods),
            },
        ).should_close,
{
}

/// The net geometry each resize command sequence leaves behind, applied in
/// order to a window of the given size.
pub open spec fn apply_size_commands(w: i32, h: i32, cmds: Seq<WindowCommand>) -> (i32, i32)
    decreases cmds.len(),
{
    if cmds.len() == 0 {
        (w, h)
    } else {
        match cmds[0] {
            WindowCommand::SetSize(nw, nh) => apply_size_commands(nw, nh, cmds.drop_first()),
            _ => apply_size_commands(w, h, cmds.drop_first()),
        }
    }
}

/// Releasing R leaves the dispatcher state's size untouched, and the two
/// resize commands it emits net out: whatever size the window had, after
/// both commands it is back at the state's (width, height).
pub proof fn lemma_refresh_round_trip(
    s: WindowState,
    time_ms: u64,
    scancode: i32,
    mods: u8,
    w0: i32,
    h0: i32,
)
    requires
        s.width < i32::MAX,
    ensures
        spec_dispatch(
            s,
            TimedEvent { time_ms, event: Event::Key(Key::R, scancode, KeyAction::Release, mods) },
        ) == s,
        apply_size_commands(
            w0,
            h0,
            spec_commands(
                s,
                TimedEvent {
                    time_ms,
                    event: Event::Key(Key::R, scancode, KeyAction::Release, mods),
                },
            ),
        ) == (s.width, s.height),
{
    let e = TimedEvent { time_ms, event: Event::Key(Key::R, scancode, KeyAction::Release, mods) };
    let cmds = spec_commands(s, e);
    assert(cmds[0] == WindowCommand::SetSize((s.width + 1) as i32, s.height));
    assert(cmds.drop_first()[0] == WindowCommand::SetSize(s.width, s.height));
    assert(cmds.drop_first().drop_first() =~= Seq::<WindowCommand>::empty());
    assert(apply_size_commands(w0, h0, cmds) == apply_size_commands(
        (s.width + 1) as i32,
        s.height,
        cmds.drop_first(),
    ));
    assert(apply_size_commands((s.width + 1) as i32, s.height, cmds.drop_first())
        == apply_size_commands(s.width, s.height, cmds.drop_first().drop_first()));
}

} // verus!
