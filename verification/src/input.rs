//! The viewer's reaction to input: which command each window event stands
//! for, and the display switches that the keyboard flips.
//!
//! Zooming, scrolling and the stroke width are continuous quantities that the
//! application keeps; it carries out the commands that this module returns.

use vstd::prelude::*;

verus! {

/// The keys the viewer gives a meaning to; every other key is `Other`.
#[derive(Clone, Copy, Debug, PartialEq, Eq, Structural)]
pub enum Key {
    Escape,
    PageDown,
    PageUp,
    Left,
    Right,
    Up,
    Down,
    P,
    W,
    B,
    A,
    Z,
    Other,
}

/// A mouse button.
#[derive(Clone, Copy, Debug, PartialEq, Eq, Structural)]
pub enum MouseButton {
    Left,
    Right,
    Middle,
    Other,
}

/// A window event, as far as the viewer tells events apart.
#[derive(Clone, Copy, Debug, PartialEq, Eq, Structural)]
pub enum InputEvent {
    /// The window was closed.
    Closed,
    /// A mouse button was pressed (`pressed`) or released.
    MouseInput { pressed: bool, button: MouseButton },
    /// The cursor moved; the application keeps its position.
    CursorMoved,
    /// A key was pressed (`pressed`) or released; `key` is `None` when the
    /// window system could not name it.
    Keyboard { pressed: bool, key: Option<Key> },
    /// Any other event.
    Other,
}

/// What an event asks of the viewer.
#[derive(Clone, Copy, Debug, PartialEq, Eq, Structural)]
pub enum ViewCommand {
    /// Nothing to do.
    Nothing,
    /// Stop the viewer.
    Quit,
    /// Print the scene coordinates under the cursor.
    ReportCursor,
    /// Remember the new cursor position.
    TrackCursor,
    /// Zoom out: the target zoom shrinks by a fifth.
    ZoomOut,
    /// Zoom in: the target zoom grows by a quarter.
    ZoomIn,
    /// Scroll the target view left by a step of fifty pixels.
    ScrollLeft,
    /// Scroll the target view right by a step of fifty pixels.
    ScrollRight,
    /// Scroll the target view up by a step of fifty pixels.
    ScrollUp,
    /// Scroll the target view down by a step of fifty pixels.
    ScrollDown,
    /// Widen the target stroke width by a quarter.
    WidenStroke,
    /// Narrow the target stroke width by a fifth.
    NarrowStroke,
    /// Show or hide the points of the paths.
    TogglePoints,
    /// Switch between filled and wireframe rendering.
    ToggleWireframe,
    /// Show or hide the background.
    ToggleBackground,
}

/// The display switches of the viewer.
#[derive(Clone, Copy, Debug, PartialEq, Eq, Structural)]
pub struct ViewFlags {
    pub show_points: bool,
    pub show_wireframe: bool,
    pub draw_background: bool,
}

/// The command that a pressed key stands for.
pub open spec fn spec_key_command(key: Key) -> ViewCommand {
    match key {
        Key::Escape => ViewCommand::Quit,
        Key::PageDown => ViewCommand::ZoomOut,
        Key::PageUp => ViewCommand::ZoomIn,
        Key::Left => ViewCommand::ScrollLeft,
        Key::Right => ViewCommand::ScrollRight,
        Key::Up => ViewCommand::ScrollUp,
        Key::Down => ViewCommand::ScrollDown,
        Key::P => ViewCommand::TogglePoints,
        Key::W => ViewCommand::ToggleWireframe,
        Key::B => ViewCommand::ToggleBackground,
        Key::A => ViewCommand::WidenStroke,
        Key::Z => ViewCommand::NarrowStroke,
        Key::Other => ViewCommand::Nothing,
    }
}

/// The command that an event stands for: closing the window quits, a press
/// of the left button reports the cursor, a cursor move is tracked, a named
/// key that is pressed gives its command, and nothing else does anything.
pub open spec fn spec_command_for(event: InputEvent) -> ViewCommand {
    match event {
        InputEvent::Closed => ViewCommand::Quit,
        InputEvent::MouseInput { pressed, button } => if pressed && button == MouseButton::Left {
            ViewCommand::ReportCursor
        } else {
            ViewCommand::Nothing
        },
        InputEvent::CursorMoved => ViewCommand::TrackCursor,
        InputEvent::Keyboard { pressed, key } => match key {
            Some(k) => if pressed {
                spec_key_command(k)
            } else {
                ViewCommand::Nothing
            },
            None => ViewCommand::Nothing,
        },
        InputEvent::Other => ViewCommand::Nothing,
    }
}

/// The switches after a command: a toggle flips its switch, every other
/// command leaves them all as they are.
pub open spec fn spec_apply(flags: ViewFlags, command: ViewCommand) -> ViewFlags {
    match command {
        ViewCommand::TogglePoints => ViewFlags { show_points: !flags.show_points, ..flags },
        ViewCommand::ToggleWireframe => ViewFlags { show_wireframe: !flags.show_wireframe, ..flags },
        ViewCommand::ToggleBackground => ViewFlags { draw_background: !flags.draw_background, ..flags },
        _ => flags,
    }
}

/// The switches after a sequence of events, taken in order.
pub open spec fn flags_after(flags: ViewFlags, events: Seq<InputEvent>) -> ViewFlags
    decreases events.len(),
{
    if events.len() == 0 {
        flags
    } else {
        spec_apply(flags_after(flags, events.drop_last()), spec_command_for(events.last()))
    }
}

/// Whether some event of the sequence asks to quit.
pub open spec fn asks_to_quit(events: Seq<InputEvent>) -> bool {
    exists|i: int| 0 <= i < events.len() && spec_command_for(#[trigger] events[i]) == ViewCommand::Quit
}

/// The command that a pressed key stands for.
pub fn key_command(key: Key) -> (c: ViewCommand)
    ensures
        c == spec_key_command(key),
        key == Key::Escape ==> c == ViewCommand::Quit,
        key == Key::PageDown ==> c == ViewCommand::ZoomOut,
        key == Key::PageUp ==> c == ViewCommand::ZoomIn,
        key == Key::Left ==> c == ViewCommand::ScrollLeft,
        key == Key::Right ==> c == ViewCommand::ScrollRight,
        key == Key::Up ==> c == ViewCommand::ScrollUp,
        key == Key::Down ==> c == ViewCommand::ScrollDown,
        key == Key::P ==> c == ViewCommand::TogglePoints,
        key == Key::W ==> c == ViewCommand::ToggleWireframe,
        key == Key::B ==> c == ViewCommand::ToggleBackground,
        key == Key::A ==> c == ViewCommand::WidenStroke,
        key == Key::Z ==> c == ViewCommand::NarrowStroke,
        key == Key::Other ==> c == ViewCommand::Nothing,
{
    match key {
        Key::Escape => ViewCommand::Quit,
        Key::PageDown => ViewCommand::ZoomOut,
        Key::PageUp => ViewCommand::ZoomIn,
        Key::Left => ViewCommand::ScrollLeft,
        Key::Right => ViewCommand::ScrollRight,
        Key::Up => ViewCommand::ScrollUp,
        Key::Down => ViewCommand::ScrollDown,
        Key::P => ViewCommand::TogglePoints,
        Key::W => ViewCommand::ToggleWireframe,
        Key::B => ViewCommand::ToggleBackground,
        Key::A => ViewCommand::WidenStroke,
        Key::Z => ViewCommand::NarrowStroke,
        Key::Other => ViewCommand::Nothing,
    }
}

/// The command that `event` stands for.
pub fn command_for(event: &InputEvent) -> (c: ViewCommand)
    ensures
        c == spec_command_for(*event),
        *event == InputEvent::Closed ==> c == ViewCommand::Quit,
        *event == InputEvent::CursorMoved ==> c == ViewCommand::TrackCursor,
        *event == InputEvent::Other ==> c == ViewCommand::Nothing,
        *event matches InputEvent::MouseInput { pressed, button } ==> (c == ViewCommand::ReportCursor
            <==> pressed && button == MouseButton::Left),
        *event matches InputEvent::MouseInput { pressed, button } ==> (c == ViewCommand::Nothing
            <==> !(pressed && button == MouseButton::Left)),
        *event matches InputEvent::Keyboard { pressed, key } ==> (!pressed || key is None) ==> c
            == ViewCommand::Nothing,
        *event == (InputEvent::Keyboard { pressed: true, key: Some(Key::Escape) }) ==> c == ViewCommand::Quit,
        *event == (InputEvent::Keyboard { pressed: true, key: Some(Key::PageDown) }) ==> c == ViewCommand::ZoomOut,
        *event == (InputEvent::Keyboard { pressed: true, key: Some(Key::PageUp) }) ==> c == ViewCommand::ZoomIn,
        *event == (InputEvent::Keyboard { pressed: true, key: Some(Key::Left) }) ==> c == ViewCommand::ScrollLeft,
        *event == (InputEvent::Keyboard { pressed: true, key: Some(Key::Right) }) ==> c == ViewCommand::ScrollRight,
        *event == (InputEvent::Keyboard { pressed: true, key: Some(Key::Up) }) ==> c == ViewCommand::ScrollUp,
        *event == (InputEvent::Keyboard { pressed: true, key: Some(Key::Down) }) ==> c == ViewCommand::ScrollDown,
        *event == (InputEvent::Keyboard { pressed: true, key: Some(Key::P) }) ==> c == ViewCommand::TogglePoints,
        *event == (InputEvent::Keyboard { pressed: true, key: Some(Key::W) }) ==> c == ViewCommand::ToggleWireframe,
        *event == (InputEvent::Keyboard { pressed: true, key: Some(Key::B) }) ==> c == ViewCommand::ToggleBackground,
        *event == (InputEvent::Keyboard { pressed: true, key: Some(Key::A) }) ==> c == ViewCommand::WidenStroke,
        *event == (InputEvent::Keyboard { pressed: true, key: Some(Key::Z) }) ==> c == ViewCommand::NarrowStroke,
        *event == (InputEvent::Keyboard { pressed: true, key: Some(Key::Other) }) ==> c == ViewCommand::Nothing,
        c == ViewCommand::Quit <==> (*event == InputEvent::Closed || *event == (InputEvent::Keyboard {
            pressed: true,
            key: Some(Key::Escape),
        })),
{
    proof {
        lemma_event_commands(*event);
    }
    match event {
        InputEvent::Closed => ViewCommand::Quit,
        InputEvent::MouseInput { pressed, button } => {
            if *pressed && *button == MouseButton::Left {
                ViewCommand::ReportCursor
            } else {
                ViewCommand::Nothing
            }
        },
        InputEvent::CursorMoved => ViewCommand::TrackCursor,
        InputEvent::Keyboard { pressed, key } => match key {
            Some(k) => {
                if *pressed {
                    key_command(*k)
                } else {
                    ViewCommand::Nothing
                }
            },
            None => ViewCommand::Nothing,
        },
        InputEvent::Other => ViewCommand::Nothing,
    }
}

impl ViewFlags {
    /// Carries out the part of `command` that concerns the switches.
    pub fn apply(&mut self, command: ViewCommand)
        ensures
            *final(self) == spec_apply(*old(self), command),
            final(self).show_points == (old(self).show_points != (command
                == ViewCommand::TogglePoints)),
            final(self).show_wireframe == (old(self).show_wireframe != (command
                == ViewCommand::ToggleWireframe)),
            final(self).draw_background == (old(self).draw_background != (command
                == ViewCommand::ToggleBackground)),
    {
        match command {
            ViewCommand::TogglePoints => {
                self.show_points = !self.show_points;
            },
            ViewCommand::ToggleWireframe => {
                self.show_wireframe = !self.show_wireframe;
            },
            ViewCommand::ToggleBackground => {
                self.draw_background = !self.draw_background;
            },
            _ => {},
        }
    }
}

/// Handles the events that arrived since the last frame, in order: flips the
/// switches that they toggle, and returns whether the viewer keeps running
/// (no event asked to quit) with the command of every event, for the
/// application to carry out.
pub fn update_inputs(flags: &mut ViewFlags, events: &Vec<InputEvent>) -> (r: (bool, Vec<ViewCommand>))
    ensures
        r.0 == !asks_to_quit(events@),
        r.1@ == events@.map_values(|e: InputEvent| spec_command_for(e)),
        *final(flags) == flags_after(*old(flags), events@),
        r.0 == !exists|i: int|
            0 <= i < events@.len() && (#[trigger] events@[i] == InputEvent::Closed || events@[i] == (
            InputEvent::Keyboard { pressed: true, key: Some(Key::Escape) })),
        r.1@.len() == events@.len(),
{
    proof {
        lemma_quit_events(events@);
    }
    let mut status = true;
    let mut commands: Vec<ViewCommand> = Vec::new();
    let n = events.len();
    let mut i: usize = 0;
    while i < n
        invariant
            i <= n == events@.len(),
            *flags == flags_after(*old(flags), events@.take(i as int)),
            commands@ == events@.take(i as int).map_values(|e: InputEvent| spec_command_for(e)),
            status == !asks_to_quit(events@.take(i as int)),
        decreases n - i,
    {
        let command = command_for(&events[i]);
        flags.apply(command);
        if command == ViewCommand::Quit {
            status = false;
        }
        commands.push(command);
        proof {
            let t = events@.take(i + 1);
            assert(t.drop_last() =~= events@.take(i as int));
            assert(t.last() == events@[i as int]);
            assert(commands@ =~= t.map_values(|e: InputEvent| spec_command_for(e)));
            if command == ViewCommand::Quit {
                assert(t[i as int] == events@[i as int]);
            } else {
                assert forall|k: int| 0 <= k < t.len() && spec_command_for(#[trigger] t[k]) == ViewCommand::Quit
                    implies k < i by {}
                if asks_to_quit(t) {
                    let k = choose|k: int| 0 <= k < t.len() && spec_command_for(#[trigger] t[k]) == ViewCommand::Quit;
                    assert(events@.take(i as int)[k] == t[k]);
                }
            }
        }
        i = i + 1;
    }
    proof {
        assert(events@.take(n as int) =~= events@);
    }
    (status, commands)
}


/// How many events of the sequence stand for `command`.
pub open spec fn command_count(events: Seq<InputEvent>, command: ViewCommand) -> nat
    decreases events.len(),
{
    if events.len() == 0 {
        0
    } else {
        command_count(events.drop_last(), command) + if spec_command_for(events.last()) == command {
            1nat
        } else {
            0nat
        }
    }
}

/// Applying the same command twice leaves the switches as they were: a
/// toggle undoes itself, and any other command changes nothing.
pub proof fn lemma_command_twice_is_identity(flags: ViewFlags, command: ViewCommand)
    ensures
        spec_apply(spec_apply(flags, command), command) == flags,
{
}

/// After a sequence of events each switch is flipped exactly when its toggle
/// came an odd number of times: the order of the events does not matter, and
/// events that are no toggles never change a switch.
pub proof fn lemma_switches_follow_toggle_parity(flags: ViewFlags, events: Seq<InputEvent>)
    ensures
        flags_after(flags, events).show_points == (flags.show_points != (command_count(
            events,
            ViewCommand::TogglePoints,
        ) % 2 == 1)),
        flags_after(flags, events).show_wireframe == (flags.show_wireframe != (command_count(
            events,
            ViewCommand::ToggleWireframe,
        ) % 2 == 1)),
        flags_after(flags, events).draw_background == (flags.draw_background != (command_count(
            events,
            ViewCommand::ToggleBackground,
        ) % 2 == 1)),
    decreases events.len(),
{
    if events.len() > 0 {
        lemma_switches_follow_toggle_parity(flags, events.drop_last());
    }
}


/// What every window event asks of the viewer: closing the window quits, a
/// press of the left button (and of no other) reports the cursor, a cursor
/// move is tracked, a released or unnamed key does nothing, each named key
/// that is pressed gives its own command, and only a close or a press of
/// Escape quits.
pub proof fn lemma_event_commands(event: InputEvent)
    ensures
        event == InputEvent::Closed ==> spec_command_for(event) == ViewCommand::Quit,
        event == InputEvent::CursorMoved ==> spec_command_for(event) == ViewCommand::TrackCursor,
        event == InputEvent::Other ==> spec_command_for(event) == ViewCommand::Nothing,
        event matches InputEvent::MouseInput { pressed, button } ==> (spec_command_for(event) == ViewCommand::ReportCursor
            <==> pressed && button == MouseButton::Left),
        event matches InputEvent::MouseInput { pressed, button } ==> (spec_command_for(event) == ViewCommand::Nothing
            <==> !(pressed && button == MouseButton::Left)),
        event matches InputEvent::Keyboard { pressed, key } ==> (!pressed || key is None) ==> spec_command_for(event)
            == ViewCommand::Nothing,
        event == (InputEvent::Keyboard { pressed: true, key: Some(Key::Escape) }) ==> spec_command_for(event) == ViewCommand::Quit,
        event == (InputEvent::Keyboard { pressed: true, key: Some(Key::PageDown) }) ==> spec_command_for(event) == ViewCommand::ZoomOut,
        event == (InputEvent::Keyboard { pressed: true, key: Some(Key::PageUp) }) ==> spec_command_for(event) == ViewCommand::ZoomIn,
        event == (InputEvent::Keyboard { pressed: true, key: Some(Key::Left) }) ==> spec_command_for(event) == ViewCommand::ScrollLeft,
        event == (InputEvent::Keyboard { pressed: true, key: Some(Key::Right) }) ==> spec_command_for(event) == ViewCommand::ScrollRight,
        event == (InputEvent::Keyboard { pressed: true, key: Some(Key::Up) }) ==> spec_command_for(event) == ViewCommand::ScrollUp,
        event == (InputEvent::Keyboard { pressed: true, key: Some(Key::Down) }) ==> spec_command_for(event) == ViewCommand::ScrollDown,
        event == (InputEvent::Keyboard { pressed: true, key: Some(Key::P) }) ==> spec_command_for(event) == ViewCommand::TogglePoints,
        event == (InputEvent::Keyboard { pressed: true, key: Some(Key::W) }) ==> spec_command_for(event) == ViewCommand::ToggleWireframe,
        event == (InputEvent::Keyboard { pressed: true, key: Some(Key::B) }) ==> spec_command_for(event) == ViewCommand::ToggleBackground,
        event == (InputEvent::Keyboard { pressed: true, key: Some(Key::A) }) ==> spec_command_for(event) == ViewCommand::WidenStroke,
        event == (InputEvent::Keyboard { pressed: true, key: Some(Key::Z) }) ==> spec_command_for(event) == ViewCommand::NarrowStroke,
        event == (InputEvent::Keyboard { pressed: true, key: Some(Key::Other) }) ==> spec_command_for(event) == ViewCommand::Nothing,
        spec_command_for(event) == ViewCommand::Quit <==> (event == InputEvent::Closed || event == (InputEvent::Keyboard {
            pressed: true,
            key: Some(Key::Escape),
        })),
{
}

/// A batch of events asks to quit exactly when one of them, wherever it
/// stands, closes the window or presses Escape.
pub proof fn lemma_quit_events(events: Seq<InputEvent>)
    ensures
        asks_to_quit(events) <==> exists|i: int|
            0 <= i < events.len() && (#[trigger] events[i] == InputEvent::Closed || events[i] == (
            InputEvent::Keyboard { pressed: true, key: Some(Key::Escape) })),
{
    if asks_to_quit(events) {
        let i = choose|i: int| 0 <= i < events.len() && spec_command_for(#[trigger] events[i]) == ViewCommand::Quit;
        lemma_event_commands(events[i]);
    }
    if exists|i: int|
            0 <= i < events.len() && (#[trigger] events[i] == InputEvent::Closed || events[i] == (
            InputEvent::Keyboard { pressed: true, key: Some(Key::Escape) })) {
        let i = choose|i: int|
            0 <= i < events.len() && (#[trigger] events[i] == InputEvent::Closed || events[i] == (
            InputEvent::Keyboard { pressed: true, key: Some(Key::Escape) }));
        lemma_event_commands(events[i]);
        assert(spec_command_for(events[i]) == ViewCommand::Quit);
    }
}

} // verus!
