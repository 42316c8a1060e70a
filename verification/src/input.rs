//! What the window reports, and what it does to the camera.
//!
//! Cursor positions are thousandths of a pixel, scroll amounts millionths
//! of a degree, times microseconds.
//!
//! Events that turn the camera need the direction that belongs to its new
//! angles, as every turn does: `angles_after_events` says what the angles
//! will be, and `process_events` takes the events and the direction.

use crate::camera::{
    aimed, try_angles_turned, try_forward, try_right, valid_state, zoomed, Camera, CameraState,
};
use crate::device::{command_views, emit, CommandView, DeviceCommand};
use crate::units::fits_i64;
use crate::vector::{lemma_unit_vector_is_unit, normalizable, Vec3};
use vstd::prelude::*;

verus! {

/// Degrees that the camera turns for each pixel that the cursor moves, in
/// millionths of a degree per thousandth of a pixel: a twentieth of a degree
/// per pixel.
pub const SENSITIVITY: i64 = 50;

/// A cursor position.
#[derive(Clone, Copy, Debug, PartialEq, Eq, Structural)]
pub struct Cursor {
    pub x: i32,
    pub y: i32,
}

/// The size of the drawing surface, in pixels.
#[derive(Clone, Copy, Debug, PartialEq, Eq, Structural)]
pub struct Surface {
    pub width: i32,
    pub height: i32,
}

/// Something that the window reports.
#[derive(Clone, Copy, Debug, PartialEq, Eq, Structural)]
pub enum WindowEvent {
    /// The drawing surface has a new size.
    FramebufferSize { width: i32, height: i32 },
    /// The cursor is at a new position.
    CursorPos { x: i32, y: i32 },
    /// The wheel was turned.
    Scroll { yoffset: i64 },
    /// Anything else.
    Other,
}

/// The keys that matter, each held down or not.
#[derive(Clone, Copy, Debug, PartialEq, Eq, Structural)]
pub struct Keys {
    pub escape: bool,
    pub forward: bool,
    pub backward: bool,
    pub left: bool,
    pub right: bool,
}

/// Everything that events act on, as plain values.
pub struct InputState {
    pub camera: CameraState,
    /// Where the cursor was last seen, if it was seen.
    pub cursor: Option<Cursor>,
    pub surface: Surface,
    /// The commands asked of the device so far.
    pub commands: Seq<CommandView>,
    /// Whether the camera was turned.
    pub turned: bool,
}

/// How far the camera's yaw changes when the cursor goes from `last` to
/// `now`.
pub open spec fn yaw_offset(last: Cursor, now: Cursor) -> int {
    (now.x - last.x) * SENSITIVITY
}

/// How far the camera's pitch changes when the cursor goes from `last` to
/// `now`: moving the cursor up, to smaller `y`, raises the pitch.
pub open spec fn pitch_offset(last: Cursor, now: Cursor) -> int {
    (last.y - now.y) * SENSITIVITY
}

/// What one event does, the line of sight left aside.
///
/// A new size is taken over and passed on to the device. A cursor position
/// turns the camera's angles by the distance from the last position, and by
/// nothing if there was none; a turn whose yaw would not be representable
/// is left out. A scroll zooms. Anything else changes nothing.
pub open spec fn gathered_event(s: InputState, event: WindowEvent) -> InputState {
    match event {
        WindowEvent::FramebufferSize { width, height } => InputState {
            surface: Surface { width, height },
            commands: s.commands.push(CommandView::SetViewport { width, height }),
            ..s
        },
        WindowEvent::CursorPos { x, y } => {
            let now = Cursor { x, y };
            let last = match s.cursor {
                Some(c) => c,
                None => now,
            };
            InputState {
                camera: try_angles_turned(
                    s.camera,
                    yaw_offset(last, now),
                    pitch_offset(last, now),
                ),
                cursor: Some(now),
                turned: s.turned || fits_i64(s.camera.yaw + yaw_offset(last, now)),
                ..s
            }
        },
        WindowEvent::Scroll { yoffset } => InputState {
            camera: zoomed(s.camera, yoffset as int),
            ..s
        },
        WindowEvent::Other => s,
    }
}

/// What a series of events does, taken in order, the line of sight left
/// aside.
pub open spec fn gathered(s: InputState, events: Seq<WindowEvent>) -> InputState
    decreases events.len(),
{
    if events.len() == 0 {
        s
    } else {
        gathered_event(gathered(s, events.drop_last()), events.last())
    }
}

/// The state in which events start to be taken: nothing asked of the device
/// yet, the camera not yet turned.
pub open spec fn fresh(camera: CameraState, cursor: Option<Cursor>, surface: Surface)
    -> InputState {
    InputState { camera, cursor, surface, commands: Seq::empty(), turned: false }
}

/// The yaw and the pitch that the camera has after a series of events.
pub open spec fn angles_after(camera: CameraState, cursor: Option<Cursor>, events: Seq<
    WindowEvent,
>) -> (i64, i64) {
    let end = gathered(fresh(camera, cursor, Surface { width: 0, height: 0 }), events);
    (end.camera.yaw, end.camera.pitch)
}

/// The state after a series of events, taken in order. If the camera was
/// turned, its line of sight is pointed along `toward`, the direction that
/// belongs to the angles it has in the end.
pub open spec fn after_events(s: InputState, events: Seq<WindowEvent>, toward: Vec3)
    -> InputState {
    let end = gathered(s, events);
    if end.turned {
        InputState { camera: aimed(end.camera, toward), ..end }
    } else {
        end
    }
}

/// Distance that the camera moves in `delta_time` microseconds while a key
/// is held: two and a half units each second.
pub open spec fn frame_speed(delta_time: int) -> int {
    (5 * delta_time) / 2
}

/// The camera after the keys have acted on it for `delta_time`
/// microseconds: forward, backward, left, right, in that order, each by the
/// same distance. A move whose end is not representable is left out.
pub open spec fn after_keys(s: CameraState, keys: Keys, delta_time: int) -> CameraState {
    let speed = frame_speed(delta_time);
    if speed > i64::MAX {
        s
    } else {
        let s1 = if keys.forward {
            try_forward(s, speed)
        } else {
            s
        };
        let s2 = if keys.backward {
            try_forward(s1, -speed)
        } else {
            s1
        };
        let s3 = if keys.left {
            try_right(s2, -speed)
        } else {
            s2
        };
        if keys.right {
            try_right(s3, speed)
        } else {
            s3
        }
    }
}

/// Takes one event, the line of sight left aside: see `gathered_event`.
/// Says whether the camera's angles were turned.
fn gather_event(
    event: WindowEvent,
    last_mouse: &mut Option<Cursor>,
    camera: &mut Camera,
    surface: &mut Surface,
    commands: &mut Vec<DeviceCommand>,
) -> (turned: bool)
    requires
        old(camera).wf(),
    ensures
        final(camera).wf(),
        (InputState {
            camera: final(camera).state(),
            cursor: *final(last_mouse),
            surface: *final(surface),
            commands: command_views(final(commands)@),
            turned,
        }) == gathered_event(
            InputState {
                camera: old(camera).state(),
                cursor: *old(last_mouse),
                surface: *old(surface),
                commands: command_views(old(commands)@),
                turned: false,
            },
            event,
        ),
{
    match event {
        WindowEvent::FramebufferSize { width, height } => {
            surface.width = width;
            surface.height = height;
            emit(commands, DeviceCommand::SetViewport { width, height });
            false
        },
        WindowEvent::CursorPos { x, y } => {
            let now = Cursor { x, y };
            let last = match *last_mouse {
                Some(c) => c,
                None => now,
            };
            *last_mouse = Some(now);
            let xoffset: i64 = (now.x as i64 - last.x as i64) * SENSITIVITY;
            let yoffset: i64 = (last.y as i64 - now.y as i64) * SENSITIVITY;
            camera.turn_angles(xoffset, yoffset)
        },
        WindowEvent::Scroll { yoffset } => {
            camera.zoom_in(yoffset);
            false
        },
        WindowEvent::Other => false,
    }
}

/// Takes a series of events in order, the line of sight left aside: see
/// `gathered`. Says whether the camera's angles were turned.
fn gather_events(
    events: &Vec<WindowEvent>,
    last_mouse: &mut Option<Cursor>,
    camera: &mut Camera,
    surface: &mut Surface,
    commands: &mut Vec<DeviceCommand>,
) -> (turned: bool)
    requires
        old(camera).wf(),
    ensures
        final(camera).wf(),
        (InputState {
            camera: final(camera).state(),
            cursor: *final(last_mouse),
            surface: *final(surface),
            commands: command_views(final(commands)@),
            turned,
        }) == gathered(
            InputState {
                camera: old(camera).state(),
                cursor: *old(last_mouse),
                surface: *old(surface),
                commands: command_views(old(commands)@),
                turned: false,
            },
            events@,
        ),
{
    let ghost start = InputState {
        camera: camera.state(),
        cursor: *last_mouse,
        surface: *surface,
        commands: command_views(commands@),
        turned: false,
    };
    let mut turned = false;
    let mut index: usize = 0;
    while index < events.len()
        invariant
            index <= events.len(),
            camera.wf(),
            (InputState {
                camera: camera.state(),
                cursor: *last_mouse,
                surface: *surface,
                commands: command_views(commands@),
                turned,
            }) == gathered(start, events@.take(index as int)),
        decreases events.len() - index,
    {
        let ghost before = gathered(start, events@.take(index as int));
        let now = gather_event(events[index], last_mouse, camera, surface, commands);
        proof {
            let next = events@.take(index + 1);
            assert(next.drop_last() =~= events@.take(index as int));
            assert(next.last() == events@[index as int]);
            lemma_turned_carries_over(before, events@[index as int]);
        }
        turned = turned || now;
        index += 1;
    }
    assert(events@.take(index as int) =~= events@);
    turned
}

/// The yaw and the pitch that the camera will have once `events` are
/// taken, so that the direction that belongs to them can be formed and
/// handed to `process_events`. Nothing is changed.
pub fn angles_after_events(events: &Vec<WindowEvent>, last_mouse: Option<Cursor>, camera: &Camera)
    -> (angles: (i64, i64))
    requires
        camera.wf(),
    ensures
        angles == angles_after(camera.state(), last_mouse, events@),
{
    let mut camera = *camera;
    let mut last_mouse = last_mouse;
    let mut surface = Surface { width: 0, height: 0 };
    let mut commands: Vec<DeviceCommand> = Vec::new();
    assert(command_views(commands@) =~= Seq::<CommandView>::empty());
    gather_events(events, &mut last_mouse, &mut camera, &mut surface, &mut commands);
    (camera.yaw(), camera.pitch())
}

/// Takes the events that have come in since the last frame, in order: a new
/// size is taken over and passed on to the device, a cursor position turns
/// the camera, a scroll zooms. If the camera was turned, its line of sight
/// is then pointed along `toward`, scaled to unit length; `toward` is the
/// direction that belongs to the angles the camera has in the end (see
/// `angles_after_events`). Says whether the camera was turned. See
/// `after_events`.
pub fn process_events(
    events: &Vec<WindowEvent>,
    last_mouse: &mut Option<Cursor>,
    camera: &mut Camera,
    surface: &mut Surface,
    commands: &mut Vec<DeviceCommand>,
    toward: Vec3,
) -> (turned: bool)
    requires
        old(camera).wf(),
    ensures
        final(camera).wf(),
        (InputState {
            camera: final(camera).state(),
            cursor: *final(last_mouse),
            surface: *final(surface),
            commands: command_views(final(commands)@),
            turned,
        }) == after_events(
            InputState {
                camera: old(camera).state(),
                cursor: *old(last_mouse),
                surface: *old(surface),
                commands: command_views(old(commands)@),
                turned: false,
            },
            events@,
            toward,
        ),
{
    let turned = gather_events(events, last_mouse, camera, surface, commands);
    if turned {
        camera.aim(toward);
    }
    turned
}

/// Whether the camera was turned before an event does not change what the
/// event does; it is only carried along.
proof fn lemma_turned_carries_over(s: InputState, event: WindowEvent)
    ensures
        gathered_event(s, event) == (InputState {
            turned: s.turned || gathered_event(InputState { turned: false, ..s }, event).turned,
            ..gathered_event(InputState { turned: false, ..s }, event)
        }),
{
}

/// What events do to the camera and the cursor does not depend on the
/// drawing surface, on what was asked of the device before, or on whether
/// the camera had been turned before.
pub proof fn lemma_camera_ignores_the_rest(a: InputState, b: InputState, events: Seq<WindowEvent>)
    requires
        a.camera == b.camera,
        a.cursor == b.cursor,
    ensures
        gathered(a, events).camera == gathered(b, events).camera,
        gathered(a, events).cursor == gathered(b, events).cursor,
        a.turned == b.turned ==> gathered(a, events).turned == gathered(b, events).turned,
    decreases events.len(),
{
    if events.len() > 0 {
        lemma_camera_ignores_the_rest(a, b, events.drop_last());
    }
}

/// The angles that `angles_after_events` gives are the angles that the
/// camera has after `process_events`, whatever direction it is pointed
/// along.
pub proof fn lemma_angles_are_those_after_events(
    s: InputState,
    events: Seq<WindowEvent>,
    toward: Vec3,
)
    ensures
        after_events(s, events, toward).camera.yaw == angles_after(s.camera, s.cursor, events).0,
        after_events(s, events, toward).camera.pitch == angles_after(
            s.camera,
            s.cursor,
            events,
        ).1,
{
    lemma_camera_ignores_the_rest(
        s,
        fresh(s.camera, s.cursor, Surface { width: 0, height: 0 }),
        events,
    );
}

/// Whatever the window reports, in whatever order, the camera stays within
/// its limits: its pitch between -89 and 89 degrees, its field of view
/// between 1 and 45 degrees, its line of sight of unit length.
pub proof fn lemma_events_keep_camera_valid(s: InputState, events: Seq<WindowEvent>, toward: Vec3)
    requires
        valid_state(s.camera),
    ensures
        valid_state(gathered(s, events).camera),
        valid_state(after_events(s, events, toward).camera),
    decreases events.len(),
{
    if events.len() > 0 {
        lemma_events_keep_camera_valid(s, events.drop_last(), toward);
    }
    if normalizable(toward) {
        lemma_unit_vector_is_unit(toward);
    }
}

/// Whatever keys are held, for however long, the camera stays within its
/// limits, and only its position changes.
pub proof fn lemma_keys_keep_camera_valid(s: CameraState, keys: Keys, delta_time: int)
    requires
        valid_state(s),
    ensures
        valid_state(after_keys(s, keys, delta_time)),
        after_keys(s, keys, delta_time) == (CameraState {
            position: after_keys(s, keys, delta_time).position,
            ..s
        }),
{
}

/// Lets the keys act on the camera for `delta_time` microseconds: see
/// `after_keys`. Says whether the escape key asks for the end.
pub fn process_inputs(keys: Keys, camera: &mut Camera, delta_time: u64) -> (close: bool)
    requires
        old(camera).wf(),
    ensures
        close == keys.escape,
        final(camera).state() == after_keys(old(camera).state(), keys, delta_time as int),
        final(camera).wf(),
{
    let speed: u128 = (5 * (delta_time as u128)) / 2;
    if speed <= i64::MAX as u128 {
        let speed: i64 = speed as i64;
        if keys.forward {
            camera.try_move_forward(speed);
        }
        if keys.backward {
            camera.try_move_forward(-speed);
        }
        if keys.left {
            camera.try_move_right(-speed);
        }
        if keys.right {
            camera.try_move_right(speed);
        }
    }
    keys.escape
}

/// Remembers when the last frame began.
#[derive(Clone, Copy, Debug, PartialEq, Eq)]
pub struct FrameClock {
    last: u64,
}

impl FrameClock {
    /// The time at which the last frame began, in microseconds.
    pub closed spec fn last(self) -> u64 {
        self.last
    }

    /// A clock started at `now`.
    pub fn new(now: u64) -> (clock: FrameClock)
        ensures
            clock.last() == now,
    {
        FrameClock { last: now }
    }

    /// Begins a frame at `now`: the time since the last frame began, and
    /// nothing if the clock was set back.
    pub fn tick(&mut self, now: u64) -> (delta_time: u64)
        ensures
            final(self).last() == now,
            delta_time == if now >= old(self).last() {
                now - old(self).last()
            } else {
                0
            },
    {
        let delta_time = if now >= self.last {
            now - self.last
        } else {
            0
        };
        self.last = now;
        delta_time
    }
}

} // verus!
