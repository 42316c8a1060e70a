//! The free-flying camera: where it stands, where it looks, how wide it sees.
//!
//! Angles are millionths of a degree, lengths millionths of a unit. The
//! camera keeps its pitch between -89 and 89 degrees and its field of view
//! between 1 and 45 degrees, whatever it is asked to do.
//!
//! The line of sight belongs to the yaw and the pitch: it is
//! `(cos yaw * cos pitch, sin pitch, sin yaw * cos pitch)`. Sines and cosines
//! are no integers, so a turn is handed that direction by its caller:
//! `turned_angles` says what the angles will be, and `rotate` turns the
//! angles and takes the direction, scales it to unit length and looks along
//! it.

use crate::units::{
    clamp, clamped_difference, clamped_sum, fits_i64, magnitude, multiply_scaled, scaled_product,
    trunc_div, SCALE,
};
use crate::vector::{
    cross_x, cross_y, cross_z, extended_length, is_unit, lemma_component_limit,
    lemma_unit_of_changes_little, lemma_unit_vector_is_unit, norm_squared, normalizable, unit_of,
    Vec3, UNIT_TOLERANCE,
};
use vstd::prelude::*;

verus! {

/// Lowest pitch, 89 degrees below the horizon.
pub const PITCH_MIN: i64 = -89_000_000;

/// Highest pitch, 89 degrees above the horizon.
pub const PITCH_MAX: i64 = 89_000_000;

/// Narrowest field of view, one degree.
pub const FOV_MIN: i64 = 1_000_000;

/// Widest field of view, 45 degrees.
pub const FOV_MAX: i64 = 45_000_000;

/// Everything a camera holds, as plain values.
#[derive(Clone, Copy, Debug, PartialEq, Eq, Structural)]
pub struct CameraState {
    /// Where the viewer stands.
    pub position: Vec3,
    /// Unit vector along the line of sight.
    pub front: Vec3,
    /// Vertical opening angle.
    pub field_of_view: i64,
    /// Heading about the vertical axis.
    pub yaw: i64,
    /// Elevation above the horizon.
    pub pitch: i64,
}

/// What a look-at transform is built from.
#[derive(Clone, Copy, Debug, PartialEq, Eq, Structural)]
pub struct ViewFrame {
    /// The viewer's position.
    pub eye: Vec3,
    /// The point looked at: one unit ahead of the viewer.
    pub target: Vec3,
    /// The direction that appears upward.
    pub up: Vec3,
}

/// The world's upward direction. Rotation never changes it.
pub open spec fn up_vector() -> Vec3 {
    Vec3 { x: 0, y: SCALE, z: 0 }
}

/// The state of a newly made camera: three units back on the z axis, looking
/// down the negative z axis, with the widest field of view.
pub open spec fn initial_state() -> CameraState {
    CameraState {
        position: Vec3 { x: 0, y: 0, z: 3_000_000 },
        front: Vec3 { x: 0, y: 0, z: -1_000_000i64 },
        field_of_view: FOV_MAX,
        yaw: -89_000_000i64,
        pitch: 0,
    }
}

/// The invariant of a camera.
pub open spec fn valid_state(s: CameraState) -> bool {
    &&& PITCH_MIN <= s.pitch <= PITCH_MAX
    &&& FOV_MIN <= s.field_of_view <= FOV_MAX
    &&& is_unit(s.front)
}

/// Pitch after a change of `delta`.
pub open spec fn turned_pitch(pitch: int, delta: int) -> int {
    clamp(pitch + delta, PITCH_MIN as int, PITCH_MAX as int)
}

/// Field of view after zooming in by `delta`.
pub open spec fn zoomed_field(field_of_view: int, delta: int) -> int {
    clamp(field_of_view - delta, FOV_MIN as int, FOV_MAX as int)
}

/// Whether `p` moved by `speed` along `dir` is representable.
pub open spec fn can_displace(p: Vec3, dir: Vec3, speed: int) -> bool {
    &&& fits_i64(p.x + scaled_product(speed, dir.x as int))
    &&& fits_i64(p.y + scaled_product(speed, dir.y as int))
    &&& fits_i64(p.z + scaled_product(speed, dir.z as int))
}

/// `p` moved by `speed` along `dir`.
pub open spec fn displaced(p: Vec3, dir: Vec3, speed: int) -> Vec3 {
    Vec3 {
        x: (p.x + scaled_product(speed, dir.x as int)) as i64,
        y: (p.y + scaled_product(speed, dir.y as int)) as i64,
        z: (p.z + scaled_product(speed, dir.z as int)) as i64,
    }
}

/// The cross product of `front` and the upward direction, not yet of unit
/// length.
pub open spec fn sideways(front: Vec3) -> Vec3 {
    Vec3 {
        x: cross_x(front, up_vector()) as i64,
        y: cross_y(front, up_vector()) as i64,
        z: cross_z(front, up_vector()) as i64,
    }
}

/// Whether a camera looking along `front` has a right-hand side: it has none
/// when it looks straight up or down.
pub open spec fn has_right(front: Vec3) -> bool {
    front.x != 0 || front.z != 0
}

/// Unit vector to the right of a camera looking along `front`.
pub open spec fn right_of(front: Vec3) -> Vec3 {
    unit_of(sideways(front))
}

/// The state with the line of sight pointed along `toward`, scaled to unit
/// length; a `toward` that cannot be scaled to unit length leaves the state
/// as it is.
pub open spec fn aimed(s: CameraState, toward: Vec3) -> CameraState {
    if normalizable(toward) {
        CameraState { front: unit_of(toward), ..s }
    } else {
        s
    }
}

/// The state with its two angles turned: `xoffset` added to the yaw,
/// `yoffset` added to the pitch and the pitch kept within its limits. The
/// line of sight is not yet the one of the new angles.
pub open spec fn angles_turned(s: CameraState, xoffset: int, yoffset: int) -> CameraState {
    CameraState {
        yaw: (s.yaw + xoffset) as i64,
        pitch: turned_pitch(s.pitch as int, yoffset) as i64,
        ..s
    }
}

/// As `angles_turned` where the new yaw is representable, and the state
/// unchanged where it is not.
pub open spec fn try_angles_turned(s: CameraState, xoffset: int, yoffset: int) -> CameraState {
    if fits_i64(s.yaw + xoffset) {
        angles_turned(s, xoffset, yoffset)
    } else {
        s
    }
}

/// State after `Camera::rotate`: the angles turned, and the line of sight
/// along `toward`, the direction that belongs to the new angles.
pub open spec fn rotated(s: CameraState, xoffset: int, yoffset: int, toward: Vec3)
    -> CameraState {
    aimed(angles_turned(s, xoffset, yoffset), toward)
}

/// State after `Camera::zoom_in`.
pub open spec fn zoomed(s: CameraState, speed: int) -> CameraState {
    CameraState { field_of_view: zoomed_field(s.field_of_view as int, speed) as i64, ..s }
}

/// State after `Camera::move_forward`.
pub open spec fn moved_forward(s: CameraState, speed: int) -> CameraState {
    CameraState { position: displaced(s.position, s.front, speed), ..s }
}

/// State after `Camera::move_right`.
pub open spec fn moved_right(s: CameraState, speed: int) -> CameraState {
    if has_right(s.front) {
        CameraState { position: displaced(s.position, right_of(s.front), speed), ..s }
    } else {
        s
    }
}

/// Whether `Camera::move_right` by `speed` stays representable.
pub open spec fn can_move_right(s: CameraState, speed: int) -> bool {
    has_right(s.front) ==> can_displace(s.position, right_of(s.front), speed)
}

/// State after `Camera::try_rotate`.
pub open spec fn try_rotated(s: CameraState, xoffset: int, yoffset: int, toward: Vec3)
    -> CameraState {
    if fits_i64(s.yaw + xoffset) {
        rotated(s, xoffset, yoffset, toward)
    } else {
        s
    }
}

/// State after `Camera::try_move_forward`.
pub open spec fn try_forward(s: CameraState, speed: int) -> CameraState {
    if can_displace(s.position, s.front, speed) {
        moved_forward(s, speed)
    } else {
        s
    }
}

/// State after `Camera::try_move_right`.
pub open spec fn try_right(s: CameraState, speed: int) -> CameraState {
    if can_move_right(s, speed) {
        moved_right(s, speed)
    } else {
        s
    }
}

/// Whether the point one unit ahead of the camera is representable.
pub open spec fn can_view(s: CameraState) -> bool {
    &&& fits_i64(s.position.x + s.front.x)
    &&& fits_i64(s.position.y + s.front.y)
    &&& fits_i64(s.position.z + s.front.z)
}

/// The look-at frame of a camera in state `s`.
pub open spec fn view_frame(s: CameraState) -> ViewFrame {
    ViewFrame {
        eye: s.position,
        target: Vec3 {
            x: (s.position.x + s.front.x) as i64,
            y: (s.position.y + s.front.y) as i64,
            z: (s.position.z + s.front.z) as i64,
        },
        up: up_vector(),
    }
}

/// A vector along one axis, one unit long, has unit length.
pub proof fn lemma_axis_is_unit(v: Vec3)
    requires
        (v.x == 0 && v.y == 0) || (v.y == 0 && v.z == 0) || (v.x == 0 && v.z == 0),
        v.x + v.y + v.z == SCALE || v.x + v.y + v.z == -SCALE,
    ensures
        is_unit(v),
{
    let (x, y, z) = (v.x as int, v.y as int, v.z as int);
    assert(x * x + y * y + z * z == 1_000_000_000_000) by (nonlinear_arith)
        requires
            (x == 0 && y == 0) || (y == 0 && z == 0) || (x == 0 && z == 0),
            x + y + z == 1_000_000 || x + y + z == -1_000_000,
    ;
    assert((SCALE - UNIT_TOLERANCE) * (SCALE - UNIT_TOLERANCE) == 999_990 * 999_990);
    assert((SCALE + UNIT_TOLERANCE) * (SCALE + UNIT_TOLERANCE) == 1_000_010 * 1_000_010);
}

/// A component of a unit vector is at most one unit and the tolerance.
pub proof fn lemma_unit_components_bounded(v: Vec3)
    requires
        is_unit(v),
    ensures
        -(SCALE + UNIT_TOLERANCE) <= v.x <= SCALE + UNIT_TOLERANCE,
        -(SCALE + UNIT_TOLERANCE) <= v.y <= SCALE + UNIT_TOLERANCE,
        -(SCALE + UNIT_TOLERANCE) <= v.z <= SCALE + UNIT_TOLERANCE,
{
    let (x, y, z) = (v.x as int, v.y as int, v.z as int);
    assert(x * x >= 0 && y * y >= 0 && z * z >= 0) by (nonlinear_arith);
    assert((SCALE + UNIT_TOLERANCE) * (SCALE + UNIT_TOLERANCE) == 1_000_010 * 1_000_010);
    lemma_component_limit(x, 1_000_010);
    lemma_component_limit(y, 1_000_010);
    lemma_component_limit(z, 1_000_010);
}

/// The cross product of a unit line of sight and the upward direction is
/// `(-front.z, 0, front.x)` times `SCALE`. It can be scaled to unit length
/// unless the line of sight is vertical.
pub proof fn lemma_sideways(front: Vec3)
    requires
        is_unit(front),
    ensures
        sideways(front).x == -(front.z * SCALE),
        sideways(front).y == 0,
        sideways(front).z == front.x * SCALE,
        has_right(front) <==> normalizable(sideways(front)),
{
    let s: int = 1_000_000;
    let (fx, fy, fz) = (front.x as int, front.y as int, front.z as int);
    lemma_unit_components_bounded(front);
    assert(fy * 0 - fz * s == -(fz * s)) by (nonlinear_arith);
    assert(fz * 0 - fx * 0 == 0) by (nonlinear_arith);
    assert(fx * s - fy * 0 == fx * s) by (nonlinear_arith);
    assert(-1_000_010_000_000 <= fz * s <= 1_000_010_000_000) by (nonlinear_arith)
        requires
            -1_000_010 <= fz <= 1_000_010,
            s == 1_000_000,
    ;
    assert(-1_000_010_000_000 <= fx * s <= 1_000_010_000_000) by (nonlinear_arith)
        requires
            -1_000_010 <= fx <= 1_000_010,
            s == 1_000_000,
    ;
    assert((fz * s != 0 || fx * s != 0) <==> (fx != 0 || fz != 0)) by (nonlinear_arith)
        requires
            s == 1_000_000,
    ;
}

/// The camera.
#[derive(Clone, Copy, Debug, PartialEq, Eq)]
pub struct Camera {
    state: CameraState,
}

impl Camera {
    /// What the camera holds.
    pub closed spec fn state(self) -> CameraState {
        self.state
    }

    /// A camera is well formed when its state meets the invariant.
    pub open spec fn wf(self) -> bool {
        valid_state(self.state())
    }

    /// A camera in its starting pose.
    pub fn new() -> (camera: Camera)
        ensures
            camera.state() == initial_state(),
            camera.wf(),
    {
        let camera = Camera {
            state: CameraState {
                position: Vec3 { x: 0, y: 0, z: 3_000_000 },
                front: Vec3 { x: 0, y: 0, z: -1_000_000 },
                field_of_view: FOV_MAX,
                yaw: -89_000_000,
                pitch: 0,
            },
        };
        proof {
            lemma_axis_is_unit(camera.state.front);
        }
        camera
    }

    /// Where the viewer stands.
    pub fn position(&self) -> (p: Vec3)
        ensures
            p == self.state().position,
    {
        self.state.position
    }

    /// Unit vector along the line of sight.
    pub fn front(&self) -> (f: Vec3)
        ensures
            f == self.state().front,
    {
        self.state.front
    }

    /// Vertical opening angle, in millionths of a degree.
    pub fn field_of_view(&self) -> (a: i64)
        ensures
            a == self.state().field_of_view,
    {
        self.state.field_of_view
    }

    /// Heading about the vertical axis, in millionths of a degree.
    pub fn yaw(&self) -> (a: i64)
        ensures
            a == self.state().yaw,
    {
        self.state.yaw
    }

    /// Elevation above the horizon, in millionths of a degree.
    pub fn pitch(&self) -> (a: i64)
        ensures
            a == self.state().pitch,
    {
        self.state.pitch
    }

    /// Moves the camera by `speed` along its line of sight; a negative
    /// `speed` moves it backward.
    pub fn move_forward(&mut self, speed: i64)
        requires
            old(self).wf(),
            can_displace(old(self).state().position, old(self).state().front, speed as int),
        ensures
            final(self).state() == moved_forward(old(self).state(), speed as int),
            final(self).wf(),
    {
        self.try_move_forward(speed);
    }

    /// Moves the camera by `speed` to its right, at right angles to its line
    /// of sight and to the upward direction; a negative `speed` moves it to
    /// the left. A camera that looks straight up or down has no right-hand
    /// side and stays where it is.
    pub fn move_right(&mut self, speed: i64)
        requires
            old(self).wf(),
            can_move_right(old(self).state(), speed as int),
        ensures
            final(self).state() == moved_right(old(self).state(), speed as int),
            final(self).wf(),
    {
        self.try_move_right(speed);
    }

    /// As `move_forward`, for any `speed`: moves the camera if the new
    /// position is representable and says whether it did.
    pub fn try_move_forward(&mut self, speed: i64) -> (moved: bool)
        requires
            old(self).wf(),
        ensures
            moved == can_displace(
                old(self).state().position,
                old(self).state().front,
                speed as int,
            ),
            final(self).state() == try_forward(old(self).state(), speed as int),
            final(self).wf(),
    {
        match displace_checked(self.state.position, self.state.front, speed) {
            Some(position) => {
                self.state.position = position;
                true
            },
            None => false,
        }
    }

    /// As `move_right`, for any `speed`: moves the camera if the new
    /// position is representable and says whether it could; a camera with
    /// no right-hand side stays and the answer is yes.
    pub fn try_move_right(&mut self, speed: i64) -> (moved: bool)
        requires
            old(self).wf(),
        ensures
            moved == can_move_right(old(self).state(), speed as int),
            final(self).state() == try_right(old(self).state(), speed as int),
            final(self).wf(),
    {
        let front = self.state.front;
        proof {
            lemma_unit_components_bounded(front);
            lemma_sideways(front);
        }
        let side = front.cross(Vec3 { x: 0, y: SCALE, z: 0 });
        assert(side == sideways(front));
        match side.normalized() {
            Some(right) => {
                match displace_checked(self.state.position, right, speed) {
                    Some(position) => {
                        self.state.position = position;
                        true
                    },
                    None => false,
                }
            },
            None => true,
        }
    }

    /// Narrows the field of view by `speed`, and widens it when `speed` is
    /// negative, never beyond the interval from `FOV_MIN` to `FOV_MAX`.
    pub fn zoom_in(&mut self, speed: i64)
        requires
            old(self).wf(),
        ensures
            final(self).state() == zoomed(old(self).state(), speed as int),
            final(self).wf(),
    {
        self.state.field_of_view = clamped_difference(
            self.state.field_of_view,
            speed,
            FOV_MIN,
            FOV_MAX,
        );
    }

    /// The yaw and the pitch that the camera has after a turn by `xoffset`
    /// and `yoffset`, so that the direction that belongs to them can be
    /// formed before the turn is made. There are none where the new yaw is
    /// not representable.
    pub fn turned_angles(&self, xoffset: i64, yoffset: i64) -> (r: Option<(i64, i64)>)
        requires
            self.wf(),
        ensures
            r is Some <==> fits_i64(self.state().yaw + xoffset),
            r matches Some(angles) ==> {
                &&& angles.0 == angles_turned(self.state(), xoffset as int, yoffset as int).yaw
                &&& angles.1 == angles_turned(self.state(), xoffset as int, yoffset as int).pitch
            },
    {
        match self.state.yaw.checked_add(xoffset) {
            Some(yaw) => Some((yaw, clamped_sum(self.state.pitch, yoffset, PITCH_MIN, PITCH_MAX))),
            None => None,
        }
    }

    /// Turns the camera: adds `xoffset` to the yaw and `yoffset` to the
    /// pitch, keeps the pitch between `PITCH_MIN` and `PITCH_MAX`, and points
    /// the line of sight along `toward`, scaled to unit length. `toward` is
    /// the direction that belongs to the new angles (see `turned_angles`):
    /// `(cos yaw * cos pitch, sin pitch, sin yaw * cos pitch)`. Says whether
    /// the line of sight was set: a `toward` that cannot be scaled to unit
    /// length leaves it as it was.
    pub fn rotate(&mut self, xoffset: i64, yoffset: i64, toward: Vec3) -> (aimed: bool)
        requires
            old(self).wf(),
            fits_i64(old(self).state().yaw + xoffset),
        ensures
            aimed == normalizable(toward),
            final(self).state() == rotated(
                old(self).state(),
                xoffset as int,
                yoffset as int,
                toward,
            ),
            final(self).wf(),
    {
        self.turn_angles(xoffset, yoffset);
        self.aim(toward)
    }

    /// As `rotate`, for any offsets: turns the camera if the new yaw is
    /// representable, and then says whether the line of sight was set;
    /// where the new yaw is not representable the camera stays as it is.
    pub fn try_rotate(&mut self, xoffset: i64, yoffset: i64, toward: Vec3) -> (r: Option<bool>)
        requires
            old(self).wf(),
        ensures
            r is Some <==> fits_i64(old(self).state().yaw + xoffset),
            r matches Some(set) ==> set == normalizable(toward),
            final(self).state() == try_rotated(
                old(self).state(),
                xoffset as int,
                yoffset as int,
                toward,
            ),
            final(self).wf(),
    {
        if self.turn_angles(xoffset, yoffset) {
            Some(self.aim(toward))
        } else {
            None
        }
    }

    /// Turns the two angles and leaves the line of sight for the caller to
    /// set: the first half of a turn.
    pub(crate) fn turn_angles(&mut self, xoffset: i64, yoffset: i64) -> (turned: bool)
        requires
            old(self).wf(),
        ensures
            turned == fits_i64(old(self).state().yaw + xoffset),
            final(self).state() == try_angles_turned(
                old(self).state(),
                xoffset as int,
                yoffset as int,
            ),
            final(self).wf(),
    {
        match self.state.yaw.checked_add(xoffset) {
            Some(yaw) => {
                self.state.yaw = yaw;
                self.state.pitch = clamped_sum(self.state.pitch, yoffset, PITCH_MIN, PITCH_MAX);
                true
            },
            None => false,
        }
    }

    /// Points the line of sight along `toward`, scaled to unit length, and
    /// says whether it did: a vector that cannot be scaled to unit length
    /// leaves the camera as it is. The second half of a turn.
    pub(crate) fn aim(&mut self, toward: Vec3) -> (set: bool)
        requires
            old(self).wf(),
        ensures
            set == normalizable(toward),
            final(self).state() == aimed(old(self).state(), toward),
            final(self).wf(),
    {
        match toward.normalized() {
            Some(front) => {
                self.state.front = front;
                true
            },
            None => false,
        }
    }

    /// As `view`, for any camera: the look-at frame if the point one unit
    /// ahead is representable, and nothing if it is not.
    pub fn try_view(&self) -> (r: Option<ViewFrame>)
        requires
            self.wf(),
        ensures
            r is Some <==> can_view(self.state()),
            r matches Some(frame) ==> frame == view_frame(self.state()),
    {
        let p = self.state.position;
        let f = self.state.front;
        match (p.x.checked_add(f.x), p.y.checked_add(f.y), p.z.checked_add(f.z)) {
            (Some(x), Some(y), Some(z)) => Some(
                ViewFrame { eye: p, target: Vec3 { x, y, z }, up: Vec3 { x: 0, y: SCALE, z: 0 } },
            ),
            _ => None,
        }
    }

    /// What the look-at transform is built from: the position, the point one
    /// unit ahead along the line of sight, and the upward direction.
    pub fn view(&self) -> (frame: ViewFrame)
        requires
            self.wf(),
            can_view(self.state()),
        ensures
            frame == view_frame(self.state()),
    {
        let p = self.state.position;
        let f = self.state.front;
        ViewFrame {
            eye: p,
            target: Vec3 { x: p.x + f.x, y: p.y + f.y, z: p.z + f.z },
            up: Vec3 { x: 0, y: SCALE, z: 0 },
        }
    }
}

/// `p` moved by `speed` along `dir`, if that is representable.
fn displace_checked(p: Vec3, dir: Vec3, speed: i64) -> (r: Option<Vec3>)
    ensures
        r is Some <==> can_displace(p, dir, speed as int),
        r matches Some(v) ==> v == displaced(p, dir, speed as int),
{
    let x: i128 = p.x as i128 + multiply_scaled(speed, dir.x);
    let y: i128 = p.y as i128 + multiply_scaled(speed, dir.y);
    let z: i128 = p.z as i128 + multiply_scaled(speed, dir.z);
    let low: i128 = i64::MIN as i128;
    let high: i128 = i64::MAX as i128;
    if low <= x && x <= high && low <= y && y <= high && low <= z && z <= high {
        Some(Vec3 { x: x as i64, y: y as i64, z: z as i64 })
    } else {
        None
    }
}

/// State after a series of turns, made one after another with
/// `try_rotate`: each is given by its two offsets and by the direction that
/// the line of sight is pointed along.
pub open spec fn after_turns(s: CameraState, turns: Seq<(int, int, Vec3)>) -> CameraState
    decreases turns.len(),
{
    if turns.len() == 0 {
        s
    } else {
        after_turns(try_rotated(s, turns[0].0, turns[0].1, turns[0].2), turns.drop_first())
    }
}

/// State after a series of zooms, made one after another.
pub open spec fn after_zooms(s: CameraState, speeds: Seq<int>) -> CameraState
    decreases speeds.len(),
{
    if speeds.len() == 0 {
        s
    } else {
        after_zooms(zoomed(s, speeds[0]), speeds.drop_first())
    }
}

/// However often and by whatever amounts the camera is turned, whatever its
/// yaw and whatever direction it is pointed along, its pitch stays between
/// -89 and 89 degrees, its line of sight stays of unit length, and its
/// position and its field of view stay as they were.
pub proof fn lemma_turns_keep_camera_valid(s: CameraState, turns: Seq<(int, int, Vec3)>)
    requires
        valid_state(s),
    ensures
        valid_state(after_turns(s, turns)),
        after_turns(s, turns).field_of_view == s.field_of_view,
        after_turns(s, turns).position == s.position,
    decreases turns.len(),
{
    if turns.len() > 0 {
        let next = try_rotated(s, turns[0].0, turns[0].1, turns[0].2);
        if normalizable(turns[0].2) {
            lemma_unit_vector_is_unit(turns[0].2);
        }
        lemma_turns_keep_camera_valid(next, turns.drop_first());
    }
}

/// A turn leaves the camera looking where it is told to. After `rotate`
/// the yaw is the old yaw and `xoffset`, the pitch is the old pitch and
/// `yoffset` within its limits, and where `toward` is a vector whose length
/// is within `k` counts of one unit, as the direction of the new angles
/// rounded to whole counts is with `k` at most 1, each component of the
/// line of sight is within `k + 1` counts of the component of `toward`.
pub proof fn lemma_rotate_looks_where_told(
    s: CameraState,
    xoffset: int,
    yoffset: int,
    toward: Vec3,
    k: int,
)
    requires
        valid_state(s),
        fits_i64(s.yaw + xoffset),
        0 <= k < SCALE,
        (SCALE - k) * (SCALE - k) <= norm_squared(toward) <= (SCALE + k) * (SCALE + k),
    ensures
        rotated(s, xoffset, yoffset, toward).yaw == s.yaw + xoffset,
        rotated(s, xoffset, yoffset, toward).pitch == turned_pitch(s.pitch as int, yoffset),
        rotated(s, xoffset, yoffset, toward).position == s.position,
        rotated(s, xoffset, yoffset, toward).field_of_view == s.field_of_view,
        valid_state(rotated(s, xoffset, yoffset, toward)),
        -(k + 1) <= rotated(s, xoffset, yoffset, toward).front.x - toward.x <= k + 1,
        -(k + 1) <= rotated(s, xoffset, yoffset, toward).front.y - toward.y <= k + 1,
        -(k + 1) <= rotated(s, xoffset, yoffset, toward).front.z - toward.z <= k + 1,
{
    lemma_unit_of_changes_little(toward, k);
}

/// Limiting the pitch is stable: a pitch that has been limited is not
/// changed by limiting it again.
pub proof fn lemma_pitch_limit_is_stable(pitch: int, delta: int)
    ensures
        PITCH_MIN <= turned_pitch(pitch, delta) <= PITCH_MAX,
        turned_pitch(turned_pitch(pitch, delta), 0) == turned_pitch(pitch, delta),
{
}

/// However often and by whatever amounts the camera zooms, its field of view
/// stays between 1 and 45 degrees, and nothing else about it changes.
pub proof fn lemma_zooms_keep_camera_valid(s: CameraState, speeds: Seq<int>)
    requires
        valid_state(s),
    ensures
        valid_state(after_zooms(s, speeds)),
        after_zooms(s, speeds) == (CameraState {
            field_of_view: after_zooms(s, speeds).field_of_view,
            ..s
        }),
    decreases speeds.len(),
{
    if speeds.len() > 0 {
        lemma_zooms_keep_camera_valid(zoomed(s, speeds[0]), speeds.drop_first());
    }
}

/// Zooming by nothing changes nothing.
pub proof fn lemma_zoom_by_nothing(s: CameraState)
    requires
        valid_state(s),
    ensures
        zoomed(s, 0) == s,
{
}

/// Rounding toward zero is the same in both directions: the product with a
/// negated factor is the negated product.
pub proof fn lemma_scaled_product_is_odd(a: int, b: int)
    ensures
        scaled_product(-a, b) == -scaled_product(a, b),
{
    assert((-a) * b == -(a * b)) by (nonlinear_arith);
    if a * b == 0 {
        assert(0int / (SCALE as int) == 0);
    }
}

/// Moving backward undoes moving forward: a move by `speed` followed by a
/// move by `-speed` brings the camera back to where it was.
pub proof fn lemma_backward_undoes_forward(s: CameraState, speed: int)
    requires
        can_displace(s.position, s.front, speed),
    ensures
        can_displace(moved_forward(s, speed).position, s.front, -speed),
        moved_forward(moved_forward(s, speed), -speed) == s,
{
    lemma_scaled_product_is_odd(speed, s.front.x as int);
    lemma_scaled_product_is_odd(speed, s.front.y as int);
    lemma_scaled_product_is_odd(speed, s.front.z as int);
}

/// The look-at frame is one that a look-at transform can be built from. The
/// eye is the camera's position; the target lies exactly one line of sight
/// ahead of it, so that the two differ; and unless the camera looks straight
/// up or down, the line of sight is not along the upward direction: their
/// cross product is not zero.
pub proof fn lemma_view_frame_is_consistent(s: CameraState)
    requires
        valid_state(s),
        can_view(s),
    ensures
        view_frame(s).eye == s.position,
        view_frame(s).up == up_vector(),
        view_frame(s).target.x - view_frame(s).eye.x == s.front.x,
        view_frame(s).target.y - view_frame(s).eye.y == s.front.y,
        view_frame(s).target.z - view_frame(s).eye.z == s.front.z,
        view_frame(s).target != view_frame(s).eye,
        has_right(s.front) ==> normalizable(sideways(s.front)),
{
    let (fx, fy, fz) = (s.front.x as int, s.front.y as int, s.front.z as int);
    lemma_unit_components_bounded(s.front);
    assert((SCALE - UNIT_TOLERANCE) * (SCALE - UNIT_TOLERANCE) == 999_990 * 999_990);
    if fx == 0 && fy == 0 && fz == 0 {
        assert(fx * fx + fy * fy + fz * fz == 0) by (nonlinear_arith)
            requires
                fx == 0,
                fy == 0,
                fz == 0,
        ;
    }
    lemma_sideways(s.front);
}

/// Rounding toward zero loses less than the divisor.
pub proof fn lemma_trunc_div_error(n: int, d: int)
    requires
        d > 0,
    ensures
        -d < trunc_div(n, d) * d - n < d,
{
    if n >= 0 {
        let q = n / d;
        assert(q * d <= n < q * d + d) by (nonlinear_arith)
            requires
                q == n / d,
                d > 0,
        ;
    } else {
        let k = (-n) / d;
        assert(k * d <= -n < k * d + d) by (nonlinear_arith)
            requires
                k == (-n) / d,
                d > 0,
        ;
        assert((-k) * d == -(k * d)) by (nonlinear_arith);
    }
}

/// Scaling to unit length keeps the direction. With `l` the length of `v`
/// carried to six further digits, each component of `unit_of(v)` is the
/// component of `v` times `SCALE * SCALE / l`, less than one count off: so
/// a camera turned toward `v` looks along `v`, to within a millionth in
/// each component.
pub proof fn lemma_unit_of_keeps_direction(v: Vec3)
    requires
        normalizable(v),
    ensures
        is_unit(unit_of(v)),
        extended_length(v) >= SCALE,
        -extended_length(v) < unit_of(v).x * extended_length(v) - v.x * (SCALE * SCALE)
            < extended_length(v),
        -extended_length(v) < unit_of(v).y * extended_length(v) - v.y * (SCALE * SCALE)
            < extended_length(v),
        -extended_length(v) < unit_of(v).z * extended_length(v) - v.z * (SCALE * SCALE)
            < extended_length(v),
{
    lemma_unit_vector_is_unit(v);
    let l = extended_length(v);
    lemma_trunc_div_error(v.x * (SCALE * SCALE), l);
    lemma_trunc_div_error(v.y * (SCALE * SCALE), l);
    lemma_trunc_div_error(v.z * (SCALE * SCALE), l);
}

/// A product is at most as large as a bound on one factor times the
/// magnitude of the other.
proof fn lemma_product_magnitude(e: int, f: int, bound: int)
    requires
        -bound <= e <= bound,
    ensures
        -(bound * magnitude(f)) <= e * f <= bound * magnitude(f),
{
    if f >= 0 {
        assert(-(bound * f) <= e * f <= bound * f) by (nonlinear_arith)
            requires
                -bound <= e <= bound,
                f >= 0,
        ;
    } else {
        assert(-(bound * (-f)) <= e * f <= bound * (-f)) by (nonlinear_arith)
            requires
                -bound <= e <= bound,
                f < 0,
        ;
    }
}

/// A step to the right is at right angles to the upward direction and to the
/// line of sight. With `d` the displacement of `move_right` by `speed`: the
/// inner product of `d` and the upward direction is exactly zero, and the
/// inner product of `d` and the line of sight is zero up to rounding, at most
/// `(|speed| + SCALE) * (|front.x| + |front.z|) / SCALE` in magnitude, which
/// is a few millionths of the length of the step.
pub proof fn lemma_right_step_is_perpendicular(front: Vec3, speed: int)
    requires
        is_unit(front),
        has_right(front),
    ensures
        ({
            let right = right_of(front);
            let dx = scaled_product(speed, right.x as int);
            let dy = scaled_product(speed, right.y as int);
            let dz = scaled_product(speed, right.z as int);
            &&& is_unit(right)
            &&& dx * up_vector().x + dy * up_vector().y + dz * up_vector().z == 0
            &&& magnitude(dx * front.x + dy * front.y + dz * front.z) * SCALE <= (magnitude(speed)
                + SCALE) * (magnitude(front.x as int) + magnitude(front.z as int))
        }),
{
    let s: int = 1_000_000;
    let t: int = 1_000_000_000_000;
    let (fx, fy, fz) = (front.x as int, front.y as int, front.z as int);
    lemma_sideways(front);
    let side = sideways(front);
    assert(normalizable(side));
    lemma_unit_vector_is_unit(side);
    let l = extended_length(side);
    let right = right_of(front);
    assert(SCALE * SCALE == t) by (nonlinear_arith)
        requires
            SCALE == 1_000_000,
            t == 1_000_000_000_000,
    ;
    let (rx, ry, rz) = (right.x as int, right.y as int, right.z as int);
    let nx = side.x * t;
    let nz = side.z * t;
    assert(rx == trunc_div(nx, l));
    assert(rz == trunc_div(nz, l));
    assert(ry == 0) by {
        assert(side.y * t == 0) by (nonlinear_arith)
            requires
                side.y == 0,
        ;
        assert(0int / l == 0) by (nonlinear_arith)
            requires
                l > 0,
        ;
    }
    // the unit vector is at right angles to the line of sight, up to rounding
    lemma_trunc_div_error(nx, l);
    lemma_trunc_div_error(nz, l);
    let e1 = rx * l - nx;
    let e2 = rz * l - nz;
    let a = magnitude(fx) + magnitude(fz);
    let along = rx * fx + rz * fz;
    assert(nx * fx + nz * fz == 0) by (nonlinear_arith)
        requires
            nx == (-(fz * s)) * t,
            nz == (fx * s) * t,
    ;
    assert(along * l == e1 * fx + e2 * fz) by (nonlinear_arith)
        requires
            along == rx * fx + rz * fz,
            e1 == rx * l - nx,
            e2 == rz * l - nz,
            nx * fx + nz * fz == 0,
    ;
    lemma_product_magnitude(e1, fx, l);
    lemma_product_magnitude(e2, fz, l);
    assert(l * magnitude(fx) + l * magnitude(fz) == l * a) by (nonlinear_arith)
        requires
            a == magnitude(fx) + magnitude(fz),
    ;
    assert(-a <= along <= a) by (nonlinear_arith)
        requires
            -(l * a) <= along * l <= l * a,
            l > 0,
    ;
    // so is the step
    let dx = scaled_product(speed, rx);
    let dy = scaled_product(speed, ry);
    let dz = scaled_product(speed, rz);
    assert(dy == 0) by {
        assert(speed * ry == 0) by (nonlinear_arith)
            requires
                ry == 0,
        ;
    }
    assert(dx * up_vector().x + dy * up_vector().y + dz * up_vector().z == 0) by {
        assert(dx * 0 + 0 * SCALE + dz * 0 == 0) by (nonlinear_arith);
    }
    lemma_trunc_div_error(speed * rx, s);
    lemma_trunc_div_error(speed * rz, s);
    let g1 = dx * s - speed * rx;
    let g2 = dz * s - speed * rz;
    let step = dx * fx + dy * fy + dz * fz;
    assert(dy * fy == 0) by (nonlinear_arith)
        requires
            dy == 0,
    ;
    assert(step * s == (dx * s) * fx + (dz * s) * fz) by (nonlinear_arith)
        requires
            step == dx * fx + dz * fz,
    ;
    assert((dx * s) * fx == g1 * fx + (speed * rx) * fx) by (nonlinear_arith)
        requires
            g1 == dx * s - speed * rx,
    ;
    assert((dz * s) * fz == g2 * fz + (speed * rz) * fz) by (nonlinear_arith)
        requires
            g2 == dz * s - speed * rz,
    ;
    assert(speed * along == (speed * rx) * fx + (speed * rz) * fz) by (nonlinear_arith)
        requires
            along == rx * fx + rz * fz,
    ;
    assert(step * s == speed * along + (g1 * fx + g2 * fz));
    lemma_product_magnitude(g1, fx, s);
    lemma_product_magnitude(g2, fz, s);
    lemma_product_magnitude(along, speed, a);
    assert(speed * along == along * speed) by (nonlinear_arith);
    assert(s * magnitude(fx) + s * magnitude(fz) == s * a) by (nonlinear_arith)
        requires
            a == magnitude(fx) + magnitude(fz),
    ;
    let m = magnitude(speed);
    assert(a * m + s * a == (m + s) * a) by (nonlinear_arith);
    assert(-((m + s) * a) <= step * s <= (m + s) * a);
    if step >= 0 {
        assert(magnitude(step) * s == step * s);
    } else {
        assert(magnitude(step) * s == -(step * s)) by (nonlinear_arith)
            requires
                magnitude(step) == -step,
        ;
    }
}

/// Every step to the right is at right angles to the upward direction and,
/// up to rounding, to the line of sight: for every camera within its
/// limits and every `speed`, whether `try_move_right` moves the camera or
/// leaves it, the displacement `d` has an inner product of exactly zero
/// with the upward direction, and one of at most
/// `(|speed| + SCALE) * (|front.x| + |front.z|) / SCALE` in magnitude with
/// the line of sight.
pub proof fn lemma_every_right_step_is_perpendicular(s: CameraState, speed: int)
    requires
        valid_state(s),
    ensures
        ({
            let dx = try_right(s, speed).position.x - s.position.x;
            let dy = try_right(s, speed).position.y - s.position.y;
            let dz = try_right(s, speed).position.z - s.position.z;
            &&& try_right(s, speed).front == s.front
            &&& dx * up_vector().x + dy * up_vector().y + dz * up_vector().z == 0
            &&& magnitude(dx * s.front.x + dy * s.front.y + dz * s.front.z) * SCALE <= (magnitude(
                speed,
            ) + SCALE) * (magnitude(s.front.x as int) + magnitude(s.front.z as int))
        }),
{
    let a = magnitude(s.front.x as int) + magnitude(s.front.z as int);
    let m = magnitude(speed) + SCALE;
    assert(0 <= m * a) by (nonlinear_arith)
        requires
            m >= 0,
            a >= 0,
    ;
    if has_right(s.front) && can_move_right(s, speed) {
        lemma_right_step_is_perpendicular(s.front, speed);
    } else {
        assert(0 * s.front.x + 0 * s.front.y + 0 * s.front.z == 0) by (nonlinear_arith);
        assert(0 * up_vector().x + 0 * up_vector().y + 0 * up_vector().z == 0)
            by (nonlinear_arith);
    }
}

} // verus!
