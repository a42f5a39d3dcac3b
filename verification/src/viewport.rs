//! The viewport state machine: pan offset, magnification and held keys, and
//! the transitions that a tick, a key, a zoom or a reset makes on them.
//!
//! Every transition is a function of the state and the event alone. One whose
//! result the state cannot hold (a pan offset beyond `OFFSET_LIMIT`, a zoom
//! level beyond `MAX_ZOOM_LEVEL`) leaves the state as it was and says so.
use crate::coordinate::{
    mapped, offset_in_range, same_quotient, MAX_MAGNIFICATION, OFFSET_LIMIT, UNITS_PER_PIXEL,
};
use crate::coordinate::PlanePoint;
use crate::frame::{is_frame, FrameTask, PixelColorEntry};
use vstd::arithmetic::power2::{lemma2_to64, lemma2_to64_rest, lemma_pow2_unfold, pow2};
use vstd::prelude::*;

verus! {

/// The deepest zoom: the magnification is two to the zoom level.
pub const MAX_ZOOM_LEVEL: u32 = 60;

/// The four directions of panning.
#[derive(Clone, Copy, Debug, PartialEq, Eq, Structural)]
pub enum Direction {
    Up,
    Left,
    Down,
    Right,
}

/// The keys that the viewer tells apart.
#[derive(Clone, Copy, Debug, PartialEq, Eq, Structural)]
pub enum Key {
    W,
    A,
    S,
    D,
    R,
    E,
    Q,
    Other,
}

/// What a key asks for.
#[derive(Clone, Copy, Debug, PartialEq, Eq, Structural)]
pub enum Command {
    Pan(Direction),
    Reset,
    ZoomIn,
    ZoomOut,
}

/// One pan key: whether it is held, and the velocity that it gives, in pixels
/// per second.
#[derive(Clone, Copy, Debug)]
pub struct MovementKeyData {
    pub is_down: bool,
    pub velocity: (i32, i32),
}

impl MovementKeyData {
    /// A key that is up, with the given velocity.
    pub fn new(x_velocity: i32, y_velocity: i32) -> (key: MovementKeyData)
        ensures
            !key.is_down,
            key.velocity == (x_velocity, y_velocity),
    {
        MovementKeyData { is_down: false, velocity: (x_velocity, y_velocity) }
    }

    /// What the key adds to the velocity of the viewport: its own velocity
    /// while it is held, nothing otherwise.
    pub open spec fn held_velocity(self) -> (int, int) {
        if self.is_down {
            (self.velocity.0 as int, self.velocity.1 as int)
        } else {
            (0, 0)
        }
    }
}

/// The command that a key is bound to.
pub open spec fn bound_command(key: Key) -> Option<Command> {
    match key {
        Key::W => Some(Command::Pan(Direction::Up)),
        Key::A => Some(Command::Pan(Direction::Left)),
        Key::S => Some(Command::Pan(Direction::Down)),
        Key::D => Some(Command::Pan(Direction::Right)),
        Key::R => Some(Command::Reset),
        Key::E => Some(Command::ZoomIn),
        Key::Q => Some(Command::ZoomOut),
        Key::Other => None,
    }
}

/// The command that a key is bound to, if any.
pub fn binding(key: Key) -> (command: Option<Command>)
    ensures
        command == bound_command(key),
{
    match key {
        Key::W => Some(Command::Pan(Direction::Up)),
        Key::A => Some(Command::Pan(Direction::Left)),
        Key::S => Some(Command::Pan(Direction::Down)),
        Key::D => Some(Command::Pan(Direction::Right)),
        Key::R => Some(Command::Reset),
        Key::E => Some(Command::ZoomIn),
        Key::Q => Some(Command::ZoomOut),
        Key::Other => None,
    }
}

/// The pan offset of one axis after a zoom about `cursor`: the pivot is
/// `(offset + cursor) / old_magnification * new_magnification`, and the new
/// offset puts the pivot at the middle of the axis. Offsets are in units,
/// `cursor` and `axis_extent` in pixels; the quotient is rounded down to a
/// whole unit.
pub open spec fn pivot_offset(
    offset: int,
    cursor: int,
    axis_extent: int,
    old_magnification: int,
    new_magnification: int,
) -> int {
    (offset + cursor * UNITS_PER_PIXEL) * new_magnification / old_magnification - axis_extent
        * UNITS_PER_PIXEL / 2
}

/// The viewport: what part of the complex plane is on screen, and which pan
/// keys are held.
#[derive(Clone, Copy, Debug)]
pub struct ViewportState {
    /// The extent of the screen, in pixels. It never changes.
    pub width: u32,
    pub height: u32,
    /// The translation of the screen, in units, before scaling.
    pub pan_offset: (i128, i128),
    /// The number of doublings that made the magnification.
    pub zoom_level: u32,
    pub magnification: u64,
    pub up: MovementKeyData,
    pub left: MovementKeyData,
    pub down: MovementKeyData,
    pub right: MovementKeyData,
    /// Whether the frame on screen is out of date.
    pub has_parameters_changed: bool,
}

impl ViewportState {
    /// The magnification is two to the zoom level, at least one, and both pan
    /// offsets are within the limit.
    pub open spec fn wf(self) -> bool {
        &&& offset_in_range(self.pan_offset.0 as int)
        &&& offset_in_range(self.pan_offset.1 as int)
        &&& self.zoom_level <= MAX_ZOOM_LEVEL
        &&& self.magnification == pow2(self.zoom_level as nat)
    }

    /// The state at startup, for a screen of the given extent.
    pub open spec fn initial(width: u32, height: u32) -> ViewportState {
        ViewportState {
            width,
            height,
            pan_offset: (0, 0),
            zoom_level: 0,
            magnification: 1,
            up: MovementKeyData { is_down: false, velocity: (0, -10i32) },
            left: MovementKeyData { is_down: false, velocity: (-10i32, 0) },
            down: MovementKeyData { is_down: false, velocity: (0, 10) },
            right: MovementKeyData { is_down: false, velocity: (10, 0) },
            has_parameters_changed: true,
        }
    }

    /// The key of a direction.
    pub open spec fn key(self, direction: Direction) -> MovementKeyData {
        match direction {
            Direction::Up => self.up,
            Direction::Left => self.left,
            Direction::Down => self.down,
            Direction::Right => self.right,
        }
    }

    /// The state with the key of `direction` down or up, and the frame out of
    /// date.
    pub open spec fn with_key(self, direction: Direction, is_down: bool) -> ViewportState {
        let key = MovementKeyData { is_down, velocity: self.key(direction).velocity };
        match direction {
            Direction::Up => ViewportState { up: key, has_parameters_changed: true, ..self },
            Direction::Left => ViewportState { left: key, has_parameters_changed: true, ..self },
            Direction::Down => ViewportState { down: key, has_parameters_changed: true, ..self },
            Direction::Right => ViewportState { right: key, has_parameters_changed: true, ..self },
        }
    }

    /// The sum of the velocities of the held keys, in pixels per second.
    pub open spec fn net_velocity(self) -> (int, int) {
        (
            self.up.held_velocity().0 + self.left.held_velocity().0 + self.down.held_velocity().0
                + self.right.held_velocity().0,
            self.up.held_velocity().1 + self.left.held_velocity().1 + self.down.held_velocity().1
                + self.right.held_velocity().1,
        )
    }

    /// The pan offset after `elapsed` nanoseconds at the velocity of the held
    /// keys.
    pub open spec fn tick_offset(self, elapsed: int) -> (int, int) {
        (
            self.pan_offset.0 + self.net_velocity().0 * elapsed,
            self.pan_offset.1 + self.net_velocity().1 * elapsed,
        )
    }

    /// Whether the state can hold the pan offset of a tick.
    pub open spec fn tick_fits(self, elapsed: int) -> bool {
        &&& offset_in_range(self.tick_offset(elapsed).0)
        &&& offset_in_range(self.tick_offset(elapsed).1)
    }

    /// The state after a tick of `elapsed` nanoseconds.
    pub open spec fn ticked(self, elapsed: int) -> ViewportState {
        ViewportState {
            pan_offset: (
                self.tick_offset(elapsed).0 as i128,
                self.tick_offset(elapsed).1 as i128,
            ),
            has_parameters_changed: true,
            ..self
        }
    }

    /// The state after a tick of `elapsed` nanoseconds, or the state itself
    /// where it cannot hold the result.
    pub open spec fn after_tick(self, elapsed: int) -> ViewportState {
        if self.tick_fits(elapsed) {
            self.ticked(elapsed)
        } else {
            self
        }
    }

    /// The pan offset after a zoom about `cursor` to `new_magnification`.
    pub open spec fn zoom_offset(self, cursor: (i32, i32), new_magnification: int) -> (int, int) {
        (
            pivot_offset(
                self.pan_offset.0 as int,
                cursor.0 as int,
                self.width as int,
                self.magnification as int,
                new_magnification,
            ),
            pivot_offset(
                self.pan_offset.1 as int,
                cursor.1 as int,
                self.height as int,
                self.magnification as int,
                new_magnification,
            ),
        )
    }

    /// Whether the state can hold the result of a zoom about `cursor` to
    /// `new_magnification`.
    pub open spec fn zoom_fits(self, cursor: (i32, i32), new_magnification: int) -> bool {
        &&& new_magnification <= MAX_MAGNIFICATION
        &&& offset_in_range(self.zoom_offset(cursor, new_magnification).0)
        &&& offset_in_range(self.zoom_offset(cursor, new_magnification).1)
    }

    /// The state after a zoom about `cursor` to a new zoom level and its
    /// magnification.
    pub open spec fn zoomed(
        self,
        cursor: (i32, i32),
        new_level: int,
        new_magnification: int,
    ) -> ViewportState {
        ViewportState {
            pan_offset: (
                self.zoom_offset(cursor, new_magnification).0 as i128,
                self.zoom_offset(cursor, new_magnification).1 as i128,
            ),
            zoom_level: new_level as u32,
            magnification: new_magnification as u64,
            has_parameters_changed: true,
            ..self
        }
    }

    /// The magnification after a zoom in: twice the magnification.
    pub open spec fn zoom_in_magnification(self) -> int {
        2 * self.magnification
    }

    /// The magnification after a zoom out: half the magnification, and never
    /// under one.
    pub open spec fn zoom_out_magnification(self) -> int {
        if self.magnification >= 2 {
            self.magnification as int / 2
        } else {
            1
        }
    }

    /// The zoom level after a zoom out.
    pub open spec fn zoom_out_level(self) -> int {
        if self.zoom_level >= 1 {
            self.zoom_level - 1
        } else {
            0
        }
    }

    /// The state after a reset: no pan, magnification one, the keys as they
    /// were.
    pub open spec fn reset_state(self) -> ViewportState {
        ViewportState {
            pan_offset: (0, 0),
            zoom_level: 0,
            magnification: 1,
            has_parameters_changed: true,
            ..self
        }
    }

    /// The state after a zoom in about `cursor`, or the state itself where it
    /// cannot hold the result.
    pub open spec fn after_zoom_in(self, cursor: (i32, i32)) -> ViewportState {
        if self.zoom_fits(cursor, self.zoom_in_magnification()) {
            self.zoomed(cursor, self.zoom_level + 1, self.zoom_in_magnification())
        } else {
            self
        }
    }

    /// The state after a zoom out about `cursor`, or the state itself where it
    /// cannot hold the result.
    pub open spec fn after_zoom_out(self, cursor: (i32, i32)) -> ViewportState {
        if self.zoom_fits(cursor, self.zoom_out_magnification()) {
            self.zoomed(cursor, self.zoom_out_level(), self.zoom_out_magnification())
        } else {
            self
        }
    }

    /// The state after the key-down event of `key` with the cursor at
    /// `cursor`.
    pub open spec fn after_key_down(
        self,
        key: Key,
        repeated: bool,
        cursor: (i32, i32),
    ) -> ViewportState {
        if repeated {
            self
        } else {
            match bound_command(key) {
                Some(Command::Pan(direction)) => self.with_key(direction, true),
                Some(Command::Reset) => self.reset_state(),
                Some(Command::ZoomIn) => self.after_zoom_in(cursor),
                Some(Command::ZoomOut) => self.after_zoom_out(cursor),
                None => self,
            }
        }
    }

    /// The state after the key-up event of `key`.
    pub open spec fn after_key_up(self, key: Key) -> ViewportState {
        match bound_command(key) {
            Some(Command::Pan(direction)) => self.with_key(direction, false),
            _ => self,
        }
    }

    /// The state after one zoom out about each of `cursors`, in their order.
    pub open spec fn after_zoom_outs(self, cursors: Seq<(i32, i32)>) -> ViewportState
        decreases cursors.len(),
    {
        if cursors.len() == 0 {
            self
        } else {
            self.after_zoom_outs(cursors.drop_last()).after_zoom_out(cursors.last())
        }
    }

    /// The parameters that a frame computed now would have.
    pub open spec fn task(self) -> FrameTask {
        FrameTask { pan_offset: self.pan_offset, magnification: self.magnification }
    }

    /// The state at startup: no pan, magnification one, all keys up, and a
    /// first frame due.
    pub fn initialize(width: u32, height: u32) -> (state: ViewportState)
        ensures
            state == ViewportState::initial(width, height),
            state.wf(),
    {
        proof {
            lemma2_to64();
        }
        ViewportState {
            width,
            height,
            pan_offset: (0, 0),
            zoom_level: 0,
            magnification: 1,
            up: MovementKeyData::new(0, -10),
            left: MovementKeyData::new(-10, 0),
            down: MovementKeyData::new(0, 10),
            right: MovementKeyData::new(10, 0),
            has_parameters_changed: true,
        }
    }

    /// Marks the key of `direction` as held.
    pub fn key_down(&mut self, direction: Direction)
        ensures
            *final(self) == old(self).with_key(direction, true),
            old(self).wf() ==> final(self).wf(),
    {
        match direction {
            Direction::Up => {
                self.up.is_down = true;
            },
            Direction::Left => {
                self.left.is_down = true;
            },
            Direction::Down => {
                self.down.is_down = true;
            },
            Direction::Right => {
                self.right.is_down = true;
            },
        }
        self.has_parameters_changed = true;
    }

    /// Marks the key of `direction` as released.
    pub fn key_up(&mut self, direction: Direction)
        ensures
            *final(self) == old(self).with_key(direction, false),
            old(self).wf() ==> final(self).wf(),
    {
        match direction {
            Direction::Up => {
                self.up.is_down = false;
            },
            Direction::Left => {
                self.left.is_down = false;
            },
            Direction::Down => {
                self.down.is_down = false;
            },
            Direction::Right => {
                self.right.is_down = false;
            },
        }
        self.has_parameters_changed = true;
    }

    /// Goes back to no pan and magnification one, whatever keys are held.
    pub fn reset(&mut self)
        ensures
            *final(self) == old(self).reset_state(),
            final(self).wf(),
    {
        proof {
            lemma2_to64();
        }
        self.pan_offset = (0, 0);
        self.zoom_level = 0;
        self.magnification = 1;
        self.has_parameters_changed = true;
    }

    /// Moves the pan offset by the velocity of the held keys times `elapsed`
    /// nanoseconds. Held keys add up. Returns whether the state could hold
    /// the new offset; where it could not, nothing changes.
    pub fn handle_tick(&mut self, elapsed: u64) -> (applied: bool)
        requires
            old(self).wf(),
        ensures
            applied == old(self).tick_fits(elapsed as int),
            *final(self) == old(self).after_tick(elapsed as int),
            final(self).wf(),
    {
        let up: (i64, i64) = held(&self.up);
        let left: (i64, i64) = held(&self.left);
        let down: (i64, i64) = held(&self.down);
        let right: (i64, i64) = held(&self.right);
        let x_velocity: i64 = up.0 + left.0 + down.0 + right.0;
        let y_velocity: i64 = up.1 + left.1 + down.1 + right.1;
        proof {
            lemma_step_bounds(x_velocity as int, elapsed as int);
            lemma_step_bounds(y_velocity as int, elapsed as int);
        }
        let x: i128 = self.pan_offset.0 + x_velocity as i128 * elapsed as i128;
        let y: i128 = self.pan_offset.1 + y_velocity as i128 * elapsed as i128;
        if in_range(x) && in_range(y) {
            self.pan_offset = (x, y);
            self.has_parameters_changed = true;
            true
        } else {
            false
        }
    }

    /// Doubles the magnification and moves the point under `cursor` to the
    /// middle of the screen. Returns whether the state could hold the result;
    /// where it could not, nothing changes.
    pub fn zoom_in(&mut self, cursor: (i32, i32)) -> (applied: bool)
        requires
            old(self).wf(),
        ensures
            applied == old(self).zoom_fits(cursor, old(self).zoom_in_magnification()),
            *final(self) == old(self).after_zoom_in(cursor),
            final(self).wf(),
    {
        proof {
            lemma_level_magnification(self.zoom_level as nat);
        }
        if self.zoom_level >= MAX_ZOOM_LEVEL {
            return false;
        }
        let x_pivot: i128 = self.pan_offset.0 + cursor.0 as i128 * UNITS_PER_PIXEL;
        let y_pivot: i128 = self.pan_offset.1 + cursor.1 as i128 * UNITS_PER_PIXEL;
        proof {
            lemma_pivot_doubled(x_pivot as int, self.magnification as int);
            lemma_pivot_doubled(y_pivot as int, self.magnification as int);
        }
        let x: i128 = 2 * x_pivot - self.width as i128 * UNITS_PER_PIXEL / 2;
        let y: i128 = 2 * y_pivot - self.height as i128 * UNITS_PER_PIXEL / 2;
        if in_range(x) && in_range(y) {
            self.pan_offset = (x, y);
            self.zoom_level = self.zoom_level + 1;
            self.magnification = 2 * self.magnification;
            self.has_parameters_changed = true;
            true
        } else {
            false
        }
    }

    /// Halves the magnification, but never to under one, and moves the point
    /// under `cursor` to the middle of the screen, also where the
    /// magnification stays at one. Returns whether the state could hold the
    /// result; where it could not, nothing changes.
    pub fn zoom_out(&mut self, cursor: (i32, i32)) -> (applied: bool)
        requires
            old(self).wf(),
        ensures
            applied == old(self).zoom_fits(cursor, old(self).zoom_out_magnification()),
            *final(self) == old(self).after_zoom_out(cursor),
            final(self).wf(),
            final(self).magnification >= 1,
    {
        proof {
            lemma_level_magnification(self.zoom_level as nat);
        }
        let x_pivot: i128 = self.pan_offset.0 + cursor.0 as i128 * UNITS_PER_PIXEL;
        let y_pivot: i128 = self.pan_offset.1 + cursor.1 as i128 * UNITS_PER_PIXEL;
        let halves: bool = self.zoom_level >= 1;
        proof {
            if halves {
                lemma_pivot_halved(x_pivot as int, self.magnification as int / 2);
                lemma_pivot_halved(y_pivot as int, self.magnification as int / 2);
            }
        }
        let x_scaled: i128 = if halves {
            half_floor(x_pivot)
        } else {
            x_pivot
        };
        let y_scaled: i128 = if halves {
            half_floor(y_pivot)
        } else {
            y_pivot
        };
        let x: i128 = x_scaled - self.width as i128 * UNITS_PER_PIXEL / 2;
        let y: i128 = y_scaled - self.height as i128 * UNITS_PER_PIXEL / 2;
        if in_range(x) && in_range(y) {
            self.pan_offset = (x, y);
            if halves {
                self.zoom_level = self.zoom_level - 1;
                self.magnification = self.magnification / 2;
            }
            self.has_parameters_changed = true;
            true
        } else {
            false
        }
    }

    /// Handles a key going down. A repeated event changes nothing; a pan key
    /// is marked as held; the other bound keys reset the viewport or zoom about
    /// `cursor`; an unbound key changes nothing.
    pub fn key_down_event(&mut self, key: Key, repeated: bool, cursor: (i32, i32))
        requires
            old(self).wf(),
        ensures
            *final(self) == old(self).after_key_down(key, repeated, cursor),
            final(self).wf(),
    {
        if repeated {
            return ;
        }
        match binding(key) {
            Some(Command::Pan(direction)) => {
                self.key_down(direction);
            },
            Some(Command::Reset) => {
                self.reset();
            },
            Some(Command::ZoomIn) => {
                let _ = self.zoom_in(cursor);
            },
            Some(Command::ZoomOut) => {
                let _ = self.zoom_out(cursor);
            },
            None => {},
        }
    }

    /// Handles a key going up: a pan key is marked as released, any other key
    /// changes nothing.
    pub fn key_up_event(&mut self, key: Key)
        requires
            old(self).wf(),
        ensures
            *final(self) == old(self).after_key_up(key),
            final(self).wf(),
    {
        match binding(key) {
            Some(Command::Pan(direction)) => {
                self.key_up(direction);
            },
            _ => {},
        }
    }

    /// The parameters that a frame computed now would have.
    pub fn frame_task(&self) -> (task: FrameTask)
        requires
            self.wf(),
        ensures
            task == self.task(),
            task.wf(),
    {
        proof {
            lemma_level_magnification(self.zoom_level as nat);
        }
        FrameTask { pan_offset: self.pan_offset, magnification: self.magnification }
    }

    /// Where the frame on screen is out of date, hands out the parameters of
    /// the frame to compute and takes the frame as up to date; otherwise hands
    /// out nothing.
    pub fn begin_frame(&mut self) -> (task: Option<FrameTask>)
        requires
            old(self).wf(),
        ensures
            task == if old(self).has_parameters_changed {
                Some(old(self).task())
            } else {
                None
            },
            *final(self) == (ViewportState { has_parameters_changed: false, ..*old(self) }),
            final(self).wf(),
            task is Some ==> task->0.wf(),
    {
        if self.has_parameters_changed {
            self.has_parameters_changed = false;
            Some(self.frame_task())
        } else {
            None
        }
    }
}

/// The velocity that a key adds while it is held.
fn held(key: &MovementKeyData) -> (velocity: (i64, i64))
    ensures
        velocity.0 == key.held_velocity().0,
        velocity.1 == key.held_velocity().1,
{
    if key.is_down {
        (key.velocity.0 as i64, key.velocity.1 as i64)
    } else {
        (0, 0)
    }
}

/// Whether the state can hold `offset`.
fn in_range(offset: i128) -> (fits: bool)
    ensures
        fits == offset_in_range(offset as int),
{
    -OFFSET_LIMIT <= offset && offset <= OFFSET_LIMIT
}

/// Half of `value`, rounded down.
fn half_floor(value: i128) -> (half: i128)
    requires
        value > i128::MIN + 1,
    ensures
        half == value as int / 2,
{
    if value >= 0 {
        value / 2
    } else {
        -((1 - value) / 2)
    }
}

/// The step of a tick is far from the end of the 128-bit range.
proof fn lemma_step_bounds(velocity: int, elapsed: int)
    requires
        -0x2_0000_0000 <= velocity <= 0x2_0000_0000,
        0 <= elapsed <= u64::MAX,
    ensures
        -0x2_0000_0000_0000_0000_0000_0000 <= velocity * elapsed
            <= 0x2_0000_0000_0000_0000_0000_0000,
{
    assert(-0x2_0000_0000 * 0x1_0000_0000_0000_0000 <= velocity * elapsed <= 0x2_0000_0000
        * 0x1_0000_0000_0000_0000) by (nonlinear_arith)
        requires
            -0x2_0000_0000 <= velocity <= 0x2_0000_0000,
            0 <= elapsed <= 0x1_0000_0000_0000_0000,
    ;
}

/// The magnification of a zoom level, and of its neighbours.
proof fn lemma_level_magnification(level: nat)
    requires
        level <= MAX_ZOOM_LEVEL,
    ensures
        1 <= pow2(level) <= MAX_MAGNIFICATION,
        pow2(level + 1) == 2 * pow2(level),
        level < MAX_ZOOM_LEVEL ==> 2 * pow2(level) <= MAX_MAGNIFICATION,
        level >= 1 ==> pow2(level) == 2 * pow2((level - 1) as nat),
        level == 0 ==> pow2(level) == 1,
        level == MAX_ZOOM_LEVEL ==> pow2(level) == MAX_MAGNIFICATION,
    decreases MAX_ZOOM_LEVEL - level,
{
    lemma2_to64();
    lemma2_to64_rest();
    lemma_pow2_unfold(level + 1);
    if level >= 1 {
        lemma_pow2_unfold(level);
    }
    if level < MAX_ZOOM_LEVEL {
        lemma_level_magnification(level + 1);
    }
}

/// Scaling a pivot from a magnification to its double doubles it.
proof fn lemma_pivot_doubled(pivot: int, magnification: int)
    requires
        magnification > 0,
    ensures
        pivot * (2 * magnification) / magnification == 2 * pivot,
{
    assert(pivot * (2 * magnification) == magnification * (2 * pivot)) by (nonlinear_arith);
    vstd::arithmetic::div_mod::lemma_div_multiples_vanish(2 * pivot, magnification);
}

/// Scaling a pivot from a magnification to its half halves it, rounding down.
proof fn lemma_pivot_halved(pivot: int, half: int)
    requires
        half > 0,
    ensures
        pivot * half / (2 * half) == pivot / 2,
{
    assert(pivot * half / (2 * half) == pivot / 2) by (nonlinear_arith)
        requires
            half > 0,
    {
        let q: int = pivot / 2;
        let r: int = pivot % 2;
        assert(pivot == 2 * q + r);
        assert(pivot * half == q * (2 * half) + r * half);
        assert(0 <= r * half < 2 * half);
        vstd::arithmetic::div_mod::lemma_fundamental_div_mod_converse(
            pivot * half,
            2 * half,
            q,
            r * half,
        );
    }
}

/// A zoom in moves the point of the complex plane that was under the cursor
/// to the middle of the screen, on a screen of even extent: the middle pixel
/// maps, after the zoom, to what the cursor pixel mapped to before it.
pub proof fn lemma_zoom_in_centres_cursor_point(state: ViewportState, cursor: (i32, i32))
    requires
        state.wf(),
        state.width % 2 == 0,
        state.height % 2 == 0,
        state.zoom_fits(cursor, state.zoom_in_magnification()),
    ensures
        same_quotient(
            mapped(
                state.width as int / 2,
                state.width as int,
                state.after_zoom_in(cursor).pan_offset.0 as int,
                state.after_zoom_in(cursor).magnification as int,
            ),
            mapped(
                cursor.0 as int,
                state.width as int,
                state.pan_offset.0 as int,
                state.magnification as int,
            ),
        ),
        same_quotient(
            mapped(
                state.height as int / 2,
                state.height as int,
                state.after_zoom_in(cursor).pan_offset.1 as int,
                state.after_zoom_in(cursor).magnification as int,
            ),
            mapped(
                cursor.1 as int,
                state.height as int,
                state.pan_offset.1 as int,
                state.magnification as int,
            ),
        ),
{
    lemma_level_magnification(state.zoom_level as nat);
    let magnification: int = state.magnification as int;
    lemma_doubled_axis(
        state.pan_offset.0 as int,
        cursor.0 as int,
        state.width as int,
        magnification,
    );
    lemma_doubled_axis(
        state.pan_offset.1 as int,
        cursor.1 as int,
        state.height as int,
        magnification,
    );
}

/// A zoom in with the cursor at the middle of the screen leaves the point
/// under the cursor where it is: the cursor pixel maps to the same point of
/// the complex plane before and after.
pub proof fn lemma_zoom_in_keeps_pivot(state: ViewportState, cursor: (i32, i32))
    requires
        state.wf(),
        2 * cursor.0 == state.width,
        2 * cursor.1 == state.height,
    ensures
        same_quotient(
            mapped(
                cursor.0 as int,
                state.width as int,
                state.after_zoom_in(cursor).pan_offset.0 as int,
                state.after_zoom_in(cursor).magnification as int,
            ),
            mapped(
                cursor.0 as int,
                state.width as int,
                state.pan_offset.0 as int,
                state.magnification as int,
            ),
        ),
        same_quotient(
            mapped(
                cursor.1 as int,
                state.height as int,
                state.after_zoom_in(cursor).pan_offset.1 as int,
                state.after_zoom_in(cursor).magnification as int,
            ),
            mapped(
                cursor.1 as int,
                state.height as int,
                state.pan_offset.1 as int,
                state.magnification as int,
            ),
        ),
{
    if state.zoom_fits(cursor, state.zoom_in_magnification()) {
        lemma_zoom_in_centres_cursor_point(state, cursor);
    }
}

/// A zoom out leaves a well-formed state well formed.
pub proof fn lemma_zoom_out_keeps_wf(state: ViewportState, cursor: (i32, i32))
    requires
        state.wf(),
    ensures
        state.after_zoom_out(cursor).wf(),
        state.after_zoom_out(cursor).magnification >= 1,
        state.magnification == 1 ==> state.after_zoom_out(cursor).magnification == 1,
{
    lemma_level_magnification(state.zoom_level as nat);
    lemma_level_magnification(state.zoom_out_level() as nat);
}

/// No run of zoom outs brings the magnification under one, and from
/// magnification one every run of zoom outs ends at magnification one.
pub proof fn lemma_zoom_outs_keep_floor(state: ViewportState, cursors: Seq<(i32, i32)>)
    requires
        state.wf(),
    ensures
        state.after_zoom_outs(cursors).wf(),
        state.after_zoom_outs(cursors).magnification >= 1,
        state.magnification == 1 ==> state.after_zoom_outs(cursors).magnification == 1,
    decreases cursors.len(),
{
    if cursors.len() == 0 {
        lemma_level_magnification(state.zoom_level as nat);
    } else {
        lemma_zoom_outs_keep_floor(state, cursors.drop_last());
        lemma_zoom_out_keeps_wf(state.after_zoom_outs(cursors.drop_last()), cursors.last());
    }
}

/// A reset brings back the frame of startup: the state after a reset has the
/// frame parameters of the initial state, so what is a frame of the one is a
/// frame of the other, whatever keys are held.
pub proof fn lemma_reset_restores_initial_frame<C, F: Fn(PlanePoint) -> C>(
    state: ViewportState,
    frame: Seq<PixelColorEntry<C>>,
    shade: F,
)
    ensures
        state.reset_state().task() == ViewportState::initial(state.width, state.height).task(),
        is_frame(
            frame,
            state.reset_state().task(),
            state.width as int,
            state.height as int,
            shade,
        ) <==> is_frame(
            frame,
            ViewportState::initial(state.width, state.height).task(),
            state.width as int,
            state.height as int,
            shade,
        ),
        state.reset_state().up == state.up,
        state.reset_state().left == state.left,
        state.reset_state().down == state.down,
        state.reset_state().right == state.right,
{
}

/// On an axis of even extent, the middle pixel at the offset and
/// magnification of a zoom in maps to twice the numerator over twice the
/// denominator of the cursor pixel before it.
proof fn lemma_doubled_axis(offset: int, cursor: int, axis_extent: int, magnification: int)
    requires
        axis_extent % 2 == 0,
        magnification > 0,
    ensures
        same_quotient(
            mapped(
                axis_extent / 2,
                axis_extent,
                pivot_offset(offset, cursor, axis_extent, magnification, 2 * magnification),
                2 * magnification,
            ),
            mapped(cursor, axis_extent, offset, magnification),
        ),
{
    let pivot: int = offset + cursor * UNITS_PER_PIXEL;
    lemma_pivot_doubled(pivot, magnification);
    let doubled: int = 2 * magnification;
    let offset_after: int = pivot_offset(offset, cursor, axis_extent, magnification, doubled);
    let half: int = axis_extent / 2;
    assert(axis_extent == 2 * half);
    assert(offset_after == 2 * pivot - half * UNITS_PER_PIXEL);
    let before = mapped(cursor, axis_extent, offset, magnification);
    let after = mapped(half, axis_extent, offset_after, doubled);
    assert(after.1 == 2 * before.1) by (nonlinear_arith)
        requires
            after.1 == axis_extent * UNITS_PER_PIXEL * (2 * magnification),
            before.1 == axis_extent * UNITS_PER_PIXEL * magnification,
    ;
    assert(after.0 == 2 * before.0);
    assert(after.0 * before.1 == before.0 * after.1) by (nonlinear_arith)
        requires
            after.0 == 2 * before.0,
            after.1 == 2 * before.1,
    ;
}

} // verus!
