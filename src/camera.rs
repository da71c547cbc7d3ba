use vstd::prelude::*;
use crate::geometry::{Cube, Double, Triple};
use crate::generation::{
    chunk_of_spec, generate_cubes, is_pure_sampler, is_total_sampler, is_visible_set, CHUNK_SPAN,
    POS_LIMIT,
};

verus! {

/// A held control of the camera.
#[derive(Clone, Copy, Debug, PartialEq, Eq, Structural)]
pub enum Control {
    /// Move along the facing direction.
    Forward,
    /// Strafe left.
    Left,
    /// Move against the facing direction.
    Back,
    /// Strafe right.
    Right,
    /// Pitch up (the pitch decreases).
    LookUp,
    /// Pitch down (the pitch increases).
    LookDown,
    /// Turn left (the yaw decreases).
    TurnLeft,
    /// Turn right (the yaw increases).
    TurnRight,
}

/// The slot of a control among the camera's held keys.
pub open spec fn slot(c: Control) -> int {
    match c {
        Control::Forward => 0,
        Control::Left => 1,
        Control::Back => 2,
        Control::Right => 3,
        Control::LookUp => 4,
        Control::LookDown => 5,
        Control::TurnLeft => 6,
        Control::TurnRight => 7,
    }
}

fn slot_of(c: Control) -> (r: usize)
    ensures
        r == slot(c),
{
    match c {
        Control::Forward => 0,
        Control::Left => 1,
        Control::Back => 2,
        Control::Right => 3,
        Control::LookUp => 4,
        Control::LookDown => 5,
        Control::TurnLeft => 6,
        Control::TurnRight => 7,
    }
}

/// Largest magnitude of the pitch, in hundredths of a radian.
pub const PITCH_LIMIT: i64 = 150;

/// 2π in hundredths of a radian, scaled by `YAW_SCALE`.
pub const YAW_PERIOD_SCALED: u128 = 6_283_185_307_179_586;

/// The scale of `YAW_PERIOD_SCALED`.
pub const YAW_SCALE: u128 = 10_000_000_000_000;

/// Largest magnitude of a per-frame step or turn, in hundredths.
pub const STEP_LIMIT: i64 = 1_000_000_000_000;

/// Largest magnitude of an angle, in hundredths of a radian.
pub const ANGLE_LIMIT: i64 = 1_000_000_000_000;

/// The camera: position, pitch (`rot.x`) and yaw (`rot.y`), the planar displacement since the
/// terrain was last generated (`disp.x` along x, `disp.y` along z), and the held controls.
/// Position and displacement are in hundredths of a world unit, angles in hundredths of a
/// radian: the camera is kept at two decimals.
#[derive(Clone, Copy, Debug)]
pub struct Cam {
    pub pos: Triple,
    pub rot: Double,
    pub disp: Double,
    pub keys: [bool; 8],
}

pub open spec fn abs(v: int) -> int {
    if v < 0 {
        -v
    } else {
        v
    }
}

pub open spec fn held(c: Cam, k: Control) -> int {
    if c.keys@[slot(k)] {
        1
    } else {
        0
    }
}

/// The yaw `v` wrapped by the remainder of a truncating division by 2π (its sign follows
/// `v`), then rounded to hundredths, halves away from zero.
pub open spec fn wrap_yaw(v: int) -> int {
    let r = (abs(v) * YAW_SCALE) % (YAW_PERIOD_SCALED as int);
    let m = (r + YAW_SCALE / 2) / (YAW_SCALE as int);
    if v < 0 {
        -m
    } else {
        m
    }
}

pub open spec fn clamp_pitch(v: int) -> int {
    if v < -PITCH_LIMIT {
        -PITCH_LIMIT as int
    } else if v > PITCH_LIMIT {
        PITCH_LIMIT as int
    } else {
        v
    }
}

/// How far one input step moves the camera along x, given `step`: the movement of one step
/// forward, `step.x` along x and `step.y` along z.
pub open spec fn move_x(c: Cam, step: Double) -> int {
    (held(c, Control::Forward) - held(c, Control::Back)) * step.x + (held(c, Control::Right)
        - held(c, Control::Left)) * step.y
}

/// How far one input step moves the camera along z.
pub open spec fn move_z(c: Cam, step: Double) -> int {
    (held(c, Control::Forward) - held(c, Control::Back)) * step.y - (held(c, Control::Right)
        - held(c, Control::Left)) * step.x
}

pub open spec fn new_pitch(c: Cam, turn: int) -> int {
    clamp_pitch(c.rot.x + (held(c, Control::LookDown) - held(c, Control::LookUp)) * turn)
}

pub open spec fn new_yaw(c: Cam, turn: int) -> int {
    wrap_yaw(c.rot.y + (held(c, Control::TurnRight) - held(c, Control::TurnLeft)) * turn)
}

/// One input step keeps the camera within the machine's range.
pub open spec fn step_fits(c: Cam, step: Double, turn: int) -> bool {
    &&& abs(step.x as int) <= STEP_LIMIT && abs(step.y as int) <= STEP_LIMIT
    &&& abs(turn) <= STEP_LIMIT
    &&& abs(c.rot.x as int) <= ANGLE_LIMIT && abs(c.rot.y as int) <= ANGLE_LIMIT
    &&& abs(c.pos.x + move_x(c, step)) <= POS_LIMIT
    &&& abs(c.pos.z + move_z(c, step)) <= POS_LIMIT
    &&& abs(c.disp.x + move_x(c, step)) <= POS_LIMIT
    &&& abs(c.disp.y + move_z(c, step)) <= POS_LIMIT
    &&& abs(c.pos.x as int) <= POS_LIMIT && abs(c.pos.z as int) <= POS_LIMIT
    &&& abs(c.disp.x as int) <= POS_LIMIT && abs(c.disp.y as int) <= POS_LIMIT
}

/// The camera has moved more than a chunk's side along x or z since the terrain was generated.
pub open spec fn needs_regeneration(c: Cam) -> bool {
    abs(c.disp.x as int) > CHUNK_SPAN || abs(c.disp.y as int) > CHUNK_SPAN
}

fn held_sign(c: &Cam, plus: Control, minus: Control) -> (r: i64)
    ensures
        r == held(*c, plus) - held(*c, minus),
        -1 <= r <= 1,
{
    let p: i64 = if c.keys[slot_of(plus)] {
        1
    } else {
        0
    };
    let m: i64 = if c.keys[slot_of(minus)] {
        1
    } else {
        0
    };
    p - m
}

fn wrap_yaw_exec(v: i64) -> (r: i64)
    requires
        abs(v as int) <= 2 * ANGLE_LIMIT,
    ensures
        r == wrap_yaw(v as int),
{
    let a: u128 = if v < 0 {
        (-v) as u128
    } else {
        v as u128
    };
    let r = (a * YAW_SCALE) % YAW_PERIOD_SCALED;
    let m = (r + YAW_SCALE / 2) / YAW_SCALE;
    assert(m <= 1000) by {
        assert(r < YAW_PERIOD_SCALED);
    }
    if v < 0 {
        -(m as i64)
    } else {
        m as i64
    }
}

proof fn lemma_unit_product(s: int, v: int)
    requires
        -1 <= s <= 1,
    ensures
        abs(s * v) <= abs(v),
{
    if s == 0 {
        assert(s * v == 0);
    } else if s == 1 {
        assert(s * v == v);
    } else {
        assert(s == -1);
        assert(s * v == -v) by (nonlinear_arith)
            requires
                s == -1,
        ;
    }
}

impl Cam {
    /// A camera at `pos`, level, facing +z, with nothing held and nothing displaced.
    pub fn new(pos: Triple) -> (c: Cam)
        ensures
            c.pos == pos,
            c.rot == (Double { x: 0, y: 0 }),
            c.disp == (Double { x: 0, y: 0 }),
            forall|i: int| 0 <= i < 8 ==> !#[trigger] c.keys@[i],
    {
        Cam { pos, rot: Double { x: 0, y: 0 }, disp: Double { x: 0, y: 0 }, keys: [false; 8] }
    }

    /// Marks a control as held.
    pub fn press(&mut self, k: Control)
        ensures
            final(self).keys@ == old(self).keys@.update(slot(k), true),
            final(self).pos == old(self).pos,
            final(self).rot == old(self).rot,
            final(self).disp == old(self).disp,
    {
        let i = slot_of(k);
        self.keys[i] = true;
    }

    /// Marks a control as released.
    pub fn release(&mut self, k: Control)
        ensures
            final(self).keys@ == old(self).keys@.update(slot(k), false),
            final(self).pos == old(self).pos,
            final(self).rot == old(self).rot,
            final(self).disp == old(self).disp,
    {
        let i = slot_of(k);
        self.keys[i] = false;
    }

    /// Integrates one input step. `step` is the movement of one step forward in hundredths
    /// (`step.x` along x, `step.y` along z: the facing direction scaled by the step length), and
    /// `turn` the angle of one step of looking, in hundredths of a radian. The held controls move
    /// the camera and its displacement alike, forward and back along `step`, left and right across
    /// it; they turn it, the pitch clamped to `PITCH_LIMIT` and the yaw wrapped by 2π.
    pub fn advance(&mut self, step: Double, turn: i64)
        requires
            step_fits(*old(self), step, turn as int),
        ensures
            final(self).pos.x == old(self).pos.x + move_x(*old(self), step),
            final(self).pos.y == old(self).pos.y,
            final(self).pos.z == old(self).pos.z + move_z(*old(self), step),
            final(self).disp.x == old(self).disp.x + move_x(*old(self), step),
            final(self).disp.y == old(self).disp.y + move_z(*old(self), step),
            final(self).rot.x == new_pitch(*old(self), turn as int),
            final(self).rot.y == new_yaw(*old(self), turn as int),
            final(self).keys == old(self).keys,
    {
        let fwd = held_sign(self, Control::Forward, Control::Back);
        let side = held_sign(self, Control::Right, Control::Left);
        let pitch = held_sign(self, Control::LookDown, Control::LookUp);
        let yaw = held_sign(self, Control::TurnRight, Control::TurnLeft);
        proof {
            lemma_unit_product(fwd as int, step.x as int);
            lemma_unit_product(fwd as int, step.y as int);
            lemma_unit_product(side as int, step.x as int);
            lemma_unit_product(side as int, step.y as int);
            lemma_unit_product(pitch as int, turn as int);
            lemma_unit_product(yaw as int, turn as int);
        }
        let dx = fwd * step.x + side * step.y;
        let dz = fwd * step.y - side * step.x;
        self.pos.x = self.pos.x + dx;
        self.pos.z = self.pos.z + dz;
        self.disp.x = self.disp.x + dx;
        self.disp.y = self.disp.y + dz;
        let p = self.rot.x + pitch * turn;
        self.rot.x = if p < -PITCH_LIMIT {
            -PITCH_LIMIT
        } else if p > PITCH_LIMIT {
            PITCH_LIMIT
        } else {
            p
        };
        self.rot.y = wrap_yaw_exec(self.rot.y + yaw * turn);
    }

    /// Whether the camera has moved far enough for the terrain to be generated again.
    pub fn needs_regeneration(&self) -> (r: bool)
        ensures
            r == needs_regeneration(*self),
    {
        self.disp.x > CHUNK_SPAN || self.disp.x < -CHUNK_SPAN || self.disp.y > CHUNK_SPAN
            || self.disp.y < -CHUNK_SPAN
    }

    /// Generates the visible set around the camera anew, and resets the displacement, when the
    /// camera has moved more than a chunk's side along x or z; else changes nothing.
    pub fn refresh_terrain<F: Fn(i64, i64) -> u8>(&mut self, sample: &F) -> (r: Option<
        Vec<Cube>,
    >)
        requires
            -POS_LIMIT <= old(self).pos.x <= POS_LIMIT,
            -POS_LIMIT <= old(self).pos.z <= POS_LIMIT,
            is_total_sampler(*sample),
            is_pure_sampler(*sample),
        ensures
            r is Some <==> needs_regeneration(*old(self)),
            r matches Some(cubes) ==> is_visible_set(
                *sample,
                chunk_of_spec(old(self).pos.x as int),
                chunk_of_spec(old(self).pos.z as int),
                cubes@,
            ),
            r is Some ==> final(self).disp == (Double { x: 0, y: 0 }),
            r is None ==> final(self).disp == old(self).disp,
            final(self).pos == old(self).pos,
            final(self).rot == old(self).rot,
            final(self).keys == old(self).keys,
    {
        if self.needs_regeneration() {
            let cubes = generate_cubes(self.pos, sample);
            self.disp = Double { x: 0, y: 0 };
            Some(cubes)
        } else {
            None
        }
    }
}

/// The terrain is generated again exactly when the displacement along x or along z exceeds a
/// chunk's side, and once only: the displacement it resets to asks for nothing more.
pub proof fn lemma_regeneration_threshold(c: Cam)
    ensures
        needs_regeneration(c) <==> (abs(c.disp.x as int) > CHUNK_SPAN || abs(c.disp.y as int)
            > CHUNK_SPAN),
        abs(c.disp.x as int) <= CHUNK_SPAN && abs(c.disp.y as int) <= CHUNK_SPAN
            ==> !needs_regeneration(c),
        !needs_regeneration(Cam { disp: Double { x: 0, y: 0 }, ..c }),
{
}

} // verus!
