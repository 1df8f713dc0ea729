use vstd::prelude::*;
use crate::consts::{ANGLE_360, PROJECTION_PLANE_HORIZON};
use crate::fp::floor_div_i64;

verus! {

/// The viewer: a position in world units, a facing angle and the screen row of the horizon.
#[derive(Clone, Copy, Debug, PartialEq, Eq, Structural)]
pub struct Camera {
    x: i32,
    y: i32,
    angle: i32,
    horizon: i32,
}

/// `angle` reduced into `[0, ANGLE_360)`.
pub open spec fn normalize_angle(angle: int) -> int {
    angle % (ANGLE_360 as int)
}

/// Reduces an angle into `[0, ANGLE_360)`.
pub fn wrap_angle(angle: i64) -> (r: i32)
    requires
        -0x100_0000_0000 <= angle <= 0x100_0000_0000,
    ensures
        r == normalize_angle(angle as int),
        0 <= r < ANGLE_360,
{
    let q: i64 = floor_div_i64(angle, ANGLE_360 as i64);
    proof {
        vstd::arithmetic::div_mod::lemma_fundamental_div_mod(angle as int, ANGLE_360 as int);
        vstd::arithmetic::div_mod::lemma_div_is_ordered(angle as int, 0x100_0000_0000, ANGLE_360 as int);
        vstd::arithmetic::div_mod::lemma_div_is_ordered(-0x100_0000_0000, angle as int, ANGLE_360 as int);
    }
    (angle - q * (ANGLE_360 as i64)) as i32
}

impl Camera {
    pub closed spec fn spec_x(&self) -> int {
        self.x as int
    }

    pub closed spec fn spec_y(&self) -> int {
        self.y as int
    }

    pub closed spec fn spec_angle(&self) -> int {
        self.angle as int
    }

    pub closed spec fn spec_horizon(&self) -> int {
        self.horizon as int
    }

    pub fn new(x: i32, y: i32, angle: i32, horizon: i32) -> (r: Camera)
        ensures
            r.spec_x() == x && r.spec_y() == y && r.spec_angle() == angle && r.spec_horizon() == horizon,
    {
        Camera { x, y, angle, horizon }
    }

    /// A camera at the origin facing angle 0, with the horizon in the middle of the screen.
    pub fn default() -> (r: Camera)
        ensures
            r.spec_x() == 0 && r.spec_y() == 0 && r.spec_angle() == 0 && r.spec_horizon() == PROJECTION_PLANE_HORIZON,
    {
        Camera::new(0, 0, 0, PROJECTION_PLANE_HORIZON)
    }

    /// Turns by `angle` units; the facing angle stays within `[0, ANGLE_360)`.
    pub fn rotate(&mut self, angle: i32)
        ensures
            final(self).spec_angle() == normalize_angle(old(self).spec_angle() + angle),
            final(self).spec_x() == old(self).spec_x(),
            final(self).spec_y() == old(self).spec_y(),
            final(self).spec_horizon() == old(self).spec_horizon(),
    {
        self.angle = wrap_angle(self.angle as i64 + angle as i64);
    }

    /// Turns by `angle` units given in 64 bits.
    pub fn rotate_wide(&mut self, angle: i64)
        requires
            -0x1_0000_0000 <= angle <= 0x1_0000_0000,
        ensures
            final(self).spec_angle() == normalize_angle(old(self).spec_angle() + angle),
            final(self).spec_x() == old(self).spec_x(),
            final(self).spec_y() == old(self).spec_y(),
            final(self).spec_horizon() == old(self).spec_horizon(),
    {
        self.angle = wrap_angle(self.angle as i64 + angle);
    }

    /// Moves the horizon by `distance` rows, keeping it within `[20, 180]`.
    pub fn pitch(&mut self, distance: i32)
        ensures
            final(self).spec_horizon() == crate::trig::clamp_int(old(self).spec_horizon() + distance, 20, 180),
            final(self).spec_x() == old(self).spec_x(),
            final(self).spec_y() == old(self).spec_y(),
            final(self).spec_angle() == old(self).spec_angle(),
    {
        let h: i64 = self.horizon as i64 + distance as i64;
        self.horizon = if h < 20 { 20 } else if h > 180 { 180 } else { h as i32 };
    }

    pub fn move_to(&mut self, x: i32, y: i32)
        ensures
            final(self).spec_x() == x && final(self).spec_y() == y,
            final(self).spec_angle() == old(self).spec_angle(),
            final(self).spec_horizon() == old(self).spec_horizon(),
    {
        self.set_x(x);
        self.set_y(y);
    }

    pub fn x(&self) -> (r: i32)
        ensures
            r == self.spec_x(),
    {
        self.x
    }

    pub fn set_x(&mut self, x: i32)
        ensures
            final(self).spec_x() == x,
            final(self).spec_y() == old(self).spec_y(),
            final(self).spec_angle() == old(self).spec_angle(),
            final(self).spec_horizon() == old(self).spec_horizon(),
    {
        self.x = x;
    }

    pub fn y(&self) -> (r: i32)
        ensures
            r == self.spec_y(),
    {
        self.y
    }

    pub fn set_y(&mut self, y: i32)
        ensures
            final(self).spec_y() == y,
            final(self).spec_x() == old(self).spec_x(),
            final(self).spec_angle() == old(self).spec_angle(),
            final(self).spec_horizon() == old(self).spec_horizon(),
    {
        self.y = y;
    }

    pub fn angle(&self) -> (r: i32)
        ensures
            r == self.spec_angle(),
    {
        self.angle
    }

    pub fn horizon(&self) -> (r: i32)
        ensures
            r == self.spec_horizon(),
    {
        self.horizon
    }
}

} // verus!
