use vstd::prelude::*;

verus! {

/// Width of the projection plane in pixels; also the number of angle units in the field of view.
pub const PROJECTION_PLANE_WIDTH: i32 = 320;

/// Height of the projection plane in pixels.
pub const PROJECTION_PLANE_HEIGHT: i32 = 200;

/// Default screen row of the horizon: the middle of the projection plane.
pub const PROJECTION_PLANE_HORIZON: i32 = 100;

/// Distance from the eye to the projection plane, in world units.
pub const DISTANCE_TO_PROJECTION_PLANE: i32 = 277;

/// Side of one grid cell in world units.
pub const TILE_SIZE: i32 = 64;

/// Side of one grid cell in 16.16 fixed point.
pub const FP_TILE_SIZE: i32 = 4194304;

/// Largest width or height, in cells, of a grid that rays can be cast across: the world
/// coordinate of every grid line of such a grid fits an `i32`, as intersections report it.
pub const MAX_GRID_SIZE: i32 = 16777216;

/// Width of one texture in texels.
pub const TEXTURE_WIDTH: usize = 64;

/// Height of one texture in texels.
pub const TEXTURE_HEIGHT: usize = 64;

/// Numerator of the inverse relation between distance and on-screen wall height.
pub const WALL_HEIGHT_SCALE_FACTOR: i32 = 18000;

/// Smallest on-screen wall height in pixels.
pub const WALL_HEIGHT_MIN: i32 = 8;

/// Largest on-screen wall height in pixels.
pub const WALL_HEIGHT_MAX: i32 = 640;

/// Distances at or beyond this many world units all get the smallest wall height.
pub const MAX_RAY_LENGTH: i32 = 2048;

/// Height of a wall in world units.
pub const WALL_HEIGHT: i32 = 64;

/// Height of the eye above the floor in world units.
pub const PLAYER_HEIGHT: i32 = 32;

/// The angle units: one unit per screen column, so that the field of view is `ANGLE_60`.
pub const ANGLE_0: i32 = 0;
pub const ANGLE_5: i32 = 26;
pub const ANGLE_10: i32 = 53;
pub const ANGLE_30: i32 = 160;
pub const ANGLE_60: i32 = 320;
pub const ANGLE_90: i32 = 480;
pub const ANGLE_180: i32 = 960;
pub const ANGLE_270: i32 = 1440;
pub const ANGLE_360: i32 = 1920;

/// Number of entries of a per-angle table: one for each angle in `[ANGLE_0, ANGLE_360]`.
pub const ANGLE_TABLE_SIZE: usize = 1921;

} // verus!
