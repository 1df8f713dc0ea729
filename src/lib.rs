//! A grid ray caster in 16.16 fixed point: wall, floor and ceiling intersections of rays cast
//! across a tile grid, a renderer that composites them into an RGBA frame, and a collision
//! resolver that slides a player along the grid's walls.

pub mod consts;
pub mod fp;
pub mod trig;
pub mod scene;
pub mod raycast;
pub mod camera;
pub mod collision;
pub mod world;
pub mod texture;
pub mod renderer;
