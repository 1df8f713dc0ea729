use vstd::prelude::*;
use vstd::math::abs;
use crate::camera::{normalize_angle, wrap_angle, Camera};
use crate::consts::{ANGLE_180, ANGLE_90, TILE_SIZE};
use crate::fp::{floor_div_i64, spec_mul, spec_to_int};
use crate::scene::{Scene, SceneView, Tile};
use crate::trig::TrigTables;

verus! {

/// What a movement request ran into: nothing; a wall along one axis while the other axis kept
/// moving (`SlideX`, `SlideY`); or a wall that stopped the movement on both axes (`WallX`,
/// `WallY`).
#[derive(Clone, Copy, Debug, PartialEq, Eq, Structural)]
pub enum HitResult {
    Nothing,
    SlideX,
    SlideY,
    WallX,
    WallY,
}

/// A position being resolved, with what it has run into so far.
pub ghost struct Motion {
    pub x: int,
    pub y: int,
    pub hit: HitResult,
}

/// Whether a tile stops movement: an impassable surface. Nothing else blocks.
pub open spec fn blocks(t: Tile) -> bool {
    match t {
        Tile::Surface(w) => !w.passable,
        _ => false,
    }
}

/// Whether `v` lies within `margin` of the left edge `x_left` (left quadrants) or of the
/// right edge `x_left + TILE_SIZE` (right quadrants).
pub open spec fn near_x(left: bool, x_left: int, v: int, margin: int) -> bool {
    if left { v < x_left + margin } else { v > x_left + TILE_SIZE - margin }
}

/// Whether `v` lies within `margin` of the top edge (top quadrants) or of the bottom edge.
pub open spec fn near_y(top: bool, y_top: int, v: int, margin: int) -> bool {
    if top { v < y_top + margin } else { v > y_top + TILE_SIZE - margin }
}

/// Whether the current x stands at least `margin` away from the quadrant's vertical edge.
pub open spec fn clear_x(left: bool, x_left: int, xp: int, margin: int) -> bool {
    if left { xp > x_left + (margin - 1) } else { xp < x_left + TILE_SIZE - (margin - 1) }
}

/// Whether the current y stands at least `margin` away from the quadrant's horizontal edge.
pub open spec fn clear_y(top: bool, y_top: int, yp: int, margin: int) -> bool {
    if top { yp > y_top + (margin - 1) } else { yp < y_top + TILE_SIZE - (margin - 1) }
}

/// `m` with its x reset to `xp` and the hit `SlideX`.
pub open spec fn stop_x(m: Motion, xp: int) -> Motion {
    Motion { x: xp, y: m.y, hit: HitResult::SlideX }
}

/// `m` with its y reset to `yp` and the hit `SlideY`.
pub open spec fn stop_y(m: Motion, yp: int) -> Motion {
    Motion { x: m.x, y: yp, hit: HitResult::SlideY }
}

/// The check of one corner of cell `(gx, gy)`, for the quadrant picked by `left` and `top`.
///
/// Two walls meet at that corner from the neighbouring cells: the vertical wall that carries
/// the cell's side edge on into the next row, and the horizontal wall that carries its top or
/// bottom edge on into the next column. Where the target comes within `margin` of such a wall
/// on both axes, the axis on which the current position is still clear of the margin is
/// stopped, else the other one.
pub open spec fn corner_check(s: SceneView, gx: int, gy: int, xp: int, yp: int, margin: int, left: bool, top: bool, m: Motion) -> Motion {
    let x_left = gx * TILE_SIZE;
    let y_top = gy * TILE_SIZE;
    let side = if left { gx } else { gx + 1 };
    let next_row = if top { gy - 1 } else { gy + 1 };
    let next_col = if left { gx - 1 } else { gx + 1 };
    let edge_row = if top { gy } else { gy + 1 };
    let m1 = if blocks(s.x_wall(side, next_row)) && near_y(top, y_top, m.y, margin) && near_x(left, x_left, m.x, margin) {
        if clear_x(left, x_left, xp, margin) { stop_x(m, xp) } else { stop_y(m, yp) }
    } else {
        m
    };
    if blocks(s.y_wall(next_col, edge_row)) && near_x(left, x_left, m1.x, margin) && near_y(top, y_top, m1.y, margin) {
        if clear_y(top, y_top, yp, margin) { stop_y(m1, yp) } else { stop_x(m1, xp) }
    } else {
        m1
    }
}

/// The edge checks of cell `(gx, gy)`: moving toward an impassable wall on one of the cell's
/// own edges stops that axis where the target crosses the wall or comes within `margin` of it.
pub open spec fn edge_checks(s: SceneView, gx: int, gy: int, xp: int, yp: int, margin: int, m: Motion) -> Motion {
    let x_left = gx * TILE_SIZE;
    let x_right = x_left + TILE_SIZE;
    let y_top = gy * TILE_SIZE;
    let y_bottom = y_top + TILE_SIZE;
    let m1 = if m.x < xp && blocks(s.x_wall(gx, gy)) && (m.x < x_left || abs(m.x - x_left) < margin) {
        stop_x(m, xp)
    } else {
        m
    };
    let m2 = if m1.x > xp && blocks(s.x_wall(gx + 1, gy)) && (m1.x > x_right || abs(x_right - m1.x) < margin) {
        stop_x(m1, xp)
    } else {
        m1
    };
    let m3 = if m2.y < yp && blocks(s.y_wall(gx, gy)) && (m2.y < y_top || abs(m2.y - y_top) < margin) {
        stop_y(m2, yp)
    } else {
        m2
    };
    if m3.y > yp && blocks(s.y_wall(gx, gy + 1)) && (m3.y > y_bottom || abs(y_bottom - m3.y) < margin) {
        stop_y(m3, yp)
    } else {
        m3
    }
}

/// The corner checks, made only when no edge check stopped the movement: the target's
/// quadrant of the cell (top or bottom half, then left or right half) picks the corners.
pub open spec fn corner_checks(s: SceneView, gx: int, gy: int, xp: int, yp: int, margin: int, m: Motion) -> Motion {
    let x_left = gx * TILE_SIZE;
    let x_right = x_left + TILE_SIZE;
    let y_top = gy * TILE_SIZE;
    let half = TILE_SIZE / 2;
    if m.hit != HitResult::Nothing {
        m
    } else {
        let m1 = if m.y < y_top + half {
            let a = if m.x < x_left + half { corner_check(s, gx, gy, xp, yp, margin, true, true, m) } else { m };
            if a.x > x_right - half && a.hit == HitResult::Nothing {
                corner_check(s, gx, gy, xp, yp, margin, false, true, a)
            } else {
                a
            }
        } else {
            m
        };
        if m1.y > y_top + half && m1.hit == HitResult::Nothing {
            let c = if m1.x < x_left + half { corner_check(s, gx, gy, xp, yp, margin, true, false, m1) } else { m1 };
            if c.x > x_right - half && c.hit == HitResult::Nothing {
                corner_check(s, gx, gy, xp, yp, margin, false, false, c)
            } else {
                c
            }
        } else {
            m1
        }
    }
}

/// A slide that left the other axis unmoved as well is a full stop.
pub open spec fn classify(m: Motion, xp: int, yp: int) -> Motion {
    let h1 = if m.hit == HitResult::SlideX && m.y == yp { HitResult::WallX } else { m.hit };
    let h2 = if h1 == HitResult::SlideY && m.x == xp { HitResult::WallY } else { h1 };
    Motion { x: m.x, y: m.y, hit: h2 }
}

/// The raw target of a move by `amount` toward `direction` from `(xp, yp)`.
pub open spec fn target(t: TrigTables, xp: int, yp: int, direction: int, amount: int) -> Motion {
    let d = normalize_angle(direction);
    Motion {
        x: xp + spec_to_int(spec_mul(t.spec_cos(d), amount * 65536)),
        y: yp + spec_to_int(spec_mul(t.spec_sin(d), amount * 65536)),
        hit: HitResult::Nothing,
    }
}

/// Where a move by `amount` toward `direction` from `(xp, yp)` ends, and what it ran into,
/// keeping `margin` units clear of impassable walls. A move of no distance stays put and hits
/// nothing.
pub open spec fn resolve_move(s: SceneView, t: TrigTables, xp: int, yp: int, direction: int, amount: int, margin: int) -> Motion {
    let gx = xp / (TILE_SIZE as int);
    let gy = yp / (TILE_SIZE as int);
    if amount == 0 {
        Motion { x: xp, y: yp, hit: HitResult::Nothing }
    } else {
        classify(
            corner_checks(s, gx, gy, xp, yp, margin, edge_checks(s, gx, gy, xp, yp, margin, target(t, xp, yp, direction, amount))),
            xp,
            yp,
        )
    }
}

/// Whether the wall at cell `(x, y)` (left edge if `vertical`, else top edge) blocks movement.
fn wall_blocks(scene: &Scene, vertical: bool, x: i64, y: i64) -> (r: bool)
    requires
        scene.wf(),
    ensures
        r == blocks(if vertical { scene@.x_wall(x as int, y as int) } else { scene@.y_wall(x as int, y as int) }),
{
    if x < 0 || y < 0 || x >= scene.width() as i64 || y >= scene.height() as i64 {
        return false;
    }
    let tile = if vertical { scene.x_wall(x as i32, y as i32) } else { scene.y_wall(x as i32, y as i32) };
    match tile {
        Tile::Surface(w) => !w.passable,
        _ => false,
    }
}

/// Positions and margins small enough for 64-bit arithmetic in the checks.
pub open spec fn small(v: int) -> bool {
    -0x1_0000_0000 <= v <= 0x1_0000_0000
}

fn check_corner(
    scene: &Scene,
    gx: i64,
    gy: i64,
    xp: i64,
    yp: i64,
    margin: i64,
    left: bool,
    top: bool,
    x1: i64,
    y1: i64,
    hit: HitResult,
) -> (r: (i64, i64, HitResult))
    requires
        scene.wf(),
        small(gx as int) && small(gy as int) && small(xp as int) && small(yp as int),
        small(margin as int) && small(x1 as int) && small(y1 as int),
        -0x100_0000 <= gx <= 0x100_0000,
        -0x100_0000 <= gy <= 0x100_0000,
    ensures
        ({
            let m = corner_check(scene@, gx as int, gy as int, xp as int, yp as int, margin as int, left, top,
                Motion { x: x1 as int, y: y1 as int, hit });
            r.0 == m.x && r.1 == m.y && r.2 == m.hit
        }),
        r.0 == x1 || r.0 == xp,
        r.1 == y1 || r.1 == yp,
{
    let x_left: i64 = gx * 64;
    let y_top: i64 = gy * 64;
    let side: i64 = if left { gx } else { gx + 1 };
    let next_row: i64 = if top { gy - 1 } else { gy + 1 };
    let next_col: i64 = if left { gx - 1 } else { gx + 1 };
    let edge_row: i64 = if top { gy } else { gy + 1 };
    let mut x: i64 = x1;
    let mut y: i64 = y1;
    let mut h: HitResult = hit;
    let near_y1: bool = if top { y < y_top + margin } else { y > y_top + 64 - margin };
    let near_x1: bool = if left { x < x_left + margin } else { x > x_left + 64 - margin };
    if wall_blocks(scene, true, side, next_row) && near_y1 && near_x1 {
        let clear: bool = if left { xp > x_left + (margin - 1) } else { xp < x_left + 64 - (margin - 1) };
        if clear {
            x = xp;
            h = HitResult::SlideX;
        } else {
            y = yp;
            h = HitResult::SlideY;
        }
    }
    let near_x2: bool = if left { x < x_left + margin } else { x > x_left + 64 - margin };
    let near_y2: bool = if top { y < y_top + margin } else { y > y_top + 64 - margin };
    if wall_blocks(scene, false, next_col, edge_row) && near_x2 && near_y2 {
        let clear: bool = if top { yp > y_top + (margin - 1) } else { yp < y_top + 64 - (margin - 1) };
        if clear {
            y = yp;
            h = HitResult::SlideY;
        } else {
            x = xp;
            h = HitResult::SlideX;
        }
    }
    (x, y, h)
}

/// The raw target of a move, in 64-bit arithmetic.
fn target_of(tables: &TrigTables, xp: i32, yp: i32, direction: i32, amount: i32) -> (r: (i64, i64))
    requires
        tables.wf(),
        -0x4000_0000 <= xp <= 0x4000_0000,
        -0x4000_0000 <= yp <= 0x4000_0000,
        -0x2000_0000 <= amount <= 0x2000_0000,
    ensures
        ({
            let m = target(*tables, xp as int, yp as int, direction as int, amount as int);
            r.0 == m.x && r.1 == m.y
        }),
        xp - 0x2000_0001 <= r.0 <= xp + 0x2000_0000,
        yp - 0x2000_0001 <= r.1 <= yp + 0x2000_0000,
{
    let d: i32 = wrap_angle(direction as i64);
    let cos: i64 = crate::trig::cos(tables, d) as i64;
    let sin: i64 = crate::trig::sin(tables, d) as i64;
    proof {
        assert(crate::trig::unit_bounded(tables.spec_cos(d as int)));
        assert(crate::trig::unit_bounded(tables.spec_sin(d as int)));
        assert(-0x2000_0000int * 65536 * 65536 <= cos * (amount * 65536) <= 0x2000_0000int * 65536 * 65536) by (nonlinear_arith)
            requires -65536 <= cos <= 65536, -0x2000_0000 <= amount <= 0x2000_0000;
        assert(-0x2000_0000int * 65536 * 65536 <= sin * (amount * 65536) <= 0x2000_0000int * 65536 * 65536) by (nonlinear_arith)
            requires -65536 <= sin <= 65536, -0x2000_0000 <= amount <= 0x2000_0000;
    }
    let px: i64 = floor_div_i64(cos * (amount as i64 * 65536), 65536);
    let py: i64 = floor_div_i64(sin * (amount as i64 * 65536), 65536);
    proof {
        vstd::arithmetic::div_mod::lemma_div_is_ordered(cos * (amount * 65536), 0x2000_0000int * 65536 * 65536, 65536);
        vstd::arithmetic::div_mod::lemma_div_is_ordered(-0x2000_0000int * 65536 * 65536, cos * (amount * 65536), 65536);
        vstd::arithmetic::div_mod::lemma_div_is_ordered(sin * (amount * 65536), 0x2000_0000int * 65536 * 65536, 65536);
        vstd::arithmetic::div_mod::lemma_div_is_ordered(-0x2000_0000int * 65536 * 65536, sin * (amount * 65536), 65536);
        vstd::arithmetic::div_mod::lemma_div_multiples_vanish(0x2000_0000int * 65536, 65536);
        vstd::arithmetic::div_mod::lemma_div_multiples_vanish(-0x2000_0000int * 65536, 65536);
        assert(0x2000_0000int * 65536 * 65536 == 65536 * (0x2000_0000int * 65536));
        assert(-0x2000_0000int * 65536 * 65536 == 65536 * (-0x2000_0000int * 65536));
    }
    let dx: i64 = floor_div_i64(px, 65536);
    let dy: i64 = floor_div_i64(py, 65536);
    proof {
        vstd::arithmetic::div_mod::lemma_div_is_ordered(px as int, 0x2000_0000int * 65536, 65536);
        vstd::arithmetic::div_mod::lemma_div_is_ordered(-0x2000_0000int * 65536, px as int, 65536);
        vstd::arithmetic::div_mod::lemma_div_is_ordered(py as int, 0x2000_0000int * 65536, 65536);
        vstd::arithmetic::div_mod::lemma_div_is_ordered(-0x2000_0000int * 65536, py as int, 65536);
        vstd::arithmetic::div_mod::lemma_div_multiples_vanish(0x2000_0000, 65536);
        vstd::arithmetic::div_mod::lemma_div_multiples_vanish(-0x2000_0000, 65536);
    }
    (xp as i64 + dx, yp as i64 + dy)
}

fn apply_edge_checks(scene: &Scene, gx: i64, gy: i64, xp: i64, yp: i64, m: i64, x1: i64, y1: i64) -> (r: (i64, i64, HitResult))
    requires
        scene.wf(),
        small(xp as int) && small(yp as int) && small(m as int) && small(x1 as int) && small(y1 as int),
        -0x100_0000 <= gx <= 0x100_0000,
        -0x100_0000 <= gy <= 0x100_0000,
    ensures
        ({
            let mo = edge_checks(scene@, gx as int, gy as int, xp as int, yp as int, m as int,
                Motion { x: x1 as int, y: y1 as int, hit: HitResult::Nothing });
            r.0 == mo.x && r.1 == mo.y && r.2 == mo.hit
        }),
        r.0 == x1 || r.0 == xp,
        r.1 == y1 || r.1 == yp,
{
    let x_left: i64 = gx * 64;
    let x_right: i64 = x_left + 64;
    let y_top: i64 = gy * 64;
    let y_bottom: i64 = y_top + 64;
    let mut hit: HitResult = HitResult::Nothing;
    let mut x1: i64 = x1;
    let mut y1: i64 = y1;
    if x1 < xp && wall_blocks(scene, true, gx, gy) {
        let gap: i64 = if x1 >= x_left { x1 - x_left } else { x_left - x1 };
        if x1 < x_left || gap < m {
            x1 = xp;
            hit = HitResult::SlideX;
        }
    }
    if x1 > xp && wall_blocks(scene, true, gx + 1, gy) {
        let gap: i64 = if x_right >= x1 { x_right - x1 } else { x1 - x_right };
        if x1 > x_right || gap < m {
            x1 = xp;
            hit = HitResult::SlideX;
        }
    }
    if y1 < yp && wall_blocks(scene, false, gx, gy) {
        let gap: i64 = if y1 >= y_top { y1 - y_top } else { y_top - y1 };
        if y1 < y_top || gap < m {
            y1 = yp;
            hit = HitResult::SlideY;
        }
    }
    if y1 > yp && wall_blocks(scene, false, gx, gy + 1) {
        let gap: i64 = if y_bottom >= y1 { y_bottom - y1 } else { y1 - y_bottom };
        if y1 > y_bottom || gap < m {
            y1 = yp;
            hit = HitResult::SlideY;
        }
    }
    (x1, y1, hit)
}

fn apply_corner_checks(
    scene: &Scene,
    gx: i64,
    gy: i64,
    xp: i64,
    yp: i64,
    m: i64,
    x1: i64,
    y1: i64,
    hit: HitResult,
) -> (r: (i64, i64, HitResult))
    requires
        scene.wf(),
        small(xp as int) && small(yp as int) && small(m as int) && small(x1 as int) && small(y1 as int),
        -0x100_0000 <= gx <= 0x100_0000,
        -0x100_0000 <= gy <= 0x100_0000,
    ensures
        ({
            let mo = corner_checks(scene@, gx as int, gy as int, xp as int, yp as int, m as int,
                Motion { x: x1 as int, y: y1 as int, hit });
            r.0 == mo.x && r.1 == mo.y && r.2 == mo.hit
        }),
{
    if hit != HitResult::Nothing {
        return (x1, y1, hit);
    }
    let x_left: i64 = gx * 64;
    let x_right: i64 = x_left + 64;
    let y_top: i64 = gy * 64;
    let mut r: (i64, i64, HitResult) = (x1, y1, hit);
    if r.1 < y_top + 32 {
        if r.0 < x_left + 32 {
            r = check_corner(scene, gx, gy, xp, yp, m, true, true, r.0, r.1, r.2);
        }
        if r.0 > x_right - 32 && r.2 == HitResult::Nothing {
            r = check_corner(scene, gx, gy, xp, yp, m, false, true, r.0, r.1, r.2);
        }
    }
    if r.1 > y_top + 32 && r.2 == HitResult::Nothing {
        if r.0 < x_left + 32 {
            r = check_corner(scene, gx, gy, xp, yp, m, true, false, r.0, r.1, r.2);
        }
        if r.0 > x_right - 32 && r.2 == HitResult::Nothing {
            r = check_corner(scene, gx, gy, xp, yp, m, false, false, r.0, r.1, r.2);
        }
    }
    r
}

/// Moves `(xp, yp)` by `amount` toward `direction`, sliding along or stopping at impassable
/// walls so as to stay `margin` units clear of them; returns the new position and what was hit.
pub fn move_within(
    scene: &Scene,
    tables: &TrigTables,
    xp: i32,
    yp: i32,
    direction: i32,
    amount: i32,
    margin: i32,
) -> (r: (i32, i32, HitResult))
    requires
        scene.wf(),
        tables.wf(),
        -0x4000_0000 <= xp <= 0x4000_0000,
        -0x4000_0000 <= yp <= 0x4000_0000,
        -0x2000_0000 <= amount <= 0x2000_0000,
    ensures
        ({
            let m = resolve_move(scene@, *tables, xp as int, yp as int, direction as int, amount as int, margin as int);
            r.0 == m.x && r.1 == m.y && r.2 == m.hit
        }),
        amount == 0 ==> r == (xp, yp, HitResult::Nothing),
{
    if amount == 0 {
        return (xp, yp, HitResult::Nothing);
    }
    let (tx, ty) = target_of(tables, xp, yp, direction, amount);
    let gx: i64 = floor_div_i64(xp as i64, 64);
    let gy: i64 = floor_div_i64(yp as i64, 64);
    proof {
        vstd::arithmetic::div_mod::lemma_div_is_ordered(xp as int, 0x4000_0000, 64);
        vstd::arithmetic::div_mod::lemma_div_is_ordered(-0x4000_0000, xp as int, 64);
        vstd::arithmetic::div_mod::lemma_div_is_ordered(yp as int, 0x4000_0000, 64);
        vstd::arithmetic::div_mod::lemma_div_is_ordered(-0x4000_0000, yp as int, 64);
    }
    let e = apply_edge_checks(scene, gx, gy, xp as i64, yp as i64, margin as i64, tx, ty);
    let c = apply_corner_checks(scene, gx, gy, xp as i64, yp as i64, margin as i64, e.0, e.1, e.2);
    proof {
        let mo = corner_checks(scene@, gx as int, gy as int, xp as int, yp as int, margin as int,
            Motion { x: e.0 as int, y: e.1 as int, hit: e.2 });
        assert(mo.x == e.0 || mo.x == xp);
        assert(mo.y == e.1 || mo.y == yp);
    }
    let mut hit: HitResult = c.2;
    if hit == HitResult::SlideX && c.1 == yp as i64 {
        hit = HitResult::WallX;
    }
    if hit == HitResult::SlideY && c.0 == xp as i64 {
        hit = HitResult::WallY;
    }
    (c.0 as i32, c.1 as i32, hit)
}

/// A player: a camera moved through the scene with collision, at a fixed speed, turning at a
/// fixed rate, and keeping `margin` world units clear of walls.
pub struct Player {
    pub camera: Camera,
    pub move_speed: i32,
    pub rotate_speed: i32,
    pub margin: i32,
}

impl Player {
    /// A camera position and a speed that keep every move within 32-bit coordinates.
    pub open spec fn can_move(&self) -> bool {
        &&& -0x4000_0000 <= self.camera.spec_x() <= 0x4000_0000
        &&& -0x4000_0000 <= self.camera.spec_y() <= 0x4000_0000
        &&& -0x2000_0000 <= self.move_speed <= 0x2000_0000
    }

    pub fn new(camera: Camera, move_speed: i32, rotate_speed: i32, margin: i32) -> (r: Player)
        ensures
            r.camera == camera,
            r.move_speed == move_speed,
            r.rotate_speed == rotate_speed,
            r.margin == margin,
    {
        Player { camera, move_speed, rotate_speed, margin }
    }

    /// Moves the player by `amount` toward `direction`, resolving collisions with the scene's
    /// walls; the camera ends at the resolved position and what was hit is returned.
    pub fn translate(&mut self, direction: i32, amount: i32, scene: &Scene, tables: &TrigTables) -> (r: HitResult)
        requires
            scene.wf(),
            tables.wf(),
            -0x4000_0000 <= old(self).camera.spec_x() <= 0x4000_0000,
            -0x4000_0000 <= old(self).camera.spec_y() <= 0x4000_0000,
            -0x2000_0000 <= amount <= 0x2000_0000,
        ensures
            ({
                let m = resolve_move(scene@, *tables, old(self).camera.spec_x(), old(self).camera.spec_y(), direction as int,
                    amount as int, old(self).margin as int);
                &&& final(self).camera.spec_x() == m.x
                &&& final(self).camera.spec_y() == m.y
                &&& r == m.hit
            }),
            amount == 0 ==> final(self).camera.spec_x() == old(self).camera.spec_x() && final(self).camera.spec_y()
                == old(self).camera.spec_y() && r == HitResult::Nothing,
            final(self).camera.spec_angle() == old(self).camera.spec_angle(),
            final(self).camera.spec_horizon() == old(self).camera.spec_horizon(),
            final(self).move_speed == old(self).move_speed,
            final(self).rotate_speed == old(self).rotate_speed,
            final(self).margin == old(self).margin,
    {
        let (x, y, hit) = move_within(scene, tables, self.camera.x(), self.camera.y(), direction, amount, self.margin);
        self.camera.move_to(x, y);
        hit
    }

    /// Moves toward `angle_offset` from the facing angle at the player's speed.
    fn step(&mut self, angle_offset: i32, scene: &Scene, tables: &TrigTables) -> (r: HitResult)
        requires
            scene.wf(),
            tables.wf(),
            old(self).can_move(),
            -1920 <= angle_offset <= 1920,
        ensures
            ({
                let m = resolve_move(scene@, *tables, old(self).camera.spec_x(), old(self).camera.spec_y(),
                    old(self).camera.spec_angle() + angle_offset, old(self).move_speed as int, old(self).margin as int);
                &&& final(self).camera.spec_x() == m.x
                &&& final(self).camera.spec_y() == m.y
                &&& r == m.hit
            }),
            final(self).camera.spec_angle() == old(self).camera.spec_angle(),
            final(self).camera.spec_horizon() == old(self).camera.spec_horizon(),
            final(self).move_speed == old(self).move_speed,
            final(self).rotate_speed == old(self).rotate_speed,
            final(self).margin == old(self).margin,
    {
        let direction = wrap_angle(self.camera.angle() as i64 + angle_offset as i64);
        proof {
            vstd::arithmetic::div_mod::lemma_mod_twice(old(self).camera.spec_angle() + angle_offset, 1920);
        }
        self.translate(direction, self.move_speed, scene, tables)
    }

    /// Moves forward along the facing angle.
    pub fn forward(&mut self, scene: &Scene, tables: &TrigTables) -> (r: HitResult)
        requires
            scene.wf(),
            tables.wf(),
            old(self).can_move(),
        ensures
            ({
                let m = resolve_move(scene@, *tables, old(self).camera.spec_x(), old(self).camera.spec_y(),
                    old(self).camera.spec_angle(), old(self).move_speed as int, old(self).margin as int);
                &&& final(self).camera.spec_x() == m.x
                &&& final(self).camera.spec_y() == m.y
                &&& r == m.hit
            }),
            final(self).camera.spec_angle() == old(self).camera.spec_angle(),
            final(self).camera.spec_horizon() == old(self).camera.spec_horizon(),
            final(self).move_speed == old(self).move_speed,
            final(self).rotate_speed == old(self).rotate_speed,
            final(self).margin == old(self).margin,
    {
        self.step(0, scene, tables)
    }

    /// Moves backward, away from the facing angle.
    pub fn back(&mut self, scene: &Scene, tables: &TrigTables) -> (r: HitResult)
        requires
            scene.wf(),
            tables.wf(),
            old(self).can_move(),
        ensures
            ({
                let m = resolve_move(scene@, *tables, old(self).camera.spec_x(), old(self).camera.spec_y(),
                    old(self).camera.spec_angle() + ANGLE_180, old(self).move_speed as int, old(self).margin as int);
                &&& final(self).camera.spec_x() == m.x
                &&& final(self).camera.spec_y() == m.y
                &&& r == m.hit
            }),
            final(self).camera.spec_angle() == old(self).camera.spec_angle(),
            final(self).camera.spec_horizon() == old(self).camera.spec_horizon(),
            final(self).move_speed == old(self).move_speed,
            final(self).rotate_speed == old(self).rotate_speed,
            final(self).margin == old(self).margin,
    {
        self.step(ANGLE_180, scene, tables)
    }

    /// Moves sideways to the left of the facing angle.
    pub fn strafe_left(&mut self, scene: &Scene, tables: &TrigTables) -> (r: HitResult)
        requires
            scene.wf(),
            tables.wf(),
            old(self).can_move(),
        ensures
            ({
                let m = resolve_move(scene@, *tables, old(self).camera.spec_x(), old(self).camera.spec_y(),
                    old(self).camera.spec_angle() - ANGLE_90, old(self).move_speed as int, old(self).margin as int);
                &&& final(self).camera.spec_x() == m.x
                &&& final(self).camera.spec_y() == m.y
                &&& r == m.hit
            }),
            final(self).camera.spec_angle() == old(self).camera.spec_angle(),
            final(self).camera.spec_horizon() == old(self).camera.spec_horizon(),
            final(self).move_speed == old(self).move_speed,
            final(self).rotate_speed == old(self).rotate_speed,
            final(self).margin == old(self).margin,
    {
        self.step(-ANGLE_90, scene, tables)
    }

    /// Moves sideways to the right of the facing angle.
    pub fn strafe_right(&mut self, scene: &Scene, tables: &TrigTables) -> (r: HitResult)
        requires
            scene.wf(),
            tables.wf(),
            old(self).can_move(),
        ensures
            ({
                let m = resolve_move(scene@, *tables, old(self).camera.spec_x(), old(self).camera.spec_y(),
                    old(self).camera.spec_angle() + ANGLE_90, old(self).move_speed as int, old(self).margin as int);
                &&& final(self).camera.spec_x() == m.x
                &&& final(self).camera.spec_y() == m.y
                &&& r == m.hit
            }),
            final(self).camera.spec_angle() == old(self).camera.spec_angle(),
            final(self).camera.spec_horizon() == old(self).camera.spec_horizon(),
            final(self).move_speed == old(self).move_speed,
            final(self).rotate_speed == old(self).rotate_speed,
            final(self).margin == old(self).margin,
    {
        self.step(ANGLE_90, scene, tables)
    }

    /// Places the player at `(x, y)`.
    pub fn pos(&mut self, x: i32, y: i32)
        ensures
            final(self).camera.spec_x() == x && final(self).camera.spec_y() == y,
            final(self).camera.spec_angle() == old(self).camera.spec_angle(),
            final(self).camera.spec_horizon() == old(self).camera.spec_horizon(),
            final(self).move_speed == old(self).move_speed,
            final(self).rotate_speed == old(self).rotate_speed,
            final(self).margin == old(self).margin,
    {
        self.camera.move_to(x, y);
    }

    /// Faces the player toward `rotation`, reduced into `[0, ANGLE_360)`.
    pub fn rotation(&mut self, rotation: i32)
        ensures
            final(self).camera.spec_angle() == normalize_angle(rotation as int),
            final(self).camera.spec_x() == old(self).camera.spec_x(),
            final(self).camera.spec_y() == old(self).camera.spec_y(),
            final(self).camera.spec_horizon() == old(self).camera.spec_horizon(),
            final(self).move_speed == old(self).move_speed,
            final(self).rotate_speed == old(self).rotate_speed,
            final(self).margin == old(self).margin,
    {
        let current = self.camera.angle();
        self.camera.rotate_wide(rotation as i64 - current as i64);
    }

    /// Turns left by the turning rate; the position does not change.
    pub fn turn_left(&mut self)
        ensures
            final(self).camera.spec_angle() == normalize_angle(old(self).camera.spec_angle() - old(self).rotate_speed as int),
            final(self).camera.spec_x() == old(self).camera.spec_x(),
            final(self).camera.spec_y() == old(self).camera.spec_y(),
            final(self).camera.spec_horizon() == old(self).camera.spec_horizon(),
            final(self).move_speed == old(self).move_speed,
            final(self).rotate_speed == old(self).rotate_speed,
            final(self).margin == old(self).margin,
    {
        self.camera.rotate_wide(-(self.rotate_speed as i64));
    }

    /// Turns right by the turning rate; the position does not change.
    pub fn turn_right(&mut self)
        ensures
            final(self).camera.spec_angle() == normalize_angle(old(self).camera.spec_angle() + old(self).rotate_speed as int),
            final(self).camera.spec_x() == old(self).camera.spec_x(),
            final(self).camera.spec_y() == old(self).camera.spec_y(),
            final(self).camera.spec_horizon() == old(self).camera.spec_horizon(),
            final(self).move_speed == old(self).move_speed,
            final(self).rotate_speed == old(self).rotate_speed,
            final(self).margin == old(self).margin,
    {
        self.camera.rotate_wide(self.rotate_speed as i64);
    }
}

/// A request to move no distance never changes the position and always reports `Nothing`.
pub proof fn lemma_zero_move(s: SceneView, t: TrigTables, xp: int, yp: int, direction: int, margin: int)
    ensures
        resolve_move(s, t, xp, yp, direction, 0, margin) == (Motion { x: xp, y: yp, hit: HitResult::Nothing }),
{
}

proof fn lemma_corner_check_values(s: SceneView, gx: int, gy: int, xp: int, yp: int, margin: int, left: bool, top: bool, m: Motion)
    ensures
        corner_check(s, gx, gy, xp, yp, margin, left, top, m).x == m.x || corner_check(s, gx, gy, xp, yp, margin, left, top, m).x == xp,
        corner_check(s, gx, gy, xp, yp, margin, left, top, m).y == m.y || corner_check(s, gx, gy, xp, yp, margin, left, top, m).y == yp,
{
}

proof fn lemma_corner_checks_values(s: SceneView, gx: int, gy: int, xp: int, yp: int, margin: int, m: Motion)
    ensures
        corner_checks(s, gx, gy, xp, yp, margin, m).x == m.x || corner_checks(s, gx, gy, xp, yp, margin, m).x == xp,
        corner_checks(s, gx, gy, xp, yp, margin, m).y == m.y || corner_checks(s, gx, gy, xp, yp, margin, m).y == yp,
{
    let x_left = gx * TILE_SIZE;
    let x_right = x_left + TILE_SIZE;
    let y_top = gy * TILE_SIZE;
    if m.hit == HitResult::Nothing {
        let a = if m.x < x_left + 32 { corner_check(s, gx, gy, xp, yp, margin, true, true, m) } else { m };
        lemma_corner_check_values(s, gx, gy, xp, yp, margin, true, true, m);
        lemma_corner_check_values(s, gx, gy, xp, yp, margin, false, true, a);
        let m1 = if m.y < y_top + 32 {
            if a.x > x_right - 32 && a.hit == HitResult::Nothing { corner_check(s, gx, gy, xp, yp, margin, false, true, a) } else { a }
        } else {
            m
        };
        let c = if m1.x < x_left + 32 { corner_check(s, gx, gy, xp, yp, margin, true, false, m1) } else { m1 };
        lemma_corner_check_values(s, gx, gy, xp, yp, margin, true, false, m1);
        lemma_corner_check_values(s, gx, gy, xp, yp, margin, false, false, c);
    }
}

/// A move that starts at least `margin` clear of an impassable wall on an edge of the cell it
/// starts in ends at least `margin` clear of that wall too: it never crosses the wall nor
/// comes closer than the margin to it.
pub proof fn lemma_stays_clear_of_walls(s: SceneView, t: TrigTables, xp: int, yp: int, direction: int, amount: int, margin: int)
    requires
        0 <= margin,
    ensures
        ({
            let r = resolve_move(s, t, xp, yp, direction, amount, margin);
            let gx = xp / 64;
            let gy = yp / 64;
            &&& blocks(s.x_wall(gx, gy)) && xp >= gx * 64 + margin ==> r.x >= gx * 64 + margin
            &&& blocks(s.x_wall(gx + 1, gy)) && xp <= gx * 64 + 64 - margin ==> r.x <= gx * 64 + 64 - margin
            &&& blocks(s.y_wall(gx, gy)) && yp >= gy * 64 + margin ==> r.y >= gy * 64 + margin
            &&& blocks(s.y_wall(gx, gy + 1)) && yp <= gy * 64 + 64 - margin ==> r.y <= gy * 64 + 64 - margin
        }),
{
    let gx = xp / 64;
    let gy = yp / 64;
    if amount != 0 {
        let e = edge_checks(s, gx, gy, xp, yp, margin, target(t, xp, yp, direction, amount));
        lemma_corner_checks_values(s, gx, gy, xp, yp, margin, e);
    }
}

} // verus!
