use vstd::prelude::*;
use vstd::math::abs;
use crate::consts::FP_TILE_SIZE;
use crate::fp::{floor_div_i64, floor_div_i128, spec_div, spec_floor, spec_mul, spec_to_int};
use crate::scene::{Scene, SceneView, TextureTile, Tile};
use crate::trig::TrigTables;

verus! {

/// A ray hitting a surface: the world coordinates of the hit, the perpendicular distance from
/// the ray's origin, the surface's texture, the texel column within the tile, and whether
/// that column is mirrored.
#[derive(Clone, Copy, Debug, PartialEq, Eq, Structural)]
pub struct Intersection {
    pub x: i32,
    pub y: i32,
    pub dist: i32,
    pub texture: u32,
    pub texture_column: i32,
    pub reverse: bool,
}

impl Intersection {
    pub fn new(x: i32, y: i32, dist: i32, texture: u32, texture_column: i32, reverse: bool) -> (r: Intersection)
        ensures
            r == (Intersection { x, y, dist, texture, texture_column, reverse }),
    {
        Intersection { x, y, dist, texture, texture_column, reverse }
    }
}

/// The grid cell index of a fixed-point coordinate, rounded toward negative infinity.
pub open spec fn cell_of(v: int) -> int {
    v / (FP_TILE_SIZE as int)
}

/// The fixed-point coordinate of the grid line at or before `v`.
pub open spec fn grid_line_of(v: int) -> int {
    cell_of(v) * FP_TILE_SIZE
}

/// A ray stepping from grid line to grid line along one axis, in fixed point.
///
/// A horizontal ray crosses horizontal grid lines and meets the walls on the top edges of
/// cells; a vertical ray crosses vertical grid lines and meets the walls on the left edges.
/// `(x, y)` is the first crossing and `(step_x, step_y)` the move from one crossing to the
/// next. `inverse` is the reciprocal trigonometric factor that turns the offset along the
/// stepping axis into a perpendicular distance. An `undefined` ray runs parallel to the lines
/// it would cross and meets none of them.
#[derive(Clone, Copy, Debug)]
pub struct Ray {
    pub horizontal: bool,
    pub x: i64,
    pub y: i64,
    pub step_x: i64,
    pub step_y: i64,
    pub origin_x: i64,
    pub origin_y: i64,
    pub inverse: i64,
    pub flipped: bool,
    pub undefined: bool,
}

/// Whether a ray facing `direction` moves toward larger y (down the grid).
pub open spec fn faces_down(direction: int) -> bool {
    0 < direction < 960
}

/// Whether a ray facing `direction` moves toward larger x (right across the grid).
pub open spec fn faces_right(direction: int) -> bool {
    direction <= 480 || direction > 1440
}

/// The ray that meets horizontal grid lines, cast from `(ox, oy)` toward `direction`.
pub open spec fn spec_ray_h(t: TrigTables, ox: int, oy: int, direction: int) -> Ray {
    let down = faces_down(direction);
    let y = grid_line_of(oy) + if down { FP_TILE_SIZE as int } else { 0 };
    Ray {
        horizontal: true,
        x: (ox + spec_mul(y - oy, t.spec_itan(direction))) as i64,
        y: y as i64,
        step_x: t.spec_x_step(direction) as i64,
        step_y: if down { FP_TILE_SIZE as i64 } else { -FP_TILE_SIZE as i64 },
        origin_x: ox as i64,
        origin_y: oy as i64,
        inverse: t.spec_isin(direction) as i64,
        flipped: down,
        undefined: direction == 0 || direction == 960,
    }
}

/// The ray that meets vertical grid lines, cast from `(ox, oy)` toward `direction`.
pub open spec fn spec_ray_v(t: TrigTables, ox: int, oy: int, direction: int) -> Ray {
    let right = faces_right(direction);
    let x = grid_line_of(ox) + if right { FP_TILE_SIZE as int } else { 0 };
    Ray {
        horizontal: false,
        x: x as i64,
        y: (oy + spec_mul(x - ox, t.spec_tan(direction))) as i64,
        step_x: if right { FP_TILE_SIZE as i64 } else { -FP_TILE_SIZE as i64 },
        step_y: t.spec_y_step(direction) as i64,
        origin_x: ox as i64,
        origin_y: oy as i64,
        inverse: t.spec_icos(direction) as i64,
        flipped: !right,
        undefined: direction == 480 || direction == 1440,
    }
}

impl Ray {
    /// Magnitudes that keep every step of a scan within 64-bit arithmetic.
    pub open spec fn wf(&self) -> bool {
        &&& -0x1_0000_0000_0000 <= self.x <= 0x1_0000_0000_0000
        &&& -0x1_0000_0000_0000 <= self.y <= 0x1_0000_0000_0000
        &&& -0x8000_0000 <= self.step_x <= 0x8000_0000
        &&& -0x8000_0000 <= self.step_y <= 0x8000_0000
        &&& -0x8000_0000 <= self.origin_x <= 0x8000_0000
        &&& -0x8000_0000 <= self.origin_y <= 0x8000_0000
        &&& -0x8000_0000 <= self.inverse <= 0x8000_0000
    }

    /// The ray meeting horizontal grid lines from `(origin_x, origin_y)` (fixed point) toward
    /// `direction`: it starts on the nearest horizontal grid line ahead and steps one tile in y.
    pub fn horizontal(tables: &TrigTables, origin_x: i32, origin_y: i32, direction: i32) -> (r: Ray)
        requires
            tables.wf(),
            0 <= direction < 1920,
        ensures
            r == spec_ray_h(*tables, origin_x as int, origin_y as int, direction as int),
            r.wf(),
    {
        let down = direction > 0 && direction < 960;
        let line: i64 = floor_div_i64(origin_y as i64, FP_TILE_SIZE as i64) * (FP_TILE_SIZE as i64);
        let y: i64 = if down { line + FP_TILE_SIZE as i64 } else { line };
        let itan: i32 = crate::trig::itan(tables, direction);
        let offset: i64 = mul_i64(y - origin_y as i64, itan as i64);
        let step_x: i32 = crate::trig::x_step(tables, direction);
        let isin: i32 = crate::trig::isin(tables, direction);
        Ray {
            horizontal: true,
            x: origin_x as i64 + offset,
            y,
            step_x: step_x as i64,
            step_y: if down { FP_TILE_SIZE as i64 } else { -(FP_TILE_SIZE as i64) },
            origin_x: origin_x as i64,
            origin_y: origin_y as i64,
            inverse: isin as i64,
            flipped: down,
            undefined: direction == 0 || direction == 960,
        }
    }

    /// The ray meeting vertical grid lines from `(origin_x, origin_y)` (fixed point) toward
    /// `direction`: it starts on the nearest vertical grid line ahead and steps one tile in x.
    pub fn vertical(tables: &TrigTables, origin_x: i32, origin_y: i32, direction: i32) -> (r: Ray)
        requires
            tables.wf(),
            0 <= direction < 1920,
        ensures
            r == spec_ray_v(*tables, origin_x as int, origin_y as int, direction as int),
            r.wf(),
    {
        let right = direction <= 480 || direction > 1440;
        let line: i64 = floor_div_i64(origin_x as i64, FP_TILE_SIZE as i64) * (FP_TILE_SIZE as i64);
        let x: i64 = if right { line + FP_TILE_SIZE as i64 } else { line };
        let tan: i32 = crate::trig::tan(tables, direction);
        let offset: i64 = mul_i64(x - origin_x as i64, tan as i64);
        let step_y: i32 = crate::trig::y_step(tables, direction);
        let icos: i32 = crate::trig::icos(tables, direction);
        Ray {
            horizontal: false,
            x,
            y: origin_y as i64 + offset,
            step_x: if right { FP_TILE_SIZE as i64 } else { -(FP_TILE_SIZE as i64) },
            step_y: step_y as i64,
            origin_x: origin_x as i64,
            origin_y: origin_y as i64,
            inverse: icos as i64,
            flipped: !right,
            undefined: direction == 480 || direction == 1440,
        }
    }

    /// Whether the ray runs parallel to the grid lines it would cross.
    pub fn is_undefined(&self) -> (r: bool)
        ensures
            r == self.undefined,
    {
        self.undefined
    }
}

/// Fixed-point product of two values small enough for 64-bit arithmetic.
fn mul_i64(a: i64, b: i64) -> (r: i64)
    requires
        -0xffff_ffff <= a <= 0xffff_ffff,
        -0x8000_0000 <= b <= 0x8000_0000,
    ensures
        r == spec_mul(a as int, b as int),
        -0x8000_0000_0000 <= r <= 0x8000_0000_0000,
{
    proof {
        assert(-0x8000_0000_0000int * 65536 <= a * b <= 0x8000_0000_0000int * 65536 - 65536) by (nonlinear_arith)
            requires -0xffff_ffff <= a <= 0xffff_ffff, -0x8000_0000 <= b <= 0x8000_0000;
    }
    let r = floor_div_i64(a * b, 65536);
    proof {
        vstd::arithmetic::div_mod::lemma_div_is_ordered(a * b, 0x8000_0000_0000int * 65536, 65536);
        vstd::arithmetic::div_mod::lemma_div_is_ordered(-0x8000_0000_0000int * 65536, a * b, 65536);
        vstd::arithmetic::div_mod::lemma_div_multiples_vanish(0x8000_0000_0000, 65536);
        vstd::arithmetic::div_mod::lemma_div_multiples_vanish(-0x8000_0000_0000, 65536);
    }
    r
}

/// The `k`-th crossing of a ray.
pub open spec fn point_x(r: Ray, k: int) -> int {
    r.x + k * r.step_x
}

pub open spec fn point_y(r: Ray, k: int) -> int {
    r.y + k * r.step_y
}

/// The wall that the `k`-th crossing of a ray meets.
pub open spec fn tile_at(s: SceneView, r: Ray, k: int) -> Tile {
    let gx = cell_of(point_x(r, k));
    let gy = cell_of(point_y(r, k));
    if r.horizontal {
        s.y_wall(gx, gy)
    } else {
        s.x_wall(gx, gy)
    }
}

/// How many crossings a ray makes before its stepping axis leaves the grid: past that many,
/// every crossing lies outside the grid.
pub open spec fn crossings_in_grid(s: SceneView, r: Ray) -> int {
    if r.horizontal {
        if r.step_y > 0 { s.height - cell_of(r.y as int) } else { cell_of(r.y as int) + 1 }
    } else {
        if r.step_x > 0 { s.width - cell_of(r.x as int) } else { cell_of(r.x as int) + 1 }
    }
}

/// `v` limited to the largest `i32`.
pub open spec fn saturate(v: int) -> int {
    if v > i32::MAX { i32::MAX as int } else { v }
}

/// The perpendicular distance, in world units, of a ray's `k`-th crossing from its origin,
/// divided by `correction` (a fixed-point factor; one unit is 65536).
pub open spec fn crossing_distance(r: Ray, k: int, correction: int) -> int {
    let offset = if r.horizontal { point_y(r, k) - r.origin_y } else { point_x(r, k) - r.origin_x };
    saturate(abs(spec_mul(offset, r.inverse as int)) as int / correction)
}

/// The intersection of a ray's `k`-th crossing with a wall surface.
pub open spec fn hit_at(r: Ray, k: int, wall: TextureTile, correction: int) -> Intersection {
    let wx = spec_to_int(point_x(r, k));
    let wy = spec_to_int(point_y(r, k));
    Intersection {
        x: wx as i32,
        y: wy as i32,
        dist: crossing_distance(r, k, correction) as i32,
        texture: wall.texture,
        texture_column: ((if r.horizontal { wx } else { wy }) % 64) as i32,
        reverse: r.flipped,
    }
}

/// The surfaces met by a ray from its `k`-th crossing on, nearest first, up to the first
/// crossing outside the grid.
pub open spec fn hits_from(s: SceneView, r: Ray, correction: int, k: int) -> Seq<Intersection>
    decreases crossings_in_grid(s, r) - k,
{
    if k < 0 || k >= crossings_in_grid(s, r) {
        seq![]
    } else {
        match tile_at(s, r, k) {
            Tile::OutOfBounds => seq![],
            Tile::Empty => hits_from(s, r, correction, k + 1),
            Tile::Surface(wall) => seq![hit_at(r, k, wall, correction)] + hits_from(s, r, correction, k + 1),
        }
    }
}

/// Every surface a ray meets, nearest first; none for an undefined ray.
pub open spec fn ray_hits(s: SceneView, r: Ray, correction: int) -> Seq<Intersection> {
    if r.undefined {
        seq![]
    } else {
        hits_from(s, r, correction, 0)
    }
}

/// Walks a ray across the grid and collects every surface it meets, nearest first, with
/// distances divided by `correction`.
pub fn cast(ray: &Ray, scene: &Scene, correction: i64) -> (r: Vec<Intersection>)
    requires
        scene.wf(),
        scene@.addressable(),
        ray.wf(),
        0 < correction <= 0x7fff_ffff,
    ensures
        r@ == ray_hits(scene@, *ray, correction as int),
{
    let mut hits: Vec<Intersection> = Vec::new();
    if ray.undefined {
        return hits;
    }
    let limit: i64 = if ray.horizontal {
        if ray.step_y > 0 {
            scene.height() as i64 - floor_div_i64(ray.y, FP_TILE_SIZE as i64)
        } else {
            floor_div_i64(ray.y, FP_TILE_SIZE as i64) + 1
        }
    } else {
        if ray.step_x > 0 {
            scene.width() as i64 - floor_div_i64(ray.x, FP_TILE_SIZE as i64)
        } else {
            floor_div_i64(ray.x, FP_TILE_SIZE as i64) + 1
        }
    };
    proof {
        vstd::arithmetic::div_mod::lemma_div_is_ordered(ray.y as int, 0x1_0000_0000_0000, FP_TILE_SIZE as int);
        vstd::arithmetic::div_mod::lemma_div_is_ordered(-0x1_0000_0000_0000, ray.y as int, FP_TILE_SIZE as int);
        vstd::arithmetic::div_mod::lemma_div_is_ordered(ray.x as int, 0x1_0000_0000_0000, FP_TILE_SIZE as int);
        vstd::arithmetic::div_mod::lemma_div_is_ordered(-0x1_0000_0000_0000, ray.x as int, FP_TILE_SIZE as int);
        assert(limit == crossings_in_grid(scene@, *ray));
        assert(limit <= 0x500_0001);
    }
    let mut k: i64 = 0;
    let mut x: i64 = ray.x;
    let mut y: i64 = ray.y;
    loop
        invariant
            scene.wf(),
            ray.wf(),
            !ray.undefined,
            0 < correction <= 0x7fff_ffff,
            limit == crossings_in_grid(scene@, *ray),
            limit <= 0x500_0001,
            scene@.addressable(),
            0 <= k,
            k <= limit || limit < 0,
            x == point_x(*ray, k as int),
            y == point_y(*ray, k as int),
            hits@ + hits_from(scene@, *ray, correction as int, k as int) == hits_from(scene@, *ray, correction as int, 0),
        ensures
            hits@ == hits_from(scene@, *ray, correction as int, 0),
        decreases limit - k,
    {
        if k >= limit {
            assert(hits_from(scene@, *ray, correction as int, k as int) == Seq::<Intersection>::empty());
            assert(hits@ + Seq::<Intersection>::empty() == hits@);
            break;
        }
        proof {
            assert(-0x400_0000_0000_0000 <= k * ray.step_x <= 0x400_0000_0000_0000) by (nonlinear_arith)
                requires 0 <= k <= 0x500_0001, -0x8000_0000 <= ray.step_x <= 0x8000_0000;
            assert(-0x400_0000_0000_0000 <= k * ray.step_y <= 0x400_0000_0000_0000) by (nonlinear_arith)
                requires 0 <= k <= 0x500_0001, -0x8000_0000 <= ray.step_y <= 0x8000_0000;
        }
        let gx: i64 = floor_div_i64(x, FP_TILE_SIZE as i64);
        let gy: i64 = floor_div_i64(y, FP_TILE_SIZE as i64);
        proof {
            vstd::arithmetic::div_mod::lemma_div_is_ordered(x as int, 0x800_0000_0000_0000, FP_TILE_SIZE as int);
            vstd::arithmetic::div_mod::lemma_div_is_ordered(-0x800_0000_0000_0000, x as int, FP_TILE_SIZE as int);
            vstd::arithmetic::div_mod::lemma_div_is_ordered(y as int, 0x800_0000_0000_0000, FP_TILE_SIZE as int);
            vstd::arithmetic::div_mod::lemma_div_is_ordered(-0x800_0000_0000_0000, y as int, FP_TILE_SIZE as int);
        }
        let tile = if gx < 0 || gy < 0 || gx >= scene.width() as i64 || gy >= scene.height() as i64 {
            Tile::OutOfBounds
        } else if ray.horizontal {
            scene.y_wall(gx as i32, gy as i32)
        } else {
            scene.x_wall(gx as i32, gy as i32)
        };
        assert(tile == tile_at(scene@, *ray, k as int));
        match tile {
            Tile::OutOfBounds => {
                assert(hits_from(scene@, *ray, correction as int, k as int) == Seq::<Intersection>::empty());
                assert(hits@ + Seq::<Intersection>::empty() == hits@);
                break;
            },
            Tile::Empty => {},
            Tile::Surface(wall) => {
                let hit = crossing_hit(ray, k, x, y, gx, gy, scene, wall, correction);
                let ghost before = hits@;
                hits.push(hit);
                assert(hits@ + hits_from(scene@, *ray, correction as int, k + 1) == before + (seq![hit]
                    + hits_from(scene@, *ray, correction as int, k + 1)));
            },
        }
        x = x + ray.step_x;
        y = y + ray.step_y;
        k = k + 1;
        proof {
            assert(x == point_x(*ray, k as int)) by (nonlinear_arith)
                requires x == ray.x + (k - 1) * ray.step_x + ray.step_x;
            assert(y == point_y(*ray, k as int)) by (nonlinear_arith)
                requires y == ray.y + (k - 1) * ray.step_y + ray.step_y;
        }
    }
    hits
}

/// The intersection at crossing `k` of a ray, where the crossing lies inside the grid.
fn crossing_hit(
    ray: &Ray,
    k: i64,
    x: i64,
    y: i64,
    gx: i64,
    gy: i64,
    scene: &Scene,
    wall: TextureTile,
    correction: i64,
) -> (r: Intersection)
    requires
        scene.wf(),
        scene@.addressable(),
        ray.wf(),
        0 < correction <= 0x7fff_ffff,
        x == point_x(*ray, k as int),
        y == point_y(*ray, k as int),
        gx == cell_of(x as int),
        gy == cell_of(y as int),
        scene@.in_bounds(gx as int, gy as int),
    ensures
        r == hit_at(*ray, k as int, wall, correction as int),
{
    proof {
        vstd::arithmetic::div_mod::lemma_fundamental_div_mod(x as int, FP_TILE_SIZE as int);
        vstd::arithmetic::div_mod::lemma_fundamental_div_mod(y as int, FP_TILE_SIZE as int);
        let xi = x as int;
        let gxi = gx as int;
        assert(0 <= xi < 0x4000_0000_0000) by (nonlinear_arith)
            requires xi == 4194304 * gxi + xi % 4194304, 0 <= xi % 4194304 < 4194304, 0 <= gxi < 0x100_0000;
        let yi = y as int;
        let gyi = gy as int;
        assert(0 <= yi < 0x4000_0000_0000) by (nonlinear_arith)
            requires yi == 4194304 * gyi + yi % 4194304, 0 <= yi % 4194304 < 4194304, 0 <= gyi < 0x100_0000;
    }
    let wx: i64 = x / 65536;
    let wy: i64 = y / 65536;
    let offset: i64 = if ray.horizontal { y - ray.origin_y } else { x - ray.origin_x };
    proof {
        assert(-0x8000_0000_0000_0000_0000i128 <= offset * ray.inverse <= 0x8000_0000_0000_0000_0000i128) by (nonlinear_arith)
            requires -0x8000_0000_0000 <= offset <= 0x8000_0000_0000, -0x8000_0000 <= ray.inverse <= 0x8000_0000;
    }
    let m: i128 = floor_div_i128(offset as i128 * ray.inverse as i128, 65536);
    proof {
        vstd::arithmetic::div_mod::lemma_div_is_ordered(offset * ray.inverse, 0x8000_0000_0000_0000_0000int, 65536);
        vstd::arithmetic::div_mod::lemma_div_is_ordered(-0x8000_0000_0000_0000_0000int, offset * ray.inverse, 65536);
    }
    let a: i128 = if m < 0 { -m } else { m };
    let q: i128 = a / correction as i128;
    let dist: i32 = if q > 0x7fff_ffff { 0x7fff_ffff } else { q as i32 };
    let column: i64 = if ray.horizontal { wx % 64 } else { wy % 64 };
    Intersection {
        x: wx as i32,
        y: wy as i32,
        dist,
        texture: wall.texture,
        texture_column: column as i32,
        reverse: ray.flipped,
    }
}

/// Whether a sequence of intersections is ordered by non-decreasing distance.
pub open spec fn sorted_by_distance(s: Seq<Intersection>) -> bool {
    forall|i: int, j: int| 0 <= i < j < s.len() ==> #[trigger] s[i].dist <= #[trigger] s[j].dist
}

/// Two sequences merged front to front by distance; on equal distances the second goes first.
pub open spec fn merge_by_distance(a: Seq<Intersection>, b: Seq<Intersection>) -> Seq<Intersection>
    decreases a.len() + b.len(),
{
    if a.len() == 0 {
        b
    } else if b.len() == 0 {
        a
    } else if a[0].dist < b[0].dist {
        seq![a[0]] + merge_by_distance(a.drop_first(), b)
    } else {
        seq![b[0]] + merge_by_distance(a, b.drop_first())
    }
}

proof fn lemma_merge_lower_bound(a: Seq<Intersection>, b: Seq<Intersection>, d: int)
    requires
        forall|i: int| 0 <= i < a.len() ==> d <= #[trigger] a[i].dist,
        forall|j: int| 0 <= j < b.len() ==> d <= #[trigger] b[j].dist,
    ensures
        forall|k: int| 0 <= k < merge_by_distance(a, b).len() ==> d <= #[trigger] merge_by_distance(a, b)[k].dist,
    decreases a.len() + b.len(),
{
    if a.len() == 0 || b.len() == 0 {
    } else if a[0].dist < b[0].dist {
        assert forall|i: int| 0 <= i < a.drop_first().len() implies d <= #[trigger] a.drop_first()[i].dist by {
            assert(a.drop_first()[i] == a[i + 1]);
        }
        lemma_merge_lower_bound(a.drop_first(), b, d);
        let m = merge_by_distance(a, b);
        assert forall|k: int| 0 <= k < m.len() implies d <= #[trigger] m[k].dist by {
            if k > 0 {
                assert(m[k] == merge_by_distance(a.drop_first(), b)[k - 1]);
            }
        }
    } else {
        assert forall|j: int| 0 <= j < b.drop_first().len() implies d <= #[trigger] b.drop_first()[j].dist by {
            assert(b.drop_first()[j] == b[j + 1]);
        }
        lemma_merge_lower_bound(a, b.drop_first(), d);
        let m = merge_by_distance(a, b);
        assert forall|k: int| 0 <= k < m.len() implies d <= #[trigger] m[k].dist by {
            if k > 0 {
                assert(m[k] == merge_by_distance(a, b.drop_first())[k - 1]);
            }
        }
    }
}

proof fn lemma_sorted_tail(s: Seq<Intersection>)
    requires
        s.len() > 0,
        sorted_by_distance(s),
    ensures
        sorted_by_distance(s.drop_first()),
        forall|i: int| 0 <= i < s.drop_first().len() ==> s[0].dist <= #[trigger] s.drop_first()[i].dist,
{
    assert forall|i: int, j: int| 0 <= i < j < s.drop_first().len() implies #[trigger] s.drop_first()[i].dist
        <= #[trigger] s.drop_first()[j].dist by {
        assert(s.drop_first()[i] == s[i + 1] && s.drop_first()[j] == s[j + 1]);
    }
    assert forall|i: int| 0 <= i < s.drop_first().len() implies s[0].dist <= #[trigger] s.drop_first()[i].dist by {
        assert(s.drop_first()[i] == s[i + 1]);
    }
}

/// Merging two sequences that are each ordered by distance gives one sequence ordered by
/// distance that holds exactly the intersections of both, none dropped and none repeated.
pub proof fn lemma_merge_sorted(a: Seq<Intersection>, b: Seq<Intersection>)
    requires
        sorted_by_distance(a),
        sorted_by_distance(b),
    ensures
        sorted_by_distance(merge_by_distance(a, b)),
        merge_by_distance(a, b).to_multiset() == a.to_multiset().add(b.to_multiset()),
    decreases a.len() + b.len(),
{
    broadcast use vstd::multiset::group_multiset_axioms;
    let m = merge_by_distance(a, b);
    if a.len() == 0 {
        vstd::seq_lib::lemma_multiset_commutative(a, b);
        assert(a + b =~= b);
    } else if b.len() == 0 {
        vstd::seq_lib::lemma_multiset_commutative(a, b);
        assert(a + b =~= a);
    } else if a[0].dist < b[0].dist {
        let rest = merge_by_distance(a.drop_first(), b);
        lemma_sorted_tail(a);
        lemma_merge_sorted(a.drop_first(), b);
        lemma_merge_lower_bound(a.drop_first(), b, a[0].dist as int);
        assert forall|i: int, j: int| 0 <= i < j < m.len() implies #[trigger] m[i].dist <= #[trigger] m[j].dist by {
            assert(m[j] == rest[j - 1]);
            if i > 0 {
                assert(m[i] == rest[i - 1]);
            }
        }
        vstd::seq_lib::lemma_multiset_commutative(seq![a[0]], rest);
        vstd::seq_lib::lemma_multiset_commutative(seq![a[0]], a.drop_first());
        assert(seq![a[0]] + a.drop_first() =~= a);
        assert(m.to_multiset() =~= a.to_multiset().add(b.to_multiset()));
    } else {
        let rest = merge_by_distance(a, b.drop_first());
        lemma_sorted_tail(b);
        lemma_merge_sorted(a, b.drop_first());
        lemma_merge_lower_bound(a, b.drop_first(), b[0].dist as int);
        assert forall|i: int| 0 <= i < a.len() implies b[0].dist <= #[trigger] a[i].dist by {
            if i > 0 {
                assert(a[0].dist <= a[i].dist);
            }
        }
        assert forall|i: int, j: int| 0 <= i < j < m.len() implies #[trigger] m[i].dist <= #[trigger] m[j].dist by {
            assert(m[j] == rest[j - 1]);
            if i > 0 {
                assert(m[i] == rest[i - 1]);
            }
        }
        vstd::seq_lib::lemma_multiset_commutative(seq![b[0]], rest);
        vstd::seq_lib::lemma_multiset_commutative(seq![b[0]], b.drop_first());
        assert(seq![b[0]] + b.drop_first() =~= b);
        assert(m.to_multiset() =~= a.to_multiset().add(b.to_multiset()));
    }
}

/// Merges two sequences of intersections front to front by distance.
pub fn merge_by_dist(a: &Vec<Intersection>, b: &Vec<Intersection>) -> (r: Vec<Intersection>)
    ensures
        r@ == merge_by_distance(a@, b@),
{
    let mut out: Vec<Intersection> = Vec::new();
    let mut i: usize = 0;
    let mut j: usize = 0;
    assert(a@.subrange(0, a@.len() as int) =~= a@);
    assert(b@.subrange(0, b@.len() as int) =~= b@);
    while i < a.len() || j < b.len()
        invariant
            i <= a@.len(),
            j <= b@.len(),
            out@ + merge_by_distance(a@.subrange(i as int, a@.len() as int), b@.subrange(j as int, b@.len() as int))
                == merge_by_distance(a@, b@),
        decreases a@.len() - i + b@.len() - j,
    {
        let ghost ra = a@.subrange(i as int, a@.len() as int);
        let ghost rb = b@.subrange(j as int, b@.len() as int);
        let ghost before = out@;
        if j >= b.len() || (i < a.len() && a[i].dist < b[j].dist) {
            proof {
                assert(ra.drop_first() =~= a@.subrange(i + 1, a@.len() as int));
                assert(ra[0] == a@[i as int]);
                if rb.len() == 0 {
                    assert(merge_by_distance(ra, rb) == ra);
                    assert(merge_by_distance(ra.drop_first(), rb) == ra.drop_first());
                    assert(ra =~= seq![ra[0]] + ra.drop_first());
                }
            }
            out.push(a[i]);
            i += 1;
            assert(out@ + merge_by_distance(a@.subrange(i as int, a@.len() as int), rb) =~= before + merge_by_distance(ra, rb));
        } else {
            proof {
                assert(rb.drop_first() =~= b@.subrange(j + 1, b@.len() as int));
                assert(rb[0] == b@[j as int]);
                if ra.len() == 0 {
                    assert(merge_by_distance(ra, rb) == rb);
                    assert(merge_by_distance(ra, rb.drop_first()) == rb.drop_first());
                    assert(rb =~= seq![rb[0]] + rb.drop_first());
                }
            }
            out.push(b[j]);
            j += 1;
            assert(out@ + merge_by_distance(ra, b@.subrange(j as int, b@.len() as int)) =~= before + merge_by_distance(ra, rb));
        }
    }
    proof {
        assert(merge_by_distance(a@.subrange(i as int, a@.len() as int), b@.subrange(j as int, b@.len() as int))
            =~= Seq::<Intersection>::empty());
        assert(out@ + Seq::<Intersection>::empty() =~= out@);
    }
    out
}

/// Whether a ray starts on the side of its origin it steps toward, so that its crossings only
/// move away from the origin along the stepping axis.
pub open spec fn steps_outward(r: Ray) -> bool {
    let start = if r.horizontal { r.y - r.origin_y } else { r.x - r.origin_x };
    let step = if r.horizontal { r.step_y } else { r.step_x };
    (step >= 0 && start >= 0) || (step <= 0 && start <= 0)
}

proof fn lemma_abs_floor_monotone(o1: int, o2: int, inv: int)
    requires
        (0 <= o1 <= o2) || (o2 <= o1 <= 0),
    ensures
        abs(spec_mul(o1, inv)) <= abs(spec_mul(o2, inv)),
{
    let p1 = o1 * inv;
    let p2 = o2 * inv;
    if inv >= 0 {
        if 0 <= o1 && o1 <= o2 {
            assert(0 <= p1 <= p2) by (nonlinear_arith)
                requires 0 <= o1 <= o2, inv >= 0, p1 == o1 * inv, p2 == o2 * inv;
            vstd::arithmetic::div_mod::lemma_div_is_ordered(p1, p2, 65536);
            vstd::arithmetic::div_mod::lemma_div_is_ordered(0, p1, 65536);
        } else {
            assert(p2 <= p1 <= 0) by (nonlinear_arith)
                requires o2 <= o1 <= 0, inv >= 0, p1 == o1 * inv, p2 == o2 * inv;
            vstd::arithmetic::div_mod::lemma_div_is_ordered(p2, p1, 65536);
            vstd::arithmetic::div_mod::lemma_div_is_ordered(p1, 0, 65536);
        }
    } else {
        if 0 <= o1 && o1 <= o2 {
            assert(p2 <= p1 <= 0) by (nonlinear_arith)
                requires 0 <= o1 <= o2, inv < 0, p1 == o1 * inv, p2 == o2 * inv;
            vstd::arithmetic::div_mod::lemma_div_is_ordered(p2, p1, 65536);
            vstd::arithmetic::div_mod::lemma_div_is_ordered(p1, 0, 65536);
        } else {
            assert(0 <= p1 <= p2) by (nonlinear_arith)
                requires o2 <= o1 <= 0, inv < 0, p1 == o1 * inv, p2 == o2 * inv;
            vstd::arithmetic::div_mod::lemma_div_is_ordered(p1, p2, 65536);
            vstd::arithmetic::div_mod::lemma_div_is_ordered(0, p1, 65536);
        }
    }
}

proof fn lemma_crossing_distance_monotone(r: Ray, correction: int, k1: int, k2: int)
    requires
        steps_outward(r),
        0 < correction,
        0 <= k1 <= k2,
    ensures
        0 <= crossing_distance(r, k1, correction) <= crossing_distance(r, k2, correction) <= i32::MAX,
{
    let start = if r.horizontal { r.y - r.origin_y } else { r.x - r.origin_x };
    let step = if r.horizontal { r.step_y } else { r.step_x };
    let o1 = if r.horizontal { point_y(r, k1) - r.origin_y } else { point_x(r, k1) - r.origin_x };
    let o2 = if r.horizontal { point_y(r, k2) - r.origin_y } else { point_x(r, k2) - r.origin_x };
    assert(o1 == start + k1 * step && o2 == start + k2 * step);
    if step >= 0 && start >= 0 {
        assert(0 <= o1 <= o2) by (nonlinear_arith)
            requires o1 == start + k1 * step, o2 == start + k2 * step, 0 <= k1 <= k2, step >= 0, start >= 0;
    } else {
        assert(o2 <= o1 <= 0) by (nonlinear_arith)
            requires o1 == start + k1 * step, o2 == start + k2 * step, 0 <= k1 <= k2, step <= 0, start <= 0;
    }
    lemma_abs_floor_monotone(o1, o2, r.inverse as int);
    vstd::arithmetic::div_mod::lemma_div_is_ordered(abs(spec_mul(o1, r.inverse as int)) as int,
        abs(spec_mul(o2, r.inverse as int)) as int, correction);
    vstd::arithmetic::div_mod::lemma_div_is_ordered(0, abs(spec_mul(o1, r.inverse as int)) as int, correction);
}

proof fn lemma_hits_sorted(s: SceneView, r: Ray, correction: int, k: int)
    requires
        steps_outward(r),
        0 < correction,
        0 <= k,
    ensures
        sorted_by_distance(hits_from(s, r, correction, k)),
        forall|i: int| 0 <= i < hits_from(s, r, correction, k).len()
            ==> crossing_distance(r, k, correction) <= #[trigger] hits_from(s, r, correction, k)[i].dist,
    decreases crossings_in_grid(s, r) - k,
{
    if k >= crossings_in_grid(s, r) {
    } else {
        let rest = hits_from(s, r, correction, k + 1);
        lemma_hits_sorted(s, r, correction, k + 1);
        lemma_crossing_distance_monotone(r, correction, k, k + 1);
        match tile_at(s, r, k) {
            Tile::OutOfBounds => {},
            Tile::Empty => {},
            Tile::Surface(wall) => {
                let all = hits_from(s, r, correction, k);
                assert(all == seq![hit_at(r, k, wall, correction)] + rest);
                assert(all[0].dist == crossing_distance(r, k, correction));
                assert forall|i: int, j: int| 0 <= i < j < all.len() implies #[trigger] all[i].dist <= #[trigger] all[j].dist by {
                    assert(all[j] == rest[j - 1]);
                    if i > 0 {
                        assert(all[i] == rest[i - 1]);
                    }
                }
                assert forall|i: int| 0 <= i < all.len() implies crossing_distance(r, k, correction) <= #[trigger] all[i].dist by {
                    if i > 0 {
                        assert(all[i] == rest[i - 1]);
                    }
                }
            },
        }
    }
}

/// The rays cast from any origin step away from it.
proof fn lemma_rays_step_outward(t: TrigTables, ox: int, oy: int, direction: int)
    requires
        -0x8000_0000 <= ox <= 0x7fff_ffff,
        -0x8000_0000 <= oy <= 0x7fff_ffff,
    ensures
        steps_outward(spec_ray_h(t, ox, oy, direction)),
        steps_outward(spec_ray_v(t, ox, oy, direction)),
{
    vstd::arithmetic::div_mod::lemma_fundamental_div_mod(ox, FP_TILE_SIZE as int);
    vstd::arithmetic::div_mod::lemma_fundamental_div_mod(oy, FP_TILE_SIZE as int);
}

/// The surfaces a ray from an origin in 32-bit fixed point meets come nearest first: their
/// distances never decrease, on each axis and once merged.
pub proof fn lemma_wall_intersections_sorted(t: TrigTables, s: SceneView, ox: int, oy: int, direction: int, correction: int)
    requires
        -0x8000_0000 <= ox <= 0x7fff_ffff,
        -0x8000_0000 <= oy <= 0x7fff_ffff,
        0 < correction,
    ensures
        sorted_by_distance(ray_hits(s, spec_ray_h(t, ox, oy, direction), correction)),
        sorted_by_distance(ray_hits(s, spec_ray_v(t, ox, oy, direction), correction)),
        sorted_by_distance(spec_wall_intersections(t, s, ox, oy, direction, correction)),
        forall|i: int| 0 <= i < spec_wall_intersections(t, s, ox, oy, direction, correction).len()
            ==> 0 <= #[trigger] spec_wall_intersections(t, s, ox, oy, direction, correction)[i].dist,
{
    lemma_rays_step_outward(t, ox, oy, direction);
    lemma_hits_sorted(s, spec_ray_h(t, ox, oy, direction), correction, 0);
    lemma_hits_sorted(s, spec_ray_v(t, ox, oy, direction), correction, 0);
    lemma_crossing_distance_monotone(spec_ray_h(t, ox, oy, direction), correction, 0, 0);
    lemma_crossing_distance_monotone(spec_ray_v(t, ox, oy, direction), correction, 0, 0);
    lemma_merge_lower_bound(
        ray_hits(s, spec_ray_h(t, ox, oy, direction), correction),
        ray_hits(s, spec_ray_v(t, ox, oy, direction), correction),
        0,
    );
    lemma_merge_sorted(
        ray_hits(s, spec_ray_h(t, ox, oy, direction), correction),
        ray_hits(s, spec_ray_v(t, ox, oy, direction), correction),
    );
}

/// Every wall surface a ray from `(ox, oy)` toward `direction` meets, nearest first: the
/// surfaces met on horizontal and on vertical grid lines, merged by distance, with distances
/// divided by `correction`.
pub open spec fn spec_wall_intersections(t: TrigTables, s: SceneView, ox: int, oy: int, direction: int, correction: int) -> Seq<Intersection> {
    merge_by_distance(
        ray_hits(s, spec_ray_h(t, ox, oy, direction), correction),
        ray_hits(s, spec_ray_v(t, ox, oy, direction), correction),
    )
}

/// A ray parallel to one axis meets no grid line of that axis: at 0 and 180 degrees the
/// horizontal scan finds nothing, at 90 and 270 degrees the vertical scan finds nothing.
pub proof fn lemma_axis_aligned_scans_empty(t: TrigTables, s: SceneView, ox: int, oy: int, correction: int)
    ensures
        ray_hits(s, spec_ray_h(t, ox, oy, 0), correction).len() == 0,
        ray_hits(s, spec_ray_h(t, ox, oy, 960), correction).len() == 0,
        ray_hits(s, spec_ray_v(t, ox, oy, 480), correction).len() == 0,
        ray_hits(s, spec_ray_v(t, ox, oy, 1440), correction).len() == 0,
{
}

/// Every wall surface that the ray from `(origin_x, origin_y)` (fixed point) toward
/// `direction` meets, nearest first, with distances corrected for the screen column `sweep`.
pub fn find_wall_intersections(
    origin_x: i32,
    origin_y: i32,
    direction: i32,
    sweep: i32,
    scene: &Scene,
    tables: &TrigTables,
) -> (r: Vec<Intersection>)
    requires
        scene.wf(),
        scene@.addressable(),
        tables.wf(),
        0 <= direction < 1920,
        0 <= sweep < 320,
    ensures
        r@ == spec_wall_intersections(*tables, scene@, origin_x as int, origin_y as int, direction as int,
            tables.spec_fisheye(sweep as int)),
        sorted_by_distance(r@),
        forall|i: int| 0 <= i < r@.len() ==> 0 <= #[trigger] r@[i].dist,
        direction == 0 || direction == 960 ==> r@ == ray_hits(scene@, spec_ray_v(*tables, origin_x as int,
            origin_y as int, direction as int), tables.spec_fisheye(sweep as int)),
        direction == 480 || direction == 1440 ==> r@ == ray_hits(scene@, spec_ray_h(*tables, origin_x as int,
            origin_y as int, direction as int), tables.spec_fisheye(sweep as int)),
{
    proof {
        lemma_wall_intersections_sorted(*tables, scene@, origin_x as int, origin_y as int, direction as int,
            tables.spec_fisheye(sweep as int));
    }
    let correction: i64 = crate::trig::fisheye_correction(tables, sweep) as i64;
    let ray_h = Ray::horizontal(tables, origin_x, origin_y, direction);
    let ray_v = Ray::vertical(tables, origin_x, origin_y, direction);
    let hits_h = cast(&ray_h, scene, correction);
    let hits_v = cast(&ray_v, scene, correction);
    if ray_h.is_undefined() {
        assert(merge_by_distance(hits_h@, hits_v@) == hits_v@);
        return hits_v;
    }
    if ray_v.is_undefined() {
        assert(merge_by_distance(hits_h@, hits_v@) == hits_h@);
        return hits_h;
    }
    merge_by_dist(&hits_h, &hits_v)
}

/// The screen row used for projection: the row on the default horizon is moved down one row,
/// so that no projection divides by zero.
pub open spec fn projected_row(row: int) -> int {
    if row == 100 { row + 1 } else { row }
}

/// Ratio of eye height to a floor row's offset below the default horizon, in fixed point.
pub open spec fn floor_ratio(row: int) -> int {
    spec_div(32int * 65536, projected_row(row) * 65536 - 100 * 65536)
}

/// Ratio of the height from the eye to the ceiling to a ceiling row's offset above the default
/// horizon, in fixed point.
pub open spec fn ceiling_ratio(row: int) -> int {
    spec_div((64 - 32) * 65536, 100 * 65536 - projected_row(row) * 65536)
}

/// Distance along the floor or ceiling plane to the point seen at `ratio` in screen column
/// `column`: the projection-plane distance times the ratio, floored, times the column's
/// fisheye correction.
pub open spec fn surface_distance(t: TrigTables, ratio: int, column: int) -> int {
    spec_mul(spec_floor(spec_mul(277int * 65536, ratio)), t.spec_fisheye(column))
}

/// World x (fixed point) of the floor or ceiling point at `distance` toward `direction`.
pub open spec fn surface_end_x(t: TrigTables, ox: int, direction: int, distance: int) -> int {
    ox + spec_floor(spec_mul(distance, t.spec_cos(direction)))
}

/// World y (fixed point) of the floor or ceiling point at `distance` toward `direction`.
pub open spec fn surface_end_y(t: TrigTables, oy: int, direction: int, distance: int) -> int {
    oy + spec_floor(spec_mul(distance, t.spec_sin(direction)))
}

/// The floor or ceiling intersection for `tile` at the world point `(x_end, y_end)`: the
/// texel coordinates within the tile, the distance and the texture; none where the cell has
/// no surface.
pub open spec fn surface_hit(tile: Tile, x_end: int, y_end: int, distance: int) -> Option<Intersection> {
    match tile {
        Tile::Surface(surface) => Some(Intersection {
            x: (spec_to_int(x_end) % 64) as i32,
            y: (spec_to_int(y_end) % 64) as i32,
            dist: distance as i32,
            texture: surface.texture,
            texture_column: 0,
            reverse: false,
        }),
        _ => None,
    }
}

/// The floor intersection seen at screen `row` in screen `column`.
pub open spec fn spec_floor_intersection(t: TrigTables, s: SceneView, ox: int, oy: int, direction: int, row: int, column: int) -> Option<Intersection> {
    let distance = surface_distance(t, floor_ratio(row), column);
    let x_end = surface_end_x(t, ox, direction, distance);
    let y_end = surface_end_y(t, oy, direction, distance);
    surface_hit(s.floor(cell_of(x_end), cell_of(y_end)), x_end, y_end, distance)
}

/// The ceiling intersection seen at screen `row` in screen `column`.
pub open spec fn spec_ceiling_intersection(t: TrigTables, s: SceneView, ox: int, oy: int, direction: int, row: int, column: int) -> Option<Intersection> {
    let distance = surface_distance(t, ceiling_ratio(row), column);
    let x_end = surface_end_x(t, ox, direction, distance);
    let y_end = surface_end_y(t, oy, direction, distance);
    surface_hit(s.ceiling(cell_of(x_end), cell_of(y_end)), x_end, y_end, distance)
}

proof fn lemma_mul_bound(a: int, b: int, ba: int, bb: int)
    requires
        0 <= ba,
        0 <= bb,
        -ba <= a <= ba,
        -bb <= b <= bb,
    ensures
        -(ba * bb) / 65536 - 1 <= spec_mul(a, b) <= (ba * bb) / 65536,
{
    assert(-(ba * bb) <= a * b <= ba * bb) by (nonlinear_arith)
        requires -ba <= a <= ba, -bb <= b <= bb, 0 <= ba, 0 <= bb;
    vstd::arithmetic::div_mod::lemma_div_is_ordered(a * b, ba * bb, 65536);
    vstd::arithmetic::div_mod::lemma_div_is_ordered(-(ba * bb), a * b, 65536);
    vstd::arithmetic::div_mod::lemma_fundamental_div_mod(ba * bb, 65536);
    vstd::arithmetic::div_mod::lemma_fundamental_div_mod(-(ba * bb), 65536);
}

/// A projection ratio: `numerator` (a whole number of units) over a row offset, in fixed point.
fn row_ratio(numerator: i64, offset: i64) -> (r: i64)
    requires
        0 <= numerator <= 32,
        offset != 0,
        -400 <= offset <= 400,
    ensures
        r == spec_div(numerator * 65536, offset * 65536),
        -0x20_0000 <= r <= 0x20_0000,
{
    let n: i64 = numerator * 65536 * 65536;
    let d: i64 = if offset < 0 { -offset * 65536 } else { offset * 65536 };
    let q: i64 = n / d;
    proof {
        vstd::arithmetic::div_mod::lemma_div_is_ordered_by_denominator(n as int, 65536, d as int);
        assert(n as int / 65536 == numerator * 65536) by {
            vstd::arithmetic::div_mod::lemma_div_multiples_vanish(numerator * 65536, 65536);
            assert(n == 65536 * (numerator * 65536));
        }
    }
    if offset > 0 { q } else { -q }
}

/// The distance and world end point of the floor or ceiling point seen at `ratio`.
fn surface_point(tables: &TrigTables, origin_x: i32, origin_y: i32, direction: i32, ratio: i64, column: i32) -> (r: (i64, i64, i64))
    requires
        tables.wf(),
        0 <= direction < 1920,
        0 <= column < 320,
        -0x20_0000 <= ratio <= 0x20_0000,
    ensures
        r.2 == surface_distance(*tables, ratio as int, column as int),
        r.0 == surface_end_x(*tables, origin_x as int, direction as int, r.2 as int),
        r.1 == surface_end_y(*tables, origin_y as int, direction as int, r.2 as int),
        crate::fp::fits_i32(r.2 as int),
        -0x4000_0000_0000 <= r.0 <= 0x4000_0000_0000,
        -0x4000_0000_0000 <= r.1 <= 0x4000_0000_0000,
{
    let near: i64 = mul_i64(277 * 65536, ratio);
    proof {
        lemma_mul_bound(277int * 65536, ratio as int, 277int * 65536, 0x20_0000);
    }
    let floored: i64 = floor_div_i64(near, 65536) * 65536;
    proof {
        vstd::arithmetic::div_mod::lemma_fundamental_div_mod(near as int, 65536);
    }
    let fish: i64 = crate::trig::fisheye_correction(tables, column) as i64;
    let distance: i64 = mul_i64(floored, fish);
    proof {
        lemma_mul_bound(floored as int, fish as int, 0x2300_0000, 131072);
    }
    let cos: i64 = crate::trig::cos(tables, direction) as i64;
    let sin: i64 = crate::trig::sin(tables, direction) as i64;
    proof {
        assert(crate::trig::unit_bounded(tables.spec_cos(direction as int)));
        assert(crate::trig::unit_bounded(tables.spec_sin(direction as int)));
        lemma_mul_bound(distance as int, cos as int, 0x4600_0001, 65536);
        lemma_mul_bound(distance as int, sin as int, 0x4600_0001, 65536);
    }
    let dx: i64 = mul_i64(distance, cos);
    let dy: i64 = mul_i64(distance, sin);
    proof {
        vstd::arithmetic::div_mod::lemma_fundamental_div_mod(dx as int, 65536);
        vstd::arithmetic::div_mod::lemma_fundamental_div_mod(dy as int, 65536);
    }
    let x_end: i64 = origin_x as i64 + floor_div_i64(dx, 65536) * 65536;
    let y_end: i64 = origin_y as i64 + floor_div_i64(dy, 65536) * 65536;
    (x_end, y_end, distance)
}

/// The texel coordinates, distance and texture of the floor or ceiling point at
/// `(x_end, y_end)`, where `tile` is that cell's surface.
fn to_surface_hit(tile: Tile, x_end: i64, y_end: i64, distance: i64, in_grid: bool) -> (r: Option<Intersection>)
    requires
        crate::fp::fits_i32(distance as int),
        in_grid ==> 0 <= x_end && 0 <= y_end,
        !in_grid ==> tile == Tile::OutOfBounds,
    ensures
        r == surface_hit(tile, x_end as int, y_end as int, distance as int),
{
    match tile {
        Tile::Surface(surface) => Some(Intersection {
            x: ((x_end / 65536) % 64) as i32,
            y: ((y_end / 65536) % 64) as i32,
            dist: distance as i32,
            texture: surface.texture,
            texture_column: 0,
            reverse: false,
        }),
        _ => None,
    }
}

/// Looks up the cell holding `(x_end, y_end)` in the floor or ceiling tiles.
fn surface_tile(scene: &Scene, x_end: i64, y_end: i64, ceiling: bool) -> (r: (Tile, bool))
    requires
        scene.wf(),
        scene@.addressable(),
        -0x4000_0000_0000 <= x_end <= 0x4000_0000_0000,
        -0x4000_0000_0000 <= y_end <= 0x4000_0000_0000,
    ensures
        r.0 == if ceiling { scene@.ceiling(cell_of(x_end as int), cell_of(y_end as int)) } else { scene@.floor(
            cell_of(x_end as int), cell_of(y_end as int)) },
        r.1 ==> 0 <= x_end && 0 <= y_end,
        !r.1 ==> r.0 == Tile::OutOfBounds,
{
    let gx: i64 = floor_div_i64(x_end, FP_TILE_SIZE as i64);
    let gy: i64 = floor_div_i64(y_end, FP_TILE_SIZE as i64);
    if gx < 0 || gy < 0 || gx >= scene.width() as i64 || gy >= scene.height() as i64 {
        return (Tile::OutOfBounds, false);
    }
    proof {
        vstd::arithmetic::div_mod::lemma_fundamental_div_mod(x_end as int, FP_TILE_SIZE as int);
        vstd::arithmetic::div_mod::lemma_fundamental_div_mod(y_end as int, FP_TILE_SIZE as int);
    }
    let tile = if ceiling { scene.ceiling(gx as i32, gy as i32) } else { scene.floor(gx as i32, gy as i32) };
    (tile, true)
}

/// The floor surface seen at screen `row` of screen `column` from `(origin_x, origin_y)`
/// (fixed point) facing `direction`, or none where that point of the floor is outside the
/// grid or bare.
pub fn find_floor_intersection(
    origin_x: i32,
    origin_y: i32,
    direction: i32,
    row: i32,
    column: i32,
    scene: &Scene,
    tables: &TrigTables,
) -> (r: Option<Intersection>)
    requires
        scene.wf(),
        scene@.addressable(),
        tables.wf(),
        0 <= direction < 1920,
        0 <= row < 200,
        0 <= column < 320,
    ensures
        r == spec_floor_intersection(*tables, scene@, origin_x as int, origin_y as int, direction as int, row as int,
            column as int),
{
    let row: i64 = if row == 100 { row as i64 + 1 } else { row as i64 };
    let ratio: i64 = row_ratio(32, row - 100);
    assert(ratio == floor_ratio(row as int)) by {
        assert((row - 100) * 65536 == row * 65536 - 100 * 65536);
    }
    let (x_end, y_end, distance) = surface_point(tables, origin_x, origin_y, direction, ratio, column);
    let (tile, in_grid) = surface_tile(scene, x_end, y_end, false);
    to_surface_hit(tile, x_end, y_end, distance, in_grid)
}

/// The ceiling surface seen at screen `row` of screen `column` from `(origin_x, origin_y)`
/// (fixed point) facing `direction`, or none where that point of the ceiling is outside the
/// grid or bare.
pub fn find_ceiling_intersection(
    origin_x: i32,
    origin_y: i32,
    direction: i32,
    row: i32,
    column: i32,
    scene: &Scene,
    tables: &TrigTables,
) -> (r: Option<Intersection>)
    requires
        scene.wf(),
        scene@.addressable(),
        tables.wf(),
        0 <= direction < 1920,
        0 <= row < 200,
        0 <= column < 320,
    ensures
        r == spec_ceiling_intersection(*tables, scene@, origin_x as int, origin_y as int, direction as int, row as int,
            column as int),
{
    let row: i64 = if row == 100 { row as i64 + 1 } else { row as i64 };
    let ratio: i64 = row_ratio(64 - 32, 100 - row);
    assert(ratio == ceiling_ratio(row as int)) by {
        assert((100 - row) * 65536 == 100 * 65536 - row * 65536);
    }
    let (x_end, y_end, distance) = surface_point(tables, origin_x, origin_y, direction, ratio, column);
    let (tile, in_grid) = surface_tile(scene, x_end, y_end, true);
    to_surface_hit(tile, x_end, y_end, distance, in_grid)
}

proof fn lemma_first_hit(s: SceneView, r: Ray, correction: int, a: int, wall: TextureTile, k: int)
    requires
        0 <= k <= a < crossings_in_grid(s, r),
        forall|i: int| 0 <= i < a ==> #[trigger] tile_at(s, r, i) == Tile::Empty,
        tile_at(s, r, a) == Tile::Surface(wall),
    ensures
        hits_from(s, r, correction, k).len() > 0,
        hits_from(s, r, correction, k)[0] == hit_at(r, a, wall, correction),
    decreases a - k,
{
    if k < a {
        lemma_first_hit(s, r, correction, a, wall, k + 1);
    }
}

/// Whether the first surface that `r` meets is `wall`, at crossing `a`: the `a` crossings
/// before it meet no wall.
pub open spec fn first_wall_at(s: SceneView, r: Ray, a: int, wall: TextureTile) -> bool {
    &&& 0 <= a < crossings_in_grid(s, r)
    &&& forall|i: int| 0 <= i < a ==> #[trigger] tile_at(s, r, i) == Tile::Empty
    &&& tile_at(s, r, a) == Tile::Surface(wall)
}

/// Whether the cell `(gx, gy)` sits in a room whose four walls are all `a` cells away: the
/// nearest wall to the right, to the left, below and above is the `a`-th one out on each side.
pub open spec fn equidistant_walls(s: SceneView, gx: int, gy: int, a: int) -> bool {
    &&& forall|k: int| 0 <= k < a ==> #[trigger] s.x_wall(gx + 1 + k, gy) == Tile::Empty
    &&& forall|k: int| 0 <= k < a ==> #[trigger] s.x_wall(gx - k, gy) == Tile::Empty
    &&& forall|k: int| 0 <= k < a ==> #[trigger] s.y_wall(gx, gy + 1 + k) == Tile::Empty
    &&& forall|k: int| 0 <= k < a ==> #[trigger] s.y_wall(gx, gy - k) == Tile::Empty
    &&& s.x_wall(gx + 1 + a, gy) is Surface
    &&& s.x_wall(gx - a, gy) is Surface
    &&& s.y_wall(gx, gy + 1 + a) is Surface
    &&& s.y_wall(gx, gy - a) is Surface
}

/// The fixed-point coordinate of the centre of cell `g`.
pub open spec fn cell_centre(g: int) -> int {
    (g * 64 + 32) * 65536
}

/// The facts about a cell centre that the four directions share.
proof fn lemma_centre_facts(gx: int, gy: int, a: int)
    ensures
        cell_of(cell_centre(gx)) == gx,
        cell_of(cell_centre(gy)) == gy,
        spec_mul((64 * a + 32) * 65536, 65536) == (64 * a + 32) * 65536,
        spec_mul(-((64 * a + 32) * 65536), -65536) == (64 * a + 32) * 65536,
{
    let tile = FP_TILE_SIZE as int;
    vstd::arithmetic::div_mod::lemma_fundamental_div_mod_converse(cell_centre(gx), tile, gx, 32int * 65536);
    vstd::arithmetic::div_mod::lemma_fundamental_div_mod_converse(cell_centre(gy), tile, gy, 32int * 65536);
    let dist = (64 * a + 32) * 65536;
    vstd::arithmetic::div_mod::lemma_div_multiples_vanish(dist, 65536);
    assert(dist * 65536 == 65536 * dist);
    assert((-dist) * (-65536) == 65536 * dist);
}

/// The first wall a ray from the centre of cell `(gx, gy)` meets facing `direction` (one of the
/// four axis-aligned angles), where the `a`-th wall out in that direction is the first.
proof fn lemma_axis_first_hit(t: TrigTables, s: SceneView, gx: int, gy: int, a: int, correction: int, direction: int)
    requires
        t.wf(),
        s.wf(),
        s.addressable(),
        0 < correction,
        0 <= a,
        equidistant_walls(s, gx, gy, a),
        direction == 0 || direction == 480 || direction == 960 || direction == 1440,
    ensures
        spec_wall_intersections(t, s, cell_centre(gx), cell_centre(gy), direction, correction).len() > 0,
        spec_wall_intersections(t, s, cell_centre(gx), cell_centre(gy), direction, correction)[0].dist
            == saturate(((64 * a + 32) * 65536) / correction) as i32,
{
    let ox = cell_centre(gx);
    let oy = cell_centre(gy);
    let tile = FP_TILE_SIZE as int;
    let dist = (64 * a + 32) * 65536;
    lemma_centre_facts(gx, gy, a);
    assert(t.spec_tan(0) == 0 && t.spec_tan(960) == 0 && t.spec_y_step(0) == 0 && t.spec_y_step(960) == 0);
    assert(t.spec_icos(0) == 65536 && t.spec_icos(960) == -65536);
    assert(t.spec_itan(480) == 0 && t.spec_itan(1440) == 0 && t.spec_x_step(480) == 0 && t.spec_x_step(1440) == 0);
    assert(t.spec_isin(480) == 65536 && t.spec_isin(1440) == -65536);
    assert(ox == gx * tile + 32 * 65536 && oy == gy * tile + 32 * 65536);
    assert(spec_mul(0, 0) == 0);
    if direction == 0 || direction == 960 {
        let right = direction == 0;
        let r = spec_ray_v(t, ox, oy, direction);
        let first = if right { gx + 1 } else { gx };
        let sign = if right { 1int } else { -1int };
        assert(r.x == first * tile && r.y == oy && r.step_x == sign * tile && r.step_y == 0);
        assert(r.inverse == sign * 65536);
        assert forall|i: int| 0 <= i <= a implies #[trigger] tile_at(s, r, i) == s.x_wall(first + sign * i, gy) by {
            assert(point_x(r, i) == (first + sign * i) * tile) by (nonlinear_arith)
                requires point_x(r, i) == r.x + i * r.step_x, r.x == first * tile, r.step_x == sign * tile;
            assert(point_y(r, i) == oy) by (nonlinear_arith)
                requires point_y(r, i) == r.y + i * r.step_y, r.y == oy, r.step_y == 0;
            vstd::arithmetic::div_mod::lemma_div_multiples_vanish(first + sign * i, tile);
            if sign == 1 {
                assert(first + sign * i == gx + 1 + i);
            } else {
                assert(first + sign * i == gx - i);
            }
        }
        assert forall|i: int| 0 <= i < a implies #[trigger] tile_at(s, r, i) == Tile::Empty by {
            assert(tile_at(s, r, i) == s.x_wall(first + sign * i, gy));
            if sign == 1 {
                assert(first + sign * i == gx + 1 + i);
            } else {
                assert(first + sign * i == gx - i);
            }
        }
        assert(s.in_bounds(first + sign * a, gy));
        let w = s.x_wall(first + sign * a, gy)->Surface_0;
        assert(cell_of(r.x as int) == first) by {
            vstd::arithmetic::div_mod::lemma_div_multiples_vanish(first, tile);
        }
        lemma_first_hit(s, r, correction, a, w, 0);
        assert(point_x(r, a) == (first + sign * a) * tile) by (nonlinear_arith)
            requires point_x(r, a) == r.x + a * r.step_x, r.x == first * tile, r.step_x == sign * tile;
        if right {
            assert(point_x(r, a) - ox == dist);
        } else {
            assert(point_x(r, a) - ox == -dist);
        }
        assert(hit_at(r, a, w, correction).dist == saturate(dist / correction) as i32);
    } else {
        let down = direction == 480;
        let r = spec_ray_h(t, ox, oy, direction);
        let first = if down { gy + 1 } else { gy };
        let sign = if down { 1int } else { -1int };
        assert(r.y == first * tile && r.x == ox && r.step_y == sign * tile && r.step_x == 0);
        assert(r.inverse == sign * 65536);
        assert forall|i: int| 0 <= i <= a implies #[trigger] tile_at(s, r, i) == s.y_wall(gx, first + sign * i) by {
            assert(point_y(r, i) == (first + sign * i) * tile) by (nonlinear_arith)
                requires point_y(r, i) == r.y + i * r.step_y, r.y == first * tile, r.step_y == sign * tile;
            assert(point_x(r, i) == ox) by (nonlinear_arith)
                requires point_x(r, i) == r.x + i * r.step_x, r.x == ox, r.step_x == 0;
            vstd::arithmetic::div_mod::lemma_div_multiples_vanish(first + sign * i, tile);
            if sign == 1 {
                assert(first + sign * i == gy + 1 + i);
            } else {
                assert(first + sign * i == gy - i);
            }
        }
        assert forall|i: int| 0 <= i < a implies #[trigger] tile_at(s, r, i) == Tile::Empty by {
            assert(tile_at(s, r, i) == s.y_wall(gx, first + sign * i));
            if sign == 1 {
                assert(first + sign * i == gy + 1 + i);
            } else {
                assert(first + sign * i == gy - i);
            }
        }
        assert(s.in_bounds(gx, first + sign * a));
        let w = s.y_wall(gx, first + sign * a)->Surface_0;
        assert(cell_of(r.y as int) == first) by {
            vstd::arithmetic::div_mod::lemma_div_multiples_vanish(first, tile);
        }
        lemma_first_hit(s, r, correction, a, w, 0);
        assert(point_y(r, a) == (first + sign * a) * tile) by (nonlinear_arith)
            requires point_y(r, a) == r.y + a * r.step_y, r.y == first * tile, r.step_y == sign * tile;
        if down {
            assert(point_y(r, a) - oy == dist);
        } else {
            assert(point_y(r, a) - oy == -dist);
        }
        assert(hit_at(r, a, w, correction).dist == saturate(dist / correction) as i32);
    }
}

/// From the centre of a cell whose four walls are equally far away, the rays cast at 0, 90,
/// 180 and 270 degrees each meet a wall first, and all at the same distance.
pub proof fn lemma_room_symmetry(t: TrigTables, s: SceneView, gx: int, gy: int, a: int, correction: int)
    requires
        t.wf(),
        s.wf(),
        s.addressable(),
        0 < correction,
        0 <= a,
        equidistant_walls(s, gx, gy, a),
    ensures
        ({
            let ox = cell_centre(gx);
            let oy = cell_centre(gy);
            let right = spec_wall_intersections(t, s, ox, oy, 0, correction);
            let down = spec_wall_intersections(t, s, ox, oy, 480, correction);
            let left = spec_wall_intersections(t, s, ox, oy, 960, correction);
            let up = spec_wall_intersections(t, s, ox, oy, 1440, correction);
            &&& right.len() > 0 && down.len() > 0 && left.len() > 0 && up.len() > 0
            &&& right[0].dist == saturate(((64 * a + 32) * 65536) / correction) as i32
            &&& right[0].dist == down[0].dist
            &&& right[0].dist == left[0].dist
            &&& right[0].dist == up[0].dist
        }),
{
    lemma_axis_first_hit(t, s, gx, gy, a, correction, 0);
    lemma_axis_first_hit(t, s, gx, gy, a, correction, 480);
    lemma_axis_first_hit(t, s, gx, gy, a, correction, 960);
    lemma_axis_first_hit(t, s, gx, gy, a, correction, 1440);
}

/// In the centre screen column, whose fisheye correction is one unit, the four axis-aligned
/// rays from the centre of a cell whose four walls are `a` cells away report the true distance
/// to each wall: `64 * a + 32` world units, half a tile plus `a` whole tiles.
pub proof fn lemma_room_symmetry_centre_column(t: TrigTables, s: SceneView, gx: int, gy: int, a: int)
    requires
        t.wf(),
        s.wf(),
        s.addressable(),
        0 <= a,
        equidistant_walls(s, gx, gy, a),
    ensures
        forall|direction: int| #![trigger spec_wall_intersections(t, s, cell_centre(gx), cell_centre(gy), direction, t.spec_fisheye(160))]
            direction == 0 || direction == 480 || direction == 960 || direction == 1440 ==> {
                let hits = spec_wall_intersections(t, s, cell_centre(gx), cell_centre(gy), direction, t.spec_fisheye(160));
                hits.len() > 0 && hits[0].dist == 64 * a + 32
            },
{
    assert(t.spec_fisheye(160) == 65536);
    assert(s.in_bounds(gx + 1 + a, gy));
    let dist = (64 * a + 32) * 65536;
    assert(dist / 65536 == 64 * a + 32) by {
        vstd::arithmetic::div_mod::lemma_div_multiples_vanish(64 * a + 32, 65536);
        assert(dist == 65536 * (64 * a + 32));
    }
    assert forall|direction: int| direction == 0 || direction == 480 || direction == 960 || direction == 1440 implies {
        let hits = #[trigger] spec_wall_intersections(t, s, cell_centre(gx), cell_centre(gy), direction, t.spec_fisheye(160));
        hits.len() > 0 && hits[0].dist == 64 * a + 32
    } by {
        lemma_axis_first_hit(t, s, gx, gy, a, 65536, direction);
    }
}

} // verus!
