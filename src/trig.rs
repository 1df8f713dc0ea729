use vstd::prelude::*;
use crate::fp::floor_div_i64;
use crate::consts::{ANGLE_TABLE_SIZE, MAX_RAY_LENGTH, PROJECTION_PLANE_HEIGHT, PROJECTION_PLANE_HORIZON,
    PROJECTION_PLANE_WIDTH, TEXTURE_HEIGHT, WALL_HEIGHT_MAX, WALL_HEIGHT_MIN, WALL_HEIGHT_SCALE_FACTOR};

verus! {

/// Precomputed fixed-point trigonometric tables, one entry per angle unit in
/// `[ANGLE_0, ANGLE_360]`, and the per-column fisheye correction.
///
/// The tables are built once from outside data and read by the ray caster, the floor and
/// ceiling projection and the collision resolver.
pub struct TrigTables {
    sin: Vec<i32>,
    cos: Vec<i32>,
    tan: Vec<i32>,
    isin: Vec<i32>,
    icos: Vec<i32>,
    itan: Vec<i32>,
    x_step: Vec<i32>,
    y_step: Vec<i32>,
    fisheye: Vec<i32>,
}

/// Whether `v` lies within one unit, in fixed point, of zero.
pub open spec fn unit_bounded(v: int) -> bool {
    -65536 <= v <= 65536
}

/// Tables of the right sizes, with sines and cosines within one unit, fisheye corrections
/// in `[1, 2]` (the secant of an offset within 60 degrees), exactly 1 on the centre column
/// and symmetric about it, grid steps whose signs follow the cosine (x) and the sine (y), and exact entries on the four axis-aligned angles: sines and cosines are 0 or
/// ±1, tangents and grid steps along the axis are 0, and the reciprocals that are finite are ±1.
pub open spec fn valid_tables(sin: Seq<i32>, cos: Seq<i32>, tan: Seq<i32>, isin: Seq<i32>, icos: Seq<i32>, itan: Seq<i32>, x_step: Seq<i32>, y_step: Seq<i32>, fisheye: Seq<i32>) -> bool {
    &&& sin.len() == ANGLE_TABLE_SIZE
    &&& cos.len() == ANGLE_TABLE_SIZE
    &&& tan.len() == ANGLE_TABLE_SIZE
    &&& isin.len() == ANGLE_TABLE_SIZE
    &&& icos.len() == ANGLE_TABLE_SIZE
    &&& itan.len() == ANGLE_TABLE_SIZE
    &&& x_step.len() == ANGLE_TABLE_SIZE
    &&& y_step.len() == ANGLE_TABLE_SIZE
    &&& fisheye.len() == PROJECTION_PLANE_WIDTH
    &&& forall|a: int| 0 <= a < ANGLE_TABLE_SIZE ==> #[trigger] unit_bounded(sin[a] as int)
    &&& forall|a: int| 0 <= a < ANGLE_TABLE_SIZE ==> #[trigger] unit_bounded(cos[a] as int)
    &&& forall|c: int| 0 <= c < PROJECTION_PLANE_WIDTH ==> 65536 <= #[trigger] fisheye[c] <= 131072
    &&& fisheye[160] == 65536
    &&& forall|k: int| 1 <= k < 160 ==> #[trigger] fisheye[160 - k] == fisheye[160 + k]
    &&& forall|a: int| 480 < a < 1440 ==> #[trigger] x_step[a] <= 0
    &&& forall|a: int| (0 <= a < 480 || 1440 < a < ANGLE_TABLE_SIZE) ==> #[trigger] x_step[a] >= 0
    &&& forall|a: int| 0 <= a < 960 ==> #[trigger] y_step[a] >= 0
    &&& forall|a: int| 960 < a < ANGLE_TABLE_SIZE ==> #[trigger] y_step[a] <= 0
    &&& sin[1920] == 0 && cos[1920] == 65536
    &&& sin[0] == 0 && cos[0] == 65536
    &&& sin[480] == 65536 && cos[480] == 0
    &&& sin[960] == 0 && cos[960] == -65536
    &&& sin[1440] == -65536 && cos[1440] == 0
    &&& tan[0] == 0 && tan[960] == 0
    &&& itan[480] == 0 && itan[1440] == 0
    &&& isin[480] == 65536 && isin[1440] == -65536
    &&& icos[0] == 65536 && icos[960] == -65536
    &&& x_step[480] == 0 && x_step[1440] == 0
    &&& y_step[0] == 0 && y_step[960] == 0
}

impl TrigTables {
    /// The sine table.
    pub closed spec fn sin_table(&self) -> Seq<i32> {
        self.sin@
    }

    /// The table's sine at angle `a`.
    pub open spec fn spec_sin(&self, a: int) -> int {
        self.sin_table()[a] as int
    }

    /// The cosine table.
    pub closed spec fn cos_table(&self) -> Seq<i32> {
        self.cos@
    }

    /// The table's cosine at angle `a`.
    pub open spec fn spec_cos(&self, a: int) -> int {
        self.cos_table()[a] as int
    }

    /// The tangent table.
    pub closed spec fn tan_table(&self) -> Seq<i32> {
        self.tan@
    }

    /// The table's tangent at angle `a`.
    pub open spec fn spec_tan(&self, a: int) -> int {
        self.tan_table()[a] as int
    }

    /// The reciprocal of the sine table.
    pub closed spec fn isin_table(&self) -> Seq<i32> {
        self.isin@
    }

    /// The table's reciprocal of the sine at angle `a`.
    pub open spec fn spec_isin(&self, a: int) -> int {
        self.isin_table()[a] as int
    }

    /// The reciprocal of the cosine table.
    pub closed spec fn icos_table(&self) -> Seq<i32> {
        self.icos@
    }

    /// The table's reciprocal of the cosine at angle `a`.
    pub open spec fn spec_icos(&self, a: int) -> int {
        self.icos_table()[a] as int
    }

    /// The reciprocal of the tangent table.
    pub closed spec fn itan_table(&self) -> Seq<i32> {
        self.itan@
    }

    /// The table's reciprocal of the tangent at angle `a`.
    pub open spec fn spec_itan(&self, a: int) -> int {
        self.itan_table()[a] as int
    }

    /// The horizontal world distance a ray travels between two consecutive horizontal grid lines table.
    pub closed spec fn x_step_table(&self) -> Seq<i32> {
        self.x_step@
    }

    /// The table's horizontal world distance a ray travels between two consecutive horizontal grid lines at angle `a`.
    pub open spec fn spec_x_step(&self, a: int) -> int {
        self.x_step_table()[a] as int
    }

    /// The vertical world distance a ray travels between two consecutive vertical grid lines table.
    pub closed spec fn y_step_table(&self) -> Seq<i32> {
        self.y_step@
    }

    /// The table's vertical world distance a ray travels between two consecutive vertical grid lines at angle `a`.
    pub open spec fn spec_y_step(&self, a: int) -> int {
        self.y_step_table()[a] as int
    }

    /// The fisheye correction table, one entry per screen column.
    pub closed spec fn fisheye_table(&self) -> Seq<i32> {
        self.fisheye@
    }

    /// The fisheye correction of screen column `c`.
    pub open spec fn spec_fisheye(&self, c: int) -> int {
        self.fisheye_table()[c] as int
    }

    /// Well-formed tables: see [`valid_tables`].
    pub open spec fn wf(&self) -> bool {
        valid_tables(self.sin_table(), self.cos_table(), self.tan_table(), self.isin_table(), self.icos_table(), self.itan_table(), self.x_step_table(), self.y_step_table(), self.fisheye_table())
    }

    /// Builds the tables, or refuses them where they are not well formed.
    pub fn new(sin: Vec<i32>, cos: Vec<i32>, tan: Vec<i32>, isin: Vec<i32>, icos: Vec<i32>, itan: Vec<i32>, x_step: Vec<i32>, y_step: Vec<i32>, fisheye: Vec<i32>) -> (r: Result<TrigTables, &'static str>)
        ensures
            r is Ok <==> valid_tables(sin@, cos@, tan@, isin@, icos@, itan@, x_step@, y_step@, fisheye@),
            r matches Ok(t) ==> t.wf() && t.sin_table() == sin@ && t.cos_table() == cos@ && t.tan_table() == tan@ && t.isin_table() == isin@ && t.icos_table() == icos@ && t.itan_table() == itan@ && t.x_step_table() == x_step@ && t.y_step_table() == y_step@ && t.fisheye_table() == fisheye@,
    {
        if sin.len() != ANGLE_TABLE_SIZE || cos.len() != ANGLE_TABLE_SIZE || tan.len() != ANGLE_TABLE_SIZE || isin.len() != ANGLE_TABLE_SIZE || icos.len() != ANGLE_TABLE_SIZE || itan.len() != ANGLE_TABLE_SIZE || x_step.len() != ANGLE_TABLE_SIZE || y_step.len() != ANGLE_TABLE_SIZE {
            return Err("every angle table needs one entry per angle unit");
        }
        if fisheye.len() != PROJECTION_PLANE_WIDTH as usize {
            return Err("the fisheye table needs one entry per screen column");
        }
        if !all_unit_bounded(&sin) || !all_unit_bounded(&cos) {
            return Err("sines and cosines must lie within one unit");
        }
        if !all_secants(&fisheye) || fisheye[160] != 65536 || !symmetric_about_centre(&fisheye) {
            return Err("fisheye corrections must be secants: in [1, 2], 1 at the centre and symmetric about it");
        }
        if !steps_follow_signs(&x_step, &y_step) {
            return Err("grid steps must point the way the ray faces");
        }
        let t = TrigTables { sin, cos, tan, isin, icos, itan, x_step, y_step, fisheye };
        if !t.check_axis_exact() {
            return Err("the tables are not exact on the axes");
        }
        Ok(t)
    }

    fn check_axis_exact(&self) -> (r: bool)
        requires
            self.sin@.len() == ANGLE_TABLE_SIZE,
            self.cos@.len() == ANGLE_TABLE_SIZE,
            self.tan@.len() == ANGLE_TABLE_SIZE,
            self.isin@.len() == ANGLE_TABLE_SIZE,
            self.icos@.len() == ANGLE_TABLE_SIZE,
            self.itan@.len() == ANGLE_TABLE_SIZE,
            self.x_step@.len() == ANGLE_TABLE_SIZE,
            self.y_step@.len() == ANGLE_TABLE_SIZE,
        ensures
            r == (self.sin@[0] == 0 && self.cos@[0] == 65536 && self.sin@[480] == 65536 && self.cos@[480] == 0
                && self.sin@[960] == 0 && self.cos@[960] == -65536 && self.sin@[1440] == -65536 && self.cos@[1440] == 0
                && self.tan@[0] == 0 && self.tan@[960] == 0 && self.itan@[480] == 0 && self.itan@[1440] == 0
                && self.isin@[480] == 65536 && self.isin@[1440] == -65536 && self.icos@[0] == 65536 && self.icos@[960] == -65536
                && self.x_step@[480] == 0 && self.x_step@[1440] == 0 && self.y_step@[0] == 0 && self.y_step@[960] == 0
                && self.sin@[1920] == 0 && self.cos@[1920] == 65536),
    {
        &&& self.sin[0] == 0 && self.cos[0] == 65536
        &&& self.sin[480] == 65536 && self.cos[480] == 0
        &&& self.sin[960] == 0 && self.cos[960] == -65536
        &&& self.sin[1440] == -65536 && self.cos[1440] == 0
        &&& self.tan[0] == 0 && self.tan[960] == 0
        &&& self.itan[480] == 0 && self.itan[1440] == 0
        &&& self.isin[480] == 65536 && self.isin[1440] == -65536
        &&& self.icos[0] == 65536 && self.icos[960] == -65536
        &&& self.x_step[480] == 0 && self.x_step[1440] == 0
        &&& self.y_step[0] == 0 && self.y_step[960] == 0
        &&& self.sin[1920] == 0 && self.cos[1920] == 65536
    }
}

fn all_unit_bounded(v: &Vec<i32>) -> (r: bool)
    ensures
        r == forall|i: int| 0 <= i < v@.len() ==> #[trigger] unit_bounded(v@[i] as int),
{
    let mut i: usize = 0;
    while i < v.len()
        invariant
            i <= v@.len(),
            forall|j: int| 0 <= j < i ==> #[trigger] unit_bounded(v@[j] as int),
        decreases v@.len() - i,
    {
        if v[i] < -65536 || v[i] > 65536 {
            assert(!unit_bounded(v@[i as int] as int));
            return false;
        }
        i += 1;
    }
    true
}

fn symmetric_about_centre(v: &Vec<i32>) -> (r: bool)
    requires
        v@.len() == 320,
    ensures
        r == forall|k: int| 1 <= k < 160 ==> #[trigger] v@[160 - k] == v@[160 + k],
{
    let mut k: usize = 1;
    while k < 160
        invariant
            v@.len() == 320,
            1 <= k <= 160,
            forall|j: int| 1 <= j < k ==> #[trigger] v@[160 - j] == v@[160 + j],
        decreases 160 - k,
    {
        if v[160 - k] != v[160 + k] {
            return false;
        }
        k += 1;
    }
    true
}

fn steps_follow_signs(x_step: &Vec<i32>, y_step: &Vec<i32>) -> (r: bool)
    requires
        x_step@.len() == ANGLE_TABLE_SIZE,
        y_step@.len() == ANGLE_TABLE_SIZE,
    ensures
        r == ((forall|a: int| 480 < a < 1440 ==> #[trigger] x_step@[a] <= 0)
            && (forall|a: int| (0 <= a < 480 || 1440 < a < ANGLE_TABLE_SIZE) ==> #[trigger] x_step@[a] >= 0)
            && (forall|a: int| 0 <= a < 960 ==> #[trigger] y_step@[a] >= 0)
            && (forall|a: int| 960 < a < ANGLE_TABLE_SIZE ==> #[trigger] y_step@[a] <= 0)),
{
    let mut a: usize = 0;
    while a < ANGLE_TABLE_SIZE
        invariant
            x_step@.len() == ANGLE_TABLE_SIZE,
            y_step@.len() == ANGLE_TABLE_SIZE,
            a <= ANGLE_TABLE_SIZE,
            forall|b: int| 480 < b < 1440 && b < a ==> #[trigger] x_step@[b] <= 0,
            forall|b: int| (0 <= b < 480 || 1440 < b < ANGLE_TABLE_SIZE) && b < a ==> #[trigger] x_step@[b] >= 0,
            forall|b: int| 0 <= b < 960 && b < a ==> #[trigger] y_step@[b] >= 0,
            forall|b: int| 960 < b < ANGLE_TABLE_SIZE && b < a ==> #[trigger] y_step@[b] <= 0,
        decreases ANGLE_TABLE_SIZE - a,
    {
        if a > 480 && a < 1440 && x_step[a] > 0 {
            return false;
        }
        if (a < 480 || a > 1440) && x_step[a] < 0 {
            return false;
        }
        if a < 960 && y_step[a] < 0 {
            return false;
        }
        if a > 960 && y_step[a] > 0 {
            return false;
        }
        a += 1;
    }
    true
}

fn all_secants(v: &Vec<i32>) -> (r: bool)
    ensures
        r == forall|i: int| 0 <= i < v@.len() ==> 65536 <= #[trigger] v@[i] <= 131072,
{
    let mut i: usize = 0;
    while i < v.len()
        invariant
            i <= v@.len(),
            forall|j: int| 0 <= j < i ==> 65536 <= #[trigger] v@[j] <= 131072,
        decreases v@.len() - i,
    {
        if v[i] < 65536 || v[i] > 131072 {
            return false;
        }
        i += 1;
    }
    true
}

/// The sine at angle `degrees`, in fixed point.
pub fn sin(tables: &TrigTables, degrees: i32) -> (r: i32)
    requires
        tables.wf(),
        0 <= degrees < ANGLE_TABLE_SIZE,
    ensures
        r == tables.spec_sin(degrees as int),
{
    tables.sin[degrees as usize]
}

/// The cosine at angle `degrees`, in fixed point.
pub fn cos(tables: &TrigTables, degrees: i32) -> (r: i32)
    requires
        tables.wf(),
        0 <= degrees < ANGLE_TABLE_SIZE,
    ensures
        r == tables.spec_cos(degrees as int),
{
    tables.cos[degrees as usize]
}

/// The tangent at angle `degrees`, in fixed point.
pub fn tan(tables: &TrigTables, degrees: i32) -> (r: i32)
    requires
        tables.wf(),
        0 <= degrees < ANGLE_TABLE_SIZE,
    ensures
        r == tables.spec_tan(degrees as int),
{
    tables.tan[degrees as usize]
}

/// The reciprocal of the sine at angle `degrees`, in fixed point.
pub fn isin(tables: &TrigTables, degrees: i32) -> (r: i32)
    requires
        tables.wf(),
        0 <= degrees < ANGLE_TABLE_SIZE,
    ensures
        r == tables.spec_isin(degrees as int),
{
    tables.isin[degrees as usize]
}

/// The reciprocal of the cosine at angle `degrees`, in fixed point.
pub fn icos(tables: &TrigTables, degrees: i32) -> (r: i32)
    requires
        tables.wf(),
        0 <= degrees < ANGLE_TABLE_SIZE,
    ensures
        r == tables.spec_icos(degrees as int),
{
    tables.icos[degrees as usize]
}

/// The reciprocal of the tangent at angle `degrees`, in fixed point.
pub fn itan(tables: &TrigTables, degrees: i32) -> (r: i32)
    requires
        tables.wf(),
        0 <= degrees < ANGLE_TABLE_SIZE,
    ensures
        r == tables.spec_itan(degrees as int),
{
    tables.itan[degrees as usize]
}

/// The horizontal world distance a ray travels between two consecutive horizontal grid lines at angle `degrees`, in fixed point.
pub fn x_step(tables: &TrigTables, degrees: i32) -> (r: i32)
    requires
        tables.wf(),
        0 <= degrees < ANGLE_TABLE_SIZE,
    ensures
        r == tables.spec_x_step(degrees as int),
{
    tables.x_step[degrees as usize]
}

/// The vertical world distance a ray travels between two consecutive vertical grid lines at angle `degrees`, in fixed point.
pub fn y_step(tables: &TrigTables, degrees: i32) -> (r: i32)
    requires
        tables.wf(),
        0 <= degrees < ANGLE_TABLE_SIZE,
    ensures
        r == tables.spec_y_step(degrees as int),
{
    tables.y_step[degrees as usize]
}

/// The fisheye correction of screen column `column`: the secant of its angular offset from
/// the centre column, in fixed point.
pub fn fisheye_correction(tables: &TrigTables, column: i32) -> (r: i32)
    requires
        tables.wf(),
        0 <= column < PROJECTION_PLANE_WIDTH,
    ensures
        r == tables.spec_fisheye(column as int),
        65536 <= r <= 131072,
{
    tables.fisheye[column as usize]
}

/// On-screen height of a wall seen at perpendicular distance `distance` (world units):
/// the scale factor over the distance, with the distance capped at the longest ray and at
/// least one, clamped to `[WALL_HEIGHT_MIN, WALL_HEIGHT_MAX]`.
pub open spec fn spec_wall_height(distance: int) -> int {
    let d = if distance > MAX_RAY_LENGTH { MAX_RAY_LENGTH as int } else if distance < 1 { 1 } else { distance };
    clamp_int(WALL_HEIGHT_SCALE_FACTOR as int / d, WALL_HEIGHT_MIN as int, WALL_HEIGHT_MAX as int)
}

/// `x` limited to `[lo, hi]`.
pub open spec fn clamp_int(x: int, lo: int, hi: int) -> int {
    if x < lo {
        lo
    } else if x > hi {
        hi
    } else {
        x
    }
}

/// `x` limited to `[min, max]`.
pub fn clamp(x: i32, min: i32, max: i32) -> (r: i32)
    requires
        min <= max,
    ensures
        r == clamp_int(x as int, min as int, max as int),
{
    if x < min {
        min
    } else if x > max {
        max
    } else {
        x
    }
}

/// On-screen height, in pixels, of a wall at perpendicular distance `distance`.
pub fn wall_height(distance: i32) -> (r: i32)
    ensures
        r == spec_wall_height(distance as int),
        WALL_HEIGHT_MIN <= r <= WALL_HEIGHT_MAX,
{
    let d: i32 = if distance > MAX_RAY_LENGTH { MAX_RAY_LENGTH } else if distance < 1 { 1 } else { distance };
    clamp(WALL_HEIGHT_SCALE_FACTOR / d, WALL_HEIGHT_MIN, WALL_HEIGHT_MAX)
}

/// Wall height only shrinks as the distance grows, and always lies within
/// `[WALL_HEIGHT_MIN, WALL_HEIGHT_MAX]`.
pub proof fn lemma_wall_height_monotonic(d1: int, d2: int)
    requires
        0 <= d1 < d2,
    ensures
        spec_wall_height(d1) >= spec_wall_height(d2),
        WALL_HEIGHT_MIN <= spec_wall_height(d1) <= WALL_HEIGHT_MAX,
        WALL_HEIGHT_MIN <= spec_wall_height(d2) <= WALL_HEIGHT_MAX,
{
    let c1 = if d1 > MAX_RAY_LENGTH { MAX_RAY_LENGTH as int } else if d1 < 1 { 1 } else { d1 };
    let c2 = if d2 > MAX_RAY_LENGTH { MAX_RAY_LENGTH as int } else if d2 < 1 { 1 } else { d2 };
    assert(1 <= c1 <= c2);
    vstd::arithmetic::div_mod::lemma_div_is_ordered_by_denominator(WALL_HEIGHT_SCALE_FACTOR as int, c1, c2);
}

/// Texture row sampled at screen row `y` for a wall `height` pixels tall centred on `horizon`:
/// the row's offset from the wall's top edge, scaled from wall pixels to texels, kept inside
/// the texture.
pub open spec fn spec_texture_row(y: int, horizon: int, height: int) -> int {
    clamp_int(((y - horizon + height / 2) * TEXTURE_HEIGHT) / height, 0, TEXTURE_HEIGHT - 1)
}

/// Texture row for each screen row of a wall of (clamped) height `height` centred on `horizon`.
pub fn wall_texture_rows(height: i32, horizon: i32) -> (r: Vec<usize>)
    ensures
        r@.len() == PROJECTION_PLANE_HEIGHT,
        forall|y: int| 0 <= y < PROJECTION_PLANE_HEIGHT ==> #[trigger] r@[y] as int == spec_texture_row(
            y, horizon as int, clamp_int(height as int, WALL_HEIGHT_MIN as int, WALL_HEIGHT_MAX as int)),
{
    let h = clamp(height, WALL_HEIGHT_MIN, WALL_HEIGHT_MAX);
    let mut rows: Vec<usize> = Vec::new();
    let mut y: i32 = 0;
    while y < PROJECTION_PLANE_HEIGHT
        invariant
            0 <= y <= PROJECTION_PLANE_HEIGHT,
            WALL_HEIGHT_MIN <= h <= WALL_HEIGHT_MAX,
            h == clamp_int(height as int, WALL_HEIGHT_MIN as int, WALL_HEIGHT_MAX as int),
            rows@.len() == y,
            forall|j: int| 0 <= j < y ==> #[trigger] rows@[j] as int == spec_texture_row(j, horizon as int, h as int),
        decreases PROJECTION_PLANE_HEIGHT - y,
    {
        let offset: i64 = (y as i64 - horizon as i64 + (h / 2) as i64) * 64;
        let q: i64 = floor_div_i64(offset, h as i64);
        let t: i64 = if q < 0 { 0 } else if q > 63 { 63 } else { q };
        rows.push(t as usize);
        y += 1;
    }
    rows
}

/// Texture row for each screen row of a wall of height `height` centred on the default horizon.
pub fn wall_texture_index(height: i32) -> (r: Vec<usize>)
    ensures
        r@.len() == PROJECTION_PLANE_HEIGHT,
        forall|y: int| 0 <= y < PROJECTION_PLANE_HEIGHT ==> #[trigger] r@[y] as int == spec_texture_row(
            y, PROJECTION_PLANE_HORIZON as int, clamp_int(height as int, WALL_HEIGHT_MIN as int, WALL_HEIGHT_MAX as int)),
{
    wall_texture_rows(height, PROJECTION_PLANE_HORIZON)
}

} // verus!
