use vstd::prelude::*;
use crate::camera::{normalize_angle, Camera};
use crate::raycast::{
    find_ceiling_intersection, find_floor_intersection, find_wall_intersections, spec_ceiling_intersection,
    spec_floor_intersection, spec_wall_intersections, Intersection,
};
use crate::scene::{Scene, SceneView};
use crate::texture::{spec_blend, Colour, TextureMap, TextureMapView};
use crate::trig::{spec_texture_row, spec_wall_height, wall_height, wall_texture_rows, TrigTables};
use crate::fp::to_fp;

verus! {

/// Bytes in a frame: four per pixel of the projection plane, row by row.
pub const FRAME_BYTES: usize = 256000;

/// The drawing parameters of one wall surface in one screen column: the texture column, the
/// texture row to sample for each screen row, and the screen rows the wall covers.
pub struct RenderParameters<'a> {
    pub texture: &'a [Colour],
    pub tex_idx: Vec<usize>,
    pub y_min: i32,
    pub y_max: i32,
}

/// The contents of drawing parameters.
pub ghost struct Span {
    pub texture: Seq<Colour>,
    pub tex_idx: Seq<usize>,
    pub y_min: int,
    pub y_max: int,
}

impl<'a> RenderParameters<'a> {
    pub open spec fn view(&self) -> Span {
        Span { texture: self.texture@, tex_idx: self.tex_idx@, y_min: self.y_min as int, y_max: self.y_max as int }
    }

    pub fn new(texture: &'a [Colour], tex_idx: Vec<usize>, y_min: i32, y_max: i32) -> (r: RenderParameters<'a>)
        ensures
            r.view() == (Span { texture: texture@, tex_idx: tex_idx@, y_min: y_min as int, y_max: y_max as int }),
    {
        RenderParameters { texture, tex_idx, y_min, y_max }
    }
}

/// Options of a renderer; there are none yet.
pub struct RenderConfig {}

impl RenderConfig {
    pub fn new() -> (r: RenderConfig) {
        RenderConfig {}
    }

    pub fn default() -> (r: RenderConfig) {
        RenderConfig {}
    }
}

/// The span that a wall intersection covers in a column whose horizon is at `horizon`: a wall
/// as tall as the distance gives, centred on the horizon and kept on screen, sampling the
/// intersection's texture column (none where the texture map lacks it).
pub open spec fn span_of(i: Intersection, textures: TextureMapView, horizon: int) -> Span {
    let height = spec_wall_height(i.dist as int);
    let mid = height / 2;
    Span {
        texture: if textures.holds_column(i.texture as int, i.texture_column as int, i.reverse) {
            textures.column(i.texture as int, i.texture_column as int, i.reverse)
        } else {
            Seq::empty()
        },
        tex_idx: Seq::new(200, |y: int| spec_texture_row(y, horizon, height) as usize),
        y_min: if horizon - mid < 0 { 0 } else { horizon - mid },
        y_max: if horizon + mid > 199 { 199 } else { horizon + mid },
    }
}

/// The texel that a floor or ceiling intersection shows, where there is one.
pub open spec fn surface_texel(textures: TextureMapView, hit: Option<Intersection>) -> Option<Colour> {
    match hit {
        Some(i) => textures.texel(i.texture as int, i.x as int, i.y as int),
        None => None,
    }
}

/// The colour of screen row `y` seen through the spans from the `k`-th on, front to back:
/// each span covering the row is composited behind what is already there, until a span does
/// not cover the row or the colour is opaque. A texel outside its texture is transparent.
pub open spec fn composite(spans: Seq<Span>, y: int, k: int, acc: Colour) -> Colour
    decreases spans.len() - k,
{
    if k < 0 || k >= spans.len() || y < spans[k].y_min || y > spans[k].y_max || acc.a >= 255 {
        acc
    } else {
        let t = spans[k].tex_idx[y] as int;
        let next = if t < spans[k].texture.len() { spec_blend(acc, spans[k].texture[t]) } else { acc };
        composite(spans, y, k + 1, next)
    }
}

/// The colour of screen row `y` of a column, given what the frame held there before.
///
/// Rows above the nearest span show the ceiling, rows below it the floor, and rows outside
/// every wall keep their colour where no surface is seen. Within the nearest span the walls
/// are composited front to back; the floor (below the horizon) or the ceiling (above it) shows
/// through what stays transparent; and the result is composited over the old colour.
pub open spec fn column_colour(
    spans: Seq<Span>,
    y: int,
    horizon: int,
    floor: Option<Colour>,
    ceiling: Option<Colour>,
    old: Colour,
) -> Colour {
    let y_min = if spans.len() > 0 { spans[0].y_min } else { horizon + 1 };
    let y_max = if spans.len() > 0 { spans[0].y_max } else { horizon };
    if y < y_min {
        match ceiling { Some(c) => c, None => old }
    } else if y > y_max {
        match floor { Some(c) => c, None => old }
    } else {
        let p = composite(spans, y, 0, Colour { r: 0, g: 0, b: 0, a: 0 });
        let behind = if y > horizon { floor } else { ceiling };
        let p2 = if p.a < 255 {
            match behind { Some(c) => spec_blend(p, c), None => p }
        } else {
            p
        };
        spec_blend(p2, old)
    }
}

/// Index of the first byte of pixel `(x, y)` in a frame.
pub open spec fn pixel_index(x: int, y: int) -> int {
    4 * (x + y * 320)
}

/// The colour a frame holds at pixel `(x, y)`.
pub open spec fn colour_at(buf: Seq<u8>, x: int, y: int) -> Colour {
    let i = pixel_index(x, y);
    Colour { r: buf[i], g: buf[i + 1], b: buf[i + 2], a: buf[i + 3] }
}

/// Whether byte `i` of a frame belongs to screen column `x`.
pub open spec fn in_column(i: int, x: int) -> bool {
    (i / 4) % 320 == x
}

proof fn lemma_pixel_bytes(x: int, y: int, k: int)
    requires
        0 <= x < 320,
        0 <= y < 200,
        0 <= k < 4,
    ensures
        in_column(pixel_index(x, y) + k, x),
        0 <= pixel_index(x, y) + k < 256000,
{
    vstd::arithmetic::div_mod::lemma_fundamental_div_mod_converse(pixel_index(x, y) + k, 4, x + y * 320, k);
    vstd::arithmetic::div_mod::lemma_fundamental_div_mod_converse(x + y * 320, 320, y, x);
}

/// The spans of the wall intersections of one column, nearest first.
pub open spec fn spans_of(hits: Seq<Intersection>, textures: TextureMapView, horizon: int) -> Seq<Span> {
    hits.map_values(|i: Intersection| span_of(i, textures, horizon))
}

/// Draws textures onto frames.
pub struct Renderer {
    textures: TextureMap,
}

/// A camera the renderer can draw from: a facing angle in range, a position whose fixed-point
/// form fits 32 bits.
pub open spec fn drawable(camera: Camera) -> bool {
    &&& 0 <= camera.spec_angle() < 1920
    &&& -32768 <= camera.spec_x() < 32768
    &&& -32768 <= camera.spec_y() < 32768
}

/// The colour of pixel `(column, y)` after drawing the column from `(ox, oy)` (fixed point)
/// toward `angle`, over the colour `old` the frame held there.
pub open spec fn drawn_colour(
    t: TrigTables,
    s: SceneView,
    textures: TextureMapView,
    ox: int,
    oy: int,
    angle: int,
    column: int,
    horizon: int,
    y: int,
    old: Colour,
) -> Colour {
    let spans = spans_of(spec_wall_intersections(t, s, ox, oy, angle, t.spec_fisheye(column)), textures, horizon);
    column_colour(
        spans,
        y,
        horizon,
        surface_texel(textures, spec_floor_intersection(t, s, ox, oy, angle, y, column)),
        surface_texel(textures, spec_ceiling_intersection(t, s, ox, oy, angle, y, column)),
        old,
    )
}

impl Renderer {
    pub closed spec fn textures(&self) -> TextureMapView {
        self.textures@
    }

    pub fn new(textures: TextureMap) -> (r: Renderer)
        ensures
            r.textures() == textures@,
    {
        Renderer { textures }
    }

    /// The texel a floor or ceiling intersection shows, where the texture map holds it.
    fn texel(&self, hit: Option<Intersection>) -> (r: Option<Colour>)
        requires
            self.textures@.wf(),
        ensures
            r == surface_texel(self.textures@, hit),
    {
        match hit {
            Some(i) => {
                if self.textures.holds_column(i.texture, i.x, false) && 0 <= i.y && (i.y as usize) < self.textures_height() {
                    let column = self.textures.get(i.texture, i.x, false);
                    Some(column[i.y as usize])
                } else {
                    None
                }
            },
            None => None,
        }
    }

    fn textures_height(&self) -> (r: usize)
        ensures
            r == self.textures@.height,
    {
        self.textures.height()
    }

    /// The drawing parameters of each wall intersection of a column, nearest first.
    fn intersect_to_render_params(
        &self,
        origin_x: i32,
        origin_y: i32,
        angle: i32,
        column: i32,
        camera: &Camera,
        scene: &Scene,
        tables: &TrigTables,
    ) -> (r: Vec<RenderParameters<'_>>)
        requires
            self.textures@.wf(),
            scene.wf(),
            scene@.addressable(),
            tables.wf(),
            0 <= angle < 1920,
            0 <= column < 320,
        ensures
            ({
                let spans = spans_of(spec_wall_intersections(*tables, scene@, origin_x as int, origin_y as int, angle as int,
                    tables.spec_fisheye(column as int)), self.textures@, camera.spec_horizon());
                &&& r@.len() == spans.len()
                &&& forall|k: int| 0 <= k < r@.len() ==> #[trigger] r@[k].view() == spans[k]
            }),
    {
        let hits = find_wall_intersections(origin_x, origin_y, angle, column, scene, tables);
        let horizon = camera.horizon();
        let ghost spans = spans_of(hits@, self.textures@, horizon as int);
        let mut params: Vec<RenderParameters<'_>> = Vec::new();
        let mut k: usize = 0;
        while k < hits.len()
            invariant
                self.textures@.wf(),
                spans == spans_of(hits@, self.textures@, horizon as int),
                k <= hits@.len(),
                params@.len() == k,
                forall|j: int| 0 <= j < k ==> #[trigger] params@[j].view() == spans[j],
            decreases hits@.len() - k,
        {
            let hit = hits[k];
            let height = wall_height(hit.dist);
            let mid = height / 2;
            let y_min: i32 = if (horizon as i64) - (mid as i64) < 0 { 0 } else { horizon - mid };
            let y_max: i32 = if (horizon as i64) + (mid as i64) > 199 { 199 } else { horizon + mid };
            let tex_idx = wall_texture_rows(height, horizon);
            let texture: &[Colour] = if self.textures.holds_column(hit.texture, hit.texture_column, hit.reverse) {
                self.textures.get(hit.texture, hit.texture_column, hit.reverse)
            } else {
                self.textures.get_none()
            };
            let p = RenderParameters::new(texture, tex_idx, y_min, y_max);
            proof {
                assert(crate::trig::clamp_int(height as int, 8, 640) == height);
                assert(p.view().tex_idx =~= spans[k as int].tex_idx);
            }
            params.push(p);
            k += 1;
        }
        params
    }
}

/// The colour of the empty frame at row `y`: ceiling grey above the default horizon, floor
/// grey below it.
pub open spec fn background(y: int) -> Colour {
    if y < 100 {
        Colour { r: 0x38, g: 0x38, b: 0x38, a: 0xFF }
    } else {
        Colour { r: 0x70, g: 0x70, b: 0x70, a: 0xFF }
    }
}

/// The angle of the ray drawn in screen column `column` for a camera facing `angle`: the
/// sweep starts half a field of view to the left and moves one unit per column.
pub open spec fn column_angle(angle: int, column: int) -> int {
    normalize_angle(angle - 160 + column)
}

/// Writes colour `c` at pixel `(x, y)`.
fn put_pixel(buf: &mut [u8], x: i32, y: i32, c: Colour)
    requires
        old(buf)@.len() == FRAME_BYTES,
        0 <= x < 320,
        0 <= y < 200,
    ensures
        final(buf)@.len() == FRAME_BYTES,
        colour_at(final(buf)@, x as int, y as int) == c,
        forall|i: int| 0 <= i < FRAME_BYTES && !(pixel_index(x as int, y as int) <= i < pixel_index(x as int, y as int) + 4)
            ==> #[trigger] final(buf)@[i] == old(buf)@[i],
{
    let idx: usize = 4 * (x as usize + y as usize * 320);
    buf[idx] = c.r;
    buf[idx + 1] = c.g;
    buf[idx + 2] = c.b;
    buf[idx + 3] = c.a;
}

/// Reads the colour at pixel `(x, y)`.
fn get_pixel(buf: &[u8], x: i32, y: i32) -> (c: Colour)
    requires
        buf@.len() == FRAME_BYTES,
        0 <= x < 320,
        0 <= y < 200,
    ensures
        c == colour_at(buf@, x as int, y as int),
{
    let idx: usize = 4 * (x as usize + y as usize * 320);
    Colour { r: buf[idx], g: buf[idx + 1], b: buf[idx + 2], a: buf[idx + 3] }
}

impl Renderer {
    /// The colour of the walls at row `y`, composited front to back through the spans.
    fn composite_walls(params: &Vec<RenderParameters<'_>>, y: i32) -> (r: Colour)
        requires
            0 <= y < 200,
            forall|k: int| 0 <= k < params@.len() ==> (#[trigger] params@[k]).view().tex_idx.len() == 200,
        ensures
            r == composite(params@.map_values(|p: RenderParameters<'_>| p.view()), y as int, 0, Colour { r: 0, g: 0, b: 0, a: 0 }),
    {
        let ghost spans = params@.map_values(|p: RenderParameters<'_>| p.view());
        let mut pixel = Colour::new(0, 0, 0, 0);
        let mut k: usize = 0;
        while k < params.len()
            invariant
                0 <= y < 200,
                spans == params@.map_values(|p: RenderParameters<'_>| p.view()),
                forall|j: int| 0 <= j < params@.len() ==> (#[trigger] params@[j]).view().tex_idx.len() == 200,
                k <= params@.len(),
                composite(spans, y as int, k as int, pixel) == composite(spans, y as int, 0, Colour { r: 0, g: 0, b: 0, a: 0 }),
            ensures
                composite(spans, y as int, k as int, pixel) == pixel,
            decreases params@.len() - k,
        {
            let p = &params[k];
            if y < p.y_min || y > p.y_max || pixel.a >= 255 {
                break;
            }
            let t: usize = p.tex_idx[y as usize];
            if t < p.texture.len() {
                pixel = pixel.blend(&p.texture[t]);
            }
            k += 1;
        }
        pixel
    }

    /// Draws screen column `column`: the ray toward `angle` from `(origin_x, origin_y)` (fixed
    /// point) gives the walls, the floor and the ceiling of every row; no other column changes.
    pub fn render_column(
        &self,
        buf: &mut [u8],
        origin_x: i32,
        origin_y: i32,
        angle: i32,
        column: i32,
        camera: &Camera,
        scene: &Scene,
        tables: &TrigTables,
    )
        requires
            old(buf)@.len() == FRAME_BYTES,
            self.textures().wf(),
            scene.wf(),
            scene@.addressable(),
            tables.wf(),
            0 <= angle < 1920,
            0 <= column < 320,
        ensures
            final(buf)@.len() == FRAME_BYTES,
            forall|y: int| 0 <= y < 200 ==> #[trigger] colour_at(final(buf)@, column as int, y) == drawn_colour(*tables, scene@,
                self.textures(), origin_x as int, origin_y as int, angle as int, column as int, camera.spec_horizon(), y,
                colour_at(old(buf)@, column as int, y)),
            forall|i: int| 0 <= i < FRAME_BYTES && !in_column(i, column as int) ==> #[trigger] final(buf)@[i] == old(buf)@[i],
    {
        let params = self.intersect_to_render_params(origin_x, origin_y, angle, column, camera, scene, tables);
        let ghost spans = spans_of(spec_wall_intersections(*tables, scene@, origin_x as int, origin_y as int, angle as int,
            tables.spec_fisheye(column as int)), self.textures(), camera.spec_horizon());
        proof {
            assert(params@.map_values(|p: RenderParameters<'_>| p.view()) =~= spans);
        }
        let horizon = camera.horizon();
        let y_min: i64 = if params.len() > 0 { params[0].y_min as i64 } else { horizon as i64 + 1 };
        let y_max: i64 = if params.len() > 0 { params[0].y_max as i64 } else { horizon as i64 };
        let ghost start = buf@;
        let mut y: i32 = 0;
        while y < 200
            invariant
                buf@.len() == FRAME_BYTES,
                start.len() == FRAME_BYTES,
                self.textures().wf(),
                scene.wf(),
                scene@.addressable(),
                tables.wf(),
                0 <= angle < 1920,
                0 <= column < 320,
                horizon == camera.spec_horizon(),
                0 <= y <= 200,
                spans == spans_of(spec_wall_intersections(*tables, scene@, origin_x as int, origin_y as int, angle as int,
                    tables.spec_fisheye(column as int)), self.textures(), horizon as int),
                params@.map_values(|p: RenderParameters<'_>| p.view()) == spans,
                forall|k: int| 0 <= k < params@.len() ==> (#[trigger] params@[k]).view().tex_idx.len() == 200,
                y_min == if spans.len() > 0 { spans[0].y_min } else { horizon + 1 },
                y_max == if spans.len() > 0 { spans[0].y_max } else { horizon as int },
                forall|r: int| 0 <= r < y ==> #[trigger] colour_at(buf@, column as int, r) == drawn_colour(*tables, scene@,
                    self.textures(), origin_x as int, origin_y as int, angle as int, column as int, horizon as int, r,
                    colour_at(start, column as int, r)),
                forall|r: int| y <= r < 200 ==> #[trigger] colour_at(buf@, column as int, r) == colour_at(start, column as int, r),
                forall|i: int| 0 <= i < FRAME_BYTES && !in_column(i, column as int) ==> #[trigger] buf@[i] == start[i],
            decreases 200 - y,
        {
            let old_colour = get_pixel(buf, column, y);
            let colour: Colour;
            if (y as i64) < y_min {
                let ceiling = self.texel(find_ceiling_intersection(origin_x, origin_y, angle, y, column, scene, tables));
                colour = match ceiling { Some(c) => c, None => old_colour };
            } else if (y as i64) > y_max {
                let floor = self.texel(find_floor_intersection(origin_x, origin_y, angle, y, column, scene, tables));
                colour = match floor { Some(c) => c, None => old_colour };
            } else {
                let mut pixel = Renderer::composite_walls(&params, y);
                if pixel.a < 255 {
                    let behind = if y > horizon {
                        self.texel(find_floor_intersection(origin_x, origin_y, angle, y, column, scene, tables))
                    } else {
                        self.texel(find_ceiling_intersection(origin_x, origin_y, angle, y, column, scene, tables))
                    };
                    match behind {
                        Some(c) => { pixel = pixel.blend(&c); },
                        None => {},
                    }
                }
                colour = pixel.blend(&old_colour);
            }
            let ghost before = buf@;
            put_pixel(buf, column, y, colour);
            proof {
                assert forall|r: int| 0 <= r < 200 && r != y implies #[trigger] colour_at(buf@, column as int, r) == colour_at(before, column as int, r) by {
                    lemma_pixel_bytes(column as int, r, 0);
                }
                assert forall|i: int| 0 <= i < FRAME_BYTES && !in_column(i, column as int) implies #[trigger] buf@[i] == start[i] by {
                    if pixel_index(column as int, y as int) <= i < pixel_index(column as int, y as int) + 4 {
                        lemma_pixel_bytes(column as int, y as int, i - pixel_index(column as int, y as int));
                    }
                }
            }
            y += 1;
        }
    }

    /// Fills the frame with the background: ceiling grey above the default horizon, floor
    /// grey below it.
    fn render_background(&self, buf: &mut [u8])
        requires
            old(buf)@.len() == FRAME_BYTES,
        ensures
            final(buf)@.len() == FRAME_BYTES,
            forall|x: int, y: int| 0 <= x < 320 && 0 <= y < 200 ==> #[trigger] colour_at(final(buf)@, x, y) == background(y),
    {
        let ceiling = Colour::new(0x38, 0x38, 0x38, 0xFF);
        let floor = Colour::new(0x70, 0x70, 0x70, 0xFF);
        let mut y: i32 = 0;
        while y < 200
            invariant
                buf@.len() == FRAME_BYTES,
                0 <= y <= 200,
                ceiling == background(0),
                floor == background(100),
                forall|px: int, py: int| 0 <= px < 320 && 0 <= py < y ==> #[trigger] colour_at(buf@, px, py) == background(py),
            decreases 200 - y,
        {
            let mut x: i32 = 0;
            while x < 320
                invariant
                    buf@.len() == FRAME_BYTES,
                    0 <= y < 200,
                    0 <= x <= 320,
                    ceiling == background(0),
                    floor == background(100),
                    forall|px: int, py: int| 0 <= px < 320 && 0 <= py < y ==> #[trigger] colour_at(buf@, px, py) == background(py),
                    forall|px: int| 0 <= px < x ==> #[trigger] colour_at(buf@, px, y as int) == background(y as int),
                decreases 320 - x,
            {
                let c = if y < 100 { ceiling } else { floor };
                let ghost before = buf@;
                put_pixel(buf, x, y, c);
                proof {
                    assert forall|px: int, py: int| 0 <= px < 320 && 0 <= py < y implies #[trigger] colour_at(buf@, px, py)
                        == colour_at(before, px, py) by {}
                    assert forall|px: int| 0 <= px < x implies #[trigger] colour_at(buf@, px, y as int)
                        == colour_at(before, px, y as int) by {}
                }
                x += 1;
            }
            y += 1;
        }
    }

    /// Draws a frame seen by `camera`: the background, then every screen column with the ray
    /// of its angle.
    pub fn render(&self, buf: &mut [u8], scene: &Scene, camera: &Camera, tables: &TrigTables)
        requires
            old(buf)@.len() == FRAME_BYTES,
            self.textures().wf(),
            scene.wf(),
            scene@.addressable(),
            tables.wf(),
            drawable(*camera),
        ensures
            final(buf)@.len() == FRAME_BYTES,
            forall|x: int, y: int| 0 <= x < 320 && 0 <= y < 200 ==> #[trigger] colour_at(final(buf)@, x, y) == drawn_colour(
                *tables, scene@, self.textures(), camera.spec_x() * 65536, camera.spec_y() * 65536,
                column_angle(camera.spec_angle(), x), x, camera.spec_horizon(), y, background(y)),
    {
        self.render_background(buf);
        let mut angle: i32 = if camera.angle() < 160 { camera.angle() - 160 + 1920 } else { camera.angle() - 160 };
        let origin_x = to_fp(camera.x());
        let origin_y = to_fp(camera.y());
        let mut sweep: i32 = 0;
        proof {
            vstd::arithmetic::div_mod::lemma_fundamental_div_mod_converse(camera.spec_angle() - 160, 1920,
                if camera.spec_angle() < 160 { -1int } else { 0int }, angle as int);
        }
        while sweep < 320
            invariant
                buf@.len() == FRAME_BYTES,
                self.textures().wf(),
                scene.wf(),
                scene@.addressable(),
                tables.wf(),
                drawable(*camera),
                origin_x == camera.spec_x() * 65536,
                origin_y == camera.spec_y() * 65536,
                0 <= sweep <= 320,
                0 <= angle < 1920,
                angle == column_angle(camera.spec_angle(), sweep as int),
                forall|x: int, y: int| 0 <= x < sweep && 0 <= y < 200 ==> #[trigger] colour_at(buf@, x, y) == drawn_colour(
                    *tables, scene@, self.textures(), origin_x as int, origin_y as int, column_angle(camera.spec_angle(), x), x,
                    camera.spec_horizon(), y, background(y)),
                forall|x: int, y: int| sweep <= x < 320 && 0 <= y < 200 ==> #[trigger] colour_at(buf@, x, y) == background(y),
            decreases 320 - sweep,
        {
            let ghost before = buf@;
            self.render_column(buf, origin_x, origin_y, angle, sweep, camera, scene, tables);
            proof {
                assert forall|x: int, y: int| 0 <= x < 320 && x != sweep && 0 <= y < 200 implies #[trigger] colour_at(buf@, x, y)
                    == colour_at(before, x, y) by {
                    lemma_pixel_bytes(x, y, 0);
                    lemma_pixel_bytes(x, y, 1);
                    lemma_pixel_bytes(x, y, 2);
                    lemma_pixel_bytes(x, y, 3);
                }
            }
            let next: i32 = angle + 1;
            angle = if next >= 1920 { next - 1920 } else { next };
            proof {
                let a = camera.spec_angle() - 160 + sweep;
                vstd::arithmetic::div_mod::lemma_fundamental_div_mod(a, 1920);
                vstd::arithmetic::div_mod::lemma_fundamental_div_mod_converse(a + 1, 1920,
                    if next >= 1920 { a / 1920 + 1 } else { a / 1920 }, angle as int);
            }
            sweep += 1;
        }
    }
}

} // verus!
