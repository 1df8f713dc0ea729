use vstd::prelude::*;
use vstd::slice::slice_subrange;
use base64::Engine;

verus! {

/// An RGBA colour.
#[derive(Clone, Copy, Debug, PartialEq, Eq, Structural)]
pub struct Colour {
    pub r: u8,
    pub g: u8,
    pub b: u8,
    pub a: u8,
}

/// Combined alpha of `a1` over `a2`, scaled by 255 twice: `255 * a1 + a2 * (255 - a1)`.
pub open spec fn blend_weight(a1: int, a2: int) -> int {
    255 * a1 + a2 * (255 - a1)
}

/// One channel of colour `c1` with alpha `a1` composited over `c2` with alpha `a2`:
/// `(c1 * a1 + c2 * a2 * (1 - a1)) / ao` with alphas read as fractions of 255 and `ao` the
/// combined alpha, rounded down; 0 where both alphas are 0.
pub open spec fn blend_channel(c1: int, a1: int, c2: int, a2: int) -> int {
    let w = blend_weight(a1, a2);
    if w == 0 { 0 } else { (255 * c1 * a1 + c2 * a2 * (255 - a1)) / w }
}

/// The combined alpha of `a1` over `a2`: `255 * (a1 + a2 * (1 - a1))`, with alphas read as
/// fractions of 255, rounded down.
pub open spec fn blend_alpha(a1: int, a2: int) -> int {
    blend_weight(a1, a2) / 255
}

/// `front` composited over `back`.
pub open spec fn spec_blend(front: Colour, back: Colour) -> Colour {
    Colour {
        r: blend_channel(front.r as int, front.a as int, back.r as int, back.a as int) as u8,
        g: blend_channel(front.g as int, front.a as int, back.g as int, back.a as int) as u8,
        b: blend_channel(front.b as int, front.a as int, back.b as int, back.a as int) as u8,
        a: blend_alpha(front.a as int, back.a as int) as u8,
    }
}

fn channel(c1: u8, a1: u8, c2: u8, a2: u8) -> (r: u8)
    ensures
        r == blend_channel(c1 as int, a1 as int, c2 as int, a2 as int),
{
    proof {
        assert(a2 * (255 - a1) <= 65025 && 255 * c1 * a1 <= 255 * 65025 && c2 * a2 * (255 - a1) <= 255 * 65025) by (nonlinear_arith)
            requires 0 <= c1 <= 255, 0 <= a1 <= 255, 0 <= c2 <= 255, 0 <= a2 <= 255;
        assert(c2 * a2 <= 65025) by (nonlinear_arith)
            requires 0 <= c2 <= 255, 0 <= a2 <= 255;
        assert(255 * c1 <= 65025) by (nonlinear_arith)
            requires 0 <= c1 <= 255;
    }
    let w: u32 = 255 * a1 as u32 + a2 as u32 * (255 - a1 as u32);
    if w == 0 {
        return 0;
    }
    let n: u32 = 255 * c1 as u32 * a1 as u32 + c2 as u32 * a2 as u32 * (255 - a1 as u32);
    proof {
        let (c1, a1, c2, a2) = (c1 as int, a1 as int, c2 as int, a2 as int);
        assert(255 * c1 * a1 + c2 * a2 * (255 - a1) <= 255 * (255 * a1 + a2 * (255 - a1))) by (nonlinear_arith)
            requires 0 <= c1 <= 255, 0 <= a1 <= 255, 0 <= c2 <= 255, 0 <= a2 <= 255;
        vstd::arithmetic::div_mod::lemma_div_is_ordered(n as int, 255 * (w as int), w as int);
        vstd::arithmetic::div_mod::lemma_div_multiples_vanish(255, w as int);
        assert(255 * (w as int) == (w as int) * 255);
    }
    (n / w) as u8
}

impl Colour {
    pub fn new(r: u8, g: u8, b: u8, a: u8) -> (c: Colour)
        ensures
            c == (Colour { r, g, b, a }),
    {
        Colour { r, g, b, a }
    }

    /// This colour composited over `other` (alpha-over).
    pub fn blend(self, other: &Colour) -> (c: Colour)
        ensures
            c == spec_blend(self, *other),
    {
        let (r, g, b, a) = Colour::blend_colours(self.r, self.g, self.b, self.a, other.r, other.g, other.b, other.a);
        Colour { r, g, b, a }
    }

    pub fn tuple(&self) -> (t: (u8, u8, u8, u8))
        ensures
            t == (self.r, self.g, self.b, self.a),
    {
        (self.r, self.g, self.b, self.a)
    }

    /// Colour `(r1, g1, b1, a1)` composited over `(r2, g2, b2, a2)`.
    pub fn blend_colours(r1: u8, g1: u8, b1: u8, a1: u8, r2: u8, g2: u8, b2: u8, a2: u8) -> (t: (u8, u8, u8, u8))
        ensures
            ({
                let c = spec_blend(Colour { r: r1, g: g1, b: b1, a: a1 }, Colour { r: r2, g: g2, b: b2, a: a2 });
                t == (c.r, c.g, c.b, c.a)
            }),
    {
        proof {
            assert(255 * a1 + a2 * (255 - a1) <= 255 * 255 && a2 * (255 - a1) <= 65025) by (nonlinear_arith)
                requires 0 <= a1 <= 255, 0 <= a2 <= 255;
        }
        let w: u32 = 255 * a1 as u32 + a2 as u32 * (255 - a1 as u32);
        (channel(r1, a1, r2, a2), channel(g1, a1, g2, a2), channel(b1, a1, b2, a2), (w / 255) as u8)
    }
}

/// base64's `DecodeError`, the failure of a decode, carried as an opaque value.
#[verifier::external_type_specification]
#[verifier::external_body]
pub struct ExDecodeError(base64::DecodeError);

/// The bytes that a text in base64 (standard alphabet, without padding) encodes; none where the
/// text is not such base64.
pub uninterp spec fn base64_decoded(text: Seq<char>) -> Option<Seq<u8>>;

/// Relies on base64's `STANDARD_NO_PAD` engine `decode`: it either decodes the text or fails,
/// and which of the two, and the bytes, depend on the text alone.
#[verifier::external_body]
fn decode_base64(text: &str) -> (r: Result<Vec<u8>, base64::DecodeError>)
    ensures
        r is Ok <==> base64_decoded(text@) is Some,
        r matches Ok(bytes) ==> base64_decoded(text@) == Some(bytes@),
{
    base64::engine::general_purpose::STANDARD_NO_PAD.decode(text)
}

/// Square textures stored one after another, each column by column, as colours.
pub struct TextureMap {
    texture_width: usize,
    texture_height: usize,
    texture_size: usize,
    textures: Vec<Colour>,
}

/// The contents of a texture map.
pub ghost struct TextureMapView {
    pub width: int,
    pub height: int,
    pub size: int,
    pub texels: Seq<Colour>,
}

impl TextureMapView {
    /// Texture sides of at most 4096 texels, and the size of one texture.
    pub open spec fn wf(&self) -> bool {
        &&& 0 <= self.width <= 4096
        &&& 0 <= self.height <= 4096
        &&& self.size == self.width * self.height
    }

    /// The column actually read: mirrored when `flipped`.
    pub open spec fn source_column(&self, column: int, flipped: bool) -> int {
        if flipped { self.width - 1 - column } else { column }
    }

    /// Where a texture column starts among the texels.
    pub open spec fn column_start(&self, code: int, column: int, flipped: bool) -> int {
        self.size * code + self.source_column(column, flipped) * self.width
    }

    /// Whether the map holds the whole of that texture column.
    pub open spec fn holds_column(&self, code: int, column: int, flipped: bool) -> bool {
        &&& 0 <= self.source_column(column, flipped)
        &&& self.column_start(code, column, flipped) + self.height <= self.texels.len()
    }

    /// The texels of a texture column, top to bottom.
    pub open spec fn column(&self, code: int, column: int, flipped: bool) -> Seq<Colour> {
        let start = self.column_start(code, column, flipped);
        self.texels.subrange(start, start + self.height)
    }

    /// The texel at `(column, row)` of a texture, where the map holds it.
    pub open spec fn texel(&self, code: int, column: int, row: int) -> Option<Colour> {
        if self.holds_column(code, column, false) && 0 <= row < self.height {
            Some(self.column(code, column, false)[row])
        } else {
            None
        }
    }
}

/// The colours that a flat RGBA byte array holds, four bytes each.
pub open spec fn colours_of(channels: Seq<u8>) -> Seq<Colour> {
    Seq::new(channels.len() / 4, |k: int| Colour { r: channels[4 * k], g: channels[4 * k + 1], b: channels[4 * k + 2], a: channels[4 * k + 3] })
}

impl View for TextureMap {
    type V = TextureMapView;

    closed spec fn view(&self) -> TextureMapView {
        TextureMapView {
            width: self.texture_width as int,
            height: self.texture_height as int,
            size: self.texture_size as int,
            texels: self.textures@,
        }
    }
}

impl TextureMap {
    /// A texture map of `texture_width` by `texture_height` textures from RGBA bytes, four per
    /// texel.
    pub fn new(texture_width: usize, texture_height: usize, channels: Vec<u8>) -> (r: TextureMap)
        requires
            texture_width <= 4096,
            texture_height <= 4096,
            channels@.len() % 4 == 0,
        ensures
            r@.wf(),
            r@ == (TextureMapView {
                width: texture_width as int,
                height: texture_height as int,
                size: texture_width * texture_height,
                texels: colours_of(channels@),
            }),
    {
        proof {
            assert(texture_width * texture_height <= 4096 * 4096) by (nonlinear_arith)
                requires texture_width <= 4096, texture_height <= 4096;
        }
        let texture_size = texture_width * texture_height;
        let mut textures: Vec<Colour> = Vec::new();
        let n: usize = channels.len() / 4;
        let mut k: usize = 0;
        let mut i: usize = 0;
        while k < n
            invariant
                n == channels@.len() / 4,
                channels@.len() % 4 == 0,
                i == 4 * k,
                k <= n,
                textures@.len() == k,
                forall|j: int| 0 <= j < k ==> #[trigger] textures@[j] == colours_of(channels@)[j],
            decreases n - k,
        {
            assert(4 * k + 3 < channels@.len()) by (nonlinear_arith)
                requires k < n, n == channels@.len() / 4, channels@.len() % 4 == 0;
            textures.push(Colour::new(channels[i], channels[i + 1], channels[i + 2], channels[i + 3]));
            k += 1;
            i += 4;
        }
        proof {
            assert(textures@ =~= colours_of(channels@));
        }
        TextureMap { texture_width, texture_height, texture_size, textures }
    }

    /// A texture map that holds no texture.
    pub fn empty() -> (r: TextureMap)
        ensures
            r@.wf(),
            r@ == (TextureMapView { width: 0, height: 0, size: 0, texels: Seq::empty() }),
    {
        TextureMap { texture_width: 0, texture_height: 0, texture_size: 0, textures: Vec::new() }
    }

    /// Where a texture column starts, computed wide.
    fn column_start(&self, code: u32, column: i32, flipped: bool) -> (r: i128)
        requires
            self@.wf(),
        ensures
            r == self@.column_start(code as int, column as int, flipped),
            0 <= self@.source_column(column as int, flipped) ==> 0 <= r,
            -0x1_0000_0000_0000 <= r <= 0x1_0000_0000_0000_0000 + 0x1_0000_0000_0000,
    {
        let source: i128 = if flipped { self.texture_width as i128 - 1 - column as i128 } else { column as i128 };
        proof {
            let (w, h) = (self.texture_width as int, self.texture_height as int);
            assert(0 <= w * h <= 0x1_0000_0000 && w * h * code <= 0x1_0000_0000 * 0x1_0000_0000) by (nonlinear_arith)
                requires 0 <= w <= 4096, 0 <= h <= 4096, 0 <= code <= u32::MAX;
            assert(-0x1_0000_0000_0000 <= source * w <= 0x1_0000_0000_0000) by (nonlinear_arith)
                requires 0 <= w <= 4096, -0x1_0000_0000 <= source <= 0x1_0000_0000;
            assert(0 <= source ==> 0 <= source * w) by (nonlinear_arith)
                requires 0 <= w;
        }
        (self.texture_size as i128) * (code as i128) + source * (self.texture_width as i128)
    }

    /// Whether the map holds the whole of the given texture column.
    pub fn holds_column(&self, code: u32, column: i32, flipped: bool) -> (r: bool)
        requires
            self@.wf(),
        ensures
            r == self@.holds_column(code as int, column as int, flipped),
    {
        let source: i128 = if flipped { self.texture_width as i128 - 1 - column as i128 } else { column as i128 };
        let start = self.column_start(code, column, flipped);
        source >= 0 && start + (self.texture_height as i128) <= self.textures.len() as i128
    }

    /// Height of each texture, in texels.
    pub fn height(&self) -> (r: usize)
        ensures
            r == self@.height,
    {
        self.texture_height
    }

    /// A column with no texel, for a surface whose texture the map lacks.
    pub fn get_none(&self) -> (r: &[Colour])
        ensures
            r@ == Seq::<Colour>::empty(),
    {
        let slice = self.textures.as_slice();
        slice_subrange(slice, 0, 0)
    }

    /// The texels of a texture column, top to bottom.
    pub fn get(&self, code: u32, column: i32, flipped: bool) -> (r: &[Colour])
        requires
            self@.wf(),
            self@.holds_column(code as int, column as int, flipped),
        ensures
            r@ == self@.column(code as int, column as int, flipped),
    {
        let start: i128 = self.column_start(code, column, flipped);
        let len: usize = self.textures.len();
        assert(0 <= start && start + self.texture_height <= len);
        let head: usize = start as usize;
        let slice = self.textures.as_slice();
        assert(slice@ == self.textures@);
        slice_subrange(slice, head, head + self.texture_height)
    }
}

impl TextureMap {
    /// A texture map of `texture_width` by `texture_height` textures from RGBA bytes, four per
    /// texel. Fails where a texture side exceeds 4096 texels or the bytes do not make whole
    /// texels.
    pub fn from_channels(texture_width: usize, texture_height: usize, channels: Vec<u8>) -> (r: Result<TextureMap, &'static str>)
        ensures
            r is Ok <==> (texture_width <= 4096 && texture_height <= 4096 && channels@.len() % 4 == 0),
            r matches Ok(t) ==> t@.wf() && t@ == (TextureMapView {
                width: texture_width as int,
                height: texture_height as int,
                size: texture_width * texture_height,
                texels: colours_of(channels@),
            }),
    {
        if texture_width > 4096 || texture_height > 4096 {
            return Err("texture sides must not exceed 4096 texels");
        }
        if channels.len() % 4 != 0 {
            return Err("texture bytes must make whole RGBA texels");
        }
        Ok(TextureMap::new(texture_width, texture_height, channels))
    }

    /// A texture map from RGBA bytes given as base64 text (standard alphabet, no padding).
    /// Fails where the text is not such base64, or as [`TextureMap::from_channels`] fails on
    /// the decoded bytes.
    pub fn from_base64(texture_width: usize, texture_height: usize, text: &str) -> (r: Result<TextureMap, &'static str>)
        ensures
            r is Ok <==> (base64_decoded(text@) is Some && texture_width <= 4096 && texture_height <= 4096
                && base64_decoded(text@).unwrap().len() % 4 == 0),
            r matches Ok(t) ==> t@.wf() && t@ == (TextureMapView {
                width: texture_width as int,
                height: texture_height as int,
                size: texture_width * texture_height,
                texels: colours_of(base64_decoded(text@).unwrap()),
            }),
    {
        match decode_base64(text) {
            Ok(bytes) => TextureMap::from_channels(texture_width, texture_height, bytes),
            Err(_) => Err("failed to decode textures"),
        }
    }
}

/// The bytes of tile `tile_id` of an RGBA tile sheet `img_width` pixels wide, column by
/// column, four bytes per pixel. The tile's first pixel is at column
/// `(tile_id * tile_size) % img_width` of row `(tile_id * tile_size) / img_width`.
pub open spec fn tile_bytes(img: Seq<u8>, tile_id: int, tile_size: int, img_width: int) -> Seq<u8> {
    let x_min = (tile_id * tile_size) % img_width;
    let y_min = (tile_id * tile_size) / img_width;
    Seq::new((tile_size * tile_size * 4) as nat, |k: int| {
        let p = k / 4;
        img[((x_min + p / tile_size) + (y_min + p % tile_size) * img_width) * 4 + k % 4]
    })
}

/// Whether the tile lies within the sheet's bytes.
pub open spec fn tile_in_sheet(len: int, tile_id: int, tile_size: int, img_width: int) -> bool {
    let x_min = (tile_id * tile_size) % img_width;
    let y_min = (tile_id * tile_size) / img_width;
    tile_size == 0 || ((x_min + tile_size - 1) + (y_min + tile_size - 1) * img_width) * 4 + 4 <= len
}

proof fn lemma_tile_index(ts: int, i: int, j: int, c: int)
    requires
        0 <= i < ts,
        0 <= j < ts,
        0 <= c < 4,
    ensures
        (4 * (i * ts + j) + c) / 4 == i * ts + j,
        (4 * (i * ts + j) + c) % 4 == c,
        (i * ts + j) / ts == i,
        (i * ts + j) % ts == j,
{
    vstd::arithmetic::div_mod::lemma_fundamental_div_mod_converse(4 * (i * ts + j) + c, 4, i * ts + j, c);
    vstd::arithmetic::div_mod::lemma_fundamental_div_mod_converse(i * ts + j, ts, i, j);
}

/// Appends the bytes of tile `tile_id` of an RGBA tile sheet to `outbuf`, column by column.
pub fn transform_tile(outbuf: &mut Vec<u8>, imgbuf: &[u8], tile_id: u32, tile_size: u32, img_width: u32)
    requires
        img_width > 0,
        tile_id * tile_size <= u32::MAX,
        tile_size <= 0x1_0000,
        tile_in_sheet(imgbuf@.len() as int, tile_id as int, tile_size as int, img_width as int),
    ensures
        final(outbuf)@ == old(outbuf)@ + tile_bytes(imgbuf@, tile_id as int, tile_size as int, img_width as int),
{
    let ghost start = outbuf@;
    let ghost bytes = tile_bytes(imgbuf@, tile_id as int, tile_size as int, img_width as int);
    let first: u32 = tile_id * tile_size;
    let y_min: usize = (first / img_width) as usize;
    let x_min: usize = (first % img_width) as usize;
    let ts: usize = tile_size as usize;
    let w: usize = img_width as usize;
    let mut i: usize = 0;
    while i < ts
        invariant
            ts == tile_size,
            w == img_width,
            w > 0,
            ts <= 0x1_0000,
            x_min == (tile_id * tile_size) % (img_width as int),
            y_min == (tile_id * tile_size) / (img_width as int),
            tile_in_sheet(imgbuf@.len() as int, tile_id as int, tile_size as int, img_width as int),
            bytes == tile_bytes(imgbuf@, tile_id as int, tile_size as int, img_width as int),
            i <= ts,
            outbuf@ == start + bytes.take((i * ts * 4) as int),
        decreases ts - i,
    {
        let mut j: usize = 0;
        while j < ts
            invariant
                ts == tile_size,
                w == img_width,
                w > 0,
                ts <= 0x1_0000,
                x_min == (tile_id * tile_size) % (img_width as int),
                y_min == (tile_id * tile_size) / (img_width as int),
                tile_in_sheet(imgbuf@.len() as int, tile_id as int, tile_size as int, img_width as int),
                bytes == tile_bytes(imgbuf@, tile_id as int, tile_size as int, img_width as int),
                i < ts,
                j <= ts,
                outbuf@ == start + bytes.take(((i * ts + j) * 4) as int),
            decreases ts - j,
        {
            proof {
                assert(i * ts + j < ts * ts) by (nonlinear_arith)
                    requires i < ts, j < ts;
                assert((x_min + i) + (y_min + j) * w <= (x_min + ts - 1) + (y_min + ts - 1) * w) by (nonlinear_arith)
                    requires i < ts, j < ts, w > 0;
                assert(ts * ts <= 0x1_0000_0000) by (nonlinear_arith)
                    requires ts <= 0x1_0000;
            }
            let len: usize = imgbuf.len();
            proof {
                assert(((x_min + ts - 1) + (y_min + ts - 1) * w) * 4 + 4 <= len);
                assert(y_min + j <= (y_min + j) * w && 0 <= (y_min + j) * w) by (nonlinear_arith)
                    requires w >= 1, y_min >= 0, j >= 0;
            }
            let p: usize = ((x_min + i) + (y_min + j) * w) * 4;
            let ghost before = outbuf@;
            outbuf.push(imgbuf[p]);
            outbuf.push(imgbuf[p + 1]);
            outbuf.push(imgbuf[p + 2]);
            outbuf.push(imgbuf[p + 3]);
            proof {
                let base = (i * ts + j) * 4;
                assert forall|c: int| 0 <= c < 4 implies #[trigger] bytes[base + c] == imgbuf@[p + c] by {
                    lemma_tile_index(ts as int, i as int, j as int, c);
                }
                assert(bytes.take(base + 4) =~= bytes.take(base) + seq![bytes[base], bytes[base + 1], bytes[base + 2], bytes[base + 3]]);
                assert(outbuf@ =~= start + bytes.take(base + 4));
                assert(((i * ts + (j + 1)) * 4) == base + 4) by (nonlinear_arith)
                    requires base == (i * ts + j) * 4;
            }
            j += 1;
        }
        proof {
            assert((i * ts + ts) * 4 == ((i + 1) * ts * 4)) by (nonlinear_arith);
        }
        i += 1;
    }
    proof {
        assert(bytes.take((ts * ts * 4) as int) =~= bytes);
    }
}

} // verus!
