use fourteen_screws::camera::Camera;
use fourteen_screws::renderer::{RenderConfig, RenderParameters, Renderer, FRAME_BYTES};
use fourteen_screws::scene::{Scene, TextureTile, Tile};
use fourteen_screws::texture::{Colour, TextureMap};
use fourteen_screws::trig::TrigTables;

fn fixed(x: f64) -> i32 {
    (x * 65536.0) as i32
}

fn radian(angle: usize) -> f64 {
    angle as f64 * std::f64::consts::PI / 960.0
}

fn tables() -> TrigTables {
    let size = 1921;
    let mut sin = Vec::new();
    let mut cos = Vec::new();
    let mut tan = Vec::new();
    let mut isin = Vec::new();
    let mut icos = Vec::new();
    let mut itan = Vec::new();
    let mut x_step = Vec::new();
    let mut y_step = Vec::new();
    for i in 0..size {
        let r = radian(i);
        sin.push(fixed(r.sin()));
        cos.push(fixed(r.cos()));
        tan.push(fixed(r.tan()));
        isin.push(fixed(1.0 / r.sin()));
        icos.push(fixed(1.0 / r.cos()));
        itan.push(fixed(1.0 / r.tan()));
        let mut xs = if r.tan() == 0.0 { f64::MAX } else { 64.0 / r.tan() };
        if r.tan() != 0.0 {
            if i >= 480 && i < 1440 {
                if xs > 0.0 {
                    xs = -xs;
                }
            } else if xs < 0.0 {
                xs = -xs;
            }
        }
        x_step.push(fixed(xs));
        let mut ys = 64.0 * r.tan();
        if i < 960 {
            if ys < 0.0 {
                ys = -ys;
            }
        } else if ys > 0.0 {
            ys = -ys;
        }
        y_step.push(fixed(ys));
    }
    let mut fisheye = Vec::new();
    for i in 0..320 {
        let offset = (i as i32 - 160) as f64 * std::f64::consts::PI / 960.0;
        fisheye.push(fixed(1.0 / offset.cos()));
    }
    TrigTables::new(sin, cos, tan, isin, icos, itan, x_step, y_step, fisheye).expect("tables are well formed")
}

fn wall(texture: u32) -> Tile {
    Tile::Surface(TextureTile { texture, passable: false })
}

/// Two 64 by 64 textures: the first opaque red, the second opaque blue.
fn textures() -> TextureMap {
    let mut bytes = Vec::new();
    for _ in 0..64 * 64 {
        bytes.extend_from_slice(&[255, 0, 0, 255]);
    }
    for _ in 0..64 * 64 {
        bytes.extend_from_slice(&[0, 0, 255, 255]);
    }
    TextureMap::new(64, 64, bytes)
}

fn pixel(buf: &[u8], x: usize, y: usize) -> (u8, u8, u8, u8) {
    let i = 4 * (x + y * 320);
    (buf[i], buf[i + 1], buf[i + 2], buf[i + 3])
}

#[test]
fn blend_follows_alpha_over() {
    let opaque = Colour::new(10, 20, 30, 255);
    let back = Colour::new(200, 200, 200, 255);
    assert_eq!(opaque.blend(&back), Colour::new(10, 20, 30, 255));
    let clear = Colour::new(0, 0, 0, 0);
    assert_eq!(clear.blend(&back), Colour::new(200, 200, 200, 255));
    assert_eq!(clear.blend(&clear), Colour::new(0, 0, 0, 0));
    let half = Colour::new(255, 0, 0, 128);
    // (255 * 255 * 128 + 0) / (255 * 128 + 255 * 127) = 128, alpha (255 * 128 + 255 * 127) / 255 = 255
    assert_eq!(half.blend(&Colour::new(0, 0, 255, 255)), Colour::new(128, 0, 127, 255));
    assert_eq!(Colour::blend_colours(100, 100, 100, 51, 0, 0, 0, 0), (100, 100, 100, 51));
    assert_eq!(half.tuple(), (255, 0, 0, 128));
}

#[test]
fn texture_map_columns() {
    let map = TextureMap::new(2, 2, vec![1, 1, 1, 1, 2, 2, 2, 2, 3, 3, 3, 3, 4, 4, 4, 4, 5, 5, 5, 5, 6, 6, 6, 6, 7, 7, 7, 7, 8, 8, 8, 8]);
    assert_eq!(map.get(0, 0, false), &[Colour::new(1, 1, 1, 1), Colour::new(2, 2, 2, 2)]);
    assert_eq!(map.get(0, 0, true), &[Colour::new(3, 3, 3, 3), Colour::new(4, 4, 4, 4)]);
    assert_eq!(map.get(1, 1, false), &[Colour::new(7, 7, 7, 7), Colour::new(8, 8, 8, 8)]);
    assert!(map.holds_column(1, 1, false));
    assert!(!map.holds_column(2, 0, false));
    assert!(!map.holds_column(0, 2, true));
    assert!(TextureMap::empty().get(0, 0, false).is_empty());
}

#[test]
fn texture_map_from_base64() {
    let map = TextureMap::from_base64(1, 1, "AQIDBA").unwrap();
    assert_eq!(map.get(0, 0, false), &[Colour::new(1, 2, 3, 4)]);
    assert!(TextureMap::from_base64(1, 1, "AQID").is_err());
    assert!(TextureMap::from_base64(1, 1, "not base64!").is_err());
    assert!(TextureMap::from_channels(5000, 1, vec![]).is_err());
    assert!(TextureMap::from_channels(1, 1, vec![1, 2, 3]).is_err());
}

#[test]
fn render_parameters_hold_their_span() {
    let texels = [Colour::new(1, 2, 3, 4)];
    let p = RenderParameters::new(&texels, vec![0; 200], 10, 20);
    assert_eq!((p.y_min, p.y_max, p.texture.len(), p.tex_idx.len()), (10, 20, 1, 200));
    let _ = RenderConfig::new();
    let _ = RenderConfig::default();
}

#[test]
fn render_draws_walls_floor_and_ceiling() {
    let t = tables();
    // one cell enclosed by red walls on every side, blue floor, no ceiling
    let y_walls = vec![wall(0), Tile::Empty, wall(0), Tile::Empty];
    let x_walls = vec![wall(0), wall(0), Tile::Empty, Tile::Empty];
    let floor = vec![wall(1), Tile::Empty, Tile::Empty, Tile::Empty];
    let ceiling = vec![Tile::Empty; 4];
    let scene = Scene::new(2, 2, y_walls, x_walls, floor, ceiling).unwrap();
    let renderer = Renderer::new(textures());
    let camera = Camera::new(32, 32, 0, 100);
    let mut buf = vec![0u8; FRAME_BYTES];
    renderer.render(&mut buf, &scene, &camera, &t);
    // the centre column faces the wall 32 units away: wall height 562, the whole column is wall
    assert_eq!(pixel(&buf, 160, 100), (255, 0, 0, 255));
    assert_eq!(pixel(&buf, 160, 0), (255, 0, 0, 255));
    assert_eq!(pixel(&buf, 160, 199), (255, 0, 0, 255));
}

#[test]
fn render_background_shows_where_nothing_is_seen() {
    let t = tables();
    let scene = Scene::new(0, 0, vec![], vec![], vec![], vec![]).unwrap();
    let renderer = Renderer::new(TextureMap::empty());
    let camera = Camera::new(32, 32, 0, 100);
    let mut buf = vec![0u8; FRAME_BYTES];
    renderer.render(&mut buf, &scene, &camera, &t);
    assert_eq!(pixel(&buf, 0, 0), (0x38, 0x38, 0x38, 0xFF));
    assert_eq!(pixel(&buf, 319, 99), (0x38, 0x38, 0x38, 0xFF));
    assert_eq!(pixel(&buf, 0, 100), (0x70, 0x70, 0x70, 0xFF));
    assert_eq!(pixel(&buf, 319, 199), (0x70, 0x70, 0x70, 0xFF));
}

#[test]
fn render_column_changes_only_its_column() {
    let t = tables();
    let y_walls = vec![wall(0), Tile::Empty, wall(0), Tile::Empty];
    let x_walls = vec![wall(0), wall(0), Tile::Empty, Tile::Empty];
    let floor = vec![wall(1), Tile::Empty, Tile::Empty, Tile::Empty];
    let scene = Scene::new(2, 2, y_walls, x_walls, floor, vec![Tile::Empty; 4]).unwrap();
    let renderer = Renderer::new(textures());
    let camera = Camera::new(32, 32, 0, 100);
    let mut buf = vec![7u8; FRAME_BYTES];
    renderer.render_column(&mut buf, 32 << 16, 32 << 16, 0, 160, &camera, &scene, &t);
    assert_eq!(pixel(&buf, 159, 100), (7, 7, 7, 7));
    assert_eq!(pixel(&buf, 161, 50), (7, 7, 7, 7));
    assert_eq!(pixel(&buf, 160, 100), (255, 0, 0, 255));
}

#[test]
fn tiles_are_laid_out_column_by_column() {
    // a 4 by 2 sheet of 2 by 2 tiles; pixel (x, y) holds the byte 10 * y + x in each channel
    let mut sheet = Vec::new();
    for y in 0..2u8 {
        for x in 0..4u8 {
            let v = 10 * y + x;
            sheet.extend_from_slice(&[v, v, v, v]);
        }
    }
    let mut out = vec![99u8];
    fourteen_screws::texture::transform_tile(&mut out, &sheet, 1, 2, 4);
    let pixels: Vec<u8> = out[1..].chunks(4).map(|c| c[0]).collect();
    assert_eq!(out[0], 99);
    assert_eq!(pixels, vec![2, 12, 3, 13]);
}
