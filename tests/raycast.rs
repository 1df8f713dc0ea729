use fourteen_screws::consts::{ANGLE_0, ANGLE_180, ANGLE_270, ANGLE_90, PROJECTION_PLANE_WIDTH};
use fourteen_screws::raycast::{find_ceiling_intersection, find_floor_intersection, find_wall_intersections, merge_by_dist, Intersection, Ray, cast};
use fourteen_screws::scene::{Scene, TextureTile, Tile};
use fourteen_screws::trig::{fisheye_correction, wall_height, wall_texture_index, TrigTables};

fn fixed(x: f64) -> i32 {
    (x * 65536.0) as i32
}

fn radian(angle: usize) -> f64 {
    angle as f64 * std::f64::consts::PI / 960.0
}

fn tables() -> TrigTables {
    let size = 1921;
    let mut sin = Vec::new();
    let mut cos = Vec::new();
    let mut tan = Vec::new();
    let mut isin = Vec::new();
    let mut icos = Vec::new();
    let mut itan = Vec::new();
    let mut x_step = Vec::new();
    let mut y_step = Vec::new();
    for i in 0..size {
        let r = radian(i);
        sin.push(fixed(r.sin()));
        cos.push(fixed(r.cos()));
        tan.push(fixed(r.tan()));
        isin.push(fixed(1.0 / r.sin()));
        icos.push(fixed(1.0 / r.cos()));
        itan.push(fixed(1.0 / r.tan()));
        let mut xs = if r.tan() == 0.0 { f64::MAX } else { 64.0 / r.tan() };
        if r.tan() != 0.0 {
            if i >= 480 && i < 1440 {
                if xs > 0.0 {
                    xs = -xs;
                }
            } else if xs < 0.0 {
                xs = -xs;
            }
        }
        x_step.push(fixed(xs));
        let mut ys = 64.0 * r.tan();
        if i < 960 {
            if ys < 0.0 {
                ys = -ys;
            }
        } else if ys > 0.0 {
            ys = -ys;
        }
        y_step.push(fixed(ys));
    }
    let mut fisheye = Vec::new();
    for i in 0..320 {
        let offset = (i as i32 - 160) as f64 * std::f64::consts::PI / 960.0;
        fisheye.push(fixed(1.0 / offset.cos()));
    }
    TrigTables::new(sin, cos, tan, isin, icos, itan, x_step, y_step, fisheye).expect("tables are well formed")
}

fn wall(texture: u32) -> Tile {
    Tile::Surface(TextureTile { texture, passable: false })
}

/// A room of `n` by `n` cells with walls on its border (the grid is one cell wider and taller
/// so that the right and bottom walls have cells to sit on), floors and ceilings everywhere.
fn room(n: i32) -> Scene {
    let size = n + 1;
    let mut y_walls = Vec::new();
    let mut x_walls = Vec::new();
    let mut floor = Vec::new();
    let mut ceiling = Vec::new();
    for y in 0..size {
        for x in 0..size {
            y_walls.push(if (y == 0 || y == n) && x < n { wall(1) } else { Tile::Empty });
            x_walls.push(if (x == 0 || x == n) && y < n { wall(2) } else { Tile::Empty });
            floor.push(if x < n && y < n { wall(3) } else { Tile::Empty });
            ceiling.push(if x < n && y < n { wall(4) } else { Tile::Empty });
        }
    }
    Scene::new(size, size, y_walls, x_walls, floor, ceiling).unwrap()
}

fn hit(dist: i32) -> Intersection {
    Intersection::new(0, 0, dist, 0, 0, false)
}

#[test]
fn axis_aligned_scans_are_empty() {
    let t = tables();
    let scene = room(3);
    for d in [ANGLE_0, ANGLE_180] {
        let ray = Ray::horizontal(&t, 96 << 16, 96 << 16, d);
        assert!(ray.is_undefined());
        assert!(cast(&ray, &scene, 65536).is_empty());
    }
    for d in [ANGLE_90, ANGLE_270] {
        let ray = Ray::vertical(&t, 96 << 16, 96 << 16, d);
        assert!(ray.is_undefined());
        assert!(cast(&ray, &scene, 65536).is_empty());
    }
}

#[test]
fn room_centre_is_symmetric() {
    let t = tables();
    let scene = room(3);
    let centre = 96 << 16;
    let mut distances = Vec::new();
    for d in [ANGLE_0, ANGLE_90, ANGLE_180, ANGLE_270] {
        let hits = find_wall_intersections(centre, centre, d, PROJECTION_PLANE_WIDTH / 2, &scene, &t);
        assert_eq!(hits.len(), 1);
        distances.push(hits[0].dist);
    }
    assert_eq!(distances, vec![96, 96, 96, 96]);
}

#[test]
fn facing_right_from_inside() {
    let t = tables();
    let scene = room(3);
    let hits = find_wall_intersections(128 << 16, 128 << 16, ANGLE_0, PROJECTION_PLANE_WIDTH / 2, &scene, &t);
    assert_eq!(hits.len(), 1);
    assert_eq!(hits[0].dist, 64);
    assert_eq!(hits[0].x, 192);
    assert_eq!(hits[0].texture, 2);
    assert!(!hits[0].reverse);
}

#[test]
fn against_wall() {
    let t = tables();
    let scene = room(3);
    let hits = find_wall_intersections(28 << 16, 28 << 16, ANGLE_270, PROJECTION_PLANE_WIDTH / 2, &scene, &t);
    assert_eq!(hits.len(), 1);
    assert_eq!(hits[0].dist, 28);
    assert_eq!(hits[0].texture_column, 28);
}

#[test]
fn see_through_walls_are_layered() {
    let t = tables();
    let mut x_walls = vec![Tile::Empty; 4];
    x_walls[1] = Tile::Surface(TextureTile { texture: 7, passable: true });
    x_walls[3] = wall(2);
    let scene = Scene::new(4, 1, vec![Tile::Empty; 4], x_walls, vec![Tile::Empty; 4], vec![Tile::Empty; 4]).unwrap();
    let hits = find_wall_intersections(32 << 16, 32 << 16, ANGLE_0, PROJECTION_PLANE_WIDTH / 2, &scene, &t);
    assert_eq!(hits.len(), 2);
    assert_eq!((hits[0].dist, hits[0].texture), (32, 7));
    assert_eq!((hits[1].dist, hits[1].texture), (160, 2));
}

#[test]
fn diagonal_ray_hits_are_sorted() {
    let t = tables();
    let scene = room(5);
    for d in [37, 300, 700, 1000, 1500, 1800] {
        let hits = find_wall_intersections(100 << 16, 150 << 16, d, 10, &scene, &t);
        assert!(!hits.is_empty());
        for k in 1..hits.len() {
            assert!(hits[k - 1].dist <= hits[k].dist);
        }
    }
}

#[test]
fn merge_keeps_every_item_in_order() {
    let a = vec![hit(1), hit(4), hit(4), hit(9)];
    let b = vec![hit(2), hit(4), hit(10)];
    let merged = merge_by_dist(&a, &b);
    let dists: Vec<i32> = merged.iter().map(|i| i.dist).collect();
    assert_eq!(dists, vec![1, 2, 4, 4, 4, 9, 10]);
    assert!(merge_by_dist(&Vec::new(), &Vec::new()).is_empty());
    assert_eq!(merge_by_dist(&a, &Vec::new()).len(), 4);
}

#[test]
fn floor_and_ceiling_projection() {
    let t = tables();
    let scene = room(3);
    let centre = 96 << 16;
    let floor = find_floor_intersection(centre, centre, ANGLE_0, 199, 160, &scene, &t).unwrap();
    assert_eq!(floor.texture, 3);
    assert_eq!(floor.dist, 89 << 16);
    assert_eq!((floor.x, floor.y), (57, 32));
    let ceiling = find_ceiling_intersection(centre, centre, ANGLE_0, 0, 160, &scene, &t).unwrap();
    assert_eq!(ceiling.texture, 4);
    assert_eq!(ceiling.dist, 88 << 16);
    let far = find_floor_intersection(centre, centre, ANGLE_0, 101, 160, &scene, &t);
    assert!(far.is_none());
}

#[test]
fn horizon_row_is_nudged() {
    let t = tables();
    let scene = room(3);
    let centre = 96 << 16;
    let on = find_floor_intersection(centre, centre, ANGLE_90, 100, 160, &scene, &t);
    let below = find_floor_intersection(centre, centre, ANGLE_90, 101, 160, &scene, &t);
    assert_eq!(on, below);
}

#[test]
fn wall_height_is_monotonic_and_clamped() {
    assert_eq!(wall_height(0), 640);
    assert_eq!(wall_height(18), 640);
    assert_eq!(wall_height(100), 180);
    assert_eq!(wall_height(2048), 8);
    assert_eq!(wall_height(100000), 8);
    let mut previous = wall_height(0);
    for d in 1..3000 {
        let h = wall_height(d);
        assert!(h <= previous);
        assert!((8..=640).contains(&h));
        previous = h;
    }
}

#[test]
fn texture_rows_span_the_wall() {
    let rows = wall_texture_index(64);
    assert_eq!(rows.len(), 200);
    assert_eq!(rows[68], 0);
    assert_eq!(rows[100], 32);
    assert_eq!(rows[131], 63);
    assert_eq!(rows[0], 0);
    assert_eq!(rows[199], 63);
}

#[test]
fn tables_are_exact_on_the_axes() {
    let t = tables();
    assert_eq!(fisheye_correction(&t, 160), 65536);
    assert_eq!(fourteen_screws::trig::cos(&t, ANGLE_180), -65536);
    assert_eq!(fourteen_screws::trig::sin(&t, ANGLE_270), -65536);
    assert_eq!(fourteen_screws::trig::itan(&t, ANGLE_90), 0);
}

#[test]
fn tables_refuse_bad_sizes() {
    let short = vec![0; 10];
    let full = vec![0; 1921];
    assert!(TrigTables::new(short, full.clone(), full.clone(), full.clone(), full.clone(), full.clone(), full.clone(),
        full.clone(), vec![65536; 320]).is_err());
}

#[test]
fn tables_refuse_bad_fisheye_and_steps() {
    let good = tables();
    let _ = good;
    let build = |fisheye: Vec<i32>, flip_step: bool| {
        let size = 1921;
        let mut sin = Vec::new();
        let mut cos = Vec::new();
        let mut tan = Vec::new();
        let mut isin = Vec::new();
        let mut icos = Vec::new();
        let mut itan = Vec::new();
        let mut x_step = Vec::new();
        let mut y_step = Vec::new();
        for i in 0..size {
            let r = radian(i);
            sin.push(fixed(r.sin()));
            cos.push(fixed(r.cos()));
            tan.push(fixed(r.tan()));
            isin.push(fixed(1.0 / r.sin()));
            icos.push(fixed(1.0 / r.cos()));
            itan.push(fixed(1.0 / r.tan()));
            let xs = if i > 480 && i < 1440 { -100 } else if i == 480 || i == 1440 { 0 } else { 100 };
            x_step.push(if flip_step { -xs } else { xs });
            y_step.push(if i == 0 || i == 960 { 0 } else if i < 960 { 100 } else { -100 });
        }
        TrigTables::new(sin, cos, tan, isin, icos, itan, x_step, y_step, fisheye)
    };
    assert!(build(vec![65536; 320], false).is_ok());
    assert!(build(vec![65536; 320], true).is_err());
    let mut low = vec![65536; 320];
    low[3] = 60000;
    assert!(build(low, false).is_err());
    let mut lopsided = vec![65536; 320];
    lopsided[10] = 70000;
    assert!(build(lopsided, false).is_err());
    let mut off_centre = vec![70000; 320];
    off_centre[0] = 65536;
    assert!(build(off_centre, false).is_err());
}
