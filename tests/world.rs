use fourteen_screws::consts::{ANGLE_0, ANGLE_180, ANGLE_270, ANGLE_90};
use fourteen_screws::trig::TrigTables;
use fourteen_screws::world::{Tile, World};

fn fixed(x: f64) -> i32 {
    (x * 65536.0) as i32
}

fn radian(angle: usize) -> f64 {
    angle as f64 * std::f64::consts::PI / 960.0
}

fn tables() -> TrigTables {
    let size = 1921;
    let mut sin = Vec::new();
    let mut cos = Vec::new();
    let mut tan = Vec::new();
    let mut isin = Vec::new();
    let mut icos = Vec::new();
    let mut itan = Vec::new();
    let mut x_step = Vec::new();
    let mut y_step = Vec::new();
    for i in 0..size {
        let r = radian(i);
        sin.push(fixed(r.sin()));
        cos.push(fixed(r.cos()));
        tan.push(fixed(r.tan()));
        isin.push(fixed(1.0 / r.sin()));
        icos.push(fixed(1.0 / r.cos()));
        itan.push(fixed(1.0 / r.tan()));
        let mut xs = if r.tan() == 0.0 { f64::MAX } else { 64.0 / r.tan() };
        if r.tan() != 0.0 {
            if i >= 480 && i < 1440 {
                if xs > 0.0 {
                    xs = -xs;
                }
            } else if xs < 0.0 {
                xs = -xs;
            }
        }
        x_step.push(fixed(xs));
        let mut ys = 64.0 * r.tan();
        if i < 960 {
            if ys < 0.0 {
                ys = -ys;
            }
        } else if ys > 0.0 {
            ys = -ys;
        }
        y_step.push(fixed(ys));
    }
    let mut fisheye = Vec::new();
    for i in 0..320 {
        let offset = (i as i32 - 160) as f64 * std::f64::consts::PI / 960.0;
        fisheye.push(fixed(1.0 / offset.cos()));
    }
    TrigTables::new(sin, cos, tan, isin, icos, itan, x_step, y_step, fisheye).expect("tables are well formed")
}

fn distance(d: Option<i32>) -> f64 {
    match d {
        Some(v) => v as f64,
        None => f64::MAX,
    }
}

#[test]
fn create_new_world() {
    let width: i32 = 3;
    let height: i32 = 3;
    let world_str = "WHWVOVWHW";
    let world = World::new(width, height, world_str).unwrap();

    assert_eq!(world.width(), width);
    assert_eq!(world.height(), height);
    assert_eq!(*world.h_walls(), vec!(
        Tile::Wall,  Tile::Wall,  Tile::Wall,
        Tile::Empty, Tile::Empty, Tile::Empty,
        Tile::Wall,  Tile::Wall,  Tile::Wall
    ));
    assert_eq!(*world.v_walls(), vec!(
        Tile::Wall, Tile::Empty, Tile::Wall,
        Tile::Wall, Tile::Empty, Tile::Wall,
        Tile::Wall, Tile::Empty, Tile::Wall
    ));
}

#[test]
fn cast_ray() {
    let width: i32 = 3;
    let height: i32 = 3;
    let world_str = "WHWVOVWHW";
    let world = World::new(width, height, world_str).unwrap();
    let t = tables();

    assert_eq!(distance(world.find_horizontal_intersect(&t, 64, 64, ANGLE_0)),   f64::MAX);
    assert_eq!(distance(world.find_horizontal_intersect(&t, 64, 64, ANGLE_90)),  64.0);
    assert_eq!(distance(world.find_horizontal_intersect(&t, 64, 64, ANGLE_180)), f64::MAX);
    assert_eq!(distance(world.find_horizontal_intersect(&t, 64, 64, ANGLE_270)), 64.0);

    assert_eq!(distance(world.find_vertical_intersect(&t, 64, 64, ANGLE_0)),   64.0);
    assert_eq!(distance(world.find_vertical_intersect(&t, 64, 64, ANGLE_90)),  f64::MAX);
    assert_eq!(distance(world.find_vertical_intersect(&t, 64, 64, ANGLE_180)), 64.0);
    assert_eq!(distance(world.find_vertical_intersect(&t, 64, 64, ANGLE_270)), f64::MAX);
}

#[test]
fn map_string_ray_meets_wall_at_half_tile() {
    let world = World::new(3, 3, "WHWVOVWHW").unwrap();
    let t = tables();
    let hits = world.find_wall_intersections(&t, 64 << 16, 64 << 16, ANGLE_90);
    assert!(!hits.is_empty());
    assert_eq!(hits[0].dist, 64);
    assert_eq!(hits[0].y, 128);
}

#[test]
fn world_rejects_bad_dimensions() {
    assert!(World::new(-1, 3, "WHW").is_err());
    assert!(World::new(3, 3, "WHWVOV").is_err());
    assert!(World::new(600, 1, "W").is_err());
    assert!(World::new(0, 0, "").is_ok());
    assert!(World::new(513, 0, "").is_ok());
}

#[test]
fn world_walls_outside_grid() {
    let world = World::new(3, 3, "WHWVOVWHW").unwrap();
    assert_eq!(world.x_wall(-1, 0), Tile::OutOfBounds);
    assert_eq!(world.y_wall(3, 0), Tile::OutOfBounds);
    assert_eq!(world.y_wall(1, 0), Tile::Wall);
    assert_eq!(world.x_wall(1, 1), Tile::Empty);
    assert!(world.is_within_bounds(2, 2));
    assert!(!world.is_within_bounds(3, 2));
}

#[test]
fn see_through_wall_in_map_string() {
    let world = World::new(4, 1, "VXOV").unwrap();
    let t = tables();
    let hits = world.find_wall_intersections(&t, 32 << 16, 32 << 16, ANGLE_0);
    assert_eq!(hits.len(), 2);
    assert_eq!((hits[0].dist, hits[0].texture), (32, 1));
    assert_eq!((hits[1].dist, hits[1].texture), (160, 3));
    assert_eq!(*world.v_walls(), vec![Tile::Wall, Tile::Wall, Tile::Empty, Tile::Wall]);
    assert_eq!(*world.h_walls(), vec![Tile::Empty; 4]);
}

#[test]
fn world_has_a_floor_everywhere() {
    let world = World::new(3, 3, "WHWVOVWHW").unwrap();
    let t = tables();
    let floor = world.find_floor_intersection(&t, 96 << 16, 96 << 16, ANGLE_0, 199, 160).unwrap();
    assert_eq!(floor.texture, 42);
    assert_eq!((floor.x, floor.y), (57, 32));
    assert!(world.find_floor_intersection(&t, 96 << 16, 96 << 16, ANGLE_0, 101, 160).is_none());
}

#[test]
fn axis_parallel_scans_report_nothing() {
    let world = World::new(3, 3, "WHWVOVWHW").unwrap();
    let t = tables();
    for (x, y) in [(10, 10), (64, 64), (100, 37)] {
        assert_eq!(world.find_horizontal_intersect(&t, x, y, ANGLE_0), None);
        assert_eq!(world.find_horizontal_intersect(&t, x, y, ANGLE_180), None);
        assert_eq!(world.find_vertical_intersect(&t, x, y, ANGLE_90), None);
        assert_eq!(world.find_vertical_intersect(&t, x, y, ANGLE_270), None);
    }
}
