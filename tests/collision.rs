use fourteen_screws::camera::Camera;
use fourteen_screws::collision::{move_within, HitResult, Player};
use fourteen_screws::consts::{ANGLE_0, ANGLE_180, ANGLE_270, ANGLE_90};
use fourteen_screws::trig::TrigTables;
use fourteen_screws::world::World;

fn fixed(x: f64) -> i32 {
    (x * 65536.0) as i32
}

fn radian(angle: usize) -> f64 {
    angle as f64 * std::f64::consts::PI / 960.0
}

fn tables() -> TrigTables {
    let size = 1921;
    let mut sin = Vec::new();
    let mut cos = Vec::new();
    let mut tan = Vec::new();
    let mut isin = Vec::new();
    let mut icos = Vec::new();
    let mut itan = Vec::new();
    let mut x_step = Vec::new();
    let mut y_step = Vec::new();
    for i in 0..size {
        let r = radian(i);
        sin.push(fixed(r.sin()));
        cos.push(fixed(r.cos()));
        tan.push(fixed(r.tan()));
        isin.push(fixed(1.0 / r.sin()));
        icos.push(fixed(1.0 / r.cos()));
        itan.push(fixed(1.0 / r.tan()));
        let mut xs = if r.tan() == 0.0 { f64::MAX } else { 64.0 / r.tan() };
        if r.tan() != 0.0 {
            if i >= 480 && i < 1440 {
                if xs > 0.0 {
                    xs = -xs;
                }
            } else if xs < 0.0 {
                xs = -xs;
            }
        }
        x_step.push(fixed(xs));
        let mut ys = 64.0 * r.tan();
        if i < 960 {
            if ys < 0.0 {
                ys = -ys;
            }
        } else if ys > 0.0 {
            ys = -ys;
        }
        y_step.push(fixed(ys));
    }
    let mut fisheye = Vec::new();
    for i in 0..320 {
        let offset = (i as i32 - 160) as f64 * std::f64::consts::PI / 960.0;
        fisheye.push(fixed(1.0 / offset.cos()));
    }
    TrigTables::new(sin, cos, tan, isin, icos, itan, x_step, y_step, fisheye).expect("tables are well formed")
}

const ARENA: &str = "WHHHHWHWHHHHWVOOOOVOVOOOOVVOOOOVOVOOOOVVOOOOVOOOOOOVVOOOOOOVOOOOVWHHHHWHWHHHWW";

#[test]
fn zero_move_changes_nothing() {
    let t = tables();
    let world = World::new(13, 6, ARENA).unwrap();
    for d in [ANGLE_0, ANGLE_90, 777, ANGLE_270] {
        let (x, y, hit) = move_within(world.scene(), &t, 160, 160, d, 0, 28);
        assert_eq!((x, y, hit), (160, 160, HitResult::Nothing));
    }
}

#[test]
fn walking_into_left_wall_stops_short_of_it() {
    let t = tables();
    let world = World::new(13, 6, ARENA).unwrap();
    let mut player = Player::new(Camera::new(160, 160, ANGLE_180, 100), 8, 26, 28);
    let mut last = HitResult::Nothing;
    for _ in 0..40 {
        last = player.forward(world.scene(), &t);
    }
    assert_eq!(last, HitResult::WallX);
    assert_eq!(player.camera.x(), 32);
    assert_eq!(player.camera.y(), 160);
}

#[test]
fn walking_into_top_wall_stops_short_of_it() {
    let t = tables();
    let world = World::new(13, 6, ARENA).unwrap();
    let mut player = Player::new(Camera::new(160, 160, ANGLE_270, 100), 8, 26, 28);
    let mut last = HitResult::Nothing;
    for _ in 0..40 {
        last = player.forward(world.scene(), &t);
    }
    assert_eq!(last, HitResult::WallY);
    assert_eq!(player.camera.y(), 32);
    assert_eq!(player.camera.x(), 160);
}

#[test]
fn large_move_into_wall_is_refused() {
    let t = tables();
    let world = World::new(13, 6, ARENA).unwrap();
    let (x, y, hit) = move_within(world.scene(), &t, 40, 160, ANGLE_180, 100, 28);
    assert_eq!((x, y, hit), (40, 160, HitResult::WallX));
}

#[test]
fn diagonal_move_slides_along_wall() {
    let t = tables();
    let world = World::new(13, 6, ARENA).unwrap();
    // facing up and to the left, next to the left wall: x is stopped, y keeps moving
    let (x, y, hit) = move_within(world.scene(), &t, 32, 160, 1200, 8, 28);
    assert_eq!(hit, HitResult::SlideX);
    assert_eq!(x, 32);
    assert!(y < 160);
}

#[test]
fn back_and_strafe_directions() {
    let t = tables();
    let world = World::new(13, 6, ARENA).unwrap();
    let mut player = Player::new(Camera::new(160, 160, ANGLE_0, 100), 8, 26, 28);
    assert_eq!(player.back(world.scene(), &t), HitResult::Nothing);
    assert_eq!((player.camera.x(), player.camera.y()), (152, 160));
    assert_eq!(player.strafe_right(world.scene(), &t), HitResult::Nothing);
    assert_eq!((player.camera.x(), player.camera.y()), (152, 168));
    assert_eq!(player.strafe_left(world.scene(), &t), HitResult::Nothing);
    assert_eq!((player.camera.x(), player.camera.y()), (152, 160));
}

#[test]
fn turning_wraps_the_angle() {
    let mut player = Player::new(Camera::new(160, 160, 10, 100), 8, 26, 28);
    player.turn_left();
    assert_eq!(player.camera.angle(), 1904);
    player.turn_right();
    assert_eq!(player.camera.angle(), 10);
    assert_eq!((player.camera.x(), player.camera.y()), (160, 160));
}

#[test]
fn camera_rotate_and_pitch() {
    let mut camera = Camera::default();
    assert_eq!((camera.x(), camera.y(), camera.angle(), camera.horizon()), (0, 0, 0, 100));
    camera.rotate(-1);
    assert_eq!(camera.angle(), 1919);
    camera.rotate(3841);
    assert_eq!(camera.angle(), 0);
    camera.pitch(500);
    assert_eq!(camera.horizon(), 180);
    camera.pitch(-500);
    assert_eq!(camera.horizon(), 20);
    camera.move_to(5, 6);
    assert_eq!((camera.x(), camera.y()), (5, 6));
    camera.set_x(9);
    camera.set_y(-9);
    assert_eq!((camera.x(), camera.y()), (9, -9));
}

#[test]
fn player_position_and_rotation_setters() {
    let mut player = Player::new(Camera::new(0, 0, 0, 100), 8, 26, 28);
    player.pos(64, 96);
    assert_eq!((player.camera.x(), player.camera.y()), (64, 96));
    player.rotation(-10);
    assert_eq!(player.camera.angle(), 1910);
    player.rotation(3840 + 7);
    assert_eq!(player.camera.angle(), 7);
}

#[test]
fn passable_walls_do_not_block() {
    let t = tables();
    let world = World::new(4, 1, "VXOV").unwrap();
    let (x, y, hit) = move_within(world.scene(), &t, 100, 32, ANGLE_180, 50, 28);
    assert_eq!((x, y, hit), (50, 32, HitResult::Nothing));
}

#[test]
fn zero_move_next_to_a_corner_reports_nothing() {
    let t = tables();
    // cell (0, 0) has an impassable left wall; (10, 70) lies in the corner zone of cell (0, 1)
    let world = World::new(1, 2, "VO").unwrap();
    for d in [ANGLE_0, ANGLE_90, ANGLE_180, ANGLE_270, 1234] {
        assert_eq!(move_within(world.scene(), &t, 10, 70, d, 0, 28), (10, 70, HitResult::Nothing));
    }
    let mut player = Player::new(Camera::new(10, 70, ANGLE_0, 100), 8, 26, 28);
    assert_eq!(player.translate(ANGLE_0, 0, world.scene(), &t), HitResult::Nothing);
    assert_eq!((player.camera.x(), player.camera.y()), (10, 70));
}
