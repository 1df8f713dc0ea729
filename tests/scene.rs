use fourteen_screws::scene::{tile_from_code, tiles_from_codes, Scene, TextureTile, Tile};

fn surface(texture: u32) -> Tile {
    Tile::Surface(TextureTile { texture, passable: false })
}

#[test]
fn scene_lookups_are_bounds_checked() {
    let tiles = vec![surface(0), Tile::Empty, surface(1), surface(2), Tile::Empty, surface(3)];
    let scene = Scene::new(3, 2, tiles.clone(), tiles.clone(), tiles.clone(), tiles).unwrap();
    assert_eq!(scene.y_wall(0, 0), surface(0));
    assert_eq!(scene.x_wall(2, 1), surface(3));
    assert_eq!(scene.floor(1, 0), Tile::Empty);
    assert_eq!(scene.ceiling(0, 1), surface(2));
    assert_eq!(scene.y_wall(-1, 0), Tile::OutOfBounds);
    assert_eq!(scene.x_wall(3, 0), Tile::OutOfBounds);
    assert_eq!(scene.floor(0, 2), Tile::OutOfBounds);
    assert_eq!(scene.ceiling(i32::MAX, i32::MIN), Tile::OutOfBounds);
    assert!(scene.is_within_bounds(2, 1));
    assert!(!scene.is_within_bounds(2, 2));
}

#[test]
fn scene_construction_is_validated() {
    let four = vec![Tile::Empty; 4];
    assert!(Scene::new(-2, 2, four.clone(), four.clone(), four.clone(), four.clone()).is_err());
    assert!(Scene::new(2, 3, four.clone(), four.clone(), four.clone(), four.clone()).is_err());
    assert!(Scene::new(2, 2, four.clone(), vec![Tile::Empty; 3], four.clone(), four.clone()).is_err());
    assert!(Scene::new(1000, 0, vec![], vec![], vec![], vec![]).is_ok());
    assert!(Scene::new(513, 0, vec![], vec![], vec![], vec![]).is_ok());
    assert!(Scene::new(2, 2, four.clone(), four.clone(), four.clone(), four).is_ok());
}

#[test]
fn texture_codes_become_tiles() {
    assert_eq!(tile_from_code(0), Tile::Empty);
    assert_eq!(tile_from_code(1), surface(0));
    assert_eq!(tile_from_code(9), surface(8));
    assert_eq!(tiles_from_codes(&vec![0, 2, 0]), vec![Tile::Empty, surface(1), Tile::Empty]);
}
