use vstd::prelude::*;
use crate::consts::MAX_GRID_SIZE;

verus! {

/// A surface drawn with texture `texture`; `passable` surfaces do not block movement.
#[derive(Clone, Copy, Debug, PartialEq, Eq, Structural)]
pub struct TextureTile {
    pub texture: u32,
    pub passable: bool,
}

/// What a grid query finds: outside the grid, nothing, or a surface.
#[derive(Clone, Copy, Debug, PartialEq, Eq, Structural)]
pub enum Tile {
    OutOfBounds,
    Empty,
    Surface(TextureTile),
}

/// A read-only tile grid: walls on the top edge (`y_walls`) and on the left edge (`x_walls`)
/// of each cell, and the floor and ceiling surfaces of each cell, stored row by row.
pub struct Scene {
    width: i32,
    height: i32,
    y_walls: Vec<Tile>,
    x_walls: Vec<Tile>,
    floor: Vec<Tile>,
    ceiling: Vec<Tile>,
}

/// The contents of a scene.
pub ghost struct SceneView {
    pub width: int,
    pub height: int,
    pub y_walls: Seq<Tile>,
    pub x_walls: Seq<Tile>,
    pub floor: Seq<Tile>,
    pub ceiling: Seq<Tile>,
}

impl Tile {
    /// Whether the tile is a surface.
    pub fn is_surface(&self) -> (r: bool)
        ensures
            r == (*self is Surface),
    {
        match self {
            Tile::Surface(_) => true,
            _ => false,
        }
    }
}

impl SceneView {
    /// Non-negative dimensions, and one tile per cell in each array.
    pub open spec fn wf(&self) -> bool {
        &&& 0 <= self.width
        &&& 0 <= self.height
        &&& self.y_walls.len() == self.width * self.height
        &&& self.x_walls.len() == self.width * self.height
        &&& self.floor.len() == self.width * self.height
        &&& self.ceiling.len() == self.width * self.height
    }

    /// A grid small enough to cast rays across: see `MAX_GRID_SIZE`.
    pub open spec fn addressable(&self) -> bool {
        self.width <= MAX_GRID_SIZE && self.height <= MAX_GRID_SIZE
    }

    pub open spec fn in_bounds(&self, x: int, y: int) -> bool {
        0 <= x < self.width && 0 <= y < self.height
    }

    /// The tile of cell `(x, y)` in `tiles`, or `OutOfBounds` outside the grid.
    pub open spec fn lookup(&self, tiles: Seq<Tile>, x: int, y: int) -> Tile {
        if self.in_bounds(x, y) {
            tiles[x + y * self.width]
        } else {
            Tile::OutOfBounds
        }
    }

    /// The wall on the top edge of cell `(x, y)`.
    pub open spec fn y_wall(&self, x: int, y: int) -> Tile {
        self.lookup(self.y_walls, x, y)
    }

    /// The wall on the left edge of cell `(x, y)`.
    pub open spec fn x_wall(&self, x: int, y: int) -> Tile {
        self.lookup(self.x_walls, x, y)
    }

    pub open spec fn floor(&self, x: int, y: int) -> Tile {
        self.lookup(self.floor, x, y)
    }

    pub open spec fn ceiling(&self, x: int, y: int) -> Tile {
        self.lookup(self.ceiling, x, y)
    }
}

impl View for Scene {
    type V = SceneView;

    closed spec fn view(&self) -> SceneView {
        SceneView {
            width: self.width as int,
            height: self.height as int,
            y_walls: self.y_walls@,
            x_walls: self.x_walls@,
            floor: self.floor@,
            ceiling: self.ceiling@,
        }
    }
}

/// Whether arrays of the given lengths fit a grid of the given dimensions.
pub open spec fn valid_dimensions(width: int, height: int, lens: Seq<int>) -> bool {
    &&& 0 <= width
    &&& 0 <= height
    &&& forall|i: int| 0 <= i < lens.len() ==> #[trigger] lens[i] == width * height
}

impl Scene {
    /// Builds a scene. Fails when a dimension is negative, or when an array does not hold
    /// exactly one tile per cell.
    pub fn new(
        width: i32,
        height: i32,
        y_walls: Vec<Tile>,
        x_walls: Vec<Tile>,
        floor: Vec<Tile>,
        ceiling: Vec<Tile>,
    ) -> (r: Result<Scene, &'static str>)
        ensures
            r is Ok <==> valid_dimensions(
                width as int,
                height as int,
                seq![y_walls@.len() as int, x_walls@.len() as int, floor@.len() as int, ceiling@.len() as int],
            ),
            r matches Ok(s) ==> s.wf() && s@ == (SceneView {
                width: width as int,
                height: height as int,
                y_walls: y_walls@,
                x_walls: x_walls@,
                floor: floor@,
                ceiling: ceiling@,
            }),
    {
        let ghost lens = seq![y_walls@.len() as int, x_walls@.len() as int, floor@.len() as int, ceiling@.len() as int];
        if width < 0 || height < 0 {
            return Err("Width and height must be positive values");
        }
        proof {
            assert(0 <= width * height <= 0x8000_0000 * 0x8000_0000) by (nonlinear_arith)
                requires 0 <= width <= 0x8000_0000, 0 <= height <= 0x8000_0000;
        }
        let cells: u64 = (width as u64) * (height as u64);
        if y_walls.len() as u64 != cells || x_walls.len() as u64 != cells || floor.len() as u64 != cells || ceiling.len() as u64 != cells {
            proof {
                if y_walls@.len() != cells as int {
                    assert(lens[0] != width * height);
                } else if x_walls@.len() != cells as int {
                    assert(lens[1] != width * height);
                } else if floor@.len() != cells as int {
                    assert(lens[2] != width * height);
                } else {
                    assert(lens[3] != width * height);
                }
            }
            return Err("Width and height do not match the number of tiles");
        }
        Ok(Scene { width, height, y_walls, x_walls, floor, ceiling })
    }

    pub open spec fn wf(&self) -> bool {
        self@.wf()
    }

    pub fn width(&self) -> (r: i32)
        ensures
            r == self@.width,
    {
        self.width
    }

    pub fn height(&self) -> (r: i32)
        ensures
            r == self@.height,
    {
        self.height
    }

    /// Whether cell `(x, y)` lies inside the grid.
    pub fn is_within_bounds(&self, x: i32, y: i32) -> (r: bool)
        ensures
            r == self@.in_bounds(x as int, y as int),
    {
        x >= 0 && x < self.width && y >= 0 && y < self.height
    }

    fn index(&self, x: i32, y: i32) -> (r: usize)
        requires
            self.wf(),
            self@.in_bounds(x as int, y as int),
        ensures
            r == x + y * self@.width,
            r < self@.width * self@.height,
    {
        let len: usize = self.y_walls.len();
        proof {
            let w = self.width as int;
            let h = self.height as int;
            assert(x + y * w < w * h && 0 <= y * w) by (nonlinear_arith)
                requires 0 <= x < w, 0 <= y < h;
            assert(len == w * h);
        }
        (x as usize) + (y as usize) * (self.width as usize)
    }

    /// The wall on the top edge of cell `(x, y)`, or `OutOfBounds` outside the grid.
    pub fn y_wall(&self, x: i32, y: i32) -> (r: Tile)
        requires
            self.wf(),
        ensures
            r == self@.y_wall(x as int, y as int),
    {
        if !self.is_within_bounds(x, y) {
            return Tile::OutOfBounds;
        }
        self.y_walls[self.index(x, y)]
    }

    /// The wall on the left edge of cell `(x, y)`, or `OutOfBounds` outside the grid.
    pub fn x_wall(&self, x: i32, y: i32) -> (r: Tile)
        requires
            self.wf(),
        ensures
            r == self@.x_wall(x as int, y as int),
    {
        if !self.is_within_bounds(x, y) {
            return Tile::OutOfBounds;
        }
        self.x_walls[self.index(x, y)]
    }

    /// The ceiling surface of cell `(x, y)`, or `OutOfBounds` outside the grid.
    pub fn ceiling(&self, x: i32, y: i32) -> (r: Tile)
        requires
            self.wf(),
        ensures
            r == self@.ceiling(x as int, y as int),
    {
        if !self.is_within_bounds(x, y) {
            return Tile::OutOfBounds;
        }
        self.ceiling[self.index(x, y)]
    }

    /// The floor surface of cell `(x, y)`, or `OutOfBounds` outside the grid.
    pub fn floor(&self, x: i32, y: i32) -> (r: Tile)
        requires
            self.wf(),
        ensures
            r == self@.floor(x as int, y as int),
    {
        if !self.is_within_bounds(x, y) {
            return Tile::OutOfBounds;
        }
        self.floor[self.index(x, y)]
    }
}

/// The tile that a texture code stands for: 0 is empty, and code `n > 0` is an impassable
/// surface with texture `n - 1`.
pub open spec fn spec_tile_from_code(code: u32) -> Tile {
    if code > 0 {
        Tile::Surface(TextureTile { texture: (code - 1) as u32, passable: false })
    } else {
        Tile::Empty
    }
}

/// The tile that a texture code stands for.
pub fn tile_from_code(code: u32) -> (r: Tile)
    ensures
        r == spec_tile_from_code(code),
{
    if code > 0 {
        Tile::Surface(TextureTile { texture: code - 1, passable: false })
    } else {
        Tile::Empty
    }
}

/// The tiles that a list of texture codes stands for.
pub fn tiles_from_codes(codes: &Vec<u32>) -> (r: Vec<Tile>)
    ensures
        r@.len() == codes@.len(),
        forall|i: int| 0 <= i < codes@.len() ==> #[trigger] r@[i] == spec_tile_from_code(codes@[i]),
{
    let mut tiles: Vec<Tile> = Vec::new();
    let mut i: usize = 0;
    while i < codes.len()
        invariant
            i <= codes@.len(),
            tiles@.len() == i,
            forall|j: int| 0 <= j < i ==> #[trigger] tiles@[j] == spec_tile_from_code(codes@[j]),
        decreases codes@.len() - i,
    {
        tiles.push(tile_from_code(codes[i]));
        i += 1;
    }
    tiles
}

} // verus!
