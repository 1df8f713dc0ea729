use vstd::prelude::*;
use vstd::string::StrSliceExecFns;
use crate::consts::MAX_GRID_SIZE;
use crate::raycast::{cast, find_floor_intersection, spec_floor_intersection, ray_hits, spec_ray_h, spec_ray_v, spec_wall_intersections, merge_by_dist, Intersection, Ray};
use crate::scene::{Scene, SceneView, TextureTile};
use crate::trig::TrigTables;

verus! {

/// A wall edge of a world built from a map string: a wall or nothing; `OutOfBounds` answers
/// queries outside the grid.
#[derive(Clone, Copy, Debug, PartialEq, Eq, Structural)]
pub enum Tile {
    Empty,
    Wall,
    OutOfBounds,
}

/// The surface a map character puts on its cell's top edge: `W` (walls on both axes), `H`,
/// `s` and `c` a wall of texture 3, `h` a wall of texture 65.
pub open spec fn top_surface(c: char) -> crate::scene::Tile {
    if c == 'W' || c == 'H' || c == 's' || c == 'c' {
        crate::scene::Tile::Surface(TextureTile { texture: 3, passable: false })
    } else if c == 'h' {
        crate::scene::Tile::Surface(TextureTile { texture: 65, passable: false })
    } else {
        crate::scene::Tile::Empty
    }
}

/// The surface a map character puts on its cell's left edge: `W` and `V` a wall of texture 3,
/// `X` a passable see-through wall of texture 1, `v` a wall of texture 65, `s` of texture 5
/// and `c` of texture 4.
pub open spec fn left_surface(c: char) -> crate::scene::Tile {
    if c == 'W' || c == 'V' {
        crate::scene::Tile::Surface(TextureTile { texture: 3, passable: false })
    } else if c == 'X' {
        crate::scene::Tile::Surface(TextureTile { texture: 1, passable: true })
    } else if c == 'v' {
        crate::scene::Tile::Surface(TextureTile { texture: 65, passable: false })
    } else if c == 's' {
        crate::scene::Tile::Surface(TextureTile { texture: 5, passable: false })
    } else if c == 'c' {
        crate::scene::Tile::Surface(TextureTile { texture: 4, passable: false })
    } else {
        crate::scene::Tile::Empty
    }
}

/// Whether a scene tile is a wall.
pub open spec fn edge_of(t: crate::scene::Tile) -> Tile {
    if t is Surface { Tile::Wall } else { Tile::Empty }
}

/// The top-edge wall that a map character gives its cell.
pub open spec fn h_tile(c: char) -> Tile {
    edge_of(top_surface(c))
}

/// The left-edge wall that a map character gives its cell.
pub open spec fn v_tile(c: char) -> Tile {
    edge_of(left_surface(c))
}

/// A grid world read from a map string of one character per cell, row by row.
pub struct World {
    width: i32,
    height: i32,
    h_walls: Vec<Tile>,
    v_walls: Vec<Tile>,
    scene: Scene,
}

/// The contents of a world: its dimensions and its two arrays of wall edges.
pub ghost struct WorldView {
    pub width: int,
    pub height: int,
    pub h_walls: Seq<Tile>,
    pub v_walls: Seq<Tile>,
}

impl View for World {
    type V = WorldView;

    closed spec fn view(&self) -> WorldView {
        WorldView { width: self.width as int, height: self.height as int, h_walls: self.h_walls@, v_walls: self.v_walls@ }
    }
}

/// The floor of every cell of a world: texture 42.
pub open spec fn world_floor() -> crate::scene::Tile {
    crate::scene::Tile::Surface(TextureTile { texture: 42, passable: false })
}

/// The scene a map describes: its walls as textured surfaces, a floor everywhere and no
/// ceiling.
pub open spec fn map_scene(width: int, height: int, map: Seq<char>) -> SceneView {
    SceneView {
        width,
        height,
        y_walls: map.map_values(|c: char| top_surface(c)),
        x_walls: map.map_values(|c: char| left_surface(c)),
        floor: Seq::new((width * height) as nat, |i: int| world_floor()),
        ceiling: Seq::new((width * height) as nat, |i: int| crate::scene::Tile::Empty),
    }
}

impl World {
    pub closed spec fn spec_scene(&self) -> Scene {
        self.scene
    }

    /// A world built from a map and the scene it describes agree.
    pub open spec fn wf(&self) -> bool {
        &&& 0 <= self@.width
        &&& 0 <= self@.height
        &&& self@.h_walls.len() == self@.width * self@.height
        &&& self@.v_walls.len() == self@.width * self@.height
        &&& self.spec_scene().wf()
        &&& self.spec_scene()@.width == self@.width
        &&& self.spec_scene()@.height == self@.height
    }

    /// A world small enough to cast rays across: see `MAX_GRID_SIZE`.
    pub open spec fn addressable(&self) -> bool {
        self@.width <= MAX_GRID_SIZE && self@.height <= MAX_GRID_SIZE
    }

    /// Reads a `width` by `height` map, one character per cell: see [`top_surface`] and
    /// [`left_surface`] for the walls each character puts on its cell's edges (`W` on both,
    /// `H` on the top, `V` on the left; `O` and any other character none). Every cell has a
    /// floor of texture 42 and no ceiling. Fails when a dimension is negative, or when the map
    /// does not hold one character per cell.
    pub fn new(width: i32, height: i32, map_str: &str) -> (r: Result<World, &'static str>)
        ensures
            r is Ok <==> (0 <= width && 0 <= height && map_str@.len() == width * height),
            r matches Ok(w) ==> w.wf() && w@ == (WorldView {
                width: width as int,
                height: height as int,
                h_walls: map_str@.map_values(|c: char| h_tile(c)),
                v_walls: map_str@.map_values(|c: char| v_tile(c)),
            }),
            r matches Ok(w) ==> w.spec_scene()@ == map_scene(width as int, height as int, map_str@),
    {
        if width < 0 || height < 0 {
            return Err("Width and height must be positive values");
        }
        proof {
            assert(0 <= width * height <= 0x8000_0000 * 0x8000_0000) by (nonlinear_arith)
                requires 0 <= width <= 0x8000_0000, 0 <= height <= 0x8000_0000;
        }
        let cells: usize = map_str.unicode_len();
        if cells as u64 != (width as u64) * (height as u64) {
            return Err("Width and height parameters do not match size of serialized map string");
        }
        let mut h_walls: Vec<Tile> = Vec::new();
        let mut v_walls: Vec<Tile> = Vec::new();
        let mut y_walls: Vec<crate::scene::Tile> = Vec::new();
        let mut x_walls: Vec<crate::scene::Tile> = Vec::new();
        let mut floor: Vec<crate::scene::Tile> = Vec::new();
        let mut ceiling: Vec<crate::scene::Tile> = Vec::new();
        let mut i: usize = 0;
        while i < cells
            invariant
                cells == map_str@.len(),
                i <= cells,
                h_walls@.len() == i && v_walls@.len() == i && y_walls@.len() == i && x_walls@.len() == i && floor@.len() == i
                    && ceiling@.len() == i,
                forall|j: int| 0 <= j < i ==> #[trigger] h_walls@[j] == h_tile(map_str@[j]),
                forall|j: int| 0 <= j < i ==> #[trigger] v_walls@[j] == v_tile(map_str@[j]),
                forall|j: int| 0 <= j < i ==> #[trigger] y_walls@[j] == top_surface(map_str@[j]),
                forall|j: int| 0 <= j < i ==> #[trigger] x_walls@[j] == left_surface(map_str@[j]),
                forall|j: int| 0 <= j < i ==> #[trigger] floor@[j] == world_floor(),
                forall|j: int| 0 <= j < i ==> #[trigger] ceiling@[j] == crate::scene::Tile::Empty,
            decreases cells - i,
        {
            let c = map_str.get_char(i);
            let top = top_surface_of(c);
            let left = left_surface_of(c);
            h_walls.push(if top.is_surface() { Tile::Wall } else { Tile::Empty });
            v_walls.push(if left.is_surface() { Tile::Wall } else { Tile::Empty });
            y_walls.push(top);
            x_walls.push(left);
            floor.push(crate::scene::Tile::Surface(TextureTile { texture: 42, passable: false }));
            ceiling.push(crate::scene::Tile::Empty);
            i += 1;
        }
        let scene = match Scene::new(width, height, y_walls, x_walls, floor, ceiling) {
            Ok(s) => s,
            Err(e) => {
                proof {
                    let lens = seq![cells as int, cells as int, cells as int, cells as int];
                    assert(lens[0] == width * height && lens[1] == width * height && lens[2] == width * height
                        && lens[3] == width * height);
                }
                return Err(e);
            },
        };
        let w = World { width, height, h_walls, v_walls, scene };
        proof {
            assert(w.h_walls@ =~= map_str@.map_values(|c: char| h_tile(c)));
            assert(w.v_walls@ =~= map_str@.map_values(|c: char| v_tile(c)));
            assert(w.scene@.y_walls =~= map_str@.map_values(|c: char| top_surface(c)));
            assert(w.scene@.x_walls =~= map_str@.map_values(|c: char| left_surface(c)));
            assert(w.scene@.floor =~= Seq::new((width * height) as nat, |i: int| world_floor()));
            assert(w.scene@.ceiling =~= Seq::new((width * height) as nat, |i: int| crate::scene::Tile::Empty));
        }
        Ok(w)
    }

    pub fn width(&self) -> (r: i32)
        ensures
            r == self@.width,
    {
        self.width
    }

    pub fn height(&self) -> (r: i32)
        ensures
            r == self@.height,
    {
        self.height
    }

    /// The top-edge walls, row by row.
    pub fn h_walls(&self) -> (r: &Vec<Tile>)
        ensures
            r@ == self@.h_walls,
    {
        &self.h_walls
    }

    /// The left-edge walls, row by row.
    pub fn v_walls(&self) -> (r: &Vec<Tile>)
        ensures
            r@ == self@.v_walls,
    {
        &self.v_walls
    }

    /// The scene this world describes.
    pub fn scene(&self) -> (r: &Scene)
        ensures
            r == self.spec_scene(),
    {
        &self.scene
    }

    /// Whether cell `(x, y)` lies inside the grid.
    pub fn is_within_bounds(&self, x: i32, y: i32) -> (r: bool)
        ensures
            r == (0 <= x < self@.width && 0 <= y < self@.height),
    {
        x >= 0 && x < self.width && y >= 0 && y < self.height
    }

    /// The wall on the top edge of cell `(x, y)`, or `OutOfBounds` outside the grid.
    pub fn y_wall(&self, x: i32, y: i32) -> (r: Tile)
        requires
            self.wf(),
        ensures
            r == if 0 <= x < self@.width && 0 <= y < self@.height { self@.h_walls[x + y * self@.width] } else { Tile::OutOfBounds },
    {
        if !self.is_within_bounds(x, y) {
            return Tile::OutOfBounds;
        }
        let len: usize = self.h_walls.len();
        proof {
            assert(x + y * self@.width < self@.width * self@.height && 0 <= y * self@.width) by (nonlinear_arith)
                requires 0 <= x < self@.width, 0 <= y < self@.height;
        }
        (self.h_walls)[(x as usize) + (y as usize) * (self.width as usize)]
    }

    /// The wall on the left edge of cell `(x, y)`, or `OutOfBounds` outside the grid.
    pub fn x_wall(&self, x: i32, y: i32) -> (r: Tile)
        requires
            self.wf(),
        ensures
            r == if 0 <= x < self@.width && 0 <= y < self@.height { self@.v_walls[x + y * self@.width] } else { Tile::OutOfBounds },
    {
        if !self.is_within_bounds(x, y) {
            return Tile::OutOfBounds;
        }
        let len: usize = self.v_walls.len();
        proof {
            assert(x + y * self@.width < self@.width * self@.height && 0 <= y * self@.width) by (nonlinear_arith)
                requires 0 <= x < self@.width, 0 <= y < self@.height;
        }
        (self.v_walls)[(x as usize) + (y as usize) * (self.width as usize)]
    }

    /// Perpendicular distance, in world units, from `(origin_x, origin_y)` (world units) to
    /// the nearest wall on a horizontal grid line toward `direction`; none where the ray meets
    /// no such wall.
    pub fn find_horizontal_intersect(&self, tables: &TrigTables, origin_x: i32, origin_y: i32, direction: i32) -> (r: Option<i32>)
        requires
            self.wf(),
            self.addressable(),
            tables.wf(),
            -32768 <= origin_x < 32768,
            -32768 <= origin_y < 32768,
            0 <= direction < 1920,
        ensures
            ({
                let hits = ray_hits(self.spec_scene()@, spec_ray_h(*tables, origin_x * 65536, origin_y * 65536, direction as int), 65536);
                r == if hits.len() > 0 { Some(hits[0].dist) } else { None::<i32> }
            }),
            direction == 0 || direction == 960 ==> r is None,
    {
        let ray = Ray::horizontal(tables, origin_x * 65536, origin_y * 65536, direction);
        let hits = cast(&ray, &self.scene, 65536);
        if hits.len() > 0 { Some(hits[0].dist) } else { None }
    }

    /// Perpendicular distance, in world units, from `(origin_x, origin_y)` (world units) to
    /// the nearest wall on a vertical grid line toward `direction`; none where the ray meets
    /// no such wall.
    pub fn find_vertical_intersect(&self, tables: &TrigTables, origin_x: i32, origin_y: i32, direction: i32) -> (r: Option<i32>)
        requires
            self.wf(),
            self.addressable(),
            tables.wf(),
            -32768 <= origin_x < 32768,
            -32768 <= origin_y < 32768,
            0 <= direction < 1920,
        ensures
            ({
                let hits = ray_hits(self.spec_scene()@, spec_ray_v(*tables, origin_x * 65536, origin_y * 65536, direction as int), 65536);
                r == if hits.len() > 0 { Some(hits[0].dist) } else { None::<i32> }
            }),
            direction == 480 || direction == 1440 ==> r is None,
    {
        let ray = Ray::vertical(tables, origin_x * 65536, origin_y * 65536, direction);
        let hits = cast(&ray, &self.scene, 65536);
        if hits.len() > 0 { Some(hits[0].dist) } else { None }
    }

    /// Every wall that the ray from `(origin_x, origin_y)` (fixed point) toward `direction`
    /// meets, nearest first, at uncorrected distances.
    pub fn find_wall_intersections(&self, tables: &TrigTables, origin_x: i32, origin_y: i32, direction: i32) -> (r: Vec<Intersection>)
        requires
            self.wf(),
            self.addressable(),
            tables.wf(),
            0 <= direction < 1920,
        ensures
            r@ == spec_wall_intersections(*tables, self.spec_scene()@, origin_x as int, origin_y as int, direction as int, 65536),
    {
        let ray_h = Ray::horizontal(tables, origin_x, origin_y, direction);
        let ray_v = Ray::vertical(tables, origin_x, origin_y, direction);
        let hits_h = cast(&ray_h, &self.scene, 65536);
        let hits_v = cast(&ray_v, &self.scene, 65536);
        merge_by_dist(&hits_h, &hits_v)
    }

    /// The floor seen at screen `row` of screen `column` from `(origin_x, origin_y)` (fixed
    /// point) facing `direction`; none where that point lies outside the grid.
    pub fn find_floor_intersection(
        &self,
        tables: &TrigTables,
        origin_x: i32,
        origin_y: i32,
        direction: i32,
        row: i32,
        column: i32,
    ) -> (r: Option<Intersection>)
        requires
            self.wf(),
            self.addressable(),
            tables.wf(),
            0 <= direction < 1920,
            0 <= row < 200,
            0 <= column < 320,
        ensures
            r == spec_floor_intersection(*tables, self.spec_scene()@, origin_x as int, origin_y as int, direction as int,
                row as int, column as int),
    {
        find_floor_intersection(origin_x, origin_y, direction, row, column, &self.scene, tables)
    }
}

fn top_surface_of(c: char) -> (r: crate::scene::Tile)
    ensures
        r == top_surface(c),
{
    if c == 'W' || c == 'H' || c == 's' || c == 'c' {
        crate::scene::Tile::Surface(TextureTile { texture: 3, passable: false })
    } else if c == 'h' {
        crate::scene::Tile::Surface(TextureTile { texture: 65, passable: false })
    } else {
        crate::scene::Tile::Empty
    }
}

fn left_surface_of(c: char) -> (r: crate::scene::Tile)
    ensures
        r == left_surface(c),
{
    if c == 'W' || c == 'V' {
        crate::scene::Tile::Surface(TextureTile { texture: 3, passable: false })
    } else if c == 'X' {
        crate::scene::Tile::Surface(TextureTile { texture: 1, passable: true })
    } else if c == 'v' {
        crate::scene::Tile::Surface(TextureTile { texture: 65, passable: false })
    } else if c == 's' {
        crate::scene::Tile::Surface(TextureTile { texture: 5, passable: false })
    } else if c == 'c' {
        crate::scene::Tile::Surface(TextureTile { texture: 4, passable: false })
    } else {
        crate::scene::Tile::Empty
    }
}

} // verus!
