//! The world store: a flat row-major tile array with dirty flags and the
//! cached player tile, plus the query and mutation API around it.

use vstd::prelude::*;
use crate::tile::{
    Tile,
    tile_wf,
    cave_tile,
    cave_ceil_tile,
    support_tile,
    ground_tile,
    sky_tile,
    surface_tile,
    bottom_tile,
    TileCollision,
    TileType,
    DemonAction,
    TILE_SIZE,
    MINE_DAMAGE,
    SURFACE_HEIGHT,
    LIGHT_FULL,
    NAV_INF,
};
use crate::collision::{px_tile, QUERY_LIMIT, SIZE_LIMIT};
use crate::util::div_floor;
use crate::rng::{rng_from_seed, rng_range, rng_ratio};

verus! {

/// Upper bound on the grid's width and height, so that pixel coordinates
/// and flat indices stay well inside the machine integer ranges.
pub const MAX_DIM: usize = 30000;

/// The mathematical value of a `World`: everything the simulation reads or
/// writes, with the tile array as a sequence.
pub ghost struct WorldView {
    pub width: nat,
    pub height: nat,
    pub tiles: Seq<Tile>,
    pub light_dirty: bool,
    pub nav_dirty: bool,
    pub old_player_tx: nat,
    pub old_player_ty: nat,
    pub nav_converged: bool,
}

impl WorldView {
    /// Flat row-major index of tile `(x, y)`.
    pub open spec fn idx(self, x: int, y: int) -> int {
        y * self.width + x
    }

    /// The tile at `(x, y)`.
    pub open spec fn tile(self, x: int, y: int) -> Tile {
        self.tiles[self.idx(x, y)]
    }

    /// Whether `(x, y)` is a valid tile coordinate.
    pub open spec fn in_bounds(self, x: int, y: int) -> bool {
        0 <= x < self.width && 0 <= y < self.height
    }

    /// Well-formedness: the dimension bounds, the array length, the cached
    /// player tile, and every tile's field ranges.
    pub open spec fn wf(self) -> bool {
        &&& 10 < self.width <= MAX_DIM
        &&& 10 < self.height <= MAX_DIM
        &&& self.tiles.len() == self.width * self.height
        &&& forall|i: int| 0 <= i < self.tiles.len() ==> tile_wf(#[trigger] self.tiles[i])
        &&& self.old_player_tx < self.width
        &&& self.old_player_ty < self.height
    }
}

/// The world: owns the tile grid, the derived-field dirty flags, the cached
/// player tile, and the seeded generator used by terrain generation.
pub struct World {
    pub width: usize,
    pub height: usize,
    pub tiles: Vec<Tile>,
    pub nav_dirty: bool,
    pub light_dirty: bool,
    pub old_player_tx: usize,
    pub old_player_ty: usize,
    pub nav_converged: bool,
    pub rng: rand::rngs::StdRng,
}

impl View for World {
    type V = WorldView;

    open spec fn view(&self) -> WorldView {
        WorldView {
            width: self.width as nat,
            height: self.height as nat,
            tiles: self.tiles@,
            light_dirty: self.light_dirty,
            nav_dirty: self.nav_dirty,
            old_player_tx: self.old_player_tx as nat,
            old_player_ty: self.old_player_ty as nat,
            nav_converged: self.nav_converged,
        }
    }
}

impl World {
    /// The tile at `(tx, ty)`; the coordinates must be valid (callers clamp).
    pub fn get_tile(&self, tx: usize, ty: usize) -> (t: Tile)
        requires
            self@.wf(),
            self@.in_bounds(tx as int, ty as int),
        ensures
            t == self@.tile(tx as int, ty as int),
            tile_wf(t),
    {
        proof {
            lemma_idx_in_range(self@, tx as int, ty as int);
            assert(tile_wf(self@.tiles[self@.idx(tx as int, ty as int)]));
        }
        self.tiles[ty * self.width + tx]
    }

    /// Replaces the tile at `(tx, ty)`; the coordinates must be valid.
    pub fn set_tile(&mut self, tx: usize, ty: usize, t: Tile)
        requires
            old(self)@.wf(),
            old(self)@.in_bounds(tx as int, ty as int),
            tile_wf(t),
        ensures
            final(self)@ == (WorldView {
                tiles: old(self)@.tiles.update(old(self)@.idx(tx as int, ty as int), t),
                ..old(self)@
            }),
            final(self)@.wf(),
    {
        proof {
            lemma_idx_in_range(self@, tx as int, ty as int);
        }
        self.tiles[ty * self.width + tx] = t;
    }

    /// Width of the world in pixels.
    pub fn get_pixel_width(&self) -> (r: i32)
        requires
            self@.wf(),
        ensures
            r == self@.width * TILE_SIZE,
    {
        (self.width as i32) * TILE_SIZE
    }

    /// Height of the world in pixels.
    pub fn get_pixel_height(&self) -> (r: i32)
        requires
            self@.wf(),
        ensures
            r == self@.height * TILE_SIZE,
    {
        (self.height as i32) * TILE_SIZE
    }
}

/// A pixel position exactly at the center of some tile inside the world.
pub open spec fn pixel_center_ok(v: WorldView, p: (i32, i32)) -> bool {
    &&& 0 <= p.0 < v.width * TILE_SIZE
    &&& 0 <= p.1 < v.height * TILE_SIZE
    &&& p.0 as int % (TILE_SIZE as int) == (TILE_SIZE as int) / 2
    &&& p.1 as int % (TILE_SIZE as int) == (TILE_SIZE as int) / 2
}

/// Whether `a` and `b` agree on everything but the tile array.
pub open spec fn same_but_tiles(a: WorldView, b: WorldView) -> bool {
    a == (WorldView { tiles: a.tiles, ..b })
}

/// Whether pixel pair `p` is the center of grid cell `c`.
pub open spec fn center_of(p: (i32, i32), c: (int, int)) -> bool {
    &&& p.0 as int == c.0 * (TILE_SIZE as int) + (TILE_SIZE as int) / 2
    &&& p.1 as int == c.1 * (TILE_SIZE as int) + (TILE_SIZE as int) / 2
}

/// Whether the carving pass converted at least one cell.
pub open spec fn some_carved(carved: Set<(int, int)>) -> bool {
    exists|c: (int, int)| carved.contains(c)
}

/// Whether pixel pair `p` is the center of some carved cell.
pub open spec fn spawn_at_carved(carved: Set<(int, int)>, p: (i32, i32)) -> bool {
    exists|c: (int, int)| #[trigger] carved.contains(c) && center_of(p, c)
}

/// What holds of each cell the carving pass converted to Cave: it lies in
/// the carvable band of rows, and when the pass returns it still holds a
/// Cave tile or the CaveCeiling roof of a later cavern.
pub open spec fn carved_cell_ok(v0: WorldView, v1: WorldView, c: (int, int)) -> bool {
    &&& 0 <= c.0 < v0.width
    &&& 17 <= c.1 <= v0.height - 5
    &&& (v1.tile(c.0, c.1) == cave_tile() || v1.tile(c.0, c.1) == cave_ceil_tile())
}

/// What the carving pass yields, described through the set `carved` of grid
/// cells it converted to Cave: the set is non-empty; every carved cell lies
/// in the carvable band and ends the call as Cave or CaveCeiling; the goal
/// point is the center of a carved cell and no carved cell lies deeper;
/// every hostile spawn and every gem spawn is the center of a carved cell;
/// and a gem is flagged rare only if some hostile was spawned.
pub open spec fn caves_outcome_ok(
    v0: WorldView,
    v1: WorldView,
    carved: Set<(int, int)>,
    goal: (i32, i32),
    demons: Seq<(i32, i32)>,
    gems: Seq<(bool, (i32, i32))>,
) -> bool {
    &&& some_carved(carved)
    &&& forall|c: (int, int)| #[trigger] carved.contains(c) ==> carved_cell_ok(v0, v1, c)
    &&& spawn_at_carved(carved, goal)
    &&& forall|c: (int, int)| #[trigger] carved.contains(c) ==> c.1 * (TILE_SIZE as int) + (
    TILE_SIZE as int) / 2 <= goal.1 as int
    &&& forall|k: int| 0 <= k < demons.len() ==> spawn_at_carved(carved, #[trigger] demons[k])
    &&& forall|k: int| 0 <= k < gems.len() ==> spawn_at_carved(carved, (#[trigger] gems[k]).1)
    &&& forall|k: int| 0 <= k < gems.len() && (#[trigger] gems[k]).0 ==> demons.len() > 0
}

/// What the carving pass guarantees of its result: some set of cells carved
/// to Cave during the call accounts for the goal point and every spawn, as
/// [`caves_outcome_ok`] lays out.
pub open spec fn caves_post(
    v0: WorldView,
    v1: WorldView,
    goal: (i32, i32),
    demons: Seq<(i32, i32)>,
    gems: Seq<(bool, (i32, i32))>,
) -> bool {
    exists|carved: Set<(int, int)>| caves_outcome_ok(v0, v1, carved, goal, demons, gems)
}

/// What world generation puts at flat index `i`: the last row is Bottom, the
/// surface row is Surface, the rows above it are Sky, and everything below
/// is Ground whose gem flag was drawn at random.
pub open spec fn generated_tile_ok(t: Tile, i: int, width: int, height: int) -> bool {
    let y = i / width;
    if y == height - 1 {
        t == bottom_tile()
    } else if y == SURFACE_HEIGHT {
        t == surface_tile()
    } else if y < SURFACE_HEIGHT {
        t == sky_tile()
    } else {
        t == ground_tile(t.has_gem)
    }
}

/// Tile types that mining can damage.
pub open spec fn minable(t: TileType) -> bool {
    ||| t == TileType::Ground
    ||| t == TileType::SupportPlaced
    ||| t == TileType::Surface
    ||| t == TileType::CaveCeiling
}

/// What `mine` does: the world after the strike and the pickup location it
/// yields, if any.
pub open spec fn mine_spec(v: WorldView, x: int, y: int, dtx: int, dty: int) -> (
    WorldView,
    Option<(i32, i32)>,
) {
    let tx = px_tile(x + (TILE_SIZE as int) / 2) + dtx;
    let ty = px_tile(y + (TILE_SIZE as int) / 2) + dty;
    if !v.in_bounds(tx, ty) {
        (v, None)
    } else {
        let t = v.tile(tx, ty);
        if !minable(t.tile_type) {
            (v, None)
        } else if t.health - MINE_DAMAGE > 0 {
            (
                WorldView {
                    tiles: v.tiles.update(
                        v.idx(tx, ty),
                        Tile { health: (t.health - MINE_DAMAGE) as i32, ..t },
                    ),
                    ..v
                },
                None,
            )
        } else {
            (
                WorldView {
                    tiles: v.tiles.update(v.idx(tx, ty), cave_tile()),
                    light_dirty: true,
                    nav_dirty: true,
                    ..v
                },
                if t.has_gem {
                    Some(
                        (
                            (tx * (TILE_SIZE as int) + (TILE_SIZE as int) / 2) as i32,
                            (ty * (TILE_SIZE as int) + (TILE_SIZE as int) / 2) as i32,
                        ),
                    )
                } else {
                    None
                },
            )
        }
    }
}

/// What `place_support` does when it succeeds: a SupportPlaced tile that
/// keeps the prior navigation and light context.
pub open spec fn placed_support_tile(t: Tile) -> Tile {
    Tile { nav_value: t.nav_value, nav_policy: t.nav_policy, light: t.light, ..support_tile() }
}

/// Whether `place_support` succeeds at pixel `(x, y)`: the centered tile is
/// a valid coordinate at or below the surface row and currently Empty.
pub open spec fn place_support_ok(v: WorldView, x: int, y: int) -> bool {
    let tx = px_tile(x + (TILE_SIZE as int) / 2);
    let ty = px_tile(y + (TILE_SIZE as int) / 2);
    v.in_bounds(tx, ty) && ty >= SURFACE_HEIGHT && v.tile(tx, ty).collision == TileCollision::Empty
}

impl World {
    /// Creates a `width` by `height` world: sky above the surface row,
    /// Ground below it, Bottom along the last row, with gems sprinkled into
    /// the ground by the seeded generator.
    pub fn new(width: usize, height: usize, seed: u64) -> (w: World)
        requires
            10 < width <= MAX_DIM,
            10 < height <= MAX_DIM,
        ensures
            w@.wf(),
            w@.width == width,
            w@.height == height,
            w@.light_dirty,
            w@.nav_dirty,
            w@.nav_converged,
            w@.old_player_tx == 0,
            w@.old_player_ty == 0,
            forall|i: int|
                0 <= i < w@.tiles.len() ==> generated_tile_ok(
                    #[trigger] w@.tiles[i],
                    i,
                    width as int,
                    height as int,
                ),
    {
        let mut rng = rng_from_seed(seed);
        let mut tiles: Vec<Tile> = Vec::new();
        let mut row: usize = 0;
        while row < height
            invariant
                10 < width <= MAX_DIM,
                10 < height <= MAX_DIM,
                row <= height,
                tiles@.len() == row * width,
                forall|i: int|
                    0 <= i < tiles@.len() ==> generated_tile_ok(
                        #[trigger] tiles@[i],
                        i,
                        width as int,
                        height as int,
                    ),
                forall|i: int|
                    0 <= i < tiles@.len() ==> tile_wf(#[trigger] tiles@[i]),
            decreases height - row,
        {
            let mut col: usize = 0;
            while col < width
                invariant
                    10 < width <= MAX_DIM,
                    10 < height <= MAX_DIM,
                    row < height,
                    col <= width,
                    tiles@.len() == row * width + col,
                    forall|i: int|
                        0 <= i < tiles@.len() ==> generated_tile_ok(
                            #[trigger] tiles@[i],
                            i,
                            width as int,
                            height as int,
                        ),
                    forall|i: int|
                        0 <= i < tiles@.len() ==> tile_wf(#[trigger] tiles@[i]),
                decreases width - col,
            {
                let t = if row == height - 1 {
                    Tile::bottom()
                } else if row == SURFACE_HEIGHT as usize {
                    Tile::surface()
                } else if row < SURFACE_HEIGHT as usize {
                    Tile::sky()
                } else {
                    Tile::ground(rng_ratio(&mut rng, 1, 5))
                };
                proof {
                    vstd::arithmetic::div_mod::lemma_fundamental_div_mod_converse(
                        row as int * width as int + col as int,
                        width as int,
                        row as int,
                        col as int,
                    );
                }
                tiles.push(t);
                col += 1;
            }
            proof {
                assert((row as int + 1) * width as int == row as int * width as int + width as int)
                    by (nonlinear_arith);
            }
            row += 1;
        }
        proof {
            assert(tiles@.len() == height * width);
            assert(width as int * height as int == height as int * width as int) by (nonlinear_arith);
        }
        World {
            width,
            height,
            tiles,
            nav_dirty: true,
            light_dirty: true,
            old_player_tx: 0,
            old_player_ty: 0,
            nav_converged: true,
            rng,
        }
    }

    /// Carves caverns into the generated terrain: thirty random rectangular
    /// pockets below the surface band, each roofed by anchored CaveCeiling
    /// tiles, optionally seeding gem pickups and hostile spawns. Returns the
    /// deepest carved cell's pixel center (where the goal pickup belongs),
    /// the hostile spawn locations, and the gem spawn locations, each gem
    /// flagged rare when its cavern also spawned hostiles.
    ///
    /// Which cells are carved depends on the generator's draws, but every
    /// draw carves: each cavern writes at least two Cave cells per column,
    /// so the final grid always holds a Cave tile, the returned goal point
    /// is always a carved cell's center, and only rows 17 through
    /// `height - 5` are ever touched — the sky, the surface row and the
    /// bottom row survive every draw.
    pub fn add_caves(&mut self) -> (r: ((i32, i32), Vec<(i32, i32)>, Vec<(bool, (i32, i32))>))
        requires
            old(self)@.wf(),
            old(self)@.height > 26,
        ensures
            final(self)@.wf(),
            same_but_tiles(final(self)@, old(self)@),
            forall|i: int|
                0 <= i < final(self)@.tiles.len() ==> {
                    ||| #[trigger] final(self)@.tiles[i] == old(self)@.tiles[i]
                    ||| ((17 <= i / (final(self)@.width as int) <= final(self)@.height - 5) && (
                    final(self)@.tiles[i] == cave_tile() || final(self)@.tiles[i]
                        == cave_ceil_tile()))
                },
            exists|i: int|
                0 <= i < final(self)@.tiles.len() && final(self)@.tiles[i] == cave_tile(),
            forall|k: int|
                0 <= k < r.1@.len() ==> pixel_center_ok(old(self)@, #[trigger] r.1@[k]),
            forall|k: int|
                0 <= k < r.2@.len() ==> pixel_center_ok(old(self)@, (#[trigger] r.2@[k]).1),
            r.0 != (0i32, 0i32),
            pixel_center_ok(old(self)@, r.0),
            caves_post(old(self)@, final(self)@, r.0, r.1@, r.2@),
    {
        let ghost v0 = self@;
        let ghost w = self@.width as int;
        let ghost h = self@.height as int;
        let ghost mut carved: Set<(int, int)> = Set::empty();

        let mut phil_loc: (i32, i32) = (0, 0);
        let mut demon_spawns: Vec<(i32, i32)> = Vec::new();
        let mut gem_spawns: Vec<(bool, (i32, i32))> = Vec::new();

        let mut cave: usize = 0;
        while cave < 30
            invariant
                self@.wf(),
                same_but_tiles(self@, v0),
                w == v0.width,
                h == v0.height,
                10 < w <= MAX_DIM as int,
                26 < h <= MAX_DIM as int,
                forall|i: int|
                    0 <= i < self@.tiles.len() ==> {
                        ||| #[trigger] self@.tiles[i] == v0.tiles[i]
                        ||| ((17 <= i / w <= h - 5) && (self@.tiles[i] == cave_tile()
                            || self@.tiles[i] == cave_ceil_tile()))
                    },
                forall|k: int|
                    0 <= k < demon_spawns@.len() ==> pixel_center_ok(
                        v0,
                        #[trigger] demon_spawns@[k],
                    ),
                forall|k: int|
                    0 <= k < gem_spawns@.len() ==> pixel_center_ok(v0, (#[trigger] gem_spawns@[k]).1),
                phil_loc == (0i32, 0i32) || pixel_center_ok(v0, phil_loc),
                forall|c: (int, int)| #[trigger] carved.contains(c) ==> carved_cell_ok(v0, self@, c),
                !some_carved(carved) ==> phil_loc == (0i32, 0i32),
                some_carved(carved) ==> spawn_at_carved(carved, phil_loc),
                forall|c: (int, int)| #[trigger] carved.contains(c) ==> c.1 * (TILE_SIZE as int) + (
                TILE_SIZE as int) / 2 <= phil_loc.1 as int,
                forall|k: int|
                    0 <= k < demon_spawns@.len() ==> spawn_at_carved(
                        carved,
                        #[trigger] demon_spawns@[k],
                    ),
                forall|k: int|
                    0 <= k < gem_spawns@.len() ==> spawn_at_carved(
                        carved,
                        (#[trigger] gem_spawns@[k]).1,
                    ),
                forall|k: int|
                    0 <= k < gem_spawns@.len() && (#[trigger] gem_spawns@[k]).0
                        ==> demon_spawns@.len() > 0,
                cave > 0 ==> some_carved(carved),
                cave > 0 ==> exists|xx: int, yy: int|
                    0 <= xx < w && 17 <= yy <= h - 5 && #[trigger] self@.tile(xx, yy)
                        == cave_tile(),
            decreases 30 - cave,
        {
            let cave_y: usize = rng_range(&mut self.rng, 20, self.height - 6);
            let cave_width: usize = rng_range(&mut self.rng, 2, 5);
            let cave_x: usize = rng_range(&mut self.rng, 0, self.width - cave_width);

            let mut num_demons: i32 = 0;
            let mut gem_spots: Vec<(i32, i32)> = Vec::new();

            let mut x: usize = cave_x;
            while x < cave_x + cave_width
                invariant
                    self@.wf(),
                    same_but_tiles(self@, v0),
                    w == v0.width,
                    h == v0.height,
                    10 < w <= MAX_DIM as int,
                    26 < h <= MAX_DIM as int,
                    20 <= cave_y < h - 6,
                    cave_x + cave_width <= w,
                    2 <= cave_width <= 4,
                    cave_x <= x <= cave_x + cave_width,
                    0 <= num_demons <= 4 * (x as int - cave_x as int),
                    forall|i: int|
                        0 <= i < self@.tiles.len() ==> {
                            ||| #[trigger] self@.tiles[i] == v0.tiles[i]
                            ||| ((17 <= i / w <= h - 5) && (self@.tiles[i] == cave_tile()
                                || self@.tiles[i] == cave_ceil_tile()))
                        },
                    forall|k: int|
                        0 <= k < demon_spawns@.len() ==> pixel_center_ok(
                            v0,
                            #[trigger] demon_spawns@[k],
                        ),
                    forall|k: int|
                        0 <= k < gem_spots@.len() ==> pixel_center_ok(v0, #[trigger] gem_spots@[k]),
                    phil_loc == (0i32, 0i32) || pixel_center_ok(v0, phil_loc),
                    forall|c: (int, int)| #[trigger] carved.contains(c) ==> carved_cell_ok(
                        v0,
                        self@,
                        c,
                    ),
                    !some_carved(carved) ==> phil_loc == (0i32, 0i32),
                    some_carved(carved) ==> spawn_at_carved(carved, phil_loc),
                    forall|c: (int, int)| #[trigger] carved.contains(c) ==> c.1 * (
                    TILE_SIZE as int) + (TILE_SIZE as int) / 2 <= phil_loc.1 as int,
                    forall|k: int|
                        0 <= k < demon_spawns@.len() ==> spawn_at_carved(
                            carved,
                            #[trigger] demon_spawns@[k],
                        ),
                    forall|k: int|
                        0 <= k < gem_spots@.len() ==> spawn_at_carved(
                            carved,
                            #[trigger] gem_spots@[k],
                        ),
                    forall|k: int|
                        0 <= k < gem_spawns@.len() ==> spawn_at_carved(
                            carved,
                            (#[trigger] gem_spawns@[k]).1,
                        ),
                    forall|k: int|
                        0 <= k < gem_spawns@.len() && (#[trigger] gem_spawns@[k]).0
                            ==> demon_spawns@.len() > 0,
                    num_demons > 0 ==> demon_spawns@.len() > 0,
                    x > cave_x ==> some_carved(carved),
                    x > cave_x ==> exists|xx: int, yy: int|
                        cave_x <= xx < x && 17 <= yy <= h - 5 && #[trigger] self@.tile(xx, yy)
                            == cave_tile(),
                decreases cave_x + cave_width - x,
            {
                let y1: usize = rng_range(&mut self.rng, cave_y - 3, cave_y);
                let y2: usize = y1 + rng_range(&mut self.rng, 3, 5);
                let mut add_gem: bool = rng_ratio(&mut self.rng, 1, 2);

                let mut y: usize = y1;
                while y < y2
                    invariant
                        self@.wf(),
                        same_but_tiles(self@, v0),
                        w == v0.width,
                        h == v0.height,
                        10 < w <= MAX_DIM as int,
                        26 < h <= MAX_DIM as int,
                        20 <= cave_y < h - 6,
                        cave_x <= x < cave_x + cave_width,
                        cave_width <= 4,
                        x < w,
                        17 <= y1 < cave_y,
                        y1 <= y <= y2,
                        y2 <= y1 + 4,
                        0 <= num_demons <= 4 * (x as int - cave_x as int) + (y as int - y1 as int),
                        forall|i: int|
                            0 <= i < self@.tiles.len() ==> {
                                ||| #[trigger] self@.tiles[i] == v0.tiles[i]
                                ||| ((17 <= i / w <= h - 5) && (self@.tiles[i] == cave_tile()
                                    || self@.tiles[i] == cave_ceil_tile()))
                            },
                        forall|k: int|
                            0 <= k < demon_spawns@.len() ==> pixel_center_ok(
                                v0,
                                #[trigger] demon_spawns@[k],
                            ),
                        forall|k: int|
                            0 <= k < gem_spots@.len() ==> pixel_center_ok(
                                v0,
                                #[trigger] gem_spots@[k],
                            ),
                        phil_loc == (0i32, 0i32) || pixel_center_ok(v0, phil_loc),
                        forall|c: (int, int)| #[trigger] carved.contains(c) ==> carved_cell_ok(
                            v0,
                            self@,
                            c,
                        ),
                        !some_carved(carved) ==> phil_loc == (0i32, 0i32),
                        some_carved(carved) ==> spawn_at_carved(carved, phil_loc),
                        forall|c: (int, int)| #[trigger] carved.contains(c) ==> c.1 * (
                        TILE_SIZE as int) + (TILE_SIZE as int) / 2 <= phil_loc.1 as int,
                        forall|k: int|
                            0 <= k < demon_spawns@.len() ==> spawn_at_carved(
                                carved,
                                #[trigger] demon_spawns@[k],
                            ),
                        forall|k: int|
                            0 <= k < gem_spots@.len() ==> spawn_at_carved(
                                carved,
                                #[trigger] gem_spots@[k],
                            ),
                        forall|k: int|
                            0 <= k < gem_spawns@.len() ==> spawn_at_carved(
                                carved,
                                (#[trigger] gem_spawns@[k]).1,
                            ),
                        forall|k: int|
                            0 <= k < gem_spawns@.len() && (#[trigger] gem_spawns@[k]).0
                                ==> demon_spawns@.len() > 0,
                        num_demons > 0 ==> demon_spawns@.len() > 0,
                        x > cave_x || y > y1 + 1 ==> some_carved(carved),
                        x > cave_x ==> exists|xx: int, yy: int|
                            cave_x <= xx < x && 17 <= yy <= h - 5 && #[trigger] self@.tile(xx, yy)
                                == cave_tile(),
                        y > y1 + 1 ==> self@.tile(x as int, y1 as int + 1) == cave_tile(),
                    decreases y2 - y,
                {
                    let ghost pre = self@;
                    let ghost prev = carved;
                    proof {
                        lemma_idx_in_range(self@, x as int, y as int);
                        vstd::arithmetic::div_mod::lemma_fundamental_div_mod_converse(
                            y as int * w + x as int,
                            w,
                            y as int,
                            x as int,
                        );
                    }
                    if y == y1 {
                        self.set_tile(x, y, Tile::cave_ceil());
                    } else {
                        proof {
                            assert((x as int) * (TILE_SIZE as int) + (TILE_SIZE as int) / 2 < w
                                * (TILE_SIZE as int) && (y as int) * (TILE_SIZE as int) + (
                            TILE_SIZE as int) / 2 < h * (TILE_SIZE as int)) by (nonlinear_arith)
                                requires
                                    (x as int) < w,
                                    (y as int) < h,
                                    TILE_SIZE == 32,
                            ;
                            vstd::arithmetic::div_mod::lemma_fundamental_div_mod_converse(
                                (x as int) * (TILE_SIZE as int) + (TILE_SIZE as int) / 2,
                                TILE_SIZE as int,
                                x as int,
                                (TILE_SIZE as int) / 2,
                            );
                            vstd::arithmetic::div_mod::lemma_fundamental_div_mod_converse(
                                (y as int) * (TILE_SIZE as int) + (TILE_SIZE as int) / 2,
                                TILE_SIZE as int,
                                y as int,
                                (TILE_SIZE as int) / 2,
                            );
                        }
                        let center: (i32, i32) = (
                            x as i32 * TILE_SIZE + TILE_SIZE / 2,
                            y as i32 * TILE_SIZE + TILE_SIZE / 2,
                        );
                        let ghost phil_prev = phil_loc;
                        proof {
                            carved = carved.insert((x as int, y as int));
                            assert(carved.contains((x as int, y as int)));
                            assert(center_of(center, (x as int, y as int)));
                        }
                        if center.1 > phil_loc.1 {
                            phil_loc = center;
                        }
                        proof {
                            assert forall|c: (int, int)| #[trigger] carved.contains(c) implies c.1
                                * (TILE_SIZE as int) + (TILE_SIZE as int) / 2
                                <= phil_loc.1 as int by {
                                if c != (x as int, y as int) {
                                    assert(prev.contains(c));
                                }
                            };
                            if center.1 > phil_prev.1 {
                                assert(spawn_at_carved(carved, phil_loc));
                            } else {
                                assert(some_carved(prev));
                                let c0 = choose|c: (int, int)|
                                    #[trigger] prev.contains(c) && center_of(phil_prev, c);
                                assert(carved.contains(c0));
                                assert(spawn_at_carved(carved, phil_loc));
                            }
                            assert(spawn_at_carved(carved, center));
                            assert forall|k: int|
                                0 <= k < demon_spawns@.len() implies spawn_at_carved(
                                carved,
                                #[trigger] demon_spawns@[k],
                            ) by {
                                let c0 = choose|c: (int, int)|
                                    #[trigger] prev.contains(c) && center_of(demon_spawns@[k], c);
                                assert(carved.contains(c0));
                            };
                            assert forall|k: int|
                                0 <= k < gem_spots@.len() implies spawn_at_carved(
                                carved,
                                #[trigger] gem_spots@[k],
                            ) by {
                                let c0 = choose|c: (int, int)|
                                    #[trigger] prev.contains(c) && center_of(gem_spots@[k], c);
                                assert(carved.contains(c0));
                            };
                            assert forall|k: int|
                                0 <= k < gem_spawns@.len() implies spawn_at_carved(
                                carved,
                                (#[trigger] gem_spawns@[k]).1,
                            ) by {
                                let c0 = choose|c: (int, int)|
                                    #[trigger] prev.contains(c) && center_of(gem_spawns@[k].1, c);
                                assert(carved.contains(c0));
                            };
                        }
                        self.set_tile(x, y, Tile::cave());
                        if add_gem {
                            gem_spots.push(center);
                            add_gem = false;
                        }
                        let n: usize = cave_y / 30;
                        let lucky: bool = if n <= 1 {
                            true
                        } else {
                            rng_ratio(&mut self.rng, 1, n as u32)
                        };
                        if !lucky {
                            num_demons += 1;
                            demon_spawns.push(center);
                        }
                    }
                    proof {
                        assert forall|c: (int, int)| #[trigger] carved.contains(c) implies
                            carved_cell_ok(v0, self@, c) by {
                            if prev.contains(c) {
                                lemma_idx_in_range(pre, c.0, c.1);
                            } else {
                                assert(c == (x as int, y as int));
                            }
                        };
                        if x > cave_x {
                            let (xx, yy) = choose|xx: int, yy: int|
                                cave_x <= xx < x && 17 <= yy <= h - 5 && #[trigger] pre.tile(xx, yy)
                                    == cave_tile();
                            lemma_idx_in_range(pre, xx, yy);
                            vstd::arithmetic::div_mod::lemma_fundamental_div_mod_converse(
                                yy * w + xx,
                                w,
                                yy,
                                xx,
                            );
                            assert(self@.tile(xx, yy) == cave_tile());
                        }
                        if y > y1 + 1 {
                            lemma_idx_in_range(pre, x as int, y1 as int + 1);
                            vstd::arithmetic::div_mod::lemma_fundamental_div_mod_converse(
                                (y1 as int + 1) * w + x as int,
                                w,
                                y1 as int + 1,
                                x as int,
                            );
                            assert(self@.tile(x as int, y1 as int + 1) == cave_tile());
                        } else if y == y1 + 1 {
                            assert(self@.tile(x as int, y1 as int + 1) == cave_tile());
                        }
                    }
                    y += 1;
                }
                proof {
                    assert(self@.tile(x as int, y1 as int + 1) == cave_tile());
                }
                x += 1;
            }

            let rare = num_demons > 0;
            let mut g: usize = 0;
            while g < gem_spots.len()
                invariant
                    0 <= g <= gem_spots@.len(),
                    forall|k: int|
                        0 <= k < gem_spots@.len() ==> pixel_center_ok(v0, #[trigger] gem_spots@[k]),
                    forall|k: int|
                        0 <= k < gem_spawns@.len() ==> pixel_center_ok(
                            v0,
                            (#[trigger] gem_spawns@[k]).1,
                        ),
                    forall|k: int|
                        0 <= k < gem_spawns@.len() ==> spawn_at_carved(
                            carved,
                            (#[trigger] gem_spawns@[k]).1,
                        ),
                    forall|k: int|
                        0 <= k < gem_spawns@.len() && (#[trigger] gem_spawns@[k]).0
                            ==> demon_spawns@.len() > 0,
                    forall|k: int|
                        0 <= k < gem_spots@.len() ==> spawn_at_carved(
                            carved,
                            #[trigger] gem_spots@[k],
                        ),
                    rare ==> demon_spawns@.len() > 0,
                decreases gem_spots@.len() - g,
            {
                gem_spawns.push((rare, gem_spots[g]));
                g += 1;
            }
            cave += 1;
        }
        proof {
            assert(spawn_at_carved(carved, phil_loc));
            let c0 = choose|c: (int, int)| #[trigger] carved.contains(c) && center_of(phil_loc, c);
            assert(carved_cell_ok(v0, self@, c0));
            assert(phil_loc.1 as int >= 17 * (TILE_SIZE as int) + (TILE_SIZE as int) / 2);
            assert(caves_outcome_ok(v0, self@, carved, phil_loc, demon_spawns@, gem_spawns@));
            assert(caves_post(v0, self@, phil_loc, demon_spawns@, gem_spawns@));
            let (xx, yy) = choose|xx: int, yy: int|
                0 <= xx < w && 17 <= yy <= h - 5 && #[trigger] self@.tile(xx, yy) == cave_tile();
            lemma_idx_in_range(self@, xx, yy);
            assert(self@.tiles[self@.idx(xx, yy)] == cave_tile());
        }
        (phil_loc, demon_spawns, gem_spawns)
    }

    /// The tile coordinates containing pixel `(x, y)`, or `None` when the
    /// pixel lies outside the world.
    pub fn get_tile_coords(&self, x: i32, y: i32) -> (r: Option<(usize, usize)>)
        requires
            self@.wf(),
            -QUERY_LIMIT <= x <= QUERY_LIMIT,
            -QUERY_LIMIT <= y <= QUERY_LIMIT,
        ensures
            ({
                let tx = px_tile(x as int);
                let ty = px_tile(y as int);
                if self@.in_bounds(tx, ty) {
                    r == Some((tx as usize, ty as usize))
                } else {
                    r == None::<(usize, usize)>
                }
            }),
    {
        let tx = div_floor(x, TILE_SIZE);
        let ty = div_floor(y, TILE_SIZE);
        if tx < 0 || tx >= self.width as i32 || ty < 0 || ty >= self.height as i32 {
            None
        } else {
            Some((tx as usize, ty as usize))
        }
    }

    /// The pixel center of the tile containing the rectangle's center.
    pub fn get_tile_center(&self, x: i32, y: i32, w: i32, h: i32) -> (r: (i32, i32))
        requires
            self@.wf(),
            -QUERY_LIMIT <= x <= QUERY_LIMIT,
            -QUERY_LIMIT <= y <= QUERY_LIMIT,
            0 <= w <= SIZE_LIMIT,
            0 <= h <= SIZE_LIMIT,
        ensures
            r.0 == px_tile(x + w as int / 2) * TILE_SIZE + TILE_SIZE as int / 2,
            r.1 == px_tile(y + h as int / 2) * TILE_SIZE + TILE_SIZE as int / 2,
    {
        (div_floor(x + w / 2, TILE_SIZE) * TILE_SIZE + TILE_SIZE / 2, div_floor(y + h / 2, TILE_SIZE)
            * TILE_SIZE + TILE_SIZE / 2)
    }

    /// Illumination at pixel `(x, y)`; out of bounds reads as fully lit.
    pub fn get_light(&self, x: i32, y: i32) -> (r: u32)
        requires
            self@.wf(),
            -QUERY_LIMIT <= x <= QUERY_LIMIT,
            -QUERY_LIMIT <= y <= QUERY_LIMIT,
        ensures
            ({
                let tx = px_tile(x as int);
                let ty = px_tile(y as int);
                if self@.in_bounds(tx, ty) {
                    r == self@.tile(tx, ty).light
                } else {
                    r == LIGHT_FULL
                }
            }),
    {
        match self.get_tile_coords(x, y) {
            Some((tx, ty)) => self.get_tile(tx, ty).light,
            None => LIGHT_FULL,
        }
    }

    /// The stored best first step toward the player for the tile containing
    /// pixel `(x, y)`, or `None` when the pixel is out of bounds or the tile
    /// has no known path.
    pub fn get_demon_policy(&self, x: i32, y: i32) -> (r: Option<DemonAction>)
        requires
            self@.wf(),
            -QUERY_LIMIT <= x <= QUERY_LIMIT,
            -QUERY_LIMIT <= y <= QUERY_LIMIT,
        ensures
            ({
                let tx = px_tile(x as int);
                let ty = px_tile(y as int);
                if self@.in_bounds(tx, ty) && self@.tile(tx, ty).nav_value < NAV_INF {
                    r == Some(self@.tile(tx, ty).nav_policy)
                } else {
                    r == None::<DemonAction>
                }
            }),
    {
        match self.get_tile_coords(x, y) {
            Some((tx, ty)) => {
                let tile = self.get_tile(tx, ty);
                if tile.nav_value < NAV_INF {
                    Some(tile.nav_policy)
                } else {
                    None
                }
            },
            None => None,
        }
    }

    /// Converts the Empty tile whose cell contains pixel `(x, y)` into a
    /// placed support strut, keeping its navigation and light context; fails
    /// out of bounds, above the surface row, or on a non-Empty tile.
    pub fn place_support(&mut self, x: i32, y: i32) -> (r: bool)
        requires
            old(self)@.wf(),
            -QUERY_LIMIT <= x <= QUERY_LIMIT,
            -QUERY_LIMIT <= y <= QUERY_LIMIT,
        ensures
            final(self)@.wf(),
            r == place_support_ok(old(self)@, x as int, y as int),
            ({
                let tx = px_tile(x as int + TILE_SIZE as int / 2);
                let ty = px_tile(y as int + TILE_SIZE as int / 2);
                if place_support_ok(old(self)@, x as int, y as int) {
                    final(self)@ == (WorldView {
                        tiles: old(self)@.tiles.update(
                            old(self)@.idx(tx, ty),
                            placed_support_tile(old(self)@.tile(tx, ty)),
                        ),
                        ..old(self)@
                    })
                } else {
                    final(self)@ == old(self)@
                }
            }),
    {
        let tx = div_floor(x + TILE_SIZE / 2, TILE_SIZE);
        let ty = div_floor(y + TILE_SIZE / 2, TILE_SIZE);

        if tx >= 0 && tx < self.width as i32 && ty >= 0 && ty < self.height as i32 && ty
            >= SURFACE_HEIGHT {
            let tile = self.get_tile(tx as usize, ty as usize);
            if tile.collision == TileCollision::Empty {
                let mut placed = Tile::support();
                placed.nav_value = tile.nav_value;
                placed.nav_policy = tile.nav_policy;
                placed.light = tile.light;
                self.set_tile(tx as usize, ty as usize, placed);
                true
            } else {
                false
            }
        } else {
            false
        }
    }

    /// Strikes the tile at the player-centered cell offset by `(dtx, dty)`
    /// tiles: no-op out of bounds or on a non-minable tile; otherwise takes
    /// `MINE_DAMAGE` health, and on reaching zero converts the tile to Cave,
    /// marks light and navigation dirty, and yields the tile's pixel center
    /// as a pickup location if the tile held a gem.
    pub fn mine(&mut self, x: i32, y: i32, dtx: i32, dty: i32) -> (r: Option<(i32, i32)>)
        requires
            old(self)@.wf(),
            -QUERY_LIMIT <= x <= QUERY_LIMIT,
            -QUERY_LIMIT <= y <= QUERY_LIMIT,
            -SIZE_LIMIT <= dtx <= SIZE_LIMIT,
            -SIZE_LIMIT <= dty <= SIZE_LIMIT,
        ensures
            final(self)@.wf(),
            (final(self)@, r) == mine_spec(old(self)@, x as int, y as int, dtx as int, dty as int),
    {
        let tx = div_floor(x + TILE_SIZE / 2, TILE_SIZE) + dtx;
        let ty = div_floor(y + TILE_SIZE / 2, TILE_SIZE) + dty;

        if tx >= 0 && tx < self.width as i32 && ty >= 0 && ty < self.height as i32 {
            let tile = self.get_tile(tx as usize, ty as usize);
            if tile.tile_type == TileType::Ground || tile.tile_type == TileType::SupportPlaced
                || tile.tile_type == TileType::Surface || tile.tile_type == TileType::CaveCeiling {
                let new_health = tile.health - MINE_DAMAGE;
                if new_health <= 0 {
                    let had_gem = tile.has_gem;
                    self.set_tile(tx as usize, ty as usize, Tile::cave());
                    self.nav_dirty = true;
                    self.light_dirty = true;
                    if had_gem {
                        Some((tx * TILE_SIZE + TILE_SIZE / 2, ty * TILE_SIZE + TILE_SIZE / 2))
                    } else {
                        None
                    }
                } else {
                    let mut damaged = tile;
                    damaged.health = new_health;
                    self.set_tile(tx as usize, ty as usize, damaged);
                    None
                }
            } else {
                None
            }
        } else {
            None
        }
    }
}

/// Mining idempotence, the no-op half: a strike aimed at a tile that has
/// already converted to Cave (or at any other non-minable or out-of-bounds
/// target) changes nothing and yields nothing.
pub proof fn lemma_mine_cave_noop(v: WorldView, x: int, y: int, dtx: int, dty: int)
    requires
        ({
            let tx = px_tile(x + (TILE_SIZE as int) / 2) + dtx;
            let ty = px_tile(y + (TILE_SIZE as int) / 2) + dty;
            v.in_bounds(tx, ty) ==> !minable(v.tile(tx, ty).tile_type)
        }),
    ensures
        mine_spec(v, x, y, dtx, dty) == (v, None::<(i32, i32)>),
{
}

/// Mining idempotence of reward: a strike that yields a pickup converts its
/// tile to Cave, so striking the same spot again is a no-op and no second
/// pickup is ever yielded — a gem location comes out at most once per tile.
pub proof fn lemma_mine_reward_once(v: WorldView, x: int, y: int, dtx: int, dty: int)
    requires
        v.wf(),
    ensures
        ({
            let (v1, r1) = mine_spec(v, x, y, dtx, dty);
            let (v2, r2) = mine_spec(v1, x, y, dtx, dty);
            r1 is Some ==> v2 == v1 && r2 is None
        }),
{
    let tx = px_tile(x + (TILE_SIZE as int) / 2) + dtx;
    let ty = px_tile(y + (TILE_SIZE as int) / 2) + dty;
    let (v1, r1) = mine_spec(v, x, y, dtx, dty);
    if r1 is Some {
        lemma_idx_in_range(v, tx, ty);
        assert(v1.tile(tx, ty) == cave_tile());
        lemma_mine_cave_noop(v1, x, y, dtx, dty);
    }
}

/// A valid coordinate's flat index lies inside the tile array.
pub proof fn lemma_idx_in_range(v: WorldView, x: int, y: int)
    requires
        v.wf(),
        v.in_bounds(x, y),
    ensures
        0 <= v.idx(x, y) < v.tiles.len(),
        v.idx(x, y) == y * v.width + x,
        v.idx(x, y) < 900000000,
{
    assert(y * v.width + x < v.width * v.height) by (nonlinear_arith)
        requires
            0 <= x < v.width,
            0 <= y < v.height,
    ;
    assert(0 <= y * v.width) by (nonlinear_arith)
        requires
            0 <= y,
            0 <= v.width,
    ;
    assert(v.width * v.height <= 900000000) by (nonlinear_arith)
        requires
            0 < v.width <= 30000,
            0 < v.height <= 30000,
    ;
}

} // verus!
