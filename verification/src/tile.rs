//! A single grid cell's state, plus the small enums that describe it.
//!
//! Fractional quantities are held in fixed point, in thousandths: a support
//! strength of 4.0 is stored as 4000, an illumination of 1.0 as 1000. The
//! navigation distance is an integer tile count, with `NAV_INF` standing for
//! "unreachable".

use vstd::prelude::*;

verus! {

/// Edge length of one tile, in pixels.
pub const TILE_SIZE: i32 = 32;

/// Health of a freshly created tile; mining decrements from here.
pub const TILE_HEALTH: i32 = 32;

/// Mining removes this much health per strike.
pub const MINE_DAMAGE: i32 = 2;

/// Sweep budget of one navigation-field recomputation.
pub const MAX_ITERATIONS: u32 = 10;

/// Row index of the surface line; rows above it are sky.
pub const SURFACE_HEIGHT: i32 = 5;

/// One unit of structural support, in fixed point (1.0).
pub const SUPPORT_ONE: u32 = 1000;

/// Support of an anchored or freshly generated solid tile (4.0).
pub const SUPPORT_FULL: u32 = 4000;

/// Collapse-check bonus per supporting neighbor (0.4).
pub const SUPPORT_BONUS: u32 = 400;

/// Full illumination, in fixed point (1.0).
pub const LIGHT_FULL: u32 = 1000;

/// Navigation distance standing for "no known path".
pub const NAV_INF: u32 = 0x3fff_ffff;

/// How a tile blocks movement.
#[derive(Clone, Copy, PartialEq, Eq, Structural, Debug)]
pub enum TileCollision {
    /// Fully blocking.
    Solid,
    /// Passable.
    Empty,
    /// One-way platform: blocks only when entered from above while falling.
    Support,
}

/// What a tile is made of; governs mining eligibility and collapse anchoring.
#[derive(Clone, Copy, PartialEq, Eq, Structural, Debug)]
pub enum TileType {
    Sky,
    Ground,
    CaveCeiling,
    Cave,
    SupportPlaced,
    Bottom,
    Surface,
}

/// A first step a hostile agent can take toward the player.
#[derive(Clone, Copy, PartialEq, Eq, Structural, Debug)]
pub enum DemonAction {
    MoveUp,
    MoveDown,
    MoveLeft,
    MoveRight,
}

impl DemonAction {
    /// The tile offset `(dx, dy)` of one step in this direction.
    pub fn get_shift(&self) -> (r: (i32, i32))
        ensures
            r == shift_of(*self),
    {
        match *self {
            DemonAction::MoveUp => (0, -1),
            DemonAction::MoveDown => (0, 1),
            DemonAction::MoveLeft => (-1, 0),
            DemonAction::MoveRight => (1, 0),
        }
    }

    /// All four directions, in the fixed cyclic order a navigation sweep
    /// tries them.
    pub fn iter() -> (v: Vec<DemonAction>)
        ensures
            v@.len() == 4,
            forall|i: int| 0 <= i < 4 ==> v@[i] == action_of(i),
    {
        let mut v: Vec<DemonAction> = Vec::new();
        v.push(DemonAction::MoveUp);
        v.push(DemonAction::MoveDown);
        v.push(DemonAction::MoveLeft);
        v.push(DemonAction::MoveRight);
        assert(forall|i: int| 0 <= i < 4 ==> v@[i] == action_of(i)) by {
            assert(v@[0] == action_of(0));
            assert(v@[1] == action_of(1));
            assert(v@[2] == action_of(2));
            assert(v@[3] == action_of(3));
        }
        v
    }
}

/// The direction a navigation sweep tries at position `i` of its cycle.
pub open spec fn action_of(i: int) -> DemonAction {
    if i == 0 {
        DemonAction::MoveUp
    } else if i == 1 {
        DemonAction::MoveDown
    } else if i == 2 {
        DemonAction::MoveLeft
    } else {
        DemonAction::MoveRight
    }
}

/// The tile offset of one step in direction `a`.
pub open spec fn shift_of(a: DemonAction) -> (i32, i32) {
    match a {
        DemonAction::MoveUp => (0i32, -1i32),
        DemonAction::MoveDown => (0i32, 1i32),
        DemonAction::MoveLeft => (-1i32, 0i32),
        DemonAction::MoveRight => (1i32, 0i32),
    }
}

/// One grid cell, stored inline in the world's tile array.
#[derive(Clone, Copy, PartialEq, Eq, Structural, Debug)]
pub struct Tile {
    /// How the tile blocks movement; changes together with `tile_type`.
    pub collision: TileCollision,
    /// What the tile is made of.
    pub tile_type: TileType,
    /// Remaining health, in `[0, TILE_HEALTH]`.
    pub health: i32,
    /// Propagated structural strength, thousandths, at most `SUPPORT_FULL`.
    pub support: u32,
    /// Pending drop offset in pixels, in `[-TILE_SIZE, 0]`; 0 means settled.
    pub fall_state: i32,
    /// Whether mining through this tile yields a gem; Ground tiles only.
    pub has_gem: bool,
    /// Best known tile distance to the player, or `NAV_INF`.
    pub nav_value: u32,
    /// Direction that currently yields `nav_value`.
    pub nav_policy: DemonAction,
    /// Illumination, thousandths, in `[0, LIGHT_FULL]`.
    pub light: u32,
}

/// Field ranges every tile in a well-formed world satisfies.
pub open spec fn tile_wf(t: Tile) -> bool {
    &&& 0 <= t.health <= TILE_HEALTH
    &&& t.support <= SUPPORT_FULL
    &&& -TILE_SIZE <= t.fall_state <= 0
    &&& t.nav_value <= NAV_INF
    &&& t.light <= LIGHT_FULL
}

/// The tile `Tile::sky` returns.
pub open spec fn sky_tile() -> Tile {
    Tile {
        collision: TileCollision::Empty,
        tile_type: TileType::Sky,
        health: TILE_HEALTH,
        support: 0,
        fall_state: 0,
        has_gem: false,
        nav_value: NAV_INF,
        nav_policy: DemonAction::MoveUp,
        light: LIGHT_FULL,
    }
}

/// The tile `Tile::cave` returns.
pub open spec fn cave_tile() -> Tile {
    Tile {
        collision: TileCollision::Empty,
        tile_type: TileType::Cave,
        health: TILE_HEALTH,
        support: 0,
        fall_state: 0,
        has_gem: false,
        nav_value: NAV_INF,
        nav_policy: DemonAction::MoveUp,
        light: 0,
    }
}

/// The tile `Tile::cave_ceil` returns.
pub open spec fn cave_ceil_tile() -> Tile {
    Tile {
        collision: TileCollision::Solid,
        tile_type: TileType::CaveCeiling,
        health: TILE_HEALTH,
        support: SUPPORT_FULL,
        fall_state: 0,
        has_gem: false,
        nav_value: NAV_INF,
        nav_policy: DemonAction::MoveUp,
        light: 0,
    }
}

/// The tile `Tile::surface` returns.
pub open spec fn surface_tile() -> Tile {
    Tile {
        collision: TileCollision::Solid,
        tile_type: TileType::Surface,
        health: TILE_HEALTH,
        support: SUPPORT_FULL,
        fall_state: 0,
        has_gem: false,
        nav_value: NAV_INF,
        nav_policy: DemonAction::MoveUp,
        light: 0,
    }
}

/// The tile `Tile::bottom` returns.
pub open spec fn bottom_tile() -> Tile {
    Tile {
        collision: TileCollision::Solid,
        tile_type: TileType::Bottom,
        health: TILE_HEALTH,
        support: SUPPORT_FULL,
        fall_state: 0,
        has_gem: false,
        nav_value: NAV_INF,
        nav_policy: DemonAction::MoveUp,
        light: 0,
    }
}

/// The tile `Tile::ground` returns.
pub open spec fn ground_tile(has_gem: bool) -> Tile {
    Tile {
        collision: TileCollision::Solid,
        tile_type: TileType::Ground,
        health: TILE_HEALTH,
        support: SUPPORT_FULL,
        fall_state: 0,
        has_gem: has_gem,
        nav_value: NAV_INF,
        nav_policy: DemonAction::MoveUp,
        light: 0,
    }
}

/// The tile `Tile::support` returns.
pub open spec fn support_tile() -> Tile {
    Tile {
        collision: TileCollision::Support,
        tile_type: TileType::SupportPlaced,
        health: TILE_HEALTH,
        support: SUPPORT_FULL,
        fall_state: 0,
        has_gem: false,
        nav_value: NAV_INF,
        nav_policy: DemonAction::MoveUp,
        light: 0,
    }
}

impl Tile {
    /// Open air above the surface line: passable and fully lit.
    pub fn sky() -> (t: Tile)
        ensures
            t == sky_tile(),
    {
        Tile {
            collision: TileCollision::Empty,
            tile_type: TileType::Sky,
            health: TILE_HEALTH,
            support: 0,
            fall_state: 0,
            has_gem: false,
            nav_value: NAV_INF,
            nav_policy: DemonAction::MoveUp,
            light: LIGHT_FULL,
        }
    }

    /// A carved-out cell: passable and dark.
    pub fn cave() -> (t: Tile)
        ensures
            t == cave_tile(),
    {
        Tile {
            collision: TileCollision::Empty,
            tile_type: TileType::Cave,
            health: TILE_HEALTH,
            support: 0,
            fall_state: 0,
            has_gem: false,
            nav_value: NAV_INF,
            nav_policy: DemonAction::MoveUp,
            light: 0,
        }
    }

    /// The anchored roof of a carved cavern; never re-evaluated for collapse.
    pub fn cave_ceil() -> (t: Tile)
        ensures
            t == cave_ceil_tile(),
    {
        Tile {
            collision: TileCollision::Solid,
            tile_type: TileType::CaveCeiling,
            health: TILE_HEALTH,
            support: SUPPORT_FULL,
            fall_state: 0,
            has_gem: false,
            nav_value: NAV_INF,
            nav_policy: DemonAction::MoveUp,
            light: 0,
        }
    }

    /// A tile of the anchored surface row.
    pub fn surface() -> (t: Tile)
        ensures
            t == surface_tile(),
    {
        Tile {
            collision: TileCollision::Solid,
            tile_type: TileType::Surface,
            health: TILE_HEALTH,
            support: SUPPORT_FULL,
            fall_state: 0,
            has_gem: false,
            nav_value: NAV_INF,
            nav_policy: DemonAction::MoveUp,
            light: 0,
        }
    }

    /// A tile of the permanently solid bottom row.
    pub fn bottom() -> (t: Tile)
        ensures
            t == bottom_tile(),
    {
        Tile {
            collision: TileCollision::Solid,
            tile_type: TileType::Bottom,
            health: TILE_HEALTH,
            support: SUPPORT_FULL,
            fall_state: 0,
            has_gem: false,
            nav_value: NAV_INF,
            nav_policy: DemonAction::MoveUp,
            light: 0,
        }
    }

    /// Minable earth; `has_gem` is drawn at generation time.
    pub fn ground(has_gem: bool) -> (t: Tile)
        ensures
            t == ground_tile(has_gem),
    {
        Tile {
            collision: TileCollision::Solid,
            tile_type: TileType::Ground,
            health: TILE_HEALTH,
            support: SUPPORT_FULL,
            fall_state: 0,
            has_gem: has_gem,
            nav_value: NAV_INF,
            nav_policy: DemonAction::MoveUp,
            light: 0,
        }
    }

    /// A player-placed support strut: a one-way platform.
    pub fn support() -> (t: Tile)
        ensures
            t == support_tile(),
    {
        Tile {
            collision: TileCollision::Support,
            tile_type: TileType::SupportPlaced,
            health: TILE_HEALTH,
            support: SUPPORT_FULL,
            fall_state: 0,
            has_gem: false,
            nav_value: NAV_INF,
            nav_policy: DemonAction::MoveUp,
            light: 0,
        }
    }
}

} // verus!
