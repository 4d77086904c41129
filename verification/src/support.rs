//! The per-tick support/collapse pass.
//!
//! Rows are visited bottom-up (a tile's stability depends on what has
//! already settled below it), columns left to right. A tile's recomputed
//! strength is the best of its left, right and below neighbors' strengths,
//! each scaled by that neighbor's remaining health and, laterally, decayed
//! by one unit. A tile too weak to stand, with room below, collapses: a Cave
//! tile replaces it and the falling tile lands one cell down with a pending
//! drop offset. Falling tiles advance toward settled each tick and feed the
//! camera-shake magnitude the pass returns.

use vstd::prelude::*;
use crate::tile::{
    Tile,
    tile_wf,
    cave_tile,
    TileCollision,
    TileType,
    TILE_SIZE,
    TILE_HEALTH,
    SUPPORT_ONE,
    SUPPORT_FULL,
    SUPPORT_BONUS,
};
use crate::world::{World, WorldView, lemma_idx_in_range, generated_tile_ok};
use crate::util::imax;

verus! {

/// The tile at `(x, y)` of a row-major sequence of width `w`.
pub open spec fn at(s: Seq<Tile>, w: int, x: int, y: int) -> Tile {
    s[y * w + x]
}

/// Whether the pass re-evaluates this tile: solid or support matter, and
/// Surface and CaveCeiling tiles are permanently anchored.
pub open spec fn support_active(t: Tile) -> bool {
    &&& t.collision != TileCollision::Empty
    &&& t.tile_type != TileType::CaveCeiling
    &&& t.tile_type != TileType::Surface
}

/// Support a tile passes straight up: its strength scaled by its health.
pub open spec fn below_contrib(t: Tile) -> int {
    (t.support as int) * (t.health as int) / (TILE_HEALTH as int)
}

/// Support a tile passes sideways: one unit weaker, never negative.
pub open spec fn lateral_contrib(t: Tile) -> int {
    let c = below_contrib(t);
    if c >= SUPPORT_ONE {
        c - SUPPORT_ONE
    } else {
        0
    }
}

/// The recomputed strength of tile `(x, y)`: the best neighbor
/// contribution, with missing lateral neighbors contributing nothing.
pub open spec fn sup_of(s: Seq<Tile>, w: int, x: int, y: int) -> int {
    let l = if x > 0 {
        lateral_contrib(at(s, w, x - 1, y))
    } else {
        0
    };
    let r = if x < w - 1 {
        lateral_contrib(at(s, w, x + 1, y))
    } else {
        0
    };
    imax(imax(l, r), below_contrib(at(s, w, x, y + 1)))
}

/// How many of the three neighbors have positive stored support.
pub open spec fn nsup_of(s: Seq<Tile>, w: int, x: int, y: int) -> int {
    (if x > 0 && at(s, w, x - 1, y).support > 0 {
        1int
    } else {
        0
    }) + (if x < w - 1 && at(s, w, x + 1, y).support > 0 {
        1int
    } else {
        0
    }) + (if at(s, w, x, y + 1).support > 0 {
        1int
    } else {
        0
    })
}

/// Whether the recomputed strength is too weak to stand.
pub open spec fn too_weak(s: Seq<Tile>, w: int, x: int, y: int) -> bool {
    sup_of(s, w, x, y) + (SUPPORT_BONUS as int) * nsup_of(s, w, x, y) <= SUPPORT_ONE
}

/// One cell of the pass: the tiles afterwards, the camera-shake magnitude
/// it emits, and whether the tile collapsed.
pub open spec fn support_cell(s: Seq<Tile>, w: int, x: int, y: int) -> (Seq<Tile>, int, bool) {
    let t = at(s, w, x, y);
    if !support_active(t) {
        (s, 0, false)
    } else {
        let weak = too_weak(s, w, x, y) && t.fall_state == 0;
        let s1 = if weak {
            if at(s, w, x, y + 1).collision == TileCollision::Empty {
                s.update(y * w + x, cave_tile()).update(
                    (y + 1) * w + x,
                    Tile { fall_state: (-TILE_SIZE) as i32, ..t },
                )
            } else {
                s
            }
        } else {
            s.update(y * w + x, Tile { support: sup_of(s, w, x, y) as u32, ..t })
        };
        let collapsed = weak && at(s, w, x, y + 1).collision == TileCollision::Empty;
        let t1 = at(s1, w, x, y);
        if t1.fall_state < 0 {
            let nf = t1.fall_state + 2;
            if nf >= 0 {
                (s1.update(y * w + x, Tile { fall_state: 0, ..t1 }), 5, collapsed)
            } else {
                (s1.update(y * w + x, Tile { fall_state: nf as i32, ..t1 }), 2, collapsed)
            }
        } else {
            (s1, 0, collapsed)
        }
    }
}

/// The rest of the pass, starting at column `x` of row `y` and ending after
/// row 1: the tiles afterwards, the largest shake magnitude emitted, and
/// whether any tile collapsed.
pub open spec fn support_cells_from(s: Seq<Tile>, w: int, h: int, x: int, y: int) -> (
    Seq<Tile>,
    int,
    bool,
)
    decreases y, w - x,
{
    if y < 1 || x < 0 || x > w || w <= 0 {
        (s, 0, false)
    } else if x == w {
        support_cells_from(s, w, h, 0, y - 1)
    } else {
        let (s1, j1, c1) = support_cell(s, w, x, y);
        let (s2, j2, c2) = support_cells_from(s1, w, h, x + 1, y);
        (s2, imax(j1, j2), c1 || c2)
    }
}

/// The whole pass: every row from just above the bottom row up to row 1.
pub open spec fn support_pass_spec(s: Seq<Tile>, w: int, h: int) -> (Seq<Tile>, int, bool) {
    support_cells_from(s, w, h, 0, h - 2)
}

/// The shake magnitude of one cell is 0, 2 or 5.
proof fn lemma_cell_jolt_range(s: Seq<Tile>, w: int, x: int, y: int)
    ensures
        0 <= support_cell(s, w, x, y).1 <= 5,
{
}

/// The shake magnitude of the rest of a pass is 0, 2 or 5.
proof fn lemma_from_jolt_range(s: Seq<Tile>, w: int, h: int, x: int, y: int)
    ensures
        0 <= support_cells_from(s, w, h, x, y).1 <= 5,
    decreases y, w - x,
{
    if y < 1 || x < 0 || x > w || w <= 0 {
    } else if x == w {
        lemma_from_jolt_range(s, w, h, 0, y - 1);
    } else {
        let (s1, j1, c1) = support_cell(s, w, x, y);
        lemma_cell_jolt_range(s, w, x, y);
        lemma_from_jolt_range(s1, w, h, x + 1, y);
    }
}

/// A statically stable grid: every tile the pass re-evaluates already
/// stores exactly its recomputed strength, that strength is enough to
/// stand, and nothing is mid-fall. A fully healthy world anchored by its
/// Surface and Bottom rows is in this state.
pub open spec fn statically_stable(s: Seq<Tile>, w: int, h: int) -> bool {
    forall|x: int, y: int|
        0 <= x < w && 1 <= y <= h - 2 && support_active(#[trigger] at(s, w, x, y)) ==> {
            &&& sup_of(s, w, x, y) == at(s, w, x, y).support
            &&& !too_weak(s, w, x, y)
            &&& at(s, w, x, y).fall_state == 0
        }
}

proof fn lemma_flat_index_bounds(w: int, h: int, x: int, y: int)
    requires
        0 < w,
        0 <= x < w,
        0 <= y < h,
    ensures
        0 <= y * w + x < w * h,
        y * w + x != (y + 1) * w + x,
        0 <= y < h - 1 ==> (y + 1) * w + x < w * h,
{
    assert(0 <= y * w + x < w * h && y * w + x != (y + 1) * w + x && (0 <= y < h - 1 ==> (y + 1) * w
        + x < w * h)) by (nonlinear_arith)
        requires
            0 < w,
            0 <= x < w,
            0 <= y < h,
    ;
}

proof fn lemma_stable_cell(s: Seq<Tile>, w: int, h: int, x: int, y: int)
    requires
        s.len() == w * h,
        statically_stable(s, w, h),
        0 < w,
        0 <= x < w,
        1 <= y <= h - 2,
    ensures
        support_cell(s, w, x, y) == (s, 0int, false),
{
    let t = at(s, w, x, y);
    if support_active(t) {
        lemma_flat_index_bounds(w, h, x, y);
        let sup = sup_of(s, w, x, y);
        assert(sup == t.support);
        assert(Tile { support: sup as u32, ..t } == t);
        assert(s.update(y * w + x, Tile { support: sup as u32, ..t }) =~= s);
    }
}

proof fn lemma_stable_from(s: Seq<Tile>, w: int, h: int, x: int, y: int)
    requires
        s.len() == w * h,
        statically_stable(s, w, h),
        y <= h - 2,
    ensures
        support_cells_from(s, w, h, x, y) == (s, 0int, false),
    decreases y, w - x,
{
    if y < 1 || x < 0 || x > w || w <= 0 {
    } else if x == w {
        lemma_stable_from(s, w, h, 0, y - 1);
    } else {
        lemma_stable_cell(s, w, h, x, y);
        lemma_stable_from(s, w, h, x + 1, y);
    }
}

/// Support convergence: on a statically stable grid the support pass is the
/// identity — no tile collapses, no shake is emitted — and since the grid
/// comes out unchanged it is stable again, so repeated updates never
/// collapse a tile of it.
pub proof fn lemma_stable_structure_never_collapses(s: Seq<Tile>, w: int, h: int)
    requires
        s.len() == w * h,
        statically_stable(s, w, h),
    ensures
        support_pass_spec(s, w, h) == (s, 0int, false),
{
    lemma_stable_from(s, w, h, 0, h - 2);
}

/// A freshly generated world is statically stable: every tile below the
/// surface band stores full strength, is held at full strength by the
/// column under it down to the anchored Bottom row, and nothing is
/// mid-fall. With the lemma below, repeated updates never collapse any
/// tile of it until mining or carving weakens the terrain.
pub proof fn lemma_generated_world_stable(s: Seq<Tile>, w: int, h: int)
    requires
        10 < w,
        10 < h,
        s.len() == w * h,
        forall|i: int|
            0 <= i < s.len() ==> generated_tile_ok(#[trigger] s[i], i, w, h),
    ensures
        statically_stable(s, w, h),
{
    assert forall|x: int, y: int|
        0 <= x < w && 1 <= y <= h - 2 && support_active(at(s, w, x, y)) implies {
        &&& sup_of(s, w, x, y) == at(s, w, x, y).support
        &&& !too_weak(s, w, x, y)
        &&& at(s, w, x, y).fall_state == 0
    } by {
        lemma_flat_index_bounds(w, h, x, y);
        lemma_flat_index_bounds(w, h, x, y + 1);
        vstd::arithmetic::div_mod::lemma_fundamental_div_mod_converse(y * w + x, w, y, x);
        vstd::arithmetic::div_mod::lemma_fundamental_div_mod_converse(
            (y + 1) * w + x,
            w,
            y + 1,
            x,
        );
        if x > 0 {
            lemma_flat_index_bounds(w, h, x - 1, y);
            vstd::arithmetic::div_mod::lemma_fundamental_div_mod_converse(
                y * w + x - 1,
                w,
                y,
                x - 1,
            );
        }
        if x < w - 1 {
            lemma_flat_index_bounds(w, h, x + 1, y);
            vstd::arithmetic::div_mod::lemma_fundamental_div_mod_converse(
                y * w + x + 1,
                w,
                y,
                x + 1,
            );
        }
    };
}

/// A freshly generated world never collapses: its support pass changes
/// nothing, emits no shake, and marks nothing dirty.
pub proof fn lemma_generated_world_never_collapses(s: Seq<Tile>, w: int, h: int)
    requires
        10 < w,
        10 < h,
        s.len() == w * h,
        forall|i: int|
            0 <= i < s.len() ==> generated_tile_ok(#[trigger] s[i], i, w, h),
    ensures
        support_pass_spec(s, w, h) == (s, 0int, false),
{
    lemma_generated_world_stable(s, w, h);
    lemma_stable_structure_never_collapses(s, w, h);
}

/// Collapse correctness: a tile the pass re-evaluates whose recomputed
/// strength plus the per-neighbor bonus cannot hold one unit, standing over
/// an Empty cell and not already mid-fall, collapses in its cell step: a
/// Cave tile replaces it, and the cell below receives the old tile with one
/// full tile edge of pending drop.
pub proof fn lemma_collapse_correct(s: Seq<Tile>, w: int, h: int, x: int, y: int)
    requires
        s.len() == w * h,
        0 < w,
        0 <= x < w,
        1 <= y <= h - 2,
        support_active(at(s, w, x, y)),
        too_weak(s, w, x, y),
        at(s, w, x, y).fall_state == 0,
        at(s, w, x, y + 1).collision == TileCollision::Empty,
    ensures
        ({
            let (s1, j, c) = support_cell(s, w, x, y);
            &&& c
            &&& at(s1, w, x, y) == cave_tile()
            &&& at(s1, w, x, y + 1) == (Tile { fall_state: (-TILE_SIZE) as i32, ..at(s, w, x, y) })
        }),
{
    lemma_flat_index_bounds(w, h, x, y);
    lemma_flat_index_bounds(w, h, x, y + 1);
}

impl World {
    /// Scales a neighbor's support by its health; the value a tile passes
    /// straight up.
    fn contrib_below(t: &Tile) -> (c: u32)
        requires
            tile_wf(*t),
        ensures
            c as int == below_contrib(*t),
            c <= SUPPORT_FULL,
    {
        proof {
            assert((t.support as int) * (t.health as int) <= (t.support as int) * 32)
                by (nonlinear_arith)
                requires
                    0 <= t.health <= 32,
                    0 <= t.support,
            ;
            vstd::arithmetic::div_mod::lemma_div_is_ordered(
                (t.support as int) * (t.health as int),
                (t.support as int) * 32,
                32,
            );
            vstd::arithmetic::div_mod::lemma_div_multiples_vanish(t.support as int, 32);
            assert((t.support as int) * 32 == 32 * (t.support as int));
            assert(0 <= (t.support as int) * (t.health as int)) by (nonlinear_arith)
                requires
                    0 <= t.health,
                    0 <= t.support,
            ;
        }
        t.support * (t.health as u32) / (TILE_HEALTH as u32)
    }

    /// The lateral version: one unit weaker, clamped at zero.
    fn contrib_lateral(t: &Tile) -> (c: u32)
        requires
            tile_wf(*t),
        ensures
            c as int == lateral_contrib(*t),
            c <= SUPPORT_FULL,
    {
        let b = Self::contrib_below(t);
        if b >= SUPPORT_ONE {
            b - SUPPORT_ONE
        } else {
            0
        }
    }

    /// Evaluates the pass at one cell: recomputes the tile's strength,
    /// collapses it when too weak over an Empty cell, and advances a
    /// falling tile toward settled. Returns the shake magnitude emitted and
    /// whether the tile collapsed.
    #[verifier::rlimit(100)]
    fn update_support_cell(&mut self, x: usize, y: usize) -> (r: (u32, bool))
        requires
            old(self)@.wf(),
            x < old(self)@.width,
            1 <= y <= old(self)@.height - 2,
        ensures
            final(self)@.wf(),
            ({
                let (s1, j, c) = support_cell(
                    old(self)@.tiles,
                    old(self)@.width as int,
                    x as int,
                    y as int,
                );
                &&& final(self)@ == (WorldView { tiles: s1, ..old(self)@ })
                &&& r.0 as int == j
                &&& r.1 == c
            }),
    {
        proof {
            lemma_idx_in_range(self@, x as int, y as int);
            lemma_idx_in_range(self@, x as int, y as int + 1);
            if x > 0 {
                lemma_idx_in_range(self@, x as int - 1, y as int);
            }
            if (x as int) < self@.width - 1 {
                lemma_idx_in_range(self@, x as int + 1, y as int);
            }
        }
        let t = self.get_tile(x, y);
        if t.collision == TileCollision::Empty || t.tile_type == TileType::CaveCeiling
            || t.tile_type == TileType::Surface {
            return (0, false);
        }
        let mut sup: u32 = 0;
        let mut ns: u32 = 0;
        if x > 0 {
            let n = self.get_tile(x - 1, y);
            let c = Self::contrib_lateral(&n);
            if c > sup {
                sup = c;
            }
            if n.support > 0 {
                ns += 1;
            }
        }
        if x < self.width - 1 {
            let n = self.get_tile(x + 1, y);
            let c = Self::contrib_lateral(&n);
            if c > sup {
                sup = c;
            }
            if n.support > 0 {
                ns += 1;
            }
        }
        {
            let n = self.get_tile(x, y + 1);
            let c = Self::contrib_below(&n);
            if c > sup {
                sup = c;
            }
            if n.support > 0 {
                ns += 1;
            }
        }

        let mut collapsed = false;
        if sup + SUPPORT_BONUS * ns <= SUPPORT_ONE && t.fall_state == 0 {
            let below = self.get_tile(x, y + 1);
            if below.collision == TileCollision::Empty {
                let mut moved = t;
                moved.fall_state = -TILE_SIZE;
                self.set_tile(x, y, Tile::cave());
                self.set_tile(x, y + 1, moved);
                collapsed = true;
            }
        } else {
            let mut held = t;
            held.support = sup;
            self.set_tile(x, y, held);
        }

        let t1 = self.get_tile(x, y);
        let jolt: u32 = if t1.fall_state < 0 {
            let nf = t1.fall_state + 2;
            let mut settled = t1;
            if nf >= 0 {
                settled.fall_state = 0;
                self.set_tile(x, y, settled);
                5
            } else {
                settled.fall_state = nf;
                self.set_tile(x, y, settled);
                2
            }
        } else {
            0
        };
        (jolt, collapsed)
    }

    /// The per-tick support/collapse pass over the whole grid, bottom-up.
    /// Returns the largest camera-shake magnitude any falling tile emitted;
    /// any collapse marks both the light and the navigation field dirty.
    pub fn support_pass(&mut self) -> (jolt: u32)
        requires
            old(self)@.wf(),
        ensures
            final(self)@.wf(),
            ({
                let (s2, j, c) = support_pass_spec(
                    old(self)@.tiles,
                    old(self)@.width as int,
                    old(self)@.height as int,
                );
                &&& final(self)@ == (WorldView {
                    tiles: s2,
                    light_dirty: old(self)@.light_dirty || c,
                    nav_dirty: old(self)@.nav_dirty || c,
                    ..old(self)@
                })
                &&& jolt as int == j
            }),
    {
        let ghost v0 = self@;
        let ghost w = self@.width as int;
        let ghost h = self@.height as int;
        let ghost full = support_pass_spec(v0.tiles, w, h);

        let mut jolt: u32 = 0;
        let mut coll = false;
        let mut y: usize = self.height - 2;
        proof {
            lemma_from_jolt_range(v0.tiles, w, h, 0, h - 2);
        }
        while y >= 1
            invariant
                w == v0.width,
                h == v0.height,
                full == support_pass_spec(v0.tiles, w, h),
                self@.wf(),
                self@.width == v0.width,
                self@.height == v0.height,
                self@.light_dirty == v0.light_dirty,
                self@.nav_dirty == v0.nav_dirty,
                self@.old_player_tx == v0.old_player_tx,
                self@.old_player_ty == v0.old_player_ty,
                self@.nav_converged == v0.nav_converged,
                0 <= y <= h - 2,
                jolt <= 5,
                full == ({
                    let (s2, j2, c2) = support_cells_from(self@.tiles, w, h, 0, y as int);
                    (s2, imax(jolt as int, j2), coll || c2)
                }),
            decreases y,
        {
            let mut x: usize = 0;
            while x < self.width
                invariant
                    w == v0.width,
                    h == v0.height,
                    self@.wf(),
                    self@.width == v0.width,
                    self@.height == v0.height,
                    self@.light_dirty == v0.light_dirty,
                    self@.nav_dirty == v0.nav_dirty,
                    self@.old_player_tx == v0.old_player_tx,
                    self@.old_player_ty == v0.old_player_ty,
                    self@.nav_converged == v0.nav_converged,
                    1 <= y <= h - 2,
                    0 <= x <= w,
                    jolt <= 5,
                    full == ({
                        let (s2, j2, c2) = support_cells_from(self@.tiles, w, h, x as int, y as int);
                        (s2, imax(jolt as int, j2), coll || c2)
                    }),
                decreases w - x,
            {
                proof {
                    lemma_cell_jolt_range(self@.tiles, w, x as int, y as int);
                    lemma_from_jolt_range(
                        support_cell(self@.tiles, w, x as int, y as int).0,
                        w,
                        h,
                        x as int + 1,
                        y as int,
                    );
                }
                let (j1, c1) = self.update_support_cell(x, y);
                if j1 > jolt {
                    jolt = j1;
                }
                if c1 {
                    coll = true;
                }
                x += 1;
            }
            y -= 1;
        }
        if coll {
            self.light_dirty = true;
            self.nav_dirty = true;
        }
        jolt
    }
}

} // verus!
