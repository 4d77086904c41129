//! The navigation policy field.
//!
//! Every non-Solid tile carries its best known tile distance to the player
//! and the direction that achieves it. The field is relaxed by full-grid
//! sweeps (each tile against its four neighbors, in a fixed cyclic order),
//! at most `MAX_ITERATIONS` sweeps per tick; an unfinished computation is
//! resumed the next tick rather than restarted, unless the previous one had
//! fully converged.

use vstd::prelude::*;
use crate::tile::{Tile, DemonAction, TileCollision, action_of, shift_of, NAV_INF, MAX_ITERATIONS};
use crate::world::{World, WorldView, lemma_idx_in_range, same_but_tiles};
use crate::support::at;

verus! {

/// One relaxation of tile `(x, y)` against its neighbor in direction `d`:
/// if stepping from that neighbor improves the tile's distance, take it and
/// record the direction.
pub open spec fn nav_dir_step(s: Seq<Tile>, w: int, h: int, x: int, y: int, d: int) -> (
    Seq<Tile>,
    bool,
) {
    let a = action_of(d);
    let sh = shift_of(a);
    let nx = x + sh.0;
    let ny = y + sh.1;
    let t = at(s, w, x, y);
    if 0 <= nx < w && 0 <= ny < h && at(s, w, nx, ny).collision != TileCollision::Solid {
        let newv = at(s, w, nx, ny).nav_value + 1;
        if newv < t.nav_value {
            (s.update(y * w + x, Tile { nav_value: newv as u32, nav_policy: a, ..t }), true)
        } else {
            (s, false)
        }
    } else {
        (s, false)
    }
}

/// The relaxations of tile `(x, y)` for directions `d` through 3.
pub open spec fn nav_dirs_from(s: Seq<Tile>, w: int, h: int, x: int, y: int, d: int) -> (
    Seq<Tile>,
    bool,
)
    decreases 4 - d,
{
    if d < 0 || d >= 4 {
        (s, false)
    } else {
        let (s1, c1) = nav_dir_step(s, w, h, x, y, d);
        let (s2, c2) = nav_dirs_from(s1, w, h, x, y, d + 1);
        (s2, c1 || c2)
    }
}

/// One cell of a sweep: Solid tiles are skipped, the player's tile is
/// forced to distance zero if it drifted, every other tile is relaxed
/// against its four neighbors.
pub open spec fn nav_cell(s: Seq<Tile>, w: int, h: int, x: int, y: int, ptx: int, pty: int) -> (
    Seq<Tile>,
    bool,
) {
    let t = at(s, w, x, y);
    if t.collision == TileCollision::Solid {
        (s, false)
    } else if x == ptx && y == pty && t.nav_value != 0 {
        (s.update(y * w + x, Tile { nav_value: 0, ..t }), true)
    } else {
        nav_dirs_from(s, w, h, x, y, 0)
    }
}

/// The rest of one sweep, from cell `(x, y)` in row-major order.
pub open spec fn sweep_from(s: Seq<Tile>, w: int, h: int, ptx: int, pty: int, x: int, y: int) -> (
    Seq<Tile>,
    bool,
)
    decreases h - y, w - x,
{
    if y < 0 || y >= h || x < 0 || x > w || w <= 0 {
        (s, false)
    } else if x == w {
        sweep_from(s, w, h, ptx, pty, 0, y + 1)
    } else {
        let (s1, c1) = nav_cell(s, w, h, x, y, ptx, pty);
        let (s2, c2) = sweep_from(s1, w, h, ptx, pty, x + 1, y);
        (s2, c1 || c2)
    }
}

/// One full sweep over the grid, and whether it changed anything.
pub open spec fn sweep_spec(s: Seq<Tile>, w: int, h: int, ptx: int, pty: int) -> (Seq<Tile>, bool) {
    sweep_from(s, w, h, ptx, pty, 0, 0)
}

/// Up to `budget` sweeps, stopping early at the first that changes
/// nothing; the flag says whether the field converged.
pub open spec fn nav_iterate(
    s: Seq<Tile>,
    w: int,
    h: int,
    ptx: int,
    pty: int,
    budget: nat,
) -> (Seq<Tile>, bool)
    decreases budget,
{
    if budget == 0 {
        (s, false)
    } else {
        let (s1, c) = sweep_spec(s, w, h, ptx, pty);
        if !c {
            (s1, true)
        } else {
            nav_iterate(s1, w, h, ptx, pty, (budget - 1) as nat)
        }
    }
}

/// The restart state: every non-Solid tile's distance reset to "unknown",
/// from cell `(x, y)` on in row-major order.
pub open spec fn reset_from(s: Seq<Tile>, w: int, h: int, x: int, y: int) -> Seq<Tile>
    decreases h - y, w - x,
{
    if y < 0 || y >= h || x < 0 || x > w || w <= 0 {
        s
    } else if x == w {
        reset_from(s, w, h, 0, y + 1)
    } else {
        let t = s[y * w + x];
        let s1 = if t.collision == TileCollision::Solid {
            s
        } else {
            s.update(y * w + x, Tile { nav_value: NAV_INF, ..t })
        };
        reset_from(s1, w, h, x + 1, y)
    }
}

/// A full restart: clear every non-Solid tile and force the player's tile
/// to distance zero.
pub open spec fn nav_reset(s: Seq<Tile>, w: int, h: int, ptx: int, pty: int) -> Seq<Tile> {
    let s1 = reset_from(s, w, h, 0, 0);
    s1.update(pty * w + ptx, Tile { nav_value: 0, ..s1[pty * w + ptx] })
}

/// The player tile used as the navigation target: the tile containing the
/// player rectangle's center, or `(0, 0)` when that lies out of bounds.
pub open spec fn player_tile_of(v: WorldView, px: int, py: int, pw: int, ph: int) -> (int, int) {
    let tx = crate::collision::px_tile(px + pw / 2);
    let ty = crate::collision::px_tile(py + ph / 2);
    if 0 <= tx < v.width && 0 <= ty < v.height {
        (tx, ty)
    } else {
        (0, 0)
    }
}

/// What the navigation part of `update` does, once the target tile
/// `(ptx, pty)` is known: nothing if the field is current; otherwise a
/// restart if the last computation converged, then up to `MAX_ITERATIONS`
/// sweeps.
pub open spec fn nav_update_spec(v: WorldView, ptx: int, pty: int) -> WorldView {
    let w = v.width as int;
    let h = v.height as int;
    if v.nav_converged && !v.nav_dirty && ptx == v.old_player_tx && pty == v.old_player_ty {
        v
    } else {
        let s0 = if v.nav_converged {
            nav_reset(v.tiles, w, h, ptx, pty)
        } else {
            v.tiles
        };
        let (s1, conv) = nav_iterate(s0, w, h, ptx, pty, MAX_ITERATIONS as nat);
        WorldView {
            tiles: s1,
            nav_dirty: false,
            nav_converged: conv,
            old_player_tx: ptx as nat,
            old_player_ty: pty as nat,
            ..v
        }
    }
}

/// The adjacency constraint of a converged field at tile `(x, y)` in
/// direction `d`: a passable tile is at most one step worse than any
/// passable neighbor.
pub open spec fn nav_edge_ok(s: Seq<Tile>, w: int, h: int, x: int, y: int, d: int) -> bool {
    let sh = shift_of(action_of(d));
    let nx = x + sh.0;
    let ny = y + sh.1;
    (at(s, w, x, y).collision != TileCollision::Solid && 0 <= nx < w && 0 <= ny < h && at(
        s,
        w,
        nx,
        ny,
    ).collision != TileCollision::Solid) ==> at(s, w, x, y).nav_value <= at(
        s,
        w,
        nx,
        ny,
    ).nav_value + 1
}

/// What one converged sweep guarantees of one cell: the player's passable
/// tile reads zero, and every adjacent passable pair differs by at most one.
pub open spec fn nav_cell_ok(
    s: Seq<Tile>,
    w: int,
    h: int,
    ptx: int,
    pty: int,
    x: int,
    y: int,
) -> bool {
    &&& ((x == ptx && y == pty && at(s, w, x, y).collision != TileCollision::Solid) ==> at(
        s,
        w,
        x,
        y,
    ).nav_value == 0)
    &&& forall|d: int| 0 <= d < 4 ==> #[trigger] nav_edge_ok(s, w, h, x, y, d)
}

/// The field is a fixed point toward `(ptx, pty)`.
pub open spec fn nav_fixed(s: Seq<Tile>, w: int, h: int, ptx: int, pty: int) -> bool {
    forall|x: int, y: int|
        0 <= x < w && 0 <= y < h ==> #[trigger] nav_cell_ok(s, w, h, ptx, pty, x, y)
}

proof fn lemma_dirs_unchanged(s: Seq<Tile>, w: int, h: int, x: int, y: int, d: int)
    requires
        0 <= d <= 4,
        nav_dirs_from(s, w, h, x, y, d).1 == false,
    ensures
        nav_dirs_from(s, w, h, x, y, d).0 == s,
        forall|d2: int| d <= d2 < 4 ==> #[trigger] nav_edge_ok(s, w, h, x, y, d2),
    decreases 4 - d,
{
    if 0 <= d < 4 {
        lemma_dirs_unchanged(s, w, h, x, y, d + 1);
    }
}

proof fn lemma_cell_unchanged(s: Seq<Tile>, w: int, h: int, ptx: int, pty: int, x: int, y: int)
    requires
        nav_cell(s, w, h, x, y, ptx, pty).1 == false,
    ensures
        nav_cell(s, w, h, x, y, ptx, pty).0 == s,
        nav_cell_ok(s, w, h, ptx, pty, x, y),
{
    let t = at(s, w, x, y);
    if t.collision != TileCollision::Solid && !(x == ptx && y == pty && t.nav_value != 0) {
        lemma_dirs_unchanged(s, w, h, x, y, 0);
    }
}

proof fn lemma_sweep_from_unchanged(
    s: Seq<Tile>,
    w: int,
    h: int,
    ptx: int,
    pty: int,
    x: int,
    y: int,
)
    requires
        0 <= x <= w,
        0 <= y,
        sweep_from(s, w, h, ptx, pty, x, y).1 == false,
    ensures
        sweep_from(s, w, h, ptx, pty, x, y).0 == s,
        forall|x2: int, y2: int|
            0 <= x2 < w && 0 <= y2 < h && (y2 > y || (y2 == y && x2 >= x))
                ==> #[trigger] nav_cell_ok(s, w, h, ptx, pty, x2, y2),
    decreases h - y, w - x,
{
    if y < 0 || y >= h || x < 0 || x > w || w <= 0 {
    } else if x == w {
        lemma_sweep_from_unchanged(s, w, h, ptx, pty, 0, y + 1);
    } else {
        lemma_cell_unchanged(s, w, h, ptx, pty, x, y);
        lemma_sweep_from_unchanged(s, w, h, ptx, pty, x + 1, y);
    }
}

/// Navigation monotonicity, the sweep half: a full sweep that changed
/// nothing leaves the field as it was and certifies it as a fixed point —
/// the player's passable tile reads distance zero, and for every pair of
/// adjacent non-Solid tiles the distances differ by at most one.
pub proof fn lemma_sweep_unchanged_is_fixed(s: Seq<Tile>, w: int, h: int, ptx: int, pty: int)
    requires
        0 < w,
        0 < h,
        sweep_spec(s, w, h, ptx, pty).1 == false,
    ensures
        sweep_spec(s, w, h, ptx, pty).0 == s,
        nav_fixed(s, w, h, ptx, pty),
{
    lemma_sweep_from_unchanged(s, w, h, ptx, pty, 0, 0);
}

proof fn lemma_nav_iterate_fixed(s: Seq<Tile>, w: int, h: int, ptx: int, pty: int, budget: nat)
    requires
        0 < w,
        0 < h,
        nav_iterate(s, w, h, ptx, pty, budget).1 == true,
    ensures
        nav_fixed(nav_iterate(s, w, h, ptx, pty, budget).0, w, h, ptx, pty),
    decreases budget,
{
    if budget > 0 {
        let (s1, c) = sweep_spec(s, w, h, ptx, pty);
        if !c {
            lemma_sweep_unchanged_is_fixed(s, w, h, ptx, pty);
        } else {
            lemma_nav_iterate_fixed(s1, w, h, ptx, pty, (budget - 1) as nat);
        }
    }
}

/// Navigation monotonicity: when the navigation part of an update actually
/// recomputes (the field was stale or the player moved tile) and reports
/// convergence, the resulting field is a fixed point toward the new player
/// tile: that tile, if passable, reads distance zero, and adjacent
/// non-Solid tiles differ by at most one step.
pub proof fn lemma_nav_update_monotone(v: WorldView, ptx: int, pty: int)
    requires
        0 < v.width,
        0 < v.height,
        !(v.nav_converged && !v.nav_dirty && ptx == v.old_player_tx && pty == v.old_player_ty),
        nav_update_spec(v, ptx, pty).nav_converged,
    ensures
        nav_fixed(
            nav_update_spec(v, ptx, pty).tiles,
            v.width as int,
            v.height as int,
            ptx,
            pty,
        ),
{
    let w = v.width as int;
    let h = v.height as int;
    let s0 = if v.nav_converged {
        nav_reset(v.tiles, w, h, ptx, pty)
    } else {
        v.tiles
    };
    lemma_nav_iterate_fixed(s0, w, h, ptx, pty, MAX_ITERATIONS as nat);
}

impl World {
    /// The executable direction table of a sweep's cyclic order.
    fn dir_action(d: usize) -> (a: DemonAction)
        requires
            d < 4,
        ensures
            a == action_of(d as int),
    {
        if d == 0 {
            DemonAction::MoveUp
        } else if d == 1 {
            DemonAction::MoveDown
        } else if d == 2 {
            DemonAction::MoveLeft
        } else {
            DemonAction::MoveRight
        }
    }

    /// Relaxes one tile against its four neighbors (one sweep cell).
    fn nav_cell_exec(&mut self, x: usize, y: usize, ptx: usize, pty: usize) -> (changed: bool)
        requires
            old(self)@.wf(),
            old(self)@.in_bounds(x as int, y as int),
        ensures
            final(self)@.wf(),
            same_but_tiles(final(self)@, old(self)@),
            ({
                let (s1, c) = nav_cell(
                    old(self)@.tiles,
                    old(self)@.width as int,
                    old(self)@.height as int,
                    x as int,
                    y as int,
                    ptx as int,
                    pty as int,
                );
                final(self)@.tiles == s1 && changed == c
            }),
    {
        let ghost v0 = self@;
        let ghost w = self@.width as int;
        let ghost h = self@.height as int;

        proof {
            lemma_idx_in_range(self@, x as int, y as int);
        }
        let t = self.get_tile(x, y);
        if t.collision == TileCollision::Solid {
            return false;
        }
        if x == ptx && y == pty && t.nav_value != 0 {
            let mut t2 = t;
            t2.nav_value = 0;
            self.set_tile(x, y, t2);
            return true;
        }
        let ghost full = nav_dirs_from(v0.tiles, w, h, x as int, y as int, 0);
        let mut changed = false;
        let mut d: usize = 0;
        while d < 4
            invariant
                self@.wf(),
                same_but_tiles(self@, v0),
                w == v0.width,
                h == v0.height,
                x < w,
                y < h,
                0 <= d <= 4,
                full == ({
                    let (s2, c2) = nav_dirs_from(self@.tiles, w, h, x as int, y as int, d as int);
                    (s2, changed || c2)
                }),
            decreases 4 - d,
        {
            let a = Self::dir_action(d);
            let (dx, dy) = a.get_shift();
            let nx = x as i32 + dx;
            let ny = y as i32 + dy;
            if nx >= 0 && nx < self.width as i32 && ny >= 0 && ny < self.height as i32 {
                let n = self.get_tile(nx as usize, ny as usize);
                if n.collision != TileCollision::Solid {
                    let cur = self.get_tile(x, y);
                    let newv = n.nav_value + 1;
                    if newv < cur.nav_value {
                        let mut t2 = cur;
                        t2.nav_value = newv;
                        t2.nav_policy = a;
                        self.set_tile(x, y, t2);
                        changed = true;
                    }
                }
            }
            d += 1;
        }
        changed
    }

    /// One full sweep of the navigation field toward player tile
    /// `(ptx, pty)`; reports whether any tile changed.
    pub(crate) fn nav_sweep(&mut self, ptx: usize, pty: usize) -> (changed: bool)
        requires
            old(self)@.wf(),
        ensures
            final(self)@.wf(),
            same_but_tiles(final(self)@, old(self)@),
            ({
                let (s1, c) = sweep_spec(
                    old(self)@.tiles,
                    old(self)@.width as int,
                    old(self)@.height as int,
                    ptx as int,
                    pty as int,
                );
                final(self)@.tiles == s1 && changed == c
            }),
    {
        let ghost v0 = self@;
        let ghost w = self@.width as int;
        let ghost h = self@.height as int;
        let ghost full = sweep_from(v0.tiles, w, h, ptx as int, pty as int, 0, 0);

        let mut changed = false;
        let mut y: usize = 0;
        while y < self.height
            invariant
                self@.wf(),
                same_but_tiles(self@, v0),
                w == v0.width,
                h == v0.height,
                0 <= y <= h,
                full == ({
                    let (s2, c2) = sweep_from(self@.tiles, w, h, ptx as int, pty as int, 0, y as int);
                    (s2, changed || c2)
                }),
            decreases h - y,
        {
            let mut x: usize = 0;
            while x < self.width
                invariant
                    self@.wf(),
                    same_but_tiles(self@, v0),
                    w == v0.width,
                    h == v0.height,
                    0 <= y < h,
                    0 <= x <= w,
                    full == ({
                        let (s2, c2) = sweep_from(
                            self@.tiles,
                            w,
                            h,
                            ptx as int,
                            pty as int,
                            x as int,
                            y as int,
                        );
                        (s2, changed || c2)
                    }),
                decreases w - x,
            {
                let c1 = self.nav_cell_exec(x, y, ptx, pty);
                if c1 {
                    changed = true;
                }
                x += 1;
            }
            y += 1;
        }
        changed
    }

    /// Resets every non-Solid tile's distance to "unknown" and forces the
    /// player's tile to zero (a full restart against a new target).
    pub(crate) fn nav_reset_exec(&mut self, ptx: usize, pty: usize)
        requires
            old(self)@.wf(),
            old(self)@.in_bounds(ptx as int, pty as int),
        ensures
            final(self)@.wf(),
            same_but_tiles(final(self)@, old(self)@),
            final(self)@.tiles == nav_reset(
                old(self)@.tiles,
                old(self)@.width as int,
                old(self)@.height as int,
                ptx as int,
                pty as int,
            ),
    {
        let ghost v0 = self@;
        let ghost w = self@.width as int;
        let ghost h = self@.height as int;
        let ghost full = reset_from(v0.tiles, w, h, 0, 0);

        let mut y: usize = 0;
        while y < self.height
            invariant
                self@.wf(),
                same_but_tiles(self@, v0),
                w == v0.width,
                h == v0.height,
                0 <= y <= h,
                full == reset_from(self@.tiles, w, h, 0, y as int),
            decreases h - y,
        {
            let mut x: usize = 0;
            while x < self.width
                invariant
                    self@.wf(),
                    same_but_tiles(self@, v0),
                    w == v0.width,
                    h == v0.height,
                    0 <= y < h,
                    0 <= x <= w,
                    full == reset_from(self@.tiles, w, h, x as int, y as int),
                decreases w - x,
            {
                proof {
                    lemma_idx_in_range(self@, x as int, y as int);
                }
                let t = self.get_tile(x, y);
                if !(t.collision == TileCollision::Solid) {
                    let mut t2 = t;
                    t2.nav_value = NAV_INF;
                    self.set_tile(x, y, t2);
                }
                x += 1;
            }
            y += 1;
        }
        proof {
            lemma_idx_in_range(self@, ptx as int, pty as int);
        }
        let pt = self.get_tile(ptx, pty);
        let mut pt2 = pt;
        pt2.nav_value = 0;
        self.set_tile(ptx, pty, pt2);
    }
}

} // verus!
