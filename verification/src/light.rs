//! The lighting propagator.
//!
//! Light is recomputed on demand: every tile at or below the surface row is
//! darkened, one short ray is cast down each column from just above the
//! surface (ambient surface light), and every torch casts rays to each cell
//! on the perimeter of a clamped square around it. A ray is walked with an
//! integer slope-stepping algorithm along its dominant axis; every touched
//! tile keeps the brighter of its light and the ray's per-step illumination
//! `min(1, 1 / (0.1 + dx² + dy²))`, and the ray stops at the first Solid
//! tile, which it still lights (shadow casting), or on leaving the grid.

use vstd::prelude::*;
use crate::tile::{Tile, TileCollision, LIGHT_FULL, SURFACE_HEIGHT};
use crate::world::{World, WorldView, lemma_idx_in_range, same_but_tiles};
use crate::util::{imax, imin, iabs, tdiv, tdiv_exec};
use crate::collision::{px_tile, QUERY_LIMIT};

verus! {

/// A torch lights the perimeter of a square this many tiles out.
pub const TORCH_RADIUS: i32 = 5;

/// Surface light reaches this many rows past the surface row.
pub const SURFACE_RAY_DEPTH: i32 = 5;

/// Illumination of a ray step at offset `(dx, dy)` from its source, in
/// thousandths: `min(1, 1 / (0.1 + dx² + dy²))`.
pub open spec fn ray_illum(dx: int, dy: int) -> int {
    let q = 10000int / (1 + 10 * (dx * dx + dy * dy));
    if q >= LIGHT_FULL {
        LIGHT_FULL as int
    } else {
        q
    }
}

/// A tile after a ray step of illumination `lit` touches it.
pub open spec fn lit_tile(t: Tile, lit: int) -> Tile {
    Tile { light: imax(t.light as int, lit) as u32, ..t }
}

/// The rest of a ray whose dominant axis is horizontal, from step `delta`.
pub open spec fn ray_from_x(
    s: Seq<Tile>,
    w: int,
    h: int,
    stx: int,
    sty: int,
    dx: int,
    dy: int,
    delta: int,
) -> Seq<Tile>
    decreases iabs(dx) - delta,
{
    if delta < 0 || delta >= iabs(dx) {
        s
    } else {
        let xx = stx + (if dx > 0 {
            delta
        } else {
            -delta
        });
        let off = tdiv(dy * delta, dx);
        let yy = sty + off;
        if !(0 <= xx < w && 0 <= yy < h) {
            s
        } else {
            let t = s[yy * w + xx];
            let s1 = s.update(yy * w + xx, lit_tile(t, ray_illum(delta, off)));
            if t.collision == TileCollision::Solid {
                s1
            } else {
                ray_from_x(s1, w, h, stx, sty, dx, dy, delta + 1)
            }
        }
    }
}

/// The rest of a ray whose dominant axis is vertical, from step `delta`.
pub open spec fn ray_from_y(
    s: Seq<Tile>,
    w: int,
    h: int,
    stx: int,
    sty: int,
    dx: int,
    dy: int,
    delta: int,
) -> Seq<Tile>
    decreases iabs(dy) - delta,
{
    if delta < 0 || delta >= iabs(dy) {
        s
    } else {
        let yy = sty + (if dy > 0 {
            delta
        } else {
            -delta
        });
        let off = tdiv(dx * delta, dy);
        let xx = stx + off;
        if !(0 <= xx < w && 0 <= yy < h) {
            s
        } else {
            let t = s[yy * w + xx];
            let s1 = s.update(yy * w + xx, lit_tile(t, ray_illum(off, delta)));
            if t.collision == TileCollision::Solid {
                s1
            } else {
                ray_from_y(s1, w, h, stx, sty, dx, dy, delta + 1)
            }
        }
    }
}

/// A full ray from `(stx, sty)` toward `(dtx, dty)`.
pub open spec fn ray_spec(
    s: Seq<Tile>,
    w: int,
    h: int,
    stx: int,
    sty: int,
    dtx: int,
    dty: int,
) -> Seq<Tile> {
    let dx = dtx - stx;
    let dy = dty - sty;
    if dx == 0 && dy == 0 {
        s
    } else if iabs(dx) > iabs(dy) {
        ray_from_x(s, w, h, stx, sty, dx, dy, 0)
    } else {
        ray_from_y(s, w, h, stx, sty, dx, dy, 0)
    }
}

/// Darkening every tile from `(x, y)` on (row-major order) through the
/// bottom of the grid.
pub open spec fn darken_from(s: Seq<Tile>, w: int, h: int, x: int, y: int) -> Seq<Tile>
    decreases h - y, w - x,
{
    if y < 0 || y >= h || x < 0 || x > w || w <= 0 {
        s
    } else if x == w {
        darken_from(s, w, h, 0, y + 1)
    } else {
        darken_from(s.update(y * w + x, Tile { light: 0, ..s[y * w + x] }), w, h, x + 1, y)
    }
}

/// The ambient surface rays of the columns from `x` on: one short ray down
/// each column, cast from just above the surface row.
pub open spec fn surface_rays_from(s: Seq<Tile>, w: int, h: int, x: int) -> Seq<Tile>
    decreases w - x,
{
    if x < 0 || x >= w {
        s
    } else {
        surface_rays_from(
            ray_spec(
                s,
                w,
                h,
                x,
                SURFACE_HEIGHT - 1,
                x,
                SURFACE_HEIGHT + SURFACE_RAY_DEPTH,
            ),
            w,
            h,
            x + 1,
        )
    }
}

/// Torch rays to the top edge of the clamped square, columns `x..=x2`.
pub open spec fn torch_top_from(
    s: Seq<Tile>,
    w: int,
    h: int,
    tx: int,
    ty: int,
    y1: int,
    x: int,
    x2: int,
) -> Seq<Tile>
    decreases x2 + 1 - x,
{
    if x > x2 {
        s
    } else {
        torch_top_from(ray_spec(s, w, h, tx, ty, x, y1), w, h, tx, ty, y1, x + 1, x2)
    }
}

/// Torch rays to the bottom edge, columns `x` down to `x1`.
pub open spec fn torch_bottom_from(
    s: Seq<Tile>,
    w: int,
    h: int,
    tx: int,
    ty: int,
    y2: int,
    x: int,
    x1: int,
) -> Seq<Tile>
    decreases x + 1 - x1,
{
    if x < x1 {
        s
    } else {
        torch_bottom_from(ray_spec(s, w, h, tx, ty, x, y2), w, h, tx, ty, y2, x - 1, x1)
    }
}

/// Torch rays to one side column `xc`, rows `y` up to but excluding `y2`.
pub open spec fn torch_side_from(
    s: Seq<Tile>,
    w: int,
    h: int,
    tx: int,
    ty: int,
    xc: int,
    y: int,
    y2: int,
) -> Seq<Tile>
    decreases y2 - y,
{
    if y >= y2 {
        s
    } else {
        torch_side_from(ray_spec(s, w, h, tx, ty, xc, y), w, h, tx, ty, xc, y + 1, y2)
    }
}

/// All rays of one torch at tile `(tx, ty)`: the four edges of the square
/// of radius `TORCH_RADIUS` around it, clamped to the grid.
pub open spec fn torch_spec(s: Seq<Tile>, w: int, h: int, tx: int, ty: int) -> Seq<Tile> {
    let x1 = imax(tx - TORCH_RADIUS, 0);
    let y1 = imax(ty - TORCH_RADIUS, 0);
    let x2 = imin(tx + TORCH_RADIUS, w - 1);
    let y2 = imin(ty + TORCH_RADIUS, h - 1);
    let s1 = torch_top_from(s, w, h, tx, ty, y1, x1, x2);
    let s2 = torch_bottom_from(s1, w, h, tx, ty, y2, x2, x1);
    let s3 = torch_side_from(s2, w, h, tx, ty, x1, y1 + 1, y2);
    torch_side_from(s3, w, h, tx, ty, x2, y1 + 1, y2)
}

/// The torches from index `i` on: each light source within the grid casts
/// its square of rays, in the order given.
pub open spec fn torches_from(s: Seq<Tile>, w: int, h: int, ts: Seq<(i32, i32)>, i: int) -> Seq<
    Tile,
>
    decreases ts.len() - i,
{
    if i < 0 || i >= ts.len() {
        s
    } else {
        let tx = px_tile(ts[i].0 as int);
        let ty = px_tile(ts[i].1 as int);
        let s1 = if 0 <= tx < w && 0 <= ty < h {
            torch_spec(s, w, h, tx, ty)
        } else {
            s
        };
        torches_from(s1, w, h, ts, i + 1)
    }
}

/// The whole lighting pass: darken everything at or below the surface row,
/// cast the ambient surface rays, then every torch's rays.
pub open spec fn light_pass_spec(s: Seq<Tile>, w: int, h: int, ts: Seq<(i32, i32)>) -> Seq<Tile> {
    torches_from(
        surface_rays_from(darken_from(s, w, h, 0, SURFACE_HEIGHT as int), w, h, 0),
        w,
        h,
        ts,
        0,
    )
}

/// The secondary-axis offset of a ray step stays within the ray's
/// secondary extent.
proof fn lemma_off_bound(p: int, q: int, m: int)
    requires
        q != 0,
        0 <= p <= m * iabs(q),
        0 <= m,
        iabs(p) == p,
    ensures
        iabs(tdiv(p, q)) <= m,
        iabs(tdiv(-p, q)) <= m,
{
    let aq = iabs(q);
    vstd::arithmetic::div_mod::lemma_div_pos_is_pos(p, aq);
    assert(m * aq == aq * m) by (nonlinear_arith);
    vstd::arithmetic::div_mod::lemma_div_is_ordered(p, aq * m, aq);
    vstd::arithmetic::div_mod::lemma_div_multiples_vanish(m, aq);
}

/// Per-step illumination, executable.
fn illum_exec(dx: i32, dy: i32) -> (r: u32)
    requires
        -32768 <= dx <= 32767,
        -32768 <= dy <= 32767,
    ensures
        r as int == ray_illum(dx as int, dy as int),
        r <= LIGHT_FULL,
{
    proof {
        assert(0 <= (dx as i64) * (dx as i64) <= 0x4000_0000 && 0 <= (dy as i64) * (dy as i64)
            <= 0x4000_0000) by (nonlinear_arith)
            requires
                -32768 <= dx <= 32767,
                -32768 <= dy <= 32767,
        ;
    }
    let dxx: i64 = (dx as i64) * (dx as i64);
    let dyy: i64 = (dy as i64) * (dy as i64);
    let q: i64 = 10000i64 / (1 + 10 * (dxx + dyy));
    if q >= LIGHT_FULL as i64 {
        LIGHT_FULL
    } else {
        q as u32
    }
}

impl World {
    /// Casts one light ray from tile `(stx, sty)` toward tile `(dtx, dty)`,
    /// brightening every tile it crosses and stopping at the first Solid
    /// tile (which it still lights) or on leaving the grid.
    pub fn light_ray(&mut self, stx: usize, sty: usize, dtx: usize, dty: usize)
        requires
            old(self)@.wf(),
            old(self)@.in_bounds(stx as int, sty as int),
            old(self)@.in_bounds(dtx as int, dty as int),
        ensures
            final(self)@.wf(),
            same_but_tiles(final(self)@, old(self)@),
            final(self)@.tiles == ray_spec(
                old(self)@.tiles,
                old(self)@.width as int,
                old(self)@.height as int,
                stx as int,
                sty as int,
                dtx as int,
                dty as int,
            ),
    {
        let ghost v0 = self@;
        let ghost w = self@.width as int;
        let ghost h = self@.height as int;

        let dx: i32 = dtx as i32 - stx as i32;
        let dy: i32 = dty as i32 - sty as i32;
        if dx == 0 && dy == 0 {
            return ;
        }
        let adx: i32 = if dx > 0 {
            dx
        } else {
            -dx
        };
        let ady: i32 = if dy > 0 {
            dy
        } else {
            -dy
        };

        if adx > ady {
            let ghost full = ray_from_x(v0.tiles, w, h, stx as int, sty as int, dx as int, dy as int, 0);
            let mut delta: i32 = 0;
            while delta < adx
                invariant_except_break
                    full == ray_from_x(
                        self@.tiles,
                        w,
                        h,
                        stx as int,
                        sty as int,
                        dx as int,
                        dy as int,
                        delta as int,
                    ),
                invariant
                    self@.wf(),
                    same_but_tiles(self@, v0),
                    w == v0.width,
                    h == v0.height,
                    stx < w,
                    sty < h,
                    dx == dtx as int - stx as int,
                    dy == dty as int - sty as int,
                    dx != 0,
                    adx == iabs(dx as int),
                    ady == iabs(dy as int),
                    adx <= 30000,
                    ady <= 30000,
                    0 <= delta <= adx,
                ensures
                    self@.tiles == full,
                decreases adx - delta,
            {
                proof {
                    assert(0 <= (ady as int) * (delta as int) <= (ady as int) * (adx as int)
                        <= 900000000) by (nonlinear_arith)
                        requires
                            0 <= delta <= adx,
                            0 <= ady,
                            adx <= 30000,
                            ady <= 30000,
                    ;
                    assert(iabs((dy * delta) as int) == (ady as int) * (delta as int))
                        by (nonlinear_arith)
                        requires
                            ady == iabs(dy as int),
                            0 <= delta,
                    ;
                    lemma_off_bound(
                        (ady as int) * (delta as int),
                        dx as int,
                        ady as int,
                    );
                }
                let off = tdiv_exec(dy * delta, dx);
                let xx = stx as i32 + (if dx > 0 {
                    delta
                } else {
                    -delta
                });
                let yy = sty as i32 + off;
                if xx < 0 || xx >= self.width as i32 || yy < 0 || yy >= self.height as i32 {
                    break ;
                }
                let t = self.get_tile(xx as usize, yy as usize);
                let lit = illum_exec(delta, off);
                let mut t2 = t;
                if lit > t2.light {
                    t2.light = lit;
                }
                proof {
                    assert(t2 == lit_tile(t, ray_illum(delta as int, off as int)));
                    lemma_idx_in_range(self@, xx as int, yy as int);
                }
                self.set_tile(xx as usize, yy as usize, t2);
                if t.collision == TileCollision::Solid {
                    break ;
                }
                delta += 1;
            }
        } else {
            let ghost full = ray_from_y(v0.tiles, w, h, stx as int, sty as int, dx as int, dy as int, 0);
            let mut delta: i32 = 0;
            while delta < ady
                invariant_except_break
                    full == ray_from_y(
                        self@.tiles,
                        w,
                        h,
                        stx as int,
                        sty as int,
                        dx as int,
                        dy as int,
                        delta as int,
                    ),
                invariant
                    self@.wf(),
                    same_but_tiles(self@, v0),
                    w == v0.width,
                    h == v0.height,
                    stx < w,
                    sty < h,
                    dx == dtx as int - stx as int,
                    dy == dty as int - sty as int,
                    dy != 0,
                    adx == iabs(dx as int),
                    ady == iabs(dy as int),
                    adx <= 30000,
                    ady <= 30000,
                    0 <= delta <= ady,
                ensures
                    self@.tiles == full,
                decreases ady - delta,
            {
                proof {
                    assert(0 <= (adx as int) * (delta as int) <= (adx as int) * (ady as int)
                        <= 900000000) by (nonlinear_arith)
                        requires
                            0 <= delta <= ady,
                            0 <= adx,
                            adx <= 30000,
                            ady <= 30000,
                    ;
                    assert(iabs((dx * delta) as int) == (adx as int) * (delta as int))
                        by (nonlinear_arith)
                        requires
                            adx == iabs(dx as int),
                            0 <= delta,
                    ;
                    lemma_off_bound(
                        (adx as int) * (delta as int),
                        dy as int,
                        adx as int,
                    );
                }
                let off = tdiv_exec(dx * delta, dy);
                let yy = sty as i32 + (if dy > 0 {
                    delta
                } else {
                    -delta
                });
                let xx = stx as i32 + off;
                if xx < 0 || xx >= self.width as i32 || yy < 0 || yy >= self.height as i32 {
                    break ;
                }
                let t = self.get_tile(xx as usize, yy as usize);
                let lit = illum_exec(off, delta);
                let mut t2 = t;
                if lit > t2.light {
                    t2.light = lit;
                }
                proof {
                    assert(t2 == lit_tile(t, ray_illum(off as int, delta as int)));
                    lemma_idx_in_range(self@, xx as int, yy as int);
                }
                self.set_tile(xx as usize, yy as usize, t2);
                if t.collision == TileCollision::Solid {
                    break ;
                }
                delta += 1;
            }
        }
    }

    /// Resets the light of every tile at or below the surface row to zero.
    fn darken(&mut self)
        requires
            old(self)@.wf(),
        ensures
            final(self)@.wf(),
            same_but_tiles(final(self)@, old(self)@),
            final(self)@.tiles == darken_from(
                old(self)@.tiles,
                old(self)@.width as int,
                old(self)@.height as int,
                0,
                SURFACE_HEIGHT as int,
            ),
    {
        let ghost v0 = self@;
        let ghost w = self@.width as int;
        let ghost h = self@.height as int;
        let ghost full = darken_from(v0.tiles, w, h, 0, SURFACE_HEIGHT as int);

        let mut y: usize = SURFACE_HEIGHT as usize;
        while y < self.height
            invariant
                self@.wf(),
                same_but_tiles(self@, v0),
                w == v0.width,
                h == v0.height,
                SURFACE_HEIGHT <= y <= h,
                full == darken_from(self@.tiles, w, h, 0, y as int),
            decreases h - y,
        {
            let mut x: usize = 0;
            while x < self.width
                invariant
                    self@.wf(),
                    same_but_tiles(self@, v0),
                    w == v0.width,
                    h == v0.height,
                    SURFACE_HEIGHT <= y < h,
                    0 <= x <= w,
                    full == darken_from(self@.tiles, w, h, x as int, y as int),
                decreases w - x,
            {
                proof {
                    lemma_idx_in_range(self@, x as int, y as int);
                }
                let t = self.get_tile(x, y);
                let mut t2 = t;
                t2.light = 0;
                self.set_tile(x, y, t2);
                x += 1;
            }
            y += 1;
        }
    }

    /// Casts one short ambient ray down each column from just above the
    /// surface row.
    fn surface_rays(&mut self)
        requires
            old(self)@.wf(),
        ensures
            final(self)@.wf(),
            same_but_tiles(final(self)@, old(self)@),
            final(self)@.tiles == surface_rays_from(
                old(self)@.tiles,
                old(self)@.width as int,
                old(self)@.height as int,
                0,
            ),
    {
        let ghost v0 = self@;
        let ghost w = self@.width as int;
        let ghost h = self@.height as int;
        let ghost full = surface_rays_from(v0.tiles, w, h, 0);

        let sy: usize = (SURFACE_HEIGHT - 1) as usize;
        let dy: usize = (SURFACE_HEIGHT + SURFACE_RAY_DEPTH) as usize;
        let mut x: usize = 0;
        while x < self.width
            invariant
                self@.wf(),
                same_but_tiles(self@, v0),
                w == v0.width,
                h == v0.height,
                sy == SURFACE_HEIGHT - 1,
                dy == SURFACE_HEIGHT + SURFACE_RAY_DEPTH,
                0 <= x <= w,
                full == surface_rays_from(self@.tiles, w, h, x as int),
            decreases w - x,
        {
            self.light_ray(x, sy, x, dy);
            x += 1;
        }
    }

    /// Casts one torch's rays: to every cell on the perimeter of the square
    /// of radius `TORCH_RADIUS` around tile `(tx, ty)`, clamped to the grid.
    fn torch_rays(&mut self, tx: usize, ty: usize)
        requires
            old(self)@.wf(),
            old(self)@.in_bounds(tx as int, ty as int),
        ensures
            final(self)@.wf(),
            same_but_tiles(final(self)@, old(self)@),
            final(self)@.tiles == torch_spec(
                old(self)@.tiles,
                old(self)@.width as int,
                old(self)@.height as int,
                tx as int,
                ty as int,
            ),
    {
        let ghost v0 = self@;
        let ghost w = self@.width as int;
        let ghost h = self@.height as int;

        let r: usize = TORCH_RADIUS as usize;
        let x1: usize = if tx >= r {
            tx - r
        } else {
            0
        };
        let y1: usize = if ty >= r {
            ty - r
        } else {
            0
        };
        let x2: usize = if tx + r <= self.width - 1 {
            tx + r
        } else {
            self.width - 1
        };
        let y2: usize = if ty + r <= self.height - 1 {
            ty + r
        } else {
            self.height - 1
        };

        let ghost s0 = self@.tiles;
        let ghost full_top = torch_top_from(s0, w, h, tx as int, ty as int, y1 as int, x1 as int, x2 as int);

        let mut x: usize = x1;
        while x <= x2
            invariant
                self@.wf(),
                same_but_tiles(self@, v0),
                w == v0.width,
                h == v0.height,
                tx < w,
                ty < h,
                x1 <= x <= x2 + 1,
                x2 < w,
                y1 < h,
                full_top == torch_top_from(
                    self@.tiles,
                    w,
                    h,
                    tx as int,
                    ty as int,
                    y1 as int,
                    x as int,
                    x2 as int,
                ),
            decreases x2 + 1 - x,
        {
            self.light_ray(tx, ty, x, y1);
            x += 1;
        }

        let ghost s1 = self@.tiles;
        let ghost full_bot = torch_bottom_from(s1, w, h, tx as int, ty as int, y2 as int, x2 as int, x1 as int);

        let mut x: usize = x2;
        loop
            invariant_except_break
                full_bot == torch_bottom_from(
                    self@.tiles,
                    w,
                    h,
                    tx as int,
                    ty as int,
                    y2 as int,
                    x as int,
                    x1 as int,
                ),
            invariant
                self@.wf(),
                same_but_tiles(self@, v0),
                w == v0.width,
                h == v0.height,
                tx < w,
                ty < h,
                x1 <= x <= x2,
                x2 < w,
                y2 < h,
            ensures
                self@.tiles == full_bot,
            decreases x,
        {
            self.light_ray(tx, ty, x, y2);
            proof {
                assert(full_bot == torch_bottom_from(
                    self@.tiles,
                    w,
                    h,
                    tx as int,
                    ty as int,
                    y2 as int,
                    x as int - 1,
                    x1 as int,
                ));
            }
            if x == x1 {
                break ;
            }
            x -= 1;
        }

        let ghost s2 = self@.tiles;
        let ghost full_left = torch_side_from(s2, w, h, tx as int, ty as int, x1 as int, y1 as int + 1, y2 as int);

        let mut y: usize = y1 + 1;
        while y < y2
            invariant
                self@.wf(),
                same_but_tiles(self@, v0),
                w == v0.width,
                h == v0.height,
                tx < w,
                ty < h,
                x1 < w,
                y1 + 1 <= y <= y2 || (y == y1 + 1 && y > y2),
                y2 < h,
                full_left == torch_side_from(
                    self@.tiles,
                    w,
                    h,
                    tx as int,
                    ty as int,
                    x1 as int,
                    y as int,
                    y2 as int,
                ),
            decreases y2 as int - y as int,
        {
            self.light_ray(tx, ty, x1, y);
            y += 1;
        }

        let ghost s3 = self@.tiles;
        let ghost full_right = torch_side_from(s3, w, h, tx as int, ty as int, x2 as int, y1 as int + 1, y2 as int);

        let mut y: usize = y1 + 1;
        while y < y2
            invariant
                self@.wf(),
                same_but_tiles(self@, v0),
                w == v0.width,
                h == v0.height,
                tx < w,
                ty < h,
                x2 < w,
                y1 + 1 <= y <= y2 || (y == y1 + 1 && y > y2),
                y2 < h,
                full_right == torch_side_from(
                    self@.tiles,
                    w,
                    h,
                    tx as int,
                    ty as int,
                    x2 as int,
                    y as int,
                    y2 as int,
                ),
            decreases y2 as int - y as int,
        {
            self.light_ray(tx, ty, x2, y);
            y += 1;
        }
    }

    /// Recomputes the whole light field from the surface line and the given
    /// torch positions (pixel coordinates), and clears the dirty flag.
    pub fn light_pass(&mut self, torches: &Vec<(i32, i32)>)
        requires
            old(self)@.wf(),
            forall|i: int|
                0 <= i < torches@.len() ==> {
                    &&& -QUERY_LIMIT <= (#[trigger] torches@[i]).0 <= QUERY_LIMIT
                    &&& -QUERY_LIMIT <= torches@[i].1 <= QUERY_LIMIT
                },
        ensures
            final(self)@.wf(),
            final(self)@ == (WorldView {
                tiles: light_pass_spec(
                    old(self)@.tiles,
                    old(self)@.width as int,
                    old(self)@.height as int,
                    torches@,
                ),
                light_dirty: false,
                ..old(self)@
            }),
    {
        let ghost v0 = self@;
        let ghost w = self@.width as int;
        let ghost h = self@.height as int;

        self.darken();
        self.surface_rays();

        let ghost full = torches_from(self@.tiles, w, h, torches@, 0);
        let mut i: usize = 0;
        while i < torches.len()
            invariant
                self@.wf(),
                same_but_tiles(self@, v0),
                w == v0.width,
                h == v0.height,
                0 <= i <= torches@.len(),
                forall|k: int|
                    0 <= k < torches@.len() ==> {
                        &&& -QUERY_LIMIT <= (#[trigger] torches@[k]).0 <= QUERY_LIMIT
                        &&& -QUERY_LIMIT <= torches@[k].1 <= QUERY_LIMIT
                    },
                full == torches_from(self@.tiles, w, h, torches@, i as int),
            decreases torches@.len() - i,
        {
            let px = torches[i].0;
            let py = torches[i].1;
            match self.get_tile_coords(px, py) {
                Some(tc) => {
                    self.torch_rays(tc.0, tc.1);
                },
                None => {},
            }
            i += 1;
        }
        self.light_dirty = false;
    }
}

} // verus!
