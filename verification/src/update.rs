//! The per-tick `update` entry point: the support/collapse pass, then the
//! lighting recompute when marked dirty, then the navigation field, which
//! is restarted or resumed toward the player's current tile.

use vstd::prelude::*;
use crate::tile::{TILE_SIZE, MAX_ITERATIONS};
use crate::world::{World, WorldView, same_but_tiles};
use crate::support::support_pass_spec;
use crate::light::light_pass_spec;
use crate::nav::{nav_update_spec, nav_iterate, player_tile_of};
use crate::collision::{COORD_LIMIT, SIZE_LIMIT, QUERY_LIMIT};
use crate::util::div_floor;

verus! {

/// What one `update` call does: the support/collapse pass (which may mark
/// the derived fields dirty), the lighting recompute if light is dirty, and
/// the navigation recompute toward the player's tile. Yields the world
/// afterwards and the camera-shake magnitude of the tick.
pub open spec fn update_spec(
    v: WorldView,
    torches: Seq<(i32, i32)>,
    px: int,
    py: int,
    pw: int,
    ph: int,
) -> (WorldView, int) {
    let w = v.width as int;
    let h = v.height as int;
    let (s1, j, c) = support_pass_spec(v.tiles, w, h);
    let v1 = WorldView {
        tiles: s1,
        light_dirty: v.light_dirty || c,
        nav_dirty: v.nav_dirty || c,
        ..v
    };
    let v2 = if v1.light_dirty {
        WorldView { tiles: light_pass_spec(v1.tiles, w, h, torches), light_dirty: false, ..v1 }
    } else {
        v1
    };
    let pt = player_tile_of(v2, px, py, pw, ph);
    (nav_update_spec(v2, pt.0, pt.1), j)
}

impl World {
    /// Runs one simulation tick: the support/collapse pass bottom-to-top,
    /// the lighting recompute if marked dirty, and the navigation field
    /// toward the tile holding the center of the player rectangle
    /// `(player_x, player_y, player_w, player_h)`. `torches` are the active
    /// light-source pixel positions. Returns the largest camera-shake
    /// magnitude any falling tile emitted this tick.
    pub fn update(
        &mut self,
        torches: &Vec<(i32, i32)>,
        player_x: i32,
        player_y: i32,
        player_w: i32,
        player_h: i32,
    ) -> (jolt: u32)
        requires
            old(self)@.wf(),
            -COORD_LIMIT <= player_x <= COORD_LIMIT,
            -COORD_LIMIT <= player_y <= COORD_LIMIT,
            0 <= player_w <= SIZE_LIMIT,
            0 <= player_h <= SIZE_LIMIT,
            forall|i: int|
                0 <= i < torches@.len() ==> {
                    &&& -QUERY_LIMIT <= (#[trigger] torches@[i]).0 <= QUERY_LIMIT
                    &&& -QUERY_LIMIT <= torches@[i].1 <= QUERY_LIMIT
                },
        ensures
            final(self)@.wf(),
            ({
                let (v2, j) = update_spec(
                    old(self)@,
                    torches@,
                    player_x as int,
                    player_y as int,
                    player_w as int,
                    player_h as int,
                );
                final(self)@ == v2 && jolt as int == j
            }),
    {
        let jolt = self.support_pass();

        if self.light_dirty {
            self.light_pass(torches);
        }

        let ghost v2 = self@;

        let px = div_floor(player_x + player_w / 2, TILE_SIZE);
        let py = div_floor(player_y + player_h / 2, TILE_SIZE);
        let (ptx, pty): (usize, usize) = if px < 0 || px >= self.width as i32 || py < 0 || py
            >= self.height as i32 {
            (0, 0)
        } else {
            (px as usize, py as usize)
        };
        proof {
            assert((ptx as int, pty as int) == player_tile_of(
                v2,
                player_x as int,
                player_y as int,
                player_w as int,
                player_h as int,
            ));
        }

        if self.nav_converged && !self.nav_dirty && ptx == self.old_player_tx && pty
            == self.old_player_ty {
            return jolt;
        }
        self.old_player_tx = ptx;
        self.old_player_ty = pty;

        if self.nav_converged {
            self.nav_reset_exec(ptx, pty);
        }

        let ghost w = self@.width as int;
        let ghost h = self@.height as int;
        let ghost full_nav = nav_iterate(
            self@.tiles,
            w,
            h,
            ptx as int,
            pty as int,
            MAX_ITERATIONS as nat,
        );

        let ghost v3 = self@;
        let mut converged = false;
        let mut budget: u32 = MAX_ITERATIONS;
        while budget > 0
            invariant_except_break
                !converged,
                full_nav == nav_iterate(self@.tiles, w, h, ptx as int, pty as int, budget as nat),
            invariant
                self@.wf(),
                same_but_tiles(self@, v3),
                w == v3.width,
                h == v3.height,
                budget <= MAX_ITERATIONS,
            ensures
                full_nav.0 == self@.tiles,
                full_nav.1 == converged,
            decreases budget,
        {
            let c = self.nav_sweep(ptx, pty);
            if !c {
                converged = true;
                break ;
            }
            budget -= 1;
        }

        self.nav_converged = converged;
        self.nav_dirty = false;
        jolt
    }
}

} // verus!
