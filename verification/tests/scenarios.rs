//! End-to-end scenarios of the simulation engine: collapse, navigation,
//! lighting, and mining, each on a hand-built world.

use repercussion::tile::{DemonAction, Tile, TileCollision, TileType};
use repercussion::world::World;

/// An unsupported Ground tile over an Empty cell collapses in one tick:
/// the cell becomes Cave and the tile below holds the fallen tile with a
/// full tile edge of pending drop.
#[test]
fn collapse_of_unsupported_tile() {
    let mut w = World::new(12, 13, 7);
    // Isolate (5, 10): Empty below, Empty on both sides.
    w.set_tile(5, 11, Tile::cave());
    w.set_tile(4, 10, Tile::cave());
    w.set_tile(6, 10, Tile::cave());
    assert_eq!(w.get_tile(5, 10).tile_type, TileType::Ground);

    w.update(&vec![], 40, 40, 24, 24);

    assert_eq!(w.get_tile(5, 10).tile_type, TileType::Cave);
    let fallen = w.get_tile(5, 11);
    assert_eq!(fallen.tile_type, TileType::Ground);
    assert_eq!(fallen.fall_state, -32);
}

/// A 5x5 open region walled by Solid tiles, player at its center: one
/// update converges and the region corner reads the Manhattan distance.
#[test]
fn navigation_converges_in_walled_region() {
    let mut w = World::new(11, 11, 3);
    for y in 0..11 {
        for x in 0..11 {
            w.set_tile(x, y, Tile::ground(false));
        }
    }
    for y in 3..8 {
        for x in 3..8 {
            w.set_tile(x, y, Tile::cave());
        }
    }
    // Player rectangle centered in tile (5, 5), the region's own center.
    w.update(&vec![], 5 * 32 + 4, 5 * 32 + 4, 24, 24);

    assert!(w.nav_converged);
    assert_eq!(w.get_tile(5, 5).nav_value, 0);
    assert_eq!(w.get_tile(3, 3).nav_value, 4);
    assert_eq!(w.get_tile(4, 5).nav_value, 1);
    // The tile left of the player walks right, toward it.
    assert_eq!(
        w.get_demon_policy(4 * 32 + 16, 5 * 32 + 16),
        Some(DemonAction::MoveRight)
    );
    // A Solid tile has no path.
    assert_eq!(w.get_demon_policy(1 * 32 + 16, 1 * 32 + 16), None);
    // Out of bounds has no path.
    assert_eq!(w.get_demon_policy(-5, -5), None);
}

/// A torch lights its own tile fully and the next tile along a clear ray
/// at 1/1.1, in thousandths.
#[test]
fn torch_lights_neighbors() {
    let mut w = World::new(12, 12, 9);
    w.set_tile(5, 5, Tile::cave());
    w.set_tile(6, 5, Tile::cave());
    w.set_tile(5, 6, Tile::cave());

    let torches = vec![(5 * 32 + 16, 5 * 32 + 16)];
    w.update(&torches, 40, 40, 24, 24);

    assert_eq!(w.get_tile(5, 5).light, 1000);
    assert_eq!(w.get_tile(6, 5).light, 909);
    // Two tiles down the ray reaches the Solid tile at (5, 7), lights it
    // at 1/4.1, and stops there.
    assert_eq!(w.get_tile(5, 7).light, 243);
}

/// A Ground tile with full health takes exactly sixteen strikes of two
/// points each; the sixteenth converts it to Cave and yields the gem
/// exactly once; the seventeenth is a no-op.
#[test]
fn mining_takes_sixteen_strikes() {
    let mut w = World::new(12, 12, 5);
    w.set_tile(3, 8, Tile::ground(true));

    let px = 3 * 32;
    let py = 8 * 32;
    for hit in 1..=15 {
        let r = w.mine(px, py, 0, 0);
        assert_eq!(r, None);
        assert_eq!(w.get_tile(3, 8).health, 32 - 2 * hit);
        assert_eq!(w.get_tile(3, 8).tile_type, TileType::Ground);
    }
    let r = w.mine(px, py, 0, 0);
    assert_eq!(r, Some((3 * 32 + 16, 8 * 32 + 16)));
    assert_eq!(w.get_tile(3, 8).tile_type, TileType::Cave);
    assert!(w.light_dirty);
    assert!(w.nav_dirty);

    // Once converted, further strikes change nothing and yield nothing.
    let cave = w.get_tile(3, 8);
    for _ in 0..5 {
        assert_eq!(w.mine(px, py, 0, 0), None);
    }
    let after = w.get_tile(3, 8);
    assert_eq!(after.tile_type, cave.tile_type);
    assert_eq!(after.health, cave.health);
    assert_eq!(after.has_gem, false);
}

/// A statically stable fresh world never collapses: repeated updates leave
/// every tile's collision as it was and emit no camera shake.
#[test]
fn stable_world_never_collapses() {
    let mut w = World::new(14, 14, 11);
    let before: Vec<TileCollision> = (0..14 * 14)
        .map(|i| w.get_tile(i % 14, i / 14).collision)
        .collect();
    for _ in 0..3 {
        let jolt = w.update(&vec![], 40, 40, 24, 24);
        assert_eq!(jolt, 0);
    }
    for i in 0..14 * 14 {
        assert_eq!(w.get_tile(i % 14, i / 14).collision, before[i]);
    }
}

/// The support recomputation formula: a tile held only by a half-health
/// left neighbor of full strength keeps exactly that neighbor's strength
/// scaled by health, minus the lateral decay.
#[test]
fn support_scales_with_neighbor_health() {
    let mut w = World::new(12, 12, 13);
    let mut weak_left = Tile::ground(false);
    weak_left.health = 16;
    w.set_tile(3, 8, weak_left);
    w.set_tile(5, 8, Tile::cave());
    w.set_tile(4, 9, Tile::cave());

    w.update(&vec![], 40, 40, 24, 24);

    // 4000 * 16/32 - 1000 = 1000; with one supporting neighbor the check
    // reads 1000 + 400 > 1000, so the tile holds and stores 1000.
    assert_eq!(w.get_tile(4, 8).tile_type, TileType::Ground);
    assert_eq!(w.get_tile(4, 8).support, 1000);
}
