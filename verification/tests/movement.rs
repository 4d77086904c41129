//! The collision queries and the swept movement resolver.

use repercussion::tile::{Tile, TileType};
use repercussion::world::World;

/// A world that is solid everywhere except a 5x5 carved region at tiles
/// (3..8, 3..8).
fn walled_world() -> World {
    let mut w = World::new(11, 11, 3);
    for y in 0..11 {
        for x in 0..11 {
            w.set_tile(x, y, Tile::ground(false));
        }
    }
    for y in 3..8 {
        for x in 3..8 {
            w.set_tile(x, y, Tile::cave());
        }
    }
    w
}

#[test]
fn colliding_fails_closed_out_of_bounds() {
    let w = walled_world();
    assert!(w.colliding(-40, -40, 24, 24));
    assert!(w.colliding(2000, 2000, 24, 24));
    // Inside the carved region: free.
    assert!(!w.colliding(3 * 32, 3 * 32, 24, 24));
    // Inside a wall: colliding.
    assert!(w.colliding(0, 0, 24, 24));
}

#[test]
fn in_support_fails_open_out_of_bounds() {
    let mut w = walled_world();
    assert!(!w.in_support(-40, -40, 24, 24));
    w.set_tile(5, 6, Tile::support());
    assert!(w.in_support(5 * 32 + 4, 6 * 32 + 4, 24, 24));
    assert!(!w.in_support(3 * 32, 3 * 32, 24, 24));
}

#[test]
fn falling_stops_on_floor() {
    let w = walled_world();
    // Falling from the region's top: the floor row is 8, so the rectangle
    // bottom stops at pixel 255.
    assert_eq!(w.checked_move(96, 96, 24, 24, 0, 1000, false), (96, 232));
    // Moving up is blocked by the ceiling row immediately.
    assert_eq!(w.checked_move(96, 96, 24, 24, 0, -1000, false), (96, 96));
}

#[test]
fn walking_stops_at_wall() {
    let w = walled_world();
    // On the floor, walking right stops against the wall at column 8.
    assert_eq!(w.checked_move(96, 232, 24, 24, 1000, 0, false), (232, 232));
    // Displacement never exceeds the requested velocity.
    assert_eq!(w.checked_move(96, 232, 24, 24, 5, 0, false), (101, 232));
    assert_eq!(w.checked_move(96, 232, 24, 24, -1000, 0, false), (96, 232));
}

#[test]
fn support_is_one_way() {
    let mut w = walled_world();
    w.set_tile(5, 6, Tile::support());
    // Falling without descend lands on top of the support platform.
    assert_eq!(w.checked_move(164, 100, 24, 24, 0, 1000, false), (164, 168));
    // With descend the actor drops through to the floor.
    assert_eq!(w.checked_move(164, 100, 24, 24, 0, 1000, true), (164, 232));
    // Starting inside the support is no obstacle to falling further.
    assert_eq!(w.checked_move(164, 180, 24, 24, 0, 1000, false), (164, 232));
}

#[test]
fn tile_queries_convert_pixels() {
    let w = walled_world();
    assert_eq!(w.get_tile_coords(33, 5), Some((1, 0)));
    assert_eq!(w.get_tile_coords(-1, 5), None);
    assert_eq!(w.get_tile_coords(11 * 32, 5), None);
    assert_eq!(w.get_tile_center(100, 200, 24, 24), (3 * 32 + 16, 6 * 32 + 16));
    assert_eq!(w.get_pixel_width(), 11 * 32);
    assert_eq!(w.get_pixel_height(), 11 * 32);
}

#[test]
fn place_support_rules() {
    let mut w = walled_world();
    // Tag the target tile with navigation and light context first.
    let mut t = Tile::cave();
    t.nav_value = 7;
    t.light = 345;
    w.set_tile(5, 6, t);
    // Above the surface row: refused, even where Empty.
    let mut sky = World::new(12, 12, 1);
    assert!(!sky.place_support(2 * 32, 2 * 32));
    // Out of bounds: refused.
    assert!(!w.place_support(-50, -50));
    // On a Solid tile: refused.
    assert!(!w.place_support(1 * 32, 9 * 32));
    // On an Empty tile at or below the surface row: placed, and the tile
    // keeps its navigation and light context.
    assert!(w.place_support(5 * 32, 6 * 32));
    let placed = w.get_tile(5, 6);
    assert_eq!(placed.tile_type, TileType::SupportPlaced);
    assert_eq!(placed.nav_value, 7);
    assert_eq!(placed.light, 345);
    assert_eq!(placed.support, 4000);
    // The same cell cannot take a second strut.
    assert!(!w.place_support(5 * 32, 6 * 32));
}

#[test]
fn mine_rejects_unminable_targets() {
    let mut w = World::new(12, 12, 2);
    // Sky is not minable.
    assert_eq!(w.mine(2 * 32, 2 * 32, 0, 0), None);
    assert_eq!(w.get_tile(2, 2).tile_type, TileType::Sky);
    // The bottom row is not minable.
    assert_eq!(w.mine(2 * 32, 11 * 32, 0, 0), None);
    assert_eq!(w.get_tile(2, 11).tile_type, TileType::Bottom);
    // Out of bounds is a no-op.
    assert_eq!(w.mine(-500, -500, 0, 0), None);
    // The offset aims the strike at a neighboring tile.
    assert_eq!(w.mine(2 * 32, 7 * 32, 0, 1), None);
    assert_eq!(w.get_tile(2, 8).health, 30);
    assert_eq!(w.get_tile(2, 7).health, 32);
}

#[test]
fn get_light_reads_tiles_and_fails_open() {
    let mut w = World::new(12, 12, 2);
    assert_eq!(w.get_light(-10, -10), 1000);
    let mut t = Tile::cave();
    t.light = 222;
    w.set_tile(4, 7, t);
    assert_eq!(w.get_light(4 * 32 + 3, 7 * 32 + 3), 222);
    // Sky starts fully lit.
    assert_eq!(w.get_light(2 * 32, 2 * 32), 1000);
}
