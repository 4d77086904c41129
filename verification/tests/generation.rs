//! World generation, cave carving, and the small pure helpers.

use repercussion::tile::{DemonAction, TileType};
use repercussion::util::{div_floor, intersect_rect, tdiv_exec};
use repercussion::world::World;

#[test]
fn generated_world_has_its_bands() {
    let w = World::new(12, 30, 42);
    for x in 0..12 {
        for y in 0..5 {
            assert_eq!(w.get_tile(x, y).tile_type, TileType::Sky);
            assert_eq!(w.get_tile(x, y).light, 1000);
        }
        assert_eq!(w.get_tile(x, 5).tile_type, TileType::Surface);
        assert_eq!(w.get_tile(x, 29).tile_type, TileType::Bottom);
        for y in 6..29 {
            assert_eq!(w.get_tile(x, y).tile_type, TileType::Ground);
            assert_eq!(w.get_tile(x, y).health, 32);
            assert_eq!(w.get_tile(x, y).support, 4000);
        }
    }
}

#[test]
fn same_seed_generates_same_world() {
    let a = World::new(13, 30, 77);
    let b = World::new(13, 30, 77);
    for y in 0..30 {
        for x in 0..13 {
            assert_eq!(a.get_tile(x, y).has_gem, b.get_tile(x, y).has_gem);
        }
    }
}

#[test]
fn caves_are_carved_below_surface() {
    let mut w = World::new(20, 60, 123);
    let (phil, demons, gems) = w.add_caves();

    // The surface band and the bottom row are untouched.
    for x in 0..20 {
        for y in 0..5 {
            assert_eq!(w.get_tile(x, y).tile_type, TileType::Sky);
        }
        assert_eq!(w.get_tile(x, 5).tile_type, TileType::Surface);
        assert_eq!(w.get_tile(x, 59).tile_type, TileType::Bottom);
    }
    // Something was carved, only into Cave or CaveCeiling, and only inside
    // the carvable band of rows 17 through height - 5.
    let mut carved = 0;
    for y in 6..59 {
        for x in 0..20 {
            let t = w.get_tile(x, y).tile_type;
            if t == TileType::Cave || t == TileType::CaveCeiling {
                assert!(17 <= y && y <= 55);
                carved += 1;
            } else {
                assert_eq!(t, TileType::Ground);
            }
        }
    }
    assert!(carved > 0);

    // Every reported spawn sits at the pixel center of a carved tile.
    let pw = 20 * 32;
    let ph = 60 * 32;
    let is_carved = |w: &World, x: i32, y: i32| {
        let t = w.get_tile((x / 32) as usize, (y / 32) as usize).tile_type;
        t == TileType::Cave || t == TileType::CaveCeiling
    };
    for &(x, y) in demons.iter() {
        assert!(0 <= x && x < pw && 0 <= y && y < ph);
        assert_eq!(x % 32, 16);
        assert_eq!(y % 32, 16);
        assert!(is_carved(&w, x, y));
    }
    for &(rare, (x, y)) in gems.iter() {
        assert!(0 <= x && x < pw && 0 <= y && y < ph);
        assert_eq!(x % 32, 16);
        assert_eq!(y % 32, 16);
        assert!(is_carved(&w, x, y));
        // A rare-flagged gem means its cavern also spawned a hostile.
        if rare {
            assert!(!demons.is_empty());
        }
    }
    // The goal point is always the center of a carved cell in the band:
    // every draw carves, so it is never the (0, 0) placeholder.
    let (px, py) = phil;
    assert_ne!((px, py), (0, 0));
    assert!(px % 32 == 16 && py % 32 == 16 && px < pw && py < ph);
    assert!(17 * 32 <= py && py <= 55 * 32 + 31);
    assert!(is_carved(&w, px, py));
}

#[test]
fn demon_actions_cycle_and_shift() {
    let all = DemonAction::iter();
    assert_eq!(all.len(), 4);
    assert_eq!(all[0], DemonAction::MoveUp);
    assert_eq!(all[1], DemonAction::MoveDown);
    assert_eq!(all[2], DemonAction::MoveLeft);
    assert_eq!(all[3], DemonAction::MoveRight);
    assert_eq!(DemonAction::MoveUp.get_shift(), (0, -1));
    assert_eq!(DemonAction::MoveDown.get_shift(), (0, 1));
    assert_eq!(DemonAction::MoveLeft.get_shift(), (-1, 0));
    assert_eq!(DemonAction::MoveRight.get_shift(), (1, 0));
}

#[test]
fn rectangle_intersection() {
    assert!(intersect_rect(0, 0, 10, 10, 5, 5, 10, 10));
    assert!(!intersect_rect(0, 0, 10, 10, 10, 0, 10, 10));
    assert!(!intersect_rect(0, 0, 10, 10, 0, 10, 10, 10));
    assert!(intersect_rect(-5, -5, 10, 10, 0, 0, 1, 1));
}

#[test]
fn division_helpers_round_as_documented() {
    assert_eq!(div_floor(64, 32), 2);
    assert_eq!(div_floor(-1, 32), -1);
    assert_eq!(div_floor(-64, 32), -2);
    assert_eq!(div_floor(-65, 32), -3);
    assert_eq!(div_floor(31, 32), 0);
    assert_eq!(tdiv_exec(7, 2), 3);
    assert_eq!(tdiv_exec(-7, 2), -3);
    assert_eq!(tdiv_exec(7, -2), -3);
    assert_eq!(tdiv_exec(-7, -2), 3);
}
