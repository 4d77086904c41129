//! A tile-based mining/platformer world simulation: a destructible 2D grid
//! in which structural support decays and collapses, light propagates from
//! the surface line and placed torches, and hostile agents navigate toward
//! the player through an incrementally converged distance field.
//!
//! The world is a flat row-major array of [`tile::Tile`] values owned by
//! [`world::World`]. Each simulation tick runs one call of `World::update`:
//! the support/collapse pass, the lighting recompute when marked dirty, and
//! the navigation-field sweeps. Entities interact through the collision
//! queries, the swept movement resolver, and the mutation API (`mine`,
//! `place_support`).

pub mod collision;
pub mod light;
pub mod nav;
pub mod rng;
pub mod support;
pub mod tile;
pub mod update;
pub mod util;
pub mod world;

pub use tile::DemonAction;
pub use tile::Tile;
pub use tile::TileCollision;
pub use tile::TileType;
pub use world::World;
