//! An in-process entity-component store.
//!
//! Components are values of arbitrary `'static` types attached to rows of a
//! table. Every registered component type owns one bit of a 32-bit mask; a
//! row's mask records which component types the row currently carries, and a
//! query selects the rows whose mask covers a filter mask. A separate store
//! keeps at most one resource per type, independent of any row.

pub mod bitmask;
pub mod component;
pub mod ecs_errors;
pub mod entities;
pub mod entity_storage;
pub mod laws;
pub mod resource_storage;
pub mod resources;
pub mod table;
pub mod type_key;
pub mod world;

pub use world::World;
