//! A minimal entity-component-system (ECS) runtime.
//!
//! The crate provides a type-erased data store for heterogeneous per-entity
//! data.  Component kinds are registered up front, entities are rows appended
//! to one column per kind, and systems — update routines identified by a
//! scheduling enum — run once per tick in registration order, reading and
//! mutating component columns through a dynamically checked borrow gateway.

pub mod components;
pub mod context;
pub mod ecs;
pub mod loader;
pub mod systems;
pub mod util;

pub use components::{Collider, CompVal, Component, Follow, Health, HealthMod, Kind, Player, Pos,
    Push, Spr, Vel, KIND_COUNT};
