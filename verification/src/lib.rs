//! A typed access layer over an identifier-based entity-component world.
//!
//! Entities and components are 64-bit identifiers, component values are
//! untyped byte blocks, and relationships are pairs of identifiers packed
//! into one. The world is explicit state owned by the caller; handles borrow
//! it and turn typed requests into operations on identifiers.
//!
//! - `id` packs pairs and matches ids against patterns with wildcards.
//! - `component` and `registry` give static types their identifiers, once
//!   for each world.
//! - `world` holds the entities; `state` is its mathematical model, which
//!   every contract speaks of.
//! - `entity_view` reads through a handle; `entity_view_mut` writes and
//!   tells the observers.
//! - `observer`, `observer_builder` and `query` build and keep what reacts
//!   to events and walks matching entities; `callback` keeps closures of
//!   any shape behind one type.
//! - `iter` and `table_iter` are what a callback is run on: batches of
//!   rows, their columns, and the cursor that reads and writes one row.

pub mod callback;
pub mod component;
pub mod component_id_fetcher;
pub mod entity_event;
pub mod entity_observe;
pub mod entity_view;
pub mod entity_view_mut;
pub mod filter_builder;
pub mod flecs;
pub mod id;
pub mod id_view;
pub mod iter;
pub mod lemmas;
pub mod matching;
pub mod observer;
pub mod observer_builder;
pub mod path;
pub mod query;
pub mod registry;
pub mod state;
pub mod table;
pub mod table_iter;
pub mod term;
pub mod text;
mod type_key;
pub mod world;

pub use component::{ComponentId, ComponentInfo, EnumConstant};
pub use component_id_fetcher::{ComponentIdFetcher, ExternalComponent, FlecsComponent};
pub use entity_view::EntityView;
pub use id::Entity;
pub use id_view::IdView;
pub use observer::Observers;
pub use observer_builder::{BuildError, ObserverBuilder, ObserverBuilderImpl};
pub use query::{Query, QueryBuilder, System};
pub use table::{Archetype, Table, TableRange};
pub use world::World;
