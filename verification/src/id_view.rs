//! A handle on one identifier of a world.

use vstd::prelude::*;
use crate::entity_view::EntityView;
use crate::id::{ecs_first, ecs_is_pair, ecs_is_wild, ecs_second, Entity};
use crate::world::World;

verus! {

/// An identifier together with the world it belongs to. The identifier may
/// be a plain id or a pair.
#[derive(Clone, Copy)]
pub struct IdView<'a> {
    pub world: &'a World,
    pub id: u64,
}

impl<'a> IdView<'a> {
    /// Wraps an identifier of `world`.
    pub fn new_from(world: &'a World, id: u64) -> (v: Self)
        ensures
            v.world == world,
            v.id == id,
    {
        IdView { world, id }
    }

    /// The raw identifier.
    pub fn id(&self) -> (id: u64)
        ensures
            id == self.id,
    {
        self.id
    }

    /// Whether the identifier holds a pair.
    pub fn is_pair(&self) -> (r: bool)
        ensures
            r == crate::id::is_pair_spec(self.id),
    {
        ecs_is_pair(self.id)
    }

    /// Whether the identifier is a wildcard or holds one.
    pub fn is_wildcard(&self) -> (r: bool)
        ensures
            r == (crate::id::is_wild_spec(self.id) || (crate::id::is_pair_spec(self.id) && (
            crate::id::is_wild_spec(crate::id::first_spec(self.id)) || crate::id::is_wild_spec(
                crate::id::second_spec(self.id),
            )))),
    {
        ecs_is_wild(self.id) || (ecs_is_pair(self.id) && (ecs_is_wild(ecs_first(self.id))
            || ecs_is_wild(ecs_second(self.id))))
    }

    /// The first element of the pair, as an entity of the same world.
    pub fn first_id(&self) -> (e: EntityView<'a>)
        ensures
            e.world == self.world,
            e.id.0 == crate::id::first_spec(self.id),
    {
        EntityView { world: self.world, id: Entity(ecs_first(self.id)) }
    }

    /// The second element of the pair, as an entity of the same world.
    pub fn second_id(&self) -> (e: EntityView<'a>)
        ensures
            e.world == self.world,
            e.id.0 == crate::id::second_spec(self.id),
    {
        EntityView { world: self.world, id: Entity(ecs_second(self.id)) }
    }

    /// The identifier as an entity of the same world.
    pub fn entity_view(&self) -> (e: EntityView<'a>)
        ensures
            e.world == self.world,
            e.id.0 == self.id,
    {
        EntityView { world: self.world, id: Entity(self.id) }
    }
}

} // verus!
