//! Component identifiers for types with and without a static description.
//!
//! A value of `ComponentIdFetcher<T>` stands for the type `T`. A call of
//! `deref_id` on a reference to a reference to it picks, by the rules of
//! method lookup, the registry when `T` has a static description, and else
//! registers `T` by the identity of the type, which is slower.

use vstd::prelude::*;
use crate::component::{ComponentId, ComponentInfo};
use core::any::TypeId;
use crate::type_key::type_id_of;
use crate::world::World;

verus! {

/// Stands for the type `T` where a component identifier is asked for.
pub struct ComponentIdFetcher<T> {
    pub phantom: core::marker::PhantomData<T>,
}

/// Components with a static description.
pub trait FlecsComponent {
    /// The identifier of the component in `world`, registered on first use;
    /// 0 when the description is ill formed, the world has no room for it,
    /// or its key is taken by a component with another description.
    fn deref_id(&self, world: &mut World) -> (id: u64)
        requires
            old(world).wf(),
        ensures
            final(world).wf(),
    ;
}

/// Components without a static description.
pub trait ExternalComponent {
    /// The identifier of the component in `world`, registered on first use;
    /// 0 when the world has no room for it.
    fn deref_id(&self, world: &mut World) -> (id: u64)
        requires
            old(world).wf(),
        ensures
            final(world).wf(),
    ;
}

impl<T: ComponentId> FlecsComponent for &ComponentIdFetcher<T> {
    fn deref_id(&self, world: &mut World) -> (id: u64)
        ensures
            old(world)@.described_outcome(ComponentInfo::describe::<T>(), id, final(world)@),
    {
        let info = ComponentInfo::of::<T>();
        if info.is_well_formed() && world.can_register(&info) {
            world.register(info)
        } else {
            0
        }
    }
}

impl<T: 'static> ExternalComponent for &&ComponentIdFetcher<T> {
    fn deref_id(&self, world: &mut World) -> (id: u64)
        ensures
            exists|key: TypeId| #[trigger]
                old(world)@.external_outcome(
                    key,
                    vstd::layout::size_of::<T>() as usize,
                    vstd::layout::align_of::<T>() as usize,
                    id,
                    final(world)@,
                ),
    {
        let key = type_id_of::<T>();
        let size: usize = core::mem::size_of::<T>();
        let alignment: usize = core::mem::align_of::<T>();
        let id: u64 = external_register_component(world, key, size, alignment);
        assert(size == vstd::layout::size_of::<T>() as usize);
        assert(alignment == vstd::layout::align_of::<T>() as usize);
        assert(old(world)@.external_outcome(
            key,
            vstd::layout::size_of::<T>() as usize,
            vstd::layout::align_of::<T>() as usize,
            id,
            world@,
        ));
        id
    }
}

/// Registers a component by the identity of its type, unless the world has
/// no room for it: then nothing changes and the identifier is 0.
pub fn external_register_component(world: &mut World, key: TypeId, size: usize, alignment: usize) -> (id: u64)
    requires
        old(world).wf(),
    ensures
        final(world).wf(),
        old(world)@.external_outcome(key, size, alignment, id, final(world)@),
{
    if world.lookup_external(&key).is_some() || world.count() < crate::state::MAX_ENTITIES as usize {
        world.register_external(key, size, alignment)
    } else {
        0
    }
}

} // verus!
