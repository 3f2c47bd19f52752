//! A handle on one entity of a world: the write side. Every function takes
//! the world to change; those that change what an entity holds tell the
//! observers.

use vstd::prelude::*;
use crate::component::{ComponentId, ComponentInfo};
use crate::entity_view::EntityView;
use crate::id::{ecs_pair, Entity, ECS_ON_ADD, ECS_ON_REMOVE, ECS_ON_SET};
use crate::iter::Iter;
use crate::observer::Observers;
use crate::state::{CommandState, SlotState, MAX_ENTITIES};
use crate::text::{bytes_to_vec, zeros};
use crate::world::{Command, World};

verus! {

impl<'a> EntityView<'a> {
    /// Creates an entity in the current scope of the world: it is given the
    /// world's `with` id, if there is one, and becomes a child of the scope,
    /// if there is one.
    pub fn new(world: &'a mut World) -> (e: Self)
        requires
            old(world).wf(),
            old(world)@.entities.len() < MAX_ENTITIES,
        ensures
            final(world).wf(),
            e.id.0 == old(world)@.entities.len(),
            final(world)@ == old(world)@.with_created(),
            e.world@ == final(world)@,
    {
        let id: u64 = if world.get_scope() == 0 && world.get_with() == 0 {
            world.entity_new()
        } else {
            world.entity_init()
        };
        EntityView { world: &*world, id: Entity(id) }
    }

    /// Creates an entity with a name, or finds the one that has it. The name
    /// may be a path with `::` between its elements: each element names a
    /// child of the one before it, and every element that does not exist
    /// yet is created. A name that starts with `::` is taken from the root,
    /// any other from the scope of the world. The handle is null when an
    /// element of the name is empty.
    pub fn new_named(world: &'a mut World, name: &[u8]) -> (e: Self)
        requires
            old(world).wf(),
            old(world)@.entities.len() + name@.len() <= MAX_ENTITIES,
        ensures
            final(world).wf(),
            final(world)@ == old(world)@.ensure_path(
                old(world)@.naming_parent(name@),
                name@,
                crate::state::separator(),
                crate::state::WorldState::naming_start(name@),
            ),
            e.id.0 == old(world)@.ensured(
                old(world)@.naming_parent(name@),
                name@,
                crate::state::separator(),
                crate::state::WorldState::naming_start(name@),
            ),
            e.world@ == final(world)@,
    {
        let sep = crate::path::separator();
        let id: u64 = if crate::path::holds_at(name, sep.as_slice(), 0) {
            world.ensure_path(0, name, sep.as_slice(), 2)
        } else {
            let scope: u64 = world.get_scope();
            world.ensure_path(scope, name, sep.as_slice(), 0)
        };
        EntityView { world: &*world, id: Entity(id) }
    }

    /// Creates an entity that holds a copy of every id of this one: with its
    /// values if `copy_value` is set, else with zeroed values.
    pub fn duplicate(world: &'a mut World, entity: u64, copy_value: bool) -> (e: EntityView<'a>)
        requires
            old(world).wf(),
            old(world)@.entities.len() < MAX_ENTITIES,
        ensures
            final(world).wf(),
            e.id.0 == old(world)@.entities.len(),
            final(world)@ == old(world)@.with_created().cloned_from(e.id.0, entity, copy_value, 0),
            e.world@ == final(world)@,
    {
        let dest: u64 = if world.get_scope() == 0 && world.get_with() == 0 {
            world.entity_new()
        } else {
            world.entity_init()
        };
        world.clone_into(dest, entity, copy_value);
        EntityView { world: &*world, id: Entity(dest) }
    }

    /// Gives `dest_id` a copy of every id of this entity that it does not
    /// hold yet. With `dest_id` 0 a new entity takes the copies; when the
    /// world has no room for one, nothing happens and the null handle comes
    /// back.
    pub fn duplicate_into(world: &'a mut World, entity: u64, copy_value: bool,
        dest_id: u64) -> (e: EntityView<'a>)
        requires
            old(world).wf(),
        ensures
            final(world).wf(),
            e.world@ == final(world)@,
            dest_id != 0 ==> e.id.0 == dest_id && final(world)@ == old(world)@.cloned_from(
                dest_id,
                entity,
                copy_value,
                0,
            ),
            dest_id == 0 && old(world)@.entities.len() < MAX_ENTITIES ==> e.id.0 == old(world)@.entities.len()
                && final(world)@ == old(world)@.with_new(crate::state::EntityState::fresh()).cloned_from(
                e.id.0,
                entity,
                copy_value,
                0,
            ),
            dest_id == 0 && old(world)@.entities.len() >= MAX_ENTITIES ==> e.id.0 == 0
                && final(world)@ == old(world)@,
    {
        let mut dest_id: u64 = dest_id;
        if dest_id == 0 {
            if world.count() >= MAX_ENTITIES as usize {
                return EntityView { world: &*world, id: Entity(0) };
            }
            dest_id = world.entity_new();
        }
        world.clone_into(dest_id, entity, copy_value);
        EntityView { world: &*world, id: Entity(dest_id) }
    }

    /// Gives the entity the id, with a zeroed value of the size registered
    /// for it, and tells the observers of the addition. Nothing happens,
    /// and the result is false, when the entity is not alive, the id is 0,
    /// or the entity holds the id already. While the world is read-only the
    /// addition is put off until the world takes changes again.
    pub fn add_id(world: &mut World, observers: &Observers, entity: u64, id: u64) -> (added: bool)
        requires
            old(world).wf(),
            observers.wf(),
        ensures
            final(world).wf(),
            added == (!old(world)@.readonly && old(world)@.can_add(entity, id)),
            added ==> final(world)@ == old(world)@.added(entity, id),
            !added && !old(world)@.readonly ==> final(world)@ == old(world)@,
            old(world)@.readonly
                ==> final(world)@ == old(world)@.deferring(CommandState::AddId { entity, id }),
            added ==> observers.delivered(&*final(world), ECS_ON_ADD, entity, id, Seq::empty()),
    {
        if world.is_readonly() {
            world.defer_add(entity, id);
            return false;
        }
        if id == 0 || !world.is_alive(entity) || world.owns_id(entity, id) {
            return false;
        }
        let value = zeros(world.id_size(id));
        proof {
            let slot = SlotState { id, value: value@, enabled: true };
            world@.entity(entity).not_owns_not_holds(id, id);
            world@.entity(entity).with_slot_unique(slot);
            world@.with_entity_wf(entity, world@.entity(entity).with_slot(slot));
        }
        world.slot_add(entity, id, value);
        observers.notify(&*world, ECS_ON_ADD, entity, id, Vec::new());
        true
    }

    /// Gives the entity the component `T`.
    pub fn add<T: ComponentId>(world: &mut World, observers: &Observers, entity: u64) -> (added: bool)
        requires
            old(world).wf(),
            observers.wf(),
        ensures
            final(world).wf(),
            added == (!old(world)@.readonly && old(world)@.can_add(entity, old(world)@.id_of(T::TYPE_KEY))),
            added ==> final(world)@ == old(world)@.added(entity, old(world)@.id_of(T::TYPE_KEY)),
            !added && !old(world)@.readonly ==> final(world)@ == old(world)@,
            old(world)@.readonly ==> final(world)@ == old(world)@.deferring(
                CommandState::AddId { entity, id: old(world)@.id_of(T::TYPE_KEY) },
            ),
            added ==> observers.delivered(
                &*final(world),
                ECS_ON_ADD,
                entity,
                old(world)@.id_of(T::TYPE_KEY),
                Seq::empty(),
            ),
    {
        let id: u64 = world.id_of::<T>();
        Self::add_id(world, observers, entity, id)
    }

    /// Sets the value of the id on the entity. When the entity does not
    /// hold the id yet, the id is added first and the observers are told of
    /// the addition, before the value is visible; then the value is stored
    /// and the observers are told that it was set. Nothing happens, and the
    /// result is false, when the entity is not alive, the id is 0, or the
    /// value has not the size registered for the id. While
    /// the world is read-only a value that the entity holds is still set at
    /// once; one that would have to be added is put off until the world
    /// takes changes again.
    pub fn set_id(world: &mut World, observers: &Observers, entity: u64, id: u64,
        value: &[u8]) -> (done: bool)
        requires
            old(world).wf(),
            observers.wf(),
        ensures
            final(world).wf(),
            done == (old(world)@.can_set(entity, id, value@) && (!old(world)@.readonly || old(world)@.entity(
                entity,
            ).owns(id))),
            done ==> final(world)@ == old(world)@.set(entity, id, value@),
            !done && !old(world)@.readonly ==> final(world)@ == old(world)@,
            !done && old(world)@.readonly ==> final(world)@ == old(world)@.deferring(
                CommandState::SetValue { entity, id, value: value@ },
            ),
            done && !old(world)@.entity(entity).owns(id) ==> exists|mid: &World|
                mid@ == old(world)@.added(entity, id) && #[trigger] observers.delivered(
                    mid,
                    ECS_ON_ADD,
                    entity,
                    id,
                    Seq::empty(),
                ),
            done ==> observers.delivered(&*final(world), ECS_ON_SET, entity, id, Seq::empty()),
    {
        let settable: bool = id != 0 && world.is_alive(entity) && value.len() == world.id_size(id);
        if !settable || !world.owns_id(entity, id) {
            if world.is_readonly() {
                world.defer_set(entity, id, bytes_to_vec(value));
                return false;
            }
            if !settable {
                return false;
            }
            let zeroed = zeros(world.id_size(id));
            proof {
                let slot = SlotState { id, value: zeroed@, enabled: true };
                world@.entity(entity).not_owns_not_holds(id, id);
                world@.entity(entity).with_slot_unique(slot);
                world@.with_entity_wf(entity, world@.entity(entity).with_slot(slot));
            }
            world.slot_add(entity, id, zeroed);
            observers.notify(&*world, ECS_ON_ADD, entity, id, Vec::new());
            proof {
                assert(observers.delivered(&*world, ECS_ON_ADD, entity, id, Seq::empty()));
                old(world)@.entity(entity).with_slot_owns(
                    SlotState { id, value: Seq::new(old(world)@.id_size(id) as nat, |k: int| 0u8),
                        enabled: true },
                );
            }
        }
        match world.find(entity, id) {
            Some(i) => {
                proof {
                    world@.entity(entity).edits_keep_unique(i as int, value@, true);
                    world@.with_entity_wf(entity, world@.entity(entity).with_value(i as int, value@));
                }
                world.slot_write(entity, i, bytes_to_vec(value));
            },
            None => {},
        }
        observers.notify(&*world, ECS_ON_SET, entity, id, Vec::new());
        true
    }

    /// Sets the value of the component `T` on the entity.
    pub fn set<T: ComponentId>(world: &mut World, observers: &Observers, entity: u64,
        value: &[u8]) -> (done: bool)
        requires
            old(world).wf(),
            observers.wf(),
        ensures
            final(world).wf(),
            done == (old(world)@.can_set(entity, old(world)@.id_of(T::TYPE_KEY), value@) && (
            !old(world)@.readonly || old(world)@.entity(entity).owns(old(world)@.id_of(T::TYPE_KEY)))),
            done ==> final(world)@ == old(world)@.set(entity, old(world)@.id_of(T::TYPE_KEY), value@),
            !done && !old(world)@.readonly ==> final(world)@ == old(world)@,
            !done && old(world)@.readonly ==> final(world)@ == old(world)@.deferring(
                CommandState::SetValue { entity, id: old(world)@.id_of(T::TYPE_KEY), value: value@ },
            ),
            done && !old(world)@.entity(entity).owns(old(world)@.id_of(T::TYPE_KEY)) ==> exists|mid: &World|
                mid@ == old(world)@.added(entity, old(world)@.id_of(T::TYPE_KEY)) && #[trigger] observers.delivered(
                    mid,
                    ECS_ON_ADD,
                    entity,
                    old(world)@.id_of(T::TYPE_KEY),
                    Seq::empty(),
                ),
            done ==> observers.delivered(
                &*final(world),
                ECS_ON_SET,
                entity,
                old(world)@.id_of(T::TYPE_KEY),
                Seq::empty(),
            ),
    {
        let id: u64 = world.id_of::<T>();
        Self::set_id(world, observers, entity, id, value)
    }

    /// Takes the id from the entity. The observers are told of the removal
    /// while the value is still visible; then the id is taken out. Nothing
    /// happens, and the result is false, when the entity does not hold the
    /// id. While the world is read-only the removal is put off until the
    /// world takes changes again.
    pub fn remove_id(world: &mut World, observers: &Observers, entity: u64, id: u64) -> (removed: bool)
        requires
            old(world).wf(),
            observers.wf(),
        ensures
            final(world).wf(),
            removed == (!old(world)@.readonly && old(world)@.entity(entity).owns(id)),
            removed ==> final(world)@ == old(world)@.removed(entity, id),
            !removed && !old(world)@.readonly ==> final(world)@ == old(world)@,
            old(world)@.readonly ==> final(world)@ == old(world)@.deferring(
                CommandState::RemoveId { entity, id },
            ),
            removed ==> observers.delivered(&*old(world), ECS_ON_REMOVE, entity, id, Seq::empty()),
    {
        if world.is_readonly() {
            world.defer_remove(entity, id);
            return false;
        }
        match world.find(entity, id) {
            None => false,
            Some(i) => {
                observers.notify(&*world, ECS_ON_REMOVE, entity, id, Vec::new());
                world.slot_remove(entity, i);
                true
            },
        }
    }

    /// Takes the component `T` from the entity.
    pub fn remove<T: ComponentId>(world: &mut World, observers: &Observers, entity: u64) -> (removed: bool)
        requires
            old(world).wf(),
            observers.wf(),
        ensures
            final(world).wf(),
            removed == (!old(world)@.readonly && old(world)@.entity(entity).owns(
                old(world)@.id_of(T::TYPE_KEY),
            )),
            removed ==> final(world)@ == old(world)@.removed(entity, old(world)@.id_of(T::TYPE_KEY)),
            !removed && !old(world)@.readonly ==> final(world)@ == old(world)@,
            old(world)@.readonly ==> final(world)@ == old(world)@.deferring(
                CommandState::RemoveId { entity, id: old(world)@.id_of(T::TYPE_KEY) },
            ),
            removed ==> observers.delivered(
                &*old(world),
                ECS_ON_REMOVE,
                entity,
                old(world)@.id_of(T::TYPE_KEY),
                Seq::empty(),
            ),
    {
        let id: u64 = world.id_of::<T>();
        Self::remove_id(world, observers, entity, id)
    }

    /// The value of a component or pair by identifier, to read and to
    /// change. An inherited value is first taken over.
    pub fn get_untyped_mut(world: &'a mut World, entity: u64, id: u64) -> (r: Option<&'a mut [u8]>)
        requires
            old(world).wf(),
        ensures
            final(world).wf(),
            match r {
                Some(v) => old(world)@.writable_value(entity, id) == Some(v@)
                    && final(world)@ == old(world)@.written(entity, id, final(v)@),
                None => old(world)@.writable_value(entity, id) is None
                    && final(world)@ == old(world)@.overridden(entity, id),
            },
    {
        world.get_mut_id(entity, id)
    }

    /// The value of the component `T` on the entity, to read and to change.
    /// For an enum component the value of the constant that the entity
    /// relates to; when it relates to none, the value on the entity itself.
    /// An inherited value is first taken over. Nothing is handed out when
    /// there is no value.
    pub fn try_get_mut<T: ComponentId>(world: &'a mut World, entity: u64) -> (r: Option<&'a mut [u8]>)
        requires
            old(world).wf(),
        ensures
            final(world).wf(),
            match r {
                Some(v) => old(world)@.typed_writable(entity, ComponentInfo::describe::<T>()) == Some(v@)
                    && final(world)@ == old(world)@.typed_written(entity, ComponentInfo::describe::<T>(), final(v)@),
                None => old(world)@.typed_writable(entity, ComponentInfo::describe::<T>()) is None
                    && final(world)@ == old(world)@.typed_overridden(entity, ComponentInfo::describe::<T>()),
            },
    {
        let component_id: u64 = world.id_of::<T>();
        let subject: u64 = if !T::IS_ENUM {
            entity
        } else {
            let target: u64 = world.target_of(entity, component_id, 0);
            if target == 0 {
                // no constant is related: the value may sit on the entity itself
                entity
            } else {
                target
            }
        };
        world.get_mut_id(subject, component_id)
    }

    /// The value of the component `T` on the entity, to read and to change.
    /// The entity must have a value for it.
    pub fn get_mut<T: ComponentId>(world: &'a mut World, entity: u64) -> (v: &'a mut [u8])
        requires
            old(world).wf(),
            old(world)@.typed_writable(entity, ComponentInfo::describe::<T>()) is Some,
        ensures
            final(world).wf(),
            old(world)@.typed_writable(entity, ComponentInfo::describe::<T>()) == Some(v@),
            final(world)@ == old(world)@.typed_written(entity, ComponentInfo::describe::<T>(), final(v)@),
    {
        match Self::try_get_mut::<T>(world, entity) {
            Some(v) => v,
            None => vstd::pervasive::unreached(),
        }
    }

    /// Hands the value of the component `T` to `callback` to read and to
    /// change, if the entity has one, and says whether it did.
    pub fn get_callback_mut<T: ComponentId, F: for <'x> FnOnce(&'x mut [u8])>(
        world: &mut World,
        entity: u64,
        callback: F,
    ) -> (r: bool)
        requires
            old(world).wf(),
            forall|v: &mut [u8]| call_requires(callback, (v,)),
        ensures
            final(world).wf(),
            r == old(world)@.typed_writable(entity, ComponentInfo::describe::<T>()) is Some,
            !r ==> final(world)@ == old(world)@.typed_overridden(entity, ComponentInfo::describe::<T>()),
            r ==> exists|v: &mut [u8]|
                old(world)@.typed_writable(entity, ComponentInfo::describe::<T>()) == Some(v@)
                    && #[trigger] call_ensures(callback, (v,), ())
                    && final(world)@ == old(world)@.typed_written(entity, ComponentInfo::describe::<T>(), final(v)@),
    {
        if let Some(comp) = EntityView::try_get_mut::<T>(world, entity) {
            callback(comp);
            true
        } else {
            false
        }
    }

    /// The value stored for the pair of the component `First` and `second`,
    /// to read and to change.
    pub fn try_get_first_id_mut<First: ComponentId>(world: &'a mut World, entity: u64,
        second: u64) -> (r: Option<&'a mut [u8]>)
        requires
            old(world).wf(),
        ensures
            final(world).wf(),
            match r {
                Some(v) => old(world)@.writable_value(entity,
                    crate::id::pair_spec(old(world)@.id_of(First::TYPE_KEY), second)) == Some(v@)
                    && final(world)@ == old(world)@.written(entity,
                    crate::id::pair_spec(old(world)@.id_of(First::TYPE_KEY), second), final(v)@),
                None => old(world)@.writable_value(entity,
                    crate::id::pair_spec(old(world)@.id_of(First::TYPE_KEY), second)) is None
                    && final(world)@ == old(world)@.overridden(entity,
                    crate::id::pair_spec(old(world)@.id_of(First::TYPE_KEY), second)),
            },
    {
        let component_id: u64 = world.id_of::<First>();
        world.get_mut_id(entity, ecs_pair(component_id, second))
    }

    /// The value stored for the pair of `First` and `second`, to read and to
    /// change. The entity must have a value for it.
    pub fn get_first_id_mut<First: ComponentId>(world: &'a mut World, entity: u64,
        second: u64) -> (v: &'a mut [u8])
        requires
            old(world).wf(),
            old(world)@.writable_value(entity, crate::id::pair_spec(old(world)@.id_of(First::TYPE_KEY),
                second)) is Some,
        ensures
            final(world).wf(),
            old(world)@.writable_value(entity, crate::id::pair_spec(old(world)@.id_of(First::TYPE_KEY),
                second)) == Some(v@),
            final(world)@ == old(world)@.written(entity,
                crate::id::pair_spec(old(world)@.id_of(First::TYPE_KEY), second), final(v)@),
    {
        match Self::try_get_first_id_mut::<First>(world, entity, second) {
            Some(v) => v,
            None => vstd::pervasive::unreached(),
        }
    }

    /// The value stored for the pair of the components `First` and
    /// `Second`, to read and to change.
    pub fn try_get_first_mut<First: ComponentId, Second: ComponentId>(world: &'a mut World,
        entity: u64) -> (r: Option<&'a mut [u8]>)
        requires
            old(world).wf(),
        ensures
            final(world).wf(),
            match r {
                Some(v) => old(world)@.writable_value(entity,
                    crate::id::pair_spec(old(world)@.id_of(First::TYPE_KEY),
                    old(world)@.id_of(Second::TYPE_KEY))) == Some(v@)
                    && final(world)@ == old(world)@.written(entity,
                    crate::id::pair_spec(old(world)@.id_of(First::TYPE_KEY),
                    old(world)@.id_of(Second::TYPE_KEY)), final(v)@),
                None => old(world)@.writable_value(entity,
                    crate::id::pair_spec(old(world)@.id_of(First::TYPE_KEY),
                    old(world)@.id_of(Second::TYPE_KEY))) is None
                    && final(world)@ == old(world)@.overridden(entity,
                    crate::id::pair_spec(old(world)@.id_of(First::TYPE_KEY),
                    old(world)@.id_of(Second::TYPE_KEY))),
            },
    {
        let first: u64 = world.id_of::<First>();
        let second: u64 = world.id_of::<Second>();
        world.get_mut_id(entity, ecs_pair(first, second))
    }

    /// The value stored for the pair of `First` and `Second`, to read and
    /// to change. The entity must have a value for it.
    pub fn get_first_mut<First: ComponentId, Second: ComponentId>(world: &'a mut World,
        entity: u64) -> (v: &'a mut [u8])
        requires
            old(world).wf(),
            old(world)@.writable_value(entity, crate::id::pair_spec(old(world)@.id_of(First::TYPE_KEY),
                old(world)@.id_of(Second::TYPE_KEY))) is Some,
        ensures
            final(world).wf(),
            old(world)@.writable_value(entity, crate::id::pair_spec(old(world)@.id_of(First::TYPE_KEY),
                old(world)@.id_of(Second::TYPE_KEY))) == Some(v@),
            final(world)@ == old(world)@.written(entity,
                crate::id::pair_spec(old(world)@.id_of(First::TYPE_KEY),
                old(world)@.id_of(Second::TYPE_KEY)), final(v)@),
    {
        match Self::try_get_first_mut::<First, Second>(world, entity) {
            Some(v) => v,
            None => vstd::pervasive::unreached(),
        }
    }

    /// The value stored for the pair of `first` and the component `Second`,
    /// to read and to change.
    pub fn try_get_second_id_mut<Second: ComponentId>(world: &'a mut World, entity: u64,
        first: u64) -> (r: Option<&'a mut [u8]>)
        requires
            old(world).wf(),
        ensures
            final(world).wf(),
            match r {
                Some(v) => old(world)@.writable_value(entity, crate::id::pair_spec(first,
                    old(world)@.id_of(Second::TYPE_KEY))) == Some(v@)
                    && final(world)@ == old(world)@.written(entity, crate::id::pair_spec(first,
                    old(world)@.id_of(Second::TYPE_KEY)), final(v)@),
                None => old(world)@.writable_value(entity, crate::id::pair_spec(first,
                    old(world)@.id_of(Second::TYPE_KEY))) is None
                    && final(world)@ == old(world)@.overridden(entity, crate::id::pair_spec(first,
                    old(world)@.id_of(Second::TYPE_KEY))),
            },
    {
        let component_id: u64 = world.id_of::<Second>();
        world.get_mut_id(entity, ecs_pair(first, component_id))
    }

    /// The value stored for the pair of `first` and `Second`, to read and to
    /// change. The entity must have a value for it.
    pub fn get_second_id_mut<Second: ComponentId>(world: &'a mut World, entity: u64,
        first: u64) -> (v: &'a mut [u8])
        requires
            old(world).wf(),
            old(world)@.writable_value(entity, crate::id::pair_spec(first,
                old(world)@.id_of(Second::TYPE_KEY))) is Some,
        ensures
            final(world).wf(),
            old(world)@.writable_value(entity, crate::id::pair_spec(first,
                old(world)@.id_of(Second::TYPE_KEY))) == Some(v@),
            final(world)@ == old(world)@.written(entity, crate::id::pair_spec(first,
                old(world)@.id_of(Second::TYPE_KEY)), final(v)@),
    {
        match Self::try_get_second_id_mut::<Second>(world, entity, first) {
            Some(v) => v,
            None => vstd::pervasive::unreached(),
        }
    }

    /// The value stored for the pair of the tag `First` and the component
    /// `Second`, to read and to change.
    pub fn try_get_second_mut<First: ComponentId, Second: ComponentId>(world: &'a mut World,
        entity: u64) -> (r: Option<&'a mut [u8]>)
        requires
            old(world).wf(),
        ensures
            final(world).wf(),
            match r {
                Some(v) => old(world)@.writable_value(entity,
                    crate::id::pair_spec(old(world)@.id_of(First::TYPE_KEY),
                    old(world)@.id_of(Second::TYPE_KEY))) == Some(v@)
                    && final(world)@ == old(world)@.written(entity,
                    crate::id::pair_spec(old(world)@.id_of(First::TYPE_KEY),
                    old(world)@.id_of(Second::TYPE_KEY)), final(v)@),
                None => old(world)@.writable_value(entity,
                    crate::id::pair_spec(old(world)@.id_of(First::TYPE_KEY),
                    old(world)@.id_of(Second::TYPE_KEY))) is None
                    && final(world)@ == old(world)@.overridden(entity,
                    crate::id::pair_spec(old(world)@.id_of(First::TYPE_KEY),
                    old(world)@.id_of(Second::TYPE_KEY))),
            },
    {
        let first: u64 = world.id_of::<First>();
        let second: u64 = world.id_of::<Second>();
        world.get_mut_id(entity, ecs_pair(first, second))
    }

    /// The value stored for the pair of `First` and `Second`, to read and
    /// to change. The entity must have a value for it.
    pub fn get_second_mut<First: ComponentId, Second: ComponentId>(world: &'a mut World,
        entity: u64) -> (v: &'a mut [u8])
        requires
            old(world).wf(),
            old(world)@.writable_value(entity, crate::id::pair_spec(old(world)@.id_of(First::TYPE_KEY),
                old(world)@.id_of(Second::TYPE_KEY))) is Some,
        ensures
            final(world).wf(),
            old(world)@.writable_value(entity, crate::id::pair_spec(old(world)@.id_of(First::TYPE_KEY),
                old(world)@.id_of(Second::TYPE_KEY))) == Some(v@),
            final(world)@ == old(world)@.written(entity,
                crate::id::pair_spec(old(world)@.id_of(First::TYPE_KEY),
                old(world)@.id_of(Second::TYPE_KEY)), final(v)@),
    {
        match Self::try_get_second_mut::<First, Second>(world, entity) {
            Some(v) => v,
            None => vstd::pervasive::unreached(),
        }
    }
}

impl World {
    /// Makes the world read-only: structural changes asked for from now on
    /// are put off until `defer_end`.
    pub fn defer_begin(&mut self)
        requires
            old(self).wf(),
        ensures
            final(self).wf(),
            final(self)@ == (crate::state::WorldState { readonly: true, ..old(self)@ }),
    {
        let _ = self.set_readonly(true);
    }

    /// Lets the world take changes again, makes the changes that were put
    /// off, in the order they were asked for, telling the observers of each
    /// as if it were made now, and then delivers the events that were queued
    /// meanwhile, oldest first.
    pub fn defer_end(&mut self, observers: &mut Observers)
        requires
            old(self).wf(),
            old(observers).wf(),
        ensures
            final(self).wf(),
            final(self)@ == old(self)@.resumed().applied_all(
                old(self)@.deferred,
                old(self)@.deferred.len() as int,
            ),
            final(observers).wf(),
            final(observers)@ == old(observers)@,
            final(observers).queued().len() == 0,
            forall|k: int, w: &World, b: Iter, a: Iter| #[trigger]
                final(observers).effect(k, w, b, a) == old(observers).effect(k, w, b, a),
            forall|k: int|
                0 <= k < old(self)@.deferred.len() ==> old(observers).told_of(
                    old(self)@.resumed().applied_all(old(self)@.deferred, k),
                    #[trigger] old(self)@.deferred[k],
                ),
            forall|q: int|
                0 <= q < old(observers).queued().len() ==> final(observers).delivered(
                    &*final(self),
                    (#[trigger] old(observers).queued()[q]).event,
                    old(observers).queued()[q].entity,
                    old(observers).queued()[q].id,
                    old(observers).queued()[q].param,
                ),
    {
        let commands = self.resume();
        let ghost start = self@;
        let ghost waiting = old(self)@.deferred;
        let mut k: usize = 0;
        while k < commands.len()
            invariant
                k <= commands.len(),
                self.wf(),
                observers.wf(),
                *observers == *old(observers),
                !self@.readonly,
                crate::world::commands_view(commands) == waiting,
                waiting.len() == commands@.len(),
                self@ == start.applied_all(waiting, k as int),
                forall|j: int|
                    0 <= j < k ==> observers.told_of(start.applied_all(waiting, j), #[trigger] waiting[j]),
            decreases commands.len() - k,
        {
            proof {
                crate::world::commands_view_at(commands, k as int);
            }
            let ghost was = *self;
            match &commands[k] {
                Command::AddId { entity, id } => {
                    let _ = EntityView::add_id(self, &*observers, *entity, *id);
                },
                Command::SetValue { entity, id, value } => {
                    let _ = EntityView::set_id(self, &*observers, *entity, *id, value.as_slice());
                },
                Command::RemoveId { entity, id } => {
                    let _ = EntityView::remove_id(self, &*observers, *entity, *id);
                },
            }
            assert(observers.told_of(was@, waiting[k as int]));
            k += 1;
        }
        observers.flush(&*self);
    }
}

} // verus!
