//! The component identity registry: from static types to the identifiers
//! that one world gave them.

use vstd::prelude::*;
use core::any::TypeId;
use crate::component::{ComponentId, ComponentInfo};
use crate::type_key::type_id_eq;
use crate::id::ECS_ENTITY_MASK;
use crate::id::{ecs_pair, ECS_CHILD_OF};
use crate::state::{EntityState, WorldState, MAX_ENTITIES};
use crate::world::{EntityRecord, Slot, World};

verus! {

impl World {
    /// The identifier registered for a type key, or 0.
    pub fn lookup_key(&self, type_key: u64) -> (id: u64)
        ensures
            id == self@.id_of(type_key),
    {
        proof {
            self.view_entities();
        }
        match self.registry.get(&type_key) {
            Some(id) => *id,
            None => 0,
        }
    }

    /// Whether the world takes the registration of the component: its key
    /// is registered with this very description, or is not registered and
    /// there is room. A key that another description holds is refused.
    pub fn can_register(&self, info: &ComponentInfo) -> (r: bool)
        requires
            self.wf(),
        ensures
            r == self@.can_register(*info),
    {
        proof {
            self.view_entities();
        }
        match self.registry.get(&info.type_key) {
            Some(id) => match self.component_info(*id) {
                Some(known) => known == *info,
                None => false,
            },
            None => MAX_ENTITIES - self.records.len() as u64 > info.constants as u64,
        }
    }

    /// Registers a component by its description. The first call for a type
    /// key creates the component's entity, and one entity for each constant
    /// of an enum; every later call returns the identifier of the first.
    pub fn register(&mut self, info: ComponentInfo) -> (id: u64)
        requires
            old(self).wf(),
            info.wf(),
            old(self)@.can_register(info),
        ensures
            final(self).wf(),
            id == old(self)@.registered(info),
            final(self)@ == old(self)@.register(info),
            id != 0,
            final(self)@.id_of(info.type_key) == id,
            !old(self)@.registry.contains_key(info.type_key) ==> final(self)@.typed_get(
                id,
                ComponentInfo::describe::<crate::flecs::Component>(),
            ) == Some(crate::state::description_bytes(info.size, info.alignment)),
    {
        proof {
            self.view_entities();
        }
        match self.registry.get(&info.type_key) {
            Some(id) => {
                return *id;
            },
            None => {},
        }
        let ghost before = self@;
        let id: u64 = self.records.len() as u64;
        assert(before.deferred == crate::world::commands_view(self.deferred));
        self.records.push(EntityRecord::component(info));
        let mut i: u32 = 0;
        while i < info.constants
            invariant
                i <= info.constants,
                before.wf(),
                before.entities.len() + 1 + info.constants <= MAX_ENTITIES,
                id == before.entities.len(),
                self.records.len() == before.entities.len() + 1 + i,
                self.registry@ == before.registry,
                self.externals@ == before.externals,
                self.readonly == before.readonly,
                self.scope == before.scope,
                self.with == before.with,
                self.deferred == old(self).deferred,
                forall|k: int| 0 <= k < before.entities.len()
                    ==> (#[trigger] self.records@[k])@ == before.entities[k],
                self.records@[id as int]@ == EntityState::component(info),
                forall|j: int| 0 <= j < i
                    ==> (#[trigger] self.records@[id + 1 + j])@ == EntityState::constant(id, j),
            decreases info.constants - i,
        {
            let mut c = EntityRecord::fresh();
            c.slots.push(Slot { id: ecs_pair(ECS_CHILD_OF, id), value: Vec::new(), enabled: true });
            c.slots.push(Slot { id, value: vstd::bytes::u32_to_le_bytes(i), enabled: true });
            proof {
                c.view_slots();
                assert(c@.slots[0] == c.slots@[0]@);
                assert(c@.slots[1] == c.slots@[1]@);
                assert(c@.slots =~= EntityState::constant(id, i as int).slots);
            }
            self.records.push(c);
            i += 1;
        }
        self.registry.insert(info.type_key, id);
        proof {
            self.view_entities();
            let want = before.register(info).entities;
            assert(want.len() == self@.entities.len());
            assert forall|k: int| 0 <= k < want.len() implies self@.entities[k] == want[k] by {
                assert(self@.entities[k] == self.records@[k]@);
                if k > id {
                    let j = k - id - 1;
                    assert(self.records@[id + 1 + j]@ == EntityState::constant(id, j));
                }
            }
            assert(self@.entities =~= want);
            assert(self@.registry =~= before.register(info).registry);
            assert(id <= 0x0FFF_FFFFu64 ==> (0x8000_0000_0000_0000u64 | (4u64 << 32) | (id & 0xFFFF_FFFFu64)) != id)
                by (bit_vector);
            assert forall|k: int| 0 <= k < want.len() implies (#[trigger] want[k]).unique() by {
                if k < id {
                    assert(want[k] == before.entities[k]);
                } else if k == id {
                    assert(want[k] == EntityState::component(info));
                } else {
                    assert(want[k] == EntityState::constant(id, k - id - 1));
                    assert(want[k].slots[0].id == crate::id::pair_spec(ECS_CHILD_OF, id));
                    assert(want[k].slots[1].id == id);
                }
            }
            component_is_described(self@, id, info);
        }
        id
    }

    /// The identifier of the component type `T` in this world, registering
    /// the type on first use.
    pub fn get_or_register<T: ComponentId>(&mut self) -> (id: u64)
        requires
            old(self).wf(),
            ComponentInfo::describe::<T>().wf(),
            old(self)@.can_register(ComponentInfo::describe::<T>()),
        ensures
            final(self).wf(),
            id == old(self)@.registered(ComponentInfo::describe::<T>()),
            final(self)@ == old(self)@.register(ComponentInfo::describe::<T>()),
            id != 0,
    {
        self.register(ComponentInfo::of::<T>())
    }

    /// The identifier of the component type `T` in this world, registering
    /// the type on first use.
    pub fn component_id<T: ComponentId>(&mut self) -> (id: u64)
        requires
            old(self).wf(),
            ComponentInfo::describe::<T>().wf(),
            old(self)@.can_register(ComponentInfo::describe::<T>()),
        ensures
            final(self).wf(),
            id == old(self)@.registered(ComponentInfo::describe::<T>()),
            final(self)@ == old(self)@.register(ComponentInfo::describe::<T>()),
            id != 0,
    {
        self.get_or_register::<T>()
    }

    /// The identifier of the component type `T` if this world has
    /// registered it, else 0.
    pub fn id_of<T: ComponentId>(&self) -> (id: u64)
        ensures
            id == self@.id_of(T::TYPE_KEY),
    {
        self.lookup_key(T::TYPE_KEY)
    }

    /// The identifier recorded for a type without a description.
    pub fn lookup_external(&self, key: &TypeId) -> (r: Option<u64>)
        ensures
            match r {
                Some(id) => self@.external_search(*key, 0) >= 0 && id == self@.external_registered(*key),
                None => self@.external_search(*key, 0) == -1,
            },
    {
        let mut i: usize = 0;
        proof {
            self.view_entities();
        }
        while i < self.externals.len()
            invariant
                i <= self.externals.len(),
                self@.externals == self.externals@,
                self@.external_search(*key, 0) == self@.external_search(*key, i as int),
            decreases self.externals.len() - i,
        {
            if type_id_eq(&self.externals[i].0, key) {
                return Some(self.externals[i].1);
            }
            i += 1;
        }
        None
    }

    /// Registers a type that has no description, by the identity of the
    /// type. The first call for a key creates the component's entity; every
    /// later call returns its identifier.
    pub fn register_external(&mut self, key: TypeId, size: usize, alignment: usize) -> (id: u64)
        requires
            old(self).wf(),
            old(self)@.can_register_external(key),
        ensures
            final(self).wf(),
            id == old(self)@.external_registered(key),
            final(self)@ == old(self)@.register_external(key, size, alignment),
            old(self)@.external_search(key, 0) < 0 ==> final(self)@.typed_get(
                id,
                ComponentInfo::describe::<crate::flecs::Component>(),
            ) == Some(crate::state::description_bytes(size, alignment)),
    {
        match self.lookup_external(&key) {
            Some(id) => {
                return id;
            },
            None => {},
        }
        proof {
            self.view_entities();
        }
        let id: u64 = self.records.len() as u64;
        self.records.push(
            EntityRecord::component(
                ComponentInfo { type_key: 0, size, alignment, is_tag: size == 0, is_enum: false, constants: 0 },
            ),
        );
        self.externals.push((key, id));
        proof {
            self.view_entities();
            assert(self@.entities[id as int] == EntityState::component(
                ComponentInfo { type_key: 0, size, alignment, is_tag: size == 0, is_enum: false, constants: 0 },
            ));
            assert forall|k: int| 0 <= k < self@.entities.len() implies (#[trigger] self@.entities[k]).unique() by {
                if k < id {
                    assert(self@.entities[k] == old(self)@.entities[k]);
                }
            }
            component_is_described(
                self@,
                id,
                ComponentInfo { type_key: 0, size, alignment, is_tag: size == 0, is_enum: false, constants: 0 },
            );
            assert(self@.entities =~= old(self)@.register_external(key, size, alignment).entities);
        }
        id
    }

    /// The identifier of constant number `index` of the enum component `T`,
    /// or 0 when `T` is not registered in this world.
    pub fn constant_of<T: ComponentId>(&self, index: u32) -> (id: u64)
        ensures
            id == self@.constant_id(T::TYPE_KEY, index),
    {
        let c: u64 = self.id_of::<T>();
        if c == 0 || c > ECS_ENTITY_MASK || 1 + index as u64 > ECS_ENTITY_MASK - c {
            0
        } else {
            c + 1 + index as u64
        }
    }
}

/// A typed read of the component that describes components, on the entity
/// of a registered component, gives the bytes of its size and alignment.
pub proof fn component_is_described(w: WorldState, c: u64, info: ComponentInfo)
    requires
        w.wf(),
        0 < c < w.entities.len(),
        w.entities[c as int] == EntityState::component(info),
    ensures
        w.typed_get(c, ComponentInfo::describe::<crate::flecs::Component>()) == Some(
            crate::state::description_bytes(info.size, info.alignment),
        ),
        crate::state::description_bytes(info.size, info.alignment).len() == 8,
{
    vstd::bytes::lemma_auto_spec_u32_to_from_le_bytes();
    assert(w.registry.contains_key(crate::id::ECS_COMPONENT));
    assert(w.valid(c));
    let s = w.entity(c);
    assert(s.slots[0].id == crate::id::ECS_COMPONENT);
    assert(s.search(crate::id::ECS_COMPONENT, 0) == 0);
    assert(s.owns(crate::id::ECS_COMPONENT));
    assert(w.holder(c, crate::id::ECS_IS_A, crate::id::ECS_COMPONENT, w.entities.len()) == c);
    assert(w.provider(c, crate::id::ECS_COMPONENT) == c);
    let bytes = crate::state::description_bytes(info.size, info.alignment);
    assert(bytes.len() == 8);
    assert(s.slots[0].value == bytes);
    assert(s.value(crate::id::ECS_COMPONENT) == Some(bytes));
    assert(w.get(c, crate::id::ECS_COMPONENT) == Some(bytes));
    let d = ComponentInfo::describe::<crate::flecs::Component>();
    crate::flecs::component_description();
    assert(d.type_key == crate::id::ECS_COMPONENT);
    assert(!d.is_enum && !d.is_tag);
    assert(w.id_of(d.type_key) == crate::id::ECS_COMPONENT);
}

/// Registering a component a second time is accepted, returns the
/// identifier of the first time and leaves the world as it is.
pub proof fn registration_is_stable(w: WorldState, info: ComponentInfo)
    requires
        w.wf(),
        w.can_register(info),
    ensures
        w.register(info).can_register(info),
        w.register(info).registered(info) == w.registered(info),
        w.register(info).register(info) == w.register(info),
        w.register(info).id_of(info.type_key) == w.registered(info),
{
    let after = w.register(info);
    if !w.registry.contains_key(info.type_key) {
        let c = w.entities.len() as u64;
        assert(after.registry[info.type_key] == c);
        assert(after.entities[c as int] == EntityState::component(info));
    }
}

/// A world accepts one description for a key, and two descriptions that it
/// accepts for registered keys have identifiers of their own: a type whose
/// key another type has taken is told apart by its description, and
/// refused.
pub proof fn descriptions_have_their_own_ids(w: WorldState, a: ComponentInfo, b: ComponentInfo)
    requires
        w.wf(),
        w.registry.contains_key(a.type_key),
        w.registry.contains_key(b.type_key),
        w.can_register(a),
        w.can_register(b),
        a != b,
    ensures
        a.type_key != b.type_key,
        w.id_of(a.type_key) != w.id_of(b.type_key),
{
}

/// Registering one component leaves the identifier of every other
/// registered component as it was.
pub proof fn registration_keeps_others(w: WorldState, info: ComponentInfo, other: u64)
    requires
        w.registry.contains_key(other),
    ensures
        w.register(info).id_of(other) == w.id_of(other),
{
}

} // verus!
