//! The components that every world starts with, as types.

use vstd::prelude::*;
use crate::component::ComponentId;
use crate::id::{
    ECS_ANY, ECS_CHILD_OF, ECS_COMPONENT, ECS_DISABLED, ECS_IS_A, ECS_ON_ADD, ECS_ON_REMOVE, ECS_ON_SET,
    ECS_PREFAB, ECS_WILDCARD,
};

verus! {

/// The component that describes a component: its value is the size and the
/// alignment of the described component, four little-endian bytes each.
pub struct Component;

/// Matches any single id.
pub struct Wildcard;

/// Matches like the wildcard, but at most once.
pub struct Any;

/// Relationship from a child to its parent.
pub struct ChildOf;

/// Relationship from an instance to the entity it inherits from.
pub struct IsA;

/// Tag of a disabled entity.
pub struct Disabled;

/// Tag of a prefab.
pub struct Prefab;

/// Event: an id was added to an entity.
pub struct OnAdd;

/// Event: an id was removed from an entity.
pub struct OnRemove;

/// Event: a component value was set.
pub struct OnSet;

impl ComponentId for Component {
    const TYPE_KEY: u64 = ECS_COMPONENT;
    const SIZE: usize = 8;
    const ALIGNMENT: usize = 4;
    const IS_ENUM: bool = false;
    const CONSTANTS: u32 = 0;
}

impl ComponentId for Wildcard {
    const TYPE_KEY: u64 = ECS_WILDCARD;
    const SIZE: usize = 0;
    const ALIGNMENT: usize = 0;
    const IS_ENUM: bool = false;
    const CONSTANTS: u32 = 0;
}

impl ComponentId for Any {
    const TYPE_KEY: u64 = ECS_ANY;
    const SIZE: usize = 0;
    const ALIGNMENT: usize = 0;
    const IS_ENUM: bool = false;
    const CONSTANTS: u32 = 0;
}

impl ComponentId for ChildOf {
    const TYPE_KEY: u64 = ECS_CHILD_OF;
    const SIZE: usize = 0;
    const ALIGNMENT: usize = 0;
    const IS_ENUM: bool = false;
    const CONSTANTS: u32 = 0;
}

impl ComponentId for IsA {
    const TYPE_KEY: u64 = ECS_IS_A;
    const SIZE: usize = 0;
    const ALIGNMENT: usize = 0;
    const IS_ENUM: bool = false;
    const CONSTANTS: u32 = 0;
}

impl ComponentId for Disabled {
    const TYPE_KEY: u64 = ECS_DISABLED;
    const SIZE: usize = 0;
    const ALIGNMENT: usize = 0;
    const IS_ENUM: bool = false;
    const CONSTANTS: u32 = 0;
}

impl ComponentId for Prefab {
    const TYPE_KEY: u64 = ECS_PREFAB;
    const SIZE: usize = 0;
    const ALIGNMENT: usize = 0;
    const IS_ENUM: bool = false;
    const CONSTANTS: u32 = 0;
}

impl ComponentId for OnAdd {
    const TYPE_KEY: u64 = ECS_ON_ADD;
    const SIZE: usize = 0;
    const ALIGNMENT: usize = 0;
    const IS_ENUM: bool = false;
    const CONSTANTS: u32 = 0;
}

impl ComponentId for OnRemove {
    const TYPE_KEY: u64 = ECS_ON_REMOVE;
    const SIZE: usize = 0;
    const ALIGNMENT: usize = 0;
    const IS_ENUM: bool = false;
    const CONSTANTS: u32 = 0;
}

impl ComponentId for OnSet {
    const TYPE_KEY: u64 = ECS_ON_SET;
    const SIZE: usize = 0;
    const ALIGNMENT: usize = 0;
    const IS_ENUM: bool = false;
    const CONSTANTS: u32 = 0;
}

/// The component that describes components is described as every world
/// describes it.
pub proof fn component_description()
    ensures
        crate::component::ComponentInfo::describe::<Component>() == crate::state::reserved_info(ECS_COMPONENT),
{
}

/// A new world takes the registration of every reserved component, which
/// changes nothing.
pub proof fn reserved_are_accepted()
    ensures
        crate::state::WorldState::initial().can_register(crate::component::ComponentInfo::describe::<ChildOf>()),
        crate::state::WorldState::initial().can_register(crate::component::ComponentInfo::describe::<IsA>()),
        crate::state::WorldState::initial().can_register(crate::component::ComponentInfo::describe::<Wildcard>()),
        crate::state::WorldState::initial().can_register(crate::component::ComponentInfo::describe::<Any>()),
        crate::state::WorldState::initial().can_register(crate::component::ComponentInfo::describe::<Disabled>()),
        crate::state::WorldState::initial().can_register(crate::component::ComponentInfo::describe::<Prefab>()),
        crate::state::WorldState::initial().can_register(crate::component::ComponentInfo::describe::<Component>()),
        crate::state::WorldState::initial().can_register(crate::component::ComponentInfo::describe::<OnAdd>()),
        crate::state::WorldState::initial().can_register(crate::component::ComponentInfo::describe::<OnRemove>()),
        crate::state::WorldState::initial().can_register(crate::component::ComponentInfo::describe::<OnSet>()),
        crate::state::WorldState::initial().register(crate::component::ComponentInfo::describe::<ChildOf>())
            == crate::state::WorldState::initial(),
{
}

/// In a new world every reserved component is registered under its own
/// identifier.
pub proof fn reserved_are_registered()
    ensures
        crate::state::WorldState::initial().id_of(ChildOf::TYPE_KEY) == ECS_CHILD_OF,
        crate::state::WorldState::initial().id_of(IsA::TYPE_KEY) == ECS_IS_A,
        crate::state::WorldState::initial().id_of(Wildcard::TYPE_KEY) == ECS_WILDCARD,
        crate::state::WorldState::initial().id_of(Any::TYPE_KEY) == ECS_ANY,
        crate::state::WorldState::initial().id_of(Disabled::TYPE_KEY) == ECS_DISABLED,
        crate::state::WorldState::initial().id_of(Prefab::TYPE_KEY) == ECS_PREFAB,
        crate::state::WorldState::initial().id_of(Component::TYPE_KEY) == ECS_COMPONENT,
        crate::state::WorldState::initial().id_of(OnAdd::TYPE_KEY) == ECS_ON_ADD,
        crate::state::WorldState::initial().id_of(OnRemove::TYPE_KEY) == ECS_ON_REMOVE,
        crate::state::WorldState::initial().id_of(OnSet::TYPE_KEY) == ECS_ON_SET,
{
}

} // verus!
