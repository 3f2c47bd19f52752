//! Static description of component types.

use vstd::prelude::*;

verus! {

/// What the world needs to know of a component type: the key that identifies
/// the type, the layout of its values, and its kind.
#[derive(Clone, Copy, Debug, PartialEq, Eq, Structural)]
pub struct ComponentInfo {
    /// Key of the static type, unique among the types used with one world.
    pub type_key: u64,
    /// Size of a value in bytes; zero for a tag.
    pub size: usize,
    /// Alignment of a value in bytes.
    pub alignment: usize,
    /// A tag carries no value.
    pub is_tag: bool,
    /// An enum component relates an entity to one of its constants.
    pub is_enum: bool,
    /// Number of constants of an enum component.
    pub constants: u32,
}

/// Size in bytes of the value of an enum constant.
pub const ENUM_SIZE: usize = 4;

impl ComponentInfo {
    /// A description is well formed when the tag flag says exactly that the
    /// size is zero, a value has a non-zero alignment, and only an enum has
    /// constants, each stored in four bytes.
    pub open spec fn wf(&self) -> bool {
        &&& self.is_tag <==> self.size == 0
        &&& self.size > 0 ==> self.alignment > 0
        &&& self.is_enum ==> self.size == ENUM_SIZE
        &&& !self.is_enum ==> self.constants == 0
    }

    /// Describes a tag.
    pub fn tag(type_key: u64) -> (info: ComponentInfo)
        ensures
            info.wf(),
            info == (ComponentInfo {
                type_key,
                size: 0,
                alignment: 0,
                is_tag: true,
                is_enum: false,
                constants: 0,
            }),
    {
        ComponentInfo { type_key, size: 0, alignment: 0, is_tag: true, is_enum: false, constants: 0 }
    }

    /// Describes a component with a value of `size` bytes. A size of zero
    /// gives a tag.
    pub fn data(type_key: u64, size: usize, alignment: usize) -> (info: ComponentInfo)
        requires
            size > 0 ==> alignment > 0,
        ensures
            info.wf(),
            info == (ComponentInfo {
                type_key,
                size,
                alignment,
                is_tag: size == 0,
                is_enum: false,
                constants: 0,
            }),
    {
        ComponentInfo { type_key, size, alignment, is_tag: size == 0, is_enum: false, constants: 0 }
    }

    /// Describes an enum component with the given number of constants.
    pub fn enumeration(type_key: u64, constants: u32) -> (info: ComponentInfo)
        ensures
            info.wf(),
            info == (ComponentInfo {
                type_key,
                size: ENUM_SIZE,
                alignment: ENUM_SIZE,
                is_tag: false,
                is_enum: true,
                constants,
            }),
    {
        ComponentInfo {
            type_key,
            size: ENUM_SIZE,
            alignment: ENUM_SIZE,
            is_tag: false,
            is_enum: true,
            constants,
        }
    }

    /// Tests well-formedness.
    pub fn is_well_formed(&self) -> (r: bool)
        ensures
            r == self.wf(),
    {
        (self.is_tag == (self.size == 0)) && (self.size == 0 || self.alignment > 0) && (!self.is_enum
            || self.size == ENUM_SIZE) && (self.is_enum || self.constants == 0)
    }
}

/// A static type that stands for a component. The constants describe the
/// component: the key that identifies the type, the layout of its values,
/// whether it is an enum, and how many constants an enum has. A size of zero
/// makes the component a tag.
pub trait ComponentId {
    /// Key of the type, unique among the types used with one world. Keys
    /// below `ECS_FIRST_USER_ID` name the components every world starts with.
    /// A world holds one description for a key: it refuses to register a
    /// type whose key is taken by a type with another description.
    const TYPE_KEY: u64;
    /// Size of a value in bytes.
    const SIZE: usize;
    /// Alignment of a value in bytes.
    const ALIGNMENT: usize;
    /// Whether the component is an enum.
    const IS_ENUM: bool;
    /// Number of constants of an enum.
    const CONSTANTS: u32;
}

/// A value of an enum component type: knows which constant it is.
pub trait EnumConstant: ComponentId {
    /// Position of the constant among the constants of its type.
    fn index(&self) -> u32;
}

impl ComponentInfo {
    /// The description that the constants of `T` give.
    pub open spec fn describe<T: ComponentId>() -> ComponentInfo {
        ComponentInfo {
            type_key: T::TYPE_KEY,
            size: T::SIZE,
            alignment: T::ALIGNMENT,
            is_tag: T::SIZE == 0,
            is_enum: T::IS_ENUM,
            constants: T::CONSTANTS,
        }
    }

    /// The description that the constants of `T` give.
    pub fn of<T: ComponentId>() -> (info: ComponentInfo)
        ensures
            info == ComponentInfo::describe::<T>(),
    {
        ComponentInfo {
            type_key: T::TYPE_KEY,
            size: T::SIZE,
            alignment: T::ALIGNMENT,
            is_tag: T::SIZE == 0,
            is_enum: T::IS_ENUM,
            constants: T::CONSTANTS,
        }
    }
}

} // verus!
