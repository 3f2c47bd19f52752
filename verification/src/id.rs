//! Identifiers, reserved ids and the packing of relationship pairs.

use vstd::prelude::*;

verus! {

/// Discriminant bit of an identifier that holds a packed pair.
pub const ECS_PAIR: u64 = 0x8000_0000_0000_0000;

/// The bits of an identifier that carry flags rather than an id.
pub const ECS_ID_FLAGS_MASK: u64 = 0xF000_0000_0000_0000;

/// The bits of an identifier that carry ids.
pub const ECS_COMPONENT_MASK: u64 = 0x0FFF_FFFF_FFFF_FFFF;

/// The low word of an identifier: a plain entity id, or the second element of a pair.
pub const ECS_ENTITY_MASK: u64 = 0xFFFF_FFFF;

/// Largest id that can stand as the first element of a pair.
pub const ECS_MAX_FIRST: u64 = 0x0FFF_FFFF;

/// The component that describes a component: size and alignment.
pub const ECS_COMPONENT: u64 = 1;

/// Matches any single id; in a pair, any id in that position.
pub const ECS_WILDCARD: u64 = 2;

/// Matches like the wildcard, but at most once.
pub const ECS_ANY: u64 = 3;

/// Relationship from a child to its parent.
pub const ECS_CHILD_OF: u64 = 4;

/// Relationship from an instance to the entity it inherits from.
pub const ECS_IS_A: u64 = 5;

/// Tag of a disabled entity.
pub const ECS_DISABLED: u64 = 6;

/// Tag of a prefab.
pub const ECS_PREFAB: u64 = 7;

/// Event: an id was added to an entity.
pub const ECS_ON_ADD: u64 = 8;

/// Event: an id was removed from an entity.
pub const ECS_ON_REMOVE: u64 = 9;

/// Event: a component value was set.
pub const ECS_ON_SET: u64 = 10;

/// First id handed out to entities and components that callers create.
pub const ECS_FIRST_USER_ID: u64 = 16;

/// An entity identifier.
#[derive(Clone, Copy, Debug, PartialEq, Eq, Structural)]
pub struct Entity(pub u64);

impl Entity {
    /// Wraps a raw identifier.
    pub fn new(id: u64) -> (e: Entity)
        ensures
            e.0 == id,
    {
        Entity(id)
    }

    /// The entity that stands for "no entity".
    pub fn null() -> (e: Entity)
        ensures
            e.0 == 0,
    {
        Entity(0)
    }

    /// The raw identifier.
    pub fn id(&self) -> (id: u64)
        ensures
            id == self.0,
    {
        self.0
    }
}

/// An id that can be the first element of a pair and be read back.
pub open spec fn valid_first(a: u64) -> bool {
    0 < a <= ECS_MAX_FIRST
}

/// An id that can be the second element of a pair and be read back.
pub open spec fn valid_second(b: u64) -> bool {
    0 < b <= ECS_ENTITY_MASK
}

/// The pair `(first, second)` as one identifier: the discriminant bit, the
/// first element in the high word, the second in the low word.
pub open spec fn pair_spec(first: u64, second: u64) -> u64 {
    ECS_PAIR | (first << 32) | (second & ECS_ENTITY_MASK)
}

/// Whether the identifier holds a pair.
pub open spec fn is_pair_spec(id: u64) -> bool {
    id & ECS_ID_FLAGS_MASK == ECS_PAIR
}

/// The first element of a pair: the high word without the flag bits.
pub open spec fn first_spec(id: u64) -> u64 {
    (id & ECS_COMPONENT_MASK) >> 32
}

/// The second element of a pair: the low word.
pub open spec fn second_spec(id: u64) -> u64 {
    id & ECS_ENTITY_MASK
}

/// Whether `id` is the wildcard or the any-id.
pub open spec fn is_wild_spec(id: u64) -> bool {
    id == ECS_WILDCARD || id == ECS_ANY
}

/// Whether `id` holds no wildcard, as a whole or as an element of a pair.
pub open spec fn is_exact_spec(id: u64) -> bool {
    if is_pair_spec(id) {
        !is_wild_spec(first_spec(id)) && !is_wild_spec(second_spec(id))
    } else {
        !is_wild_spec(id)
    }
}

/// Whether `id` is matched by `pattern`. A pattern matches itself; a pair
/// pattern with a wildcard element matches the pairs that agree on the other
/// element; a bare wildcard matches every id that is not a pair.
pub open spec fn id_match_spec(id: u64, pattern: u64) -> bool {
    if id == pattern {
        true
    } else if is_pair_spec(pattern) {
        is_pair_spec(id) && {
            let pf = first_spec(pattern);
            let ps = second_spec(pattern);
            if is_wild_spec(pf) {
                is_wild_spec(ps) || ps == second_spec(id)
            } else {
                is_wild_spec(ps) && pf == first_spec(id)
            }
        }
    } else {
        is_wild_spec(pattern) && id & ECS_ID_FLAGS_MASK == 0
    }
}

/// Packs two ids into one pair identifier.
pub fn ecs_pair(first: u64, second: u64) -> (id: u64)
    ensures
        id == pair_spec(first, second),
{
    ECS_PAIR | (first << 32) | (second & ECS_ENTITY_MASK)
}

/// Tests the discriminant bit.
pub fn ecs_is_pair(id: u64) -> (r: bool)
    ensures
        r == is_pair_spec(id),
{
    id & ECS_ID_FLAGS_MASK == ECS_PAIR
}

/// Reads the first element of a pair.
pub fn ecs_first(id: u64) -> (first: u64)
    ensures
        first == first_spec(id),
{
    (id & ECS_COMPONENT_MASK) >> 32
}

/// Reads the second element of a pair.
pub fn ecs_second(id: u64) -> (second: u64)
    ensures
        second == second_spec(id),
{
    id & ECS_ENTITY_MASK
}

/// Whether `id` is the wildcard or the any-id.
pub fn ecs_is_wild(id: u64) -> (r: bool)
    ensures
        r == is_wild_spec(id),
{
    id == ECS_WILDCARD || id == ECS_ANY
}

/// Matches an id against a pattern that may hold wildcards.
pub fn ecs_id_match(id: u64, pattern: u64) -> (r: bool)
    ensures
        r == id_match_spec(id, pattern),
{
    if id == pattern {
        true
    } else if ecs_is_pair(pattern) {
        if !ecs_is_pair(id) {
            false
        } else {
            let pf: u64 = ecs_first(pattern);
            let ps: u64 = ecs_second(pattern);
            if ecs_is_wild(pf) {
                ecs_is_wild(ps) || ps == ecs_second(id)
            } else {
                ecs_is_wild(ps) && pf == ecs_first(id)
            }
        }
    } else {
        ecs_is_wild(pattern) && id & ECS_ID_FLAGS_MASK == 0
    }
}

/// A pair decodes to exactly the two ids it was packed from, and carries the
/// discriminant bit.
pub broadcast proof fn pair_decodes(a: u64, b: u64)
    requires
        valid_first(a),
        valid_second(b),
    ensures
        is_pair_spec(#[trigger] pair_spec(a, b)),
        first_spec(pair_spec(a, b)) == a,
        second_spec(pair_spec(a, b)) == b,
{
    assert(a <= 0x0FFF_FFFFu64 && b <= 0xFFFF_FFFFu64 ==> {
        let p = 0x8000_0000_0000_0000u64 | (a << 32) | (b & 0xFFFF_FFFFu64);
        &&& p & 0xF000_0000_0000_0000u64 == 0x8000_0000_0000_0000u64
        &&& (p & 0x0FFF_FFFF_FFFF_FFFFu64) >> 32 == a
        &&& p & 0xFFFF_FFFFu64 == b
    }) by (bit_vector);
}

/// An id that holds no wildcard matches itself and nothing else.
pub proof fn exact_matches_itself_only(id: u64, x: u64)
    requires
        is_exact_spec(id),
    ensures
        id_match_spec(x, id) <==> x == id,
{
}

/// A pair is directed: swapping two different elements gives a different
/// identifier.
pub proof fn pair_is_directed(a: u64, b: u64)
    requires
        valid_first(a),
        valid_first(b),
        a != b,
    ensures
        pair_spec(a, b) != pair_spec(b, a),
{
    pair_decodes(a, b);
    pair_decodes(b, a);
}

} // verus!
