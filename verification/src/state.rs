//! The mathematical model of a world: what every contract of the crate speaks
//! of. A world is a sequence of entities indexed by identifier; an entity is
//! an ordered sequence of slots, one per id it holds, each with the bytes of
//! its value.

use vstd::prelude::*;
use core::any::TypeId;
use crate::component::ComponentInfo;
use crate::id::ECS_ANY;
use crate::term::{Access, CallbackShape, Term};
use crate::id::{ECS_CHILD_OF, ECS_COMPONENT, ECS_ENTITY_MASK, ECS_FIRST_USER_ID, ECS_IS_A, ECS_WILDCARD};

verus! {

/// One id held by an entity, with the bytes of its value (none for a tag)
/// and whether it is enabled.
pub struct SlotState {
    pub id: u64,
    pub value: Seq<u8>,
    pub enabled: bool,
}

/// What the world holds of one entity.
pub struct EntityState {
    pub alive: bool,
    pub name: Seq<u8>,
    pub symbol: Seq<u8>,
    pub slots: Seq<SlotState>,
    pub info: Option<ComponentInfo>,
}

impl EntityState {
    /// An entity that is not alive and holds nothing.
    pub open spec fn empty() -> EntityState {
        EntityState { alive: false, name: Seq::empty(), symbol: Seq::empty(), slots: Seq::empty(),
            info: None }
    }

    /// A live entity that holds nothing yet.
    pub open spec fn fresh() -> EntityState {
        EntityState { alive: true, name: Seq::empty(), symbol: Seq::empty(), slots: Seq::empty(), info: None }
    }

    /// The ids the entity holds, in slot order: its type.
    pub open spec fn ids(self) -> Seq<u64> {
        Seq::new(self.slots.len(), |i: int| self.slots[i].id)
    }

    /// Index of the first slot at or after `from` whose id is matched by
    /// `pattern`, or -1.
    pub open spec fn search(self, pattern: u64, from: int) -> int
        decreases self.slots.len() - from,
    {
        if from < 0 || from >= self.slots.len() {
            -1
        } else if crate::id::id_match_spec(self.slots[from].id, pattern) {
            from
        } else {
            self.search(pattern, from + 1)
        }
    }

    /// Whether the entity holds every id at most once.
    pub open spec fn unique(self) -> bool {
        forall|i: int, j: int| 0 <= i < j < self.slots.len() ==> (#[trigger] self.slots[i]).id != (
        #[trigger] self.slots[j]).id
    }

    /// Whether the entity holds exactly this id.
    pub open spec fn holds(self, id: u64) -> bool {
        exists|i: int| 0 <= i < self.slots.len() && (#[trigger] self.slots[i]).id == id
    }

    /// An entity that holds no id that a pattern matches holds no id that
    /// the pattern matches.
    pub proof fn not_owns_not_holds(self, pattern: u64, id: u64)
        requires
            !self.owns(pattern),
            crate::id::id_match_spec(id, pattern),
        ensures
            !self.holds(id),
    {
        self.search_is_first(pattern, 0);
    }

    /// An entity that holds every id once still does after it was given an
    /// id that it did not hold.
    pub proof fn with_slot_unique(self, slot: SlotState)
        requires
            self.unique(),
            !self.holds(slot.id),
        ensures
            self.with_slot(slot).unique(),
    {
        let after = self.with_slot(slot);
        assert forall|i: int, j: int| 0 <= i < j < after.slots.len() implies (#[trigger] after.slots[i]).id != (
        #[trigger] after.slots[j]).id by {
            if j == self.slots.len() {
                assert(after.slots[i] == self.slots[i]);
            } else {
                assert(after.slots[i] == self.slots[i]);
                assert(after.slots[j] == self.slots[j]);
            }
        }
    }

    /// Replacing a value, enabling or disabling an id, or taking an id out
    /// keeps every id held once.
    pub proof fn edits_keep_unique(self, i: int, value: Seq<u8>, enabled: bool)
        requires
            self.unique(),
            0 <= i < self.slots.len(),
        ensures
            self.with_value(i, value).unique(),
            self.with_enabled(i, enabled).unique(),
            self.without_slot(i).unique(),
    {
        let a = self.with_value(i, value);
        assert forall|x: int, y: int| 0 <= x < y < a.slots.len() implies (#[trigger] a.slots[x]).id != (
        #[trigger] a.slots[y]).id by {
            assert(a.slots[x].id == self.slots[x].id);
            assert(a.slots[y].id == self.slots[y].id);
        }
        let b = self.with_enabled(i, enabled);
        assert forall|x: int, y: int| 0 <= x < y < b.slots.len() implies (#[trigger] b.slots[x]).id != (
        #[trigger] b.slots[y]).id by {
            assert(b.slots[x].id == self.slots[x].id);
            assert(b.slots[y].id == self.slots[y].id);
        }
        let c = self.without_slot(i);
        assert forall|x: int, y: int| 0 <= x < y < c.slots.len() implies (#[trigger] c.slots[x]).id != (
        #[trigger] c.slots[y]).id by {
            let x0 = if x < i { x } else { x + 1 };
            let y0 = if y < i { y } else { y + 1 };
            assert(c.slots[x] == self.slots[x0]);
            assert(c.slots[y] == self.slots[y0]);
        }
    }

    /// What `search` finds is the first match at or after `from`; it finds
    /// none only when there is none.
    pub proof fn search_is_first(self, pattern: u64, from: int)
        requires
            0 <= from,
        ensures
            self.search(pattern, from) == -1 || from <= self.search(pattern, from) < self.slots.len(),
            self.search(pattern, from) >= 0 ==> crate::id::id_match_spec(
                self.slots[self.search(pattern, from)].id,
                pattern,
            ),
            forall|j: int|
                from <= j < self.slots.len() && (self.search(pattern, from) == -1 || j < self.search(
                    pattern,
                    from,
                )) ==> !crate::id::id_match_spec((#[trigger] self.slots[j]).id, pattern),
        decreases self.slots.len() - from,
    {
        if from < self.slots.len() && !crate::id::id_match_spec(self.slots[from].id, pattern) {
            self.search_is_first(pattern, from + 1);
        }
    }

    /// An entity that was given an id holds it.
    pub proof fn with_slot_owns(self, slot: SlotState)
        ensures
            self.with_slot(slot).owns(slot.id),
    {
        let after = self.with_slot(slot);
        after.search_is_first(slot.id, 0);
        assert(after.slots[self.slots.len() as int] == slot);
    }

    /// Index of the match number `n` (from 0) at or after `from`, or -1.
    pub open spec fn nth_match(self, pattern: u64, from: int, n: nat) -> int
        decreases n,
    {
        let i = self.search(pattern, from);
        if i < 0 {
            -1
        } else if n == 0 {
            i
        } else {
            self.nth_match(pattern, i + 1, (n - 1) as nat)
        }
    }

    /// The ids at or after `from` that `pattern` matches, in slot order.
    pub open spec fn matching_from(self, pattern: u64, from: int) -> Seq<u64>
        decreases self.slots.len() - from,
    {
        if from < 0 || from >= self.slots.len() {
            Seq::empty()
        } else if crate::id::id_match_spec(self.slots[from].id, pattern) {
            seq![self.slots[from].id] + self.matching_from(pattern, from + 1)
        } else {
            self.matching_from(pattern, from + 1)
        }
    }

    /// All ids of the entity that `pattern` matches, in slot order.
    pub open spec fn matching(self, pattern: u64) -> Seq<u64> {
        self.matching_from(pattern, 0)
    }

    /// Whether the entity itself holds an id that `pattern` matches.
    pub open spec fn owns(self, pattern: u64) -> bool {
        self.search(pattern, 0) >= 0
    }

    /// The value stored for the first id that `pattern` matches; none when
    /// there is no such id or it carries no value.
    pub open spec fn value(self, pattern: u64) -> Option<Seq<u8>> {
        let i = self.search(pattern, 0);
        if i >= 0 && self.slots[i].value.len() > 0 {
            Some(self.slots[i].value)
        } else {
            None
        }
    }

    /// Whether the first id that `pattern` matches is held and enabled.
    pub open spec fn enabled(self, pattern: u64) -> bool {
        let i = self.search(pattern, 0);
        i >= 0 && self.slots[i].enabled
    }

    /// The target number `index` of the relationship `rel`: the second
    /// element of the matching pair, or 0 when there are not that many.
    pub open spec fn target(self, rel: u64, index: int) -> u64 {
        if index < 0 {
            0
        } else {
            let i = self.nth_match(crate::id::pair_spec(rel, ECS_WILDCARD), 0, index as nat);
            if i < 0 {
                0
            } else {
                crate::id::second_spec(self.slots[i].id)
            }
        }
    }

    /// The entity that stands for a registered component: it carries the
    /// description, and holds under the component that describes components
    /// the bytes of its size and alignment, which a typed read of that
    /// component gives.
    pub open spec fn component(info: ComponentInfo) -> EntityState {
        EntityState {
            info: Some(info),
            slots: seq![
                SlotState { id: ECS_COMPONENT, value: description_bytes(info.size, info.alignment), enabled: true },
            ],
            ..EntityState::fresh()
        }
    }

    /// The entity that stands for constant number `i` of the enum component
    /// `c`: a child of `c` that holds the constant's value under `c`.
    pub open spec fn constant(c: u64, i: int) -> EntityState {
        EntityState {
            slots: seq![
                SlotState { id: crate::id::pair_spec(ECS_CHILD_OF, c), value: Seq::empty(), enabled: true },
                SlotState { id: c, value: vstd::bytes::spec_u32_to_le_bytes(i as u32), enabled: true },
            ],
            ..EntityState::fresh()
        }
    }

    /// A new entity as a world with the given scope and `with` id creates
    /// it: holding the `with` id if there is one, and a child of the scope
    /// if there is one. Where the `with` id is the very pair that makes the
    /// entity a child of the scope, the entity holds it once.
    pub open spec fn created(scope: u64, with: u64, with_size: usize) -> EntityState {
        let first = if with != 0 {
            EntityState::fresh().with_slot(
                SlotState { id: with, value: Seq::new(with_size as nat, |k: int| 0u8), enabled: true },
            )
        } else {
            EntityState::fresh()
        };
        if scope != 0 && crate::id::pair_spec(ECS_CHILD_OF, scope) != with {
            first.with_slot(
                SlotState {
                    id: crate::id::pair_spec(ECS_CHILD_OF, scope),
                    value: Seq::empty(),
                    enabled: true,
                },
            )
        } else {
            first
        }
    }

    /// A new entity with a name that is the child of `parent`, or a root
    /// when `parent` is 0.
    pub open spec fn named(parent: u64, name: Seq<u8>) -> EntityState {
        if parent != 0 {
            EntityState { name, ..EntityState::child_of(parent) }
        } else {
            EntityState { name, ..EntityState::fresh() }
        }
    }

    /// A new entity that is the child of `parent`.
    pub open spec fn child_of(parent: u64) -> EntityState {
        EntityState::fresh().with_slot(
            SlotState { id: crate::id::pair_spec(ECS_CHILD_OF, parent), value: Seq::empty(), enabled: true },
        )
    }

    /// The entity after one more slot was appended.
    pub open spec fn with_slot(self, slot: SlotState) -> EntityState {
        EntityState { slots: self.slots.push(slot), ..self }
    }

    /// The entity after the slot at `i` was taken out.
    pub open spec fn without_slot(self, i: int) -> EntityState {
        EntityState { slots: self.slots.remove(i), ..self }
    }

    /// The entity after the slot at `i` was enabled or disabled.
    pub open spec fn with_enabled(self, i: int, enabled: bool) -> EntityState {
        EntityState { slots: self.slots.update(i, SlotState { enabled, ..self.slots[i] }), ..self }
    }

    /// The entity after the value of the slot at `i` was replaced.
    pub open spec fn with_value(self, i: int, value: Seq<u8>) -> EntityState {
        EntityState { slots: self.slots.update(i, SlotState { value, ..self.slots[i] }), ..self }
    }
}

/// What is known of one observer: the entity that stands for it, the events
/// it listens to, its terms, the shape of its callback, and whether the
/// callback is in place and may be run.
pub struct ObserverState {
    pub entity: u64,
    pub events: Seq<u64>,
    pub terms: Seq<Term>,
    pub shape: CallbackShape,
    pub ready: bool,
    /// Whether the observer asked to be told of what matched already when
    /// it was created.
    pub yield_existing: bool,
    /// The context value that the observer was created with.
    pub ctx: u64,
}

/// An event that waits to be delivered: what happened, to which entity,
/// about which id, and with which payload.
pub struct EventState {
    pub event: u64,
    pub entity: u64,
    pub id: u64,
    pub param: Seq<u8>,
}

impl ObserverState {
    /// The observer that watches a single entity for one event: its one
    /// term matches any id on that entity.
    pub open spec fn on_entity(observer: u64, event: u64, entity: u64,
        shape: CallbackShape) -> ObserverState {
        ObserverState {
            entity: observer,
            events: seq![event],
            terms: seq![Term { id: ECS_ANY, source: entity, access: Access::Filter }],
            shape,
            ready: true,
            yield_existing: false,
            ctx: 0,
        }
    }
}

/// A structural change that waits until the world takes changes again.
pub enum CommandState {
    /// Give the entity the id.
    AddId { entity: u64, id: u64 },
    /// Set the value of the id on the entity.
    SetValue { entity: u64, id: u64, value: Seq<u8> },
    /// Take the id from the entity.
    RemoveId { entity: u64, id: u64 },
}

/// The state of a world.
pub struct WorldState {
    /// The entities, each at the index that is its identifier.
    pub entities: Seq<EntityState>,
    /// The component identifier registered for each type key.
    pub registry: Map<u64, u64>,
    /// The component identifier registered for each type that has no
    /// description, by the identity of the type, in order of registration.
    pub externals: Seq<(TypeId, u64)>,
    /// While set, the world takes no structural change directly.
    pub readonly: bool,
    /// The entity that new entities become children of; 0 for none.
    pub scope: u64,
    /// The id that new entities are given; 0 for none.
    pub with: u64,
    /// The structural changes that were asked for while the world was
    /// read-only, oldest first.
    pub deferred: Seq<CommandState>,
}

/// The pattern that a relationship and an optional target stand for: the
/// pair of both, or the relationship alone when the target is 0.
pub open spec fn pair_pattern(first: u64, second: u64) -> u64 {
    if second != 0 {
        crate::id::pair_spec(first, second)
    } else {
        first
    }
}

/// A size as a 32-bit number; one that does not fit stands as the largest.
pub open spec fn clip(n: usize) -> u32 {
    if n > u32::MAX {
        u32::MAX
    } else {
        n as u32
    }
}

/// The value that describes a component: its size, then its alignment, each
/// as four little-endian bytes.
pub open spec fn description_bytes(size: usize, alignment: usize) -> Seq<u8> {
    vstd::bytes::spec_u32_to_le_bytes(clip(size)) + vstd::bytes::spec_u32_to_le_bytes(clip(alignment))
}

/// The description of a reserved component: the component that describes
/// components has a value of eight bytes, every other is a tag.
pub open spec fn reserved_info(k: u64) -> ComponentInfo {
    if k == ECS_COMPONENT {
        ComponentInfo { type_key: k, size: 8, alignment: 4, is_tag: false, is_enum: false, constants: 0 }
    } else {
        ComponentInfo { type_key: k, size: 0, alignment: 0, is_tag: true, is_enum: false, constants: 0 }
    }
}

/// The decimal digits of a number, as ASCII.
pub open spec fn decimal(n: nat) -> Seq<u8>
    decreases n,
{
    if n < 10 {
        seq![(48 + n) as u8]
    } else {
        decimal(n / 10).push((48 + n % 10) as u8)
    }
}

/// The separator between the elements of a path: two colons.
pub open spec fn separator() -> Seq<u8> {
    seq![58u8, 58u8]
}

/// Whether `path` holds `sep` at position `at`.
pub open spec fn holds_at(path: Seq<u8>, sep: Seq<u8>, at: int) -> bool {
    0 <= at && at + sep.len() <= path.len() && path.subrange(at, at + sep.len()) == sep
}

/// Position of the first occurrence of `sep` in `path` at or after `from`,
/// or -1. An empty separator occurs nowhere.
pub open spec fn find_sep(path: Seq<u8>, sep: Seq<u8>, from: int) -> int
    decreases path.len() - from,
{
    if sep.len() == 0 || from < 0 || from + sep.len() > path.len() {
        -1
    } else if holds_at(path, sep, from) {
        from
    } else {
        find_sep(path, sep, from + 1)
    }
}

/// The terms that hand a value to the callback, in order.
pub open spec fn data_terms(terms: Seq<Term>) -> Seq<Term>
    decreases terms.len(),
{
    if terms.len() == 0 {
        Seq::empty()
    } else if terms.last().has_data() {
        data_terms(terms.drop_last()).push(terms.last())
    } else {
        data_terms(terms.drop_last())
    }
}

/// Largest number of entities a world holds: every identifier can stand as
/// either element of a pair.
pub const MAX_ENTITIES: u64 = 0x1000_0000;

impl WorldState {
    /// A world is well formed when the reserved entities exist, every
    /// identifier fits in a pair, every registered component is one of its
    /// entities, the component that describes components is registered under
    /// its own identifier, and every entity holds every id at most once.
    pub open spec fn wf(self) -> bool {
        &&& ECS_FIRST_USER_ID <= self.entities.len() <= MAX_ENTITIES
        &&& forall|k: u64| #[trigger]
            self.registry.contains_key(k) ==> 0 < self.registry[k] < self.entities.len()
        &&& self.registry.contains_key(ECS_COMPONENT)
        &&& self.registry[ECS_COMPONENT] == ECS_COMPONENT
        &&& forall|e: int| 0 <= e < self.entities.len() ==> (#[trigger] self.entities[e]).unique()
    }

    /// Replacing an entity by one that holds every id once keeps the world
    /// well formed.
    pub proof fn with_entity_wf(self, e: u64, s: EntityState)
        requires
            self.wf(),
            s.unique(),
            e < self.entities.len(),
        ensures
            self.with_entity(e, s).wf(),
    {
        let after = self.with_entity(e, s);
        assert forall|k: int| 0 <= k < after.entities.len() implies (#[trigger] after.entities[k]).unique() by {
            if k != e {
                assert(after.entities[k] == self.entities[k]);
            }
        }
    }

    /// Appending an entity that holds every id once keeps the world well
    /// formed, while there is room.
    pub proof fn with_new_wf(self, s: EntityState)
        requires
            self.wf(),
            s.unique(),
            self.entities.len() < MAX_ENTITIES,
        ensures
            self.with_new(s).wf(),
    {
        let after = self.with_new(s);
        assert forall|k: int| 0 <= k < after.entities.len() implies (#[trigger] after.entities[k]).unique() by {
            if k < self.entities.len() {
                assert(after.entities[k] == self.entities[k]);
            }
        }
    }

    /// Whether `e` names a live entity of this world.
    pub open spec fn valid(self, e: u64) -> bool {
        0 < e < self.entities.len() && self.entities[e as int].alive
    }

    /// The entity named by `e`; the empty entity when `e` names none.
    pub open spec fn entity(self, e: u64) -> EntityState {
        if self.valid(e) {
            self.entities[e as int]
        } else {
            EntityState::empty()
        }
    }

    /// The first target of `rel` on `e`: its parent along that relationship.
    pub open spec fn up(self, e: u64, rel: u64) -> u64 {
        self.entity(e).target(rel, 0)
    }

    /// The first entity that itself holds `id`, starting at `e` and going up
    /// along `rel` for at most `fuel` steps; 0 when there is none.
    pub open spec fn holder(self, e: u64, rel: u64, id: u64, fuel: nat) -> u64
        decreases fuel,
    {
        if !self.valid(e) {
            0
        } else if self.entity(e).owns(id) {
            e
        } else if fuel == 0 {
            0
        } else {
            self.holder(self.up(e, rel), rel, id, (fuel - 1) as nat)
        }
    }

    /// The entity that provides `id` to `e`: `e` itself, or the nearest base
    /// it inherits from; 0 when `e` does not have the id.
    pub open spec fn provider(self, e: u64, id: u64) -> u64 {
        self.holder(e, ECS_IS_A, id, self.entities.len())
    }

    /// Whether `e` has `id`, itself or by inheritance.
    pub open spec fn has(self, e: u64, id: u64) -> bool {
        self.provider(e, id) != 0
    }

    /// The value of `id` that `e` sees: its own, or the one it inherits.
    pub open spec fn get(self, e: u64, id: u64) -> Option<Seq<u8>> {
        self.entity(self.provider(e, id)).value(id)
    }

    /// Number of steps from `e` up along `rel` to an entity without a
    /// target, counting at most `fuel`.
    pub open spec fn depth(self, e: u64, rel: u64, fuel: nat) -> nat
        decreases fuel,
    {
        if fuel == 0 || self.up(e, rel) == 0 {
            0
        } else {
            1 + self.depth(self.up(e, rel), rel, (fuel - 1) as nat)
        }
    }

    /// The description registered for the component `c`, if `c` is one.
    pub open spec fn info(self, c: u64) -> Option<ComponentInfo> {
        if 0 < c < self.entities.len() {
            self.entities[c as int].info
        } else {
            None
        }
    }

    /// Size of the values of the component `c`; zero when `c` is none or a tag.
    pub open spec fn size(self, c: u64) -> usize {
        match self.info(c) {
            Some(info) => info.size,
            None => 0,
        }
    }

    /// Size of the value that an id carries. A pair carries the value of its
    /// first element when that is a component with a value, else that of its
    /// second.
    pub open spec fn id_size(self, id: u64) -> usize {
        if crate::id::is_pair_spec(id) {
            if self.size(crate::id::first_spec(id)) > 0 {
                self.size(crate::id::first_spec(id))
            } else {
                self.size(crate::id::second_spec(id))
            }
        } else {
            self.size(id)
        }
    }

    /// The component identifier registered for a type key; 0 when the key
    /// is not registered.
    pub open spec fn id_of(self, type_key: u64) -> u64 {
        if self.registry.contains_key(type_key) {
            self.registry[type_key]
        } else {
            0
        }
    }

    /// Whether the world takes the registration of the component: its key
    /// is registered with this very description, or it is not registered
    /// and there is room for the component and its constants. A key that is
    /// registered with another description belongs to another type, and the
    /// registration is refused.
    pub open spec fn can_register(self, info: ComponentInfo) -> bool {
        if self.registry.contains_key(info.type_key) {
            self.info(self.registry[info.type_key]) == Some(info)
        } else {
            self.entities.len() + 1 + info.constants <= MAX_ENTITIES
        }
    }

    /// The identifier that registering the component returns: the cached
    /// one, or the next free identifier.
    pub open spec fn registered(self, info: ComponentInfo) -> u64 {
        if self.registry.contains_key(info.type_key) {
            self.registry[info.type_key]
        } else {
            self.entities.len() as u64
        }
    }

    /// The world after the component was registered: unchanged when its key
    /// is known; else with one entity for the component, one for each of its
    /// constants, and the key recorded.
    pub open spec fn register(self, info: ComponentInfo) -> WorldState {
        if self.registry.contains_key(info.type_key) {
            self
        } else {
            let c = self.entities.len() as u64;
            WorldState {
                entities: self.entities.push(EntityState::component(info)) + Seq::new(
                    info.constants as nat,
                    |i: int| EntityState::constant(c, i),
                ),
                registry: self.registry.insert(info.type_key, c),
                ..self
            }
        }
    }

    /// Index of the first entry at or after `from` of the types registered
    /// without a description that has the key, or -1.
    pub open spec fn external_search(self, key: TypeId, from: int) -> int
        decreases self.externals.len() - from,
    {
        if from < 0 || from >= self.externals.len() {
            -1
        } else if self.externals[from].0 == key {
            from
        } else {
            self.external_search(key, from + 1)
        }
    }

    /// Whether the world has room to register a type without a description.
    pub open spec fn can_register_external(self, key: TypeId) -> bool {
        self.external_search(key, 0) >= 0 || self.entities.len() < MAX_ENTITIES
    }

    /// The identifier that registering a type without a description returns:
    /// the one recorded for its key, or the next free identifier.
    pub open spec fn external_registered(self, key: TypeId) -> u64 {
        if self.external_search(key, 0) >= 0 {
            self.externals[self.external_search(key, 0)].1
        } else {
            self.entities.len() as u64
        }
    }

    /// The world after a type without a description was registered:
    /// unchanged when its key is known; else with one more entity for the
    /// component, and the key recorded.
    pub open spec fn register_external(self, key: TypeId, size: usize, alignment: usize) -> WorldState {
        if self.external_search(key, 0) >= 0 {
            self
        } else {
            WorldState {
                entities: self.entities.push(
                    EntityState::component(
                        ComponentInfo {
                            type_key: 0,
                            size,
                            alignment,
                            is_tag: size == 0,
                            is_enum: false,
                            constants: 0,
                        },
                    ),
                ),
                externals: self.externals.push((key, self.entities.len() as u64)),
                ..self
            }
        }
    }

    /// Whether `id` and `after` are what registering a described component
    /// gives: the registration where the description is well formed and the
    /// world takes it, else 0 and the world unchanged.
    pub open spec fn described_outcome(self, info: ComponentInfo, id: u64, after: WorldState) -> bool {
        if info.wf() && self.can_register(info) {
            id == self.registered(info) && after == self.register(info)
        } else {
            id == 0 && after == self
        }
    }

    /// Whether `id` and `after` are what registering a type without a
    /// description gives: the registration where there is room for it, else
    /// 0 and the world unchanged.
    pub open spec fn external_outcome(
        self,
        key: TypeId,
        size: usize,
        alignment: usize,
        id: u64,
        after: WorldState,
    ) -> bool {
        if self.can_register_external(key) {
            id == self.external_registered(key) && after == self.register_external(key, size, alignment)
        } else {
            id == 0 && after == self
        }
    }

    /// The world a new one starts as: the reserved components, each
    /// described and registered under its own identifier as type key.
    pub open spec fn initial() -> WorldState {
        WorldState {
            entities: Seq::new(
                ECS_FIRST_USER_ID as nat,
                |i: int|
                    if i == 0 {
                        EntityState::empty()
                    } else {
                        EntityState::component(reserved_info(i as u64))
                    },
            ),
            registry: Map::new(|k: u64| 1 <= k < ECS_FIRST_USER_ID, |k: u64| k),
            externals: Seq::empty(),
            readonly: false,
            scope: 0,
            with: 0,
            deferred: Seq::empty(),
        }
    }

    /// What a typed read of a component sees on `e`. A tag has no value. An
    /// enum component is read from the constant that `e` relates to; when
    /// `e` relates to none, from `e` itself.
    pub open spec fn typed_get(self, e: u64, info: ComponentInfo) -> Option<Seq<u8>> {
        let c = self.id_of(info.type_key);
        if info.is_enum {
            let constant = self.entity(e).target(c, 0);
            if constant == 0 {
                self.get(e, c)
            } else {
                self.get(constant, c)
            }
        } else if info.is_tag {
            None
        } else {
            self.get(e, c)
        }
    }

    /// Whether `e` has the component: for an enum component, a pair of the
    /// component with any of its constants.
    pub open spec fn typed_has(self, e: u64, info: ComponentInfo) -> bool {
        let c = self.id_of(info.type_key);
        if info.is_enum {
            self.has(e, crate::id::pair_spec(c, ECS_WILDCARD))
        } else {
            self.has(e, c)
        }
    }

    /// The identifier of constant number `index` of the enum component
    /// registered under `type_key`: the constants follow their component.
    pub open spec fn constant_id(self, type_key: u64, index: u32) -> u64 {
        let c = self.id_of(type_key);
        if c == 0 || c + 1 + index > ECS_ENTITY_MASK {
            0
        } else {
            (c + 1 + index) as u64
        }
    }

    /// The live entities with identifier at or above `from` that themselves
    /// hold `id`, in ascending order.
    pub open spec fn owners_from(self, id: u64, from: int) -> Seq<u64>
        decreases self.entities.len() - from,
    {
        if from < 0 || from >= self.entities.len() {
            Seq::empty()
        } else if self.valid(from as u64) && self.entity(from as u64).owns(id) {
            seq![from as u64] + self.owners_from(id, from + 1)
        } else {
            self.owners_from(id, from + 1)
        }
    }

    /// The children of `parent` along `rel`: the live entities that hold the
    /// pair `(rel, parent)`, in ascending order. A wildcard has no children.
    pub open spec fn children(self, rel: u64, parent: u64) -> Seq<u64> {
        if crate::id::is_wild_spec(parent) {
            Seq::empty()
        } else {
            self.owners_from(crate::id::pair_spec(rel, parent), 0)
        }
    }

    /// The entity that a term reads on a row: its fixed source, or the
    /// entity of the row.
    pub open spec fn subject(t: Term, entity: u64) -> u64 {
        if t.source == 0 {
            entity
        } else {
            t.source
        }
    }

    /// Whether a term holds for an entity: its subject has the term's id. A
    /// wildcard term holds for the entity it is fixed to.
    pub open spec fn term_holds(self, t: Term, entity: u64) -> bool {
        if crate::id::is_wild_spec(t.id) {
            Self::subject(t, entity) == entity
        } else {
            self.has(Self::subject(t, entity), t.id)
        }
    }

    /// Whether an event about `id` on `entity` concerns a term: the term
    /// reads that entity and its id matches.
    pub open spec fn term_triggers(t: Term, entity: u64, id: u64) -> bool {
        Self::subject(t, entity) == entity && (crate::id::is_wild_spec(t.id) || crate::id::id_match_spec(
            id,
            t.id,
        ))
    }

    /// Whether an observer is to be told of an event about `id` on
    /// `entity`: it listens to the event, one of its terms is concerned, and
    /// all of its terms hold.
    pub open spec fn observer_matches(self, o: ObserverState, event: u64, entity: u64, id: u64) -> bool {
        &&& o.events.contains(event)
        &&& exists|k: int| 0 <= k < o.terms.len() && Self::term_triggers(#[trigger] o.terms[k], entity, id)
        &&& forall|k: int| 0 <= k < o.terms.len() ==> self.term_holds(#[trigger] o.terms[k], entity)
    }

    /// The positions, in ascending order, of the first `upto` observers that
    /// are to be told of an event about `id` on `entity`.
    pub open spec fn told(
        self,
        observers: Seq<ObserverState>,
        event: u64,
        entity: u64,
        id: u64,
        upto: int,
    ) -> Seq<int>
        decreases upto,
    {
        if upto <= 0 {
            Seq::empty()
        } else if self.observer_matches(observers[upto - 1], event, entity, id) {
            self.told(observers, event, entity, id, upto - 1).push(upto - 1)
        } else {
            self.told(observers, event, entity, id, upto - 1)
        }
    }

    /// The bytes that a term reads on one entity: the value its subject sees,
    /// or nothing.
    pub open spec fn term_value(self, t: Term, entity: u64) -> Seq<u8> {
        match self.get(Self::subject(t, entity), t.id) {
            Some(v) => v,
            None => Seq::empty(),
        }
    }

    /// The bytes of the column of a term over the given rows: for a term
    /// with a fixed source the one value of that source, else the values of
    /// the rows back to back.
    pub open spec fn column_bytes(self, t: Term, entities: Seq<u64>) -> Seq<u8>
        decreases entities.len(),
    {
        if t.source != 0 {
            self.term_value(t, 0)
        } else if entities.len() == 0 {
            Seq::empty()
        } else {
            self.column_bytes(t, entities.drop_last()) + self.term_value(t, entities.last())
        }
    }

    /// Whether all terms hold for an entity.
    pub open spec fn terms_hold(self, terms: Seq<Term>, entity: u64) -> bool {
        forall|k: int| 0 <= k < terms.len() ==> self.term_holds(#[trigger] terms[k], entity)
    }

    /// The live entities with identifier at or above `from` for which all
    /// terms hold, in ascending order.
    pub open spec fn matches_from(self, terms: Seq<Term>, from: int) -> Seq<u64>
        decreases self.entities.len() - from,
    {
        if from < 0 || from >= self.entities.len() {
            Seq::empty()
        } else if self.valid(from as u64) && self.terms_hold(terms, from as u64) {
            seq![from as u64] + self.matches_from(terms, from + 1)
        } else {
            self.matches_from(terms, from + 1)
        }
    }

    /// Every entity that a query visits is alive, and all terms hold for it.
    pub proof fn matches_hold(self, terms: Seq<Term>, from: int, i: int)
        requires
            self.wf(),
            0 <= from,
            0 <= i < self.matches_from(terms, from).len(),
        ensures
            self.valid(self.matches_from(terms, from)[i]),
            self.terms_hold(terms, self.matches_from(terms, from)[i]),
            from <= self.matches_from(terms, from)[i],
        decreases self.entities.len() - from,
    {
        if from < self.entities.len() {
            let rest = self.matches_from(terms, from + 1);
            if self.valid(from as u64) && self.terms_hold(terms, from as u64) {
                assert(self.matches_from(terms, from) == seq![from as u64] + rest);
                if i > 0 {
                    self.matches_hold(terms, from + 1, i - 1);
                    assert((seq![from as u64] + rest)[i] == rest[i - 1]);
                } else {
                    assert((seq![from as u64] + rest)[0] == from as u64);
                }
            } else {
                self.matches_hold(terms, from + 1, i);
            }
        }
    }

    /// The entities that a query with the given terms visits: the live
    /// entities for which all terms hold, in the order they were created.
    /// A query without terms visits nothing.
    pub open spec fn matches(self, terms: Seq<Term>) -> Seq<u64> {
        if terms.len() == 0 {
            Seq::empty()
        } else {
            self.matches_from(terms, 0)
        }
    }

    /// Whether `id` can be given to `e`: `e` is alive, the id is a concrete
    /// one, and `e` does not hold it yet.
    pub open spec fn can_add(self, e: u64, id: u64) -> bool {
        self.valid(e) && id != 0 && !self.entity(e).owns(id)
    }

    /// The world after `e` was given `id`: with a zeroed value of the size
    /// registered for the id. Unchanged when the id cannot be added.
    pub open spec fn added(self, e: u64, id: u64) -> WorldState {
        if self.can_add(e, id) {
            self.with_entity(
                e,
                self.entity(e).with_slot(
                    SlotState { id, value: Seq::new(self.id_size(id) as nat, |k: int| 0u8), enabled: true },
                ),
            )
        } else {
            self
        }
    }

    /// Whether a value can be set for `id` on `e`: `e` is alive, the id is
    /// a concrete one, and the value has the size registered for the id.
    pub open spec fn can_set(self, e: u64, id: u64, value: Seq<u8>) -> bool {
        self.valid(e) && id != 0 && value.len() == self.id_size(id)
    }

    /// The world after the value of `id` on `e` was set: the id is added
    /// first when `e` does not hold it. Unchanged when the value cannot be
    /// set.
    pub open spec fn set(self, e: u64, id: u64, value: Seq<u8>) -> WorldState {
        if self.can_set(e, id, value) {
            let w = self.added(e, id);
            w.with_entity(e, w.entity(e).with_value(w.entity(e).search(id, 0), value))
        } else {
            self
        }
    }

    /// The world after `id` was taken from `e`: without the first slot that
    /// the id matches. Unchanged when `e` holds no such id.
    pub open spec fn removed(self, e: u64, id: u64) -> WorldState {
        if self.entity(e).owns(id) {
            self.with_entity(e, self.entity(e).without_slot(self.entity(e).search(id, 0)))
        } else {
            self
        }
    }

    /// The world after `e` took over the value of `id` that it inherits: `e`
    /// then holds the id itself, with a copy of the value. Unchanged when
    /// `e` holds the id already or inherits no value for it.
    pub open spec fn overridden(self, e: u64, id: u64) -> WorldState {
        let base = self.provider(e, id);
        if self.valid(e) && !self.entity(e).owns(id) && base != 0 && self.entity(base).value(id) is Some {
            self.with_entity(
                e,
                self.entity(e).with_slot(
                    SlotState {
                        id: self.entity(base).slots[self.entity(base).search(id, 0)].id,
                        value: self.entity(base).value(id).unwrap(),
                        enabled: true,
                    },
                ),
            )
        } else {
            self
        }
    }

    /// The value of `id` that a write access to `e` hands out: the value
    /// that `e` holds once it has taken over what it inherits.
    pub open spec fn writable_value(self, e: u64, id: u64) -> Option<Seq<u8>> {
        self.overridden(e, id).entity(e).value(id)
    }

    /// The world after a write access to `id` on `e` left `value` behind:
    /// `e` has taken over what it inherits, and holds `value` for the id.
    pub open spec fn written(self, e: u64, id: u64, value: Seq<u8>) -> WorldState {
        let w = self.overridden(e, id);
        w.with_entity(e, w.entity(e).with_value(w.entity(e).search(id, 0), value))
    }

    /// The entity that holds the value of a component for `e`: for an enum
    /// component the constant that `e` relates to, if it relates to one;
    /// else `e` itself.
    pub open spec fn value_holder(self, e: u64, info: ComponentInfo) -> u64 {
        let c = self.id_of(info.type_key);
        if info.is_enum && self.entity(e).target(c, 0) != 0 {
            self.entity(e).target(c, 0)
        } else {
            e
        }
    }

    /// The world after an entity was created in the current scope.
    pub open spec fn with_created(self) -> WorldState {
        self.with_new(EntityState::created(self.scope, self.with, self.id_size(self.with)))
    }

    /// The world after `dst` was given a copy of every id of `src` that it
    /// does not hold yet, from slot `from` on: with the value of `src` if
    /// `copy_value` is set, else with a zeroed value of the same length.
    pub open spec fn cloned_from(self, dst: u64, src: u64, copy_value: bool, from: int) -> WorldState
        decreases self.entity(src).slots.len() - from,
    {
        if from < 0 || from >= self.entity(src).slots.len() || !self.valid(dst) || dst == src {
            self
        } else {
            let slot = self.entity(src).slots[from];
            let next = if self.entity(dst).owns(slot.id) || slot.id == 0 {
                self
            } else {
                self.with_entity(
                    dst,
                    self.entity(dst).with_slot(
                        SlotState {
                            id: slot.id,
                            value: if copy_value {
                                slot.value
                            } else {
                                Seq::new(slot.value.len(), |k: int| 0u8)
                            },
                            enabled: true,
                        },
                    ),
                )
            };
            next.cloned_from(dst, src, copy_value, from + 1)
        }
    }

    /// The text that stands for `e` in a path: its name, or the decimal
    /// digits of its identifier when it has no name or is not alive.
    pub open spec fn label(self, e: u64) -> Seq<u8> {
        if self.entity(e).name.len() > 0 {
            self.entity(e).name
        } else {
            decimal((e & ECS_ENTITY_MASK) as nat)
        }
    }

    /// The path of `child` below `parent`: the labels from the first
    /// ancestor below `parent` down to `child`, with `sep` between them. A
    /// path that starts at a root starts with `prefix`. At most `fuel`
    /// ancestors are named.
    pub open spec fn path_below(
        self,
        parent: u64,
        child: u64,
        sep: Seq<u8>,
        prefix: Seq<u8>,
        fuel: nat,
    ) -> Seq<u8>
        decreases fuel,
    {
        let up = self.up(child, ECS_CHILD_OF);
        let head = if !self.valid(child) {
            Seq::empty()
        } else if up == 0 {
            prefix
        } else if up != parent && fuel > 0 {
            self.path_below(parent, up, sep, prefix, (fuel - 1) as nat) + sep
        } else {
            Seq::empty()
        };
        head + self.label(child)
    }

    /// The path of `child` relative to `parent`. A wildcard is `*`, the
    /// any-id `_`, and the path of an entity relative to itself is empty.
    pub open spec fn path(self, parent: u64, child: u64, sep: Seq<u8>, prefix: Seq<u8>) -> Seq<u8> {
        if child == ECS_WILDCARD {
            seq![42u8]
        } else if child == ECS_ANY {
            seq![95u8]
        } else if child == 0 || parent != child {
            self.path_below(parent, child, sep, prefix, self.entities.len())
        } else {
            Seq::empty()
        }
    }

    /// The first live entity with identifier at or above `from` that has
    /// the name and is a child of `parent` (a root, when `parent` is 0);
    /// 0 when there is none.
    pub open spec fn child_named(self, parent: u64, name: Seq<u8>, from: int) -> u64
        decreases self.entities.len() - from,
    {
        if from < 0 || from >= self.entities.len() || name.len() == 0 {
            0
        } else if self.valid(from as u64) && self.entity(from as u64).name == name && self.up(
            from as u64,
            ECS_CHILD_OF,
        ) == parent {
            from as u64
        } else {
            self.child_named(parent, name, from + 1)
        }
    }

    /// The entity that the rest of `path` from position `pos` names below
    /// `parent`: each element between separators names a child of the
    /// entity before it. 0 when an element names nothing.
    pub open spec fn resolve(self, parent: u64, path: Seq<u8>, sep: Seq<u8>, pos: int) -> u64
        decreases path.len() - pos,
    {
        let i = find_sep(path, sep, pos);
        if pos < 0 || pos > path.len() {
            0
        } else if pos <= i && sep.len() > 0 && i + sep.len() <= path.len() {
            let head = self.child_named(parent, path.subrange(pos, i), 0);
            if head == 0 {
                0
            } else {
                self.resolve(head, path, sep, i + sep.len())
            }
        } else {
            self.child_named(parent, path.subrange(pos, path.len() as int), 0)
        }
    }

    /// The entity that `path` names below `parent`; when it names none and
    /// `search` is set, below the nearest ancestor of `parent` where it
    /// names one, the root included.
    pub open spec fn lookup_from(
        self,
        parent: u64,
        path: Seq<u8>,
        sep: Seq<u8>,
        pos: int,
        search: bool,
        fuel: nat,
    ) -> u64
        decreases fuel,
    {
        let found = self.resolve(parent, path, sep, pos);
        if found != 0 || !search || parent == 0 || fuel == 0 {
            found
        } else {
            self.lookup_from(self.up(parent, ECS_CHILD_OF), path, sep, pos, search, (fuel - 1) as nat)
        }
    }

    /// The entity that `path` names as seen from `parent`. A path that
    /// starts with `prefix` is looked up from the root.
    pub open spec fn lookup(self, parent: u64, path: Seq<u8>, sep: Seq<u8>, prefix: Seq<u8>,
        search: bool) -> u64 {
        if prefix.len() > 0 && holds_at(path, prefix, 0) {
            self.lookup_from(0, path, sep, prefix.len() as int, search, self.entities.len())
        } else {
            self.lookup_from(parent, path, sep, 0, search, self.entities.len())
        }
    }

    /// The end of the path element that starts at `pos`: the position of the
    /// next separator, or the end of the path.
    pub open spec fn element_end(path: Seq<u8>, sep: Seq<u8>, pos: int) -> int {
        let i = find_sep(path, sep, pos);
        if pos <= i && sep.len() > 0 && i + sep.len() <= path.len() {
            i
        } else {
            path.len() as int
        }
    }

    /// The world after the entities that the rest of `path` from `pos`
    /// names below `parent` were made to exist: each element names a child
    /// of the entity before it, which is created if it is not there.
    pub open spec fn ensure_path(self, parent: u64, path: Seq<u8>, sep: Seq<u8>, pos: int) -> WorldState
        decreases path.len() - pos,
    {
        let end = Self::element_end(path, sep, pos);
        if pos < 0 || pos >= path.len() || end <= pos {
            self
        } else {
            let name = path.subrange(pos, end);
            let found = self.child_named(parent, name, 0);
            let next = if found != 0 {
                self
            } else {
                self.with_new(EntityState::named(parent, name))
            };
            let child = if found != 0 {
                found
            } else {
                self.entities.len() as u64
            };
            if end + sep.len() <= path.len() && end < path.len() {
                next.ensure_path(child, path, sep, end + sep.len())
            } else {
                next
            }
        }
    }

    /// The entity that the rest of `path` from `pos` names below `parent`
    /// once every element exists; 0 for an empty element.
    pub open spec fn ensured(self, parent: u64, path: Seq<u8>, sep: Seq<u8>, pos: int) -> u64
        decreases path.len() - pos,
    {
        let end = Self::element_end(path, sep, pos);
        if pos < 0 || pos >= path.len() || end <= pos {
            0
        } else {
            let name = path.subrange(pos, end);
            let found = self.child_named(parent, name, 0);
            let next = if found != 0 {
                self
            } else {
                self.with_new(EntityState::named(parent, name))
            };
            let child = if found != 0 {
                found
            } else {
                self.entities.len() as u64
            };
            if end + sep.len() <= path.len() && end < path.len() {
                next.ensured(child, path, sep, end + sep.len())
            } else {
                child
            }
        }
    }

    /// Where a named entity is created: below the root for a name that
    /// starts with the separator, else below the scope of the world.
    pub open spec fn naming_parent(self, name: Seq<u8>) -> u64 {
        if holds_at(name, separator(), 0) {
            0
        } else {
            self.scope
        }
    }

    /// Where the first element of a name starts: after a leading separator.
    pub open spec fn naming_start(name: Seq<u8>) -> int {
        if holds_at(name, separator(), 0) {
            2
        } else {
            0
        }
    }

    /// Number of live entities below `e` with the same type as `e`: the row
    /// of `e` in the table of its type.
    pub open spec fn row_of(self, e: u64, upto: int) -> nat
        decreases upto,
    {
        if upto <= 0 {
            0
        } else {
            self.row_of(e, upto - 1) + (if self.valid((upto - 1) as u64) && self.entity(
                (upto - 1) as u64,
            ).ids() == self.entity(e).ids() {
                1nat
            } else {
                0nat
            })
        }
    }

    /// The world after the first id of `e` that `id` matches was enabled or
    /// disabled; unchanged when `e` holds no such id.
    pub open spec fn enabled(self, e: u64, id: u64, enabled: bool) -> WorldState {
        if self.entity(e).owns(id) {
            self.with_entity(e, self.entity(e).with_enabled(self.entity(e).search(id, 0), enabled))
        } else {
            self
        }
    }

    /// The world after `e` was deleted: `e` is no longer alive and holds
    /// nothing. Unchanged when `e` is not alive.
    pub open spec fn deleted(self, e: u64) -> WorldState {
        if self.valid(e) {
            self.with_entity(e, EntityState::empty())
        } else {
            self
        }
    }

    /// The world after a change was put off until later.
    pub open spec fn deferring(self, c: CommandState) -> WorldState {
        WorldState { deferred: self.deferred.push(c), ..self }
    }

    /// The world after a change that was put off was made.
    pub open spec fn applied(self, c: CommandState) -> WorldState {
        match c {
            CommandState::AddId { entity, id } => self.added(entity, id),
            CommandState::SetValue { entity, id, value } => self.set(entity, id, value),
            CommandState::RemoveId { entity, id } => self.removed(entity, id),
        }
    }

    /// The world after the first `upto` of the given changes were made, in
    /// order.
    pub open spec fn applied_all(self, commands: Seq<CommandState>, upto: int) -> WorldState
        decreases upto,
    {
        if upto <= 0 {
            self
        } else {
            self.applied_all(commands, upto - 1).applied(commands[upto - 1])
        }
    }

    /// The world as it takes changes again: no longer read-only, with
    /// nothing put off.
    pub open spec fn resumed(self) -> WorldState {
        WorldState { readonly: false, deferred: Seq::empty(), ..self }
    }

    /// The text that stands for an id: the path of an entity with `.`
    /// between its elements; for a pair the texts of both elements in
    /// parentheses, with a comma between them.
    pub open spec fn id_text(self, id: u64) -> Seq<u8> {
        if crate::id::is_pair_spec(id) {
            seq![40u8] + self.path(0, crate::id::first_spec(id), seq![46u8], Seq::empty()) + seq![44u8]
                + self.path(0, crate::id::second_spec(id), seq![46u8], Seq::empty()) + seq![41u8]
        } else {
            self.path(0, id, seq![46u8], Seq::empty())
        }
    }

    /// The text that stands for the first `upto` of the given ids: the
    /// texts of the ids with a comma and a space between them.
    pub open spec fn type_text(self, ids: Seq<u64>, upto: int) -> Seq<u8>
        decreases upto,
    {
        if upto <= 0 {
            Seq::empty()
        } else if upto == 1 {
            self.id_text(ids[0])
        } else {
            self.type_text(ids, upto - 1) + seq![44u8, 32u8] + self.id_text(ids[upto - 1])
        }
    }

    /// The text that an entity is shown as: its name, or the decimal digits
    /// of its identifier when it has none.
    pub open spec fn display_text(self, e: u64) -> Seq<u8> {
        if self.entity(e).name.len() > 0 {
            self.entity(e).name
        } else {
            decimal(e as nat)
        }
    }

    /// The value that a typed write access to a component on `e` hands out.
    pub open spec fn typed_writable(self, e: u64, info: ComponentInfo) -> Option<Seq<u8>> {
        self.writable_value(self.value_holder(e, info), self.id_of(info.type_key))
    }

    /// The world after a typed write access to a component on `e` left
    /// `value` behind.
    pub open spec fn typed_written(self, e: u64, info: ComponentInfo, value: Seq<u8>) -> WorldState {
        self.written(self.value_holder(e, info), self.id_of(info.type_key), value)
    }

    /// The world after a typed write access to a component on `e` that
    /// found no value: what was inherited is taken over, nothing else.
    pub open spec fn typed_overridden(self, e: u64, info: ComponentInfo) -> WorldState {
        self.overridden(self.value_holder(e, info), self.id_of(info.type_key))
    }

    /// The world after the entity `e` was replaced.
    pub open spec fn with_entity(self, e: u64, s: EntityState) -> WorldState {
        WorldState { entities: self.entities.update(e as int, s), ..self }
    }

    /// The world after one more entity was appended.
    pub open spec fn with_new(self, s: EntityState) -> WorldState {
        WorldState { entities: self.entities.push(s), ..self }
    }
}

} // verus!
