//! The world: the entities, their ids and the bytes of their values.

use vstd::prelude::*;
use core::any::TypeId;
use std::collections::HashMap;
use crate::component::ComponentInfo;
use crate::id::{ecs_id_match, ecs_pair, ecs_second, ECS_FIRST_USER_ID, ECS_IS_A, ECS_WILDCARD};
use crate::state::{CommandState, EntityState, SlotState, WorldState, MAX_ENTITIES};

verus! {

/// One id of an entity with its value.
pub(crate) struct Slot {
    pub(crate) id: u64,
    pub(crate) value: Vec<u8>,
    pub(crate) enabled: bool,
}

impl View for Slot {
    type V = SlotState;

    closed spec fn view(&self) -> SlotState {
        SlotState { id: self.id, value: self.value@, enabled: self.enabled }
    }
}

/// What the world stores of one entity.
pub(crate) struct EntityRecord {
    pub(crate) alive: bool,
    pub(crate) name: Vec<u8>,
    pub(crate) symbol: Vec<u8>,
    pub(crate) slots: Vec<Slot>,
    pub(crate) info: Option<ComponentInfo>,
}

impl View for EntityRecord {
    type V = EntityState;

    closed spec fn view(&self) -> EntityState {
        EntityState {
            alive: self.alive,
            name: self.name@,
            symbol: self.symbol@,
            slots: self.slots@.map_values(|s: Slot| s@),
            info: self.info,
        }
    }
}

/// The value that describes a component: its size, then its alignment, each
/// as four little-endian bytes.
pub fn description_bytes(size: usize, alignment: usize) -> (bytes: Vec<u8>)
    ensures
        bytes@ == crate::state::description_bytes(size, alignment),
        bytes@.len() == 8,
{
    let s: u32 = if size > u32::MAX as usize {
        u32::MAX
    } else {
        size as u32
    };
    let a: u32 = if alignment > u32::MAX as usize {
        u32::MAX
    } else {
        alignment as u32
    };
    let mut bytes = vstd::bytes::u32_to_le_bytes(s);
    let mut rest = vstd::bytes::u32_to_le_bytes(a);
    bytes.append(&mut rest);
    proof {
        vstd::bytes::lemma_auto_spec_u32_to_from_le_bytes();
    }
    bytes
}

impl EntityRecord {
    /// The record of a registered component.
    pub(crate) fn component(info: ComponentInfo) -> (r: EntityRecord)
        ensures
            r@ == EntityState::component(info),
    {
        let mut r = EntityRecord::fresh();
        r.info = Some(info);
        r.slots.push(
            Slot { id: crate::id::ECS_COMPONENT, value: description_bytes(info.size, info.alignment), enabled: true },
        );
        proof {
            r.view_slots();
            assert(r@.slots =~= EntityState::component(info).slots);
        }
        r
    }

    /// The slots of the state are those of the record, one for one.
    pub(crate) proof fn view_slots(&self)
        ensures
            self@.slots.len() == self.slots@.len(),
            self@.slots.len() == self.slots.len(),
            forall|k: int| 0 <= k < self.slots@.len() ==> #[trigger] self@.slots[k] == self.slots@[k]@,
            forall|k: int|
                0 <= k < self.slots@.len() ==> (#[trigger] self.slots@[k])@ == (SlotState {
                    id: self.slots@[k].id,
                    value: self.slots@[k].value@,
                    enabled: self.slots@[k].enabled,
                }),
            self@.alive == self.alive,
            self@.name == self.name@,
            self@.symbol == self.symbol@,
            self@.info == self.info,
    {
    }

    /// A live record that holds nothing.
    pub(crate) fn fresh() -> (r: EntityRecord)
        ensures
            r@ == EntityState::fresh(),
            r.alive,
            r.name@ == Seq::<u8>::empty(),
            r.symbol@ == Seq::<u8>::empty(),
            r.slots@ == Seq::<Slot>::empty(),
            r.info is None,
    {
        let r = EntityRecord { alive: true, name: Vec::new(), symbol: Vec::new(), slots: Vec::new(),
            info: None };
        assert(r@.slots =~= Seq::empty());
        r
    }

    /// Index of the first slot at or after `from` that `pattern` matches.
    pub(crate) fn search(&self, pattern: u64, from: usize) -> (r: Option<usize>)
        ensures
            match r {
                Some(i) => i as int == self@.search(pattern, from as int) && from <= i
                    < self.slots.len(),
                None => self@.search(pattern, from as int) == -1,
            },
    {
        let mut i: usize = from;
        while i < self.slots.len()
            invariant
                from <= i,
                self@.search(pattern, from as int) == self@.search(pattern, i as int),
            decreases self.slots.len() - i,
        {
            assert(self@.slots[i as int] == self.slots@[i as int]@);
            if ecs_id_match(self.slots[i].id, pattern) {
                return Some(i);
            }
            i += 1;
        }
        None
    }

    /// Index of the match number `n` of `pattern`.
    pub(crate) fn nth_match(&self, pattern: u64, n: usize) -> (r: Option<usize>)
        ensures
            match r {
                Some(i) => i as int == self@.nth_match(pattern, 0, n as nat) && i
                    < self.slots.len(),
                None => self@.nth_match(pattern, 0, n as nat) == -1,
            },
    {
        let mut from: usize = 0;
        let mut k: usize = n;
        loop
            invariant
                from <= self.slots.len(),
                self@.nth_match(pattern, 0, n as nat) == self@.nth_match(pattern, from as int, k as nat),
            decreases k,
        {
            match self.search(pattern, from) {
                None => {
                    return None;
                },
                Some(i) => {
                    if k == 0 {
                        return Some(i);
                    }
                    from = i + 1;
                    k -= 1;
                },
            }
        }
    }

    /// The target number `index` of the relationship `rel`, or 0.
    pub(crate) fn target(&self, rel: u64, index: i32) -> (t: u64)
        ensures
            t == self@.target(rel, index as int),
    {
        if index < 0 {
            return 0;
        }
        match self.nth_match(ecs_pair(rel, ECS_WILDCARD), index as usize) {
            None => 0,
            Some(i) => {
                assert(self@.slots[i as int] == self.slots@[i as int]@);
                ecs_second(self.slots[i].id)
            },
        }
    }

    /// The ids of the record in slot order.
    pub(crate) fn ids(&self) -> (ids: Vec<u64>)
        ensures
            ids@ == self@.ids(),
    {
        let mut ids: Vec<u64> = Vec::new();
        let mut i: usize = 0;
        proof {
            self.view_slots();
        }
        while i < self.slots.len()
            invariant
                i <= self.slots.len(),
                ids@.len() == i,
                self@.slots.len() == self.slots.len(),
                forall|k: int| 0 <= k < self.slots@.len() ==> #[trigger] self@.slots[k] == self.slots@[k]@,
                forall|k: int|
                    0 <= k < self.slots@.len() ==> (#[trigger] self.slots@[k])@ == (SlotState {
                        id: self.slots@[k].id,
                        value: self.slots@[k].value@,
                        enabled: self.slots@[k].enabled,
                    }),
                forall|k: int| 0 <= k < i ==> ids@[k] == self@.slots[k].id,
            decreases self.slots.len() - i,
        {
            ids.push(self.slots[i].id);
            i += 1;
        }
        assert(ids@ =~= self@.ids());
        ids
    }

    /// The ids of the record that `pattern` matches, in slot order.
    pub(crate) fn matching(&self, pattern: u64) -> (ids: Vec<u64>)
        ensures
            ids@ == self@.matching(pattern),
    {
        let mut ids: Vec<u64> = Vec::new();
        let mut i: usize = 0;
        proof {
            self.view_slots();
        }
        while i < self.slots.len()
            invariant
                i <= self.slots.len(),
                self@.slots.len() == self.slots.len(),
                forall|k: int| 0 <= k < self.slots@.len() ==> #[trigger] self@.slots[k] == self.slots@[k]@,
                forall|k: int|
                    0 <= k < self.slots@.len() ==> (#[trigger] self.slots@[k])@ == (SlotState {
                        id: self.slots@[k].id,
                        value: self.slots@[k].value@,
                        enabled: self.slots@[k].enabled,
                    }),
                self@.matching(pattern) == ids@ + self@.matching_from(pattern, i as int),
            decreases self.slots.len() - i,
        {
            let id: u64 = self.slots[i].id;
            assert(self@.slots[i as int].id == id);
            if ecs_id_match(id, pattern) {
                ids.push(id);
                assert(ids@ + self@.matching_from(pattern, i + 1) =~= ids@.drop_last() + (seq![id]
                    + self@.matching_from(pattern, i + 1)));
            }
            i += 1;
        }
        assert(ids@ + self@.matching_from(pattern, i as int) =~= ids@);
        ids
    }

    /// The value of the first id that `pattern` matches, if it has one.
    pub(crate) fn value(&self, pattern: u64) -> (r: Option<&[u8]>)
        ensures
            match r {
                Some(v) => self@.value(pattern) == Some(v@),
                None => self@.value(pattern) is None,
            },
    {
        match self.search(pattern, 0) {
            None => None,
            Some(i) => {
                assert(self@.slots[i as int] == self.slots@[i as int]@);
                if self.slots[i].value.len() > 0 {
                    Some(self.slots[i].value.as_slice())
                } else {
                    None
                }
            },
        }
    }

    /// Whether the first id that `pattern` matches is held and enabled.
    pub(crate) fn enabled(&self, pattern: u64) -> (r: bool)
        ensures
            r == self@.enabled(pattern),
    {
        match self.search(pattern, 0) {
            None => false,
            Some(i) => {
                assert(self@.slots[i as int] == self.slots@[i as int]@);
                self.slots[i].enabled
            },
        }
    }
}

/// Whether two lists of ids are the same.
pub fn vec_eq(a: &Vec<u64>, b: &Vec<u64>) -> (r: bool)
    ensures
        r == (a@ == b@),
{
    if a.len() != b.len() {
        return false;
    }
    let mut i: usize = 0;
    while i < a.len()
        invariant
            i <= a.len(),
            a.len() == b.len(),
            forall|k: int| 0 <= k < i ==> a@[k] == b@[k],
        decreases a.len() - i,
    {
        if a[i] != b[i] {
            return false;
        }
        i += 1;
    }
    assert(a@ =~= b@);
    true
}

/// A structural change that waits until the world takes changes again.
pub(crate) enum Command {
    AddId { entity: u64, id: u64 },
    SetValue { entity: u64, id: u64, value: Vec<u8> },
    RemoveId { entity: u64, id: u64 },
}

impl View for Command {
    type V = CommandState;

    closed spec fn view(&self) -> CommandState {
        match self {
            Command::AddId { entity, id } => CommandState::AddId { entity: *entity, id: *id },
            Command::SetValue { entity, id, value } => CommandState::SetValue { entity: *entity, id: *id,
                value: value@ },
            Command::RemoveId { entity, id } => CommandState::RemoveId { entity: *entity, id: *id },
        }
    }
}

/// The states of a list of changes.
pub(crate) closed spec fn commands_view(commands: Vec<Command>) -> Seq<CommandState> {
    commands@.map_values(|c: Command| c@)
}

/// The state of each change in a list, by the kind of the change.
pub(crate) proof fn commands_view_at(commands: Vec<Command>, k: int)
    requires
        0 <= k < commands@.len(),
    ensures
        commands_view(commands).len() == commands@.len(),
        match commands@[k] {
            Command::AddId { entity, id } => commands_view(commands)[k] == (CommandState::AddId { entity,
                id }),
            Command::SetValue { entity, id, value } => commands_view(commands)[k] == (CommandState::SetValue {
                entity,
                id,
                value: value@,
            }),
            Command::RemoveId { entity, id } => commands_view(commands)[k] == (CommandState::RemoveId {
                entity,
                id,
            }),
        },
{
}

/// A world of entities: one record for each identifier handed out so far,
/// the registry from static types to component identifiers, the scope that
/// new entities are created in, and the structural changes that wait while
/// the world is read-only.
pub struct World {
    pub(crate) records: Vec<EntityRecord>,
    pub(crate) registry: HashMap<u64, u64>,
    pub(crate) externals: Vec<(TypeId, u64)>,
    pub(crate) readonly: bool,
    pub(crate) scope: u64,
    pub(crate) with: u64,
    pub(crate) deferred: Vec<Command>,
}

impl View for World {
    type V = WorldState;

    closed spec fn view(&self) -> WorldState {
        WorldState {
            entities: self.records@.map_values(|r: EntityRecord| r@),
            registry: self.registry@,
            externals: self.externals@,
            readonly: self.readonly,
            scope: self.scope,
            with: self.with,
            deferred: commands_view(self.deferred),
        }
    }
}

impl World {
    /// The entities of the state are the records, one for one.
    pub(crate) proof fn view_entities(&self)
        ensures
            self@.entities.len() == self.records@.len(),
            self@.entities.len() == self.records.len(),
            forall|k: int| 0 <= k < self.records@.len() ==> #[trigger] self@.entities[k] == self.records@[k]@,
            self@.registry == self.registry@,
            self@.externals == self.externals@,
            self@.externals.len() == self.externals.len(),
            self@.readonly == self.readonly,
            self@.scope == self.scope,
            self@.with == self.with,
            self@.deferred == commands_view(self.deferred),
            self@.deferred.len() == self.deferred@.len(),
            self@.deferred.len() == self.deferred.len(),
            forall|k: int| 0 <= k < self.deferred@.len()
                ==> #[trigger] self@.deferred[k] == self.deferred@[k]@,
    {
    }

    /// Well-formedness of the world: that of its state.
    pub open spec fn wf(&self) -> bool {
        self@.wf()
    }

    /// The record of a live entity.
    pub(crate) fn record(&self, e: u64) -> (r: Option<&EntityRecord>)
        ensures
            r is Some == self@.valid(e),
            r matches Some(rec) ==> rec@ == self@.entity(e),
    {
        if e == 0 || e >= self.records.len() as u64 {
            return None;
        }
        let rec = &self.records[e as usize];
        assert(self@.entities[e as int] == self.records@[e as int]@);
        if rec.alive {
            Some(rec)
        } else {
            None
        }
    }

    /// A new world: the reserved entities and nothing else.
    pub fn new() -> (w: World)
        ensures
            w.wf(),
            w@ == WorldState::initial(),
    {
        let mut records: Vec<EntityRecord> = Vec::new();
        let mut dead = EntityRecord::fresh();
        dead.alive = false;
        records.push(dead);
        let mut i: u64 = 1;
        while i < ECS_FIRST_USER_ID
            invariant
                1 <= i <= ECS_FIRST_USER_ID,
                records.len() == i,
                records@[0]@ == EntityState::empty(),
                forall|k: int|
                    1 <= k < i ==> (#[trigger] records@[k])@ == EntityState::component(
                        crate::state::reserved_info(k as u64),
                    ),
            decreases ECS_FIRST_USER_ID - i,
        {
            let info = if i == crate::id::ECS_COMPONENT {
                ComponentInfo { type_key: i, size: 8, alignment: 4, is_tag: false, is_enum: false, constants: 0 }
            } else {
                ComponentInfo { type_key: i, size: 0, alignment: 0, is_tag: true, is_enum: false, constants: 0 }
            };
            records.push(EntityRecord::component(info));
            i += 1;
        }
        let mut registry: HashMap<u64, u64> = HashMap::new();
        let mut k: u64 = 1;
        while k < ECS_FIRST_USER_ID
            invariant
                1 <= k <= ECS_FIRST_USER_ID,
                forall|j: u64| #[trigger] registry@.contains_key(j) <==> 1 <= j < k,
                forall|j: u64| 1 <= j < k ==> #[trigger] registry@[j] == j,
            decreases ECS_FIRST_USER_ID - k,
        {
            registry.insert(k, k);
            k += 1;
        }
        let w = World {
            records,
            registry,
            externals: Vec::new(),
            readonly: false,
            scope: 0,
            with: 0,
            deferred: Vec::new(),
        };
        assert(w@.deferred =~= WorldState::initial().deferred);
        assert(w@.externals =~= WorldState::initial().externals);
        assert(w@.entities =~= WorldState::initial().entities);
        assert(w@.registry =~= WorldState::initial().registry);
        w
    }

    /// The first target of `rel` on `e`, or 0.
    pub fn up(&self, e: u64, rel: u64) -> (t: u64)
        ensures
            t == self@.up(e, rel),
    {
        self.target_of(e, rel, 0)
    }

    /// The target number `index` of `rel` on `e`, or 0.
    pub fn target_of(&self, e: u64, rel: u64, index: i32) -> (t: u64)
        ensures
            t == self@.entity(e).target(rel, index as int),
    {
        match self.record(e) {
            Some(rec) => rec.target(rel, index),
            None => 0,
        }
    }

    /// Whether `e` itself holds an id that `pattern` matches.
    pub fn owns_id(&self, e: u64, pattern: u64) -> (r: bool)
        ensures
            r == self@.entity(e).owns(pattern),
    {
        match self.record(e) {
            Some(rec) => rec.search(pattern, 0).is_some(),
            None => false,
        }
    }

    /// The first entity that itself holds `id`, from `e` up along `rel`.
    pub fn holder(&self, e: u64, rel: u64, id: u64) -> (h: u64)
        ensures
            h == self@.holder(e, rel, id, self@.entities.len()),
    {
        let mut cur: u64 = e;
        let mut fuel: usize = self.records.len();
        loop
            invariant
                fuel <= self.records.len(),
                self@.entities.len() == self.records.len(),
                self@.holder(e, rel, id, self@.entities.len()) == self@.holder(cur, rel, id, fuel as nat),
            decreases fuel,
        {
            match self.record(cur) {
                None => {
                    return 0;
                },
                Some(rec) => {
                    if rec.search(id, 0).is_some() {
                        return cur;
                    }
                    if fuel == 0 {
                        return 0;
                    }
                    cur = rec.target(rel, 0);
                    fuel -= 1;
                },
            }
        }
    }

    /// Whether `e` has `id`, itself or by inheritance.
    pub fn has_id(&self, e: u64, id: u64) -> (r: bool)
        ensures
            r == self@.has(e, id),
    {
        self.holder(e, ECS_IS_A, id) != 0
    }

    /// The value of `id` that `e` sees, if there is one.
    pub fn get_id(&self, e: u64, id: u64) -> (r: Option<&[u8]>)
        ensures
            match r {
                Some(v) => self@.get(e, id) == Some(v@),
                None => self@.get(e, id) is None,
            },
    {
        let h: u64 = self.holder(e, ECS_IS_A, id);
        match self.record(h) {
            Some(rec) => rec.value(id),
            None => None,
        }
    }

    /// The ids of `e` in slot order; none when `e` is not alive.
    pub fn type_of(&self, e: u64) -> (ids: Vec<u64>)
        ensures
            ids@ == self@.entity(e).ids(),
    {
        match self.record(e) {
            Some(rec) => rec.ids(),
            None => {
                let ids: Vec<u64> = Vec::new();
                assert(ids@ =~= EntityState::empty().ids());
                ids
            },
        }
    }

    /// The name of `e`; empty when it has none or is not alive.
    pub fn name_of(&self, e: u64) -> (name: &[u8])
        ensures
            name@ == self@.entity(e).name,
    {
        match self.record(e) {
            Some(rec) => {
                proof {
                    rec.view_slots();
                }
                rec.name.as_slice()
            },
            None => {
                let empty: &[u8] = &[];
                assert(empty@ =~= EntityState::empty().name);
                empty
            },
        }
    }

    /// The symbol of `e`; empty when it has none or is not alive.
    pub fn symbol_of(&self, e: u64) -> (symbol: &[u8])
        ensures
            symbol@ == self@.entity(e).symbol,
    {
        match self.record(e) {
            Some(rec) => {
                proof {
                    rec.view_slots();
                }
                rec.symbol.as_slice()
            },
            None => {
                let empty: &[u8] = &[];
                assert(empty@ =~= EntityState::empty().symbol);
                empty
            },
        }
    }

    /// The ids of `e` that `pattern` matches, in slot order.
    pub fn matching_ids(&self, e: u64, pattern: u64) -> (ids: Vec<u64>)
        ensures
            ids@ == self@.entity(e).matching(pattern),
    {
        match self.record(e) {
            Some(rec) => rec.matching(pattern),
            None => {
                let ids: Vec<u64> = Vec::new();
                assert(ids@ =~= EntityState::empty().matching(pattern));
                ids
            },
        }
    }

    /// The live entities that themselves hold `id`, in ascending order.
    pub fn owners(&self, id: u64) -> (out: Vec<u64>)
        ensures
            out@ == self@.owners_from(id, 0),
    {
        let mut out: Vec<u64> = Vec::new();
        let mut i: usize = 0;
        proof {
            self.view_entities();
        }
        while i < self.records.len()
            invariant
                i <= self.records.len(),
                self@.entities.len() == self.records.len(),
                self@.owners_from(id, 0) == out@ + self@.owners_from(id, i as int),
            decreases self.records.len() - i,
        {
            let e: u64 = i as u64;
            if self.owns_id(e, id) && self.is_alive(e) {
                out.push(e);
                assert(out@ + self@.owners_from(id, i + 1) =~= out@.drop_last() + (seq![e]
                    + self@.owners_from(id, i + 1)));
            }
            i += 1;
        }
        assert(out@ + self@.owners_from(id, i as int) =~= out@);
        out
    }

    /// Whether `id` is held by `e` itself and enabled.
    pub fn is_enabled_id(&self, e: u64, id: u64) -> (r: bool)
        ensures
            r == self@.entity(e).enabled(id),
    {
        match self.record(e) {
            Some(rec) => rec.enabled(id),
            None => false,
        }
    }

    /// Number of steps from `e` up along `rel` to an entity without target.
    pub fn depth_of(&self, e: u64, rel: u64) -> (d: usize)
        ensures
            d == self@.depth(e, rel, self@.entities.len()),
    {
        let mut cur: u64 = e;
        let mut fuel: usize = self.records.len();
        let mut d: usize = 0;
        loop
            invariant
                d + fuel == self.records.len(),
                self@.entities.len() == self.records.len(),
                self@.depth(e, rel, self@.entities.len()) == d + self@.depth(cur, rel, fuel as nat),
            decreases fuel,
        {
            if fuel == 0 {
                return d;
            }
            let next: u64 = self.up(cur, rel);
            if next == 0 {
                return d;
            }
            cur = next;
            fuel -= 1;
            d += 1;
        }
    }

    /// Creates an entity that holds nothing and returns its identifier.
    pub fn entity_new(&mut self) -> (e: u64)
        requires
            old(self).wf(),
            old(self)@.entities.len() < MAX_ENTITIES,
        ensures
            final(self).wf(),
            e == old(self)@.entities.len(),
            final(self)@ == old(self)@.with_new(EntityState::fresh()),
    {
        let e: u64 = self.records.len() as u64;
        self.records.push(EntityRecord::fresh());
        assert(self@.entities =~= old(self)@.with_new(EntityState::fresh()).entities);
        e
    }

    /// Creates an entity that is the child of `parent` and returns its
    /// identifier.
    pub fn entity_new_child(&mut self, parent: u64) -> (e: u64)
        requires
            old(self).wf(),
            old(self)@.entities.len() < MAX_ENTITIES,
        ensures
            final(self).wf(),
            e == old(self)@.entities.len(),
            final(self)@ == old(self)@.with_new(EntityState::child_of(parent)),
    {
        let e: u64 = self.records.len() as u64;
        let mut rec = EntityRecord::fresh();
        rec.slots.push(Slot { id: ecs_pair(crate::id::ECS_CHILD_OF, parent), value: Vec::new(),
            enabled: true });
        proof {
            rec.view_slots();
            assert(rec@.slots =~= EntityState::child_of(parent).slots);
        }
        self.records.push(rec);
        proof {
            self.view_entities();
            assert(self@.entities =~= old(self)@.with_new(EntityState::child_of(parent)).entities);
        }
        e
    }

    /// Gives `e` the id with the given value, without telling anyone. The
    /// entity must be alive.
    pub(crate) fn slot_add(&mut self, e: u64, id: u64, value: Vec<u8>)
        requires
            old(self)@.valid(e),
        ensures
            final(self)@ == old(self)@.with_entity(
                e,
                old(self)@.entity(e).with_slot(SlotState { id, value: value@, enabled: true }),
            ),
    {
        let ghost slot = SlotState { id, value: value@, enabled: true };
        let ghost before = self.records@[e as int];
        proof {
            self.view_entities();
            before.view_slots();
        }
        let i: usize = e as usize;
        self.records[i].slots.push(Slot { id, value, enabled: true });
        proof {
            let after = self.records@[e as int];
            self.view_entities();
            after.view_slots();
            assert(after@.slots =~= before@.with_slot(slot).slots);
            assert(after@ == before@.with_slot(slot));
            assert(self@.entities =~= old(self)@.with_entity(e, before@.with_slot(slot)).entities);
        }
    }

    /// Replaces the value in slot `i` of `e`, without telling anyone.
    pub(crate) fn slot_write(&mut self, e: u64, i: usize, value: Vec<u8>)
        requires
            old(self)@.valid(e),
            i < old(self)@.entity(e).slots.len(),
        ensures
            final(self)@ == old(self)@.with_entity(e, old(self)@.entity(e).with_value(i as int, value@)),
    {
        let ghost bytes = value@;
        let ghost before = self.records@[e as int];
        proof {
            self.view_entities();
            before.view_slots();
        }
        let k: usize = e as usize;
        self.records[k].slots[i].value = value;
        proof {
            let after = self.records@[e as int];
            self.view_entities();
            after.view_slots();
            assert(after@.slots =~= before@.with_value(i as int, bytes).slots);
            assert(after@ == before@.with_value(i as int, bytes));
            assert(self@.entities =~= old(self)@.with_entity(
                e,
                before@.with_value(i as int, bytes),
            ).entities);
        }
    }

    /// Takes slot `i` out of `e`, without telling anyone.
    pub(crate) fn slot_remove(&mut self, e: u64, i: usize)
        requires
            old(self)@.valid(e),
            i < old(self)@.entity(e).slots.len(),
        ensures
            final(self)@ == old(self)@.with_entity(e, old(self)@.entity(e).without_slot(i as int)),
    {
        let ghost before = self.records@[e as int];
        proof {
            self.view_entities();
            before.view_slots();
        }
        let k: usize = e as usize;
        let _ = self.records[k].slots.remove(i);
        proof {
            let after = self.records@[e as int];
            self.view_entities();
            after.view_slots();
            assert(after@.slots =~= before@.without_slot(i as int).slots);
            assert(after@ == before@.without_slot(i as int));
            assert(self@.entities =~= old(self)@.with_entity(e, before@.without_slot(i as int)).entities);
        }
    }

    /// Index of the first slot of `e` that `pattern` matches.
    pub fn find(&self, e: u64, pattern: u64) -> (r: Option<usize>)
        ensures
            match r {
                Some(i) => i as int == self@.entity(e).search(pattern, 0) && i < self@.entity(e).slots.len(),
                None => self@.entity(e).search(pattern, 0) == -1,
            },
    {
        match self.record(e) {
            Some(rec) => {
                proof {
                    rec.view_slots();
                }
                rec.search(pattern, 0)
            },
            None => None,
        }
    }

    /// The id in slot `i` of `e`.
    pub fn slot_id(&self, e: u64, i: usize) -> (id: u64)
        requires
            self@.valid(e),
            i < self@.entity(e).slots.len(),
        ensures
            id == self@.entity(e).slots[i as int].id,
    {
        proof {
            self.view_entities();
            self.records@[e as int].view_slots();
        }
        self.records[e as usize].slots[i].id
    }

    /// Whether `other` is this world with the value in slot `i` of `e`
    /// replaced, and nothing else changed.
    pub(crate) closed spec fn value_changed(&self, other: &World, e: u64, i: int) -> bool {
        &&& other.registry == self.registry
        &&& other.externals == self.externals
        &&& other.readonly == self.readonly
        &&& other.scope == self.scope
        &&& other.with == self.with
        &&& other.deferred == self.deferred
        &&& other.records@.len() == self.records@.len()
        &&& forall|k: int| 0 <= k < self.records@.len() && k != e ==> other.records@[k] == self.records@[k]
        &&& other.records@[e as int].alive == self.records@[e as int].alive
        &&& other.records@[e as int].name == self.records@[e as int].name
        &&& other.records@[e as int].symbol == self.records@[e as int].symbol
        &&& other.records@[e as int].info == self.records@[e as int].info
        &&& other.records@[e as int].slots@.len() == self.records@[e as int].slots@.len()
        &&& forall|j: int|
            0 <= j < self.records@[e as int].slots@.len() && j != i ==> other.records@[e as int].slots@[j]
                == self.records@[e as int].slots@[j]
        &&& other.records@[e as int].slots@[i].id == self.records@[e as int].slots@[i].id
        &&& other.records@[e as int].slots@[i].enabled == self.records@[e as int].slots@[i].enabled
    }

    /// A world that differs in one value has the state that differs in that
    /// value.
    pub(crate) proof fn value_changed_view(&self, other: &World, e: u64, i: int)
        requires
            self@.valid(e),
            0 <= i < self@.entity(e).slots.len(),
            self.value_changed(other, e, i),
        ensures
            other@ == self@.with_entity(
                e,
                self@.entity(e).with_value(i, other.records@[e as int].slots@[i].value@),
            ),
    {
        self.view_entities();
        other.view_entities();
        self.records@[e as int].view_slots();
        other.records@[e as int].view_slots();
        let value = other.records@[e as int].slots@[i].value@;
        assert(other.records@[e as int]@.slots =~= self@.entity(e).with_value(i, value).slots);
        assert(other@.entities =~= self@.with_entity(e, self@.entity(e).with_value(i, value)).entities);
    }

    /// The value in slot `i` of `e`, to read and to change.
    pub(crate) fn slot_value_mut(&mut self, e: u64, i: usize) -> (v: &mut Vec<u8>)
        requires
            old(self)@.valid(e),
            i < old(self)@.entity(e).slots.len(),
        ensures
            v@ == old(self)@.entity(e).slots[i as int].value,
            final(self)@ == old(self)@.with_entity(e, old(self)@.entity(e).with_value(i as int, final(v)@)),
    {
        proof {
            self.view_entities();
            self.records@[e as int].view_slots();
            assert forall|other: &World| self.value_changed(other, e, i as int) implies #[trigger] other@
                == self@.with_entity(
                e,
                self@.entity(e).with_value(i as int, other.records@[e as int].slots@[i as int].value@),
            ) by {
                self.value_changed_view(other, e, i as int);
            }
        }
        let k: usize = e as usize;
        &mut self.records[k].slots[i].value
    }

    /// Enables or disables the first id of `e` that `id` matches, and says
    /// whether `e` holds such an id.
    pub fn enable_id(&mut self, e: u64, id: u64, enabled: bool) -> (done: bool)
        requires
            old(self).wf(),
        ensures
            final(self).wf(),
            done == old(self)@.entity(e).owns(id),
            final(self)@ == old(self)@.enabled(e, id, enabled),
    {
        match self.find(e, id) {
            None => false,
            Some(i) => {
                let ghost before = self.records@[e as int];
                proof {
                    self.view_entities();
                    before.view_slots();
                }
                let k: usize = e as usize;
                self.records[k].slots[i].enabled = enabled;
                proof {
                    let after = self.records@[e as int];
                    self.view_entities();
                    after.view_slots();
                    assert(after@.slots =~= before@.with_enabled(i as int, enabled).slots);
                    assert(self@.entities =~= old(self)@.with_entity(
                        e,
                        before@.with_enabled(i as int, enabled),
                    ).entities);
                }
                true
            },
        }
    }

    /// Deletes `e`: it is no longer alive and holds nothing. Its identifier
    /// is not handed out again. Says whether `e` was alive. Nobody is told.
    pub fn entity_delete(&mut self, e: u64) -> (done: bool)
        requires
            old(self).wf(),
        ensures
            final(self).wf(),
            done == old(self)@.valid(e),
            final(self)@ == old(self)@.deleted(e),
    {
        if !self.is_alive(e) {
            return false;
        }
        proof {
            self.view_entities();
        }
        let mut dead = EntityRecord::fresh();
        dead.alive = false;
        proof {
            dead.view_slots();
            assert(dead@.slots =~= EntityState::empty().slots);
        }
        let k: usize = e as usize;
        self.records[k] = dead;
        proof {
            self.view_entities();
            assert(self@.entities =~= old(self)@.deleted(e).entities);
        }
        true
    }

    /// Number of bytes of the value in slot `i` of `e`.
    pub fn slot_len(&self, e: u64, i: usize) -> (n: usize)
        requires
            self@.valid(e),
            i < self@.entity(e).slots.len(),
        ensures
            n == self@.entity(e).slots[i as int].value.len(),
    {
        proof {
            self.view_entities();
            self.records@[e as int].view_slots();
        }
        self.records[e as usize].slots[i].value.len()
    }

    /// The value of `id` on `e`, to read and to change in place: the bytes
    /// can be written, their number cannot change. When `e` inherits the
    /// value from a base, it first takes it over: it is given the id
    /// itself, with a copy of the value. Nothing is handed out when `e` has
    /// no value for the id.
    pub fn get_mut_id(&mut self, e: u64, id: u64) -> (r: Option<&mut [u8]>)
        requires
            old(self).wf(),
        ensures
            final(self).wf(),
            match r {
                Some(v) => old(self)@.writable_value(e, id) == Some(v@) && final(self)@ == old(self)@.written(
                    e,
                    id,
                    final(v)@,
                ),
                None => old(self)@.writable_value(e, id) is None
                    && final(self)@ == old(self)@.overridden(e, id),
            },
    {
        if self.is_alive(e) && !self.owns_id(e, id) {
            let base: u64 = self.holder(e, ECS_IS_A, id);
            if base != 0 {
                let copy: Option<Vec<u8>> = match self.get_id(e, id) {
                    Some(v) => Some(crate::text::bytes_to_vec(v)),
                    None => None,
                };
                match copy {
                    Some(value) => {
                        match self.find(base, id) {
                            Some(j) => {
                                let matched: u64 = self.slot_id(base, j);
                                proof {
                                    self@.entity(base).search_is_first(id, 0);
                                    self@.entity(e).not_owns_not_holds(id, matched);
                                    self@.entity(e).with_slot_unique(
                                        SlotState { id: matched, value: value@, enabled: true },
                                    );
                                    self@.with_entity_wf(
                                        e,
                                        self@.entity(e).with_slot(
                                            SlotState { id: matched, value: value@, enabled: true },
                                        ),
                                    );
                                }
                                self.slot_add(e, matched, value);
                            },
                            None => {},
                        }
                    },
                    None => {},
                }
            }
        }
        proof {
            let w1 = self@;
            assert forall|i: int, value: Seq<u8>|
                w1.valid(e) && 0 <= i < w1.entity(e).slots.len() implies #[trigger] w1.with_entity(
                e,
                w1.entity(e).with_value(i, value),
            ).wf() by {
                w1.entity(e).edits_keep_unique(i, value, true);
                w1.with_entity_wf(e, w1.entity(e).with_value(i, value));
            }
        }
        match self.find(e, id) {
            Some(i) => {
                if self.slot_len(e, i) > 0 {
                    Some(self.slot_value_mut(e, i).as_mut_slice())
                } else {
                    None
                }
            },
            None => None,
        }
    }

    /// Whether `e` names a live entity.
    pub fn is_alive(&self, e: u64) -> (r: bool)
        ensures
            r == self@.valid(e),
    {
        self.record(e).is_some()
    }

    /// The world itself, for callers that hold a handle to it.
    pub fn get_world(&mut self) -> (w: &mut World)
        ensures
            *w == *old(self),
            *final(self) == *final(w),
    {
        self
    }

    /// The entity that new entities become children of; 0 for none.
    pub fn get_scope(&self) -> (scope: u64)
        ensures
            scope == self@.scope,
    {
        self.scope
    }

    /// Sets the entity that new entities become children of, and returns
    /// the one before.
    pub fn set_scope(&mut self, scope: u64) -> (before: u64)
        requires
            old(self).wf(),
        ensures
            final(self).wf(),
            before == old(self)@.scope,
            final(self)@ == (WorldState { scope, ..old(self)@ }),
    {
        proof {
            self.view_entities();
        }
        let before: u64 = self.scope;
        self.scope = scope;
        proof {
            self.view_entities();
            assert(self@.entities =~= old(self)@.entities);
        }
        before
    }

    /// The id that new entities are given; 0 for none.
    pub fn get_with(&self) -> (with: u64)
        ensures
            with == self@.with,
    {
        self.with
    }

    /// Sets the id that new entities are given, and returns the one before.
    pub fn set_with(&mut self, with: u64) -> (before: u64)
        requires
            old(self).wf(),
        ensures
            final(self).wf(),
            before == old(self)@.with,
            final(self)@ == (WorldState { with, ..old(self)@ }),
    {
        proof {
            self.view_entities();
        }
        let before: u64 = self.with;
        self.with = with;
        proof {
            self.view_entities();
            assert(self@.entities =~= old(self)@.entities);
        }
        before
    }

    /// Puts the world in or out of read-only mode, and returns the mode
    /// before.
    pub fn set_readonly(&mut self, readonly: bool) -> (before: bool)
        requires
            old(self).wf(),
        ensures
            final(self).wf(),
            before == old(self)@.readonly,
            final(self)@ == (WorldState { readonly, ..old(self)@ }),
    {
        proof {
            self.view_entities();
        }
        let before: bool = self.readonly;
        self.readonly = readonly;
        proof {
            self.view_entities();
            assert(self@.entities =~= old(self)@.entities);
        }
        before
    }

    /// Creates an entity in the current scope: it is given the world's
    /// `with` id, if there is one, and becomes a child of the scope, if
    /// there is one.
    pub fn entity_init(&mut self) -> (e: u64)
        requires
            old(self).wf(),
            old(self)@.entities.len() < MAX_ENTITIES,
        ensures
            final(self).wf(),
            e == old(self)@.entities.len(),
            final(self)@ == old(self)@.with_created(),
    {
        proof {
            self.view_entities();
        }
        let e: u64 = self.records.len() as u64;
        let mut rec = EntityRecord::fresh();
        let ghost mut want = EntityState::fresh();
        proof {
            rec.view_slots();
        }
        if self.with != 0 {
            let size: usize = self.id_size(self.with);
            let value = crate::text::zeros(size);
            proof {
                want = want.with_slot(SlotState { id: self.with, value: value@, enabled: true });
            }
            rec.slots.push(Slot { id: self.with, value, enabled: true });
            proof {
                rec.view_slots();
                assert(rec@.slots =~= want.slots);
            }
        }
        if self.scope != 0 && ecs_pair(crate::id::ECS_CHILD_OF, self.scope) != self.with {
            proof {
                want = want.with_slot(
                    SlotState { id: crate::id::pair_spec(crate::id::ECS_CHILD_OF, self.scope),
                        value: Seq::empty(), enabled: true },
                );
            }
            rec.slots.push(
                Slot { id: ecs_pair(crate::id::ECS_CHILD_OF, self.scope), value: Vec::new(), enabled: true },
            );
            proof {
                rec.view_slots();
                assert(rec@.slots =~= want.slots);
            }
        }
        assert(rec@ == want);
        self.records.push(rec);
        proof {
            self.view_entities();
            assert(self@.entities =~= old(self)@.with_created().entities);
            assert(want.unique()) by {
                assert forall|i: int, j: int| 0 <= i < j < want.slots.len() implies (#[trigger] want.slots[i]).id != (
                #[trigger] want.slots[j]).id by {
                    assert(i == 0 && j == 1);
                }
            }
            old(self)@.with_new_wf(want);
        }
        e
    }

    /// Gives `dst` a copy of every id of `src` that it does not hold yet:
    /// with the value of `src` if `copy_value` is set, else with a zeroed
    /// value of the same length. Nobody is told.
    pub fn clone_into(&mut self, dst: u64, src: u64, copy_value: bool)
        requires
            old(self).wf(),
        ensures
            final(self).wf(),
            final(self)@ == old(self)@.cloned_from(dst, src, copy_value, 0),
    {
        if !self.is_alive(dst) || !self.is_alive(src) || dst == src {
            return;
        }
        let n: usize = match self.record(src) {
            Some(rec) => {
                proof {
                    rec.view_slots();
                }
                rec.slots.len()
            },
            None => 0,
        };
        let mut k: usize = 0;
        while k < n
            invariant
                k <= n,
                dst != src,
                self.wf(),
                self@.valid(dst),
                self@.valid(src),
                n == self@.entity(src).slots.len(),
                old(self)@.cloned_from(dst, src, copy_value, 0) == self@.cloned_from(dst, src, copy_value,
                    k as int),
            decreases n - k,
        {
            let id: u64 = self.slot_id(src, k);
            if id != 0 && !self.owns_id(dst, id) {
                let len: usize = self.slot_len(src, k);
                let value: Vec<u8> = if copy_value {
                    let rec = &self.records[src as usize];
                    proof {
                        self.view_entities();
                        rec.view_slots();
                    }
                    crate::text::bytes_to_vec(rec.slots[k].value.as_slice())
                } else {
                    crate::text::zeros(len)
                };
                proof {
                    self@.entity(dst).not_owns_not_holds(id, id);
                    self@.entity(dst).with_slot_unique(SlotState { id, value: value@, enabled: true });
                    self@.with_entity_wf(
                        dst,
                        self@.entity(dst).with_slot(SlotState { id, value: value@, enabled: true }),
                    );
                }
                self.slot_add(dst, id, value);
            }
            k += 1;
        }
    }

    /// The row of `e` in the table of its type: the number of live entities
    /// created before it that have the same type.
    pub fn row_of(&self, e: u64) -> (row: usize)
        requires
            self@.valid(e),
        ensures
            row == self@.row_of(e, e as int),
    {
        let ids = self.type_of(e);
        let mut row: usize = 0;
        let mut i: usize = 0;
        proof {
            self.view_entities();
        }
        while i < e as usize
            invariant
                i <= e,
                e < self.records.len(),
                row <= i,
                ids@ == self@.entity(e).ids(),
                row == self@.row_of(e, i as int),
            decreases e - i,
        {
            if self.is_alive(i as u64) {
                let other = self.type_of(i as u64);
                if vec_eq(&other, &ids) {
                    row += 1;
                }
            }
            i += 1;
        }
        row
    }

    /// Puts a change off until the world takes changes again.
    pub(crate) fn defer(&mut self, c: Command)
        requires
            old(self).wf(),
        ensures
            final(self).wf(),
            final(self)@ == old(self)@.deferring(c@),
    {
        proof {
            self.view_entities();
        }
        self.deferred.push(c);
        proof {
            self.view_entities();
            assert(self@.entities =~= old(self)@.entities);
            assert(self@.deferred =~= old(self)@.deferred.push(c@));
        }
    }

    /// Puts an addition off.
    pub(crate) fn defer_add(&mut self, entity: u64, id: u64)
        requires
            old(self).wf(),
        ensures
            final(self).wf(),
            final(self)@ == old(self)@.deferring(CommandState::AddId { entity, id }),
    {
        self.defer(Command::AddId { entity, id });
    }

    /// Puts the setting of a value off.
    pub(crate) fn defer_set(&mut self, entity: u64, id: u64, value: Vec<u8>)
        requires
            old(self).wf(),
        ensures
            final(self).wf(),
            final(self)@ == old(self)@.deferring(CommandState::SetValue { entity, id, value: value@ }),
    {
        self.defer(Command::SetValue { entity, id, value });
    }

    /// Puts a removal off.
    pub(crate) fn defer_remove(&mut self, entity: u64, id: u64)
        requires
            old(self).wf(),
        ensures
            final(self).wf(),
            final(self)@ == old(self)@.deferring(CommandState::RemoveId { entity, id }),
    {
        self.defer(Command::RemoveId { entity, id });
    }

    /// Takes the changes that were put off out of the world, and lets the
    /// world take changes again.
    pub(crate) fn resume(&mut self) -> (commands: Vec<Command>)
        requires
            old(self).wf(),
        ensures
            final(self).wf(),
            final(self)@ == old(self)@.resumed(),
            commands_view(commands) == old(self)@.deferred,
            commands@.len() == old(self)@.deferred.len(),
    {
        proof {
            self.view_entities();
        }
        let mut commands: Vec<Command> = Vec::new();
        core::mem::swap(&mut self.deferred, &mut commands);
        self.readonly = false;
        proof {
            self.view_entities();
            assert(self@.entities =~= old(self)@.entities);
            assert(self@.deferred =~= Seq::empty());
        }
        commands
    }

    /// Number of changes that were put off.
    pub fn deferred_count(&self) -> (n: usize)
        ensures
            n == self@.deferred.len(),
    {
        proof {
            self.view_entities();
        }
        self.deferred.len()
    }

    /// Whether the world refuses direct structural changes.
    pub fn is_readonly(&self) -> (r: bool)
        ensures
            r == self@.readonly,
    {
        self.readonly
    }

    /// Number of identifiers in use, the reserved ones included.
    pub fn count(&self) -> (n: usize)
        ensures
            n == self@.entities.len(),
    {
        self.records.len()
    }
}

} // verus!
