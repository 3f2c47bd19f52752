//! A handle on one entity of a world: the read side.

use vstd::prelude::*;
use crate::component::{ComponentId, ComponentInfo, EnumConstant};
use crate::id::{ecs_is_wild, ecs_pair, ecs_second, Entity, ECS_CHILD_OF, ECS_DISABLED, ECS_WILDCARD};
use crate::id_view::IdView;
use crate::path::separator;
use crate::table::{Archetype, Table, TableRange};
use crate::text::{str_from_utf8, string_from_utf8};
use crate::world::World;

verus! {

/// An entity identifier together with the world it belongs to. The handle
/// owns nothing: it borrows the world and can be copied freely.
#[derive(Clone, Copy)]
pub struct EntityView<'a> {
    pub world: &'a World,
    pub id: Entity,
}

impl<'a> EntityView<'a> {
    /// Wraps an existing identifier of `world`.
    pub fn new_from(world: &'a World, id: u64) -> (e: Self)
        ensures
            e.world == world,
            e.id.0 == id,
    {
        EntityView { world, id: Entity(id) }
    }

    /// The handle with identifier 0: belongs to `world`, names no entity.
    pub fn new_null(world: &'a World) -> (e: EntityView<'a>)
        ensures
            e.world == world,
            e.id.0 == 0,
    {
        Self::new_from(world, 0)
    }

    /// The identifier.
    pub fn id(&self) -> (id: Entity)
        ensures
            id == self.id,
    {
        self.id
    }

    /// The same identifier as an id handle.
    pub fn id_view(&self) -> (v: IdView<'a>)
        ensures
            v.world == self.world,
            v.id == self.id.0,
    {
        IdView::new_from(self.world, self.id.0)
    }

    /// Whether the identifier names an entity that can be used.
    pub fn is_valid(self) -> (r: bool)
        ensures
            r == self.world@.valid(self.id.0),
    {
        self.world.is_alive(self.id.0)
    }

    /// Whether the entity is alive.
    pub fn is_alive(self) -> (r: bool)
        ensures
            r == self.world@.valid(self.id.0),
    {
        self.world.is_alive(self.id.0)
    }

    /// The name as bytes; nothing when the entity has no name.
    pub fn get_name_cstr(self) -> (r: Option<&'a [u8]>)
        ensures
            match r {
                Some(name) => name@ == self.world@.entity(self.id.0).name && name@.len() > 0,
                None => self.world@.entity(self.id.0).name.len() == 0,
            },
    {
        let name = self.world.name_of(self.id.0);
        if name.len() == 0 {
            None
        } else {
            Some(name)
        }
    }

    /// The name as bytes; empty when the entity has no name.
    pub fn name_cstr(self) -> (name: &'a [u8])
        ensures
            name@ == self.world@.entity(self.id.0).name,
    {
        self.world.name_of(self.id.0)
    }

    /// The name as text; nothing when the entity has no name or the name is
    /// not valid UTF-8.
    pub fn get_name(self) -> (r: Option<&'a str>)
        ensures
            r is Some == (self.world@.entity(self.id.0).name.len() > 0 && vstd::utf8::valid_utf8(
                self.world@.entity(self.id.0).name,
            )),
            r matches Some(s) ==> s@ == vstd::utf8::decode_utf8(self.world@.entity(self.id.0).name),
    {
        match self.get_name_cstr() {
            Some(bytes) => str_from_utf8(bytes),
            None => None,
        }
    }

    /// The name as text; empty when `get_name` gives nothing.
    pub fn name(self) -> (s: &'a str)
        ensures
            self.world@.entity(self.id.0).name.len() > 0 && vstd::utf8::valid_utf8(
                self.world@.entity(self.id.0).name,
            ) ==> s@ == vstd::utf8::decode_utf8(self.world@.entity(self.id.0).name),
            !(self.world@.entity(self.id.0).name.len() > 0 && vstd::utf8::valid_utf8(
                self.world@.entity(self.id.0).name,
            )) ==> s@.len() == 0,
    {
        match self.get_name() {
            Some(s) => s,
            None => {
                proof {
                    reveal_strlit("");
                }
                ""
            },
        }
    }

    /// The text that the entity is shown as: its name, or the decimal digits
    /// of its identifier when it has none.
    pub fn display_text(self) -> (text: Vec<u8>)
        ensures
            text@ == self.world@.display_text(self.id.0),
    {
        self.world.display_text(self.id.0)
    }

    /// The symbol as bytes; empty when the entity has none.
    pub fn symbol_cstr(self) -> (symbol: &'a [u8])
        ensures
            symbol@ == self.world@.entity(self.id.0).symbol,
    {
        self.world.symbol_of(self.id.0)
    }

    /// The symbol as text. The symbol must be valid UTF-8.
    pub fn symbol(self) -> (s: &'a str)
        requires
            vstd::utf8::valid_utf8(self.world@.entity(self.id.0).symbol),
        ensures
            s@ == vstd::utf8::decode_utf8(self.world@.entity(self.id.0).symbol),
    {
        match str_from_utf8(self.symbol_cstr()) {
            Some(s) => s,
            None => vstd::pervasive::unreached(),
        }
    }

    /// Whether the entity is enabled: it does not have the disabled tag.
    pub fn is_enabled_self(self) -> (r: bool)
        ensures
            r == !self.world@.has(self.id.0, ECS_DISABLED),
    {
        !self.world.has_id(self.id.0, ECS_DISABLED)
    }

    /// The type of the entity: its ids in order. Empty when the entity is in
    /// no table.
    pub fn archetype(self) -> (a: Archetype<'a>)
        ensures
            a.world == self.world,
            a.ids@ == self.world@.entity(self.id.0).ids(),
    {
        match self.table() {
            Some(t) => t.archetype(),
            None => {
                let a = Archetype::new(self.world, Vec::new());
                assert(a.ids@ =~= self.world@.entity(self.id.0).ids());
                a
            },
        }
    }

    /// The table of the entity; nothing when it holds no id or is not alive.
    pub fn table(self) -> (r: Option<Table<'a>>)
        ensures
            r is Some == (self.world@.entity(self.id.0).slots.len() > 0),
            r matches Some(t) ==> t.world == self.world && t.ids@ == self.world@.entity(self.id.0).ids(),
    {
        let ids = self.world.type_of(self.id.0);
        if ids.len() == 0 {
            None
        } else {
            Some(Table::new(self.world, ids))
        }
    }

    /// Calls `func` on each id of the entity, in the order of its type.
    pub fn each_component<F: Fn(IdView<'a>)>(self, func: F)
        requires
            forall|i: int|
                0 <= i < self.world@.entity(self.id.0).slots.len() ==> call_requires(
                    func,
                    (IdView { world: self.world, id: #[trigger] self.world@.entity(self.id.0).ids()[i] },),
                ),
        ensures
            forall|i: int|
                0 <= i < self.world@.entity(self.id.0).slots.len() ==> call_ensures(
                    func,
                    (IdView { world: self.world, id: #[trigger] self.world@.entity(self.id.0).ids()[i] },),
                    (),
                ),
    {
        let archetype = self.archetype();
        let ids = archetype.as_slice();
        let ghost want = self.world@.entity(self.id.0).ids();
        let mut k: usize = 0;
        while k < ids.len()
            invariant
                k <= ids.len(),
                ids@ == want,
                want.len() == self.world@.entity(self.id.0).slots.len(),
                want == self.world@.entity(self.id.0).ids(),
                forall|i: int|
                    0 <= i < want.len() ==> call_requires(
                        func,
                        (IdView { world: self.world, id: #[trigger] want[i] },),
                    ),
                forall|i: int|
                    0 <= i < k ==> call_ensures(func, (IdView { world: self.world,
                        id: #[trigger] want[i] },), ()),
            decreases ids.len() - k,
        {
            assert(ids@[k as int] == want[k as int]);
            let ent = IdView::new_from(self.world, ids[k]);
            func(ent);
            k += 1;
        }
    }

    /// The value of the component `T` that the entity sees; nothing when it
    /// has none, when `T` is a tag, or when `T` is not registered.
    pub fn try_get<T: ComponentId>(self) -> (r: Option<&'a [u8]>)
        ensures
            match r {
                Some(v) => self.world@.typed_get(self.id.0, ComponentInfo::describe::<T>()) == Some(v@),
                None => self.world@.typed_get(self.id.0, ComponentInfo::describe::<T>()) is None,
            },
    {
        let info = ComponentInfo::of::<T>();
        let component_id: u64 = self.world.lookup_key(info.type_key);
        if !info.is_enum {
            if info.is_tag {
                None
            } else {
                self.world.get_id(self.id.0, component_id)
            }
        } else {
            let target: u64 = self.world.target_of(self.id.0, component_id, 0);
            if target == 0 {
                // no constant is related: the value may sit on the entity itself
                self.world.get_id(self.id.0, component_id)
            } else {
                self.world.get_id(target, component_id)
            }
        }
    }

    /// The value of the component `T`, which the entity must have.
    pub fn get<T: ComponentId>(&self) -> (v: &'a [u8])
        requires
            self.world@.typed_get(self.id.0, ComponentInfo::describe::<T>()) is Some,
        ensures
            self.world@.typed_get(self.id.0, ComponentInfo::describe::<T>()) == Some(v@),
    {
        match self.try_get::<T>() {
            Some(v) => v,
            None => vstd::pervasive::unreached(),
        }
    }

    /// Hands the value of the component `T` to `callback` if the entity has
    /// one, and says whether it did.
    pub fn get_callback<T: ComponentId, F: FnOnce(&'a [u8])>(self, callback: F) -> (r: bool)
        requires
            forall|v: &'a [u8]|
                self.world@.typed_get(self.id.0, ComponentInfo::describe::<T>()) == Some(v@)
                    ==> call_requires(callback, (v,)),
        ensures
            r == self.world@.typed_get(self.id.0, ComponentInfo::describe::<T>()) is Some,
            r ==> exists|v: &'a [u8]|
                self.world@.typed_get(self.id.0, ComponentInfo::describe::<T>()) == Some(v@) && call_ensures(
                    callback,
                    (v,),
                    (),
                ),
    {
        if let Some(component) = self.try_get::<T>() {
            callback(component);
            return true;
        }
        false
    }

    /// The value of the component `T`, which the entity must have.
    pub fn get_unchecked<T: ComponentId>(&self) -> (v: &'a [u8])
        requires
            self.world@.typed_get(self.id.0, ComponentInfo::describe::<T>()) is Some,
        ensures
            self.world@.typed_get(self.id.0, ComponentInfo::describe::<T>()) == Some(v@),
    {
        self.get::<T>()
    }

    /// Calls `func` on each id of the entity that the pattern of `pred` and
    /// `obj` matches, in the order of its type. With `obj` 0 the pattern is
    /// `pred` alone; either may be a wildcard.
    pub fn each_pair<F: Fn(IdView<'a>)>(&self, pred: u64, obj: u64, func: F)
        requires
            forall|i: int|
                0 <= i < self.world@.entity(self.id.0).matching(
                    crate::state::pair_pattern(pred, obj),
                ).len() ==> call_requires(
                    func,
                    (IdView {
                        world: self.world,
                        id: #[trigger] self.world@.entity(self.id.0).matching(
                            crate::state::pair_pattern(pred, obj),
                        )[i],
                    },),
                ),
        ensures
            forall|i: int|
                0 <= i < self.world@.entity(self.id.0).matching(
                    crate::state::pair_pattern(pred, obj),
                ).len() ==> call_ensures(
                    func,
                    (IdView {
                        world: self.world,
                        id: #[trigger] self.world@.entity(self.id.0).matching(
                            crate::state::pair_pattern(pred, obj),
                        )[i],
                    },),
                    (),
                ),
    {
        let mut pattern: u64 = pred;
        if obj != 0 {
            pattern = ecs_pair(pattern, obj);
        }
        let ids = self.world.matching_ids(self.id.0, pattern);
        let mut cur: usize = 0;
        while cur < ids.len()
            invariant
                cur <= ids.len(),
                forall|i: int|
                    0 <= i < ids@.len() ==> call_requires(
                        func,
                        (IdView { world: self.world, id: #[trigger] ids@[i] },),
                    ),
                forall|i: int|
                    0 <= i < cur ==> call_ensures(
                        func,
                        (IdView { world: self.world, id: #[trigger] ids@[i] },),
                        (),
                    ),
            decreases ids.len() - cur,
        {
            let ent = IdView::new_from(self.world, ids[cur]);
            func(ent);
            cur += 1;
        }
    }

    /// Calls `func` on each target of the relationship, in the order of the
    /// entity's type.
    pub fn each_target_id<F: Fn(EntityView<'a>)>(self, relationship: u64, func: F)
        requires
            forall|i: int|
                0 <= i < self.world@.entity(self.id.0).matching(
                    crate::id::pair_spec(relationship, ECS_WILDCARD),
                ).len() ==> call_requires(
                    func,
                    (EntityView {
                        world: self.world,
                        id: Entity(
                            crate::id::second_spec(
                                #[trigger] self.world@.entity(self.id.0).matching(
                                    crate::id::pair_spec(relationship, ECS_WILDCARD),
                                )[i],
                            ),
                        ),
                    },),
                ),
        ensures
            forall|i: int|
                0 <= i < self.world@.entity(self.id.0).matching(
                    crate::id::pair_spec(relationship, ECS_WILDCARD),
                ).len() ==> call_ensures(
                    func,
                    (EntityView {
                        world: self.world,
                        id: Entity(
                            crate::id::second_spec(
                                #[trigger] self.world@.entity(self.id.0).matching(
                                    crate::id::pair_spec(relationship, ECS_WILDCARD),
                                )[i],
                            ),
                        ),
                    },),
                    (),
                ),
    {
        let ids = self.world.matching_ids(self.id.0, ecs_pair(relationship, ECS_WILDCARD));
        let mut cur: usize = 0;
        while cur < ids.len()
            invariant
                cur <= ids.len(),
                forall|i: int|
                    0 <= i < ids@.len() ==> call_requires(
                        func,
                        (EntityView {
                            world: self.world,
                            id: Entity(crate::id::second_spec(#[trigger] ids@[i])),
                        },),
                    ),
                forall|i: int|
                    0 <= i < cur ==> call_ensures(
                        func,
                        (EntityView {
                            world: self.world,
                            id: Entity(crate::id::second_spec(#[trigger] ids@[i])),
                        },),
                        (),
                    ),
            decreases ids.len() - cur,
        {
            let obj = EntityView::new_from(self.world, ecs_second(ids[cur]));
            func(obj);
            cur += 1;
        }
    }

    /// Calls `func` on each target of the relationship `T`.
    pub fn each_target<T: ComponentId, F: Fn(EntityView<'a>)>(self, func: F)
        requires
            forall|i: int|
                0 <= i < self.world@.entity(self.id.0).matching(
                    crate::id::pair_spec(self.world@.id_of(T::TYPE_KEY), ECS_WILDCARD),
                ).len() ==> call_requires(
                    func,
                    (EntityView {
                        world: self.world,
                        id: Entity(
                            crate::id::second_spec(
                                #[trigger] self.world@.entity(self.id.0).matching(
                                    crate::id::pair_spec(
                                        self.world@.id_of(T::TYPE_KEY),
                                        ECS_WILDCARD,
                                    ),
                                )[i],
                            ),
                        ),
                    },),
                ),
        ensures
            forall|i: int|
                0 <= i < self.world@.entity(self.id.0).matching(
                    crate::id::pair_spec(self.world@.id_of(T::TYPE_KEY), ECS_WILDCARD),
                ).len() ==> call_ensures(
                    func,
                    (EntityView {
                        world: self.world,
                        id: Entity(
                            crate::id::second_spec(
                                #[trigger] self.world@.entity(self.id.0).matching(
                                    crate::id::pair_spec(
                                        self.world@.id_of(T::TYPE_KEY),
                                        ECS_WILDCARD,
                                    ),
                                )[i],
                            ),
                        ),
                    },),
                    (),
                ),
    {
        self.each_target_id(self.world.id_of::<T>(), func);
    }

    /// Calls `func` on each child of the entity along `relationship`: each
    /// live entity that holds the pair of the relationship and this entity,
    /// in ascending order. A wildcard has no children.
    pub fn each_child_of_id<F: Fn(EntityView<'a>)>(self, relationship: u64, func: F)
        requires
            forall|i: int|
                0 <= i < self.world@.children(relationship, self.id.0).len() ==> call_requires(
                    func,
                    (EntityView {
                        world: self.world,
                        id: Entity(#[trigger] self.world@.children(relationship, self.id.0)[i]),
                    },),
                ),
        ensures
            forall|i: int|
                0 <= i < self.world@.children(relationship, self.id.0).len() ==> call_ensures(
                    func,
                    (EntityView {
                        world: self.world,
                        id: Entity(#[trigger] self.world@.children(relationship, self.id.0)[i]),
                    },),
                    (),
                ),
    {
        // a wildcard would stand for every parent at once: it has no children
        if ecs_is_wild(self.id.0) {
            return;
        }
        let ids = self.world.owners(ecs_pair(relationship, self.id.0));
        let mut i: usize = 0;
        while i < ids.len()
            invariant
                i <= ids.len(),
                forall|k: int|
                    0 <= k < ids@.len() ==> call_requires(
                        func,
                        (EntityView { world: self.world, id: Entity(#[trigger] ids@[k]) },),
                    ),
                forall|k: int|
                    0 <= k < i ==> call_ensures(
                        func,
                        (EntityView { world: self.world, id: Entity(#[trigger] ids@[k]) },),
                        (),
                    ),
            decreases ids.len() - i,
        {
            let ent = EntityView::new_from(self.world, ids[i]);
            func(ent);
            i += 1;
        }
    }

    /// Calls `func` on each child of the entity along the relationship `T`.
    pub fn each_child_of<T: ComponentId, F: Fn(EntityView<'a>)>(self, func: F)
        requires
            forall|i: int|
                0 <= i < self.world@.children(
                    self.world@.id_of(T::TYPE_KEY),
                    self.id.0,
                ).len() ==> call_requires(
                    func,
                    (EntityView {
                        world: self.world,
                        id: Entity(
                            #[trigger] self.world@.children(
                                self.world@.id_of(T::TYPE_KEY),
                                self.id.0,
                            )[i],
                        ),
                    },),
                ),
        ensures
            forall|i: int|
                0 <= i < self.world@.children(
                    self.world@.id_of(T::TYPE_KEY),
                    self.id.0,
                ).len() ==> call_ensures(
                    func,
                    (EntityView {
                        world: self.world,
                        id: Entity(
                            #[trigger] self.world@.children(
                                self.world@.id_of(T::TYPE_KEY),
                                self.id.0,
                            )[i],
                        ),
                    },),
                    (),
                ),
    {
        self.each_child_of_id(self.world.id_of::<T>(), func);
    }

    /// Calls `func` on each child of the entity in the hierarchy.
    pub fn each_child<F: Fn(EntityView<'a>)>(self, func: F)
        requires
            forall|i: int|
                0 <= i < self.world@.children(ECS_CHILD_OF, self.id.0).len() ==> call_requires(
                    func,
                    (EntityView {
                        world: self.world,
                        id: Entity(#[trigger] self.world@.children(ECS_CHILD_OF, self.id.0)[i]),
                    },),
                ),
        ensures
            forall|i: int|
                0 <= i < self.world@.children(ECS_CHILD_OF, self.id.0).len() ==> call_ensures(
                    func,
                    (EntityView {
                        world: self.world,
                        id: Entity(#[trigger] self.world@.children(ECS_CHILD_OF, self.id.0)[i]),
                    },),
                    (),
                ),
    {
        self.each_child_of_id(ECS_CHILD_OF, func);
    }

    /// The value stored for the pair of the component `First` and `second`;
    /// nothing when the entity does not have the pair with a value.
    pub fn try_get_first_id<First: ComponentId>(self, second: u64) -> (r: Option<&'a [u8]>)
        ensures
            match r {
                Some(v) => self.world@.get(
                    self.id.0,
                    crate::id::pair_spec(self.world@.id_of(First::TYPE_KEY), second),
                ) == Some(v@),
                None => self.world@.get(
                    self.id.0,
                    crate::id::pair_spec(self.world@.id_of(First::TYPE_KEY), second),
                ) is None,
            },
    {
        let component_id: u64 = self.world.id_of::<First>();
        self.world.get_id(self.id.0, ecs_pair(component_id, second))
    }

    /// The value stored for the pair of `First` and `second`, which the
    /// entity must have.
    pub fn get_first_id<First: ComponentId>(self, second: u64) -> (v: &'a [u8])
        requires
            self.world@.get(
                self.id.0,
                crate::id::pair_spec(self.world@.id_of(First::TYPE_KEY), second),
            ) is Some,
        ensures
            self.world@.get(
                self.id.0,
                crate::id::pair_spec(self.world@.id_of(First::TYPE_KEY), second),
            ) == Some(v@),
    {
        match self.try_get_first_id::<First>(second) {
            Some(v) => v,
            None => vstd::pervasive::unreached(),
        }
    }

    /// The value stored for the pair of the components `First` and `Second`.
    pub fn try_get_first<First: ComponentId, Second: ComponentId>(self) -> (r: Option<&'a [u8]>)
        ensures
            match r {
                Some(v) => self.world@.get(
                    self.id.0,
                    crate::id::pair_spec(
                        self.world@.id_of(First::TYPE_KEY),
                        self.world@.id_of(Second::TYPE_KEY),
                    ),
                ) == Some(v@),
                None => self.world@.get(
                    self.id.0,
                    crate::id::pair_spec(
                        self.world@.id_of(First::TYPE_KEY),
                        self.world@.id_of(Second::TYPE_KEY),
                    ),
                ) is None,
            },
    {
        self.try_get_first_id::<First>(self.world.id_of::<Second>())
    }

    /// The value stored for the pair of `First` and `Second`, which the
    /// entity must have.
    pub fn get_first<First: ComponentId, Second: ComponentId>(self) -> (v: &'a [u8])
        requires
            self.world@.get(
                self.id.0,
                crate::id::pair_spec(
                    self.world@.id_of(First::TYPE_KEY),
                    self.world@.id_of(Second::TYPE_KEY),
                ),
            ) is Some,
        ensures
            self.world@.get(
                self.id.0,
                crate::id::pair_spec(
                    self.world@.id_of(First::TYPE_KEY),
                    self.world@.id_of(Second::TYPE_KEY),
                ),
            ) == Some(v@),
    {
        self.get_first_id::<First>(self.world.id_of::<Second>())
    }

    /// The value stored for the pair of `first` and the component `Second`;
    /// nothing when the entity does not have the pair with a value.
    pub fn try_get_second_id<Second: ComponentId>(self, first: u64) -> (r: Option<&'a [u8]>)
        ensures
            match r {
                Some(v) => self.world@.get(
                    self.id.0,
                    crate::id::pair_spec(first, self.world@.id_of(Second::TYPE_KEY)),
                ) == Some(v@),
                None => self.world@.get(
                    self.id.0,
                    crate::id::pair_spec(first, self.world@.id_of(Second::TYPE_KEY)),
                ) is None,
            },
    {
        let component_id: u64 = self.world.id_of::<Second>();
        self.world.get_id(self.id.0, ecs_pair(first, component_id))
    }

    /// The value stored for the pair of `first` and `Second`, which the
    /// entity must have.
    pub fn get_second_id<Second: ComponentId>(self, first: u64) -> (v: &'a [u8])
        requires
            self.world@.get(
                self.id.0,
                crate::id::pair_spec(first, self.world@.id_of(Second::TYPE_KEY)),
            ) is Some,
        ensures
            self.world@.get(
                self.id.0,
                crate::id::pair_spec(first, self.world@.id_of(Second::TYPE_KEY)),
            ) == Some(v@),
    {
        match self.try_get_second_id::<Second>(first) {
            Some(v) => v,
            None => vstd::pervasive::unreached(),
        }
    }

    /// The value stored for the pair of the tag `First` and the component
    /// `Second`.
    pub fn try_get_second<First: ComponentId, Second: ComponentId>(self) -> (r: Option<&'a [u8]>)
        ensures
            match r {
                Some(v) => self.world@.get(
                    self.id.0,
                    crate::id::pair_spec(
                        self.world@.id_of(First::TYPE_KEY),
                        self.world@.id_of(Second::TYPE_KEY),
                    ),
                ) == Some(v@),
                None => self.world@.get(
                    self.id.0,
                    crate::id::pair_spec(
                        self.world@.id_of(First::TYPE_KEY),
                        self.world@.id_of(Second::TYPE_KEY),
                    ),
                ) is None,
            },
    {
        self.try_get_second_id::<Second>(self.world.id_of::<First>())
    }

    /// The value stored for the pair of `First` and `Second`, which the
    /// entity must have.
    pub fn get_second<First: ComponentId, Second: ComponentId>(self) -> (v: &'a [u8])
        requires
            self.world@.get(
                self.id.0,
                crate::id::pair_spec(
                    self.world@.id_of(First::TYPE_KEY),
                    self.world@.id_of(Second::TYPE_KEY),
                ),
            ) is Some,
        ensures
            self.world@.get(
                self.id.0,
                crate::id::pair_spec(
                    self.world@.id_of(First::TYPE_KEY),
                    self.world@.id_of(Second::TYPE_KEY),
                ),
            ) == Some(v@),
    {
        self.get_second_id::<Second>(self.world.id_of::<First>())
    }

    /// The value of a component or pair by identifier, untyped.
    pub fn get_untyped(self, component_id: u64) -> (r: Option<&'a [u8]>)
        ensures
            match r {
                Some(v) => self.world@.get(self.id.0, component_id) == Some(v@),
                None => self.world@.get(self.id.0, component_id) is None,
            },
    {
        self.world.get_id(self.id.0, component_id)
    }

    /// The target number `index` of the relationship `First`; the null
    /// handle when there are not that many.
    pub fn target<First: ComponentId>(self, index: i32) -> (t: EntityView<'a>)
        ensures
            t.world == self.world,
            t.id.0 == self.world@.entity(self.id.0).target(
                self.world@.id_of(First::TYPE_KEY),
                index as int,
            ),
    {
        EntityView::new_from(
            self.world,
            self.world.target_of(self.id.0, self.world.id_of::<First>(), index),
        )
    }

    /// The target number `index` of the relationship `first`; the null
    /// handle when there are not that many.
    pub fn target_id(self, first: u64, index: i32) -> (t: EntityView<'a>)
        ensures
            t.world == self.world,
            t.id.0 == self.world@.entity(self.id.0).target(first, index as int),
    {
        EntityView::new_from(self.world, self.world.target_of(self.id.0, first, index))
    }

    /// The first entity that itself holds `component_id`, starting at this
    /// entity and going up along `relationship`; the null handle when there
    /// is none.
    pub fn target_for_id(&self, relationship: u64, component_id: u64) -> (t: EntityView<'a>)
        ensures
            t.world == self.world,
            t.id.0 == self.world@.holder(
                self.id.0,
                relationship,
                component_id,
                self.world@.entities.len(),
            ),
    {
        EntityView::new_from(self.world, self.world.holder(self.id.0, relationship, component_id))
    }

    /// The first entity that itself holds the component `T`, starting at
    /// this entity and going up along `relationship`.
    pub fn target_for<T: ComponentId>(self, relationship: u64) -> (t: EntityView<'a>)
        ensures
            t.world == self.world,
            t.id.0 == self.world@.holder(
                self.id.0,
                relationship,
                self.world@.id_of(T::TYPE_KEY),
                self.world@.entities.len(),
            ),
    {
        self.target_for_id(relationship, self.world.id_of::<T>())
    }

    /// The value that the component `First` itself stores for its pair with
    /// `second`.
    pub fn target_for_first<First: ComponentId>(&self, second: u64) -> (r: Option<&'a [u8]>)
        ensures
            match r {
                Some(v) => self.world@.get(
                    self.world@.id_of(First::TYPE_KEY),
                    crate::id::pair_spec(self.world@.id_of(First::TYPE_KEY), second),
                ) == Some(v@),
                None => self.world@.get(
                    self.world@.id_of(First::TYPE_KEY),
                    crate::id::pair_spec(self.world@.id_of(First::TYPE_KEY), second),
                ) is None,
            },
    {
        let comp_id: u64 = self.world.id_of::<First>();
        self.world.get_id(comp_id, ecs_pair(comp_id, second))
    }

    /// Depth of the entity along `relationship`: the number of steps up to
    /// an entity without a target.
    pub fn depth_id(self, relationship: u64) -> (d: usize)
        ensures
            d == self.world@.depth(self.id.0, relationship, self.world@.entities.len()),
    {
        self.world.depth_of(self.id.0, relationship)
    }

    /// Depth of the entity along the relationship `T`.
    pub fn depth<T: ComponentId>(self) -> (d: usize)
        ensures
            d == self.world@.depth(
                self.id.0,
                self.world@.id_of(T::TYPE_KEY),
                self.world@.entities.len(),
            ),
    {
        self.depth_id(self.world.id_of::<T>())
    }

    /// The parent of the entity in the hierarchy; the null handle for a root.
    pub fn parent(self) -> (p: EntityView<'a>)
        ensures
            p.world == self.world,
            p.id.0 == self.world@.up(self.id.0, ECS_CHILD_OF),
    {
        self.target_id(ECS_CHILD_OF, 0)
    }

    /// Whether the entity has the id, itself or by inheritance.
    pub fn has_id(self, entity: u64) -> (r: bool)
        ensures
            r == self.world@.has(self.id.0, entity),
    {
        self.world.has_id(self.id.0, entity)
    }

    /// Whether the entity has the component `T`; for an enum component,
    /// whether it relates to any of its constants.
    pub fn has<T: ComponentId>(self) -> (r: bool)
        ensures
            r == self.world@.typed_has(self.id.0, ComponentInfo::describe::<T>()),
    {
        let info = ComponentInfo::of::<T>();
        let component_id: u64 = self.world.lookup_key(info.type_key);
        if !info.is_enum {
            self.world.has_id(self.id.0, component_id)
        } else {
            self.has_id(ecs_pair(component_id, ECS_WILDCARD))
        }
    }

    /// Whether the entity relates to the given constant of the enum
    /// component `T`: to the constant whose position `constant` reports.
    pub fn has_enum<T: EnumConstant>(self, constant: T) -> (r: bool)
        ensures
            exists|index: u32|
                call_ensures(T::index, (&constant,), index) && r == #[trigger] self.world@.has(
                    self.id.0,
                    crate::id::pair_spec(
                        self.world@.id_of(T::TYPE_KEY),
                        self.world@.constant_id(T::TYPE_KEY, index),
                    ),
                ),
    {
        let component_id: u64 = self.world.id_of::<T>();
        let index: u32 = constant.index();
        let enum_constant_entity_id: u64 = self.world.constant_of::<T>(index);
        let r = self.has_id(ecs_pair(component_id, enum_constant_entity_id));
        assert(r == self.world@.has(
            self.id.0,
            crate::id::pair_spec(self.world@.id_of(T::TYPE_KEY), self.world@.constant_id(T::TYPE_KEY, index)),
        ));
        r
    }

    /// Whether the entity has the pair of `enum_id` and the constant whose
    /// position `constant` reports.
    pub fn has_enum_id<T: EnumConstant>(self, enum_id: u64, constant: T) -> (r: bool)
        ensures
            exists|index: u32|
                call_ensures(T::index, (&constant,), index) && r == #[trigger] self.world@.has(
                    self.id.0,
                    crate::id::pair_spec(enum_id, self.world@.constant_id(T::TYPE_KEY, index)),
                ),
    {
        let index: u32 = constant.index();
        let enum_constant_entity_id: u64 = self.world.constant_of::<T>(index);
        let r = self.has_id(ecs_pair(enum_id, enum_constant_entity_id));
        assert(r == self.world@.has(
            self.id.0,
            crate::id::pair_spec(enum_id, self.world@.constant_id(T::TYPE_KEY, index)),
        ));
        r
    }

    /// Whether the entity has the pair of the component `First` and `second`.
    pub fn has_first<First: ComponentId>(self, second: u64) -> (r: bool)
        ensures
            r == self.world@.has(
                self.id.0,
                crate::id::pair_spec(self.world@.id_of(First::TYPE_KEY), second),
            ),
    {
        self.has_id(ecs_pair(self.world.id_of::<First>(), second))
    }

    /// Whether the entity has the pair of `first` and the component `Second`.
    pub fn has_second<Second: ComponentId>(self, first: u64) -> (r: bool)
        ensures
            r == self.world@.has(
                self.id.0,
                crate::id::pair_spec(first, self.world@.id_of(Second::TYPE_KEY)),
            ),
    {
        self.has_id(ecs_pair(first, self.world.id_of::<Second>()))
    }

    /// Whether the entity has the pair of the component `T` and the constant
    /// of the enum component `U` whose position `constant` reports.
    pub fn has_pair_enum<T: ComponentId, U: EnumConstant>(&self, constant: U) -> (r: bool)
        ensures
            exists|index: u32|
                call_ensures(U::index, (&constant,), index) && r == #[trigger] self.world@.has(
                    self.id.0,
                    crate::id::pair_spec(
                        self.world@.id_of(T::TYPE_KEY),
                        self.world@.constant_id(U::TYPE_KEY, index),
                    ),
                ),
    {
        let component_id: u64 = self.world.id_of::<T>();
        let index: u32 = constant.index();
        let enum_constant_entity_id: u64 = self.world.constant_of::<U>(index);
        let r = self.has_id(ecs_pair(component_id, enum_constant_entity_id));
        assert(r == self.world@.has(
            self.id.0,
            crate::id::pair_spec(self.world@.id_of(T::TYPE_KEY), self.world@.constant_id(U::TYPE_KEY, index)),
        ));
        r
    }

    /// Whether the entity itself holds the id.
    pub fn owns_id(self, entity_id: u64) -> (r: bool)
        ensures
            r == self.world@.entity(self.id.0).owns(entity_id),
    {
        self.world.owns_id(self.id.0, entity_id)
    }

    /// Whether the entity itself holds the component `T`.
    pub fn owns<T: ComponentId>(self) -> (r: bool)
        ensures
            r == self.world@.entity(self.id.0).owns(self.world@.id_of(T::TYPE_KEY)),
    {
        self.world.owns_id(self.id.0, self.world.id_of::<T>())
    }

    /// Whether the entity itself holds the pair of `First` and `second`.
    pub fn owns_first<First: ComponentId>(self, second: u64) -> (r: bool)
        ensures
            r == self.world@.entity(self.id.0).owns(
                crate::id::pair_spec(self.world@.id_of(First::TYPE_KEY), second),
            ),
    {
        self.world.owns_id(self.id.0, ecs_pair(self.world.id_of::<First>(), second))
    }

    /// Whether the entity itself holds the pair of `first` and `Second`.
    pub fn owns_second<Second: ComponentId>(self, first: u64) -> (r: bool)
        ensures
            r == self.world@.entity(self.id.0).owns(
                crate::id::pair_spec(first, self.world@.id_of(Second::TYPE_KEY)),
            ),
    {
        self.world.owns_id(self.id.0, ecs_pair(first, self.world.id_of::<Second>()))
    }

    /// Whether the entity holds the id and it is enabled.
    pub fn is_enabled_id(self, id: u64) -> (r: bool)
        ensures
            r == self.world@.entity(self.id.0).enabled(id),
    {
        self.world.is_enabled_id(self.id.0, id)
    }

    /// Whether the entity holds the component `T` and it is enabled.
    pub fn is_enabled<T: ComponentId>(self) -> (r: bool)
        ensures
            r == self.world@.entity(self.id.0).enabled(self.world@.id_of(T::TYPE_KEY)),
    {
        self.world.is_enabled_id(self.id.0, self.world.id_of::<T>())
    }

    /// Whether the pair of `T` and `second` is held and enabled.
    pub fn is_enabled_first<T: ComponentId>(self, second: u64) -> (r: bool)
        ensures
            r == self.world@.entity(self.id.0).enabled(
                crate::id::pair_spec(self.world@.id_of(T::TYPE_KEY), second),
            ),
    {
        self.is_enabled_id(ecs_pair(self.world.id_of::<T>(), second))
    }

    /// Whether the pair of `first` and `U` is held and enabled.
    pub fn is_enabled_second<U: ComponentId>(self, first: u64) -> (r: bool)
        ensures
            r == self.world@.entity(self.id.0).enabled(
                crate::id::pair_spec(first, self.world@.id_of(U::TYPE_KEY)),
            ),
    {
        self.is_enabled_id(ecs_pair(first, self.world.id_of::<U>()))
    }

    /// The same entity, as seen through a stage that takes changes. The
    /// stage must not be read-only.
    pub fn mut_current_stage(self, stage: &'a World) -> (e: EntityView<'a>)
        requires
            !stage@.readonly,
        ensures
            e.world == stage,
            e.id == self.id,
    {
        EntityView::new_from(stage, self.id.0)
    }

    /// The same entity, as seen through the stage of another handle. That
    /// stage must not be read-only.
    pub fn mut_stage_of(self, entity: EntityView<'a>) -> (e: EntityView<'a>)
        requires
            !entity.world@.readonly,
        ensures
            e.world == entity.world,
            e.id == self.id,
    {
        EntityView::new_from(entity.world, self.id.0)
    }

    /// The same entity, as seen through another stage.
    pub fn set_stage(self, stage: &'a World) -> (e: EntityView<'a>)
        ensures
            e.world == stage,
            e.id == self.id,
    {
        EntityView::new_from(stage, self.id.0)
    }

    /// The value of the enum component `T` that this constant stands for;
    /// nothing when the entity is no constant of `T`.
    pub fn try_to_constant<T: ComponentId>(self) -> (r: Option<&'a [u8]>)
        ensures
            match r {
                Some(v) => self.world@.typed_get(self.id.0, ComponentInfo::describe::<T>()) == Some(v@),
                None => self.world@.typed_get(self.id.0, ComponentInfo::describe::<T>()) is None,
            },
    {
        let ptr = self.try_get::<T>();
        ptr
    }

    /// The value of the enum component `T` that this constant stands for.
    /// The entity must be a constant of `T`.
    pub fn to_constant<T: ComponentId>(self) -> (v: &'a [u8])
        requires
            self.world@.typed_get(self.id.0, ComponentInfo::describe::<T>()) is Some,
        ensures
            self.world@.typed_get(self.id.0, ComponentInfo::describe::<T>()) == Some(v@),
    {
        match self.try_to_constant::<T>() {
            Some(v) => v,
            None => vstd::pervasive::unreached(),
        }
    }

    /// The path of the entity from the root, with the given separator
    /// between its elements and the given text before the first. Nothing
    /// when the path is empty or not valid UTF-8.
    pub fn path_w_sep(self, sep: &[u8], init_sep: &[u8]) -> (r: Option<String>)
        ensures
            r is Some == (self.world@.path(0, self.id.0, sep@, init_sep@).len() > 0 && vstd::utf8::valid_utf8(
                self.world@.path(0, self.id.0, sep@, init_sep@),
            )),
            r matches Some(s) ==> s@ == vstd::utf8::decode_utf8(
                self.world@.path(0, self.id.0, sep@, init_sep@),
            ),
    {
        let bytes = self.world.path(0, self.id.0, sep, init_sep);
        if bytes.len() == 0 {
            None
        } else {
            string_from_utf8(bytes)
        }
    }

    /// The path of the entity from the root, with `::` between its elements
    /// and before the first.
    pub fn path(self) -> (r: Option<String>)
        ensures
            r is Some == (self.world@.path(0, self.id.0, crate::state::separator(),
                crate::state::separator()).len() > 0 && vstd::utf8::valid_utf8(
                self.world@.path(0, self.id.0, crate::state::separator(), crate::state::separator()),
            )),
            r matches Some(s) ==> s@ == vstd::utf8::decode_utf8(
                self.world@.path(0, self.id.0, crate::state::separator(), crate::state::separator()),
            ),
    {
        let sep = separator();
        let bytes = self.world.path(0, self.id.0, sep.as_slice(), sep.as_slice());
        if bytes.len() == 0 {
            None
        } else {
            string_from_utf8(bytes)
        }
    }

    /// The path of the entity relative to `parent`, with the given
    /// separator between its elements.
    pub fn path_from_id_w_sep(&self, parent: u64, sep: &[u8], init_sep: &[u8]) -> (r: Option<String>)
        ensures
            r is Some == (self.world@.path(parent, self.id.0, sep@, init_sep@).len() > 0
                && vstd::utf8::valid_utf8(
                self.world@.path(parent, self.id.0, sep@, init_sep@),
            )),
            r matches Some(s) ==> s@ == vstd::utf8::decode_utf8(
                self.world@.path(parent, self.id.0, sep@, init_sep@),
            ),
    {
        let bytes = self.world.path(parent, self.id.0, sep, init_sep);
        if bytes.len() == 0 {
            None
        } else {
            string_from_utf8(bytes)
        }
    }

    /// The path of the entity relative to `parent`, with `::` between its
    /// elements.
    pub fn path_from_id(self, parent: u64) -> (r: Option<String>)
        ensures
            r is Some == (self.world@.path(parent, self.id.0, crate::state::separator(),
                crate::state::separator()).len() > 0 && vstd::utf8::valid_utf8(
                self.world@.path(parent, self.id.0, crate::state::separator(), crate::state::separator()),
            )),
            r matches Some(s) ==> s@ == vstd::utf8::decode_utf8(
                self.world@.path(parent, self.id.0, crate::state::separator(), crate::state::separator()),
            ),
    {
        let sep = separator();
        let bytes = self.world.path(parent, self.id.0, sep.as_slice(), sep.as_slice());
        if bytes.len() == 0 {
            None
        } else {
            string_from_utf8(bytes)
        }
    }

    /// The path of the entity relative to the component `T`, with `::`
    /// between its elements.
    pub fn path_from<T: ComponentId>(self) -> (r: Option<String>)
        ensures
            r is Some == (self.world@.path(self.world@.id_of(T::TYPE_KEY), self.id.0,
                crate::state::separator(), crate::state::separator()).len() > 0 && vstd::utf8::valid_utf8(
                self.world@.path(self.world@.id_of(T::TYPE_KEY), self.id.0, crate::state::separator(),
                    crate::state::separator()),
            )),
            r matches Some(s) ==> s@ == vstd::utf8::decode_utf8(
                self.world@.path(self.world@.id_of(T::TYPE_KEY), self.id.0, crate::state::separator(),
                    crate::state::separator()),
            ),
    {
        let sep = separator();
        let bytes = self.world.path(self.world.id_of::<T>(), self.id.0, sep.as_slice(), sep.as_slice());
        if bytes.len() == 0 {
            None
        } else {
            string_from_utf8(bytes)
        }
    }

    /// The path of the entity relative to the component `T`, with the given
    /// separator between its elements.
    pub fn path_from_w_sep<T: ComponentId>(&self, sep: &[u8], init_sep: &[u8]) -> (r: Option<String>)
        ensures
            r is Some == (self.world@.path(self.world@.id_of(T::TYPE_KEY), self.id.0, sep@,
                init_sep@).len() > 0 && vstd::utf8::valid_utf8(
                self.world@.path(self.world@.id_of(T::TYPE_KEY), self.id.0, sep@, init_sep@),
            )),
            r matches Some(s) ==> s@ == vstd::utf8::decode_utf8(
                self.world@.path(self.world@.id_of(T::TYPE_KEY), self.id.0, sep@, init_sep@),
            ),
    {
        let bytes = self.world.path(self.world.id_of::<T>(), self.id.0, sep, init_sep);
        if bytes.len() == 0 {
            None
        } else {
            string_from_utf8(bytes)
        }
    }

    /// The path of the entity relative to the component `T`, with `::`
    /// between its elements.
    pub fn hierarchy_path_from_parent_type<T: ComponentId>(self) -> (r: Option<String>)
        ensures
            r is Some == (self.world@.path(self.world@.id_of(T::TYPE_KEY), self.id.0,
                crate::state::separator(), crate::state::separator()).len() > 0 && vstd::utf8::valid_utf8(
                self.world@.path(self.world@.id_of(T::TYPE_KEY), self.id.0, crate::state::separator(),
                    crate::state::separator()),
            )),
            r matches Some(s) ==> s@ == vstd::utf8::decode_utf8(
                self.world@.path(self.world@.id_of(T::TYPE_KEY), self.id.0, crate::state::separator(),
                    crate::state::separator()),
            ),
    {
        let sep = separator();
        let bytes = self.world.path(self.world.id_of::<T>(), self.id.0, sep.as_slice(), sep.as_slice());
        if bytes.len() == 0 {
            None
        } else {
            string_from_utf8(bytes)
        }
    }

    /// The rows that the entity takes in the table of its type: one row, at
    /// the number of live entities created before it that have the same
    /// type. Nothing when the entity is not alive.
    pub fn table_range(self) -> (r: Option<TableRange<'a>>)
        ensures
            r is Some == self.world@.valid(self.id.0),
            r matches Some(range) ==> range.table.world == self.world
                && range.table.ids@ == self.world@.entity(
                self.id.0,
            ).ids() && range.offset == self.world@.row_of(self.id.0, self.id.0 as int) && range.count == 1,
    {
        if !self.world.is_alive(self.id.0) {
            return None;
        }
        let table = Table::new(self.world, self.world.type_of(self.id.0));
        Some(TableRange::new(table, self.world.row_of(self.id.0), 1))
    }

    /// The entity that `name` names as seen from this one: the path is
    /// looked up below this entity and, when `search_path` is set and it
    /// names nothing there, below each ancestor in turn. A name that starts
    /// with `::` is looked up from the root. The handle must not be null.
    fn try_lookup_impl(self, name: &[u8], search_path: bool) -> (r: Option<EntityView<'a>>)
        requires
            self.id.0 != 0,
        ensures
            r is Some == (self.world@.lookup(
                self.id.0,
                name@,
                crate::state::separator(),
                crate::state::separator(),
                search_path,
            ) != 0),
            r matches Some(e) ==> e.world == self.world && e.id.0 == self.world@.lookup(
                self.id.0,
                name@,
                crate::state::separator(),
                crate::state::separator(),
                search_path,
            ),
    {
        let sep = separator();
        let id: u64 = self.world.lookup_path(self.id.0, name, sep.as_slice(), sep.as_slice(), search_path);
        if id == 0 {
            None
        } else {
            Some(EntityView::new_from(self.world, id))
        }
    }

    /// The entity that `name` names as seen from this one, searching the
    /// ancestors too.
    pub fn try_lookup(&self, name: &[u8]) -> (r: Option<EntityView<'a>>)
        requires
            self.id.0 != 0,
        ensures
            r is Some == (self.world@.lookup(
                self.id.0,
                name@,
                crate::state::separator(),
                crate::state::separator(),
                true,
            ) != 0),
            r matches Some(e) ==> e.world == self.world && e.id.0 == self.world@.lookup(
                self.id.0,
                name@,
                crate::state::separator(),
                crate::state::separator(),
                true,
            ),
    {
        self.try_lookup_impl(name, true)
    }

    /// The entity that `name` names below this one.
    pub fn try_lookup_current_scope(&self, name: &[u8]) -> (r: Option<EntityView<'a>>)
        requires
            self.id.0 != 0,
        ensures
            r is Some == (self.world@.lookup(
                self.id.0,
                name@,
                crate::state::separator(),
                crate::state::separator(),
                false,
            ) != 0),
            r matches Some(e) ==> e.world == self.world && e.id.0 == self.world@.lookup(
                self.id.0,
                name@,
                crate::state::separator(),
                crate::state::separator(),
                false,
            ),
    {
        self.try_lookup_impl(name, false)
    }

    /// The entity that `name` names as seen from this one, which must be
    /// there.
    pub fn lookup(&self, name: &[u8]) -> (e: EntityView<'a>)
        requires
            self.id.0 != 0,
            self.world@.lookup(self.id.0, name@, crate::state::separator(), crate::state::separator(), true)
                != 0,
        ensures
            e.world == self.world,
            e.id.0 == self.world@.lookup(
                self.id.0,
                name@,
                crate::state::separator(),
                crate::state::separator(),
                true,
            ),
    {
        match self.try_lookup(name) {
            Some(e) => e,
            None => vstd::pervasive::unreached(),
        }
    }

    /// The entity that `name` names below this one, which must be there.
    pub fn lookup_current_scope(&self, name: &[u8]) -> (e: EntityView<'a>)
        requires
            self.id.0 != 0,
            self.world@.lookup(self.id.0, name@, crate::state::separator(), crate::state::separator(), false)
                != 0,
        ensures
            e.world == self.world,
            e.id.0 == self.world@.lookup(
                self.id.0,
                name@,
                crate::state::separator(),
                crate::state::separator(),
                false,
            ),
    {
        match self.try_lookup_current_scope(name) {
            Some(e) => e,
            None => vstd::pervasive::unreached(),
        }
    }
}

} // verus!
