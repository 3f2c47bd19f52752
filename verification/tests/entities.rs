use flecs_ecs::flecs::{ChildOf, IsA};
use flecs_ecs::id::{ecs_pair, ECS_ANY, ECS_CHILD_OF, ECS_DISABLED, ECS_IS_A, ECS_WILDCARD};
use flecs_ecs::observer::Observers;
use flecs_ecs::{ComponentId, EntityView, IdView, World};
use std::cell::RefCell;

struct Position;

impl ComponentId for Position {
    const TYPE_KEY: u64 = 100;
    const SIZE: usize = 8;
    const ALIGNMENT: usize = 4;
    const IS_ENUM: bool = false;
    const CONSTANTS: u32 = 0;
}

struct Likes;

impl ComponentId for Likes {
    const TYPE_KEY: u64 = 101;
    const SIZE: usize = 0;
    const ALIGNMENT: usize = 0;
    const IS_ENUM: bool = false;
    const CONSTANTS: u32 = 0;
}

struct Unregistered;

impl ComponentId for Unregistered {
    const TYPE_KEY: u64 = 999;
    const SIZE: usize = 4;
    const ALIGNMENT: usize = 4;
    const IS_ENUM: bool = false;
    const CONSTANTS: u32 = 0;
}

#[test]
fn name_is_text_only_when_it_is_valid_utf8() {
    let mut world = World::new();
    let named = world.entity_new_named(0, "héllo".as_bytes());
    let plain = world.entity_new();
    let broken = world.entity_new_named(0, &[0xff, 0xfe]);

    let view = EntityView::new_from(&world, named);
    assert_eq!(view.get_name(), Some("héllo"));
    assert_eq!(view.name(), "héllo");
    assert_eq!(view.get_name_cstr(), Some("héllo".as_bytes()));

    let view = EntityView::new_from(&world, plain);
    assert_eq!(view.get_name(), None);
    assert_eq!(view.name(), "");
    assert_eq!(view.get_name_cstr(), None);
    assert_eq!(view.name_cstr(), b"");

    let view = EntityView::new_from(&world, broken);
    assert_eq!(view.get_name(), None);
    assert_eq!(view.name(), "");
    assert_eq!(view.name_cstr(), &[0xff, 0xfe]);
}

#[test]
fn symbol_is_read_back() {
    let mut world = World::new();
    let e = world.entity_new();
    assert!(world.set_symbol(e, b"game.Position"));
    let view = EntityView::new_from(&world, e);
    assert_eq!(view.symbol(), "game.Position");
    assert_eq!(view.symbol_cstr(), b"game.Position");
    assert!(!world.set_symbol(5000, b"x"));
}

#[test]
fn path_names_every_ancestor() {
    let mut world = World::new();
    let a = world.entity_new_named(0, b"a");
    let b = world.entity_new_named(a, b"b");
    let c = world.entity_new_named(b, b"c");
    let unnamed = world.entity_new_child(a);
    assert_eq!(unnamed, 19);

    let view = EntityView::new_from(&world, c);
    assert_eq!(view.path(), Some("::a::b::c".to_string()));
    assert_eq!(view.path_from_id(a), Some("b::c".to_string()));
    assert_eq!(view.path_from_id(b), Some("c".to_string()));
    assert_eq!(view.path_from_id(c), None);
    assert_eq!(view.path_w_sep(b".", b""), Some("a.b.c".to_string()));
    assert_eq!(view.path_from_id_w_sep(a, b"/", b"/"), Some("b/c".to_string()));
    assert_eq!(
        EntityView::new_from(&world, unnamed).path(),
        Some("::a::19".to_string())
    );
    assert_eq!(
        EntityView::new_from(&world, ECS_WILDCARD).path(),
        Some("*".to_string())
    );
    assert_eq!(EntityView::new_from(&world, ECS_ANY).path(), Some("_".to_string()));
    assert_eq!(EntityView::new_from(&world, 0).path(), Some("0".to_string()));
    assert_eq!(world.path(0, c, b"::", b"::"), b"::a::b::c".to_vec());
}

#[test]
fn path_relative_to_a_component_type() {
    let mut world = World::new();
    let position = world.get_or_register::<Position>();
    world.set_name(position, b"Position");
    let x = world.entity_new_named(position, b"x");
    let view = EntityView::new_from(&world, x);
    assert_eq!(view.path_from::<Position>(), Some("x".to_string()));
    assert_eq!(view.hierarchy_path_from_parent_type::<Position>(), Some("x".to_string()));
    assert_eq!(view.path_from_w_sep::<Position>(b".", b"."), Some("x".to_string()));
    assert_eq!(view.path(), Some("::Position::x".to_string()));
}

#[test]
fn lookup_follows_the_path_and_searches_ancestors() {
    let mut world = World::new();
    let a = world.entity_new_named(0, b"a");
    let b = world.entity_new_named(a, b"b");
    let c = world.entity_new_named(b, b"c");
    let other = world.entity_new_named(0, b"b");

    let from_a = EntityView::new_from(&world, a);
    assert_eq!(from_a.try_lookup(b"b::c").map(|e| e.id().0), Some(c));
    assert_eq!(from_a.try_lookup_current_scope(b"c").map(|e| e.id().0), None);
    assert_eq!(from_a.lookup(b"b").id().0, b);
    assert_eq!(from_a.lookup_current_scope(b"b").id().0, b);

    let from_c = EntityView::new_from(&world, c);
    assert_eq!(from_c.try_lookup(b"b").map(|e| e.id().0), Some(b));
    assert_eq!(from_c.try_lookup_current_scope(b"b").map(|e| e.id().0), None);
    assert_eq!(from_c.try_lookup(b"a").map(|e| e.id().0), Some(a));
    assert_eq!(from_c.try_lookup(b"::b").map(|e| e.id().0), Some(other));
    assert_eq!(from_c.try_lookup(b"::a::b::c").map(|e| e.id().0), Some(c));
    assert_eq!(from_c.try_lookup(b"missing").map(|e| e.id().0), None);
    assert_eq!(from_c.try_lookup(b"").map(|e| e.id().0), None);
    assert_eq!(from_a.try_lookup(b"b::").map(|e| e.id().0), None);
}

#[test]
fn named_entities_are_created_along_the_path_once() {
    let mut world = World::new();
    let before = world.count();
    let z = EntityView::new_named(&mut world, b"x::y::z").id().0;
    assert_eq!(world.count(), before + 3);
    assert_eq!(z as usize, before + 2);
    assert_eq!(EntityView::new_from(&world, z).path(), Some("::x::y::z".to_string()));
    let again = EntityView::new_named(&mut world, b"::x::y::z").id().0;
    assert_eq!(again, z);
    assert_eq!(world.count(), before + 3);

    let x = z - 2;
    world.set_scope(x);
    let w = EntityView::new_named(&mut world, b"w").id().0;
    assert_eq!(EntityView::new_from(&world, w).parent().id().0, x);
    let root = EntityView::new_named(&mut world, b"::w").id().0;
    assert_ne!(root, w);
    assert_eq!(EntityView::new_from(&world, root).parent().id().0, 0);
    assert_eq!(EntityView::new_named(&mut world, b"").id().0, 0);
    assert_eq!(EntityView::new_named(&mut world, b"p::::q").id().0, 0);
}

#[test]
fn new_entities_go_into_the_scope() {
    let mut world = World::new();
    let observers = Observers::new();
    let tag = world.get_or_register::<Likes>();
    let plain = EntityView::new(&mut world).id().0;
    assert!(EntityView::new_from(&world, plain).archetype().as_slice().is_empty());
    assert!(EntityView::new_from(&world, plain).table().is_none());

    assert_eq!(world.set_scope(plain), 0);
    assert_eq!(world.set_with(tag), 0);
    let scoped = EntityView::new(&mut world).id().0;
    let view = EntityView::new_from(&world, scoped);
    assert_eq!(
        view.archetype().as_slice().to_vec(),
        vec![tag, ecs_pair(ECS_CHILD_OF, plain)]
    );
    assert_eq!(view.parent().id().0, plain);
    assert!(view.has::<Likes>());
    assert_eq!(world.get_scope(), plain);
    assert_eq!(world.get_with(), tag);
    let _ = observers;
}

#[test]
fn targets_parents_and_depth() {
    let mut world = World::new();
    let observers = Observers::new();
    let likes = world.get_or_register::<Likes>();
    let a = world.entity_new();
    let b = world.entity_new_child(a);
    let c = world.entity_new_child(b);
    let apples = world.entity_new();
    let pears = world.entity_new();
    EntityView::add_id(&mut world, &observers, c, ecs_pair(likes, apples));
    EntityView::add_id(&mut world, &observers, c, ecs_pair(likes, pears));

    let view = EntityView::new_from(&world, c);
    assert_eq!(view.parent().id().0, b);
    assert_eq!(view.target_id(ECS_CHILD_OF, 0).id().0, b);
    assert_eq!(view.target::<ChildOf>(0).id().0, b);
    assert_eq!(view.target::<Likes>(0).id().0, apples);
    assert_eq!(view.target::<Likes>(1).id().0, pears);
    assert_eq!(view.target::<Likes>(2).id().0, 0);
    assert_eq!(view.target::<Likes>(-1).id().0, 0);
    assert_eq!(view.depth_id(ECS_CHILD_OF), 2);
    assert_eq!(view.depth::<ChildOf>(), 2);
    assert_eq!(EntityView::new_from(&world, a).depth::<ChildOf>(), 0);
    assert_eq!(EntityView::new_from(&world, a).parent().id().0, 0);

    assert!(view.has_first::<Likes>(apples));
    assert!(!view.has_first::<Likes>(a));
    assert!(view.has_second::<Likes>(apples) == false);
    assert!(view.has_id(ecs_pair(likes, ECS_WILDCARD)));
    assert!(view.owns_first::<Likes>(pears));
    assert!(view.owns_id(ecs_pair(ECS_WILDCARD, pears)));
    assert!(!view.owns_second::<Likes>(apples));
}

#[test]
fn each_walks_ids_pairs_targets_and_children_in_order() {
    let mut world = World::new();
    let observers = Observers::new();
    let likes = world.get_or_register::<Likes>();
    let position = world.get_or_register::<Position>();
    let e = world.entity_new();
    let apples = world.entity_new();
    let pears = world.entity_new();
    EntityView::add_id(&mut world, &observers, e, position);
    EntityView::add_id(&mut world, &observers, e, ecs_pair(likes, apples));
    EntityView::add_id(&mut world, &observers, e, ecs_pair(likes, pears));
    let child1 = world.entity_new_child(e);
    let child2 = world.entity_new_child(e);
    let liked = world.entity_new();
    EntityView::add_id(&mut world, &observers, liked, ecs_pair(likes, e));

    let view = EntityView::new_from(&world, e);
    let seen = RefCell::new(Vec::new());
    view.each_component(|id: IdView| seen.borrow_mut().push(id.id()));
    assert_eq!(
        seen.take(),
        vec![position, ecs_pair(likes, apples), ecs_pair(likes, pears)]
    );

    view.each_pair(likes, ECS_WILDCARD, |id: IdView| {
        assert!(id.is_pair());
        assert_eq!(id.first_id().id().0, likes);
        seen.borrow_mut().push(id.second_id().id().0)
    });
    assert_eq!(seen.take(), vec![apples, pears]);
    view.each_pair(likes, pears, |id: IdView| seen.borrow_mut().push(id.id()));
    assert_eq!(seen.take(), vec![ecs_pair(likes, pears)]);
    view.each_pair(position, 0, |id: IdView| seen.borrow_mut().push(id.id()));
    assert_eq!(seen.take(), vec![position]);
    view.each_pair(ECS_WILDCARD, 0, |id: IdView| seen.borrow_mut().push(id.id()));
    assert_eq!(seen.take(), vec![position]);

    view.each_target_id(likes, |t: EntityView| seen.borrow_mut().push(t.id().0));
    assert_eq!(seen.take(), vec![apples, pears]);
    view.each_target::<Likes, _>(|t: EntityView| seen.borrow_mut().push(t.id().0));
    assert_eq!(seen.take(), vec![apples, pears]);

    view.each_child(|c: EntityView| seen.borrow_mut().push(c.id().0));
    assert_eq!(seen.take(), vec![child1, child2]);
    view.each_child_of::<ChildOf, _>(|c: EntityView| seen.borrow_mut().push(c.id().0));
    assert_eq!(seen.take(), vec![child1, child2]);
    view.each_child_of_id(likes, |c: EntityView| seen.borrow_mut().push(c.id().0));
    assert_eq!(seen.take(), vec![liked]);
    EntityView::new_from(&world, ECS_WILDCARD)
        .each_child(|c: EntityView| seen.borrow_mut().push(c.id().0));
    assert!(seen.take().is_empty());
}

#[test]
fn inherited_value_is_seen_and_taken_over_on_write() {
    let mut world = World::new();
    let observers = Observers::new();
    let position = world.get_or_register::<Position>();
    let base = world.entity_new();
    EntityView::set::<Position>(&mut world, &observers, base, &[1, 2, 3, 4, 5, 6, 7, 8]);
    let instance = world.entity_new();
    EntityView::add_id(&mut world, &observers, instance, ecs_pair(ECS_IS_A, base));

    let view = EntityView::new_from(&world, instance);
    assert!(view.has::<Position>());
    assert!(view.has_id(position));
    assert!(!view.owns::<Position>());
    assert!(!view.owns_id(position));
    assert_eq!(view.try_get::<Position>(), Some(&[1u8, 2, 3, 4, 5, 6, 7, 8][..]));
    assert_eq!(view.get_untyped(position), Some(&[1u8, 2, 3, 4, 5, 6, 7, 8][..]));
    assert_eq!(view.target_for::<Position>(ECS_IS_A).id().0, base);
    assert_eq!(view.target_for_id(ECS_IS_A, position).id().0, base);
    assert_eq!(view.target_for_id(ECS_CHILD_OF, position).id().0, 0);
    assert!(view.has_first::<IsA>(base));

    {
        let value = EntityView::get_mut::<Position>(&mut world, instance);
        value[0] = 9;
    }
    let view = EntityView::new_from(&world, instance);
    assert!(view.owns::<Position>());
    assert_eq!(view.get::<Position>(), &[9u8, 2, 3, 4, 5, 6, 7, 8]);
    assert_eq!(
        EntityView::new_from(&world, base).get::<Position>(),
        &[1u8, 2, 3, 4, 5, 6, 7, 8]
    );
    assert!(EntityView::try_get_mut::<Position>(&mut world, 9999).is_none());
    assert!(EntityView::try_get_mut::<Unregistered>(&mut world, instance).is_none());
}

#[test]
fn typed_reads_of_absent_tags_and_unregistered_components() {
    let mut world = World::new();
    let observers = Observers::new();
    world.get_or_register::<Position>();
    world.get_or_register::<Likes>();
    let e = world.entity_new();
    EntityView::add::<Likes>(&mut world, &observers, e);
    let view = EntityView::new_from(&world, e);
    assert_eq!(view.try_get::<Position>(), None);
    assert_eq!(view.try_get::<Likes>(), None);
    assert_eq!(view.try_get::<Unregistered>(), None);
    assert!(view.has::<Likes>());
    assert!(!view.has::<Position>());
    assert!(!view.has::<Unregistered>());
    assert!(!view.get_callback::<Position, _>(|_v: &[u8]| panic!("no value")));
    let null = EntityView::new_null(&world);
    assert_eq!(null.id().0, 0);
    assert!(!null.is_valid());
    assert!(!null.is_alive());
    assert!(view.is_valid());
    assert!(view.id_view().entity_view().is_alive());
}

#[test]
fn callbacks_get_the_value() {
    let mut world = World::new();
    let observers = Observers::new();
    world.get_or_register::<Position>();
    let e = world.entity_new();
    EntityView::set::<Position>(&mut world, &observers, e, &[1, 1, 1, 1, 2, 2, 2, 2]);
    let seen = RefCell::new(Vec::new());
    assert!(EntityView::new_from(&world, e)
        .get_callback::<Position, _>(|v: &[u8]| seen.borrow_mut().extend_from_slice(v)));
    assert_eq!(seen.take(), vec![1, 1, 1, 1, 2, 2, 2, 2]);
    assert!(EntityView::get_callback_mut::<Position, _>(&mut world, e, |v: &mut [u8]| v[7] = 0));
    assert_eq!(
        EntityView::new_from(&world, e).get_unchecked::<Position>(),
        &[1u8, 1, 1, 1, 2, 2, 2, 0]
    );
    assert!(!EntityView::get_callback_mut::<Position, _>(&mut world, 9999, |_v: &mut [u8]| {}));
}

#[test]
fn pair_values_are_read_and_written_by_either_element() {
    let mut world = World::new();
    let observers = Observers::new();
    let position = world.get_or_register::<Position>();
    let likes = world.get_or_register::<Likes>();
    let e = world.entity_new();
    let target = world.entity_new();
    EntityView::set_id(&mut world, &observers, e, ecs_pair(position, target), &[7; 8]);
    EntityView::set_id(&mut world, &observers, e, ecs_pair(likes, position), &[5; 8]);
    EntityView::set_id(&mut world, &observers, e, ecs_pair(position, likes), &[3; 8]);

    let view = EntityView::new_from(&world, e);
    assert_eq!(view.try_get_first_id::<Position>(target), Some(&[7u8; 8][..]));
    assert_eq!(view.get_first_id::<Position>(target), &[7u8; 8]);
    assert_eq!(view.try_get_first_id::<Position>(e), None);
    assert_eq!(view.try_get_second_id::<Position>(likes), Some(&[5u8; 8][..]));
    assert_eq!(view.get_second_id::<Position>(likes), &[5u8; 8]);
    assert_eq!(view.try_get_second::<Likes, Position>(), Some(&[5u8; 8][..]));
    assert_eq!(view.get_second::<Likes, Position>(), &[5u8; 8]);
    assert_eq!(view.try_get_first::<Position, Likes>(), Some(&[3u8; 8][..]));
    assert_eq!(view.get_first::<Position, Likes>(), &[3u8; 8]);

    EntityView::get_first_id_mut::<Position>(&mut world, e, target)[0] = 1;
    EntityView::get_second_id_mut::<Position>(&mut world, e, likes)[0] = 2;
    EntityView::get_first_mut::<Position, Likes>(&mut world, e)[0] = 4;
    EntityView::get_second_mut::<Likes, Position>(&mut world, e)[1] = 6;
    assert!(EntityView::try_get_first_id_mut::<Position>(&mut world, e, 9999).is_none());
    assert!(EntityView::try_get_second_id_mut::<Position>(&mut world, e, 9999).is_none());
    assert!(EntityView::try_get_first_mut::<Likes, Likes>(&mut world, e).is_none());
    assert!(EntityView::try_get_second_mut::<Position, Position>(&mut world, e).is_none());
    assert_eq!(
        EntityView::get_untyped_mut(&mut world, e, ecs_pair(position, target)).map(|v| v.to_vec()),
        Some(vec![1, 7, 7, 7, 7, 7, 7, 7])
    );
    let view = EntityView::new_from(&world, e);
    assert_eq!(view.get_second_id::<Position>(likes), &[2u8, 6, 5, 5, 5, 5, 5, 5]);
    assert_eq!(view.get_first::<Position, Likes>(), &[4u8, 3, 3, 3, 3, 3, 3, 3]);
    assert_eq!(view.target_for_first::<Position>(target), None);
}

#[test]
fn duplicate_copies_ids_and_values_or_zeroes() {
    let mut world = World::new();
    let observers = Observers::new();
    let position = world.get_or_register::<Position>();
    let likes = world.get_or_register::<Likes>();
    let e = world.entity_new();
    EntityView::set::<Position>(&mut world, &observers, e, &[9; 8]);
    EntityView::add::<Likes>(&mut world, &observers, e);

    let copy = EntityView::duplicate(&mut world, e, true).id().0;
    let view = EntityView::new_from(&world, copy);
    assert_eq!(view.archetype().as_slice().to_vec(), vec![position, likes]);
    assert_eq!(view.get::<Position>(), &[9u8; 8]);

    let blank = EntityView::duplicate(&mut world, e, false).id().0;
    assert_eq!(EntityView::new_from(&world, blank).get::<Position>(), &[0u8; 8]);

    let dest = world.entity_new();
    EntityView::set::<Position>(&mut world, &observers, dest, &[4; 8]);
    assert_eq!(EntityView::duplicate_into(&mut world, e, true, dest).id().0, dest);
    let view = EntityView::new_from(&world, dest);
    assert_eq!(view.get::<Position>(), &[4u8; 8]);
    assert!(view.has::<Likes>());
    let fresh = EntityView::duplicate_into(&mut world, e, true, 0).id().0;
    assert_eq!(fresh, dest + 1);
    assert_eq!(EntityView::new_from(&world, fresh).get::<Position>(), &[9u8; 8]);
}

#[test]
fn tables_group_entities_of_one_type() {
    let mut world = World::new();
    let observers = Observers::new();
    let position = world.get_or_register::<Position>();
    let likes = world.get_or_register::<Likes>();
    let a = world.entity_new();
    let b = world.entity_new();
    let c = world.entity_new();
    EntityView::add_id(&mut world, &observers, a, position);
    EntityView::add_id(&mut world, &observers, b, likes);
    EntityView::add_id(&mut world, &observers, c, position);

    let range = EntityView::new_from(&world, c).table_range().unwrap();
    assert_eq!(range.offset, 1);
    assert_eq!(range.count, 1);
    assert_eq!(range.table.ids, vec![position]);
    assert_eq!(EntityView::new_from(&world, a).table_range().unwrap().offset, 0);
    assert_eq!(EntityView::new_from(&world, b).table_range().unwrap().offset, 0);
    assert!(EntityView::new_from(&world, 9999).table_range().is_none());
    let table = EntityView::new_from(&world, a).table().unwrap();
    assert_eq!(table.archetype().count(), 1);
}

#[test]
fn type_and_entity_are_shown_as_text() {
    let mut world = World::new();
    let observers = Observers::new();
    let position = world.get_or_register::<Position>();
    world.set_name(position, b"Position");
    let parent = world.entity_new_named(0, b"parent");
    let e = world.entity_new_child(parent);
    EntityView::add_id(&mut world, &observers, e, position);
    world.set_name(flecs_ecs::id::ECS_CHILD_OF, b"ChildOf");

    let view = EntityView::new_from(&world, e);
    assert_eq!(view.display_text(), e.to_string().into_bytes());
    assert_eq!(EntityView::new_from(&world, parent).display_text(), b"parent".to_vec());
    assert_eq!(
        view.archetype().to_string(),
        Some("(ChildOf,parent), Position".to_string())
    );
    assert_eq!(view.archetype().to_bytes(), b"(ChildOf,parent), Position".to_vec());
    assert_eq!(EntityView::new_from(&world, parent).archetype().to_string(), None);
    assert_eq!(
        world.display_text(18_446_744_073_709_551_615),
        b"18446744073709551615".to_vec()
    );
}

#[test]
fn ids_can_be_disabled() {
    let mut world = World::new();
    let observers = Observers::new();
    let position = world.get_or_register::<Position>();
    let likes = world.get_or_register::<Likes>();
    let e = world.entity_new();
    let target = world.entity_new();
    EntityView::add_id(&mut world, &observers, e, position);
    EntityView::add_id(&mut world, &observers, e, ecs_pair(likes, target));
    EntityView::add_id(&mut world, &observers, e, ecs_pair(target, position));

    assert!(EntityView::new_from(&world, e).is_enabled::<Position>());
    assert!(world.enable_id(e, position, false));
    assert!(!world.enable_id(e, 9999, false));
    let view = EntityView::new_from(&world, e);
    assert!(!view.is_enabled::<Position>());
    assert!(!view.is_enabled_id(position));
    assert!(view.is_enabled_first::<Likes>(target));
    assert!(view.is_enabled_second::<Position>(target));
    assert!(!view.is_enabled_second::<Position>(e));
    assert!(view.is_enabled_self());
    assert!(view.has::<Position>());
    EntityView::add_id(&mut world, &observers, e, ECS_DISABLED);
    assert!(!EntityView::new_from(&world, e).is_enabled_self());
}

#[test]
fn stages_keep_the_identifier() {
    let mut world = World::new();
    let stage = World::new();
    let e = world.entity_new();
    let view = EntityView::new_from(&world, e);
    let staged = view.mut_current_stage(&stage);
    assert_eq!(staged.id(), view.id());
    assert!(!staged.is_alive());
    let other = EntityView::new_from(&stage, 3);
    assert_eq!(view.mut_stage_of(other).id().0, e);
    assert_eq!(view.set_stage(&stage).id().0, e);
    assert!(!world.is_readonly());
    assert!(!world.set_readonly(true));
    assert!(world.is_readonly());
}

#[test]
fn path_that_is_not_text_is_not_handed_out() {
    let mut world = World::new();
    let a = world.entity_new_named(0, &[0xc3, 0x28]);
    let view = EntityView::new_from(&world, a);
    assert_eq!(view.path(), None);
    assert_eq!(world.path(0, a, b"::", b"::"), vec![b':', b':', 0xc3, 0x28]);
    assert_eq!(view.archetype().to_string(), None);
}

#[test]
fn setting_and_adding_report_what_they_did() {
    let mut world = World::new();
    let observers = Observers::new();
    let position = world.get_or_register::<Position>();
    let e = world.entity_new();
    assert!(!EntityView::add_id(&mut world, &observers, e, 0));
    assert!(!EntityView::add_id(&mut world, &observers, 9999, position));
    assert!(EntityView::add_id(&mut world, &observers, e, position));
    assert!(!EntityView::add_id(&mut world, &observers, e, position));
    assert_eq!(EntityView::new_from(&world, e).get::<Position>(), &[0u8; 8]);
    assert!(!EntityView::set_id(&mut world, &observers, e, 0, &[1]));
    assert!(!EntityView::set_id(&mut world, &observers, 9999, position, &[1]));
    assert!(!EntityView::set_id(&mut world, &observers, e, position, &[3; 7]));
    assert!(!EntityView::set_id(&mut world, &observers, e, position, &[]));
    assert_eq!(EntityView::new_from(&world, e).get::<Position>(), &[0u8; 8]);
    assert!(EntityView::set_id(&mut world, &observers, e, position, &[3; 8]));
    assert_eq!(EntityView::new_from(&world, e).get::<Position>(), &[3u8; 8]);
    assert!(!EntityView::remove_id(&mut world, &observers, e, 12345));
    assert!(EntityView::remove_id(&mut world, &observers, e, ECS_WILDCARD));
    assert!(EntityView::new_from(&world, e).archetype().as_slice().is_empty());
    assert_eq!(world.type_of(9999), Vec::<u64>::new());
    assert_eq!(world.matching_ids(e, ECS_WILDCARD), Vec::<u64>::new());
}

#[test]
fn deleted_entity_is_gone_and_its_id_is_not_reused() {
    let mut world = World::new();
    let observers = Observers::new();
    let position = world.get_or_register::<Position>();
    let e = world.entity_new_named(0, b"e");
    EntityView::set::<Position>(&mut world, &observers, e, &[1; 8]);
    assert!(world.entity_delete(e));
    assert!(!world.entity_delete(e));
    assert!(!world.entity_delete(0));
    let view = EntityView::new_from(&world, e);
    assert!(!view.is_alive());
    assert!(!view.has_id(position));
    assert_eq!(view.try_get::<Position>(), None);
    assert_eq!(view.name(), "");
    assert_eq!(world.entity_new(), e + 1);
    assert!(!EntityView::set::<Position>(&mut world, &observers, e, &[1; 8]));
}

#[test]
fn held_pair_is_handed_over_once() {
    let mut world = World::new();
    let observers = Observers::new();
    let likes = world.get_or_register::<Likes>();
    let e = world.entity_new();
    let apples = world.entity_new();
    assert!(EntityView::add_id(&mut world, &observers, e, ecs_pair(likes, apples)));
    let _ = EntityView::add_id(&mut world, &observers, e, ecs_pair(likes, apples));
    let _ = EntityView::set_id(&mut world, &observers, e, ecs_pair(likes, apples), &[]);

    let view = EntityView::new_from(&world, e);
    assert_eq!(view.archetype().as_slice().to_vec(), vec![ecs_pair(likes, apples)]);
    let seen = RefCell::new(Vec::new());
    view.each_pair(likes, apples, |id: IdView| {
        assert!(id.is_pair());
        seen.borrow_mut().push((id.first_id().id().0, id.second_id().id().0))
    });
    assert_eq!(seen.take(), vec![(likes, apples)]);
    view.each_pair(apples, likes, |id: IdView| {
        seen.borrow_mut().push((id.first_id().id().0, id.second_id().id().0))
    });
    assert!(seen.take().is_empty());
}

#[test]
fn new_entity_holds_the_scope_pair_once() {
    let mut world = World::new();
    let parent = world.entity_new();
    assert_eq!(world.set_scope(parent), 0);
    assert_eq!(world.set_with(ecs_pair(ECS_CHILD_OF, parent)), 0);
    let child = EntityView::new(&mut world).id().0;
    let view = EntityView::new_from(&world, child);
    assert_eq!(view.archetype().as_slice().to_vec(), vec![ecs_pair(ECS_CHILD_OF, parent)]);
    assert_eq!(view.parent().id().0, parent);
}
