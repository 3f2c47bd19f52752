use flecs_ecs::{
    ComponentId, ComponentIdFetcher, ComponentInfo, ExternalComponent, FlecsComponent, World,
};
use std::marker::PhantomData;

#[allow(dead_code)]
struct Position {
    x: f32,
    y: f32,
}

impl ComponentId for Position {
    const TYPE_KEY: u64 = 100;
    const SIZE: usize = 8;
    const ALIGNMENT: usize = 4;
    const IS_ENUM: bool = false;
    const CONSTANTS: u32 = 0;
}

#[allow(dead_code)]
struct ExtermalPosition {
    x: f32,
    y: f32,
}

#[test]
fn meta_id_macro_test() {
    let mut world = World::new();

    let id = (&&ComponentIdFetcher::<Position> { phantom: PhantomData }).deref_id(&mut world);
    assert_eq!(id, world.component_id::<Position>());
    let id_ext =
        (&&ComponentIdFetcher::<ExtermalPosition> { phantom: PhantomData }).deref_id(&mut world);
    assert_ne!(id_ext, id);

    let world_ref = world.get_world();

    let id_world_ref =
        (&&ComponentIdFetcher::<Position> { phantom: PhantomData }).deref_id(world_ref);
    assert_eq!(id_world_ref, id);

    let id_ext_world_ref =
        (&&ComponentIdFetcher::<ExtermalPosition> { phantom: PhantomData }).deref_id(world_ref);
    assert_eq!(id_ext_world_ref, id_ext);
}

#[test]
fn registering_twice_gives_the_same_id() {
    let mut world = World::new();
    let first = world.get_or_register::<Position>();
    let count = world.count();
    let second = world.get_or_register::<Position>();
    assert_eq!(first, second);
    assert_eq!(world.count(), count);
    assert_eq!(first, 16);

    let mut other = World::new();
    let _ = other.register(ComponentInfo::tag(77));
    let in_other = other.get_or_register::<Position>();
    assert_eq!(in_other, 17);
    assert_eq!(other.get_or_register::<Position>(), in_other);
    assert_eq!(world.get_or_register::<Position>(), first);
}

struct Other;

#[test]
fn types_without_a_description_are_told_apart() {
    let mut world = World::new();
    let a = (&&ComponentIdFetcher::<ExtermalPosition> { phantom: PhantomData }).deref_id(&mut world);
    let b = (&&ComponentIdFetcher::<Other> { phantom: PhantomData }).deref_id(&mut world);
    let c = (&&ComponentIdFetcher::<u32> { phantom: PhantomData }).deref_id(&mut world);
    assert_eq!(a, 16);
    assert_eq!(b, 17);
    assert_eq!(c, 18);
    assert_eq!(
        (&&ComponentIdFetcher::<Other> { phantom: PhantomData }).deref_id(&mut world),
        b
    );
    assert_eq!(
        (&&ComponentIdFetcher::<ExtermalPosition> { phantom: PhantomData }).deref_id(&mut world),
        a
    );
    assert_eq!(world.count(), 19);
    assert_eq!(world.size_of(a), 8);
    assert_eq!(world.size_of(b), 0);
    assert_eq!(world.size_of(c), 4);
    assert_eq!(world.id_size(flecs_ecs::id::ecs_pair(b, c)), 4);
    assert_eq!(world.id_size(flecs_ecs::id::ecs_pair(a, c)), 8);
}

#[test]
fn reserved_components_are_registered_under_their_own_ids() {
    let world = World::new();
    assert_eq!(world.id_of::<flecs_ecs::flecs::ChildOf>(), flecs_ecs::id::ECS_CHILD_OF);
    assert_eq!(world.id_of::<flecs_ecs::flecs::IsA>(), flecs_ecs::id::ECS_IS_A);
    assert_eq!(world.id_of::<flecs_ecs::flecs::Wildcard>(), flecs_ecs::id::ECS_WILDCARD);
    assert_eq!(world.id_of::<flecs_ecs::flecs::Any>(), flecs_ecs::id::ECS_ANY);
    assert_eq!(world.id_of::<flecs_ecs::flecs::OnAdd>(), flecs_ecs::id::ECS_ON_ADD);
    assert_eq!(world.id_of::<flecs_ecs::flecs::OnRemove>(), flecs_ecs::id::ECS_ON_REMOVE);
    assert_eq!(world.id_of::<flecs_ecs::flecs::OnSet>(), flecs_ecs::id::ECS_ON_SET);
    assert_eq!(world.id_of::<flecs_ecs::flecs::Disabled>(), flecs_ecs::id::ECS_DISABLED);
    assert_eq!(world.id_of::<flecs_ecs::flecs::Prefab>(), flecs_ecs::id::ECS_PREFAB);
    assert_eq!(world.id_of::<flecs_ecs::flecs::Component>(), flecs_ecs::id::ECS_COMPONENT);
    assert_eq!(world.id_of::<Position>(), 0);
    assert_eq!(world.lookup_key(12345), 0);
    assert_eq!(world.count(), 16);
    assert!(!world.is_alive(0));
    assert!(world.is_alive(15));
    assert!(!world.is_alive(16));
}

struct Broken;

impl ComponentId for Broken {
    const TYPE_KEY: u64 = 300;
    const SIZE: usize = 8;
    const ALIGNMENT: usize = 0;
    const IS_ENUM: bool = false;
    const CONSTANTS: u32 = 0;
}

#[test]
fn ill_formed_description_is_not_registered() {
    let mut world = World::new();
    let id = (&&ComponentIdFetcher::<Broken> { phantom: PhantomData }).deref_id(&mut world);
    assert_eq!(id, 0);
    assert_eq!(world.count(), 16);
}

#[test]
fn registered_description_is_read_back() {
    let mut world = World::new();
    let c = world.get_or_register::<Position>();
    let info = world.component_info(c).unwrap();
    assert_eq!(info.size, 8);
    assert_eq!(info.alignment, 4);
    assert_eq!(info, ComponentInfo::data(100, 8, 4));
    assert_eq!(world.component_info(0), None);
    assert_eq!(world.component_info(5), Some(ComponentInfo::tag(5)));
    assert_eq!(world.component_info(1), Some(ComponentInfo::data(1, 8, 4)));
    assert_eq!(world.component_info(c + 1), None);
    assert!(world.can_register(&info));
    assert!(!world.can_register(&ComponentInfo::enumeration(5000, u32::MAX)));
    assert!(world.can_register(&ComponentInfo::enumeration(5000, 1000)));
}

#[allow(dead_code)]
struct Partial {
    x: f32,
}

impl ComponentId for Partial {
    const TYPE_KEY: u64 = 400;
    const SIZE: usize = std::mem::size_of::<Partial>();
    const ALIGNMENT: usize = std::mem::align_of::<Partial>();
    const IS_ENUM: bool = false;
    const CONSTANTS: u32 = 0;
}

#[test]
fn meta_partial_struct() {
    let mut world = World::new();

    let c = world.component_id::<Partial>();

    assert!(c != 0);

    let calls = std::cell::Cell::new(0);
    let seen = flecs_ecs::EntityView::new_from(&world, c).get_callback::<flecs_ecs::flecs::Component, _>(
        |ptr: &[u8]| {
            calls.set(calls.get() + 1);
            assert_eq!(u32::from_le_bytes([ptr[0], ptr[1], ptr[2], ptr[3]]), 4);
            assert_eq!(u32::from_le_bytes([ptr[4], ptr[5], ptr[6], ptr[7]]), 4);
        },
    );
    assert!(seen);
    assert_eq!(calls.get(), 1);
}

#[test]
fn description_of_a_type_without_description_is_read_too() {
    let mut world = World::new();
    let c = (&&ComponentIdFetcher::<u64> { phantom: PhantomData }).deref_id(&mut world);
    let view = flecs_ecs::EntityView::new_from(&world, c);
    assert_eq!(
        view.try_get::<flecs_ecs::flecs::Component>(),
        Some(&[8u8, 0, 0, 0, 8, 0, 0, 0][..])
    );
    let reserved = flecs_ecs::EntityView::new_from(&world, flecs_ecs::id::ECS_COMPONENT);
    assert_eq!(
        reserved.get::<flecs_ecs::flecs::Component>(),
        &[8u8, 0, 0, 0, 4, 0, 0, 0]
    );
    let tag = flecs_ecs::EntityView::new_from(&world, flecs_ecs::id::ECS_CHILD_OF);
    assert_eq!(tag.get::<flecs_ecs::flecs::Component>(), &[0u8; 8]);
    assert_eq!(world.id_size(flecs_ecs::id::ECS_COMPONENT), 8);
}

#[allow(dead_code)]
struct Intruder {
    x: f32,
}

impl ComponentId for Intruder {
    const TYPE_KEY: u64 = 100;
    const SIZE: usize = 4;
    const ALIGNMENT: usize = 4;
    const IS_ENUM: bool = false;
    const CONSTANTS: u32 = 0;
}

#[test]
fn key_taken_with_another_description_is_refused() {
    let mut world = World::new();
    let position = (&ComponentIdFetcher::<Position> { phantom: PhantomData }).deref_id(&mut world);
    assert_eq!(position, 16);
    assert!(world.can_register(&ComponentInfo::of::<Position>()));
    assert!(!world.can_register(&ComponentInfo::of::<Intruder>()));

    let refused = (&ComponentIdFetcher::<Intruder> { phantom: PhantomData }).deref_id(&mut world);
    assert_eq!(refused, 0);
    assert_eq!(world.count(), 17);
    assert_eq!(world.component_info(position), Some(ComponentInfo::data(100, 8, 4)));
    assert_eq!(
        (&ComponentIdFetcher::<Position> { phantom: PhantomData }).deref_id(&mut world),
        position
    );

    let mut other = World::new();
    assert!(other.can_register(&ComponentInfo::of::<Intruder>()));
    assert_eq!(
        (&ComponentIdFetcher::<Intruder> { phantom: PhantomData }).deref_id(&mut other),
        16
    );
    assert!(!other.can_register(&ComponentInfo::of::<Position>()));
}

#[test]
fn reserved_types_are_accepted_under_their_own_ids() {
    let mut world = World::new();
    assert!(world.can_register(&ComponentInfo::of::<flecs_ecs::flecs::ChildOf>()));
    assert!(world.can_register(&ComponentInfo::of::<flecs_ecs::flecs::Component>()));
    assert_eq!(
        world.get_or_register::<flecs_ecs::flecs::ChildOf>(),
        flecs_ecs::id::ECS_CHILD_OF
    );
    assert_eq!(
        world.get_or_register::<flecs_ecs::flecs::Component>(),
        flecs_ecs::id::ECS_COMPONENT
    );
    assert_eq!(world.count(), 16);
    assert!(!world.can_register(&ComponentInfo::data(flecs_ecs::id::ECS_CHILD_OF, 4, 4)));
}
