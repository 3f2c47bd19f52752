use flecs_ecs::observer::Observers;
use flecs_ecs::query::QueryBuilder;
use flecs_ecs::table_iter::Row;
use flecs_ecs::{ComponentId, EntityView, World};
use std::cell::RefCell;

struct Position;

impl ComponentId for Position {
    const TYPE_KEY: u64 = 100;
    const SIZE: usize = 8;
    const ALIGNMENT: usize = 4;
    const IS_ENUM: bool = false;
    const CONSTANTS: u32 = 0;
}

struct Velocity;

impl ComponentId for Velocity {
    const TYPE_KEY: u64 = 101;
    const SIZE: usize = 8;
    const ALIGNMENT: usize = 4;
    const IS_ENUM: bool = false;
    const CONSTANTS: u32 = 0;
}

struct Npc;

impl ComponentId for Npc {
    const TYPE_KEY: u64 = 102;
    const SIZE: usize = 0;
    const ALIGNMENT: usize = 0;
    const IS_ENUM: bool = false;
    const CONSTANTS: u32 = 0;
}

fn pair(x: f32, y: f32) -> Vec<u8> {
    let mut v = x.to_le_bytes().to_vec();
    v.extend_from_slice(&y.to_le_bytes());
    v
}

fn unpair(bytes: &[u8]) -> (f32, f32) {
    (
        f32::from_le_bytes([bytes[0], bytes[1], bytes[2], bytes[3]]),
        f32::from_le_bytes([bytes[4], bytes[5], bytes[6], bytes[7]]),
    )
}

#[test]
fn query_with_tag_sees_only_positions_of_npcs_in_creation_order() {
    let mut world = World::new();
    let observers = Observers::new();
    world.get_or_register::<Position>();
    world.get_or_register::<Npc>();

    let mut builder = QueryBuilder::<&Position>::new(&world);
    builder.with::<Npc>(&world);
    let query = builder.build().unwrap();

    let e1 = world.entity_new_named(0, b"e1");
    EntityView::set::<Position>(&mut world, &observers, e1, &pair(10.0, 20.0));
    EntityView::add::<Npc>(&mut world, &observers, e1);
    let e2 = world.entity_new_named(0, b"e2");
    EntityView::set::<Position>(&mut world, &observers, e2, &pair(30.0, 40.0));
    EntityView::add::<Npc>(&mut world, &observers, e2);
    let e3 = world.entity_new_named(0, b"e3");
    EntityView::set::<Position>(&mut world, &observers, e3, &pair(50.0, 60.0));

    assert_eq!(query.entities(&world), vec![e1, e2]);
    let seen: RefCell<Vec<Vec<Vec<u8>>>> = RefCell::new(Vec::new());
    query.each(&mut world, |row: &mut Row| seen.borrow_mut().push(row.fields.clone()));
    assert_eq!(
        seen.into_inner(),
        vec![vec![pair(10.0, 20.0)], vec![pair(30.0, 40.0)]]
    );
}

#[test]
fn system_moves_each_entity_by_its_velocity_once() {
    let mut world = World::new();
    let observers = Observers::new();
    world.get_or_register::<Position>();
    world.get_or_register::<Velocity>();
    let system = QueryBuilder::<(&mut Position, &Velocity)>::new(&world)
        .build()
        .unwrap();

    let e1 = world.entity_new_named(0, b"e1");
    EntityView::set::<Position>(&mut world, &observers, e1, &pair(10.0, 20.0));
    EntityView::set::<Velocity>(&mut world, &observers, e1, &pair(1.0, 2.0));
    let e2 = world.entity_new_named(0, b"e2");
    EntityView::set::<Position>(&mut world, &observers, e2, &pair(10.0, 20.0));
    EntityView::set::<Velocity>(&mut world, &observers, e2, &pair(3.0, 4.0));
    let e3 = world.entity_new_named(0, b"e3");
    EntityView::set::<Position>(&mut world, &observers, e3, &pair(10.0, 20.0));

    system.each(&mut world, |row: &mut Row| {
        let (px, py) = unpair(&row.fields[0]);
        let (vx, vy) = unpair(&row.fields[1]);
        row.fields[0] = pair(px + vx, py + vy);
        row.fields[1] = pair(0.0, 0.0);
    });

    let get = |world: &World, e: u64| unpair(EntityView::new_from(world, e).get::<Position>());
    assert_eq!(get(&world, e1), (11.0, 22.0));
    assert_eq!(get(&world, e2), (13.0, 24.0));
    assert_eq!(get(&world, e3), (10.0, 20.0));
    let velocity = EntityView::new_from(&world, e1).get::<Velocity>().to_vec();
    assert_eq!(unpair(&velocity), (1.0, 2.0));
}

#[test]
fn query_without_terms_is_refused() {
    let mut world = World::new();
    world.get_or_register::<Position>();
    let builder = QueryBuilder::<&Position>::new(&world);
    assert!(builder.build().is_ok());
    let empty = QueryBuilder::<&Position> {
        filter_builder: flecs_ecs::filter_builder::FilterBuilder::new(),
        phantom: std::marker::PhantomData,
    };
    assert!(empty.build().is_err());
}

#[test]
fn each_entity_hands_out_the_entity_with_its_values() {
    let mut world = World::new();
    let observers = Observers::new();
    world.get_or_register::<Position>();
    let query = QueryBuilder::<&mut Position>::new(&world).build().unwrap();
    let e1 = world.entity_new_named(0, b"e1");
    EntityView::set::<Position>(&mut world, &observers, e1, &pair(1.0, 1.0));
    let e2 = world.entity_new_named(0, b"e2");
    EntityView::set::<Position>(&mut world, &observers, e2, &pair(2.0, 2.0));

    let names = RefCell::new(Vec::new());
    query.each_entity(&mut world, |e: &mut EntityView, row: &mut Row| {
        names.borrow_mut().push(e.name().to_string());
        if e.id().0 == e2 {
            row.fields[0] = pair(5.0, 6.0);
        }
    });
    assert_eq!(names.take(), vec!["e1".to_string(), "e2".to_string()]);
    assert_eq!(
        unpair(EntityView::new_from(&world, e1).get::<Position>()),
        (1.0, 1.0)
    );
    assert_eq!(
        unpair(EntityView::new_from(&world, e2).get::<Position>()),
        (5.0, 6.0)
    );
    assert_eq!(query.count(&world), 2);
}

#[test]
fn term_with_a_fixed_source_is_shared_and_not_written() {
    let mut world = World::new();
    let observers = Observers::new();
    let position = world.get_or_register::<Position>();
    let velocity = world.get_or_register::<Velocity>();
    let wind = world.entity_new();
    EntityView::set::<Velocity>(&mut world, &observers, wind, &pair(1.0, 0.0));
    let e1 = world.entity_new();
    EntityView::set::<Position>(&mut world, &observers, e1, &pair(0.0, 0.0));
    let e2 = world.entity_new();
    EntityView::set::<Position>(&mut world, &observers, e2, &pair(10.0, 0.0));

    let mut builder = QueryBuilder::<&mut Position>::new(&world);
    builder.term(flecs_ecs::term::Term {
        id: velocity,
        source: wind,
        access: flecs_ecs::term::Access::Write,
    });
    let query = builder.build().unwrap();
    assert_eq!(query.entities(&world), vec![e1, e2]);

    let it = query.iter(&world);
    assert_eq!(it.batches.len(), 1);
    assert_eq!(it.batches[0].entities, vec![e1, e2]);
    assert_eq!(it.batches[0].sources, vec![0, wind]);
    assert_eq!(it.batches[0].columns.len(), 2);
    assert_eq!(it.batches[0].columns[0].id, position);
    assert_eq!(it.batches[0].columns[0].size, 8);
    assert!(!it.batches[0].columns[0].is_ref);
    assert!(it.batches[0].columns[0].writable);
    assert_eq!(it.batches[0].columns[0].data.len(), 16);
    assert!(it.batches[0].columns[1].is_ref);
    assert!(!it.batches[0].columns[1].writable);
    assert_eq!(it.batches[0].columns[1].data, pair(1.0, 0.0));

    query.each(&mut world, |row: &mut Row| {
        let (px, py) = unpair(&row.fields[0]);
        let (vx, vy) = unpair(&row.fields[1]);
        row.fields[0] = pair(px + vx, py + vy);
        row.fields[1] = pair(99.0, 99.0);
    });
    assert_eq!(unpair(EntityView::new_from(&world, e1).get::<Position>()), (1.0, 0.0));
    assert_eq!(unpair(EntityView::new_from(&world, e2).get::<Position>()), (11.0, 0.0));
    assert_eq!(unpair(EntityView::new_from(&world, wind).get::<Velocity>()), (1.0, 0.0));

    EntityView::remove::<Velocity>(&mut world, &observers, wind);
    assert!(query.entities(&world).is_empty());
}

#[test]
fn a_value_of_another_size_makes_the_batch_fail_its_check() {
    let mut world = World::new();
    let observers = Observers::new();
    let e1 = world.entity_new();
    let later = world.count() as u64;
    assert!(EntityView::add_id(&mut world, &observers, e1, later));
    assert_eq!(world.get_or_register::<Position>(), later);
    assert!(!EntityView::set::<Position>(&mut world, &observers, e1, &[1, 2, 3]));
    let query = QueryBuilder::<&mut Position>::new(&world).build().unwrap();
    assert_eq!(query.entities(&world), vec![e1]);
    let calls = RefCell::new(0);
    query.each(&mut world, |_row: &mut Row| *calls.borrow_mut() += 1);
    assert_eq!(calls.take(), 0);
    assert!(!query.iter(&world).batches[0].validate());
    assert!(EntityView::set::<Position>(&mut world, &observers, e1, &[1; 8]));
    query.each(&mut world, |_row: &mut Row| *calls.borrow_mut() += 1);
    assert_eq!(calls.take(), 1);
}

#[test]
fn system_runs_its_callback_each_time_it_is_run() {
    let mut world = World::new();
    let observers = Observers::new();
    world.get_or_register::<Position>();
    world.get_or_register::<Velocity>();
    let e1 = world.entity_new_named(0, b"e1");
    EntityView::set::<Position>(&mut world, &observers, e1, &pair(10.0, 20.0));
    EntityView::set::<Velocity>(&mut world, &observers, e1, &pair(1.0, 2.0));
    let e2 = world.entity_new_named(0, b"e2");
    EntityView::set::<Position>(&mut world, &observers, e2, &pair(10.0, 20.0));
    EntityView::set::<Velocity>(&mut world, &observers, e2, &pair(3.0, 4.0));
    let e3 = world.entity_new_named(0, b"e3");
    EntityView::set::<Position>(&mut world, &observers, e3, &pair(10.0, 20.0));

    let log = std::rc::Rc::new(RefCell::new(Vec::new()));
    let l = log.clone();
    let system = QueryBuilder::<(&mut Position, &Velocity)>::new(&world)
        .build()
        .unwrap()
        .system_each_entity(move |e: &mut EntityView, row: &mut Row| {
            let (px, py) = unpair(&row.fields[0]);
            let (vx, vy) = unpair(&row.fields[1]);
            row.fields[0] = pair(px + vx, py + vy);
            l.borrow_mut().push(format!("{}: {{ {}, {} }}", e.name(), px + vx, py + vy));
        });
    system.run(&mut world);
    assert_eq!(
        log.take(),
        vec!["e1: { 11, 22 }".to_string(), "e2: { 13, 24 }".to_string()]
    );
    let get = |world: &World, e: u64| unpair(EntityView::new_from(world, e).get::<Position>());
    assert_eq!(get(&world, e1), (11.0, 22.0));
    assert_eq!(get(&world, e2), (13.0, 24.0));
    assert_eq!(get(&world, e3), (10.0, 20.0));

    system.run(&mut world);
    assert_eq!(get(&world, e1), (12.0, 24.0));
    assert_eq!(get(&world, e3), (10.0, 20.0));
    assert_eq!(log.take().len(), 2);

    let count = std::rc::Rc::new(RefCell::new(0));
    let c = count.clone();
    let counter = QueryBuilder::<&Position>::new(&world)
        .build()
        .unwrap()
        .system_each(move |_row: &mut Row| *c.borrow_mut() += 1);
    counter.run(&mut world);
    assert_eq!(count.take(), 3);
}
