use flecs_ecs::id::{ECS_CHILD_OF, ECS_ON_ADD, ECS_ON_REMOVE, ECS_ON_SET};
use flecs_ecs::observer::{BindingCtx, ObserverBindingCtx, Observers};
use flecs_ecs::callback::{Action, EachCallback};
use flecs_ecs::table_iter::Row;
use flecs_ecs::term::{CallbackShape, Term};
use flecs_ecs::{BuildError, ComponentId, EntityView, ObserverBuilder, ObserverBuilderImpl, World};
use std::cell::RefCell;
use std::rc::Rc;

struct Position;

impl ComponentId for Position {
    const TYPE_KEY: u64 = 100;
    const SIZE: usize = 8;
    const ALIGNMENT: usize = 4;
    const IS_ENUM: bool = false;
    const CONSTANTS: u32 = 0;
}

struct Clicked;

impl ComponentId for Clicked {
    const TYPE_KEY: u64 = 101;
    const SIZE: usize = 0;
    const ALIGNMENT: usize = 0;
    const IS_ENUM: bool = false;
    const CONSTANTS: u32 = 0;
}

fn position(x: f32, y: f32) -> Vec<u8> {
    let mut v = x.to_le_bytes().to_vec();
    v.extend_from_slice(&y.to_le_bytes());
    v
}

struct DropGuard {
    drops: Rc<RefCell<u32>>,
}

impl Drop for DropGuard {
    fn drop(&mut self) {
        *self.drops.borrow_mut() += 1;
    }
}

#[test]
fn component_is_seen_until_it_is_removed() {
    let mut world = World::new();
    let observers = Observers::new();
    world.get_or_register::<Position>();
    let e = world.entity_new();
    assert!(EntityView::set::<Position>(&mut world, &observers, e, &position(10.0, 20.0)));
    {
        let view = EntityView::new_from(&world, e);
        assert_eq!(view.try_get::<Position>(), Some(position(10.0, 20.0).as_slice()));
        assert!(view.has::<Position>());
    }
    assert!(EntityView::remove::<Position>(&mut world, &observers, e));
    assert_eq!(EntityView::new_from(&world, e).try_get::<Position>(), None);
    assert!(!EntityView::remove::<Position>(&mut world, &observers, e));
}

#[test]
fn observer_sees_add_then_set_then_remove() {
    let mut world = World::new();
    let mut observers = Observers::new();
    let position_id = world.get_or_register::<Position>();
    let log: Rc<RefCell<Vec<Vec<u8>>>> = Rc::new(RefCell::new(Vec::new()));
    let seen = log.clone();
    let mut ctx = ObserverBindingCtx::default();
    ctx.each = Some(Action {
        run: Box::new(EachCallback {
            func: move |row: &mut Row| seen.borrow_mut().push(row.fields[0].clone()),
        }),
    });
    let observer = world.entity_new();
    observers.add(
        observer,
        vec![ECS_ON_ADD, ECS_ON_REMOVE, ECS_ON_SET],
        vec![Term::read(position_id)],
        CallbackShape::Each,
        BindingCtx::Observer(ctx),
        false,
        0,
    );

    let e = world.entity_new();
    EntityView::set::<Position>(&mut world, &observers, e, &position(10.0, 20.0));
    assert_eq!(log.borrow().len(), 2);
    assert_eq!(log.borrow()[0], vec![0u8; 8]);
    assert_eq!(log.borrow()[1], position(10.0, 20.0));

    EntityView::remove::<Position>(&mut world, &observers, e);
    assert_eq!(log.borrow().len(), 3);
    assert_eq!(log.borrow()[2], position(10.0, 20.0));

    EntityView::remove::<Position>(&mut world, &observers, e);
    assert_eq!(log.borrow().len(), 3);
}

#[test]
fn destroying_an_observer_drops_its_closure_once() {
    let mut world = World::new();
    let mut observers = Observers::new();
    world.get_or_register::<Clicked>();
    let e = world.entity_new();
    let drops = Rc::new(RefCell::new(0u32));
    let calls = Rc::new(RefCell::new(0u32));
    let guard = DropGuard { drops: drops.clone() };
    let counter = calls.clone();
    EntityView::observe::<Clicked, _>(&mut world, &mut observers, e, move || {
        let _keep = &guard;
        *counter.borrow_mut() += 1;
    });
    assert_eq!(observers.count(), 1);

    EntityView::new_from(&world, e).emit::<Clicked>(&observers);
    assert_eq!(*calls.borrow(), 1);
    assert_eq!(*drops.borrow(), 0);

    let children = world.owners(flecs_ecs::id::ecs_pair(ECS_CHILD_OF, e));
    assert_eq!(children.len(), 1);
    assert!(observers.destroy(children[0]));
    assert_eq!(*drops.borrow(), 1);
    assert!(!observers.destroy(children[0]));
    assert_eq!(*drops.borrow(), 1);

    EntityView::new_from(&world, e).emit::<Clicked>(&observers);
    assert_eq!(*calls.borrow(), 1);
    drop(observers);
    assert_eq!(*drops.borrow(), 1);
}

struct Damage;

impl ComponentId for Damage {
    const TYPE_KEY: u64 = 102;
    const SIZE: usize = 4;
    const ALIGNMENT: usize = 4;
    const IS_ENUM: bool = false;
    const CONSTANTS: u32 = 0;
}

#[test]
fn each_shape_of_entity_observer_gets_what_it_asks_for() {
    let mut world = World::new();
    let mut observers = Observers::new();
    world.get_or_register::<Clicked>();
    world.get_or_register::<Damage>();
    let e = world.entity_new();
    let other = world.entity_new();
    let log: Rc<RefCell<Vec<String>>> = Rc::new(RefCell::new(Vec::new()));

    let l = log.clone();
    assert_eq!(
        EntityView::observe::<Clicked, _>(&mut world, &mut observers, e, move || {
            l.borrow_mut().push("clicked".to_string())
        })
        .0,
        e
    );
    let l = log.clone();
    EntityView::observe_entity::<Clicked, _>(&mut world, &mut observers, e, move |v: &mut EntityView| {
        l.borrow_mut().push(format!("clicked {}", v.id().0))
    });
    let l = log.clone();
    EntityView::observe_payload::<Damage, _>(&mut world, &mut observers, e, move |p: &mut Vec<u8>| {
        l.borrow_mut().push(format!("damage {:?}", p));
        p[0] += 1;
    });
    let l = log.clone();
    EntityView::observe_payload_entity::<Damage, _>(
        &mut world,
        &mut observers,
        e,
        move |v: &mut EntityView, p: &mut Vec<u8>| {
            l.borrow_mut().push(format!("damage {} {:?}", v.id().0, p))
        },
    );
    assert_eq!(observers.count(), 4);
    assert_eq!(world.owners(flecs_ecs::id::ecs_pair(ECS_CHILD_OF, e)).len(), 4);

    EntityView::new_from(&world, e).emit::<Clicked>(&observers);
    assert_eq!(log.take(), vec![format!("clicked"), format!("clicked {}", e)]);
    EntityView::new_from(&world, other).emit::<Clicked>(&observers);
    assert!(log.take().is_empty());
    EntityView::new_from(&world, e).emit_payload::<Damage>(&observers, vec![1, 0, 0, 0]);
    assert_eq!(
        log.take(),
        vec![format!("damage [1, 0, 0, 0]"), format!("damage {} [2, 0, 0, 0]", e)]
    );
    EntityView::new_from(&world, e).emit_const_payload::<Damage>(&observers, vec![5, 0, 0, 0]);
    assert_eq!(log.borrow().len(), 2);
    let clicked = world.id_of::<Clicked>();
    log.take();
    EntityView::new_from(&world, e).emit_id(&observers, clicked);
    assert_eq!(log.take().len(), 2);
}

#[test]
fn events_wait_in_the_queue_while_the_world_is_read_only() {
    let mut world = World::new();
    let mut observers = Observers::new();
    world.get_or_register::<Clicked>();
    world.get_or_register::<Damage>();
    let e = world.entity_new();
    let log: Rc<RefCell<Vec<Vec<u8>>>> = Rc::new(RefCell::new(Vec::new()));
    let l = log.clone();
    EntityView::observe_payload::<Damage, _>(&mut world, &mut observers, e, move |p: &mut Vec<u8>| {
        l.borrow_mut().push(p.clone())
    });
    let l = log.clone();
    EntityView::observe::<Clicked, _>(&mut world, &mut observers, e, move || {
        l.borrow_mut().push(vec![])
    });

    EntityView::new_from(&world, e).enqueue_payload::<Damage>(&mut observers, vec![1]);
    assert_eq!(log.take(), vec![vec![1]]);
    assert_eq!(observers.pending(), 0);

    world.defer_begin();
    let view = EntityView::new_from(&world, e);
    view.enqueue_payload::<Damage>(&mut observers, vec![2]);
    view.enqueue::<Clicked>(&mut observers);
    view.enqueue_const_payload::<Damage>(&mut observers, vec![3]);
    view.enqueue_id(&mut observers, 9999);
    assert!(log.borrow().is_empty());
    assert_eq!(observers.pending(), 4);
    observers.flush(&world);
    assert_eq!(log.take(), vec![vec![2], vec![], vec![3]]);
    assert_eq!(observers.pending(), 0);
}

#[test]
fn structural_changes_wait_while_the_world_is_read_only() {
    let mut world = World::new();
    let mut observers = Observers::new();
    let position = world.get_or_register::<Position>();
    let log: Rc<RefCell<Vec<u64>>> = Rc::new(RefCell::new(Vec::new()));
    let l = log.clone();
    let mut builder = ObserverBuilder::<&Position>::new(&world);
    {
        builder.add_event(ECS_ON_ADD);
        builder.add_event(ECS_ON_REMOVE);
        builder.add_event_of_type::<flecs_ecs::flecs::OnSet>(&world);
        assert_eq!(builder.get_event_count(), 3);
        builder.yield_existing(false);
        builder.set_context(5);
    }
    builder.on_each_entity(move |e: &mut EntityView, _row: &mut Row| l.borrow_mut().push(e.id().0));
    let observer = builder.build(&mut world, &mut observers).unwrap();
    assert_eq!(observer as usize, world.count() - 1);

    let e = world.entity_new();
    EntityView::set::<Position>(&mut world, &observers, e, &[1; 8]);
    assert_eq!(log.take(), vec![e, e]);

    world.defer_begin();
    let other = 9999;
    assert!(!EntityView::add::<Position>(&mut world, &observers, other));
    assert!(!EntityView::remove::<Position>(&mut world, &observers, e));
    let damage = world.get_or_register::<Damage>();
    assert!(!EntityView::set_id(&mut world, &observers, e, damage, &[1, 0, 0, 0]));
    assert!(EntityView::set::<Position>(&mut world, &observers, e, &[2; 8]));
    assert_eq!(log.take(), vec![e]);
    assert_eq!(world.deferred_count(), 3);
    assert!(EntityView::new_from(&world, e).has_id(position));
    assert!(!EntityView::new_from(&world, e).has_id(damage));
    EntityView::new_from(&world, e).enqueue_id(&mut observers, ECS_ON_SET);
    assert_eq!(observers.pending(), 1);

    world.defer_end(&mut observers);
    assert_eq!(observers.pending(), 0);
    assert!(!world.is_readonly());
    assert_eq!(world.deferred_count(), 0);
    assert_eq!(log.take(), vec![e]);
    let view = EntityView::new_from(&world, e);
    assert!(!view.has_id(position));
    assert_eq!(view.get_untyped(damage), Some(&[1u8, 0, 0, 0][..]));
}

#[test]
fn builder_refuses_what_cannot_be_an_observer() {
    let mut world = World::new();
    let mut observers = Observers::new();
    world.get_or_register::<Position>();
    world.get_or_register::<Clicked>();

    let builder = ObserverBuilder::<&Position>::new(&world);
    assert_eq!(builder.get_term_index(), 1);
    assert_eq!(
        builder.build(&mut world, &mut observers),
        Err(BuildError::NoCallback)
    );

    let mut builder = ObserverBuilder::<(&Position, &mut Position)>::new_named(&world, b"watch");
    builder.with::<Clicked>(&world);
    assert_eq!(builder.filter_builder.terms.len(), 3);
    assert_eq!(builder.filter_builder.terms[1], Term::write(world.id_of::<Position>()));
    assert_eq!(builder.filter_builder.terms[2], Term::with(world.id_of::<Clicked>()));
    for event in 0..9 {
        builder.add_event(event);
    }
    builder.on_each(|_row: &mut Row| {});
    assert_eq!(
        builder.build(&mut world, &mut observers),
        Err(BuildError::TooManyEvents)
    );

    let mut builder = ObserverBuilder::<&Position>::new(&world);
    builder.filter_builder.terms.clear();
    builder.on_each(|_row: &mut Row| {});
    assert_eq!(builder.build(&mut world, &mut observers), Err(BuildError::NoTerms));
    assert_eq!(observers.count(), 0);

    let before = world.count();
    let mut builder = ObserverBuilder::<&Position>::new_named(&world, b"watch");
    for event in 0..8 {
        builder.add_event(event);
    }
    builder.on_each(|_row: &mut Row| {});
    let id = builder.build(&mut world, &mut observers).unwrap();
    assert_eq!(id as usize, before);
    assert_eq!(EntityView::new_from(&world, id).name(), "watch");
    assert_eq!(observers.count(), 1);
    assert_eq!(observers.find(id), Some(0));
    assert_eq!(observers.find(id + 1), None);

    let position = world.id_of::<Position>();
    let e = world.entity_new();
    assert!(observers.matching(&world, 3, e, position).is_empty());
    EntityView::add_id(&mut world, &observers, e, position);
    assert_eq!(observers.matching(&world, 3, e, position), vec![0]);
    assert!(observers.matching(&world, 8, e, position).is_empty());
    assert!(observers.matching(&world, 3, e, position + 1).is_empty());
    assert!(observers.matching(&world, 3, e + 1, position).is_empty());
}

#[test]
fn queued_payload_is_delivered_when_the_world_takes_changes_again() {
    let mut world = World::new();
    let mut observers = Observers::new();
    world.get_or_register::<Damage>();
    let e = world.entity_new();
    let log: Rc<RefCell<Vec<Vec<u8>>>> = Rc::new(RefCell::new(Vec::new()));
    let l = log.clone();
    EntityView::observe_payload::<Damage, _>(&mut world, &mut observers, e, move |p: &mut Vec<u8>| {
        l.borrow_mut().push(p.clone())
    });

    world.defer_begin();
    EntityView::new_from(&world, e).enqueue_payload::<Damage>(&mut observers, vec![7, 8]);
    assert!(log.borrow().is_empty());
    assert_eq!(observers.pending(), 1);

    world.defer_end(&mut observers);
    assert_eq!(log.take(), vec![vec![7, 8]]);
    assert_eq!(observers.pending(), 0);

    world.defer_begin();
    world.defer_end(&mut observers);
    assert!(log.borrow().is_empty());
}
