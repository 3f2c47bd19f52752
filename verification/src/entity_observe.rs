//! Observers on single entities: the functions that run their callbacks.

use vstd::prelude::*;
use crate::callback::{Action, EmptyCallback, EntityCallback, PayloadCallback, PayloadEntityCallback};
use crate::component::ComponentId;
use crate::entity_view::EntityView;
use crate::id::{Entity, ECS_ANY};
use crate::iter::Iter;
use crate::observer::{BindingCtx, ObserverEntityBindingCtx, Observers};
use crate::state::{EntityState, ObserverState, MAX_ENTITIES};
use crate::term::{Access, CallbackShape, Term};
use crate::world::World;

verus! {

impl<'a> EntityView<'a> {
    /// Runs a closure that takes nothing, once for each row of the current
    /// batch, with the batch's table locked meanwhile.
    pub fn run_empty<Func: Fn()>(iter: &mut Iter, empty: &Func)
        requires
            call_requires(*empty, ()),
        ensures
            old(iter).count_spec() > 0 ==> call_ensures(*empty, (), ()),
            final(iter).event == old(iter).event,
            final(iter).event_id == old(iter).event_id,
            final(iter).param == old(iter).param,
            final(iter).batches == old(iter).batches,
            final(iter).cursor == old(iter).cursor,
            final(iter).locked@ == old(iter).locked@,
    {
        let iter_count: usize = iter.count();
        let table: u64 = iter.table();
        iter.table_lock(table);
        let mut i: usize = 0;
        while i < iter_count
            invariant
                i <= iter_count,
                call_requires(*empty, ()),
                i > 0 ==> call_ensures(*empty, (), ()),
                iter.event == old(iter).event,
                iter.event_id == old(iter).event_id,
                iter.param == old(iter).param,
                iter.batches == old(iter).batches,
                iter.cursor == old(iter).cursor,
                iter.locked@ == old(iter).locked@.push(table),
            decreases iter_count - i,
        {
            empty();
            i += 1;
        }
        iter.table_unlock();
        assert(iter.locked@ =~= old(iter).locked@);
    }

    /// Runs a closure that takes the observed entity, once for each row of
    /// the current batch, with the batch's table locked meanwhile.
    pub fn run_empty_entity<'w, Func: for <'x, 'y> Fn(&'x mut EntityView<'y>)>(
        world: &'w World,
        iter: &mut Iter,
        empty: &Func,
    )
        requires
            forall|e: &mut EntityView| call_requires(*empty, (e,)),
        ensures
            old(iter).count_spec() > 0 ==> exists|e: &mut EntityView|
                e.world == world && e.id.0 == old(iter).field_src_spec(0) && #[trigger] call_ensures(
                    *empty,
                    (e,),
                    (),
                ),
            final(iter).event == old(iter).event,
            final(iter).event_id == old(iter).event_id,
            final(iter).param == old(iter).param,
            final(iter).batches == old(iter).batches,
            final(iter).cursor == old(iter).cursor,
            final(iter).locked@ == old(iter).locked@,
    {
        let iter_count: usize = iter.count();
        let table: u64 = iter.table();
        iter.table_lock(table);
        let mut i: usize = 0;
        while i < iter_count
            invariant
                i <= iter_count,
                forall|e: &mut EntityView| call_requires(*empty, (e,)),
                i > 0 ==> exists|e: &mut EntityView|
                    e.world == world && e.id.0 == old(iter).field_src_spec(0) && #[trigger] call_ensures(
                        *empty,
                        (e,),
                        (),
                    ),
                iter.event == old(iter).event,
                iter.event_id == old(iter).event_id,
                iter.param == old(iter).param,
                iter.batches == old(iter).batches,
                iter.cursor == old(iter).cursor,
                iter.locked@ == old(iter).locked@.push(table),
            decreases iter_count - i,
        {
            let mut entity = EntityView::new_from(world, iter.field_src(0));
            empty(&mut entity);
            i += 1;
        }
        iter.table_unlock();
        assert(iter.locked@ =~= old(iter).locked@);
    }

    /// Runs a closure that takes the payload of the event, once for each
    /// row of the current batch, with the batch's table locked meanwhile.
    /// Each call sees the payload as the call before left it: the payloads
    /// between the calls form a chain from the payload of the event to the
    /// payload that is left.
    pub fn run_payload<Func: for <'x> Fn(&'x mut Vec<u8>)>(iter: &mut Iter, func: &Func)
        requires
            forall|p: &mut Vec<u8>| call_requires(*func, (p,)),
        ensures
            old(iter).count_spec() == 0 ==> final(iter).param == old(iter).param,
            old(iter).count_spec() == 1 ==> exists|p: &mut Vec<u8>|
                *p == old(iter).param && *final(p) == final(iter).param && #[trigger] call_ensures(
                    *func,
                    (p,),
                    (),
                ),
            old(iter).count_spec() > 0 ==> exists|p: &mut Vec<u8>|
                *p == old(iter).param && #[trigger] call_ensures(*func, (p,), ()),
            old(iter).count_spec() > 0 ==> exists|p: &mut Vec<u8>|
                *final(p) == final(iter).param && #[trigger] call_ensures(*func, (p,), ()),
            exists|chain: Seq<Vec<u8>>|
                #![trigger chain.len()]
                chain.len() == old(iter).count_spec() + 1 && chain[0] == old(iter).param && chain[old(
                    iter,
                ).count_spec() as int] == final(iter).param && forall|k: int|
                    0 <= k < old(iter).count_spec() ==> exists|p: &mut Vec<u8>|
                        *p == #[trigger] chain[k] && *final(p) == chain[k + 1] && #[trigger] call_ensures(
                            *func,
                            (p,),
                            (),
                        ),
            final(iter).event == old(iter).event,
            final(iter).event_id == old(iter).event_id,
            final(iter).batches == old(iter).batches,
            final(iter).cursor == old(iter).cursor,
            final(iter).locked@ == old(iter).locked@,
    {
        let iter_count: usize = iter.count();
        let table: u64 = iter.table();
        iter.table_lock(table);
        let mut i: usize = 0;
        let ghost mut chain: Seq<Vec<u8>> = seq![iter.param];
        while i < iter_count
            invariant
                i <= iter_count,
                forall|p: &mut Vec<u8>| call_requires(*func, (p,)),
                chain.len() == i + 1,
                chain[0] == old(iter).param,
                chain[i as int] == iter.param,
                forall|k: int|
                    0 <= k < i ==> exists|p: &mut Vec<u8>|
                        *p == #[trigger] chain[k] && *final(p) == chain[k + 1] && #[trigger] call_ensures(
                            *func,
                            (p,),
                            (),
                        ),
                i == 0 ==> iter.param == old(iter).param,
                i == 1 ==> exists|p: &mut Vec<u8>|
                    *p == old(iter).param && *final(p) == iter.param && #[trigger] call_ensures(
                        *func,
                        (p,),
                        (),
                    ),
                i > 0 ==> exists|p: &mut Vec<u8>|
                    *p == old(iter).param && #[trigger] call_ensures(*func, (p,), ()),
                i > 0 ==> exists|p: &mut Vec<u8>|
                    *final(p) == iter.param && #[trigger] call_ensures(*func, (p,), ()),
                iter.event == old(iter).event,
                iter.event_id == old(iter).event_id,
                iter.batches == old(iter).batches,
                iter.cursor == old(iter).cursor,
                iter.locked@ == old(iter).locked@.push(table),
            decreases iter_count - i,
        {
            let ghost seen = chain;
            let data = &mut iter.param;
            func(data);
            proof {
                chain = seen.push(iter.param);
                assert forall|k: int| 0 <= k < i + 1 implies exists|p: &mut Vec<u8>|
                    *p == #[trigger] chain[k] && *final(p) == chain[k + 1] && #[trigger] call_ensures(
                        *func,
                        (p,),
                        (),
                    ) by {
                    if k < i {
                        assert(chain[k] == seen[k] && chain[k + 1] == seen[k + 1]);
                    }
                }
            }
            i += 1;
        }
        iter.table_unlock();
        assert(iter.locked@ =~= old(iter).locked@);
        assert(chain.len() == old(iter).count_spec() + 1);
    }

    /// Runs a closure that takes the observed entity and the payload of the
    /// event, once for each row of the current batch, with the batch's
    /// table locked meanwhile. Each call sees the payload as the call before
    /// left it: the payloads between the calls form a chain from the
    /// payload of the event to the payload that is left.
    pub fn run_payload_entity<'w, Func: for <'x, 'y, 'z> Fn(&'x mut EntityView<'y>, &'z mut Vec<u8>)>(
        world: &'w World,
        iter: &mut Iter,
        func: &Func,
    )
        requires
            forall|e: &mut EntityView, p: &mut Vec<u8>| call_requires(*func, (e, p)),
        ensures
            old(iter).count_spec() == 0 ==> final(iter).param == old(iter).param,
            old(iter).count_spec() == 1 ==> exists|e: &mut EntityView, p: &mut Vec<u8>|
                e.world == world && e.id.0 == old(iter).field_src_spec(0) && *p == old(iter).param
                    && *final(p) == final(iter).param && #[trigger] call_ensures(*func, (e, p), ()),
            old(iter).count_spec() > 0 ==> exists|e: &mut EntityView, p: &mut Vec<u8>|
                e.world == world && e.id.0 == old(iter).field_src_spec(0) && *p == old(iter).param
                    && #[trigger] call_ensures(*func, (e, p), ()),
            old(iter).count_spec() > 0 ==> exists|e: &mut EntityView, p: &mut Vec<u8>|
                e.world == world && e.id.0 == old(iter).field_src_spec(0) && *final(p) == final(iter).param
                    && #[trigger] call_ensures(*func, (e, p), ()),
            exists|chain: Seq<Vec<u8>>|
                #![trigger chain.len()]
                chain.len() == old(iter).count_spec() + 1 && chain[0] == old(iter).param && chain[old(
                    iter,
                ).count_spec() as int] == final(iter).param && forall|k: int|
                    0 <= k < old(iter).count_spec() ==> exists|e: &mut EntityView, p: &mut Vec<u8>|
                        e.world == world && e.id.0 == old(iter).field_src_spec(0) && *p == #[trigger] chain[k]
                            && *final(p) == chain[k + 1] && #[trigger] call_ensures(*func, (e, p), ()),
            final(iter).event == old(iter).event,
            final(iter).event_id == old(iter).event_id,
            final(iter).batches == old(iter).batches,
            final(iter).cursor == old(iter).cursor,
            final(iter).locked@ == old(iter).locked@,
    {
        let iter_count: usize = iter.count();
        let table: u64 = iter.table();
        iter.table_lock(table);
        let mut i: usize = 0;
        let ghost mut chain: Seq<Vec<u8>> = seq![iter.param];
        while i < iter_count
            invariant
                i <= iter_count,
                forall|e: &mut EntityView, p: &mut Vec<u8>| call_requires(*func, (e, p)),
                chain.len() == i + 1,
                chain[0] == old(iter).param,
                chain[i as int] == iter.param,
                forall|k: int|
                    0 <= k < i ==> exists|e: &mut EntityView, p: &mut Vec<u8>|
                        e.world == world && e.id.0 == old(iter).field_src_spec(0) && *p == #[trigger] chain[k]
                            && *final(p) == chain[k + 1] && #[trigger] call_ensures(*func, (e, p), ()),
                i == 0 ==> iter.param == old(iter).param,
                i == 1 ==> exists|e: &mut EntityView, p: &mut Vec<u8>|
                    e.world == world && e.id.0 == old(iter).field_src_spec(0) && *p == old(iter).param
                        && *final(p) == iter.param && #[trigger] call_ensures(*func, (e, p), ()),
                i > 0 ==> exists|e: &mut EntityView, p: &mut Vec<u8>|
                    e.world == world && e.id.0 == old(iter).field_src_spec(0) && *p == old(iter).param
                        && #[trigger] call_ensures(*func, (e, p), ()),
                i > 0 ==> exists|e: &mut EntityView, p: &mut Vec<u8>|
                    e.world == world && e.id.0 == old(iter).field_src_spec(0) && *final(p)
                        == iter.param && #[trigger] call_ensures(*func, (e, p), ()),
                iter.event == old(iter).event,
                iter.event_id == old(iter).event_id,
                iter.batches == old(iter).batches,
                iter.cursor == old(iter).cursor,
                iter.locked@ == old(iter).locked@.push(table),
            decreases iter_count - i,
        {
            let mut entity = EntityView::new_from(world, iter.field_src(0));
            let ghost seen = chain;
            let data = &mut iter.param;
            func(&mut entity, data);
            proof {
                chain = seen.push(iter.param);
                assert forall|k: int| 0 <= k < i + 1 implies exists|e: &mut EntityView, p: &mut Vec<u8>|
                    e.world == world && e.id.0 == old(iter).field_src_spec(0) && *p == #[trigger] chain[k]
                        && *final(p) == chain[k + 1] && #[trigger] call_ensures(*func, (e, p), ()) by {
                    if k < i {
                        assert(chain[k] == seen[k] && chain[k + 1] == seen[k + 1]);
                    }
                }
            }
            i += 1;
        }
        iter.table_unlock();
        assert(iter.locked@ =~= old(iter).locked@);
        assert(chain.len() == old(iter).count_spec() + 1);
    }

    /// Creates the observer that watches one entity for one event. The
    /// observer is an entity of its own, a child of the entity it watches;
    /// its context owns the callback.
    pub(crate) fn entity_observer_create(
        world: &mut World,
        observers: &mut Observers,
        event: u64,
        entity: u64,
        binding_ctx: ObserverEntityBindingCtx,
        shape: CallbackShape,
    ) -> (observer: u64)
        requires
            old(world).wf(),
            old(observers).wf(),
            old(world)@.entities.len() < MAX_ENTITIES,
            BindingCtx::Entity(binding_ctx).slot_spec(shape) matches Some(a) && a.run.ready(),
        ensures
            final(world).wf(),
            final(observers).wf(),
            observer == old(world)@.entities.len(),
            final(world)@ == old(world)@.with_new(EntityState::child_of(entity)),
            final(observers)@ == old(observers)@.push(ObserverState::on_entity(observer, event, entity,
                shape)),
            forall|k: int, w: &World, b: Iter, a: Iter|
                0 <= k < old(observers)@.len()
                    ==> #[trigger] final(observers).effect(k, w, b, a) == old(observers).effect(k, w, b, a),
            forall|w: &World, b: Iter, a: Iter| #[trigger]
                final(observers).effect(old(observers)@.len() as int, w, b, a) == (BindingCtx::Entity(
                    binding_ctx,
                ).slot_spec(shape) matches Some(act) && act.run.effect(w, b, a)),
    {
        let mut events: Vec<u64> = Vec::new();
        events.push(event);
        let mut terms: Vec<Term> = Vec::new();
        terms.push(Term { id: ECS_ANY, source: entity, access: Access::Filter });
        let observer: u64 = world.entity_new_child(entity);
        proof {
            assert(events@ =~= seq![event]);
            assert(terms@ =~= seq![Term { id: ECS_ANY, source: entity, access: Access::Filter }]);
        }
        observers.add(observer, events, terms, shape, BindingCtx::Entity(binding_ctx), false, 0);
        observer
    }

    /// Watches the entity for the event `C` with a closure that takes
    /// nothing.
    pub fn observe<C: ComponentId, F: Fn() + 'static>(
        world: &mut World,
        observers: &mut Observers,
        entity: u64,
        func: F,
    ) -> (e: Entity)
        requires
            old(world).wf(),
            old(observers).wf(),
            old(world)@.entities.len() < MAX_ENTITIES,
            call_requires(func, ()),
        ensures
            e.0 == entity,
            final(world).wf(),
            final(observers).wf(),
            final(world)@ == old(world)@.with_new(EntityState::child_of(entity)),
            final(observers)@ == old(observers)@.push(
                ObserverState::on_entity(
                    old(world)@.entities.len() as u64,
                    old(world)@.id_of(C::TYPE_KEY),
                    entity,
                    CallbackShape::Empty,
                ),
            ),
            forall|k: int, w: &World, b: Iter, a: Iter|
                0 <= k < old(observers)@.len()
                    ==> #[trigger] final(observers).effect(k, w, b, a) == old(observers).effect(k, w, b, a),
            forall|w: &World, b: Iter, a: Iter| #[trigger]
                final(observers).effect(old(observers)@.len() as int, w, b, a) ==> (b.count_spec() > 0
                    ==> call_ensures(func, (), ())),
    {
        Self::observe_impl::<C, F>(world, observers, entity, func)
    }

    fn observe_impl<C: ComponentId, Func: Fn() + 'static>(
        world: &mut World,
        observers: &mut Observers,
        entity: u64,
        func: Func,
    ) -> (e: Entity)
        requires
            old(world).wf(),
            old(observers).wf(),
            old(world)@.entities.len() < MAX_ENTITIES,
            call_requires(func, ()),
        ensures
            e.0 == entity,
            final(world).wf(),
            final(observers).wf(),
            final(world)@ == old(world)@.with_new(EntityState::child_of(entity)),
            final(observers)@ == old(observers)@.push(
                ObserverState::on_entity(
                    old(world)@.entities.len() as u64,
                    old(world)@.id_of(C::TYPE_KEY),
                    entity,
                    CallbackShape::Empty,
                ),
            ),
            forall|k: int, w: &World, b: Iter, a: Iter|
                0 <= k < old(observers)@.len()
                    ==> #[trigger] final(observers).effect(k, w, b, a) == old(observers).effect(k, w, b, a),
            forall|w: &World, b: Iter, a: Iter| #[trigger]
                final(observers).effect(old(observers)@.len() as int, w, b, a) ==> (b.count_spec() > 0
                    ==> call_ensures(func, (), ())),
    {
        let mut binding_ctx = ObserverEntityBindingCtx::default();
        binding_ctx.empty = Some(Action { run: Box::new(EmptyCallback { func }) });
        let event: u64 = world.id_of::<C>();
        let _ = Self::entity_observer_create(world, observers, event, entity, binding_ctx,
            CallbackShape::Empty);
        Entity(entity)
    }

    /// Watches the entity for the event `C` with a closure that takes the
    /// watched entity.
    pub fn observe_entity<C: ComponentId, F: for <'x, 'y> Fn(&'x mut EntityView<'y>) + 'static>(
        world: &mut World,
        observers: &mut Observers,
        entity: u64,
        func: F,
    ) -> (e: Entity)
        requires
            old(world).wf(),
            old(observers).wf(),
            old(world)@.entities.len() < MAX_ENTITIES,
            forall|v: &mut EntityView| call_requires(func, (v,)),
        ensures
            e.0 == entity,
            final(world).wf(),
            final(observers).wf(),
            final(world)@ == old(world)@.with_new(EntityState::child_of(entity)),
            final(observers)@ == old(observers)@.push(
                ObserverState::on_entity(
                    old(world)@.entities.len() as u64,
                    old(world)@.id_of(C::TYPE_KEY),
                    entity,
                    CallbackShape::EmptyEntity,
                ),
            ),
            forall|k: int, w: &World, b: Iter, a: Iter|
                0 <= k < old(observers)@.len()
                    ==> #[trigger] final(observers).effect(k, w, b, a) == old(observers).effect(k, w, b, a),
            forall|w: &World, b: Iter, a: Iter| #[trigger]
                final(observers).effect(old(observers)@.len() as int, w, b, a) ==> (b.count_spec() > 0
                    ==> exists|v: &mut EntityView|
                    v.world == w && v.id.0 == b.field_src_spec(0) && #[trigger] call_ensures(func, (v,), ())),
    {
        Self::observe_entity_impl::<C, F>(world, observers, entity, func)
    }

    fn observe_entity_impl<C: ComponentId, Func: for <'x, 'y> Fn(&'x mut EntityView<'y>) + 'static>(
        world: &mut World,
        observers: &mut Observers,
        entity: u64,
        func: Func,
    ) -> (e: Entity)
        requires
            old(world).wf(),
            old(observers).wf(),
            old(world)@.entities.len() < MAX_ENTITIES,
            forall|v: &mut EntityView| call_requires(func, (v,)),
        ensures
            e.0 == entity,
            final(world).wf(),
            final(observers).wf(),
            final(world)@ == old(world)@.with_new(EntityState::child_of(entity)),
            final(observers)@ == old(observers)@.push(
                ObserverState::on_entity(
                    old(world)@.entities.len() as u64,
                    old(world)@.id_of(C::TYPE_KEY),
                    entity,
                    CallbackShape::EmptyEntity,
                ),
            ),
            forall|k: int, w: &World, b: Iter, a: Iter|
                0 <= k < old(observers)@.len()
                    ==> #[trigger] final(observers).effect(k, w, b, a) == old(observers).effect(k, w, b, a),
            forall|w: &World, b: Iter, a: Iter| #[trigger]
                final(observers).effect(old(observers)@.len() as int, w, b, a) ==> (b.count_spec() > 0
                    ==> exists|v: &mut EntityView|
                    v.world == w && v.id.0 == b.field_src_spec(0) && #[trigger] call_ensures(func, (v,), ())),
    {
        let mut binding_ctx = ObserverEntityBindingCtx::default();
        binding_ctx.empty_entity = Some(Action { run: Box::new(EntityCallback { func }) });
        let event: u64 = world.id_of::<C>();
        let _ = Self::entity_observer_create(world, observers, event, entity, binding_ctx,
            CallbackShape::EmptyEntity);
        Entity(entity)
    }

    /// Watches the entity for the event `C` with a closure that takes the
    /// payload of the event.
    pub fn observe_payload<C: ComponentId, F: for <'x> Fn(&'x mut Vec<u8>) + 'static>(
        world: &mut World,
        observers: &mut Observers,
        entity: u64,
        func: F,
    ) -> (e: Entity)
        requires
            old(world).wf(),
            old(observers).wf(),
            old(world)@.entities.len() < MAX_ENTITIES,
            forall|p: &mut Vec<u8>| call_requires(func, (p,)),
        ensures
            e.0 == entity,
            final(world).wf(),
            final(observers).wf(),
            final(world)@ == old(world)@.with_new(EntityState::child_of(entity)),
            final(observers)@ == old(observers)@.push(
                ObserverState::on_entity(
                    old(world)@.entities.len() as u64,
                    old(world)@.id_of(C::TYPE_KEY),
                    entity,
                    CallbackShape::Payload,
                ),
            ),
            forall|k: int, w: &World, b: Iter, a: Iter|
                0 <= k < old(observers)@.len()
                    ==> #[trigger] final(observers).effect(k, w, b, a) == old(observers).effect(k, w, b, a),
            forall|w: &World, b: Iter, a: Iter| #[trigger]
                final(observers).effect(old(observers)@.len() as int, w, b, a) ==> (b.count_spec() > 0
                    ==> exists|p: &mut Vec<u8>| *p == b.param && #[trigger] call_ensures(func, (p,), ())),
    {
        Self::observe_payload_impl::<C, F>(world, observers, entity, func)
    }

    fn observe_payload_impl<C: ComponentId, Func: for <'x> Fn(&'x mut Vec<u8>) + 'static>(
        world: &mut World,
        observers: &mut Observers,
        entity: u64,
        func: Func,
    ) -> (e: Entity)
        requires
            old(world).wf(),
            old(observers).wf(),
            old(world)@.entities.len() < MAX_ENTITIES,
            forall|p: &mut Vec<u8>| call_requires(func, (p,)),
        ensures
            e.0 == entity,
            final(world).wf(),
            final(observers).wf(),
            final(world)@ == old(world)@.with_new(EntityState::child_of(entity)),
            final(observers)@ == old(observers)@.push(
                ObserverState::on_entity(
                    old(world)@.entities.len() as u64,
                    old(world)@.id_of(C::TYPE_KEY),
                    entity,
                    CallbackShape::Payload,
                ),
            ),
            forall|k: int, w: &World, b: Iter, a: Iter|
                0 <= k < old(observers)@.len()
                    ==> #[trigger] final(observers).effect(k, w, b, a) == old(observers).effect(k, w, b, a),
            forall|w: &World, b: Iter, a: Iter| #[trigger]
                final(observers).effect(old(observers)@.len() as int, w, b, a) ==> (b.count_spec() > 0
                    ==> exists|p: &mut Vec<u8>| *p == b.param && #[trigger] call_ensures(func, (p,), ())),
    {
        let mut binding_ctx = ObserverEntityBindingCtx::default();
        binding_ctx.payload = Some(Action { run: Box::new(PayloadCallback { func }) });
        let event: u64 = world.id_of::<C>();
        let _ = Self::entity_observer_create(world, observers, event, entity, binding_ctx,
            CallbackShape::Payload);
        Entity(entity)
    }

    /// Watches the entity for the event `C` with a closure that takes the
    /// watched entity and the payload of the event.
    pub fn observe_payload_entity<C: ComponentId, F: for <'x, 'y, 'z> Fn(&'x mut EntityView<'y>,
        &'z mut Vec<u8>) + 'static>(
        world: &mut World,
        observers: &mut Observers,
        entity: u64,
        func: F,
    ) -> (e: Entity)
        requires
            old(world).wf(),
            old(observers).wf(),
            old(world)@.entities.len() < MAX_ENTITIES,
            forall|v: &mut EntityView, p: &mut Vec<u8>| call_requires(func, (v, p)),
        ensures
            e.0 == entity,
            final(world).wf(),
            final(observers).wf(),
            final(world)@ == old(world)@.with_new(EntityState::child_of(entity)),
            final(observers)@ == old(observers)@.push(
                ObserverState::on_entity(
                    old(world)@.entities.len() as u64,
                    old(world)@.id_of(C::TYPE_KEY),
                    entity,
                    CallbackShape::PayloadEntity,
                ),
            ),
            forall|k: int, w: &World, b: Iter, a: Iter|
                0 <= k < old(observers)@.len()
                    ==> #[trigger] final(observers).effect(k, w, b, a) == old(observers).effect(k, w, b, a),
            forall|w: &World, b: Iter, a: Iter| #[trigger]
                final(observers).effect(old(observers)@.len() as int, w, b, a) ==> (b.count_spec() > 0
                    ==> exists|v: &mut EntityView, p: &mut Vec<u8>|
                    v.world == w && v.id.0 == b.field_src_spec(0) && *p == b.param && #[trigger] call_ensures(
                        func,
                        (v, p),
                        (),
                    )),
    {
        Self::observe_payload_entity_impl::<C, F>(world, observers, entity, func)
    }

    fn observe_payload_entity_impl<C: ComponentId, Func: for <'x, 'y, 'z> Fn(&'x mut EntityView<'y>,
        &'z mut Vec<u8>) + 'static>(
        world: &mut World,
        observers: &mut Observers,
        entity: u64,
        func: Func,
    ) -> (e: Entity)
        requires
            old(world).wf(),
            old(observers).wf(),
            old(world)@.entities.len() < MAX_ENTITIES,
            forall|v: &mut EntityView, p: &mut Vec<u8>| call_requires(func, (v, p)),
        ensures
            e.0 == entity,
            final(world).wf(),
            final(observers).wf(),
            final(world)@ == old(world)@.with_new(EntityState::child_of(entity)),
            final(observers)@ == old(observers)@.push(
                ObserverState::on_entity(
                    old(world)@.entities.len() as u64,
                    old(world)@.id_of(C::TYPE_KEY),
                    entity,
                    CallbackShape::PayloadEntity,
                ),
            ),
            forall|k: int, w: &World, b: Iter, a: Iter|
                0 <= k < old(observers)@.len()
                    ==> #[trigger] final(observers).effect(k, w, b, a) == old(observers).effect(k, w, b, a),
            forall|w: &World, b: Iter, a: Iter| #[trigger]
                final(observers).effect(old(observers)@.len() as int, w, b, a) ==> (b.count_spec() > 0
                    ==> exists|v: &mut EntityView, p: &mut Vec<u8>|
                    v.world == w && v.id.0 == b.field_src_spec(0) && *p == b.param && #[trigger] call_ensures(
                        func,
                        (v, p),
                        (),
                    )),
    {
        let mut binding_ctx = ObserverEntityBindingCtx::default();
        binding_ctx.payload_entity = Some(Action { run: Box::new(PayloadEntityCallback { func }) });
        let event: u64 = world.id_of::<C>();
        let _ = Self::entity_observer_create(world, observers, event, entity, binding_ctx,
            CallbackShape::PayloadEntity);
        Entity(entity)
    }
}

} // verus!
