//! Observers as the world keeps them, and the contexts that own their
//! callbacks.

use vstd::prelude::*;
use crate::callback::Action;
use crate::id::{ecs_id_match, ecs_is_wild};
use crate::iter::Iter;
use crate::table_iter::Batch;
use crate::state::{EventState, ObserverState};
use crate::term::{CallbackShape, Term};
use crate::world::World;

verus! {

/// The callbacks of an observer made by a builder: one slot for each shape
/// a builder can register. A slot owns its closure; dropping the context
/// drops every closure it holds, once.
pub struct ObserverBindingCtx {
    pub each: Option<Action>,
    pub entity_each: Option<Action>,
}

impl ObserverBindingCtx {
    /// A context from the given slots.
    pub fn new(each: Option<Action>, entity_each: Option<Action>) -> (ctx: Self)
        ensures
            ctx.each == each,
            ctx.entity_each == entity_each,
    {
        Self { each, entity_each }
    }
}

impl Default for ObserverBindingCtx {
    fn default() -> (ctx: Self)
        ensures
            ctx.each is None,
            ctx.entity_each is None,
    {
        Self { each: None, entity_each: None }
    }
}

/// The callbacks of an observer on a single entity: one slot for each of the
/// four shapes. A slot owns its closure; dropping the context drops every
/// closure it holds, once.
pub struct ObserverEntityBindingCtx {
    pub empty: Option<Action>,
    pub empty_entity: Option<Action>,
    pub payload: Option<Action>,
    pub payload_entity: Option<Action>,
}

impl Default for ObserverEntityBindingCtx {
    fn default() -> (ctx: Self)
        ensures
            ctx.empty is None,
            ctx.empty_entity is None,
            ctx.payload is None,
            ctx.payload_entity is None,
    {
        Self { empty: None, empty_entity: None, payload: None, payload_entity: None }
    }
}

/// The binding context of an observer, of either kind.
pub enum BindingCtx {
    Observer(ObserverBindingCtx),
    Entity(ObserverEntityBindingCtx),
}

impl BindingCtx {
    /// The slot that holds the closure of the given shape.
    pub open spec fn slot_spec(&self, shape: CallbackShape) -> Option<Action> {
        match (self, shape) {
            (BindingCtx::Observer(c), CallbackShape::Each) => c.each,
            (BindingCtx::Observer(c), CallbackShape::EachEntity) => c.entity_each,
            (BindingCtx::Entity(c), CallbackShape::Empty) => c.empty,
            (BindingCtx::Entity(c), CallbackShape::EmptyEntity) => c.empty_entity,
            (BindingCtx::Entity(c), CallbackShape::Payload) => c.payload,
            (BindingCtx::Entity(c), CallbackShape::PayloadEntity) => c.payload_entity,
            _ => None,
        }
    }

    /// The slot that holds the closure of the given shape.
    pub fn slot(&self, shape: CallbackShape) -> (r: Option<&Action>)
        ensures
            match r {
                Some(a) => self.slot_spec(shape) == Some(*a),
                None => self.slot_spec(shape) is None,
            },
    {
        match self {
            BindingCtx::Observer(c) => match shape {
                CallbackShape::Each => c.each.as_ref(),
                CallbackShape::EachEntity => c.entity_each.as_ref(),
                _ => None,
            },
            BindingCtx::Entity(c) => match shape {
                CallbackShape::Empty => c.empty.as_ref(),
                CallbackShape::EmptyEntity => c.empty_entity.as_ref(),
                CallbackShape::Payload => c.payload.as_ref(),
                CallbackShape::PayloadEntity => c.payload_entity.as_ref(),
                _ => None,
            },
        }
    }
}

/// An observer as the world keeps it.
pub(crate) struct ObserverRecord {
    pub(crate) entity: u64,
    pub(crate) events: Vec<u64>,
    pub(crate) terms: Vec<Term>,
    pub(crate) shape: CallbackShape,
    pub(crate) binding: BindingCtx,
    pub(crate) yield_existing: bool,
    pub(crate) ctx: u64,
}

impl ObserverRecord {
    /// Whether the closure of the observer's shape is in place and may run.
    pub(crate) closed spec fn ready(&self) -> bool {
        self.binding.slot_spec(self.shape) matches Some(a) && a.run.ready()
    }

    /// What a run of the observer's callback leaves.
    pub(crate) closed spec fn effect(&self, world: &World, before: Iter, after: Iter) -> bool {
        self.binding.slot_spec(self.shape) matches Some(a) && a.run.effect(world, before, after)
    }
}

impl View for ObserverRecord {
    type V = ObserverState;

    closed spec fn view(&self) -> ObserverState {
        ObserverState {
            entity: self.entity,
            events: self.events@,
            terms: self.terms@,
            shape: self.shape,
            ready: self.ready(),
            yield_existing: self.yield_existing,
            ctx: self.ctx,
        }
    }
}

impl ObserverRecord {
    /// The state of the record, field by field.
    pub(crate) proof fn view_fields(&self)
        ensures
            self@.entity == self.entity,
            self@.events == self.events@,
            self@.terms == self.terms@,
            self@.shape == self.shape,
            self@.ready == self.ready(),
            self@.yield_existing == self.yield_existing,
            self@.ctx == self.ctx,
    {
    }
}

impl ObserverRecord {
    /// Whether the observer listens to the event.
    pub(crate) fn listens(&self, event: u64) -> (r: bool)
        ensures
            r == self.events@.contains(event),
    {
        let mut k: usize = 0;
        while k < self.events.len()
            invariant
                k <= self.events.len(),
                forall|j: int| 0 <= j < k ==> self.events@[j] != event,
            decreases self.events.len() - k,
        {
            if self.events[k] == event {
                return true;
            }
            k += 1;
        }
        false
    }

    /// Whether an event about `id` on `entity` concerns one of the terms.
    pub(crate) fn concerned(&self, entity: u64, id: u64) -> (r: bool)
        ensures
            r == exists|k: int|
                0 <= k < self.terms@.len() && crate::state::WorldState::term_triggers(
                    #[trigger] self.terms@[k],
                    entity,
                    id,
                ),
    {
        let mut k: usize = 0;
        while k < self.terms.len()
            invariant
                k <= self.terms.len(),
                forall|j: int|
                    0 <= j < k ==> !crate::state::WorldState::term_triggers(#[trigger] self.terms@[j],
                        entity, id),
            decreases self.terms.len() - k,
        {
            let t = self.terms[k];
            let subject: u64 = if t.source == 0 {
                entity
            } else {
                t.source
            };
            if subject == entity && (ecs_is_wild(t.id) || ecs_id_match(id, t.id)) {
                return true;
            }
            k += 1;
        }
        false
    }

    /// Whether the observer is to be told of an event about `id` on
    /// `entity`.
    pub(crate) fn matches(&self, world: &World, event: u64, entity: u64, id: u64) -> (r: bool)
        ensures
            r == world@.observer_matches(self@, event, entity, id),
    {
        proof {
            self.view_fields();
        }
        self.listens(event) && self.concerned(entity, id) && world.terms_hold(&self.terms, entity)
    }
}

/// The observers of a world, in the order they were created. The store owns
/// the callbacks: an observer that is destroyed, or a store that is dropped,
/// drops the closures it holds, each once.
pub struct Observers {
    pub(crate) records: Vec<ObserverRecord>,
    pub(crate) queue: Vec<QueuedEvent>,
}

/// An event that waits in the queue.
pub(crate) struct QueuedEvent {
    pub(crate) event: u64,
    pub(crate) entity: u64,
    pub(crate) id: u64,
    pub(crate) param: Vec<u8>,
}

impl View for QueuedEvent {
    type V = EventState;

    closed spec fn view(&self) -> EventState {
        EventState { event: self.event, entity: self.entity, id: self.id, param: self.param@ }
    }
}

impl View for Observers {
    type V = Seq<ObserverState>;

    closed spec fn view(&self) -> Seq<ObserverState> {
        self.records@.map_values(|o: ObserverRecord| o@)
    }
}

impl Observers {
    /// The store is well formed when the callback of every observer is in
    /// place and may be run.
    pub open spec fn wf(&self) -> bool {
        forall|k: int| 0 <= k < self@.len() ==> (#[trigger] self@[k]).ready
    }

    /// The events that wait to be delivered, oldest first.
    pub closed spec fn queued(&self) -> Seq<EventState> {
        self.queue@.map_values(|q: QueuedEvent| q@)
    }

    /// What a run of the callback of observer number `k` leaves.
    pub closed spec fn effect(&self, k: int, world: &World, before: Iter, after: Iter) -> bool {
        0 <= k < self.records@.len() && self.records@[k].effect(world, before, after)
    }

    /// Whether `before` is the iterator that an observer is run on for an
    /// event about `id` on `entity`: one batch with the entity as its only
    /// row and what the observer's terms read on it, not yet current for a
    /// callback that walks rows, current for every other shape.
    pub open spec fn receives(
        o: ObserverState,
        world: &World,
        event: u64,
        entity: u64,
        id: u64,
        before: Iter,
    ) -> bool {
        &&& before.event == event
        &&& before.event_id == id
        &&& before.batches@.len() == 1
        &&& before.batches@[0].reads(world@, o.terms, seq![entity])
        &&& before.cursor == (if o.shape == CallbackShape::Each || o.shape == CallbackShape::EachEntity {
            0usize
        } else {
            1usize
        })
        &&& before.locked@.len() == 0
    }

    /// The state of the store, record by record.
    pub(crate) proof fn view_records(&self)
        ensures
            self@.len() == self.records@.len(),
            self@.len() == self.records.len(),
            forall|k: int| 0 <= k < self.records@.len() ==> #[trigger] self@[k] == self.records@[k]@,
    {
    }

    /// A store without observers.
    pub fn new() -> (o: Observers)
        ensures
            o.wf(),
            o@.len() == 0,
            o.queued().len() == 0,
    {
        Observers { records: Vec::new(), queue: Vec::new() }
    }

    /// Number of events that wait to be delivered.
    pub fn pending(&self) -> (n: usize)
        ensures
            n == self.queued().len(),
    {
        self.queue.len()
    }

    /// Whether every observer that matches an event has been run for it: on
    /// the iterator that stands for the event, the first of them with the
    /// payload as given.
    pub open spec fn delivered(&self, world: &World, event: u64, entity: u64, id: u64,
        param: Seq<u8>) -> bool {
        forall|k: int|
            0 <= k < self@.len() && world@.observer_matches(#[trigger] self@[k], event, entity, id)
                ==> exists|before: Iter, after: Iter|
                Self::receives(self@[k], world, event, entity, id, before) && #[trigger] self.effect(
                    k,
                    world,
                    before,
                    after,
                ) && ((forall|j: int|
                    0 <= j < k ==> !world@.observer_matches(#[trigger] self@[j], event, entity, id))
                    ==> before.param@ == param)
    }

    /// Whether the observers were told of what a structural change brings
    /// that is made on the world `w`: of the addition where an id is added,
    /// on the world that holds the id; of the value that was set, on the
    /// world that holds the value; of the removal, on the world that still
    /// holds the id. Of a change that the world does not take there is
    /// nothing to tell.
    pub open spec fn told_of(&self, w: crate::state::WorldState, c: crate::state::CommandState) -> bool {
        match c {
            crate::state::CommandState::AddId { entity, id } => w.can_add(entity, id) ==> exists|mid: &World|
                mid@ == w.added(entity, id) && #[trigger] self.delivered(
                    mid,
                    crate::id::ECS_ON_ADD,
                    entity,
                    id,
                    Seq::empty(),
                ),
            crate::state::CommandState::SetValue { entity, id, value } => w.can_set(entity, id, value) ==> {
                &&& !w.entity(entity).owns(id) ==> exists|mid: &World|
                    mid@ == w.added(entity, id) && #[trigger] self.delivered(
                        mid,
                        crate::id::ECS_ON_ADD,
                        entity,
                        id,
                        Seq::empty(),
                    )
                &&& exists|mid: &World|
                    mid@ == w.set(entity, id, value) && #[trigger] self.delivered(
                        mid,
                        crate::id::ECS_ON_SET,
                        entity,
                        id,
                        Seq::empty(),
                    )
            },
            crate::state::CommandState::RemoveId { entity, id } => w.entity(entity).owns(id) ==> exists|
                mid: &World,
            |
                mid@ == w && #[trigger] self.delivered(mid, crate::id::ECS_ON_REMOVE, entity, id, Seq::empty()),
        }
    }

    /// Puts an event at the end of the queue.
    pub fn push_event(&mut self, event: u64, entity: u64, id: u64, param: Vec<u8>)
        ensures
            final(self)@ == old(self)@,
            final(self).wf() == old(self).wf(),
            final(self).queued() == old(self).queued().push(EventState { event, entity, id, param: param@ }),
            forall|k: int, w: &World, b: Iter, a: Iter| #[trigger]
                final(self).effect(k, w, b, a) == old(self).effect(k, w, b, a),
    {
        self.queue.push(QueuedEvent { event, entity, id, param });
        assert(self.queued() =~= old(self).queued().push(EventState { event, entity, id, param: param@ }));
    }

    /// Delivers the events that wait, oldest first, and empties the queue.
    pub fn flush(&mut self, world: &World)
        requires
            old(self).wf(),
        ensures
            final(self).wf(),
            final(self)@ == old(self)@,
            final(self).queued().len() == 0,
            forall|k: int, w: &World, b: Iter, a: Iter| #[trigger]
                final(self).effect(k, w, b, a) == old(self).effect(k, w, b, a),
            forall|q: int|
                0 <= q < old(self).queued().len() ==> final(self).delivered(
                    world,
                    (#[trigger] old(self).queued()[q]).event,
                    old(self).queued()[q].entity,
                    old(self).queued()[q].id,
                    old(self).queued()[q].param,
                ),
    {
        let mut pending: Vec<QueuedEvent> = Vec::new();
        core::mem::swap(&mut self.queue, &mut pending);
        assert(self.queued() =~= Seq::empty());
        let ghost waiting = old(self).queued();
        let mut q: usize = 0;
        while q < pending.len()
            invariant
                q <= pending.len(),
                self.wf(),
                self@ == old(self)@,
                self.queued().len() == 0,
                waiting == pending@.map_values(|e: QueuedEvent| e@),
                forall|k: int, w: &World, b: Iter, a: Iter| #[trigger]
                    self.effect(k, w, b, a) == old(self).effect(k, w, b, a),
                forall|j: int|
                    0 <= j < q ==> self.delivered(
                        world,
                        (#[trigger] waiting[j]).event,
                        waiting[j].entity,
                        waiting[j].id,
                        waiting[j].param,
                    ),
            decreases pending.len() - q,
        {
            let e = &pending[q];
            assert(waiting[q as int] == e@);
            let param = crate::text::bytes_to_vec(e.param.as_slice());
            self.notify(world, e.event, e.entity, e.id, param);
            q += 1;
        }
    }


    /// Number of observers.
    pub fn count(&self) -> (n: usize)
        ensures
            n == self@.len(),
    {
        self.records.len()
    }

    /// Adds an observer: the entity that stands for it, the events it
    /// listens to, its terms, the context that owns its callback, and what
    /// else it was described with. The closure of the given shape must be
    /// in its slot and ready to run.
    pub fn add(
        &mut self,
        entity: u64,
        events: Vec<u64>,
        terms: Vec<Term>,
        shape: CallbackShape,
        binding: BindingCtx,
        yield_existing: bool,
        ctx: u64,
    )
        requires
            old(self).wf(),
            binding.slot_spec(shape) matches Some(a) && a.run.ready(),
        ensures
            final(self).wf(),
            final(self)@ == old(self)@.push(
                ObserverState { entity, events: events@, terms: terms@, shape, ready: true, yield_existing,
                    ctx },
            ),
            forall|k: int, w: &World, b: Iter, a: Iter|
                0 <= k < old(self)@.len() ==> #[trigger] final(self).effect(k, w, b, a) == old(self).effect(
                    k,
                    w,
                    b,
                    a,
                ),
            forall|w: &World, b: Iter, a: Iter| #[trigger]
                final(self).effect(old(self)@.len() as int, w, b, a) == (binding.slot_spec(
                    shape,
                ) matches Some(act) && act.run.effect(w, b, a)),
    {
        proof {
            self.view_records();
        }
        let rec = ObserverRecord { entity, events, terms, shape, binding, yield_existing, ctx };
        proof {
            rec.view_fields();
        }
        self.records.push(rec);
        proof {
            self.view_records();
            assert(self@ =~= old(self)@.push(
                ObserverState { entity, events: events@, terms: terms@, shape, ready: true, yield_existing,
                    ctx },
            ));
        }
    }

    /// Position of the observer that the entity stands for.
    pub fn find(&self, observer: u64) -> (r: Option<usize>)
        ensures
            match r {
                Some(k) => k < self@.len() && self@[k as int].entity == observer && forall|j: int|
                    0 <= j < k ==> (#[trigger] self@[j]).entity != observer,
                None => forall|j: int| 0 <= j < self@.len() ==> (#[trigger] self@[j]).entity != observer,
            },
    {
        proof {
            self.view_records();
        }
        let mut k: usize = 0;
        while k < self.records.len()
            invariant
                k <= self.records.len(),
                self@.len() == self.records.len(),
                forall|j: int| 0 <= j < self.records@.len() ==> #[trigger] self@[j] == self.records@[j]@,
                forall|j: int| 0 <= j < k ==> (#[trigger] self@[j]).entity != observer,
            decreases self.records.len() - k,
        {
            proof {
                self.records@[k as int].view_fields();
            }
            if self.records[k].entity == observer {
                return Some(k);
            }
            k += 1;
        }
        None
    }

    /// Destroys the observer that the entity stands for, and with it the
    /// closure it owns. Says whether there was one.
    pub fn destroy(&mut self, observer: u64) -> (r: bool)
        requires
            old(self).wf(),
        ensures
            final(self).wf(),
            r == exists|k: int| 0 <= k < old(self)@.len() && (#[trigger] old(self)@[k]).entity == observer,
            !r ==> final(self)@ == old(self)@,
            r ==> exists|k: int|
                0 <= k < old(self)@.len() && (#[trigger] old(self)@[k]).entity == observer && (forall|j: int|
                    0 <= j < k ==> (#[trigger] old(self)@[j]).entity != observer)
                        && final(self)@ == old(self)@.remove(k),
    {
        match self.find(observer) {
            None => false,
            Some(k) => {
                proof {
                    self.view_records();
                }
                let _ = self.records.remove(k);
                proof {
                    self.view_records();
                    assert(self@ =~= old(self)@.remove(k as int));
                }
                true
            },
        }
    }

    /// The positions of the observers that are to be told of an event about
    /// `id` on `entity`, in the order the observers were created.
    pub fn matching(&self, world: &World, event: u64, entity: u64, id: u64) -> (out: Vec<usize>)
        ensures
            out@.len() == world@.told(self@, event, entity, id, self@.len() as int).len(),
            forall|j: int|
                0 <= j < out@.len() ==> (#[trigger] out@[j]) as int == world@.told(
                    self@,
                    event,
                    entity,
                    id,
                    self@.len() as int,
                )[j],
    {
        let mut out: Vec<usize> = Vec::new();
        let mut k: usize = 0;
        proof {
            self.view_records();
        }
        while k < self.records.len()
            invariant
                k <= self.records.len(),
                self@.len() == self.records.len(),
                forall|j: int| 0 <= j < self.records@.len() ==> #[trigger] self@[j] == self.records@[j]@,
                out@.len() == world@.told(self@, event, entity, id, k as int).len(),
                forall|j: int|
                    0 <= j < out@.len() ==> (#[trigger] out@[j]) as int == world@.told(
                        self@,
                        event,
                        entity,
                        id,
                        k as int,
                    )[j],
            decreases self.records.len() - k,
        {
            assert(self@[k as int] == self.records@[k as int]@);
            if self.records[k].matches(world, event, entity, id) {
                out.push(k);
            }
            k += 1;
        }
        out
    }

    /// Tells every observer that matches of an event about `id` on
    /// `entity`, in the order the observers were created. Each is run on an
    /// iterator over the entity and what the observer's terms read on it;
    /// each sees the payload as the one before left it.
    pub fn notify(&self, world: &World, event: u64, entity: u64, id: u64, param: Vec<u8>)
        requires
            self.wf(),
        ensures
            self.delivered(world, event, entity, id, param@),
    {
        let ghost given = param@;
        let mut param = param;
        let mut k: usize = 0;
        proof {
            self.view_records();
        }
        while k < self.records.len()
            invariant
                k <= self.records.len(),
                self.wf(),
                self@.len() == self.records.len(),
                forall|j: int| 0 <= j < self.records@.len() ==> #[trigger] self@[j] == self.records@[j]@,
                (forall|j: int| 0 <= j < k
                    ==> !world@.observer_matches(#[trigger] self@[j], event, entity, id))
                    ==> param@ == given,
                forall|j: int|
                    0 <= j < k && world@.observer_matches(#[trigger] self@[j], event, entity, id) ==> exists|
                        before: Iter,
                        after: Iter,
                    |
                        Self::receives(self@[j], world, event, entity, id, before) && #[trigger] self.effect(
                            j,
                            world,
                            before,
                            after,
                        ) && ((forall|i: int|
                            0 <= i < j ==> !world@.observer_matches(#[trigger] self@[i], event, entity, id))
                            ==> before.param@ == given),
            decreases self.records.len() - k,
        {
            let rec = &self.records[k];
            proof {
                rec.view_fields();
                assert(self@[k as int] == rec@);
                assert(self@[k as int].ready);
            }
            if rec.matches(world, event, entity, id) {
                let mut rows: Vec<u64> = Vec::new();
                rows.push(entity);
                assert(rows@ =~= seq![entity]);
                let batch: Batch = world.gather(&rec.terms, rows);
                let mut batches: Vec<Batch> = Vec::new();
                batches.push(batch);
                let mut it = Iter::new(event, id, param, batches);
                match rec.shape {
                    CallbackShape::Each => {},
                    CallbackShape::EachEntity => {},
                    _ => {
                        let _ = it.next();
                    },
                }
                let ghost before = it;
                match rec.binding.slot(rec.shape) {
                    Some(action) => {
                        action.run.run(world, &mut it);
                        proof {
                            assert(Self::receives(self@[k as int], world, event, entity, id, before));
                            assert(self.effect(k as int, world, before, it));
                            assert((forall|i: int|
                                0 <= i < k ==> !world@.observer_matches(#[trigger] self@[i], event, entity,
                                    id))
                                ==> before.param@ == given);
                        }
                    },
                    None => {},
                }
                param = it.param;
            }
            k += 1;
        }
    }
}

} // verus!
