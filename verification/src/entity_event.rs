//! Events on single entities: emitting them now, or queueing them for later.

use vstd::prelude::*;
use crate::component::ComponentId;
use crate::entity_view::EntityView;
use crate::id::ECS_ANY;
use crate::iter::Iter;
use crate::observer::Observers;
use crate::state::EventState;
use crate::world::World;

verus! {

impl<'a> EntityView<'a> {
    /// Emits the event for this entity: every observer that matches is run,
    /// in the order the observers were created.
    pub fn emit_id(self, observers: &Observers, event: u64)
        requires
            observers.wf(),
        ensures
            observers.delivered(self.world, event, self.id.0, ECS_ANY, Seq::empty()),
    {
        observers.notify(self.world, event, self.id.0, ECS_ANY, Vec::new());
    }

    /// Emits the event `T`, which carries no payload, for this entity.
    pub fn emit<T: ComponentId>(self, observers: &Observers)
        requires
            observers.wf(),
        ensures
            observers.delivered(self.world, self.world@.id_of(T::TYPE_KEY), self.id.0, ECS_ANY, Seq::empty()),
    {
        self.emit_id(observers, self.world.id_of::<T>());
    }

    /// Emits the event `T` for this entity with a payload that observers
    /// are meant to read.
    pub fn emit_const_payload<T: ComponentId>(self, observers: &Observers, payload: Vec<u8>)
        requires
            observers.wf(),
        ensures
            observers.delivered(self.world, self.world@.id_of(T::TYPE_KEY), self.id.0, ECS_ANY, payload@),
    {
        observers.notify(self.world, self.world.id_of::<T>(), self.id.0, ECS_ANY, payload);
    }

    /// Emits the event `T` for this entity with a payload that observers may
    /// change for those that come after them.
    pub fn emit_payload<T: ComponentId>(self, observers: &Observers, payload: Vec<u8>)
        requires
            observers.wf(),
        ensures
            observers.delivered(self.world, self.world@.id_of(T::TYPE_KEY), self.id.0, ECS_ANY, payload@),
    {
        observers.notify(self.world, self.world.id_of::<T>(), self.id.0, ECS_ANY, payload);
    }

    /// Queues the event for this entity while the world is read-only, to be
    /// delivered when the queue is flushed; emits it at once otherwise.
    pub fn enqueue_id(self, observers: &mut Observers, event: u64)
        requires
            old(observers).wf(),
        ensures
            final(observers).wf(),
            final(observers)@ == old(observers)@,
            forall|k: int, w: &World, b: Iter, a: Iter| #[trigger]
                final(observers).effect(k, w, b, a) == old(observers).effect(k, w, b, a),
            self.world@.readonly ==> final(observers).queued() == old(observers).queued().push(
                EventState { event, entity: self.id.0, id: ECS_ANY, param: Seq::empty() },
            ),
            !self.world@.readonly ==> final(observers).queued() == old(observers).queued()
                && final(observers).delivered(self.world, event, self.id.0, ECS_ANY, Seq::empty()),
    {
        self.enqueue_with(observers, event, Vec::new());
    }

    /// Queues or emits the event `T`, which carries no payload.
    pub fn enqueue<T: ComponentId>(self, observers: &mut Observers)
        requires
            old(observers).wf(),
        ensures
            final(observers).wf(),
            final(observers)@ == old(observers)@,
            forall|k: int, w: &World, b: Iter, a: Iter| #[trigger]
                final(observers).effect(k, w, b, a) == old(observers).effect(k, w, b, a),
            self.world@.readonly ==> final(observers).queued() == old(observers).queued().push(
                EventState {
                    event: self.world@.id_of(T::TYPE_KEY),
                    entity: self.id.0,
                    id: ECS_ANY,
                    param: Seq::empty(),
                },
            ),
            !self.world@.readonly ==> final(observers).queued() == old(observers).queued()
                && final(observers).delivered(self.world, self.world@.id_of(T::TYPE_KEY), self.id.0, ECS_ANY,
                Seq::empty()),
    {
        self.enqueue_with(observers, self.world.id_of::<T>(), Vec::new());
    }

    /// Queues or emits the event `T` with a payload that observers are
    /// meant to read.
    pub fn enqueue_const_payload<T: ComponentId>(self, observers: &mut Observers, payload: Vec<u8>)
        requires
            old(observers).wf(),
        ensures
            final(observers).wf(),
            final(observers)@ == old(observers)@,
            forall|k: int, w: &World, b: Iter, a: Iter| #[trigger]
                final(observers).effect(k, w, b, a) == old(observers).effect(k, w, b, a),
            self.world@.readonly ==> final(observers).queued() == old(observers).queued().push(
                EventState {
                    event: self.world@.id_of(T::TYPE_KEY),
                    entity: self.id.0,
                    id: ECS_ANY,
                    param: payload@,
                },
            ),
            !self.world@.readonly ==> final(observers).queued() == old(observers).queued()
                && final(observers).delivered(self.world, self.world@.id_of(T::TYPE_KEY), self.id.0, ECS_ANY,
                payload@),
    {
        self.enqueue_with(observers, self.world.id_of::<T>(), payload);
    }

    /// Queues or emits the event `T` with a payload that observers may
    /// change for those that come after them.
    pub fn enqueue_payload<T: ComponentId>(self, observers: &mut Observers, payload: Vec<u8>)
        requires
            old(observers).wf(),
        ensures
            final(observers).wf(),
            final(observers)@ == old(observers)@,
            forall|k: int, w: &World, b: Iter, a: Iter| #[trigger]
                final(observers).effect(k, w, b, a) == old(observers).effect(k, w, b, a),
            self.world@.readonly ==> final(observers).queued() == old(observers).queued().push(
                EventState {
                    event: self.world@.id_of(T::TYPE_KEY),
                    entity: self.id.0,
                    id: ECS_ANY,
                    param: payload@,
                },
            ),
            !self.world@.readonly ==> final(observers).queued() == old(observers).queued()
                && final(observers).delivered(self.world, self.world@.id_of(T::TYPE_KEY), self.id.0, ECS_ANY,
                payload@),
    {
        self.enqueue_with(observers, self.world.id_of::<T>(), payload);
    }

    /// Queues the event while the world is read-only; emits it otherwise.
    fn enqueue_with(self, observers: &mut Observers, event: u64, payload: Vec<u8>)
        requires
            old(observers).wf(),
        ensures
            final(observers).wf(),
            final(observers)@ == old(observers)@,
            forall|k: int, w: &World, b: Iter, a: Iter| #[trigger]
                final(observers).effect(k, w, b, a) == old(observers).effect(k, w, b, a),
            self.world@.readonly ==> final(observers).queued() == old(observers).queued().push(
                EventState { event, entity: self.id.0, id: ECS_ANY, param: payload@ },
            ),
            !self.world@.readonly ==> final(observers).queued() == old(observers).queued()
                && final(observers).delivered(self.world, event, self.id.0, ECS_ANY, payload@),
    {
        if self.world.is_readonly() {
            observers.push_event(event, self.id.0, ECS_ANY, payload);
        } else {
            observers.notify(self.world, event, self.id.0, ECS_ANY, payload);
        }
    }
}

} // verus!
