//! Building observers, and the function that runs their row callbacks.

use vstd::prelude::*;
use crate::callback::{Action, EachCallback, EachEntityCallback, IterAction};
use crate::component::ComponentId;
use crate::entity_view::EntityView;
use crate::filter_builder::{FilterBuilder, Iterable};
use crate::iter::Iter;
use crate::observer::{BindingCtx, ObserverBindingCtx, Observers};
use crate::state::{EntityState, ObserverState, MAX_ENTITIES};
use crate::table_iter::Row;
use crate::term::{CallbackShape, Term};
use crate::world::World;

verus! {

/// Largest number of events that one observer listens to.
pub const OBSERVER_EVENT_COUNT_MAX: usize = 8;

/// Why an observer could not be built.
#[derive(Clone, Copy, Debug, PartialEq, Eq, Structural)]
pub enum BuildError {
    /// More events were added than an observer can listen to.
    TooManyEvents,
    /// No term was added.
    NoTerms,
    /// No callback was registered.
    NoCallback,
    /// The world has no room for the observer's entity.
    WorldFull,
}

/// What an observer is created from: the events it listens to, in the
/// order they were added, and the context that owns its callback.
pub struct ObserverDesc {
    pub events: Vec<u64>,
    pub yield_existing: bool,
    pub ctx: u64,
    pub binding_ctx: Option<ObserverBindingCtx>,
    pub run: Option<CallbackShape>,
}

/// Builds an observer whose terms the type `T` stands for. Terms and events
/// are added in order; `build` consumes the builder, so that nothing can be
/// added to an observer once it is built.
pub struct ObserverBuilder<T> {
    pub filter_builder: FilterBuilder,
    pub desc: ObserverDesc,
    pub event_count: usize,
    pub name: Vec<u8>,
    pub phantom: core::marker::PhantomData<T>,
}

impl<T> core::ops::Deref for ObserverBuilder<T> {
    type Target = FilterBuilder;

    fn deref(&self) -> (f: &FilterBuilder)
        ensures
            *f == self.filter_builder,
    {
        &self.filter_builder
    }
}

/// The operations on the description of an observer that every builder of
/// observers offers.
pub trait ObserverBuilderImpl {
    /// The events added so far.
    spec fn events(&self) -> Seq<u64>;

    /// Number of events added so far.
    fn get_event_count(&self) -> (n: usize)
        ensures
            n == self.events().len(),
    ;

    /// Adds an event to listen to. More events can be added than an
    /// observer can listen to; the observer is then refused when it is
    /// built.
    fn add_event(&mut self, event: u64)
        ensures
            final(self).events() == old(self).events().push(event),
    ;

    /// Adds the event that the component `E` stands for.
    fn add_event_of_type<E: ComponentId>(&mut self, world: &World)
        ensures
            final(self).events() == old(self).events().push(world@.id_of(E::TYPE_KEY)),
    ;

    /// Records whether the observer asks to be told of what matches already
    /// when it is created. The flag is kept with the observer.
    fn yield_existing(&mut self, should_yield: bool)
        ensures
            final(self).events() == old(self).events(),
    ;

    /// Sets the context value of the observer.
    fn set_context(&mut self, context: u64)
        ensures
            final(self).events() == old(self).events(),
    ;

    /// Sets which kind of function runs the callback.
    fn set_run_callback(&mut self, callback: CallbackShape)
        ensures
            final(self).events() == old(self).events(),
    ;
}

impl<T> ObserverBuilderImpl for ObserverBuilder<T> {
    open spec fn events(&self) -> Seq<u64> {
        self.desc.events@
    }

    fn get_event_count(&self) -> (n: usize) {
        self.desc.events.len()
    }

    fn add_event(&mut self, event: u64)
        ensures
            final(self).filter_builder == old(self).filter_builder,
            final(self).desc.binding_ctx == old(self).desc.binding_ctx,
            final(self).desc.run == old(self).desc.run,
            final(self).name == old(self).name,
            final(self).event_count == final(self).desc.events@.len(),
    {
        self.desc.events.push(event);
        self.event_count = self.desc.events.len();
    }

    fn add_event_of_type<E: ComponentId>(&mut self, world: &World)
        ensures
            final(self).filter_builder == old(self).filter_builder,
            final(self).desc.binding_ctx == old(self).desc.binding_ctx,
            final(self).desc.run == old(self).desc.run,
            final(self).name == old(self).name,
            final(self).event_count == final(self).desc.events@.len(),
    {
        let id: u64 = world.id_of::<E>();
        self.desc.events.push(id);
        self.event_count = self.desc.events.len();
    }

    fn yield_existing(&mut self, should_yield: bool)
        ensures
            final(self).desc.yield_existing == should_yield,
            final(self).filter_builder == old(self).filter_builder,
            final(self).desc.binding_ctx == old(self).desc.binding_ctx,
            final(self).desc.run == old(self).desc.run,
            final(self).name == old(self).name,
            final(self).event_count == old(self).event_count,
    {
        self.desc.yield_existing = should_yield;
    }

    fn set_context(&mut self, context: u64)
        ensures
            final(self).desc.ctx == context,
            final(self).filter_builder == old(self).filter_builder,
            final(self).desc.binding_ctx == old(self).desc.binding_ctx,
            final(self).desc.run == old(self).desc.run,
            final(self).name == old(self).name,
            final(self).event_count == old(self).event_count,
    {
        self.desc.ctx = context;
    }

    fn set_run_callback(&mut self, callback: CallbackShape)
        ensures
            final(self).desc.run == Some(callback),
            final(self).filter_builder == old(self).filter_builder,
            final(self).desc.binding_ctx == old(self).desc.binding_ctx,
            final(self).name == old(self).name,
            final(self).event_count == old(self).event_count,
    {
        self.desc.run = Some(callback);
    }
}

impl<T: Iterable> ObserverBuilder<T> {
    /// The builder is well formed when the callback it holds, if any, may
    /// be run.
    pub open spec fn wf(&self) -> bool {
        self.desc.binding_ctx matches Some(ctx) ==> (ctx.each matches Some(a) ==> a.run.ready()) && (
        ctx.entity_each matches Some(a) ==> a.run.ready())
    }

    /// The slot that holds the callback that was registered last.
    pub open spec fn callback(&self) -> Option<Action> {
        match (self.desc.binding_ctx, self.desc.run) {
            (Some(ctx), Some(shape)) => BindingCtx::Observer(ctx).slot_spec(shape),
            _ => None,
        }
    }

    /// What a run of the registered callback leaves.
    pub open spec fn callback_effect(&self, world: &World, before: Iter, after: Iter) -> bool {
        self.callback() matches Some(act) && act.run.effect(world, before, after)
    }

    /// Whether a callback was registered.
    pub open spec fn has_callback(&self) -> bool {
        self.callback() is Some
    }

    /// A builder of an observer with the terms that `T` stands for in the
    /// world, and no events yet.
    pub fn new(world: &World) -> (b: Self)
        ensures
            b.wf(),
            b.filter_builder.terms@ == T::terms(world@),
            b.desc.events@.len() == 0,
            b.desc.binding_ctx is None,
            b.name@.len() == 0,
    {
        let desc = ObserverDesc {
            events: Vec::new(),
            yield_existing: false,
            ctx: 0,
            binding_ctx: None,
            run: None,
        };
        let mut obj = Self {
            desc,
            filter_builder: FilterBuilder::new_with_desc(Vec::new(), 0),
            event_count: 0,
            name: Vec::new(),
            phantom: core::marker::PhantomData,
        };
        T::populate(world, &mut obj.filter_builder);
        assert(obj.filter_builder.terms@ =~= T::terms(world@));
        obj
    }

    /// A builder of an observer that will carry the given name.
    pub fn new_named(world: &World, name: &[u8]) -> (b: Self)
        ensures
            b.wf(),
            b.filter_builder.terms@ == T::terms(world@),
            b.desc.events@.len() == 0,
            b.desc.binding_ctx is None,
            b.name@ == name@,
    {
        let mut obj = Self {
            desc: ObserverDesc { events: Vec::new(), yield_existing: false, ctx: 0, binding_ctx: None,
                run: None },
            filter_builder: FilterBuilder::new(),
            event_count: 0,
            name: crate::text::bytes_to_vec(name),
            phantom: core::marker::PhantomData,
        };
        T::populate(world, &mut obj.filter_builder);
        assert(obj.filter_builder.terms@ =~= T::terms(world@));
        obj
    }

    /// Appends a term that only constrains matching on the component `C`:
    /// its value is not handed to the callback.
    pub fn with<C: ComponentId>(&mut self, world: &World)
        ensures
            final(self).filter_builder.terms@ == old(self).filter_builder.terms@.push(
                Term { id: world@.id_of(C::TYPE_KEY), source: 0, access: crate::term::Access::Filter },
            ),
            final(self).desc == old(self).desc,
            final(self).name == old(self).name,
            final(self).event_count == old(self).event_count,
    {
        self.filter_builder.with::<C>(world);
    }

    /// The context that owns the callbacks, created on first use.
    fn get_binding_ctx(&mut self) -> (ctx: &mut ObserverBindingCtx)
        ensures
            old(self).desc.binding_ctx matches Some(c) ==> *ctx == c,
            old(self).desc.binding_ctx is None ==> ctx.each is None && ctx.entity_each is None,
            final(self).desc.binding_ctx == Some(*final(ctx)),
            final(self).desc.events == old(self).desc.events,
            final(self).desc.yield_existing == old(self).desc.yield_existing,
            final(self).desc.ctx == old(self).desc.ctx,
            final(self).desc.run == old(self).desc.run,
            final(self).filter_builder == old(self).filter_builder,
            final(self).name == old(self).name,
            final(self).event_count == old(self).event_count,
    {
        if self.desc.binding_ctx.is_none() {
            self.desc.binding_ctx = Some(ObserverBindingCtx::default());
        }
        match &mut self.desc.binding_ctx {
            Some(ctx) => ctx,
            None => vstd::pervasive::unreached(),
        }
    }

    /// Registers the closure that is called with the values of each row.
    /// A closure registered before is dropped.
    pub fn on_each<F: for <'x> Fn(&'x mut Row) + 'static>(&mut self, func: F)
        requires
            old(self).wf(),
            forall|r: &mut Row| call_requires(func, (r,)),
        ensures
            final(self).wf(),
            final(self).has_callback(),
            final(self).desc.run == Some(CallbackShape::Each),
            final(self).desc.events == old(self).desc.events,
            final(self).filter_builder == old(self).filter_builder,
            final(self).name == old(self).name,
            final(self).event_count == old(self).event_count,
            forall|w: &World, b: Iter, a: Iter| #[trigger]
                final(self).callback_effect(w, b, a) ==> (EachCallback { func }).effect(w, b, a),
    {
        let binding_ctx = self.get_binding_ctx();
        binding_ctx.each = Some(Action { run: Box::new(EachCallback { func }) });
        self.desc.run = Some(CallbackShape::Each);
    }

    /// Registers the closure that is called with the entity and the values
    /// of each row. A closure of this shape registered before is dropped.
    pub fn on_each_entity<F: for <'x, 'y, 'z> Fn(&'x mut EntityView<'y>, &'z mut Row) + 'static>(
        &mut self,
        func: F,
    )
        requires
            old(self).wf(),
            forall|e: &mut EntityView, r: &mut Row| call_requires(func, (e, r)),
        ensures
            final(self).wf(),
            final(self).has_callback(),
            final(self).desc.run == Some(CallbackShape::EachEntity),
            final(self).desc.events == old(self).desc.events,
            final(self).filter_builder == old(self).filter_builder,
            final(self).name == old(self).name,
            final(self).event_count == old(self).event_count,
            forall|w: &World, b: Iter, a: Iter| #[trigger]
                final(self).callback_effect(w, b, a) ==> (EachEntityCallback { func }).effect(w, b, a),
    {
        let binding_ctx = self.get_binding_ctx();
        binding_ctx.entity_each = Some(Action { run: Box::new(EachEntityCallback { func }) });
        self.desc.run = Some(CallbackShape::EachEntity);
    }

    /// Creates the observer in the world. The builder is used up. An
    /// observer with more events than it can listen to, without terms, or
    /// without a callback is refused, and so is one that the world has no
    /// room for; nothing changes then.
    pub fn build(self, world: &mut World, observers: &mut Observers) -> (r: Result<u64, BuildError>)
        requires
            self.wf(),
            old(world).wf(),
            old(observers).wf(),
        ensures
            final(world).wf(),
            final(observers).wf(),
            r == Err::<u64, BuildError>(BuildError::TooManyEvents) <==> self.desc.events@.len()
                > OBSERVER_EVENT_COUNT_MAX,
            r == Err::<u64, BuildError>(BuildError::NoTerms) <==> self.desc.events@.len()
                <= OBSERVER_EVENT_COUNT_MAX && self.filter_builder.terms@.len() == 0,
            r == Err::<u64, BuildError>(BuildError::NoCallback) <==> self.desc.events@.len()
                <= OBSERVER_EVENT_COUNT_MAX && self.filter_builder.terms@.len() > 0 && !self.has_callback(),
            r == Err::<u64, BuildError>(BuildError::WorldFull) <==> self.desc.events@.len()
                <= OBSERVER_EVENT_COUNT_MAX && self.filter_builder.terms@.len() > 0 && self.has_callback()
                && old(world)@.entities.len() >= MAX_ENTITIES,
            r is Ok <==> self.desc.events@.len() <= OBSERVER_EVENT_COUNT_MAX
                && self.filter_builder.terms@.len()
                > 0 && self.has_callback() && old(world)@.entities.len() < MAX_ENTITIES,
            r is Err ==> final(world)@ == old(world)@ && final(observers)@ == old(observers)@,
            r is Err ==> forall|k: int, w: &World, b: Iter, a: Iter| #[trigger]
                final(observers).effect(k, w, b, a) == old(observers).effect(k, w, b, a),
            r matches Ok(id) ==> id == old(world)@.entities.len() && final(world)@ == old(world)@.with_new(
                EntityState::named(0, self.name@),
            ) && final(observers)@ == old(observers)@.push(
                ObserverState {
                    entity: id,
                    events: self.desc.events@,
                    terms: self.filter_builder.terms@,
                    shape: self.desc.run.unwrap(),
                    ready: true,
                    yield_existing: self.desc.yield_existing,
                    ctx: self.desc.ctx,
                },
            ),
            r is Ok ==> forall|k: int, w: &World, b: Iter, a: Iter|
                0 <= k < old(observers)@.len()
                    ==> #[trigger] final(observers).effect(k, w, b, a) == old(observers).effect(k, w, b, a),
            r is Ok ==> forall|w: &World, b: Iter, a: Iter| #[trigger]
                final(observers).effect(old(observers)@.len() as int, w, b, a) == self.callback_effect(w, b,
                    a),
    {
        if self.desc.events.len() > OBSERVER_EVENT_COUNT_MAX {
            return Err(BuildError::TooManyEvents);
        }
        if self.filter_builder.terms.len() == 0 {
            return Err(BuildError::NoTerms);
        }
        let shape: CallbackShape = match self.desc.run {
            Some(shape) => shape,
            None => {
                return Err(BuildError::NoCallback);
            },
        };
        let binding: BindingCtx = match self.desc.binding_ctx {
            Some(ctx) => BindingCtx::Observer(ctx),
            None => {
                return Err(BuildError::NoCallback);
            },
        };
        if binding.slot(shape).is_none() {
            return Err(BuildError::NoCallback);
        }
        if world.count() >= MAX_ENTITIES as usize {
            return Err(BuildError::WorldFull);
        }
        let id: u64 = world.entity_new_named(0, self.name.as_slice());
        observers.add(
            id,
            self.desc.events,
            self.filter_builder.terms,
            shape,
            binding,
            self.desc.yield_existing,
            self.desc.ctx,
        );
        Ok(id)
    }
}

impl<T> ObserverBuilder<T> {
    /// Runs a row callback over every batch that the iterator still holds.
    /// Each batch is checked once; the rows of a batch that passes are read
    /// in order, handed to the callback one at a time, and what the callback
    /// left is stored back into the columns that take writes. The batch's
    /// table is locked while its rows are walked. A batch that does not
    /// pass the check is left alone.
    pub fn run_each<Func: for <'x> Fn(&'x mut Row)>(iter: &mut Iter, each: &Func)
        requires
            forall|r: &mut Row| call_requires(*each, (r,)),
            old(iter).cursor <= old(iter).batches@.len(),
        ensures
            final(iter).event == old(iter).event,
            final(iter).event_id == old(iter).event_id,
            final(iter).param == old(iter).param,
            final(iter).locked@ == old(iter).locked@,
            final(iter).batches@.len() == old(iter).batches@.len(),
            final(iter).cursor == old(iter).batches@.len(),
            forall|b: int| 0 <= b < old(iter).cursor ==> final(iter).batches@[b] == old(iter).batches@[b],
            forall|b: int|
                old(iter).cursor <= b < old(iter).batches@.len()
                    ==> (#[trigger] old(iter).batches@[b]).same_shape(
                    &final(iter).batches@[b],
                ),
            forall|b: int|
                old(iter).cursor <= b < old(iter).batches@.len()
                    && !(#[trigger] old(iter).batches@[b]).valid()
                    ==> final(iter).batches@[b] == old(iter).batches@[b],
            forall|b: int|
                old(iter).cursor <= b < old(iter).batches@.len() && (#[trigger] old(iter).batches@[b]).valid()
                    ==> final(iter).batches@[b].valid(),
            forall|b: int, i: int|
                #![trigger final(iter).batches@[b].row(i)]
                old(iter).cursor <= b < old(iter).batches@.len() && old(iter).batches@[b].valid() && 0 <= i
                    < old(iter).batches@[b].count()
                        ==> final(iter).batches@[b].row(i).len() == old(iter).batches@[b].columns@.len()
                        && exists|r: &mut Row|
                    #![trigger call_ensures(*each, (r,), ())]
                    (*r)@ == old(iter).batches@[b].row(i) && call_ensures(*each, (r,), ())
                        && final(iter).batches@[b].row(i) == old(iter).batches@[b].merged(i, (*final(r))@),
    {
        let ghost first = old(iter).cursor as int;
        let ghost olds = old(iter).batches@;
        let ghost mut calls: Seq<Seq<Seq<Seq<u8>>>> = Seq::new(olds.len(), |b: int| Seq::empty());
        loop
            invariant
                forall|r: &mut Row| call_requires(*each, (r,)),
                iter.event == old(iter).event,
                iter.event_id == old(iter).event_id,
                iter.param == old(iter).param,
                iter.locked@ == old(iter).locked@,
                iter.batches@.len() == olds.len(),
                calls.len() == olds.len(),
                first <= iter.cursor <= olds.len(),
                first == old(iter).cursor,
                olds == old(iter).batches@,
                forall|b: int| 0 <= b < first ==> iter.batches@[b] == olds[b],
                forall|b: int| iter.cursor <= b < olds.len() ==> iter.batches@[b] == olds[b],
                forall|b: int| first <= b < iter.cursor
                    ==> (#[trigger] olds[b]).same_shape(&iter.batches@[b]),
                forall|b: int|
                    first <= b < iter.cursor && !(#[trigger] olds[b]).valid() ==> iter.batches@[b] == olds[b],
                forall|b: int|
                    first <= b < iter.cursor && (#[trigger] olds[b]).valid() ==> iter.batches@[b].valid(),
                forall|b: int|
                    first <= b < iter.cursor && olds[b].valid()
                        ==> (#[trigger] calls[b]).len() == olds[b].count(),
                forall|b: int, i: int|
                    first <= b < iter.cursor && olds[b].valid() && 0 <= i < olds[b].count()
                        ==> iter.batches@[b].row(i) == olds[b].merged(i, #[trigger] calls[b][i]),
                forall|b: int, i: int|
                    #![trigger calls[b][i]]
                    first <= b < iter.cursor && olds[b].valid() && 0 <= i < olds[b].count()
                        && calls[b][i].len()
                        >= 0 ==> exists|r: &mut Row|
                        #![trigger call_ensures(*each, (r,), ())]
                        (*r)@ == olds[b].row(i) && call_ensures(*each, (r,), ())
                            && (*final(r))@ == calls[b][i],
            ensures
                iter.cursor == olds.len(),
            decreases olds.len() - iter.cursor,
        {
            let more: bool = iter.next();
            if !more {
                break;
            }
            let b: usize = iter.cursor - 1;
            let ghost ob = olds[b as int];
            let ghost before_calls = calls;
            if iter.batches[b].validate() {
                let iter_count: usize = iter.count();
                let table: u64 = iter.table();
                iter.table_lock(table);
                let ghost done = iter.batches@;
                let ghost mut outs: Seq<Seq<Seq<u8>>> = Seq::empty();
                let mut i: usize = 0;
                while i < iter_count
                    invariant
                        i <= iter_count,
                        iter_count == ob.count(),
                        b + 1 == iter.cursor,
                        b < olds.len(),
                        ob == olds[b as int],
                        ob.valid(),
                        forall|r: &mut Row| call_requires(*each, (r,)),
                        iter.event == old(iter).event,
                        iter.event_id == old(iter).event_id,
                        iter.param == old(iter).param,
                        iter.locked@ == old(iter).locked@.push(table),
                        iter.batches@.len() == olds.len(),
                        done.len() == olds.len(),
                        forall|k: int| 0 <= k < olds.len() && k != b ==> iter.batches@[k] == done[k],
                        ob.same_shape(&iter.batches@[b as int]),
                        iter.batches@[b as int].valid(),
                        outs.len() == i,
                        forall|j: int| i <= j < iter_count ==> iter.batches@[b as int].row(j) == ob.row(j),
                        forall|j: int|
                            0 <= j < i ==> iter.batches@[b as int].row(j) == ob.merged(j, #[trigger] outs[j]),
                        forall|j: int|
                            #![trigger outs[j]]
                            0 <= j < i && outs[j].len() >= 0 ==> exists|r: &mut Row|
                                #![trigger call_ensures(*each, (r,), ())]
                                (*r)@ == ob.row(j) && call_ensures(*each, (r,), ())
                                    && (*final(r))@ == outs[j],
                    decreases iter_count - i,
                {
                    let ghost cur = iter.batches@[b as int];
                    let ghost prev = outs;
                    let mut tuple = iter.batches[b].read(i);
                    let ghost seen = tuple@;
                    each(&mut tuple);
                    proof {
                        outs = outs.push(tuple@);
                        assert(outs[i as int] == tuple@);
                        assert(seen == ob.row(i as int));
                        assert forall|j: int| 0 <= j < i implies outs[j] == prev[j] by {}
                    }
                    iter.batches[b].write(i, &tuple);
                    proof {
                        let new = iter.batches@[b as int];
                        assert(cur.merged(i as int, tuple@) =~= ob.merged(i as int, tuple@)) by {
                            assert forall|c: int| 0 <= c < ob.columns@.len() implies cur.columns@[c].row(
                                i as int,
                            ) == ob.columns@[c].row(i as int) by {
                                assert(cur.row(i as int)[c] == ob.row(i as int)[c]);
                            }
                        }
                        assert forall|j: int| 0 <= j < iter_count implies new.row(j) == (if j == i {
                            ob.merged(i as int, tuple@)
                        } else {
                            cur.row(j)
                        }) by {
                            cur.stored_rows(&new, i as int, tuple@, j);
                        }
                    }
                    i += 1;
                }
                iter.table_unlock();
                proof {
                    assert(iter.locked@ =~= old(iter).locked@);
                    calls = calls.update(b as int, outs);
                    assert forall|k: int| first <= k < b implies calls[k] == before_calls[k] by {}
                }
            }
        }
        proof {
            assert forall|b: int, i: int|
                #![trigger iter.batches@[b].row(i)]
                old(iter).cursor <= b < old(iter).batches@.len() && old(iter).batches@[b].valid() && 0 <= i
                    < old(iter).batches@[b].count() implies iter.batches@[b].row(i).len()
                        == old(iter).batches@[b].columns@.len() && exists|r: &mut Row|
                #![trigger call_ensures(*each, (r,), ())]
                (*r)@ == old(iter).batches@[b].row(i) && call_ensures(*each, (r,), ())
                    && iter.batches@[b].row(i)
                    == old(iter).batches@[b].merged(i, (*final(r))@) by {
                let out = calls[b][i];
                assert(olds[b] == old(iter).batches@[b]);
                assert(iter.batches@[b].row(i) == olds[b].merged(i, out));
                assert(exists|r: &mut Row|
                    #![trigger call_ensures(*each, (r,), ())]
                    (*r)@ == olds[b].row(i) && call_ensures(*each, (r,), ()) && (*final(r))@ == out);
            }
        }
    }

    /// Runs a row callback that also takes the entity of the row over every
    /// batch that the iterator still holds, as `run_each` does.
    pub fn run_each_entity<'w, Func: for <'x, 'y, 'z> Fn(&'x mut EntityView<'y>, &'z mut Row)>(
        world: &'w World,
        iter: &mut Iter,
        each: &Func,
    )
        requires
            forall|e: &mut EntityView, r: &mut Row| call_requires(*each, (e, r)),
            old(iter).cursor <= old(iter).batches@.len(),
        ensures
            final(iter).event == old(iter).event,
            final(iter).event_id == old(iter).event_id,
            final(iter).param == old(iter).param,
            final(iter).locked@ == old(iter).locked@,
            final(iter).batches@.len() == old(iter).batches@.len(),
            final(iter).cursor == old(iter).batches@.len(),
            forall|b: int| 0 <= b < old(iter).cursor ==> final(iter).batches@[b] == old(iter).batches@[b],
            forall|b: int|
                old(iter).cursor <= b < old(iter).batches@.len()
                    ==> (#[trigger] old(iter).batches@[b]).same_shape(
                    &final(iter).batches@[b],
                ),
            forall|b: int|
                old(iter).cursor <= b < old(iter).batches@.len()
                    && !(#[trigger] old(iter).batches@[b]).valid()
                    ==> final(iter).batches@[b] == old(iter).batches@[b],
            forall|b: int|
                old(iter).cursor <= b < old(iter).batches@.len() && (#[trigger] old(iter).batches@[b]).valid()
                    ==> final(iter).batches@[b].valid(),
            forall|b: int, i: int|
                #![trigger final(iter).batches@[b].row(i)]
                old(iter).cursor <= b < old(iter).batches@.len() && old(iter).batches@[b].valid() && 0 <= i
                    < old(iter).batches@[b].count()
                        ==> final(iter).batches@[b].row(i).len() == old(iter).batches@[b].columns@.len()
                        && exists|e: &mut EntityView, r: &mut Row|
                    #![trigger call_ensures(*each, (e, r), ())]
                    e.world == world && e.id.0 == old(iter).batches@[b].entities@[i]
                        && (*r)@ == old(iter).batches@[b].row(i) && call_ensures(*each, (e, r), ())
                        && final(iter).batches@[b].row(i) == old(iter).batches@[b].merged(i, (*final(r))@),
    {
        let ghost first = old(iter).cursor as int;
        let ghost olds = old(iter).batches@;
        let ghost mut calls: Seq<Seq<Seq<Seq<u8>>>> = Seq::new(olds.len(), |b: int| Seq::empty());
        loop
            invariant
                forall|e: &mut EntityView, r: &mut Row| call_requires(*each, (e, r)),
                iter.event == old(iter).event,
                iter.event_id == old(iter).event_id,
                iter.param == old(iter).param,
                iter.locked@ == old(iter).locked@,
                iter.batches@.len() == olds.len(),
                calls.len() == olds.len(),
                first <= iter.cursor <= olds.len(),
                first == old(iter).cursor,
                olds == old(iter).batches@,
                forall|b: int| 0 <= b < first ==> iter.batches@[b] == olds[b],
                forall|b: int| iter.cursor <= b < olds.len() ==> iter.batches@[b] == olds[b],
                forall|b: int| first <= b < iter.cursor
                    ==> (#[trigger] olds[b]).same_shape(&iter.batches@[b]),
                forall|b: int|
                    first <= b < iter.cursor && !(#[trigger] olds[b]).valid() ==> iter.batches@[b] == olds[b],
                forall|b: int|
                    first <= b < iter.cursor && (#[trigger] olds[b]).valid() ==> iter.batches@[b].valid(),
                forall|b: int|
                    first <= b < iter.cursor && olds[b].valid()
                        ==> (#[trigger] calls[b]).len() == olds[b].count(),
                forall|b: int, i: int|
                    first <= b < iter.cursor && olds[b].valid() && 0 <= i < olds[b].count()
                        ==> iter.batches@[b].row(i) == olds[b].merged(i, #[trigger] calls[b][i]),
                forall|b: int, i: int|
                    #![trigger calls[b][i]]
                    first <= b < iter.cursor && olds[b].valid() && 0 <= i < olds[b].count()
                        && calls[b][i].len()
                        >= 0 ==> exists|e: &mut EntityView, r: &mut Row|
                        #![trigger call_ensures(*each, (e, r), ())]
                        e.world == world && e.id.0 == olds[b].entities@[i] && (*r)@ == olds[b].row(i)
                            && call_ensures(*each, (e, r), ()) && (*final(r))@ == calls[b][i],
            ensures
                iter.cursor == olds.len(),
            decreases olds.len() - iter.cursor,
        {
            let more: bool = iter.next();
            if !more {
                break;
            }
            let b: usize = iter.cursor - 1;
            let ghost ob = olds[b as int];
            let ghost before_calls = calls;
            if iter.batches[b].validate() {
                let iter_count: usize = iter.count();
                let table: u64 = iter.table();
                iter.table_lock(table);
                let ghost done = iter.batches@;
                let ghost mut outs: Seq<Seq<Seq<u8>>> = Seq::empty();
                let mut i: usize = 0;
                while i < iter_count
                    invariant
                        i <= iter_count,
                        iter_count == ob.count(),
                        b + 1 == iter.cursor,
                        b < olds.len(),
                        ob == olds[b as int],
                        ob.valid(),
                        forall|e: &mut EntityView, r: &mut Row| call_requires(*each, (e, r)),
                        iter.event == old(iter).event,
                        iter.event_id == old(iter).event_id,
                        iter.param == old(iter).param,
                        iter.locked@ == old(iter).locked@.push(table),
                        iter.batches@.len() == olds.len(),
                        done.len() == olds.len(),
                        forall|k: int| 0 <= k < olds.len() && k != b ==> iter.batches@[k] == done[k],
                        ob.same_shape(&iter.batches@[b as int]),
                        iter.batches@[b as int].valid(),
                        outs.len() == i,
                        forall|j: int| i <= j < iter_count ==> iter.batches@[b as int].row(j) == ob.row(j),
                        forall|j: int|
                            0 <= j < i ==> iter.batches@[b as int].row(j) == ob.merged(j, #[trigger] outs[j]),
                        forall|j: int|
                            #![trigger outs[j]]
                            0 <= j < i && outs[j].len() >= 0 ==> exists|e: &mut EntityView, r: &mut Row|
                                #![trigger call_ensures(*each, (e, r), ())]
                                e.world == world && e.id.0 == ob.entities@[j] && (*r)@ == ob.row(j)
                                    && call_ensures(*each, (e, r), ()) && (*final(r))@ == outs[j],
                    decreases iter_count - i,
                {
                    let ghost cur = iter.batches@[b as int];
                    let ghost prev = outs;
                    let mut tuple = iter.batches[b].read(i);
                    let ghost seen = tuple@;
                    let mut entity = iter.entity(world, i);
                    each(&mut entity, &mut tuple);
                    proof {
                        outs = outs.push(tuple@);
                        assert(outs[i as int] == tuple@);
                        assert(seen == ob.row(i as int));
                        assert forall|j: int| 0 <= j < i implies outs[j] == prev[j] by {}
                    }
                    iter.batches[b].write(i, &tuple);
                    proof {
                        let new = iter.batches@[b as int];
                        assert(cur.merged(i as int, tuple@) =~= ob.merged(i as int, tuple@)) by {
                            assert forall|c: int| 0 <= c < ob.columns@.len() implies cur.columns@[c].row(
                                i as int,
                            ) == ob.columns@[c].row(i as int) by {
                                assert(cur.row(i as int)[c] == ob.row(i as int)[c]);
                            }
                        }
                        assert forall|j: int| 0 <= j < iter_count implies new.row(j) == (if j == i {
                            ob.merged(i as int, tuple@)
                        } else {
                            cur.row(j)
                        }) by {
                            cur.stored_rows(&new, i as int, tuple@, j);
                        }
                    }
                    i += 1;
                }
                iter.table_unlock();
                proof {
                    assert(iter.locked@ =~= old(iter).locked@);
                    calls = calls.update(b as int, outs);
                    assert forall|k: int| first <= k < b implies calls[k] == before_calls[k] by {}
                }
            }
        }
        proof {
            assert forall|b: int, i: int|
                #![trigger iter.batches@[b].row(i)]
                old(iter).cursor <= b < old(iter).batches@.len() && old(iter).batches@[b].valid() && 0 <= i
                    < old(iter).batches@[b].count() implies iter.batches@[b].row(i).len()
                        == old(iter).batches@[b].columns@.len() && exists|e: &mut EntityView, r: &mut Row|
                #![trigger call_ensures(*each, (e, r), ())]
                e.world == world && e.id.0 == old(iter).batches@[b].entities@[i]
                    && (*r)@ == old(iter).batches@[b].row(i) && call_ensures(*each, (e, r), ())
                    && iter.batches@[b].row(i)
                    == old(iter).batches@[b].merged(i, (*final(r))@) by {
                let out = calls[b][i];
                assert(olds[b] == old(iter).batches@[b]);
                assert(iter.batches@[b].row(i) == olds[b].merged(i, out));
                assert(exists|e: &mut EntityView, r: &mut Row|
                    #![trigger call_ensures(*each, (e, r), ())]
                    e.world == world && e.id.0 == olds[b].entities@[i] && (*r)@ == olds[b].row(i)
                        && call_ensures(*each, (e, r), ()) && (*final(r))@ == out);
            }
        }
    }
}

} // verus!
