//! Queries: a fixed list of terms, and the walk over the entities that
//! match them.

use vstd::prelude::*;
use crate::callback::{Action, EachCallback, EachEntityCallback, IterAction};
use crate::component::ComponentId;
use crate::entity_view::EntityView;
use crate::filter_builder::{FilterBuilder, Iterable};
use crate::iter::Iter;
use crate::observer_builder::{BuildError, ObserverBuilder};
use crate::table_iter::{Batch, Row};
use crate::term::{Access, Term};
use crate::world::World;

verus! {

/// Builds a query whose first terms the type `T` stands for. Terms are
/// added in order; `build` consumes the builder.
pub struct QueryBuilder<T> {
    pub filter_builder: FilterBuilder,
    pub phantom: core::marker::PhantomData<T>,
}

/// A query: its terms are fixed when it is built.
pub struct Query<T> {
    pub terms: Vec<Term>,
    pub phantom: core::marker::PhantomData<T>,
}

impl<T: Iterable> QueryBuilder<T> {
    /// A builder of a query with the terms that `T` stands for in the world.
    pub fn new(world: &World) -> (b: Self)
        ensures
            b.filter_builder.terms@ == T::terms(world@),
    {
        let mut obj = QueryBuilder { filter_builder: FilterBuilder::new(),
            phantom: core::marker::PhantomData };
        T::populate(world, &mut obj.filter_builder);
        assert(obj.filter_builder.terms@ =~= T::terms(world@));
        obj
    }

    /// Appends a term that only constrains matching on the component `C`:
    /// its value is not handed to the callback.
    pub fn with<C: ComponentId>(&mut self, world: &World)
        ensures
            final(self).filter_builder.terms@ == old(self).filter_builder.terms@.push(
                Term { id: world@.id_of(C::TYPE_KEY), source: 0, access: Access::Filter },
            ),
    {
        self.filter_builder.with::<C>(world);
    }

    /// Appends a term that only constrains matching on `id`.
    pub fn with_id(&mut self, id: u64)
        ensures
            final(self).filter_builder.terms@ == old(self).filter_builder.terms@.push(
                Term { id, source: 0, access: Access::Filter },
            ),
    {
        self.filter_builder.with_id(id);
    }

    /// Appends a term.
    pub fn term(&mut self, t: Term)
        ensures
            final(self).filter_builder.terms@ == old(self).filter_builder.terms@.push(t),
    {
        self.filter_builder.term(t);
    }

    /// The query with the terms added so far. The builder is used up. A
    /// query without terms is refused.
    pub fn build(self) -> (r: Result<Query<T>, BuildError>)
        ensures
            r is Err <==> self.filter_builder.terms@.len() == 0,
            r matches Err(e) ==> e == BuildError::NoTerms,
            r matches Ok(q) ==> q.terms == self.filter_builder.terms,
    {
        if self.filter_builder.terms.len() == 0 {
            Err(BuildError::NoTerms)
        } else {
            Ok(Query { terms: self.filter_builder.terms, phantom: core::marker::PhantomData })
        }
    }
}

/// A system: a query together with the callback that is run over what the
/// query matches, as often as the system is run. The system owns the
/// callback; dropping the system drops the closure, once.
pub struct System {
    pub terms: Vec<Term>,
    pub action: Action,
}

impl System {
    /// Whether `before` is the iterator that a run of the system starts on:
    /// one batch with the entities that the terms match as rows and what
    /// the terms read on them, not yet current.
    pub open spec fn starts_on(&self, world: &World, before: Iter) -> bool {
        &&& before.event == 0
        &&& before.event_id == 0
        &&& before.param@.len() == 0
        &&& before.cursor == 0
        &&& before.locked@.len() == 0
        &&& before.batches@.len() == 1
        &&& before.batches@[0].reads(world@, self.terms@, world@.matches(self.terms@))
    }

    /// Runs the system once: its callback is run over what its terms match
    /// now, and what the callback left is stored in the values that a term
    /// writes. The result, which exists for proofs only, is the batch as it
    /// was read and the batch as the callback left it. A callback that walks
    /// rows has called its closure on every row, with the values as they
    /// were read, and what is left for the row is what that call left.
    pub fn run(&self, world: &mut World) -> (walk: Ghost<(Batch, Batch)>)
        requires
            old(world).wf(),
            self.action.run.ready(),
        ensures
            final(world).wf(),
            walk@.0.reads(old(world)@, self.terms@, old(world)@.matches(self.terms@)),
            final(world)@ == (if walk@.1.valid() {
                old(world)@.scatter(walk@.1, walk@.1.columns@.len() as int)
            } else {
                old(world)@
            }),
            exists|before: Iter, after: Iter|
                #![trigger self.action.run.effect(&*old(world), before, after)]
                self.starts_on(&*old(world), before) && before.batches@[0] == walk@.0 && after.batches@.len() == 1
                    && after.batches@[0] == walk@.1 && self.action.run.effect(&*old(world), before, after),
            self.action.run.walks_rows() ==> walk@.0.same_shape(&walk@.1) && final(world)@ == old(
                world,
            )@.after_each(walk@.0, walk@.1),
            self.action.run.walks_rows() ==> forall|i: int|
                #![trigger walk@.1.row(i)]
                walk@.0.valid() && 0 <= i < walk@.0.count() ==> walk@.1.row(i).len() == walk@.0.columns@.len()
                    && exists|r: &mut Row|
                    #![trigger self.action.run.row_call(&*old(world), walk@.0.entities@[i], r)]
                    (*r)@ == walk@.0.row(i) && self.action.run.row_call(&*old(world), walk@.0.entities@[i], r)
                        && walk@.1.row(i) == walk@.0.merged(i, (*final(r))@),
    {
        let (left, read) = self.walk(&*world);
        if left.validate() {
            world.scatter(&left);
        }
        Ghost((read@, left))
    }

    /// Runs the callback over what the terms match without storing
    /// anything, and hands back the batch as the callback left it, with the
    /// batch as it was read for proofs.
    pub fn walk(&self, world: &World) -> (walk: (Batch, Ghost<Batch>))
        requires
            self.action.run.ready(),
        ensures
            walk.1@.reads(world@, self.terms@, world@.matches(self.terms@)),
            exists|before: Iter, after: Iter|
                #![trigger self.action.run.effect(world, before, after)]
                self.starts_on(world, before) && before.batches@[0] == walk.1@ && after.batches@.len() == 1
                    && after.batches@[0] == walk.0 && self.action.run.effect(world, before, after),
            self.action.run.walks_rows() ==> walk.1@.same_shape(&walk.0) && (walk.1@.valid() ==> walk.0.valid())
                && (!walk.1@.valid() ==> walk.0 == walk.1@),
            self.action.run.walks_rows() ==> forall|i: int|
                #![trigger walk.0.row(i)]
                walk.1@.valid() && 0 <= i < walk.1@.count() ==> walk.0.row(i).len() == walk.1@.columns@.len()
                    && exists|r: &mut Row|
                    #![trigger self.action.run.row_call(world, walk.1@.entities@[i], r)]
                    (*r)@ == walk.1@.row(i) && self.action.run.row_call(world, walk.1@.entities@[i], r)
                        && walk.0.row(i) == walk.1@.merged(i, (*final(r))@),
    {
        let entities = world.matches(&self.terms);
        let batch: Batch = world.gather(&self.terms, entities);
        let mut batches: Vec<Batch> = Vec::new();
        batches.push(batch);
        let mut it = Iter::new(0, 0, Vec::new(), batches);
        let ghost before = it;
        self.action.run.run(world, &mut it);
        let ghost after = it;
        let left = it.batches.remove(0);
        let walk: (Batch, Ghost<Batch>) = (left, Ghost(before.batches@[0]));
        proof {
            assert(walk.0 == after.batches@[0]);
            assert(self.starts_on(world, before));
            assert(self.action.run.effect(world, before, after));
            if self.action.run.walks_rows() {
                assert forall|i: int|
                    #![trigger walk.0.row(i)]
                    walk.1@.valid() && 0 <= i < walk.1@.count() implies walk.0.row(i).len()
                    == walk.1@.columns@.len() && exists|r: &mut Row|
                    #![trigger self.action.run.row_call(world, walk.1@.entities@[i], r)]
                    (*r)@ == walk.1@.row(i) && self.action.run.row_call(world, walk.1@.entities@[i], r)
                        && walk.0.row(i) == walk.1@.merged(i, (*final(r))@) by {
                    assert(after.batches@[0].row(i) == walk.0.row(i));
                    let r = choose|r: &mut Row|
                        #![trigger self.action.run.row_call(world, before.batches@[0].entities@[i], r)]
                        (*r)@ == before.batches@[0].row(i) && self.action.run.row_call(
                            world,
                            before.batches@[0].entities@[i],
                            r,
                        ) && after.batches@[0].row(i) == before.batches@[0].merged(i, (*final(r))@);
                    assert((*r)@ == walk.1@.row(i) && self.action.run.row_call(world, walk.1@.entities@[i], r)
                        && walk.0.row(i) == walk.1@.merged(i, (*final(r))@));
                }
            }
        }
        walk
    }
}

impl<T> Query<T> {
    /// Makes the query a system that calls `func` with the values of each
    /// entity it matches.
    pub fn system_each<F: for <'x> Fn(&'x mut Row) + 'static>(self, func: F) -> (s: System)
        requires
            forall|r: &mut Row| call_requires(func, (r,)),
        ensures
            s.terms == self.terms,
            s.action.run.ready(),
            s.action.run.walks_rows(),
            forall|w: &World, b: Iter, a: Iter| #[trigger]
                s.action.run.effect(w, b, a) ==> (EachCallback { func }).effect(w, b, a),
            forall|w: &World, e: u64, r: &mut Row| #[trigger]
                s.action.run.row_call(w, e, r) ==> call_ensures(func, (r,), ()),
    {
        System { terms: self.terms, action: Action { run: Box::new(EachCallback { func }) } }
    }

    /// Makes the query a system that calls `func` with each entity it
    /// matches and the values of that entity.
    pub fn system_each_entity<F: for <'x, 'y, 'z> Fn(&'x mut EntityView<'y>, &'z mut Row) + 'static>(
        self,
        func: F,
    ) -> (s: System)
        requires
            forall|e: &mut EntityView, r: &mut Row| call_requires(func, (e, r)),
        ensures
            s.terms == self.terms,
            s.action.run.ready(),
            s.action.run.walks_rows(),
            forall|w: &World, b: Iter, a: Iter| #[trigger]
                s.action.run.effect(w, b, a) ==> (EachEntityCallback { func }).effect(w, b, a),
            forall|w: &World, e: u64, r: &mut Row| #[trigger]
                s.action.run.row_call(w, e, r) ==> exists|v: &mut EntityView|
                    v.world == w && v.id.0 == e && #[trigger] call_ensures(func, (v, r), ()),
    {
        System { terms: self.terms, action: Action { run: Box::new(EachEntityCallback { func }) } }
    }

    /// The entities that the query visits: the live entities for which all
    /// terms hold, in the order they were created.
    pub fn entities(&self, world: &World) -> (out: Vec<u64>)
        ensures
            out@ == world@.matches(self.terms@),
    {
        world.matches(&self.terms)
    }

    /// Number of entities that the query visits.
    pub fn count(&self, world: &World) -> (n: usize)
        ensures
            n == world@.matches(self.terms@).len(),
    {
        world.matches(&self.terms).len()
    }

    /// An iterator over what the query matches: one batch with the matching
    /// entities as rows and what the terms read on them, not yet current.
    pub fn iter(&self, world: &World) -> (it: Iter)
        ensures
            it.event == 0,
            it.event_id == 0,
            it.param@.len() == 0,
            it.cursor == 0,
            it.locked@.len() == 0,
            it.batches@.len() == 1,
            it.batches@[0].reads(world@, self.terms@, world@.matches(self.terms@)),
    {
        let entities = world.matches(&self.terms);
        let batch: Batch = world.gather(&self.terms, entities);
        let mut batches: Vec<Batch> = Vec::new();
        batches.push(batch);
        Iter::new(0, 0, Vec::new(), batches)
    }

    /// Calls `func` with the values of each entity that the query matches,
    /// in the order the entities were created, and stores what `func` left
    /// in the values that a term writes. The walk goes over what matched
    /// when it began; no entity gains or loses an id by it. The result,
    /// which exists for proofs only, is the batch as it was read and the
    /// batch as `func` left it.
    pub fn each<F: for <'x> Fn(&'x mut Row)>(&self, world: &mut World, func: F) -> (walk: Ghost<(Batch, Batch)>)
        requires
            old(world).wf(),
            forall|r: &mut Row| call_requires(func, (r,)),
        ensures
            final(world).wf(),
            walk@.0.reads(old(world)@, self.terms@, old(world)@.matches(self.terms@)),
            walk@.0.same_shape(&walk@.1),
            final(world)@ == old(world)@.after_each(walk@.0, walk@.1),
            forall|i: int|
                #![trigger walk@.1.row(i)]
                walk@.0.valid() && 0 <= i < walk@.0.count() ==> walk@.1.row(i).len() == walk@.0.columns@.len()
                    && exists|r: &mut Row|
                    #![trigger call_ensures(func, (r,), ())]
                    (*r)@ == walk@.0.row(i) && call_ensures(func, (r,), ()) && walk@.1.row(i) == walk@.0.merged(
                        i,
                        (*final(r))@,
                    ),
    {
        let (left, read) = self.walk(&*world, func);
        if left.validate() {
            world.scatter(&left);
        }
        Ghost((read@, left))
    }

    /// Walks what the query matches without storing anything: the batch is
    /// read, `func` is called with the values of each row, and the batch as
    /// `func` left it is handed back, with the batch as it was read for
    /// proofs.
    pub fn walk<F: for <'x> Fn(&'x mut Row)>(&self, world: &World, func: F) -> (walk: (Batch, Ghost<Batch>))
        requires
            forall|r: &mut Row| call_requires(func, (r,)),
        ensures
            walk.1@.reads(world@, self.terms@, world@.matches(self.terms@)),
            walk.1@.same_shape(&walk.0),
            walk.1@.valid() ==> walk.0.valid(),
            !walk.1@.valid() ==> walk.0 == walk.1@,
            forall|i: int|
                #![trigger walk.0.row(i)]
                walk.1@.valid() && 0 <= i < walk.1@.count() ==> walk.0.row(i).len() == walk.1@.columns@.len()
                    && exists|r: &mut Row|
                    #![trigger call_ensures(func, (r,), ())]
                    (*r)@ == walk.1@.row(i) && call_ensures(func, (r,), ()) && walk.0.row(i) == walk.1@.merged(
                        i,
                        (*final(r))@,
                    ),
    {
        let mut it = self.iter(world);
        let ghost before = it.batches@[0];
        ObserverBuilder::<()>::run_each(&mut it, &func);
        let ghost after = it.batches@[0];
        let left = it.batches.remove(0);
        let walk: (Batch, Ghost<Batch>) = (left, Ghost(before));
        proof {
            assert(walk.0 == after);
            assert forall|i: int|
                #![trigger walk.0.row(i)]
                walk.1@.valid() && 0 <= i < walk.1@.count() implies walk.0.row(i).len() == walk.1@.columns@.len()
                && exists|r: &mut Row|
                #![trigger call_ensures(func, (r,), ())]
                (*r)@ == walk.1@.row(i) && call_ensures(func, (r,), ()) && walk.0.row(i) == walk.1@.merged(
                    i,
                    (*final(r))@,
                ) by {
                assert(after.row(i) == walk.0.row(i));
                let r = choose|r: &mut Row|
                    #![trigger call_ensures(func, (r,), ())]
                    (*r)@ == before.row(i) && call_ensures(func, (r,), ()) && after.row(i) == before.merged(
                        i,
                        (*final(r))@,
                    );
                assert((*r)@ == walk.1@.row(i) && call_ensures(func, (r,), ()) && walk.0.row(i) == walk.1@.merged(
                    i,
                    (*final(r))@,
                ));
            }
        }
        walk
    }

    /// Calls `func` with each entity that the query matches and its values,
    /// as `each` does with the values alone.
    pub fn each_entity<F: for <'x, 'y, 'z> Fn(&'x mut EntityView<'y>, &'z mut Row)>(
        &self,
        world: &mut World,
        func: F,
    ) -> (walk: Ghost<(Batch, Batch)>)
        requires
            old(world).wf(),
            forall|e: &mut EntityView, r: &mut Row| call_requires(func, (e, r)),
        ensures
            final(world).wf(),
            walk@.0.reads(old(world)@, self.terms@, old(world)@.matches(self.terms@)),
            walk@.0.same_shape(&walk@.1),
            final(world)@ == old(world)@.after_each(walk@.0, walk@.1),
            forall|i: int|
                #![trigger walk@.1.row(i)]
                walk@.0.valid() && 0 <= i < walk@.0.count() ==> walk@.1.row(i).len() == walk@.0.columns@.len()
                    && exists|e: &mut EntityView, r: &mut Row|
                    #![trigger call_ensures(func, (e, r), ())]
                    e.world@ == old(world)@ && e.id.0 == walk@.0.entities@[i] && (*r)@ == walk@.0.row(i)
                        && call_ensures(func, (e, r), ()) && walk@.1.row(i) == walk@.0.merged(i, (*final(r))@),
    {
        let (left, read) = self.walk_entity(&*world, func);
        if left.validate() {
            world.scatter(&left);
        }
        Ghost((read@, left))
    }

    /// Walks what the query matches without storing anything, as `walk`
    /// does, with a closure that also takes the entity of each row.
    pub fn walk_entity<'w, F: for <'x, 'y, 'z> Fn(&'x mut EntityView<'y>, &'z mut Row)>(
        &self,
        world: &'w World,
        func: F,
    ) -> (walk: (Batch, Ghost<Batch>))
        requires
            forall|e: &mut EntityView, r: &mut Row| call_requires(func, (e, r)),
        ensures
            walk.1@.reads(world@, self.terms@, world@.matches(self.terms@)),
            walk.1@.same_shape(&walk.0),
            walk.1@.valid() ==> walk.0.valid(),
            !walk.1@.valid() ==> walk.0 == walk.1@,
            forall|i: int|
                #![trigger walk.0.row(i)]
                walk.1@.valid() && 0 <= i < walk.1@.count() ==> walk.0.row(i).len() == walk.1@.columns@.len()
                    && exists|e: &mut EntityView, r: &mut Row|
                    #![trigger call_ensures(func, (e, r), ())]
                    e.world == world && e.id.0 == walk.1@.entities@[i] && (*r)@ == walk.1@.row(i) && call_ensures(
                        func,
                        (e, r),
                        (),
                    ) && walk.0.row(i) == walk.1@.merged(i, (*final(r))@),
    {
        let mut it = self.iter(world);
        let ghost before = it.batches@[0];
        ObserverBuilder::<()>::run_each_entity(world, &mut it, &func);
        let ghost after = it.batches@[0];
        let left = it.batches.remove(0);
        let walk: (Batch, Ghost<Batch>) = (left, Ghost(before));
        proof {
            assert(walk.0 == after);
            assert forall|i: int|
                #![trigger walk.0.row(i)]
                walk.1@.valid() && 0 <= i < walk.1@.count() implies walk.0.row(i).len() == walk.1@.columns@.len()
                && exists|e: &mut EntityView, r: &mut Row|
                #![trigger call_ensures(func, (e, r), ())]
                e.world == world && e.id.0 == walk.1@.entities@[i] && (*r)@ == walk.1@.row(i) && call_ensures(
                    func,
                    (e, r),
                    (),
                ) && walk.0.row(i) == walk.1@.merged(i, (*final(r))@) by {
                assert(after.row(i) == walk.0.row(i));
                let (e, r) = choose|e: &mut EntityView, r: &mut Row|
                    #![trigger call_ensures(func, (e, r), ())]
                    e.world == world && e.id.0 == before.entities@[i] && (*r)@ == before.row(i) && call_ensures(
                        func,
                        (e, r),
                        (),
                    ) && after.row(i) == before.merged(i, (*final(r))@);
                assert(e.world == world && e.id.0 == walk.1@.entities@[i] && (*r)@ == walk.1@.row(i)
                    && call_ensures(func, (e, r), ()) && walk.0.row(i) == walk.1@.merged(i, (*final(r))@));
            }
        }
        walk
    }
}

} // verus!
