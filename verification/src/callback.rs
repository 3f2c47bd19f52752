//! Callbacks behind one type: a closure of any of the supported shapes,
//! owned by the world and run on an iterator.

use vstd::prelude::*;
use crate::entity_view::EntityView;
use crate::iter::Iter;
use crate::observer_builder::ObserverBuilder;
use crate::table_iter::Row;
use crate::world::World;

verus! {

/// A callback that can be run on an iterator, whatever closure it is made
/// of.
pub trait IterAction {
    /// Whether the callback may be run on every iterator.
    spec fn ready(&self) -> bool;

    /// What a run of the callback leaves: which calls of the closure were
    /// made on which values, and what of the iterator is as before.
    spec fn effect(&self, world: &World, before: Iter, after: Iter) -> bool;

    /// Whether the callback walks the rows of the batches and stores what
    /// its closure left of each.
    spec fn walks_rows(&self) -> bool;

    /// Whether the closure can have been called on the entity of a row and
    /// on `r`, the values of that row.
    spec fn row_call(&self, world: &World, entity: u64, r: &mut Row) -> bool;

    /// Runs the callback on an iterator. Every table locked for the run is
    /// released when it ends. A callback that walks rows calls its closure
    /// on every row of every batch that passes its check, with the values
    /// as they were read, and leaves in the batch what that call left.
    fn run(&self, world: &World, it: &mut Iter)
        requires
            self.ready(),
        ensures
            self.effect(world, *old(it), *final(it)),
            final(it).event == old(it).event,
            final(it).event_id == old(it).event_id,
            final(it).locked@ == old(it).locked@,
            final(it).batches@.len() == old(it).batches@.len(),
            self.walks_rows() && old(it).cursor <= old(it).batches@.len() ==> forall|b: int|
                old(it).cursor <= b < old(it).batches@.len() ==> (#[trigger] old(it).batches@[b]).same_shape(
                    &final(it).batches@[b],
                ) && (old(it).batches@[b].valid() ==> final(it).batches@[b].valid()) && (!old(
                    it,
                ).batches@[b].valid() ==> final(it).batches@[b] == old(it).batches@[b]),
            self.walks_rows() && old(it).cursor <= old(it).batches@.len() ==> forall|b: int, i: int|
                #![trigger final(it).batches@[b].row(i)]
                old(it).cursor <= b < old(it).batches@.len() && old(it).batches@[b].valid() && 0 <= i
                    < old(it).batches@[b].count() ==> final(it).batches@[b].row(i).len()
                    == old(it).batches@[b].columns@.len() && exists|r: &mut Row|
                    #![trigger self.row_call(world, old(it).batches@[b].entities@[i], r)]
                    (*r)@ == old(it).batches@[b].row(i) && self.row_call(world, old(it).batches@[b].entities@[i], r)
                        && final(it).batches@[b].row(i) == old(it).batches@[b].merged(i, (*final(r))@),
    ;
}

/// A closure that takes nothing.
pub struct EmptyCallback<F> {
    pub func: F,
}

impl<F: Fn()> IterAction for EmptyCallback<F> {
    open spec fn ready(&self) -> bool {
        call_requires(self.func, ())
    }

    open spec fn effect(&self, world: &World, before: Iter, after: Iter) -> bool {
        &&& before.count_spec() > 0 ==> call_ensures(self.func, (), ())
        &&& after.param == before.param
        &&& after.batches == before.batches
        &&& after.cursor == before.cursor
    }

    open spec fn walks_rows(&self) -> bool {
        false
    }

    open spec fn row_call(&self, world: &World, entity: u64, r: &mut Row) -> bool {
        false
    }

    fn run(&self, world: &World, it: &mut Iter) {
        EntityView::run_empty(it, &self.func);
    }
}

/// A closure that takes the entity an event is about.
pub struct EntityCallback<F> {
    pub func: F,
}

impl<F: for <'x, 'y> Fn(&'x mut EntityView<'y>)> IterAction for EntityCallback<F> {
    open spec fn ready(&self) -> bool {
        forall|e: &mut EntityView| call_requires(self.func, (e,))
    }

    open spec fn effect(&self, world: &World, before: Iter, after: Iter) -> bool {
        &&& before.count_spec() > 0 ==> exists|e: &mut EntityView|
            e.world == world && e.id.0 == before.field_src_spec(0) && #[trigger] call_ensures(
                self.func,
                (e,),
                (),
            )
        &&& after.param == before.param
        &&& after.batches == before.batches
        &&& after.cursor == before.cursor
    }

    open spec fn walks_rows(&self) -> bool {
        false
    }

    open spec fn row_call(&self, world: &World, entity: u64, r: &mut Row) -> bool {
        false
    }

    fn run(&self, world: &World, it: &mut Iter) {
        EntityView::run_empty_entity(world, it, &self.func);
    }
}

/// A closure that takes the payload of an event.
pub struct PayloadCallback<F> {
    pub func: F,
}

impl<F: for <'x> Fn(&'x mut Vec<u8>)> IterAction for PayloadCallback<F> {
    open spec fn ready(&self) -> bool {
        forall|p: &mut Vec<u8>| call_requires(self.func, (p,))
    }

    open spec fn effect(&self, world: &World, before: Iter, after: Iter) -> bool {
        &&& before.count_spec() == 0 ==> after.param == before.param
        &&& before.count_spec() > 0 ==> exists|p: &mut Vec<u8>|
            *p == before.param && #[trigger] call_ensures(self.func, (p,), ())
        &&& after.batches == before.batches
        &&& after.cursor == before.cursor
    }

    open spec fn walks_rows(&self) -> bool {
        false
    }

    open spec fn row_call(&self, world: &World, entity: u64, r: &mut Row) -> bool {
        false
    }

    fn run(&self, world: &World, it: &mut Iter) {
        EntityView::run_payload(it, &self.func);
    }
}

/// A closure that takes the entity an event is about and the payload of
/// the event.
pub struct PayloadEntityCallback<F> {
    pub func: F,
}

impl<F: for <'x, 'y, 'z> Fn(&'x mut EntityView<'y>,
    &'z mut Vec<u8>)> IterAction for PayloadEntityCallback<F> {
    open spec fn ready(&self) -> bool {
        forall|e: &mut EntityView, p: &mut Vec<u8>| call_requires(self.func, (e, p))
    }

    open spec fn effect(&self, world: &World, before: Iter, after: Iter) -> bool {
        &&& before.count_spec() == 0 ==> after.param == before.param
        &&& before.count_spec() > 0 ==> exists|e: &mut EntityView, p: &mut Vec<u8>|
            e.world == world && e.id.0 == before.field_src_spec(0) && *p == before.param
                && #[trigger] call_ensures(self.func, (e, p), ())
        &&& after.batches == before.batches
        &&& after.cursor == before.cursor
    }

    open spec fn walks_rows(&self) -> bool {
        false
    }

    open spec fn row_call(&self, world: &World, entity: u64, r: &mut Row) -> bool {
        false
    }

    fn run(&self, world: &World, it: &mut Iter) {
        EntityView::run_payload_entity(world, it, &self.func);
    }
}

/// A closure that takes the values of one row.
pub struct EachCallback<F> {
    pub func: F,
}

impl<F: for <'x> Fn(&'x mut Row)> IterAction for EachCallback<F> {
    open spec fn ready(&self) -> bool {
        forall|r: &mut Row| call_requires(self.func, (r,))
    }

    open spec fn effect(&self, world: &World, before: Iter, after: Iter) -> bool {
        &&& after.param == before.param
        &&& before.cursor <= before.batches@.len() ==> {
            &&& after.cursor == before.batches@.len()
            &&& forall|b: int| 0 <= b < before.cursor ==> after.batches@[b] == before.batches@[b]
            &&& forall|b: int|
                before.cursor <= b < before.batches@.len() ==> (#[trigger] before.batches@[b]).same_shape(
                    &after.batches@[b],
                )
            &&& forall|b: int, i: int|
                #![trigger after.batches@[b].row(i)]
                before.cursor <= b < before.batches@.len() && before.batches@[b].valid() && 0 <= i
                    < before.batches@[b].count() ==> after.batches@[b].row(i).len()
                    == before.batches@[b].columns@.len() && exists|r: &mut Row|
                    #![trigger call_ensures(self.func, (r,), ())]
                    (*r)@ == before.batches@[b].row(i) && call_ensures(self.func, (r,), ())
        }
        &&& before.cursor > before.batches@.len() ==> after.batches == before.batches && after.cursor
            == before.cursor
    }

    open spec fn walks_rows(&self) -> bool {
        true
    }

    open spec fn row_call(&self, world: &World, entity: u64, r: &mut Row) -> bool {
        call_ensures(self.func, (r,), ())
    }

    fn run(&self, world: &World, it: &mut Iter) {
        if it.cursor <= it.batches.len() {
            ObserverBuilder::<()>::run_each(it, &self.func);
            proof {
                assert forall|b: int, i: int|
                    #![trigger it.batches@[b].row(i)]
                    old(it).cursor <= b < old(it).batches@.len() && old(it).batches@[b].valid() && 0 <= i
                        < old(it).batches@[b].count() implies it.batches@[b].row(i).len()
                    == old(it).batches@[b].columns@.len() && exists|r: &mut Row|
                    #![trigger self.row_call(world, old(it).batches@[b].entities@[i], r)]
                    (*r)@ == old(it).batches@[b].row(i) && self.row_call(world, old(it).batches@[b].entities@[i], r)
                        && it.batches@[b].row(i) == old(it).batches@[b].merged(i, (*final(r))@) by {
                    let r = choose|r: &mut Row|
                        #![trigger call_ensures(self.func, (r,), ())]
                        (*r)@ == old(it).batches@[b].row(i) && call_ensures(self.func, (r,), ())
                            && it.batches@[b].row(i) == old(it).batches@[b].merged(i, (*final(r))@);
                    assert(self.row_call(world, old(it).batches@[b].entities@[i], r));
                }
            }
        }
    }
}

/// A closure that takes the entity of one row and the values of the row.
pub struct EachEntityCallback<F> {
    pub func: F,
}

impl<F: for <'x, 'y, 'z> Fn(&'x mut EntityView<'y>, &'z mut Row)> IterAction for EachEntityCallback<F> {
    open spec fn ready(&self) -> bool {
        forall|e: &mut EntityView, r: &mut Row| call_requires(self.func, (e, r))
    }

    open spec fn effect(&self, world: &World, before: Iter, after: Iter) -> bool {
        &&& after.param == before.param
        &&& before.cursor <= before.batches@.len() ==> {
            &&& after.cursor == before.batches@.len()
            &&& forall|b: int| 0 <= b < before.cursor ==> after.batches@[b] == before.batches@[b]
            &&& forall|b: int|
                before.cursor <= b < before.batches@.len() ==> (#[trigger] before.batches@[b]).same_shape(
                    &after.batches@[b],
                )
            &&& forall|b: int, i: int|
                #![trigger after.batches@[b].row(i)]
                before.cursor <= b < before.batches@.len() && before.batches@[b].valid() && 0 <= i
                    < before.batches@[b].count() ==> after.batches@[b].row(i).len()
                    == before.batches@[b].columns@.len() && exists|e: &mut EntityView, r: &mut Row|
                    #![trigger call_ensures(self.func, (e, r), ())]
                    e.world == world && e.id.0 == before.batches@[b].entities@[i] && (*r)@
                        == before.batches@[b].row(i) && call_ensures(self.func, (e, r), ())
        }
        &&& before.cursor > before.batches@.len() ==> after.batches == before.batches && after.cursor
            == before.cursor
    }

    open spec fn walks_rows(&self) -> bool {
        true
    }

    open spec fn row_call(&self, world: &World, entity: u64, r: &mut Row) -> bool {
        exists|e: &mut EntityView|
            e.world == world && e.id.0 == entity && #[trigger] call_ensures(self.func, (e, r), ())
    }

    fn run(&self, world: &World, it: &mut Iter) {
        if it.cursor <= it.batches.len() {
            ObserverBuilder::<()>::run_each_entity(world, it, &self.func);
            proof {
                assert forall|b: int, i: int|
                    #![trigger it.batches@[b].row(i)]
                    old(it).cursor <= b < old(it).batches@.len() && old(it).batches@[b].valid() && 0 <= i
                        < old(it).batches@[b].count() implies it.batches@[b].row(i).len()
                    == old(it).batches@[b].columns@.len() && exists|r: &mut Row|
                    #![trigger self.row_call(world, old(it).batches@[b].entities@[i], r)]
                    (*r)@ == old(it).batches@[b].row(i) && self.row_call(world, old(it).batches@[b].entities@[i], r)
                        && it.batches@[b].row(i) == old(it).batches@[b].merged(i, (*final(r))@) by {
                    let (e, r) = choose|e: &mut EntityView, r: &mut Row|
                        #![trigger call_ensures(self.func, (e, r), ())]
                        e.world == world && e.id.0 == old(it).batches@[b].entities@[i] && (*r)@ == old(
                            it,
                        ).batches@[b].row(i) && call_ensures(self.func, (e, r), ()) && it.batches@[b].row(i)
                            == old(it).batches@[b].merged(i, (*final(r))@);
                    assert(call_ensures(self.func, (e, r), ()));
                    assert(self.row_call(world, old(it).batches@[b].entities@[i], r));
                }
            }
        }
    }
}

/// An owned callback of any shape.
pub struct Action {
    pub run: Box<dyn IterAction>,
}

} // verus!
