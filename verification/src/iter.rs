//! The iterator that the world hands to a callback.

use vstd::prelude::*;
use crate::entity_view::EntityView;
use crate::id::Entity;
use crate::table_iter::Batch;
use crate::world::World;

verus! {

/// The state of one callback invocation: what triggered it, the batches of
/// matching entities, which of them is current, and the tables that are
/// locked while their rows are walked. The world itself is handed to the
/// callback beside the iterator.
pub struct Iter {
    /// The event that triggered the callback; 0 when a query runs.
    pub event: u64,
    /// The id that the event is about.
    pub event_id: u64,
    /// The payload of the event; empty when it has none.
    pub param: Vec<u8>,
    /// The batches of matching entities, in the order they are visited.
    pub batches: Vec<Batch>,
    /// Number of batches handed out so far; the current one is the last of
    /// them.
    pub cursor: usize,
    /// The tables locked by the callbacks that are walking them, innermost
    /// last.
    pub locked: Vec<u64>,
}

impl Iter {
    /// Whether a batch is current.
    pub open spec fn has_current(&self) -> bool {
        0 < self.cursor <= self.batches@.len()
    }

    /// The current batch.
    pub open spec fn current(&self) -> Batch {
        self.batches@[self.cursor - 1]
    }

    /// Number of rows of the current batch; 0 when none is current.
    pub open spec fn count_spec(&self) -> int {
        if self.has_current() {
            self.current().count()
        } else {
            0
        }
    }

    /// The source of field `index` in the current batch; 0 when there is no
    /// such field.
    pub open spec fn field_src_spec(&self, index: int) -> u64 {
        if self.has_current() && 0 <= index < self.current().sources@.len() {
            self.current().sources@[index]
        } else {
            0
        }
    }

    /// An iterator over the given batches, before the first of them.
    pub fn new(event: u64, event_id: u64, param: Vec<u8>, batches: Vec<Batch>) -> (it: Self)
        ensures
            it.event == event,
            it.event_id == event_id,
            it.param == param,
            it.batches == batches,
            it.cursor == 0,
            it.locked@.len() == 0,
    {
        Iter { event, event_id, param, batches, cursor: 0, locked: Vec::new() }
    }

    /// Makes the next batch current and says whether there was one.
    pub fn next(&mut self) -> (more: bool)
        ensures
            more == (old(self).cursor < old(self).batches@.len()),
            more ==> final(self).cursor == old(self).cursor + 1,
            !more ==> final(self).cursor == old(self).cursor,
            final(self).event == old(self).event,
            final(self).event_id == old(self).event_id,
            final(self).param == old(self).param,
            final(self).batches == old(self).batches,
            final(self).locked == old(self).locked,
    {
        if self.cursor < self.batches.len() {
            self.cursor += 1;
            true
        } else {
            false
        }
    }

    /// Number of rows of the current batch.
    pub fn count(&self) -> (n: usize)
        ensures
            n == self.count_spec(),
    {
        if self.cursor > 0 && self.cursor <= self.batches.len() {
            self.batches[self.cursor - 1].entities.len()
        } else {
            0
        }
    }

    /// The table of the current batch; 0 when none is current.
    pub fn table(&self) -> (t: u64)
        ensures
            t == (if self.has_current() {
                self.current().table
            } else {
                0
            }),
    {
        if self.cursor > 0 && self.cursor <= self.batches.len() {
            self.batches[self.cursor - 1].table
        } else {
            0
        }
    }

    /// The source of a field of the current batch.
    pub fn field_src(&self, index: usize) -> (src: u64)
        ensures
            src == self.field_src_spec(index as int),
    {
        if self.cursor > 0 && self.cursor <= self.batches.len() {
            let batch = &self.batches[self.cursor - 1];
            if index < batch.sources.len() {
                batch.sources[index]
            } else {
                0
            }
        } else {
            0
        }
    }

    /// The entity of a row of the current batch.
    pub fn entity<'a>(&self, world: &'a World, row: usize) -> (e: EntityView<'a>)
        requires
            row < self.count_spec(),
        ensures
            e.world == world,
            e.id.0 == self.current().entities@[row as int],
    {
        EntityView { world, id: Entity(self.batches[self.cursor - 1].entities[row]) }
    }

    /// Locks a table against structural change while its rows are walked.
    pub fn table_lock(&mut self, table: u64)
        ensures
            final(self).locked@ == old(self).locked@.push(table),
            final(self).event == old(self).event,
            final(self).event_id == old(self).event_id,
            final(self).param == old(self).param,
            final(self).batches == old(self).batches,
            final(self).cursor == old(self).cursor,
    {
        self.locked.push(table);
    }

    /// Releases the innermost lock.
    pub fn table_unlock(&mut self)
        ensures
            old(self).locked@.len() > 0 ==> final(self).locked@ == old(self).locked@.drop_last(),
            old(self).locked@.len() == 0 ==> final(self).locked@ == old(self).locked@,
            final(self).event == old(self).event,
            final(self).event_id == old(self).event_id,
            final(self).param == old(self).param,
            final(self).batches == old(self).batches,
            final(self).cursor == old(self).cursor,
    {
        let _ = self.locked.pop();
    }
}

} // verus!
