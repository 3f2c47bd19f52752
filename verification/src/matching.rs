//! Matching terms against the world and gathering the values of the
//! entities that match.

use vstd::prelude::*;
use crate::component::ComponentInfo;
use crate::id::ecs_is_wild;
use crate::state::WorldState;
use crate::table_iter::{Batch, Column};
use crate::term::{Access, Term};
use crate::text::bytes_to_vec;
use crate::world::World;

verus! {

impl Batch {
    /// Whether the batch holds what the terms read in the world on the given
    /// rows: the rows and the sources as given, and one column for each term
    /// with data, with the bytes that term reads, the size registered for
    /// its id, shared if the term has a fixed source, and writable if the
    /// term writes and the column is not shared.
    pub open spec fn reads(&self, w: WorldState, terms: Seq<Term>, entities: Seq<u64>) -> bool {
        &&& self.table == 0
        &&& self.entities@ == entities
        &&& self.sources@ == Seq::new(terms.len(), |k: int| terms[k].source)
        &&& self.columns@.len() == crate::state::data_terms(terms).len()
        &&& forall|c: int|
            0 <= c < self.columns@.len() ==> (#[trigger] self.columns@[c]).data@ == w.column_bytes(
                crate::state::data_terms(terms)[c],
                entities,
            ) && self.columns@[c].size == w.id_size(crate::state::data_terms(terms)[c].id)
                && self.columns@[c].id == crate::state::data_terms(terms)[c].id
                    && self.columns@[c].is_ref == (crate::state::data_terms(terms)[c].source != 0)
                && self.columns@[c].writable == (crate::state::data_terms(terms)[c].access == Access::Write
                && crate::state::data_terms(terms)[c].source == 0)
    }
}

impl WorldState {
    /// The world after `value` was stored for `id` on `e`; unchanged when
    /// `e` does not itself hold the id.
    pub open spec fn stored_value(self, e: u64, id: u64, value: Seq<u8>) -> WorldState {
        if self.entity(e).owns(id) {
            self.with_entity(e, self.entity(e).with_value(self.entity(e).search(id, 0), value))
        } else {
            self
        }
    }

    /// The world after the values of the first `upto` rows of a column were
    /// stored on the entities of those rows.
    pub open spec fn scatter_rows(self, column: Column, entities: Seq<u64>, upto: int) -> WorldState
        decreases upto,
    {
        if upto <= 0 {
            self
        } else {
            self.scatter_rows(column, entities, upto - 1).stored_value(
                entities[upto - 1],
                column.id,
                column.row(upto - 1),
            )
        }
    }

    /// The world after the values of the first `upto` columns of a batch
    /// were stored on the entities of its rows. Only owned columns that
    /// take writes are stored.
    pub open spec fn scatter(self, batch: Batch, upto: int) -> WorldState
        decreases upto,
    {
        if upto <= 0 {
            self
        } else {
            let w = self.scatter(batch, upto - 1);
            let column = batch.columns@[upto - 1];
            if column.writable && !column.is_ref {
                w.scatter_rows(column, batch.entities@, batch.count())
            } else {
                w
            }
        }
    }

    /// What a query does to the world when its callback has turned the
    /// batch `before` that it read into `after`: the values of `after` are
    /// stored, if the batch passed its check.
    pub open spec fn after_each(self, before: Batch, after: Batch) -> WorldState {
        if before.valid() {
            self.scatter(after, after.columns@.len() as int)
        } else {
            self
        }
    }

    /// Storing a value keeps the world well formed, keeps every entity
    /// alive or not as it was, and keeps the ids of every entity.
    pub proof fn stored_value_keeps(self, e: u64, id: u64, value: Seq<u8>)
        requires
            self.wf(),
        ensures
            self.stored_value(e, id, value).wf(),
            self.stored_value(e, id, value).entities.len() == self.entities.len(),
            forall|x: u64| #[trigger] self.stored_value(e, id, value).valid(x) == self.valid(x),
            forall|x: u64| #[trigger] self.stored_value(e, id, value).entity(x).ids() == self.entity(x).ids(),
            forall|x: u64| x != e ==> #[trigger] self.stored_value(e, id, value).entity(x) == self.entity(x),
    {
        if self.entity(e).owns(id) {
            let i = self.entity(e).search(id, 0);
            self.entity(e).search_is_first(id, 0);
            let after = self.stored_value(e, id, value);
            assert(self.valid(e));
            assert forall|x: u64| #[trigger] after.entity(x).ids() == self.entity(x).ids() by {
                if x == e {
                    assert(after.entity(x).ids() =~= self.entity(x).ids());
                }
            }
        }
    }

    /// Storing the rows of a column changes no entity that is not among the
    /// rows, and the ids of none.
    pub proof fn scatter_rows_keeps(self, column: Column, entities: Seq<u64>, upto: int)
        requires
            self.wf(),
            upto <= entities.len(),
        ensures
            self.scatter_rows(column, entities, upto).wf(),
            self.scatter_rows(column, entities, upto).entities.len() == self.entities.len(),
            forall|x: u64| #[trigger] self.scatter_rows(column, entities, upto).valid(x) == self.valid(x),
            forall|x: u64| #[trigger]
                self.scatter_rows(column, entities, upto).entity(x).ids() == self.entity(x).ids(),
            forall|x: u64|
                !entities.contains(x) ==> #[trigger] self.scatter_rows(column, entities, upto).entity(x)
                    == self.entity(x),
        decreases upto,
    {
        if upto > 0 {
            let w = self.scatter_rows(column, entities, upto - 1);
            self.scatter_rows_keeps(column, entities, upto - 1);
            w.stored_value_keeps(entities[upto - 1], column.id, column.row(upto - 1));
            assert(entities.contains(entities[upto - 1]));
        }
    }

    /// What a query stores changes no entity that is not among the rows of
    /// the batch, and the ids of none.
    pub proof fn scatter_keeps(self, batch: Batch, upto: int)
        requires
            self.wf(),
            upto <= batch.columns@.len(),
        ensures
            self.scatter(batch, upto).wf(),
            self.scatter(batch, upto).entities.len() == self.entities.len(),
            forall|x: u64| #[trigger] self.scatter(batch, upto).valid(x) == self.valid(x),
            forall|x: u64| #[trigger] self.scatter(batch, upto).entity(x).ids() == self.entity(x).ids(),
            forall|x: u64|
                !batch.entities@.contains(x)
                    ==> #[trigger] self.scatter(batch, upto).entity(x) == self.entity(x),
        decreases upto,
    {
        if upto > 0 {
            let w = self.scatter(batch, upto - 1);
            self.scatter_keeps(batch, upto - 1);
            let column = batch.columns@[upto - 1];
            if column.writable && !column.is_ref {
                w.scatter_rows_keeps(column, batch.entities@, batch.count());
            }
        }
    }
}

impl World {
    /// Stores a value for `id` on `e`, if `e` itself holds the id. Nobody
    /// is told.
    pub fn store_value(&mut self, e: u64, id: u64, value: Vec<u8>)
        requires
            old(self).wf(),
        ensures
            final(self).wf(),
            final(self)@ == old(self)@.stored_value(e, id, value@),
    {
        match self.find(e, id) {
            Some(i) => {
                self.slot_write(e, i, value);
            },
            None => {},
        }
    }

    /// Stores the values of a batch on the entities of its rows: those of
    /// the owned columns that take writes.
    pub fn scatter(&mut self, batch: &Batch)
        requires
            old(self).wf(),
            batch.valid(),
        ensures
            final(self).wf(),
            final(self)@ == old(self)@.scatter(*batch, batch.columns@.len() as int),
    {
        let count: usize = batch.entities.len();
        let mut c: usize = 0;
        while c < batch.columns.len()
            invariant
                c <= batch.columns.len(),
                count == batch.entities@.len(),
                batch.valid(),
                self.wf(),
                self@ == old(self)@.scatter(*batch, c as int),
            decreases batch.columns.len() - c,
        {
            let column = &batch.columns[c];
            if column.writable && !column.is_ref {
                let ghost start = self@;
                let mut i: usize = 0;
                while i < count
                    invariant
                        i <= count,
                        count == batch.entities@.len(),
                        c < batch.columns.len(),
                        column == &batch.columns@[c as int],
                        column.valid(count as int),
                        self.wf(),
                        self@ == start.scatter_rows(*column, batch.entities@, i as int),
                    decreases count - i,
                {
                    let value = column.read(i, count);
                    self.store_value(batch.entities[i], column.id, value);
                    i += 1;
                }
            }
            c += 1;
        }
    }

    /// The description that the component `c` was registered with; nothing
    /// when `c` is no component.
    pub fn component_info(&self, c: u64) -> (info: Option<ComponentInfo>)
        ensures
            info == self@.info(c),
    {
        proof {
            self.view_entities();
        }
        if c == 0 || c >= self.records.len() as u64 {
            return None;
        }
        let rec = &self.records[c as usize];
        proof {
            rec.view_slots();
        }
        rec.info
    }

    /// The size registered for the component `c`.
    pub fn size_of(&self, c: u64) -> (size: usize)
        ensures
            size == self@.size(c),
    {
        proof {
            self.view_entities();
        }
        if c == 0 || c >= self.records.len() as u64 {
            return 0;
        }
        let rec = &self.records[c as usize];
        proof {
            rec.view_slots();
        }
        match rec.info {
            Some(info) => info.size,
            None => 0,
        }
    }

    /// The size of the value that an id carries.
    pub fn id_size(&self, id: u64) -> (size: usize)
        ensures
            size == self@.id_size(id),
    {
        if crate::id::ecs_is_pair(id) {
            let first: usize = self.size_of(crate::id::ecs_first(id));
            if first > 0 {
                first
            } else {
                self.size_of(crate::id::ecs_second(id))
            }
        } else {
            self.size_of(id)
        }
    }

    /// Whether a term holds for an entity.
    pub fn term_holds(&self, t: &Term, entity: u64) -> (r: bool)
        ensures
            r == self@.term_holds(*t, entity),
    {
        let subject: u64 = if t.source == 0 {
            entity
        } else {
            t.source
        };
        if ecs_is_wild(t.id) {
            subject == entity
        } else {
            self.has_id(subject, t.id)
        }
    }

    /// Whether all terms hold for an entity.
    pub fn terms_hold(&self, terms: &Vec<Term>, entity: u64) -> (r: bool)
        ensures
            r == self@.terms_hold(terms@, entity),
    {
        let mut k: usize = 0;
        while k < terms.len()
            invariant
                k <= terms.len(),
                forall|j: int| 0 <= j < k ==> self@.term_holds(#[trigger] terms@[j], entity),
            decreases terms.len() - k,
        {
            if !self.term_holds(&terms[k], entity) {
                return false;
            }
            k += 1;
        }
        true
    }

    /// The entities that a query with the given terms visits.
    pub fn matches(&self, terms: &Vec<Term>) -> (out: Vec<u64>)
        ensures
            out@ == self@.matches(terms@),
    {
        let mut out: Vec<u64> = Vec::new();
        if terms.len() == 0 {
            return out;
        }
        let mut i: usize = 0;
        proof {
            self.view_entities();
        }
        while i < self.records.len()
            invariant
                i <= self.records.len(),
                self@.entities.len() == self.records.len(),
                self@.matches_from(terms@, 0) == out@ + self@.matches_from(terms@, i as int),
            decreases self.records.len() - i,
        {
            let e: u64 = i as u64;
            if self.is_alive(e) && self.terms_hold(terms, e) {
                out.push(e);
                assert(out@ + self@.matches_from(terms@, i + 1) =~= out@.drop_last() + (seq![e]
                    + self@.matches_from(terms@, i + 1)));
            }
            i += 1;
        }
        assert(out@ + self@.matches_from(terms@, i as int) =~= out@);
        out
    }

    /// The bytes of the column of a term over the given rows.
    pub fn column_bytes(&self, t: &Term, entities: &Vec<u64>) -> (data: Vec<u8>)
        ensures
            data@ == self@.column_bytes(*t, entities@),
    {
        if t.source != 0 {
            return match self.get_id(t.source, t.id) {
                Some(v) => bytes_to_vec(v),
                None => Vec::new(),
            };
        }
        let mut data: Vec<u8> = Vec::new();
        let mut i: usize = 0;
        while i < entities.len()
            invariant
                i <= entities.len(),
                t.source == 0,
                data@ == self@.column_bytes(*t, entities@.take(i as int)),
            decreases entities.len() - i,
        {
            let ghost before = data@;
            match self.get_id(entities[i], t.id) {
                Some(v) => {
                    let mut k: usize = 0;
                    while k < v.len()
                        invariant
                            k <= v.len(),
                            data@ == before + v@.take(k as int),
                        decreases v.len() - k,
                    {
                        data.push(v[k]);
                        assert(v@.take(k + 1) =~= v@.take(k as int).push(v@[k as int]));
                        assert(before + v@.take(k + 1) =~= (before + v@.take(k as int)).push(v@[k as int]));
                        k += 1;
                    }
                    assert(v@.take(v.len() as int) =~= v@);
                },
                None => {
                    assert(data@ =~= before + Seq::<u8>::empty());
                },
            }
            proof {
                let next = entities@.take(i + 1);
                assert(next.drop_last() =~= entities@.take(i as int));
                assert(next.last() == entities@[i as int]);
            }
            i += 1;
        }
        assert(entities@.take(entities.len() as int) =~= entities@);
        data
    }

    /// Gathers what the terms read on the given rows into a batch.
    pub fn gather(&self, terms: &Vec<Term>, entities: Vec<u64>) -> (batch: Batch)
        ensures
            batch.reads(self@, terms@, entities@),
    {
        let mut sources: Vec<u64> = Vec::new();
        let mut columns: Vec<Column> = Vec::new();
        let mut k: usize = 0;
        while k < terms.len()
            invariant
                k <= terms.len(),
                sources@ == Seq::new(k as nat, |j: int| terms@[j].source),
                columns@.len() == crate::state::data_terms(terms@.take(k as int)).len(),
                forall|c: int|
                    0 <= c < columns@.len() ==> (#[trigger] columns@[c]).data@ == self@.column_bytes(
                        crate::state::data_terms(terms@.take(k as int))[c],
                        entities@,
                    ) && columns@[c].size
                        == self@.id_size(crate::state::data_terms(terms@.take(k as int))[c].id)
                        && columns@[c].id == crate::state::data_terms(terms@.take(k as int))[c].id
                        && columns@[c].is_ref == (crate::state::data_terms(terms@.take(k as int))[c].source
                        != 0) && columns@[c].writable == (crate::state::data_terms(
                        terms@.take(k as int),
                    )[c].access == Access::Write && crate::state::data_terms(terms@.take(k as int))[c].source
                        == 0),
            decreases terms.len() - k,
        {
            let t = terms[k];
            sources.push(t.source);
            proof {
                let next = terms@.take(k + 1);
                assert(next.drop_last() =~= terms@.take(k as int));
                assert(next.last() == t);
                assert(sources@ =~= Seq::new((k + 1) as nat, |j: int| terms@[j].source));
            }
            if t.carries_data() {
                let data = self.column_bytes(&t, &entities);
                let size: usize = self.id_size(t.id);
                let is_write: bool = match t.access {
                    Access::Write => true,
                    _ => false,
                };
                columns.push(
                    Column { id: t.id, data, size, is_ref: t.source != 0, writable: is_write
                        && t.source == 0 },
                );
            }
            k += 1;
        }
        assert(terms@.take(terms.len() as int) =~= terms@);
        Batch { table: 0, entities, sources, columns }
    }
}

} // verus!
