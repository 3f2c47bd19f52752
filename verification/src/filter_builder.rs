//! Building the ordered list of terms of a query or observer.

use vstd::prelude::*;
use crate::component::ComponentId;
use crate::state::WorldState;
use crate::term::{Access, Term};
use crate::world::World;

verus! {

/// The terms of a query or observer while they are put together. Terms are
/// kept in the order they were added: that order is the order of the values
/// that a callback is handed.
pub struct FilterBuilder {
    pub terms: Vec<Term>,
    pub term_index: usize,
}

impl FilterBuilder {
    /// A builder without terms.
    pub fn new() -> (b: Self)
        ensures
            b.terms@.len() == 0,
            b.term_index == 0,
    {
        FilterBuilder { terms: Vec::new(), term_index: 0 }
    }

    /// A builder that goes on from the given terms.
    pub fn new_with_desc(terms: Vec<Term>, term_index: usize) -> (b: Self)
        ensures
            b.terms == terms,
            b.term_index == term_index,
    {
        FilterBuilder { terms, term_index }
    }

    /// Appends a term.
    pub fn term(&mut self, t: Term)
        ensures
            final(self).terms@ == old(self).terms@.push(t),
            final(self).term_index == final(self).terms@.len(),
    {
        self.terms.push(t);
        self.term_index = self.terms.len();
    }

    /// Appends a term that only constrains matching on `id`.
    pub fn with_id(&mut self, id: u64)
        ensures
            final(self).terms@ == old(self).terms@.push(Term { id, source: 0, access: Access::Filter }),
            final(self).term_index == final(self).terms@.len(),
    {
        self.term(Term::with(id));
    }

    /// Appends a term that only constrains matching on the component `T`.
    pub fn with<T: ComponentId>(&mut self, world: &World)
        ensures
            final(self).terms@ == old(self).terms@.push(
                Term { id: world@.id_of(T::TYPE_KEY), source: 0, access: Access::Filter },
            ),
            final(self).term_index == final(self).terms@.len(),
    {
        self.term(Term::with(world.id_of::<T>()));
    }

    /// Fixes the entity that the last term is matched on.
    pub fn set_source(&mut self, source: u64)
        requires
            old(self).terms@.len() > 0,
        ensures
            final(self).terms@ == old(self).terms@.update(
                old(self).terms@.len() - 1,
                Term { source, ..old(self).terms@.last() },
            ),
            final(self).term_index == old(self).term_index,
    {
        let last: usize = self.terms.len() - 1;
        let t = self.terms[last];
        self.terms[last] = Term { id: t.id, source, access: t.access };
    }

    /// Number of terms added so far.
    pub fn get_term_index(&self) -> (n: usize)
        ensures
            n == self.term_index,
    {
        self.term_index
    }

    /// The term added last.
    pub fn current_term(&self) -> (t: Option<Term>)
        ensures
            t == (if self.terms@.len() > 0 {
                Some(self.terms@.last())
            } else {
                None
            }),
    {
        if self.terms.len() > 0 {
            Some(self.terms[self.terms.len() - 1])
        } else {
            None
        }
    }
}

/// A type that stands for the terms of a query or observer: a reference to
/// a component reads it, a mutable reference writes it, and a tuple stands
/// for the terms of its elements in order.
pub trait Iterable {
    /// The terms that the type stands for in a world.
    spec fn terms(w: WorldState) -> Seq<Term>;

    /// Appends the terms that the type stands for.
    fn populate(world: &World, filter: &mut FilterBuilder)
        ensures
            final(filter).terms@ == old(filter).terms@ + Self::terms(world@),
            final(filter).term_index == final(filter).terms@.len(),
    ;
}

impl<'x, A: ComponentId> Iterable for &'x A {
    open spec fn terms(w: WorldState) -> Seq<Term> {
        seq![Term { id: w.id_of(A::TYPE_KEY), source: 0, access: Access::Read }]
    }

    fn populate(world: &World, filter: &mut FilterBuilder) {
        filter.term(Term::read(world.id_of::<A>()));
        assert(filter.terms@ =~= old(filter).terms@ + Self::terms(world@));
    }
}

impl<'x, A: ComponentId> Iterable for &'x mut A {
    open spec fn terms(w: WorldState) -> Seq<Term> {
        seq![Term { id: w.id_of(A::TYPE_KEY), source: 0, access: Access::Write }]
    }

    fn populate(world: &World, filter: &mut FilterBuilder) {
        filter.term(Term::write(world.id_of::<A>()));
        assert(filter.terms@ =~= old(filter).terms@ + Self::terms(world@));
    }
}

impl<A: Iterable, B: Iterable> Iterable for (A, B) {
    open spec fn terms(w: WorldState) -> Seq<Term> {
        A::terms(w) + B::terms(w)
    }

    fn populate(world: &World, filter: &mut FilterBuilder) {
        A::populate(world, filter);
        B::populate(world, filter);
        assert(filter.terms@ =~= old(filter).terms@ + Self::terms(world@));
    }
}

impl<A: Iterable, B: Iterable, C: Iterable> Iterable for (A, B, C) {
    open spec fn terms(w: WorldState) -> Seq<Term> {
        A::terms(w) + B::terms(w) + C::terms(w)
    }

    fn populate(world: &World, filter: &mut FilterBuilder) {
        A::populate(world, filter);
        B::populate(world, filter);
        C::populate(world, filter);
        assert(filter.terms@ =~= old(filter).terms@ + Self::terms(world@));
    }
}

} // verus!
