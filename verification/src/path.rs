//! Names, hierarchical paths, and looking entities up by path.

use vstd::prelude::*;
use vstd::slice::slice_subrange;
use crate::id::{ECS_ANY, ECS_CHILD_OF, ECS_ENTITY_MASK, ECS_WILDCARD};
use crate::text::bytes_eq;
use crate::id::ecs_pair;
use crate::state::{EntityState, MAX_ENTITIES};
use crate::world::{EntityRecord, Slot, World};

verus! {

/// Appends the decimal digits of `n` to `buf`.
pub fn append_decimal(n: u64, buf: &mut Vec<u8>)
    ensures
        final(buf)@ == old(buf)@ + crate::state::decimal(n as nat),
    decreases n,
{
    if n < 10 {
        buf.push(48u8 + n as u8);
        assert(buf@ =~= old(buf)@ + crate::state::decimal(n as nat));
    } else {
        append_decimal(n / 10, buf);
        buf.push(48u8 + (n % 10) as u8);
        assert(buf@ =~= old(buf)@ + crate::state::decimal(n as nat));
    }
}

/// Appends a byte string to `buf`.
pub fn append_bytes(buf: &mut Vec<u8>, bytes: &[u8])
    ensures
        final(buf)@ == old(buf)@ + bytes@,
{
    let mut i: usize = 0;
    while i < bytes.len()
        invariant
            i <= bytes.len(),
            buf@ == old(buf)@ + bytes@.take(i as int),
        decreases bytes.len() - i,
    {
        buf.push(bytes[i]);
        assert(bytes@.take(i + 1) =~= bytes@.take(i as int).push(bytes@[i as int]));
        assert(old(buf)@ + bytes@.take(i + 1) =~= (old(buf)@ + bytes@.take(i as int)).push(bytes@[i as int]));
        i += 1;
    }
    assert(bytes@.take(bytes.len() as int) =~= bytes@);
}

/// Whether `path` holds `sep` at position `at`.
pub fn holds_at(path: &[u8], sep: &[u8], at: usize) -> (r: bool)
    ensures
        r == crate::state::holds_at(path@, sep@, at as int),
{
    if sep.len() > path.len() || at > path.len() - sep.len() {
        return false;
    }
    bytes_eq(slice_subrange(path, at, at + sep.len()), sep)
}

/// Position of the first occurrence of `sep` in `path` at or after `from`.
pub fn find_sep(path: &[u8], sep: &[u8], from: usize) -> (r: Option<usize>)
    ensures
        match r {
            Some(i) => i as int == crate::state::find_sep(path@, sep@, from as int) && from <= i
                && i + sep@.len()
                <= path@.len() && sep@.len() > 0,
            None => crate::state::find_sep(path@, sep@, from as int) == -1,
        },
{
    if sep.len() == 0 || sep.len() > path.len() {
        return None;
    }
    let last: usize = path.len() - sep.len();
    let mut i: usize = from;
    while i <= last
        invariant
            from <= i,
            sep@.len() > 0,
            last == path@.len() - sep@.len(),
            last < path.len(),
            crate::state::find_sep(path@, sep@, from as int) == crate::state::find_sep(path@, sep@, i as int),
        decreases last + 1 - i,
    {
        if holds_at(path, sep, i) {
            return Some(i);
        }
        i += 1;
    }
    None
}

/// The separator between the elements of a path: two colons.
pub fn separator() -> (sep: Vec<u8>)
    ensures
        sep@ == crate::state::separator(),
{
    let mut sep: Vec<u8> = Vec::new();
    sep.push(58u8);
    sep.push(58u8);
    assert(sep@ =~= crate::state::separator());
    sep
}

impl World {
    /// Creates an entity with a name as a child of `parent`, or as a root
    /// when `parent` is 0.
    pub fn entity_new_named(&mut self, parent: u64, name: &[u8]) -> (e: u64)
        requires
            old(self).wf(),
            old(self)@.entities.len() < MAX_ENTITIES,
        ensures
            final(self).wf(),
            e == old(self)@.entities.len(),
            final(self)@ == old(self)@.with_new(EntityState::named(parent, name@)),
    {
        proof {
            self.view_entities();
        }
        let e: u64 = self.records.len() as u64;
        let mut rec = EntityRecord::fresh();
        rec.name = crate::text::bytes_to_vec(name);
        if parent != 0 {
            rec.slots.push(Slot { id: ecs_pair(ECS_CHILD_OF, parent), value: Vec::new(), enabled: true });
        }
        proof {
            rec.view_slots();
            assert(rec@.slots =~= EntityState::named(parent, name@).slots);
        }
        self.records.push(rec);
        proof {
            self.view_entities();
            assert(self@.entities =~= old(self)@.with_new(EntityState::named(parent, name@)).entities);
        }
        e
    }

    /// Makes the entities that the rest of `path` from `pos` names below
    /// `parent` exist, and returns the last of them; 0 for an empty element.
    pub fn ensure_path(&mut self, parent: u64, path: &[u8], sep: &[u8], pos: usize) -> (e: u64)
        requires
            old(self).wf(),
            old(self)@.entities.len() + path@.len() <= MAX_ENTITIES,
        ensures
            final(self).wf(),
            final(self)@ == old(self)@.ensure_path(parent, path@, sep@, pos as int),
            e == old(self)@.ensured(parent, path@, sep@, pos as int),
    {
        let mut cur: u64 = parent;
        let mut at: usize = pos;
        loop
            invariant
                self.wf(),
                at <= path@.len() ==> self@.entities.len() + (path@.len() - at) <= MAX_ENTITIES,
                old(self)@.ensure_path(parent, path@, sep@, pos as int) == self@.ensure_path(
                    cur,
                    path@,
                    sep@,
                    at as int,
                ),
                old(self)@.ensured(parent, path@, sep@, pos as int) == self@.ensured(cur, path@, sep@,
                    at as int),
            decreases path@.len() - at,
        {
            if at >= path.len() {
                return 0;
            }
            let (end, last): (usize, bool) = match find_sep(path, sep, at) {
                Some(i) => (i, false),
                None => (path.len(), true),
            };
            if end <= at {
                return 0;
            }
            let name = slice_subrange(path, at, end);
            let found: u64 = self.child_named(cur, name);
            let child: u64 = if found != 0 {
                found
            } else {
                self.entity_new_named(cur, name)
            };
            if last {
                return child;
            }
            assert(end + sep.len() <= path.len());
            cur = child;
            at = end + sep.len();
        }
    }

    /// Gives `e` a name, or takes it away with an empty one. Says whether
    /// `e` is alive.
    pub fn set_name(&mut self, e: u64, name: &[u8]) -> (done: bool)
        requires
            old(self).wf(),
        ensures
            final(self).wf(),
            done == old(self)@.valid(e),
            done ==> final(self)@ == old(self)@.with_entity(
                e,
                crate::state::EntityState { name: name@, ..old(self)@.entity(e) },
            ),
            !done ==> final(self)@ == old(self)@,
    {
        if !self.is_alive(e) {
            return false;
        }
        proof {
            self.view_entities();
            self.records@[e as int].view_slots();
        }
        let k: usize = e as usize;
        self.records[k].name = crate::text::bytes_to_vec(name);
        proof {
            self.view_entities();
            self.records@[e as int].view_slots();
            assert(self.records@[e as int]@.slots =~= old(self)@.entity(e).slots);
            assert(self@.entities =~= old(self)@.with_entity(
                e,
                crate::state::EntityState { name: name@, ..old(self)@.entity(e) },
            ).entities);
        }
        true
    }

    /// Gives `e` a symbol. Says whether `e` is alive.
    pub fn set_symbol(&mut self, e: u64, symbol: &[u8]) -> (done: bool)
        requires
            old(self).wf(),
        ensures
            final(self).wf(),
            done == old(self)@.valid(e),
            done ==> final(self)@ == old(self)@.with_entity(
                e,
                crate::state::EntityState { symbol: symbol@, ..old(self)@.entity(e) },
            ),
            !done ==> final(self)@ == old(self)@,
    {
        if !self.is_alive(e) {
            return false;
        }
        proof {
            self.view_entities();
            self.records@[e as int].view_slots();
        }
        let k: usize = e as usize;
        self.records[k].symbol = crate::text::bytes_to_vec(symbol);
        proof {
            self.view_entities();
            self.records@[e as int].view_slots();
            assert(self.records@[e as int]@.slots =~= old(self)@.entity(e).slots);
            assert(self@.entities =~= old(self)@.with_entity(
                e,
                crate::state::EntityState { symbol: symbol@, ..old(self)@.entity(e) },
            ).entities);
        }
        true
    }

    /// Appends the text that stands for `e` in a path.
    pub fn append_label(&self, e: u64, buf: &mut Vec<u8>)
        ensures
            final(buf)@ == old(buf)@ + self@.label(e),
    {
        let name = self.name_of(e);
        if name.len() > 0 {
            append_bytes(buf, name);
        } else {
            append_decimal(e & ECS_ENTITY_MASK, buf);
        }
    }

    /// Appends the path of `child` below `parent`, naming at most `fuel`
    /// ancestors.
    pub fn path_append(&self, parent: u64, child: u64, sep: &[u8], prefix: &[u8], fuel: usize,
        buf: &mut Vec<u8>)
        ensures
            final(buf)@ == old(buf)@ + self@.path_below(parent, child, sep@, prefix@, fuel as nat),
        decreases fuel,
    {
        if self.is_alive(child) {
            let cur: u64 = self.up(child, ECS_CHILD_OF);
            if cur == 0 {
                append_bytes(buf, prefix);
            } else if cur != parent && fuel > 0 {
                self.path_append(parent, cur, sep, prefix, fuel - 1, buf);
                append_bytes(buf, sep);
            }
        }
        self.append_label(child, buf);
        assert(buf@ =~= old(buf)@ + self@.path_below(parent, child, sep@, prefix@, fuel as nat));
    }

    /// The path of `child` relative to `parent`.
    pub fn path(&self, parent: u64, child: u64, sep: &[u8], prefix: &[u8]) -> (path: Vec<u8>)
        ensures
            path@ == self@.path(parent, child, sep@, prefix@),
    {
        let mut buf: Vec<u8> = Vec::new();
        if child == ECS_WILDCARD {
            buf.push(42u8);
            assert(buf@ =~= seq![42u8]);
        } else if child == ECS_ANY {
            buf.push(95u8);
            assert(buf@ =~= seq![95u8]);
        } else if child == 0 || parent != child {
            self.path_append(parent, child, sep, prefix, self.count(), &mut buf);
            assert(buf@ =~= self@.path(parent, child, sep@, prefix@));
        }
        buf
    }

    /// The text that stands for an id.
    pub fn id_text(&self, id: u64) -> (text: Vec<u8>)
        ensures
            text@ == self@.id_text(id),
    {
        let mut dot: Vec<u8> = Vec::new();
        dot.push(46u8);
        assert(dot@ =~= seq![46u8]);
        let none: Vec<u8> = Vec::new();
        assert(none@ =~= Seq::<u8>::empty());
        if crate::id::ecs_is_pair(id) {
            let mut text: Vec<u8> = Vec::new();
            text.push(40u8);
            let first = self.path(0, crate::id::ecs_first(id), dot.as_slice(), none.as_slice());
            append_bytes(&mut text, first.as_slice());
            text.push(44u8);
            let second = self.path(0, crate::id::ecs_second(id), dot.as_slice(), none.as_slice());
            append_bytes(&mut text, second.as_slice());
            text.push(41u8);
            assert(text@ =~= self@.id_text(id));
            text
        } else {
            self.path(0, id, dot.as_slice(), none.as_slice())
        }
    }

    /// The text that stands for a list of ids.
    pub fn type_text(&self, ids: &[u64]) -> (text: Vec<u8>)
        ensures
            text@ == self@.type_text(ids@, ids@.len() as int),
    {
        let mut text: Vec<u8> = Vec::new();
        let mut k: usize = 0;
        while k < ids.len()
            invariant
                k <= ids.len(),
                text@ == self@.type_text(ids@, k as int),
            decreases ids.len() - k,
        {
            if k > 0 {
                text.push(44u8);
                text.push(32u8);
            }
            let one = self.id_text(ids[k]);
            append_bytes(&mut text, one.as_slice());
            assert(text@ =~= self@.type_text(ids@, k + 1));
            k += 1;
        }
        text
    }

    /// The text that an entity is shown as.
    pub fn display_text(&self, e: u64) -> (text: Vec<u8>)
        ensures
            text@ == self@.display_text(e),
    {
        let name = self.name_of(e);
        let mut text: Vec<u8> = Vec::new();
        if name.len() > 0 {
            append_bytes(&mut text, name);
        } else {
            append_decimal(e, &mut text);
        }
        assert(text@ =~= self@.display_text(e));
        text
    }

    /// The first live child of `parent` with the name; 0 when there is none.
    pub fn child_named(&self, parent: u64, name: &[u8]) -> (e: u64)
        ensures
            e == self@.child_named(parent, name@, 0),
    {
        if name.len() == 0 {
            return 0;
        }
        let mut i: usize = 0;
        proof {
            self.view_entities();
        }
        while i < self.records.len()
            invariant
                i <= self.records.len(),
                name@.len() > 0,
                self@.entities.len() == self.records.len(),
                self@.child_named(parent, name@, 0) == self@.child_named(parent, name@, i as int),
            decreases self.records.len() - i,
        {
            let e: u64 = i as u64;
            if self.is_alive(e) && bytes_eq(self.name_of(e), name) && self.up(e, ECS_CHILD_OF) == parent {
                return e;
            }
            i += 1;
        }
        0
    }

    /// The entity that the rest of `path` from position `pos` names below
    /// `parent`.
    pub fn resolve(&self, parent: u64, path: &[u8], sep: &[u8], pos: usize) -> (e: u64)
        ensures
            e == self@.resolve(parent, path@, sep@, pos as int),
    {
        if pos > path.len() {
            return 0;
        }
        let mut cur: u64 = parent;
        let mut at: usize = pos;
        loop
            invariant
                at <= path@.len(),
                self@.resolve(parent, path@, sep@, pos as int) == self@.resolve(cur, path@, sep@, at as int),
            decreases path@.len() - at,
        {
            match find_sep(path, sep, at) {
                None => {
                    return self.child_named(cur, slice_subrange(path, at, path.len()));
                },
                Some(i) => {
                    let head: u64 = self.child_named(cur, slice_subrange(path, at, i));
                    if head == 0 {
                        return 0;
                    }
                    cur = head;
                    assert(i + sep.len() <= path.len());
                    at = i + sep.len();
                },
            }
        }
    }

    /// The entity that `path` names below `parent` or, when `search` is set,
    /// below the nearest ancestor of `parent` where it names one.
    pub fn lookup_from(&self, parent: u64, path: &[u8], sep: &[u8], pos: usize, search: bool) -> (e: u64)
        ensures
            e == self@.lookup_from(parent, path@, sep@, pos as int, search, self@.entities.len()),
    {
        let mut cur: u64 = parent;
        let mut fuel: usize = self.count();
        loop
            invariant
                self@.lookup_from(parent, path@, sep@, pos as int, search, self@.entities.len())
                    == self@.lookup_from(cur, path@, sep@, pos as int, search, fuel as nat),
            decreases fuel,
        {
            let found: u64 = self.resolve(cur, path, sep, pos);
            if found != 0 || !search || cur == 0 || fuel == 0 {
                return found;
            }
            cur = self.up(cur, ECS_CHILD_OF);
            fuel -= 1;
        }
    }

    /// The entity that `path` names as seen from `parent`.
    pub fn lookup_path(&self, parent: u64, path: &[u8], sep: &[u8], prefix: &[u8], search: bool) -> (e: u64)
        ensures
            e == self@.lookup(parent, path@, sep@, prefix@, search),
    {
        if prefix.len() > 0 && holds_at(path, prefix, 0) {
            self.lookup_from(0, path, sep, prefix.len(), search)
        } else {
            self.lookup_from(parent, path, sep, 0, search)
        }
    }
}

} // verus!
