//! Facts about worlds that hold whatever was done to them.

use vstd::prelude::*;
use crate::state::{EntityState, SlotState, WorldState};
use crate::term::Term;

verus! {

/// Replacing a value keeps every id where it is: what a pattern finds
/// before, it finds after.
pub proof fn with_value_keeps_search(s: EntityState, i: int, value: Seq<u8>, pattern: u64, from: int)
    requires
        0 <= i < s.slots.len(),
        0 <= from,
    ensures
        s.with_value(i, value).search(pattern, from) == s.search(pattern, from),
    decreases s.slots.len() - from,
{
    if from < s.slots.len() {
        assert(s.with_value(i, value).slots[from].id == s.slots[from].id);
        if !crate::id::id_match_spec(s.slots[from].id, pattern) {
            with_value_keeps_search(s, i, value, pattern, from + 1);
        }
    }
}

/// An id that was added is held.
pub proof fn add_then_owns(w: WorldState, e: u64, id: u64)
    requires
        w.wf(),
        w.can_add(e, id),
    ensures
        w.added(e, id).valid(e),
        w.added(e, id).entity(e).owns(id),
{
    w.entity(e).with_slot_owns(
        SlotState { id, value: Seq::new(w.id_size(id) as nat, |k: int| 0u8), enabled: true },
    );
}

/// A value that was set is the value that is read.
pub proof fn set_then_get(w: WorldState, e: u64, id: u64, value: Seq<u8>)
    requires
        w.wf(),
        w.can_set(e, id, value),
        value.len() > 0,
    ensures
        w.set(e, id, value).valid(e),
        w.set(e, id, value).entity(e).value(id) == Some(value),
        w.set(e, id, value).get(e, id) == Some(value),
{
    let a = w.added(e, id);
    if w.can_add(e, id) {
        add_then_owns(w, e, id);
    }
    assert(a.valid(e));
    assert(a.entity(e).owns(id));
    let s = a.entity(e);
    let i = s.search(id, 0);
    s.search_is_first(id, 0);
    with_value_keeps_search(s, i, value, id, 0);
    let after = w.set(e, id, value);
    assert(after.entity(e) == s.with_value(i, value));
    assert(after.entity(e).slots[i].value == value);
    assert(after.entity(e).owns(id));
    assert(after.holder(e, crate::id::ECS_IS_A, id, after.entities.len()) == e);
}

/// Setting a value changes no other entity.
pub proof fn set_keeps_others(w: WorldState, e: u64, id: u64, value: Seq<u8>, other: u64)
    requires
        w.wf(),
        other != e,
    ensures
        w.set(e, id, value).entity(other) == w.entity(other),
{
}

/// An id that was taken from an entity is held no longer, and has no value
/// there: taking it a second time finds nothing and leaves the world as it
/// is. An entity that inherits from no other then does not have the id, and
/// a read of it gives nothing.
pub proof fn removed_is_gone(w: WorldState, e: u64, id: u64)
    requires
        w.wf(),
        crate::id::is_exact_spec(id),
    ensures
        !w.removed(e, id).entity(e).owns(id),
        w.removed(e, id).entity(e).value(id) is None,
        w.removed(e, id).removed(e, id) == w.removed(e, id),
        w.removed(e, id).up(e, crate::id::ECS_IS_A) == 0 ==> !w.removed(e, id).has(e, id) && w.removed(e, id).get(
            e,
            id,
        ) is None,
{
    let after = w.removed(e, id);
    assert(after.up(e, crate::id::ECS_IS_A) == 0 && !after.entity(e).owns(id) ==> after.provider(e, id) == 0) by {
        if after.valid(e) && !after.entity(e).owns(id) && after.up(e, crate::id::ECS_IS_A) == 0 {
            assert(after.holder(0, crate::id::ECS_IS_A, id, (after.entities.len() - 1) as nat) == 0);
        }
    }
    let s = w.entity(e);
    if s.owns(id) {
        let i = s.search(id, 0);
        s.search_is_first(id, 0);
        crate::id::exact_matches_itself_only(id, s.slots[i].id);
        assert(w.valid(e));
        assert(w.entities[e as int].unique());
        let t = s.without_slot(i);
        assert(w.removed(e, id).entity(e) == t);
        t.search_is_first(id, 0);
        if t.search(id, 0) >= 0 {
            let j = t.search(id, 0);
            crate::id::exact_matches_itself_only(id, t.slots[j].id);
            let j0 = if j < i {
                j
            } else {
                j + 1
            };
            assert(t.slots[j] == s.slots[j0]);
            assert(s.slots[i].id == s.slots[j0].id);
        }
    }
}

/// The pair of two ids that are no wildcards matches itself and nothing
/// else.
pub proof fn pair_matches_itself_only(a: u64, b: u64, x: u64)
    requires
        crate::id::valid_first(a),
        crate::id::valid_second(b),
        !crate::id::is_wild_spec(a),
        !crate::id::is_wild_spec(b),
    ensures
        crate::id::id_match_spec(x, crate::id::pair_spec(a, b)) <==> x == crate::id::pair_spec(a, b),
{
    crate::id::pair_decodes(a, b);
}

/// What a pattern that matches only itself finds on an entity that holds
/// every id once: the pattern once if the entity holds it at or after
/// `from`, else nothing.
pub proof fn matching_of_exact(s: EntityState, p: u64, from: int)
    requires
        s.unique(),
        0 <= from,
        forall|x: u64| crate::id::id_match_spec(x, p) <==> x == p,
    ensures
        s.matching_from(p, from) == (if exists|k: int| from <= k < s.slots.len() && (#[trigger] s.slots[k]).id == p {
            seq![p]
        } else {
            Seq::<u64>::empty()
        }),
    decreases s.slots.len() - from,
{
    if from < s.slots.len() {
        matching_of_exact(s, p, from + 1);
        if s.slots[from].id == p {
            assert(!(exists|k: int| from + 1 <= k < s.slots.len() && (#[trigger] s.slots[k]).id == p)) by {
                if exists|k: int| from + 1 <= k < s.slots.len() && (#[trigger] s.slots[k]).id == p {
                    let k = choose|k: int| from + 1 <= k < s.slots.len() && (#[trigger] s.slots[k]).id == p;
                    assert(s.slots[from].id != s.slots[k].id);
                }
            }
            assert(s.matching_from(p, from) =~= seq![p]);
        } else {
            assert((exists|k: int| from <= k < s.slots.len() && (#[trigger] s.slots[k]).id == p) == (exists|k: int|
                from + 1 <= k < s.slots.len() && (#[trigger] s.slots[k]).id == p));
        }
    }
}

/// For a pair that an entity holds, of two ids that are no wildcards, the
/// walk over the ids that the pair matches hands over exactly one id: the
/// pair itself, which carries the pair bit and decodes to the two ids.
pub proof fn held_pair_is_handed_once(w: WorldState, e: u64, a: u64, b: u64)
    requires
        w.wf(),
        crate::id::valid_first(a),
        crate::id::valid_second(b),
        !crate::id::is_wild_spec(a),
        !crate::id::is_wild_spec(b),
        w.entity(e).holds(crate::id::pair_spec(a, b)),
    ensures
        w.entity(e).matching(crate::state::pair_pattern(a, b)) == seq![crate::id::pair_spec(a, b)],
        crate::id::is_pair_spec(crate::id::pair_spec(a, b)),
        crate::id::first_spec(crate::id::pair_spec(a, b)) == a,
        crate::id::second_spec(crate::id::pair_spec(a, b)) == b,
{
    let p = crate::id::pair_spec(a, b);
    crate::id::pair_decodes(a, b);
    assert forall|x: u64| crate::id::id_match_spec(x, p) <==> x == p by {
        pair_matches_itself_only(a, b, x);
    }
    let s = w.entity(e);
    assert(w.valid(e));
    assert(w.entities[e as int].unique());
    matching_of_exact(s, p, 0);
    let k = choose|k: int| 0 <= k < s.slots.len() && (#[trigger] s.slots[k]).id == p;
    assert(0 <= k < s.slots.len() && s.slots[k].id == p);
}

/// A query visits every live entity for which all its terms hold.
pub proof fn matches_complete(w: WorldState, terms: Seq<Term>, from: int, e: u64)
    requires
        w.wf(),
        0 <= from <= e,
        w.valid(e),
        w.terms_hold(terms, e),
    ensures
        w.matches_from(terms, from).contains(e),
    decreases w.entities.len() - from,
{
    if from < e {
        matches_complete(w, terms, from + 1, e);
        let rest = w.matches_from(terms, from + 1);
        let k = choose|k: int| 0 <= k < rest.len() && rest[k] == e;
        if w.valid(from as u64) && w.terms_hold(terms, from as u64) {
            assert((seq![from as u64] + rest)[k + 1] == e);
        }
    } else {
        let rest = w.matches_from(terms, from + 1);
        assert((seq![e] + rest)[0] == e);
    }
}

/// A query visits entities in the order they were created: by ascending
/// identifier, each once.
pub proof fn matches_ascending(w: WorldState, terms: Seq<Term>, from: int, i: int, j: int)
    requires
        w.wf(),
        0 <= from,
        0 <= i < j < w.matches_from(terms, from).len(),
    ensures
        w.matches_from(terms, from)[i] < w.matches_from(terms, from)[j],
    decreases w.entities.len() - from,
{
    if from < w.entities.len() {
        let rest = w.matches_from(terms, from + 1);
        if w.valid(from as u64) && w.terms_hold(terms, from as u64) {
            assert(w.matches_from(terms, from) == seq![from as u64] + rest);
            assert((seq![from as u64] + rest)[j] == rest[j - 1]);
            if i == 0 {
                assert((seq![from as u64] + rest)[0] == from as u64);
                w.matches_hold(terms, from + 1, j - 1);
            } else {
                assert((seq![from as u64] + rest)[i] == rest[i - 1]);
                matches_ascending(w, terms, from + 1, i - 1, j - 1);
            }
        } else {
            matches_ascending(w, terms, from + 1, i, j);
        }
    }
}

} // verus!
