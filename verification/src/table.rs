//! The type of an entity and the table it is stored in.

use vstd::prelude::*;
use crate::world::World;

verus! {

/// The ordered ids of an entity: its type.
pub struct Archetype<'a> {
    pub world: &'a World,
    pub ids: Vec<u64>,
}

impl<'a> Archetype<'a> {
    /// An archetype of the given ids.
    pub fn new(world: &'a World, ids: Vec<u64>) -> (a: Self)
        ensures
            a.world == world,
            a.ids == ids,
    {
        Archetype { world, ids }
    }

    /// The ids in order.
    pub fn as_slice(&self) -> (s: &[u64])
        ensures
            s@ == self.ids@,
    {
        self.ids.as_slice()
    }

    /// The text that stands for the type: the texts of its ids with a comma
    /// and a space between them.
    pub fn to_bytes(&self) -> (text: Vec<u8>)
        ensures
            text@ == self.world@.type_text(self.ids@, self.ids@.len() as int),
    {
        self.world.type_text(self.ids.as_slice())
    }

    /// The text that stands for the type, as a string; nothing for a type
    /// without ids, or when the text is not valid UTF-8.
    pub fn to_string(&self) -> (r: Option<String>)
        ensures
            r is Some == (self.ids@.len() > 0 && vstd::utf8::valid_utf8(
                self.world@.type_text(self.ids@, self.ids@.len() as int),
            )),
            r matches Some(s) ==> s@ == vstd::utf8::decode_utf8(
                self.world@.type_text(self.ids@, self.ids@.len() as int),
            ),
    {
        if self.ids.len() == 0 {
            None
        } else {
            crate::text::string_from_utf8(self.to_bytes())
        }
    }

    /// Number of ids.
    pub fn count(&self) -> (n: usize)
        ensures
            n == self.ids@.len(),
    {
        self.ids.len()
    }
}

/// The table of an entity: the store shared by the entities of one type.
pub struct Table<'a> {
    pub world: &'a World,
    pub ids: Vec<u64>,
}

impl<'a> Table<'a> {
    /// The table of the entities with the given type.
    pub fn new(world: &'a World, ids: Vec<u64>) -> (t: Self)
        ensures
            t.world == world,
            t.ids == ids,
    {
        Table { world, ids }
    }

    /// The type of the entities in the table.
    pub fn archetype(self) -> (a: Archetype<'a>)
        ensures
            a.world == self.world,
            a.ids == self.ids,
    {
        Archetype { world: self.world, ids: self.ids }
    }
}

/// A run of rows in a table.
pub struct TableRange<'a> {
    pub table: Table<'a>,
    pub offset: usize,
    pub count: usize,
}

impl<'a> TableRange<'a> {
    /// The rows `offset .. offset + count` of `table`.
    pub fn new(table: Table<'a>, offset: usize, count: usize) -> (r: Self)
        ensures
            r.table == table,
            r.offset == offset,
            r.count == count,
    {
        TableRange { table, offset, count }
    }
}

} // verus!
