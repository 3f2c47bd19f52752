//! What one iteration step hands to a callback: the rows of a batch of
//! entities, their columns of values, and the cursor that reads and writes
//! one row of them.

use vstd::prelude::*;

verus! {

/// The values of one term for the entities of a batch. An owned column
/// holds one value per row, back to back; a shared column holds the one
/// value that every row sees, and is not written.
pub struct Column {
    /// The id whose values the column holds.
    pub id: u64,
    pub data: Vec<u8>,
    pub size: usize,
    pub is_ref: bool,
    pub writable: bool,
}

impl Column {
    /// Whether the column holds what `count` rows need: one value of `size`
    /// bytes if it is shared, `count` values if it is owned.
    pub open spec fn valid(&self, count: int) -> bool {
        &&& self.is_ref ==> self.data@.len() == self.size
        &&& !self.is_ref ==> self.data@.len() == count * self.size
    }

    /// The value that row `row` sees.
    pub open spec fn row(&self, row: int) -> Seq<u8> {
        if self.is_ref {
            self.data@
        } else {
            self.data@.subrange(row * self.size, (row + 1) * self.size)
        }
    }

    /// The bytes of the column after `value` was stored for row `row`: the
    /// same, unless the column is owned and writable and the value has the
    /// column's size.
    pub open spec fn stored(&self, row: int, value: Seq<u8>) -> Seq<u8> {
        if self.writable && !self.is_ref && value.len() == self.size {
            self.data@.subrange(0, row * self.size) + value + self.data@.subrange(
                (row + 1) * self.size,
                self.data@.len() as int,
            )
        } else {
            self.data@
        }
    }

    /// The value that row `row` holds after `value` was stored for it.
    pub open spec fn taken(&self, row: int, value: Seq<u8>) -> Seq<u8> {
        if self.writable && !self.is_ref && value.len() == self.size {
            value
        } else {
            self.row(row)
        }
    }

    /// Storing a value for one row changes the value of that row, and of no
    /// other.
    pub proof fn stored_rows(&self, after: &Column, row: int, value: Seq<u8>, count: int, other: int)
        requires
            self.valid(count),
            0 <= row < count,
            0 <= other < count,
            after.data@ == self.stored(row, value),
            after.id == self.id,
            after.size == self.size,
            after.is_ref == self.is_ref,
            after.writable == self.writable,
        ensures
            after.valid(count),
            after.row(other) == (if other == row {
                self.taken(row, value)
            } else {
                self.row(other)
            }),
    {
        let size = self.size as int;
        row_in_bounds(row, count, size);
        row_in_bounds(other, count, size);
        if self.writable && !self.is_ref && value.len() == self.size {
            if other < row {
                assert((other + 1) * size <= row * size) by (nonlinear_arith)
                    requires
                        other + 1 <= row,
                        0 <= size,
                ;
            } else if other > row {
                assert((row + 1) * size <= other * size) by (nonlinear_arith)
                    requires
                        row + 1 <= other,
                        0 <= size,
                ;
            }
            assert(after.row(other) =~= (if other == row {
                self.taken(row, value)
            } else {
                self.row(other)
            }));
        }
    }

    /// Checks the column against a row count.
    pub fn validate(&self, count: usize) -> (r: bool)
        ensures
            r == self.valid(count as int),
    {
        if self.is_ref {
            self.data.len() == self.size
        } else {
            match count.checked_mul(self.size) {
                Some(total) => self.data.len() == total,
                None => {
                    assert(self.data.len() <= usize::MAX);
                    false
                },
            }
        }
    }

    /// Copies the value of one row out of the column.
    pub fn read(&self, row: usize, count: usize) -> (value: Vec<u8>)
        requires
            self.valid(count as int),
            row < count,
        ensures
            value@ == self.row(row as int),
            value@.len() == self.size,
    {
        let mut value: Vec<u8> = Vec::new();
        assert(self.data.len() == self.data@.len());
        let start: usize = if self.is_ref {
            0
        } else {
            proof {
                row_in_bounds(row as int, count as int, self.size as int);
            }
            row * self.size
        };
        let ghost want = self.row(row as int);
        assert(want.len() == self.size) by {
            row_in_bounds(row as int, count as int, self.size as int);
        }
        let mut k: usize = 0;
        while k < self.size
            invariant
                k <= self.size,
                start + self.size <= self.data@.len(),
                self.data.len() == self.data@.len(),
                value@.len() == k,
                want.len() == self.size,
                forall|j: int| 0 <= j < self.size ==> want[j] == self.data@[start + j],
                forall|j: int| 0 <= j < k ==> value@[j] == want[j],
            decreases self.size - k,
        {
            value.push(self.data[start + k]);
            k += 1;
        }
        assert(value@ =~= want);
        value
    }

    /// Stores a value for one row, if the column takes writes and the value
    /// has the column's size.
    pub fn write(&mut self, row: usize, count: usize, value: &Vec<u8>)
        requires
            old(self).valid(count as int),
            row < count,
        ensures
            final(self).data@ == old(self).stored(row as int, value@),
            final(self).id == old(self).id,
            final(self).size == old(self).size,
            final(self).is_ref == old(self).is_ref,
            final(self).writable == old(self).writable,
            final(self).valid(count as int),
    {
        if !self.writable || self.is_ref || value.len() != self.size {
            return;
        }
        proof {
            row_in_bounds(row as int, count as int, self.size as int);
        }
        assert(self.data.len() == self.data@.len());
        let start: usize = row * self.size;
        let ghost want = self.stored(row as int, value@);
        let ghost before = self.data@;
        let size: usize = self.size;
        let mut k: usize = 0;
        while k < size
            invariant
                k <= size,
                size == self.size,
                value@.len() == size,
                start + size <= before.len(),
                self.data@.len() == before.len(),
                self.data.len() == before.len(),
                self.id == old(self).id,
                self.is_ref == old(self).is_ref,
                self.writable == old(self).writable,
                forall|j: int| 0 <= j < start + k ==> self.data@[j] == want[j],
                forall|j: int| start + k <= j < before.len() ==> self.data@[j] == before[j],
                want.len() == before.len(),
                forall|j: int| 0 <= j < start ==> want[j] == before[j],
                forall|j: int| 0 <= j < size ==> want[start + j] == value@[j],
                forall|j: int| start + size <= j < before.len() ==> want[j] == before[j],
            decreases size - k,
        {
            self.data[start + k] = value[k];
            k += 1;
        }
        assert(self.data@ =~= want);
    }
}

/// Row `row` of `count` rows of `size` bytes lies inside `count * size` bytes.
pub proof fn row_in_bounds(row: int, count: int, size: int)
    requires
        0 <= row < count,
        0 <= size,
    ensures
        0 <= row * size,
        (row + 1) * size == row * size + size,
        (row + 1) * size <= count * size,
{
    assert(0 <= row * size) by (nonlinear_arith)
        requires
            0 <= row,
            0 <= size,
    ;
    assert((row + 1) * size == row * size + size) by (nonlinear_arith);
    assert((row + 1) * size <= count * size) by (nonlinear_arith)
        requires
            row + 1 <= count,
            0 <= size,
    ;
}

/// The values of one row, one for each column, as a callback sees them.
pub struct Row {
    pub fields: Vec<Vec<u8>>,
}

impl View for Row {
    type V = Seq<Seq<u8>>;

    open spec fn view(&self) -> Seq<Seq<u8>> {
        Seq::new(self.fields@.len(), |c: int| self.fields@[c]@)
    }
}

/// A batch of entities that an iteration visits in one step: its rows and
/// the columns of their values.
pub struct Batch {
    /// Identity of the table the rows are stored in.
    pub table: u64,
    /// The entity of each row.
    pub entities: Vec<u64>,
    /// For each term, the entity its value comes from; 0 for the row's own.
    pub sources: Vec<u64>,
    /// One column for each term that carries data.
    pub columns: Vec<Column>,
}

impl Batch {
    /// Number of rows.
    pub open spec fn count(&self) -> int {
        self.entities@.len() as int
    }

    /// Whether every column holds what the rows need.
    pub open spec fn valid(&self) -> bool {
        forall|c: int| 0 <= c < self.columns@.len() ==> (#[trigger] self.columns@[c]).valid(self.count())
    }

    /// The values of row `row`, one for each column.
    pub open spec fn row(&self, row: int) -> Seq<Seq<u8>> {
        Seq::new(self.columns@.len(), |c: int| self.columns@[c].row(row))
    }

    /// The bytes of every column after the values of `fields` were stored
    /// for row `row`. A row with another number of fields stores nothing.
    pub open spec fn stored(&self, row: int, fields: Seq<Seq<u8>>) -> Seq<Seq<u8>> {
        Seq::new(
            self.columns@.len(),
            |c: int|
                if fields.len() == self.columns@.len() {
                    self.columns@[c].stored(row, fields[c])
                } else {
                    self.columns@[c].data@
                },
        )
    }

    /// The bytes of every column.
    pub open spec fn data(&self) -> Seq<Seq<u8>> {
        Seq::new(self.columns@.len(), |c: int| self.columns@[c].data@)
    }

    /// The values that row `row` holds after the values of `fields` were
    /// stored for it.
    pub open spec fn merged(&self, row: int, fields: Seq<Seq<u8>>) -> Seq<Seq<u8>> {
        Seq::new(
            self.columns@.len(),
            |c: int|
                if fields.len() == self.columns@.len() {
                    self.columns@[c].taken(row, fields[c])
                } else {
                    self.columns@[c].row(row)
                },
        )
    }

    /// Whether `after` is this batch with other bytes in its columns.
    pub open spec fn same_shape(&self, after: &Batch) -> bool {
        &&& after.table == self.table
        &&& after.entities == self.entities
        &&& after.sources == self.sources
        &&& after.columns@.len() == self.columns@.len()
        &&& forall|c: int|
            0 <= c < self.columns@.len() ==> (#[trigger] after.columns@[c]).size == self.columns@[c].size
                && after.columns@[c].id == self.columns@[c].id && after.columns@[c].is_ref
                == self.columns@[c].is_ref && after.columns@[c].writable == self.columns@[c].writable
    }

    /// Storing the values of one row changes that row, and no other.
    pub proof fn stored_rows(&self, after: &Batch, row: int, fields: Seq<Seq<u8>>, other: int)
        requires
            self.valid(),
            0 <= row < self.count(),
            0 <= other < self.count(),
            self.same_shape(after),
            after.data() == self.stored(row, fields),
        ensures
            after.valid(),
            after.row(other) == (if other == row {
                self.merged(row, fields)
            } else {
                self.row(other)
            }),
    {
        assert forall|c: int| 0 <= c < self.columns@.len() implies (#[trigger] after.columns@[c]).valid(
            self.count(),
        ) && after.columns@[c].row(other) == (if other == row {
            self.merged(row, fields)[c]
        } else {
            self.row(other)[c]
        }) by {
            assert(after.data()[c] == self.stored(row, fields)[c]);
            if fields.len() == self.columns@.len() {
                self.columns@[c].stored_rows(&after.columns@[c], row, fields[c], self.count(), other);
            } else {
                assert(after.columns@[c].data@ == self.columns@[c].data@);
            }
        }
        assert(after.row(other) =~= (if other == row {
            self.merged(row, fields)
        } else {
            self.row(other)
        }));
    }

    /// Checks every column once, so that rows can then be read by index.
    pub fn validate(&self) -> (r: bool)
        ensures
            r == self.valid(),
    {
        let count: usize = self.entities.len();
        let mut c: usize = 0;
        while c < self.columns.len()
            invariant
                c <= self.columns.len(),
                count == self.entities@.len(),
                forall|k: int| 0 <= k < c ==> (#[trigger] self.columns@[k]).valid(count as int),
            decreases self.columns.len() - c,
        {
            if !self.columns[c].validate(count) {
                return false;
            }
            c += 1;
        }
        true
    }

    /// Builds the values of one row.
    pub fn read(&self, row: usize) -> (r: Row)
        requires
            self.valid(),
            row < self.count(),
        ensures
            r@ == self.row(row as int),
    {
        let count: usize = self.entities.len();
        let mut fields: Vec<Vec<u8>> = Vec::new();
        let mut c: usize = 0;
        while c < self.columns.len()
            invariant
                c <= self.columns.len(),
                self.valid(),
                row < count,
                count == self.entities@.len(),
                fields@.len() == c,
                forall|k: int| 0 <= k < c ==> (#[trigger] fields@[k])@ == self.columns@[k].row(row as int),
            decreases self.columns.len() - c,
        {
            fields.push(self.columns[c].read(row, count));
            c += 1;
        }
        let r = Row { fields };
        assert(r@ =~= self.row(row as int));
        r
    }

    /// Stores the values of one row back into the columns that take writes.
    pub fn write(&mut self, row: usize, values: &Row)
        requires
            old(self).valid(),
            row < old(self).count(),
        ensures
            final(self).valid(),
            old(self).same_shape(final(self)),
            final(self).data() == old(self).stored(row as int, values@),
    {
        if values.fields.len() != self.columns.len() {
            assert(self.data() =~= self.stored(row as int, values@));
            return;
        }
        let count: usize = self.entities.len();
        let ghost fields = values@;
        let n: usize = self.columns.len();
        let mut c: usize = 0;
        while c < n
            invariant
                c <= n,
                n == self.columns@.len(),
                n == old(self).columns@.len(),
                n == values.fields@.len(),
                row < count,
                count == self.entities@.len(),
                self.table == old(self).table,
                self.entities == old(self).entities,
                self.sources == old(self).sources,
                old(self).valid(),
                fields == values@,
                forall|k: int|
                    0 <= k < n ==> (#[trigger] self.columns@[k]).size == old(self).columns@[k].size
                        && self.columns@[k].id == old(self).columns@[k].id
                        && self.columns@[k].is_ref == old(self).columns@[k].is_ref
                        && self.columns@[k].writable == old(self).columns@[k].writable
                        && self.columns@[k].valid(count as int),
                forall|k: int|
                    0 <= k < c ==> (#[trigger] self.columns@[k]).data@ == old(self).columns@[k].stored(
                        row as int,
                        fields[k],
                    ),
                forall|k: int| c <= k < n
                    ==> (#[trigger] self.columns@[k]).data@ == old(self).columns@[k].data@,
            decreases n - c,
        {
            self.columns[c].write(row, count, &values.fields[c]);
            c += 1;
        }
        assert(self.data() =~= old(self).stored(row as int, fields));
    }
}

} // verus!
