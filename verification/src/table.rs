//! The fixed-capacity table: a block of `N` row slots, a count of the rows in
//! use, and `M` column names.

use vstd::prelude::*;

verus! {

/// The ways in which an operation on a table can fail.
#[allow(non_camel_case_types)]
#[derive(Copy, Clone, Debug)]
pub enum uDataTableError {
    /// The requested row index is not below the table's length.
    RowIndexOutOfBounds,
    /// The table already holds as many rows as it has slots.
    CannotGrowTable,
}

impl uDataTableError {
    /// The error's name.
    pub fn as_str(&self) -> (name: &'static str)
        ensures
            name@ == (match *self {
                uDataTableError::RowIndexOutOfBounds => "RowIndexOutOfBounds"@,
                uDataTableError::CannotGrowTable => "CannotGrowTable"@,
            }),
    {
        match self {
            uDataTableError::RowIndexOutOfBounds => "RowIndexOutOfBounds",
            uDataTableError::CannotGrowTable => "CannotGrowTable",
        }
    }
}

/// Whether `slot` is a value that `T::default()` can return.
pub open spec fn is_blank<T: Default>(slot: T) -> bool {
    call_ensures(T::default, (), slot)
}

/// Whether `values` holds, slot by slot, a number that `value` can return for that
/// slot.
pub open spec fn is_projection<T, F: Fn(&T) -> i32>(value: F, slots: Seq<T>, values: Seq<i32>) -> bool {
    &&& values.len() == slots.len()
    &&& forall|i: int| 0 <= i < slots.len() ==> call_ensures(value, (&slots[i],), #[trigger] values[i])
}

/// The mathematical content of a table.
pub struct TableModel<'a, T> {
    /// The column names, in order.
    pub headers: Seq<&'a str>,
    /// Every slot of the storage, in use or not. Its length is the capacity.
    pub slots: Seq<T>,
    /// The number of leading slots that hold rows.
    pub length: nat,
}

impl<'a, T: Default> TableModel<'a, T> {
    /// The number of rows that the table can hold.
    pub open spec fn capacity(self) -> nat {
        self.slots.len()
    }

    /// The rows of the table, in the order in which they were appended.
    pub open spec fn rows(self) -> Seq<T> {
        self.slots.take(self.length as int)
    }

    /// The length never exceeds the capacity, and a slot that holds no row is blank.
    pub open spec fn valid(self) -> bool {
        &&& self.length <= self.slots.len()
        &&& forall|i: int| self.length <= i < self.slots.len() ==> is_blank(#[trigger] self.slots[i])
    }

    /// Whether every slot is in use.
    pub open spec fn is_full(self) -> bool {
        self.length >= self.slots.len()
    }

    /// Whether this is a table of `capacity` blank slots, none in use, under the
    /// column names `headers`.
    pub open spec fn is_blank_table(self, headers: Seq<&'a str>, capacity: nat) -> bool {
        &&& self.headers == headers
        &&& self.length == 0
        &&& self.slots.len() == capacity
        &&& forall|i: int| 0 <= i < self.slots.len() ==> is_blank(#[trigger] self.slots[i])
    }

    /// The table after an attempt to append `row`: the row fills the first free
    /// slot, and a full table stays as it is.
    pub open spec fn append(self, row: T) -> Self {
        if self.is_full() {
            self
        } else {
            TableModel {
                headers: self.headers,
                slots: self.slots.update(self.length as int, row),
                length: self.length + 1,
            }
        }
    }

    /// What an attempt to append `row` returns: the row as it is stored, or the
    /// error of a full table.
    pub open spec fn append_result(self, row: T) -> Result<T, uDataTableError> {
        if self.is_full() {
            Err(uDataTableError::CannotGrowTable)
        } else {
            Ok(row)
        }
    }

    /// The table after an attempt to append each of `rows`, in order.
    pub open spec fn append_all(self, rows: Seq<T>) -> Self
        decreases rows.len(),
    {
        if rows.len() == 0 {
            self
        } else {
            self.append_all(rows.drop_last()).append(rows.last())
        }
    }

    /// The row at `index`, or the error for an index that is not below the length.
    pub open spec fn get(self, index: int) -> Result<T, uDataTableError> {
        if 0 <= index < self.length {
            Ok(self.slots[index])
        } else {
            Err(uDataTableError::RowIndexOutOfBounds)
        }
    }

    /// Whether `after` can be this table once erased: empty and blank, with the
    /// same column names and capacity.
    pub open spec fn erases_to(self, after: Self) -> bool {
        after.is_blank_table(self.headers, self.capacity())
    }

    /// Whether `after` can be this table after one operation on it: a read, an
    /// attempt to append a row, or an erasure.
    pub open spec fn steps_to(self, after: Self) -> bool {
        ||| after == self
        ||| exists|row: T| after == self.append(row)
        ||| self.erases_to(after)
    }
}

/// A table of at most `N` rows of type `T` under `M` column names. The storage is
/// part of the value: nothing is allocated.
#[allow(non_camel_case_types)]
pub struct uDataTable<'a, T: Copy + Default, const N: usize, const M: usize> {
    headers: [&'a str; M],
    data: [T; N],
    length: usize,
}

impl<'a, T: Copy + Default, const N: usize, const M: usize> View for uDataTable<'a, T, N, M> {
    type V = TableModel<'a, T>;

    closed spec fn view(&self) -> TableModel<'a, T> {
        TableModel { headers: self.headers@, slots: self.data@, length: self.length as nat }
    }
}

impl<'a, T: Copy + Default, const N: usize, const M: usize> uDataTable<'a, T, N, M> {
    #[verifier::type_invariant]
    spec fn well_formed(&self) -> bool {
        self@.valid()
    }

    /// Creates an empty table under the given column names.
    pub fn new(headers: [&'a str; M]) -> (table: Self)
        ensures
            table@.is_blank_table(headers@, N as nat),
            table@.valid(),
    {
        let blank = T::default();
        Self { headers, data: [blank; N], length: 0 }
    }

    /// The row at `index`, if `index` is below the length.
    pub fn get(&self, index: usize) -> (found: Result<&T, uDataTableError>)
        ensures
            (match found {
                Ok(row) => self@.get(index as int) == Ok::<T, uDataTableError>(*row),
                Err(e) => self@.get(index as int) == Err::<T, uDataTableError>(e),
            }),
    {
        proof {
            use_type_invariant(self);
        }
        if index < self.length {
            Result::Ok(&self.data[index])
        } else {
            Result::Err(uDataTableError::RowIndexOutOfBounds)
        }
    }

    /// Copies `row` into the first free slot and returns the stored row. A full
    /// table is left as it is and the append fails.
    pub fn append(&mut self, row: T) -> (stored: Result<&T, uDataTableError>)
        ensures
            final(self)@ == old(self)@.append(row),
            final(self)@.valid(),
            (match stored {
                Ok(slot) => old(self)@.append_result(row) == Ok::<T, uDataTableError>(*slot),
                Err(e) => old(self)@.append_result(row) == Err::<T, uDataTableError>(e),
            }),
    {
        proof {
            use_type_invariant(&*self);
        }
        if self.length < N {
            self.length += 1;
            self.data[self.length - 1] = row;
            Result::Ok(&self.data[self.length - 1])
        } else {
            Result::Err(uDataTableError::CannotGrowTable)
        }
    }

    /// Empties the table and blanks every slot.
    pub fn erase(&mut self)
        ensures
            old(self)@.erases_to(final(self)@),
            final(self)@.valid(),
    {
        proof {
            use_type_invariant(&*self);
        }
        for i in 0..N
            invariant
                self@.valid(),
                self.headers == old(self).headers,
                forall|j: int| 0 <= j < i ==> is_blank(#[trigger] self.data@[j]),
        {
            self.data[i] = T::default();
        }
        self.length = 0;
    }

    /// The number of rows in the table.
    pub fn length(&self) -> (n: usize)
        ensures
            n == self@.length,
            n <= N,
            self@.capacity() == N,
            self@.valid(),
    {
        proof {
            use_type_invariant(self);
        }
        self.length
    }

    /// The column names.
    pub fn headers(&self) -> (names: &[&'a str; M])
        ensures
            names@ == self@.headers,
    {
        &self.headers
    }

    /// Applies `value` to every slot of the storage, the slots that hold no row
    /// included, and returns the results in slot order.
    pub fn project<F: Fn(&T) -> i32>(&self, value: F) -> (values: Vec<i32>)
        requires
            forall|i: int| 0 <= i < self@.slots.len() ==> call_requires(value, (&#[trigger] self@.slots[i],)),
        ensures
            values@.len() == N,
            is_projection(value, self@.slots, values@),
    {
        let mut values: Vec<i32> = Vec::new();
        for i in 0..N
            invariant
                values@.len() == i,
                self@.slots.len() == N,
                forall|j: int| 0 <= j < N ==> call_requires(value, (&#[trigger] self@.slots[j],)),
                forall|j: int| 0 <= j < i ==> call_ensures(value, (&self@.slots[j],), #[trigger] values@[j]),
        {
            let projected = value(&self.data[i]);
            values.push(projected);
        }
        values
    }
}

} // verus!
