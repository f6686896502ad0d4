//! What holds of every table, stated over the model that the contracts of the
//! table's operations speak of.

use crate::table::{TableModel, uDataTableError};
use vstd::prelude::*;

verus! {

/// Appending rows to a table with room for all of them stores them, in order,
/// behind the rows that it held, and changes nothing else.
pub proof fn lemma_append_all<T: Default>(table: TableModel<T>, rows: Seq<T>)
    requires
        table.length + rows.len() <= table.capacity(),
    ensures
        table.append_all(rows).headers == table.headers,
        table.append_all(rows).capacity() == table.capacity(),
        table.append_all(rows).length == table.length + rows.len(),
        table.append_all(rows).rows() == table.rows() + rows,
        forall|i: int|
            table.length + rows.len() <= i < table.capacity() ==> table.append_all(rows).slots[i]
                == table.slots[i],
    decreases rows.len(),
{
    if rows.len() == 0 {
        assert(table.rows() + rows =~= table.rows());
    } else {
        let front = rows.drop_last();
        lemma_append_all(table, front);
        let before = table.append_all(front);
        assert(before.append(rows.last()).rows() =~= before.rows().push(rows.last()));
        assert(front.push(rows.last()) =~= rows);
    }
}

/// An empty table of capacity `C` takes `C` rows one after the other, each
/// append succeeding. It then holds exactly those rows, in order, and one more
/// append fails with `CannotGrowTable` and leaves the table as it was.
pub proof fn law_fill_to_capacity<T: Default>(empty: TableModel<T>, rows: Seq<T>, extra: T)
    requires
        empty.length == 0,
        rows.len() == empty.capacity(),
    ensures
        forall|k: int|
            0 <= k < rows.len() ==> (#[trigger] empty.append_all(rows.take(k))).append_result(rows[k])
                == Ok::<T, uDataTableError>(rows[k]),
        empty.append_all(rows).length == empty.capacity(),
        empty.append_all(rows).rows() == rows,
        empty.append_all(rows).append_result(extra) == Err::<T, uDataTableError>(
            uDataTableError::CannotGrowTable,
        ),
        empty.append_all(rows).append(extra) == empty.append_all(rows),
{
    assert forall|k: int| 0 <= k < rows.len() implies (#[trigger] empty.append_all(
        rows.take(k),
    )).append_result(rows[k]) == Ok::<T, uDataTableError>(rows[k]) by {
        lemma_append_all(empty, rows.take(k));
    }
    lemma_append_all(empty, rows);
    assert(empty.rows() + rows =~= rows);
}

/// Once rows have been appended to an empty table with room for them, `get`
/// returns the `i`-th of them for every `i` below their number, and fails with
/// `RowIndexOutOfBounds` for every other index.
pub proof fn law_get_returns_appended<T: Default>(empty: TableModel<T>, rows: Seq<T>, index: int)
    requires
        empty.length == 0,
        rows.len() <= empty.capacity(),
    ensures
        0 <= index < rows.len() ==> empty.append_all(rows).get(index) == Ok::<T, uDataTableError>(
            rows[index],
        ),
        !(0 <= index < rows.len()) ==> empty.append_all(rows).get(index) == Err::<
            T,
            uDataTableError,
        >(uDataTableError::RowIndexOutOfBounds),
{
    lemma_append_all(empty, rows);
    assert(empty.rows() + rows =~= rows);
}

/// Erasing an erased table changes nothing that can be observed: the table is
/// empty after one erasure and after two, under the same column names and with
/// the same capacity, and `get(0)` fails on it whatever the table held before.
/// What two erasures leave is what one erasure can leave.
pub proof fn law_erase_is_idempotent<T: Default>(
    table: TableModel<T>,
    once: TableModel<T>,
    twice: TableModel<T>,
)
    requires
        table.erases_to(once),
        once.erases_to(twice),
    ensures
        table.erases_to(twice),
        once.length == 0 && twice.length == 0,
        twice.rows() == once.rows(),
        twice.headers == once.headers,
        twice.capacity() == once.capacity(),
        once.get(0) == Err::<T, uDataTableError>(uDataTableError::RowIndexOutOfBounds),
        twice.get(0) == Err::<T, uDataTableError>(uDataTableError::RowIndexOutOfBounds),
{
}

/// Whether each state but the last is followed by a state that one operation of
/// the table can lead to.
pub open spec fn is_run<T: Default>(states: Seq<TableModel<T>>) -> bool {
    forall|i: int| 0 <= i < states.len() - 1 ==> (#[trigger] states[i]).steps_to(states[i + 1])
}

/// Through any run of operations a table keeps the column names that it was
/// made with, and its capacity.
pub proof fn law_headers_are_fixed<T: Default>(states: Seq<TableModel<T>>)
    requires
        is_run(states),
    ensures
        forall|i: int| 0 <= i < states.len() ==> (#[trigger] states[i]).headers == states[0].headers,
        forall|i: int|
            0 <= i < states.len() ==> (#[trigger] states[i]).capacity() == states[0].capacity(),
    decreases states.len(),
{
    if states.len() > 1 {
        let front = states.drop_last();
        let last = states.len() - 1;
        assert(is_run(front)) by {
            assert forall|i: int| 0 <= i < front.len() - 1 implies (#[trigger] front[i]).steps_to(
                front[i + 1],
            ) by {
                assert(states[i].steps_to(states[i + 1]));
            }
        }
        law_headers_are_fixed(front);
        assert(front[last - 1].steps_to(states[last])) by {
            assert(states[last - 1].steps_to(states[last]));
        }
        assert forall|i: int| 0 <= i < states.len() implies (#[trigger] states[i]).headers
            == states[0].headers && states[i].capacity() == states[0].capacity() by {
            if i < last {
                assert(front[i] == states[i]);
            }
        }
    }
}

/// Through any run of operations that starts from a valid table the table stays
/// valid: its length is never above its capacity, and the slots that hold no row
/// are blank.
pub proof fn law_length_within_capacity<T: Default>(states: Seq<TableModel<T>>)
    requires
        is_run(states),
        states.len() > 0,
        states[0].valid(),
    ensures
        forall|i: int| 0 <= i < states.len() ==> (#[trigger] states[i]).valid(),
        forall|i: int| 0 <= i < states.len() ==> (#[trigger] states[i]).length <= states[0].capacity(),
    decreases states.len(),
{
    law_headers_are_fixed(states);
    if states.len() > 1 {
        let front = states.drop_last();
        let last = states.len() - 1;
        assert(is_run(front)) by {
            assert forall|i: int| 0 <= i < front.len() - 1 implies (#[trigger] front[i]).steps_to(
                front[i + 1],
            ) by {
                assert(states[i].steps_to(states[i + 1]));
            }
        }
        law_length_within_capacity(front);
        assert(front[last - 1].steps_to(states[last])) by {
            assert(states[last - 1].steps_to(states[last]));
        }
        assert forall|i: int| 0 <= i < states.len() implies (#[trigger] states[i]).valid() by {
            if i < last {
                assert(front[i] == states[i]);
            }
        }
    }
}

} // verus!
