//! The two texts of a table: the one-line summary of its column names and
//! length, and the tabular form with a header line and one line per row.

use crate::decimal::decimal;
use crate::table::uDataTable;
use crate::writer::{put_str, put_usize};
use vstd::prelude::*;

verus! {

/// The parts in order, with `separator` between each two neighbours.
pub open spec fn joined(parts: Seq<Seq<char>>, separator: Seq<char>) -> Seq<char>
    decreases parts.len(),
{
    if parts.len() == 0 {
        Seq::empty()
    } else if parts.len() == 1 {
        parts[0]
    } else {
        joined(parts.drop_last(), separator) + separator + parts.last()
    }
}

/// Each name between `before` and `after`.
pub open spec fn wrapped(names: Seq<&str>, before: Seq<char>, after: Seq<char>) -> Seq<Seq<char>> {
    Seq::new(names.len(), |i: int| before + names[i]@ + after)
}

/// The names as they stand.
pub open spec fn plain(names: Seq<&str>) -> Seq<Seq<char>> {
    Seq::new(names.len(), |i: int| names[i]@)
}

/// The summary of a table of `length` rows under the column names `names`. The
/// names stand in double quotes inside square brackets, with a comma and a space
/// between each two, and the length follows in decimal. Without any name the
/// brackets hold one empty pair of quotes.
pub open spec fn summary_text(names: Seq<&str>, length: nat) -> Seq<char> {
    "uDataTable<[\""@ + joined(plain(names), "\", \""@) + "\"], length: "@ + decimal(length as int) + ">"@
}

/// The header line of the tabular form: each name in double quotes, commas
/// between them, and a line break.
pub open spec fn header_line(names: Seq<&str>) -> Seq<char> {
    joined(wrapped(names, "\""@, "\""@), ","@) + "\n"@
}

/// The lines in order, each followed by a line break.
pub open spec fn body(lines: Seq<String>) -> Seq<char>
    decreases lines.len(),
{
    if lines.len() == 0 {
        Seq::empty()
    } else {
        body(lines.drop_last()) + lines.last()@ + "\n"@
    }
}

/// The tabular form: the header line, then the lines of the rows.
pub open spec fn tabular_text(names: Seq<&str>, lines: Seq<String>) -> Seq<char> {
    header_line(names) + body(lines)
}

/// Whether `lines` holds, row by row, a text that `row_text` can return for that
/// row.
pub open spec fn is_rendering<T, F: Fn(&T) -> String>(row_text: F, rows: Seq<T>, lines: Seq<String>) -> bool {
    &&& lines.len() == rows.len()
    &&& forall|i: int| 0 <= i < rows.len() ==> call_ensures(row_text, (&rows[i],), #[trigger] lines[i])
}

/// What stands in the text after `count` of the names have been written: those
/// names joined, and one more separator if some but not all are written.
spec fn written(
    names: Seq<&str>,
    count: int,
    before: Seq<char>,
    after: Seq<char>,
    separator: Seq<char>,
) -> Seq<char> {
    let so_far = joined(wrapped(names.take(count), before, after), separator);
    if 0 < count < names.len() {
        so_far + separator
    } else {
        so_far
    }
}

/// Appends to `out` each name between `before` and `after`, with `separator`
/// between each two neighbours.
fn write_names<const M: usize>(
    out: &mut String,
    names: &[&str; M],
    before: &str,
    after: &str,
    separator: &str,
)
    ensures
        final(out)@ == old(out)@ + joined(wrapped(names@, before@, after@), separator@),
{
    for i in 0..M
        invariant
            names@.len() == M,
            out@ == old(out)@ + written(names@, i as int, before@, after@, separator@),
    {
        put_str(out, before);
        put_str(out, names[i]);
        put_str(out, after);
        if i < M - 1 {
            put_str(out, separator);
        }
        proof {
            let earlier = wrapped(names@.take(i as int), before@, after@);
            let now = wrapped(names@.take(i + 1), before@, after@);
            assert(now.drop_last() =~= earlier);
            assert(now.last() == before@ + names@[i as int]@ + after@);
        }
    }
    assert(names@.take(M as int) =~= names@);
}

impl<'a, T: Copy + Default, const N: usize, const M: usize> uDataTable<'a, T, N, M> {
    /// The summary of the table on one line, without a line break.
    pub fn summary(&self) -> (text: String)
        ensures
            text@ == summary_text(self@.headers, self@.length),
    {
        let names = self.headers();
        let mut text = String::new();
        put_str(&mut text, "uDataTable<[\"");
        write_names(&mut text, names, "", "", "\", \"");
        put_str(&mut text, "\"], length: ");
        put_usize(&mut text, self.length());
        put_str(&mut text, ">");
        proof {
            reveal_strlit("");
            assert(wrapped(names@, ""@, ""@) =~= plain(names@)) by {
                assert forall|i: int| 0 <= i < names@.len() implies ""@ + names@[i]@ + ""@ =~= names@[i]@ by {}
            }
        }
        text
    }

    /// The tabular form of the table: the header line, then one line per row in
    /// the order of the rows, each the text that `row_text` returns for the row.
    pub fn tabular<F: Fn(&T) -> String>(&self, row_text: F) -> (text: String)
        requires
            forall|i: int| 0 <= i < self@.rows().len() ==> call_requires(row_text, (&#[trigger] self@.rows()[i],)),
        ensures
            exists|lines: Seq<String>|
                is_rendering(row_text, self@.rows(), lines) && text@ == tabular_text(self@.headers, lines),
    {
        let names = self.headers();
        let count = self.length();
        let mut text = String::new();
        write_names(&mut text, names, "\"", "\"", ",");
        put_str(&mut text, "\n");
        let ghost mut lines: Seq<String> = Seq::empty();
        for i in 0..count
            invariant
                count == self@.length,
                self@.valid(),
                forall|i: int|
                    0 <= i < self@.rows().len() ==> call_requires(row_text, (&#[trigger] self@.rows()[i],)),
                is_rendering(row_text, self@.rows().take(i as int), lines),
                text@ == tabular_text(self@.headers, lines),
        {
            if let Ok(row) = self.get(i) {
                assert(*row == self@.rows()[i as int]);
                let line = row_text(row);
                put_str(&mut text, line.as_str());
                put_str(&mut text, "\n");
                proof {
                    assert(lines.push(line).drop_last() =~= lines);
                    lines = lines.push(line);
                }
            }
        }
        assert(self@.rows().take(count as int) =~= self@.rows());
        text
    }
}

} // verus!
