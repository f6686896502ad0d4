//! The text chart of a table: one line per height level, from the top level down
//! to level zero. A line holds the axis label of its level, then one mark per
//! row.
//!
//! Everything here works on integers. The two scalings, of a row's number to its
//! level and of the number zero to its level, are functions that the caller hands
//! to [`uDataTable::plot`], so that they may be computed in floating point.

use crate::decimal::{count_digits, decimal};
use crate::table::{is_projection, uDataTable, TableModel};
use crate::writer::{put_i32, put_str};
use vstd::prelude::*;

verus! {

/// The highest level that a chart can have: a chart has at most one line more
/// than this.
pub const MAX_HEIGHT: i64 = 23;

/// The smallest of `values`, or the largest `i32` where there is none.
pub open spec fn lowest(values: Seq<i32>) -> int
    decreases values.len(),
{
    if values.len() == 0 {
        i32::MAX as int
    } else if values.last() < lowest(values.drop_last()) {
        values.last() as int
    } else {
        lowest(values.drop_last())
    }
}

/// The largest of `values`, or the smallest `i32` where there is none.
pub open spec fn highest(values: Seq<i32>) -> int
    decreases values.len(),
{
    if values.len() == 0 {
        i32::MIN as int
    } else if values.last() > highest(values.drop_last()) {
        values.last() as int
    } else {
        highest(values.drop_last())
    }
}

/// `lowest` and `highest` bound every value, and each is one of the values
/// where there is any.
pub proof fn law_range_is_tight(values: Seq<i32>)
    ensures
        forall|i: int| 0 <= i < values.len() ==> lowest(values) <= #[trigger] values[i] <= highest(values),
        values.len() > 0 ==> exists|i: int| 0 <= i < values.len() && values[i] == lowest(values),
        values.len() > 0 ==> exists|i: int| 0 <= i < values.len() && values[i] == highest(values),
        i32::MIN <= lowest(values) <= i32::MAX,
        i32::MIN <= highest(values) <= i32::MAX,
    decreases values.len(),
{
    if values.len() > 0 {
        let front = values.drop_last();
        let last = values.len() - 1;
        law_range_is_tight(front);
        assert forall|i: int| 0 <= i < values.len() implies lowest(values) <= #[trigger] values[i]
            <= highest(values) by {
            if i < last {
                assert(front[i] == values[i]);
            }
        }
        if front.len() > 0 {
            let at_low = choose|i: int| 0 <= i < front.len() && front[i] == lowest(front);
            let at_high = choose|i: int| 0 <= i < front.len() && front[i] == highest(front);
            assert(values[at_low] == front[at_low]);
            assert(values[at_high] == front[at_high]);
        }
        assert(values[last] == values.last());
    }
}

/// Scans `values` for their smallest and largest. With no values the pair is the
/// largest `i32` followed by the smallest.
pub fn value_range(values: &[i32]) -> (range: (i32, i32))
    ensures
        range.0 == lowest(values@),
        range.1 == highest(values@),
{
    let mut min = i32::MAX;
    let mut max = i32::MIN;
    for i in 0..values.len()
        invariant
            min == lowest(values@.take(i as int)),
            max == highest(values@.take(i as int)),
    {
        let value = values[i];
        if value < min {
            min = value;
        }
        if value > max {
            max = value;
        }
        proof {
            assert(values@.take(i + 1).drop_last() =~= values@.take(i as int));
        }
    }
    proof {
        assert(values@.take(values@.len() as int) =~= values@);
    }
    (min, max)
}

/// The top level of a chart of values from `min` to `max`: their distance,
/// capped at `MAX_HEIGHT`.
pub open spec fn top_level(min: int, max: int) -> int {
    if max - min > MAX_HEIGHT {
        MAX_HEIGHT as int
    } else {
        max - min
    }
}

/// The top level of a chart of values from `min` to `max`. It is negative, and
/// the chart has no line, where `max` is below `min`.
pub fn display_height(min: i32, max: i32) -> (height: i64)
    ensures
        height == top_level(min as int, max as int),
{
    let distance = max as i64 - min as i64;
    if distance > MAX_HEIGHT {
        MAX_HEIGHT
    } else {
        distance
    }
}

/// `n` spaces.
pub open spec fn spaces(n: int) -> Seq<char> {
    Seq::new(n as nat, |i: int| ' ')
}

/// Appends `n` spaces to `out`.
pub fn write_n_spaces(n: u32, out: &mut String)
    ensures
        final(out)@ == old(out)@ + spaces(n as int),
{
    for i in 0..n
        invariant
            out@ == old(out)@ + spaces(i as int),
    {
        put_str(out, " ");
        proof {
            reveal_strlit(" ");
            assert(out@ =~= old(out)@ + spaces(i + 1));
        }
    }
}

/// The width of the label column: the longer of the decimal texts of `min` and
/// `max`.
pub open spec fn axis_width(min: int, max: int) -> int {
    if decimal(min).len() > decimal(max).len() {
        decimal(min).len() as int
    } else {
        decimal(max).len() as int
    }
}

/// The label of the line at `level`, the separator included. The level of the
/// value zero is labelled `0`; failing that the top level is labelled with `max`
/// and level zero with `min`; any other level has a blank label. A number stands
/// flush right in the label column.
pub open spec fn label(level: int, zero_level: int, min: int, max: int) -> Seq<char> {
    let width = axis_width(min, max);
    if level == zero_level {
        spaces(width - 1) + "0 |"@
    } else if level == top_level(min, max) {
        spaces(width - decimal(max).len()) + decimal(max) + " |"@
    } else if level == 0 {
        spaces(width - decimal(min).len()) + decimal(min) + " |"@
    } else {
        spaces(width) + " |"@
    }
}

/// Appends to `out` the label of the line at `level`.
pub fn write_label(level: i64, zero_level: i32, min: i32, max: i32, out: &mut String)
    ensures
        final(out)@ == old(out)@ + label(level as int, zero_level as int, min as int, max as int),
{
    let min_digits = count_digits(min);
    let max_digits = count_digits(max);
    let digits = if min_digits > max_digits {
        min_digits
    } else {
        max_digits
    };
    if level == zero_level as i64 {
        write_n_spaces(digits - 1, out);
        put_str(out, "0 |");
    } else if level == display_height(min, max) {
        write_n_spaces(digits - max_digits, out);
        put_i32(out, max);
        put_str(out, " |");
    } else if level == 0 {
        write_n_spaces(digits - min_digits, out);
        put_i32(out, min);
        put_str(out, " |");
    } else {
        write_n_spaces(digits, out);
        put_str(out, " |");
    }
}

/// The mark of a row of the given height on the line at `level`: a star at the
/// row's own level, a dot below it, a space above it.
pub open spec fn mark_char(height: int, level: int) -> char {
    if height == level {
        '*'
    } else if height > level {
        '.'
    } else {
        ' '
    }
}

/// The marks of the line at `level`, one per row, in row order.
pub open spec fn marks(heights: Seq<i32>, level: int) -> Seq<char> {
    Seq::new(heights.len(), |r: int| mark_char(heights[r] as int, level))
}

/// The mark of a row of the given height on the line at `level`.
pub fn mark(height: i32, level: i64) -> (glyph: &'static str)
    ensures
        glyph@ == seq![mark_char(height as int, level as int)],
{
    proof {
        reveal_strlit("*");
        reveal_strlit(".");
        reveal_strlit(" ");
    }
    if height as i64 == level {
        "*"
    } else if height as i64 > level {
        "."
    } else {
        " "
    }
}

/// Appends to `out` the marks of the line at `level`.
pub fn write_marks(level: i64, heights: &[i32], out: &mut String)
    ensures
        final(out)@ == old(out)@ + marks(heights@, level as int),
{
    for r in 0..heights.len()
        invariant
            out@ == old(out)@ + marks(heights@.take(r as int), level as int),
    {
        put_str(out, mark(heights[r], level));
        assert(out@ =~= old(out)@ + marks(heights@.take(r + 1), level as int));
    }
}

/// The line at `level`: its label, its marks, and a line break.
pub open spec fn line(level: int, zero_level: int, min: int, max: int, heights: Seq<i32>) -> Seq<char> {
    label(level, zero_level, min, max) + marks(heights, level) + "\n"@
}

/// The lines at `level` and below, down to level zero, highest first.
pub open spec fn lines_down_from(
    level: int,
    zero_level: int,
    min: int,
    max: int,
    heights: Seq<i32>,
) -> Seq<char>
    decreases level + 1,
{
    if level < 0 {
        Seq::empty()
    } else {
        line(level, zero_level, min, max, heights) + lines_down_from(
            level - 1,
            zero_level,
            min,
            max,
            heights,
        )
    }
}

/// The chart of rows scaled to `heights`, for values from `min` to `max` with
/// the value zero at `zero_level`.
pub open spec fn chart(min: int, max: int, zero_level: int, heights: Seq<i32>) -> Seq<char> {
    lines_down_from(top_level(min, max), zero_level, min, max, heights)
}

/// Draws the chart of rows scaled to `heights`, for values from `min` to `max`
/// with the value zero at `zero_level`.
pub fn render_chart(min: i32, max: i32, zero_level: i32, heights: &[i32]) -> (text: String)
    ensures
        text@ == chart(min as int, max as int, zero_level as int, heights@),
{
    let top = display_height(min, max);
    let mut text = String::new();
    let mut level = top;
    while level >= 0
        invariant
            level <= top <= MAX_HEIGHT,
            top < 0 || level >= -1,
            text@ + lines_down_from(level as int, zero_level as int, min as int, max as int, heights@)
                == lines_down_from(top as int, zero_level as int, min as int, max as int, heights@),
        decreases level + 1,
    {
        let ghost above = text@;
        write_label(level, zero_level, min, max, &mut text);
        write_marks(level, heights, &mut text);
        put_str(&mut text, "\n");
        assert(text@ =~= above + line(level as int, zero_level as int, min as int, max as int, heights@));
        level -= 1;
    }
    text
}

/// Whether `level` is the level that `scale` can give to a number that lies
/// `offset` above the smallest of numbers `distance` apart. Where all numbers are
/// equal it is level zero and `scale` is not asked.
pub open spec fn is_level<S: Fn(i64, i64, i64) -> i32>(scale: S, offset: int, distance: int, level: i32) -> bool {
    if distance > 0 {
        call_ensures(scale, (offset as i64, distance as i64, top_level(0, distance) as i64), level)
    } else {
        level == 0
    }
}

/// Whether `text` is a chart of the table `table`: `values` are the numbers of
/// its slots under `value`, `heights` the levels of its rows under `scale`,
/// `zero_level` the level of the number zero under `zero`, and `text` is the
/// chart of these.
pub open spec fn is_plot<T: Default, F: Fn(&T) -> i32, S: Fn(i64, i64, i64) -> i32, Z: Fn(i64, i64, i64) -> i32>(
    table: TableModel<T>,
    value: F,
    scale: S,
    zero: Z,
    values: Seq<i32>,
    heights: Seq<i32>,
    zero_level: i32,
    text: Seq<char>,
) -> bool {
    let min = lowest(values);
    let max = highest(values);
    &&& is_projection(value, table.slots, values)
    &&& heights.len() == table.length
    &&& forall|r: int|
        0 <= r < table.length ==> is_level(scale, values[r] - min, max - min, #[trigger] heights[r])
    &&& is_level(zero, 0 - min, max - min, zero_level)
    &&& text == chart(min, max, zero_level as int, heights)
}

impl<'a, T: Copy + Default, const N: usize, const M: usize> uDataTable<'a, T, N, M> {
    /// Draws the chart of the table: one column of marks per row, in the order of
    /// the rows, over as many levels as the numbers of the slots are apart, up to
    /// `MAX_HEIGHT`.
    ///
    /// `value` gives the number to plot for a row. The range of the numbers is
    /// taken over every slot of the storage, the slots that hold no row included.
    /// `scale(offset, distance, top)` gives the level, on a chart with top level
    /// `top`, of a number that lies `offset` above the smallest of numbers
    /// `distance` apart, and `zero(offset, distance, top)` the level of the number
    /// zero, which lies `offset` above the smallest. Neither is asked where all
    /// numbers are equal: every row and the number zero then stand on level zero.
    pub fn plot<F, S, Z>(&self, value: F, scale: S, zero: Z) -> (text: String) where
        F: Fn(&T) -> i32,
        S: Fn(i64, i64, i64) -> i32,
        Z: Fn(i64, i64, i64) -> i32,

        requires
            forall|i: int| 0 <= i < self@.slots.len() ==> call_requires(value, (&#[trigger] self@.slots[i],)),
            forall|offset: i64, distance: i64, top: i64|
                0 <= offset <= distance && 0 < distance && top == top_level(0, distance as int)
                    ==> #[trigger] call_requires(scale, (offset, distance, top)),
            forall|offset: i64, distance: i64, top: i64|
                0 < distance && top == top_level(0, distance as int) ==> #[trigger] call_requires(
                    zero,
                    (offset, distance, top),
                ),
        ensures
            exists|values: Seq<i32>, heights: Seq<i32>, zero_level: i32|
                is_plot(self@, value, scale, zero, values, heights, zero_level, text@),
    {
        let values = self.project(value);
        let (min, max) = value_range(values.as_slice());
        let distance = max as i64 - min as i64;
        let top = display_height(min, max);
        let zero_level = if distance > 0 {
            zero(0 - min as i64, distance, top)
        } else {
            0
        };
        let count = self.length();
        let mut heights: Vec<i32> = Vec::new();
        proof {
            law_range_is_tight(values@);
        }
        for r in 0..count
            invariant
                count == self@.length,
                count <= values@.len(),
                distance == max - min,
                top == top_level(0, distance as int),
                min == lowest(values@),
                max == highest(values@),
                forall|i: int| 0 <= i < values@.len() ==> min <= #[trigger] values@[i] <= max,
                forall|offset: i64, distance: i64, top: i64|
                    0 <= offset <= distance && 0 < distance && top == top_level(0, distance as int)
                        ==> #[trigger] call_requires(scale, (offset, distance, top)),
                heights@.len() == r,
                forall|k: int|
                    0 <= k < r ==> is_level(scale, values@[k] - min, max - min, #[trigger] heights@[k]),
        {
            let height = if distance > 0 {
                scale(values[r] as i64 - min as i64, distance, top)
            } else {
                0
            };
            heights.push(height);
        }
        let text = render_chart(min, max, zero_level, heights.as_slice());
        assert(is_plot(self@, value, scale, zero, values@, heights@, zero_level, text@));
        text
    }
}

/// Every label is as wide as the label column and the two characters of the
/// separator, so the marks of all lines start in the same column.
pub proof fn lemma_label_len(level: int, zero_level: int, min: int, max: int)
    ensures
        label(level, zero_level, min, max).len() == axis_width(min, max) + 2,
{
    reveal_strlit("0 |");
    reveal_strlit(" |");
}

/// Every line of a chart has the same length: the label, one mark per row, and
/// the line break.
pub proof fn lemma_line_len(level: int, zero_level: int, min: int, max: int, heights: Seq<i32>)
    ensures
        line(level, zero_level, min, max, heights).len() == axis_width(min, max) + 3 + heights.len(),
{
    reveal_strlit("\n");
    lemma_label_len(level, zero_level, min, max);
}

/// The lines from `level` down to level zero are `level + 1` lines of equal
/// length.
pub proof fn lemma_lines_len(level: int, zero_level: int, min: int, max: int, heights: Seq<i32>)
    requires
        level >= -1,
    ensures
        lines_down_from(level, zero_level, min, max, heights).len() == (level + 1) * (axis_width(min, max)
            + 3 + heights.len()),
    decreases level + 1,
{
    let width = axis_width(min, max) + 3 + heights.len();
    if level >= 0 {
        lemma_line_len(level, zero_level, min, max, heights);
        lemma_lines_len(level - 1, zero_level, min, max, heights);
        assert(width + level * width == (level + 1) * width) by (nonlinear_arith);
    } else {
        assert(0 * width == 0) by (nonlinear_arith);
    }
}

/// A chart of values from `min` up to `max` has one line for each level from
/// the top level down to zero, all of the same length.
pub proof fn law_chart_len(min: int, max: int, zero_level: int, heights: Seq<i32>)
    requires
        min <= max,
    ensures
        chart(min, max, zero_level, heights).len() == (top_level(min, max) + 1) * (axis_width(min, max)
            + 3 + heights.len()),
{
    lemma_lines_len(top_level(min, max), zero_level, min, max, heights);
}

/// Where all values are equal the chart is the single line of level zero.
pub proof fn law_flat_chart(value: int, zero_level: int, heights: Seq<i32>)
    ensures
        chart(value, value, zero_level, heights) == line(0, zero_level, value, value, heights),
{
    reveal_with_fuel(lines_down_from, 2);
}

/// Where `max` is below `min`, as it is for the range of no values, the chart is
/// empty.
pub proof fn law_empty_chart(min: int, max: int, zero_level: int, heights: Seq<i32>)
    requires
        max < min,
    ensures
        chart(min, max, zero_level, heights) == Seq::<char>::empty(),
{
}

/// The chart of a table whose slots all give the same number is one line,
/// whatever the scalings are: the label `0` flush right in the label column, and a
/// star for every row.
pub proof fn law_plot_of_equal_values<
    T: Default,
    F: Fn(&T) -> i32,
    S: Fn(i64, i64, i64) -> i32,
    Z: Fn(i64, i64, i64) -> i32,
>(
    table: TableModel<T>,
    value: F,
    scale: S,
    zero: Z,
    values: Seq<i32>,
    heights: Seq<i32>,
    zero_level: i32,
    text: Seq<char>,
)
    requires
        is_plot(table, value, scale, zero, values, heights, zero_level, text),
        lowest(values) == highest(values),
    ensures
        text == spaces(decimal(lowest(values)).len() - 1) + "0 |"@ + Seq::new(
            table.length,
            |r: int| '*',
        ) + "\n"@,
{
    let same = lowest(values);
    law_flat_chart(same, 0, heights);
    assert(marks(heights, 0) =~= Seq::new(table.length, |r: int| '*')) by {
        assert forall|r: int| 0 <= r < heights.len() implies heights[r] == 0 by {
            assert(is_level(scale, values[r] - same, 0, heights[r]));
        }
    }
}

/// The chart of a table without slots is empty, whatever the scalings are.
pub proof fn law_plot_without_slots<
    T: Default,
    F: Fn(&T) -> i32,
    S: Fn(i64, i64, i64) -> i32,
    Z: Fn(i64, i64, i64) -> i32,
>(
    table: TableModel<T>,
    value: F,
    scale: S,
    zero: Z,
    values: Seq<i32>,
    heights: Seq<i32>,
    zero_level: i32,
    text: Seq<char>,
)
    requires
        is_plot(table, value, scale, zero, values, heights, zero_level, text),
        table.capacity() == 0,
    ensures
        text == Seq::<char>::empty(),
{
    law_empty_chart(lowest(values), highest(values), zero_level as int, heights);
}

} // verus!
