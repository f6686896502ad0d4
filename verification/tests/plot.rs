use std::cell::RefCell;

use udatatable::decimal::count_digits;
use udatatable::plot::{
    display_height, mark, render_chart, value_range, write_label, write_marks, write_n_spaces,
    MAX_HEIGHT,
};
use udatatable::uDataTable;

/// The level of a value, scaled in single precision.
fn scaled_height(offset: i64, distance: i64, top: i64) -> i32 {
    let scale = 1.0 / distance as f32;
    (offset as f32 * scale * top as f32) as i32
}

/// The level of the value zero, scaled in single precision.
fn zero_level(offset: i64, distance: i64, top: i64) -> i32 {
    (top as f32 * offset as f32 / distance as f32) as i32
}

/// A scaling that must not be asked.
fn unasked(_offset: i64, _distance: i64, _top: i64) -> i32 {
    panic!("asked for a level of equal values")
}

/// The chart of a table's rows under a projection.
fn chart_of<T: Copy + Default, const N: usize, const M: usize>(
    table: &uDataTable<'_, T, N, M>,
    value: fn(&T) -> i32,
) -> String {
    table.plot(value, scaled_height, zero_level)
}

fn table_of<const N: usize>(values: &[i32]) -> uDataTable<'static, i32, N, 1> {
    let mut table = uDataTable::<i32, N, 1>::new(["a"]);
    for v in values {
        table.append(*v).unwrap();
    }
    table
}

fn identity(v: &i32) -> i32 {
    *v
}

fn label(level: i64, zero: i32, min: i32, max: i32) -> String {
    let mut out = String::new();
    write_label(level, zero, min, max, &mut out);
    out
}

fn marks(level: i64, heights: &[i32]) -> String {
    let mut out = String::new();
    write_marks(level, heights, &mut out);
    out
}

#[test]
fn count_digits_of_small_numbers() {
    assert_eq!(count_digits(0), 1);
    assert_eq!(count_digits(1), 1);
    assert_eq!(count_digits(9), 1);
    assert_eq!(count_digits(10), 2);
    assert_eq!(count_digits(99), 2);
    assert_eq!(count_digits(100), 3);
    assert_eq!(count_digits(12345), 5);
}

#[test]
fn count_digits_counts_the_sign() {
    assert_eq!(count_digits(-1), 2);
    assert_eq!(count_digits(-9), 2);
    assert_eq!(count_digits(-10), 3);
    assert_eq!(count_digits(-12345), 6);
}

#[test]
fn count_digits_of_the_extremes() {
    assert_eq!(count_digits(i32::MAX), 10);
    assert_eq!(count_digits(i32::MIN), 11);
    assert_eq!(count_digits(i32::MIN + 1), 11);
}

#[test]
fn count_digits_is_the_length_of_the_written_number() {
    for v in [0, 7, -7, 10, -10, 999, 1000, -1000, 65535, -2147483647, i32::MAX, i32::MIN] {
        assert_eq!(count_digits(v) as usize, v.to_string().len());
        assert_eq!(label(0, 1, v, v), format!("{} |", v));
    }
}

#[test]
fn value_range_of_nothing_is_reversed() {
    assert_eq!(value_range(&[]), (i32::MAX, i32::MIN));
}

#[test]
fn value_range_of_one_value() {
    assert_eq!(value_range(&[42]), (42, 42));
    assert_eq!(value_range(&[i32::MIN]), (i32::MIN, i32::MIN));
}

#[test]
fn value_range_of_many() {
    assert_eq!(value_range(&[3, -1, 2]), (-1, 3));
    assert_eq!(value_range(&[0, 1, 2, 3, 4]), (0, 4));
    assert_eq!(value_range(&[5, 5, 5]), (5, 5));
    assert_eq!(value_range(&[i32::MAX, 0, i32::MIN]), (i32::MIN, i32::MAX));
}

#[test]
fn display_height_is_the_distance_up_to_the_cap() {
    assert_eq!(MAX_HEIGHT, 23);
    assert_eq!(display_height(0, 4), 4);
    assert_eq!(display_height(7, 7), 0);
    assert_eq!(display_height(-3, 3), 6);
    assert_eq!(display_height(0, 22), 22);
    assert_eq!(display_height(0, 23), 23);
    assert_eq!(display_height(0, 24), 23);
    assert_eq!(display_height(-5, 100), 23);
    assert_eq!(display_height(i32::MIN, i32::MAX), 23);
}

#[test]
fn display_height_of_a_reversed_range_is_negative() {
    assert_eq!(display_height(4, 3), -1);
    assert_eq!(display_height(i32::MAX, i32::MIN), -4294967295);
}

#[test]
fn write_n_spaces_appends() {
    let mut out = String::from("ab");
    write_n_spaces(0, &mut out);
    assert_eq!(out, "ab");
    write_n_spaces(3, &mut out);
    assert_eq!(out, "ab   ");
    write_n_spaces(1, &mut out);
    assert_eq!(out, "ab    ");
}

#[test]
fn mark_of_a_row() {
    assert_eq!(mark(3, 3), "*");
    assert_eq!(mark(4, 3), ".");
    assert_eq!(mark(2, 3), " ");
    assert_eq!(mark(0, 0), "*");
    assert_eq!(mark(-1, 0), " ");
    assert_eq!(mark(i32::MAX, 23), ".");
    assert_eq!(mark(i32::MIN, 0), " ");
}

#[test]
fn write_marks_appends_one_mark_per_row() {
    assert_eq!(marks(2, &[0, 1, 2, 3, 4]), "  *..");
    assert_eq!(marks(0, &[0, 1, 2, 3, 4]), "*....");
    assert_eq!(marks(4, &[0, 1, 2, 3, 4]), "    *");
    assert_eq!(marks(5, &[0, 1, 2, 3, 4]), "     ");
    assert_eq!(marks(1, &[]), "");
    let mut out = String::from("x |");
    write_marks(1, &[1, 0, 2], &mut out);
    assert_eq!(out, "x |* .");
}

#[test]
fn label_of_the_top_and_the_bottom() {
    assert_eq!(label(4, -1, 1, 5), "5 |");
    assert_eq!(label(0, -1, 1, 5), "1 |");
    assert_eq!(label(23, -7, 100, 2000), "2000 |");
    assert_eq!(label(0, -7, 100, 2000), " 100 |");
    assert_eq!(label(23, 30, -1500, -20), "  -20 |");
    assert_eq!(label(0, 30, -1500, -20), "-1500 |");
}

#[test]
fn label_of_an_inner_level_is_blank() {
    assert_eq!(label(2, -1, 1, 5), "  |");
    assert_eq!(label(11, -7, 100, 2000), "     |");
    assert_eq!(label(5, 30, -1500, -20), "      |");
    assert_eq!(label(24, -1, 0, 100), "    |");
    assert_eq!(label(-1, 5, 0, 100), "    |");
}

#[test]
fn label_of_the_zero_level() {
    assert_eq!(label(2, 2, -2, 2), " 0 |");
    assert_eq!(label(11, 11, -1000, 1000), "    0 |");
    assert_eq!(label(3, 3, -3, 0), " 0 |");
}

#[test]
fn zero_label_wins_over_the_top_and_the_bottom() {
    assert_eq!(label(0, 0, 0, 4), "0 |");
    assert_eq!(label(0, 0, 7, 7), "0 |");
    assert_eq!(label(5, 5, -5, 0), " 0 |");
    assert_eq!(label(0, 0, 10, 20), " 0 |");
}

#[test]
fn top_label_wins_over_the_bottom() {
    assert_eq!(label(0, 3, 7, 7), "7 |");
    assert_eq!(label(0, -1, -12, -12), "-12 |");
}

#[test]
fn chart_of_a_rising_line() {
    let table = table_of::<5>(&[0, 1, 2, 3, 4]);
    assert_eq!(chart_of(&table, identity), "4 |    *\n  |   *.\n  |  *..\n  | *...\n0 |*....\n");
}

#[test]
fn chart_of_five_rows_in_ten_slots() {
    let table = table_of::<10>(&[0, 1, 2, 3, 4]);
    assert_eq!(chart_of(&table, identity), "4 |    *\n  |   *.\n  |  *..\n  | *...\n0 |*....\n");
}

#[test]
fn chart_from_given_heights() {
    assert_eq!(
        render_chart(0, 4, 0, &[0, 1, 2, 3, 4]),
        "4 |    *\n  |   *.\n  |  *..\n  | *...\n0 |*....\n"
    );
    assert_eq!(render_chart(0, 1, 0, &[0, 1]), "1 | *\n0 |*.\n");
    assert_eq!(render_chart(1, 3, -1, &[2, 0, 1]), "3 |*  \n  |. *\n1 |.*.\n");
}

#[test]
fn zero_row_of_a_rising_line_is_the_bottom_row() {
    let table = table_of::<5>(&[0, 1, 2, 3, 4]);
    let chart = chart_of(&table, identity);
    let lines: Vec<&str> = chart.lines().collect();
    assert_eq!(lines.len(), 5);
    assert_eq!(lines[0], "4 |    *");
    assert_eq!(lines[4], "0 |*....");
}

#[test]
fn chart_of_an_empty_table_is_one_line() {
    let table = table_of::<5>(&[]);
    assert_eq!(chart_of(&table, identity), "0 |\n");
    assert_eq!(table.plot(identity, unasked, unasked), "0 |\n");
}

#[test]
fn chart_of_an_erased_table_is_one_line() {
    let mut table = table_of::<5>(&[3, 9, 27]);
    table.erase();
    assert_eq!(chart_of(&table, identity), "0 |\n");
}

#[test]
fn chart_of_equal_values_is_flat() {
    let table = table_of::<3>(&[7, 7, 7]);
    assert_eq!(chart_of(&table, identity), "0 |***\n");
    assert_eq!(table.plot(identity, unasked, unasked), "0 |***\n");
    assert_eq!(render_chart(7, 7, 0, &[0, 0, 0]), "0 |***\n");
    assert_eq!(render_chart(7, 7, 1, &[0, 0, 0]), "7 |***\n");
}

#[test]
fn chart_of_a_table_without_slots_is_empty() {
    let table = table_of::<0>(&[]);
    assert_eq!(chart_of(&table, identity), "");
    assert_eq!(table.plot(identity, unasked, unasked), "");
    assert_eq!(render_chart(i32::MAX, i32::MIN, 0, &[]), "");
    assert_eq!(render_chart(5, 4, 0, &[1, 2]), "");
}

#[test]
fn chart_counts_blank_slots_into_the_range() {
    let table = table_of::<4>(&[5, 6, 7]);
    assert_eq!(
        chart_of(&table, identity),
        "7 |  *\n  | *.\n  |*..\n  |...\n  |...\n  |...\n  |...\n0 |...\n"
    );
}

#[test]
fn chart_across_zero() {
    let table = table_of::<5>(&[-2, -1, 0, 1, 2]);
    assert_eq!(
        chart_of(&table, identity),
        " 2 |    *\n   |   *.\n 0 |  *..\n   | *...\n-2 |*....\n"
    );
}

#[test]
fn chart_is_capped_at_twenty_four_lines() {
    let table = table_of::<3>(&[0, 50, 100]);
    let chart = chart_of(&table, identity);
    let lines: Vec<&str> = chart.lines().collect();
    assert_eq!(lines.len(), 24);
    assert_eq!(lines[0], "100 |  *");
    assert_eq!(lines[12], "    | *.");
    assert_eq!(lines[23], "  0 |*..");
    for (i, line) in lines.iter().enumerate() {
        if i != 0 && i != 23 {
            assert!(line.starts_with("    |"));
        }
        assert_eq!(line.len(), 8);
    }
    assert!(chart.ends_with('\n'));
}

#[test]
fn chart_of_a_projection() {
    #[derive(Copy, Clone, Default)]
    struct Sample {
        volts: i16,
    }
    let mut table = uDataTable::<Sample, 3, 1>::new(["volts"]);
    for volts in [30, 10, 20] {
        table.append(Sample { volts }).unwrap();
    }
    assert_eq!(chart_of(&table, |s| (s.volts / 10) as i32 - 1), "2 |*  \n  |. *\n0 |.*.\n");
}

#[test]
fn plot_asks_for_the_level_of_each_row_and_of_zero() {
    let table = table_of::<6>(&[40, -10, 15]);
    let asked_rows = RefCell::new(Vec::new());
    let asked_zero = RefCell::new(Vec::new());
    let chart = table.plot(
        identity,
        |offset, distance, top| {
            asked_rows.borrow_mut().push((offset, distance, top));
            0
        },
        |offset, distance, top| {
            asked_zero.borrow_mut().push((offset, distance, top));
            -1
        },
    );
    assert_eq!(*asked_rows.borrow(), vec![(50, 50, 23), (0, 50, 23), (25, 50, 23)]);
    assert_eq!(*asked_zero.borrow(), vec![(10, 50, 23)]);
    assert_eq!(chart.lines().count(), 24);
    assert_eq!(chart.lines().last(), Some("-10 |***"));
}

#[test]
fn plot_draws_the_levels_that_the_scaling_gives() {
    let table = table_of::<3>(&[1, 2, 3]);
    let chart = table.plot(identity, |offset, _, _| (3 - offset) as i32, |_, _, _| 2);
    assert_eq!(chart, "0 |.* \n  |..*\n1 |...\n");
}

#[test]
fn plot_with_exact_scaling() {
    let table = table_of::<4>(&[-30, -10, 10, 30]);
    let exact = |offset: i64, distance: i64, top: i64| (offset * top / distance) as i32;
    let chart = table.plot(identity, exact, exact);
    let lines: Vec<&str> = chart.lines().collect();
    assert_eq!(lines.len(), 24);
    assert_eq!(lines[0], " 30 |   *");
    assert_eq!(lines[23 - 15], "    |  *.");
    assert_eq!(lines[23 - 11], "  0 |  ..");
    assert_eq!(lines[23 - 7], "    | *..");
    assert_eq!(lines[23], "-30 |*...");
}

#[test]
fn plot_of_the_widest_range() {
    let table = table_of::<2>(&[i32::MIN, i32::MAX]);
    let chart = chart_of(&table, identity);
    let lines: Vec<&str> = chart.lines().collect();
    assert_eq!(lines.len(), 24);
    assert_eq!(lines[0], " 2147483647 | *");
    assert_eq!(lines[23], "-2147483648 |*.");
    assert_eq!(lines[12], "          0 | .");
}
