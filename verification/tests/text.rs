use udatatable::uDataTable;

#[derive(Copy, Clone, Debug, Default, PartialEq)]
struct Triple {
    a: u32,
    b: u32,
    c: u32,
}

fn csv(row: &Triple) -> String {
    format!("{}, {}, {}", row.a, row.b, row.c)
}

fn triples(count: u32) -> uDataTable<'static, Triple, 10, 3> {
    let mut table = uDataTable::<Triple, 10, 3>::new(["a", "b", "c"]);
    for i in 0..count {
        table.append(Triple { a: i, b: i * 2, c: i * 3 }).unwrap();
    }
    table
}

#[test]
fn summary_names_the_columns_and_the_length() {
    assert_eq!(triples(5).summary(), "uDataTable<[\"a\", \"b\", \"c\"], length: 5>");
}

#[test]
fn summary_of_an_empty_table() {
    assert_eq!(triples(0).summary(), "uDataTable<[\"a\", \"b\", \"c\"], length: 0>");
}

#[test]
fn summary_of_one_column() {
    let mut table = uDataTable::<i32, 3, 1>::new(["volts"]);
    table.append(1).unwrap();
    assert_eq!(table.summary(), "uDataTable<[\"volts\"], length: 1>");
}

#[test]
fn summary_without_columns() {
    let table = uDataTable::<i32, 3, 0>::new([]);
    assert_eq!(table.summary(), "uDataTable<[\"\"], length: 0>");
}

#[test]
fn summary_of_a_long_table() {
    let mut table = uDataTable::<u8, 300, 2>::new(["n", "m"]);
    for i in 0..120 {
        table.append(i as u8).unwrap();
    }
    assert_eq!(table.summary(), "uDataTable<[\"n\", \"m\"], length: 120>");
    for i in 0..180 {
        table.append(i as u8).unwrap();
    }
    assert_eq!(table.summary(), "uDataTable<[\"n\", \"m\"], length: 300>");
}

#[test]
fn summary_after_erase() {
    let mut table = triples(7);
    table.erase();
    assert_eq!(table.summary(), "uDataTable<[\"a\", \"b\", \"c\"], length: 0>");
}

#[test]
fn tabular_form_of_three_rows() {
    let mut table = uDataTable::<Triple, 3, 3>::new(["a", "b", "c"]);
    table.append(Triple { a: 0, b: 0, c: 0 }).unwrap();
    table.append(Triple { a: 1, b: 2, c: 3 }).unwrap();
    table.append(Triple { a: 2, b: 4, c: 6 }).unwrap();
    assert_eq!(table.tabular(csv), "\"a\",\"b\",\"c\"\n0, 0, 0\n1, 2, 3\n2, 4, 6\n");
}

#[test]
fn tabular_form_of_five_rows_in_ten_slots() {
    assert_eq!(
        triples(5).tabular(csv),
        "\"a\",\"b\",\"c\"\n0, 0, 0\n1, 2, 3\n2, 4, 6\n3, 6, 9\n4, 8, 12\n"
    );
}

#[test]
fn tabular_form_of_an_empty_table_is_the_header_line() {
    assert_eq!(triples(0).tabular(csv), "\"a\",\"b\",\"c\"\n");
}

#[test]
fn tabular_form_of_one_column() {
    let mut table = uDataTable::<i32, 2, 1>::new(["x"]);
    table.append(-3).unwrap();
    table.append(14).unwrap();
    assert_eq!(table.tabular(|v| format!("{}", v)), "\"x\"\n-3\n14\n");
}

#[test]
fn tabular_form_without_columns() {
    let mut table = uDataTable::<i32, 2, 0>::new([]);
    assert_eq!(table.tabular(|v| format!("{}", v)), "\n");
    table.append(8).unwrap();
    assert_eq!(table.tabular(|v| format!("{}", v)), "\n8\n");
}

#[test]
fn tabular_form_skips_erased_rows() {
    let mut table = triples(4);
    table.erase();
    table.append(Triple { a: 9, b: 8, c: 7 }).unwrap();
    assert_eq!(table.tabular(csv), "\"a\",\"b\",\"c\"\n9, 8, 7\n");
}

#[test]
fn tabular_form_renders_each_row_once_and_in_order() {
    let table = triples(4);
    let seen = std::cell::RefCell::new(Vec::new());
    let text = table.tabular(|row| {
        seen.borrow_mut().push(row.a);
        String::from("-")
    });
    assert_eq!(text, "\"a\",\"b\",\"c\"\n-\n-\n-\n-\n");
    assert_eq!(*seen.borrow(), vec![0, 1, 2, 3]);
}
