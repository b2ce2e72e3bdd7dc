use lsplus::element::{Element, FileStat, Timestamp, TypeOfFile};
use lsplus::out::list::{
    add_recursive_lines, count_elements, dates_known, entry_rows, get_max_width,
    get_slice_of_string, is_descended, list, log10_floor, render_tree, size_and_creation,
    table_footer, table_header, table_rows, tree_for_terminal, Node,
};
use lsplus::utils::{system_time_to_string, SortBy};

const NOW: Timestamp = Timestamp { secs: 0, nanos: 0 };
const RS: &str = "\u{e7a8}";
const TXT: &str = "\u{e612}";
const DIR: &str = "\u{f4d4}";
const ANY: &str = "\u{f0214}";
const COLUMNS_END: &str = "┬─╼ Size ╾─┬──╼ Creation ╾──╮\n";
const FOOTER_END: &str = "┴──────────┴────────────────╯\n";
const BLANK_COLUMNS: &str = "│          │                │\n";

fn element(path: &str, is_dir: bool, len: u64, secs: i64, nanos: u32) -> Element {
    Element::new(
        path,
        Some(FileStat {
            link_target: None,
            is_dir,
            is_file: !is_dir,
            is_block_device: false,
            is_socket: false,
            len,
            mode: 0,
            created: Some(Timestamp { secs, nanos }),
        }),
        NOW,
    )
}

fn file(path: &str, len: u64, secs: i64) -> Node {
    Node { element: element(path, false, len, secs, 0), children: Vec::new() }
}

fn dir(path: &str, secs: i64, children: Vec<Node>) -> Node {
    Node { element: element(path, true, 4096, secs, 0), children }
}

fn project() -> Vec<Node> {
    vec![
        file("./b.txt", 1536, 86400),
        dir(
            "./src",
            1700000000,
            vec![
                file("./src/a_very_long_file_name_that_wraps.rs", 10, 0),
                dir("./src/out", 0, vec![file("./src/out/x", 0, 0)]),
                file("./src/z", 0, 0),
            ],
        ),
        file("./a.rs", 3, 0),
    ]
}

#[test]
fn header_centres_the_title() {
    assert_eq!(table_header(13), format!("╭╼ File name ╾─{}", COLUMNS_END));
    assert_eq!(table_header(14), format!("╭─╼ File name ╾─{}", COLUMNS_END));
    assert_eq!(table_header(29), format!("╭────────╼ File name ╾─────────{}", COLUMNS_END));
}

#[test]
fn header_of_a_column_too_narrow_for_the_title() {
    assert_eq!(table_header(12), format!("╭╼ File name ╾{}", COLUMNS_END));
    assert_eq!(table_header(5), format!("╭╼ File name ╾{}", COLUMNS_END));
    assert_eq!(table_header(0), format!("╭╼ File name ╾{}", COLUMNS_END));
}

#[test]
fn footer_centres_the_count() {
    assert_eq!(table_footer(7, 14), format!("╰╼ 7 Elements ╾─{}", FOOTER_END));
    assert_eq!(table_footer(7, 29), format!("╰────────╼ 7 Elements ╾────────{}", FOOTER_END));
    assert_eq!(table_footer(1200, 20), format!("╰──╼ 1200 Elements ╾──{}", FOOTER_END));
    assert_eq!(table_footer(10, 15), format!("╰╼ 10 Elements ╾─{}", FOOTER_END));
}

#[test]
fn footer_of_an_empty_listing_and_of_a_narrow_column() {
    assert_eq!(table_footer(0, 13), format!("╰╼ 0 Elements ╾{}", FOOTER_END));
    assert_eq!(table_footer(123456, 3), format!("╰╼ 123456 Elements ╾{}", FOOTER_END));
    assert_eq!(table_footer(0, 0), format!("╰╼ 0 Elements ╾{}", FOOTER_END));
}

#[test]
fn header_and_footer_are_as_wide_as_a_row() {
    for name_length in [13usize, 14, 20, 33] {
        for count in [0usize, 5, 99, 100] {
            let header = table_header(name_length).chars().count();
            assert_eq!(header, name_length + 2 + 29 + 1);
            if name_length >= 13 + log10_floor(count) {
                assert_eq!(table_footer(count, name_length).chars().count(), header);
            }
        }
    }
}

#[test]
fn whole_part_of_the_decimal_logarithm() {
    assert_eq!(log10_floor(0), 0);
    assert_eq!(log10_floor(1), 0);
    assert_eq!(log10_floor(9), 0);
    assert_eq!(log10_floor(10), 1);
    assert_eq!(log10_floor(99), 1);
    assert_eq!(log10_floor(100), 2);
    assert_eq!(log10_floor(999_999), 5);
    assert_eq!(log10_floor(1_000_000), 6);
}

#[test]
fn slices_cut_a_text_into_chunks() {
    assert_eq!(get_slice_of_string("abcdefghij", 4, 0, 0), "abcd");
    assert_eq!(get_slice_of_string("abcdefghij", 4, 1, 0), "efgh");
    assert_eq!(get_slice_of_string("abcdefghij", 4, 2, 9), "ij");
    assert_eq!(get_slice_of_string("abcdefghij", 4, 3, 0), "");
    assert_eq!(get_slice_of_string("abcdefghij", 10, 0, 0), "abcdefghij");
    assert_eq!(get_slice_of_string("abcdefghij", 11, 0, 0), "abcdefghij");
    assert_eq!(get_slice_of_string("", 4, 0, 0), "");
}

#[test]
fn chunks_put_together_are_the_text() {
    let text = "abcdefghijklmnopqrstuvwxyz";
    for chunk in 1..30 {
        let rows = (text.len() - 1) / chunk + 1;
        let whole: String = (0..rows).map(|j| get_slice_of_string(text, chunk, j, 0)).collect();
        assert_eq!(whole, text);
        assert_ne!(get_slice_of_string(text, chunk, rows - 1, 0), "");
    }
}

#[test]
fn rows_of_a_long_name_hold_all_of_it() {
    let name = "abcdefghijklmnopqrstuvwxyz";
    let rendered = format!("I {} ", name);
    for name_length in 3..32 {
        let rows = entry_rows(&rendered, name, "|\n", name_length, 0, &[], false);
        let shown: String = rows
            .lines()
            .map(|line| line.chars().skip(4).take(name_length - 2).collect::<String>())
            .collect();
        assert_eq!(shown.trim_end(), name);
    }
}

#[test]
fn slices_count_scalar_values() {
    assert_eq!(get_slice_of_string("\u{f4d4} \u{e9}t\u{e9}/", 3, 0, 0), "\u{f4d4} \u{e9}");
    assert_eq!(get_slice_of_string("\u{f4d4} \u{e9}t\u{e9}/", 3, 1, 0), "t\u{e9}/");
}

#[test]
fn slices_at_the_limits_of_the_machine() {
    assert_eq!(get_slice_of_string("abc", 0, 0, 0), "");
    assert_eq!(get_slice_of_string("abc", 0, usize::MAX, 0), "");
    assert_eq!(get_slice_of_string("abc", usize::MAX, 0, 0), "abc");
    assert_eq!(get_slice_of_string("abc", usize::MAX, 2, 0), "");
    assert_eq!(get_slice_of_string("abc", 2, usize::MAX, 0), "");
    assert_eq!(get_slice_of_string("abc", 1, usize::MAX - 1, 0), "");
}

#[test]
fn tree_lines_of_the_first_level_are_the_branch_alone() {
    let mut s = String::from("x");
    add_recursive_lines(&mut s, &[true], true, "╰─", "├─");
    assert_eq!(s, "x╰─");
    let mut s = String::new();
    add_recursive_lines(&mut s, &[true], false, "╰─", "├─");
    assert_eq!(s, "├─");
}

#[test]
fn tree_lines_show_which_ancestors_go_on() {
    let mut s = String::new();
    add_recursive_lines(&mut s, &[false, true, false], false, "╰─", "├─");
    assert_eq!(s, "  │ ├─");
    let mut s = String::new();
    add_recursive_lines(&mut s, &[true, false, false, true], true, "  ", "│ ");
    assert_eq!(s, "│ │     ");
}

#[test]
fn tree_lines_without_ancestors() {
    let mut s = String::from("ab");
    add_recursive_lines(&mut s, &[], false, "L", "N");
    assert_eq!(s, "abN");
}

#[test]
fn size_and_creation_columns() {
    assert_eq!(
        size_and_creation(TypeOfFile::File, 1536, "01-01-70 00:00"),
        "│   1.50 K │ 01-01-70 00:00 │\n"
    );
    assert_eq!(
        size_and_creation(TypeOfFile::Dir, 1536, "01-01-70 00:00"),
        "│          │ 01-01-70 00:00 │\n"
    );
    assert_eq!(size_and_creation(TypeOfFile::Link, 0, "d"), "│   0.00 B │ d │\n");
    assert_eq!(
        size_and_creation(TypeOfFile::Socket, 1048575, ""),
        "│1024.00 K │  │\n"
    );
    assert_eq!(size_and_creation(TypeOfFile::Block, 5, "x"), "│      5 B │ x │\n");
}

#[test]
fn dates_are_written_in_utc() {
    let date = |secs: i64, nanos: u32| system_time_to_string(Timestamp { secs, nanos });
    assert_eq!(date(0, 0).unwrap(), "01-01-70 00:00");
    assert_eq!(date(86400, 0).unwrap(), "02-01-70 00:00");
    assert_eq!(date(1700000000, 0).unwrap(), "14-11-23 22:13");
    assert_eq!(date(1700000039, 999_999_999).unwrap(), "14-11-23 22:13");
    assert_eq!(date(-1, 0).unwrap(), "31-12-69 23:59");
    assert_eq!(date(951782400, 0).unwrap(), "29-02-00 00:00");
    assert_eq!(date(253402300799, 0).unwrap(), "31-12-99 23:59");
}

#[test]
fn some_points_in_time_have_no_date() {
    let date = |secs: i64, nanos: u32| system_time_to_string(Timestamp { secs, nanos });
    assert_eq!(date(i64::MAX, 0), None);
    assert_eq!(date(i64::MIN, 0), None);
    assert_eq!(date(0, 2_000_000_000), None);
}

#[test]
fn entry_that_fits_has_one_row() {
    let rows = entry_rows("I name ", "name", "|cols\n", 10, 0, &[], true);
    assert_eq!(rows, "│ I name    |cols\n");
}

#[test]
fn entry_is_cut_at_the_name_column() {
    let rows = entry_rows("I abcdefgh ", "abcdefgh", "|c\n", 10, 0, &[], false);
    assert_eq!(rows, "│ I abcdefgh|c\n");
}

#[test]
fn long_name_goes_on_in_further_rows() {
    let rows = entry_rows("I abcdefghijklmnopqrstu ", "abcdefghijklmnopqrstu", "|c\n", 10, 0, &[], false);
    let expected = format!(
        "│ I abcdefgh|c\n│   ijklmnop{}│   qrstu   {}",
        BLANK_COLUMNS, BLANK_COLUMNS
    );
    assert_eq!(rows, expected);
}

#[test]
fn name_of_exactly_two_chunks() {
    let rows = entry_rows("I abcdefghijklmnop ", "abcdefghijklmnop", "|c\n", 10, 0, &[], false);
    assert_eq!(rows, format!("│ I abcdefgh|c\n│   ijklmnop{}", BLANK_COLUMNS));
}

#[test]
fn nested_entry_gets_tree_lines_in_every_row() {
    let stack = [true, false];
    let rows = entry_rows("I abcdefghij ", "abcdefghij", "|c\n", 12, 2, &stack, false);
    let expected = format!("│ │ ├─I abcdef|c\n│ │ │   ghij  {}", BLANK_COLUMNS);
    assert_eq!(rows, expected);
    let rows = entry_rows("I abcdefghij ", "abcdefghij", "|c\n", 12, 2, &[false, true], true);
    let expected = format!("│   ╰─I abcdef|c\n│       ghij  {}", BLANK_COLUMNS);
    assert_eq!(rows, expected);
}

#[test]
fn nesting_deeper_than_the_column_leaves_one_unit_for_the_name() {
    let rows = entry_rows("I ab ", "ab", "|\n", 3, 1, &[true], true);
    let expected = format!("│ ╰─I|\n│     b{}", BLANK_COLUMNS);
    assert_eq!(rows, expected);
    let rows = entry_rows("I ab ", "ab", "|\n", 0, usize::MAX, &[true], true);
    let expected = format!("│ |\n│     b{}", BLANK_COLUMNS);
    assert_eq!(rows, expected);
}

#[test]
fn empty_name_has_no_further_rows() {
    assert_eq!(entry_rows("I  ", "", "|\n", 0, 0, &[], true), "│ |\n");
}

#[test]
fn listing_descends_into_directories_above_the_limit() {
    let d = element("d", true, 0, 0, 0);
    let f = element("f", false, 0, 0, 0);
    assert!(is_descended(&d, 0, 1));
    assert!(!is_descended(&d, 1, 1));
    assert!(!is_descended(&d, 0, 0));
    assert!(!is_descended(&f, 0, 5));
    assert!(is_descended(&d, 4, 5));
}

#[test]
fn count_is_the_number_of_entries_within_the_limit() {
    let nodes = project();
    assert_eq!(count_elements(&nodes, 0, 0), 3);
    assert_eq!(count_elements(&nodes, 1, 0), 6);
    assert_eq!(count_elements(&nodes, 2, 0), 7);
    assert_eq!(count_elements(&nodes, 5, 0), 7);
    assert_eq!(count_elements(&nodes, usize::MAX, 0), 7);
    assert_eq!(count_elements(&Vec::new(), 3, 0), 0);
}

#[test]
fn count_ignores_what_hangs_below_a_file() {
    let mut odd = file("f", 0, 0);
    odd.children.push(file("f/g", 0, 0));
    assert_eq!(count_elements(&vec![odd], 5, 0), 1);
}

#[test]
fn widest_entry_counts_its_indentation() {
    let nodes = project();
    // "b.txt" with glyph, two spaces: 8 units
    assert_eq!(get_max_width(&nodes, 0, 0), 8);
    // the long name: 35 units, glyph and spaces 3, one level of nesting 2
    assert_eq!(get_max_width(&nodes, 1, 0), 40);
    assert_eq!(get_max_width(&nodes, 9, 0), 40);
    assert_eq!(get_max_width(&Vec::new(), 9, 0), 0);
    assert_eq!(get_max_width(&vec![file("ab", 0, 0)], 0, 3), 5 + 6);
    assert_eq!(get_max_width(&vec![file("ab", 0, 0)], 0, usize::MAX), usize::MAX);
}

#[test]
fn tree_view_of_a_project() {
    let bar = "│";
    let expected = [
        format!("╭────────╼ File name ╾─────────{}", COLUMNS_END),
        format!("│ {:<29}{bar}      3 B {bar} 01-01-70 00:00 {bar}\n", format!("{RS} a.rs ")),
        format!("│ {:<29}{bar}   1.50 K {bar} 02-01-70 00:00 {bar}\n", format!("{TXT} b.txt ")),
        format!("│ {:<29}{bar}          {bar} 14-11-23 22:13 {bar}\n", format!("{DIR} src/ ")),
        format!("│ ├─{RS} a_very_long_file_name_tha{bar}     10 B {bar} 01-01-70 00:00 {bar}\n"),
        format!("│ {:<29}{}", "│   t_wraps.rs", BLANK_COLUMNS),
        format!("│ {:<29}{bar}          {bar} 01-01-70 00:00 {bar}\n", format!("├─{DIR} out/ ")),
        format!("│ {:<29}{bar}   0.00 B {bar} 01-01-70 00:00 {bar}\n", format!("│ ╰─{ANY} x ")),
        format!("│ {:<29}{bar}   0.00 B {bar} 01-01-70 00:00 {bar}\n", format!("╰─{ANY} z ")),
        format!("╰────────╼ 7 Elements ╾────────{}", FOOTER_END),
    ]
    .concat();
    assert_eq!(render_tree(&project(), 60, 5, &SortBy::NAME).unwrap(), expected);
}

#[test]
fn tree_view_of_the_top_level_only() {
    let bar = "│";
    let expected = [
        format!("╭─╼ File name ╾─{}", COLUMNS_END),
        format!("│ {:<14}{bar}   1.50 K {bar} 02-01-70 00:00 {bar}\n", format!("{TXT} b.txt ")),
        format!("│ {:<14}{bar}          {bar} 14-11-23 22:13 {bar}\n", format!("{DIR} src/ ")),
        format!("│ {:<14}{bar}      3 B {bar} 01-01-70 00:00 {bar}\n", format!("{RS} a.rs ")),
        format!("╰╼ 3 Elements ╾─{}", FOOTER_END),
    ]
    .concat();
    assert_eq!(render_tree(&project(), 80, 0, &SortBy::NONE).unwrap(), expected);
}

#[test]
fn tree_view_sorts_every_level() {
    let text = render_tree(&project(), 200, 1, &SortBy::SIZE).unwrap();
    let names: Vec<&str> = text
        .lines()
        .filter(|line| line.starts_with("│ "))
        .map(|line| line.trim_start_matches("│ ").split(' ').nth(1).unwrap())
        .collect();
    // directories have size 0 and keep their place among the other empty entries
    assert_eq!(names, ["b.txt", "a.rs", "src/", "a_very_long_file_name_that_wraps.rs", "out/", "z"]);
    assert!(text.contains("╼ 6 Elements ╾"));
    let text = render_tree(&project(), 200, 1, &SortBy::CREATION).unwrap();
    let names: Vec<&str> = text
        .lines()
        .filter(|line| line.starts_with("│ "))
        .map(|line| line.trim_start_matches("│ ").split(' ').nth(1).unwrap())
        .collect();
    assert_eq!(names, ["src/", "a_very_long_file_name_that_wraps.rs", "out/", "z", "b.txt", "a.rs"]);
}

#[test]
fn tree_view_of_an_empty_directory() {
    let expected =
        [format!("╭─╼ File name ╾─{}", COLUMNS_END), format!("╰╼ 0 Elements ╾─{}", FOOTER_END)].concat();
    assert_eq!(render_tree(&Vec::new(), 80, 3, &SortBy::NAME).unwrap(), expected);
}

#[test]
fn tree_view_on_a_narrow_terminal() {
    let bar = "│";
    let nodes = vec![
        dir("./src", 1700000000, vec![file("./src/a_very_long_file_name_that_wraps.rs", 10, 0)]),
        file("./abcdefghijklmnopqrstuvwxyz0123456789", 3, 0),
    ];
    let expected = [
        format!("╭──╼ File name ╾───{}", COLUMNS_END),
        format!("│ {:<17}{bar}          {bar} 14-11-23 22:13 {bar}\n", format!("{DIR} src/ ")),
        format!("│ ╰─{RS} a_very_long_f{bar}     10 B {bar} 01-01-70 00:00 {bar}\n"),
        format!("│ {:<17}{}", "    ile_name_that", BLANK_COLUMNS),
        format!("│ {:<17}{}", "    _wraps.rs", BLANK_COLUMNS),
        format!("│ {ANY} abcdefghijklmno{bar}      3 B {bar} 01-01-70 00:00 {bar}\n"),
        format!("│ {:<17}{}", "  pqrstuvwxyz0123", BLANK_COLUMNS),
        format!("│ {:<17}{}", "  456789", BLANK_COLUMNS),
        format!("╰──╼ 3 Elements ╾──{}", FOOTER_END),
    ]
    .concat();
    assert_eq!(render_tree(&nodes, 48, 5, &SortBy::NONE).unwrap(), expected);
}

#[test]
fn tree_view_on_a_terminal_with_no_room_for_names() {
    let nodes = vec![file("ab", 1, 0)];
    let expected = [
        format!("╭╼ File name ╾{}", COLUMNS_END),
        format!("│ │      1 B │ 01-01-70 00:00 │\n"),
        format!("│   b{}", BLANK_COLUMNS),
        format!("╰╼ 1 Elements ╾{}", FOOTER_END),
    ]
    .concat();
    assert_eq!(render_tree(&nodes, 31, 0, &SortBy::NONE).unwrap(), expected);
    assert_eq!(render_tree(&nodes, 0, 0, &SortBy::NONE).unwrap(), expected);
}

#[test]
fn name_column_leaves_room_for_the_count() {
    let nodes: Vec<Node> = (0..100).map(|i| file(&format!("f{}", i), 0, 0)).collect();
    let text = render_tree(&nodes, 80, 0, &SortBy::NONE).unwrap();
    let first = text.lines().next().unwrap();
    // 14 units and two more for the two further digits of the count
    assert_eq!(first, format!("╭──╼ File name ╾──{}", COLUMNS_END).trim_end());
    let last = text.lines().last().unwrap();
    assert_eq!(last, format!("╰╼ 100 Elements ╾─{}", FOOTER_END).trim_end());
    assert_eq!(text.lines().count(), 102);
}

#[test]
fn every_row_of_the_table_has_the_same_width() {
    let text = render_tree(&project(), 60, 5, &SortBy::NAME).unwrap();
    for line in text.lines() {
        assert_eq!(line.chars().count(), 29 + 2 + 29);
    }
}

#[test]
fn rows_of_one_level() {
    let nodes = vec![file("y", 1, 0), file("x", 2, 0)];
    let bar = "│";
    let expected = [
        format!("│ {:<13}{bar}      2 B {bar} 01-01-70 00:00 {bar}\n", format!("├─{ANY} x ")),
        format!("│ {:<13}{bar}      1 B {bar} 01-01-70 00:00 {bar}\n", format!("╰─{ANY} y ")),
    ]
    .concat();
    assert_eq!(table_rows(&nodes, 13, 0, 1, &vec![false], &SortBy::NAME), expected);
}

#[test]
fn entry_without_a_date_fails_the_listing() {
    let undated = || Node { element: element("u", false, 0, i64::MAX, 0), children: Vec::new() };
    assert!(!dates_known(&vec![undated()], 0, 0));
    assert_eq!(render_tree(&vec![undated()], 80, 0, &SortBy::NONE), None);
    let hidden_below = vec![dir("d", 0, vec![undated()])];
    assert!(dates_known(&hidden_below, 0, 0));
    assert!(!dates_known(&hidden_below, 1, 0));
    assert!(render_tree(&hidden_below, 80, 0, &SortBy::NONE).is_some());
    assert_eq!(render_tree(&hidden_below, 80, 1, &SortBy::NONE), None);
    assert!(dates_known(&project(), 9, 0));
}

#[test]
fn tree_view_for_the_terminal_at_hand() {
    // whether there is a terminal depends on how the tests are run
    match list(project(), 5, SortBy::NAME) {
        Some(text) => {
            assert!(text.starts_with("╭"));
            assert!(text.contains("╼ 7 Elements ╾"));
        }
        None => {}
    }
}

#[test]
fn tree_view_needs_a_terminal() {
    assert_eq!(tree_for_terminal(&project(), None, 5, &SortBy::NAME), None);
    assert_eq!(tree_for_terminal(&Vec::new(), None, 0, &SortBy::NONE), None);
}

#[test]
fn tree_view_for_the_width_that_the_terminal_gave() {
    for width in [0usize, 31, 48, 60, 200] {
        let text = tree_for_terminal(&project(), Some(width), 5, &SortBy::NAME);
        assert!(text.is_some());
        assert_eq!(text, render_tree(&project(), width, 5, &SortBy::NAME));
    }
    let text = tree_for_terminal(&project(), Some(80), 0, &SortBy::NONE).unwrap();
    assert!(text.starts_with("╭─╼ File name ╾─┬"));
    assert!(text.ends_with(&format!("╰╼ 3 Elements ╾─{}", FOOTER_END)));
}

#[test]
fn tree_view_with_a_terminal_still_needs_dates() {
    let undated = vec![Node { element: element("u", false, 0, i64::MAX, 0), children: Vec::new() }];
    assert_eq!(tree_for_terminal(&undated, Some(80), 0, &SortBy::NONE), None);
}
