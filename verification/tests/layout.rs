use crim::bytes::{append_bytes, constant_time_eq, copy_bytes, copy_range, holds_nul, wipe};
use crim::layout::{format_string_ui, frame_ui, Position};
use crim::table::Table;
use crim::text::{chars_of, is_white_space, text_of};

#[test]
fn centred_line_stands_between_walls() {
    assert_eq!(format_string_ui("abc", 7, &Position::Center, '|'), "|  abc  |");
    // The odd blank goes to the right.
    assert_eq!(format_string_ui("abc", 8, &Position::Center, '|'), "|  abc   |");
    assert_eq!(format_string_ui("abc", 4, &Position::Center, '#'), "#abc #");
    assert_eq!(format_string_ui("", 2, &Position::Center, '|'), "|  |");
    assert_eq!(format_string_ui("", 1, &Position::Center, '|'), "| |");
    assert_eq!(format_string_ui("", 0, &Position::Center, '|'), "||");
}

#[test]
fn line_longer_than_the_width_gets_no_blanks() {
    assert_eq!(format_string_ui("abcdef", 3, &Position::Center, '|'), "|abcdef|");
    assert_eq!(format_string_ui("abc", 3, &Position::Center, '|'), "|abc|");
}

#[test]
fn width_counts_bytes() {
    // Two characters of two bytes each leave one column of five.
    assert_eq!(format_string_ui("éé", 5, &Position::Center, '|'), "|éé |");
}

#[test]
fn pushed_lines_get_blanks_on_one_side() {
    assert_eq!(format_string_ui("abc", 4, &Position::Left, '|'), "abc    ");
    assert_eq!(format_string_ui("abc", 4, &Position::Right, '|'), "    abc");
    assert_eq!(format_string_ui("abc", 0, &Position::Left, '|'), "abc");
    assert_eq!(format_string_ui("", 2, &Position::Right, '|'), "  ");
}

#[test]
fn screen_is_framed_six_columns_wider_than_its_longest_line() {
    let text = vec!["Welcome to CRIM.".to_string(), "".to_string(), "exit : leave".to_string()];
    let lines = frame_ui(&text, Position::Center, '=', '|');
    assert_eq!(
        lines,
        vec![
            "|======================|".to_string(),
            "|   Welcome to CRIM.   |".to_string(),
            "|                      |".to_string(),
            "|     exit : leave     |".to_string(),
            "|======================|".to_string(),
        ]
    );
}

#[test]
fn empty_screen_is_two_rows_of_floor() {
    let lines = frame_ui(&Vec::new(), Position::Center, '-', '+');
    assert_eq!(lines, vec!["+------+".to_string(), "+------+".to_string()]);
    let lines = frame_ui(&vec!["ab".to_string()], Position::Left, '-', '+');
    assert_eq!(
        lines,
        vec![
            "--------        ".to_string(),
            "ab        ".to_string(),
            "--------        ".to_string(),
        ]
    );
}

#[test]
fn white_space_is_what_the_standard_library_says() {
    for n in 0..=0x10ffffu32 {
        if let Some(c) = char::from_u32(n) {
            assert_eq!(is_white_space(c), c.is_whitespace(), "U+{:04X}", n);
        }
    }
}

#[test]
fn text_goes_to_characters_and_back() {
    let chars = chars_of("añ☃b");
    assert_eq!(chars, vec!['a', 'ñ', '☃', 'b']);
    assert_eq!(text_of(&chars, 1, 3), "ñ☃");
    assert_eq!(text_of(&chars, 0, 4), "añ☃b");
    assert_eq!(text_of(&chars, 2, 2), "");
}

#[test]
fn byte_helpers() {
    let mut out = vec![1u8, 2];
    append_bytes(&mut out, &[3, 4, 5]);
    assert_eq!(out, vec![1, 2, 3, 4, 5]);
    assert_eq!(copy_range(&out, 1, 4), vec![2, 3, 4]);
    assert_eq!(copy_range(&out, 2, 2), Vec::<u8>::new());
    assert_eq!(copy_bytes(&out), out);
    assert!(holds_nul(&[1, 0, 2]));
    assert!(!holds_nul(&[1, 2]));
    assert!(!holds_nul(&[]));
    wipe(&mut out);
    assert_eq!(out, vec![0u8; 5]);
}

#[test]
fn comparison_looks_at_every_byte() {
    assert!(constant_time_eq(b"", b""));
    assert!(constant_time_eq(b"abc", b"abc"));
    assert!(!constant_time_eq(b"abc", b"abd"));
    assert!(!constant_time_eq(b"abc", b"xbc"));
    assert!(!constant_time_eq(b"abc", b"ab"));
    assert!(!constant_time_eq(b"\x00", b"\x80"));
    for bit in 0..8 {
        assert!(!constant_time_eq(&[0u8, 0, 0], &[0u8, 1 << bit, 0]));
    }
}

#[test]
fn table_files_rows_under_distinct_names() {
    let mut table: Table<u32> = Table::new();
    assert_eq!(table.len(), 0);
    assert!(table.insert("a".to_string(), 1));
    assert!(table.insert("b".to_string(), 2));
    assert!(!table.insert("a".to_string(), 3));
    assert_eq!(table.len(), 2);
    assert_eq!(table.get(&"a".to_string()), Some(&1));
    assert_eq!(table.get(&"c".to_string()), None);
    assert_eq!(table.position(&"b".to_string()), Some(1));
    assert_eq!(table.entry(1).name, "b");
    assert!(table.replace(&"a".to_string(), 10));
    assert!(!table.replace(&"c".to_string(), 30));
    assert_eq!(table.get(&"a".to_string()), Some(&10));
    assert_eq!(table.position(&"a".to_string()), Some(0));
    assert_eq!(table.remove(&"a".to_string()), Some(10));
    assert_eq!(table.remove(&"a".to_string()), None);
    assert!(!table.contains(&"a".to_string()));
    assert!(table.contains(&"b".to_string()));
    assert_eq!(table.len(), 1);
}
