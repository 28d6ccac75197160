use sevi::buffer::Buffer;

#[test]
fn from_str_holds_the_text() {
    let b = Buffer::from_str("hello world");
    assert_eq!(b.to_string(), "hello world");
    assert_eq!(b.get_version(), 0);
    assert_eq!(b.get_version_count(), 1);
}

#[test]
fn undo_restores_the_text_before_an_edit() {
    let mut b = Buffer::from_str("hello world");
    b.insert(5, ",");
    assert_eq!(b.to_string(), "hello, world");
    assert_eq!(b.get_version(), 1);
    assert_eq!(b.get_version_count(), 2);
    b.undo();
    assert_eq!(b.to_string(), "hello world");
    assert_eq!(b.get_version(), 2);
}

#[test]
fn redo_after_undo_restores_the_edit() {
    let mut b = Buffer::from_str("abc");
    b.delete(0..1);
    assert_eq!(b.to_string(), "bc");
    b.undo();
    assert_eq!(b.to_string(), "abc");
    b.redo();
    assert_eq!(b.to_string(), "bc");
    assert_eq!(b.get_version(), 3);
}

#[test]
fn redo_after_an_edit_keeps_the_edit() {
    let mut b = Buffer::from_str("abc");
    b.insert(3, "d");
    b.redo();
    assert_eq!(b.to_string(), "abcd");
}

#[test]
fn edit_after_undo_drops_the_redo_history() {
    let mut b = Buffer::from_str("abc");
    b.insert(3, "d");
    b.insert(4, "e");
    assert_eq!(b.get_version_count(), 3);
    b.undo();
    b.insert(0, "x");
    assert_eq!(b.get_version_count(), 3);
    assert_eq!(b.to_string(), "xabcd");
    b.redo();
    assert_eq!(b.to_string(), "xabcd");
}

#[test]
fn undo_at_the_first_version_stays() {
    let mut b = Buffer::from_str("abc");
    b.undo();
    assert_eq!(b.to_string(), "abc");
    assert_eq!(b.get_version(), 1);
}

#[test]
fn insert_current_copies_the_first_version_once() {
    let mut b = Buffer::from_str("ab");
    b.insert_current(1, "X");
    assert_eq!(b.to_string(), "aXb");
    assert_eq!(b.get_version_count(), 2);
    b.insert_current(0, "Y");
    assert_eq!(b.to_string(), "YaXb");
    assert_eq!(b.get_version_count(), 2);
    b.undo();
    assert_eq!(b.to_string(), "ab");
}

#[test]
fn delete_current_and_delete() {
    let mut b = Buffer::from_str("hello");
    b.delete_current(0..2);
    assert_eq!(b.to_string(), "llo");
    b.delete(1..3);
    assert_eq!(b.to_string(), "l");
    assert_eq!(b.get_version_count(), 3);
}

#[test]
fn replace_puts_a_longer_text_in_place_of_the_range_without_its_last_byte() {
    let mut b = Buffer::from_str("abcdef");
    b.replace(1..3, "XYZ");
    assert_eq!(b.to_string(), "aXYZcdef");
    assert_eq!(b.get_version(), 2);
}

#[test]
fn replace_with_a_short_text_changes_nothing_but_the_version() {
    let mut b = Buffer::from_str("abcdef");
    b.replace(1..3, "X");
    assert_eq!(b.to_string(), "abcdef");
    assert_eq!(b.get_version(), 1);
    assert_eq!(b.get_version_count(), 2);
}

#[test]
fn replace_current_in_place() {
    let mut b = Buffer::from_str("abcdef");
    b.replace_current(0..2, "QQ");
    assert_eq!(b.to_string(), "QQbcdef");
}

#[test]
fn bulk_delete_deletes_in_order() {
    let mut b = Buffer::from_str("abc");
    b.bulk_delete(vec![0..1, 0..1]);
    assert_eq!(b.to_string(), "c");
}

#[test]
fn replace_bulk_goes_from_the_last_pair() {
    let mut b = Buffer::from_str("abcdef");
    b.replace_bulk(vec![(0, 0), (2, 3)], vec!["Q".to_string(), "RS".to_string()]);
    assert_eq!(b.to_string(), "QbRSef");
    assert_eq!(b.get_version(), 3);
}

#[test]
fn replace_bulk_cuts_to_the_shorter_list() {
    let mut b = Buffer::from_str("abcdef");
    b.replace_bulk(vec![(0, 1), (4, 5)], vec!["Z".to_string()]);
    assert_eq!(b.to_string(), "Zcdef");
}

#[test]
fn insert_chain_inserts_from_the_last() {
    let mut b = Buffer::from_str("abc");
    b.insert_chain(vec![(0, "<".to_string()), (3, ">".to_string())]);
    assert_eq!(b.to_string(), "<abc>");
    assert_eq!(b.get_version(), 0);
    assert_eq!(b.get_version_count(), 2);
}

#[test]
fn delete_chain_deletes_from_the_last() {
    let mut b = Buffer::from_str("abcd");
    b.delete_chain(vec![0..1, 2..3]);
    assert_eq!(b.to_string(), "bd");
}

#[test]
fn replace_chain_replaces_from_the_last() {
    let mut b = Buffer::from_str("abcd");
    b.replace_chain(vec![(0..1, "X".to_string()), (2..4, "YY".to_string())]);
    assert_eq!(b.to_string(), "XbYY");
}

#[test]
fn insert_pair_wraps_the_range() {
    let mut b = Buffer::from_str("abcd");
    b.insert_pair(1, 2, ("(".to_string(), ")".to_string()));
    assert_eq!(b.to_string(), "a(bc)d");
}

#[test]
fn insert_bulk_pair_wraps_each_range() {
    let mut b = Buffer::from_str("abc");
    b.insert_bulk_pair(
        vec![(0, 0), (2, 2)],
        vec![("[".to_string(), "]".to_string()), ("{".to_string(), "}".to_string())],
    );
    assert_eq!(b.to_string(), "[a]b{c}");
}

#[test]
fn line_count_ignores_a_final_line_feed() {
    assert_eq!(Buffer::from_str("a\nb").get_line_count(), 2);
    assert_eq!(Buffer::from_str("a\nb\n").get_line_count(), 2);
    assert_eq!(Buffer::from_str("").get_line_count(), 0);
    assert_eq!(Buffer::from_str("\n").get_line_count(), 1);
}

#[test]
fn line_len_counts_tabs_by_the_tab_size() {
    let b = Buffer::from_str("\tab\ncd");
    assert_eq!(b.line_len(0), Some(6));
    assert_eq!(b.line_len(1), Some(2));
    assert_eq!(b.line_len(2), None);
}

#[test]
fn byte_offset_of_a_column() {
    let b = Buffer::from_str("ab\ncd\nef");
    assert_eq!(b.get_byte_offset(1, 0), Some(1));
    assert_eq!(b.get_byte_offset(5, 1), Some(5));
    assert_eq!(b.get_byte_offset(0, 2), Some(8));
    let u = Buffer::from_str("\u{e9}x\ny");
    assert_eq!(u.get_byte_offset(1, 0), Some(2));
}

#[test]
fn rows_and_slices() {
    let b = Buffer::from_str("ab\ncd\n");
    let row = b.get_row(1).unwrap();
    assert_eq!(row.text, "cd\n");
    assert_eq!(row.get_line_count(), 2);
    assert_eq!(row.len(), 3);
    assert_eq!(row.byte_len(), 3);
    assert_eq!(row.get_byte_start(), 0);
    assert!(b.get_row(2).is_none());
    let h = Buffer::from_str("hello");
    assert_eq!(h.get_slice(1, 4).unwrap().text, "ell");
    assert!(h.get_slice(3, 2).is_none());
    assert!(h.get_slice(0, 9).is_none());
}

#[test]
fn characters_and_bytes() {
    let b = Buffer::from_str("h\u{e9}llo");
    assert_eq!(b.get_char_count(), 5);
    assert_eq!(b.get_byte_count(), 6);
    assert_eq!(b.get_nth_char(1), Some('\u{e9}'));
    assert_eq!(b.get_nth_char(5), None);
    assert_eq!(b.get_nth_byte(1), Some(0xC3));
    assert_eq!(b.get_nth_byte(6), None);
    assert_eq!(b.get_byte(0), b'h');
}

#[test]
fn add_new_rope_skips_a_copy_of_an_equal_version() {
    let mut b = Buffer::from_str("abc");
    b.add_new_rope();
    assert_eq!(b.get_version_count(), 2);
    b.add_new_rope();
    assert_eq!(b.get_version_count(), 2);
    b.insert(0, "z");
    b.add_new_rope();
    assert_eq!(b.get_version_count(), 4);
}

#[test]
fn char_at_finds_the_character_holding_a_byte() {
    let b = Buffer::from_str("aé b");
    assert_eq!(b.get_char_at(0), Some('a'));
    assert_eq!(b.get_char_at(1), Some('é'));
    assert_eq!(b.get_char_at(2), Some('é'));
    assert_eq!(b.get_char_at(3), Some(' '));
    assert_eq!(b.get_char_at(5), None);
}

#[test]
fn get_word_holds_the_byte_before_the_word() {
    let b = Buffer::from_str("say hello_there now");
    let w = b.get_word(6).expect("word");
    assert_eq!(w.text, " hello_there");
    assert!(b.get_word(3).is_none());
    assert!(b.get_word(40).is_none());
}

#[test]
fn delete_word_removes_the_word_around_a_byte() {
    let mut b = Buffer::from_str("say hello_there now");
    let start = b.delete_word(7);
    assert_eq!(start, 4);
    assert_eq!(b.to_string(), "say  now");
    let end = b.get_byte_count();
    assert_eq!(b.delete_word(end), end);
    assert_eq!(b.to_string(), "say  now");
}

#[test]
fn until_next_word_spans_the_next_word_and_one_byte_more() {
    let b = Buffer::from_str("ab  cd ef");
    let s = b.get_until_next_word(2).expect("slice");
    assert_eq!(s.text, "  cd ");
    let s = b.get_until_next_word(7).expect("slice");
    assert_eq!(s.text, "ef");
    assert!(b.get_until_next_word(9).is_none());
}

#[test]
fn until_prev_word_spans_back_to_the_byte_before_the_word() {
    let b = Buffer::from_str("x ab  cd");
    let s = b.get_until_prev_word(5).expect("slice");
    assert_eq!(s.text, " ab ");
    assert!(b.get_until_prev_word(8).is_none());
}

#[test]
fn delete_line_removes_a_row_with_its_line_break() {
    let mut b = Buffer::from_str("one\ntwo\nthree\nfour\n");
    b.delete_line(1);
    assert_eq!(b.to_string(), "one\nthree\nfour\n");
    let mut c = Buffer::from_str("one\ntwo\nthree");
    c.delete_line(1);
    assert_eq!(c.to_string(), "one\n");
}

#[test]
fn next_word_front_moves_past_the_word_and_the_gap_after_it() {
    let b = Buffer::from_str("hello world foo");
    assert_eq!(b.next_word_front(0), 6);
    assert_eq!(b.next_word_front(3), 6);
    assert_eq!(b.next_word_front(5), 12);
    assert_eq!(b.next_word_front(12), 15);
    assert_eq!(b.next_word_front(15), 15);
}

#[test]
fn next_word_front_starts_at_the_character_that_holds_the_byte() {
    let b = Buffer::from_str("a é b");
    assert_eq!(b.next_word_front(3), 5);
    assert_eq!(b.next_word_front(0), 2);
}

#[test]
fn next_word_back_stops_one_before_the_end_of_the_next_word() {
    let b = Buffer::from_str("hello world foo");
    assert_eq!(b.next_word_back(0), 10);
    assert_eq!(b.next_word_back(5), 15);
    assert_eq!(b.next_word_back(12), 15);
    assert_eq!(b.next_word_back(20), 20);
}

#[test]
fn prev_word_front_goes_back_to_the_start_of_the_previous_word() {
    let b = Buffer::from_str("hello world foo");
    assert_eq!(b.prev_word_front(12), 6);
    assert_eq!(b.prev_word_front(15), 15);
    let b = Buffer::from_str(" hello world");
    assert_eq!(b.prev_word_front(7), 1);
    assert_eq!(b.prev_word_front(9), 1);
    assert_eq!(b.prev_word_front(1), 1);
    assert_eq!(b.prev_word_back(7), 1);
}

#[test]
fn get_cursor_from_byte_offset_gives_column_and_row() {
    let b = Buffer::from_str("ab\ncd\nef");
    assert_eq!(b.get_cursor_from_byte_offset(4), Some((1, 1)));
    assert_eq!(b.get_cursor_from_byte_offset(0), Some((0, 0)));
    assert_eq!(b.get_cursor_from_byte_offset(6), Some((0, 2)));
    assert_eq!(b.get_cursor_from_byte_offset(8), None);
}

#[test]
fn get_cursor_from_byte_offset_tests_the_column_as_a_byte_of_the_text() {
    let b = Buffer::from_str("é\nab");
    assert_eq!(b.get_cursor_from_byte_offset(4), Some((0, 1)));
    assert_eq!(b.get_cursor_from_byte_offset(3), Some((0, 1)));
}

#[test]
fn get_row_special_cuts_a_row_before_the_last() {
    let b = Buffer::from_str("abc\ndef\n");
    assert_eq!(b.get_row_special(0, 0, 3).expect("row").text, "ab");
    assert_eq!(b.get_row_special(0, 1, 1).expect("row").text, "b");
    assert_eq!(b.get_row_special(0, 0, 10).expect("row").text, "abc");
    assert_eq!(b.get_row_special(0, 3, 5).expect("row").text, "");
    assert!(b.get_row_special(0, 4, 0).is_none());
    assert!(b.get_row_special(1, 0, 1).is_none());
}
