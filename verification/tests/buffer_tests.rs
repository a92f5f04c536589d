use vimax::action::Motion;
use vimax::buffer::Buffer;

fn sample() -> Buffer {
    Buffer::from_str("hello world\nfoo bar", "a.rs", "/tmp/a.rs", false)
}

#[test]
fn buffer_from_str_metadata() {
    let b = sample();
    assert_eq!(b.len_chars(), 19);
    assert_eq!(b.total_lines(), 2);
    assert_eq!(b.name(), "a.rs");
    assert_eq!(b.file_path(), Some("/tmp/a.rs"));
    assert!(!b.is_modified());
    assert!(!b.is_read_only());
    assert_eq!(b.version(), 0);
    assert_eq!(b.text(), "hello world\nfoo bar");
}

#[test]
fn buffer_positions() {
    let b = sample();
    assert_eq!(b.cursor_position(14), (1, 2));
    assert_eq!(b.cursor_position(0), (0, 0));
    assert_eq!(b.line_to_char(1), 12);
    assert_eq!(b.char_to_line(11), 0);
    assert_eq!(b.char_to_line(12), 1);
    assert_eq!(b.cursor_from_position(1, 100), 19);
    assert_eq!(b.cursor_from_position(7, 2), 14);
    assert_eq!(b.clamp_cursor(100), 18);
    assert_eq!(b.clamp_cursor(3), 3);
    assert_eq!(b.max_line_len(), 11);
}

#[test]
fn buffer_clamp_cursor_empty() {
    let b = Buffer::new();
    assert_eq!(b.clamp_cursor(5), 0);
    assert_eq!(b.len_chars(), 0);
    assert_eq!(b.total_lines(), 1);
}

#[test]
fn buffer_basic_motions() {
    let b = sample();
    assert_eq!(b.move_left(12), 12);
    assert_eq!(b.move_left(13), 12);
    assert_eq!(b.move_right(10), 11);
    assert_eq!(b.move_right(11), 11);
    assert_eq!(b.move_down(3), 15);
    assert_eq!(b.move_down(9), 19);
    assert_eq!(b.move_up(16), 4);
    assert_eq!(b.move_up(2), 2);
    assert_eq!(b.move_to_line_start(16), 12);
    assert_eq!(b.move_to_line_end(14), 19);
    assert_eq!(b.move_to_start(), 0);
    assert_eq!(b.move_to_end(), 19);
}

#[test]
fn buffer_word_motions() {
    let b = sample();
    assert_eq!(b.move_word_forward(0), 6);
    assert_eq!(b.move_word_forward(6), 12);
    assert_eq!(b.move_word_backward(6), 0);
    assert_eq!(b.move_word_backward(0), 0);
    assert_eq!(b.move_word_end(0), 4);
    assert_eq!(b.move_word_end(18), 18);
}

#[test]
fn buffer_first_non_whitespace() {
    let b = Buffer::from_str("  \tx = 1\n", "b", "/tmp/b", false);
    assert_eq!(b.move_to_first_non_whitespace(6), 3);
}

#[test]
fn buffer_find_char_on_line() {
    let b = sample();
    assert_eq!(b.find_char_on_line(0, 'o', true, false), 4);
    assert_eq!(b.find_char_on_line(0, 'o', true, true), 3);
    assert_eq!(b.find_char_on_line(10, 'o', false, false), 7);
    assert_eq!(b.find_char_on_line(10, 'o', false, true), 8);
    assert_eq!(b.find_char_on_line(0, 'z', true, false), 0);
}

#[test]
fn buffer_cursor_after_motion_counts() {
    let b = sample();
    assert_eq!(b.cursor_after_motion(0, &Motion::Right, 3), 3);
    assert_eq!(b.cursor_after_motion(0, &Motion::WordForward, 2), 12);
    assert_eq!(b.cursor_after_motion(0, &Motion::Down, 5), 12);
    assert_eq!(b.cursor_after_motion(14, &Motion::FileStart, 1), 0);
}

#[test]
fn buffer_text_objects() {
    let b = sample();
    assert_eq!(b.text_object_inner_word(1), (0, 5));
    assert_eq!(b.text_object_a_word(1), (0, 6));
    assert_eq!(b.text_object_inner_word(5), (5, 6));
    let p = Buffer::from_str("f(a, (b))", "p", "/tmp/p", false);
    assert_eq!(p.text_object_delimited(2, '(', ')', false), (2, 8));
    assert_eq!(p.text_object_delimited(2, '(', ')', true), (1, 9));
    let q = Buffer::from_str("say \"hi there\" now", "q", "/tmp/q", false);
    assert_eq!(q.text_object_quoted(6, '"', false), (5, 13));
    assert_eq!(q.text_object_quoted(6, '"', true), (4, 14));
}

#[test]
fn buffer_find_all_overlapping() {
    let b = sample();
    assert_eq!(b.find_all("o"), vec![4, 7, 13, 14]);
    let a = Buffer::from_str("aaa", "a", "/tmp/a", false);
    assert_eq!(a.find_all("aa"), vec![0, 1]);
    assert_eq!(a.find_all(""), Vec::<usize>::new());
}

#[test]
fn buffer_insert_and_undo_redo() {
    let mut b = sample();
    b.start_edit_group(5);
    let c = b.insert_char(5, ',');
    b.finish_edit_group();
    assert_eq!(c, 6);
    assert_eq!(b.text(), "hello, world\nfoo bar");
    assert!(b.is_modified());
    assert_eq!(b.version(), 1);
    assert_eq!(b.undo(), Some(5));
    assert_eq!(b.text(), "hello world\nfoo bar");
    assert_eq!(b.redo(), Some(6));
    assert_eq!(b.text(), "hello, world\nfoo bar");
    assert_eq!(b.redo(), None);
}

#[test]
fn buffer_insert_outside_group_is_not_recorded() {
    let mut b = sample();
    b.insert_char(0, 'x');
    assert_eq!(b.undo(), None);
    assert_eq!(b.text(), "xhello world\nfoo bar");
}

#[test]
fn buffer_edit_group_undoes_together() {
    let mut b = Buffer::from_str("ab", "g", "/tmp/g", false);
    b.start_edit_group(1);
    let c = b.insert_char(1, 'x');
    let c = b.insert_char(c, 'y');
    b.finish_edit_group();
    assert_eq!(c, 3);
    assert_eq!(b.text(), "axyb");
    assert_eq!(b.undo(), Some(1));
    assert_eq!(b.text(), "ab");
    assert_eq!(b.undo(), None);
}

#[test]
fn buffer_delete_line_and_range() {
    let mut b = Buffer::from_str("a\nb\nc", "d", "/tmp/d", false);
    assert_eq!(b.delete_line(2), 2);
    assert_eq!(b.text(), "a\nc");
    let (cur, gone) = b.delete_range(0, 0, 2);
    assert_eq!(cur, 0);
    assert_eq!(gone, "a\n");
    assert_eq!(b.text(), "c");
}

#[test]
fn buffer_delete_chars() {
    let mut b = Buffer::from_str("abc", "d", "/tmp/d", false);
    assert_eq!(b.delete_char_backward(0), 0);
    assert_eq!(b.delete_char_backward(2), 1);
    assert_eq!(b.text(), "ac");
    assert_eq!(b.delete_char_forward(0), 0);
    assert_eq!(b.text(), "c");
}

#[test]
fn buffer_yank_and_paste() {
    let mut b = Buffer::from_str("one\ntwo\n", "y", "/tmp/y", false);
    assert_eq!(b.yank_range(0, 4), "one\n");
    assert_eq!(b.yank_range(5, 100), "wo\n");
    assert_eq!(b.yank_range(3, 2), "");
    let c = b.paste_after(0, "one\n");
    assert_eq!(c, 4);
    assert_eq!(b.text(), "one\none\ntwo\n");
    let c = b.paste_after(0, "XY");
    assert_eq!(c, 2);
    assert_eq!(b.text(), "oXYne\none\ntwo\n");
    let c = b.paste_before(6, "Z");
    assert_eq!(c, 6);
    assert_eq!(b.text(), "oXYne\nZone\ntwo\n");
}

#[test]
fn buffer_replace_char_and_read_only() {
    let mut b = Buffer::from_str("abc", "r", "/tmp/r", false);
    assert_eq!(b.replace_char(1, 'X'), 1);
    assert_eq!(b.text(), "aXc");
    assert_eq!(b.replace_char(9, 'X'), 9);
    let ro = Buffer::new_readonly("text", "*info*");
    assert!(ro.is_read_only());
    assert_eq!(ro.file_path(), None);
    assert_eq!(ro.save_path(), Err(String::from("Cannot save read-only buffer")));
    let nf = Buffer::new();
    assert_eq!(nf.save_path(), Err(String::from("Cannot save buffer without a file path")));
    assert_eq!(b.save_path(), Ok(String::from("/tmp/r")));
}

#[test]
fn buffer_mark_saved_clears_modified() {
    let mut b = sample();
    b.insert_char(0, 'x');
    assert!(b.is_modified());
    b.mark_saved();
    assert!(!b.is_modified());
    assert_eq!(b.text(), "xhello world\nfoo bar");
}
