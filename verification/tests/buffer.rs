//! Behaviour of the line-wrapped input buffer.

use soulog::InputBuf;
use soulog::InputBufNode;

fn insert_str(buf: &mut InputBuf, text: &str) {
    for ch in text.chars() {
        buf.insert(ch.to_string());
    }
}

#[test]
fn hello_world_unit_by_unit() {
    let mut buf = InputBuf::new(5);
    insert_str(&mut buf, "HELLO WORLD");
    assert_eq!(buf.cursor_position(), (2, 1));
    assert_eq!(buf.materialize(), "HELLO WORLD");
}

#[test]
fn empty_buffer_edits_are_noops() {
    let mut buf = InputBuf::new(5);
    buf.delete();
    buf.advance();
    buf.un_advance();
    assert_eq!(buf.materialize(), "");
    assert_eq!(buf.cursor_position(), (0, 0));

    let mut buf = InputBuf::new(3);
    buf.un_advance();
    buf.delete();
    buf.advance();
    buf.delete();
    assert_eq!(buf.materialize(), "");
    assert_eq!(buf.cursor_position(), (0, 0));
}

#[test]
fn filling_a_row_wraps_the_cursor() {
    let mut buf = InputBuf::new(5);
    insert_str(&mut buf, "abcde");
    assert_eq!(buf.cursor_position(), (1, 0));
    insert_str(&mut buf, "fghij");
    assert_eq!(buf.cursor_position(), (2, 0));
}

#[test]
fn advancing_past_the_tail_is_a_noop() {
    let mut buf = InputBuf::new(5);
    insert_str(&mut buf, "abcdefghij");
    assert_eq!(buf.cursor_position(), (2, 0));
    buf.advance();
    buf.advance();
    assert_eq!(buf.cursor_position(), (2, 0));
    assert_eq!(buf.materialize(), "abcdefghij");
}

#[test]
fn deleting_across_a_row_boundary() {
    let mut buf = InputBuf::new(5);
    insert_str(&mut buf, "abcde");
    assert_eq!(buf.cursor_position(), (1, 0));
    buf.delete();
    assert_eq!(buf.cursor_position(), (0, 4));
    assert_eq!(buf.materialize(), "abcd");
}

#[test]
fn deleting_in_the_middle() {
    let mut buf = InputBuf::new(80);
    insert_str(&mut buf, "abc");
    buf.un_advance();
    assert_eq!(buf.cursor_position(), (0, 2));
    buf.delete();
    assert_eq!(buf.materialize(), "ac");
    assert_eq!(buf.cursor_position(), (0, 1));
}

#[test]
fn inserting_at_the_start() {
    let mut buf = InputBuf::new(80);
    insert_str(&mut buf, "ab");
    buf.un_advance();
    buf.un_advance();
    // the cursor stops at the head cell; deleting it bares the start
    assert_eq!(buf.cursor_position(), (0, 1));
    buf.delete();
    assert_eq!(buf.materialize(), "b");
    assert_eq!(buf.cursor_position(), (0, 0));
    insert_str(&mut buf, "X");
    assert_eq!(buf.materialize(), "Xb");
    assert_eq!(buf.cursor_position(), (0, 1));
}

#[test]
fn advance_then_un_advance_restores_the_cursor() {
    let mut buf = InputBuf::new(3);
    insert_str(&mut buf, "abcde");
    buf.un_advance();
    buf.un_advance();
    let before = buf.cursor_position();
    assert_eq!(before, (1, 0));
    buf.advance();
    assert_eq!(buf.cursor_position(), (1, 1));
    buf.un_advance();
    assert_eq!(buf.cursor_position(), before);
    assert_eq!(buf.materialize(), "abcde");
}

#[test]
fn resize_relays_out_the_cursor() {
    let mut buf = InputBuf::new(5);
    insert_str(&mut buf, "abcdefg");
    assert_eq!(buf.cursor_position(), (1, 2));
    buf.resize(3);
    assert_eq!(buf.cursor_position(), (2, 1));
    assert_eq!(buf.materialize(), "abcdefg");
    buf.resize(7);
    assert_eq!(buf.cursor_position(), (1, 0));
}

#[test]
fn resize_with_the_cursor_moved_back() {
    let mut buf = InputBuf::new(4);
    insert_str(&mut buf, "abcdef");
    buf.un_advance();
    buf.un_advance();
    assert_eq!(buf.cursor_position(), (1, 0));
    buf.resize(2);
    // four cells sit at or before the cursor, over two full rows of two
    assert_eq!(buf.cursor_position(), (2, 0));
}

#[test]
fn zero_width_is_clamped_to_one() {
    let mut buf = InputBuf::new(0);
    insert_str(&mut buf, "abc");
    assert_eq!(buf.cursor_position(), (3, 0));
    let mut buf = InputBuf::new(5);
    insert_str(&mut buf, "abc");
    buf.resize(0);
    assert_eq!(buf.cursor_position(), (3, 0));
}

#[test]
fn multi_character_units_count_as_one_cell() {
    let mut buf = InputBuf::new(2);
    buf.insert(String::from("ab"));
    buf.insert(String::from("cd"));
    buf.insert(String::from("e"));
    assert_eq!(buf.materialize(), "abcde");
    assert_eq!(buf.cursor_position(), (1, 1));
}

#[test]
fn node_links_start_empty() {
    let node = InputBufNode::new(String::from("a"));
    assert!(node.is_head());
    assert!(node.is_tail());
    assert_eq!(node.value, "a");
}

#[test]
fn node_neighbour_queries_follow_the_links() {
    let mut node = InputBufNode::new(String::from("a"));
    node.prev = Some(0);
    assert!(!node.is_head());
    assert!(node.is_tail());
    node.next = Some(2);
    node.prev = None;
    assert!(node.is_head());
    assert!(!node.is_tail());
}
