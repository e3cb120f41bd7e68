use vilite::edit::{
    copy_in_visual, delete_in_visual, delete_in_visual_and_insert, increase_indent_visual,
    paste_after, paste_before, reduce_indent_visual, split_line, split_newlines,
    toggle_comments_in_visual,
};
use vilite::history::DiffHistory;
use vilite::keys::{Key, Mode};
use vilite::session::Session;

fn l(s: &str) -> Vec<char> {
    s.chars().collect()
}

fn buf(rows: &[&str]) -> Vec<Vec<char>> {
    rows.iter().map(|r| l(r)).collect()
}

fn session(rows: &[&str], name: &str) -> Session {
    Session::new_session(buf(rows), l(name))
}

const TH: usize = 24;

#[test]
fn empty_file_gets_one_line() {
    let s = session(&[], "a.txt");
    assert_eq!(s.file_data, buf(&[""]));
}

#[test]
fn delete_char_clamps_cursor() {
    // Buffer ["abc", "def"], cursor on 'c', x: the line loses its last
    // character and the cursor clamps to the new last column.
    let mut s = session(&["abc", "def"], "a.txt");
    s.cursor_x = 2;
    s.cursor_y = 0;
    let eff = s.feed_key(Key::Char('x'), false, TH);
    assert_eq!(s.file_data, buf(&["ab", "def"]));
    assert_eq!((s.cursor_x, s.cursor_y), (1, 0));
    assert!(eff.save);
    assert!(eff.clip_write);
    assert_eq!(s.clipboard, l("c"));
}

#[test]
fn enter_auto_indents_without_spurious_bracket() {
    // Insert mode at the end of "if (x) {" with a closing brace already
    // below: the new line gets one indent unit and no extra brace line.
    let mut s = session(&["if (x) {", "", "}"], "a.c");
    s.mode = Mode::Insert;
    s.cursor_x = 8;
    s.cursor_y = 0;
    s.feed_key(Key::Enter, false, TH);
    assert_eq!(s.file_data, buf(&["if (x) {", "    ", "}"]));
    assert_eq!((s.cursor_x, s.cursor_y), (4, 1));
}

#[test]
fn enter_adds_missing_closing_bracket() {
    let mut s = session(&["foo() {"], "a.c");
    s.mode = Mode::Insert;
    s.cursor_x = 7;
    s.feed_key(Key::Enter, false, TH);
    assert_eq!(s.file_data, buf(&["foo() {", "    ", "}"]));
    assert_eq!((s.cursor_x, s.cursor_y), (4, 1));
}

#[test]
fn enter_splits_midline() {
    let mut s = session(&["  hello"], "a.txt");
    s.mode = Mode::Insert;
    s.cursor_x = 4;
    s.feed_key(Key::Enter, false, TH);
    assert_eq!(s.file_data, buf(&["  he", "  llo"]));
    assert_eq!((s.cursor_x, s.cursor_y), (2, 1));
}

#[test]
fn dd_removes_line_into_clipboard() {
    // Normal mode, d then d on a three-line buffer: the line goes, the
    // clipboard holds it behind the whole-line newline mark, and the
    // cursor row clamps when it was the last line.
    let mut s = session(&["a", "b", "c"], "a.txt");
    s.cursor_y = 2;
    s.feed_key(Key::Char('d'), false, TH);
    let eff = s.feed_key(Key::Char('d'), false, TH);
    assert_eq!(s.file_data, buf(&["a", "b"]));
    assert_eq!(s.clipboard, l("\nc"));
    assert_eq!(s.cursor_y, 1);
    assert!(eff.save);
    assert!(eff.clip_write);
}

#[test]
fn dd_on_only_line_keeps_one_empty_line() {
    let mut s = session(&["solo"], "a.txt");
    s.feed_key(Key::Char('d'), false, TH);
    s.feed_key(Key::Char('d'), false, TH);
    assert_eq!(s.file_data, buf(&[""]));
    assert_eq!((s.cursor_x, s.cursor_y), (0, 0));
}

#[test]
fn visual_line_comment_toggle_uses_minimum_indent() {
    // Visual-line over two uncommented lines, g then c: both gain the
    // comment token and one space at the smallest indentation column.
    let mut s = session(&["  foo", "    bar"], "a.rs");
    s.feed_key(Key::Char('V'), false, TH);
    s.feed_key(Key::Char('j'), false, TH);
    s.feed_key(Key::Char('g'), false, TH);
    let eff = s.feed_key(Key::Char('c'), false, TH);
    assert_eq!(s.file_data, buf(&["  // foo", "  //   bar"]));
    assert!(matches!(s.mode, Mode::Normal));
    assert!(eff.save);
}

#[test]
fn visual_line_comment_toggle_strips_when_all_commented() {
    let mut s = session(&["  // foo", "// bar"], "a.rs");
    s.feed_key(Key::Char('V'), false, TH);
    s.feed_key(Key::Char('j'), false, TH);
    s.feed_key(Key::Char('g'), false, TH);
    s.feed_key(Key::Char('c'), false, TH);
    assert_eq!(s.file_data, buf(&["  foo", "bar"]));
}

#[test]
fn undo_then_redo_restores_the_latest_state() {
    // Three mutating commands; undo three times returns to the start,
    // redo three times returns to the state directly after the third.
    let mut s = session(&["abcdef"], "a.txt");
    s.feed_key(Key::Char('x'), false, TH);
    s.feed_key(Key::Char('x'), false, TH);
    s.feed_key(Key::Char('x'), false, TH);
    assert_eq!(s.file_data, buf(&["def"]));
    let after = s.file_data.clone();
    let after_cursor = (s.cursor_x, s.cursor_y);
    s.feed_key(Key::Char('u'), false, TH);
    s.feed_key(Key::Char('u'), false, TH);
    s.feed_key(Key::Char('u'), false, TH);
    assert_eq!(s.file_data, buf(&["abcdef"]));
    assert_eq!((s.cursor_x, s.cursor_y), (0, 0));
    s.feed_key(Key::Char('r'), true, TH);
    s.feed_key(Key::Char('r'), true, TH);
    s.feed_key(Key::Char('r'), true, TH);
    assert_eq!(s.file_data, after);
    assert_eq!((s.cursor_x, s.cursor_y), after_cursor);
}

#[test]
fn history_undo_redo_directly() {
    let mut h = DiffHistory::new();
    let s0 = buf(&["one"]);
    let s1 = buf(&["one", "two"]);
    h.create_snapshot(&s0, (0, 0));
    let back = h.undo(&s1, (1, 1)).expect("one snapshot");
    assert_eq!(back.0, s0);
    assert_eq!(back.1, (0, 0));
    let fwd = h.redo(&back.0, back.1).expect("one redo entry");
    assert_eq!(fwd.0, s1);
    assert_eq!(fwd.1, (1, 1));
    assert!(h.redo(&s1, (0, 0)).is_none());
}

#[test]
fn copy_then_paste_after_reproduces_content() {
    // Copy of a single-row range pasted straight after the same place:
    // the row holds the original text with the copy spliced in.
    let b = buf(&["abcdef"]);
    let (clip, bx, by) = copy_in_visual(&b, 1, 0, 3, 0, false);
    assert_eq!(clip, l("bcd"));
    assert_eq!((bx, by), (1, 0));
    let mut b2 = b.clone();
    paste_after(&mut b2, bx, by, &clip);
    assert_eq!(b2, buf(&["abbcdcdef"]));
    // Cutting the pasted copy back out restores the original row.
    let mut row = b2[0].clone();
    row.drain(bx + 1..bx + 1 + clip.len());
    assert_eq!(row, l("abcdef"));
}

#[test]
fn copy_and_delete_linewise() {
    let mut b = buf(&["a", "b", "c"]);
    let (clip, _, _) = copy_in_visual(&b, 0, 0, 0, 1, true);
    assert_eq!(clip, l("\na\nb"));
    let r = delete_in_visual(&mut b, 0, 0, 0, 1, true);
    assert_eq!(b, buf(&["c"]));
    assert_eq!(r, (0, 0));
}

#[test]
fn copy_and_delete_charwise_across_rows() {
    let b0 = buf(&["hello", "mid", "world"]);
    let (clip, _, _) = copy_in_visual(&b0, 3, 0, 1, 2, false);
    assert_eq!(clip, l("ello\nmid\nworl"));
    let mut b = b0.clone();
    let r = delete_in_visual(&mut b, 3, 0, 1, 2, false);
    assert_eq!(b, buf(&["hd"]));
    assert_eq!(r, (1, 0));
}

#[test]
fn delete_in_visual_keeps_one_line() {
    let mut b = buf(&["x", "y"]);
    delete_in_visual(&mut b, 0, 0, 0, 1, true);
    assert_eq!(b, buf(&[""]));
}

#[test]
fn visual_replace_leaves_one_empty_line() {
    let mut b = buf(&["a", "b", "c"]);
    delete_in_visual_and_insert(&mut b, 1, 2);
    assert_eq!(b, buf(&["a", ""]));
}

#[test]
fn paste_linewise_before_and_after() {
    let mut b = buf(&["x", "y"]);
    paste_before(&mut b, 0, 1, &l("\np\nq"));
    assert_eq!(b, buf(&["x", "p", "q", "y"]));
    let mut b2 = buf(&["x", "y"]);
    paste_after(&mut b2, 0, 0, &l("\np"));
    assert_eq!(b2, buf(&["x", "p", "y"]));
}

#[test]
fn paste_charwise_multiline_keeps_order() {
    let mut b = buf(&["abcd"]);
    paste_after(&mut b, 1, 0, &l("1\n2\n3"));
    assert_eq!(b, buf(&["ab1", "2", "3cd"]));
}

#[test]
fn split_newlines_pieces() {
    let parts = split_newlines(&l("a\nb\n"));
    assert_eq!(parts, buf(&["a", "b", ""]));
    let single = split_newlines(&l("abc"));
    assert_eq!(single, buf(&["abc"]));
}

#[test]
fn indent_visual_range() {
    let mut b = buf(&["a", "b", "c"]);
    increase_indent_visual(&mut b, 2, 1);
    assert_eq!(b, buf(&["a", "    b", "    c"]));
    reduce_indent_visual(&mut b, 1, 2);
    assert_eq!(b, buf(&["a", "b", "c"]));
}

#[test]
fn toggle_comments_in_visual_directly() {
    let mut b = buf(&["foo", "", "bar"]);
    toggle_comments_in_visual(&mut b, &l("#"), 0, 2);
    // The empty line stays empty and drags the placement column to zero.
    assert_eq!(b, buf(&["# foo", "", "# bar"]));
    toggle_comments_in_visual(&mut b, &l("#"), 0, 2);
    assert_eq!(b, buf(&["foo", "", "bar"]));
}

#[test]
fn split_line_directly() {
    let mut b = buf(&["ab(", "x)"]);
    let (nx, ny) = split_line(&mut b, 3, 0);
    // A closing parenthesis follows below, so none is added.
    assert_eq!(b, buf(&["ab(", "    ", "x)"]));
    assert_eq!((nx, ny), (4, 1));
}

#[test]
fn repeat_replays_the_last_command() {
    let mut s = session(&["abcdef"], "a.txt");
    s.feed_key(Key::Char('x'), false, TH);
    assert_eq!(s.file_data, buf(&["bcdef"]));
    s.feed_key(Key::Char('.'), false, TH);
    assert_eq!(s.file_data, buf(&["cdef"]));
    s.feed_key(Key::Char('.'), false, TH);
    assert_eq!(s.file_data, buf(&["def"]));
}

#[test]
fn macro_records_and_replays() {
    let mut s = session(&["abcdef"], "a.txt");
    s.feed_key(Key::Char('q'), false, TH);
    assert!(s.macro_recording);
    s.feed_key(Key::Char('x'), false, TH);
    s.feed_key(Key::Char('q'), false, TH);
    assert!(!s.macro_recording);
    assert_eq!(s.file_data, buf(&["bcdef"]));
    s.feed_key(Key::Char(','), false, TH);
    assert_eq!(s.file_data, buf(&["cdef"]));
}

#[test]
fn insert_mode_typing() {
    let mut s = session(&["ac"], "a.txt");
    s.feed_key(Key::Char('i'), false, TH);
    assert!(matches!(s.mode, Mode::Insert));
    s.feed_key(Key::Char('b'), false, TH);
    assert_eq!(s.file_data, buf(&["bac"]));
    s.feed_key(Key::Esc, false, TH);
    assert!(matches!(s.mode, Mode::Normal));
    // One undo takes the whole insert session back.
    s.feed_key(Key::Char('u'), false, TH);
    assert_eq!(s.file_data, buf(&["ac"]));
}

#[test]
fn search_mode_moves_cursor_live() {
    let mut s = session(&["hay", "needle"], "a.txt");
    s.feed_key(Key::Char('/'), false, TH);
    assert!(matches!(s.mode, Mode::Search));
    s.feed_key(Key::Char('n'), false, TH);
    s.feed_key(Key::Char('e'), false, TH);
    assert_eq!((s.cursor_x, s.cursor_y), (0, 1));
    s.feed_key(Key::Enter, false, TH);
    assert!(matches!(s.mode, Mode::Normal));
    assert_eq!(s.search_string, l("ne"));
}

#[test]
fn normal_mode_motions_clamp_columns() {
    // Moving down onto a shorter line clamps the column at once, so the
    // cursor always addresses a character of its line.
    let mut s = session(&["abcdef", "ab", "abcdef"], "a.txt");
    s.feed_key(Key::Char('$'), false, TH);
    assert_eq!(s.cursor_x, 5);
    s.feed_key(Key::Char('j'), false, TH);
    assert_eq!((s.cursor_x, s.cursor_y), (1, 1));
    s.feed_key(Key::Char('j'), false, TH);
    assert_eq!((s.cursor_x, s.cursor_y), (1, 2));
}

#[test]
fn visual_char_delete() {
    let mut s = session(&["abcdef"], "a.txt");
    s.feed_key(Key::Char('v'), false, TH);
    s.feed_key(Key::Char('l'), false, TH);
    s.feed_key(Key::Char('l'), false, TH);
    let eff = s.feed_key(Key::Char('d'), false, TH);
    assert_eq!(s.file_data, buf(&["def"]));
    assert_eq!(s.clipboard, l("abc"));
    assert!(matches!(s.mode, Mode::Normal));
    assert!(eff.save && eff.clip_write);
}

#[test]
fn replace_key_changes_one_character() {
    let mut s = session(&["abc"], "a.txt");
    s.feed_key(Key::Char('r'), false, TH);
    s.feed_key(Key::Char('z'), false, TH);
    assert_eq!(s.file_data, buf(&["zbc"]));
}

#[test]
fn unmatched_prefix_aborts_quietly() {
    let mut s = session(&["abc"], "a.txt");
    s.feed_key(Key::Char('d'), false, TH);
    s.feed_key(Key::Char('z'), false, TH);
    assert_eq!(s.file_data, buf(&["abc"]));
    // The aborted prefix is gone: a following d-d pair still works.
    s.feed_key(Key::Char('d'), false, TH);
    s.feed_key(Key::Char('d'), false, TH);
    assert_eq!(s.file_data, buf(&[""]));
}
