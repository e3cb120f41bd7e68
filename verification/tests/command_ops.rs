use vilite::keys::{Key, Mode};
use vilite::session::Session;

fn l(s: &str) -> Vec<char> {
    s.chars().collect()
}

fn buf(rows: &[&str]) -> Vec<Vec<char>> {
    rows.iter().map(|r| l(r)).collect()
}

fn session(rows: &[&str], name: &str) -> Session {
    Session::new_session(buf(rows), l(name))
}

const TH: usize = 24;

#[test]
fn open_line_below_inherits_indent() {
    let mut s = session(&["    foo"], "a.txt");
    s.feed_key(Key::Char('o'), false, TH);
    assert_eq!(s.file_data, buf(&["    foo", "    "]));
    assert!(matches!(s.mode, Mode::Insert));
    assert_eq!((s.cursor_x, s.cursor_y), (4, 1));
}

#[test]
fn open_line_below_a_brace_goes_deeper() {
    let mut s = session(&["foo {"], "a.txt");
    s.feed_key(Key::Char('o'), false, TH);
    assert_eq!(s.file_data, buf(&["foo {", "    "]));
    assert_eq!((s.cursor_x, s.cursor_y), (4, 1));
}

#[test]
fn open_line_above() {
    let mut s = session(&["  foo"], "a.txt");
    s.feed_key(Key::Char('O'), false, TH);
    assert_eq!(s.file_data, buf(&["  ", "  foo"]));
    assert!(matches!(s.mode, Mode::Insert));
    assert_eq!((s.cursor_x, s.cursor_y), (2, 0));
}

#[test]
fn indent_keys_in_normal_mode() {
    let mut s = session(&["foo"], "a.txt");
    s.feed_key(Key::Char('>'), false, TH);
    assert_eq!(s.file_data, buf(&["    foo"]));
    assert_eq!(s.cursor_x, 4);
    s.feed_key(Key::Char('<'), false, TH);
    assert_eq!(s.file_data, buf(&["foo"]));
    assert_eq!(s.cursor_x, 0);
}

#[test]
fn toggle_comment_on_one_line() {
    let mut s = session(&["  foo"], "m.py");
    s.feed_key(Key::Char('g'), false, TH);
    let eff = s.feed_key(Key::Char('c'), false, TH);
    assert_eq!(s.file_data, buf(&["  # foo"]));
    assert!(eff.save);
    s.feed_key(Key::Char('g'), false, TH);
    s.feed_key(Key::Char('c'), false, TH);
    assert_eq!(s.file_data, buf(&["  foo"]));
}

#[test]
fn substitute_key_removes_char_and_inserts() {
    let mut s = session(&["abc"], "a.txt");
    s.feed_key(Key::Char('s'), false, TH);
    assert_eq!(s.file_data, buf(&["bc"]));
    assert!(matches!(s.mode, Mode::Insert));
    s.feed_key(Key::Char('z'), false, TH);
    assert_eq!(s.file_data, buf(&["zbc"]));
}

#[test]
fn append_keys_position_the_cursor() {
    let mut s = session(&["abc"], "a.txt");
    s.feed_key(Key::Char('a'), false, TH);
    assert!(matches!(s.mode, Mode::Insert));
    assert_eq!(s.cursor_x, 1);
    s.feed_key(Key::Esc, false, TH);
    s.feed_key(Key::Char('A'), false, TH);
    assert_eq!(s.cursor_x, 3);
    s.feed_key(Key::Esc, false, TH);
    s.feed_key(Key::Char('I'), false, TH);
    assert_eq!(s.cursor_x, 0);
}

#[test]
fn line_start_end_and_first_non_blank() {
    let mut s = session(&["  abcd"], "a.txt");
    s.feed_key(Key::Char('$'), false, TH);
    assert_eq!(s.cursor_x, 5);
    s.feed_key(Key::Char('0'), false, TH);
    assert_eq!(s.cursor_x, 0);
    s.feed_key(Key::Char('^'), false, TH);
    assert_eq!(s.cursor_x, 2);
}

#[test]
fn goto_first_and_last_line() {
    let mut s = session(&["a", "b", "c"], "a.txt");
    s.feed_key(Key::Char('G'), false, TH);
    assert_eq!(s.cursor_y, 2);
    s.feed_key(Key::Char('g'), false, TH);
    s.feed_key(Key::Char('g'), false, TH);
    assert_eq!(s.cursor_y, 0);
}

#[test]
fn paragraph_keys_jump_between_blank_lines() {
    let mut s = session(&["a", "", "b"], "a.txt");
    s.feed_key(Key::Char('}'), false, TH);
    assert_eq!(s.cursor_y, 1);
    s.feed_key(Key::Char('}'), false, TH);
    assert_eq!(s.cursor_y, 2);
    s.feed_key(Key::Char('{'), false, TH);
    assert_eq!(s.cursor_y, 1);
}

#[test]
fn half_page_scroll_moves_the_cursor() {
    let rows: Vec<String> = (0..40).map(|i| format!("{}", i)).collect();
    let refs: Vec<&str> = rows.iter().map(|s| s.as_str()).collect();
    let mut s = session(&refs, "a.txt");
    s.feed_key(Key::Char('d'), true, TH);
    assert_eq!(s.cursor_y, 12);
    s.feed_key(Key::Char('u'), true, TH);
    // Undo catches a plain u; the control modifier scrolls only in the
    // original chain order, where undo is checked first.
    assert_eq!(s.cursor_y, 12);
}

#[test]
fn word_keys_move_by_words() {
    let mut s = session(&["foo bar baz"], "a.txt");
    s.feed_key(Key::Char('w'), false, TH);
    assert_eq!(s.cursor_x, 4);
    s.feed_key(Key::Char('w'), false, TH);
    assert_eq!(s.cursor_x, 8);
    s.feed_key(Key::Char('b'), false, TH);
    assert_eq!(s.cursor_x, 4);
}

#[test]
fn yank_and_paste_line() {
    let mut s = session(&["aa", "bb"], "a.txt");
    s.feed_key(Key::Char('y'), false, TH);
    let eff = s.feed_key(Key::Char('y'), false, TH);
    assert!(eff.clip_write);
    assert_eq!(s.clipboard, l("\naa"));
    let eff2 = s.feed_key(Key::Char('p'), false, TH);
    assert!(eff2.save);
    assert_eq!(s.file_data, buf(&["aa", "aa", "bb"]));
}

#[test]
fn paste_before_charwise() {
    let mut s = session(&["xy"], "a.txt");
    s.clipboard = l("AB");
    s.cursor_x = 1;
    s.feed_key(Key::Char('P'), false, TH);
    assert_eq!(s.file_data, buf(&["xABy"]));
}

#[test]
fn yank_word_under_cursor() {
    let mut s = session(&["foo bar"], "a.txt");
    s.cursor_x = 5;
    s.feed_key(Key::Char('y'), false, TH);
    s.feed_key(Key::Char('i'), false, TH);
    let eff = s.feed_key(Key::Char('w'), false, TH);
    assert!(eff.clip_write);
    assert_eq!(s.clipboard, l("bar"));
    assert_eq!((s.cursor_x, s.cursor_y), (4, 0));
}

#[test]
fn delete_word_under_cursor() {
    let mut s = session(&["foo bar x"], "a.txt");
    s.cursor_x = 4;
    s.feed_key(Key::Char('d'), false, TH);
    s.feed_key(Key::Char('i'), false, TH);
    let eff = s.feed_key(Key::Char('w'), false, TH);
    assert!(eff.save && eff.clip_write);
    assert_eq!(s.file_data, buf(&["foo  x"]));
    assert_eq!(s.clipboard, l("bar"));
}

#[test]
fn change_word_under_cursor_enters_insert() {
    let mut s = session(&["foo bar"], "a.txt");
    s.cursor_x = 0;
    s.feed_key(Key::Char('c'), false, TH);
    s.feed_key(Key::Char('i'), false, TH);
    s.feed_key(Key::Char('w'), false, TH);
    assert_eq!(s.file_data, buf(&[" bar"]));
    assert!(matches!(s.mode, Mode::Insert));
}

#[test]
fn change_line_clears_it() {
    let mut s = session(&["aa", "bb"], "a.txt");
    s.feed_key(Key::Char('c'), false, TH);
    s.feed_key(Key::Char('c'), false, TH);
    assert_eq!(s.file_data, buf(&["", "bb"]));
    assert!(matches!(s.mode, Mode::Insert));
    assert_eq!(s.clipboard, l("\naa"));
}

#[test]
fn insert_mode_edit_keys() {
    let mut s = session(&["abcd"], "a.txt");
    s.mode = Mode::Insert;
    s.cursor_x = 2;
    s.feed_key(Key::Backspace, false, TH);
    assert_eq!(s.file_data, buf(&["acd"]));
    assert_eq!(s.cursor_x, 1);
    s.feed_key(Key::Delete, false, TH);
    assert_eq!(s.file_data, buf(&["ad"]));
    s.feed_key(Key::Tab, false, TH);
    assert_eq!(s.file_data, buf(&["    ad"]));
    assert_eq!(s.cursor_x, 5);
    s.feed_key(Key::BackTab, false, TH);
    assert_eq!(s.file_data, buf(&["ad"]));
    assert_eq!(s.cursor_x, 1);
}

#[test]
fn visual_star_searches_the_selection() {
    let mut s = session(&["abab"], "a.txt");
    s.feed_key(Key::Char('v'), false, TH);
    s.feed_key(Key::Char('l'), false, TH);
    s.feed_key(Key::Char('*'), false, TH);
    assert!(matches!(s.mode, Mode::Normal));
    assert!(s.searching);
    assert_eq!(s.search_string, l("ab"));
}

#[test]
fn next_and_previous_match_keys() {
    let mut s = session(&["ab ab ab x"], "a.txt");
    s.search_string = l("ab");
    s.feed_key(Key::Char('n'), false, TH);
    assert_eq!(s.cursor_x, 3);
    s.feed_key(Key::Char('n'), false, TH);
    assert_eq!(s.cursor_x, 6);
    s.feed_key(Key::Char('N'), false, TH);
    assert_eq!(s.cursor_x, 3);
}

#[test]
fn visual_char_change_enters_insert() {
    let mut s = session(&["abcdef"], "a.txt");
    s.feed_key(Key::Char('v'), false, TH);
    s.feed_key(Key::Char('l'), false, TH);
    s.feed_key(Key::Char('c'), false, TH);
    assert_eq!(s.file_data, buf(&["cdef"]));
    assert!(matches!(s.mode, Mode::Insert));
}

#[test]
fn visual_line_delete_whole_rows() {
    let mut s = session(&["aa", "bb", "cc"], "a.txt");
    s.feed_key(Key::Char('V'), false, TH);
    s.feed_key(Key::Char('j'), false, TH);
    let eff = s.feed_key(Key::Char('d'), false, TH);
    assert_eq!(s.file_data, buf(&["cc"]));
    assert_eq!(s.clipboard, l("\naa\nbb"));
    assert!(eff.save && eff.clip_write);
    assert!(matches!(s.mode, Mode::Normal));
}

#[test]
fn visual_line_indent_range() {
    let mut s = session(&["aa", "bb"], "a.txt");
    s.feed_key(Key::Char('V'), false, TH);
    s.feed_key(Key::Char('j'), false, TH);
    s.feed_key(Key::Char('>'), false, TH);
    assert_eq!(s.file_data, buf(&["    aa", "    bb"]));
    assert!(matches!(s.mode, Mode::Normal));
}

#[test]
fn escape_clears_pending_prefix() {
    let mut s = session(&["aa", "bb"], "a.txt");
    s.feed_key(Key::Char('d'), false, TH);
    s.feed_key(Key::Esc, false, TH);
    // The prefix is gone, so a single d only starts a new prefix.
    s.feed_key(Key::Char('d'), false, TH);
    s.feed_key(Key::Esc, false, TH);
    assert_eq!(s.file_data, buf(&["aa", "bb"]));
}

#[test]
fn replace_at_line_end_does_nothing_on_empty_line() {
    let mut s = session(&[""], "a.txt");
    s.feed_key(Key::Char('r'), false, TH);
    s.feed_key(Key::Char('z'), false, TH);
    assert_eq!(s.file_data, buf(&[""]));
}

#[test]
fn macro_can_replay_the_repeat_key() {
    let mut s = session(&["abcdef"], "a.txt");
    s.feed_key(Key::Char('x'), false, TH);
    assert_eq!(s.file_data, buf(&["bcdef"]));
    s.feed_key(Key::Char('q'), false, TH);
    s.feed_key(Key::Char('.'), false, TH);
    assert_eq!(s.file_data, buf(&["cdef"]));
    s.feed_key(Key::Char('q'), false, TH);
    // The macro holds the repeat key; playing it repeats the deletion.
    s.feed_key(Key::Char(','), false, TH);
    assert_eq!(s.file_data, buf(&["def"]));
}

#[test]
fn paste_with_empty_clipboard_changes_nothing() {
    let mut s = session(&["ab"], "a.txt");
    s.clipboard = l("");
    s.feed_key(Key::Char('p'), false, TH);
    assert_eq!(s.file_data, buf(&["ab"]));
    s.feed_key(Key::Char('P'), false, TH);
    assert_eq!(s.file_data, buf(&["ab"]));
}

#[test]
fn pending_prefix_blocks_other_commands() {
    // A key that does not continue the pending prefix aborts it and is
    // not interpreted itself: d then j moves nothing.
    let mut s = session(&["aa", "bb"], "a.txt");
    s.feed_key(Key::Char('d'), false, TH);
    s.feed_key(Key::Char('j'), false, TH);
    assert_eq!((s.cursor_x, s.cursor_y), (0, 0));
    assert_eq!(s.file_data, buf(&["aa", "bb"]));
    // The prefix is gone: the next d starts a fresh pair.
    s.feed_key(Key::Char('d'), false, TH);
    s.feed_key(Key::Char('d'), false, TH);
    assert_eq!(s.file_data, buf(&["bb"]));
}
