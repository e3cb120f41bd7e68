use vilite::motion::{
    down, get_cursor_after_visual, get_in_word, get_index_next_non_word, get_index_next_word,
    get_index_prev_alpha_word, get_index_prev_non_word, get_index_prev_word, get_next_empty_line,
    get_prev_empty_line, left, normalize, prevent_cursor_end, reset_cursor_end,
    reset_cursor_end_file, right, right_insert, set_cursor_end, up,
};
use vilite::search::{find_next_occurrence, get_prev_occurrence};

fn l(s: &str) -> Vec<char> {
    s.chars().collect()
}

fn buf(rows: &[&str]) -> Vec<Vec<char>> {
    rows.iter().map(|r| l(r)).collect()
}

#[test]
fn character_steps_stay_inside_the_line() {
    let b = buf(&["abc", ""]);
    assert_eq!(right(&b, 0, 0), 1);
    assert_eq!(right(&b, 2, 0), 2);
    assert_eq!(right(&b, 0, 1), 0);
    assert_eq!(right_insert(&b, 2, 0), 3);
    assert_eq!(right_insert(&b, 3, 0), 3);
    assert_eq!(left(1), 0);
    assert_eq!(left(0), 0);
    assert_eq!(down(&b, 0), 1);
    assert_eq!(down(&b, 1), 1);
    assert_eq!(up(1), 0);
    assert_eq!(up(0), 0);
}

#[test]
fn clamping_helpers() {
    let b = buf(&["abc", ""]);
    assert_eq!(set_cursor_end(&b, 0), 3);
    assert_eq!(prevent_cursor_end(&b, 3, 0), 2);
    assert_eq!(prevent_cursor_end(&b, 1, 0), 1);
    assert_eq!(prevent_cursor_end(&b, 5, 1), 5);
    assert_eq!(reset_cursor_end(&b, 5, 0), 2);
    assert_eq!(reset_cursor_end(&b, 1, 0), 1);
    assert_eq!(reset_cursor_end(&b, 5, 1), 0);
    assert_eq!(reset_cursor_end_file(3, 5), 2);
    assert_eq!(reset_cursor_end_file(3, 1), 1);
}

#[test]
fn normalize_orders_endpoints() {
    assert_eq!(normalize(2, 5), (2, 5));
    assert_eq!(normalize(5, 2), (2, 5));
    assert_eq!(get_cursor_after_visual(4, 7), 4);
    assert_eq!(get_cursor_after_visual(7, 4), 4);
}

#[test]
fn forward_word_motion() {
    let b = buf(&["foo bar, baz"]);
    assert_eq!(get_index_next_word(&b, 0, 0), 4);
    assert_eq!(get_index_next_word(&b, 4, 0), 9);
    assert_eq!(get_index_next_word(&b, 3, 0), 4);
    // On the last word the motion is a no-op (the word-forward boundary law).
    assert_eq!(get_index_next_word(&b, 9, 0), 9);
    assert_eq!(get_index_next_word(&b, 11, 0), 11);
    assert_eq!(get_index_next_non_word(&b, 0, 0), 3);
    assert_eq!(get_index_next_non_word(&b, 4, 0), 7);
}

#[test]
fn backward_word_motion() {
    let b = buf(&["foo bar, baz"]);
    assert_eq!(get_index_prev_word(&b, 9, 0), 4);
    assert_eq!(get_index_prev_word(&b, 5, 0), 4);
    assert_eq!(get_index_prev_word(&b, 4, 0), 0);
    assert_eq!(get_index_prev_word(&b, 0, 0), 0);
    assert_eq!(get_index_prev_alpha_word(&b, 4, 0), 2);
    assert_eq!(get_index_prev_non_word(&b, 4, 0), 3);
}

#[test]
fn word_under_cursor() {
    let b = l("foo bar");
    assert_eq!(get_in_word(&b, 1), Some((0, 2)));
    assert_eq!(get_in_word(&b, 4), Some((4, 6)));
    assert_eq!(get_in_word(&b, 6), Some((4, 6)));
    assert_eq!(get_in_word(&b, 3), None);
}

#[test]
fn paragraph_motion_finds_empty_lines() {
    let b = buf(&["a", "", "b", "c", "", "d"]);
    assert_eq!(get_next_empty_line(&b, 0), 1);
    assert_eq!(get_next_empty_line(&b, 1), 4);
    assert_eq!(get_next_empty_line(&b, 4), 5);
    assert_eq!(get_prev_empty_line(&b, 5), 4);
    assert_eq!(get_prev_empty_line(&b, 4), 1);
    assert_eq!(get_prev_empty_line(&b, 1), 0);
}

#[test]
fn search_forward_wraps() {
    let b = buf(&["abc", "xax", "aa"]);
    assert_eq!(find_next_occurrence(&b, 0, 0, &l("a")), Some((0, 0)));
    assert_eq!(find_next_occurrence(&b, 1, 0, &l("a")), Some((1, 1)));
    assert_eq!(find_next_occurrence(&b, 0, 2, &l("a")), Some((0, 2)));
    assert_eq!(find_next_occurrence(&b, 1, 2, &l("a")), Some((1, 2)));
    // Wrap past the end of the buffer.
    assert_eq!(find_next_occurrence(&b, 2, 2, &l("ab")), Some((0, 0)));
    assert_eq!(find_next_occurrence(&b, 0, 0, &l("zz")), None);
}

#[test]
fn search_backward_wraps() {
    let b = buf(&["abc", "xax", "aa"]);
    // Matches must end before the scan column on the start row.
    assert_eq!(get_prev_occurrence(&b, 2, 1, &l("a")), Some((0, 0)));
    assert_eq!(get_prev_occurrence(&b, 0, 0, &l("b")), Some((1, 0)));
    assert_eq!(get_prev_occurrence(&b, 0, 0, &l("zz")), None);
    // A match touching the last character of a line is not found.
    let c = buf(&["xa", "yy"]);
    assert_eq!(get_prev_occurrence(&c, 0, 1, &l("a")), None);
}
