use vilite::keys::Mode;
use vilite::render::{
    calc_window_lines, cursor_display, frame_updates, is_highlighted, is_line_highlighted,
    render_file_data, Cell, Color,
};

fn l(s: &str) -> Vec<char> {
    s.chars().collect()
}

fn buf(rows: &[&str]) -> Vec<Vec<char>> {
    rows.iter().map(|r| l(r)).collect()
}

fn row_text(row: &[Cell]) -> String {
    row.iter().map(|c| c.ch).collect()
}

fn frame(rows: &[&str]) -> Vec<Vec<Cell>> {
    render_file_data(
        &l("a.rs"),
        &buf(rows),
        0,
        0,
        0,
        0,
        0,
        0,
        Mode::Normal,
        &l(""),
        false,
        false,
        80,
        24,
    )
}

#[test]
fn frame_has_gutter_and_text() {
    let f = frame(&["abc", ""]);
    assert_eq!(f.len(), 2);
    assert_eq!(row_text(&f[0]), "   1 abc");
    // An empty visible slice renders as one blank cell behind the gutter.
    assert_eq!(row_text(&f[1]), "   2  ");
    assert_eq!(f[0][0].fg, Color::DarkGrey);
    assert_eq!(f[0][5].fg, Color::White);
    assert!(!f[0][5].reverse);
}

#[test]
fn frame_bounded_by_terminal_height() {
    let f = render_file_data(
        &l("a.txt"),
        &buf(&["a", "b", "c", "d"]),
        0,
        0,
        0,
        0,
        0,
        0,
        Mode::Normal,
        &l(""),
        false,
        false,
        80,
        2,
    );
    assert_eq!(f.len(), 2);
    let g = render_file_data(
        &l("a.txt"),
        &buf(&["a", "b", "c", "d"]),
        0,
        3,
        0,
        3,
        0,
        0,
        Mode::Normal,
        &l(""),
        false,
        false,
        80,
        24,
    );
    assert_eq!(g.len(), 1);
    assert_eq!(row_text(&g[0]), "   4 d");
}

#[test]
fn macro_recording_colors_the_gutter_red() {
    let f = render_file_data(
        &l("a.txt"),
        &buf(&["x"]),
        0,
        0,
        0,
        0,
        0,
        0,
        Mode::Normal,
        &l(""),
        false,
        true,
        80,
        24,
    );
    assert_eq!(f[0][0].fg, Color::Red);
}

#[test]
fn comment_cutoff_colors_green() {
    let f = frame(&["ab // rest"]);
    // Before the token: plain; from the token on: comment color.
    assert_eq!(f[0][5].fg, Color::White);
    assert_eq!(f[0][8].fg, Color::Green);
    assert_eq!(f[0][10].fg, Color::Green);
}

#[test]
fn string_spans_are_magenta() {
    let f = frame(&["x\"ab\"y"]);
    assert_eq!(f[0][5].fg, Color::White);
    assert_eq!(f[0][6].fg, Color::Magenta);
    assert_eq!(f[0][7].fg, Color::Magenta);
    assert_eq!(f[0][9].fg, Color::Magenta);
    assert_eq!(f[0][10].fg, Color::White);
}

#[test]
fn brackets_have_their_colors() {
    let f = frame(&["[{()}]"]);
    assert_eq!(f[0][5].fg, Color::Green);
    assert_eq!(f[0][6].fg, Color::Cyan);
    assert_eq!(f[0][7].fg, Color::Yellow);
    assert_eq!(f[0][8].fg, Color::Yellow);
    assert_eq!(f[0][9].fg, Color::Cyan);
    assert_eq!(f[0][10].fg, Color::Green);
}

#[test]
fn search_matches_swap_colors() {
    let f = render_file_data(
        &l("a.txt"),
        &buf(&["xabx"]),
        0,
        0,
        0,
        0,
        0,
        0,
        Mode::Normal,
        &l("ab"),
        true,
        false,
        80,
        24,
    );
    assert_eq!(f[0][5].bg, Color::Black);
    assert_eq!(f[0][6].bg, Color::Green);
    assert_eq!(f[0][6].fg, Color::Black);
    assert_eq!(f[0][7].bg, Color::Green);
    assert_eq!(f[0][8].bg, Color::Black);
}

#[test]
fn visual_line_selection_reverses_rows() {
    let f = render_file_data(
        &l("a.txt"),
        &buf(&["aa", "bb", "cc"]),
        0,
        0,
        0,
        1,
        0,
        2,
        Mode::VisualLine,
        &l(""),
        false,
        false,
        80,
        24,
    );
    assert!(!f[0][5].reverse);
    assert!(f[1][5].reverse);
    assert!(f[2][5].reverse);
    // Gutter cells never carry the selection.
    assert!(!f[1][0].reverse);
}

#[test]
fn visual_char_selection_reverses_cells() {
    let f = render_file_data(
        &l("a.txt"),
        &buf(&["abcd"]),
        0,
        0,
        2,
        0,
        1,
        0,
        Mode::VisualChar,
        &l(""),
        false,
        false,
        80,
        24,
    );
    assert!(!f[0][5].reverse);
    assert!(f[0][6].reverse);
    assert!(f[0][7].reverse);
    assert!(!f[0][8].reverse);
}

#[test]
fn horizontal_scroll_and_width_truncation() {
    let f = render_file_data(
        &l("a.txt"),
        &buf(&["abcdefgh"]),
        2,
        0,
        2,
        0,
        0,
        0,
        Mode::Normal,
        &l(""),
        false,
        false,
        9,
        24,
    );
    // Slice starts at the scroll offset and is cut to the terminal width.
    assert_eq!(row_text(&f[0]), "   1 cdefgh"[..11].to_string());
}

#[test]
fn selection_predicates() {
    assert!(is_line_highlighted(1, 0, 2));
    assert!(!is_line_highlighted(3, 0, 2));
    assert!(is_highlighted(2, 0, 1, 0, 3, 0));
    assert!(!is_highlighted(0, 0, 1, 0, 3, 0));
    assert!(is_highlighted(9, 1, 1, 0, 3, 2));
}

#[test]
fn diff_emits_only_changed_cells() {
    let a = frame(&["abc"]);
    let mut b = frame(&["abc"]);
    b[0][6].ch = 'z';
    let ups = frame_updates(&a, &b, false, 80, 24);
    assert_eq!(ups.len(), 1);
    assert_eq!(ups[0].x, 6);
    assert_eq!(ups[0].y, 0);
    assert_eq!(ups[0].cell.ch, 'z');
    let none = frame_updates(&a, &a, false, 80, 24);
    assert_eq!(none.len(), 0);
}

#[test]
fn full_repaint_rewrites_every_cell() {
    let a = frame(&["x"]);
    let ups = frame_updates(&a, &a, true, 3, 2);
    assert_eq!(ups.len(), 6);
    assert_eq!((ups[0].x, ups[0].y), (0, 0));
    assert_eq!((ups[5].x, ups[5].y), (2, 1));
}

#[test]
fn window_follows_the_cursor() {
    let b = buf(&["0123456789", "x"]);
    // Cursor far right pulls the horizontal offset along.
    assert_eq!(calc_window_lines(&b, 0, 0, 9, 0, 10, 5), (5, 0));
    // Cursor left of the window pulls it back.
    assert_eq!(calc_window_lines(&b, 7, 0, 2, 0, 10, 5), (2, 0));
    // Cursor below the window scrolls down, above scrolls up.
    let c = buf(&["a", "b", "c", "d", "e", "f"]);
    assert_eq!(calc_window_lines(&c, 0, 0, 0, 5, 10, 3), (0, 3));
    assert_eq!(calc_window_lines(&c, 0, 4, 0, 1, 10, 3), (0, 1));
}

#[test]
fn cursor_display_position() {
    let b = buf(&["abcdef", ""]);
    assert_eq!(cursor_display(&b, 3, 0, 0, 0), (8, 0));
    assert_eq!(cursor_display(&b, 3, 0, 2, 0), (6, 0));
    assert_eq!(cursor_display(&b, 0, 1, 0, 0), (5, 1));
}

#[test]
fn gutter_grows_for_large_line_numbers() {
    let rows: Vec<String> = (0..10000).map(|i| format!("r{}", i)).collect();
    let refs: Vec<&str> = rows.iter().map(|s| s.as_str()).collect();
    let f = render_file_data(
        &l("a.txt"),
        &buf(&refs),
        0,
        9998,
        0,
        9998,
        0,
        0,
        Mode::Normal,
        &l(""),
        false,
        false,
        80,
        2,
    );
    assert_eq!(row_text(&f[0]), "9999 r9998");
    assert_eq!(row_text(&f[1]), "10000 r9999");
}
