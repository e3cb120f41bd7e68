//! The differential renderer: terminal colors, render cells, selection
//! highlighting, viewport scrolling, the line-number gutter, the frame
//! builder, and the cell diff that yields the terminal writes.

use vstd::prelude::*;
use crate::edit::spaces;
use crate::keys::Mode;

verus! {

/// A terminal color.
#[derive(Clone, Copy, PartialEq, Eq, Structural, Debug)]
pub enum Color {
    Black,
    White,
    Red,
    Green,
    Yellow,
    Cyan,
    Magenta,
    DarkGrey,
}

/// One terminal cell: a character with its colors and reverse-video flag.
#[derive(Clone, Copy, PartialEq, Eq, Structural, Debug)]
pub struct Cell {
    pub ch: char,
    pub fg: Color,
    pub bg: Color,
    pub reverse: bool,
}

/// A cell of the character-wise selection between the anchor and the
/// cursor, compared row-major with both endpoints inclusive.
pub open spec fn sel_char(x: int, y: int, vx: int, vy: int, cx: int, cy: int) -> bool {
    ||| (y < vy && y > cy)
    ||| (y > vy && y < cy)
    ||| (y == cy && y == vy && vy >= cy && x >= vx && x <= cx)
    ||| (y == cy && y == vy && vy <= cy && x <= vx && x >= cx)
    ||| (y == cy && cy < vy && x >= cx)
    ||| (y == cy && cy > vy && x <= cx)
    ||| (y == vy && cy < vy && x <= vx)
    ||| (y == vy && cy > vy && x >= vx)
}

/// Whether the cell at `(x, y)` lies in the character-wise selection.
pub fn is_highlighted(x: usize, y: usize, visual_x: usize, visual_y: usize, cursor_x: usize, cursor_y: usize) -> (r: bool)
    ensures
        r == sel_char(x as int, y as int, visual_x as int, visual_y as int, cursor_x as int, cursor_y as int),
{
    (y < visual_y && y > cursor_y) || (y > visual_y && y < cursor_y)
        || (y == cursor_y && y == visual_y && visual_y >= cursor_y && x >= visual_x && x <= cursor_x)
        || (y == cursor_y && y == visual_y && visual_y <= cursor_y && x <= visual_x && x >= cursor_x)
        || (y == cursor_y && cursor_y < visual_y && x >= cursor_x)
        || (y == cursor_y && cursor_y > visual_y && x <= cursor_x)
        || (y == visual_y && cursor_y < visual_y && x <= visual_x)
        || (y == visual_y && cursor_y > visual_y && x >= visual_x)
}

/// A row of the line-wise selection between the anchor row and the
/// cursor row, both inclusive.
pub open spec fn sel_line(y: int, vy: int, cy: int) -> bool {
    (y <= vy && y >= cy) || (y >= vy && y <= cy)
}

/// Whether row `y` lies in the line-wise selection.
pub fn is_line_highlighted(y: usize, visual_y: usize, cursor_y: usize) -> (r: bool)
    ensures
        r == sel_line(y as int, visual_y as int, cursor_y as int),
{
    (y <= visual_y && y >= cursor_y) || (y >= visual_y && y <= cursor_y)
}

/// Scroll offsets that keep the cursor inside a terminal of the given
/// size, recomputed from the previous offsets after every command.
pub fn calc_window_lines(
    file_data: &Vec<Vec<char>>,
    window_line_x: usize,
    window_line_y: usize,
    cursor_x: usize,
    cursor_y: usize,
    term_width: usize,
    term_height: usize,
) -> (r: (usize, usize))
    requires
        cursor_y < file_data@.len(),
        term_width >= 6,
        term_height >= 1,
    ensures
        ({
            let len = file_data@[cursor_y as int]@.len();
            let cdx = if cursor_x > len {
                len as int
            } else {
                cursor_x as int
            };
            let x1 = if window_line_x + (term_width - 6) <= cdx {
                cdx - (term_width - 6)
            } else {
                window_line_x as int
            };
            let x2 = if window_line_x > cdx {
                cdx
            } else {
                x1
            };
            let y1 = if window_line_y > cursor_y {
                cursor_y as int
            } else {
                window_line_y as int
            };
            let y2 = if window_line_y + term_height <= cursor_y {
                cursor_y - term_height + 1
            } else {
                y1
            };
            r.0 as int == x2 && r.1 as int == y2
        }),
        r.1 <= cursor_y,
        cursor_y < r.1 + term_height,
        cursor_x <= file_data@[cursor_y as int]@.len() ==> r.0 <= cursor_x,
{
    let len = file_data[cursor_y].len();
    let cursor_display_x = if cursor_x > len {
        len
    } else {
        cursor_x
    };
    let mut x = window_line_x;
    let mut y = window_line_y;
    let margin = term_width - 6;
    if cursor_display_x >= margin && window_line_x <= cursor_display_x - margin {
        x = cursor_display_x - margin;
    }
    if window_line_x > cursor_display_x {
        x = cursor_display_x;
    }
    if window_line_y > cursor_y {
        y = cursor_y;
    }
    if cursor_y >= term_height && window_line_y <= cursor_y - term_height {
        y = cursor_y - term_height + 1;
    }
    (x, y)
}

/// The terminal position of the cursor inside the rendered frame: the
/// row relative to the scroll offset, and the display column behind the
/// five-column gutter.
pub fn cursor_display(
    file_data: &Vec<Vec<char>>,
    cursor_x: usize,
    cursor_y: usize,
    window_line_x: usize,
    window_line_y: usize,
) -> (r: (usize, usize))
    requires
        cursor_y < file_data@.len(),
        window_line_y <= cursor_y,
        cursor_x <= file_data@[cursor_y as int]@.len() ==> window_line_x <= cursor_x,
    ensures
        ({
            let len = file_data@[cursor_y as int]@.len();
            let col = if len == 0 {
                0
            } else if cursor_x > len {
                len - 1
            } else {
                cursor_x - window_line_x
            };
            let col5 = if col + 5 <= usize::MAX {
                col + 5
            } else {
                col
            };
            r.0 as int == col5 && r.1 as int == cursor_y - window_line_y
        }),
{
    let len = file_data[cursor_y].len();
    let col = if len == 0 {
        0
    } else if cursor_x > len {
        len - 1
    } else {
        cursor_x - window_line_x
    };
    let col5 = if col <= usize::MAX - 5 {
        col + 5
    } else {
        col
    };
    (col5, cursor_y - window_line_y)
}

/// The decimal digits of a non-negative number.
pub open spec fn dec_digits(n: int) -> Seq<char>
    decreases n,
{
    if n <= 9 {
        seq![digit_char(n)]
    } else {
        dec_digits(n / 10).push(digit_char(n % 10))
    }
}

/// The character of one decimal digit.
pub open spec fn digit_char(d: int) -> char {
    ((48 + d) as u8) as char
}

/// Appends the decimal digits of `n`.
fn push_digits(n: usize, out: &mut Vec<char>)
    ensures
        final(out)@ == old(out)@ + dec_digits(n as int),
    decreases n,
{
    if n <= 9 {
        let b: u8 = 48 + (n as u8);
        out.push(b as char);
        proof {
            assert(out@ =~= old(out)@ + dec_digits(n as int));
        }
    } else {
        push_digits(n / 10, out);
        let b: u8 = 48 + ((n % 10) as u8);
        out.push(b as char);
        proof {
            assert(out@ =~= old(out)@ + dec_digits(n as int));
        }
    }
}

/// The text of the line-number gutter: the number right-aligned to four
/// columns, and one trailing space.
pub open spec fn gutter_spec(num: int) -> Seq<char> {
    let d = dec_digits(num);
    (if d.len() < 4 {
        spaces(4 - d.len())
    } else {
        Seq::<char>::empty()
    }) + d + seq![' ']
}

/// Builds the gutter text for one line number.
fn make_gutter(num: usize) -> (r: Vec<char>)
    ensures
        r@ == gutter_spec(num as int),
{
    let mut d: Vec<char> = Vec::new();
    push_digits(num, &mut d);
    let mut r: Vec<char> = if d.len() < 4 {
        crate::edit::make_spaces(4 - d.len())
    } else {
        Vec::new()
    };
    let mut d = d;
    r.append(&mut d);
    r.push(' ');
    proof {
        assert(r@ =~= gutter_spec(num as int));
    }
    r
}

/// The frames as sequences of cell rows.
pub open spec fn frame_view(f: Seq<Vec<Cell>>) -> Seq<Seq<Cell>> {
    Seq::new(f.len(), |i: int| f[i]@)
}

/// The cell a frame shows at a terminal position: cells outside the
/// frame's rows are blank.
pub open spec fn cell_at(f: Seq<Seq<Cell>>, x: int, y: int) -> Cell {
    if 0 <= y < f.len() && 0 <= x < f[y].len() {
        f[y][x]
    } else {
        Cell { ch: ' ', fg: Color::White, bg: Color::Black, reverse: false }
    }
}

/// One cell write: the position and the cell to paint there.
#[derive(Clone, Copy, PartialEq, Eq, Structural, Debug)]
pub struct CellUpdate {
    pub x: usize,
    pub y: usize,
    pub cell: Cell,
}

/// The writes for the tail of one row, columns `x..w`.
pub open spec fn updates_row(
    prev: Seq<Seq<Cell>>,
    cur: Seq<Seq<Cell>>,
    full: bool,
    w: int,
    y: int,
    x: int,
) -> Seq<CellUpdate>
    decreases w - x,
{
    if x < 0 || x >= w {
        Seq::empty()
    } else {
        let rest = updates_row(prev, cur, full, w, y, x + 1);
        if full || cell_at(cur, x, y) != cell_at(prev, x, y) {
            seq![CellUpdate { x: x as usize, y: y as usize, cell: cell_at(cur, x, y) }] + rest
        } else {
            rest
        }
    }
}

/// The writes for the rows `y..h`, row-major.
pub open spec fn updates_spec(
    prev: Seq<Seq<Cell>>,
    cur: Seq<Seq<Cell>>,
    full: bool,
    w: int,
    h: int,
    y: int,
) -> Seq<CellUpdate>
    decreases h - y,
{
    if y < 0 || y >= h {
        Seq::empty()
    } else {
        updates_row(prev, cur, full, w, y, 0) + updates_spec(prev, cur, full, w, h, y + 1)
    }
}

/// Diffs the new frame against the previous one over a `width` by
/// `height` terminal: the writes are exactly the cells whose content
/// changed, in row-major order — every cell when a full repaint is
/// forced.
pub fn frame_updates(
    prev: &Vec<Vec<Cell>>,
    cur: &Vec<Vec<Cell>>,
    full_render: bool,
    width: usize,
    height: usize,
) -> (r: Vec<CellUpdate>)
    ensures
        r@ == updates_spec(
            frame_view(prev@),
            frame_view(cur@),
            full_render,
            width as int,
            height as int,
            0,
        ),
{
    let ghost pv = frame_view(prev@);
    let ghost cv = frame_view(cur@);
    let mut r: Vec<CellUpdate> = Vec::new();
    let mut y: usize = 0;
    while y < height
        invariant
            y <= height,
            pv == frame_view(prev@),
            cv == frame_view(cur@),
            r@ + updates_spec(pv, cv, full_render, width as int, height as int, y as int)
                == updates_spec(pv, cv, full_render, width as int, height as int, 0),
        decreases height - y,
    {
        let mut x: usize = 0;
        while x < width
            invariant
                x <= width,
                y < height,
                pv == frame_view(prev@),
                cv == frame_view(cur@),
                r@ + updates_row(pv, cv, full_render, width as int, y as int, x as int)
                    + updates_spec(pv, cv, full_render, width as int, height as int, y + 1)
                    == updates_spec(pv, cv, full_render, width as int, height as int, 0),
            decreases width - x,
        {
            let pc = get_cell(prev, x, y);
            let cc = get_cell(cur, x, y);
            if full_render || pc != cc {
                r.push(CellUpdate { x, y, cell: cc });
            }
            x = x + 1;
        }
        y = y + 1;
    }
    proof {
        assert(r@ =~= updates_spec(pv, cv, full_render, width as int, height as int, 0));
    }
    r
}

/// Reads one cell of a frame, blank outside the frame.
fn get_cell(f: &Vec<Vec<Cell>>, x: usize, y: usize) -> (r: Cell)
    ensures
        r == cell_at(frame_view(f@), x as int, y as int),
{
    if y < f.len() && x < f[y].len() {
        f[y][x]
    } else {
        Cell { ch: ' ', fg: Color::White, bg: Color::Black, reverse: false }
    }
}


/// Column `i` lies inside some occurrence of the query in the line.
pub open spec fn in_search_match(s: Seq<char>, p: Seq<char>, i: int) -> bool {
    exists|m: int| crate::text::match_at(s, p, m) && m <= i < m + p.len()
}

/// Decides whether column `i` lies inside an occurrence of the query.
fn covered_at(line: &Vec<char>, pat: &Vec<char>, i: usize) -> (r: bool)
    requires
        i < line@.len(),
    ensures
        r == in_search_match(line@, pat@, i as int),
{
    if pat.len() == 0 || pat.len() > line.len() {
        return false;
    }
    let lo = if i + 1 >= pat.len() {
        i + 1 - pat.len()
    } else {
        0
    };
    let mut m: usize = lo;
    while m <= i
        invariant
            lo <= m,
            i < line@.len(),
            1 <= pat@.len() <= line@.len(),
            lo == (if i + 1 >= pat@.len() {
                i + 1 - pat@.len()
            } else {
                0
            }),
            forall|m2: int|
                lo <= m2 < m ==> !(crate::text::match_at(line@, pat@, m2) && m2 <= i < m2
                    + pat@.len()),
        decreases i + 1 - m,
    {
        if pat.len() <= line.len() - m {
            if crate::text::matches_at(line, pat, m) {
                proof {
                    assert(crate::text::match_at(line@, pat@, m as int) && m <= i < m
                        + pat@.len());
                }
                return true;
            }
        }
        m = m + 1;
    }
    proof {
        assert forall|m2: int|
            !(crate::text::match_at(line@, pat@, m2) && m2 <= i < m2 + pat@.len()) by {
            if crate::text::match_at(line@, pat@, m2) && m2 <= i < m2 + pat@.len() {
                assert(m2 >= lo);
                assert(m2 <= i);
            }
        }
    }
    false
}

/// The colorizer's running state: whether the scan stands inside a
/// quoted string, which quote opened it, whether the next character is
/// escape-suppressed, and the background the previous cell received.
pub struct ColorState {
    pub in_string: bool,
    pub string_char: char,
    pub disregard: bool,
    pub bg: Color,
}

/// One colorizer step before the comment cutoff: quotes toggle string
/// spans (with backslash escapes inside), brackets of each kind get a
/// color of their own outside strings, and a cell inside a search match
/// gets swapped colors. Yields the cell's foreground and the next state,
/// whose `bg` is the cell's background.
pub open spec fn color_step(st: ColorState, ch: char, cov: bool) -> (Color, ColorState) {
    let fg0 = if st.in_string {
        Color::Magenta
    } else {
        Color::White
    };
    let (fg1, in1, sc1) = if ch == st.string_char && st.string_char != '\0' && !st.disregard {
        (fg0, !st.in_string, '\0')
    } else if ch == '"' || ch == '\'' || ch == '`' {
        if st.string_char == '\0' {
            (Color::Magenta, !st.in_string, ch)
        } else {
            (Color::Magenta, st.in_string, st.string_char)
        }
    } else if !st.in_string && (ch == '[' || ch == ']') {
        (Color::Green, st.in_string, st.string_char)
    } else if !st.in_string && (ch == '{' || ch == '}') {
        (Color::Cyan, st.in_string, st.string_char)
    } else if !st.in_string && (ch == '(' || ch == ')') {
        (Color::Yellow, st.in_string, st.string_char)
    } else {
        (fg0, st.in_string, st.string_char)
    };
    let dis1 = in1 && ch == '\\';
    let (fg2, bg2) = if cov {
        (Color::Black, Color::Green)
    } else {
        (fg1, Color::Black)
    };
    (fg2, ColorState { in_string: in1, string_char: sc1, disregard: dis1, bg: bg2 })
}

/// Column of the first comment-token occurrence in the visible slice;
/// the slice length when the token does not occur.
pub open spec fn comment_col(s: Seq<char>, token: Seq<char>) -> int {
    match crate::text::first_match_from(s, token, 0) {
        Some(i) => i,
        None => s.len() as int,
    }
}

/// The colorizer's state before column `i`: the scan starts outside any
/// string and freezes at the comment cutoff.
#[verifier::opaque]
pub open spec fn color_state_at(
    s: Seq<char>,
    p: Seq<char>,
    searching: bool,
    cidx: int,
    i: int,
) -> ColorState
    decreases i,
{
    if i <= 0 {
        ColorState { in_string: false, string_char: '\0', disregard: false, bg: Color::Black }
    } else {
        let st = color_state_at(s, p, searching, cidx, i - 1);
        if i - 1 >= cidx {
            st
        } else {
            color_step(st, s[i - 1], searching && in_search_match(s, p, i - 1)).1
        }
    }
}

/// Foreground and background of the visible cell at column `k`: comment
/// color from the cutoff on (keeping the background the scan last set),
/// else the colorizer step's result.
#[verifier::opaque]
pub open spec fn cell_colors(
    s: Seq<char>,
    p: Seq<char>,
    searching: bool,
    cidx: int,
    k: int,
) -> (Color, Color) {
    let st = color_state_at(s, p, searching, cidx, k);
    if k >= cidx {
        (Color::Green, st.bg)
    } else {
        let r = color_step(st, s[k], searching && in_search_match(s, p, k));
        (r.0, r.1.bg)
    }
}

/// The part of a line visible through the viewport: the columns from the
/// horizontal scroll offset, truncated to the terminal width.
pub open spec fn visible_slice(line: Seq<char>, wlx: int, tw: int) -> Seq<char> {
    if line.len() >= wlx {
        let t = line.skip(wlx);
        if t.len() > tw {
            t.take(tw)
        } else {
            t
        }
    } else {
        Seq::empty()
    }
}

/// The comment token of the file, or `#` when the extension is unknown.
pub open spec fn resolved_token(file_name: Seq<char>) -> Seq<char> {
    match crate::comment::comment_token_spec(crate::comment::extension_of(file_name)) {
        Some(t) => t,
        None => seq!['#'],
    }
}

/// Number of cells of one rendered row: the gutter, and the visible
/// slice or one blank cell in its place.
pub open spec fn row_len(line: Seq<char>, row: int, wlx: int, tw: int) -> int {
    let s = visible_slice(line, wlx, tw);
    gutter_spec(row + 1).len() + (if s.len() == 0 {
        1int
    } else {
        s.len() as int
    })
}

/// The cell at position `j` of one rendered row: the line-number gutter
/// first, the colorized visible slice with selection highlighting after,
/// and a single blank cell when the slice is empty.
pub open spec fn row_cell_at(
    line: Seq<char>,
    row: int,
    wlx: int,
    tw: int,
    token: Seq<char>,
    search: Seq<char>,
    searching: bool,
    gutter_fg: Color,
    mode: Mode,
    cx: int,
    cy: int,
    vx: int,
    vy: int,
    j: int,
) -> Cell {
    let s = visible_slice(line, wlx, tw);
    let cidx = comment_col(s, token);
    let line_hl = mode is VisualLine && sel_line(row, vy, cy);
    let g = gutter_spec(row + 1);
    if j < g.len() {
        Cell { ch: g[j], fg: gutter_fg, bg: Color::Black, reverse: false }
    } else if s.len() == 0 {
        Cell { ch: ' ', fg: Color::White, bg: Color::Black, reverse: line_hl }
    } else {
        let k = j - g.len();
        let hl = if mode is VisualChar {
            sel_char(k + wlx, row, vx, vy, cx, cy)
        } else {
            line_hl
        };
        let colors = cell_colors(s, search, searching, cidx, k);
        Cell { ch: s[k], fg: colors.0, bg: colors.1, reverse: hl }
    }
}

/// The cells are exactly one rendered row.
pub open spec fn row_ok(
    cells: Seq<Cell>,
    line: Seq<char>,
    row: int,
    wlx: int,
    tw: int,
    token: Seq<char>,
    search: Seq<char>,
    searching: bool,
    gutter_fg: Color,
    mode: Mode,
    cx: int,
    cy: int,
    vx: int,
    vy: int,
) -> bool {
    &&& cells.len() == row_len(line, row, wlx, tw)
    &&& forall|j: int|
        0 <= j < cells.len() ==> cells[j] == row_cell_at(
            line,
            row,
            wlx,
            tw,
            token,
            search,
            searching,
            gutter_fg,
            mode,
            cx,
            cy,
            vx,
            vy,
            j,
        )
}

/// Builds one cell.
fn mk_cell(ch: char, fg: Color, bg: Color, reverse: bool) -> (r: Cell)
    ensures
        r == (Cell { ch, fg, bg, reverse }),
{
    Cell { ch, fg, bg, reverse }
}

/// Builds the frame for the visible part of the buffer: one row of cells
/// per visible line, bounded by the terminal height; each row is the
/// gutter and the colorized, selection-highlighted visible slice.
pub fn render_file_data(
    file_name: &Vec<char>,
    file_data: &Vec<Vec<char>>,
    window_line_x: usize,
    window_line_y: usize,
    cursor_x: usize,
    cursor_y: usize,
    visual_x: usize,
    visual_y: usize,
    mode: Mode,
    search_string: &Vec<char>,
    searching: bool,
    macro_recording: bool,
    term_width: usize,
    term_height: usize,
) -> (r: Vec<Vec<Cell>>)
    ensures
        ({
            let b = crate::motion::buf_view(file_data@);
            let gfg = if macro_recording {
                Color::Red
            } else {
                Color::DarkGrey
            };
            &&& r@.len() == (if (window_line_y as int) < b.len() {
                if b.len() - window_line_y < term_height {
                    b.len() - window_line_y
                } else {
                    term_height as int
                }
            } else {
                0
            })
            &&& forall|j: int|
                0 <= j < r@.len() ==> row_ok(
                    r@[j]@,
                    b[window_line_y + j],
                    window_line_y + j,
                    window_line_x as int,
                    term_width as int,
                    resolved_token(file_name@),
                    search_string@,
                    searching,
                    gfg,
                    mode,
                    cursor_x as int,
                    cursor_y as int,
                    visual_x as int,
                    visual_y as int,
                )
        }),
{
    let ghost b = crate::motion::buf_view(file_data@);
    proof {
        assert(file_data.len() as int == file_data@.len());
    }
    let token = match crate::comment::get_comment_string(file_name) {
        Some(t) => t,
        None => {
            let mut v: Vec<char> = Vec::new();
            v.push('#');
            proof {
                assert(v@ =~= seq!['#']);
            }
            v
        },
    };
    proof {
        assert(token@ == resolved_token(file_name@));
    }
    let gfg = if macro_recording {
        Color::Red
    } else {
        Color::DarkGrey
    };
    let mut screen: Vec<Vec<Cell>> = Vec::new();
    let mut y: usize = 0;
    loop
        invariant
            b == crate::motion::buf_view(file_data@),
            token@ == resolved_token(file_name@),
            gfg == (if macro_recording {
                Color::Red
            } else {
                Color::DarkGrey
            }),
            y <= term_height,
            window_line_y + y <= b.len() || y == 0,
            b.len() <= usize::MAX,
            screen@.len() == y,
            forall|j: int|
                0 <= j < y ==> row_ok(
                    screen@[j]@,
                    b[window_line_y + j],
                    window_line_y + j,
                    window_line_x as int,
                    term_width as int,
                    resolved_token(file_name@),
                    search_string@,
                    searching,
                    gfg,
                    mode,
                    cursor_x as int,
                    cursor_y as int,
                    visual_x as int,
                    visual_y as int,
                ),
        ensures
            screen@.len() == y,
            y <= term_height,
            (window_line_y as int) < b.len() ==> y == term_height || window_line_y + y == b.len(),
            window_line_y >= b.len() ==> y == 0,
            forall|j: int|
                0 <= j < y ==> row_ok(
                    screen@[j]@,
                    b[window_line_y + j],
                    window_line_y + j,
                    window_line_x as int,
                    term_width as int,
                    resolved_token(file_name@),
                    search_string@,
                    searching,
                    gfg,
                    mode,
                    cursor_x as int,
                    cursor_y as int,
                    visual_x as int,
                    visual_y as int,
                ),
        decreases term_height - y,
    {
        if y == term_height {
            break;
        }
        if window_line_y >= file_data.len() || y >= file_data.len() - window_line_y {
            break;
        }
        let row_idx = window_line_y + y;
        let cells = render_one_row(
            file_data,
            row_idx,
            window_line_x,
            &token,
            search_string,
            searching,
            gfg,
            mode,
            cursor_x,
            cursor_y,
            visual_x,
            visual_y,
            term_width,
        );
        screen.push(cells);
        y = y + 1;
    }
    screen
}

/// Builds the cells of one visible row.
#[verifier::rlimit(100)]
fn render_one_row(
    file_data: &Vec<Vec<char>>,
    row_idx: usize,
    window_line_x: usize,
    token: &Vec<char>,
    search_string: &Vec<char>,
    searching: bool,
    gfg: Color,
    mode: Mode,
    cursor_x: usize,
    cursor_y: usize,
    visual_x: usize,
    visual_y: usize,
    term_width: usize,
) -> (out: Vec<Cell>)
    requires
        row_idx < file_data@.len(),
    ensures
        row_ok(
            out@,
            crate::motion::buf_view(file_data@)[row_idx as int],
            row_idx as int,
            window_line_x as int,
            term_width as int,
            token@,
            search_string@,
            searching,
            gfg,
            mode,
            cursor_x as int,
            cursor_y as int,
            visual_x as int,
            visual_y as int,
        ),
{
    let ghost linev = crate::motion::buf_view(file_data@)[row_idx as int];
    proof {
        assert(file_data.len() as int == file_data@.len());
    }
    let line = &file_data[row_idx];
    let mut s: Vec<char> = Vec::new();
    if line.len() >= window_line_x {
        let hi = if line.len() - window_line_x > term_width {
            window_line_x + term_width
        } else {
            line.len()
        };
        crate::text::push_range(&mut s, line, window_line_x, hi);
    }
    proof {
        assert(s@ =~= visible_slice(linev, window_line_x as int, term_width as int));
    }
    let ghost sv = s@;
    let gt = make_gutter(row_idx + 1);
    let mut cells: Vec<Cell> = Vec::new();
    let mut g: usize = 0;
    while g < gt.len()
        invariant
            g <= gt@.len(),
            gt@ == gutter_spec(row_idx + 1),
            cells@.len() == g,
            forall|j: int|
                0 <= j < g ==> cells@[j] == (Cell {
                    ch: gt@[j],
                    fg: gfg,
                    bg: Color::Black,
                    reverse: false,
                }),
        decreases gt@.len() - g,
    {
        cells.push(mk_cell(gt[g], gfg, Color::Black, false));
        g = g + 1;
    }
    let cidx = match crate::text::find_substring(&s, token) {
        Some(i) => i,
        None => s.len(),
    };
    proof {
        crate::text::lemma_first_match_from(sv, token@, 0);
        match crate::text::first_match_from(sv, token@, 0) {
            Some(i) => {
                assert(cidx as int == i) by {
                    assert(crate::text::match_at(sv, token@, i));
                }
            },
            None => {},
        }
        assert(cidx as int == comment_col(sv, token@));
    }
    let line_hl = match mode {
        Mode::VisualLine => is_line_highlighted(row_idx, visual_y, cursor_y),
        _ => false,
    };
    let glen = cells.len();
    proof {
        reveal_with_fuel(color_state_at, 1);
        assert forall|j: int| 0 <= j < glen implies cells@[j] == row_cell_at(
            linev,
            row_idx as int,
            window_line_x as int,
            term_width as int,
            token@,
            search_string@,
            searching,
            gfg,
            mode,
            cursor_x as int,
            cursor_y as int,
            visual_x as int,
            visual_y as int,
            j,
        ) by {}
    }
    let mut in_string = false;
    let mut string_char = '\0';
    let mut disregard = false;
    let mut bg = Color::Black;
    let mut k: usize = 0;
    while k < s.len()
        invariant
            k <= sv.len(),
            sv == s@,
            glen == gutter_spec(row_idx + 1).len(),
            cells@.len() == glen + k,
            cidx as int == comment_col(sv, token@),
            line_hl == (mode is VisualLine && sel_line(
                row_idx as int,
                visual_y as int,
                cursor_y as int,
            )),
            sv == visible_slice(linev, window_line_x as int, term_width as int),
            window_line_x + sv.len() <= usize::MAX,
            (ColorState { in_string, string_char, disregard, bg }) == color_state_at(
                sv,
                search_string@,
                searching,
                cidx as int,
                k as int,
            ),
            forall|j: int|
                0 <= j < glen + k ==> cells@[j] == row_cell_at(
                    linev,
                    row_idx as int,
                    window_line_x as int,
                    term_width as int,
                    token@,
                    search_string@,
                    searching,
                    gfg,
                    mode,
                    cursor_x as int,
                    cursor_y as int,
                    visual_x as int,
                    visual_y as int,
                    j,
                ),
        decreases sv.len() - k,
    {
        let ch = s[k];
        let hl = match mode {
            Mode::VisualChar => is_highlighted(
                k + window_line_x,
                row_idx,
                visual_x,
                visual_y,
                cursor_x,
                cursor_y,
            ),
            Mode::VisualLine => line_hl,
            _ => false,
        };
        let cov = if searching {
            covered_at(&s, search_string, k)
        } else {
            false
        };
        let ghost st0 = ColorState { in_string, string_char, disregard, bg };
        if k >= cidx {
            cells.push(mk_cell(ch, Color::Green, bg, hl));
        } else {
            let mut fg = if in_string {
                Color::Magenta
            } else {
                Color::White
            };
            if ch == string_char && string_char != '\0' && !disregard {
                in_string = !in_string;
                string_char = '\0';
            } else if ch == '"' || ch == '\'' || ch == '`' {
                fg = Color::Magenta;
                if string_char == '\0' {
                    in_string = !in_string;
                    string_char = ch;
                }
            } else if !in_string && (ch == '[' || ch == ']') {
                fg = Color::Green;
            } else if !in_string && (ch == '{' || ch == '}') {
                fg = Color::Cyan;
            } else if !in_string && (ch == '(' || ch == ')') {
                fg = Color::Yellow;
            }
            disregard = in_string && ch == '\\';
            if cov {
                fg = Color::Black;
                bg = Color::Green;
            } else {
                bg = Color::Black;
            }
            proof {
                let step = color_step(st0, sv[k as int], searching && in_search_match(
                    sv,
                    search_string@,
                    k as int,
                ));
                assert(fg == step.0);
                assert((ColorState { in_string, string_char, disregard, bg }) == step.1);
            }
            cells.push(mk_cell(ch, fg, bg, hl));
        }
        proof {
            reveal_with_fuel(color_state_at, 2);
            reveal(cell_colors);
            assert((ColorState { in_string, string_char, disregard, bg }) == color_state_at(
                sv,
                search_string@,
                searching,
                cidx as int,
                k + 1,
            ));
            assert(cells@[glen + k] == row_cell_at(
                linev,
                row_idx as int,
                window_line_x as int,
                term_width as int,
                token@,
                search_string@,
                searching,
                gfg,
                mode,
                cursor_x as int,
                cursor_y as int,
                visual_x as int,
                visual_y as int,
                glen + k,
            ));
        }
        k = k + 1;
    }
    if s.len() == 0 {
        cells.push(mk_cell(' ', Color::White, Color::Black, line_hl));
        proof {
            assert(cells@[glen as int] == row_cell_at(
                linev,
                row_idx as int,
                window_line_x as int,
                term_width as int,
                token@,
                search_string@,
                searching,
                gfg,
                mode,
                cursor_x as int,
                cursor_y as int,
                visual_x as int,
                visual_y as int,
                glen as int,
            ));
        }
    }
    cells
}

} // verus!
