//! Cursor motions and clamping over the line buffer: character steps,
//! word and paragraph motions, and the helpers that keep the cursor
//! inside a line or inside the buffer.

use vstd::prelude::*;
use crate::text::is_word_char;
use crate::text::word_char;

verus! {

/// The character sequences of a buffer of lines.
pub open spec fn buf_view(b: Seq<Vec<char>>) -> Seq<Seq<char>> {
    Seq::new(b.len(), |i: int| b[i]@)
}

/// First position at or after `from` whose character satisfies `p`.
pub open spec fn first_in_class_from(l: Seq<char>, from: int, p: spec_fn(char) -> bool) -> Option<
    int,
>
    decreases l.len() - from,
{
    if from < 0 || from >= l.len() {
        None
    } else if p(l[from]) {
        Some(from)
    } else {
        first_in_class_from(l, from + 1, p)
    }
}

/// Last position strictly before `upto` whose character satisfies `p`.
pub open spec fn last_in_class_before(l: Seq<char>, upto: int, p: spec_fn(char) -> bool) -> Option<
    int,
>
    decreases upto,
{
    if upto <= 0 || upto > l.len() {
        None
    } else if p(l[upto - 1]) {
        Some(upto - 1)
    } else {
        last_in_class_before(l, upto - 1, p)
    }
}

pub proof fn lemma_first_in_class(l: Seq<char>, from: int, p: spec_fn(char) -> bool)
    requires
        from >= 0,
    ensures
        match first_in_class_from(l, from, p) {
            Some(i) => from <= i < l.len() && p(l[i]) && (forall|j: int|
                from <= j < i ==> !p(l[j])),
            None => forall|j: int| from <= j < l.len() ==> !p(l[j]),
        },
    decreases l.len() - from,
{
    if from < l.len() && !p(l[from]) {
        lemma_first_in_class(l, from + 1, p);
    }
}

pub proof fn lemma_last_in_class(l: Seq<char>, upto: int, p: spec_fn(char) -> bool)
    requires
        upto <= l.len(),
    ensures
        match last_in_class_before(l, upto, p) {
            Some(i) => 0 <= i < upto && p(l[i]) && (forall|j: int| i < j < upto ==> !p(l[j])),
            None => forall|j: int| 0 <= j < upto ==> !p(l[j]),
        },
    decreases upto,
{
    if upto > 0 && !p(l[upto - 1]) {
        lemma_last_in_class(l, upto - 1, p);
    }
}

/// First position at or after `from` holding a word character, scanning
/// one line; `want_word` false scans for a non-word character instead.
fn scan_from(line: &Vec<char>, from: usize, want_word: bool) -> (r: Option<usize>)
    requires
        from <= line@.len(),
    ensures
        ({
            let p = if want_word {
                |c: char| is_word_char(c)
            } else {
                |c: char| !is_word_char(c)
            };
            match r {
                Some(i) => Some(i as int) == first_in_class_from(line@, from as int, p),
                None => None::<int> == first_in_class_from(line@, from as int, p),
            }
        }),
{
    let ghost p = if want_word {
        |c: char| is_word_char(c)
    } else {
        |c: char| !is_word_char(c)
    };
    proof {
        lemma_first_in_class(line@, from as int, p);
    }
    let mut i: usize = from;
    loop
        invariant
            from <= i <= line@.len(),
            p == (if want_word {
                |c: char| is_word_char(c)
            } else {
                |c: char| !is_word_char(c)
            }),
            forall|j: int| from <= j < i ==> !p(line@[j]),
        ensures
            from <= i <= line@.len(),
            forall|j: int| from <= j < i ==> !p(line@[j]),
            i < line@.len() ==> p(line@[i as int]),
        decreases line@.len() - i,
    {
        if i == line.len() {
            break;
        }
        let w = word_char(line[i]);
        if w == want_word {
            break;
        }
        i = i + 1;
    }
    if i < line.len() {
        Some(i)
    } else {
        None
    }
}

/// Last position strictly before `upto` holding a word character
/// (`want_word` true) or a non-word character (`want_word` false).
fn scan_before(line: &Vec<char>, upto: usize, want_word: bool) -> (r: Option<usize>)
    requires
        upto <= line@.len(),
    ensures
        ({
            let p = if want_word {
                |c: char| is_word_char(c)
            } else {
                |c: char| !is_word_char(c)
            };
            match r {
                Some(i) => Some(i as int) == last_in_class_before(line@, upto as int, p),
                None => None::<int> == last_in_class_before(line@, upto as int, p),
            }
        }),
{
    let ghost p = if want_word {
        |c: char| is_word_char(c)
    } else {
        |c: char| !is_word_char(c)
    };
    proof {
        lemma_last_in_class(line@, upto as int, p);
    }
    let mut i: usize = upto;
    loop
        invariant
            i <= upto <= line@.len(),
            p == (if want_word {
                |c: char| is_word_char(c)
            } else {
                |c: char| !is_word_char(c)
            }),
            forall|j: int| i <= j < upto ==> !p(line@[j]),
        ensures
            i <= upto,
            forall|j: int| i <= j < upto ==> !p(line@[j]),
            i > 0 ==> p(line@[i - 1]),
        decreases i,
    {
        if i == 0 {
            break;
        }
        let w = word_char(line[i - 1]);
        if w == want_word {
            break;
        }
        i = i - 1;
    }
    if i > 0 {
        Some(i - 1)
    } else {
        None
    }
}

/// One step right in insert mode: the cursor may pass the last character
/// and stand at the line length.
pub fn right_insert(file_data: &Vec<Vec<char>>, cursor_x: usize, cursor_y: usize) -> (r: usize)
    requires
        cursor_y < file_data@.len(),
    ensures
        r as int == if cursor_x + 1 <= file_data@[cursor_y as int]@.len() {
            cursor_x + 1 as int
        } else {
            cursor_x as int
        },
{
    if cursor_x < file_data[cursor_y].len() {
        cursor_x + 1
    } else {
        cursor_x
    }
}

/// One step right in normal mode, bounded by the last character.
pub fn right(file_data: &Vec<Vec<char>>, cursor_x: usize, cursor_y: usize) -> (r: usize)
    requires
        cursor_y < file_data@.len(),
    ensures
        r as int == if cursor_x + 1 < file_data@[cursor_y as int]@.len() {
            cursor_x + 1 as int
        } else {
            cursor_x as int
        },
{
    let len = file_data[cursor_y].len();
    if len > 0 && cursor_x < len - 1 {
        cursor_x + 1
    } else {
        cursor_x
    }
}

/// One step left, bounded by the first column.
pub fn left(cursor_x: usize) -> (r: usize)
    ensures
        r as int == if cursor_x > 0 {
            cursor_x - 1 as int
        } else {
            cursor_x as int
        },
{
    if cursor_x > 0 {
        cursor_x - 1
    } else {
        cursor_x
    }
}

/// One row down, bounded by the last row.
pub fn down(file_data: &Vec<Vec<char>>, cursor_y: usize) -> (r: usize)
    requires
        file_data@.len() >= 1,
    ensures
        r as int == if cursor_y + 1 < file_data@.len() {
            cursor_y + 1 as int
        } else {
            cursor_y as int
        },
{
    if cursor_y < file_data.len() - 1 {
        cursor_y + 1
    } else {
        cursor_y
    }
}

/// One row up, bounded by the first row.
pub fn up(cursor_y: usize) -> (r: usize)
    ensures
        r as int == if cursor_y > 0 {
            cursor_y - 1 as int
        } else {
            cursor_y as int
        },
{
    if cursor_y > 0 {
        cursor_y - 1
    } else {
        cursor_y
    }
}

/// The append column of a line: its length.
pub fn set_cursor_end(file_data: &Vec<Vec<char>>, cursor_y: usize) -> (r: usize)
    requires
        cursor_y < file_data@.len(),
    ensures
        r as int == file_data@[cursor_y as int]@.len(),
{
    file_data[cursor_y].len()
}

/// Clamps a column to the last character of a non-empty line.
pub fn prevent_cursor_end(file_data: &Vec<Vec<char>>, cursor_x: usize, cursor_y: usize) -> (r:
    usize)
    requires
        cursor_y < file_data@.len(),
    ensures
        r as int == ({
            let len = file_data@[cursor_y as int]@.len();
            if len != 0 && cursor_x >= len {
                len - 1
            } else {
                cursor_x as int
            }
        }),
{
    let len = file_data[cursor_y].len();
    if len != 0 && cursor_x >= len {
        len - 1
    } else {
        cursor_x
    }
}

/// Clamps a column so that it addresses a character of the line, or
/// column zero on an empty line.
pub fn reset_cursor_end(file_data: &Vec<Vec<char>>, cursor_x: usize, cursor_y: usize) -> (r: usize)
    requires
        cursor_y < file_data@.len(),
    ensures
        r as int == ({
            let len = file_data@[cursor_y as int]@.len();
            if len == 0 {
                0
            } else if cursor_x > len - 1 {
                len - 1
            } else {
                cursor_x as int
            }
        }),
        r == 0 || (r as int) < file_data@[cursor_y as int]@.len(),
{
    let len = file_data[cursor_y].len();
    if len == 0 {
        0
    } else if cursor_x > len - 1 {
        len - 1
    } else {
        cursor_x
    }
}

/// Clamps a row to the last row of a buffer of `length` lines.
pub fn reset_cursor_end_file(length: usize, cursor_y: usize) -> (r: usize)
    requires
        length >= 1,
    ensures
        r as int == if cursor_y >= length {
            length - 1 as int
        } else {
            cursor_y as int
        },
        r < length,
{
    if cursor_y >= length {
        length - 1
    } else {
        cursor_y
    }
}

/// Orders two columns or rows into (begin, end).
pub fn normalize(cursor: usize, visual: usize) -> (r: (usize, usize))
    ensures
        r == if cursor <= visual {
            (cursor, visual)
        } else {
            (visual, cursor)
        },
        r.0 <= r.1,
{
    if cursor <= visual {
        (cursor, visual)
    } else {
        (visual, cursor)
    }
}

/// The cursor position kept after leaving a visual selection: the smaller
/// of cursor and anchor.
pub fn get_cursor_after_visual(cursor: usize, visual: usize) -> (r: usize)
    ensures
        r as int == if cursor <= visual {
            cursor as int
        } else {
            visual as int
        },
        r <= cursor,
        r <= visual,
{
    if cursor <= visual {
        cursor
    } else {
        visual
    }
}

/// Target column of the forward word motion: from a word character, the
/// start of the next word; from elsewhere, the next word start; the
/// column itself when no further word exists.
pub open spec fn next_word_col(l: Seq<char>, cx: int) -> int {
    if !(0 <= cx < l.len()) {
        cx
    } else {
        let s = if is_word_char(l[cx]) {
            match first_in_class_from(l, cx, |c: char| !is_word_char(c)) {
                Some(i) => i,
                None => cx,
            }
        } else {
            cx
        };
        match first_in_class_from(l, s, |c: char| is_word_char(c)) {
            Some(i) => i,
            None => cx,
        }
    }
}

/// First column at or after `cursor_x` that is not a word character,
/// or `cursor_x` itself when the rest of the line is all word characters.
pub fn get_index_next_non_word(file_data: &Vec<Vec<char>>, cursor_x: usize, cursor_y: usize) -> (r:
    usize)
    requires
        cursor_y < file_data@.len(),
        cursor_x <= file_data@[cursor_y as int]@.len(),
    ensures
        r as int == ({
            let l = file_data@[cursor_y as int]@;
            match first_in_class_from(l, cursor_x as int, |c: char| !is_word_char(c)) {
                Some(i) => i,
                None => cursor_x as int,
            }
        }),
        cursor_x <= r <= file_data@[cursor_y as int]@.len(),
{
    let line = &file_data[cursor_y];
    proof {
        lemma_first_in_class(line@, cursor_x as int, |c: char| !is_word_char(c));
    }
    match scan_from(line, cursor_x, false) {
        Some(i) => i,
        None => cursor_x,
    }
}

/// Forward word motion on the cursor's line.
pub fn get_index_next_word(file_data: &Vec<Vec<char>>, cursor_x: usize, cursor_y: usize) -> (r:
    usize)
    requires
        cursor_y < file_data@.len(),
    ensures
        r as int == next_word_col(file_data@[cursor_y as int]@, cursor_x as int),
        r == cursor_x || (r as int) < file_data@[cursor_y as int]@.len(),
{
    let line = &file_data[cursor_y];
    if cursor_x >= line.len() {
        return cursor_x;
    }
    let mut from = cursor_x;
    proof {
        lemma_first_in_class(line@, cursor_x as int, |c: char| !is_word_char(c));
    }
    if word_char(line[cursor_x]) {
        match scan_from(line, cursor_x, false) {
            Some(i) => {
                from = i;
            },
            None => {},
        }
    }
    proof {
        lemma_first_in_class(line@, from as int, |c: char| is_word_char(c));
    }
    match scan_from(line, from, true) {
        Some(i) => i,
        None => cursor_x,
    }
}

/// Target column of the backward word motion: the start of the word the
/// cursor is in or of the previous word; zero when no boundary exists.
pub open spec fn prev_word_col(l: Seq<char>, cx: int) -> int {
    if cx == 0 || cx >= l.len() {
        cx
    } else {
        let a = match last_in_class_before(l, cx, |c: char| is_word_char(c)) {
            Some(i) => i,
            None => cx,
        };
        match last_in_class_before(l, a, |c: char| !is_word_char(c)) {
            Some(i) => i + 1,
            None => 0,
        }
    }
}

/// Last column strictly before `cursor_x` holding a word character, or
/// `cursor_x` itself when there is none.
pub fn get_index_prev_alpha_word(file_data: &Vec<Vec<char>>, cursor_x: usize, cursor_y: usize) -> (
    r: usize)
    requires
        cursor_y < file_data@.len(),
        cursor_x <= file_data@[cursor_y as int]@.len(),
    ensures
        r as int == ({
            let l = file_data@[cursor_y as int]@;
            match last_in_class_before(l, cursor_x as int, |c: char| is_word_char(c)) {
                Some(i) => i,
                None => cursor_x as int,
            }
        }),
        r <= cursor_x,
{
    let line = &file_data[cursor_y];
    proof {
        lemma_last_in_class(line@, cursor_x as int, |c: char| is_word_char(c));
    }
    match scan_before(line, cursor_x, true) {
        Some(i) => i,
        None => cursor_x,
    }
}

/// Last column strictly before `cursor_x` holding a non-word character,
/// or `cursor_x` itself when there is none.
pub fn get_index_prev_non_word(file_data: &Vec<Vec<char>>, cursor_x: usize, cursor_y: usize) -> (r:
    usize)
    requires
        cursor_y < file_data@.len(),
        cursor_x <= file_data@[cursor_y as int]@.len(),
    ensures
        r as int == ({
            let l = file_data@[cursor_y as int]@;
            match last_in_class_before(l, cursor_x as int, |c: char| !is_word_char(c)) {
                Some(i) => i,
                None => cursor_x as int,
            }
        }),
        r <= cursor_x,
{
    let line = &file_data[cursor_y];
    proof {
        lemma_last_in_class(line@, cursor_x as int, |c: char| !is_word_char(c));
    }
    match scan_before(line, cursor_x, false) {
        Some(i) => i,
        None => cursor_x,
    }
}

/// Backward word motion on the cursor's line.
pub fn get_index_prev_word(file_data: &Vec<Vec<char>>, cursor_x: usize, cursor_y: usize) -> (r:
    usize)
    requires
        cursor_y < file_data@.len(),
        cursor_x <= file_data@[cursor_y as int]@.len(),
    ensures
        r as int == prev_word_col(file_data@[cursor_y as int]@, cursor_x as int),
        r <= cursor_x,
{
    let line = &file_data[cursor_y];
    if cursor_x == 0 {
        return cursor_x;
    }
    if cursor_x >= line.len() {
        return cursor_x;
    }
    let a = get_index_prev_alpha_word(file_data, cursor_x, cursor_y);
    let line = &file_data[cursor_y];
    let prev = get_index_prev_non_word(file_data, a, cursor_y);
    proof {
        lemma_last_in_class(line@, a as int, |c: char| !is_word_char(c));
    }
    if prev == a {
        return 0;
    }
    prev + 1
}

/// The word range around the cursor: `None` when the cursor's character
/// is not a word character, else the first and last column of its word.
pub open spec fn in_word_range(l: Seq<char>, cx: int) -> Option<(int, int)> {
    if !is_word_char(l[cx]) {
        None
    } else {
        let s = match last_in_class_before(l, cx, |c: char| !is_word_char(c)) {
            Some(i) => i + 1,
            None => 0,
        };
        let e = match first_in_class_from(l, cx, |c: char| !is_word_char(c)) {
            Some(i) => i - 1,
            None => l.len() - 1,
        };
        Some((s, e))
    }
}

/// The extent of the word under the cursor, when the cursor stands on a
/// word character.
pub fn get_in_word(string: &Vec<char>, cursor_x: usize) -> (r: Option<(usize, usize)>)
    requires
        cursor_x < string@.len(),
    ensures
        match r {
            Some(p) => {
                &&& in_word_range(string@, cursor_x as int) == Some((p.0 as int, p.1 as int))
                &&& p.0 <= cursor_x <= p.1 < string@.len()
            },
            None => in_word_range(string@, cursor_x as int) is None,
        },
{
    if !word_char(string[cursor_x]) {
        return None;
    }
    proof {
        lemma_last_in_class(string@, cursor_x as int, |c: char| !is_word_char(c));
        lemma_first_in_class(string@, cursor_x as int, |c: char| !is_word_char(c));
    }
    let s = match scan_before(string, cursor_x, false) {
        Some(i) => i + 1,
        None => 0,
    };
    let e = match scan_from(string, cursor_x, false) {
        Some(i) => i - 1,
        None => string.len() - 1,
    };
    Some((s, e))
}

/// Row of the next empty line below `cursor_y`, or the last row when
/// there is none.
pub fn get_next_empty_line(file_data: &Vec<Vec<char>>, cursor_y: usize) -> (r: usize)
    requires
        file_data@.len() >= 1,
        cursor_y < file_data@.len(),
    ensures
        ({
            let b = file_data@;
            if exists|i: int| cursor_y < i < b.len() && b[i]@.len() == 0 {
                &&& cursor_y < r < b.len()
                &&& b[r as int]@.len() == 0
                &&& forall|j: int| cursor_y < j < r ==> b[j]@.len() != 0
            } else {
                r as int == b.len() - 1
            }
        }),
        r < file_data@.len(),
{
    proof {
        assert(file_data.len() as int == file_data@.len());
    }
    let mut i: usize = cursor_y + 1;
    loop
        invariant
            cursor_y < i <= file_data@.len(),
            forall|j: int| cursor_y < j < i ==> file_data@[j]@.len() != 0,
        ensures
            cursor_y < i <= file_data@.len(),
            forall|j: int| cursor_y < j < i ==> file_data@[j]@.len() != 0,
            i < file_data@.len() ==> file_data@[i as int]@.len() == 0,
        decreases file_data@.len() - i,
    {
        if i == file_data.len() {
            break;
        }
        if file_data[i].len() == 0 {
            break;
        }
        i = i + 1;
    }
    if i < file_data.len() {
        i
    } else {
        proof {
            assert(forall|j: int| cursor_y < j < file_data@.len() ==> file_data@[j]@.len() != 0);
        }
        file_data.len() - 1
    }
}

/// Row of the nearest empty line above `cursor_y`, or row zero when
/// there is none.
pub fn get_prev_empty_line(file_data: &Vec<Vec<char>>, cursor_y: usize) -> (r: usize)
    requires
        cursor_y <= file_data@.len(),
    ensures
        ({
            let b = file_data@;
            if exists|i: int| 0 <= i < cursor_y && b[i]@.len() == 0 {
                &&& r < cursor_y
                &&& b[r as int]@.len() == 0
                &&& forall|j: int| r < j < cursor_y ==> b[j]@.len() != 0
            } else {
                r == 0
            }
        }),
        r <= cursor_y,
{
    let mut i: usize = cursor_y;
    loop
        invariant
            i <= cursor_y <= file_data@.len(),
            forall|j: int| i <= j < cursor_y ==> file_data@[j]@.len() != 0,
        ensures
            i <= cursor_y,
            forall|j: int| i <= j < cursor_y ==> file_data@[j]@.len() != 0,
            i > 0 ==> file_data@[i - 1]@.len() == 0,
        decreases i,
    {
        if i == 0 {
            break;
        }
        if file_data[i - 1].len() == 0 {
            break;
        }
        i = i - 1;
    }
    if i > 0 {
        i - 1
    } else {
        0
    }
}


/// Forward word motion at the last word of a line is a no-op: when no
/// word character follows the end of the word under the cursor, the
/// motion keeps its column and never yields a column outside the line.
pub proof fn lemma_word_forward_last_word(l: Seq<char>, cx: int)
    requires
        0 <= cx < l.len(),
        is_word_char(l[cx]),
        match first_in_class_from(l, cx, |c: char| !is_word_char(c)) {
            Some(e) => forall|k: int| e <= k < l.len() ==> !is_word_char(l[k]),
            None => true,
        },
    ensures
        next_word_col(l, cx) == cx,
{
    lemma_first_in_class(l, cx, |c: char| !is_word_char(c));
    match first_in_class_from(l, cx, |c: char| !is_word_char(c)) {
        Some(e) => {
            lemma_first_in_class(l, e, |c: char| is_word_char(c));
            match first_in_class_from(l, e, |c: char| is_word_char(c)) {
                Some(i) => {
                    assert(is_word_char(l[i]));
                    assert(false);
                },
                None => {},
            }
        },
        None => {
            lemma_first_in_class(l, cx, |c: char| is_word_char(c));
            match first_in_class_from(l, cx, |c: char| is_word_char(c)) {
                Some(i) => {
                    assert(forall|j: int| cx <= j < i ==> !is_word_char(l[j]));
                    assert(i == cx);
                },
                None => {
                    assert(!is_word_char(l[cx]));
                },
            }
        },
    }
}

} // verus!
