//! Wrap-around text search over the line buffer: the next and the
//! previous occurrence of a query, scanning forward or backward from the
//! cursor and wrapping past the buffer edge.

use vstd::prelude::*;
use crate::motion::buf_view;
use crate::text::match_at;

verus! {

/// The query occurs at column `x` of `line`, `x` being a real column.
pub open spec fn hit(line: Seq<char>, pat: Seq<char>, x: int) -> bool {
    match_at(line, pat, x) && x < line.len()
}

/// The query occurs at column `x` and ends before the line's last
/// character — the region the backward search covers.
pub open spec fn bhit(line: Seq<char>, pat: Seq<char>, x: int) -> bool {
    match_at(line, pat, x) && x + pat.len() < line.len()
}

/// Rank of a position in the forward wrap-around scan order that starts
/// at `(x0, y0)` in a buffer of `n` rows: positions of the start row at
/// or after `x0` come first (rank 0), the following rows next, and the
/// start row's earlier columns last (rank `n`).
pub open spec fn fwd_seg(y: int, x: int, x0: int, y0: int, n: int) -> int {
    if y == y0 && x >= x0 {
        0
    } else if y > y0 {
        y - y0
    } else if y < y0 {
        n - y0 + y
    } else {
        n
    }
}

/// `(x1, y1)` is met strictly before `(x2, y2)` in the forward scan.
pub open spec fn fwd_before(x1: int, y1: int, x2: int, y2: int, x0: int, y0: int, n: int) -> bool {
    let s1 = fwd_seg(y1, x1, x0, y0, n);
    let s2 = fwd_seg(y2, x2, x0, y0, n);
    s1 < s2 || (s1 == s2 && x1 < x2)
}

/// Rank of a position in the backward scan order starting at `(x0, y0)`:
/// matches ending before column `x0` on the start row come first, then
/// the rows above (wrapping), then the rest of the start row.
pub open spec fn bwd_seg(y: int, x: int, pl: int, x0: int, y0: int, n: int) -> int {
    if y == y0 && x + pl <= x0 - 1 {
        0
    } else if y < y0 {
        y0 - y
    } else if y > y0 {
        y0 + n - y
    } else {
        n
    }
}

/// `(x1, y1)` is met strictly before `(x2, y2)` in the backward scan.
pub open spec fn bwd_before(
    x1: int,
    y1: int,
    x2: int,
    y2: int,
    pl: int,
    x0: int,
    y0: int,
    n: int,
) -> bool {
    let s1 = bwd_seg(y1, x1, pl, x0, y0, n);
    let s2 = bwd_seg(y2, x2, pl, x0, y0, n);
    s1 < s2 || (s1 == s2 && x1 > x2)
}

/// First column at or after `from` where the query occurs in the line.
fn find_in_row_from(line: &Vec<char>, pat: &Vec<char>, from: usize) -> (r: Option<usize>)
    ensures
        match r {
            Some(i) => from <= i && hit(line@, pat@, i as int) && (forall|j: int|
                from <= j < i ==> !hit(line@, pat@, j)),
            None => forall|j: int| j >= from ==> !hit(line@, pat@, j),
        },
{
    let n = line.len();
    if from >= n {
        return None;
    }
    let mut i: usize = from;
    loop
        invariant
            from <= i <= n,
            n == line@.len(),
            forall|j: int| from <= j < i ==> !hit(line@, pat@, j),
        ensures
            from <= i <= n,
            forall|j: int| from <= j < i ==> !hit(line@, pat@, j),
            i < n ==> pat@.len() <= n - i && hit(line@, pat@, i as int),
            i == n ==> (forall|j: int| j >= from ==> !hit(line@, pat@, j)),
        decreases n - i,
    {
        if i == n {
            proof {
                assert(forall|j: int| j >= n ==> !hit(line@, pat@, j));
            }
            break;
        }
        if pat.len() > n - i {
            proof {
                assert(forall|j: int|
                    j >= i ==> j + pat@.len() > line@.len() ==> !match_at(line@, pat@, j));
            }
            i = n;
            proof {
                assert(forall|j: int| j >= from ==> !hit(line@, pat@, j));
            }
            break;
        }
        if crate::text::matches_at(line, pat, i) {
            break;
        }
        i = i + 1;
    }
    if i < n {
        Some(i)
    } else {
        None
    }
}

/// Last column whose match ends at or before column `upto` of the line.
fn rfind_in_row_upto(line: &Vec<char>, pat: &Vec<char>, upto: usize) -> (r: Option<usize>)
    ensures
        match r {
            Some(i) => match_at(line@, pat@, i as int) && i + pat@.len() <= upto && (forall|j: int|
                i < j && j + pat@.len() <= upto ==> !match_at(line@, pat@, j)),
            None => forall|j: int| 0 <= j && j + pat@.len() <= upto ==> !match_at(line@, pat@, j),
        },
{
    let n = line.len();
    let lim = if upto < n {
        upto
    } else {
        n
    };
    if pat.len() > lim {
        return None;
    }
    let mut i: usize = lim - pat.len();
    loop
        invariant
            0 <= i <= lim - pat@.len(),
            lim <= upto,
            lim <= n == line@.len(),
            forall|j: int| i < j && j + pat@.len() <= upto ==> !match_at(line@, pat@, j),
        ensures
            forall|j: int| i < j && j + pat@.len() <= upto ==> !match_at(line@, pat@, j),
            i > 0 || forall|j: int|
                0 < j && j + pat@.len() <= upto ==> !match_at(line@, pat@, j),
            match_at(line@, pat@, i as int) || (forall|j: int|
                0 <= j && j + pat@.len() <= upto ==> !match_at(line@, pat@, j)),
        decreases i,
    {
        if crate::text::matches_at(line, pat, i) {
            break;
        }
        if i == 0 {
            break;
        }
        i = i - 1;
    }
    if crate::text::matches_at(line, pat, i) {
        Some(i)
    } else {
        None
    }
}

/// Finds the next occurrence of the query at or after the cursor,
/// scanning forward row by row and wrapping at the end of the buffer;
/// `None` exactly when the query occurs nowhere in the buffer (matches
/// at a line's very end excluded).
pub fn find_next_occurrence(
    file_data: &Vec<Vec<char>>,
    cursor_x: usize,
    cursor_y: usize,
    search_string: &Vec<char>,
) -> (r: Option<(usize, usize)>)
    requires
        file_data@.len() >= 1,
        cursor_y < file_data@.len(),
    ensures
        ({
            let b = buf_view(file_data@);
            let p = search_string@;
            let n = b.len() as int;
            match r {
                Some(pos) => {
                    &&& (pos.1 as int) < n
                    &&& hit(b[pos.1 as int], p, pos.0 as int)
                    &&& (pos.0 as int) < b[pos.1 as int].len()
                    &&& forall|x: int, y: int|
                        0 <= y < n && fwd_before(
                            x,
                            y,
                            pos.0 as int,
                            pos.1 as int,
                            cursor_x as int,
                            cursor_y as int,
                            n,
                        ) ==> !hit(b[y], p, x)
                },
                None => forall|x: int, y: int| 0 <= y < n ==> !hit(b[y], p, x),
            }
        }),
{
    let ghost b = buf_view(file_data@);
    let ghost p = search_string@;
    let n = file_data.len();
    let ghost x0 = cursor_x as int;
    let ghost y0 = cursor_y as int;
    let mut k: usize = 0;
    let mut row: usize = cursor_y;
    let mut from: usize = cursor_x;
    loop
        invariant
            k <= n,
            n == b.len(),
            b == buf_view(file_data@),
            p == search_string@,
            row < n,
            x0 == cursor_x as int && y0 == cursor_y as int && y0 < n,
            row as int == (if y0 + k < n {
                y0 + k
            } else {
                y0 + k - n
            }),
            from as int == (if k == 0 {
                x0
            } else {
                0
            }),
            forall|x: int, y: int|
                0 <= y < n && fwd_seg(y, x, x0, y0, n as int) < k ==> !hit(b[y], p, x),
        ensures
            forall|x: int, y: int| 0 <= y < n ==> !hit(b[y], p, x),
        decreases n + 1 - k,
    {
        match find_in_row_from(&file_data[row], search_string, from) {
            Some(i) => {
                proof {
                    let ni = n as int;
                    assert(hit(b[row as int], p, i as int));
                    let fs = fwd_seg(row as int, i as int, x0, y0, ni);
                    assert(fs == k || (k == 0 && fs == ni)) by {
                        if k == 0 {
                            assert(i >= from == cursor_x);
                        }
                    }
                    if k == n {
                        assert(fwd_seg(row as int, i as int, x0, y0, ni) == (if i >= cursor_x {
                            0int
                        } else {
                            ni
                        }));
                        if i >= cursor_x {
                            assert(!hit(b[row as int], p, i as int));
                        }
                    }
                    assert forall|x: int, y: int|
                        0 <= y < n && fwd_before(
                            x,
                            y,
                            i as int,
                            row as int,
                            x0,
                            y0,
                            ni,
                        ) implies !hit(b[y], p, x) by {
                        let s = fwd_seg(y, x, x0, y0, ni);
                        if s < k {
                        } else if hit(b[y], p, x) {
                            assert(0 <= x);
                            assert(s == fs && x < i);
                            assert(y == row as int);
                            assert(x >= from);
                            assert(!hit(b[row as int], p, x));
                        }
                    }
                }
                return Some((i, row));
            },
            None => {},
        }
        proof {
            let ni = n as int;
            assert forall|x: int, y: int|
                0 <= y < n && fwd_seg(y, x, x0, y0, ni) < k + 1 implies !hit(b[y], p, x) by {
                let s = fwd_seg(y, x, x0, y0, ni);
                if s == k && hit(b[y], p, x) {
                    assert(0 <= x);
                    assert(y == row as int);
                    assert(x >= from);
                    assert(!hit(b[row as int], p, x));
                }
            }
        }
        if k == n {
            proof {
                assert forall|x: int, y: int| 0 <= y < n implies !hit(b[y], p, x) by {
                    assert(fwd_seg(y, x, x0, y0, n as int) <= n);
                }
            }
            break;
        }
        k = k + 1;
        row = if row + 1 < n {
            row + 1
        } else {
            0
        };
        from = 0;
    }
    None
}

/// Finds the nearest occurrence of the query before the cursor, scanning
/// backward row by row and wrapping at the top of the buffer; `None`
/// exactly when no occurrence ends before the last character of any
/// line.
pub fn get_prev_occurrence(
    file_data: &Vec<Vec<char>>,
    cursor_x: usize,
    cursor_y: usize,
    search_string: &Vec<char>,
) -> (r: Option<(usize, usize)>)
    requires
        file_data@.len() >= 1,
        cursor_y < file_data@.len(),
        cursor_x <= file_data@[cursor_y as int]@.len(),
    ensures
        ({
            let b = buf_view(file_data@);
            let p = search_string@;
            let n = b.len() as int;
            match r {
                Some(pos) => {
                    &&& (pos.1 as int) < n
                    &&& bhit(b[pos.1 as int], p, pos.0 as int)
                    &&& (pos.0 as int) < b[pos.1 as int].len()
                    &&& forall|x: int, y: int|
                        0 <= y < n && bwd_before(
                            x,
                            y,
                            pos.0 as int,
                            pos.1 as int,
                            p.len() as int,
                            cursor_x as int,
                            cursor_y as int,
                            n,
                        ) ==> !bhit(b[y], p, x)
                },
                None => forall|x: int, y: int| 0 <= y < n ==> !bhit(b[y], p, x),
            }
        }),
{
    let ghost b = buf_view(file_data@);
    let ghost p = search_string@;
    let n = file_data.len();
    let ghost x0 = cursor_x as int;
    let ghost y0 = cursor_y as int;
    let ghost pl = p.len() as int;
    let mut k: usize = 0;
    let mut row: usize = cursor_y;
    loop
        invariant
            k <= n,
            n == b.len(),
            b == buf_view(file_data@),
            p == search_string@,
            pl == p.len() as int,
            row < n,
            x0 == cursor_x as int && y0 == cursor_y as int && y0 < n,
            x0 <= b[y0].len(),
            row as int == (if y0 - k >= 0 {
                y0 - k
            } else {
                y0 - k + n
            }),
            forall|x: int, y: int|
                0 <= y < n && bwd_seg(y, x, pl, x0, y0, n as int) < k ==> !bhit(b[y], p, x),
        ensures
            forall|x: int, y: int| 0 <= y < n ==> !bhit(b[y], p, x),
        decreases n + 1 - k,
    {
        let line = &file_data[row];
        let upto_opt: Option<usize> = if k == 0 {
            if cursor_x == 0 {
                None
            } else {
                Some(cursor_x - 1)
            }
        } else {
            if line.len() == 0 {
                None
            } else {
                Some(line.len() - 1)
            }
        };
        match upto_opt {
            Some(upto) => {
                match rfind_in_row_upto(line, search_string, upto) {
                    Some(i) => {
                        proof {
                            let ni = n as int;
                            assert(i + pl <= upto);
                            assert(upto < line@.len());
                            assert(bhit(b[row as int], p, i as int));
                            let bs = bwd_seg(row as int, i as int, pl, x0, y0, ni);
                            if k == 0 {
                                assert(i + pl <= x0 - 1);
                                assert(bs == 0);
                            }
                            if k == n {
                                if i + pl <= x0 - 1 {
                                    assert(bwd_seg(row as int, i as int, pl, x0, y0, ni) == 0);
                                    assert(!bhit(b[row as int], p, i as int));
                                }
                                assert(bs == ni);
                            }
                            assert forall|x: int, y: int|
                                0 <= y < n && bwd_before(
                                    x,
                                    y,
                                    i as int,
                                    row as int,
                                    pl,
                                    x0,
                                    y0,
                                    ni,
                                ) implies !bhit(b[y], p, x) by {
                                let s = bwd_seg(y, x, pl, x0, y0, ni);
                                if s < k {
                                } else {
                                    assert(s == bs && x > i);
                                    assert(y == row as int);
                                    if bhit(b[y], p, x) {
                                        assert(x + pl <= upto);
                                        assert(!match_at(b[y], p, x));
                                    }
                                }
                            }
                        }
                        return Some((i, row));
                    },
                    None => {},
                }
            },
            None => {},
        }
        proof {
            let ni = n as int;
            assert forall|x: int, y: int|
                0 <= y < n && bwd_seg(y, x, pl, x0, y0, ni) < k + 1 implies !bhit(b[y], p, x) by {
                let s = bwd_seg(y, x, pl, x0, y0, ni);
                if s == k {
                    assert(y == row as int);
                    if bhit(b[y], p, x) {
                        if k == 0 {
                            assert(x + pl <= x0 - 1);
                            assert(x0 >= 1);
                        } else {
                            assert(x + pl <= b[y].len() - 1);
                        }
                    }
                }
            }
        }
        if k == n {
            proof {
                assert forall|x: int, y: int| 0 <= y < n implies !bhit(b[y], p, x) by {
                    assert(bwd_seg(y, x, pl, x0, y0, n as int) <= n);
                }
            }
            break;
        }
        k = k + 1;
        row = if row == 0 {
            n - 1
        } else {
            row - 1
        };
    }
    None
}

} // verus!
