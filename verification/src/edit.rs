//! Editing operations on the line buffer: indenting a visual range,
//! toggling comments over a range, deleting and copying visual
//! selections, pasting clipboard text, and splitting a line on Enter.

use vstd::prelude::*;
use vstd::pervasive::VecAdditionalExecFns;
use crate::motion::buf_view;
use crate::text::comment_insert_spec;
use crate::text::indent_unit;
use crate::text::leading_ws;
use crate::text::lemma_leading_ws_bounds;
use crate::text::match_at;
use crate::text::reduce_indent_spec;
use crate::text::toggle_comment_spec;

verus! {

/// `n` spaces.
pub open spec fn spaces(n: int) -> Seq<char> {
    Seq::new(n as nat, |i: int| ' ')
}

/// Builds a line of `n` spaces.
pub(crate) fn make_spaces(n: usize) -> (r: Vec<char>)
    ensures
        r@ == spaces(n as int),
{
    let mut r: Vec<char> = Vec::new();
    let mut i: usize = 0;
    while i < n
        invariant
            i <= n,
            r@ == spaces(i as int),
        decreases n - i,
    {
        r.push(' ');
        proof {
            assert(r@ =~= spaces(i + 1));
        }
        i = i + 1;
    }
    r
}

/// Both rows of a range ordered: (first, last).
pub open spec fn row_range(cy: int, vy: int) -> (int, int) {
    if cy <= vy {
        (cy, vy)
    } else {
        (vy, cy)
    }
}

/// Increases the indent of every line of the visual row range.
pub fn increase_indent_visual(file_data: &mut Vec<Vec<char>>, cursor_y: usize, visual_y: usize)
    requires
        cursor_y < old(file_data)@.len(),
        visual_y < old(file_data)@.len(),
    ensures
        ({
            let (by, ey) = row_range(cursor_y as int, visual_y as int);
            let b = buf_view(old(file_data)@);
            buf_view(final(file_data)@) == Seq::new(
                b.len(),
                |i: int|
                    if by <= i <= ey {
                        indent_unit() + b[i]
                    } else {
                        b[i]
                    },
            )
        }),
        final(file_data)@.len() == old(file_data)@.len(),
{
    let (begin_y, end_y) = crate::motion::normalize(cursor_y, visual_y);
    proof {
        assert(file_data.len() as int == file_data@.len());
    }
    let mut i: usize = begin_y;
    while i <= end_y
        invariant
            begin_y <= i <= end_y + 1,
            end_y < file_data@.len() <= usize::MAX,
            file_data@.len() == old(file_data)@.len(),
            forall|j: int|
                0 <= j < file_data@.len() ==> file_data@[j]@ == (if begin_y <= j < i {
                    indent_unit() + old(file_data)@[j]@
                } else {
                    old(file_data)@[j]@
                }),
        decreases end_y + 1 - i,
    {
        let line = crate::history::clone_line(&file_data[i]);
        file_data.set(i, crate::text::increase_indent(line));
        i = i + 1;
    }
    proof {
        let (by, ey) = row_range(cursor_y as int, visual_y as int);
        let b = buf_view(old(file_data)@);
        assert(buf_view(final(file_data)@) =~= Seq::new(
            b.len(),
            |i: int|
                if by <= i <= ey {
                    indent_unit() + b[i]
                } else {
                    b[i]
                },
        ));
    }
}

/// Reduces the indent of every line of the visual row range.
pub fn reduce_indent_visual(file_data: &mut Vec<Vec<char>>, cursor_y: usize, visual_y: usize)
    requires
        cursor_y < old(file_data)@.len(),
        visual_y < old(file_data)@.len(),
    ensures
        ({
            let (by, ey) = row_range(cursor_y as int, visual_y as int);
            let b = buf_view(old(file_data)@);
            buf_view(final(file_data)@) == Seq::new(
                b.len(),
                |i: int|
                    if by <= i <= ey {
                        reduce_indent_spec(b[i])
                    } else {
                        b[i]
                    },
            )
        }),
        final(file_data)@.len() == old(file_data)@.len(),
{
    let (begin_y, end_y) = crate::motion::normalize(cursor_y, visual_y);
    proof {
        assert(file_data.len() as int == file_data@.len());
    }
    let mut i: usize = begin_y;
    while i <= end_y
        invariant
            begin_y <= i <= end_y + 1,
            end_y < file_data@.len() <= usize::MAX,
            file_data@.len() == old(file_data)@.len(),
            forall|j: int|
                0 <= j < file_data@.len() ==> file_data@[j]@ == (if begin_y <= j < i {
                    reduce_indent_spec(old(file_data)@[j]@)
                } else {
                    old(file_data)@[j]@
                }),
        decreases end_y + 1 - i,
    {
        let line = crate::history::clone_line(&file_data[i]);
        file_data.set(i, crate::text::reduce_indent(line));
        i = i + 1;
    }
    proof {
        let (by, ey) = row_range(cursor_y as int, visual_y as int);
        let b = buf_view(old(file_data)@);
        assert(buf_view(final(file_data)@) =~= Seq::new(
            b.len(),
            |i: int|
                if by <= i <= ey {
                    reduce_indent_spec(b[i])
                } else {
                    b[i]
                },
        ));
    }
}

/// Smallest indentation over the rows `from..=to` of the buffer.
pub open spec fn min_indent(b: Seq<Seq<char>>, from: int, to: int) -> int
    decreases to - from,
{
    if to <= from {
        leading_ws(b[from])
    } else {
        let rest = min_indent(b, from, to - 1);
        if leading_ws(b[to]) < rest {
            leading_ws(b[to])
        } else {
            rest
        }
    }
}

pub proof fn lemma_min_indent(b: Seq<Seq<char>>, from: int, to: int)
    requires
        0 <= from <= to < b.len(),
    ensures
        forall|i: int| from <= i <= to ==> min_indent(b, from, to) <= leading_ws(b[i]),
        0 <= min_indent(b, from, to),
    decreases to - from,
{
    lemma_leading_ws_bounds(b[to]);
    if to > from {
        lemma_min_indent(b, from, to - 1);
    }
}

/// Every line of the rows `from..=to` is empty or starts, after its
/// indentation, with the comment token.
pub open spec fn all_commented(b: Seq<Seq<char>>, p: Seq<char>, from: int, to: int) -> bool {
    forall|i: int|
        from <= i <= to ==> (match_at(b[i], p, leading_ws(b[i])) || b[i].len() == 0)
}

/// Result of toggling comments over the rows `from..=to`: when every
/// line is already commented (or empty) the token is removed from each;
/// otherwise the token and a space are inserted into each non-empty line
/// at the smallest indentation column of the range.
pub open spec fn toggle_comments_spec(b: Seq<Seq<char>>, p: Seq<char>, from: int, to: int) -> Seq<
    Seq<char>,
> {
    Seq::new(
        b.len(),
        |i: int|
            if from <= i <= to {
                if all_commented(b, p, from, to) {
                    toggle_comment_spec(b[i], p)
                } else {
                    comment_insert_spec(b[i], p, min_indent(b, from, to))
                }
            } else {
                b[i]
            },
    )
}

/// Toggles the line comment across the visual row range: strips the
/// token when every selected line already carries it, else inserts the
/// token at the smallest indentation column of the selection.
pub fn toggle_comments_in_visual(
    file_data: &mut Vec<Vec<char>>,
    comment_string: &Vec<char>,
    cursor_y: usize,
    visual_y: usize,
)
    requires
        cursor_y < old(file_data)@.len(),
        visual_y < old(file_data)@.len(),
    ensures
        ({
            let (by, ey) = row_range(cursor_y as int, visual_y as int);
            buf_view(final(file_data)@) == toggle_comments_spec(
                buf_view(old(file_data)@),
                comment_string@,
                by,
                ey,
            )
        }),
        final(file_data)@.len() == old(file_data)@.len(),
{
    let ghost b = buf_view(file_data@);
    let (begin_y, end_y) = crate::motion::normalize(cursor_y, visual_y);
    proof {
        assert(file_data.len() as int == file_data@.len());
        lemma_min_indent(b, begin_y as int, end_y as int);
    }
    let mut lowest_indent: usize = count_leading_spaces_at(file_data, begin_y);
    let mut commented = is_comment_line(file_data, comment_string, begin_y);
    proof {
        assert(b[begin_y as int] == file_data@[begin_y as int]@);
        if commented {
            assert forall|i2: int| begin_y <= i2 <= begin_y implies (match_at(
                b[i2],
                comment_string@,
                leading_ws(b[i2]),
            ) || b[i2].len() == 0) by {
                assert(i2 == begin_y);
            }
        } else {
            assert(!(match_at(
                b[begin_y as int],
                comment_string@,
                leading_ws(b[begin_y as int]),
            ) || b[begin_y as int].len() == 0));
        }
        assert(commented == all_commented(b, comment_string@, begin_y as int, begin_y as int));
    }
    let mut i: usize = begin_y + 1;
    while i <= end_y
        invariant
            begin_y < i <= end_y + 1,
            end_y < file_data@.len() <= usize::MAX,
            b == buf_view(file_data@),
            lowest_indent as int == min_indent(b, begin_y as int, i - 1),
            commented == all_commented(b, comment_string@, begin_y as int, i - 1),
        decreases end_y + 1 - i,
    {
        let ind = count_leading_spaces_at(file_data, i);
        if ind < lowest_indent {
            lowest_indent = ind;
        }
        let c = is_comment_line(file_data, comment_string, i);
        commented = commented && c;
        proof {
            assert(all_commented(b, comment_string@, begin_y as int, i as int) == (all_commented(
                b,
                comment_string@,
                begin_y as int,
                i - 1,
            ) && (match_at(b[i as int], comment_string@, leading_ws(b[i as int]))
                || b[i as int].len() == 0)));
        }
        i = i + 1;
    }
    let mut i: usize = begin_y;
    while i <= end_y
        invariant
            begin_y <= i <= end_y + 1,
            end_y < file_data@.len() <= usize::MAX,
            file_data@.len() == b.len(),
            lowest_indent as int == min_indent(b, begin_y as int, end_y as int),
            commented == all_commented(b, comment_string@, begin_y as int, end_y as int),
            forall|i2: int| from_to_min(b, begin_y as int, end_y as int, lowest_indent as int, i2),
            forall|j: int|
                0 <= j < b.len() ==> file_data@[j]@ == (if begin_y <= j < i {
                    toggle_comments_spec(b, comment_string@, begin_y as int, end_y as int)[j]
                } else {
                    b[j]
                }),
        decreases end_y + 1 - i,
    {
        let line = crate::history::clone_line(&file_data[i]);
        if commented {
            file_data.set(i, crate::text::toggle_comment(line, comment_string));
        } else {
            proof {
                lemma_min_indent(b, begin_y as int, end_y as int);
                lemma_leading_ws_bounds(b[i as int]);
            }
            file_data.set(i, crate::text::comment_at_index(line, comment_string, lowest_indent));
        }
        i = i + 1;
    }
    proof {
        assert(buf_view(final(file_data)@) =~= toggle_comments_spec(
            b,
            comment_string@,
            begin_y as int,
            end_y as int,
        ));
    }
}

/// Helper predicate carrying the minimum-indent bound into loops.
pub open spec fn from_to_min(b: Seq<Seq<char>>, from: int, to: int, m: int, i: int) -> bool {
    from <= i <= to ==> m <= leading_ws(b[i])
}

/// Leading white-space count of one row.
fn count_leading_spaces_at(file_data: &Vec<Vec<char>>, i: usize) -> (r: usize)
    requires
        i < file_data@.len(),
    ensures
        r as int == leading_ws(file_data@[i as int]@),
{
    crate::text::count_leading_spaces(&file_data[i])
}

/// Whether one row is empty or starts with the token after its indent.
fn is_comment_line(file_data: &Vec<Vec<char>>, comment_string: &Vec<char>, i: usize) -> (r: bool)
    requires
        i < file_data@.len(),
    ensures
        r == (match_at(file_data@[i as int]@, comment_string@, leading_ws(file_data@[i as int]@))
            || file_data@[i as int]@.len() == 0),
{
    let line = &file_data[i];
    line.len() == 0 || crate::text::starts_with_after_trim(line, comment_string)
}

/// Replaces the visual row range by one empty line.
pub fn delete_in_visual_and_insert(file_data: &mut Vec<Vec<char>>, cursor_y: usize, visual_y: usize)
    requires
        cursor_y < old(file_data)@.len(),
        visual_y < old(file_data)@.len(),
    ensures
        ({
            let (by, ey) = row_range(cursor_y as int, visual_y as int);
            let b = buf_view(old(file_data)@);
            buf_view(final(file_data)@) == b.take(by) + seq![Seq::<char>::empty()] + b.skip(ey + 1)
        }),
        final(file_data)@.len() >= 1,
{
    let ghost b = buf_view(file_data@);
    let (begin_y, end_y) = crate::motion::normalize(cursor_y, visual_y);
    proof {
        assert(file_data.len() as int == file_data@.len());
    }
    let mut removed: usize = 0;
    let total = end_y - begin_y + 1;
    while removed < total
        invariant
            removed <= total,
            total == end_y - begin_y + 1,
            begin_y <= end_y < b.len() <= usize::MAX,
            buf_view(file_data@) =~= b.take(begin_y as int) + b.skip(begin_y + removed),
            file_data@.len() == b.len() - removed,
        decreases total - removed,
    {
        let ghost pre = file_data@;
        file_data.remove(begin_y);
        proof {
            let lhs = buf_view(file_data@);
            let rhs = b.take(begin_y as int) + b.skip(begin_y + removed + 1);
            assert forall|j: int| 0 <= j < lhs.len() implies lhs[j] == rhs[j] by {
                if j < begin_y {
                    assert(file_data@[j] == pre[j]);
                    assert(buf_view(pre)[j] == b[j]);
                } else {
                    assert(file_data@[j] == pre[j + 1]);
                    assert(buf_view(pre)[j + 1] == b[begin_y + removed + (j + 1 - begin_y)]);
                }
            }
            assert(lhs =~= rhs);
        }
        removed = removed + 1;
    }
    let ghost pre2 = file_data@;
    file_data.insert(begin_y, Vec::new());
    proof {
        let lhs = buf_view(final(file_data)@);
        let rhs = b.take(begin_y as int) + seq![Seq::<char>::empty()] + b.skip(end_y + 1);
        assert forall|j: int| 0 <= j < lhs.len() implies lhs[j] == rhs[j] by {
            if j < begin_y {
                assert(file_data@[j] == pre2[j]);
                assert(buf_view(pre2)[j] == b[j]);
            } else if j == begin_y {
                assert(file_data@[j]@ =~= Seq::<char>::empty());
            } else {
                assert(file_data@[j] == pre2[j - 1]);
                assert(buf_view(pre2)[j - 1] == b[end_y + 1 + (j - 1 - begin_y)]);
            }
        }
        assert(lhs =~= rhs);
    }
}


/// Lines joined with a newline between each pair.
pub open spec fn join_lines(b: Seq<Seq<char>>) -> Seq<char>
    decreases b.len(),
{
    if b.len() == 0 {
        Seq::empty()
    } else if b.len() == 1 {
        b[0]
    } else {
        b[0] + seq!['\n'] + join_lines(b.drop_first())
    }
}

pub proof fn lemma_join_lines_push(b: Seq<Seq<char>>, r: Seq<char>)
    ensures
        join_lines(b.push(r)) == if b.len() == 0 {
            r
        } else {
            join_lines(b) + seq!['\n'] + r
        },
    decreases b.len(),
{
    if b.len() == 0 {
        assert(b.push(r).len() == 1);
        assert(b.push(r)[0] == r);
    } else {
        lemma_join_lines_push(b.drop_first(), r);
        assert(b.push(r).drop_first() =~= b.drop_first().push(r));
        assert(b.push(r)[0] == b[0]);
        if b.len() == 1 {
            assert(join_lines(b) == b[0]);
        } else {
            assert((b[0] + seq!['\n'] + join_lines(b.drop_first())) + seq!['\n'] + r =~= b[0]
                + seq!['\n'] + (join_lines(b.drop_first()) + seq!['\n'] + r));
        }
    }
}

/// The column reached by `e`, clamped to a line of length `len`.
pub open spec fn clip_col(e: int, len: int) -> int {
    if e < len {
        e
    } else {
        len
    }
}

/// The clipboard text produced by copying a visual selection: line-wise,
/// the selected rows joined by newlines behind a leading newline mark;
/// character-wise on one row, the inclusive column range; character-wise
/// over several rows, the tail of the first row, the interior rows and
/// the head of the last row, joined by newlines.
pub open spec fn copy_visual_spec(
    b: Seq<Seq<char>>,
    cx: int,
    cy: int,
    vx: int,
    vy: int,
    linewise: bool,
) -> Seq<char> {
    let (by, ey) = row_range(cy, vy);
    let (bx, ex) = row_range(cx, vx);
    if linewise {
        seq!['\n'] + join_lines(b.subrange(by, ey + 1))
    } else if by == ey {
        b[by].subrange(bx, clip_col(ex + 1, b[by].len() as int))
    } else {
        join_lines(
            seq![b[by].skip(bx)] + b.subrange(by + 1, ey) + seq![
                b[ey].take(clip_col(ex + 1, b[ey].len() as int)),
            ],
        )
    }
}

/// Copies the visual selection, handing back the clipboard text and the
/// normalized begin position (the cursor after the copy).
#[verifier::rlimit(60)]
pub fn copy_in_visual(
    file_data: &Vec<Vec<char>>,
    cursor_x: usize,
    cursor_y: usize,
    visual_x: usize,
    visual_y: usize,
    linewise: bool,
) -> (r: (Vec<char>, usize, usize))
    requires
        cursor_y < file_data@.len(),
        visual_y < file_data@.len(),
        cursor_x == 0 || cursor_x < file_data@[cursor_y as int]@.len(),
        visual_x == 0 || visual_x < file_data@[visual_y as int]@.len(),
    ensures
        r.0@ == copy_visual_spec(
            buf_view(file_data@),
            cursor_x as int,
            cursor_y as int,
            visual_x as int,
            visual_y as int,
            linewise,
        ),
        (r.1 as int, r.2 as int) == ({
            let (bx, ex) = row_range(cursor_x as int, visual_x as int);
            let (by, ey) = row_range(cursor_y as int, visual_y as int);
            (bx, by)
        }),
{
    let ghost b = buf_view(file_data@);
    proof {
        assert(file_data.len() as int == file_data@.len());
    }
    let (begin_y, end_y) = crate::motion::normalize(cursor_y, visual_y);
    let (begin_x, end_x) = crate::motion::normalize(cursor_x, visual_x);
    let mut clip: Vec<char> = Vec::new();
    if linewise {
        clip.push('\n');
        let first = &file_data[begin_y];
        crate::text::push_range(&mut clip, first, 0, first.len());
        proof {
            assert(b.subrange(begin_y as int, begin_y + 1).len() == 1);
            assert(b.subrange(begin_y as int, begin_y + 1)[0] == b[begin_y as int]);
            assert(first@.subrange(0, first@.len() as int) =~= first@);
            assert(clip@ =~= seq!['\n'] + join_lines(b.subrange(begin_y as int, begin_y + 1)));
        }
        let mut i: usize = begin_y + 1;
        while i <= end_y
            invariant
                begin_y < i <= end_y + 1,
                end_y < file_data@.len() <= usize::MAX,
                b == buf_view(file_data@),
                clip@ == seq!['\n'] + join_lines(b.subrange(begin_y as int, i as int)),
            decreases end_y + 1 - i,
        {
            clip.push('\n');
            let row = &file_data[i];
            crate::text::push_range(&mut clip, row, 0, row.len());
            proof {
                lemma_join_lines_push(b.subrange(begin_y as int, i as int), b[i as int]);
                assert(b.subrange(begin_y as int, i as int).push(b[i as int]) =~= b.subrange(
                    begin_y as int,
                    i + 1,
                ));
                assert(row@.subrange(0, row@.len() as int) =~= row@);
                assert(b.subrange(begin_y as int, i as int).len() > 0);
                assert(clip@ =~= seq!['\n'] + join_lines(b.subrange(begin_y as int, i + 1)));
            }
            i = i + 1;
        }
        (clip, begin_x, begin_y)
    } else if begin_y == end_y {
        let row = &file_data[begin_y];
        let stop = if end_x < row.len() {
            end_x + 1
        } else {
            row.len()
        };
        crate::text::push_range(&mut clip, row, begin_x, stop);
        proof {
            assert(clip@ =~= b[begin_y as int].subrange(
                begin_x as int,
                clip_col(end_x + 1, b[begin_y as int].len() as int),
            ));
        }
        (clip, begin_x, begin_y)
    } else {
        let first = &file_data[begin_y];
        crate::text::push_range(&mut clip, first, begin_x, first.len());
        proof {
            let rows0 = seq![b[begin_y as int].skip(begin_x as int)];
            assert(rows0.len() == 1);
            assert(clip@ =~= join_lines(rows0));
        }
        let mut i: usize = begin_y + 1;
        while i < end_y
            invariant
                begin_y < i <= end_y,
                end_y < file_data@.len() <= usize::MAX,
                begin_x <= file_data@[begin_y as int]@.len(),
                b == buf_view(file_data@),
                clip@ == join_lines(
                    seq![b[begin_y as int].skip(begin_x as int)] + b.subrange(
                        begin_y + 1,
                        i as int,
                    ),
                ),
            decreases end_y - i,
        {
            clip.push('\n');
            let row = &file_data[i];
            crate::text::push_range(&mut clip, row, 0, row.len());
            proof {
                let rows = seq![b[begin_y as int].skip(begin_x as int)] + b.subrange(
                    begin_y + 1,
                    i as int,
                );
                lemma_join_lines_push(rows, b[i as int]);
                assert(rows.push(b[i as int]) =~= seq![b[begin_y as int].skip(begin_x as int)]
                    + b.subrange(begin_y + 1, i + 1));
                assert(row@.subrange(0, row@.len() as int) =~= row@);
                assert(rows.len() > 0);
                assert(clip@ =~= join_lines(
                    seq![b[begin_y as int].skip(begin_x as int)] + b.subrange(begin_y + 1, i + 1),
                ));
            }
            i = i + 1;
        }
        clip.push('\n');
        let last = &file_data[end_y];
        let stop = if end_x < last.len() {
            end_x + 1
        } else {
            last.len()
        };
        crate::text::push_range(&mut clip, last, 0, stop);
        proof {
            let rows = seq![b[begin_y as int].skip(begin_x as int)] + b.subrange(
                begin_y + 1,
                end_y as int,
            );
            let endpart = b[end_y as int].take(clip_col(end_x + 1, b[end_y as int].len() as int));
            lemma_join_lines_push(rows, endpart);
            assert(rows.push(endpart) =~= seq![b[begin_y as int].skip(begin_x as int)]
                + b.subrange(begin_y + 1, end_y as int) + seq![endpart]);
            assert(rows.len() > 0);
            assert(clip@ =~= join_lines(
                seq![b[begin_y as int].skip(begin_x as int)] + b.subrange(
                    begin_y + 1,
                    end_y as int,
                ) + seq![endpart],
            ));
        }
        (clip, begin_x, begin_y)
    }
}

/// The buffer left by deleting a visual selection: line-wise, the rows
/// vanish (one empty line is kept when nothing remains); character-wise
/// on one row, the inclusive column range is cut out; character-wise
/// over several rows, the tail of the first row and the head of the last
/// row are cut and the remainders joined into one row.
pub open spec fn delete_visual_spec(
    b: Seq<Seq<char>>,
    cx: int,
    cy: int,
    vx: int,
    vy: int,
    linewise: bool,
) -> Seq<Seq<char>> {
    let (by, ey) = row_range(cy, vy);
    let (bx, ex) = row_range(cx, vx);
    if linewise {
        let rest = b.take(by) + b.skip(ey + 1);
        if rest.len() == 0 {
            seq![Seq::<char>::empty()]
        } else {
            rest
        }
    } else if by == ey {
        let l = b[by];
        b.update(by, l.take(bx) + l.skip(clip_col(ex + 1, l.len() as int)))
    } else {
        let merged = b[by].take(bx) + b[ey].skip(clip_col(ex + 1, b[ey].len() as int));
        b.take(by) + seq![merged] + b.skip(ey + 1)
    }
}

/// Deletes the visual selection, handing back the normalized begin
/// position. The buffer is never left empty.
#[verifier::rlimit(60)]
pub fn delete_in_visual(
    file_data: &mut Vec<Vec<char>>,
    cursor_x: usize,
    cursor_y: usize,
    visual_x: usize,
    visual_y: usize,
    linewise: bool,
) -> (r: (usize, usize))
    requires
        cursor_y < old(file_data)@.len(),
        visual_y < old(file_data)@.len(),
        cursor_x == 0 || cursor_x < old(file_data)@[cursor_y as int]@.len(),
        visual_x == 0 || visual_x < old(file_data)@[visual_y as int]@.len(),
    ensures
        buf_view(final(file_data)@) == delete_visual_spec(
            buf_view(old(file_data)@),
            cursor_x as int,
            cursor_y as int,
            visual_x as int,
            visual_y as int,
            linewise,
        ),
        final(file_data)@.len() >= 1,
        (r.0 as int, r.1 as int) == ({
            let (bx, ex) = row_range(cursor_x as int, visual_x as int);
            let (by, ey) = row_range(cursor_y as int, visual_y as int);
            (bx, by)
        }),
{
    let ghost b = buf_view(file_data@);
    proof {
        assert(file_data.len() as int == file_data@.len());
    }
    let (begin_y, end_y) = crate::motion::normalize(cursor_y, visual_y);
    let (begin_x, end_x) = crate::motion::normalize(cursor_x, visual_x);
    if linewise {
        let mut removed: usize = 0;
        let total = end_y - begin_y + 1;
        while removed < total
            invariant
                removed <= total,
                total == end_y - begin_y + 1,
                begin_y <= end_y < b.len() <= usize::MAX,
                buf_view(file_data@) == b.take(begin_y as int) + b.skip(begin_y + removed),
                file_data@.len() == b.len() - removed,
            decreases total - removed,
        {
            let ghost pre = file_data@;
            file_data.remove(begin_y);
            proof {
                let lhs = buf_view(file_data@);
                let rhs = b.take(begin_y as int) + b.skip(begin_y + removed + 1);
                assert forall|j: int| 0 <= j < lhs.len() implies lhs[j] == rhs[j] by {
                    if j < begin_y {
                        assert(file_data@[j] == pre[j]);
                        assert(buf_view(pre)[j] == b[j]);
                    } else {
                        assert(file_data@[j] == pre[j + 1]);
                        assert(buf_view(pre)[j + 1] == b[begin_y + removed + (j + 1 - begin_y)]);
                    }
                }
                assert(lhs =~= rhs);
            }
            removed = removed + 1;
        }
        if file_data.len() == 0 {
            file_data.push(Vec::new());
            proof {
                assert(buf_view(final(file_data)@) =~= seq![Seq::<char>::empty()]);
            }
        } else {
            proof {
                assert(buf_view(final(file_data)@) =~= b.take(begin_y as int) + b.skip(end_y + 1));
            }
        }
        (begin_x, begin_y)
    } else if begin_y == end_y {
        let row = &file_data[begin_y];
        let stop = if end_x < row.len() {
            end_x + 1
        } else {
            row.len()
        };
        let mut newrow: Vec<char> = Vec::new();
        crate::text::push_range(&mut newrow, row, 0, begin_x);
        crate::text::push_range(&mut newrow, row, stop, row.len());
        file_data.set(begin_y, newrow);
        proof {
            let l = b[begin_y as int];
            assert(final(file_data)@[begin_y as int]@ =~= l.take(begin_x as int) + l.skip(
                clip_col(end_x + 1, l.len() as int),
            ));
            assert(buf_view(final(file_data)@) =~= b.update(
                begin_y as int,
                l.take(begin_x as int) + l.skip(clip_col(end_x + 1, l.len() as int)),
            ));
        }
        (begin_x, begin_y)
    } else {
        let last = &file_data[end_y];
        let stop = if end_x < last.len() {
            end_x + 1
        } else {
            last.len()
        };
        let mut merged: Vec<char> = Vec::new();
        crate::text::push_range(&mut merged, &file_data[begin_y], 0, begin_x);
        crate::text::push_range(&mut merged, &file_data[end_y], stop, file_data[end_y].len());
        file_data.set(begin_y, merged);
        proof {
            let m = b[begin_y as int].take(begin_x as int) + b[end_y as int].skip(
                clip_col(end_x + 1, b[end_y as int].len() as int),
            );
            assert(file_data@[begin_y as int]@ =~= m);
            assert(buf_view(file_data@) =~= b.update(begin_y as int, m));
        }
        let ghost b2 = buf_view(file_data@);
        let mut removed: usize = 0;
        let total = end_y - begin_y;
        while removed < total
            invariant
                removed <= total,
                total == end_y - begin_y,
                begin_y < end_y < b2.len() <= usize::MAX,
                buf_view(file_data@) == b2.take(begin_y + 1) + b2.skip(begin_y + 1 + removed),
                file_data@.len() == b2.len() - removed,
            decreases total - removed,
        {
            let ghost pre = file_data@;
            file_data.remove(begin_y + 1);
            proof {
                let lhs = buf_view(file_data@);
                let rhs = b2.take(begin_y + 1) + b2.skip(begin_y + 1 + removed + 1);
                assert forall|j: int| 0 <= j < lhs.len() implies lhs[j] == rhs[j] by {
                    if j < begin_y + 1 {
                        assert(file_data@[j] == pre[j]);
                        assert(buf_view(pre)[j] == b2[j]);
                    } else {
                        assert(file_data@[j] == pre[j + 1]);
                        assert(buf_view(pre)[j + 1] == b2[begin_y + 1 + removed + (j + 1 - begin_y
                            - 1)]);
                    }
                }
                assert(lhs =~= rhs);
            }
            removed = removed + 1;
        }
        proof {
            let m = b[begin_y as int].take(begin_x as int) + b[end_y as int].skip(
                clip_col(end_x + 1, b[end_y as int].len() as int),
            );
            assert(buf_view(final(file_data)@) =~= b.take(begin_y as int) + seq![m] + b.skip(
                end_y + 1,
            ));
        }
        (begin_x, begin_y)
    }
}


/// Clip text split at newlines; always at least one piece.
pub open spec fn split_nl(s: Seq<char>) -> Seq<Seq<char>>
    decreases s.len(),
{
    let f = crate::text::first_match_from(s, seq!['\n'], 0);
    if f is Some && 0 <= f->Some_0 < s.len() {
        seq![s.take(f->Some_0)] + split_nl(s.skip(f->Some_0 + 1))
    } else {
        seq![s]
    }
}

pub proof fn lemma_split_nl_len(s: Seq<char>)
    ensures
        split_nl(s).len() >= 1,
    decreases s.len(),
{
    let f = crate::text::first_match_from(s, seq!['\n'], 0);
    if f is Some && 0 <= f->Some_0 < s.len() {
        lemma_split_nl_len(s.skip(f->Some_0 + 1));
    }
}

/// Splits the tail `clip[from..]` of the clip text at newlines.
fn split_tail(clip: &Vec<char>, from: usize) -> (r: Vec<Vec<char>>)
    requires
        from <= clip@.len(),
    ensures
        buf_view(r@) == split_nl(clip@.skip(from as int)),
        r@.len() >= 1,
    decreases clip@.len() - from,
{
    let ghost t = clip@.skip(from as int);
    let mut i: usize = from;
    loop
        invariant
            from <= i <= clip@.len(),
            forall|j: int| from <= j < i ==> clip@[j] != '\n',
        ensures
            from <= i <= clip@.len(),
            forall|j: int| from <= j < i ==> clip@[j] != '\n',
            i < clip@.len() ==> clip@[i as int] == '\n',
        decreases clip@.len() - i,
    {
        if i == clip.len() {
            break;
        }
        if clip[i] == '\n' {
            break;
        }
        i = i + 1;
    }
    proof {
        crate::text::lemma_first_match_from(t, seq!['\n'], 0);
    }
    if i == clip.len() {
        proof {
            let f = crate::text::first_match_from(t, seq!['\n'], 0);
            if f is Some && 0 <= f->Some_0 < t.len() {
                let k = f->Some_0;
                assert(crate::text::match_at(t, seq!['\n'], k));
                assert(t.subrange(k, k + 1) == seq!['\n']);
                assert(t.subrange(k, k + 1)[0] == t[k]);
                assert(clip@[from + k] == '\n');
            }
        }
        let head = crate::text::tail_from(clip, from);
        let mut r: Vec<Vec<char>> = Vec::new();
        r.push(head);
        proof {
            assert(buf_view(r@) =~= seq![t]);
        }
        r
    } else {
        let ghost k = i - from;
        proof {
            let f = crate::text::first_match_from(t, seq!['\n'], 0);
            assert(t[k] == clip@[i as int]);
            assert(t.subrange(k, k + 1) =~= seq!['\n']);
            assert(crate::text::match_at(t, seq!['\n'], k));
            assert(f is Some);
            let m = f->Some_0;
            if m < k {
                assert(t.subrange(m, m + 1) == seq!['\n']);
                assert(t.subrange(m, m + 1)[0] == t[m]);
                assert(clip@[from + m] == '\n');
            }
            if k < m {
                assert(!crate::text::match_at(t, seq!['\n'], k));
            }
            assert(m == k);
        }
        let mut head: Vec<char> = Vec::new();
        crate::text::push_range(&mut head, clip, from, i);
        let rest = split_tail(clip, i + 1);
        let mut r: Vec<Vec<char>> = Vec::new();
        r.push(head);
        let mut rest = rest;
        r.append(&mut rest);
        proof {
            assert(head@ =~= t.take(k));
            assert(clip@.skip(i + 1) =~= t.skip(k + 1));
            assert(buf_view(r@) =~= seq![t.take(k)] + split_nl(t.skip(k + 1)));
        }
        r
    }
}

/// Splits clip text at newlines.
pub fn split_newlines(clip: &Vec<char>) -> (r: Vec<Vec<char>>)
    ensures
        buf_view(r@) == split_nl(clip@),
        r@.len() >= 1,
{
    let r = split_tail(clip, 0);
    proof {
        assert(clip@.skip(0) =~= clip@);
    }
    r
}

/// Inserts the rows before row `at` of the buffer, keeping their order.
fn insert_rows(file_data: &mut Vec<Vec<char>>, at: usize, rows: Vec<Vec<char>>)
    requires
        at <= old(file_data)@.len(),
    ensures
        buf_view(final(file_data)@) == buf_view(old(file_data)@).take(at as int) + buf_view(rows@)
            + buf_view(old(file_data)@).skip(at as int),
{
    let ghost b0 = buf_view(file_data@);
    let ghost rows0 = buf_view(rows@);
    let mut rows = rows;
    let mut k = rows.len();
    proof {
        assert(rows.len() as int == rows@.len());
        assert(file_data.len() as int == file_data@.len());
    }
    while k > 0
        invariant
            k <= rows0.len(),
            k == rows@.len(),
            at <= b0.len() <= usize::MAX,
            rows0.len() <= usize::MAX,
            file_data@.len() == b0.len() + rows0.len() - k,
            forall|j: int| 0 <= j < k ==> rows@[j]@ == rows0[j],
            buf_view(file_data@) == b0.take(at as int) + rows0.skip(k as int) + b0.skip(at as int),
        decreases k,
    {
        let ghost pre = file_data@;
        match rows.pop() {
            Some(row) => {
                file_data.insert(at, row);
                proof {
                    let lhs = buf_view(file_data@);
                    let rhs = b0.take(at as int) + rows0.skip(k - 1) + b0.skip(at as int);
                    assert(file_data@[at as int]@ == rows0[k - 1]);
                    assert forall|j: int| 0 <= j < lhs.len() implies lhs[j] == rhs[j] by {
                        if j < at {
                            assert(file_data@[j] == pre[j]);
                            assert(buf_view(pre)[j] == b0[j]);
                        } else if j == at {
                            assert(lhs[j] == rows0[k - 1]);
                            assert(rhs[j] == rows0.skip(k - 1)[0]);
                        } else {
                            assert(file_data@[j] == pre[j - 1]);
                            assert(buf_view(pre)[j - 1] == (b0.take(at as int) + rows0.skip(
                                k as int,
                            ) + b0.skip(at as int))[j - 1]);
                        }
                    }
                    assert(lhs =~= rhs);
                }
            },
            None => {
                proof {
                    assert(false);
                }
            },
        }
        k = k - 1;
    }
    proof {
        assert(rows0.skip(0) =~= rows0);
        assert(buf_view(final(file_data)@) =~= b0.take(at as int) + rows0 + b0.skip(at as int));
    }
}

/// The buffer after a paste: clip text opening with a newline is
/// inserted as whole rows above (before) or below (after) the cursor's
/// row; any other text is spliced into the cursor's row at the paste
/// column, its later pieces becoming rows between the split halves.
pub open spec fn paste_spec(
    b: Seq<Seq<char>>,
    cx: int,
    cy: int,
    clip: Seq<char>,
    after: bool,
) -> Seq<Seq<char>> {
    if clip.len() > 0 && clip[0] == '\n' {
        let ls = split_nl(clip.skip(1));
        let at = if after {
            cy + 1
        } else {
            cy
        };
        b.take(at) + ls + b.skip(at)
    } else {
        let ls = split_nl(clip);
        let row = b[cy];
        let cut = if after {
            clip_col(cx + 1, row.len() as int)
        } else {
            cx
        };
        if ls.len() == 1 {
            b.update(cy, row.take(cut) + ls[0] + row.skip(cut))
        } else {
            b.take(cy) + seq![row.take(cut) + ls[0]] + ls.subrange(1, ls.len() - 1) + seq![
                ls.last() + row.skip(cut),
            ] + b.skip(cy + 1)
        }
    }
}

/// Splices the clip text into the buffer at `cut` on the cursor's row,
/// the character-wise part of a paste.
fn paste_charwise(file_data: &mut Vec<Vec<char>>, cut: usize, cursor_y: usize, clip: &Vec<char>)
    requires
        cursor_y < old(file_data)@.len(),
        cut <= old(file_data)@[cursor_y as int]@.len(),
    ensures
        ({
            let b = buf_view(old(file_data)@);
            let ls = split_nl(clip@);
            let row = b[cursor_y as int];
            buf_view(final(file_data)@) == if ls.len() == 1 {
                b.update(cursor_y as int, row.take(cut as int) + ls[0] + row.skip(cut as int))
            } else {
                b.take(cursor_y as int) + seq![row.take(cut as int) + ls[0]] + ls.subrange(
                    1,
                    ls.len() - 1,
                ) + seq![ls.last() + row.skip(cut as int)] + b.skip(cursor_y + 1)
            }
        }),
{
    let ghost b = buf_view(file_data@);
    let ghost row0 = b[cursor_y as int];
    proof {
        assert(file_data.len() as int == file_data@.len());
    }
    let mut ls = split_newlines(clip);
    let ghost ls0 = buf_view(ls@);
    if ls.len() == 1 {
        let piece = match ls.pop() {
            Some(p) => p,
            None => Vec::new(),
        };
        proof {
            assert(piece@ == ls0[0]);
        }
        let row = &file_data[cursor_y];
        let mut newrow: Vec<char> = Vec::new();
        crate::text::push_range(&mut newrow, row, 0, cut);
        crate::text::push_range(&mut newrow, &piece, 0, piece.len());
        crate::text::push_range(&mut newrow, row, cut, row.len());
        file_data.set(cursor_y, newrow);
        proof {
            assert(piece@.subrange(0, piece@.len() as int) =~= piece@);
            assert(final(file_data)@[cursor_y as int]@ =~= row0.take(cut as int) + ls0[0]
                + row0.skip(cut as int));
            assert(buf_view(final(file_data)@) =~= b.update(
                cursor_y as int,
                row0.take(cut as int) + ls0[0] + row0.skip(cut as int),
            ));
        }
    } else {
        let lastpiece = match ls.pop() {
            Some(p) => p,
            None => Vec::new(),
        };
        let row = &file_data[cursor_y];
        let mut lastrow = lastpiece;
        crate::text::push_range(&mut lastrow, row, cut, row.len());
        let first = &ls[0];
        let mut head: Vec<char> = Vec::new();
        crate::text::push_range(&mut head, row, 0, cut);
        crate::text::push_range(&mut head, first, 0, first.len());
        let ghost lsrest = ls@;
        file_data.set(cursor_y, head);
        let mut mids: Vec<Vec<char>> = Vec::new();
        let mut i: usize = 1;
        while i < ls.len()
            invariant
                1 <= i <= ls@.len(),
                ls@ == lsrest,
                mids@.len() == i - 1,
                forall|j: int| 0 <= j < i - 1 ==> mids@[j]@ == lsrest[j + 1]@,
            decreases ls@.len() - i,
        {
            mids.push(crate::history::clone_line(&ls[i]));
            i = i + 1;
        }
        let mut rows = mids;
        rows.push(lastrow);
        insert_rows(file_data, cursor_y + 1, rows);
        proof {
            let lhs = buf_view(final(file_data)@);
            let rhs = b.take(cursor_y as int) + seq![row0.take(cut as int) + ls0[0]]
                + ls0.subrange(1, ls0.len() - 1) + seq![ls0.last() + row0.skip(cut as int)]
                + b.skip(cursor_y + 1);
            assert(head@ =~= row0.take(cut as int) + ls0[0]);
            assert(lastrow@ =~= ls0.last() + row0.skip(cut as int));
            assert forall|j: int| 0 <= j < lhs.len() implies lhs[j] == rhs[j] by {
            }
            assert(lhs =~= rhs);
        }
    }
}

/// Pastes the clipboard text before the cursor: whole-line text goes
/// above the cursor's row; other text is spliced in at the cursor
/// column.
pub fn paste_before(file_data: &mut Vec<Vec<char>>, cursor_x: usize, cursor_y: usize, clip: &Vec<
    char,
>)
    requires
        cursor_y < old(file_data)@.len(),
        cursor_x <= old(file_data)@[cursor_y as int]@.len(),
    ensures
        buf_view(final(file_data)@) == paste_spec(
            buf_view(old(file_data)@),
            cursor_x as int,
            cursor_y as int,
            clip@,
            false,
        ),
{
    if clip.len() > 0 && clip[0] == '\n' {
        let rows = split_tail(clip, 1);
        insert_rows(file_data, cursor_y, rows);
        proof {
            let b = buf_view(old(file_data)@);
            assert(buf_view(final(file_data)@) =~= b.take(cursor_y as int) + split_nl(
                clip@.skip(1),
            ) + b.skip(cursor_y as int));
        }
    } else {
        paste_charwise(file_data, cursor_x, cursor_y, clip);
    }
}

/// Pastes the clipboard text after the cursor: whole-line text goes
/// below the cursor's row; other text is spliced in directly after the
/// cursor column.
pub fn paste_after(file_data: &mut Vec<Vec<char>>, cursor_x: usize, cursor_y: usize, clip: &Vec<
    char,
>)
    requires
        cursor_y < old(file_data)@.len(),
        cursor_x <= old(file_data)@[cursor_y as int]@.len(),
    ensures
        buf_view(final(file_data)@) == paste_spec(
            buf_view(old(file_data)@),
            cursor_x as int,
            cursor_y as int,
            clip@,
            true,
        ),
{
    if clip.len() > 0 && clip[0] == '\n' {
        proof {
            assert(file_data.len() as int == file_data@.len());
        }
        let rows = split_tail(clip, 1);
        insert_rows(file_data, cursor_y + 1, rows);
        proof {
            let b = buf_view(old(file_data)@);
            assert(buf_view(final(file_data)@) =~= b.take(cursor_y + 1) + split_nl(clip@.skip(1))
                + b.skip(cursor_y + 1));
        }
    } else {
        let row_len = file_data[cursor_y].len();
        let cut = if cursor_x < row_len {
            cursor_x + 1
        } else {
            row_len
        };
        paste_charwise(file_data, cut, cursor_y, clip);
    }
}


/// No character `c` occurs in `b[cy]` at or after column `cx`, nor in
/// any later row.
pub open spec fn closer_absent(b: Seq<Seq<char>>, cy: int, cx: int, c: char) -> bool {
    &&& forall|k: int| cx <= k < b[cy].len() ==> b[cy][k] != c
    &&& forall|i: int, k: int| cy < i < b.len() && 0 <= k < b[i].len() ==> b[i][k] != c
}

/// Decides whether `c` is absent from the text after the split point.
fn closer_absent_exec(file_data: &Vec<Vec<char>>, cursor_y: usize, cursor_x: usize, c: char) -> (r:
    bool)
    requires
        cursor_y < file_data@.len(),
        cursor_x <= file_data@[cursor_y as int]@.len(),
    ensures
        r == closer_absent(buf_view(file_data@), cursor_y as int, cursor_x as int, c),
{
    let ghost b = buf_view(file_data@);
    proof {
        assert(file_data.len() as int == file_data@.len());
    }
    let row = &file_data[cursor_y];
    let mut k: usize = cursor_x;
    while k < row.len()
        invariant
            cursor_x <= k <= row@.len(),
            b == buf_view(file_data@),
            cursor_y < b.len(),
            row@ == b[cursor_y as int],
            forall|j: int| cursor_x <= j < k ==> row@[j] != c,
        decreases row@.len() - k,
    {
        if row[k] == c {
            return false;
        }
        k = k + 1;
    }
    let mut i: usize = cursor_y + 1;
    while i < file_data.len()
        invariant
            cursor_y < i <= file_data@.len(),
            b == buf_view(file_data@),
            forall|j: int| cursor_x <= j < b[cursor_y as int].len() ==> b[cursor_y as int][j] != c,
            forall|i2: int, j: int|
                cursor_y < i2 < i && 0 <= j < b[i2].len() ==> b[i2][j] != c,
        decreases file_data@.len() - i,
    {
        let row = &file_data[i];
        let mut k: usize = 0;
        while k < row.len()
            invariant
                k <= row@.len(),
                b == buf_view(file_data@),
                row@ == b[i as int],
                cursor_y < i,
                i < b.len(),
                forall|j: int| 0 <= j < k ==> row@[j] != c,
            decreases row@.len() - k,
        {
            if row[k] == c {
                proof {
                    assert(b[i as int][k as int] == c);
                }
                return false;
            }
            k = k + 1;
        }
        i = i + 1;
    }
    true
}

/// The buffer and cursor after splitting a line on Enter: the head of
/// the line stays; the tail moves to a new row behind the line's
/// indentation (one indent unit deeper when the split point follows an
/// opening parenthesis or brace). An empty tail reuses a directly
/// following empty row instead of adding one. When the split point
/// follows an opening parenthesis or brace and no matching closing
/// character appears anywhere after the split point, a closing line at
/// the original indentation is added below the new row.
pub open spec fn split_line_spec(b: Seq<Seq<char>>, cx: int, cy: int) -> (Seq<Seq<char>>, int, int) {
    let row = b[cy];
    let ind = leading_ws(row);
    let head = row.take(cx);
    let tail = row.skip(cx);
    let open_par = cx > 0 && row[cx - 1] == '(';
    let open_brace = cx > 0 && row[cx - 1] == '{';
    let ind2 = if open_par || open_brace {
        ind + 4
    } else {
        ind
    };
    let tail_row = spaces(ind2) + tail;
    let reuse = tail.len() == 0 && cy + 1 < b.len() && b[cy + 1].len() == 0;
    let closer = if open_par && closer_absent(b, cy, cx, ')') {
        seq![spaces(ind) + seq![')']]
    } else if open_brace && closer_absent(b, cy, cx, '}') {
        seq![spaces(ind) + seq!['}']]
    } else {
        Seq::empty()
    };
    let b1 = if reuse {
        b.update(cy, head).update(cy + 1, tail_row)
    } else {
        b.take(cy) + seq![head, tail_row] + b.skip(cy + 1)
    };
    let b2 = b1.take(cy + 2) + closer + b1.skip(cy + 2);
    (b2, ind2, cy + 1)
}

/// Splits the cursor's line on Enter, with automatic indentation and
/// bracket closing; hands back the new cursor position.
#[verifier::rlimit(60)]
pub fn split_line(file_data: &mut Vec<Vec<char>>, cursor_x: usize, cursor_y: usize) -> (r: (
    usize,
    usize,
))
    requires
        cursor_y < old(file_data)@.len(),
        cursor_x <= old(file_data)@[cursor_y as int]@.len(),
    ensures
        ({
            let (b2, nx, ny) = split_line_spec(
                buf_view(old(file_data)@),
                cursor_x as int,
                cursor_y as int,
            );
            &&& buf_view(final(file_data)@) == b2
            &&& r.0 as int == nx
            &&& r.1 as int == ny
            &&& nx <= b2[ny].len()
        }),
        final(file_data)@.len() >= old(file_data)@.len(),
        (r.1 as int) < final(file_data)@.len(),
{
    let ghost b = buf_view(file_data@);
    proof {
        assert(file_data.len() as int == file_data@.len());
        crate::text::lemma_leading_ws_bounds(b[cursor_y as int]);
    }
    let ind = crate::text::count_leading_spaces(&file_data[cursor_y]);
    let row = &file_data[cursor_y];
    let open_par = cursor_x > 0 && row[cursor_x - 1] == '(';
    let open_brace = cursor_x > 0 && row[cursor_x - 1] == '{';
    let mut sp = make_spaces(ind);
    if open_par || open_brace {
        sp.push(' ');
        sp.push(' ');
        sp.push(' ');
        sp.push(' ');
        proof {
            assert(sp@ =~= spaces(ind + 4));
        }
    }
    let ind2 = sp.len();
    let mut tail_row = sp;
    crate::text::push_range(&mut tail_row, row, cursor_x, row.len());
    let ghost trv = tail_row@;
    let mut head: Vec<char> = Vec::new();
    crate::text::push_range(&mut head, row, 0, cursor_x);
    let reuse = cursor_x == row.len() && cursor_y + 1 < file_data.len() && file_data[cursor_y
        + 1].len() == 0;
    let mut closer: Vec<Vec<char>> = Vec::new();
    if open_par && closer_absent_exec(file_data, cursor_y, cursor_x, ')') {
        let mut cl = make_spaces(ind);
        cl.push(')');
        closer.push(cl);
    } else if open_brace && closer_absent_exec(file_data, cursor_y, cursor_x, '}') {
        let mut cl = make_spaces(ind);
        cl.push('}');
        closer.push(cl);
    }
    proof {
        let ind_i = leading_ws(b[cursor_y as int]);
        assert(head@ =~= b[cursor_y as int].take(cursor_x as int));
        assert(tail_row@ =~= spaces(ind2 as int) + b[cursor_y as int].skip(cursor_x as int));
        if closer@.len() > 0 {
            assert(closer@[0]@ =~= spaces(ind_i) + (if open_par {
                seq![')']
            } else {
                seq!['}']
            }));
        }
    }
    let ghost closer0 = buf_view(closer@);
    file_data.set(cursor_y, head);
    if reuse {
        file_data.set(cursor_y + 1, tail_row);
    } else {
        file_data.insert(cursor_y + 1, tail_row);
    }
    let ghost b1 = buf_view(file_data@);
    proof {
        let spec1 = {
            let row = b[cursor_y as int];
            let head_s = row.take(cursor_x as int);
            let tail_row_s = spaces(ind2 as int) + row.skip(cursor_x as int);
            if reuse {
                b.update(cursor_y as int, head_s).update(cursor_y + 1, tail_row_s)
            } else {
                b.take(cursor_y as int) + seq![head_s, tail_row_s] + b.skip(cursor_y + 1)
            }
        };
        assert(b1 =~= spec1);
    }
    proof {
        assert(file_data.len() as int == file_data@.len());
    }
    insert_rows(file_data, cursor_y + 2, closer);
    proof {
        let (b2, nx, ny) = split_line_spec(b, cursor_x as int, cursor_y as int);
        assert(buf_view(final(file_data)@) =~= b2);
        assert(b2[cursor_y + 1] == b1[cursor_y + 1]);
        assert(b1[cursor_y + 1] == trv);
        assert(trv.len() >= ind2);
    }
    (ind2, cursor_y + 1)
}

/// Copy/paste round trip: copying a character-wise range on one row and
/// pasting it directly after the normalized begin column reproduces the
/// original buffer content — the pasted copy equals the copied text, and
/// cutting it back out restores the row exactly. Holds for ranges of a
/// row that contains no newline characters.
pub proof fn lemma_copy_paste_roundtrip(b: Seq<Seq<char>>, cx: int, cy: int, vx: int, vy: int)
    requires
        cy == vy,
        0 <= cy < b.len(),
        0 <= cx,
        0 <= vx,
        cx == 0 || cx < b[cy].len(),
        vx == 0 || vx < b[cy].len(),
        b[cy].len() > 0,
        forall|k: int| 0 <= k < b[cy].len() ==> b[cy][k] != '\n',
    ensures
        ({
            let (bx, ex) = row_range(cx, vx);
            let l = b[cy];
            let clip = copy_visual_spec(b, cx, cy, vx, vy, false);
            let b2 = paste_spec(b, bx, cy, clip, true);
            let nr = b2[cy];
            &&& clip == l.subrange(bx, ex + 1)
            &&& b2 == b.update(cy, l.take(bx + 1) + clip + l.skip(bx + 1))
            &&& nr.subrange(bx + 1, bx + 1 + clip.len()) == clip
            &&& nr.take(bx + 1) + nr.skip(bx + 1 + clip.len()) == l
        }),
{
    let (bx, ex) = row_range(cx, vx);
    let l = b[cy];
    assert(0 <= bx <= ex);
    assert(ex < l.len()) by {
        if cx <= vx {
            assert(ex == vx);
        } else {
            assert(ex == cx);
        }
    }
    let clip = copy_visual_spec(b, cx, cy, vx, vy, false);
    assert(clip_col(ex + 1, l.len() as int) == ex + 1);
    assert(clip == l.subrange(bx, ex + 1));
    assert(clip.len() == ex + 1 - bx);
    assert(clip[0] == l[bx]);
    assert(clip[0] != '\n');
    crate::text::lemma_first_match_from(clip, seq!['\n'], 0);
    let f = crate::text::first_match_from(clip, seq!['\n'], 0);
    if f is Some && 0 <= f->Some_0 < clip.len() {
        let k = f->Some_0;
        assert(crate::text::match_at(clip, seq!['\n'], k));
        assert(clip.subrange(k, k + 1) == seq!['\n']);
        assert(clip.subrange(k, k + 1)[0] == clip[k]);
        assert(l[bx + k] == '\n');
        assert(false);
    }
    let ls = split_nl(clip);
    assert(ls == seq![clip]);
    assert(ls.len() == 1);
    let b2 = paste_spec(b, bx, cy, clip, true);
    let cut = clip_col(bx + 1, l.len() as int);
    assert(cut == bx + 1);
    assert(b2 == b.update(cy, l.take(bx + 1) + clip + l.skip(bx + 1)));
    let nr = b2[cy];
    assert(nr == l.take(bx + 1) + clip + l.skip(bx + 1));
    assert(nr.subrange(bx + 1, bx + 1 + clip.len()) =~= clip);
    assert(nr.take(bx + 1) + nr.skip(bx + 1 + clip.len()) =~= l);
}

} // verus!
