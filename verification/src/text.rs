//! Line-level text primitives: character classification, leading
//! whitespace, substring matching, indentation, and comment insertion
//! and removal on a single line.

use vstd::prelude::*;

verus! {

/// Width of one indent unit, in columns.
pub const INDENT_WIDTH: usize = 4;

/// Whether a character is Unicode white space; the meaning of
/// `char::is_whitespace`.
pub uninterp spec fn whitespace(c: char) -> bool;

/// Whether a character is Unicode alphanumeric; the meaning of
/// `char::is_alphanumeric`.
pub uninterp spec fn alphanumeric(c: char) -> bool;

/// Relies on char::is_whitespace: Unicode white-space classification, a
/// function of the character alone. The White_Space property documented
/// by std holds of the space and tab characters and of no ASCII letter
/// or digit, stated here of the result.
#[verifier::external_body]
pub(crate) fn char_is_whitespace(c: char) -> (r: bool)
    ensures
        r == whitespace(c),
        c == ' ' ==> r,
        c == '\t' ==> r,
        ('a' <= c <= 'z' || 'A' <= c <= 'Z' || '0' <= c <= '9') ==> !r,
{
    c.is_whitespace()
}

/// Relies on char::is_alphanumeric: Unicode alphanumeric classification,
/// a function of the character alone.
#[verifier::external_body]
pub(crate) fn char_is_alphanumeric(c: char) -> (r: bool)
    ensures
        r == alphanumeric(c),
{
    c.is_alphanumeric()
}

/// A word character is alphanumeric or an underscore.
pub open spec fn is_word_char(c: char) -> bool {
    alphanumeric(c) || c == '_'
}

/// Decides whether `c` belongs to a word.
pub fn word_char(c: char) -> (r: bool)
    ensures
        r == is_word_char(c),
{
    char_is_alphanumeric(c) || c == '_'
}

/// Number of leading white-space characters of `s`.
pub open spec fn leading_ws(s: Seq<char>) -> int
    decreases s.len(),
{
    if s.len() > 0 && whitespace(s[0]) {
        1 + leading_ws(s.subrange(1, s.len() as int))
    } else {
        0
    }
}

pub proof fn lemma_leading_ws_bounds(s: Seq<char>)
    ensures
        0 <= leading_ws(s) <= s.len(),
    decreases s.len(),
{
    if s.len() > 0 && whitespace(s[0]) {
        lemma_leading_ws_bounds(s.subrange(1, s.len() as int));
    }
}

pub proof fn lemma_leading_ws_is(s: Seq<char>, k: int)
    requires
        0 <= k <= s.len(),
        forall|j: int| 0 <= j < k ==> whitespace(s[j]),
        k < s.len() ==> !whitespace(s[k]),
    ensures
        leading_ws(s) == k,
    decreases k,
{
    if k == 0 {
    } else {
        let t = s.subrange(1, s.len() as int);
        assert(forall|j: int| 0 <= j < k - 1 ==> t[j] == s[j + 1]);
        lemma_leading_ws_is(t, k - 1);
    }
}

/// Counts the leading white-space characters of a line.
pub fn count_leading_spaces(input: &Vec<char>) -> (r: usize)
    ensures
        r as int == leading_ws(input@),
{
    let mut i: usize = 0;
    loop
        invariant
            i <= input@.len(),
            forall|j: int| 0 <= j < i ==> whitespace(input@[j]),
        ensures
            i <= input@.len(),
            forall|j: int| 0 <= j < i ==> whitespace(input@[j]),
            i < input@.len() ==> !whitespace(input@[i as int]),
        decreases input@.len() - i,
    {
        if i == input.len() {
            break;
        }
        if !char_is_whitespace(input[i]) {
            break;
        }
        i = i + 1;
    }
    proof {
        lemma_leading_ws_is(input@, i as int);
    }
    i
}

/// The pattern `pat` occurs in `line` starting at position `i`.
pub open spec fn match_at(line: Seq<char>, pat: Seq<char>, i: int) -> bool {
    &&& 0 <= i
    &&& i + pat.len() <= line.len()
    &&& line.subrange(i, i + pat.len() as int) == pat
}

/// First position at or after `from` where `pat` occurs in `line`.
pub open spec fn first_match_from(line: Seq<char>, pat: Seq<char>, from: int) -> Option<int>
    decreases line.len() - from,
{
    if from < 0 || from + pat.len() > line.len() {
        None
    } else if pat.len() == 0 {
        Some(from)
    } else if line.subrange(from, from + pat.len() as int) == pat {
        Some(from)
    } else {
        first_match_from(line, pat, from + 1)
    }
}

pub proof fn lemma_first_match_from(line: Seq<char>, pat: Seq<char>, from: int)
    requires
        from >= 0,
    ensures
        match first_match_from(line, pat, from) {
            Some(i) => from <= i && match_at(line, pat, i) && (forall|j: int|
                from <= j < i ==> !match_at(line, pat, j)),
            None => forall|j: int| j >= from ==> !match_at(line, pat, j),
        },
    decreases line.len() - from,
{
    if from + pat.len() > line.len() {
    } else if pat.len() == 0 {
        assert(line.subrange(from, from) =~= pat);
    } else if line.subrange(from, from + pat.len() as int) == pat {
    } else {
        lemma_first_match_from(line, pat, from + 1);
        assert(!match_at(line, pat, from));
    }
}

/// Decides whether `pat` occurs in `line` at position `i`.
pub(crate) fn matches_at(line: &Vec<char>, pat: &Vec<char>, i: usize) -> (b: bool)
    requires
        i + pat@.len() <= line@.len(),
    ensures
        b == match_at(line@, pat@, i as int),
{
    let mut j: usize = 0;
    proof {
        assert(line.len() as int == line@.len());
    }
    loop
        invariant
            j <= pat@.len(),
            i + pat@.len() <= line@.len() <= usize::MAX,
            forall|k: int| 0 <= k < j ==> line@[i + k] == pat@[k],
        ensures
            j <= pat@.len(),
            forall|k: int| 0 <= k < j ==> line@[i + k] == pat@[k],
            j < pat@.len() ==> line@[i + j] != pat@[j as int],
        decreases pat@.len() - j,
    {
        if j == pat.len() {
            break;
        }
        if line[i + j] != pat[j] {
            break;
        }
        j = j + 1;
    }
    if j == pat.len() {
        proof {
            assert(line@.subrange(i as int, i + pat@.len() as int) =~= pat@);
        }
        true
    } else {
        proof {
            if match_at(line@, pat@, i as int) {
                assert(line@.subrange(i as int, i + pat@.len() as int)[j as int]
                    == pat@[j as int]);
            }
        }
        false
    }
}

/// First occurrence of `substring` in `line`, if any.
pub fn find_substring(line: &Vec<char>, substring: &Vec<char>) -> (r: Option<usize>)
    ensures
        match r {
            Some(i) => match_at(line@, substring@, i as int) && (forall|j: int|
                0 <= j < i ==> !match_at(line@, substring@, j)),
            None => forall|j: int| !match_at(line@, substring@, j),
        },
{
    if substring.len() > line.len() {
        return None;
    }
    if substring.len() == 0 {
        proof {
            assert(line@.subrange(0, 0) =~= substring@);
        }
        return Some(0);
    }
    let last = line.len() - substring.len();
    let mut i: usize = 0;
    loop
        invariant
            i <= last + 1,
            last == line@.len() - substring@.len(),
            1 <= substring@.len() <= line@.len() <= usize::MAX,
            forall|j: int| 0 <= j < i ==> !match_at(line@, substring@, j),
        ensures
            forall|j: int| 0 <= j < i ==> !match_at(line@, substring@, j),
            i <= last ==> match_at(line@, substring@, i as int),
        decreases last + 1 - i,
    {
        if i > last {
            break;
        }
        if matches_at(line, substring, i) {
            break;
        }
        i = i + 1;
    }
    if i <= last {
        Some(i)
    } else {
        None
    }
}

/// Decides whether two character sequences are equal.
pub fn chars_eq(a: &Vec<char>, b: &Vec<char>) -> (r: bool)
    ensures
        r == (a@ == b@),
{
    if a.len() != b.len() {
        return false;
    }
    let mut i: usize = 0;
    while i < a.len()
        invariant
            i <= a@.len(),
            a@.len() == b@.len(),
            forall|j: int| 0 <= j < i ==> a@[j] == b@[j],
        decreases a@.len() - i,
    {
        if a[i] != b[i] {
            return false;
        }
        i = i + 1;
    }
    proof {
        assert(a@ =~= b@);
    }
    true
}

/// After trimming leading white space, does the line start with `substring`?
pub fn starts_with_after_trim(my_string: &Vec<char>, substring: &Vec<char>) -> (b: bool)
    ensures
        b == match_at(my_string@, substring@, leading_ws(my_string@)),
{
    proof {
        lemma_leading_ws_bounds(my_string@);
    }
    let k = count_leading_spaces(my_string);
    if substring.len() <= my_string.len() - k {
        matches_at(my_string, substring, k)
    } else {
        false
    }
}

/// Appends `src[from..to]` to `dst`.
pub(crate) fn push_range(dst: &mut Vec<char>, src: &Vec<char>, from: usize, to: usize)
    requires
        from <= to <= src@.len(),
    ensures
        final(dst)@ == old(dst)@ + src@.subrange(from as int, to as int),
{
    let mut i: usize = from;
    while i < to
        invariant
            from <= i <= to <= src@.len(),
            dst@ == old(dst)@ + src@.subrange(from as int, i as int),
        decreases to - i,
    {
        dst.push(src[i]);
        proof {
            assert(old(dst)@ + src@.subrange(from as int, i + 1) =~= (old(dst)@ + src@.subrange(
                from as int,
                i as int,
            )).push(src@[i as int]));
        }
        i = i + 1;
    }
}

/// Copy of `v[k..]`.
pub(crate) fn tail_from(v: &Vec<char>, k: usize) -> (r: Vec<char>)
    requires
        k <= v@.len(),
    ensures
        r@ == v@.subrange(k as int, v@.len() as int),
{
    let mut r: Vec<char> = Vec::new();
    push_range(&mut r, v, k, v.len());
    proof {
        assert(r@ =~= v@.subrange(k as int, v@.len() as int));
    }
    r
}

/// One indent unit: four spaces.
pub open spec fn indent_unit() -> Seq<char> {
    seq![' ', ' ', ' ', ' ']
}

/// Prepends one indent unit to the line.
pub fn increase_indent(string: Vec<char>) -> (r: Vec<char>)
    ensures
        r@ == indent_unit() + string@,
{
    let mut r: Vec<char> = Vec::new();
    r.push(' ');
    r.push(' ');
    r.push(' ');
    r.push(' ');
    push_range(&mut r, &string, 0, string.len());
    proof {
        assert(r@ =~= indent_unit() + string@);
    }
    r
}

/// Result of removing one indent unit: if the first four characters (or
/// the whole of a shorter line) are spaces, they are removed; otherwise
/// all leading white space is removed.
pub open spec fn reduce_indent_spec(s: Seq<char>) -> Seq<char> {
    let k = if s.len() < 4 {
        s.len() as int
    } else {
        4
    };
    if forall|i: int| 0 <= i < k ==> s[i] == ' ' {
        s.skip(k)
    } else {
        s.skip(leading_ws(s))
    }
}

/// Removes one indent unit from the front of the line.
pub fn reduce_indent(string: Vec<char>) -> (r: Vec<char>)
    ensures
        r@ == reduce_indent_spec(string@),
{
    let k = if string.len() < INDENT_WIDTH {
        string.len()
    } else {
        INDENT_WIDTH
    };
    let mut all_spaces = true;
    let mut i: usize = 0;
    while i < k
        invariant
            i <= k,
            k <= string@.len(),
            all_spaces == (forall|j: int| 0 <= j < i ==> string@[j] == ' '),
        decreases k - i,
    {
        if string[i] != ' ' {
            all_spaces = false;
            proof {
                assert(!(forall|j: int| 0 <= j < i + 1 ==> string@[j] == ' '));
            }
            i = k;
        } else {
            i = i + 1;
        }
    }
    if all_spaces {
        tail_from(&string, k)
    } else {
        proof {
            lemma_leading_ws_bounds(string@);
        }
        let w = count_leading_spaces(&string);
        tail_from(&string, w)
    }
}

/// Reducing the indent of a line directly after increasing it returns the
/// line unchanged, for any line whose indentation is a multiple of the
/// indent unit.
pub proof fn lemma_reduce_increase_indent(s: Seq<char>)
    requires
        leading_ws(s) % (INDENT_WIDTH as int) == 0,
    ensures
        reduce_indent_spec(indent_unit() + s) == s,
{
    let t = indent_unit() + s;
    assert(forall|i: int| 0 <= i < 4 ==> t[i] == ' ');
    assert(t.skip(4) =~= s);
}

/// Result of inserting the comment token and one space at `index`, on a
/// non-empty line; an empty line is returned unchanged.
pub open spec fn comment_insert_spec(s: Seq<char>, p: Seq<char>, index: int) -> Seq<char> {
    if s.len() == 0 {
        s
    } else {
        s.take(index) + p + seq![' '] + s.skip(index)
    }
}

/// Inserts the comment token and one space at `index` of a non-empty line.
pub fn comment_at_index(line: Vec<char>, comment_string: &Vec<char>, index: usize) -> (r: Vec<
    char,
>)
    requires
        index <= line@.len(),
    ensures
        r@ == comment_insert_spec(line@, comment_string@, index as int),
{
    if line.len() == 0 {
        line
    } else {
        let mut r: Vec<char> = Vec::new();
        push_range(&mut r, &line, 0, index);
        push_range(&mut r, comment_string, 0, comment_string.len());
        r.push(' ');
        push_range(&mut r, &line, index, line.len());
        proof {
            assert(comment_string@.subrange(0, comment_string@.len() as int) =~= comment_string@);
            assert(r@ =~= comment_insert_spec(line@, comment_string@, index as int));
        }
        r
    }
}

/// Result of removing the first occurrence of `p` from `s`, together with
/// one white-space character directly after it, when there is one; `s`
/// itself when `p` does not occur.
pub open spec fn remove_sub_spec(s: Seq<char>, p: Seq<char>) -> Seq<char> {
    match first_match_from(s, p, 0) {
        None => s,
        Some(i) => {
            let end = i + p.len() as int;
            if end < s.len() && whitespace(s[end]) {
                s.take(i) + s.skip(end + 1)
            } else {
                s.take(i) + s.skip(end)
            }
        },
    }
}

/// Removes the first occurrence of `substring`, and one white-space
/// character directly after it when there is one.
pub fn remove_substring_and_space_after(my_string: &Vec<char>, substring: &Vec<char>) -> (r: Vec<
    char,
>)
    ensures
        r@ == remove_sub_spec(my_string@, substring@),
{
    proof {
        lemma_first_match_from(my_string@, substring@, 0);
    }
    match find_substring(my_string, substring) {
        None => {
            proof {
                if first_match_from(my_string@, substring@, 0) is Some {
                    let i = first_match_from(my_string@, substring@, 0)->Some_0;
                    assert(match_at(my_string@, substring@, i));
                }
            }
            let mut r: Vec<char> = Vec::new();
            push_range(&mut r, my_string, 0, my_string.len());
            proof {
                assert(r@ =~= my_string@);
            }
            r
        },
        Some(index) => {
            proof {
                let f = first_match_from(my_string@, substring@, 0);
                assert(f is Some);
                let i = f->Some_0;
                if i < index {
                    assert(!match_at(my_string@, substring@, i));
                }
                if index < i {
                    assert(!match_at(my_string@, substring@, index as int));
                }
                assert(i == index as int);
                assert(my_string.len() as int == my_string@.len());
            }
            let end = index + substring.len();
            let mut r: Vec<char> = Vec::new();
            push_range(&mut r, my_string, 0, index);
            if end < my_string.len() && char_is_whitespace(my_string[end]) {
                push_range(&mut r, my_string, end + 1, my_string.len());
                proof {
                    assert(r@ =~= remove_sub_spec(my_string@, substring@));
                }
            } else {
                push_range(&mut r, my_string, end, my_string.len());
                proof {
                    assert(r@ =~= remove_sub_spec(my_string@, substring@));
                }
            }
            r
        },
    }
}

/// Result of toggling the line comment on one line: an empty line is kept;
/// an uncommented line gains the token and one space at its indentation
/// column; a commented line has the token and one following white-space
/// character removed.
pub open spec fn toggle_comment_spec(s: Seq<char>, p: Seq<char>) -> Seq<char> {
    if s.len() == 0 {
        s
    } else if !match_at(s, p, leading_ws(s)) {
        comment_insert_spec(s, p, leading_ws(s))
    } else {
        remove_sub_spec(s, p)
    }
}

/// Toggles the line comment `comment_string` on one line.
pub fn toggle_comment(line: Vec<char>, comment_string: &Vec<char>) -> (r: Vec<char>)
    ensures
        r@ == toggle_comment_spec(line@, comment_string@),
{
    if line.len() == 0 {
        line
    } else if !starts_with_after_trim(&line, comment_string) {
        proof {
            lemma_leading_ws_bounds(line@);
        }
        let start = count_leading_spaces(&line);
        comment_at_index(line, comment_string, start)
    } else {
        remove_substring_and_space_after(&line, comment_string)
    }
}

} // verus!
