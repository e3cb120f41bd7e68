use vilite::text::{
    chars_eq, comment_at_index, count_leading_spaces, find_substring,
    remove_substring_and_space_after, starts_with_after_trim, toggle_comment, word_char,
};
use vilite::text::{increase_indent, reduce_indent};
use vilite::comment::get_comment_string;

fn l(s: &str) -> Vec<char> {
    s.chars().collect()
}

#[test]
fn leading_spaces_counts_whitespace() {
    assert_eq!(count_leading_spaces(&l("   abc")), 3);
    assert_eq!(count_leading_spaces(&l("\t x")), 2);
    assert_eq!(count_leading_spaces(&l("abc")), 0);
    assert_eq!(count_leading_spaces(&l("")), 0);
    assert_eq!(count_leading_spaces(&l("    ")), 4);
}

#[test]
fn find_substring_first_occurrence() {
    assert_eq!(find_substring(&l("hello world"), &l("o")), Some(4));
    assert_eq!(find_substring(&l("hello"), &l("lo")), Some(3));
    assert_eq!(find_substring(&l("hello"), &l("x")), None);
    assert_eq!(find_substring(&l("hello"), &l("")), Some(0));
    assert_eq!(find_substring(&l(""), &l("")), Some(0));
    assert_eq!(find_substring(&l("ab"), &l("abc")), None);
}

#[test]
fn starts_with_after_trim_skips_indent() {
    assert!(starts_with_after_trim(&l("   // x"), &l("//")));
    assert!(!starts_with_after_trim(&l("   x //"), &l("//")));
    assert!(starts_with_after_trim(&l("#"), &l("#")));
    assert!(!starts_with_after_trim(&l(""), &l("#")));
}

#[test]
fn indent_round_trip_is_identity() {
    // The indent of these lines is a multiple of the four-column unit.
    for case in ["", "abc", "    abc", "        x y"] {
        let line = l(case);
        assert_eq!(reduce_indent(increase_indent(line.clone())), line);
    }
}

#[test]
fn increase_indent_prepends_unit() {
    assert_eq!(increase_indent(l("")), l("    "));
    assert_eq!(increase_indent(l("ab")), l("    ab"));
}

#[test]
fn reduce_indent_trims() {
    assert_eq!(reduce_indent(l("    ab")), l("ab"));
    assert_eq!(reduce_indent(l("  ab")), l("ab"));
    assert_eq!(reduce_indent(l("\t\t\t\t\tab")), l("ab"));
    assert_eq!(reduce_indent(l("ab")), l("ab"));
    assert_eq!(reduce_indent(l("   ")), l(""));
}

#[test]
fn remove_substring_and_following_space() {
    assert_eq!(remove_substring_and_space_after(&l("// x"), &l("//")), l("x"));
    assert_eq!(remove_substring_and_space_after(&l("//x"), &l("//")), l("x"));
    assert_eq!(remove_substring_and_space_after(&l("a // b"), &l("//")), l("a b"));
    assert_eq!(remove_substring_and_space_after(&l("abc"), &l("//")), l("abc"));
    assert_eq!(remove_substring_and_space_after(&l("ab //"), &l("//")), l("ab "));
}

#[test]
fn toggle_comment_inserts_and_removes() {
    assert_eq!(toggle_comment(l("  foo"), &l("//")), l("  // foo"));
    assert_eq!(toggle_comment(l("  // foo"), &l("//")), l("  foo"));
    assert_eq!(toggle_comment(l(""), &l("//")), l(""));
    assert_eq!(toggle_comment(l("x"), &l("#")), l("# x"));
}

#[test]
fn comment_at_index_inserts_token_and_space() {
    assert_eq!(comment_at_index(l("  foo"), &l("//"), 2), l("  // foo"));
    assert_eq!(comment_at_index(l(""), &l("//"), 0), l(""));
    assert_eq!(comment_at_index(l("foo"), &l("#"), 0), l("# foo"));
}

#[test]
fn chars_eq_compares_contents() {
    assert!(chars_eq(&l("abc"), &l("abc")));
    assert!(!chars_eq(&l("abc"), &l("abd")));
    assert!(!chars_eq(&l("abc"), &l("ab")));
    assert!(chars_eq(&l(""), &l("")));
}

#[test]
fn word_char_classification() {
    assert!(word_char('a'));
    assert!(word_char('Z'));
    assert!(word_char('0'));
    assert!(word_char('_'));
    assert!(!word_char(' '));
    assert!(!word_char('-'));
    assert!(!word_char('('));
}

#[test]
fn comment_tokens_by_extension() {
    assert_eq!(get_comment_string(&l("main.rs")), Some(l("//")));
    assert_eq!(get_comment_string(&l("x.py")), Some(l("#")));
    assert_eq!(get_comment_string(&l("a.b.css")), Some(l("/*")));
    assert_eq!(get_comment_string(&l("style.scss")), Some(l("/*")));
    assert_eq!(get_comment_string(&l("page.html")), Some(l("<!--")));
    assert_eq!(get_comment_string(&l("q.sql")), Some(l("--")));
    assert_eq!(get_comment_string(&l("v.vim")), Some(l("\"")));
    assert_eq!(get_comment_string(&l("script.bat")), Some(l("REM")));
    assert_eq!(get_comment_string(&l("noext")), None);
    assert_eq!(get_comment_string(&l("odd.zzz")), None);
    assert_eq!(get_comment_string(&l("")), None);
}
