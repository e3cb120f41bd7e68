//! The file-extension to comment-token table, and the helpers that read
//! a file name's extension. The table is static configuration: each
//! extension maps to the token that opens a line comment in that
//! language.

use vstd::prelude::*;
use vstd::std_specs::iter::IteratorSpec;
use crate::motion::last_in_class_before;
use crate::motion::lemma_last_in_class;

verus! {

/// Characters of a string slice, one per code point.
pub fn str_to_chars(s: &str) -> (r: Vec<char>)
    ensures
        r@ == s@,
{
    let mut it = s.chars();
    let mut r: Vec<char> = Vec::new();
    loop
        invariant
            it.obeys_prophetic_iter_laws(),
            it.decrease() is Some,
            r@ + it.remaining() == s@,
        ensures
            r@ + it.remaining() == s@,
            it.remaining().len() == 0,
        decreases it.decrease()->0,
    {
        let ghost prev = it;
        match it.next() {
            Some(c) => {
                r.push(c);
                proof {
                    assert(r@ + it.remaining() =~= (r@.drop_last() + prev.remaining()));
                }
            },
            None => {
                break;
            },
        }
    }
    proof {
        assert(r@ =~= s@);
    }
    r
}

/// Decides whether the characters equal the string slice.
pub(crate) fn eq_str(v: &Vec<char>, s: &str) -> (r: bool)
    ensures
        r == (v@ == s@),
{
    let sc = str_to_chars(s);
    crate::text::chars_eq(v, &sc)
}

/// The extension of a file name: what follows the last dot, or the whole
/// name when it has no dot.
pub open spec fn extension_of(s: Seq<char>) -> Seq<char> {
    match last_in_class_before(s, s.len() as int, |c: char| c == '.') {
        Some(i) => s.skip(i + 1),
        None => s,
    }
}

/// The comment token of a language, keyed by file extension.
pub open spec fn comment_token_spec(ext: Seq<char>) -> Option<Seq<char>> {
    if ext == "scss"@ {
        Some("/*"@)
    } else if ext == "css"@ {
        Some("/*"@)
    } else if ext == "html"@ {
        Some("<!--"@)
    } else if ext == "swift"@ {
        Some("//"@)
    } else if ext == "java"@ {
        Some("//"@)
    } else if ext == "js"@ {
        Some("//"@)
    } else if ext == "jsx"@ {
        Some("//"@)
    } else if ext == "ts"@ {
        Some("//"@)
    } else if ext == "tsx"@ {
        Some("//"@)
    } else if ext == "rs"@ {
        Some("//"@)
    } else if ext == "c"@ {
        Some("//"@)
    } else if ext == "cpp"@ {
        Some("//"@)
    } else if ext == "sh"@ {
        Some("#"@)
    } else if ext == "py"@ {
        Some("#"@)
    } else if ext == "rb"@ {
        Some("#"@)
    } else if ext == "pl"@ {
        Some("#"@)
    } else if ext == "php"@ {
        Some("//"@)
    } else if ext == "go"@ {
        Some("//"@)
    } else if ext == "kotlin"@ {
        Some("//"@)
    } else if ext == "groovy"@ {
        Some("//"@)
    } else if ext == "scala"@ {
        Some("//"@)
    } else if ext == "perl"@ {
        Some("#"@)
    } else if ext == "lua"@ {
        Some("--"@)
    } else if ext == "coffee"@ {
        Some("#"@)
    } else if ext == "dart"@ {
        Some("//"@)
    } else if ext == "h"@ {
        Some("/*"@)
    } else if ext == "hpp"@ {
        Some("/*"@)
    } else if ext == "m"@ {
        Some("//"@)
    } else if ext == "mm"@ {
        Some("//"@)
    } else if ext == "sql"@ {
        Some("--"@)
    } else if ext == "vb"@ {
        Some("'"@)
    } else if ext == "xml"@ {
        Some("<!--"@)
    } else if ext == "yaml"@ {
        Some("#"@)
    } else if ext == "dockerfile"@ {
        Some("#"@)
    } else if ext == "makefile"@ {
        Some("#"@)
    } else if ext == "bat"@ {
        Some("REM"@)
    } else if ext == "powershell"@ {
        Some("#"@)
    } else if ext == "ini"@ {
        Some(";"@)
    } else if ext == "cmake"@ {
        Some("#"@)
    } else if ext == "m4"@ {
        Some("dnl"@)
    } else if ext == "fish"@ {
        Some("#"@)
    } else if ext == "haskell"@ {
        Some("--"@)
    } else if ext == "elixir"@ {
        Some("#"@)
    } else if ext == "nim"@ {
        Some("#"@)
    } else if ext == "erl"@ {
        Some("%"@)
    } else if ext == "ex"@ {
        Some("#"@)
    } else if ext == "f"@ {
        Some("!"@)
    } else if ext == "fort"@ {
        Some("C"@)
    } else if ext == "f90"@ {
        Some("!"@)
    } else if ext == "f95"@ {
        Some("!"@)
    } else if ext == "hs"@ {
        Some("--"@)
    } else if ext == "ml"@ {
        Some("(*"@)
    } else if ext == "mli"@ {
        Some("(*"@)
    } else if ext == "scm"@ {
        Some(";;"@)
    } else if ext == "ss"@ {
        Some(";;"@)
    } else if ext == "tcl"@ {
        Some("#"@)
    } else if ext == "vim"@ {
        Some("\""@)
    } else {
        None
    }
}

/// Comment token for one extension.
#[verifier::rlimit(100)]
fn token_for_extension(ext: &Vec<char>) -> (r: Option<Vec<char>>)
    ensures
        match r {
            Some(t) => comment_token_spec(ext@) == Some(t@),
            None => comment_token_spec(ext@) is None,
        },
{
    if eq_str(ext, "scss") {
        Some(str_to_chars("/*"))
    } else if eq_str(ext, "css") {
        Some(str_to_chars("/*"))
    } else if eq_str(ext, "html") {
        Some(str_to_chars("<!--"))
    } else if eq_str(ext, "swift") {
        Some(str_to_chars("//"))
    } else if eq_str(ext, "java") {
        Some(str_to_chars("//"))
    } else if eq_str(ext, "js") {
        Some(str_to_chars("//"))
    } else if eq_str(ext, "jsx") {
        Some(str_to_chars("//"))
    } else if eq_str(ext, "ts") {
        Some(str_to_chars("//"))
    } else if eq_str(ext, "tsx") {
        Some(str_to_chars("//"))
    } else if eq_str(ext, "rs") {
        Some(str_to_chars("//"))
    } else if eq_str(ext, "c") {
        Some(str_to_chars("//"))
    } else if eq_str(ext, "cpp") {
        Some(str_to_chars("//"))
    } else if eq_str(ext, "sh") {
        Some(str_to_chars("#"))
    } else if eq_str(ext, "py") {
        Some(str_to_chars("#"))
    } else if eq_str(ext, "rb") {
        Some(str_to_chars("#"))
    } else if eq_str(ext, "pl") {
        Some(str_to_chars("#"))
    } else if eq_str(ext, "php") {
        Some(str_to_chars("//"))
    } else if eq_str(ext, "go") {
        Some(str_to_chars("//"))
    } else if eq_str(ext, "kotlin") {
        Some(str_to_chars("//"))
    } else if eq_str(ext, "groovy") {
        Some(str_to_chars("//"))
    } else if eq_str(ext, "scala") {
        Some(str_to_chars("//"))
    } else if eq_str(ext, "perl") {
        Some(str_to_chars("#"))
    } else if eq_str(ext, "lua") {
        Some(str_to_chars("--"))
    } else if eq_str(ext, "coffee") {
        Some(str_to_chars("#"))
    } else if eq_str(ext, "dart") {
        Some(str_to_chars("//"))
    } else if eq_str(ext, "h") {
        Some(str_to_chars("/*"))
    } else if eq_str(ext, "hpp") {
        Some(str_to_chars("/*"))
    } else if eq_str(ext, "m") {
        Some(str_to_chars("//"))
    } else if eq_str(ext, "mm") {
        Some(str_to_chars("//"))
    } else if eq_str(ext, "sql") {
        Some(str_to_chars("--"))
    } else if eq_str(ext, "vb") {
        Some(str_to_chars("'"))
    } else if eq_str(ext, "xml") {
        Some(str_to_chars("<!--"))
    } else if eq_str(ext, "yaml") {
        Some(str_to_chars("#"))
    } else if eq_str(ext, "dockerfile") {
        Some(str_to_chars("#"))
    } else if eq_str(ext, "makefile") {
        Some(str_to_chars("#"))
    } else if eq_str(ext, "bat") {
        Some(str_to_chars("REM"))
    } else if eq_str(ext, "powershell") {
        Some(str_to_chars("#"))
    } else if eq_str(ext, "ini") {
        Some(str_to_chars(";"))
    } else if eq_str(ext, "cmake") {
        Some(str_to_chars("#"))
    } else if eq_str(ext, "m4") {
        Some(str_to_chars("dnl"))
    } else if eq_str(ext, "fish") {
        Some(str_to_chars("#"))
    } else if eq_str(ext, "haskell") {
        Some(str_to_chars("--"))
    } else if eq_str(ext, "elixir") {
        Some(str_to_chars("#"))
    } else if eq_str(ext, "nim") {
        Some(str_to_chars("#"))
    } else if eq_str(ext, "erl") {
        Some(str_to_chars("%"))
    } else if eq_str(ext, "ex") {
        Some(str_to_chars("#"))
    } else if eq_str(ext, "f") {
        Some(str_to_chars("!"))
    } else if eq_str(ext, "fort") {
        Some(str_to_chars("C"))
    } else if eq_str(ext, "f90") {
        Some(str_to_chars("!"))
    } else if eq_str(ext, "f95") {
        Some(str_to_chars("!"))
    } else if eq_str(ext, "hs") {
        Some(str_to_chars("--"))
    } else if eq_str(ext, "ml") {
        Some(str_to_chars("(*"))
    } else if eq_str(ext, "mli") {
        Some(str_to_chars("(*"))
    } else if eq_str(ext, "scm") {
        Some(str_to_chars(";;"))
    } else if eq_str(ext, "ss") {
        Some(str_to_chars(";;"))
    } else if eq_str(ext, "tcl") {
        Some(str_to_chars("#"))
    } else if eq_str(ext, "vim") {
        Some(str_to_chars("\""))
    } else {
        None
    }
}

/// Looks up the comment token for a file name by its extension.
pub fn get_comment_string(file_name: &Vec<char>) -> (r: Option<Vec<char>>)
    ensures
        match r {
            Some(t) => comment_token_spec(extension_of(file_name@)) == Some(t@),
            None => comment_token_spec(extension_of(file_name@)) is None,
        },
{
    proof {
        lemma_last_in_class(file_name@, file_name@.len() as int, |c: char| c == '.');
    }
    let mut i: usize = file_name.len();
    loop
        invariant
            i <= file_name@.len(),
            forall|j: int| i <= j < file_name@.len() ==> file_name@[j] != '.',
        ensures
            i <= file_name@.len(),
            forall|j: int| i <= j < file_name@.len() ==> file_name@[j] != '.',
            i > 0 ==> file_name@[i - 1] == '.',
        decreases i,
    {
        if i == 0 {
            break;
        }
        if file_name[i - 1] == '.' {
            break;
        }
        i = i - 1;
    }
    let ghost p = |c: char| c == '.';
    let ext = crate::text::tail_from(file_name, i);
    proof {
        match last_in_class_before(file_name@, file_name@.len() as int, p) {
            Some(d) => {
                assert(i > 0 && i - 1 == d);
                assert(ext@ == extension_of(file_name@));
            },
            None => {
                assert(i == 0);
                assert(ext@ =~= extension_of(file_name@));
            },
        }
    }
    token_for_extension(&ext)
}

} // verus!
