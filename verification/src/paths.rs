//! Pure path-string utilities: parent, nearest-directory, joining a relative
//! path onto a base, and shell escaping.
//!
//! Paths are plain strings with `/` as the separator. The engine never reads
//! the filesystem: whether an entry is a directory comes from the caller's
//! classification (for the selection) or, for a bare path, from a trailing
//! `/`.

use vstd::prelude::*;
use vstd::string::StrSliceExecFns;
use vstd::string::StringExecFns;

verus! {

/// The index of the last `/` in `s`, or `-1` when there is none.
pub open spec fn last_slash(s: Seq<char>) -> int
    decreases s.len(),
{
    if s.len() == 0 {
        -1
    } else if s.last() == '/' {
        s.len() - 1
    } else {
        last_slash(s.drop_last())
    }
}

pub proof fn lemma_last_slash(s: Seq<char>)
    ensures
        -1 <= last_slash(s) < s.len(),
        last_slash(s) >= 0 ==> s[last_slash(s)] == '/',
        forall|j: int| last_slash(s) < j < s.len() ==> s[j] != '/',
    decreases s.len(),
{
    if s.len() > 0 && s.last() != '/' {
        lemma_last_slash(s.drop_last());
        assert forall|j: int| last_slash(s) < j < s.len() implies s[j] != '/' by {
            if j < s.len() - 1 {
                assert(s.drop_last()[j] == s[j]);
            }
        }
    }
}

/// The direct parent of a path, or the path itself when it has none: the text
/// before the last `/`, keeping a lone leading `/`.
pub open spec fn parent_of_spec(p: Seq<char>) -> Seq<char> {
    let k = last_slash(p);
    if k < 0 {
        p
    } else if k == 0 {
        p.subrange(0, 1)
    } else {
        p.subrange(0, k)
    }
}

/// The nearest enclosing directory of a bare path with no classification:
/// itself when it is written as a directory (a trailing `/`), else its parent.
pub open spec fn dir_of_spec(p: Seq<char>) -> Seq<char> {
    if p.len() > 0 && p.last() == '/' {
        p
    } else {
        parent_of_spec(p)
    }
}

/// `rel` resolved against `base`: `rel` itself when absolute, otherwise
/// `base` and `rel` joined with a single `/`.
pub open spec fn path_join_spec(base: Seq<char>, rel: Seq<char>) -> Seq<char> {
    if rel.len() > 0 && rel[0] == '/' {
        rel
    } else if base.len() > 0 && base.last() == '/' {
        base + rel
    } else {
        base + seq!['/'] + rel
    }
}

/// Whether a character must be escaped before a shell may read it as part of
/// a single word.
pub open spec fn needs_escape(c: char) -> bool {
    ||| c == ' '
    ||| c == '\t'
    ||| c == '\n'
    ||| c == '\r'
    ||| c == '"'
    ||| c == '\''
    ||| c == '`'
    ||| c == '$'
    ||| c == '&'
    ||| c == '|'
    ||| c == ';'
    ||| c == '<'
    ||| c == '>'
    ||| c == '('
    ||| c == ')'
    ||| c == '*'
    ||| c == '?'
    ||| c == '['
    ||| c == ']'
    ||| c == '{'
    ||| c == '}'
    ||| c == '\\'
    ||| c == '#'
    ||| c == '!'
}

/// A single character as it appears after shell escaping.
pub open spec fn escape_char(c: char) -> Seq<char> {
    if needs_escape(c) {
        seq!['\\', c]
    } else {
        seq![c]
    }
}

/// A whole string as it appears after shell escaping.
pub open spec fn escape_seq(p: Seq<char>) -> Seq<char>
    decreases p.len(),
{
    if p.len() == 0 {
        seq![]
    } else {
        escape_seq(p.drop_last()) + escape_char(p.last())
    }
}

/// A path rendered for embedding in a command: shell-escaped on request,
/// verbatim otherwise.
pub open spec fn path_str_spec(p: Seq<char>, escape: bool) -> Seq<char> {
    if escape {
        escape_seq(p)
    } else {
        p
    }
}

/// The index just past the last `/`, or `None` when there is none.
fn find_last_slash(p: &str) -> (r: Option<usize>)
    ensures
        match r {
            Some(k) => last_slash(p@) == k as int,
            None => last_slash(p@) == -1,
        },
{
    let n = p.unicode_len();
    let mut i = n;
    while i > 0
        invariant
            0 <= i <= n,
            n == p@.len(),
            forall|j: int| i <= j < n ==> p@[j] != '/',
        decreases i,
    {
        if p.get_char(i - 1) == '/' {
            proof {
                lemma_last_slash(p@);
            }
            return Some(i - 1);
        }
        i -= 1;
    }
    proof {
        lemma_last_slash(p@);
    }
    None
}

/// The parent of a path, matching `parent_of_spec`.
pub fn parent_of(p: &str) -> (r: String)
    ensures
        r@ == parent_of_spec(p@),
{
    proof {
        lemma_last_slash(p@);
    }
    match find_last_slash(p) {
        None => p.to_owned(),
        Some(0) => p.substring_char(0, 1).to_owned(),
        Some(k) => p.substring_char(0, k).to_owned(),
    }
}

/// The nearest enclosing directory of a bare path, matching `dir_of_spec`.
pub fn dir_of(p: &str) -> (r: String)
    ensures
        r@ == dir_of_spec(p@),
{
    let n = p.unicode_len();
    if n > 0 && p.get_char(n - 1) == '/' {
        p.to_owned()
    } else {
        parent_of(p)
    }
}

/// Joins a relative path onto a base, matching `path_join_spec`.
pub fn path_str_from(base: &str, rel: &str) -> (r: String)
    ensures
        r@ == path_join_spec(base@, rel@),
{
    let rn = rel.unicode_len();
    if rn > 0 && rel.get_char(0) == '/' {
        return rel.to_owned();
    }
    let bn = base.unicode_len();
    let mut r = base.to_owned();
    if !(bn > 0 && base.get_char(bn - 1) == '/') {
        r.append("/");
        proof {
            reveal_strlit("/");
            assert(r@ =~= base@ + seq!['/']);
        }
    }
    r.append(rel);
    proof {
        if !(base@.len() > 0 && base@.last() == '/') {
            assert(r@ =~= base@ + seq!['/'] + rel@);
        }
    }
    r
}

/// Shell-escapes a string, matching `escape_seq`.
pub fn escape_for_shell(p: &str) -> (r: String)
    ensures
        r@ == escape_seq(p@),
{
    let n = p.unicode_len();
    let mut r = String::new();
    let mut i: usize = 0;
    while i < n
        invariant
            0 <= i <= n,
            n == p@.len(),
            r@ == escape_seq(p@.take(i as int)),
        decreases n - i,
    {
        let c = p.get_char(i);
        let escaped = match c {
            ' ' | '\t' | '\n' | '\r' | '"' | '\'' | '`' | '$' | '&' | '|' | ';' | '<' | '>'
                | '(' | ')' | '*' | '?' | '[' | ']' | '{' | '}' | '\\' | '#' | '!' => true,
            _ => false,
        };
        if escaped {
            r.append("\\");
            proof {
                reveal_strlit("\\");
            }
        }
        r.append(p.substring_char(i, i + 1));
        proof {
            assert(p@.take((i + 1) as int).drop_last() =~= p@.take(i as int));
            assert(p@.take((i + 1) as int).last() == p@[i as int]);
            assert(p@.subrange(i as int, i + 1 as int) =~= seq![p@[i as int]]);
            assert(r@ =~= escape_seq(p@.take((i + 1) as int)));
        }
        i += 1;
    }
    proof {
        assert(p@.take(n as int) =~= p@);
    }
    r
}

} // verus!
