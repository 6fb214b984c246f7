//! The placeholder grammar: tokens of the exact shape `{name}` or
//! `{name:format}`, where the name and the format are one or more characters
//! none of which is `{`, `}` or `:`. Malformed tokens (unbalanced braces, a
//! second colon, an empty name) are not tokens at all and stay literal text.

use vstd::prelude::*;
use vstd::string::StrSliceExecFns;
use vstd::string::StringExecFns;

verus! {

/// Whether a character may appear inside a placeholder name or format.
pub open spec fn is_ph_char(c: char) -> bool {
    c != '{' && c != '}' && c != ':'
}

/// The first index at or after `i` holding a character that cannot stand
/// inside a placeholder name or format (or the string's end).
pub open spec fn run_end(s: Seq<char>, i: int) -> int
    decreases s.len() - i,
{
    if i < 0 || i >= s.len() {
        i
    } else if is_ph_char(s[i]) {
        run_end(s, i + 1)
    } else {
        i
    }
}

pub proof fn lemma_run_end_bounds(s: Seq<char>, i: int)
    requires
        0 <= i <= s.len(),
    ensures
        i <= run_end(s, i) <= s.len(),
        forall|j: int| i <= j < run_end(s, i) ==> is_ph_char(s[j]),
        run_end(s, i) < s.len() ==> !is_ph_char(s[run_end(s, i)]),
    decreases s.len() - i,
{
    if i < s.len() && is_ph_char(s[i]) {
        lemma_run_end_bounds(s, i + 1);
    }
}

pub proof fn lemma_run_end_at(s: Seq<char>, i: int, k: int)
    requires
        0 <= i <= k <= s.len(),
        forall|j: int| i <= j < k ==> is_ph_char(s[j]),
        k < s.len() ==> !is_ph_char(s[k]),
    ensures
        run_end(s, i) == k,
    decreases k - i,
{
    if i < k {
        lemma_run_end_at(s, i + 1, k);
    }
}

/// A parsed placeholder token: its name, its optional format specifier, and
/// the index just past its closing brace.
pub ghost struct PhMatch {
    pub name: Seq<char>,
    pub fmt: Option<Seq<char>>,
    pub end: int,
}

/// Tries to recognize a placeholder token starting exactly at index `i`.
pub open spec fn match_at(s: Seq<char>, i: int) -> Option<PhMatch> {
    if !(0 <= i < s.len() && s[i] == '{') {
        None
    } else {
        let ne = run_end(s, i + 1);
        if ne == i + 1 {
            None
        } else if ne < s.len() && s[ne] == '}' {
            Some(PhMatch { name: s.subrange(i + 1, ne), fmt: None, end: ne + 1 })
        } else if ne < s.len() && s[ne] == ':' {
            let fe = run_end(s, ne + 1);
            if fe > ne + 1 && fe < s.len() && s[fe] == '}' {
                Some(
                    PhMatch {
                        name: s.subrange(i + 1, ne),
                        fmt: Some(s.subrange(ne + 1, fe)),
                        end: fe + 1,
                    },
                )
            } else {
                None
            }
        } else {
            None
        }
    }
}

pub proof fn lemma_match_at_bounds(s: Seq<char>, i: int)
    requires
        match_at(s, i) is Some,
    ensures
        i + 3 <= match_at(s, i)->Some_0.end <= s.len(),
        match_at(s, i)->Some_0.name.len() >= 1,
{
    lemma_run_end_bounds(s, i + 1);
    let ne = run_end(s, i + 1);
    if ne < s.len() && s[ne] == ':' {
        lemma_run_end_bounds(s, ne + 1);
    }
}

/// Scans for the end of a name or format run, starting at `i`.
fn scan_run_end(s: &str, i: usize) -> (r: usize)
    requires
        i <= s@.len(),
    ensures
        r == run_end(s@, i as int),
{
    let n = s.unicode_len();
    let mut j = i;
    while j < n
        invariant
            i <= j <= n,
            n == s@.len(),
            run_end(s@, i as int) == run_end(s@, j as int),
        decreases n - j,
    {
        let c = s.get_char(j);
        if c == '{' || c == '}' || c == ':' {
            return j;
        }
        j += 1;
    }
    j
}

/// An owned parsed placeholder token, as `match_at` describes it.
pub struct Placeholder {
    pub name: String,
    pub fmt: Option<String>,
    pub end: usize,
}

impl Placeholder {
    /// The ghost counterpart of this token.
    pub open spec fn view_match(&self) -> PhMatch {
        PhMatch {
            name: self.name@,
            fmt: match self.fmt {
                Some(f) => Some(f@),
                None => None,
            },
            end: self.end as int,
        }
    }
}

/// Tries to parse a placeholder token starting exactly at character `i`.
pub fn parse_at(s: &str, i: usize) -> (r: Option<Placeholder>)
    requires
        i < s@.len(),
    ensures
        match r {
            Some(p) => match_at(s@, i as int) == Some(p.view_match()),
            None => match_at(s@, i as int) is None,
        },
{
    let n = s.unicode_len();
    if s.get_char(i) != '{' {
        return None;
    }
    let ne = scan_run_end(s, i + 1);
    proof {
        lemma_run_end_bounds(s@, i + 1);
    }
    if ne == i + 1 {
        return None;
    }
    if ne < n && s.get_char(ne) == '}' {
        let name = s.substring_char(i + 1, ne).to_owned();
        return Some(Placeholder { name, fmt: None, end: ne + 1 });
    }
    if ne < n && s.get_char(ne) == ':' {
        let fe = scan_run_end(s, ne + 1);
        proof {
            lemma_run_end_bounds(s@, ne + 1);
        }
        if fe > ne + 1 && fe < n && s.get_char(fe) == '}' {
            let name = s.substring_char(i + 1, ne).to_owned();
            let fmt = s.substring_char(ne + 1, fe).to_owned();
            return Some(Placeholder { name, fmt: Some(fmt), end: fe + 1 });
        }
        return None;
    }
    None
}

} // verus!
