//! Parsing of the command text a user types: `<name>[!]` optionally followed
//! by whitespace and free-form argument text, with an optional leading `:`.
//! Every string has a decomposition; an empty name is possible and is the
//! caller's concern.

use crate::tokenize::is_space;
use vstd::prelude::*;
use vstd::string::StrSliceExecFns;
use vstd::string::StringExecFns;

verus! {

/// The input with leading and trailing whitespace removed.
pub open spec fn trim_spec(s: Seq<char>) -> Seq<char>
    decreases s.len(),
{
    if s.len() > 0 && is_space(s[0]) {
        trim_spec(s.drop_first())
    } else if s.len() > 0 && is_space(s.last()) {
        trim_spec(s.drop_last())
    } else {
        s
    }
}

pub proof fn lemma_trim_spec(s: Seq<char>, a: int, b: int)
    requires
        0 <= a <= b <= s.len(),
        forall|j: int| 0 <= j < a ==> is_space(s[j]),
        forall|j: int| b <= j < s.len() ==> is_space(s[j]),
        a < b ==> !is_space(s[a]) && !is_space(s[b - 1]),
    ensures
        trim_spec(s) == s.subrange(a, b),
    decreases s.len(),
{
    if s.len() > 0 && is_space(s[0]) {
        if a == 0 && b == 0 {
            assert(forall|j: int| 0 <= j < s.drop_first().len() ==> is_space(
                #[trigger] s.drop_first()[j],
            ));
            lemma_trim_spec(s.drop_first(), 0, 0);
            assert(s.subrange(0, 0) =~= s.drop_first().subrange(0, 0));
        } else {
            assert(a >= 1);
            lemma_trim_spec(s.drop_first(), a - 1, b - 1);
            assert(s.drop_first().subrange(a - 1, b - 1) =~= s.subrange(a, b));
        }
    } else if s.len() > 0 && is_space(s.last()) {
        assert(b < s.len());
        lemma_trim_spec(s.drop_last(), a, b);
        assert(s.drop_last().subrange(a, b) =~= s.subrange(a, b));
    } else {
        assert(a == 0);
        assert(b == s.len());
        assert(s.subrange(a, b) =~= s);
    }
}

/// Whether a character ends the name part: the bang or whitespace.
pub open spec fn is_name_stop(c: char) -> bool {
    c == '!' || is_space(c)
}

/// The first index at or after `i` holding a character that ends the name.
pub open spec fn name_end(s: Seq<char>, i: int) -> int
    decreases s.len() - i,
{
    if !(0 <= i < s.len()) {
        i
    } else if is_name_stop(s[i]) {
        i
    } else {
        name_end(s, i + 1)
    }
}

pub proof fn lemma_name_end_at(s: Seq<char>, i: int, k: int)
    requires
        0 <= i <= k <= s.len(),
        forall|j: int| i <= j < k ==> !is_name_stop(s[j]),
        k < s.len() ==> is_name_stop(s[k]),
    ensures
        name_end(s, i) == k,
    decreases k - i,
{
    if i < k {
        lemma_name_end_at(s, i + 1, k);
    }
}

/// The first index at or after `i` holding a non-whitespace character.
pub open spec fn skip_ws(s: Seq<char>, i: int) -> int
    decreases s.len() - i,
{
    if 0 <= i < s.len() && is_space(s[i]) {
        skip_ws(s, i + 1)
    } else {
        i
    }
}

pub proof fn lemma_skip_ws_at(s: Seq<char>, i: int, k: int)
    requires
        0 <= i <= k <= s.len(),
        forall|j: int| i <= j < k ==> is_space(s[j]),
        k < s.len() ==> !is_space(s[k]),
    ensures
        skip_ws(s, i) == k,
    decreases k - i,
{
    if i < k {
        lemma_skip_ws_at(s, i + 1, k);
    }
}

/// A decomposed invocation: name, bang flag and raw argument text.
pub ghost struct InvocationView {
    pub name: Seq<char>,
    pub bang: bool,
    pub args: Option<Seq<char>>,
}

/// The decomposition of a raw typed string: trim it, drop one leading `:`,
/// take the name up to a `!` or whitespace, read the bang, skip whitespace,
/// and keep whatever follows as the argument text.
pub open spec fn parse_invocation_spec(raw: Seq<char>) -> InvocationView {
    let t0 = trim_spec(raw);
    let t = if t0.len() > 0 && t0[0] == ':' {
        t0.drop_first()
    } else {
        t0
    };
    let ne = name_end(t, 0);
    let bang = ne < t.len() && t[ne] == '!';
    let rs = skip_ws(
        t,
        if bang {
            ne + 1
        } else {
            ne
        },
    );
    InvocationView {
        name: t.subrange(0, ne),
        bang,
        args: if rs < t.len() {
            Some(t.subrange(rs, t.len() as int))
        } else {
            None
        },
    }
}

/// A user-typed command, split into its name, its bang modifier and its raw
/// argument text.
#[derive(Debug, Clone)]
pub struct VerbInvocation {
    pub name: String,
    pub bang: bool,
    pub args: Option<String>,
}

impl VerbInvocation {
    /// The ghost decomposition this value holds.
    pub open spec fn view_inv(&self) -> InvocationView {
        InvocationView {
            name: self.name@,
            bang: self.bang,
            args: match self.args {
                Some(a) => Some(a@),
                None => None,
            },
        }
    }

    /// Splits a raw typed string, matching `parse_invocation_spec`.
    pub fn parse(raw: &str) -> (r: VerbInvocation)
        ensures
            r.view_inv() == parse_invocation_spec(raw@),
    {
        let trimmed = trim(raw);
        let t0 = trimmed.as_str();
        let n0 = t0.unicode_len();
        let t: &str = if n0 > 0 && t0.get_char(0) == ':' {
            let r = t0.substring_char(1, n0);
            proof {
                assert(r@ =~= t0@.drop_first());
            }
            r
        } else {
            t0
        };
        let n = t.unicode_len();
        let mut ne: usize = 0;
        while ne < n && !name_stop_at(t, ne)
            invariant
                0 <= ne <= n,
                n == t@.len(),
                forall|j: int| 0 <= j < ne ==> !is_name_stop(t@[j]),
            decreases n - ne,
        {
            ne += 1;
        }
        proof {
            lemma_name_end_at(t@, 0, ne as int);
        }
        let name = t.substring_char(0, ne).to_owned();
        let bang = ne < n && t.get_char(ne) == '!';
        let mut rs: usize = if bang {
            ne + 1
        } else {
            ne
        };
        let ghost rs0 = rs as int;
        while rs < n && space_at(t, rs)
            invariant
                rs0 <= rs <= n,
                n == t@.len(),
                forall|j: int| rs0 <= j < rs ==> is_space(t@[j]),
            decreases n - rs,
        {
            rs += 1;
        }
        proof {
            lemma_skip_ws_at(t@, rs0, rs as int);
        }
        let args = if rs < n {
            Some(t.substring_char(rs, n).to_owned())
        } else {
            None
        };
        VerbInvocation { name, bang, args }
    }
}

/// Whether the character at `i` is whitespace.
fn space_at(s: &str, i: usize) -> (b: bool)
    requires
        i < s@.len(),
    ensures
        b == is_space(s@[i as int]),
{
    let c = s.get_char(i);
    c == ' ' || c == '\t' || c == '\n' || c == '\r'
}

/// Whether the character at `i` ends the name part.
fn name_stop_at(s: &str, i: usize) -> (b: bool)
    requires
        i < s@.len(),
    ensures
        b == is_name_stop(s@[i as int]),
{
    let c = s.get_char(i);
    c == '!' || c == ' ' || c == '\t' || c == '\n' || c == '\r'
}

/// Removes leading and trailing whitespace, matching `trim_spec`.
pub fn trim(s: &str) -> (r: String)
    ensures
        r@ == trim_spec(s@),
{
    let n = s.unicode_len();
    let mut a: usize = 0;
    while a < n && space_at(s, a)
        invariant
            0 <= a <= n,
            n == s@.len(),
            forall|j: int| 0 <= j < a ==> is_space(s@[j]),
        decreases n - a,
    {
        a += 1;
    }
    let mut b: usize = n;
    while b > a && space_at(s, b - 1)
        invariant
            a <= b <= n,
            n == s@.len(),
            forall|j: int| b <= j < n ==> is_space(s@[j]),
        decreases b,
    {
        b -= 1;
    }
    proof {
        lemma_trim_spec(s@, a as int, b as int);
    }
    s.substring_char(a, b).to_owned()
}

} // verus!
