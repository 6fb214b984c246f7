//! Quote-aware whitespace tokenization of execution patterns, and the
//! space-separated join used to assemble a shell command line.
//!
//! A token is a maximal run of non-whitespace content; a double-quoted
//! segment keeps its whitespace and counts as part of one token, and the
//! quote characters themselves are stripped. An unterminated quote runs to
//! the end of the string.

use vstd::prelude::*;
use vstd::string::StrSliceExecFns;
use vstd::string::StringExecFns;

verus! {

/// Whether a character separates tokens (outside quotes).
pub open spec fn is_space(c: char) -> bool {
    c == ' ' || c == '\t' || c == '\n' || c == '\r'
}

/// The tokens of `s` from index `i` on, given the token built so far
/// (`None` when no token is open) and whether a quote is open.
pub open spec fn split_from(s: Seq<char>, i: int, cur: Option<Seq<char>>, inq: bool) -> Seq<
    Seq<char>,
>
    decreases s.len() - i,
{
    if !(0 <= i < s.len()) {
        match cur {
            Some(t) => seq![t],
            None => seq![],
        }
    } else {
        let c = s[i];
        if c == '"' {
            split_from(
                s,
                i + 1,
                Some(
                    match cur {
                        Some(t) => t,
                        None => seq![],
                    },
                ),
                !inq,
            )
        } else if is_space(c) && !inq {
            match cur {
                Some(t) => seq![t] + split_from(s, i + 1, None, false),
                None => split_from(s, i + 1, None, false),
            }
        } else {
            split_from(
                s,
                i + 1,
                Some(
                    match cur {
                        Some(t) => t.push(c),
                        None => seq![c],
                    },
                ),
                inq,
            )
        }
    }
}

/// The tokens of a whole string.
pub open spec fn split_tokens(s: Seq<char>) -> Seq<Seq<char>> {
    split_from(s, 0, None, false)
}

/// Splits a string into tokens at unquoted whitespace, stripping the
/// double-quote characters and keeping quoted whitespace inside its token.
pub fn split_unquoted(s: &str) -> (r: Vec<String>)
    ensures
        r@.map_values(|t: String| t@) == split_tokens(s@),
{
    let n = s.unicode_len();
    let mut out: Vec<String> = Vec::new();
    let mut cur: Option<String> = None;
    let mut inq: bool = false;
    let mut i: usize = 0;
    while i < n
        invariant
            n == s@.len(),
            0 <= i <= n,
            split_tokens(s@) == out@.map_values(|t: String| t@) + split_from(
                s@,
                i as int,
                match cur {
                    Some(t) => Some(t@),
                    None => None,
                },
                inq,
            ),
        decreases n - i,
    {
        let ghost prev_out = out@;
        let c = s.get_char(i);
        if c == '"' {
            cur = Some(
                match cur {
                    Some(t) => t,
                    None => String::new(),
                },
            );
            inq = !inq;
        } else if (c == ' ' || c == '\t' || c == '\n' || c == '\r') && !inq {
            match cur {
                Some(t) => {
                    out.push(t);
                    cur = None;
                    proof {
                        assert(out@.map_values(|t: String| t@) =~= prev_out.map_values(
                            |t: String| t@,
                        ).push(out@.last()@));
                    }
                },
                None => {},
            }
        } else {
            let mut t = match cur {
                Some(t) => t,
                None => String::new(),
            };
            t.append(s.substring_char(i, i + 1));
            proof {
                assert(t@ =~= match cur {
                    Some(t0) => t0@.push(s@[i as int]),
                    None => seq![s@[i as int]],
                });
            }
            cur = Some(t);
        }
        i += 1;
    }
    match cur {
        Some(t) => {
            let ghost prev_out = out@;
            out.push(t);
            proof {
                assert(out@.map_values(|t: String| t@) =~= prev_out.map_values(|t: String| t@)
                    + seq![out@.last()@]);
            }
        },
        None => {
            proof {
                assert(out@.map_values(|t: String| t@) =~= out@.map_values(|t: String| t@)
                    + Seq::<Seq<char>>::empty());
            }
        },
    }
    out
}

/// The tokens joined with a single space between each pair.
pub open spec fn join_spaces(ts: Seq<Seq<char>>) -> Seq<char>
    decreases ts.len(),
{
    if ts.len() == 0 {
        seq![]
    } else if ts.len() == 1 {
        ts[0]
    } else {
        join_spaces(ts.drop_last()) + seq![' '] + ts.last()
    }
}

/// Joins tokens with single spaces, matching `join_spaces`.
pub fn join_with_spaces(ts: &Vec<String>) -> (r: String)
    ensures
        r@ == join_spaces(ts@.map_values(|t: String| t@)),
{
    let ghost tv = ts@.map_values(|t: String| t@);
    let mut r = String::new();
    let mut i: usize = 0;
    while i < ts.len()
        invariant
            0 <= i <= ts.len(),
            tv == ts@.map_values(|t: String| t@),
            tv.len() == ts.len(),
            r@ == join_spaces(tv.take(i as int)),
        decreases ts.len() - i,
    {
        if i != 0 {
            r.append(" ");
            proof {
                reveal_strlit(" ");
            }
        }
        r.append(ts[i].as_str());
        proof {
            assert(tv.take((i + 1) as int).drop_last() =~= tv.take(i as int));
            assert(tv.take((i + 1) as int).last() == tv[i as int]);
            if i == 0 {
                assert(r@ =~= join_spaces(tv.take(1)));
            }
        }
        i += 1;
    }
    proof {
        assert(tv.take(ts@.len() as int) =~= tv);
    }
    r
}

} // verus!
