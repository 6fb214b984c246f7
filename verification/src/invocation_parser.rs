//! The invocation pattern matcher: a verb's invocation pattern (for example
//! `mv {newname}`) compiles to a sequence of literal and placeholder items;
//! matching a typed argument string against it yields a mapping from
//! placeholder name to captured text, or nothing when the fixed literal
//! items do not match.
//!
//! Matching is word-wise: the pattern's items line up with the argument's
//! whitespace-separated words, a literal item must equal its word, a
//! placeholder captures its word, and a final placeholder captures all the
//! remaining words joined by single spaces.

use crate::placeholder::match_at;
use crate::placeholder::parse_at;
use crate::strings::str_eq;
use crate::tokenize::join_spaces;
use crate::tokenize::join_with_spaces;
use crate::tokenize::split_tokens;
use crate::tokenize::split_unquoted;
use vstd::prelude::*;
use vstd::string::StrSliceExecFns;

verus! {

/// One compiled pattern item.
#[derive(Debug, Clone)]
pub enum PatternItem {
    /// fixed text that an argument word must equal
    Lit(String),
    /// a placeholder that captures a word (or, last, the rest)
    Ph(String),
}

/// The ghost form of a pattern item.
pub ghost enum ItemView {
    Lit(Seq<char>),
    Ph(Seq<char>),
}

impl PatternItem {
    /// The ghost form of this item.
    pub open spec fn view_item(&self) -> ItemView {
        match self {
            PatternItem::Lit(s) => ItemView::Lit(s@),
            PatternItem::Ph(s) => ItemView::Ph(s@),
        }
    }
}

/// How one token of an invocation pattern compiles: a token that is exactly
/// one `{name}` placeholder becomes a capture, anything else stays literal.
pub open spec fn item_of_token(t: Seq<char>) -> ItemView {
    match match_at(t, 0) {
        Some(m) => if m.end == t.len() && m.fmt is None {
            ItemView::Ph(m.name)
        } else {
            ItemView::Lit(t)
        },
        None => ItemView::Lit(t),
    }
}

/// The compiled form of a whole invocation pattern.
pub open spec fn compile_spec(pattern: Seq<char>) -> Seq<ItemView> {
    split_tokens(pattern).map_values(|t: Seq<char>| item_of_token(t))
}

/// The mapping produced by matching the items from index `i` on against the
/// words from index `i` on, or `None` on a structural mismatch.
pub open spec fn match_from_spec(items: Seq<ItemView>, words: Seq<Seq<char>>, i: int) -> Option<
    Seq<(Seq<char>, Seq<char>)>,
>
    decreases items.len() - i,
{
    if i < 0 {
        None
    } else if i >= items.len() {
        if i >= words.len() {
            Some(seq![])
        } else {
            None
        }
    } else {
        match items[i] {
            ItemView::Lit(l) => {
                if i < words.len() && words[i] == l {
                    match_from_spec(items, words, i + 1)
                } else {
                    None
                }
            },
            ItemView::Ph(name) => {
                if i == items.len() - 1 {
                    if i < words.len() {
                        Some(seq![(name, join_spaces(words.skip(i)))])
                    } else {
                        None
                    }
                } else {
                    if i < words.len() {
                        match match_from_spec(items, words, i + 1) {
                            Some(m) => Some(seq![(name, words[i])] + m),
                            None => None,
                        }
                    } else {
                        None
                    }
                }
            },
        }
    }
}

/// The mapping an invocation pattern extracts from an argument string.
pub open spec fn parse_args_spec(items: Seq<ItemView>, args: Seq<char>) -> Option<
    Seq<(Seq<char>, Seq<char>)>,
> {
    match_from_spec(items, split_tokens(args), 0)
}

/// A compiled invocation pattern.
#[derive(Debug, Clone)]
pub struct InvocationParser {
    /// the pattern's items, in order
    pub items: Vec<PatternItem>,
}

impl InvocationParser {
    /// The ghost form of the compiled pattern.
    pub open spec fn items_view(&self) -> Seq<ItemView> {
        self.items@.map_values(|it: PatternItem| it.view_item())
    }

    /// Compiles an invocation pattern, matching `compile_spec`.
    pub fn new(invocation_pattern: &str) -> (r: InvocationParser)
        ensures
            r.items_view() == compile_spec(invocation_pattern@),
    {
        let tokens = split_unquoted(invocation_pattern);
        let ghost tokensv = tokens@.map_values(|t: String| t@);
        let mut items: Vec<PatternItem> = Vec::new();
        let mut i: usize = 0;
        while i < tokens.len()
            invariant
                0 <= i <= tokens.len(),
                tokensv == tokens@.map_values(|t: String| t@),
                tokensv == split_tokens(invocation_pattern@),
                items@.map_values(|it: PatternItem| it.view_item()) == tokensv.take(
                    i as int,
                ).map_values(|t: Seq<char>| item_of_token(t)),
            decreases tokens.len() - i,
        {
            let ghost prev = items@;
            let t = &tokens[i];
            let n = t.as_str().unicode_len();
            let item = if n == 0 {
                PatternItem::Lit(t.clone())
            } else {
                match parse_at(t.as_str(), 0) {
                    Some(ph) => {
                        if ph.fmt.is_none() && ph.end == n {
                            PatternItem::Ph(ph.name)
                        } else {
                            PatternItem::Lit(t.clone())
                        }
                    },
                    None => PatternItem::Lit(t.clone()),
                }
            };
            items.push(item);
            proof {
                assert(items@.map_values(|it: PatternItem| it.view_item()) =~= prev.map_values(
                    |it: PatternItem| it.view_item(),
                ).push(items@.last().view_item()));
                assert(tokensv.take((i + 1) as int).map_values(|t: Seq<char>| item_of_token(t))
                    =~= tokensv.take(i as int).map_values(|t: Seq<char>| item_of_token(t)).push(
                    item_of_token(tokensv[i as int]),
                ));
            }
            i += 1;
        }
        proof {
            assert(tokensv.take(tokens@.len() as int) =~= tokensv);
        }
        InvocationParser { items }
    }

    /// Matches an argument string, matching `parse_args_spec`: the extracted
    /// mapping on success, `None` when the fixed items do not match.
    pub fn parse(&self, args: &str) -> (r: Option<Vec<(String, String)>>)
        ensures
            ({
                let sr = parse_args_spec(self.items_view(), args@);
                match r {
                    Some(v) => sr == Some(
                        v@.map_values(|p: (String, String)| (p.0@, p.1@)),
                    ),
                    None => sr is None,
                }
            }),
    {
        let words = split_unquoted(args);
        let ghost itemsv = self.items_view();
        let ghost wordsv = words@.map_values(|t: String| t@);
        let mut out: Vec<(String, String)> = Vec::new();
        let mut i: usize = 0;
        while i < self.items.len()
            invariant
                0 <= i <= self.items@.len(),
                i <= words@.len(),
                itemsv == self.items_view(),
                wordsv == words@.map_values(|t: String| t@),
                wordsv == split_tokens(args@),
                itemsv.len() == self.items@.len(),
                wordsv.len() == words@.len(),
                match match_from_spec(itemsv, wordsv, i as int) {
                    Some(m) => match_from_spec(itemsv, wordsv, 0) == Some(
                        out@.map_values(|p: (String, String)| (p.0@, p.1@)) + m,
                    ),
                    None => match_from_spec(itemsv, wordsv, 0) is None,
                },
            decreases self.items@.len() - i,
        {
            let ghost prev = out@;
            match &self.items[i] {
                PatternItem::Lit(l) => {
                    if i < words.len() && str_eq(l.as_str(), words[i].as_str()) {
                        i += 1;
                    } else {
                        return None;
                    }
                },
                PatternItem::Ph(name) => {
                    if i == self.items.len() - 1 {
                        if i < words.len() {
                            let mut rest: Vec<String> = Vec::new();
                            let mut j = i;
                            while j < words.len()
                                invariant
                                    i <= j <= words@.len(),
                                    rest@ == words@.subrange(i as int, j as int),
                                decreases words@.len() - j,
                            {
                                rest.push(words[j].clone());
                                proof {
                                    assert(rest@ =~= words@.subrange(i as int, (j + 1) as int));
                                }
                                j += 1;
                            }
                            let joined = join_with_spaces(&rest);
                            proof {
                                assert(rest@.map_values(|t: String| t@) =~= wordsv.skip(i as int));
                            }
                            out.push((name.clone(), joined));
                            proof {
                                assert(out@.map_values(|p: (String, String)| (p.0@, p.1@)) =~= prev
                                    .map_values(|p: (String, String)| (p.0@, p.1@)) + seq![
                                    (
                                        out@.last().0@,
                                        out@.last().1@,
                                    ),
                                ]);
                            }
                            return Some(out);
                        } else {
                            return None;
                        }
                    } else {
                        if i < words.len() {
                            out.push((name.clone(), words[i].clone()));
                            proof {
                                assert(out@.map_values(|p: (String, String)| (p.0@, p.1@)) =~= prev
                                    .map_values(|p: (String, String)| (p.0@, p.1@)) + seq![
                                    (
                                        out@.last().0@,
                                        out@.last().1@,
                                    ),
                                ]);
                                let mi1 = match_from_spec(itemsv, wordsv, (i + 1) as int);
                                if mi1 is Some {
                                    assert(prev.map_values(|p: (String, String)| (p.0@, p.1@))
                                        + (seq![(out@.last().0@, out@.last().1@)] + mi1->Some_0)
                                        =~= out@.map_values(|p: (String, String)| (p.0@, p.1@))
                                        + mi1->Some_0);
                                }
                            }
                            i += 1;
                        } else {
                            return None;
                        }
                    }
                },
            }
        }
        if i == words.len() {
            proof {
                assert(out@.map_values(|p: (String, String)| (p.0@, p.1@)) + Seq::<
                    (Seq<char>, Seq<char>),
                >::empty() =~= out@.map_values(|p: (String, String)| (p.0@, p.1@)));
            }
            Some(out)
        } else {
            None
        }
    }
}

} // verus!
