//! The templating engine proper: gathers a selection, the other panel's
//! selection and the captured invocation values, and expands a verb's
//! execution pattern into a shell command string or a vector of discrete
//! arguments.
//!
//! A placeholder that resolves to nothing — an unknown name with no captured
//! value, or an other-panel name with no other panel — stays in the output
//! as its literal `{name}` text; an invalid format specifier becomes an
//! inline diagnostic. Expansion never fails.

use crate::invocation_parser::parse_args_spec;
use crate::invocation_parser::InvocationParser;
use crate::paths::dir_of;
use crate::paths::dir_of_spec;
use crate::paths::escape_for_shell;
use crate::paths::parent_of;
use crate::paths::parent_of_spec;
use crate::paths::path_join_spec;
use crate::paths::path_str_from;
use crate::paths::path_str_spec;
use crate::placeholder::lemma_match_at_bounds;
use crate::placeholder::match_at;
use crate::placeholder::parse_at;
use crate::selection::Selection;
use crate::selection::SelectionType;
use crate::strings::dec_str;
use crate::strings::str_eq;
use crate::strings::usize_to_string;
use crate::tokenize::join_spaces;
use crate::tokenize::join_with_spaces;
use crate::tokenize::split_tokens;
use crate::tokenize::split_unquoted;
use vstd::prelude::*;
use vstd::string::StrSliceExecFns;
use vstd::string::StringExecFns;

verus! {

/// The ghost context one expansion works in.
pub ghost struct Ctx {
    /// the selection's path
    pub path: Seq<char>,
    /// the selection's line number
    pub line: nat,
    /// whether the selection is itself a directory
    pub is_dir: bool,
    /// the other panel's path, when there are exactly two panels
    pub other: Option<Seq<char>>,
    /// the values captured from the invocation, when any were
    pub values: Option<Seq<(Seq<char>, Seq<char>)>>,
}

/// The nearest enclosing directory of the selection: itself when it is a
/// directory, else its parent.
pub open spec fn sel_dir(ctx: Ctx) -> Seq<char> {
    if ctx.is_dir {
        ctx.path
    } else {
        parent_of_spec(ctx.path)
    }
}

/// The first captured value under a name.
pub open spec fn lookup(vals: Seq<(Seq<char>, Seq<char>)>, name: Seq<char>) -> Option<Seq<char>>
    decreases vals.len(),
{
    if vals.len() == 0 {
        None
    } else if vals[0].0 == name {
        Some(vals[0].1)
    } else {
        lookup(vals.drop_first(), name)
    }
}

/// The diagnostic text standing in for an invalid format specifier.
pub open spec fn invalid_format_spec(f: Seq<char>) -> Seq<char> {
    "invalid format: \""@ + f + "\""@
}

/// What one placeholder resolves to, or `None` for literal passthrough.
///
/// Standard names resolve against the selection and the other panel and
/// ignore any format; any other name is looked up among the captured values,
/// whose format, when given, resolves the value as a path relative to the
/// selection's directory or parent — an unknown format becomes a diagnostic.
pub open spec fn raw_replacement(ctx: Ctx, name: Seq<char>, fmt: Option<Seq<char>>, escape: bool) -> Option<
    Seq<char>,
> {
    if name == "line"@ {
        Some(dec_str(ctx.line))
    } else if name == "file"@ {
        Some(path_str_spec(ctx.path, escape))
    } else if name == "directory"@ {
        Some(path_str_spec(sel_dir(ctx), escape))
    } else if name == "parent"@ {
        Some(path_str_spec(parent_of_spec(ctx.path), escape))
    } else if name == "other-panel-file"@ {
        match ctx.other {
            Some(p) => Some(path_str_spec(p, escape)),
            None => None,
        }
    } else if name == "other-panel-directory"@ {
        match ctx.other {
            Some(p) => Some(path_str_spec(dir_of_spec(p), escape)),
            None => None,
        }
    } else if name == "other-panel-parent"@ {
        match ctx.other {
            Some(p) => Some(path_str_spec(parent_of_spec(p), escape)),
            None => None,
        }
    } else {
        match ctx.values {
            None => None,
            Some(vals) => match lookup(vals, name) {
                None => None,
                Some(v) => match fmt {
                    None => Some(v),
                    Some(f) => if f == "path-from-directory"@ {
                        Some(path_join_spec(sel_dir(ctx), v))
                    } else if f == "path-from-parent"@ {
                        Some(path_join_spec(parent_of_spec(ctx.path), v))
                    } else {
                        Some(invalid_format_spec(f))
                    },
                },
            },
        }
    }
}

/// The text from index `i` on with every placeholder replaced: a resolved
/// placeholder becomes its replacement, an unresolved one stays literal, and
/// everything else passes through.
pub open spec fn expand_from(s: Seq<char>, i: int, ctx: Ctx, escape: bool) -> Seq<char>
    decreases s.len() - i,
    via expand_from_dec
{
    if !(0 <= i < s.len()) {
        seq![]
    } else {
        match match_at(s, i) {
            Some(m) => (match raw_replacement(ctx, m.name, m.fmt, escape) {
                Some(rep) => rep,
                None => s.subrange(i, m.end),
            }) + expand_from(s, m.end, ctx, escape),
            None => seq![s[i]] + expand_from(s, i + 1, ctx, escape),
        }
    }
}

#[via_fn]
proof fn expand_from_dec(s: Seq<char>, i: int, ctx: Ctx, escape: bool) {
    if 0 <= i < s.len() && match_at(s, i) is Some {
        lemma_match_at_bounds(s, i);
    }
}

/// A whole pattern with every placeholder replaced.
pub open spec fn expand_spec(s: Seq<char>, ctx: Ctx, escape: bool) -> Seq<char> {
    expand_from(s, 0, ctx, escape)
}

/// The shell command line a pattern expands to: escape-expand the whole
/// pattern, re-tokenize it with quote stripping, and join the tokens with
/// single spaces.
pub open spec fn shell_exec_spec(p: Seq<char>, ctx: Ctx) -> Seq<char> {
    join_spaces(split_tokens(expand_spec(p, ctx, true)))
}

/// The argument vector a pattern expands to: tokenize the raw pattern first,
/// then expand each token without escaping, so token boundaries come from
/// the verb author's quoting alone.
pub open spec fn exec_token_spec(p: Seq<char>, ctx: Ctx) -> Seq<Seq<char>> {
    split_tokens(p).map_values(|t: Seq<char>| expand_from(t, 0, ctx, false))
}

/// A temporary structure gathering selection and invocation parameters,
/// able to generate an executable string from a verb's execution pattern.
pub struct ExecutionStringBuilder<'b> {
    /// the current file selection
    pub sel: &'b Selection,
    /// the selection in the other panel, when there are exactly two
    pub other_file: Option<&'b String>,
    /// parsed arguments
    pub invocation_values: Option<Vec<(String, String)>>,
}

impl<'b> ExecutionStringBuilder<'b> {
    /// The ghost context this builder expands in.
    pub open spec fn ctx(&self) -> Ctx {
        Ctx {
            path: self.sel.path@,
            line: self.sel.line as nat,
            is_dir: self.sel.stype is Directory,
            other: match self.other_file {
                Some(p) => Some(p@),
                None => None,
            },
            values: match self.invocation_values {
                Some(v) => Some(v@.map_values(|pair: (String, String)| (pair.0@, pair.1@))),
                None => None,
            },
        }
    }

    /// A builder over a selection alone: no other panel, no captured values.
    pub fn from_selection(sel: &'b Selection) -> (r: Self)
        ensures
            r.sel == sel,
            r.other_file is None,
            r.invocation_values is None,
    {
        Self { sel, other_file: None, invocation_values: None }
    }

    /// A builder over a full invocation: the values come from matching the
    /// typed arguments against the verb's invocation pattern, when both are
    /// present.
    pub fn from_invocation(
        invocation_parser: &Option<InvocationParser>,
        sel: &'b Selection,
        other_file: &'b Option<String>,
        invocation_args: &Option<String>,
    ) -> (r: Self)
        ensures
            r.sel == sel,
            match other_file {
                Some(p) => r.other_file == Some(p),
                None => r.other_file is None,
            },
            ({
                let vals = match r.invocation_values {
                    Some(v) => Some(v@.map_values(|pair: (String, String)| (pair.0@, pair.1@))),
                    None => None,
                };
                match (invocation_parser, invocation_args) {
                    (Some(p), Some(a)) => vals == parse_args_spec(p.items_view(), a@),
                    _ => vals is None,
                }
            }),
    {
        let invocation_values = match (invocation_parser, invocation_args) {
            (Some(parser), Some(args)) => parser.parse(args.as_str()),
            _ => None,
        };
        Self {
            sel,
            other_file: match other_file {
                Some(p) => Some(p),
                None => None,
            },
            invocation_values,
        }
    }

    /// The selection's path.
    fn get_file(&self) -> (r: &str)
        ensures
            r@ == self.ctx().path,
    {
        self.sel.path.as_str()
    }

    /// The selection's nearest enclosing directory.
    fn get_directory(&self) -> (r: String)
        ensures
            r@ == sel_dir(self.ctx()),
    {
        match self.sel.stype {
            SelectionType::Directory => self.sel.path.as_str().to_owned(),
            _ => parent_of(self.sel.path.as_str()),
        }
    }

    /// The selection path's direct parent, or the path itself at the root.
    fn get_parent(&self) -> (r: String)
        ensures
            r@ == parent_of_spec(self.ctx().path),
    {
        parent_of(self.sel.path.as_str())
    }

    /// A path rendered for the command: escaped for the shell on request.
    fn path_to_string(&self, path: &str, escape: bool) -> (r: String)
        ensures
            r@ == path_str_spec(path@, escape),
    {
        if escape {
            escape_for_shell(path)
        } else {
            path.to_owned()
        }
    }

    /// The first captured value under a name, as `lookup` finds it.
    fn lookup_value(&self, name: &str) -> (r: Option<String>)
        requires
            self.invocation_values is Some,
        ensures
            ({
                let vals = self.ctx().values->Some_0;
                match r {
                    Some(v) => lookup(vals, name@) == Some(v@),
                    None => lookup(vals, name@) is None,
                }
            }),
    {
        let vals = match &self.invocation_values {
            Some(v) => v,
            None => {
                return None;
            },
        };
        let ghost valsv = self.ctx().values->Some_0;
        proof {
            assert(valsv.skip(0) =~= valsv);
        }
        let mut i: usize = 0;
        while i < vals.len()
            invariant
                0 <= i <= vals@.len(),
                valsv == vals@.map_values(|pair: (String, String)| (pair.0@, pair.1@)),
                valsv == self.ctx().values->Some_0,
                valsv.len() == vals@.len(),
                lookup(valsv, name@) == lookup(valsv.skip(i as int), name@),
            decreases vals@.len() - i,
        {
            if str_eq(vals[i].0.as_str(), name) {
                proof {
                    assert(valsv[i as int] == (vals@[i as int].0@, vals@[i as int].1@));
                    assert(valsv.skip(i as int)[0] == valsv[i as int]);
                    assert(valsv.skip(i as int).len() > 0);
                    assert(lookup(valsv.skip(i as int), name@) == Some(valsv[i as int].1));
                    assert(lookup(valsv, name@) == Some(vals@[i as int].1@));
                }
                let found = vals[i].1.clone();
                return Some(found);
            }
            proof {
                assert(valsv.skip(i as int).drop_first() =~= valsv.skip((i + 1) as int));
            }
            i += 1;
        }
        proof {
            assert(valsv.skip(vals@.len() as int) =~= Seq::<(Seq<char>, Seq<char>)>::empty());
        }
        None
    }

    /// What one parsed placeholder resolves to, as `raw_replacement` says;
    /// `None` asks the caller to keep the literal text.
    fn get_raw_capture_replacement(&self, name: &str, fmt: &Option<String>, escape: bool) -> (r:
        Option<String>)
        ensures
            ({
                let fv = match fmt {
                    Some(f) => Some(f@),
                    None => None,
                };
                match r {
                    Some(v) => raw_replacement(self.ctx(), name@, fv, escape) == Some(v@),
                    None => raw_replacement(self.ctx(), name@, fv, escape) is None,
                }
            }),
    {
        if str_eq(name, "line") {
            Some(usize_to_string(self.sel.line))
        } else if str_eq(name, "file") {
            Some(self.path_to_string(self.get_file(), escape))
        } else if str_eq(name, "directory") {
            let d = self.get_directory();
            Some(self.path_to_string(d.as_str(), escape))
        } else if str_eq(name, "parent") {
            let p = self.get_parent();
            Some(self.path_to_string(p.as_str(), escape))
        } else if str_eq(name, "other-panel-file") {
            match self.other_file {
                Some(p) => Some(self.path_to_string(p.as_str(), escape)),
                None => None,
            }
        } else if str_eq(name, "other-panel-directory") {
            match self.other_file {
                Some(p) => {
                    let d = dir_of(p.as_str());
                    Some(self.path_to_string(d.as_str(), escape))
                },
                None => None,
            }
        } else if str_eq(name, "other-panel-parent") {
            match self.other_file {
                Some(p) => {
                    let d = parent_of(p.as_str());
                    Some(self.path_to_string(d.as_str(), escape))
                },
                None => None,
            }
        } else {
            match &self.invocation_values {
                None => None,
                Some(_) => match self.lookup_value(name) {
                    None => None,
                    Some(v) => match fmt {
                        None => Some(v),
                        Some(f) => {
                            if str_eq(f.as_str(), "path-from-directory") {
                                let d = self.get_directory();
                                Some(path_str_from(d.as_str(), v.as_str()))
                            } else if str_eq(f.as_str(), "path-from-parent") {
                                let d = self.get_parent();
                                Some(path_str_from(d.as_str(), v.as_str()))
                            } else {
                                let mut msg = String::new();
                                msg.append("invalid format: \"");
                                msg.append(f.as_str());
                                msg.append("\"");
                                proof {
                                    assert(msg@ =~= invalid_format_spec(f@));
                                }
                                Some(msg)
                            }
                        },
                    },
                },
            }
        }
    }

    /// Expands every placeholder in a string, matching `expand_spec`.
    fn expand_str(&self, s: &str, escape: bool) -> (r: String)
        ensures
            r@ == expand_spec(s@, self.ctx(), escape),
    {
        let n = s.unicode_len();
        let mut out = String::new();
        let mut i: usize = 0;
        while i < n
            invariant
                0 <= i <= n,
                n == s@.len(),
                expand_spec(s@, self.ctx(), escape) == out@ + expand_from(
                    s@,
                    i as int,
                    self.ctx(),
                    escape,
                ),
            decreases n - i,
        {
            let ghost prev = out@;
            match parse_at(s, i) {
                Some(ph) => {
                    proof {
                        lemma_match_at_bounds(s@, i as int);
                    }
                    match self.get_raw_capture_replacement(ph.name.as_str(), &ph.fmt, escape) {
                        Some(rep) => out.append(rep.as_str()),
                        None => out.append(s.substring_char(i, ph.end)),
                    }
                    i = ph.end;
                },
                None => {
                    out.append(s.substring_char(i, i + 1));
                    proof {
                        assert(s@.subrange(i as int, i + 1 as int) =~= seq![s@[i as int]]);
                    }
                    i += 1;
                },
            }
        }
        out
    }

    /// Builds a shell-compatible command line, with escaping: expands the
    /// pattern with escaping on, re-tokenizes the result stripping quotes,
    /// and joins the tokens with single spaces.
    pub fn shell_exec_string(&self, exec_pattern: &str) -> (r: String)
        ensures
            r@ == shell_exec_spec(exec_pattern@, self.ctx()),
    {
        let replaced = self.expand_str(exec_pattern, true);
        let tokens = split_unquoted(replaced.as_str());
        join_with_spaces(&tokens)
    }

    /// Builds the vector of arguments to hand a process directly: tokenizes
    /// the raw pattern, then expands each token without escaping.
    pub fn exec_token(&self, exec_pattern: &str) -> (r: Vec<String>)
        ensures
            r@.map_values(|t: String| t@) == exec_token_spec(exec_pattern@, self.ctx()),
    {
        let tokens = split_unquoted(exec_pattern);
        let ghost tokensv = tokens@.map_values(|t: String| t@);
        let mut out: Vec<String> = Vec::new();
        let mut i: usize = 0;
        while i < tokens.len()
            invariant
                0 <= i <= tokens@.len(),
                tokensv == tokens@.map_values(|t: String| t@),
                tokensv == split_tokens(exec_pattern@),
                out@.map_values(|t: String| t@) == tokensv.take(i as int).map_values(
                    |t: Seq<char>| expand_from(t, 0, self.ctx(), false),
                ),
            decreases tokens@.len() - i,
        {
            let ghost prev = out@;
            out.push(self.expand_str(tokens[i].as_str(), false));
            proof {
                assert(out@.map_values(|t: String| t@) =~= prev.map_values(|t: String| t@).push(
                    out@.last()@,
                ));
                assert(tokensv.take((i + 1) as int).map_values(
                    |t: Seq<char>| expand_from(t, 0, self.ctx(), false),
                ) =~= tokensv.take(i as int).map_values(
                    |t: Seq<char>| expand_from(t, 0, self.ctx(), false),
                ).push(expand_from(tokensv[i as int], 0, self.ctx(), false)));
            }
            i += 1;
        }
        proof {
            assert(tokensv.take(tokens@.len() as int) =~= tokensv);
        }
        out
    }
}

} // verus!
