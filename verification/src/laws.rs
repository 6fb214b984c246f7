//! The engine's stated laws, proved against the spec functions that the
//! public contracts use.

use crate::execution_builder::exec_token_spec;
use crate::execution_builder::expand_from;
use crate::execution_builder::expand_spec;
use crate::execution_builder::invalid_format_spec;
use crate::execution_builder::lookup;
use crate::execution_builder::raw_replacement;
use crate::execution_builder::shell_exec_spec;
use crate::execution_builder::Ctx;
use crate::paths::path_str_spec;
use crate::placeholder::is_ph_char;
use crate::placeholder::lemma_match_at_bounds;
use crate::placeholder::lemma_run_end_at;
use crate::placeholder::lemma_run_end_bounds;
use crate::placeholder::match_at;
use crate::placeholder::run_end;
use crate::placeholder::PhMatch;
use crate::strings::dec_str;
use crate::tokenize::join_spaces;
use crate::tokenize::split_from;
use crate::tokenize::split_tokens;
use vstd::prelude::*;

verus! {

/// The placeholder names that resolve against the selection and the other
/// panel, rather than against captured invocation values.
pub open spec fn is_standard_name(name: Seq<char>) -> bool {
    ||| name == "line"@
    ||| name == "file"@
    ||| name == "directory"@
    ||| name == "parent"@
    ||| name == "other-panel-file"@
    ||| name == "other-panel-directory"@
    ||| name == "other-panel-parent"@
}

/// Whether no character of `t` opens a placeholder.
pub open spec fn no_brace(t: Seq<char>) -> bool {
    forall|j: int| 0 <= j < t.len() ==> t[j] != '{'
}

proof fn lemma_no_brace_expand_from(s: Seq<char>, i: int, ctx: Ctx, escape: bool)
    requires
        0 <= i <= s.len(),
        no_brace(s),
    ensures
        expand_from(s, i, ctx, escape) == s.subrange(i, s.len() as int),
    decreases s.len() - i,
{
    if i < s.len() {
        assert(match_at(s, i) is None);
        lemma_no_brace_expand_from(s, i + 1, ctx, escape);
        assert(seq![s[i]] + s.subrange(i + 1, s.len() as int) =~= s.subrange(i, s.len() as int));
    } else {
        assert(s.subrange(i, s.len() as int) =~= Seq::<char>::empty());
    }
}

proof fn lemma_split_no_brace(s: Seq<char>, i: int, cur: Option<Seq<char>>, inq: bool)
    requires
        no_brace(s),
        match cur {
            Some(t) => no_brace(t),
            None => true,
        },
    ensures
        forall|k: int|
            0 <= k < split_from(s, i, cur, inq).len() ==> no_brace(
                #[trigger] split_from(s, i, cur, inq)[k],
            ),
    decreases s.len() - i,
{
    let res = split_from(s, i, cur, inq);
    if 0 <= i < s.len() {
        let c = s[i];
        if c == '"' {
            let t0 = match cur {
                Some(t) => t,
                None => seq![],
            };
            lemma_split_no_brace(s, i + 1, Some(t0), !inq);
            let rec = split_from(s, i + 1, Some(t0), !inq);
            assert(res == rec);
            assert forall|k: int| 0 <= k < res.len() implies no_brace(res[k]) by {
                assert(res[k] == rec[k]);
            }
        } else if crate::tokenize::is_space(c) && !inq {
            lemma_split_no_brace(s, i + 1, None, false);
            let rec = split_from(s, i + 1, None, false);
            match cur {
                Some(t) => {
                    assert(res == seq![t] + rec);
                    assert forall|k: int| 0 <= k < res.len() implies no_brace(res[k]) by {
                        if k == 0 {
                            assert(res[0] == t);
                        } else {
                            assert(res[k] == rec[k - 1]);
                        }
                    }
                },
                None => {},
            }
        } else {
            let t2 = match cur {
                Some(t) => t.push(c),
                None => seq![c],
            };
            assert(no_brace(t2));
            lemma_split_no_brace(s, i + 1, Some(t2), inq);
            let rec = split_from(s, i + 1, Some(t2), inq);
            assert(res == rec);
            assert forall|k: int| 0 <= k < res.len() implies no_brace(res[k]) by {
                assert(res[k] == rec[k]);
            }
        }
    } else {
        match cur {
            Some(t) => {
                assert forall|k: int| 0 <= k < res.len() implies no_brace(res[k]) by {
                    assert(res[k] == t);
                }
            },
            None => {},
        }
    }
}

/// A pattern with no placeholder opener expands to itself, so the
/// shell-string mode returns the pattern's tokens joined back with single
/// spaces and the argument-vector mode returns exactly those tokens.
pub proof fn lemma_no_placeholder_modes(p: Seq<char>, ctx: Ctx)
    requires
        no_brace(p),
    ensures
        shell_exec_spec(p, ctx) == join_spaces(split_tokens(p)),
        exec_token_spec(p, ctx) == split_tokens(p),
{
    lemma_no_brace_expand_from(p, 0, ctx, true);
    assert(p.subrange(0, p.len() as int) =~= p);
    lemma_split_no_brace(p, 0, None, false);
    assert forall|k: int| 0 <= k < split_tokens(p).len() implies expand_from(
        #[trigger] split_tokens(p)[k],
        0,
        ctx,
        false,
    ) == split_tokens(p)[k] by {
        let t = split_tokens(p)[k];
        lemma_no_brace_expand_from(t, 0, ctx, false);
        assert(t.subrange(0, t.len() as int) =~= t);
    }
    assert(exec_token_spec(p, ctx) =~= split_tokens(p));
}

/// How a pattern consisting of exactly one `{name}` token expands: to the
/// name's replacement when it resolves, and to the literal token when not.
proof fn lemma_token_expand(name: Seq<char>, ctx: Ctx, escape: bool)
    requires
        name.len() > 0,
        forall|j: int| 0 <= j < name.len() ==> is_ph_char(name[j]),
    ensures
        ({
            let s = seq!['{'] + name + seq!['}'];
            expand_spec(s, ctx, escape) == (match raw_replacement(ctx, name, None, escape) {
                Some(rep) => rep,
                None => s,
            })
        }),
{
    let s = seq!['{'] + name + seq!['}'];
    assert(s[0] == '{');
    assert(s[1 + name.len() as int] == '}');
    assert forall|j: int| 1 <= j < 1 + name.len() implies is_ph_char(s[j]) by {
        assert(s[j] == name[j - 1]);
    }
    lemma_run_end_at(s, 1, 1 + name.len() as int);
    assert(match_at(s, 0) == Some(
        PhMatch { name: s.subrange(1, 1 + name.len() as int), fmt: None, end: s.len() as int },
    ));
    assert(s.subrange(1, 1 + name.len() as int) =~= name);
    assert(expand_from(s, s.len() as int, ctx, escape) == Seq::<char>::empty());
    match raw_replacement(ctx, name, None, escape) {
        Some(rep) => {
            assert(expand_from(s, 0, ctx, escape) == rep + expand_from(
                s,
                s.len() as int,
                ctx,
                escape,
            ));
            assert(expand_spec(s, ctx, escape) =~= rep);
        },
        None => {
            assert(s.subrange(0, s.len() as int) =~= s);
            assert(expand_from(s, 0, ctx, escape) == s + expand_from(
                s,
                s.len() as int,
                ctx,
                escape,
            ));
            assert(expand_spec(s, ctx, escape) =~= s);
        },
    }
}

/// How a pattern consisting of exactly one `{name:format}` token expands.
proof fn lemma_token_expand_fmt(name: Seq<char>, fmt: Seq<char>, ctx: Ctx, escape: bool)
    requires
        name.len() > 0,
        fmt.len() > 0,
        forall|j: int| 0 <= j < name.len() ==> is_ph_char(name[j]),
        forall|j: int| 0 <= j < fmt.len() ==> is_ph_char(fmt[j]),
    ensures
        ({
            let s = seq!['{'] + name + seq![':'] + fmt + seq!['}'];
            expand_spec(s, ctx, escape) == (match raw_replacement(ctx, name, Some(fmt), escape) {
                Some(rep) => rep,
                None => s,
            })
        }),
{
    let s = seq!['{'] + name + seq![':'] + fmt + seq!['}'];
    let ne = 1 + name.len() as int;
    let fe = ne + 1 + fmt.len() as int;
    assert(s[0] == '{');
    assert(s[ne] == ':');
    assert(s[fe] == '}');
    assert forall|j: int| 1 <= j < ne implies is_ph_char(s[j]) by {
        assert(s[j] == name[j - 1]);
    }
    assert forall|j: int| ne + 1 <= j < fe implies is_ph_char(s[j]) by {
        assert(s[j] == fmt[j - ne - 1]);
    }
    lemma_run_end_at(s, 1, ne);
    lemma_run_end_at(s, ne + 1, fe);
    assert(match_at(s, 0) == Some(
        PhMatch {
            name: s.subrange(1, ne),
            fmt: Some(s.subrange(ne + 1, fe)),
            end: s.len() as int,
        },
    ));
    assert(s.subrange(1, ne) =~= name);
    assert(s.subrange(ne + 1, fe) =~= fmt);
    assert(expand_from(s, s.len() as int, ctx, escape) == Seq::<char>::empty());
    match raw_replacement(ctx, name, Some(fmt), escape) {
        Some(rep) => {
            assert(expand_from(s, 0, ctx, escape) == rep + expand_from(
                s,
                s.len() as int,
                ctx,
                escape,
            ));
            assert(expand_spec(s, ctx, escape) =~= rep);
        },
        None => {
            assert(s.subrange(0, s.len() as int) =~= s);
            assert(expand_from(s, 0, ctx, escape) == s + expand_from(
                s,
                s.len() as int,
                ctx,
                escape,
            ));
            assert(expand_spec(s, ctx, escape) =~= s);
        },
    }
}

/// `{file}` always expands to the selection's path: shell-escaped when
/// escaping is on, verbatim when it is off, whatever the path holds.
pub proof fn lemma_file_expansion(ctx: Ctx, escape: bool)
    ensures
        raw_replacement(ctx, "file"@, None, escape) == Some(path_str_spec(ctx.path, escape)),
        expand_spec("{file}"@, ctx, escape) == path_str_spec(ctx.path, escape),
{
    reveal_strlit("file");
    reveal_strlit("line");
    reveal_strlit("{file}");
    assert(("file"@)[0] != ("line"@)[0]);
    assert("file"@ != "line"@);
    assert forall|j: int| 0 <= j < "file"@.len() implies is_ph_char(("file"@)[j]) by {
        if j == 0 {
        } else if j == 1 {
        } else if j == 2 {
        } else {
            assert(j == 3);
        }
    }
    lemma_token_expand("file"@, ctx, escape);
    assert("{file}"@ =~= seq!['{'] + "file"@ + seq!['}']);
}

/// `{line}` always expands to the selection's line number in decimal,
/// including line 0.
pub proof fn lemma_line_expansion(ctx: Ctx, escape: bool)
    ensures
        raw_replacement(ctx, "line"@, None, escape) == Some(dec_str(ctx.line)),
        expand_spec("{line}"@, ctx, escape) == dec_str(ctx.line),
{
    reveal_strlit("line");
    reveal_strlit("{line}");
    assert forall|j: int| 0 <= j < "line"@.len() implies is_ph_char(("line"@)[j]) by {
        if j == 0 {
        } else if j == 1 {
        } else if j == 2 {
        } else {
            assert(j == 3);
        }
    }
    lemma_token_expand("line"@, ctx, escape);
    assert("{line}"@ =~= seq!['{'] + "line"@ + seq!['}']);
}

/// An unknown placeholder name with no captured value stays in the output
/// as its literal `{name}` text.
pub proof fn lemma_unknown_name_left_literal(ctx: Ctx, name: Seq<char>, escape: bool)
    requires
        name.len() > 0,
        forall|j: int| 0 <= j < name.len() ==> is_ph_char(name[j]),
        !is_standard_name(name),
        match ctx.values {
            Some(vals) => lookup(vals, name) is None,
            None => true,
        },
    ensures
        expand_spec(seq!['{'] + name + seq!['}'], ctx, escape) == seq!['{'] + name + seq!['}'],
{
    assert(raw_replacement(ctx, name, None, escape) is None);
    lemma_token_expand(name, ctx, escape);
}

/// An invalid format specifier on a resolved value becomes an inline
/// diagnostic that carries the offending specifier, never a path.
pub proof fn lemma_invalid_format_diagnostic(ctx: Ctx, name: Seq<char>, f: Seq<char>, escape: bool)
    requires
        !is_standard_name(name),
        ctx.values is Some,
        lookup(ctx.values->Some_0, name) is Some,
        f != "path-from-directory"@,
        f != "path-from-parent"@,
    ensures
        raw_replacement(ctx, name, Some(f), escape) == Some(invalid_format_spec(f)),
        invalid_format_spec(f).len() == 18 + f.len(),
        invalid_format_spec(f).subrange(17, 17 + f.len() as int) == f,
{
    reveal_strlit("invalid format: \"");
    reveal_strlit("\"");
    assert(invalid_format_spec(f).subrange(17, 17 + f.len() as int) =~= f);
}

proof fn lemma_split_quoted_tail(s: Seq<char>, i: int, cur: Seq<char>)
    requires
        0 <= i < s.len(),
        s.last() == '"',
        forall|j: int| i <= j < s.len() - 1 ==> s[j] != '"',
    ensures
        split_from(s, i, Some(cur), true) == seq![cur + s.subrange(i, s.len() - 1)],
    decreases s.len() - i,
{
    if i == s.len() - 1 {
        assert(split_from(s, i, Some(cur), true) == split_from(s, i + 1, Some(cur), false));
        assert(split_from(s, i + 1, Some(cur), false) == seq![cur]);
        assert(cur + s.subrange(i, s.len() - 1) =~= cur);
    } else {
        let c = s[i];
        assert(c != '"');
        lemma_split_quoted_tail(s, i + 1, cur.push(c));
        assert(cur.push(c) + s.subrange(i + 1, s.len() - 1) =~= cur + s.subrange(i, s.len() - 1));
    }
}

/// A double-quoted pattern whose content holds no quote of its own is
/// exactly one token, its quotes stripped, its whitespace kept.
pub proof fn lemma_quoted_pattern_tokens(q: Seq<char>)
    requires
        forall|j: int| 0 <= j < q.len() ==> q[j] != '"',
    ensures
        split_tokens(seq!['"'] + q + seq!['"']) == seq![q],
{
    let s = seq!['"'] + q + seq!['"'];
    assert(s[0] == '"');
    assert(s.last() == '"');
    assert(split_tokens(s) == split_from(s, 1, Some(seq![]), true));
    assert forall|j: int| 1 <= j < s.len() - 1 implies s[j] != '"' by {
        assert(s[j] == q[j - 1]);
    }
    lemma_split_quoted_tail(s, 1, seq![]);
    assert(seq![] + s.subrange(1, s.len() - 1) =~= q);
}

proof fn lemma_run_end_shift(s: Seq<char>, d: int, i: int)
    requires
        0 <= d <= i <= s.len(),
    ensures
        run_end(s.skip(d), i - d) == run_end(s, i) - d,
    decreases s.len() - i,
{
    if i < s.len() {
        assert(s.skip(d)[i - d] == s[i]);
        if is_ph_char(s[i]) {
            lemma_run_end_shift(s, d, i + 1);
        }
    }
}

proof fn lemma_match_at_shift(s: Seq<char>, d: int, i: int)
    requires
        0 <= d <= i < s.len(),
    ensures
        match_at(s.skip(d), i - d) == (match match_at(s, i) {
            Some(m) => Some(PhMatch { name: m.name, fmt: m.fmt, end: m.end - d }),
            None => None::<PhMatch>,
        }),
{
    let s2 = s.skip(d);
    assert(s2[i - d] == s[i]);
    if s[i] == '{' {
        lemma_run_end_shift(s, d, i + 1);
        lemma_run_end_bounds(s, i + 1);
        let ne = run_end(s, i + 1);
        if ne < s.len() {
            assert(s2[ne - d] == s[ne]);
        }
        if ne > i + 1 && ne < s.len() && s[ne] == '}' {
            assert(s2.subrange(i + 1 - d, ne - d) =~= s.subrange(i + 1, ne));
        }
        if ne > i + 1 && ne < s.len() && s[ne] == ':' {
            lemma_run_end_shift(s, d, ne + 1);
            lemma_run_end_bounds(s, ne + 1);
            let fe = run_end(s, ne + 1);
            if fe < s.len() {
                assert(s2[fe - d] == s[fe]);
            }
            if fe > ne + 1 && fe < s.len() && s[fe] == '}' {
                assert(s2.subrange(i + 1 - d, ne - d) =~= s.subrange(i + 1, ne));
                assert(s2.subrange(ne + 1 - d, fe - d) =~= s.subrange(ne + 1, fe));
            }
        }
    }
}

proof fn lemma_expand_shift(s: Seq<char>, d: int, i: int, ctx: Ctx, escape: bool)
    requires
        0 <= d <= i <= s.len(),
    ensures
        expand_from(s.skip(d), i - d, ctx, escape) == expand_from(s, i, ctx, escape),
    decreases s.len() - i,
{
    let s2 = s.skip(d);
    if i < s.len() {
        lemma_match_at_shift(s, d, i);
        match match_at(s, i) {
            Some(m) => {
                lemma_match_at_bounds(s, i);
                lemma_expand_shift(s, d, m.end, ctx, escape);
                assert(s2.subrange(i - d, m.end - d) =~= s.subrange(i, m.end));
            },
            None => {
                assert(s2[i - d] == s[i]);
                lemma_expand_shift(s, d, i + 1, ctx, escape);
            },
        }
    }
}

proof fn lemma_run_end_push(s: Seq<char>, c: char, i: int)
    requires
        0 <= i <= s.len(),
        is_ph_char(c),
    ensures
        run_end(s.push(c), i) == (if run_end(s, i) == s.len() {
            (s.len() + 1) as int
        } else {
            run_end(s, i)
        }),
    decreases s.len() - i,
{
    let s2 = s.push(c);
    lemma_run_end_bounds(s, i);
    if i < s.len() {
        assert(s2[i] == s[i]);
        if is_ph_char(s[i]) {
            lemma_run_end_push(s, c, i + 1);
            assert(run_end(s, i) == run_end(s, i + 1));
            assert(run_end(s2, i) == run_end(s2, i + 1));
        } else {
            assert(run_end(s, i) == i);
            assert(run_end(s2, i) == i);
        }
    } else {
        assert(s2[i] == c);
        assert(run_end(s, i) == i);
        assert(run_end(s2, i + 1) == i + 1);
        assert(run_end(s2, i) == run_end(s2, i + 1));
    }
}

proof fn lemma_match_at_push_quote(s: Seq<char>, i: int)
    requires
        0 <= i < s.len(),
    ensures
        match_at(s.push('"'), i) == match_at(s, i),
{
    let s2 = s.push('"');
    assert(s2[i] == s[i]);
    if s[i] == '{' {
        assert(is_ph_char('"'));
        lemma_run_end_push(s, '"', i + 1);
        lemma_run_end_bounds(s, i + 1);
        let ne = run_end(s, i + 1);
        let ne2 = run_end(s2, i + 1);
        if ne < s.len() {
            assert(ne2 == ne);
            assert(s2[ne] == s[ne]);
            if ne > i + 1 && s[ne] == '}' {
                assert(s2.subrange(i + 1, ne) =~= s.subrange(i + 1, ne));
            }
            if ne > i + 1 && s[ne] == ':' {
                lemma_run_end_push(s, '"', ne + 1);
                lemma_run_end_bounds(s, ne + 1);
                let fe = run_end(s, ne + 1);
                let fe2 = run_end(s2, ne + 1);
                if fe < s.len() {
                    assert(fe2 == fe);
                    assert(s2[fe] == s[fe]);
                    if fe > ne + 1 && s[fe] == '}' {
                        assert(s2.subrange(i + 1, ne) =~= s.subrange(i + 1, ne));
                        assert(s2.subrange(ne + 1, fe) =~= s.subrange(ne + 1, fe));
                    }
                } else {
                    assert(fe2 == s.len() + 1);
                    assert(!(fe2 < s2.len()));
                }
            }
        } else {
            assert(ne2 == s.len() + 1);
            assert(!(ne2 < s2.len()));
        }
    }
}

proof fn lemma_expand_push_quote(s: Seq<char>, i: int, ctx: Ctx, escape: bool)
    requires
        0 <= i <= s.len(),
    ensures
        expand_from(s.push('"'), i, ctx, escape) == expand_from(s, i, ctx, escape) + seq!['"'],
    decreases s.len() - i,
{
    let s2 = s.push('"');
    if i == s.len() {
        assert(s2[i] == '"');
        assert(match_at(s2, i) is None);
        assert(expand_from(s2, i + 1, ctx, escape) == Seq::<char>::empty());
        assert(expand_from(s2, i, ctx, escape) == seq!['"'] + Seq::<char>::empty());
        assert(expand_from(s, i, ctx, escape) == Seq::<char>::empty());
        assert(seq!['"'] + Seq::<char>::empty() =~= Seq::<char>::empty() + seq!['"']);
    } else {
        lemma_match_at_push_quote(s, i);
        match match_at(s, i) {
            Some(m) => {
                lemma_match_at_bounds(s, i);
                lemma_expand_push_quote(s, m.end, ctx, escape);
                assert(s2.subrange(i, m.end) =~= s.subrange(i, m.end));
                let piece = match raw_replacement(ctx, m.name, m.fmt, escape) {
                    Some(rep) => rep,
                    None => s.subrange(i, m.end),
                };
                assert(expand_from(s2, i, ctx, escape) == piece + (expand_from(s, m.end, ctx, escape)
                    + seq!['"']));
                assert(piece + (expand_from(s, m.end, ctx, escape) + seq!['"']) =~= (piece
                    + expand_from(s, m.end, ctx, escape)) + seq!['"']);
            },
            None => {
                assert(s2[i] == s[i]);
                lemma_expand_push_quote(s, i + 1, ctx, escape);
                assert(seq![s[i]] + (expand_from(s, i + 1, ctx, escape) + seq!['"']) =~= (seq![
                    s[i],
                ] + expand_from(s, i + 1, ctx, escape)) + seq!['"']);
            },
        }
    }
}

/// In argument-vector mode a double-quoted segment is exactly one argument,
/// and its placeholders expand inside that one argument, whatever whitespace
/// the expansion brings in.
pub proof fn lemma_quoted_segment_vector(q: Seq<char>, ctx: Ctx)
    requires
        forall|j: int| 0 <= j < q.len() ==> q[j] != '"',
    ensures
        exec_token_spec(seq!['"'] + q + seq!['"'], ctx) == seq![expand_spec(q, ctx, false)],
{
    let s = seq!['"'] + q + seq!['"'];
    lemma_quoted_pattern_tokens(q);
    assert(exec_token_spec(s, ctx) =~= seq![expand_spec(q, ctx, false)]);
}

/// In shell-string mode a double-quoted segment comes out as one token too:
/// the quotes are stripped and the expanded content, spaces and all, stands
/// alone, provided neither the segment nor its expansion holds a quote.
pub proof fn lemma_quoted_segment_shell(q: Seq<char>, ctx: Ctx)
    requires
        forall|j: int| 0 <= j < q.len() ==> q[j] != '"',
        forall|j: int|
            0 <= j < expand_spec(q, ctx, true).len() ==> expand_spec(q, ctx, true)[j] != '"',
    ensures
        shell_exec_spec(seq!['"'] + q + seq!['"'], ctx) == expand_spec(q, ctx, true),
{
    let s = seq!['"'] + q + seq!['"'];
    let u = seq!['"'] + q;
    let e = expand_spec(q, ctx, true);
    assert(s =~= u.push('"'));
    lemma_expand_push_quote(u, 0, ctx, true);
    assert(u[0] == '"');
    assert(match_at(u, 0) is None);
    lemma_expand_shift(u, 1, 1, ctx, true);
    assert(u.skip(1) =~= q);
    assert(expand_from(u, 0, ctx, true) == seq!['"'] + expand_from(u, 1, ctx, true));
    assert(expand_from(u, 1, ctx, true) == e);
    assert(expand_spec(s, ctx, true) == (seq!['"'] + e) + seq!['"']);
    assert((seq!['"'] + e) + seq!['"'] =~= seq!['"'] + e + seq!['"']);
    lemma_quoted_pattern_tokens(e);
    assert(split_tokens(expand_spec(s, ctx, true)) == seq![e]);
    assert(join_spaces(seq![e]) == e);
}

} // verus!
