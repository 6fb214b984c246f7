//! A verb execution backed by a built-in command: the command, a bang flag,
//! and an optional argument. When an argument is present the value renders
//! back to `:name[!] arg`, and that text re-parses to an equal value.

use crate::internal::from_name_spec;
use crate::internal::name_spec;
use crate::internal::ConfError;
use crate::internal::Internal;
use crate::strings::str_eq;
use crate::tokenize::is_space;
use crate::verb_invocation::is_name_stop;
use crate::verb_invocation::lemma_name_end_at;
use crate::verb_invocation::lemma_skip_ws_at;
use crate::verb_invocation::lemma_trim_spec;
use crate::verb_invocation::parse_invocation_spec;
use crate::verb_invocation::trim_spec;
use crate::verb_invocation::VerbInvocation;
use vstd::prelude::*;
use vstd::string::StringExecFns;

verus! {

/// A verb execution definition based on a built-in command.
#[derive(Debug, Clone)]
pub struct InternalExecution {
    /// the built-in command to run
    pub internal: Internal,
    /// whether to open the result in a new panel instead of the current one
    pub bang: bool,
    /// the argument text, when the invocation carried any
    pub arg: Option<String>,
}

impl PartialEq for InternalExecution {
    fn eq(&self, other: &Self) -> (r: bool) {
        let same_arg = match (&self.arg, &other.arg) {
            (Some(a), Some(b)) => str_eq(a.as_str(), b.as_str()),
            (None, None) => true,
            _ => false,
        };
        self.internal == other.internal && self.bang == other.bang && same_arg
    }
}

impl vstd::std_specs::cmp::PartialEqSpecImpl for InternalExecution {
    open spec fn obeys_eq_spec() -> bool {
        true
    }

    open spec fn eq_spec(&self, other: &Self) -> bool {
        &&& self.internal == other.internal
        &&& self.bang == other.bang
        &&& match (self.arg, other.arg) {
            (Some(a), Some(b)) => a@ == b@,
            (None, None) => true,
            _ => false,
        }
    }
}

/// The rendered form of an internal execution carrying an argument:
/// `:name`, the bang marker when set, a single space, and the argument.
pub open spec fn desc_code_spec(internal: Internal, bang: bool, arg: Seq<char>) -> Seq<char> {
    seq![':'] + name_spec(internal) + (if bang {
        seq!['!']
    } else {
        Seq::<char>::empty()
    }) + seq![' '] + arg
}

impl InternalExecution {
    /// Wraps a built-in command with no bang and no argument.
    pub fn from_internal(internal: Internal) -> (r: Self)
        ensures
            r.internal == internal,
            !r.bang,
            r.arg is None,
    {
        Self { internal, bang: false, arg: None }
    }

    /// Wraps a built-in command with the given bang and no argument.
    pub fn from_internal_bang(internal: Internal, bang: bool) -> (r: Self)
        ensures
            r.internal == internal,
            r.bang == bang,
            r.arg is None,
    {
        Self { internal, bang, arg: None }
    }

    /// Parses a raw invocation string: the name must be in the catalog, and
    /// bang and argument text carry over verbatim.
    pub fn try_from(invocation_str: &str) -> (r: Result<Self, ConfError>)
        ensures
            ({
                let iv = parse_invocation_spec(invocation_str@);
                match r {
                    Ok(ie) => {
                        &&& from_name_spec(iv.name) == Some(ie.internal)
                        &&& ie.bang == iv.bang
                        &&& match (ie.arg, iv.args) {
                            (Some(a), Some(b)) => a@ == b,
                            (None, None) => true,
                            _ => false,
                        }
                    },
                    Err(e) => from_name_spec(iv.name) is None && (e matches ConfError::UnknownInternal {
                        name: n,
                    } && n@ == iv.name),
                }
            }),
    {
        let invocation = VerbInvocation::parse(invocation_str);
        let internal = match Internal::try_from(invocation.name.as_str()) {
            Ok(i) => i,
            Err(e) => {
                return Err(e);
            },
        };
        Ok(Self { internal, bang: invocation.bang, arg: invocation.args })
    }

    /// Renders `:name[!] arg`; defined exactly when an argument is present.
    pub fn as_desc_code(&self) -> (r: Option<String>)
        ensures
            match (r, &self.arg) {
                (Some(s), Some(a)) => s@ == desc_code_spec(self.internal, self.bang, a@),
                (None, None) => true,
                _ => false,
            },
    {
        match &self.arg {
            None => None,
            Some(arg) => {
                let mut s = String::new();
                s.append(":");
                s.append(self.internal.name());
                if self.bang {
                    s.append("!");
                }
                s.append(" ");
                s.append(arg.as_str());
                proof {
                    reveal_strlit(":");
                    reveal_strlit("!");
                    reveal_strlit(" ");
                    assert(s@ =~= desc_code_spec(self.internal, self.bang, arg@));
                }
                Some(s)
            },
        }
    }
}

/// Every catalog name is non-empty and free of bangs and whitespace.
proof fn lemma_name_wf(i: Internal)
    ensures
        name_spec(i).len() > 0,
        forall|j: int| 0 <= j < name_spec(i).len() ==> !is_name_stop(#[trigger] name_spec(i)[j]),
{
    reveal_strlit("back");
    reveal_strlit("focus");
    reveal_strlit("help");
    reveal_strlit("line_down");
    reveal_strlit("line_up");
    reveal_strlit("open_stay");
    reveal_strlit("parent");
    reveal_strlit("quit");
}

/// Rendering an internal execution that carries an argument and re-parsing
/// the text gives back the same command, bang and argument, provided the
/// argument is non-empty and starts and ends with non-whitespace.
pub proof fn lemma_desc_code_round_trip(internal: Internal, bang: bool, arg: Seq<char>)
    requires
        arg.len() > 0,
        !is_space(arg[0]),
        !is_space(arg.last()),
    ensures
        ({
            let iv = parse_invocation_spec(desc_code_spec(internal, bang, arg));
            &&& from_name_spec(iv.name) == Some(internal)
            &&& iv.bang == bang
            &&& iv.args == Some(arg)
        }),
{
    let desc = desc_code_spec(internal, bang, arg);
    lemma_name_wf(internal);
    crate::internal::lemma_name_round_trip(internal);
    let name = name_spec(internal);
    let bl: int = if bang {
        1
    } else {
        0
    };
    assert(desc.len() == name.len() + bl + 2 + arg.len());
    assert(desc[0] == ':');
    assert(desc.last() == arg.last());
    lemma_trim_spec(desc, 0, desc.len() as int);
    assert(trim_spec(desc) =~= desc);
    let t = desc.drop_first();
    assert(t.len() == name.len() + bl + 1 + arg.len());
    assert(forall|j: int| 0 <= j < name.len() ==> t[j] == name[j]);
    assert(t[name.len() as int] == (if bang {
        '!'
    } else {
        ' '
    }));
    lemma_name_end_at(t, 0, name.len() as int);
    assert(t.subrange(0, name.len() as int) =~= name);
    assert(t[name.len() + bl] == ' ');
    assert(t[name.len() + bl + 1] == arg[0]);
    lemma_skip_ws_at(t, name.len() + bl, name.len() + bl + 1);
    assert(t.subrange(name.len() + bl + 1, t.len() as int) =~= arg);
}

} // verus!
