//! The catalog of built-in commands a verb may resolve to, with
//! lookup-by-name and name rendering. The two directions invert each other:
//! `name` after a successful lookup gives back the looked-up string.

use crate::strings::str_eq;
use vstd::prelude::*;
use vstd::string::StringExecFns;

verus! {

/// A built-in command.
#[derive(Clone, Copy, Debug, PartialEq, Eq, Structural)]
pub enum Internal {
    Back,
    Focus,
    Help,
    LineDown,
    LineUp,
    OpenStay,
    Parent,
    Quit,
}

/// The canonical name of each built-in command.
pub open spec fn name_spec(i: Internal) -> Seq<char> {
    match i {
        Internal::Back => "back"@,
        Internal::Focus => "focus"@,
        Internal::Help => "help"@,
        Internal::LineDown => "line_down"@,
        Internal::LineUp => "line_up"@,
        Internal::OpenStay => "open_stay"@,
        Internal::Parent => "parent"@,
        Internal::Quit => "quit"@,
    }
}

/// The built-in command a name denotes, if any.
pub open spec fn from_name_spec(n: Seq<char>) -> Option<Internal> {
    if n == "back"@ {
        Some(Internal::Back)
    } else if n == "focus"@ {
        Some(Internal::Focus)
    } else if n == "help"@ {
        Some(Internal::Help)
    } else if n == "line_down"@ {
        Some(Internal::LineDown)
    } else if n == "line_up"@ {
        Some(Internal::LineUp)
    } else if n == "open_stay"@ {
        Some(Internal::OpenStay)
    } else if n == "parent"@ {
        Some(Internal::Parent)
    } else if n == "quit"@ {
        Some(Internal::Quit)
    } else {
        None
    }
}

/// Reveals every catalog name literal.
proof fn reveal_names()
    ensures
        "back"@.len() == 4,
        "focus"@.len() == 5,
        "help"@.len() == 4,
        "line_down"@.len() == 9,
        "line_up"@.len() == 7,
        "open_stay"@.len() == 9,
        "parent"@.len() == 6,
        "quit"@.len() == 4,
        "back"@[0] == 'b',
        "help"@[0] == 'h',
        "quit"@[0] == 'q',
        "line_down"@[0] == 'l',
        "open_stay"@[0] == 'o',
{
    reveal_strlit("back");
    reveal_strlit("focus");
    reveal_strlit("help");
    reveal_strlit("line_down");
    reveal_strlit("line_up");
    reveal_strlit("open_stay");
    reveal_strlit("parent");
    reveal_strlit("quit");
}

/// Looking a rendered name up finds the same built-in again.
pub proof fn lemma_name_round_trip(i: Internal)
    ensures
        from_name_spec(name_spec(i)) == Some(i),
{
    reveal_names();
}

/// A configuration error: the named command is not in the catalog.
#[derive(Debug, Clone)]
pub enum ConfError {
    UnknownInternal { name: String },
}

impl Internal {
    /// The canonical name, matching `name_spec`.
    pub fn name(&self) -> (r: &'static str)
        ensures
            r@ == name_spec(*self),
    {
        match self {
            Internal::Back => "back",
            Internal::Focus => "focus",
            Internal::Help => "help",
            Internal::LineDown => "line_down",
            Internal::LineUp => "line_up",
            Internal::OpenStay => "open_stay",
            Internal::Parent => "parent",
            Internal::Quit => "quit",
        }
    }

    /// Looks a name up in the catalog, matching `from_name_spec`; an unknown
    /// name comes back inside the error.
    pub fn try_from(name: &str) -> (r: Result<Internal, ConfError>)
        ensures
            match r {
                Ok(i) => from_name_spec(name@) == Some(i),
                Err(e) => from_name_spec(name@) is None && (e matches ConfError::UnknownInternal {
                    name: n,
                } && n@ == name@),
            },
    {
        if str_eq(name, "back") {
            Ok(Internal::Back)
        } else if str_eq(name, "focus") {
            Ok(Internal::Focus)
        } else if str_eq(name, "help") {
            Ok(Internal::Help)
        } else if str_eq(name, "line_down") {
            Ok(Internal::LineDown)
        } else if str_eq(name, "line_up") {
            Ok(Internal::LineUp)
        } else if str_eq(name, "open_stay") {
            Ok(Internal::OpenStay)
        } else if str_eq(name, "parent") {
            Ok(Internal::Parent)
        } else if str_eq(name, "quit") {
            Ok(Internal::Quit)
        } else {
            Err(ConfError::UnknownInternal { name: name.to_owned() })
        }
    }
}

} // verus!
