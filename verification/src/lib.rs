//! A small templating and invocation-parsing engine for "verbs": user-authored
//! command definitions such as `vi {file}` or `/bin/e -a {arg} -e {file}`.
//!
//! Given a verb's execution pattern, a selected filesystem entry, the optional
//! selection of a second panel, and the values captured from the user's typed
//! arguments, the engine produces either a single shell-safe command string or
//! a vector of discrete arguments ready for direct process spawning.

pub mod execution_builder;
pub mod internal;
pub mod internal_execution;
pub mod invocation_parser;
pub mod laws;
pub mod paths;
pub mod selection;
pub mod placeholder;
pub mod strings;
pub mod tokenize;
pub mod verb_invocation;
