use verb_engine::execution_builder::ExecutionStringBuilder;
use verb_engine::internal::ConfError;
use verb_engine::internal::Internal;
use verb_engine::internal_execution::InternalExecution;
use verb_engine::invocation_parser::InvocationParser;
use verb_engine::selection::Selection;
use verb_engine::selection::SelectionType;
use verb_engine::verb_invocation::VerbInvocation;

#[test]
fn invocation_splits_name_bang_and_args() {
    let v = VerbInvocation::parse(":focus! ~");
    assert_eq!(v.name, "focus");
    assert!(v.bang);
    assert_eq!(v.args.as_deref(), Some("~"));

    let v2 = VerbInvocation::parse("cp {file} {other-panel-directory}");
    assert_eq!(v2.name, "cp");
    assert!(!v2.bang);
    assert_eq!(v2.args.as_deref(), Some("{file} {other-panel-directory}"));

    let v3 = VerbInvocation::parse("  quit  ");
    assert_eq!(v3.name, "quit");
    assert!(!v3.bang);
    assert!(v3.args.is_none());
}

#[test]
fn invocation_tolerates_empty_name() {
    let v = VerbInvocation::parse("!");
    assert_eq!(v.name, "");
    assert!(v.bang);
    assert!(v.args.is_none());

    let v2 = VerbInvocation::parse("");
    assert_eq!(v2.name, "");
    assert!(!v2.bang);
    assert!(v2.args.is_none());
}

#[test]
fn internal_lookup_round_trips() {
    let back = Internal::try_from("back").unwrap();
    assert_eq!(back.name(), "back");
    let focus = Internal::try_from("focus").unwrap();
    assert_eq!(focus.name(), "focus");
    let err = Internal::try_from("no_such_verb");
    assert!(matches!(err, Err(ConfError::UnknownInternal { .. })));
    match Internal::try_from("no_such_verb") {
        Err(ConfError::UnknownInternal { name }) => assert_eq!(name, "no_such_verb"),
        _ => panic!("expected an unknown-internal error"),
    }
}

#[test]
fn internal_execution_constructors() {
    let a = InternalExecution::from_internal(Internal::Quit);
    assert_eq!(a.internal, Internal::Quit);
    assert!(!a.bang);
    assert!(a.arg.is_none());
    assert!(a.as_desc_code().is_none());

    let b = InternalExecution::from_internal_bang(Internal::Help, true);
    assert_eq!(b.internal, Internal::Help);
    assert!(b.bang);
    assert!(b.arg.is_none());
}

#[test]
fn desc_code_round_trips_through_the_parser() {
    let original = InternalExecution::try_from(":focus! ~").unwrap();
    assert_eq!(original.internal, Internal::Focus);
    assert!(original.bang);
    assert_eq!(original.arg.as_deref(), Some("~"));

    let code = original.as_desc_code().unwrap();
    assert_eq!(code, ":focus! ~");
    let reparsed = InternalExecution::try_from(&code).unwrap();
    assert!(reparsed == original);

    let plain = InternalExecution::try_from("open_stay some/rel path").unwrap();
    let code2 = plain.as_desc_code().unwrap();
    assert_eq!(code2, ":open_stay some/rel path");
    let reparsed2 = InternalExecution::try_from(&code2).unwrap();
    assert!(reparsed2 == plain);
}

#[test]
fn internal_execution_rejects_unknown_names() {
    let r = InternalExecution::try_from(":warp 9");
    assert!(matches!(r, Err(ConfError::UnknownInternal { .. })));
}

#[test]
fn invocation_pattern_extracts_values() {
    let parser = InvocationParser::new("{newname}");
    let map = parser.parse("newfile.txt").unwrap();
    assert_eq!(map, vec![("newname".to_string(), "newfile.txt".to_string())]);

    let rest = parser.parse("deux  mots").unwrap();
    assert_eq!(rest, vec![("newname".to_string(), "deux mots".to_string())]);

    assert!(parser.parse("").is_none());

    let two = InvocationParser::new("{a} {b}");
    let map2 = two.parse("x y").unwrap();
    assert_eq!(map2, vec![("a".to_string(), "x".to_string()), ("b".to_string(), "y".to_string())]);

    let lit = InvocationParser::new("to {dest}");
    assert!(lit.parse("from here").is_none());
    assert_eq!(lit.parse("to here").unwrap(), vec![("dest".to_string(), "here".to_string())]);
}

#[test]
fn from_invocation_feeds_captured_values() {
    let sel = Selection {
        path: "/tmp/x".to_string(),
        line: 0,
        stype: SelectionType::File,
        is_exe: false,
    };
    let parser = Some(InvocationParser::new("{newname}"));
    let other: Option<String> = None;
    let args = Some("two words".to_string());
    let builder = ExecutionStringBuilder::from_invocation(&parser, &sel, &other, &args);
    assert_eq!(builder.exec_token("mv {file} {newname}"), vec!["mv", "/tmp/x", "two words"]);

    let no_args: Option<String> = None;
    let builder2 = ExecutionStringBuilder::from_invocation(&parser, &sel, &other, &no_args);
    assert_eq!(builder2.exec_token("mv {file} {newname}"), vec!["mv", "/tmp/x", "{newname}"]);
}
