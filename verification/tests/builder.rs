use verb_engine::execution_builder::ExecutionStringBuilder;
use verb_engine::selection::Selection;
use verb_engine::selection::SelectionType;

fn check_build_execution_from_sel(
    exec_pattern: &str,
    path: &str,
    replacements: Vec<(&str, &str)>,
    chk_exec_token: Vec<&str>,
) {
    let sel = Selection {
        path: path.to_string(),
        line: 0,
        stype: SelectionType::File,
        is_exe: false,
    };
    let mut builder = ExecutionStringBuilder::from_selection(&sel);
    let mut map = Vec::new();
    for (k, v) in replacements {
        map.push((k.to_owned(), v.to_owned()));
    }
    builder.invocation_values = Some(map);
    let exec_token = builder.exec_token(exec_pattern);
    assert_eq!(exec_token, chk_exec_token);
}

#[test]
fn test_build_execution() {
    check_build_execution_from_sel("vi {file}", "/home/dys/dev", vec![], vec!["vi", "/home/dys/dev"]);
    check_build_execution_from_sel(
        "/bin/e.exe -a {arg} -e {file}",
        "expérimental & 试验性",
        vec![("arg", "deux mots")],
        vec!["/bin/e.exe", "-a", "deux mots", "-e", "expérimental & 试验性"],
    );
    check_build_execution_from_sel(
        "xterm -e \"kak {file}\"",
        "/path/to/file",
        vec![],
        vec!["xterm", "-e", "kak /path/to/file"],
    );
}

fn file_sel(path: &str, line: usize, stype: SelectionType) -> Selection {
    Selection { path: path.to_string(), line, stype, is_exe: false }
}

#[test]
fn shell_mode_quoted_group_is_one_token() {
    let sel = file_sel("/path/to/file", 0, SelectionType::File);
    let builder = ExecutionStringBuilder::from_selection(&sel);
    assert_eq!(builder.shell_exec_string("xterm -e \"kak {file}\""), "xterm -e kak /path/to/file");
}

#[test]
fn shell_mode_escapes_spaces_and_metacharacters() {
    let sel = file_sel("/home/a b", 0, SelectionType::File);
    let builder = ExecutionStringBuilder::from_selection(&sel);
    assert_eq!(builder.shell_exec_string("vi {file}"), "vi /home/a\\ b");

    let sel2 = file_sel("expérimental & 试验性", 0, SelectionType::File);
    let builder2 = ExecutionStringBuilder::from_selection(&sel2);
    assert_eq!(builder2.shell_exec_string("vi {file}"), "vi expérimental\\ \\&\\ 试验性");
}

#[test]
fn vector_mode_keeps_file_verbatim() {
    let sel = file_sel("/home/a b", 0, SelectionType::File);
    let builder = ExecutionStringBuilder::from_selection(&sel);
    assert_eq!(builder.exec_token("vi {file}"), vec!["vi", "/home/a b"]);
}

#[test]
fn line_expands_in_decimal_including_zero() {
    let sel = file_sel("/tmp/x", 0, SelectionType::File);
    let builder = ExecutionStringBuilder::from_selection(&sel);
    assert_eq!(builder.exec_token("edit +{line} {file}"), vec!["edit", "+0", "/tmp/x"]);

    let sel2 = file_sel("/tmp/x", 407, SelectionType::File);
    let builder2 = ExecutionStringBuilder::from_selection(&sel2);
    assert_eq!(builder2.exec_token("edit +{line}"), vec!["edit", "+407"]);
    assert_eq!(builder2.shell_exec_string("edit +{line}"), "edit +407");
}

#[test]
fn no_placeholder_patterns_tokenize_unchanged() {
    let sel = file_sel("/tmp/x", 0, SelectionType::File);
    let builder = ExecutionStringBuilder::from_selection(&sel);
    assert_eq!(builder.exec_token("ls -l  --color"), vec!["ls", "-l", "--color"]);
    assert_eq!(builder.shell_exec_string("ls -l  --color"), "ls -l --color");
}

#[test]
fn unknown_placeholder_stays_literal() {
    let sel = file_sel("/tmp/x", 0, SelectionType::File);
    let builder = ExecutionStringBuilder::from_selection(&sel);
    assert_eq!(builder.exec_token("echo {nope}"), vec!["echo", "{nope}"]);
    assert_eq!(builder.shell_exec_string("echo {nope}"), "echo {nope}");
}

#[test]
fn invalid_format_becomes_diagnostic() {
    let sel = file_sel("/tmp/x", 0, SelectionType::File);
    let mut builder = ExecutionStringBuilder::from_selection(&sel);
    builder.invocation_values = Some(vec![("arg".to_string(), "v".to_string())]);
    assert_eq!(builder.exec_token("{arg:bogus}"), vec!["invalid format: \"bogus\""]);
}

#[test]
fn format_resolves_value_against_directory_and_parent() {
    let sel = file_sel("/home/dys/notes.txt", 0, SelectionType::File);
    let mut builder = ExecutionStringBuilder::from_selection(&sel);
    builder.invocation_values = Some(vec![("arg".to_string(), "sub/x".to_string())]);
    assert_eq!(builder.exec_token("{arg:path-from-directory}"), vec!["/home/dys/sub/x"]);
    assert_eq!(builder.exec_token("{arg:path-from-parent}"), vec!["/home/dys/sub/x"]);

    let dir_sel = file_sel("/home/dys", 0, SelectionType::Directory);
    let mut builder2 = ExecutionStringBuilder::from_selection(&dir_sel);
    builder2.invocation_values = Some(vec![("arg".to_string(), "x".to_string())]);
    assert_eq!(builder2.exec_token("{arg:path-from-directory}"), vec!["/home/dys/x"]);
    assert_eq!(builder2.exec_token("{arg:path-from-parent}"), vec!["/home/x"]);
}

#[test]
fn directory_and_parent_of_selection() {
    let dir_sel = file_sel("/home/dys/dev", 0, SelectionType::Directory);
    let builder = ExecutionStringBuilder::from_selection(&dir_sel);
    assert_eq!(builder.exec_token("cd {directory}"), vec!["cd", "/home/dys/dev"]);
    assert_eq!(builder.exec_token("cd {parent}"), vec!["cd", "/home/dys"]);

    let f_sel = file_sel("/home/dys/dev", 0, SelectionType::File);
    let builder2 = ExecutionStringBuilder::from_selection(&f_sel);
    assert_eq!(builder2.exec_token("cd {directory}"), vec!["cd", "/home/dys"]);

    let root_sel = file_sel("/", 0, SelectionType::Directory);
    let builder3 = ExecutionStringBuilder::from_selection(&root_sel);
    assert_eq!(builder3.exec_token("cd {parent}"), vec!["cd", "/"]);
}

#[test]
fn other_panel_placeholders() {
    let sel = file_sel("/tmp/x", 0, SelectionType::File);
    let other = "/mnt/data/report.pdf".to_string();
    let mut builder = ExecutionStringBuilder::from_selection(&sel);
    builder.other_file = Some(&other);
    assert_eq!(builder.exec_token("cp {file} {other-panel-file}"), vec![
        "cp",
        "/tmp/x",
        "/mnt/data/report.pdf",
    ]);
    assert_eq!(builder.exec_token("cp {file} {other-panel-directory}"), vec![
        "cp",
        "/tmp/x",
        "/mnt/data",
    ]);
    assert_eq!(builder.exec_token("cp {file} {other-panel-parent}"), vec![
        "cp",
        "/tmp/x",
        "/mnt/data",
    ]);
}

#[test]
fn other_panel_absent_leaves_placeholder_literal() {
    let sel = file_sel("/tmp/x", 0, SelectionType::File);
    let builder = ExecutionStringBuilder::from_selection(&sel);
    assert_eq!(builder.exec_token("cp {file} {other-panel-file}"), vec![
        "cp",
        "/tmp/x",
        "{other-panel-file}",
    ]);
}

#[test]
fn other_panel_path_written_as_directory_is_its_own_directory() {
    let sel = file_sel("/tmp/x", 0, SelectionType::File);
    let other = "/mnt/data/".to_string();
    let mut builder = ExecutionStringBuilder::from_selection(&sel);
    builder.other_file = Some(&other);
    assert_eq!(builder.exec_token("{other-panel-directory}"), vec!["/mnt/data/"]);
    assert_eq!(builder.exec_token("{other-panel-parent}"), vec!["/mnt/data"]);
}

#[test]
fn missing_key_in_invocation_values_stays_literal() {
    let sel = file_sel("/tmp/x", 0, SelectionType::File);
    let mut builder = ExecutionStringBuilder::from_selection(&sel);
    builder.invocation_values = Some(vec![("a".to_string(), "b".to_string())]);
    assert_eq!(builder.exec_token("echo {c}"), vec!["echo", "{c}"]);
}

#[test]
fn empty_pattern_yields_nothing() {
    let sel = file_sel("/tmp/x", 0, SelectionType::File);
    let builder = ExecutionStringBuilder::from_selection(&sel);
    assert_eq!(builder.exec_token(""), Vec::<String>::new());
    assert_eq!(builder.shell_exec_string(""), "");
}

#[test]
fn malformed_placeholders_stay_literal() {
    let sel = file_sel("/tmp/x", 0, SelectionType::File);
    let builder = ExecutionStringBuilder::from_selection(&sel);
    assert_eq!(builder.exec_token("a{}b {file"), vec!["a{}b", "{file"]);
    assert_eq!(builder.exec_token("{file:a:b}"), vec!["{file:a:b}"]);
}

#[test]
fn standard_names_ignore_invocation_values() {
    let sel = file_sel("/tmp/x", 3, SelectionType::File);
    let mut builder = ExecutionStringBuilder::from_selection(&sel);
    builder.invocation_values = Some(vec![("file".to_string(), "shadowed".to_string())]);
    assert_eq!(builder.exec_token("{file} {line}"), vec!["/tmp/x", "3"]);
}
