use sensei::expand::ExpandedPath;
use sensei::output::{check_output, generate, render, Destination, OutputError, WriteMode};

fn file(exists: bool, append: bool, force: bool) -> Destination {
    Destination::File { path: "targets.ninja".to_string(), exists, append, force }
}

#[test]
fn error_output_exists() {
    match check_output(&file(true, false, false)) {
        Err(OutputError::OutputExists { path }) => assert_eq!(path, "targets.ninja"),
        Ok(_) => panic!("an existing file must be refused"),
    }
}

#[test]
fn option_force() {
    assert!(matches!(check_output(&file(true, false, true)), Ok(WriteMode::Overwrite)));
}

#[test]
fn force_takes_precedence_over_append() {
    assert!(matches!(check_output(&file(true, true, true)), Ok(WriteMode::Overwrite)));
}

#[test]
fn append_to_existing_file() {
    assert!(matches!(check_output(&file(true, true, false)), Ok(WriteMode::Append)));
}

#[test]
fn new_file_is_created() {
    assert!(matches!(check_output(&file(false, false, false)), Ok(WriteMode::Create)));
}

#[test]
fn stdout_is_always_writable() {
    assert!(matches!(check_output(&Destination::Stdout), Ok(WriteMode::Stdout)));
}

#[test]
fn refused_output_generates_nothing() {
    let files = vec![ExpandedPath { path: "this/is/test.c".to_string(), depth: 0 }];
    assert!(generate(&file(true, false, false), &files, &vec![], &None).is_err());
    match generate(&file(false, false, false), &files, &vec![], &None) {
        Ok((mode, text)) => {
            assert_eq!(mode, WriteMode::Create);
            assert_eq!(text, "build test: cc this/is/test.c\n");
        }
        Err(_) => panic!("a new file may be written"),
    }
}

#[test]
fn render_ends_each_line() {
    assert_eq!(render(&vec!["a".to_string(), "b".to_string()]), "a\nb\n");
    assert_eq!(render(&vec![]), "");
}
