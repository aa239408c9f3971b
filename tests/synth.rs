use sensei::expand::ExpandedPath;
use sensei::output::{generate, Destination, WriteMode};
use sensei::synth::{extension, rule_for, synthesize, target_line, target_name, ExtMap, MasterTarget};

fn s(x: &str) -> String {
    x.to_string()
}

fn files(paths: &[&str]) -> Vec<ExpandedPath> {
    paths.iter().map(|p| ExpandedPath { path: s(p), depth: 0 }).collect()
}

fn text(paths: &[&str], rules: &ExtMap, master: Option<MasterTarget>) -> String {
    match generate(&Destination::Stdout, &files(paths), rules, &master) {
        Ok((mode, t)) => {
            assert_eq!(mode, WriteMode::Stdout);
            t
        }
        Err(_) => panic!("stdout is always writable"),
    }
}

#[test]
fn source_none() {
    assert_eq!(text(&[], &vec![], None), "");
}

#[test]
fn source_cli_single() {
    let path = "this/is/test.c";
    assert_eq!(text(&[path], &vec![], None), format!("build test: cc {path}\n"));
}

#[test]
fn source_stdin_single() {
    let path = "this/is/test.c";
    assert_eq!(text(&[path], &vec![], None), format!("build test: cc {path}\n"));
}

#[test]
fn source_cli_multiple() {
    let path1 = "this/is/test1.c";
    let path2 = "this/is/test2.c";
    assert_eq!(
        text(&[path1, path2], &vec![], None),
        format!("build test1: cc {path1}\nbuild test2: cc {path2}\n")
    );
}

#[test]
fn source_stdin_multiple() {
    let path1 = "this/is/test1.c";
    let path2 = "this/is/test2.c";
    assert_eq!(
        text(&[path1, path2], &vec![], None),
        format!("build test1: cc {path1}\nbuild test2: cc {path2}\n")
    );
}

#[test]
fn source_both_multiple() {
    let path1 = "this/is/test1.c";
    let path2 = "this/is/test2.c";
    assert_eq!(
        text(&[path1, path2], &vec![], None),
        format!("build test1: cc {path1}\nbuild test2: cc {path2}\n")
    );
}

#[test]
fn option_rule() {
    let path = "this/is/test.c";
    let rule = "ld";
    let rules: ExtMap = vec![(None, Some(s(rule)))];
    assert_eq!(text(&[path], &rules, None), format!("build test: {rule} {path}\n"));
}

#[test]
fn option_master_target() {
    let path = "this/is/test.c";
    let master = MasterTarget::new(s("main"), None);
    assert_eq!(
        text(&[path], &vec![], Some(master)),
        format!("build test: cc {path}\nbuild main: cc test\n")
    );
}

#[test]
fn option_master_rule() {
    let path = "this/is/test.c";
    let mtarget = "main";
    let mrule = "ld";
    let master = MasterTarget::new(s(mtarget), Some(s(mrule)));
    assert_eq!(
        text(&[path], &vec![], Some(master)),
        format!("build test: cc {path}\nbuild {mtarget}: {mrule} test\n")
    );
}

#[test]
fn extension_mapping_and_fallback() {
    let rules: ExtMap = vec![(Some(s("c")), Some(s("ld")))];
    assert_eq!(target_line("this/is/test.c", &rules), "build test: ld this/is/test.c");
    assert_eq!(target_line("this/is/test.cpp", &rules), "build test: cc this/is/test.cpp");
}

#[test]
fn master_target_aggregates_all_names() {
    let master = MasterTarget::new(s("main"), Some(s("link")));
    let lines = synthesize(&files(&["a.c", "b.c"]), &vec![], &Some(master));
    assert_eq!(lines, vec![s("build a: cc a.c"), s("build b: cc b.c"), s("build main: link a b")]);
}

#[test]
fn master_target_with_no_files() {
    let master = MasterTarget::new(s("all"), Some(s("phony")));
    let lines = synthesize(&files(&[]), &vec![], &Some(master));
    assert_eq!(lines, vec![s("build all: phony")]);
}

#[test]
fn synthesis_is_repeatable() {
    let rules: ExtMap = vec![(Some(s("c")), Some(s("ld"))), (None, None)];
    let master = || Some(MasterTarget::new(s("main"), None));
    let f = files(&["x/a.c", "y/b.s", "README"]);
    let first = synthesize(&f, &rules, &master());
    let second = synthesize(&f, &rules, &master());
    assert_eq!(first, second);
}

#[test]
fn duplicate_stems_are_both_emitted() {
    let lines = synthesize(&files(&["x/util.c", "y/util.c"]), &vec![], &None);
    assert_eq!(lines, vec![s("build util: cc x/util.c"), s("build util: cc y/util.c")]);
}

#[test]
fn names_and_extensions() {
    assert_eq!(target_name("a/b/foo.tar.gz"), "foo.tar");
    assert_eq!(extension("a/b/foo.tar.gz"), Some(s("gz")));
    assert_eq!(target_name("dir/.hidden"), ".hidden");
    assert_eq!(extension("dir/.hidden"), None);
    assert_eq!(target_name("Makefile"), "Makefile");
    assert_eq!(extension("Makefile"), None);
    assert_eq!(target_name("x.d/noext"), "noext");
    assert_eq!(extension("x.d/noext"), None);
    assert_eq!(target_name("trail."), "trail");
    assert_eq!(extension("trail."), Some(s("")));
}

#[test]
fn exact_extension_beats_earlier_wildcard() {
    let rules: ExtMap = vec![(None, Some(s("any"))), (Some(s("c")), Some(s("cc2")))];
    assert_eq!(rule_for(&rules, &Some(s("c"))), "cc2");
    assert_eq!(rule_for(&rules, &Some(s("h"))), "any");
    assert_eq!(rule_for(&rules, &None), "any");
}

#[test]
fn first_matching_entry_wins() {
    let rules: ExtMap = vec![(Some(s("c")), Some(s("one"))), (Some(s("c")), Some(s("two")))];
    assert_eq!(rule_for(&rules, &Some(s("c"))), "one");
}

#[test]
fn entry_without_rule_gives_default() {
    let rules: ExtMap = vec![(Some(s("c")), None), (None, Some(s("other")))];
    assert_eq!(rule_for(&rules, &Some(s("c"))), "cc");
    assert_eq!(rule_for(&vec![], &Some(s("c"))), "cc");
}
