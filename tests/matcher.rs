use gracekill::{load_patterns, select_processes, MatchMode, Matcher, PatternError, Process};

fn process(pid: i32, user_id: u32, name: &str, cmdline: &str) -> Process {
    Process::new(pid, user_id, name.to_string(), cmdline.to_string())
}

fn matcher(lines: &[&str], mode: MatchMode) -> Matcher {
    let lines: Vec<String> = lines.iter().map(|l| l.to_string()).collect();
    Matcher::new(load_patterns(&lines).expect("patterns compile"), mode)
}

#[test]
fn substring_match_ignores_case() {
    let m = matcher(&["foo"], MatchMode::Basename);
    assert!(m.is_match(&process(1, 0, "xFOOy", "")));
    assert!(m.is_match(&process(1, 0, "foo", "")));
    assert!(!m.is_match(&process(1, 0, "fo", "")));
}

#[test]
fn empty_pattern_set_matches_nothing() {
    let m = matcher(&[], MatchMode::Basename);
    assert!(!m.is_match(&process(1, 0, "anything", "anything")));
    assert!(!m.is_match(&process(1, 0, "", "")));
}

#[test]
fn only_comments_give_an_empty_set() {
    let m = matcher(&["# nothing", "   ", ""], MatchMode::Commandline);
    assert!(!m.is_match(&process(1, 0, "x", "x")));
}

#[test]
fn commandline_mode_tests_the_command_line() {
    let m = matcher(&["--serve # the server"], MatchMode::Commandline);
    assert!(m.is_match(&process(1, 0, "python", "python app.py --serve")));
    assert!(!m.is_match(&process(1, 0, "--serve", "python app.py")));
    let b = matcher(&["--serve"], MatchMode::Basename);
    assert!(b.is_match(&process(1, 0, "--serve", "python app.py")));
}

#[test]
fn any_of_several_patterns() {
    let m = matcher(&["alpha", "beta"], MatchMode::Basename);
    assert!(m.is_match(&process(1, 0, "betamax", "")));
    assert!(m.is_match(&process(1, 0, "ALPHA", "")));
    assert!(!m.is_match(&process(1, 0, "gamma", "")));
}

#[test]
fn regular_expressions_are_honoured() {
    let m = matcher(&["^ba.$"], MatchMode::Basename);
    assert!(m.is_match(&process(1, 0, "baz", "")));
    assert!(!m.is_match(&process(1, 0, "abaz", "")));
}

#[test]
fn invalid_pattern_is_an_error() {
    let lines = vec![String::from("(unclosed")];
    match load_patterns(&lines) {
        Err(PatternError::Invalid { message }) => assert!(!message.is_empty()),
        Ok(_) => panic!("an unclosed group must not compile"),
    }
}

#[test]
fn selects_foo_and_barfoo_in_order() {
    let m = matcher(&["foo"], MatchMode::Basename);
    let candidates = vec![
        process(10, 1000, "foo", "foo"),
        process(11, 1000, "barfoo", "barfoo"),
        process(12, 1000, "baz", "baz"),
    ];
    let selected = select_processes(candidates, None, &m);
    let names: Vec<&str> = selected.iter().map(|p| p.name()).collect();
    assert_eq!(names, vec!["foo", "barfoo"]);
}

#[test]
fn selection_respects_the_owner() {
    let m = matcher(&["foo"], MatchMode::Basename);
    let candidates = vec![
        process(10, 1000, "foo", "foo"),
        process(11, 0, "foo", "foo"),
        process(12, 1000, "barfoo", "barfoo"),
    ];
    let selected = select_processes(candidates, Some(1000), &m);
    let pids: Vec<i32> = selected.iter().map(|p| p.pid()).collect();
    assert_eq!(pids, vec![10, 12]);
}

#[test]
fn plain_punctuation_is_literal() {
    let m = matcher(&["--port=80"], MatchMode::Commandline);
    assert!(m.is_match(&process(1, 0, "srv", "srv --PORT=80 -v")));
    assert!(!m.is_match(&process(1, 0, "srv", "srv --port=8")));
}

#[test]
fn one_bad_pattern_fails_the_whole_list() {
    let lines = vec![String::from("good"), String::from("bad[")];
    assert!(load_patterns(&lines).is_err());
    let empty: Vec<String> = vec![String::from("# only a comment")];
    assert!(load_patterns(&empty).is_ok());
}

#[test]
fn spaces_in_patterns_are_literal() {
    let m = matcher(&["app.py --serve"], MatchMode::Commandline);
    assert!(m.is_match(&process(1, 0, "python", "python app.py --serve")));
    let words = matcher(&["run server"], MatchMode::Commandline);
    assert!(words.is_match(&process(1, 0, "x", "/bin/RUN SERVER now")));
    assert!(!words.is_match(&process(1, 0, "x", "/bin/runserver")));
}
