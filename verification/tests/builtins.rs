use rshell::builtin::cd::{no_such_dir_message, target_path};
use rshell::builtin::history::History;
use rshell::builtin::{echo, exit, pwd, Action, Builtins, Errors};
use rshell::completion::{Completion, Type};
use rshell::repl::State;
use rshell::text::{i32_to_string, parse_i32, parse_usize, usize_to_string};

fn strings(v: &[&str]) -> Vec<String> {
    v.iter().map(|s| s.to_string()).collect()
}

fn fresh_state(path: &str) -> State {
    State {
        last_exit_code: 0,
        path: path.to_string(),
        history: History::new().unwrap(),
    }
}

#[test]
fn echo_joins_with_spaces_and_newline() {
    let out = echo::run(&strings(&["hello", "world"])).unwrap();
    assert_eq!("hello world\n", out.as_str());
}

#[test]
fn echo_no_arguments_prints_bare_newline() {
    let out = echo::run(&strings(&[])).unwrap();
    assert_eq!("\n", out.as_str());
}

#[test]
fn exit_with_code_requests_shutdown() {
    assert!(matches!(exit::run(&strings(&["5"])), Err(Errors::Shutdown(5))));
    assert!(matches!(exit::run(&strings(&["-3"])), Err(Errors::Shutdown(-3))));
}

#[test]
fn exit_without_argument_is_missing_argument() {
    match exit::run(&strings(&[])) {
        Err(Errors::MissingArgument(s)) => assert_eq!("exit", s.as_str()),
        other => panic!("unexpected outcome: {:?}", other),
    }
}

#[test]
fn exit_with_bad_argument_is_incorrect_type() {
    match exit::run(&strings(&["abc"])) {
        Err(Errors::IncorrectArgumentType(a, b)) => {
            assert_eq!("abc", a.as_str());
            assert_eq!("integer", b.as_str());
        },
        other => panic!("unexpected outcome: {:?}", other),
    }
    // a value outside the 32-bit range is not an integer argument either
    assert!(matches!(
        exit::run(&strings(&["99999999999"])),
        Err(Errors::IncorrectArgumentType(_, _))
    ));
}

#[test]
fn pwd_prints_the_working_directory() {
    let state = fresh_state("/tmp/somewhere");
    let out = pwd::run(&state).unwrap();
    assert_eq!("/tmp/somewhere\n", out.as_str());
}

#[test]
fn cd_target_path_resolution() {
    // what follows the tilde is joined as a path: an absolute remainder
    // stands alone, a relative one goes under the home directory
    assert_eq!("/sub", target_path("/cwd", "/home/u", "~/sub").as_str());
    assert_eq!("/home/u/x", target_path("/cwd", "/home/u", "~x").as_str());
    assert_eq!("/home/u/", target_path("/cwd", "/home/u", "~").as_str());
    assert_eq!("/abs", target_path("/cwd", "/home/u", "/abs").as_str());
    assert_eq!("/cwd/rel", target_path("/cwd", "/home/u", "rel").as_str());
}

#[test]
fn cd_not_found_message() {
    assert_eq!(
        "cd: /nope: No such file or directory\n",
        no_such_dir_message("/nope").as_str()
    );
}

#[test]
fn history_print_numbers_from_one() {
    let mut h = History::new().unwrap();
    h.history.push("ls".to_string());
    h.history.push("pwd".to_string());
    assert_eq!("    1 ls\n    2 pwd\n", h.print_history(None).as_str());
    assert_eq!("    2 pwd\n", h.print_history(Some(1)).as_str());
    assert_eq!("    1 ls\n    2 pwd\n", h.print_history(Some(9)).as_str());
}

#[test]
fn history_run_without_arguments_prints_all() {
    let mut h = History::new().unwrap();
    h.history.push("ls".to_string());
    let (text, action) = rshell::builtin::history::run(&mut h, &strings(&[])).unwrap();
    assert_eq!("    1 ls\n", text.as_str());
    assert!(matches!(action, Action::Nothing));
}

#[test]
fn history_run_with_count() {
    let mut h = History::new().unwrap();
    h.history.push("a".to_string());
    h.history.push("b".to_string());
    let (text, _) = rshell::builtin::history::run(&mut h, &strings(&["1"])).unwrap();
    assert_eq!("    2 b\n", text.as_str());
}

#[test]
fn history_run_with_bad_count() {
    let mut h = History::new().unwrap();
    match rshell::builtin::history::run(&mut h, &strings(&["x7"])) {
        Err(Errors::IncorrectArgumentType(a, b)) => {
            assert_eq!("x7", a.as_str());
            assert_eq!("Integer", b.as_str());
        },
        other => panic!("unexpected outcome: {:?}", other),
    }
}

#[test]
fn history_run_write_carries_contents() {
    let mut h = History::new().unwrap();
    h.history.push("a".to_string());
    h.history.push("b".to_string());
    let (text, action) = rshell::builtin::history::run(&mut h, &strings(&["-w", "f.txt"])).unwrap();
    assert_eq!("", text.as_str());
    match action {
        Action::HistoryWrite { path, contents } => {
            assert_eq!("f.txt", path.as_str());
            assert_eq!("a\nb", contents.as_str());
        },
        other => panic!("unexpected action: {:?}", other),
    }
}

#[test]
fn history_run_append_starts_after_persisted() {
    let mut h = History::new().unwrap();
    h.history.push("a".to_string());
    let (_, action) = rshell::builtin::history::run(&mut h, &strings(&["-a", "f"])).unwrap();
    match action {
        Action::HistoryAppend { path, start } => {
            assert_eq!("f", path.as_str());
            assert_eq!(0, start);
        },
        other => panic!("unexpected action: {:?}", other),
    }
    // everything counts as persisted now: a second append starts at the end
    h.history.push("b".to_string());
    let (_, action) = rshell::builtin::history::run(&mut h, &strings(&["-a", "f"])).unwrap();
    match action {
        Action::HistoryAppend { start, .. } => assert_eq!(1, start),
        other => panic!("unexpected action: {:?}", other),
    }
}

#[test]
fn history_run_flag_without_path_is_missing_argument() {
    let mut h = History::new().unwrap();
    for flag in ["-r", "-w", "-a"] {
        match rshell::builtin::history::run(&mut h, &strings(&[flag])) {
            Err(Errors::MissingArgument(s)) => assert_eq!("history", s.as_str()),
            other => panic!("unexpected outcome: {:?}", other),
        }
    }
}

#[test]
fn history_read_merges_lines() {
    let mut h = History::from_file("f".to_string(), strings(&["one"])).unwrap();
    h.read_history(&strings(&["two", "three"]));
    assert_eq!(strings(&["one", "two", "three"]), h.history);
}

#[test]
fn history_append_text_adds_newline_separated_entries() {
    assert_eq!(
        "old\na\nb\n",
        History::append_text("old", &strings(&["a", "b"]), 0).as_str()
    );
    assert_eq!(
        "x\nb\n",
        History::append_text("x\n", &strings(&["a", "b"]), 1).as_str()
    );
    // an empty file still gets the separating newline first
    assert_eq!("\na\n", History::append_text("", &strings(&["a"]), 0).as_str());
}

#[test]
fn supported_builtins_are_the_six() {
    let s = Builtins::supported();
    let names: Vec<&str> = s.iter().map(|p| p.1).collect();
    assert_eq!(vec!["exit", "echo", "type", "pwd", "cd", "history"], names);
}

#[test]
fn completion_resolves_builtins_and_programs() {
    let mut c = Completion::new().unwrap();
    let e = c.matches_exact("echo").expect("echo is registered");
    assert!(matches!(e.value, Type::Builtin(Builtins::Echo)));
    assert!(c.matches_exact("nope").is_none());

    c.add("ls", Type::Program("/bin/ls".to_string()));
    let e = c.matches_exact("ls").expect("ls was added");
    assert_eq!("ls", e.key.as_str());
    match &e.value {
        Type::Program(p) => assert_eq!("/bin/ls", p.as_str()),
        other => panic!("unexpected resolution: {:?}", other),
    }
}

#[test]
fn completion_matches_by_prefix() {
    let c = Completion::new().unwrap();
    let hits = c.matches("e");
    let mut names: Vec<&str> = hits.iter().map(|e| e.key.as_str()).collect();
    names.sort();
    assert_eq!(vec!["echo", "exit"], names);
    assert!(c.matches("zz").is_empty());
}

#[test]
fn completion_longest_prefix() {
    let mut c = Completion::new().unwrap();
    c.add("ec", Type::Program("/bin/ec".to_string()));
    let e = c.longest_prefix("echo").expect("echo itself is the longest prefix");
    assert_eq!("echo", e.key.as_str());
    let e = c.longest_prefix("ec123").expect("ec is a prefix");
    assert_eq!("ec", e.key.as_str());
    assert!(c.longest_prefix("zz").is_none());
}

#[test]
fn type_builtin_lines() {
    let mut c = Completion::new().unwrap();
    c.add("ls", Type::Program("/bin/ls".to_string()));
    let out = rshell::builtin::btype::run(&strings(&["pwd"]), &c).unwrap();
    assert_eq!("pwd is a shell builtin\n", out.as_str());
    let out = rshell::builtin::btype::run(&strings(&["ls"]), &c).unwrap();
    assert_eq!("ls is /bin/ls\n", out.as_str());
    let out = rshell::builtin::btype::run(&strings(&["zz"]), &c).unwrap();
    assert_eq!("zz not found\n", out.as_str());
    match rshell::builtin::btype::run(&strings(&[]), &c) {
        Err(Errors::MissingArgument(s)) => assert_eq!("type", s.as_str()),
        other => panic!("unexpected outcome: {:?}", other),
    }
}

#[test]
fn builtin_dispatch_runs_each_kind() {
    let c = Completion::new().unwrap();
    let mut state = fresh_state("/work");

    let (text, action) =
        rshell::builtin::run(&mut state, &c, Builtins::Echo, &strings(&["hi"])).unwrap();
    assert_eq!("hi\n", text.as_str());
    assert!(matches!(action, Action::Nothing));

    let (text, _) = rshell::builtin::run(&mut state, &c, Builtins::Pwd, &strings(&[])).unwrap();
    assert_eq!("/work\n", text.as_str());

    assert!(matches!(
        rshell::builtin::run(&mut state, &c, Builtins::Exit, &strings(&["2"])),
        Err(Errors::Shutdown(2))
    ));

    let (_, action) =
        rshell::builtin::run(&mut state, &c, Builtins::Cd, &strings(&["/elsewhere"])).unwrap();
    match action {
        Action::ChangeDir(t) => assert_eq!("/elsewhere", t.as_str()),
        other => panic!("unexpected action: {:?}", other),
    }
}

#[test]
fn error_messages_match_their_texts() {
    assert_eq!("exit code called -3", Errors::ExitCode(-3).message().as_str());
    assert_eq!("shutdown code called 7", Errors::Shutdown(7).message().as_str());
    assert_eq!(
        "nope: command not found",
        Errors::CommandNotFound("nope".to_string()).message().as_str()
    );
    assert_eq!(
        "The command exit is missing an argument",
        Errors::MissingArgument("exit".to_string()).message().as_str()
    );
    assert_eq!(
        "The incorrect argument x should be a integer",
        Errors::IncorrectArgumentType("x".to_string(), "integer".to_string())
            .message()
            .as_str()
    );
    assert_eq!(
        "Io Error <oops>",
        Errors::IoError("oops".to_string()).message().as_str()
    );
    assert_eq!(
        "Parse Error No Command found",
        Errors::ParseError(rshell::args::Error::MissingCommand).message().as_str()
    );
    assert_eq!(
        "No valid Program left of Pipe '|' found",
        rshell::args::Error::PipeAtBeginning.message().as_str()
    );
}

#[test]
fn number_parsing_and_rendering() {
    assert_eq!(Some(42), parse_i32("+42"));
    assert_eq!(Some(-42), parse_i32("-42"));
    assert_eq!(Some(2147483647), parse_i32("2147483647"));
    assert_eq!(Some(-2147483648), parse_i32("-2147483648"));
    assert_eq!(None, parse_i32("2147483648"));
    assert_eq!(None, parse_i32(""));
    assert_eq!(None, parse_i32("12a"));
    assert_eq!(None, parse_i32("-"));

    assert_eq!(Some(7), parse_usize("7"));
    assert_eq!(Some(7), parse_usize("+7"));
    assert_eq!(None, parse_usize("-7"));
    assert_eq!(None, parse_usize("99999999999999999999999"));

    assert_eq!("0", usize_to_string(0).as_str());
    assert_eq!("12345", usize_to_string(12345).as_str());
    assert_eq!("-12345", i32_to_string(-12345).as_str());
    assert_eq!("-2147483648", i32_to_string(i32::MIN).as_str());
}
