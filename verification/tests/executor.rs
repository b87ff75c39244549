use rshell::args;
use rshell::builtin::history::History;
use rshell::builtin::{echo, Builtins, Errors};
use rshell::completion::{Entry, Type};
use rshell::redirect::{Redirect, RedirectIO};
use rshell::repl::{
    carry_after_builtin, exit_code_result, repl_outcome, run_commands_post, run_commands_step,
    Carry, FinalAction, State, StepPlan,
};

fn strings(v: &[&str]) -> Vec<String> {
    v.iter().map(|s| s.to_string()).collect()
}

fn builtin_entry(name: &str, b: Builtins) -> Entry {
    Entry { key: name.to_string(), value: Type::Builtin(b) }
}

fn program_entry(name: &str, path: &str) -> Entry {
    Entry { key: name.to_string(), value: Type::Program(path.to_string()) }
}

#[test]
fn redirect_truncation() {
    // a stage `echo hi > out.txt` resolves to args ["hi"] and a truncating
    // stdout redirect at out.txt
    let stages = args::process_args("echo hi > out.txt").expect("able to parse");
    assert_eq!(1, stages.len());
    let stage = &stages[0];
    assert_eq!("echo", stage.command.as_str());
    assert_eq!(strings(&["hi"]), stage.args);
    let rd = stage.redirect.as_ref().expect("redirect found");
    assert!(matches!(rd.to, args::RedirectIO::Stdout));
    assert!(!rd.append);
    assert_eq!("out.txt", rd.file_path.as_str());
}

#[test]
fn redirect_variants() {
    let stages = args::process_args("cmd a 2>> log.txt trailing").expect("able to parse");
    let rd = stages[0].redirect.as_ref().expect("redirect found");
    assert!(matches!(rd.to, args::RedirectIO::Stderr));
    assert!(rd.append);
    assert_eq!("log.txt", rd.file_path.as_str());
    // everything from the operator on is discarded, including trailing tokens
    assert_eq!(strings(&["a"]), stages[0].args);

    // an operator with no path after it is an ordinary argument
    let stages = args::process_args("echo hi >").expect("able to parse");
    assert!(stages[0].redirect.is_none());
    assert_eq!(strings(&["hi", ">"]), stages[0].args);
}

#[test]
fn builtin_stage_targets_are_files_or_buffers() {
    let plan = Redirect::new_builtin(&None);
    assert!(matches!(plan.stdout, RedirectIO::Buffer));
    assert!(matches!(plan.stderr, RedirectIO::Buffer));

    let rd = args::Redirect {
        to: args::RedirectIO::Stdout,
        append: false,
        file_path: "out.txt".to_string(),
    };
    let plan = Redirect::new_builtin(&Some(rd));
    match &plan.stdout {
        RedirectIO::File { path, append } => {
            assert_eq!("out.txt", path.as_str());
            assert!(!append);
        },
        other => panic!("unexpected target: {:?}", other),
    }
    assert!(matches!(plan.stderr, RedirectIO::Buffer));
}

#[test]
fn program_stage_targets_follow_position() {
    let plan = Redirect::new_program(&None, true);
    assert!(matches!(plan.stdout, RedirectIO::Terminal));
    assert!(matches!(plan.stderr, RedirectIO::Terminal));

    let plan = Redirect::new_program(&None, false);
    assert!(matches!(plan.stdout, RedirectIO::Pipe));
    assert!(matches!(plan.stderr, RedirectIO::Pipe));

    let rd = args::Redirect {
        to: args::RedirectIO::Stderr,
        append: true,
        file_path: "log".to_string(),
    };
    let plan = Redirect::new_program(&Some(rd), true);
    assert!(matches!(plan.stdout, RedirectIO::Terminal));
    assert!(matches!(plan.stderr, RedirectIO::File { .. }));
}

#[test]
fn unknown_command_aborts_pipeline() {
    let r = run_commands_step(None, &"nope".to_string(), &None, &Carry::Empty, true);
    match r {
        Err(Errors::CommandNotFound(s)) => assert_eq!("nope", s.as_str()),
        other => panic!("unexpected outcome: {:?}", other),
    }
}

#[test]
fn external_pipeline_streams_last_stage_to_terminal() {
    // `printf foo | cat`: both stages external; the first feeds a pipe, the
    // last streams straight to the terminal, so its output reaches the user
    // exactly once
    let printf = program_entry("printf", "/usr/bin/printf");
    let cat = program_entry("cat", "/bin/cat");

    let step0 = run_commands_step(
        Some(&printf),
        &"printf".to_string(),
        &None,
        &Carry::Empty,
        false,
    )
    .unwrap();
    match step0 {
        StepPlan::SpawnProgram { redirect } => {
            assert!(matches!(redirect.stdout, RedirectIO::Pipe));
        },
        other => panic!("unexpected plan: {:?}", other),
    }

    let step1 =
        run_commands_step(Some(&cat), &"cat".to_string(), &None, &Carry::Child, true).unwrap();
    match step1 {
        StepPlan::SpawnProgram { redirect } => {
            assert!(matches!(redirect.stdout, RedirectIO::Terminal));
        },
        other => panic!("unexpected plan: {:?}", other),
    }

    // after the last stage the executor waits on the running child and
    // resolves its exit status
    assert!(matches!(run_commands_post(Carry::Child), FinalAction::WaitChild));
    assert!(exit_code_result(0).is_ok());
    assert!(matches!(exit_code_result(3), Err(Errors::ExitCode(3))));
}

#[test]
fn builtin_last_stage_buffers_and_flushes_after_completion() {
    // `cat file | echo done`: the builtin waits for the running external
    // stage, discards its piped output, buffers its own, and the buffer is
    // flushed to the terminal only after the whole pipeline completes
    let echo_entry = builtin_entry("echo", Builtins::Echo);

    let step = run_commands_step(
        Some(&echo_entry),
        &"echo".to_string(),
        &None,
        &Carry::Child,
        true,
    )
    .unwrap();
    let redirect = match step {
        StepPlan::RunBuiltin { wait_previous, redirect } => {
            assert!(wait_previous);
            assert!(matches!(redirect.stdout, RedirectIO::Buffer));
            redirect
        },
        other => panic!("unexpected plan: {:?}", other),
    };

    let output = echo::run(&strings(&["done"])).unwrap();
    let carry = carry_after_builtin(&redirect, output);
    match run_commands_post(carry) {
        FinalAction::Flush(text) => assert_eq!("done\n", text.as_str()),
        other => panic!("unexpected final action: {:?}", other),
    }
}

#[test]
fn builtin_output_to_file_leaves_nothing_to_flush() {
    let rd = args::Redirect {
        to: args::RedirectIO::Stdout,
        append: false,
        file_path: "out".to_string(),
    };
    let plan = Redirect::new_builtin(&Some(rd));
    let carry = carry_after_builtin(&plan, "text\n".to_string());
    assert!(matches!(carry, Carry::Empty));
    assert!(matches!(run_commands_post(carry), FinalAction::Done));
}

#[test]
fn repl_outcome_records_and_reports() {
    let mut state = State {
        last_exit_code: 9,
        path: "/".to_string(),
        history: History::new().unwrap(),
    };

    let (shutdown, message) = repl_outcome(&mut state, &Ok(()), "ls");
    assert_eq!(0, state.last_exit_code);
    assert!(shutdown.is_none() && message.is_none());

    let (shutdown, message) = repl_outcome(&mut state, &Err(Errors::ExitCode(4)), "ls");
    assert_eq!(4, state.last_exit_code);
    assert!(shutdown.is_none() && message.is_none());

    let (shutdown, message) = repl_outcome(&mut state, &Err(Errors::Shutdown(7)), "exit 7");
    assert_eq!(Some(7), shutdown);
    assert!(message.is_none());

    let (shutdown, message) = repl_outcome(
        &mut state,
        &Err(Errors::CommandNotFound("zz".to_string())),
        "zz a b",
    );
    assert!(shutdown.is_none());
    assert_eq!("zz a b: command not found", message.unwrap().as_str());

    let (_, message) = repl_outcome(
        &mut state,
        &Err(Errors::ParseError(args::Error::PipeAtEnd)),
        "exe|",
    );
    assert_eq!(
        "Parse Error No valid Program right of Pipe '|' found",
        message.unwrap().as_str()
    );
}
