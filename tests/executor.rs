use rhiz::ast::{parse_rhiz_program, RhizValue};
use rhiz::compiler::compile;
use rhiz::executor::{
    command_outcome, exec_sexpr, exec_task, execute, join_outcomes, ExecutionError, Step, TaskRun,
};
use rhiz::functions::{delete_check, Action, ArgKind, Builtin, PathKind};

fn sym(s: &str) -> RhizValue {
    RhizValue::Symbol(s.to_owned())
}

fn text(s: &str) -> RhizValue {
    RhizValue::String(s.to_owned())
}

/// Drive a run, answering each action with the next scripted outcome.
/// Returns the messages of the actions performed, and the result.
fn drive(
    run: &mut TaskRun,
    mut script: Vec<Result<(), ExecutionError>>,
) -> (Vec<String>, Result<(), ExecutionError>) {
    let mut performed = Vec::new();
    script.reverse();
    loop {
        assert!(run.is_ready());
        match run.next_step() {
            Step::Finished(r) => return (performed, r),
            Step::Perform(a) => {
                performed.push(format!("{:?}", a));
                run.record(script.pop().unwrap_or(Ok(())));
            }
        }
    }
}

#[test]
fn log_task_succeeds() {
    let parsed = parse_rhiz_program(r#"(task "t" (log "hi"))"#).unwrap();
    let tasks = compile(&parsed).unwrap();
    let mut run = exec_task("t", &tasks).unwrap();
    match run.next_step() {
        Step::Perform(Action::Log(m)) => assert_eq!(m, "hi"),
        other => panic!("unexpected step {:?}", other),
    }
    run.record(Ok(()));
    match run.next_step() {
        Step::Finished(Ok(())) => {}
        other => panic!("unexpected step {:?}", other),
    }
    assert!(!run.is_ready());
}

#[test]
fn basic_task_plans_its_log() {
    let src = r#"(task "dummy-task" (log "This is a dummy task"))"#;
    let parsed = parse_rhiz_program(src).unwrap();
    let compiled = compile(&parsed).unwrap();
    let mut run = exec_task("dummy-task", &compiled).unwrap();
    let (performed, result) = drive(&mut run, vec![]);
    assert_eq!(performed, vec![r#"Log("This is a dummy task")"#.to_owned()]);
    assert_eq!(result, Ok(()));
}

#[test]
fn delete_file_task_plans_removal() {
    let src = format!(r#"(task "{}" (delete-file "{}"))"#, "test-deletion", "test-target");
    let parsed = parse_rhiz_program(&src).unwrap();
    let compiled = compile(&parsed).unwrap();
    let mut run = exec_task("test-deletion", &compiled).unwrap();
    match run.next_step() {
        Step::Perform(Action::Delete(p)) => assert_eq!(p, "test-target"),
        other => panic!("unexpected step {:?}", other),
    }
}

#[test]
fn missing_task_is_reported() {
    let parsed = parse_rhiz_program(r#"(task "t" (log "hi"))"#).unwrap();
    let tasks = compile(&parsed).unwrap();
    let err = exec_task("nope", &tasks).unwrap_err();
    assert_eq!(err, ExecutionError::NoSuchTask("nope".to_owned()));
    assert_eq!(err.message(), "no such task: 'nope'");
}

#[test]
fn sequential_run_stops_at_first_failure() {
    let parsed =
        parse_rhiz_program(r#"(task "t" (log "a") (delete-file "b") (log "c"))"#).unwrap();
    let tasks = compile(&parsed).unwrap();
    let mut run = exec_task("t", &tasks).unwrap();
    let failure = || ExecutionError::Io("disk on fire".to_owned());
    let (performed, result) = drive(&mut run, vec![Ok(()), Err(failure())]);
    assert_eq!(
        performed,
        vec![r#"Log("a")"#.to_owned(), r#"Delete("b")"#.to_owned()]
    );
    assert_eq!(result, Err(failure()));
    assert!(!run.is_ready());
}

#[test]
fn invalid_call_ends_run_before_later_calls() {
    let parsed = parse_rhiz_program(r#"(task "t" (log "a") (log) (log "c"))"#).unwrap();
    let tasks = compile(&parsed).unwrap();
    let mut run = exec_task("t", &tasks).unwrap();
    let (performed, result) = drive(&mut run, vec![]);
    assert_eq!(performed, vec![r#"Log("a")"#.to_owned()]);
    let err = result.unwrap_err();
    assert_eq!(
        err,
        ExecutionError::ArgCount {
            function: Builtin::Log,
            count: 1
        }
    );
    assert_eq!(err.message(), "`log` takes 1 argument(s)");
}

#[test]
fn abort_fails_after_writing() {
    let parsed = parse_rhiz_program(r#"(task "t" (abort "stop") (log "never"))"#).unwrap();
    let tasks = compile(&parsed).unwrap();
    let mut run = exec_task("t", &tasks).unwrap();
    let (performed, result) = drive(&mut run, vec![]);
    assert_eq!(performed, vec![r#"Abort("stop")"#.to_owned()]);
    let err = result.unwrap_err();
    assert_eq!(err, ExecutionError::Aborted("stop".to_owned()));
    assert_eq!(err.message(), "aborted: stop");
}

#[test]
fn par_hands_out_every_call() {
    let parsed =
        parse_rhiz_program(r#"(task "t" (par (log "a") (abort "b") (log "c")))"#).unwrap();
    let tasks = compile(&parsed).unwrap();
    let mut run = exec_task("t", &tasks).unwrap();
    let children = match run.next_step() {
        Step::Perform(Action::Par(children)) => children,
        other => panic!("unexpected step {:?}", other),
    };
    assert_eq!(children.len(), 3);
    let mut outcomes = Vec::new();
    for child in &children {
        let mut sub = TaskRun::of_call(child);
        outcomes.push(drive(&mut sub, vec![]).1);
    }
    assert_eq!(outcomes[0], Ok(()));
    assert_eq!(outcomes[2], Ok(()));
    let joined = join_outcomes(outcomes);
    assert_eq!(joined, Err(ExecutionError::Aborted("b".to_owned())));
    run.record(joined);
    match run.next_step() {
        Step::Finished(Err(ExecutionError::Aborted(m))) => assert_eq!(m, "b"),
        other => panic!("unexpected step {:?}", other),
    }
}

#[test]
fn join_reports_lowest_index_failure() {
    let outcomes = vec![
        Ok(()),
        Err(ExecutionError::Io("second".to_owned())),
        Err(ExecutionError::Io("third".to_owned())),
    ];
    assert_eq!(
        join_outcomes(outcomes),
        Err(ExecutionError::Io("second".to_owned()))
    );
    assert_eq!(join_outcomes(vec![Ok(()), Ok(())]), Ok(()));
    assert_eq!(join_outcomes(vec![]), Ok(()));
}

#[test]
fn par_requires_calls() {
    let args = vec![RhizValue::SExpr(vec![sym("log"), text("a")]), text("b")];
    let err = execute(&sym("par"), &args).unwrap_err();
    assert_eq!(
        err,
        ExecutionError::ArgKind {
            function: Builtin::Par,
            position: 1,
            expected: ArgKind::Call
        }
    );
    assert_eq!(err.message(), "argument 1 to `par` must be a call");
}

#[test]
fn exec_plans_command() {
    let call = vec![sym("exec"), sym("cargo"), text("build"), sym("--release")];
    match exec_sexpr(&call).unwrap() {
        Action::Exec {
            program,
            args,
            command_line,
        } => {
            assert_eq!(program, "cargo");
            assert_eq!(args, vec!["build".to_owned(), "--release".to_owned()]);
            assert_eq!(command_line, "cargo \"build\" --release");
        }
        other => panic!("unexpected action {:?}", other),
    }
}

#[test]
fn exec_failure_names_command() {
    let parsed = parse_rhiz_program(r#"(task "x" (exec "false"))"#).unwrap();
    let tasks = compile(&parsed).unwrap();
    let mut run = exec_task("x", &tasks).unwrap();
    let line = match run.next_step() {
        Step::Perform(Action::Exec {
            program,
            args,
            command_line,
        }) => {
            assert_eq!(program, "false");
            assert!(args.is_empty());
            command_line
        }
        other => panic!("unexpected step {:?}", other),
    };
    let outcome = command_outcome(line, false, Some(1));
    let err = outcome.as_ref().unwrap_err();
    assert_eq!(
        err.message(),
        "external command returned an error code: \"false\" (exit code: 1)"
    );
    run.record(outcome);
    match run.next_step() {
        Step::Finished(Err(ExecutionError::CommandFailed { command, code })) => {
            assert_eq!(command, "\"false\"");
            assert_eq!(code, Some(1));
        }
        other => panic!("unexpected step {:?}", other),
    }
}

#[test]
fn command_outcomes() {
    assert_eq!(command_outcome("ls".to_owned(), true, Some(0)), Ok(()));
    let err = command_outcome("kill".to_owned(), false, None).unwrap_err();
    assert_eq!(err.message(), "external command returned an error code: kill");
    let err = command_outcome("x".to_owned(), false, Some(-3)).unwrap_err();
    assert_eq!(
        err.message(),
        "external command returned an error code: x (exit code: -3)"
    );
}

#[test]
fn call_errors() {
    assert_eq!(exec_sexpr(&[]).unwrap_err(), ExecutionError::EmptyExpression);
    assert_eq!(
        ExecutionError::EmptyExpression.message(),
        "cannot evaluate an empty expression"
    );
    let err = exec_sexpr(&[sym("frobnicate"), text("x")]).unwrap_err();
    assert_eq!(err, ExecutionError::InvalidFunction("frobnicate".to_owned()));
    assert_eq!(err.message(), "invalid function: frobnicate");
    let err = exec_sexpr(&[text("log"), text("x")]).unwrap_err();
    assert_eq!(err, ExecutionError::InvalidFunction("\"log\"".to_owned()));
    let err = exec_sexpr(&[sym("exec")]).unwrap_err();
    assert_eq!(
        err,
        ExecutionError::TooFewArgs {
            function: Builtin::Exec,
            minimum: 1
        }
    );
    assert_eq!(err.message(), "`exec` needs at least 1 argument(s)");
    let err = exec_sexpr(&[sym("log"), sym("hi")]).unwrap_err();
    assert_eq!(
        err,
        ExecutionError::ArgKind {
            function: Builtin::Log,
            position: 0,
            expected: ArgKind::Text
        }
    );
    assert_eq!(err.message(), "argument 0 to `log` must be a string");
    let err = exec_sexpr(&[sym("copy"), text("a")]).unwrap_err();
    assert_eq!(
        err,
        ExecutionError::ArgCount {
            function: Builtin::Copy,
            count: 2
        }
    );
    let err = exec_sexpr(&[sym("exec"), text("a"), RhizValue::SExpr(vec![])]).unwrap_err();
    assert_eq!(err.message(), "argument 1 to `exec` must be a string or a symbol");
}

#[test]
fn builtins_plan_actions() {
    assert_eq!(
        exec_sexpr(&[sym("delete"), text("f")]).unwrap(),
        Action::Delete("f".to_owned())
    );
    assert_eq!(
        exec_sexpr(&[sym("delete-dir"), text("d")]).unwrap(),
        Action::DeleteDir("d".to_owned())
    );
    assert_eq!(
        exec_sexpr(&[sym("empty-dir"), text("target")]).unwrap(),
        Action::EmptyDir("target".to_owned())
    );
    assert_eq!(
        exec_sexpr(&[sym("copy"), text("a"), text("b")]).unwrap(),
        Action::Copy("a".to_owned(), "b".to_owned())
    );
    assert_eq!(
        exec_sexpr(&[sym("rec-copy"), text("a"), text("b")]).unwrap(),
        Action::RecCopy("a".to_owned(), "b".to_owned())
    );
    assert_eq!(
        exec_sexpr(&[sym("empty-dir"), text("a"), text("b")]).unwrap_err(),
        ExecutionError::ArgCount {
            function: Builtin::EmptyDir,
            count: 1
        }
    );
}

#[test]
fn deleting_a_missing_file_fails_the_task() {
    let parsed = parse_rhiz_program(r#"(task "t" (delete-file "missing.txt"))"#).unwrap();
    let tasks = compile(&parsed).unwrap();
    let mut run = exec_task("t", &tasks).unwrap();
    let path = match run.next_step() {
        Step::Perform(Action::Delete(p)) => p,
        other => panic!("unexpected step {:?}", other),
    };
    run.record(delete_check(&path, PathKind::Missing));
    match run.next_step() {
        Step::Finished(Err(e)) => {
            assert_eq!(
                e,
                ExecutionError::Missing {
                    function: Builtin::Delete,
                    path: "missing.txt".to_owned()
                }
            );
            assert_eq!(e.message(), "`delete-file`: 'missing.txt' does not exist");
        }
        other => panic!("unexpected step {:?}", other),
    }
}
