use rhiz::ast::{parse_rhiz_program, RhizValue};
use rhiz::compiler::{compile, CompileError};

#[test]
fn compiles_task_with_description() {
    let parsed = parse_rhiz_program(r#"(task "t" "desc" (log "x"))"#).unwrap();
    let tasks = compile(&parsed).unwrap();
    assert_eq!(tasks.len(), 1);
    let t = tasks.get("t").unwrap();
    assert_eq!(t.name, "t");
    assert_eq!(t.description, Some("desc".to_owned()));
    let expected = RhizValue::SExpr(vec![
        RhizValue::Symbol("log".to_owned()),
        RhizValue::String("x".to_owned()),
    ]);
    assert_eq!(t.items, vec![&expected]);
}

#[test]
fn compiles_task_without_description() {
    let parsed = parse_rhiz_program(r#"(task "t" (log "a") (log "b"))"#).unwrap();
    let tasks = compile(&parsed).unwrap();
    let t = tasks.get("t").unwrap();
    assert_eq!(t.description, None);
    assert_eq!(t.items.len(), 2);
    assert!(tasks.get("u").is_none());
}

#[test]
fn rejects_non_task_top_level_form() {
    let parsed = parse_rhiz_program(r#"(build "x")"#).unwrap();
    let err = compile(&parsed).unwrap_err();
    assert_eq!(err, CompileError::NotATask(0));
    assert!(err
        .message()
        .starts_with("only task declarations allowed at top level"));
}

#[test]
fn first_error_in_document_order() {
    let parsed = parse_rhiz_program(r#"(task "a") (task b) (nope) (task "c" x)"#).unwrap();
    assert_eq!(compile(&parsed).unwrap_err(), CompileError::BadName(1));
    let parsed = parse_rhiz_program(r#"(task "a") (task "c" "d" x)"#).unwrap();
    let err = compile(&parsed).unwrap_err();
    assert_eq!(err, CompileError::BodyNotCall(1));
    assert_eq!(err.message(), "task bodies may only contain calls (form 1)");
    let parsed = parse_rhiz_program("(task)").unwrap();
    assert_eq!(compile(&parsed).unwrap_err(), CompileError::BadName(0));
    assert_eq!(
        CompileError::BadName(0).message(),
        "task names must be a string literal (form 0)"
    );
    let parsed = parse_rhiz_program("()").unwrap();
    assert_eq!(compile(&parsed).unwrap_err(), CompileError::NotATask(0));
}

#[test]
fn only_programs_compile() {
    let v = RhizValue::Symbol("task".to_owned());
    let err = compile(&v).unwrap_err();
    assert_eq!(err, CompileError::NotAProgram);
    assert_eq!(err.message(), "only whole programs can be compiled");
}

#[test]
fn last_declaration_wins() {
    let parsed =
        parse_rhiz_program(r#"(task "a" "one") (task "b") (task "a" "two" (log "x"))"#).unwrap();
    let tasks = compile(&parsed).unwrap();
    assert_eq!(tasks.len(), 2);
    let a = tasks.get("a").unwrap();
    assert_eq!(a.description, Some("two".to_owned()));
    assert_eq!(a.items.len(), 1);
    let names: Vec<&str> = (0..tasks.len()).map(|i| tasks.task(i).name.as_str()).collect();
    assert!(names.contains(&"a") && names.contains(&"b"));
}

#[test]
fn empty_program_has_no_tasks() {
    let parsed = parse_rhiz_program("  ").unwrap();
    let tasks = compile(&parsed).unwrap();
    assert_eq!(tasks.len(), 0);
}
