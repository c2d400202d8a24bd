use rhiz::ast::RhizValue;
use rhiz::executor::ExecutionError;
use rhiz::functions::{
    copy_plan, delete_check, delete_dir_check, empty_dir_plan, look_up_function, rec_copy_check,
    Builtin, CopyPlan, EmptyDirPlan, PathKind,
};

#[test]
fn looks_up_builtins_by_symbol() {
    let cases = [
        ("log", Builtin::Log),
        ("abort", Builtin::Abort),
        ("delete", Builtin::Delete),
        ("delete-file", Builtin::Delete),
        ("delete-dir", Builtin::DeleteDir),
        ("empty-dir", Builtin::EmptyDir),
        ("copy", Builtin::Copy),
        ("rec-copy", Builtin::RecCopy),
        ("exec", Builtin::Exec),
        ("par", Builtin::Par),
    ];
    for (name, b) in cases {
        assert_eq!(look_up_function(&RhizValue::Symbol(name.to_owned())), Some(b));
    }
    assert_eq!(look_up_function(&RhizValue::Symbol("lg".to_owned())), None);
    assert_eq!(look_up_function(&RhizValue::String("log".to_owned())), None);
    assert_eq!(Builtin::Delete.name(), "delete-file");
}

#[test]
fn copy_never_clobbers() {
    let src = "a.txt".to_owned();
    let dest = "b.txt".to_owned();
    let err = copy_plan(&src, &dest, PathKind::File, PathKind::File, PathKind::Missing).unwrap_err();
    assert_eq!(
        err,
        ExecutionError::AlreadyExists {
            function: Builtin::Copy,
            path: "b.txt".to_owned()
        }
    );
    assert_eq!(err.message(), "`copy`: 'b.txt' already exists");
    assert!(copy_plan(&src, &dest, PathKind::File, PathKind::Dir, PathKind::File).is_err());
    assert_eq!(
        copy_plan(&src, &dest, PathKind::File, PathKind::Dir, PathKind::Missing),
        Ok(CopyPlan::IntoDirectory)
    );
    assert_eq!(
        copy_plan(&src, &dest, PathKind::File, PathKind::Missing, PathKind::Missing),
        Ok(CopyPlan::ToPath)
    );
    let err = copy_plan(&src, &dest, PathKind::Missing, PathKind::Missing, PathKind::Missing)
        .unwrap_err();
    assert_eq!(err.message(), "`copy`: 'a.txt' does not exist");
    let err = copy_plan(&src, &dest, PathKind::Dir, PathKind::Missing, PathKind::Missing).unwrap_err();
    assert_eq!(err.message(), "`copy`: 'a.txt' is not a file");
}

#[test]
fn empty_dir_is_repeatable() {
    let path = "target".to_owned();
    assert_eq!(empty_dir_plan(&path, PathKind::Missing), Ok(EmptyDirPlan::Create));
    assert_eq!(empty_dir_plan(&path, PathKind::Dir), Ok(EmptyDirPlan::Clear));
    assert_eq!(empty_dir_plan(&path, PathKind::Dir), Ok(EmptyDirPlan::Clear));
    let err = empty_dir_plan(&path, PathKind::File).unwrap_err();
    assert_eq!(
        err,
        ExecutionError::NotADirectory {
            function: Builtin::EmptyDir,
            path: "target".to_owned()
        }
    );
    assert_eq!(err.message(), "`empty-dir`: 'target' is not a directory");
}

#[test]
fn delete_needs_an_existing_file() {
    let path = "missing.txt".to_owned();
    let err = delete_check(&path, PathKind::Missing).unwrap_err();
    assert_eq!(
        err,
        ExecutionError::Missing {
            function: Builtin::Delete,
            path: "missing.txt".to_owned()
        }
    );
    assert_eq!(err.message(), "`delete-file`: 'missing.txt' does not exist");
    assert_eq!(delete_check(&path, PathKind::File), Ok(()));
    assert!(matches!(
        delete_check(&path, PathKind::Dir),
        Err(ExecutionError::NotAFile { .. })
    ));
}

#[test]
fn delete_dir_needs_a_directory() {
    let path = "d".to_owned();
    assert_eq!(delete_dir_check(&path, PathKind::Dir), Ok(()));
    assert!(matches!(
        delete_dir_check(&path, PathKind::File),
        Err(ExecutionError::NotADirectory { .. })
    ));
    assert!(matches!(
        delete_dir_check(&path, PathKind::Missing),
        Err(ExecutionError::Missing { .. })
    ));
}

#[test]
fn rec_copy_needs_two_directories() {
    let src = "s".to_owned();
    let dest = "d".to_owned();
    assert_eq!(rec_copy_check(&src, &dest, PathKind::Dir, PathKind::Dir), Ok(()));
    let err = rec_copy_check(&src, &dest, PathKind::Dir, PathKind::Missing).unwrap_err();
    assert_eq!(err.message(), "`rec-copy`: 'd' does not exist");
    let err = rec_copy_check(&src, &dest, PathKind::File, PathKind::Dir).unwrap_err();
    assert_eq!(err.message(), "`rec-copy`: 's' is not a directory");
    let err = rec_copy_check(&src, &dest, PathKind::Dir, PathKind::Other).unwrap_err();
    assert_eq!(err.message(), "`rec-copy`: 'd' is not a directory");
    assert_eq!(
        ExecutionError::Io("boom".to_owned()).message(),
        "boom"
    );
}
