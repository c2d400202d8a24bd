//! The builtin functions that a task body can call: their names, the
//! arguments each accepts, and the action each asks the host to perform.
use vstd::prelude::*;

use crate::ast::{rendered, RhizValue};
use crate::compiler::referenced;
use crate::executor::{ErrorModel, ExecutionError};
use crate::text::{copy_text, text_is};

verus! {

/// The builtins, one per behaviour.
#[derive(Debug, Clone, Copy, PartialEq, Eq, Structural)]
pub enum Builtin {
    /// `log`: print a string.
    Log,
    /// `abort`: print a string to the error stream, then fail.
    Abort,
    /// `delete` or `delete-file`: remove a file.
    Delete,
    /// `delete-dir`: remove a directory and everything in it.
    DeleteDir,
    /// `empty-dir`: make a directory exist and hold nothing.
    EmptyDir,
    /// `copy`: copy a file, never over an existing one.
    Copy,
    /// `rec-copy`: copy the contents of a directory into another.
    RecCopy,
    /// `exec`: run an external command.
    Exec,
    /// `par`: run calls concurrently.
    Par,
}

/// What an argument of a builtin must be.
#[derive(Debug, Clone, Copy, PartialEq, Eq, Structural)]
pub enum ArgKind {
    /// A string literal.
    Text,
    /// A string literal or a symbol.
    Word,
    /// A call.
    Call,
}

/// The builtin that a symbol names.
pub open spec fn builtin_named(s: Seq<char>) -> Option<Builtin> {
    if s == "log"@ {
        Some(Builtin::Log)
    } else if s == "abort"@ {
        Some(Builtin::Abort)
    } else if s == "delete"@ || s == "delete-file"@ {
        Some(Builtin::Delete)
    } else if s == "delete-dir"@ {
        Some(Builtin::DeleteDir)
    } else if s == "empty-dir"@ {
        Some(Builtin::EmptyDir)
    } else if s == "copy"@ {
        Some(Builtin::Copy)
    } else if s == "rec-copy"@ {
        Some(Builtin::RecCopy)
    } else if s == "exec"@ {
        Some(Builtin::Exec)
    } else if s == "par"@ {
        Some(Builtin::Par)
    } else {
        None
    }
}

/// The builtin that the head of a call resolves to: only symbols name builtins.
pub open spec fn resolve(v: RhizValue) -> Option<Builtin> {
    match v {
        RhizValue::Symbol(s) => builtin_named(s@),
        _ => None,
    }
}

impl Builtin {
    pub open spec fn spec_name(self) -> Seq<char> {
        match self {
            Builtin::Log => "log"@,
            Builtin::Abort => "abort"@,
            Builtin::Delete => "delete-file"@,
            Builtin::DeleteDir => "delete-dir"@,
            Builtin::EmptyDir => "empty-dir"@,
            Builtin::Copy => "copy"@,
            Builtin::RecCopy => "rec-copy"@,
            Builtin::Exec => "exec"@,
            Builtin::Par => "par"@,
        }
    }

    /// The name under which the builtin is called.
    pub fn name(&self) -> (r: &'static str)
        ensures
            r@ == self.spec_name(),
    {
        match self {
            Builtin::Log => "log",
            Builtin::Abort => "abort",
            Builtin::Delete => "delete-file",
            Builtin::DeleteDir => "delete-dir",
            Builtin::EmptyDir => "empty-dir",
            Builtin::Copy => "copy",
            Builtin::RecCopy => "rec-copy",
            Builtin::Exec => "exec",
            Builtin::Par => "par",
        }
    }
}

/// Resolve the head of a call to a builtin.
pub fn look_up_function(func_name: &RhizValue) -> (r: Option<Builtin>)
    ensures
        r == resolve(*func_name),
{
    let s = match func_name {
        RhizValue::Symbol(s) => s,
        _ => return None,
    };
    if text_is(s, "log") {
        Some(Builtin::Log)
    } else if text_is(s, "abort") {
        Some(Builtin::Abort)
    } else if text_is(s, "delete") || text_is(s, "delete-file") {
        Some(Builtin::Delete)
    } else if text_is(s, "delete-dir") {
        Some(Builtin::DeleteDir)
    } else if text_is(s, "empty-dir") {
        Some(Builtin::EmptyDir)
    } else if text_is(s, "copy") {
        Some(Builtin::Copy)
    } else if text_is(s, "rec-copy") {
        Some(Builtin::RecCopy)
    } else if text_is(s, "exec") {
        Some(Builtin::Exec)
    } else if text_is(s, "par") {
        Some(Builtin::Par)
    } else {
        None
    }
}

/// What the host is asked to do for one call.
#[derive(Debug, PartialEq, Eq)]
pub enum Action<'a> {
    /// Print the string to standard output.
    Log(String),
    /// Print the string to standard error; the call then fails.
    Abort(String),
    /// Remove the file at the path.
    Delete(String),
    /// Remove the directory at the path, with everything in it.
    DeleteDir(String),
    /// Make the directory at the path exist and hold nothing.
    EmptyDir(String),
    /// Copy the file at the first path to the second.
    Copy(String, String),
    /// Copy everything in the first directory into the second.
    RecCopy(String, String),
    /// Run `program` with `args`; `command_line` describes the command in errors.
    Exec { program: String, args: Vec<String>, command_line: String },
    /// Run each call concurrently, wait for all of them, and report the first
    /// failure in declaration order.
    Par(Vec<&'a RhizValue>),
}

/// The mathematical content of an [`Action`].
pub enum ActionModel {
    Log(Seq<char>),
    Abort(Seq<char>),
    Delete(Seq<char>),
    DeleteDir(Seq<char>),
    EmptyDir(Seq<char>),
    Copy(Seq<char>, Seq<char>),
    RecCopy(Seq<char>, Seq<char>),
    Exec { program: Seq<char>, args: Seq<Seq<char>>, command_line: Seq<char> },
    Par(Seq<RhizValue>),
}

pub open spec fn texts(v: Seq<String>) -> Seq<Seq<char>> {
    Seq::new(v.len(), |i: int| v[i]@)
}

impl<'a> View for Action<'a> {
    type V = ActionModel;

    open spec fn view(&self) -> ActionModel {
        match self {
            Action::Log(t) => ActionModel::Log(t@),
            Action::Abort(t) => ActionModel::Abort(t@),
            Action::Delete(p) => ActionModel::Delete(p@),
            Action::DeleteDir(p) => ActionModel::DeleteDir(p@),
            Action::EmptyDir(p) => ActionModel::EmptyDir(p@),
            Action::Copy(a, b) => ActionModel::Copy(a@, b@),
            Action::RecCopy(a, b) => ActionModel::RecCopy(a@, b@),
            Action::Exec { program, args, command_line } => ActionModel::Exec {
                program: program@,
                args: texts(args@),
                command_line: command_line@,
            },
            Action::Par(calls) => ActionModel::Par(referenced(calls@)),
        }
    }
}

/// Whether `v` is of kind `k`.
pub open spec fn fits(v: RhizValue, k: ArgKind) -> bool {
    match (k, v) {
        (ArgKind::Text, RhizValue::String(_)) => true,
        (ArgKind::Word, RhizValue::String(_)) => true,
        (ArgKind::Word, RhizValue::Symbol(_)) => true,
        (ArgKind::Call, RhizValue::SExpr(_)) => true,
        _ => false,
    }
}

/// The position of the first of the first `n` arguments that is not of kind `k`.
pub open spec fn first_misfit(args: Seq<RhizValue>, k: ArgKind, n: int) -> Option<int>
    decreases n,
{
    if n <= 0 {
        None
    } else {
        match first_misfit(args, k, n - 1) {
            Some(p) => Some(p),
            None => if fits(args[n - 1], k) {
                None
            } else {
                Some(n - 1)
            },
        }
    }
}

/// The text of a string or symbol.
pub open spec fn word(v: RhizValue) -> Seq<char> {
    match v {
        RhizValue::String(s) => s@,
        RhizValue::Symbol(s) => s@,
        _ => Seq::empty(),
    }
}

/// The renderings of the first `n` arguments, separated by spaces.
pub open spec fn command_line(args: Seq<RhizValue>, n: int) -> Seq<char>
    decreases n,
{
    if n <= 0 {
        Seq::empty()
    } else if n == 1 {
        rendered(args[0])
    } else {
        command_line(args, n - 1) + " "@ + rendered(args[n - 1])
    }
}

/// The action of a builtin that takes one path or message.
pub open spec fn single_action(f: Builtin, t: Seq<char>) -> ActionModel {
    match f {
        Builtin::Log => ActionModel::Log(t),
        Builtin::Abort => ActionModel::Abort(t),
        Builtin::Delete => ActionModel::Delete(t),
        Builtin::DeleteDir => ActionModel::DeleteDir(t),
        _ => ActionModel::EmptyDir(t),
    }
}

/// The error for an argument at `p` that is not of kind `k`.
pub open spec fn misfit_error(f: Builtin, p: int, k: ArgKind) -> ErrorModel {
    ErrorModel::ArgKind { function: f, position: p as usize, expected: k }
}

/// What calling builtin `f` with `args` asks the host to do, or why the
/// arguments are refused.
pub open spec fn planned_builtin(f: Builtin, args: Seq<RhizValue>) -> Result<ActionModel, ErrorModel> {
    match f {
        Builtin::Exec => if args.len() == 0 {
            Err(ErrorModel::TooFewArgs { function: f, minimum: 1 })
        } else {
            match first_misfit(args, ArgKind::Word, args.len() as int) {
                Some(p) => Err(misfit_error(f, p, ArgKind::Word)),
                None => Ok(
                    ActionModel::Exec {
                        program: word(args[0]),
                        args: Seq::new((args.len() - 1) as nat, |i: int| word(args[i + 1])),
                        command_line: command_line(args, args.len() as int),
                    },
                ),
            }
        },
        Builtin::Par => match first_misfit(args, ArgKind::Call, args.len() as int) {
            Some(p) => Err(misfit_error(f, p, ArgKind::Call)),
            None => Ok(ActionModel::Par(args)),
        },
        Builtin::Copy => if args.len() != 2 {
            Err(ErrorModel::ArgCount { function: f, count: 2 })
        } else {
            match first_misfit(args, ArgKind::Text, 2) {
                Some(p) => Err(misfit_error(f, p, ArgKind::Text)),
                None => Ok(ActionModel::Copy(word(args[0]), word(args[1]))),
            }
        },
        Builtin::RecCopy => if args.len() != 2 {
            Err(ErrorModel::ArgCount { function: f, count: 2 })
        } else {
            match first_misfit(args, ArgKind::Text, 2) {
                Some(p) => Err(misfit_error(f, p, ArgKind::Text)),
                None => Ok(ActionModel::RecCopy(word(args[0]), word(args[1]))),
            }
        },
        _ => if args.len() != 1 {
            Err(ErrorModel::ArgCount { function: f, count: 1 })
        } else {
            match first_misfit(args, ArgKind::Text, 1) {
                Some(p) => Err(misfit_error(f, p, ArgKind::Text)),
                None => Ok(single_action(f, word(args[0]))),
            }
        },
    }
}

pub open spec fn planned_view<'a>(r: Result<Action<'a>, ExecutionError>) -> Result<ActionModel, ErrorModel> {
    match r {
        Ok(a) => Ok(a@),
        Err(e) => Err(e@),
    }
}

fn fits_kind(v: &RhizValue, k: ArgKind) -> (r: bool)
    ensures
        r == fits(*v, k),
{
    match (k, v) {
        (ArgKind::Text, RhizValue::String(_)) => true,
        (ArgKind::Word, RhizValue::String(_)) => true,
        (ArgKind::Word, RhizValue::Symbol(_)) => true,
        (ArgKind::Call, RhizValue::SExpr(_)) => true,
        _ => false,
    }
}

/// The position of the first argument that is not of kind `k`.
fn find_misfit(args: &[RhizValue], k: ArgKind) -> (r: Option<usize>)
    ensures
        match r {
            Some(p) => first_misfit(args@, k, args@.len() as int) == Some(p as int),
            None => first_misfit(args@, k, args@.len() as int) is None,
        },
{
    let mut i: usize = 0;
    while i < args.len()
        invariant
            i <= args@.len(),
            first_misfit(args@, k, i as int) is None,
        decreases args@.len() - i,
    {
        if !fits_kind(&args[i], k) {
            proof {
                lemma_misfit_stays(args@, k, i as int + 1, args@.len() as int);
            }
            return Some(i);
        }
        i = i + 1;
    }
    None
}

/// A misfit among the first `m` arguments is the misfit among the first `n >= m`.
proof fn lemma_misfit_stays(args: Seq<RhizValue>, k: ArgKind, m: int, n: int)
    requires
        m <= n,
        first_misfit(args, k, m) is Some,
    ensures
        first_misfit(args, k, n) == first_misfit(args, k, m),
    decreases n - m,
{
    if m < n {
        lemma_misfit_stays(args, k, m, n - 1);
    }
}

/// The text of a string or symbol argument.
fn word_of(v: &RhizValue) -> (r: String)
    ensures
        r@ == word(*v),
{
    match v {
        RhizValue::String(s) => copy_text(s),
        RhizValue::Symbol(s) => copy_text(s),
        _ => String::new(),
    }
}

/// Check the arguments of builtin `f` and make the action it asks for.
pub fn plan_builtin<'a>(f: Builtin, args: &'a [RhizValue]) -> (r: Result<Action<'a>, ExecutionError>)
    ensures
        planned_view(r) == planned_builtin(f, args@),
{
    match f {
        Builtin::Exec => {
            if args.len() == 0 {
                return Err(ExecutionError::TooFewArgs { function: f, minimum: 1 });
            }
            if let Some(p) = find_misfit(args, ArgKind::Word) {
                return Err(ExecutionError::ArgKind { function: f, position: p, expected: ArgKind::Word });
            }
            let program = word_of(&args[0]);
            let mut rest: Vec<String> = Vec::new();
            let mut line = args[0].render();
            let mut i: usize = 1;
            while i < args.len()
                invariant
                    1 <= i <= args@.len(),
                    first_misfit(args@, ArgKind::Word, args@.len() as int) is None,
                    texts(rest@) =~= Seq::new((i - 1) as nat, |j: int| word(args@[j + 1])),
                    line@ == command_line(args@, i as int),
                decreases args@.len() - i,
            {
                let w = word_of(&args[i]);
                let ghost before = rest@;
                rest.push(w);
                assert(texts(before).len() == i - 1);
                assert(texts(rest@)[i - 1] == word(args@[i as int]));
                assert forall|j: int| 0 <= j < i - 1 implies #[trigger] texts(rest@)[j] == texts(before)[j] by {}
                assert(texts(rest@) =~= Seq::new(i as nat, |j: int| word(args@[j + 1])));
                line.append(" ");
                let part = args[i].render();
                line.append(part.as_str());
                i = i + 1;
            }
            Ok(Action::Exec { program, args: rest, command_line: line })
        },
        Builtin::Par => {
            if let Some(p) = find_misfit(args, ArgKind::Call) {
                return Err(ExecutionError::ArgKind { function: f, position: p, expected: ArgKind::Call });
            }
            let mut calls: Vec<&'a RhizValue> = Vec::new();
            let mut i: usize = 0;
            while i < args.len()
                invariant
                    i <= args@.len(),
                    referenced(calls@) =~= args@.subrange(0, i as int),
                decreases args@.len() - i,
            {
                let ghost before = calls@;
                calls.push(&args[i]);
                assert(referenced(before).len() == i);
                assert(referenced(calls@) =~= args@.subrange(0, i + 1));
                i = i + 1;
            }
            assert(args@.subrange(0, args@.len() as int) =~= args@);
            Ok(Action::Par(calls))
        },
        Builtin::Copy | Builtin::RecCopy => {
            if args.len() != 2 {
                return Err(ExecutionError::ArgCount { function: f, count: 2 });
            }
            if let Some(p) = find_misfit(args, ArgKind::Text) {
                return Err(ExecutionError::ArgKind { function: f, position: p, expected: ArgKind::Text });
            }
            let from = word_of(&args[0]);
            let to = word_of(&args[1]);
            match f {
                Builtin::Copy => Ok(Action::Copy(from, to)),
                _ => Ok(Action::RecCopy(from, to)),
            }
        },
        _ => {
            if args.len() != 1 {
                return Err(ExecutionError::ArgCount { function: f, count: 1 });
            }
            if let Some(p) = find_misfit(args, ArgKind::Text) {
                return Err(ExecutionError::ArgKind { function: f, position: p, expected: ArgKind::Text });
            }
            let t = word_of(&args[0]);
            match f {
                Builtin::Log => Ok(Action::Log(t)),
                Builtin::Abort => Ok(Action::Abort(t)),
                Builtin::Delete => Ok(Action::Delete(t)),
                Builtin::DeleteDir => Ok(Action::DeleteDir(t)),
                _ => Ok(Action::EmptyDir(t)),
            }
        },
    }
}

/// What stands at a path.
#[derive(Debug, Clone, Copy, PartialEq, Eq, Structural)]
pub enum PathKind {
    Missing,
    File,
    Dir,
    /// Something that is neither a file nor a directory.
    Other,
}

/// How `empty-dir` brings about an empty directory.
#[derive(Debug, Clone, Copy, PartialEq, Eq, Structural)]
pub enum EmptyDirPlan {
    /// Create the directory, with its missing parents.
    Create,
    /// Remove everything inside the existing directory.
    Clear,
}

/// Where `copy` puts the file.
#[derive(Debug, Clone, Copy, PartialEq, Eq, Structural)]
pub enum CopyPlan {
    /// Inside the destination directory, under the source's file name.
    IntoDirectory,
    /// At the destination path itself.
    ToPath,
}

pub open spec fn unit_view(r: Result<(), ExecutionError>) -> Result<(), ErrorModel> {
    match r {
        Ok(_) => Ok(()),
        Err(e) => Err(e@),
    }
}

pub open spec fn plan_view<T>(r: Result<T, ExecutionError>) -> Result<T, ErrorModel> {
    match r {
        Ok(p) => Ok(p),
        Err(e) => Err(e@),
    }
}

/// What `empty-dir` does with `path`, at which `kind` stands.
pub open spec fn empty_dir_decision(path: Seq<char>, kind: PathKind) -> Result<EmptyDirPlan, ErrorModel> {
    match kind {
        PathKind::Missing => Ok(EmptyDirPlan::Create),
        PathKind::Dir => Ok(EmptyDirPlan::Clear),
        _ => Err(ErrorModel::NotADirectory { function: Builtin::EmptyDir, path }),
    }
}

/// Decide what `empty-dir` does with `path`, at which `kind` stands: create
/// what is missing, clear a directory, and refuse anything else.
pub fn empty_dir_plan(path: &String, kind: PathKind) -> (r: Result<EmptyDirPlan, ExecutionError>)
    ensures
        plan_view(r) == empty_dir_decision(path@, kind),
{
    match kind {
        PathKind::Missing => Ok(EmptyDirPlan::Create),
        PathKind::Dir => Ok(EmptyDirPlan::Clear),
        _ => Err(ExecutionError::NotADirectory { function: Builtin::EmptyDir, path: copy_text(path) }),
    }
}

/// Whether `delete` may remove `path`, at which `kind` stands.
pub open spec fn delete_decision(path: Seq<char>, kind: PathKind) -> Result<(), ErrorModel> {
    match kind {
        PathKind::Missing => Err(ErrorModel::Missing { function: Builtin::Delete, path }),
        PathKind::Dir => Err(ErrorModel::NotAFile { function: Builtin::Delete, path }),
        _ => Ok(()),
    }
}

/// Check that `delete` may remove `path`: something that is not a directory
/// must stand there.
pub fn delete_check(path: &String, kind: PathKind) -> (r: Result<(), ExecutionError>)
    ensures
        unit_view(r) == delete_decision(path@, kind),
{
    match kind {
        PathKind::Missing => Err(ExecutionError::Missing { function: Builtin::Delete, path: copy_text(path) }),
        PathKind::Dir => Err(ExecutionError::NotAFile { function: Builtin::Delete, path: copy_text(path) }),
        _ => Ok(()),
    }
}

/// Whether `delete-dir` may remove `path`, at which `kind` stands.
pub open spec fn delete_dir_decision(path: Seq<char>, kind: PathKind) -> Result<(), ErrorModel> {
    match kind {
        PathKind::Missing => Err(ErrorModel::Missing { function: Builtin::DeleteDir, path }),
        PathKind::Dir => Ok(()),
        _ => Err(ErrorModel::NotADirectory { function: Builtin::DeleteDir, path }),
    }
}

/// Check that `delete-dir` may remove `path`: a directory must stand there.
pub fn delete_dir_check(path: &String, kind: PathKind) -> (r: Result<(), ExecutionError>)
    ensures
        unit_view(r) == delete_dir_decision(path@, kind),
{
    match kind {
        PathKind::Missing => Err(ExecutionError::Missing { function: Builtin::DeleteDir, path: copy_text(path) }),
        PathKind::Dir => Ok(()),
        _ => Err(ExecutionError::NotADirectory { function: Builtin::DeleteDir, path: copy_text(path) }),
    }
}

/// Where `copy` puts `src` when `src_kind` stands at `src`, `dest_kind` at
/// `dest`, and `inner_kind` at the path inside `dest` that bears the file
/// name of `src`. An existing file is never overwritten.
pub open spec fn copy_decision(
    src: Seq<char>,
    dest: Seq<char>,
    src_kind: PathKind,
    dest_kind: PathKind,
    inner_kind: PathKind,
) -> Result<CopyPlan, ErrorModel> {
    if src_kind is Missing {
        Err(ErrorModel::Missing { function: Builtin::Copy, path: src })
    } else if !(src_kind is File) {
        Err(ErrorModel::NotAFile { function: Builtin::Copy, path: src })
    } else if dest_kind is Dir {
        if inner_kind is Missing {
            Ok(CopyPlan::IntoDirectory)
        } else {
            Err(ErrorModel::AlreadyExists { function: Builtin::Copy, path: dest })
        }
    } else if dest_kind is Missing {
        Ok(CopyPlan::ToPath)
    } else {
        Err(ErrorModel::AlreadyExists { function: Builtin::Copy, path: dest })
    }
}

/// Decide where `copy` puts `src` (see [`copy_decision`]).
pub fn copy_plan(
    src: &String,
    dest: &String,
    src_kind: PathKind,
    dest_kind: PathKind,
    inner_kind: PathKind,
) -> (r: Result<CopyPlan, ExecutionError>)
    ensures
        plan_view(r) == copy_decision(src@, dest@, src_kind, dest_kind, inner_kind),
{
    match (src_kind, dest_kind, inner_kind) {
        (PathKind::Missing, _, _) => Err(ExecutionError::Missing { function: Builtin::Copy, path: copy_text(src) }),
        (PathKind::File, PathKind::Dir, PathKind::Missing) => Ok(CopyPlan::IntoDirectory),
        (PathKind::File, PathKind::Missing, _) => Ok(CopyPlan::ToPath),
        (PathKind::File, _, _) => Err(ExecutionError::AlreadyExists { function: Builtin::Copy, path: copy_text(dest) }),
        _ => Err(ExecutionError::NotAFile { function: Builtin::Copy, path: copy_text(src) }),
    }
}

/// Whether `rec-copy` may copy from `src` into `dest`, at which `src_kind`
/// and `dest_kind` stand.
pub open spec fn rec_copy_decision(
    src: Seq<char>,
    dest: Seq<char>,
    src_kind: PathKind,
    dest_kind: PathKind,
) -> Result<(), ErrorModel> {
    if src_kind is Missing {
        Err(ErrorModel::Missing { function: Builtin::RecCopy, path: src })
    } else if !(src_kind is Dir) {
        Err(ErrorModel::NotADirectory { function: Builtin::RecCopy, path: src })
    } else if dest_kind is Missing {
        Err(ErrorModel::Missing { function: Builtin::RecCopy, path: dest })
    } else if !(dest_kind is Dir) {
        Err(ErrorModel::NotADirectory { function: Builtin::RecCopy, path: dest })
    } else {
        Ok(())
    }
}

/// Check that `rec-copy` may copy from `src` into `dest`: both must be
/// existing directories.
pub fn rec_copy_check(src: &String, dest: &String, src_kind: PathKind, dest_kind: PathKind) -> (r: Result<(), ExecutionError>)
    ensures
        unit_view(r) == rec_copy_decision(src@, dest@, src_kind, dest_kind),
{
    match (src_kind, dest_kind) {
        (PathKind::Missing, _) => Err(ExecutionError::Missing { function: Builtin::RecCopy, path: copy_text(src) }),
        (PathKind::Dir, PathKind::Missing) => Err(ExecutionError::Missing { function: Builtin::RecCopy, path: copy_text(dest) }),
        (PathKind::Dir, PathKind::Dir) => Ok(()),
        (PathKind::Dir, _) => Err(ExecutionError::NotADirectory { function: Builtin::RecCopy, path: copy_text(dest) }),
        _ => Err(ExecutionError::NotADirectory { function: Builtin::RecCopy, path: copy_text(src) }),
    }
}

/// `copy` never overwrites: when a file or anything else already stands at
/// the destination, or at the path inside a destination directory that bears
/// the source's file name, the copy is refused and nothing is written.
pub proof fn lemma_copy_never_clobbers(
    src: Seq<char>,
    dest: Seq<char>,
    src_kind: PathKind,
    dest_kind: PathKind,
    inner_kind: PathKind,
)
    requires
        !(dest_kind is Missing),
        dest_kind is Dir ==> !(inner_kind is Missing),
    ensures
        copy_decision(src, dest, src_kind, dest_kind, inner_kind) is Err,
{
}

/// `empty-dir` can be repeated: whenever it succeeds, a directory stands at
/// the path afterwards, and on a directory it always succeeds again by
/// clearing it.
pub proof fn lemma_empty_dir_repeatable(path: Seq<char>, kind: PathKind)
    ensures
        empty_dir_decision(path, kind) is Ok <==> (kind is Missing || kind is Dir),
        empty_dir_decision(path, PathKind::Dir) == Ok::<EmptyDirPlan, ErrorModel>(EmptyDirPlan::Clear),
{
}

} // verus!
