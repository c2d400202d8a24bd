//! Runs tasks: plans each call of a body as an action for the host to
//! perform, and decides from the reported outcomes how the task goes on.
use vstd::prelude::*;

use crate::ast::RhizValue;
use crate::compiler::{referenced, TaskMap};
use crate::text::{copy_text, decimal, decimal_text, signed_decimal, signed_decimal_text};
use crate::functions::{
    look_up_function, plan_builtin, planned_builtin, planned_view, resolve, Action, ActionModel,
    ArgKind, Builtin,
};

verus! {

/// Why running a task failed.
#[derive(Debug, PartialEq, Eq)]
pub enum ExecutionError {
    /// No task has this name.
    NoSuchTask(String),
    /// A call with nothing in it.
    EmptyExpression,
    /// The head of a call, rendered, names no builtin.
    InvalidFunction(String),
    /// The builtin takes exactly this many arguments.
    ArgCount { function: Builtin, count: usize },
    /// The builtin takes at least this many arguments.
    TooFewArgs { function: Builtin, minimum: usize },
    /// The argument at this position is not of the kind the builtin needs.
    ArgKind { function: Builtin, position: usize, expected: ArgKind },
    /// `abort` was called with this message.
    Aborted(String),
    /// An external command, described by its command line, did not succeed.
    CommandFailed { command: String, code: Option<i32> },
    /// Nothing stands at the path.
    Missing { function: Builtin, path: String },
    /// The path is not a file.
    NotAFile { function: Builtin, path: String },
    /// The path is not a directory.
    NotADirectory { function: Builtin, path: String },
    /// The path is already taken.
    AlreadyExists { function: Builtin, path: String },
    /// The host failed to perform an action, for this reason.
    Io(String),
}

/// The mathematical content of an [`ExecutionError`].
pub enum ErrorModel {
    NoSuchTask(Seq<char>),
    EmptyExpression,
    InvalidFunction(Seq<char>),
    ArgCount { function: Builtin, count: usize },
    TooFewArgs { function: Builtin, minimum: usize },
    ArgKind { function: Builtin, position: usize, expected: ArgKind },
    Aborted(Seq<char>),
    CommandFailed { command: Seq<char>, code: Option<i32> },
    Missing { function: Builtin, path: Seq<char> },
    NotAFile { function: Builtin, path: Seq<char> },
    NotADirectory { function: Builtin, path: Seq<char> },
    AlreadyExists { function: Builtin, path: Seq<char> },
    Io(Seq<char>),
}

impl View for ExecutionError {
    type V = ErrorModel;

    open spec fn view(&self) -> ErrorModel {
        match self {
            ExecutionError::NoSuchTask(n) => ErrorModel::NoSuchTask(n@),
            ExecutionError::EmptyExpression => ErrorModel::EmptyExpression,
            ExecutionError::InvalidFunction(n) => ErrorModel::InvalidFunction(n@),
            ExecutionError::ArgCount { function, count } => ErrorModel::ArgCount {
                function: *function,
                count: *count,
            },
            ExecutionError::TooFewArgs { function, minimum } => ErrorModel::TooFewArgs {
                function: *function,
                minimum: *minimum,
            },
            ExecutionError::ArgKind { function, position, expected } => ErrorModel::ArgKind {
                function: *function,
                position: *position,
                expected: *expected,
            },
            ExecutionError::Aborted(t) => ErrorModel::Aborted(t@),
            ExecutionError::CommandFailed { command, code } => ErrorModel::CommandFailed {
                command: command@,
                code: *code,
            },
            ExecutionError::Missing { function, path } => ErrorModel::Missing {
                function: *function,
                path: path@,
            },
            ExecutionError::NotAFile { function, path } => ErrorModel::NotAFile {
                function: *function,
                path: path@,
            },
            ExecutionError::NotADirectory { function, path } => ErrorModel::NotADirectory {
                function: *function,
                path: path@,
            },
            ExecutionError::AlreadyExists { function, path } => ErrorModel::AlreadyExists {
                function: *function,
                path: path@,
            },
            ExecutionError::Io(m) => ErrorModel::Io(m@),
        }
    }
}

/// What calling the function named by `func` with `args` asks the host to do.
pub open spec fn planned(func: RhizValue, args: Seq<RhizValue>) -> Result<ActionModel, ErrorModel> {
    match resolve(func) {
        Some(f) => planned_builtin(f, args),
        None => Err(ErrorModel::InvalidFunction(crate::ast::rendered(func))),
    }
}

/// What evaluating the call whose contents are `contents` asks the host to do.
pub open spec fn planned_call(contents: Seq<RhizValue>) -> Result<ActionModel, ErrorModel> {
    if contents.len() == 0 {
        Err(ErrorModel::EmptyExpression)
    } else {
        planned(contents[0], contents.drop_first())
    }
}

/// Resolve `func_name` to a builtin and check `args` against it.
pub fn execute<'a>(func_name: &'a RhizValue, args: &'a [RhizValue]) -> (r: Result<Action<'a>, ExecutionError>)
    ensures
        planned_view(r) == planned(*func_name, args@),
{
    match look_up_function(func_name) {
        Some(f) => plan_builtin(f, args),
        None => Err(ExecutionError::InvalidFunction(func_name.render())),
    }
}

/// Evaluate a call given by its contents: the head names the builtin, the
/// rest are its arguments.
pub fn exec_sexpr<'a>(contents: &'a [RhizValue]) -> (r: Result<Action<'a>, ExecutionError>)
    ensures
        planned_view(r) == planned_call(contents@),
{
    if contents.len() == 0 {
        return Err(ExecutionError::EmptyExpression);
    }
    let args = &contents[1..contents.len()];
    assert(args@ =~= contents@.drop_first());
    execute(&contents[0], args)
}

/// Where a run of a task stands.
#[derive(Debug)]
pub enum Phase {
    /// The next call may be planned.
    Ready,
    /// An action was handed out and its outcome is awaited; it carries the
    /// message of an `abort`, which fails once its message is written.
    Waiting(Option<String>),
    /// An action failed; the run ends with this error at the next step.
    Failed(ExecutionError),
    /// The run has ended.
    Done,
}

pub enum PhaseModel {
    Ready,
    Waiting(Option<Seq<char>>),
    Failed(ErrorModel),
    Done,
}

/// A run of the calls of a task body, one at a time and in order. The host
/// asks for the next step, performs the action it names, and records the
/// outcome, until a step says that the run is finished.
#[derive(Debug)]
pub struct TaskRun<'a> {
    calls: Vec<&'a RhizValue>,
    next: usize,
    phase: Phase,
}

/// The mathematical content of a [`TaskRun`]: the calls, the position of the
/// call being run or to be run next, and the phase.
pub struct RunModel {
    pub calls: Seq<RhizValue>,
    pub next: nat,
    pub phase: PhaseModel,
}

/// What the host does next.
#[derive(Debug)]
pub enum Step<'a> {
    /// Perform this action and record its outcome.
    Perform(Action<'a>),
    /// The run is over, with this result.
    Finished(Result<(), ExecutionError>),
}

pub enum StepModel {
    Perform(ActionModel),
    Finished(Result<(), ErrorModel>),
}

pub open spec fn outcome_view(r: Result<(), ExecutionError>) -> Result<(), ErrorModel> {
    match r {
        Ok(_) => Ok(()),
        Err(e) => Err(e@),
    }
}

impl<'a> View for Step<'a> {
    type V = StepModel;

    open spec fn view(&self) -> StepModel {
        match self {
            Step::Perform(a) => StepModel::Perform(a@),
            Step::Finished(r) => StepModel::Finished(outcome_view(*r)),
        }
    }
}

impl View for Phase {
    type V = PhaseModel;

    open spec fn view(&self) -> PhaseModel {
        match self {
            Phase::Ready => PhaseModel::Ready,
            Phase::Waiting(Some(t)) => PhaseModel::Waiting(Some(t@)),
            Phase::Waiting(None) => PhaseModel::Waiting(None),
            Phase::Failed(e) => PhaseModel::Failed(e@),
            Phase::Done => PhaseModel::Done,
        }
    }
}

impl<'a> View for TaskRun<'a> {
    type V = RunModel;

    closed spec fn view(&self) -> RunModel {
        RunModel { calls: referenced(self.calls@), next: self.next as nat, phase: self.phase@ }
    }
}

/// The contents of a call; anything else counts as an empty call.
pub open spec fn contents_of(v: RhizValue) -> Seq<RhizValue> {
    match v {
        RhizValue::SExpr(items) => items@,
        _ => Seq::empty(),
    }
}

/// The message that an action fails with once performed, for `abort`.
pub open spec fn abort_message(a: ActionModel) -> Option<Seq<char>> {
    match a {
        ActionModel::Abort(t) => Some(t),
        _ => None,
    }
}

/// Whether the host may ask `run` for its next step.
pub open spec fn can_step(run: RunModel) -> bool {
    run.phase is Ready || run.phase is Failed
}

/// Whether `run` awaits the outcome of an action.
pub open spec fn awaits(run: RunModel) -> bool {
    run.phase is Waiting
}

/// The run after its next step, and that step. A recorded failure ends the
/// run; otherwise the call at `next` is planned, and a call that cannot be
/// planned ends the run with its error; after the last call the run succeeds.
pub open spec fn next_of(run: RunModel) -> (RunModel, StepModel) {
    match run.phase {
        PhaseModel::Failed(e) => (
            RunModel { phase: PhaseModel::Done, ..run },
            StepModel::Finished(Err(e)),
        ),
        _ => if run.next >= run.calls.len() {
            (RunModel { phase: PhaseModel::Done, ..run }, StepModel::Finished(Ok(())))
        } else {
            match planned_call(contents_of(run.calls[run.next as int])) {
                Ok(a) => (
                    RunModel { phase: PhaseModel::Waiting(abort_message(a)), ..run },
                    StepModel::Perform(a),
                ),
                Err(e) => (RunModel { phase: PhaseModel::Done, ..run }, StepModel::Finished(Err(e))),
            }
        },
    }
}

/// The run after the awaited action came out as `outcome`: a failure is
/// kept for the next step, an `abort` fails with its message, and any other
/// success moves on to the following call.
pub open spec fn recorded(run: RunModel, outcome: Result<(), ErrorModel>) -> RunModel {
    match outcome {
        Err(e) => RunModel { phase: PhaseModel::Failed(e), ..run },
        Ok(_) => match run.phase {
            PhaseModel::Waiting(Some(t)) => RunModel { phase: PhaseModel::Failed(ErrorModel::Aborted(t)), ..run },
            _ => RunModel { next: run.next + 1, phase: PhaseModel::Ready, ..run },
        },
    }
}

impl<'a> TaskRun<'a> {
    /// The position of the current call stays within the body.
    #[verifier::type_invariant]
    closed spec fn within_body(&self) -> bool {
        &&& self.next <= self.calls.len()
        &&& self.phase is Waiting ==> self.next < self.calls.len()
    }

    /// A run of the single call `call`, as `par` runs each of its calls.
    pub fn of_call(call: &'a RhizValue) -> (r: TaskRun<'a>)
        ensures
            r@ == (RunModel { calls: seq![*call], next: 0, phase: PhaseModel::Ready }),
    {
        let mut calls: Vec<&'a RhizValue> = Vec::new();
        calls.push(call);
        let r = TaskRun { calls, next: 0, phase: Phase::Ready };
        assert(r@.calls =~= seq![*call]);
        r
    }

    /// Whether the next step may be asked for (else an outcome is awaited,
    /// or the run is over).
    pub fn is_ready(&self) -> (r: bool)
        ensures
            r == can_step(self@),
    {
        match self.phase {
            Phase::Ready => true,
            Phase::Failed(_) => true,
            _ => false,
        }
    }

    /// Whether the outcome of an action is awaited.
    pub fn is_waiting(&self) -> (r: bool)
        ensures
            r == awaits(self@),
    {
        match self.phase {
            Phase::Waiting(_) => true,
            _ => false,
        }
    }

    /// Take the next step of the run.
    pub fn next_step(&mut self) -> (r: Step<'a>)
        requires
            can_step(old(self)@),
        ensures
            (final(self)@, r@) == next_of(old(self)@),
    {
        proof {
            use_type_invariant(&*self);
        }
        let mut phase = Phase::Done;
        std::mem::swap(&mut phase, &mut self.phase);
        if let Phase::Failed(e) = phase {
            return Step::Finished(Err(e));
        }
        if self.next >= self.calls.len() {
            return Step::Finished(Ok(()));
        }
        let call: &'a RhizValue = self.calls[self.next];
        let planned = match call {
            RhizValue::SExpr(items) => exec_sexpr(items.as_slice()),
            _ => Err(ExecutionError::EmptyExpression),
        };
        match planned {
            Ok(a) => {
                let pending = match &a {
                    Action::Abort(t) => Some(copy_text(t)),
                    _ => None,
                };
                self.phase = Phase::Waiting(pending);
                Step::Perform(a)
            },
            Err(e) => Step::Finished(Err(e)),
        }
    }

    /// Record the outcome of the action of the last step.
    pub fn record(&mut self, outcome: Result<(), ExecutionError>)
        requires
            awaits(old(self)@),
        ensures
            final(self)@ == recorded(old(self)@, outcome_view(outcome)),
    {
        proof {
            use_type_invariant(&*self);
        }
        match outcome {
            Err(e) => {
                self.phase = Phase::Failed(e);
            },
            Ok(()) => {
                let mut phase = Phase::Done;
                std::mem::swap(&mut phase, &mut self.phase);
                match phase {
                    Phase::Waiting(Some(t)) => {
                        self.phase = Phase::Failed(ExecutionError::Aborted(t));
                    },
                    _ => {
                        self.next = self.next + 1;
                        self.phase = Phase::Ready;
                    },
                }
            },
        }
    }
}

/// Start a run of the task named `task_name`.
pub fn exec_task<'a>(task_name: &str, tasks: &TaskMap<'a>) -> (r: Result<TaskRun<'a>, ExecutionError>)
    ensures
        match r {
            Ok(run) => {
                &&& tasks@.contains_key(task_name@)
                &&& run@ == (RunModel { calls: tasks@[task_name@].body, next: 0, phase: PhaseModel::Ready })
            },
            Err(e) => !tasks@.contains_key(task_name@) && e@ == ErrorModel::NoSuchTask(task_name@),
        },
{
    let task = match tasks.get(task_name) {
        Some(t) => t,
        None => return Err(ExecutionError::NoSuchTask(task_name.to_owned())),
    };
    let mut calls: Vec<&'a RhizValue> = Vec::new();
    let mut i: usize = 0;
    while i < task.items.len()
        invariant
            i <= task.items@.len(),
            referenced(calls@) =~= referenced(task.items@).subrange(0, i as int),
        decreases task.items@.len() - i,
    {
        let ghost before = calls@;
        calls.push(task.items[i]);
        assert(referenced(before).len() == i);
        assert(referenced(calls@) =~= referenced(task.items@).subrange(0, i + 1));
        i = i + 1;
    }
    let run = TaskRun { calls, next: 0, phase: Phase::Ready };
    assert(run@.calls =~= referenced(task.items@));
    Ok(run)
}

/// The first failure among the first `n` outcomes, or success if there is none.
pub open spec fn first_failure(outcomes: Seq<Result<(), ErrorModel>>, n: int) -> Result<(), ErrorModel>
    decreases n,
{
    if n <= 0 {
        Ok(())
    } else {
        match first_failure(outcomes, n - 1) {
            Err(e) => Err(e),
            Ok(_) => outcomes[n - 1],
        }
    }
}

pub open spec fn outcome_views(v: Seq<Result<(), ExecutionError>>) -> Seq<Result<(), ErrorModel>> {
    Seq::new(v.len(), |i: int| outcome_view(v[i]))
}

/// A failure among the first `m` outcomes is the failure among the first `n >= m`.
proof fn lemma_failure_stays(outcomes: Seq<Result<(), ErrorModel>>, m: int, n: int)
    requires
        m <= n,
        first_failure(outcomes, m) is Err,
    ensures
        first_failure(outcomes, n) == first_failure(outcomes, m),
    decreases n - m,
{
    if m < n {
        lemma_failure_stays(outcomes, m, n - 1);
    }
}

/// The outcome of `par` from the outcomes of its calls, in declaration order:
/// the failure of the first call that failed, or success.
pub fn join_outcomes(outcomes: Vec<Result<(), ExecutionError>>) -> (r: Result<(), ExecutionError>)
    ensures
        outcome_view(r) == first_failure(outcome_views(outcomes@), outcomes@.len() as int),
{
    let ghost views = outcome_views(outcomes@);
    let mut pending = outcomes;
    let mut i: usize = 0;
    while i < pending.len()
        invariant
            i <= pending@.len(),
            views == outcome_views(pending@),
            pending@ == outcomes@,
            first_failure(views, i as int) is Ok,
        decreases pending@.len() - i,
    {
        if pending[i].is_err() {
            proof {
                lemma_failure_stays(views, i + 1, views.len() as int);
            }
            return pending.remove(i);
        }
        i = i + 1;
    }
    Ok(())
}

/// The outcome of an external command that exited with `success` and,
/// when it exited normally, with status `code`.
pub fn command_outcome(command_line: String, success: bool, code: Option<i32>) -> (r: Result<(), ExecutionError>)
    ensures
        success ==> r is Ok,
        !success ==> outcome_view(r) == Err::<(), ErrorModel>(ErrorModel::CommandFailed { command: command_line@, code }),
{
    if success {
        Ok(())
    } else {
        Err(ExecutionError::CommandFailed { command: command_line, code })
    }
}

/// How an argument kind is described.
pub open spec fn kind_text(k: ArgKind) -> Seq<char> {
    match k {
        ArgKind::Text => "a string"@,
        ArgKind::Word => "a string or a symbol"@,
        ArgKind::Call => "a call"@,
    }
}

/// The description of a path error of builtin `f`.
pub open spec fn path_text(f: Builtin, path: Seq<char>, tail: Seq<char>) -> Seq<char> {
    "`"@ + f.spec_name() + "`: '"@ + path + tail
}

/// The description of an execution error.
pub open spec fn error_text(e: ErrorModel) -> Seq<char> {
    match e {
        ErrorModel::NoSuchTask(n) => "no such task: '"@ + n + "'"@,
        ErrorModel::EmptyExpression => "cannot evaluate an empty expression"@,
        ErrorModel::InvalidFunction(h) => "invalid function: "@ + h,
        ErrorModel::ArgCount { function, count } => "`"@ + function.spec_name() + "` takes "@ + decimal(
            count as nat,
        ) + " argument(s)"@,
        ErrorModel::TooFewArgs { function, minimum } => "`"@ + function.spec_name() + "` needs at least "@
            + decimal(minimum as nat) + " argument(s)"@,
        ErrorModel::ArgKind { function, position, expected } => "argument "@ + decimal(position as nat)
            + " to `"@ + function.spec_name() + "` must be "@ + kind_text(expected),
        ErrorModel::Aborted(t) => "aborted: "@ + t,
        ErrorModel::CommandFailed { command, code } => "external command returned an error code: "@
            + command + match code {
            Some(c) => " (exit code: "@ + signed_decimal(c as int) + ")"@,
            None => Seq::empty(),
        },
        ErrorModel::Missing { function, path } => path_text(function, path, "' does not exist"@),
        ErrorModel::NotAFile { function, path } => path_text(function, path, "' is not a file"@),
        ErrorModel::NotADirectory { function, path } => path_text(function, path, "' is not a directory"@),
        ErrorModel::AlreadyExists { function, path } => path_text(function, path, "' already exists"@),
        ErrorModel::Io(m) => m,
    }
}

fn kind_description(k: ArgKind) -> (r: &'static str)
    ensures
        r@ == kind_text(k),
{
    match k {
        ArgKind::Text => "a string",
        ArgKind::Word => "a string or a symbol",
        ArgKind::Call => "a call",
    }
}

fn path_message(f: Builtin, path: &String, tail: &str) -> (r: String)
    ensures
        r@ == path_text(f, path@, tail@),
{
    let mut r = "`".to_owned();
    r.append(f.name());
    r.append("`: '");
    r.append(path.as_str());
    r.append(tail);
    r
}

impl ExecutionError {
    /// A description of the error.
    pub fn message(&self) -> (r: String)
        ensures
            r@ == error_text(self@),
    {
        match self {
            ExecutionError::NoSuchTask(n) => {
                let mut r = "no such task: '".to_owned();
                r.append(n.as_str());
                r.append("'");
                r
            },
            ExecutionError::EmptyExpression => "cannot evaluate an empty expression".to_owned(),
            ExecutionError::InvalidFunction(h) => {
                let mut r = "invalid function: ".to_owned();
                r.append(h.as_str());
                r
            },
            ExecutionError::ArgCount { function, count } => {
                let mut r = "`".to_owned();
                r.append(function.name());
                r.append("` takes ");
                let n = decimal_text(*count as u64);
                r.append(n.as_str());
                r.append(" argument(s)");
                r
            },
            ExecutionError::TooFewArgs { function, minimum } => {
                let mut r = "`".to_owned();
                r.append(function.name());
                r.append("` needs at least ");
                let n = decimal_text(*minimum as u64);
                r.append(n.as_str());
                r.append(" argument(s)");
                r
            },
            ExecutionError::ArgKind { function, position, expected } => {
                let mut r = "argument ".to_owned();
                let n = decimal_text(*position as u64);
                r.append(n.as_str());
                r.append(" to `");
                r.append(function.name());
                r.append("` must be ");
                r.append(kind_description(*expected));
                r
            },
            ExecutionError::Aborted(t) => {
                let mut r = "aborted: ".to_owned();
                r.append(t.as_str());
                r
            },
            ExecutionError::CommandFailed { command, code } => {
                let mut r = "external command returned an error code: ".to_owned();
                r.append(command.as_str());
                if let Some(c) = code {
                    r.append(" (exit code: ");
                    let n = signed_decimal_text(*c);
                    r.append(n.as_str());
                    r.append(")");
                } else {
                    assert(r@ + Seq::<char>::empty() =~= r@);
                }
                r
            },
            ExecutionError::Missing { function, path } => path_message(*function, path, "' does not exist"),
            ExecutionError::NotAFile { function, path } => path_message(*function, path, "' is not a file"),
            ExecutionError::NotADirectory { function, path } => path_message(*function, path, "' is not a directory"),
            ExecutionError::AlreadyExists { function, path } => path_message(*function, path, "' already exists"),
            ExecutionError::Io(m) => copy_text(m),
        }
    }
}

/// Runs stop at the first failure. In a body of three calls whose first two
/// can be planned and are no `abort`, the first action is performed; when it
/// succeeds the second is performed; when that one fails, the run finishes
/// with its failure and is over, so the third call is never performed.
pub proof fn lemma_sequential_fail_fast(a: RhizValue, b: RhizValue, c: RhizValue, e: ErrorModel)
    requires
        planned_call(contents_of(a)) is Ok,
        planned_call(contents_of(b)) is Ok,
        !(planned_call(contents_of(a))->Ok_0 is Abort),
        !(planned_call(contents_of(b))->Ok_0 is Abort),
    ensures
        ({
            let start = RunModel { calls: seq![a, b, c], next: 0, phase: PhaseModel::Ready };
            let (s1, first) = next_of(start);
            let (s2, second) = next_of(recorded(s1, Ok(())));
            let (s3, last) = next_of(recorded(s2, Err(e)));
            &&& first == StepModel::Perform(planned_call(contents_of(a))->Ok_0)
            &&& can_step(recorded(s1, Ok(())))
            &&& second == StepModel::Perform(planned_call(contents_of(b))->Ok_0)
            &&& can_step(recorded(s2, Err(e)))
            &&& last == StepModel::Finished(Err(e))
            &&& !can_step(s3) && !awaits(s3)
        }),
{
}

/// A failure recorded at any point ends the run with that failure at the
/// next step, after which the run is over.
pub proof fn lemma_failure_ends_run(run: RunModel, e: ErrorModel)
    requires
        awaits(run),
    ensures
        can_step(recorded(run, Err(e))),
        next_of(recorded(run, Err(e))).1 == StepModel::Finished(Err(e)),
        !can_step(next_of(recorded(run, Err(e))).0),
        !awaits(next_of(recorded(run, Err(e))).0),
{
}

/// `par` hands every one of its calls to the host, so that a failing call
/// cancels none of the others, and it fails when any of them fails, with the
/// failure of the first failing call in declaration order.
pub proof fn lemma_par_no_cancellation(func: RhizValue, calls: Seq<RhizValue>, outcomes: Seq<Result<(), ErrorModel>>)
    requires
        resolve(func) == Some(Builtin::Par),
        forall|i: int| 0 <= i < calls.len() ==> #[trigger] calls[i] is SExpr,
        outcomes.len() == calls.len(),
    ensures
        planned(func, calls) == Ok::<ActionModel, ErrorModel>(ActionModel::Par(calls)),
        (forall|i: int| 0 <= i < outcomes.len() ==> #[trigger] outcomes[i] is Ok) ==> first_failure(
            outcomes,
            outcomes.len() as int,
        ) is Ok,
        forall|i: int|
            0 <= i < outcomes.len() && #[trigger] outcomes[i] is Err && (forall|j: int|
                0 <= j < i ==> #[trigger] outcomes[j] is Ok) ==> first_failure(outcomes, outcomes.len() as int)
                == outcomes[i],
{
    lemma_all_fit(calls, calls.len() as int);
    lemma_first_failure_all_ok(outcomes, outcomes.len() as int);
    assert forall|i: int|
        0 <= i < outcomes.len() && #[trigger] outcomes[i] is Err && (forall|j: int|
            0 <= j < i ==> #[trigger] outcomes[j] is Ok) implies first_failure(outcomes, outcomes.len() as int)
        == outcomes[i] by {
        lemma_first_failure_all_ok(outcomes, i);
        lemma_failure_stays(outcomes, i + 1, outcomes.len() as int);
    }
}

proof fn lemma_all_fit(calls: Seq<RhizValue>, n: int)
    requires
        n <= calls.len(),
        forall|i: int| 0 <= i < calls.len() ==> #[trigger] calls[i] is SExpr,
    ensures
        crate::functions::first_misfit(calls, ArgKind::Call, n) is None,
    decreases n,
{
    if n > 0 {
        lemma_all_fit(calls, n - 1);
    }
}

proof fn lemma_first_failure_all_ok(outcomes: Seq<Result<(), ErrorModel>>, n: int)
    requires
        n <= outcomes.len(),
    ensures
        (forall|i: int| 0 <= i < n ==> #[trigger] outcomes[i] is Ok) ==> first_failure(outcomes, n) is Ok,
    decreases n,
{
    if n > 0 {
        lemma_first_failure_all_ok(outcomes, n - 1);
    }
}

} // verus!
