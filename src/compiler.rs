//! Turns a parsed program into named tasks.
use vstd::prelude::*;

use crate::ast::{RhizValue, Tree};
use crate::parser::{rule_parse, ParseError, Rule};
use crate::text::{copy_text, decimal, decimal_text, text_is};

verus! {

/// Why a program does not compile. Each declaration-level variant carries the
/// index of the offending top-level declaration.
#[derive(Debug, Clone, Copy, PartialEq, Eq, Structural)]
pub enum CompileError {
    /// The value handed to the compiler is not a whole program.
    NotAProgram,
    /// A top-level form is not a `(task ...)` declaration.
    NotATask(usize),
    /// A task declaration has no string literal as its name.
    BadName(usize),
    /// A task body holds something other than a call.
    BodyNotCall(usize),
}

/// Compilation target for s-expressions of the format
/// `(task "name" ["description"] [funcall]*)`.
#[derive(Debug)]
pub struct Task<'a> {
    pub name: String,
    pub description: Option<String>,
    /// The calls of the body, borrowed from the parsed program.
    pub items: Vec<&'a RhizValue>,
}

/// What a task is: its name, its description and the calls of its body.
pub struct TaskModel {
    pub name: Seq<char>,
    pub description: Option<Seq<char>>,
    pub body: Seq<RhizValue>,
}

impl<'a> View for Task<'a> {
    type V = TaskModel;

    open spec fn view(&self) -> TaskModel {
        TaskModel {
            name: self.name@,
            description: match self.description {
                Some(d) => Some(d@),
                None => None,
            },
            body: referenced(self.items@),
        }
    }
}

/// The values that a sequence of references points to.
pub open spec fn referenced(refs: Seq<&RhizValue>) -> Seq<RhizValue> {
    Seq::new(refs.len(), |i: int| *refs[i])
}

/// Whether every value of `vs` is a call.
pub open spec fn all_calls(vs: Seq<RhizValue>) -> bool {
    forall|k: int| 0 <= k < vs.len() ==> #[trigger] vs[k] is SExpr
}

pub open spec fn is_task_head(v: RhizValue) -> bool {
    v matches RhizValue::Symbol(s) && s@ == "task"@
}

/// The task that the top-level form `decl`, at position `index`, declares.
pub open spec fn task_of(decl: RhizValue, index: usize) -> Result<TaskModel, CompileError> {
    match decl {
        RhizValue::SExpr(items) => {
            let xs = items@;
            if xs.len() == 0 || !is_task_head(xs[0]) {
                Err(CompileError::NotATask(index))
            } else if xs.len() < 2 || !(xs[1] is String) {
                Err(CompileError::BadName(index))
            } else {
                let has_description = xs.len() > 2 && xs[2] is String;
                let body = xs.subrange(if has_description { 3 } else { 2 }, xs.len() as int);
                if !all_calls(body) {
                    Err(CompileError::BodyNotCall(index))
                } else {
                    Ok(
                        TaskModel {
                            name: xs[1]->String_0@,
                            description: if has_description {
                                Some(xs[2]->String_0@)
                            } else {
                                None
                            },
                            body,
                        },
                    )
                }
            }
        },
        _ => Err(CompileError::NotATask(index)),
    }
}

/// The tasks that the top-level forms `decls` declare, in document order, a
/// later declaration of a name replacing an earlier one; or the error of the
/// first form that declares no task.
pub open spec fn tasks_of(decls: Seq<RhizValue>) -> Result<Map<Seq<char>, TaskModel>, CompileError>
    decreases decls.len(),
{
    if decls.len() == 0 {
        Ok(Map::empty())
    } else {
        match tasks_of(decls.drop_last()) {
            Ok(m) => match task_of(decls.last(), (decls.len() - 1) as usize) {
                Ok(t) => Ok(m.insert(t.name, t)),
                Err(e) => Err(e),
            },
            Err(e) => Err(e),
        }
    }
}

/// What compiling `prog` gives.
pub open spec fn spec_compile(prog: RhizValue) -> Result<Map<Seq<char>, TaskModel>, CompileError> {
    match prog {
        RhizValue::Program(decls) => tasks_of(decls@),
        _ => Err(CompileError::NotAProgram),
    }
}

/// The compiled tasks of a program, each under its own name.
#[derive(Debug)]
pub struct TaskMap<'a> {
    tasks: Vec<Task<'a>>,
}

impl<'a> View for TaskMap<'a> {
    type V = Map<Seq<char>, TaskModel>;

    closed spec fn view(&self) -> Map<Seq<char>, TaskModel> {
        Map::new(
            |n: Seq<char>| exists|i: int| 0 <= i < self.tasks.len() && #[trigger] self.tasks[i].name@ == n,
            |n: Seq<char>| self.tasks[choose|i: int| 0 <= i < self.tasks.len() && #[trigger] self.tasks[i].name@ == n]@,
        )
    }
}

impl<'a> TaskMap<'a> {
    /// No two entries share a name.
    #[verifier::type_invariant]
    closed spec fn unique_names(&self) -> bool {
        forall|i: int, j: int|
            0 <= i < self.tasks.len() && 0 <= j < self.tasks.len() && #[trigger] self.tasks[i].name@
                == #[trigger] self.tasks[j].name@ ==> i == j
    }

    proof fn lemma_entry(&self, i: int)
        requires
            self.unique_names(),
            0 <= i < self.tasks.len(),
        ensures
            self@.contains_key(self.tasks[i].name@),
            self@[self.tasks[i].name@] == self.tasks[i]@,
    {
        let n = self.tasks[i].name@;
        assert(self@.contains_key(n));
        let k = choose|k: int| 0 <= k < self.tasks.len() && #[trigger] self.tasks[k].name@ == n;
        assert(self.tasks[k].name@ == self.tasks[i].name@);
    }

    pub fn new() -> (r: TaskMap<'a>)
        ensures
            r@ == Map::<Seq<char>, TaskModel>::empty(),
    {
        let r = TaskMap { tasks: Vec::new() };
        assert(r@ =~= Map::<Seq<char>, TaskModel>::empty());
        r
    }

    /// The number of tasks.
    pub fn len(&self) -> (r: usize)
        ensures
            r == self@.len(),
    {
        proof {
            use_type_invariant(self);
            self.lemma_names_len();
        }
        self.tasks.len()
    }

    proof fn lemma_names_len(&self)
        requires
            self.unique_names(),
        ensures
            self@.dom().finite(),
            self@.len() == self.tasks.len(),
    {
        let names = Seq::new(self.tasks.len() as nat, |i: int| self.tasks[i].name@);
        assert(names.no_duplicates());
        assert forall|m: Seq<char>| #[trigger] self@.dom().contains(m) <==> names.to_set().contains(m) by {
            if self@.dom().contains(m) {
                let i = choose|i: int| 0 <= i < self.tasks.len() && #[trigger] self.tasks[i].name@ == m;
                assert(names[i] == m);
            }
            if names.contains(m) {
                let i = choose|i: int| 0 <= i < names.len() && names[i] == m;
                assert(self.tasks[i].name@ == m);
            }
        }
        assert(self@.dom() =~= names.to_set());
        names.unique_seq_to_set();
    }

    /// Where the task named `name` stands, if it is there.
    fn position(&self, name: &str) -> (r: Option<usize>)
        ensures
            match r {
                Some(i) => i < self.tasks.len() && self.tasks[i as int].name@ == name@,
                None => !self@.contains_key(name@),
            },
    {
        let mut i: usize = 0;
        while i < self.tasks.len()
            invariant
                i <= self.tasks.len(),
                forall|k: int| 0 <= k < i ==> #[trigger] self.tasks[k].name@ != name@,
            decreases self.tasks.len() - i,
        {
            if text_is(&self.tasks[i].name, name) {
                return Some(i);
            }
            i = i + 1;
        }
        None
    }

    /// The task named `name`.
    pub fn get(&self, name: &str) -> (r: Option<&Task<'a>>)
        ensures
            match r {
                Some(t) => self@.contains_key(name@) && self@[name@] == t@ && t.name@ == name@,
                None => !self@.contains_key(name@),
            },
    {
        match self.position(name) {
            Some(i) => {
                proof {
                    use_type_invariant(self);
                    self.lemma_entry(i as int);
                }
                Some(&self.tasks[i])
            },
            None => None,
        }
    }

    /// The task at position `i`, for listing all tasks.
    pub fn task(&self, i: usize) -> (r: &Task<'a>)
        requires
            i < self@.len(),
        ensures
            self@.contains_key(r.name@),
            self@[r.name@] == r@,
    {
        proof {
            use_type_invariant(self);
            self.lemma_names_len();
            self.lemma_entry(i as int);
        }
        &self.tasks[i]
    }

    /// Add `t`, replacing any task of the same name.
    pub fn insert(&mut self, t: Task<'a>)
        ensures
            final(self)@ == old(self)@.insert(t.name@, t@),
    {
        proof {
            use_type_invariant(&*self);
        }
        let ghost n = t.name@;
        let ghost tv = t@;
        let found = self.position(t.name.as_str());
        let mut tasks: Vec<Task<'a>> = Vec::new();
        std::mem::swap(&mut tasks, &mut self.tasks);
        let ghost before = tasks@;
        match found {
            Some(k) => {
                tasks.set(k, t);
                assert(forall|i: int| 0 <= i < tasks.len() ==> #[trigger] tasks[i].name@ == before[i].name@);
                self.tasks = tasks;
                proof {
                    assert forall|m: Seq<char>| #[trigger] self@.contains_key(m) implies self@[m] == old(self)@.insert(n, tv)[m] by {
                        let i = choose|i: int| 0 <= i < self.tasks.len() && #[trigger] self.tasks[i].name@ == m;
                        self.lemma_entry(i);
                        if i != k {
                            old(self).lemma_entry(i);
                        }
                    }
                    assert forall|m: Seq<char>| #[trigger] old(self)@.insert(n, tv).contains_key(m) implies self@.contains_key(m) by {
                        if m != n {
                            let i = choose|i: int| 0 <= i < before.len() && #[trigger] before[i].name@ == m;
                            assert(self.tasks[i].name@ == m);
                        } else {
                            assert(self.tasks[k as int].name@ == m);
                        }
                    }
                    assert(self@ =~= old(self)@.insert(n, tv));
                }
            },
            None => {
                tasks.push(t);
                proof {
                    let last = before.len() as int;
                    assert(tasks[last].name@ == n);
                    assert forall|i: int| 0 <= i < last implies #[trigger] tasks[i].name@ != n by {
                        assert(before[i].name@ == tasks[i].name@);
                        if before[i].name@ == n {
                            assert(old(self)@.contains_key(n));
                        }
                    }
                }
                self.tasks = tasks;
                proof {
                    let last = before.len() as int;
                    assert(self.tasks[last].name@ == n);
                    assert forall|m: Seq<char>| #[trigger] self@.contains_key(m) implies self@[m] == old(self)@.insert(n, tv)[m] by {
                        let i = choose|i: int| 0 <= i < self.tasks.len() && #[trigger] self.tasks[i].name@ == m;
                        self.lemma_entry(i);
                        if i != last {
                            assert(before[i].name@ == m);
                            old(self).lemma_entry(i);
                        }
                    }
                    assert forall|m: Seq<char>| #[trigger] old(self)@.insert(n, tv).contains_key(m) implies self@.contains_key(m) by {
                        if m != n {
                            let i = choose|i: int| 0 <= i < before.len() && #[trigger] before[i].name@ == m;
                            assert(self.tasks[i].name@ == m);
                        }
                    }
                    assert(self@ =~= old(self)@.insert(n, tv));
                }
            },
        }
    }
}

impl<'a> Task<'a> {
    /// Compile the top-level form `sexpr`, which stands at position `index`
    /// of its program, into a task.
    pub fn compile(sexpr: &'a RhizValue, index: usize) -> (r: Result<Task<'a>, CompileError>)
        ensures
            match r {
                Ok(t) => task_of(*sexpr, index) == Ok::<TaskModel, CompileError>(t@),
                Err(e) => task_of(*sexpr, index) == Err::<TaskModel, CompileError>(e),
            },
    {
        let items = match sexpr {
            RhizValue::SExpr(items) => items,
            _ => return Err(CompileError::NotATask(index)),
        };
        if items.len() == 0 {
            return Err(CompileError::NotATask(index));
        }
        match &items[0] {
            RhizValue::Symbol(s) => {
                if !text_is(s, "task") {
                    return Err(CompileError::NotATask(index));
                }
            },
            _ => return Err(CompileError::NotATask(index)),
        }
        if items.len() < 2 {
            return Err(CompileError::BadName(index));
        }
        let name = match &items[1] {
            RhizValue::String(s) => copy_text(s),
            _ => return Err(CompileError::BadName(index)),
        };
        let description = if items.len() > 2 {
            match &items[2] {
                RhizValue::String(s) => Some(copy_text(s)),
                _ => None,
            }
        } else {
            None
        };
        let start: usize = if description.is_some() { 3 } else { 2 };
        let ghost body = items@.subrange(start as int, items.len() as int);
        let mut calls: Vec<&'a RhizValue> = Vec::new();
        let mut k: usize = start;
        while k < items.len()
            invariant
                start <= k <= items.len(),
                *sexpr == RhizValue::SExpr(*items),
                items.len() >= 2 && is_task_head(items@[0]) && items@[1] is String,
                start == if items.len() > 2 && items@[2] is String { 3usize } else { 2usize },
                body == items@.subrange(start as int, items.len() as int),
                referenced(calls@) == items@.subrange(start as int, k as int),
                forall|j: int| start <= j < k ==> #[trigger] items@[j] is SExpr,
            decreases items.len() - k,
        {
            match &items[k] {
                RhizValue::SExpr(_) => {},
                _ => {
                    proof {
                        assert(body[k - start as int] == items@[k as int]);
                    }
                    return Err(CompileError::BodyNotCall(index));
                },
            }
            let ghost prev = calls@;
            calls.push(&items[k]);
            assert(referenced(prev).len() == k - start);
            assert forall|j: int| 0 <= j < k + 1 - start implies #[trigger] referenced(calls@)[j] == items@.subrange(start as int, k + 1)[j] by {
                if j < k - start {
                    assert(referenced(prev)[j] == items@.subrange(start as int, k as int)[j]);
                }
            }
            assert(referenced(calls@) =~= items@.subrange(start as int, k + 1));
            k = k + 1;
        }
        assert(forall|j: int| 0 <= j < body.len() ==> #[trigger] body[j] == items@[j + start]);
        Ok(Task { name, description, items: calls })
    }
}

/// Compile a parsed program into its tasks.
pub fn compile<'a>(prog: &'a RhizValue) -> (r: Result<TaskMap<'a>, CompileError>)
    ensures
        match r {
            Ok(m) => spec_compile(*prog) == Ok::<Map<Seq<char>, TaskModel>, CompileError>(m@),
            Err(e) => spec_compile(*prog) == Err::<Map<Seq<char>, TaskModel>, CompileError>(e),
        },
{
    match prog {
        RhizValue::Program(decls) => {
            let mut tasks = TaskMap::new();
            let mut i: usize = 0;
            assert(decls@.take(0) =~= Seq::<RhizValue>::empty());
            while i < decls.len()
                invariant
                    i <= decls.len(),
                    *prog == RhizValue::Program(*decls),
                    tasks_of(decls@.take(i as int)) == Ok::<Map<Seq<char>, TaskModel>, CompileError>(tasks@),
                decreases decls.len() - i,
            {
                assert(decls@.take(i + 1).drop_last() =~= decls@.take(i as int));
                match Task::compile(&decls[i], i) {
                    Ok(t) => {
                        tasks.insert(t);
                    },
                    Err(e) => {
                        proof {
                            assert(decls@.take(i + 1).last() == decls@[i as int]);
                            lemma_error_stays(decls@, i + 1);
                        }
                        return Err(e);
                    },
                }
                i = i + 1;
            }
            assert(decls@.take(decls.len() as int) =~= decls@);
            Ok(tasks)
        },
        _ => Err(CompileError::NotAProgram),
    }
}

/// Once a prefix of the declarations fails to compile, so does every longer one, with the same error.
proof fn lemma_error_stays(decls: Seq<RhizValue>, k: int)
    requires
        0 <= k <= decls.len(),
        tasks_of(decls.take(k)) is Err,
    ensures
        tasks_of(decls) == tasks_of(decls.take(k)),
    decreases decls.len() - k,
{
    if k < decls.len() {
        assert(decls.take(k + 1).drop_last() =~= decls.take(k));
        lemma_error_stays(decls, k + 1);
    } else {
        assert(decls.take(k) =~= decls);
    }
}

/// The description of a compile error.
pub open spec fn compile_error_text(e: CompileError) -> Seq<char> {
    match e {
        CompileError::NotAProgram => "only whole programs can be compiled"@,
        CompileError::NotATask(i) => "only task declarations allowed at top level (form "@ + decimal(i as nat) + ")"@,
        CompileError::BadName(i) => "task names must be a string literal (form "@ + decimal(i as nat) + ")"@,
        CompileError::BodyNotCall(i) => "task bodies may only contain calls (form "@ + decimal(i as nat) + ")"@,
    }
}

impl CompileError {
    /// A description of the error, with the position of the offending form.
    pub fn message(&self) -> (r: String)
        ensures
            r@ == compile_error_text(*self),
    {
        let (lead, at) = match self {
            CompileError::NotAProgram => return "only whole programs can be compiled".to_owned(),
            CompileError::NotATask(i) => ("only task declarations allowed at top level (form ", *i),
            CompileError::BadName(i) => ("task names must be a string literal (form ", *i),
            CompileError::BodyNotCall(i) => ("task bodies may only contain calls (form ", *i),
        };
        let mut r = lead.to_owned();
        let n = decimal_text(at as u64);
        r.append(n.as_str());
        r.append(")");
        r
    }
}

/// The task that the `i`-th of `decls` declares.
pub open spec fn decl_task(decls: Seq<RhizValue>, i: int) -> Result<TaskModel, CompileError> {
    task_of(decls[i], i as usize)
}

/// Compiling what the parser made of a text is decided for every text: it
/// gives the error of the first declaration, in document order, that
/// declares no task; and when every declaration declares one, it gives all
/// of them, each name bound to its last declaration and no other name bound.
pub proof fn lemma_compile_complete_or_first_error(src: Seq<char>, prog: RhizValue)
    requires
        rule_parse(Rule::File, src) == Ok::<Tree, ParseError>(prog@),
    ensures
        prog is Program,
        !(spec_compile(prog) == Err::<Map<Seq<char>, TaskModel>, CompileError>(CompileError::NotAProgram)),
        ({
            let decls = prog->Program_0@;
            match spec_compile(prog) {
                Err(e) => exists|i: int|
                    0 <= i < decls.len() && decl_task(decls, i) == Err::<TaskModel, CompileError>(e)
                        && forall|j: int| 0 <= j < i ==> (#[trigger] decl_task(decls, j)) is Ok,
                Ok(m) => {
                    &&& forall|i: int| 0 <= i < decls.len() ==> (#[trigger] decl_task(decls, i)) is Ok
                    &&& forall|i: int|
                        0 <= i < decls.len() ==> m.contains_key((#[trigger] decl_task(decls, i))->Ok_0.name)
                    &&& forall|n: Seq<char>| #[trigger]
                        m.contains_key(n) ==> exists|i: int|
                            0 <= i < decls.len() && decl_task(decls, i) == Ok::<TaskModel, CompileError>(m[n])
                                && m[n].name == n && forall|j: int|
                                i < j < decls.len() ==> (#[trigger] decl_task(decls, j))->Ok_0.name != n
                },
            }
        }),
{
    assert(prog is Program);
    lemma_tasks_of_complete_or_first_error(prog->Program_0@);
    lemma_first_error_is_a_declaration_error(prog->Program_0@);
}

proof fn lemma_first_error_is_a_declaration_error(decls: Seq<RhizValue>)
    ensures
        !(tasks_of(decls) == Err::<Map<Seq<char>, TaskModel>, CompileError>(CompileError::NotAProgram)),
    decreases decls.len(),
{
    if decls.len() > 0 {
        lemma_first_error_is_a_declaration_error(decls.drop_last());
    }
}

proof fn lemma_tasks_of_complete_or_first_error(decls: Seq<RhizValue>)
    ensures
        match tasks_of(decls) {
            Err(e) => exists|i: int|
                0 <= i < decls.len() && decl_task(decls, i) == Err::<TaskModel, CompileError>(e)
                    && forall|j: int| 0 <= j < i ==> (#[trigger] decl_task(decls, j)) is Ok,
            Ok(m) => {
                &&& forall|i: int| 0 <= i < decls.len() ==> (#[trigger] decl_task(decls, i)) is Ok
                &&& forall|i: int|
                    0 <= i < decls.len() ==> m.contains_key((#[trigger] decl_task(decls, i))->Ok_0.name)
                &&& forall|n: Seq<char>| #[trigger]
                    m.contains_key(n) ==> exists|i: int|
                        0 <= i < decls.len() && decl_task(decls, i) == Ok::<TaskModel, CompileError>(m[n])
                            && m[n].name == n && forall|j: int|
                            i < j < decls.len() ==> (#[trigger] decl_task(decls, j))->Ok_0.name != n
            },
        },
    decreases decls.len(),
{
    if decls.len() > 0 {
        let pre = decls.drop_last();
        let k = decls.len() - 1;
        lemma_tasks_of_complete_or_first_error(pre);
        assert forall|i: int| 0 <= i < k implies #[trigger] decl_task(decls, i) == decl_task(pre, i) by {}
        match tasks_of(pre) {
            Err(e) => {
                let i = choose|i: int|
                    0 <= i < pre.len() && decl_task(pre, i) == Err::<TaskModel, CompileError>(e)
                        && forall|j: int| 0 <= j < i ==> (#[trigger] decl_task(pre, j)) is Ok;
                assert(decl_task(decls, i) == decl_task(pre, i));
            },
            Ok(m) => {
                match decl_task(decls, k) {
                    Err(e) => {
                        assert(forall|j: int| 0 <= j < k ==> (#[trigger] decl_task(decls, j)) is Ok);
                    },
                    Ok(t) => {
                        let m2 = m.insert(t.name, t);
                        assert(tasks_of(decls) == Ok::<Map<Seq<char>, TaskModel>, CompileError>(m2));
                        assert forall|i: int| 0 <= i < decls.len() implies (#[trigger] decl_task(decls, i)) is Ok by {
                            if i < k {
                                assert(decl_task(pre, i) is Ok);
                            }
                        }
                        assert forall|i: int| 0 <= i < decls.len() implies m2.contains_key(
                            (#[trigger] decl_task(decls, i))->Ok_0.name,
                        ) by {
                            if i < k {
                                assert(m.contains_key(decl_task(pre, i)->Ok_0.name));
                            }
                        }
                        assert forall|n: Seq<char>| #[trigger] m2.contains_key(n) implies exists|i: int|
                            0 <= i < decls.len() && decl_task(decls, i) == Ok::<TaskModel, CompileError>(m2[n])
                                && m2[n].name == n && forall|j: int|
                                i < j < decls.len() ==> (#[trigger] decl_task(decls, j))->Ok_0.name != n by {
                            if n == t.name {
                                assert(decl_task(decls, k) == Ok::<TaskModel, CompileError>(m2[n]));
                            } else {
                                assert(m.contains_key(n));
                                let i = choose|i: int|
                                    0 <= i < pre.len() && decl_task(pre, i) == Ok::<TaskModel, CompileError>(m[n])
                                        && m[n].name == n && forall|j: int|
                                        i < j < pre.len() ==> (#[trigger] decl_task(pre, j))->Ok_0.name != n;
                                assert(decl_task(decls, i) == Ok::<TaskModel, CompileError>(m2[n]));
                                assert forall|j: int| i < j < decls.len() implies (#[trigger] decl_task(
                                    decls,
                                    j,
                                ))->Ok_0.name != n by {
                                    if j < k {
                                        assert(decl_task(pre, j)->Ok_0.name != n);
                                    }
                                }
                            }
                        }
                    },
                }
            },
        }
    }
}

} // verus!
