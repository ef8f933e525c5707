//! The state of the evaluator: the tables of shared objects, the pending
//! work, and what the evaluator asks of its host.
//!
//! Environments, atoms and closures are shared and may refer to one another
//! in cycles: a closure names the environment that it captured, and that
//! environment may bind the closure. They are therefore kept in tables and
//! named by index, and an entry of a table lives as long as the interpreter:
//! nothing is taken out of a table, so an index never dangles, and what a
//! program no longer reaches is given back only when the interpreter is
//! dropped.

use vstd::prelude::*;
use crate::env::{view_envs, Env, EnvModel};
use crate::mal_core::view_closures;
use crate::value::{group_view, view_seq, Closure, ClosureModel, V, Value};

verus! {

broadcast use group_view;

/// The tables of the objects that values name by index.
pub struct Heap {
    pub envs: Vec<Env>,
    pub atoms: Vec<Value>,
    pub closures: Vec<Closure>,
}

/// Mathematical model of the tables.
pub ghost struct HeapModel {
    pub envs: Seq<EnvModel>,
    pub atoms: Seq<V>,
    pub closures: Seq<ClosureModel>,
}

impl View for Heap {
    type V = HeapModel;

    open spec fn view(&self) -> HeapModel {
        HeapModel {
            envs: view_envs(self.envs@),
            atoms: view_seq(self.atoms@),
            closures: view_closures(self.closures@),
        }
    }
}

/// What a piece of pending work waits to do with a value.
#[derive(Clone, Copy, Debug, PartialEq, Eq, Structural)]
pub enum FrameKind {
    /// Bind the value to the name `head` in `env`.
    Def,
    /// Bind the value, a closure, as a macro to the name `head` in `env`.
    DefMacro,
    /// Bind the value to the name `items[next]` in `env`, then go on with the
    /// binding after it, or with the body `head`.
    Let,
    /// Drop the value and go on with the form `items[next + 1]`.
    Do,
    /// Choose between `items[2]` and `items[3]` by the value.
    If,
    /// Hand the value on; catch a thrown value with the clause `items[2]`.
    Try,
    /// Collect the value in `done`, then go on with `items[next + 1]`, or
    /// call the first of the collected values with the others.
    Call,
    /// Collect the value in `done`, then go on with `items[next + 1]`, or
    /// give the vector of the collected values.
    Vector,
    /// Collect the value in `done`, then go on with the next entry of the
    /// map `head`, or give the map of its keys and the collected values.
    Table,
    /// Evaluate the value, the expansion of a macro call, in `env`.
    Expand,
    /// Expand the value further if it is a macro call, else give it.
    ExpandOnly,
    /// Store the value in the atom `next`.
    Swap,
    /// Collect the value in `done`, then call `head` with `items[next + 1]`,
    /// or give the list of the collected values.
    MapOver,
}

/// A piece of pending work.
#[derive(Debug)]
pub struct Frame {
    pub kind: FrameKind,
    pub env: usize,
    pub next: usize,
    pub head: Value,
    pub items: Vec<Value>,
    pub done: Vec<Value>,
}

/// Mathematical model of a piece of pending work.
pub ghost struct FrameModel {
    pub kind: FrameKind,
    pub env: nat,
    pub next: nat,
    pub head: V,
    pub items: Seq<V>,
    pub done: Seq<V>,
}

impl View for Frame {
    type V = FrameModel;

    open spec fn view(&self) -> FrameModel {
        FrameModel {
            kind: self.kind,
            env: self.env as nat,
            next: self.next as nat,
            head: self.head@,
            items: view_seq(self.items@),
            done: view_seq(self.done@),
        }
    }
}

/// The models of the frames of a stack.
pub open spec fn view_stack(stack: Seq<Frame>) -> Seq<FrameModel> {
    Seq::new(stack.len(), |i: int| stack[i]@)
}

/// What the evaluator does next.
#[derive(Debug)]
pub enum Control {
    /// Evaluate a form in the environment with the given index.
    Eval(Value, usize),
    /// Call the first of these values with the others.
    Call(Vec<Value>),
    /// Hand a value to the pending work.
    Return(Value),
    /// Unwind the pending work with a thrown value.
    Throw(Value),
}

/// Mathematical model of what the evaluator does next.
pub ghost enum ControlModel {
    Eval(V, nat),
    Call(Seq<V>),
    Return(V),
    Throw(V),
}

impl View for Control {
    type V = ControlModel;

    open spec fn view(&self) -> ControlModel {
        match self {
            Control::Eval(ast, env) => ControlModel::Eval(ast@, *env as nat),
            Control::Call(list) => ControlModel::Call(view_seq(list@)),
            Control::Return(v) => ControlModel::Return(v@),
            Control::Throw(e) => ControlModel::Throw(e@),
        }
    }
}

/// What the evaluator asks of its host.
#[derive(Debug, Clone, PartialEq, Eq)]
pub enum Request {
    /// Print a line.
    Print(String),
    /// Read a line from the user, after showing a prompt.
    ReadLine(String),
    /// Read the content of a file.
    ReadFile(String),
    /// Read the clock.
    Clock,
}

/// Mathematical model of a request.
pub ghost enum RequestModel {
    Print(Seq<char>),
    ReadLine(Seq<char>),
    ReadFile(Seq<char>),
    Clock,
}

impl View for Request {
    type V = RequestModel;

    open spec fn view(&self) -> RequestModel {
        match self {
            Request::Print(s) => RequestModel::Print(s@),
            Request::ReadLine(s) => RequestModel::ReadLine(s@),
            Request::ReadFile(s) => RequestModel::ReadFile(s@),
            Request::Clock => RequestModel::Clock,
        }
    }
}

/// What the host answers.
#[derive(Debug, PartialEq, Eq)]
pub enum Reply {
    /// The line was printed.
    Printed,
    /// The line that was read, or none at the end of the input.
    Line(Option<String>),
    /// The content of the file, or why it could not be read.
    File(Result<String, String>),
    /// Milliseconds since the epoch.
    Millis(i32),
}

/// Mathematical model of a reply.
pub ghost enum ReplyModel {
    Printed,
    Line(Option<Seq<char>>),
    File(Result<Seq<char>, Seq<char>>),
    Millis(int),
}

impl View for Reply {
    type V = ReplyModel;

    open spec fn view(&self) -> ReplyModel {
        match self {
            Reply::Printed => ReplyModel::Printed,
            Reply::Line(Some(s)) => ReplyModel::Line(Some(s@)),
            Reply::Line(None) => ReplyModel::Line(None),
            Reply::File(Ok(s)) => ReplyModel::File(Ok(s@)),
            Reply::File(Err(s)) => ReplyModel::File(Err(s@)),
            Reply::Millis(n) => ReplyModel::Millis(*n as int),
        }
    }
}

/// The model of an optional request.
pub open spec fn view_pending(p: Option<Request>) -> Option<RequestModel> {
    match p {
        Some(r) => Some(r@),
        None => None,
    }
}

/// An interpreter: the tables, what is done next, the pending work, and
/// the request that waits for the host's reply.
pub struct Interp {
    pub heap: Heap,
    pub control: Control,
    pub stack: Vec<Frame>,
    pub pending: Option<Request>,
}

/// Mathematical model of an interpreter.
pub ghost struct Machine {
    pub heap: HeapModel,
    pub control: ControlModel,
    pub stack: Seq<FrameModel>,
    pub pending: Option<RequestModel>,
}

impl View for Interp {
    type V = Machine;

    open spec fn view(&self) -> Machine {
        Machine {
            heap: self.heap@,
            control: self.control@,
            stack: view_stack(self.stack@),
            pending: view_pending(self.pending),
        }
    }
}

/// The machine that hands the value `v` to the pending work.
pub open spec fn ret(heap: HeapModel, stack: Seq<FrameModel>, v: V) -> Machine {
    Machine { heap, control: ControlModel::Return(v), stack, pending: None }
}

/// The machine that unwinds the pending work with the thrown value `e`.
pub open spec fn thrw(heap: HeapModel, stack: Seq<FrameModel>, e: V) -> Machine {
    Machine { heap, control: ControlModel::Throw(e), stack, pending: None }
}

/// The machine that evaluates `ast` in the environment `env`.
pub open spec fn goto(heap: HeapModel, stack: Seq<FrameModel>, ast: V, env: nat) -> Machine {
    Machine { heap, control: ControlModel::Eval(ast, env), stack, pending: None }
}

/// The machine that calls the first of `list` with the others.
pub open spec fn call(heap: HeapModel, stack: Seq<FrameModel>, list: Seq<V>) -> Machine {
    Machine { heap, control: ControlModel::Call(list), stack, pending: None }
}

/// The machine that waits for the host's reply to `request`.
pub open spec fn wait(heap: HeapModel, stack: Seq<FrameModel>, request: RequestModel) -> Machine {
    Machine { heap, control: ControlModel::Return(V::Nil), stack, pending: Some(request) }
}

/// The machine that goes on with a result: a value, or a thrown value.
pub open spec fn settle(heap: HeapModel, stack: Seq<FrameModel>, r: Result<V, V>) -> Machine {
    match r {
        Ok(v) => ret(heap, stack, v),
        Err(e) => thrw(heap, stack, e),
    }
}

/// A frame of the given kind and content.
pub open spec fn frame(kind: FrameKind, env: nat, next: nat, head: V, items: Seq<V>, done: Seq<V>)
    -> FrameModel {
    FrameModel { kind, env, next, head, items, done }
}

/// The tables with one more environment.
pub open spec fn with_env(heap: HeapModel, env: EnvModel) -> HeapModel {
    HeapModel { envs: heap.envs.push(env), ..heap }
}

/// The tables with one more closure.
pub open spec fn with_closure(heap: HeapModel, closure: ClosureModel) -> HeapModel {
    HeapModel { closures: heap.closures.push(closure), ..heap }
}

/// The tables after `name` is bound to `v` in the environment `env`.
pub open spec fn with_binding(heap: HeapModel, env: nat, name: Seq<char>, v: V) -> HeapModel {
    if env < heap.envs.len() {
        HeapModel {
            envs: heap.envs.update(
                env as int,
                EnvModel {
                    data: heap.envs[env as int].data.insert(name, v),
                    outer: heap.envs[env as int].outer,
                },
            ),
            ..heap
        }
    } else {
        heap
    }
}

/// The tables after the atom `a` is given the value `v`.
pub open spec fn with_atom(heap: HeapModel, a: nat, v: V) -> HeapModel {
    if a < heap.atoms.len() {
        HeapModel { atoms: heap.atoms.update(a as int, v), ..heap }
    } else {
        heap
    }
}

impl Heap {
    /// Tables without entries.
    pub fn new() -> (h: Self)
        ensures
            h@ == (HeapModel { envs: Seq::empty(), atoms: Seq::empty(), closures: Seq::empty() }),
    {
        let h = Heap { envs: Vec::new(), atoms: Vec::new(), closures: Vec::new() };
        assert(h@.envs =~= Seq::empty());
        assert(h@.atoms =~= Seq::empty());
        assert(h@.closures =~= Seq::empty());
        h
    }

    /// Adds an environment, and gives its index.
    pub fn add_env(&mut self, env: Env) -> (id: usize)
        ensures
            final(self)@ == with_env(old(self)@, env@),
            id == old(self)@.envs.len(),
    {
        let id = self.envs.len();
        self.envs.push(env);
        assert(self@.envs =~= old(self)@.envs.push(env@));
        id
    }

    /// Adds a closure, and gives its index.
    pub fn add_closure(&mut self, closure: Closure) -> (id: usize)
        ensures
            final(self)@ == with_closure(old(self)@, closure@),
            id == old(self)@.closures.len(),
    {
        let id = self.closures.len();
        self.closures.push(closure);
        assert(self@.closures =~= old(self)@.closures.push(closure@));
        id
    }

    /// Binds `name` to `v` in the environment `env`, if there is one.
    pub fn bind(&mut self, env: usize, name: String, v: Value)
        ensures
            final(self)@ == with_binding(old(self)@, env as nat, name@, v@),
    {
        if env < self.envs.len() {
            self.envs[env].set(name, v);
            assert(self@.envs =~= with_binding(old(self)@, env as nat, name@, v@).envs);
        }
    }

    /// Gives the atom `a` the value `v`, if there is such an atom.
    pub fn store(&mut self, a: usize, v: Value)
        ensures
            final(self)@ == with_atom(old(self)@, a as nat, v@),
    {
        if a < self.atoms.len() {
            self.atoms[a] = v;
            assert(self@.atoms =~= old(self)@.atoms.update(a as int, v@));
        }
    }
}

impl Interp {
    /// Pushes a frame of pending work.
    pub fn push(&mut self, f: Frame)
        ensures
            final(self)@ == (Machine { stack: old(self)@.stack.push(f@), ..old(self)@ }),
            final(self).heap == old(self).heap,
    {
        self.stack.push(f);
        assert(self@.stack =~= old(self)@.stack.push(f@));
    }

    /// Hands `v` to the pending work.
    pub fn ret(&mut self, v: Value)
        ensures
            final(self)@ == ret(old(self)@.heap, old(self)@.stack, v@),
    {
        self.control = Control::Return(v);
        self.pending = None;
    }

    /// Unwinds the pending work with the thrown value `e`.
    pub fn throw(&mut self, e: Value)
        ensures
            final(self)@ == thrw(old(self)@.heap, old(self)@.stack, e@),
    {
        self.control = Control::Throw(e);
        self.pending = None;
    }

    /// Evaluates `ast` in the environment `env` next.
    pub fn goto(&mut self, ast: Value, env: usize)
        ensures
            final(self)@ == goto(old(self)@.heap, old(self)@.stack, ast@, env as nat),
    {
        self.control = Control::Eval(ast, env);
        self.pending = None;
    }

    /// Calls the first of `list` with the others next.
    pub fn call(&mut self, list: Vec<Value>)
        ensures
            final(self)@ == call(old(self)@.heap, old(self)@.stack, view_seq(list@)),
    {
        self.control = Control::Call(list);
        self.pending = None;
    }

    /// Waits for the host's reply to `request`.
    pub fn wait(&mut self, request: Request)
        ensures
            final(self)@ == wait(old(self)@.heap, old(self)@.stack, request@),
    {
        self.control = Control::Return(Value::Nil);
        self.pending = Some(request);
    }

    /// Goes on with a result: a value, or a thrown value.
    pub fn settle(&mut self, r: Result<Value, Value>)
        ensures
            final(self)@ == settle(
                old(self)@.heap,
                old(self)@.stack,
                match r {
                    Ok(v) => Ok(v@),
                    Err(e) => Err(e@),
                },
            ),
    {
        match r {
            Ok(v) => self.ret(v),
            Err(e) => self.throw(e),
        }
    }
}

} // verus!
