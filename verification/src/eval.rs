//! The evaluator.
//!
//! Evaluation is a trampoline: one loop that rewrites the form at hand and
//! its environment in place. Work that has to wait for the value of a
//! subform is kept on a stack of the interpreter's own, so that neither
//! tail calls nor deep recursion of the program use the host's stack. What
//! needs the host (printing, reading a line or a file, the clock) stops the
//! loop with a request, and the loop goes on when the host has replied.

use vstd::prelude::*;
use vstd::string::StringExecFns;
use crate::env::{find_spec, get_spec, new_with_binds_spec, view_index, Env, EnvModel};
use crate::machine::{
    call, frame, goto, ret, settle, thrw, wait, with_atom, with_binding, with_closure, with_env,
    Control, ControlModel, Frame, FrameKind, FrameModel, Heap, HeapModel, Interp, Machine, Reply,
    ReplyModel, Request, RequestModel,
};
use crate::mal_core::{
    call_builtin, clone_from, core_bindings, core_spec, init_env, print_line_spec,
};
use crate::printer::{pr_spec, text_joined, to_text};
use crate::quasiquote::{quasiquote, quasiquote_spec};
use crate::reader::{read_str, read_str_spec, ParseErr, ParseError};
use crate::runtime_errors::{
    missing_argument, not_a, thrown, thrown_not_a, RuntimeErr, RuntimeError, RuntimeResult,
};
use crate::text::{chars_of, str_eq, string_of};
use crate::value::{
    clone_values, group_view, no_meta, seq_items, view_seq, Builtin, Closure, ClosureModel, HostFn,
    MalMap, V, Value,
};

verus! {

broadcast use group_view;

/// Whether a value counts as true: any value but `false` and `nil`.
pub open spec fn truthy(v: V) -> bool {
    !(v == V::Bool(false) || v is Nil)
}

/// The closure that a form calls as a macro in the environment `env`: the
/// form is a list whose first item is a symbol bound to a macro.
pub open spec fn as_macro_call(heap: HeapModel, ast: V, env: nat) -> Option<nat> {
    match ast {
        V::List(items, _) => if items.len() > 0 {
            match items[0] {
                V::Symbol(name) => match get_spec(heap.envs, env, name) {
                    Ok(V::Closure(c, _)) => if c < heap.closures.len()
                        && heap.closures[c as int].is_macro {
                        Some(c)
                    } else {
                        None
                    },
                    _ => None,
                },
                _ => None,
            }
        } else {
            None
        },
        _ => None,
    }
}

/// The machine that runs the body of the closure `c` with its parameters
/// bound to `args` in a new environment, whose outer environment is the one
/// that the closure captured.
pub open spec fn enter(heap: HeapModel, stack: Seq<FrameModel>, c: nat, args: Seq<V>) -> Machine {
    let closure = heap.closures[c as int];
    match new_with_binds_spec(Some(closure.env), closure.params, args, heap.atoms) {
        Err(e) => thrw(heap, stack, e),
        Ok(f) => goto(with_env(heap, f), stack, closure.ast, heap.envs.len()),
    }
}

/// The machine that expands a macro call: it runs the body of the macro `c`
/// on the unevaluated operands, and keeps in mind what to do with the
/// expansion.
pub open spec fn expand(
    heap: HeapModel,
    stack: Seq<FrameModel>,
    c: nat,
    items: Seq<V>,
    env: nat,
    kind: FrameKind,
) -> Machine {
    enter(
        heap,
        stack.push(frame(kind, env, 0, V::Nil, Seq::empty(), Seq::empty())),
        c,
        items.drop_first(),
    )
}

/// The machine that expands `form` while it is a macro call, and gives it
/// when it is none.
pub open spec fn macro_expand(heap: HeapModel, stack: Seq<FrameModel>, form: V, env: nat)
    -> Machine {
    match as_macro_call(heap, form, env) {
        Some(c) => expand(heap, stack, c, form->List_0, env, FrameKind::ExpandOnly),
        None => ret(heap, stack, form),
    }
}

/// The machine that goes on with the bindings of a `let*` from position `i`
/// on, and then with its body.
pub open spec fn let_next(
    heap: HeapModel,
    stack: Seq<FrameModel>,
    bindings: Seq<V>,
    i: nat,
    body: V,
    env: nat,
) -> Machine {
    if i >= bindings.len() {
        goto(heap, stack, body, env)
    } else if i + 1 >= bindings.len() {
        thrw(heap, stack, thrown(RuntimeErr::MissingArgument("let*"@)))
    } else {
        goto(
            heap,
            stack.push(frame(FrameKind::Let, env, i, body, bindings, Seq::empty())),
            bindings[i as int + 1],
            env,
        )
    }
}

/// The machine that goes on with the form at position `i` of a `do`: the
/// last one in the place of the `do` itself.
pub open spec fn do_next(heap: HeapModel, stack: Seq<FrameModel>, items: Seq<V>, i: nat, env: nat)
    -> Machine {
    if i >= items.len() {
        ret(heap, stack, V::Nil)
    } else if i + 1 == items.len() {
        goto(heap, stack, items[i as int], env)
    } else {
        goto(
            heap,
            stack.push(frame(FrameKind::Do, env, i, V::Nil, items, Seq::empty())),
            items[i as int],
            env,
        )
    }
}

/// The machine that evaluates the items of a list one by one, to call the
/// first with the others.
pub open spec fn begin_call(heap: HeapModel, stack: Seq<FrameModel>, items: Seq<V>, env: nat)
    -> Machine {
    goto(
        heap,
        stack.push(frame(FrameKind::Call, env, 0, V::Nil, items, Seq::empty())),
        items[0],
        env,
    )
}

/// The machine that calls `function` on the item at position `i` of
/// `items`, or gives the list of the results when there is none left.
pub open spec fn map_next(
    heap: HeapModel,
    stack: Seq<FrameModel>,
    function: V,
    items: Seq<V>,
    i: nat,
    done: Seq<V>,
) -> Machine {
    if i >= items.len() {
        ret(heap, stack, V::List(done, no_meta()))
    } else {
        call(
            heap,
            stack.push(frame(FrameKind::MapOver, 0, i, function, items, done)),
            seq![function, items[i as int]],
        )
    }
}

/// The error of a form that lacks an operand.
pub open spec fn lacks(heap: HeapModel, stack: Seq<FrameModel>, name: Seq<char>) -> Machine {
    thrw(heap, stack, thrown(RuntimeErr::MissingArgument(name)))
}

/// One step on a non-empty list whose first item is the symbol `name`: a
/// special form, or else a call.
pub open spec fn form_step(
    heap: HeapModel,
    stack: Seq<FrameModel>,
    name: Seq<char>,
    items: Seq<V>,
    env: nat,
) -> Machine {
    if name == "def!"@ {
        if items.len() < 3 {
            lacks(heap, stack, name)
        } else {
            goto(
                heap,
                stack.push(frame(FrameKind::Def, env, 0, items[1], Seq::empty(), Seq::empty())),
                items[2],
                env,
            )
        }
    } else if name == "defmacro!"@ {
        if items.len() < 3 {
            lacks(heap, stack, name)
        } else {
            goto(
                heap,
                stack.push(
                    frame(FrameKind::DefMacro, env, 0, items[1], Seq::empty(), Seq::empty()),
                ),
                items[2],
                env,
            )
        }
    } else if name == "let*"@ {
        if items.len() < 3 {
            lacks(heap, stack, name)
        } else {
            match seq_items(items[1]) {
                None => thrw(heap, stack, thrown_not_a("list or vec"@, items[1], heap.atoms)),
                Some(bindings) => let_next(
                    with_env(heap, EnvModel { data: Map::empty(), outer: Some(env) }),
                    stack,
                    bindings,
                    0,
                    items[2],
                    heap.envs.len(),
                ),
            }
        }
    } else if name == "do"@ {
        if items.len() < 2 {
            lacks(heap, stack, name)
        } else {
            do_next(heap, stack, items, 1, env)
        }
    } else if name == "if"@ {
        if items.len() < 3 {
            lacks(heap, stack, name)
        } else {
            goto(
                heap,
                stack.push(frame(FrameKind::If, env, 0, V::Nil, items, Seq::empty())),
                items[1],
                env,
            )
        }
    } else if name == "fn*"@ {
        if items.len() < 3 {
            lacks(heap, stack, name)
        } else {
            match seq_items(items[1]) {
                None => thrw(heap, stack, thrown_not_a("list or vec"@, items[1], heap.atoms)),
                Some(params) => ret(
                    with_closure(
                        heap,
                        ClosureModel { ast: items[2], params, env, is_macro: false },
                    ),
                    stack,
                    V::Closure(heap.closures.len(), no_meta()),
                ),
            }
        }
    } else if name == "quote"@ {
        if items.len() < 2 {
            lacks(heap, stack, name)
        } else {
            ret(heap, stack, items[1])
        }
    } else if name == "quasiquoteexpand"@ {
        if items.len() < 2 {
            lacks(heap, stack, name)
        } else {
            settle(heap, stack, quasiquote_spec(items[1]))
        }
    } else if name == "quasiquote"@ {
        if items.len() < 2 {
            lacks(heap, stack, name)
        } else {
            match quasiquote_spec(items[1]) {
                Ok(form) => goto(heap, stack, form, env),
                Err(e) => thrw(heap, stack, e),
            }
        }
    } else if name == "macroexpand"@ {
        if items.len() < 2 {
            lacks(heap, stack, name)
        } else {
            macro_expand(heap, stack, items[1], env)
        }
    } else if name == "try*"@ {
        if items.len() < 2 {
            lacks(heap, stack, name)
        } else {
            goto(
                heap,
                stack.push(frame(FrameKind::Try, env, 0, V::Nil, items, Seq::empty())),
                items[1],
                env,
            )
        }
    } else {
        begin_call(heap, stack, items, env)
    }
}

/// One step on a form that is neither a macro call nor a special form: a
/// symbol gives its value; a non-empty list has its items evaluated one by
/// one, to call the first with the others; a vector or a map gives one of
/// the same kind with its items evaluated; any other value gives itself.
pub open spec fn eval_ast(heap: HeapModel, stack: Seq<FrameModel>, ast: V, env: nat) -> Machine {
    match ast {
        V::List(items, _) => if items.len() == 0 {
            ret(heap, stack, ast)
        } else {
            begin_call(heap, stack, items, env)
        },
        V::Vector(items, _) => if items.len() == 0 {
            ret(heap, stack, V::Vector(Seq::empty(), no_meta()))
        } else {
            goto(
                heap,
                stack.push(frame(FrameKind::Vector, env, 0, V::Nil, items, Seq::empty())),
                items[0],
                env,
            )
        },
        V::Table(entries, _) => if entries.len() == 0 {
            ret(heap, stack, V::Table(Seq::empty(), no_meta()))
        } else {
            goto(
                heap,
                stack.push(frame(FrameKind::Table, env, 0, ast, Seq::empty(), Seq::empty())),
                entries[0].1,
                env,
            )
        },
        V::Symbol(name) => settle(heap, stack, get_spec(heap.envs, env, name)),
        _ => ret(heap, stack, ast),
    }
}

/// One step on the form `ast` in the environment `env`.
///
/// A macro call is expanded first. A non-empty list whose first item is a
/// symbol is a special form, or else a call. The empty list gives itself.
pub open spec fn eval_step(heap: HeapModel, stack: Seq<FrameModel>, ast: V, env: nat) -> Machine {
    match as_macro_call(heap, ast, env) {
        Some(c) => expand(heap, stack, c, ast->List_0, env, FrameKind::Expand),
        None => match ast {
            V::List(items, _) => if items.len() == 0 {
                ret(heap, stack, ast)
            } else {
                match items[0] {
                    V::Symbol(name) => form_step(heap, stack, name, items, env),
                    _ => eval_ast(heap, stack, ast, env),
                }
            },
            _ => eval_ast(heap, stack, ast, env),
        },
    }
}

/// The entries of a map with the values `values` in the place of their own.
pub open spec fn with_values(entries: Seq<(Seq<char>, V)>, values: Seq<V>) -> Seq<(Seq<char>, V)> {
    Seq::new(
        entries.len(),
        |i: int|
            if 0 <= i < values.len() {
                (entries[i].0, values[i])
            } else {
                entries[i]
            },
    )
}

/// The entries of a map value, none for any other value.
pub open spec fn table_entries(v: V) -> Seq<(Seq<char>, V)> {
    match v {
        V::Table(entries, _) => entries,
        _ => Seq::empty(),
    }
}

/// One step that hands the value `v` to the frame `f`, which was taken from
/// the stack.
pub open spec fn continue_step(heap: HeapModel, stack: Seq<FrameModel>, f: FrameModel, v: V)
    -> Machine {
    match f.kind {
        FrameKind::Def => match f.head {
            V::Symbol(name) => ret(with_binding(heap, f.env, name, v), stack, v),
            other => thrw(heap, stack, thrown_not_a("map key (symbol)"@, other, heap.atoms)),
        },
        FrameKind::DefMacro => match v {
            V::Closure(c, _) => if c < heap.closures.len() {
                match f.head {
                    V::Symbol(name) => {
                        let made = V::Closure(heap.closures.len(), no_meta());
                        let h = with_closure(
                            heap,
                            ClosureModel { is_macro: true, ..heap.closures[c as int] },
                        );
                        ret(with_binding(h, f.env, name, made), stack, made)
                    },
                    other => thrw(
                        heap,
                        stack,
                        thrown_not_a("map key (symbol)"@, other, heap.atoms),
                    ),
                }
            } else {
                thrw(heap, stack, thrown_not_a("function"@, v, heap.atoms))
            },
            _ => thrw(heap, stack, thrown_not_a("function"@, v, heap.atoms)),
        },
        FrameKind::Let => if f.next >= f.items.len() {
            lacks(heap, stack, "let*"@)
        } else {
            match f.items[f.next as int] {
                V::Symbol(name) => let_next(
                    with_binding(heap, f.env, name, v),
                    stack,
                    f.items,
                    f.next + 2,
                    f.head,
                    f.env,
                ),
                other => thrw(heap, stack, thrown_not_a("map key (symbol)"@, other, heap.atoms)),
            }
        },
        FrameKind::Do => do_next(heap, stack, f.items, f.next + 1, f.env),
        FrameKind::If => if truthy(v) {
            if f.items.len() > 2 {
                goto(heap, stack, f.items[2], f.env)
            } else {
                ret(heap, stack, V::Nil)
            }
        } else if f.items.len() > 3 {
            goto(heap, stack, f.items[3], f.env)
        } else {
            ret(heap, stack, V::Nil)
        },
        FrameKind::Try => ret(heap, stack, v),
        FrameKind::Call => if f.next + 1 < f.items.len() {
            goto(
                heap,
                stack.push(FrameModel { next: f.next + 1, done: f.done.push(v), ..f }),
                f.items[f.next as int + 1],
                f.env,
            )
        } else {
            call(heap, stack, f.done.push(v))
        },
        FrameKind::Vector => if f.next + 1 < f.items.len() {
            goto(
                heap,
                stack.push(FrameModel { next: f.next + 1, done: f.done.push(v), ..f }),
                f.items[f.next as int + 1],
                f.env,
            )
        } else {
            ret(heap, stack, V::Vector(f.done.push(v), no_meta()))
        },
        FrameKind::Table => if f.next + 1 < table_entries(f.head).len() {
            goto(
                heap,
                stack.push(FrameModel { next: f.next + 1, done: f.done.push(v), ..f }),
                table_entries(f.head)[f.next as int + 1].1,
                f.env,
            )
        } else {
            ret(
                heap,
                stack,
                V::Table(with_values(table_entries(f.head), f.done.push(v)), no_meta()),
            )
        },
        FrameKind::Expand => goto(heap, stack, v, f.env),
        FrameKind::ExpandOnly => macro_expand(heap, stack, v, f.env),
        FrameKind::Swap => ret(with_atom(heap, f.next, v), stack, v),
        FrameKind::MapOver => map_next(heap, stack, f.head, f.items, f.next + 1, f.done.push(v)),
    }
}

/// One step that unwinds the frame `f`, which was taken from the stack,
/// with the thrown value `e`: a `try*` with a catch clause binds `e` and
/// goes on with the handler, and any other frame is dropped.
pub open spec fn unwind_step(heap: HeapModel, stack: Seq<FrameModel>, f: FrameModel, e: V)
    -> Machine {
    if f.kind == FrameKind::Try && f.items.len() > 2 {
        match f.items[2] {
            V::List(clause, _) => if clause.len() < 3 {
                lacks(heap, stack, "catch*"@)
            } else {
                match new_with_binds_spec(Some(f.env), seq![clause[1]], seq![e], heap.atoms) {
                    Ok(bound) => goto(with_env(heap, bound), stack, clause[2], heap.envs.len()),
                    Err(err) => thrw(heap, stack, err),
                }
            },
            other => thrw(heap, stack, thrown_not_a("list"@, other, heap.atoms)),
        }
    } else {
        thrw(heap, stack, e)
    }
}

/// One step of a primitive function that needs the evaluator or the host.
pub open spec fn machine_builtin_step(
    heap: HeapModel,
    stack: Seq<FrameModel>,
    b: Builtin,
    args: Seq<V>,
) -> Machine {
    match b {
        Builtin::Prn => wait(
            heap,
            stack,
            RequestModel::Print(print_line_spec(true, args, heap.atoms)),
        ),
        Builtin::Println => wait(
            heap,
            stack,
            RequestModel::Print(print_line_spec(false, args, heap.atoms)),
        ),
        Builtin::Slurp => if args.len() < 1 {
            lacks(heap, stack, "slurp"@)
        } else {
            match args[0] {
                V::Str(file) => wait(heap, stack, RequestModel::ReadFile(file)),
                other => thrw(heap, stack, thrown_not_a("string"@, other, heap.atoms)),
            }
        },
        Builtin::TimeMs => wait(heap, stack, RequestModel::Clock),
        Builtin::Swap => if args.len() < 1 {
            lacks(heap, stack, "swap!"@)
        } else {
            match args[0] {
                V::Atom(a) => if a >= heap.atoms.len() {
                    thrw(heap, stack, thrown_not_a("atom"@, args[0], heap.atoms))
                } else if args.len() < 2 {
                    lacks(heap, stack, "swap!"@)
                } else {
                    call(
                        heap,
                        stack.push(
                            frame(FrameKind::Swap, 0, a, V::Nil, Seq::empty(), Seq::empty()),
                        ),
                        seq![args[1], heap.atoms[a as int]] + args.subrange(2, args.len() as int),
                    )
                },
                other => thrw(heap, stack, thrown_not_a("atom"@, other, heap.atoms)),
            }
        },
        Builtin::MapOver => if args.len() < 2 {
            lacks(heap, stack, "map"@)
        } else {
            match seq_items(args[1]) {
                Some(items) => map_next(heap, stack, args[0], items, 0, Seq::empty()),
                None => thrw(heap, stack, thrown_not_a("list or vec"@, args[1], heap.atoms)),
            }
        },
        _ => ret(heap, stack, V::Nil),
    }
}

/// One step of the call of a primitive function.
pub open spec fn builtin_step(heap: HeapModel, stack: Seq<FrameModel>, b: Builtin, args: Seq<V>)
    -> Machine {
    match core_spec(b, args, heap.atoms, heap.closures) {
        Some(o) => settle(HeapModel { atoms: o.atoms, ..heap }, stack, o.result),
        None => machine_builtin_step(heap, stack, b, args),
    }
}

/// The values after the `apply` marker at their head is dropped: where more
/// than one value is left and the last is a list or vector, its items stand
/// in its place.
pub open spec fn spliced(list: Seq<V>) -> Seq<V> {
    let rest = list.drop_first();
    if rest.len() > 1 {
        match seq_items(rest.last()) {
            Some(tail) => rest.drop_last() + tail,
            None => rest,
        }
    } else {
        rest
    }
}

/// One step of the call of the first of `list` with the others.
pub open spec fn call_step(heap: HeapModel, stack: Seq<FrameModel>, list: Seq<V>) -> Machine {
    if list.len() == 0 {
        lacks(heap, stack, "apply"@)
    } else {
        match list[0] {
            V::HostFn(HostFn::Apply, _) => call(heap, stack, spliced(list)),
            V::HostFn(HostFn::Eval(e), _) => if list.len() < 2 {
                lacks(heap, stack, "eval"@)
            } else {
                goto(heap, stack, list[1], e as nat)
            },
            V::HostFn(HostFn::ReadLine, _) => if list.len() < 2 {
                lacks(heap, stack, "readline"@)
            } else {
                match list[1] {
                    V::Str(prompt) => wait(heap, stack, RequestModel::ReadLine(prompt)),
                    other => thrw(heap, stack, thrown_not_a("string"@, other, heap.atoms)),
                }
            },
            V::HostFn(HostFn::ByPtr(f), _) => builtin_step(heap, stack, f.0, list.drop_first()),
            V::Closure(c, _) => if c < heap.closures.len() && !heap.closures[c as int].is_macro {
                enter(heap, stack, c, list.drop_first())
            } else {
                thrw(heap, stack, thrown_not_a("function"@, list[0], heap.atoms))
            },
            other => thrw(heap, stack, thrown_not_a("function"@, other, heap.atoms)),
        }
    }
}

/// Whether a machine has nothing to do before the host acts: it waits for a
/// reply, or it holds the result of the evaluation, with no work pending.
pub open spec fn halted(m: Machine) -> bool {
    m.pending is Some || (m.stack.len() == 0 && (m.control is Return || m.control is Throw))
}

/// One step of a machine. A machine that has halted stays as it is.
pub open spec fn step_spec(m: Machine) -> Machine {
    if halted(m) {
        m
    } else {
        match m.control {
            ControlModel::Eval(ast, env) => eval_step(m.heap, m.stack, ast, env),
            ControlModel::Call(list) => call_step(m.heap, m.stack, list),
            ControlModel::Return(v) => continue_step(m.heap, m.stack.drop_last(), m.stack.last(), v),
            ControlModel::Throw(e) => unwind_step(m.heap, m.stack.drop_last(), m.stack.last(), e),
        }
    }
}

/// The machine after at most `fuel` steps, fewer where it halts before.
pub open spec fn run_spec(m: Machine, fuel: nat) -> Machine
    decreases fuel,
{
    if fuel == 0 || halted(m) {
        m
    } else {
        run_spec(step_spec(m), (fuel - 1) as nat)
    }
}

/// A line without the newline at its end, if it has one.
pub open spec fn strip_newline(s: Seq<char>) -> Seq<char> {
    if s.len() > 0 && s.last() == '\n' {
        s.drop_last()
    } else {
        s
    }
}

/// The machine after the host's reply to the request that it waits for.
/// A machine that waits for nothing stays as it is.
pub open spec fn resume_spec(m: Machine, reply: ReplyModel) -> Machine {
    match m.pending {
        None => m,
        Some(request) => match (request, reply) {
            (RequestModel::Print(_), ReplyModel::Printed) => ret(m.heap, m.stack, V::Nil),
            (RequestModel::ReadLine(_), ReplyModel::Line(Some(line))) => ret(
                m.heap,
                m.stack,
                V::Str(strip_newline(line)),
            ),
            (RequestModel::ReadLine(_), ReplyModel::Line(None)) => ret(m.heap, m.stack, V::Nil),
            (RequestModel::ReadFile(_), ReplyModel::File(Ok(content))) => ret(
                m.heap,
                m.stack,
                V::Str(content),
            ),
            (RequestModel::ReadFile(file), ReplyModel::File(Err(detail))) => thrw(
                m.heap,
                m.stack,
                thrown(RuntimeErr::Io(file, detail)),
            ),
            (RequestModel::Clock, ReplyModel::Millis(n)) => ret(m.heap, m.stack, V::Number(n)),
            _ => thrw(m.heap, m.stack, V::Str("unexpected reply from the host"@)),
        },
    }
}

/// A frame of the given kind and content.
fn make_frame(kind: FrameKind, env: usize, next: usize, head: Value, items: Vec<Value>) -> (f:
    Frame)
    ensures
        f@ == frame(kind, env as nat, next as nat, head@, view_seq(items@), Seq::empty()),
{
    let done: Vec<Value> = Vec::new();
    assert(view_seq(done@) =~= Seq::<V>::empty());
    Frame { kind, env, next, head, items, done }
}

/// A frame of the given kind that holds no values.
fn bare_frame(kind: FrameKind, env: usize, next: usize) -> (f: Frame)
    ensures
        f@ == frame(kind, env as nat, next as nat, V::Nil, Seq::empty(), Seq::empty()),
{
    let items: Vec<Value> = Vec::new();
    assert(view_seq(items@) =~= Seq::<V>::empty());
    make_frame(kind, env, next, Value::Nil, items)
}

impl Interp {
    /// The closure that `ast` calls as a macro in the environment `env`.
    pub fn as_macro_call(&self, ast: &Value, env: usize) -> (r: Option<usize>)
        ensures
            view_index(r) == as_macro_call(self@.heap, ast@, env as nat),
            r matches Some(c) ==> c < self@.heap.closures.len() && ast@ is List && ast@->List_0.len()
                > 0,
    {
        match ast {
            Value::List(items, _) => {
                assert(view_seq(items@).len() == items.len());
                if items.len() > 0 {
                    match &items[0] {
                        Value::Symbol(name) => match Env::get(&self.heap.envs, env, name.as_str()) {
                            Ok(Value::Closure(c, _)) => {
                                if c < self.heap.closures.len() && self.heap.closures[c].is_macro {
                                    Some(c)
                                } else {
                                    None
                                }
                            },
                            _ => None,
                        },
                        _ => None,
                    }
                } else {
                    None
                }
            },
            _ => None,
        }
    }

    /// Runs the body of the closure `c` next, with its parameters bound to
    /// `args` in a new environment.
    pub fn enter(&mut self, c: usize, args: &Vec<Value>)
        requires
            c < old(self)@.heap.closures.len(),
        ensures
            final(self)@ == enter(old(self)@.heap, old(self)@.stack, c as nat, view_seq(args@)),
    {
        let bound = Env::new_with_binds(
            Some(self.heap.closures[c].env),
            &self.heap.closures[c].params,
            args,
            &self.heap.atoms,
        );
        match bound {
            Err(e) => self.throw(e),
            Ok(f) => {
                let body = self.heap.closures[c].ast.clone();
                let id = self.heap.add_env(f);
                self.goto(body, id);
            },
        }
    }

    /// Expands a macro call next: runs the body of the macro `c` on the
    /// operands of the call.
    pub fn expand(&mut self, c: usize, items: &Vec<Value>, env: usize, kind: FrameKind)
        requires
            c < old(self)@.heap.closures.len(),
            items.len() > 0,
        ensures
            final(self)@ == expand(
                old(self)@.heap,
                old(self)@.stack,
                c as nat,
                view_seq(items@),
                env as nat,
                kind,
            ),
    {
        let args = clone_from(items, 1);
        assert(view_seq(args@) =~= view_seq(items@).drop_first());
        self.push(bare_frame(kind, env, 0));
        self.enter(c, &args);
    }

    /// Expands `form` while it is a macro call, and gives it when it is
    /// none.
    pub fn macro_expand(&mut self, form: Value, env: usize)
        ensures
            final(self)@ == macro_expand(old(self)@.heap, old(self)@.stack, form@, env as nat),
    {
        match self.as_macro_call(&form, env) {
            Some(c) => match &form {
                Value::List(items, _) => {
                    assert(view_seq(items@).len() == items.len());
                    self.expand(c, items, env, FrameKind::ExpandOnly);
                },
                _ => {},
            },
            None => self.ret(form),
        }
    }

    /// Goes on with the bindings of a `let*` from position `i` on, and then
    /// with its body.
    pub fn let_next(&mut self, bindings: Vec<Value>, i: usize, body: Value, env: usize)
        ensures
            final(self)@ == let_next(
                old(self)@.heap,
                old(self)@.stack,
                view_seq(bindings@),
                i as nat,
                body@,
                env as nat,
            ),
    {
        if i >= bindings.len() {
            self.goto(body, env);
        } else if i + 1 >= bindings.len() {
            self.throw(missing_argument("let*"));
        } else {
            let value = bindings[i + 1].clone();
            self.push(make_frame(FrameKind::Let, env, i, body, bindings));
            self.goto(value, env);
        }
    }

    /// Goes on with the form at position `i` of a `do`.
    pub fn do_next(&mut self, items: Vec<Value>, i: usize, env: usize)
        ensures
            final(self)@ == do_next(
                old(self)@.heap,
                old(self)@.stack,
                view_seq(items@),
                i as nat,
                env as nat,
            ),
    {
        if i >= items.len() {
            self.ret(Value::Nil);
        } else if i + 1 == items.len() {
            self.goto(items[i].clone(), env);
        } else {
            let form = items[i].clone();
            self.push(make_frame(FrameKind::Do, env, i, Value::Nil, items));
            self.goto(form, env);
        }
    }

    /// Evaluates the items of a list one by one, to call the first with the
    /// others.
    pub fn begin_call(&mut self, items: Vec<Value>, env: usize)
        requires
            items.len() > 0,
        ensures
            final(self)@ == begin_call(
                old(self)@.heap,
                old(self)@.stack,
                view_seq(items@),
                env as nat,
            ),
    {
        let first = items[0].clone();
        self.push(make_frame(FrameKind::Call, env, 0, Value::Nil, items));
        self.goto(first, env);
    }

    /// Calls `function` on the item at position `i` of `items`, or gives the
    /// list of the results when there is none left.
    pub fn map_next(&mut self, function: Value, items: Vec<Value>, i: usize, done: Vec<Value>)
        ensures
            final(self)@ == map_next(
                old(self)@.heap,
                old(self)@.stack,
                function@,
                view_seq(items@),
                i as nat,
                view_seq(done@),
            ),
    {
        if i >= items.len() {
            self.ret(Value::list(done));
        } else {
            let list = vec![function.clone(), items[i].clone()];
            assert(view_seq(list@) =~= seq![function@, items[i as int]@]);
            self.push(
                Frame { kind: FrameKind::MapOver, env: 0, next: i, head: function, items, done },
            );
            self.call(list);
        }
    }

    /// One step on a non-empty list whose first item is the symbol `name`.
    pub fn form_step(&mut self, name: &str, items: Vec<Value>, env: usize)
        requires
            items.len() > 0,
        ensures
            final(self)@ == form_step(
                old(self)@.heap,
                old(self)@.stack,
                name@,
                view_seq(items@),
                env as nat,
            ),
    {
        if str_eq(name, "def!") {
            if items.len() < 3 {
                self.throw(missing_argument(name));
            } else {
                let key = items[1].clone();
                let value = items[2].clone();
                let empty: Vec<Value> = Vec::new();
                assert(view_seq(empty@) =~= Seq::<V>::empty());
                self.push(make_frame(FrameKind::Def, env, 0, key, empty));
                self.goto(value, env);
            }
        } else if str_eq(name, "defmacro!") {
            if items.len() < 3 {
                self.throw(missing_argument(name));
            } else {
                let key = items[1].clone();
                let value = items[2].clone();
                let empty: Vec<Value> = Vec::new();
                assert(view_seq(empty@) =~= Seq::<V>::empty());
                self.push(make_frame(FrameKind::DefMacro, env, 0, key, empty));
                self.goto(value, env);
            }
        } else if str_eq(name, "let*") {
            if items.len() < 3 {
                self.throw(missing_argument(name));
            } else {
                match items[1].try_as_list_or_vec() {
                    None => {
                        let e = not_a("list or vec", &items[1], &self.heap.atoms);
                        self.throw(e);
                    },
                    Some(bindings) => {
                        let bindings = clone_values(bindings);
                        let body = items[2].clone();
                        let inner = self.heap.add_env(Env::new(Some(env)));
                        self.let_next(bindings, 0, body, inner);
                    },
                }
            }
        } else if str_eq(name, "do") {
            if items.len() < 2 {
                self.throw(missing_argument(name));
            } else {
                self.do_next(items, 1, env);
            }
        } else if str_eq(name, "if") {
            if items.len() < 3 {
                self.throw(missing_argument(name));
            } else {
                let cond = items[1].clone();
                self.push(make_frame(FrameKind::If, env, 0, Value::Nil, items));
                self.goto(cond, env);
            }
        } else if str_eq(name, "fn*") {
            if items.len() < 3 {
                self.throw(missing_argument(name));
            } else {
                match items[1].try_as_list_or_vec() {
                    None => {
                        let e = not_a("list or vec", &items[1], &self.heap.atoms);
                        self.throw(e);
                    },
                    Some(params) => {
                        let closure = Closure {
                            ast: items[2].clone(),
                            params: clone_values(params),
                            env,
                            is_macro: false,
                        };
                        let id = self.heap.add_closure(closure);
                        self.ret(Value::closure(id));
                    },
                }
            }
        } else if str_eq(name, "quote") {
            if items.len() < 2 {
                self.throw(missing_argument(name));
            } else {
                self.ret(items[1].clone());
            }
        } else if str_eq(name, "quasiquoteexpand") {
            if items.len() < 2 {
                self.throw(missing_argument(name));
            } else {
                let r = quasiquote(&items[1]);
                self.settle(r);
            }
        } else if str_eq(name, "quasiquote") {
            if items.len() < 2 {
                self.throw(missing_argument(name));
            } else {
                match quasiquote(&items[1]) {
                    Ok(form) => self.goto(form, env),
                    Err(e) => self.throw(e),
                }
            }
        } else if str_eq(name, "macroexpand") {
            if items.len() < 2 {
                self.throw(missing_argument(name));
            } else {
                self.macro_expand(items[1].clone(), env);
            }
        } else if str_eq(name, "try*") {
            if items.len() < 2 {
                self.throw(missing_argument(name));
            } else {
                let body = items[1].clone();
                self.push(make_frame(FrameKind::Try, env, 0, Value::Nil, items));
                self.goto(body, env);
            }
        } else {
            self.begin_call(items, env);
        }
    }

    /// One step on a form that is neither a macro call nor a special form.
    pub fn eval_ast(&mut self, ast: Value, env: usize)
        ensures
            final(self)@ == eval_ast(old(self)@.heap, old(self)@.stack, ast@, env as nat),
    {
        match ast {
            Value::List(items, meta) => {
                assert(view_seq(items@).len() == items.len());
                if items.len() == 0 {
                    self.ret(Value::List(items, meta));
                } else {
                    self.begin_call(items, env);
                }
            },
            Value::Vec(items, _) => {
                assert(view_seq(items@).len() == items.len());
                if items.len() == 0 {
                    self.ret(Value::vector(items));
                    assert(view_seq(items@) =~= Seq::<V>::empty());
                } else {
                    let first = items[0].clone();
                    self.push(make_frame(FrameKind::Vector, env, 0, Value::Nil, items));
                    self.goto(first, env);
                }
            },
            Value::HashMap(map, meta) => {
                if map.len() == 0 {
                    let empty = MalMap::new();
                    self.ret(Value::hash_map(empty));
                } else {
                    let first = map.entries[0].1.clone();
                    let empty: Vec<Value> = Vec::new();
                    assert(view_seq(empty@) =~= Seq::<V>::empty());
                    self.push(
                        make_frame(FrameKind::Table, env, 0, Value::HashMap(map, meta), empty),
                    );
                    self.goto(first, env);
                }
            },
            Value::Symbol(name) => {
                let r = Env::get(&self.heap.envs, env, name.as_str());
                self.settle(r);
            },
            other => self.ret(other),
        }
    }

    /// One step on the form `ast` in the environment `env`.
    pub fn eval_step(&mut self, ast: Value, env: usize)
        ensures
            final(self)@ == eval_step(old(self)@.heap, old(self)@.stack, ast@, env as nat),
    {
        match self.as_macro_call(&ast, env) {
            Some(c) => {
                match &ast {
                    Value::List(items, _) => {
                        assert(view_seq(items@).len() == items.len());
                        self.expand(c, items, env, FrameKind::Expand);
                    },
                    _ => {},
                }
                return ;
            },
            None => {},
        }
        let name = match &ast {
            Value::List(items, _) => {
                assert(view_seq(items@).len() == items.len());
                if items.len() > 0 {
                    match &items[0] {
                        Value::Symbol(name) => Some(name.clone()),
                        _ => None,
                    }
                } else {
                    None
                }
            },
            _ => None,
        };
        match name {
            Some(name) => match ast {
                Value::List(items, _) => self.form_step(name.as_str(), items, env),
                _ => {},
            },
            None => self.eval_ast(ast, env),
        }
    }

    /// The map of the keys of `map` with the values `values` in the place
    /// of their own.
    fn rebuild(map: &MalMap, values: &Vec<Value>) -> (r: MalMap)
        ensures
            r@ == with_values(map@, view_seq(values@)),
    {
        let mut out: Vec<(String, Value)> = Vec::new();
        let mut i: usize = 0;
        while i < map.entries.len()
            invariant
                i <= map.entries.len(),
                out.len() == i,
                forall|j: int|
                    0 <= j < i ==> (#[trigger] out[j]).0@ == map.entries[j].0@ && out[j].1@ == (
                    if j < values.len() {
                        values[j]@
                    } else {
                        map.entries[j].1@
                    }),
            decreases map.entries.len() - i,
        {
            let key = map.entries[i].0.clone();
            let value = if i < values.len() {
                values[i].clone()
            } else {
                map.entries[i].1.clone()
            };
            out.push((key, value));
            i += 1;
        }
        let r = MalMap { entries: out };
        assert(r@ =~= with_values(map@, view_seq(values@)));
        r
    }

    fn continue_def(&mut self, env: usize, next: usize, head: Value, items: Vec<Value>, done: Vec<Value>, v: Value)
        ensures
            final(self)@ == continue_step(
                old(self)@.heap,
                old(self)@.stack,
                frame(
                    FrameKind::Def,
                    env as nat,
                    next as nat,
                    head@,
                    view_seq(items@),
                    view_seq(done@),
                ),
                v@,
            ),
    {
        match head {
            Value::Symbol(name) => {
                self.heap.bind(env, name, v.clone());
                self.ret(v);
            },
            other => {
                let e = not_a("map key (symbol)", &other, &self.heap.atoms);
                self.throw(e);
            },
        }
    }

    fn continue_defmacro(&mut self, env: usize, next: usize, head: Value, items: Vec<Value>, done: Vec<Value>, v: Value)
        ensures
            final(self)@ == continue_step(
                old(self)@.heap,
                old(self)@.stack,
                frame(
                    FrameKind::DefMacro,
                    env as nat,
                    next as nat,
                    head@,
                    view_seq(items@),
                    view_seq(done@),
                ),
                v@,
            ),
    {
        let source = match &v {
            Value::Closure(c, _) => if *c < self.heap.closures.len() {
                Some(*c)
            } else {
                None
            },
            _ => None,
        };
        match source {
            Some(c) => match head {
                Value::Symbol(name) => {
                    let mut closure = self.heap.closures[c].clone();
                    closure.is_macro = true;
                    let id = self.heap.add_closure(closure);
                    self.heap.bind(env, name, Value::closure(id));
                    self.ret(Value::closure(id));
                },
                other => {
                    let e = not_a("map key (symbol)", &other, &self.heap.atoms);
                    self.throw(e);
                },
            },
            None => {
                let e = not_a("function", &v, &self.heap.atoms);
                self.throw(e);
            },
        }
    }

    fn continue_let(&mut self, env: usize, next: usize, head: Value, items: Vec<Value>, done: Vec<Value>, v: Value)
        ensures
            final(self)@ == continue_step(
                old(self)@.heap,
                old(self)@.stack,
                frame(
                    FrameKind::Let,
                    env as nat,
                    next as nat,
                    head@,
                    view_seq(items@),
                    view_seq(done@),
                ),
                v@,
            ),
    {
        assert(view_seq(items@).len() == items.len());
        if next >= items.len() {
            self.throw(missing_argument("let*"));
        } else {
            match &items[next] {
                Value::Symbol(name) => {
                    let name = name.clone();
                    self.heap.bind(env, name, v);
                    let after = if next > usize::MAX - 2 {
                        usize::MAX
                    } else {
                        next + 2
                    };
                    self.let_next(items, after, head, env);
                },
                other => {
                    let e = not_a("map key (symbol)", other, &self.heap.atoms);
                    self.throw(e);
                },
            }
        }
    }

    fn continue_do(&mut self, env: usize, next: usize, head: Value, items: Vec<Value>, done: Vec<Value>, v: Value)
        ensures
            final(self)@ == continue_step(
                old(self)@.heap,
                old(self)@.stack,
                frame(
                    FrameKind::Do,
                    env as nat,
                    next as nat,
                    head@,
                    view_seq(items@),
                    view_seq(done@),
                ),
                v@,
            ),
    {
        assert(view_seq(items@).len() == items.len());
        if next >= items.len() {
            self.ret(Value::Nil);
        } else {
            self.do_next(items, next + 1, env);
        }
    }

    fn continue_if(&mut self, env: usize, next: usize, head: Value, items: Vec<Value>, done: Vec<Value>, v: Value)
        ensures
            final(self)@ == continue_step(
                old(self)@.heap,
                old(self)@.stack,
                frame(
                    FrameKind::If,
                    env as nat,
                    next as nat,
                    head@,
                    view_seq(items@),
                    view_seq(done@),
                ),
                v@,
            ),
    {
        assert(view_seq(items@).len() == items.len());
        let truthy = match &v {
            Value::Bool(b) => *b,
            Value::Nil => false,
            _ => true,
        };
        if truthy {
            if items.len() > 2 {
                self.goto(items[2].clone(), env);
            } else {
                self.ret(Value::Nil);
            }
        } else if items.len() > 3 {
            self.goto(items[3].clone(), env);
        } else {
            self.ret(Value::Nil);
        }
    }

    fn continue_items(
        &mut self,
        kind: FrameKind,
        env: usize,
        next: usize,
        head: Value,
        items: Vec<Value>,
        done: Vec<Value>,
        v: Value,
    )
        requires
            kind == FrameKind::Call || kind == FrameKind::Vector,
        ensures
            final(self)@ == continue_step(
                old(self)@.heap,
                old(self)@.stack,
                frame(kind, env as nat, next as nat, head@, view_seq(items@), view_seq(done@)),
                v@,
            ),
    {
        assert(view_seq(items@).len() == items.len());
        let mut done = done;
        let ghost before = view_seq(done@);
        done.push(v);
        assert(view_seq(done@) =~= before.push(v@));
        if items.len() > 0 && next < items.len() - 1 {
            let form = items[next + 1].clone();
            self.push(Frame { kind, env, next: next + 1, head, items, done });
            self.goto(form, env);
        } else {
            match kind {
                FrameKind::Call => self.call(done),
                _ => self.ret(Value::vector(done)),
            }
        }
    }

    fn continue_table(&mut self, env: usize, next: usize, head: Value, items: Vec<Value>, done: Vec<Value>, v: Value)
        ensures
            final(self)@ == continue_step(
                old(self)@.heap,
                old(self)@.stack,
                frame(
                    FrameKind::Table,
                    env as nat,
                    next as nat,
                    head@,
                    view_seq(items@),
                    view_seq(done@),
                ),
                v@,
            ),
    {
        let mut done = done;
        let ghost before = view_seq(done@);
        done.push(v);
        assert(view_seq(done@) =~= before.push(v@));
        match &head {
            Value::HashMap(map, _) => {
                assert(map@.len() == map.entries.len());
                if map.entries.len() > 0 && next < map.entries.len() - 1 {
                    let form = map.entries[next + 1].1.clone();
                    self.push(
                        Frame { kind: FrameKind::Table, env, next: next + 1, head, items, done },
                    );
                    self.goto(form, env);
                } else {
                    let r = Self::rebuild(map, &done);
                    self.ret(Value::hash_map(r));
                }
            },
            _ => {
                let r = MalMap::new();
                assert(r@ =~= with_values(Seq::empty(), view_seq(done@)));
                self.ret(Value::hash_map(r));
            },
        }
    }

    fn continue_map(&mut self, env: usize, next: usize, head: Value, items: Vec<Value>, done: Vec<Value>, v: Value)
        ensures
            final(self)@ == continue_step(
                old(self)@.heap,
                old(self)@.stack,
                frame(
                    FrameKind::MapOver,
                    env as nat,
                    next as nat,
                    head@,
                    view_seq(items@),
                    view_seq(done@),
                ),
                v@,
            ),
    {
        assert(view_seq(items@).len() == items.len());
        let mut done = done;
        let ghost before = view_seq(done@);
        done.push(v);
        assert(view_seq(done@) =~= before.push(v@));
        if next >= items.len() {
            self.ret(Value::list(done));
        } else {
            self.map_next(head, items, next + 1, done);
        }
    }

    /// One step that hands the value `v` to the frame `f`, which was taken
    /// from the stack.
    pub fn continue_step(&mut self, f: Frame, v: Value)
        ensures
            final(self)@ == continue_step(old(self)@.heap, old(self)@.stack, f@, v@),
    {
        let Frame { kind, env, next, head, items, done } = f;
        match kind {
            FrameKind::Def => self.continue_def(env, next, head, items, done, v),
            FrameKind::DefMacro => self.continue_defmacro(env, next, head, items, done, v),
            FrameKind::Let => self.continue_let(env, next, head, items, done, v),
            FrameKind::Do => self.continue_do(env, next, head, items, done, v),
            FrameKind::If => self.continue_if(env, next, head, items, done, v),
            FrameKind::Try => self.ret(v),
            FrameKind::Call => self.continue_items(kind, env, next, head, items, done, v),
            FrameKind::Vector => self.continue_items(kind, env, next, head, items, done, v),
            FrameKind::Table => self.continue_table(env, next, head, items, done, v),
            FrameKind::Expand => self.goto(v, env),
            FrameKind::ExpandOnly => self.macro_expand(v, env),
            FrameKind::Swap => {
                self.heap.store(next, v.clone());
                self.ret(v);
            },
            FrameKind::MapOver => self.continue_map(env, next, head, items, done, v),
        }
    }

    /// One step that unwinds the frame `f`, which was taken from the stack,
    /// with the thrown value `e`.
    pub fn unwind_step(&mut self, f: Frame, e: Value)
        ensures
            final(self)@ == unwind_step(old(self)@.heap, old(self)@.stack, f@, e@),
    {
        assert(view_seq(f.items@).len() == f.items.len());
        let catches = match f.kind {
            FrameKind::Try => f.items.len() > 2,
            _ => false,
        };
        if catches {
            match &f.items[2] {
                Value::List(clause, _) => {
                    assert(view_seq(clause@).len() == clause.len());
                    if clause.len() < 3 {
                        self.throw(missing_argument("catch*"));
                    } else {
                        let binds = vec![clause[1].clone()];
                        let exprs = vec![e];
                        assert(view_seq(binds@) =~= seq![clause[1]@]);
                        assert(view_seq(exprs@) =~= seq![e@]);
                        match Env::new_with_binds(Some(f.env), &binds, &exprs, &self.heap.atoms) {
                            Ok(bound) => {
                                let handler = clause[2].clone();
                                let id = self.heap.add_env(bound);
                                self.goto(handler, id);
                            },
                            Err(err) => self.throw(err),
                        }
                    }
                },
                other => {
                    let err = not_a("list", other, &self.heap.atoms);
                    self.throw(err);
                },
            }
        } else {
            self.throw(e);
        }
    }

    /// One step of a primitive function that needs the evaluator or the
    /// host.
    pub fn machine_builtin_step(&mut self, b: Builtin, args: Vec<Value>)
        ensures
            final(self)@ == machine_builtin_step(
                old(self)@.heap,
                old(self)@.stack,
                b,
                view_seq(args@),
            ),
    {
        match b {
            Builtin::Prn => {
                let line = text_joined(&args, &self.heap.atoms, true);
                self.wait(Request::Print(line));
            },
            Builtin::Println => {
                let line = text_joined(&args, &self.heap.atoms, false);
                self.wait(Request::Print(line));
            },
            Builtin::Slurp => {
                if args.len() < 1 {
                    self.throw(missing_argument("slurp"));
                } else {
                    match &args[0] {
                        Value::String(file) => self.wait(Request::ReadFile(file.clone())),
                        other => {
                            let e = not_a("string", other, &self.heap.atoms);
                            self.throw(e);
                        },
                    }
                }
            },
            Builtin::TimeMs => self.wait(Request::Clock),
            Builtin::Swap => {
                if args.len() < 1 {
                    self.throw(missing_argument("swap!"));
                } else {
                    let target = match &args[0] {
                        Value::Atom(a) => if *a < self.heap.atoms.len() {
                            Some(*a)
                        } else {
                            None
                        },
                        _ => None,
                    };
                    match target {
                        None => {
                            let e = not_a("atom", &args[0], &self.heap.atoms);
                            self.throw(e);
                        },
                        Some(a) => {
                            if args.len() < 2 {
                                self.throw(missing_argument("swap!"));
                            } else {
                                let mut list = vec![
                                    args[1].clone(),
                                    self.heap.atoms[a].clone(),
                                ];
                                let mut more = clone_from(&args, 2);
                                list.append(&mut more);
                                assert(view_seq(list@) =~= seq![
                                    args[1]@,
                                    self.heap.atoms[a as int]@,
                                ] + view_seq(args@).subrange(2, args.len() as int));
                                self.push(bare_frame(FrameKind::Swap, 0, a));
                                self.call(list);
                            }
                        },
                    }
                }
            },
            Builtin::MapOver => {
                if args.len() < 2 {
                    self.throw(missing_argument("map"));
                } else {
                    match args[1].try_as_list_or_vec() {
                        Some(items) => {
                            let items = clone_values(items);
                            let done: Vec<Value> = Vec::new();
                            assert(view_seq(done@) =~= Seq::<V>::empty());
                            self.map_next(args[0].clone(), items, 0, done);
                        },
                        None => {
                            let e = not_a("list or vec", &args[1], &self.heap.atoms);
                            self.throw(e);
                        },
                    }
                }
            },
            _ => self.ret(Value::Nil),
        }
    }

    /// One step of the call of a primitive function.
    pub fn builtin_step(&mut self, b: Builtin, args: Vec<Value>)
        ensures
            final(self)@ == builtin_step(old(self)@.heap, old(self)@.stack, b, view_seq(args@)),
    {
        match call_builtin(b, &args, &mut self.heap.atoms, &self.heap.closures) {
            Some(r) => self.settle(r),
            None => self.machine_builtin_step(b, args),
        }
    }

    /// One step of the call of the first of `list` with the others.
    pub fn call_step(&mut self, list: Vec<Value>)
        ensures
            final(self)@ == call_step(old(self)@.heap, old(self)@.stack, view_seq(list@)),
    {
        if list.len() == 0 {
            self.throw(missing_argument("apply"));
            return ;
        }
        match &list[0] {
            Value::HostFn(HostFn::Apply, _) => {
                let mut rest = clone_from(&list, 1);
                assert(view_seq(rest@) =~= view_seq(list@).drop_first());
                if rest.len() > 1 {
                    let tail = match rest[rest.len() - 1].try_as_list_or_vec() {
                        Some(tail) => Some(clone_values(tail)),
                        None => None,
                    };
                    match tail {
                        Some(mut tail) => {
                            let ghost before = view_seq(rest@);
                            let ghost items = view_seq(tail@);
                            let _ = rest.pop();
                            assert(view_seq(rest@) =~= before.drop_last());
                            rest.append(&mut tail);
                            assert(view_seq(rest@) =~= before.drop_last() + items);
                        },
                        None => {},
                    }
                }
                self.call(rest);
            },
            Value::HostFn(HostFn::Eval(e), _) => {
                if list.len() < 2 {
                    self.throw(missing_argument("eval"));
                } else {
                    self.goto(list[1].clone(), *e);
                }
            },
            Value::HostFn(HostFn::ReadLine, _) => {
                if list.len() < 2 {
                    self.throw(missing_argument("readline"));
                } else {
                    match &list[1] {
                        Value::String(prompt) => self.wait(Request::ReadLine(prompt.clone())),
                        other => {
                            let e = not_a("string", other, &self.heap.atoms);
                            self.throw(e);
                        },
                    }
                }
            },
            Value::HostFn(HostFn::ByPtr(f), _) => {
                let args = clone_from(&list, 1);
                assert(view_seq(args@) =~= view_seq(list@).drop_first());
                self.builtin_step(f.0, args);
            },
            Value::Closure(c, _) => {
                if *c < self.heap.closures.len() && !self.heap.closures[*c].is_macro {
                    let args = clone_from(&list, 1);
                    assert(view_seq(args@) =~= view_seq(list@).drop_first());
                    self.enter(*c, &args);
                } else {
                    let e = not_a("function", &list[0], &self.heap.atoms);
                    self.throw(e);
                }
            },
            other => {
                let e = not_a("function", other, &self.heap.atoms);
                self.throw(e);
            },
        }
    }

    /// Whether this interpreter has nothing to do before the host acts.
    pub fn is_halted(&self) -> (r: bool)
        ensures
            r == halted(self@),
    {
        if self.pending.is_some() {
            return true;
        }
        if self.stack.len() != 0 {
            return false;
        }
        match &self.control {
            Control::Return(_) => true,
            Control::Throw(_) => true,
            _ => false,
        }
    }

    /// Makes one step. An interpreter that has halted stays as it is.
    pub fn step(&mut self)
        ensures
            final(self)@ == step_spec(old(self)@),
    {
        if self.is_halted() {
            return ;
        }
        let mut control = Control::Return(Value::Nil);
        core::mem::swap(&mut self.control, &mut control);
        match control {
            Control::Eval(ast, env) => self.eval_step(ast, env),
            Control::Call(list) => self.call_step(list),
            Control::Return(v) => {
                let ghost before = self@.stack;
                match self.stack.pop() {
                    Some(f) => {
                        assert(self@.stack =~= before.drop_last());
                        assert(f@ == before.last());
                        self.continue_step(f, v);
                    },
                    None => {},
                }
            },
            Control::Throw(e) => {
                let ghost before = self@.stack;
                match self.stack.pop() {
                    Some(f) => {
                        assert(self@.stack =~= before.drop_last());
                        assert(f@ == before.last());
                        self.unwind_step(f, e);
                    },
                    None => {},
                }
            },
        }
    }

    /// Where this interpreter stands.
    pub fn status(&self) -> (r: Status)
        ensures
            r@ == status_of(self@),
    {
        match &self.pending {
            Some(request) => {
                return Status::Waiting(
                    match request {
                        Request::Print(s) => Request::Print(s.clone()),
                        Request::ReadLine(s) => Request::ReadLine(s.clone()),
                        Request::ReadFile(s) => Request::ReadFile(s.clone()),
                        Request::Clock => Request::Clock,
                    },
                );
            },
            None => {},
        }
        if self.stack.len() != 0 {
            return Status::Running;
        }
        match &self.control {
            Control::Return(v) => Status::Done(Ok(v.clone())),
            Control::Throw(e) => Status::Done(Err(e.clone())),
            _ => Status::Running,
        }
    }

    /// Makes at most `fuel` steps, fewer where the interpreter halts before,
    /// and says where it stands then.
    pub fn run(&mut self, fuel: u64) -> (r: Status)
        ensures
            final(self)@ == run_spec(old(self)@, fuel as nat),
            r@ == status_of(final(self)@),
    {
        let mut left: u64 = fuel;
        while left > 0 && !self.is_halted()
            invariant
                run_spec(self@, left as nat) == run_spec(old(self)@, fuel as nat),
            decreases left,
        {
            self.step();
            left -= 1;
        }
        self.status()
    }

    /// Starts the evaluation of `input` in the environment `env`, dropping
    /// any work that was pending.
    pub fn start(&mut self, input: Value, env: usize)
        ensures
            final(self)@ == goto(old(self)@.heap, Seq::empty(), input@, env as nat),
    {
        self.stack = Vec::new();
        assert(self@.stack =~= Seq::empty());
        self.goto(input, env);
    }

    /// Takes the host's reply to the request that this interpreter waits
    /// for. An interpreter that waits for nothing stays as it is.
    pub fn resume(&mut self, reply: Reply)
        ensures
            final(self)@ == resume_spec(old(self)@, reply@),
    {
        let request = match self.pending.take() {
            Some(r) => r,
            None => {
                return ;
            },
        };
        match request {
            Request::Print(_) => match reply {
                Reply::Printed => self.ret(Value::Nil),
                _ => self.throw(Value::string("unexpected reply from the host")),
            },
            Request::ReadLine(_) => match reply {
                Reply::Line(Some(line)) => {
                    let chars = chars_of(line.as_str());
                    if chars.len() > 0 && chars[chars.len() - 1] == '\n' {
                        let stripped = string_of(&chars, 0, chars.len() - 1);
                        assert(stripped@ =~= strip_newline(line@));
                        self.ret(Value::String(stripped));
                    } else {
                        self.ret(Value::String(line));
                    }
                },
                Reply::Line(None) => self.ret(Value::Nil),
                _ => self.throw(Value::string("unexpected reply from the host")),
            },
            Request::ReadFile(file) => match reply {
                Reply::File(Ok(content)) => self.ret(Value::String(content)),
                Reply::File(Err(detail)) => self.throw(RuntimeError::Io(file, detail).into_value()),
                _ => self.throw(Value::string("unexpected reply from the host")),
            },
            Request::Clock => match reply {
                Reply::Millis(n) => self.ret(Value::Number(n)),
                _ => self.throw(Value::string("unexpected reply from the host")),
            },
        }
    }
}

/// Where an interpreter stands.
#[derive(Debug)]
pub enum Status {
    /// The evaluation has ended, with a value or a thrown value.
    Done(RuntimeResult<Value>),
    /// The interpreter waits for the host's reply to a request.
    Waiting(Request),
    /// There is work left to do.
    Running,
}

/// Mathematical model of a status.
pub ghost enum StatusModel {
    Done(Result<V, V>),
    Waiting(RequestModel),
    Running,
}

impl View for Status {
    type V = StatusModel;

    open spec fn view(&self) -> StatusModel {
        match self {
            Status::Done(Ok(v)) => StatusModel::Done(Ok(v@)),
            Status::Done(Err(e)) => StatusModel::Done(Err(e@)),
            Status::Waiting(r) => StatusModel::Waiting(r@),
            Status::Running => StatusModel::Running,
        }
    }
}

/// Where a machine stands.
pub open spec fn status_of(m: Machine) -> StatusModel {
    match m.pending {
        Some(request) => StatusModel::Waiting(request),
        None => if m.stack.len() != 0 {
            StatusModel::Running
        } else {
            match m.control {
                ControlModel::Return(v) => StatusModel::Done(Ok(v)),
                ControlModel::Throw(e) => StatusModel::Done(Err(e)),
                _ => StatusModel::Running,
            }
        },
    }
}

/// Evaluates `input` in the environment `env`, with at most `fuel` steps.
///
/// The result says where the interpreter stands then: the evaluation has
/// ended, or it waits for the host, or the steps were used up. In the last
/// two cases `resume` and `run` take it further.
pub fn eval(interp: &mut Interp, input: Value, env: usize, fuel: u64) -> (r: Status)
    ensures
        final(interp)@ == run_spec(
            goto(old(interp)@.heap, Seq::empty(), input@, env as nat),
            fuel as nat,
        ),
        r@ == status_of(final(interp)@),
{
    interp.start(input, env);
    interp.run(fuel)
}

/// The bindings of the outermost environment of a new interpreter: the
/// primitive functions, the evaluator, the line reader, the name of the host
/// language, and an empty list of arguments.
pub open spec fn root_bindings() -> Map<Seq<char>, V> {
    core_bindings(Map::empty()).insert("eval"@, V::HostFn(HostFn::Eval(0), no_meta())).insert(
        "readline"@,
        V::HostFn(HostFn::ReadLine, no_meta()),
    ).insert("*host-language*"@, V::Str("rust"@)).insert(
        "*ARGV*"@,
        V::List(Seq::empty(), no_meta()),
    )
}

/// A new interpreter: one environment, with the index 0, no atoms, no
/// closures, and nothing to do.
pub open spec fn initial_machine() -> Machine {
    Machine {
        heap: HeapModel {
            envs: seq![EnvModel { data: root_bindings(), outer: None }],
            atoms: Seq::empty(),
            closures: Seq::empty(),
        },
        control: ControlModel::Return(V::Nil),
        stack: Seq::empty(),
        pending: None,
    }
}

/// The strings of a sequence as values.
pub open spec fn strings_as_values(args: Seq<String>) -> Seq<V> {
    Seq::new(args.len(), |i: int| V::Str(args[i]@))
}

/// The number of forms that define the part of the language that is written
/// in the language itself.
pub const PRELUDE_FORMS: usize = 3;

/// The source text of the form at position `i` of the prelude: `not`,
/// `load-file`, and the macro `cond`.
pub open spec fn prelude_text(i: int) -> Seq<char> {
    if i == 0 {
        "(def! not (fn* (a) (if a false true)))"@
    } else if i == 1 {
        "(def! load-file (fn* (f) (eval (read-string (str \"(do \" (slurp f) \"\\nnil)\")))))"@
    } else {
        "(defmacro! cond (fn* (& xs) (if (> (count xs) 0) (list 'if (first xs) (if (> (count xs) 1) (nth xs 1) (throw \"odd number of forms to cond\")) (cons 'cond (rest (rest xs)))))))"@
    }
}

/// The source text of the form at position `i` of the prelude.
pub fn prelude_source(i: usize) -> (r: &'static str)
    ensures
        r@ == prelude_text(i as int),
{
    if i == 0 {
        "(def! not (fn* (a) (if a false true)))"
    } else if i == 1 {
        "(def! load-file (fn* (f) (eval (read-string (str \"(do \" (slurp f) \"\\nnil)\")))))"
    } else {
        "(defmacro! cond (fn* (& xs) (if (> (count xs) 0) (list 'if (first xs) (if (> (count xs) 1) (nth xs 1) (throw \"odd number of forms to cond\")) (cons 'cond (rest (rest xs)))))))"
    }
}

/// The machine after the first form of `source` is read and evaluated in
/// the environment `env` with at most `fuel` steps. A text that cannot be
/// read, or that holds no form, leaves the machine as it is.
pub open spec fn re_spec(m: Machine, source: Seq<char>, env: nat, fuel: nat) -> Machine {
    match read_str_spec(source) {
        Ok(ast) => run_spec(goto(m.heap, Seq::empty(), ast, env), fuel),
        Err(_) => m,
    }
}

/// The machine after the first `n` forms of the prelude are evaluated in the
/// outermost environment, each with at most `fuel` steps.
pub open spec fn boot_spec(m: Machine, fuel: nat, n: nat) -> Machine
    decreases n,
{
    if n == 0 {
        m
    } else {
        re_spec(boot_spec(m, fuel, (n - 1) as nat), prelude_text(n - 1), 0, fuel)
    }
}

/// Whether each of the first `n` forms of the prelude gives a value within
/// `fuel` steps.
pub open spec fn boot_ok(m: Machine, fuel: nat, n: nat) -> bool
    decreases n,
{
    n == 0 || (boot_ok(m, fuel, (n - 1) as nat) && read_str_spec(prelude_text(n - 1)) is Ok
        && status_of(boot_spec(m, fuel, n)) matches StatusModel::Done(Ok(_)))
}

impl Interp {
    /// A new interpreter, whose outermost environment has the index 0.
    pub fn new() -> (r: Self)
        ensures
            r@ == initial_machine(),
    {
        let mut root = Env::new(None);
        init_env(&mut root);
        root.set(String::from_str("eval"), Value::host_fn(HostFn::Eval(0)));
        root.set(String::from_str("readline"), Value::host_fn(HostFn::ReadLine));
        root.set(String::from_str("*host-language*"), Value::string("rust"));
        let empty: Vec<Value> = Vec::new();
        assert(view_seq(empty@) =~= Seq::<V>::empty());
        root.set(String::from_str("*ARGV*"), Value::list(empty));
        let mut heap = Heap::new();
        let ghost root_model = root@;
        let _ = heap.add_env(root);
        assert(heap@.envs =~= seq![root_model]);
        let r = Interp {
            heap,
            control: Control::Return(Value::Nil),
            stack: Vec::new(),
            pending: None,
        };
        assert(r@.stack =~= Seq::empty());
        r
    }

    /// Binds `*ARGV*` in the outermost environment to the list of the
    /// strings `args`.
    pub fn set_argv(&mut self, args: &Vec<String>)
        ensures
            final(self)@ == (Machine {
                heap: with_binding(
                    old(self)@.heap,
                    0,
                    "*ARGV*"@,
                    V::List(strings_as_values(args@), no_meta()),
                ),
                ..old(self)@
            }),
    {
        let mut list: Vec<Value> = Vec::new();
        let mut i: usize = 0;
        while i < args.len()
            invariant
                i <= args.len(),
                list.len() == i,
                forall|j: int| 0 <= j < i ==> (#[trigger] list[j])@ == V::Str(args[j]@),
            decreases args.len() - i,
        {
            list.push(Value::String(args[i].clone()));
            i += 1;
        }
        assert(view_seq(list@) =~= strings_as_values(args@));
        self.heap.bind(0, String::from_str("*ARGV*"), Value::list(list));
    }

    /// Evaluates the forms of the prelude in the outermost environment, each
    /// with at most `fuel` steps, and says whether each gave a value.
    pub fn boot(&mut self, fuel: u64) -> (ok: bool)
        ensures
            final(self)@ == boot_spec(old(self)@, fuel as nat, PRELUDE_FORMS as nat),
            ok == boot_ok(old(self)@, fuel as nat, PRELUDE_FORMS as nat),
    {
        let mut ok = true;
        let mut i: usize = 0;
        while i < PRELUDE_FORMS
            invariant
                i <= PRELUDE_FORMS,
                self@ == boot_spec(old(self)@, fuel as nat, i as nat),
                ok == boot_ok(old(self)@, fuel as nat, i as nat),
            decreases PRELUDE_FORMS - i,
        {
            match re(self, prelude_source(i), 0, fuel) {
                Ok(Some(Status::Done(Ok(_)))) => {},
                _ => {
                    ok = false;
                },
            }
            i += 1;
        }
        ok
    }
}

/// Reads the first form of `line` and evaluates it in the environment `env`
/// with at most `fuel` steps.
///
/// The result is the status after that, none for a line that holds no form,
/// and the parse error for a line that cannot be read; in the last two
/// cases the interpreter stays as it is.
pub fn re(interp: &mut Interp, line: &str, env: usize, fuel: u64) -> (r: Result<
    Option<Status>,
    ParseError,
>)
    ensures
        final(interp)@ == re_spec(old(interp)@, line@, env as nat, fuel as nat),
        match read_str_spec(line@) {
            Ok(_) => r matches Ok(Some(status)) && status@ == status_of(final(interp)@),
            Err(ParseErr::EmptyInput) => r matches Ok(None),
            Err(e) => r matches Err(pe) && pe@ == e,
        },
{
    match read(line) {
        Ok(ast) => Ok(Some(eval(interp, ast, env, fuel))),
        Err(ParseError::EmptyInput) => Ok(None),
        Err(e) => Err(e),
    }
}

/// Reads the first form of `input`.
pub fn read(input: &str) -> (r: Result<Value, ParseError>)
    ensures
        crate::reader::form_result_is(r, read_str_spec(input@)),
{
    read_str(input)
}

/// The line that shows a result: the source text of a value, or `ERROR: `
/// and the text of a thrown value.
pub open spec fn print_spec(value: Result<V, V>, atoms: Seq<V>) -> Seq<char> {
    match value {
        Ok(v) => pr_spec(v, atoms, true, atoms.len()),
        Err(e) => "ERROR: "@ + pr_spec(e, atoms, true, atoms.len()),
    }
}

/// The line that shows a result: as `Ok` for a value, which goes to the
/// standard output, and as `Err` for a thrown value, which goes to the
/// standard error.
pub fn print(value: &RuntimeResult<Value>, atoms: &Vec<Value>) -> (r: Result<String, String>)
    ensures
        match value {
            Ok(v) => r matches Ok(line) && line@ == print_spec(Ok(v@), view_seq(atoms@)),
            Err(e) => r matches Err(line) && line@ == print_spec(Err(e@), view_seq(atoms@)),
        },
{
    match value {
        Ok(v) => Ok(to_text(v, atoms, true)),
        Err(e) => {
            let mut line = String::from_str("ERROR: ");
            let text = to_text(e, atoms, true);
            line.append(text.as_str());
            Err(line)
        },
    }
}

/// Whether the tables `later` hold all that the tables `earlier` hold, at
/// the same places: every closure as it was, and every environment with the
/// outer environment that it had.
pub open spec fn extends(later: HeapModel, earlier: HeapModel) -> bool {
    &&& later.envs.len() >= earlier.envs.len()
    &&& later.atoms.len() >= earlier.atoms.len()
    &&& later.closures.len() >= earlier.closures.len()
    &&& forall|i: int|
        0 <= i < earlier.closures.len() ==> #[trigger] later.closures[i] == earlier.closures[i]
    &&& forall|i: int|
        0 <= i < earlier.envs.len() ==> (#[trigger] later.envs[i]).outer == earlier.envs[i].outer
}

/// Nothing leaves the tables: a step adds to them, binds names and gives
/// atoms new values, and never takes away an environment, an atom or a
/// closure. So a closure, once made, is what it is for good, and the
/// environment that it captured stays where it is.
pub proof fn lemma_step_keeps_tables(m: Machine)
    ensures
        extends(step_spec(m).heap, m.heap),
{
    if !halted(m) {
        match m.control {
            ControlModel::Eval(ast, env) => {
                lemma_eval_step_keeps_tables(m.heap, m.stack, ast, env);
            },
            ControlModel::Call(list) => {
                lemma_call_step_keeps_tables(m.heap, m.stack, list);
            },
            ControlModel::Return(v) => {
                lemma_continue_step_keeps_tables(m.heap, m.stack.drop_last(), m.stack.last(), v);
            },
            ControlModel::Throw(e) => {},
        }
    }
}

/// Nothing leaves the tables in the course of a run.
pub proof fn lemma_run_keeps_tables(m: Machine, fuel: nat)
    ensures
        extends(run_spec(m, fuel).heap, m.heap),
    decreases fuel,
{
    if fuel > 0 && !halted(m) {
        lemma_step_keeps_tables(m);
        lemma_run_keeps_tables(step_spec(m), (fuel - 1) as nat);
    }
}

proof fn lemma_enter_keeps_tables(heap: HeapModel, stack: Seq<FrameModel>, c: nat, args: Seq<V>)
    ensures
        extends(enter(heap, stack, c, args).heap, heap),
{
}

proof fn lemma_eval_step_keeps_tables(heap: HeapModel, stack: Seq<FrameModel>, ast: V, env: nat)
    ensures
        extends(eval_step(heap, stack, ast, env).heap, heap),
{
    match as_macro_call(heap, ast, env) {
        Some(c) => {
            lemma_enter_keeps_tables(
                heap,
                stack.push(frame(FrameKind::Expand, env, 0, V::Nil, Seq::empty(), Seq::empty())),
                c,
                ast->List_0.drop_first(),
            );
        },
        None => {
            match ast {
                V::List(items, _) => {
                    if items.len() > 0 {
                        match items[0] {
                            V::Symbol(name) => {
                                lemma_form_step_keeps_tables(heap, stack, name, items, env);
                            },
                            _ => {},
                        }
                    }
                },
                _ => {},
            }
        },
    }
}

proof fn lemma_macro_expand_keeps_tables(
    heap: HeapModel,
    stack: Seq<FrameModel>,
    form: V,
    env: nat,
)
    ensures
        extends(macro_expand(heap, stack, form, env).heap, heap),
{
    match as_macro_call(heap, form, env) {
        Some(c) => {
            lemma_enter_keeps_tables(
                heap,
                stack.push(
                    frame(FrameKind::ExpandOnly, env, 0, V::Nil, Seq::empty(), Seq::empty()),
                ),
                c,
                form->List_0.drop_first(),
            );
        },
        None => {},
    }
}

proof fn lemma_form_step_keeps_tables(
    heap: HeapModel,
    stack: Seq<FrameModel>,
    name: Seq<char>,
    items: Seq<V>,
    env: nat,
)
    ensures
        extends(form_step(heap, stack, name, items, env).heap, heap),
{
    if name == "macroexpand"@ && items.len() >= 2 {
        lemma_macro_expand_keeps_tables(heap, stack, items[1], env);
    }
}

proof fn lemma_continue_step_keeps_tables(
    heap: HeapModel,
    stack: Seq<FrameModel>,
    f: FrameModel,
    v: V,
)
    ensures
        extends(continue_step(heap, stack, f, v).heap, heap),
{
    if f.kind == FrameKind::ExpandOnly {
        lemma_macro_expand_keeps_tables(heap, stack, v, f.env);
    }
}

proof fn lemma_call_step_keeps_tables(heap: HeapModel, stack: Seq<FrameModel>, list: Seq<V>)
    ensures
        extends(call_step(heap, stack, list).heap, heap),
{
    if list.len() > 0 {
        match list[0] {
            V::Closure(c, _) => {
                lemma_enter_keeps_tables(heap, stack, c, list.drop_first());
            },
            _ => {},
        }
    }
}

/// Whether each environment that has an outer environment has one that
/// exists.
pub open spec fn chained(envs: Seq<EnvModel>) -> bool {
    forall|i: int|
        0 <= i < envs.len() ==> match (#[trigger] envs[i]).outer {
            Some(outer) => outer < envs.len(),
            None => true,
        }
}

/// A new environment does not change what is found from the environments
/// that were there before.
pub proof fn lemma_find_after_push(
    envs: Seq<EnvModel>,
    added: EnvModel,
    env: nat,
    name: Seq<char>,
    fuel: nat,
)
    requires
        chained(envs),
        env < envs.len(),
    ensures
        find_spec(envs.push(added), env, name, fuel) == find_spec(envs, env, name, fuel),
    decreases fuel,
{
    assert(envs.push(added)[env as int] == envs[env as int]);
    if !envs[env as int].data.contains_key(name) && fuel > 0 {
        match envs[env as int].outer {
            Some(outer) => {
                lemma_find_after_push(envs, added, outer, name, (fuel - 1) as nat);
            },
            None => {},
        }
    }
}

/// A closure sees what it captured: in the body of a closure, a name that
/// is none of its parameters has the value that it has in the environment
/// in which the closure was made, whatever the environment of the call,
/// and whatever has been evaluated since the closure was made.
pub proof fn lemma_closure_capture(
    heap: HeapModel,
    stack: Seq<FrameModel>,
    c: nat,
    args: Seq<V>,
    name: Seq<char>,
    v: V,
)
    requires
        chained(heap.envs),
        c < heap.closures.len(),
        heap.closures[c as int].env < heap.envs.len(),
        new_with_binds_spec(
            Some(heap.closures[c as int].env),
            heap.closures[c as int].params,
            args,
            heap.atoms,
        ) matches Ok(bound) && !bound.data.contains_key(name),
        get_spec(heap.envs, heap.closures[c as int].env, name) == Ok::<V, V>(v),
    ensures
        enter(heap, stack, c, args).control == ControlModel::Eval(
            heap.closures[c as int].ast,
            heap.envs.len(),
        ),
        get_spec(enter(heap, stack, c, args).heap.envs, heap.envs.len(), name) == Ok::<V, V>(v),
{
    let closure = heap.closures[c as int];
    let bound = new_with_binds_spec(Some(closure.env), closure.params, args, heap.atoms)->Ok_0;
    let envs = heap.envs.push(bound);
    assert(bound.outer == Some(closure.env));
    assert(envs[heap.envs.len() as int] == bound);
    lemma_find_after_push(heap.envs, bound, closure.env, name, heap.envs.len());
    let found = find_spec(heap.envs, closure.env, name, heap.envs.len())->Some_0;
    lemma_find_in_range(heap.envs, closure.env, name, heap.envs.len());
    assert(envs[found as int] == heap.envs[found as int]);
}

/// What is found lies in the table.
pub proof fn lemma_find_in_range(envs: Seq<EnvModel>, env: nat, name: Seq<char>, fuel: nat)
    ensures
        find_spec(envs, env, name, fuel) matches Some(found) ==> found < envs.len()
            && envs[found as int].data.contains_key(name),
    decreases fuel,
{
    if env < envs.len() && !envs[env as int].data.contains_key(name) && fuel > 0 {
        match envs[env as int].outer {
            Some(outer) => {
                lemma_find_in_range(envs, outer, name, (fuel - 1) as nat);
            },
            None => {},
        }
    }
}

/// The operands of a macro call are not evaluated: the body of the macro
/// runs with its parameters bound to the operands as they stand in the
/// call, and the value `expansion` that it gives, with the tables `later`
/// of that moment, is evaluated in the place of the call.
pub proof fn lemma_macro_operands_are_not_evaluated(
    heap: HeapModel,
    stack: Seq<FrameModel>,
    ast: V,
    env: nat,
    later: HeapModel,
    expansion: V,
)
    requires
        as_macro_call(heap, ast, env) is Some,
    ensures
        ast is List,
        eval_step(heap, stack, ast, env) == enter(
            heap,
            stack.push(frame(FrameKind::Expand, env, 0, V::Nil, Seq::empty(), Seq::empty())),
            as_macro_call(heap, ast, env)->Some_0,
            ast->List_0.drop_first(),
        ),
        continue_step(
            later,
            stack,
            frame(FrameKind::Expand, env, 0, V::Nil, Seq::empty(), Seq::empty()),
            expansion,
        ) == goto(later, stack, expansion, env),
{
}

/// A macro is no function: the call of a closure that is a macro throws,
/// whatever its arguments. Only the expansion of a macro call runs it.
pub proof fn lemma_macro_is_not_called(heap: HeapModel, stack: Seq<FrameModel>, list: Seq<V>)
    requires
        list.len() > 0,
        list[0] is Closure,
        list[0]->Closure_0 < heap.closures.len(),
        heap.closures[list[0]->Closure_0 as int].is_macro,
    ensures
        call_step(heap, stack, list) == thrw(
            heap,
            stack,
            thrown_not_a("function"@, list[0], heap.atoms),
        ),
{
}

/// A tail call uses no stack: the call of a closure leaves the pending work
/// as it is, whatever the closure and its arguments.
pub proof fn lemma_closure_call_keeps_stack(heap: HeapModel, stack: Seq<FrameModel>, list: Seq<V>)
    requires
        list.len() > 0,
        list[0] is Closure,
    ensures
        call_step(heap, stack, list).stack == stack,
{
}

/// Forms in tail position use no stack: the branch of an `if`, the last form
/// of a `do`, the body of a `let*` after its last binding, and the expansion
/// of a macro are evaluated with the pending work that was there before
/// the form itself.
pub proof fn lemma_tail_position_keeps_stack(
    heap: HeapModel,
    stack: Seq<FrameModel>,
    f: FrameModel,
    v: V,
)
    requires
        f.kind == FrameKind::If || f.kind == FrameKind::Expand || (f.kind == FrameKind::Do
            && f.next + 2 == f.items.len()) || (f.kind == FrameKind::Let && f.next + 2
            == f.items.len()),
    ensures
        continue_step(heap, stack, f, v).stack == stack,
{
}

/// The handler of a `try*` is in tail position too: a thrown value leaves
/// no frame behind.
pub proof fn lemma_unwinding_keeps_stack(
    heap: HeapModel,
    stack: Seq<FrameModel>,
    f: FrameModel,
    e: V,
)
    ensures
        unwind_step(heap, stack, f, e).stack == stack,
{
}

} // verus!
