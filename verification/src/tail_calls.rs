//! Tail calls run in constant space: a function that calls itself in tail
//! position counts down from any number without the pending work growing.

use vstd::prelude::*;
use crate::env::{bind_spec, find_spec, get_spec, new_with_binds_spec, EnvModel};
use crate::eval::{
    as_macro_call, builtin_step, halted, initial_machine, root_bindings, run_spec, status_of,
    step_spec, StatusModel,
};
use crate::machine::{
    call, frame, goto, ret, with_binding, with_closure, with_env, ControlModel, FrameKind,
    FrameModel, HeapModel, Machine,
};
use crate::mal_core::{all_builtins, builtin_name, builtin_value, install, pure_spec};
use crate::printer::KEYWORD_PREFIX;
use crate::value::{
    arith_spec, deref_chain, no_meta, ArithOp, Builtin, ClosureModel, HostFn, MalFnPtr, V,
};

verus! {

/// The largest number of frames that the stack of a machine holds in the
/// course of at most `fuel` steps.
pub open spec fn max_stack(m: Machine, fuel: nat) -> nat
    decreases fuel,
{
    if fuel == 0 || halted(m) {
        m.stack.len()
    } else {
        let rest = max_stack(step_spec(m), (fuel - 1) as nat);
        if rest > m.stack.len() {
            rest
        } else {
            m.stack.len()
        }
    }
}

/// Steps add up: `a + b` steps are `a` steps and then `b` steps.
pub proof fn lemma_run_add(m: Machine, a: nat, b: nat)
    ensures
        run_spec(m, a + b) == run_spec(run_spec(m, a), b),
        max_stack(m, a + b) == if max_stack(m, a) > max_stack(run_spec(m, a), b) {
            max_stack(m, a)
        } else {
            max_stack(run_spec(m, a), b)
        },
    decreases a,
{
    if a == 0 {
    } else if halted(m) {
        lemma_run_halted(m, b);
        lemma_run_halted(m, a + b);
    } else {
        lemma_run_add(step_spec(m), (a - 1) as nat, b);
        assert(run_spec(m, a + b) == run_spec(step_spec(m), (a + b - 1) as nat));
        lemma_max_stack_lower(step_spec(m), (a - 1) as nat);
        lemma_max_stack_lower(run_spec(m, a), b);
    }
}

/// A machine that has halted stays as it is.
pub proof fn lemma_run_halted(m: Machine, fuel: nat)
    requires
        halted(m),
    ensures
        run_spec(m, fuel) == m,
        max_stack(m, fuel) == m.stack.len(),
{
}

/// The largest stack of a run is at least the stack at its start.
pub proof fn lemma_max_stack_lower(m: Machine, fuel: nat)
    ensures
        max_stack(m, fuel) >= m.stack.len(),
{
}

/// One step of a machine that has not halted.
pub proof fn lemma_run_one(m: Machine)
    requires
        !halted(m),
    ensures
        run_spec(m, 1) == step_spec(m),
        max_stack(m, 1) == if step_spec(m).stack.len() > m.stack.len() {
            step_spec(m).stack.len()
        } else {
            m.stack.len()
        },
{
    assert(run_spec(step_spec(m), 0) == step_spec(m));
    assert(max_stack(step_spec(m), 0) == step_spec(m).stack.len());
}

/// One step, and the rest of a run after it.
pub proof fn lemma_step(m: Machine, next: Machine, fuel: nat)
    requires
        !halted(m),
        step_spec(m) == next,
    ensures
        run_spec(m, fuel + 1) == run_spec(next, fuel),
        max_stack(m, fuel + 1) == if max_stack(next, fuel) > m.stack.len() {
            max_stack(next, fuel)
        } else {
            m.stack.len()
        },
{
}

/// Whether a name is that of a special form.
pub open spec fn is_special(name: Seq<char>) -> bool {
    name == "def!"@ || name == "defmacro!"@ || name == "let*"@ || name == "do"@ || name == "if"@
        || name == "fn*"@ || name == "quote"@ || name == "quasiquoteexpand"@ || name
        == "quasiquote"@ || name == "macroexpand"@ || name == "try*"@
}

/// The symbol with the name `name`.
pub open spec fn sym(name: Seq<char>) -> V {
    V::Symbol(name)
}

/// The list of `items`, without metadata.
pub open spec fn lst(items: Seq<V>) -> V {
    V::List(items, no_meta())
}

/// The value of a form that is evaluated in one step: of a symbol that is
/// bound, or of a number.
pub open spec fn simple_value(h: HeapModel, env: nat, form: V) -> Option<V> {
    match form {
        V::Symbol(name) => match get_spec(h.envs, env, name) {
            Ok(v) => Some(v),
            Err(_) => None,
        },
        V::Number(_) => Some(form),
        _ => None,
    }
}

/// A bound symbol or a number gives its value in one step.
pub proof fn lemma_eval_simple(h: HeapModel, st: Seq<FrameModel>, form: V, env: nat, v: V)
    requires
        simple_value(h, env, form) == Some(v),
    ensures
        !halted(goto(h, st, form, env)),
        step_spec(goto(h, st, form, env)) == ret(h, st, v),
{
}

/// The call of a primitive function of two arguments, each a bound symbol or
/// a number, takes eight steps and one frame.
pub proof fn lemma_call_builtin2(
    h: HeapModel,
    st: Seq<FrameModel>,
    op: Seq<char>,
    a: V,
    b: V,
    env: nat,
    f: V,
    va: V,
    vb: V,
)
    requires
        !is_special(op),
        get_spec(h.envs, env, op) == Ok::<V, V>(f),
        f is HostFn,
        f->HostFn_0 is ByPtr,
        simple_value(h, env, a) == Some(va),
        simple_value(h, env, b) == Some(vb),
    ensures
        run_spec(goto(h, st, lst(seq![sym(op), a, b]), env), 8) == builtin_step(
            h,
            st,
            f->HostFn_0->ByPtr_0.0,
            seq![va, vb],
        ),
        max_stack(goto(h, st, lst(seq![sym(op), a, b]), env), 8) <= st.len() + 1,
{
    let items = seq![sym(op), a, b];
    let form = lst(items);
    let none = Seq::<V>::empty();
    let st0 = st.push(frame(FrameKind::Call, env, 0, V::Nil, items, none));
    let st1 = st.push(frame(FrameKind::Call, env, 1, V::Nil, items, seq![f]));
    let st2 = st.push(frame(FrameKind::Call, env, 2, V::Nil, items, seq![f, va]));
    let m0 = goto(h, st, form, env);
    let m1 = goto(h, st0, sym(op), env);
    let m2 = ret(h, st0, f);
    let m3 = goto(h, st1, a, env);
    let m4 = ret(h, st1, va);
    let m5 = goto(h, st2, b, env);
    let m6 = ret(h, st2, vb);
    let m7 = call(h, st, seq![f, va, vb]);
    let m8 = builtin_step(h, st, f->HostFn_0->ByPtr_0.0, seq![va, vb]);
    assert(as_macro_call(h, form, env) is None);
    assert(step_spec(m0) == m1);
    lemma_eval_simple(h, st0, sym(op), env, f);
    assert(st0.drop_last() =~= st);
    assert(none.push(f) =~= seq![f]);
    assert(step_spec(m2) == m3);
    lemma_eval_simple(h, st1, a, env, va);
    assert(st1.drop_last() =~= st);
    assert(seq![f].push(va) =~= seq![f, va]);
    assert(step_spec(m4) == m5);
    lemma_eval_simple(h, st2, b, env, vb);
    assert(st2.drop_last() =~= st);
    assert(seq![f, va].push(vb) =~= seq![f, va, vb]);
    assert(step_spec(m6) == m7);
    assert(seq![f, va, vb].drop_first() =~= seq![va, vb]);
    assert(step_spec(m7) == m8);
    lemma_step(m7, m8, 0);
    lemma_step(m6, m7, 1);
    lemma_step(m5, m6, 2);
    lemma_step(m4, m5, 3);
    lemma_step(m3, m4, 4);
    lemma_step(m2, m3, 5);
    lemma_step(m1, m2, 6);
    lemma_step(m0, m1, 7);
}

/// The keyword `:done`.
pub open spec fn done_keyword() -> V {
    V::Keyword(seq![KEYWORD_PREFIX, ':'] + "done"@)
}

/// The form `(= n 0)`.
pub open spec fn test_form() -> V {
    lst(seq![sym("="@), sym("n"@), V::Number(0)])
}

/// The form `(- n 1)`.
pub open spec fn minus_form() -> V {
    lst(seq![sym("-"@), sym("n"@), V::Number(1)])
}

/// The form `(f (- n 1))`.
pub open spec fn recur_form() -> V {
    lst(seq![sym("f"@), minus_form()])
}

/// The form `(if (= n 0) :done (f (- n 1)))`.
pub open spec fn countdown_body() -> V {
    lst(seq![sym("if"@), test_form(), done_keyword(), recur_form()])
}

/// The closure that `(fn* (n) (if (= n 0) :done (f (- n 1))))` gives in the
/// outermost environment.
pub open spec fn countdown() -> ClosureModel {
    ClosureModel { ast: countdown_body(), params: seq![sym("n"@)], env: 0, is_macro: false }
}

/// Whether `f` is defined as the countdown function: the outermost
/// environment, which has no outer environment, binds `f` to the closure
/// `c`, which is the countdown closure, binds `=` and `-` to the primitive
/// functions of those names, and does not bind `if`.
pub open spec fn defines_countdown(h: HeapModel, c: nat) -> bool {
    &&& h.envs.len() > 0
    &&& c < h.closures.len()
    &&& h.closures[c as int] == countdown()
    &&& h.envs[0].data.contains_key("f"@)
    &&& h.envs[0].data["f"@] is Closure
    &&& h.envs[0].data["f"@]->Closure_0 == c
    &&& h.envs[0].data.contains_key("="@)
    &&& h.envs[0].data["="@] is HostFn
    &&& h.envs[0].data["="@]->HostFn_0 == HostFn::ByPtr(MalFnPtr(Builtin::Equal))
    &&& h.envs[0].data.contains_key("-"@)
    &&& h.envs[0].data["-"@] is HostFn
    &&& h.envs[0].data["-"@]->HostFn_0 == HostFn::ByPtr(MalFnPtr(Builtin::Sub))
    &&& !h.envs[0].data.contains_key("if"@)
    &&& h.envs[0].outer is None
}

/// The environment of one call of the countdown function: it binds `n`, and
/// its outer environment is the outermost one.
pub open spec fn call_env(k: int) -> EnvModel {
    EnvModel { data: Map::empty().insert("n"@, V::Number(k)), outer: Some(0nat) }
}

/// Whether the environment `env` is that of a call of the countdown
/// function with the argument `k`.
pub open spec fn counting(h: HeapModel, env: nat, k: int) -> bool {
    0 < env < h.envs.len() && h.envs[env as int] == call_env(k)
}

/// The names of the countdown function are those of no special form, and
/// differ from one another.
pub proof fn lemma_names()
    ensures
        !is_special("f"@),
        !is_special("="@),
        !is_special("-"@),
        "n"@ != "f"@,
        "n"@ != "="@,
        "n"@ != "-"@,
        "n"@ != "if"@,
        "n"@ != "&"@,
        "if"@ != "def!"@,
        "if"@ != "defmacro!"@,
        "if"@ != "let*"@,
        "if"@ != "do"@,
{
    reveal_strlit("f");
    reveal_strlit("=");
    reveal_strlit("-");
    reveal_strlit("n");
    reveal_strlit("&");
    reveal_strlit("if");
    reveal_strlit("def!");
    reveal_strlit("defmacro!");
    reveal_strlit("let*");
    reveal_strlit("do");
    reveal_strlit("fn*");
    reveal_strlit("quote");
    reveal_strlit("quasiquoteexpand");
    reveal_strlit("quasiquote");
    reveal_strlit("macroexpand");
    reveal_strlit("try*");
    assert("f"@.len() == 1 && "="@.len() == 1 && "-"@.len() == 1 && "n"@.len() == 1);
    assert("f"@[0] == 'f' && "="@[0] == '=' && "-"@[0] == '-' && "n"@[0] == 'n' && "&"@[0] == '&');
    assert("if"@.len() == 2 && "do"@.len() == 2 && "if"@[0] == 'i' && "do"@[0] == 'd');
    assert("def!"@.len() == 4 && "defmacro!"@.len() == 9 && "let*"@.len() == 4);
    assert("fn*"@.len() == 3 && "quote"@.len() == 5 && "quasiquoteexpand"@.len() == 16);
    assert("quasiquote"@.len() == 10 && "macroexpand"@.len() == 11 && "try*"@.len() == 4);
}

/// What the names of the countdown function stand for in the environment of
/// one of its calls.
pub proof fn lemma_lookups(h: HeapModel, c: nat, env: nat, k: int)
    requires
        defines_countdown(h, c),
        counting(h, env, k) || env == 0,
    ensures
        counting(h, env, k) ==> get_spec(h.envs, env, "n"@) == Ok::<V, V>(V::Number(k)),
        get_spec(h.envs, env, "f"@) == Ok::<V, V>(h.envs[0].data["f"@]),
        get_spec(h.envs, env, "="@) == Ok::<V, V>(h.envs[0].data["="@]),
        get_spec(h.envs, env, "-"@) == Ok::<V, V>(h.envs[0].data["-"@]),
        counting(h, env, k) ==> get_spec(h.envs, env, "if"@) is Err,
{
    lemma_names();
    reveal_with_fuel(find_spec, 3);
    if env != 0 {
        let data = h.envs[env as int].data;
        assert(data.contains_key("n"@));
        assert(!data.contains_key("f"@));
        assert(!data.contains_key("="@));
        assert(!data.contains_key("-"@));
        assert(!data.contains_key("if"@));
        assert(find_spec(h.envs, env, "f"@, h.envs.len()) == Some(0nat));
        assert(find_spec(h.envs, env, "="@, h.envs.len()) == Some(0nat));
        assert(find_spec(h.envs, env, "-"@, h.envs.len()) == Some(0nat));
        assert(find_spec(h.envs, env, "n"@, h.envs.len()) == Some(env));
        assert(find_spec(h.envs, env, "if"@, h.envs.len()) is None);
    }
}

/// The test `(= n 0)` gives in eight steps whether `n` is 0.
pub proof fn lemma_test(h: HeapModel, st: Seq<FrameModel>, c: nat, env: nat, k: int)
    requires
        defines_countdown(h, c),
        counting(h, env, k),
    ensures
        run_spec(goto(h, st, test_form(), env), 8) == ret(h, st, V::Bool(k == 0)),
        max_stack(goto(h, st, test_form(), env), 8) <= st.len() + 1,
{
    lemma_names();
    lemma_lookups(h, c, env, k);
    let f = h.envs[0].data["="@];
    lemma_call_builtin2(
        h,
        st,
        "="@,
        sym("n"@),
        V::Number(0),
        env,
        f,
        V::Number(k),
        V::Number(0),
    );
    let args = seq![V::Number(k), V::Number(0)];
    assert(pure_spec(Builtin::Equal, args, h.atoms, h.closures) == Ok::<V, V>(V::Bool(k == 0)));
    assert((HeapModel { atoms: h.atoms, ..h }) == h);
}

/// The form `(- n 1)` gives in eight steps the number before `n`.
pub proof fn lemma_minus(h: HeapModel, st: Seq<FrameModel>, c: nat, env: nat, k: int)
    requires
        defines_countdown(h, c),
        counting(h, env, k),
        0 < k <= i32::MAX,
    ensures
        run_spec(goto(h, st, minus_form(), env), 8) == ret(h, st, V::Number(k - 1)),
        max_stack(goto(h, st, minus_form(), env), 8) <= st.len() + 1,
{
    lemma_names();
    lemma_lookups(h, c, env, k);
    let f = h.envs[0].data["-"@];
    lemma_call_builtin2(
        h,
        st,
        "-"@,
        sym("n"@),
        V::Number(1),
        env,
        f,
        V::Number(k),
        V::Number(1),
    );
    let args = seq![V::Number(k), V::Number(1)];
    assert(deref_chain(V::Number(k), h.atoms, h.atoms.len()) == Some(V::Number(k)));
    assert(deref_chain(V::Number(1), h.atoms, h.atoms.len()) == Some(V::Number(1)));
    assert(arith_spec(ArithOp::Sub, V::Number(k), V::Number(1), h.atoms) == Ok::<V, V>(
        V::Number(k - 1),
    ));
    assert(pure_spec(Builtin::Sub, args, h.atoms, h.closures) == Ok::<V, V>(V::Number(k - 1)));
    assert((HeapModel { atoms: h.atoms, ..h }) == h);
}

/// The body of the countdown function, with `n` bound to `k`, comes in ten
/// steps to the branch that the test chooses, with the stack that it
/// started with.
pub proof fn lemma_branch(h: HeapModel, st: Seq<FrameModel>, c: nat, env: nat, k: int)
    requires
        defines_countdown(h, c),
        counting(h, env, k),
    ensures
        run_spec(goto(h, st, countdown_body(), env), 10) == goto(
            h,
            st,
            if k == 0 {
                done_keyword()
            } else {
                recur_form()
            },
            env,
        ),
        max_stack(goto(h, st, countdown_body(), env), 10) <= st.len() + 2,
{
    lemma_names();
    lemma_lookups(h, c, env, k);
    let body = countdown_body();
    let items = seq![sym("if"@), test_form(), done_keyword(), recur_form()];
    let st1 = st.push(frame(FrameKind::If, env, 0, V::Nil, items, Seq::empty()));
    let m0 = goto(h, st, body, env);
    let m1 = goto(h, st1, test_form(), env);
    let m9 = ret(h, st1, V::Bool(k == 0));
    let m10 = goto(
        h,
        st,
        if k == 0 {
            done_keyword()
        } else {
            recur_form()
        },
        env,
    );
    assert(as_macro_call(h, body, env) is None);
    assert(step_spec(m0) == m1);
    lemma_test(h, st1, c, env, k);
    assert(st1.drop_last() =~= st);
    assert(step_spec(m9) == m10);
    lemma_step(m9, m10, 0);
    lemma_run_add(m1, 8, 1);
    lemma_step(m0, m1, 9);
}

/// With `n` bound to 0, the body of the countdown function gives `:done` in
/// eleven steps.
pub proof fn lemma_last(h: HeapModel, st: Seq<FrameModel>, c: nat, env: nat)
    requires
        defines_countdown(h, c),
        counting(h, env, 0),
    ensures
        run_spec(goto(h, st, countdown_body(), env), 11) == ret(h, st, done_keyword()),
        max_stack(goto(h, st, countdown_body(), env), 11) <= st.len() + 2,
{
    lemma_branch(h, st, c, env, 0);
    let m0 = goto(h, st, countdown_body(), env);
    let m10 = goto(h, st, done_keyword(), env);
    let m11 = ret(h, st, done_keyword());
    assert(step_spec(m10) == m11);
    lemma_step(m10, m11, 0);
    lemma_run_add(m0, 10, 1);
}

/// With `n` bound to a number `k` above 0, the body of the countdown
/// function comes in 23 steps to the same body with `n` bound to `k - 1`
/// in a new environment, with the stack that it started with.
pub proof fn lemma_round(h: HeapModel, st: Seq<FrameModel>, c: nat, env: nat, k: int)
    requires
        defines_countdown(h, c),
        counting(h, env, k),
        0 < k <= i32::MAX,
    ensures
        run_spec(goto(h, st, countdown_body(), env), 23) == goto(
            with_env(h, call_env(k - 1)),
            st,
            countdown_body(),
            h.envs.len(),
        ),
        max_stack(goto(h, st, countdown_body(), env), 23) <= st.len() + 2,
{
    lemma_names();
    lemma_lookups(h, c, env, k);
    lemma_branch(h, st, c, env, k);
    let f = h.envs[0].data["f"@];
    let items = seq![sym("f"@), minus_form()];
    let none = Seq::<V>::empty();
    let st0 = st.push(frame(FrameKind::Call, env, 0, V::Nil, items, none));
    let st1 = st.push(frame(FrameKind::Call, env, 1, V::Nil, items, seq![f]));
    let start = goto(h, st, countdown_body(), env);
    let m10 = goto(h, st, recur_form(), env);
    let m11 = goto(h, st0, sym("f"@), env);
    let m12 = ret(h, st0, f);
    let m13 = goto(h, st1, minus_form(), env);
    let m21 = ret(h, st1, V::Number(k - 1));
    let m22 = call(h, st, seq![f, V::Number(k - 1)]);
    let m23 = goto(with_env(h, call_env(k - 1)), st, countdown_body(), h.envs.len());
    assert(as_macro_call(h, recur_form(), env) is None);
    assert(step_spec(m10) == m11);
    lemma_eval_simple(h, st0, sym("f"@), env, f);
    assert(st0.drop_last() =~= st);
    assert(none.push(f) =~= seq![f]);
    assert(step_spec(m12) == m13);
    lemma_minus(h, st1, c, env, k);
    assert(st1.drop_last() =~= st);
    assert(seq![f].push(V::Number(k - 1)) =~= seq![f, V::Number(k - 1)]);
    assert(step_spec(m21) == m22);
    // the call binds `n` in a new environment
    let args = seq![f, V::Number(k - 1)].drop_first();
    assert(args =~= seq![V::Number(k - 1)]);
    reveal_with_fuel(bind_spec, 3);
    assert(bind_spec(seq![sym("n"@)], args, 0, Map::empty(), h.atoms) == Ok::<
        Map<Seq<char>, V>,
        V,
    >(Map::empty().insert("n"@, V::Number(k - 1))));
    assert(new_with_binds_spec(Some(0nat), seq![sym("n"@)], args, h.atoms) == Ok::<EnvModel, V>(
        call_env(k - 1),
    ));
    assert(step_spec(m22) == m23);
    lemma_step(m22, m23, 0);
    lemma_step(m21, m22, 1);
    lemma_run_add(m13, 8, 2);
    lemma_step(m12, m13, 10);
    lemma_step(m11, m12, 11);
    lemma_step(m10, m11, 12);
    lemma_run_add(start, 10, 13);
}

/// The countdown function runs in constant space: with `n` bound to any
/// number `k` that is not negative, its body gives `:done` after some
/// number of steps, and the pending work never grows by more than two
/// frames on the way.
pub proof fn lemma_countdown(h: HeapModel, st: Seq<FrameModel>, c: nat, env: nat, k: int) -> (fuel:
    nat)
    requires
        defines_countdown(h, c),
        counting(h, env, k),
        0 <= k <= i32::MAX,
    ensures
        run_spec(goto(h, st, countdown_body(), env), fuel).control == ControlModel::Return(
            done_keyword(),
        ),
        run_spec(goto(h, st, countdown_body(), env), fuel).stack == st,
        run_spec(goto(h, st, countdown_body(), env), fuel).pending is None,
        max_stack(goto(h, st, countdown_body(), env), fuel) <= st.len() + 2,
    decreases k,
{
    if k == 0 {
        lemma_last(h, st, c, env);
        11
    } else {
        lemma_round(h, st, c, env, k);
        let h2 = with_env(h, call_env(k - 1));
        let rest = lemma_countdown(h2, st, c, h.envs.len(), k - 1);
        lemma_run_add(goto(h, st, countdown_body(), env), 23, rest);
        23 + rest
    }
}

/// The call `(f n)`.
pub open spec fn countdown_call(n: int) -> V {
    lst(seq![sym("f"@), V::Number(n)])
}

/// Tail calls are bounded: where `f` is defined as
/// `(fn* (n) (if (= n 0) :done (f (- n 1))))`, the call `(f n)` gives
/// `:done` for every number `n` that is not negative, and the stack of
/// pending work never holds more than two frames on the way, however large
/// `n` is.
pub proof fn lemma_tail_recursion_is_bounded(h: HeapModel, c: nat, n: int) -> (fuel: nat)
    requires
        defines_countdown(h, c),
        0 <= n <= i32::MAX,
    ensures
        status_of(run_spec(goto(h, Seq::empty(), countdown_call(n), 0), fuel))
            == StatusModel::Done(Ok(done_keyword())),
        max_stack(goto(h, Seq::empty(), countdown_call(n), 0), fuel) <= 2,
{
    lemma_names();
    lemma_lookups(h, c, 0, 0);
    let st = Seq::<FrameModel>::empty();
    let f = h.envs[0].data["f"@];
    let items = seq![sym("f"@), V::Number(n)];
    let none = Seq::<V>::empty();
    let st0 = st.push(frame(FrameKind::Call, 0, 0, V::Nil, items, none));
    let st1 = st.push(frame(FrameKind::Call, 0, 1, V::Nil, items, seq![f]));
    let h2 = with_env(h, call_env(n));
    let m0 = goto(h, st, countdown_call(n), 0);
    let m1 = goto(h, st0, sym("f"@), 0);
    let m2 = ret(h, st0, f);
    let m3 = goto(h, st1, V::Number(n), 0);
    let m4 = ret(h, st1, V::Number(n));
    let m5 = call(h, st, seq![f, V::Number(n)]);
    let m6 = goto(h2, st, countdown_body(), h.envs.len());
    assert(as_macro_call(h, countdown_call(n), 0) is None);
    assert(step_spec(m0) == m1);
    lemma_eval_simple(h, st0, sym("f"@), 0, f);
    assert(st0.drop_last() =~= st);
    assert(none.push(f) =~= seq![f]);
    assert(step_spec(m2) == m3);
    lemma_eval_simple(h, st1, V::Number(n), 0, V::Number(n));
    assert(st1.drop_last() =~= st);
    assert(seq![f].push(V::Number(n)) =~= seq![f, V::Number(n)]);
    assert(step_spec(m4) == m5);
    let args = seq![f, V::Number(n)].drop_first();
    assert(args =~= seq![V::Number(n)]);
    reveal_with_fuel(bind_spec, 3);
    assert(bind_spec(seq![sym("n"@)], args, 0, Map::empty(), h.atoms) == Ok::<
        Map<Seq<char>, V>,
        V,
    >(Map::empty().insert("n"@, V::Number(n))));
    assert(step_spec(m5) == m6);
    let rest = lemma_countdown(h2, st, c, h.envs.len(), n);
    lemma_step(m5, m6, rest);
    lemma_step(m4, m5, rest + 1);
    lemma_step(m3, m4, rest + 2);
    lemma_step(m2, m3, rest + 3);
    lemma_step(m1, m2, rest + 4);
    lemma_step(m0, m1, rest + 5);
    rest + 6
}

/// The form `(fn* (n) (if (= n 0) :done (f (- n 1))))`.
pub open spec fn countdown_fn_form() -> V {
    lst(seq![sym("fn*"@), lst(seq![sym("n"@)]), countdown_body()])
}

/// The form `(def! f (fn* (n) (if (= n 0) :done (f (- n 1)))))`.
pub open spec fn countdown_def_form() -> V {
    lst(seq![sym("def!"@), sym("f"@), countdown_fn_form()])
}

/// Whether the outermost environment is ready for the definition of the
/// countdown function: it has no outer environment, binds `=` and `-` to
/// the primitive functions of those names, and binds none of `if`, `def!`
/// and `fn*`.
pub open spec fn ready_for_countdown(h: HeapModel) -> bool {
    &&& h.envs.len() > 0
    &&& h.envs[0].outer is None
    &&& h.envs[0].data.contains_key("="@)
    &&& h.envs[0].data["="@] is HostFn
    &&& h.envs[0].data["="@]->HostFn_0 == HostFn::ByPtr(MalFnPtr(Builtin::Equal))
    &&& h.envs[0].data.contains_key("-"@)
    &&& h.envs[0].data["-"@] is HostFn
    &&& h.envs[0].data["-"@]->HostFn_0 == HostFn::ByPtr(MalFnPtr(Builtin::Sub))
    &&& !h.envs[0].data.contains_key("if"@)
    &&& !h.envs[0].data.contains_key("def!"@)
    &&& !h.envs[0].data.contains_key("fn*"@)
}

/// The definition `(def! f (fn* (n) (if (= n 0) :done (f (- n 1)))))`
/// takes three steps, and defines `f` as the countdown function.
pub proof fn lemma_define_countdown(h: HeapModel)
    requires
        ready_for_countdown(h),
    ensures
        run_spec(goto(h, Seq::empty(), countdown_def_form(), 0), 3).control is Return,
        run_spec(goto(h, Seq::empty(), countdown_def_form(), 0), 3).stack.len() == 0,
        run_spec(goto(h, Seq::empty(), countdown_def_form(), 0), 3).pending is None,
        defines_countdown(
            run_spec(goto(h, Seq::empty(), countdown_def_form(), 0), 3).heap,
            h.closures.len(),
        ),
{
    lemma_names();
    reveal_strlit("def!");
    reveal_strlit("defmacro!");
    reveal_strlit("let*");
    reveal_strlit("do");
    reveal_strlit("if");
    reveal_strlit("fn*");
    reveal_strlit("f");
    reveal_strlit("=");
    reveal_strlit("-");
    assert("fn*"@.len() == 3 && "def!"@.len() == 4 && "defmacro!"@.len() == 9 && "let*"@.len()
        == 4 && "do"@.len() == 2 && "if"@.len() == 2 && "f"@.len() == 1 && "="@.len() == 1
        && "-"@.len() == 1);
    assert("f"@[0] == 'f' && "="@[0] == '=' && "-"@[0] == '-');
    reveal_with_fuel(find_spec, 2);
    let st = Seq::<FrameModel>::empty();
    let c = h.closures.len();
    let made = V::Closure(c, no_meta());
    let st0 = st.push(frame(FrameKind::Def, 0, 0, sym("f"@), Seq::empty(), Seq::empty()));
    let h1 = with_closure(h, countdown());
    let h2 = with_binding(h1, 0, "f"@, made);
    let m0 = goto(h, st, countdown_def_form(), 0);
    let m1 = goto(h, st0, countdown_fn_form(), 0);
    let m2 = ret(h1, st0, made);
    let m3 = ret(h2, st, made);
    assert(get_spec(h.envs, 0, "def!"@) is Err);
    assert(get_spec(h.envs, 0, "fn*"@) is Err);
    assert(as_macro_call(h, countdown_def_form(), 0) is None);
    assert(step_spec(m0) == m1);
    assert(as_macro_call(h, countdown_fn_form(), 0) is None);
    assert(step_spec(m1) == m2);
    assert(st0.drop_last() =~= st);
    assert(step_spec(m2) == m3);
    lemma_step(m2, m3, 0);
    lemma_step(m1, m2, 1);
    lemma_step(m0, m1, 2);
}

/// The primitive functions that are bound to one-character names: no other
/// has a name of one character.
pub open spec fn has_short_name(b: Builtin) -> bool {
    b == Builtin::Add || b == Builtin::Sub || b == Builtin::Mul || b == Builtin::Div || b
        == Builtin::Equal || b == Builtin::Less || b == Builtin::Greater
}

/// The names of the primitive functions: only `=` is bound to `=`, only `-`
/// to `-`, and none is bound to the name of a special form.
pub proof fn lemma_builtin_names(b: Builtin)
    ensures
        builtin_name(b) == "="@ ==> b == Builtin::Equal,
        builtin_name(b) == "-"@ ==> b == Builtin::Sub,
        !is_special(builtin_name(b)),
{
    reveal_strlit("+");
    reveal_strlit("-");
    reveal_strlit("*");
    reveal_strlit("/");
    reveal_strlit("pr-str");
    reveal_strlit("str");
    reveal_strlit("prn");
    reveal_strlit("println");
    reveal_strlit("list");
    reveal_strlit("list?");
    reveal_strlit("empty?");
    reveal_strlit("count");
    reveal_strlit("=");
    reveal_strlit("<");
    reveal_strlit(">");
    reveal_strlit("<=");
    reveal_strlit(">=");
    reveal_strlit("read-string");
    reveal_strlit("slurp");
    reveal_strlit("atom");
    reveal_strlit("atom?");
    reveal_strlit("deref");
    reveal_strlit("reset!");
    reveal_strlit("swap!");
    reveal_strlit("cons");
    reveal_strlit("concat");
    reveal_strlit("vec");
    reveal_strlit("nth");
    reveal_strlit("first");
    reveal_strlit("rest");
    reveal_strlit("throw");
    reveal_strlit("map");
    reveal_strlit("nil?");
    reveal_strlit("true?");
    reveal_strlit("false?");
    reveal_strlit("symbol?");
    reveal_strlit("symbol");
    reveal_strlit("keyword");
    reveal_strlit("keyword?");
    reveal_strlit("vector");
    reveal_strlit("vector?");
    reveal_strlit("sequential?");
    reveal_strlit("hash-map");
    reveal_strlit("map?");
    reveal_strlit("assoc");
    reveal_strlit("dissoc");
    reveal_strlit("get");
    reveal_strlit("contains?");
    reveal_strlit("keys");
    reveal_strlit("vals");
    reveal_strlit("time-ms");
    reveal_strlit("meta");
    reveal_strlit("with-meta");
    reveal_strlit("fn?");
    reveal_strlit("string?");
    reveal_strlit("number?");
    reveal_strlit("macro?");
    reveal_strlit("seq");
    reveal_strlit("conj");
    reveal_strlit("if");
    reveal_strlit("do");
    reveal_strlit("def!");
    reveal_strlit("defmacro!");
    reveal_strlit("let*");
    reveal_strlit("fn*");
    reveal_strlit("quote");
    reveal_strlit("quasiquoteexpand");
    reveal_strlit("quasiquote");
    reveal_strlit("macroexpand");
    reveal_strlit("try*");
    let name = builtin_name(b);
    assert("if"@.len() == 2 && "do"@.len() == 2 && "def!"@.len() == 4 && "let*"@.len() == 4
        && "fn*"@.len() == 3 && "try*"@.len() == 4 && "quote"@.len() == 5 && "defmacro!"@.len()
        == 9 && "quasiquote"@.len() == 10 && "macroexpand"@.len() == 11
        && "quasiquoteexpand"@.len() == 16);
    assert("if"@[0] == 'i' && "do"@[0] == 'd' && "def!"@[3] == '!' && "let*"@[3] == '*'
        && "fn*"@[2] == '*' && "try*"@[3] == '*' && "quote"@[0] == 'q' && "defmacro!"@[8] == '!'
        && "quasiquote"@[0] == 'q' && "macroexpand"@[4] == 'o' && "quasiquoteexpand"@[0] == 'q');
    assert("="@.len() == 1 && "-"@.len() == 1 && "="@[0] == '=' && "-"@[0] == '-');
    if has_short_name(b) {
        assert(name.len() == 1);
    } else {
        assert(name.len() > 1);
        assert(name[0] != 'q' && name[0] != 'i');
    }
}

/// A name that no primitive function has is bound after the primitive
/// functions are bound only if it was bound before.
pub proof fn lemma_install_absent(data: Map<Seq<char>, V>, n: nat, name: Seq<char>)
    requires
        !data.contains_key(name),
        forall|b: Builtin| builtin_name(b) != name,
    ensures
        !install(data, n).contains_key(name),
    decreases n,
{
    if n > 0 && n <= all_builtins().len() {
        lemma_install_absent(data, (n - 1) as nat, name);
    }
}

/// A primitive function that alone has its name is bound to that name after
/// the primitive functions are bound.
pub proof fn lemma_install_present(data: Map<Seq<char>, V>, n: nat, i: int, b: Builtin)
    requires
        0 <= i < n <= all_builtins().len(),
        all_builtins()[i] == b,
        forall|other: Builtin| builtin_name(other) == builtin_name(b) ==> other == b,
    ensures
        install(data, n).contains_key(builtin_name(b)),
        install(data, n)[builtin_name(b)] == builtin_value(b),
    decreases n,
{
    if i < n - 1 {
        lemma_install_present(data, (n - 1) as nat, i, b);
    }
}

/// A new interpreter is ready for the definition of the countdown function.
pub proof fn lemma_new_interpreter_is_ready()
    ensures
        ready_for_countdown(initial_machine().heap),
{
    let none = Map::<Seq<char>, V>::empty();
    let n = all_builtins().len();
    assert forall|b: Builtin|
        (builtin_name(b) == "="@ ==> b == Builtin::Equal) && (builtin_name(b) == "-"@ ==> b
            == Builtin::Sub) && !is_special(builtin_name(b)) by {
        lemma_builtin_names(b);
    }
    reveal_strlit("=");
    reveal_strlit("-");
    reveal_strlit("if");
    reveal_strlit("def!");
    reveal_strlit("fn*");
    reveal_strlit("apply");
    reveal_strlit("eval");
    reveal_strlit("readline");
    reveal_strlit("*host-language*");
    reveal_strlit("*ARGV*");
    assert("="@.len() == 1 && "-"@.len() == 1 && "if"@.len() == 2 && "def!"@.len() == 4
        && "fn*"@.len() == 3 && "apply"@.len() == 5 && "eval"@.len() == 4 && "readline"@.len()
        == 8 && "*host-language*"@.len() == 15 && "*ARGV*"@.len() == 6);
    assert("def!"@[0] == 'd' && "eval"@[0] == 'e');
    assert(all_builtins()[12] == Builtin::Equal);
    assert(all_builtins()[1] == Builtin::Sub);
    assert(builtin_name(Builtin::Equal) == "="@);
    assert(builtin_name(Builtin::Sub) == "-"@);
    lemma_install_present(none, n, 12, Builtin::Equal);
    lemma_install_present(none, n, 1, Builtin::Sub);
    lemma_install_absent(none, n, "if"@);
    lemma_install_absent(none, n, "def!"@);
    lemma_install_absent(none, n, "fn*"@);
}

/// Tail calls are bounded in a new interpreter: after the definition
/// `(def! f (fn* (n) (if (= n 0) :done (f (- n 1)))))`, the call `(f n)`
/// gives `:done` for every number `n` that is not negative, and the stack
/// of pending work never holds more than two frames on the way.
pub proof fn lemma_countdown_in_new_interpreter(n: int) -> (fuel: nat)
    requires
        0 <= n <= i32::MAX,
    ensures
        ({
            let defined = run_spec(
                goto(initial_machine().heap, Seq::empty(), countdown_def_form(), 0),
                3,
            );
            let start = goto(defined.heap, Seq::empty(), countdown_call(n), 0);
            &&& status_of(defined) matches StatusModel::Done(Ok(_))
            &&& status_of(run_spec(start, fuel)) == StatusModel::Done(Ok(done_keyword()))
            &&& max_stack(start, fuel) <= 2
        }),
{
    let h = initial_machine().heap;
    lemma_new_interpreter_is_ready();
    lemma_define_countdown(h);
    let defined = run_spec(goto(h, Seq::empty(), countdown_def_form(), 0), 3);
    assert(defined.stack =~= Seq::empty());
    lemma_tail_recursion_is_bounded(defined.heap, h.closures.len(), n)
}

} // verus!
