//! The quasiquote rewrite: from a template to the form that builds it.

use vstd::prelude::*;
use crate::runtime_errors::{missing_argument, thrown, RuntimeErr, RuntimeResult};
use crate::text::str_eq;
use crate::value::{group_view, no_meta, result_is, view_seq, V, Value};

verus! {

broadcast use group_view;

/// Whether `v` is a list that begins with the symbol `name`.
pub open spec fn is_tagged(v: V, name: Seq<char>) -> bool {
    v matches V::List(l, _) && l.len() > 0 && l[0] == V::Symbol(name)
}

/// The list `(name a b)`.
pub open spec fn form3(name: Seq<char>, a: V, b: V) -> V {
    V::List(seq![V::Symbol(name), a, b], no_meta())
}

/// The list `(name a)`.
pub open spec fn form2(name: Seq<char>, a: V) -> V {
    V::List(seq![V::Symbol(name), a], no_meta())
}

/// The form that builds the list of the items of `l` from position `i` on:
/// `(concat x rest)` for an item `(splice-unquote x)`, and
/// `(cons q rest)` for any other item, where `q` is its own rewrite and
/// `rest` builds what follows.
pub open spec fn qq_from(l: Seq<V>, i: nat) -> Result<V, V>
    decreases l, l.len() - i,
{
    if i >= l.len() {
        Ok(V::List(Seq::empty(), no_meta()))
    } else {
        match qq_from(l, i + 1) {
            Err(e) => Err(e),
            Ok(rest) => if is_tagged(l[i as int], "splice-unquote"@) {
                let x = l[i as int]->List_0;
                if x.len() < 2 {
                    Err(thrown(RuntimeErr::MissingArgument("splice-unquote"@)))
                } else {
                    Ok(form3("concat"@, x[1], rest))
                }
            } else {
                match quasiquote_spec(l[i as int]) {
                    Ok(q) => Ok(form3("cons"@, q, rest)),
                    Err(e) => Err(e),
                }
            },
        }
    }
}

/// The rewrite of a template: what `(unquote x)` holds for such a list, the
/// form that builds the list for any other list, `(vec ...)` of that form
/// for a vector, `(quote v)` for a map or a symbol, and any other value as
/// it is.
pub open spec fn quasiquote_spec(ast: V) -> Result<V, V>
    decreases ast, 0nat,
{
    match ast {
        V::List(l, _) => if l.len() > 0 && l[0] == V::Symbol("unquote"@) {
            if l.len() < 2 {
                Err(thrown(RuntimeErr::MissingArgument("unquote"@)))
            } else {
                Ok(l[1])
            }
        } else {
            qq_from(l, 0)
        },
        V::Vector(l, _) => match qq_from(l, 0) {
            Ok(r) => Ok(form2("vec"@, r)),
            Err(e) => Err(e),
        },
        V::Table(_, _) => Ok(form2("quote"@, ast)),
        V::Symbol(_) => Ok(form2("quote"@, ast)),
        _ => Ok(ast),
    }
}

/// An error in the rewrite of the items from `i` on is the error of the
/// rewrite of the items from any earlier position on.
pub proof fn lemma_qq_error(l: Seq<V>, i: nat, j: nat)
    requires
        j <= i <= l.len(),
        qq_from(l, i) is Err,
    ensures
        qq_from(l, j) == qq_from(l, i),
    decreases i - j,
{
    if j < i {
        lemma_qq_error(l, i, j + 1);
    }
}

fn starts_with_symbol(v: &Value, name: &str) -> (r: bool)
    ensures
        r == is_tagged(v@, name@),
{
    match v {
        Value::List(l, _) => {
            assert(view_seq(l@).len() == l.len());
            if l.len() > 0 {
                match &l[0] {
                    Value::Symbol(s) => str_eq(s.as_str(), name),
                    _ => false,
                }
            } else {
                false
            }
        },
        _ => false,
    }
}

fn make_form3(name: &str, a: Value, b: Value) -> (r: Value)
    ensures
        r@ == form3(name@, a@, b@),
{
    let items = vec![Value::symbol(name), a, b];
    assert(view_seq(items@) =~= seq![V::Symbol(name@), a@, b@]);
    Value::list(items)
}

fn make_form2(name: &str, a: Value) -> (r: Value)
    ensures
        r@ == form2(name@, a@),
{
    let items = vec![Value::symbol(name), a];
    assert(view_seq(items@) =~= seq![V::Symbol(name@), a@]);
    Value::list(items)
}

/// Rewrites the items of a template list, from the last to the first.
pub fn process_list(list: &Vec<Value>) -> (r: RuntimeResult<Value>)
    ensures
        result_is(r, qq_from(view_seq(list@), 0)),
    decreases list, 1nat,
{
    let empty: Vec<Value> = Vec::new();
    assert(view_seq(empty@) =~= Seq::<V>::empty());
    let mut result = Value::list(empty);
    let mut i: usize = list.len();
    while i > 0
        invariant
            i <= list.len(),
            qq_from(view_seq(list@), i as nat) == Ok::<V, V>(result@),
        decreases i,
    {
        i -= 1;
        assert(view_seq(list@)[i as int] == list[i as int]@);
        if starts_with_symbol(&list[i], "splice-unquote") {
            let x = match &list[i] {
                Value::List(x, _) => x,
                _ => {
                    return Ok(result);
                },
            };
            assert(view_seq(x@).len() == x.len());
            if x.len() < 2 {
                proof {
                    lemma_qq_error(view_seq(list@), i as nat, 0);
                }
                return Err(missing_argument("splice-unquote"));
            }
            result = make_form3("concat", x[1].clone(), result);
        } else {
            match quasiquote(&list[i]) {
                Ok(q) => {
                    result = make_form3("cons", q, result);
                },
                Err(e) => {
                    proof {
                        lemma_qq_error(view_seq(list@), i as nat, 0);
                    }
                    return Err(e);
                },
            }
        }
    }
    Ok(result)
}

/// Rewrites a template into the form that builds it.
pub fn quasiquote(ast: &Value) -> (r: RuntimeResult<Value>)
    ensures
        result_is(r, quasiquote_spec(ast@)),
    decreases ast, 0nat,
{
    match ast {
        Value::List(l, _) => {
            assert(view_seq(l@).len() == l.len());
            if starts_with_symbol(ast, "unquote") {
                if l.len() < 2 {
                    Err(missing_argument("unquote"))
                } else {
                    Ok(l[1].clone())
                }
            } else {
                process_list(l)
            }
        },
        Value::Vec(l, _) => match process_list(l) {
            Ok(r) => Ok(make_form2("vec", r)),
            Err(e) => Err(e),
        },
        Value::HashMap(_, _) => Ok(make_form2("quote", ast.clone())),
        Value::Symbol(_) => Ok(make_form2("quote", ast.clone())),
        other => Ok(other.clone()),
    }
}

} // verus!
