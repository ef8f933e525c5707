//! Equality and order of values.

use core::cmp::Ordering;
use vstd::prelude::*;
use vstd::std_specs::cmp::{PartialEqSpecImpl, PartialOrdSpecImpl};
use crate::runtime_errors::{not_a, thrown_not_a, RuntimeResult};
use crate::text::str_eq;
use crate::value::{entries_get, result_is, view_seq, HostFn, MalMap, V, Value};

verus! {

broadcast use crate::value::group_view;

/// Whether two host callables count as equal: the same primitive, two
/// evaluators whatever their environments, or two `apply` markers.
pub open spec fn host_fn_equal(a: HostFn, b: HostFn) -> bool {
    match (a, b) {
        (HostFn::ByPtr(x), HostFn::ByPtr(y)) => x.0 == y.0,
        (HostFn::Eval(_), HostFn::Eval(_)) => true,
        (HostFn::Apply, HostFn::Apply) => true,
        _ => false,
    }
}

/// Whether the first `n` items of `x` equal those of `y`, one by one.
pub open spec fn seq_equal(x: Seq<V>, y: Seq<V>, n: nat) -> bool
    decreases x, n,
{
    if n == 0 {
        true
    } else if n > x.len() || n > y.len() {
        false
    } else {
        seq_equal(x, y, (n - 1) as nat) && equal_spec(x[n - 1], y[n - 1])
    }
}

/// Whether each of the first `n` entries of `x` has its key in `y`, with an
/// equal value.
pub open spec fn entries_within(x: Seq<(Seq<char>, V)>, y: Seq<(Seq<char>, V)>, n: nat) -> bool
    decreases x, n,
{
    if n == 0 {
        true
    } else if n > x.len() {
        false
    } else {
        entries_within(x, y, (n - 1) as nat) && match entries_get(y, x[n - 1].0) {
            Some(w) => equal_spec(x[n - 1].1, w),
            None => false,
        }
    }
}

/// Equality of values, as the language's `=` sees it.
///
/// Lists and vectors are equal when they have equal items in the same
/// order, whichever of the two each is. Maps are equal when they have as
/// many entries and each key of one has an equal value in the other.
/// Closures and atoms are equal only to themselves. Metadata is not looked
/// at.
pub open spec fn equal_spec(a: V, b: V) -> bool
    decreases a, 0nat,
{
    match a {
        V::List(x, _) | V::Vector(x, _) => match b {
            V::List(y, _) | V::Vector(y, _) => x.len() == y.len() && seq_equal(x, y, x.len()),
            _ => false,
        },
        V::Table(x, _) => match b {
            V::Table(y, _) => x.len() == y.len() && entries_within(x, y, x.len()),
            _ => false,
        },
        V::Symbol(x) => b == V::Symbol(x),
        V::Keyword(x) => b == V::Keyword(x),
        V::Str(x) => b == V::Str(x),
        V::HostFn(f, _) => match b {
            V::HostFn(g, _) => host_fn_equal(f, g),
            _ => false,
        },
        V::Closure(c, _) => match b {
            V::Closure(d, _) => c == d,
            _ => false,
        },
        V::Number(x) => b == V::Number(x),
        V::Nil => b is Nil,
        V::Bool(x) => b == V::Bool(x),
        V::Atom(x) => b == V::Atom(x),
    }
}

/// The order of two values: that of their numbers, where both are numbers.
pub open spec fn compare_spec(a: V, b: V) -> Option<Ordering> {
    match (a, b) {
        (V::Number(x), V::Number(y)) => if x < y {
            Some(Ordering::Less)
        } else if x == y {
            Some(Ordering::Equal)
        } else {
            Some(Ordering::Greater)
        },
        _ => None,
    }
}

impl PartialEq for HostFn {
    fn eq(&self, other: &Self) -> (r: bool) {
        match (self, other) {
            (HostFn::ByPtr(a), HostFn::ByPtr(b)) => a.0 == b.0,
            (HostFn::Eval(_), HostFn::Eval(_)) => true,
            (HostFn::Apply, HostFn::Apply) => true,
            _ => false,
        }
    }
}

impl PartialEqSpecImpl for HostFn {
    open spec fn obeys_eq_spec() -> bool {
        true
    }

    open spec fn eq_spec(&self, other: &Self) -> bool {
        host_fn_equal(*self, *other)
    }
}

fn values_equal(a: &Vec<Value>, b: &Vec<Value>) -> (r: bool)
    ensures
        r == (a.len() == b.len() && seq_equal(view_seq(a@), view_seq(b@), a.len() as nat)),
    decreases a, 1nat,
{
    if a.len() != b.len() {
        return false;
    }
    let mut i: usize = 0;
    while i < a.len()
        invariant
            i <= a.len(),
            a.len() == b.len(),
            seq_equal(view_seq(a@), view_seq(b@), i as nat),
        decreases a.len() - i,
    {
        if !equals(&a[i], &b[i]) {
            proof {
                if seq_equal(view_seq(a@), view_seq(b@), a.len() as nat) {
                    lemma_seq_equal_prefix(
                        view_seq(a@),
                        view_seq(b@),
                        (i + 1) as nat,
                        a.len() as nat,
                    );
                }
            }
            return false;
        }
        i += 1;
    }
    true
}

/// Where the first `n` items are equal one by one, so are the first `k` of
/// them.
pub proof fn lemma_seq_equal_prefix(x: Seq<V>, y: Seq<V>, k: nat, n: nat)
    requires
        k <= n,
        seq_equal(x, y, n),
    ensures
        seq_equal(x, y, k),
    decreases n,
{
    if k < n {
        lemma_seq_equal_prefix(x, y, k, (n - 1) as nat);
    }
}

/// Where each of the first `n` entries is found in `y`, so is each of the
/// first `k` of them.
pub proof fn lemma_entries_within_prefix(
    x: Seq<(Seq<char>, V)>,
    y: Seq<(Seq<char>, V)>,
    k: nat,
    n: nat,
)
    requires
        k <= n,
        entries_within(x, y, n),
    ensures
        entries_within(x, y, k),
    decreases n,
{
    if k < n {
        lemma_entries_within_prefix(x, y, k, (n - 1) as nat);
    }
}

fn maps_equal(a: &MalMap, b: &MalMap) -> (r: bool)
    ensures
        r == (a@.len() == b@.len() && entries_within(a@, b@, a@.len())),
    decreases a, 1nat,
{
    if a.len() != b.len() {
        return false;
    }
    let mut i: usize = 0;
    while i < a.entries.len()
        invariant
            i <= a.entries.len(),
            a@.len() == a.entries.len(),
            a@.len() == b@.len(),
            entries_within(a@, b@, i as nat),
        decreases a.entries.len() - i,
    {
        let found = match b.get(a.entries[i].0.as_str()) {
            Some(w) => equals(&a.entries[i].1, w),
            None => false,
        };
        if !found {
            proof {
                if entries_within(a@, b@, a@.len()) {
                    lemma_entries_within_prefix(a@, b@, (i + 1) as nat, a@.len());
                }
            }
            return false;
        }
        i += 1;
    }
    true
}

/// Whether two values are equal, as the language's `=` sees it.
pub fn equals(a: &Value, b: &Value) -> (r: bool)
    ensures
        r == equal_spec(a@, b@),
    decreases a, 0nat,
{
    match a {
        Value::List(x, _) => match b {
            Value::List(y, _) => {
                assert(view_seq(x@).len() == x.len() && view_seq(y@).len() == y.len());
                values_equal(x, y)
            },
            Value::Vec(y, _) => {
                assert(view_seq(x@).len() == x.len() && view_seq(y@).len() == y.len());
                values_equal(x, y)
            },
            _ => false,
        },
        Value::Vec(x, _) => match b {
            Value::List(y, _) => {
                assert(view_seq(x@).len() == x.len() && view_seq(y@).len() == y.len());
                values_equal(x, y)
            },
            Value::Vec(y, _) => {
                assert(view_seq(x@).len() == x.len() && view_seq(y@).len() == y.len());
                values_equal(x, y)
            },
            _ => false,
        },
        Value::HashMap(x, _) => match b {
            Value::HashMap(y, _) => maps_equal(x, y),
            _ => false,
        },
        Value::Symbol(x) => match b {
            Value::Symbol(y) => str_eq(x.as_str(), y.as_str()),
            _ => false,
        },
        Value::Keyword(x) => match b {
            Value::Keyword(y) => str_eq(x.as_str(), y.as_str()),
            _ => false,
        },
        Value::String(x) => match b {
            Value::String(y) => str_eq(x.as_str(), y.as_str()),
            _ => false,
        },
        Value::HostFn(f, _) => match b {
            Value::HostFn(g, _) => f == g,
            _ => false,
        },
        Value::Closure(c, _) => match b {
            Value::Closure(d, _) => *c == *d,
            _ => false,
        },
        Value::Number(x) => match b {
            Value::Number(y) => *x == *y,
            _ => false,
        },
        Value::Nil => match b {
            Value::Nil => true,
            _ => false,
        },
        Value::Bool(x) => match b {
            Value::Bool(y) => *x == *y,
            _ => false,
        },
        Value::Atom(x) => match b {
            Value::Atom(y) => *x == *y,
            _ => false,
        },
    }
}

impl PartialEq for Value {
    fn eq(&self, other: &Self) -> (r: bool) {
        equals(self, other)
    }
}

impl PartialEqSpecImpl for Value {
    open spec fn obeys_eq_spec() -> bool {
        true
    }

    open spec fn eq_spec(&self, other: &Self) -> bool {
        equal_spec(self@, other@)
    }
}

impl Eq for Value {

}

impl PartialOrd for Value {
    fn partial_cmp(&self, other: &Self) -> (r: Option<Ordering>) {
        match (self, other) {
            (Value::Number(a), Value::Number(b)) => if *a < *b {
                Some(Ordering::Less)
            } else if *a == *b {
                Some(Ordering::Equal)
            } else {
                Some(Ordering::Greater)
            },
            _ => None,
        }
    }
}

impl PartialOrdSpecImpl for Value {
    open spec fn obeys_partial_cmp_spec() -> bool {
        true
    }

    open spec fn partial_cmp_spec(&self, other: &Self) -> Option<Ordering> {
        compare_spec(self@, other@)
    }
}

/// The four order relations.
#[derive(Clone, Copy, Debug, PartialEq, Eq, Structural)]
pub enum Relation {
    Less,
    Greater,
    LessEq,
    GreaterEq,
}

/// Whether a relation holds of two things in the given order.
pub open spec fn relation_holds(rel: Relation, o: Ordering) -> bool {
    match rel {
        Relation::Less => o == Ordering::Less,
        Relation::Greater => o == Ordering::Greater,
        Relation::LessEq => o == Ordering::Less || o == Ordering::Equal,
        Relation::GreaterEq => o == Ordering::Greater || o == Ordering::Equal,
    }
}

/// Whether a relation holds of two values: an answer for two numbers, else
/// the error that names the first of them that is no number.
pub open spec fn relation_spec(rel: Relation, x: V, y: V, atoms: Seq<V>) -> Result<V, V> {
    match compare_spec(x, y) {
        Some(o) => Ok(V::Bool(relation_holds(rel, o))),
        None => if x is Number {
            Err(thrown_not_a("number"@, y, atoms))
        } else {
            Err(thrown_not_a("number"@, x, atoms))
        },
    }
}

/// Whether a relation holds of two values.
pub fn compare_values(rel: Relation, x: &Value, y: &Value, atoms: &Vec<Value>) -> (r:
    RuntimeResult<Value>)
    ensures
        result_is(r, relation_spec(rel, x@, y@, view_seq(atoms@))),
{
    match x.partial_cmp(y) {
        Some(o) => {
            let holds = match rel {
                Relation::Less => match o {
                    Ordering::Less => true,
                    _ => false,
                },
                Relation::Greater => match o {
                    Ordering::Greater => true,
                    _ => false,
                },
                Relation::LessEq => match o {
                    Ordering::Greater => false,
                    _ => true,
                },
                Relation::GreaterEq => match o {
                    Ordering::Less => false,
                    _ => true,
                },
            };
            Ok(Value::Bool(holds))
        },
        None => match x {
            Value::Number(_) => Err(not_a("number", y, atoms)),
            _ => Err(not_a("number", x, atoms)),
        },
    }
}

/// A list and a vector with the same items are equal, whatever their
/// metadata, as soon as each item is equal to itself.
pub proof fn lemma_list_equals_vector(items: Seq<V>, list_meta: Box<V>, vector_meta: Box<V>)
    requires
        forall|i: int| 0 <= i < items.len() ==> equal_spec(#[trigger] items[i], items[i]),
    ensures
        equal_spec(V::List(items, list_meta), V::Vector(items, vector_meta)),
        equal_spec(V::Vector(items, vector_meta), V::List(items, list_meta)),
{
    lemma_seq_equal_same(items, items.len());
}

/// A sequence is equal to itself item by item, as soon as each item is equal
/// to itself.
pub proof fn lemma_seq_equal_same(items: Seq<V>, n: nat)
    requires
        n <= items.len(),
        forall|i: int| 0 <= i < items.len() ==> equal_spec(#[trigger] items[i], items[i]),
    ensures
        seq_equal(items, items, n),
    decreases n,
{
    if n > 0 {
        lemma_seq_equal_same(items, (n - 1) as nat);
    }
}

} // verus!
