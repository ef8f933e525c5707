//! The built-in functions of the language.

use vstd::prelude::*;
use vstd::string::StringExecFns;
use crate::compare::{compare_values, equal_spec, equals, relation_spec, Relation};
use crate::env::{Env, EnvModel};
use crate::printer::{is_keyword_name, pr_concat, pr_seq, text_concat, text_joined, KEYWORD_PREFIX};
use crate::reader::{read_str, read_str_spec, ParseErr, ParseError};
use crate::runtime_errors::{
    missing_argument, not_a, out_of_bounds, thrown, thrown_not_a, RuntimeErr, RuntimeError,
    RuntimeResult,
};
use crate::text::chars_of;
use crate::value::{
    arith_spec, clone_values, entries_get, entries_insert, entries_remove, group_view, has_key,
    hash_map_key, no_meta, result_is, seq_items, view_seq, ArithOp, Builtin, Closure, ClosureModel,
    HostFn, MalFnPtr, MalMap, V, Value,
};

verus! {

broadcast use group_view;

/// The name under which a primitive function is bound.
pub open spec fn builtin_name(b: Builtin) -> Seq<char> {
    match b {
        Builtin::Add => "+"@,
        Builtin::Sub => "-"@,
        Builtin::Mul => "*"@,
        Builtin::Div => "/"@,
        Builtin::PrStr => "pr-str"@,
        Builtin::Str => "str"@,
        Builtin::Prn => "prn"@,
        Builtin::Println => "println"@,
        Builtin::List => "list"@,
        Builtin::IsList => "list?"@,
        Builtin::IsEmpty => "empty?"@,
        Builtin::Count => "count"@,
        Builtin::Equal => "="@,
        Builtin::Less => "<"@,
        Builtin::Greater => ">"@,
        Builtin::LessEq => "<="@,
        Builtin::GreaterEq => ">="@,
        Builtin::ReadString => "read-string"@,
        Builtin::Slurp => "slurp"@,
        Builtin::Atom => "atom"@,
        Builtin::IsAtom => "atom?"@,
        Builtin::Deref => "deref"@,
        Builtin::Reset => "reset!"@,
        Builtin::Swap => "swap!"@,
        Builtin::Cons => "cons"@,
        Builtin::Concat => "concat"@,
        Builtin::VecOf => "vec"@,
        Builtin::Nth => "nth"@,
        Builtin::First => "first"@,
        Builtin::Rest => "rest"@,
        Builtin::Throw => "throw"@,
        Builtin::MapOver => "map"@,
        Builtin::IsNil => "nil?"@,
        Builtin::IsTrue => "true?"@,
        Builtin::IsFalse => "false?"@,
        Builtin::IsSymbol => "symbol?"@,
        Builtin::Symbol => "symbol"@,
        Builtin::Keyword => "keyword"@,
        Builtin::IsKeyword => "keyword?"@,
        Builtin::Vector => "vector"@,
        Builtin::IsVector => "vector?"@,
        Builtin::IsSequential => "sequential?"@,
        Builtin::MakeHashMap => "hash-map"@,
        Builtin::IsHashMap => "map?"@,
        Builtin::Assoc => "assoc"@,
        Builtin::Dissoc => "dissoc"@,
        Builtin::Get => "get"@,
        Builtin::Contains => "contains?"@,
        Builtin::Keys => "keys"@,
        Builtin::Vals => "vals"@,
        Builtin::TimeMs => "time-ms"@,
        Builtin::Meta => "meta"@,
        Builtin::WithMeta => "with-meta"@,
        Builtin::IsFn => "fn?"@,
        Builtin::IsString => "string?"@,
        Builtin::IsNumber => "number?"@,
        Builtin::IsMacro => "macro?"@,
        Builtin::SeqOf => "seq"@,
        Builtin::Conj => "conj"@,
    }
}

impl Builtin {
    /// The name under which this primitive function is bound.
    pub fn name(self) -> (r: &'static str)
        ensures
            r@ == builtin_name(self),
    {
        match self {
            Builtin::Add => "+",
            Builtin::Sub => "-",
            Builtin::Mul => "*",
            Builtin::Div => "/",
            Builtin::PrStr => "pr-str",
            Builtin::Str => "str",
            Builtin::Prn => "prn",
            Builtin::Println => "println",
            Builtin::List => "list",
            Builtin::IsList => "list?",
            Builtin::IsEmpty => "empty?",
            Builtin::Count => "count",
            Builtin::Equal => "=",
            Builtin::Less => "<",
            Builtin::Greater => ">",
            Builtin::LessEq => "<=",
            Builtin::GreaterEq => ">=",
            Builtin::ReadString => "read-string",
            Builtin::Slurp => "slurp",
            Builtin::Atom => "atom",
            Builtin::IsAtom => "atom?",
            Builtin::Deref => "deref",
            Builtin::Reset => "reset!",
            Builtin::Swap => "swap!",
            Builtin::Cons => "cons",
            Builtin::Concat => "concat",
            Builtin::VecOf => "vec",
            Builtin::Nth => "nth",
            Builtin::First => "first",
            Builtin::Rest => "rest",
            Builtin::Throw => "throw",
            Builtin::MapOver => "map",
            Builtin::IsNil => "nil?",
            Builtin::IsTrue => "true?",
            Builtin::IsFalse => "false?",
            Builtin::IsSymbol => "symbol?",
            Builtin::Symbol => "symbol",
            Builtin::Keyword => "keyword",
            Builtin::IsKeyword => "keyword?",
            Builtin::Vector => "vector",
            Builtin::IsVector => "vector?",
            Builtin::IsSequential => "sequential?",
            Builtin::MakeHashMap => "hash-map",
            Builtin::IsHashMap => "map?",
            Builtin::Assoc => "assoc",
            Builtin::Dissoc => "dissoc",
            Builtin::Get => "get",
            Builtin::Contains => "contains?",
            Builtin::Keys => "keys",
            Builtin::Vals => "vals",
            Builtin::TimeMs => "time-ms",
            Builtin::Meta => "meta",
            Builtin::WithMeta => "with-meta",
            Builtin::IsFn => "fn?",
            Builtin::IsString => "string?",
            Builtin::IsNumber => "number?",
            Builtin::IsMacro => "macro?",
            Builtin::SeqOf => "seq",
            Builtin::Conj => "conj",
        }
    }
}

/// The error of a primitive function that lacks an argument.
pub open spec fn missing(b: Builtin) -> Result<V, V> {
    Err(thrown(RuntimeErr::MissingArgument(builtin_name(b))))
}

/// What a test of the kind of a value answers, for the primitive functions
/// that are such tests.
pub open spec fn type_test_spec(b: Builtin, v: V, closures: Seq<ClosureModel>) -> Option<bool> {
    match b {
        Builtin::IsList => Some(v is List),
        Builtin::IsAtom => Some(v is Atom),
        Builtin::IsNil => Some(v is Nil),
        Builtin::IsTrue => Some(v == V::Bool(true)),
        Builtin::IsFalse => Some(v == V::Bool(false)),
        Builtin::IsSymbol => Some(v is Symbol),
        Builtin::IsKeyword => Some(v is Keyword),
        Builtin::IsVector => Some(v is Vector),
        Builtin::IsSequential => Some(v is Vector || v is List),
        Builtin::IsHashMap => Some(v is Table),
        Builtin::IsString => Some(v is Str),
        Builtin::IsNumber => Some(v is Number),
        Builtin::IsFn => Some(
            match v {
                V::HostFn(_, _) => true,
                V::Closure(c, _) => c < closures.len() && !closures[c as int].is_macro,
                _ => false,
            },
        ),
        Builtin::IsMacro => Some(
            match v {
                V::Closure(c, _) => c < closures.len() && closures[c as int].is_macro,
                _ => false,
            },
        ),
        _ => None,
    }
}

/// The models of the closures of a table.
pub open spec fn view_closures(closures: Seq<Closure>) -> Seq<ClosureModel> {
    Seq::new(closures.len(), |i: int| closures[i]@)
}

/// Answers a test of the kind of a value.
pub fn type_test(b: Builtin, v: &Value, closures: &Vec<Closure>) -> (r: Option<bool>)
    ensures
        r == type_test_spec(b, v@, view_closures(closures@)),
{
    match b {
        Builtin::IsList => Some(
            match v {
                Value::List(_, _) => true,
                _ => false,
            },
        ),
        Builtin::IsAtom => Some(
            match v {
                Value::Atom(_) => true,
                _ => false,
            },
        ),
        Builtin::IsNil => Some(
            match v {
                Value::Nil => true,
                _ => false,
            },
        ),
        Builtin::IsTrue => Some(
            match v {
                Value::Bool(x) => *x,
                _ => false,
            },
        ),
        Builtin::IsFalse => Some(
            match v {
                Value::Bool(x) => !*x,
                _ => false,
            },
        ),
        Builtin::IsSymbol => Some(
            match v {
                Value::Symbol(_) => true,
                _ => false,
            },
        ),
        Builtin::IsKeyword => Some(
            match v {
                Value::Keyword(_) => true,
                _ => false,
            },
        ),
        Builtin::IsVector => Some(
            match v {
                Value::Vec(_, _) => true,
                _ => false,
            },
        ),
        Builtin::IsSequential => Some(
            match v {
                Value::Vec(_, _) => true,
                Value::List(_, _) => true,
                _ => false,
            },
        ),
        Builtin::IsHashMap => Some(
            match v {
                Value::HashMap(_, _) => true,
                _ => false,
            },
        ),
        Builtin::IsString => Some(
            match v {
                Value::String(_) => true,
                _ => false,
            },
        ),
        Builtin::IsNumber => Some(
            match v {
                Value::Number(_) => true,
                _ => false,
            },
        ),
        Builtin::IsFn => Some(
            match v {
                Value::HostFn(_, _) => true,
                Value::Closure(c, _) => *c < closures.len() && !closures[*c].is_macro,
                _ => false,
            },
        ),
        Builtin::IsMacro => Some(
            match v {
                Value::Closure(c, _) => *c < closures.len() && closures[*c].is_macro,
                _ => false,
            },
        ),
        _ => None,
    }
}

/// What `pr-str` gives: the source text of the arguments, separated by single
/// spaces.
pub open spec fn pr_str_spec(args: Seq<V>, atoms: Seq<V>) -> V {
    V::Str(pr_seq(args, atoms, true, atoms.len(), args.len()))
}

/// What `str` gives: the plain text of the arguments, one after the other.
pub open spec fn str_spec(args: Seq<V>, atoms: Seq<V>) -> V {
    V::Str(pr_concat(args, atoms, false, atoms.len(), args.len()))
}

/// The line that `prn` or `println` prints: the text of the arguments,
/// separated by single spaces, as source text for `prn`.
pub open spec fn print_line_spec(readably: bool, args: Seq<V>, atoms: Seq<V>) -> Seq<char> {
    pr_seq(args, atoms, readably, atoms.len(), args.len())
}

/// The number of items of a list or vector, 0 for any other value, and not
/// more than the largest number.
pub open spec fn count_spec(v: V) -> int {
    match seq_items(v) {
        Some(x) => if x.len() <= i32::MAX {
            x.len() as int
        } else {
            i32::MAX as int
        },
        None => 0,
    }
}

/// Whether a value is a list or vector without items; any other value
/// counts as empty.
pub open spec fn is_empty_spec(v: V) -> bool {
    match seq_items(v) {
        Some(x) => x.len() == 0,
        None => true,
    }
}

/// What `read-string` gives for the text `s`: its first form, nil where it
/// holds none, or the parse error as a thrown value.
pub open spec fn read_string_spec(s: Seq<char>) -> Result<V, V> {
    match read_str_spec(s) {
        Ok(v) => Ok(v),
        Err(ParseErr::EmptyInput) => Ok(V::Nil),
        Err(e) => Err(thrown(RuntimeErr::Parse(e))),
    }
}

fn core_count(v: &Value) -> (r: Value)
    ensures
        r@ == V::Number(count_spec(v@)),
{
    match v.try_as_list_or_vec() {
        Some(l) => {
            if l.len() <= 0x7fff_ffff {
                Value::Number(l.len() as i32)
            } else {
                Value::Number(0x7fff_ffff)
            }
        },
        None => Value::Number(0),
    }
}

fn core_is_empty(v: &Value) -> (r: Value)
    ensures
        r@ == V::Bool(is_empty_spec(v@)),
{
    match v.try_as_list_or_vec() {
        Some(l) => Value::Bool(l.len() == 0),
        None => Value::Bool(true),
    }
}

fn core_read_string(s: &str) -> (r: RuntimeResult<Value>)
    ensures
        result_is(r, read_string_spec(s@)),
{
    match read_str(s) {
        Ok(v) => Ok(v),
        Err(ParseError::EmptyInput) => Ok(Value::Nil),
        Err(e) => Err(RuntimeError::Parse(e).into_value()),
    }
}

/// What `cons` gives: the list of `x` and then the items of `l`.
pub open spec fn cons_spec(x: V, l: V, atoms: Seq<V>) -> Result<V, V> {
    match seq_items(l) {
        Some(items) => Ok(V::List(seq![x] + items, no_meta())),
        None => Err(thrown_not_a("list or vec"@, l, atoms)),
    }
}

/// The items of the first `n` arguments, one sequence after the other, or
/// the error for the first of them that is no list or vector.
pub open spec fn concat_items(args: Seq<V>, atoms: Seq<V>, n: nat) -> Result<Seq<V>, V>
    decreases n,
{
    if n == 0 || n > args.len() {
        Ok(Seq::empty())
    } else {
        match concat_items(args, atoms, (n - 1) as nat) {
            Err(e) => Err(e),
            Ok(acc) => match seq_items(args[n - 1]) {
                Some(items) => Ok(acc + items),
                None => Err(thrown_not_a("list or vec"@, args[n - 1], atoms)),
            },
        }
    }
}

/// What `concat` gives: the list of the items of all arguments.
pub open spec fn concat_spec(args: Seq<V>, atoms: Seq<V>) -> Result<V, V> {
    match concat_items(args, atoms, args.len()) {
        Ok(items) => Ok(V::List(items, no_meta())),
        Err(e) => Err(e),
    }
}

/// What `vec` gives: the vector of the items of a list or vector.
pub open spec fn vec_spec(l: V, atoms: Seq<V>) -> Result<V, V> {
    match seq_items(l) {
        Some(items) => Ok(V::Vector(items, no_meta())),
        None => Err(thrown_not_a("list or vec"@, l, atoms)),
    }
}

/// What `nth` gives: the item at an index of a list or vector, an error for
/// an index outside it, and nil for nil.
pub open spec fn nth_spec(args: Seq<V>, atoms: Seq<V>) -> Result<V, V> {
    if args.len() < 1 {
        missing(Builtin::Nth)
    } else {
        match seq_items(args[0]) {
            Some(x) => if args.len() < 2 {
                missing(Builtin::Nth)
            } else {
                match args[1] {
                    V::Number(i) => if 0 <= i < x.len() {
                        Ok(x[i])
                    } else {
                        Err(thrown(RuntimeErr::OutOfBounds(x.len(), i)))
                    },
                    other => Err(thrown_not_a("number"@, other, atoms)),
                }
            },
            None => if args[0] is Nil {
                Ok(V::Nil)
            } else {
                Err(thrown_not_a("list"@, args[0], atoms))
            },
        }
    }
}

/// What `first` gives: the first item of a list or vector, nil where there
/// is none, and nil for nil.
pub open spec fn first_spec(v: V, atoms: Seq<V>) -> Result<V, V> {
    match seq_items(v) {
        Some(x) => if x.len() > 0 {
            Ok(x[0])
        } else {
            Ok(V::Nil)
        },
        None => if v is Nil {
            Ok(V::Nil)
        } else {
            Err(thrown_not_a("list"@, v, atoms))
        },
    }
}

/// What `rest` gives: the list of all items but the first of a list or
/// vector, and the empty list for nil.
pub open spec fn rest_spec(v: V, atoms: Seq<V>) -> Result<V, V> {
    match seq_items(v) {
        Some(x) => if x.len() > 0 {
            Ok(V::List(x.drop_first(), no_meta()))
        } else {
            Ok(V::List(Seq::empty(), no_meta()))
        },
        None => if v is Nil {
            Ok(V::List(Seq::empty(), no_meta()))
        } else {
            Err(thrown_not_a("list"@, v, atoms))
        },
    }
}

/// The characters of a string, each as a string of its own.
pub open spec fn chars_as_strings(s: Seq<char>) -> Seq<V> {
    Seq::new(s.len(), |i: int| V::Str(seq![s[i]]))
}

/// What `seq` gives: the list of the items of a list or vector, or of the
/// characters of a string; nil for nil and for what has no items.
pub open spec fn seq_spec(v: V, atoms: Seq<V>) -> Result<V, V> {
    match v {
        V::List(x, _) => if x.len() == 0 {
            Ok(V::Nil)
        } else {
            Ok(V::List(x, no_meta()))
        },
        V::Vector(x, _) => if x.len() == 0 {
            Ok(V::Nil)
        } else {
            Ok(V::List(x, no_meta()))
        },
        V::Str(s) => if s.len() == 0 {
            Ok(V::Nil)
        } else {
            Ok(V::List(chars_as_strings(s), no_meta()))
        },
        V::Nil => Ok(V::Nil),
        _ => Err(thrown_not_a("valid argument for seq"@, v, atoms)),
    }
}

/// What `conj` gives: for a list, the further arguments in reverse order and
/// then its items; for a vector, its items and then the further arguments.
pub open spec fn conj_spec(args: Seq<V>, atoms: Seq<V>) -> Result<V, V> {
    if args.len() < 1 {
        missing(Builtin::Conj)
    } else {
        match args[0] {
            V::List(l, _) => Ok(V::List(args.drop_first().reverse() + l, no_meta())),
            V::Vector(l, _) => Ok(V::Vector(l + args.drop_first(), no_meta())),
            other => Err(thrown_not_a("list or vec"@, other, atoms)),
        }
    }
}

fn core_cons(x: &Value, l: &Value, atoms: &Vec<Value>) -> (r: RuntimeResult<Value>)
    ensures
        result_is(r, cons_spec(x@, l@, view_seq(atoms@))),
{
    match l.try_as_list_or_vec() {
        Some(items) => {
            let mut out: Vec<Value> = Vec::new();
            out.push(x.clone());
            let mut tail = clone_values(items);
            out.append(&mut tail);
            assert(view_seq(out@) =~= seq![x@] + view_seq(items@));
            Ok(Value::list(out))
        },
        None => Err(not_a("list or vec", l, atoms)),
    }
}

fn core_concat(args: &Vec<Value>, atoms: &Vec<Value>) -> (r: RuntimeResult<Value>)
    ensures
        result_is(r, concat_spec(view_seq(args@), view_seq(atoms@))),
{
    let mut out: Vec<Value> = Vec::new();
    let mut i: usize = 0;
    assert(view_seq(out@) =~= Seq::<V>::empty());
    while i < args.len()
        invariant
            i <= args.len(),
            concat_items(view_seq(args@), view_seq(atoms@), i as nat) == Ok::<Seq<V>, V>(
                view_seq(out@),
            ),
        decreases args.len() - i,
    {
        match args[i].try_as_list_or_vec() {
            Some(items) => {
                let ghost before = view_seq(out@);
                let mut tail = clone_values(items);
                out.append(&mut tail);
                assert(view_seq(out@) =~= before + view_seq(items@));
            },
            None => {
                let e = not_a("list or vec", &args[i], atoms);
                proof {
                    lemma_concat_error(view_seq(args@), view_seq(atoms@), (i + 1) as nat);
                }
                return Err(e);
            },
        }
        i += 1;
    }
    Ok(Value::list(out))
}

/// An error among the first `n` arguments of `concat` is the error of all of
/// them.
pub proof fn lemma_concat_error(args: Seq<V>, atoms: Seq<V>, n: nat)
    requires
        n <= args.len(),
        concat_items(args, atoms, n) is Err,
    ensures
        concat_items(args, atoms, args.len()) == concat_items(args, atoms, n),
    decreases args.len() - n,
{
    if n < args.len() {
        lemma_concat_error(args, atoms, n + 1);
    }
}

fn core_vec(l: &Value, atoms: &Vec<Value>) -> (r: RuntimeResult<Value>)
    ensures
        result_is(r, vec_spec(l@, view_seq(atoms@))),
{
    match l.try_as_list_or_vec() {
        Some(items) => Ok(Value::vector(clone_values(items))),
        None => Err(not_a("list or vec", l, atoms)),
    }
}

fn core_nth(args: &Vec<Value>, atoms: &Vec<Value>) -> (r: RuntimeResult<Value>)
    ensures
        result_is(r, nth_spec(view_seq(args@), view_seq(atoms@))),
{
    if args.len() < 1 {
        return Err(missing_argument(Builtin::Nth.name()));
    }
    match args[0].try_as_list_or_vec() {
        Some(items) => {
            if args.len() < 2 {
                return Err(missing_argument(Builtin::Nth.name()));
            }
            match args[1].try_as_number() {
                Some(i) => {
                    if i < 0 || i as usize >= items.len() {
                        Err(out_of_bounds(items.len(), i))
                    } else {
                        Ok(items[i as usize].clone())
                    }
                },
                None => Err(not_a("number", &args[1], atoms)),
            }
        },
        None => match &args[0] {
            Value::Nil => Ok(Value::Nil),
            other => Err(not_a("list", other, atoms)),
        },
    }
}

fn core_first(v: &Value, atoms: &Vec<Value>) -> (r: RuntimeResult<Value>)
    ensures
        result_is(r, first_spec(v@, view_seq(atoms@))),
{
    match v.try_as_list_or_vec() {
        Some(items) => {
            if items.len() > 0 {
                Ok(items[0].clone())
            } else {
                Ok(Value::Nil)
            }
        },
        None => match v {
            Value::Nil => Ok(Value::Nil),
            other => Err(not_a("list", other, atoms)),
        },
    }
}

/// A copy of the items of `items` from position `from` on.
pub fn clone_from(items: &Vec<Value>, from: usize) -> (r: Vec<Value>)
    requires
        from <= items.len(),
    ensures
        view_seq(r@) == view_seq(items@).subrange(from as int, items.len() as int),
{
    let mut out: Vec<Value> = Vec::new();
    let mut i: usize = from;
    assert(view_seq(out@) =~= view_seq(items@).subrange(from as int, i as int));
    while i < items.len()
        invariant
            from <= i <= items.len(),
            view_seq(out@) == view_seq(items@).subrange(from as int, i as int),
        decreases items.len() - i,
    {
        out.push(items[i].clone());
        i += 1;
        assert(view_seq(out@) =~= view_seq(items@).subrange(from as int, i as int));
    }
    out
}

fn core_rest(v: &Value, atoms: &Vec<Value>) -> (r: RuntimeResult<Value>)
    ensures
        result_is(r, rest_spec(v@, view_seq(atoms@))),
{
    match v.try_as_list_or_vec() {
        Some(items) => {
            if items.len() > 0 {
                let out = clone_from(items, 1);
                assert(view_seq(out@) =~= view_seq(items@).drop_first());
                Ok(Value::list(out))
            } else {
                let out: Vec<Value> = Vec::new();
                assert(view_seq(out@) =~= Seq::<V>::empty());
                Ok(Value::list(out))
            }
        },
        None => match v {
            Value::Nil => {
                let out: Vec<Value> = Vec::new();
                assert(view_seq(out@) =~= Seq::<V>::empty());
                Ok(Value::list(out))
            },
            other => Err(not_a("list", other, atoms)),
        },
    }
}

fn core_seq(v: &Value, atoms: &Vec<Value>) -> (r: RuntimeResult<Value>)
    ensures
        result_is(r, seq_spec(v@, view_seq(atoms@))),
{
    match v {
        Value::List(l, _) => {
            assert(view_seq(l@).len() == l.len());
            if l.len() == 0 {
                Ok(Value::Nil)
            } else {
                Ok(Value::list(clone_values(l)))
            }
        },
        Value::Vec(l, _) => {
            assert(view_seq(l@).len() == l.len());
            if l.len() == 0 {
                Ok(Value::Nil)
            } else {
                Ok(Value::list(clone_values(l)))
            }
        },
        Value::String(s) => {
            let chars = chars_of(s.as_str());
            if chars.len() == 0 {
                Ok(Value::Nil)
            } else {
                let mut out: Vec<Value> = Vec::new();
                let mut i: usize = 0;
                while i < chars.len()
                    invariant
                        i <= chars.len(),
                        out.len() == i,
                        forall|j: int| 0 <= j < i ==> (#[trigger] out[j])@ == V::Str(seq![chars[j]]),
                    decreases chars.len() - i,
                {
                    let mut one = String::new();
                    one.push(chars[i]);
                    assert(one@ =~= seq![chars[i as int]]);
                    out.push(Value::String(one));
                    i += 1;
                }
                assert(view_seq(out@) =~= chars_as_strings(s@));
                Ok(Value::list(out))
            }
        },
        Value::Nil => Ok(Value::Nil),
        other => Err(not_a("valid argument for seq", other, atoms)),
    }
}

fn core_conj(args: &Vec<Value>, atoms: &Vec<Value>) -> (r: RuntimeResult<Value>)
    ensures
        result_is(r, conj_spec(view_seq(args@), view_seq(atoms@))),
{
    if args.len() < 1 {
        return Err(missing_argument(Builtin::Conj.name()));
    }
    match &args[0] {
        Value::List(l, _) => {
            let mut out: Vec<Value> = Vec::new();
            let mut i: usize = args.len();
            while i > 1
                invariant
                    1 <= i <= args.len(),
                    out.len() == args.len() - i,
                    forall|j: int|
                        0 <= j < out.len() ==> (#[trigger] out[j])@ == args[args.len() - 1 - j]@,
                decreases i,
            {
                i -= 1;
                out.push(args[i].clone());
            }
            let ghost front = view_seq(out@);
            assert(front =~= view_seq(args@).drop_first().reverse());
            let mut tail = clone_values(l);
            out.append(&mut tail);
            assert(view_seq(out@) =~= front + view_seq(l@));
            Ok(Value::list(out))
        },
        Value::Vec(l, _) => {
            let mut out = clone_values(l);
            let mut tail = clone_from(args, 1);
            let ghost front = view_seq(out@);
            out.append(&mut tail);
            assert(view_seq(out@) =~= view_seq(l@) + view_seq(args@).drop_first());
            Ok(Value::vector(out))
        },
        other => Err(not_a("list or vec", other, atoms)),
    }
}

/// A map key as a value: a keyword for the internal name of one, else a
/// string.
pub open spec fn key_value(k: Seq<char>) -> V {
    if is_keyword_name(k) {
        V::Keyword(k)
    } else {
        V::Str(k)
    }
}

/// What `keys` gives: the list of the keys of a map, in the order of its
/// entries.
pub open spec fn keys_spec(m: V, atoms: Seq<V>) -> Result<V, V> {
    match m {
        V::Table(e, _) => Ok(V::List(Seq::new(e.len(), |i: int| key_value(e[i].0)), no_meta())),
        _ => Err(thrown_not_a("hash map"@, m, atoms)),
    }
}

/// What `vals` gives: the list of the values of a map, in the order of its
/// entries.
pub open spec fn vals_spec(m: V, atoms: Seq<V>) -> Result<V, V> {
    match m {
        V::Table(e, _) => Ok(V::List(Seq::new(e.len(), |i: int| e[i].1), no_meta())),
        _ => Err(thrown_not_a("hash map"@, m, atoms)),
    }
}

/// The entries after the arguments from position `from` on, taken two by
/// two as a key and its value, are put in; or the error for the first key
/// that is neither string nor keyword.
pub open spec fn insert_pairs(
    entries: Seq<(Seq<char>, V)>,
    args: Seq<V>,
    from: nat,
    atoms: Seq<V>,
) -> Result<Seq<(Seq<char>, V)>, V>
    decreases args.len() - from,
{
    if from + 1 >= args.len() {
        Ok(entries)
    } else {
        match hash_map_key(args[from as int]) {
            Some(k) => insert_pairs(
                entries_insert(entries, k, args[from as int + 1]),
                args,
                from + 2,
                atoms,
            ),
            None => Err(
                thrown_not_a("hash map key (keyword or string)"@, args[from as int], atoms),
            ),
        }
    }
}

/// What `hash-map` gives: the map of the arguments, taken two by two as a
/// key and its value. An odd number of arguments is an error.
pub open spec fn hash_map_spec(args: Seq<V>, atoms: Seq<V>) -> Result<V, V> {
    if args.len() % 2 != 0 {
        Err(thrown(RuntimeErr::OddArguments(args.len())))
    } else {
        match insert_pairs(Seq::empty(), args, 0, atoms) {
            Ok(e) => Ok(V::Table(e, no_meta())),
            Err(e) => Err(e),
        }
    }
}

/// What `assoc` gives: the map of the first argument with the further
/// arguments put in, taken two by two as a key and its value.
pub open spec fn assoc_spec(args: Seq<V>, atoms: Seq<V>) -> Result<V, V> {
    if args.len() < 1 {
        missing(Builtin::Assoc)
    } else {
        match args[0] {
            V::Table(entries, _) => if (args.len() - 1) % 2 != 0 {
                Err(thrown(RuntimeErr::OddArguments((args.len() - 1) as nat)))
            } else {
                match insert_pairs(entries, args, 1, atoms) {
                    Ok(e) => Ok(V::Table(e, no_meta())),
                    Err(e) => Err(e),
                }
            },
            other => Err(thrown_not_a("hash map"@, other, atoms)),
        }
    }
}

/// The entries without the keys that the arguments from position `from` on
/// name; or the error for the first of them that is neither string nor
/// keyword.
pub open spec fn remove_keys(
    entries: Seq<(Seq<char>, V)>,
    args: Seq<V>,
    from: nat,
    atoms: Seq<V>,
) -> Result<Seq<(Seq<char>, V)>, V>
    decreases args.len() - from,
{
    if from >= args.len() {
        Ok(entries)
    } else {
        match hash_map_key(args[from as int]) {
            Some(k) => remove_keys(entries_remove(entries, k), args, from + 1, atoms),
            None => Err(
                thrown_not_a("hash map key (keyword or string)"@, args[from as int], atoms),
            ),
        }
    }
}

/// What `dissoc` gives: the map of the first argument without the keys that
/// the further arguments name.
pub open spec fn dissoc_spec(args: Seq<V>, atoms: Seq<V>) -> Result<V, V> {
    if args.len() < 1 {
        missing(Builtin::Dissoc)
    } else {
        match args[0] {
            V::Table(entries, _) => match remove_keys(entries, args, 1, atoms) {
                Ok(e) => Ok(V::Table(e, no_meta())),
                Err(e) => Err(e),
            },
            other => Err(thrown_not_a("hash map"@, other, atoms)),
        }
    }
}

/// What `get` gives: the value of a key in a map, nil where the map lacks
/// the key, and nil for nil in the place of the map.
pub open spec fn map_get_spec(args: Seq<V>, atoms: Seq<V>) -> Result<V, V> {
    if args.len() < 1 {
        missing(Builtin::Get)
    } else {
        match args[0] {
            V::Nil => Ok(V::Nil),
            V::Table(entries, _) => if args.len() < 2 {
                missing(Builtin::Get)
            } else {
                match hash_map_key(args[1]) {
                    Some(k) => match entries_get(entries, k) {
                        Some(v) => Ok(v),
                        None => Ok(V::Nil),
                    },
                    None => Err(
                        thrown_not_a("hash map key (keyword or string)"@, args[1], atoms),
                    ),
                }
            },
            other => Err(thrown_not_a("hash map"@, other, atoms)),
        }
    }
}

/// What `contains?` gives: whether a map holds a key.
pub open spec fn contains_spec(args: Seq<V>, atoms: Seq<V>) -> Result<V, V> {
    if args.len() < 1 {
        missing(Builtin::Contains)
    } else {
        match args[0] {
            V::Table(entries, _) => if args.len() < 2 {
                missing(Builtin::Contains)
            } else {
                match hash_map_key(args[1]) {
                    Some(k) => Ok(V::Bool(has_key(entries, k))),
                    None => Err(
                        thrown_not_a("hash map key (keyword or string)"@, args[1], atoms),
                    ),
                }
            },
            other => Err(thrown_not_a("hash map"@, other, atoms)),
        }
    }
}

/// What `symbol` gives: the symbol with the content of a string as its name.
pub open spec fn symbol_spec(v: V, atoms: Seq<V>) -> Result<V, V> {
    match v {
        V::Str(s) => Ok(V::Symbol(s)),
        _ => Err(thrown_not_a("string"@, v, atoms)),
    }
}

/// What `keyword` gives: the keyword with the content of a string after its
/// colon; a keyword as it is.
pub open spec fn keyword_spec(v: V, atoms: Seq<V>) -> Result<V, V> {
    match v {
        V::Str(s) => Ok(V::Keyword(seq![KEYWORD_PREFIX, ':'] + s)),
        V::Keyword(_) => Ok(v),
        _ => Err(thrown_not_a("string or keyword"@, v, atoms)),
    }
}

/// The metadata of a value of a kind that carries some.
pub open spec fn meta_of(v: V) -> Option<V> {
    match v {
        V::List(_, m) => Some(*m),
        V::Vector(_, m) => Some(*m),
        V::Table(_, m) => Some(*m),
        V::HostFn(_, m) => Some(*m),
        V::Closure(_, m) => Some(*m),
        _ => None,
    }
}

/// A value of a kind that carries metadata, with the metadata `meta`.
pub open spec fn set_meta(v: V, meta: V) -> V {
    match v {
        V::List(x, _) => V::List(x, Box::new(meta)),
        V::Vector(x, _) => V::Vector(x, Box::new(meta)),
        V::Table(x, _) => V::Table(x, Box::new(meta)),
        V::HostFn(x, _) => V::HostFn(x, Box::new(meta)),
        V::Closure(x, _) => V::Closure(x, Box::new(meta)),
        _ => v,
    }
}

/// What `meta` gives: the metadata of a list, vector, map or function.
pub open spec fn meta_spec(v: V, atoms: Seq<V>) -> Result<V, V> {
    match meta_of(v) {
        Some(m) => Ok(m),
        None => Err(thrown_not_a("value with metadata (list, vec or function)"@, v, atoms)),
    }
}

/// What `with-meta` gives: the first argument with the second as its
/// metadata.
pub open spec fn with_meta_spec(args: Seq<V>, atoms: Seq<V>) -> Result<V, V> {
    if args.len() < 1 {
        missing(Builtin::WithMeta)
    } else if meta_of(args[0]) is None {
        Err(thrown_not_a("value with metadata (list, vec or function)"@, args[0], atoms))
    } else if args.len() < 2 {
        missing(Builtin::WithMeta)
    } else {
        Ok(set_meta(args[0], args[1]))
    }
}

/// What `deref` gives: the value that an atom holds.
pub open spec fn deref_spec(v: V, atoms: Seq<V>) -> Result<V, V> {
    match v {
        V::Atom(a) => if a < atoms.len() {
            Ok(atoms[a as int])
        } else {
            Err(thrown_not_a("atom"@, v, atoms))
        },
        _ => Err(thrown_not_a("atom"@, v, atoms)),
    }
}

fn core_keys(m: &Value, atoms: &Vec<Value>) -> (r: RuntimeResult<Value>)
    ensures
        result_is(r, keys_spec(m@, view_seq(atoms@))),
{
    match m {
        Value::HashMap(map, _) => {
            let mut out: Vec<Value> = Vec::new();
            let mut i: usize = 0;
            while i < map.entries.len()
                invariant
                    i <= map.entries.len(),
                    out.len() == i,
                    forall|j: int| 0 <= j < i ==> (#[trigger] out[j])@ == key_value(map@[j].0),
                decreases map.entries.len() - i,
            {
                let key = map.entries[i].0.clone();
                let chars = chars_of(key.as_str());
                if chars.len() > 0 && chars[0] == KEYWORD_PREFIX {
                    out.push(Value::Keyword(key));
                } else {
                    out.push(Value::String(key));
                }
                i += 1;
            }
            assert(view_seq(out@) =~= Seq::new(map@.len(), |i: int| key_value(map@[i].0)));
            Ok(Value::list(out))
        },
        other => Err(not_a("hash map", other, atoms)),
    }
}

fn core_vals(m: &Value, atoms: &Vec<Value>) -> (r: RuntimeResult<Value>)
    ensures
        result_is(r, vals_spec(m@, view_seq(atoms@))),
{
    match m {
        Value::HashMap(map, _) => {
            let mut out: Vec<Value> = Vec::new();
            let mut i: usize = 0;
            while i < map.entries.len()
                invariant
                    i <= map.entries.len(),
                    out.len() == i,
                    forall|j: int| 0 <= j < i ==> (#[trigger] out[j])@ == map@[j].1,
                decreases map.entries.len() - i,
            {
                out.push(map.entries[i].1.clone());
                i += 1;
            }
            assert(view_seq(out@) =~= Seq::new(map@.len(), |i: int| map@[i].1));
            Ok(Value::list(out))
        },
        other => Err(not_a("hash map", other, atoms)),
    }
}

#[verifier::loop_isolation(false)]
fn put_pairs(map: MalMap, args: &Vec<Value>, from: usize, atoms: &Vec<Value>) -> (r: RuntimeResult<
    MalMap,
>)
    ensures
        match r {
            Ok(m) => insert_pairs(map@, view_seq(args@), from as nat, view_seq(atoms@)) == Ok::<
                Seq<(Seq<char>, V)>,
                V,
            >(m@),
            Err(e) => insert_pairs(map@, view_seq(args@), from as nat, view_seq(atoms@)) == Err::<
                Seq<(Seq<char>, V)>,
                V,
            >(e@),
        },
{
    let mut map = map;
    let ghost start = map@;
    let mut i: usize = from;
    while i < args.len() && i + 1 < args.len()
        invariant
            insert_pairs(map@, view_seq(args@), i as nat, view_seq(atoms@)) == insert_pairs(
                start,
                view_seq(args@),
                from as nat,
                view_seq(atoms@),
            ),
        decreases args.len() - i,
    {
        assert(view_seq(args@)[i as int] == args[i as int]@);
        assert(view_seq(args@)[i + 1] == args[i + 1]@);
        let key = match args[i].as_hash_map_key(atoms) {
            Ok(k) => String::from_str(k),
            Err(e) => {
                return Err(e);
            },
        };
        map.insert(key, args[i + 1].clone());
        i += 2;
    }
    Ok(map)
}

fn core_hash_map(args: &Vec<Value>, atoms: &Vec<Value>) -> (r: RuntimeResult<Value>)
    ensures
        result_is(r, hash_map_spec(view_seq(args@), view_seq(atoms@))),
{
    match ensure_even_args(args.len()) {
        Err(e) => {
            return Err(e);
        },
        Ok(_) => {},
    }
    match put_pairs(MalMap::new(), args, 0, atoms) {
        Ok(m) => Ok(Value::hash_map(m)),
        Err(e) => Err(e),
    }
}

fn core_assoc(args: &Vec<Value>, atoms: &Vec<Value>) -> (r: RuntimeResult<Value>)
    ensures
        result_is(r, assoc_spec(view_seq(args@), view_seq(atoms@))),
{
    if args.len() < 1 {
        return Err(missing_argument(Builtin::Assoc.name()));
    }
    match &args[0] {
        Value::HashMap(map, _) => {
            match ensure_even_args(args.len() - 1) {
                Err(e) => {
                    return Err(e);
                },
                Ok(_) => {},
            }
            match put_pairs(map.clone(), args, 1, atoms) {
                Ok(m) => Ok(Value::hash_map(m)),
                Err(e) => Err(e),
            }
        },
        other => Err(not_a("hash map", other, atoms)),
    }
}

#[verifier::loop_isolation(false)]
fn core_dissoc(args: &Vec<Value>, atoms: &Vec<Value>) -> (r: RuntimeResult<Value>)
    ensures
        result_is(r, dissoc_spec(view_seq(args@), view_seq(atoms@))),
{
    if args.len() < 1 {
        return Err(missing_argument(Builtin::Dissoc.name()));
    }
    match &args[0] {
        Value::HashMap(source, _) => {
            let mut map = source.clone();
            let mut i: usize = 1;
            while i < args.len()
                invariant
                    1 <= i <= args.len(),
                    remove_keys(map@, view_seq(args@), i as nat, view_seq(atoms@)) == remove_keys(
                        source@,
                        view_seq(args@),
                        1,
                        view_seq(atoms@),
                    ),
                decreases args.len() - i,
            {
                assert(view_seq(args@)[i as int] == args[i as int]@);
                match args[i].as_hash_map_key(atoms) {
                    Ok(k) => {
                        let _ = map.remove(k);
                    },
                    Err(e) => {
                        return Err(e);
                    },
                }
                i += 1;
            }
            Ok(Value::hash_map(map))
        },
        other => Err(not_a("hash map", other, atoms)),
    }
}

fn core_get(args: &Vec<Value>, atoms: &Vec<Value>) -> (r: RuntimeResult<Value>)
    ensures
        result_is(r, map_get_spec(view_seq(args@), view_seq(atoms@))),
{
    if args.len() < 1 {
        return Err(missing_argument(Builtin::Get.name()));
    }
    match &args[0] {
        Value::Nil => Ok(Value::Nil),
        Value::HashMap(map, _) => {
            if args.len() < 2 {
                return Err(missing_argument(Builtin::Get.name()));
            }
            match args[1].as_hash_map_key(atoms) {
                Ok(k) => match map.get(k) {
                    Some(v) => Ok(v.clone()),
                    None => Ok(Value::Nil),
                },
                Err(e) => Err(e),
            }
        },
        other => Err(not_a("hash map", other, atoms)),
    }
}

fn core_contains(args: &Vec<Value>, atoms: &Vec<Value>) -> (r: RuntimeResult<Value>)
    ensures
        result_is(r, contains_spec(view_seq(args@), view_seq(atoms@))),
{
    if args.len() < 1 {
        return Err(missing_argument(Builtin::Contains.name()));
    }
    match &args[0] {
        Value::HashMap(map, _) => {
            if args.len() < 2 {
                return Err(missing_argument(Builtin::Contains.name()));
            }
            match args[1].as_hash_map_key(atoms) {
                Ok(k) => Ok(Value::Bool(map.contains_key(k))),
                Err(e) => Err(e),
            }
        },
        other => Err(not_a("hash map", other, atoms)),
    }
}

fn core_symbol(v: &Value, atoms: &Vec<Value>) -> (r: RuntimeResult<Value>)
    ensures
        result_is(r, symbol_spec(v@, view_seq(atoms@))),
{
    match v.try_as_str(atoms) {
        Ok(s) => Ok(Value::symbol(s)),
        Err(e) => Err(e),
    }
}

fn core_keyword(v: &Value, atoms: &Vec<Value>) -> (r: RuntimeResult<Value>)
    ensures
        result_is(r, keyword_spec(v@, view_seq(atoms@))),
{
    match v {
        Value::String(s) => {
            let mut name = String::new();
            name.push(KEYWORD_PREFIX);
            name.push(':');
            name.append(s.as_str());
            assert(name@ =~= seq![KEYWORD_PREFIX, ':'] + s@);
            Ok(Value::Keyword(name))
        },
        Value::Keyword(k) => Ok(Value::Keyword(k.clone())),
        other => Err(not_a("string or keyword", other, atoms)),
    }
}

fn core_meta(v: &Value, atoms: &Vec<Value>) -> (r: RuntimeResult<Value>)
    ensures
        result_is(r, meta_spec(v@, view_seq(atoms@))),
{
    match v {
        Value::List(_, m) => Ok((&**m).clone()),
        Value::Vec(_, m) => Ok((&**m).clone()),
        Value::HashMap(_, m) => Ok((&**m).clone()),
        Value::HostFn(_, m) => Ok((&**m).clone()),
        Value::Closure(_, m) => Ok((&**m).clone()),
        other => Err(not_a("value with metadata (list, vec or function)", other, atoms)),
    }
}

fn core_with_meta(args: &Vec<Value>, atoms: &Vec<Value>) -> (r: RuntimeResult<Value>)
    ensures
        result_is(r, with_meta_spec(view_seq(args@), view_seq(atoms@))),
{
    if args.len() < 1 {
        return Err(missing_argument(Builtin::WithMeta.name()));
    }
    let carries = match &args[0] {
        Value::List(_, _) => true,
        Value::Vec(_, _) => true,
        Value::HashMap(_, _) => true,
        Value::HostFn(_, _) => true,
        Value::Closure(_, _) => true,
        _ => false,
    };
    if !carries {
        return Err(not_a("value with metadata (list, vec or function)", &args[0], atoms));
    }
    if args.len() < 2 {
        return Err(missing_argument(Builtin::WithMeta.name()));
    }
    let meta = Box::new(args[1].clone());
    match &args[0] {
        Value::List(l, _) => Ok(Value::List(clone_values(l), meta)),
        Value::Vec(l, _) => Ok(Value::Vec(clone_values(l), meta)),
        Value::HashMap(m, _) => Ok(Value::HashMap(m.clone(), meta)),
        Value::HostFn(f, _) => Ok(Value::HostFn(*f, meta)),
        Value::Closure(c, _) => Ok(Value::Closure(*c, meta)),
        _ => Ok(Value::Nil),
    }
}

fn core_deref(v: &Value, atoms: &Vec<Value>) -> (r: RuntimeResult<Value>)
    ensures
        result_is(r, deref_spec(v@, view_seq(atoms@))),
{
    match v {
        Value::Atom(a) => {
            if *a < atoms.len() {
                Ok(atoms[*a].clone())
            } else {
                Err(not_a("atom", v, atoms))
            }
        },
        other => Err(not_a("atom", other, atoms)),
    }
}

/// Checks that keys and values pair up: that `count` is even.
pub fn ensure_even_args(count: usize) -> (r: RuntimeResult<()>)
    ensures
        match r {
            Ok(_) => count % 2 == 0,
            Err(e) => count % 2 != 0 && e@ == thrown(RuntimeErr::OddArguments(count as nat)),
        },
{
    if count % 2 != 0 {
        Err(RuntimeError::OddArguments(count).into_value())
    } else {
        Ok(())
    }
}

/// What a primitive function gives, and the atoms after it.
pub ghost struct CoreOutcome {
    pub result: Result<V, V>,
    pub atoms: Seq<V>,
}

/// Whether a primitive function needs the evaluator or the host, so that it
/// is no function of its arguments and the atoms alone.
pub open spec fn needs_machine(b: Builtin) -> bool {
    b == Builtin::Prn || b == Builtin::Println || b == Builtin::Slurp || b == Builtin::TimeMs || b
        == Builtin::Swap || b == Builtin::MapOver
}

/// The result of a primitive function of one argument.
pub open spec fn unary_spec(b: Builtin, x: V, atoms: Seq<V>, closures: Seq<ClosureModel>) -> Result<
    V,
    V,
> {
    match b {
        Builtin::IsEmpty => Ok(V::Bool(is_empty_spec(x))),
        Builtin::Count => Ok(V::Number(count_spec(x))),
        Builtin::ReadString => match x {
            V::Str(s) => read_string_spec(s),
            _ => Err(thrown_not_a("string"@, x, atoms)),
        },
        Builtin::Deref => deref_spec(x, atoms),
        Builtin::VecOf => vec_spec(x, atoms),
        Builtin::First => first_spec(x, atoms),
        Builtin::Rest => rest_spec(x, atoms),
        Builtin::Throw => Err(x),
        Builtin::Symbol => symbol_spec(x, atoms),
        Builtin::Keyword => keyword_spec(x, atoms),
        Builtin::Keys => keys_spec(x, atoms),
        Builtin::Vals => vals_spec(x, atoms),
        Builtin::Meta => meta_spec(x, atoms),
        Builtin::SeqOf => seq_spec(x, atoms),
        _ => match type_test_spec(b, x, closures) {
            Some(answer) => Ok(V::Bool(answer)),
            None => Ok(V::Nil),
        },
    }
}

/// The result of a primitive function of two arguments.
pub open spec fn binary_spec(b: Builtin, x: V, y: V, atoms: Seq<V>) -> Result<V, V> {
    match b {
        Builtin::Add => arith_spec(ArithOp::Add, x, y, atoms),
        Builtin::Sub => arith_spec(ArithOp::Sub, x, y, atoms),
        Builtin::Mul => arith_spec(ArithOp::Mul, x, y, atoms),
        Builtin::Div => arith_spec(ArithOp::Div, x, y, atoms),
        Builtin::Equal => Ok(V::Bool(equal_spec(x, y))),
        Builtin::Less => relation_spec(Relation::Less, x, y, atoms),
        Builtin::Greater => relation_spec(Relation::Greater, x, y, atoms),
        Builtin::LessEq => relation_spec(Relation::LessEq, x, y, atoms),
        Builtin::GreaterEq => relation_spec(Relation::GreaterEq, x, y, atoms),
        Builtin::Cons => cons_spec(x, y, atoms),
        _ => Ok(V::Nil),
    }
}

/// How many arguments a primitive function takes, where that is one or two;
/// 0 where it takes any number or looks at them itself.
pub open spec fn arity(b: Builtin) -> nat {
    match b {
        Builtin::Add | Builtin::Sub | Builtin::Mul | Builtin::Div | Builtin::Equal | Builtin::Less
        | Builtin::Greater | Builtin::LessEq | Builtin::GreaterEq | Builtin::Cons => 2,
        Builtin::PrStr | Builtin::Str | Builtin::List | Builtin::Vector | Builtin::Concat
        | Builtin::Nth | Builtin::MakeHashMap | Builtin::Assoc | Builtin::Dissoc | Builtin::Get
        | Builtin::Contains | Builtin::WithMeta | Builtin::Conj | Builtin::Atom | Builtin::Reset
        | Builtin::Prn | Builtin::Println | Builtin::Slurp | Builtin::TimeMs | Builtin::Swap
        | Builtin::MapOver => 0,
        _ => 1,
    }
}

/// The result of a primitive function that is a function of its arguments,
/// the atoms and the closures.
pub open spec fn pure_spec(b: Builtin, args: Seq<V>, atoms: Seq<V>, closures: Seq<ClosureModel>)
    -> Result<V, V> {
    if args.len() < arity(b) {
        missing(b)
    } else if arity(b) == 1 {
        unary_spec(b, args[0], atoms, closures)
    } else if arity(b) == 2 {
        binary_spec(b, args[0], args[1], atoms)
    } else {
        match b {
            Builtin::PrStr => Ok(pr_str_spec(args, atoms)),
            Builtin::Str => Ok(str_spec(args, atoms)),
            Builtin::List => Ok(V::List(args, no_meta())),
            Builtin::Vector => Ok(V::Vector(args, no_meta())),
            Builtin::Concat => concat_spec(args, atoms),
            Builtin::Nth => nth_spec(args, atoms),
            Builtin::MakeHashMap => hash_map_spec(args, atoms),
            Builtin::Assoc => assoc_spec(args, atoms),
            Builtin::Dissoc => dissoc_spec(args, atoms),
            Builtin::Get => map_get_spec(args, atoms),
            Builtin::Contains => contains_spec(args, atoms),
            Builtin::WithMeta => with_meta_spec(args, atoms),
            Builtin::Conj => conj_spec(args, atoms),
            _ => Ok(V::Nil),
        }
    }
}

/// What a primitive function gives for its arguments, and the atoms after
/// it. There is none for the functions that need the evaluator or the host.
///
/// `atom` adds a new atom to the table, and `reset!` gives an atom a new
/// value; all others leave the atoms as they are.
pub open spec fn core_spec(b: Builtin, args: Seq<V>, atoms: Seq<V>, closures: Seq<ClosureModel>)
    -> Option<CoreOutcome> {
    if needs_machine(b) {
        None
    } else if b == Builtin::Atom {
        if args.len() < 1 {
            Some(CoreOutcome { result: missing(b), atoms })
        } else {
            Some(CoreOutcome { result: Ok(V::Atom(atoms.len())), atoms: atoms.push(args[0]) })
        }
    } else if b == Builtin::Reset {
        if args.len() < 1 {
            Some(CoreOutcome { result: missing(b), atoms })
        } else {
            match args[0] {
                V::Atom(a) => if a >= atoms.len() {
                    Some(CoreOutcome { result: Err(thrown_not_a("atom"@, args[0], atoms)), atoms })
                } else if args.len() < 2 {
                    Some(CoreOutcome { result: missing(b), atoms })
                } else {
                    Some(CoreOutcome { result: Ok(args[1]), atoms: atoms.update(a as int, args[1]) })
                },
                _ => Some(
                    CoreOutcome { result: Err(thrown_not_a("atom"@, args[0], atoms)), atoms },
                ),
            }
        }
    } else {
        Some(CoreOutcome { result: pure_spec(b, args, atoms, closures), atoms })
    }
}

fn call_unary(b: Builtin, x: &Value, atoms: &Vec<Value>, closures: &Vec<Closure>) -> (r:
    RuntimeResult<Value>)
    requires
        arity(b) == 1,
    ensures
        result_is(r, unary_spec(b, x@, view_seq(atoms@), view_closures(closures@))),
{
    match b {
        Builtin::IsEmpty => Ok(core_is_empty(x)),
        Builtin::Count => Ok(core_count(x)),
        Builtin::ReadString => match x.try_as_str(atoms) {
            Ok(s) => core_read_string(s),
            Err(e) => Err(e),
        },
        Builtin::Deref => core_deref(x, atoms),
        Builtin::VecOf => core_vec(x, atoms),
        Builtin::First => core_first(x, atoms),
        Builtin::Rest => core_rest(x, atoms),
        Builtin::Throw => Err(x.clone()),
        Builtin::Symbol => core_symbol(x, atoms),
        Builtin::Keyword => core_keyword(x, atoms),
        Builtin::Keys => core_keys(x, atoms),
        Builtin::Vals => core_vals(x, atoms),
        Builtin::Meta => core_meta(x, atoms),
        Builtin::SeqOf => core_seq(x, atoms),
        _ => match type_test(b, x, closures) {
            Some(answer) => Ok(Value::Bool(answer)),
            None => Ok(Value::Nil),
        },
    }
}

fn call_binary(b: Builtin, x: &Value, y: &Value, atoms: &Vec<Value>) -> (r: RuntimeResult<Value>)
    requires
        arity(b) == 2,
    ensures
        result_is(r, binary_spec(b, x@, y@, view_seq(atoms@))),
{
    match b {
        Builtin::Add => x.clone().add(y.clone(), atoms),
        Builtin::Sub => x.clone().sub(y.clone(), atoms),
        Builtin::Mul => x.clone().mul(y.clone(), atoms),
        Builtin::Div => x.clone().div(y.clone(), atoms),
        Builtin::Equal => Ok(Value::Bool(equals(x, y))),
        Builtin::Less => compare_values(Relation::Less, x, y, atoms),
        Builtin::Greater => compare_values(Relation::Greater, x, y, atoms),
        Builtin::LessEq => compare_values(Relation::LessEq, x, y, atoms),
        Builtin::GreaterEq => compare_values(Relation::GreaterEq, x, y, atoms),
        Builtin::Cons => core_cons(x, y, atoms),
        _ => Ok(Value::Nil),
    }
}

impl Builtin {
    /// How many arguments this primitive function takes, where that is one
    /// or two; 0 where it takes any number or looks at them itself.
    pub fn arity(self) -> (r: usize)
        ensures
            r == arity(self),
    {
        match self {
            Builtin::Add | Builtin::Sub | Builtin::Mul | Builtin::Div | Builtin::Equal
            | Builtin::Less | Builtin::Greater | Builtin::LessEq | Builtin::GreaterEq
            | Builtin::Cons => 2,
            Builtin::PrStr | Builtin::Str | Builtin::List | Builtin::Vector | Builtin::Concat
            | Builtin::Nth | Builtin::MakeHashMap | Builtin::Assoc | Builtin::Dissoc
            | Builtin::Get | Builtin::Contains | Builtin::WithMeta | Builtin::Conj
            | Builtin::Atom | Builtin::Reset | Builtin::Prn | Builtin::Println | Builtin::Slurp
            | Builtin::TimeMs | Builtin::Swap | Builtin::MapOver => 0,
            _ => 1,
        }
    }

    /// Whether this primitive function needs the evaluator or the host.
    pub fn needs_machine(self) -> (r: bool)
        ensures
            r == needs_machine(self),
    {
        match self {
            Builtin::Prn | Builtin::Println | Builtin::Slurp | Builtin::TimeMs | Builtin::Swap
            | Builtin::MapOver => true,
            _ => false,
        }
    }

    /// All primitive functions.
    pub fn all() -> (r: Vec<Builtin>)
        ensures
            r@ == all_builtins(),
    {
        let r = vec![
        Builtin::Add,
        Builtin::Sub,
        Builtin::Mul,
        Builtin::Div,
        Builtin::PrStr,
        Builtin::Str,
        Builtin::Prn,
        Builtin::Println,
        Builtin::List,
        Builtin::IsList,
        Builtin::IsEmpty,
        Builtin::Count,
        Builtin::Equal,
        Builtin::Less,
        Builtin::Greater,
        Builtin::LessEq,
        Builtin::GreaterEq,
        Builtin::ReadString,
        Builtin::Slurp,
        Builtin::Atom,
        Builtin::IsAtom,
        Builtin::Deref,
        Builtin::Reset,
        Builtin::Swap,
        Builtin::Cons,
        Builtin::Concat,
        Builtin::VecOf,
        Builtin::Nth,
        Builtin::First,
        Builtin::Rest,
        Builtin::Throw,
        Builtin::MapOver,
        Builtin::IsNil,
        Builtin::IsTrue,
        Builtin::IsFalse,
        Builtin::IsSymbol,
        Builtin::Symbol,
        Builtin::Keyword,
        Builtin::IsKeyword,
        Builtin::Vector,
        Builtin::IsVector,
        Builtin::IsSequential,
        Builtin::MakeHashMap,
        Builtin::IsHashMap,
        Builtin::Assoc,
        Builtin::Dissoc,
        Builtin::Get,
        Builtin::Contains,
        Builtin::Keys,
        Builtin::Vals,
        Builtin::TimeMs,
        Builtin::Meta,
        Builtin::WithMeta,
        Builtin::IsFn,
        Builtin::IsString,
        Builtin::IsNumber,
        Builtin::IsMacro,
        Builtin::SeqOf,
        Builtin::Conj,
        ];
        assert(r@ =~= all_builtins());
        r
    }
}

/// All primitive functions.
pub open spec fn all_builtins() -> Seq<Builtin> {
    seq![
        Builtin::Add,
        Builtin::Sub,
        Builtin::Mul,
        Builtin::Div,
        Builtin::PrStr,
        Builtin::Str,
        Builtin::Prn,
        Builtin::Println,
        Builtin::List,
        Builtin::IsList,
        Builtin::IsEmpty,
        Builtin::Count,
        Builtin::Equal,
        Builtin::Less,
        Builtin::Greater,
        Builtin::LessEq,
        Builtin::GreaterEq,
        Builtin::ReadString,
        Builtin::Slurp,
        Builtin::Atom,
        Builtin::IsAtom,
        Builtin::Deref,
        Builtin::Reset,
        Builtin::Swap,
        Builtin::Cons,
        Builtin::Concat,
        Builtin::VecOf,
        Builtin::Nth,
        Builtin::First,
        Builtin::Rest,
        Builtin::Throw,
        Builtin::MapOver,
        Builtin::IsNil,
        Builtin::IsTrue,
        Builtin::IsFalse,
        Builtin::IsSymbol,
        Builtin::Symbol,
        Builtin::Keyword,
        Builtin::IsKeyword,
        Builtin::Vector,
        Builtin::IsVector,
        Builtin::IsSequential,
        Builtin::MakeHashMap,
        Builtin::IsHashMap,
        Builtin::Assoc,
        Builtin::Dissoc,
        Builtin::Get,
        Builtin::Contains,
        Builtin::Keys,
        Builtin::Vals,
        Builtin::TimeMs,
        Builtin::Meta,
        Builtin::WithMeta,
        Builtin::IsFn,
        Builtin::IsString,
        Builtin::IsNumber,
        Builtin::IsMacro,
        Builtin::SeqOf,
        Builtin::Conj,
    ]
}

fn call_pure(b: Builtin, args: &Vec<Value>, atoms: &Vec<Value>, closures: &Vec<Closure>) -> (r:
    RuntimeResult<Value>)
    ensures
        result_is(r, pure_spec(b, view_seq(args@), view_seq(atoms@), view_closures(closures@))),
{
    let n = b.arity();
    if args.len() < n {
        return Err(missing_argument(b.name()));
    }
    if n == 1 {
        return call_unary(b, &args[0], atoms, closures);
    }
    if n == 2 {
        return call_binary(b, &args[0], &args[1], atoms);
    }
    match b {
        Builtin::PrStr => Ok(Value::String(text_joined(args, atoms, true))),
        Builtin::Str => Ok(Value::String(text_concat(args, atoms, false))),
        Builtin::List => Ok(Value::list(clone_values(args))),
        Builtin::Vector => Ok(Value::vector(clone_values(args))),
        Builtin::Concat => core_concat(args, atoms),
        Builtin::Nth => core_nth(args, atoms),
        Builtin::MakeHashMap => core_hash_map(args, atoms),
        Builtin::Assoc => core_assoc(args, atoms),
        Builtin::Dissoc => core_dissoc(args, atoms),
        Builtin::Get => core_get(args, atoms),
        Builtin::Contains => core_contains(args, atoms),
        Builtin::WithMeta => core_with_meta(args, atoms),
        Builtin::Conj => core_conj(args, atoms),
        _ => Ok(Value::Nil),
    }
}

/// Calls a primitive function that needs neither the evaluator nor the
/// host; for one that does, nothing is done and the result is `None`.
pub fn call_builtin(
    b: Builtin,
    args: &Vec<Value>,
    atoms: &mut Vec<Value>,
    closures: &Vec<Closure>,
) -> (r: Option<RuntimeResult<Value>>)
    ensures
        match core_spec(b, view_seq(args@), view_seq(old(atoms)@), view_closures(closures@)) {
            None => r is None && final(atoms)@ == old(atoms)@,
            Some(o) => r matches Some(rr) && result_is(rr, o.result) && view_seq(final(atoms)@)
                == o.atoms,
        },
{
    if b.needs_machine() {
        return None;
    }
    match b {
        Builtin::Atom => {
            if args.len() < 1 {
                return Some(Err(missing_argument(b.name())));
            }
            let id = atoms.len();
            atoms.push(args[0].clone());
            assert(view_seq(atoms@) =~= view_seq(old(atoms)@).push(args[0]@));
            Some(Ok(Value::Atom(id)))
        },
        Builtin::Reset => {
            if args.len() < 1 {
                return Some(Err(missing_argument(b.name())));
            }
            match &args[0] {
                Value::Atom(a) => {
                    if *a >= atoms.len() {
                        return Some(Err(not_a("atom", &args[0], atoms)));
                    }
                    if args.len() < 2 {
                        return Some(Err(missing_argument(b.name())));
                    }
                    atoms[*a] = args[1].clone();
                    assert(view_seq(atoms@) =~= view_seq(old(atoms)@).update(*a as int, args[1]@));
                    Some(Ok(args[1].clone()))
                },
                other => Some(Err(not_a("atom", other, atoms))),
            }
        },
        _ => Some(call_pure(b, args, atoms, closures)),
    }
}

/// The value under which a primitive function is bound.
pub open spec fn builtin_value(b: Builtin) -> V {
    V::HostFn(HostFn::ByPtr(MalFnPtr(b)), no_meta())
}

/// The bindings `data` after the first `n` primitive functions are bound to
/// their names.
pub open spec fn install(data: Map<Seq<char>, V>, n: nat) -> Map<Seq<char>, V>
    decreases n,
{
    if n == 0 || n > all_builtins().len() {
        data
    } else {
        install(data, (n - 1) as nat).insert(
            builtin_name(all_builtins()[n - 1]),
            builtin_value(all_builtins()[n - 1]),
        )
    }
}

/// The bindings `data` after every primitive function is bound to its name,
/// and `apply` to its marker.
pub open spec fn core_bindings(data: Map<Seq<char>, V>) -> Map<Seq<char>, V> {
    install(data, all_builtins().len()).insert("apply"@, V::HostFn(HostFn::Apply, no_meta()))
}

/// Binds every primitive function to its name in `env`, and `apply` to its
/// marker.
pub fn init_env(env: &mut Env)
    ensures
        final(env)@ == (EnvModel {
            data: core_bindings(old(env)@.data),
            outer: old(env)@.outer,
        }),
{
    let all = Builtin::all();
    let mut i: usize = 0;
    while i < all.len()
        invariant
            i <= all.len(),
            all@ == all_builtins(),
            env@ == (EnvModel { data: install(old(env)@.data, i as nat), outer: old(env)@.outer }),
        decreases all.len() - i,
    {
        let b = all[i];
        env.set(String::from_str(b.name()), Value::host_fn(HostFn::ByPtr(MalFnPtr(b))));
        i += 1;
    }
    env.set(String::from_str("apply"), Value::host_fn(HostFn::Apply));
}

} // verus!
