use std::cmp::Ordering;

use mal::compare::{compare_values, equals, Relation};
use mal::env::Env;
use mal::mal_core::{call_builtin, ensure_even_args, init_env, type_test};
use mal::printer::to_text;
use mal::quasiquote::quasiquote;
use mal::reader::{read_str, ParseError};
use mal::runtime_errors::{not_a, out_of_bounds, RuntimeError};
use mal::value::{Builtin, Closure, HostFn, MalFnPtr, MalMap, Value};

fn keyword(name: &str) -> String {
    format!("\u{29e}:{}", name)
}

fn list(items: Vec<Value>) -> Value {
    Value::list(items)
}

fn num(n: i32) -> Value {
    Value::Number(n)
}

fn text(v: &Value) -> String {
    to_text(v, &Vec::new(), true)
}

fn thrown_text(r: Result<Value, Value>) -> String {
    to_text(&r.unwrap_err(), &Vec::new(), false)
}

fn call(b: Builtin, src: &str) -> Result<Value, Value> {
    let args = match read_str(src).unwrap() {
        Value::List(items, _) => items,
        other => panic!("{:?}", other),
    };
    let mut atoms = Vec::new();
    call_builtin(b, &args, &mut atoms, &Vec::new()).unwrap()
}

fn ok(b: Builtin, src: &str) -> String {
    text(&call(b, src).unwrap())
}

fn err(b: Builtin, src: &str) -> String {
    thrown_text(call(b, src))
}

#[test]
fn arithmetic_on_numbers() {
    let atoms = Vec::new();
    assert_eq!(num(2).add(num(3), &atoms).unwrap(), num(5));
    assert_eq!(num(2).sub(num(3), &atoms).unwrap(), num(-1));
    assert_eq!(num(-4).mul(num(3), &atoms).unwrap(), num(-12));
    assert_eq!(num(7).div(num(2), &atoms).unwrap(), num(3));
    assert_eq!(num(-7).div(num(2), &atoms).unwrap(), num(-3));
    assert_eq!(num(7).div(num(-2), &atoms).unwrap(), num(-3));
    assert_eq!(num(-7).div(num(-2), &atoms).unwrap(), num(3));
    assert_eq!(num(i32::MIN).div(num(1), &atoms).unwrap(), num(i32::MIN));
    assert_eq!(num(i32::MAX).sub(num(i32::MAX), &atoms).unwrap(), num(0));
}

#[test]
fn arithmetic_errors() {
    let atoms = Vec::new();
    assert_eq!(thrown_text(num(1).div(num(0), &atoms)), "division by zero");
    assert_eq!(thrown_text(num(i32::MAX).add(num(1), &atoms)), "integer overflow");
    assert_eq!(thrown_text(num(i32::MIN).sub(num(1), &atoms)), "integer overflow");
    assert_eq!(thrown_text(num(65536).mul(num(65536), &atoms)), "integer overflow");
    assert_eq!(thrown_text(num(i32::MIN).div(num(-1), &atoms)), "integer overflow");
    assert_eq!(thrown_text(num(1).add(Value::Nil, &atoms)), "'nil' is not a number");
    assert_eq!(thrown_text(Value::string("a").add(num(1), &atoms)), "'\"a\"' is not a number");
}

#[test]
fn arithmetic_opens_atoms() {
    let atoms = vec![num(5), Value::Atom(0), Value::Atom(2)];
    assert_eq!(Value::Atom(0).add(num(1), &atoms).unwrap(), num(6));
    assert_eq!(num(1).add(Value::Atom(1), &atoms).unwrap(), num(6));
    assert_eq!(thrown_text(Value::Atom(2).add(num(1), &atoms)), "atom refers to itself");
    assert_eq!(Value::Atom(1).deref_atom_recursively(&atoms), Some(num(5)));
    assert_eq!(Value::Atom(2).deref_atom_recursively(&atoms), None);
    assert_eq!(num(3).deref_atom_recursively(&atoms), Some(num(3)));
}

#[test]
fn equality_of_values() {
    assert!(equals(&num(1), &num(1)));
    assert!(!equals(&num(1), &num(2)));
    assert!(!equals(&num(1), &Value::string("1")));
    assert!(equals(&Value::string("a"), &Value::string("a")));
    assert!(!equals(&Value::string("a"), &Value::symbol("a")));
    assert!(!equals(&Value::Keyword(keyword("a")), &Value::string(&keyword("a"))));
    assert!(equals(&Value::Nil, &Value::Nil));
    assert!(!equals(&Value::Nil, &Value::Bool(false)));
    assert!(equals(&list(vec![num(1)]), &Value::vector(vec![num(1)])));
    assert!(!equals(&list(vec![num(1)]), &list(vec![num(1), num(2)])));
    assert!(!equals(&list(vec![num(1), num(2)]), &list(vec![num(2), num(1)])));
    assert!(equals(&Value::Atom(3), &Value::Atom(3)));
    assert!(!equals(&Value::Atom(3), &Value::Atom(4)));
    assert!(equals(&Value::closure(1), &Value::closure(1)));
    assert!(!equals(&Value::closure(1), &Value::closure(2)));
    assert!(num(1) == num(1));
    assert!(num(1) != num(2));
}

#[test]
fn equality_ignores_metadata() {
    let a = Value::List(vec![num(1)], Box::new(num(7)));
    let b = Value::List(vec![num(1)], Box::new(Value::Nil));
    assert!(equals(&a, &b));
}

#[test]
fn equality_of_maps_ignores_order() {
    let a = read_str("{:a 1 :b [2]}").unwrap();
    let b = read_str("{:b (2) :a 1}").unwrap();
    let c = read_str("{:a 1 :b [3]}").unwrap();
    let d = read_str("{:a 1}").unwrap();
    assert!(equals(&a, &b));
    assert!(!equals(&a, &c));
    assert!(!equals(&a, &d));
    assert!(!equals(&d, &a));
}

#[test]
fn equality_of_host_functions() {
    let add = HostFn::ByPtr(MalFnPtr(Builtin::Add));
    let sub = HostFn::ByPtr(MalFnPtr(Builtin::Sub));
    assert!(add == add);
    assert!(add != sub);
    assert!(HostFn::Eval(0) == HostFn::Eval(5));
    assert!(HostFn::Apply == HostFn::Apply);
    assert!(HostFn::ReadLine != HostFn::ReadLine);
    assert!(HostFn::Apply != HostFn::Eval(0));
}

#[test]
fn order_of_values() {
    assert_eq!(num(1).partial_cmp(&num(2)), Some(Ordering::Less));
    assert_eq!(num(2).partial_cmp(&num(2)), Some(Ordering::Equal));
    assert_eq!(num(3).partial_cmp(&num(2)), Some(Ordering::Greater));
    assert_eq!(num(3).partial_cmp(&Value::Nil), None);
    assert!(num(1) < num(2));
    let atoms = Vec::new();
    assert_eq!(compare_values(Relation::Less, &num(1), &num(2), &atoms).unwrap(), Value::Bool(true));
    assert_eq!(compare_values(Relation::Less, &num(2), &num(2), &atoms).unwrap(), Value::Bool(false));
    assert_eq!(compare_values(Relation::LessEq, &num(2), &num(2), &atoms).unwrap(), Value::Bool(true));
    assert_eq!(compare_values(Relation::Greater, &num(1), &num(2), &atoms).unwrap(), Value::Bool(false));
    assert_eq!(compare_values(Relation::GreaterEq, &num(3), &num(2), &atoms).unwrap(), Value::Bool(true));
    assert_eq!(
        thrown_text(compare_values(Relation::Less, &num(1), &Value::Nil, &atoms)),
        "'nil' is not a number"
    );
    assert_eq!(
        thrown_text(compare_values(Relation::Less, &Value::string("a"), &num(1), &atoms)),
        "'\"a\"' is not a number"
    );
}

#[test]
fn accessors() {
    let atoms = Vec::new();
    assert_eq!(Value::string("k").into_hash_map_key(), Ok("k".to_string()));
    assert_eq!(Value::Keyword(keyword("k")).into_hash_map_key(), Ok(keyword("k")));
    assert_eq!(num(1).into_hash_map_key(), Err(num(1)));
    assert_eq!(Value::string("k").as_hash_map_key(&atoms), Ok("k"));
    assert_eq!(
        thrown_text(num(1).as_hash_map_key(&atoms).map(|_| Value::Nil)),
        "'1' is not a hash map key (keyword or string)"
    );
    assert_eq!(Value::symbol("s").try_into_env_map_key(&atoms), Ok("s".to_string()));
    assert_eq!(
        thrown_text(num(1).try_into_env_map_key(&atoms).map(|_| Value::Nil)),
        "'1' is not a map key (symbol)"
    );
    assert_eq!(list(vec![num(1)]).into_list(), vec![num(1)]);
    assert_eq!(list(vec![num(1)]).try_as_list_or_vec(), Some(&vec![num(1)]));
    assert_eq!(num(1).try_as_list_or_vec(), None);
    assert_eq!(Value::vector(vec![num(1)]).try_into_list_or_vec(&atoms), Ok(vec![num(1)]));
    assert_eq!(
        thrown_text(num(1).try_into_list_or_vec(&atoms).map(|_| Value::Nil)),
        "'1' is not a list or vec"
    );
    assert_eq!(Value::string("s").try_as_str(&atoms), Ok("s"));
    assert_eq!(Value::string("s").try_into_string(&atoms), Ok("s".to_string()));
    assert_eq!(
        thrown_text(num(1).try_into_string(&atoms).map(|_| Value::Nil)),
        "'1' is not a string"
    );
    assert_eq!(num(4).try_as_number(), Some(4));
    assert_eq!(Value::Nil.try_as_number(), None);
    assert_eq!(read_str("{:a 1}").unwrap().try_into_map(&atoms).unwrap().len(), 1);
    assert_eq!(
        thrown_text(num(1).try_into_map(&atoms).map(|_| Value::Nil)),
        "'1' is not a hash map"
    );
}

#[test]
fn clone_copies_a_value() {
    let v = read_str("(1 [2 {:a \"s\"}] nil true x :k)").unwrap();
    let c = v.clone();
    assert_eq!(text(&c), text(&v));
    assert_eq!(c, v);
    let closure = Closure { ast: num(1), params: vec![Value::symbol("a")], env: 3, is_macro: true };
    let copy = closure.clone();
    assert_eq!(copy.env, 3);
    assert!(copy.is_macro);
    assert_eq!(copy.params, vec![Value::symbol("a")]);
}

#[test]
fn ordered_map() {
    let mut m = MalMap::new();
    assert_eq!(m.len(), 0);
    m.insert("a".to_string(), num(1));
    m.insert("b".to_string(), num(2));
    m.insert("a".to_string(), num(3));
    assert_eq!(m.len(), 2);
    assert_eq!(m.position("a"), 0);
    assert_eq!(m.position("b"), 1);
    assert_eq!(m.position("c"), 2);
    assert!(m.contains_key("a"));
    assert!(!m.contains_key("c"));
    assert_eq!(m.get("a"), Some(&num(3)));
    assert_eq!(m.remove("a"), Some(num(3)));
    assert_eq!(m.remove("a"), None);
    assert_eq!(m.len(), 1);
    assert_eq!(m.get("b"), Some(&num(2)));
}

#[test]
fn runtime_error_messages() {
    assert_eq!(RuntimeError::NotA("list".into(), "1".into()).message(), "'1' is not a list");
    assert_eq!(RuntimeError::NotFound("abc".into()).message(), "'abc' not found");
    assert_eq!(RuntimeError::DivisionByZero.message(), "division by zero");
    assert_eq!(RuntimeError::Overflow.message(), "integer overflow");
    assert_eq!(
        RuntimeError::OutOfBounds(1, 5).message(),
        "index out of bounds: length is 1, got 5"
    );
    assert_eq!(
        RuntimeError::OutOfBounds(3, -2).message(),
        "index out of bounds: length is 3, got -2"
    );
    assert_eq!(
        RuntimeError::OddArguments(3).message(),
        "expected an even number of arguments, got 3"
    );
    assert_eq!(RuntimeError::MissingArgument("nth".into()).message(), "missing argument to nth");
    assert_eq!(
        RuntimeError::Parse(ParseError::InvalidNumber).message(),
        "parsing failed: invalid number"
    );
    assert_eq!(
        RuntimeError::Io("f.mal".into(), "denied".into()).message(),
        "failed to read file f.mal: denied"
    );
    assert_eq!(RuntimeError::CyclicAtom.message(), "atom refers to itself");
    assert_eq!(RuntimeError::DivisionByZero.into_value(), Value::string("division by zero"));
    assert_eq!(out_of_bounds(2, 7), Value::string("index out of bounds: length is 2, got 7"));
    assert_eq!(
        not_a("atom", &list(vec![num(1)]), &Vec::new()),
        Value::string("'(1)' is not a atom")
    );
}

#[test]
fn environments() {
    let mut envs = vec![Env::new(None)];
    envs[0].set("a".to_string(), num(1));
    envs[0].set("b".to_string(), num(2));
    envs.push(Env::new(Some(0)));
    envs[1].set("a".to_string(), num(10));
    envs.push(Env::new(Some(1)));
    assert_eq!(envs[2].outer(), Some(1));
    assert_eq!(envs[0].outer(), None);
    assert_eq!(Env::find(&envs, 2, "a"), Some(1));
    assert_eq!(Env::find(&envs, 2, "b"), Some(0));
    assert_eq!(Env::find(&envs, 0, "a"), Some(0));
    assert_eq!(Env::find(&envs, 2, "c"), None);
    assert_eq!(Env::find(&envs, 7, "a"), None);
    assert_eq!(Env::get(&envs, 2, "a"), Ok(num(10)));
    assert_eq!(Env::get(&envs, 0, "a"), Ok(num(1)));
    assert_eq!(Env::get(&envs, 2, "b"), Ok(num(2)));
    assert_eq!(thrown_text(Env::get(&envs, 2, "c")), "'c' not found");
    envs[1].set("a".to_string(), num(11));
    assert_eq!(Env::get(&envs, 2, "a"), Ok(num(11)));
}

#[test]
fn environment_chain_that_loops_ends() {
    let envs = vec![Env::new(Some(1)), Env::new(Some(0))];
    assert_eq!(Env::find(&envs, 0, "a"), None);
}

#[test]
fn binding_parameters() {
    let atoms = Vec::new();
    let params = |src: &str| read_str(src).unwrap().into_list();
    let envs = vec![Env::new_with_binds(None, &params("(a b)"), &vec![num(1), num(2), num(3)], &atoms).unwrap()];
    assert_eq!(Env::get(&envs, 0, "a"), Ok(num(1)));
    assert_eq!(Env::get(&envs, 0, "b"), Ok(num(2)));
    let envs = vec![Env::new_with_binds(Some(4), &params("(a & r)"), &vec![num(1), num(2), num(3)], &atoms).unwrap()];
    assert_eq!(envs[0].outer(), Some(4));
    assert_eq!(Env::get(&envs, 0, "r"), Ok(list(vec![num(2), num(3)])));
    let envs = vec![Env::new_with_binds(None, &params("(& r)"), &vec![], &atoms).unwrap()];
    assert_eq!(Env::get(&envs, 0, "r"), Ok(list(vec![])));
    let envs = vec![Env::new_with_binds(None, &params("(a b & r)"), &vec![num(1), num(2)], &atoms).unwrap()];
    assert_eq!(Env::get(&envs, 0, "r"), Ok(list(vec![])));
    let e = |p: &str, a: Vec<Value>| {
        to_text(&Env::new_with_binds(None, &params(p), &a, &atoms).err().unwrap(), &atoms, false)
    };
    assert_eq!(e("(a b)", vec![num(1)]), "missing argument to b");
    assert_eq!(e("(a &)", vec![num(1)]), "missing argument to &");
    assert_eq!(e("(a 1)", vec![num(1), num(2)]), "'1' is not a map key (symbol)");
    assert_eq!(e("(& [r])", vec![]), "'[r]' is not a map key (symbol)");
}

#[test]
fn init_env_binds_every_primitive() {
    let mut env = Env::new(None);
    init_env(&mut env);
    let envs = vec![env];
    for b in Builtin::all() {
        assert_eq!(
            Env::get(&envs, 0, b.name()),
            Ok(Value::host_fn(HostFn::ByPtr(MalFnPtr(b))))
        );
    }
    assert_eq!(Builtin::all().len(), 59);
    assert_eq!(Env::get(&envs, 0, "apply"), Ok(Value::host_fn(HostFn::Apply)));
    assert_eq!(Env::get(&envs, 0, "+"), Ok(Value::host_fn(HostFn::ByPtr(MalFnPtr(Builtin::Add)))));
    assert_ne!(Env::get(&envs, 0, "+"), Env::get(&envs, 0, "-"));
}

#[test]
fn type_tests() {
    let closures = vec![
        Closure { ast: num(1), params: vec![], env: 0, is_macro: false },
        Closure { ast: num(1), params: vec![], env: 0, is_macro: true },
    ];
    assert_eq!(type_test(Builtin::IsNil, &Value::Nil, &closures), Some(true));
    assert_eq!(type_test(Builtin::IsNil, &num(0), &closures), Some(false));
    assert_eq!(type_test(Builtin::IsTrue, &Value::Bool(true), &closures), Some(true));
    assert_eq!(type_test(Builtin::IsTrue, &num(1), &closures), Some(false));
    assert_eq!(type_test(Builtin::IsFalse, &Value::Bool(false), &closures), Some(true));
    assert_eq!(type_test(Builtin::IsFalse, &Value::Nil, &closures), Some(false));
    assert_eq!(type_test(Builtin::IsSequential, &Value::vector(vec![]), &closures), Some(true));
    assert_eq!(type_test(Builtin::IsList, &Value::vector(vec![]), &closures), Some(false));
    assert_eq!(type_test(Builtin::IsVector, &Value::vector(vec![]), &closures), Some(true));
    assert_eq!(type_test(Builtin::IsFn, &Value::closure(0), &closures), Some(true));
    assert_eq!(type_test(Builtin::IsFn, &Value::closure(1), &closures), Some(false));
    assert_eq!(type_test(Builtin::IsFn, &Value::closure(2), &closures), Some(false));
    assert_eq!(type_test(Builtin::IsMacro, &Value::closure(1), &closures), Some(true));
    assert_eq!(type_test(Builtin::IsMacro, &Value::closure(0), &closures), Some(false));
    assert_eq!(type_test(Builtin::IsFn, &Value::host_fn(HostFn::Apply), &closures), Some(true));
    assert_eq!(type_test(Builtin::Add, &Value::Nil, &closures), None);
}

#[test]
fn sequence_primitives() {
    assert_eq!(ok(Builtin::List, "(1 2)"), "(1 2)");
    assert_eq!(ok(Builtin::Vector, "(1 2)"), "[1 2]");
    assert_eq!(ok(Builtin::IsEmpty, "(())"), "true");
    assert_eq!(ok(Builtin::IsEmpty, "([1])"), "false");
    assert_eq!(ok(Builtin::IsEmpty, "(5)"), "true");
    assert_eq!(ok(Builtin::Count, "((1 2 3))"), "3");
    assert_eq!(ok(Builtin::Count, "(nil)"), "0");
    assert_eq!(ok(Builtin::Cons, "(1 (2 3))"), "(1 2 3)");
    assert_eq!(ok(Builtin::Cons, "(1 [2 3])"), "(1 2 3)");
    assert_eq!(err(Builtin::Cons, "(1 2)"), "'2' is not a list or vec");
    assert_eq!(ok(Builtin::Concat, "()"), "()");
    assert_eq!(ok(Builtin::Concat, "((1) [2 3] ())"), "(1 2 3)");
    assert_eq!(err(Builtin::Concat, "((1) 2 a)"), "'2' is not a list or vec");
    assert_eq!(ok(Builtin::VecOf, "((1 2))"), "[1 2]");
    assert_eq!(err(Builtin::VecOf, "(1)"), "'1' is not a list or vec");
    assert_eq!(ok(Builtin::Nth, "((a b c) 1)"), "b");
    assert_eq!(ok(Builtin::Nth, "([a b c] 0)"), "a");
    assert_eq!(ok(Builtin::Nth, "(nil 4)"), "nil");
    assert_eq!(ok(Builtin::Nth, "(nil)"), "nil");
    assert_eq!(err(Builtin::Nth, "((a) 1)"), "index out of bounds: length is 1, got 1");
    assert_eq!(err(Builtin::Nth, "((a) x)"), "'x' is not a number");
    assert_eq!(err(Builtin::Nth, "(7 0)"), "'7' is not a list");
    assert_eq!(err(Builtin::Nth, "((a))"), "missing argument to nth");
    assert_eq!(ok(Builtin::First, "((a b))"), "a");
    assert_eq!(ok(Builtin::First, "(())"), "nil");
    assert_eq!(ok(Builtin::First, "(nil)"), "nil");
    assert_eq!(err(Builtin::First, "(1)"), "'1' is not a list");
    assert_eq!(ok(Builtin::Rest, "((a b c))"), "(b c)");
    assert_eq!(ok(Builtin::Rest, "([a])"), "()");
    assert_eq!(ok(Builtin::Rest, "(())"), "()");
    assert_eq!(ok(Builtin::Rest, "(nil)"), "()");
    assert_eq!(err(Builtin::Rest, "(1)"), "'1' is not a list");
    assert_eq!(ok(Builtin::SeqOf, "((1 2))"), "(1 2)");
    assert_eq!(ok(Builtin::SeqOf, "([1 2])"), "(1 2)");
    assert_eq!(ok(Builtin::SeqOf, "(\"ab\")"), "(\"a\" \"b\")");
    assert_eq!(ok(Builtin::SeqOf, "(\"\")"), "nil");
    assert_eq!(ok(Builtin::SeqOf, "(())"), "nil");
    assert_eq!(ok(Builtin::SeqOf, "([])"), "nil");
    assert_eq!(ok(Builtin::SeqOf, "(nil)"), "nil");
    assert_eq!(err(Builtin::SeqOf, "(1)"), "'1' is not a valid argument for seq");
    assert_eq!(ok(Builtin::Conj, "((1 2) 3 4)"), "(4 3 1 2)");
    assert_eq!(ok(Builtin::Conj, "([1 2] 3 4)"), "[1 2 3 4]");
    assert_eq!(ok(Builtin::Conj, "([1])"), "[1]");
    assert_eq!(err(Builtin::Conj, "(1 2)"), "'1' is not a list or vec");
}

#[test]
fn map_primitives() {
    assert_eq!(ok(Builtin::MakeHashMap, "(:a 1 \"b\" 2)"), "{:a 1 \"b\" 2}");
    assert_eq!(ok(Builtin::MakeHashMap, "()"), "{}");
    assert_eq!(err(Builtin::MakeHashMap, "(:a)"), "expected an even number of arguments, got 1");
    assert_eq!(err(Builtin::MakeHashMap, "(1 2)"), "'1' is not a hash map key (keyword or string)");
    assert_eq!(ok(Builtin::Assoc, "({:a 1} :b 2 :a 3)"), "{:a 3 :b 2}");
    assert_eq!(ok(Builtin::Assoc, "({:a 1})"), "{:a 1}");
    assert_eq!(err(Builtin::Assoc, "({:a 1} :b)"), "expected an even number of arguments, got 1");
    assert_eq!(err(Builtin::Assoc, "(1 :b 2)"), "'1' is not a hash map");
    assert_eq!(ok(Builtin::Dissoc, "({:a 1 :b 2 :c 3} :a :c :z)"), "{:b 2}");
    assert_eq!(ok(Builtin::Dissoc, "({:a 1} :a)"), "{}");
    assert_eq!(ok(Builtin::Dissoc, "({:a 1})"), "{:a 1}");
    assert_eq!(err(Builtin::Dissoc, "({:a 1} 5)"), "'5' is not a hash map key (keyword or string)");
    assert_eq!(ok(Builtin::Get, "({:a 1} :a)"), "1");
    assert_eq!(ok(Builtin::Get, "({:a 1} \"a\")"), "nil");
    assert_eq!(ok(Builtin::Get, "(nil :a)"), "nil");
    assert_eq!(err(Builtin::Get, "(1 :a)"), "'1' is not a hash map");
    assert_eq!(err(Builtin::Get, "({:a 1})"), "missing argument to get");
    assert_eq!(ok(Builtin::Contains, "({:a 1} :a)"), "true");
    assert_eq!(ok(Builtin::Contains, "({:a 1} :b)"), "false");
    assert_eq!(ok(Builtin::Keys, "({:a 1 \"b\" 2})"), "(:a \"b\")");
    assert_eq!(ok(Builtin::Vals, "({:a 1 \"b\" (2)})"), "(1 (2))");
    assert_eq!(ok(Builtin::IsHashMap, "({})"), "true");
    assert_eq!(err(Builtin::Keys, "((1))"), "'(1)' is not a hash map");
}

#[test]
fn other_primitives() {
    assert_eq!(ok(Builtin::Add, "(1 2)"), "3");
    assert_eq!(ok(Builtin::Sub, "(1 2)"), "-1");
    assert_eq!(ok(Builtin::Mul, "(3 4)"), "12");
    assert_eq!(ok(Builtin::Div, "(9 2)"), "4");
    assert_eq!(ok(Builtin::Add, "(1 2 3)"), "3");
    assert_eq!(ok(Builtin::Equal, "((1 2) [1 2])"), "true");
    assert_eq!(ok(Builtin::Less, "(1 2)"), "true");
    assert_eq!(ok(Builtin::Greater, "(1 2)"), "false");
    assert_eq!(ok(Builtin::LessEq, "(2 2)"), "true");
    assert_eq!(ok(Builtin::GreaterEq, "(1 2)"), "false");
    assert_eq!(err(Builtin::Less, "(a 2)"), "'a' is not a number");
    assert_eq!(ok(Builtin::PrStr, "(\"a\" 1 (b))"), "\"\\\"a\\\" 1 (b)\"");
    assert_eq!(ok(Builtin::PrStr, "()"), "\"\"");
    assert_eq!(ok(Builtin::Str, "(\"a\" 1 (b \"c\"))"), "\"a1(b c)\"");
    assert_eq!(ok(Builtin::Str, "()"), "\"\"");
    assert_eq!(ok(Builtin::ReadString, "(\"(1 2)\")"), "(1 2)");
    assert_eq!(ok(Builtin::ReadString, "(\"  \")"), "nil");
    assert_eq!(err(Builtin::ReadString, "(\"(1\")"), "parsing failed: unexpected end of input");
    assert_eq!(err(Builtin::ReadString, "(5)"), "'5' is not a string");
    assert_eq!(ok(Builtin::Symbol, "(\"ab\")"), "ab");
    assert_eq!(err(Builtin::Symbol, "(1)"), "'1' is not a string");
    assert_eq!(ok(Builtin::Keyword, "(\"ab\")"), ":ab");
    assert_eq!(ok(Builtin::Keyword, "(:ab)"), ":ab");
    assert_eq!(call(Builtin::Keyword, "(\"ab\")").unwrap(), read_str(":ab").unwrap());
    assert_eq!(err(Builtin::Keyword, "(1)"), "'1' is not a string or keyword");
    assert_eq!(ok(Builtin::IsKeyword, "(:a)"), "true");
    assert_eq!(ok(Builtin::IsSymbol, "(a)"), "true");
    assert_eq!(ok(Builtin::IsString, "(\"a\")"), "true");
    assert_eq!(ok(Builtin::IsString, "(:a)"), "false");
    assert_eq!(ok(Builtin::IsNumber, "(1)"), "true");
    assert_eq!(call(Builtin::Throw, "((1 2))").unwrap_err(), list(vec![num(1), num(2)]));
    assert_eq!(ok(Builtin::Meta, "((1))"), "nil");
    assert_eq!(ok(Builtin::WithMeta, "([1] {:a 1})"), "[1]");
    assert_eq!(
        text(&call_builtin(
            Builtin::Meta,
            &vec![call(Builtin::WithMeta, "([1] {:a 1})").unwrap()],
            &mut Vec::new(),
            &Vec::new()
        ).unwrap().unwrap()),
        "{:a 1}"
    );
    assert_eq!(err(Builtin::Meta, "(1)"), "'1' is not a value with metadata (list, vec or function)");
    assert_eq!(err(Builtin::WithMeta, "(1 2)"), "'1' is not a value with metadata (list, vec or function)");
    assert_eq!(err(Builtin::WithMeta, "((1))"), "missing argument to with-meta");
    assert_eq!(ensure_even_args(4), Ok(()));
    assert_eq!(
        ensure_even_args(5),
        Err(Value::string("expected an even number of arguments, got 5"))
    );
}

#[test]
fn atom_primitives() {
    let mut atoms = vec![num(1)];
    let closures = Vec::new();
    let a = call_builtin(Builtin::Atom, &vec![num(7)], &mut atoms, &closures).unwrap().unwrap();
    assert!(matches!(a, Value::Atom(1)));
    assert_eq!(atoms, vec![num(1), num(7)]);
    assert_eq!(call_builtin(Builtin::Deref, &vec![Value::Atom(1)], &mut atoms, &closures), Some(Ok(num(7))));
    assert_eq!(
        call_builtin(Builtin::Reset, &vec![Value::Atom(0), num(9)], &mut atoms, &closures),
        Some(Ok(num(9)))
    );
    assert_eq!(atoms, vec![num(9), num(7)]);
    assert_eq!(
        thrown_text(call_builtin(Builtin::Deref, &vec![num(3)], &mut atoms, &closures).unwrap()),
        "'3' is not a atom"
    );
    assert_eq!(
        thrown_text(call_builtin(Builtin::Reset, &vec![Value::Atom(5), num(1)], &mut atoms, &closures).unwrap()),
        "'(atom ...)' is not a atom"
    );
    assert_eq!(
        thrown_text(call_builtin(Builtin::Reset, &vec![Value::Atom(0)], &mut atoms, &closures).unwrap()),
        "missing argument to reset!"
    );
    assert_eq!(atoms, vec![num(9), num(7)]);
}

#[test]
fn primitives_that_need_the_evaluator_are_not_called() {
    let mut atoms = Vec::new();
    for b in [Builtin::Prn, Builtin::Println, Builtin::Slurp, Builtin::TimeMs, Builtin::Swap, Builtin::MapOver] {
        assert!(b.needs_machine());
        assert_eq!(call_builtin(b, &vec![num(1)], &mut atoms, &Vec::new()), None);
    }
    assert!(!Builtin::Add.needs_machine());
    assert_eq!(Builtin::Add.arity(), 2);
    assert_eq!(Builtin::First.arity(), 1);
    assert_eq!(Builtin::List.arity(), 0);
}

#[test]
fn quasiquote_rewrites() {
    let q = |src: &str| text(&quasiquote(&read_str(src).unwrap()).unwrap());
    assert_eq!(q("1"), "1");
    assert_eq!(q("a"), "(quote a)");
    assert_eq!(q("{:a b}"), "(quote {:a b})");
    assert_eq!(q("()"), "()");
    assert_eq!(q("(unquote x)"), "x");
    assert_eq!(q("(unquote x y)"), "x");
    assert_eq!(q("(a)"), "(cons (quote a) ())");
    assert_eq!(q("(1 (unquote b) (splice-unquote c))"), "(cons 1 (cons b (concat c ())))");
    assert_eq!(q("[a (unquote b)]"), "(vec (cons (quote a) (cons b ())))");
    assert_eq!(q("[unquote b]"), "(vec (cons (quote unquote) (cons (quote b) ())))");
    assert_eq!(q("((1 (unquote x)))"), "(cons (cons 1 (cons x ())) ())");
    let e = |src: &str| to_text(&quasiquote(&read_str(src).unwrap()).unwrap_err(), &Vec::new(), false);
    assert_eq!(e("(unquote)"), "missing argument to unquote");
    assert_eq!(e("(a (splice-unquote))"), "missing argument to splice-unquote");
}
