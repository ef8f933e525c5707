//! The runtime values of the language and their mathematical model.
//!
//! Values are plain trees. The three kinds of shared, mutable or
//! identity-carrying objects (environments, atoms and closures) live in
//! growing tables and are named in values by their index.

use vstd::prelude::*;
use vstd::string::StringExecFns;
use crate::runtime_errors::{not_a, thrown, thrown_not_a, RuntimeErr, RuntimeError, RuntimeResult};

verus! {

/// The primitive functions that the host offers to programs.
#[derive(Clone, Copy, Debug, PartialEq, Eq, Structural)]
pub enum Builtin {
    Add,
    Sub,
    Mul,
    Div,
    PrStr,
    Str,
    Prn,
    Println,
    List,
    IsList,
    IsEmpty,
    Count,
    Equal,
    Less,
    Greater,
    LessEq,
    GreaterEq,
    ReadString,
    Slurp,
    Atom,
    IsAtom,
    Deref,
    Reset,
    Swap,
    Cons,
    Concat,
    VecOf,
    Nth,
    First,
    Rest,
    Throw,
    MapOver,
    IsNil,
    IsTrue,
    IsFalse,
    IsSymbol,
    Symbol,
    Keyword,
    IsKeyword,
    Vector,
    IsVector,
    IsSequential,
    MakeHashMap,
    IsHashMap,
    Assoc,
    Dissoc,
    Get,
    Contains,
    Keys,
    Vals,
    TimeMs,
    Meta,
    WithMeta,
    IsFn,
    IsString,
    IsNumber,
    IsMacro,
    SeqOf,
    Conj,
}

/// A primitive function, named by what it does.
#[derive(Clone, Copy, Debug)]
pub struct MalFnPtr(pub Builtin);

/// A callable that the host implements.
#[derive(Clone, Copy, Debug)]
pub enum HostFn {
    /// A primitive function.
    ByPtr(MalFnPtr),
    /// Evaluation in the environment with the given index.
    Eval(usize),
    /// The marker of `apply`.
    Apply,
    /// The host's line reader.
    ReadLine,
}

/// Metadata attached to a value.
pub type Meta = Box<Value>;

/// A mapping from string keys to values that remembers the order in which
/// the keys first came.
#[derive(Debug)]
pub struct MalMap {
    pub entries: Vec<(String, Value)>,
}

/// A runtime value.
#[derive(Debug)]
pub enum Value {
    List(Vec<Value>, Meta),
    Vec(Vec<Value>, Meta),
    HashMap(MalMap, Meta),
    Number(i32),
    Symbol(String),
    Keyword(String),
    String(String),
    HostFn(HostFn, Meta),
    /// A user-defined function, by its index in the table of closures.
    Closure(usize, Meta),
    Nil,
    Bool(bool),
    /// A mutable cell, by its index in the table of atoms.
    Atom(usize),
}

/// A user-defined function.
#[derive(Debug)]
pub struct Closure {
    pub ast: Value,
    pub params: Vec<Value>,
    pub env: usize,
    pub is_macro: bool,
}

/// Mathematical model of a runtime value.
pub ghost enum V {
    List(Seq<V>, Box<V>),
    Vector(Seq<V>, Box<V>),
    Table(Seq<(Seq<char>, V)>, Box<V>),
    Number(int),
    Symbol(Seq<char>),
    Keyword(Seq<char>),
    Str(Seq<char>),
    HostFn(HostFn, Box<V>),
    Closure(nat, Box<V>),
    Nil,
    Bool(bool),
    Atom(nat),
}

/// Mathematical model of a user-defined function.
pub ghost struct ClosureModel {
    pub ast: V,
    pub params: Seq<V>,
    pub env: nat,
    pub is_macro: bool,
}

/// The models of a sequence of values.
pub open spec fn view_seq(s: Seq<Value>) -> Seq<V>
    decreases s, 1int,
{
    Seq::new(
        s.len(),
        |i: int|
            if 0 <= i < s.len() {
                view_value(s[i])
            } else {
                V::Nil
            },
    )
}

/// The models of the entries of a map.
pub open spec fn view_entries(s: Seq<(String, Value)>) -> Seq<(Seq<char>, V)>
    decreases s, 1int,
{
    Seq::new(
        s.len(),
        |i: int|
            if 0 <= i < s.len() {
                (s[i].0@, view_value(s[i].1))
            } else {
                (Seq::empty(), V::Nil)
            },
    )
}

/// The model of a value.
pub open spec fn view_value(v: Value) -> V
    decreases v, 0int,
{
    match v {
        Value::List(l, m) => V::List(view_seq(l@), Box::new(view_value(*m))),
        Value::Vec(l, m) => V::Vector(view_seq(l@), Box::new(view_value(*m))),
        Value::HashMap(t, m) => V::Table(view_entries(t.entries@), Box::new(view_value(*m))),
        Value::Number(n) => V::Number(n as int),
        Value::Symbol(s) => V::Symbol(s@),
        Value::Keyword(s) => V::Keyword(s@),
        Value::String(s) => V::Str(s@),
        Value::HostFn(f, m) => V::HostFn(f, Box::new(view_value(*m))),
        Value::Closure(c, m) => V::Closure(c as nat, Box::new(view_value(*m))),
        Value::Nil => V::Nil,
        Value::Bool(b) => V::Bool(b),
        Value::Atom(a) => V::Atom(a as nat),
    }
}

/// The model of a sequence of values holds the model of each, in order.
pub broadcast proof fn lemma_view_seq(s: Seq<Value>)
    ensures
        #![trigger view_seq(s)]
        view_seq(s).len() == s.len(),
        forall|i: int| 0 <= i < s.len() ==> (#[trigger] view_seq(s)[i]) == s[i]@,
{
}

/// The model of the entries of a map holds the model of each, in order.
pub broadcast proof fn lemma_view_entries(s: Seq<(String, Value)>)
    ensures
        #![trigger view_entries(s)]
        view_entries(s).len() == s.len(),
        forall|i: int|
            0 <= i < s.len() ==> (#[trigger] view_entries(s)[i]) == (s[i].0@, s[i].1@),
{
}

pub broadcast group group_view {
    lemma_view_seq,
    lemma_view_entries,
}

impl View for Value {
    type V = V;

    open spec fn view(&self) -> V {
        view_value(*self)
    }
}

impl View for MalMap {
    type V = Seq<(Seq<char>, V)>;

    open spec fn view(&self) -> Seq<(Seq<char>, V)> {
        view_entries(self.entries@)
    }
}

impl View for Closure {
    type V = ClosureModel;

    open spec fn view(&self) -> ClosureModel {
        ClosureModel {
            ast: self.ast@,
            params: view_seq(self.params@),
            env: self.env as nat,
            is_macro: self.is_macro,
        }
    }
}

/// A copy of a sequence of values.
pub fn clone_values(l: &Vec<Value>) -> (r: Vec<Value>)
    ensures
        view_seq(r@) == view_seq(l@),
    decreases l, 1int,
{
    let mut out: Vec<Value> = Vec::new();
    let mut i: usize = 0;
    while i < l.len()
        invariant
            i <= l.len(),
            out.len() == i,
            forall|j: int| 0 <= j < i ==> out[j]@ == l[j]@,
        decreases l.len() - i,
    {
        let c = l[i].clone();
        out.push(c);
        i += 1;
    }
    assert(view_seq(out@) =~= view_seq(l@));
    out
}

impl Clone for MalMap {
    fn clone(&self) -> (r: Self)
        ensures
            r@ == self@,
        decreases self, 1int,
    {
        let mut out: Vec<(String, Value)> = Vec::new();
        let mut i: usize = 0;
        while i < self.entries.len()
            invariant
                i <= self.entries.len(),
                out.len() == i,
                forall|j: int|
                    0 <= j < i ==> out[j].0@ == self.entries[j].0@ && out[j].1@
                        == self.entries[j].1@,
            decreases self.entries.len() - i,
        {
            let k = self.entries[i].0.clone();
            let c = self.entries[i].1.clone();
            out.push((k, c));
            i += 1;
        }
        assert(view_entries(out@) =~= view_entries(self.entries@));
        MalMap { entries: out }
    }
}

impl Clone for Value {
    fn clone(&self) -> (r: Self)
        ensures
            r@ == self@,
        decreases self, 0int,
    {
        match self {
            Value::List(l, m) => {
                let items = clone_values(l);
                let meta = (&**m).clone();
                Value::List(items, Box::new(meta))
            },
            Value::Vec(l, m) => {
                let items = clone_values(l);
                let meta = (&**m).clone();
                Value::Vec(items, Box::new(meta))
            },
            Value::HashMap(t, m) => {
                let table = t.clone();
                let meta = (&**m).clone();
                Value::HashMap(table, Box::new(meta))
            },
            Value::Number(n) => Value::Number(*n),
            Value::Symbol(s) => Value::Symbol(s.clone()),
            Value::Keyword(s) => Value::Keyword(s.clone()),
            Value::String(s) => Value::String(s.clone()),
            Value::HostFn(f, m) => {
                let meta = (&**m).clone();
                Value::HostFn(*f, Box::new(meta))
            },
            Value::Closure(c, m) => {
                let meta = (&**m).clone();
                Value::Closure(*c, Box::new(meta))
            },
            Value::Nil => Value::Nil,
            Value::Bool(b) => Value::Bool(*b),
            Value::Atom(a) => Value::Atom(*a),
        }
    }
}

impl Clone for Closure {
    fn clone(&self) -> (r: Self)
        ensures
            r@ == self@,
    {
        Closure {
            ast: self.ast.clone(),
            params: clone_values(&self.params),
            env: self.env,
            is_macro: self.is_macro,
        }
    }
}

/// The first position from `i` on at which `entries` holds the key `k`, or
/// the length of `entries` where there is none.
pub open spec fn find_key_from(entries: Seq<(Seq<char>, V)>, k: Seq<char>, i: int) -> int
    decreases entries.len() - i,
{
    if i < 0 || i >= entries.len() {
        entries.len() as int
    } else if entries[i].0 == k {
        i
    } else {
        find_key_from(entries, k, i + 1)
    }
}

/// The first position at which `entries` holds the key `k`, or the length of
/// `entries` where there is none.
pub open spec fn find_key(entries: Seq<(Seq<char>, V)>, k: Seq<char>) -> int {
    find_key_from(entries, k, 0)
}

/// Whether `entries` holds the key `k`.
pub open spec fn has_key(entries: Seq<(Seq<char>, V)>, k: Seq<char>) -> bool {
    find_key(entries, k) < entries.len()
}

/// The entries after `k` is given the value `v`: in the place of the first
/// entry with that key, or at the end.
pub open spec fn entries_insert(entries: Seq<(Seq<char>, V)>, k: Seq<char>, v: V) -> Seq<
    (Seq<char>, V),
> {
    let i = find_key(entries, k);
    if i < entries.len() {
        entries.update(i, (k, v))
    } else {
        entries.push((k, v))
    }
}

/// The entries without the first one that has the key `k`.
pub open spec fn entries_remove(entries: Seq<(Seq<char>, V)>, k: Seq<char>) -> Seq<
    (Seq<char>, V),
> {
    let i = find_key(entries, k);
    if i < entries.len() {
        entries.remove(i)
    } else {
        entries
    }
}

/// The value that `entries` gives to the key `k`.
pub open spec fn entries_get(entries: Seq<(Seq<char>, V)>, k: Seq<char>) -> Option<V> {
    let i = find_key(entries, k);
    if i < entries.len() {
        Some(entries[i].1)
    } else {
        None
    }
}

/// Where a search from `i` ends: within bounds, at the key if it ends before
/// the end, and past entries that all have another key.
pub proof fn lemma_find_key_from(entries: Seq<(Seq<char>, V)>, k: Seq<char>, i: int)
    requires
        0 <= i <= entries.len(),
    ensures
        i <= find_key_from(entries, k, i) <= entries.len(),
        find_key_from(entries, k, i) < entries.len() ==> entries[find_key_from(entries, k, i)].0
            == k,
        forall|j: int| i <= j < find_key_from(entries, k, i) ==> (#[trigger] entries[j]).0 != k,
    decreases entries.len() - i,
{
    if i < entries.len() && entries[i].0 != k {
        lemma_find_key_from(entries, k, i + 1);
    }
}

/// The metadata of a value that has none.
pub open spec fn no_meta() -> Box<V> {
    Box::new(V::Nil)
}

impl Value {
    /// The list of `items`, without metadata.
    pub fn list(items: Vec<Value>) -> (r: Value)
        ensures
            r@ == V::List(view_seq(items@), no_meta()),
    {
        reveal_with_fuel(view_value, 2);
        Value::List(items, Box::new(Value::Nil))
    }

    /// The vector of `items`, without metadata.
    pub fn vector(items: Vec<Value>) -> (r: Value)
        ensures
            r@ == V::Vector(view_seq(items@), no_meta()),
    {
        reveal_with_fuel(view_value, 2);
        Value::Vec(items, Box::new(Value::Nil))
    }

    /// The map value of `map`, without metadata.
    pub fn hash_map(map: MalMap) -> (r: Value)
        ensures
            r@ == V::Table(map@, no_meta()),
    {
        reveal_with_fuel(view_value, 2);
        Value::HashMap(map, Box::new(Value::Nil))
    }

    /// The value of a host callable, without metadata.
    pub fn host_fn(f: HostFn) -> (r: Value)
        ensures
            r@ == V::HostFn(f, no_meta()),
    {
        reveal_with_fuel(view_value, 2);
        Value::HostFn(f, Box::new(Value::Nil))
    }

    /// The value of the closure with the index `id`, without metadata.
    pub fn closure(id: usize) -> (r: Value)
        ensures
            r@ == V::Closure(id as nat, no_meta()),
    {
        reveal_with_fuel(view_value, 2);
        Value::Closure(id, Box::new(Value::Nil))
    }

    /// The symbol with the name `name`.
    pub fn symbol(name: &str) -> (r: Value)
        ensures
            r@ == V::Symbol(name@),
    {
        Value::Symbol(String::from_str(name))
    }

    /// The string with the content `s`.
    pub fn string(s: &str) -> (r: Value)
        ensures
            r@ == V::Str(s@),
    {
        Value::String(String::from_str(s))
    }

    /// The key that this value gives in a map: the content of a string or the
    /// internal name of a keyword. Any other value comes back as it is.
    pub fn into_hash_map_key(self) -> (r: Result<String, Value>)
        ensures
            match r {
                Ok(s) => self@ == V::Keyword(s@) || self@ == V::Str(s@),
                Err(v) => v@ == self@ && !(self@ is Keyword) && !(self@ is Str),
            },
    {
        match self {
            Value::Keyword(s) => Ok(s),
            Value::String(s) => Ok(s),
            v => Err(v),
        }
    }
}

impl MalMap {
    /// A map without entries.
    pub fn new() -> (m: Self)
        ensures
            m@ == Seq::<(Seq<char>, V)>::empty(),
    {
        let m = MalMap { entries: Vec::new() };
        assert(m@ =~= Seq::<(Seq<char>, V)>::empty());
        m
    }

    /// The number of entries.
    pub fn len(&self) -> (n: usize)
        ensures
            n == self@.len(),
    {
        self.entries.len()
    }

    /// The position of the first entry with the key `key`, or the number of
    /// entries where there is none.
    pub fn position(&self, key: &str) -> (i: usize)
        ensures
            i == find_key(self@, key@),
            i <= self.entries.len(),
            self@.len() == self.entries.len(),
    {
        let mut i: usize = 0;
        while i < self.entries.len()
            invariant
                i <= self.entries.len(),
                self@.len() == self.entries.len(),
                find_key_from(self@, key@, i as int) == find_key(self@, key@),
            decreases self.entries.len() - i,
        {
            if crate::text::str_eq(self.entries[i].0.as_str(), key) {
                return i;
            }
            i += 1;
        }
        i
    }

    /// Whether the map holds the key `key`.
    pub fn contains_key(&self, key: &str) -> (r: bool)
        ensures
            r == has_key(self@, key@),
    {
        self.position(key) < self.entries.len()
    }

    /// The value of the key `key`.
    pub fn get(&self, key: &str) -> (r: Option<&Value>)
        ensures
            match r {
                Some(v) => entries_get(self@, key@) == Some(v@),
                None => entries_get(self@, key@) is None,
            },
    {
        let i = self.position(key);
        if i < self.entries.len() {
            Some(&self.entries[i].1)
        } else {
            None
        }
    }

    /// Gives the key `key` the value `value`: in the place of the first entry
    /// with that key, or at the end.
    pub fn insert(&mut self, key: String, value: Value)
        ensures
            final(self)@ == entries_insert(old(self)@, key@, value@),
    {
        let i = self.position(key.as_str());
        if i < self.entries.len() {
            self.entries[i] = (key, value);
            assert(self@ =~= entries_insert(old(self)@, key@, value@));
        } else {
            self.entries.push((key, value));
            assert(self@ =~= entries_insert(old(self)@, key@, value@));
        }
    }

    /// Takes out the first entry with the key `key`, and hands back its
    /// value.
    pub fn remove(&mut self, key: &str) -> (r: Option<Value>)
        ensures
            final(self)@ == entries_remove(old(self)@, key@),
            match r {
                Some(v) => entries_get(old(self)@, key@) == Some(v@),
                None => entries_get(old(self)@, key@) is None,
            },
    {
        let i = self.position(key);
        if i < self.entries.len() {
            let e = self.entries.remove(i);
            assert(self@ =~= entries_remove(old(self)@, key@));
            Some(e.1)
        } else {
            None
        }
    }
}

/// The items of a list or a vector.
pub open spec fn seq_items(v: V) -> Option<Seq<V>> {
    match v {
        V::List(x, _) => Some(x),
        V::Vector(x, _) => Some(x),
        _ => None,
    }
}

/// The key that a value gives in a map: the content of a string or the
/// internal name of a keyword.
pub open spec fn hash_map_key(v: V) -> Option<Seq<char>> {
    match v {
        V::Keyword(s) => Some(s),
        V::Str(s) => Some(s),
        _ => None,
    }
}

/// What is found behind a value by opening atoms as long as the value is
/// one, at most `fuel` times. There is nothing where the chain is longer
/// or leaves the table.
pub open spec fn deref_chain(v: V, atoms: Seq<V>, fuel: nat) -> Option<V>
    decreases fuel,
{
    match v {
        V::Atom(a) => if fuel == 0 || a >= atoms.len() {
            None
        } else {
            deref_chain(atoms[a as int], atoms, (fuel - 1) as nat)
        },
        _ => Some(v),
    }
}

/// The quotient of two integers, rounded towards zero.
pub open spec fn trunc_div(x: int, y: int) -> int {
    if x >= 0 {
        if y > 0 {
            x / y
        } else {
            -(x / (-y))
        }
    } else {
        if y > 0 {
            -((-x) / y)
        } else {
            (-x) / (-y)
        }
    }
}

/// Whether an integer is a number of the language.
pub open spec fn fits(n: int) -> bool {
    i32::MIN <= n <= i32::MAX
}

/// The number `n`, or the overflow error where it does not fit.
pub open spec fn number_or_overflow(n: int) -> Result<V, V> {
    if fits(n) {
        Ok(V::Number(n))
    } else {
        Err(thrown(RuntimeErr::Overflow))
    }
}

/// The four operations of arithmetic.
#[derive(Clone, Copy, Debug, PartialEq, Eq, Structural)]
pub enum ArithOp {
    Add,
    Sub,
    Mul,
    Div,
}

/// The result of an operation on two numbers.
pub open spec fn number_op(op: ArithOp, x: int, y: int) -> Result<V, V> {
    match op {
        ArithOp::Add => number_or_overflow(x + y),
        ArithOp::Sub => number_or_overflow(x - y),
        ArithOp::Mul => number_or_overflow(x * y),
        ArithOp::Div => if y == 0 {
            Err(thrown(RuntimeErr::DivisionByZero))
        } else {
            number_or_overflow(trunc_div(x, y))
        },
    }
}

/// The result of an operation of arithmetic on two values: atoms are opened
/// first, and both must then be numbers.
pub open spec fn arith_spec(op: ArithOp, a: V, b: V, atoms: Seq<V>) -> Result<V, V> {
    match deref_chain(a, atoms, atoms.len()) {
        None => Err(thrown(RuntimeErr::CyclicAtom)),
        Some(x) => match deref_chain(b, atoms, atoms.len()) {
            None => Err(thrown(RuntimeErr::CyclicAtom)),
            Some(y) => match x {
                V::Number(m) => match y {
                    V::Number(n) => number_op(op, m, n),
                    _ => Err(thrown_not_a("number"@, y, atoms)),
                },
                _ => Err(thrown_not_a("number"@, x, atoms)),
            },
        },
    }
}

/// Whether an exec result is the one that the model gives.
pub open spec fn result_is(r: RuntimeResult<Value>, m: Result<V, V>) -> bool {
    match r {
        Ok(v) => m == Ok::<V, V>(v@),
        Err(e) => m == Err::<V, V>(e@),
    }
}

fn checked_number(n: i64) -> (r: RuntimeResult<Value>)
    ensures
        result_is(r, number_or_overflow(n as int)),
{
    if -0x8000_0000 <= n && n <= 0x7fff_ffff {
        Ok(Value::Number(n as i32))
    } else {
        Err(RuntimeError::Overflow.into_value())
    }
}

fn number_div(x: i32, y: i32) -> (r: RuntimeResult<Value>)
    ensures
        result_is(r, number_op(ArithOp::Div, x as int, y as int)),
{
    if y == 0 {
        return Err(RuntimeError::DivisionByZero.into_value());
    }
    let ux: u64 = if x < 0 {
        (-(x as i64)) as u64
    } else {
        x as u64
    };
    let uy: u64 = if y < 0 {
        (-(y as i64)) as u64
    } else {
        y as u64
    };
    let q: u64 = ux / uy;
    assert(q <= ux) by (nonlinear_arith)
        requires
            q == ux / uy,
            uy > 0,
    ;
    let signed: i64 = if (x < 0) != (y < 0) {
        -(q as i64)
    } else {
        q as i64
    };
    checked_number(signed)
}

impl Value {
    /// The key that this value gives in a map, by reference.
    pub fn as_hash_map_key<'a>(&'a self, atoms: &Vec<Value>) -> (r: RuntimeResult<&'a str>)
        ensures
            match r {
                Ok(s) => hash_map_key(self@) == Some(s@),
                Err(e) => hash_map_key(self@) is None && e@ == thrown_not_a(
                    "hash map key (keyword or string)"@,
                    self@,
                    view_seq(atoms@),
                ),
            },
    {
        match self {
            Value::Keyword(s) => Ok(s.as_str()),
            Value::String(s) => Ok(s.as_str()),
            v => Err(not_a("hash map key (keyword or string)", v, atoms)),
        }
    }

    /// The name of this symbol.
    pub fn try_into_env_map_key(self, atoms: &Vec<Value>) -> (r: RuntimeResult<String>)
        ensures
            match r {
                Ok(s) => self@ == V::Symbol(s@),
                Err(e) => !(self@ is Symbol) && e@ == thrown_not_a(
                    "map key (symbol)"@,
                    self@,
                    view_seq(atoms@),
                ),
            },
    {
        match self {
            Value::Symbol(s) => Ok(s),
            v => Err(not_a("map key (symbol)", &v, atoms)),
        }
    }

    /// The items of this list.
    pub fn into_list(self) -> (r: Vec<Value>)
        requires
            self@ is List,
        ensures
            seq_items(self@) == Some(view_seq(r@)),
    {
        match self {
            Value::List(l, _) => l,
            _ => Vec::new(),
        }
    }

    /// The items of this list or vector, by reference.
    pub fn try_as_list_or_vec(&self) -> (r: Option<&Vec<Value>>)
        ensures
            match r {
                Some(l) => seq_items(self@) == Some(view_seq(l@)) && view_seq(l@).len() == l.len(),
                None => seq_items(self@) is None,
            },
    {
        match self {
            Value::List(l, _) => Some(l),
            Value::Vec(l, _) => Some(l),
            _ => None,
        }
    }

    /// The items of this list or vector.
    pub fn try_into_list_or_vec(self, atoms: &Vec<Value>) -> (r: RuntimeResult<Vec<Value>>)
        ensures
            match r {
                Ok(l) => seq_items(self@) == Some(view_seq(l@)) && view_seq(l@).len() == l.len(),
                Err(e) => seq_items(self@) is None && e@ == thrown_not_a(
                    "list or vec"@,
                    self@,
                    view_seq(atoms@),
                ),
            },
    {
        match self {
            Value::List(l, _) => Ok(l),
            Value::Vec(l, _) => Ok(l),
            v => Err(not_a("list or vec", &v, atoms)),
        }
    }

    /// The content of this string, by reference.
    pub fn try_as_str<'a>(&'a self, atoms: &Vec<Value>) -> (r: RuntimeResult<&'a str>)
        ensures
            match r {
                Ok(s) => self@ == V::Str(s@),
                Err(e) => !(self@ is Str) && e@ == thrown_not_a(
                    "string"@,
                    self@,
                    view_seq(atoms@),
                ),
            },
    {
        match self {
            Value::String(s) => Ok(s.as_str()),
            v => Err(not_a("string", v, atoms)),
        }
    }

    /// The content of this string.
    pub fn try_into_string(self, atoms: &Vec<Value>) -> (r: RuntimeResult<String>)
        ensures
            match r {
                Ok(s) => self@ == V::Str(s@),
                Err(e) => !(self@ is Str) && e@ == thrown_not_a(
                    "string"@,
                    self@,
                    view_seq(atoms@),
                ),
            },
    {
        match self {
            Value::String(s) => Ok(s),
            v => Err(not_a("string", &v, atoms)),
        }
    }

    /// This number.
    pub fn try_as_number(&self) -> (r: Option<i32>)
        ensures
            match r {
                Some(n) => self@ == V::Number(n as int),
                None => !(self@ is Number),
            },
    {
        match self {
            Value::Number(n) => Some(*n),
            _ => None,
        }
    }

    /// The entries of this map.
    pub fn try_into_map(self, atoms: &Vec<Value>) -> (r: RuntimeResult<MalMap>)
        ensures
            match r {
                Ok(m) => self@ is Table && self@->Table_0 == m@,
                Err(e) => !(self@ is Table) && e@ == thrown_not_a(
                    "hash map"@,
                    self@,
                    view_seq(atoms@),
                ),
            },
    {
        match self {
            Value::HashMap(m, _) => Ok(m),
            v => Err(not_a("hash map", &v, atoms)),
        }
    }

    /// What is found behind this value by opening atoms as long as it is
    /// one. A chain of more atoms than the table holds does not end, and
    /// gives none.
    pub fn deref_atom_recursively(self, atoms: &Vec<Value>) -> (r: Option<Value>)
        ensures
            match r {
                Some(v) => deref_chain(self@, view_seq(atoms@), atoms.len() as nat) == Some(v@),
                None => deref_chain(self@, view_seq(atoms@), atoms.len() as nat) is None,
            },
    {
        let mut current = self;
        let mut fuel: usize = atoms.len();
        loop
            invariant
                fuel <= atoms.len(),
                deref_chain(current@, view_seq(atoms@), fuel as nat) == deref_chain(
                    self@,
                    view_seq(atoms@),
                    atoms.len() as nat,
                ),
            decreases fuel,
        {
            broadcast use group_view;

            match current {
                Value::Atom(a) => {
                    if fuel == 0 || a >= atoms.len() {
                        return None;
                    }
                    current = atoms[a].clone();
                    fuel -= 1;
                },
                v => {
                    return Some(v);
                },
            }
        }
    }

    fn arith(self, op: ArithOp, rhs: Self, atoms: &Vec<Value>) -> (r: RuntimeResult<Value>)
        ensures
            result_is(r, arith_spec(op, self@, rhs@, view_seq(atoms@))),
    {
        let x = match self.deref_atom_recursively(atoms) {
            Some(x) => x,
            None => {
                return Err(RuntimeError::CyclicAtom.into_value());
            },
        };
        let y = match rhs.deref_atom_recursively(atoms) {
            Some(y) => y,
            None => {
                return Err(RuntimeError::CyclicAtom.into_value());
            },
        };
        match x {
            Value::Number(m) => match y {
                Value::Number(n) => match op {
                    ArithOp::Add => checked_number(m as i64 + n as i64),
                    ArithOp::Sub => checked_number(m as i64 - n as i64),
                    ArithOp::Mul => {
                        assert(-0x8000_0000 * 0x8000_0000 <= (m as int) * (n as int)
                            <= 0x8000_0000 * 0x8000_0000) by (nonlinear_arith)
                            requires
                                -0x8000_0000 <= m as int <= 0x7fff_ffff,
                                -0x8000_0000 <= n as int <= 0x7fff_ffff,
                        ;
                        checked_number((m as i64) * (n as i64))
                    },
                    ArithOp::Div => number_div(m, n),
                },
                other => Err(not_a("number", &other, atoms)),
            },
            other => Err(not_a("number", &other, atoms)),
        }
    }

    /// The sum of two numbers, atoms opened first.
    pub fn add(self, rhs: Self, atoms: &Vec<Value>) -> (r: RuntimeResult<Value>)
        ensures
            result_is(r, arith_spec(ArithOp::Add, self@, rhs@, view_seq(atoms@))),
    {
        self.arith(ArithOp::Add, rhs, atoms)
    }

    /// The difference of two numbers, atoms opened first.
    pub fn sub(self, rhs: Self, atoms: &Vec<Value>) -> (r: RuntimeResult<Value>)
        ensures
            result_is(r, arith_spec(ArithOp::Sub, self@, rhs@, view_seq(atoms@))),
    {
        self.arith(ArithOp::Sub, rhs, atoms)
    }

    /// The product of two numbers, atoms opened first.
    pub fn mul(self, rhs: Self, atoms: &Vec<Value>) -> (r: RuntimeResult<Value>)
        ensures
            result_is(r, arith_spec(ArithOp::Mul, self@, rhs@, view_seq(atoms@))),
    {
        self.arith(ArithOp::Mul, rhs, atoms)
    }

    /// The quotient of two numbers, rounded towards zero, atoms opened
    /// first.
    pub fn div(self, rhs: Self, atoms: &Vec<Value>) -> (r: RuntimeResult<Value>)
        ensures
            result_is(r, arith_spec(ArithOp::Div, self@, rhs@, view_seq(atoms@))),
    {
        self.arith(ArithOp::Div, rhs, atoms)
    }
}

} // verus!
