//! The errors that the interpreter itself raises, and the values that are
//! thrown for them.

use vstd::prelude::*;
use vstd::string::StringExecFns;
use crate::printer::{pr_spec, to_text};
use crate::reader::{parse_error_text, ParseErr, ParseError};
use crate::text::{decimal, push_decimal, push_signed_decimal, signed_decimal};
use crate::value::{view_seq, V, Value};

verus! {

/// An error that the interpreter itself raises.
#[derive(Debug, Clone, PartialEq, Eq)]
pub enum RuntimeError {
    /// A value is not of the kind that an operation asks for: the kind, and
    /// the text of the value.
    NotA(String, String),
    /// A symbol has no binding.
    NotFound(String),
    DivisionByZero,
    /// The result of an operation on numbers does not fit in a number.
    Overflow,
    /// An index is outside a sequence: the length, and the index.
    OutOfBounds(usize, i32),
    /// Keys and values do not pair up: the number of arguments.
    OddArguments(usize),
    /// A form or a function lacks an operand: its name.
    MissingArgument(String),
    /// A text could not be read.
    Parse(ParseError),
    /// A file could not be read: its name, and the host's message.
    Io(String, String),
    /// A chain of atoms that hold atoms does not end.
    CyclicAtom,
}

/// Mathematical model of a [`RuntimeError`].
pub ghost enum RuntimeErr {
    NotA(Seq<char>, Seq<char>),
    NotFound(Seq<char>),
    DivisionByZero,
    Overflow,
    OutOfBounds(nat, int),
    OddArguments(nat),
    MissingArgument(Seq<char>),
    Parse(ParseErr),
    Io(Seq<char>, Seq<char>),
    CyclicAtom,
}

impl View for RuntimeError {
    type V = RuntimeErr;

    open spec fn view(&self) -> RuntimeErr {
        match self {
            RuntimeError::NotA(kind, text) => RuntimeErr::NotA(kind@, text@),
            RuntimeError::NotFound(name) => RuntimeErr::NotFound(name@),
            RuntimeError::DivisionByZero => RuntimeErr::DivisionByZero,
            RuntimeError::Overflow => RuntimeErr::Overflow,
            RuntimeError::OutOfBounds(len, index) => RuntimeErr::OutOfBounds(
                *len as nat,
                *index as int,
            ),
            RuntimeError::OddArguments(n) => RuntimeErr::OddArguments(*n as nat),
            RuntimeError::MissingArgument(name) => RuntimeErr::MissingArgument(name@),
            RuntimeError::Parse(e) => RuntimeErr::Parse(e@),
            RuntimeError::Io(file, detail) => RuntimeErr::Io(file@, detail@),
            RuntimeError::CyclicAtom => RuntimeErr::CyclicAtom,
        }
    }
}

/// The message that describes a runtime error.
pub open spec fn runtime_error_text(e: RuntimeErr) -> Seq<char> {
    match e {
        RuntimeErr::NotA(kind, text) => seq!['\''] + text + "' is not a "@ + kind,
        RuntimeErr::NotFound(name) => seq!['\''] + name + "' not found"@,
        RuntimeErr::DivisionByZero => "division by zero"@,
        RuntimeErr::Overflow => "integer overflow"@,
        RuntimeErr::OutOfBounds(len, index) => "index out of bounds: length is "@ + decimal(len)
            + ", got "@ + signed_decimal(index),
        RuntimeErr::OddArguments(n) => "expected an even number of arguments, got "@ + decimal(n),
        RuntimeErr::MissingArgument(name) => "missing argument to "@ + name,
        RuntimeErr::Parse(e) => "parsing failed: "@ + parse_error_text(e),
        RuntimeErr::Io(file, detail) => "failed to read file "@ + file + ": "@ + detail,
        RuntimeErr::CyclicAtom => "atom refers to itself"@,
    }
}

/// The value that is thrown for a runtime error: a string with its message.
pub open spec fn thrown(e: RuntimeErr) -> V {
    V::Str(runtime_error_text(e))
}

/// The value thrown where `v` is not of the kind `kind`.
pub open spec fn thrown_not_a(kind: Seq<char>, v: V, atoms: Seq<V>) -> V {
    thrown(RuntimeErr::NotA(kind, pr_spec(v, atoms, true, atoms.len())))
}

impl RuntimeError {
    /// The message that describes this error.
    pub fn message(&self) -> (r: String)
        ensures
            r@ == runtime_error_text(self@),
    {
        match self {
            RuntimeError::NotA(kind, text) => {
                let mut s = String::new();
                s.push('\'');
                s.append(text.as_str());
                s.append("' is not a ");
                s.append(kind.as_str());
                assert(s@ =~= runtime_error_text(self@));
                s
            },
            RuntimeError::NotFound(name) => {
                let mut s = String::new();
                s.push('\'');
                s.append(name.as_str());
                s.append("' not found");
                assert(s@ =~= runtime_error_text(self@));
                s
            },
            RuntimeError::DivisionByZero => String::from_str("division by zero"),
            RuntimeError::Overflow => String::from_str("integer overflow"),
            RuntimeError::OutOfBounds(len, index) => {
                let mut s = String::from_str("index out of bounds: length is ");
                push_decimal(&mut s, *len as u64);
                s.append(", got ");
                push_signed_decimal(&mut s, *index);
                assert(s@ =~= runtime_error_text(self@));
                s
            },
            RuntimeError::OddArguments(n) => {
                let mut s = String::from_str("expected an even number of arguments, got ");
                push_decimal(&mut s, *n as u64);
                s
            },
            RuntimeError::MissingArgument(name) => {
                let mut s = String::from_str("missing argument to ");
                s.append(name.as_str());
                s
            },
            RuntimeError::Parse(e) => {
                let mut s = String::from_str("parsing failed: ");
                let detail = e.message();
                s.append(detail.as_str());
                s
            },
            RuntimeError::Io(file, detail) => {
                let mut s = String::from_str("failed to read file ");
                s.append(file.as_str());
                s.append(": ");
                s.append(detail.as_str());
                assert(s@ =~= runtime_error_text(self@));
                s
            },
            RuntimeError::CyclicAtom => String::from_str("atom refers to itself"),
        }
    }

    /// The value that is thrown for this error.
    pub fn into_value(self) -> (r: Value)
        ensures
            r@ == thrown(self@),
    {
        Value::String(self.message())
    }
}

/// What an operation of the interpreter gives: a value, or a thrown value.
pub type RuntimeResult<T> = Result<T, Value>;

/// The thrown value that says that `v` is not of the kind `kind`.
pub fn not_a(kind: &str, v: &Value, atoms: &Vec<Value>) -> (r: Value)
    ensures
        r@ == thrown_not_a(kind@, v@, view_seq(atoms@)),
{
    let text = to_text(v, atoms, true);
    RuntimeError::NotA(String::from_str(kind), text).into_value()
}

/// The thrown value that says that the function or form `name` lacks an
/// operand.
pub fn missing_argument(name: &str) -> (r: Value)
    ensures
        r@ == thrown(RuntimeErr::MissingArgument(name@)),
{
    RuntimeError::MissingArgument(String::from_str(name)).into_value()
}

/// The thrown value that says that `index` is outside a sequence of length
/// `len`.
pub fn out_of_bounds(len: usize, index: i32) -> (r: Value)
    ensures
        r@ == thrown(RuntimeErr::OutOfBounds(len as nat, index as int)),
{
    RuntimeError::OutOfBounds(len, index).into_value()
}

} // verus!
