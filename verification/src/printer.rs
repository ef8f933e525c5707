//! The printer: from a value to its text.

use vstd::prelude::*;
use vstd::string::StringExecFns;
use crate::text::{chars_of, push_signed_decimal, signed_decimal};
use crate::value::{view_seq, MalMap, V, Value};

verus! {

/// The character that marks a string as the name of a keyword.
pub const KEYWORD_PREFIX: char = '\u{29e}';

/// The text that stands for one character inside a quoted string.
pub open spec fn escape_char(c: char) -> Seq<char> {
    if c == '\\' {
        seq!['\\', '\\']
    } else if c == '"' {
        seq!['\\', '"']
    } else if c == '\n' {
        seq!['\\', 'n']
    } else {
        seq![c]
    }
}

/// The characters of `s` with backslash, double quote and newline escaped.
pub open spec fn escape(s: Seq<char>) -> Seq<char>
    decreases s.len(),
{
    if s.len() == 0 {
        Seq::empty()
    } else {
        escape(s.drop_last()) + escape_char(s.last())
    }
}

/// A string as source text: escaped and between double quotes.
pub open spec fn quoted(s: Seq<char>) -> Seq<char> {
    seq!['"'] + escape(s) + seq!['"']
}

/// Whether a string is the internal name of a keyword.
pub open spec fn is_keyword_name(s: Seq<char>) -> bool {
    s.len() > 0 && s[0] == KEYWORD_PREFIX
}

/// A keyword's internal name without its marker.
pub open spec fn strip_keyword(s: Seq<char>) -> Seq<char> {
    if is_keyword_name(s) {
        s.drop_first()
    } else {
        s
    }
}

/// The text of a map key: a keyword without its marker, any other key as a
/// quoted string.
pub open spec fn pr_key(k: Seq<char>) -> Seq<char> {
    if is_keyword_name(k) {
        k.drop_first()
    } else {
        quoted(k)
    }
}

/// The text of the first `n` of `items`, separated by single spaces.
pub open spec fn pr_seq(items: Seq<V>, atoms: Seq<V>, readably: bool, fuel: nat, n: nat) -> Seq<
    char,
>
    decreases fuel, items, n,
{
    if n == 0 || n > items.len() {
        Seq::empty()
    } else if n == 1 {
        pr_spec(items[0], atoms, readably, fuel)
    } else {
        pr_seq(items, atoms, readably, fuel, (n - 1) as nat) + seq![' '] + pr_spec(
            items[n - 1],
            atoms,
            readably,
            fuel,
        )
    }
}

/// The text of the first `n` of `entries`, each a key and its value.
pub open spec fn pr_entries(
    entries: Seq<(Seq<char>, V)>,
    atoms: Seq<V>,
    readably: bool,
    fuel: nat,
    n: nat,
) -> Seq<char>
    decreases fuel, entries, n,
{
    if n == 0 || n > entries.len() {
        Seq::empty()
    } else if n == 1 {
        pr_key(entries[0].0) + seq![' '] + pr_spec(entries[0].1, atoms, readably, fuel)
    } else {
        pr_entries(entries, atoms, readably, fuel, (n - 1) as nat) + seq![' '] + pr_key(
            entries[n - 1].0,
        ) + seq![' '] + pr_spec(entries[n - 1].1, atoms, readably, fuel)
    }
}

/// The text of a value. `readably` asks for strings as source text. An atom
/// shows what it holds; `fuel` bounds how many atoms are opened one inside
/// the other, and an atom beyond that bound, or one that is not in `atoms`,
/// shows as `(atom ...)`.
pub open spec fn pr_spec(v: V, atoms: Seq<V>, readably: bool, fuel: nat) -> Seq<char>
    decreases fuel, v, 0nat,
{
    match v {
        V::Number(n) => signed_decimal(n),
        V::Symbol(name) => name,
        V::List(items, _) => seq!['('] + pr_seq(items, atoms, readably, fuel, items.len())
            + seq![')'],
        V::Vector(items, _) => seq!['['] + pr_seq(items, atoms, readably, fuel, items.len())
            + seq![']'],
        V::Keyword(name) => strip_keyword(name),
        V::Str(s) => if readably {
            quoted(s)
        } else {
            s
        },
        V::Table(entries, _) => seq!['{'] + pr_entries(
            entries,
            atoms,
            readably,
            fuel,
            entries.len(),
        ) + seq!['}'],
        V::HostFn(_, _) => "#<function>"@,
        V::Closure(_, _) => "#<function>"@,
        V::Nil => "nil"@,
        V::Bool(b) => if b {
            "true"@
        } else {
            "false"@
        },
        V::Atom(a) => if fuel > 0 && a < atoms.len() {
            "(atom "@ + pr_spec(atoms[a as int], atoms, readably, (fuel - 1) as nat) + seq![')']
        } else {
            "(atom ...)"@
        },
    }
}

/// Appends the escaped form of `s` to `out`.
fn push_escaped(out: &mut String, s: &str)
    ensures
        final(out)@ == old(out)@ + escape(s@),
{
    let chars = chars_of(s);
    let mut i: usize = 0;
    while i < chars.len()
        invariant
            i <= chars.len(),
            chars@ == s@,
            out@ == old(out)@ + escape(chars@.take(i as int)),
        decreases chars.len() - i,
    {
        let c = chars[i];
        proof {
            let t = chars@.take(i + 1);
            assert(t.drop_last() =~= chars@.take(i as int));
            assert(t.last() == c);
        }
        let ghost before = out@;
        if c == '\\' {
            out.push('\\');
            out.push('\\');
        } else if c == '"' {
            out.push('\\');
            out.push('"');
        } else if c == '\n' {
            out.push('\\');
            out.push('n');
        } else {
            out.push(c);
        }
        assert(out@ =~= before + escape_char(c));
        assert(out@ =~= old(out)@ + escape(chars@.take(i + 1)));
        i += 1;
    }
    assert(chars@.take(i as int) =~= s@);
}

/// Appends `s` as source text to `out`.
fn push_quoted(out: &mut String, s: &str)
    ensures
        final(out)@ == old(out)@ + quoted(s@),
{
    out.push('"');
    push_escaped(out, s);
    out.push('"');
    assert(final(out)@ =~= old(out)@ + quoted(s@));
}

/// Appends a keyword's internal name without its marker to `out`.
fn push_stripped(out: &mut String, s: &str)
    ensures
        final(out)@ == old(out)@ + strip_keyword(s@),
{
    let chars = chars_of(s);
    let mut i: usize = if chars.len() > 0 && chars[0] == KEYWORD_PREFIX {
        1
    } else {
        0
    };
    let ghost start = i;
    while i < chars.len()
        invariant
            start <= i <= chars.len(),
            out@ == old(out)@ + chars@.subrange(start as int, i as int),
        decreases chars.len() - i,
    {
        out.push(chars[i]);
        i += 1;
        assert(out@ =~= old(out)@ + chars@.subrange(start as int, i as int));
    }
    assert(chars@.subrange(start as int, i as int) =~= strip_keyword(s@));
}

/// Appends the text of a map key to `out`.
fn push_key(out: &mut String, k: &str)
    ensures
        final(out)@ == old(out)@ + pr_key(k@),
{
    let chars = chars_of(k);
    if chars.len() > 0 && chars[0] == KEYWORD_PREFIX {
        push_stripped(out, k);
    } else {
        push_quoted(out, k);
    }
}

/// Appends the text of `list`, its items separated by single spaces.
fn write_list(list: &Vec<Value>, atoms: &Vec<Value>, out: &mut String, readably: bool, fuel: usize)
    ensures
        final(out)@ == old(out)@ + pr_seq(
            view_seq(list@),
            view_seq(atoms@),
            readably,
            fuel as nat,
            list.len() as nat,
        ),
    decreases fuel, list, 1nat,
{
    let mut i: usize = 0;
    assert(out@ =~= old(out)@ + Seq::<char>::empty());
    while i < list.len()
        invariant
            i <= list.len(),
            out@ == old(out)@ + pr_seq(
                view_seq(list@),
                view_seq(atoms@),
                readably,
                fuel as nat,
                i as nat,
            ),
        decreases list.len() - i,
    {
        let ghost before = out@;
        if i != 0 {
            out.push(' ');
        }
        pr_str_bounded(&list[i], atoms, out, readably, fuel);
        i += 1;
        assert(out@ =~= old(out)@ + pr_seq(
            view_seq(list@),
            view_seq(atoms@),
            readably,
            fuel as nat,
            i as nat,
        ));
    }
}

/// Appends the text of the entries of `map`.
fn write_map(map: &MalMap, atoms: &Vec<Value>, out: &mut String, readably: bool, fuel: usize)
    ensures
        final(out)@ == old(out)@ + pr_entries(
            map@,
            view_seq(atoms@),
            readably,
            fuel as nat,
            map@.len(),
        ),
    decreases fuel, map, 1nat,
{
    let mut i: usize = 0;
    assert(out@ =~= old(out)@ + Seq::<char>::empty());
    while i < map.entries.len()
        invariant
            i <= map.entries.len(),
            map@.len() == map.entries.len(),
            out@ == old(out)@ + pr_entries(map@, view_seq(atoms@), readably, fuel as nat, i as nat),
        decreases map.entries.len() - i,
    {
        if i != 0 {
            out.push(' ');
        }
        push_key(out, map.entries[i].0.as_str());
        out.push(' ');
        pr_str_bounded(&map.entries[i].1, atoms, out, readably, fuel);
        i += 1;
        assert(out@ =~= old(out)@ + pr_entries(
            map@,
            view_seq(atoms@),
            readably,
            fuel as nat,
            i as nat,
        ));
    }
}

/// Appends the text of `value` to `out`, opening at most `fuel` atoms one
/// inside the other.
pub fn pr_str_bounded(
    value: &Value,
    atoms: &Vec<Value>,
    out: &mut String,
    readably: bool,
    fuel: usize,
)
    ensures
        final(out)@ == old(out)@ + pr_spec(value@, view_seq(atoms@), readably, fuel as nat),
    decreases fuel, value, 0nat,
{
    match value {
        Value::Number(n) => push_signed_decimal(out, *n),
        Value::Symbol(name) => out.append(name.as_str()),
        Value::List(list, _) => {
            out.push('(');
            write_list(list, atoms, out, readably, fuel);
            out.push(')');
            assert(final(out)@ =~= old(out)@ + pr_spec(
                value@,
                view_seq(atoms@),
                readably,
                fuel as nat,
            ));
        },
        Value::Vec(list, _) => {
            out.push('[');
            write_list(list, atoms, out, readably, fuel);
            out.push(']');
            assert(final(out)@ =~= old(out)@ + pr_spec(
                value@,
                view_seq(atoms@),
                readably,
                fuel as nat,
            ));
        },
        Value::Keyword(name) => push_stripped(out, name.as_str()),
        Value::String(s) => {
            if readably {
                push_quoted(out, s.as_str());
            } else {
                out.append(s.as_str());
            }
        },
        Value::HashMap(map, _) => {
            out.push('{');
            write_map(map, atoms, out, readably, fuel);
            out.push('}');
            assert(final(out)@ =~= old(out)@ + pr_spec(
                value@,
                view_seq(atoms@),
                readably,
                fuel as nat,
            ));
        },
        Value::HostFn(_, _) => out.append("#<function>"),
        Value::Closure(_, _) => out.append("#<function>"),
        Value::Nil => out.append("nil"),
        Value::Bool(b) => {
            if *b {
                out.append("true");
            } else {
                out.append("false");
            }
        },
        Value::Atom(a) => {
            if fuel > 0 && *a < atoms.len() {
                out.append("(atom ");
                pr_str_bounded(&atoms[*a], atoms, out, readably, fuel - 1);
                out.push(')');
                assert(final(out)@ =~= old(out)@ + pr_spec(
                    value@,
                    view_seq(atoms@),
                    readably,
                    fuel as nat,
                ));
            } else {
                out.append("(atom ...)");
            }
        },
    }
}

/// Appends the text of `value` to `out`: strings as source text when
/// `readably` is set, else as they are. An atom shows what it holds, as far
/// as the atoms in the table can be nested without a cycle.
pub fn pr_str(value: &Value, atoms: &Vec<Value>, out: &mut String, readably: bool)
    ensures
        final(out)@ == old(out)@ + pr_spec(
            value@,
            view_seq(atoms@),
            readably,
            atoms.len() as nat,
        ),
{
    pr_str_bounded(value, atoms, out, readably, atoms.len())
}

/// The text of `value` as a new string.
pub fn to_text(value: &Value, atoms: &Vec<Value>, readably: bool) -> (r: String)
    ensures
        r@ == pr_spec(value@, view_seq(atoms@), readably, atoms.len() as nat),
{
    let mut out = String::new();
    pr_str(value, atoms, &mut out, readably);
    assert(out@ =~= pr_spec(value@, view_seq(atoms@), readably, atoms.len() as nat));
    out
}

/// The text of the first `n` of `items`, one after the other.
pub open spec fn pr_concat(items: Seq<V>, atoms: Seq<V>, readably: bool, fuel: nat, n: nat) -> Seq<
    char,
>
    decreases n,
{
    if n == 0 || n > items.len() {
        Seq::empty()
    } else {
        pr_concat(items, atoms, readably, fuel, (n - 1) as nat) + pr_spec(
            items[n - 1],
            atoms,
            readably,
            fuel,
        )
    }
}

/// The text of `items`, separated by single spaces.
pub fn text_joined(items: &Vec<Value>, atoms: &Vec<Value>, readably: bool) -> (r: String)
    ensures
        r@ == pr_seq(
            view_seq(items@),
            view_seq(atoms@),
            readably,
            atoms.len() as nat,
            items.len() as nat,
        ),
{
    let mut out = String::new();
    write_list(items, atoms, &mut out, readably, atoms.len());
    assert(out@ =~= pr_seq(
        view_seq(items@),
        view_seq(atoms@),
        readably,
        atoms.len() as nat,
        items.len() as nat,
    ));
    out
}

/// The text of `items`, one after the other.
pub fn text_concat(items: &Vec<Value>, atoms: &Vec<Value>, readably: bool) -> (r: String)
    ensures
        r@ == pr_concat(
            view_seq(items@),
            view_seq(atoms@),
            readably,
            atoms.len() as nat,
            items.len() as nat,
        ),
{
    let mut out = String::new();
    let mut i: usize = 0;
    while i < items.len()
        invariant
            i <= items.len(),
            out@ == pr_concat(
                view_seq(items@),
                view_seq(atoms@),
                readably,
                atoms.len() as nat,
                i as nat,
            ),
        decreases items.len() - i,
    {
        pr_str(&items[i], atoms, &mut out, readably);
        i += 1;
    }
    out
}

} // verus!
