//! What is printed reads back: the law that relates the printer and the
//! reader on plain data.

use vstd::prelude::*;
use crate::compare::{entries_within, equal_spec, seq_equal};
use crate::printer::{
    escape, escape_char, is_keyword_name, pr_entries, pr_key, pr_seq, pr_spec, quoted,
    KEYWORD_PREFIX,
};
use crate::reader::{
    map_key_of, read_entries_spec, read_form_spec, read_seq_spec, read_str_spec, Parsed,
    ParsedEntries, ParsedSeq, ParseErr,
};
use crate::text::{
    decimal, digit_char, digit_value, is_digit, is_numeral, numeral_value, parse_number_spec,
};
use crate::tokenize::{
    is_ident_spec, is_punct_spec, is_whitespace_spec, lex, lex_at, scan_ident, scan_number,
    scan_string, skip_blank, Lexed, Tok,
};
use crate::value::{entries_insert, find_key, no_meta, V};

verus! {

/// Whether the text `t` stands in the text `s` at position `p`.
pub open spec fn occurs_at(s: Seq<char>, p: int, t: Seq<char>) -> bool {
    0 <= p && p + t.len() <= s.len() && s.subrange(p, p + t.len()) == t
}

/// Whether a character ends a number or an identifier.
pub open spec fn is_delimiter(c: char) -> bool {
    is_punct_spec(c) || is_whitespace_spec(c)
}

/// Whether position `i` of the text `s` is its end or holds a character that
/// ends a number or an identifier.
pub open spec fn delimited(s: Seq<char>, i: int) -> bool {
    i >= s.len() || is_delimiter(s[i])
}

/// Whether a character is neither whitespace nor the start of a comment, so
/// that a token starts at it.
pub open spec fn starts_token(c: char) -> bool {
    !is_whitespace_spec(c) && c != ';'
}

/// A text that stands at a position holds the characters of that place.
pub proof fn lemma_occurs_index(s: Seq<char>, p: int, t: Seq<char>, j: int)
    requires
        occurs_at(s, p, t),
        0 <= j < t.len(),
    ensures
        s[p + j] == t[j],
{
    assert(s.subrange(p, p + t.len())[j] == s[p + j]);
}

/// Where two texts stand one after the other, each stands at its place.
pub proof fn lemma_occurs_split(s: Seq<char>, p: int, a: Seq<char>, b: Seq<char>)
    requires
        occurs_at(s, p, a + b),
    ensures
        occurs_at(s, p, a),
        occurs_at(s, p + a.len(), b),
{
    let ab = a + b;
    assert forall|j: int| 0 <= j < a.len() implies s.subrange(p, p + a.len())[j] == a[j] by {
        lemma_occurs_index(s, p, ab, j);
    }
    assert(s.subrange(p, p + a.len()) =~= a);
    assert forall|j: int| 0 <= j < b.len() implies s.subrange(
        p + a.len(),
        p + a.len() + b.len(),
    )[j] == b[j] by {
        lemma_occurs_index(s, p, ab, a.len() + j);
    }
    assert(s.subrange(p + a.len(), p + a.len() + b.len()) =~= b);
}

/// A token starts where neither whitespace nor a comment stands.
pub proof fn lemma_skip_blank_stays(s: Seq<char>, p: int)
    requires
        0 <= p < s.len(),
        starts_token(s[p]),
    ensures
        skip_blank(s, p) == p,
{
}

/// One space before a token is skipped.
pub proof fn lemma_skip_blank_space(s: Seq<char>, p: int)
    requires
        0 <= p,
        p + 1 < s.len(),
        s[p] == ' ',
        starts_token(s[p + 1]),
    ensures
        skip_blank(s, p) == p + 1,
{
    lemma_skip_blank_stays(s, p + 1);
}

/// A run of identifier characters that ends at a delimiter is scanned to its
/// end.
pub proof fn lemma_scan_ident_run(s: Seq<char>, i: int, e: int)
    requires
        0 <= i <= e <= s.len(),
        forall|j: int| i <= j < e ==> is_ident_spec(#[trigger] s[j]),
        delimited(s, e),
    ensures
        scan_ident(s, i) == e,
    decreases e - i,
{
    if i < e {
        lemma_scan_ident_run(s, i + 1, e);
    }
}

/// A run of digits that ends at a delimiter is scanned to its end.
pub proof fn lemma_scan_number_run(s: Seq<char>, i: int, e: int)
    requires
        0 <= i <= e <= s.len(),
        forall|j: int| i <= j < e ==> is_digit(#[trigger] s[j]),
        delimited(s, e),
    ensures
        scan_number(s, i) == Some(e),
    decreases e - i,
{
    if i < e {
        assert(is_digit(s[i]));
        lemma_scan_number_run(s, i + 1, e);
    }
}

/// Escaping goes character by character.
pub proof fn lemma_escape_concat(a: Seq<char>, b: Seq<char>)
    ensures
        escape(a + b) == escape(a) + escape(b),
    decreases b.len(),
{
    if b.len() == 0 {
        assert(a + b =~= a);
        assert(escape(a) + escape(b) =~= escape(a));
    } else {
        let ab = a + b;
        assert(ab.drop_last() =~= a + b.drop_last());
        assert(ab.last() == b.last());
        lemma_escape_concat(a, b.drop_last());
        assert(escape(ab) =~= escape(a) + escape(b));
    }
}

/// The escaped form of a text starts with the escaped form of its first
/// character.
pub proof fn lemma_escape_first(x: Seq<char>)
    requires
        x.len() > 0,
    ensures
        escape(x) == escape_char(x[0]) + escape(x.drop_first()),
{
    let head = seq![x[0]];
    assert(x =~= head + x.drop_first());
    lemma_escape_concat(head, x.drop_first());
    assert(head.drop_last() =~= Seq::<char>::empty());
    assert(escape(Seq::<char>::empty()) =~= Seq::<char>::empty());
    assert(head.last() == x[0]);
    assert(escape(head) =~= escape_char(x[0]));
}

/// The escaped form of a text, followed by a double quote, is scanned as
/// that text.
pub proof fn lemma_scan_string_escaped(s: Seq<char>, i: int, x: Seq<char>, acc: Seq<char>)
    requires
        occurs_at(s, i, escape(x) + seq!['"']),
    ensures
        scan_string(s, i, acc) == (Lexed {
            result: Ok(Tok::Str(acc + x)),
            next: i + escape(x).len() + 1,
        }),
    decreases x.len(),
{
    let t = escape(x) + seq!['"'];
    if x.len() == 0 {
        lemma_occurs_index(s, i, t, 0);
        assert(acc + x =~= acc);
    } else {
        lemma_escape_first(x);
        let c = x[0];
        let rest = x.drop_first();
        let e = escape_char(c);
        assert(t =~= e + (escape(rest) + seq!['"']));
        lemma_occurs_split(s, i, e, escape(rest) + seq!['"']);
        lemma_occurs_index(s, i, e, 0);
        if c == '\\' || c == '"' || c == '\n' {
            lemma_occurs_index(s, i, e, 1);
        }
        lemma_scan_string_escaped(s, i + e.len(), rest, acc.push(c));
        assert(acc.push(c) + rest =~= acc + x);
    }
}

/// The decimal numeral of a number is a numeral, and writes that number.
pub proof fn lemma_decimal(n: nat)
    ensures
        is_numeral(decimal(n)),
        numeral_value(decimal(n)) == n,
    decreases n,
{
    if n < 10 {
        let d = decimal(n);
        assert(d.len() == 1);
        assert(d[0] == digit_char(n as int));
        assert(d.drop_last() =~= Seq::<char>::empty());
        assert(numeral_value(d.drop_last()) == 0);
        assert(digit_value(d.last()) == n);
    } else {
        lemma_decimal(n / 10);
        let front = decimal(n / 10);
        let d = decimal(n);
        assert(d.drop_last() =~= front);
        assert(d.last() == digit_char((n % 10) as int));
        assert(digit_value(d.last()) == n % 10);
        assert forall|i: int| 0 <= i < d.len() implies is_digit(#[trigger] d[i]) by {
            if i < front.len() {
                assert(d[i] == front[i]);
            }
        }
    }
}

/// Whether a character cannot start an identifier although it can stand
/// inside one.
pub open spec fn is_prefix_char(c: char) -> bool {
    c == '~' || c == '@' || c == '^' || c == ':' || is_digit(c)
}

/// Whether a text is the name of a symbol that source text can write: a
/// non-empty run of identifier characters that starts like an identifier and
/// is none of the words `true`, `false` and `nil`.
pub open spec fn is_symbol_name(name: Seq<char>) -> bool {
    &&& name.len() > 0
    &&& forall|i: int| 0 <= i < name.len() ==> is_ident_spec(#[trigger] name[i])
    &&& !is_prefix_char(name[0])
    &&& name != "true"@
    &&& name != "false"@
    &&& name != "nil"@
}

/// Whether a text is the internal name of a keyword that source text can
/// write: the marker, a colon, and a non-empty run of identifier
/// characters.
pub open spec fn is_keyword_text(name: Seq<char>) -> bool {
    &&& name.len() > 2
    &&& name[0] == KEYWORD_PREFIX
    &&& name[1] == ':'
    &&& forall|i: int| 2 <= i < name.len() ==> is_ident_spec(#[trigger] name[i])
}

/// The place of a printed form in a text: the text `t` stands at position
/// `p`, where the blanks from `from` on end.
pub open spec fn placed(s: Seq<char>, from: int, p: int, t: Seq<char>) -> bool {
    &&& 0 <= from <= p
    &&& skip_blank(s, from) == p
    &&& t.len() > 0
    &&& occurs_at(s, p, t)
    &&& delimited(s, p + t.len())
}

/// A printed number that is not negative reads as that number.
pub proof fn lemma_read_number(s: Seq<char>, from: int, p: int, n: int)
    requires
        0 <= n <= i32::MAX,
        placed(s, from, p, decimal(n as nat)),
    ensures
        read_form_spec(s, from) == (Parsed {
            result: Ok(V::Number(n)),
            next: p + decimal(n as nat).len(),
        }),
{
    let t = decimal(n as nat);
    lemma_decimal(n as nat);
    let e = p + t.len();
    assert forall|j: int| p <= j < e implies is_digit(#[trigger] s[j]) by {
        lemma_occurs_index(s, p, t, j - p);
        assert(is_digit(t[j - p]));
    }
    assert(is_digit(s[p]));
    lemma_scan_number_run(s, p + 1, e);
    assert(s.subrange(p, e) == t);
    assert(lex_at(s, p) == (Lexed { result: Ok(Tok::Number(t)), next: e }));
    assert(parse_number_spec(t) == Some(n as i32));
}

/// A run of identifier characters that starts like an identifier is one
/// identifier token.
pub proof fn lemma_lex_ident(s: Seq<char>, from: int, p: int, name: Seq<char>)
    requires
        placed(s, from, p, name),
        forall|i: int| 0 <= i < name.len() ==> is_ident_spec(#[trigger] name[i]),
        !is_prefix_char(name[0]),
    ensures
        lex(s, from) == (Lexed { result: Ok(Tok::Ident(name)), next: p + name.len() }),
{
    let e = p + name.len();
    assert forall|j: int| p <= j < e implies is_ident_spec(#[trigger] s[j]) by {
        lemma_occurs_index(s, p, name, j - p);
        assert(is_ident_spec(name[j - p]));
    }
    assert(is_ident_spec(s[p]));
    lemma_occurs_index(s, p, name, 0);
    lemma_scan_ident_run(s, p + 1, e);
    assert(s.subrange(p, e) == name);
}

/// A printed symbol reads as that symbol.
pub proof fn lemma_read_symbol(s: Seq<char>, from: int, p: int, name: Seq<char>)
    requires
        is_symbol_name(name),
        placed(s, from, p, name),
    ensures
        read_form_spec(s, from) == (Parsed { result: Ok(V::Symbol(name)), next: p + name.len() }),
{
    lemma_lex_ident(s, from, p, name);
}

/// The printed words `nil`, `true` and `false` read as the values that they
/// name.
pub proof fn lemma_read_word(s: Seq<char>, from: int, p: int, v: V)
    requires
        v is Nil || v is Bool,
        placed(s, from, p, pr_spec(v, Seq::empty(), true, 0)),
    ensures
        read_form_spec(s, from) == (Parsed {
            result: Ok(v),
            next: p + pr_spec(v, Seq::empty(), true, 0).len(),
        }),
{
    reveal_strlit("nil");
    reveal_strlit("true");
    reveal_strlit("false");
    let name = pr_spec(v, Seq::empty(), true, 0);
    assert forall|i: int| 0 <= i < name.len() implies is_ident_spec(#[trigger] name[i]) by {}
    lemma_lex_ident(s, from, p, name);
    assert("true"@.len() == 4 && "false"@.len() == 5 && "nil"@.len() == 3);
}

/// A printed keyword reads as that keyword.
pub proof fn lemma_read_keyword(s: Seq<char>, from: int, p: int, name: Seq<char>)
    requires
        is_keyword_text(name),
        placed(s, from, p, name.drop_first()),
    ensures
        read_form_spec(s, from) == (Parsed {
            result: Ok(V::Keyword(name)),
            next: p + name.len() - 1,
        }),
{
    let t = name.drop_first();
    let e = p + t.len();
    lemma_occurs_index(s, p, t, 0);
    assert(s[p] == ':');
    assert forall|j: int| p + 1 <= j < e implies is_ident_spec(#[trigger] s[j]) by {
        lemma_occurs_index(s, p, t, j - p);
        assert(t[j - p] == name[j - p + 1]);
    }
    lemma_scan_ident_run(s, p + 1, e);
    assert(s.subrange(p, e) == t);
    assert(seq![KEYWORD_PREFIX] + t =~= name);
}

/// A printed string reads as that string.
pub proof fn lemma_read_string(s: Seq<char>, from: int, p: int, x: Seq<char>)
    requires
        placed(s, from, p, quoted(x)),
    ensures
        read_form_spec(s, from) == (Parsed { result: Ok(V::Str(x)), next: p + quoted(x).len() }),
{
    let t = quoted(x);
    let body = escape(x) + seq!['"'];
    assert(t =~= seq!['"'] + body);
    lemma_occurs_split(s, p, seq!['"'], body);
    lemma_occurs_index(s, p, seq!['"'], 0);
    lemma_scan_string_escaped(s, p + 1, x, Seq::empty());
    assert(Seq::<char>::empty() + x =~= x);
}

/// Whether a map key prints as what reads back as that key: the internal
/// name of a keyword has the form of one.
pub open spec fn is_plain_key(k: Seq<char>) -> bool {
    is_keyword_name(k) ==> is_keyword_text(k)
}

/// Whether a value is plain data that source text can write: built from
/// numbers that are not negative, strings, symbols and keywords with names
/// that source text can write, `true`, `false`, `nil`, and lists, vectors
/// and maps of such values, where no key of a map comes twice.
pub open spec fn readable(v: V) -> bool
    decreases v,
{
    match v {
        V::Number(n) => 0 <= n <= i32::MAX,
        V::Symbol(name) => is_symbol_name(name),
        V::Keyword(name) => is_keyword_text(name),
        V::Str(_) => true,
        V::Nil => true,
        V::Bool(_) => true,
        V::List(items, _) => forall|i: int| 0 <= i < items.len() ==> readable(#[trigger] items[i]),
        V::Vector(items, _) => forall|i: int|
            0 <= i < items.len() ==> readable(#[trigger] items[i]),
        V::Table(entries, _) => readable_entries(entries),
        _ => false,
    }
}

/// Whether the entries of a map are plain data: each key prints as what
/// reads back as that key, each value is plain data, and no key comes
/// twice.
pub open spec fn readable_entries(entries: Seq<(Seq<char>, V)>) -> bool
    decreases entries,
{
    &&& forall|i: int|
        0 <= i < entries.len() ==> is_plain_key((#[trigger] entries[i]).0) && readable(
            entries[i].1,
        )
    &&& forall|i: int, j: int|
        0 <= i < entries.len() && 0 <= j < entries.len() && i != j ==> (#[trigger] entries[i]).0
            != (#[trigger] entries[j]).0
}

/// The items of a sequence without their metadata.
pub open spec fn strip_items(items: Seq<V>) -> Seq<V>
    decreases items,
{
    Seq::new(
        items.len(),
        |i: int|
            if 0 <= i < items.len() {
                strip(items[i])
            } else {
                V::Nil
            },
    )
}

/// The entries of a map with their values without their metadata.
pub open spec fn strip_entries(entries: Seq<(Seq<char>, V)>) -> Seq<(Seq<char>, V)>
    decreases entries,
{
    Seq::new(
        entries.len(),
        |i: int|
            if 0 <= i < entries.len() {
                (entries[i].0, strip(entries[i].1))
            } else {
                (Seq::empty(), V::Nil)
            },
    )
}

/// A value without the metadata of its lists, vectors and maps, which the
/// printer does not show.
pub open spec fn strip(v: V) -> V
    decreases v,
{
    match v {
        V::List(items, _) => V::List(strip_items(items), no_meta()),
        V::Vector(items, _) => V::Vector(strip_items(items), no_meta()),
        V::Table(entries, _) => V::Table(strip_entries(entries), no_meta()),
        _ => v,
    }
}

/// Whether a character closes a list, a vector or a map.
pub open spec fn is_closer(c: char) -> bool {
    c == ')' || c == ']' || c == '}'
}

/// The text of plain data starts with a character at which a token starts,
/// and which closes nothing.
pub proof fn lemma_first_char(v: V, atoms: Seq<V>, fuel: nat)
    requires
        readable(v),
    ensures
        pr_spec(v, atoms, true, fuel).len() > 0,
        starts_token(pr_spec(v, atoms, true, fuel)[0]),
        !is_closer(pr_spec(v, atoms, true, fuel)[0]),
{
    reveal_strlit("nil");
    reveal_strlit("true");
    reveal_strlit("false");
    match v {
        V::Number(n) => {
            lemma_decimal(n as nat);
            assert(is_digit(decimal(n as nat)[0]));
        },
        V::Symbol(name) => {
            assert(is_ident_spec(name[0]));
        },
        V::Keyword(name) => {
            assert(name.drop_first()[0] == ':');
        },
        _ => {},
    }
}

/// A string literal is scanned as a string token, if as any.
pub proof fn lemma_scan_string_kind(s: Seq<char>, i: int, acc: Seq<char>)
    ensures
        scan_string(s, i, acc).result matches Ok(t) ==> t is Str,
    decreases s.len() - i,
{
    if 0 <= i < s.len() {
        if s[i] == '\\' {
            if i + 1 < s.len() {
                if s[i + 1] == 'n' {
                    lemma_scan_string_kind(s, i + 2, acc.push('\n'));
                } else if s[i + 1] == '\\' {
                    lemma_scan_string_kind(s, i + 2, acc.push('\\'));
                } else if s[i + 1] == '"' {
                    lemma_scan_string_kind(s, i + 2, acc.push('"'));
                }
            }
        } else if s[i] != '"' {
            lemma_scan_string_kind(s, i + 1, acc.push(s[i]));
        }
    }
}

/// A token that starts with a character that closes nothing is no closing
/// token.
pub proof fn lemma_first_token(s: Seq<char>, from: int, p: int)
    requires
        skip_blank(s, from) == p,
        0 <= p < s.len(),
        !is_closer(s[p]),
    ensures
        lex(s, from).result matches Ok(t) ==> t != Tok::RightParen && t != Tok::RightBracket && t
            != Tok::RightBrace,
{
    lemma_scan_string_kind(s, p + 1, Seq::empty());
}

/// The text of the items of a sequence from position `k` on, as it stands
/// after the items before them: each item but the very first after one
/// space.
pub open spec fn tail_from(items: Seq<V>, k: int, atoms: Seq<V>, fuel: nat) -> Seq<char>
    decreases items.len() - k,
{
    if k < 0 || k >= items.len() {
        Seq::empty()
    } else {
        (if k > 0 {
            seq![' ']
        } else {
            Seq::empty()
        }) + pr_spec(items[k], atoms, true, fuel) + tail_from(items, k + 1, atoms, fuel)
    }
}

/// The text of a sequence is the text of its first `n` items and then the
/// text of the others.
pub proof fn lemma_pr_seq_tail(items: Seq<V>, n: int, atoms: Seq<V>, fuel: nat)
    requires
        0 <= n <= items.len(),
    ensures
        pr_seq(items, atoms, true, fuel, n as nat) + tail_from(items, n, atoms, fuel) == pr_seq(
            items,
            atoms,
            true,
            fuel,
            items.len(),
        ),
    decreases items.len() - n,
{
    if n < items.len() {
        lemma_pr_seq_tail(items, n + 1, atoms, fuel);
        let a = pr_seq(items, atoms, true, fuel, n as nat);
        let t = pr_spec(items[n], atoms, true, fuel);
        let rest = tail_from(items, n + 1, atoms, fuel);
        if n == 0 {
            assert(pr_seq(items, atoms, true, fuel, 1) == t);
            assert(a + tail_from(items, n, atoms, fuel) =~= t + rest);
        } else {
            assert(pr_seq(items, atoms, true, fuel, (n + 1) as nat) == a + seq![' '] + t);
            assert(a + tail_from(items, n, atoms, fuel) =~= (a + seq![' '] + t) + rest);
        }
    } else {
        assert(pr_seq(items, atoms, true, fuel, n as nat) + tail_from(items, n, atoms, fuel)
            =~= pr_seq(items, atoms, true, fuel, items.len()));
    }
}

/// The text of a map key as the text of a value: of a keyword or of a
/// string.
pub open spec fn key_form(k: Seq<char>) -> V {
    if is_keyword_name(k) {
        V::Keyword(k)
    } else {
        V::Str(k)
    }
}

/// The text of the entries of a map from position `k` on, as it stands after
/// the entries before them.
pub open spec fn tail_entries(entries: Seq<(Seq<char>, V)>, k: int, atoms: Seq<V>, fuel: nat)
    -> Seq<char>
    decreases entries.len() - k,
{
    if k < 0 || k >= entries.len() {
        Seq::empty()
    } else {
        (if k > 0 {
            seq![' ']
        } else {
            Seq::empty()
        }) + pr_key(entries[k].0) + seq![' '] + pr_spec(entries[k].1, atoms, true, fuel)
            + tail_entries(entries, k + 1, atoms, fuel)
    }
}

/// The text of a map is the text of its first `n` entries and then the text
/// of the others.
pub proof fn lemma_pr_entries_tail(entries: Seq<(Seq<char>, V)>, n: int, atoms: Seq<V>, fuel: nat)
    requires
        0 <= n <= entries.len(),
    ensures
        pr_entries(entries, atoms, true, fuel, n as nat) + tail_entries(entries, n, atoms, fuel)
            == pr_entries(entries, atoms, true, fuel, entries.len()),
    decreases entries.len() - n,
{
    if n < entries.len() {
        lemma_pr_entries_tail(entries, n + 1, atoms, fuel);
        let a = pr_entries(entries, atoms, true, fuel, n as nat);
        let k = pr_key(entries[n].0);
        let t = pr_spec(entries[n].1, atoms, true, fuel);
        let rest = tail_entries(entries, n + 1, atoms, fuel);
        if n == 0 {
            assert(pr_entries(entries, atoms, true, fuel, 1) == k + seq![' '] + t);
            assert(a + tail_entries(entries, n, atoms, fuel) =~= (k + seq![' '] + t) + rest);
        } else {
            assert(pr_entries(entries, atoms, true, fuel, (n + 1) as nat) == a + seq![' '] + k
                + seq![' '] + t);
            assert(a + tail_entries(entries, n, atoms, fuel) =~= (a + seq![' '] + k + seq![' ']
                + t) + rest);
        }
    } else {
        assert(pr_entries(entries, atoms, true, fuel, n as nat) + tail_entries(
            entries,
            n,
            atoms,
            fuel,
        ) =~= pr_entries(entries, atoms, true, fuel, entries.len()));
    }
}

/// A key that is not among the keys of `acc` is put at the end.
pub proof fn lemma_insert_new_key(acc: Seq<(Seq<char>, V)>, k: Seq<char>, v: V)
    requires
        forall|j: int| 0 <= j < acc.len() ==> (#[trigger] acc[j]).0 != k,
    ensures
        entries_insert(acc, k, v) == acc.push((k, v)),
{
    crate::value::lemma_find_key_from(acc, k, 0);
}

/// The printed items of a sequence from position `k` on, and then the
/// closing character, read as those items.
pub proof fn lemma_read_items(
    items: Seq<V>,
    k: int,
    s: Seq<char>,
    q: int,
    close: Tok,
    acc: Seq<V>,
    atoms: Seq<V>,
    fuel: nat,
)
    requires
        forall|i: int| 0 <= i < items.len() ==> readable(#[trigger] items[i]),
        0 <= k <= items.len(),
        close == Tok::RightParen || close == Tok::RightBracket,
        occurs_at(
            s,
            q,
            tail_from(items, k, atoms, fuel) + seq![
                if close == Tok::RightParen {
                    ')'
                } else {
                    ']'
                },
            ],
        ),
    ensures
        read_seq_spec(s, q, close, acc) == (ParsedSeq {
            result: Ok(acc + strip_items(items).subrange(k, items.len() as int)),
            next: q + tail_from(items, k, atoms, fuel).len() + 1,
        }),
    decreases items, items.len() - k,
{
    let cc = if close == Tok::RightParen {
        ')'
    } else {
        ']'
    };
    let tail = tail_from(items, k, atoms, fuel);
    if k == items.len() {
        lemma_occurs_index(s, q, tail + seq![cc], 0);
        lemma_skip_blank_stays(s, q);
        assert(acc + strip_items(items).subrange(k, items.len() as int) =~= acc);
    } else {
        let space = if k > 0 {
            seq![' ']
        } else {
            Seq::<char>::empty()
        };
        let t = pr_spec(items[k], atoms, true, fuel);
        let rest = tail_from(items, k + 1, atoms, fuel);
        let p = q + space.len();
        lemma_first_char(items[k], atoms, fuel);
        assert(tail + seq![cc] =~= space + (t + (rest + seq![cc])));
        lemma_occurs_split(s, q, space, t + (rest + seq![cc]));
        lemma_occurs_split(s, p, t, rest + seq![cc]);
        lemma_occurs_index(s, p, t, 0);
        lemma_occurs_index(s, p + t.len(), rest + seq![cc], 0);
        if k > 0 {
            lemma_occurs_index(s, q, space, 0);
            lemma_skip_blank_space(s, q);
        } else {
            lemma_skip_blank_stays(s, q);
        }
        // what follows the item is a space or the closing character
        if k + 1 < items.len() {
            assert((rest + seq![cc])[0] == ' ');
        } else {
            assert(rest =~= Seq::<char>::empty());
            assert((rest + seq![cc])[0] == cc);
        }
        assert(delimited(s, p + t.len()));
        lemma_read_form(items[k], s, q, p, atoms, fuel);
        lemma_first_token(s, q, p);
        lemma_read_items(items, k + 1, s, p + t.len(), close, acc.push(strip(items[k])), atoms, fuel);
        assert(acc.push(strip(items[k])) + strip_items(items).subrange(k + 1, items.len() as int)
            =~= acc + strip_items(items).subrange(k, items.len() as int));
        assert(tail.len() == space.len() + t.len() + rest.len());
    }
}

/// Where the text of the entry at position `k` of a map stands, after the
/// entries before it: its key after a space if it is not the first entry,
/// then a space, its value, and the text of the entries after it.
pub proof fn lemma_entry_layout(
    entries: Seq<(Seq<char>, V)>,
    k: int,
    s: Seq<char>,
    q: int,
    atoms: Seq<V>,
    fuel: nat,
)
    requires
        readable_entries(entries),
        0 <= k < entries.len(),
        occurs_at(s, q, tail_entries(entries, k, atoms, fuel) + seq!['}']),
    ensures
        ({
            let p = q + if k > 0 {
                1int
            } else {
                0int
            };
            let kt = pr_key(entries[k].0);
            let t = pr_spec(entries[k].1, atoms, true, fuel);
            &&& placed(s, q, p, kt)
            &&& !is_closer(s[p])
            &&& placed(s, p + kt.len(), p + kt.len() + 1, t)
            &&& occurs_at(
                s,
                p + kt.len() + 1 + t.len(),
                tail_entries(entries, k + 1, atoms, fuel) + seq!['}'],
            )
            &&& tail_entries(entries, k, atoms, fuel).len() == p - q + kt.len() + 1 + t.len()
                + tail_entries(entries, k + 1, atoms, fuel).len()
        }),
{
    let tail = tail_entries(entries, k, atoms, fuel);
    let space = if k > 0 {
        seq![' ']
    } else {
        Seq::<char>::empty()
    };
    let key = entries[k].0;
    let value = entries[k].1;
    let kt = pr_key(key);
    let t = pr_spec(value, atoms, true, fuel);
    let rest = tail_entries(entries, k + 1, atoms, fuel);
    let p = q + space.len();
    let after_key = p + kt.len();
    let pv = after_key + 1;
    assert(is_plain_key(entries[k].0) && readable(entries[k].1));
    lemma_first_char(key_form(key), atoms, fuel);
    lemma_first_char(value, atoms, fuel);
    assert(pr_spec(key_form(key), atoms, true, fuel) == kt);
    assert(tail + seq!['}'] =~= space + (kt + (seq![' '] + (t + (rest + seq!['}'])))));
    lemma_occurs_split(s, q, space, kt + (seq![' '] + (t + (rest + seq!['}']))));
    lemma_occurs_split(s, p, kt, seq![' '] + (t + (rest + seq!['}'])));
    lemma_occurs_split(s, after_key, seq![' '], t + (rest + seq!['}']));
    lemma_occurs_split(s, pv, t, rest + seq!['}']);
    lemma_occurs_index(s, p, kt, 0);
    lemma_occurs_index(s, after_key, seq![' '], 0);
    lemma_occurs_index(s, pv, t, 0);
    lemma_occurs_index(s, pv + t.len(), rest + seq!['}'], 0);
    if k > 0 {
        lemma_occurs_index(s, q, space, 0);
        lemma_skip_blank_space(s, q);
    } else {
        lemma_skip_blank_stays(s, q);
    }
    assert(delimited(s, after_key));
    lemma_skip_blank_space(s, after_key);
    if k + 1 < entries.len() {
        assert((rest + seq!['}'])[0] == ' ');
    } else {
        assert(rest =~= Seq::<char>::empty());
        assert((rest + seq!['}'])[0] == '}');
    }
    assert(delimited(s, pv + t.len()));
    assert(tail.len() == space.len() + kt.len() + 1 + t.len() + rest.len());
}

/// Reading the entries of a map takes one entry at a time: where a key and
/// a value read well, the entries after them are read next.
pub proof fn lemma_entry_unfold(
    s: Seq<char>,
    q: int,
    acc: Seq<(Seq<char>, V)>,
    key: Seq<char>,
    after_key: int,
    value: V,
    after_value: int,
)
    requires
        read_form_spec(s, q) == (Parsed { result: Ok(key_form(key)), next: after_key }),
        q < after_key <= s.len(),
        read_form_spec(s, after_key) == (Parsed { result: Ok(value), next: after_value }),
        after_key < after_value <= s.len(),
        lex(s, q).result matches Ok(t) ==> t != Tok::RightBrace,
    ensures
        read_entries_spec(s, q, acc) == read_entries_spec(
            s,
            after_value,
            entries_insert(acc, key, value),
        ),
{
    assert(map_key_of(key_form(key)) == Ok::<Seq<char>, ParseErr>(key));
    assert(lex(s, q).result is Ok);
}

/// The printed entries of a map from position `k` on, and then the closing
/// brace, read as those entries.
pub proof fn lemma_read_entries(
    entries: Seq<(Seq<char>, V)>,
    k: int,
    s: Seq<char>,
    q: int,
    atoms: Seq<V>,
    fuel: nat,
)
    requires
        readable_entries(entries),
        0 <= k <= entries.len(),
        occurs_at(s, q, tail_entries(entries, k, atoms, fuel) + seq!['}']),
    ensures
        read_entries_spec(s, q, strip_entries(entries).subrange(0, k)) == (ParsedEntries {
            result: Ok(strip_entries(entries)),
            next: q + tail_entries(entries, k, atoms, fuel).len() + 1,
        }),
    decreases entries, entries.len() - k,
{
    let tail = tail_entries(entries, k, atoms, fuel);
    let acc = strip_entries(entries).subrange(0, k);
    if k == entries.len() {
        lemma_occurs_index(s, q, tail + seq!['}'], 0);
        lemma_skip_blank_stays(s, q);
        assert(acc =~= strip_entries(entries));
    } else {
        let key = entries[k].0;
        let value = entries[k].1;
        let kt = pr_key(key);
        let t = pr_spec(value, atoms, true, fuel);
        let p = q + if k > 0 {
            1int
        } else {
            0int
        };
        let after_key = p + kt.len();
        let pv = after_key + 1;
        let after_value = pv + t.len();
        assert(is_plain_key(entries[k].0) && readable(entries[k].1));
        lemma_entry_layout(entries, k, s, q, atoms, fuel);
        if is_keyword_name(key) {
            assert(kt == key.drop_first());
            lemma_read_keyword(s, q, p, key);
        } else {
            lemma_read_string(s, q, p, key);
        }
        lemma_first_token(s, q, p);
        lemma_read_form(value, s, after_key, pv, atoms, fuel);
        lemma_entry_unfold(s, q, acc, key, after_key, strip(value), after_value);
        assert forall|j: int| 0 <= j < acc.len() implies (#[trigger] acc[j]).0 != key by {
            assert(acc[j].0 == entries[j].0);
        }
        lemma_insert_new_key(acc, key, strip(value));
        assert(acc.push((key, strip(value))) =~= strip_entries(entries).subrange(0, k + 1));
        lemma_read_entries(entries, k + 1, s, after_value, atoms, fuel);
    }
}

/// The printed form of plain data reads as that data, without its
/// metadata.
pub proof fn lemma_read_form(v: V, s: Seq<char>, from: int, p: int, atoms: Seq<V>, fuel: nat)
    requires
        readable(v),
        placed(s, from, p, pr_spec(v, atoms, true, fuel)),
    ensures
        read_form_spec(s, from) == (Parsed {
            result: Ok(strip(v)),
            next: p + pr_spec(v, atoms, true, fuel).len(),
        }),
    decreases v, 0nat,
{
    let t = pr_spec(v, atoms, true, fuel);
    match v {
        V::Number(n) => {
            lemma_read_number(s, from, p, n);
        },
        V::Symbol(name) => {
            lemma_read_symbol(s, from, p, name);
        },
        V::Keyword(name) => {
            lemma_read_keyword(s, from, p, name);
        },
        V::Str(x) => {
            lemma_read_string(s, from, p, x);
        },
        V::Nil => {
            lemma_read_word(s, from, p, v);
        },
        V::Bool(_) => {
            lemma_read_word(s, from, p, v);
        },
        V::List(items, _) => {
            let body = pr_seq(items, atoms, true, fuel, items.len());
            assert(t =~= seq!['('] + (body + seq![')']));
            lemma_occurs_split(s, p, seq!['('], body + seq![')']);
            lemma_occurs_index(s, p, seq!['('], 0);
            lemma_pr_seq_tail(items, 0, atoms, fuel);
            assert(pr_seq(items, atoms, true, fuel, 0) + tail_from(items, 0, atoms, fuel)
                =~= tail_from(items, 0, atoms, fuel));
            lemma_read_items(items, 0, s, p + 1, Tok::RightParen, Seq::empty(), atoms, fuel);
            assert(Seq::<V>::empty() + strip_items(items).subrange(0, items.len() as int)
                =~= strip_items(items));
        },
        V::Vector(items, _) => {
            let body = pr_seq(items, atoms, true, fuel, items.len());
            assert(t =~= seq!['['] + (body + seq![']']));
            lemma_occurs_split(s, p, seq!['['], body + seq![']']);
            lemma_occurs_index(s, p, seq!['['], 0);
            lemma_pr_seq_tail(items, 0, atoms, fuel);
            assert(pr_seq(items, atoms, true, fuel, 0) + tail_from(items, 0, atoms, fuel)
                =~= tail_from(items, 0, atoms, fuel));
            lemma_read_items(items, 0, s, p + 1, Tok::RightBracket, Seq::empty(), atoms, fuel);
            assert(Seq::<V>::empty() + strip_items(items).subrange(0, items.len() as int)
                =~= strip_items(items));
        },
        V::Table(entries, _) => {
            let body = pr_entries(entries, atoms, true, fuel, entries.len());
            assert(t =~= seq!['{'] + (body + seq!['}']));
            lemma_occurs_split(s, p, seq!['{'], body + seq!['}']);
            lemma_occurs_index(s, p, seq!['{'], 0);
            lemma_pr_entries_tail(entries, 0, atoms, fuel);
            assert(pr_entries(entries, atoms, true, fuel, 0) + tail_entries(
                entries,
                0,
                atoms,
                fuel,
            ) =~= tail_entries(entries, 0, atoms, fuel));
            lemma_read_entries(entries, 0, s, p + 1, atoms, fuel);
            assert(strip_entries(entries).subrange(0, 0) =~= Seq::<(Seq<char>, V)>::empty());
        },
        _ => {},
    }
}

/// The first `n` items of a sequence of plain data, without their metadata,
/// are equal to the items themselves.
pub proof fn lemma_strip_items_equal(items: Seq<V>, n: nat)
    requires
        forall|i: int| 0 <= i < items.len() ==> readable(#[trigger] items[i]),
        n <= items.len(),
    ensures
        seq_equal(strip_items(items), items, n),
    decreases items, n,
{
    if n > 0 {
        lemma_strip_items_equal(items, (n - 1) as nat);
        lemma_strip_equal(items[n - 1]);
    }
}

/// Each of the first `n` entries of a map of plain data, without the
/// metadata of its value, is found in the map itself with an equal value.
pub proof fn lemma_strip_entries_equal(entries: Seq<(Seq<char>, V)>, n: nat)
    requires
        readable_entries(entries),
        n <= entries.len(),
    ensures
        entries_within(strip_entries(entries), entries, n),
    decreases entries, n,
{
    if n > 0 {
        lemma_strip_entries_equal(entries, (n - 1) as nat);
        let key = entries[n - 1].0;
        crate::value::lemma_find_key_from(entries, key, 0);
        let found = find_key(entries, key);
        assert(found <= n - 1) by {
            if found > n - 1 {
                assert(entries[n - 1].0 != key);
            }
        }
        assert(found == n - 1);
        assert(is_plain_key(entries[n - 1].0) && readable(entries[n - 1].1));
        lemma_strip_equal(entries[n - 1].1);
    }
}

/// Plain data without its metadata is equal to the data itself.
pub proof fn lemma_strip_equal(v: V)
    requires
        readable(v),
    ensures
        equal_spec(strip(v), v),
    decreases v, 0nat,
{
    match v {
        V::List(items, _) => {
            lemma_strip_items_equal(items, items.len());
        },
        V::Vector(items, _) => {
            lemma_strip_items_equal(items, items.len());
        },
        V::Table(entries, _) => {
            lemma_strip_entries_equal(entries, entries.len());
        },
        _ => {},
    }
}

/// What is printed reads back: for plain data `v`, the reader gives for the
/// source text of `v` a value that is equal to `v`, namely `v` without the
/// metadata of its lists, vectors and maps.
pub proof fn lemma_read_print_round_trip(v: V, atoms: Seq<V>)
    requires
        readable(v),
    ensures
        read_str_spec(pr_spec(v, atoms, true, atoms.len())) == Ok::<V, ParseErr>(strip(v)),
        equal_spec(strip(v), v),
{
    let t = pr_spec(v, atoms, true, atoms.len());
    lemma_first_char(v, atoms, atoms.len());
    lemma_skip_blank_stays(t, 0);
    assert(t.subrange(0, t.len() as int) =~= t);
    lemma_read_form(v, t, 0, 0, atoms, atoms.len());
    lemma_strip_equal(v);
    assert(lex(t, 0).result is Ok);
}

/// The first `n` items of a sequence of plain data are equal to
/// themselves.
pub proof fn lemma_items_equal_themselves(items: Seq<V>, n: nat)
    requires
        forall|i: int| 0 <= i < items.len() ==> readable(#[trigger] items[i]),
        n <= items.len(),
    ensures
        seq_equal(items, items, n),
    decreases items, n,
{
    if n > 0 {
        lemma_items_equal_themselves(items, (n - 1) as nat);
        lemma_plain_data_equals_itself(items[n - 1]);
    }
}

/// Each of the first `n` entries of a map of plain data is found in the
/// map with an equal value.
pub proof fn lemma_entries_equal_themselves(entries: Seq<(Seq<char>, V)>, n: nat)
    requires
        readable_entries(entries),
        n <= entries.len(),
    ensures
        entries_within(entries, entries, n),
    decreases entries, n,
{
    if n > 0 {
        lemma_entries_equal_themselves(entries, (n - 1) as nat);
        let key = entries[n - 1].0;
        crate::value::lemma_find_key_from(entries, key, 0);
        let found = find_key(entries, key);
        assert(found <= n - 1) by {
            if found > n - 1 {
                assert(entries[n - 1].0 != key);
            }
        }
        assert(found == n - 1);
        assert(is_plain_key(entries[n - 1].0) && readable(entries[n - 1].1));
        lemma_plain_data_equals_itself(entries[n - 1].1);
    }
}

/// Plain data is equal to itself.
pub proof fn lemma_plain_data_equals_itself(v: V)
    requires
        readable(v),
    ensures
        equal_spec(v, v),
    decreases v, 0nat,
{
    match v {
        V::List(items, _) => {
            lemma_items_equal_themselves(items, items.len());
        },
        V::Vector(items, _) => {
            lemma_items_equal_themselves(items, items.len());
        },
        V::Table(entries, _) => {
            lemma_entries_equal_themselves(entries, entries.len());
        },
        _ => {},
    }
}

/// A list and a vector of the same plain data are equal, whatever their
/// metadata.
pub proof fn lemma_list_of_plain_data_equals_vector(
    items: Seq<V>,
    list_meta: Box<V>,
    vector_meta: Box<V>,
)
    requires
        forall|i: int| 0 <= i < items.len() ==> readable(#[trigger] items[i]),
    ensures
        equal_spec(V::List(items, list_meta), V::Vector(items, vector_meta)),
        equal_spec(V::Vector(items, vector_meta), V::List(items, list_meta)),
{
    assert forall|i: int| 0 <= i < items.len() implies equal_spec(#[trigger] items[i], items[i]) by {
        lemma_plain_data_equals_itself(items[i]);
    }
    crate::compare::lemma_list_equals_vector(items, list_meta, vector_meta);
}

} // verus!
