//! The reader: from source text to a value.

use vstd::prelude::*;
use vstd::string::StringExecFns;
use crate::printer::{pr_spec, to_text};
use crate::text::{parse_number, parse_number_spec, str_eq};
use crate::tokenize::{
    lemma_skip_blank_bounds, lex, scan_ident, scan_number, scan_string, skip_blank, token_result_is,
    Tok, Token, Tokenizer,
};
use crate::value::{entries_insert, no_meta, view_seq, MalMap, V, Value};

verus! {

/// Why a text could not be read.
#[derive(Debug, Clone, PartialEq, Eq)]
pub enum ParseError {
    /// The text holds nothing but blanks and comments.
    EmptyInput,
    UnexpectedEof,
    UnterminatedString,
    EmptyKeyword,
    InvalidNumber,
    UnexpectedToken,
    InvalidStringEscape(char),
    InvalidMapKey(String),
}

/// Mathematical model of a [`ParseError`].
pub ghost enum ParseErr {
    EmptyInput,
    UnexpectedEof,
    UnterminatedString,
    EmptyKeyword,
    InvalidNumber,
    UnexpectedToken,
    InvalidStringEscape(char),
    InvalidMapKey(Seq<char>),
}

impl View for ParseError {
    type V = ParseErr;

    open spec fn view(&self) -> ParseErr {
        match self {
            ParseError::EmptyInput => ParseErr::EmptyInput,
            ParseError::UnexpectedEof => ParseErr::UnexpectedEof,
            ParseError::UnterminatedString => ParseErr::UnterminatedString,
            ParseError::EmptyKeyword => ParseErr::EmptyKeyword,
            ParseError::InvalidNumber => ParseErr::InvalidNumber,
            ParseError::UnexpectedToken => ParseErr::UnexpectedToken,
            ParseError::InvalidStringEscape(c) => ParseErr::InvalidStringEscape(*c),
            ParseError::InvalidMapKey(k) => ParseErr::InvalidMapKey(k@),
        }
    }
}

/// The message that describes a parse error.
pub open spec fn parse_error_text(e: ParseErr) -> Seq<char> {
    match e {
        ParseErr::EmptyInput => "empty input"@,
        ParseErr::UnexpectedEof => "unexpected end of input"@,
        ParseErr::UnterminatedString => "unexpected end of input"@,
        ParseErr::EmptyKeyword => "empty keyword"@,
        ParseErr::InvalidNumber => "invalid number"@,
        ParseErr::UnexpectedToken => "unexpected token"@,
        ParseErr::InvalidStringEscape(c) => "invalid string escape: \\"@.push(c),
        ParseErr::InvalidMapKey(k) => "invalid map key '"@ + k + seq!['\''],
    }
}

impl ParseError {
    /// The message that describes this error.
    pub fn message(&self) -> (r: String)
        ensures
            r@ == parse_error_text(self@),
    {
        match self {
            ParseError::EmptyInput => String::from_str("empty input"),
            ParseError::UnexpectedEof => String::from_str("unexpected end of input"),
            ParseError::UnterminatedString => String::from_str("unexpected end of input"),
            ParseError::EmptyKeyword => String::from_str("empty keyword"),
            ParseError::InvalidNumber => String::from_str("invalid number"),
            ParseError::UnexpectedToken => String::from_str("unexpected token"),
            ParseError::InvalidStringEscape(c) => {
                let mut s = String::from_str("invalid string escape: \\");
                s.push(*c);
                s
            },
            ParseError::InvalidMapKey(k) => {
                let mut s = String::from_str("invalid map key '");
                s.append(k.as_str());
                s.push('\'');
                assert(s@ =~= parse_error_text(self@));
                s
            },
        }
    }
}

/// What reading gives: what was read, or why the text could not be read.
pub type ParseResult<T> = Result<T, ParseError>;

/// What reading a form gives: the value or the error, and the position after
/// it.
pub ghost struct Parsed {
    pub result: Result<V, ParseErr>,
    pub next: int,
}

/// What reading the items of a sequence gives.
pub ghost struct ParsedSeq {
    pub result: Result<Seq<V>, ParseErr>,
    pub next: int,
}

/// What reading the entries of a map gives.
pub ghost struct ParsedEntries {
    pub result: Result<Seq<(Seq<char>, V)>, ParseErr>,
    pub next: int,
}

/// The list `(name form)`.
pub open spec fn tagged(name: Seq<char>, form: V) -> V {
    V::List(seq![V::Symbol(name), form], no_meta())
}

/// The value of a token that stands for itself.
pub open spec fn atom_of(t: Tok) -> Result<V, ParseErr> {
    match t {
        Tok::Number(digits) => match parse_number_spec(digits) {
            Some(n) => Ok(V::Number(n as int)),
            None => Err(ParseErr::InvalidNumber),
        },
        Tok::Ident(name) => if name == "true"@ {
            Ok(V::Bool(true))
        } else if name == "false"@ {
            Ok(V::Bool(false))
        } else if name == "nil"@ {
            Ok(V::Nil)
        } else {
            Ok(V::Symbol(name))
        },
        Tok::Keyword(name) => Ok(V::Keyword(name)),
        Tok::Str(s) => Ok(V::Str(s)),
        _ => Err(ParseErr::UnexpectedToken),
    }
}

/// The key that a form gives in a map literal: the content of a string or
/// the internal name of a keyword.
pub open spec fn map_key_of(form: V) -> Result<Seq<char>, ParseErr> {
    match form {
        V::Keyword(s) => Ok(s),
        V::Str(s) => Ok(s),
        _ => Err(ParseErr::InvalidMapKey(pr_spec(form, Seq::empty(), true, 0))),
    }
}

/// The form that starts at or after position `pos` of the text `s`.
pub open spec fn read_form_spec(s: Seq<char>, pos: int) -> Parsed
    decreases s.len() - pos, 0int,
{
    let l = lex(s, pos);
    match l.result {
        Err(e) => Parsed { result: Err(e), next: l.next },
        Ok(t) => if !(pos < l.next <= s.len()) {
            Parsed { result: Err(ParseErr::UnexpectedEof), next: l.next }
        } else {
            match t {
                Tok::LeftParen => {
                    let r = read_seq_spec(s, l.next, Tok::RightParen, Seq::empty());
                    match r.result {
                        Ok(items) => Parsed { result: Ok(V::List(items, no_meta())), next: r.next },
                        Err(e) => Parsed { result: Err(e), next: r.next },
                    }
                },
                Tok::LeftBracket => {
                    let r = read_seq_spec(s, l.next, Tok::RightBracket, Seq::empty());
                    match r.result {
                        Ok(items) => Parsed {
                            result: Ok(V::Vector(items, no_meta())),
                            next: r.next,
                        },
                        Err(e) => Parsed { result: Err(e), next: r.next },
                    }
                },
                Tok::LeftBrace => {
                    let r = read_entries_spec(s, l.next, Seq::empty());
                    match r.result {
                        Ok(entries) => Parsed {
                            result: Ok(V::Table(entries, no_meta())),
                            next: r.next,
                        },
                        Err(e) => Parsed { result: Err(e), next: r.next },
                    }
                },
                Tok::SingleQuote => read_tagged_spec(s, l.next, "quote"@),
                Tok::Backtick => read_tagged_spec(s, l.next, "quasiquote"@),
                Tok::Tilde => {
                    let l2 = lex(s, l.next);
                    match l2.result {
                        Err(e) => Parsed { result: Err(e), next: l2.next },
                        Ok(t2) => if t2 == Tok::At && l.next < l2.next <= s.len() {
                            read_tagged_spec(s, l2.next, "splice-unquote"@)
                        } else {
                            read_tagged_spec(s, l.next, "unquote"@)
                        },
                    }
                },
                Tok::At => read_tagged_spec(s, l.next, "deref"@),
                Tok::Hat => {
                    let second = read_form_spec(s, l.next);
                    match second.result {
                        Err(e) => Parsed { result: Err(e), next: second.next },
                        Ok(meta) => if !(l.next < second.next <= s.len()) {
                            Parsed { result: Err(ParseErr::UnexpectedEof), next: second.next }
                        } else {
                            let first = read_form_spec(s, second.next);
                            match first.result {
                                Err(e) => Parsed { result: Err(e), next: first.next },
                                Ok(form) => Parsed {
                                    result: Ok(
                                        V::List(
                                            seq![V::Symbol("with-meta"@), form, meta],
                                            no_meta(),
                                        ),
                                    ),
                                    next: first.next,
                                },
                            }
                        },
                    }
                },
                _ => Parsed { result: atom_of(t), next: l.next },
            }
        },
    }
}

/// The list `(name form)` of the form that starts at or after `pos`.
pub open spec fn read_tagged_spec(s: Seq<char>, pos: int, name: Seq<char>) -> Parsed
    decreases s.len() - pos, 1int,
{
    let r = read_form_spec(s, pos);
    match r.result {
        Ok(form) => Parsed { result: Ok(tagged(name, form)), next: r.next },
        Err(e) => Parsed { result: Err(e), next: r.next },
    }
}

/// The forms from `pos` up to the token `close`, after the forms `acc` that
/// were read before.
pub open spec fn read_seq_spec(s: Seq<char>, pos: int, close: Tok, acc: Seq<V>) -> ParsedSeq
    decreases s.len() - pos, 1int,
{
    let l = lex(s, pos);
    match l.result {
        Err(e) => ParsedSeq { result: Err(e), next: l.next },
        Ok(t) => if t == close {
            ParsedSeq { result: Ok(acc), next: l.next }
        } else {
            let f = read_form_spec(s, pos);
            match f.result {
                Err(e) => ParsedSeq { result: Err(e), next: f.next },
                Ok(v) => if !(pos < f.next <= s.len()) {
                    ParsedSeq { result: Err(ParseErr::UnexpectedEof), next: f.next }
                } else {
                    read_seq_spec(s, f.next, close, acc.push(v))
                },
            }
        },
    }
}

/// The entries from `pos` up to the closing brace, after the entries `acc`
/// that were read before. A key that comes again replaces the earlier value.
pub open spec fn read_entries_spec(s: Seq<char>, pos: int, acc: Seq<(Seq<char>, V)>)
    -> ParsedEntries
    decreases s.len() - pos, 1int,
{
    let l = lex(s, pos);
    match l.result {
        Err(e) => ParsedEntries { result: Err(e), next: l.next },
        Ok(t) => if t == Tok::RightBrace {
            ParsedEntries { result: Ok(acc), next: l.next }
        } else {
            let k = read_form_spec(s, pos);
            match k.result {
                Err(e) => ParsedEntries { result: Err(e), next: k.next },
                Ok(key_form) => match map_key_of(key_form) {
                    Err(e) => ParsedEntries { result: Err(e), next: k.next },
                    Ok(key) => if !(pos < k.next <= s.len()) {
                        ParsedEntries { result: Err(ParseErr::UnexpectedEof), next: k.next }
                    } else {
                        let v = read_form_spec(s, k.next);
                        match v.result {
                            Err(e) => ParsedEntries { result: Err(e), next: v.next },
                            Ok(value) => if !(k.next < v.next <= s.len()) {
                                ParsedEntries {
                                    result: Err(ParseErr::UnexpectedEof),
                                    next: v.next,
                                }
                            } else {
                                read_entries_spec(s, v.next, entries_insert(acc, key, value))
                            },
                        }
                    },
                },
            }
        },
    }
}

/// What reading the text `s` gives: its first form, `EmptyInput` where it
/// holds nothing but blanks and comments, or the error that was met on the
/// way. What follows the first form is not looked at.
pub open spec fn read_str_spec(s: Seq<char>) -> Result<V, ParseErr> {
    match lex(s, 0).result {
        Err(ParseErr::UnexpectedEof) => Err(ParseErr::EmptyInput),
        Err(e) => Err(e),
        Ok(_) => read_form_spec(s, 0).result,
    }
}

/// Whether a result of the reader is the one that the model gives.
pub open spec fn form_result_is(r: ParseResult<Value>, m: Result<V, ParseErr>) -> bool {
    match r {
        Ok(v) => m == Ok::<V, ParseErr>(v@),
        Err(e) => m == Err::<V, ParseErr>(e@),
    }
}

proof fn lemma_scan_ident_bounds(s: Seq<char>, i: int)
    requires
        0 <= i <= s.len(),
    ensures
        i <= scan_ident(s, i) <= s.len(),
    decreases s.len() - i,
{
    if i < s.len() && crate::tokenize::is_ident_spec(s[i]) {
        lemma_scan_ident_bounds(s, i + 1);
    }
}

proof fn lemma_scan_number_bounds(s: Seq<char>, i: int)
    requires
        0 <= i <= s.len(),
    ensures
        scan_number(s, i) matches Some(e) ==> i <= e <= s.len(),
    decreases s.len() - i,
{
    if i < s.len() && !(crate::tokenize::is_punct_spec(s[i])
        || crate::tokenize::is_whitespace_spec(s[i])) && crate::text::is_digit(s[i]) {
        lemma_scan_number_bounds(s, i + 1);
    }
}

proof fn lemma_scan_string_bounds(s: Seq<char>, i: int, acc: Seq<char>)
    requires
        0 <= i <= s.len(),
    ensures
        i <= scan_string(s, i, acc).next <= s.len(),
        scan_string(s, i, acc).result is Ok ==> i < scan_string(s, i, acc).next,
    decreases s.len() - i,
{
    if i < s.len() {
        if s[i] == '\\' {
            if i + 1 < s.len() {
                if s[i + 1] == 'n' {
                    lemma_scan_string_bounds(s, i + 2, acc.push('\n'));
                } else if s[i + 1] == '\\' {
                    lemma_scan_string_bounds(s, i + 2, acc.push('\\'));
                } else if s[i + 1] == '"' {
                    lemma_scan_string_bounds(s, i + 2, acc.push('"'));
                }
            }
        } else if s[i] != '"' {
            lemma_scan_string_bounds(s, i + 1, acc.push(s[i]));
        }
    }
}

/// Reading a token never moves backwards, and a token takes at least one
/// character.
pub proof fn lemma_lex_progress(s: Seq<char>, pos: int)
    requires
        0 <= pos <= s.len(),
    ensures
        pos <= lex(s, pos).next <= s.len(),
        lex(s, pos).result is Ok ==> pos < lex(s, pos).next,
{
    lemma_skip_blank_bounds(s, pos);
    let start = skip_blank(s, pos);
    if start < s.len() {
        lemma_scan_string_bounds(s, start + 1, Seq::empty());
        lemma_scan_ident_bounds(s, start + 1);
        lemma_scan_number_bounds(s, start + 1);
    }
}

/// A parser over a tokenizer, with one token of lookahead.
struct Reader {
    tokenizer: Tokenizer,
    next_token: Option<Token>,
    mark: Ghost<int>,
}

fn token_eq(a: &Token, b: &Token) -> (r: bool)
    ensures
        r == (a@ == b@),
{
    match (a, b) {
        (Token::String(x), Token::String(y)) => str_eq(x.as_str(), y.as_str()),
        (Token::Ident(x), Token::Ident(y)) => str_eq(x.as_str(), y.as_str()),
        (Token::Keyword(x), Token::Keyword(y)) => str_eq(x.as_str(), y.as_str()),
        (Token::Number(x), Token::Number(y)) => str_eq(x.as_str(), y.as_str()),
        (Token::LeftParen, Token::LeftParen) => true,
        (Token::RightParen, Token::RightParen) => true,
        (Token::LeftBracket, Token::LeftBracket) => true,
        (Token::RightBracket, Token::RightBracket) => true,
        (Token::LeftBrace, Token::LeftBrace) => true,
        (Token::RightBrace, Token::RightBrace) => true,
        (Token::SingleQuote, Token::SingleQuote) => true,
        (Token::Backtick, Token::Backtick) => true,
        (Token::Tilde, Token::Tilde) => true,
        (Token::At, Token::At) => true,
        (Token::Hat, Token::Hat) => true,
        _ => false,
    }
}

impl Reader {
    spec fn text(&self) -> Seq<char> {
        self.tokenizer.text()
    }

    /// The position from which the next token is read.
    spec fn pos(&self) -> int {
        self.mark@
    }

    spec fn wf(&self) -> bool {
        &&& 0 <= self.pos() <= self.text().len()
        &&& match self.next_token {
            Some(t) => lex(self.text(), self.pos()).result == Ok::<Tok, ParseErr>(t@)
                && self.tokenizer.position() == lex(self.text(), self.pos()).next,
            None => self.tokenizer.position() == self.pos(),
        }
    }

    fn new(input: &str) -> (r: ParseResult<Self>)
        ensures
            match r {
                Ok(rd) => rd.wf() && rd.text() == input@ && rd.pos() == 0 && lex(
                    input@,
                    0,
                ).result is Ok,
                Err(e) => read_str_spec(input@) == Err::<V, ParseErr>(e@),
            },
    {
        let mut tokenizer = Tokenizer::new(input);
        match tokenizer.next_token() {
            Ok(t) => Ok(Self { tokenizer, next_token: Some(t), mark: Ghost(0) }),
            Err(ParseError::UnexpectedEof) => Err(ParseError::EmptyInput),
            Err(e) => Err(e),
        }
    }

    fn next(&mut self) -> (r: ParseResult<Token>)
        requires
            old(self).wf(),
        ensures
            final(self).wf(),
            final(self).next_token is None,
            final(self).text() == old(self).text(),
            final(self).pos() == lex(old(self).text(), old(self).pos()).next,
            token_result_is(r, lex(old(self).text(), old(self).pos()).result),
    {
        proof {
            lemma_lex_progress(self.text(), self.pos());
        }
        let cached = self.next_token.take();
        let r = match cached {
            Some(t) => Ok(t),
            None => self.tokenizer.next_token(),
        };
        self.mark = Ghost(self.tokenizer.position());
        r
    }

    /// Makes sure that the next token is at hand.
    fn peek(&mut self) -> (r: ParseResult<()>)
        requires
            old(self).wf(),
        ensures
            final(self).text() == old(self).text(),
            match r {
                Ok(_) => final(self).wf() && final(self).pos() == old(self).pos()
                    && final(self).next_token is Some,
                Err(e) => lex(old(self).text(), old(self).pos()).result == Err::<Tok, ParseErr>(
                    e@,
                ),
            },
    {
        if self.next_token.is_none() {
            match self.tokenizer.next_token() {
                Ok(t) => {
                    self.next_token = Some(t);
                },
                Err(e) => {
                    return Err(e);
                },
            }
        }
        Ok(())
    }

    fn read_form(&mut self) -> (r: ParseResult<Value>)
        requires
            old(self).wf(),
        ensures
            final(self).text() == old(self).text(),
            form_result_is(r, read_form_spec(old(self).text(), old(self).pos()).result),
            r is Ok ==> final(self).wf() && final(self).pos() == read_form_spec(
                old(self).text(),
                old(self).pos(),
            ).next && old(self).pos() < final(self).pos(),
        decreases old(self).text().len() - old(self).pos(), 1int,
    {
        proof {
            lemma_lex_progress(self.text(), self.pos());
        }
        match self.peek() {
            Err(e) => {
                return Err(e);
            },
            Ok(_) => {},
        }
        match &self.next_token {
            Some(Token::LeftParen) => match self.read_list(Token::RightParen) {
                Ok(items) => Ok(Value::list(items)),
                Err(e) => Err(e),
            },
            Some(Token::LeftBracket) => match self.read_list(Token::RightBracket) {
                Ok(items) => Ok(Value::vector(items)),
                Err(e) => Err(e),
            },
            Some(Token::LeftBrace) => match self.read_map() {
                Ok(map) => Ok(Value::hash_map(map)),
                Err(e) => Err(e),
            },
            Some(Token::SingleQuote) => {
                let _ = self.next();
                self.read_reader_macro("quote")
            },
            Some(Token::Backtick) => {
                let _ = self.next();
                self.read_reader_macro("quasiquote")
            },
            Some(Token::Tilde) => {
                let _ = self.next();
                proof {
                    lemma_lex_progress(self.text(), self.pos());
                }
                match self.peek() {
                    Err(e) => {
                        return Err(e);
                    },
                    Ok(_) => {},
                }
                match &self.next_token {
                    Some(Token::At) => {
                        let _ = self.next();
                        self.read_reader_macro("splice-unquote")
                    },
                    _ => self.read_reader_macro("unquote"),
                }
            },
            Some(Token::At) => {
                let _ = self.next();
                self.read_reader_macro("deref")
            },
            Some(Token::Hat) => {
                let _ = self.next();
                let second = match self.read_form() {
                    Ok(v) => v,
                    Err(e) => {
                        return Err(e);
                    },
                };
                let first = match self.read_form() {
                    Ok(v) => v,
                    Err(e) => {
                        return Err(e);
                    },
                };
                let items = vec![Value::symbol("with-meta"), first, second];
                assert(view_seq(items@) =~= seq![V::Symbol("with-meta"@), first@, second@]);
                Ok(Value::list(items))
            },
            _ => self.read_atom(),
        }
    }

    fn read_reader_macro(&mut self, name: &str) -> (r: ParseResult<Value>)
        requires
            old(self).wf(),
        ensures
            final(self).text() == old(self).text(),
            form_result_is(r, read_tagged_spec(old(self).text(), old(self).pos(), name@).result),
            r is Ok ==> final(self).wf() && final(self).pos() == read_tagged_spec(
                old(self).text(),
                old(self).pos(),
                name@,
            ).next && old(self).pos() < final(self).pos(),
        decreases old(self).text().len() - old(self).pos(), 2int,
    {
        match self.read_form() {
            Ok(content) => {
                let items = vec![Value::symbol(name), content];
                assert(view_seq(items@) =~= seq![V::Symbol(name@), content@]);
                Ok(Value::list(items))
            },
            Err(e) => Err(e),
        }
    }

    fn read_list(&mut self, terminator: Token) -> (r: ParseResult<Vec<Value>>)
        requires
            old(self).wf(),
            old(self).next_token is Some,
        ensures
            final(self).text() == old(self).text(),
            ({
                let open = lex(old(self).text(), old(self).pos());
                let m = read_seq_spec(old(self).text(), open.next, terminator@, Seq::empty());
                match r {
                    Ok(items) => m.result == Ok::<Seq<V>, ParseErr>(view_seq(items@))
                        && final(self).wf() && final(self).pos() == m.next && old(self).pos()
                        < final(self).pos(),
                    Err(e) => m.result == Err::<Seq<V>, ParseErr>(e@),
                }
            }),
        decreases old(self).text().len() - old(self).pos(), 0int,
    {
        proof {
            lemma_lex_progress(self.text(), self.pos());
        }
        let _ = self.next();
        let ghost from = self.pos();
        let mut values: Vec<Value> = Vec::new();
        assert(view_seq(values@) =~= Seq::<V>::empty());
        loop
            invariant
                self.wf(),
                self.text() == old(self).text(),
                old(self).pos() < from <= self.pos(),
                from == lex(old(self).text(), old(self).pos()).next,
                read_seq_spec(self.text(), self.pos(), terminator@, view_seq(values@))
                    == read_seq_spec(old(self).text(), from, terminator@, Seq::empty()),
            ensures
                self.wf(),
                self.next_token is Some,
                self.text() == old(self).text(),
                old(self).pos() < from <= self.pos(),
                lex(self.text(), self.pos()).result == Ok::<Tok, ParseErr>(terminator@),
                read_seq_spec(self.text(), self.pos(), terminator@, view_seq(values@))
                    == read_seq_spec(old(self).text(), from, terminator@, Seq::empty()),
            decreases self.text().len() - self.pos(),
        {
            match self.peek() {
                Err(e) => {
                    return Err(e);
                },
                Ok(_) => {},
            }
            let done = match &self.next_token {
                Some(t) => token_eq(t, &terminator),
                None => false,
            };
            if done {
                break ;
            }
            match self.read_form() {
                Ok(v) => {
                    proof {
                        assert(view_seq(values@.push(v)) =~= view_seq(values@).push(v@));
                    }
                    values.push(v);
                },
                Err(e) => {
                    return Err(e);
                },
            }
        }
        proof {
            lemma_lex_progress(self.text(), self.pos());
        }
        let _ = self.next();
        Ok(values)
    }

    fn read_map(&mut self) -> (r: ParseResult<MalMap>)
        requires
            old(self).wf(),
            old(self).next_token is Some,
        ensures
            final(self).text() == old(self).text(),
            ({
                let open = lex(old(self).text(), old(self).pos());
                let m = read_entries_spec(old(self).text(), open.next, Seq::empty());
                match r {
                    Ok(map) => m.result == Ok::<Seq<(Seq<char>, V)>, ParseErr>(map@)
                        && final(self).wf() && final(self).pos() == m.next && old(self).pos()
                        < final(self).pos(),
                    Err(e) => m.result == Err::<Seq<(Seq<char>, V)>, ParseErr>(e@),
                }
            }),
        decreases old(self).text().len() - old(self).pos(), 0int,
    {
        proof {
            lemma_lex_progress(self.text(), self.pos());
        }
        let _ = self.next();
        let ghost from = self.pos();
        let mut map = MalMap::new();
        loop
            invariant
                self.wf(),
                self.text() == old(self).text(),
                old(self).pos() < from <= self.pos(),
                from == lex(old(self).text(), old(self).pos()).next,
                read_entries_spec(self.text(), self.pos(), map@) == read_entries_spec(
                    old(self).text(),
                    from,
                    Seq::empty(),
                ),
            ensures
                self.wf(),
                self.next_token is Some,
                self.text() == old(self).text(),
                old(self).pos() < from <= self.pos(),
                lex(self.text(), self.pos()).result == Ok::<Tok, ParseErr>(Tok::RightBrace),
                read_entries_spec(self.text(), self.pos(), map@) == read_entries_spec(
                    old(self).text(),
                    from,
                    Seq::empty(),
                ),
            decreases self.text().len() - self.pos(),
        {
            match self.peek() {
                Err(e) => {
                    return Err(e);
                },
                Ok(_) => {},
            }
            let done = match &self.next_token {
                Some(Token::RightBrace) => true,
                _ => false,
            };
            if done {
                break ;
            }
            let key_form = match self.read_form() {
                Ok(v) => v,
                Err(e) => {
                    return Err(e);
                },
            };
            let key = match key_form.into_hash_map_key() {
                Ok(k) => k,
                Err(v) => {
                    let atoms: Vec<Value> = Vec::new();
                    assert(view_seq(atoms@) =~= Seq::<V>::empty());
                    return Err(ParseError::InvalidMapKey(to_text(&v, &atoms, true)));
                },
            };
            let value = match self.read_form() {
                Ok(v) => v,
                Err(e) => {
                    return Err(e);
                },
            };
            map.insert(key, value);
        }
        proof {
            lemma_lex_progress(self.text(), self.pos());
        }
        let _ = self.next();
        Ok(map)
    }

    fn read_atom(&mut self) -> (r: ParseResult<Value>)
        requires
            old(self).wf(),
            old(self).next_token is Some,
        ensures
            final(self).wf(),
            final(self).text() == old(self).text(),
            final(self).pos() == lex(old(self).text(), old(self).pos()).next,
            lex(old(self).text(), old(self).pos()).result matches Ok(t) && form_result_is(
                r,
                atom_of(t),
            ),
    {
        let token = self.next();
        match token {
            Ok(Token::Number(n)) => match parse_number(n.as_str()) {
                Some(k) => Ok(Value::Number(k)),
                None => Err(ParseError::InvalidNumber),
            },
            Ok(Token::Ident(name)) => {
                if str_eq(name.as_str(), "true") {
                    Ok(Value::Bool(true))
                } else if str_eq(name.as_str(), "false") {
                    Ok(Value::Bool(false))
                } else if str_eq(name.as_str(), "nil") {
                    Ok(Value::Nil)
                } else {
                    Ok(Value::Symbol(name))
                }
            },
            Ok(Token::Keyword(name)) => Ok(Value::Keyword(name)),
            Ok(Token::String(s)) => Ok(Value::String(s)),
            _ => Err(ParseError::UnexpectedToken),
        }
    }
}

/// Reads the first form of `input`.
///
/// The result is `EmptyInput` where the text holds nothing but blanks and
/// comments. Text after the first form is not looked at.
pub fn read_str(input: &str) -> (r: ParseResult<Value>)
    ensures
        form_result_is(r, read_str_spec(input@)),
{
    match Reader::new(input) {
        Ok(mut reader) => reader.read_form(),
        Err(e) => Err(e),
    }
}

} // verus!
