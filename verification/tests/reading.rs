use mal::printer::{pr_str, to_text};
use mal::reader::{read_str, ParseError};
use mal::text::{parse_number, push_decimal, push_signed_decimal};
use mal::tokenize::{Token, Tokenizer};
use mal::value::{MalMap, Value};

fn tokens(src: &str) -> Result<Vec<Token>, ParseError> {
    let mut t = Tokenizer::new(src);
    let mut out = Vec::new();
    loop {
        match t.next_token() {
            Ok(tok) => out.push(tok),
            Err(ParseError::UnexpectedEof) => return Ok(out),
            Err(e) => return Err(e),
        }
    }
}

fn ident(s: &str) -> Token {
    Token::Ident(s.to_string())
}

fn number(s: &str) -> Token {
    Token::Number(s.to_string())
}

fn keyword(name: &str) -> String {
    format!("\u{29e}:{}", name)
}

fn list(items: Vec<Value>) -> Value {
    Value::List(items, Box::new(Value::Nil))
}

fn vector(items: Vec<Value>) -> Value {
    Value::Vec(items, Box::new(Value::Nil))
}

fn sym(s: &str) -> Value {
    Value::Symbol(s.to_string())
}

fn string(s: &str) -> Value {
    Value::String(s.to_string())
}

fn show(v: &Value) -> String {
    to_text(v, &Vec::new(), true)
}

#[test]
fn wat() {
    read_str("~@(1 2 3)").unwrap();
}

#[test]
fn splice_unquote_reads_as_a_tagged_list() {
    assert_eq!(show(&read_str("~@(1 2 3)").unwrap()), "(splice-unquote (1 2 3))");
}

#[test]
fn tokens_of_a_call() {
    assert_eq!(
        tokens("(+ 1 22)").unwrap(),
        vec![Token::LeftParen, ident("+"), number("1"), number("22"), Token::RightParen]
    );
}

#[test]
fn punctuation_tokens() {
    assert_eq!(
        tokens("()[]{}'`~@^").unwrap(),
        vec![
            Token::LeftParen,
            Token::RightParen,
            Token::LeftBracket,
            Token::RightBracket,
            Token::LeftBrace,
            Token::RightBrace,
            Token::SingleQuote,
            Token::Backtick,
            Token::Tilde,
            Token::At,
            Token::Hat,
        ]
    );
}

#[test]
fn blanks_commas_and_comments_separate_tokens() {
    assert_eq!(tokens("a,b , c").unwrap(), vec![ident("a"), ident("b"), ident("c")]);
    assert_eq!(tokens("a ; rest of line (\nb").unwrap(), vec![ident("a"), ident("b")]);
    assert_eq!(tokens("; only a comment").unwrap(), vec![]);
    assert_eq!(tokens("a;x").unwrap(), vec![ident("a")]);
    assert_eq!(tokens(" \t\r\n\u{a0}\u{2003}a").unwrap(), vec![ident("a")]);
    assert_eq!(tokens("").unwrap(), vec![]);
}

#[test]
fn string_tokens_and_their_escapes() {
    assert_eq!(tokens("\"abc\"").unwrap(), vec![Token::String("abc".to_string())]);
    assert_eq!(tokens("\"\"").unwrap(), vec![Token::String(String::new())]);
    assert_eq!(
        tokens("\"a\\nb\\\\c\\\"d\"").unwrap(),
        vec![Token::String("a\nb\\c\"d".to_string())]
    );
    assert_eq!(tokens("\"a b;c\" x").unwrap(), vec![Token::String("a b;c".to_string()), ident("x")]);
}

#[test]
fn string_errors() {
    assert_eq!(tokens("\"abc"), Err(ParseError::UnterminatedString));
    assert_eq!(tokens("\"abc\\"), Err(ParseError::UnterminatedString));
    assert_eq!(tokens("\"a\\tb\""), Err(ParseError::InvalidStringEscape('t')));
}

#[test]
fn keyword_tokens() {
    assert_eq!(tokens(":abc").unwrap(), vec![Token::Keyword(keyword("abc"))]);
    assert_eq!(tokens(":a(").unwrap(), vec![Token::Keyword(keyword("a")), Token::LeftParen]);
    assert_eq!(tokens(":"), Err(ParseError::EmptyKeyword));
    assert_eq!(tokens(": a"), Err(ParseError::EmptyKeyword));
    assert_eq!(tokens(":("), Err(ParseError::EmptyKeyword));
}

#[test]
fn number_tokens() {
    assert_eq!(tokens("007").unwrap(), vec![number("007")]);
    assert_eq!(tokens("12)").unwrap(), vec![number("12"), Token::RightParen]);
    assert_eq!(tokens("12a"), Err(ParseError::InvalidNumber));
    assert_eq!(tokens("1~"), Err(ParseError::InvalidNumber));
    assert_eq!(tokens("-5").unwrap(), vec![ident("-5")]);
}

#[test]
fn identifier_tokens() {
    assert_eq!(tokens("swap! a->b *x* a@b").unwrap(),
        vec![ident("swap!"), ident("a->b"), ident("*x*"), ident("a@b")]);
    assert_eq!(tokens("ab\"c\"").unwrap(), vec![ident("ab"), Token::String("c".to_string())]);
}

#[test]
fn reads_atoms() {
    assert_eq!(read_str("42").unwrap(), Value::Number(42));
    assert_eq!(read_str("2147483647").unwrap(), Value::Number(2147483647));
    assert_eq!(read_str("true").unwrap(), Value::Bool(true));
    assert_eq!(read_str("false").unwrap(), Value::Bool(false));
    assert_eq!(read_str("nil").unwrap(), Value::Nil);
    assert_eq!(read_str("abc").unwrap(), sym("abc"));
    assert_eq!(read_str("-5").unwrap(), sym("-5"));
    assert_eq!(read_str(":k").unwrap(), Value::Keyword(keyword("k")));
    assert_eq!(read_str("\"s\"").unwrap(), string("s"));
}

#[test]
fn a_number_too_large_is_invalid() {
    assert_eq!(read_str("2147483648"), Err(ParseError::InvalidNumber));
    assert_eq!(read_str("99999999999999999999999"), Err(ParseError::InvalidNumber));
}

#[test]
fn reads_sequences() {
    assert_eq!(read_str("(1 (2) [3])").unwrap(),
        list(vec![Value::Number(1), list(vec![Value::Number(2)]), vector(vec![Value::Number(3)])]));
    assert!(matches!(read_str("()").unwrap(), Value::List(l, _) if l.is_empty()));
    assert!(matches!(read_str("[]").unwrap(), Value::Vec(l, _) if l.is_empty()));
    assert!(matches!(read_str("[1 2]").unwrap(), Value::Vec(l, _) if l.len() == 2));
}

#[test]
fn reads_maps() {
    let v = read_str("{:a 1 \"b\" 2 :a 3}").unwrap();
    match v {
        Value::HashMap(m, _) => {
            assert_eq!(m.len(), 2);
            assert_eq!(m.get(&keyword("a")), Some(&Value::Number(3)));
            assert_eq!(m.get("b"), Some(&Value::Number(2)));
            assert_eq!(m.get("c"), None);
            assert_eq!(m.entries[0].0, keyword("a"));
        }
        other => panic!("{:?}", other),
    }
    assert_eq!(show(&read_str("{}").unwrap()), "{}");
}

#[test]
fn map_errors() {
    assert_eq!(read_str("{1 2}"), Err(ParseError::InvalidMapKey("1".to_string())));
    assert_eq!(read_str("{(a) 2}"), Err(ParseError::InvalidMapKey("(a)".to_string())));
    assert_eq!(read_str("{:a}"), Err(ParseError::UnexpectedToken));
    assert_eq!(read_str("{:a 1"), Err(ParseError::UnexpectedEof));
}

#[test]
fn reader_macros() {
    assert_eq!(show(&read_str("'x").unwrap()), "(quote x)");
    assert_eq!(show(&read_str("`x").unwrap()), "(quasiquote x)");
    assert_eq!(show(&read_str("~x").unwrap()), "(unquote x)");
    assert_eq!(show(&read_str("~@x").unwrap()), "(splice-unquote x)");
    assert_eq!(show(&read_str("@x").unwrap()), "(deref x)");
    assert_eq!(show(&read_str("^{:a 1} [1]").unwrap()), "(with-meta [1] {:a 1})");
    assert_eq!(show(&read_str("''x").unwrap()), "(quote (quote x))");
    assert_eq!(show(&read_str("`(a ~b ~@(c))").unwrap()),
        "(quasiquote (a (unquote b) (splice-unquote (c))))");
}

#[test]
fn reader_errors() {
    assert_eq!(read_str(""), Err(ParseError::EmptyInput));
    assert_eq!(read_str("  , ; c"), Err(ParseError::EmptyInput));
    assert_eq!(read_str("(1 2"), Err(ParseError::UnexpectedEof));
    assert_eq!(read_str("[1 (2]"), Err(ParseError::UnexpectedToken));
    assert_eq!(read_str(")"), Err(ParseError::UnexpectedToken));
    assert_eq!(read_str("'"), Err(ParseError::UnexpectedEof));
    assert_eq!(read_str("~"), Err(ParseError::UnexpectedEof));
    assert_eq!(read_str("^a"), Err(ParseError::UnexpectedEof));
    assert_eq!(read_str("(\"a"), Err(ParseError::UnterminatedString));
    assert_eq!(read_str("\"a\\x\""), Err(ParseError::InvalidStringEscape('x')));
    assert_eq!(read_str("(1 :)"), Err(ParseError::EmptyKeyword));
    assert_eq!(read_str("(1a)"), Err(ParseError::InvalidNumber));
}

#[test]
fn only_the_first_form_is_read() {
    assert_eq!(read_str("1 2").unwrap(), Value::Number(1));
    assert_eq!(read_str("1 \"abc").unwrap(), Value::Number(1));
    assert_eq!(read_str("(a) )").unwrap(), list(vec![sym("a")]));
}

#[test]
fn parse_error_messages() {
    assert_eq!(ParseError::EmptyInput.message(), "empty input");
    assert_eq!(ParseError::UnexpectedEof.message(), "unexpected end of input");
    assert_eq!(ParseError::UnterminatedString.message(), "unexpected end of input");
    assert_eq!(ParseError::EmptyKeyword.message(), "empty keyword");
    assert_eq!(ParseError::InvalidNumber.message(), "invalid number");
    assert_eq!(ParseError::UnexpectedToken.message(), "unexpected token");
    assert_eq!(ParseError::InvalidStringEscape('q').message(), "invalid string escape: \\q");
    assert_eq!(ParseError::InvalidMapKey("(a)".to_string()).message(), "invalid map key '(a)'");
}

#[test]
fn prints_each_kind_of_value() {
    assert_eq!(show(&Value::Number(0)), "0");
    assert_eq!(show(&Value::Number(-17)), "-17");
    assert_eq!(show(&Value::Number(i32::MIN)), "-2147483648");
    assert_eq!(show(&Value::Number(i32::MAX)), "2147483647");
    assert_eq!(show(&Value::Nil), "nil");
    assert_eq!(show(&Value::Bool(true)), "true");
    assert_eq!(show(&Value::Bool(false)), "false");
    assert_eq!(show(&sym("abc")), "abc");
    assert_eq!(show(&Value::Keyword(keyword("kw"))), ":kw");
    assert_eq!(show(&list(vec![])), "()");
    assert_eq!(show(&vector(vec![Value::Number(1), list(vec![sym("a")])])), "[1 (a)]");
    assert_eq!(show(&Value::host_fn(mal::value::HostFn::Apply)), "#<function>");
    assert_eq!(show(&Value::closure(0)), "#<function>");
}

#[test]
fn strings_print_readably_or_plainly() {
    let v = string("a\"b\\c\nd\te");
    assert_eq!(to_text(&v, &Vec::new(), true), "\"a\\\"b\\\\c\\nd\te\"");
    assert_eq!(to_text(&v, &Vec::new(), false), "a\"b\\c\nd\te");
    let l = list(vec![string("x y")]);
    assert_eq!(to_text(&l, &Vec::new(), true), "(\"x y\")");
    assert_eq!(to_text(&l, &Vec::new(), false), "(x y)");
}

#[test]
fn maps_print_in_the_order_of_their_entries() {
    let mut m = MalMap::new();
    m.insert("b".to_string(), Value::Number(1));
    m.insert(keyword("a"), string("s"));
    m.insert("b".to_string(), Value::Number(2));
    let v = Value::hash_map(m);
    assert_eq!(to_text(&v, &Vec::new(), true), "{\"b\" 2 :a \"s\"}");
    assert_eq!(to_text(&v, &Vec::new(), false), "{\"b\" 2 :a s}");
}

#[test]
fn atoms_print_what_they_hold() {
    let atoms = vec![Value::Number(5), Value::Atom(0), Value::Atom(2)];
    assert_eq!(to_text(&Value::Atom(0), &atoms, true), "(atom 5)");
    assert_eq!(to_text(&Value::Atom(1), &atoms, true), "(atom (atom 5))");
    assert_eq!(to_text(&Value::Atom(9), &atoms, true), "(atom ...)");
    assert_eq!(
        to_text(&Value::Atom(2), &atoms, true),
        "(atom (atom (atom (atom ...))))"
    );
}

#[test]
fn pr_str_appends() {
    let mut out = String::from("> ");
    pr_str(&list(vec![Value::Number(1), Value::Nil]), &Vec::new(), &mut out, true);
    assert_eq!(out, "> (1 nil)");
}

#[test]
fn printed_data_reads_back_equal() {
    for src in [
        "0",
        "123",
        "abc",
        ":kw",
        "\"a\\\"b\\\\c\\nd\"",
        "nil",
        "true",
        "false",
        "()",
        "(1 (2 [3 \"x\"]) {:a 1 \"b\" (c)})",
        "[[] () {}]",
        "(quote (unquote x))",
    ] {
        let v = read_str(src).unwrap();
        let text = to_text(&v, &Vec::new(), true);
        assert_eq!(text, src);
        assert_eq!(read_str(&text).unwrap(), v);
    }
}

#[test]
fn printed_data_with_metadata_reads_back_equal() {
    let inner = Value::Vec(vec![Value::Number(2)], Box::new(string("inner meta")));
    let v = Value::List(vec![Value::Number(1), inner], Box::new(Value::Number(7)));
    let text = to_text(&v, &Vec::new(), true);
    assert_eq!(text, "(1 [2])");
    let back = read_str(&text).unwrap();
    assert_eq!(back, v);
    assert!(matches!(back, Value::List(_, meta) if *meta == Value::Nil));
}

#[test]
fn a_symbol_that_source_text_cannot_write_does_not_read_back() {
    for name in ["true", "nil", "1x", "a b", "~a", "", ":k"] {
        let text = to_text(&sym(name), &Vec::new(), true);
        assert_ne!(read_str(&text).ok(), Some(sym(name)), "for {:?}", name);
    }
}

#[test]
fn a_negative_number_does_not_read_back() {
    let text = to_text(&Value::Number(-5), &Vec::new(), true);
    assert_eq!(read_str(&text).unwrap(), sym("-5"));
}

#[test]
fn decimal_numerals() {
    let mut s = String::new();
    push_decimal(&mut s, 0);
    s.push(' ');
    push_decimal(&mut s, 10203);
    s.push(' ');
    push_decimal(&mut s, u64::MAX);
    s.push(' ');
    push_signed_decimal(&mut s, -40);
    assert_eq!(s, "0 10203 18446744073709551615 -40");
    assert_eq!(parse_number("0"), Some(0));
    assert_eq!(parse_number("0042"), Some(42));
    assert_eq!(parse_number("2147483647"), Some(i32::MAX));
    assert_eq!(parse_number("2147483648"), None);
    assert_eq!(parse_number(""), None);
    assert_eq!(parse_number("12x"), None);
    assert_eq!(parse_number("-1"), None);
}
