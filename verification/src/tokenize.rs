//! The tokenizer: from source text to tokens, one at a time.

use vstd::prelude::*;
use crate::printer::KEYWORD_PREFIX;
use crate::reader::{ParseErr, ParseError, ParseResult};
use crate::text::{chars_of, is_digit, string_of};

verus! {

/// A lexical unit of source text.
#[derive(Debug, Clone, PartialEq, Eq)]
pub enum Token {
    String(String),
    Ident(String),
    Keyword(String),
    Number(String),
    LeftParen,
    RightParen,
    LeftBracket,
    RightBracket,
    LeftBrace,
    RightBrace,
    SingleQuote,
    Backtick,
    Tilde,
    At,
    Hat,
}

/// Mathematical model of a [`Token`].
pub ghost enum Tok {
    Str(Seq<char>),
    Ident(Seq<char>),
    Keyword(Seq<char>),
    Number(Seq<char>),
    LeftParen,
    RightParen,
    LeftBracket,
    RightBracket,
    LeftBrace,
    RightBrace,
    SingleQuote,
    Backtick,
    Tilde,
    At,
    Hat,
}

impl View for Token {
    type V = Tok;

    open spec fn view(&self) -> Tok {
        match self {
            Token::String(s) => Tok::Str(s@),
            Token::Ident(s) => Tok::Ident(s@),
            Token::Keyword(s) => Tok::Keyword(s@),
            Token::Number(s) => Tok::Number(s@),
            Token::LeftParen => Tok::LeftParen,
            Token::RightParen => Tok::RightParen,
            Token::LeftBracket => Tok::LeftBracket,
            Token::RightBracket => Tok::RightBracket,
            Token::LeftBrace => Tok::LeftBrace,
            Token::RightBrace => Tok::RightBrace,
            Token::SingleQuote => Tok::SingleQuote,
            Token::Backtick => Tok::Backtick,
            Token::Tilde => Tok::Tilde,
            Token::At => Tok::At,
            Token::Hat => Tok::Hat,
        }
    }
}

/// Whether `c` separates tokens: a character with the Unicode property
/// `White_Space`, or a comma.
pub open spec fn is_whitespace_spec(c: char) -> bool {
    let n = c as u32;
    ||| (0x09 <= n && n <= 0x0d)
    ||| n == 0x20
    ||| n == 0x85
    ||| n == 0xa0
    ||| n == 0x1680
    ||| (0x2000 <= n && n <= 0x200a)
    ||| n == 0x2028
    ||| n == 0x2029
    ||| n == 0x202f
    ||| n == 0x205f
    ||| n == 0x3000
    ||| c == ','
}

/// Whether `c` is one of the characters that end an identifier besides
/// whitespace.
pub open spec fn is_punct_spec(c: char) -> bool {
    c == '[' || c == ']' || c == '{' || c == '}' || c == '(' || c == '\'' || c == '"' || c == '`'
        || c == ',' || c == ';' || c == ')'
}

/// Whether `c` can stand inside an identifier.
pub open spec fn is_ident_spec(c: char) -> bool {
    !is_punct_spec(c) && !is_whitespace_spec(c)
}

/// The position after the line that holds position `i`: after its newline, or
/// the end of the text.
pub open spec fn skip_line(s: Seq<char>, i: int) -> int
    decreases s.len() - i,
{
    if i < 0 || i >= s.len() {
        s.len() as int
    } else if s[i] == '\n' {
        i + 1
    } else {
        skip_line(s, i + 1)
    }
}

/// The first position from `i` on that holds neither whitespace nor a
/// comment, or the end of the text.
pub open spec fn skip_blank(s: Seq<char>, i: int) -> int
    decreases s.len() - i, 1int,
{
    if i < 0 || i >= s.len() {
        s.len() as int
    } else if is_whitespace_spec(s[i]) {
        skip_blank(s, i + 1)
    } else if s[i] == ';' {
        let j = skip_line(s, i + 1);
        if i < j <= s.len() {
            skip_blank(s, j)
        } else {
            i
        }
    } else {
        i
    }
}

/// The first position from `i` on that does not hold an identifier
/// character, or the end of the text.
pub open spec fn scan_ident(s: Seq<char>, i: int) -> int
    decreases s.len() - i,
{
    if i < 0 || i >= s.len() {
        s.len() as int
    } else if is_ident_spec(s[i]) {
        scan_ident(s, i + 1)
    } else {
        i
    }
}

/// The end of the run of digits that starts at `i`: the first position that
/// holds whitespace or punctuation, or the end of the text. There is none
/// where another character comes first.
pub open spec fn scan_number(s: Seq<char>, i: int) -> Option<int>
    decreases s.len() - i,
{
    if i < 0 || i >= s.len() {
        Some(s.len() as int)
    } else if is_punct_spec(s[i]) || is_whitespace_spec(s[i]) {
        Some(i)
    } else if !is_digit(s[i]) {
        None
    } else {
        scan_number(s, i + 1)
    }
}

/// What reading a token gives: the token or the error, and the position
/// after it.
pub ghost struct Lexed {
    pub result: Result<Tok, ParseErr>,
    pub next: int,
}

/// The rest of a string literal from position `i` on, given the characters
/// `acc` that were read so far: its content and the position after the
/// closing quote.
pub open spec fn scan_string(s: Seq<char>, i: int, acc: Seq<char>) -> Lexed
    decreases s.len() - i,
{
    if i < 0 || i >= s.len() {
        Lexed { result: Err(ParseErr::UnterminatedString), next: s.len() as int }
    } else if s[i] == '\\' {
        if i + 1 >= s.len() {
            Lexed { result: Err(ParseErr::UnterminatedString), next: s.len() as int }
        } else if s[i + 1] == 'n' {
            scan_string(s, i + 2, acc.push('\n'))
        } else if s[i + 1] == '\\' {
            scan_string(s, i + 2, acc.push('\\'))
        } else if s[i + 1] == '"' {
            scan_string(s, i + 2, acc.push('"'))
        } else {
            Lexed { result: Err(ParseErr::InvalidStringEscape(s[i + 1])), next: i + 2 }
        }
    } else if s[i] == '"' {
        Lexed { result: Ok(Tok::Str(acc)), next: i + 1 }
    } else {
        scan_string(s, i + 1, acc.push(s[i]))
    }
}

/// The token that starts at position `start`, which holds neither
/// whitespace nor a comment.
pub open spec fn lex_at(s: Seq<char>, start: int) -> Lexed {
    if start < 0 || start >= s.len() {
        Lexed { result: Err(ParseErr::UnexpectedEof), next: s.len() as int }
    } else {
        let c = s[start];
        if c == '(' {
            Lexed { result: Ok(Tok::LeftParen), next: start + 1 }
        } else if c == ')' {
            Lexed { result: Ok(Tok::RightParen), next: start + 1 }
        } else if c == '[' {
            Lexed { result: Ok(Tok::LeftBracket), next: start + 1 }
        } else if c == ']' {
            Lexed { result: Ok(Tok::RightBracket), next: start + 1 }
        } else if c == '{' {
            Lexed { result: Ok(Tok::LeftBrace), next: start + 1 }
        } else if c == '}' {
            Lexed { result: Ok(Tok::RightBrace), next: start + 1 }
        } else if c == '\'' {
            Lexed { result: Ok(Tok::SingleQuote), next: start + 1 }
        } else if c == '~' {
            Lexed { result: Ok(Tok::Tilde), next: start + 1 }
        } else if c == '@' {
            Lexed { result: Ok(Tok::At), next: start + 1 }
        } else if c == '`' {
            Lexed { result: Ok(Tok::Backtick), next: start + 1 }
        } else if c == '^' {
            Lexed { result: Ok(Tok::Hat), next: start + 1 }
        } else if c == '"' {
            scan_string(s, start + 1, Seq::empty())
        } else if c == ':' {
            let end = scan_ident(s, start + 1);
            if end == start + 1 {
                Lexed { result: Err(ParseErr::EmptyKeyword), next: end }
            } else {
                Lexed {
                    result: Ok(Tok::Keyword(seq![KEYWORD_PREFIX] + s.subrange(start, end))),
                    next: end,
                }
            }
        } else if is_digit(c) {
            match scan_number(s, start + 1) {
                Some(end) => Lexed { result: Ok(Tok::Number(s.subrange(start, end))), next: end },
                None => Lexed { result: Err(ParseErr::InvalidNumber), next: start + 1 },
            }
        } else {
            let end = scan_ident(s, start + 1);
            Lexed { result: Ok(Tok::Ident(s.subrange(start, end))), next: end }
        }
    }
}

/// The first token at or after position `pos`, blanks and comments skipped.
pub open spec fn lex(s: Seq<char>, pos: int) -> Lexed {
    lex_at(s, skip_blank(s, pos))
}

/// Whether a result of the tokenizer is the one that the model gives.
pub open spec fn token_result_is(r: ParseResult<Token>, m: Result<Tok, ParseErr>) -> bool {
    match r {
        Ok(t) => m == Ok::<Tok, ParseErr>(t@),
        Err(e) => m == Err::<Tok, ParseErr>(e@),
    }
}

/// The end of a line lies after its start and within the text.
pub proof fn lemma_skip_line_bounds(s: Seq<char>, i: int)
    requires
        0 <= i <= s.len(),
    ensures
        i <= skip_line(s, i) <= s.len(),
        i < s.len() ==> i < skip_line(s, i),
    decreases s.len() - i,
{
    if i < s.len() && s[i] != '\n' {
        lemma_skip_line_bounds(s, i + 1);
    }
}

/// Skipping blanks moves forward and stays within the text.
pub proof fn lemma_skip_blank_bounds(s: Seq<char>, i: int)
    requires
        0 <= i <= s.len(),
    ensures
        i <= skip_blank(s, i) <= s.len(),
    decreases s.len() - i,
{
    if i < s.len() {
        if is_whitespace_spec(s[i]) {
            lemma_skip_blank_bounds(s, i + 1);
        } else if s[i] == ';' {
            lemma_skip_line_bounds(s, i + 1);
            lemma_skip_blank_bounds(s, skip_line(s, i + 1));
        }
    }
}

/// A cursor over source text that hands out one token per call.
pub struct Tokenizer {
    input: Vec<char>,
    current: usize,
    start: usize,
}

impl Tokenizer {
    #[verifier::type_invariant]
    spec fn wf(&self) -> bool {
        self.start <= self.current <= self.input.len()
    }

    /// The text that is being read.
    pub closed spec fn text(&self) -> Seq<char> {
        self.input@
    }

    /// The position of the next character to read.
    pub closed spec fn position(&self) -> int {
        self.current as int
    }

    /// A tokenizer at the start of `input`.
    pub fn new(input: &str) -> (t: Self)
        ensures
            t.text() == input@,
            t.position() == 0,
    {
        Self { input: chars_of(input), current: 0, start: 0 }
    }

    fn peek(&self) -> (r: Option<char>)
        ensures
            r == if self.position() < self.text().len() {
                Some(self.text()[self.position()])
            } else {
                None
            },
            0 <= self.position() <= self.text().len(),
    {
        proof {
            use_type_invariant(self);
        }
        if self.current < self.input.len() {
            Some(self.input[self.current])
        } else {
            None
        }
    }

    fn advance(&mut self) -> (r: Option<char>)
        ensures
            final(self).text() == old(self).text(),
            final(self).start == old(self).start,
            0 <= old(self).position() <= old(self).text().len(),
            r == if old(self).position() < old(self).text().len() {
                Some(old(self).text()[old(self).position()])
            } else {
                None
            },
            final(self).position() == if old(self).position() < old(self).text().len() {
                old(self).position() + 1
            } else {
                old(self).position()
            },
    {
        proof {
            use_type_invariant(&*self);
        }
        if self.current < self.input.len() {
            let c = self.input[self.current];
            self.current += 1;
            Some(c)
        } else {
            None
        }
    }

    fn read_string(&mut self) -> (r: ParseResult<String>)
        ensures
            final(self).text() == old(self).text(),
            final(self).start == old(self).start,
            ({
                let l = scan_string(old(self).text(), old(self).position(), Seq::empty());
                &&& final(self).position() == l.next
                &&& match r {
                    Ok(s) => l.result == Ok::<Tok, ParseErr>(Tok::Str(s@)),
                    Err(e) => l.result == Err::<Tok, ParseErr>(e@),
                }
            }),
    {
        let mut string = String::new();
        proof {
            use_type_invariant(&*self);
        }
        loop
            invariant
                self.text() == old(self).text(),
                self.start == old(self).start,
                0 <= self.position() <= self.text().len(),
                scan_string(self.text(), self.position(), string@) == scan_string(
                    old(self).text(),
                    old(self).position(),
                    Seq::empty(),
                ),
            decreases self.text().len() - self.position(),
        {
            match self.advance() {
                None => {
                    return Err(ParseError::UnterminatedString);
                },
                Some(c) => {
                    if c == '\\' {
                        match self.advance() {
                            None => {
                                return Err(ParseError::UnterminatedString);
                            },
                            Some(e) => {
                                if e == 'n' {
                                    string.push('\n');
                                } else if e == '\\' {
                                    string.push('\\');
                                } else if e == '"' {
                                    string.push('"');
                                } else {
                                    return Err(ParseError::InvalidStringEscape(e));
                                }
                            },
                        }
                    } else if c == '"' {
                        return Ok(string);
                    } else {
                        string.push(c);
                    }
                },
            }
        }
    }

    fn read_keyword(&mut self) -> (r: ParseResult<String>)
        requires
            old(self).position() == old(self).start + 1,
        ensures
            final(self).text() == old(self).text(),
            final(self).start == old(self).start,
            final(self).position() == scan_ident(old(self).text(), old(self).position()),
            match r {
                Ok(s) => final(self).position() > old(self).position() && s@ == seq![
                    KEYWORD_PREFIX,
                ] + old(self).text().subrange(old(self).start as int, final(self).position()),
                Err(e) => final(self).position() == old(self).position() && e@
                    == ParseErr::EmptyKeyword,
            },
    {
        let before = self.current;
        let ident = self.read_ident();
        if self.current == before {
            Err(ParseError::EmptyKeyword)
        } else {
            let mut name = String::new();
            name.push(KEYWORD_PREFIX);
            name.append(ident.as_str());
            assert(name@ =~= seq![KEYWORD_PREFIX] + ident@);
            Ok(name)
        }
    }

    fn is_ident(c: char) -> (r: bool)
        ensures
            r == is_ident_spec(c),
    {
        !Self::is_punct(c) && !Self::is_whitespace(c)
    }

    fn is_punct(c: char) -> (r: bool)
        ensures
            r == is_punct_spec(c),
    {
        c == '[' || c == ']' || c == '{' || c == '}' || c == '(' || c == '\'' || c == '"' || c
            == '`' || c == ',' || c == ';' || c == ')'
    }

    fn is_whitespace(c: char) -> (r: bool)
        ensures
            r == is_whitespace_spec(c),
    {
        let n: u32 = c as u32;
        (0x09 <= n && n <= 0x0d) || n == 0x20 || n == 0x85 || n == 0xa0 || n == 0x1680 || (0x2000
            <= n && n <= 0x200a) || n == 0x2028 || n == 0x2029 || n == 0x202f || n == 0x205f || n
            == 0x3000 || c == ','
    }

    fn read_ident(&mut self) -> (r: String)
        ensures
            final(self).text() == old(self).text(),
            final(self).start == old(self).start,
            final(self).position() == scan_ident(old(self).text(), old(self).position()),
            final(self).position() >= old(self).position(),
            r@ == old(self).text().subrange(old(self).start as int, final(self).position()),
    {
        proof {
            use_type_invariant(&*self);
        }
        loop
            invariant
                self.text() == old(self).text(),
                self.start == old(self).start,
                old(self).position() <= self.position() <= self.text().len(),
                scan_ident(self.text(), self.position()) == scan_ident(
                    old(self).text(),
                    old(self).position(),
                ),
            ensures
                self.text() == old(self).text(),
                self.start == old(self).start,
                old(self).position() <= self.position() <= self.text().len(),
                self.position() == scan_ident(old(self).text(), old(self).position()),
            decreases self.text().len() - self.position(),
        {
            match self.peek() {
                Some(c) => {
                    if Self::is_ident(c) {
                        self.advance();
                    } else {
                        break ;
                    }
                },
                None => {
                    break ;
                },
            }
        }
        proof {
            use_type_invariant(&*self);
        }
        string_of(&self.input, self.start, self.current)
    }

    fn read_num(&mut self) -> (r: ParseResult<String>)
        requires
            old(self).position() == old(self).start + 1,
        ensures
            final(self).text() == old(self).text(),
            final(self).start == old(self).start,
            match r {
                Ok(s) => scan_number(old(self).text(), old(self).position()) == Some(
                    final(self).position(),
                ) && s@ == old(self).text().subrange(
                    old(self).start as int,
                    final(self).position(),
                ),
                Err(e) => scan_number(old(self).text(), old(self).position()) is None && e@
                    == ParseErr::InvalidNumber && final(self).position() == old(self).position(),
            },
    {
        let before = self.current;
        proof {
            use_type_invariant(&*self);
        }
        loop
            invariant
                self.text() == old(self).text(),
                self.start == old(self).start,
                before == old(self).position(),
                self.start < before,
                old(self).position() <= self.position() <= self.text().len(),
                scan_number(self.text(), self.position()) == scan_number(
                    old(self).text(),
                    old(self).position(),
                ),
            ensures
                self.text() == old(self).text(),
                self.start == old(self).start,
                old(self).position() <= self.position() <= self.text().len(),
                scan_number(old(self).text(), old(self).position()) == Some(self.position()),
            decreases self.text().len() - self.position(),
        {
            match self.peek() {
                Some(c) => {
                    if Self::is_punct(c) || Self::is_whitespace(c) {
                        break ;
                    }
                    if !('0' <= c && c <= '9') {
                        proof {
                            use_type_invariant(&*self);
                        }
                        self.current = before;
                        return Err(ParseError::InvalidNumber);
                    }
                    self.advance();
                },
                None => {
                    break ;
                },
            }
        }
        proof {
            use_type_invariant(&*self);
        }
        Ok(string_of(&self.input, self.start, self.current))
    }

    fn skip_whitespace(&mut self)
        ensures
            final(self).text() == old(self).text(),
            final(self).position() == skip_blank(old(self).text(), old(self).position()),
    {
        proof {
            use_type_invariant(&*self);
        }
        loop
            invariant
                self.text() == old(self).text(),
                0 <= self.position() <= self.text().len(),
                skip_blank(self.text(), self.position()) == skip_blank(
                    old(self).text(),
                    old(self).position(),
                ),
            ensures
                self.text() == old(self).text(),
                self.position() == skip_blank(old(self).text(), old(self).position()),
            decreases self.text().len() - self.position(),
        {
            let next = self.peek();
            match next {
                Some(c) => {
                    if Self::is_whitespace(c) {
                        self.advance();
                    } else if c == ';' {
                        let ghost from = self.position();
                        self.advance();
                        proof {
                            lemma_skip_line_bounds(self.text(), from + 1);
                        }
                        loop
                            invariant_except_break
                                skip_line(self.text(), self.position()) == skip_line(
                                    self.text(),
                                    from + 1,
                                ),
                            invariant
                                self.text() == old(self).text(),
                                from < self.position() <= self.text().len(),
                            ensures
                                self.text() == old(self).text(),
                                from < self.position() <= self.text().len(),
                                self.position() == skip_line(self.text(), from + 1),
                            decreases self.text().len() - self.position(),
                        {
                            match self.advance() {
                                Some(d) => {
                                    if d == '\n' {
                                        break ;
                                    }
                                },
                                None => {
                                    break ;
                                },
                            }
                        }
                    } else {
                        break ;
                    }
                },
                None => {
                    break ;
                },
            }
        }
    }

    /// Reads the next token, after any blanks and comments. At the end of the
    /// text the result is `UnexpectedEof`.
    pub fn next_token(&mut self) -> (r: ParseResult<Token>)
        ensures
            final(self).text() == old(self).text(),
            final(self).position() == lex(old(self).text(), old(self).position()).next,
            token_result_is(r, lex(old(self).text(), old(self).position()).result),
    {
        proof {
            use_type_invariant(&*self);
            lemma_skip_blank_bounds(self.text(), self.position());
        }
        self.skip_whitespace();
        proof {
            use_type_invariant(&*self);
        }
        self.start = self.current;
        match self.advance() {
            Some(c) => {
                if c == '(' {
                    Ok(Token::LeftParen)
                } else if c == ')' {
                    Ok(Token::RightParen)
                } else if c == '[' {
                    Ok(Token::LeftBracket)
                } else if c == ']' {
                    Ok(Token::RightBracket)
                } else if c == '{' {
                    Ok(Token::LeftBrace)
                } else if c == '}' {
                    Ok(Token::RightBrace)
                } else if c == '\'' {
                    Ok(Token::SingleQuote)
                } else if c == '~' {
                    Ok(Token::Tilde)
                } else if c == '@' {
                    Ok(Token::At)
                } else if c == '`' {
                    Ok(Token::Backtick)
                } else if c == '^' {
                    Ok(Token::Hat)
                } else if c == '"' {
                    match self.read_string() {
                        Ok(s) => Ok(Token::String(s)),
                        Err(e) => Err(e),
                    }
                } else if c == ':' {
                    match self.read_keyword() {
                        Ok(s) => Ok(Token::Keyword(s)),
                        Err(e) => Err(e),
                    }
                } else if '0' <= c && c <= '9' {
                    match self.read_num() {
                        Ok(s) => Ok(Token::Number(s)),
                        Err(e) => Err(e),
                    }
                } else {
                    Ok(Token::Ident(self.read_ident()))
                }
            },
            None => Err(ParseError::UnexpectedEof),
        }
    }
}

} // verus!
