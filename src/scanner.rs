use vstd::prelude::*;
use crate::error::RloxError;
use crate::interpreter::push_char;
use crate::parser::well_formed;

verus! {

/// The kinds of lexical units the scanner produces.
#[derive(Clone, Copy, Debug, PartialEq, Eq, Structural)]
pub enum TokenType {
    LeftParen,
    RightParen,
    LeftBrace,
    RightBrace,
    Comma,
    Dot,
    Minus,
    Plus,
    Semicolon,
    Slash,
    Star,
    Bang,
    BangEqual,
    Equal,
    EqualEqual,
    Greater,
    GreaterEqual,
    Less,
    LessEqual,
    Identifier,
    String,
    Number,
    And,
    Class,
    Else,
    False,
    Fun,
    For,
    If,
    Nil,
    Or,
    Print,
    Return,
    Super,
    This,
    True,
    Var,
    While,
    Eof,
}

/// The literal payload a token may carry.
#[derive(Debug)]
pub enum Literal {
    Identifier(String),
    Str(String),
    Number(i64),
    True,
    False,
    Nil,
}

/// A lexical unit: its kind, its text, its payload and its source line.
#[derive(Debug)]
pub struct Token {
    pub token_type: TokenType,
    pub lexeme: String,
    pub literal: Option<Literal>,
    pub line: usize,
}

/// A copy of a literal payload.
pub fn copy_literal(l: &Literal) -> (r: Literal)
    ensures
        r == *l,
{
    match l {
        Literal::Identifier(s) => Literal::Identifier(s.clone()),
        Literal::Str(s) => Literal::Str(s.clone()),
        Literal::Number(n) => Literal::Number(*n),
        Literal::True => Literal::True,
        Literal::False => Literal::False,
        Literal::Nil => Literal::Nil,
    }
}

/// A copy of a token.
pub fn copy_token(t: &Token) -> (r: Token)
    ensures
        r == *t,
{
    let literal = match &t.literal {
        Some(l) => Some(copy_literal(l)),
        None => None,
    };
    Token { token_type: t.token_type, lexeme: t.lexeme.clone(), literal, line: t.line }
}

/// Relies on str::chars: the characters of the text, in order.
#[verifier::external_body]
pub(crate) fn chars_of(s: &str) -> (r: Vec<char>)
    ensures
        r@ == s@,
{
    s.chars().collect()
}

/// The model of a literal payload.
pub enum LiteralView {
    Identifier(Seq<char>),
    Str(Seq<char>),
    Number(i64),
    True,
    False,
    Nil,
}

impl View for Literal {
    type V = LiteralView;

    open spec fn view(&self) -> LiteralView {
        match self {
            Literal::Identifier(s) => LiteralView::Identifier(s@),
            Literal::Str(s) => LiteralView::Str(s@),
            Literal::Number(n) => LiteralView::Number(*n),
            Literal::True => LiteralView::True,
            Literal::False => LiteralView::False,
            Literal::Nil => LiteralView::Nil,
        }
    }
}

/// The model of a token.
pub struct TokenView {
    pub token_type: TokenType,
    pub lexeme: Seq<char>,
    pub literal: Option<LiteralView>,
    pub line: usize,
}

impl View for Token {
    type V = TokenView;

    open spec fn view(&self) -> TokenView {
        TokenView {
            token_type: self.token_type,
            lexeme: self.lexeme@,
            literal: match self.literal {
                Some(l) => Some(l@),
                None => None,
            },
            line: self.line,
        }
    }
}

pub open spec fn tokens_view(t: Seq<Token>) -> Seq<TokenView> {
    t.map_values(|x: Token| x@)
}

pub open spec fn is_digit(c: char) -> bool {
    '0' <= c && c <= '9'
}

pub open spec fn is_alpha(c: char) -> bool {
    ('a' <= c && c <= 'z') || ('A' <= c && c <= 'Z')
}

/// The character at `i`, or `'\0'` past the end.
pub open spec fn char_at(src: Seq<char>, i: int) -> char {
    if 0 <= i < src.len() { src[i] } else { '\0' }
}

/// The next line number; it stays put at the largest `usize`.
pub open spec fn next_line(line: usize) -> usize {
    if line < usize::MAX { (line + 1) as usize } else { line }
}

/// The end of a `//` comment: the next newline or the end of the text.
pub open spec fn comment_end(src: Seq<char>, i: int) -> int
    decreases src.len() - i,
{
    if i < 0 || i >= src.len() || src[i] == '\n' { i } else { comment_end(src, i + 1) }
}

/// The position of the closing quote (or the end of the text) and the
/// line reached there.
pub open spec fn string_end(src: Seq<char>, i: int, line: usize) -> (int, usize)
    decreases src.len() - i,
{
    if i < 0 || i >= src.len() || src[i] == '"' {
        (i, line)
    } else {
        string_end(src, i + 1, if src[i] == '\n' { next_line(line) } else { line })
    }
}

/// The end of the run of digits from `i`.
pub open spec fn digits_end(src: Seq<char>, i: int) -> int
    decreases src.len() - i,
{
    if 0 <= i < src.len() && is_digit(src[i]) { digits_end(src, i + 1) } else { i }
}

/// The end of the run of letters and digits from `i`.
pub open spec fn word_end(src: Seq<char>, i: int) -> int
    decreases src.len() - i,
{
    if 0 <= i < src.len() && (is_alpha(src[i]) || is_digit(src[i])) { word_end(src, i + 1) } else { i }
}

/// The value of a run of decimal digits.
pub open spec fn digits_value(s: Seq<char>) -> int
    decreases s.len(),
{
    if s.len() == 0 {
        0
    } else {
        digits_value(s.drop_last()) * 10 + (s.last() as int - '0' as int)
    }
}

/// The first position in `k..end` at which the digits from `a` stop
/// fitting in an `i64`.
pub open spec fn overflow_at(src: Seq<char>, a: int, k: int, end: int) -> Option<int>
    decreases end - k,
{
    if k >= end {
        None
    } else if digits_value(src.subrange(a, k + 1)) > i64::MAX {
        Some(k)
    } else {
        overflow_at(src, a, k + 1, end)
    }
}

/// The keyword spelled by a word, if any.
pub open spec fn keyword_kind(t: Seq<char>) -> Option<TokenType> {
    if t == "and"@ { Some(TokenType::And) }
    else if t == "class"@ { Some(TokenType::Class) }
    else if t == "else"@ { Some(TokenType::Else) }
    else if t == "false"@ { Some(TokenType::False) }
    else if t == "for"@ { Some(TokenType::For) }
    else if t == "fun"@ { Some(TokenType::Fun) }
    else if t == "if"@ { Some(TokenType::If) }
    else if t == "nil"@ { Some(TokenType::Nil) }
    else if t == "or"@ { Some(TokenType::Or) }
    else if t == "print"@ { Some(TokenType::Print) }
    else if t == "return"@ { Some(TokenType::Return) }
    else if t == "super"@ { Some(TokenType::Super) }
    else if t == "this"@ { Some(TokenType::This) }
    else if t == "true"@ { Some(TokenType::True) }
    else if t == "var"@ { Some(TokenType::Var) }
    else if t == "while"@ { Some(TokenType::While) }
    else { None }
}

pub open spec fn token_at(src: Seq<char>, kind: TokenType, a: int, b: int, line: usize, literal: Option<LiteralView>) -> TokenView {
    TokenView { token_type: kind, lexeme: src.subrange(a, b), literal, line }
}

pub type Step = Result<(Option<TokenView>, int, usize), RloxError>;

pub open spec fn simple(src: Seq<char>, kind: TokenType, a: int, b: int, line: usize) -> Step {
    Ok((Some(token_at(src, kind, a, b, line, None)), b, line))
}

/// A one-character operator, or the two-character one when `=` follows.
pub open spec fn pair_op(src: Seq<char>, pos: int, line: usize, one: TokenType, two: TokenType) -> Step {
    if char_at(src, pos + 1) == '=' {
        simple(src, two, pos, pos + 2, line)
    } else {
        simple(src, one, pos, pos + 1, line)
    }
}

pub open spec fn number_step(src: Seq<char>, pos: int, line: usize) -> Step {
    let end = digits_end(src, pos + 1);
    match overflow_at(src, pos, pos + 1, end) {
        Some(k) => Err(RloxError::ScanError { character: src[k], line }),
        None => if char_at(src, end) == '.' && is_digit(char_at(src, end + 1)) {
            Err(RloxError::ScanError { character: '.', line })
        } else {
            let v = digits_value(src.subrange(pos, end)) as i64;
            Ok((Some(token_at(src, TokenType::Number, pos, end, line, Some(LiteralView::Number(v)))), end, line))
        },
    }
}

pub open spec fn word_step(src: Seq<char>, pos: int, line: usize) -> Step {
    let end = word_end(src, pos + 1);
    let text = src.subrange(pos, end);
    match keyword_kind(text) {
        Some(k) => simple(src, k, pos, end, line),
        None => Ok((Some(token_at(src, TokenType::Identifier, pos, end, line, Some(LiteralView::Identifier(text)))), end, line)),
    }
}

pub open spec fn string_step(src: Seq<char>, pos: int, line: usize) -> Step {
    let (end, l2) = string_end(src, pos + 1, line);
    if end >= src.len() {
        Err(RloxError::UnterminatedStringError { line: l2 })
    } else {
        let value = src.subrange(pos + 1, end);
        Ok((Some(token_at(src, TokenType::String, pos, end + 1, l2, Some(LiteralView::Str(value)))), end + 1, l2))
    }
}

/// One lexical step at `pos`: the token found there, if any, the position
/// after it, and the line reached.
pub open spec fn step(src: Seq<char>, pos: int, line: usize) -> Step {
    let c = src[pos];
    if c == '(' { simple(src, TokenType::LeftParen, pos, pos + 1, line) }
    else if c == ')' { simple(src, TokenType::RightParen, pos, pos + 1, line) }
    else if c == '{' { simple(src, TokenType::LeftBrace, pos, pos + 1, line) }
    else if c == '}' { simple(src, TokenType::RightBrace, pos, pos + 1, line) }
    else if c == ',' { simple(src, TokenType::Comma, pos, pos + 1, line) }
    else if c == '.' { simple(src, TokenType::Dot, pos, pos + 1, line) }
    else if c == '-' { simple(src, TokenType::Minus, pos, pos + 1, line) }
    else if c == '+' { simple(src, TokenType::Plus, pos, pos + 1, line) }
    else if c == ';' { simple(src, TokenType::Semicolon, pos, pos + 1, line) }
    else if c == '*' { simple(src, TokenType::Star, pos, pos + 1, line) }
    else if c == '!' { pair_op(src, pos, line, TokenType::Bang, TokenType::BangEqual) }
    else if c == '=' { pair_op(src, pos, line, TokenType::Equal, TokenType::EqualEqual) }
    else if c == '<' { pair_op(src, pos, line, TokenType::Less, TokenType::LessEqual) }
    else if c == '>' { pair_op(src, pos, line, TokenType::Greater, TokenType::GreaterEqual) }
    else if c == '/' {
        if char_at(src, pos + 1) == '/' {
            Ok((None, comment_end(src, pos + 2), line))
        } else {
            simple(src, TokenType::Slash, pos, pos + 1, line)
        }
    }
    else if c == '"' { string_step(src, pos, line) }
    else if c == ' ' || c == '\r' || c == '\t' { Ok((None, pos + 1, line)) }
    else if c == '\n' { Ok((None, pos + 1, next_line(line))) }
    else if is_digit(c) { number_step(src, pos, line) }
    else if is_alpha(c) { word_step(src, pos, line) }
    else { Err(RloxError::ScanError { character: c, line }) }
}

pub open spec fn prepend(ts: Seq<TokenView>, r: Result<Seq<TokenView>, RloxError>) -> Result<Seq<TokenView>, RloxError> {
    match r {
        Ok(x) => Ok(ts + x),
        Err(e) => Err(e),
    }
}

pub open spec fn optional(t: Option<TokenView>) -> Seq<TokenView> {
    match t {
        Some(x) => seq![x],
        None => Seq::empty(),
    }
}

/// The tokens of `src` from `pos` on, closed by the end-of-input marker,
/// or the first lexical error.
pub open spec fn scan_from(src: Seq<char>, pos: int, line: usize) -> Result<Seq<TokenView>, RloxError>
    decreases src.len() - pos,
{
    if pos < 0 || pos >= src.len() {
        Ok(seq![TokenView { token_type: TokenType::Eof, lexeme: Seq::empty(), literal: None, line }])
    } else {
        match step(src, pos, line) {
            Err(e) => Err(e),
            Ok((t, next, l2)) => if next <= pos || next > src.len() {
                Ok(Seq::empty())
            } else {
                prepend(optional(t), scan_from(src, next, l2))
            },
        }
    }
}

/// Turns source text into tokens.
pub struct Scanner {
    pub source: Vec<char>,
    pub tokens: Vec<Token>,
    pub start: usize,
    pub current: usize,
    pub line: usize,
}

impl Default for Scanner {
    fn default() -> (r: Scanner)
        ensures
            r.source@.len() == 0,
            r.tokens@.len() == 0,
            r.start == 0,
            r.current == 0,
            r.line == 1,
    {
        Scanner { source: Vec::new(), tokens: Vec::new(), start: 0, current: 0, line: 1 }
    }
}

/// The keyword spelled by `text`, if any.
fn keyword(text: &String) -> (r: Option<TokenType>)
    ensures
        r == keyword_kind(text@),
{
    if *text == String::from_str("and") { Some(TokenType::And) }
    else if *text == String::from_str("class") { Some(TokenType::Class) }
    else if *text == String::from_str("else") { Some(TokenType::Else) }
    else if *text == String::from_str("false") { Some(TokenType::False) }
    else if *text == String::from_str("for") { Some(TokenType::For) }
    else if *text == String::from_str("fun") { Some(TokenType::Fun) }
    else if *text == String::from_str("if") { Some(TokenType::If) }
    else if *text == String::from_str("nil") { Some(TokenType::Nil) }
    else if *text == String::from_str("or") { Some(TokenType::Or) }
    else if *text == String::from_str("print") { Some(TokenType::Print) }
    else if *text == String::from_str("return") { Some(TokenType::Return) }
    else if *text == String::from_str("super") { Some(TokenType::Super) }
    else if *text == String::from_str("this") { Some(TokenType::This) }
    else if *text == String::from_str("true") { Some(TokenType::True) }
    else if *text == String::from_str("var") { Some(TokenType::Var) }
    else if *text == String::from_str("while") { Some(TokenType::While) }
    else { None }
}

fn is_digit_char(c: char) -> (r: bool)
    ensures
        r == is_digit(c),
{
    '0' <= c && c <= '9'
}

fn is_alpha_char(c: char) -> (r: bool)
    ensures
        r == is_alpha(c),
{
    ('a' <= c && c <= 'z') || ('A' <= c && c <= 'Z')
}

fn digit_value(c: char) -> (r: i64)
    requires
        is_digit(c),
    ensures
        r == c as int - '0' as int,
{
    (c as u32 - '0' as u32) as i64
}

fn next_line_of(line: usize) -> (r: usize)
    ensures
        r == next_line(line),
{
    if line < usize::MAX { line + 1 } else { line }
}

/// The keyword tokens never end the input.
proof fn lemma_keyword_not_eof(t: Seq<char>)
    ensures
        keyword_kind(t) matches Some(k) ==> k != TokenType::Eof,
{
}

proof fn lemma_ends(src: Seq<char>, i: int, line: usize)
    requires
        0 <= i <= src.len(),
    ensures
        i <= comment_end(src, i) <= src.len(),
        i <= string_end(src, i, line).0 <= src.len(),
        i <= digits_end(src, i) <= src.len(),
        i <= word_end(src, i) <= src.len(),
    decreases src.len() - i,
{
    if i < src.len() {
        lemma_ends(src, i + 1, if src[i] == '\n' { next_line(line) } else { line });
        lemma_ends(src, i + 1, line);
    }
}

impl Scanner {
    pub open spec fn inv(&self) -> bool {
        &&& self.start <= self.current <= self.source.len()
        &&& forall|i: int| 0 <= i < self.tokens@.len() ==> #[trigger] self.tokens@[i].token_type != TokenType::Eof
    }

    /// The text of `source[from..to]`.
    fn text(&self, from: usize, to: usize) -> (r: String)
        requires
            from <= to <= self.source.len(),
        ensures
            r@ == self.source@.subrange(from as int, to as int),
    {
        let mut s = String::new();
        let mut i = from;
        while i < to
            invariant
                from <= i <= to <= self.source.len(),
                s@ == self.source@.subrange(from as int, i as int),
            decreases to - i,
        {
            push_char(&mut s, self.source[i]);
            assert(s@ =~= self.source@.subrange(from as int, i + 1));
            i = i + 1;
        }
        s
    }

    /// Appends the token spanning `start..current` on the current line.
    fn add_token(&mut self, token_type: TokenType, literal: Option<Literal>)
        requires
            old(self).inv(),
            token_type != TokenType::Eof,
        ensures
            final(self).inv(),
            final(self).source@ == old(self).source@,
            final(self).current == old(self).current,
            final(self).start == old(self).start,
            final(self).line == old(self).line,
            tokens_view(final(self).tokens@) == tokens_view(old(self).tokens@).push(TokenView {
                token_type,
                lexeme: old(self).source@.subrange(old(self).start as int, old(self).current as int),
                literal: match literal {
                    Some(l) => Some(l@),
                    None => None,
                },
                line: old(self).line,
            }),
    {
        let lexeme = self.text(self.start, self.current);
        let ghost before = self.tokens@;
        let t = Token { token_type, lexeme, literal, line: self.line };
        self.tokens.push(t);
        assert(tokens_view(self.tokens@) =~= tokens_view(before).push(t@));
    }

    /// Scans the whole text: the tokens, closed by the end-of-input marker,
    /// or the first lexical error.
    pub fn scan_tokens(&mut self, input: String) -> (r: Result<Vec<Token>, RloxError>)
        ensures
            match scan_from(input@, 0, 1) {
                Ok(ts) => r matches Ok(t) && tokens_view(t@) == ts,
                Err(e) => r == Err::<Vec<Token>, RloxError>(e),
            },
            r matches Ok(t) ==> well_formed(t@) && forall|i: int|
                0 <= i < t@.len() - 1 ==> #[trigger] t@[i].token_type != TokenType::Eof,
    {
        self.source = chars_of(input.as_str());
        self.tokens = Vec::new();
        self.start = 0;
        self.current = 0;
        self.line = 1;
        let ghost src = input@;
        assert(tokens_view(self.tokens@) =~= Seq::<TokenView>::empty());
        assert(prepend(Seq::empty(), scan_from(src, 0, 1)) =~~= scan_from(src, 0, 1)) by {
            match scan_from(src, 0, 1) {
                Ok(x) => assert(Seq::<TokenView>::empty() + x =~= x),
                Err(_) => {},
            }
        }
        while self.current < self.source.len()
            invariant
                self.inv(),
                self.source@ == src,
                src == input@,
                scan_from(src, 0, 1) == prepend(tokens_view(self.tokens@), scan_from(src, self.current as int, self.line)),
            decreases self.source.len() - self.current,
        {
            self.start = self.current;
            let ghost before = tokens_view(self.tokens@);
            let ghost (pos, line) = (self.current as int, self.line);
            match self.scan_token() {
                Ok(()) => {},
                Err(e) => {
                    assert(scan_from(src, pos, line) == Err::<Seq<TokenView>, RloxError>(e));
                    return Err(e);
                },
            }
            proof {
                let (t, next, l2) = step(src, pos, line)->Ok_0;
                match scan_from(src, next, l2) {
                    Ok(x) => assert(before + (optional(t) + x) =~= (before + optional(t)) + x),
                    Err(_) => {},
                }
            }
        }
        let mut out: Vec<Token> = Vec::new();
        let mut i: usize = 0;
        while i < self.tokens.len()
            invariant
                self.inv(),
                i <= self.tokens.len(),
                out@ == self.tokens@.subrange(0, i as int),
            decreases self.tokens.len() - i,
        {
            out.push(copy_token(&self.tokens[i]));
            assert(out@ =~= self.tokens@.subrange(0, i + 1));
            i = i + 1;
        }
        assert(out@ =~= self.tokens@);
        let ghost before = out@;
        let eof = Token { token_type: TokenType::Eof, lexeme: String::new(), literal: None, line: self.line };
        out.push(eof);
        assert(tokens_view(out@) =~= tokens_view(before) + seq![eof@]);
        Ok(out)
    }

    /// Scans the lexeme that begins at `current`.
    fn scan_token(&mut self) -> (r: Result<(), RloxError>)
        requires
            old(self).inv(),
            old(self).current < old(self).source.len(),
            old(self).start == old(self).current,
        ensures
            final(self).inv(),
            final(self).source@ == old(self).source@,
            match step(old(self).source@, old(self).current as int, old(self).line) {
                Ok((t, next, l2)) => r is Ok && final(self).current as int == next && next > old(self).current
                    && next <= old(self).source@.len() && final(self).line == l2
                    && tokens_view(final(self).tokens@) == tokens_view(old(self).tokens@) + optional(t),
                Err(e) => r == Err::<(), RloxError>(e),
            },
    {
        let ghost src = self.source@;
        let ghost before = tokens_view(self.tokens@);
        let pos = self.current;
        let c = self.source[pos];
        self.current = pos + 1;
        proof { lemma_ends(src, pos + 1, self.line); }
        if c == '(' { self.add_token(TokenType::LeftParen, None); }
        else if c == ')' { self.add_token(TokenType::RightParen, None); }
        else if c == '{' { self.add_token(TokenType::LeftBrace, None); }
        else if c == '}' { self.add_token(TokenType::RightBrace, None); }
        else if c == ',' { self.add_token(TokenType::Comma, None); }
        else if c == '.' { self.add_token(TokenType::Dot, None); }
        else if c == '-' { self.add_token(TokenType::Minus, None); }
        else if c == '+' { self.add_token(TokenType::Plus, None); }
        else if c == ';' { self.add_token(TokenType::Semicolon, None); }
        else if c == '*' { self.add_token(TokenType::Star, None); }
        else if c == '!' || c == '=' || c == '<' || c == '>' {
            let two = self.current < self.source.len() && self.source[self.current] == '=';
            if two {
                self.current = self.current + 1;
            }
            let t = if c == '!' {
                if two { TokenType::BangEqual } else { TokenType::Bang }
            } else if c == '=' {
                if two { TokenType::EqualEqual } else { TokenType::Equal }
            } else if c == '<' {
                if two { TokenType::LessEqual } else { TokenType::Less }
            } else {
                if two { TokenType::GreaterEqual } else { TokenType::Greater }
            };
            self.add_token(t, None);
        }
        else if c == '/' {
            if self.current < self.source.len() && self.source[self.current] == '/' {
                self.current = self.current + 1;
                proof { lemma_ends(src, pos + 2, self.line); }
                while self.current < self.source.len() && self.source[self.current] != '\n'
                    invariant
                        self.inv(),
                        self.source@ == src,
                        src == old(self).source@,
                        self.tokens@ == old(self).tokens@,
                        self.line == old(self).line,
                        pos + 2 <= self.current <= src.len(),
                        comment_end(src, pos + 2) == comment_end(src, self.current as int),
                    decreases self.source.len() - self.current,
                {
                    self.current = self.current + 1;
                }
                assert(tokens_view(self.tokens@) =~= before + optional(None));
            } else {
                self.add_token(TokenType::Slash, None);
            }
        }
        else if c == '"' {
            return self.string();
        }
        else if c == ' ' || c == '\r' || c == '\t' {
            assert(tokens_view(self.tokens@) =~= before + optional(None));
        }
        else if c == '\n' {
            self.line = next_line_of(self.line);
            assert(tokens_view(self.tokens@) =~= before + optional(None));
        }
        else if is_digit_char(c) {
            return self.number();
        }
        else if is_alpha_char(c) {
            self.identifier();
        }
        else {
            return Err(RloxError::ScanError { character: c, line: self.line });
        }
        assert(tokens_view(self.tokens@) =~= before + optional(step(src, pos as int, old(self).line)->Ok_0.0));
        Ok(())
    }

    fn string(&mut self) -> (r: Result<(), RloxError>)
        requires
            old(self).inv(),
            old(self).current == old(self).start + 1,
            old(self).start < old(self).source.len(),
            old(self).source@[old(self).start as int] == '"',
        ensures
            final(self).inv(),
            final(self).source@ == old(self).source@,
            match string_step(old(self).source@, old(self).start as int, old(self).line) {
                Ok((t, next, l2)) => r is Ok && final(self).current as int == next && next > old(self).start
                    && final(self).line == l2
                    && tokens_view(final(self).tokens@) == tokens_view(old(self).tokens@) + optional(t),
                Err(e) => r == Err::<(), RloxError>(e),
            },
    {
        let ghost src = self.source@;
        let ghost line0 = self.line;
        let ghost before = tokens_view(self.tokens@);
        while self.current < self.source.len() && self.source[self.current] != '"'
            invariant
                self.inv(),
                self.source@ == src,
                src == old(self).source@,
                before == tokens_view(old(self).tokens@),
                self.tokens@ == old(self).tokens@,
                self.start == old(self).start,
                self.start < self.current <= src.len(),
                string_end(src, self.start + 1, line0) == string_end(src, self.current as int, self.line),
            decreases self.source.len() - self.current,
        {
            if self.source[self.current] == '\n' {
                self.line = next_line_of(self.line);
            }
            self.current = self.current + 1;
        }
        if self.current >= self.source.len() {
            return Err(RloxError::UnterminatedStringError { line: self.line });
        }
        self.current = self.current + 1;
        let value = self.text(self.start + 1, self.current - 1);
        self.add_token(TokenType::String, Some(Literal::Str(value)));
        assert(tokens_view(self.tokens@) =~= before + optional(string_step(src, self.start as int, line0)->Ok_0.0));
        Ok(())
    }

    fn number(&mut self) -> (r: Result<(), RloxError>)
        requires
            old(self).inv(),
            old(self).current == old(self).start + 1,
            old(self).start < old(self).source.len(),
            is_digit(old(self).source@[old(self).start as int]),
        ensures
            final(self).inv(),
            final(self).source@ == old(self).source@,
            match number_step(old(self).source@, old(self).start as int, old(self).line) {
                Ok((t, next, l2)) => r is Ok && final(self).current as int == next && next > old(self).start
                    && final(self).line == l2
                    && tokens_view(final(self).tokens@) == tokens_view(old(self).tokens@) + optional(t),
                Err(e) => r == Err::<(), RloxError>(e),
            },
    {
        let ghost src = self.source@;
        let ghost before = tokens_view(self.tokens@);
        let a = self.start;
        let mut value: i64 = digit_value(self.source[a]);
        proof {
            let s1 = src.subrange(a as int, a + 1);
            assert(s1.drop_last() =~= Seq::<char>::empty());
            assert(s1.last() == src[a as int]);
            assert(digits_value(s1.drop_last()) == 0);
            assert(digits_value(s1) == digits_value(s1.drop_last()) * 10 + (s1.last() as int - '0' as int));
            assert(digits_value(s1) == value);
            lemma_ends(src, a + 1, self.line);
        }
        while self.current < self.source.len() && is_digit_char(self.source[self.current])
            invariant
                self.inv(),
                self.source@ == src,
                src == old(self).source@,
                before == tokens_view(old(self).tokens@),
                self.tokens@ == old(self).tokens@,
                self.start == a,
                a == old(self).start,
                self.line == old(self).line,
                a < self.current <= src.len(),
                value == digits_value(src.subrange(a as int, self.current as int)),
                value >= 0,
                digits_end(src, a + 1) == digits_end(src, self.current as int),
                overflow_at(src, a as int, a + 1, digits_end(src, a + 1))
                    == overflow_at(src, a as int, self.current as int, digits_end(src, a + 1)),
                self.current <= digits_end(src, a + 1),
            decreases self.source.len() - self.current,
        {
            let k = self.current;
            let d = self.source[k];
            let dv = digit_value(d);
            proof {
                lemma_ends(src, k + 1, self.line);
                let s2 = src.subrange(a as int, k + 1);
                assert(s2.drop_last() =~= src.subrange(a as int, k as int));
                assert(s2.last() == d);
                assert(digits_value(s2) == value * 10 + dv);
                assert(digits_end(src, k as int) == digits_end(src, k + 1));
            }
            value = match value.checked_mul(10) {
                Some(v) => match v.checked_add(dv) {
                    Some(w) => w,
                    None => {
                        assert(overflow_at(src, a as int, k as int, digits_end(src, a + 1)) == Some(k as int));
                        return Err(RloxError::ScanError { character: d, line: self.line });
                    },
                },
                None => {
                    assert(digits_value(src.subrange(a as int, k + 1)) > i64::MAX) by (nonlinear_arith)
                        requires
                            digits_value(src.subrange(a as int, k + 1)) == value * 10 + dv,
                            value * 10 > i64::MAX,
                            dv >= 0;
                    assert(overflow_at(src, a as int, k as int, digits_end(src, a + 1)) == Some(k as int));
                    return Err(RloxError::ScanError { character: d, line: self.line });
                },
            };
            self.current = k + 1;
        }
        let end = self.current;
        let dot = end < self.source.len() && self.source[end] == '.';
        let digit_after = dot && end + 1 < self.source.len() && is_digit_char(self.source[end + 1]);
        if digit_after {
            return Err(RloxError::ScanError { character: '.', line: self.line });
        }
        self.add_token(TokenType::Number, Some(Literal::Number(value)));
        assert(tokens_view(self.tokens@) =~= before + optional(number_step(src, a as int, old(self).line)->Ok_0.0));
        Ok(())
    }

    fn identifier(&mut self)
        requires
            old(self).inv(),
            old(self).current == old(self).start + 1,
            old(self).start < old(self).source.len(),
            is_alpha(old(self).source@[old(self).start as int]),
        ensures
            final(self).inv(),
            final(self).source@ == old(self).source@,
            ({
                let (t, next, l2) = word_step(old(self).source@, old(self).start as int, old(self).line)->Ok_0;
                &&& word_step(old(self).source@, old(self).start as int, old(self).line) is Ok
                &&& final(self).current as int == next && next > old(self).start
                &&& final(self).line == l2
                &&& tokens_view(final(self).tokens@) == tokens_view(old(self).tokens@) + optional(t)
            }),
    {
        let ghost src = self.source@;
        let ghost before = tokens_view(self.tokens@);
        proof { lemma_ends(src, self.current as int, self.line); }
        while self.current < self.source.len() && (is_alpha_char(self.source[self.current]) || is_digit_char(self.source[self.current]))
            invariant
                self.inv(),
                self.source@ == src,
                src == old(self).source@,
                before == tokens_view(old(self).tokens@),
                self.tokens@ == old(self).tokens@,
                self.start == old(self).start,
                self.line == old(self).line,
                self.start < self.current <= src.len(),
                word_end(src, self.start + 1) == word_end(src, self.current as int),
            decreases self.source.len() - self.current,
        {
            self.current = self.current + 1;
        }
        let text = self.text(self.start, self.current);
        match keyword(&text) {
            Some(k) => {
                proof { lemma_keyword_not_eof(text@); }
                self.add_token(k, None);
            },
            None => self.add_token(TokenType::Identifier, Some(Literal::Identifier(text))),
        }
        assert(tokens_view(self.tokens@) =~= before + optional(word_step(src, self.start as int, old(self).line)->Ok_0.0));
    }
}

} // verus!
