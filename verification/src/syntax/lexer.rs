//! Lexical analysis: turns source text into a flat sequence of tokens, each
//! carrying the exact span of text it was scanned from.

use vstd::prelude::*;

verus! {

/// The closed set of token kinds the lexer can produce.
#[derive(Clone, Copy, Debug, PartialEq, Eq, Structural)]
pub enum TokenType {
    Number(i64),
    Plus,
    Minus,
    Asterisk,
    DoubleAsterisk,
    ForwardSlash,
    BackSlash,
    LeftParenthesis,
    RightParenthesis,
    Ampersand,
    Pipe,
    Caret,
    BadChar,
    WhiteSpace,
    Eof,
    // Keywords and names
    Identifier,
    Equal,
    Let,
}

/// The display text of a token kind, as it appears inside diagnostic
/// messages.
pub open spec fn token_type_text(t: TokenType) -> Seq<char> {
    match t {
        TokenType::Number(_) => "Number"@,
        TokenType::Plus => "+"@,
        TokenType::Minus => "-"@,
        TokenType::Asterisk => "*"@,
        TokenType::DoubleAsterisk => "**"@,
        TokenType::ForwardSlash => "/"@,
        TokenType::BackSlash => "\\"@,
        TokenType::LeftParenthesis => "("@,
        TokenType::RightParenthesis => ")"@,
        TokenType::Ampersand => "&"@,
        TokenType::Pipe => "|"@,
        TokenType::Caret => "^"@,
        TokenType::BadChar => "Bad"@,
        TokenType::WhiteSpace => "Whitespace"@,
        TokenType::Eof => "EOF"@,
        TokenType::Identifier => "Identifier"@,
        TokenType::Equal => "="@,
        TokenType::Let => "Let"@,
    }
}

impl TokenType {
    /// The kind's display text, used when a diagnostic names a token.
    pub fn text(&self) -> (r: String)
        ensures
            r@ == token_type_text(*self),
    {
        match self {
            TokenType::Number(_) => String::from_str("Number"),
            TokenType::Plus => String::from_str("+"),
            TokenType::Minus => String::from_str("-"),
            TokenType::Asterisk => String::from_str("*"),
            TokenType::DoubleAsterisk => String::from_str("**"),
            TokenType::ForwardSlash => String::from_str("/"),
            TokenType::BackSlash => String::from_str("\\"),
            TokenType::LeftParenthesis => String::from_str("("),
            TokenType::RightParenthesis => String::from_str(")"),
            TokenType::Ampersand => String::from_str("&"),
            TokenType::Pipe => String::from_str("|"),
            TokenType::Caret => String::from_str("^"),
            TokenType::BadChar => String::from_str("Bad"),
            TokenType::WhiteSpace => String::from_str("Whitespace"),
            TokenType::Eof => String::from_str("EOF"),
            TokenType::Identifier => String::from_str("Identifier"),
            TokenType::Equal => String::from_str("="),
            TokenType::Let => String::from_str("Let"),
        }
    }
}

/// A half-open `[start, end)` range of character offsets, together with the
/// literal text it covers.
#[derive(Clone, Debug, PartialEq)]
pub struct TextSpan {
    pub start: usize,
    pub end: usize,
    pub literal: String,
}

/// The mathematical model of a `TextSpan`.
pub ghost struct SpanView {
    pub start: int,
    pub end: int,
    pub literal: Seq<char>,
}

impl View for TextSpan {
    type V = SpanView;

    open spec fn view(&self) -> SpanView {
        SpanView { start: self.start as int, end: self.end as int, literal: self.literal@ }
    }
}

/// A minimal lexical unit: a kind plus the span it came from.
#[derive(Clone, Debug, PartialEq)]
pub struct Token {
    pub kind: TokenType,
    pub span: TextSpan,
}

/// The mathematical model of a `Token`.
pub ghost struct TokenView {
    pub kind: TokenType,
    pub span: SpanView,
}

impl View for Token {
    type V = TokenView;

    open spec fn view(&self) -> TokenView {
        TokenView { kind: self.kind, span: self.span@ }
    }
}

/// The mathematical model of a token list.
pub open spec fn token_views(tokens: Seq<Token>) -> Seq<TokenView> {
    tokens.map_values(|t: Token| t@)
}

/// A pull-based scanner over a borrowed source string; `current_position` is a
/// character offset (not a byte offset).
pub struct Lexer<'a> {
    input: &'a str,
    current_position: usize,
}

impl TextSpan {
    /// A span is well formed when it is non-inverted and its literal has
    /// exactly the length of the offset range.
    pub open spec fn wf(self) -> bool {
        self.start <= self.end && self.literal@.len() == self.end - self.start
    }

    pub fn new(start: usize, end: usize, literal: String) -> (r: Self)
        ensures
            r.start == start,
            r.end == end,
            r.literal == literal,
    {
        Self { start, end, literal }
    }

    pub fn length(&self) -> (r: usize)
        requires
            self.start <= self.end,
        ensures
            r == self@.end - self@.start,
    {
        self.end - self.start
    }
}

impl Token {
    pub fn new(kind: TokenType, span: TextSpan) -> (r: Self)
        ensures
            r.kind == kind,
            r.span == span,
    {
        Self { kind, span }
    }
}

// ---------------------------------------------------------------------------
// Character classes.
//
// Decimal digits are classified directly; the Unicode whitespace and
// alphabetic classes are far too large to restate, so they are named by
// uninterpreted predicates that the trusted classifiers below tie to the
// standard library.
// ---------------------------------------------------------------------------

/// What `char::is_whitespace` returns: the Unicode `White_Space` class,
/// a function of the character alone.
pub uninterp spec fn whitespace_char(c: char) -> bool;

/// What `char::is_alphabetic` returns: the Unicode `Alphabetic` class,
/// a function of the character alone.
pub uninterp spec fn alphabetic_char(c: char) -> bool;

pub open spec fn digit_char(c: char) -> bool {
    48 <= c as u32 && c as u32 <= 57
}

pub open spec fn digit_value(c: char) -> i64 {
    (c as u32 - 48) as i64
}

// ---------------------------------------------------------------------------
// The specification tokenizer.  `spec_token_width` gives the number of
// characters the token starting at `pos` covers, `spec_token_kind` its kind,
// and `spec_tokens` the whole token sequence, ending in the synthetic `Eof`.
// ---------------------------------------------------------------------------

/// Number of digit characters starting at `pos`.
pub open spec fn digit_run_len(text: Seq<char>, pos: int) -> nat
    decreases text.len() - pos,
{
    if 0 <= pos && pos < text.len() && digit_char(text[pos]) {
        1 + digit_run_len(text, pos + 1)
    } else {
        0
    }
}

/// Number of alphabetic characters starting at `pos`.
pub open spec fn alpha_run_len(text: Seq<char>, pos: int) -> nat
    decreases text.len() - pos,
{
    if 0 <= pos && pos < text.len() && alphabetic_char(text[pos]) {
        1 + alpha_run_len(text, pos + 1)
    } else {
        0
    }
}

/// The value of the digit run `[pos, end)` accumulated left to right as
/// `n = n * 10 + d`, wrapping on overflow exactly as the scanner does.
pub open spec fn number_value(text: Seq<char>, pos: int, end: int, acc: i64) -> i64
    decreases end - pos,
{
    if pos < end {
        number_value(
            text,
            pos + 1,
            end,
            vstd::wrapping::i64_specs::wrapping_add(
                vstd::wrapping::i64_specs::wrapping_mul(acc, 10),
                digit_value(text[pos]),
            ),
        )
    } else {
        acc
    }
}

/// Width in characters of the token starting at `pos` (assumes `pos` is in
/// range); always at least one.
pub open spec fn spec_token_width(text: Seq<char>, pos: int) -> nat {
    let c = text[pos];
    if digit_char(c) {
        1 + digit_run_len(text, pos + 1)
    } else if whitespace_char(c) {
        1
    } else if alphabetic_char(c) {
        1 + alpha_run_len(text, pos + 1)
    } else if c == '*' && pos + 2 <= text.len() && text[pos + 1] == '*' {
        2
    } else {
        1
    }
}

/// Kind of the single punctuation character `c` (with `wide` set when a `**`
/// pair was consumed).
pub open spec fn punctuation_kind(c: char, wide: bool) -> TokenType {
    if c == '+' {
        TokenType::Plus
    } else if c == '-' {
        TokenType::Minus
    } else if c == '*' {
        if wide {
            TokenType::DoubleAsterisk
        } else {
            TokenType::Asterisk
        }
    } else if c == '/' {
        TokenType::ForwardSlash
    } else if c == '(' {
        TokenType::LeftParenthesis
    } else if c == ')' {
        TokenType::RightParenthesis
    } else if c == '=' {
        TokenType::Equal
    } else if c == '&' {
        TokenType::Ampersand
    } else if c == '|' {
        TokenType::Pipe
    } else if c == '^' {
        TokenType::Caret
    } else if c == '\\' {
        TokenType::BackSlash
    } else {
        TokenType::BadChar
    }
}

/// Kind of the token starting at `pos` (assumes `pos` is in range).
pub open spec fn spec_token_kind(text: Seq<char>, pos: int) -> TokenType {
    let c = text[pos];
    let w = spec_token_width(text, pos);
    if digit_char(c) {
        TokenType::Number(number_value(text, pos, pos + w, 0))
    } else if whitespace_char(c) {
        TokenType::WhiteSpace
    } else if alphabetic_char(c) {
        if text.subrange(pos, pos + w) == "let"@ {
            TokenType::Let
        } else {
            TokenType::Identifier
        }
    } else {
        punctuation_kind(c, w == 2)
    }
}

/// The token starting at `pos` (assumes `pos` is in range).
pub open spec fn spec_token_at(text: Seq<char>, pos: int) -> TokenView {
    let w = spec_token_width(text, pos);
    TokenView {
        kind: spec_token_kind(text, pos),
        span: SpanView { start: pos, end: pos + w, literal: text.subrange(pos, pos + w) },
    }
}

/// The synthetic end-of-input token, carrying an empty span at offset `len`.
pub open spec fn eof_token_at(len: int) -> TokenView {
    TokenView {
        kind: TokenType::Eof,
        span: SpanView { start: len, end: len, literal: Seq::<char>::empty() },
    }
}

/// The full token sequence of `text` from `pos` on, ending with `Eof`.
pub open spec fn spec_tokens(text: Seq<char>, pos: int) -> Seq<TokenView>
    decreases text.len() - pos + 1,
        via spec_tokens_decreases
{
    if 0 <= pos && pos < text.len() {
        seq![spec_token_at(text, pos)]
            + spec_tokens(text, pos + spec_token_width(text, pos))
    } else if pos == text.len() {
        seq![eof_token_at(text.len() as int)]
    } else {
        seq![]
    }
}

#[via_fn]
proof fn spec_tokens_decreases(text: Seq<char>, pos: int) {
    if 0 <= pos && pos < text.len() {
        lemma_token_width_bounds(text, pos);
    }
}

impl<'a> Lexer<'a> {
    /// The lexer still has tokens to hand out (the `Eof` token included)
    /// while its position has not moved past the end marker.
    pub closed spec fn wf(self) -> bool {
        self.current_position <= self.input@.len() + 1 && self.input@.len() < usize::MAX
    }

    pub closed spec fn spec_input(self) -> Seq<char> {
        self.input@
    }

    pub closed spec fn spec_position(self) -> int {
        self.current_position as int
    }

    pub fn new(input: &'a str) -> (r: Self)
        requires
            input@.len() < usize::MAX,
        ensures
            r.wf(),
            r.spec_input() == input@,
            r.spec_position() == 0,
    {
        Self { input, current_position: 0 }
    }

    /// Hands out the next token: the token starting at the current position,
    /// the synthetic `Eof` exactly once at the end of input, and `None` from
    /// then on.
    pub fn next_token(&mut self) -> (r: Option<Token>)
        requires
            old(self).wf(),
        ensures
            final(self).wf(),
            final(self).spec_input() == old(self).spec_input(),
            ({
                let text = old(self).spec_input();
                let pos = old(self).spec_position();
                if pos < text.len() {
                    &&& r is Some
                    &&& r->Some_0@ == spec_token_at(text, pos)
                    &&& r->Some_0.span.wf()
                    &&& final(self).spec_position() == pos + spec_token_width(text, pos)
                } else if pos == text.len() {
                    &&& r is Some
                    &&& r->Some_0@ == eof_token_at(text.len() as int)
                    &&& r->Some_0.span.wf()
                    &&& final(self).spec_position() == pos + 1
                } else {
                    &&& r is None
                    &&& final(self).spec_position() == pos
                }
            }),
    {
        let len: usize = self.input.unicode_len();
        if self.current_position == len {
            self.current_position = self.current_position + 1;
            return Some(Token::new(
                TokenType::Eof,
                TextSpan::new(len, len, String::new()),
            ));
        }
        if self.current_position > len {
            return None;
        }

        let start: usize = self.current_position;
        let c: char = self.input.get_char(start);
        let kind: TokenType;
        if Self::is_number_start(&c) {
            let number: i64 = self.consume_number();
            kind = TokenType::Number(number);
        } else if Self::is_whitespace(&c) {
            self.consume();
            kind = TokenType::WhiteSpace;
        } else if Self::is_identifier_start(&c) {
            let identifier = self.consume_identifier();
            kind = if identifier == String::from_str("let") {
                TokenType::Let
            } else {
                TokenType::Identifier
            };
        } else {
            kind = self.consume_punctuation();
        }

        proof {
            lemma_token_width_bounds(self.spec_input(), start as int);
        }
        let end: usize = self.current_position;
        let literal = self.input.substring_char(start, end).to_owned();
        let span = TextSpan::new(start, end, literal);
        Some(Token::new(kind, span))
    }

    /// Decimal digits start a number; the behaviour of `char::is_digit(10)`
    /// restated directly.
    fn is_number_start(c: &char) -> (r: bool)
        ensures
            r == digit_char(*c),
    {
        let u: u32 = *c as u32;
        48 <= u && u <= 57
    }

    /// Relies on `char::is_alphabetic`: the Unicode `Alphabetic` class,
    /// depending on the character alone.
    #[verifier::external_body]
    fn is_identifier_start(c: &char) -> (r: bool)
        ensures
            r == alphabetic_char(*c),
    {
        c.is_alphabetic()
    }

    /// Relies on `char::is_whitespace`: the Unicode `White_Space` class,
    /// depending on the character alone.
    #[verifier::external_body]
    fn is_whitespace(c: &char) -> (r: bool)
        ensures
            r == whitespace_char(*c),
    {
        c.is_whitespace()
    }

    fn current(&self) -> (r: Option<char>)
        requires
            self.wf(),
        ensures
            self.spec_position() < self.spec_input().len() ==> r == Some(
                self.spec_input()[self.spec_position()],
            ),
            self.spec_position() >= self.spec_input().len() ==> r is None,
    {
        let len: usize = self.input.unicode_len();
        if self.current_position < len {
            Some(self.input.get_char(self.current_position))
        } else {
            None
        }
    }

    fn consume(&mut self) -> (r: Option<char>)
        requires
            old(self).wf(),
        ensures
            final(self).wf(),
            final(self).spec_input() == old(self).spec_input(),
            ({
                let text = old(self).spec_input();
                let pos = old(self).spec_position();
                if pos < text.len() {
                    r == Some(text[pos]) && final(self).spec_position() == pos + 1
                } else {
                    r is None && final(self).spec_position() == pos
                }
            }),
    {
        let len: usize = self.input.unicode_len();
        if self.current_position >= len {
            return None;
        }
        let c = self.input.get_char(self.current_position);
        self.current_position = self.current_position + 1;
        Some(c)
    }

    /// Consumes a maximal run of decimal digits, accumulating the value with
    /// wrapping arithmetic (very large literals silently wrap).
    fn consume_number(&mut self) -> (r: i64)
        requires
            old(self).wf(),
            old(self).spec_position() < old(self).spec_input().len(),
            digit_char(old(self).spec_input()[old(self).spec_position()]),
        ensures
            final(self).wf(),
            final(self).spec_input() == old(self).spec_input(),
            ({
                let text = old(self).spec_input();
                let pos = old(self).spec_position();
                let end = pos + 1 + digit_run_len(text, pos + 1);
                final(self).spec_position() == end && r == number_value(text, pos, end, 0)
            }),
    {
        let ghost text = self.spec_input();
        let ghost start = self.spec_position();
        let ghost end = start + 1 + digit_run_len(text, start + 1);
        proof {
            lemma_digit_run_extends(text, start);
        }
        let mut number: i64 = 0;
        loop
            invariant
                self.wf(),
                self.spec_input() == text,
                start <= self.spec_position() <= end <= text.len(),
                forall|i: int| self.spec_position() <= i < end ==> digit_char(text[i]),
                end < text.len() ==> !digit_char(text[end]),
                number_value(text, start, end, 0) == number_value(
                    text,
                    self.spec_position(),
                    end,
                    number,
                ),
            ensures
                self.wf(),
                self.spec_input() == text,
                self.spec_position() == end,
                number == number_value(text, start, end, 0),
            decreases end - self.spec_position(),
        {
            let c = match self.current() {
                Some(c) => c,
                None => {
                    break;
                },
            };
            if !Self::is_number_start(&c) {
                proof {
                    if self.spec_position() < end {
                        assert(digit_char(text[self.spec_position()]));
                    }
                }
                break;
            }
            proof {
                if self.spec_position() == end {
                    assert(end < text.len() && digit_char(text[end]));
                }
            }
            self.consume();
            let digit: i64 = (c as u32 - 48) as i64;
            number = number.wrapping_mul(10).wrapping_add(digit);
        }
        number
    }

    /// Consumes a maximal alphabetic run and returns it as a string.
    fn consume_identifier(&mut self) -> (r: String)
        requires
            old(self).wf(),
            old(self).spec_position() < old(self).spec_input().len(),
            alphabetic_char(old(self).spec_input()[old(self).spec_position()]),
        ensures
            final(self).wf(),
            final(self).spec_input() == old(self).spec_input(),
            ({
                let text = old(self).spec_input();
                let pos = old(self).spec_position();
                let end = pos + 1 + alpha_run_len(text, pos + 1);
                final(self).spec_position() == end && r@ == text.subrange(pos, end)
            }),
    {
        let ghost text = self.spec_input();
        let start: usize = self.current_position;
        let ghost end = start + 1 + alpha_run_len(text, start as int + 1);
        proof {
            lemma_alpha_run_extends(text, start as int);
        }
        loop
            invariant
                self.wf(),
                self.spec_input() == text,
                start <= self.spec_position() <= end <= text.len(),
                forall|i: int| self.spec_position() <= i < end ==> alphabetic_char(text[i]),
                end < text.len() ==> !alphabetic_char(text[end]),
            ensures
                self.wf(),
                self.spec_input() == text,
                self.spec_position() == end,
            decreases end - self.spec_position(),
        {
            let c = match self.current() {
                Some(c) => c,
                None => {
                    break;
                },
            };
            if !Self::is_identifier_start(&c) {
                proof {
                    if self.spec_position() < end {
                        assert(alphabetic_char(text[self.spec_position()]));
                    }
                }
                break;
            }
            proof {
                if self.spec_position() == end {
                    assert(end < text.len() && alphabetic_char(text[end]));
                }
            }
            self.consume();
        }
        let stop: usize = self.current_position;
        self.input.substring_char(start, stop).to_owned()
    }

    /// Consumes one punctuation character, or a `**` pair, and classifies it;
    /// anything unrecognised becomes `BadChar`.
    fn consume_punctuation(&mut self) -> (r: TokenType)
        requires
            old(self).wf(),
            old(self).spec_position() < old(self).spec_input().len(),
            !digit_char(old(self).spec_input()[old(self).spec_position()]),
            !whitespace_char(old(self).spec_input()[old(self).spec_position()]),
            !alphabetic_char(old(self).spec_input()[old(self).spec_position()]),
        ensures
            final(self).wf(),
            final(self).spec_input() == old(self).spec_input(),
            ({
                let text = old(self).spec_input();
                let pos = old(self).spec_position();
                let w = spec_token_width(text, pos);
                final(self).spec_position() == pos + w && r == spec_token_kind(text, pos)
            }),
    {
        let c = match self.consume() {
            Some(c) => c,
            None => { return TokenType::BadChar; },
        };
        match c {
            '+' => TokenType::Plus,
            '-' => TokenType::Minus,
            '*' => {
                let next = self.current();
                if next == Some('*') {
                    self.consume();
                    TokenType::DoubleAsterisk
                } else {
                    TokenType::Asterisk
                }
            },
            '/' => TokenType::ForwardSlash,
            '(' => TokenType::LeftParenthesis,
            ')' => TokenType::RightParenthesis,
            '=' => TokenType::Equal,
            '&' => TokenType::Ampersand,
            '|' => TokenType::Pipe,
            '^' => TokenType::Caret,
            '\\' => TokenType::BackSlash,
            _ => TokenType::BadChar,
        }
    }
}

// ---------------------------------------------------------------------------
// Facts about the scanner runs.
// ---------------------------------------------------------------------------

proof fn lemma_digit_run_extends(text: Seq<char>, pos: int)
    requires
        0 <= pos < text.len(),
        digit_char(text[pos]),
    ensures
        pos + 1 + digit_run_len(text, pos + 1) <= text.len(),
        forall|i: int|
            pos <= i < pos + 1 + digit_run_len(text, pos + 1) ==> digit_char(text[i]),
        pos + 1 + digit_run_len(text, pos + 1) < text.len() ==> !digit_char(
            text[pos + 1 + digit_run_len(text, pos + 1)],
        ),
{
    lemma_digit_run_props(text, pos + 1);
}

proof fn lemma_digit_run_props(text: Seq<char>, pos: int)
    requires
        0 <= pos <= text.len(),
    ensures
        pos + digit_run_len(text, pos) <= text.len(),
        forall|i: int| pos <= i < pos + digit_run_len(text, pos) ==> digit_char(text[i]),
        pos + digit_run_len(text, pos) < text.len() ==> !digit_char(
            text[pos + digit_run_len(text, pos)],
        ),
    decreases text.len() - pos,
{
    if pos < text.len() && digit_char(text[pos]) {
        lemma_digit_run_props(text, pos + 1);
    }
}

proof fn lemma_alpha_run_extends(text: Seq<char>, pos: int)
    requires
        0 <= pos < text.len(),
        alphabetic_char(text[pos]),
    ensures
        pos + 1 + alpha_run_len(text, pos + 1) <= text.len(),
        forall|i: int|
            pos <= i < pos + 1 + alpha_run_len(text, pos + 1) ==> alphabetic_char(text[i]),
        pos + 1 + alpha_run_len(text, pos + 1) < text.len() ==> !alphabetic_char(
            text[pos + 1 + alpha_run_len(text, pos + 1)],
        ),
{
    lemma_alpha_run_props(text, pos + 1);
}

proof fn lemma_alpha_run_props(text: Seq<char>, pos: int)
    requires
        0 <= pos <= text.len(),
    ensures
        pos + alpha_run_len(text, pos) <= text.len(),
        forall|i: int| pos <= i < pos + alpha_run_len(text, pos) ==> alphabetic_char(text[i]),
        pos + alpha_run_len(text, pos) < text.len() ==> !alphabetic_char(
            text[pos + alpha_run_len(text, pos)],
        ),
    decreases text.len() - pos,
{
    if pos < text.len() && alphabetic_char(text[pos]) {
        lemma_alpha_run_props(text, pos + 1);
    }
}

/// Every token covers at least one character, and never reaches past the end
/// of the text.
pub proof fn lemma_token_width_bounds(text: Seq<char>, pos: int)
    requires
        0 <= pos < text.len(),
    ensures
        1 <= spec_token_width(text, pos),
        pos + spec_token_width(text, pos) <= text.len(),
{
    let c = text[pos];
    if digit_char(c) {
        lemma_digit_run_props(text, pos + 1);
    } else if whitespace_char(c) {
    } else if alphabetic_char(c) {
        lemma_alpha_run_props(text, pos + 1);
    }
}

/// The token sequence is never empty and always ends with the `Eof`
/// sentinel.
pub proof fn lemma_spec_tokens_shape(text: Seq<char>, pos: int)
    requires
        0 <= pos <= text.len(),
    ensures
        spec_tokens(text, pos).len() >= 1,
        spec_tokens(text, pos).last() == eof_token_at(text.len() as int),
    decreases text.len() - pos,
{
    if pos < text.len() {
        lemma_token_width_bounds(text, pos);
        lemma_spec_tokens_shape(text, pos + spec_token_width(text, pos));
    }
}

/// Concatenation of a sequence of character sequences.
pub open spec fn concat_seqs(parts: Seq<Seq<char>>) -> Seq<char>
    decreases parts.len(),
{
    if parts.len() == 0 {
        Seq::empty()
    } else {
        parts[0] + concat_seqs(parts.drop_first())
    }
}

/// The literals of a token sequence, in order.
pub open spec fn token_literals(tokens: Seq<TokenView>) -> Seq<Seq<char>> {
    tokens.map_values(|t: TokenView| t.span.literal)
}

/// Lexing loses nothing: concatenating the literal of every token the lexer
/// produces for `text`, in order, reconstructs `text` exactly.
pub proof fn lemma_lexing_covers_input(text: Seq<char>)
    ensures
        concat_seqs(token_literals(spec_tokens(text, 0))) == text,
{
    lemma_lexing_covers_suffix(text, 0);
    assert(text.subrange(0, text.len() as int) =~= text);
}

proof fn lemma_lexing_covers_suffix(text: Seq<char>, pos: int)
    requires
        0 <= pos <= text.len(),
    ensures
        concat_seqs(token_literals(spec_tokens(text, pos))) == text.subrange(
            pos,
            text.len() as int,
        ),
    decreases text.len() - pos,
{
    if pos < text.len() {
        let w = spec_token_width(text, pos);
        lemma_token_width_bounds(text, pos);
        lemma_lexing_covers_suffix(text, pos + w);
        let toks = spec_tokens(text, pos);
        assert(token_literals(toks).drop_first() =~= token_literals(spec_tokens(text, pos + w)));
        assert(text.subrange(pos, pos + w) + text.subrange(pos + w, text.len() as int)
            =~= text.subrange(pos, text.len() as int));
    } else {
        let toks = spec_tokens(text, pos);
        let lits = token_literals(toks);
        assert(lits =~= seq![Seq::<char>::empty()]);
        assert(lits.drop_first() =~= Seq::<Seq<char>>::empty());
        assert(concat_seqs(lits.drop_first()) == Seq::<char>::empty());
        assert(concat_seqs(lits) =~= text.subrange(pos, text.len() as int));
    }
}

} // verus!
