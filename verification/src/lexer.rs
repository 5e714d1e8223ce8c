//! Lexer of the schema language.
//!
//! The token stream of a text is defined by [`tokenize_spec`], a function on
//! `Seq<char>`; [`tokenize`] computes exactly that stream or that error.

use vstd::prelude::*;
use vstd::string::*;
use crate::text::{chars_of, is_ascii_lower, is_ascii_upper, is_digit, str_eq, string_from_chars};

verus! {

/// A token of the schema language.
#[derive(Debug, Clone, PartialEq, Eq)]
pub enum Token {
    Identifier(String),
    Integer(i64),
    /// A floating-point literal, kept as the text that was written.
    Float(String),
    /// The characters between the quotes, escapes left as written.
    StringLiteral(String),
    Message,
    Enum,
    True,
    False,
    Colon,
    Semicolon,
    Comma,
    LeftBrace,
    RightBrace,
    LeftBracket,
    RightBracket,
    Equals,
    Question,
}

/// The mathematical value of a [`Token`].
pub enum TokenView {
    Identifier(Seq<char>),
    Integer(i64),
    Float(Seq<char>),
    StringLiteral(Seq<char>),
    Message,
    Enum,
    True,
    False,
    Colon,
    Semicolon,
    Comma,
    LeftBrace,
    RightBrace,
    LeftBracket,
    RightBracket,
    Equals,
    Question,
}

impl View for Token {
    type V = TokenView;

    open spec fn view(&self) -> TokenView {
        match self {
            Token::Identifier(s) => TokenView::Identifier(s@),
            Token::Integer(v) => TokenView::Integer(*v),
            Token::Float(s) => TokenView::Float(s@),
            Token::StringLiteral(s) => TokenView::StringLiteral(s@),
            Token::Message => TokenView::Message,
            Token::Enum => TokenView::Enum,
            Token::True => TokenView::True,
            Token::False => TokenView::False,
            Token::Colon => TokenView::Colon,
            Token::Semicolon => TokenView::Semicolon,
            Token::Comma => TokenView::Comma,
            Token::LeftBrace => TokenView::LeftBrace,
            Token::RightBrace => TokenView::RightBrace,
            Token::LeftBracket => TokenView::LeftBracket,
            Token::RightBracket => TokenView::RightBracket,
            Token::Equals => TokenView::Equals,
            Token::Question => TokenView::Question,
        }
    }
}

/// The values of a sequence of tokens.
pub open spec fn token_views(tokens: Seq<Token>) -> Seq<TokenView> {
    tokens.map_values(|t: Token| t@)
}

/// What kind of token a token is, without its text or value.
#[derive(Debug, Clone, Copy, PartialEq, Eq, Structural)]
pub enum TokenKind {
    Identifier,
    Integer,
    Float,
    StringLiteral,
    Message,
    Enum,
    True,
    False,
    Colon,
    Semicolon,
    Comma,
    LeftBrace,
    RightBrace,
    LeftBracket,
    RightBracket,
    Equals,
    Question,
}

/// The kind of a token value.
pub open spec fn kind_of(t: TokenView) -> TokenKind {
    match t {
        TokenView::Identifier(_) => TokenKind::Identifier,
        TokenView::Integer(_) => TokenKind::Integer,
        TokenView::Float(_) => TokenKind::Float,
        TokenView::StringLiteral(_) => TokenKind::StringLiteral,
        TokenView::Message => TokenKind::Message,
        TokenView::Enum => TokenKind::Enum,
        TokenView::True => TokenKind::True,
        TokenView::False => TokenKind::False,
        TokenView::Colon => TokenKind::Colon,
        TokenView::Semicolon => TokenKind::Semicolon,
        TokenView::Comma => TokenKind::Comma,
        TokenView::LeftBrace => TokenKind::LeftBrace,
        TokenView::RightBrace => TokenKind::RightBrace,
        TokenView::LeftBracket => TokenKind::LeftBracket,
        TokenView::RightBracket => TokenKind::RightBracket,
        TokenView::Equals => TokenKind::Equals,
        TokenView::Question => TokenKind::Question,
    }
}

impl Token {
    /// The kind of this token.
    pub fn kind(&self) -> (k: TokenKind)
        ensures
            k == kind_of(self@),
    {
        match self {
            Token::Identifier(_) => TokenKind::Identifier,
            Token::Integer(_) => TokenKind::Integer,
            Token::Float(_) => TokenKind::Float,
            Token::StringLiteral(_) => TokenKind::StringLiteral,
            Token::Message => TokenKind::Message,
            Token::Enum => TokenKind::Enum,
            Token::True => TokenKind::True,
            Token::False => TokenKind::False,
            Token::Colon => TokenKind::Colon,
            Token::Semicolon => TokenKind::Semicolon,
            Token::Comma => TokenKind::Comma,
            Token::LeftBrace => TokenKind::LeftBrace,
            Token::RightBrace => TokenKind::RightBrace,
            Token::LeftBracket => TokenKind::LeftBracket,
            Token::RightBracket => TokenKind::RightBracket,
            Token::Equals => TokenKind::Equals,
            Token::Question => TokenKind::Question,
        }
    }
}

/// Why a text is not a schema: the first thing the lexer or the parser
/// could not accept.
#[derive(Debug, Clone, Copy, PartialEq, Eq, Structural)]
pub enum SyntaxError {
    /// A character that starts no token; a `-` that no digit follows is one.
    UnexpectedCharacter(char),
    /// An integer literal outside the range of `i64`.
    IntegerOutOfRange,
    /// Something other than `message` or `enum` where an item must start.
    ExpectedItem,
    /// A token of the first kind was required; the second is the kind that
    /// was found, `None` at the end of the input.
    ExpectedToken(TokenKind, Option<TokenKind>),
    /// An identifier was required; the flag tells that the input had ended.
    ExpectedIdentifier(bool),
    /// An integer was required; the flag tells that the input had ended.
    ExpectedInteger(bool),
    /// A default value was required; the flag tells that the input had ended.
    ExpectedDefaultValue(bool),
}

/// Blank characters between tokens.
pub open spec fn is_space(c: char) -> bool {
    c == ' ' || c == '\t' || c == '\n' || c == '\r'
}

/// Characters that may start an identifier.
pub open spec fn is_ident_start(c: char) -> bool {
    is_ascii_lower(c) || is_ascii_upper(c) || c == '_'
}

/// Characters that may continue an identifier.
pub open spec fn is_ident_part(c: char) -> bool {
    is_ident_start(c) || is_digit(c)
}

/// The end of the run of identifier characters that starts at `i`.
pub open spec fn ident_end(s: Seq<char>, i: int) -> int
    decreases s.len() - i,
{
    if 0 <= i < s.len() && is_ident_part(s[i]) {
        ident_end(s, i + 1)
    } else {
        i
    }
}

/// The end of the run of digits that starts at `i`.
pub open spec fn digits_end(s: Seq<char>, i: int) -> int
    decreases s.len() - i,
{
    if 0 <= i < s.len() && is_digit(s[i]) {
        digits_end(s, i + 1)
    } else {
        i
    }
}

/// The position of the first line feed at or after `i`, or the end of the
/// text.
pub open spec fn line_end(s: Seq<char>, i: int) -> int
    decreases s.len() - i,
{
    if 0 <= i < s.len() && s[i] != '\n' {
        line_end(s, i + 1)
    } else {
        i
    }
}

/// The position just after the first `*/` at or after `i`, or the end of
/// the text where the comment is never closed.
pub open spec fn block_end(s: Seq<char>, i: int) -> int
    decreases s.len() - i,
{
    if i < 0 || i + 1 >= s.len() {
        s.len() as int
    } else if s[i] == '*' && s[i + 1] == '/' {
        i + 2
    } else {
        block_end(s, i + 1)
    }
}

/// The position of the quote that closes a string literal whose content
/// starts at `i`, or the end of the text where there is none. A backslash
/// takes the character after it along.
pub open spec fn string_end(s: Seq<char>, i: int) -> int
    decreases s.len() - i,
{
    if i < 0 || i >= s.len() {
        s.len() as int
    } else if s[i] == '"' {
        i
    } else if s[i] == '\\' && i + 1 < s.len() {
        string_end(s, i + 2)
    } else {
        string_end(s, i + 1)
    }
}

/// The number that a run of decimal digits denotes.
pub open spec fn digits_value(digits: Seq<char>) -> nat
    decreases digits.len(),
{
    if digits.len() == 0 {
        0
    } else {
        (digits_value(digits.drop_last()) * 10 + (digits.last() as nat - 48)) as nat
    }
}

/// The token that a word stands for: a keyword or an identifier.
pub open spec fn word_token(word: Seq<char>) -> TokenView {
    if word == "message"@ {
        TokenView::Message
    } else if word == "enum"@ {
        TokenView::Enum
    } else if word == "true"@ {
        TokenView::True
    } else if word == "false"@ {
        TokenView::False
    } else {
        TokenView::Identifier(word)
    }
}

/// The token that a punctuation character stands for.
pub open spec fn punctuation(c: char) -> Option<TokenView> {
    if c == ':' {
        Some(TokenView::Colon)
    } else if c == ';' {
        Some(TokenView::Semicolon)
    } else if c == '{' {
        Some(TokenView::LeftBrace)
    } else if c == '}' {
        Some(TokenView::RightBrace)
    } else if c == '[' {
        Some(TokenView::LeftBracket)
    } else if c == ']' {
        Some(TokenView::RightBracket)
    } else if c == '=' {
        Some(TokenView::Equals)
    } else if c == ',' {
        Some(TokenView::Comma)
    } else if c == '?' {
        Some(TokenView::Question)
    } else {
        None
    }
}

/// What the lexer does at one position of the text.
pub enum LexStep {
    /// Blank space or a comment: go on at the position given.
    Skip(int),
    /// A token, and the position after it.
    Emit(TokenView, int),
    /// No token starts here.
    Fail(SyntaxError),
}

/// The step at a digit or a `-`: an optional sign and at least one digit,
/// then, for a floating-point literal, a `.` and any digits after it.
pub open spec fn number_step(s: Seq<char>, i: int) -> LexStep {
    let negative = s[i] == '-';
    let first = if negative { i + 1 } else { i };
    let last = digits_end(s, first);
    if last == first {
        LexStep::Fail(SyntaxError::UnexpectedCharacter(s[i]))
    } else if last < s.len() && s[last] == '.' {
        let end = digits_end(s, last + 1);
        LexStep::Emit(TokenView::Float(s.subrange(i, end)), end)
    } else {
        let magnitude = digits_value(s.subrange(first, last));
        let value = if negative { -magnitude } else { magnitude as int };
        if i64::MIN <= value <= i64::MAX {
            LexStep::Emit(TokenView::Integer(value as i64), last)
        } else {
            LexStep::Fail(SyntaxError::IntegerOutOfRange)
        }
    }
}

/// The step of the lexer at position `i` of `s`.
pub open spec fn lex_step(s: Seq<char>, i: int) -> LexStep
    recommends
        0 <= i < s.len(),
{
    let c = s[i];
    if is_space(c) {
        LexStep::Skip(i + 1)
    } else if c == '/' && i + 1 < s.len() && s[i + 1] == '/' {
        LexStep::Skip(line_end(s, i))
    } else if c == '/' && i + 1 < s.len() && s[i + 1] == '*' {
        LexStep::Skip(block_end(s, i + 2))
    } else if is_ident_start(c) {
        let end = ident_end(s, i + 1);
        LexStep::Emit(word_token(s.subrange(i, end)), end)
    } else if is_digit(c) || c == '-' {
        number_step(s, i)
    } else if c == '"' {
        let close = string_end(s, i + 1);
        let next = if close < s.len() { close + 1 } else { s.len() as int };
        LexStep::Emit(TokenView::StringLiteral(s.subrange(i + 1, close)), next)
    } else {
        match punctuation(c) {
            Some(t) => LexStep::Emit(t, i + 1),
            None => LexStep::Fail(SyntaxError::UnexpectedCharacter(c)),
        }
    }
}

/// Where a step leads: behind the position it started from, and not past
/// the end of the text.
pub open spec fn step_next(step: LexStep) -> Option<int> {
    match step {
        LexStep::Skip(n) => Some(n),
        LexStep::Emit(_, n) => Some(n),
        LexStep::Fail(_) => None,
    }
}

pub proof fn lemma_ident_end_bounds(s: Seq<char>, i: int)
    requires
        0 <= i <= s.len(),
    ensures
        i <= ident_end(s, i) <= s.len(),
    decreases s.len() - i,
{
    if i < s.len() && is_ident_part(s[i]) {
        lemma_ident_end_bounds(s, i + 1);
    }
}

pub proof fn lemma_digits_end_bounds(s: Seq<char>, i: int)
    requires
        0 <= i <= s.len(),
    ensures
        i <= digits_end(s, i) <= s.len(),
        forall|k: int| i <= k < digits_end(s, i) ==> is_digit(#[trigger] s[k]),
    decreases s.len() - i,
{
    if i < s.len() && is_digit(s[i]) {
        lemma_digits_end_bounds(s, i + 1);
    }
}

pub proof fn lemma_line_end_bounds(s: Seq<char>, i: int)
    requires
        0 <= i <= s.len(),
    ensures
        i <= line_end(s, i) <= s.len(),
    decreases s.len() - i,
{
    if i < s.len() && s[i] != '\n' {
        lemma_line_end_bounds(s, i + 1);
    }
}

pub proof fn lemma_block_end_bounds(s: Seq<char>, i: int)
    requires
        0 <= i <= s.len(),
    ensures
        i <= block_end(s, i) <= s.len(),
    decreases s.len() - i,
{
    if i + 1 < s.len() && !(s[i] == '*' && s[i + 1] == '/') {
        lemma_block_end_bounds(s, i + 1);
    }
}

pub proof fn lemma_string_end_bounds(s: Seq<char>, i: int)
    requires
        0 <= i <= s.len(),
    ensures
        i <= string_end(s, i) <= s.len(),
    decreases s.len() - i,
{
    if i < s.len() && s[i] != '"' {
        if s[i] == '\\' && i + 1 < s.len() {
            lemma_string_end_bounds(s, i + 2);
        } else {
            lemma_string_end_bounds(s, i + 1);
        }
    }
}

/// Every step that does not fail moves forward and stays within the text.
pub proof fn lemma_step_advances(s: Seq<char>, i: int)
    requires
        0 <= i < s.len(),
    ensures
        step_next(lex_step(s, i)) matches Some(n) ==> i < n <= s.len(),
{
    lemma_line_end_bounds(s, i + 1);
    if i + 1 < s.len() {
        lemma_block_end_bounds(s, i + 2);
    }
    lemma_ident_end_bounds(s, i + 1);
    lemma_string_end_bounds(s, i + 1);
    let first = if s[i] == '-' { i + 1 } else { i };
    lemma_digits_end_bounds(s, first);
    let last = digits_end(s, first);
    if last < s.len() {
        lemma_digits_end_bounds(s, last + 1);
    }
}

/// The tokens of `s` from position `i` on, appended to `acc`; or the first
/// error met.
pub open spec fn lex_from(s: Seq<char>, i: int, acc: Seq<TokenView>) -> Result<
    Seq<TokenView>,
    SyntaxError,
>
    decreases s.len() - i,
{
    if i < 0 || i >= s.len() {
        Ok(acc)
    } else {
        proof {
            lemma_step_advances(s, i);
        }
        match lex_step(s, i) {
            LexStep::Skip(n) => lex_from(s, n, acc),
            LexStep::Emit(t, n) => lex_from(s, n, acc.push(t)),
            LexStep::Fail(e) => Err(e),
        }
    }
}

/// The token stream of a schema text, or the first lexical error in it.
pub open spec fn tokenize_spec(s: Seq<char>) -> Result<Seq<TokenView>, SyntaxError> {
    lex_from(s, 0, Seq::empty())
}

/// A run of digits denotes at least what any of its prefixes denotes.
pub proof fn lemma_digits_value_prefix(digits: Seq<char>, k: int)
    requires
        0 <= k <= digits.len(),
        forall|j: int| 0 <= j < digits.len() ==> is_digit(#[trigger] digits[j]),
    ensures
        digits_value(digits.subrange(0, k)) <= digits_value(digits),
    decreases digits.len() - k,
{
    if k == digits.len() {
        assert(digits.subrange(0, k) =~= digits);
    } else {
        let longer = digits.subrange(0, k + 1);
        assert(longer.drop_last() =~= digits.subrange(0, k));
        lemma_digits_value_prefix(digits, k + 1);
    }
}

fn is_space_char(c: char) -> (b: bool)
    ensures
        b == is_space(c),
{
    c == ' ' || c == '\t' || c == '\n' || c == '\r'
}

fn is_digit_char(c: char) -> (b: bool)
    ensures
        b == is_digit(c),
{
    c >= '0' && c <= '9'
}

fn is_ident_start_char(c: char) -> (b: bool)
    ensures
        b == is_ident_start(c),
{
    (c >= 'a' && c <= 'z') || (c >= 'A' && c <= 'Z') || c == '_'
}

fn is_ident_part_char(c: char) -> (b: bool)
    ensures
        b == is_ident_part(c),
{
    is_ident_start_char(c) || is_digit_char(c)
}

fn scan_ident(chars: &[char], from: usize) -> (end: usize)
    requires
        from <= chars@.len(),
    ensures
        end == ident_end(chars@, from as int),
        from <= end <= chars@.len(),
{
    let mut i = from;
    while i < chars.len() && is_ident_part_char(chars[i])
        invariant
            from <= i <= chars@.len(),
            ident_end(chars@, from as int) == ident_end(chars@, i as int),
        decreases chars@.len() - i,
    {
        i += 1;
    }
    i
}

fn scan_digits(chars: &[char], from: usize) -> (end: usize)
    requires
        from <= chars@.len(),
    ensures
        end == digits_end(chars@, from as int),
        from <= end <= chars@.len(),
{
    let mut i = from;
    while i < chars.len() && is_digit_char(chars[i])
        invariant
            from <= i <= chars@.len(),
            digits_end(chars@, from as int) == digits_end(chars@, i as int),
        decreases chars@.len() - i,
    {
        i += 1;
    }
    i
}

fn scan_line(chars: &[char], from: usize) -> (end: usize)
    requires
        from <= chars@.len(),
    ensures
        end == line_end(chars@, from as int),
        from <= end <= chars@.len(),
{
    let mut i = from;
    while i < chars.len() && chars[i] != '\n'
        invariant
            from <= i <= chars@.len(),
            line_end(chars@, from as int) == line_end(chars@, i as int),
        decreases chars@.len() - i,
    {
        i += 1;
    }
    i
}

fn scan_block(chars: &[char], from: usize) -> (end: usize)
    requires
        from <= chars@.len(),
    ensures
        end == block_end(chars@, from as int),
        from <= end <= chars@.len(),
{
    let mut i = from;
    while chars.len() - i > 1 && !(chars[i] == '*' && chars[i + 1] == '/')
        invariant
            from <= i <= chars@.len(),
            block_end(chars@, from as int) == block_end(chars@, i as int),
        decreases chars@.len() - i,
    {
        i += 1;
    }
    if chars.len() - i > 1 {
        i + 2
    } else {
        chars.len()
    }
}

fn scan_string(chars: &[char], from: usize) -> (end: usize)
    requires
        from <= chars@.len(),
    ensures
        end == string_end(chars@, from as int),
        from <= end <= chars@.len(),
{
    let mut i = from;
    while i < chars.len() && chars[i] != '"'
        invariant
            from <= i <= chars@.len(),
            string_end(chars@, from as int) == string_end(chars@, i as int),
        decreases chars@.len() - i,
    {
        if chars[i] == '\\' && chars.len() - i > 1 {
            i += 2;
        } else {
            i += 1;
        }
    }
    i
}

/// The number that the digits `chars[first..last]` denote, where it is at
/// most 2^63.
fn read_magnitude(chars: &[char], first: usize, last: usize) -> (m: Option<u64>)
    requires
        first <= last <= chars@.len(),
        forall|k: int| first <= k < last ==> is_digit(#[trigger] chars@[k]),
    ensures
        match m {
            Some(v) => v == digits_value(chars@.subrange(first as int, last as int)) && v
                <= 0x8000_0000_0000_0000,
            None => digits_value(chars@.subrange(first as int, last as int))
                > 0x8000_0000_0000_0000,
        },
{
    let ghost digits = chars@.subrange(first as int, last as int);
    let mut acc: u64 = 0;
    let mut i = first;
    while i < last
        invariant
            first <= i <= last <= chars@.len(),
            digits == chars@.subrange(first as int, last as int),
            forall|k: int| first <= k < last ==> is_digit(#[trigger] chars@[k]),
            acc == digits_value(chars@.subrange(first as int, i as int)),
            acc <= 0x8000_0000_0000_0000,
        decreases last - i,
    {
        let digit: u64 = (chars[i] as u8 - 48) as u64;
        proof {
            let longer = chars@.subrange(first as int, i + 1);
            assert(longer.drop_last() =~= chars@.subrange(first as int, i as int));
            assert(longer =~= digits.subrange(0, i + 1 - first));
            lemma_digits_value_prefix(digits, i + 1 - first);
        }
        if acc > 922_337_203_685_477_580 {
            return None;
        }
        let next = acc * 10 + digit;
        if next > 0x8000_0000_0000_0000 {
            return None;
        }
        acc = next;
        i += 1;
    }
    Some(acc)
}

fn word_to_token(word: String) -> (t: Token)
    ensures
        t@ == word_token(word@),
{
    if str_eq(word.as_str(), "message") {
        Token::Message
    } else if str_eq(word.as_str(), "enum") {
        Token::Enum
    } else if str_eq(word.as_str(), "true") {
        Token::True
    } else if str_eq(word.as_str(), "false") {
        Token::False
    } else {
        Token::Identifier(word)
    }
}

fn punctuation_token(c: char) -> (t: Option<Token>)
    ensures
        match punctuation(c) {
            Some(v) => t matches Some(x) && x@ == v,
            None => t is None,
        },
{
    if c == ':' {
        Some(Token::Colon)
    } else if c == ';' {
        Some(Token::Semicolon)
    } else if c == '{' {
        Some(Token::LeftBrace)
    } else if c == '}' {
        Some(Token::RightBrace)
    } else if c == '[' {
        Some(Token::LeftBracket)
    } else if c == ']' {
        Some(Token::RightBracket)
    } else if c == '=' {
        Some(Token::Equals)
    } else if c == ',' {
        Some(Token::Comma)
    } else if c == '?' {
        Some(Token::Question)
    } else {
        None
    }
}

/// The token of the number that starts at `chars[i]`, and the position
/// after it.
fn read_number(chars: &[char], i: usize) -> (r: Result<(Token, usize), SyntaxError>)
    requires
        i < chars@.len(),
        is_digit(chars@[i as int]) || chars@[i as int] == '-',
    ensures
        match number_step(chars@, i as int) {
            LexStep::Emit(t, n) => r matches Ok((x, m)) && x@ == t && m == n && i < m
                <= chars@.len(),
            LexStep::Fail(e) => r matches Err(x) && x == e,
            LexStep::Skip(_) => false,
        },
{
    let negative = chars[i] == '-';
    let first = if negative { i + 1 } else { i };
    let last = scan_digits(chars, first);
    proof {
        lemma_digits_end_bounds(chars@, first as int);
    }
    if last == first {
        return Err(SyntaxError::UnexpectedCharacter(chars[i]));
    }
    if last < chars.len() && chars[last] == '.' {
        let end = scan_digits(chars, last + 1);
        return Ok((Token::Float(string_from_chars(chars, i, end)), end));
    }
    match read_magnitude(chars, first, last) {
        None => Err(SyntaxError::IntegerOutOfRange),
        Some(magnitude) => {
            if negative {
                if magnitude == 0x8000_0000_0000_0000 {
                    Ok((Token::Integer(i64::MIN), last))
                } else {
                    Ok((Token::Integer(-(magnitude as i64)), last))
                }
            } else if magnitude > 0x7fff_ffff_ffff_ffff {
                Err(SyntaxError::IntegerOutOfRange)
            } else {
                Ok((Token::Integer(magnitude as i64), last))
            }
        },
    }
}

/// Splits a schema text into its tokens.
///
/// Blank space and comments are dropped. A string literal or a block
/// comment that is not closed runs to the end of the text.
pub fn tokenize(input: &str) -> (r: Result<Vec<Token>, SyntaxError>)
    ensures
        match tokenize_spec(input@) {
            Ok(ts) => r matches Ok(v) && token_views(v@) == ts,
            Err(e) => r matches Err(x) && x == e,
        },
{
    let owned = chars_of(input);
    let chars = owned.as_slice();
    let mut tokens: Vec<Token> = Vec::new();
    let mut i: usize = 0;
    assert(token_views(tokens@) =~= Seq::empty());
    while i < chars.len()
        invariant
            i <= chars@.len(),
            chars@ == input@,
            lex_from(chars@, i as int, token_views(tokens@)) == tokenize_spec(input@),
        decreases chars@.len() - i,
    {
        let c = chars[i];
        let ghost before = token_views(tokens@);
        proof {
            lemma_step_advances(chars@, i as int);
        }
        if is_space_char(c) {
            i += 1;
        } else if c == '/' && chars.len() - i > 1 && chars[i + 1] == '/' {
            i = scan_line(chars, i);
        } else if c == '/' && chars.len() - i > 1 && chars[i + 1] == '*' {
            i = scan_block(chars, i + 2);
        } else if is_ident_start_char(c) {
            let end = scan_ident(chars, i + 1);
            let token = word_to_token(string_from_chars(chars, i, end));
            proof {
                assert(token_views(tokens@.push(token)) =~= before.push(token@));
            }
            tokens.push(token);
            i = end;
        } else if is_digit_char(c) || c == '-' {
            match read_number(chars, i) {
                Err(e) => {
                    return Err(e);
                },
                Ok((token, next)) => {
                    proof {
                        assert(token_views(tokens@.push(token)) =~= before.push(token@));
                    }
                    tokens.push(token);
                    i = next;
                },
            }
        } else if c == '"' {
            let close = scan_string(chars, i + 1);
            let token = Token::StringLiteral(string_from_chars(chars, i + 1, close));
            proof {
                assert(token_views(tokens@.push(token)) =~= before.push(token@));
            }
            tokens.push(token);
            i = if close < chars.len() { close + 1 } else { chars.len() };
        } else {
            match punctuation_token(c) {
                None => {
                    return Err(SyntaxError::UnexpectedCharacter(c));
                },
                Some(token) => {
                    proof {
                        assert(token_views(tokens@.push(token)) =~= before.push(token@));
                    }
                    tokens.push(token);
                    i += 1;
                },
            }
        }
    }
    Ok(tokens)
}

} // verus!
