//! The scanner: turns source text into a sequence of tokens, each tagged with
//! the line and column where it starts. The scanner works on the UTF-8 bytes
//! of the source; columns count bytes.

use vstd::prelude::*;
use vstd::utf8::{decode_utf8, valid_utf8};
use crate::text::{push_char, str_equals, utf8_str};
use vstd::string::StringSliceAdditionalSpecFns;

verus! {

/// A token together with its position (1-based line and column).
#[derive(Debug, PartialEq)]
pub struct Token<'a> {
    pub line: usize,
    pub column: usize,
    pub kind: TokenKind<'a>,
}

/// The kinds of tokens; literal and identifier tokens borrow their text from the source.
#[derive(Debug, PartialEq)]
pub enum TokenKind<'a> {
    Return,
    IntKeyword,
    BoolKeyword,
    FloatKeyword,
    StringKeyword,
    PrintKeyword,
    Identifier(&'a str),
    IntNumber(&'a str),
    Bool(bool),
    FloatNumber(&'a str),
    String(&'a str),
    StructKeyword,
    Plus,
    Minus,
    Star,
    Slash,
    Equal,
    LessThan,
    GreaterThan,
    LessOrEqual,
    GreaterOrEqual,
    DoubleEqual,
    LeftParen,
    RightParen,
    LeftBrace,
    RightBrace,
    LeftBracket,
    RightBracket,
    Comma,
    Semicolon,
    Dot,
    If,
    Else,
    While,
    EoF,
}

/// A scanning failure with the position where it was detected.
#[derive(Debug, PartialEq)]
pub struct ScannerError {
    pub message: String,
    pub line: usize,
    pub column: usize,
}

/// The scanner state: the source bytes, the read position and the current line and column.
pub struct Scanner<'a> {
    source: &'a [u8],
    cursor: usize,
    line: usize,
    column: usize,
}

/// The abstract value of a token kind: the same variants, with text as characters.
pub enum Lexeme {
    Return,
    IntKeyword,
    BoolKeyword,
    FloatKeyword,
    StringKeyword,
    PrintKeyword,
    Identifier(Seq<char>),
    IntNumber(Seq<char>),
    Bool(bool),
    FloatNumber(Seq<char>),
    Str(Seq<char>),
    StructKeyword,
    Plus,
    Minus,
    Star,
    Slash,
    Equal,
    LessThan,
    GreaterThan,
    LessOrEqual,
    GreaterOrEqual,
    DoubleEqual,
    LeftParen,
    RightParen,
    LeftBrace,
    RightBrace,
    LeftBracket,
    RightBracket,
    Comma,
    Semicolon,
    Dot,
    If,
    Else,
    While,
    EoF,
}

/// The abstract value of a token.
pub struct SpecToken {
    pub line: int,
    pub column: int,
    pub kind: Lexeme,
}

/// The abstract value of a scanning failure.
pub struct SpecScanError {
    pub message: Seq<char>,
    pub line: int,
    pub column: int,
}

impl<'a> View for TokenKind<'a> {
    type V = Lexeme;

    open spec fn view(&self) -> Lexeme {
        match *self {
            TokenKind::Return => Lexeme::Return,
            TokenKind::IntKeyword => Lexeme::IntKeyword,
            TokenKind::BoolKeyword => Lexeme::BoolKeyword,
            TokenKind::FloatKeyword => Lexeme::FloatKeyword,
            TokenKind::StringKeyword => Lexeme::StringKeyword,
            TokenKind::PrintKeyword => Lexeme::PrintKeyword,
            TokenKind::Identifier(t) => Lexeme::Identifier(t@),
            TokenKind::IntNumber(t) => Lexeme::IntNumber(t@),
            TokenKind::Bool(b) => Lexeme::Bool(b),
            TokenKind::FloatNumber(t) => Lexeme::FloatNumber(t@),
            TokenKind::String(t) => Lexeme::Str(t@),
            TokenKind::StructKeyword => Lexeme::StructKeyword,
            TokenKind::Plus => Lexeme::Plus,
            TokenKind::Minus => Lexeme::Minus,
            TokenKind::Star => Lexeme::Star,
            TokenKind::Slash => Lexeme::Slash,
            TokenKind::Equal => Lexeme::Equal,
            TokenKind::LessThan => Lexeme::LessThan,
            TokenKind::GreaterThan => Lexeme::GreaterThan,
            TokenKind::LessOrEqual => Lexeme::LessOrEqual,
            TokenKind::GreaterOrEqual => Lexeme::GreaterOrEqual,
            TokenKind::DoubleEqual => Lexeme::DoubleEqual,
            TokenKind::LeftParen => Lexeme::LeftParen,
            TokenKind::RightParen => Lexeme::RightParen,
            TokenKind::LeftBrace => Lexeme::LeftBrace,
            TokenKind::RightBrace => Lexeme::RightBrace,
            TokenKind::LeftBracket => Lexeme::LeftBracket,
            TokenKind::RightBracket => Lexeme::RightBracket,
            TokenKind::Comma => Lexeme::Comma,
            TokenKind::Semicolon => Lexeme::Semicolon,
            TokenKind::Dot => Lexeme::Dot,
            TokenKind::If => Lexeme::If,
            TokenKind::Else => Lexeme::Else,
            TokenKind::While => Lexeme::While,
            TokenKind::EoF => Lexeme::EoF,
        }
    }
}

impl<'a> View for Token<'a> {
    type V = SpecToken;

    open spec fn view(&self) -> SpecToken {
        SpecToken { line: self.line as int, column: self.column as int, kind: self.kind@ }
    }
}

impl View for ScannerError {
    type V = SpecScanError;

    open spec fn view(&self) -> SpecScanError {
        SpecScanError { message: self.message@, line: self.line as int, column: self.column as int }
    }
}

/// The abstract values of a sequence of tokens.
pub open spec fn tokens_view<'a>(v: Seq<Token<'a>>) -> Seq<SpecToken> {
    v.map_values(|t: Token<'a>| t@)
}

// ---------------------------------------------------------------------------
// Byte classes (as documented for `u8::is_ascii_*`)

/// `u8::is_ascii_whitespace`: space, tab, line feed, form feed, carriage return.
pub open spec fn is_space(b: u8) -> bool {
    b == 0x20 || b == 0x09 || b == 0x0a || b == 0x0c || b == 0x0d
}

/// `u8::is_ascii_digit`.
pub open spec fn is_digit(b: u8) -> bool {
    0x30 <= b <= 0x39
}

/// `u8::is_ascii_alphabetic`.
pub open spec fn is_alpha(b: u8) -> bool {
    (0x41 <= b <= 0x5a) || (0x61 <= b <= 0x7a)
}

/// Bytes that may continue an identifier: ASCII letters, digits and '_'.
pub open spec fn is_word_byte(b: u8) -> bool {
    is_alpha(b) || is_digit(b) || b == 0x5f
}

fn byte_is_space(b: u8) -> (r: bool)
    ensures
        r == is_space(b),
{
    b == 0x20 || b == 0x09 || b == 0x0a || b == 0x0c || b == 0x0d
}

fn byte_is_digit(b: u8) -> (r: bool)
    ensures
        r == is_digit(b),
{
    0x30 <= b && b <= 0x39
}

fn byte_is_alpha(b: u8) -> (r: bool)
    ensures
        r == is_alpha(b),
{
    (0x41 <= b && b <= 0x5a) || (0x61 <= b && b <= 0x7a)
}

fn byte_is_word(b: u8) -> (r: bool)
    ensures
        r == is_word_byte(b),
{
    byte_is_alpha(b) || byte_is_digit(b) || b == 0x5f
}

// ---------------------------------------------------------------------------
// The specification of scanning

/// The byte at `i`, or 0 past the end (what the scanner's look-ahead reports).
pub open spec fn byte_at(s: Seq<u8>, i: int) -> u8 {
    if 0 <= i < s.len() {
        s[i]
    } else {
        0
    }
}

/// The end of a line comment whose text starts at `i`: the next line feed or the end of input.
pub open spec fn comment_end(s: Seq<u8>, i: int) -> int
    decreases s.len() - i,
{
    if i >= s.len() || s[i] == 0x0a {
        i
    } else {
        comment_end(s, i + 1)
    }
}

/// The end of the run of bytes satisfying `is_digit` that starts at `i`.
pub open spec fn digits_end(s: Seq<u8>, i: int) -> int
    decreases s.len() - i,
{
    if i < s.len() && is_digit(s[i]) {
        digits_end(s, i + 1)
    } else {
        i
    }
}

/// The end of the run of identifier bytes that starts at `i`.
pub open spec fn word_end(s: Seq<u8>, i: int) -> int
    decreases s.len() - i,
{
    if i < s.len() && is_word_byte(s[i]) {
        word_end(s, i + 1)
    } else {
        i
    }
}

/// The end of a number literal whose first digit is at `start`: digits, then
/// optionally a '.' followed by at least one digit and more digits.
pub open spec fn number_end(s: Seq<u8>, start: int) -> int {
    let i = digits_end(s, start + 1);
    if byte_at(s, i) == 0x2e && is_digit(byte_at(s, i + 1)) {
        digits_end(s, i + 1)
    } else {
        i
    }
}

/// Whether the number literal starting at `start` has a fractional part.
pub open spec fn number_is_float(s: Seq<u8>, start: int) -> bool {
    let i = digits_end(s, start + 1);
    byte_at(s, i) == 0x2e && is_digit(byte_at(s, i + 1))
}

/// The position reached inside a string literal, scanning from `i` with the
/// current line and column: `(position after the closing quote or end of input,
/// line, column, whether the closing quote was found)`.
pub open spec fn string_end(s: Seq<u8>, i: int, line: int, col: int) -> (int, int, int, bool)
    decreases s.len() - i,
{
    if i >= s.len() || i < 0 {
        (i, line, col, false)
    } else if s[i] == 0x22 {
        (i + 1, line, col + 1, true)
    } else if s[i] == 0x0a {
        string_end(s, i + 1, line + 1, 1)
    } else {
        string_end(s, i + 1, line, col + 1)
    }
}

/// The keyword named by a word, or an identifier.
pub open spec fn word_lexeme(t: Seq<char>) -> Lexeme {
    if t == "return"@ {
        Lexeme::Return
    } else if t == "int"@ {
        Lexeme::IntKeyword
    } else if t == "bool"@ {
        Lexeme::BoolKeyword
    } else if t == "if"@ {
        Lexeme::If
    } else if t == "else"@ {
        Lexeme::Else
    } else if t == "while"@ {
        Lexeme::While
    } else if t == "print"@ {
        Lexeme::PrintKeyword
    } else if t == "false"@ {
        Lexeme::Bool(false)
    } else if t == "true"@ {
        Lexeme::Bool(true)
    } else if t == "float"@ {
        Lexeme::FloatKeyword
    } else if t == "string"@ {
        Lexeme::StringKeyword
    } else if t == "struct"@ {
        Lexeme::StructKeyword
    } else {
        Lexeme::Identifier(t)
    }
}

/// The one-byte punctuation tokens.
pub open spec fn single_lexeme(b: u8) -> Option<Lexeme> {
    if b == 0x28 {
        Some(Lexeme::LeftParen)
    } else if b == 0x29 {
        Some(Lexeme::RightParen)
    } else if b == 0x7b {
        Some(Lexeme::LeftBrace)
    } else if b == 0x7d {
        Some(Lexeme::RightBrace)
    } else if b == 0x5b {
        Some(Lexeme::LeftBracket)
    } else if b == 0x5d {
        Some(Lexeme::RightBracket)
    } else if b == 0x3b {
        Some(Lexeme::Semicolon)
    } else if b == 0x2c {
        Some(Lexeme::Comma)
    } else if b == 0x2e {
        Some(Lexeme::Dot)
    } else if b == 0x2b {
        Some(Lexeme::Plus)
    } else if b == 0x2d {
        Some(Lexeme::Minus)
    } else if b == 0x2a {
        Some(Lexeme::Star)
    } else {
        None
    }
}

/// Message for a byte that starts no token.
pub open spec fn unexpected_message(b: u8) -> Seq<char> {
    "Unexpected character: '"@ + seq![b as char] + "'"@
}

/// Message for a string literal that is not closed before the end of input.
pub open spec fn unterminated_message() -> Seq<char> {
    "Unterminated string literal"@
}

/// Message for a literal whose bytes are not well-formed UTF-8.
pub open spec fn invalid_utf8_message() -> Seq<char> {
    "Invalid UTF-8 sequence in source"@
}

/// One step of the scanner from position `pos` (which is inside the input).
pub enum ScanStep {
    /// Nothing emitted; continue at the given state.
    Skip { pos: int, line: int, col: int },
    /// One token emitted; continue at the given state.
    Emit { token: SpecToken, pos: int, line: int, col: int },
    /// Scanning stops with an error.
    Fail { error: SpecScanError },
}

/// The token of kind `k` at `(line, col)` followed by the state `(pos, line, col2)`.
pub open spec fn emit(k: Lexeme, line: int, col: int, pos: int, col2: int) -> ScanStep {
    ScanStep::Emit { token: SpecToken { line, column: col, kind: k }, pos, line, col: col2 }
}

/// A token carrying the decoded text of `s[start..end]`, or the UTF-8 error.
pub open spec fn text_step(
    s: Seq<u8>,
    start: int,
    end: int,
    k: spec_fn(Seq<char>) -> Lexeme,
    line: int,
    col: int,
    pos: int,
    col2: int,
) -> ScanStep {
    let bytes = s.subrange(start, end);
    if valid_utf8(bytes) {
        ScanStep::Emit {
            token: SpecToken { line, column: col, kind: k(decode_utf8(bytes)) },
            pos,
            line,
            col: col2,
        }
    } else {
        ScanStep::Fail { error: SpecScanError { message: invalid_utf8_message(), line, column: col } }
    }
}

/// What the scanner does at position `pos < s.len()` with the given line and column.
pub open spec fn scan_step(s: Seq<u8>, pos: int, line: int, col: int) -> ScanStep {
    let c = s[pos];
    let p = pos + 1;
    let cl = col + 1;
    if c == 0x0a {
        ScanStep::Skip { pos: p, line: line + 1, col: 1 }
    } else if is_space(c) {
        ScanStep::Skip { pos: p, line, col: cl }
    } else if c == 0x2f {
        if byte_at(s, p) == 0x2f {
            let e = comment_end(s, p + 1);
            ScanStep::Skip { pos: e, line, col: cl + (e - p) }
        } else {
            emit(Lexeme::Slash, line, col, p, cl)
        }
    } else if c == 0x3d || c == 0x3c || c == 0x3e {
        if byte_at(s, p) == 0x3d {
            let k = if c == 0x3d {
                Lexeme::DoubleEqual
            } else if c == 0x3c {
                Lexeme::LessOrEqual
            } else {
                Lexeme::GreaterOrEqual
            };
            emit(k, line, col, p + 1, cl + 1)
        } else {
            let k = if c == 0x3d {
                Lexeme::Equal
            } else if c == 0x3c {
                Lexeme::LessThan
            } else {
                Lexeme::GreaterThan
            };
            emit(k, line, col, p, cl)
        }
    } else if single_lexeme(c) is Some {
        emit(single_lexeme(c)->0, line, col, p, cl)
    } else if c == 0x22 {
        let (e, l2, c2, closed) = string_end(s, p, line, cl);
        if closed {
            text_step(s, p, e - 1, |t: Seq<char>| Lexeme::Str(t), l2, col, e, c2)
        } else {
            ScanStep::Fail { error: SpecScanError { message: unterminated_message(), line: l2, column: c2 } }
        }
    } else if is_digit(c) {
        let e = number_end(s, pos);
        if number_is_float(s, pos) {
            text_step(s, pos, e, |t: Seq<char>| Lexeme::FloatNumber(t), line, col, e, col + (e - pos))
        } else {
            text_step(s, pos, e, |t: Seq<char>| Lexeme::IntNumber(t), line, col, e, col + (e - pos))
        }
    } else if is_alpha(c) || c == 0x5f {
        let e = word_end(s, p);
        text_step(s, pos, e, |t: Seq<char>| word_lexeme(t), line, col, e, col + (e - pos))
    } else {
        ScanStep::Fail { error: SpecScanError { message: unexpected_message(c), line, column: cl } }
    }
}

/// Facts about the position that a step reaches: it moves forward and stays within the input.
pub proof fn lemma_step_advances(s: Seq<u8>, pos: int, line: int, col: int)
    requires
        0 <= pos < s.len(),
    ensures
        scan_step(s, pos, line, col) matches ScanStep::Skip { pos: p, .. } ==> pos < p <= s.len(),
        scan_step(s, pos, line, col) matches ScanStep::Emit { pos: p, .. } ==> pos < p <= s.len(),
{
    let p = pos + 1;
    if s[pos] == 0x2f && byte_at(s, p) == 0x2f {
        lemma_comment_end(s, p + 1);
    }
    if s[pos] == 0x22 {
        lemma_string_end(s, p, line, col + 1);
    }
    if is_digit(s[pos]) {
        lemma_digits_end(s, p);
        if digits_end(s, p) + 1 <= s.len() {
            lemma_digits_end(s, digits_end(s, p) + 1);
        }
    }
    if is_alpha(s[pos]) || s[pos] == 0x5f {
        lemma_word_end(s, p);
    }
}

pub proof fn lemma_comment_end(s: Seq<u8>, i: int)
    requires
        0 <= i <= s.len(),
    ensures
        i <= comment_end(s, i) <= s.len(),
    decreases s.len() - i,
{
    if i < s.len() && s[i] != 0x0a {
        lemma_comment_end(s, i + 1);
    }
}

pub proof fn lemma_digits_end(s: Seq<u8>, i: int)
    requires
        0 <= i <= s.len(),
    ensures
        i <= digits_end(s, i) <= s.len(),
    decreases s.len() - i,
{
    if i < s.len() && is_digit(s[i]) {
        lemma_digits_end(s, i + 1);
    }
}

pub proof fn lemma_word_end(s: Seq<u8>, i: int)
    requires
        0 <= i <= s.len(),
    ensures
        i <= word_end(s, i) <= s.len(),
    decreases s.len() - i,
{
    if i < s.len() && is_word_byte(s[i]) {
        lemma_word_end(s, i + 1);
    }
}

pub proof fn lemma_string_end(s: Seq<u8>, i: int, line: int, col: int)
    requires
        0 <= i <= s.len(),
    ensures
        i <= string_end(s, i, line, col).0 <= s.len(),
        string_end(s, i, line, col).3 ==> i + 1 <= string_end(s, i, line, col).0,
        !string_end(s, i, line, col).3 ==> string_end(s, i, line, col).0 == s.len(),
        string_end(s, i, line, col).1 >= line,
        col >= 1 ==> string_end(s, i, line, col).2 >= 1,
        string_end(s, i, line, col).1 <= line + (string_end(s, i, line, col).0 - i),
        col >= 1 ==> string_end(s, i, line, col).2 <= col + (string_end(s, i, line, col).0 - i),
    decreases s.len() - i,
{
    if i < s.len() && s[i] != 0x22 {
        if s[i] == 0x0a {
            lemma_string_end(s, i + 1, line + 1, 1);
        } else {
            lemma_string_end(s, i + 1, line, col + 1);
        }
    }
}

/// Scanning from the state `(pos, line, col)` to the end of the input: the
/// tokens produced (ending with `EoF` at the final position), or the first error.
pub open spec fn scan_from(s: Seq<u8>, pos: int, line: int, col: int) -> Result<Seq<SpecToken>, SpecScanError>
    decreases s.len() - pos,
{
    if pos < 0 || pos >= s.len() {
        Ok(seq![SpecToken { line, column: col, kind: Lexeme::EoF }])
    } else {
        proof {
            lemma_step_advances(s, pos, line, col);
        }
        match scan_step(s, pos, line, col) {
            ScanStep::Skip { pos: p, line: l, col: c } => scan_from(s, p, l, c),
            ScanStep::Emit { token, pos: p, line: l, col: c } => match scan_from(s, p, l, c) {
                Ok(rest) => Ok(seq![token] + rest),
                Err(e) => Err(e),
            },
            ScanStep::Fail { error } => Err(error),
        }
    }
}

/// Scanning a whole source text (given by its UTF-8 bytes) from line 1, column 1.
pub open spec fn scan(s: Seq<u8>) -> Result<Seq<SpecToken>, SpecScanError> {
    scan_from(s, 0, 1, 1)
}

/// Whether `ts` ends with an `EoF` token and holds no other.
pub open spec fn ends_with_single_eof(ts: Seq<SpecToken>) -> bool {
    &&& ts.len() >= 1
    &&& ts.last().kind is EoF
    &&& forall|i: int| 0 <= i < ts.len() - 1 ==> !(#[trigger] ts[i].kind is EoF)
}

/// Whether every token of `ts` is at line `first_line` or later and at column 1 or
/// later, and the lines of the tokens never decrease from one token to a later one.
pub open spec fn positions_ordered(ts: Seq<SpecToken>, first_line: int) -> bool {
    &&& forall|i: int| 0 <= i < ts.len() ==> #[trigger] ts[i].line >= first_line && ts[i].column >= 1
    &&& forall|i: int, j: int| 0 <= i <= j < ts.len() ==> #[trigger] ts[i].line <= #[trigger] ts[j].line
}

/// Where one step leads: a token is never `EoF`, it stands at the line the scanner
/// continues on, at a column of 1 or more, and the line never goes back.
proof fn lemma_step_positions(s: Seq<u8>, pos: int, line: int, col: int)
    requires
        0 <= pos < s.len(),
        col >= 1,
    ensures
        scan_step(s, pos, line, col) matches ScanStep::Skip { line: l, col: c, .. } ==> l >= line && c >= 1,
        scan_step(s, pos, line, col) matches ScanStep::Emit { token, line: l, col: c, .. } ==> {
            &&& !(token.kind is EoF)
            &&& token.line == l
            &&& l >= line
            &&& token.column >= 1
            &&& c >= 1
        },
        scan_step(s, pos, line, col) matches ScanStep::Fail { error } ==> error.line >= line && error.column >= 1,
{
    let p = pos + 1;
    if s[pos] == 0x2f && byte_at(s, p) == 0x2f {
        lemma_comment_end(s, p + 1);
    }
    if s[pos] == 0x22 {
        lemma_string_end(s, p, line, col + 1);
    }
    if is_digit(s[pos]) {
        lemma_digits_end(s, p);
        if digits_end(s, p) + 1 <= s.len() {
            lemma_digits_end(s, digits_end(s, p) + 1);
        }
    }
    if is_alpha(s[pos]) || s[pos] == 0x5f {
        lemma_word_end(s, p);
    }
}

/// Scanning from any state with a column of 1 or more yields, on success, tokens
/// that end with the single `EoF` and whose positions are ordered from `line` on.
proof fn lemma_scan_from_shape(s: Seq<u8>, pos: int, line: int, col: int)
    requires
        0 <= pos,
        col >= 1,
    ensures
        scan_from(s, pos, line, col) is Ok ==> {
            &&& ends_with_single_eof(scan_from(s, pos, line, col)->Ok_0)
            &&& positions_ordered(scan_from(s, pos, line, col)->Ok_0, line)
        },
        scan_from(s, pos, line, col) is Err ==> {
            &&& scan_from(s, pos, line, col)->Err_0.line >= line
            &&& scan_from(s, pos, line, col)->Err_0.column >= 1
        },
    decreases s.len() - pos,
{
    if pos < s.len() {
        lemma_step_advances(s, pos, line, col);
        lemma_step_positions(s, pos, line, col);
        match scan_step(s, pos, line, col) {
            ScanStep::Skip { pos: p, line: l, col: c } => {
                lemma_scan_from_shape(s, p, l, c);
            },
            ScanStep::Emit { token, pos: p, line: l, col: c } => {
                lemma_scan_from_shape(s, p, l, c);
                if let Ok(rest) = scan_from(s, p, l, c) {
                    let ts = seq![token] + rest;
                    assert(ts.last() == rest.last());
                    assert forall|i: int| 0 <= i < ts.len() - 1 implies !(#[trigger] ts[i].kind is EoF) by {
                        if i > 0 {
                            assert(ts[i] == rest[i - 1]);
                        }
                    }
                    assert forall|i: int| 0 <= i < ts.len() implies #[trigger] ts[i].line >= line && ts[i].column >= 1 by {
                        if i > 0 {
                            assert(ts[i] == rest[i - 1]);
                        }
                    }
                    assert forall|i: int, j: int| 0 <= i <= j < ts.len() implies #[trigger] ts[i].line <= #[trigger] ts[j].line by {
                        if j > 0 {
                            assert(ts[j] == rest[j - 1]);
                            assert(rest[j - 1].line >= l);
                        }
                        if i > 0 {
                            assert(ts[i] == rest[i - 1]);
                        }
                    }
                }
            },
            ScanStep::Fail { .. } => {},
        }
    }
}

/// Law: a successful scan of any input ends with exactly one `EoF` token, every
/// token lies at line 1 or later and column 1 or later, and token lines never
/// decrease in the order in which the tokens come; a failed scan reports a
/// position at line 1 or later and column 1 or later.
pub proof fn law_scan_shape(s: Seq<u8>)
    ensures
        scan(s) is Ok ==> ends_with_single_eof(scan(s)->Ok_0) && positions_ordered(scan(s)->Ok_0, 1),
        scan(s) is Err ==> scan(s)->Err_0.line >= 1 && scan(s)->Err_0.column >= 1,
{
    lemma_scan_from_shape(s, 0, 1, 1);
}

// ---------------------------------------------------------------------------
// Identifiers and numbers

proof fn lemma_word_extent(s: Seq<u8>, i: int)
    requires
        0 <= i <= s.len(),
    ensures
        i <= word_end(s, i) <= s.len(),
        forall|j: int| i <= j < word_end(s, i) ==> {
            let b = #[trigger] s[j];
            (0x30 <= b <= 0x39) || (0x41 <= b <= 0x5a) || (0x61 <= b <= 0x7a) || b == 0x5f
        },
        word_end(s, i) < s.len() ==> {
            let b = s[word_end(s, i)];
            !((0x30 <= b <= 0x39) || (0x41 <= b <= 0x5a) || (0x61 <= b <= 0x7a) || b == 0x5f)
        },
    decreases s.len() - i,
{
    if i < s.len() && is_word_byte(s[i]) {
        lemma_word_extent(s, i + 1);
    }
}

proof fn lemma_digits_extent(s: Seq<u8>, i: int)
    requires
        0 <= i <= s.len(),
    ensures
        i <= digits_end(s, i) <= s.len(),
        forall|j: int| i <= j < digits_end(s, i) ==> 0x30 <= #[trigger] s[j] <= 0x39,
        digits_end(s, i) < s.len() ==> !(0x30 <= s[digits_end(s, i)] <= 0x39),
    decreases s.len() - i,
{
    if i < s.len() && is_digit(s[i]) {
        lemma_digits_extent(s, i + 1);
    }
}

/// Law (identifiers): a token that starts with an ASCII letter or `_` runs over
/// every following ASCII letter, ASCII digit and `_` and stops at the first other
/// byte (or the end): the step at such a byte emits one token and continues right
/// after the run, so `x1` is a single identifier.
pub proof fn law_identifier_extent(s: Seq<u8>, pos: int, line: int, col: int)
    requires
        0 <= pos < s.len(),
        (0x41 <= s[pos] <= 0x5a) || (0x61 <= s[pos] <= 0x7a) || s[pos] == 0x5f,
    ensures
        pos + 1 <= word_end(s, pos + 1) <= s.len(),
        forall|j: int| pos < j < word_end(s, pos + 1) ==> {
            let b = #[trigger] s[j];
            (0x30 <= b <= 0x39) || (0x41 <= b <= 0x5a) || (0x61 <= b <= 0x7a) || b == 0x5f
        },
        word_end(s, pos + 1) < s.len() ==> {
            let b = s[word_end(s, pos + 1)];
            !((0x30 <= b <= 0x39) || (0x41 <= b <= 0x5a) || (0x61 <= b <= 0x7a) || b == 0x5f)
        },
        !(scan_step(s, pos, line, col) is Skip),
        scan_step(s, pos, line, col) matches ScanStep::Emit { pos: p, .. } ==> p == word_end(s, pos + 1),
{
    lemma_word_extent(s, pos + 1);
}

/// Law (numbers): a token that starts with an ASCII digit runs over every
/// following ASCII digit; the digit run stops at the first other byte (or the end).
pub proof fn law_digit_run(s: Seq<u8>, i: int)
    requires
        0 <= i <= s.len(),
    ensures
        i <= digits_end(s, i) <= s.len(),
        forall|j: int| i <= j < digits_end(s, i) ==> 0x30 <= #[trigger] s[j] <= 0x39,
        digits_end(s, i) < s.len() ==> !(0x30 <= s[digits_end(s, i)] <= 0x39),
{
    lemma_digits_extent(s, i);
}

/// The token kind of a one-byte punctuation mark, written out byte by byte.
pub open spec fn punctuation_kind(b: u8) -> Option<Lexeme> {
    if b == 0x28 { Some(Lexeme::LeftParen) }
    else if b == 0x29 { Some(Lexeme::RightParen) }
    else if b == 0x7b { Some(Lexeme::LeftBrace) }
    else if b == 0x7d { Some(Lexeme::RightBrace) }
    else if b == 0x5b { Some(Lexeme::LeftBracket) }
    else if b == 0x5d { Some(Lexeme::RightBracket) }
    else if b == 0x3b { Some(Lexeme::Semicolon) }
    else if b == 0x2c { Some(Lexeme::Comma) }
    else if b == 0x2e { Some(Lexeme::Dot) }
    else if b == 0x2b { Some(Lexeme::Plus) }
    else if b == 0x2d { Some(Lexeme::Minus) }
    else if b == 0x2a { Some(Lexeme::Star) }
    else { None }
}

/// Law (one scanning step): a line feed moves to column 1 of the next line; a
/// space, tab, form feed or carriage return moves one column on; each punctuation
/// mark `( ) { } [ ] ; , . + - *` gives its own token; `=`, `<` and `>` give `==`,
/// `<=` and `>=` when a `=` follows, and `=`, `<` and `>` otherwise; `/` gives a
/// slash unless a second `/` starts a comment; a digit starts a number token.
pub proof fn law_scan_step_kinds(s: Seq<u8>, pos: int, line: int, col: int)
    requires
        0 <= pos < s.len(),
    ensures
        s[pos] == 0x0a ==> scan_step(s, pos, line, col) == (ScanStep::Skip { pos: pos + 1, line: line + 1, col: 1 }),
        (s[pos] == 0x20 || s[pos] == 0x09 || s[pos] == 0x0c || s[pos] == 0x0d) ==> scan_step(s, pos, line, col) == (
        ScanStep::Skip { pos: pos + 1, line, col: col + 1 }),
        punctuation_kind(s[pos]) matches Some(k) ==> scan_step(s, pos, line, col) == (ScanStep::Emit {
            token: SpecToken { line, column: col, kind: k },
            pos: pos + 1,
            line,
            col: col + 1,
        }),
        (s[pos] == 0x3d || s[pos] == 0x3c || s[pos] == 0x3e) ==> scan_step(s, pos, line, col) == (ScanStep::Emit {
            token: SpecToken {
                line,
                column: col,
                kind: if pos + 1 < s.len() && s[pos + 1] == 0x3d {
                    if s[pos] == 0x3d { Lexeme::DoubleEqual } else if s[pos] == 0x3c { Lexeme::LessOrEqual } else { Lexeme::GreaterOrEqual }
                } else {
                    if s[pos] == 0x3d { Lexeme::Equal } else if s[pos] == 0x3c { Lexeme::LessThan } else { Lexeme::GreaterThan }
                },
            },
            pos: if pos + 1 < s.len() && s[pos + 1] == 0x3d { pos + 2 } else { pos + 1 },
            line,
            col: if pos + 1 < s.len() && s[pos + 1] == 0x3d { col + 2 } else { col + 1 },
        }),
        (s[pos] == 0x2f && !(pos + 1 < s.len() && s[pos + 1] == 0x2f)) ==> scan_step(s, pos, line, col) == (
        ScanStep::Emit { token: SpecToken { line, column: col, kind: Lexeme::Slash }, pos: pos + 1, line, col: col + 1 }),
        (s[pos] == 0x2f && pos + 1 < s.len() && s[pos + 1] == 0x2f) ==> scan_step(s, pos, line, col) is Skip,
        (0x30 <= s[pos] <= 0x39) ==> !(scan_step(s, pos, line, col) is Skip)
            && (scan_step(s, pos, line, col) matches ScanStep::Emit { token, pos: p, .. } ==> p == number_end(s, pos)
            && (token.kind is IntNumber || token.kind is FloatNumber)),
{
}

/// Law (keywords): the words `return int bool if else while print float string
/// struct` are their keywords, `true` and `false` are boolean literals, and every
/// other word is an identifier holding the word.
pub proof fn law_keywords(t: Seq<char>)
    ensures
        t == "return"@ ==> word_lexeme(t) == Lexeme::Return,
        t == "int"@ ==> word_lexeme(t) == Lexeme::IntKeyword,
        t == "bool"@ ==> word_lexeme(t) == Lexeme::BoolKeyword,
        t == "if"@ ==> word_lexeme(t) == Lexeme::If,
        t == "else"@ ==> word_lexeme(t) == Lexeme::Else,
        t == "while"@ ==> word_lexeme(t) == Lexeme::While,
        t == "print"@ ==> word_lexeme(t) == Lexeme::PrintKeyword,
        t == "float"@ ==> word_lexeme(t) == Lexeme::FloatKeyword,
        t == "string"@ ==> word_lexeme(t) == Lexeme::StringKeyword,
        t == "struct"@ ==> word_lexeme(t) == Lexeme::StructKeyword,
        t == "true"@ ==> word_lexeme(t) == Lexeme::Bool(true),
        t == "false"@ ==> word_lexeme(t) == Lexeme::Bool(false),
        !(t == "return"@ || t == "int"@ || t == "bool"@ || t == "if"@ || t == "else"@ || t == "while"@
            || t == "print"@ || t == "float"@ || t == "string"@ || t == "struct"@ || t == "true"@
            || t == "false"@) ==> word_lexeme(t) == Lexeme::Identifier(t),
{
    reveal_strlit("return");
    reveal_strlit("int");
    reveal_strlit("bool");
    reveal_strlit("if");
    reveal_strlit("else");
    reveal_strlit("while");
    reveal_strlit("print");
    reveal_strlit("float");
    reveal_strlit("string");
    reveal_strlit("struct");
    reveal_strlit("true");
    reveal_strlit("false");
    assert("int"@ != "return"@) by { assert("int"@.len() != "return"@.len()); }
    assert("bool"@ != "return"@) by { assert("bool"@.len() != "return"@.len()); }
    assert("bool"@ != "int"@) by { assert("bool"@.len() != "int"@.len()); }
    assert("if"@ != "return"@) by { assert("if"@.len() != "return"@.len()); }
    assert("if"@ != "int"@) by { assert("if"@.len() != "int"@.len()); }
    assert("if"@ != "bool"@) by { assert("if"@.len() != "bool"@.len()); }
    assert("else"@ != "return"@) by { assert("else"@.len() != "return"@.len()); }
    assert("else"@ != "int"@) by { assert("else"@.len() != "int"@.len()); }
    assert("else"@ != "bool"@) by { assert("else"@[0] != "bool"@[0]); }
    assert("else"@ != "if"@) by { assert("else"@.len() != "if"@.len()); }
    assert("while"@ != "return"@) by { assert("while"@.len() != "return"@.len()); }
    assert("while"@ != "int"@) by { assert("while"@.len() != "int"@.len()); }
    assert("while"@ != "bool"@) by { assert("while"@.len() != "bool"@.len()); }
    assert("while"@ != "if"@) by { assert("while"@.len() != "if"@.len()); }
    assert("while"@ != "else"@) by { assert("while"@.len() != "else"@.len()); }
    assert("print"@ != "return"@) by { assert("print"@.len() != "return"@.len()); }
    assert("print"@ != "int"@) by { assert("print"@.len() != "int"@.len()); }
    assert("print"@ != "bool"@) by { assert("print"@.len() != "bool"@.len()); }
    assert("print"@ != "if"@) by { assert("print"@.len() != "if"@.len()); }
    assert("print"@ != "else"@) by { assert("print"@.len() != "else"@.len()); }
    assert("print"@ != "while"@) by { assert("print"@[0] != "while"@[0]); }
    assert("float"@ != "return"@) by { assert("float"@.len() != "return"@.len()); }
    assert("float"@ != "int"@) by { assert("float"@.len() != "int"@.len()); }
    assert("float"@ != "bool"@) by { assert("float"@.len() != "bool"@.len()); }
    assert("float"@ != "if"@) by { assert("float"@.len() != "if"@.len()); }
    assert("float"@ != "else"@) by { assert("float"@.len() != "else"@.len()); }
    assert("float"@ != "while"@) by { assert("float"@[0] != "while"@[0]); }
    assert("float"@ != "print"@) by { assert("float"@[0] != "print"@[0]); }
    assert("string"@ != "return"@) by { assert("string"@[0] != "return"@[0]); }
    assert("string"@ != "int"@) by { assert("string"@.len() != "int"@.len()); }
    assert("string"@ != "bool"@) by { assert("string"@.len() != "bool"@.len()); }
    assert("string"@ != "if"@) by { assert("string"@.len() != "if"@.len()); }
    assert("string"@ != "else"@) by { assert("string"@.len() != "else"@.len()); }
    assert("string"@ != "while"@) by { assert("string"@.len() != "while"@.len()); }
    assert("string"@ != "print"@) by { assert("string"@.len() != "print"@.len()); }
    assert("string"@ != "float"@) by { assert("string"@.len() != "float"@.len()); }
    assert("struct"@ != "return"@) by { assert("struct"@[0] != "return"@[0]); }
    assert("struct"@ != "int"@) by { assert("struct"@.len() != "int"@.len()); }
    assert("struct"@ != "bool"@) by { assert("struct"@.len() != "bool"@.len()); }
    assert("struct"@ != "if"@) by { assert("struct"@.len() != "if"@.len()); }
    assert("struct"@ != "else"@) by { assert("struct"@.len() != "else"@.len()); }
    assert("struct"@ != "while"@) by { assert("struct"@.len() != "while"@.len()); }
    assert("struct"@ != "print"@) by { assert("struct"@.len() != "print"@.len()); }
    assert("struct"@ != "float"@) by { assert("struct"@.len() != "float"@.len()); }
    assert("struct"@ != "string"@) by { assert("struct"@[3] != "string"@[3]); }
    assert("true"@ != "return"@) by { assert("true"@.len() != "return"@.len()); }
    assert("true"@ != "int"@) by { assert("true"@.len() != "int"@.len()); }
    assert("true"@ != "bool"@) by { assert("true"@[0] != "bool"@[0]); }
    assert("true"@ != "if"@) by { assert("true"@.len() != "if"@.len()); }
    assert("true"@ != "else"@) by { assert("true"@[0] != "else"@[0]); }
    assert("true"@ != "while"@) by { assert("true"@.len() != "while"@.len()); }
    assert("true"@ != "print"@) by { assert("true"@.len() != "print"@.len()); }
    assert("true"@ != "float"@) by { assert("true"@.len() != "float"@.len()); }
    assert("true"@ != "string"@) by { assert("true"@.len() != "string"@.len()); }
    assert("true"@ != "struct"@) by { assert("true"@.len() != "struct"@.len()); }
    assert("false"@ != "return"@) by { assert("false"@.len() != "return"@.len()); }
    assert("false"@ != "int"@) by { assert("false"@.len() != "int"@.len()); }
    assert("false"@ != "bool"@) by { assert("false"@.len() != "bool"@.len()); }
    assert("false"@ != "if"@) by { assert("false"@.len() != "if"@.len()); }
    assert("false"@ != "else"@) by { assert("false"@.len() != "else"@.len()); }
    assert("false"@ != "while"@) by { assert("false"@[0] != "while"@[0]); }
    assert("false"@ != "print"@) by { assert("false"@[0] != "print"@[0]); }
    assert("false"@ != "float"@) by { assert("false"@[1] != "float"@[1]); }
    assert("false"@ != "string"@) by { assert("false"@.len() != "string"@.len()); }
    assert("false"@ != "struct"@) by { assert("false"@.len() != "struct"@.len()); }
    assert("false"@ != "true"@) by { assert("false"@.len() != "true"@.len()); }
}

// ---------------------------------------------------------------------------
// Trailing comments

/// The kinds of a sequence of tokens.
pub open spec fn kinds(ts: Seq<SpecToken>) -> Seq<Lexeme> {
    ts.map_values(|t: SpecToken| t.kind)
}

/// A space followed by a `//` comment with text `c`.
pub open spec fn comment_suffix(c: Seq<u8>) -> Seq<u8> {
    seq![0x20u8, 0x2fu8, 0x2fu8] + c
}

/// Whether `t` holds no line feed.
pub open spec fn no_line_feed(t: Seq<u8>) -> bool {
    forall|k: int| 0 <= k < t.len() ==> #[trigger] t[k] != 0x0a
}

proof fn lemma_suffix_no_line_feed(c: Seq<u8>)
    requires
        no_line_feed(c),
    ensures
        no_line_feed(comment_suffix(c)),
        comment_suffix(c).len() == c.len() + 3,
        comment_suffix(c)[0] == 0x20,
        comment_suffix(c)[1] == 0x2f,
        comment_suffix(c)[2] == 0x2f,
{
    let t = comment_suffix(c);
    assert forall|k: int| 0 <= k < t.len() implies #[trigger] t[k] != 0x0a by {
        if k >= 3 {
            assert(t[k] == c[k - 3]);
        }
    }
}

proof fn lemma_digits_agree(s: Seq<u8>, t: Seq<u8>, i: int)
    requires
        0 <= i <= s.len(),
        t.len() > 0,
        t[0] == 0x20,
    ensures
        digits_end(s + t, i) == digits_end(s, i),
    decreases s.len() - i,
{
    let u = s + t;
    if i < s.len() {
        assert(u[i] == s[i]);
        if is_digit(s[i]) {
            lemma_digits_agree(s, t, i + 1);
        }
    } else {
        assert(u[i] == t[0]);
    }
}

proof fn lemma_word_agree(s: Seq<u8>, t: Seq<u8>, i: int)
    requires
        0 <= i <= s.len(),
        t.len() > 0,
        t[0] == 0x20,
    ensures
        word_end(s + t, i) == word_end(s, i),
    decreases s.len() - i,
{
    let u = s + t;
    if i < s.len() {
        assert(u[i] == s[i]);
        if is_word_byte(s[i]) {
            lemma_word_agree(s, t, i + 1);
        }
    } else {
        assert(u[i] == t[0]);
    }
}

proof fn lemma_comment_runs_out(u: Seq<u8>, i: int)
    requires
        0 <= i,
        forall|k: int| i <= k < u.len() ==> #[trigger] u[k] != 0x0a,
    ensures
        comment_end(u, i) == if i <= u.len() { u.len() as int } else { i },
    decreases u.len() - i,
{
    if i < u.len() {
        lemma_comment_runs_out(u, i + 1);
    }
}

proof fn lemma_comment_agree(s: Seq<u8>, t: Seq<u8>, i: int)
    requires
        0 <= i <= s.len(),
        no_line_feed(t),
    ensures
        comment_end(s, i) < s.len() ==> comment_end(s + t, i) == comment_end(s, i),
        comment_end(s, i) >= s.len() ==> comment_end(s + t, i) == s.len() + t.len(),
    decreases s.len() - i,
{
    let u = s + t;
    if i < s.len() {
        assert(u[i] == s[i]);
        if s[i] != 0x0a {
            lemma_comment_agree(s, t, i + 1);
        }
    } else {
        assert forall|k: int| i <= k < u.len() implies #[trigger] u[k] != 0x0a by {
            assert(u[k] == t[k - s.len()]);
        }
        lemma_comment_runs_out(u, i);
    }
}

proof fn lemma_string_agree(s: Seq<u8>, t: Seq<u8>, i: int, line: int, col: int)
    requires
        0 <= i <= s.len(),
        string_end(s, i, line, col).3,
    ensures
        string_end(s + t, i, line, col) == string_end(s, i, line, col),
    decreases s.len() - i,
{
    let u = s + t;
    if i < s.len() {
        assert(u[i] == s[i]);
        if s[i] != 0x22 {
            if s[i] == 0x0a {
                lemma_string_agree(s, t, i + 1, line + 1, 1);
            } else {
                lemma_string_agree(s, t, i + 1, line, col + 1);
            }
        }
    }
}

/// Whether a step skips to position `p`.
pub open spec fn skips_to(step: ScanStep, p: int) -> bool {
    step matches ScanStep::Skip { pos, .. } && pos == p
}

/// A step of the scanner inside `s` is the same step on `s` followed by a comment,
/// but for a comment that runs to the end of `s`, which then runs to the new end.
#[verifier::rlimit(40)]
proof fn lemma_step_agree(s: Seq<u8>, c: Seq<u8>, pos: int, line: int, col: int)
    requires
        no_line_feed(c),
        0 <= pos < s.len(),
    ensures
        ({
            let u = s + comment_suffix(c);
            ||| scan_step(s, pos, line, col) is Fail
            ||| scan_step(u, pos, line, col) == scan_step(s, pos, line, col)
            ||| skips_to(scan_step(s, pos, line, col), s.len() as int) && skips_to(
                scan_step(u, pos, line, col),
                u.len() as int,
            )
        }),
{
    let t = comment_suffix(c);
    lemma_suffix_no_line_feed(c);
    let u = s + t;
    let p = pos + 1;
    assert(u[pos] == s[pos]);
    assert(byte_at(u, p) == byte_at(s, p) || (p == s.len() && byte_at(u, p) == 0x20 && byte_at(s, p) == 0)) by {
        if p < s.len() {
            assert(u[p] == s[p]);
        } else {
            assert(u[p] == t[0]);
        }
    }
    let b = s[pos];
    if b == 0x2f && byte_at(s, p) == 0x2f {
        lemma_comment_agree(s, t, p + 1);
        lemma_comment_end(s, p + 1);
    } else if b == 0x22 {
        lemma_string_end(s, p, line, col + 1);
        if string_end(s, p, line, col + 1).3 {
            lemma_string_agree(s, t, p, line, col + 1);
            let e = string_end(s, p, line, col + 1).0;
            assert(u.subrange(p, e - 1) =~= s.subrange(p, e - 1));
            assert(scan_step(u, pos, line, col) == scan_step(s, pos, line, col));
        }
    } else if is_digit(b) {
        lemma_digits_agree(s, t, p);
        lemma_digits_end(s, p);
        let d = digits_end(s, p);
        assert(byte_at(u, d) == byte_at(s, d) || (d == s.len() && byte_at(u, d) == 0x20 && byte_at(s, d) == 0)) by {
            if d < s.len() {
                assert(u[d] == s[d]);
            } else {
                assert(u[d] == t[0]);
            }
        }
        if byte_at(s, d) == 0x2e {
            assert(byte_at(u, d + 1) == byte_at(s, d + 1) || (d + 1 == s.len() && byte_at(u, d + 1) == 0x20
                && byte_at(s, d + 1) == 0)) by {
                if d + 1 < s.len() {
                    assert(u[d + 1] == s[d + 1]);
                } else {
                    assert(u[d + 1] == t[0]);
                }
            }
            if is_digit(byte_at(s, d + 1)) {
                lemma_digits_agree(s, t, d + 1);
                lemma_digits_end(s, d + 1);
            }
        }
        let e = number_end(s, pos);
        assert(number_end(u, pos) == e);
        assert(number_is_float(u, pos) == number_is_float(s, pos));
        lemma_step_advances(s, pos, line, col);
        assert(u.subrange(pos, e) =~= s.subrange(pos, e));
        assert(scan_step(u, pos, line, col) == scan_step(s, pos, line, col));
    } else if is_alpha(b) || b == 0x5f {
        lemma_word_agree(s, t, p);
        lemma_word_end(s, p);
        let e = word_end(s, p);
        assert(u.subrange(pos, e) =~= s.subrange(pos, e));
        assert(scan_step(u, pos, line, col) == scan_step(s, pos, line, col));
    } else {
        assert(scan_step(u, pos, line, col) == scan_step(s, pos, line, col));
    }
}

proof fn lemma_comment_scan(s: Seq<u8>, c: Seq<u8>, pos: int, line: int, col: int)
    requires
        no_line_feed(c),
        0 <= pos <= s.len(),
        scan_from(s, pos, line, col) is Ok,
    ensures
        scan_from(s + comment_suffix(c), pos, line, col) is Ok,
        kinds(scan_from(s + comment_suffix(c), pos, line, col)->Ok_0) == kinds(scan_from(s, pos, line, col)->Ok_0),
    decreases s.len() - pos,
{
    let t = comment_suffix(c);
    lemma_suffix_no_line_feed(c);
    let u = s + t;
    if pos == s.len() {
        assert(u[pos] == 0x20);
        assert(u[pos + 1] == 0x2f);
        assert(u[pos + 2] == 0x2f);
        assert forall|k: int| pos + 3 <= k < u.len() implies #[trigger] u[k] != 0x0a by {
            assert(u[k] == t[k - s.len()]);
        }
        lemma_comment_runs_out(u, pos + 3);
        assert(scan_step(u, pos, line, col) == ScanStep::Skip { pos: pos + 1, line, col: col + 1 });
        lemma_step_advances(u, pos, line, col);
        lemma_step_advances(u, pos + 1, line, col + 1);
        assert(scan_step(u, pos + 1, line, col + 1) == ScanStep::Skip {
            pos: u.len() as int,
            line,
            col: col + 2 + (u.len() - (pos + 2)),
        });
        let l = scan_from(u, u.len() as int, line, col + 2 + (u.len() - (pos + 2)));
        assert(scan_from(u, pos + 1, line, col + 1) == l);
        assert(kinds(l->Ok_0) =~= seq![Lexeme::EoF]);
        assert(kinds(scan_from(s, pos, line, col)->Ok_0) =~= seq![Lexeme::EoF]);
    } else {
        lemma_step_advances(s, pos, line, col);
        lemma_step_advances(u, pos, line, col);
        lemma_step_agree(s, c, pos, line, col);
        match scan_step(s, pos, line, col) {
            ScanStep::Skip { pos: p, line: l, col: c2 } => {
                if scan_step(u, pos, line, col) == scan_step(s, pos, line, col) {
                    lemma_comment_scan(s, c, p, l, c2);
                } else {
                    if let ScanStep::Skip { pos: q, line: l3, col: c3 } = scan_step(u, pos, line, col) {
                        assert(kinds(scan_from(u, q, l3, c3)->Ok_0) =~= seq![Lexeme::EoF]);
                        assert(kinds(scan_from(s, p, l, c2)->Ok_0) =~= seq![Lexeme::EoF]);
                    }
                }
            },
            ScanStep::Emit { token, pos: p, line: l, col: c2 } => {
                lemma_comment_scan(s, c, p, l, c2);
                let rs = scan_from(s, p, l, c2)->Ok_0;
                let ru = scan_from(u, p, l, c2)->Ok_0;
                assert(kinds(seq![token] + rs) =~= seq![token.kind] + kinds(rs));
                assert(kinds(seq![token] + ru) =~= seq![token.kind] + kinds(ru));
            },
            ScanStep::Fail { .. } => {},
        }
    }
}

/// Law (comments): appending a space and a `//` comment, whose text holds no line
/// feed, to a source that scans successfully adds no token and causes no failure:
/// the scan still succeeds with tokens of the same kinds, in the same order.
pub proof fn law_trailing_comment(s: Seq<u8>, c: Seq<u8>)
    requires
        scan(s) is Ok,
        no_line_feed(c),
    ensures
        scan(s + comment_suffix(c)) is Ok,
        kinds(scan(s + comment_suffix(c))->Ok_0) == kinds(scan(s)->Ok_0),
{
    lemma_comment_scan(s, c, 0, 1, 1);
}

/// Prepends already emitted tokens to the outcome of scanning the rest.
pub open spec fn prepend_tokens(
    done: Seq<SpecToken>,
    rest: Result<Seq<SpecToken>, SpecScanError>,
) -> Result<Seq<SpecToken>, SpecScanError> {
    match rest {
        Ok(r) => Ok(done + r),
        Err(e) => Err(e),
    }
}

/// Whether `r`, with the scanner left at `(cur, line, col)`, is what `step` describes.
pub open spec fn step_matches<'a>(
    step: ScanStep,
    r: Result<Token<'a>, ScannerError>,
    cur: int,
    line: int,
    col: int,
) -> bool {
    match r {
        Ok(t) => step == (ScanStep::Emit { token: t@, pos: cur, line, col }),
        Err(e) => step == (ScanStep::Fail { error: e@ }),
    }
}

impl<'a> Token<'a> {
    /// A token of kind `kind` at `(line, column)`.
    pub fn new(line: usize, column: usize, kind: TokenKind<'a>) -> (t: Self)
        ensures
            t.line == line,
            t.column == column,
            t.kind == kind,
    {
        Self { line, column, kind }
    }
}

/// The token kind named by a word: a keyword, a boolean literal, or an identifier.
fn word_kind<'a>(text: &'a str) -> (k: TokenKind<'a>)
    ensures
        k@ == word_lexeme(text@),
{
    if str_equals(text, "return") {
        TokenKind::Return
    } else if str_equals(text, "int") {
        TokenKind::IntKeyword
    } else if str_equals(text, "bool") {
        TokenKind::BoolKeyword
    } else if str_equals(text, "if") {
        TokenKind::If
    } else if str_equals(text, "else") {
        TokenKind::Else
    } else if str_equals(text, "while") {
        TokenKind::While
    } else if str_equals(text, "print") {
        TokenKind::PrintKeyword
    } else if str_equals(text, "false") {
        TokenKind::Bool(false)
    } else if str_equals(text, "true") {
        TokenKind::Bool(true)
    } else if str_equals(text, "float") {
        TokenKind::FloatKeyword
    } else if str_equals(text, "string") {
        TokenKind::StringKeyword
    } else if str_equals(text, "struct") {
        TokenKind::StructKeyword
    } else {
        TokenKind::Identifier(text)
    }
}

/// The one-byte punctuation token for `b`, if any.
fn single_kind<'a>(b: u8) -> (k: Option<TokenKind<'a>>)
    ensures
        match k {
            Some(t) => single_lexeme(b) == Some(t@),
            None => single_lexeme(b) is None,
        },
{
    if b == 0x28 {
        Some(TokenKind::LeftParen)
    } else if b == 0x29 {
        Some(TokenKind::RightParen)
    } else if b == 0x7b {
        Some(TokenKind::LeftBrace)
    } else if b == 0x7d {
        Some(TokenKind::RightBrace)
    } else if b == 0x5b {
        Some(TokenKind::LeftBracket)
    } else if b == 0x5d {
        Some(TokenKind::RightBracket)
    } else if b == 0x3b {
        Some(TokenKind::Semicolon)
    } else if b == 0x2c {
        Some(TokenKind::Comma)
    } else if b == 0x2e {
        Some(TokenKind::Dot)
    } else if b == 0x2b {
        Some(TokenKind::Plus)
    } else if b == 0x2d {
        Some(TokenKind::Minus)
    } else if b == 0x2a {
        Some(TokenKind::Star)
    } else {
        None
    }
}

/// The message for a byte that starts no token.
fn unexpected_error(b: u8, line: usize, column: usize) -> (e: ScannerError)
    ensures
        e@ == (SpecScanError { message: unexpected_message(b), line: line as int, column: column as int }),
{
    let mut message = String::from_str("Unexpected character: '");
    push_char(&mut message, b as char);
    message.append("'");
    let e = ScannerError { message, line, column };
    assert(e@.message =~= unexpected_message(b));
    e
}

/// Pushing a token extends the abstract token sequence by its value.
fn push_token<'a>(tokens: &mut Vec<Token<'a>>, t: Token<'a>)
    ensures
        tokens_view(final(tokens)@) == tokens_view(old(tokens)@).push(t@),
{
    tokens.push(t);
    assert(tokens_view(tokens@) =~= tokens_view(old(tokens)@).push(t@));
}

/// Emitting one token and then the rest is the same as having emitted it already.
proof fn lemma_prepend_push(done: Seq<SpecToken>, t: SpecToken, rest: Result<Seq<SpecToken>, SpecScanError>)
    ensures
        prepend_tokens(
            done,
            match rest {
                Ok(r) => Ok(seq![t] + r),
                Err(e) => Err(e),
            },
        ) == prepend_tokens(done.push(t), rest),
{
    if let Ok(r) = rest {
        assert(done + (seq![t] + r) =~= done.push(t) + r);
    }
}

impl<'a> Scanner<'a> {
    /// The UTF-8 bytes being scanned.
    pub closed spec fn source_bytes(&self) -> Seq<u8> {
        self.source@
    }

    /// The scanner's internal consistency: positions within the input and
    /// line and column bounded by the number of bytes read.
    pub closed spec fn wf(&self) -> bool {
        &&& self.cursor <= self.source@.len()
        &&& self.source@.len() < usize::MAX
        &&& 1 <= self.line <= self.cursor + 1
        &&& 1 <= self.column <= self.cursor + 1
    }

    /// What scanning from the current state yields.
    pub closed spec fn pending(&self) -> Result<Seq<SpecToken>, SpecScanError> {
        scan_from(self.source@, self.cursor as int, self.line as int, self.column as int)
    }

    /// A scanner positioned at the start of `source` (line 1, column 1).
    pub fn new(source: &'a str) -> (sc: Self)
        requires
            source.spec_bytes().len() < usize::MAX,
        ensures
            sc.wf(),
            sc.source_bytes() == source.spec_bytes(),
            sc.pending() == scan(source.spec_bytes()),
    {
        Self { source: source.as_bytes(), cursor: 0, line: 1, column: 1 }
    }

    fn is_at_end(&self) -> (r: bool)
        ensures
            r == (self.cursor >= self.source@.len()),
    {
        self.cursor >= self.source.len()
    }

    fn peek(&self) -> (b: u8)
        ensures
            b == byte_at(self.source@, self.cursor as int),
    {
        if self.is_at_end() {
            0
        } else {
            self.source[self.cursor]
        }
    }

    fn peek_next(&self) -> (b: u8)
        requires
            self.cursor < usize::MAX,
        ensures
            b == byte_at(self.source@, self.cursor + 1),
    {
        if self.cursor + 1 >= self.source.len() {
            0
        } else {
            self.source[self.cursor + 1]
        }
    }

    fn advance(&mut self) -> (b: u8)
        requires
            old(self).wf(),
            old(self).cursor < old(self).source@.len(),
        ensures
            final(self).wf(),
            final(self).source == old(self).source,
            final(self).cursor == old(self).cursor + 1,
            final(self).line == old(self).line,
            final(self).column == old(self).column + 1,
            b == old(self).source@[old(self).cursor as int],
    {
        let byte = self.source[self.cursor];
        self.cursor += 1;
        self.column += 1;
        byte
    }

    /// Scans a string literal whose opening quote (at `pos`) was just read.
    fn scan_string(&mut self, Ghost(pos): Ghost<int>, Ghost(col): Ghost<int>) -> (r: Result<Token<'a>, ScannerError>)
        requires
            old(self).wf(),
            0 <= pos < old(self).source@.len(),
            old(self).source@[pos] == 0x22,
            old(self).cursor == pos + 1,
            old(self).column == col + 1,
        ensures
            final(self).wf(),
            final(self).source == old(self).source,
            step_matches(
                scan_step(old(self).source@, pos, old(self).line as int, col),
                r,
                final(self).cursor as int,
                final(self).line as int,
                final(self).column as int,
            ),
    {
        let ghost s = self.source@;
        let ghost l0 = self.line as int;
        let start = self.cursor;
        let start_column = self.column - 1;
        while !self.is_at_end()
            invariant
                self.wf(),
                self.source == old(self).source,
                self.source@ == s,
                start <= self.cursor,
                start == pos + 1,
                start_column == col,
                0 <= pos < s.len(),
                s[pos] == 0x22,
                l0 == old(self).line,
                s == old(self).source@,
                string_end(s, start as int, l0, col + 1) == string_end(
                    s,
                    self.cursor as int,
                    self.line as int,
                    self.column as int,
                ),
            decreases s.len() - self.cursor,
        {
            let ghost cur0 = self.cursor as int;
            let ghost ln = self.line as int;
            let ghost cl = self.column as int;
            let c = self.advance();
            if c == 0x22 {
                assert(string_end(s, cur0, ln, cl) == (cur0 + 1, ln, cl + 1, true));
                let bytes = vstd::slice::slice_subrange(self.source, start, self.cursor - 1);
                assert(bytes@ == s.subrange(pos + 1, self.cursor - 1));
                match utf8_str(bytes) {
                    Some(text) => {
                        let t = Token::new(self.line, start_column, TokenKind::String(text));
                        assert(string_end(s, pos + 1, l0, col + 1) == (self.cursor as int, self.line as int, self.column as int, true));
                        return Ok(t);
                    },
                    None => {
                        return Err(ScannerError {
                            message: String::from_str("Invalid UTF-8 sequence in source"),
                            line: self.line,
                            column: start_column,
                        });
                    },
                }
            } else if c == 0x0a {
                self.line += 1;
                self.column = 1;
                assert(string_end(s, cur0, ln, cl) == string_end(s, cur0 + 1, ln + 1, 1));
            } else {
                assert(string_end(s, cur0, ln, cl) == string_end(s, cur0 + 1, ln, cl + 1));
            }
        }
        Err(ScannerError {
            message: String::from_str("Unterminated string literal"),
            line: self.line,
            column: self.column,
        })
    }

    /// Scans an identifier or keyword whose first byte (at `pos`) was just read.
    fn identifier_or_keyword(&mut self, Ghost(pos): Ghost<int>, Ghost(col): Ghost<int>) -> (r: Result<Token<'a>, ScannerError>)
        requires
            old(self).wf(),
            0 <= pos < old(self).source@.len(),
            is_alpha(old(self).source@[pos]) || old(self).source@[pos] == 0x5f,
            old(self).cursor == pos + 1,
            old(self).column == col + 1,
        ensures
            final(self).wf(),
            final(self).source == old(self).source,
            step_matches(
                scan_step(old(self).source@, pos, old(self).line as int, col),
                r,
                final(self).cursor as int,
                final(self).line as int,
                final(self).column as int,
            ),
    {
        let ghost s = self.source@;
        let start = self.cursor - 1;
        let start_column = self.column - 1;
        while byte_is_word(self.peek())
            invariant
                self.wf(),
                self.source == old(self).source,
                self.source@ == s,
                start + 1 <= self.cursor,
                start == pos,
                self.line == old(self).line,
                self.column == col + (self.cursor - pos),
                word_end(s, pos + 1) == word_end(s, self.cursor as int),
            decreases s.len() - self.cursor,
        {
            self.advance();
        }
        let bytes = vstd::slice::slice_subrange(self.source, start, self.cursor);
        match utf8_str(bytes) {
            Some(text) => Ok(Token::new(self.line, start_column, word_kind(text))),
            None => Err(ScannerError {
                message: String::from_str("Invalid UTF-8 sequence in source"),
                line: self.line,
                column: start_column,
            }),
        }
    }

    /// Scans a number literal whose first digit (at `pos`) was just read.
    fn scan_number(&mut self, Ghost(pos): Ghost<int>, Ghost(col): Ghost<int>) -> (r: Result<Token<'a>, ScannerError>)
        requires
            old(self).wf(),
            0 <= pos < old(self).source@.len(),
            is_digit(old(self).source@[pos]),
            old(self).cursor == pos + 1,
            old(self).column == col + 1,
        ensures
            final(self).wf(),
            final(self).source == old(self).source,
            step_matches(
                scan_step(old(self).source@, pos, old(self).line as int, col),
                r,
                final(self).cursor as int,
                final(self).line as int,
                final(self).column as int,
            ),
    {
        let ghost s = self.source@;
        let start = self.cursor - 1;
        let start_column = self.column - 1;
        let mut is_float = false;
        while byte_is_digit(self.peek())
            invariant
                self.wf(),
                self.source == old(self).source,
                self.source@ == s,
                start + 1 <= self.cursor,
                start == pos,
                self.line == old(self).line,
                self.column == col + (self.cursor - pos),
                digits_end(s, pos + 1) == digits_end(s, self.cursor as int),
            decreases s.len() - self.cursor,
        {
            self.advance();
        }
        let ghost i = self.cursor as int;
        if self.peek() == 0x2e && byte_is_digit(self.peek_next()) {
            is_float = true;
            self.advance();
            while byte_is_digit(self.peek())
                invariant
                    self.wf(),
                    self.source == old(self).source,
                self.source@ == s,
                    i + 1 <= self.cursor,
                    start == pos,
                    self.line == old(self).line,
                    self.column == col + (self.cursor - pos),
                    digits_end(s, i + 1) == digits_end(s, self.cursor as int),
                decreases s.len() - self.cursor,
            {
                self.advance();
            }
        }
        let bytes = vstd::slice::slice_subrange(self.source, start, self.cursor);
        match utf8_str(bytes) {
            Some(text) => {
                let kind = if is_float {
                    TokenKind::FloatNumber(text)
                } else {
                    TokenKind::IntNumber(text)
                };
                Ok(Token::new(self.line, start_column, kind))
            },
            None => Err(ScannerError {
                message: String::from_str("Invalid UTF-8 sequence in source"),
                line: self.line,
                column: start_column,
            }),
        }
    }

    /// Scans the rest of the input into tokens, ending with an `EoF` token at
    /// the final position, or stops at the first error.
    pub fn scan_source(&mut self) -> (r: Result<Vec<Token<'a>>, ScannerError>)
        requires
            old(self).wf(),
        ensures
            final(self).wf(),
            final(self).source_bytes() == old(self).source_bytes(),
            match r {
                Ok(v) => old(self).pending() == Ok::<Seq<SpecToken>, SpecScanError>(tokens_view(v@)),
                Err(e) => old(self).pending() == Err::<Seq<SpecToken>, SpecScanError>(e@),
            },
    {
        let ghost s = self.source@;
        let ghost total = self.pending();
        let mut tokens: Vec<Token<'a>> = Vec::new();
        while !self.is_at_end()
            invariant
                self.wf(),
                self.source == old(self).source,
                self.source@ == s,
                total == old(self).pending(),
                total == prepend_tokens(
                    tokens_view(tokens@),
                    scan_from(s, self.cursor as int, self.line as int, self.column as int),
                ),
            decreases s.len() - self.cursor,
        {
            let ghost pos = self.cursor as int;
            let ghost line = self.line as int;
            let ghost col = self.column as int;
            proof {
                lemma_step_advances(s, pos, line, col);
            }
            let c = self.advance();
            let mut emitted: Option<Token<'a>> = None;
            if c == 0x0a {
                self.line += 1;
                self.column = 1;
            } else if byte_is_space(c) {
            } else if c == 0x2f {
                if self.peek() == 0x2f {
                    self.advance();
                    while self.peek() != 0x0a && !self.is_at_end()
                        invariant
                            self.wf(),
                            self.source == old(self).source,
                            self.source@ == s,
                            pos + 2 <= self.cursor,
                            self.line == line,
                            self.column == col + (self.cursor - pos),
                            comment_end(s, pos + 2) == comment_end(s, self.cursor as int),
                        decreases s.len() - self.cursor,
                    {
                        self.advance();
                    }
                } else {
                    emitted = Some(Token::new(self.line, self.column - 1, TokenKind::Slash));
                }
            } else if c == 0x3d || c == 0x3c || c == 0x3e {
                if self.peek() == 0x3d {
                    self.advance();
                    let kind = if c == 0x3d {
                        TokenKind::DoubleEqual
                    } else if c == 0x3c {
                        TokenKind::LessOrEqual
                    } else {
                        TokenKind::GreaterOrEqual
                    };
                    emitted = Some(Token::new(self.line, self.column - 2, kind));
                } else {
                    let kind = if c == 0x3d {
                        TokenKind::Equal
                    } else if c == 0x3c {
                        TokenKind::LessThan
                    } else {
                        TokenKind::GreaterThan
                    };
                    emitted = Some(Token::new(self.line, self.column - 1, kind));
                }
            } else if let Some(kind) = single_kind(c) {
                emitted = Some(Token::new(self.line, self.column - 1, kind));
            } else if c == 0x22 {
                match self.scan_string(Ghost(pos), Ghost(col)) {
                    Ok(t) => {
                        emitted = Some(t);
                    },
                    Err(e) => {
                        assert(scan_step(s, pos, line, col) == (ScanStep::Fail { error: e@ }));
                        assert(scan_from(s, pos, line, col) == Err::<Seq<SpecToken>, SpecScanError>(e@));
                        return Err(e);
                    },
                }
            } else if byte_is_digit(c) {
                match self.scan_number(Ghost(pos), Ghost(col)) {
                    Ok(t) => {
                        emitted = Some(t);
                    },
                    Err(e) => {
                        assert(scan_step(s, pos, line, col) == (ScanStep::Fail { error: e@ }));
                        assert(scan_from(s, pos, line, col) == Err::<Seq<SpecToken>, SpecScanError>(e@));
                        return Err(e);
                    },
                }
            } else if byte_is_alpha(c) || c == 0x5f {
                match self.identifier_or_keyword(Ghost(pos), Ghost(col)) {
                    Ok(t) => {
                        emitted = Some(t);
                    },
                    Err(e) => {
                        assert(scan_step(s, pos, line, col) == (ScanStep::Fail { error: e@ }));
                        assert(scan_from(s, pos, line, col) == Err::<Seq<SpecToken>, SpecScanError>(e@));
                        return Err(e);
                    },
                }
            } else {
                return Err(unexpected_error(c, self.line, self.column));
            }
            match emitted {
                Some(t) => {
                    assert(scan_step(s, pos, line, col) == (ScanStep::Emit {
                        token: t@,
                        pos: self.cursor as int,
                        line: self.line as int,
                        col: self.column as int,
                    }));
                    proof {
                        lemma_prepend_push(
                            tokens_view(tokens@),
                            t@,
                            scan_from(s, self.cursor as int, self.line as int, self.column as int),
                        );
                    }
                    push_token(&mut tokens, t);
                },
                None => {
                    assert(scan_step(s, pos, line, col) == (ScanStep::Skip {
                        pos: self.cursor as int,
                        line: self.line as int,
                        col: self.column as int,
                    }));
                },
            }
        }
        let ghost before = tokens_view(tokens@);
        let eof = Token::new(self.line, self.column, TokenKind::EoF);
        push_token(&mut tokens, eof);
        assert(before + seq![eof@] =~= before.push(eof@));
        Ok(tokens)
    }
}

} // verus!
