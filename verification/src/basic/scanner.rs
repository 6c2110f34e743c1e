//! Scanner of the basic dialect: works on the characters of the source and
//! produces tokens without positions; errors carry line and column.

use vstd::prelude::*;
use crate::text::{
    char_is_alphabetic, char_is_alphanumeric, char_is_numeric, char_is_whitespace, chars_of,
    push_char, str_equals, unicode_alphabetic, unicode_numeric, unicode_whitespace,
};

verus! {

/// The tokens of the basic dialect.
#[derive(Debug, PartialEq)]
pub enum Token {
    Return,
    IntKeyword,
    BoolKeyword,
    FloatKeyword,
    StringKeyword,
    Identifier(String),
    IntNumber(String),
    Bool(bool),
    FloatNumber(String),
    String(String),
    StructKeyword,
    Plus,
    Minus,
    Star,
    Slash,
    Equal,
    LessThan,
    GreaterThan,
    LessOrEqual,
    GreaterOrEqual,
    DoubleEqual,
    LeftParen,
    RightParen,
    LeftBrace,
    RightBrace,
    Comma,
    Semicolon,
    Dot,
    If,
    Else,
}

/// A scanning failure with the position where it was detected.
#[derive(Debug, PartialEq)]
pub struct ScannerError {
    pub message: String,
    pub line: usize,
    pub column: usize,
}

/// The scanner state: the characters of the source, the read position, and the current line and column.
pub struct Scanner {
    chars: Vec<char>,
    pos: usize,
    line: usize,
    column: usize,
}

/// The abstract value of a token: the same variants, with text as characters.
pub enum Lexeme {
    Return,
    IntKeyword,
    BoolKeyword,
    FloatKeyword,
    StringKeyword,
    Identifier(Seq<char>),
    IntNumber(Seq<char>),
    Bool(bool),
    FloatNumber(Seq<char>),
    Str(Seq<char>),
    StructKeyword,
    Plus,
    Minus,
    Star,
    Slash,
    Equal,
    LessThan,
    GreaterThan,
    LessOrEqual,
    GreaterOrEqual,
    DoubleEqual,
    LeftParen,
    RightParen,
    LeftBrace,
    RightBrace,
    Comma,
    Semicolon,
    Dot,
    If,
    Else,
}

/// The abstract value of a scanning failure.
pub struct SpecScanError {
    pub message: Seq<char>,
    pub line: int,
    pub column: int,
}

impl View for Token {
    type V = Lexeme;

    open spec fn view(&self) -> Lexeme {
        match self {
            Token::Return => Lexeme::Return,
            Token::IntKeyword => Lexeme::IntKeyword,
            Token::BoolKeyword => Lexeme::BoolKeyword,
            Token::FloatKeyword => Lexeme::FloatKeyword,
            Token::StringKeyword => Lexeme::StringKeyword,
            Token::Identifier(t) => Lexeme::Identifier(t@),
            Token::IntNumber(t) => Lexeme::IntNumber(t@),
            Token::Bool(b) => Lexeme::Bool(*b),
            Token::FloatNumber(t) => Lexeme::FloatNumber(t@),
            Token::String(t) => Lexeme::Str(t@),
            Token::StructKeyword => Lexeme::StructKeyword,
            Token::Plus => Lexeme::Plus,
            Token::Minus => Lexeme::Minus,
            Token::Star => Lexeme::Star,
            Token::Slash => Lexeme::Slash,
            Token::Equal => Lexeme::Equal,
            Token::LessThan => Lexeme::LessThan,
            Token::GreaterThan => Lexeme::GreaterThan,
            Token::LessOrEqual => Lexeme::LessOrEqual,
            Token::GreaterOrEqual => Lexeme::GreaterOrEqual,
            Token::DoubleEqual => Lexeme::DoubleEqual,
            Token::LeftParen => Lexeme::LeftParen,
            Token::RightParen => Lexeme::RightParen,
            Token::LeftBrace => Lexeme::LeftBrace,
            Token::RightBrace => Lexeme::RightBrace,
            Token::Comma => Lexeme::Comma,
            Token::Semicolon => Lexeme::Semicolon,
            Token::Dot => Lexeme::Dot,
            Token::If => Lexeme::If,
            Token::Else => Lexeme::Else,
        }
    }
}

impl View for ScannerError {
    type V = SpecScanError;

    open spec fn view(&self) -> SpecScanError {
        SpecScanError { message: self.message@, line: self.line as int, column: self.column as int }
    }
}

/// The abstract values of a sequence of tokens.
pub open spec fn tokens_view(v: Seq<Token>) -> Seq<Lexeme> {
    v.map_values(|t: Token| t@)
}

// ---------------------------------------------------------------------------
// The specification of scanning

/// Characters that continue an identifier: alphanumeric ones and '_'.
pub open spec fn is_word_char(c: char) -> bool {
    unicode_alphabetic(c) || unicode_numeric(c) || c == '_'
}

/// Characters that continue a number: numeric ones and '.'.
pub open spec fn is_number_char(c: char) -> bool {
    unicode_numeric(c) || c == '.'
}

/// The end of the run of identifier characters starting at `i`.
pub open spec fn word_end(s: Seq<char>, i: int) -> int
    decreases s.len() - i,
{
    if 0 <= i < s.len() && is_word_char(s[i]) {
        word_end(s, i + 1)
    } else {
        i
    }
}

/// The end of the run of number characters starting at `i`.
pub open spec fn number_end(s: Seq<char>, i: int) -> int
    decreases s.len() - i,
{
    if 0 <= i < s.len() && is_number_char(s[i]) {
        number_end(s, i + 1)
    } else {
        i
    }
}

/// Scanning the inside of a string literal from `i` with the current line and
/// column: `(index of the closing quote or the end of input, line and column
/// after the literal, whether the closing quote was found)`.
pub open spec fn string_end(s: Seq<char>, i: int, line: int, col: int) -> (int, int, int, bool)
    decreases s.len() - i,
{
    if i < 0 || i >= s.len() {
        (i, line, col, false)
    } else if s[i] == '"' {
        (i, line, col + 1, true)
    } else if s[i] == '\n' {
        string_end(s, i + 1, line + 1, 1)
    } else {
        string_end(s, i + 1, line, col + 1)
    }
}

/// The keyword named by a word, or an identifier.
pub open spec fn word_lexeme(t: Seq<char>) -> Lexeme {
    if t == "return"@ {
        Lexeme::Return
    } else if t == "int"@ {
        Lexeme::IntKeyword
    } else if t == "bool"@ {
        Lexeme::BoolKeyword
    } else if t == "if"@ {
        Lexeme::If
    } else if t == "else"@ {
        Lexeme::Else
    } else if t == "false"@ {
        Lexeme::Bool(false)
    } else if t == "true"@ {
        Lexeme::Bool(true)
    } else if t == "float"@ {
        Lexeme::FloatKeyword
    } else if t == "string"@ {
        Lexeme::StringKeyword
    } else if t == "struct"@ {
        Lexeme::StructKeyword
    } else {
        Lexeme::Identifier(t)
    }
}

/// The one-character punctuation tokens.
pub open spec fn single_lexeme(c: char) -> Option<Lexeme> {
    if c == '(' {
        Some(Lexeme::LeftParen)
    } else if c == ')' {
        Some(Lexeme::RightParen)
    } else if c == '{' {
        Some(Lexeme::LeftBrace)
    } else if c == '}' {
        Some(Lexeme::RightBrace)
    } else if c == ';' {
        Some(Lexeme::Semicolon)
    } else if c == '+' {
        Some(Lexeme::Plus)
    } else if c == '-' {
        Some(Lexeme::Minus)
    } else if c == '*' {
        Some(Lexeme::Star)
    } else if c == '/' {
        Some(Lexeme::Slash)
    } else if c == ',' {
        Some(Lexeme::Comma)
    } else if c == '.' {
        Some(Lexeme::Dot)
    } else {
        None
    }
}

/// Law (keywords): the words `return int bool if else float string struct` are
/// their keywords, `true` and `false` are boolean literals, and every other word is
/// an identifier holding the word.
pub proof fn law_keywords(t: Seq<char>)
    ensures
        t == "return"@ ==> word_lexeme(t) == Lexeme::Return,
        t == "int"@ ==> word_lexeme(t) == Lexeme::IntKeyword,
        t == "bool"@ ==> word_lexeme(t) == Lexeme::BoolKeyword,
        t == "if"@ ==> word_lexeme(t) == Lexeme::If,
        t == "else"@ ==> word_lexeme(t) == Lexeme::Else,
        t == "false"@ ==> word_lexeme(t) == Lexeme::Bool(false),
        t == "true"@ ==> word_lexeme(t) == Lexeme::Bool(true),
        t == "float"@ ==> word_lexeme(t) == Lexeme::FloatKeyword,
        t == "string"@ ==> word_lexeme(t) == Lexeme::StringKeyword,
        t == "struct"@ ==> word_lexeme(t) == Lexeme::StructKeyword,
        !(t == "return"@ || t == "int"@ || t == "bool"@ || t == "if"@ || t == "else"@ || t == "false"@
            || t == "true"@ || t == "float"@ || t == "string"@ || t == "struct"@) ==> word_lexeme(t) == Lexeme::Identifier(t),
{
    reveal_strlit("return");
    reveal_strlit("int");
    reveal_strlit("bool");
    reveal_strlit("if");
    reveal_strlit("else");
    reveal_strlit("false");
    reveal_strlit("true");
    reveal_strlit("float");
    reveal_strlit("string");
    reveal_strlit("struct");
    assert("int"@ != "return"@) by { assert("int"@.len() != "return"@.len()); }
    assert("bool"@ != "return"@) by { assert("bool"@.len() != "return"@.len()); }
    assert("bool"@ != "int"@) by { assert("bool"@.len() != "int"@.len()); }
    assert("if"@ != "return"@) by { assert("if"@.len() != "return"@.len()); }
    assert("if"@ != "int"@) by { assert("if"@.len() != "int"@.len()); }
    assert("if"@ != "bool"@) by { assert("if"@.len() != "bool"@.len()); }
    assert("else"@ != "return"@) by { assert("else"@.len() != "return"@.len()); }
    assert("else"@ != "int"@) by { assert("else"@.len() != "int"@.len()); }
    assert("else"@ != "bool"@) by { assert("else"@[0] != "bool"@[0]); }
    assert("else"@ != "if"@) by { assert("else"@.len() != "if"@.len()); }
    assert("false"@ != "return"@) by { assert("false"@.len() != "return"@.len()); }
    assert("false"@ != "int"@) by { assert("false"@.len() != "int"@.len()); }
    assert("false"@ != "bool"@) by { assert("false"@.len() != "bool"@.len()); }
    assert("false"@ != "if"@) by { assert("false"@.len() != "if"@.len()); }
    assert("false"@ != "else"@) by { assert("false"@.len() != "else"@.len()); }
    assert("true"@ != "return"@) by { assert("true"@.len() != "return"@.len()); }
    assert("true"@ != "int"@) by { assert("true"@.len() != "int"@.len()); }
    assert("true"@ != "bool"@) by { assert("true"@[0] != "bool"@[0]); }
    assert("true"@ != "if"@) by { assert("true"@.len() != "if"@.len()); }
    assert("true"@ != "else"@) by { assert("true"@[0] != "else"@[0]); }
    assert("true"@ != "false"@) by { assert("true"@.len() != "false"@.len()); }
    assert("float"@ != "return"@) by { assert("float"@.len() != "return"@.len()); }
    assert("float"@ != "int"@) by { assert("float"@.len() != "int"@.len()); }
    assert("float"@ != "bool"@) by { assert("float"@.len() != "bool"@.len()); }
    assert("float"@ != "if"@) by { assert("float"@.len() != "if"@.len()); }
    assert("float"@ != "else"@) by { assert("float"@.len() != "else"@.len()); }
    assert("float"@ != "false"@) by { assert("float"@[1] != "false"@[1]); }
    assert("float"@ != "true"@) by { assert("float"@.len() != "true"@.len()); }
    assert("string"@ != "return"@) by { assert("string"@[0] != "return"@[0]); }
    assert("string"@ != "int"@) by { assert("string"@.len() != "int"@.len()); }
    assert("string"@ != "bool"@) by { assert("string"@.len() != "bool"@.len()); }
    assert("string"@ != "if"@) by { assert("string"@.len() != "if"@.len()); }
    assert("string"@ != "else"@) by { assert("string"@.len() != "else"@.len()); }
    assert("string"@ != "false"@) by { assert("string"@.len() != "false"@.len()); }
    assert("string"@ != "true"@) by { assert("string"@.len() != "true"@.len()); }
    assert("string"@ != "float"@) by { assert("string"@.len() != "float"@.len()); }
    assert("struct"@ != "return"@) by { assert("struct"@[0] != "return"@[0]); }
    assert("struct"@ != "int"@) by { assert("struct"@.len() != "int"@.len()); }
    assert("struct"@ != "bool"@) by { assert("struct"@.len() != "bool"@.len()); }
    assert("struct"@ != "if"@) by { assert("struct"@.len() != "if"@.len()); }
    assert("struct"@ != "else"@) by { assert("struct"@.len() != "else"@.len()); }
    assert("struct"@ != "false"@) by { assert("struct"@.len() != "false"@.len()); }
    assert("struct"@ != "true"@) by { assert("struct"@.len() != "true"@.len()); }
    assert("struct"@ != "float"@) by { assert("struct"@.len() != "float"@.len()); }
    assert("struct"@ != "string"@) by { assert("struct"@[3] != "string"@[3]); }
}

/// Law (punctuation): each of `( ) { } ; + - * / , .` is its own one-character token.
pub proof fn law_punctuation()
    ensures
        single_lexeme('(') == Some(Lexeme::LeftParen),
        single_lexeme(')') == Some(Lexeme::RightParen),
        single_lexeme('{') == Some(Lexeme::LeftBrace),
        single_lexeme('}') == Some(Lexeme::RightBrace),
        single_lexeme(';') == Some(Lexeme::Semicolon),
        single_lexeme('+') == Some(Lexeme::Plus),
        single_lexeme('-') == Some(Lexeme::Minus),
        single_lexeme('*') == Some(Lexeme::Star),
        single_lexeme('/') == Some(Lexeme::Slash),
        single_lexeme(',') == Some(Lexeme::Comma),
        single_lexeme('.') == Some(Lexeme::Dot),
        single_lexeme('=') is None && single_lexeme('<') is None && single_lexeme('>') is None,
{
}

/// Message for a character that starts no token.
pub open spec fn unexpected_message(c: char) -> Seq<char> {
    "Unexpected character: '"@ + seq![c] + "'"@
}

/// One step of the scanner at a position inside the input.
pub enum ScanStep {
    Skip { pos: int, line: int, col: int },
    Emit { token: Lexeme, pos: int, line: int, col: int },
    Fail { error: SpecScanError },
}

/// Whether the character after `pos` is '='.
pub open spec fn equal_follows(s: Seq<char>, pos: int) -> bool {
    pos + 1 < s.len() && s[pos + 1] == '='
}

/// Scanning a string literal whose opening quote is at `pos`.
pub open spec fn string_step(s: Seq<char>, pos: int, line: int, col: int) -> ScanStep {
    let (j, l2, c2, found) = string_end(s, pos + 1, line, col + 1);
    if found {
        ScanStep::Emit { token: Lexeme::Str(s.subrange(pos + 1, j)), pos: j + 1, line: l2, col: c2 }
    } else {
        ScanStep::Fail {
            error: SpecScanError { message: "Unterminated string literal"@, line: l2, column: c2 },
        }
    }
}

/// What the scanner does at position `pos < s.len()` with the given line and column.
pub open spec fn scan_step(s: Seq<char>, pos: int, line: int, col: int) -> ScanStep {
    let c = s[pos];
    if c == '\n' {
        ScanStep::Skip { pos: pos + 1, line: line + 1, col: 1 }
    } else if unicode_whitespace(c) {
        ScanStep::Skip { pos: pos + 1, line, col: col + 1 }
    } else if unicode_alphabetic(c) {
        let e = word_end(s, pos);
        ScanStep::Emit { token: word_lexeme(s.subrange(pos, e)), pos: e, line, col: col + (e - pos) }
    } else if unicode_numeric(c) {
        let e = number_end(s, pos);
        let t = s.subrange(pos, e);
        let k = if t.contains('.') {
            Lexeme::FloatNumber(t)
        } else {
            Lexeme::IntNumber(t)
        };
        ScanStep::Emit { token: k, pos: e, line, col: col + (e - pos) }
    } else if single_lexeme(c) is Some {
        ScanStep::Emit { token: single_lexeme(c)->0, pos: pos + 1, line, col: col + 1 }
    } else if c == '=' || c == '<' || c == '>' {
        if equal_follows(s, pos) {
            let k = if c == '=' {
                Lexeme::DoubleEqual
            } else if c == '<' {
                Lexeme::LessOrEqual
            } else {
                Lexeme::GreaterOrEqual
            };
            ScanStep::Emit { token: k, pos: pos + 2, line, col: col + 2 }
        } else {
            let k = if c == '=' {
                Lexeme::Equal
            } else if c == '<' {
                Lexeme::LessThan
            } else {
                Lexeme::GreaterThan
            };
            ScanStep::Emit { token: k, pos: pos + 1, line, col: col + 1 }
        }
    } else if c == '"' {
        string_step(s, pos, line, col)
    } else {
        ScanStep::Fail { error: SpecScanError { message: unexpected_message(c), line, column: col } }
    }
}

pub proof fn lemma_word_end(s: Seq<char>, i: int)
    requires
        0 <= i <= s.len(),
    ensures
        i <= word_end(s, i) <= s.len(),
    decreases s.len() - i,
{
    if i < s.len() && is_word_char(s[i]) {
        lemma_word_end(s, i + 1);
    }
}

pub proof fn lemma_number_end(s: Seq<char>, i: int)
    requires
        0 <= i <= s.len(),
    ensures
        i <= number_end(s, i) <= s.len(),
    decreases s.len() - i,
{
    if i < s.len() && is_number_char(s[i]) {
        lemma_number_end(s, i + 1);
    }
}

pub proof fn lemma_string_end(s: Seq<char>, i: int, line: int, col: int)
    requires
        0 <= i <= s.len(),
    ensures
        i <= string_end(s, i, line, col).0 <= s.len(),
        string_end(s, i, line, col).3 ==> string_end(s, i, line, col).0 < s.len(),
        !string_end(s, i, line, col).3 ==> string_end(s, i, line, col).0 == s.len(),
        string_end(s, i, line, col).1 >= line,
        string_end(s, i, line, col).1 <= line + (string_end(s, i, line, col).0 - i),
        col >= 1 ==> string_end(s, i, line, col).2 >= 1,
        col >= 1 ==> string_end(s, i, line, col).2 <= col + 1 + (string_end(s, i, line, col).0 - i),
    decreases s.len() - i,
{
    if i < s.len() && s[i] != '"' {
        if s[i] == '\n' {
            lemma_string_end(s, i + 1, line + 1, 1);
        } else {
            lemma_string_end(s, i + 1, line, col + 1);
        }
    }
}

/// A step moves forward and stays within the input.
pub proof fn lemma_step_advances(s: Seq<char>, pos: int, line: int, col: int)
    requires
        0 <= pos < s.len(),
    ensures
        scan_step(s, pos, line, col) matches ScanStep::Skip { pos: p, .. } ==> pos < p <= s.len(),
        scan_step(s, pos, line, col) matches ScanStep::Emit { pos: p, .. } ==> pos < p <= s.len(),
{
    lemma_word_end(s, pos + 1);
    lemma_number_end(s, pos + 1);
    lemma_string_end(s, pos + 1, line, col + 1);
    let c = s[pos];
    if unicode_alphabetic(c) {
        assert(is_word_char(c));
        assert(word_end(s, pos) == word_end(s, pos + 1));
    }
    if unicode_numeric(c) {
        assert(is_number_char(c));
        assert(number_end(s, pos) == number_end(s, pos + 1));
    }
}

/// Scanning from `(pos, line, col)` to the end of the input: the tokens, or the first error.
pub open spec fn scan_from(s: Seq<char>, pos: int, line: int, col: int) -> Result<Seq<Lexeme>, SpecScanError>
    decreases s.len() - pos,
{
    if pos < 0 || pos >= s.len() {
        Ok(Seq::empty())
    } else {
        proof {
            lemma_step_advances(s, pos, line, col);
        }
        match scan_step(s, pos, line, col) {
            ScanStep::Skip { pos: p, line: l, col: c } => scan_from(s, p, l, c),
            ScanStep::Emit { token, pos: p, line: l, col: c } => match scan_from(s, p, l, c) {
                Ok(rest) => Ok(seq![token] + rest),
                Err(e) => Err(e),
            },
            ScanStep::Fail { error } => Err(error),
        }
    }
}

/// Scanning a whole source text from line 1, column 1.
pub open spec fn scan(s: Seq<char>) -> Result<Seq<Lexeme>, SpecScanError> {
    scan_from(s, 0, 1, 1)
}

/// Where one step leads: the line never goes back and the column stays at 1 or more,
/// and a failure reports such a position.
proof fn lemma_step_positions(s: Seq<char>, pos: int, line: int, col: int)
    requires
        0 <= pos < s.len(),
        col >= 1,
    ensures
        scan_step(s, pos, line, col) matches ScanStep::Skip { line: l, col: c, .. } ==> l >= line && c >= 1,
        scan_step(s, pos, line, col) matches ScanStep::Emit { line: l, col: c, .. } ==> l >= line && c >= 1,
        scan_step(s, pos, line, col) matches ScanStep::Fail { error } ==> error.line >= line && error.column >= 1,
{
    lemma_word_end(s, pos + 1);
    lemma_number_end(s, pos + 1);
    lemma_string_end(s, pos + 1, line, col + 1);
    let c = s[pos];
    if unicode_alphabetic(c) {
        assert(word_end(s, pos) == word_end(s, pos + 1));
    }
    if unicode_numeric(c) {
        assert(number_end(s, pos) == number_end(s, pos + 1));
    }
}

/// A failed scan from a state with a column of 1 or more reports a position at
/// `line` or later and at column 1 or later.
proof fn lemma_scan_from_error_position(s: Seq<char>, pos: int, line: int, col: int)
    requires
        0 <= pos,
        col >= 1,
    ensures
        scan_from(s, pos, line, col) is Err ==> {
            &&& scan_from(s, pos, line, col)->Err_0.line >= line
            &&& scan_from(s, pos, line, col)->Err_0.column >= 1
        },
    decreases s.len() - pos,
{
    if pos < s.len() {
        lemma_step_advances(s, pos, line, col);
        lemma_step_positions(s, pos, line, col);
        match scan_step(s, pos, line, col) {
            ScanStep::Skip { pos: p, line: l, col: c } => lemma_scan_from_error_position(s, p, l, c),
            ScanStep::Emit { pos: p, line: l, col: c, .. } => lemma_scan_from_error_position(s, p, l, c),
            ScanStep::Fail { .. } => {},
        }
    }
}

/// Law: a failed scan of any text reports a position at line 1 or later and
/// column 1 or later.
pub proof fn law_scan_error_position(s: Seq<char>)
    ensures
        scan(s) is Err ==> scan(s)->Err_0.line >= 1 && scan(s)->Err_0.column >= 1,
{
    lemma_scan_from_error_position(s, 0, 1, 1);
}

/// Prepends already emitted tokens to the outcome of scanning the rest.
pub open spec fn prepend_tokens(
    done: Seq<Lexeme>,
    rest: Result<Seq<Lexeme>, SpecScanError>,
) -> Result<Seq<Lexeme>, SpecScanError> {
    match rest {
        Ok(r) => Ok(done + r),
        Err(e) => Err(e),
    }
}

proof fn lemma_prepend_push(done: Seq<Lexeme>, t: Lexeme, rest: Result<Seq<Lexeme>, SpecScanError>)
    ensures
        prepend_tokens(
            done,
            match rest {
                Ok(r) => Ok(seq![t] + r),
                Err(e) => Err(e),
            },
        ) == prepend_tokens(done.push(t), rest),
{
    if let Ok(r) = rest {
        assert(done + (seq![t] + r) =~= done.push(t) + r);
    }
}


/// The keyword named by a word, or an identifier.
fn word_token(text: String) -> (t: Token)
    ensures
        t@ == word_lexeme(text@),
{
    let w = text.as_str();
    if str_equals(w, "return") {
        Token::Return
    } else if str_equals(w, "int") {
        Token::IntKeyword
    } else if str_equals(w, "bool") {
        Token::BoolKeyword
    } else if str_equals(w, "if") {
        Token::If
    } else if str_equals(w, "else") {
        Token::Else
    } else if str_equals(w, "false") {
        Token::Bool(false)
    } else if str_equals(w, "true") {
        Token::Bool(true)
    } else if str_equals(w, "float") {
        Token::FloatKeyword
    } else if str_equals(w, "string") {
        Token::StringKeyword
    } else if str_equals(w, "struct") {
        Token::StructKeyword
    } else {
        Token::Identifier(text)
    }
}

fn single_token(c: char) -> (t: Option<Token>)
    ensures
        match t {
            Some(k) => single_lexeme(c) == Some(k@),
            None => single_lexeme(c) is None,
        },
{
    if c == '(' {
        Some(Token::LeftParen)
    } else if c == ')' {
        Some(Token::RightParen)
    } else if c == '{' {
        Some(Token::LeftBrace)
    } else if c == '}' {
        Some(Token::RightBrace)
    } else if c == ';' {
        Some(Token::Semicolon)
    } else if c == '+' {
        Some(Token::Plus)
    } else if c == '-' {
        Some(Token::Minus)
    } else if c == '*' {
        Some(Token::Star)
    } else if c == '/' {
        Some(Token::Slash)
    } else if c == ',' {
        Some(Token::Comma)
    } else if c == '.' {
        Some(Token::Dot)
    } else {
        None
    }
}

fn push_token(tokens: &mut Vec<Token>, t: Token)
    ensures
        tokens_view(final(tokens)@) == tokens_view(old(tokens)@).push(t@),
{
    tokens.push(t);
    assert(tokens_view(tokens@) =~= tokens_view(old(tokens)@).push(t@));
}

impl Scanner {
    /// The characters being scanned.
    pub closed spec fn source_chars(&self) -> Seq<char> {
        self.chars@
    }

    /// Positions within the input; line and column bounded by the characters read.
    pub closed spec fn wf(&self) -> bool {
        &&& self.pos <= self.chars@.len()
        &&& self.chars@.len() + 2 < usize::MAX
        &&& 1 <= self.line <= self.pos + 1
        &&& 1 <= self.column <= self.pos + 1
    }

    /// What scanning from the current state yields.
    pub closed spec fn pending(&self) -> Result<Seq<Lexeme>, SpecScanError> {
        scan_from(self.chars@, self.pos as int, self.line as int, self.column as int)
    }

    /// A scanner positioned at the start of `source` (line 1, column 1).
    pub fn new(source: &str) -> (sc: Self)
        requires
            source@.len() + 2 < usize::MAX,
        ensures
            sc.wf(),
            sc.source_chars() == source@,
            sc.pending() == scan(source@),
    {
        Scanner { chars: chars_of(source), pos: 0, line: 1, column: 1 }
    }

    /// The current character, if any.
    fn peek(&self) -> (c: Option<char>)
        ensures
            self.pos < self.chars@.len() ==> c == Some(self.chars@[self.pos as int]),
            self.pos >= self.chars@.len() ==> c is None,
    {
        if self.pos < self.chars.len() {
            Some(self.chars[self.pos])
        } else {
            None
        }
    }

    /// Whether the current character continues an identifier.
    fn word_char_here(&self) -> (r: bool)
        ensures
            r == (self.pos < self.chars@.len() && is_word_char(self.chars@[self.pos as int])),
    {
        if self.pos < self.chars.len() {
            let c = self.chars[self.pos];
            char_is_alphanumeric(c) || c == '_'
        } else {
            false
        }
    }

    /// Whether the current character continues a number.
    fn number_char_here(&self) -> (r: bool)
        ensures
            r == (self.pos < self.chars@.len() && is_number_char(self.chars@[self.pos as int])),
    {
        if self.pos < self.chars.len() {
            let c = self.chars[self.pos];
            char_is_numeric(c) || c == '.'
        } else {
            false
        }
    }

    /// Scans a string literal whose opening quote is the current character.
    fn scan_string(&mut self) -> (r: Result<Token, ScannerError>)
        requires
            old(self).wf(),
            old(self).pos < old(self).chars@.len(),
            old(self).chars@[old(self).pos as int] == '"',
        ensures
            final(self).wf(),
            final(self).chars == old(self).chars,
            match r {
                Ok(t) => string_step(old(self).chars@, old(self).pos as int, old(self).line as int, old(self).column as int)
                    == (ScanStep::Emit { token: t@, pos: final(self).pos as int, line: final(self).line as int, col: final(self).column as int }),
                Err(e) => string_step(old(self).chars@, old(self).pos as int, old(self).line as int, old(self).column as int)
                    == (ScanStep::Fail { error: e@ }),
            },
    {
        let ghost s = self.chars@;
        let ghost p0 = self.pos as int;
        let ghost l0 = self.line as int;
        let ghost c0 = self.column as int;
        self.pos += 1;
        self.column += 1;
        let mut buffer = String::new();
        while self.pos < self.chars.len()
            invariant
                self.wf(),
                self.chars == old(self).chars,
                self.chars@ == s,
                0 <= p0 < s.len(),
                s[p0] == '"',
                p0 + 1 <= self.pos,
                buffer@ == s.subrange(p0 + 1, self.pos as int),
                string_end(s, p0 + 1, l0, c0 + 1) == string_end(
                    s,
                    self.pos as int,
                    self.line as int,
                    self.column as int,
                ),
                l0 == old(self).line,
                c0 == old(self).column,
                p0 == old(self).pos,
            decreases s.len() - self.pos,
        {
            let c = self.chars[self.pos];
            if c == '"' {
                assert(string_end(s, self.pos as int, self.line as int, self.column as int) == (self.pos as int, self.line as int, self.column + 1, true));
                let ghost j = self.pos as int;
                self.pos += 1;
                self.column += 1;
                let t = Token::String(buffer);
                assert(string_end(s, p0 + 1, l0, c0 + 1) == (j, self.line as int, self.column as int, true));
                assert(t@ == Lexeme::Str(s.subrange(p0 + 1, j)));
                return Ok(t);
            } else if c == '\n' {
                self.pos += 1;
                self.line += 1;
                self.column = 1;
                push_char(&mut buffer, '\n');
            } else {
                assert(string_end(s, self.pos as int, self.line as int, self.column as int) == string_end(s, self.pos + 1, self.line as int, self.column + 1));
                self.pos += 1;
                push_char(&mut buffer, c);
                self.column += 1;
            }
            assert(buffer@ =~= s.subrange(p0 + 1, self.pos as int));
        }
        Err(ScannerError {
            message: String::from_str("Unterminated string literal"),
            line: self.line,
            column: self.column,
        })
    }

    /// Scans an identifier or keyword starting at the current (alphabetic) character.
    fn identifier_or_keyword(&mut self) -> (r: Result<Token, ScannerError>)
        requires
            old(self).wf(),
            old(self).pos < old(self).chars@.len(),
            unicode_alphabetic(old(self).chars@[old(self).pos as int]),
        ensures
            final(self).wf(),
            final(self).chars == old(self).chars,
            final(self).line == old(self).line,
            final(self).pos == word_end(old(self).chars@, old(self).pos as int),
            final(self).column == old(self).column + (final(self).pos - old(self).pos),
            r matches Ok(t) && t@ == word_lexeme(old(self).chars@.subrange(old(self).pos as int, final(self).pos as int)),
    {
        let ghost s = self.chars@;
        let ghost p0 = self.pos as int;
        let mut token_string = String::new();
        while self.word_char_here()
            invariant
                self.wf(),
                self.chars == old(self).chars,
                self.chars@ == s,
                p0 <= self.pos,
                p0 == old(self).pos,
                self.line == old(self).line,
                self.column == old(self).column + (self.pos - p0),
                token_string@ == s.subrange(p0, self.pos as int),
                word_end(s, p0) == word_end(s, self.pos as int),
            decreases s.len() - self.pos,
        {
            let c = self.chars[self.pos];
            push_char(&mut token_string, c);
            self.pos += 1;
            self.column += 1;
            assert(token_string@ =~= s.subrange(p0, self.pos as int));
        }
        Ok(word_token(token_string))
    }

    /// Scans a number starting at the current (numeric) character.
    fn scan_number(&mut self) -> (r: Result<Token, ScannerError>)
        requires
            old(self).wf(),
            old(self).pos < old(self).chars@.len(),
            unicode_numeric(old(self).chars@[old(self).pos as int]),
        ensures
            final(self).wf(),
            final(self).chars == old(self).chars,
            final(self).line == old(self).line,
            final(self).pos == number_end(old(self).chars@, old(self).pos as int),
            final(self).column == old(self).column + (final(self).pos - old(self).pos),
            r matches Ok(t) && t@ == ({
                let txt = old(self).chars@.subrange(old(self).pos as int, final(self).pos as int);
                if txt.contains('.') {
                    Lexeme::FloatNumber(txt)
                } else {
                    Lexeme::IntNumber(txt)
                }
            }),
    {
        let ghost s = self.chars@;
        let ghost p0 = self.pos as int;
        let mut token_string = String::new();
        let mut has_dot = false;
        while self.number_char_here()
            invariant
                self.wf(),
                self.chars == old(self).chars,
                self.chars@ == s,
                p0 <= self.pos,
                p0 == old(self).pos,
                self.line == old(self).line,
                self.column == old(self).column + (self.pos - p0),
                token_string@ == s.subrange(p0, self.pos as int),
                has_dot == token_string@.contains('.'),
                number_end(s, p0) == number_end(s, self.pos as int),
            decreases s.len() - self.pos,
        {
            let c = self.chars[self.pos];
            {
                let ghost before = token_string@;
                push_char(&mut token_string, c);
                if c == '.' {
                    has_dot = true;
                }
                self.pos += 1;
                self.column += 1;
                assert(token_string@ =~= before.push(c));
                assert(token_string@.contains('.') == (before.contains('.') || c == '.')) by {
                    if c == '.' {
                        assert(token_string@[before.len() as int] == '.');
                    }
                    if before.contains('.') {
                        let k = choose|k: int| 0 <= k < before.len() && before[k] == '.';
                        assert(token_string@[k] == '.');
                    }
                    if token_string@.contains('.') && c != '.' {
                        let k = choose|k: int| 0 <= k < token_string@.len() && token_string@[k] == '.';
                        assert(before[k] == '.');
                    }
                }
                assert(token_string@ =~= s.subrange(p0, self.pos as int));
            }
        }
        if has_dot {
            Ok(Token::FloatNumber(token_string))
        } else {
            Ok(Token::IntNumber(token_string))
        }
    }

    /// Scans the rest of the input into tokens, or stops at the first error.
    pub fn scan_source(&mut self) -> (r: Result<Vec<Token>, ScannerError>)
        requires
            old(self).wf(),
        ensures
            final(self).wf(),
            final(self).source_chars() == old(self).source_chars(),
            match r {
                Ok(v) => old(self).pending() == Ok::<Seq<Lexeme>, SpecScanError>(tokens_view(v@)),
                Err(e) => old(self).pending() == Err::<Seq<Lexeme>, SpecScanError>(e@),
            },
    {
        let ghost s = self.chars@;
        let ghost total = self.pending();
        let mut tokens: Vec<Token> = Vec::new();
        while self.pos < self.chars.len()
            invariant
                self.wf(),
                self.chars == old(self).chars,
                self.chars@ == s,
                total == old(self).pending(),
                total == prepend_tokens(
                    tokens_view(tokens@),
                    scan_from(s, self.pos as int, self.line as int, self.column as int),
                ),
            decreases s.len() - self.pos,
        {
            let ghost pos = self.pos as int;
            let ghost line = self.line as int;
            let ghost col = self.column as int;
            proof {
                lemma_step_advances(s, pos, line, col);
            }
            let c = self.chars[self.pos];
            let mut emitted: Option<Token> = None;
            if c == '\n' {
                self.pos += 1;
                self.line += 1;
                self.column = 1;
            } else if char_is_whitespace(c) {
                self.pos += 1;
                self.column += 1;
            } else if char_is_alphabetic(c) {
                match self.identifier_or_keyword() {
                    Ok(t) => {
                        emitted = Some(t);
                    },
                    Err(e) => {
                        return Err(e);
                    },
                }
            } else if char_is_numeric(c) {
                match self.scan_number() {
                    Ok(t) => {
                        emitted = Some(t);
                    },
                    Err(e) => {
                        return Err(e);
                    },
                }
            } else if let Some(t) = single_token(c) {
                self.pos += 1;
                self.column += 1;
                emitted = Some(t);
            } else if c == '=' || c == '<' || c == '>' {
                self.pos += 1;
                self.column += 1;
                if self.peek() == Some('=') {
                    self.pos += 1;
                    self.column += 1;
                    emitted = Some(
                        if c == '=' {
                            Token::DoubleEqual
                        } else if c == '<' {
                            Token::LessOrEqual
                        } else {
                            Token::GreaterOrEqual
                        },
                    );
                } else {
                    emitted = Some(
                        if c == '=' {
                            Token::Equal
                        } else if c == '<' {
                            Token::LessThan
                        } else {
                            Token::GreaterThan
                        },
                    );
                }
            } else if c == '"' {
                match self.scan_string() {
                    Ok(t) => {
                        emitted = Some(t);
                    },
                    Err(e) => {
                        assert(scan_from(s, pos, line, col) == Err::<Seq<Lexeme>, SpecScanError>(e@));
                        return Err(e);
                    },
                }
            } else {
                let mut message = String::from_str("Unexpected character: '");
                push_char(&mut message, c);
                message.append("'");
                let e = ScannerError { message, line: self.line, column: self.column };
                assert(e@.message =~= unexpected_message(c));
                return Err(e);
            }
            match emitted {
                Some(t) => {
                    assert(scan_step(s, pos, line, col) == (ScanStep::Emit {
                        token: t@,
                        pos: self.pos as int,
                        line: self.line as int,
                        col: self.column as int,
                    }));
                    proof {
                        lemma_prepend_push(
                            tokens_view(tokens@),
                            t@,
                            scan_from(s, self.pos as int, self.line as int, self.column as int),
                        );
                    }
                    push_token(&mut tokens, t);
                },
                None => {
                    assert(scan_step(s, pos, line, col) == (ScanStep::Skip {
                        pos: self.pos as int,
                        line: self.line as int,
                        col: self.column as int,
                    }));
                },
            }
        }
        assert(tokens_view(tokens@) + Seq::<Lexeme>::empty() =~= tokens_view(tokens@));
        Ok(tokens)
    }
}

} // verus!
