//! The parser: a recursive-descent parser from the scanner's tokens to the
//! abstract syntax tree. Each parsing function is specified by a spec function
//! over the abstract token sequence that gives the result and the position
//! reached, also for failures.

use vstd::prelude::*;
use crate::ast::{fields_view, node_view, nodes_view, opt_view, Field, Node, Ty};
use crate::literal::{float_text_ok, parse_i16, parse_i16_spec, valid_float_text};
use crate::scanner::{tokens_view, Lexeme, SpecToken, Token, TokenKind};
use crate::text::{debug_quoted, debug_str, str_equals};

pub use crate::ast::{
    ArrayIndexData, AssignmentData, AstNode, BinaryExpData, BinaryOperator, BlockStatementData,
    CallData, FunctionDeclData, IfElseData, MemberAccessData, Parameter, ReturnData,
    StructDeclData, Type, VarDeclData, WhileLoopData,
};

verus! {

/// Why parsing failed.
#[derive(Debug, PartialEq)]
pub enum ParserError {
    UnexpectedToken { expected: String, found: String, line: usize, column: usize },
    UnknownType(String),
    NotImplemented(String),
    InvalidIntLiteral { raw: String, line: usize, column: usize },
    InvalidFloatLiteral { raw: String, line: usize, column: usize },
    UnexpectedEoF,
}

/// The abstract value of a parsing failure.
pub enum PErr {
    UnexpectedToken { expected: Seq<char>, found: Seq<char>, line: int, column: int },
    UnknownType(Seq<char>),
    NotImplemented(Seq<char>),
    InvalidIntLiteral { raw: Seq<char>, line: int, column: int },
    InvalidFloatLiteral { raw: Seq<char>, line: int, column: int },
    UnexpectedEoF,
}

impl View for ParserError {
    type V = PErr;

    open spec fn view(&self) -> PErr {
        match self {
            ParserError::UnexpectedToken { expected, found, line, column } => PErr::UnexpectedToken {
                expected: expected@,
                found: found@,
                line: *line as int,
                column: *column as int,
            },
            ParserError::UnknownType(t) => PErr::UnknownType(t@),
            ParserError::NotImplemented(t) => PErr::NotImplemented(t@),
            ParserError::InvalidIntLiteral { raw, line, column } => PErr::InvalidIntLiteral {
                raw: raw@,
                line: *line as int,
                column: *column as int,
            },
            ParserError::InvalidFloatLiteral { raw, line, column } => PErr::InvalidFloatLiteral {
                raw: raw@,
                line: *line as int,
                column: *column as int,
            },
            ParserError::UnexpectedEoF => PErr::UnexpectedEoF,
        }
    }
}

/// The outcome of a parsing step: the result and the position reached.
pub type Step<T> = (Result<T, PErr>, int);

/// The abstract value of a node result.
pub open spec fn node_res<'a>(r: Result<AstNode<'a>, ParserError>) -> Result<Node, PErr> {
    match r {
        Ok(n) => Ok(node_view(n)),
        Err(e) => Err(e@),
    }
}

/// The abstract value of a boxed node result.
pub open spec fn boxed_res<'a>(r: Result<Box<AstNode<'a>>, ParserError>) -> Result<Node, PErr> {
    match r {
        Ok(n) => Ok(node_view(*n)),
        Err(e) => Err(e@),
    }
}

/// The abstract value of a type result.
pub open spec fn type_res<'a>(r: Result<Type<'a>, ParserError>) -> Result<Ty, PErr> {
    match r {
        Ok(t) => Ok(t@),
        Err(e) => Err(e@),
    }
}

/// The abstract value of a token result.
pub open spec fn token_res<'a>(r: Result<&'a Token<'a>, ParserError>) -> Result<SpecToken, PErr> {
    match r {
        Ok(t) => Ok(t@),
        Err(e) => Err(e@),
    }
}

/// The abstract value of an identifier result: its text, line and column.
pub open spec fn ident_res<'a>(r: Result<(&'a str, usize, usize), ParserError>) -> Result<(Seq<char>, int, int), PErr> {
    match r {
        Ok((n, l, c)) => Ok((n@, l as int, c as int)),
        Err(e) => Err(e@),
    }
}

// ---------------------------------------------------------------------------
// Looking at the tokens

/// The token at position `i`, if there is one.
pub open spec fn tok_at(ts: Seq<SpecToken>, i: int) -> Option<SpecToken> {
    if 0 <= i < ts.len() {
        Some(ts[i])
    } else {
        None
    }
}

/// Whether the token at `i` has kind `k`.
pub open spec fn checks(ts: Seq<SpecToken>, i: int, k: Lexeme) -> bool {
    match tok_at(ts, i) {
        Some(t) => t.kind == k,
        None => false,
    }
}

/// Whether position `i` is at the end: past the tokens or at an end-of-file token.
pub open spec fn at_end(ts: Seq<SpecToken>, i: int) -> bool {
    match tok_at(ts, i) {
        Some(t) => t.kind == Lexeme::EoF,
        None => true,
    }
}

/// The failure for an unexpected token.
pub open spec fn unexpected(expected: Seq<char>, t: SpecToken) -> PErr {
    PErr::UnexpectedToken { expected, found: kind_name(t.kind), line: t.line, column: t.column }
}

/// Consuming a token of kind `k`.
pub open spec fn expect_spec(ts: Seq<SpecToken>, i: int, k: Lexeme) -> Step<SpecToken> {
    match tok_at(ts, i) {
        Some(t) => if t.kind == k {
            (Ok(t), i + 1)
        } else {
            (Err(unexpected(kind_name(k), t)), i)
        },
        None => (Err(PErr::UnexpectedEoF), i),
    }
}

/// Consuming an identifier: its text and position.
pub open spec fn ident_spec(ts: Seq<SpecToken>, i: int) -> Step<(Seq<char>, int, int)> {
    match tok_at(ts, i) {
        Some(t) => match t.kind {
            Lexeme::Identifier(n) => (Ok((n, t.line, t.column)), i + 1),
            _ => (Err(unexpected("Identifier"@, t)), i + 1),
        },
        None => (Err(PErr::UnexpectedEoF), i + 1),
    }
}

/// The base type a token names.
pub open spec fn base_type(k: Lexeme) -> Option<Ty> {
    match k {
        Lexeme::IntKeyword => Some(Ty::Int),
        Lexeme::BoolKeyword => Some(Ty::Bool),
        Lexeme::FloatKeyword => Some(Ty::Float),
        Lexeme::StringKeyword => Some(Ty::Str),
        Lexeme::Identifier(n) => Some(Ty::Struct(n)),
        _ => None,
    }
}

/// Parsing a type: a base type, optionally followed by `[]`.
pub open spec fn type_spec(ts: Seq<SpecToken>, i: int) -> Step<Ty> {
    match tok_at(ts, i) {
        None => (Err(PErr::UnexpectedEoF), i + 1),
        Some(t) => match base_type(t.kind) {
            None => (Err(unexpected("type keyword or struct name"@, t)), i + 1),
            Some(b) => if checks(ts, i + 1, Lexeme::LeftBracket) {
                match expect_spec(ts, i + 2, Lexeme::RightBracket) {
                    (Ok(_), j) => (Ok(Ty::Array(Box::new(b))), j),
                    (Err(e), j) => (Err(e), j),
                }
            } else {
                (Ok(b), i + 1)
            },
        },
    }
}

/// The text `format!("{:?}", kind)` gives for a token kind.
pub open spec fn kind_name(k: Lexeme) -> Seq<char> {
    match k {
        Lexeme::Return => "Return"@,
        Lexeme::IntKeyword => "IntKeyword"@,
        Lexeme::BoolKeyword => "BoolKeyword"@,
        Lexeme::FloatKeyword => "FloatKeyword"@,
        Lexeme::StringKeyword => "StringKeyword"@,
        Lexeme::PrintKeyword => "PrintKeyword"@,
        Lexeme::StructKeyword => "StructKeyword"@,
        Lexeme::Plus => "Plus"@,
        Lexeme::Minus => "Minus"@,
        Lexeme::Star => "Star"@,
        Lexeme::Slash => "Slash"@,
        Lexeme::Equal => "Equal"@,
        Lexeme::LessThan => "LessThan"@,
        Lexeme::GreaterThan => "GreaterThan"@,
        Lexeme::LessOrEqual => "LessOrEqual"@,
        Lexeme::GreaterOrEqual => "GreaterOrEqual"@,
        Lexeme::DoubleEqual => "DoubleEqual"@,
        Lexeme::LeftParen => "LeftParen"@,
        Lexeme::RightParen => "RightParen"@,
        Lexeme::LeftBrace => "LeftBrace"@,
        Lexeme::RightBrace => "RightBrace"@,
        Lexeme::LeftBracket => "LeftBracket"@,
        Lexeme::RightBracket => "RightBracket"@,
        Lexeme::Comma => "Comma"@,
        Lexeme::Semicolon => "Semicolon"@,
        Lexeme::Dot => "Dot"@,
        Lexeme::If => "If"@,
        Lexeme::Else => "Else"@,
        Lexeme::While => "While"@,
        Lexeme::EoF => "EoF"@,
        Lexeme::Identifier(t) => "Identifier("@ + debug_quoted(t) + ")"@,
        Lexeme::IntNumber(t) => "IntNumber("@ + debug_quoted(t) + ")"@,
        Lexeme::FloatNumber(t) => "FloatNumber("@ + debug_quoted(t) + ")"@,
        Lexeme::Str(t) => "String("@ + debug_quoted(t) + ")"@,
        Lexeme::Bool(b) => if b { "Bool(true)"@ } else { "Bool(false)"@ },
    }
}

/// Renders a token kind as `format!("{:?}", kind)` does.
pub fn kind_debug(k: &TokenKind) -> (s: String)
    ensures
        s@ == kind_name(k@),
{
    match k {
        TokenKind::Return => {
            let s = String::from_str("Return");
            s
        },
        TokenKind::IntKeyword => {
            let s = String::from_str("IntKeyword");
            s
        },
        TokenKind::BoolKeyword => {
            let s = String::from_str("BoolKeyword");
            s
        },
        TokenKind::FloatKeyword => {
            let s = String::from_str("FloatKeyword");
            s
        },
        TokenKind::StringKeyword => {
            let s = String::from_str("StringKeyword");
            s
        },
        TokenKind::PrintKeyword => {
            let s = String::from_str("PrintKeyword");
            s
        },
        TokenKind::StructKeyword => {
            let s = String::from_str("StructKeyword");
            s
        },
        TokenKind::Plus => {
            let s = String::from_str("Plus");
            s
        },
        TokenKind::Minus => {
            let s = String::from_str("Minus");
            s
        },
        TokenKind::Star => {
            let s = String::from_str("Star");
            s
        },
        TokenKind::Slash => {
            let s = String::from_str("Slash");
            s
        },
        TokenKind::Equal => {
            let s = String::from_str("Equal");
            s
        },
        TokenKind::LessThan => {
            let s = String::from_str("LessThan");
            s
        },
        TokenKind::GreaterThan => {
            let s = String::from_str("GreaterThan");
            s
        },
        TokenKind::LessOrEqual => {
            let s = String::from_str("LessOrEqual");
            s
        },
        TokenKind::GreaterOrEqual => {
            let s = String::from_str("GreaterOrEqual");
            s
        },
        TokenKind::DoubleEqual => {
            let s = String::from_str("DoubleEqual");
            s
        },
        TokenKind::LeftParen => {
            let s = String::from_str("LeftParen");
            s
        },
        TokenKind::RightParen => {
            let s = String::from_str("RightParen");
            s
        },
        TokenKind::LeftBrace => {
            let s = String::from_str("LeftBrace");
            s
        },
        TokenKind::RightBrace => {
            let s = String::from_str("RightBrace");
            s
        },
        TokenKind::LeftBracket => {
            let s = String::from_str("LeftBracket");
            s
        },
        TokenKind::RightBracket => {
            let s = String::from_str("RightBracket");
            s
        },
        TokenKind::Comma => {
            let s = String::from_str("Comma");
            s
        },
        TokenKind::Semicolon => {
            let s = String::from_str("Semicolon");
            s
        },
        TokenKind::Dot => {
            let s = String::from_str("Dot");
            s
        },
        TokenKind::If => {
            let s = String::from_str("If");
            s
        },
        TokenKind::Else => {
            let s = String::from_str("Else");
            s
        },
        TokenKind::While => {
            let s = String::from_str("While");
            s
        },
        TokenKind::EoF => {
            let s = String::from_str("EoF");
            s
        },
        TokenKind::Identifier(t) => wrapped("Identifier(", t),
        TokenKind::IntNumber(t) => wrapped("IntNumber(", t),
        TokenKind::FloatNumber(t) => wrapped("FloatNumber(", t),
        TokenKind::String(t) => wrapped("String(", t),
        TokenKind::Bool(b) => {
            if *b {
                String::from_str("Bool(true)")
            } else {
                String::from_str("Bool(false)")
            }
        },
    }
}

/// Whether two token kinds are the same (`==` on the kinds).
pub fn same_kind(a: &TokenKind, b: &TokenKind) -> (r: bool)
    ensures
        r == (a@ == b@),
{
    match a {
        TokenKind::Return => matches!(b, TokenKind::Return),
        TokenKind::IntKeyword => matches!(b, TokenKind::IntKeyword),
        TokenKind::BoolKeyword => matches!(b, TokenKind::BoolKeyword),
        TokenKind::FloatKeyword => matches!(b, TokenKind::FloatKeyword),
        TokenKind::StringKeyword => matches!(b, TokenKind::StringKeyword),
        TokenKind::PrintKeyword => matches!(b, TokenKind::PrintKeyword),
        TokenKind::StructKeyword => matches!(b, TokenKind::StructKeyword),
        TokenKind::Plus => matches!(b, TokenKind::Plus),
        TokenKind::Minus => matches!(b, TokenKind::Minus),
        TokenKind::Star => matches!(b, TokenKind::Star),
        TokenKind::Slash => matches!(b, TokenKind::Slash),
        TokenKind::Equal => matches!(b, TokenKind::Equal),
        TokenKind::LessThan => matches!(b, TokenKind::LessThan),
        TokenKind::GreaterThan => matches!(b, TokenKind::GreaterThan),
        TokenKind::LessOrEqual => matches!(b, TokenKind::LessOrEqual),
        TokenKind::GreaterOrEqual => matches!(b, TokenKind::GreaterOrEqual),
        TokenKind::DoubleEqual => matches!(b, TokenKind::DoubleEqual),
        TokenKind::LeftParen => matches!(b, TokenKind::LeftParen),
        TokenKind::RightParen => matches!(b, TokenKind::RightParen),
        TokenKind::LeftBrace => matches!(b, TokenKind::LeftBrace),
        TokenKind::RightBrace => matches!(b, TokenKind::RightBrace),
        TokenKind::LeftBracket => matches!(b, TokenKind::LeftBracket),
        TokenKind::RightBracket => matches!(b, TokenKind::RightBracket),
        TokenKind::Comma => matches!(b, TokenKind::Comma),
        TokenKind::Semicolon => matches!(b, TokenKind::Semicolon),
        TokenKind::Dot => matches!(b, TokenKind::Dot),
        TokenKind::If => matches!(b, TokenKind::If),
        TokenKind::Else => matches!(b, TokenKind::Else),
        TokenKind::While => matches!(b, TokenKind::While),
        TokenKind::EoF => matches!(b, TokenKind::EoF),
        TokenKind::Identifier(x) => match b {
            TokenKind::Identifier(y) => str_equals(x, y),
            _ => false,
        },
        TokenKind::IntNumber(x) => match b {
            TokenKind::IntNumber(y) => str_equals(x, y),
            _ => false,
        },
        TokenKind::FloatNumber(x) => match b {
            TokenKind::FloatNumber(y) => str_equals(x, y),
            _ => false,
        },
        TokenKind::String(x) => match b {
            TokenKind::String(y) => str_equals(x, y),
            _ => false,
        },
        TokenKind::Bool(x) => match b {
            TokenKind::Bool(y) => *x == *y,
            _ => false,
        },
    }
}

/// An optional boxed node holding `n`.
fn some_node<'a>(n: AstNode<'a>) -> (o: Option<Box<AstNode<'a>>>)
    ensures
        opt_view(o) == Some(Box::new(node_view(n))),
{
    Some(Box::new(n))
}

/// An optional boxed node holding `b`.
fn some_boxed<'a>(b: Box<AstNode<'a>>) -> (o: Option<Box<AstNode<'a>>>)
    ensures
        opt_view(o) == Some(Box::new(node_view(*b))),
{
    Some(b)
}

/// Appending a node extends the abstract list by its value.
fn push_node<'a>(v: &mut Vec<AstNode<'a>>, n: AstNode<'a>)
    ensures
        nodes_view(final(v)@) == nodes_view(old(v)@).push(node_view(n)),
{
    let ghost nv = node_view(n);
    v.push(n);
    assert(nodes_view(v@) =~= nodes_view(old(v)@).push(nv));
}

/// Appending a parameter extends the abstract list by its value.
fn push_param<'a>(v: &mut Vec<Parameter<'a>>, p: Parameter<'a>)
    ensures
        fields_view(final(v)@) == fields_view(old(v)@).push(p@),
{
    let ghost pv = p@;
    v.push(p);
    assert(fields_view(v@) =~= fields_view(old(v)@).push(pv));
}

impl<'a> Parser<'a> {
    /// Ready to parse: the invariant holds and the position is within the tokens or at their end.
    closed spec fn ready(&self) -> bool {
        self.wf() && self.cursor <= self.tokens@.len()
    }

    /// `next` is `self` after a step with outcome `step` and result `res`:
    /// same tokens, the invariant kept, the result and position as specified,
    /// and on success a move forward that stays within the tokens.
    closed spec fn stepped<T>(&self, next: &Self, step: Step<T>, res: Result<T, PErr>) -> bool {
        &&& next.tokens == self.tokens
        &&& next.wf()
        &&& step == (res, next.cursor as int)
        &&& res is Ok ==> self.cursor < next.cursor <= self.tokens@.len()
    }

    /// A primary expression and its postfix operators.
    fn parse_factor(&mut self) -> (r: Result<AstNode<'a>, ParserError>)
        requires
            old(self).ready(),
        ensures
            old(self).stepped(final(self), factor_spec(old(self).token_seq(), old(self).position()), node_res(r)),
        decreases old(self).tokens@.len() - old(self).cursor, 2int,
    {
        let ghost ts = self.token_seq();
        let ghost i = self.position();
        let token = match self.advance() {
            Some(t) => t,
            None => return Err(ParserError::UnexpectedEoF),
        };
        proof { self.lemma_token_at(i); }
        let first: Result<AstNode<'a>, ParserError> = match &token.kind {
            TokenKind::IntNumber(raw_val) => match parse_i16(raw_val) {
                Some(val) => Ok(AstNode::IntLiteralExpr(val)),
                None => Err(ParserError::InvalidIntLiteral {
                    raw: String::from_str(raw_val),
                    line: token.line,
                    column: token.column,
                }),
            },
            TokenKind::FloatNumber(raw_val) => if float_text_ok(raw_val) {
                Ok(AstNode::FloatLiteralExpr(raw_val))
            } else {
                Err(ParserError::InvalidFloatLiteral {
                    raw: String::from_str(raw_val),
                    line: token.line,
                    column: token.column,
                })
            },
            TokenKind::String(val) => Ok(AstNode::StringLiteralExpr(val)),
            TokenKind::Bool(b) => Ok(AstNode::BoolLiteralExpr(*b)),
            TokenKind::LeftParen => match self.parse_expression() {
                Ok(expr) => match self.expect(TokenKind::RightParen) {
                    Ok(_) => Ok(expr),
                    Err(e) => Err(e),
                },
                Err(e) => Err(e),
            },
            TokenKind::Identifier(name) => if self.check(TokenKind::LeftParen) {
                self.parse_call_expr(name, token.line, token.column)
            } else {
                Ok(AstNode::VariableExpr(name))
            },
            _ => Err(ParserError::UnexpectedToken {
                expected: String::from_str("literal, identifier, or '('"),
                found: kind_debug(&token.kind),
                line: token.line,
                column: token.column,
            }),
        };
        let mut node = match first {
            Ok(n) => n,
            Err(e) => return Err(e),
        };
        assert(primary_spec(ts, i) == (Ok::<Node, PErr>(node@), self.position()));
        loop
            invariant
                self.tokens == old(self).tokens,
                ts == self.token_seq(),
                i == old(self).position(),
                self.wf(),
                i < self.cursor <= self.tokens@.len(),
                factor_spec(ts, i) == postfix_spec(ts, self.position(), node@),
            decreases self.tokens@.len() - self.cursor,
        {
            let token = match self.peek() {
                Some(t) => t,
                None => return Ok(node),
            };
            match token.kind {
                TokenKind::Dot => {
                    self.advance();
                    let member_name = match self.consume_identifier() {
                        Ok((n, _, _)) => n,
                        Err(e) => return Err(e),
                    };
                    node = AstNode::MemberAccessExpr(MemberAccessData {
                        object: Box::new(node),
                        member: String::from_str(member_name),
                        line: token.line,
                        column: token.column,
                    });
                },
                TokenKind::LeftBracket => {
                    self.advance();
                    let index_expr = match self.parse_expression() {
                        Ok(x) => x,
                        Err(e) => return Err(e),
                    };
                    match self.expect(TokenKind::RightBracket) {
                        Ok(_) => {},
                        Err(e) => return Err(e),
                    }
                    node = AstNode::ArrayIndexExpr(ArrayIndexData {
                        array: Box::new(node),
                        index: Box::new(index_expr),
                        line: token.line,
                        column: token.column,
                    });
                },
                _ => return Ok(node),
            }
        }
    }

    /// A term: factors joined by `*` and `/`, grouped to the left.
    fn parse_term(&mut self) -> (r: Result<AstNode<'a>, ParserError>)
        requires
            old(self).ready(),
        ensures
            old(self).stepped(final(self), term_spec(old(self).token_seq(), old(self).position()), node_res(r)),
        decreases old(self).tokens@.len() - old(self).cursor, 3int,
    {
        let ghost ts = self.token_seq();
        let ghost i = self.position();
        let mut left = match self.parse_factor() {
            Ok(n) => n,
            Err(e) => return Err(e),
        };
        loop
            invariant
                self.tokens == old(self).tokens,
                ts == self.token_seq(),
                i == old(self).position(),
                self.wf(),
                i < self.cursor <= self.tokens@.len(),
                term_spec(ts, i) == term_rest(ts, self.position(), left@),
            decreases self.tokens@.len() - self.cursor,
        {
            let token = match self.peek() {
                Some(t) => t,
                None => return Ok(left),
            };
            let operator = match token.kind {
                TokenKind::Star => BinaryOperator::Mul,
                TokenKind::Slash => BinaryOperator::Div,
                _ => return Ok(left),
            };
            let line = token.line;
            let column = token.column;
            self.advance();
            let right = match self.parse_factor() {
                Ok(n) => n,
                Err(e) => return Err(e),
            };
            left = AstNode::BinaryExpr(BinaryExpData {
                left: Box::new(left),
                right: Box::new(right),
                operator,
                line,
                column,
            });
        }
    }

    /// An additive expression: terms joined by `+` and `-`, grouped to the left.
    fn parse_additive_expr(&mut self) -> (r: Result<AstNode<'a>, ParserError>)
        requires
            old(self).ready(),
        ensures
            old(self).stepped(final(self), additive_spec(old(self).token_seq(), old(self).position()), node_res(r)),
        decreases old(self).tokens@.len() - old(self).cursor, 4int,
    {
        let ghost ts = self.token_seq();
        let ghost i = self.position();
        let mut left = match self.parse_term() {
            Ok(n) => n,
            Err(e) => return Err(e),
        };
        loop
            invariant
                self.tokens == old(self).tokens,
                ts == self.token_seq(),
                i == old(self).position(),
                self.wf(),
                i < self.cursor <= self.tokens@.len(),
                additive_spec(ts, i) == additive_rest(ts, self.position(), left@),
            decreases self.tokens@.len() - self.cursor,
        {
            let token = match self.peek() {
                Some(t) => t,
                None => return Ok(left),
            };
            let op = match token.kind {
                TokenKind::Plus => BinaryOperator::Add,
                TokenKind::Minus => BinaryOperator::Sub,
                _ => return Ok(left),
            };
            let line = token.line;
            let column = token.column;
            self.advance();
            let right = match self.parse_term() {
                Ok(n) => n,
                Err(e) => return Err(e),
            };
            left = AstNode::BinaryExpr(BinaryExpData {
                left: Box::new(left),
                operator: op,
                right: Box::new(right),
                line,
                column,
            });
        }
    }

    /// A comparison: additive expressions joined by comparison operators, grouped to the left.
    fn parse_comparison(&mut self) -> (r: Result<AstNode<'a>, ParserError>)
        requires
            old(self).ready(),
        ensures
            old(self).stepped(final(self), comparison_spec(old(self).token_seq(), old(self).position()), node_res(r)),
        decreases old(self).tokens@.len() - old(self).cursor, 5int,
    {
        let ghost ts = self.token_seq();
        let ghost i = self.position();
        let mut left = match self.parse_additive_expr() {
            Ok(n) => n,
            Err(e) => return Err(e),
        };
        loop
            invariant
                self.tokens == old(self).tokens,
                ts == self.token_seq(),
                i == old(self).position(),
                self.wf(),
                i < self.cursor <= self.tokens@.len(),
                comparison_spec(ts, i) == comparison_rest(ts, self.position(), left@),
            decreases self.tokens@.len() - self.cursor,
        {
            let token = match self.peek() {
                Some(t) => t,
                None => return Ok(left),
            };
            let op = match token.kind {
                TokenKind::DoubleEqual => BinaryOperator::DoubleEqual,
                TokenKind::LessThan => BinaryOperator::LessThan,
                TokenKind::LessOrEqual => BinaryOperator::LessOrEqual,
                TokenKind::GreaterThan => BinaryOperator::GreaterThan,
                TokenKind::GreaterOrEqual => BinaryOperator::GreaterOrEqual,
                _ => return Ok(left),
            };
            let line = token.line;
            let column = token.column;
            self.advance();
            let right = match self.parse_additive_expr() {
                Ok(n) => n,
                Err(e) => return Err(e),
            };
            left = AstNode::BinaryExpr(BinaryExpData {
                left: Box::new(left),
                operator: op,
                right: Box::new(right),
                line,
                column,
            });
        }
    }

    /// An expression.
    fn parse_expression(&mut self) -> (r: Result<AstNode<'a>, ParserError>)
        requires
            old(self).ready(),
        ensures
            old(self).stepped(final(self), expression_spec(old(self).token_seq(), old(self).position()), node_res(r)),
        decreases old(self).tokens@.len() - old(self).cursor, 6int,
    {
        self.parse_comparison()
    }

    /// A call's argument list, starting at `(`; `callee` and its position name the call.
    fn parse_call_expr(&mut self, callee: &'a str, line: usize, column: usize) -> (r: Result<AstNode<'a>, ParserError>)
        requires
            old(self).ready(),
        ensures
            old(self).stepped(
                final(self),
                call_spec(old(self).token_seq(), old(self).position(), callee@, line as int, column as int),
                node_res(r),
            ),
        decreases old(self).tokens@.len() - old(self).cursor, 0int,
    {
        let ghost ts = self.token_seq();
        let ghost i = self.position();
        match self.expect(TokenKind::LeftParen) {
            Ok(_) => {},
            Err(e) => return Err(e),
        }
        let ghost j = self.position();
        let mut args: Vec<AstNode<'a>> = Vec::new();
        assert(nodes_view(args@) =~= Seq::<Node>::empty());
        if !self.check(TokenKind::RightParen) {
            loop
                invariant_except_break
                    args_spec(ts, j, Seq::empty()) == args_spec(ts, self.position(), nodes_view(args@)),
                    j <= self.cursor <= self.tokens@.len(),
                invariant
                    self.tokens == old(self).tokens,
                    ts == self.token_seq(),
                    i == old(self).position(),
                    j == i + 1,
                    expect_spec(ts, i, Lexeme::LeftParen).0 is Ok,
                    expect_spec(ts, i, Lexeme::LeftParen).1 == j,
                    !checks(ts, j, Lexeme::RightParen),
                    self.wf(),
                ensures
                    args_spec(ts, j, Seq::empty()) == (Ok::<Seq<Node>, PErr>(nodes_view(args@)), self.position()),
                    j < self.cursor <= self.tokens@.len(),
                decreases self.tokens@.len() - self.cursor,
            {
                let e = match self.parse_expression() {
                    Ok(x) => x,
                    Err(er) => return Err(er),
                };
                push_node(&mut args, e);
                if self.check(TokenKind::Comma) {
                    self.advance();
                } else {
                    break;
                }
            }
        }
        match self.expect(TokenKind::RightParen) {
            Ok(_) => {},
            Err(e) => return Err(e),
        }
        Ok(AstNode::CallExpr(CallData { name: callee, arguments: args, line, column }))
    }
}

impl<'a> Parser<'a> {
    /// Parses a block `{ statements }` at the position.
    pub fn parse_block(&mut self) -> (r: Result<Box<AstNode<'a>>, ParserError>)
        requires
            old(self).wf(),
        ensures
            final(self).same_tokens(old(self)),
            final(self).wf(),
            block_spec(old(self).token_seq(), old(self).position()) == (boxed_res(r), final(self).position()),
            r is Ok ==> old(self).position() < final(self).position() <= old(self).token_seq().len(),
        decreases old(self).remaining(), 8int,
    {
        let ghost ts = self.token_seq();
        let ghost i = self.position();
        let open_brace = match self.expect(TokenKind::LeftBrace) {
            Ok(t) => t,
            Err(e) => return Err(e),
        };
        let ghost j = self.position();
        let mut statements: Vec<AstNode<'a>> = Vec::new();
        assert(nodes_view(statements@) =~= Seq::<Node>::empty());
        while !self.check(TokenKind::RightBrace) && !self.is_at_end()
            invariant
                self.tokens == old(self).tokens,
                ts == self.token_seq(),
                i == old(self).position(),
                j == i + 1,
                expect_spec(ts, i, Lexeme::LeftBrace) == (Ok::<SpecToken, PErr>(open_brace@), j),
                self.wf(),
                j <= self.cursor <= self.tokens@.len(),
                statements_spec(ts, j, Seq::empty()) == statements_spec(ts, self.position(), nodes_view(statements@)),
            decreases self.tokens@.len() - self.cursor,
        {
            let s = match self.parse_statement() {
                Ok(s) => s,
                Err(e) => return Err(e),
            };
            push_node(&mut statements, s);
        }
        match self.expect(TokenKind::RightBrace) {
            Ok(_) => {},
            Err(e) => return Err(e),
        }
        Ok(Box::new(AstNode::BlockStatement(BlockStatementData {
            statements,
            line: open_brace.line,
            column: open_brace.column,
        })))
    }

    /// A statement, chosen by its first token (and for an identifier, the next one).
    #[verifier::spinoff_prover]
    #[verifier::rlimit(50)]
    fn parse_statement(&mut self) -> (r: Result<AstNode<'a>, ParserError>)
        requires
            old(self).ready(),
        ensures
            old(self).stepped(final(self), statement_spec(old(self).token_seq(), old(self).position()), node_res(r)),
        decreases old(self).tokens@.len() - old(self).cursor, 9int,
    {
        let token = match self.peek() {
            Some(t) => t,
            None => return Err(ParserError::UnexpectedEoF),
        };
        match &token.kind {
            TokenKind::Return => self.parse_return_statement(),
            TokenKind::If => self.parse_if_statement(),
            TokenKind::While => self.parse_while_statement(),
            TokenKind::PrintKeyword => self.parse_print_statement(),
            TokenKind::IntKeyword | TokenKind::BoolKeyword | TokenKind::FloatKeyword | TokenKind::StringKeyword => {
                self.parse_var_decl()
            },
            TokenKind::LeftBrace => match self.parse_block() {
                Ok(block) => Ok(*block),
                Err(e) => Err(e),
            },
            TokenKind::Identifier(_) => {
                // An identifier followed by another one declares a variable of a struct type.
                let next_is_identifier = self.cursor + 1 < self.tokens.len()
                    && matches!(self.tokens[self.cursor + 1].kind, TokenKind::Identifier(_));
                proof {
                    if self.cursor + 1 < self.tokens@.len() {
                        self.lemma_token_at(self.cursor + 1);
                    }
                }
                if next_is_identifier {
                    self.parse_var_decl()
                } else {
                    self.parse_expression_or_assignment()
                }
            },
            _ => Err(ParserError::UnexpectedToken {
                expected: String::from_str("Statement (return, if, while, variable declaration, identifier, etc.)"),
                found: kind_debug(&token.kind),
                line: token.line,
                column: token.column,
            }),
        }
    }

    /// An expression statement `expr;` or an assignment `target = expr;`.
    fn parse_expression_or_assignment(&mut self) -> (r: Result<AstNode<'a>, ParserError>)
        requires
            old(self).ready(),
        ensures
            old(self).stepped(final(self), expr_or_assign_spec(old(self).token_seq(), old(self).position()), node_res(r)),
        decreases old(self).tokens@.len() - old(self).cursor, 7int,
    {
        let expr = match self.parse_expression() {
            Ok(e) => e,
            Err(e) => return Err(e),
        };
        if self.check(TokenKind::Equal) {
            let eq_token = match self.expect(TokenKind::Equal) {
                Ok(t) => t,
                Err(e) => return Err(e),
            };
            let value = match self.parse_expression() {
                Ok(v) => v,
                Err(e) => return Err(e),
            };
            match self.expect(TokenKind::Semicolon) {
                Ok(_) => {},
                Err(e) => return Err(e),
            }
            Ok(AstNode::AssignmentStatement(AssignmentData {
                target: Box::new(expr),
                value: Box::new(value),
                line: eq_token.line,
                column: eq_token.column,
            }))
        } else {
            match self.expect(TokenKind::Semicolon) {
                Ok(_) => {},
                Err(e) => return Err(e),
            }
            Ok(expr)
        }
    }

    /// A variable declaration `type name;` or `type name = expr;`.
    fn parse_var_decl(&mut self) -> (r: Result<AstNode<'a>, ParserError>)
        requires
            old(self).ready(),
        ensures
            old(self).stepped(final(self), var_decl_spec(old(self).token_seq(), old(self).position()), node_res(r)),
        decreases old(self).tokens@.len() - old(self).cursor, 7int,
    {
        let type_token = match self.peek() {
            Some(t) => t,
            None => return Err(ParserError::UnexpectedEoF),
        };
        let var_type = match self.parse_type() {
            Ok(t) => t,
            Err(e) => return Err(e),
        };
        let var_name = match self.consume_identifier() {
            Ok((n, _, _)) => n,
            Err(e) => return Err(e),
        };
        let initializer = if self.check(TokenKind::Equal) {
            self.advance();
            match self.parse_expression() {
                Ok(e) => some_node(e),
                Err(e) => return Err(e),
            }
        } else {
            None
        };
        match self.expect(TokenKind::Semicolon) {
            Ok(_) => {},
            Err(e) => return Err(e),
        }
        Ok(AstNode::VarDeclStatement(VarDeclData {
            name: var_name,
            var_typ: var_type,
            initializer,
            line: type_token.line,
            column: type_token.column,
        }))
    }

    /// `if (cond) block`, optionally followed by `else` and a block or another `if`.
    fn parse_if_statement(&mut self) -> (r: Result<AstNode<'a>, ParserError>)
        requires
            old(self).ready(),
        ensures
            old(self).stepped(final(self), if_spec(old(self).token_seq(), old(self).position()), node_res(r)),
        decreases old(self).tokens@.len() - old(self).cursor, 7int,
    {
        let if_token = match self.expect(TokenKind::If) {
            Ok(t) => t,
            Err(e) => return Err(e),
        };
        match self.expect(TokenKind::LeftParen) {
            Ok(_) => {},
            Err(e) => return Err(e),
        }
        let condition = match self.parse_expression() {
            Ok(c) => c,
            Err(e) => return Err(e),
        };
        match self.expect(TokenKind::RightParen) {
            Ok(_) => {},
            Err(e) => return Err(e),
        }
        let then_branch = match self.parse_block() {
            Ok(b) => b,
            Err(e) => return Err(e),
        };
        let else_branch = if self.check(TokenKind::Else) {
            self.advance();
            if self.check(TokenKind::If) {
                match self.parse_if_statement() {
                    Ok(s) => some_node(s),
                    Err(e) => return Err(e),
                }
            } else {
                match self.parse_block() {
                    Ok(b) => some_boxed(b),
                    Err(e) => return Err(e),
                }
            }
        } else {
            None
        };
        Ok(AstNode::IfElseStatement(IfElseData {
            condition_expr: Box::new(condition),
            if_branch: then_branch,
            else_branch,
            line: if_token.line,
            column: if_token.column,
        }))
    }

    /// `return;` or `return expr;`.
    fn parse_return_statement(&mut self) -> (r: Result<AstNode<'a>, ParserError>)
        requires
            old(self).ready(),
        ensures
            old(self).stepped(final(self), return_spec(old(self).token_seq(), old(self).position()), node_res(r)),
        decreases old(self).tokens@.len() - old(self).cursor, 7int,
    {
        let return_token = match self.expect(TokenKind::Return) {
            Ok(t) => t,
            Err(e) => return Err(e),
        };
        let ghost ts = self.token_seq();
        let ghost j = self.position();
        let value = if self.check(TokenKind::Semicolon) {
            None
        } else {
            match self.parse_expression() {
                Ok(e) => some_node(e),
                Err(e) => return Err(e),
            }
        };
        assert(j <= self.cursor <= self.tokens@.len());
        match self.expect(TokenKind::Semicolon) {
            Ok(_) => {},
            Err(e) => return Err(e),
        }
        let ghost vv = opt_view(value);
        let node = AstNode::ReturnStatement(ReturnData {
            value,
            line: return_token.line,
            column: return_token.column,
        });
        assert(node@ == Node::Return { value: vv, line: return_token.line as int, column: return_token.column as int });
        assert(return_spec(ts, old(self).position()) == (Ok::<Node, PErr>(node@), self.position()));
        Ok(node)
    }

    /// `while (cond) block`.
    #[verifier::spinoff_prover]
    fn parse_while_statement(&mut self) -> (r: Result<AstNode<'a>, ParserError>)
        requires
            old(self).ready(),
        ensures
            old(self).stepped(final(self), while_spec(old(self).token_seq(), old(self).position()), node_res(r)),
        decreases old(self).tokens@.len() - old(self).cursor, 7int,
    {
        let while_token = match self.expect(TokenKind::While) {
            Ok(t) => t,
            Err(e) => return Err(e),
        };
        match self.expect(TokenKind::LeftParen) {
            Ok(_) => {},
            Err(e) => return Err(e),
        }
        let condition = match self.parse_expression() {
            Ok(c) => c,
            Err(e) => return Err(e),
        };
        match self.expect(TokenKind::RightParen) {
            Ok(_) => {},
            Err(e) => return Err(e),
        }
        let body = match self.parse_block() {
            Ok(b) => b,
            Err(e) => return Err(e),
        };
        Ok(AstNode::WhileStatement(WhileLoopData {
            condition_expr: Box::new(condition),
            body,
            line: while_token.line,
            column: while_token.column,
        }))
    }

    /// `print(expr);`.
    fn parse_print_statement(&mut self) -> (r: Result<AstNode<'a>, ParserError>)
        requires
            old(self).ready(),
        ensures
            old(self).stepped(final(self), print_spec(old(self).token_seq(), old(self).position()), node_res(r)),
        decreases old(self).tokens@.len() - old(self).cursor, 7int,
    {
        match self.expect(TokenKind::PrintKeyword) {
            Ok(_) => {},
            Err(e) => return Err(e),
        }
        match self.expect(TokenKind::LeftParen) {
            Ok(_) => {},
            Err(e) => return Err(e),
        }
        let expr = match self.parse_expression() {
            Ok(x) => x,
            Err(e) => return Err(e),
        };
        match self.expect(TokenKind::RightParen) {
            Ok(_) => {},
            Err(e) => return Err(e),
        }
        match self.expect(TokenKind::Semicolon) {
            Ok(_) => {},
            Err(e) => return Err(e),
        }
        Ok(AstNode::PrintStatement(Box::new(expr)))
    }
}

impl<'a> Parser<'a> {
    /// Parses a whole program: struct and function declarations up to the end.
    #[verifier::spinoff_prover]
    #[verifier::rlimit(60)]
    pub fn parse(&mut self) -> (r: Result<AstNode<'a>, ParserError>)
        requires
            old(self).wf(),
        ensures
            final(self).same_tokens(old(self)),
            final(self).wf(),
            program_spec(old(self).token_seq(), old(self).position()) == (node_res(r), final(self).position()),
    {
        let ghost ts = self.token_seq();
        let ghost i = self.position();
        let mut nodes: Vec<AstNode<'a>> = Vec::new();
        assert(nodes_view(nodes@) =~= Seq::<Node>::empty());
        loop
            invariant
                self.tokens == old(self).tokens,
                ts == self.token_seq(),
                i == old(self).position(),
                self.wf(),
                declarations_spec(ts, i, Seq::empty()) == declarations_spec(ts, self.position(), nodes_view(nodes@)),
            decreases self.tokens@.len() + 1 - self.cursor,
        {
            let token = match self.peek() {
                Some(t) => t,
                None => return Ok(AstNode::Programm(nodes)),
            };
            proof { self.lemma_token_at(self.position()); }
            match &token.kind {
                TokenKind::StructKeyword => {
                    let n = match self.parse_struct_decl() {
                        Ok(n) => n,
                        Err(e) => return Err(e),
                    };
                    push_node(&mut nodes, n);
                },
                TokenKind::IntKeyword
                | TokenKind::BoolKeyword
                | TokenKind::FloatKeyword
                | TokenKind::StringKeyword
                | TokenKind::Identifier(_) => {
                    let is_function = self.cursor + 2 < self.tokens.len()
                        && matches!(self.tokens[self.cursor + 2].kind, TokenKind::LeftParen);
                    proof {
                        if self.cursor + 2 < self.tokens@.len() {
                            self.lemma_token_at(self.cursor + 2);
                        }
                    }
                    if is_function {
                        let n = match self.parse_function() {
                            Ok(n) => n,
                            Err(e) => return Err(e),
                        };
                        push_node(&mut nodes, n);
                    } else {
                        return Err(ParserError::NotImplemented(
                            String::from_str("Global variable parsing not implemented"),
                        ));
                    }
                },
                TokenKind::EoF => return Ok(AstNode::Programm(nodes)),
                other => {
                    return Err(ParserError::UnexpectedToken {
                        expected: String::from_str("type keyword (int, bool, float, string) or struct"),
                        found: kind_debug(other),
                        line: token.line,
                        column: token.column,
                    });
                },
            }
        }
    }

    /// A struct declaration `struct Name { fields };`.
    fn parse_struct_decl(&mut self) -> (r: Result<AstNode<'a>, ParserError>)
        requires
            old(self).ready(),
        ensures
            old(self).stepped(final(self), struct_spec(old(self).token_seq(), old(self).position()), node_res(r)),
    {
        let ghost ts = self.token_seq();
        let ghost i = self.position();
        match self.expect(TokenKind::StructKeyword) {
            Ok(_) => {},
            Err(e) => return Err(e),
        }
        let name_token = match self.advance() {
            Some(t) => t,
            None => return Err(ParserError::UnexpectedEoF),
        };
        let struct_name = match name_token.kind {
            TokenKind::Identifier(name) => name,
            _ => {
                return Err(ParserError::UnexpectedToken {
                    expected: String::from_str("Struct name (Identifier)"),
                    found: kind_debug(&name_token.kind),
                    line: name_token.line,
                    column: name_token.column,
                });
            },
        };
        match self.expect(TokenKind::LeftBrace) {
            Ok(_) => {},
            Err(e) => return Err(e),
        }
        let ghost k = self.position();
        let mut fields: Vec<Parameter<'a>> = Vec::new();
        assert(fields_view(fields@) =~= Seq::<Field>::empty());
        while !self.check(TokenKind::RightBrace) && !self.is_at_end()
            invariant
                self.tokens == old(self).tokens,
                ts == self.token_seq(),
                i == old(self).position(),
                i < k <= self.cursor <= self.tokens@.len(),
                k == i + 3,
                expect_spec(ts, i, Lexeme::StructKeyword).0 is Ok,
                expect_spec(ts, i, Lexeme::StructKeyword).1 == i + 1,
                tok_at(ts, i + 1) == Some(name_token@),
                name_token@.kind == Lexeme::Identifier(struct_name@),
                expect_spec(ts, i + 2, Lexeme::LeftBrace).0 is Ok,
                expect_spec(ts, i + 2, Lexeme::LeftBrace).1 == k,
                self.wf(),
                fields_spec(ts, k, Seq::empty()) == fields_spec(ts, self.position(), fields_view(fields@)),
            decreases self.tokens@.len() - self.cursor,
        {
            let field_type = match self.parse_type() {
                Ok(t) => t,
                Err(e) => return Err(e),
            };
            let field_token = match self.advance() {
                Some(t) => t,
                None => return Err(ParserError::UnexpectedEoF),
            };
            let field_name = match field_token.kind {
                TokenKind::Identifier(name) => name,
                _ => {
                    return Err(ParserError::UnexpectedToken {
                        expected: String::from_str("Field name (Identifier)"),
                        found: kind_debug(&field_token.kind),
                        line: field_token.line,
                        column: field_token.column,
                    });
                },
            };
            match self.expect(TokenKind::Semicolon) {
                Ok(_) => {},
                Err(e) => return Err(e),
            }
            push_param(&mut fields, Parameter { name: field_name, param_typ: field_type });
        }
        match self.expect(TokenKind::RightBrace) {
            Ok(_) => {},
            Err(e) => return Err(e),
        }
        match self.expect(TokenKind::Semicolon) {
            Ok(_) => {},
            Err(e) => return Err(e),
        }
        Ok(AstNode::StructDecl(StructDeclData {
            name: struct_name,
            fields,
            line: name_token.line,
            column: name_token.column,
        }))
    }

    /// A function declaration `type name(params) block`.
    fn parse_function(&mut self) -> (r: Result<AstNode<'a>, ParserError>)
        requires
            old(self).ready(),
        ensures
            old(self).stepped(final(self), function_spec(old(self).token_seq(), old(self).position()), node_res(r)),
    {
        let ghost ts = self.token_seq();
        let ghost i = self.position();
        let return_type = match self.parse_type() {
            Ok(t) => t,
            Err(e) => return Err(e),
        };
        let ghost j = self.position();
        let name_token = match self.advance() {
            Some(t) => t,
            None => return Err(ParserError::UnexpectedEoF),
        };
        let name = match name_token.kind {
            TokenKind::Identifier(name) => name,
            _ => {
                return Err(ParserError::UnexpectedToken {
                    expected: String::from_str("Function name (Identifier)"),
                    found: kind_debug(&name_token.kind),
                    line: name_token.line,
                    column: name_token.column,
                });
            },
        };
        match self.expect(TokenKind::LeftParen) {
            Ok(_) => {},
            Err(e) => return Err(e),
        }
        let ghost k = self.position();
        let mut parameter: Vec<Parameter<'a>> = Vec::new();
        assert(fields_view(parameter@) =~= Seq::<Field>::empty());
        while !self.check(TokenKind::RightParen) && !self.is_at_end()
            invariant_except_break
                params_spec(ts, k, Seq::empty()) == params_spec(ts, self.position(), fields_view(parameter@)),
            invariant
                self.tokens == old(self).tokens,
                ts == self.token_seq(),
                i == old(self).position(),
                i < k <= self.cursor <= self.tokens@.len(),
                type_spec(ts, i) == (Ok::<Ty, PErr>(return_type@), j),
                tok_at(ts, j) == Some(name_token@),
                name_token@.kind == Lexeme::Identifier(name@),
                expect_spec(ts, j + 1, Lexeme::LeftParen).0 is Ok,
                expect_spec(ts, j + 1, Lexeme::LeftParen).1 == k,
                self.wf(),
            ensures
                params_spec(ts, k, Seq::empty()) == (Ok::<Seq<Field>, PErr>(fields_view(parameter@)), self.position()),
            decreases self.tokens@.len() - self.cursor,
        {
            let field_type = match self.parse_type() {
                Ok(t) => t,
                Err(e) => return Err(e),
            };
            let field_name = match self.consume_identifier() {
                Ok((n, _, _)) => n,
                Err(e) => return Err(e),
            };
            push_param(&mut parameter, Parameter { name: field_name, param_typ: field_type });
            if self.check(TokenKind::Comma) {
                self.advance();
            } else {
                break;
            }
        }
        match self.expect(TokenKind::RightParen) {
            Ok(_) => {},
            Err(e) => return Err(e),
        }
        let body = match self.parse_block() {
            Ok(b) => b,
            Err(e) => return Err(e),
        };
        Ok(AstNode::FunctionDecl(FunctionDeclData {
            name,
            return_type,
            parameter,
            body,
            line: name_token.line,
            column: name_token.column,
        }))
    }
}

/// `prefix`, then the debug rendering of `t`, then `)`.
fn wrapped(prefix: &str, t: &str) -> (s: String)
    ensures
        s@ == prefix@ + debug_quoted(t@) + ")"@,
{
    let mut s = String::from_str(prefix);
    let d = debug_str(t);
    s.append(d.as_str());
    s.append(")");
    s
}

// ---------------------------------------------------------------------------
// The grammar, as functions from a position to a result and the position reached.
// Mutually recursive functions decrease the number of tokens left, or keep it and
// decrease a rank. Where a position comes from a nested call, the functions go on
// only if it moved forward within the tokens (which the parsing functions ensure).

/// Whether a nested step moved from `i` to `j`, staying within the tokens.
pub open spec fn moved(ts: Seq<SpecToken>, i: int, j: int) -> bool {
    i < j <= ts.len()
}

/// The multiplicative operator a token stands for.
pub open spec fn mul_op(k: Lexeme) -> Option<BinaryOperator> {
    match k {
        Lexeme::Star => Some(BinaryOperator::Mul),
        Lexeme::Slash => Some(BinaryOperator::Div),
        _ => None,
    }
}

/// The additive operator a token stands for.
pub open spec fn add_op(k: Lexeme) -> Option<BinaryOperator> {
    match k {
        Lexeme::Plus => Some(BinaryOperator::Add),
        Lexeme::Minus => Some(BinaryOperator::Sub),
        _ => None,
    }
}

/// The comparison operator a token stands for.
pub open spec fn cmp_op(k: Lexeme) -> Option<BinaryOperator> {
    match k {
        Lexeme::DoubleEqual => Some(BinaryOperator::DoubleEqual),
        Lexeme::LessThan => Some(BinaryOperator::LessThan),
        Lexeme::LessOrEqual => Some(BinaryOperator::LessOrEqual),
        Lexeme::GreaterThan => Some(BinaryOperator::GreaterThan),
        Lexeme::GreaterOrEqual => Some(BinaryOperator::GreaterOrEqual),
        _ => None,
    }
}

/// A literal, a parenthesized expression, a call or a variable.
pub open spec fn primary_spec(ts: Seq<SpecToken>, i: int) -> Step<Node>
    decreases ts.len() - i, 1int,
{
    match tok_at(ts, i) {
        None => (Err(PErr::UnexpectedEoF), i + 1),
        Some(t) => match t.kind {
            Lexeme::IntNumber(raw) => match parse_i16_spec(raw) {
                Some(v) => (Ok(Node::IntLit(v)), i + 1),
                None => (Err(PErr::InvalidIntLiteral { raw, line: t.line, column: t.column }), i + 1),
            },
            Lexeme::FloatNumber(raw) => if valid_float_text(raw) {
                (Ok(Node::FloatLit(raw)), i + 1)
            } else {
                (Err(PErr::InvalidFloatLiteral { raw, line: t.line, column: t.column }), i + 1)
            },
            Lexeme::Str(v) => (Ok(Node::StringLit(v)), i + 1),
            Lexeme::Bool(b) => (Ok(Node::BoolLit(b)), i + 1),
            Lexeme::LeftParen => match expression_spec(ts, i + 1) {
                (Err(e), j) => (Err(e), j),
                (Ok(e), j) => match expect_spec(ts, j, Lexeme::RightParen) {
                    (Ok(_), k) => (Ok(e), k),
                    (Err(x), k) => (Err(x), k),
                },
            },
            Lexeme::Identifier(name) => if checks(ts, i + 1, Lexeme::LeftParen) {
                call_spec(ts, i + 1, name, t.line, t.column)
            } else {
                (Ok(Node::Variable(name)), i + 1)
            },
            _ => (Err(unexpected("literal, identifier, or '('"@, t)), i + 1),
        },
    }
}

/// A call's parenthesized argument list, starting at `(`.
pub open spec fn call_spec(ts: Seq<SpecToken>, i: int, name: Seq<char>, line: int, column: int) -> Step<Node>
    decreases ts.len() - i, 0int,
{
    match expect_spec(ts, i, Lexeme::LeftParen) {
        (Err(e), j) => (Err(e), j),
        (Ok(_), j) => {
            let args = if checks(ts, j, Lexeme::RightParen) {
                (Ok(Seq::<Node>::empty()), j)
            } else {
                args_spec(ts, j, Seq::empty())
            };
            match args {
                (Err(e), k) => (Err(e), k),
                (Ok(a), k) => match expect_spec(ts, k, Lexeme::RightParen) {
                    (Ok(_), m) => (Ok(Node::Call { name, args: a, line, column }), m),
                    (Err(e), m) => (Err(e), m),
                },
            }
        },
    }
}

/// Comma-separated arguments, appended to `acc`.
pub open spec fn args_spec(ts: Seq<SpecToken>, i: int, acc: Seq<Node>) -> Step<Seq<Node>>
    decreases ts.len() - i, 7int,
{
    match expression_spec(ts, i) {
        (Err(e), j) => (Err(e), j),
        (Ok(e), j) => if !moved(ts, i, j) {
            (Err(PErr::UnexpectedEoF), j)
        } else if checks(ts, j, Lexeme::Comma) {
            args_spec(ts, j + 1, acc.push(e))
        } else {
            (Ok(acc.push(e)), j)
        },
    }
}

/// Member accesses `.name` and indexings `[expr]` applied to `node`.
pub open spec fn postfix_spec(ts: Seq<SpecToken>, i: int, node: Node) -> Step<Node>
    decreases ts.len() - i, 0int,
{
    match tok_at(ts, i) {
        Some(t) => match t.kind {
            Lexeme::Dot => match ident_spec(ts, i + 1) {
                (Err(e), j) => (Err(e), j),
                (Ok((m, _l, _c)), j) => postfix_spec(
                    ts,
                    j,
                    Node::Member { object: Box::new(node), member: m, line: t.line, column: t.column },
                ),
            },
            Lexeme::LeftBracket => match expression_spec(ts, i + 1) {
                (Err(e), j) => (Err(e), j),
                (Ok(idx), j) => if !moved(ts, i, j) {
                    (Err(PErr::UnexpectedEoF), j)
                } else {
                    match expect_spec(ts, j, Lexeme::RightBracket) {
                        (Err(e), k) => (Err(e), k),
                        (Ok(_), k) => postfix_spec(
                            ts,
                            k,
                            Node::Index {
                                array: Box::new(node),
                                index: Box::new(idx),
                                line: t.line,
                                column: t.column,
                            },
                        ),
                    }
                },
            },
            _ => (Ok(node), i),
        },
        None => (Ok(node), i),
    }
}

/// A primary expression followed by its postfix operators.
pub open spec fn factor_spec(ts: Seq<SpecToken>, i: int) -> Step<Node>
    decreases ts.len() - i, 2int,
{
    match primary_spec(ts, i) {
        (Err(e), j) => (Err(e), j),
        (Ok(n), j) => if !moved(ts, i, j) {
            (Err(PErr::UnexpectedEoF), j)
        } else {
            postfix_spec(ts, j, n)
        },
    }
}

/// Further `* factor` and `/ factor`, folded to the left onto `left`.
pub open spec fn term_rest(ts: Seq<SpecToken>, i: int, left: Node) -> Step<Node>
    decreases ts.len() - i, 0int,
{
    match tok_at(ts, i) {
        Some(t) => match mul_op(t.kind) {
            Some(op) => match factor_spec(ts, i + 1) {
                (Err(e), j) => (Err(e), j),
                (Ok(right), j) => if !moved(ts, i, j) {
                    (Err(PErr::UnexpectedEoF), j)
                } else {
                    term_rest(
                        ts,
                        j,
                        Node::Binary { left: Box::new(left), right: Box::new(right), op, line: t.line, column: t.column },
                    )
                },
            },
            None => (Ok(left), i),
        },
        None => (Ok(left), i),
    }
}

/// A term: factors joined by `*` and `/`.
pub open spec fn term_spec(ts: Seq<SpecToken>, i: int) -> Step<Node>
    decreases ts.len() - i, 3int,
{
    match factor_spec(ts, i) {
        (Err(e), j) => (Err(e), j),
        (Ok(l), j) => if !moved(ts, i, j) {
            (Err(PErr::UnexpectedEoF), j)
        } else {
            term_rest(ts, j, l)
        },
    }
}

/// Further `+ term` and `- term`, folded to the left onto `left`.
pub open spec fn additive_rest(ts: Seq<SpecToken>, i: int, left: Node) -> Step<Node>
    decreases ts.len() - i, 0int,
{
    match tok_at(ts, i) {
        Some(t) => match add_op(t.kind) {
            Some(op) => match term_spec(ts, i + 1) {
                (Err(e), j) => (Err(e), j),
                (Ok(right), j) => if !moved(ts, i, j) {
                    (Err(PErr::UnexpectedEoF), j)
                } else {
                    additive_rest(
                        ts,
                        j,
                        Node::Binary { left: Box::new(left), right: Box::new(right), op, line: t.line, column: t.column },
                    )
                },
            },
            None => (Ok(left), i),
        },
        None => (Ok(left), i),
    }
}

/// An additive expression: terms joined by `+` and `-`.
pub open spec fn additive_spec(ts: Seq<SpecToken>, i: int) -> Step<Node>
    decreases ts.len() - i, 4int,
{
    match term_spec(ts, i) {
        (Err(e), j) => (Err(e), j),
        (Ok(l), j) => if !moved(ts, i, j) {
            (Err(PErr::UnexpectedEoF), j)
        } else {
            additive_rest(ts, j, l)
        },
    }
}

/// Further comparisons, folded to the left onto `left`.
pub open spec fn comparison_rest(ts: Seq<SpecToken>, i: int, left: Node) -> Step<Node>
    decreases ts.len() - i, 0int,
{
    match tok_at(ts, i) {
        Some(t) => match cmp_op(t.kind) {
            Some(op) => match additive_spec(ts, i + 1) {
                (Err(e), j) => (Err(e), j),
                (Ok(right), j) => if !moved(ts, i, j) {
                    (Err(PErr::UnexpectedEoF), j)
                } else {
                    comparison_rest(
                        ts,
                        j,
                        Node::Binary { left: Box::new(left), right: Box::new(right), op, line: t.line, column: t.column },
                    )
                },
            },
            None => (Ok(left), i),
        },
        None => (Ok(left), i),
    }
}

/// A comparison: additive expressions joined by comparison operators.
pub open spec fn comparison_spec(ts: Seq<SpecToken>, i: int) -> Step<Node>
    decreases ts.len() - i, 5int,
{
    match additive_spec(ts, i) {
        (Err(e), j) => (Err(e), j),
        (Ok(l), j) => if !moved(ts, i, j) {
            (Err(PErr::UnexpectedEoF), j)
        } else {
            comparison_rest(ts, j, l)
        },
    }
}

/// An expression.
pub open spec fn expression_spec(ts: Seq<SpecToken>, i: int) -> Step<Node>
    decreases ts.len() - i, 6int,
{
    comparison_spec(ts, i)
}

/// A block `{ statements }`.
pub open spec fn block_spec(ts: Seq<SpecToken>, i: int) -> Step<Node>
    decreases ts.len() - i, 8int,
{
    match expect_spec(ts, i, Lexeme::LeftBrace) {
        (Err(e), j) => (Err(e), j),
        (Ok(open), j) => match statements_spec(ts, j, Seq::empty()) {
            (Err(e), k) => (Err(e), k),
            (Ok(ss), k) => match expect_spec(ts, k, Lexeme::RightBrace) {
                (Err(e), m) => (Err(e), m),
                (Ok(_), m) => (Ok(Node::Block { statements: ss, line: open.line, column: open.column }), m),
            },
        },
    }
}

/// Statements up to a `}` or the end, appended to `acc`.
pub open spec fn statements_spec(ts: Seq<SpecToken>, i: int, acc: Seq<Node>) -> Step<Seq<Node>>
    decreases ts.len() - i, 10int,
{
    if !checks(ts, i, Lexeme::RightBrace) && !at_end(ts, i) {
        match statement_spec(ts, i) {
            (Err(e), j) => (Err(e), j),
            (Ok(s), j) => if !moved(ts, i, j) {
                (Err(PErr::UnexpectedEoF), j)
            } else {
                statements_spec(ts, j, acc.push(s))
            },
        }
    } else {
        (Ok(acc), i)
    }
}

/// Whether the token at `i` is an identifier.
pub open spec fn ident_at(ts: Seq<SpecToken>, i: int) -> bool {
    match tok_at(ts, i) {
        Some(t) => t.kind is Identifier,
        None => false,
    }
}

/// A statement, chosen by its first token (and for an identifier, the next one).
pub open spec fn statement_spec(ts: Seq<SpecToken>, i: int) -> Step<Node>
    decreases ts.len() - i, 9int,
{
    match tok_at(ts, i) {
        None => (Err(PErr::UnexpectedEoF), i),
        Some(t) => match t.kind {
            Lexeme::Return => return_spec(ts, i),
            Lexeme::If => if_spec(ts, i),
            Lexeme::While => while_spec(ts, i),
            Lexeme::PrintKeyword => print_spec(ts, i),
            Lexeme::IntKeyword | Lexeme::BoolKeyword | Lexeme::FloatKeyword | Lexeme::StringKeyword => var_decl_spec(ts, i),
            Lexeme::LeftBrace => block_spec(ts, i),
            Lexeme::Identifier(_) => if ident_at(ts, i + 1) {
                var_decl_spec(ts, i)
            } else {
                expr_or_assign_spec(ts, i)
            },
            _ => (Err(unexpected("Statement (return, if, while, variable declaration, identifier, etc.)"@, t)), i),
        },
    }
}

/// `return;` or `return expr;`.
pub open spec fn return_spec(ts: Seq<SpecToken>, i: int) -> Step<Node>
    decreases ts.len() - i, 7int,
{
    match expect_spec(ts, i, Lexeme::Return) {
        (Err(e), j) => (Err(e), j),
        (Ok(rt), j) => {
            let value = if checks(ts, j, Lexeme::Semicolon) {
                (Ok(None), j)
            } else {
                match expression_spec(ts, j) {
                    (Ok(e), k) => (Ok(Some(Box::new(e))), k),
                    (Err(e), k) => (Err(e), k),
                }
            };
            match value {
                (Err(e), k) => (Err(e), k),
                (Ok(v), k) => match expect_spec(ts, k, Lexeme::Semicolon) {
                    (Ok(_), m) => (Ok(Node::Return { value: v, line: rt.line, column: rt.column }), m),
                    (Err(e), m) => (Err(e), m),
                },
            }
        },
    }
}

/// `if (cond) block`, optionally followed by `else` and a block or another `if`.
pub open spec fn if_spec(ts: Seq<SpecToken>, i: int) -> Step<Node>
    decreases ts.len() - i, 7int,
{
    match expect_spec(ts, i, Lexeme::If) {
        (Err(e), j) => (Err(e), j),
        (Ok(it), j1) => match expect_spec(ts, j1, Lexeme::LeftParen) {
            (Err(e), j) => (Err(e), j),
            (Ok(_), j2) => match expression_spec(ts, j2) {
                (Err(e), j) => (Err(e), j),
                (Ok(c), j3) => if !moved(ts, i, j3) {
                    (Err(PErr::UnexpectedEoF), j3)
                } else {
                    match expect_spec(ts, j3, Lexeme::RightParen) {
                        (Err(e), j) => (Err(e), j),
                        (Ok(_), j4) => match block_spec(ts, j4) {
                            (Err(e), j) => (Err(e), j),
                            (Ok(th), j5) => if !moved(ts, i, j5) {
                                (Err(PErr::UnexpectedEoF), j5)
                            } else if checks(ts, j5, Lexeme::Else) {
                                let other = if checks(ts, j5 + 1, Lexeme::If) {
                                    if_spec(ts, j5 + 1)
                                } else {
                                    block_spec(ts, j5 + 1)
                                };
                                match other {
                                    (Err(e), j) => (Err(e), j),
                                    (Ok(eb), j6) => (Ok(Node::IfElse {
                                        cond: Box::new(c),
                                        then_branch: Box::new(th),
                                        else_branch: Some(Box::new(eb)),
                                        line: it.line,
                                        column: it.column,
                                    }), j6),
                                }
                            } else {
                                (Ok(Node::IfElse {
                                    cond: Box::new(c),
                                    then_branch: Box::new(th),
                                    else_branch: None,
                                    line: it.line,
                                    column: it.column,
                                }), j5)
                            },
                        },
                    }
                },
            },
        },
    }
}

/// `while (cond) block`.
pub open spec fn while_spec(ts: Seq<SpecToken>, i: int) -> Step<Node>
    decreases ts.len() - i, 7int,
{
    match expect_spec(ts, i, Lexeme::While) {
        (Err(e), j) => (Err(e), j),
        (Ok(wt), j1) => match expect_spec(ts, j1, Lexeme::LeftParen) {
            (Err(e), j) => (Err(e), j),
            (Ok(_), j2) => match expression_spec(ts, j2) {
                (Err(e), j) => (Err(e), j),
                (Ok(c), j3) => if !moved(ts, i, j3) {
                    (Err(PErr::UnexpectedEoF), j3)
                } else {
                    match expect_spec(ts, j3, Lexeme::RightParen) {
                        (Err(e), j) => (Err(e), j),
                        (Ok(_), j4) => match block_spec(ts, j4) {
                            (Err(e), j) => (Err(e), j),
                            (Ok(b), j5) => (Ok(Node::While {
                                cond: Box::new(c),
                                body: Box::new(b),
                                line: wt.line,
                                column: wt.column,
                            }), j5),
                        },
                    }
                },
            },
        },
    }
}

/// `print(expr);`.
pub open spec fn print_spec(ts: Seq<SpecToken>, i: int) -> Step<Node>
    decreases ts.len() - i, 7int,
{
    match expect_spec(ts, i, Lexeme::PrintKeyword) {
        (Err(e), j) => (Err(e), j),
        (Ok(_), j1) => match expect_spec(ts, j1, Lexeme::LeftParen) {
            (Err(e), j) => (Err(e), j),
            (Ok(_), j2) => match expression_spec(ts, j2) {
                (Err(e), j) => (Err(e), j),
                (Ok(x), j3) => match expect_spec(ts, j3, Lexeme::RightParen) {
                    (Err(e), j) => (Err(e), j),
                    (Ok(_), j4) => match expect_spec(ts, j4, Lexeme::Semicolon) {
                        (Err(e), j) => (Err(e), j),
                        (Ok(_), j5) => (Ok(Node::Print(Box::new(x))), j5),
                    },
                },
            },
        },
    }
}

/// `type name;` or `type name = expr;`.
pub open spec fn var_decl_spec(ts: Seq<SpecToken>, i: int) -> Step<Node>
    decreases ts.len() - i, 7int,
{
    match tok_at(ts, i) {
        None => (Err(PErr::UnexpectedEoF), i),
        Some(tt) => match type_spec(ts, i) {
            (Err(e), j) => (Err(e), j),
            (Ok(ty), j) => match ident_spec(ts, j) {
                (Err(e), k) => (Err(e), k),
                (Ok((name, _l, _c)), k) => {
                    let init = if checks(ts, k, Lexeme::Equal) {
                        match expression_spec(ts, k + 1) {
                            (Ok(e), m) => (Ok(Some(Box::new(e))), m),
                            (Err(e), m) => (Err(e), m),
                        }
                    } else {
                        (Ok(None), k)
                    };
                    match init {
                        (Err(e), m) => (Err(e), m),
                        (Ok(v), m) => match expect_spec(ts, m, Lexeme::Semicolon) {
                            (Err(e), n) => (Err(e), n),
                            (Ok(_), n) => (Ok(Node::VarDecl {
                                name,
                                typ: ty,
                                init: v,
                                line: tt.line,
                                column: tt.column,
                            }), n),
                        },
                    }
                },
            },
        },
    }
}

/// An expression statement `expr;` or an assignment `target = expr;`.
pub open spec fn expr_or_assign_spec(ts: Seq<SpecToken>, i: int) -> Step<Node>
    decreases ts.len() - i, 7int,
{
    match expression_spec(ts, i) {
        (Err(e), j) => (Err(e), j),
        (Ok(e), j) => if !moved(ts, i, j) {
            (Err(PErr::UnexpectedEoF), j)
        } else if checks(ts, j, Lexeme::Equal) {
            match expect_spec(ts, j, Lexeme::Equal) {
                (Err(x), k) => (Err(x), k),
                (Ok(eqt), k) => match expression_spec(ts, k) {
                    (Err(x), m) => (Err(x), m),
                    (Ok(v), m) => match expect_spec(ts, m, Lexeme::Semicolon) {
                        (Err(x), n) => (Err(x), n),
                        (Ok(_), n) => (Ok(Node::Assign {
                            target: Box::new(e),
                            value: Box::new(v),
                            line: eqt.line,
                            column: eqt.column,
                        }), n),
                    },
                },
            }
        } else {
            match expect_spec(ts, j, Lexeme::Semicolon) {
                (Err(x), k) => (Err(x), k),
                (Ok(_), k) => (Ok(e), k),
            }
        },
    }
}

/// Function parameters `type name, ...` up to `)` or the end, appended to `acc`.
pub open spec fn params_spec(ts: Seq<SpecToken>, i: int, acc: Seq<Field>) -> Step<Seq<Field>>
    decreases ts.len() - i,
{
    if !checks(ts, i, Lexeme::RightParen) && !at_end(ts, i) {
        match type_spec(ts, i) {
            (Err(e), j) => (Err(e), j),
            (Ok(ty), j) => match ident_spec(ts, j) {
                (Err(e), k) => (Err(e), k),
                (Ok((n, _l, _c)), k) => {
                    let acc2 = acc.push(Field { name: n, typ: ty });
                    if checks(ts, k, Lexeme::Comma) {
                        params_spec(ts, k + 1, acc2)
                    } else {
                        (Ok(acc2), k)
                    }
                },
            },
        }
    } else {
        (Ok(acc), i)
    }
}

/// A function declaration `type name(params) block`.
pub open spec fn function_spec(ts: Seq<SpecToken>, i: int) -> Step<Node> {
    match type_spec(ts, i) {
        (Err(e), j) => (Err(e), j),
        (Ok(rt), j) => match tok_at(ts, j) {
            None => (Err(PErr::UnexpectedEoF), j + 1),
            Some(nt) => match nt.kind {
                Lexeme::Identifier(name) => match expect_spec(ts, j + 1, Lexeme::LeftParen) {
                    (Err(e), k) => (Err(e), k),
                    (Ok(_), k) => match params_spec(ts, k, Seq::empty()) {
                        (Err(e), m) => (Err(e), m),
                        (Ok(ps), m) => match expect_spec(ts, m, Lexeme::RightParen) {
                            (Err(e), n) => (Err(e), n),
                            (Ok(_), n) => match block_spec(ts, n) {
                                (Err(e), q) => (Err(e), q),
                                (Ok(b), q) => (Ok(Node::Function {
                                    name,
                                    return_type: rt,
                                    params: ps,
                                    body: Box::new(b),
                                    line: nt.line,
                                    column: nt.column,
                                }), q),
                            },
                        },
                    },
                },
                _ => (Err(unexpected("Function name (Identifier)"@, nt)), j + 1),
            },
        },
    }
}

/// Struct fields `type name;` up to `}` or the end, appended to `acc`.
pub open spec fn fields_spec(ts: Seq<SpecToken>, i: int, acc: Seq<Field>) -> Step<Seq<Field>>
    decreases ts.len() - i,
{
    if !checks(ts, i, Lexeme::RightBrace) && !at_end(ts, i) {
        match type_spec(ts, i) {
            (Err(e), j) => (Err(e), j),
            (Ok(ty), j) => match tok_at(ts, j) {
                None => (Err(PErr::UnexpectedEoF), j + 1),
                Some(nt) => match nt.kind {
                    Lexeme::Identifier(n) => match expect_spec(ts, j + 1, Lexeme::Semicolon) {
                        (Err(e), k) => (Err(e), k),
                        (Ok(_), k) => fields_spec(ts, k, acc.push(Field { name: n, typ: ty })),
                    },
                    _ => (Err(unexpected("Field name (Identifier)"@, nt)), j + 1),
                },
            },
        }
    } else {
        (Ok(acc), i)
    }
}

/// A struct declaration `struct Name { fields };`.
pub open spec fn struct_spec(ts: Seq<SpecToken>, i: int) -> Step<Node> {
    match expect_spec(ts, i, Lexeme::StructKeyword) {
        (Err(e), j) => (Err(e), j),
        (Ok(_), j) => match tok_at(ts, j) {
            None => (Err(PErr::UnexpectedEoF), j + 1),
            Some(nt) => match nt.kind {
                Lexeme::Identifier(name) => match expect_spec(ts, j + 1, Lexeme::LeftBrace) {
                    (Err(e), k) => (Err(e), k),
                    (Ok(_), k) => match fields_spec(ts, k, Seq::empty()) {
                        (Err(e), m) => (Err(e), m),
                        (Ok(fs), m) => match expect_spec(ts, m, Lexeme::RightBrace) {
                            (Err(e), n) => (Err(e), n),
                            (Ok(_), n) => match expect_spec(ts, n, Lexeme::Semicolon) {
                                (Err(e), q) => (Err(e), q),
                                (Ok(_), q) => (Ok(Node::StructDecl {
                                    name,
                                    fields: fs,
                                    line: nt.line,
                                    column: nt.column,
                                }), q),
                            },
                        },
                    },
                },
                _ => (Err(unexpected("Struct name (Identifier)"@, nt)), j + 1),
            },
        },
    }
}

/// Whether a token can start a function declaration's return type.
pub open spec fn starts_type(k: Lexeme) -> bool {
    ||| k == Lexeme::IntKeyword
    ||| k == Lexeme::BoolKeyword
    ||| k == Lexeme::FloatKeyword
    ||| k == Lexeme::StringKeyword
    ||| k is Identifier
}

/// Top-level declarations up to the end, appended to `acc`.
pub open spec fn declarations_spec(ts: Seq<SpecToken>, i: int, acc: Seq<Node>) -> Step<Seq<Node>>
    decreases ts.len() - i,
{
    match tok_at(ts, i) {
        None => (Ok(acc), i),
        Some(t) => if t.kind == Lexeme::StructKeyword {
            match struct_spec(ts, i) {
                (Err(e), j) => (Err(e), j),
                (Ok(n), j) => if !moved(ts, i, j) {
                    (Err(PErr::UnexpectedEoF), j)
                } else {
                    declarations_spec(ts, j, acc.push(n))
                },
            }
        } else if starts_type(t.kind) {
            if checks(ts, i + 2, Lexeme::LeftParen) {
                match function_spec(ts, i) {
                    (Err(e), j) => (Err(e), j),
                    (Ok(n), j) => if !moved(ts, i, j) {
                        (Err(PErr::UnexpectedEoF), j)
                    } else {
                        declarations_spec(ts, j, acc.push(n))
                    },
                }
            } else {
                (Err(PErr::NotImplemented("Global variable parsing not implemented"@)), i)
            }
        } else if t.kind == Lexeme::EoF {
            (Ok(acc), i)
        } else {
            (Err(PErr::UnexpectedToken {
                expected: "type keyword (int, bool, float, string) or struct"@,
                found: kind_name(t.kind),
                line: t.line,
                column: t.column,
            }), i)
        },
    }
}

/// A whole program: its top-level declarations.
pub open spec fn program_spec(ts: Seq<SpecToken>, i: int) -> Step<Node> {
    match declarations_spec(ts, i, Seq::empty()) {
        (Ok(ns), j) => (Ok(Node::Program(ns)), j),
        (Err(e), j) => (Err(e), j),
    }
}

proof fn lemma_declarations_end(ts: Seq<SpecToken>, i: int, acc: Seq<Node>)
    ensures
        declarations_spec(ts, i, acc).0 is Ok ==> at_end(ts, declarations_spec(ts, i, acc).1),
    decreases ts.len() - i,
{
    if let Some(t) = tok_at(ts, i) {
        if t.kind == Lexeme::StructKeyword {
            if let (Ok(n), j) = struct_spec(ts, i) {
                if moved(ts, i, j) {
                    lemma_declarations_end(ts, j, acc.push(n));
                }
            }
        } else if starts_type(t.kind) && checks(ts, i + 2, Lexeme::LeftParen) {
            if let (Ok(n), j) = function_spec(ts, i) {
                if moved(ts, i, j) {
                    lemma_declarations_end(ts, j, acc.push(n));
                }
            }
        }
    }
}

/// Law: a program is parsed successfully only when parsing has read every token
/// up to the end of the input or up to an `EoF` token, so that no token before
/// the end is left unread.
pub proof fn law_program_reads_to_end(ts: Seq<SpecToken>)
    ensures
        program_spec(ts, 0).0 is Ok ==> at_end(ts, program_spec(ts, 0).1),
{
    lemma_declarations_end(ts, 0, Seq::empty());
}

// ---------------------------------------------------------------------------
// Operators

/// What follows a comparison operator token `t` at `i` standing for `op`: the next
/// additive operand, combined with `left` into one comparison, then further ones.
pub open spec fn after_comparison(ts: Seq<SpecToken>, i: int, left: Node, op: BinaryOperator, t: SpecToken) -> Step<Node> {
    match additive_spec(ts, i + 1) {
        (Err(e), j) => (Err(e), j),
        (Ok(right), j) => if !moved(ts, i, j) {
            (Err(PErr::UnexpectedEoF), j)
        } else {
            comparison_rest(ts, j, Node::Binary { left: Box::new(left), right: Box::new(right), op, line: t.line, column: t.column })
        },
    }
}

/// What follows an additive operator token `t` at `i` standing for `op`.
pub open spec fn after_additive(ts: Seq<SpecToken>, i: int, left: Node, op: BinaryOperator, t: SpecToken) -> Step<Node> {
    match term_spec(ts, i + 1) {
        (Err(e), j) => (Err(e), j),
        (Ok(right), j) => if !moved(ts, i, j) {
            (Err(PErr::UnexpectedEoF), j)
        } else {
            additive_rest(ts, j, Node::Binary { left: Box::new(left), right: Box::new(right), op, line: t.line, column: t.column })
        },
    }
}

/// What follows a multiplicative operator token `t` at `i` standing for `op`.
pub open spec fn after_term(ts: Seq<SpecToken>, i: int, left: Node, op: BinaryOperator, t: SpecToken) -> Step<Node> {
    match factor_spec(ts, i + 1) {
        (Err(e), j) => (Err(e), j),
        (Ok(right), j) => if !moved(ts, i, j) {
            (Err(PErr::UnexpectedEoF), j)
        } else {
            term_rest(ts, j, Node::Binary { left: Box::new(left), right: Box::new(right), op, line: t.line, column: t.column })
        },
    }
}

/// Law (operator tokens): each operator token makes a binary expression with its
/// own operator: `==` equal, `<` less than, `<=` less or equal, `>` greater than,
/// `>=` greater or equal (at the comparison level), `+` add and `-` subtract (at
/// the additive level), `*` multiply and `/` divide (at the multiplicative level),
/// each taking the expression so far as its left operand and the next operand of
/// the level below as its right one. Any other token ends the level, leaving the
/// expression as it is.
pub proof fn law_operator_tokens(ts: Seq<SpecToken>, i: int, left: Node)
    ensures
        tok_at(ts, i) matches Some(t) ==> {
            &&& t.kind == Lexeme::DoubleEqual ==> comparison_rest(ts, i, left) == after_comparison(ts, i, left, BinaryOperator::DoubleEqual, t)
            &&& t.kind == Lexeme::LessThan ==> comparison_rest(ts, i, left) == after_comparison(ts, i, left, BinaryOperator::LessThan, t)
            &&& t.kind == Lexeme::LessOrEqual ==> comparison_rest(ts, i, left) == after_comparison(ts, i, left, BinaryOperator::LessOrEqual, t)
            &&& t.kind == Lexeme::GreaterThan ==> comparison_rest(ts, i, left) == after_comparison(ts, i, left, BinaryOperator::GreaterThan, t)
            &&& t.kind == Lexeme::GreaterOrEqual ==> comparison_rest(ts, i, left) == after_comparison(ts, i, left, BinaryOperator::GreaterOrEqual, t)
            &&& !(t.kind == Lexeme::DoubleEqual || t.kind == Lexeme::LessThan || t.kind == Lexeme::LessOrEqual
                || t.kind == Lexeme::GreaterThan || t.kind == Lexeme::GreaterOrEqual) ==> comparison_rest(ts, i, left) == (Ok::<Node, PErr>(left), i)
            &&& t.kind == Lexeme::Plus ==> additive_rest(ts, i, left) == after_additive(ts, i, left, BinaryOperator::Add, t)
            &&& t.kind == Lexeme::Minus ==> additive_rest(ts, i, left) == after_additive(ts, i, left, BinaryOperator::Sub, t)
            &&& !(t.kind == Lexeme::Plus || t.kind == Lexeme::Minus) ==> additive_rest(ts, i, left) == (Ok::<Node, PErr>(left), i)
            &&& t.kind == Lexeme::Star ==> term_rest(ts, i, left) == after_term(ts, i, left, BinaryOperator::Mul, t)
            &&& t.kind == Lexeme::Slash ==> term_rest(ts, i, left) == after_term(ts, i, left, BinaryOperator::Div, t)
            &&& !(t.kind == Lexeme::Star || t.kind == Lexeme::Slash) ==> term_rest(ts, i, left) == (Ok::<Node, PErr>(left), i)
        },
        tok_at(ts, i) is None ==> {
            &&& comparison_rest(ts, i, left) == (Ok::<Node, PErr>(left), i)
            &&& additive_rest(ts, i, left) == (Ok::<Node, PErr>(left), i)
            &&& term_rest(ts, i, left) == (Ok::<Node, PErr>(left), i)
        },
{
}

/// Law (primary expressions): an integer token whose text reads as the `i16` value
/// `v` gives the literal `v`, and one whose text does not gives an invalid-literal
/// failure at its position; a boolean token gives that boolean; a string token gives
/// that string; an identifier not followed by `(` gives the variable of that name;
/// each consumes exactly the one token.
pub proof fn law_primary_tokens(ts: Seq<SpecToken>, i: int, raw: Seq<char>, v: i16, b: bool, name: Seq<char>)
    requires
        0 <= i < ts.len(),
    ensures
        ts[i].kind == Lexeme::IntNumber(raw) && parse_i16_spec(raw) == Some(v) ==> primary_spec(ts, i) == (Ok::<Node, PErr>(Node::IntLit(v)), i + 1),
        ts[i].kind == Lexeme::IntNumber(raw) && parse_i16_spec(raw) is None ==> primary_spec(ts, i) == (Err::<Node, PErr>(
            PErr::InvalidIntLiteral { raw, line: ts[i].line, column: ts[i].column },
        ), i + 1),
        ts[i].kind == Lexeme::Bool(b) ==> primary_spec(ts, i) == (Ok::<Node, PErr>(Node::BoolLit(b)), i + 1),
        ts[i].kind == Lexeme::Str(raw) ==> primary_spec(ts, i) == (Ok::<Node, PErr>(Node::StringLit(raw)), i + 1),
        ts[i].kind == Lexeme::Identifier(name) && !(i + 1 < ts.len() && ts[i + 1].kind == Lexeme::LeftParen) ==> primary_spec(ts, i)
            == (Ok::<Node, PErr>(Node::Variable(name)), i + 1),
{
}

// ---------------------------------------------------------------------------
// Where failures are reported

/// Whether some token of `ts` stands at `(line, column)`.
pub open spec fn token_at_position(ts: Seq<SpecToken>, line: int, column: int) -> bool {
    exists|k: int| 0 <= k < ts.len() && #[trigger] ts[k].line == line && ts[k].column == column
}

/// Whether the position a failure reports, if it reports one, is that of a token of `ts`.
pub open spec fn reported_at_token(ts: Seq<SpecToken>, e: PErr) -> bool {
    match e {
        PErr::UnexpectedToken { line, column, .. } => token_at_position(ts, line, column),
        PErr::InvalidIntLiteral { line, column, .. } => token_at_position(ts, line, column),
        PErr::InvalidFloatLiteral { line, column, .. } => token_at_position(ts, line, column),
        _ => true,
    }
}

/// Whether an outcome is a success, or a failure whose position is that of a token of `ts`.
pub open spec fn ok_or_at_token<T>(ts: Seq<SpecToken>, r: Result<T, PErr>) -> bool {
    match r {
        Ok(_) => true,
        Err(e) => reported_at_token(ts, e),
    }
}

proof fn lemma_tok(ts: Seq<SpecToken>, i: int)
    ensures
        tok_at(ts, i) matches Some(t) ==> token_at_position(ts, t.line, t.column),
{
    if 0 <= i < ts.len() {
        // the token at `i` is the witness
        assert(ts[i].line == ts[i].line);
    }
}

proof fn lemma_expect(ts: Seq<SpecToken>, i: int, k: Lexeme)
    ensures
        ok_or_at_token(ts, expect_spec(ts, i, k).0),
{
    lemma_tok(ts, i);
}

proof fn lemma_ident(ts: Seq<SpecToken>, i: int)
    ensures
        ok_or_at_token(ts, ident_spec(ts, i).0),
{
    lemma_tok(ts, i);
}

proof fn lemma_type(ts: Seq<SpecToken>, i: int)
    ensures
        ok_or_at_token(ts, type_spec(ts, i).0),
{
    lemma_tok(ts, i);
    lemma_expect(ts, i + 2, Lexeme::RightBracket);
}

proof fn lemma_primary(ts: Seq<SpecToken>, i: int)
    ensures
        ok_or_at_token(ts, primary_spec(ts, i).0),
    decreases ts.len() - i, 1int,
{
    lemma_tok(ts, i);
    if let Some(t) = tok_at(ts, i) {
        match t.kind {
            Lexeme::LeftParen => {
                lemma_expression(ts, i + 1);
                if let (Ok(_), j) = expression_spec(ts, i + 1) {
                    lemma_expect(ts, j, Lexeme::RightParen);
                }
            },
            Lexeme::Identifier(name) => {
                if checks(ts, i + 1, Lexeme::LeftParen) {
                    lemma_call(ts, i + 1, name, t.line, t.column);
                }
            },
            _ => {},
        }
    }
}

proof fn lemma_call(ts: Seq<SpecToken>, i: int, name: Seq<char>, line: int, column: int)
    ensures
        ok_or_at_token(ts, call_spec(ts, i, name, line, column).0),
    decreases ts.len() - i, 0int,
{
    lemma_expect(ts, i, Lexeme::LeftParen);
    if let (Ok(_), j) = expect_spec(ts, i, Lexeme::LeftParen) {
        if !checks(ts, j, Lexeme::RightParen) {
            lemma_args(ts, j, Seq::empty());
        }
        let args = if checks(ts, j, Lexeme::RightParen) {
            (Ok(Seq::<Node>::empty()), j)
        } else {
            args_spec(ts, j, Seq::empty())
        };
        if let (Ok(_), k) = args {
            lemma_expect(ts, k, Lexeme::RightParen);
        }
    }
}

proof fn lemma_args(ts: Seq<SpecToken>, i: int, acc: Seq<Node>)
    ensures
        ok_or_at_token(ts, args_spec(ts, i, acc).0),
    decreases ts.len() - i, 7int,
{
    lemma_expression(ts, i);
    if let (Ok(e), j) = expression_spec(ts, i) {
        if moved(ts, i, j) && checks(ts, j, Lexeme::Comma) {
            lemma_args(ts, j + 1, acc.push(e));
        }
    }
}

proof fn lemma_postfix(ts: Seq<SpecToken>, i: int, node: Node)
    ensures
        ok_or_at_token(ts, postfix_spec(ts, i, node).0),
    decreases ts.len() - i, 0int,
{
    if let Some(t) = tok_at(ts, i) {
        match t.kind {
            Lexeme::Dot => {
                lemma_ident(ts, i + 1);
                if let (Ok((m, _l, _c)), j) = ident_spec(ts, i + 1) {
                    lemma_postfix(
                        ts,
                        j,
                        Node::Member { object: Box::new(node), member: m, line: t.line, column: t.column },
                    );
                }
            },
            Lexeme::LeftBracket => {
                lemma_expression(ts, i + 1);
                if let (Ok(idx), j) = expression_spec(ts, i + 1) {
                    if moved(ts, i, j) {
                        lemma_expect(ts, j, Lexeme::RightBracket);
                        if let (Ok(_), k) = expect_spec(ts, j, Lexeme::RightBracket) {
                            lemma_postfix(
                                ts,
                                k,
                                Node::Index { array: Box::new(node), index: Box::new(idx), line: t.line, column: t.column },
                            );
                        }
                    }
                }
            },
            _ => {},
        }
    }
}

proof fn lemma_factor(ts: Seq<SpecToken>, i: int)
    ensures
        ok_or_at_token(ts, factor_spec(ts, i).0),
    decreases ts.len() - i, 2int,
{
    lemma_primary(ts, i);
    if let (Ok(n), j) = primary_spec(ts, i) {
        if moved(ts, i, j) {
            lemma_postfix(ts, j, n);
        }
    }
}

proof fn lemma_term_rest(ts: Seq<SpecToken>, i: int, left: Node)
    ensures
        ok_or_at_token(ts, term_rest(ts, i, left).0),
    decreases ts.len() - i, 0int,
{
    if let Some(t) = tok_at(ts, i) {
        if let Some(op) = mul_op(t.kind) {
            lemma_factor(ts, i + 1);
            if let (Ok(right), j) = factor_spec(ts, i + 1) {
                if moved(ts, i, j) {
                    lemma_term_rest(
                        ts,
                        j,
                        Node::Binary { left: Box::new(left), right: Box::new(right), op, line: t.line, column: t.column },
                    );
                }
            }
        }
    }
}

proof fn lemma_term(ts: Seq<SpecToken>, i: int)
    ensures
        ok_or_at_token(ts, term_spec(ts, i).0),
    decreases ts.len() - i, 3int,
{
    lemma_factor(ts, i);
    if let (Ok(l), j) = factor_spec(ts, i) {
        if moved(ts, i, j) {
            lemma_term_rest(ts, j, l);
        }
    }
}

proof fn lemma_additive_rest(ts: Seq<SpecToken>, i: int, left: Node)
    ensures
        ok_or_at_token(ts, additive_rest(ts, i, left).0),
    decreases ts.len() - i, 0int,
{
    if let Some(t) = tok_at(ts, i) {
        if let Some(op) = add_op(t.kind) {
            lemma_term(ts, i + 1);
            if let (Ok(right), j) = term_spec(ts, i + 1) {
                if moved(ts, i, j) {
                    lemma_additive_rest(
                        ts,
                        j,
                        Node::Binary { left: Box::new(left), right: Box::new(right), op, line: t.line, column: t.column },
                    );
                }
            }
        }
    }
}

proof fn lemma_additive(ts: Seq<SpecToken>, i: int)
    ensures
        ok_or_at_token(ts, additive_spec(ts, i).0),
    decreases ts.len() - i, 4int,
{
    lemma_term(ts, i);
    if let (Ok(l), j) = term_spec(ts, i) {
        if moved(ts, i, j) {
            lemma_additive_rest(ts, j, l);
        }
    }
}

proof fn lemma_comparison_rest(ts: Seq<SpecToken>, i: int, left: Node)
    ensures
        ok_or_at_token(ts, comparison_rest(ts, i, left).0),
    decreases ts.len() - i, 0int,
{
    if let Some(t) = tok_at(ts, i) {
        if let Some(op) = cmp_op(t.kind) {
            lemma_additive(ts, i + 1);
            if let (Ok(right), j) = additive_spec(ts, i + 1) {
                if moved(ts, i, j) {
                    lemma_comparison_rest(
                        ts,
                        j,
                        Node::Binary { left: Box::new(left), right: Box::new(right), op, line: t.line, column: t.column },
                    );
                }
            }
        }
    }
}

proof fn lemma_comparison(ts: Seq<SpecToken>, i: int)
    ensures
        ok_or_at_token(ts, comparison_spec(ts, i).0),
    decreases ts.len() - i, 5int,
{
    lemma_additive(ts, i);
    if let (Ok(l), j) = additive_spec(ts, i) {
        if moved(ts, i, j) {
            lemma_comparison_rest(ts, j, l);
        }
    }
}

proof fn lemma_expression(ts: Seq<SpecToken>, i: int)
    ensures
        ok_or_at_token(ts, expression_spec(ts, i).0),
    decreases ts.len() - i, 6int,
{
    lemma_comparison(ts, i);
}

proof fn lemma_block(ts: Seq<SpecToken>, i: int)
    ensures
        ok_or_at_token(ts, block_spec(ts, i).0),
    decreases ts.len() - i, 8int,
{
    lemma_expect(ts, i, Lexeme::LeftBrace);
    if let (Ok(_), j) = expect_spec(ts, i, Lexeme::LeftBrace) {
        lemma_statements(ts, j, Seq::empty());
        if let (Ok(_), k) = statements_spec(ts, j, Seq::empty()) {
            lemma_expect(ts, k, Lexeme::RightBrace);
        }
    }
}

proof fn lemma_statements(ts: Seq<SpecToken>, i: int, acc: Seq<Node>)
    ensures
        ok_or_at_token(ts, statements_spec(ts, i, acc).0),
    decreases ts.len() - i, 10int,
{
    if !checks(ts, i, Lexeme::RightBrace) && !at_end(ts, i) {
        lemma_statement(ts, i);
        if let (Ok(st), j) = statement_spec(ts, i) {
            if moved(ts, i, j) {
                lemma_statements(ts, j, acc.push(st));
            }
        }
    }
}

proof fn lemma_statement(ts: Seq<SpecToken>, i: int)
    ensures
        ok_or_at_token(ts, statement_spec(ts, i).0),
    decreases ts.len() - i, 9int,
{
    lemma_tok(ts, i);
    if let Some(t) = tok_at(ts, i) {
        match t.kind {
            Lexeme::Return => lemma_return(ts, i),
            Lexeme::If => lemma_if(ts, i),
            Lexeme::While => lemma_while(ts, i),
            Lexeme::PrintKeyword => lemma_print(ts, i),
            Lexeme::IntKeyword | Lexeme::BoolKeyword | Lexeme::FloatKeyword | Lexeme::StringKeyword => lemma_var_decl(ts, i),
            Lexeme::LeftBrace => lemma_block(ts, i),
            Lexeme::Identifier(_) => {
                if ident_at(ts, i + 1) {
                    lemma_var_decl(ts, i);
                } else {
                    lemma_expr_or_assign(ts, i);
                }
            },
            _ => {},
        }
    }
}

proof fn lemma_return(ts: Seq<SpecToken>, i: int)
    ensures
        ok_or_at_token(ts, return_spec(ts, i).0),
    decreases ts.len() - i, 7int,
{
    lemma_expect(ts, i, Lexeme::Return);
    if let (Ok(_), j) = expect_spec(ts, i, Lexeme::Return) {
        if !checks(ts, j, Lexeme::Semicolon) {
            lemma_expression(ts, j);
        }
        let value = if checks(ts, j, Lexeme::Semicolon) {
            (Ok(None), j)
        } else {
            match expression_spec(ts, j) {
                (Ok(e), k) => (Ok(Some(Box::new(e))), k),
                (Err(e), k) => (Err(e), k),
            }
        };
        if let (Ok(_), k) = value {
            lemma_expect(ts, k, Lexeme::Semicolon);
        }
    }
}

proof fn lemma_if(ts: Seq<SpecToken>, i: int)
    ensures
        ok_or_at_token(ts, if_spec(ts, i).0),
    decreases ts.len() - i, 7int,
{
    lemma_expect(ts, i, Lexeme::If);
    if let (Ok(_), j1) = expect_spec(ts, i, Lexeme::If) {
        lemma_expect(ts, j1, Lexeme::LeftParen);
        if let (Ok(_), j2) = expect_spec(ts, j1, Lexeme::LeftParen) {
            lemma_expression(ts, j2);
            if let (Ok(_), j3) = expression_spec(ts, j2) {
                if moved(ts, i, j3) {
                    lemma_expect(ts, j3, Lexeme::RightParen);
                    if let (Ok(_), j4) = expect_spec(ts, j3, Lexeme::RightParen) {
                        lemma_block(ts, j4);
                        if let (Ok(_), j5) = block_spec(ts, j4) {
                            if moved(ts, i, j5) && checks(ts, j5, Lexeme::Else) {
                                if checks(ts, j5 + 1, Lexeme::If) {
                                    lemma_if(ts, j5 + 1);
                                } else {
                                    lemma_block(ts, j5 + 1);
                                }
                            }
                        }
                    }
                }
            }
        }
    }
}

proof fn lemma_while(ts: Seq<SpecToken>, i: int)
    ensures
        ok_or_at_token(ts, while_spec(ts, i).0),
    decreases ts.len() - i, 7int,
{
    lemma_expect(ts, i, Lexeme::While);
    if let (Ok(_), j1) = expect_spec(ts, i, Lexeme::While) {
        lemma_expect(ts, j1, Lexeme::LeftParen);
        if let (Ok(_), j2) = expect_spec(ts, j1, Lexeme::LeftParen) {
            lemma_expression(ts, j2);
            if let (Ok(_), j3) = expression_spec(ts, j2) {
                if moved(ts, i, j3) {
                    lemma_expect(ts, j3, Lexeme::RightParen);
                    if let (Ok(_), j4) = expect_spec(ts, j3, Lexeme::RightParen) {
                        lemma_block(ts, j4);
                    }
                }
            }
        }
    }
}

proof fn lemma_print(ts: Seq<SpecToken>, i: int)
    ensures
        ok_or_at_token(ts, print_spec(ts, i).0),
    decreases ts.len() - i, 7int,
{
    lemma_expect(ts, i, Lexeme::PrintKeyword);
    if let (Ok(_), j1) = expect_spec(ts, i, Lexeme::PrintKeyword) {
        lemma_expect(ts, j1, Lexeme::LeftParen);
        if let (Ok(_), j2) = expect_spec(ts, j1, Lexeme::LeftParen) {
            lemma_expression(ts, j2);
            if let (Ok(_), j3) = expression_spec(ts, j2) {
                lemma_expect(ts, j3, Lexeme::RightParen);
                if let (Ok(_), j4) = expect_spec(ts, j3, Lexeme::RightParen) {
                    lemma_expect(ts, j4, Lexeme::Semicolon);
                }
            }
        }
    }
}

proof fn lemma_var_decl(ts: Seq<SpecToken>, i: int)
    ensures
        ok_or_at_token(ts, var_decl_spec(ts, i).0),
    decreases ts.len() - i, 7int,
{
    lemma_type(ts, i);
    if let (Ok(_), j) = type_spec(ts, i) {
        lemma_ident(ts, j);
        if let (Ok(_), k) = ident_spec(ts, j) {
            if checks(ts, k, Lexeme::Equal) {
                lemma_expression(ts, k + 1);
            }
            let init = if checks(ts, k, Lexeme::Equal) {
                match expression_spec(ts, k + 1) {
                    (Ok(e), m) => (Ok(Some(Box::new(e))), m),
                    (Err(e), m) => (Err(e), m),
                }
            } else {
                (Ok(None), k)
            };
            if let (Ok(_), m) = init {
                lemma_expect(ts, m, Lexeme::Semicolon);
            }
        }
    }
}

proof fn lemma_expr_or_assign(ts: Seq<SpecToken>, i: int)
    ensures
        ok_or_at_token(ts, expr_or_assign_spec(ts, i).0),
    decreases ts.len() - i, 7int,
{
    lemma_expression(ts, i);
    if let (Ok(_), j) = expression_spec(ts, i) {
        if moved(ts, i, j) {
            if checks(ts, j, Lexeme::Equal) {
                lemma_expect(ts, j, Lexeme::Equal);
                if let (Ok(_), k) = expect_spec(ts, j, Lexeme::Equal) {
                    lemma_expression(ts, k);
                    if let (Ok(_), m) = expression_spec(ts, k) {
                        lemma_expect(ts, m, Lexeme::Semicolon);
                    }
                }
            } else {
                lemma_expect(ts, j, Lexeme::Semicolon);
            }
        }
    }
}

proof fn lemma_params(ts: Seq<SpecToken>, i: int, acc: Seq<Field>)
    ensures
        ok_or_at_token(ts, params_spec(ts, i, acc).0),
    decreases ts.len() - i,
{
    if !checks(ts, i, Lexeme::RightParen) && !at_end(ts, i) {
        lemma_type(ts, i);
        if let (Ok(ty), j) = type_spec(ts, i) {
            lemma_ident(ts, j);
            if let (Ok((n, _l, _c)), k) = ident_spec(ts, j) {
                if checks(ts, k, Lexeme::Comma) {
                    lemma_params(ts, k + 1, acc.push(Field { name: n, typ: ty }));
                }
            }
        }
    }
}

proof fn lemma_function(ts: Seq<SpecToken>, i: int)
    ensures
        ok_or_at_token(ts, function_spec(ts, i).0),
{
    lemma_type(ts, i);
    if let (Ok(_), j) = type_spec(ts, i) {
        lemma_tok(ts, j);
        lemma_expect(ts, j + 1, Lexeme::LeftParen);
        if let (Ok(_), k) = expect_spec(ts, j + 1, Lexeme::LeftParen) {
            lemma_params(ts, k, Seq::empty());
            if let (Ok(_), m) = params_spec(ts, k, Seq::empty()) {
                lemma_expect(ts, m, Lexeme::RightParen);
                if let (Ok(_), n) = expect_spec(ts, m, Lexeme::RightParen) {
                    lemma_block(ts, n);
                }
            }
        }
    }
}

proof fn lemma_fields(ts: Seq<SpecToken>, i: int, acc: Seq<Field>)
    ensures
        ok_or_at_token(ts, fields_spec(ts, i, acc).0),
    decreases ts.len() - i,
{
    if !checks(ts, i, Lexeme::RightBrace) && !at_end(ts, i) {
        lemma_type(ts, i);
        if let (Ok(ty), j) = type_spec(ts, i) {
            lemma_tok(ts, j);
            if let Some(nt) = tok_at(ts, j) {
                if let Lexeme::Identifier(n) = nt.kind {
                    lemma_expect(ts, j + 1, Lexeme::Semicolon);
                    if let (Ok(_), k) = expect_spec(ts, j + 1, Lexeme::Semicolon) {
                        lemma_fields(ts, k, acc.push(Field { name: n, typ: ty }));
                    }
                }
            }
        }
    }
}

proof fn lemma_struct(ts: Seq<SpecToken>, i: int)
    ensures
        ok_or_at_token(ts, struct_spec(ts, i).0),
{
    lemma_expect(ts, i, Lexeme::StructKeyword);
    if let (Ok(_), j) = expect_spec(ts, i, Lexeme::StructKeyword) {
        lemma_tok(ts, j);
        lemma_expect(ts, j + 1, Lexeme::LeftBrace);
        if let (Ok(_), k) = expect_spec(ts, j + 1, Lexeme::LeftBrace) {
            lemma_fields(ts, k, Seq::empty());
            if let (Ok(_), m) = fields_spec(ts, k, Seq::empty()) {
                lemma_expect(ts, m, Lexeme::RightBrace);
                if let (Ok(_), n) = expect_spec(ts, m, Lexeme::RightBrace) {
                    lemma_expect(ts, n, Lexeme::Semicolon);
                }
            }
        }
    }
}

proof fn lemma_declarations(ts: Seq<SpecToken>, i: int, acc: Seq<Node>)
    ensures
        ok_or_at_token(ts, declarations_spec(ts, i, acc).0),
    decreases ts.len() - i,
{
    lemma_tok(ts, i);
    if let Some(t) = tok_at(ts, i) {
        if t.kind == Lexeme::StructKeyword {
            lemma_struct(ts, i);
            if let (Ok(n), j) = struct_spec(ts, i) {
                if moved(ts, i, j) {
                    lemma_declarations(ts, j, acc.push(n));
                }
            }
        } else if starts_type(t.kind) && checks(ts, i + 2, Lexeme::LeftParen) {
            lemma_function(ts, i);
            if let (Ok(n), j) = function_spec(ts, i) {
                if moved(ts, i, j) {
                    lemma_declarations(ts, j, acc.push(n));
                }
            }
        }
    }
}

/// Law: every position that a parsing failure reports (an unexpected token, an
/// integer or float literal that cannot be read) is the position of one of the
/// tokens being parsed.
pub proof fn law_failure_at_token(ts: Seq<SpecToken>)
    ensures
        ok_or_at_token(ts, program_spec(ts, 0).0),
{
    lemma_declarations(ts, 0, Seq::empty());
}

// ---------------------------------------------------------------------------
// The parser state

/// A parser over a slice of tokens, with the position of the next token.
pub struct Parser<'a> {
    tokens: &'a [Token<'a>],
    cursor: usize,
}

impl<'a> Parser<'a> {
    /// The abstract tokens being parsed.
    pub closed spec fn token_seq(&self) -> Seq<SpecToken> {
        tokens_view(self.tokens@)
    }

    /// The position of the next token.
    pub closed spec fn position(&self) -> int {
        self.cursor as int
    }

    /// Whether two parsers work on the same tokens.
    pub closed spec fn same_tokens(&self, other: &Self) -> bool {
        self.tokens == other.tokens
    }

    /// The number of tokens from the position to the end (negative past the end).
    pub closed spec fn remaining(&self) -> int {
        self.tokens@.len() - self.cursor
    }

    /// The state invariant: positions fit in `usize`, and the position is at
    /// most one past the end (a failed read at the end moves it there).
    pub closed spec fn wf(&self) -> bool {
        &&& self.tokens@.len() < usize::MAX
        &&& self.cursor <= self.tokens@.len() + 1
    }

    /// A parser at the first of the given tokens.
    pub fn new(tokens: &'a [Token<'a>]) -> (p: Self)
        requires
            tokens@.len() < usize::MAX,
        ensures
            p.wf(),
            p.token_seq() == tokens_view(tokens@),
            p.position() == 0,
    {
        Parser { tokens, cursor: 0 }
    }

    proof fn lemma_token_at(&self, i: int)
        requires
            0 <= i < self.tokens@.len(),
        ensures
            self.token_seq()[i] == self.tokens@[i]@,
            self.token_seq().len() == self.tokens@.len(),
    {
    }

    /// Whether the parser is at the end: past the tokens or at an end-of-file token.
    fn is_at_end(&self) -> (r: bool)
        ensures
            r == at_end(self.token_seq(), self.position()),
    {
        if self.cursor < self.tokens.len() {
            proof { self.lemma_token_at(self.cursor as int); }
            matches!(self.tokens[self.cursor].kind, TokenKind::EoF)
        } else {
            true
        }
    }

    /// The next token, if any.
    fn peek(&self) -> (r: Option<&'a Token<'a>>)
        ensures
            match r {
                Some(t) => tok_at(self.token_seq(), self.position()) == Some(t@),
                None => tok_at(self.token_seq(), self.position()) is None,
            },
    {
        if self.cursor < self.tokens.len() {
            proof { self.lemma_token_at(self.cursor as int); }
            Some(&self.tokens[self.cursor])
        } else {
            None
        }
    }

    /// The next token, if any; the position moves on by one either way.
    fn advance(&mut self) -> (r: Option<&'a Token<'a>>)
        requires
            old(self).cursor < usize::MAX,
        ensures
            final(self).tokens == old(self).tokens,
            final(self).cursor == old(self).cursor + 1,
            match r {
                Some(t) => tok_at(old(self).token_seq(), old(self).position()) == Some(t@),
                None => tok_at(old(self).token_seq(), old(self).position()) is None,
            },
    {
        let t = self.peek();
        self.cursor = self.cursor + 1;
        t
    }

    /// Consumes the next token if it has kind `expected`.
    fn expect(&mut self, expected: TokenKind<'a>) -> (r: Result<&'a Token<'a>, ParserError>)
        requires
            old(self).wf(),
        ensures
            final(self).tokens == old(self).tokens,
            expect_spec(old(self).token_seq(), old(self).position(), expected@)
                == (token_res(r), final(self).position()),
            r is Ok ==> old(self).cursor < old(self).tokens@.len() && final(self).cursor == old(self).cursor + 1,
            r is Err ==> final(self).cursor == old(self).cursor,
    {
        match self.peek() {
            Some(token) => {
                if same_kind(&token.kind, &expected) {
                    match self.advance() {
                        Some(t) => Ok(t),
                        None => Err(ParserError::UnexpectedEoF),
                    }
                } else {
                    Err(ParserError::UnexpectedToken {
                        expected: kind_debug(&expected),
                        found: kind_debug(&token.kind),
                        line: token.line,
                        column: token.column,
                    })
                }
            },
            None => Err(ParserError::UnexpectedEoF),
        }
    }

    /// Whether the next token has kind `expected`.
    fn check(&self, expected: TokenKind<'a>) -> (r: bool)
        ensures
            r == checks(self.token_seq(), self.position(), expected@),
    {
        match self.peek() {
            Some(token) => same_kind(&token.kind, &expected),
            None => false,
        }
    }

    /// Consumes an identifier, giving its text and position.
    fn consume_identifier(&mut self) -> (r: Result<(&'a str, usize, usize), ParserError>)
        requires
            old(self).cursor < usize::MAX,
        ensures
            final(self).tokens == old(self).tokens,
            ident_spec(old(self).token_seq(), old(self).position())
                == (ident_res(r), final(self).position()),
            final(self).cursor == old(self).cursor + 1,
            r is Ok ==> old(self).cursor < old(self).tokens@.len(),
    {
        match self.advance() {
            None => Err(ParserError::UnexpectedEoF),
            Some(token) => match token.kind {
                TokenKind::Identifier(name) => Ok((name, token.line, token.column)),
                _ => {
                    let expected = String::from_str("Identifier");
                    Err(ParserError::UnexpectedToken {
                        expected,
                        found: kind_debug(&token.kind),
                        line: token.line,
                        column: token.column,
                    })
                },
            },
        }
    }

    /// Parses a type: a base type, optionally followed by `[]`.
    fn parse_type(&mut self) -> (r: Result<Type<'a>, ParserError>)
        requires
            old(self).wf(),
            old(self).cursor <= old(self).tokens@.len(),
        ensures
            final(self).tokens == old(self).tokens,
            type_spec(old(self).token_seq(), old(self).position())
                == (type_res(r), final(self).position()),
            final(self).wf(),
            r is Ok ==> old(self).cursor < final(self).cursor <= old(self).tokens@.len(),
    {
        let token = match self.advance() {
            Some(t) => t,
            None => return Err(ParserError::UnexpectedEoF),
        };
        let base_type = match token.kind {
            TokenKind::IntKeyword => Type::Int,
            TokenKind::BoolKeyword => Type::Bool,
            TokenKind::FloatKeyword => Type::Float,
            TokenKind::StringKeyword => Type::String,
            TokenKind::Identifier(name) => Type::Struct(name),
            _ => {
                return Err(ParserError::UnexpectedToken {
                    expected: String::from_str("type keyword or struct name"),
                    found: kind_debug(&token.kind),
                    line: token.line,
                    column: token.column,
                });
            },
        };
        if self.check(TokenKind::LeftBracket) {
            self.advance();
            match self.expect(TokenKind::RightBracket) {
                Ok(_) => {},
                Err(e) => return Err(e),
            }
            let ghost b = base_type@;
            let t = Type::Array(Box::new(base_type));
            assert(t@ == Ty::Array(Box::new(b)));
            return Ok(t);
        }
        Ok(base_type)
    }
}

} // verus!
