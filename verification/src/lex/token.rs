//! Tokens: their kinds, their spans, and the classification of a kind without its payload.

use vstd::prelude::*;
use vstd::string::StringExecFns;
use crate::ast::{AssignOpKind, BinaryOpKind};

verus! {

/// A half-open range `start..end` of character offsets into the source text.
#[derive(Debug, Clone, Copy, PartialEq, Eq, Structural)]
pub struct Span {
    pub start: usize,
    pub end: usize,
}

impl Span {
    pub fn new(start: usize, end: usize) -> (span: Self)
        ensures
            span.start == start,
            span.end == end,
    {
        Self { start, end }
    }
}

/// A token together with the place in the source where it was found.
#[derive(Debug)]
pub struct Token {
    pub span: Span,
    pub kind: TokenKind,
}

/// What a token is, with the text it carries where it carries any.
#[derive(Debug)]
pub enum TokenKind {
    /// A numeral, as written.
    Number(String),
    /// The text between the quotes of a string literal.
    String(String),
    Ident(String),
    LeftParen,
    RightParen,
    LeftBrace,
    RightBrace,
    LeftBracket,
    RightBracket,
    Comma,
    Equals,
    DoubleEquals,
    AddEquals,
    SubtractEquals,
    MultiplyEquals,
    DivideEquals,
    GreaterThan,
    LessThan,
    Let,
    Fn,
    Return,
    Break,
    Continue,
    While,
    If,
    Else,
    Plus,
    Minus,
    Asterisk,
    DoubleAsterisk,
    ForwardSlash,
    True,
    False,
    Colon,
    Semicolon,
}

/// A token as a mathematical value: where it stands, its kind, and the text it carries.
pub ghost struct TokenView {
    pub start: int,
    pub end: int,
    pub kind: ShallowTokenKind,
    pub text: Seq<char>,
}

impl View for Token {
    type V = TokenView;

    open spec fn view(&self) -> TokenView {
        TokenView {
            start: self.span.start as int,
            end: self.span.end as int,
            kind: self.kind.shallow(),
            text: self.kind.text(),
        }
    }
}

/// A token kind without its payload, for matching on structure alone.
#[derive(Debug, Clone, Copy, PartialEq, Eq, Structural)]
pub enum ShallowTokenKind {
    Number,
    String,
    Ident,
    LeftParen,
    RightParen,
    LeftBrace,
    RightBrace,
    LeftBracket,
    RightBracket,
    Comma,
    Equals,
    DoubleEquals,
    AddEquals,
    SubtractEquals,
    MultiplyEquals,
    DivideEquals,
    GreaterThan,
    LessThan,
    Let,
    Fn,
    Return,
    Break,
    Continue,
    While,
    If,
    Else,
    Plus,
    Minus,
    Asterisk,
    DoubleAsterisk,
    ForwardSlash,
    True,
    False,
    Colon,
    Semicolon,
}

impl ShallowTokenKind {
    /// The name of the kind.
    pub open spec fn name(self) -> Seq<char> {
        match self {
            ShallowTokenKind::Number => "Number"@,
            ShallowTokenKind::String => "String"@,
            ShallowTokenKind::Ident => "Ident"@,
            ShallowTokenKind::LeftParen => "LeftParen"@,
            ShallowTokenKind::RightParen => "RightParen"@,
            ShallowTokenKind::LeftBrace => "LeftBrace"@,
            ShallowTokenKind::RightBrace => "RightBrace"@,
            ShallowTokenKind::LeftBracket => "LeftBracket"@,
            ShallowTokenKind::RightBracket => "RightBracket"@,
            ShallowTokenKind::Comma => "Comma"@,
            ShallowTokenKind::Equals => "Equals"@,
            ShallowTokenKind::DoubleEquals => "DoubleEquals"@,
            ShallowTokenKind::AddEquals => "AddEquals"@,
            ShallowTokenKind::SubtractEquals => "SubtractEquals"@,
            ShallowTokenKind::MultiplyEquals => "MultiplyEquals"@,
            ShallowTokenKind::DivideEquals => "DivideEquals"@,
            ShallowTokenKind::GreaterThan => "GreaterThan"@,
            ShallowTokenKind::LessThan => "LessThan"@,
            ShallowTokenKind::Let => "Let"@,
            ShallowTokenKind::Fn => "Fn"@,
            ShallowTokenKind::Return => "Return"@,
            ShallowTokenKind::Break => "Break"@,
            ShallowTokenKind::Continue => "Continue"@,
            ShallowTokenKind::While => "While"@,
            ShallowTokenKind::If => "If"@,
            ShallowTokenKind::Else => "Else"@,
            ShallowTokenKind::Plus => "Plus"@,
            ShallowTokenKind::Minus => "Minus"@,
            ShallowTokenKind::Asterisk => "Asterisk"@,
            ShallowTokenKind::DoubleAsterisk => "DoubleAsterisk"@,
            ShallowTokenKind::ForwardSlash => "ForwardSlash"@,
            ShallowTokenKind::True => "True"@,
            ShallowTokenKind::False => "False"@,
            ShallowTokenKind::Colon => "Colon"@,
            ShallowTokenKind::Semicolon => "Semicolon"@,
        }
    }

    /// The name of the kind.
    pub fn to_string(&self) -> (name: String)
        ensures
            name@ == self.name(),
    {
        let name = match self {
            ShallowTokenKind::Number => "Number",
            ShallowTokenKind::String => "String",
            ShallowTokenKind::Ident => "Ident",
            ShallowTokenKind::LeftParen => "LeftParen",
            ShallowTokenKind::RightParen => "RightParen",
            ShallowTokenKind::LeftBrace => "LeftBrace",
            ShallowTokenKind::RightBrace => "RightBrace",
            ShallowTokenKind::LeftBracket => "LeftBracket",
            ShallowTokenKind::RightBracket => "RightBracket",
            ShallowTokenKind::Comma => "Comma",
            ShallowTokenKind::Equals => "Equals",
            ShallowTokenKind::DoubleEquals => "DoubleEquals",
            ShallowTokenKind::AddEquals => "AddEquals",
            ShallowTokenKind::SubtractEquals => "SubtractEquals",
            ShallowTokenKind::MultiplyEquals => "MultiplyEquals",
            ShallowTokenKind::DivideEquals => "DivideEquals",
            ShallowTokenKind::GreaterThan => "GreaterThan",
            ShallowTokenKind::LessThan => "LessThan",
            ShallowTokenKind::Let => "Let",
            ShallowTokenKind::Fn => "Fn",
            ShallowTokenKind::Return => "Return",
            ShallowTokenKind::Break => "Break",
            ShallowTokenKind::Continue => "Continue",
            ShallowTokenKind::While => "While",
            ShallowTokenKind::If => "If",
            ShallowTokenKind::Else => "Else",
            ShallowTokenKind::Plus => "Plus",
            ShallowTokenKind::Minus => "Minus",
            ShallowTokenKind::Asterisk => "Asterisk",
            ShallowTokenKind::DoubleAsterisk => "DoubleAsterisk",
            ShallowTokenKind::ForwardSlash => "ForwardSlash",
            ShallowTokenKind::True => "True",
            ShallowTokenKind::False => "False",
            ShallowTokenKind::Colon => "Colon",
            ShallowTokenKind::Semicolon => "Semicolon",
        };
        String::from_str(name)
    }

    /// Whether tokens of this kind carry no text.
    pub open spec fn payload_free(self) -> bool {
        self != ShallowTokenKind::Number && self != ShallowTokenKind::String && self
            != ShallowTokenKind::Ident
    }

    /// The token of this kind. A kind that carries text gets the empty text.
    pub fn bare(self) -> (kind: TokenKind)
        ensures
            kind.shallow() == self,
            kind.text() == Seq::<char>::empty(),
    {
        match self {
            ShallowTokenKind::Number => TokenKind::Number(String::new()),
            ShallowTokenKind::String => TokenKind::String(String::new()),
            ShallowTokenKind::Ident => TokenKind::Ident(String::new()),
            ShallowTokenKind::LeftParen => TokenKind::LeftParen,
            ShallowTokenKind::RightParen => TokenKind::RightParen,
            ShallowTokenKind::LeftBrace => TokenKind::LeftBrace,
            ShallowTokenKind::RightBrace => TokenKind::RightBrace,
            ShallowTokenKind::LeftBracket => TokenKind::LeftBracket,
            ShallowTokenKind::RightBracket => TokenKind::RightBracket,
            ShallowTokenKind::Comma => TokenKind::Comma,
            ShallowTokenKind::Equals => TokenKind::Equals,
            ShallowTokenKind::DoubleEquals => TokenKind::DoubleEquals,
            ShallowTokenKind::AddEquals => TokenKind::AddEquals,
            ShallowTokenKind::SubtractEquals => TokenKind::SubtractEquals,
            ShallowTokenKind::MultiplyEquals => TokenKind::MultiplyEquals,
            ShallowTokenKind::DivideEquals => TokenKind::DivideEquals,
            ShallowTokenKind::GreaterThan => TokenKind::GreaterThan,
            ShallowTokenKind::LessThan => TokenKind::LessThan,
            ShallowTokenKind::Let => TokenKind::Let,
            ShallowTokenKind::Fn => TokenKind::Fn,
            ShallowTokenKind::Return => TokenKind::Return,
            ShallowTokenKind::Break => TokenKind::Break,
            ShallowTokenKind::Continue => TokenKind::Continue,
            ShallowTokenKind::While => TokenKind::While,
            ShallowTokenKind::If => TokenKind::If,
            ShallowTokenKind::Else => TokenKind::Else,
            ShallowTokenKind::Plus => TokenKind::Plus,
            ShallowTokenKind::Minus => TokenKind::Minus,
            ShallowTokenKind::Asterisk => TokenKind::Asterisk,
            ShallowTokenKind::DoubleAsterisk => TokenKind::DoubleAsterisk,
            ShallowTokenKind::ForwardSlash => TokenKind::ForwardSlash,
            ShallowTokenKind::True => TokenKind::True,
            ShallowTokenKind::False => TokenKind::False,
            ShallowTokenKind::Colon => TokenKind::Colon,
            ShallowTokenKind::Semicolon => TokenKind::Semicolon,
        }
    }
}

impl TokenKind {
    /// The kind with its payload dropped.
    pub open spec fn shallow(&self) -> ShallowTokenKind {
        match self {
            TokenKind::Number(_) => ShallowTokenKind::Number,
            TokenKind::String(_) => ShallowTokenKind::String,
            TokenKind::Ident(_) => ShallowTokenKind::Ident,
            TokenKind::LeftParen => ShallowTokenKind::LeftParen,
            TokenKind::RightParen => ShallowTokenKind::RightParen,
            TokenKind::LeftBrace => ShallowTokenKind::LeftBrace,
            TokenKind::RightBrace => ShallowTokenKind::RightBrace,
            TokenKind::LeftBracket => ShallowTokenKind::LeftBracket,
            TokenKind::RightBracket => ShallowTokenKind::RightBracket,
            TokenKind::Comma => ShallowTokenKind::Comma,
            TokenKind::Equals => ShallowTokenKind::Equals,
            TokenKind::DoubleEquals => ShallowTokenKind::DoubleEquals,
            TokenKind::AddEquals => ShallowTokenKind::AddEquals,
            TokenKind::SubtractEquals => ShallowTokenKind::SubtractEquals,
            TokenKind::MultiplyEquals => ShallowTokenKind::MultiplyEquals,
            TokenKind::DivideEquals => ShallowTokenKind::DivideEquals,
            TokenKind::GreaterThan => ShallowTokenKind::GreaterThan,
            TokenKind::LessThan => ShallowTokenKind::LessThan,
            TokenKind::Let => ShallowTokenKind::Let,
            TokenKind::Fn => ShallowTokenKind::Fn,
            TokenKind::Return => ShallowTokenKind::Return,
            TokenKind::Break => ShallowTokenKind::Break,
            TokenKind::Continue => ShallowTokenKind::Continue,
            TokenKind::While => ShallowTokenKind::While,
            TokenKind::If => ShallowTokenKind::If,
            TokenKind::Else => ShallowTokenKind::Else,
            TokenKind::Plus => ShallowTokenKind::Plus,
            TokenKind::Minus => ShallowTokenKind::Minus,
            TokenKind::Asterisk => ShallowTokenKind::Asterisk,
            TokenKind::DoubleAsterisk => ShallowTokenKind::DoubleAsterisk,
            TokenKind::ForwardSlash => ShallowTokenKind::ForwardSlash,
            TokenKind::True => ShallowTokenKind::True,
            TokenKind::False => ShallowTokenKind::False,
            TokenKind::Colon => ShallowTokenKind::Colon,
            TokenKind::Semicolon => ShallowTokenKind::Semicolon,
        }
    }

    /// The text that the kind carries: the numeral, the string or the name; empty for the
    /// kinds that carry none.
    pub open spec fn text(&self) -> Seq<char> {
        match self {
            TokenKind::Number(s) => s@,
            TokenKind::String(s) => s@,
            TokenKind::Ident(s) => s@,
            _ => Seq::empty(),
        }
    }

    /// How the kind describes itself: its name, and behind a colon the text that it carries,
    /// where it carries any.
    pub open spec fn description(&self) -> Seq<char> {
        if self.shallow().payload_free() {
            self.shallow().name()
        } else {
            self.shallow().name() + ": "@ + self.text()
        }
    }

    /// How the kind describes itself.
    pub fn to_string(&self) -> (description: String)
        ensures
            description@ == self.description(),
    {
        let name = self.as_shallow().to_string();
        match self {
            TokenKind::Number(text) | TokenKind::String(text) | TokenKind::Ident(text) => name.concat(
                ": ",
            ).concat(text.as_str()),
            _ => name,
        }
    }

    /// The binary operator that this kind of token writes, where it writes one.
    pub open spec fn binary_op(&self) -> Option<BinaryOpKind> {
        match self {
            TokenKind::Plus => Some(BinaryOpKind::Add),
            TokenKind::Minus => Some(BinaryOpKind::Subtract),
            TokenKind::Asterisk => Some(BinaryOpKind::Multiply),
            TokenKind::ForwardSlash => Some(BinaryOpKind::Divide),
            TokenKind::DoubleEquals => Some(BinaryOpKind::Equals),
            TokenKind::GreaterThan => Some(BinaryOpKind::GreaterThan),
            TokenKind::DoubleAsterisk => Some(BinaryOpKind::Pow),
            TokenKind::LessThan => Some(BinaryOpKind::LessThan),
            _ => None,
        }
    }

    /// The assignment operator that this kind of token writes, where it writes one.
    pub open spec fn assign_op(&self) -> Option<AssignOpKind> {
        match self {
            TokenKind::Equals => Some(AssignOpKind::NoOp),
            TokenKind::AddEquals => Some(AssignOpKind::Op(BinaryOpKind::Add)),
            TokenKind::SubtractEquals => Some(AssignOpKind::Op(BinaryOpKind::Subtract)),
            TokenKind::MultiplyEquals => Some(AssignOpKind::Op(BinaryOpKind::Multiply)),
            TokenKind::DivideEquals => Some(AssignOpKind::Op(BinaryOpKind::Divide)),
            _ => None,
        }
    }

    #[verifier::when_used_as_spec(shallow)]
    pub fn as_shallow(&self) -> (kind: ShallowTokenKind)
        ensures
            kind == self.shallow(),
    {
        match self {
            TokenKind::Number(_) => ShallowTokenKind::Number,
            TokenKind::String(_) => ShallowTokenKind::String,
            TokenKind::Ident(_) => ShallowTokenKind::Ident,
            TokenKind::LeftParen => ShallowTokenKind::LeftParen,
            TokenKind::RightParen => ShallowTokenKind::RightParen,
            TokenKind::LeftBrace => ShallowTokenKind::LeftBrace,
            TokenKind::RightBrace => ShallowTokenKind::RightBrace,
            TokenKind::LeftBracket => ShallowTokenKind::LeftBracket,
            TokenKind::RightBracket => ShallowTokenKind::RightBracket,
            TokenKind::Comma => ShallowTokenKind::Comma,
            TokenKind::Equals => ShallowTokenKind::Equals,
            TokenKind::DoubleEquals => ShallowTokenKind::DoubleEquals,
            TokenKind::AddEquals => ShallowTokenKind::AddEquals,
            TokenKind::SubtractEquals => ShallowTokenKind::SubtractEquals,
            TokenKind::MultiplyEquals => ShallowTokenKind::MultiplyEquals,
            TokenKind::DivideEquals => ShallowTokenKind::DivideEquals,
            TokenKind::GreaterThan => ShallowTokenKind::GreaterThan,
            TokenKind::LessThan => ShallowTokenKind::LessThan,
            TokenKind::Let => ShallowTokenKind::Let,
            TokenKind::Fn => ShallowTokenKind::Fn,
            TokenKind::Return => ShallowTokenKind::Return,
            TokenKind::Break => ShallowTokenKind::Break,
            TokenKind::Continue => ShallowTokenKind::Continue,
            TokenKind::While => ShallowTokenKind::While,
            TokenKind::If => ShallowTokenKind::If,
            TokenKind::Else => ShallowTokenKind::Else,
            TokenKind::Plus => ShallowTokenKind::Plus,
            TokenKind::Minus => ShallowTokenKind::Minus,
            TokenKind::Asterisk => ShallowTokenKind::Asterisk,
            TokenKind::DoubleAsterisk => ShallowTokenKind::DoubleAsterisk,
            TokenKind::ForwardSlash => ShallowTokenKind::ForwardSlash,
            TokenKind::True => ShallowTokenKind::True,
            TokenKind::False => ShallowTokenKind::False,
            TokenKind::Colon => ShallowTokenKind::Colon,
            TokenKind::Semicolon => ShallowTokenKind::Semicolon,
        }
    }

    #[verifier::when_used_as_spec(binary_op)]
    pub fn as_binary_op(&self) -> (op: Option<BinaryOpKind>)
        ensures
            op == self.binary_op(),
    {
        match self {
            TokenKind::Plus => Some(BinaryOpKind::Add),
            TokenKind::Minus => Some(BinaryOpKind::Subtract),
            TokenKind::Asterisk => Some(BinaryOpKind::Multiply),
            TokenKind::ForwardSlash => Some(BinaryOpKind::Divide),
            TokenKind::DoubleEquals => Some(BinaryOpKind::Equals),
            TokenKind::GreaterThan => Some(BinaryOpKind::GreaterThan),
            TokenKind::DoubleAsterisk => Some(BinaryOpKind::Pow),
            TokenKind::LessThan => Some(BinaryOpKind::LessThan),
            _ => None,
        }
    }

    #[verifier::when_used_as_spec(assign_op)]
    pub fn as_assign_op(&self) -> (op: Option<AssignOpKind>)
        ensures
            op == self.assign_op(),
    {
        match self {
            TokenKind::Equals => Some(AssignOpKind::NoOp),
            TokenKind::AddEquals => Some(AssignOpKind::Op(BinaryOpKind::Add)),
            TokenKind::SubtractEquals => Some(AssignOpKind::Op(BinaryOpKind::Subtract)),
            TokenKind::MultiplyEquals => Some(AssignOpKind::Op(BinaryOpKind::Multiply)),
            TokenKind::DivideEquals => Some(AssignOpKind::Op(BinaryOpKind::Divide)),
            _ => None,
        }
    }

    /// The name, when the token is an identifier.
    pub fn as_ident(&self) -> (name: Option<&String>)
        ensures
            name == (match self {
                TokenKind::Ident(s) => Some(s),
                _ => None,
            }),
    {
        match self {
            TokenKind::Ident(s) => Some(s),
            _ => None,
        }
    }
}

impl Clone for TokenKind {
    fn clone(&self) -> (copy: Self)
        ensures
            copy == *self,
    {
        match self {
            TokenKind::Number(s) => TokenKind::Number(s.clone()),
            TokenKind::String(s) => TokenKind::String(s.clone()),
            TokenKind::Ident(s) => TokenKind::Ident(s.clone()),
            TokenKind::LeftParen => TokenKind::LeftParen,
            TokenKind::RightParen => TokenKind::RightParen,
            TokenKind::LeftBrace => TokenKind::LeftBrace,
            TokenKind::RightBrace => TokenKind::RightBrace,
            TokenKind::LeftBracket => TokenKind::LeftBracket,
            TokenKind::RightBracket => TokenKind::RightBracket,
            TokenKind::Comma => TokenKind::Comma,
            TokenKind::Equals => TokenKind::Equals,
            TokenKind::DoubleEquals => TokenKind::DoubleEquals,
            TokenKind::AddEquals => TokenKind::AddEquals,
            TokenKind::SubtractEquals => TokenKind::SubtractEquals,
            TokenKind::MultiplyEquals => TokenKind::MultiplyEquals,
            TokenKind::DivideEquals => TokenKind::DivideEquals,
            TokenKind::GreaterThan => TokenKind::GreaterThan,
            TokenKind::LessThan => TokenKind::LessThan,
            TokenKind::Let => TokenKind::Let,
            TokenKind::Fn => TokenKind::Fn,
            TokenKind::Return => TokenKind::Return,
            TokenKind::Break => TokenKind::Break,
            TokenKind::Continue => TokenKind::Continue,
            TokenKind::While => TokenKind::While,
            TokenKind::If => TokenKind::If,
            TokenKind::Else => TokenKind::Else,
            TokenKind::Plus => TokenKind::Plus,
            TokenKind::Minus => TokenKind::Minus,
            TokenKind::Asterisk => TokenKind::Asterisk,
            TokenKind::DoubleAsterisk => TokenKind::DoubleAsterisk,
            TokenKind::ForwardSlash => TokenKind::ForwardSlash,
            TokenKind::True => TokenKind::True,
            TokenKind::False => TokenKind::False,
            TokenKind::Colon => TokenKind::Colon,
            TokenKind::Semicolon => TokenKind::Semicolon,
        }
    }
}

impl Clone for Token {
    fn clone(&self) -> (copy: Self)
        ensures
            copy == *self,
    {
        Token { span: self.span, kind: self.kind.clone() }
    }
}

} // verus!
