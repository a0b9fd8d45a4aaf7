//! Tokens: the smallest lexical units of the language.

use vstd::prelude::*;

verus! {

/// The kind tag of a token.
#[derive(Debug, Clone, Copy, PartialEq, Eq, Structural)]
pub enum TokenType {
    // Single-character tokens.
    LeftParen,
    RightParen,
    LeftBrace,
    RightBrace,
    Comma,
    Dot,
    Minus,
    Plus,
    Semicolon,
    Slash,
    Star,
    // One or two character tokens.
    Bang,
    BangEqual,
    Equal,
    EqualEqual,
    Greater,
    GreaterEqual,
    Less,
    LessEqual,
    // Literals.
    Identifier,
    String,
    Number,
    // Keywords.
    And,
    CLass,
    Else,
    False,
    Fn,
    Fun,
    For,
    If,
    Nil,
    Or,
    Print,
    Return,
    Super,
    This,
    True,
    Let,
    Var,
    While,
    // End of input.
    Eof,
}

/// A literal payload carried by some tokens. A number is held as the
/// bit pattern of an IEEE-754 double-precision value.
#[derive(Debug, Clone, PartialEq)]
pub enum LiterialValue {
    IntValue(i64),
    FloatValue(u64),
    StringValue(String),
    IdentifierVal(String),
}

/// The mathematical model of a literal payload.
pub enum LitV {
    IntV(i64),
    FloatV(u64),
    StringV(Seq<char>),
    IdentifierV(Seq<char>),
}

impl View for LiterialValue {
    type V = LitV;

    open spec fn view(&self) -> LitV {
        match self {
            LiterialValue::IntValue(i) => LitV::IntV(*i),
            LiterialValue::FloatValue(b) => LitV::FloatV(*b),
            LiterialValue::StringValue(s) => LitV::StringV(s@),
            LiterialValue::IdentifierVal(s) => LitV::IdentifierV(s@),
        }
    }
}

/// A token: kind tag, the exact source text it was scanned from, an
/// optional literal payload, and the source line it started on.
#[derive(Debug, Clone, PartialEq)]
pub struct Token {
    pub token_type: TokenType,
    pub lexeme: String,
    pub literial: Option<LiterialValue>,
    pub line_number: usize,
}

/// The mathematical model of a token.
#[verifier::ext_equal]
pub struct TokV {
    pub kind: TokenType,
    pub lexeme: Seq<char>,
    pub lit: Option<LitV>,
    pub line: nat,
}

impl View for Token {
    type V = TokV;

    open spec fn view(&self) -> TokV {
        TokV {
            kind: self.token_type,
            lexeme: self.lexeme@,
            lit: match &self.literial {
                Option::Some(l) => Option::Some(l@),
                Option::None => Option::None,
            },
            line: self.line_number as nat,
        }
    }
}

impl Token {
    /// Builds a token from its parts.
    pub fn new(
        token_type: TokenType,
        lexeme: String,
        literial: Option<LiterialValue>,
        line_number: usize,
    ) -> (r: Self)
        ensures
            r.token_type == token_type,
            r.lexeme == lexeme,
            r.literial == literial,
            r.line_number == line_number,
    {
        Self { token_type, lexeme, literial, line_number }
    }

    /// An explicit copy whose value Verus knows equals the original.
    pub fn duplicate(&self) -> (r: Token)
        ensures
            r == *self,
    {
        Token {
            token_type: self.token_type,
            lexeme: self.lexeme.clone(),
            literial: match &self.literial {
                Option::Some(l) => Option::Some(l.duplicate()),
                Option::None => Option::None,
            },
            line_number: self.line_number,
        }
    }
}

impl LiterialValue {
    /// An explicit copy whose value Verus knows equals the original.
    pub fn duplicate(&self) -> (r: LiterialValue)
        ensures
            r == *self,
    {
        match self {
            LiterialValue::IntValue(i) => LiterialValue::IntValue(*i),
            LiterialValue::FloatValue(b) => LiterialValue::FloatValue(*b),
            LiterialValue::StringValue(s) => LiterialValue::StringValue(s.clone()),
            LiterialValue::IdentifierVal(s) => LiterialValue::IdentifierVal(s.clone()),
        }
    }
}

} // verus!
