//! The parser: token sequence to statements, by recursive descent with
//! precedence climbing and per-statement error synchronization.
//!
//! Each method is proved to return exactly what the corresponding
//! grammar function of the grammar module says.

use vstd::prelude::*;
use crate::expr::{Expr, ExprLiteral, SExpr, exprs_view, lemma_exprs_view};
use crate::grammar::{
    wf_toks, rem, bump, PExpr, PStmt, PArgs, PParams, SParse, kind_name, msg_consume,
    msg_assign_target, msg_too_many_args, msg_primary, msg_bad_string, msg_bad_number,
    sp_sync_from, sp_sync, sp_primary, sp_args_rest, sp_args, sp_finish_call, sp_call_rest,
    sp_call, sp_unary, sp_factor_rest, sp_factor, sp_term_rest, sp_term, sp_comparison_rest,
    sp_comparison, sp_equality_rest, sp_equality, sp_logic_and_rest, sp_logic_and,
    sp_logic_or_rest, sp_logic_or, sp_assignment, sp_expression, sp_print_statement,
    sp_expression_statement, sp_block_rest, sp_block, sp_if_statement, sp_while_statement,
    sp_return_statement, sp_let_declaration, sp_params_rest, sp_fun_declaration, lexemes_of,
    sp_for_statement, sp_statement, sp_declaration, sp_program, joined_lines,
};
use crate::numerics::usize_to_string;
use crate::stmt::{Stmt, SStmt, stmts_view, lemma_stmts_view};
use crate::token::{LiterialValue, LitV, Token, TokenType, TokV};
use crate::scanner::toks_view;

verus! {

/// The parser: a token stream and a cursor over it.
pub struct Parser {
    pub tokens: Vec<Token>,
    pub current: usize,
}

impl Parser {
    /// The models of the tokens.
    pub open spec fn toks(&self) -> Seq<TokV> {
        toks_view(self.tokens@)
    }

    /// The stream is well formed and the cursor is on a token.
    pub open spec fn wf(&self) -> bool {
        &&& wf_toks(self.toks())
        &&& self.current < self.toks().len()
    }

    /// A parser over the given tokens, at the first one.
    pub fn new(tokens: Vec<Token>) -> (r: Self)
        ensures
            r.tokens == tokens,
            r.current == 0,
    {
        Self { tokens, current: 0 }
    }

    /// The kind of the token at the cursor.
    fn peek_kind(&self) -> (r: TokenType)
        requires
            self.wf(),
        ensures
            r == self.toks()[self.current as int].kind,
    {
        self.tokens[self.current].token_type
    }

    /// The token at the cursor, copied.
    fn peek_tok(&self) -> (r: Token)
        requires
            self.wf(),
        ensures
            r == self.tokens@[self.current as int],
    {
        self.tokens[self.current].duplicate()
    }

    /// The token before the cursor, copied.
    fn previous(&self) -> (r: Token)
        requires
            self.wf(),
            self.current >= 1,
        ensures
            r == self.tokens@[self.current - 1],
    {
        self.tokens[self.current - 1].duplicate()
    }

    /// Whether the token at the cursor has the given kind; the end
    /// marker matches nothing.
    fn check(&self, token_type: TokenType) -> (r: bool)
        requires
            self.wf(),
        ensures
            r == (self.toks()[self.current as int].kind != TokenType::Eof
                && self.toks()[self.current as int].kind == token_type),
    {
        if self.is_at_end() {
            return false;
        }
        self.peek_kind() == token_type
    }

    /// Whether the cursor is on the end marker.
    fn is_at_end(&self) -> (r: bool)
        requires
            self.wf(),
        ensures
            r == (self.toks()[self.current as int].kind == TokenType::Eof),
    {
        self.peek_kind() == TokenType::Eof
    }

    /// Moves past the current token, never past the end marker.
    fn advance(&mut self)
        requires
            old(self).wf(),
        ensures
            final(self).wf(),
            final(self).tokens == old(self).tokens,
            old(self).toks()[old(self).current as int].kind != TokenType::Eof
                ==> final(self).current == old(self).current + 1,
            old(self).toks()[old(self).current as int].kind == TokenType::Eof
                ==> final(self).current == old(self).current,
    {
        if !self.is_at_end() {
            let n = self.tokens.len();
            proof {
                reveal(wf_toks);
                assert(self.toks()[self.toks().len() - 1].kind == TokenType::Eof);
                assert(self.toks().len() == n);
            }
            self.current = self.current + 1;
        }
    }

    /// Consumes the token at the cursor when it has the given kind, or
    /// reports which kind was required and what stood there.
    fn consume(&mut self, token_type: TokenType) -> (r: Result<Token, String>)
        requires
            old(self).wf(),
            token_type != TokenType::Eof,
        ensures
            final(self).wf(),
            final(self).tokens == old(self).tokens,
            if old(self).toks()[old(self).current as int].kind == token_type {
                &&& r is Ok
                &&& r->Ok_0 == old(self).tokens@[old(self).current as int]
                &&& final(self).current == old(self).current + 1
            } else {
                &&& r is Err
                &&& r->Err_0@ == msg_consume(token_type, old(self).toks()[old(self).current as int])
                &&& final(self).current == old(self).current
            },
    {
        if self.check(token_type) {
            self.advance();
            Result::Ok(self.previous())
        } else {
            Result::Err(mk_msg_consume(token_type, &self.tokens[self.current]))
        }
    }

    /// Discards tokens until a statement boundary, so that parsing can
    /// go on and collect further reports.
    fn synchronize(&mut self)
        requires
            old(self).wf(),
        ensures
            final(self).wf(),
            final(self).tokens == old(self).tokens,
            final(self).current == sp_sync(old(self).toks(), old(self).current as nat),
    {
        let ghost toks = self.toks();
        self.advance();
        let ghost start = self.current as nat;
        loop
            invariant
                self.wf(),
                self.tokens == old(self).tokens,
                toks == self.toks(),
                start <= self.current as nat,
                self.current >= 1 || toks[self.current as int].kind == TokenType::Eof,
                sp_sync_from(toks, start) == sp_sync_from(toks, self.current as nat),
            ensures
                self.wf(),
                self.tokens == old(self).tokens,
                self.current as nat == sp_sync_from(toks, start),
            decreases toks.len() - self.current,
        {
            if self.is_at_end() {
                break;
            }
            if self.previous().token_type == TokenType::Semicolon {
                break;
            }
            let k = self.peek_kind();
            match k {
                TokenType::CLass | TokenType::Fun | TokenType::Let | TokenType::Var
                | TokenType::For | TokenType::If | TokenType::While | TokenType::Print
                | TokenType::Return => {
                    break;
                },
                _ => {
                    proof {
                        assert(sp_sync_from(toks, self.current as nat)
                            == sp_sync_from(toks, self.current as nat + 1));
                    }
                    self.advance();
                },
            }
        }
    }
}

/// The printed name of a token kind.
fn kind_name_str(t: TokenType) -> (r: &'static str)
    ensures
        r@ == kind_name(t),
{
    proof {
        reveal(kind_name);
        reveal_strlit("LeftParen");
        reveal_strlit("RightParen");
        reveal_strlit("LeftBrace");
        reveal_strlit("RightBrace");
        reveal_strlit("Comma");
        reveal_strlit("Dot");
        reveal_strlit("Minus");
        reveal_strlit("Plus");
        reveal_strlit("Semicolon");
        reveal_strlit("Slash");
        reveal_strlit("Star");
        reveal_strlit("Bang");
        reveal_strlit("BangEqual");
        reveal_strlit("Equal");
        reveal_strlit("EqualEqual");
        reveal_strlit("Greater");
        reveal_strlit("GreaterEqual");
        reveal_strlit("Less");
        reveal_strlit("LessEqual");
        reveal_strlit("Identifier");
        reveal_strlit("String");
        reveal_strlit("Number");
        reveal_strlit("And");
        reveal_strlit("CLass");
        reveal_strlit("Else");
        reveal_strlit("False");
        reveal_strlit("Fn");
        reveal_strlit("Fun");
        reveal_strlit("For");
        reveal_strlit("If");
        reveal_strlit("Nil");
        reveal_strlit("Or");
        reveal_strlit("Print");
        reveal_strlit("Return");
        reveal_strlit("Super");
        reveal_strlit("This");
        reveal_strlit("True");
        reveal_strlit("Let");
        reveal_strlit("Var");
        reveal_strlit("While");
        reveal_strlit("Eof");
    }
    match t {
        TokenType::LeftParen => "LeftParen",
        TokenType::RightParen => "RightParen",
        TokenType::LeftBrace => "LeftBrace",
        TokenType::RightBrace => "RightBrace",
        TokenType::Comma => "Comma",
        TokenType::Dot => "Dot",
        TokenType::Minus => "Minus",
        TokenType::Plus => "Plus",
        TokenType::Semicolon => "Semicolon",
        TokenType::Slash => "Slash",
        TokenType::Star => "Star",
        TokenType::Bang => "Bang",
        TokenType::BangEqual => "BangEqual",
        TokenType::Equal => "Equal",
        TokenType::EqualEqual => "EqualEqual",
        TokenType::Greater => "Greater",
        TokenType::GreaterEqual => "GreaterEqual",
        TokenType::Less => "Less",
        TokenType::LessEqual => "LessEqual",
        TokenType::Identifier => "Identifier",
        TokenType::String => "String",
        TokenType::Number => "Number",
        TokenType::And => "And",
        TokenType::CLass => "CLass",
        TokenType::Else => "Else",
        TokenType::False => "False",
        TokenType::Fn => "Fn",
        TokenType::Fun => "Fun",
        TokenType::For => "For",
        TokenType::If => "If",
        TokenType::Nil => "Nil",
        TokenType::Or => "Or",
        TokenType::Print => "Print",
        TokenType::Return => "Return",
        TokenType::Super => "Super",
        TokenType::This => "This",
        TokenType::True => "True",
        TokenType::Let => "Let",
        TokenType::Var => "Var",
        TokenType::While => "While",
        TokenType::Eof => "Eof",
    }
}

/// Builds the report for a required token that is not there.
pub(crate) fn mk_msg_consume(tt: TokenType, t: &Token) -> (r: String)
    ensures
        r@ == msg_consume(tt, t@),
{
    proof {
        reveal(msg_consume);
    }
    let mut m = String::from_str("Parsering error occur when consuming token ");
    m.append(kind_name_str(tt));
    m.append(" at line: ");
    m.append(usize_to_string(t.line_number).as_str());
    m.append(" in ");
    m.append(t.lexeme.as_str());
    m.append(".");
    m
}

/// Builds the report for an assignment whose target is not a variable.
fn mk_msg_assign_target(t: &Token) -> (r: String)
    ensures
        r@ == msg_assign_target(t@),
{
    proof {
        reveal(msg_assign_target);
    }
    let mut m = String::from_str("Error occurs when assignment at line: ");
    m.append(usize_to_string(t.line_number).as_str());
    m.append(" at ");
    m.append(t.lexeme.as_str());
    m.append(".");
    m
}

/// Builds the report for an argument list over the hard cap.
fn mk_msg_too_many_args(t: &Token) -> (r: String)
    ensures
        r@ == msg_too_many_args(t@),
{
    proof {
        reveal(msg_too_many_args);
    }
    let mut m = String::from_str("There are too many arguments at line ");
    m.append(usize_to_string(t.line_number).as_str());
    m.append(" at ");
    m.append(t.lexeme.as_str());
    m.append(".");
    m
}

/// Builds the report for a token no primary rule accepts.
fn mk_msg_primary(t: &Token) -> (r: String)
    ensures
        r@ == msg_primary(t@),
{
    proof {
        reveal(msg_primary);
    }
    let mut m = String::from_str("Parsering error occurs for finding nothing to match with at line ");
    m.append(usize_to_string(t.line_number).as_str());
    m.append(" in ");
    m.append(t.lexeme.as_str());
    m.append(".");
    m
}

/// Builds the report for a string token without a string payload.
fn mk_msg_bad_string(t: &Token) -> (r: String)
    ensures
        r@ == msg_bad_string(t@),
{
    proof {
        reveal(msg_bad_string);
    }
    let mut m = String::from_str("Error occur at parsering String at line ");
    m.append(usize_to_string(t.line_number).as_str());
    m.append(" in ");
    m.append(t.lexeme.as_str());
    m.append(", Maybe an error from Scanner.");
    m
}

/// Builds the report for a number token without a number payload.
fn mk_msg_bad_number(t: &Token) -> (r: String)
    ensures
        r@ == msg_bad_number(t@),
{
    proof {
        reveal(msg_bad_number);
    }
    let mut m = String::from_str("Error occur at parsering Number at line ");
    m.append(usize_to_string(t.line_number).as_str());
    m.append(" in ");
    m.append(t.lexeme.as_str());
    m.append(", Maybe an error from Scanner.");
    m
}



} // verus!
