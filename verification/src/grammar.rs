//! The grammar: the mathematical model of parsing.
//!
//! The `sp_` functions state, position by position, what the recursive
//! descent with precedence climbing and per-statement error
//! synchronization produces; `Parser` in the parser module is proved to
//! follow them exactly.

use vstd::prelude::*;
use crate::expr::{Expr, ExprLiteral, SExpr, SVal, exprs_view, lemma_exprs_view};
use crate::numerics::{dec_seq, usize_to_string};
use crate::stmt::{Stmt, SStmt, stmts_view, lexemes_view, lemma_stmts_view};
use crate::token::{LiterialValue, LitV, Token, TokenType, TokV};
use crate::scanner::toks_view;

verus! {

/// A well-formed token stream: non-empty, ended by exactly one
/// end-marker token, which appears nowhere else.
pub open spec fn wf_toks(toks: Seq<TokV>) -> bool {
    &&& toks.len() >= 1
    &&& toks[toks.len() - 1].kind == TokenType::Eof
    &&& forall |i: int| 0 <= i < toks.len() - 1 ==> (#[trigger] toks[i]).kind != TokenType::Eof
}

/// The measure that parsing recursion descends on: how many tokens are
/// left at `pos`.
pub open spec fn rem(toks: Seq<TokV>, pos: nat) -> int {
    if pos <= toks.len() { toks.len() - pos } else { 0 }
}

/// A position reached from `pos`, kept strictly past it and within the
/// stream; a successful parse never leaves that range.
pub open spec fn bump(pos: nat, p: nat, len: nat) -> nat {
    if pos < p && p <= len { p } else if pos + 1 <= len { pos + 1 } else { len }
}

/// The result of parsing one expression: the node and the position that
/// follows it, or a report and the position where parsing stopped.
pub enum PExpr {
    Parsed(SExpr, nat),
    Failed(Seq<char>, nat),
}

/// The result of parsing one statement.
pub enum PStmt {
    ParsedS(SStmt, nat),
    FailedS(Seq<char>, nat),
}

/// The result of parsing an argument list.
pub enum PArgs {
    ParsedA(Seq<SExpr>, nat),
    FailedA(Seq<char>, nat),
}

/// The result of parsing a parameter list.
pub enum PParams {
    ParsedP(Seq<TokV>, nat),
    FailedP(Seq<char>, nat),
}

/// The result of parsing a whole program: the statements, and the
/// reports collected across synchronization.
#[verifier::ext_equal]
pub struct SParse {
    pub stmts: Seq<SStmt>,
    pub errs: Seq<Seq<char>>,
}

/// The printed name of a token kind.
#[verifier::opaque]
pub open spec fn kind_name(t: TokenType) -> Seq<char> {
    match t {
        TokenType::LeftParen => "LeftParen"@,
        TokenType::RightParen => "RightParen"@,
        TokenType::LeftBrace => "LeftBrace"@,
        TokenType::RightBrace => "RightBrace"@,
        TokenType::Comma => "Comma"@,
        TokenType::Dot => "Dot"@,
        TokenType::Minus => "Minus"@,
        TokenType::Plus => "Plus"@,
        TokenType::Semicolon => "Semicolon"@,
        TokenType::Slash => "Slash"@,
        TokenType::Star => "Star"@,
        TokenType::Bang => "Bang"@,
        TokenType::BangEqual => "BangEqual"@,
        TokenType::Equal => "Equal"@,
        TokenType::EqualEqual => "EqualEqual"@,
        TokenType::Greater => "Greater"@,
        TokenType::GreaterEqual => "GreaterEqual"@,
        TokenType::Less => "Less"@,
        TokenType::LessEqual => "LessEqual"@,
        TokenType::Identifier => "Identifier"@,
        TokenType::String => "String"@,
        TokenType::Number => "Number"@,
        TokenType::And => "And"@,
        TokenType::CLass => "CLass"@,
        TokenType::Else => "Else"@,
        TokenType::False => "False"@,
        TokenType::Fn => "Fn"@,
        TokenType::Fun => "Fun"@,
        TokenType::For => "For"@,
        TokenType::If => "If"@,
        TokenType::Nil => "Nil"@,
        TokenType::Or => "Or"@,
        TokenType::Print => "Print"@,
        TokenType::Return => "Return"@,
        TokenType::Super => "Super"@,
        TokenType::This => "This"@,
        TokenType::True => "True"@,
        TokenType::Let => "Let"@,
        TokenType::Var => "Var"@,
        TokenType::While => "While"@,
        TokenType::Eof => "Eof"@,
    }
}

/// The report for a required token that is not there.
#[verifier::opaque]
pub open spec fn msg_consume(tt: TokenType, t: TokV) -> Seq<char> {
    "Parsering error occur when consuming token "@ + kind_name(tt) + " at line: "@
        + dec_seq(t.line) + " in "@ + t.lexeme + "."@
}

/// The report for an assignment whose target is not a variable.
#[verifier::opaque]
pub open spec fn msg_assign_target(t: TokV) -> Seq<char> {
    "Error occurs when assignment at line: "@ + dec_seq(t.line) + " at "@ + t.lexeme + "."@
}

/// The report for an argument list over the hard cap.
#[verifier::opaque]
pub open spec fn msg_too_many_args(t: TokV) -> Seq<char> {
    "There are too many arguments at line "@ + dec_seq(t.line) + " at "@ + t.lexeme + "."@
}

/// The report for a token no primary rule accepts.
#[verifier::opaque]
pub open spec fn msg_primary(t: TokV) -> Seq<char> {
    "Parsering error occurs for finding nothing to match with at line "@ + dec_seq(t.line)
        + " in "@ + t.lexeme + "."@
}

/// The report for a string token that carries no string payload.
#[verifier::opaque]
pub open spec fn msg_bad_string(t: TokV) -> Seq<char> {
    "Error occur at parsering String at line "@ + dec_seq(t.line) + " in "@ + t.lexeme
        + ", Maybe an error from Scanner."@
}

/// The report for a number token that carries no number payload.
#[verifier::opaque]
pub open spec fn msg_bad_number(t: TokV) -> Seq<char> {
    "Error occur at parsering Number at line "@ + dec_seq(t.line) + " in "@ + t.lexeme
        + ", Maybe an error from Scanner."@
}

/// Whether a token kind opens a new declaration or statement, for error
/// synchronization.
pub open spec fn is_boundary_kind(k: TokenType) -> bool {
    ||| k == TokenType::CLass
    ||| k == TokenType::Fun
    ||| k == TokenType::Let
    ||| k == TokenType::Var
    ||| k == TokenType::For
    ||| k == TokenType::If
    ||| k == TokenType::While
    ||| k == TokenType::Print
    ||| k == TokenType::Return
}

/// Where synchronization stops once the offending token is consumed:
/// right after a semicolon, or before the next boundary keyword, or at
/// the end of the stream.
pub open spec fn sp_sync_from(toks: Seq<TokV>, pos: nat) -> nat
    decreases rem(toks, pos),
{
    if pos >= toks.len() {
        pos
    } else if toks[pos as int].kind == TokenType::Eof {
        pos
    } else if pos >= 1 && toks[pos - 1].kind == TokenType::Semicolon {
        pos
    } else if is_boundary_kind(toks[pos as int].kind) {
        pos
    } else {
        sp_sync_from(toks, pos + 1)
    }
}

/// Synchronization from an error at `pos`: the offending token is
/// consumed, then tokens are discarded until a statement boundary.
pub open spec fn sp_sync(toks: Seq<TokV>, pos: nat) -> nat {
    if pos < toks.len() && toks[pos as int].kind != TokenType::Eof {
        sp_sync_from(toks, pos + 1)
    } else {
        sp_sync_from(toks, pos)
    }
}

/// primary: literals, identifiers, and parenthesized sub-expressions.
pub open spec fn sp_primary(toks: Seq<TokV>, pos: nat) -> PExpr
    decreases rem(toks, pos), 20int,
{
    if pos >= toks.len() {
        PExpr::Failed(Seq::empty(), pos)
    } else {
        let t = toks[pos as int];
        let t2 = if pos + 1 < toks.len() { toks[pos as int + 1] } else { t };
        if t.kind == TokenType::False {
            PExpr::Parsed(SExpr::LiteralE { value: SVal::FalseV }, pos + 1)
        } else if t.kind == TokenType::True {
            PExpr::Parsed(SExpr::LiteralE { value: SVal::TrueV }, pos + 1)
        } else if t.kind == TokenType::Nil {
            PExpr::Parsed(SExpr::LiteralE { value: SVal::NilV }, pos + 1)
        } else if t.kind == TokenType::String {
            match t.lit {
                Option::Some(LitV::StringV(s)) =>
                    PExpr::Parsed(SExpr::LiteralE { value: SVal::StrV(s) }, pos + 1),
                _ => PExpr::Failed(msg_bad_string(t2), pos + 1),
            }
        } else if t.kind == TokenType::Number {
            match t.lit {
                Option::Some(LitV::FloatV(b)) =>
                    PExpr::Parsed(SExpr::LiteralE { value: SVal::NumV(b) }, pos + 1),
                _ => PExpr::Failed(msg_bad_number(t2), pos + 1),
            }
        } else if t.kind == TokenType::Identifier {
            PExpr::Parsed(SExpr::VariableE { name: t }, pos + 1)
        } else if t.kind == TokenType::LeftParen {
            match sp_expression(toks, pos + 1) {
                PExpr::Failed(m, p) => PExpr::Failed(m, p),
                PExpr::Parsed(e, p1) => {
                    let q = bump(pos, p1, toks.len());
                    if q < toks.len() && toks[q as int].kind == TokenType::RightParen
                        && toks[q as int].kind != TokenType::Eof {
                        PExpr::Parsed(SExpr::GroupingE { inner: Box::new(e) }, q + 1)
                    } else {
                        PExpr::Failed(msg_consume(TokenType::RightParen, toks[q as int]), q)
                    }
                },
            }
        } else {
            PExpr::Failed(msg_primary(t), pos)
        }
    }
}

/// arguments: expressions separated by commas.
pub open spec fn sp_args_rest(toks: Seq<TokV>, pos: nat, acc: Seq<SExpr>) -> PArgs
    decreases rem(toks, pos), 44int,
{
    if pos < toks.len() && toks[pos as int].kind == TokenType::Comma
        && toks[pos as int].kind != TokenType::Eof {
        match sp_expression(toks, pos + 1) {
            PExpr::Failed(m, p) => PArgs::FailedA(m, p),
            PExpr::Parsed(e, p1) => sp_args_rest(toks, bump(pos, p1, toks.len()), acc.push(e)),
        }
    } else {
        PArgs::ParsedA(acc, pos)
    }
}

/// The first argument, then the rest.
pub open spec fn sp_args(toks: Seq<TokV>, pos: nat) -> PArgs
    decreases rem(toks, pos), 45int,
{
    match sp_expression(toks, pos) {
        PExpr::Failed(m, p) => PArgs::FailedA(m, p),
        PExpr::Parsed(e, p1) => sp_args_rest(toks, bump(pos, p1, toks.len()), seq![e]),
    }
}

/// One application: the argument list and closing parenthesis after an
/// already-consumed opening parenthesis, with the cap on how many
/// arguments a call may pass.
pub open spec fn sp_finish_call(toks: Seq<TokV>, pos: nat, callee: SExpr) -> PExpr
    decreases rem(toks, pos), 46int,
{
    let argr = if pos < toks.len() && toks[pos as int].kind == TokenType::RightParen {
        PArgs::ParsedA(Seq::empty(), pos)
    } else {
        sp_args(toks, pos)
    };
    match argr {
        PArgs::FailedA(m, p) => PExpr::Failed(m, p),
        PArgs::ParsedA(args, p1) => {
            let q = if pos <= p1 && p1 <= toks.len() { p1 } else { pos };
            if q < toks.len() && toks[q as int].kind == TokenType::RightParen
                && toks[q as int].kind != TokenType::Eof {
                if args.len() >= 255 {
                    PExpr::Failed(msg_too_many_args(toks[q as int]), q + 1)
                } else {
                    PExpr::Parsed(SExpr::CallE {
                        callee: Box::new(callee),
                        paren: toks[q as int],
                        args,
                    }, q + 1)
                }
            } else {
                PExpr::Failed(msg_consume(TokenType::RightParen, toks[q as int]), q)
            }
        },
    }
}

/// call: chained invocation of a primary.
pub open spec fn sp_call_rest(toks: Seq<TokV>, pos: nat, acc: SExpr) -> PExpr
    decreases rem(toks, pos), 24int,
{
    if pos < toks.len() && toks[pos as int].kind == TokenType::LeftParen
        && toks[pos as int].kind != TokenType::Eof {
        match sp_finish_call(toks, pos + 1, acc) {
            PExpr::Failed(m, p) => PExpr::Failed(m, p),
            PExpr::Parsed(e, p1) => sp_call_rest(toks, bump(pos, p1, toks.len()), e),
        }
    } else {
        PExpr::Parsed(acc, pos)
    }
}

/// call: a primary and any chain of applications.
pub open spec fn sp_call(toks: Seq<TokV>, pos: nat) -> PExpr
    decreases rem(toks, pos), 25int,
{
    match sp_primary(toks, pos) {
        PExpr::Failed(m, p) => PExpr::Failed(m, p),
        PExpr::Parsed(e, p1) => sp_call_rest(toks, bump(pos, p1, toks.len()), e),
    }
}

/// unary: `!` or `-` applied to a unary, or a call.
pub open spec fn sp_unary(toks: Seq<TokV>, pos: nat) -> PExpr
    decreases rem(toks, pos), 26int,
{
    if pos < toks.len()
        && (toks[pos as int].kind == TokenType::Bang || toks[pos as int].kind == TokenType::Minus) {
        match sp_unary(toks, pos + 1) {
            PExpr::Failed(m, p) => PExpr::Failed(m, p),
            PExpr::Parsed(e, p1) => PExpr::Parsed(SExpr::UnaryE {
                op: toks[pos as int],
                right: Box::new(e),
            }, p1),
        }
    } else {
        sp_call(toks, pos)
    }
}

/// factor: left-associative `/` and `*` over unaries.
pub open spec fn sp_factor_rest(toks: Seq<TokV>, pos: nat, acc: SExpr) -> PExpr
    decreases rem(toks, pos), 27int,
{
    if pos < toks.len()
        && (toks[pos as int].kind == TokenType::Slash || toks[pos as int].kind == TokenType::Star) {
        match sp_unary(toks, pos + 1) {
            PExpr::Failed(m, p) => PExpr::Failed(m, p),
            PExpr::Parsed(e, p1) => sp_factor_rest(toks, bump(pos, p1, toks.len()), SExpr::BinaryE {
                left: Box::new(acc),
                op: toks[pos as int],
                right: Box::new(e),
            }),
        }
    } else {
        PExpr::Parsed(acc, pos)
    }
}

/// factor: a unary and any chain of `/` or `*`.
pub open spec fn sp_factor(toks: Seq<TokV>, pos: nat) -> PExpr
    decreases rem(toks, pos), 28int,
{
    match sp_unary(toks, pos) {
        PExpr::Failed(m, p) => PExpr::Failed(m, p),
        PExpr::Parsed(e, p1) => sp_factor_rest(toks, bump(pos, p1, toks.len()), e),
    }
}

/// term: left-associative `-` and `+` over factors.
pub open spec fn sp_term_rest(toks: Seq<TokV>, pos: nat, acc: SExpr) -> PExpr
    decreases rem(toks, pos), 29int,
{
    if pos < toks.len()
        && (toks[pos as int].kind == TokenType::Minus || toks[pos as int].kind == TokenType::Plus) {
        match sp_factor(toks, pos + 1) {
            PExpr::Failed(m, p) => PExpr::Failed(m, p),
            PExpr::Parsed(e, p1) => sp_term_rest(toks, bump(pos, p1, toks.len()), SExpr::BinaryE {
                left: Box::new(acc),
                op: toks[pos as int],
                right: Box::new(e),
            }),
        }
    } else {
        PExpr::Parsed(acc, pos)
    }
}

/// term: a factor and any chain of `-` or `+`.
pub open spec fn sp_term(toks: Seq<TokV>, pos: nat) -> PExpr
    decreases rem(toks, pos), 30int,
{
    match sp_factor(toks, pos) {
        PExpr::Failed(m, p) => PExpr::Failed(m, p),
        PExpr::Parsed(e, p1) => sp_term_rest(toks, bump(pos, p1, toks.len()), e),
    }
}

/// Whether a token kind is a comparison operator.
pub open spec fn is_comparison_kind(k: TokenType) -> bool {
    ||| k == TokenType::Greater
    ||| k == TokenType::GreaterEqual
    ||| k == TokenType::Less
    ||| k == TokenType::LessEqual
}

/// comparison: left-associative relational operators over terms.
pub open spec fn sp_comparison_rest(toks: Seq<TokV>, pos: nat, acc: SExpr) -> PExpr
    decreases rem(toks, pos), 31int,
{
    if pos < toks.len() && is_comparison_kind(toks[pos as int].kind) {
        match sp_term(toks, pos + 1) {
            PExpr::Failed(m, p) => PExpr::Failed(m, p),
            PExpr::Parsed(e, p1) => sp_comparison_rest(toks, bump(pos, p1, toks.len()), SExpr::BinaryE {
                left: Box::new(acc),
                op: toks[pos as int],
                right: Box::new(e),
            }),
        }
    } else {
        PExpr::Parsed(acc, pos)
    }
}

/// comparison: a term and any chain of relational operators.
pub open spec fn sp_comparison(toks: Seq<TokV>, pos: nat) -> PExpr
    decreases rem(toks, pos), 32int,
{
    match sp_term(toks, pos) {
        PExpr::Failed(m, p) => PExpr::Failed(m, p),
        PExpr::Parsed(e, p1) => sp_comparison_rest(toks, bump(pos, p1, toks.len()), e),
    }
}

/// equality: left-associative `!=` and `==` over comparisons.
pub open spec fn sp_equality_rest(toks: Seq<TokV>, pos: nat, acc: SExpr) -> PExpr
    decreases rem(toks, pos), 33int,
{
    if pos < toks.len()
        && (toks[pos as int].kind == TokenType::BangEqual
            || toks[pos as int].kind == TokenType::EqualEqual) {
        match sp_comparison(toks, pos + 1) {
            PExpr::Failed(m, p) => PExpr::Failed(m, p),
            PExpr::Parsed(e, p1) => sp_equality_rest(toks, bump(pos, p1, toks.len()), SExpr::BinaryE {
                left: Box::new(acc),
                op: toks[pos as int],
                right: Box::new(e),
            }),
        }
    } else {
        PExpr::Parsed(acc, pos)
    }
}

/// equality: a comparison and any chain of `!=` or `==`.
pub open spec fn sp_equality(toks: Seq<TokV>, pos: nat) -> PExpr
    decreases rem(toks, pos), 34int,
{
    match sp_comparison(toks, pos) {
        PExpr::Failed(m, p) => PExpr::Failed(m, p),
        PExpr::Parsed(e, p1) => sp_equality_rest(toks, bump(pos, p1, toks.len()), e),
    }
}

/// logic and: short-circuit conjunction over equalities.
pub open spec fn sp_logic_and_rest(toks: Seq<TokV>, pos: nat, acc: SExpr) -> PExpr
    decreases rem(toks, pos), 35int,
{
    if pos < toks.len() && toks[pos as int].kind == TokenType::And {
        match sp_equality(toks, pos + 1) {
            PExpr::Failed(m, p) => PExpr::Failed(m, p),
            PExpr::Parsed(e, p1) => sp_logic_and_rest(toks, bump(pos, p1, toks.len()), SExpr::LogicalE {
                left: Box::new(acc),
                op: toks[pos as int],
                right: Box::new(e),
            }),
        }
    } else {
        PExpr::Parsed(acc, pos)
    }
}

/// logic and: an equality and any chain of `and`.
pub open spec fn sp_logic_and(toks: Seq<TokV>, pos: nat) -> PExpr
    decreases rem(toks, pos), 36int,
{
    match sp_equality(toks, pos) {
        PExpr::Failed(m, p) => PExpr::Failed(m, p),
        PExpr::Parsed(e, p1) => sp_logic_and_rest(toks, bump(pos, p1, toks.len()), e),
    }
}

/// logic or: short-circuit disjunction over conjunctions.
pub open spec fn sp_logic_or_rest(toks: Seq<TokV>, pos: nat, acc: SExpr) -> PExpr
    decreases rem(toks, pos), 37int,
{
    if pos < toks.len() && toks[pos as int].kind == TokenType::Or {
        match sp_logic_and(toks, pos + 1) {
            PExpr::Failed(m, p) => PExpr::Failed(m, p),
            PExpr::Parsed(e, p1) => sp_logic_or_rest(toks, bump(pos, p1, toks.len()), SExpr::LogicalE {
                left: Box::new(acc),
                op: toks[pos as int],
                right: Box::new(e),
            }),
        }
    } else {
        PExpr::Parsed(acc, pos)
    }
}

/// logic or: a conjunction and any chain of `or`.
pub open spec fn sp_logic_or(toks: Seq<TokV>, pos: nat) -> PExpr
    decreases rem(toks, pos), 38int,
{
    match sp_logic_and(toks, pos) {
        PExpr::Failed(m, p) => PExpr::Failed(m, p),
        PExpr::Parsed(e, p1) => sp_logic_or_rest(toks, bump(pos, p1, toks.len()), e),
    }
}

/// assignment: a target must be a plain variable reference.
pub open spec fn sp_assignment(toks: Seq<TokV>, pos: nat) -> PExpr
    decreases rem(toks, pos), 39int,
{
    match sp_logic_or(toks, pos) {
        PExpr::Failed(m, p) => PExpr::Failed(m, p),
        PExpr::Parsed(e, p1) => {
            let q = bump(pos, p1, toks.len());
            if q < toks.len() && toks[q as int].kind == TokenType::Equal
                && toks[q as int].kind != TokenType::Eof {
                match sp_assignment(toks, q + 1) {
                    PExpr::Failed(m, p) => PExpr::Failed(m, p),
                    PExpr::Parsed(v, p2) => match e {
                        SExpr::VariableE { name } => PExpr::Parsed(SExpr::AssignE {
                            name,
                            value: Box::new(v),
                        }, p2),
                        _ => PExpr::Failed(msg_assign_target(toks[q as int]), p2),
                    },
                }
            } else {
                PExpr::Parsed(e, p1)
            }
        },
    }
}

/// expression: an assignment.
pub open spec fn sp_expression(toks: Seq<TokV>, pos: nat) -> PExpr
    decreases rem(toks, pos), 40int,
{
    sp_assignment(toks, pos)
}


/// print statement: an expression ended by a semicolon.
pub open spec fn sp_print_statement(toks: Seq<TokV>, pos: nat) -> PStmt
    decreases rem(toks, pos), 46int,
{
    match sp_expression(toks, pos) {
        PExpr::Failed(m, p) => PStmt::FailedS(m, p),
        PExpr::Parsed(e, p1) => {
            let q = bump(pos, p1, toks.len());
            if q < toks.len() && toks[q as int].kind == TokenType::Semicolon {
                PStmt::ParsedS(SStmt::PrintS { e }, q + 1)
            } else {
                PStmt::FailedS(msg_consume(TokenType::Semicolon, if q < toks.len() { toks[q as int] } else { toks[pos as int] }), q)
            }
        },
    }
}

/// expression statement: an expression ended by a semicolon.
pub open spec fn sp_expression_statement(toks: Seq<TokV>, pos: nat) -> PStmt
    decreases rem(toks, pos), 46int,
{
    match sp_expression(toks, pos) {
        PExpr::Failed(m, p) => PStmt::FailedS(m, p),
        PExpr::Parsed(e, p1) => {
            let q = bump(pos, p1, toks.len());
            if q < toks.len() && toks[q as int].kind == TokenType::Semicolon {
                PStmt::ParsedS(SStmt::ExpressionS { e }, q + 1)
            } else {
                PStmt::FailedS(msg_consume(TokenType::Semicolon, if q < toks.len() { toks[q as int] } else { toks[pos as int] }), q)
            }
        },
    }
}

/// block: declarations until the matching closing brace.
pub open spec fn sp_block_rest(toks: Seq<TokV>, pos: nat, acc: Seq<SStmt>) -> PStmt
    decreases rem(toks, pos), 53int,
{
    if pos >= toks.len() {
        PStmt::FailedS(Seq::empty(), pos)
    } else if toks[pos as int].kind == TokenType::RightBrace {
        PStmt::ParsedS(SStmt::BlockS { stmts: acc }, pos + 1)
    } else if toks[pos as int].kind == TokenType::Eof {
        PStmt::FailedS(msg_consume(TokenType::RightBrace, toks[pos as int]), pos)
    } else {
        match sp_declaration(toks, pos) {
            PStmt::FailedS(m, p) => PStmt::FailedS(m, p),
            PStmt::ParsedS(s, p1) => sp_block_rest(toks, bump(pos, p1, toks.len()), acc.push(s)),
        }
    }
}

/// block: the declarations after an already-consumed opening brace.
pub open spec fn sp_block(toks: Seq<TokV>, pos: nat) -> PStmt
    decreases rem(toks, pos), 54int,
{
    sp_block_rest(toks, pos, Seq::empty())
}

/// if statement: parenthesized condition, a then branch, and an
/// optional else branch.
pub open spec fn sp_if_statement(toks: Seq<TokV>, pos: nat) -> PStmt
    decreases rem(toks, pos), 46int,
{
    if pos >= toks.len() || toks[pos as int].kind != TokenType::LeftParen
        || toks[pos as int].kind == TokenType::Eof {
        PStmt::FailedS(msg_consume(TokenType::LeftParen, if pos < toks.len() { toks[pos as int] } else { TokV { kind: TokenType::Eof, lexeme: Seq::empty(), lit: Option::None, line: 0 } }), pos)
    } else {
        match sp_expression(toks, pos + 1) {
            PExpr::Failed(m, p) => PStmt::FailedS(m, p),
            PExpr::Parsed(cond, p1) => {
                let q = bump(pos, p1, toks.len());
                if q < toks.len() && toks[q as int].kind == TokenType::RightParen {
                    match sp_statement(toks, q + 1) {
                        PStmt::FailedS(m, p) => PStmt::FailedS(m, p),
                        PStmt::ParsedS(then_b, p2) => {
                            let q2 = bump(q, p2, toks.len());
                            if q2 < toks.len() && toks[q2 as int].kind == TokenType::Else {
                                match sp_statement(toks, q2 + 1) {
                                    PStmt::FailedS(m, p) => PStmt::FailedS(m, p),
                                    PStmt::ParsedS(else_b, p3) => PStmt::ParsedS(SStmt::IfS {
                                        cond,
                                        then_b: Box::new(then_b),
                                        else_b: Option::Some(Box::new(else_b)),
                                    }, p3),
                                }
                            } else {
                                PStmt::ParsedS(SStmt::IfS {
                                    cond,
                                    then_b: Box::new(then_b),
                                    else_b: Option::None,
                                }, q2)
                            }
                        },
                    }
                } else {
                    PStmt::FailedS(msg_consume(TokenType::RightParen, if q < toks.len() { toks[q as int] } else { toks[pos as int] }), q)
                }
            },
        }
    }
}

/// while statement: parenthesized condition and a body.
pub open spec fn sp_while_statement(toks: Seq<TokV>, pos: nat) -> PStmt
    decreases rem(toks, pos), 46int,
{
    if pos >= toks.len() || toks[pos as int].kind != TokenType::LeftParen
        || toks[pos as int].kind == TokenType::Eof {
        PStmt::FailedS(msg_consume(TokenType::LeftParen, if pos < toks.len() { toks[pos as int] } else { TokV { kind: TokenType::Eof, lexeme: Seq::empty(), lit: Option::None, line: 0 } }), pos)
    } else {
        match sp_expression(toks, pos + 1) {
            PExpr::Failed(m, p) => PStmt::FailedS(m, p),
            PExpr::Parsed(cond, p1) => {
                let q = bump(pos, p1, toks.len());
                if q < toks.len() && toks[q as int].kind == TokenType::RightParen {
                    match sp_statement(toks, q + 1) {
                        PStmt::FailedS(m, p) => PStmt::FailedS(m, p),
                        PStmt::ParsedS(body, p2) => PStmt::ParsedS(SStmt::WhileS {
                            cond,
                            body: Box::new(body),
                        }, p2),
                    }
                } else {
                    PStmt::FailedS(msg_consume(TokenType::RightParen, if q < toks.len() { toks[q as int] } else { toks[pos as int] }), q)
                }
            },
        }
    }
}

/// return statement: an optional value, defaulting to nil.
pub open spec fn sp_return_statement(toks: Seq<TokV>, kw: TokV, pos: nat) -> PStmt
    decreases rem(toks, pos), 46int,
{
    if pos < toks.len() && toks[pos as int].kind == TokenType::Semicolon {
        PStmt::ParsedS(SStmt::ReturnS { keyword: kw, value: SExpr::LiteralE { value: SVal::NilV } }, pos + 1)
    } else {
        match sp_expression(toks, pos) {
            PExpr::Failed(m, p) => PStmt::FailedS(m, p),
            PExpr::Parsed(e, p1) => {
                let q = bump(pos, p1, toks.len());
                if q < toks.len() && toks[q as int].kind == TokenType::Semicolon {
                    PStmt::ParsedS(SStmt::ReturnS { keyword: kw, value: e }, q + 1)
                } else {
                    PStmt::FailedS(msg_consume(TokenType::Semicolon, if q < toks.len() { toks[q as int] } else { toks[pos as int] }), q)
                }
            },
        }
    }
}

/// let declaration: a name, an optional initializer defaulting to nil,
/// and a semicolon; entered after the `let` or `var` keyword.
pub open spec fn sp_let_declaration(toks: Seq<TokV>, pos: nat) -> PStmt
    decreases rem(toks, pos), 46int,
{
    if pos >= toks.len() || toks[pos as int].kind != TokenType::Identifier {
        PStmt::FailedS(msg_consume(TokenType::Identifier, if pos < toks.len() { toks[pos as int] } else { TokV { kind: TokenType::Eof, lexeme: Seq::empty(), lit: Option::None, line: 0 } }), pos)
    } else {
        let name = toks[pos as int];
        if pos + 1 < toks.len() && toks[pos as int + 1].kind == TokenType::Equal {
            match sp_expression(toks, pos + 2) {
                PExpr::Failed(m, p) => PStmt::FailedS(m, p),
                PExpr::Parsed(e, p1) => {
                    let q = bump(pos + 1, p1, toks.len());
                    if q < toks.len() && toks[q as int].kind == TokenType::Semicolon {
                        PStmt::ParsedS(SStmt::LetS { name, init: e }, q + 1)
                    } else {
                        PStmt::FailedS(msg_consume(TokenType::Semicolon, if q < toks.len() { toks[q as int] } else { toks[pos as int] }), q)
                    }
                },
            }
        } else {
            if pos + 1 < toks.len() && toks[pos as int + 1].kind == TokenType::Semicolon {
                PStmt::ParsedS(SStmt::LetS { name, init: SExpr::LiteralE { value: SVal::NilV } }, pos + 2)
            } else {
                PStmt::FailedS(msg_consume(TokenType::Semicolon, if pos + 1 < toks.len() { toks[pos as int + 1] } else { toks[pos as int] }), pos + 1)
            }
        }
    }
}

/// parameters: identifiers separated by commas.
pub open spec fn sp_params_rest(toks: Seq<TokV>, pos: nat, acc: Seq<TokV>) -> PParams
    decreases rem(toks, pos), 44int,
{
    if pos < toks.len() && toks[pos as int].kind == TokenType::Comma {
        if pos + 1 < toks.len() && toks[pos as int + 1].kind == TokenType::Identifier {
            sp_params_rest(toks, pos + 2, acc.push(toks[pos as int + 1]))
        } else {
            PParams::FailedP(msg_consume(TokenType::Identifier, if pos + 1 < toks.len() { toks[pos as int + 1] } else { toks[pos as int] }), pos + 1)
        }
    } else {
        PParams::ParsedP(acc, pos)
    }
}

/// function declaration: name, parameter list, block body; entered
/// after the `fun` keyword.
pub open spec fn sp_fun_declaration(toks: Seq<TokV>, pos: nat) -> PStmt
    decreases rem(toks, pos), 46int,
{
    if pos >= toks.len() || toks[pos as int].kind != TokenType::Identifier {
        PStmt::FailedS(msg_consume(TokenType::Identifier, if pos < toks.len() { toks[pos as int] } else { TokV { kind: TokenType::Eof, lexeme: Seq::empty(), lit: Option::None, line: 0 } }), pos)
    } else {
        let name = toks[pos as int];
        if !(pos + 1 < toks.len() && toks[pos as int + 1].kind == TokenType::LeftParen) {
            PStmt::FailedS(msg_consume(TokenType::LeftParen, if pos + 1 < toks.len() { toks[pos as int + 1] } else { toks[pos as int] }), pos + 1)
        } else {
            let pr = if pos + 2 < toks.len() && toks[pos as int + 2].kind == TokenType::RightParen {
                PParams::ParsedP(Seq::empty(), pos + 2)
            } else if pos + 2 < toks.len() && toks[pos as int + 2].kind == TokenType::Identifier {
                sp_params_rest(toks, pos + 3, seq![toks[pos as int + 2]])
            } else {
                PParams::FailedP(msg_consume(TokenType::Identifier, if pos + 2 < toks.len() { toks[pos as int + 2] } else { toks[pos as int] }), pos + 2)
            };
            match pr {
                PParams::FailedP(m, p) => PStmt::FailedS(m, p),
                PParams::ParsedP(params, p1) => {
                    let q = if pos + 2 <= p1 && p1 <= toks.len() { p1 } else { pos + 2 };
                    if q < toks.len() && toks[q as int].kind == TokenType::RightParen {
                        if q + 1 < toks.len() && toks[q as int + 1].kind == TokenType::LeftBrace {
                            match sp_block(toks, q + 2) {
                                PStmt::FailedS(m, p) => PStmt::FailedS(m, p),
                                PStmt::ParsedS(body, p2) => PStmt::ParsedS(SStmt::FunctionS {
                                    name,
                                    params: lexemes_of(params),
                                    body: Box::new(body),
                                }, p2),
                            }
                        } else {
                            PStmt::FailedS(msg_consume(TokenType::LeftBrace, if q + 1 < toks.len() { toks[q as int + 1] } else { toks[q as int] }), q + 1)
                        }
                    } else {
                        PStmt::FailedS(msg_consume(TokenType::RightParen, if q < toks.len() { toks[q as int] } else { toks[pos as int] }), q)
                    }
                },
            }
        }
    }
}

/// The names of a parameter list.
pub open spec fn lexemes_of(params: Seq<TokV>) -> Seq<Seq<char>> {
    params.map_values(|t: TokV| t.lexeme)
}

/// for statement, desugared: an optional initializer statement followed
/// by a while loop whose body appends the increment expression.
pub open spec fn sp_for_statement(toks: Seq<TokV>, pos: nat) -> PStmt
    decreases rem(toks, pos), 46int,
{
    if pos >= toks.len() || toks[pos as int].kind != TokenType::LeftParen {
        PStmt::FailedS(msg_consume(TokenType::LeftParen, if pos < toks.len() { toks[pos as int] } else { TokV { kind: TokenType::Eof, lexeme: Seq::empty(), lit: Option::None, line: 0 } }), pos)
    } else {
        let ir = if pos + 1 < toks.len() && toks[pos as int + 1].kind == TokenType::Semicolon {
            PStmt::ParsedS(SStmt::BlockS { stmts: Seq::empty() }, pos + 2)
        } else if pos + 1 < toks.len()
            && (toks[pos as int + 1].kind == TokenType::Let || toks[pos as int + 1].kind == TokenType::Var) {
            sp_let_declaration(toks, pos + 2)
        } else {
            sp_expression_statement(toks, pos + 1)
        };
        let has_init = !(pos + 1 < toks.len() && toks[pos as int + 1].kind == TokenType::Semicolon);
        match ir {
            PStmt::FailedS(m, p) => PStmt::FailedS(m, p),
            PStmt::ParsedS(init, pi) => {
                let q0 = bump(pos + 1, pi, toks.len());
                let has_cond = q0 < toks.len() && toks[q0 as int].kind != TokenType::Semicolon;
                let cr = if has_cond {
                    sp_expression(toks, q0)
                } else {
                    PExpr::Parsed(SExpr::LiteralE { value: SVal::TrueV }, q0)
                };
                match cr {
                    PExpr::Failed(m, p) => PStmt::FailedS(m, p),
                    PExpr::Parsed(cond, pc) => {
                        let q1 = if q0 <= pc && pc <= toks.len() { pc } else { q0 };
                        if q1 < toks.len() && toks[q1 as int].kind == TokenType::Semicolon {
                            let has_inc = q1 + 1 < toks.len()
                                && toks[q1 as int + 1].kind != TokenType::RightParen;
                            let nr = if has_inc {
                                sp_expression(toks, q1 + 1)
                            } else {
                                PExpr::Parsed(SExpr::LiteralE { value: SVal::NilV }, q1 + 1)
                            };
                            match nr {
                                PExpr::Failed(m, p) => PStmt::FailedS(m, p),
                                PExpr::Parsed(inc, pn) => {
                                    let q2 = if q1 + 1 <= pn && pn <= toks.len() { pn } else { q1 + 1 };
                                    if q2 < toks.len() && toks[q2 as int].kind == TokenType::RightParen {
                                        match sp_statement(toks, q2 + 1) {
                                            PStmt::FailedS(m, p) => PStmt::FailedS(m, p),
                                            PStmt::ParsedS(body, pb) => {
                                                let body2 = if has_inc {
                                                    SStmt::BlockS { stmts: seq![body, SStmt::ExpressionS { e: inc }] }
                                                } else {
                                                    body
                                                };
                                                let w = SStmt::WhileS { cond, body: Box::new(body2) };
                                                let out = if has_init {
                                                    SStmt::BlockS { stmts: seq![init, w] }
                                                } else {
                                                    w
                                                };
                                                PStmt::ParsedS(out, pb)
                                            },
                                        }
                                    } else {
                                        PStmt::FailedS(msg_consume(TokenType::RightParen, if q2 < toks.len() { toks[q2 as int] } else { toks[pos as int] }), q2)
                                    }
                                },
                            }
                        } else {
                            PStmt::FailedS(msg_consume(TokenType::Semicolon, if q1 < toks.len() { toks[q1 as int] } else { toks[pos as int] }), q1)
                        }
                    },
                }
            },
        }
    }
}

/// statement: print, block, if, while, for, return, or an expression
/// statement.
pub open spec fn sp_statement(toks: Seq<TokV>, pos: nat) -> PStmt
    decreases rem(toks, pos), 50int,
{
    if pos >= toks.len() {
        PStmt::FailedS(Seq::empty(), pos)
    } else if toks[pos as int].kind == TokenType::Print {
        sp_print_statement(toks, pos + 1)
    } else if toks[pos as int].kind == TokenType::LeftBrace {
        sp_block(toks, pos + 1)
    } else if toks[pos as int].kind == TokenType::If {
        sp_if_statement(toks, pos + 1)
    } else if toks[pos as int].kind == TokenType::While {
        sp_while_statement(toks, pos + 1)
    } else if toks[pos as int].kind == TokenType::For {
        sp_for_statement(toks, pos + 1)
    } else if toks[pos as int].kind == TokenType::Return {
        sp_return_statement(toks, toks[pos as int], pos + 1)
    } else {
        sp_expression_statement(toks, pos)
    }
}

/// declaration: a let or var declaration, a function declaration, or a
/// statement; a failure synchronizes to the next statement boundary.
pub open spec fn sp_declaration(toks: Seq<TokV>, pos: nat) -> PStmt
    decreases rem(toks, pos), 52int,
{
    if pos >= toks.len() {
        PStmt::FailedS(Seq::empty(), pos)
    } else if toks[pos as int].kind == TokenType::Let || toks[pos as int].kind == TokenType::Var {
        match sp_let_declaration(toks, pos + 1) {
            PStmt::ParsedS(s, p) => PStmt::ParsedS(s, p),
            PStmt::FailedS(m, p) => PStmt::FailedS(m, sp_sync(toks, p)),
        }
    } else if toks[pos as int].kind == TokenType::Fun {
        match sp_fun_declaration(toks, pos + 1) {
            PStmt::ParsedS(s, p) => PStmt::ParsedS(s, p),
            PStmt::FailedS(m, p) => PStmt::FailedS(m, sp_sync(toks, p)),
        }
    } else {
        match sp_statement(toks, pos) {
            PStmt::ParsedS(s, p) => PStmt::ParsedS(s, p),
            PStmt::FailedS(m, p) => PStmt::FailedS(m, sp_sync(toks, p)),
        }
    }
}

/// program: declarations until the end marker, collecting the report of
/// every failed statement while parsing goes on past it.
pub open spec fn sp_program(toks: Seq<TokV>, pos: nat) -> SParse
    decreases rem(toks, pos), 60int,
{
    if pos >= toks.len() || toks[pos as int].kind == TokenType::Eof {
        SParse { stmts: Seq::empty(), errs: Seq::empty() }
    } else {
        match sp_declaration(toks, pos) {
            PStmt::ParsedS(s, p) => {
                let r = sp_program(toks, bump(pos, p, toks.len()));
                SParse { stmts: seq![s] + r.stmts, errs: r.errs }
            },
            PStmt::FailedS(m, p) => {
                let r = sp_program(toks, bump(pos, p, toks.len()));
                SParse { stmts: r.stmts, errs: seq![m] + r.errs }
            },
        }
    }
}

/// Parse error reports joined, one per line.
pub open spec fn joined_lines(s: Seq<Seq<char>>) -> Seq<char>
    decreases s.len(),
{
    if s.len() == 0 {
        Seq::empty()
    } else if s.len() == 1 {
        s[0]
    } else {
        joined_lines(s.subrange(0, s.len() - 1)) + "\n"@ + s[s.len() - 1]
    }
}
} // verus!
