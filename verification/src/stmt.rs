//! Statements of the syntax tree.

use vstd::prelude::*;
use crate::token::{Token, TokV};
use crate::expr::{Expr, SExpr};

verus! {

/// A statement node. Each node exclusively owns its children.
#[verifier::ext_equal]
#[derive(Debug)]
pub enum Stmt {
    Expression(Expr),
    Print(Expr),
    Let { name: Token, initializer: Expr },
    Block { statements: Vec<Stmt> },
    If { condition: Expr, then_branch: Box<Stmt>, else_branch: Option<Box<Stmt>> },
    While { condition: Expr, body: Box<Stmt> },
    Function { name: Token, params: Vec<Token>, body: Box<Stmt> },
    Return { keyword: Token, value: Expr },
}

/// The mathematical model of a statement. A function's parameters are
/// modelled by their names.
#[verifier::ext_equal]
pub enum SStmt {

    ExpressionS { e: SExpr },
    PrintS { e: SExpr },
    LetS { name: TokV, init: SExpr },
    BlockS { stmts: Seq<SStmt> },
    IfS { cond: SExpr, then_b: Box<SStmt>, else_b: Option<Box<SStmt>> },
    WhileS { cond: SExpr, body: Box<SStmt> },
    FunctionS { name: TokV, params: Seq<Seq<char>>, body: Box<SStmt> },
    ReturnS { keyword: TokV, value: SExpr },
}

/// The models of a sequence of statements.
pub open spec fn stmts_view(s: Seq<Stmt>) -> Seq<SStmt>
    decreases s,
{
    if s.len() == 0 {
        Seq::empty()
    } else {
        stmts_view(s.subrange(0, s.len() - 1)).push(s[s.len() - 1].view())
    }
}

/// The lexemes of a sequence of tokens.
pub open spec fn lexemes_view(s: Seq<Token>) -> Seq<Seq<char>> {
    s.map_values(|t: Token| t.lexeme@)
}

impl View for Stmt {
    type V = SStmt;

    open spec fn view(&self) -> SStmt
        decreases self,
    {
        match self {
            Stmt::Expression(e) => SStmt::ExpressionS { e: e@ },
            Stmt::Print(e) => SStmt::PrintS { e: e@ },
            Stmt::Let { name, initializer } => SStmt::LetS { name: name@, init: initializer@ },
            Stmt::Block { statements } => SStmt::BlockS {
                stmts: stmts_view(statements@),
            },
            Stmt::If { condition, then_branch, else_branch } => SStmt::IfS {
                cond: condition@,
                then_b: Box::new((**then_branch).view()),
                else_b: match else_branch {
                    Option::Some(s) => Option::Some(Box::new((**s).view())),
                    Option::None => Option::None,
                },
            },
            Stmt::While { condition, body } => SStmt::WhileS {
                cond: condition@,
                body: Box::new((**body).view()),
            },
            Stmt::Function { name, params, body } => SStmt::FunctionS {
                name: name@,
                params: lexemes_view(params@),
                body: Box::new((**body).view()),
            },
            Stmt::Return { keyword, value } => SStmt::ReturnS { keyword: keyword@, value: value@ },
        }
    }
}

/// `stmts_view` maps the view over the elements.
pub broadcast proof fn lemma_stmts_view(s: Seq<Stmt>)
    ensures
        (#[trigger] stmts_view(s)).len() == s.len(),
        forall |i: int| 0 <= i < s.len() ==> stmts_view(s)[i] == #[trigger] s[i]@,
    decreases s.len(),
{
    if s.len() > 0 {
        let t = s.subrange(0, s.len() - 1);
        lemma_stmts_view(t);
        assert(stmts_view(s) == stmts_view(t).push(s[s.len() - 1].view()));
        assert forall |i: int| 0 <= i < s.len() implies stmts_view(s)[i] == #[trigger] s[i]@ by {
            if i < s.len() - 1 {
                assert(t[i] == s[i]);
            }
        }
    }
}

impl Stmt {
    /// An explicit deep copy with the same model as the original.
    pub fn duplicate(&self) -> (r: Stmt)
        ensures
            r@ == self@,
        decreases self,
    {
        match self {
            Stmt::Expression(e) => Stmt::Expression(e.duplicate()),
            Stmt::Print(e) => Stmt::Print(e.duplicate()),
            Stmt::Let { name, initializer } => Stmt::Let {
                name: name.duplicate(),
                initializer: initializer.duplicate(),
            },
            Stmt::Block { statements } => {
                let r = Stmt::Block { statements: duplicate_stmts(statements) };
                proof {
                    assert(r@ =~~= self@);
                }
                r
            },
            Stmt::If { condition, then_branch, else_branch } => Stmt::If {
                condition: condition.duplicate(),
                then_branch: Box::new(then_branch.duplicate()),
                else_branch: match else_branch {
                    Option::Some(s) => Option::Some(Box::new(s.duplicate())),
                    Option::None => Option::None,
                },
            },
            Stmt::While { condition, body } => Stmt::While {
                condition: condition.duplicate(),
                body: Box::new(body.duplicate()),
            },
            Stmt::Function { name, params, body } => {
                let r = Stmt::Function {
                    name: name.duplicate(),
                    params: duplicate_tokens(params),
                    body: Box::new(body.duplicate()),
                };
                proof {
                    assert(r@ =~~= self@);
                }
                r
            },
            Stmt::Return { keyword, value } => Stmt::Return {
                keyword: keyword.duplicate(),
                value: value.duplicate(),
            },
        }
    }
}

/// An explicit deep copy of a vector of statements, element models kept.
pub fn duplicate_stmts(v: &Vec<Stmt>) -> (r: Vec<Stmt>)
    ensures
        r@.len() == v@.len(),
        stmts_view(r@) == stmts_view(v@),
        forall |j: int| 0 <= j < v@.len() ==> #[trigger] r@[j]@ == v@[j]@,
    decreases v@,
{
    let mut r: Vec<Stmt> = Vec::new();
    let n = v.len();
    for i in 0..n
        invariant
            n == v.len(),
            r.len() == i,
            forall |j: int| 0 <= j < i ==> #[trigger] r@[j]@ == v@[j]@,
        decreases n - i,
    {
        r.push(v[i].duplicate());
    }
    proof {
        lemma_stmts_view(r@);
        lemma_stmts_view(v@);
        assert forall |i: int| 0 <= i < r@.len() implies stmts_view(r@)[i] == stmts_view(v@)[i] by {
            assert(stmts_view(r@)[i] == r@[i]@);
            assert(stmts_view(v@)[i] == v@[i]@);
            assert(r@[i]@ == v@[i]@);
        }
        assert(stmts_view(r@) =~= stmts_view(v@));
    }
    r
}

/// An explicit copy of a vector of tokens.
pub fn duplicate_tokens(v: &Vec<Token>) -> (r: Vec<Token>)
    ensures
        r@ == v@,
{
    let mut r: Vec<Token> = Vec::new();
    let n = v.len();
    for i in 0..n
        invariant
            n == v.len(),
            r.len() == i,
            forall |j: int| 0 <= j < i ==> r@[j] == v@[j],
        decreases n - i,
    {
        r.push(v[i].duplicate());
    }
    proof {
        assert(r@ =~= v@);
    }
    r
}

/// Which statements model to a block or a function declaration.
pub proof fn lemma_stmt_view_shape(s: Stmt)
    ensures
        s is Block <==> s@ is BlockS,
        s is Function <==> s@ is FunctionS,
{
    match s {
        Stmt::Expression(_) => { assert(s@ is ExpressionS); },
        Stmt::Print(_) => { assert(s@ is PrintS); },
        Stmt::Let { .. } => { assert(s@ is LetS); },
        Stmt::Block { .. } => { assert(s@ is BlockS); },
        Stmt::If { .. } => { assert(s@ is IfS); },
        Stmt::While { .. } => { assert(s@ is WhileS); },
        Stmt::Function { .. } => { assert(s@ is FunctionS); },
        Stmt::Return { .. } => { assert(s@ is ReturnS); },
    }
}

} // verus!
