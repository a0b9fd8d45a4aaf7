//! Expressions of the syntax tree, and runtime values.

use vstd::prelude::*;
use crate::token::{Token, TokV};
use crate::callable::{Callable, SCallable};
use crate::numerics::{dbl_eq, dbl_render};

verus! {

/// A runtime value: number (IEEE double bit pattern), string, the two
/// booleans, nil, or a function. The same type doubles as the literal
/// payload of a `Literal` expression, where only the scalar variants occur.
#[verifier::ext_equal]
#[verifier::ext_equal]
#[derive(Debug)]
pub enum ExprLiteral {
    NumberLiteral(u64),
    StringLiteral(String),
    True,
    False,
    Nil,
    FunctionLiteral(Callable),
}

/// The mathematical model of a runtime value.
#[verifier::ext_equal]
pub enum SVal {
    NumV(u64),
    StrV(Seq<char>),
    TrueV,
    FalseV,
    NilV,
    FunV(SCallable),
}

impl View for ExprLiteral {
    type V = SVal;

    open spec fn view(&self) -> SVal
        decreases self,
    {
        match self {
            ExprLiteral::NumberLiteral(b) => SVal::NumV(*b),
            ExprLiteral::StringLiteral(s) => SVal::StrV(s@),
            ExprLiteral::True => SVal::TrueV,
            ExprLiteral::False => SVal::FalseV,
            ExprLiteral::Nil => SVal::NilV,
            ExprLiteral::FunctionLiteral(c) => SVal::FunV(c@),
        }
    }
}

/// Value equality: only operands of the same kind can be equal; numbers
/// compare as IEEE doubles, strings by content, booleans and nil by kind;
/// function values never compare equal.
pub open spec fn sval_eq(a: SVal, b: SVal) -> bool {
    match (a, b) {
        (SVal::NumV(x), SVal::NumV(y)) => dbl_eq(x, y),
        (SVal::StrV(x), SVal::StrV(y)) => x == y,
        (SVal::TrueV, SVal::TrueV) => true,
        (SVal::FalseV, SVal::FalseV) => true,
        (SVal::NilV, SVal::NilV) => true,
        _ => false,
    }
}

/// Truthiness: every value is truthy except nil and boolean false.
pub open spec fn truthy(v: SVal) -> bool {
    !(v is FalseV || v is NilV)
}

/// The textual rendering of a value: numbers in decimal form, booleans
/// and nil as words, strings verbatim.
pub open spec fn sval_render(v: SVal) -> Seq<char> {
    match v {
        SVal::NumV(b) => dbl_render(b),
        SVal::StrV(s) => s,
        SVal::TrueV => "True"@,
        SVal::FalseV => "False"@,
        SVal::NilV => "Nil"@,
        SVal::FunV(_) => "<function>"@,
    }
}

impl ExprLiteral {
    /// Value equality, as `sval_eq` states it.
    pub fn is_equal(&self, other: &ExprLiteral) -> (r: bool)
        ensures
            r == sval_eq(self@, other@),
    {
        match (self, other) {
            (ExprLiteral::NumberLiteral(x), ExprLiteral::NumberLiteral(y)) => {
                crate::numerics::dbl_eq_bits(*x, *y)
            },
            (ExprLiteral::StringLiteral(x), ExprLiteral::StringLiteral(y)) => *x == *y,
            (ExprLiteral::True, ExprLiteral::True) => true,
            (ExprLiteral::False, ExprLiteral::False) => true,
            (ExprLiteral::Nil, ExprLiteral::Nil) => true,
            _ => false,
        }
    }

    /// The textual rendering of the value, as `sval_render` states it.
    pub fn two_string(&self) -> (r: String)
        ensures
            r@ == sval_render(self@),
    {
        match self {
            ExprLiteral::NumberLiteral(b) => crate::numerics::dbl_render_bits(*b),
            ExprLiteral::StringLiteral(s) => s.clone(),
            ExprLiteral::True => String::from_str("True"),
            ExprLiteral::False => String::from_str("False"),
            ExprLiteral::Nil => String::from_str("Nil"),
            ExprLiteral::FunctionLiteral(_) => String::from_str("<function>"),
        }
    }

    /// An explicit copy with the same model as the original.
    pub fn duplicate(&self) -> (r: ExprLiteral)
        ensures
            r@ == self@,
        decreases self,
    {
        match self {
            ExprLiteral::NumberLiteral(b) => ExprLiteral::NumberLiteral(*b),
            ExprLiteral::StringLiteral(s) => ExprLiteral::StringLiteral(s.clone()),
            ExprLiteral::True => ExprLiteral::True,
            ExprLiteral::False => ExprLiteral::False,
            ExprLiteral::Nil => ExprLiteral::Nil,
            ExprLiteral::FunctionLiteral(c) => ExprLiteral::FunctionLiteral(c.duplicate()),
        }
    }
}

/// An expression node. Each node exclusively owns its children.
#[verifier::ext_equal]
#[derive(Debug)]
pub enum Expr {
    Unary { operator: Token, right: Box<Expr> },
    Binary { left: Box<Expr>, operator: Token, right: Box<Expr> },
    Grouping { expression: Box<Expr> },
    Literal { value: ExprLiteral },
    Variable { name: Token },
    Assign { name: Token, value: Box<Expr> },
    Logical { left: Box<Expr>, operator: Token, right: Box<Expr> },
    Call { callee: Box<Expr>, paren: Token, arguments: Vec<Expr> },
}

/// The mathematical model of an expression.
#[verifier::ext_equal]
pub enum SExpr {
    UnaryE { op: TokV, right: Box<SExpr> },
    BinaryE { left: Box<SExpr>, op: TokV, right: Box<SExpr> },
    GroupingE { inner: Box<SExpr> },
    LiteralE { value: SVal },
    VariableE { name: TokV },
    AssignE { name: TokV, value: Box<SExpr> },
    LogicalE { left: Box<SExpr>, op: TokV, right: Box<SExpr> },
    CallE { callee: Box<SExpr>, paren: TokV, args: Seq<SExpr> },
}

/// The models of a sequence of expressions.
pub open spec fn exprs_view(s: Seq<Expr>) -> Seq<SExpr>
    decreases s,
{
    if s.len() == 0 {
        Seq::empty()
    } else {
        exprs_view(s.subrange(0, s.len() - 1)).push(s[s.len() - 1].view())
    }
}

impl View for Expr {
    type V = SExpr;

    open spec fn view(&self) -> SExpr
        decreases self,
    {
        match self {
            Expr::Unary { operator, right } => SExpr::UnaryE {
                op: operator@,
                right: Box::new((**right).view()),
            },
            Expr::Binary { left, operator, right } => SExpr::BinaryE {
                left: Box::new((**left).view()),
                op: operator@,
                right: Box::new((**right).view()),
            },
            Expr::Grouping { expression } => SExpr::GroupingE {
                inner: Box::new((**expression).view()),
            },
            Expr::Literal { value } => SExpr::LiteralE { value: value@ },
            Expr::Variable { name } => SExpr::VariableE { name: name@ },
            Expr::Assign { name, value } => SExpr::AssignE {
                name: name@,
                value: Box::new((**value).view()),
            },
            Expr::Logical { left, operator, right } => SExpr::LogicalE {
                left: Box::new((**left).view()),
                op: operator@,
                right: Box::new((**right).view()),
            },
            Expr::Call { callee, paren, arguments } => SExpr::CallE {
                callee: Box::new((**callee).view()),
                paren: paren@,
                args: exprs_view(arguments@),
            },
        }
    }
}

/// `exprs_view` maps the view over the elements.
pub broadcast proof fn lemma_exprs_view(s: Seq<Expr>)
    ensures
        (#[trigger] exprs_view(s)).len() == s.len(),
        forall |i: int| 0 <= i < s.len() ==> exprs_view(s)[i] == #[trigger] s[i]@,
    decreases s.len(),
{
    if s.len() > 0 {
        let t = s.subrange(0, s.len() - 1);
        lemma_exprs_view(t);
        assert(exprs_view(s) == exprs_view(t).push(s[s.len() - 1].view()));
        assert forall |i: int| 0 <= i < s.len() implies exprs_view(s)[i] == #[trigger] s[i]@ by {
            if i < s.len() - 1 {
                assert(t[i] == s[i]);
            }
        }
    }
}

impl Expr {
    /// An explicit deep copy with the same model as the original.
    pub fn duplicate(&self) -> (r: Expr)
        ensures
            r@ == self@,
        decreases self,
    {
        match self {
            Expr::Unary { operator, right } => Expr::Unary {
                operator: operator.duplicate(),
                right: Box::new(right.duplicate()),
            },
            Expr::Binary { left, operator, right } => Expr::Binary {
                left: Box::new(left.duplicate()),
                operator: operator.duplicate(),
                right: Box::new(right.duplicate()),
            },
            Expr::Grouping { expression } => Expr::Grouping {
                expression: Box::new(expression.duplicate()),
            },
            Expr::Literal { value } => Expr::Literal { value: value.duplicate() },
            Expr::Variable { name } => Expr::Variable { name: name.duplicate() },
            Expr::Assign { name, value } => Expr::Assign {
                name: name.duplicate(),
                value: Box::new(value.duplicate()),
            },
            Expr::Logical { left, operator, right } => Expr::Logical {
                left: Box::new(left.duplicate()),
                operator: operator.duplicate(),
                right: Box::new(right.duplicate()),
            },
            Expr::Call { callee, paren, arguments } => {
                let r = Expr::Call {
                    callee: Box::new(callee.duplicate()),
                    paren: paren.duplicate(),
                    arguments: duplicate_exprs(arguments),
                };
                proof {
                    assert(r@ =~~= self@);
                }
                r
            },
        }
    }
}

/// An explicit deep copy of a vector of expressions, element models kept.
pub fn duplicate_exprs(v: &Vec<Expr>) -> (r: Vec<Expr>)
    ensures
        r@.len() == v@.len(),
        exprs_view(r@) == exprs_view(v@),
        forall |j: int| 0 <= j < v@.len() ==> #[trigger] r@[j]@ == v@[j]@,
    decreases v@,
{
    let mut r: Vec<Expr> = Vec::new();
    let n = v.len();
    for i in 0..n
        invariant
            n == v.len(),
            r.len() == i,
            forall |j: int| 0 <= j < i ==> #[trigger] r@[j]@ == v@[j]@,
        decreases n - i,
    {
        r.push(v[i].duplicate());
    }
    proof {
        lemma_exprs_view(r@);
        lemma_exprs_view(v@);
        assert forall |i: int| 0 <= i < r@.len() implies exprs_view(r@)[i] == exprs_view(v@)[i] by {
            assert(exprs_view(r@)[i] == r@[i]@);
            assert(exprs_view(v@)[i] == v@[i]@);
            assert(r@[i]@ == v@[i]@);
        }
        assert(exprs_view(r@) =~= exprs_view(v@));
    }
    r
}

/// Which expressions model to a variable reference.
pub proof fn lemma_expr_view_shape(e: &Expr)
    ensures
        e is Variable <==> e@ is VariableE,
{
    match e {
        Expr::Unary { .. } => { assert(e@ is UnaryE); },
        Expr::Binary { .. } => { assert(e@ is BinaryE); },
        Expr::Grouping { .. } => { assert(e@ is GroupingE); },
        Expr::Literal { .. } => { assert(e@ is LiteralE); },
        Expr::Variable { .. } => { assert(e@ is VariableE); },
        Expr::Assign { .. } => { assert(e@ is AssignE); },
        Expr::Logical { .. } => { assert(e@ is LogicalE); },
        Expr::Call { .. } => { assert(e@ is CallE); },
    }
}

} // verus!
