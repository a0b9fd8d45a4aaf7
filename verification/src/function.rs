//! User-defined functions: a name, a parameter list, a body, and a shared
//! reference (an index into the interpreter's scope arena) to the
//! environment that was active at the point of declaration.

use vstd::prelude::*;
use crate::token::Token;
use crate::stmt::{Stmt, SStmt, stmts_view, lexemes_view, duplicate_stmts, duplicate_tokens, lemma_stmt_view_shape};

verus! {

/// A user-defined function value.
#[verifier::ext_equal]
#[derive(Debug)]
pub struct MyFunction {
    pub name: Token,
    pub params: Vec<Token>,
    pub body: Vec<Stmt>,
    /// The index of the environment captured at the declaration site, in
    /// the interpreter's scope arena. The reference is shared: mutations
    /// of captured variables after the closure is made stay visible to it.
    pub closure: usize,
}

/// The mathematical model of a user-defined function.
#[verifier::ext_equal]
pub struct SFun {
    pub name: Seq<char>,
    pub params: Seq<Seq<char>>,
    pub body: Seq<SStmt>,
    pub closure: nat,
}

impl View for MyFunction {
    type V = SFun;

    open spec fn view(&self) -> SFun
        decreases self,
    {
        SFun {
            name: self.name.lexeme@,
            params: lexemes_view(self.params@),
            body: stmts_view(self.body@),
            closure: self.closure as nat,
        }
    }
}

/// Whether a statement is a function declaration whose body is a block,
/// the only shape `MyFunction::new` accepts.
pub open spec fn is_function_shape(s: SStmt) -> bool {
    match s {
        SStmt::FunctionS { body, .. } => *body is BlockS,
        _ => false,
    }
}

/// The model of the function value built from a declaration of that shape.
pub open spec fn sfun_of(s: SStmt, closure: nat) -> SFun
    recommends
        is_function_shape(s),
{
    match s {
        SStmt::FunctionS { name, params, body } => SFun {
            name: name.lexeme,
            params: params,
            body: match *body {
                SStmt::BlockS { stmts } => stmts,
                _ => Seq::empty(),
            },
            closure: closure,
        },
        _ => SFun { name: Seq::empty(), params: Seq::empty(), body: Seq::empty(), closure: closure },
    }
}

impl MyFunction {
    /// Builds a function value from a `Function` declaration whose body is
    /// a block; any other statement is rejected.
    pub fn new(declaration: Stmt, closure: usize) -> (r: Result<Self, String>)
        ensures
            match r {
                Result::Ok(f) => is_function_shape(declaration@) && f@ == sfun_of(declaration@, closure as nat),
                Result::Err(_) => !is_function_shape(declaration@),
            },
    {
        let ghost d0 = declaration;
        match declaration {
            Stmt::Function { name, params, body } => {
                let ghost bb = *body;
                match *body {
                    Stmt::Block { statements } => {
                        let f = Self { name, params, body: statements, closure };
                        proof {
                            assert(bb@ == (SStmt::BlockS { stmts: stmts_view(f.body@) }));
                            assert(d0@ == (SStmt::FunctionS {
                                name: f.name@,
                                params: lexemes_view(f.params@),
                                body: Box::new(bb@),
                            }));
                            assert(f@ =~~= sfun_of(d0@, closure as nat));
                        }
                        Result::Ok(f)
                    },
                    other => {
                        proof {
                            lemma_stmt_view_shape(bb);
                            assert(d0@ == (SStmt::FunctionS {
                                name: name@,
                                params: lexemes_view(params@),
                                body: Box::new(bb@),
                            }));
                        }
                        Result::Err(String::from_str(
                            "Error occur when construct MyFunction: the body is not a block.",
                        ))
                    },
                }
            },
            _ => {
                proof {
                    lemma_stmt_view_shape(d0);
                }
                Result::Err(String::from_str(
                    "Error occur when construct MyFunction: expected a function declaration.",
                ))
            },
        }
    }

    /// The number of parameters the function declares.
    pub fn arity(&self) -> (r: usize)
        ensures
            r == self@.params.len(),
    {
        self.params.len()
    }

    /// The parameter list.
    pub fn params_ref(&self) -> (r: &Vec<Token>)
        ensures
            lexemes_view(r@) == self@.params,
    {
        &self.params
    }

    /// The body statements.
    pub fn body_ref(&self) -> (r: &Vec<Stmt>)
        ensures
            stmts_view(r@) == self@.body,
    {
        &self.body
    }

    /// The function's name token text.
    pub fn name_text(&self) -> (r: &String)
        ensures
            r@ == self@.name,
    {
        &self.name.lexeme
    }

    /// An explicit deep copy with the same model as the original.
    #[verifier::rlimit(50)]
    pub fn duplicate(&self) -> (r: MyFunction)
        ensures
            r@ == self@,
        decreases self,
    {
        let r = MyFunction {
            name: self.name.duplicate(),
            params: duplicate_tokens(&self.params),
            body: duplicate_stmts(&self.body),
            closure: self.closure,
        };
        proof {
            assert(r@ =~~= self@);
        }
        r
    }
}

} // verus!
