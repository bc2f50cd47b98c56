use crate::dynamic::Dynamic;
use crate::dynamic::ValModel;
use vstd::prelude::*;

verus! {

/// Spec-level shape of an [`Expr`].
pub enum ExprModel {
    Lit(ValModel),
    Var(Seq<char>),
}

/// Spec-level shape of a [`Stmt`].
pub enum StmtModel {
    FnCall { name: Seq<char>, args: Seq<ExprModel> },
    Bind { name: Seq<char>, expr: ExprModel },
}

/// An expression of the little statement language this engine executes: a
/// literal value, or the name of a variable or parameter to read.
pub enum Expr {
    Lit(Dynamic),
    Var(String),
}

impl View for Expr {
    type V = ExprModel;

    open spec fn view(&self) -> ExprModel {
        match self {
            Expr::Lit(d) => ExprModel::Lit(d@),
            Expr::Var(n) => ExprModel::Var(n@),
        }
    }
}

/// The views of a sequence of expressions.
pub open spec fn expr_views(s: Seq<Expr>) -> Seq<ExprModel> {
    s.map_values(|e: Expr| e@)
}

/// One statement: a function call whose result is discarded, or a binding that
/// adds a named value to the scope.
pub enum Stmt {
    FnCall { name: String, args: Vec<Expr> },
    Bind { name: String, expr: Expr },
}

impl View for Stmt {
    type V = StmtModel;

    open spec fn view(&self) -> StmtModel {
        match self {
            Stmt::FnCall { name, args } => StmtModel::FnCall {
                name: name@,
                args: expr_views(args@),
            },
            Stmt::Bind { name, expr } => StmtModel::Bind { name: name@, expr: expr@ },
        }
    }
}

/// The views of a sequence of statements.
pub open spec fn stmt_views(s: Seq<Stmt>) -> Seq<StmtModel> {
    s.map_values(|st: Stmt| st@)
}

/// A parsed script: the ordered statements an evaluator walks, produced by
/// [`crate::engine::Engine::compile`] or built directly by host code.
pub struct Ast {
    pub stmts: Vec<Stmt>,
}

impl Ast {
    pub fn new(stmts: Vec<Stmt>) -> (r: Ast)
        ensures
            r.stmts@ == stmts@,
    {
        Ast { stmts }
    }
}

} // verus!
