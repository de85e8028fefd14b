use vstd::prelude::*;

use crate::token::{KindView, Token, TokenView};

verus! {

/// A parsed program: its statements in source order.
#[derive(Debug, PartialEq, Eq)]
pub struct UntypedProgram {
    pub stmts: Vec<Stmt>,
}

/// A statement: for now only an expression followed by `;`.
#[derive(Debug, PartialEq, Eq)]
pub enum Stmt {
    Expr { e: Expr },
}

/// An expression. Each node owns its children.
#[derive(Debug, PartialEq, Eq)]
pub enum Expr {
    Identifier { name: Token },
    Literal { l: Literal },
    FunctionApplication { callee: Box<Expr>, args: Vec<Expr> },
}

/// A literal value written in the source.
#[derive(Debug, PartialEq, Eq)]
pub enum Literal {
    String(String),
}

/// The mathematical value of an `Expr`.
pub enum ExprModel {
    Identifier(TokenView),
    Literal(Seq<char>),
    Application(Box<ExprModel>, Seq<ExprModel>),
}

/// The mathematical value of a `Stmt`.
pub enum StmtModel {
    Expr(ExprModel),
}

pub open spec fn expr_model(e: Expr) -> ExprModel
    decreases e,
{
    match e {
        Expr::Identifier { name } => ExprModel::Identifier(name@),
        Expr::Literal { l } => ExprModel::Literal(l@),
        Expr::FunctionApplication { callee, args } => ExprModel::Application(
            Box::new(expr_model(*callee)),
            exprs_model(args@),
        ),
    }
}

pub open spec fn exprs_model(es: Seq<Expr>) -> Seq<ExprModel>
    decreases es,
{
    if es.len() == 0 {
        Seq::empty()
    } else {
        exprs_model(es.subrange(0, es.len() - 1)).push(expr_model(es[es.len() - 1]))
    }
}

pub open spec fn stmts_model(ss: Seq<Stmt>) -> Seq<StmtModel> {
    ss.map_values(|s: Stmt| s@)
}

impl View for Literal {
    type V = Seq<char>;

    open spec fn view(&self) -> Seq<char> {
        match self {
            Literal::String(s) => s@,
        }
    }
}

impl View for Expr {
    type V = ExprModel;

    open spec fn view(&self) -> ExprModel {
        expr_model(*self)
    }
}

impl View for Stmt {
    type V = StmtModel;

    open spec fn view(&self) -> StmtModel {
        match self {
            Stmt::Expr { e } => StmtModel::Expr(e@),
        }
    }
}

impl View for UntypedProgram {
    type V = Seq<StmtModel>;

    open spec fn view(&self) -> Seq<StmtModel> {
        stmts_model(self.stmts@)
    }
}

impl UntypedProgram {
    /// The program with no statements.
    pub fn empty() -> (p: UntypedProgram)
        ensures
            p@ == Seq::<StmtModel>::empty(),
    {
        UntypedProgram { stmts: Vec::new() }
    }

    /// The program made of `stmts`, in order.
    pub fn with_stmts(stmts: Vec<Stmt>) -> (p: UntypedProgram)
        ensures
            p.stmts@ == stmts@,
            p@ == stmts_model(stmts@),
    {
        UntypedProgram { stmts }
    }
}

impl Expr {
    /// The identifier expression naming `s`.
    pub fn identifier(s: &str) -> (e: Expr)
        ensures
            e@ == ExprModel::Identifier(TokenView { kind: KindView::Identifier, lexeme: s@ }),
    {
        Expr::Identifier { name: Token::identifier(s) }
    }
}

/// An operation on expressions with one method per kind of node; `accept`
/// picks the method for the node at hand. Each method's outcome is described
/// by a spec member that an implementation defines: the visitor before the
/// call, the visitor after it, the node's parts, and the result.
pub trait ExprVisitor<V>: Sized {
    spec fn visited_identifier(&self, after: &Self, name: Token, r: V) -> bool;

    spec fn visited_literal(&self, after: &Self, l: Literal, r: V) -> bool;

    spec fn visited_application(&self, after: &Self, callee: Expr, args: Seq<Expr>, r: V) -> bool;

    fn visit_identifier(&mut self, name: &Token) -> (r: V)
        ensures
            old(self).visited_identifier(final(self), *name, r),
    ;

    fn visit_literal(&mut self, l: &Literal) -> (r: V)
        ensures
            old(self).visited_literal(final(self), *l, r),
    ;

    fn visit_function_application(&mut self, callee: &Expr, args: &[Expr]) -> (r: V)
        ensures
            old(self).visited_application(final(self), *callee, args@, r),
    ;
}

impl Expr {
    /// Calls the one method of `visitor` that is for this node's kind, on the
    /// node's parts, and returns what it returns.
    pub fn accept<Val, Visitor: ExprVisitor<Val>>(&self, visitor: &mut Visitor) -> (r: Val)
        ensures
            match *self {
                Expr::Identifier { name } => old(visitor).visited_identifier(final(visitor), name, r),
                Expr::Literal { l } => old(visitor).visited_literal(final(visitor), l, r),
                Expr::FunctionApplication { callee, args } => old(visitor).visited_application(
                    final(visitor),
                    *callee,
                    args@,
                    r,
                ),
            },
    {
        match self {
            Expr::Identifier { name } => visitor.visit_identifier(name),
            Expr::Literal { l } => visitor.visit_literal(l),
            Expr::FunctionApplication { callee, args } => visitor.visit_function_application(
                callee,
                args.as_slice(),
            ),
        }
    }
}

impl Literal {
    /// The string literal holding `s`.
    pub fn new(s: &str) -> (l: Literal)
        ensures
            l@ == s@,
    {
        Literal::String(s.to_owned())
    }
}

pub(crate) proof fn lemma_exprs_model_index(es: Seq<Expr>)
    ensures
        exprs_model(es).len() == es.len(),
        forall|i: int| 0 <= i < es.len() ==> #[trigger] exprs_model(es)[i] == expr_model(es[i]),
    decreases es.len(),
{
    if es.len() > 0 {
        lemma_exprs_model_index(es.subrange(0, es.len() - 1));
    }
}

} // verus!
