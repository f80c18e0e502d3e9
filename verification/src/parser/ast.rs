//! Statements and expressions. Arithmetic and boolean expressions are two
//! families of nodes: an arithmetic expression holds no boolean expression,
//! and a boolean expression holds arithmetic ones only as the two sides of a
//! comparison.

use vstd::prelude::*;
use crate::lexer::tokens::Decimal;
use super::span::Span;

verus! {

pub type Program = Vec<Stmt>;

#[derive(PartialEq, Debug)]
pub struct Stmt {
    pub span: Span,
    pub kind: StmtKind,
}

#[derive(PartialEq, Debug)]
pub enum StmtKind {
    Return(Box<Expr>),
    Continue,
    Break,
    Assign { ident: Identifier, value: Box<Expr> },
    While { cond: BExpr, body: Program },
    If { cond: BExpr, if_true: Program, elif: Option<Vec<Elif>>, if_false: Option<Program> },
}

#[derive(PartialEq, Debug)]
pub struct Elif {
    pub cond: BExpr,
    pub body: Program,
    pub span: Span,
}

#[derive(PartialEq, Debug)]
pub struct Expr {
    pub span: Span,
    pub kind: ExprKind,
}

#[derive(PartialEq, Debug)]
pub enum ExprKind {
    Ident(Identifier),
    Literal(LiteralKind),
    Grouping(Box<ExprKind>),
    BExpr(BExpr),
    AExpr(AExpr),
}

#[derive(PartialEq, Debug, Clone)]
pub enum LiteralKind {
    String(String),
    Char(char),
    Number(i64),
    Decimal(Decimal),
    Bool(bool),
}

#[derive(PartialEq, Debug)]
pub struct AExpr {
    pub span: Span,
    pub kind: AExprKind,
}

#[derive(PartialEq, Debug)]
pub enum AExprKind {
    Ident(Identifier),
    Grouping(Box<AExpr>),
    Int(i64),
    Decimal(Decimal),
    Infix { left: Box<AExpr>, op: AOp, right: Box<AExpr> },
    Prefix { op: APrefixOp, expr: Box<AExpr> },
}

#[derive(PartialEq, Debug, Clone)]
pub enum AOp {
    Plus,
    Minus,
    Div,
    Mult,
    Modulo,
    LShift,
    RShift,
}

#[derive(PartialEq, Debug, Clone)]
pub enum APrefixOp {
    Plus,
    Minus,
}

#[derive(PartialEq, Debug)]
pub struct BExpr {
    pub span: Span,
    pub kind: BExprKind,
}

#[derive(PartialEq, Debug)]
pub enum BExprKind {
    Ident(Identifier),
    Grouping(Box<BExpr>),
    Not(Box<BExpr>),
    True,
    False,
    BInfix { left: Box<BExpr>, op: BOp, right: Box<BExpr> },
    AInfix { left: Box<AExpr>, op: CmpOp, right: Box<AExpr> },
}

#[derive(PartialEq, Debug, Clone)]
pub enum BOp {
    And,
    Or,
    XOr,
}

#[derive(PartialEq, Debug, Clone)]
pub enum CmpOp {
    Equal,
    NotEqual,
    GreaterThanEqual,
    LessThanEqual,
    GreaterThan,
    LessThan,
}

#[derive(PartialEq, Debug, Clone)]
pub struct Identifier {
    pub name: String,
    pub kind: IdentifierKind,
}

/// The kind of literal that an identifier was bound from, with its value.
#[derive(PartialEq, Debug, Clone)]
pub enum IdentifierKind {
    Int64(i64),
    Float64(Decimal),
    Bool(bool),
    String(String),
    Char(char),
}

/// To which side an operator groups.
#[derive(PartialEq, Eq, Debug, Clone)]
pub enum Fixity {
    Left,
    Right,
    Neither,
}

/// How tightly an operator binds, from the loosest to the tightest.
#[derive(PartialEq, Eq, Debug, Clone, PartialOrd, Ord)]
pub enum Precedence {
    Lowest,
    Equals,
    Comparison,
    Sum,
    Product,
    Call,
}

/// A copy of each statement of `program`, in order.
fn clone_program(program: &Program) -> (copy: Program)
    ensures
        copy@.len() == program@.len(),
    decreases program,
{
    let mut copy: Program = Vec::new();
    let mut i: usize = 0;
    while i < program.len()
        invariant
            i <= program@.len(),
            copy@.len() == i,
        decreases program@.len() - i,
    {
        copy.push(program[i].clone());
        i += 1;
    }
    copy
}

/// A copy of each branch of `branches`, in order.
fn clone_branches(branches: &Vec<Elif>) -> (copy: Vec<Elif>)
    ensures
        copy@.len() == branches@.len(),
    decreases branches,
{
    let mut copy: Vec<Elif> = Vec::new();
    let mut i: usize = 0;
    while i < branches.len()
        invariant
            i <= branches@.len(),
            copy@.len() == i,
        decreases branches@.len() - i,
    {
        copy.push(branches[i].clone());
        i += 1;
    }
    copy
}

impl Clone for Stmt {
    fn clone(&self) -> (copy: Stmt)
        decreases self,
    {
        Stmt { span: self.span, kind: self.kind.clone() }
    }
}

impl Clone for StmtKind {
    fn clone(&self) -> (copy: StmtKind)
        decreases self,
    {
        match self {
            StmtKind::Return(value) => StmtKind::Return(Box::new((&**value).clone())),
            StmtKind::Continue => StmtKind::Continue,
            StmtKind::Break => StmtKind::Break,
            StmtKind::Assign { ident, value } => StmtKind::Assign {
                ident: ident.clone(),
                value: Box::new((&**value).clone()),
            },
            StmtKind::While { cond, body } => StmtKind::While {
                cond: cond.clone(),
                body: clone_program(body),
            },
            StmtKind::If { cond, if_true, elif, if_false } => StmtKind::If {
                cond: cond.clone(),
                if_true: clone_program(if_true),
                elif: match elif {
                    Some(branches) => Some(clone_branches(branches)),
                    None => None,
                },
                if_false: match if_false {
                    Some(program) => Some(clone_program(program)),
                    None => None,
                },
            },
        }
    }
}

impl Clone for Elif {
    fn clone(&self) -> (copy: Elif)
        decreases self,
    {
        Elif { cond: self.cond.clone(), body: clone_program(&self.body), span: self.span }
    }
}

impl Clone for Expr {
    fn clone(&self) -> (copy: Expr)
        decreases self,
    {
        Expr { span: self.span, kind: self.kind.clone() }
    }
}

impl Clone for ExprKind {
    fn clone(&self) -> (copy: ExprKind)
        decreases self,
    {
        match self {
            ExprKind::Ident(ident) => ExprKind::Ident(ident.clone()),
            ExprKind::Literal(literal) => ExprKind::Literal(literal.clone()),
            ExprKind::Grouping(inner) => ExprKind::Grouping(Box::new((&**inner).clone())),
            ExprKind::BExpr(expr) => ExprKind::BExpr(expr.clone()),
            ExprKind::AExpr(expr) => ExprKind::AExpr(expr.clone()),
        }
    }
}

impl Clone for AExpr {
    fn clone(&self) -> (copy: AExpr)
        decreases self,
    {
        AExpr { span: self.span, kind: self.kind.clone() }
    }
}

impl Clone for AExprKind {
    fn clone(&self) -> (copy: AExprKind)
        decreases self,
    {
        match self {
            AExprKind::Ident(ident) => AExprKind::Ident(ident.clone()),
            AExprKind::Grouping(inner) => AExprKind::Grouping(Box::new((&**inner).clone())),
            AExprKind::Int(n) => AExprKind::Int(*n),
            AExprKind::Decimal(d) => AExprKind::Decimal(d.clone()),
            AExprKind::Infix { left, op, right } => AExprKind::Infix {
                left: Box::new((&**left).clone()),
                op: op.clone(),
                right: Box::new((&**right).clone()),
            },
            AExprKind::Prefix { op, expr } => AExprKind::Prefix {
                op: op.clone(),
                expr: Box::new((&**expr).clone()),
            },
        }
    }
}

impl Clone for BExpr {
    fn clone(&self) -> (copy: BExpr)
        decreases self,
    {
        BExpr { span: self.span, kind: self.kind.clone() }
    }
}

impl Clone for BExprKind {
    fn clone(&self) -> (copy: BExprKind)
        decreases self,
    {
        match self {
            BExprKind::Ident(ident) => BExprKind::Ident(ident.clone()),
            BExprKind::Grouping(inner) => BExprKind::Grouping(Box::new((&**inner).clone())),
            BExprKind::Not(inner) => BExprKind::Not(Box::new((&**inner).clone())),
            BExprKind::True => BExprKind::True,
            BExprKind::False => BExprKind::False,
            BExprKind::BInfix { left, op, right } => BExprKind::BInfix {
                left: Box::new((&**left).clone()),
                op: op.clone(),
                right: Box::new((&**right).clone()),
            },
            BExprKind::AInfix { left, op, right } => BExprKind::AInfix {
                left: Box::new((&**left).clone()),
                op: op.clone(),
                right: Box::new((&**right).clone()),
            },
        }
    }
}

impl Precedence {
    /// The rank of the level: a greater rank binds tighter.
    pub open spec fn spec_rank(&self) -> int {
        match self {
            Precedence::Lowest => -10,
            Precedence::Equals => 0,
            Precedence::Comparison => 10,
            Precedence::Sum => 20,
            Precedence::Product => 30,
            Precedence::Call => 40,
        }
    }

    /// The rank of the level.
    pub fn rank(&self) -> (r: i32)
        ensures
            r == self.spec_rank(),
    {
        match self {
            Precedence::Lowest => -10,
            Precedence::Equals => 0,
            Precedence::Comparison => 10,
            Precedence::Sum => 20,
            Precedence::Product => 30,
            Precedence::Call => 40,
        }
    }
}

} // verus!
