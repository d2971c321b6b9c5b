//! The logical AST for the supported SQL subset.

use vstd::prelude::*;

use super::tokenizer::Ops;
use crate::error::{DbError, ErrorKind};

verus! {

/// An exact decimal literal: `mantissa` scaled down by `scale` powers of
/// ten, exactly as the digits were written.
#[derive(Debug, Clone, Copy, PartialEq, Eq, Structural)]
pub struct RealLit {
    pub mantissa: u64,
    pub scale: u8,
}

/// A column type name accepted in `CREATE TABLE`.
#[derive(Debug, Clone, Copy, PartialEq, Eq, Structural)]
pub enum Type {
    Integer,
    Real,
    Bool,
    Text,
    Blob,
}

/// An expression of the supported subset.
#[derive(Debug, PartialEq)]
pub enum Expr {
    /// A column referenced by name.
    Column(String),
    /// A column resolved to its index; produced only by the planner.
    Alias(i64),
    Null,
    Int(i64),
    Real(RealLit),
    Bool(bool),
    Text(String),
    Comparison(Box<Expr>, Ops, Box<Expr>),
}

/// The mathematical content of an [`Expr`].
pub enum ExprView {
    Column(Seq<char>),
    Alias(i64),
    Null,
    Int(i64),
    Real(RealLit),
    Bool(bool),
    Text(Seq<char>),
    Comparison(Box<ExprView>, Ops, Box<ExprView>),
}

/// The mathematical content of an expression.
pub open spec fn expr_view(e: Expr) -> ExprView
    decreases e,
{
    match e {
        Expr::Column(s) => ExprView::Column(s@),
        Expr::Alias(i) => ExprView::Alias(i),
        Expr::Null => ExprView::Null,
        Expr::Int(i) => ExprView::Int(i),
        Expr::Real(r) => ExprView::Real(r),
        Expr::Bool(b) => ExprView::Bool(b),
        Expr::Text(s) => ExprView::Text(s@),
        Expr::Comparison(l, op, r) => ExprView::Comparison(
            Box::new(expr_view(*l)),
            op,
            Box::new(expr_view(*r)),
        ),
    }
}

/// A comparison taken apart into its two sides and operator.
#[derive(Debug)]
pub struct Comparison {
    pub l: Expr,
    pub op: Ops,
    pub r: Expr,
}

/// One entry of a `SELECT` result list.
#[derive(Debug, PartialEq)]
pub enum ResultColumn {
    Star,
    Expr(ExprResultColumn),
}

/// A named result column with an optional alias.
#[derive(Debug, PartialEq)]
pub struct ExprResultColumn {
    pub expr: Expr,
    pub alias: Option<String>,
}

/// The source of a `SELECT`.
#[derive(Debug, Clone, PartialEq)]
pub enum SelectFrom {
    Table(String),
}

/// The body of a `SELECT` statement.
#[derive(Debug, PartialEq)]
pub struct SelectCore {
    pub result_columns: Vec<ResultColumn>,
    pub from: SelectFrom,
    pub where_clause: Option<Expr>,
}

/// A `SELECT` statement.
#[derive(Debug, PartialEq)]
pub struct SelectStatement {
    pub core: SelectCore,
}

/// One column definition of a `CREATE TABLE`.
#[derive(Debug, Clone, PartialEq)]
pub struct ColumnDef {
    pub name: String,
    pub col_type: Type,
}

/// A `CREATE TABLE` statement.
#[derive(Debug, Clone, PartialEq)]
pub struct CreateTableStatement {
    pub name: String,
    pub columns: Vec<ColumnDef>,
}

/// A parsed statement.
#[derive(Debug, PartialEq)]
pub enum Statement {
    Select(SelectStatement),
    CreateTable(CreateTableStatement),
}

/// The mathematical content of a [`ResultColumn`].
pub enum ResultColumnView {
    Star,
    Expr { expr: ExprView, alias: Option<Seq<char>> },
}

impl View for ResultColumn {
    type V = ResultColumnView;

    open spec fn view(&self) -> ResultColumnView {
        match self {
            ResultColumn::Star => ResultColumnView::Star,
            ResultColumn::Expr(e) => ResultColumnView::Expr {
                expr: expr_view(e.expr),
                alias: match e.alias {
                    Some(a) => Some(a@),
                    None => None,
                },
            },
        }
    }
}

/// The mathematical content of a [`ColumnDef`].
pub struct ColumnDefView {
    pub name: Seq<char>,
    pub col_type: Type,
}

impl View for ColumnDef {
    type V = ColumnDefView;

    open spec fn view(&self) -> ColumnDefView {
        ColumnDefView { name: self.name@, col_type: self.col_type }
    }
}

/// The mathematical content of a [`CreateTableStatement`].
pub struct CreateTableView {
    pub name: Seq<char>,
    pub columns: Seq<ColumnDefView>,
}

impl View for CreateTableStatement {
    type V = CreateTableView;

    open spec fn view(&self) -> CreateTableView {
        CreateTableView {
            name: self.name@,
            columns: self.columns@.map(|i: int, c: ColumnDef| c@),
        }
    }
}

/// The mathematical content of a [`SelectCore`] or [`SelectStatement`].
pub struct SelectView {
    pub result_columns: Seq<ResultColumnView>,
    pub from: Seq<char>,
    pub where_clause: Option<ExprView>,
}

impl View for SelectCore {
    type V = SelectView;

    open spec fn view(&self) -> SelectView {
        SelectView {
            result_columns: self.result_columns@.map(|i: int, c: ResultColumn| c@),
            from: match self.from {
                SelectFrom::Table(ref t) => t@,
            },
            where_clause: match self.where_clause {
                Some(ref e) => Some(expr_view(*e)),
                None => None,
            },
        }
    }
}

impl View for SelectStatement {
    type V = SelectView;

    open spec fn view(&self) -> SelectView {
        self.core@
    }
}

/// The mathematical content of a [`Statement`].
pub enum StatementView {
    Select(SelectView),
    CreateTable(CreateTableView),
}

impl View for Statement {
    type V = StatementView;

    open spec fn view(&self) -> StatementView {
        match self {
            Statement::Select(s) => StatementView::Select(s@),
            Statement::CreateTable(c) => StatementView::CreateTable(c@),
        }
    }
}

/// Copy an expression, keeping its content.
pub fn expr_dup(e: &Expr) -> (r: Expr)
    ensures
        expr_view(r) == expr_view(*e),
    decreases e,
{
    match e {
        Expr::Column(s) => Expr::Column(s.clone()),
        Expr::Alias(i) => Expr::Alias(*i),
        Expr::Null => Expr::Null,
        Expr::Int(i) => Expr::Int(*i),
        Expr::Real(r) => Expr::Real(*r),
        Expr::Bool(b) => Expr::Bool(*b),
        Expr::Text(s) => Expr::Text(s.clone()),
        Expr::Comparison(l, op, r) => Expr::Comparison(
            Box::new(expr_dup(l)),
            *op,
            Box::new(expr_dup(r)),
        ),
    }
}

impl Expr {
    /// The column index carried by a planner-resolved column reference.
    pub fn as_int(&self) -> (r: Result<usize, DbError>)
        ensures
            match r {
                Ok(i) => expr_view(*self) matches ExprView::Alias(a) && a >= 0 && i == a,
                Err(e) => {
                    &&& match expr_view(*self) {
                        ExprView::Alias(a) => a < 0 || a > usize::MAX,
                        _ => true,
                    }
                    &&& e.kind == ErrorKind::Plan
                },
            },
    {
        match self {
            Expr::Alias(i) => {
                if *i >= 0 && *i as u64 <= usize::MAX as u64 {
                    Ok(*i as usize)
                } else {
                    Err(DbError::new(ErrorKind::Plan, "column index out of range"))
                }
            },
            _ => Err(DbError::new(ErrorKind::Plan, "Expected an integer")),
        }
    }

    /// The text carried by a column reference or a string literal.
    pub fn as_str(&self) -> (r: Result<&String, DbError>)
        ensures
            match r {
                Ok(s) => (expr_view(*self) matches ExprView::Column(t) && s@ == t) || (
                expr_view(*self) matches ExprView::Text(t) && s@ == t),
                Err(e) => {
                    &&& !(expr_view(*self) matches ExprView::Column(_))
                    &&& !(expr_view(*self) matches ExprView::Text(_))
                    &&& e.kind == ErrorKind::Plan
                },
            },
    {
        match self {
            Expr::Column(s) => Ok(s),
            Expr::Text(s) => Ok(s),
            _ => Err(DbError::new(ErrorKind::Plan, "Unexpected a string")),
        }
    }

    /// This expression taken apart as a comparison.
    pub fn as_comparison(&self) -> (r: Result<Comparison, DbError>)
        ensures
            match r {
                Ok(c) => expr_view(*self) matches ExprView::Comparison(l, op, rr) && expr_view(c.l)
                    == *l && c.op == op && expr_view(c.r) == *rr,
                Err(e) => !(expr_view(*self) matches ExprView::Comparison(_, _, _)) && e.kind
                    == ErrorKind::Plan,
            },
    {
        match self {
            Expr::Comparison(l, op, r) => Ok(
                Comparison { l: expr_dup(l), op: *op, r: expr_dup(r) },
            ),
            _ => Err(DbError::new(ErrorKind::Plan, "Expected a Comparison")),
        }
    }
}

} // verus!
