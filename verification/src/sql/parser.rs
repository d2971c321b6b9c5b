//! Recursive-descent parser for the supported SQL subset.
//!
//! Grammar: a statement is a `SELECT` (result list, source table, optional
//! `WHERE` chain of comparisons joined by `AND`/`OR`, left-associative) or a
//! `CREATE TABLE` (name and typed column list). A trailing semicolon is
//! demanded only when the caller asks for it.

use vstd::prelude::*;

use super::ast::{
    ColumnDef, ColumnDefView, CreateTableStatement, CreateTableView, Expr, ExprResultColumn,
    ExprView, ResultColumn, ResultColumnView, SelectCore, SelectFrom, SelectStatement, SelectView,
    Statement, StatementView, Type, expr_view,
};
use super::tokenizer::{Ops, Token, TokenView, spec_tokenize, tokenize};
use crate::error::{DbError, ErrorKind};

verus! {

/// The column type a type word denotes, if any.
pub open spec fn sp_type(w: Seq<char>) -> Option<Type> {
    if w == "integer"@ {
        Some(Type::Integer)
    } else if w == "real"@ {
        Some(Type::Real)
    } else if w == "blob"@ {
        Some(Type::Blob)
    } else if w == "bool"@ {
        Some(Type::Bool)
    } else if w == "text"@ || w == "string"@ {
        Some(Type::Text)
    } else {
        None
    }
}

/// One comparison `column op literal` at `p`: three tokens.
pub open spec fn sp_cmp(ts: Seq<TokenView>, p: int) -> Option<(ExprView, int)> {
    if p + 3 <= ts.len() {
        match (ts[p], ts[p + 1], ts[p + 2]) {
            (TokenView::Identifier(w), TokenView::Op(op), lit) => match lit {
                TokenView::Null => Some(
                    (
                        ExprView::Comparison(
                            Box::new(ExprView::Column(w)),
                            op,
                            Box::new(ExprView::Null),
                        ),
                        p + 3,
                    ),
                ),
                TokenView::Int(i) => Some(
                    (
                        ExprView::Comparison(
                            Box::new(ExprView::Column(w)),
                            op,
                            Box::new(ExprView::Int(i)),
                        ),
                        p + 3,
                    ),
                ),
                TokenView::Real(x) => Some(
                    (
                        ExprView::Comparison(
                            Box::new(ExprView::Column(w)),
                            op,
                            Box::new(ExprView::Real(x)),
                        ),
                        p + 3,
                    ),
                ),
                TokenView::String(t) => Some(
                    (
                        ExprView::Comparison(
                            Box::new(ExprView::Column(w)),
                            op,
                            Box::new(ExprView::Text(t)),
                        ),
                        p + 3,
                    ),
                ),
                _ => None,
            },
            _ => None,
        }
    } else {
        None
    }
}

/// The rest of a `WHERE` chain after `acc`: as long as an operator follows,
/// one more comparison joins the accumulated expression on its left.
pub open spec fn sp_where_chain(ts: Seq<TokenView>, p: int, acc: ExprView) -> Option<
    (ExprView, int),
>
    decreases ts.len() - p,
    when 0 <= p
    via sp_where_chain_decreases
{
    if p < ts.len() && (ts[p] matches TokenView::Op(_)) {
        let op = ts[p]->Op_0;
        match sp_cmp(ts, p + 1) {
            Some((c, p2)) => sp_where_chain(
                ts,
                p2,
                ExprView::Comparison(Box::new(acc), op, Box::new(c)),
            ),
            None => None,
        }
    } else {
        Some((acc, p))
    }
}

#[via_fn]
proof fn sp_where_chain_decreases(ts: Seq<TokenView>, p: int, acc: ExprView) {
}

/// A `WHERE` clause at `p` (the `WHERE` token itself): one comparison, then
/// a left-associative chain.
pub open spec fn sp_where_clause(ts: Seq<TokenView>, p: int) -> Option<(ExprView, int)> {
    match sp_cmp(ts, p + 1) {
        Some((c, p1)) => sp_where_chain(ts, p1, c),
        None => None,
    }
}

/// One result column at `p`: `*`, or a column name with an optional alias.
pub open spec fn sp_result_column(ts: Seq<TokenView>, p: int) -> Option<(ResultColumnView, int)> {
    if p < ts.len() && ts[p] is Star {
        Some((ResultColumnView::Star, p + 1))
    } else if p < ts.len() && (ts[p] matches TokenView::Identifier(w)) {
        let w = ts[p]->Identifier_0;
        if p + 2 < ts.len() && ts[p + 1] is As && (ts[p + 2] matches TokenView::Identifier(_)) {
            Some(
                (
                    ResultColumnView::Expr {
                        expr: ExprView::Column(w),
                        alias: Some(ts[p + 2]->Identifier_0),
                    },
                    p + 3,
                ),
            )
        } else if p + 1 < ts.len() && ts[p + 1] is As {
            None
        } else {
            Some((ResultColumnView::Expr { expr: ExprView::Column(w), alias: None }, p + 1))
        }
    } else {
        None
    }
}

/// A comma-separated list of result columns starting at `p`.
pub open spec fn sp_result_columns(ts: Seq<TokenView>, p: int) -> Option<
    (Seq<ResultColumnView>, int),
>
    decreases ts.len() - p,
    when 0 <= p
    via sp_result_columns_decreases
{
    match sp_result_column(ts, p) {
        Some((c, p1)) => {
            if p1 < ts.len() && ts[p1] is Comma {
                match sp_result_columns(ts, p1 + 1) {
                    Some((rest, p2)) => Some((seq![c] + rest, p2)),
                    None => None,
                }
            } else {
                Some((seq![c], p1))
            }
        },
        None => None,
    }
}

#[via_fn]
proof fn sp_result_columns_decreases(ts: Seq<TokenView>, p: int) {
}

/// A `SELECT` statement at `p` (the `SELECT` token itself).
pub open spec fn sp_select(ts: Seq<TokenView>, p: int) -> Option<(SelectView, int)> {
    match sp_result_columns(ts, p + 1) {
        None => None,
        Some((cols, p1)) => {
            if p1 < ts.len() && ts[p1] is From && p1 + 1 < ts.len() && (ts[p1 + 1]
                matches TokenView::Identifier(_)) {
                let table = ts[p1 + 1]->Identifier_0;
                let p2 = p1 + 2;
                if p2 < ts.len() && ts[p2] is Where {
                    match sp_where_clause(ts, p2) {
                        Some((e, p3)) => Some(
                            (
                                SelectView {
                                    result_columns: cols,
                                    from: table,
                                    where_clause: Some(e),
                                },
                                p3,
                            ),
                        ),
                        None => None,
                    }
                } else {
                    Some(
                        (
                            SelectView { result_columns: cols, from: table, where_clause: None },
                            p2,
                        ),
                    )
                }
            } else {
                None
            }
        },
    }
}

/// One `name TYPE` column definition at `p`.
pub open spec fn sp_column_def(ts: Seq<TokenView>, p: int) -> Option<(ColumnDefView, int)> {
    if p + 2 <= ts.len() && (ts[p] matches TokenView::Identifier(_)) && (ts[p + 1]
        matches TokenView::Identifier(_)) {
        match sp_type(ts[p + 1]->Identifier_0) {
            Some(t) => Some(
                (ColumnDefView { name: ts[p]->Identifier_0, col_type: t }, p + 2),
            ),
            None => None,
        }
    } else {
        None
    }
}

/// The column list beginning at `p` runs into an unsupported type: every
/// earlier definition parses and is followed by a comma, and the failing
/// position holds a column name and a type word that names no type.
pub open spec fn defs_hit_bad_type(ts: Seq<TokenView>, p: int) -> bool
    decreases ts.len() - p,
    when 0 <= p
    via defs_hit_bad_type_decreases
{
    match sp_column_def(ts, p) {
        Some((c, p1)) => p1 < ts.len() && ts[p1] is Comma && defs_hit_bad_type(ts, p1 + 1),
        None => {
            &&& p + 2 <= ts.len()
            &&& (ts[p] matches TokenView::Identifier(_))
            &&& (ts[p + 1] matches TokenView::Identifier(_))
            &&& sp_type(ts[p + 1]->Identifier_0) is None
        },
    }
}

#[via_fn]
proof fn defs_hit_bad_type_decreases(ts: Seq<TokenView>, p: int) {
}

/// A `CREATE TABLE` whose parse fails on an unsupported column type.
pub open spec fn create_fails_on_type(s: Seq<char>) -> bool {
    &&& spec_tokenize(s) is Ok
    &&& ({
        let ts = spec_tokenize(s)->Ok_0;
        &&& ts.len() >= 4
        &&& ts[0] is Create
        &&& ts[1] is Table
        &&& (ts[2] matches TokenView::Identifier(_))
        &&& ts[3] is LPar
        &&& defs_hit_bad_type(ts, 4)
    })
}

/// A comma-separated list of column definitions starting at `p`.
pub open spec fn sp_column_defs(ts: Seq<TokenView>, p: int) -> Option<(Seq<ColumnDefView>, int)>
    decreases ts.len() - p,
    when 0 <= p
    via sp_column_defs_decreases
{
    match sp_column_def(ts, p) {
        Some((c, p1)) => {
            if p1 < ts.len() && ts[p1] is Comma {
                match sp_column_defs(ts, p1 + 1) {
                    Some((rest, p2)) => Some((seq![c] + rest, p2)),
                    None => None,
                }
            } else {
                Some((seq![c], p1))
            }
        },
        None => None,
    }
}

#[via_fn]
proof fn sp_column_defs_decreases(ts: Seq<TokenView>, p: int) {
}

/// A `CREATE TABLE` statement at `p` (the `CREATE` token itself).
pub open spec fn sp_create_table(ts: Seq<TokenView>, p: int) -> Option<(CreateTableView, int)> {
    if p + 4 <= ts.len() && ts[p] is Create && ts[p + 1] is Table && (ts[p + 2]
        matches TokenView::Identifier(_)) && ts[p + 3] is LPar {
        let name = ts[p + 2]->Identifier_0;
        match sp_column_defs(ts, p + 4) {
            Some((cols, p1)) => {
                if p1 < ts.len() && ts[p1] is RPar {
                    Some((CreateTableView { name, columns: cols }, p1 + 1))
                } else {
                    None
                }
            },
            None => None,
        }
    } else {
        None
    }
}

/// A statement at the start of the token list.
pub open spec fn sp_statement(ts: Seq<TokenView>) -> Option<(StatementView, int)> {
    if ts.len() == 0 {
        None
    } else if ts[0] is Create {
        match sp_create_table(ts, 0) {
            Some((c, p)) => Some((StatementView::CreateTable(c), p)),
            None => None,
        }
    } else if ts[0] is Select {
        match sp_select(ts, 0) {
            Some((s, p)) => Some((StatementView::Select(s), p)),
            None => None,
        }
    } else {
        None
    }
}

/// What parsing an input yields: tokenize, parse one statement, and, when
/// demanded, insist on a trailing semicolon.
pub open spec fn sp_parse(s: Seq<char>, trailing_semicolon: bool) -> Option<StatementView> {
    match spec_tokenize(s) {
        Err(_) => None,
        Ok(ts) => match sp_statement(ts) {
            None => None,
            Some((st, p)) => {
                if trailing_semicolon {
                    if p < ts.len() && ts[p] is SemiColon {
                        Some(st)
                    } else {
                        None
                    }
                } else {
                    Some(st)
                }
            },
        },
    }
}

/// The views of a token list.
pub open spec fn tok_views(ts: Seq<Token>) -> Seq<TokenView> {
    ts.map(|i: int, t: Token| t@)
}

/// Parse one `column op literal` comparison at `p`.
fn parse_cmp(tokens: &Vec<Token>, p: usize) -> (r: Result<(Expr, usize), DbError>)
    ensures
        match r {
            Ok((e, p2)) => {
                &&& sp_cmp(tok_views(tokens@), p as int) == Some((expr_view(e), p2 as int))
                &&& p2 == p + 3 <= tokens@.len()
            },
            Err(er) => sp_cmp(tok_views(tokens@), p as int) is None && er.kind == ErrorKind::Parse,
        },
{
    let n = tokens.len();
    if n < 3 || p > n - 3 {
        return Err(DbError::new(ErrorKind::Parse, "unexpected end of input"));
    }
    proof {
        assert(tok_views(tokens@)[p as int] == tokens@[p as int]@);
        assert(tok_views(tokens@)[p + 1] == tokens@[p + 1]@);
        assert(tok_views(tokens@)[p + 2] == tokens@[p + 2]@);
    }
    let w: String = match &tokens[p] {
        Token::Identifier(w) => w.clone(),
        _ => {
            return Err(DbError::new(ErrorKind::Parse, "expected a column name"));
        },
    };
    let op: Ops = match &tokens[p + 1] {
        Token::Op(op) => *op,
        _ => {
            return Err(DbError::new(ErrorKind::Parse, "expected an operator"));
        },
    };
    let lit: Expr = match &tokens[p + 2] {
        Token::Null => Expr::Null,
        Token::Int(i) => Expr::Int(*i),
        Token::Real(x) => Expr::Real(*x),
        Token::String(t) => Expr::Text(t.clone()),
        _ => {
            return Err(DbError::new(ErrorKind::Parse, "expected a literal"));
        },
    };
    let e = Expr::Comparison(Box::new(Expr::Column(w)), op, Box::new(lit));
    proof {
        reveal_with_fuel(expr_view, 3);
    }
    Ok((e, p + 3))
}

/// Extend `acc` with further `op comparison` links, left-associatively.
fn parse_where_chain(tokens: &Vec<Token>, p: usize, acc: Expr) -> (r: Result<
    (Expr, usize),
    DbError,
>)
    requires
        p <= tokens@.len(),
    ensures
        match r {
            Ok((e, p2)) => {
                &&& sp_where_chain(tok_views(tokens@), p as int, expr_view(acc)) == Some(
                    (expr_view(e), p2 as int),
                )
                &&& p <= p2 <= tokens@.len()
            },
            Err(er) => sp_where_chain(tok_views(tokens@), p as int, expr_view(acc)) is None
                && er.kind == ErrorKind::Parse,
        },
{
    let ghost ts = tok_views(tokens@);
    let mut cur = acc;
    let mut pos = p;
    loop
        invariant
            p <= pos <= tokens@.len(),
            ts == tok_views(tokens@),
            sp_where_chain(ts, p as int, expr_view(acc)) == sp_where_chain(
                ts,
                pos as int,
                expr_view(cur),
            ),
        decreases tokens@.len() - pos,
    {
        let more = if pos < tokens.len() {
            proof {
                assert(tok_views(tokens@)[pos as int] == tokens@[pos as int]@);
            }
            match &tokens[pos] {
                Token::Op(o) => Some(*o),
                _ => None,
            }
        } else {
            None
        };
        match more {
            None => {
                return Ok((cur, pos));
            },
            Some(o) => {
                match parse_cmp(tokens, pos + 1) {
                    Ok((c, p2)) => {
                        cur = Expr::Comparison(Box::new(cur), o, Box::new(c));
                        pos = p2;
                        proof {
                            reveal_with_fuel(expr_view, 2);
                        }
                    },
                    Err(e) => {
                        return Err(e);
                    },
                }
            },
        }
    }
}

/// Parse the `WHERE` clause whose keyword sits at `p`.
fn parse_where_clause(tokens: &Vec<Token>, p: usize) -> (r: Result<(Expr, usize), DbError>)
    requires
        p < tokens@.len(),
    ensures
        match r {
            Ok((e, p2)) => {
                &&& sp_where_clause(tok_views(tokens@), p as int) == Some(
                    (expr_view(e), p2 as int),
                )
                &&& p < p2 <= tokens@.len()
            },
            Err(er) => sp_where_clause(tok_views(tokens@), p as int) is None && er.kind
                == ErrorKind::Parse,
        },
{
    let n = tokens.len();
    assert(p < n);
    match parse_cmp(tokens, p + 1) {
        Ok((c, p1)) => parse_where_chain(tokens, p1, c),
        Err(e) => Err(e),
    }
}

/// Parse one result column at `p`.
fn parse_result_column(tokens: &Vec<Token>, p: usize) -> (r: Result<
    (ResultColumn, usize),
    DbError,
>)
    ensures
        match r {
            Ok((c, p2)) => {
                &&& sp_result_column(tok_views(tokens@), p as int) == Some((c@, p2 as int))
                &&& p < p2 <= tokens@.len()
            },
            Err(er) => sp_result_column(tok_views(tokens@), p as int) is None && er.kind
                == ErrorKind::Parse,
        },
{
    if p >= tokens.len() {
        return Err(DbError::new(ErrorKind::Parse, "unexpected end of input"));
    }
    match &tokens[p] {
        Token::Star => Ok((ResultColumn::Star, p + 1)),
        Token::Identifier(w) => {
            let has_as = p + 1 < tokens.len() && matches!(&tokens[p + 1], Token::As);
            if has_as {
                if p + 2 < tokens.len() {
                    match &tokens[p + 2] {
                        Token::Identifier(a) => Ok(
                            (
                                ResultColumn::Expr(
                                    ExprResultColumn {
                                        expr: Expr::Column(w.clone()),
                                        alias: Some(a.clone()),
                                    },
                                ),
                                p + 3,
                            ),
                        ),
                        _ => Err(DbError::new(ErrorKind::Parse, "expected an alias name")),
                    }
                } else {
                    Err(DbError::new(ErrorKind::Parse, "unexpected end of input"))
                }
            } else {
                Ok(
                    (
                        ResultColumn::Expr(
                            ExprResultColumn { expr: Expr::Column(w.clone()), alias: None },
                        ),
                        p + 1,
                    ),
                )
            }
        },
        _ => Err(DbError::new(ErrorKind::Parse, "expected a result column")),
    }
}

/// Parse the comma-separated result-column list starting at `p`.
fn parse_result_columns(tokens: &Vec<Token>, p: usize) -> (r: Result<
    (Vec<ResultColumn>, usize),
    DbError,
>)
    ensures
        match r {
            Ok((cs, p2)) => {
                &&& sp_result_columns(tok_views(tokens@), p as int) == Some(
                    (cs@.map(|i: int, c: ResultColumn| c@), p2 as int),
                )
                &&& p < p2 <= tokens@.len()
            },
            Err(er) => sp_result_columns(tok_views(tokens@), p as int) is None && er.kind
                == ErrorKind::Parse,
        },
{
    let ghost ts = tok_views(tokens@);
    let mut cols: Vec<ResultColumn> = Vec::new();
    let mut pos = p;
    loop
        invariant
            ts == tok_views(tokens@),
            p <= pos,
            pos <= tokens@.len() || pos == p,
            sp_result_columns(ts, p as int) == (match sp_result_columns(ts, pos as int) {
                Some((rest, pe)) => Some(
                    (cols@.map(|i: int, c: ResultColumn| c@) + rest, pe),
                ),
                None => None,
            }),
        decreases tokens@.len() + 1 - pos,
    {
        let ghost opos = pos as int;
        let ghost prev = cols@;
        let (c, p1) = match parse_result_column(tokens, pos) {
            Ok(x) => x,
            Err(e) => {
                return Err(e);
            },
        };
        cols.push(c);
        proof {
            assert(cols@.map(|i: int, c: ResultColumn| c@) =~= prev.map(
                |i: int, c: ResultColumn| c@,
            ).push(cols@.last()@));
        }
        let comma = p1 < tokens.len() && matches!(&tokens[p1], Token::Comma);
        if comma {
            pos = p1 + 1;
            proof {
                match sp_result_columns(ts, pos as int) {
                    Some((rest, pe)) => {
                        assert(cols@.map(|i: int, c: ResultColumn| c@) + rest =~= prev.map(
                            |i: int, c: ResultColumn| c@,
                        ) + (seq![cols@.last()@] + rest));
                    },
                    None => {},
                }
            }
        } else {
            proof {
                assert(cols@.map(|i: int, c: ResultColumn| c@) =~= prev.map(
                    |i: int, c: ResultColumn| c@,
                ) + seq![cols@.last()@]);
            }
            return Ok((cols, p1));
        }
    }
}

/// Parse the `SELECT` statement whose keyword sits at `p`.
fn parse_select(tokens: &Vec<Token>, p: usize) -> (r: Result<(SelectStatement, usize), DbError>)
    requires
        p < tokens@.len(),
    ensures
        match r {
            Ok((s, p2)) => sp_select(tok_views(tokens@), p as int) == Some((s@, p2 as int)),
            Err(er) => sp_select(tok_views(tokens@), p as int) is None && er.kind
                == ErrorKind::Parse,
        },
{
    let n = tokens.len();
    assert(p < n);
    let (cols, p1) = match parse_result_columns(tokens, p + 1) {
        Ok(x) => x,
        Err(e) => {
            return Err(e);
        },
    };
    if !(p1 < tokens.len() && matches!(&tokens[p1], Token::From)) {
        return Err(DbError::new(ErrorKind::Parse, "expected FROM"));
    }
    if p1 + 1 >= tokens.len() {
        return Err(DbError::new(ErrorKind::Parse, "unexpected end of input"));
    }
    let table: String = match &tokens[p1 + 1] {
        Token::Identifier(w) => w.clone(),
        _ => {
            return Err(DbError::new(ErrorKind::Parse, "expected a table name"));
        },
    };
    let p2 = p1 + 2;
    let has_where = p2 < tokens.len() && matches!(&tokens[p2], Token::Where);
    if has_where {
        match parse_where_clause(tokens, p2) {
            Ok((e, p3)) => Ok(
                (
                    SelectStatement {
                        core: SelectCore {
                            result_columns: cols,
                            from: SelectFrom::Table(table),
                            where_clause: Some(e),
                        },
                    },
                    p3,
                ),
            ),
            Err(e) => Err(e),
        }
    } else {
        Ok(
            (
                SelectStatement {
                    core: SelectCore {
                        result_columns: cols,
                        from: SelectFrom::Table(table),
                        where_clause: None,
                    },
                },
                p2,
            ),
        )
    }
}

/// Parse one `name TYPE` column definition at `p`.
fn parse_column_def(tokens: &Vec<Token>, p: usize) -> (r: Result<(ColumnDef, usize), DbError>)
    ensures
        match r {
            Ok((c, p2)) => {
                &&& sp_column_def(tok_views(tokens@), p as int) == Some((c@, p2 as int))
                &&& p < p2 <= tokens@.len()
            },
            Err(er) => {
                let ts = tok_views(tokens@);
                &&& sp_column_def(ts, p as int) is None
                &&& er.kind == ErrorKind::Parse
                &&& ((p + 2 <= ts.len() && (ts[p as int] matches TokenView::Identifier(_)) && (
                ts[p + 1] matches TokenView::Identifier(_)) && sp_type(
                    ts[p + 1]->Identifier_0,
                ) is None) ==> er.message@ == "unsupported type"@)
            },
        },
{
    let n = tokens.len();
    if n < 2 || p > n - 2 {
        return Err(DbError::new(ErrorKind::Parse, "unexpected end of input"));
    }
    let name: String = match &tokens[p] {
        Token::Identifier(w) => w.clone(),
        _ => {
            return Err(DbError::new(ErrorKind::Parse, "expected a column name"));
        },
    };
    let tyword: String = match &tokens[p + 1] {
        Token::Identifier(w) => w.clone(),
        _ => {
            return Err(DbError::new(ErrorKind::Parse, "expected a type name"));
        },
    };
    let col_type: Type = if tyword == String::from_str("integer") {
        Type::Integer
    } else if tyword == String::from_str("real") {
        Type::Real
    } else if tyword == String::from_str("blob") {
        Type::Blob
    } else if tyword == String::from_str("bool") {
        Type::Bool
    } else if tyword == String::from_str("text") || tyword == String::from_str("string") {
        Type::Text
    } else {
        return Err(DbError::new(ErrorKind::Parse, "unsupported type"));
    };
    Ok((ColumnDef { name, col_type }, p + 2))
}

/// Parse the comma-separated column-definition list starting at `p`.
fn parse_column_defs(tokens: &Vec<Token>, p: usize) -> (r: Result<
    (Vec<ColumnDef>, usize),
    DbError,
>)
    ensures
        match r {
            Ok((cs, p2)) => {
                &&& sp_column_defs(tok_views(tokens@), p as int) == Some(
                    (cs@.map(|i: int, c: ColumnDef| c@), p2 as int),
                )
                &&& p < p2 <= tokens@.len()
            },
            Err(er) => {
                &&& sp_column_defs(tok_views(tokens@), p as int) is None
                &&& er.kind == ErrorKind::Parse
                &&& (defs_hit_bad_type(tok_views(tokens@), p as int) ==> er.message@
                    == "unsupported type"@)
            },
        },
        r is Ok ==> !defs_hit_bad_type(tok_views(tokens@), p as int),
{
    let ghost ts = tok_views(tokens@);
    let mut cols: Vec<ColumnDef> = Vec::new();
    let mut pos = p;
    loop
        invariant
            ts == tok_views(tokens@),
            p <= pos,
            pos <= tokens@.len() || pos == p,
            defs_hit_bad_type(ts, p as int) == defs_hit_bad_type(ts, pos as int),
            sp_column_defs(ts, p as int) == (match sp_column_defs(ts, pos as int) {
                Some((rest, pe)) => Some((cols@.map(|i: int, c: ColumnDef| c@) + rest, pe)),
                None => None,
            }),
        decreases tokens@.len() + 1 - pos,
    {
        let ghost prev = cols@;
        let (c, p1) = match parse_column_def(tokens, pos) {
            Ok(x) => x,
            Err(e) => {
                return Err(e);
            },
        };
        cols.push(c);
        let comma = p1 < tokens.len() && matches!(&tokens[p1], Token::Comma);
        if comma {
            pos = p1 + 1;
            proof {
                match sp_column_defs(ts, pos as int) {
                    Some((rest, pe)) => {
                        assert(cols@.map(|i: int, c: ColumnDef| c@) + rest =~= prev.map(
                            |i: int, c: ColumnDef| c@,
                        ) + (seq![cols@.last()@] + rest));
                    },
                    None => {},
                }
            }
        } else {
            proof {
                assert(cols@.map(|i: int, c: ColumnDef| c@) =~= prev.map(|i: int, c: ColumnDef| c@)
                    + seq![cols@.last()@]);
            }
            return Ok((cols, p1));
        }
    }
}

/// Parse the `CREATE TABLE` statement whose keyword sits at `p`.
fn parse_create_table(tokens: &Vec<Token>, p: usize) -> (r: Result<
    (CreateTableStatement, usize),
    DbError,
>)
    ensures
        match r {
            Ok((c, p2)) => sp_create_table(tok_views(tokens@), p as int) == Some((c@, p2 as int)),
            Err(er) => {
                let ts = tok_views(tokens@);
                &&& sp_create_table(ts, p as int) is None
                &&& er.kind == ErrorKind::Parse
                &&& ((p + 4 <= ts.len() && ts[p as int] is Create && ts[p + 1] is Table && (ts[p
                    + 2] matches TokenView::Identifier(_)) && ts[p + 3] is LPar
                    && defs_hit_bad_type(ts, p + 4)) ==> er.message@ == "unsupported type"@)
            },
        },
        r is Ok ==> !defs_hit_bad_type(tok_views(tokens@), p + 4),
{
    let n = tokens.len();
    if n < 4 || p > n - 4 {
        return Err(DbError::new(ErrorKind::Parse, "unexpected end of input"));
    }
    if !matches!(&tokens[p], Token::Create) {
        return Err(DbError::new(ErrorKind::Parse, "expected CREATE"));
    }
    if !matches!(&tokens[p + 1], Token::Table) {
        return Err(DbError::new(ErrorKind::Parse, "expected TABLE"));
    }
    let name: String = match &tokens[p + 2] {
        Token::Identifier(w) => w.clone(),
        _ => {
            return Err(DbError::new(ErrorKind::Parse, "expected a table name"));
        },
    };
    if !matches!(&tokens[p + 3], Token::LPar) {
        return Err(DbError::new(ErrorKind::Parse, "expected an opening parenthesis"));
    }
    let (cols, p1) = match parse_column_defs(tokens, p + 4) {
        Ok(x) => x,
        Err(e) => {
            return Err(e);
        },
    };
    if !(p1 < tokens.len() && matches!(&tokens[p1], Token::RPar)) {
        return Err(DbError::new(ErrorKind::Parse, "expected a closing parenthesis"));
    }
    Ok((CreateTableStatement { name, columns: cols }, p1 + 1))
}

/// Parse one statement, optionally demanding a trailing semicolon.
pub fn parse_statement(input: &str, trailing_semicolon: bool) -> (r: Result<Statement, DbError>)
    ensures
        match r {
            Ok(st) => sp_parse(input@, trailing_semicolon) == Some(st@),
            Err(e) => {
                &&& sp_parse(input@, trailing_semicolon) is None
                &&& e.kind == ErrorKind::Parse
                &&& (create_fails_on_type(input@) ==> e.message@ == "unsupported type"@)
            },
        },
{
    let tokens = match tokenize(input) {
        Ok(ts) => ts,
        Err(e) => {
            return Err(e);
        },
    };
    let ghost ts = tok_views(tokens@);
    if tokens.len() == 0 {
        return Err(DbError::new(ErrorKind::Parse, "unexpected end of input"));
    }
    let parsed: (Statement, usize) = if matches!(&tokens[0], Token::Create) {
        match parse_create_table(&tokens, 0) {
            Ok((c, p)) => (Statement::CreateTable(c), p),
            Err(e) => {
                return Err(e);
            },
        }
    } else if matches!(&tokens[0], Token::Select) {
        match parse_select(&tokens, 0) {
            Ok((s, p)) => (Statement::Select(s), p),
            Err(e) => {
                return Err(e);
            },
        }
    } else {
        return Err(DbError::new(ErrorKind::Parse, "unexpected token"));
    };
    let (st, p) = parsed;
    if trailing_semicolon {
        if !(p < tokens.len() && matches!(&tokens[p], Token::SemiColon)) {
            return Err(DbError::new(ErrorKind::Parse, "expected a trailing semicolon"));
        }
    }
    Ok(st)
}

/// Parse a statement and insist that it is a `CREATE TABLE`.
pub fn parse_create_statement(input: &str) -> (r: Result<CreateTableStatement, DbError>)
    ensures
        match r {
            Ok(c) => sp_parse(input@, false) == Some(StatementView::CreateTable(c@)),
            Err(e) => {
                &&& match sp_parse(input@, false) {
                    Some(st) => st is Select,
                    None => true,
                }
                &&& e.kind == ErrorKind::Parse
            },
        },
{
    match parse_statement(input, false) {
        Ok(Statement::CreateTable(c)) => Ok(c),
        Ok(Statement::Select(_)) => Err(
            DbError::new(ErrorKind::Parse, "expected a create statement"),
        ),
        Err(e) => Err(e),
    }
}

} // verus!
