//! The planner: bind a `SELECT` against the schema and lower it to an
//! operator tree.

use vstd::prelude::*;

use super::operator::{Operator, SeqScan, SeqScanWithPredicate};
use crate::db::{Db, TableMetadata, TableMetadataView};
use crate::error::{DbError, ErrorKind};
use crate::sql::ast::{
    ColumnDef, ColumnDefView, Comparison, Expr, ExprView, ResultColumn, ResultColumnView,
    SelectFrom, SelectStatement, SelectView, Statement, StatementView, expr_dup, expr_view,
};
use crate::sql::tokenizer::Ops;

verus! {

/// The index of the first column with the given name, scanning from `i`.
pub open spec fn col_index_from(cols: Seq<ColumnDefView>, name: Seq<char>, i: int) -> Option<int>
    decreases cols.len() - i,
    when 0 <= i
{
    if i >= cols.len() {
        None
    } else if cols[i].name == name {
        Some(i)
    } else {
        col_index_from(cols, name, i + 1)
    }
}

/// The index of the first column with the given name.
pub open spec fn col_index(cols: Seq<ColumnDefView>, name: Seq<char>) -> Option<int> {
    col_index_from(cols, name, 0)
}

/// The index of the first table with the given name, scanning from `i`.
pub open spec fn table_index_from(ts: Seq<TableMetadataView>, name: Seq<char>, i: int) -> Option<
    int,
>
    decreases ts.len() - i,
    when 0 <= i
{
    if i >= ts.len() {
        None
    } else if ts[i].name == name {
        Some(i)
    } else {
        table_index_from(ts, name, i + 1)
    }
}

/// The index of the first table with the given name.
pub open spec fn table_index(ts: Seq<TableMetadataView>, name: Seq<char>) -> Option<int> {
    table_index_from(ts, name, 0)
}

/// The projected column indices of one result column: `*` expands to every
/// column in declaration order; a named column resolves to its index.
pub open spec fn resolve_one(cols: Seq<ColumnDefView>, rc: ResultColumnView) -> Option<Seq<int>> {
    match rc {
        ResultColumnView::Star => Some(Seq::new(cols.len(), |i: int| i)),
        ResultColumnView::Expr { expr, alias } => match expr {
            ExprView::Column(name) => match col_index(cols, name) {
                Some(i) => Some(seq![i]),
                None => None,
            },
            _ => None,
        },
    }
}

/// The projected column indices of a result list, in order.
pub open spec fn resolve_columns(cols: Seq<ColumnDefView>, rcs: Seq<ResultColumnView>) -> Option<
    Seq<int>,
>
    decreases rcs.len(),
{
    if rcs.len() == 0 {
        Some(Seq::empty())
    } else {
        match resolve_one(cols, rcs[0]) {
            None => None,
            Some(head) => match resolve_columns(cols, rcs.drop_first()) {
                None => None,
                Some(rest) => Some(head + rest),
            },
        }
    }
}

/// The display names of one result column: `*` carries every column's own
/// name in declaration order; a named column carries its alias when given,
/// else its name.
pub open spec fn resolve_names_one(cols: Seq<ColumnDefView>, rc: ResultColumnView) -> Option<
    Seq<Seq<char>>,
> {
    match rc {
        ResultColumnView::Star => Some(Seq::new(cols.len(), |i: int| cols[i].name)),
        ResultColumnView::Expr { expr, alias } => match expr {
            ExprView::Column(name) => match col_index(cols, name) {
                Some(_) => Some(
                    seq![
                        match alias {
                            Some(a) => a,
                            None => name,
                        },
                    ],
                ),
                None => None,
            },
            _ => None,
        },
    }
}

/// The display names of a result list, in order.
pub open spec fn resolve_names(cols: Seq<ColumnDefView>, rcs: Seq<ResultColumnView>) -> Option<
    Seq<Seq<char>>,
>
    decreases rcs.len(),
{
    if rcs.len() == 0 {
        Some(Seq::empty())
    } else {
        match resolve_names_one(cols, rcs[0]) {
            None => None,
            Some(head) => match resolve_names(cols, rcs.drop_first()) {
                None => None,
                Some(rest) => Some(head + rest),
            },
        }
    }
}

/// Lower the comparison `l op r` against a table's columns: a column name
/// on the left becomes its resolved index; a comparison on the left demands
/// one on the right, both lowered; any other left-hand shape (a literal,
/// an already-resolved index) is an error.
pub open spec fn lower_cmp(
    cols: Seq<ColumnDefView>,
    l: ExprView,
    op: Ops,
    r: ExprView,
) -> Result<ExprView, ErrorKind>
    decreases super::operator::ev_depth(l) + super::operator::ev_depth(r),
{
    match l {
        ExprView::Column(f) => match col_index(cols, f) {
            Some(i) => if i > i64::MAX {
                Err(ErrorKind::Schema)
            } else {
                Ok(ExprView::Comparison(Box::new(ExprView::Alias(i as i64)), op, Box::new(r)))
            },
            None => Err(ErrorKind::Schema),
        },
        ExprView::Comparison(ll, lop, lr) => match lower_cmp(cols, *ll, lop, *lr) {
            Err(k) => Err(k),
            Ok(low_l) => match r {
                ExprView::Comparison(rl, rop, rr) => match lower_cmp(cols, *rl, rop, *rr) {
                    Err(k) => Err(k),
                    Ok(low_r) => Ok(
                        ExprView::Comparison(Box::new(low_l), op, Box::new(low_r)),
                    ),
                },
                _ => Err(ErrorKind::Plan),
            },
        },
        _ => Err(ErrorKind::Plan),
    }
}

/// The statement binds against the schema: its table resolves, every
/// result column resolves, and any `WHERE` clause is a comparison that
/// lowers.
pub open spec fn select_compiles(tables: Seq<TableMetadataView>, s: SelectView) -> bool {
    match table_index(tables, s.from) {
        None => false,
        Some(ti) => {
            let t = tables[ti];
            match resolve_columns(t.columns, s.result_columns) {
                None => false,
                Some(_) => match s.where_clause {
                    None => true,
                    Some(w) => (w matches ExprView::Comparison(l, wop, rr) && lower_cmp(
                        t.columns,
                        *l,
                        wop,
                        *rr,
                    ) is Ok),
                },
            }
        },
    }
}

/// Resolve one table name against the schema.
fn find_table_index(db: &Db, name: &String) -> (r: Option<usize>)
    ensures
        ({
            let tviews = db.tables_metadata@.map(|i: int, t: TableMetadata| t@);
            match r {
                Some(i) => table_index(tviews, name@) == Some(i as int) && i
                    < db.tables_metadata@.len(),
                None => table_index(tviews, name@) is None,
            }
        }),
{
    let ghost tviews = db.tables_metadata@.map(|i: int, t: TableMetadata| t@);
    let mut i: usize = 0;
    while i < db.tables_metadata.len()
        invariant
            i <= tviews.len(),
            tviews == db.tables_metadata@.map(|i: int, t: TableMetadata| t@),
            table_index(tviews, name@) == table_index_from(tviews, name@, i as int),
        decreases tviews.len() - i,
    {
        proof {
            assert(tviews[i as int] == db.tables_metadata@[i as int]@);
        }
        if db.tables_metadata[i].name == *name {
            return Some(i);
        }
        i = i + 1;
    }
    None
}

/// Resolve one column name against a table's columns.
fn find_col_index(table: &TableMetadata, name: &String) -> (r: Option<usize>)
    ensures
        match r {
            Some(i) => col_index(table@.columns, name@) == Some(i as int),
            None => col_index(table@.columns, name@) is None,
        },
{
    let mut i: usize = 0;
    while i < table.columns.len()
        invariant
            i <= table@.columns.len(),
            col_index(table@.columns, name@) == col_index_from(table@.columns, name@, i as int),
        decreases table@.columns.len() - i,
    {
        proof {
            assert(table@.columns[i as int] == table.columns@[i as int]@);
        }
        if table.columns[i].name == *name {
            return Some(i);
        }
        i = i + 1;
    }
    None
}

/// Lower a comparison tree against a table.
#[verifier::rlimit(30)]
fn compile_expr(c: Comparison, table: &TableMetadata) -> (r: Result<Expr, DbError>)
    ensures
        match r {
            Ok(e) => lower_cmp(table@.columns, expr_view(c.l), c.op, expr_view(c.r)) == Ok::<
                ExprView,
                ErrorKind,
            >(expr_view(e)),
            Err(er) => lower_cmp(table@.columns, expr_view(c.l), c.op, expr_view(c.r)) == Err::<
                ExprView,
                ErrorKind,
            >(er.kind),
        },
    decreases super::operator::ev_depth(expr_view(c.l)) + super::operator::ev_depth(
        expr_view(c.r),
    ),
{
    proof {
        reveal_with_fuel(crate::sql::ast::expr_view, 3);
    }
    match &c.l {
        Expr::Column(f) => {
            match find_col_index(table, f) {
                Some(idx) => {
                    if idx as u64 > i64::MAX as u64 {
                        return Err(DbError::new(ErrorKind::Schema, "invalid where field"));
                    }
                    Ok(
                        Expr::Comparison(
                            Box::new(Expr::Alias(idx as i64)),
                            c.op,
                            Box::new(expr_dup(&c.r)),
                        ),
                    )
                },
                None => Err(DbError::new(ErrorKind::Schema, "invalid where field")),
            }
        },
        Expr::Comparison(_, _, _) => {
            let lc = match c.l.as_comparison() {
                Ok(x) => x,
                Err(e) => {
                    return Err(e);
                },
            };
            let left = match compile_expr(lc, table) {
                Ok(x) => x,
                Err(e) => {
                    return Err(e);
                },
            };
            let rc = match c.r.as_comparison() {
                Ok(x) => x,
                Err(e) => {
                    return Err(e);
                },
            };
            let right = match compile_expr(rc, table) {
                Ok(x) => x,
                Err(e) => {
                    return Err(e);
                },
            };
            Ok(Expr::Comparison(Box::new(left), c.op, Box::new(right)))
        },
        _ => Err(DbError::new(ErrorKind::Plan, "Expected a column or an alias")),
    }
}

/// The planner: binds statements against one database's schema.
pub struct Planner<'d> {
    pub db: &'d Db,
}

impl<'d> Planner<'d> {
    /// A planner over the given database.
    pub fn new(db: &'d Db) -> (r: Planner<'d>)
        ensures
            r.db == db,
    {
        Planner { db }
    }

    /// Compile a statement into an operator tree; only `SELECT` statements
    /// compile, and a `SELECT` compiles exactly when it binds against the
    /// schema.
    pub fn compile(self, statement: &Statement) -> (r: Result<Operator, DbError>)
        ensures
            match r {
                Ok(op) => statement@ matches StatementView::Select(_) && self.compiles_to(
                    statement@->Select_0,
                    op,
                ),
                Err(e) => {
                    &&& !(statement@ matches StatementView::Select(s) && select_compiles(
                        self.db.tables_metadata@.map(|i: int, t: TableMetadata| t@),
                        s,
                    ))
                    &&& (statement@ matches StatementView::CreateTable(_) ==> e.kind
                        == ErrorKind::Plan)
                },
            },
    {
        match statement {
            Statement::Select(s) => self.compile_select(s),
            Statement::CreateTable(_) => Err(
                DbError::new(ErrorKind::Plan, "unsupported statement"),
            ),
        }
    }

    /// The operator `op` is the correct lowering of the statement `s`
    /// against this database: the source table resolves in the schema, the
    /// projection's indices and display names (alias when given, else the
    /// column's own name) resolve in declaration order, the scan is rooted
    /// at the table's root page over the database's bytes, and a `WHERE`
    /// clause, when present, is lowered with every column name resolved.
    pub open spec fn compiles_to(&self, s: SelectView, op: Operator) -> bool {
        match table_index(self.db.tables_metadata@.map(|i: int, t: TableMetadata| t@), s.from) {
            None => false,
            Some(ti) => {
                let t = self.db.tables_metadata@.map(|i: int, t: TableMetadata| t@)[ti];
                match resolve_columns(t.columns, s.result_columns) {
                    None => false,
                    Some(idxs) => {
                        match s.where_clause {
                            None => {
                                &&& op matches Operator::SeqScan(sc)
                                &&& sc.spec_fields().map(|i: int, v: usize| v as int) == idxs
                                &&& Some(sc.col_names@.map(|i: int, n: String| n@))
                                    == resolve_names(t.columns, s.result_columns)
                                &&& sc.scanner.root() == t.first_page
                                &&& sc.scanner.data() == self.db.data()
                                &&& sc.scanner.psize() == self.db.psize()
                            },
                            Some(w) => {
                                &&& op matches Operator::SeqScanWithPredicate(sc)
                                &&& sc.spec_fields().map(|i: int, v: usize| v as int) == idxs
                                &&& Some(sc.spec_col_names().map(|i: int, n: String| n@))
                                    == resolve_names(t.columns, s.result_columns)
                                &&& sc.spec_scanner().root() == t.first_page
                                &&& sc.spec_scanner().data() == self.db.data()
                                &&& sc.spec_scanner().psize() == self.db.psize()
                                &&& (w matches ExprView::Comparison(l, wop, rr) && lower_cmp(
                                    t.columns,
                                    *l,
                                    wop,
                                    *rr,
                                ) == Ok::<ExprView, ErrorKind>(expr_view(sc.spec_predicate())))
                            },
                        }
                    },
                }
            },
        }
    }

    fn compile_select(self, select: &SelectStatement) -> (r: Result<Operator, DbError>)
        ensures
            match r {
                Ok(op) => self.compiles_to(select@, op),
                Err(e) => {
                    let tv = self.db.tables_metadata@.map(|i: int, t: TableMetadata| t@);
                    let s = select@;
                    &&& !select_compiles(tv, s)
                    &&& (table_index(tv, s.from) is None ==> e.kind == ErrorKind::Schema
                        && e.message@ == "invalid table name"@)
                    &&& (table_index(tv, s.from) matches Some(ti) ==> {
                        let t = tv[ti];
                        &&& (resolve_columns(t.columns, s.result_columns) is None ==> ((e.kind
                            == ErrorKind::Schema && e.message@ == "invalid column name"@) || (
                        e.kind == ErrorKind::Plan && e.message@ == "Expecting a column name"@)))
                        &&& (resolve_columns(t.columns, s.result_columns) is Some ==> {
                            &&& s.where_clause is Some
                            &&& match s.where_clause->Some_0 {
                                ExprView::Comparison(l, wop, rr) => lower_cmp(
                                    t.columns,
                                    *l,
                                    wop,
                                    *rr,
                                ) == Err::<ExprView, ErrorKind>(e.kind),
                                _ => e.kind == ErrorKind::Plan,
                            }
                        })
                    })
                },
            },
    {
        let ghost tviews = self.db.tables_metadata@.map(|i: int, t: TableMetadata| t@);
        let table_name: &String = match &select.core.from {
            SelectFrom::Table(t) => t,
        };

        let ti: usize = match find_table_index(self.db, table_name) {
            Some(i) => i,
            None => {
                return Err(DbError::new(ErrorKind::Schema, "invalid table name"));
            },
        };
        let table = &self.db.tables_metadata[ti];
        proof {
            assert(tviews[ti as int] == self.db.tables_metadata@[ti as int]@);
        }

        let mut columns: Vec<usize> = Vec::new();
        let mut names: Vec<String> = Vec::new();
        let ghost rcs = select.core.result_columns@.map(|i: int, c: ResultColumn| c@);
        let mut rc: usize = 0;
        proof {
            assert(rcs.skip(0) =~= rcs);
            match resolve_columns(table@.columns, rcs) {
                Some(idxs) => {
                    assert(columns@.map(|i: int, v: usize| v as int) + idxs =~= idxs);
                },
                None => {},
            }
            match resolve_names(table@.columns, rcs) {
                Some(ns) => {
                    assert(names@.map(|i: int, n: String| n@) + ns =~= ns);
                },
                None => {},
            }
        }
        while rc < select.core.result_columns.len()
            invariant
                rc <= rcs.len(),
                rcs == select.core.result_columns@.map(|i: int, c: ResultColumn| c@),
                rcs == select@.result_columns,
                tviews == self.db.tables_metadata@.map(|i: int, t: TableMetadata| t@),
                table_index(tviews, select@.from) == Some(ti as int),
                0 <= ti < tviews.len(),
                tviews[ti as int] == table@,
                resolve_columns(table@.columns, rcs) == (match resolve_columns(
                    table@.columns,
                    rcs.skip(rc as int),
                ) {
                    Some(rest) => Some(columns@.map(|i: int, v: usize| v as int) + rest),
                    None => None,
                }),
                resolve_names(table@.columns, rcs) == (match resolve_names(
                    table@.columns,
                    rcs.skip(rc as int),
                ) {
                    Some(rest) => Some(names@.map(|i: int, n: String| n@) + rest),
                    None => None,
                }),
            decreases rcs.len() - rc,
        {
            let ghost tail = rcs.skip(rc as int);
            let ghost prev = columns@;
            let ghost prev_names = names@;
            proof {
                assert(tail[0] == rcs[rc as int]);
                assert(tail.drop_first() =~= rcs.skip(rc as int + 1));
            }
            match &select.core.result_columns[rc] {
                ResultColumn::Star => {
                    let n = table.columns.len();
                    let mut k: usize = 0;
                    while k < n
                        invariant
                            k <= n,
                            n == table@.columns.len(),
                            table@.columns == table.columns@.map(|i: int, c: ColumnDef| c@),
                            columns@.len() == prev.len() + k,
                            names@.len() == prev_names.len() + k,
                            forall|j: int| 0 <= j < prev.len() ==> columns@[j] == prev[j],
                            forall|j: int|
                                0 <= j < prev_names.len() ==> names@[j] == prev_names[j],
                            forall|j: int|
                                0 <= j < k ==> #[trigger] columns@[prev.len() + j] == j,
                            forall|j: int|
                                0 <= j < k ==> (#[trigger] names@[prev_names.len() + j])@
                                    == table@.columns[j].name,
                        decreases n - k,
                    {
                        columns.push(k);
                        names.push(table.columns[k].name.clone());
                        k = k + 1;
                    }
                    proof {
                        let lhs = columns@.map(|i: int, v: usize| v as int);
                        let rhs = prev.map(|i: int, v: usize| v as int) + Seq::new(
                            table@.columns.len(),
                            |i: int| i,
                        );
                        assert forall|j: int| 0 <= j < lhs.len() implies lhs[j] == rhs[j] by {
                            assert(lhs[j] == columns@[j] as int);
                            if j < prev.len() {
                                assert(columns@[j] == prev[j]);
                            } else {
                                assert(columns@[prev.len() + (j - prev.len())] == j - prev.len());
                            }
                        }
                        assert(lhs =~= rhs);
                        let lhs_n = names@.map(|i: int, nm: String| nm@);
                        let rhs_n = prev_names.map(|i: int, nm: String| nm@) + Seq::new(
                            table@.columns.len(),
                            |i: int| table@.columns[i].name,
                        );
                        assert forall|j: int| 0 <= j < lhs_n.len() implies lhs_n[j] == rhs_n[j] by {
                            assert(lhs_n[j] == names@[j]@);
                            if j < prev_names.len() {
                                assert(names@[j] == prev_names[j]);
                            } else {
                                assert((names@[prev_names.len() + (j - prev_names.len())])@
                                    == table@.columns[j - prev_names.len()].name);
                            }
                        }
                        assert(lhs_n =~= rhs_n);
                    }
                },
                ResultColumn::Expr(e) => {
                    let col: &String = match &e.expr {
                        Expr::Column(cname) => cname,
                        _ => {
                            proof {
                                assert(resolve_one(table@.columns, tail[0]) is None);
                                assert(resolve_columns(table@.columns, rcs.skip(rc as int))
                                    is None);
                                assert(resolve_columns(table@.columns, rcs) is None);
                            }
                            return Err(DbError::new(ErrorKind::Plan, "Expecting a column name"));
                        },
                    };
                    match find_col_index(table, col) {
                        Some(index) => {
                            columns.push(index);
                            match &e.alias {
                                Some(a) => names.push(a.clone()),
                                None => names.push(col.clone()),
                            }
                            proof {
                                assert(columns@.map(|i: int, v: usize| v as int) =~= prev.map(
                                    |i: int, v: usize| v as int,
                                ) + seq![index as int]);
                                assert(resolve_names_one(table@.columns, tail[0]) is Some);
                                assert(names@.map(|i: int, nm: String| nm@) =~= prev_names.map(
                                    |i: int, nm: String| nm@,
                                ) + resolve_names_one(table@.columns, tail[0])->Some_0);
                            }
                        },
                        None => {
                            proof {
                                assert(resolve_one(table@.columns, tail[0]) is None);
                                assert(resolve_columns(table@.columns, rcs.skip(rc as int))
                                    is None);
                                assert(resolve_columns(table@.columns, rcs) is None);
                            }
                            return Err(DbError::new(ErrorKind::Schema, "invalid column name"));
                        },
                    }
                },
            }
            rc = rc + 1;
            proof {
                match resolve_columns(table@.columns, rcs.skip(rc as int)) {
                    Some(rest) => {
                        assert(resolve_one(table@.columns, tail[0]) is Some);
                        assert(columns@.map(|i: int, v: usize| v as int) + rest =~= prev.map(
                            |i: int, v: usize| v as int,
                        ) + (resolve_one(table@.columns, tail[0])->Some_0 + rest));
                    },
                    None => {},
                }
                match resolve_names(table@.columns, rcs.skip(rc as int)) {
                    Some(rest) => {
                        assert(resolve_names_one(table@.columns, tail[0]) is Some);
                        assert(names@.map(|i: int, nm: String| nm@) + rest =~= prev_names.map(
                            |i: int, nm: String| nm@,
                        ) + (resolve_names_one(table@.columns, tail[0])->Some_0 + rest));
                    },
                    None => {},
                }
            }
        }
        proof {
            assert(rcs.skip(rc as int) =~= Seq::empty());
            match resolve_names(table@.columns, rcs.skip(rc as int)) {
                Some(rest) => {
                    assert(names@.map(|i: int, nm: String| nm@) + rest =~= names@.map(
                        |i: int, nm: String| nm@,
                    ));
                },
                None => {},
            }
            match resolve_columns(table@.columns, rcs.skip(rc as int)) {
                Some(rest) => {
                    assert(columns@.map(|i: int, v: usize| v as int) + rest =~= columns@.map(
                        |i: int, v: usize| v as int,
                    ));
                },
                None => {},
            }
        }

        match &select.core.where_clause {
            Some(w) => {
                let wc = match w.as_comparison() {
                    Ok(c) => c,
                    Err(e) => {
                        return Err(e);
                    },
                };
                let predicate = match compile_expr(wc, table) {
                    Ok(p) => p,
                    Err(e) => {
                        return Err(e);
                    },
                };
                let scanner = self.db.scanner(table.first_page);
                let mut sc = SeqScanWithPredicate::new(columns.as_slice(), scanner, predicate);
                sc.set_col_names(names);
                Ok(Operator::SeqScanWithPredicate(sc))
            },
            None => {
                let scanner = self.db.scanner(table.first_page);
                let mut sc = SeqScan::new(columns.as_slice(), scanner);
                sc.set_col_names(names);
                Ok(Operator::SeqScan(sc))
            },
        }
    }
}

} // verus!
