//! Volcano-style operators: sequential scan, with and without a predicate.

use vstd::prelude::*;

use crate::cursor::cursor::{Cursor, field_none_kind, field_value};
use crate::cursor::record::{RecordField, record_header_parse};
use crate::cursor::scanner::Scanner;
use crate::cursor::value::{OwnedValue, Value, ValueView, compare_real_lit, real_lit_cmp};
use crate::error::{DbError, ErrorKind};
use crate::sql::ast::{Comparison, Expr, ExprView, expr_view};
use crate::sql::tokenizer::{Ops, ops_compare};

verus! {

/// The nesting depth of an expression.
pub open spec fn ev_depth(e: ExprView) -> nat
    decreases e,
{
    match e {
        ExprView::Comparison(l, _, r) => 1 + ev_depth(*l) + ev_depth(*r),
        _ => 0,
    }
}

/// The value a plain literal expression denotes in a predicate; real
/// literals go through [`real_compare`] instead, and non-literal shapes are
/// not evaluable.
pub open spec fn lit_value(e: ExprView) -> Result<ValueView, ErrorKind> {
    match e {
        ExprView::Null => Ok(ValueView::Null),
        ExprView::Int(i) => Ok(ValueView::Int(i as int)),
        ExprView::Bool(b) => Ok(ValueView::Bool(b)),
        ExprView::Text(t) => Ok(ValueView::Text(t)),
        ExprView::Real(_) => Err(ErrorKind::Unimplemented),
        _ => Err(ErrorKind::Plan),
    }
}

/// What an operator decides between a field value and an exact decimal
/// literal: a real field compares numerically (every comparison against a
/// NaN pattern is false, so `!=` holds); any other field kind is mixed, so
/// only `!=` holds.
pub open spec fn real_compare(op: Ops, v: ValueView, mantissa: u64, scale: u8) -> bool {
    match v {
        ValueView::Float(bits) => match real_lit_cmp(bits, mantissa, scale) {
            None => op is Ne,
            Some(c) => match op {
                Ops::Eq => c == 0,
                Ops::Ne => c != 0,
                Ops::Lt => c < 0,
                Ops::Gt => c > 0,
                Ops::Loe => c <= 0,
                Ops::Goe => c >= 0,
                Ops::And => false,
                Ops::Or => false,
            },
        },
        _ => op is Ne,
    }
}

/// For comparisons against a decimal literal too, `!=` decides exactly the
/// negation of `=`, and each non-strict order the disjunction of its strict
/// order with `=`.
pub proof fn lemma_real_predicate_semantics(v: ValueView, mantissa: u64, scale: u8)
    ensures
        real_compare(Ops::Ne, v, mantissa, scale) == !real_compare(Ops::Eq, v, mantissa, scale),
        real_compare(Ops::Loe, v, mantissa, scale) == (real_compare(Ops::Lt, v, mantissa, scale)
            || real_compare(Ops::Eq, v, mantissa, scale)),
        real_compare(Ops::Goe, v, mantissa, scale) == (real_compare(Ops::Gt, v, mantissa, scale)
            || real_compare(Ops::Eq, v, mantissa, scale)),
{
}

/// What evaluating the comparison `l op r` against one record yields.
///
/// A resolved column index on the left reads that field and compares it
/// with the literal on the right; a comparison on the left demands a
/// comparison on the right, and the operator combines the two truth values.
pub open spec fn eval_cmp(
    p: Seq<u8>,
    fs: Seq<RecordField>,
    l: ExprView,
    op: Ops,
    r: ExprView,
) -> Result<bool, ErrorKind>
    decreases ev_depth(l) + ev_depth(r),
{
    match l {
        ExprView::Alias(i) => {
            if !(0 <= i && i < fs.len()) {
                Err(ErrorKind::Plan)
            } else {
                match field_value(p, fs[i as int]) {
                    None => Err(field_none_kind(p, fs[i as int])),
                    Some(v) => match r {
                        ExprView::Real(lit) => {
                            if lit.scale <= 18 {
                                Ok(real_compare(op, v, lit.mantissa, lit.scale))
                            } else {
                                Err(ErrorKind::Unimplemented)
                            }
                        },
                        _ => match lit_value(r) {
                            Err(k) => Err(k),
                            Ok(lv) => Ok(ops_compare(op, v, lv)),
                        },
                    },
                }
            }
        },
        ExprView::Comparison(ll, lop, lr) => match eval_cmp(p, fs, *ll, lop, *lr) {
            Err(k) => Err(k),
            Ok(lb) => match r {
                ExprView::Comparison(rl, rop, rr) => match eval_cmp(p, fs, *rl, rop, *rr) {
                    Err(k) => Err(k),
                    Ok(rb) => Ok(ops_compare(op, ValueView::Bool(lb), ValueView::Bool(rb))),
                },
                _ => Err(ErrorKind::Plan),
            },
        },
        _ => Err(ErrorKind::Plan),
    }
}

/// Evaluate a comparison predicate against one record.
pub fn apply_where(record: &Cursor, predicate: Comparison) -> (r: Result<bool, DbError>)
    ensures
        match r {
            Ok(b) => eval_cmp(
                record.payload@,
                record.header.fields@,
                expr_view(predicate.l),
                predicate.op,
                expr_view(predicate.r),
            ) == Ok::<bool, ErrorKind>(b),
            Err(e) => eval_cmp(
                record.payload@,
                record.header.fields@,
                expr_view(predicate.l),
                predicate.op,
                expr_view(predicate.r),
            ) == Err::<bool, ErrorKind>(e.kind),
        },
    decreases ev_depth(expr_view(predicate.l)) + ev_depth(expr_view(predicate.r)),
{
    let nf = record.header.fields.len();
    match &predicate.l {
        Expr::Alias(_) => {
            let idx = match predicate.l.as_int() {
                Ok(i) => i,
                Err(e) => {
                    return Err(e);
                },
            };
            if idx >= record.header.fields.len() {
                return Err(DbError::new(ErrorKind::Plan, "missing record field"));
            }
            let v = match record.field(idx) {
                Some(v) => v,
                None => {
                    return Err(record.field_error(idx));
                },
            };
            let lv: Value = match &predicate.r {
                Expr::Null => Value::Null,
                Expr::Int(i) => Value::Int(*i),
                Expr::Bool(b) => Value::Bool(*b),
                Expr::Text(t) => Value::String(t.clone()),
                Expr::Real(lit) => {
                    if lit.scale > 18 {
                        return Err(
                            DbError::new(
                                ErrorKind::Unimplemented,
                                "decimal literal scale out of range",
                            ),
                        );
                    }
                    let res = match &v {
                        Value::Float(bits) => match compare_real_lit(
                            *bits,
                            lit.mantissa,
                            lit.scale,
                        ) {
                            Some(c) => match predicate.op {
                                Ops::Eq => c == 0,
                                Ops::Ne => c != 0,
                                Ops::Lt => c < 0,
                                Ops::Gt => c > 0,
                                Ops::Loe => c <= 0,
                                Ops::Goe => c >= 0,
                                Ops::And => false,
                                Ops::Or => false,
                            },
                            None => matches!(predicate.op, Ops::Ne),
                        },
                        _ => matches!(predicate.op, Ops::Ne),
                    };
                    return Ok(res);
                },
                _ => {
                    return Err(DbError::new(ErrorKind::Plan, "Expected a literal value"));
                },
            };
            Ok(predicate.op.compare(v, lv))
        },
        Expr::Comparison(_, _, _) => {
            let left_cmp = match predicate.l.as_comparison() {
                Ok(c) => c,
                Err(e) => {
                    return Err(e);
                },
            };
            let left = match apply_where(record, left_cmp) {
                Ok(b) => b,
                Err(e) => {
                    return Err(e);
                },
            };
            let right_cmp = match predicate.r.as_comparison() {
                Ok(c) => c,
                Err(e) => {
                    return Err(e);
                },
            };
            let right = match apply_where(record, right_cmp) {
                Ok(b) => b,
                Err(e) => {
                    return Err(e);
                },
            };
            Ok(predicate.op.compare(Value::Bool(left), Value::Bool(right)))
        },
        _ => Err(DbError::new(ErrorKind::Plan, "Expected a truthy value")),
    }
}

/// Materialize the projected fields of one record into an owned row; an
/// error names a projected index whose field carries no value.
pub fn materialize_row(record: &Cursor, fields: &Vec<usize>) -> (r: Result<Vec<OwnedValue>, DbError>)
    ensures
        match r {
            Ok(row) => {
                &&& row@.len() == fields@.len()
                &&& forall|i: int|
                    0 <= i < fields@.len() ==> #[trigger] fields@[i]
                        < record.header.fields@.len() && field_value(
                        record.payload@,
                        record.header.fields@[fields@[i] as int],
                    ) == Some(row@[i]@)
            },
            Err(e) => exists|i: int|
                0 <= i < fields@.len() && (((#[trigger] fields@[i])
                    >= record.header.fields@.len() && e.kind == ErrorKind::Schema) || (fields@[i]
                    < record.header.fields@.len() && field_value(
                    record.payload@,
                    record.header.fields@[fields@[i] as int],
                ) is None && e.kind == field_none_kind(
                    record.payload@,
                    record.header.fields@[fields@[i] as int],
                ))),
        },
{
    let mut row: Vec<OwnedValue> = Vec::new();
    let mut i: usize = 0;
    while i < fields.len()
        invariant
            i <= fields@.len(),
            row@.len() == i,
            forall|j: int|
                0 <= j < i ==> #[trigger] fields@[j] < record.header.fields@.len() && field_value(
                    record.payload@,
                    record.header.fields@[fields@[j] as int],
                ) == Some(row@[j]@),
        decreases fields@.len() - i,
    {
        let n = fields[i];
        if n >= record.header.fields.len() {
            let e = DbError::new(ErrorKind::Schema, "missing record field");
            proof {
                assert(0 <= i < fields@.len() && fields@[i as int]
                    >= record.header.fields@.len() && e.kind == ErrorKind::Schema);
            }
            return Err(e);
        }
        let v = match record.owned_field(n) {
            Some(v) => v,
            None => {
                let e = record.field_error(n);
                proof {
                    assert(0 <= i < fields@.len() && fields@[i as int]
                        < record.header.fields@.len() && field_value(
                        record.payload@,
                        record.header.fields@[fields@[i as int] as int],
                    ) is None && e.kind == field_none_kind(
                        record.payload@,
                        record.header.fields@[fields@[i as int] as int],
                    ));
                }
                return Err(e);
            },
        };
        row.push(v);
        i = i + 1;
    }
    Ok(row)
}

/// Every projected index of a stored row addresses a field that carries a
/// value.
pub open spec fn row_projectable(pl: Seq<u8>, fields: Seq<usize>) -> bool {
    let fs = record_header_parse(pl)->Ok_0;
    forall|i: int|
        0 <= i < fields.len() ==> #[trigger] fields[i] < fs.len() && field_value(
            pl,
            fs[fields[i] as int],
        ) is Some
}

/// The projection of one stored row: for each projected index, the value of
/// that field of the row's record.
pub open spec fn row_projection(pl: Seq<u8>, fields: Seq<usize>, row: Seq<ValueView>) -> bool {
    let fs = record_header_parse(pl)->Ok_0;
    &&& row.len() == fields.len()
    &&& forall|i: int|
        0 <= i < fields.len() ==> #[trigger] fields[i] < fs.len() && field_value(
            pl,
            fs[fields[i] as int],
        ) == Some(row[i])
}

/// Whether one stored row satisfies a comparison predicate, or the kind of
/// error its evaluation reports.
pub open spec fn row_matches(pl: Seq<u8>, pred: ExprView) -> Result<bool, ErrorKind> {
    match pred {
        ExprView::Comparison(l, op, r) => eval_cmp(
            pl,
            record_header_parse(pl)->Ok_0,
            *l,
            op,
            *r,
        ),
        _ => Err(ErrorKind::Plan),
    }
}

/// A sequential scan over one table: pulls records from its scanner and
/// materializes the projected columns.
#[derive(Debug)]
pub struct SeqScan {
    pub fields: Vec<usize>,
    pub col_names: Vec<String>,
    pub scanner: Scanner,
}

/// A sequential scan that hands out only the rows satisfying a predicate.
#[derive(Debug)]
pub struct SeqScanWithPredicate {
    fields: Vec<usize>,
    pub col_names: Vec<String>,
    scanner: Scanner,
    pub predicate: Expr,
}

impl SeqScan {
    /// Build a scan of the given projection over the given traversal; the
    /// planner fills in the display names afterwards.
    pub fn new(fields: &[usize], scanner: Scanner) -> (r: SeqScan)
        ensures
            r.fields@ == fields@,
            r.scanner == scanner,
            r.col_names@ =~= Seq::<String>::empty(),
    {
        SeqScan { fields: vstd::slice::slice_to_vec(fields), col_names: Vec::new(), scanner }
    }

    /// The projected column indices.
    pub open spec fn spec_fields(&self) -> Seq<usize> {
        self.fields@
    }

    /// Record the display names of the projected columns.
    pub fn set_col_names(&mut self, names: Vec<String>)
        ensures
            final(self).col_names@ == names@,
            final(self).fields == old(self).fields,
            final(self).scanner == old(self).scanner,
    {
        self.col_names = names;
    }

    fn next_row(&mut self) -> (r: Result<Option<Vec<OwnedValue>>, DbError>)
        ensures
            final(self).spec_fields() == old(self).spec_fields(),
            match r {
                Ok(Some(row)) => row@.len() == old(self).spec_fields().len(),
                _ => true,
            },
            old(self).scanner.leaf_ok() ==> {
                let rows = old(self).scanner.table_rows();
                let opos = old(self).scanner.leaf_pos();
                &&& final(self).scanner.leaf_ok()
                &&& match r {
                    Ok(Some(row)) => {
                        &&& 0 <= opos < rows.len()
                        &&& final(self).scanner.leaf_pos() == opos + 1
                        &&& row_projection(
                            rows[opos],
                            old(self).spec_fields(),
                            row@.map(|i: int, v: OwnedValue| v@),
                        )
                    },
                    Ok(None) => opos >= rows.len() && final(self).scanner.leaf_pos() >= opos,
                    Err(_) => 0 <= opos < rows.len() && !row_projectable(
                        rows[opos],
                        old(self).spec_fields(),
                    ),
                }
            },
    {
        let ghost lf = self.scanner.leaf_ok();
        let ghost rows = self.scanner.table_rows();
        let ghost opos = self.scanner.leaf_pos();
        let record = match self.scanner.next_record() {
            Ok(Some(rec)) => rec,
            Ok(None) => {
                return Ok(None);
            },
            Err(e) => {
                return Err(e);
            },
        };
        let out = materialize_row(&record, &self.fields);
        proof {
            if lf {
                match out {
                    Err(_) => {
                        assert(record.payload@ == rows[opos]);
                        assert(record_header_parse(rows[opos]) == Ok::<_, ErrorKind>(
                            record.header.fields@,
                        ));
                        assert(!row_projectable(rows[opos], self.fields@));
                    },
                    Ok(_) => {},
                }
            }
        }
        match out {
            Ok(row) => Ok(Some(row)),
            Err(e) => Err(e),
        }
    }
}

impl SeqScanWithPredicate {
    /// Build a filtering scan of the given projection over the given
    /// traversal.
    pub fn new(fields: &[usize], scanner: Scanner, predicate: Expr) -> (r: SeqScanWithPredicate)
        ensures
            r.spec_fields() == fields@,
            r.spec_scanner() == scanner,
            expr_view(r.spec_predicate()) == expr_view(predicate),
            r.spec_col_names() =~= Seq::<String>::empty(),
    {
        SeqScanWithPredicate {
            fields: vstd::slice::slice_to_vec(fields),
            col_names: Vec::new(),
            scanner,
            predicate,
        }
    }

    /// The projected column indices.
    pub closed spec fn spec_fields(&self) -> Seq<usize> {
        self.fields@
    }

    /// The traversal this scan pulls from.
    pub closed spec fn spec_scanner(&self) -> Scanner {
        self.scanner
    }

    /// The lowered predicate this scan filters with.
    pub closed spec fn spec_predicate(&self) -> Expr {
        self.predicate
    }

    /// The display names of the projected columns.
    pub closed spec fn spec_col_names(&self) -> Seq<String> {
        self.col_names@
    }

    /// Record the display names of the projected columns.
    pub fn set_col_names(&mut self, names: Vec<String>)
        ensures
            final(self).spec_col_names() == names@,
            final(self).spec_fields() == old(self).spec_fields(),
            final(self).spec_scanner() == old(self).spec_scanner(),
            final(self).spec_predicate() == old(self).spec_predicate(),
    {
        self.col_names = names;
    }

    fn next_row(&mut self) -> (r: Result<Option<Vec<OwnedValue>>, DbError>)
        ensures
            final(self).spec_fields() == old(self).spec_fields(),
            match r {
                Ok(Some(row)) => row@.len() == old(self).spec_fields().len(),
                _ => true,
            },
            old(self).scanner.leaf_ok() ==> {
                let rows = old(self).scanner.table_rows();
                let opos = old(self).scanner.leaf_pos();
                let pred = expr_view(old(self).predicate);
                &&& final(self).scanner.leaf_ok()
                &&& final(self).predicate == old(self).predicate
                &&& match r {
                    Ok(Some(row)) => {
                        let npos = final(self).scanner.leaf_pos();
                        &&& 0 <= opos < npos <= rows.len()
                        &&& row_matches(rows[npos - 1], pred) == Ok::<bool, ErrorKind>(true)
                        &&& (forall|m: int|
                            opos <= m < npos - 1 ==> row_matches(#[trigger] rows[m], pred) == Ok::<
                                bool,
                                ErrorKind,
                            >(false))
                        &&& row_projection(
                            rows[npos - 1],
                            old(self).spec_fields(),
                            row@.map(|i: int, v: OwnedValue| v@),
                        )
                    },
                    Ok(None) => forall|m: int|
                        opos <= m < rows.len() ==> row_matches(#[trigger] rows[m], pred) == Ok::<
                            bool,
                            ErrorKind,
                        >(false),
                    Err(e) => exists|m: int|
                        opos <= m < rows.len() && ((row_matches(#[trigger] rows[m], pred)
                            == Err::<bool, ErrorKind>(e.kind)) || (row_matches(rows[m], pred)
                            == Ok::<bool, ErrorKind>(true) && !row_projectable(
                            rows[m],
                            old(self).spec_fields(),
                        ))),
                }
            },
    {
        let ghost lf = self.scanner.leaf_ok();
        let ghost rows = self.scanner.table_rows();
        let ghost opos = self.scanner.leaf_pos();
        let ghost pred = expr_view(self.predicate);
        proof {
            self.scanner.lemma_budget_nonneg();
            self.scanner.lemma_leaf_pos_nonneg();
        }
        loop
            invariant
                self.fields@ == old(self).fields@,
                self.predicate == old(self).predicate,
                self.scanner.budget_left() >= 0,
                lf == old(self).scanner.leaf_ok(),
                rows == old(self).scanner.table_rows(),
                opos == old(self).scanner.leaf_pos(),
                pred == expr_view(old(self).predicate),
                lf ==> {
                    &&& self.scanner.leaf_ok()
                    &&& self.scanner.table_rows() == rows
                    &&& 0 <= opos <= self.scanner.leaf_pos()
                    &&& (forall|m: int|
                        opos <= m < self.scanner.leaf_pos() && m < rows.len()
                            ==> row_matches(#[trigger] rows[m], pred) == Ok::<bool, ErrorKind>(
                            false,
                        ))
                },
            decreases self.scanner.budget_left(),
        {
            let ghost jpos = self.scanner.leaf_pos();
            let record = match self.scanner.next_record() {
                Ok(Some(rec)) => rec,
                Ok(None) => {
                    return Ok(None);
                },
                Err(e) => {
                    proof {
                        if lf {
                            assert(false);
                        }
                    }
                    return Err(e);
                },
            };
            let cmp = match self.predicate.as_comparison() {
                Ok(c) => c,
                Err(e) => {
                    proof {
                        if lf {
                            assert(record.payload@ == rows[jpos]);
                            assert(opos <= jpos < rows.len());
                            assert(row_matches(rows[jpos], pred) == Err::<bool, ErrorKind>(
                                ErrorKind::Plan,
                            ));
                        }
                    }
                    return Err(e);
                },
            };
            let keep = match apply_where(&record, cmp) {
                Ok(b) => b,
                Err(e) => {
                    proof {
                        if lf {
                            assert(record.payload@ == rows[jpos]);
                            assert(opos <= jpos < rows.len());
                            assert(row_matches(rows[jpos], pred) == Err::<bool, ErrorKind>(e.kind));
                        }
                    }
                    return Err(e);
                },
            };
            proof {
                if lf {
                    assert(record.payload@ == rows[jpos]);
                    assert(row_matches(rows[jpos], pred) == Ok::<bool, ErrorKind>(keep));
                }
            }
            if !keep {
                proof {
                    self.scanner.lemma_budget_nonneg();
                }
                continue;
            }
            let out = materialize_row(&record, &self.fields);
            proof {
                if lf {
                    match out {
                        Ok(ref row) => {
                            assert(record_header_parse(rows[jpos]) == Ok::<_, ErrorKind>(
                                record.header.fields@,
                            ));
                            assert forall|i: int| 0 <= i < self.fields@.len() implies #[trigger]
                            self.fields@[i] < record.header.fields@.len() && field_value(
                                rows[jpos],
                                record.header.fields@[self.fields@[i] as int],
                            ) == Some(row@.map(|k: int, v: OwnedValue| v@)[i]) by {
                                assert(field_value(
                                    record.payload@,
                                    record.header.fields@[self.fields@[i] as int],
                                ) == Some(row@[i]@));
                            }
                        },
                        Err(_) => {
                            assert(record.payload@ == rows[jpos]);
                            assert(opos <= jpos < rows.len());
                            assert(record_header_parse(rows[jpos]) == Ok::<_, ErrorKind>(
                                record.header.fields@,
                            ));
                            assert(row_matches(rows[jpos], pred) == Ok::<bool, ErrorKind>(true));
                            assert(!row_projectable(rows[jpos], self.fields@));
                        },
                    }
                }
            }
            return match out {
                Ok(row) => Ok(Some(row)),
                Err(e) => Err(e),
            };
        }
    }
}

/// An operator tree: the volcano iterator the planner emits.
#[derive(Debug)]
pub enum Operator {
    SeqScan(SeqScan),
    SeqScanWithPredicate(SeqScanWithPredicate),
}

impl Operator {
    /// The projected column indices of this operator.
    pub open spec fn spec_fields(&self) -> Seq<usize> {
        match self {
            Operator::SeqScan(s) => s.spec_fields(),
            Operator::SeqScanWithPredicate(s) => s.spec_fields(),
        }
    }

    /// The scanner driving this operator.
    pub open spec fn spec_scanner(&self) -> Scanner {
        match self {
            Operator::SeqScan(s) => s.scanner,
            Operator::SeqScanWithPredicate(s) => s.spec_scanner(),
        }
    }

    /// The next row of the result, or `None` once the scan is exhausted.
    ///
    /// Over a well-formed single-leaf-page table, a plain scan hands out the
    /// projection of every stored row in order and then `None`; a filtering
    /// scan hands out the projections of exactly the rows its predicate
    /// accepts, in order, skipping only rows the predicate rejects.
    pub fn next_row(&mut self) -> (r: Result<Option<Vec<OwnedValue>>, DbError>)
        ensures
            final(self).spec_fields() == old(self).spec_fields(),
            match r {
                Ok(Some(row)) => row@.len() == old(self).spec_fields().len(),
                _ => true,
            },
            old(self) matches Operator::SeqScan(_) ==> (*final(self)) matches Operator::SeqScan(_),
            old(self) matches Operator::SeqScanWithPredicate(_) ==> (*final(self))
                matches Operator::SeqScanWithPredicate(_),
            (old(self) matches Operator::SeqScan(_) && old(self).spec_scanner().leaf_ok()) ==> {
                let rows = old(self).spec_scanner().table_rows();
                let opos = old(self).spec_scanner().leaf_pos();
                &&& final(self).spec_scanner().leaf_ok()
                &&& match r {
                    Ok(Some(row)) => {
                        &&& 0 <= opos < rows.len()
                        &&& final(self).spec_scanner().leaf_pos() == opos + 1
                        &&& row_projection(
                            rows[opos],
                            old(self).spec_fields(),
                            row@.map(|i: int, v: OwnedValue| v@),
                        )
                    },
                    Ok(None) => opos >= rows.len(),
                    Err(_) => 0 <= opos < rows.len() && !row_projectable(
                        rows[opos],
                        old(self).spec_fields(),
                    ),
                }
            },
            (old(self) matches Operator::SeqScanWithPredicate(_) && old(
                self,
            ).spec_scanner().leaf_ok()) ==> {
                let sp = old(self)->SeqScanWithPredicate_0;
                let rows = old(self).spec_scanner().table_rows();
                let opos = old(self).spec_scanner().leaf_pos();
                let pred = expr_view(sp.spec_predicate());
                &&& final(self).spec_scanner().leaf_ok()
                &&& match r {
                    Ok(Some(row)) => {
                        let npos = final(self).spec_scanner().leaf_pos();
                        &&& 0 <= opos < npos <= rows.len()
                        &&& row_matches(rows[npos - 1], pred) == Ok::<bool, ErrorKind>(true)
                        &&& (forall|m: int|
                            opos <= m < npos - 1 ==> row_matches(#[trigger] rows[m], pred) == Ok::<
                                bool,
                                ErrorKind,
                            >(false))
                        &&& row_projection(
                            rows[npos - 1],
                            old(self).spec_fields(),
                            row@.map(|i: int, v: OwnedValue| v@),
                        )
                    },
                    Ok(None) => forall|m: int|
                        opos <= m < rows.len() ==> row_matches(#[trigger] rows[m], pred) == Ok::<
                            bool,
                            ErrorKind,
                        >(false),
                    Err(e) => exists|m: int|
                        opos <= m < rows.len() && ((row_matches(#[trigger] rows[m], pred)
                            == Err::<bool, ErrorKind>(e.kind)) || (row_matches(rows[m], pred)
                            == Ok::<bool, ErrorKind>(true) && !row_projectable(
                            rows[m],
                            old(self).spec_fields(),
                        ))),
                }
            },
    {
        match self {
            Operator::SeqScan(s) => s.next_row(),
            Operator::SeqScanWithPredicate(s) => s.next_row(),
        }
    }
}

} // verus!
