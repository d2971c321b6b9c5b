//! The database handle: header, pager, and the schema recovered from the
//! `sqlite_master` table at root page 1.

use vstd::prelude::*;
use vstd::string::StringExecFns;

use crate::cursor::cursor::{Cursor, field_value};
use crate::cursor::record::record_header_parse;
use crate::cursor::scanner::{Scanner, leaf_rows, wf_leaf_table};
use crate::cursor::value::{Value, ValueView};
use crate::dbheader::{DbHeader, HEADER_SIZE, header_parse, parse_header};
use crate::error::{DbError, ErrorKind};
use crate::page::pager::{Pager, page_read};
use crate::sql::ast::{ColumnDef, ColumnDefView, StatementView};
use crate::sql::parser::{parse_create_statement, sp_parse};

verus! {

/// One user table: its name, columns, and root page.
#[derive(Debug, Clone)]
pub struct TableMetadata {
    pub name: String,
    pub columns: Vec<ColumnDef>,
    pub first_page: usize,
}

/// The mathematical content of a [`TableMetadata`].
pub struct TableMetadataView {
    pub name: Seq<char>,
    pub columns: Seq<ColumnDefView>,
    pub first_page: int,
}

impl View for TableMetadata {
    type V = TableMetadataView;

    open spec fn view(&self) -> TableMetadataView {
        TableMetadataView {
            name: self.name@,
            columns: self.columns@.map(|i: int, c: ColumnDef| c@),
            first_page: self.first_page as int,
        }
    }
}

/// An open database: its header, the schema, and the pager over its bytes.
pub struct Db {
    pub header: DbHeader,
    pub tables_metadata: Vec<TableMetadata>,
    pub pager: Pager,
}

/// What one `sqlite_master` row contributes to the schema: nothing for a
/// row whose first field is not the text `table`; for a table row, the name
/// and columns recovered by parsing the stored `CREATE TABLE` text in field
/// 4, rooted at the page named by field 3.
pub open spec fn master_row_entry(pl: Seq<u8>) -> Result<Option<TableMetadataView>, ErrorKind> {
    let fs = record_header_parse(pl)->Ok_0;
    if fs.len() == 0 {
        Ok(None)
    } else {
        match field_value(pl, fs[0]) {
            None => Err(ErrorKind::Schema),
            Some(v0) => {
                if !(v0 matches ValueView::Text(t) && t == "table"@) {
                    Ok(None)
                } else if fs.len() <= 4 {
                    Err(ErrorKind::Schema)
                } else {
                    match field_value(pl, fs[4]) {
                        None => Err(ErrorKind::Schema),
                        Some(ValueView::Text(sql)) => match sp_parse(sql, false) {
                            Some(StatementView::CreateTable(c)) => match field_value(pl, fs[3]) {
                                None => Err(ErrorKind::Schema),
                                Some(ValueView::Int(pg)) => {
                                    if 0 <= pg <= usize::MAX {
                                        Ok(
                                            Some(
                                                TableMetadataView {
                                                    name: c.name,
                                                    columns: c.columns,
                                                    first_page: pg,
                                                },
                                            ),
                                        )
                                    } else {
                                        Err(ErrorKind::Schema)
                                    }
                                },
                                Some(_) => Err(ErrorKind::Schema),
                            },
                            _ => Err(ErrorKind::Parse),
                        },
                        Some(_) => Err(ErrorKind::Schema),
                    }
                }
            },
        }
    }
}

/// The schema that the `sqlite_master` rows from `i` onward declare.
pub open spec fn schema_rows(rows: Seq<Seq<u8>>, i: int) -> Result<
    Seq<TableMetadataView>,
    ErrorKind,
>
    decreases rows.len() - i,
    when 0 <= i
{
    if i >= rows.len() {
        Ok(Seq::empty())
    } else {
        match record_header_parse(rows[i]) {
            Err(k) => Err(k),
            Ok(_) => match master_row_entry(rows[i]) {
                Err(k) => Err(k),
                Ok(None) => schema_rows(rows, i + 1),
                Ok(Some(m)) => match schema_rows(rows, i + 1) {
                    Err(k) => Err(k),
                    Ok(rest) => Ok(seq![m] + rest),
                },
            },
        }
    }
}

/// The schema `tables` is exactly what the `sqlite_master` rows at root
/// page 1 declare, whenever that page is a well-formed leaf table.
pub open spec fn schema_loaded(data: Seq<u8>, ps: int, tables: Seq<TableMetadataView>) -> bool {
    wf_leaf_table(data, ps, 1) ==> schema_rows(leaf_rows(page_read(data, ps, 1)->Ok_0), 0) == Ok::<
        Seq<TableMetadataView>,
        ErrorKind,
    >(tables)
}

impl TableMetadata {
    /// Read one `sqlite_master` row: rows whose first field is not the text
    /// `table` contribute nothing; for table rows, field 4 holds the
    /// original `CREATE TABLE` text (parsed to recover the columns) and
    /// field 3 the root page.
    pub fn from_cursor(cursor: &Cursor) -> (r: Result<Option<TableMetadata>, DbError>)
        ensures
            record_header_parse(cursor.payload@) == Ok::<_, ErrorKind>(cursor.header.fields@)
                ==> match r {
                Ok(Some(m)) => master_row_entry(cursor.payload@) == Ok::<
                    Option<TableMetadataView>,
                    ErrorKind,
                >(Some(m@)),
                Ok(None) => master_row_entry(cursor.payload@) == Ok::<
                    Option<TableMetadataView>,
                    ErrorKind,
                >(None),
                Err(e) => master_row_entry(cursor.payload@) == Err::<
                    Option<TableMetadataView>,
                    ErrorKind,
                >(e.kind),
            },
    {
        if cursor.header.fields.len() == 0 {
            return Ok(None);
        }
        let type_value = match cursor.field(0) {
            Some(v) => v,
            None => {
                return Err(DbError::new(ErrorKind::Schema, "invalid type field"));
            },
        };
        let is_table = match &type_value {
            Value::String(s) => *s == String::from_str("table"),
            _ => false,
        };
        if !is_table {
            return Ok(None);
        }

        if cursor.header.fields.len() <= 4 {
            return Err(DbError::new(ErrorKind::Schema, "missing create statement"));
        }
        let create_value = match cursor.field(4) {
            Some(v) => v,
            None => {
                return Err(DbError::new(ErrorKind::Schema, "missing create statement"));
            },
        };
        let create_stmt: String = match create_value {
            Value::String(s) => s,
            _ => {
                return Err(
                    DbError::new(ErrorKind::Schema, "table create statement should be a string"),
                );
            },
        };

        let create = match parse_create_statement(create_stmt.as_str()) {
            Ok(c) => c,
            Err(e) => {
                return Err(e);
            },
        };

        let first_page_value = match cursor.field(3) {
            Some(v) => v,
            None => {
                return Err(DbError::new(ErrorKind::Schema, "missing table first page"));
            },
        };
        let first_page: usize = match &first_page_value {
            Value::Int(i) => {
                if *i >= 0 && *i as u64 <= usize::MAX as u64 {
                    *i as usize
                } else {
                    return Err(
                        DbError::new(ErrorKind::Schema, "table first page out of range"),
                    );
                }
            },
            _ => {
                return Err(
                    DbError::new(ErrorKind::Schema, "table first page should be an integer"),
                );
            },
        };

        Ok(Some(TableMetadata { name: create.name, columns: create.columns, first_page }))
    }
}

impl Db {
    /// The file bytes this database reads from.
    pub closed spec fn data(&self) -> Seq<u8> {
        self.pager.data_view()
    }

    /// The page size the pager uses.
    pub closed spec fn psize(&self) -> int {
        self.pager.psize()
    }

    /// Open a database over the file's bytes: parse the 100-byte header,
    /// build the pager with the header's page size, and collect the schema
    /// from root page 1. Opening fails only for a short file, an invalid
    /// header, or a schema walk that fails; on a file whose `sqlite_master`
    /// page is a well-formed leaf table with a readable schema, success is
    /// owed.
    pub fn from_bytes(data: Vec<u8>) -> (r: Result<Db, DbError>)
        ensures
            match r {
                Ok(db) => {
                    &&& data@.len() >= HEADER_SIZE
                    &&& header_parse(data@.subrange(0, HEADER_SIZE as int)) == Some(db.header)
                    &&& db.data() == data@
                    &&& db.psize() == db.header.page_size
                    &&& schema_loaded(
                        data@,
                        db.header.page_size as int,
                        db.tables_metadata@.map(|i: int, t: TableMetadata| t@),
                    )
                },
                Err(_) => {
                    ||| data@.len() < HEADER_SIZE
                    ||| header_parse(data@.subrange(0, HEADER_SIZE as int)) is None
                    ||| ({
                        let ps = header_parse(
                            data@.subrange(0, HEADER_SIZE as int),
                        )->Some_0.page_size as int;
                        wf_leaf_table(data@, ps, 1) ==> schema_rows(
                            leaf_rows(page_read(data@, ps, 1)->Ok_0),
                            0,
                        ) is Err
                    })
                },
            },
    {
        if data.len() < HEADER_SIZE {
            return Err(DbError::new(ErrorKind::Io, "read db header"));
        }
        let header_buffer = vstd::slice::slice_subrange(data.as_slice(), 0, HEADER_SIZE);
        let header = match parse_header(header_buffer) {
            Ok(h) => h,
            Err(e) => {
                return Err(e);
            },
        };
        let pager = Pager::new(data, header.page_size as usize);
        let tables_metadata = match Self::collect_tables_metadata(pager.duplicate()) {
            Ok(ts) => ts,
            Err(e) => {
                return Err(e);
            },
        };
        Ok(Db { header, pager, tables_metadata })
    }

    /// A scanner over the table B-tree rooted at `page`.
    pub fn scanner(&self, page: usize) -> (r: Scanner)
        ensures
            r.data() == self.data(),
            r.psize() == self.psize(),
            r.root() == page,
    {
        Scanner::new(self.pager.duplicate(), page)
    }

    /// Walk the `sqlite_master` table at root page 1 and keep one entry per
    /// stored user table. When page 1 is a well-formed leaf table, the
    /// result is exactly the schema its rows declare, in row order.
    fn collect_tables_metadata(pager: Pager) -> (r: Result<Vec<TableMetadata>, DbError>)
        ensures
            wf_leaf_table(pager.data_view(), pager.psize(), 1) ==> {
                let rows = leaf_rows(page_read(pager.data_view(), pager.psize(), 1)->Ok_0);
                match r {
                    Ok(ts) => schema_rows(rows, 0) == Ok::<Seq<TableMetadataView>, ErrorKind>(
                        ts@.map(|i: int, t: TableMetadata| t@),
                    ),
                    Err(e) => schema_rows(rows, 0) == Err::<Seq<TableMetadataView>, ErrorKind>(
                        e.kind,
                    ),
                }
            },
    {
        let ghost wf = wf_leaf_table(pager.data_view(), pager.psize(), 1);
        let ghost rows = leaf_rows(page_read(pager.data_view(), pager.psize(), 1)->Ok_0);
        let mut metadata: Vec<TableMetadata> = Vec::new();
        let mut scanner = Scanner::new(pager, 1);
        proof {
            scanner.lemma_budget_nonneg();
            if wf {
                match schema_rows(rows, 0) {
                    Ok(rest) => {
                        assert(metadata@.map(|i: int, t: TableMetadata| t@) + rest =~= rest);
                    },
                    Err(_) => {},
                }
            }
        }
        loop
            invariant
                scanner.budget_left() >= 0,
                wf == wf_leaf_table(pager.data_view(), pager.psize(), 1),
                rows == leaf_rows(page_read(pager.data_view(), pager.psize(), 1)->Ok_0),
                wf ==> {
                    &&& scanner.leaf_ok()
                    &&& scanner.table_rows() == rows
                    &&& 0 <= scanner.leaf_pos() <= rows.len()
                    &&& schema_rows(rows, 0) == (match schema_rows(rows, scanner.leaf_pos()) {
                        Ok(rest) => Ok::<Seq<TableMetadataView>, ErrorKind>(
                            metadata@.map(|i: int, t: TableMetadata| t@) + rest,
                        ),
                        Err(k) => Err::<Seq<TableMetadataView>, ErrorKind>(k),
                    })
                },
            decreases scanner.budget_left(),
        {
            let ghost opos = scanner.leaf_pos();
            let ghost prev = metadata@;
            let record = match scanner.next_record() {
                Ok(Some(rec)) => rec,
                Ok(None) => {
                    proof {
                        if wf {
                            assert(opos == rows.len());
                            assert(schema_rows(rows, opos) == Ok::<
                                Seq<TableMetadataView>,
                                ErrorKind,
                            >(Seq::empty()));
                            match schema_rows(rows, 0) {
                                Ok(all) => {
                                    assert(metadata@.map(|i: int, t: TableMetadata| t@)
                                        + Seq::<TableMetadataView>::empty() =~= metadata@.map(
                                        |i: int, t: TableMetadata| t@,
                                    ));
                                },
                                Err(_) => {},
                            }
                        }
                    }
                    return Ok(metadata);
                },
                Err(e) => {
                    proof {
                        if wf {
                            assert(false);
                        }
                    }
                    return Err(e);
                },
            };
            proof {
                if wf {
                    assert(record.payload@ == rows[opos]);
                    assert(record_header_parse(rows[opos]) == Ok::<_, ErrorKind>(
                        record.header.fields@,
                    ));
                }
            }
            match TableMetadata::from_cursor(&record) {
                Ok(Some(m)) => {
                    metadata.push(m);
                    proof {
                        if wf {
                            match schema_rows(rows, scanner.leaf_pos()) {
                                Ok(rest) => {
                                    assert(metadata@.map(|i: int, t: TableMetadata| t@) =~= prev.map(
                                        |i: int, t: TableMetadata| t@,
                                    ).push(metadata@.last()@));
                                    assert(metadata@.map(|i: int, t: TableMetadata| t@) + rest
                                        =~= prev.map(|i: int, t: TableMetadata| t@) + (seq![
                                        metadata@.last()@,
                                    ] + rest));
                                },
                                Err(_) => {},
                            }
                        }
                    }
                },
                Ok(None) => {
                    proof {
                        if wf {
                            assert(master_row_entry(rows[opos]) == Ok::<
                                Option<TableMetadataView>,
                                ErrorKind,
                            >(None));
                            assert(schema_rows(rows, opos) == schema_rows(
                                rows,
                                scanner.leaf_pos(),
                            ));
                        }
                    }
                },
                Err(e) => {
                    proof {
                        if wf {
                            assert(master_row_entry(rows[opos]) == Err::<
                                Option<TableMetadataView>,
                                ErrorKind,
                            >(e.kind));
                            assert(schema_rows(rows, opos) == Err::<
                                Seq<TableMetadataView>,
                                ErrorKind,
                            >(e.kind));
                        }
                    }
                    return Err(e);
                },
            }
            proof {
                scanner.lemma_budget_nonneg();
            }
        }
    }
}

} // verus!
