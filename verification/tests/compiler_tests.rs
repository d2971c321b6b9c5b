use rust_sqlite::db::Db;
use rust_sqlite::dbheader::DbHeader;
use rust_sqlite::engine::operator::Operator;
use rust_sqlite::engine::plan::Planner;
use rust_sqlite::error::ErrorKind;
use rust_sqlite::sql::ast::{Expr, Statement, Type};
use rust_sqlite::sql::parser::{parse_create_statement, parse_statement};
use rust_sqlite::sql::tokenizer::Ops;
use rust_sqlite::write_varint;

const PAGE_SIZE: usize = 512;

fn queries_record(fields: &[(Option<i64>, Option<&str>)]) -> Vec<u8> {
    let mut serials: Vec<u8> = Vec::new();
    let mut bodies: Vec<u8> = Vec::new();
    for (i, s) in fields {
        if let Some(v) = i {
            serials.push(6);
            bodies.extend_from_slice(&v.to_be_bytes());
        } else if let Some(t) = s {
            serials.push((13 + 2 * t.len()) as u8);
            bodies.extend_from_slice(t.as_bytes());
        }
    }
    let mut payload = vec![serials.len() as u8];
    payload.extend_from_slice(&serials);
    payload.extend_from_slice(&bodies);
    payload
}

fn queries_leaf_page(base: usize, cells: &[(i64, Vec<u8>)]) -> Vec<u8> {
    let mut page = vec![0u8; PAGE_SIZE];
    page[base] = 0x0d;
    page[base + 3..base + 5].copy_from_slice(&(cells.len() as u16).to_be_bytes());
    let mut cur = PAGE_SIZE;
    let mut ptrs: Vec<u16> = vec![0; cells.len()];
    for (i, (rowid, payload)) in cells.iter().enumerate().rev() {
        let mut cell = write_varint(payload.len() as i64);
        cell.extend_from_slice(&write_varint(*rowid));
        cell.extend_from_slice(payload);
        cur -= cell.len();
        page[cur..cur + cell.len()].copy_from_slice(&cell);
        ptrs[i] = cur as u16;
    }
    page[base + 5..base + 7].copy_from_slice(&(cur as u16).to_be_bytes());
    for (i, p) in ptrs.iter().enumerate() {
        page[base + 8 + 2 * i..base + 10 + 2 * i].copy_from_slice(&p.to_be_bytes());
    }
    page
}

/// A two-page database holding `CREATE TABLE users (id INTEGER, name TEXT)`
/// with a couple of rows, standing in for a database file on disk.
fn queries_test_db() -> Db {
    let header = rust_sqlite::dbheader::format_header(&DbHeader {
        page_size: PAGE_SIZE as u32,
        file_format_w: 1,
        file_format_r: 1,
        max_embedded_payload: 64,
        min_embedded_payload: 32,
        leaf_payload_fraction: 32,
        file_change_counter: 1,
        db_size: 2,
        schema_cookie: 1,
        sq_version: 3047000,
    });
    let master = queries_record(&[
        (None, Some("table")),
        (None, Some("users")),
        (None, Some("users")),
        (Some(2), None),
        (None, Some("CREATE TABLE users (id INTEGER, name TEXT)")),
    ]);
    let mut page1 = queries_leaf_page(100, &[(1, master)]);
    page1[0..100].copy_from_slice(&header);
    let rows = vec![
        (1, queries_record(&[(Some(1), None), (None, Some("kratos"))])),
        (2, queries_record(&[(Some(2), None), (None, Some("atreus"))])),
    ];
    let mut data = page1;
    data.extend_from_slice(&queries_leaf_page(0, &rows));
    Db::from_bytes(data).unwrap()
}

#[test]
fn compiler_tests_simple_select() {
    let db = &queries_test_db();
    let query = "SELECT * FROM users;";
    let parsed = &parse_statement(query, false).unwrap();
    let op = Planner::new(db).compile(parsed);
    assert!(op.is_ok());
    match op.unwrap() {
        Operator::SeqScan(s) => {
            assert_eq!(s.fields.len(), 2);
        }
        _ => panic!("Expected Sequential Scan operation"),
    }
}

#[test]
fn compiler_tests_select_with_columns() {
    let query = "SELECT id, name FROM users;";
    let db = &queries_test_db();
    let parsed = &parse_statement(query, false).unwrap();
    let op = Planner::new(db).compile(parsed);
    assert!(op.is_ok());
    match op.unwrap() {
        Operator::SeqScan(s) => {
            assert_eq!(s.fields.len(), 2);
        }
        _ => panic!("Expected Sequential Scan operation"),
    }
}

#[test]
fn compiler_tests_select_with_where_clause() {
    let query = "SELECT * FROM users WHERE id = 10;";
    let db = &queries_test_db();
    let parsed = &parse_statement(query, false).unwrap();
    let op = Planner::new(db).compile(parsed);
    assert!(op.is_ok());
    match op.unwrap() {
        Operator::SeqScanWithPredicate(s) => match s.predicate {
            Expr::Comparison(l, ops, r) => {
                assert_eq!(*l, Expr::Alias(0));
                assert_eq!(ops, Ops::Eq);
                assert_eq!(*r, Expr::Int(10));
            }
            _ => panic!("Expected a comparison"),
        },
        _ => panic!("Expected Sequential Scan with predicate operation"),
    }
}

#[test]
fn compiler_tests_select_with_where_compound_clause() {
    let query = "SELECT * FROM users WHERE id = 10 or name = 'kratos';";
    let db = &queries_test_db();
    let parsed = &parse_statement(query, false).unwrap();
    let op = Planner::new(db).compile(parsed);
    assert!(op.is_ok());
    match op.unwrap() {
        Operator::SeqScanWithPredicate(s) => match s.predicate {
            Expr::Comparison(l, ops, r) => {
                match *l {
                    Expr::Comparison(l, ops, r) => {
                        assert_eq!(*l, Expr::Alias(0));
                        assert_eq!(ops, Ops::Eq);
                        assert_eq!(*r, Expr::Int(10));
                    }
                    _ => panic!("Expected a comparison"),
                }
                assert_eq!(ops, Ops::Or);
                match *r {
                    Expr::Comparison(l, ops, r) => {
                        assert_eq!(*l, Expr::Alias(1));
                        assert_eq!(ops, Ops::Eq);
                        assert_eq!(*r, Expr::Text("kratos".to_string()));
                    }
                    _ => panic!("Expected a comparison"),
                }
            }
            _ => panic!("Expected a comparison"),
        },
        _ => panic!("Expected Sequential Scan with predicate operation"),
    }
}

#[test]
fn compiler_tests_create_statement_function() {
    let query = "CREATE TABLE users (id INTEGER)";
    let result = parse_create_statement(query);
    assert!(result.is_ok());

    let create_stmt = result.unwrap();
    assert_eq!(create_stmt.name, "users");
    assert_eq!(create_stmt.columns[0].name, "id");
    assert_eq!(create_stmt.columns[0].col_type, Type::Integer);
}

#[test]
fn create_table() {}

#[test]
fn compiler_tests_create_table_with_various_types() {
    let query = "CREATE TABLE test (id INTEGER, value REAL, data TEXT, raw BLOB)";
    let result = parse_statement(query, false);
    assert!(result.is_ok());

    if let Ok(Statement::CreateTable(create_stmt)) = result {
        assert_eq!(create_stmt.columns[0].col_type, Type::Integer);
        assert_eq!(create_stmt.columns[1].col_type, Type::Real);
        assert_eq!(create_stmt.columns[2].col_type, Type::Text);
        assert_eq!(create_stmt.columns[3].col_type, Type::Blob);
    } else {
        panic!("Expected CREATE TABLE statement");
    }
}

#[test]
fn compiler_tests_invalid_statement() {
    let query = "INVALID statement";
    let result = parse_statement(query, false);
    assert!(result.is_err());
}

#[test]
fn compiler_tests_create_with_unsupported_type() {
    let query = "CREATE TABLE test (data INVALID_TYPE)";
    let result = parse_statement(query, false);
    assert!(result.is_err());
    assert!(result.unwrap_err().message.contains("unsupported type"));
}

#[test]
fn compiler_tests_display_names() {
    let db = &queries_test_db();
    let parsed = parse_statement("SELECT name AS who, id FROM users;", false).unwrap();
    match Planner::new(db).compile(&parsed).unwrap() {
        Operator::SeqScan(s) => {
            assert_eq!(s.fields, vec![1, 0]);
            assert_eq!(s.col_names, vec!["who".to_string(), "id".to_string()]);
        }
        _ => panic!("Expected Sequential Scan operation"),
    }
    let parsed = parse_statement("SELECT * FROM users;", false).unwrap();
    match Planner::new(db).compile(&parsed).unwrap() {
        Operator::SeqScan(s) => {
            assert_eq!(s.col_names, vec!["id".to_string(), "name".to_string()]);
        }
        _ => panic!("Expected Sequential Scan operation"),
    }
}

#[test]
fn compile_rejects_create_statements() {
    let db = &queries_test_db();
    let parsed = parse_statement("CREATE TABLE t (c INTEGER)", false).unwrap();
    let err = Planner::new(db).compile(&parsed).unwrap_err();
    assert_eq!(err.kind, ErrorKind::Plan);
}
