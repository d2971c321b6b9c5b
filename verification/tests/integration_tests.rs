use rust_sqlite::cursor::value::OwnedValue;
use rust_sqlite::db::Db;
use rust_sqlite::dbheader::DbHeader;
use rust_sqlite::engine::operator::Operator;
use rust_sqlite::engine::plan::Planner;
use rust_sqlite::error::ErrorKind;
use rust_sqlite::page::pager::Pager;
use rust_sqlite::sql::parser::parse_statement;
use rust_sqlite::write_varint;

const PAGE_SIZE: usize = 512;

enum F {
    I(i64),
    T(&'static str),
}

fn record(fields: &[F]) -> Vec<u8> {
    let mut serials: Vec<u8> = Vec::new();
    let mut bodies: Vec<u8> = Vec::new();
    for f in fields {
        match f {
            F::I(v) => {
                serials.push(6);
                bodies.extend_from_slice(&v.to_be_bytes());
            }
            F::T(s) => {
                serials.push((13 + 2 * s.len()) as u8);
                bodies.extend_from_slice(s.as_bytes());
            }
        }
    }
    let mut payload = vec![serials.len() as u8];
    payload.extend_from_slice(&serials);
    payload.extend_from_slice(&bodies);
    payload
}

fn leaf_page(base: usize, cells: &[(i64, Vec<u8>)]) -> Vec<u8> {
    let mut page = vec![0u8; PAGE_SIZE];
    page[base] = 0x0d;
    page[base + 3..base + 5].copy_from_slice(&(cells.len() as u16).to_be_bytes());
    page[base + 7] = 0;
    let mut cur = PAGE_SIZE;
    let mut ptrs: Vec<u16> = vec![0; cells.len()];
    for (i, (rowid, payload)) in cells.iter().enumerate().rev() {
        let mut cell = write_varint(payload.len() as i64);
        cell.extend_from_slice(&write_varint(*rowid));
        cell.extend_from_slice(payload);
        cur -= cell.len();
        page[cur..cur + cell.len()].copy_from_slice(&cell);
        ptrs[i] = cur as u16;
    }
    page[base + 5..base + 7].copy_from_slice(&(cur as u16).to_be_bytes());
    for (i, p) in ptrs.iter().enumerate() {
        page[base + 8 + 2 * i..base + 10 + 2 * i].copy_from_slice(&p.to_be_bytes());
    }
    page
}

fn interior_page(cells: &[(u32, i64)], rightmost: u32) -> Vec<u8> {
    let mut page = vec![0u8; PAGE_SIZE];
    page[0] = 0x05;
    page[3..5].copy_from_slice(&(cells.len() as u16).to_be_bytes());
    page[8..12].copy_from_slice(&rightmost.to_be_bytes());
    let mut cur = PAGE_SIZE;
    let mut ptrs: Vec<u16> = vec![0; cells.len()];
    for (i, (child, key)) in cells.iter().enumerate().rev() {
        let mut cell = child.to_be_bytes().to_vec();
        cell.extend_from_slice(&write_varint(*key));
        cur -= cell.len();
        page[cur..cur + cell.len()].copy_from_slice(&cell);
        ptrs[i] = cur as u16;
    }
    page[5..7].copy_from_slice(&(cur as u16).to_be_bytes());
    for (i, p) in ptrs.iter().enumerate() {
        page[12 + 2 * i..14 + 2 * i].copy_from_slice(&p.to_be_bytes());
    }
    page
}

fn header_bytes(n_pages: u32) -> Vec<u8> {
    rust_sqlite::dbheader::format_header(&DbHeader {
        page_size: PAGE_SIZE as u32,
        file_format_w: 1,
        file_format_r: 1,
        max_embedded_payload: 64,
        min_embedded_payload: 32,
        leaf_payload_fraction: 32,
        file_change_counter: 1,
        db_size: n_pages,
        schema_cookie: 1,
        sq_version: 3047000,
    })
}

const USERS_SQL: &str = "CREATE TABLE users (id INTEGER, name TEXT)";

fn master_page(root_page: i64) -> Vec<u8> {
    let master = record(&[F::T("table"), F::T("users"), F::T("users"), F::I(root_page), F::T(USERS_SQL)]);
    let mut page1 = leaf_page(100, &[(1, master)]);
    page1[0..100].copy_from_slice(&header_bytes(2));
    page1
}

fn users_db(rows: &[(i64, &'static str)]) -> Vec<u8> {
    let mut data = master_page(2);
    let cells: Vec<(i64, Vec<u8>)> =
        rows.iter().map(|(id, name)| (*id, record(&[F::I(*id), F::T(name)]))).collect();
    data.extend_from_slice(&leaf_page(0, &cells));
    data
}

fn users_db_tree() -> Vec<u8> {
    // Root page 2 is interior: left child page 3 (keys up to 2), rightmost
    // child page 4.
    let mut data = master_page(2);
    data.extend_from_slice(&interior_page(&[(3, 2)], 4));
    data.extend_from_slice(&leaf_page(
        0,
        &[(1, record(&[F::I(1), F::T("alice")])), (2, record(&[F::I(2), F::T("bob")]))],
    ));
    data.extend_from_slice(&leaf_page(0, &[(3, record(&[F::I(3), F::T("carol")]))]));
    data
}

fn run_query(db: &Db, query: &str) -> Vec<Vec<OwnedValue>> {
    let parsed = parse_statement(query, false).unwrap();
    let mut op = Planner::new(db).compile(&parsed).unwrap();
    let mut rows = Vec::new();
    while let Some(row) = op.next_row().unwrap() {
        rows.push(row);
    }
    rows
}

fn sample_db() -> Db {
    Db::from_bytes(users_db(&[(1, "alice"), (2, "bob"), (3, "carol")])).unwrap()
}

#[test]
fn execute_simple_query() {
    let db = sample_db();
    let rows = run_query(&db, "SELECT * FROM users;");
    assert_eq!(
        rows,
        vec![
            vec![OwnedValue::Int(1), OwnedValue::String("alice".to_string())],
            vec![OwnedValue::Int(2), OwnedValue::String("bob".to_string())],
            vec![OwnedValue::Int(3), OwnedValue::String("carol".to_string())],
        ]
    );
}

#[test]
fn execute_simple_where_query() {
    let db = sample_db();
    let rows = run_query(&db, "SELECT * FROM users where id = 3;");
    assert_eq!(rows, vec![vec![OwnedValue::Int(3), OwnedValue::String("carol".to_string())]]);
}

#[test]
fn execute_where_compound_query() {
    let db = sample_db();
    let rows = run_query(&db, "SELECT * FROM users where id = 3 and name = 'prince';");
    assert_eq!(rows.len(), 0);
}

#[test]
fn select_name_where_id() {
    let db = sample_db();
    let rows = run_query(&db, "SELECT name FROM users WHERE id = 2;");
    assert_eq!(rows, vec![vec![OwnedValue::String("bob".to_string())]]);
}

#[test]
fn select_where_and_matches() {
    let db = sample_db();
    let rows = run_query(&db, "SELECT * FROM users WHERE id = 3 AND name = 'carol';");
    assert_eq!(rows, vec![vec![OwnedValue::Int(3), OwnedValue::String("carol".to_string())]]);
}

#[test]
fn select_where_and_misses() {
    let db = sample_db();
    let rows = run_query(&db, "SELECT * FROM users WHERE id = 3 AND name = 'nope';");
    assert_eq!(rows.len(), 0);
}

#[test]
fn select_where_or() {
    let db = sample_db();
    let rows = run_query(&db, "SELECT * FROM users WHERE id = 1 OR name = 'carol';");
    assert_eq!(
        rows,
        vec![
            vec![OwnedValue::Int(1), OwnedValue::String("alice".to_string())],
            vec![OwnedValue::Int(3), OwnedValue::String("carol".to_string())],
        ]
    );
}

#[test]
fn scanner_visits_every_tree_row_once() {
    let db = Db::from_bytes(users_db_tree()).unwrap();
    let rows = run_query(&db, "SELECT * FROM users;");
    assert_eq!(
        rows,
        vec![
            vec![OwnedValue::Int(1), OwnedValue::String("alice".to_string())],
            vec![OwnedValue::Int(2), OwnedValue::String("bob".to_string())],
            vec![OwnedValue::Int(3), OwnedValue::String("carol".to_string())],
        ]
    );

    let mut scanner = db.scanner(2);
    let mut seen = 0;
    while let Some(_) = scanner.next_record().unwrap() {
        seen += 1;
    }
    assert_eq!(seen, 3);
    assert!(scanner.next_record().unwrap().is_none());
}

#[test]
fn bad_magic_reports_format_error() {
    let mut data = users_db(&[(1, "alice")]);
    data[0..16].copy_from_slice(b"Not a database!\0");
    let err = match Db::from_bytes(data) {
        Ok(_) => panic!("expected a Format error"),
        Err(e) => e,
    };
    assert_eq!(err.kind, ErrorKind::Format);
    assert!(err.message.contains("Invalid header prefix"));
}

#[test]
fn unknown_table_reports_schema_error() {
    let db = sample_db();
    let parsed = parse_statement("SELECT * FROM missing;", false).unwrap();
    let err = Planner::new(&db).compile(&parsed).unwrap_err();
    assert_eq!(err.kind, ErrorKind::Schema);
    assert!(err.message.contains("invalid table name"));
}

#[test]
fn unknown_column_reports_schema_error() {
    let db = sample_db();
    let parsed = parse_statement("SELECT nope FROM users;", false).unwrap();
    let err = Planner::new(&db).compile(&parsed).unwrap_err();
    assert_eq!(err.kind, ErrorKind::Schema);
    assert!(err.message.contains("invalid column name"));
}

#[test]
fn invalid_text_field_reports_format_error() {
    // A row whose name field holds one byte that is not valid UTF-8.
    let mut data = master_page(2);
    let mut bad_row = vec![2u8, 6, 15];
    bad_row.extend_from_slice(&1i64.to_be_bytes());
    bad_row.push(0xFF);
    data.extend_from_slice(&leaf_page(0, &[(1, bad_row)]));
    let db = Db::from_bytes(data).unwrap();
    let parsed = parse_statement("SELECT * FROM users;", false).unwrap();
    let mut op = Planner::new(&db).compile(&parsed).unwrap();
    let err = op.next_row().unwrap_err();
    assert_eq!(err.kind, ErrorKind::Format);
    assert!(err.message.contains("invalid UTF-8"));
}

#[test]
fn real_literal_against_integer_field_is_mixed() {
    // An integer field never equals a decimal literal; only `!=` holds.
    let db = sample_db();
    let rows = run_query(&db, "SELECT * FROM users WHERE id = 1.5;");
    assert_eq!(rows.len(), 0);
    let rows = run_query(&db, "SELECT name FROM users WHERE id != 1.5;");
    assert_eq!(rows.len(), 3);
}

fn items_db() -> Db {
    // A table with a REAL column: serial type 7, the 8-byte IEEE-754 body.
    let sql = "CREATE TABLE items (id INTEGER, price REAL)";
    let master = {
        let mut serials: Vec<u8> = Vec::new();
        let mut bodies: Vec<u8> = Vec::new();
        for text in ["table", "items", "items"] {
            serials.push((13 + 2 * text.len()) as u8);
            bodies.extend_from_slice(text.as_bytes());
        }
        serials.push(6);
        bodies.extend_from_slice(&2i64.to_be_bytes());
        serials.push((13 + 2 * sql.len()) as u8);
        bodies.extend_from_slice(sql.as_bytes());
        let mut payload = vec![serials.len() as u8];
        payload.extend_from_slice(&serials);
        payload.extend_from_slice(&bodies);
        payload
    };
    let mut page1 = leaf_page(100, &[(1, master)]);
    page1[0..100].copy_from_slice(&header_bytes(2));

    let item_record = |id: i64, price: f64| -> Vec<u8> {
        let mut payload = vec![2u8, 6, 7];
        payload.extend_from_slice(&id.to_be_bytes());
        payload.extend_from_slice(&price.to_bits().to_be_bytes());
        payload
    };
    let cells = vec![
        (1, item_record(1, 1.5)),
        (2, item_record(2, 0.1)),
        (3, item_record(3, -2.25)),
    ];
    let mut data = page1;
    data.extend_from_slice(&leaf_page(0, &cells));
    Db::from_bytes(data).unwrap()
}

#[test]
fn real_field_compares_exactly_with_decimal_literals() {
    let db = items_db();
    // 1.5 is exactly representable: equality holds.
    let rows = run_query(&db, "SELECT id FROM items WHERE price = 1.5;");
    assert_eq!(rows, vec![vec![OwnedValue::Int(1)]]);
    // The double nearest to 0.1 is slightly above 0.1, so `> 0.1` holds
    // for that stored value and `= 0.1` does not.
    let rows = run_query(&db, "SELECT id FROM items WHERE price = 0.1;");
    assert_eq!(rows.len(), 0);
    let rows = run_query(&db, "SELECT id FROM items WHERE price > 0.1;");
    assert_eq!(rows, vec![vec![OwnedValue::Int(1)], vec![OwnedValue::Int(2)]]);
    // A negative field sits below every non-negative literal.
    let rows = run_query(&db, "SELECT id FROM items WHERE price < 0.0;");
    assert_eq!(rows, vec![vec![OwnedValue::Int(3)]]);
    let rows = run_query(&db, "SELECT id FROM items WHERE price <= 1.5;");
    assert_eq!(rows.len(), 3);
}

#[test]
fn index_pages_are_unimplemented() {
    let mut page = vec![0u8; PAGE_SIZE];
    page[0] = 0x0a; // leaf index page
    let pager = Pager::new(page, PAGE_SIZE);
    let err = pager.read_page(0).unwrap_err();
    assert_eq!(err.kind, ErrorKind::Unimplemented);
}

#[test]
fn unknown_page_type_reports_format_error() {
    let mut page = vec![0u8; PAGE_SIZE];
    page[0] = 0x42;
    let pager = Pager::new(page, PAGE_SIZE);
    let err = pager.read_page(0).unwrap_err();
    assert_eq!(err.kind, ErrorKind::Format);
}

#[test]
fn missing_page_reports_io_error() {
    let db = sample_db();
    let mut scanner = db.scanner(9);
    let err = scanner.next_record().unwrap_err();
    assert_eq!(err.kind, ErrorKind::Io);
}

#[test]
fn select_without_trailing_semicolon_is_accepted() {
    let db = sample_db();
    let rows = run_query(&db, "SELECT name FROM users WHERE id = 1");
    assert_eq!(rows, vec![vec![OwnedValue::String("alice".to_string())]]);
}

#[test]
fn operator_projects_declared_width() {
    let db = sample_db();
    let parsed = parse_statement("SELECT id, name FROM users;", false).unwrap();
    let op = Planner::new(&db).compile(&parsed).unwrap();
    match &op {
        Operator::SeqScan(s) => {
            assert_eq!(s.fields, vec![0, 1]);
        }
        _ => panic!("Expected Sequential Scan operation"),
    }
    let mut op = op;
    let first = op.next_row().unwrap().unwrap();
    assert_eq!(first.len(), 2);
    assert_eq!(first, vec![OwnedValue::Int(1), OwnedValue::String("alice".to_string())]);
}
