use rust_sqlite::cursor::value::Value;
use rust_sqlite::sql::ast::{Expr, RealLit};
use rust_sqlite::sql::tokenizer::{tokenize, Ops, Token};

#[test]
fn test_tokenize_simple_select() {
    let input = "SELECT * FROM users";
    let tokens = tokenize(input).unwrap();

    assert_eq!(
        tokens,
        vec![Token::Select, Token::Star, Token::From, Token::Identifier("users".to_string())]
    );
}

#[test]
fn test_tokenize_create_table() {
    let input = "CREATE TABLE users (id INTEGER, name TEXT)";
    let tokens = tokenize(input).unwrap();

    assert_eq!(
        tokens,
        vec![
            Token::Create,
            Token::Table,
            Token::Identifier("users".to_string()),
            Token::LPar,
            Token::Identifier("id".to_string()),
            Token::Identifier("integer".to_string()),
            Token::Comma,
            Token::Identifier("name".to_string()),
            Token::Identifier("text".to_string()),
            Token::RPar
        ]
    );
}

#[test]
fn test_tokenize_where_clause() {
    let input = "SELECT * FROM users WHERE id = 10";
    let tokens = tokenize(input).unwrap();

    assert_eq!(
        tokens,
        vec![
            Token::Select,
            Token::Star,
            Token::From,
            Token::Identifier("users".to_string()),
            Token::Where,
            Token::Identifier("id".to_string()),
            Token::Op(Ops::Eq),
            Token::Int(10)
        ]
    );
}

#[test]
fn test_tokenize_comparison_operators() {
    let input = "= != < > <= >=";
    let tokens = tokenize(input).unwrap();

    assert_eq!(
        tokens,
        vec![
            Token::Op(Ops::Eq),
            Token::Op(Ops::Ne),
            Token::Op(Ops::Lt),
            Token::Op(Ops::Gt),
            Token::Op(Ops::Loe),
            Token::Op(Ops::Goe)
        ]
    );
}

#[test]
fn test_tokenize_numbers() {
    let input = "123 45.67";
    let tokens = tokenize(input).unwrap();

    assert_eq!(
        tokens,
        vec![Token::Int(123), Token::Real(RealLit { mantissa: 4567, scale: 2 })]
    );
}

#[test]
fn test_tokenize_string() {
    let input = "'hello world'";
    let tokens = tokenize(input).unwrap();

    assert_eq!(tokens, vec![Token::String("hello world".to_string())]);
}

#[test]
fn test_tokenize_null() {
    let input = "NULL";
    let tokens = tokenize(input).unwrap();

    assert_eq!(tokens, vec![Token::Null]);
}

#[test]
fn test_tokenize_logical_operators() {
    let input = "AND OR";
    let tokens = tokenize(input).unwrap();

    assert_eq!(tokens, vec![Token::Op(Ops::And), Token::Op(Ops::Or)]);
}

#[test]
fn test_tokenize_string_keeps_case() {
    // Literal content is verbatim; only keywords and identifiers lower-case.
    let tokens = tokenize("SELECT 'Bob AB_1'").unwrap();
    assert_eq!(tokens, vec![Token::Select, Token::String("Bob AB_1".to_string())]);
}

#[test]
fn test_tokenize_unterminated_string() {
    let result = tokenize("'oops");
    assert!(result.is_err());
}

#[test]
fn test_tokenize_real_scale_limit() {
    // Up to 18 fractional digits tokenize; a 19th is refused.
    let ok = tokenize("0.123456789012345678").unwrap();
    assert_eq!(ok, vec![Token::Real(RealLit { mantissa: 123456789012345678, scale: 18 })]);
    assert!(tokenize("0.1234567890123456789").is_err());
}

#[test]
fn test_token_as_identifier() {
    let token = Token::Identifier("test".to_string());
    assert_eq!(token.as_identifier(), Some("test"));

    let token = Token::Select;
    assert_eq!(token.as_identifier(), None);
}

#[test]
fn test_token_as_op() {
    let token = Token::Op(Ops::Eq);
    assert_eq!(token.as_op(), Some(&Ops::Eq));

    let token = Token::Select;
    assert_eq!(token.as_op(), None);
}

#[test]
fn test_token_as_literal() {
    let token = Token::Int(42);
    assert_eq!(token.as_literal(), Some(Expr::Int(42)));

    let token = Token::Real(RealLit { mantissa: 314, scale: 2 });
    assert_eq!(token.as_literal(), Some(Expr::Real(RealLit { mantissa: 314, scale: 2 })));

    let token = Token::String("hello".to_string());
    assert_eq!(token.as_literal(), Some(Expr::Text("hello".to_string())));

    let token = Token::Null;
    assert_eq!(token.as_literal(), Some(Expr::Null));

    let token = Token::Select;
    assert_eq!(token.as_literal(), None);
}

#[test]
fn test_ops_compare() {
    let one = || Value::Int(1);
    let two = || Value::Int(2);
    assert!(Ops::Eq.compare(one(), one()));
    assert!(!Ops::Eq.compare(one(), two()));
    assert!(Ops::Ne.compare(one(), two()));
    assert!(Ops::Lt.compare(one(), two()));
    assert!(!Ops::Gt.compare(one(), two()));
    assert!(Ops::Loe.compare(one(), one()));
    assert!(Ops::Goe.compare(two(), one()));

    // Text compares codepoint-wise; mixed kinds are never equal.
    assert!(Ops::Lt.compare(
        Value::String("abc".to_string()),
        Value::String("abd".to_string())
    ));
    assert!(!Ops::Eq.compare(Value::Int(1), Value::String("1".to_string())));
    assert!(Ops::Ne.compare(Value::Int(1), Value::String("1".to_string())));

    // NULL equals only NULL.
    assert!(Ops::Eq.compare(Value::Null, Value::Null));
    assert!(!Ops::Lt.compare(Value::Null, Value::Null));

    // Real bit patterns compare as the numbers they encode.
    let f = |x: f64| Value::Float(x.to_bits());
    assert!(Ops::Lt.compare(f(1.5), f(2.5)));
    assert!(Ops::Eq.compare(f(0.0), f(-0.0)));
    assert!(!Ops::Eq.compare(f(f64::NAN), f(f64::NAN)));
    assert!(Ops::Lt.compare(f(-3.0), f(-2.0)));
}
