use citerne::attributes::{AttrError, AttrToken, CiterneAttributes, ListToken};

fn ident(s: &str) -> AttrToken {
    AttrToken::Ident(s.to_string())
}

fn lit(s: &str) -> AttrToken {
    AttrToken::Literal(s.to_string())
}

fn list(items: &[&str]) -> AttrToken {
    let mut v = Vec::new();
    for (i, item) in items.iter().enumerate() {
        if i > 0 {
            v.push(ListToken::Comma);
        }
        v.push(ListToken::Literal(item.to_string()));
    }
    AttrToken::Bracketed(v)
}

#[test]
fn parse_single_migration_directory() {
    let toks = vec![ident("migrations"), AttrToken::Eq, list(&["\"./migrations\""])];
    let a = CiterneAttributes::parse(&toks).ok().unwrap();
    assert_eq!(a.migrations, vec!["./migrations".to_string()]);
    assert_eq!(a.sql, None);
}

#[test]
fn parse_directory_then_script_keeps_order() {
    let toks = vec![
        ident("migrations"),
        AttrToken::Eq,
        list(&["\"./migrations\"", "\"./tests/dummy.sql\""]),
    ];
    let a = CiterneAttributes::parse(&toks).ok().unwrap();
    assert_eq!(a.migrations, vec!["./migrations".to_string(), "./tests/dummy.sql".to_string()]);
}

#[test]
fn parse_sql_without_separating_comma() {
    let toks = vec![
        ident("migrations"),
        AttrToken::Eq,
        list(&["\"./migrations\""]),
        ident("sql"),
        AttrToken::Eq,
        lit("r#\"\n   INSERT INTO dummy (value) VALUES ('yeah');\n   INSERT INTO dummy (value) VALUES ('yo');\n\"#"),
    ];
    let a = CiterneAttributes::parse(&toks).ok().unwrap();
    assert_eq!(
        a.sql,
        Some("\n   INSERT INTO dummy (value) VALUES ('yeah');\n   INSERT INTO dummy (value) VALUES ('yo');\n".to_string())
    );
}

#[test]
fn parse_attributes_separated_by_comma() {
    let toks = vec![
        ident("sql"),
        AttrToken::Eq,
        lit("\"SELECT 1;\""),
        AttrToken::Comma,
        ident("migrations"),
        AttrToken::Eq,
        list(&["\"./m\""]),
        AttrToken::Comma,
    ];
    let a = CiterneAttributes::parse(&toks).ok().unwrap();
    assert_eq!(a.migrations, vec!["./m".to_string()]);
    assert_eq!(a.sql, Some("SELECT 1;".to_string()));
}

#[test]
fn parse_decodes_escapes() {
    let toks = vec![ident("migrations"), AttrToken::Eq, list(&["\"./a\\\"b\\\\c\""])];
    let a = CiterneAttributes::parse(&toks).ok().unwrap();
    assert_eq!(a.migrations, vec!["./a\"b\\c".to_string()]);
}

#[test]
fn parse_trailing_comma_in_list() {
    let toks = vec![
        ident("migrations"),
        AttrToken::Eq,
        AttrToken::Bracketed(vec![ListToken::Literal("\"./m\"".to_string()), ListToken::Comma]),
    ];
    let a = CiterneAttributes::parse(&toks).ok().unwrap();
    assert_eq!(a.migrations, vec!["./m".to_string()]);
}

#[test]
fn parse_no_migrations_is_refused() {
    let toks = vec![ident("sql"), AttrToken::Eq, lit("\"SELECT 1;\"")];
    assert!(matches!(CiterneAttributes::parse(&toks), Err(AttrError::NoMigrations)));
    let empty = vec![ident("migrations"), AttrToken::Eq, AttrToken::Bracketed(vec![])];
    assert!(matches!(CiterneAttributes::parse(&empty), Err(AttrError::NoMigrations)));
    assert!(matches!(CiterneAttributes::parse(&vec![]), Err(AttrError::NoMigrations)));
}

#[test]
fn parse_unknown_attribute() {
    let toks = vec![ident("seed"), AttrToken::Eq, lit("\"x\"")];
    match CiterneAttributes::parse(&toks) {
        Err(AttrError::UnknownAttribute(name)) => assert_eq!(name, "seed"),
        _ => panic!("expected an unknown attribute"),
    }
}

#[test]
fn parse_missing_eq() {
    let toks = vec![ident("migrations"), list(&["\"./m\""])];
    assert!(matches!(CiterneAttributes::parse(&toks), Err(AttrError::ExpectedEq)));
}

#[test]
fn parse_migrations_not_bracketed() {
    let toks = vec![ident("migrations"), AttrToken::Eq, lit("\"./m\"")];
    assert!(matches!(CiterneAttributes::parse(&toks), Err(AttrError::ExpectedBracket)));
}

#[test]
fn parse_sql_not_a_string() {
    let toks = vec![ident("migrations"), AttrToken::Eq, list(&["\"./m\""]), ident("sql"), AttrToken::Eq, lit("42")];
    assert!(matches!(CiterneAttributes::parse(&toks), Err(AttrError::ExpectedString)));
}

#[test]
fn parse_list_missing_comma() {
    let toks = vec![
        ident("migrations"),
        AttrToken::Eq,
        AttrToken::Bracketed(vec![
            ListToken::Literal("\"./a\"".to_string()),
            ListToken::Literal("\"./b\"".to_string()),
        ]),
    ];
    assert!(matches!(CiterneAttributes::parse(&toks), Err(AttrError::ExpectedComma)));
}

#[test]
fn parse_leftover_tokens() {
    let toks = vec![ident("migrations"), AttrToken::Eq, list(&["\"./m\""]), AttrToken::Other];
    assert!(matches!(CiterneAttributes::parse(&toks), Err(AttrError::UnexpectedToken)));
    let inner = vec![
        ident("migrations"),
        AttrToken::Eq,
        AttrToken::Bracketed(vec![ListToken::Literal("\"./m\"".to_string()), ListToken::Comma, ListToken::Other]),
    ];
    assert!(matches!(CiterneAttributes::parse(&inner), Err(AttrError::UnexpectedToken)));
}

#[test]
fn parse_migrations_list_reports_leftover() {
    let items = vec![ListToken::Literal("\"./m\"".to_string()), ListToken::Comma, ListToken::Other];
    let (values, left) = CiterneAttributes::parse_migrations(&items).ok().unwrap();
    assert_eq!(values, vec!["./m".to_string()]);
    assert!(left);
}
