use cql_ast::common::{FQName, Identifier};
use cql_ast::create_index::{CreateIndex, IndexColumnType};

fn ident(s: &str) -> Identifier {
    Identifier::new(s.to_string())
}

fn table(s: &str) -> FQName {
    FQName::new(s.to_string())
}

#[test]
fn plain_create_index() {
    let ci = CreateIndex {
        if_not_exists: false,
        name: None,
        table: table("t"),
        column: IndexColumnType::Column(ident("c")),
    };
    assert_eq!(ci.render(), "CREATE INDEX ON t( c )");
}

#[test]
fn guard_only() {
    let ci = CreateIndex {
        if_not_exists: true,
        name: None,
        table: table("t"),
        column: IndexColumnType::Keys(ident("c")),
    };
    assert_eq!(ci.render(), "CREATE INDEX IF NOT EXISTS ON t( KEYS( c ) )");
}

#[test]
fn name_only() {
    let ci = CreateIndex {
        if_not_exists: false,
        name: Some(ident("idx")),
        table: table("t"),
        column: IndexColumnType::Full(ident("c")),
    };
    assert_eq!(ci.render(), "CREATE INDEX idx ON t( FULL( c ) )");
}

#[test]
fn guard_and_name() {
    let ci = CreateIndex {
        if_not_exists: true,
        name: Some(ident("idx")),
        table: table("ks.t"),
        column: IndexColumnType::Entries(ident("c")),
    };
    assert_eq!(ci.render(), "CREATE INDEX IF NOT EXISTS idx ON ks.t( ENTRIES( c ) )");
}

#[test]
fn column_types_render_their_templates() {
    assert_eq!(IndexColumnType::Column(ident("c")).render(), "c");
    assert_eq!(IndexColumnType::Keys(ident("c")).render(), "KEYS( c )");
    assert_eq!(IndexColumnType::Entries(ident("c")).render(), "ENTRIES( c )");
    assert_eq!(IndexColumnType::Full(ident("c")).render(), "FULL( c )");
}

#[test]
fn create_index_rendered_twice_is_identical() {
    let ci = CreateIndex {
        if_not_exists: true,
        name: Some(ident("idx")),
        table: table("t"),
        column: IndexColumnType::Column(ident("c")),
    };
    assert_eq!(ci.render(), ci.render());
}
