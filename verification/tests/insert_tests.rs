use cql_ast::common::{BeginBatch, FQName, Identifier, Operand, TtlTimestamp};
use cql_ast::insert::{Insert, InsertValues};

fn ident(s: &str) -> Identifier {
    Identifier::new(s.to_string())
}

fn operand(s: &str) -> Operand {
    Operand::new(s.to_string())
}

fn plain_insert(columns: Vec<Identifier>, values: InsertValues) -> Insert {
    Insert {
        begin_batch: None,
        table_name: FQName::new("t".to_string()),
        columns,
        values,
        using_ttl: None,
        if_not_exists: false,
    }
}

#[test]
fn single_column_round_trip() {
    let ins = plain_insert(vec![ident("x")], InsertValues::Values(vec![operand("5")]));
    assert_eq!(ins.render(), "INSERT INTO t (x) VALUES (5)");
}

#[test]
fn two_columns_with_if_not_exists() {
    let mut ins = plain_insert(
        vec![ident("a"), ident("b")],
        InsertValues::Values(vec![operand("1"), operand("2")]),
    );
    ins.if_not_exists = true;
    assert_eq!(ins.render(), "INSERT INTO t (a, b) VALUES (1, 2) IF NOT EXISTS");
}

#[test]
fn json_values_emitted_verbatim() {
    let ins = plain_insert(
        vec![ident("a")],
        InsertValues::Json("{\"a\": 1}".to_string()),
    );
    assert_eq!(ins.render(), "INSERT INTO t (a) JSON {\"a\": 1}");
}

#[test]
fn batch_prefix_and_ttl_clause() {
    let mut ins = plain_insert(vec![ident("a")], InsertValues::Values(vec![operand("1")]));
    ins.begin_batch = Some(BeginBatch::new("BEGIN BATCH ".to_string()));
    ins.using_ttl = Some(TtlTimestamp::new(" USING TTL 95".to_string()));
    assert_eq!(ins.render(), "BEGIN BATCH INSERT INTO t (a) VALUES (1) USING TTL 95");
}

#[test]
fn insert_values_render_templates() {
    let vals = InsertValues::Values(vec![operand("1"), operand("'x'")]);
    assert_eq!(vals.render(), "VALUES (1, 'x')");
    let empty = InsertValues::Values(vec![]);
    assert_eq!(empty.render(), "VALUES ()");
    let json = InsertValues::Json("{}".to_string());
    assert_eq!(json.render(), "JSON {}");
}

#[test]
fn insert_rendered_twice_is_identical() {
    let ins = plain_insert(
        vec![ident("a"), ident("b")],
        InsertValues::Values(vec![operand("1"), operand("2")]),
    );
    assert_eq!(ins.render(), ins.render());
}

#[test]
fn value_map_is_sorted_by_identifier() {
    let ins = plain_insert(
        vec![ident("c"), ident("a"), ident("b")],
        InsertValues::Values(vec![operand("3"), operand("1"), operand("2")]),
    );
    let map = ins.get_value_map();
    let rendered: Vec<(String, String)> =
        map.iter().map(|e| (e.0.render(), e.1.render())).collect();
    assert_eq!(
        rendered,
        vec![
            ("a".to_string(), "1".to_string()),
            ("b".to_string(), "2".to_string()),
            ("c".to_string(), "3".to_string()),
        ]
    );
}

#[test]
fn value_map_has_one_entry_per_column() {
    let ins = plain_insert(
        vec![ident("x"), ident("y")],
        InsertValues::Values(vec![operand("1"), operand("2")]),
    );
    assert_eq!(ins.get_value_map().len(), 2);
}

#[test]
fn value_map_empty_on_count_mismatch() {
    let ins = plain_insert(
        vec![ident("a"), ident("b")],
        InsertValues::Values(vec![operand("1")]),
    );
    assert!(ins.get_value_map().is_empty());
}

#[test]
fn value_map_empty_for_json_values() {
    let ins = plain_insert(
        vec![ident("a")],
        InsertValues::Json("{\"a\": 1}".to_string()),
    );
    assert!(ins.get_value_map().is_empty());
}

#[test]
fn value_map_duplicate_column_keeps_last_operand() {
    let ins = plain_insert(
        vec![ident("a"), ident("a")],
        InsertValues::Values(vec![operand("1"), operand("2")]),
    );
    let map = ins.get_value_map();
    let rendered: Vec<(String, String)> =
        map.iter().map(|e| (e.0.render(), e.1.render())).collect();
    assert_eq!(rendered, vec![("a".to_string(), "2".to_string())]);
}

#[test]
fn value_map_orders_prefix_before_extension() {
    let ins = plain_insert(
        vec![ident("abc"), ident("ab")],
        InsertValues::Values(vec![operand("2"), operand("1")]),
    );
    let map = ins.get_value_map();
    let keys: Vec<String> = map.iter().map(|e| e.0.render()).collect();
    assert_eq!(keys, vec!["ab".to_string(), "abc".to_string()]);
}

#[test]
fn value_map_of_empty_lists_is_empty() {
    let ins = plain_insert(vec![], InsertValues::Values(vec![]));
    assert!(ins.get_value_map().is_empty());
}
