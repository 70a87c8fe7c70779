use cql_ast::alter_table::AlterTableOperation;
use cql_ast::common::{ColumnDefinition, Identifier, WithItem};

fn ident(s: &str) -> Identifier {
    Identifier::new(s.to_string())
}

#[test]
fn add_renders_columns_joined_by_comma() {
    let op = AlterTableOperation::Add(vec![
        ColumnDefinition::new("a text".to_string()),
        ColumnDefinition::new("b int".to_string()),
    ]);
    assert_eq!(op.render(), "ADD a text, b int");
}

#[test]
fn add_with_single_column() {
    let op = AlterTableOperation::Add(vec![ColumnDefinition::new("a text".to_string())]);
    assert_eq!(op.render(), "ADD a text");
}

#[test]
fn add_with_empty_list_renders_bare_prefix() {
    let op = AlterTableOperation::Add(vec![]);
    assert_eq!(op.render(), "ADD ");
}

#[test]
fn drop_columns_renders_identifiers_joined_by_comma() {
    let op = AlterTableOperation::DropColumns(vec![ident("a"), ident("b"), ident("c")]);
    assert_eq!(op.render(), "DROP a, b, c");
}

#[test]
fn drop_columns_single() {
    let op = AlterTableOperation::DropColumns(vec![ident("a")]);
    assert_eq!(op.render(), "DROP a");
}

#[test]
fn drop_compact_storage_renders_fixed_text() {
    let op = AlterTableOperation::DropCompactStorage;
    assert_eq!(op.render(), "DROP COMPACT STORAGE");
}

#[test]
fn rename_renders_from_and_to() {
    let op = AlterTableOperation::Rename((ident("a"), ident("b")));
    assert_eq!(op.render(), "RENAME a TO b");
}

#[test]
fn with_renders_items_joined_by_and() {
    let op = AlterTableOperation::With(vec![
        WithItem::new("option1 = 'a'".to_string()),
        WithItem::new("option2 = 'b'".to_string()),
    ]);
    assert_eq!(op.render(), "WITH option1 = 'a' AND option2 = 'b'");
}

#[test]
fn alter_op_rendered_twice_is_identical() {
    let op = AlterTableOperation::DropColumns(vec![ident("a"), ident("b")]);
    assert_eq!(op.render(), op.render());
}
