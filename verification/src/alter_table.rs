//! The ALTER TABLE statement shape: its syntax tree and the canonical text
//! of its operation clause. The table name itself is rendered by whatever
//! composes the full statement; this module renders only the operation.

use vstd::prelude::*;
use crate::common::{
    ColumnDefinition, FQName, Identifier, WithItem, render_column_definition_list,
    render_identifier_list, render_with_item_list,
};
use crate::text::{join_strings, join_with, texts_of};

verus! {

/// Data of an ALTER TABLE statement.
#[derive(Debug, PartialEq)]
pub struct AlterTable {
    /// The name of the table.
    pub name: FQName,
    /// The table alteration operation.
    pub operation: AlterTableOperation,
}

/// The table alteration operations.
#[derive(Debug, PartialEq)]
pub enum AlterTableOperation {
    /// Add columns to the table.
    Add(Vec<ColumnDefinition>),
    /// Drop columns from the table.
    DropColumns(Vec<Identifier>),
    /// Drop the "compact storage".
    DropCompactStorage,
    /// Rename a column, `(from, to)`.
    Rename((Identifier, Identifier)),
    /// Add WITH element options.
    With(Vec<WithItem>),
}

impl AlterTableOperation {
    /// The operation clause's text: a fixed template per variant, with list
    /// payloads joined by the variant's separator.
    pub open spec fn spec_render(self) -> Seq<char> {
        match self {
            AlterTableOperation::Add(columns) => "ADD "@ + join_with(
                texts_of(columns@),
                ", "@,
            ),
            AlterTableOperation::DropColumns(columns) => "DROP "@ + join_with(
                texts_of(columns@),
                ", "@,
            ),
            AlterTableOperation::DropCompactStorage => "DROP COMPACT STORAGE"@,
            AlterTableOperation::Rename(pair) => "RENAME "@ + pair.0@ + " TO "@ + pair.1@,
            AlterTableOperation::With(items) => "WITH "@ + join_with(
                texts_of(items@),
                " AND "@,
            ),
        }
    }

    /// Render the operation clause. Total: every variant maps to exactly its
    /// template.
    pub fn render(&self) -> (r: String)
        ensures
            r@ == self.spec_render(),
    {
        match self {
            AlterTableOperation::Add(columns) => {
                let parts = render_column_definition_list(columns);
                let joined = join_strings(&parts, ", ");
                let r = "ADD ".to_owned();
                r.concat(joined.as_str())
            },
            AlterTableOperation::DropColumns(columns) => {
                let parts = render_identifier_list(columns);
                let joined = join_strings(&parts, ", ");
                let r = "DROP ".to_owned();
                r.concat(joined.as_str())
            },
            AlterTableOperation::DropCompactStorage => "DROP COMPACT STORAGE".to_owned(),
            AlterTableOperation::Rename(pair) => {
                let r = "RENAME ".to_owned();
                let r = r.concat(pair.0.render().as_str());
                let r = r.concat(" TO ");
                r.concat(pair.1.render().as_str())
            },
            AlterTableOperation::With(items) => {
                let parts = render_with_item_list(items);
                let joined = join_strings(&parts, " AND ");
                let r = "WITH ".to_owned();
                r.concat(joined.as_str())
            },
        }
    }
}

/// Rendering is pure: the operation clause's text is a function of the node
/// alone, so rendering the same node twice yields identical text.
pub proof fn lemma_alter_op_render_pure(op: AlterTableOperation, r1: Seq<char>, r2: Seq<char>)
    requires
        r1 == op.spec_render(),
        r2 == op.spec_render(),
    ensures
        r1 == r2,
{
}

} // verus!
