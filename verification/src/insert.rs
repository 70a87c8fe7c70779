//! The INSERT statement shape: its syntax tree, its canonical text, and the
//! value-alignment utility that derives an ordered column→operand mapping
//! from the statement's parallel column and value lists.

use vstd::prelude::*;
use crate::common::{
    BeginBatch, FQName, Identifier, Operand, TtlTimestamp, render_identifier_list,
    render_operand_list,
};
use crate::text::{join_strings, join_with, texts_of};
use crate::value_map::{aligned_entries, aligned_map, entry_views, keys_sorted, map_of, map_put};

verus! {

/// Data of an INSERT statement.
#[derive(Debug, Clone, PartialEq)]
pub struct Insert {
    /// If set, the statement starts with the BEGIN BATCH prefix.
    pub begin_batch: Option<BeginBatch>,
    /// The table name.
    pub table_name: FQName,
    /// The list of column names to insert into.
    pub columns: Vec<Identifier>,
    /// The VALUES to insert.
    pub values: InsertValues,
    /// If set, the timestamp for USING TTL.
    pub using_ttl: Option<TtlTimestamp>,
    /// If true, IF NOT EXISTS is added to the statement.
    pub if_not_exists: bool,
}

/// The values to insert: either an explicit operand list or a JSON blob.
#[derive(Debug, Clone, PartialEq)]
pub enum InsertValues {
    /// The standard list of values.
    Values(Vec<Operand>),
    /// A JSON string defining the values.
    Json(String),
}

/// The batch prefix's text: present exactly when the prefix is set, with no
/// separator of its own.
pub open spec fn spec_batch_text(begin_batch: Option<BeginBatch>) -> Seq<char> {
    match begin_batch {
        Option::Some(b) => b@,
        Option::None => Seq::empty(),
    }
}

/// The existence guard's text: present exactly when the flag is set.
pub open spec fn spec_exists_text(if_not_exists: bool) -> Seq<char> {
    if if_not_exists {
        " IF NOT EXISTS"@
    } else {
        Seq::empty()
    }
}

/// The TTL clause's text: present exactly when the clause is set, with no
/// separator of its own.
pub open spec fn spec_ttl_text(using_ttl: Option<TtlTimestamp>) -> Seq<char> {
    match using_ttl {
        Option::Some(t) => t@,
        Option::None => Seq::empty(),
    }
}

impl InsertValues {
    /// The VALUES clause's text: the parenthesized operand list, or the JSON
    /// blob emitted verbatim.
    pub open spec fn spec_render(self) -> Seq<char> {
        match self {
            InsertValues::Values(operands) => "VALUES ("@ + join_with(texts_of(operands@), ", "@)
                + ")"@,
            InsertValues::Json(text) => "JSON "@ + text@,
        }
    }

    /// Render the VALUES clause. Total: each variant maps to exactly its
    /// template.
    pub fn render(&self) -> (r: String)
        ensures
            r@ == self.spec_render(),
    {
        match self {
            InsertValues::Values(operands) => {
                let parts = render_operand_list(operands);
                let joined = join_strings(&parts, ", ");
                let r = "VALUES (".to_owned();
                let r = r.concat(joined.as_str());
                r.concat(")")
            },
            InsertValues::Json(text) => {
                let r = "JSON ".to_owned();
                r.concat(text.as_str())
            },
        }
    }
}

impl Insert {
    /// The statement's text, as a fixed composition: the batch prefix, the
    /// INSERT INTO header with the parenthesized column list, the VALUES
    /// clause, the existence guard, and the TTL clause, in this order.
    pub open spec fn spec_render(self) -> Seq<char> {
        spec_batch_text(self.begin_batch) + "INSERT INTO "@ + self.table_name@ + " ("@ + join_with(
            texts_of(self.columns@),
            ", "@,
        ) + ") "@ + self.values.spec_render() + spec_exists_text(self.if_not_exists)
            + spec_ttl_text(self.using_ttl)
    }

    /// Render the statement.
    pub fn render(&self) -> (r: String)
        ensures
            r@ == self.spec_render(),
    {
        let mut r = String::new();
        match &self.begin_batch {
            Option::Some(b) => { r.append(b.render().as_str()) },
            Option::None => {},
        }
        r.append("INSERT INTO ");
        r.append(self.table_name.render().as_str());
        r.append(" (");
        let parts = render_identifier_list(&self.columns);
        let joined = join_strings(&parts, ", ");
        r.append(joined.as_str());
        r.append(") ");
        r.append(self.values.render().as_str());
        if self.if_not_exists {
            r.append(" IF NOT EXISTS");
        }
        match &self.using_ttl {
            Option::Some(t) => { r.append(t.render().as_str()) },
            Option::None => {},
        }
        proof {
            assert(r@ =~= self.spec_render());
        }
        r
    }

    /// Derive the ordered column→operand mapping of the statement: each
    /// column paired with the operand at its index, sorted by identifier
    /// order. The mapping is empty when the values are JSON-form, and empty
    /// when the column and operand counts differ: a mismatch means the
    /// correspondence cannot be reconstructed, and no partial mapping is
    /// attempted (fail soft, not an error).
    pub fn get_value_map(&self) -> (r: Vec<(Identifier, Operand)>)
        ensures
            keys_sorted(entry_views(r@)),
            match self.values {
                InsertValues::Values(operands) => if self.columns@.len() == operands@.len() {
                    map_of(entry_views(r@)) == aligned_map(
                        texts_of(self.columns@),
                        texts_of(operands@),
                    )
                } else {
                    r@.len() == 0
                },
                InsertValues::Json(_) => r@.len() == 0,
            },
    {
        let mut result: Vec<(Identifier, Operand)> = Vec::new();
        match &self.values {
            InsertValues::Values(operands) => {
                if self.columns.len() == operands.len() {
                    let ghost ctexts = texts_of(self.columns@);
                    let ghost vtexts = texts_of(operands@);
                    let mut i: usize = 0;
                    while i < operands.len()
                        invariant
                            self.columns@.len() == operands@.len(),
                            i <= operands@.len(),
                            ctexts == texts_of(self.columns@),
                            vtexts == texts_of(operands@),
                            keys_sorted(entry_views(result@)),
                            map_of(entry_views(result@)) == map_of(
                                aligned_entries(ctexts, vtexts).take(i as int),
                            ),
                        decreases operands@.len() - i,
                    {
                        let k = self.columns[i].duplicate();
                        let v = operands[i].duplicate();
                        map_put(&mut result, k, v);
                        proof {
                            let ae = aligned_entries(ctexts, vtexts);
                            assert(ae.take(i as int + 1).drop_last() =~= ae.take(i as int));
                            assert(ae.take(i as int + 1).last() == (ctexts[i as int],
                            vtexts[i as int]));
                            assert(k@ == ctexts[i as int]);
                            assert(v@ == vtexts[i as int]);
                        }
                        i += 1;
                    }
                    proof {
                        let ae = aligned_entries(ctexts, vtexts);
                        assert(ae.take(operands@.len() as int) =~= ae);
                    }
                }
            },
            InsertValues::Json(_) => {},
        }
        result
    }
}

/// Rendering is pure: the statement's text is a function of the node alone,
/// so rendering the same node twice yields identical text.
pub proof fn lemma_insert_render_pure(ins: Insert, r1: Seq<char>, r2: Seq<char>)
    requires
        r1 == ins.spec_render(),
        r2 == ins.spec_render(),
    ensures
        r1 == r2,
{
}

} // verus!
