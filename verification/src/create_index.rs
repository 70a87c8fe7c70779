//! The CREATE INDEX statement shape: its syntax tree and its canonical text.
//! The two optional clauses (the existence guard and the index name) compose
//! in a fixed order, each contributing its text independently of the other.

use vstd::prelude::*;
use crate::common::{FQName, Identifier};

verus! {

/// Data of a CREATE INDEX statement.
#[derive(Debug, Clone, PartialEq)]
pub struct CreateIndex {
    /// Only create the index if it does not exist yet.
    pub if_not_exists: bool,
    /// Optional name of the index.
    pub name: Option<Identifier>,
    /// The table the index is on.
    pub table: FQName,
    /// The index column type.
    pub column: IndexColumnType,
}

/// The definition of an index column type.
#[derive(Debug, Clone, PartialEq)]
pub enum IndexColumnType {
    /// Index the column itself.
    Column(Identifier),
    /// Index the keys of the collection column.
    Keys(Identifier),
    /// Index the entries of the collection column.
    Entries(Identifier),
    /// Index the full collection column.
    Full(Identifier),
}

/// The existence guard's text: present exactly when the flag is set.
pub open spec fn spec_exists_guard(if_not_exists: bool) -> Seq<char> {
    if if_not_exists {
        "IF NOT EXISTS "@
    } else {
        Seq::empty()
    }
}

/// The name clause's text: the identifier and one trailing space, present
/// exactly when a name is set.
pub open spec fn spec_name_clause(name: Option<Identifier>) -> Seq<char> {
    match name {
        Option::Some(n) => n@ + " "@,
        Option::None => Seq::empty(),
    }
}

/// The ON clause's text.
pub open spec fn spec_on_clause(table: FQName, column: IndexColumnType) -> Seq<char> {
    "ON "@ + table@ + "( "@ + column.spec_render() + " )"@
}

impl IndexColumnType {
    /// The column clause's text: a fixed template per indexing strategy.
    pub open spec fn spec_render(self) -> Seq<char> {
        match self {
            IndexColumnType::Column(name) => name@,
            IndexColumnType::Keys(name) => "KEYS( "@ + name@ + " )"@,
            IndexColumnType::Entries(name) => "ENTRIES( "@ + name@ + " )"@,
            IndexColumnType::Full(name) => "FULL( "@ + name@ + " )"@,
        }
    }

    /// Render the column clause. Total: every variant maps to exactly its
    /// template.
    pub fn render(&self) -> (r: String)
        ensures
            r@ == self.spec_render(),
    {
        match self {
            IndexColumnType::Column(name) => name.render(),
            IndexColumnType::Keys(name) => {
                let r = "KEYS( ".to_owned();
                let r = r.concat(name.render().as_str());
                r.concat(" )")
            },
            IndexColumnType::Entries(name) => {
                let r = "ENTRIES( ".to_owned();
                let r = r.concat(name.render().as_str());
                r.concat(" )")
            },
            IndexColumnType::Full(name) => {
                let r = "FULL( ".to_owned();
                let r = r.concat(name.render().as_str());
                r.concat(" )")
            },
        }
    }
}

impl CreateIndex {
    /// The statement's text: the header, then the existence guard, then the
    /// name clause, then the ON clause, in this fixed order.
    pub open spec fn spec_render(self) -> Seq<char> {
        "CREATE INDEX "@ + spec_exists_guard(self.if_not_exists) + spec_name_clause(self.name)
            + spec_on_clause(self.table, self.column)
    }

    /// Render the statement.
    pub fn render(&self) -> (r: String)
        ensures
            r@ == self.spec_render(),
    {
        let mut r = "CREATE INDEX ".to_owned();
        if self.if_not_exists {
            r.append("IF NOT EXISTS ");
        }
        match &self.name {
            Option::Some(n) => {
                r.append(n.render().as_str());
                r.append(" ");
            },
            Option::None => {},
        }
        r.append("ON ");
        r.append(self.table.render().as_str());
        r.append("( ");
        r.append(self.column.render().as_str());
        r.append(" )");
        proof {
            assert(r@ =~= self.spec_render());
        }
        r
    }
}

/// The optional clauses of CREATE INDEX are independent and compose in a
/// fixed order: the text is always the header, then the existence guard (a
/// function of `if_not_exists` alone), then the name clause (a function of
/// `name` alone), then the ON clause (a function of `table` and `column`
/// alone), with no separators beyond the ones inside the clause texts.
pub proof fn lemma_create_index_clause_composition(a: CreateIndex, b: CreateIndex)
    ensures
        a.spec_render() == "CREATE INDEX "@ + spec_exists_guard(a.if_not_exists)
            + spec_name_clause(a.name) + spec_on_clause(a.table, a.column),
        a.if_not_exists == b.if_not_exists ==> spec_exists_guard(a.if_not_exists)
            == spec_exists_guard(b.if_not_exists),
        a.name == b.name ==> spec_name_clause(a.name) == spec_name_clause(b.name),
        a.table == b.table && a.column == b.column ==> spec_on_clause(a.table, a.column)
            == spec_on_clause(b.table, b.column),
{
}

/// Rendering is pure: the statement's text is a function of the node alone,
/// so rendering the same node twice yields identical text.
pub proof fn lemma_create_index_render_pure(ci: CreateIndex, r1: Seq<char>, r2: Seq<char>)
    requires
        r1 == ci.spec_render(),
        r2 == ci.spec_render(),
    ensures
        r1 == r2,
{
}

} // verus!
