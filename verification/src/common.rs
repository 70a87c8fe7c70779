//! The shared vocabulary of the statement language: identifiers, qualified
//! table names, literal operands, WITH items, column definitions, TTL /
//! timestamp clauses and batch prefixes. Each is an opaque renderable value:
//! it carries its own statement text, which rendering emits verbatim, and its
//! view is that text as a sequence of characters.

use vstd::prelude::*;
use crate::text::{lex_lt, str_lt, texts_of};

verus! {

/// A column or index identifier. Identifiers are ordered lexicographically
/// by their text (see `crate::text::lex_lt`).
#[derive(Debug, Clone, PartialEq)]
pub struct Identifier {
    text: String,
}

impl View for Identifier {
    type V = Seq<char>;

    closed spec fn view(&self) -> Seq<char> {
        self.text@
    }
}

impl Identifier {
    pub fn new(text: String) -> (r: Identifier)
        ensures
            r@ == text@,
    {
        Identifier { text }
    }

    /// The identifier's statement text.
    pub fn render(&self) -> (r: String)
        ensures
            r@ == self@,
    {
        self.text.clone()
    }

    pub fn duplicate(&self) -> (r: Identifier)
        ensures
            r@ == self@,
    {
        Identifier { text: self.text.clone() }
    }

    /// Whether `self` comes strictly before `other` in identifier order.
    pub fn lt(&self, other: &Identifier) -> (r: bool)
        ensures
            r == lex_lt(self@, other@),
    {
        str_lt(self.text.as_str(), other.text.as_str())
    }

    /// Whether `self` and `other` carry the same text.
    pub fn text_eq(&self, other: &Identifier) -> (r: bool)
        ensures
            r == (self@ == other@),
    {
        self.text == other.text
    }
}

/// A fully qualified table name (keyspace-qualified where the statement
/// carries one).
#[derive(Debug, Clone, PartialEq)]
pub struct FQName {
    text: String,
}

impl View for FQName {
    type V = Seq<char>;

    closed spec fn view(&self) -> Seq<char> {
        self.text@
    }
}

impl FQName {
    pub fn new(text: String) -> (r: FQName)
        ensures
            r@ == text@,
    {
        FQName { text }
    }

    /// The name's statement text.
    pub fn render(&self) -> (r: String)
        ensures
            r@ == self@,
    {
        self.text.clone()
    }
}

/// A literal operand of a VALUES clause.
#[derive(Debug, Clone, PartialEq)]
pub struct Operand {
    text: String,
}

impl View for Operand {
    type V = Seq<char>;

    closed spec fn view(&self) -> Seq<char> {
        self.text@
    }
}

impl Operand {
    pub fn new(text: String) -> (r: Operand)
        ensures
            r@ == text@,
    {
        Operand { text }
    }

    /// The operand's statement text.
    pub fn render(&self) -> (r: String)
        ensures
            r@ == self@,
    {
        self.text.clone()
    }

    pub fn duplicate(&self) -> (r: Operand)
        ensures
            r@ == self@,
    {
        Operand { text: self.text.clone() }
    }
}

/// One option of a WITH clause.
#[derive(Debug, Clone, PartialEq)]
pub struct WithItem {
    text: String,
}

impl View for WithItem {
    type V = Seq<char>;

    closed spec fn view(&self) -> Seq<char> {
        self.text@
    }
}

impl WithItem {
    pub fn new(text: String) -> (r: WithItem)
        ensures
            r@ == text@,
    {
        WithItem { text }
    }

    /// The item's statement text.
    pub fn render(&self) -> (r: String)
        ensures
            r@ == self@,
    {
        self.text.clone()
    }
}

/// A column definition of an ADD clause.
#[derive(Debug, Clone, PartialEq)]
pub struct ColumnDefinition {
    text: String,
}

impl View for ColumnDefinition {
    type V = Seq<char>;

    closed spec fn view(&self) -> Seq<char> {
        self.text@
    }
}

impl ColumnDefinition {
    pub fn new(text: String) -> (r: ColumnDefinition)
        ensures
            r@ == text@,
    {
        ColumnDefinition { text }
    }

    /// The definition's statement text.
    pub fn render(&self) -> (r: String)
        ensures
            r@ == self@,
    {
        self.text.clone()
    }
}

/// A USING TTL / TIMESTAMP clause.
#[derive(Debug, Clone, PartialEq)]
pub struct TtlTimestamp {
    text: String,
}

impl View for TtlTimestamp {
    type V = Seq<char>;

    closed spec fn view(&self) -> Seq<char> {
        self.text@
    }
}

impl TtlTimestamp {
    pub fn new(text: String) -> (r: TtlTimestamp)
        ensures
            r@ == text@,
    {
        TtlTimestamp { text }
    }

    /// The clause's statement text.
    pub fn render(&self) -> (r: String)
        ensures
            r@ == self@,
    {
        self.text.clone()
    }
}

/// The BEGIN BATCH prefix of a batched statement.
#[derive(Debug, Clone, PartialEq)]
pub struct BeginBatch {
    text: String,
}

impl View for BeginBatch {
    type V = Seq<char>;

    closed spec fn view(&self) -> Seq<char> {
        self.text@
    }
}

impl BeginBatch {
    pub fn new(text: String) -> (r: BeginBatch)
        ensures
            r@ == text@,
    {
        BeginBatch { text }
    }

    /// The prefix's statement text.
    pub fn render(&self) -> (r: String)
        ensures
            r@ == self@,
    {
        self.text.clone()
    }
}

/// The statement texts of a list of identifiers, in order.
pub fn render_identifier_list(items: &Vec<Identifier>) -> (r: Vec<String>)
    ensures
        r@.map_values(|s: String| s@) == texts_of(items@),
{
    let mut parts: Vec<String> = Vec::new();
    let mut i: usize = 0;
    while i < items.len()
        invariant
            i <= items@.len(),
            parts@.len() == i,
            forall|j: int| 0 <= j < i ==> parts@[j]@ == items@[j]@,
        decreases items@.len() - i,
    {
        parts.push(items[i].render());
        i += 1;
    }
    proof {
        assert(parts@.map_values(|s: String| s@) =~= texts_of(items@));
    }
    parts
}

/// The statement texts of a list of column definitions, in order.
pub fn render_column_definition_list(items: &Vec<ColumnDefinition>) -> (r: Vec<String>)
    ensures
        r@.map_values(|s: String| s@) == texts_of(items@),
{
    let mut parts: Vec<String> = Vec::new();
    let mut i: usize = 0;
    while i < items.len()
        invariant
            i <= items@.len(),
            parts@.len() == i,
            forall|j: int| 0 <= j < i ==> parts@[j]@ == items@[j]@,
        decreases items@.len() - i,
    {
        parts.push(items[i].render());
        i += 1;
    }
    proof {
        assert(parts@.map_values(|s: String| s@) =~= texts_of(items@));
    }
    parts
}

/// The statement texts of a list of WITH items, in order.
pub fn render_with_item_list(items: &Vec<WithItem>) -> (r: Vec<String>)
    ensures
        r@.map_values(|s: String| s@) == texts_of(items@),
{
    let mut parts: Vec<String> = Vec::new();
    let mut i: usize = 0;
    while i < items.len()
        invariant
            i <= items@.len(),
            parts@.len() == i,
            forall|j: int| 0 <= j < i ==> parts@[j]@ == items@[j]@,
        decreases items@.len() - i,
    {
        parts.push(items[i].render());
        i += 1;
    }
    proof {
        assert(parts@.map_values(|s: String| s@) =~= texts_of(items@));
    }
    parts
}

/// The statement texts of a list of operands, in order.
pub fn render_operand_list(items: &Vec<Operand>) -> (r: Vec<String>)
    ensures
        r@.map_values(|s: String| s@) == texts_of(items@),
{
    let mut parts: Vec<String> = Vec::new();
    let mut i: usize = 0;
    while i < items.len()
        invariant
            i <= items@.len(),
            parts@.len() == i,
            forall|j: int| 0 <= j < i ==> parts@[j]@ == items@[j]@,
        decreases items@.len() - i,
    {
        parts.push(items[i].render());
        i += 1;
    }
    proof {
        assert(parts@.map_values(|s: String| s@) =~= texts_of(items@));
    }
    parts
}

} // verus!
