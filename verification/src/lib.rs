//! Abstract syntax and canonical text rendering for three statement shapes of
//! a CQL-like data language: table alteration (ALTER TABLE), secondary-index
//! creation (CREATE INDEX) and row insertion (INSERT). Every renderer is a
//! pure function from the syntax tree to statement text, and the text it
//! produces is pinned exactly by its contract.

pub mod alter_table;
pub mod common;
pub mod create_index;
pub mod insert;
pub mod text;
pub mod value_map;
