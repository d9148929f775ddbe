//! Grammar and AST core for a subset of a SQL dialect.
//!
//! Two grammar modules share one parsing style: ordered-alternative,
//! backtracking recognition over a byte-oriented input cursor. The
//! `arithmetic` module recognizes flat binary arithmetic expressions over
//! columns and integer literals; the `compound_select` module recognizes
//! `SELECT` statements combined with set operators (`UNION`, `UNION ALL`,
//! `INTERSECT`, `EXCEPT`) with an optional trailing ordering and row limit.
//!
//! The lexical collaborators the two modules rely on (whitespace skipping,
//! integer literals, column references, single-`SELECT` statements, order
//! and limit clauses) live in `common`, `column`, `table` and `select`.
//!
//! Every parser returns either `Some((end, value))`, where `end` is the
//! cursor position just past the consumed prefix, or `None` for a
//! non-fatal "no match". Each executable parser is verified against a
//! specification-level grammar function over `Seq<u8>`.

pub mod common;
pub mod column;
pub mod table;
pub mod select;
pub mod arithmetic;
pub mod compound_select;
