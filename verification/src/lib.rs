//! Structural reflection of a relational database schema.
//!
//! The crate models a database schema — databases, tables, columns, indexes
//! and foreign-key constraints — together with a parser that turns an
//! engine's textual column-type descriptors into a normalized datatype and
//! total projections of that datatype into JSON-shape and native-type
//! descriptions. Every operation carries a contract that pins down its
//! result, so the deduplication, inheritance and assembly rules the model
//! promises are machine-checked.

pub mod adapter;
pub mod keyed;
pub mod metadata;
pub mod reflection;
pub mod strutil;
