//! Assembly of the schema model from catalog query rows.
//!
//! The engine-facing half of reflection — issuing catalog queries over a
//! connection — lives outside this crate; what it hands back are plain
//! rows. Everything that is decided from those rows is here, as verified
//! functions from row values to the entity model.

pub mod assembly;
pub mod rows;

pub use crate::adapter::assembly::{
    apply_foreign_key, column_from_row, database_from_parts, table_from_rows,
};
pub use crate::adapter::rows::{
    ColumnRow, ColumnRowView, ForeignKeyRow, ForeignKeyRowView, IndexRow, IndexRowView,
};
