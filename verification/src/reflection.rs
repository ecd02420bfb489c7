//! The schema entity model and the datatype parser.

pub mod column;
pub mod constraint;
pub mod database;
pub mod datatypes;
pub mod index;
pub mod table;

pub use crate::reflection::column::{Column, ColumnView};
pub use crate::reflection::constraint::{
    Constraint, ConstraintKeyPair, ConstraintSide, ConstraintView, KeyPairView,
};
pub use crate::reflection::database::{Database, DatabaseView};
pub use crate::reflection::index::{Index, IndexView};
pub use crate::reflection::table::{Table, TableView};
pub use crate::reflection::datatypes::{
    DefaultValue, DefaultValueView, JsonDatatype, JsonDatatypeView, JsonNumber, JsonString,
    JsonValue, JsonValueView, ParseDatatypeError, RustDatatype, SqlDatatype, SqlDatatypeView,
    SqlSigned,
};
