//! Well-known metadata keys, values and flags.

use vstd::prelude::*;

verus! {

/// database, table or column charset
pub const METADATA_CHARSET: &'static str = "charset";

/// database, table or column collation
pub const METADATA_COLLATION: &'static str = "collation";

/// constraint action ON UPDATE or TIMESTAMP internal update
pub const METADATA_ON_UPDATE: &'static str = "on_update";

/// constraint action ON DELETE
pub const METADATA_ON_DELETE: &'static str = "on_delete";

/// constraint action value CASCADE
pub const METADATA_CASCADE: &'static str = "cascade";

/// constraint action value SET NULL
pub const METADATA_SET_NULL: &'static str = "set_null";

/// for numerical datatypes of columns
pub const METADATA_FLAG_UNSIGNED: &'static str = "unsigned";

/// for nullable columns
pub const METADATA_FLAG_NULLABLE: &'static str = "nullable";

/// for marking primary keys
pub const METADATA_FLAG_PRIMARY: &'static str = "primary";

/// for marking unique indexes
pub const METADATA_FLAG_UNIQUE: &'static str = "unique";

/// primary key columns are usually AUTO INCREMENT
pub const METADATA_FLAG_AUTO_INCREMENT: &'static str = "auto_increment";

/// TIMESTAMP DEFAULT
pub const METADATA_FLAG_DEFAULT_CURRENT_TIMESTAMP: &'static str = "current_timestamp()";

/// TIMESTAMP ON UPDATE trigger
pub const METADATA_FLAG_ON_UPDATE_CURRENT_TIMESTAMP: &'static str = "on update current_timestamp()";

} // verus!
