//! Plain row shapes, as the catalog reports them.

use vstd::prelude::*;

verus! {

/// One row of a table's column listing, together with the column's own
/// charset and collation where they were resolved.
#[derive(Debug)]
pub struct ColumnRow {
    pub field: String,
    pub field_type: String,
    pub nullable: String,
    pub key: Option<String>,
    pub default: Option<String>,
    pub extra: Option<String>,
    pub charset: Option<String>,
    pub collation: Option<String>,
}

/// The abstract value of a [`ColumnRow`].
pub struct ColumnRowView {
    pub field: Seq<char>,
    pub field_type: Seq<char>,
    pub nullable: Seq<char>,
    pub key: Option<Seq<char>>,
    pub default: Option<Seq<char>>,
    pub extra: Option<Seq<char>>,
    pub charset: Option<Seq<char>>,
    pub collation: Option<Seq<char>>,
}

impl View for ColumnRow {
    type V = ColumnRowView;

    open spec fn view(&self) -> ColumnRowView {
        ColumnRowView {
            field: self.field@,
            field_type: self.field_type@,
            nullable: self.nullable@,
            key: match self.key {
                Some(ref s) => Some(s@),
                None => None,
            },
            default: match self.default {
                Some(ref s) => Some(s@),
                None => None,
            },
            extra: match self.extra {
                Some(ref s) => Some(s@),
                None => None,
            },
            charset: match self.charset {
                Some(ref s) => Some(s@),
                None => None,
            },
            collation: match self.collation {
                Some(ref s) => Some(s@),
                None => None,
            },
        }
    }
}

impl DeepView for ColumnRow {
    type V = ColumnRowView;

    open spec fn deep_view(&self) -> ColumnRowView {
        self@
    }
}

/// One row of a table's index listing: the uniqueness flag, the index
/// name and the participating column, in catalog sequence order.
#[derive(Debug)]
pub struct IndexRow {
    pub unique: bool,
    pub name: String,
    pub column: String,
}

/// The abstract value of an [`IndexRow`].
pub struct IndexRowView {
    pub unique: bool,
    pub name: Seq<char>,
    pub column: Seq<char>,
}

impl View for IndexRow {
    type V = IndexRowView;

    open spec fn view(&self) -> IndexRowView {
        IndexRowView { unique: self.unique, name: self.name@, column: self.column@ }
    }
}

impl DeepView for IndexRow {
    type V = IndexRowView;

    open spec fn deep_view(&self) -> IndexRowView {
        self@
    }
}

/// One row of the cross-reference listing, ordered by constraint name and
/// position within the constraint.
#[derive(Debug)]
pub struct ForeignKeyRow {
    pub constraint: String,
    pub table: String,
    pub column: String,
    pub referenced_table: Option<String>,
    pub referenced_column: Option<String>,
}

/// The abstract value of a [`ForeignKeyRow`].
pub struct ForeignKeyRowView {
    pub constraint: Seq<char>,
    pub table: Seq<char>,
    pub column: Seq<char>,
    pub referenced_table: Option<Seq<char>>,
    pub referenced_column: Option<Seq<char>>,
}

impl View for ForeignKeyRow {
    type V = ForeignKeyRowView;

    open spec fn view(&self) -> ForeignKeyRowView {
        ForeignKeyRowView {
            constraint: self.constraint@,
            table: self.table@,
            column: self.column@,
            referenced_table: match self.referenced_table {
                Some(ref s) => Some(s@),
                None => None,
            },
            referenced_column: match self.referenced_column {
                Some(ref s) => Some(s@),
                None => None,
            },
        }
    }
}

impl DeepView for ForeignKeyRow {
    type V = ForeignKeyRowView;

    open spec fn deep_view(&self) -> ForeignKeyRowView {
        self@
    }
}

} // verus!
