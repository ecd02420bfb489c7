//! Columns: immutable once attached, with eagerly computed projections.

use crate::keyed::Keyed;
use crate::metadata::consts::METADATA_FLAG_UNSIGNED;
use crate::metadata::{meta_has_key, meta_insert, meta_lookup, MetaPairs, MetadataBag};
use crate::reflection::datatypes::{
    spec_json_of, spec_rust_of, spec_sign, DefaultValue, DefaultValueView, JsonDatatype,
    JsonDatatypeView, RustDatatype, SqlDatatype, SqlDatatypeView, SqlSigned,
};
use vstd::prelude::*;

verus! {

/// The abstract value of a [`Column`].
pub struct ColumnView {
    pub table: Seq<char>,
    pub name: Seq<char>,
    pub datatype: SqlDatatypeView,
    pub datatype_json: JsonDatatypeView,
    pub datatype_rust: (Seq<char>, Option<u32>),
    pub default: Option<DefaultValueView>,
    pub metadata: MetaPairs,
}

impl Keyed for ColumnView {
    open spec fn key(self) -> Seq<char> {
        self.name
    }
}

/// One column of a table, carrying its normalized datatype, the two
/// derived projections, an optional default value and a metadata bag.
#[derive(Debug, PartialEq)]
pub struct Column {
    table: String,
    name: String,
    datatype: SqlDatatype,
    datatype_json: JsonDatatype,
    datatype_rust: RustDatatype,
    default: Option<DefaultValue>,
    metadata: MetadataBag,
}

impl View for Column {
    type V = ColumnView;

    closed spec fn view(&self) -> ColumnView {
        ColumnView {
            table: self.table@,
            name: self.name@,
            datatype: self.datatype@,
            datatype_json: self.datatype_json@,
            datatype_rust: self.datatype_rust@,
            default: match self.default {
                Some(d) => Some(d@),
                None => None,
            },
            metadata: self.metadata@,
        }
    }
}

impl DeepView for Column {
    type V = ColumnView;

    open spec fn deep_view(&self) -> ColumnView {
        self@
    }
}

/// The column that construction yields: projections are computed from the
/// datatype, and an unsigned numeric datatype is mirrored into the
/// generic `unsigned` metadata flag.
pub open spec fn spec_new_column(
    table: Seq<char>,
    name: Seq<char>,
    dt: SqlDatatypeView,
) -> ColumnView {
    ColumnView {
        table: table,
        name: name,
        datatype: dt,
        datatype_json: spec_json_of(dt),
        datatype_rust: spec_rust_of(dt),
        default: None,
        metadata: if spec_sign(dt) == Some(SqlSigned::Unsigned) {
            meta_insert(Seq::empty(), METADATA_FLAG_UNSIGNED@, "1"@)
        } else {
            Seq::empty()
        },
    }
}

impl Column {
    /// Create a new column by supplying at minimum its name, type and table
    pub fn new(table: &str, name: &str, datatype: SqlDatatype) -> (r: Column)
        ensures
            r@ == spec_new_column(table@, name@, datatype@),
    {
        let datatype_json = JsonDatatype::from_sql(&datatype);
        let datatype_rust = RustDatatype::from_sql(&datatype);
        let unsigned = match datatype.sign() {
            Some(SqlSigned::Unsigned) => true,
            _ => false,
        };
        let mut metadata = MetadataBag::new();
        if unsigned {
            metadata.set_meta_flag(METADATA_FLAG_UNSIGNED);
        }
        Column {
            table: table.to_owned(),
            name: name.to_owned(),
            datatype,
            datatype_json,
            datatype_rust,
            default: None,
            metadata,
        }
    }

    /// Set an optional default value
    pub fn set_default(&mut self, value: Option<DefaultValue>)
        ensures
            final(self)@ == (ColumnView {
                default: match value {
                    Some(v) => Some(v@),
                    None => None,
                },
                ..old(self)@
            }),
    {
        self.default = value;
    }

    /// Get table name
    pub fn table(&self) -> (r: &String)
        ensures
            r@ == self@.table,
    {
        &self.table
    }

    /// Get column name
    pub fn name(&self) -> (r: &String)
        ensures
            r@ == self@.name,
    {
        &self.name
    }

    /// Get datatype
    pub fn datatype(&self) -> (r: &SqlDatatype)
        ensures
            r@ == self@.datatype,
    {
        &self.datatype
    }

    /// Get JSON datatype
    pub fn datatype_json(&self) -> (r: &JsonDatatype)
        ensures
            r@ == self@.datatype_json,
    {
        &self.datatype_json
    }

    /// Get native datatype
    pub fn datatype_rust(&self) -> (r: &RustDatatype)
        ensures
            r@ == self@.datatype_rust,
    {
        &self.datatype_rust
    }

    /// Get default value if available
    pub fn default(&self) -> (r: Option<DefaultValue>)
        ensures
            match r {
                Some(v) => self@.default == Some(v@),
                None => self@.default is None,
            },
    {
        match &self.default {
            Some(v) => Some(v.clone()),
            None => None,
        }
    }

    /// Set metadata key value pair
    pub fn set_meta(&mut self, key: &str, value: &str)
        ensures
            final(self)@ == (ColumnView {
                metadata: meta_insert(old(self)@.metadata, key@, value@),
                ..old(self)@
            }),
    {
        self.metadata.set_meta(key, value);
    }

    /// Set metadata flag
    pub fn set_meta_flag(&mut self, flag: &str)
        ensures
            final(self)@ == (ColumnView {
                metadata: meta_insert(old(self)@.metadata, flag@, "1"@),
                ..old(self)@
            }),
    {
        self.metadata.set_meta_flag(flag);
    }

    /// Get metadata value by key
    pub fn meta(&self, key: &str) -> (r: Option<String>)
        ensures
            match r {
                Some(v) => meta_lookup(self@.metadata, key@) == Some(v@),
                None => meta_lookup(self@.metadata, key@) is None,
            },
    {
        self.metadata.meta(key)
    }

    /// Check if metadata flag is set
    pub fn meta_flag(&self, flag: &str) -> (r: bool)
        ensures
            r == meta_has_key(self@.metadata, flag@),
    {
        self.metadata.meta_flag(flag)
    }

    /// Borrow the metadata bag
    pub fn metadata(&self) -> (r: &MetadataBag)
        ensures
            r@ == self@.metadata,
    {
        &self.metadata
    }
}

impl Clone for Column {
    fn clone(&self) -> (res: Self)
        ensures
            res@ == self@,
    {
        Column {
            table: self.table.clone(),
            name: self.name.clone(),
            datatype: self.datatype.clone(),
            datatype_json: self.datatype_json.clone(),
            datatype_rust: self.datatype_rust.clone(),
            default: match &self.default {
                Some(v) => Some(v.clone()),
                None => None,
            },
            metadata: self.metadata.duplicate(),
        }
    }
}

/// Position of the first column named `name`, scanning forward; the
/// vector's length when no column matches.
pub(crate) fn position_of_column_vec(v: &Vec<Column>, name: &str) -> (r: usize)
    ensures
        r == crate::keyed::key_index_of(v.deep_view(), name@),
        r <= v.deep_view().len(),
{
    let ghost dv = v.deep_view();
    let n = v.len();
    let mut i: usize = 0;
    while i < n
        invariant
            n == v@.len(),
            0 <= i <= n,
            dv == v.deep_view(),
            forall|j: int| 0 <= j < i ==> dv[j].key() != name@,
        decreases n - i,
    {
        if crate::strutil::str_eq(v[i].name().as_str(), name) {
            proof {
                crate::keyed::lemma_key_index_of(dv, name@);
                assert(dv[i as int].key() == name@);
                assert(crate::keyed::has_key(dv, name@));
                let f = crate::keyed::key_index_of(dv, name@);
                if f < i {
                    assert(dv[f].key() != name@);
                }
                if (i as int) < f {
                    assert(dv[i as int].key() != name@);
                }
            }
            return i;
        }
        i = i + 1;
    }
    proof {
        crate::keyed::lemma_key_index_of(dv, name@);
        assert(!crate::keyed::has_key(dv, name@));
    }
    i
}

/// Store `c` in `v` under its name: replace the first column of that name
/// in place, or append.
pub(crate) fn upsert_column_vec(v: &mut Vec<Column>, c: Column)
    ensures
        final(v).deep_view() == crate::keyed::upsert_by_key(old(v).deep_view(), c@),
{
    let ghost cv = c@;
    proof {
        crate::keyed::lemma_key_index_of(old(v).deep_view(), cv.key());
    }
    let i = position_of_column_vec(v, c.name().clone().as_str());
    if i < v.len() {
        v.set(i, c);
        proof {
            let dv = v.deep_view();
            let target = crate::keyed::upsert_by_key(old(v).deep_view(), cv);
            assert forall|j: int| 0 <= j < dv.len() implies dv[j] == target[j] by {
                assert(dv[j] == v@[j].deep_view());
                if j != i {
                    assert(v@[j] == old(v)@[j]);
                    assert(old(v).deep_view()[j] == old(v)@[j].deep_view());
                }
            }
            assert(dv =~= target);
        }
    } else {
        v.push(c);
        proof {
            let dv = v.deep_view();
            let target = crate::keyed::upsert_by_key(old(v).deep_view(), cv);
            assert forall|j: int| 0 <= j < dv.len() implies dv[j] == target[j] by {
                assert(dv[j] == v@[j].deep_view());
                if j < old(v)@.len() {
                    assert(v@[j] == old(v)@[j]);
                    assert(old(v).deep_view()[j] == old(v)@[j].deep_view());
                }
            }
            assert(dv =~= target);
        }
    }
}

} // verus!
