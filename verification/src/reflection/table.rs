//! Tables: ordered columns and indexes, table-scoped constraints, and the
//! accumulated, deduplicated primary-key column list.

use crate::keyed::{
    keys_unique, lemma_key_index_of, lemma_upsert_keeps_keys_unique, lookup_by_key, upsert_by_key,
    Keyed,
};
use crate::metadata::consts::{METADATA_CHARSET, METADATA_COLLATION, METADATA_FLAG_PRIMARY};
use crate::metadata::{meta_has_key, meta_insert, meta_lookup, MetaPairs, MetadataBag};
use crate::reflection::column::{position_of_column_vec, upsert_column_vec, Column, ColumnView};
use crate::reflection::constraint::{
    position_of_constraint_vec, upsert_constraint_vec, Constraint, ConstraintView,
};
use crate::reflection::datatypes::spec_is_text;
use crate::reflection::index::{position_of_index_vec, upsert_index_vec, Index, IndexView};
use crate::strutil::vec_contains_str;
use vstd::prelude::*;

verus! {

/// The abstract value of a [`Table`].
pub struct TableView {
    pub name: Seq<char>,
    pub primary_key: Seq<Seq<char>>,
    pub columns: Seq<ColumnView>,
    pub indexes: Seq<IndexView>,
    pub constraints: Seq<ConstraintView>,
    pub metadata: MetaPairs,
}

impl Keyed for TableView {
    open spec fn key(self) -> Seq<char> {
        self.name
    }
}

/// The column as it is attached: a text-category column with neither
/// charset nor collation of its own inherits both from a table that has
/// both.
pub open spec fn spec_inherited_column(t: TableView, c: ColumnView) -> ColumnView {
    if spec_is_text(c.datatype) && meta_lookup(c.metadata, METADATA_CHARSET@) is None
        && meta_lookup(c.metadata, METADATA_COLLATION@) is None && meta_lookup(
        t.metadata,
        METADATA_CHARSET@,
    ) is Some && meta_lookup(t.metadata, METADATA_COLLATION@) is Some {
        let cs = match meta_lookup(t.metadata, METADATA_CHARSET@) {
            Some(v) => v,
            None => Seq::empty(),
        };
        let co = match meta_lookup(t.metadata, METADATA_COLLATION@) {
            Some(v) => v,
            None => Seq::empty(),
        };
        ColumnView {
            metadata: meta_insert(
                meta_insert(c.metadata, METADATA_CHARSET@, cs),
                METADATA_COLLATION@,
                co,
            ),
            ..c
        }
    } else {
        c
    }
}

/// The primary-key list after seeing a column name: a flagged name is
/// appended once, never twice.
pub open spec fn spec_track_primary(
    pk: Seq<Seq<char>>,
    flagged: bool,
    name: Seq<char>,
) -> Seq<Seq<char>> {
    if flagged && !pk.contains(name) {
        pk.push(name)
    } else {
        pk
    }
}

/// What attaching a column does: charset/collation inheritance, then
/// primary-key tracking off the `primary` metadata flag, then the ordered
/// upsert into the column map.
pub open spec fn spec_set_column(t: TableView, c0: ColumnView) -> TableView {
    let c = spec_inherited_column(t, c0);
    TableView {
        columns: upsert_by_key(t.columns, c),
        primary_key: spec_track_primary(
            t.primary_key,
            meta_has_key(c.metadata, METADATA_FLAG_PRIMARY@),
            c.name,
        ),
        ..t
    }
}

/// What attaching an index does: primary-key tracking off the index's
/// `primary` flag, then the ordered upsert into the index map.
pub open spec fn spec_set_index(t: TableView, iv: IndexView) -> TableView {
    TableView {
        indexes: upsert_by_key(t.indexes, iv),
        primary_key: spec_track_primary(t.primary_key, iv.primary, iv.column.name),
        ..t
    }
}

/// What attaching a table-scoped constraint does: the ordered upsert into
/// the constraint map.
pub open spec fn spec_set_constraint(t: TableView, c: ConstraintView) -> TableView {
    TableView { constraints: upsert_by_key(t.constraints, c), ..t }
}

/// The columns whose names stand in the primary-key list, in column
/// order.
pub open spec fn spec_pk_filter(cols: Seq<ColumnView>, pk: Seq<Seq<char>>) -> Seq<ColumnView> {
    cols.filter(|c: ColumnView| pk.contains(c.name))
}

/// Index of the first index record referencing a column named `n`, or
/// `s.len()`.
pub open spec fn index_pos_by_column_name(s: Seq<IndexView>, n: Seq<char>) -> int
    decreases s.len(),
{
    if s.len() == 0 {
        0
    } else if s[0].column.name == n {
        0
    } else {
        1 + index_pos_by_column_name(s.drop_first(), n)
    }
}

/// Some index record references a column named `n`.
pub open spec fn index_exists_by_column_name(s: Seq<IndexView>, n: Seq<char>) -> bool {
    exists|i: int| 0 <= i < s.len() && s[i].column.name == n
}

/// `index_pos_by_column_name` really is the first such record.
pub proof fn lemma_index_pos_by_column_name(s: Seq<IndexView>, n: Seq<char>)
    ensures
        index_exists_by_column_name(s, n) ==> {
            let i = index_pos_by_column_name(s, n);
            &&& 0 <= i < s.len()
            &&& s[i].column.name == n
            &&& forall|j: int| 0 <= j < i ==> s[j].column.name != n
        },
        !index_exists_by_column_name(s, n) ==> index_pos_by_column_name(s, n) == s.len(),
    decreases s.len(),
{
    if s.len() == 0 {
    } else if s[0].column.name == n {
    } else {
        lemma_index_pos_by_column_name(s.drop_first(), n);
        let rest = s.drop_first();
        assert(forall|j: int| 1 <= j < s.len() ==> s[j] == rest[j - 1]);
        if index_exists_by_column_name(rest, n) {
            assert(s[1 + index_pos_by_column_name(rest, n)].column.name == n);
        } else {
            assert(!index_exists_by_column_name(s, n)) by {
                if index_exists_by_column_name(s, n) {
                    let i = choose|i: int| 0 <= i < s.len() && s[i].column.name == n;
                    assert(rest[i - 1].column.name == n);
                }
            }
        }
    }
}

/// Index of the first constraint whose first key pair's local column is
/// named `n`, or `s.len()`.
pub open spec fn constraint_pos_by_local_name(s: Seq<ConstraintView>, n: Seq<char>) -> int
    decreases s.len(),
{
    if s.len() == 0 {
        0
    } else if s[0].key_pairs.len() > 0 && s[0].key_pairs[0].local.name == n {
        0
    } else {
        1 + constraint_pos_by_local_name(s.drop_first(), n)
    }
}

/// Some constraint's first key pair has a local column named `n`.
pub open spec fn constraint_exists_by_local_name(s: Seq<ConstraintView>, n: Seq<char>) -> bool {
    exists|i: int|
        0 <= i < s.len() && s[i].key_pairs.len() > 0 && s[i].key_pairs[0].local.name == n
}

/// `constraint_pos_by_local_name` really is the first such constraint.
pub proof fn lemma_constraint_pos_by_local_name(s: Seq<ConstraintView>, n: Seq<char>)
    ensures
        constraint_exists_by_local_name(s, n) ==> {
            let i = constraint_pos_by_local_name(s, n);
            &&& 0 <= i < s.len()
            &&& s[i].key_pairs.len() > 0 && s[i].key_pairs[0].local.name == n
            &&& forall|j: int|
                0 <= j < i ==> !(s[j].key_pairs.len() > 0 && s[j].key_pairs[0].local.name == n)
        },
        !constraint_exists_by_local_name(s, n) ==> constraint_pos_by_local_name(s, n) == s.len(),
    decreases s.len(),
{
    if s.len() == 0 {
    } else if s[0].key_pairs.len() > 0 && s[0].key_pairs[0].local.name == n {
    } else {
        lemma_constraint_pos_by_local_name(s.drop_first(), n);
        let rest = s.drop_first();
        assert(forall|j: int| 1 <= j < s.len() ==> s[j] == rest[j - 1]);
        if constraint_exists_by_local_name(rest, n) {
            let i = constraint_pos_by_local_name(rest, n);
            assert(s[1 + i] == rest[i]);
            assert(constraint_exists_by_local_name(s, n));
        } else {
            assert(!constraint_exists_by_local_name(s, n)) by {
                if constraint_exists_by_local_name(s, n) {
                    let i = choose|i: int|
                        0 <= i < s.len() && s[i].key_pairs.len() > 0
                            && s[i].key_pairs[0].local.name == n;
                    assert(rest[i - 1].key_pairs.len() > 0 && rest[i - 1].key_pairs[0].local.name
                        == n);
                }
            }
        }
    }
}

/// One table of the schema model.
#[derive(Debug, PartialEq)]
pub struct Table {
    name: String,
    primary_key: Vec<String>,
    columns: Vec<Column>,
    indexes: Vec<Index>,
    constraints: Vec<Constraint>,
    metadata: MetadataBag,
}

impl View for Table {
    type V = TableView;

    closed spec fn view(&self) -> TableView {
        TableView {
            name: self.name@,
            primary_key: self.primary_key.deep_view(),
            columns: self.columns.deep_view(),
            indexes: self.indexes.deep_view(),
            constraints: self.constraints.deep_view(),
            metadata: self.metadata@,
        }
    }
}

impl DeepView for Table {
    type V = TableView;

    open spec fn deep_view(&self) -> TableView {
        self@
    }
}

impl Table {
    /// Create a new empty table
    pub fn new(name: &str) -> (r: Table)
        ensures
            r@ == (TableView {
                name: name@,
                primary_key: Seq::empty(),
                columns: Seq::empty(),
                indexes: Seq::empty(),
                constraints: Seq::empty(),
                metadata: Seq::empty(),
            }),
    {
        let r = Table {
            name: name.to_owned(),
            primary_key: Vec::new(),
            columns: Vec::new(),
            indexes: Vec::new(),
            constraints: Vec::new(),
            metadata: MetadataBag::new(),
        };
        proof {
            assert(r.primary_key.deep_view() =~= Seq::<Seq<char>>::empty());
            assert(r.columns.deep_view() =~= Seq::<ColumnView>::empty());
            assert(r.indexes.deep_view() =~= Seq::<IndexView>::empty());
            assert(r.constraints.deep_view() =~= Seq::<ConstraintView>::empty());
        }
        r
    }

    /// Get table name
    pub fn name(&self) -> (r: &String)
        ensures
            r@ == self@.name,
    {
        &self.name
    }

    /// Add a new column to the table
    pub fn set_column(&mut self, column: Column)
        ensures
            final(self)@ == spec_set_column(old(self)@, column@),
    {
        let mut column = column;
        let ghost c0 = column@;
        let is_text = column.datatype().is_text();
        let col_charset_absent = match column.meta(METADATA_CHARSET) {
            Some(_) => false,
            None => true,
        };
        let col_collation_absent = match column.meta(METADATA_COLLATION) {
            Some(_) => false,
            None => true,
        };
        let table_charset = self.metadata.meta(METADATA_CHARSET);
        let table_collation = self.metadata.meta(METADATA_COLLATION);
        if is_text && col_charset_absent && col_collation_absent {
            if let (Some(cs), Some(co)) = (table_charset, table_collation) {
                column.set_meta(METADATA_CHARSET, cs.as_str());
                column.set_meta(METADATA_COLLATION, co.as_str());
            }
        }
        proof {
            assert(column@ == spec_inherited_column(old(self)@, c0));
        }
        if column.meta_flag(METADATA_FLAG_PRIMARY) && !vec_contains_str(
            &self.primary_key,
            column.name().as_str(),
        ) {
            let ghost prevpk = self.primary_key;
            self.primary_key.push(column.name().clone());
            proof {
                assert forall|j: int| 0 <= j < self.primary_key.deep_view().len() implies self
                    .primary_key
                    .deep_view()[j] == prevpk.deep_view().push(column@.name)[j] by {
                    assert(self.primary_key.deep_view()[j] == self.primary_key@[j]@);
                    if j < prevpk@.len() {
                        assert(self.primary_key@[j] == prevpk@[j]);
                        assert(prevpk.deep_view()[j] == prevpk@[j]@);
                    }
                }
                assert(self.primary_key.deep_view() =~= prevpk.deep_view().push(column@.name));
            }
        }
        upsert_column_vec(&mut self.columns, column);
    }

    /// Find a column by name
    pub fn column(&self, key: &str) -> (r: Option<&Column>)
        ensures
            match r {
                Some(c) => lookup_by_key(self@.columns, key@) == Some(c@),
                None => lookup_by_key(self@.columns, key@) is None,
            },
    {
        let i = position_of_column_vec(&self.columns, key);
        proof {
            lemma_key_index_of(self@.columns, key@);
        }
        if i < self.columns.len() {
            Some(&self.columns[i])
        } else {
            None
        }
    }

    /// Get columns in attachment order
    pub fn columns(&self) -> (r: &Vec<Column>)
        ensures
            r.deep_view() == self@.columns,
    {
        &self.columns
    }

    /// Add a new index
    pub fn set_index(&mut self, index: Index)
        ensures
            final(self)@ == spec_set_index(old(self)@, index@),
    {
        if index.primary() && !vec_contains_str(
            &self.primary_key,
            index.column().name().as_str(),
        ) {
            let ghost prevpk = self.primary_key;
            self.primary_key.push(index.column().name().clone());
            proof {
                assert forall|j: int| 0 <= j < self.primary_key.deep_view().len() implies self
                    .primary_key
                    .deep_view()[j] == prevpk.deep_view().push(index@.column.name)[j] by {
                    assert(self.primary_key.deep_view()[j] == self.primary_key@[j]@);
                    if j < prevpk@.len() {
                        assert(self.primary_key@[j] == prevpk@[j]);
                        assert(prevpk.deep_view()[j] == prevpk@[j]@);
                    }
                }
                assert(self.primary_key.deep_view() =~= prevpk.deep_view().push(
                    index@.column.name,
                ));
            }
        }
        upsert_index_vec(&mut self.indexes, index);
    }

    /// Find an index by name
    pub fn index(&self, key: &str) -> (r: Option<&Index>)
        ensures
            match r {
                Some(iv) => lookup_by_key(self@.indexes, key@) == Some(iv@),
                None => lookup_by_key(self@.indexes, key@) is None,
            },
    {
        let i = position_of_index_vec(&self.indexes, key);
        proof {
            lemma_key_index_of(self@.indexes, key@);
        }
        if i < self.indexes.len() {
            Some(&self.indexes[i])
        } else {
            None
        }
    }

    /// Find the first index referencing a column of this name
    pub fn index_by_column_name(&self, column_name: &str) -> (r: Option<&Index>)
        ensures
            match r {
                Some(iv) => index_exists_by_column_name(self@.indexes, column_name@) && iv@
                    == self@.indexes[index_pos_by_column_name(self@.indexes, column_name@)],
                None => !index_exists_by_column_name(self@.indexes, column_name@),
            },
    {
        let ghost dv = self@.indexes;
        let n = self.indexes.len();
        let mut i: usize = 0;
        while i < n
            invariant
                n == self.indexes@.len(),
                0 <= i <= n,
                dv == self@.indexes,
                forall|j: int| 0 <= j < i ==> dv[j].column.name != column_name@,
            decreases n - i,
        {
            if crate::strutil::str_eq(self.indexes[i].column().name().as_str(), column_name) {
                proof {
                    lemma_index_pos_by_column_name(dv, column_name@);
                    assert(dv[i as int].column.name == column_name@);
                    assert(index_exists_by_column_name(dv, column_name@));
                    let f = index_pos_by_column_name(dv, column_name@);
                    if f < i {
                        assert(dv[f].column.name != column_name@);
                    }
                    if (i as int) < f {
                        assert(dv[i as int].column.name != column_name@);
                    }
                }
                return Some(&self.indexes[i]);
            }
            i = i + 1;
        }
        proof {
            lemma_index_pos_by_column_name(dv, column_name@);
            assert(!index_exists_by_column_name(dv, column_name@));
        }
        None
    }

    /// Find the first index referencing this column, compared by name
    pub fn index_by_column(&self, column: &Column) -> (r: Option<&Index>)
        ensures
            match r {
                Some(iv) => index_exists_by_column_name(self@.indexes, column@.name) && iv@
                    == self@.indexes[index_pos_by_column_name(self@.indexes, column@.name)],
                None => !index_exists_by_column_name(self@.indexes, column@.name),
            },
    {
        self.index_by_column_name(column.name().clone().as_str())
    }

    /// Get indexes in attachment order
    pub fn indexes(&self) -> (r: &Vec<Index>)
        ensures
            r.deep_view() == self@.indexes,
    {
        &self.indexes
    }

    /// Add a constraint scoped to this table
    pub fn set_constraint(&mut self, constraint: Constraint)
        ensures
            final(self)@ == spec_set_constraint(old(self)@, constraint@),
    {
        upsert_constraint_vec(&mut self.constraints, constraint);
    }

    /// Find a constraint by name
    pub fn constraint(&self, key: &str) -> (r: Option<&Constraint>)
        ensures
            match r {
                Some(c) => lookup_by_key(self@.constraints, key@) == Some(c@),
                None => lookup_by_key(self@.constraints, key@) is None,
            },
    {
        let i = position_of_constraint_vec(&self.constraints, key);
        proof {
            lemma_key_index_of(self@.constraints, key@);
        }
        if i < self.constraints.len() {
            Some(&self.constraints[i])
        } else {
            None
        }
    }

    /// Find the first constraint whose local column has this name
    pub fn constraint_by_column_name(&self, column_name: &str) -> (r: Option<&Constraint>)
        ensures
            match r {
                Some(c) => constraint_exists_by_local_name(self@.constraints, column_name@) && c@
                    == self@.constraints[constraint_pos_by_local_name(
                    self@.constraints,
                    column_name@,
                )],
                None => !constraint_exists_by_local_name(self@.constraints, column_name@),
            },
    {
        let ghost dv = self@.constraints;
        let n = self.constraints.len();
        let mut i: usize = 0;
        while i < n
            invariant
                n == self.constraints@.len(),
                0 <= i <= n,
                dv == self@.constraints,
                forall|j: int|
                    0 <= j < i ==> !(dv[j].key_pairs.len() > 0 && dv[j].key_pairs[0].local.name
                        == column_name@),
            decreases n - i,
        {
            let c = &self.constraints[i];
            if c.key_pairs_count() > 0 {
                if crate::strutil::str_eq(c.local().name().as_str(), column_name) {
                    proof {
                        lemma_constraint_pos_by_local_name(dv, column_name@);
                        assert(dv[i as int].key_pairs.len() > 0 && dv[i as int].key_pairs[0].local.name
                            == column_name@);
                        assert(constraint_exists_by_local_name(dv, column_name@));
                        let f = constraint_pos_by_local_name(dv, column_name@);
                        if f < i {
                            assert(!(dv[f].key_pairs.len() > 0 && dv[f].key_pairs[0].local.name
                                == column_name@));
                        }
                        if (i as int) < f {
                            assert(!(dv[i as int].key_pairs.len() > 0
                                && dv[i as int].key_pairs[0].local.name == column_name@));
                        }
                    }
                    return Some(&self.constraints[i]);
                }
            }
            i = i + 1;
        }
        proof {
            lemma_constraint_pos_by_local_name(dv, column_name@);
            assert(!constraint_exists_by_local_name(dv, column_name@));
        }
        None
    }

    /// Find the first constraint whose local column is this column,
    /// compared by name
    pub fn constraint_by_column(&self, column: &Column) -> (r: Option<&Constraint>)
        ensures
            match r {
                Some(c) => constraint_exists_by_local_name(self@.constraints, column@.name) && c@
                    == self@.constraints[constraint_pos_by_local_name(
                    self@.constraints,
                    column@.name,
                )],
                None => !constraint_exists_by_local_name(self@.constraints, column@.name),
            },
    {
        self.constraint_by_column_name(column.name().clone().as_str())
    }

    /// Get table-scoped constraints in attachment order
    pub fn constraints(&self) -> (r: &Vec<Constraint>)
        ensures
            r.deep_view() == self@.constraints,
    {
        &self.constraints
    }

    /// Get number of primary keys
    pub fn primary_key_count(&self) -> (r: usize)
        ensures
            r == self@.primary_key.len(),
    {
        self.primary_key.len()
    }

    /// Get primary key, or first primary key column name
    pub fn primary_key(&self) -> (r: Option<String>)
        ensures
            match r {
                Some(v) => self@.primary_key.len() > 0 && v@ == self@.primary_key[0],
                None => self@.primary_key.len() == 0,
            },
    {
        if self.primary_key.len() > 0 {
            Some(self.primary_key[0].clone())
        } else {
            None
        }
    }

    /// Get primary key column or first primary key column
    pub fn primary_key_column(&self) -> (r: Option<&Column>)
        requires
            self@.primary_key.len() > 0,
        ensures
            match r {
                Some(c) => lookup_by_key(self@.columns, self@.primary_key[0]) == Some(c@),
                None => lookup_by_key(self@.columns, self@.primary_key[0]) is None,
            },
    {
        self.column(self.primary_key[0].clone().as_str())
    }

    /// Get primary key column names in first-seen order
    pub fn primary_keys(&self) -> (r: &Vec<String>)
        ensures
            r.deep_view() == self@.primary_key,
    {
        &self.primary_key
    }

    /// Get primary key columns, in column order
    pub fn primary_key_columns(&self) -> (r: Vec<Column>)
        ensures
            r.deep_view() == spec_pk_filter(self@.columns, self@.primary_key),
    {
        let ghost cols = self@.columns;
        let ghost pk = self@.primary_key;
        let mut out: Vec<Column> = Vec::new();
        let n = self.columns.len();
        let mut i: usize = 0;
        proof {
            assert(cols.subrange(0, 0) =~= Seq::<ColumnView>::empty());
            reveal(Seq::filter);
            assert(out.deep_view() =~= spec_pk_filter(cols.subrange(0, 0), pk));
        }
        while i < n
            invariant
                n == self.columns@.len(),
                0 <= i <= n,
                cols == self@.columns,
                pk == self@.primary_key,
                out.deep_view() == spec_pk_filter(cols.subrange(0, i as int), pk),
            decreases n - i,
        {
            let ghost prevout = out;
            let keep = vec_contains_str(&self.primary_key, self.columns[i].name().as_str());
            if keep {
                out.push(self.columns[i].clone());
            }
            proof {
                reveal(Seq::filter);
                let pre = cols.subrange(0, i as int);
                let ext = cols.subrange(0, i as int + 1);
                assert(ext.drop_last() =~= pre);
                assert(ext.last() == cols[i as int]);
                assert(spec_pk_filter(ext, pk) == if pk.contains(cols[i as int].name) {
                    spec_pk_filter(pre, pk).push(cols[i as int])
                } else {
                    spec_pk_filter(pre, pk)
                });
                if keep {
                    assert forall|j: int| 0 <= j < out.deep_view().len() implies out.deep_view()[j]
                        == spec_pk_filter(ext, pk)[j] by {
                        assert(out.deep_view()[j] == out@[j].deep_view());
                        if j < prevout@.len() {
                            assert(out@[j] == prevout@[j]);
                            assert(prevout.deep_view()[j] == prevout@[j].deep_view());
                        }
                    }
                    assert(out.deep_view() =~= spec_pk_filter(ext, pk));
                } else {
                    assert(out.deep_view() == spec_pk_filter(ext, pk));
                }
            }
            i = i + 1;
        }
        proof {
            assert(cols.subrange(0, n as int) =~= cols);
        }
        out
    }

    /// Set metadata key value pair
    pub fn set_meta(&mut self, key: &str, value: &str)
        ensures
            final(self)@ == (TableView {
                metadata: meta_insert(old(self)@.metadata, key@, value@),
                ..old(self)@
            }),
    {
        self.metadata.set_meta(key, value);
    }

    /// Set metadata flag
    pub fn set_meta_flag(&mut self, flag: &str)
        ensures
            final(self)@ == (TableView {
                metadata: meta_insert(old(self)@.metadata, flag@, "1"@),
                ..old(self)@
            }),
    {
        self.metadata.set_meta_flag(flag);
    }

    /// Get metadata value by key
    pub fn meta(&self, key: &str) -> (r: Option<String>)
        ensures
            match r {
                Some(v) => meta_lookup(self@.metadata, key@) == Some(v@),
                None => meta_lookup(self@.metadata, key@) is None,
            },
    {
        self.metadata.meta(key)
    }

    /// Check if metadata flag is set
    pub fn meta_flag(&self, flag: &str) -> (r: bool)
        ensures
            r == meta_has_key(self@.metadata, flag@),
    {
        self.metadata.meta_flag(flag)
    }

    /// Borrow the metadata bag
    pub fn metadata(&self) -> (r: &MetadataBag)
        ensures
            r@ == self@.metadata,
    {
        &self.metadata
    }
}

impl Clone for Table {
    fn clone(&self) -> (res: Self)
        ensures
            res@ == self@,
    {
        let primary_key = crate::strutil::clone_string_vec(&self.primary_key);
        let columns = self.columns.clone();
        let indexes = self.indexes.clone();
        let constraints = self.constraints.clone();
        proof {
            assert forall|i: int| 0 <= i < columns@.len() implies columns.deep_view()[i]
                == self.columns.deep_view()[i] by {
                assert(cloned::<Column>(self.columns@[i], columns@[i]));
            }
            assert(columns.deep_view() =~= self.columns.deep_view());
            assert forall|i: int| 0 <= i < indexes@.len() implies indexes.deep_view()[i]
                == self.indexes.deep_view()[i] by {
                assert(cloned::<Index>(self.indexes@[i], indexes@[i]));
            }
            assert(indexes.deep_view() =~= self.indexes.deep_view());
            assert forall|i: int| 0 <= i < constraints@.len() implies constraints.deep_view()[i]
                == self.constraints.deep_view()[i] by {
                assert(cloned::<Constraint>(self.constraints@[i], constraints@[i]));
            }
            assert(constraints.deep_view() =~= self.constraints.deep_view());
        }
        Table {
            name: self.name.clone(),
            primary_key,
            columns,
            indexes,
            constraints,
            metadata: self.metadata.duplicate(),
        }
    }
}

/// Attaching columns and indexes never records a primary-key column name
/// twice: if the primary-key list has no duplicates, it still has none
/// afterwards, whichever path asserted membership.
pub proof fn lemma_primary_key_stays_distinct(pk: Seq<Seq<char>>, flagged: bool, name: Seq<char>)
    requires
        forall|i: int, j: int| 0 <= i < j < pk.len() ==> pk[i] != pk[j],
    ensures
        forall|i: int, j: int|
            0 <= i < j < spec_track_primary(pk, flagged, name).len() ==> spec_track_primary(
                pk,
                flagged,
                name,
            )[i] != spec_track_primary(pk, flagged, name)[j],
{
    let out = spec_track_primary(pk, flagged, name);
    if flagged && !pk.contains(name) {
        assert forall|i: int, j: int| 0 <= i < j < out.len() implies out[i] != out[j] by {
            if j == pk.len() {
                assert(out[j] == name);
                assert(out[i] == pk[i]);
                assert(!pk.contains(name));
                if pk[i] == name {
                    assert(pk.contains(name));
                }
            }
        }
    }
}

/// Attaching a column never double-counts a primary-key column: a
/// primary-key list without duplicates stays without duplicates.
pub proof fn lemma_set_column_keeps_primary_key_distinct(t: TableView, c: ColumnView)
    requires
        forall|i: int, j: int|
            0 <= i < j < t.primary_key.len() ==> t.primary_key[i] != t.primary_key[j],
    ensures
        forall|i: int, j: int|
            0 <= i < j < spec_set_column(t, c).primary_key.len() ==> spec_set_column(
                t,
                c,
            ).primary_key[i] != spec_set_column(t, c).primary_key[j],
{
    let ci = spec_inherited_column(t, c);
    lemma_primary_key_stays_distinct(
        t.primary_key,
        meta_has_key(ci.metadata, METADATA_FLAG_PRIMARY@),
        ci.name,
    );
}

/// Attaching an index never double-counts a primary-key column either:
/// both attachment paths feed the same deduplicated list.
pub proof fn lemma_set_index_keeps_primary_key_distinct(t: TableView, iv: IndexView)
    requires
        forall|i: int, j: int|
            0 <= i < j < t.primary_key.len() ==> t.primary_key[i] != t.primary_key[j],
    ensures
        forall|i: int, j: int|
            0 <= i < j < spec_set_index(t, iv).primary_key.len() ==> spec_set_index(
                t,
                iv,
            ).primary_key[i] != spec_set_index(t, iv).primary_key[j],
{
    lemma_primary_key_stays_distinct(t.primary_key, iv.primary, iv.column.name);
}

/// Names stay unique per scope: attaching a column, an index or a
/// table-scoped constraint to a table whose maps carry no duplicate
/// names leaves them without duplicate names.
pub proof fn lemma_table_scopes_keep_names_unique(t: TableView, c: ColumnView, iv: IndexView, cn: ConstraintView)
    ensures
        keys_unique(t.columns) ==> keys_unique(spec_set_column(t, c).columns),
        keys_unique(t.indexes) ==> keys_unique(spec_set_index(t, iv).indexes),
        keys_unique(t.constraints) ==> keys_unique(spec_set_constraint(t, cn).constraints),
{
    if keys_unique(t.columns) {
        lemma_upsert_keeps_keys_unique(t.columns, spec_inherited_column(t, c));
    }
    if keys_unique(t.indexes) {
        lemma_upsert_keeps_keys_unique(t.indexes, iv);
    }
    if keys_unique(t.constraints) {
        lemma_upsert_keeps_keys_unique(t.constraints, cn);
    }
}

/// Position of the first table named `name`, scanning forward; the
/// vector's length when no table matches.
pub(crate) fn position_of_table_vec(v: &Vec<Table>, name: &str) -> (r: usize)
    ensures
        r == crate::keyed::key_index_of(v.deep_view(), name@),
        r <= v.deep_view().len(),
{
    let ghost dv = v.deep_view();
    let n = v.len();
    let mut i: usize = 0;
    while i < n
        invariant
            n == v@.len(),
            0 <= i <= n,
            dv == v.deep_view(),
            forall|j: int| 0 <= j < i ==> dv[j].key() != name@,
        decreases n - i,
    {
        if crate::strutil::str_eq(v[i].name().as_str(), name) {
            proof {
                crate::keyed::lemma_key_index_of(dv, name@);
                assert(dv[i as int].key() == name@);
                assert(crate::keyed::has_key(dv, name@));
                let f = crate::keyed::key_index_of(dv, name@);
                if f < i {
                    assert(dv[f].key() != name@);
                }
                if (i as int) < f {
                    assert(dv[i as int].key() != name@);
                }
            }
            return i;
        }
        i = i + 1;
    }
    proof {
        crate::keyed::lemma_key_index_of(dv, name@);
        assert(!crate::keyed::has_key(dv, name@));
    }
    i
}

/// Store the table in `v` under its name: replace the first table of
/// that name in place, or append.
pub(crate) fn upsert_table_vec(v: &mut Vec<Table>, x: Table)
    ensures
        final(v).deep_view() == crate::keyed::upsert_by_key(old(v).deep_view(), x@),
{
    let ghost xv = x@;
    proof {
        crate::keyed::lemma_key_index_of(old(v).deep_view(), xv.key());
    }
    let i = position_of_table_vec(v, x.name().clone().as_str());
    if i < v.len() {
        v.set(i, x);
        proof {
            let dv = v.deep_view();
            let target = crate::keyed::upsert_by_key(old(v).deep_view(), xv);
            assert forall|j: int| 0 <= j < dv.len() implies dv[j] == target[j] by {
                assert(dv[j] == v@[j].deep_view());
                if j != i {
                    assert(v@[j] == old(v)@[j]);
                    assert(old(v).deep_view()[j] == old(v)@[j].deep_view());
                }
            }
            assert(dv =~= target);
        }
    } else {
        v.push(x);
        proof {
            let dv = v.deep_view();
            let target = crate::keyed::upsert_by_key(old(v).deep_view(), xv);
            assert forall|j: int| 0 <= j < dv.len() implies dv[j] == target[j] by {
                assert(dv[j] == v@[j].deep_view());
                if j < old(v)@.len() {
                    assert(v@[j] == old(v)@[j]);
                    assert(old(v).deep_view()[j] == old(v)@[j].deep_view());
                }
            }
            assert(dv =~= target);
        }
    }
}

} // verus!
