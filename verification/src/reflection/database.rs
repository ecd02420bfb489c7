//! Databases: ordered tables, constraints promoted to database scope, and
//! reverse-relationship queries.

use crate::keyed::{lemma_key_index_of, lookup_by_key, upsert_by_key, Keyed};
use crate::metadata::consts::{METADATA_CHARSET, METADATA_COLLATION};
use crate::metadata::{meta_has_key, meta_insert, meta_lookup, MetaPairs, MetadataBag};
use crate::reflection::column::Column;
use crate::reflection::constraint::{
    position_of_constraint_vec, upsert_constraint_vec, Constraint, ConstraintSide, ConstraintView,
};
use crate::reflection::table::{position_of_table_vec, upsert_table_vec, Table, TableView};
use vstd::prelude::*;

verus! {

/// The abstract value of a [`Database`].
pub struct DatabaseView {
    pub name: Seq<char>,
    pub tables: Seq<TableView>,
    pub constraints: Seq<ConstraintView>,
    pub metadata: MetaPairs,
}

/// The table as it is attached: a table declaring neither charset nor
/// collation inherits both from a database that has both. The copy is
/// made once, at attachment.
pub open spec fn spec_inherited_table(d: DatabaseView, t: TableView) -> TableView {
    if meta_lookup(t.metadata, METADATA_CHARSET@) is None && meta_lookup(
        t.metadata,
        METADATA_COLLATION@,
    ) is None && meta_lookup(d.metadata, METADATA_CHARSET@) is Some && meta_lookup(
        d.metadata,
        METADATA_COLLATION@,
    ) is Some {
        let cs = match meta_lookup(d.metadata, METADATA_CHARSET@) {
            Some(v) => v,
            None => Seq::empty(),
        };
        let co = match meta_lookup(d.metadata, METADATA_COLLATION@) {
            Some(v) => v,
            None => Seq::empty(),
        };
        TableView {
            metadata: meta_insert(
                meta_insert(t.metadata, METADATA_CHARSET@, cs),
                METADATA_COLLATION@,
                co,
            ),
            ..t
        }
    } else {
        t
    }
}

/// Database-scope constraints after promoting a table's constraints, in
/// table order.
pub open spec fn spec_promote_constraints(
    cs: Seq<ConstraintView>,
    new: Seq<ConstraintView>,
) -> Seq<ConstraintView>
    decreases new.len(),
{
    if new.len() == 0 {
        cs
    } else {
        spec_promote_constraints(upsert_by_key(cs, new[0]), new.drop_first())
    }
}

/// Promoting one more constraint is one more upsert.
pub proof fn lemma_promote_push(cs: Seq<ConstraintView>, s: Seq<ConstraintView>, x: ConstraintView)
    ensures
        spec_promote_constraints(cs, s.push(x)) == upsert_by_key(spec_promote_constraints(cs, s), x),
    decreases s.len(),
{
    if s.len() == 0 {
        let e = s.push(x).drop_first();
        assert(e.len() == 0);
        assert(s.push(x)[0] == x);
        assert(spec_promote_constraints(cs, s.push(x)) == spec_promote_constraints(
            upsert_by_key(cs, x),
            e,
        ));
        assert(spec_promote_constraints(upsert_by_key(cs, x), e) == upsert_by_key(cs, x));
        assert(spec_promote_constraints(cs, s) == cs);
    } else {
        assert(s.push(x)[0] == s[0]);
        assert(s.push(x).drop_first() =~= s.drop_first().push(x));
        assert(spec_promote_constraints(cs, s.push(x)) == spec_promote_constraints(
            upsert_by_key(cs, s[0]),
            s.drop_first().push(x),
        ));
        lemma_promote_push(upsert_by_key(cs, s[0]), s.drop_first(), x);
        assert(spec_promote_constraints(cs, s) == spec_promote_constraints(
            upsert_by_key(cs, s[0]),
            s.drop_first(),
        ));
    }
}

/// What attaching a table does: charset/collation inheritance, promotion
/// of the table's constraints to database scope, then the ordered upsert
/// into the table map.
pub open spec fn spec_set_table(d: DatabaseView, t0: TableView) -> DatabaseView {
    let t = spec_inherited_table(d, t0);
    DatabaseView {
        tables: upsert_by_key(d.tables, t),
        constraints: spec_promote_constraints(d.constraints, t.constraints),
        ..d
    }
}

/// What attaching a database-scope constraint does: the ordered upsert
/// into the constraint map.
pub open spec fn spec_db_set_constraint(d: DatabaseView, c: ConstraintView) -> DatabaseView {
    DatabaseView { constraints: upsert_by_key(d.constraints, c), ..d }
}

/// The constraint touches the named table on the requested side, judged
/// by its first key pair.
pub open spec fn constraint_matches_table(
    c: ConstraintView,
    table: Seq<char>,
    side: Option<ConstraintSide>,
) -> bool {
    ||| (c.key_pairs.len() > 0 && c.key_pairs[0].local.table == table && side != Some(
        ConstraintSide::Foreign,
    ))
    ||| (c.key_pairs.len() > 0 && c.key_pairs[0].foreign.table == table && side != Some(
        ConstraintSide::Local,
    ))
}

/// The constraints touching the named table on the requested side, in
/// attachment order.
pub open spec fn spec_constraints_by_table(
    cs: Seq<ConstraintView>,
    table: Seq<char>,
    side: Option<ConstraintSide>,
) -> Seq<ConstraintView>
    decreases cs.len(),
{
    if cs.len() == 0 {
        Seq::empty()
    } else {
        let rest = spec_constraints_by_table(cs.drop_last(), table, side);
        if constraint_matches_table(cs.last(), table, side) {
            rest.push(cs.last())
        } else {
            rest
        }
    }
}

/// The constraint touches the named column of the named table on the
/// requested side, judged by its first key pair.
pub open spec fn constraint_matches_column(
    c: ConstraintView,
    table: Seq<char>,
    name: Seq<char>,
    side: Option<ConstraintSide>,
) -> bool {
    ||| (c.key_pairs.len() > 0 && c.key_pairs[0].local.table == table
        && c.key_pairs[0].local.name == name && side != Some(ConstraintSide::Foreign))
    ||| (c.key_pairs.len() > 0 && c.key_pairs[0].foreign.table == table
        && c.key_pairs[0].foreign.name == name && side != Some(ConstraintSide::Local))
}

/// The constraints touching the column on the requested side, in
/// attachment order.
pub open spec fn spec_constraints_by_column(
    cs: Seq<ConstraintView>,
    table: Seq<char>,
    name: Seq<char>,
    side: Option<ConstraintSide>,
) -> Seq<ConstraintView>
    decreases cs.len(),
{
    if cs.len() == 0 {
        Seq::empty()
    } else {
        let rest = spec_constraints_by_column(cs.drop_last(), table, name, side);
        if constraint_matches_column(cs.last(), table, name, side) {
            rest.push(cs.last())
        } else {
            rest
        }
    }
}

/// The constraint touches a column of this name on the requested side,
/// judged by its first key pair.
pub open spec fn constraint_matches_column_name(
    c: ConstraintView,
    name: Seq<char>,
    side: Option<ConstraintSide>,
) -> bool {
    ||| (c.key_pairs.len() > 0 && c.key_pairs[0].local.name == name && side != Some(
        ConstraintSide::Foreign,
    ))
    ||| (c.key_pairs.len() > 0 && c.key_pairs[0].foreign.name == name && side != Some(
        ConstraintSide::Local,
    ))
}

/// The constraints touching a column of this name on the requested side,
/// in attachment order.
pub open spec fn spec_constraints_by_column_name(
    cs: Seq<ConstraintView>,
    name: Seq<char>,
    side: Option<ConstraintSide>,
) -> Seq<ConstraintView>
    decreases cs.len(),
{
    if cs.len() == 0 {
        Seq::empty()
    } else {
        let rest = spec_constraints_by_column_name(cs.drop_last(), name, side);
        if constraint_matches_column_name(cs.last(), name, side) {
            rest.push(cs.last())
        } else {
            rest
        }
    }
}

/// A whole database schema.
#[derive(Debug, PartialEq)]
pub struct Database {
    name: String,
    tables: Vec<Table>,
    constraints: Vec<Constraint>,
    metadata: MetadataBag,
}

impl View for Database {
    type V = DatabaseView;

    closed spec fn view(&self) -> DatabaseView {
        DatabaseView {
            name: self.name@,
            tables: self.tables.deep_view(),
            constraints: self.constraints.deep_view(),
            metadata: self.metadata@,
        }
    }
}

impl Database {
    /// Create a new database with a name
    pub fn new(name: &str) -> (r: Database)
        ensures
            r@ == (DatabaseView {
                name: name@,
                tables: Seq::empty(),
                constraints: Seq::empty(),
                metadata: Seq::empty(),
            }),
    {
        let r = Database {
            name: name.to_owned(),
            tables: Vec::new(),
            constraints: Vec::new(),
            metadata: MetadataBag::new(),
        };
        proof {
            assert(r.tables.deep_view() =~= Seq::<TableView>::empty());
            assert(r.constraints.deep_view() =~= Seq::<ConstraintView>::empty());
        }
        r
    }

    /// Get database name
    pub fn name(&self) -> (r: &str)
        ensures
            r@ == self@.name,
    {
        self.name.as_str()
    }

    /// Add a table to the database
    pub fn set_table(&mut self, table: Table)
        ensures
            final(self)@ == spec_set_table(old(self)@, table@),
    {
        let mut table = table;
        let ghost t0 = table@;
        let table_charset_absent = match table.meta(METADATA_CHARSET) {
            Some(_) => false,
            None => true,
        };
        let table_collation_absent = match table.meta(METADATA_COLLATION) {
            Some(_) => false,
            None => true,
        };
        let db_charset = self.metadata.meta(METADATA_CHARSET);
        let db_collation = self.metadata.meta(METADATA_COLLATION);
        if table_charset_absent && table_collation_absent {
            if let (Some(cs), Some(co)) = (db_charset, db_collation) {
                table.set_meta(METADATA_CHARSET, cs.as_str());
                table.set_meta(METADATA_COLLATION, co.as_str());
            }
        }
        proof {
            assert(table@ == spec_inherited_table(old(self)@, t0));
        }
        let ghost tv = table@;
        let ghost cs0 = self@.constraints;
        let tcs = table.constraints();
        let n = tcs.len();
        let mut i: usize = 0;
        proof {
            assert(tv.constraints.subrange(0, 0) =~= Seq::<ConstraintView>::empty());
            assert(spec_promote_constraints(cs0, tv.constraints.subrange(0, 0)) == cs0);
        }
        while i < n
            invariant
                n == table@.constraints.len(),
                0 <= i <= n,
                tv == table@,
                self@.constraints == spec_promote_constraints(
                    cs0,
                    tv.constraints.subrange(0, i as int),
                ),
                self@.name == old(self)@.name,
                self@.tables == old(self)@.tables,
                self@.metadata == old(self)@.metadata,
            decreases n - i,
        {
            let c = table.constraints()[i].clone();
            proof {
                assert(c@ == tv.constraints[i as int]);
            }
            upsert_constraint_vec(&mut self.constraints, c);
            proof {
                let pre = tv.constraints.subrange(0, i as int);
                let ext = tv.constraints.subrange(0, i as int + 1);
                assert(ext =~= pre.push(tv.constraints[i as int]));
                lemma_promote_push(cs0, pre, tv.constraints[i as int]);
            }
            i = i + 1;
        }
        proof {
            assert(tv.constraints.subrange(0, n as int) =~= tv.constraints);
        }
        upsert_table_vec(&mut self.tables, table);
    }

    /// Get a table by name
    pub fn table(&self, key: &str) -> (r: Option<&Table>)
        ensures
            match r {
                Some(t) => lookup_by_key(self@.tables, key@) == Some(t@),
                None => lookup_by_key(self@.tables, key@) is None,
            },
    {
        let i = position_of_table_vec(&self.tables, key);
        proof {
            lemma_key_index_of(self@.tables, key@);
        }
        if i < self.tables.len() {
            Some(&self.tables[i])
        } else {
            None
        }
    }

    /// Get tables in attachment order
    pub fn tables(&self) -> (r: &Vec<Table>)
        ensures
            r.deep_view() == self@.tables,
    {
        &self.tables
    }

    /// Add a constraint to the database
    pub fn set_constraint(&mut self, constraint: Constraint)
        ensures
            final(self)@ == spec_db_set_constraint(old(self)@, constraint@),
    {
        upsert_constraint_vec(&mut self.constraints, constraint);
    }

    /// Find a constraint by name
    pub fn constraint(&self, key: &str) -> (r: Option<&Constraint>)
        ensures
            match r {
                Some(c) => lookup_by_key(self@.constraints, key@) == Some(c@),
                None => lookup_by_key(self@.constraints, key@) is None,
            },
    {
        let i = position_of_constraint_vec(&self.constraints, key);
        proof {
            lemma_key_index_of(self@.constraints, key@);
        }
        if i < self.constraints.len() {
            Some(&self.constraints[i])
        } else {
            None
        }
    }

    /// Get database-scope constraints in attachment order
    pub fn constraints(&self) -> (r: &Vec<Constraint>)
        ensures
            r.deep_view() == self@.constraints,
    {
        &self.constraints
    }

    /// Search for constraints by local or foreign table name
    pub fn constraints_by_table(&self, table: &Table, side: Option<ConstraintSide>) -> (r: Vec<
        Constraint,
    >)
        ensures
            r.deep_view() == spec_constraints_by_table(self@.constraints, table@.name, side),
    {
        let ghost cs = self@.constraints;
        let ghost tn = table@.name;
        let mut out: Vec<Constraint> = Vec::new();
        let n = self.constraints.len();
        let mut i: usize = 0;
        proof {
            assert(cs.subrange(0, 0) =~= Seq::<ConstraintView>::empty());
            assert(out.deep_view() =~= spec_constraints_by_table(cs.subrange(0, 0), tn, side));
        }
        while i < n
            invariant
                n == self.constraints@.len(),
                0 <= i <= n,
                cs == self@.constraints,
                tn == table@.name,
                out.deep_view() == spec_constraints_by_table(cs.subrange(0, i as int), tn, side),
            decreases n - i,
        {
            let ghost prevout = out;
            let c = &self.constraints[i];
            let is_foreign = matches!(side, Some(ConstraintSide::Foreign));
            let is_local = matches!(side, Some(ConstraintSide::Local));
            let mut keep = false;
            if c.key_pairs_count() > 0 {
                if crate::strutil::str_eq(c.local().table().as_str(), table.name().as_str())
                    && !is_foreign {
                    keep = true;
                }
                if crate::strutil::str_eq(c.foreign().table().as_str(), table.name().as_str())
                    && !is_local {
                    keep = true;
                }
            }
            proof {
                assert(keep == constraint_matches_table(cs[i as int], tn, side));
            }
            if keep {
                out.push(self.constraints[i].clone());
            }
            proof {
                let pre = cs.subrange(0, i as int);
                let ext = cs.subrange(0, i as int + 1);
                assert(ext.drop_last() =~= pre);
                assert(ext.last() == cs[i as int]);
                assert(spec_constraints_by_table(ext, tn, side) == if constraint_matches_table(
                    cs[i as int],
                    tn,
                    side,
                ) {
                    spec_constraints_by_table(pre, tn, side).push(cs[i as int])
                } else {
                    spec_constraints_by_table(pre, tn, side)
                });
                if keep {
                    assert forall|j: int| 0 <= j < out.deep_view().len() implies out.deep_view()[j]
                        == spec_constraints_by_table(ext, tn, side)[j] by {
                        assert(out.deep_view()[j] == out@[j].deep_view());
                        if j < prevout@.len() {
                            assert(out@[j] == prevout@[j]);
                            assert(prevout.deep_view()[j] == prevout@[j].deep_view());
                        }
                    }
                    assert(out.deep_view() =~= spec_constraints_by_table(ext, tn, side));
                } else {
                    assert(out.deep_view() == spec_constraints_by_table(ext, tn, side));
                }
            }
            i = i + 1;
        }
        proof {
            assert(cs.subrange(0, n as int) =~= cs);
        }
        out
    }

    /// Search for constraints by local or foreign column
    pub fn constraints_by_column(&self, column: &Column, side: Option<ConstraintSide>) -> (r: Vec<
        Constraint,
    >)
        ensures
            r.deep_view() == spec_constraints_by_column(
                self@.constraints,
                column@.table,
                column@.name,
                side,
            ),
    {
        let ghost cs = self@.constraints;
        let ghost ct = column@.table;
        let ghost cn = column@.name;
        let mut out: Vec<Constraint> = Vec::new();
        let n = self.constraints.len();
        let mut i: usize = 0;
        proof {
            assert(cs.subrange(0, 0) =~= Seq::<ConstraintView>::empty());
            assert(out.deep_view() =~= spec_constraints_by_column(
                cs.subrange(0, 0),
                ct,
                cn,
                side,
            ));
        }
        while i < n
            invariant
                n == self.constraints@.len(),
                0 <= i <= n,
                cs == self@.constraints,
                ct == column@.table,
                cn == column@.name,
                out.deep_view() == spec_constraints_by_column(
                    cs.subrange(0, i as int),
                    ct,
                    cn,
                    side,
                ),
            decreases n - i,
        {
            let ghost prevout = out;
            let c = &self.constraints[i];
            let is_foreign = matches!(side, Some(ConstraintSide::Foreign));
            let is_local = matches!(side, Some(ConstraintSide::Local));
            let mut keep = false;
            if c.key_pairs_count() > 0 {
                if crate::strutil::str_eq(c.local().table().as_str(), column.table().as_str())
                    && crate::strutil::str_eq(c.local().name().as_str(), column.name().as_str())
                    && !is_foreign {
                    keep = true;
                }
                if crate::strutil::str_eq(c.foreign().table().as_str(), column.table().as_str())
                    && crate::strutil::str_eq(c.foreign().name().as_str(), column.name().as_str())
                    && !is_local {
                    keep = true;
                }
            }
            proof {
                assert(keep == constraint_matches_column(cs[i as int], ct, cn, side));
            }
            if keep {
                out.push(self.constraints[i].clone());
            }
            proof {
                let pre = cs.subrange(0, i as int);
                let ext = cs.subrange(0, i as int + 1);
                assert(ext.drop_last() =~= pre);
                assert(ext.last() == cs[i as int]);
                assert(spec_constraints_by_column(ext, ct, cn, side)
                    == if constraint_matches_column(cs[i as int], ct, cn, side) {
                    spec_constraints_by_column(pre, ct, cn, side).push(cs[i as int])
                } else {
                    spec_constraints_by_column(pre, ct, cn, side)
                });
                if keep {
                    assert forall|j: int| 0 <= j < out.deep_view().len() implies out.deep_view()[j]
                        == spec_constraints_by_column(ext, ct, cn, side)[j] by {
                        assert(out.deep_view()[j] == out@[j].deep_view());
                        if j < prevout@.len() {
                            assert(out@[j] == prevout@[j]);
                            assert(prevout.deep_view()[j] == prevout@[j].deep_view());
                        }
                    }
                    assert(out.deep_view() =~= spec_constraints_by_column(ext, ct, cn, side));
                } else {
                    assert(out.deep_view() == spec_constraints_by_column(ext, ct, cn, side));
                }
            }
            i = i + 1;
        }
        proof {
            assert(cs.subrange(0, n as int) =~= cs);
        }
        out
    }

    /// Find constraints by column name
    pub fn constraints_by_column_name(&self, column_name: &str, side: Option<ConstraintSide>) -> (r:
        Vec<Constraint>)
        ensures
            r.deep_view() == spec_constraints_by_column_name(self@.constraints, column_name@, side),
    {
        let ghost cs = self@.constraints;
        let mut out: Vec<Constraint> = Vec::new();
        let n = self.constraints.len();
        let mut i: usize = 0;
        proof {
            assert(cs.subrange(0, 0) =~= Seq::<ConstraintView>::empty());
            assert(out.deep_view() =~= spec_constraints_by_column_name(
                cs.subrange(0, 0),
                column_name@,
                side,
            ));
        }
        while i < n
            invariant
                n == self.constraints@.len(),
                0 <= i <= n,
                cs == self@.constraints,
                out.deep_view() == spec_constraints_by_column_name(
                    cs.subrange(0, i as int),
                    column_name@,
                    side,
                ),
            decreases n - i,
        {
            let ghost prevout = out;
            let c = &self.constraints[i];
            let is_foreign = matches!(side, Some(ConstraintSide::Foreign));
            let is_local = matches!(side, Some(ConstraintSide::Local));
            let mut keep = false;
            if c.key_pairs_count() > 0 {
                if crate::strutil::str_eq(c.local().name().as_str(), column_name) && !is_foreign {
                    keep = true;
                }
                if crate::strutil::str_eq(c.foreign().name().as_str(), column_name) && !is_local {
                    keep = true;
                }
            }
            proof {
                assert(keep == constraint_matches_column_name(cs[i as int], column_name@, side));
            }
            if keep {
                out.push(self.constraints[i].clone());
            }
            proof {
                let pre = cs.subrange(0, i as int);
                let ext = cs.subrange(0, i as int + 1);
                assert(ext.drop_last() =~= pre);
                assert(ext.last() == cs[i as int]);
                assert(spec_constraints_by_column_name(ext, column_name@, side)
                    == if constraint_matches_column_name(cs[i as int], column_name@, side) {
                    spec_constraints_by_column_name(pre, column_name@, side).push(cs[i as int])
                } else {
                    spec_constraints_by_column_name(pre, column_name@, side)
                });
                if keep {
                    assert forall|j: int| 0 <= j < out.deep_view().len() implies out.deep_view()[j]
                        == spec_constraints_by_column_name(ext, column_name@, side)[j] by {
                        assert(out.deep_view()[j] == out@[j].deep_view());
                        if j < prevout@.len() {
                            assert(out@[j] == prevout@[j]);
                            assert(prevout.deep_view()[j] == prevout@[j].deep_view());
                        }
                    }
                    assert(out.deep_view() =~= spec_constraints_by_column_name(
                        ext,
                        column_name@,
                        side,
                    ));
                } else {
                    assert(out.deep_view() == spec_constraints_by_column_name(
                        ext,
                        column_name@,
                        side,
                    ));
                }
            }
            i = i + 1;
        }
        proof {
            assert(cs.subrange(0, n as int) =~= cs);
        }
        out
    }

    /// Set metadata key value pair
    pub fn set_meta(&mut self, key: &str, value: &str)
        ensures
            final(self)@ == (DatabaseView {
                metadata: meta_insert(old(self)@.metadata, key@, value@),
                ..old(self)@
            }),
    {
        self.metadata.set_meta(key, value);
    }

    /// Set metadata flag
    pub fn set_meta_flag(&mut self, flag: &str)
        ensures
            final(self)@ == (DatabaseView {
                metadata: meta_insert(old(self)@.metadata, flag@, "1"@),
                ..old(self)@
            }),
    {
        self.metadata.set_meta_flag(flag);
    }

    /// Get metadata value by key
    pub fn meta(&self, key: &str) -> (r: Option<String>)
        ensures
            match r {
                Some(v) => meta_lookup(self@.metadata, key@) == Some(v@),
                None => meta_lookup(self@.metadata, key@) is None,
            },
    {
        self.metadata.meta(key)
    }

    /// Check if metadata flag is set
    pub fn meta_flag(&self, flag: &str) -> (r: bool)
        ensures
            r == meta_has_key(self@.metadata, flag@),
    {
        self.metadata.meta_flag(flag)
    }

    /// Borrow the metadata bag
    pub fn metadata(&self) -> (r: &MetadataBag)
        ensures
            r@ == self@.metadata,
    {
        &self.metadata
    }
}

/// Charset and collation inheritance at attachment is exactly one-time
/// and conditional: a table declaring neither inherits the database's
/// values, and a table declaring either keeps its metadata untouched.
pub proof fn lemma_set_table_inheritance(d: DatabaseView, t: TableView)
    ensures
        (meta_lookup(t.metadata, METADATA_CHARSET@) is None && meta_lookup(
            t.metadata,
            METADATA_COLLATION@,
        ) is None && meta_lookup(d.metadata, METADATA_CHARSET@) is Some && meta_lookup(
            d.metadata,
            METADATA_COLLATION@,
        ) is Some) ==> {
            let t2 = spec_inherited_table(d, t);
            &&& meta_lookup(t2.metadata, METADATA_CHARSET@) == meta_lookup(
                d.metadata,
                METADATA_CHARSET@,
            )
            &&& meta_lookup(t2.metadata, METADATA_COLLATION@) == meta_lookup(
                d.metadata,
                METADATA_COLLATION@,
            )
        },
        (meta_lookup(t.metadata, METADATA_CHARSET@) is Some || meta_lookup(
            t.metadata,
            METADATA_COLLATION@,
        ) is Some) ==> spec_inherited_table(d, t) == t,
        lookup_by_key(spec_set_table(d, t).tables, t.name) == Some(spec_inherited_table(d, t)),
{
    let t2 = spec_inherited_table(d, t);
    if meta_lookup(t.metadata, METADATA_CHARSET@) is None && meta_lookup(
        t.metadata,
        METADATA_COLLATION@,
    ) is None && meta_lookup(d.metadata, METADATA_CHARSET@) is Some && meta_lookup(
        d.metadata,
        METADATA_COLLATION@,
    ) is Some {
        let cs = match meta_lookup(d.metadata, METADATA_CHARSET@) {
            Some(v) => v,
            None => Seq::empty(),
        };
        let co = match meta_lookup(d.metadata, METADATA_COLLATION@) {
            Some(v) => v,
            None => Seq::empty(),
        };
        let m1 = meta_insert(t.metadata, METADATA_CHARSET@, cs);
        crate::metadata::lemma_meta_insert_lookup(t.metadata, METADATA_CHARSET@, cs);
        crate::metadata::lemma_meta_insert_lookup(m1, METADATA_COLLATION@, co);
        assert(METADATA_CHARSET@ != METADATA_COLLATION@) by {
            reveal_strlit("charset");
            reveal_strlit("collation");
            assert(METADATA_CHARSET@.len() != METADATA_COLLATION@.len());
        }
    }
    crate::keyed::lemma_upsert_lookup(d.tables, t2);
    assert(t2.name == t.name);
}

/// Promotion preserves name uniqueness of the database's constraints.
pub proof fn lemma_promote_keeps_names_unique(cs: Seq<ConstraintView>, new: Seq<ConstraintView>)
    requires
        crate::keyed::keys_unique(cs),
    ensures
        crate::keyed::keys_unique(spec_promote_constraints(cs, new)),
    decreases new.len(),
{
    if new.len() > 0 {
        crate::keyed::lemma_upsert_keeps_keys_unique(cs, new[0]);
        lemma_promote_keeps_names_unique(upsert_by_key(cs, new[0]), new.drop_first());
    }
}

/// Names stay unique per scope at the database too: attaching a table or
/// a constraint to a database whose maps carry no duplicate names leaves
/// them without duplicate names.
pub proof fn lemma_database_scopes_keep_names_unique(d: DatabaseView, t: TableView, c: ConstraintView)
    ensures
        crate::keyed::keys_unique(d.tables) ==> crate::keyed::keys_unique(
            spec_set_table(d, t).tables,
        ),
        crate::keyed::keys_unique(d.constraints) ==> crate::keyed::keys_unique(
            spec_set_table(d, t).constraints,
        ),
        crate::keyed::keys_unique(d.constraints) ==> crate::keyed::keys_unique(
            spec_db_set_constraint(d, c).constraints,
        ),
{
    if crate::keyed::keys_unique(d.tables) {
        crate::keyed::lemma_upsert_keeps_keys_unique(d.tables, spec_inherited_table(d, t));
    }
    if crate::keyed::keys_unique(d.constraints) {
        lemma_promote_keeps_names_unique(d.constraints, spec_inherited_table(d, t).constraints);
        crate::keyed::lemma_upsert_keeps_keys_unique(d.constraints, c);
    }
}

/// Membership in the by-table query: a constraint is reported exactly
/// when it stands in the collection and touches the table on the
/// requested side.
pub proof fn lemma_constraints_by_table_membership(
    cs: Seq<ConstraintView>,
    table: Seq<char>,
    side: Option<ConstraintSide>,
)
    ensures
        forall|c: ConstraintView|
            #[trigger] spec_constraints_by_table(cs, table, side).contains(c) <==> (cs.contains(c)
                && constraint_matches_table(c, table, side)),
    decreases cs.len(),
{
    if cs.len() == 0 {
    } else {
        lemma_constraints_by_table_membership(cs.drop_last(), table, side);
        let shorter = cs.drop_last();
        let rest = spec_constraints_by_table(shorter, table, side);
        let full = spec_constraints_by_table(cs, table, side);
        assert forall|c: ConstraintView| #[trigger] full.contains(c) implies (cs.contains(c)
            && constraint_matches_table(c, table, side)) by {
            let i = choose|i: int| 0 <= i < full.len() && full[i] == c;
            if constraint_matches_table(cs.last(), table, side) {
                if i < rest.len() {
                    assert(rest[i] == c);
                    assert(rest.contains(c));
                    let j = choose|j: int| 0 <= j < shorter.len() && shorter[j] == c;
                    assert(cs[j] == c);
                } else {
                    assert(c == cs.last());
                    assert(cs[cs.len() - 1] == c);
                }
            } else {
                assert(rest[i] == c);
                assert(rest.contains(c));
                let j = choose|j: int| 0 <= j < shorter.len() && shorter[j] == c;
                assert(cs[j] == c);
            }
        }
        assert forall|c: ConstraintView|
            cs.contains(c) && constraint_matches_table(c, table, side) implies #[trigger] full
            .contains(c) by {
            let j = choose|j: int| 0 <= j < cs.len() && cs[j] == c;
            if j < cs.len() - 1 {
                assert(shorter[j] == c);
                assert(shorter.contains(c));
                assert(rest.contains(c));
                let i = choose|i: int| 0 <= i < rest.len() && rest[i] == c;
                assert(full[i] == c);
            } else {
                assert(c == cs.last());
                assert(full[full.len() - 1] == c);
            }
        }
    }
}

/// Membership in the by-column query, stated the same way.
pub proof fn lemma_constraints_by_column_membership(
    cs: Seq<ConstraintView>,
    table: Seq<char>,
    name: Seq<char>,
    side: Option<ConstraintSide>,
)
    ensures
        forall|c: ConstraintView|
            #[trigger] spec_constraints_by_column(cs, table, name, side).contains(c) <==> (
            cs.contains(c) && constraint_matches_column(c, table, name, side)),
    decreases cs.len(),
{
    if cs.len() == 0 {
    } else {
        lemma_constraints_by_column_membership(cs.drop_last(), table, name, side);
        let shorter = cs.drop_last();
        let rest = spec_constraints_by_column(shorter, table, name, side);
        let full = spec_constraints_by_column(cs, table, name, side);
        assert forall|c: ConstraintView| #[trigger] full.contains(c) implies (cs.contains(c)
            && constraint_matches_column(c, table, name, side)) by {
            let i = choose|i: int| 0 <= i < full.len() && full[i] == c;
            if constraint_matches_column(cs.last(), table, name, side) {
                if i < rest.len() {
                    assert(rest[i] == c);
                    assert(rest.contains(c));
                    let j = choose|j: int| 0 <= j < shorter.len() && shorter[j] == c;
                    assert(cs[j] == c);
                } else {
                    assert(c == cs.last());
                    assert(cs[cs.len() - 1] == c);
                }
            } else {
                assert(rest[i] == c);
                assert(rest.contains(c));
                let j = choose|j: int| 0 <= j < shorter.len() && shorter[j] == c;
                assert(cs[j] == c);
            }
        }
        assert forall|c: ConstraintView|
            cs.contains(c) && constraint_matches_column(c, table, name, side) implies #[trigger] full
            .contains(c) by {
            let j = choose|j: int| 0 <= j < cs.len() && cs[j] == c;
            if j < cs.len() - 1 {
                assert(shorter[j] == c);
                assert(shorter.contains(c));
                assert(rest.contains(c));
                let i = choose|i: int| 0 <= i < rest.len() && rest[i] == c;
                assert(full[i] == c);
            } else {
                assert(c == cs.last());
                assert(full[full.len() - 1] == c);
            }
        }
    }
}

/// The side filters partition the unfiltered query: a constraint is
/// reported for a table with no side requested exactly when it is
/// reported for the local side or for the foreign side.
pub proof fn lemma_constraints_by_table_partition(cs: Seq<ConstraintView>, table: Seq<char>)
    ensures
        forall|c: ConstraintView|
            #[trigger] spec_constraints_by_table(cs, table, None).contains(c) <==> (
            spec_constraints_by_table(cs, table, Some(ConstraintSide::Local)).contains(c)
                || spec_constraints_by_table(cs, table, Some(ConstraintSide::Foreign)).contains(c)),
{
    lemma_constraints_by_table_membership(cs, table, None);
    lemma_constraints_by_table_membership(cs, table, Some(ConstraintSide::Local));
    lemma_constraints_by_table_membership(cs, table, Some(ConstraintSide::Foreign));
}

/// The same partition holds of the by-column query.
pub proof fn lemma_constraints_by_column_partition(
    cs: Seq<ConstraintView>,
    table: Seq<char>,
    name: Seq<char>,
)
    ensures
        forall|c: ConstraintView|
            #[trigger] spec_constraints_by_column(cs, table, name, None).contains(c) <==> (
            spec_constraints_by_column(cs, table, name, Some(ConstraintSide::Local)).contains(c)
                || spec_constraints_by_column(cs, table, name, Some(ConstraintSide::Foreign))
                .contains(c)),
{
    lemma_constraints_by_column_membership(cs, table, name, None);
    lemma_constraints_by_column_membership(cs, table, name, Some(ConstraintSide::Local));
    lemma_constraints_by_column_membership(cs, table, name, Some(ConstraintSide::Foreign));
}

} // verus!
