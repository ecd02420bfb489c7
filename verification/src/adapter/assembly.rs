//! From catalog rows to the entity model, one fold at a time.

use crate::adapter::rows::{
    ColumnRow, ColumnRowView, ForeignKeyRow, ForeignKeyRowView, IndexRow, IndexRowView,
};
use crate::keyed::{has_key, keys_unique, lookup_by_key};
use crate::metadata::consts::{
    METADATA_CHARSET, METADATA_COLLATION, METADATA_FLAG_AUTO_INCREMENT,
    METADATA_FLAG_DEFAULT_CURRENT_TIMESTAMP, METADATA_FLAG_NULLABLE,
    METADATA_FLAG_ON_UPDATE_CURRENT_TIMESTAMP, METADATA_FLAG_PRIMARY, METADATA_FLAG_UNIQUE,
};
use crate::metadata::meta_insert;
use crate::reflection::column::{spec_new_column, Column, ColumnView};
use crate::reflection::constraint::{Constraint, ConstraintView, KeyPairView};
use crate::reflection::database::{spec_db_set_constraint, spec_set_table, Database, DatabaseView};
use crate::reflection::datatypes::{
    spec_is_text, spec_parse, DefaultValue, DefaultValueView, JsonValue, JsonValueView,
    SqlDatatype, SqlDatatypeView,
};
use crate::reflection::index::{Index, IndexView};
use crate::reflection::table::{spec_set_column, spec_set_index, Table, TableView};
use crate::strutil::str_eq;
use vstd::prelude::*;

verus! {

/// `c` with the metadata flag `f` raised.
pub open spec fn spec_with_flag(c: ColumnView, f: Seq<char>) -> ColumnView {
    ColumnView { metadata: meta_insert(c.metadata, f, "1"@), ..c }
}

/// The column one catalog row denotes. The descriptor is parsed, an
/// unparsable one explicitly falling back to the structural default
/// type; a resolved charset/collation pair is recorded on text columns;
/// `YES` nullability, the `PRI` and `UNI` key roles, and the
/// auto-increment and on-update sentinels become flags; a default
/// literal is recorded, the current-timestamp sentinel on a timestamp
/// column additionally raising its own flag.
pub open spec fn spec_column_from_row(table: Seq<char>, r: ColumnRowView) -> ColumnView {
    let dt = match spec_parse(r.field_type) {
        Some(d) => d,
        None => SqlDatatypeView::Varchar(45),
    };
    let c0 = spec_new_column(table, r.field, dt);
    let c1 = if spec_is_text(dt) && r.charset is Some && r.collation is Some {
        let cs = match r.charset {
            Some(v) => v,
            None => Seq::empty(),
        };
        let co = match r.collation {
            Some(v) => v,
            None => Seq::empty(),
        };
        ColumnView {
            metadata: meta_insert(
                meta_insert(c0.metadata, METADATA_CHARSET@, cs),
                METADATA_COLLATION@,
                co,
            ),
            ..c0
        }
    } else {
        c0
    };
    let c2 = if r.nullable == "YES"@ {
        spec_with_flag(c1, METADATA_FLAG_NULLABLE@)
    } else {
        c1
    };
    let c3 = match r.key {
        Some(k) => if k == "PRI"@ {
            spec_with_flag(c2, METADATA_FLAG_PRIMARY@)
        } else if k == "UNI"@ {
            spec_with_flag(c2, METADATA_FLAG_UNIQUE@)
        } else {
            c2
        },
        None => c2,
    };
    let c4 = match r.default {
        Some(d) => {
            let cf = if dt == SqlDatatypeView::Timestamp && d
                == METADATA_FLAG_DEFAULT_CURRENT_TIMESTAMP@ {
                spec_with_flag(c3, METADATA_FLAG_DEFAULT_CURRENT_TIMESTAMP@)
            } else {
                c3
            };
            ColumnView { default: Some(DefaultValueView::Value(JsonValueView::Str(d))), ..cf }
        },
        None => c3,
    };
    match r.extra {
        Some(e) => if e.len() > 0 && e == METADATA_FLAG_AUTO_INCREMENT@ {
            spec_with_flag(c4, METADATA_FLAG_AUTO_INCREMENT@)
        } else if e.len() > 0 && e == METADATA_FLAG_ON_UPDATE_CURRENT_TIMESTAMP@ {
            spec_with_flag(c4, METADATA_FLAG_ON_UPDATE_CURRENT_TIMESTAMP@)
        } else {
            c4
        },
        None => c4,
    }
}

/// Build the column one catalog row denotes, following
/// `spec_column_from_row`.
pub fn column_from_row(table_name: &str, row: &ColumnRow) -> (r: Column)
    ensures
        r@ == spec_column_from_row(table_name@, row@),
{
    let dt = match SqlDatatype::parse(row.field_type.as_str()) {
        Ok(d) => d,
        Err(_) => SqlDatatype::default(),
    };
    let is_ts = matches!(dt, SqlDatatype::Timestamp);
    let is_text = dt.is_text();
    let mut col = Column::new(table_name, row.field.as_str(), dt);
    if is_text {
        if let (Some(cs), Some(co)) = (&row.charset, &row.collation) {
            col.set_meta(METADATA_CHARSET, cs.as_str());
            col.set_meta(METADATA_COLLATION, co.as_str());
        }
    }
    if str_eq(row.nullable.as_str(), "YES") {
        col.set_meta_flag(METADATA_FLAG_NULLABLE);
    }
    if let Some(k) = &row.key {
        if str_eq(k.as_str(), "PRI") {
            col.set_meta_flag(METADATA_FLAG_PRIMARY);
        } else if str_eq(k.as_str(), "UNI") {
            col.set_meta_flag(METADATA_FLAG_UNIQUE);
        }
    }
    if let Some(d) = &row.default {
        if is_ts && str_eq(d.as_str(), METADATA_FLAG_DEFAULT_CURRENT_TIMESTAMP) {
            col.set_meta_flag(METADATA_FLAG_DEFAULT_CURRENT_TIMESTAMP);
        }
        col.set_default(Some(DefaultValue::Value(JsonValue::Str(d.clone()))));
    }
    if let Some(e) = &row.extra {
        if !e.as_str().is_empty() {
            if str_eq(e.as_str(), METADATA_FLAG_AUTO_INCREMENT) {
                col.set_meta_flag(METADATA_FLAG_AUTO_INCREMENT);
            } else if str_eq(e.as_str(), METADATA_FLAG_ON_UPDATE_CURRENT_TIMESTAMP) {
                col.set_meta_flag(METADATA_FLAG_ON_UPDATE_CURRENT_TIMESTAMP);
            }
        }
    }
    col
}

/// The table after attaching the columns of every row, in row order.
pub open spec fn spec_fold_columns(
    t: TableView,
    table: Seq<char>,
    rows: Seq<ColumnRowView>,
) -> TableView
    decreases rows.len(),
{
    if rows.len() == 0 {
        t
    } else {
        spec_fold_columns(
            spec_set_column(t, spec_column_from_row(table, rows[0])),
            table,
            rows.drop_first(),
        )
    }
}

/// Folding one more column row is one more attachment.
pub proof fn lemma_fold_columns_push(
    t: TableView,
    table: Seq<char>,
    s: Seq<ColumnRowView>,
    x: ColumnRowView,
)
    ensures
        spec_fold_columns(t, table, s.push(x)) == spec_set_column(
            spec_fold_columns(t, table, s),
            spec_column_from_row(table, x),
        ),
    decreases s.len(),
{
    if s.len() == 0 {
        let e = s.push(x).drop_first();
        assert(e.len() == 0);
        assert(s.push(x)[0] == x);
        assert(spec_fold_columns(t, table, s.push(x)) == spec_fold_columns(
            spec_set_column(t, spec_column_from_row(table, x)),
            table,
            e,
        ));
        assert(spec_fold_columns(t, table, s) == t);
    } else {
        assert(s.push(x)[0] == s[0]);
        assert(s.push(x).drop_first() =~= s.drop_first().push(x));
        assert(spec_fold_columns(t, table, s.push(x)) == spec_fold_columns(
            spec_set_column(t, spec_column_from_row(table, s[0])),
            table,
            s.drop_first().push(x),
        ));
        lemma_fold_columns_push(
            spec_set_column(t, spec_column_from_row(table, s[0])),
            table,
            s.drop_first(),
            x,
        );
        assert(spec_fold_columns(t, table, s) == spec_fold_columns(
            spec_set_column(t, spec_column_from_row(table, s[0])),
            table,
            s.drop_first(),
        ));
    }
}

/// What one index row does to the table: a row whose column exists on the
/// table attaches one index named after the row, primary exactly when the
/// catalog's reserved primary-index name is used; any other row is
/// skipped.
pub open spec fn spec_apply_index_row(t: TableView, r: IndexRowView) -> TableView {
    match lookup_by_key(t.columns, r.column) {
        Some(c) => spec_set_index(
            t,
            IndexView { name: r.name, column: c, primary: r.name == "PRIMARY"@, unique: r.unique },
        ),
        None => t,
    }
}

/// The table after applying every index row, in row order.
pub open spec fn spec_fold_indexes(t: TableView, rows: Seq<IndexRowView>) -> TableView
    decreases rows.len(),
{
    if rows.len() == 0 {
        t
    } else {
        spec_fold_indexes(spec_apply_index_row(t, rows[0]), rows.drop_first())
    }
}

/// Folding one more index row is one more application.
pub proof fn lemma_fold_indexes_push(t: TableView, s: Seq<IndexRowView>, x: IndexRowView)
    ensures
        spec_fold_indexes(t, s.push(x)) == spec_apply_index_row(spec_fold_indexes(t, s), x),
    decreases s.len(),
{
    if s.len() == 0 {
        let e = s.push(x).drop_first();
        assert(e.len() == 0);
        assert(s.push(x)[0] == x);
        assert(spec_fold_indexes(t, s.push(x)) == spec_fold_indexes(
            spec_apply_index_row(t, x),
            e,
        ));
        assert(spec_fold_indexes(t, s) == t);
    } else {
        assert(s.push(x)[0] == s[0]);
        assert(s.push(x).drop_first() =~= s.drop_first().push(x));
        assert(spec_fold_indexes(t, s.push(x)) == spec_fold_indexes(
            spec_apply_index_row(t, s[0]),
            s.drop_first().push(x),
        ));
        lemma_fold_indexes_push(spec_apply_index_row(t, s[0]), s.drop_first(), x);
        assert(spec_fold_indexes(t, s) == spec_fold_indexes(
            spec_apply_index_row(t, s[0]),
            s.drop_first(),
        ));
    }
}

/// The table one catalog read denotes: an empty table of that name,
/// charset and collation recorded when both were reported, then every
/// column row, then every index row, in catalog order.
pub open spec fn spec_table_from_rows(
    name: Seq<char>,
    charset: Option<Seq<char>>,
    collation: Option<Seq<char>>,
    cols: Seq<ColumnRowView>,
    idxs: Seq<IndexRowView>,
) -> TableView {
    let t0 = TableView {
        name: name,
        primary_key: Seq::empty(),
        columns: Seq::empty(),
        indexes: Seq::empty(),
        constraints: Seq::empty(),
        metadata: Seq::empty(),
    };
    let t1 = if charset is Some && collation is Some {
        let cs = match charset {
            Some(v) => v,
            None => Seq::empty(),
        };
        let co = match collation {
            Some(v) => v,
            None => Seq::empty(),
        };
        TableView {
            metadata: meta_insert(
                meta_insert(t0.metadata, METADATA_CHARSET@, cs),
                METADATA_COLLATION@,
                co,
            ),
            ..t0
        }
    } else {
        t0
    };
    spec_fold_indexes(spec_fold_columns(t1, name, cols), idxs)
}

/// Build the table one catalog read denotes, following
/// `spec_table_from_rows`.
pub fn table_from_rows(
    name: &str,
    charset: Option<String>,
    collation: Option<String>,
    columns: &Vec<ColumnRow>,
    indexes: &Vec<IndexRow>,
) -> (r: Table)
    ensures
        r@ == spec_table_from_rows(
            name@,
            match charset {
                Some(ref s) => Some(s@),
                None => None,
            },
            match collation {
                Some(ref s) => Some(s@),
                None => None,
            },
            columns.deep_view(),
            indexes.deep_view(),
        ),
{
    let ghost colrows = columns.deep_view();
    let ghost idxrows = indexes.deep_view();
    let mut table = Table::new(name);
    if let (Some(cs), Some(co)) = (&charset, &collation) {
        table.set_meta(METADATA_CHARSET, cs.as_str());
        table.set_meta(METADATA_COLLATION, co.as_str());
    }
    let ghost t1 = table@;
    let n = columns.len();
    let mut i: usize = 0;
    proof {
        assert(colrows.subrange(0, 0) =~= Seq::<ColumnRowView>::empty());
        assert(spec_fold_columns(t1, name@, colrows.subrange(0, 0)) == t1);
    }
    while i < n
        invariant
            n == columns@.len(),
            0 <= i <= n,
            colrows == columns.deep_view(),
            table@ == spec_fold_columns(t1, name@, colrows.subrange(0, i as int)),
        decreases n - i,
    {
        let col = column_from_row(name, &columns[i]);
        proof {
            assert(columns.deep_view()[i as int] == columns@[i as int].deep_view());
        }
        table.set_column(col);
        proof {
            let pre = colrows.subrange(0, i as int);
            let ext = colrows.subrange(0, i as int + 1);
            assert(ext =~= pre.push(colrows[i as int]));
            lemma_fold_columns_push(t1, name@, pre, colrows[i as int]);
        }
        i = i + 1;
    }
    proof {
        assert(colrows.subrange(0, n as int) =~= colrows);
    }
    let ghost t2 = table@;
    let m = indexes.len();
    let mut j: usize = 0;
    proof {
        assert(idxrows.subrange(0, 0) =~= Seq::<IndexRowView>::empty());
        assert(spec_fold_indexes(t2, idxrows.subrange(0, 0)) == t2);
    }
    while j < m
        invariant
            m == indexes@.len(),
            0 <= j <= m,
            idxrows == indexes.deep_view(),
            table@ == spec_fold_indexes(t2, idxrows.subrange(0, j as int)),
        decreases m - j,
    {
        let row = &indexes[j];
        proof {
            assert(indexes.deep_view()[j as int] == indexes@[j as int].deep_view());
            crate::keyed::lemma_key_index_of(table@.columns, row@.column);
        }
        let found: Option<Column> = match table.column(row.column.as_str()) {
            Some(c) => Some(c.clone()),
            None => None,
        };
        if let Some(col) = found {
            let primary = str_eq(row.name.as_str(), "PRIMARY");
            let indx = Index::new(row.name.as_str(), col, primary, row.unique);
            table.set_index(indx);
        }
        proof {
            let pre = idxrows.subrange(0, j as int);
            let ext = idxrows.subrange(0, j as int + 1);
            assert(ext =~= pre.push(idxrows[j as int]));
            lemma_fold_indexes_push(t2, pre, idxrows[j as int]);
        }
        j = j + 1;
    }
    proof {
        assert(idxrows.subrange(0, m as int) =~= idxrows);
    }
    table
}

/// The key pair one cross-reference row denotes, when its local table and
/// column and its referenced table and column all resolve against the
/// built tables; an absent referenced name resolves as the empty name.
pub open spec fn spec_fk_pair(tables: Seq<TableView>, r: ForeignKeyRowView) -> Option<KeyPairView> {
    let ft = match r.referenced_table {
        Some(v) => v,
        None => Seq::empty(),
    };
    let fc = match r.referenced_column {
        Some(v) => v,
        None => Seq::empty(),
    };
    match lookup_by_key(tables, r.table) {
        Some(lt) => match lookup_by_key(lt.columns, r.column) {
            Some(lc) => match lookup_by_key(tables, ft) {
                Some(ftv) => match lookup_by_key(ftv.columns, fc) {
                    Some(fcv) => Some(KeyPairView { local: lc, foreign: fcv }),
                    None => None,
                },
                None => None,
            },
            None => None,
        },
        None => None,
    }
}

/// What one cross-reference row does to the database: a row that resolves
/// appends a key pair to the constraint of that name, or starts it with a
/// single pair; an unresolvable row is skipped.
pub open spec fn spec_apply_fk(d: DatabaseView, r: ForeignKeyRowView) -> DatabaseView {
    match spec_fk_pair(d.tables, r) {
        Some(pair) => match lookup_by_key(d.constraints, r.constraint) {
            Some(c) => spec_db_set_constraint(
                d,
                ConstraintView { key_pairs: c.key_pairs.push(pair), ..c },
            ),
            None => spec_db_set_constraint(
                d,
                ConstraintView {
                    name: r.constraint,
                    key_pairs: seq![pair],
                    metadata: Seq::empty(),
                },
            ),
        },
        None => d,
    }
}

/// Apply one cross-reference row, following `spec_apply_fk`.
pub fn apply_foreign_key(db: &mut Database, row: &ForeignKeyRow)
    ensures
        final(db)@ == spec_apply_fk(old(db)@, row@),
{
    proof {
        reveal_strlit("");
        assert(""@ =~= Seq::<char>::empty());
    }
    let local_col: Option<Column> = match db.table(row.table.as_str()) {
        Some(t) => match t.column(row.column.as_str()) {
            Some(c) => Some(c.clone()),
            None => None,
        },
        None => None,
    };
    let ft_name: &str = match &row.referenced_table {
        Some(s) => s.as_str(),
        None => "",
    };
    let fc_name: &str = match &row.referenced_column {
        Some(s) => s.as_str(),
        None => "",
    };
    let foreign_col: Option<Column> = match db.table(ft_name) {
        Some(t) => match t.column(fc_name) {
            Some(c) => Some(c.clone()),
            None => None,
        },
        None => None,
    };
    if let (Some(lc), Some(fc)) = (local_col, foreign_col) {
        let existing: Option<Constraint> = match db.constraint(row.constraint.as_str()) {
            Some(c) => Some(c.clone()),
            None => None,
        };
        match existing {
            Some(c) => {
                let mut c = c;
                c.add_key_pair(lc, fc);
                db.set_constraint(c);
            },
            None => {
                db.set_constraint(Constraint::new(row.constraint.as_str(), lc, fc));
            },
        }
    }
}

/// The database after attaching every table, in order.
pub open spec fn spec_fold_tables(d: DatabaseView, tables: Seq<TableView>) -> DatabaseView
    decreases tables.len(),
{
    if tables.len() == 0 {
        d
    } else {
        spec_fold_tables(spec_set_table(d, tables[0]), tables.drop_first())
    }
}

/// Folding one more table is one more attachment.
pub proof fn lemma_fold_tables_push(d: DatabaseView, s: Seq<TableView>, x: TableView)
    ensures
        spec_fold_tables(d, s.push(x)) == spec_set_table(spec_fold_tables(d, s), x),
    decreases s.len(),
{
    if s.len() == 0 {
        let e = s.push(x).drop_first();
        assert(e.len() == 0);
        assert(s.push(x)[0] == x);
        assert(spec_fold_tables(d, s.push(x)) == spec_fold_tables(spec_set_table(d, x), e));
        assert(spec_fold_tables(d, s) == d);
    } else {
        assert(s.push(x)[0] == s[0]);
        assert(s.push(x).drop_first() =~= s.drop_first().push(x));
        assert(spec_fold_tables(d, s.push(x)) == spec_fold_tables(
            spec_set_table(d, s[0]),
            s.drop_first().push(x),
        ));
        lemma_fold_tables_push(spec_set_table(d, s[0]), s.drop_first(), x);
        assert(spec_fold_tables(d, s) == spec_fold_tables(spec_set_table(d, s[0]), s.drop_first()));
    }
}

/// The database after applying every cross-reference row, in row order.
pub open spec fn spec_fold_fks(d: DatabaseView, rows: Seq<ForeignKeyRowView>) -> DatabaseView
    decreases rows.len(),
{
    if rows.len() == 0 {
        d
    } else {
        spec_fold_fks(spec_apply_fk(d, rows[0]), rows.drop_first())
    }
}

/// Folding one more cross-reference row is one more application.
pub proof fn lemma_fold_fks_push(d: DatabaseView, s: Seq<ForeignKeyRowView>, x: ForeignKeyRowView)
    ensures
        spec_fold_fks(d, s.push(x)) == spec_apply_fk(spec_fold_fks(d, s), x),
    decreases s.len(),
{
    if s.len() == 0 {
        let e = s.push(x).drop_first();
        assert(e.len() == 0);
        assert(s.push(x)[0] == x);
        assert(spec_fold_fks(d, s.push(x)) == spec_fold_fks(spec_apply_fk(d, x), e));
        assert(spec_fold_fks(d, s) == d);
    } else {
        assert(s.push(x)[0] == s[0]);
        assert(s.push(x).drop_first() =~= s.drop_first().push(x));
        assert(spec_fold_fks(d, s.push(x)) == spec_fold_fks(
            spec_apply_fk(d, s[0]),
            s.drop_first().push(x),
        ));
        lemma_fold_fks_push(spec_apply_fk(d, s[0]), s.drop_first(), x);
        assert(spec_fold_fks(d, s) == spec_fold_fks(spec_apply_fk(d, s[0]), s.drop_first()));
    }
}

/// The database one reflection pass denotes: an empty database named
/// after the session's active database, every table in discovery order,
/// then every cross-reference row in catalog order. Tables must come
/// before constraints: the key pairs reference columns of the
/// already-built tables.
pub open spec fn spec_database_from_parts(
    name: Seq<char>,
    tables: Seq<TableView>,
    fks: Seq<ForeignKeyRowView>,
) -> DatabaseView {
    let d0 = DatabaseView {
        name: name,
        tables: Seq::empty(),
        constraints: Seq::empty(),
        metadata: Seq::empty(),
    };
    spec_fold_fks(spec_fold_tables(d0, tables), fks)
}

/// Assemble the whole database, following `spec_database_from_parts`.
pub fn database_from_parts(name: &str, tables: &Vec<Table>, fks: &Vec<ForeignKeyRow>) -> (r:
    Database)
    ensures
        r@ == spec_database_from_parts(name@, tables.deep_view(), fks.deep_view()),
{
    let ghost tvs = tables.deep_view();
    let ghost fvs = fks.deep_view();
    let mut db = Database::new(name);
    let ghost d0 = db@;
    let n = tables.len();
    let mut i: usize = 0;
    proof {
        assert(tvs.subrange(0, 0) =~= Seq::<TableView>::empty());
        assert(spec_fold_tables(d0, tvs.subrange(0, 0)) == d0);
    }
    while i < n
        invariant
            n == tables@.len(),
            0 <= i <= n,
            tvs == tables.deep_view(),
            db@ == spec_fold_tables(d0, tvs.subrange(0, i as int)),
        decreases n - i,
    {
        proof {
            assert(tables.deep_view()[i as int] == tables@[i as int].deep_view());
        }
        db.set_table(tables[i].clone());
        proof {
            let pre = tvs.subrange(0, i as int);
            let ext = tvs.subrange(0, i as int + 1);
            assert(ext =~= pre.push(tvs[i as int]));
            lemma_fold_tables_push(d0, pre, tvs[i as int]);
        }
        i = i + 1;
    }
    proof {
        assert(tvs.subrange(0, n as int) =~= tvs);
    }
    let ghost d1 = db@;
    let m = fks.len();
    let mut j: usize = 0;
    proof {
        assert(fvs.subrange(0, 0) =~= Seq::<ForeignKeyRowView>::empty());
        assert(spec_fold_fks(d1, fvs.subrange(0, 0)) == d1);
    }
    while j < m
        invariant
            m == fks@.len(),
            0 <= j <= m,
            fvs == fks.deep_view(),
            db@ == spec_fold_fks(d1, fvs.subrange(0, j as int)),
        decreases m - j,
    {
        proof {
            assert(fks.deep_view()[j as int] == fks@[j as int].deep_view());
        }
        apply_foreign_key(&mut db, &fks[j]);
        proof {
            let pre = fvs.subrange(0, j as int);
            let ext = fvs.subrange(0, j as int + 1);
            assert(ext =~= pre.push(fvs[j as int]));
            lemma_fold_fks_push(d1, pre, fvs[j as int]);
        }
        j = j + 1;
    }
    proof {
        assert(fvs.subrange(0, m as int) =~= fvs);
    }
    db
}

/// Two catalog rows sharing a constraint name at different positions
/// yield exactly one constraint carrying their two key pairs in row
/// order: applying the second row extends the constraint the first row
/// started, and no second constraint of that name appears.
pub proof fn lemma_fk_rows_merge(d: DatabaseView, r1: ForeignKeyRowView, r2: ForeignKeyRowView)
    requires
        r1.constraint == r2.constraint,
        !has_key(d.constraints, r1.constraint),
        keys_unique(d.constraints),
        spec_fk_pair(d.tables, r1) is Some,
        spec_fk_pair(d.tables, r2) is Some,
    ensures
        ({
            let p1 = match spec_fk_pair(d.tables, r1) {
                Some(p) => p,
                None => arbitrary(),
            };
            let p2 = match spec_fk_pair(d.tables, r2) {
                Some(p) => p,
                None => arbitrary(),
            };
            let d2 = spec_apply_fk(spec_apply_fk(d, r1), r2);
            &&& d2.tables == d.tables
            &&& lookup_by_key(d2.constraints, r1.constraint) == Some(
                ConstraintView {
                    name: r1.constraint,
                    key_pairs: seq![p1, p2],
                    metadata: Seq::empty(),
                },
            )
            &&& keys_unique(d2.constraints)
        }),
{
    let p1 = match spec_fk_pair(d.tables, r1) {
        Some(p) => p,
        None => arbitrary(),
    };
    let p2 = match spec_fk_pair(d.tables, r2) {
        Some(p) => p,
        None => arbitrary(),
    };
    let cnew = ConstraintView {
        name: r1.constraint,
        key_pairs: seq![p1],
        metadata: Seq::empty(),
    };
    crate::keyed::lemma_key_index_of(d.constraints, r1.constraint);
    assert(lookup_by_key(d.constraints, r1.constraint) is None);
    let d1 = spec_apply_fk(d, r1);
    assert(d1 == spec_db_set_constraint(d, cnew));
    crate::keyed::lemma_upsert_lookup(d.constraints, cnew);
    crate::keyed::lemma_upsert_keeps_keys_unique(d.constraints, cnew);
    assert(d1.tables == d.tables);
    assert(lookup_by_key(d1.constraints, r1.constraint) == Some(cnew));
    let merged = ConstraintView { key_pairs: cnew.key_pairs.push(p2), ..cnew };
    let d2 = spec_apply_fk(d1, r2);
    assert(d2 == spec_db_set_constraint(d1, merged));
    crate::keyed::lemma_upsert_lookup(d1.constraints, merged);
    crate::keyed::lemma_upsert_keeps_keys_unique(d1.constraints, merged);
    assert(seq![p1].push(p2) =~= seq![p1, p2]);
    assert(merged == (ConstraintView {
        name: r1.constraint,
        key_pairs: seq![p1, p2],
        metadata: Seq::empty(),
    }));
}

} // verus!
