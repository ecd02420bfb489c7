//! Indexes: one record per participating column of a catalog index.

use crate::keyed::Keyed;
use crate::reflection::column::{Column, ColumnView};
use vstd::prelude::*;

verus! {

/// The abstract value of an [`Index`].
pub struct IndexView {
    pub name: Seq<char>,
    pub column: ColumnView,
    pub primary: bool,
    pub unique: bool,
}

impl Keyed for IndexView {
    open spec fn key(self) -> Seq<char> {
        self.name
    }
}

/// One index record: a name, exactly one referenced column, and the
/// `primary`/`unique` flags. A multi-column catalog index surfaces as
/// several records sharing a name, one per participating column.
#[derive(Debug, PartialEq)]
pub struct Index {
    name: String,
    column: Column,
    primary: bool,
    unique: bool,
}

impl View for Index {
    type V = IndexView;

    closed spec fn view(&self) -> IndexView {
        IndexView {
            name: self.name@,
            column: self.column@,
            primary: self.primary,
            unique: self.unique,
        }
    }
}

impl DeepView for Index {
    type V = IndexView;

    open spec fn deep_view(&self) -> IndexView {
        self@
    }
}

impl Index {
    /// Create an index
    pub fn new(name: &str, column: Column, primary: bool, unique: bool) -> (r: Index)
        ensures
            r@ == (IndexView { name: name@, column: column@, primary, unique }),
    {
        Index { name: name.to_owned(), column, primary, unique }
    }

    /// Get index name
    pub fn name(&self) -> (r: &String)
        ensures
            r@ == self@.name,
    {
        &self.name
    }

    /// Get column
    pub fn column(&self) -> (r: &Column)
        ensures
            r@ == self@.column,
    {
        &self.column
    }

    /// Get flag indicating whether the index is a primary key
    pub fn primary(&self) -> (r: bool)
        ensures
            r == self@.primary,
    {
        self.primary
    }

    /// Get a flag indicating whether the index is unique
    pub fn unique(&self) -> (r: bool)
        ensures
            r == self@.unique,
    {
        self.unique
    }
}

impl Clone for Index {
    fn clone(&self) -> (res: Self)
        ensures
            res@ == self@,
    {
        Index {
            name: self.name.clone(),
            column: self.column.clone(),
            primary: self.primary,
            unique: self.unique,
        }
    }
}

/// Position of the first index named `name`, scanning forward; the
/// vector's length when no index matches.
pub(crate) fn position_of_index_vec(v: &Vec<Index>, name: &str) -> (r: usize)
    ensures
        r == crate::keyed::key_index_of(v.deep_view(), name@),
        r <= v.deep_view().len(),
{
    let ghost dv = v.deep_view();
    let n = v.len();
    let mut i: usize = 0;
    while i < n
        invariant
            n == v@.len(),
            0 <= i <= n,
            dv == v.deep_view(),
            forall|j: int| 0 <= j < i ==> dv[j].key() != name@,
        decreases n - i,
    {
        if crate::strutil::str_eq(v[i].name().as_str(), name) {
            proof {
                crate::keyed::lemma_key_index_of(dv, name@);
                assert(dv[i as int].key() == name@);
                assert(crate::keyed::has_key(dv, name@));
                let f = crate::keyed::key_index_of(dv, name@);
                if f < i {
                    assert(dv[f].key() != name@);
                }
                if (i as int) < f {
                    assert(dv[i as int].key() != name@);
                }
            }
            return i;
        }
        i = i + 1;
    }
    proof {
        crate::keyed::lemma_key_index_of(dv, name@);
        assert(!crate::keyed::has_key(dv, name@));
    }
    i
}

/// Store the index in `v` under its name: replace the first index of
/// that name in place, or append.
pub(crate) fn upsert_index_vec(v: &mut Vec<Index>, x: Index)
    ensures
        final(v).deep_view() == crate::keyed::upsert_by_key(old(v).deep_view(), x@),
{
    let ghost xv = x@;
    proof {
        crate::keyed::lemma_key_index_of(old(v).deep_view(), xv.key());
    }
    let i = position_of_index_vec(v, x.name().clone().as_str());
    if i < v.len() {
        v.set(i, x);
        proof {
            let dv = v.deep_view();
            let target = crate::keyed::upsert_by_key(old(v).deep_view(), xv);
            assert forall|j: int| 0 <= j < dv.len() implies dv[j] == target[j] by {
                assert(dv[j] == v@[j].deep_view());
                if j != i {
                    assert(v@[j] == old(v)@[j]);
                    assert(old(v).deep_view()[j] == old(v)@[j].deep_view());
                }
            }
            assert(dv =~= target);
        }
    } else {
        v.push(x);
        proof {
            let dv = v.deep_view();
            let target = crate::keyed::upsert_by_key(old(v).deep_view(), xv);
            assert forall|j: int| 0 <= j < dv.len() implies dv[j] == target[j] by {
                assert(dv[j] == v@[j].deep_view());
                if j < old(v)@.len() {
                    assert(v@[j] == old(v)@[j]);
                    assert(old(v).deep_view()[j] == old(v)@[j].deep_view());
                }
            }
            assert(dv =~= target);
        }
    }
}

} // verus!
