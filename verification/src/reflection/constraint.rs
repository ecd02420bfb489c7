//! Foreign-key constraints: ordered lists of local/foreign column pairs.

use crate::keyed::Keyed;
use crate::metadata::{meta_has_key, meta_insert, meta_lookup, MetaPairs, MetadataBag};
use crate::reflection::column::{Column, ColumnView};
use vstd::prelude::*;

verus! {

/// Which side of a constraint a query speaks of.
#[derive(Clone, Copy, Debug, PartialEq, Eq, Structural)]
pub enum ConstraintSide {
    Local,
    Foreign,
}

/// The abstract value of a [`ConstraintKeyPair`].
pub struct KeyPairView {
    pub local: ColumnView,
    pub foreign: ColumnView,
}

/// One (local column, foreign column) association within a constraint.
#[derive(Debug, PartialEq)]
pub struct ConstraintKeyPair {
    pub local: Column,
    pub foreign: Column,
}

impl View for ConstraintKeyPair {
    type V = KeyPairView;

    open spec fn view(&self) -> KeyPairView {
        KeyPairView { local: self.local@, foreign: self.foreign@ }
    }
}

impl DeepView for ConstraintKeyPair {
    type V = KeyPairView;

    open spec fn deep_view(&self) -> KeyPairView {
        self@
    }
}

impl Clone for ConstraintKeyPair {
    fn clone(&self) -> (res: Self)
        ensures
            res@ == self@,
    {
        ConstraintKeyPair { local: self.local.clone(), foreign: self.foreign.clone() }
    }
}

/// The abstract value of a [`Constraint`].
pub struct ConstraintView {
    pub name: Seq<char>,
    pub key_pairs: Seq<KeyPairView>,
    pub metadata: MetaPairs,
}

impl Keyed for ConstraintView {
    open spec fn key(self) -> Seq<char> {
        self.name
    }
}

/// A named foreign-key constraint. A composite foreign key is one
/// constraint with more than one key pair; pairs keep catalog ordinal
/// order, and the first pair is the default single-column accessor.
#[derive(Debug, PartialEq)]
pub struct Constraint {
    name: String,
    key_pairs: Vec<ConstraintKeyPair>,
    metadata: MetadataBag,
}

impl View for Constraint {
    type V = ConstraintView;

    closed spec fn view(&self) -> ConstraintView {
        ConstraintView {
            name: self.name@,
            key_pairs: self.key_pairs.deep_view(),
            metadata: self.metadata@,
        }
    }
}

impl DeepView for Constraint {
    type V = ConstraintView;

    open spec fn deep_view(&self) -> ConstraintView {
        self@
    }
}

impl Constraint {
    /// Create a new constraint with at least one local and foreign column pair
    pub fn new(name: &str, local: Column, foreign: Column) -> (r: Constraint)
        ensures
            r@ == (ConstraintView {
                name: name@,
                key_pairs: seq![KeyPairView { local: local@, foreign: foreign@ }],
                metadata: Seq::empty(),
            }),
    {
        let mut key_pairs: Vec<ConstraintKeyPair> = Vec::new();
        key_pairs.push(ConstraintKeyPair { local, foreign });
        proof {
            assert(key_pairs.deep_view() =~= seq![
                KeyPairView { local: local@, foreign: foreign@ },
            ]);
        }
        Constraint { name: name.to_owned(), key_pairs, metadata: MetadataBag::new() }
    }

    /// Get constraint name
    pub fn name(&self) -> (r: &String)
        ensures
            r@ == self@.name,
    {
        &self.name
    }

    /// Get local column, or local column from first pair
    pub fn local(&self) -> (r: &Column)
        requires
            self@.key_pairs.len() > 0,
        ensures
            r@ == self@.key_pairs[0].local,
    {
        &self.key_pairs[0].local
    }

    /// Get foreign column, or foreign column from first pair
    pub fn foreign(&self) -> (r: &Column)
        requires
            self@.key_pairs.len() > 0,
        ensures
            r@ == self@.key_pairs[0].foreign,
    {
        &self.key_pairs[0].foreign
    }

    /// Add a local/foreign column pair
    pub fn add_key_pair(&mut self, local: Column, foreign: Column)
        ensures
            final(self)@ == (ConstraintView {
                key_pairs: old(self)@.key_pairs.push(
                    KeyPairView { local: local@, foreign: foreign@ },
                ),
                ..old(self)@
            }),
    {
        let ghost prev = self.key_pairs;
        self.key_pairs.push(ConstraintKeyPair { local, foreign });
        proof {
            assert forall|j: int| 0 <= j < self.key_pairs.deep_view().len() implies self
                .key_pairs
                .deep_view()[j] == prev.deep_view().push(
                KeyPairView { local: local@, foreign: foreign@ },
            )[j] by {
                assert(self.key_pairs.deep_view()[j] == self.key_pairs@[j].deep_view());
                if j < prev@.len() {
                    assert(self.key_pairs@[j] == prev@[j]);
                    assert(prev.deep_view()[j] == prev@[j].deep_view());
                }
            }
            assert(self.key_pairs.deep_view() =~= prev.deep_view().push(
                KeyPairView { local: local@, foreign: foreign@ },
            ));
        }
    }

    /// Get column pairs
    pub fn key_pairs(&self) -> (r: &Vec<ConstraintKeyPair>)
        ensures
            r.deep_view() == self@.key_pairs,
    {
        &self.key_pairs
    }

    /// Get number of pairs
    pub fn key_pairs_count(&self) -> (r: usize)
        ensures
            r == self@.key_pairs.len(),
    {
        self.key_pairs.len()
    }

    /// Set metadata key value pair
    pub fn set_meta(&mut self, key: &str, value: &str)
        ensures
            final(self)@ == (ConstraintView {
                metadata: meta_insert(old(self)@.metadata, key@, value@),
                ..old(self)@
            }),
    {
        self.metadata.set_meta(key, value);
    }

    /// Set metadata flag
    pub fn set_meta_flag(&mut self, flag: &str)
        ensures
            final(self)@ == (ConstraintView {
                metadata: meta_insert(old(self)@.metadata, flag@, "1"@),
                ..old(self)@
            }),
    {
        self.metadata.set_meta_flag(flag);
    }

    /// Get metadata value by key
    pub fn meta(&self, key: &str) -> (r: Option<String>)
        ensures
            match r {
                Some(v) => meta_lookup(self@.metadata, key@) == Some(v@),
                None => meta_lookup(self@.metadata, key@) is None,
            },
    {
        self.metadata.meta(key)
    }

    /// Check if metadata flag is set
    pub fn meta_flag(&self, flag: &str) -> (r: bool)
        ensures
            r == meta_has_key(self@.metadata, flag@),
    {
        self.metadata.meta_flag(flag)
    }

    /// Borrow the metadata bag
    pub fn metadata(&self) -> (r: &MetadataBag)
        ensures
            r@ == self@.metadata,
    {
        &self.metadata
    }
}

impl Clone for Constraint {
    fn clone(&self) -> (res: Self)
        ensures
            res@ == self@,
    {
        let key_pairs = self.key_pairs.clone();
        proof {
            assert forall|i: int| 0 <= i < key_pairs@.len() implies key_pairs.deep_view()[i]
                == self.key_pairs.deep_view()[i] by {
                assert(cloned::<ConstraintKeyPair>(self.key_pairs@[i], key_pairs@[i]));
            }
            assert(key_pairs.deep_view() =~= self.key_pairs.deep_view());
        }
        Constraint {
            name: self.name.clone(),
            key_pairs,
            metadata: self.metadata.duplicate(),
        }
    }
}

/// Position of the first constraint named `name`, scanning forward; the
/// vector's length when no constraint matches.
pub(crate) fn position_of_constraint_vec(v: &Vec<Constraint>, name: &str) -> (r: usize)
    ensures
        r == crate::keyed::key_index_of(v.deep_view(), name@),
        r <= v.deep_view().len(),
{
    let ghost dv = v.deep_view();
    let n = v.len();
    let mut i: usize = 0;
    while i < n
        invariant
            n == v@.len(),
            0 <= i <= n,
            dv == v.deep_view(),
            forall|j: int| 0 <= j < i ==> dv[j].key() != name@,
        decreases n - i,
    {
        if crate::strutil::str_eq(v[i].name().as_str(), name) {
            proof {
                crate::keyed::lemma_key_index_of(dv, name@);
                assert(dv[i as int].key() == name@);
                assert(crate::keyed::has_key(dv, name@));
                let f = crate::keyed::key_index_of(dv, name@);
                if f < i {
                    assert(dv[f].key() != name@);
                }
                if (i as int) < f {
                    assert(dv[i as int].key() != name@);
                }
            }
            return i;
        }
        i = i + 1;
    }
    proof {
        crate::keyed::lemma_key_index_of(dv, name@);
        assert(!crate::keyed::has_key(dv, name@));
    }
    i
}

/// Store the constraint in `v` under its name: replace the first constraint of
/// that name in place, or append.
pub(crate) fn upsert_constraint_vec(v: &mut Vec<Constraint>, x: Constraint)
    ensures
        final(v).deep_view() == crate::keyed::upsert_by_key(old(v).deep_view(), x@),
{
    let ghost xv = x@;
    proof {
        crate::keyed::lemma_key_index_of(old(v).deep_view(), xv.key());
    }
    let i = position_of_constraint_vec(v, x.name().clone().as_str());
    if i < v.len() {
        v.set(i, x);
        proof {
            let dv = v.deep_view();
            let target = crate::keyed::upsert_by_key(old(v).deep_view(), xv);
            assert forall|j: int| 0 <= j < dv.len() implies dv[j] == target[j] by {
                assert(dv[j] == v@[j].deep_view());
                if j != i {
                    assert(v@[j] == old(v)@[j]);
                    assert(old(v).deep_view()[j] == old(v)@[j].deep_view());
                }
            }
            assert(dv =~= target);
        }
    } else {
        v.push(x);
        proof {
            let dv = v.deep_view();
            let target = crate::keyed::upsert_by_key(old(v).deep_view(), xv);
            assert forall|j: int| 0 <= j < dv.len() implies dv[j] == target[j] by {
                assert(dv[j] == v@[j].deep_view());
                if j < old(v)@.len() {
                    assert(v@[j] == old(v)@[j]);
                    assert(old(v).deep_view()[j] == old(v)@[j].deep_view());
                }
            }
            assert(dv =~= target);
        }
    }
}

} // verus!
