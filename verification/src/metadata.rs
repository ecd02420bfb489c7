//! Open key/value annotation bags attached to every schema entity.

pub mod consts;

use vstd::prelude::*;

verus! {

/// The abstract value of a bag: a sequence of `(key, value)` pairs in
/// first-insertion order. A bag built only through [`MetadataBag::set_meta`]
/// never carries a key twice (see [`lemma_meta_insert_keeps_keys_unique`]).
pub type MetaPairs = Seq<(Seq<char>, Seq<char>)>;

/// Index of the first pair whose key is `k`, or `pairs.len()` if no pair
/// has that key.
pub open spec fn meta_key_index(pairs: MetaPairs, k: Seq<char>) -> int
    decreases pairs.len(),
{
    if pairs.len() == 0 {
        0
    } else if pairs[0].0 == k {
        0
    } else {
        1 + meta_key_index(pairs.drop_first(), k)
    }
}

/// Whether some pair carries the key `k`.
pub open spec fn meta_has_key(pairs: MetaPairs, k: Seq<char>) -> bool {
    exists|i: int| 0 <= i < pairs.len() && pairs[i].0 == k
}

/// The value stored under `k`, if any.
pub open spec fn meta_lookup(pairs: MetaPairs, k: Seq<char>) -> Option<Seq<char>> {
    if meta_has_key(pairs, k) {
        Some(pairs[meta_key_index(pairs, k)].1)
    } else {
        None
    }
}

/// The pairs after storing `v` under `k`: the first pair keyed `k` is
/// replaced in place, or a new pair is appended when the key is new.
pub open spec fn meta_insert(pairs: MetaPairs, k: Seq<char>, v: Seq<char>) -> MetaPairs {
    if meta_has_key(pairs, k) {
        pairs.update(meta_key_index(pairs, k), (k, v))
    } else {
        pairs.push((k, v))
    }
}

/// `meta_key_index` really is the first index carrying the key.
pub proof fn lemma_meta_key_index(pairs: MetaPairs, k: Seq<char>)
    ensures
        meta_has_key(pairs, k) ==> {
            let i = meta_key_index(pairs, k);
            &&& 0 <= i < pairs.len()
            &&& pairs[i].0 == k
            &&& forall|j: int| 0 <= j < i ==> pairs[j].0 != k
        },
        !meta_has_key(pairs, k) ==> meta_key_index(pairs, k) == pairs.len(),
    decreases pairs.len(),
{
    if pairs.len() == 0 {
    } else if pairs[0].0 == k {
    } else {
        lemma_meta_key_index(pairs.drop_first(), k);
        let rest = pairs.drop_first();
        if meta_has_key(rest, k) {
            let i = meta_key_index(rest, k);
            assert(pairs[1 + i] == rest[i]);
            assert(forall|j: int| 1 <= j < 1 + i ==> pairs[j] == rest[j - 1]);
            assert(meta_has_key(pairs, k));
        } else {
            assert(forall|j: int| 1 <= j < pairs.len() ==> pairs[j] == rest[j - 1]);
            assert(!meta_has_key(pairs, k)) by {
                if meta_has_key(pairs, k) {
                    let i = choose|i: int| 0 <= i < pairs.len() && pairs[i].0 == k;
                    assert(rest[i - 1].0 == k);
                }
            }
        }
    }
}

/// One key/value annotation.
#[derive(Debug, PartialEq)]
struct MetaEntry {
    key: String,
    value: String,
}

impl DeepView for MetaEntry {
    type V = (Seq<char>, Seq<char>);

    closed spec fn deep_view(&self) -> (Seq<char>, Seq<char>) {
        (self.key@, self.value@)
    }
}

impl Clone for MetaEntry {
    fn clone(&self) -> (res: Self)
        ensures
            res.deep_view() == self.deep_view(),
    {
        MetaEntry { key: self.key.clone(), value: self.value.clone() }
    }
}

/// An open string-to-string annotation map for flags and attributes that
/// are not modeled as first-class fields.
#[derive(Debug, PartialEq)]
pub struct MetadataBag {
    entries: Vec<MetaEntry>,
}

impl View for MetadataBag {
    type V = MetaPairs;

    closed spec fn view(&self) -> MetaPairs {
        self.entries.deep_view()
    }
}

impl MetadataBag {
    /// An empty bag.
    pub fn new() -> (r: MetadataBag)
        ensures
            r@ == Seq::<(Seq<char>, Seq<char>)>::empty(),
    {
        MetadataBag { entries: Vec::new() }
    }

    /// Find the position of the first entry keyed `key`, scanning forward.
    fn position_of(&self, key: &str) -> (r: usize)
        ensures
            r == meta_key_index(self@, key@),
            r <= self@.len(),
    {
        let ghost pairs = self@;
        let n = self.entries.len();
        let mut i: usize = 0;
        while i < n
            invariant
                n == self.entries.len(),
                0 <= i <= n,
                pairs == self@,
                forall|j: int| 0 <= j < i ==> pairs[j].0 != key@,
            decreases n - i,
        {
            if crate::strutil::str_eq(self.entries[i].key.as_str(), key) {
                proof {
                    lemma_meta_key_index(pairs, key@);
                    assert(pairs[i as int].0 == key@);
                    assert(meta_has_key(pairs, key@));
                    let f = meta_key_index(pairs, key@);
                    if f < i {
                        assert(pairs[f].0 != key@);
                    }
                    if (i as int) < f {
                        assert(pairs[i as int].0 != key@);
                    }
                }
                return i;
            }
            i = i + 1;
        }
        proof {
            lemma_meta_key_index(pairs, key@);
            assert(!meta_has_key(pairs, key@));
        }
        i
    }

    /// Store `value` under `key`, replacing the value of an existing entry
    /// in place or appending a new entry.
    pub fn set_meta(&mut self, key: &str, value: &str)
        ensures
            final(self)@ == meta_insert(old(self)@, key@, value@),
    {
        let ghost pairs = old(self)@;
        proof {
            lemma_meta_key_index(pairs, key@);
        }
        let i = self.position_of(key);
        let entry = MetaEntry { key: key.to_owned(), value: value.to_owned() };
        proof {
            assert(entry.deep_view() == (key@, value@));
        }
        if i < self.entries.len() {
            self.entries.set(i, entry);
            proof {
                let dv = self@;
                let target = meta_insert(pairs, key@, value@);
                assert forall|j: int| 0 <= j < dv.len() implies dv[j] == target[j] by {
                    assert(dv[j] == self.entries@[j].deep_view());
                }
                assert(dv =~= target);
            }
        } else {
            self.entries.push(entry);
            proof {
                let dv = self@;
                let target = meta_insert(pairs, key@, value@);
                assert forall|j: int| 0 <= j < dv.len() implies dv[j] == target[j] by {
                    assert(dv[j] == self.entries@[j].deep_view());
                }
                assert(dv =~= target);
            }
        }
    }

    /// Store the flag `flag`, represented as the value `"1"`.
    pub fn set_meta_flag(&mut self, flag: &str)
        ensures
            final(self)@ == meta_insert(old(self)@, flag@, "1"@),
    {
        self.set_meta(flag, "1");
    }

    /// Whether the flag `flag` is present.
    pub fn meta_flag(&self, flag: &str) -> (r: bool)
        ensures
            r == meta_has_key(self@, flag@),
    {
        let i = self.position_of(flag);
        proof {
            lemma_meta_key_index(self@, flag@);
        }
        i < self.entries.len()
    }

    /// The value stored under `key`, if any, as a fresh `String`.
    pub fn meta(&self, key: &str) -> (r: Option<String>)
        ensures
            match r {
                Some(v) => meta_lookup(self@, key@) == Some(v@),
                None => meta_lookup(self@, key@) is None,
            },
    {
        let i = self.position_of(key);
        proof {
            lemma_meta_key_index(self@, key@);
        }
        if i < self.entries.len() {
            Some(self.entries[i].value.clone())
        } else {
            None
        }
    }

    /// Number of entries in the bag.
    pub fn len(&self) -> (r: usize)
        ensures
            r == self@.len(),
    {
        self.entries.len()
    }

    /// The pairs of the bag, in first-insertion order.
    pub fn pairs(&self) -> (r: Vec<(String, String)>)
        ensures
            r.deep_view() == self@,
    {
        let mut out: Vec<(String, String)> = Vec::new();
        let n = self.entries.len();
        let mut i: usize = 0;
        while i < n
            invariant
                n == self.entries.len(),
                0 <= i <= n,
                out.deep_view() =~= self@.subrange(0, i as int),
            decreases n - i,
        {
            let ghost prevout = out;
            let k = self.entries[i].key.clone();
            let v = self.entries[i].value.clone();
            let ghost gk = k;
            let ghost gv = v;
            out.push((k, v));
            proof {
                let dv = out.deep_view();
                let target = self@.subrange(0, i as int + 1);
                assert(prevout.deep_view() == self@.subrange(0, i as int));
                assert(prevout.deep_view().len() == prevout@.len());
                assert(dv.len() == out@.len());
                assert forall|j: int| 0 <= j < dv.len() implies dv[j] == target[j] by {
                    assert(dv[j] == out@[j].deep_view());
                    assert(target[j] == self.entries@[j].deep_view());
                    if j < prevout@.len() {
                        assert(out@[j] == prevout@[j]);
                        assert(prevout.deep_view()[j] == prevout@[j].deep_view());
                    } else {
                        assert(out@[j] == (gk, gv));
                        assert((gk, gv).deep_view() == (gk@, gv@));
                        assert(gk@ == self.entries@[j].key@);
                        assert(gv@ == self.entries@[j].value@);
                    }
                }
                assert(dv =~= target);
            }
            i = i + 1;
        }
        proof {
            assert(self@.subrange(0, n as int) =~= self@);
        }
        out
    }

    /// A copy of the bag with the same abstract value.
    pub fn duplicate(&self) -> (r: MetadataBag)
        ensures
            r@ == self@,
    {
        let entries = self.entries.clone();
        proof {
            assert forall|i: int| 0 <= i < entries@.len() implies entries.deep_view()[i]
                == self.entries.deep_view()[i] by {
                assert(cloned::<MetaEntry>(self.entries@[i], entries@[i]));
            }
            assert(entries.deep_view() =~= self.entries.deep_view());
        }
        MetadataBag { entries }
    }
}

/// Looking up right after storing yields the stored value, and other keys
/// are untouched.
pub proof fn lemma_meta_insert_lookup(pairs: MetaPairs, k: Seq<char>, v: Seq<char>)
    ensures
        meta_lookup(meta_insert(pairs, k, v), k) == Some(v),
        forall|k2: Seq<char>|
            k2 != k ==> meta_lookup(meta_insert(pairs, k, v), k2) == meta_lookup(pairs, k2),
{
    lemma_meta_key_index(pairs, k);
    let out = meta_insert(pairs, k, v);
    lemma_meta_key_index(out, k);
    assert(meta_has_key(out, k)) by {
        if meta_has_key(pairs, k) {
            assert(out[meta_key_index(pairs, k)].0 == k);
        } else {
            assert(out[pairs.len() as int].0 == k);
        }
    }
    let fo = meta_key_index(out, k);
    let fp = meta_key_index(pairs, k);
    if meta_has_key(pairs, k) {
        assert(fo == fp) by {
            if fo < fp {
                assert(out[fo] == pairs[fo]);
            }
            if fp < fo {
                assert(out[fp].0 == k);
            }
        }
    } else {
        assert(fo == pairs.len()) by {
            if fo < pairs.len() {
                assert(out[fo] == pairs[fo]);
            }
        }
    }
    assert forall|k2: Seq<char>| k2 != k implies meta_lookup(out, k2) == meta_lookup(
        pairs,
        k2,
    ) by {
        lemma_meta_key_index(pairs, k2);
        lemma_meta_key_index(out, k2);
        if meta_has_key(pairs, k2) {
            let i = meta_key_index(pairs, k2);
            assert(out[i] == pairs[i]);
            assert(meta_has_key(out, k2));
            let io = meta_key_index(out, k2);
            assert(io == i) by {
                if io < i {
                    assert(out[io].0 == k2);
                    if io == fo && meta_has_key(pairs, k) {
                        assert(out[io].0 == k);
                    } else if io == pairs.len() as int {
                    } else {
                        assert(out[io] == pairs[io]);
                    }
                }
                if i < io {
                    assert(out[i].0 != k2);
                }
            }
        } else {
            assert(!meta_has_key(out, k2)) by {
                if meta_has_key(out, k2) {
                    let io = choose|io: int| 0 <= io < out.len() && out[io].0 == k2;
                    if meta_has_key(pairs, k) {
                        if io == fp {
                            assert(out[io].0 == k);
                        } else {
                            assert(out[io] == pairs[io]);
                        }
                    } else {
                        if io == pairs.len() as int {
                            assert(out[io].0 == k);
                        } else {
                            assert(out[io] == pairs[io]);
                        }
                    }
                }
            }
        }
    }
}

/// Keys stay pairwise distinct across `meta_insert`: a bag built only by
/// insertions never carries a key twice.
pub proof fn lemma_meta_insert_keeps_keys_unique(pairs: MetaPairs, k: Seq<char>, v: Seq<char>)
    requires
        forall|i: int, j: int| 0 <= i < j < pairs.len() ==> pairs[i].0 != pairs[j].0,
    ensures
        forall|i: int, j: int|
            0 <= i < j < meta_insert(pairs, k, v).len() ==> meta_insert(pairs, k, v)[i].0
                != meta_insert(pairs, k, v)[j].0,
{
    lemma_meta_key_index(pairs, k);
    let out = meta_insert(pairs, k, v);
    if meta_has_key(pairs, k) {
        let f = meta_key_index(pairs, k);
        assert forall|i: int, j: int| 0 <= i < j < out.len() implies out[i].0 != out[j].0 by {
            if i != f && j != f {
                assert(out[i] == pairs[i] && out[j] == pairs[j]);
            } else if i == f {
                assert(out[i].0 == k && out[j] == pairs[j]);
                assert(pairs[f].0 == k);
            } else {
                assert(out[j].0 == k && out[i] == pairs[i]);
                assert(pairs[f].0 == k);
            }
        }
    } else {
        assert forall|i: int, j: int| 0 <= i < j < out.len() implies out[i].0 != out[j].0 by {
            if j < pairs.len() {
            } else {
                assert(out[j].0 == k);
                assert(out[i] == pairs[i]);
            }
        }
    }
}

} // verus!
