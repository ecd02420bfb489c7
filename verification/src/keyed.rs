//! Name-keyed sequences: the abstract model of the entity collections.
//!
//! Every collection in the schema model keeps its elements in first-
//! insertion order and treats an element's name as its key: storing under
//! a present key replaces the first element carrying it, in place, and a
//! fresh key appends. These spec functions state that discipline once for
//! all element kinds.

use vstd::prelude::*;

verus! {

/// An element kind with a name that serves as its key.
pub trait Keyed {
    /// The key of the element.
    spec fn key(self) -> Seq<char>;
}

/// Index of the first element keyed `k`, or `s.len()` if no element has
/// that key.
pub open spec fn key_index_of<T: Keyed>(s: Seq<T>, k: Seq<char>) -> int
    decreases s.len(),
{
    if s.len() == 0 {
        0
    } else if s[0].key() == k {
        0
    } else {
        1 + key_index_of(s.drop_first(), k)
    }
}

/// Whether some element carries the key `k`.
pub open spec fn has_key<T: Keyed>(s: Seq<T>, k: Seq<char>) -> bool {
    exists|i: int| 0 <= i < s.len() && s[i].key() == k
}

/// The first element keyed `k`, if any.
pub open spec fn lookup_by_key<T: Keyed>(s: Seq<T>, k: Seq<char>) -> Option<T> {
    if has_key(s, k) {
        Some(s[key_index_of(s, k)])
    } else {
        None
    }
}

/// The sequence after storing `x`: the first element sharing `x`'s key is
/// replaced in place, or `x` is appended when its key is new.
pub open spec fn upsert_by_key<T: Keyed>(s: Seq<T>, x: T) -> Seq<T> {
    if has_key(s, x.key()) {
        s.update(key_index_of(s, x.key()), x)
    } else {
        s.push(x)
    }
}

/// No two elements share a key.
pub open spec fn keys_unique<T: Keyed>(s: Seq<T>) -> bool {
    forall|i: int, j: int| 0 <= i < j < s.len() ==> s[i].key() != s[j].key()
}

/// `key_index_of` really is the first index carrying the key.
pub proof fn lemma_key_index_of<T: Keyed>(s: Seq<T>, k: Seq<char>)
    ensures
        has_key(s, k) ==> {
            let i = key_index_of(s, k);
            &&& 0 <= i < s.len()
            &&& s[i].key() == k
            &&& forall|j: int| 0 <= j < i ==> s[j].key() != k
        },
        !has_key(s, k) ==> key_index_of(s, k) == s.len(),
    decreases s.len(),
{
    if s.len() == 0 {
    } else if s[0].key() == k {
    } else {
        lemma_key_index_of(s.drop_first(), k);
        let rest = s.drop_first();
        assert(forall|j: int| 1 <= j < s.len() ==> s[j] == rest[j - 1]);
        if has_key(rest, k) {
            assert(s[1 + key_index_of(rest, k)].key() == k);
        } else {
            assert(!has_key(s, k)) by {
                if has_key(s, k) {
                    let i = choose|i: int| 0 <= i < s.len() && s[i].key() == k;
                    assert(rest[i - 1].key() == k);
                }
            }
        }
    }
}

/// Looking up right after storing yields the stored element, and elements
/// under other keys are untouched.
pub proof fn lemma_upsert_lookup<T: Keyed>(s: Seq<T>, x: T)
    ensures
        lookup_by_key(upsert_by_key(s, x), x.key()) == Some(x),
        forall|k2: Seq<char>|
            k2 != x.key() ==> lookup_by_key(upsert_by_key(s, x), k2) == lookup_by_key(s, k2),
{
    let k = x.key();
    lemma_key_index_of(s, k);
    let out = upsert_by_key(s, x);
    lemma_key_index_of(out, k);
    assert(has_key(out, k)) by {
        if has_key(s, k) {
            assert(out[key_index_of(s, k)].key() == k);
        } else {
            assert(out[s.len() as int].key() == k);
        }
    }
    let fo = key_index_of(out, k);
    let fp = key_index_of(s, k);
    if has_key(s, k) {
        assert(fo == fp) by {
            if fo < fp {
                assert(out[fo] == s[fo]);
            }
            if fp < fo {
                assert(out[fp].key() == k);
            }
        }
    } else {
        assert(fo == s.len()) by {
            if fo < s.len() {
                assert(out[fo] == s[fo]);
            }
        }
    }
    assert forall|k2: Seq<char>| k2 != k implies lookup_by_key(out, k2) == lookup_by_key(
        s,
        k2,
    ) by {
        lemma_key_index_of(s, k2);
        lemma_key_index_of(out, k2);
        if has_key(s, k2) {
            let i = key_index_of(s, k2);
            assert(out[i] == s[i]);
            assert(has_key(out, k2));
            let io = key_index_of(out, k2);
            assert(io == i) by {
                if io < i {
                    assert(out[io].key() == k2);
                    if has_key(s, k) && io == fp {
                        assert(out[io].key() == k);
                    } else if !has_key(s, k) && io == s.len() as int {
                    } else {
                        assert(out[io] == s[io]);
                    }
                }
                if i < io {
                    assert(out[i].key() != k2);
                }
            }
        } else {
            assert(!has_key(out, k2)) by {
                if has_key(out, k2) {
                    let io = choose|io: int| 0 <= io < out.len() && out[io].key() == k2;
                    if has_key(s, k) {
                        if io == fp {
                            assert(out[io].key() == k);
                        } else {
                            assert(out[io] == s[io]);
                        }
                    } else {
                        if io == s.len() as int {
                            assert(out[io].key() == k);
                        } else {
                            assert(out[io] == s[io]);
                        }
                    }
                }
            }
        }
    }
}

/// Keys stay pairwise distinct across `upsert_by_key`: a collection built
/// only by upserts never carries a key twice.
pub proof fn lemma_upsert_keeps_keys_unique<T: Keyed>(s: Seq<T>, x: T)
    requires
        keys_unique(s),
    ensures
        keys_unique(upsert_by_key(s, x)),
{
    lemma_key_index_of(s, x.key());
    let out = upsert_by_key(s, x);
    let k = x.key();
    if has_key(s, k) {
        let f = key_index_of(s, k);
        assert forall|i: int, j: int| 0 <= i < j < out.len() implies out[i].key()
            != out[j].key() by {
            if i != f && j != f {
                assert(out[i] == s[i] && out[j] == s[j]);
            } else if i == f {
                assert(out[i].key() == k && out[j] == s[j]);
                assert(s[f].key() == k);
            } else {
                assert(out[j].key() == k && out[i] == s[i]);
                assert(s[f].key() == k);
            }
        }
    } else {
        assert forall|i: int, j: int| 0 <= i < j < out.len() implies out[i].key()
            != out[j].key() by {
            if j < s.len() {
            } else {
                assert(out[j].key() == k);
                assert(out[i] == s[i]);
            }
        }
    }
}

} // verus!
