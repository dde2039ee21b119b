//! An ordered table from byte-string keys to values: the shape of one tree of
//! the node's key-value database. Keys are kept in strictly ascending
//! lexicographic order, an insert under a present key replaces its value, and
//! walking the table visits the entries in key order.

use vstd::prelude::*;

verus! {

/// Strict lexicographic order on byte strings: a proper prefix comes first.
pub open spec fn lex_lt(a: Seq<u8>, b: Seq<u8>) -> bool
    decreases a.len(),
{
    if a.len() == 0 {
        b.len() > 0
    } else if b.len() == 0 {
        false
    } else if a[0] != b[0] {
        a[0] < b[0]
    } else {
        lex_lt(a.drop_first(), b.drop_first())
    }
}

/// No byte string comes before itself.
pub proof fn lemma_lex_irreflexive(a: Seq<u8>)
    ensures
        !lex_lt(a, a),
    decreases a.len(),
{
    if a.len() > 0 {
        lemma_lex_irreflexive(a.drop_first());
    }
}

/// Of two distinct byte strings, exactly one comes first.
pub proof fn lemma_lex_total(a: Seq<u8>, b: Seq<u8>)
    ensures
        a != b ==> (lex_lt(a, b) || lex_lt(b, a)),
        !(lex_lt(a, b) && lex_lt(b, a)),
    decreases a.len(),
{
    if a.len() > 0 && b.len() > 0 && a[0] == b[0] {
        lemma_lex_total(a.drop_first(), b.drop_first());
        if a != b {
            assert(a =~= seq![a[0]] + a.drop_first());
            assert(b =~= seq![b[0]] + b.drop_first());
        }
    } else if a.len() == 0 && b.len() == 0 {
        assert(a =~= b);
    }
}

/// The lexicographic order is transitive.
pub proof fn lemma_lex_transitive(a: Seq<u8>, b: Seq<u8>, c: Seq<u8>)
    requires
        lex_lt(a, b),
        lex_lt(b, c),
    ensures
        lex_lt(a, c),
    decreases a.len(),
{
    if a.len() > 0 && b.len() > 0 && c.len() > 0 && a[0] == b[0] && b[0] == c[0] {
        lemma_lex_transitive(a.drop_first(), b.drop_first(), c.drop_first());
    }
}

/// Prefixing both sides with the same bytes keeps their order.
pub proof fn lemma_lex_common_prefix(p: Seq<u8>, a: Seq<u8>, b: Seq<u8>)
    ensures
        lex_lt(p + a, p + b) == lex_lt(a, b),
    decreases p.len(),
{
    if p.len() > 0 {
        assert((p + a).drop_first() =~= p.drop_first() + a);
        assert((p + b).drop_first() =~= p.drop_first() + b);
        lemma_lex_common_prefix(p.drop_first(), a, b);
    } else {
        assert(p + a =~= a);
        assert(p + b =~= b);
    }
}

/// Where two byte strings first differ within a common length, that byte
/// decides their order.
pub proof fn lemma_lex_first_difference(a: Seq<u8>, b: Seq<u8>, k: int)
    requires
        0 <= k < a.len(),
        k < b.len(),
        a.take(k) == b.take(k),
        a[k] != b[k],
    ensures
        lex_lt(a, b) == (a[k] < b[k]),
    decreases k,
{
    if k > 0 {
        assert(a[0] == a.take(k)[0]);
        assert(b[0] == b.take(k)[0]);
        assert(a.drop_first().take(k - 1) =~= a.take(k).drop_first());
        assert(b.drop_first().take(k - 1) =~= b.take(k).drop_first());
        lemma_lex_first_difference(a.drop_first(), b.drop_first(), k - 1);
    }
}

/// The result of comparing two keys.
#[derive(Debug, Clone, Copy, PartialEq, Eq)]
pub enum KeyOrder {
    Less,
    Equal,
    Greater,
}

/// Compares two byte strings in lexicographic order.
pub fn order_keys(a: &Vec<u8>, b: &Vec<u8>) -> (r: KeyOrder)
    ensures
        r == KeyOrder::Less <==> lex_lt(a@, b@),
        r == KeyOrder::Equal <==> a@ == b@,
        r == KeyOrder::Greater <==> lex_lt(b@, a@),
{
    proof {
        lemma_lex_total(a@, b@);
        lemma_lex_irreflexive(a@);
    }
    let mut i: usize = 0;
    while i < a.len() && i < b.len()
        invariant
            i <= a.len(),
            i <= b.len(),
            a@.take(i as int) == b@.take(i as int),
        decreases a.len() - i,
    {
        if a[i] != b[i] {
            proof {
                lemma_lex_first_difference(a@, b@, i as int);
                lemma_lex_first_difference(b@, a@, i as int);
            }
            if a[i] < b[i] {
                return KeyOrder::Less;
            } else {
                return KeyOrder::Greater;
            }
        }
        assert(a@.take(i + 1) =~= a@.take(i as int).push(a@[i as int]));
        assert(b@.take(i + 1) =~= b@.take(i as int).push(b@[i as int]));
        i += 1;
    }
    proof {
        let p = a@.take(i as int);
        assert(a@ =~= p + a@.skip(i as int));
        assert(b@ =~= p + b@.skip(i as int));
        lemma_lex_common_prefix(p, a@.skip(i as int), b@.skip(i as int));
        lemma_lex_common_prefix(p, b@.skip(i as int), a@.skip(i as int));
    }
    if a.len() == b.len() {
        assert(a@ =~= b@);
        KeyOrder::Equal
    } else if a.len() < b.len() {
        KeyOrder::Less
    } else {
        KeyOrder::Greater
    }
}

/// One entry of a table.
pub struct Entry<V> {
    pub key: Vec<u8>,
    pub value: V,
}

/// An ordered table from byte-string keys to values.
pub struct Table<V> {
    entries: Vec<Entry<V>>,
}

/// Whether the keys of a sequence of entries ascend strictly.
pub open spec fn keys_ascend(keys: Seq<Seq<u8>>) -> bool {
    forall|i: int, j: int| 0 <= i < j < keys.len() ==> lex_lt(#[trigger] keys[i], #[trigger] keys[j])
}

impl<V> Table<V> {
    /// The keys, in table order.
    pub closed spec fn keys(&self) -> Seq<Seq<u8>> {
        self.entries@.map(|i: int, e: Entry<V>| e.key@)
    }

    /// The values, in table order.
    pub closed spec fn values(&self) -> Seq<V> {
        self.entries@.map(|i: int, e: Entry<V>| e.value)
    }

    /// Well-formedness: keys strictly ascend, so no key occurs twice.
    pub open spec fn wf(&self) -> bool {
        &&& self.keys().len() == self.values().len()
        &&& keys_ascend(self.keys())
    }

    /// The number of entries.
    pub open spec fn size(&self) -> nat {
        self.keys().len()
    }

    /// The position of a key, if present.
    pub open spec fn index_of(&self, key: Seq<u8>) -> int {
        choose|i: int| 0 <= i < self.keys().len() && self.keys()[i] == key
    }

    /// Whether a key is present.
    pub open spec fn has(&self, key: Seq<u8>) -> bool {
        exists|i: int| 0 <= i < self.keys().len() && self.keys()[i] == key
    }

    /// The table as a finite map from keys to values.
    pub open spec fn as_map(&self) -> Map<Seq<u8>, V> {
        Map::new(|k: Seq<u8>| self.has(k), |k: Seq<u8>| self.values()[self.index_of(k)])
    }

    proof fn lemma_index_unique(&self, i: int, j: int)
        requires
            self.wf(),
            0 <= i < self.keys().len(),
            0 <= j < self.keys().len(),
            self.keys()[i] == self.keys()[j],
        ensures
            i == j,
    {
        if i < j {
            lemma_lex_irreflexive(self.keys()[i]);
        } else if j < i {
            lemma_lex_irreflexive(self.keys()[i]);
        }
    }

    /// In a well-formed table the value of a key is the one at its position.
    pub proof fn lemma_value_at(&self, i: int)
        requires
            self.wf(),
            0 <= i < self.keys().len(),
        ensures
            self.has(self.keys()[i]),
            self.index_of(self.keys()[i]) == i,
            self.as_map()[self.keys()[i]] == self.values()[i],
    {
        let k = self.keys()[i];
        assert(self.has(k));
        let j = self.index_of(k);
        self.lemma_index_unique(i, j);
    }

    /// In a well-formed table every key of the map sits at some position,
    /// whose value is the one the map gives.
    pub proof fn lemma_key_position(&self, key: Seq<u8>)
        requires
            self.wf(),
            self.as_map().contains_key(key),
        ensures
            0 <= self.index_of(key) < self.keys().len(),
            self.keys()[self.index_of(key)] == key,
            self.values()[self.index_of(key)] == self.as_map()[key],
    {
    }

    /// A well-formed table maps exactly its keys, one per entry.
    pub proof fn lemma_map_len(&self)
        requires
            self.wf(),
        ensures
            self.as_map().dom() == self.keys().to_set(),
            self.as_map().len() == self.size(),
    {
        assert(self.as_map().dom() =~= self.keys().to_set());
        assert forall|i: int, j: int| 0 <= i < self.keys().len() && 0 <= j < self.keys().len() && i != j
            implies self.keys()[i] != self.keys()[j] by {
            if self.keys()[i] == self.keys()[j] {
                self.lemma_index_unique(i, j);
            }
        }
        self.keys().unique_seq_to_set();
    }

    /// An empty table.
    pub fn new() -> (t: Table<V>)
        ensures
            t.wf(),
            t.size() == 0,
            t.as_map() == Map::<Seq<u8>, V>::empty(),
    {
        let t = Table { entries: Vec::new() };
        assert(t.keys() =~= Seq::<Seq<u8>>::empty());
        assert(t.as_map() =~= Map::<Seq<u8>, V>::empty());
        t
    }

    /// The number of entries.
    pub fn len(&self) -> (n: usize)
        ensures
            n == self.size(),
    {
        self.entries.len()
    }

    /// The key at a position.
    pub fn key_at(&self, i: usize) -> (k: &Vec<u8>)
        requires
            i < self.size(),
        ensures
            k@ == self.keys()[i as int],
    {
        &self.entries[i].key
    }

    /// The value at a position.
    pub fn value_at(&self, i: usize) -> (v: &V)
        requires
            i < self.size(),
        ensures
            *v == self.values()[i as int],
    {
        &self.entries[i].value
    }

    /// The position of a key, or `None` if it is absent.
    pub fn position(&self, key: &Vec<u8>) -> (r: Option<usize>)
        requires
            self.wf(),
        ensures
            match r {
                Some(i) => i < self.size() && self.keys()[i as int] == key@,
                None => !self.has(key@),
            },
    {
        let mut i: usize = 0;
        while i < self.entries.len()
            invariant
                i <= self.entries@.len(),
                self.keys().len() == self.entries@.len(),
                forall|j: int| 0 <= j < i ==> self.keys()[j] != key@,
            decreases self.entries@.len() - i,
        {
            assert(self.keys()[i as int] == self.entries@[i as int].key@);
            if crate::primitives::bytes_equal(&self.entries[i].key, key) {
                return Some(i);
            }
            i += 1;
        }
        None
    }

    /// The value stored under a key, or `None` if the key is absent.
    pub fn get(&self, key: &Vec<u8>) -> (r: Option<&V>)
        requires
            self.wf(),
        ensures
            match r {
                Some(v) => self.as_map().contains_key(key@) && *v == self.as_map()[key@],
                None => !self.as_map().contains_key(key@),
            },
    {
        match self.position(key) {
            Some(i) => {
                proof {
                    self.lemma_value_at(i as int);
                }
                Some(&self.entries[i].value)
            },
            None => None,
        }
    }

    /// Stores `value` under `key`, replacing the value of a present key and
    /// otherwise adding an entry at its place in key order.
    pub fn insert(&mut self, key: Vec<u8>, value: V)
        requires
            old(self).wf(),
        ensures
            final(self).wf(),
            final(self).as_map() == old(self).as_map().insert(key@, value),
    {
        let ghost k = key@;
        let ghost old_keys = self.keys();
        let ghost old_values = self.values();
        let mut i: usize = 0;
        while i < self.entries.len()
            invariant_except_break
                i <= self.entries@.len(),
            invariant
                k == key@,
                self.keys() == old_keys,
                old_keys.len() == self.entries@.len(),
                forall|j: int| 0 <= j < i ==> lex_lt(#[trigger] old_keys[j], k),
            ensures
                i <= self.entries@.len(),
                i < self.entries@.len() ==> !lex_lt(old_keys[i as int], k),
            decreases self.entries@.len() - i,
        {
            assert(old_keys[i as int] == self.entries@[i as int].key@);
            if !key_before(&self.entries[i].key, &key) {
                break;
            }
            i += 1;
        }
        proof {
            if i < old_keys.len() {
                assert(old_keys[i as int] == self.entries@[i as int].key@);
            }
        }
        if i < self.entries.len() && crate::primitives::bytes_equal(&self.entries[i].key, &key) {
            self.entries.set(i, Entry { key, value });
            proof {
                assert(self.keys() =~= old_keys.update(i as int, k));
                assert(self.keys() =~= old_keys);
                assert(self.values() =~= old_values.update(i as int, value));
                self.lemma_map_after_replace(*old(self), i as int, value);
            }
        } else {
            proof {
                if i < old_keys.len() {
                    lemma_lex_total(old_keys[i as int], k);
                }
            }
            self.entries.insert(i, Entry { key, value });
            proof {
                assert(self.keys() =~= old_keys.insert(i as int, k));
                assert(self.values() =~= old_values.insert(i as int, value));
                self.lemma_map_after_insert(*old(self), i as int, value);
            }
        }
    }

    proof fn lemma_map_after_replace(&self, before: Table<V>, i: int, value: V)
        requires
            before.wf(),
            0 <= i < before.keys().len(),
            self.keys() == before.keys(),
            self.values() == before.values().update(i, value),
        ensures
            self.wf(),
            self.as_map() == before.as_map().insert(before.keys()[i], value),
    {
        let k = before.keys()[i];
        assert(self.wf());
        assert forall|key: Seq<u8>| #[trigger] self.as_map().contains_key(key) == before.as_map().insert(k, value).contains_key(key) by {
            if self.has(key) {
                let j = self.index_of(key);
                assert(before.keys()[j] == key);
            }
            if before.has(key) {
                let j = before.index_of(key);
                assert(self.keys()[j] == key);
            }
        }
        assert forall|key: Seq<u8>| #[trigger] self.as_map().contains_key(key) implies self.as_map()[key] == before.as_map().insert(k, value)[key] by {
            let j = self.index_of(key);
            self.lemma_value_at(j);
            before.lemma_value_at(j);
            if key == k {
                self.lemma_index_unique(i, j);
            }
        }
        assert(self.as_map() =~= before.as_map().insert(k, value));
    }

    proof fn lemma_map_after_insert(&self, before: Table<V>, i: int, value: V)
        requires
            before.wf(),
            0 <= i <= before.keys().len(),
            forall|j: int| 0 <= j < i ==> lex_lt(#[trigger] before.keys()[j], self.keys()[i]),
            i < before.keys().len() ==> lex_lt(self.keys()[i], before.keys()[i]),
            self.keys() == before.keys().insert(i, self.keys()[i]),
            self.values() == before.values().insert(i, value),
        ensures
            self.wf(),
            self.as_map() == before.as_map().insert(self.keys()[i], value),
    {
        let k = self.keys()[i];
        let ks = self.keys();
        let bk = before.keys();
        assert forall|a: int, b: int| 0 <= a < b < ks.len() implies lex_lt(#[trigger] ks[a], #[trigger] ks[b]) by {
            if a < i && b == i {
            } else if a < i && b > i {
                assert(ks[b] == bk[b - 1]);
                if b - 1 > a {
                } 
                assert(lex_lt(bk[a], bk[b - 1]) || a == b - 1);
                if a == b - 1 {
                } else {
                }
            } else if a == i {
                assert(ks[b] == bk[b - 1]);
                if b - 1 > i {
                    lemma_lex_transitive(k, bk[i], bk[b - 1]);
                }
            } else if a < i && b < i {
                assert(ks[a] == bk[a]);
                assert(ks[b] == bk[b]);
            } else {
                assert(ks[a] == bk[a - 1]);
                assert(ks[b] == bk[b - 1]);
            }
        }
        assert(self.wf());
        assert forall|key: Seq<u8>| #[trigger] self.as_map().contains_key(key) == before.as_map().insert(k, value).contains_key(key) by {
            if self.has(key) {
                let j = self.index_of(key);
                if j < i {
                    assert(bk[j] == key);
                } else if j > i {
                    assert(bk[j - 1] == key);
                }
            }
            if before.has(key) {
                let j = before.index_of(key);
                if j < i {
                    assert(ks[j] == key);
                } else {
                    assert(ks[j + 1] == key);
                }
            }
        }
        assert forall|key: Seq<u8>| #[trigger] self.as_map().contains_key(key) implies self.as_map()[key] == before.as_map().insert(k, value)[key] by {
            let j = self.index_of(key);
            self.lemma_value_at(j);
            if j < i {
                before.lemma_value_at(j);
                lemma_lex_irreflexive(k);
            } else if j > i {
                before.lemma_value_at(j - 1);
                lemma_lex_irreflexive(k);
                if j - 1 > i {
                    lemma_lex_transitive(k, bk[i], bk[j - 1]);
                }
            }
        }
        assert(self.as_map() =~= before.as_map().insert(k, value));
    }
}

/// Whether byte string `a` comes before byte string `b`.
pub fn key_before(a: &Vec<u8>, b: &Vec<u8>) -> (r: bool)
    ensures
        r == lex_lt(a@, b@),
{
    match order_keys(a, b) {
        KeyOrder::Less => true,
        _ => false,
    }
}

} // verus!
