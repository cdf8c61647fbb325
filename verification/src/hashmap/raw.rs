//! The table underneath the RCU hash map.
//!
//! The table keeps its entries in a vector and never holds two entries with equal
//! keys. Its view is the map from each stored key to its value.
use vstd::laws_eq::obeys_concrete_eq;
use vstd::prelude::*;
use vstd::std_specs::cmp::PartialEqSpec;

verus! {

/// One entry of the table: a key and its value.
pub struct RawNode<K, V> {
    key: K,
    value: V,
}

impl<K, V> View for RawNode<K, V> {
    type V = (K, V);

    closed spec fn view(&self) -> (K, V) {
        (self.key, self.value)
    }
}

impl<K, V> RawNode<K, V> {
    /// Creates an entry mapping `key` to `value`.
    pub fn new(key: K, value: V) -> (r: Self)
        ensures
            r@ == (key, value),
    {
        RawNode { key, value }
    }

    /// Borrows the key and the value of the entry.
    pub fn as_refs(&self) -> (r: (&K, &V))
        ensures
            *r.0 == self@.0,
            *r.1 == self@.1,
    {
        (&self.key, &self.value)
    }

    /// Borrows the key of the entry.
    pub fn key(&self) -> (r: &K)
        ensures
            *r == self@.0,
    {
        &self.key
    }

    /// Borrows the value of the entry.
    pub fn value(&self) -> (r: &V)
        ensures
            *r == self@.1,
    {
        &self.value
    }

    /// Borrows the value of the entry mutably; the key stays as it is.
    pub fn value_mut(&mut self) -> (r: &mut V)
        ensures
            *r == old(self)@.1,
            final(self)@ == (old(self)@.0, *final(r)),
    {
        &mut self.value
    }
}

/// The pairs held by a sequence of entries, in the same order.
pub open spec fn node_pairs<K, V>(nodes: Seq<RawNode<K, V>>) -> Seq<(K, V)> {
    nodes.map_values(|n: RawNode<K, V>| n@)
}

/// Whether `pairs` lists every entry of `m` exactly once, each with its value.
pub open spec fn enumerates<K, V>(pairs: Seq<(K, V)>, m: Map<K, V>) -> bool {
    &&& forall|i: int, j: int|
        0 <= i < j < pairs.len() ==> (#[trigger] pairs[i]).0 != (#[trigger] pairs[j]).0
    &&& forall|i: int|
        0 <= i < pairs.len() ==> m.contains_key((#[trigger] pairs[i]).0) && m[pairs[i].0]
            == pairs[i].1
    &&& forall|k: K| #[trigger]
        m.contains_key(k) ==> exists|i: int| 0 <= i < pairs.len() && (#[trigger] pairs[i]).0 == k
}

/// Overwriting entry `i` with a key that no other entry holds keeps the table listing
/// the map, with the old key of entry `i` gone and the new key mapped to the new value.
proof fn lemma_enumerates_replace<K, V>(pairs: Seq<(K, V)>, m: Map<K, V>, i: int, k: K, v: V)
    requires
        enumerates(pairs, m),
        0 <= i < pairs.len(),
        forall|j: int| 0 <= j < pairs.len() && j != i ==> (#[trigger] pairs[j]).0 != k,
    ensures
        enumerates(pairs.update(i, (k, v)), m.remove(pairs[i].0).insert(k, v)),
{
    let old_k = pairs[i].0;
    let p2 = pairs.update(i, (k, v));
    let m2 = m.remove(old_k).insert(k, v);
    assert forall|a: int, b: int| 0 <= a < b < p2.len() implies (#[trigger] p2[a]).0 != (
    #[trigger] p2[b]).0 by {
        if a == i {
            assert(pairs[b].0 != k);
        } else if b == i {
            assert(pairs[a].0 != k);
        } else {
            assert(pairs[a].0 != pairs[b].0);
        }
    }
    assert forall|a: int| 0 <= a < p2.len() implies m2.contains_key((#[trigger] p2[a]).0)
        && m2[p2[a].0] == p2[a].1 by {
        if a != i {
            assert(pairs[a].0 != old_k) by {
                if a < i {
                    assert(pairs[a].0 != pairs[i].0);
                } else {
                    assert(pairs[i].0 != pairs[a].0);
                }
            }
            assert(pairs[a].0 != k);
            assert(m.contains_key(pairs[a].0));
        }
    }
    assert forall|x: K| #[trigger] m2.contains_key(x) implies exists|a: int|
        0 <= a < p2.len() && (#[trigger] p2[a]).0 == x by {
        if x == k {
            assert(p2[i].0 == x);
        } else {
            assert(m.contains_key(x) && x != old_k);
            let a = choose|a: int| 0 <= a < pairs.len() && (#[trigger] pairs[a]).0 == x;
            assert(a != i);
            assert(p2[a].0 == x);
        }
    }
}

/// Appending an entry for an absent key keeps the table listing the map, with the
/// new entry added.
proof fn lemma_enumerates_push<K, V>(pairs: Seq<(K, V)>, m: Map<K, V>, k: K, v: V)
    requires
        enumerates(pairs, m),
        !m.contains_key(k),
    ensures
        enumerates(pairs.push((k, v)), m.insert(k, v)),
{
    let p2 = pairs.push((k, v));
    let m2 = m.insert(k, v);
    assert forall|a: int, b: int| 0 <= a < b < p2.len() implies (#[trigger] p2[a]).0 != (
    #[trigger] p2[b]).0 by {
        if b == pairs.len() {
            assert(m.contains_key(pairs[a].0));
        } else {
            assert(pairs[a].0 != pairs[b].0);
        }
    }
    assert forall|a: int| 0 <= a < p2.len() implies m2.contains_key((#[trigger] p2[a]).0)
        && m2[p2[a].0] == p2[a].1 by {
        if a < pairs.len() {
            assert(m.contains_key(pairs[a].0));
        }
    }
    assert forall|x: K| #[trigger] m2.contains_key(x) implies exists|a: int|
        0 <= a < p2.len() && (#[trigger] p2[a]).0 == x by {
        if x == k {
            assert(p2[pairs.len() as int].0 == x);
        } else {
            assert(m.contains_key(x));
            let a = choose|a: int| 0 <= a < pairs.len() && (#[trigger] pairs[a]).0 == x;
            assert(p2[a].0 == x);
        }
    }
}

/// Moving the last entry into the place of entry `i` and dropping the last place keeps
/// the table listing the map, without the key of entry `i`.
proof fn lemma_enumerates_swap_remove<K, V>(pairs: Seq<(K, V)>, m: Map<K, V>, i: int)
    requires
        enumerates(pairs, m),
        0 <= i < pairs.len(),
    ensures
        enumerates(pairs.update(i, pairs.last()).drop_last(), m.remove(pairs[i].0)),
{
    let k = pairs[i].0;
    let n = pairs.len() - 1;
    let p2 = pairs.update(i, pairs.last()).drop_last();
    let m2 = m.remove(k);
    // position in `pairs` of the entry found at position `a` of `p2`
    assert forall|a: int| 0 <= a < p2.len() implies #[trigger] p2[a] == pairs[if a == i {
        n
    } else {
        a
    }] by {}
    assert forall|a: int, b: int| 0 <= a < b < p2.len() implies (#[trigger] p2[a]).0 != (
    #[trigger] p2[b]).0 by {
        let oa = if a == i {
            n
        } else {
            a
        };
        let ob = if b == i {
            n
        } else {
            b
        };
        assert(p2[a] == pairs[oa]);
        assert(p2[b] == pairs[ob]);
        if oa < ob {
            assert(pairs[oa].0 != pairs[ob].0);
        } else {
            assert(pairs[ob].0 != pairs[oa].0);
        }
    }
    assert forall|a: int| 0 <= a < p2.len() implies m2.contains_key((#[trigger] p2[a]).0)
        && m2[p2[a].0] == p2[a].1 by {
        let oa = if a == i {
            n
        } else {
            a
        };
        assert(p2[a] == pairs[oa]);
        assert(oa != i);
        if oa < i {
            assert(pairs[oa].0 != pairs[i].0);
        } else {
            assert(pairs[i].0 != pairs[oa].0);
        }
        assert(m.contains_key(pairs[oa].0));
    }
    assert forall|x: K| #[trigger] m2.contains_key(x) implies exists|a: int|
        0 <= a < p2.len() && (#[trigger] p2[a]).0 == x by {
        assert(m.contains_key(x));
        let b = choose|b: int| 0 <= b < pairs.len() && (#[trigger] pairs[b]).0 == x;
        assert(b != i);
        if b == n {
            assert(p2[i] == pairs[n]);
            assert(p2[i].0 == x);
        } else {
            assert(p2[b] == pairs[b]);
            assert(p2[b].0 == x);
        }
    }
}

/// Whether `K`'s `==` behaves as an equivalence relation and is specified: the contract
/// every `Eq` implementation takes on.
pub open spec fn lawful_eq<K: PartialEq>() -> bool {
    &&& K::obeys_eq_spec()
    &&& forall|x: K| #[trigger] x.eq_spec(&x)
    &&& forall|x: K, y: K| #[trigger] x.eq_spec(&y) ==> y.eq_spec(&x)
    &&& forall|x: K, y: K, z: K| #[trigger] x.eq_spec(&y) && #[trigger] y.eq_spec(&z) ==> x.eq_spec(&z)
}

/// A key type whose `==` is plain equality has a lawful equality.
pub broadcast proof fn lemma_concrete_eq_is_lawful<K: PartialEq>()
    requires
        obeys_concrete_eq::<K>(),
    ensures
        #[trigger] lawful_eq::<K>(),
{
    reveal(obeys_concrete_eq);
}

/// For a key type whose `==` is plain equality, the key equal to `k` is `k` itself,
/// and the map updates are the plain ones.
pub proof fn lemma_concrete_equal_key<K: PartialEq, V>(m: Map<K, V>, k: K, v: V)
    requires
        obeys_concrete_eq::<K>(),
    ensures
        lawful_eq::<K>(),
        has_equal_key(m, k) == m.contains_key(k),
        has_equal_key(m, k) ==> equal_key(m, k) == k,
        map_after_insert(m, k, v) == m.insert(k, v),
        map_after_remove(m, k) == m.remove(k),
{
    reveal(obeys_concrete_eq);
    if m.contains_key(k) {
        assert(m.contains_key(k) && k.eq_spec(&k));
    }
    if has_equal_key(m, k) {
        assert(equal_key(m, k) == k);
        assert(m.remove(k).insert(k, v) =~= m.insert(k, v));
    } else {
        assert(m.remove(k) =~= m);
    }
}

/// Whether no two entries of `pairs` have keys that are equal under `K`'s `==`.
pub open spec fn keys_inequivalent<K: PartialEq, V>(pairs: Seq<(K, V)>) -> bool {
    forall|i: int, j: int|
        0 <= i < pairs.len() && 0 <= j < pairs.len() && i != j ==> !(#[trigger] pairs[i]).0.eq_spec(
            &(#[trigger] pairs[j]).0,
        )
}

/// Whether no two keys of `m` are equal under `K`'s `==`.
pub open spec fn map_keys_inequivalent<K: PartialEq, V>(m: Map<K, V>) -> bool {
    forall|a: K, b: K|
        #[trigger] m.contains_key(a) && #[trigger] m.contains_key(b) && a != b ==> !a.eq_spec(&b)
}

/// Whether `m` holds a key equal to `k` under `K`'s `==`.
pub open spec fn has_equal_key<K: PartialEq, V>(m: Map<K, V>, k: K) -> bool {
    exists|j: K| #[trigger] m.contains_key(j) && j.eq_spec(&k)
}

/// The key of `m` that is equal to `k` under `K`'s `==`, when there is one.
pub open spec fn equal_key<K: PartialEq, V>(m: Map<K, V>, k: K) -> K {
    choose|j: K| #[trigger] m.contains_key(j) && j.eq_spec(&k)
}

/// The map after `k` is stored with `v`, replacing the entry of an equal key if any.
pub open spec fn map_after_insert<K: PartialEq, V>(m: Map<K, V>, k: K, v: V) -> Map<K, V> {
    if has_equal_key(m, k) {
        m.remove(equal_key(m, k)).insert(k, v)
    } else {
        m.insert(k, v)
    }
}

/// The map after the entry of a key equal to `k` is removed, if any.
pub open spec fn map_after_remove<K: PartialEq, V>(m: Map<K, V>, k: K) -> Map<K, V> {
    if has_equal_key(m, k) {
        m.remove(equal_key(m, k))
    } else {
        m
    }
}

/// Under a lawful equality, a key equal to the key of entry `i` is only found at `i`.
proof fn lemma_equal_key_unique<K: PartialEq, V>(pairs: Seq<(K, V)>, m: Map<K, V>, i: int, k: K)
    requires
        lawful_eq::<K>(),
        enumerates(pairs, m),
        keys_inequivalent(pairs),
        0 <= i < pairs.len(),
        pairs[i].0.eq_spec(&k),
    ensures
        has_equal_key(m, k),
        equal_key(m, k) == pairs[i].0,
{
    assert(m.contains_key(pairs[i].0));
    let j = equal_key(m, k);
    let b = choose|b: int| 0 <= b < pairs.len() && (#[trigger] pairs[b]).0 == j;
    if b != i {
        assert(k.eq_spec(&pairs[i].0));
        assert(pairs[b].0.eq_spec(&pairs[i].0));
        assert(false);
    }
}

/// A table of entries with pairwise distinct keys.
#[verifier::reject_recursive_types(K)]
pub struct RawMap<K, V> {
    nodes: Vec<RawNode<K, V>>,
    model: Ghost<Map<K, V>>,
}

impl<K, V> View for RawMap<K, V> {
    type V = Map<K, V>;

    closed spec fn view(&self) -> Map<K, V> {
        self.model@
    }
}

impl<K: PartialEq, V> RawMap<K, V> {
    /// The pairs of the table in storage order.
    pub closed spec fn pairs(&self) -> Seq<(K, V)> {
        node_pairs(self.nodes@)
    }

    /// Whether the table stores no entry at all.
    pub closed spec fn holds_nothing(&self) -> bool {
        self.nodes@.len() == 0
    }

    /// The table's internal invariant. When `K`'s equality is lawful, the stored entries
    /// are exactly the entries of the view, each stored once, and no two stored keys are
    /// equal under `K`'s `==`.
    ///
    /// For a key type whose `PartialEq` is not an equivalence relation, the table
    /// promises nothing about which entry a key reaches.
    pub closed spec fn wf(&self) -> bool {
        lawful_eq::<K>() ==> {
            &&& enumerates(self.pairs(), self@)
            &&& keys_inequivalent(self.pairs())
        }
    }

    /// Under a lawful equality, a table holds nothing exactly when its view is empty.
    pub proof fn lemma_holds_nothing(&self)
        requires
            self.wf(),
            lawful_eq::<K>(),
        ensures
            self.holds_nothing() <==> self@ == Map::<K, V>::empty(),
    {
        if self.holds_nothing() {
            assert(self@ =~= Map::<K, V>::empty()) by {
                assert forall|k: K| !self@.contains_key(k) by {
                    if self@.contains_key(k) {
                        let i = choose|i: int|
                            0 <= i < self.pairs().len() && (#[trigger] self.pairs()[i]).0 == k;
                    }
                }
            }
        } else {
            assert(self@.contains_key(self.pairs()[0].0));
        }
    }

    /// Under a lawful equality, no two keys of a table's view are equal under `K`'s `==`.
    pub proof fn lemma_view_keys_inequivalent(&self)
        requires
            self.wf(),
            lawful_eq::<K>(),
        ensures
            map_keys_inequivalent(self@),
    {
        assert forall|a: K, b: K|
            #[trigger] self@.contains_key(a) && #[trigger] self@.contains_key(b) && a != b implies !a.eq_spec(
            &b,
        ) by {
            let i = choose|i: int| 0 <= i < self.pairs().len() && (#[trigger] self.pairs()[i]).0 == a;
            let j = choose|j: int| 0 <= j < self.pairs().len() && (#[trigger] self.pairs()[j]).0 == b;
            assert(!self.pairs()[i].0.eq_spec(&self.pairs()[j].0));
        }
    }

    /// Creates an empty table.
    pub fn new() -> (r: Self)
        ensures
            r.wf(),
            r.holds_nothing(),
            r@ == Map::<K, V>::empty(),
    {
        let r = RawMap { nodes: Vec::new(), model: Ghost(Map::empty()) };
        assert(r.pairs() =~= Seq::<(K, V)>::empty());
        r
    }

    /// Finds the position of the entry whose key equals `key`.
    fn find(&self, key: &K) -> (r: Option<usize>)
        requires
            self.wf(),
        ensures
            r is Some ==> r->0 < self.pairs().len(),
            self.holds_nothing() ==> r is None,
            lawful_eq::<K>() ==> (r is None <==> !has_equal_key(self@, *key)),
            lawful_eq::<K>() ==> (r is Some ==> self.pairs()[r->0 as int].0 == equal_key(
                self@,
                *key,
            )),
    {
        let len = self.nodes.len();
        let mut i: usize = 0;
        while i < len
            invariant
                self.wf(),
                len == self.nodes@.len(),
                i <= len,
                lawful_eq::<K>() ==> forall|j: int|
                    0 <= j < i ==> !(#[trigger] self.pairs()[j]).0.eq_spec(key),
            decreases len - i,
        {
            assert(self.pairs()[i as int].0 == self.nodes@[i as int].key);
            if self.nodes[i].key.eq(key) {
                proof {
                    if lawful_eq::<K>() {
                        lemma_equal_key_unique(self.pairs(), self@, i as int, *key);
                    }
                }
                return Some(i);
            }
            i = i + 1;
        }
        proof {
            if lawful_eq::<K>() && has_equal_key(self@, *key) {
                let k = equal_key(self@, *key);
                let j = choose|j: int| 0 <= j < self.pairs().len() && (#[trigger] self.pairs()[j]).0 == k;
                assert(!self.pairs()[j].0.eq_spec(key));
            }
        }
        None
    }

    /// Borrows the entry whose key equals `key`, if any.
    pub fn lookup(&self, key: &K) -> (r: Option<&RawNode<K, V>>)
        requires
            self.wf(),
        ensures
            self.holds_nothing() ==> r is None,
            lawful_eq::<K>() ==> (r is None <==> !has_equal_key(self@, *key)),
            lawful_eq::<K>() ==> (r is Some ==> r->0@ == (
                equal_key(self@, *key),
                self@[equal_key(self@, *key)],
            )),
    {
        match self.find(key) {
            Some(i) => {
                assert(self.pairs()[i as int] == self.nodes@[i as int]@);
                Some(&self.nodes[i])
            },
            None => None,
        }
    }

    /// Stores `value` under `key`, replacing the entry of an equal key if there is one.
    ///
    /// Returns the replaced entry.
    pub fn add_replace(&mut self, key: K, value: V) -> (r: Option<RawNode<K, V>>)
        requires
            old(self).wf(),
        ensures
            final(self).wf(),
            !final(self).holds_nothing(),
            lawful_eq::<K>() ==> final(self)@ == map_after_insert(old(self)@, key, value),
            lawful_eq::<K>() ==> (r is None <==> !has_equal_key(old(self)@, key)),
            lawful_eq::<K>() ==> (r is Some ==> r->0@ == (
                equal_key(old(self)@, key),
                old(self)@[equal_key(old(self)@, key)],
            )),
    {
        match self.find(&key) {
            Some(i) => {
                let ghost old_pairs = self.pairs();
                let mut node = RawNode::new(key, value);
                self.nodes.set_and_swap(i, &mut node);
                proof {
                    assert(self.pairs() =~= old_pairs.update(i as int, (key, value)));
                    if lawful_eq::<K>() {
                        let m = self.model@;
                        assert forall|j: int| 0 <= j < old_pairs.len() && j != i implies (
                        #[trigger] old_pairs[j]).0 != key && !old_pairs[j].0.eq_spec(&key)
                            && !key.eq_spec(&old_pairs[j].0) by {
                            assert(!old_pairs[j].0.eq_spec(&old_pairs[i as int].0));
                            assert(old_pairs[i as int].0.eq_spec(&key));
                            if old_pairs[j].0.eq_spec(&key) {
                                assert(key.eq_spec(&old_pairs[i as int].0));
                            }
                            if key.eq_spec(&old_pairs[j].0) {
                                assert(old_pairs[j].0.eq_spec(&key));
                            }
                            if old_pairs[j].0 == key {
                                assert(key.eq_spec(&key));
                            }
                        }
                        lemma_enumerates_replace(old_pairs, m, i as int, key, value);
                        assert(keys_inequivalent(self.pairs())) by {
                            assert forall|a: int, b: int|
                                0 <= a < self.pairs().len() && 0 <= b < self.pairs().len() && a
                                    != b implies !(#[trigger] self.pairs()[a]).0.eq_spec(
                                &(#[trigger] self.pairs()[b]).0,
                            ) by {
                                if a != i && b != i {
                                    assert(!old_pairs[a].0.eq_spec(&old_pairs[b].0));
                                } else if a == i {
                                    assert(!key.eq_spec(&old_pairs[b].0));
                                } else {
                                    assert(!old_pairs[a].0.eq_spec(&key));
                                }
                            }
                        }
                    }
                }
                self.model = Ghost(self.model@.remove(old_pairs[i as int].0).insert(key, value));
                assert(node@ == old_pairs[i as int]);
                Some(node)
            },
            None => {
                let ghost old_pairs = self.pairs();
                self.nodes.push(RawNode::new(key, value));
                proof {
                    assert(self.pairs() =~= old_pairs.push((key, value)));
                    if lawful_eq::<K>() {
                        let m = self.model@;
                        if m.contains_key(key) {
                            assert(key.eq_spec(&key));
                            assert(has_equal_key(m, key));
                        }
                        lemma_enumerates_push(old_pairs, m, key, value);
                        assert(keys_inequivalent(self.pairs())) by {
                            assert forall|a: int, b: int|
                                0 <= a < self.pairs().len() && 0 <= b < self.pairs().len() && a
                                    != b implies !(#[trigger] self.pairs()[a]).0.eq_spec(
                                &(#[trigger] self.pairs()[b]).0,
                            ) by {
                                let n = old_pairs.len() as int;
                                if a < n && b < n {
                                    assert(!old_pairs[a].0.eq_spec(&old_pairs[b].0));
                                } else if a == n {
                                    assert(m.contains_key(old_pairs[b].0));
                                    if key.eq_spec(&old_pairs[b].0) {
                                        assert(old_pairs[b].0.eq_spec(&key));
                                    }
                                } else {
                                    assert(m.contains_key(old_pairs[a].0));
                                }
                            }
                        }
                    }
                }
                self.model = Ghost(self.model@.insert(key, value));
                None
            },
        }
    }

    /// Removes the entry whose key equals `key`, if any, and returns it.
    pub fn del(&mut self, key: &K) -> (r: Option<RawNode<K, V>>)
        requires
            old(self).wf(),
        ensures
            final(self).wf(),
            old(self).holds_nothing() ==> r is None && final(self).holds_nothing(),
            lawful_eq::<K>() ==> final(self)@ == map_after_remove(old(self)@, *key),
            lawful_eq::<K>() ==> (r is None <==> !has_equal_key(old(self)@, *key)),
            lawful_eq::<K>() ==> (r is Some ==> r->0@ == (
                equal_key(old(self)@, *key),
                old(self)@[equal_key(old(self)@, *key)],
            )),
    {
        match self.find(key) {
            Some(i) => {
                let ghost old_pairs = self.pairs();
                let node = self.nodes.swap_remove(i);
                proof {
                    let p2 = old_pairs.update(i as int, old_pairs.last()).drop_last();
                    assert(self.pairs() =~= p2);
                    if lawful_eq::<K>() {
                        lemma_enumerates_swap_remove(old_pairs, self.model@, i as int);
                        assert(keys_inequivalent(p2)) by {
                            let n = old_pairs.len() - 1;
                            assert forall|a: int, b: int|
                                0 <= a < p2.len() && 0 <= b < p2.len() && a != b implies !(
                                #[trigger] p2[a]).0.eq_spec(&(#[trigger] p2[b]).0) by {
                                let oa = if a == i {
                                    n
                                } else {
                                    a
                                };
                                let ob = if b == i {
                                    n
                                } else {
                                    b
                                };
                                assert(p2[a] == old_pairs[oa]);
                                assert(p2[b] == old_pairs[ob]);
                                assert(!old_pairs[oa].0.eq_spec(&old_pairs[ob].0));
                            }
                        }
                    }
                }
                self.model = Ghost(self.model@.remove(old_pairs[i as int].0));
                assert(node@ == old_pairs[i as int]);
                Some(node)
            },
            None => None,
        }
    }

    /// Removes every entry and returns them.
    pub fn del_all(&mut self) -> (r: Vec<RawNode<K, V>>)
        requires
            old(self).wf(),
        ensures
            final(self).wf(),
            final(self).holds_nothing(),
            final(self)@ == Map::<K, V>::empty(),
            node_pairs(r@) == old(self).pairs(),
            lawful_eq::<K>() ==> enumerates(node_pairs(r@), old(self)@),
    {
        let mut out: Vec<RawNode<K, V>> = Vec::new();
        std::mem::swap(&mut self.nodes, &mut out);
        self.model = Ghost(Map::empty());
        assert(self.pairs() =~= Seq::<(K, V)>::empty());
        out
    }

    /// Returns a cursor over the entries of the table.
    pub fn iter(&self) -> (r: RawIter<'_, K, V>)
        requires
            self.wf(),
        ensures
            self.holds_nothing() ==> r.remaining().len() == 0,
            lawful_eq::<K>() ==> enumerates(r.remaining(), self@),
    {
        let r = RawIter { nodes: &self.nodes, pos: 0 };
        assert(r.remaining() =~= self.pairs());
        r
    }
}

/// A cursor over the entries of a [`RawMap`].
pub struct RawIter<'a, K, V> {
    nodes: &'a Vec<RawNode<K, V>>,
    pos: usize,
}

impl<'a, K, V> RawIter<'a, K, V> {
    #[verifier::type_invariant]
    spec fn well_formed(self) -> bool {
        self.pos <= self.nodes@.len()
    }

    /// The pairs that the cursor has yet to visit, in the order it visits them.
    pub closed spec fn remaining(&self) -> Seq<(K, V)> {
        node_pairs(self.nodes@).skip(self.pos as int)
    }

    /// Borrows the entry under the cursor, or returns `None` past the last entry.
    pub fn get(&self) -> (r: Option<&'a RawNode<K, V>>)
        ensures
            self.remaining().len() == 0 ==> r is None,
            self.remaining().len() > 0 ==> r is Some && r->0@ == self.remaining()[0],
    {
        proof {
            use_type_invariant(self);
        }
        let nodes: &'a Vec<RawNode<K, V>> = self.nodes;
        if self.pos < nodes.len() {
            Some(&nodes[self.pos])
        } else {
            None
        }
    }

    /// Moves the cursor to the next entry.
    pub fn next(&mut self)
        ensures
            old(self).remaining().len() == 0 ==> final(self).remaining() == old(self).remaining(),
            old(self).remaining().len() > 0 ==> final(self).remaining() == old(
                self,
            ).remaining().drop_first(),
    {
        proof {
            use_type_invariant(&*self);
        }
        if self.pos < self.nodes.len() {
            self.pos = self.pos + 1;
            assert(self.remaining() =~= old(self).remaining().drop_first());
        }
    }
}

} // verus!
