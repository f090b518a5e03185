//! A table keyed by document identifier.

use vstd::prelude::*;

verus! {

/// A table from a document identifier to a value. A `put` replaces what was
/// there for the identifier, so no identifier is held twice.
pub struct Store<V> {
    keys: Vec<String>,
    values: Vec<V>,
}

/// The first index from `from` on at which `keys` holds `key`, or the
/// length of `keys`.
pub closed spec fn index_from(keys: Seq<String>, key: Seq<char>, from: int) -> int
    decreases keys.len() - from,
{
    if from < 0 || from >= keys.len() {
        keys.len() as int
    } else if keys[from]@ == key {
        from
    } else {
        index_from(keys, key, from + 1)
    }
}

proof fn lemma_index_from(keys: Seq<String>, key: Seq<char>, from: int)
    requires
        0 <= from <= keys.len(),
    ensures
        from <= index_from(keys, key, from) <= keys.len(),
        index_from(keys, key, from) < keys.len() ==> keys[index_from(keys, key, from)]@ == key,
        forall|j: int| from <= j < index_from(keys, key, from) ==> (#[trigger] keys[j])@ != key,
    decreases keys.len() - from,
{
    if from < keys.len() && keys[from]@ != key {
        lemma_index_from(keys, key, from + 1);
    }
}

/// Where `keys` holds `key` at `i` and nowhere before, `i` is its index.
proof fn lemma_index_is(keys: Seq<String>, key: Seq<char>, from: int, i: int)
    requires
        0 <= from <= i <= keys.len(),
        forall|j: int| from <= j < i ==> (#[trigger] keys[j])@ != key,
        i < keys.len() ==> keys[i]@ == key,
    ensures
        index_from(keys, key, from) == i,
    decreases i - from,
{
    if from < i {
        lemma_index_is(keys, key, from + 1, i);
    }
}

impl<V> Store<V> {
    /// The invariant of the table: as many values as identifiers, and no
    /// identifier twice.
    pub closed spec fn wf(&self) -> bool {
        &&& self.keys@.len() == self.values@.len()
        &&& forall|i: int, j: int|
            0 <= i < j < self.keys@.len() ==> (#[trigger] self.keys@[i])@ != (
            #[trigger] self.keys@[j])@
    }

    /// The table as a map from identifier to value.
    pub closed spec fn view(&self) -> Map<Seq<char>, V> {
        Map::new(
            |key: Seq<char>| index_from(self.keys@, key, 0) < self.keys@.len(),
            |key: Seq<char>| self.values@[index_from(self.keys@, key, 0)],
        )
    }

    /// The number of identifiers held.
    pub closed spec fn spec_len(&self) -> nat {
        self.keys@.len()
    }

    /// An empty table.
    pub fn new() -> (store: Self)
        ensures
            store.wf(),
            store@ == Map::<Seq<char>, V>::empty(),
            store.spec_len() == 0,
    {
        let store = Store { keys: Vec::new(), values: Vec::new() };
        assert(store@ =~= Map::<Seq<char>, V>::empty());
        store
    }

    /// The number of identifiers held.
    pub fn len(&self) -> (len: usize)
        requires
            self.wf(),
        ensures
            len == self.spec_len(),
    {
        self.keys.len()
    }

    /// The index at which `uri` is held, or the number of identifiers.
    fn position(&self, uri: &str) -> (i: usize)
        requires
            self.wf(),
        ensures
            i == index_from(self.keys@, uri@, 0),
            i <= self.keys@.len(),
    {
        let wanted = uri.to_owned();
        let mut i: usize = 0;
        while i < self.keys.len() && !(self.keys[i] == wanted)
            invariant
                i <= self.keys@.len(),
                wanted@ == uri@,
                forall|j: int| 0 <= j < i ==> (#[trigger] self.keys@[j])@ != uri@,
            decreases self.keys@.len() - i,
        {
            i = i + 1;
        }
        proof {
            lemma_index_is(self.keys@, uri@, 0, i as int);
        }
        i
    }

    /// Sets the value for `uri`, in place of what was there for it, if
    /// anything. Every other identifier keeps its value.
    pub fn put(&mut self, uri: String, value: V)
        requires
            old(self).wf(),
        ensures
            final(self).wf(),
            final(self)@ == old(self)@.insert(uri@, value),
            final(self).spec_len() == if old(self)@.contains_key(uri@) {
                old(self).spec_len()
            } else {
                old(self).spec_len() + 1
            },
    {
        let i = self.position(uri.as_str());
        let ghost before = self.keys@;
        let ghost values_before = self.values@;
        if i < self.keys.len() {
            self.values.set(i, value);
            proof {
                assert forall|key: Seq<char>| #[trigger]
                    self@.contains_key(key) == old(self)@.insert(uri@, value).contains_key(
                        key,
                    ) by {
                    lemma_index_from(before, key, 0);
                }
                assert forall|key: Seq<char>| #[trigger] self@.contains_key(key) implies self@[key]
                    == old(self)@.insert(uri@, value)[key] by {
                    lemma_index_from(before, key, 0);
                    lemma_index_from(before, uri@, 0);
                    let k = index_from(before, key, 0);
                    if key != uri@ {
                        assert(k != i);
                        assert(self.values@[k] == values_before[k]);
                    }
                }
                assert(self@ =~= old(self)@.insert(uri@, value));
            }
        } else {
            self.keys.push(uri);
            self.values.push(value);
            proof {
                lemma_index_from(before, uri@, 0);
                assert forall|a: int, b: int| 0 <= a < b < self.keys@.len() implies (
                #[trigger] self.keys@[a])@ != (#[trigger] self.keys@[b])@ by {
                    if b == before.len() {
                        assert(self.keys@[a] == before[a]);
                    } else {
                        assert(self.keys@[a] == before[a]);
                        assert(self.keys@[b] == before[b]);
                    }
                }
                assert forall|key: Seq<char>|
                    index_from(self.keys@, key, 0) == if index_from(before, key, 0) < before.len() {
                        index_from(before, key, 0)
                    } else if key == uri@ {
                        before.len() as int
                    } else {
                        self.keys@.len() as int
                    } by {
                    lemma_index_from(before, key, 0);
                    let k = index_from(before, key, 0);
                    if k < before.len() {
                        assert forall|j: int| 0 <= j < k implies (#[trigger] self.keys@[j])@
                            != key by {
                            assert(self.keys@[j] == before[j]);
                        }
                        assert(self.keys@[k] == before[k]);
                        lemma_index_is(self.keys@, key, 0, k);
                    } else if key == uri@ {
                        assert forall|j: int| 0 <= j < before.len() implies (
                        #[trigger] self.keys@[j])@ != key by {
                            assert(self.keys@[j] == before[j]);
                        }
                        lemma_index_is(self.keys@, key, 0, before.len() as int);
                    } else {
                        assert forall|j: int| 0 <= j < self.keys@.len() implies (
                        #[trigger] self.keys@[j])@ != key by {
                            if j < before.len() {
                                assert(self.keys@[j] == before[j]);
                            }
                        }
                        lemma_index_is(self.keys@, key, 0, self.keys@.len() as int);
                    }
                }
                assert forall|key: Seq<char>| #[trigger]
                    self@.contains_key(key) == old(self)@.insert(uri@, value).contains_key(
                        key,
                    ) by {}
                assert forall|key: Seq<char>| #[trigger] self@.contains_key(key) implies self@[key]
                    == old(self)@.insert(uri@, value)[key] by {
                    lemma_index_from(before, key, 0);
                    let k = index_from(before, key, 0);
                    if key != uri@ {
                        assert(k < before.len());
                        assert(index_from(self.keys@, key, 0) == k);
                        assert(self.values@[k] == values_before[k]);
                    } else {
                        assert(index_from(self.keys@, key, 0) == before.len());
                    }
                }
                assert(self@ =~= old(self)@.insert(uri@, value));
            }
        }
    }

    /// The value held for `uri`, if there is one.
    pub fn get(&self, uri: &str) -> (found: Option<&V>)
        requires
            self.wf(),
        ensures
            match found {
                Some(value) => self@.contains_key(uri@) && *value == self@[uri@],
                None => !self@.contains_key(uri@),
            },
    {
        let i = self.position(uri);
        if i < self.keys.len() {
            Some(&self.values[i])
        } else {
            None
        }
    }
}

} // verus!
