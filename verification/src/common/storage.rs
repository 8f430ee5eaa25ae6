//! Stored values: the name of the file each key is kept in, and a store
//! in memory that maps keys to values.

use vstd::prelude::*;
use crate::common::keyboard::id_index;
use crate::text::{chars_of, str_eq};

verus! {

broadcast use vstd::string::group_string_axioms;

/// The characters of a key that a file name cannot hold.
pub open spec fn unsafe_key_char(c: char) -> bool {
    c == '/' || c == '\\' || c == ':' || c == '*' || c == '?' || c == '"' || c == '<' || c == '>' || c == '|'
}

/// A key with each unsafe character replaced by `_`.
pub open spec fn sanitized_key(key: Seq<char>) -> Seq<char> {
    key.map_values(|c: char| if unsafe_key_char(c) { '_' } else { c })
}

/// The name of the file holding the value of `key`: the key, made safe,
/// with the `.json` extension.
pub fn storage_file_name(key: &str) -> (r: String)
    ensures
        r@ == sanitized_key(key@) + ".json"@,
{
    let cs = chars_of(key);
    let mut out = String::new();
    let mut i: usize = 0;
    while i < cs.len()
        invariant
            i <= cs@.len(),
            cs@ == key@,
            out@ == sanitized_key(cs@.take(i as int)),
        decreases cs@.len() - i,
    {
        let c = cs[i];
        let d = if c == '/' || c == '\\' || c == ':' || c == '*' || c == '?' || c == '"' || c == '<' || c == '>' || c == '|' {
            '_'
        } else {
            c
        };
        crate::text::push_char(&mut out, d);
        i += 1;
        assert(sanitized_key(cs@.take(i as int)) =~= sanitized_key(cs@.take(i - 1)).push(d));
    }
    assert(cs@.take(cs@.len() as int) =~= cs@);
    let ext = chars_of(".json");
    let mut j: usize = 0;
    let ghost base = out@;
    while j < ext.len()
        invariant
            j <= ext@.len(),
            ext@ == ".json"@,
            out@ == base + ext@.take(j as int),
        decreases ext@.len() - j,
    {
        crate::text::push_char(&mut out, ext[j]);
        j += 1;
        assert(base + ext@.take(j as int) =~= (base + ext@.take(j - 1)).push(ext@[j - 1]));
    }
    assert(ext@.take(ext@.len() as int) =~= ext@);
    out
}

/// Keys and values in memory: each key at most once, with its value.
pub struct MemoryStore {
    keys: Vec<String>,
    values: Vec<String>,
}

/// The index of a key that occurs once is where it stands.
proof fn lemma_index_at(keys: Seq<Seq<char>>, k: Seq<char>, j: int)
    requires
        keys.no_duplicates(),
        0 <= j < keys.len(),
        keys[j] == k,
    ensures
        id_index(keys, k) == Some(j),
{
    let i = choose|i: int| 0 <= i < keys.len() && keys[i] == k;
    assert(i == j);
}

impl MemoryStore {
    pub closed spec fn spec_keys(&self) -> Seq<Seq<char>> {
        self.keys@.map_values(|k: String| k@)
    }

    pub closed spec fn spec_values(&self) -> Seq<Seq<char>> {
        self.values@.map_values(|v: String| v@)
    }

    /// Each key is stored once, with one value.
    pub open spec fn wf(&self) -> bool {
        &&& self.spec_keys().no_duplicates()
        &&& self.spec_keys().len() == self.spec_values().len()
    }

    /// The value stored under `k`, if any.
    pub open spec fn stored(&self, k: Seq<char>) -> Option<Seq<char>> {
        match id_index(self.spec_keys(), k) {
            Some(i) => Some(self.spec_values()[i]),
            None => None,
        }
    }

    /// An empty store.
    pub fn new() -> (r: Self)
        ensures
            r.wf(),
            r.spec_keys().len() == 0,
            forall|k: Seq<char>| #[trigger] r.stored(k) is None,
    {
        let r = Self { keys: Vec::new(), values: Vec::new() };
        assert(r.spec_keys() =~= Seq::<Seq<char>>::empty());
        r
    }

    fn find(&self, key: &str) -> (r: Option<usize>)
        requires
            self.wf(),
        ensures
            match r {
                Some(i) => i < self.spec_keys().len() && id_index(self.spec_keys(), key@) == Some(i as int),
                None => id_index(self.spec_keys(), key@) is None,
            },
    {
        let mut i: usize = 0;
        while i < self.keys.len()
            invariant
                i <= self.keys@.len(),
                self.spec_keys().len() == self.keys@.len(),
                self.spec_keys().no_duplicates(),
                forall|j: int| 0 <= j < i ==> self.spec_keys()[j] != key@,
            decreases self.keys@.len() - i,
        {
            if str_eq(self.keys[i].as_str(), key) {
                proof {
                    lemma_index_at(self.spec_keys(), key@, i as int);
                }
                return Some(i);
            }
            i += 1;
        }
        None
    }

    /// The number of keys stored.
    pub fn len(&self) -> (r: usize)
        requires
            self.wf(),
        ensures
            r == self.spec_keys().len(),
    {
        self.keys.len()
    }

    /// The value stored under `key`, if any.
    pub fn get_item(&self, key: &str) -> (r: Option<String>)
        requires
            self.wf(),
        ensures
            match self.stored(key@) {
                Some(v) => r matches Some(s) && s@ == v,
                None => r is None,
            },
    {
        match self.find(key) {
            Some(i) => Some(self.values[i].clone()),
            None => None,
        }
    }

    /// Stores `value` under `key`, replacing what was there.
    pub fn set_item(&mut self, key: &str, value: &str)
        requires
            old(self).wf(),
        ensures
            final(self).wf(),
            forall|k: Seq<char>| #[trigger] final(self).stored(k) == if k == key@ { Some(value@) } else { old(self).stored(k) },
    {
        let ghost k0 = self.spec_keys();
        let ghost v0 = self.spec_values();
        match self.find(key) {
            Some(i) => {
                self.values.set(i, value.to_string());
                proof {
                    assert(self.spec_keys() =~= k0);
                    assert(self.spec_values() =~= v0.update(i as int, value@));
                    assert forall|k: Seq<char>| #[trigger] self.stored(k) == if k == key@ { Some(value@) } else { old(self).stored(k) } by {
                        if k != key@ {
                            match id_index(k0, k) {
                                Some(j) => {
                                    assert(k0[j] == k);
                                    assert(j != i);
                                },
                                None => {},
                            }
                        }
                    }
                }
            },
            None => {
                self.keys.push(key.to_string());
                self.values.push(value.to_string());
                proof {
                    let n = k0.len() as int;
                    assert(self.spec_keys() =~= k0.push(key@));
                    assert(self.spec_values() =~= v0.push(value@));
                    assert forall|a: int, b: int| 0 <= a < b < self.spec_keys().len() implies self.spec_keys()[a] != self.spec_keys()[b] by {
                        if b == n {
                            if k0[a] == key@ {
                                assert(k0.contains(key@));
                            }
                        }
                    }
                    assert forall|k: Seq<char>| #[trigger] self.stored(k) == if k == key@ { Some(value@) } else { old(self).stored(k) } by {
                        if k == key@ {
                            lemma_index_at(self.spec_keys(), k, n);
                        } else {
                            match id_index(k0, k) {
                                Some(j) => {
                                    assert(k0[j] == k);
                                    lemma_index_at(self.spec_keys(), k, j);
                                },
                                None => {
                                    if exists|j: int| 0 <= j < self.spec_keys().len() && self.spec_keys()[j] == k {
                                        let j = choose|j: int| 0 <= j < self.spec_keys().len() && self.spec_keys()[j] == k;
                                        assert(j < n);
                                        assert(k0[j] == k);
                                    }
                                },
                            }
                        }
                    }
                }
            },
        }
    }

    /// Forgets the value under `key`.
    pub fn remove_item(&mut self, key: &str)
        requires
            old(self).wf(),
        ensures
            final(self).wf(),
            forall|k: Seq<char>| #[trigger] final(self).stored(k) == if k == key@ { None } else { old(self).stored(k) },
    {
        let ghost k0 = self.spec_keys();
        let ghost v0 = self.spec_values();
        match self.find(key) {
            Some(i) => {
                let _ = self.keys.remove(i);
                let _ = self.values.remove(i);
                proof {
                    assert(self.spec_keys() =~= k0.remove(i as int));
                    assert(self.spec_values() =~= v0.remove(i as int));
                    assert forall|a: int, b: int| 0 <= a < b < self.spec_keys().len() implies self.spec_keys()[a] != self.spec_keys()[b] by {
                        let a0 = if a < i { a } else { a + 1 };
                        let b0 = if b < i { b } else { b + 1 };
                        assert(self.spec_keys()[a] == k0[a0]);
                        assert(self.spec_keys()[b] == k0[b0]);
                    }
                    assert forall|k: Seq<char>| #[trigger] self.stored(k) == if k == key@ { None } else { old(self).stored(k) } by {
                        if exists|j: int| 0 <= j < self.spec_keys().len() && self.spec_keys()[j] == k {
                            let j = choose|j: int| 0 <= j < self.spec_keys().len() && self.spec_keys()[j] == k;
                            let j0 = if j < i { j } else { j + 1 };
                            assert(k0[j0] == k);
                            lemma_index_at(self.spec_keys(), k, j);
                            lemma_index_at(k0, k, j0);
                            if k == key@ {
                                assert(j0 == i);
                            }
                        } else {
                            if k != key@ {
                                match id_index(k0, k) {
                                    Some(j0) => {
                                        assert(k0[j0] == k);
                                        assert(j0 != i);
                                        let j = if j0 < i { j0 } else { j0 - 1 };
                                        assert(self.spec_keys()[j] == k);
                                    },
                                    None => {},
                                }
                            }
                        }
                    }
                }
            },
            None => {},
        }
    }

    /// Forgets every value.
    pub fn clear(&mut self)
        ensures
            final(self).wf(),
            forall|k: Seq<char>| #[trigger] final(self).stored(k) is None,
    {
        self.keys.clear();
        self.values.clear();
        assert(self.spec_keys() =~= Seq::<Seq<char>>::empty());
        assert(self.spec_values() =~= Seq::<Seq<char>>::empty());
    }
}

/// Removing a key right after storing it under a key that held nothing
/// leaves a store that reads as the one before.
pub proof fn lemma_set_then_remove(a: &MemoryStore, b: &MemoryStore, c: &MemoryStore, key: Seq<char>, value: Seq<char>)
    requires
        a.stored(key) is None,
        forall|k: Seq<char>| #[trigger] b.stored(k) == if k == key { Some(value) } else { a.stored(k) },
        forall|k: Seq<char>| #[trigger] c.stored(k) == if k == key { None } else { b.stored(k) },
    ensures
        forall|k: Seq<char>| #[trigger] c.stored(k) == a.stored(k),
{
    assert forall|k: Seq<char>| #[trigger] c.stored(k) == a.stored(k) by {
        assert(b.stored(k) == if k == key { Some(value) } else { a.stored(k) });
    }
}

} // verus!
