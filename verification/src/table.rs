//! A table from names to texts, with the lookup and insertion of a map:
//! template properties, property definitions and tags.
use vstd::prelude::*;
use vstd::string::StringSliceAdditionalSpecFns;

verus! {

/// Entries as mathematical values.
pub type SpecEntries = Seq<(Seq<char>, Seq<char>)>;

/// The texts of a list of entries.
pub open spec fn entries_view(v: Seq<(String, String)>) -> SpecEntries {
    Seq::new(v.len(), |i: int| (v[i].0@, v[i].1@))
}

/// The first index at or after `i` whose entry has the key `k`.
pub open spec fn index_of_key(m: SpecEntries, k: Seq<char>, i: int) -> Option<int>
    decreases m.len() - i,
{
    if i < 0 || i >= m.len() {
        None
    } else if m[i].0 == k {
        Some(i)
    } else {
        index_of_key(m, k, i + 1)
    }
}

/// The text under key `k`: that of the first entry with that key.
pub open spec fn table_get(m: SpecEntries, k: Seq<char>) -> Option<Seq<char>> {
    match index_of_key(m, k, 0) {
        Some(i) => Some(m[i].1),
        None => None,
    }
}

/// The entries after setting key `k` to `v`: the entry with that key is
/// replaced in place, or a new entry goes at the end.
pub open spec fn table_insert(m: SpecEntries, k: Seq<char>, v: Seq<char>) -> SpecEntries {
    match index_of_key(m, k, 0) {
        Some(i) => m.update(i, (k, v)),
        None => m.push((k, v)),
    }
}

pub proof fn lemma_index_of_key(m: SpecEntries, k: Seq<char>, i: int)
    requires
        0 <= i,
    ensures
        index_of_key(m, k, i) matches Some(j) ==> i <= j < m.len() && m[j].0 == k && forall|l: int|
            i <= l < j ==> m[l].0 != k,
        index_of_key(m, k, i) is None ==> forall|l: int| i <= l < m.len() ==> m[l].0 != k,
    decreases m.len() - i,
{
    if i < m.len() && m[i].0 != k {
        lemma_index_of_key(m, k, i + 1);
    }
}

/// Whether two texts are the same.
pub fn str_eq(a: &str, b: &str) -> (r: bool)
    ensures
        r == (a@ == b@),
{
    let x = a.as_bytes();
    let y = b.as_bytes();
    proof {
        vstd::utf8::encode_utf8_decode_utf8(a@);
        vstd::utf8::encode_utf8_decode_utf8(b@);
    }
    if x.len() != y.len() {
        return false;
    }
    let mut i: usize = 0;
    while i < x.len()
        invariant
            x@.len() == y@.len(),
            x@ == a.spec_bytes(),
            y@ == b.spec_bytes(),
            0 <= i <= x@.len(),
            forall|j: int| 0 <= j < i ==> x@[j] == y@[j],
        decreases x@.len() - i,
    {
        if x[i] != y[i] {
            return false;
        }
        i = i + 1;
    }
    assert(x@ =~= y@);
    true
}

/// A table from names to texts.
#[derive(Debug, Clone, PartialEq, Default)]
pub struct StringMap {
    pub entries: Vec<(String, String)>,
}

impl View for StringMap {
    type V = SpecEntries;

    open spec fn view(&self) -> SpecEntries {
        entries_view(self.entries@)
    }
}

impl StringMap {
    /// An empty table.
    pub fn new() -> (r: StringMap)
        ensures
            r@ == Seq::<(Seq<char>, Seq<char>)>::empty(),
    {
        let r = StringMap { entries: Vec::new() };
        assert(r@ =~= Seq::<(Seq<char>, Seq<char>)>::empty());
        r
    }

    /// The index of the entry with key `k`.
    pub fn position(&self, k: &str) -> (r: Option<usize>)
        ensures
            r matches Some(i) ==> index_of_key(self@, k@, 0) == Some(i as int) && i < self@.len(),
            r is None ==> index_of_key(self@, k@, 0) is None,
    {
        proof {
            lemma_index_of_key(self@, k@, 0);
        }
        let mut i: usize = 0;
        while i < self.entries.len()
            invariant
                0 <= i <= self.entries@.len(),
                index_of_key(self@, k@, i as int) == index_of_key(self@, k@, 0),
            decreases self.entries@.len() - i,
        {
            if str_eq(self.entries[i].0.as_str(), k) {
                return Some(i);
            }
            i = i + 1;
        }
        None
    }

    /// The text under key `k`.
    pub fn get(&self, k: &str) -> (r: Option<&String>)
        ensures
            r matches Some(v) ==> table_get(self@, k@) == Some(v@),
            r is None ==> table_get(self@, k@) is None,
    {
        match self.position(k) {
            Some(i) => Some(&self.entries[i].1),
            None => None,
        }
    }

    /// Sets key `k` to `v`, replacing the text that was there.
    pub fn insert(&mut self, k: String, v: String)
        ensures
            final(self)@ == table_insert(old(self)@, k@, v@),
    {
        match self.position(k.as_str()) {
            Some(i) => {
                let ghost kv = k@;
                let ghost vv = v@;
                self.entries.set(i, (k, v));
                assert(self@ =~= table_insert(old(self)@, kv, vv));
            },
            None => {
                let ghost kv = k@;
                let ghost vv = v@;
                self.entries.push((k, v));
                assert(self@ =~= table_insert(old(self)@, kv, vv));
            },
        }
    }

    /// Sets key `k` to `v` unless the key is there already.
    pub fn try_insert(&mut self, k: String, v: String)
        ensures
            table_get(old(self)@, k@) is Some ==> final(self)@ == old(self)@,
            table_get(old(self)@, k@) is None ==> final(self)@ == table_insert(old(self)@, k@, v@),
    {
        if self.position(k.as_str()).is_none() {
            self.insert(k, v);
        }
    }

    /// The number of entries.
    pub fn len(&self) -> (r: usize)
        ensures
            r == self@.len(),
    {
        self.entries.len()
    }
}

/// A value that was set is what a lookup of its key gives, and setting one
/// key leaves every other key as it was.
pub proof fn law_get_after_insert(m: SpecEntries, k: Seq<char>, v: Seq<char>, other: Seq<char>)
    requires
        other != k,
    ensures
        table_get(table_insert(m, k, v), k) == Some(v),
        table_get(table_insert(m, k, v), other) == table_get(m, other),
{
    let n = table_insert(m, k, v);
    lemma_index_of_key(m, k, 0);
    lemma_index_of_key(n, k, 0);
    lemma_index_of_key(m, other, 0);
    lemma_index_of_key(n, other, 0);
    match index_of_key(m, k, 0) {
        Some(i) => {
            assert(n[i].0 == k);
            if let Some(j) = index_of_key(n, k, 0) {
                if j < i {
                    assert(n[j] == m[j]);
                }
            }
        },
        None => {
            assert(n[m.len() as int].0 == k);
            if let Some(j) = index_of_key(n, k, 0) {
                if j < m.len() {
                    assert(n[j] == m[j]);
                }
            }
        },
    }
    match index_of_key(m, other, 0) {
        Some(i) => {
            assert(n[i] == m[i] || n[i].0 == k);
        },
        None => {},
    }
    if let Some(j) = index_of_key(n, other, 0) {
        assert(j < m.len() ==> n[j] == m[j] || n[j].0 == k);
    }
}

} // verus!
