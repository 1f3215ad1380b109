use vstd::prelude::*;

verus! {

/// The canonical tree that every supported format is normalised into.
#[derive(Debug)]
pub enum CanonicalValue {
    Null,
    Bool(bool),
    /// A number, held as its canonical decimal text.
    Number(String),
    String(String),
    Array(Vec<CanonicalValue>),
    /// Entries in insertion order; a well-formed object has unique keys.
    Object(Vec<(String, CanonicalValue)>),
}

/// The keys of a list of entries, in order.
pub open spec fn keys_of(entries: Seq<(String, CanonicalValue)>) -> Seq<Seq<char>> {
    entries.map_values(|e: (String, CanonicalValue)| e.0@)
}

/// No key occurs twice.
pub open spec fn distinct(keys: Seq<Seq<char>>) -> bool {
    forall|i: int, j: int| 0 <= i < j < keys.len() ==> #[trigger] keys[i] != #[trigger] keys[j]
}

pub open spec fn keys_unique(entries: Seq<(String, CanonicalValue)>) -> bool {
    forall|i: int, j: int|
        0 <= i < j < entries.len() ==> #[trigger] entries[i].0@ != #[trigger] entries[j].0@
}

impl CanonicalValue {
    /// Every object in the tree has unique keys.
    pub open spec fn wf(self) -> bool
        decreases self,
    {
        match self {
            CanonicalValue::Array(items) => forall|i: int|
                0 <= i < items.len() ==> (#[trigger] items@[i]).wf(),
            CanonicalValue::Object(entries) => keys_unique(entries@) && forall|i: int|
                0 <= i < entries.len() ==> (#[trigger] entries@[i]).1.wf(),
            _ => true,
        }
    }
}

/// The value stored under key `k`, found at the first entry with that key.
pub open spec fn lookup(entries: Seq<(String, CanonicalValue)>, k: Seq<char>) -> Option<CanonicalValue> {
    match keys_of(entries).index_of_first(k) {
        Some(i) => Some(entries[i].1),
        None => None,
    }
}

/// Position of the first entry whose key is `k`.
pub fn key_index(entries: &Vec<(String, CanonicalValue)>, k: &String) -> (r: Option<usize>)
    ensures
        match r {
            Some(i) => i < entries.len() && keys_of(entries@).index_of_first(k@) == Some(i as int),
            None => keys_of(entries@).index_of_first(k@) is None,
        },
{
    let ghost keys = keys_of(entries@);
    let mut i: usize = 0;
    while i < entries.len()
        invariant
            i <= entries.len(),
            keys == keys_of(entries@),
            forall|j: int| 0 <= j < i ==> keys[j] != k@,
        decreases entries.len() - i,
    {
        if entries[i].0 == *k {
            proof {
                keys.index_of_first_ensures(k@);
                assert(keys[i as int] == k@);
                match keys.index_of_first(k@) {
                    Some(p) => {
                        if p < i {
                            assert(keys[p] != k@);
                        }
                        if p > i {
                            assert(keys[i as int] != k@);
                        }
                    },
                    None => {},
                }
            }
            return Some(i);
        }
        i = i + 1;
    }
    proof {
        keys.index_of_first_ensures(k@);
        if keys.contains(k@) {
            let p = choose|p: int| 0 <= p < keys.len() && keys[p] == k@;
            assert(keys[p] != k@);
        }
    }
    None
}

/// The entries after storing `v` under `k`: an existing entry keeps its place and takes
/// the new value, a new key goes at the end.
pub open spec fn assigned(entries: Seq<(String, CanonicalValue)>, k: String, v: CanonicalValue) -> Seq<(String, CanonicalValue)> {
    match keys_of(entries).index_of_first(k@) {
        Some(i) => entries.update(i, (k, v)),
        None => entries.push((k, v)),
    }
}

pub proof fn lemma_assigned_keys_unique(entries: Seq<(String, CanonicalValue)>, k: String, v: CanonicalValue)
    requires
        keys_unique(entries),
    ensures
        keys_unique(assigned(entries, k, v)),
        keys_of(assigned(entries, k, v)) == match keys_of(entries).index_of_first(k@) {
            Some(i) => keys_of(entries),
            None => keys_of(entries).push(k@),
        },
{
    let keys = keys_of(entries);
    keys.index_of_first_ensures(k@);
    let r = assigned(entries, k, v);
    match keys.index_of_first(k@) {
        Some(i) => {
            assert(keys_of(r) =~= keys);
            assert forall|a: int, b: int| 0 <= a < b < r.len() implies #[trigger] r[a].0@
                != #[trigger] r[b].0@ by {
                assert(keys_of(r)[a] == r[a].0@);
                assert(keys_of(r)[b] == r[b].0@);
                assert(keys[a] == entries[a].0@);
                assert(keys[b] == entries[b].0@);
            }
        },
        None => {
            assert(keys_of(r) =~= keys.push(k@));
            assert forall|a: int, b: int| 0 <= a < b < r.len() implies #[trigger] r[a].0@
                != #[trigger] r[b].0@ by {
                if b == entries.len() {
                    assert(keys[a] == entries[a].0@);
                    assert(!keys.contains(k@));
                } else {
                    assert(r[a] == entries[a]);
                    assert(r[b] == entries[b]);
                }
            }
        },
    }
}

/// Stores `v` under `k`, replacing the value of an existing entry with that key.
pub fn assign(entries: &mut Vec<(String, CanonicalValue)>, k: String, v: CanonicalValue)
    ensures
        final(entries)@ == assigned(old(entries)@, k, v),
{
    match key_index(entries, &k) {
        Some(i) => {
            entries[i] = (k, v);
        },
        None => {
            entries.push((k, v));
        },
    }
}

/// Storing a well-formed value in a well-formed object keeps it well-formed.
pub proof fn lemma_assigned_wf(entries: Seq<(String, CanonicalValue)>, k: String, v: CanonicalValue)
    requires
        keys_unique(entries),
        forall|i: int| 0 <= i < entries.len() ==> (#[trigger] entries[i]).1.wf(),
        v.wf(),
    ensures
        keys_unique(assigned(entries, k, v)),
        forall|i: int|
            0 <= i < assigned(entries, k, v).len() ==> (#[trigger] assigned(entries, k, v)[i]).1.wf(),
{
    lemma_assigned_keys_unique(entries, k, v);
    keys_of(entries).index_of_first_ensures(k@);
}

} // verus!
