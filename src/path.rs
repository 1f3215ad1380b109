use vstd::prelude::*;

use crate::number::{index_of, parse_index, unsigned_text};
use crate::text::{split_on, split_str};
use crate::value::{key_index, keys_of, lookup, CanonicalValue};

verus! {

/// Why a dotted path could not be followed.
#[derive(Debug)]
pub enum PathError {
    /// A mapping has no entry with this key.
    KeyNotFound { segment: String, path: String },
    /// A sequence was addressed with a segment that is no index.
    NonNumericIndex { segment: String, path: String },
    /// A sequence was addressed past its end.
    IndexOutOfBounds { index: usize, len: usize, path: String },
    /// A segment was applied to a scalar; `parent` is the path up to it.
    ScalarTraversal { parent: String, segment: String },
}

/// The result of following a path: the value reached, or where and why it stopped.
pub enum Walk {
    Found(CanonicalValue),
    KeyNotFound(Seq<char>, Seq<char>),
    NonNumericIndex(Seq<char>, Seq<char>),
    IndexOutOfBounds(nat, nat, Seq<char>),
    ScalarTraversal(Seq<char>, Seq<char>),
}

impl PathError {
    pub open spec fn walk(self) -> Walk {
        match self {
            PathError::KeyNotFound { segment, path } => Walk::KeyNotFound(segment@, path@),
            PathError::NonNumericIndex { segment, path } => Walk::NonNumericIndex(
                segment@,
                path@,
            ),
            PathError::IndexOutOfBounds { index, len, path } => Walk::IndexOutOfBounds(
                index as nat,
                len as nat,
                path@,
            ),
            PathError::ScalarTraversal { parent, segment } => Walk::ScalarTraversal(
                parent@,
                segment@,
            ),
        }
    }

    pub open spec fn message_spec(self) -> Seq<char> {
        match self {
            PathError::KeyNotFound { segment, path } => "Key not found: '"@ + segment@
                + "' (at path '"@ + path@ + "')"@,
            PathError::NonNumericIndex { segment, path } =>
                "Expected numeric index for array access, got '"@ + segment@ + "' (at path '"@
                + path@ + "')"@,
            PathError::IndexOutOfBounds { index, len, path } => "Array index "@
                + crate::number::decimal(index as nat) + " out of bounds (length "@
                + crate::number::decimal(len as nat) + ") at path '"@ + path@ + "'"@,
            PathError::ScalarTraversal { parent, segment } =>
                "Cannot traverse into a scalar value at '"@ + parent@ + "' (trying to access '"@
                + segment@ + "')"@,
        }
    }

    /// The human-readable description of the failure.
    pub fn message(&self) -> (r: String)
        ensures
            r@ == self.message_spec(),
    {
        match self {
            PathError::KeyNotFound { segment, path } => {
                let mut m = String::from_str("Key not found: '");
                m.append(segment.as_str());
                m.append("' (at path '");
                m.append(path.as_str());
                m.append("')");
                m
            },
            PathError::NonNumericIndex { segment, path } => {
                let mut m = String::from_str("Expected numeric index for array access, got '");
                m.append(segment.as_str());
                m.append("' (at path '");
                m.append(path.as_str());
                m.append("')");
                m
            },
            PathError::IndexOutOfBounds { index, len, path } => {
                let mut m = String::from_str("Array index ");
                m.append(unsigned_text(*index as u64).as_str());
                m.append(" out of bounds (length ");
                m.append(unsigned_text(*len as u64).as_str());
                m.append(") at path '");
                m.append(path.as_str());
                m.append("'");
                m
            },
            PathError::ScalarTraversal { parent, segment } => {
                let mut m = String::from_str("Cannot traverse into a scalar value at '");
                m.append(parent.as_str());
                m.append("' (trying to access '");
                m.append(segment.as_str());
                m.append("')");
                m
            },
        }
    }
}

/// The segments joined back with dots.
pub open spec fn join_dots(segs: Seq<Seq<char>>) -> Seq<char>
    decreases segs.len(),
{
    if segs.len() == 0 {
        Seq::empty()
    } else if segs.len() == 1 {
        segs[0]
    } else {
        join_dots(segs.drop_last()).push('.') + segs.last()
    }
}

/// Follows `segs[i..]` from `v`.
pub open spec fn walk(v: CanonicalValue, segs: Seq<Seq<char>>, i: nat) -> Walk
    decreases segs.len() - i,
{
    if i >= segs.len() {
        Walk::Found(v)
    } else {
        let seg = segs[i as int];
        let here = join_dots(segs.take(i + 1 as int));
        match v {
            CanonicalValue::Object(entries) => match lookup(entries@, seg) {
                Some(child) => walk(child, segs, i + 1),
                None => Walk::KeyNotFound(seg, here),
            },
            CanonicalValue::Array(items) => match index_of(seg) {
                Some(n) => if n < items.len() {
                    walk(items@[n as int], segs, i + 1)
                } else {
                    Walk::IndexOutOfBounds(n, items.len() as nat, here)
                },
                None => Walk::NonNumericIndex(seg, here),
            },
            _ => Walk::ScalarTraversal(join_dots(segs.take(i as int)), seg),
        }
    }
}

/// Following the dotted path `path` from `root`.
pub open spec fn resolve(root: CanonicalValue, path: Seq<char>) -> Walk {
    walk(root, split_on(path, '.'), 0)
}

/// Follows the dot-separated `path` from `root`, reading each segment as a key in a
/// mapping and as a decimal index in a sequence.
pub fn resolve_path<'a>(value: &'a CanonicalValue, dotted_path: &str) -> (r: Result<&'a CanonicalValue, PathError>)
    ensures
        match r {
            Ok(x) => resolve(*value, dotted_path@) == Walk::Found(*x),
            Err(e) => resolve(*value, dotted_path@) == e.walk(),
        },
{
    let segments = split_str(dotted_path, '.');
    let ghost segs = segments@.map_values(|p: String| p@);
    let mut current: &'a CanonicalValue = value;
    let mut so_far = String::new();
    let mut i: usize = 0;
    while i < segments.len()
        invariant
            i <= segments.len(),
            segs == segments@.map_values(|p: String| p@),
            segs == split_on(dotted_path@, '.'),
            walk(*value, segs, 0) == walk(*current, segs, i as nat),
            so_far@ == join_dots(segs.take(i as int)),
        decreases segments.len() - i,
    {
        let segment = &segments[i];
        let mut here = so_far.clone();
        if i > 0 {
            here.append(".");
        }
        here.append(segment.as_str());
        proof {
            let t = segs.take(i as int + 1);
            assert(t.drop_last() =~= segs.take(i as int));
            assert(t.last() == segment@);
            reveal_strlit(".");
            assert(join_dots(t.drop_last()).push('.') =~= join_dots(t.drop_last()) + "."@);
            assert(here@ =~= join_dots(t));
        }
        match current {
            CanonicalValue::Object(entries) => {
                match key_index(entries, segment) {
                    Some(j) => {
                        current = &entries[j].1;
                    },
                    None => {
                        return Err(PathError::KeyNotFound { segment: segment.clone(), path: here });
                    },
                }
            },
            CanonicalValue::Array(items) => {
                match parse_index(segment.as_str()) {
                    Some(index) => {
                        if index < items.len() {
                            current = &items[index];
                        } else {
                            return Err(
                                PathError::IndexOutOfBounds { index, len: items.len(), path: here },
                            );
                        }
                    },
                    None => {
                        return Err(
                            PathError::NonNumericIndex { segment: segment.clone(), path: here },
                        );
                    },
                }
            },
            _ => {
                return Err(
                    PathError::ScalarTraversal { parent: so_far, segment: segment.clone() },
                );
            },
        }
        so_far = here;
        i = i + 1;
    }
    Ok(current)
}

/// A text without `.` is a single path segment.
pub proof fn lemma_split_without_dot(s: Seq<char>)
    requires
        !s.contains('.'),
    ensures
        split_on(s, '.') == seq![s],
    decreases s.len(),
{
    if s.len() > 0 {
        assert(!s.drop_last().contains('.')) by {
            if s.drop_last().contains('.') {
                let k = choose|k: int| 0 <= k < s.drop_last().len() && s.drop_last()[k] == '.';
                assert(s[k] == '.');
            }
        }
        lemma_split_without_dot(s.drop_last());
        assert(s[s.len() - 1] != '.');
        assert(s.drop_last().push(s.last()) =~= s);
    } else {
        assert(s =~= Seq::<char>::empty());
    }
}

/// The decimal text of a number reads back as that index.
pub proof fn lemma_index_of_decimal(n: nat)
    requires
        n <= usize::MAX,
    ensures
        index_of(crate::number::decimal(n)) == Some(n),
        !crate::number::decimal(n).contains('.'),
{
    lemma_decimal_digits(n);
    let d = crate::number::decimal(n);
    assert(d[0] != '+');
    assert(!d.contains('.')) by {
        if d.contains('.') {
            let k = choose|k: int| 0 <= k < d.len() && d[k] == '.';
            assert(crate::number::is_digit(d[k]));
        }
    }
}

proof fn lemma_decimal_digits(n: nat)
    ensures
        crate::number::decimal(n).len() > 0,
        crate::number::all_digits(crate::number::decimal(n)),
        crate::number::digits_value(crate::number::decimal(n)) == n,
    decreases n,
{
    let d = crate::number::decimal(n);
    assert(crate::number::digit_value(crate::number::digit_char(n % 10)) == n % 10);
    assert(crate::number::is_digit(crate::number::digit_char(n % 10)));
    if n < 10 {
        assert(d.drop_last() =~= Seq::<char>::empty());
        assert(n % 10 == n);
        assert(d.last() == crate::number::digit_char(n));
        assert(crate::number::digits_value(Seq::<char>::empty()) == 0);
    } else {
        assert(n == (n / 10) * 10 + n % 10);
        assert(d.last() == crate::number::digit_char(n % 10));
        lemma_decimal_digits(n / 10);
        assert(d.drop_last() =~= crate::number::decimal(n / 10));
        let prev = crate::number::decimal(n / 10);
        assert forall|i: int| 0 <= i < d.len() implies crate::number::is_digit(#[trigger] d[i]) by {
            if i < prev.len() {
                assert(d[i] == prev[i]);
            }
        }
    }
}

/// In a mapping with unique keys, the path made of one key without a dot leads to the
/// value stored under that key.
pub proof fn lemma_resolve_mapping_key(entries: Vec<(String, CanonicalValue)>, j: int)
    requires
        CanonicalValue::Object(entries).wf(),
        0 <= j < entries.len(),
        !entries@[j].0@.contains('.'),
    ensures
        resolve(CanonicalValue::Object(entries), entries@[j].0@) == Walk::Found(entries@[j].1),
{
    let k = entries@[j].0@;
    lemma_split_without_dot(k);
    keys_of(entries@).index_of_first_ensures(k);
    assert(keys_of(entries@)[j] == k);
    match keys_of(entries@).index_of_first(k) {
        Some(p) => {
            if p != j {
                if p < j {
                    assert(entries@[p].0@ != entries@[j].0@);
                } else {
                    assert(entries@[j].0@ != entries@[p].0@);
                }
            }
        },
        None => {},
    }
    let segs = split_on(k, '.');
    assert(walk(entries@[j].1, segs, 1) == Walk::Found(entries@[j].1));
}

/// In a sequence, the decimal index `i` leads to its `i`-th element when `i` is in
/// range, and past the end fails with the sequence's true length.
pub proof fn lemma_resolve_sequence_index(items: Vec<CanonicalValue>, i: nat)
    requires
        i <= usize::MAX,
    ensures
        i < items.len() ==> resolve(CanonicalValue::Array(items), crate::number::decimal(i))
            == Walk::Found(items@[i as int]),
        i >= items.len() ==> resolve(CanonicalValue::Array(items), crate::number::decimal(i))
            == Walk::IndexOutOfBounds(i, items.len() as nat, crate::number::decimal(i)),
{
    let d = crate::number::decimal(i);
    lemma_index_of_decimal(i);
    lemma_split_without_dot(d);
    let segs = split_on(d, '.');
    assert(segs.take(1) =~= segs);
    if i < items.len() {
        assert(walk(items@[i as int], segs, 1) == Walk::Found(items@[i as int]));
    }
}

/// Any path applied to a scalar fails at once, naming an empty parent path and the
/// first segment.
pub proof fn lemma_resolve_scalar_root(v: CanonicalValue, path: Seq<char>)
    requires
        !(v is Array || v is Object),
    ensures
        resolve(v, path) == Walk::ScalarTraversal(Seq::empty(), split_on(path, '.')[0]),
{
    crate::text::lemma_split_on_nonempty(path, '.');
    assert(split_on(path, '.').take(0) =~= Seq::<Seq<char>>::empty());
}

/// Resolving a path depends on the tree and the path alone: two resolutions of the
/// same path against the same tree agree.
pub proof fn lemma_resolve_idempotent(v: CanonicalValue, path: Seq<char>, first: Walk, second: Walk)
    requires
        first == resolve(v, path),
        second == resolve(v, path),
    ensures
        first == second,
{
}

} // verus!
