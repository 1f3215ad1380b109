use vstd::prelude::*;
use vstd::std_specs::iter::IteratorSpec;

verus! {

broadcast use vstd::string::group_string_axioms;

/// Relies on String::push: appends one character at the end.
#[verifier::external_body]
pub(crate) fn push_char(s: &mut String, c: char)
    ensures
        final(s)@ == old(s)@.push(c),
{
    s.push(c);
}

/// The characters of a string slice, in order.
pub fn chars_of(s: &str) -> (r: Vec<char>)
    ensures
        r@ == s@,
{
    let mut out: Vec<char> = Vec::new();
    let mut it = s.chars();
    loop
        invariant
            out@ + it.remaining() == s@,
            it.decrease() is Some,
        ensures
            out@ == s@,
        decreases it.decrease()->0,
    {
        match it.next() {
            Some(c) => {
                out.push(c);
            },
            None => {
                assert(out@ =~= s@);
                break;
            },
        }
    }
    out
}

/// Characters with the Unicode White_Space property, as `char::is_whitespace` documents it.
pub open spec fn is_white(c: char) -> bool {
    ('\u{9}' <= c && c <= '\u{d}') || c == ' ' || c == '\u{85}' || c == '\u{a0}'
        || c == '\u{1680}' || ('\u{2000}' <= c && c <= '\u{200a}') || c == '\u{2028}'
        || c == '\u{2029}' || c == '\u{202f}' || c == '\u{205f}' || c == '\u{3000}'
}

pub fn is_whitespace(c: char) -> (r: bool)
    ensures
        r == is_white(c),
{
    ('\u{9}' <= c && c <= '\u{d}') || c == ' ' || c == '\u{85}' || c == '\u{a0}'
        || c == '\u{1680}' || ('\u{2000}' <= c && c <= '\u{200a}') || c == '\u{2028}'
        || c == '\u{2029}' || c == '\u{202f}' || c == '\u{205f}' || c == '\u{3000}'
}

/// `s` without its leading whitespace.
pub open spec fn trim_start(s: Seq<char>) -> Seq<char>
    decreases s.len(),
{
    if s.len() > 0 && is_white(s[0]) {
        trim_start(s.drop_first())
    } else {
        s
    }
}

/// `s` without its trailing whitespace.
pub open spec fn trim_end(s: Seq<char>) -> Seq<char>
    decreases s.len(),
{
    if s.len() > 0 && is_white(s.last()) {
        trim_end(s.drop_last())
    } else {
        s
    }
}

/// `s` without leading and trailing whitespace.
pub open spec fn trim(s: Seq<char>) -> Seq<char> {
    trim_end(trim_start(s))
}

/// The pieces of `s` between occurrences of `sep`; there is always at least one.
pub open spec fn split_on(s: Seq<char>, sep: char) -> Seq<Seq<char>>
    decreases s.len(),
{
    if s.len() == 0 {
        seq![Seq::<char>::empty()]
    } else {
        let rest = split_on(s.drop_last(), sep);
        if s.last() == sep {
            rest.push(Seq::<char>::empty())
        } else {
            rest.update(rest.len() - 1, rest.last().push(s.last()))
        }
    }
}

/// Index of the first occurrence of `c` in `s`.
pub open spec fn first_index(s: Seq<char>, c: char) -> Option<int>
    decreases s.len(),
{
    if s.len() == 0 {
        None
    } else if s[0] == c {
        Some(0)
    } else {
        match first_index(s.drop_first(), c) {
            Some(i) => Some(i + 1),
            None => None,
        }
    }
}

pub proof fn lemma_split_on_nonempty(s: Seq<char>, sep: char)
    ensures
        split_on(s, sep).len() >= 1,
    decreases s.len(),
{
    if s.len() > 0 {
        lemma_split_on_nonempty(s.drop_last(), sep);
    }
}

pub proof fn lemma_first_index(s: Seq<char>, c: char)
    ensures
        match first_index(s, c) {
            Some(i) => 0 <= i < s.len() && s[i] == c && forall|j: int| 0 <= j < i ==> s[j] != c,
            None => forall|j: int| 0 <= j < s.len() ==> s[j] != c,
        },
    decreases s.len(),
{
    if s.len() > 0 {
        lemma_first_index(s.drop_first(), c);
        if s[0] != c {
            match first_index(s.drop_first(), c) {
                Some(i) => {
                    assert forall|j: int| 0 <= j < i + 1 implies s[j] != c by {
                        if j > 0 {
                            assert(s[j] == s.drop_first()[j - 1]);
                        }
                    }
                },
                None => {
                    assert forall|j: int| 0 <= j < s.len() implies s[j] != c by {
                        if j > 0 {
                            assert(s[j] == s.drop_first()[j - 1]);
                        }
                    }
                },
            }
        }
    }
}

/// A string holding the characters `cs[from..to]`.
pub fn string_from(cs: &Vec<char>, from: usize, to: usize) -> (r: String)
    requires
        from <= to <= cs.len(),
    ensures
        r@ == cs@.subrange(from as int, to as int),
{
    let mut out = String::new();
    let mut i = from;
    while i < to
        invariant
            from <= i <= to <= cs.len(),
            out@ == cs@.subrange(from as int, i as int),
        decreases to - i,
    {
        push_char(&mut out, cs[i]);
        i = i + 1;
        assert(out@ =~= cs@.subrange(from as int, i as int));
    }
    out
}

/// Splits `s` at every occurrence of `sep`, as `str::split` with a char pattern does.
pub fn split_str(s: &str, sep: char) -> (r: Vec<String>)
    ensures
        r@.map_values(|p: String| p@) == split_on(s@, sep),
{
    let cs = chars_of(s);
    let mut done: Vec<String> = Vec::new();
    let mut cur = String::new();
    let mut i: usize = 0;
    while i < cs.len()
        invariant
            i <= cs.len(),
            cs@ == s@,
            done@.map_values(|p: String| p@).push(cur@) == split_on(cs@.take(i as int), sep),
        decreases cs.len() - i,
    {
        let c = cs[i];
        proof {
            let t = cs@.take(i as int + 1);
            assert(t.drop_last() =~= cs@.take(i as int));
            assert(t.last() == c);
        }
        if c == sep {
            let ghost before = done@;
            let piece = cur;
            done.push(piece);
            cur = String::new();
            assert(done@.map_values(|p: String| p@).push(cur@) =~= before.map_values(
                |p: String| p@,
            ).push(piece@).push(Seq::<char>::empty()));
        } else {
            let ghost before = cur@;
            push_char(&mut cur, c);
            assert(done@.map_values(|p: String| p@).push(cur@) =~= done@.map_values(
                |p: String| p@,
            ).push(before).update(done@.len() as int, before.push(c)));
        }
        i = i + 1;
    }
    assert(cs@.take(i as int) =~= s@);
    done.push(cur);
    assert(done@.map_values(|p: String| p@) =~= split_on(s@, sep));
    done
}

/// `s` with its leading and trailing whitespace removed.
pub fn trim_str(s: &str) -> (r: String)
    ensures
        r@ == trim(s@),
{
    let cs = chars_of(s);
    let mut lo: usize = 0;
    assert(cs@.subrange(0, cs.len() as int) =~= s@);
    while lo < cs.len() && is_whitespace(cs[lo])
        invariant
            lo <= cs.len(),
            cs@ == s@,
            trim_start(s@) == trim_start(cs@.subrange(lo as int, cs.len() as int)),
        decreases cs.len() - lo,
    {
        assert(cs@.subrange(lo as int, cs.len() as int).drop_first() =~= cs@.subrange(
            lo as int + 1,
            cs.len() as int,
        ));
        lo = lo + 1;
    }
    let mut hi: usize = cs.len();
    assert(trim_start(s@) == cs@.subrange(lo as int, hi as int));
    while hi > lo && is_whitespace(cs[hi - 1])
        invariant
            lo <= hi <= cs.len(),
            trim(s@) == trim_end(cs@.subrange(lo as int, hi as int)),
        decreases hi,
    {
        assert(cs@.subrange(lo as int, hi as int).drop_last() =~= cs@.subrange(
            lo as int,
            hi as int - 1,
        ));
        hi = hi - 1;
    }
    string_from(&cs, lo, hi)
}

/// Index of the first occurrence of `c` in `cs`.
pub fn find_char(cs: &Vec<char>, c: char) -> (r: Option<usize>)
    ensures
        match r {
            Some(i) => i < cs.len() && first_index(cs@, c) == Some(i as int),
            None => first_index(cs@, c) is None,
        },
{
    proof {
        lemma_first_index(cs@, c);
    }
    let mut i: usize = 0;
    while i < cs.len()
        invariant
            i <= cs.len(),
            forall|j: int| 0 <= j < i ==> cs@[j] != c,
        decreases cs.len() - i,
    {
        if cs[i] == c {
            proof {
                lemma_first_index(cs@, c);
                assert(cs@[i as int] == c);
                match first_index(cs@, c) {
                    Some(k) => {
                        if k < i {
                            assert(cs@[k] != c);
                        }
                        assert(k == i);
                    },
                    None => {
                        assert(cs@[i as int] != c);
                    },
                }
            }
            return Some(i);
        }
        i = i + 1;
    }
    None
}

/// The code of `c` after ASCII lowercasing.
pub open spec fn ascii_lower(c: char) -> u32 {
    if 'A' <= c && c <= 'Z' {
        (c as u32 + 32) as u32
    } else {
        c as u32
    }
}

/// Equality up to ASCII case, as `str::eq_ignore_ascii_case` compares.
pub open spec fn ascii_ci_eq(a: Seq<char>, b: Seq<char>) -> bool {
    a.len() == b.len() && forall|i: int| 0 <= i < a.len() ==> ascii_lower(a[i]) == ascii_lower(b[i])
}

fn lower_char(c: char) -> (r: u32)
    ensures
        r == ascii_lower(c),
{
    if 'A' <= c && c <= 'Z' {
        c as u32 + 32
    } else {
        c as u32
    }
}

/// Compares two strings up to ASCII case.
pub fn eq_ignore_ascii_case(a: &str, b: &str) -> (r: bool)
    ensures
        r == ascii_ci_eq(a@, b@),
{
    let x = chars_of(a);
    let y = chars_of(b);
    if x.len() != y.len() {
        return false;
    }
    let mut i: usize = 0;
    while i < x.len()
        invariant
            x@ == a@,
            y@ == b@,
            x.len() == y.len(),
            i <= x.len(),
            forall|j: int| 0 <= j < i ==> ascii_lower(x@[j]) == ascii_lower(y@[j]),
        decreases x.len() - i,
    {
        if lower_char(x[i]) != lower_char(y[i]) {
            return false;
        }
        i = i + 1;
    }
    true
}

/// Index of the last occurrence of `c` in `s`.
pub open spec fn last_index(s: Seq<char>, c: char) -> Option<int>
    decreases s.len(),
{
    if s.len() == 0 {
        None
    } else if s.last() == c {
        Some(s.len() - 1)
    } else {
        last_index(s.drop_last(), c)
    }
}

/// Index of the last occurrence of `c` in `cs`.
pub fn rfind_char(cs: &Vec<char>, c: char) -> (r: Option<usize>)
    ensures
        match r {
            Some(i) => i < cs.len() && last_index(cs@, c) == Some(i as int),
            None => last_index(cs@, c) is None,
        },
{
    let mut k: usize = cs.len();
    assert(cs@.take(k as int) =~= cs@);
    while k > 0
        invariant
            k <= cs.len(),
            last_index(cs@, c) == last_index(cs@.take(k as int), c),
        decreases k,
    {
        assert(cs@.take(k as int).drop_last() =~= cs@.take(k as int - 1));
        if cs[k - 1] == c {
            return Some(k - 1);
        }
        k = k - 1;
    }
    None
}

} // verus!
