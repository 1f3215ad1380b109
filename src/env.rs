use vstd::prelude::*;

use crate::number::{integer_of, integer_text, parse_integer, signed_decimal};
use crate::float::{float_literal, is_float_literal};
use crate::outside::{float_number_text, float_text};
use crate::text::{
    ascii_ci_eq, chars_of, eq_ignore_ascii_case, find_char, first_index, split_on, split_str,
    string_from, trim, trim_str,
};
use crate::value::{assign, assigned, keys_of, keys_unique, lemma_assigned_keys_unique, CanonicalValue};

verus! {

/// The lines of `content`, each without surrounding whitespace; a line ends at `\n`,
/// and a `\r` before it is whitespace.
pub open spec fn trimmed_lines(content: Seq<char>) -> Seq<Seq<char>> {
    split_on(content, '\n').map_values(|l: Seq<char>| trim(l))
}

/// A trimmed line that the ENV format reads: not empty and no `#` comment.
pub open spec fn is_setting_line(t: Seq<char>) -> bool {
    t.len() > 0 && t[0] != '#'
}

pub open spec fn is_key_char(c: char) -> bool {
    ('a' <= c && c <= 'z') || ('A' <= c && c <= 'Z') || ('0' <= c && c <= '9') || c == '_'
}

/// The line holds a `=` whose left side is a non-empty run of ASCII letters, digits
/// and underscores.
pub open spec fn is_env_assignment(t: Seq<char>) -> bool {
    match first_index(t, '=') {
        Some(p) => p > 0 && forall|i: int| 0 <= i < p ==> is_key_char(#[trigger] t[i]),
        None => false,
    }
}

/// Content looks like ENV text: it has a setting line, and every setting line is an
/// assignment.
pub open spec fn looks_like_env(content: Seq<char>) -> bool {
    let ls = trimmed_lines(content);
    &&& exists|i: int| 0 <= i < ls.len() && is_setting_line(#[trigger] ls[i])
    &&& forall|i: int|
        0 <= i < ls.len() && is_setting_line(#[trigger] ls[i]) ==> is_env_assignment(ls[i])
}

/// Whether `cs[..p]` is a non-empty run of key characters.
fn is_key(cs: &Vec<char>, p: usize) -> (r: bool)
    requires
        p <= cs.len(),
    ensures
        r == (p > 0 && forall|i: int| 0 <= i < p ==> is_key_char(#[trigger] cs@[i])),
{
    if p == 0 {
        return false;
    }
    let mut i: usize = 0;
    while i < p
        invariant
            i <= p <= cs.len(),
            forall|j: int| 0 <= j < i ==> is_key_char(#[trigger] cs@[j]),
        decreases p - i,
    {
        let c = cs[i];
        if !(('a' <= c && c <= 'z') || ('A' <= c && c <= 'Z') || ('0' <= c && c <= '9') || c
            == '_') {
            assert(!is_key_char(cs@[i as int]));
            return false;
        }
        i = i + 1;
    }
    true
}

/// Whether the content reads as ENV text: every non-empty line that is not a `#`
/// comment is a `KEY=...` assignment with a key of ASCII letters, digits and
/// underscores, and there is at least one such line.
pub fn looks_like_env_format(content: &str) -> (r: bool)
    ensures
        r == looks_like_env(content@),
{
    let lines = split_str(content, '\n');
    let ghost ls = trimmed_lines(content@);
    let mut seen = false;
    let mut i: usize = 0;
    while i < lines.len()
        invariant
            i <= lines.len(),
            ls == trimmed_lines(content@),
            ls.len() == lines.len(),
            forall|j: int| 0 <= j < lines.len() ==> ls[j] == trim(#[trigger] lines@[j]@),
            seen == exists|j: int| 0 <= j < i && is_setting_line(#[trigger] ls[j]),
            forall|j: int| 0 <= j < i && is_setting_line(#[trigger] ls[j]) ==> is_env_assignment(ls[j]),
        decreases lines.len() - i,
    {
        let t = trim_str(lines[i].as_str());
        let cs = chars_of(t.as_str());
        assert(cs@ == ls[i as int]);
        if cs.len() > 0 && cs[0] != '#' {
            match find_char(&cs, '=') {
                Some(p) => {
                    if !is_key(&cs, p) {
                        return false;
                    }
                },
                None => {
                    return false;
                },
            }
            seen = true;
        }
        i = i + 1;
    }
    seen
}

/// The value text with one layer of matching double or single quotes removed.
pub open spec fn unquote(v: Seq<char>) -> Seq<char> {
    if v.len() >= 2 && ((v[0] == '"' && v.last() == '"') || (v[0] == '\'' && v.last() == '\'')) {
        v.subrange(1, v.len() - 1)
    } else {
        v
    }
}

/// The key and value text of a trimmed ENV line; `None` for a line that is skipped.
pub open spec fn env_pair(t: Seq<char>) -> Option<(Seq<char>, Seq<char>)> {
    if is_setting_line(t) {
        match first_index(t, '=') {
            Some(p) => Some((trim(t.take(p)), unquote(trim(t.skip(p + 1))))),
            None => None,
        }
    } else {
        None
    }
}

/// Key/value pairs after setting `v` under `k`: a repeated key keeps its place and
/// takes the later value.
pub open spec fn set_pair(pairs: Seq<(Seq<char>, Seq<char>)>, k: Seq<char>, v: Seq<char>) -> Seq<
    (Seq<char>, Seq<char>),
> {
    match pairs.map_values(|p: (Seq<char>, Seq<char>)| p.0).index_of_first(k) {
        Some(i) => pairs.update(i, (k, v)),
        None => pairs.push((k, v)),
    }
}

/// The settings of the trimmed lines `ls`, in order of first appearance.
pub open spec fn env_pairs(ls: Seq<Seq<char>>) -> Seq<(Seq<char>, Seq<char>)>
    decreases ls.len(),
{
    if ls.len() == 0 {
        Seq::empty()
    } else {
        let prev = env_pairs(ls.drop_last());
        match env_pair(ls.last()) {
            Some(kv) => set_pair(prev, kv.0, kv.1),
            None => prev,
        }
    }
}

/// `v` is what the ENV format makes of the value text `t`: a 64-bit integer, else a
/// float (zero where it is not finite), else a boolean in any ASCII case, else the text.
pub open spec fn coerced(v: CanonicalValue, t: Seq<char>) -> bool {
    if integer_of(t) is Some {
        v matches CanonicalValue::Number(x) && x@ == signed_decimal(integer_of(t)->0)
    } else if float_literal(t) {
        v matches CanonicalValue::Number(x) && x@ == match float_text(t) {
            Some(f) => f,
            None => seq!['0'],
        }
    } else if ascii_ci_eq(t, "true"@) {
        v == CanonicalValue::Bool(true)
    } else if ascii_ci_eq(t, "false"@) {
        v == CanonicalValue::Bool(false)
    } else {
        v matches CanonicalValue::String(x) && x@ == t
    }
}

/// `v` is the mapping that the ENV text `content` describes: one entry per distinct key,
/// in order of first appearance, holding the value of the key's last setting.
pub open spec fn env_document(v: CanonicalValue, content: Seq<char>) -> bool {
    v matches CanonicalValue::Object(entries) && {
        let pairs = env_pairs(trimmed_lines(content));
        &&& keys_of(entries@) == pairs.map_values(|p: (Seq<char>, Seq<char>)| p.0)
        &&& forall|j: int| 0 <= j < entries.len() ==> coerced(#[trigger] entries@[j].1, pairs[j].1)
    }
}

/// The typed value of an ENV value text.
pub fn coerce_env_value(t: &str) -> (r: CanonicalValue)
    ensures
        coerced(r, t@),
{
    match parse_integer(t) {
        Some(n) => CanonicalValue::Number(integer_text(n)),
        None => {
            if is_float_literal(t) {
                match float_number_text(t) {
                    Some(x) => CanonicalValue::Number(x),
                    None => {
                        let mut zero = String::new();
                        crate::text::push_char(&mut zero, '0');
                        assert(zero@ =~= seq!['0']);
                        CanonicalValue::Number(zero)
                    },
                }
            } else if eq_ignore_ascii_case(t, "true") {
                CanonicalValue::Bool(true)
            } else if eq_ignore_ascii_case(t, "false") {
                CanonicalValue::Bool(false)
            } else {
                CanonicalValue::String(String::from_str(t))
            }
        },
    }
}

/// The value text with one layer of matching quotes removed.
fn strip_quotes(v: &str) -> (r: String)
    ensures
        r@ == unquote(v@),
{
    let cs = chars_of(v);
    let n = cs.len();
    if n >= 2 && ((cs[0] == '"' && cs[n - 1] == '"') || (cs[0] == '\'' && cs[n - 1] == '\'')) {
        string_from(&cs, 1, n - 1)
    } else {
        assert(cs@.subrange(0, n as int) =~= v@);
        string_from(&cs, 0, n)
    }
}

/// The setting that a trimmed line holds, if any.
fn setting_of(t: &str) -> (r: Option<(String, String)>)
    ensures
        match r {
            Some(kv) => env_pair(t@) == Some((kv.0@, kv.1@)),
            None => env_pair(t@) is None,
        },
{
    let cs = chars_of(t);
    if cs.len() == 0 || cs[0] == '#' {
        return None;
    }
    match find_char(&cs, '=') {
        Some(p) => {
            let key = trim_str(string_from(&cs, 0, p).as_str());
            let raw = trim_str(string_from(&cs, p + 1, cs.len()).as_str());
            let value = strip_quotes(raw.as_str());
            assert(cs@.subrange(0, p as int) =~= t@.take(p as int));
            assert(cs@.subrange(p + 1, cs.len() as int) =~= t@.skip(p + 1));
            Some((key, value))
        },
        None => None,
    }
}

/// Reads ENV text into a flat mapping. Empty lines, `#` comments and lines without `=`
/// are skipped; each other line sets the trimmed text before its first `=` to the
/// trimmed, unquoted, typed text after it, a later line with the same key overwriting
/// the value of an earlier one.
pub fn parse_env_format(content: &str) -> (r: CanonicalValue)
    ensures
        r.wf(),
        env_document(r, content@),
{
    let lines = split_str(content, '\n');
    let ghost ls = trimmed_lines(content@);
    let mut entries: Vec<(String, CanonicalValue)> = Vec::new();
    let mut i: usize = 0;
    while i < lines.len()
        invariant
            i <= lines.len(),
            ls == trimmed_lines(content@),
            ls.len() == lines.len(),
            forall|j: int| 0 <= j < lines.len() ==> ls[j] == trim(#[trigger] lines@[j]@),
            keys_unique(entries@),
            keys_of(entries@) == env_pairs(ls.take(i as int)).map_values(
                |p: (Seq<char>, Seq<char>)| p.0,
            ),
            forall|j: int|
                0 <= j < entries.len() ==> coerced(
                    #[trigger] entries@[j].1,
                    env_pairs(ls.take(i as int))[j].1,
                ),
        decreases lines.len() - i,
    {
        let t = trim_str(lines[i].as_str());
        let ghost before = entries@;
        let ghost prev = env_pairs(ls.take(i as int));
        proof {
            assert(ls.take(i as int + 1).drop_last() =~= ls.take(i as int));
            assert(ls.take(i as int + 1).last() == t@);
        }
        match setting_of(t.as_str()) {
            Some(kv) => {
                let (key, text) = kv;
                let value = coerce_env_value(text.as_str());
                proof {
                    lemma_assigned_keys_unique(before, key, value);
                    keys_of(before).index_of_first_ensures(key@);
                    assert(prev.map_values(|p: (Seq<char>, Seq<char>)| p.0) == keys_of(before));
                }
                assign(&mut entries, key, value);
                proof {
                    let next = env_pairs(ls.take(i as int + 1));
                    assert(next == set_pair(prev, key@, text@));
                    match keys_of(before).index_of_first(key@) {
                        Some(p) => {
                            assert(next.map_values(|p: (Seq<char>, Seq<char>)| p.0) =~= keys_of(
                                entries@,
                            ));
                        },
                        None => {
                            assert(next.map_values(|p: (Seq<char>, Seq<char>)| p.0) =~= keys_of(
                                entries@,
                            ));
                        },
                    }
                    assert forall|j: int| 0 <= j < entries.len() implies coerced(
                        #[trigger] entries@[j].1,
                        next[j].1,
                    ) by {
                        if j < before.len() {
                            assert(prev.map_values(|p: (Seq<char>, Seq<char>)| p.0).len()
                                == before.len());
                        }
                    }
                }
            },
            None => {},
        }
        i = i + 1;
    }
    assert(ls.take(lines.len() as int) =~= ls);
    assert forall|j: int| 0 <= j < entries.len() implies (#[trigger] entries@[j]).1.wf() by {
        assert(coerced(entries@[j].1, env_pairs(ls)[j].1));
    }
    CanonicalValue::Object(entries)
}

} // verus!
