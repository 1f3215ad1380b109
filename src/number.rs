use vstd::prelude::*;

use crate::text::push_char;

verus! {

pub open spec fn is_digit(c: char) -> bool {
    '0' <= c && c <= '9'
}

pub open spec fn digit_value(c: char) -> nat {
    (c as nat - '0' as nat) as nat
}

pub open spec fn all_digits(s: Seq<char>) -> bool {
    forall|i: int| 0 <= i < s.len() ==> is_digit(#[trigger] s[i])
}

/// The number written by the decimal digits `s`.
pub open spec fn digits_value(s: Seq<char>) -> nat
    decreases s.len(),
{
    if s.len() == 0 {
        0
    } else {
        digits_value(s.drop_last()) * 10 + digit_value(s.last())
    }
}

/// An unsigned index as `usize::from_str` reads it: an optional `+`, then one or more
/// decimal digits whose value fits in a `usize`.
pub open spec fn index_of(s: Seq<char>) -> Option<nat> {
    let d = if s.len() > 0 && s[0] == '+' { s.drop_first() } else { s };
    if d.len() > 0 && all_digits(d) && digits_value(d) <= usize::MAX {
        Some(digits_value(d))
    } else {
        None
    }
}

/// A signed integer as `i64::from_str` reads it: an optional sign, then one or more
/// decimal digits, within the range of `i64`.
pub open spec fn integer_of(s: Seq<char>) -> Option<int> {
    let neg = s.len() > 0 && s[0] == '-';
    let d = if s.len() > 0 && (s[0] == '+' || s[0] == '-') { s.drop_first() } else { s };
    if d.len() > 0 && all_digits(d) {
        if neg && digits_value(d) <= 0x8000_0000_0000_0000 {
            Some(-digits_value(d))
        } else if !neg && digits_value(d) <= 0x7fff_ffff_ffff_ffff {
            Some(digits_value(d) as int)
        } else {
            None
        }
    } else {
        None
    }
}

pub open spec fn digit_char(d: nat) -> char {
    if d == 0 { '0' }
    else if d == 1 { '1' }
    else if d == 2 { '2' }
    else if d == 3 { '3' }
    else if d == 4 { '4' }
    else if d == 5 { '5' }
    else if d == 6 { '6' }
    else if d == 7 { '7' }
    else if d == 8 { '8' }
    else { '9' }
}

/// The shortest decimal text of `n`.
pub open spec fn decimal(n: nat) -> Seq<char>
    decreases n,
{
    if n < 10 {
        seq![digit_char(n)]
    } else {
        decimal(n / 10).push(digit_char(n % 10))
    }
}

/// The decimal text of a signed integer, with a `-` before a negative one.
pub open spec fn signed_decimal(n: int) -> Seq<char> {
    if n < 0 {
        seq!['-'] + decimal((-n) as nat)
    } else {
        decimal(n as nat)
    }
}

/// The value of the digits `cs[from..to]`, or `None` where one is no digit, there are
/// none, or the value does not fit in 64 bits.
fn digits_in(cs: &Vec<char>, from: usize, to: usize) -> (r: Option<u64>)
    requires
        from <= to <= cs.len(),
    ensures
        ({
            let d = cs@.subrange(from as int, to as int);
            match r {
                Some(n) => d.len() > 0 && all_digits(d) && n as nat == digits_value(d),
                None => !(d.len() > 0 && all_digits(d) && digits_value(d) <= u64::MAX),
            }
        }),
{
    if from == to {
        return None;
    }
    let mut acc: u64 = 0;
    let mut i = from;
    while i < to
        invariant
            from <= i <= to <= cs.len(),
            all_digits(cs@.subrange(from as int, i as int)),
            acc as nat == digits_value(cs@.subrange(from as int, i as int)),
        decreases to - i,
    {
        let c = cs[i];
        let ghost prev = cs@.subrange(from as int, i as int);
        let ghost next = cs@.subrange(from as int, i as int + 1);
        assert(next.drop_last() =~= prev);
        if !('0' <= c && c <= '9') {
            assert(!is_digit(cs@.subrange(from as int, to as int)[i - from]));
            return None;
        }
        let d = (c as u32 - '0' as u32) as u64;
        if acc > (u64::MAX - d) / 10 {
            proof {
                lemma_digits_grow(cs@.subrange(from as int, to as int), (i - from + 1) as int);
                assert(cs@.subrange(from as int, to as int).take((i - from + 1) as int) =~= next);
                assert(digits_value(next) == acc * 10 + d) by (nonlinear_arith)
                    requires
                        digits_value(next) == digits_value(prev) * 10 + d,
                        acc as nat == digits_value(prev),
                ;
                assert(acc * 10 + d > u64::MAX) by (nonlinear_arith)
                    requires
                        acc > (u64::MAX - d) / 10,
                        d <= 9,
                ;
            }
            return None;
        }
        assert(acc * 10 + d <= u64::MAX) by (nonlinear_arith)
            requires
                acc <= (u64::MAX - d) / 10,
                d <= 9,
        ;
        acc = acc * 10 + d;
        i = i + 1;
        assert forall|j: int| 0 <= j < next.len() implies is_digit(#[trigger] next[j]) by {
            if j < prev.len() {
                assert(next[j] == prev[j]);
            }
        }
    }
    Some(acc)
}

/// The digits of a longer prefix are worth at least those of a shorter one.
proof fn lemma_digits_grow(s: Seq<char>, k: int)
    requires
        0 <= k <= s.len(),
    ensures
        digits_value(s.take(k)) <= digits_value(s),
    decreases s.len(),
{
    if k < s.len() {
        assert(s.drop_last().take(k) =~= s.take(k));
        lemma_digits_grow(s.drop_last(), k);
    } else {
        assert(s.take(k) =~= s);
    }
}

/// Reads a sequence index from its text.
pub fn parse_index(s: &str) -> (r: Option<usize>)
    ensures
        match r {
            Some(n) => index_of(s@) == Some(n as nat),
            None => index_of(s@) is None,
        },
{
    let cs = crate::text::chars_of(s);
    let from: usize = if cs.len() > 0 && cs[0] == '+' { 1 } else { 0 };
    assert(cs@.subrange(from as int, cs.len() as int) =~= (if s@.len() > 0 && s@[0] == '+' {
        s@.drop_first()
    } else {
        s@
    }));
    match digits_in(&cs, from, cs.len()) {
        Some(n) => {
            if n <= usize::MAX as u64 {
                Some(n as usize)
            } else {
                None
            }
        },
        None => None,
    }
}

/// Reads a signed 64-bit integer from its text.
pub fn parse_integer(s: &str) -> (r: Option<i64>)
    ensures
        match r {
            Some(n) => integer_of(s@) == Some(n as int),
            None => integer_of(s@) is None,
        },
{
    let cs = crate::text::chars_of(s);
    let signed = cs.len() > 0 && (cs[0] == '+' || cs[0] == '-');
    let neg = cs.len() > 0 && cs[0] == '-';
    let from: usize = if signed { 1 } else { 0 };
    assert(cs@.subrange(from as int, cs.len() as int) =~= (if s@.len() > 0 && (s@[0] == '+'
        || s@[0] == '-') {
        s@.drop_first()
    } else {
        s@
    }));
    match digits_in(&cs, from, cs.len()) {
        Some(n) => {
            if neg {
                if n <= 0x8000_0000_0000_0000u64 {
                    if n == 0x8000_0000_0000_0000u64 {
                        Some(i64::MIN)
                    } else {
                        Some(-(n as i64))
                    }
                } else {
                    None
                }
            } else if n <= 0x7fff_ffff_ffff_ffffu64 {
                Some(n as i64)
            } else {
                None
            }
        },
        None => None,
    }
}

fn digit_to_char(d: u64) -> (c: char)
    requires
        d < 10,
    ensures
        c == digit_char(d as nat),
{
    if d == 0 { '0' }
    else if d == 1 { '1' }
    else if d == 2 { '2' }
    else if d == 3 { '3' }
    else if d == 4 { '4' }
    else if d == 5 { '5' }
    else if d == 6 { '6' }
    else if d == 7 { '7' }
    else if d == 8 { '8' }
    else { '9' }
}

/// Appends the decimal text of `n` to `out`.
pub fn push_decimal(out: &mut String, n: u64)
    ensures
        final(out)@ == old(out)@ + decimal(n as nat),
    decreases n,
{
    if n >= 10 {
        push_decimal(out, n / 10);
    }
    push_char(out, digit_to_char(n % 10));
}

/// The decimal text of an unsigned integer.
pub fn unsigned_text(n: u64) -> (r: String)
    ensures
        r@ == decimal(n as nat),
{
    let mut out = String::new();
    push_decimal(&mut out, n);
    assert(out@ =~= decimal(n as nat));
    out
}

/// The decimal text of a signed integer.
pub fn integer_text(n: i64) -> (r: String)
    ensures
        r@ == signed_decimal(n as int),
{
    let mut out = String::new();
    if n < 0 {
        push_char(&mut out, '-');
        let m: u64 = if n == i64::MIN { 0x8000_0000_0000_0000u64 } else { (-n) as u64 };
        push_decimal(&mut out, m);
    } else {
        push_decimal(&mut out, n as u64);
    }
    assert(out@ =~= signed_decimal(n as int));
    out
}

} // verus!
