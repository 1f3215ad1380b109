use vstd::prelude::*;

use crate::number::{all_digits, is_digit};
use crate::text::{ascii_ci_eq, chars_of, eq_ignore_ascii_case, string_from};

verus! {

pub open spec fn is_exp_mark(c: char) -> bool {
    c == 'e' || c == 'E'
}

/// Digits, a `.` and digits, at least one digit in all.
pub open spec fn mantissa_ok(m: Seq<char>) -> bool {
    match crate::text::first_index(m, '.') {
        None => m.len() > 0 && all_digits(m),
        Some(p) => all_digits(m.take(p)) && all_digits(m.skip(p + 1)) && m.len() > 1,
    }
}

/// Empty, or an exponent mark, an optional sign and one or more digits.
pub open spec fn exponent_ok(x: Seq<char>) -> bool {
    x.len() == 0 || (is_exp_mark(x[0]) && {
        let d = if x.len() > 1 && (x[1] == '+' || x[1] == '-') {
            x.skip(2)
        } else {
            x.skip(1)
        };
        d.len() > 0 && all_digits(d)
    })
}

/// `k` is where the exponent of `b` starts: at the first exponent mark, or at the end.
pub open spec fn exponent_start(b: Seq<char>, k: int) -> bool {
    0 <= k <= b.len() && (forall|j: int| 0 <= j < k ==> !is_exp_mark(#[trigger] b[j])) && (k
        == b.len() || is_exp_mark(b[k]))
}

/// A decimal number as `f64::from_str` documents it: `Digit+`, `Digit+ '.' Digit*` or
/// `Digit* '.' Digit+`, then an optional exponent.
pub open spec fn decimal_number(b: Seq<char>) -> bool {
    forall|k: int| #[trigger] exponent_start(b, k) ==> mantissa_ok(b.take(k)) && exponent_ok(b.skip(k))
}

/// The grammar `f64::from_str` documents, in any ASCII case: an optional sign, then
/// `inf`, `infinity`, `nan` or a decimal number.
pub open spec fn float_literal(s: Seq<char>) -> bool {
    let b = if s.len() > 0 && (s[0] == '+' || s[0] == '-') { s.drop_first() } else { s };
    ascii_ci_eq(b, "inf"@) || ascii_ci_eq(b, "infinity"@) || ascii_ci_eq(b, "nan"@)
        || decimal_number(b)
}

/// Whether `cs[from..to]` are all digits.
fn digits_only(cs: &Vec<char>, from: usize, to: usize) -> (r: bool)
    requires
        from <= to <= cs.len(),
    ensures
        r == all_digits(cs@.subrange(from as int, to as int)),
{
    let mut i = from;
    while i < to
        invariant
            from <= i <= to <= cs.len(),
            all_digits(cs@.subrange(from as int, i as int)),
        decreases to - i,
    {
        if !('0' <= cs[i] && cs[i] <= '9') {
            assert(!is_digit(cs@.subrange(from as int, to as int)[i - from]));
            return false;
        }
        i = i + 1;
        assert forall|j: int| 0 <= j < i - from implies is_digit(
            #[trigger] cs@.subrange(from as int, i as int)[j],
        ) by {
            if j < i - 1 - from {
                assert(cs@.subrange(from as int, i as int)[j] == cs@.subrange(
                    from as int,
                    i - 1,
                )[j]);
            }
        }
    }
    true
}

fn decimal_ok(b: &Vec<char>) -> (r: bool)
    ensures
        r == decimal_number(b@),
{
    let mut k: usize = 0;
    while k < b.len() && !(b[k] == 'e' || b[k] == 'E')
        invariant
            k <= b.len(),
            forall|j: int| 0 <= j < k ==> !is_exp_mark(#[trigger] b@[j]),
        decreases b.len() - k,
    {
        k = k + 1;
    }
    assert(exponent_start(b@, k as int));
    assert forall|k2: int| #[trigger] exponent_start(b@, k2) implies k2 == k by {
        if k2 < k {
            assert(!is_exp_mark(b@[k2]));
        }
        if k2 > k {
            assert(!is_exp_mark(b@[k as int]));
        }
    }
    let m = string_from(b, 0, k);
    let mc = chars_of(m.as_str());
    assert(mc@ =~= b@.take(k as int));
    let mant = match crate::text::find_char(&mc, '.') {
        None => {
            assert(mc@.subrange(0, mc.len() as int) =~= mc@);
            mc.len() > 0 && digits_only(&mc, 0, mc.len())
        },
        Some(p) => {
            assert(mc@.subrange(0, p as int) =~= mc@.take(p as int));
            assert(mc@.subrange(p + 1, mc.len() as int) =~= mc@.skip(p + 1));
            digits_only(&mc, 0, p) && digits_only(&mc, p + 1, mc.len()) && mc.len() > 1
        },
    };
    assert(mant == mantissa_ok(b@.take(k as int)));
    assert(decimal_number(b@) == (mantissa_ok(b@.take(k as int)) && exponent_ok(b@.skip(k as int))));
    if !mant {
        return false;
    }
    let n = b.len();
    let exp = if k == n {
        assert(b@.skip(k as int).len() == 0);
        true
    } else {
        assert(b@.skip(k as int)[0] == b@[k as int]);
        let from: usize = if k + 1 < n && (b[k + 1] == '+' || b[k + 1] == '-') {
            k + 2
        } else {
            k + 1
        };
        let ghost x = b@.skip(k as int);
        assert(b@.subrange(from as int, n as int) =~= (if x.len() > 1 && (x[1] == '+' || x[1]
            == '-') {
            x.skip(2)
        } else {
            x.skip(1)
        }));
        let r = from < n && digits_only(b, from, n);
        assert(r == exponent_ok(x));
        r
    };
    assert(mc@.len() == 0 ==> mc@ =~= Seq::<char>::empty());
    exp
}

/// Whether `s` is a floating-point literal that `f64::from_str` accepts.
pub fn is_float_literal(s: &str) -> (r: bool)
    ensures
        r == float_literal(s@),
{
    let cs = chars_of(s);
    let from: usize = if cs.len() > 0 && (cs[0] == '+' || cs[0] == '-') { 1 } else { 0 };
    let body = string_from(&cs, from, cs.len());
    assert(body@ =~= (if s@.len() > 0 && (s@[0] == '+' || s@[0] == '-') {
        s@.drop_first()
    } else {
        s@
    }));
    let bc = chars_of(body.as_str());
    eq_ignore_ascii_case(body.as_str(), "inf") || eq_ignore_ascii_case(body.as_str(), "infinity")
        || eq_ignore_ascii_case(body.as_str(), "nan") || decimal_ok(&bc)
}

} // verus!
