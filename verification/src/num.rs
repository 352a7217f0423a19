//! Decimal number tokens, modelled exactly after Rust's own grammars: for
//! integers an optional sign, then one or more ASCII digits, rejected when
//! the value leaves the target range; for floating-point values the purely
//! syntactic acceptance grammar, whose value this library never computes.

use vstd::prelude::*;
use crate::text::{find_char, find_from, sub_string};

verus! {

pub open spec fn is_digit(c: char) -> bool {
    48 <= c as u32 && c as u32 <= 57
}

pub open spec fn digit_val(c: char) -> int {
    c as u32 - 48
}

/// The value of a digit string, most significant digit first.
pub open spec fn digits_val(s: Seq<char>) -> int
    decreases s.len(),
{
    if s.len() == 0 {
        0
    } else {
        10 * digits_val(s.drop_last()) + digit_val(s.last())
    }
}

pub open spec fn all_digits(s: Seq<char>) -> bool {
    forall|i: int| 0 <= i < s.len() ==> is_digit(#[trigger] s[i])
}

/// The digit part of an unsigned number: everything after an optional `+`.
pub open spec fn uint_body(s: Seq<char>) -> Seq<char> {
    if s.len() > 0 && s[0] == '+' {
        s.drop_first()
    } else {
        s
    }
}

/// `s` is what Rust's unsigned parsers accept for a bound of `max`.
pub open spec fn parses_as_uint(s: Seq<char>, max: int) -> bool {
    let d = uint_body(s);
    d.len() > 0 && all_digits(d) && digits_val(d) <= max
}

pub open spec fn uint_val(s: Seq<char>) -> int {
    digits_val(uint_body(s))
}

/// The digit part of a signed number: everything after an optional sign.
pub open spec fn int_body(s: Seq<char>) -> Seq<char> {
    if s.len() > 0 && (s[0] == '+' || s[0] == '-') {
        s.drop_first()
    } else {
        s
    }
}

pub open spec fn int_negative(s: Seq<char>) -> bool {
    s.len() > 0 && s[0] == '-'
}

pub open spec fn int_val(s: Seq<char>) -> int {
    if int_negative(s) {
        -digits_val(int_body(s))
    } else {
        digits_val(int_body(s))
    }
}

/// `s` is what Rust's signed parsers accept for a range of `min..=max`.
pub open spec fn parses_as_int(s: Seq<char>, min: int, max: int) -> bool {
    let d = int_body(s);
    d.len() > 0 && all_digits(d) && min <= int_val(s) && int_val(s) <= max
}

pub proof fn lemma_digits_val_nonneg(s: Seq<char>)
    requires
        all_digits(s),
    ensures
        digits_val(s) >= 0,
    decreases s.len(),
{
    if s.len() > 0 {
        assert(forall|i: int|
            0 <= i < s.drop_last().len() ==> is_digit(#[trigger] s.drop_last()[i]));
        lemma_digits_val_nonneg(s.drop_last());
    }
}

/// A digit string is worth at least any of its prefixes.
pub proof fn lemma_digits_val_take(s: Seq<char>, k: int)
    requires
        all_digits(s),
        0 <= k <= s.len(),
    ensures
        digits_val(s.take(k)) <= digits_val(s),
    decreases s.len() - k,
{
    if k < s.len() {
        assert(s.take(k + 1).drop_last() =~= s.take(k));
        assert(forall|i: int| 0 <= i < s.take(k).len() ==> is_digit(#[trigger] s.take(k)[i]));
        lemma_digits_val_nonneg(s.take(k));
        assert(digits_val(s.take(k + 1)) == 10 * digits_val(s.take(k)) + digit_val(s[k]));
        lemma_digits_val_take(s, k + 1);
    } else {
        assert(s.take(k) =~= s);
    }
}

/// Reads the digits of `s` from position `from` to the end and their value,
/// within a bound of `max`.
#[verifier::loop_isolation(false)]
fn parse_digits(s: &str, n: usize, from: usize, max: u64) -> (r: Option<u64>)
    requires
        n == s@.len(),
        from <= n,
        max >= 9,
    ensures
        ({
            let d = s@.skip(from as int);
            match r {
                Some(v) => d.len() > 0 && all_digits(d) && v == digits_val(d) && digits_val(d)
                    <= max,
                None => !(d.len() > 0 && all_digits(d) && digits_val(d) <= max),
            }
        }),
{
    let ghost d = s@.skip(from as int);
    if from == n {
        return None;
    }
    let mut acc: u64 = 0;
    let mut i: usize = from;
    while i < n
        invariant
            from <= i <= n,
            from < n,
            acc == digits_val(s@.subrange(from as int, i as int)),
            all_digits(s@.subrange(from as int, i as int)),
            acc <= max,
        decreases n - i,
    {
        let c = s.get_char(i);
        let u: u32 = c as u32;
        if u < 48 || u > 57 {
            proof {
                assert(d[i - from] == s@[i as int]);
                assert(!is_digit(d[i - from]));
            }
            return None;
        }
        let dv: u64 = (u - 48) as u64;
        let ghost p = s@.subrange(from as int, i + 1);
        proof {
            assert(p.drop_last() =~= s@.subrange(from as int, i as int));
            assert(p.last() == s@[i as int]);
            assert(digits_val(p) == 10 * acc + dv);
            assert(forall|l: int| 0 <= l < p.len() ==> is_digit(#[trigger] p[l]));
        }
        if acc > (max - dv) / 10 {
            proof {
                assert(10 * acc + dv > max) by {
                    let q = (max - dv) as u64 / 10;
                    assert(10 * q + 10 >= max - dv + 1);
                    assert(acc >= q + 1);
                };
                if all_digits(d) {
                    assert(d.take(i + 1 - from) =~= p);
                    lemma_digits_val_take(d, i + 1 - from);
                    assert(digits_val(d) > max);
                }
            }
            return None;
        }
        proof {
            assert(10 * acc + dv <= max) by {
                let q = (max - dv) as u64 / 10;
                assert(10 * q <= max - dv);
                assert(acc <= q);
            };
        }
        acc = acc * 10 + dv;
        i = i + 1;
    }
    proof {
        assert(d =~= s@.subrange(from as int, n as int));
    }
    Some(acc)
}

/// Unsigned decimal with an optional leading `+`, bounded by `max`.
pub fn parse_uint(s: &str, max: u64) -> (r: Option<u64>)
    requires
        max >= 9,
    ensures
        match r {
            Some(v) => parses_as_uint(s@, max as int) && v == uint_val(s@) && v <= max,
            None => !parses_as_uint(s@, max as int),
        },
{
    let n: usize = s.unicode_len();
    let from: usize = if n > 0 && s.get_char(0) == '+' {
        1
    } else {
        0
    };
    proof {
        if n > 0 && s@[0] == '+' {
            assert(uint_body(s@) =~= s@.skip(1));
        } else {
            assert(uint_body(s@) =~= s@.skip(0));
        }
    }
    parse_digits(s, n, from, max)
}

/// Signed decimal within the full range of `i64`.
pub fn parse_i64(s: &str) -> (r: Option<i64>)
    ensures
        match r {
            Some(v) => parses_as_int(s@, i64::MIN as int, i64::MAX as int) && v == int_val(s@),
            None => !parses_as_int(s@, i64::MIN as int, i64::MAX as int),
        },
{
    let n: usize = s.unicode_len();
    let mut neg: bool = false;
    let mut from: usize = 0;
    if n > 0 {
        let c0 = s.get_char(0);
        if c0 == '-' {
            neg = true;
            from = 1;
        } else if c0 == '+' {
            from = 1;
        }
    }
    proof {
        if from == 1 {
            assert(int_body(s@) =~= s@.skip(1));
        } else {
            assert(int_body(s@) =~= s@.skip(0));
        }
    }
    let mag_max: u64 = if neg {
        9223372036854775808
    } else {
        9223372036854775807
    };
    match parse_digits(s, n, from, mag_max) {
        None => {
            proof {
                if parses_as_int(s@, i64::MIN as int, i64::MAX as int) {
                    assert(digits_val(int_body(s@)) <= mag_max);
                }
            }
            None
        },
        Some(v) => {
            if neg {
                if v == 9223372036854775808 {
                    Some(i64::MIN)
                } else {
                    Some(-(v as i64))
                }
            } else {
                Some(v as i64)
            }
        },
    }
}

/// Signed decimal within the full range of `i32`.
pub fn parse_i32(s: &str) -> (r: Option<i32>)
    ensures
        match r {
            Some(v) => parses_as_int(s@, i32::MIN as int, i32::MAX as int) && v == int_val(s@),
            None => !parses_as_int(s@, i32::MIN as int, i32::MAX as int),
        },
{
    let n: usize = s.unicode_len();
    let mut neg: bool = false;
    let mut from: usize = 0;
    if n > 0 {
        let c0 = s.get_char(0);
        if c0 == '-' {
            neg = true;
            from = 1;
        } else if c0 == '+' {
            from = 1;
        }
    }
    proof {
        if from == 1 {
            assert(int_body(s@) =~= s@.skip(1));
        } else {
            assert(int_body(s@) =~= s@.skip(0));
        }
    }
    let mag_max: u64 = if neg {
        2147483648
    } else {
        2147483647
    };
    match parse_digits(s, n, from, mag_max) {
        None => {
            proof {
                if parses_as_int(s@, i32::MIN as int, i32::MAX as int) {
                    assert(digits_val(int_body(s@)) <= mag_max);
                }
            }
            None
        },
        Some(v) => {
            if neg {
                if v == 2147483648 {
                    Some(i32::MIN)
                } else {
                    Some(-(v as i32))
                }
            } else {
                Some(v as i32)
            }
        },
    }
}

// ---------------------------------------------------------------------------
// Floating-point token syntax
// ---------------------------------------------------------------------------

/// `s` matches a keyword given in its lower-case and upper-case spellings,
/// each character in either case.
pub open spec fn ci_match(s: Seq<char>, lo: Seq<char>, up: Seq<char>) -> bool {
    s.len() == lo.len() && (forall|i: int|
        0 <= i < s.len() ==> (s[i] == lo[i] || s[i] == up[i]))
}

/// The named non-finite values a floating-point parser accepts, in any case.
pub open spec fn is_float_keyword(b: Seq<char>) -> bool {
    ci_match(b, "inf"@, "INF"@) || ci_match(b, "infinity"@, "INFINITY"@) || ci_match(
        b,
        "nan"@,
        "NAN"@,
    )
}

/// The first exponent marker at or after `from`.
pub open spec fn find_exp(s: Seq<char>, from: int) -> Option<int>
    decreases s.len() - from
        when 0 <= from
{
    if from >= s.len() {
        None
    } else if s[from] == 'e' || s[from] == 'E' {
        Some(from)
    } else {
        find_exp(s, from + 1)
    }
}

/// A mantissa: digits with at most one dot, and at least one digit or a
/// dotted form with digits on at least one side.
pub open spec fn is_mantissa(m: Seq<char>) -> bool {
    match find_from(m, seq!['.'], 0) {
        None => m.len() > 0 && all_digits(m),
        Some(i) => all_digits(m.take(i)) && all_digits(m.skip(i + 1)) && (i > 0 || m.len() - i - 1
            > 0),
    }
}

/// An exponent part: an optional sign, then at least one digit.
pub open spec fn is_exponent(x: Seq<char>) -> bool {
    int_body(x).len() > 0 && all_digits(int_body(x))
}

/// `s` is what Rust's floating-point parsers accept: an optional sign, then
/// a case-insensitive infinity or not-a-number keyword, or a mantissa with
/// an optional exponent. Acceptance is purely syntactic; no magnitude is
/// ever rejected.
pub open spec fn is_float_str(s: Seq<char>) -> bool {
    let b = int_body(s);
    is_float_keyword(b) || match find_exp(b, 0) {
        None => is_mantissa(b),
        Some(i) => is_mantissa(b.take(i)) && is_exponent(b.skip(i + 1)),
    }
}

/// Are the characters of `s` from `a` to `b` all ASCII digits?
#[verifier::loop_isolation(false)]
fn digits_between(s: &str, n: usize, a: usize, b: usize) -> (r: bool)
    requires
        n == s@.len(),
        a <= b <= n,
    ensures
        r == all_digits(s@.subrange(a as int, b as int)),
{
    let mut i: usize = a;
    while i < b
        invariant
            a <= i <= b,
            forall|j: int| a <= j < i ==> is_digit(#[trigger] s@[j]),
        decreases b - i,
    {
        let c = s.get_char(i);
        let u: u32 = c as u32;
        if u < 48 || u > 57 {
            proof {
                assert(s@.subrange(a as int, b as int)[i - a] == s@[i as int]);
            }
            return false;
        }
        i = i + 1;
    }
    proof {
        assert(forall|l: int|
            0 <= l < b - a ==> is_digit(#[trigger] s@.subrange(a as int, b as int)[l]));
    }
    true
}

/// The first exponent marker in `s` at or after `from`.
#[verifier::loop_isolation(false)]
fn find_exp_at(s: &str, n: usize, from: usize) -> (r: Option<usize>)
    requires
        n == s@.len(),
        from <= n,
    ensures
        match r {
            Some(i) => find_exp(s@, from as int) == Some(i as int) && from <= i < n,
            None => find_exp(s@, from as int) is None,
        },
{
    let mut i: usize = from;
    while i < n
        invariant
            from <= i <= n,
            find_exp(s@, from as int) == find_exp(s@, i as int),
        decreases n - i,
    {
        let c = s.get_char(i);
        if c == 'e' || c == 'E' {
            return Some(i);
        }
        i = i + 1;
    }
    None
}

/// Case-insensitive comparison of `s` against a keyword given in both
/// spellings.
#[verifier::loop_isolation(false)]
fn ci_match_str(s: &str, n: usize, lo: &str, up: &str) -> (r: bool)
    requires
        n == s@.len(),
        lo@.len() == up@.len(),
    ensures
        r == ci_match(s@, lo@, up@),
{
    let ln: usize = lo.unicode_len();
    if n != ln {
        return false;
    }
    let mut k: usize = 0;
    while k < ln
        invariant
            0 <= k <= ln,
            forall|l: int| 0 <= l < k ==> (s@[l] == lo@[l] || s@[l] == up@[l]),
        decreases ln - k,
    {
        let c = s.get_char(k);
        if c != lo.get_char(k) && c != up.get_char(k) {
            return false;
        }
        k = k + 1;
    }
    true
}

/// Is `m` a mantissa?
fn is_mantissa_at(m: &str, n: usize) -> (r: bool)
    requires
        n == m@.len(),
    ensures
        r == is_mantissa(m@),
{
    match find_char(m, n, 0, '.') {
        None => {
            proof {
                assert(m@.subrange(0, n as int) =~= m@);
            }
            n > 0 && digits_between(m, n, 0, n)
        },
        Some(i) => {
            proof {
                assert(m@.take(i as int) =~= m@.subrange(0, i as int));
                assert(m@.skip(i + 1) =~= m@.subrange(i + 1, n as int));
            }
            digits_between(m, n, 0, i) && digits_between(m, n, i + 1, n) && (i > 0 || n - i - 1
                > 0)
        },
    }
}

/// Is `x` an exponent part?
fn is_exponent_at(x: &str, n: usize) -> (r: bool)
    requires
        n == x@.len(),
    ensures
        r == is_exponent(x@),
{
    let mut from: usize = 0;
    if n > 0 {
        let c0 = x.get_char(0);
        if c0 == '+' || c0 == '-' {
            from = 1;
        }
    }
    proof {
        if from == 1 {
            assert(int_body(x@) =~= x@.skip(1));
        } else {
            assert(int_body(x@) =~= x@.skip(0));
        }
        assert(x@.skip(from as int) =~= x@.subrange(from as int, n as int));
    }
    n - from > 0 && digits_between(x, n, from, n)
}

/// Does `s` pass the floating-point acceptance grammar?
pub fn is_float_token(s: &str) -> (r: bool)
    ensures
        r == is_float_str(s@),
{
    let n: usize = s.unicode_len();
    let mut from: usize = 0;
    if n > 0 {
        let c0 = s.get_char(0);
        if c0 == '+' || c0 == '-' {
            from = 1;
        }
    }
    let body = sub_string(s, from, n);
    proof {
        if from == 1 {
            assert(int_body(s@) =~= s@.skip(1));
        } else {
            assert(int_body(s@) =~= s@.skip(0));
        }
        assert(body@ =~= int_body(s@));
        reveal_strlit("inf");
        reveal_strlit("INF");
        reveal_strlit("infinity");
        reveal_strlit("INFINITY");
        reveal_strlit("nan");
        reveal_strlit("NAN");
    }
    let bn: usize = n - from;
    if ci_match_str(body.as_str(), bn, "inf", "INF") {
        return true;
    }
    if ci_match_str(body.as_str(), bn, "infinity", "INFINITY") {
        return true;
    }
    if ci_match_str(body.as_str(), bn, "nan", "NAN") {
        return true;
    }
    match find_exp_at(body.as_str(), bn, 0) {
        None => is_mantissa_at(body.as_str(), bn),
        Some(i) => {
            let mant = sub_string(body.as_str(), 0, i);
            let ex = sub_string(body.as_str(), i + 1, bn);
            proof {
                assert(mant@ =~= body@.take(i as int));
                assert(ex@ =~= body@.skip(i + 1));
            }
            is_mantissa_at(mant.as_str(), i) && is_exponent_at(ex.as_str(), bn - i - 1)
        },
    }
}

} // verus!
