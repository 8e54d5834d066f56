//! Parsing `key=value` model overrides from the command surface.
//!
//! An override is split at its first `=`; the value is classified as an
//! integer if it parses as a 64-bit signed integer, else as a float if it
//! matches the decimal float-literal grammar (an optional sign, then
//! `inf`, `infinity` or `nan` ignoring case, or digits with an optional
//! fraction and exponent), else as a boolean if it is exactly `true` or
//! `false`; anything else is a `ConfigError`.

use vstd::prelude::*;

use crate::errors::ConfigError;
use crate::params::ParamOverrideValue;
use vstd::string::StrSliceExecFns;

verus! {

/// A decimal digit.
pub open spec fn is_digit(c: char) -> bool {
    '0' <= c <= '9'
}

/// Numeric value of a decimal digit.
pub open spec fn digit_val(c: char) -> int {
    c as int - '0' as int
}

/// Every character is a decimal digit.
pub open spec fn all_digits(s: Seq<char>) -> bool {
    forall|i: int| 0 <= i < s.len() ==> is_digit(#[trigger] s[i])
}

/// Value of a digit string read in base 10.
pub open spec fn digits_val(s: Seq<char>) -> int
    decreases s.len(),
{
    if s.len() == 0 {
        0
    } else {
        digits_val(s.drop_last()) * 10 + digit_val(s.last())
    }
}

/// The string with one leading `+` or `-` removed, if present.
pub open spec fn strip_sign(s: Seq<char>) -> Seq<char> {
    if s.len() >= 1 && (s[0] == '+' || s[0] == '-') {
        s.drop_first()
    } else {
        s
    }
}

/// An integer literal: an optional sign and at least one digit.
pub open spec fn is_int_literal(s: Seq<char>) -> bool {
    strip_sign(s).len() >= 1 && all_digits(strip_sign(s))
}

/// Value of an integer literal.
pub open spec fn int_value(s: Seq<char>) -> int
    recommends
        is_int_literal(s),
{
    if s.len() >= 1 && s[0] == '-' {
        -digits_val(strip_sign(s))
    } else {
        digits_val(strip_sign(s))
    }
}

/// First position at or after `i` holding a non-digit (or the end).
pub open spec fn digits_end(s: Seq<char>, i: int) -> int
    recommends
        0 <= i <= s.len(),
    decreases s.len() - i,
    when 0 <= i <= s.len()
{
    if i == s.len() || !is_digit(s[i]) {
        i
    } else {
        digits_end(s, i + 1)
    }
}

/// The two characters are the same letter, ignoring ASCII case.
pub open spec fn ci_is(c: char, lower: char) -> bool {
    c == lower || c as u32 + 32 == lower as u32
}

/// `inf`, `infinity` or `nan`, ignoring case.
pub open spec fn is_special_float_word(b: Seq<char>) -> bool {
    ||| (b.len() == 3 && ci_is(b[0], 'i') && ci_is(b[1], 'n') && ci_is(b[2], 'f'))
    ||| (b.len() == 8 && ci_is(b[0], 'i') && ci_is(b[1], 'n') && ci_is(b[2], 'f') && ci_is(
        b[3],
        'i',
    ) && ci_is(b[4], 'n') && ci_is(b[5], 'i') && ci_is(b[6], 't') && ci_is(b[7], 'y'))
    ||| (b.len() == 3 && ci_is(b[0], 'n') && ci_is(b[1], 'a') && ci_is(b[2], 'n'))
}

/// An exponent suffix: an optional sign and at least one digit, reaching
/// the end of the string.
pub open spec fn is_exp_suffix(b: Seq<char>, r: int) -> bool
    recommends
        0 <= r <= b.len(),
{
    let r2 = if r < b.len() && (b[r] == '+' || b[r] == '-') {
        r + 1
    } else {
        r
    };
    r2 < b.len() && digits_end(b, r2) == b.len()
}

/// A number after the sign: digits, an optional `.` with more digits (at
/// least one digit in all), and an optional exponent.
pub open spec fn is_number_body(b: Seq<char>) -> bool {
    let p = digits_end(b, 0);
    let has_dot = p < b.len() && b[p] == '.';
    let q = if has_dot {
        digits_end(b, p + 1)
    } else {
        p
    };
    let has_digits = p > 0 || (has_dot && q > p + 1);
    if q == b.len() {
        has_digits
    } else if b[q] == 'e' || b[q] == 'E' {
        has_digits && is_exp_suffix(b, q + 1)
    } else {
        false
    }
}

/// A float literal per the decimal grammar: an optional sign, then one of
/// the special words or a number body.
pub open spec fn is_float_literal(s: Seq<char>) -> bool {
    let b = strip_sign(s);
    is_special_float_word(b) || is_number_body(b)
}

/// Exactly the four characters of `true`.
pub open spec fn is_true_chars(s: Seq<char>) -> bool {
    s.len() == 4 && s[0] == 't' && s[1] == 'r' && s[2] == 'u' && s[3] == 'e'
}

/// Exactly the five characters of `false`.
pub open spec fn is_false_chars(s: Seq<char>) -> bool {
    s.len() == 5 && s[0] == 'f' && s[1] == 'a' && s[2] == 'l' && s[3] == 's' && s[4] == 'e'
}

/// A boolean literal.
pub open spec fn is_bool_literal(s: Seq<char>) -> bool {
    is_true_chars(s) || is_false_chars(s)
}

/// First position of `=` at or after `i`, or the end.
pub open spec fn eq_pos_from(s: Seq<char>, i: int) -> int
    recommends
        0 <= i <= s.len(),
    decreases s.len() - i,
    when 0 <= i <= s.len()
{
    if i == s.len() || s[i] == '=' {
        i
    } else {
        eq_pos_from(s, i + 1)
    }
}

/// A digit string's value never shrinks as digits are appended.
proof fn lemma_digits_val_nonneg(s: Seq<char>)
    requires
        all_digits(s),
    ensures
        digits_val(s) >= 0,
    decreases s.len(),
{
    if s.len() > 0 {
        assert(all_digits(s.drop_last())) by {
            assert forall|i: int| 0 <= i < s.drop_last().len() implies is_digit(
                #[trigger] s.drop_last()[i],
            ) by {
                assert(s.drop_last()[i] == s[i]);
            }
        }
        lemma_digits_val_nonneg(s.drop_last());
    }
}

/// The characters of a `&str`, collected in order.
pub fn str_chars(s: &str) -> (v: Vec<char>)
    ensures
        v@ == s@,
{
    let n = s.unicode_len();
    let mut v: Vec<char> = Vec::new();
    let mut i: usize = 0;
    while i < n
        invariant
            n == s@.len(),
            i <= n,
            v@.len() == i,
            forall|j: int| 0 <= j < i ==> #[trigger] v@[j] == s@[j],
        decreases n - i,
    {
        v.push(s.get_char(i));
        i = i + 1;
    }
    proof {
        assert(v@ =~= s@);
    }
    v
}

/// Parse a 64-bit signed integer literal: an optional sign and digits,
/// succeeding exactly when the text is such a literal and its value fits.
pub fn parse_i64_chars(v: &Vec<char>) -> (r: Option<i64>)
    ensures
        r is Some <==> is_int_literal(v@) && i64::MIN <= int_value(v@) <= i64::MAX,
        r matches Some(x) ==> x as int == int_value(v@),
{
    let n = v.len();
    if n == 0 {
        return None;
    }
    let negative = *vstd::slice::slice_index_get(v.as_slice(), 0) == '-';
    let signed = negative || *vstd::slice::slice_index_get(v.as_slice(), 0) == '+';
    let start: usize = if signed {
        1
    } else {
        0
    };
    if start == n {
        return None;
    }
    let ghost body = strip_sign(v@);
    proof {
        assert(body =~= v@.subrange(start as int, n as int));
    }
    // Accumulate the magnitude as a non-positive number so that the most
    // negative value is representable.
    let mut acc: i64 = 0;
    let mut i: usize = start;
    while i < n
        invariant
            n == v@.len(),
            start <= i <= n,
            start == if signed {
                1int
            } else {
                0int
            },
            body == strip_sign(v@),
            body =~= v@.subrange(start as int, n as int),
            forall|j: int| start <= j < i ==> is_digit(#[trigger] v@[j]),
            acc <= 0,
            acc as int == -digits_val(v@.subrange(start as int, i as int)),
        decreases n - i,
    {
        let c = *vstd::slice::slice_index_get(v.as_slice(), i);
        if c < '0' || c > '9' {
            proof {
                assert(!is_digit(v@[i as int]));
                assert(body[i - start] == v@[i as int]);
                assert(!all_digits(body));
            }
            return None;
        }
        let d: i64 = (c as u32 - 48) as i64;
        proof {
            assert('0' <= c <= '9');
            assert(c as u32 >= 48 && c as u32 <= 57) by {
                assert('0' as u32 == 48 && '9' as u32 == 57);
            }
            assert(d as int == digit_val(c));
        }
        let acc10 = match acc.checked_mul(10) {
            Some(x) => x,
            None => {
                proof {
                    overflow_means_out_of_range(v@, start as int, i as int, n as int, signed);
                }
                return None;
            },
        };
        let acc2 = match acc10.checked_sub(d) {
            Some(x) => x,
            None => {
                proof {
                    overflow_means_out_of_range(v@, start as int, i as int, n as int, signed);
                }
                return None;
            },
        };
        acc = acc2;
        proof {
            let pre = v@.subrange(start as int, i as int);
            let cur = v@.subrange(start as int, i as int + 1);
            assert(cur.drop_last() =~= pre);
            assert(cur.last() == v@[i as int]);
        }
        i = i + 1;
    }
    proof {
        assert(v@.subrange(start as int, n as int) =~= body);
        assert(all_digits(body));
        assert(is_int_literal(v@));
    }
    if negative {
        proof {
            assert(int_value(v@) == acc as int);
        }
        Some(acc)
    } else {
        if acc == i64::MIN {
            proof {
                assert(int_value(v@) == -(acc as int));
                assert(int_value(v@) > i64::MAX);
            }
            return None;
        }
        proof {
            assert(int_value(v@) == -(acc as int));
        }
        Some(-acc)
    }
}

/// When the running magnitude overflows, the literal's value is outside
/// the representable range (later digits only increase the magnitude).
proof fn overflow_means_out_of_range(s: Seq<char>, start: int, i: int, n: int, signed: bool)
    requires
        0 <= start <= i < n == s.len(),
        start == if signed {
            1int
        } else {
            0int
        },
        signed ==> (s[0] == '+' || s[0] == '-'),
        !signed ==> !(s[0] == '+' || s[0] == '-'),
        forall|j: int| start <= j < i ==> is_digit(#[trigger] s[j]),
        is_digit(s[i]),
        digits_val(s.subrange(start, i)) * 10 + digit_val(s[i]) > -(i64::MIN as int),
    ensures
        is_int_literal(s) ==> !(i64::MIN <= int_value(s) <= i64::MAX),
{
    if is_int_literal(s) {
        let body = strip_sign(s);
        assert(body =~= s.subrange(start, n));
        assert forall|j: int| start <= j < n implies is_digit(#[trigger] s[j]) by {
            assert(body[j - start] == s[j]);
        }
        lemma_digits_prefix_le(s, start, i + 1, n);
        assert(s.subrange(start, i + 1).drop_last() =~= s.subrange(start, i));
        assert(s.subrange(start, i + 1).last() == s[i]);
        assert(digits_val(s.subrange(start, i + 1)) > -(i64::MIN as int));
        assert(digits_val(body) >= digits_val(s.subrange(start, i + 1)));
        if s[0] == '-' {
            assert(int_value(s) == -digits_val(body));
            assert(int_value(s) < i64::MIN);
        } else {
            assert(int_value(s) == digits_val(body));
            assert(int_value(s) > i64::MAX);
        }
    }
}

/// A digit string's value bounds the value of any extension.
proof fn lemma_digits_prefix_le(s: Seq<char>, start: int, mid: int, n: int)
    requires
        0 <= start <= mid <= n <= s.len(),
        forall|j: int| start <= j < n ==> is_digit(#[trigger] s[j]),
    ensures
        digits_val(s.subrange(start, mid)) <= digits_val(s.subrange(start, n)),
    decreases n - mid,
{
    if mid < n {
        lemma_digits_prefix_le(s, start, mid + 1, n);
        let cur = s.subrange(start, mid + 1);
        let pre = s.subrange(start, mid);
        assert(cur.drop_last() =~= pre);
        assert(cur.last() == s[mid]);
        assert(all_digits(pre)) by {
            assert forall|j: int| 0 <= j < pre.len() implies is_digit(#[trigger] pre[j]) by {
                assert(pre[j] == s[start + j]);
            }
        }
        lemma_digits_val_nonneg(pre);
        assert(digits_val(cur) == digits_val(pre) * 10 + digit_val(s[mid]));
        assert(digits_val(pre) * 10 >= digits_val(pre)) by (nonlinear_arith)
            requires
                digits_val(pre) >= 0,
        ;
    }
}

/// First position of a non-digit at or after `from` (executable).
fn digits_end_exec(v: &Vec<char>, from: usize) -> (p: usize)
    requires
        from <= v@.len(),
    ensures
        from <= p <= v@.len(),
        p as int == digits_end(v@, from as int),
{
    let n = v.len();
    let mut i = from;
    while i < n
        invariant
            from <= i <= n,
            n == v@.len(),
            digits_end(v@, from as int) == digits_end(v@, i as int),
        decreases n - i,
    {
        let c = *vstd::slice::slice_index_get(v.as_slice(), i);
        if c < '0' || c > '9' {
            return i;
        }
        i = i + 1;
    }
    n
}

/// Recognize a float literal (executable twin of `is_float_literal`).
#[verifier::rlimit(60)]
pub fn is_float_chars(v: &Vec<char>) -> (r: bool)
    ensures
        r == is_float_literal(v@),
{
    let n = v.len();
    let start: usize = if n >= 1 && {
        let c = *vstd::slice::slice_index_get(v.as_slice(), 0);
        c == '+' || c == '-'
    } {
        1
    } else {
        0
    };
    let ghost b = strip_sign(v@);
    proof {
        assert(b =~= v@.subrange(start as int, n as int));
    }
    let m = n - start;
    // The special words, ignoring ASCII case.
    if m == 3 || m == 8 {
        let w0 = ci_char(v, start, 'i');
        let w1 = ci_char(v, start + 1, 'n');
        let w2 = ci_char(v, start + 2, 'f');
        if m == 3 && w0 && w1 && w2 {
            proof {
                assert(is_special_float_word(b));
            }
            return true;
        }
        if m == 3 && ci_char(v, start, 'n') && ci_char(v, start + 1, 'a') && ci_char(
            v,
            start + 2,
            'n',
        ) {
            proof {
                assert(is_special_float_word(b));
            }
            return true;
        }
        if m == 8 && w0 && w1 && w2 && ci_char(v, start + 3, 'i') && ci_char(v, start + 4, 'n')
            && ci_char(v, start + 5, 'i') && ci_char(v, start + 6, 't') && ci_char(
            v,
            start + 7,
            'y',
        ) {
            proof {
                assert(is_special_float_word(b));
            }
            return true;
        }
    }
    proof {
        assert(!is_special_float_word(b));
    }
    // The number body, scanned deterministically.
    let p = digits_end_exec(v, start);
    let has_dot = p < n && *vstd::slice::slice_index_get(v.as_slice(), p) == '.';
    let q = if has_dot {
        digits_end_exec(v, p + 1)
    } else {
        p
    };
    let has_digits = p > start || (has_dot && q > p + 1);
    proof {
        assert forall|j: int| 0 <= j < b.len() implies #[trigger] b[j] == v@[j + start] by {}
        lemma_digits_end_shift(v@, start as int, start as int);
        assert(digits_end(b, 0) == p - start);
        if has_dot {
            lemma_digits_end_shift(v@, start as int, p as int + 1);
            assert(digits_end(b, p - start + 1) == q - start);
        }
    }
    if q == n {
        proof {
            assert(is_number_body(b) == has_digits);
        }
        return has_digits;
    }
    let cq = *vstd::slice::slice_index_get(v.as_slice(), q);
    if cq != 'e' && cq != 'E' {
        proof {
            assert(!is_number_body(b));
        }
        return false;
    }
    if !has_digits {
        proof {
            assert(!is_number_body(b));
        }
        return false;
    }
    let mut r = q + 1;
    if r < n {
        let cr = *vstd::slice::slice_index_get(v.as_slice(), r);
        if cr == '+' || cr == '-' {
            r = r + 1;
        }
    }
    if r == n {
        proof {
            assert(!is_exp_suffix(b, (q + 1 - start) as int));
            assert(!is_number_body(b));
        }
        return false;
    }
    let dend = digits_end_exec(v, r);
    let ok = dend == n;
    proof {
        lemma_digits_end_shift(v@, start as int, r as int);
        assert(is_exp_suffix(b, (q + 1 - start) as int) == ok);
        assert(is_number_body(b) == ok);
    }
    ok
}

/// `digits_end` over the sign-stripped view mirrors `digits_end` over the
/// original, shifted by the sign width.
proof fn lemma_digits_end_shift(s: Seq<char>, start: int, i: int)
    requires
        0 <= start <= i <= s.len(),
        strip_sign(s).len() == s.len() - start,
        forall|j: int| 0 <= j < strip_sign(s).len() ==> #[trigger] strip_sign(s)[j] == s[j + start],
    ensures
        digits_end(strip_sign(s), i - start) == digits_end(s, i) - start,
    decreases s.len() - i,
{
    if i == s.len() || !is_digit(s[i]) {
    } else {
        lemma_digits_end_shift(s, start, i + 1);
    }
}

/// Whether the character at `i` is `lower` ignoring ASCII case
/// (executable).
fn ci_char(v: &Vec<char>, i: usize, lower: char) -> (r: bool)
    requires
        i < v@.len(),
    ensures
        r == ci_is(v@[i as int], lower),
{
    let c = *vstd::slice::slice_index_get(v.as_slice(), i);
    c == lower || (c as u32 as u64) + 32 == lower as u32 as u64
}

/// Recognize a boolean literal (executable twin of `is_bool_literal`).
pub fn is_bool_chars(v: &Vec<char>) -> (r: Option<bool>)
    ensures
        r is Some <==> is_bool_literal(v@),
        r matches Some(x) ==> x == is_true_chars(v@),
{
    let n = v.len();
    if n == 4 {
        let ok = *vstd::slice::slice_index_get(v.as_slice(), 0) == 't'
            && *vstd::slice::slice_index_get(v.as_slice(), 1) == 'r'
            && *vstd::slice::slice_index_get(v.as_slice(), 2) == 'u'
            && *vstd::slice::slice_index_get(v.as_slice(), 3) == 'e';
        if ok {
            return Some(true);
        }
        return None;
    }
    if n == 5 {
        let ok = *vstd::slice::slice_index_get(v.as_slice(), 0) == 'f'
            && *vstd::slice::slice_index_get(v.as_slice(), 1) == 'a'
            && *vstd::slice::slice_index_get(v.as_slice(), 2) == 'l'
            && *vstd::slice::slice_index_get(v.as_slice(), 3) == 's'
            && *vstd::slice::slice_index_get(v.as_slice(), 4) == 'e';
        if ok {
            return Some(false);
        }
        return None;
    }
    None
}

/// Split one `key=value` override at its first `=` and classify the value:
/// an integer if it parses as a 64-bit signed integer, else a float
/// (carried as its literal text) if it matches the float grammar, else a
/// boolean if it is `true` or `false`; fails with `NoEquals` when there is
/// no `=`, and with `BadValue` when the value is none of the three.
pub fn parse_key_val(s: &str) -> (r: Result<(String, ParamOverrideValue), ConfigError>)
    ensures
        ({
            let cs = s@;
            let e = eq_pos_from(cs, 0);
            &&& (r matches Err(ConfigError::NoEquals { input }) ==> e == cs.len() && input@ == cs)
            &&& (e == cs.len() ==> r matches Err(ConfigError::NoEquals { input }))
            &&& (e < cs.len() ==> {
                let key = cs.subrange(0, e);
                let val = cs.subrange(e + 1, cs.len() as int);
                let int_ok = is_int_literal(val) && i64::MIN <= int_value(val) <= i64::MAX;
                &&& (r matches Ok(kv) ==> kv.0@ == key)
                &&& (int_ok ==> (r matches Ok(kv) && kv.1 == ParamOverrideValue::Int(
                    int_value(val) as i64,
                )))
                &&& (!int_ok && is_float_literal(val) ==> (r matches Ok(kv) && (
                kv.1 matches ParamOverrideValue::Float(text) && text@ == val)))
                &&& (!int_ok && !is_float_literal(val) && is_bool_literal(val) ==> (r matches Ok(
                    kv,
                ) && kv.1 == ParamOverrideValue::Bool(is_true_chars(val))))
                &&& (!int_ok && !is_float_literal(val) && !is_bool_literal(val) ==> (r matches Err(
                    ConfigError::BadValue { input },
                ) && input@ == cs))
            })
        }),
{
    let n = s.unicode_len();
    let mut e: usize = 0;
    let mut found = false;
    while e < n && !found
        invariant
            n == s@.len(),
            e <= n,
            !found ==> eq_pos_from(s@, 0) == eq_pos_from(s@, e as int),
            found ==> e < n && s@[e as int] == '=' && eq_pos_from(s@, 0) == e,
        decreases n - e + (if found {
            0int
        } else {
            1int
        }),
    {
        if s.get_char(e) == '=' {
            found = true;
        } else {
            e = e + 1;
        }
    }
    if !found {
        return Err(ConfigError::NoEquals { input: s.to_owned() });
    }
    let key: String = s.substring_char(0, e).to_owned();
    let val_str = s.substring_char(e + 1, n);
    let val = str_chars(val_str);
    match parse_i64_chars(&val) {
        Some(x) => {
            return Ok((key, ParamOverrideValue::Int(x)));
        },
        None => {},
    }
    if is_float_chars(&val) {
        return Ok((key, ParamOverrideValue::Float(val_str.to_owned())));
    }
    match is_bool_chars(&val) {
        Some(x) => {
            return Ok((key, ParamOverrideValue::Bool(x)));
        },
        None => {},
    }
    Err(ConfigError::BadValue { input: s.to_owned() })
}

} // verus!
