//! Recognition of float literals.
//!
//! A float scalar is carried through the conversion in its textual form, and
//! the target document stores it as a real float, so the text must be
//! something the target side's float parser accepts.  That parser takes an
//! optional sign, then either one of the special words `inf`, `infinity` and
//! `nan` (in any letter case) or a number: digits with at most one decimal
//! point and at least one digit, followed by an optional exponent part
//! (`e` or `E`, an optional sign, and one or more digits).
//!
//! `is_float_text` states that grammar over a sequence of characters, and
//! `check_float_text` decides it.

use vstd::prelude::*;

verus! {

/// A decimal digit.
pub open spec fn is_ascii_digit(c: char) -> bool {
    '0' <= c && c <= '9'
}

/// The sequence with a single leading `+` or `-` removed, if there is one.
pub open spec fn strip_sign(s: Seq<char>) -> Seq<char> {
    if s.len() > 0 && (s[0] == '+' || s[0] == '-') {
        s.skip(1)
    } else {
        s
    }
}

/// The word `inf`, in any letter case.
pub open spec fn is_inf_text(s: Seq<char>) -> bool {
    &&& s.len() == 3
    &&& (s[0] == 'i' || s[0] == 'I')
    &&& (s[1] == 'n' || s[1] == 'N')
    &&& (s[2] == 'f' || s[2] == 'F')
}

/// The word `infinity`, in any letter case.
pub open spec fn is_infinity_text(s: Seq<char>) -> bool {
    &&& s.len() == 8
    &&& (s[0] == 'i' || s[0] == 'I')
    &&& (s[1] == 'n' || s[1] == 'N')
    &&& (s[2] == 'f' || s[2] == 'F')
    &&& (s[3] == 'i' || s[3] == 'I')
    &&& (s[4] == 'n' || s[4] == 'N')
    &&& (s[5] == 'i' || s[5] == 'I')
    &&& (s[6] == 't' || s[6] == 'T')
    &&& (s[7] == 'y' || s[7] == 'Y')
}

/// The word `nan`, in any letter case.
pub open spec fn is_nan_text(s: Seq<char>) -> bool {
    &&& s.len() == 3
    &&& (s[0] == 'n' || s[0] == 'N')
    &&& (s[1] == 'a' || s[1] == 'A')
    &&& (s[2] == 'n' || s[2] == 'N')
}

/// One of the special float words.
pub open spec fn is_special_text(s: Seq<char>) -> bool {
    is_inf_text(s) || is_infinity_text(s) || is_nan_text(s)
}

/// The part of a number before any exponent: decimal digits and at most one
/// decimal point, with at least one digit.
pub open spec fn is_mantissa_text(m: Seq<char>) -> bool {
    &&& forall|i: int| 0 <= i < m.len() ==> is_ascii_digit(m[i]) || m[i] == '.'
    &&& forall|i: int, j: int| 0 <= i < j < m.len() ==> !(m[i] == '.' && m[j] == '.')
    &&& exists|i: int| 0 <= i < m.len() && is_ascii_digit(m[i])
}

/// Marks the start of an exponent part.
pub open spec fn is_exp_marker(c: char) -> bool {
    c == 'e' || c == 'E'
}

/// What follows an exponent marker: an optional sign, then one or more digits.
pub open spec fn is_exponent_tail(t: Seq<char>) -> bool {
    let d = strip_sign(t);
    d.len() > 0 && (forall|i: int| 0 <= i < d.len() ==> is_ascii_digit(#[trigger] d[i]))
}

/// A number: a mantissa alone, or a mantissa followed by an exponent part.
pub open spec fn is_number_text(b: Seq<char>) -> bool {
    ||| is_mantissa_text(b)
    ||| exists|i: int|
        0 <= i < b.len() && is_exp_marker(#[trigger] b[i]) && is_mantissa_text(b.take(i))
            && is_exponent_tail(b.skip(i + 1))
}

/// The whole float grammar: an optional sign, then a special word or a number.
pub open spec fn is_float_text(s: Seq<char>) -> bool {
    is_special_text(strip_sign(s)) || is_number_text(strip_sign(s))
}

/// Decides whether the characters from `start` on spell one of the special
/// float words.
fn check_special(s: &str, start: usize) -> (r: bool)
    requires
        start <= s@.len(),
    ensures
        r == is_special_text(s@.skip(start as int)),
{
    let n = s.unicode_len();
    let ghost b = s@.skip(start as int);
    assert(b.len() == n - start);
    assert(forall|k: int| 0 <= k < b.len() ==> b[k] == s@[start + k]);
    if n - start == 3 {
        let c0 = s.get_char(start);
        let c1 = s.get_char(start + 1);
        let c2 = s.get_char(start + 2);
        let inf = (c0 == 'i' || c0 == 'I') && (c1 == 'n' || c1 == 'N') && (c2 == 'f' || c2 == 'F');
        let nan = (c0 == 'n' || c0 == 'N') && (c1 == 'a' || c1 == 'A') && (c2 == 'n' || c2 == 'N');
        inf || nan
    } else if n - start == 8 {
        let c0 = s.get_char(start);
        let c1 = s.get_char(start + 1);
        let c2 = s.get_char(start + 2);
        let c3 = s.get_char(start + 3);
        let c4 = s.get_char(start + 4);
        let c5 = s.get_char(start + 5);
        let c6 = s.get_char(start + 6);
        let c7 = s.get_char(start + 7);
        (c0 == 'i' || c0 == 'I') && (c1 == 'n' || c1 == 'N') && (c2 == 'f' || c2 == 'F')
            && (c3 == 'i' || c3 == 'I') && (c4 == 'n' || c4 == 'N') && (c5 == 'i' || c5 == 'I')
            && (c6 == 't' || c6 == 'T') && (c7 == 'y' || c7 == 'Y')
    } else {
        false
    }
}

/// Decides whether the characters from `start` on spell an exponent tail.
fn check_exponent_tail(s: &str, start: usize) -> (r: bool)
    requires
        start <= s@.len(),
    ensures
        r == is_exponent_tail(s@.skip(start as int)),
{
    let n = s.unicode_len();
    let ghost t = s@.skip(start as int);
    assert(forall|k: int| 0 <= k < t.len() ==> t[k] == s@[start + k]);
    let mut k = start;
    if k < n {
        let c = s.get_char(k);
        if c == '+' || c == '-' {
            k = k + 1;
        }
    }
    let ghost d = strip_sign(t);
    assert(d =~= s@.skip(k as int));
    if k == n {
        assert(d.len() == 0);
        return false;
    }
    let mut m = k;
    while m < n
        invariant
            k <= m <= n,
            n == s@.len(),
            d == strip_sign(s@.skip(start as int)),
            d == s@.skip(k as int),
            d.len() == n - k,
            forall|j: int| 0 <= j < m - k ==> is_ascii_digit(#[trigger] d[j]),
        decreases n - m,
    {
        let c = s.get_char(m);
        if !('0' <= c && c <= '9') {
            assert(d[m - k] == s@[m as int]);
            assert(!is_ascii_digit(d[m - k]));
            return false;
        }
        assert(d[m - k] == s@[m as int]);
        m = m + 1;
    }
    assert(d.len() > 0);
    true
}

/// Decides the float grammar for a whole string.
pub fn check_float_text(s: &str) -> (r: bool)
    ensures
        r == is_float_text(s@),
{
    let n = s.unicode_len();
    let mut start: usize = 0;
    if n > 0 {
        let c = s.get_char(0);
        if c == '+' || c == '-' {
            start = 1;
        }
    }
    let ghost b = strip_sign(s@);
    assert(b =~= s@.skip(start as int));
    if check_special(s, start) {
        return true;
    }
    // scan the mantissa: digits and at most one decimal point; an exponent
    // marker hands over to the exponent scan
    let mut digit_seen = false;
    let mut dot_seen = false;
    let mut j = start;
    while j < n
        invariant
            start <= j <= n,
            n == s@.len(),
            b == strip_sign(s@),
            b == s@.skip(start as int),
            b.len() == n - start,
            !is_special_text(b),
            forall|k: int| 0 <= k < b.len() ==> b[k] == s@[start + k],
            digit_seen <==> exists|k: int| 0 <= k < j - start && is_ascii_digit(#[trigger] b[k]),
            dot_seen <==> exists|k: int| 0 <= k < j - start && #[trigger] b[k] == '.',
            forall|k: int| 0 <= k < j - start ==> is_ascii_digit(#[trigger] b[k]) || b[k] == '.',
            forall|k: int, l: int| 0 <= k < l < j - start ==> !(b[k] == '.' && b[l] == '.'),
        decreases n - j,
    {
        let c = s.get_char(j);
        assert(b[j - start] == c);
        if '0' <= c && c <= '9' {
            digit_seen = true;
            j = j + 1;
        } else if c == '.' {
            if dot_seen {
                // a second decimal point: no reading of the string is a number
                assert(!is_mantissa_text(b));
                assert forall|i: int|
                    0 <= i < b.len() && is_exp_marker(#[trigger] b[i]) implies !is_mantissa_text(
                    b.take(i),
                ) by {
                    if i <= j - start {
                        assert(!is_exp_marker(b[j - start]));
                        if i < j - start {
                            assert(is_ascii_digit(b[i]) || b[i] == '.');
                        }
                    } else {
                        let k0 = choose|k: int| 0 <= k < j - start && #[trigger] b[k] == '.';
                        assert(b.take(i)[k0] == '.' && b.take(i)[j - start] == '.');
                    }
                }
                return false;
            }
            dot_seen = true;
            j = j + 1;
        } else if c == 'e' || c == 'E' {
            // an exponent marker at offset `e` of the unsigned part
            let ghost e = j - start;
            assert(is_exp_marker(b[e]));
            assert(!(is_ascii_digit(b[e]) || b[e] == '.'));
            assert(!is_mantissa_text(b));
            if !digit_seen {
                // no digit before the marker: nothing can make this a number
                assert forall|i: int|
                    0 <= i < b.len() && is_exp_marker(#[trigger] b[i]) implies !is_mantissa_text(
                    b.take(i),
                ) by {
                    if i <= e {
                        if exists|k: int| 0 <= k < i && is_ascii_digit(#[trigger] b.take(i)[k]) {
                            let k0 = choose|k: int|
                                0 <= k < i && is_ascii_digit(#[trigger] b.take(i)[k]);
                            assert(is_ascii_digit(b[k0]));
                        }
                    } else {
                        assert(b.take(i)[e] == b[e]);
                    }
                }
                return false;
            }
            assert(forall|i: int| 0 <= i < e ==> b.take(e)[i] == b[i]);
            assert(is_mantissa_text(b.take(e)));
            let tail_ok = check_exponent_tail(s, j + 1);
            proof {
                assert(s@.skip((j + 1) as int) =~= b.skip(e + 1));
            }
            if tail_ok {
                assert(is_number_text(b));
                return true;
            }
            // the exponent part is broken; no other split is a number either
            assert forall|i: int|
                0 <= i < b.len() && is_exp_marker(#[trigger] b[i]) && is_mantissa_text(
                b.take(i),
            ) implies !is_exponent_tail(b.skip(i + 1)) by {
                if i < e {
                    assert(is_ascii_digit(b[i]) || b[i] == '.');
                } else if i > e {
                    assert(b.take(i)[e] == b[e]);
                }
            }
            return false;
        } else {
            // a character no float literal may hold at this position
            assert(!is_mantissa_text(b));
            assert forall|i: int|
                0 <= i < b.len() && is_exp_marker(#[trigger] b[i]) implies !is_mantissa_text(
                b.take(i),
            ) by {
                if i <= j - start {
                    if i < j - start {
                        assert(is_ascii_digit(b[i]) || b[i] == '.');
                    }
                    assert(!is_exp_marker(b[j - start]));
                } else {
                    assert(b.take(i)[j - start] == b[j - start]);
                    assert(!(is_ascii_digit(b[j - start]) || b[j - start] == '.'));
                }
            }
            return false;
        }
    }
    // the whole unsigned part is the mantissa; it is a float exactly when it
    // held a digit
    if digit_seen {
        assert(is_mantissa_text(b));
        return true;
    }
    assert(!is_mantissa_text(b));
    assert(forall|i: int| 0 <= i < b.len() ==> !is_exp_marker(#[trigger] b[i]));
    false
}

} // verus!
