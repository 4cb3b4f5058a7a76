//! The grammar of floating-point literals, as `f64` parsing accepts them:
//! an optional sign, then either a special word (`inf`, `infinity`, `nan`,
//! case-insensitive) or a mantissa of decimal digits with at most one dot
//! and an optional `e`/`E` exponent.  Bounds coordinates are validated
//! against this grammar and carried as text; their numeric value is never
//! needed by the pipeline itself.

use vstd::prelude::*;
use vstd::string::StrSliceExecFns;

use crate::text::is_ascii_digit;
use crate::text::digit_char;

verus! {

/// Case-insensitive character match, for ASCII letters.
pub open spec fn ci_eq(a: char, b: char) -> bool {
    a == b || ('A' <= a && a <= 'Z' && (a as u32) + 32 == (b as u32))
}

/// Case-insensitive sequence match.
pub open spec fn matches_ci(s: Seq<char>, w: Seq<char>) -> bool {
    s.len() == w.len() && forall|k: int| 0 <= k < s.len() ==> ci_eq(s[k], w[k])
}

/// Every character in the sequence is a decimal digit.
pub open spec fn all_digits(s: Seq<char>) -> bool {
    forall|k: int| 0 <= k < s.len() ==> is_ascii_digit(s[k])
}

/// At least one digit, and nothing else.
pub open spec fn is_digits1(s: Seq<char>) -> bool {
    s.len() > 0 && all_digits(s)
}

/// The dot of a mantissa sits at position `i`: digits on both sides and
/// at least one digit somewhere.
pub open spec fn mantissa_dot_at(s: Seq<char>, i: int) -> bool {
    &&& 0 <= i < s.len()
    &&& s[i] == '.'
    &&& all_digits(s.take(i))
    &&& all_digits(s.skip(i + 1))
    &&& (i > 0 || s.len() > 1)
}

/// A mantissa: decimal digits with at most one dot and at least one digit.
pub open spec fn is_mantissa(s: Seq<char>) -> bool {
    is_digits1(s) || exists|i: int| #[trigger] mantissa_dot_at(s, i)
}

/// What may follow the exponent marker: an optional sign, then digits.
pub open spec fn is_exp_suffix(s: Seq<char>) -> bool {
    is_digits1(s) || (s.len() > 1 && (s[0] == '+' || s[0] == '-') && all_digits(s.skip(1)))
}

/// The exponent marker of a number sits at position `i`.
pub open spec fn number_exp_at(s: Seq<char>, i: int) -> bool {
    &&& 0 <= i < s.len()
    &&& (s[i] == 'e' || s[i] == 'E')
    &&& is_mantissa(s.take(i))
    &&& is_exp_suffix(s.skip(i + 1))
}

/// A number: a mantissa, optionally followed by a marked exponent.
pub open spec fn is_number(s: Seq<char>) -> bool {
    is_mantissa(s) || exists|i: int| #[trigger] number_exp_at(s, i)
}

/// One of the special words, matched case-insensitively.
pub open spec fn is_special(s: Seq<char>) -> bool {
    matches_ci(s, "inf"@) || matches_ci(s, "infinity"@) || matches_ci(s, "nan"@)
}

/// The literal with its optional leading sign removed.
pub open spec fn spec_unsigned_part(s: Seq<char>) -> Seq<char> {
    if s.len() > 0 && (s[0] == '+' || s[0] == '-') {
        s.drop_first()
    } else {
        s
    }
}

/// Whether `s` is a floating-point literal.
pub open spec fn is_float_literal(s: Seq<char>) -> bool {
    is_special(spec_unsigned_part(s)) || is_number(spec_unsigned_part(s))
}

/// A mantissa holds only digits and dots.
proof fn lemma_mantissa_chars(s: Seq<char>)
    requires
        is_mantissa(s),
    ensures
        forall|k: int| 0 <= k < s.len() ==> is_ascii_digit(s[k]) || s[k] == '.',
{
    if !is_digits1(s) {
        let i = choose|i: int| mantissa_dot_at(s, i);
        assert forall|k: int| 0 <= k < s.len() implies is_ascii_digit(s[k]) || s[k] == '.' by {
            if k < i {
                assert(s.take(i)[k] == s[k]);
            } else if k > i {
                assert(s.skip(i + 1)[k - i - 1] == s[k]);
            }
        }
    }
}

fn ci_eq_exec(a: char, b: char) -> (r: bool)
    ensures
        r == ci_eq(a, b),
{
    a == b || ('A' <= a && a <= 'Z' && (a as u32) + 32 == (b as u32))
}

fn matches_ci_exec(s: &str, w: &str) -> (r: bool)
    ensures
        r == matches_ci(s@, w@),
{
    let n = s.unicode_len();
    let m = w.unicode_len();
    if n != m {
        return false;
    }
    let mut k: usize = 0;
    while k < n
        invariant
            k <= n,
            n == s@.len() == w@.len(),
            forall|j: int| 0 <= j < k ==> ci_eq(s@[j], w@[j]),
        decreases n - k,
    {
        if !ci_eq_exec(s.get_char(k), w.get_char(k)) {
            return false;
        }
        k = k + 1;
    }
    true
}

/// Every character of `s` in `[from, to)` is a decimal digit.
fn digits_in_range(s: &str, from: usize, to: usize) -> (r: bool)
    requires
        from <= to <= s@.len(),
    ensures
        r == (forall|k: int| from <= k < to ==> is_ascii_digit(s@[k])),
{
    let mut k: usize = from;
    while k < to
        invariant
            from <= k <= to <= s@.len(),
            forall|j: int| from <= j < k ==> is_ascii_digit(s@[j]),
        decreases to - k,
    {
        if !digit_char(s.get_char(k)) {
            return false;
        }
        k = k + 1;
    }
    true
}

fn is_mantissa_exec(m: &str) -> (r: bool)
    ensures
        r == is_mantissa(m@),
{
    let n = m.unicode_len();
    // Find the first dot, if any.
    let mut dot: usize = n;
    let mut k: usize = 0;
    while k < n && dot == n
        invariant
            k <= n,
            n == m@.len(),
            dot == n || (dot < k && m@[dot as int] == '.'),
            forall|j: int| 0 <= j < k && j != dot ==> m@[j] != '.',
        decreases n - k,
    {
        if m.get_char(k) == '.' {
            dot = k;
        }
        k = k + 1;
    }
    if dot == n {
        // No dot anywhere: only the plain-digits form remains.
        let r = n > 0 && digits_in_range(m, 0, n);
        proof {
            assert forall|i: int| !mantissa_dot_at(m@, i) by {}
            if r {
                assert(is_digits1(m@));
            } else {
                assert(!is_digits1(m@));
            }
        }
        return r;
    }
    let before_ok = digits_in_range(m, 0, dot);
    let after_ok = digits_in_range(m, dot + 1, n);
    let r = before_ok && after_ok && (dot > 0 || n > 1);
    proof {
        if r {
            assert(all_digits(m@.take(dot as int))) by {
                assert(forall|k: int|
                    0 <= k < dot ==> m@.take(dot as int)[k] == m@[k]);
            }
            assert(all_digits(m@.skip(dot + 1))) by {
                assert(forall|k: int|
                    0 <= k < m@.len() - dot - 1 ==> #[trigger] m@.skip(dot + 1)[k] == m@[k + dot
                        + 1]);
            }
            assert(mantissa_dot_at(m@, dot as int));
        } else {
            // The first dot is the only candidate split; it does not work,
            // and the string cannot be all digits either.
            assert forall|i: int| !mantissa_dot_at(m@, i) by {
                if 0 <= i < m@.len() && m@[i] == '.' {
                    if i > dot {
                        assert(m@.take(i)[dot as int] == m@[dot as int]);
                        assert(!all_digits(m@.take(i)));
                    } else if i == dot {
                        if all_digits(m@.take(i)) && all_digits(m@.skip(i + 1)) {
                            assert(forall|k: int|
                                0 <= k < dot ==> m@[k] == m@.take(dot as int)[k]);
                            assert(forall|k: int|
                                dot + 1 <= k < m@.len() ==> #[trigger] m@[k] == m@.skip(dot + 1)[k
                                    - dot - 1]);
                            assert(before_ok && after_ok);
                            assert(!(dot > 0 || n > 1));
                        }
                    }
                }
            }
            assert(!is_digits1(m@));
        }
    }
    r
}

fn is_exp_suffix_exec(t: &str) -> (r: bool)
    ensures
        r == is_exp_suffix(t@),
{
    let n = t.unicode_len();
    if n == 0 {
        return false;
    }
    let c0 = t.get_char(0);
    if c0 == '+' || c0 == '-' {
        let r = n > 1 && digits_in_range(t, 1, n);
        proof {
            assert(!is_ascii_digit(t@[0]));
            if r {
                assert(all_digits(t@.skip(1))) by {
                    assert(forall|k: int|
                        0 <= k < t@.skip(1).len() ==> #[trigger] t@.skip(1)[k] == t@[k + 1]);
                }
            } else {
                assert(!is_digits1(t@));
                if t@.len() > 1 && all_digits(t@.skip(1)) {
                    assert(forall|k: int|
                        1 <= k < t@.len() ==> is_ascii_digit(#[trigger] t@[k])) by {
                        assert(forall|k: int|
                            1 <= k < t@.len() ==> #[trigger] t@[k] == t@.skip(1)[k - 1]);
                    }
                    assert(false);
                }
            }
        }
        r
    } else {
        let r = digits_in_range(t, 0, n);
        proof {
            if r {
                assert(is_digits1(t@));
            } else {
                assert(!is_digits1(t@));
            }
        }
        r
    }
}

fn is_number_exec(u: &str) -> (r: bool)
    ensures
        r == is_number(u@),
{
    let n = u.unicode_len();
    // Find the first exponent marker, if any.
    let mut marker: usize = n;
    let mut k: usize = 0;
    while k < n && marker == n
        invariant
            k <= n,
            n == u@.len(),
            marker == n || (marker < k && (u@[marker as int] == 'e' || u@[marker as int] == 'E')),
            forall|j: int| 0 <= j < k && j != marker ==> u@[j] != 'e' && u@[j] != 'E',
        decreases n - k,
    {
        let c = u.get_char(k);
        if c == 'e' || c == 'E' {
            marker = k;
        }
        k = k + 1;
    }
    if marker == n {
        let r = is_mantissa_exec(u);
        proof {
            assert forall|i: int| !number_exp_at(u@, i) by {}
        }
        return r;
    }
    let mpart = u.substring_char(0, marker);
    let epart = u.substring_char(marker + 1, n);
    proof {
        assert(mpart@ =~= u@.take(marker as int));
        assert(epart@ =~= u@.skip(marker + 1));
    }
    let m_ok = is_mantissa_exec(mpart);
    let e_ok = is_exp_suffix_exec(epart);
    let r = m_ok && e_ok;
    proof {
        if r {
            assert(number_exp_at(u@, marker as int));
        } else {
            assert forall|i: int| !number_exp_at(u@, i) by {
                if 0 <= i < u@.len() && (u@[i] == 'e' || u@[i] == 'E') && i > marker {
                    if is_mantissa(u@.take(i)) {
                        lemma_mantissa_chars(u@.take(i));
                        assert(u@.take(i)[marker as int] == u@[marker as int]);
                        assert(false);
                    }
                }
            }
            if is_mantissa(u@) {
                lemma_mantissa_chars(u@);
                assert(false);
            }
        }
    }
    r
}

/// Whether the text is a floating-point literal: optional sign, then a
/// special word or a digits-and-dot mantissa with optional exponent.
pub fn float_literal(s: &str) -> (r: bool)
    ensures
        r == is_float_literal(s@),
{
    let n = s.unicode_len();
    let off: usize = if n > 0 {
        let c0 = s.get_char(0);
        if c0 == '+' || c0 == '-' {
            1
        } else {
            0
        }
    } else {
        0
    };
    let u = s.substring_char(off, n);
    proof {
        assert(u@ =~= spec_unsigned_part(s@));
    }
    if matches_ci_exec(u, "inf") || matches_ci_exec(u, "infinity") || matches_ci_exec(u, "nan") {
        return true;
    }
    is_number_exec(u)
}

} // verus!
