//! Small verified text utilities shared by the parsing layers: character
//! classification, exact and case-insensitive string comparison, and decimal
//! integer parsing.

use vstd::prelude::*;

verus! {

/// Lower-cases one ASCII letter; every other character is left unchanged.
pub open spec fn spec_ascii_lower(c: char) -> char {
    if 'A' <= c && c <= 'Z' {
        ((c as u8) + 32) as char
    } else {
        c
    }
}

/// The sequence with every ASCII upper-case letter lower-cased.
pub open spec fn spec_lowered(s: Seq<char>) -> Seq<char> {
    s.map_values(|c: char| spec_ascii_lower(c))
}

/// Lower-cases one ASCII letter; every other character is left unchanged.
pub fn ascii_lower(c: char) -> (r: char)
    ensures
        r == spec_ascii_lower(c),
{
    if 'A' <= c && c <= 'Z' {
        ((c as u8) + 32) as char
    } else {
        c
    }
}

/// Exact string equality, decided character by character.
pub fn str_eq(a: &str, b: &str) -> (r: bool)
    ensures
        r == (a@ == b@),
{
    let a_len = a.unicode_len();
    let b_len = b.unicode_len();
    if a_len != b_len {
        return false;
    }
    let mut i: usize = 0;
    while i < a_len
        invariant
            i <= a_len,
            a_len == a@.len(),
            a_len == b@.len(),
            forall|j: int| 0 <= j < i ==> a@[j] == b@[j],
        decreases a_len - i,
    {
        if a.get_char(i) != b.get_char(i) {
            return false;
        }
        i += 1;
    }
    proof {
        assert(a@ =~= b@);
    }
    true
}

/// Case-insensitive (ASCII) string equality.
pub fn str_eq_ignore_ascii_case(a: &str, b: &str) -> (r: bool)
    ensures
        r == (spec_lowered(a@) == spec_lowered(b@)),
{
    let a_len = a.unicode_len();
    let b_len = b.unicode_len();
    if a_len != b_len {
        proof {
            assert(spec_lowered(a@).len() != spec_lowered(b@).len());
        }
        return false;
    }
    let mut i: usize = 0;
    while i < a_len
        invariant
            i <= a_len,
            a_len == a@.len(),
            a_len == b@.len(),
            forall|j: int| 0 <= j < i ==> spec_ascii_lower(a@[j]) == spec_ascii_lower(b@[j]),
        decreases a_len - i,
    {
        if ascii_lower(a.get_char(i)) != ascii_lower(b.get_char(i)) {
            proof {
                assert(spec_lowered(a@)[i as int] != spec_lowered(b@)[i as int]);
            }
            return false;
        }
        i += 1;
    }
    proof {
        assert(spec_lowered(a@) =~= spec_lowered(b@));
    }
    true
}

/// Whether `c` is a decimal digit.
pub open spec fn is_digit(c: char) -> bool {
    '0' <= c && c <= '9'
}

/// The numeric value of one decimal digit.
pub open spec fn digit_val(c: char) -> int
    recommends
        is_digit(c),
{
    c as int - '0' as int
}

/// Whether every character of `s` is a decimal digit.
pub open spec fn all_digits(s: Seq<char>) -> bool {
    forall|i: int| 0 <= i < s.len() ==> is_digit(#[trigger] s[i])
}

/// The unbounded numeric value of a digit string, most significant first.
pub open spec fn digits_val(s: Seq<char>) -> int
    recommends
        all_digits(s),
    decreases s,
{
    if s.len() == 0 {
        0
    } else {
        digits_val(s.drop_last()) * 10 + digit_val(s.last())
    }
}

/// A digit string's value is not negative.
pub proof fn lemma_digits_val_nonneg(s: Seq<char>)
    requires
        all_digits(s),
    ensures
        digits_val(s) >= 0,
    decreases s.len(),
{
    if s.len() > 0 {
        assert(all_digits(s.drop_last()));
        lemma_digits_val_nonneg(s.drop_last());
    }
}

/// A digit string is worth at least any of its prefixes.
pub proof fn lemma_digits_prefix_le(s: Seq<char>, j: int)
    requires
        all_digits(s),
        0 <= j <= s.len(),
    ensures
        digits_val(s.take(j)) <= digits_val(s),
    decreases s.len() - j,
{
    if j < s.len() {
        lemma_digits_prefix_le(s, j + 1);
        assert(s.take(j + 1).drop_last() =~= s.take(j));
        assert(all_digits(s.take(j)));
        lemma_digits_val_nonneg(s.take(j));
        assert(digits_val(s.take(j + 1)) == digits_val(s.take(j)) * 10 + digit_val(s[j]));
    } else {
        assert(s.take(j) =~= s);
    }
}

/// What a decimal integer literal is worth: an optional sign followed by at
/// least one digit, provided the value fits in an `i64`; everything else is
/// rejected.
pub open spec fn spec_parse_i64(s: Seq<char>) -> Option<i64> {
    if s.len() >= 2 && s[0] == '-' {
        let rest = s.subrange(1, s.len() as int);
        if all_digits(rest) && -digits_val(rest) >= i64::MIN {
            Some((-digits_val(rest)) as i64)
        } else {
            None
        }
    } else if s.len() >= 2 && s[0] == '+' {
        let rest = s.subrange(1, s.len() as int);
        if all_digits(rest) && digits_val(rest) <= i64::MAX {
            Some(digits_val(rest) as i64)
        } else {
            None
        }
    } else if s.len() >= 1 && all_digits(s) && digits_val(s) <= i64::MAX {
        Some(digits_val(s) as i64)
    } else {
        None
    }
}

/// Parses a decimal `i64` literal: an optional `-` or `+` sign followed by
/// one or more digits. Unparseable text and out-of-range values yield
/// `None`, exactly as `spec_parse_i64` says.
pub fn parse_i64(s: &str) -> (r: Option<i64>)
    ensures
        r == spec_parse_i64(s@),
{
    let n = s.unicode_len();
    if n == 0 {
        return None;
    }
    let first = s.get_char(0);
    let neg = first == '-';
    let has_sign = neg || first == '+';
    let start: usize = if has_sign {
        1
    } else {
        0
    };
    if start == n {
        // a sign with no digits
        return None;
    }
    let ghost t = s@.subrange(start as int, n as int);
    let mut acc: i64 = 0;
    let mut i: usize = start;
    while i < n
        invariant
            n == s@.len(),
            start <= i <= n,
            start == (if has_sign { 1int } else { 0int }),
            has_sign ==> (s@[0] == '-' || s@[0] == '+'),
            !has_sign ==> s@.len() >= 1 && !(s@[0] == '-' || s@[0] == '+'),
            neg <==> (has_sign && s@[0] == '-'),
            start < n,
            t == s@.subrange(start as int, n as int),
            all_digits(t.take(i - start)),
            acc as int == (if neg {
                -digits_val(t.take(i - start))
            } else {
                digits_val(t.take(i - start))
            }),
        decreases n - i,
    {
        let c = s.get_char(i);
        if !('0' <= c && c <= '9') {
            proof {
                assert(t[i - start] == c);
                assert(!all_digits(t));
                if has_sign {
                    assert(t =~= s@.subrange(1, n as int));
                } else {
                    assert(t =~= s@);
                }
            }
            return None;
        }
        let d = (c as u32 - '0' as u32) as i64;
        proof {
            assert(t.take(i + 1 - start).drop_last() =~= t.take(i - start));
            assert(t.take(i + 1 - start).last() == t[i - start]);
            assert(t[i - start] == c);
            assert(all_digits(t.take(i + 1 - start)));
            assert(digits_val(t.take(i + 1 - start)) == digits_val(t.take(i - start)) * 10
                + digit_val(c));
        }
        let step = if neg {
            match acc.checked_mul(10) {
                Some(a) => a.checked_sub(d),
                None => None,
            }
        } else {
            match acc.checked_mul(10) {
                Some(a) => a.checked_add(d),
                None => None,
            }
        };
        match step {
            Some(a) => {
                acc = a;
            },
            None => {
                proof {
                    lemma_digits_val_nonneg(t.take(i - start));
                    assert(digit_val(c) == d as int);
                    if neg {
                        assert(-digits_val(t.take(i + 1 - start)) < i64::MIN);
                    } else {
                        assert(digits_val(t.take(i + 1 - start)) > i64::MAX);
                    }
                    if all_digits(t) {
                        lemma_digits_prefix_le(t, i + 1 - start);
                        lemma_digits_val_nonneg(t);
                    }
                    if has_sign {
                        assert(t =~= s@.subrange(1, n as int));
                    } else {
                        assert(t =~= s@);
                    }
                }
                return None;
            },
        }
        i += 1;
    }
    proof {
        assert(t.take(n - start) =~= t);
        if neg {
            lemma_digits_val_nonneg(t);
            assert(s@.len() >= 2 && s@[0] == '-');
            assert(spec_parse_i64(s@) == Some((-digits_val(t)) as i64));
        } else if has_sign {
            assert(s@.len() >= 2 && s@[0] == '+');
        } else {
            assert(t =~= s@);
        }
    }
    Some(acc)
}

/// The character for one decimal digit value.
pub open spec fn digit_char(d: int) -> char
    recommends
        0 <= d <= 9,
{
    ((d + 48) as u8) as char
}

/// The decimal digits of a value that is not negative, most significant
/// first and without leading zeros.
pub open spec fn dec_digits(n: int) -> Seq<char>
    recommends
        n >= 0,
    decreases n,
{
    if n < 10 {
        seq![digit_char(n)]
    } else {
        dec_digits(n / 10).push(digit_char(n % 10))
    }
}

/// The canonical decimal string of an integer: a minus sign for negative
/// values, then the digits.
pub open spec fn dec_str_i64(x: int) -> Seq<char> {
    if x < 0 {
        seq!['-'] + dec_digits(-x)
    } else {
        dec_digits(x)
    }
}

/// The decimal digits of `n` are digits and are worth `n`.
pub proof fn lemma_dec_digits(n: int)
    requires
        n >= 0,
    ensures
        all_digits(dec_digits(n)),
        digits_val(dec_digits(n)) == n,
        dec_digits(n).len() >= 1,
    decreases n,
{
    if n < 10 {
        assert(is_digit(digit_char(n)));
        assert(digit_val(digit_char(n)) == n);
        assert(dec_digits(n).drop_last() =~= Seq::<char>::empty());
        assert(digits_val(dec_digits(n)) == digits_val(Seq::<char>::empty()) * 10 + digit_val(
            digit_char(n),
        ));
    } else {
        lemma_dec_digits(n / 10);
        let d = dec_digits(n / 10);
        assert(d.push(digit_char(n % 10)).drop_last() =~= d);
        assert(is_digit(digit_char(n % 10)));
        assert(digit_val(digit_char(n % 10)) == n % 10);
        assert(forall|i: int|
            0 <= i < d.push(digit_char(n % 10)).len() ==> is_digit(
                #[trigger] d.push(digit_char(n % 10))[i],
            ));
        assert(digits_val(d.push(digit_char(n % 10))) == (n / 10) * 10 + (n % 10));
        vstd::arithmetic::div_mod::lemma_fundamental_div_mod(n, 10);
    }
}

/// Round trip: parsing the canonical decimal string of any `i64` gives that
/// value back.
pub proof fn lemma_parse_i64_roundtrip(x: i64)
    ensures
        spec_parse_i64(dec_str_i64(x as int)) == Some(x),
{
    if x < 0 {
        let m = -(x as int);
        lemma_dec_digits(m);
        let s = seq!['-'] + dec_digits(m);
        assert(s[0] == '-');
        assert(s.len() >= 2);
        assert(s.subrange(1, s.len() as int) =~= dec_digits(m));
    } else {
        let s = dec_digits(x as int);
        lemma_dec_digits(x as int);
        assert(is_digit(s[0]));
        assert(s[0] != '-' && s[0] != '+');
    }
}

} // verus!
