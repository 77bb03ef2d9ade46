//! Decimal notation of unsigned integers: the grammar that `u32::from_str`
//! accepts, and the digits that `Display` writes.
use vstd::prelude::*;
use crate::text::push_char;

verus! {

/// Why a decimal literal was refused (the kinds of `std::num::ParseIntError`
/// that an unsigned type can raise).
#[derive(Debug, Clone, Copy, PartialEq, Eq)]
pub enum IntErrorKind {
    /// The literal is empty.
    Empty,
    /// The literal holds a character that is not a decimal digit.
    InvalidDigit,
    /// The literal denotes a number larger than the target type holds.
    PosOverflow,
}

pub open spec fn is_digit(c: char) -> bool {
    '0' <= c && c <= '9'
}

pub open spec fn digit_value(c: char) -> nat {
    (c as int - '0' as int) as nat
}

pub open spec fn digit_char(d: nat) -> char {
    (d + '0' as int) as char
}

pub open spec fn all_digits(s: Seq<char>) -> bool {
    forall|i: int| 0 <= i < s.len() ==> #[trigger] is_digit(s[i])
}

/// The number that a sequence of decimal digits denotes.
pub open spec fn decimal_value(s: Seq<char>) -> nat
    decreases s.len(),
{
    if s.len() == 0 {
        0
    } else {
        decimal_value(s.drop_last()) * 10 + digit_value(s.last())
    }
}

/// The number of decimal digits at the start of `s`.
pub open spec fn digit_prefix_len(s: Seq<char>) -> nat
    decreases s.len(),
{
    if s.len() == 0 || !is_digit(s[0]) {
        0
    } else {
        1 + digit_prefix_len(s.drop_first())
    }
}

/// What `u32::from_str` gives back: an optional `+`, then decimal digits whose
/// value fits in a `u32`. The digits are read from the left, so a value too
/// large for the type is reported before a later character that is no digit.
pub open spec fn spec_u32_from_str(s: Seq<char>) -> Result<u32, IntErrorKind> {
    if s.len() == 0 {
        Err(IntErrorKind::Empty)
    } else if s.len() == 1 && (s[0] == '+' || s[0] == '-') {
        Err(IntErrorKind::InvalidDigit)
    } else {
        let d = if s[0] == '+' { s.drop_first() } else { s };
        let k = digit_prefix_len(d);
        if decimal_value(d.take(k as int)) > u32::MAX {
            Err(IntErrorKind::PosOverflow)
        } else if k < d.len() {
            Err(IntErrorKind::InvalidDigit)
        } else {
            Ok(decimal_value(d) as u32)
        }
    }
}

/// The decimal digits of `n` as `Display` writes them: no sign, no leading zero.
pub open spec fn decimal_digits(n: nat) -> Seq<char>
    decreases n,
{
    if n < 10 {
        seq![digit_char(n)]
    } else {
        decimal_digits(n / 10).push(digit_char(n % 10))
    }
}

pub proof fn lemma_digit_char(d: nat)
    requires
        d < 10,
    ensures
        is_digit(digit_char(d)),
        digit_value(digit_char(d)) == d,
{
}

/// The digits of `n` are digits, there is at least one, they denote `n`, and
/// the first is a zero only for zero itself.
pub proof fn lemma_decimal_digits(n: nat)
    ensures
        decimal_digits(n).len() >= 1,
        all_digits(decimal_digits(n)),
        decimal_value(decimal_digits(n)) == n,
        decimal_digits(n)[0] != '+',
        decimal_digits(n)[0] == '0' ==> n == 0,
        n == 0 ==> decimal_digits(n) == seq!['0'],
    decreases n,
{
    if n < 10 {
        lemma_digit_char(n);
        assert(decimal_digits(n).drop_last() =~= Seq::<char>::empty());
        assert(decimal_value(Seq::<char>::empty()) == 0);
    } else {
        lemma_decimal_digits(n / 10);
        lemma_digit_char(n % 10);
        let p = decimal_digits(n / 10);
        assert(decimal_digits(n).drop_last() =~= p);
        assert((n / 10) * 10 + n % 10 == n) by (nonlinear_arith);
        assert forall|i: int| 0 <= i < decimal_digits(n).len() implies #[trigger] is_digit(
            decimal_digits(n)[i],
        ) by {
            if i < p.len() {
                assert(decimal_digits(n)[i] == p[i]);
            }
        }
    }
}

pub proof fn lemma_digit_prefix_len_bound(s: Seq<char>)
    ensures
        digit_prefix_len(s) <= s.len(),
        all_digits(s.take(digit_prefix_len(s) as int)),
        digit_prefix_len(s) < s.len() ==> !is_digit(s[digit_prefix_len(s) as int]),
    decreases s.len(),
{
    if s.len() != 0 && is_digit(s[0]) {
        lemma_digit_prefix_len_bound(s.drop_first());
        let k: int = digit_prefix_len(s.drop_first()) as int;
        assert forall|i: int| 0 <= i < k + 1 implies #[trigger] is_digit(s.take(k + 1)[i]) by {
            if i > 0 {
                assert(s.take(k + 1)[i] == s.drop_first().take(k)[i - 1]);
            }
        }
        if k + 1 < s.len() {
            assert(s[k + 1] == s.drop_first()[k]);
        }
    }
}

/// Where the first `i` characters are digits and the next one is not (or
/// there is none), the digit prefix has length `i`.
pub proof fn lemma_digit_prefix_len_is(s: Seq<char>, i: int)
    requires
        0 <= i <= s.len(),
        forall|j: int| 0 <= j < i ==> #[trigger] is_digit(s[j]),
        i < s.len() ==> !is_digit(s[i]),
    ensures
        digit_prefix_len(s) == i,
    decreases i,
{
    if i > 0 {
        assert forall|j: int| 0 <= j < i - 1 implies #[trigger] is_digit(s.drop_first()[j]) by {
            assert(s.drop_first()[j] == s[j + 1]);
        }
        if i - 1 < s.drop_first().len() {
            assert(s.drop_first()[i - 1] == s[i]);
        }
        lemma_digit_prefix_len_is(s.drop_first(), i - 1);
    }
}

/// Longer prefixes of a run of digits denote numbers at least as large.
pub proof fn lemma_decimal_value_monotone(s: Seq<char>, i: int, j: int)
    requires
        0 <= i <= j <= s.len(),
        all_digits(s.take(j)),
    ensures
        decimal_value(s.take(i)) <= decimal_value(s.take(j)),
    decreases j - i,
{
    if i < j {
        lemma_decimal_value_monotone(s, i, j - 1);
        assert(s.take(j).drop_last() =~= s.take(j - 1));
        assert(all_digits(s.take(j - 1))) by {
            assert forall|k: int| 0 <= k < j - 1 implies #[trigger] is_digit(s.take(j - 1)[k]) by {
                assert(s.take(j - 1)[k] == s.take(j)[k]);
            }
        }
    }
}

/// Appends the decimal digits of `n` to `s`.
pub fn push_decimal(s: &mut String, n: u128)
    ensures
        final(s)@ == old(s)@ + decimal_digits(n as nat),
    decreases n,
{
    if n >= 10 {
        push_decimal(s, n / 10);
    }
    let d: u8 = (n % 10) as u8;
    let c: char = (48u8 + d) as char;
    assert(c == digit_char((n % 10) as nat));
    push_char(s, c);
    proof {
        if n < 10 {
            assert(n % 10 == n);
        }
    }
}

/// The decimal notation of `n` (what `n.to_string()` gives).
pub fn format_decimal(n: u128) -> (s: String)
    ensures
        s@ == decimal_digits(n as nat),
        s@.len() >= 1,
        forall|i: int| 0 <= i < s@.len() ==> '0' <= #[trigger] s@[i] <= '9',
        decimal_value(s@) == n,
        s@.len() > 1 ==> s@[0] != '0',
{
    let mut s = String::new();
    push_decimal(&mut s, n);
    proof {
        lemma_decimal_digits(n as nat);
        assert forall|i: int| 0 <= i < s@.len() implies '0' <= #[trigger] s@[i] <= '9' by {
            assert(is_digit(s@[i]));
        }
    }
    s
}

/// Parses a decimal `u32` as `u32::from_str` does.
pub fn parse_u32(s: &Vec<char>) -> (r: Result<u32, IntErrorKind>)
    ensures
        r == spec_u32_from_str(s@),
{
    let n = s.len();
    if n == 0 {
        return Err(IntErrorKind::Empty);
    }
    if n == 1 && (s[0] == '+' || s[0] == '-') {
        return Err(IntErrorKind::InvalidDigit);
    }
    let start: usize = if s[0] == '+' { 1 } else { 0 };
    let ghost d = if s@[0] == '+' { s@.drop_first() } else { s@ };
    assert(d =~= s@.subrange(start as int, n as int));
    let mut acc: u64 = 0;
    let mut i: usize = start;
    while i < n
        invariant
            start <= i <= n,
            n == s.len(),
            d == s@.subrange(start as int, n as int),
            n > 0,
            !(n == 1 && (s@[0] == '+' || s@[0] == '-')),
            d == (if s@[0] == '+' { s@.drop_first() } else { s@ }),
            all_digits(d.take(i - start)),
            acc == decimal_value(d.take(i - start)),
            acc <= u32::MAX,
        decreases n - i,
    {
        let c = s[i];
        let k = i - start;
        assert(d[k as int] == c);
        if !(c >= '0' && c <= '9') {
            proof {
                assert forall|j: int| 0 <= j < k implies #[trigger] is_digit(d[j]) by {
                    assert(d.take(k as int)[j] == d[j]);
                }
                lemma_digit_prefix_len_is(d, k as int);
            }
            return Err(IntErrorKind::InvalidDigit);
        }
        let v: u64 = (c as u32 - '0' as u32) as u64;
        assert(d.take(k + 1).drop_last() =~= d.take(k as int));
        assert(all_digits(d.take(k + 1))) by {
            assert forall|j: int| 0 <= j < k + 1 implies #[trigger] is_digit(d.take(k + 1)[j]) by {
                if j < k {
                    assert(d.take(k + 1)[j] == d.take(k as int)[j]);
                }
            }
        }
        let next: u64 = acc * 10 + v;
        if next > 4294967295u64 {
            proof {
                lemma_digit_prefix_len_bound(d);
                let p = digit_prefix_len(d);
                assert(p >= k + 1) by {
                    if p < k + 1 {
                        assert(d.take(k + 1)[p as int] == d[p as int]);
                    }
                }
                assert(d.take(p as int).take(k + 1) =~= d.take(k + 1));
                lemma_decimal_value_monotone(d.take(p as int), k + 1, p as int);
                assert(d.take(p as int).take(p as int) =~= d.take(p as int));
            }
            return Err(IntErrorKind::PosOverflow);
        }
        acc = next;
        i = i + 1;
    }
    proof {
        assert(d.take(n - start) =~= d);
        lemma_digit_prefix_len_is(d, d.len() as int);
    }
    Ok(acc as u32)
}

/// The number denoted by the decimal notation of a `u32` is read back unchanged.
pub proof fn lemma_u32_from_str_of_decimal_digits(v: u32)
    ensures
        spec_u32_from_str(decimal_digits(v as nat)) == Ok::<u32, IntErrorKind>(v),
{
    let s = decimal_digits(v as nat);
    lemma_decimal_digits(v as nat);
    if s.len() == 1 {
        assert(is_digit(s[0]));
    }
    lemma_digit_prefix_len_is(s, s.len() as int);
    assert(s.take(s.len() as int) =~= s);
}

} // verus!
