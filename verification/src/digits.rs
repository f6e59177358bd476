//! Decimal digit strings.
//!
//! Shared vocabulary for the date-time and amount normalizers: which
//! characters are digits, the number a run of digits writes, and checked
//! routines that read such runs.

use vstd::prelude::*;

verus! {

/// A decimal digit.
pub open spec fn is_digit(c: char) -> bool {
    48 <= c as u32 && c as u32 <= 57
}

/// The value of a decimal digit.
pub open spec fn digit_val(c: char) -> int {
    c as u32 - 48
}

/// Every character of `s[a..b]` is a decimal digit.
pub open spec fn all_digits(s: Seq<char>, a: int, b: int) -> bool {
    forall|j: int| a <= j < b ==> is_digit(s[j])
}

/// The number written by the digits `s[a..b]`, most significant first.
pub open spec fn digits_val(s: Seq<char>, a: int, b: int) -> int
    decreases b - a,
{
    if b <= a {
        0
    } else {
        digits_val(s, a, b - 1) * 10 + digit_val(s[b - 1])
    }
}

/// Ten to the power `n`.
pub open spec fn pow10(n: int) -> int
    decreases n,
{
    if n <= 0 {
        1
    } else {
        10 * pow10(n - 1)
    }
}

pub proof fn lemma_digits_val_bounds(s: Seq<char>, a: int, b: int)
    requires
        a <= b,
        all_digits(s, a, b),
    ensures
        0 <= digits_val(s, a, b) < pow10(b - a),
    decreases b - a,
{
    if a < b {
        lemma_digits_val_bounds(s, a, b - 1);
    }
}

/// Reads the number written by the digits `s[a..b]`, at most four of them.
pub(crate) fn read_digits_u32(s: &str, a: usize, b: usize) -> (v: u32)
    requires
        a <= b <= s@.len(),
        b - a <= 4,
        all_digits(s@, a as int, b as int),
    ensures
        v == digits_val(s@, a as int, b as int),
        v < pow10((b - a) as int),
{
    proof {
        reveal_with_fuel(pow10, 6);
    }
    let mut v: u32 = 0;
    let mut j = a;
    while j < b
        invariant
            a <= j <= b <= s@.len(),
            b - a <= 4,
            all_digits(s@, a as int, b as int),
            v == digits_val(s@, a as int, j as int),
            v < pow10((j - a) as int),
        decreases b - j,
    {
        proof {
            reveal_with_fuel(pow10, 6);
            assert(j - a == 0 || j - a == 1 || j - a == 2 || j - a == 3);
            assert(pow10((j - a) as int) <= 1000);
            assert(is_digit(s@[j as int]));
        }
        let d = s.get_char(j) as u32;
        v = v * 10 + (d - 48);
        j = j + 1;
    }
    v
}

/// Every character of `s[a..b]` is a decimal digit.
pub(crate) fn check_digits(s: &str, a: usize, b: usize) -> (r: bool)
    requires
        a <= b <= s@.len(),
    ensures
        r == all_digits(s@, a as int, b as int),
{
    let mut j = a;
    while j < b
        invariant
            a <= j <= b <= s@.len(),
            forall|k: int| a <= k < j ==> is_digit(s@[k]),
        decreases b - j,
    {
        let u = s.get_char(j) as u32;
        if u < 48 || u > 57 {
            proof {
                assert(!is_digit(s@[j as int]));
            }
            return false;
        }
        j = j + 1;
    }
    true
}

} // verus!
