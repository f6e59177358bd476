//! Amount normalization.
//!
//! A transaction amount is a bare ASCII decimal string: an optional sign,
//! then digits with at most one dot, and at least one digit somewhere.  No
//! currency symbols, no locale handling, no exponent notation.  A token that
//! does not match, or whose integer part is too large to represent, is
//! rejected.  The parsed value is kept exact, as a sign, an integer part and
//! a sequence of fraction digits, canonicalized so that equal numbers have
//! equal representations: trailing zero fraction digits are dropped, and
//! zero is never negative.

use vstd::prelude::*;
use crate::digits::all_digits;
use crate::digits::check_digits;
use crate::digits::digit_val;
use crate::digits::digits_val;
use crate::digits::is_digit;
use crate::digits::lemma_digits_val_bounds;

verus! {

/// A signed decimal number, exactly as written modulo canonicalization: the
/// value is `(-1)^negative * (units + 0.f1 f2 ...)` where `f1 f2 ...` are
/// the digits of `frac`.
#[derive(Clone, Debug, PartialEq, Eq)]
pub struct Amount {
    pub negative: bool,
    pub units: u64,
    pub frac: Vec<u8>,
}

/// Mathematical mirror of [`Amount`].
pub struct AmountView {
    pub negative: bool,
    pub units: u64,
    pub frac: Seq<u8>,
}

impl View for Amount {
    type V = AmountView;

    open spec fn view(&self) -> AmountView {
        AmountView { negative: self.negative, units: self.units, frac: self.frac@ }
    }
}

impl DeepView for Amount {
    type V = AmountView;

    open spec fn deep_view(&self) -> AmountView {
        self.view()
    }
}

/// Index of the first `.` at or after `k`, or the length of `s` when there
/// is none.
pub open spec fn first_dot_from(s: Seq<char>, k: int) -> int
    decreases s.len() - k,
{
    if k < 0 || k >= s.len() {
        s.len() as int
    } else if s[k] == '.' {
        k
    } else {
        first_dot_from(s, k + 1)
    }
}

/// The digits of `s[a..b]` as digit values.
pub open spec fn digits_seq(s: Seq<char>, a: int, b: int) -> Seq<u8> {
    Seq::new((b - a) as nat, |i: int| digit_val(s[a + i]) as u8)
}

/// `fs` with its trailing zeroes removed.
pub open spec fn strip_trailing_zeros(fs: Seq<u8>) -> Seq<u8>
    decreases fs.len(),
{
    if fs.len() > 0 && fs[fs.len() - 1] == 0 {
        strip_trailing_zeros(fs.subrange(0, fs.len() - 1))
    } else {
        fs
    }
}

/// The amount a raw token writes: optional sign, digits with at most one
/// dot, at least one digit, integer part representable.  `None` otherwise.
pub open spec fn spec_parse_amount(s: Seq<char>) -> Option<AmountView> {
    if s.len() == 0 {
        None
    } else {
        let k: int = if s[0] == '-' || s[0] == '+' {
            1
        } else {
            0
        };
        let dot = first_dot_from(s, k);
        let fc: int = if dot < s.len() {
            s.len() - dot - 1
        } else {
            0
        };
        if !all_digits(s, k, dot) {
            None
        } else if dot < s.len() && !all_digits(s, dot + 1, s.len() as int) {
            None
        } else if (dot - k) + fc < 1 {
            None
        } else if digits_val(s, k, dot) > u64::MAX {
            None
        } else {
            let units = digits_val(s, k, dot) as u64;
            let frac = if dot < s.len() {
                strip_trailing_zeros(digits_seq(s, dot + 1, s.len() as int))
            } else {
                Seq::<u8>::empty()
            };
            let negative = s[0] == '-' && !(units == 0 && frac.len() == 0);
            Some(AmountView { negative, units, frac })
        }
    }
}

proof fn lemma_first_dot_at(s: Seq<char>, k: int, i: int)
    requires
        0 <= k <= i <= s.len(),
        forall|j: int| k <= j < i ==> s[j] != '.',
        i < s.len() ==> s[i] == '.',
    ensures
        first_dot_from(s, k) == i,
    decreases i - k,
{
    if k < i {
        lemma_first_dot_at(s, k + 1, i);
    }
}

proof fn lemma_digits_val_monotone(s: Seq<char>, a: int, j: int, b: int)
    requires
        a <= j <= b,
        all_digits(s, a, b),
    ensures
        digits_val(s, a, j) <= digits_val(s, a, b),
    decreases b - j,
{
    if j < b {
        lemma_digits_val_monotone(s, a, j, b - 1);
        lemma_digits_val_bounds(s, a, b - 1);
        assert(is_digit(s[b - 1]));
    }
}

/// Parses a raw amount token into its exact decimal value; `None` when the
/// token is not a bare decimal number or its integer part is too large to
/// represent.
#[verifier::loop_isolation(false)]
pub fn parse_amount(s: &str) -> (r: Option<Amount>)
    ensures
        match r {
            Some(a) => spec_parse_amount(s@) == Some(a@),
            None => spec_parse_amount(s@) is None,
        },
{
    let n = s.unicode_len();
    if n == 0 {
        return None;
    }
    let c0 = s.get_char(0);
    let k: usize = if c0 == '-' || c0 == '+' {
        1
    } else {
        0
    };
    let mut dot = k;
    while dot < n && s.get_char(dot) != '.'
        invariant
            k <= dot <= n,
            n == s@.len(),
            forall|j: int| k <= j < dot ==> s@[j] != '.',
        decreases n - dot,
    {
        dot = dot + 1;
    }
    proof {
        lemma_first_dot_at(s@, k as int, dot as int);
    }
    if !check_digits(s, k, dot) {
        return None;
    }
    if dot < n && !check_digits(s, dot + 1, n) {
        return None;
    }
    let fc: usize = if dot < n {
        n - dot - 1
    } else {
        0
    };
    if dot - k == 0 && fc == 0 {
        return None;
    }
    let mut units: u64 = 0;
    let mut j = k;
    while j < dot
        invariant
            k <= j <= dot <= n,
            n == s@.len(),
            all_digits(s@, k as int, dot as int),
            units == digits_val(s@, k as int, j as int),
        decreases dot - j,
    {
        proof {
            assert(is_digit(s@[j as int]));
        }
        let d = (s.get_char(j) as u32 - 48) as u64;
        if units > (u64::MAX - d) / 10 {
            proof {
                assert(units * 10 + d > u64::MAX) by (nonlinear_arith)
                    requires
                        units > (u64::MAX - d) / 10,
                        0 <= d <= 9,
                        units <= u64::MAX,
                ;
                lemma_digits_val_monotone(s@, k as int, j + 1, dot as int);
            }
            return None;
        }
        proof {
            assert(units * 10 + d <= u64::MAX) by (nonlinear_arith)
                requires
                    units <= (u64::MAX - d) / 10,
                    0 <= d <= 9,
            ;
        }
        units = units * 10 + d;
        j = j + 1;
    }
    proof {
        lemma_digits_val_bounds(s@, k as int, dot as int);
    }
    let mut frac: Vec<u8> = Vec::new();
    if dot < n {
        let mut j2 = dot + 1;
        proof {
            assert(frac@ =~= digits_seq(s@, dot + 1, dot + 1));
        }
        while j2 < n
            invariant
                dot + 1 <= j2 <= n,
                n == s@.len(),
                all_digits(s@, dot + 1, n as int),
                frac@ == digits_seq(s@, dot + 1, j2 as int),
            decreases n - j2,
        {
            proof {
                assert(is_digit(s@[j2 as int]));
            }
            let d = (s.get_char(j2) as u32 - 48) as u8;
            frac.push(d);
            proof {
                assert(frac@ =~= digits_seq(s@, dot + 1, j2 + 1));
            }
            j2 = j2 + 1;
        }
        let ghost full = digits_seq(s@, dot + 1, n as int);
        while frac.len() > 0 && frac[frac.len() - 1] == 0
            invariant
                strip_trailing_zeros(full) == strip_trailing_zeros(frac@),
            decreases frac.len(),
        {
            let ghost before = frac@;
            frac.pop();
            proof {
                assert(frac@ =~= before.subrange(0, before.len() - 1));
            }
        }
        proof {
            assert(strip_trailing_zeros(frac@) == frac@);
        }
    }
    let negative = c0 == '-' && !(units == 0 && frac.len() == 0);
    Some(Amount { negative, units, frac })
}

} // verus!
