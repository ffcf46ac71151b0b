//! Exchange rates as exact decimal numbers.

use vstd::prelude::*;

use crate::text::{
    decimal_digits, digits_only, digits_value, is_digit, lemma_digits_prefix, lemma_pow10_add, lemma_pow10_19, lemma_pow10_monotonic, lemma_pow10_positive, padded_digits,
    pow10, pow10_u64, push_char, push_decimal, push_padded,
};

verus! {

/// The largest number of fractional digits that a `Rate` carries.
pub const MAX_SCALE: u8 = 19;

/// A non-negative decimal number, `units / 10^scale`.
///
/// Its view is the pair `(units, scale)`. Two rates written with a different
/// number of fractional digits (`9.5` and `9.50`) have different views and the
/// same value: compare them with `below`.
#[derive(Clone, Copy, Debug, PartialEq, Eq, Structural)]
pub struct Rate {
    units: u64,
    scale: u8,
}

impl View for Rate {
    type V = (nat, nat);

    closed spec fn view(&self) -> (nat, nat) {
        (self.units as nat, self.scale as nat)
    }
}

/// `n / m` rounded to the nearest integer, a tie going to the even neighbour.
pub open spec fn round_half_even(n: nat, m: nat) -> nat
    recommends
        m > 0,
{
    let q = n / m;
    let r = n % m;
    if 2 * r > m || (2 * r == m && q % 2 == 1) {
        q + 1
    } else {
        q
    }
}

/// `a * b`, which always fits in 128 bits.
fn wide_mul(a: u64, b: u64) -> (r: u128)
    ensures
        r as nat == a as nat * b as nat,
{
    assert(a as nat * b as nat <= 0xffff_ffff_ffff_ffff * 0xffff_ffff_ffff_ffff) by (nonlinear_arith)
        requires
            a <= 0xffff_ffff_ffff_ffffu64,
            b <= 0xffff_ffff_ffff_ffffu64,
    ;
    a as u128 * b as u128
}

/// `s` writes a decimal number with its point at `p`: `p == s.len()` when
/// it has none, and the digits before the point, and those after it if there
/// is a point, are non-empty runs of decimal digits (`12`, `9.5`).
pub open spec fn decimal_form(s: Seq<char>, p: int) -> bool {
    &&& 0 < p <= s.len()
    &&& forall|i: int| 0 <= i < p ==> is_digit(#[trigger] s[i])
    &&& p < s.len() ==> {
        &&& s[p] == '.'
        &&& p + 1 < s.len()
        &&& forall|i: int| p < i < s.len() ==> is_digit(#[trigger] s[i])
    }
}

/// The `(units, scale)` that `s` writes with its point at `p`.
pub open spec fn decimal_parts(s: Seq<char>, p: int) -> (nat, nat) {
    (digits_value(digits_only(s)), if p < s.len() { (s.len() - p - 1) as nat } else { 0 })
}

/// A `Rate` can hold the pair `(units, scale)`.
pub open spec fn fits(parts: (nat, nat)) -> bool {
    parts.0 <= u64::MAX && parts.1 <= MAX_SCALE
}

/// A string whose first `i` characters hold more digits than a `u64` holds
/// has no `fits` decimal form.
proof fn lemma_no_fit(s: Seq<char>, i: int)
    requires
        0 <= i <= s.len(),
        digits_value(digits_only(s.subrange(0, i))) > u64::MAX,
    ensures
        forall|p: int| decimal_form(s, p) ==> !fits(#[trigger] decimal_parts(s, p)),
{
    lemma_digits_prefix(s, i);
}

/// A rate with no more fractional digits than asked for is written exactly:
/// no rounding takes place.
pub proof fn lemma_fixed_exact(r: Rate, decimals: nat)
    requires
        r@.1 <= decimals,
    ensures
        r.rounded(decimals) == r@.0 * pow10((decimals - r@.1) as nat),
{
    let k = (decimals - r@.1) as nat;
    let m = pow10(r@.1);
    lemma_pow10_add(k, r@.1);
    lemma_pow10_positive(r@.1);
    assert(k + r@.1 == decimals);
    let n = r@.0 * pow10(decimals);
    assert(n == (r@.0 * pow10(k)) * m) by (nonlinear_arith)
        requires
            n == r@.0 * pow10(decimals),
            pow10(decimals) == pow10(k) * m,
    ;
    vstd::arithmetic::div_mod::lemma_div_multiples_vanish((r@.0 * pow10(k)) as int, m as int);
    vstd::arithmetic::div_mod::lemma_mod_multiples_basic((r@.0 * pow10(k)) as int, m as int);
}

/// A string has at most one decimal form.
pub proof fn lemma_decimal_form_unique(s: Seq<char>, p: int, q: int)
    requires
        decimal_form(s, p),
        decimal_form(s, q),
    ensures
        p == q,
{
    if p < q {
        assert(is_digit(s[p]));
    } else if q < p {
        assert(is_digit(s[q]));
    }
}

impl Rate {
    #[verifier::type_invariant]
    spec fn inv(self) -> bool {
        self.scale <= MAX_SCALE
    }

    /// The rate is strictly smaller than `other`, as numbers.
    pub open spec fn below(self, other: Rate) -> bool {
        self@.0 * pow10(other@.1) < other@.0 * pow10(self@.1)
    }

    /// The value in units of `10^-decimals`, rounded half to even.
    pub open spec fn rounded(self, decimals: nat) -> nat {
        round_half_even(self@.0 * pow10(decimals), pow10(self@.1))
    }

    /// The value written with exactly `decimals` fractional digits, rounded
    /// half to even (`12` with two digits is `12.00`).
    pub open spec fn fixed_text(self, decimals: nat) -> Seq<char> {
        let q = self.rounded(decimals);
        if decimals == 0 {
            decimal_digits(q)
        } else {
            decimal_digits(q / pow10(decimals)) + seq!['.'] + padded_digits(
                q % pow10(decimals),
                decimals,
            )
        }
    }

    /// The rate `units / 10^scale`; `None` when `scale` exceeds `MAX_SCALE`.
    pub fn new(units: u64, scale: u8) -> (r: Option<Rate>)
        ensures
            r is Some <==> scale <= MAX_SCALE,
            r matches Some(x) ==> x@ == (units as nat, scale as nat),
    {
        if scale <= MAX_SCALE {
            Some(Rate { units, scale })
        } else {
            None
        }
    }

    /// Reads a decimal number such as `11.2034` or `12`: digits, then
    /// optionally a point and more digits. `None` when `s` has another form,
    /// or when it has more than `MAX_SCALE` fractional digits or more digits
    /// than a `u64` holds.
    pub fn parse(s: &str) -> (r: Option<Rate>)
        ensures
            r is Some <==> exists|p: int| decimal_form(s@, p) && fits(decimal_parts(s@, p)),
            r matches Some(x) ==> exists|p: int| decimal_form(s@, p) && x@ == decimal_parts(s@, p),
    {
        let len = s.unicode_len();
        let mut units: u64 = 0;
        let mut point: usize = len;
        let mut i: usize = 0;
        while i < len
            invariant
                i <= len,
                len == s@.len(),
                point == len || point < i,
                point < len ==> s@[point as int] == '.',
                forall|j: int| 0 <= j < i && j != point ==> is_digit(#[trigger] s@[j]),
                units as nat == digits_value(digits_only(s@.subrange(0, i as int))),
            decreases len - i,
        {
            let c = s.get_char(i);
            assert(s@.subrange(0, i + 1).drop_last() =~= s@.subrange(0, i as int));
            if '0' <= c && c <= '9' {
                let d = (c as u32 - 48) as u64;
                let ghost prefix = s@.subrange(0, i as int);
                assert(digits_only(prefix).push(c).drop_last() =~= digits_only(prefix));
                assert(digits_value(digits_only(s@.subrange(0, i + 1))) == 10 * units + d);
                match units.checked_mul(10) {
                    Some(t) => match t.checked_add(d) {
                        Some(u) => {
                            units = u;
                        },
                        None => {
                            proof {
                                self::lemma_no_fit(s@, (i + 1) as int);
                            }
                            return None;
                        },
                    },
                    None => {
                        proof {
                            self::lemma_no_fit(s@, (i + 1) as int);
                        }
                        return None;
                    },
                }
            } else if c == '.' && point == len {
                point = i;
            } else {
                assert forall|p: int| !decimal_form(s@, p) by {
                    if decimal_form(s@, p) {
                        if i != p {
                            assert(is_digit(s@[i as int]));
                        }
                        if point < len && point != p {
                            assert(is_digit(s@[point as int]));
                        }
                    }
                }
                return None;
            }
            i = i + 1;
        }
        assert(s@.subrange(0, len as int) =~= s@);
        if len == 0 || point == 0 || (point < len && point + 1 == len) {
            assert forall|p: int| !decimal_form(s@, p) by {
                if decimal_form(s@, p) {
                    if point < len && point != p {
                        assert(is_digit(s@[point as int]));
                    }
                    if point == len && p < len {
                        assert(is_digit(s@[p]));
                    }
                }
            }
            return None;
        }
        assert(decimal_form(s@, point as int));
        let scale_digits: usize = if point < len {
            len - point - 1
        } else {
            0
        };
        if scale_digits > MAX_SCALE as usize {
            assert forall|p: int| decimal_form(s@, p) implies !fits(decimal_parts(s@, p)) by {
                lemma_decimal_form_unique(s@, p, point as int);
            }
            return None;
        }
        Some(Rate { units, scale: scale_digits as u8 })
    }

    pub fn units(&self) -> (u: u64)
        ensures
            u as nat == self@.0,
    {
        self.units
    }

    pub fn scale(&self) -> (s: u8)
        ensures
            s as nat == self@.1,
            s <= MAX_SCALE,
    {
        proof {
            use_type_invariant(self);
        }
        self.scale
    }

    /// Compares the two values exactly.
    pub fn is_below(&self, other: &Rate) -> (r: bool)
        ensures
            r == self.below(*other),
    {
        proof {
            use_type_invariant(self);
            use_type_invariant(other);
        }
        let a = wide_mul(self.units, pow10_u64(other.scale));
        let b = wide_mul(other.units, pow10_u64(self.scale));
        a < b
    }

    /// The value written with `decimals` fractional digits, rounded half to
    /// even, as `{:.N}` writes a number.
    pub fn to_fixed(&self, decimals: u8) -> (s: String)
        requires
            decimals <= MAX_SCALE,
        ensures
            s@ == self.fixed_text(decimals as nat),
    {
        proof {
            use_type_invariant(self);
            lemma_pow10_monotonic(decimals as nat, 19);
            lemma_pow10_monotonic(self.scale as nat, 19);
            lemma_pow10_positive(self.scale as nat);
            lemma_pow10_positive(decimals as nat);
            lemma_pow10_19();
        }
        let p = pow10_u64(decimals);
        let m = pow10_u64(self.scale) as u128;
        let n = wide_mul(self.units, p);
        assert(n < 0xffff_ffff_ffff_ffff_ffff_ffff_ffff_ffffu128) by (nonlinear_arith)
            requires
                n as nat == self.units as nat * p as nat,
                self.units <= 0xffff_ffff_ffff_ffffu64,
                p <= 10_000_000_000_000_000_000u64,
        ;
        let q = n / m;
        let r = n % m;
        assert(q <= n) by (nonlinear_arith)
            requires
                m >= 1,
                q == n / m,
        ;
        let q = if 2 * r > m || (2 * r == m && q % 2 == 1) {
            q + 1
        } else {
            q
        };
        let mut out = String::new();
        if decimals == 0 {
            push_decimal(&mut out, q);
        } else {
            let p = p as u128;
            push_decimal(&mut out, q / p);
            push_char(&mut out, '.');
            push_padded(&mut out, q % p, decimals);
        }
        out
    }
}

} // verus!
