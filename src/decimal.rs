//! Exact decimal numbers: prices, sizes and tick sizes as the exchanges write them.
use vstd::prelude::*;
use crate::text::{find_char, first_index, is_digit};

verus! {

/// The largest mantissa that a parsed number may have.
pub const MAX_MANTISSA: u128 = 18446744073709551615;

/// The largest number of decimals that a parsed number may have.
pub const MAX_SCALE: u32 = 18;

pub open spec fn pow10(n: nat) -> nat
    decreases n,
{
    if n == 0 {
        1
    } else {
        10 * pow10((n - 1) as nat)
    }
}

pub proof fn lemma_pow10_positive(n: nat)
    ensures
        pow10(n) >= 1,
    decreases n,
{
    if n > 0 {
        lemma_pow10_positive((n - 1) as nat);
    }
}

pub proof fn lemma_pow10_add(a: nat, b: nat)
    ensures
        pow10(a + b) == pow10(a) * pow10(b),
    decreases b,
{
    if b == 0 {
        assert(a + b == a);
        assert(pow10(b) == 1);
        assert(pow10(a) * 1 == pow10(a));
    } else {
        let b1 = (b - 1) as nat;
        lemma_pow10_add(a, b1);
        let x = pow10(a);
        let y = pow10(b1);
        assert(a + b == (a + b1) + 1);
        assert(pow10(a + b) == 10 * pow10(a + b1));
        assert(pow10(b) == 10 * y);
        assert(10 * (x * y) == x * (10 * y)) by (nonlinear_arith);
        assert(pow10(a + b) == x * pow10(b));
    }
}

/// The number `mantissa / 10^scale`.
#[derive(Clone, Copy, Debug, PartialEq, Eq, Structural)]
pub struct Decimal {
    pub mantissa: u128,
    pub scale: u32,
}

impl Decimal {
    pub open spec fn num(self) -> int {
        self.mantissa as int
    }

    pub open spec fn den(self) -> int {
        pow10(self.scale as nat) as int
    }

    /// Within what a parsed number can hold.
    pub open spec fn bounded(self) -> bool {
        self.mantissa <= MAX_MANTISSA && self.scale <= MAX_SCALE
    }

    pub fn new(mantissa: u128, scale: u32) -> (r: Decimal)
        ensures
            r.mantissa == mantissa,
            r.scale == scale,
    {
        Decimal { mantissa, scale }
    }

    /// Whether the two numbers are equal, whatever their scales.
    pub fn same_value(&self, other: &Decimal) -> (r: bool)
        requires
            self.bounded(),
            other.bounded(),
        ensures
            r == same_value(*self, *other),
    {
        proof {
            lemma_bounded_cross(*self, *other);
        }
        let pa = pow10_exec(other.scale);
        let pb = pow10_exec(self.scale);
        let a = self.mantissa * pa;
        let b = other.mantissa * pb;
        a == b
    }
}

/// `a` and `b` are the same number.
pub open spec fn same_value(a: Decimal, b: Decimal) -> bool {
    a.num() * b.den() == b.num() * a.den()
}

/// `a <= b` as numbers.
pub open spec fn value_le(a: Decimal, b: Decimal) -> bool {
    a.num() * b.den() <= b.num() * a.den()
}

proof fn lemma_bounded_cross(a: Decimal, b: Decimal)
    requires
        a.bounded(),
        b.bounded(),
    ensures
        a.num() * b.den() <= u128::MAX,
        b.num() * a.den() <= u128::MAX,
{
    lemma_pow10_le(a.scale as nat, 18);
    lemma_pow10_le(b.scale as nat, 18);
    reveal_with_fuel(pow10, 19);
    assert(a.num() * b.den() <= MAX_MANTISSA * 1000000000000000000) by (nonlinear_arith)
        requires
            0 <= a.num() <= MAX_MANTISSA,
            0 <= b.den() <= 1000000000000000000,
    ;
    assert(b.num() * a.den() <= MAX_MANTISSA * 1000000000000000000) by (nonlinear_arith)
        requires
            0 <= b.num() <= MAX_MANTISSA,
            0 <= a.den() <= 1000000000000000000,
    ;
}

pub proof fn lemma_pow10_le(a: nat, b: nat)
    requires
        a <= b,
    ensures
        pow10(a) <= pow10(b),
    decreases b,
{
    if a < b {
        lemma_pow10_le(a, (b - 1) as nat);
    }
}

/// `10^n`.
pub fn pow10_exec(n: u32) -> (r: u128)
    requires
        n <= 38,
    ensures
        r == pow10(n as nat),
{
    let mut r: u128 = 1;
    let mut i: u32 = 0;
    while i < n
        invariant
            i <= n <= 38,
            r == pow10(i as nat),
        decreases n - i,
    {
        proof {
            lemma_pow10_le(i as nat, 37);
            reveal_with_fuel(pow10, 38);
            assert(pow10(37) == 10000000000000000000000000000000000000);
        }
        r = r * 10;
        i += 1;
    }
    r
}

/// The value of a string of decimal digits.
pub open spec fn digits_value(s: Seq<char>) -> nat
    decreases s.len(),
{
    if s.len() == 0 {
        0
    } else {
        digits_value(s.drop_last()) * 10 + (s.last() as nat - '0' as nat) as nat
    }
}

pub open spec fn all_digits(s: Seq<char>) -> bool {
    forall|i: int| 0 <= i < s.len() ==> is_digit(s[i])
}

pub proof fn lemma_digits_concat(a: Seq<char>, b: Seq<char>)
    ensures
        digits_value(a + b) == digits_value(a) * pow10(b.len()) + digits_value(b),
    decreases b.len(),
{
    if b.len() == 0 {
        assert(a + b =~= a);
        assert(pow10(0) == 1);
        assert(digits_value(b) == 0);
        assert(digits_value(a) * 1 == digits_value(a));
    } else {
        let b0 = b.drop_last();
        assert((a + b).drop_last() =~= a + b0);
        assert((a + b).last() == b.last());
        lemma_digits_concat(a, b0);
        let d = (b.last() as nat - '0' as nat) as nat;
        let va = digits_value(a);
        let v0 = digits_value(b0);
        let p0 = pow10(b0.len());
        assert(digits_value(a + b) == digits_value(a + b0) * 10 + d);
        assert(digits_value(a + b0) == va * p0 + v0);
        assert(digits_value(b) == v0 * 10 + d);
        assert(b.len() == b0.len() + 1);
        assert(pow10(b.len()) == 10 * p0);
        assert((va * p0 + v0) * 10 + d == va * (10 * p0) + (v0 * 10 + d)) by (nonlinear_arith);
        assert(digits_value(a + b) == va * pow10(b.len()) + digits_value(b));
    }
}

/// The mantissa and scale that a number's text gives: digits, or digits, a point and
/// digits.
pub open spec fn decimal_text(s: Seq<char>) -> Option<(nat, nat)> {
    if !s.contains('.') {
        if s.len() > 0 && all_digits(s) {
            Some((digits_value(s), 0nat))
        } else {
            None
        }
    } else {
        let p = first_index(s, '.');
        let a = s.subrange(0, p);
        let b = s.subrange(p + 1, s.len() as int);
        if a.len() > 0 && b.len() > 0 && all_digits(a) && all_digits(b) {
            Some((digits_value(a + b), b.len()))
        } else {
            None
        }
    }
}

/// The number that `s` writes, where it fits: at most `MAX_MANTISSA` as mantissa and at
/// most `MAX_SCALE` decimals.
pub open spec fn parsed_decimal(s: Seq<char>) -> Option<Decimal> {
    match decimal_text(s) {
        Some((m, sc)) => if m <= MAX_MANTISSA && sc <= MAX_SCALE {
            Some(Decimal { mantissa: m as u128, scale: sc as u32 })
        } else {
            None
        },
        None => None,
    }
}

/// Appends the digits of `t` to `acc`: `acc * 10^|t| + value(t)`, where `t` is all
/// digits and the result stays within `MAX_MANTISSA`.
fn append_digits(acc: u128, t: &str) -> (r: Option<u128>)
    requires
        acc <= MAX_MANTISSA,
    ensures
        match r {
            Some(v) => all_digits(t@) && v == acc * pow10(t@.len()) + digits_value(t@) && v
                <= MAX_MANTISSA,
            None => !all_digits(t@) || acc * pow10(t@.len()) + digits_value(t@) > MAX_MANTISSA,
        },
{
    let n = t.unicode_len();
    let mut v = acc;
    let mut i: usize = 0;
    assert(pow10(0) == 1);
    assert(acc * 1 == acc);
    assert(digits_value(t@.subrange(0, 0)) == 0);
    while i < n
        invariant
            n == t@.len(),
            i <= n,
            all_digits(t@.subrange(0, i as int)),
            v == acc * pow10(i as nat) + digits_value(t@.subrange(0, i as int)),
            v <= MAX_MANTISSA,
        decreases n - i,
    {
        let c = t.get_char(i);
        let ghost pre = t@.subrange(0, i as int);
        let ghost next = t@.subrange(0, i + 1);
        assert(next.drop_last() =~= pre);
        assert(next.last() == c);
        if !('0' <= c && c <= '9') {
            assert(!is_digit(t@[i as int]));
            return None;
        }
        let d = (c as u32 - '0' as u32) as u128;
        proof {
            assert(digits_value(next) == digits_value(pre) * 10 + d);
            assert(acc * pow10((i + 1) as nat) == acc * (10 * pow10(i as nat)));
            assert(acc * (10 * pow10(i as nat)) == (acc * pow10(i as nat)) * 10) by (nonlinear_arith);
        }
        if v > (MAX_MANTISSA - d) / 10 {
            proof {
                // the digits read so far already give too much
                let rest = t@.subrange(i + 1, n as int);
                assert(t@ =~= next + rest);
                lemma_digits_concat(next, rest);
                lemma_pow10_positive(rest.len());
                lemma_pow10_add((i + 1) as nat, rest.len());
                let big = acc * pow10((i + 1) as nat) + digits_value(next);
                assert(big == v * 10 + d);
                assert(big > MAX_MANTISSA);
                assert(acc * pow10(n as nat) + digits_value(t@) >= big * pow10(rest.len())) by {
                    assert(acc * pow10(n as nat) == acc * (pow10((i + 1) as nat) * pow10(rest.len())));
                    assert(acc * (pow10((i + 1) as nat) * pow10(rest.len())) == (acc * pow10((i + 1) as nat)) * pow10(rest.len())) by (nonlinear_arith);
                    let pp = pow10((i + 1) as nat);
                    let rr = pow10(rest.len());
                    let dn = digits_value(next);
                    assert(big * rr == (acc * pp) * rr + dn * rr) by (nonlinear_arith)
                        requires
                            big == acc * pp + dn,
                    ;
                }
                assert(big * pow10(rest.len()) >= big) by (nonlinear_arith)
                    requires
                        pow10(rest.len()) >= 1,
                        big >= 0,
                ;
            }
            return None;
        }
        v = v * 10 + d;
        i += 1;
    }
    assert(t@.subrange(0, n as int) =~= t@);
    Some(v)
}

/// Reads a number such as `56593.6` or `20`.
pub fn parse_decimal(s: &str) -> (r: Option<Decimal>)
    ensures
        r == parsed_decimal(s@),
{
    let n = s.unicode_len();
    match find_char(s, '.') {
        None => {
            if n == 0 {
                return None;
            }
            match append_digits(0, s) {
                Some(m) => {
                    assert(0 * pow10(s@.len()) == 0);
                    Some(Decimal { mantissa: m, scale: 0 })
                },
                None => {
                    assert(0 * pow10(s@.len()) == 0);
                    None
                },
            }
        },
        Some(p) => {
            let a = s.substring_char(0, p);
            let b = s.substring_char(p + 1, n);
            let nb = b.unicode_len();
            if p == 0 || nb == 0 {
                return None;
            }
            if nb > MAX_SCALE as usize {
                proof {
                    if decimal_text(s@) is Some {
                        assert(all_digits(a@));
                    }
                }
                return None;
            }
            match append_digits(0, a) {
                None => {
                    proof {
                        assert(0 * pow10(a@.len()) == 0);
                        lemma_digits_concat(a@, b@);
                        lemma_pow10_positive(b@.len());
                        assert(digits_value(a@) * pow10(b@.len()) >= digits_value(a@)) by (nonlinear_arith)
                            requires
                                pow10(b@.len()) >= 1,
                        ;
                    }
                    None
                },
                Some(va) => {
                    assert(0 * pow10(a@.len()) == 0);
                    let r = append_digits(va, b);
                    proof {
                        lemma_digits_concat(a@, b@);
                    }
                    match r {
                        Some(m) => Some(Decimal { mantissa: m, scale: nb as u32 }),
                        None => None,
                    }
                },
            }
        },
    }
}

/// The product of two numbers, where its mantissa fits in 128 bits.
pub open spec fn product(a: Decimal, b: Decimal) -> Option<Decimal> {
    if a.num() * b.num() <= u128::MAX && a.scale + b.scale <= u32::MAX {
        Some(Decimal { mantissa: (a.num() * b.num()) as u128, scale: (a.scale + b.scale) as u32 })
    } else {
        None
    }
}

pub fn multiply(a: Decimal, b: Decimal) -> (r: Option<Decimal>)
    ensures
        r == product(a, b),
{
    match a.mantissa.checked_mul(b.mantissa) {
        Some(m) => match a.scale.checked_add(b.scale) {
            Some(sc) => Some(Decimal { mantissa: m, scale: sc }),
            None => None,
        },
        None => None,
    }
}

} // verus!
