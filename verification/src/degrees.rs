//! Temperatures in degrees Celsius, kept as the bit patterns of the
//! single-precision numbers they are measured and configured in.

use vstd::arithmetic::power2;
use vstd::prelude::*;

verus! {

/// A temperature: the bits of an IEEE 754 single-precision number of degrees.
#[derive(Clone, Copy, Debug, PartialEq, Eq, Structural)]
pub struct Celsius {
    pub bits: u32,
}

/// The exact value of a pattern without its sign, in units of the smallest
/// positive number. Infinity comes out above every finite number.
pub open spec fn size_of(pattern: int) -> int {
    let exponent = pattern / 0x80_0000;
    let fraction = pattern % 0x80_0000;
    if exponent == 0 {
        fraction
    } else {
        (0x80_0000 + fraction) * power2::pow2((exponent - 1) as nat) as int
    }
}

impl Celsius {
    pub open spec fn pattern(self) -> int {
        self.bits as int % 0x8000_0000
    }

    /// Not a number, and so neither above nor below anything.
    pub open spec fn undefined(self) -> bool {
        self.pattern() > 0x7f80_0000
    }

    /// The exact value, in units of the smallest positive number.
    pub open spec fn value(self) -> int {
        if self.bits >= 0x8000_0000 {
            -size_of(self.pattern())
        } else {
            size_of(self.pattern())
        }
    }

    pub open spec fn reaches(self, threshold: Celsius) -> bool {
        !self.undefined() && !threshold.undefined() && self.value() >= threshold.value()
    }

    fn rank(self) -> (r: i64)
        ensures
            r == if self.bits >= 0x8000_0000 {
                -self.pattern()
            } else {
                self.pattern()
            },
    {
        if self.bits >= 0x8000_0000 {
            0 - ((self.bits - 0x8000_0000) as i64)
        } else {
            self.bits as i64
        }
    }

    /// Whether this temperature is at or above `threshold`.
    pub fn at_least(self, threshold: Celsius) -> (r: bool)
        ensures
            r == self.reaches(threshold),
    {
        let a: i64 = self.rank();
        let b: i64 = threshold.rank();
        proof {
            lemma_size_grows(self.pattern(), threshold.pattern());
            lemma_size_grows(threshold.pattern(), self.pattern());
            lemma_size_grows(0, self.pattern());
            lemma_size_grows(0, threshold.pattern());
        }
        if a > 0x7f80_0000 || a < -0x7f80_0000 || b > 0x7f80_0000 || b < -0x7f80_0000 {
            return false;
        }
        a >= b
    }
}

/// A larger pattern is a larger number.
proof fn lemma_size_grows(a: int, b: int)
    requires
        0 <= a,
        0 <= b,
    ensures
        a < b ==> size_of(a) < size_of(b),
        size_of(a) >= 0,
{
    let unit: int = 0x80_0000;
    let ea = a / unit;
    let fa = a % unit;
    let eb = b / unit;
    let fb = b % unit;
    if ea > 0 {
        let p = power2::pow2((ea - 1) as nat) as int;
        power2::lemma_pow2_pos((ea - 1) as nat);
        assert((unit + fa) * p >= 0) by (nonlinear_arith)
            requires
                unit + fa >= 0,
                p > 0,
        ;
    }
    if a < b {
        assert(ea <= eb);
        if ea == eb {
            assert(fa < fb);
            if ea > 0 {
                let p = power2::pow2((ea - 1) as nat) as int;
                power2::lemma_pow2_pos((ea - 1) as nat);
                assert((unit + fa) * p < (unit + fb) * p) by (nonlinear_arith)
                    requires
                        fa < fb,
                        p > 0,
                ;
            }
        } else {
            let q = power2::pow2((eb - 1) as nat) as int;
            power2::lemma_pow2_pos((eb - 1) as nat);
            assert((unit + fb) * q >= unit * q) by (nonlinear_arith)
                requires
                    fb >= 0,
                    q > 0,
            ;
            if ea == 0 {
                assert(unit * q >= unit) by (nonlinear_arith)
                    requires
                        q >= 1,
                        unit > 0,
                ;
            } else {
                let p = power2::pow2((ea - 1) as nat) as int;
                power2::lemma_pow2_pos((ea - 1) as nat);
                lemma_pow2_doubles((ea - 1) as nat, (eb - 1) as nat);
                assert((unit + fa) * p < unit * q) by (nonlinear_arith)
                    requires
                        fa < unit,
                        fa >= 0,
                        p > 0,
                        q >= 2 * p,
                        unit > 0,
                ;
            }
        }
    }
}

proof fn lemma_pow2_doubles(a: nat, b: nat)
    requires
        a < b,
    ensures
        power2::pow2(b) >= 2 * power2::pow2(a),
    decreases b,
{
    power2::lemma_pow2_unfold(b);
    power2::lemma_pow2_pos((b - 1) as nat);
    if a < b - 1 {
        lemma_pow2_doubles(a, (b - 1) as nat);
    }
}

// --- Laws ---

/// Temperatures compare as the numbers they are: of two that are not negative
/// the larger pattern is the hotter one, of two negative ones the smaller; a
/// negative one is below every other, but for the two zeros, which are the same.
/// What is not a number reaches nothing and is not reached.
pub proof fn law_patterns_compare_as_numbers(temp: Celsius, threshold: Celsius, r: bool)
    requires
        call_ensures(Celsius::at_least, (temp, threshold), r),
    ensures
        temp.bits <= 0x7f80_0000 && threshold.bits <= 0x7f80_0000 ==> r == (temp.bits
            >= threshold.bits),
        0x8000_0000 <= temp.bits <= 0xff80_0000 && 0x8000_0000 <= threshold.bits <= 0xff80_0000
            ==> r == (temp.bits <= threshold.bits),
        temp.bits <= 0x7f80_0000 && 0x8000_0000 <= threshold.bits <= 0xff80_0000 ==> r,
        0x8000_0000 <= temp.bits <= 0xff80_0000 && threshold.bits <= 0x7f80_0000 ==> r == (
        temp.bits == 0x8000_0000 && threshold.bits == 0),
        0x7f80_0000 < temp.bits < 0x8000_0000 || temp.bits > 0xff80_0000 ==> !r,
        0x7f80_0000 < threshold.bits < 0x8000_0000 || threshold.bits > 0xff80_0000 ==> !r,
{
    lemma_size_grows(temp.pattern(), threshold.pattern());
    lemma_size_grows(threshold.pattern(), temp.pattern());
    lemma_size_grows(0, temp.pattern());
    lemma_size_grows(0, threshold.pattern());
}

} // verus!
