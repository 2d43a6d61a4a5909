//! Harmonic frequency intervals as reduced rational numbers.

use vstd::prelude::*;

use crate::errors::{Error, SoundResult};
use crate::math::{
    div_fix, gcd_exec, lemma_div_fix_bounds, lemma_gcd_pos, lemma_gcd_reduce,
    lemma_mul_fix_abs_bounds, mul_fix, spec_div_fix, spec_gcd, spec_mul_fix,
};

use crate::{FIXED_ONE, SampleCalc, TONE_FREQUENCY_MAX, TONE_FREQUENCY_MIN};

verus! {

/// Whether a fixed-point frequency lies in the perceivable range.
pub open spec fn spec_frequency_in_range(f: int) -> bool {
    TONE_FREQUENCY_MIN <= f <= TONE_FREQUENCY_MAX
}

/// The common name of the interval `hi : lo`, for the named just-intonation
/// ratios; the empty sequence for every other pair.
pub open spec fn spec_interval_name(hi: int, lo: int) -> Seq<char> {
    if hi == 1 && lo == 1 {
        "unison"@
    } else if hi == 2 && lo == 1 {
        "octave"@
    } else if hi == 3 && lo == 2 {
        "perfect fifth"@
    } else if hi == 4 && lo == 3 {
        "perfect fourth"@
    } else if hi == 5 && lo == 4 {
        "major third"@
    } else if hi == 5 && lo == 3 {
        "major sixth"@
    } else if hi == 6 && lo == 5 {
        "minor third"@
    } else if hi == 7 && lo == 6 {
        "septimal minor third"@
    } else if hi == 7 && lo == 5 {
        "lesser septimal tritone"@
    } else if hi == 7 && lo == 4 {
        "augmented sixth"@
    } else if hi == 8 && lo == 7 {
        "septimal major second"@
    } else if hi == 8 && lo == 5 {
        "minor sixth"@
    } else if hi == 9 && lo == 8 {
        "major second"@
    } else if hi == 9 && lo == 7 {
        "septimal major third"@
    } else if hi == 9 && lo == 5 {
        "minor seventh"@
    } else if hi == 10 && lo == 9 {
        "minor tone"@
    } else if hi == 10 && lo == 7 {
        "greater septimal tritone"@
    } else if hi == 11 && lo == 8 {
        "lesser undecimal tritone"@
    } else if hi == 13 && lo == 8 {
        "acute minor sixth"@
    } else if hi == 15 && lo == 8 {
        "major seventh"@
    } else if hi == 16 && lo == 15 {
        "semitone"@
    } else if hi == 16 && lo == 9 {
        "grave minor seventh"@
    } else if hi == 31 && lo == 16 {
        "augmented seventh"@
    } else if hi == 45 && lo == 32 {
        "augmented fourth"@
    } else if hi == 64 && lo == 45 {
        "diminished fifth"@
    } else {
        ""@
    }
}

/// Harmonic musical interval (of frequencies), represented by a rational
/// number, stored in lowest terms together with its fixed-point ratio and
/// the reciprocal of that ratio.
#[derive(Debug, Copy, Clone, PartialEq, Eq, Structural)]
pub struct Interval {
    /// Numerator of the reduced fraction.
    pub numerator: u16,
    /// Denominator of the reduced fraction.
    pub denominator: u16,
    /// The fixed-point value of `numerator / denominator`, rounded down.
    pub ratio: SampleCalc,
    /// The fixed-point value of `denominator / numerator`, rounded down.
    pub reciprocal: SampleCalc,
}

impl Interval {
    /// Validity: the fraction is positive and in lowest terms, and the two
    /// fixed-point fields hold exactly the rounded-down ratio and reciprocal.
    pub open spec fn wf(&self) -> bool {
        &&& 1 <= self.numerator
        &&& 1 <= self.denominator
        &&& spec_gcd(self.numerator as nat, self.denominator as nat) == 1
        &&& self.ratio == spec_div_fix(self.numerator as int, self.denominator as int)
        &&& self.reciprocal == spec_div_fix(self.denominator as int, self.numerator as int)
        &&& 1 <= self.ratio <= 0xffff * FIXED_ONE
        &&& 1 <= self.reciprocal <= 0xffff * FIXED_ONE
    }

    /// The numerator of the reduced fraction.
    pub open spec fn spec_numerator(&self) -> u16 {
        self.numerator
    }

    /// The denominator of the reduced fraction.
    pub open spec fn spec_denominator(&self) -> u16 {
        self.denominator
    }

    /// The fixed-point ratio of the interval.
    pub open spec fn spec_ratio(&self) -> SampleCalc {
        self.ratio
    }

    /// The fixed-point reciprocal of the interval.
    pub open spec fn spec_reciprocal(&self) -> SampleCalc {
        self.reciprocal
    }

    /// Custom constructor: the reduced form of `numerator / denominator`.
    pub fn new(numerator: u16, denominator: u16) -> (r: SoundResult<Interval>)
        ensures
            numerator == 0 ==> r === Err(Error::NumeratorInvalid),
            numerator != 0 && denominator == 0 ==> r === Err(Error::DenominatorInvalid),
            numerator != 0 && denominator != 0 ==> (r matches Ok(iv) && iv.wf()
                && iv.spec_numerator() == numerator as nat / spec_gcd(
                numerator as nat,
                denominator as nat,
            ) && iv.spec_denominator() == denominator as nat / spec_gcd(
                numerator as nat,
                denominator as nat,
            )),
    {
        let mut interval = Interval { numerator: 1, denominator: 1, ratio: FIXED_ONE, reciprocal: FIXED_ONE };
        proof {
            lemma_interval_unison_wf();
        }
        match interval.set(numerator, denominator) {
            Ok(()) => Ok(interval),
            Err(e) => Err(e),
        }
    }

    /// Changes the interval and reduces it to lowest terms.
    pub fn set(&mut self, numerator: u16, denominator: u16) -> (r: SoundResult<()>)
        ensures
            numerator == 0 ==> r === Err(Error::NumeratorInvalid) && *final(self) == *old(self),
            numerator != 0 && denominator == 0 ==> r === Err(Error::DenominatorInvalid)
                && *final(self) == *old(self),
            numerator != 0 && denominator != 0 ==> (r === Ok(()) && final(self).wf()
                && final(self).spec_numerator() == numerator as nat
                    / spec_gcd(numerator as nat, denominator as nat)
                && final(self).spec_denominator() == denominator as nat
                    / spec_gcd(numerator as nat, denominator as nat)),
    {
        if numerator == 0 {
            return Err(Error::NumeratorInvalid);
        }
        if denominator == 0 {
            return Err(Error::DenominatorInvalid);
        }
        let g: u64 = gcd_exec(numerator as u64, denominator as u64);
        proof {
            lemma_gcd_pos(numerator as nat, denominator as nat);
            lemma_gcd_reduce(numerator as nat, denominator as nat);
        }
        let rn: u16 = ((numerator as u64) / g) as u16;
        let rd: u16 = ((denominator as u64) / g) as u16;
        proof {
            lemma_div_fix_bounds(rn as int, rd as int);
            lemma_div_fix_bounds(rd as int, rn as int);
        }
        self.numerator = rn;
        self.denominator = rd;
        self.ratio = div_fix(rn as i64, rd as i64);
        self.reciprocal = div_fix(rd as i64, rn as i64);
        Ok(())
    }

    /// Returns the ratio of the frequency interval.
    pub fn get_ratio(&self) -> (r: SampleCalc)
        ensures
            r == self.spec_ratio(),
    {
        self.ratio
    }

    /// Returns the reciprocal of the frequency interval.
    pub fn get_recip(&self) -> (r: SampleCalc)
        ensures
            r == self.spec_reciprocal(),
    {
        self.reciprocal
    }

    /// Provides the numerator of the reduced fraction.
    pub fn get_numerator(&self) -> (r: u16)
        ensures
            r == self.spec_numerator(),
    {
        self.numerator
    }

    /// Provides the denominator of the reduced fraction.
    pub fn get_denominator(&self) -> (r: u16)
        ensures
            r == self.spec_denominator(),
    {
        self.denominator
    }

    /// True, if the interval is `1:1`, aka. unison.
    pub fn is_unison(&self) -> (r: bool)
        ensures
            r == (self.spec_numerator() == self.spec_denominator()),
    {
        self.numerator == self.denominator
    }

    /// The product of two intervals, reduced to lowest terms, or `None`
    /// when an intermediate product does not fit `u16`.
    pub fn checked_mul(&self, v: &Interval) -> (r: Option<Interval>)
        requires
            self.wf(),
            v.wf(),
        ensures
            ({
                let np = (self.numerator as int) * (v.numerator as int);
                let dp = (self.denominator as int) * (v.denominator as int);
                &&& (r is Some <==> np <= 0xffff && dp <= 0xffff)
                &&& (r matches Some(iv) ==> iv.wf() && iv.spec_numerator() == np as nat
                    / spec_gcd(np as nat, dp as nat) && iv.spec_denominator() == dp as nat
                    / spec_gcd(np as nat, dp as nat))
            }),
    {
        proof {
            interval_u16_prod_fits(self.numerator as int, v.numerator as int);
            interval_u16_prod_fits(self.denominator as int, v.denominator as int);
        }
        let np32: u32 = (self.numerator as u32) * (v.numerator as u32);
        let dp32: u32 = (self.denominator as u32) * (v.denominator as u32);
        if np32 > 0xffff || dp32 > 0xffff {
            return Option::None;
        }
        let np: u16 = np32 as u16;
        let dp: u16 = dp32 as u16;
        proof {
            interval_prod_pos(self.numerator as int, v.numerator as int);
            interval_prod_pos(self.denominator as int, v.denominator as int);
        }
        let mut interval = Interval {
            numerator: 1,
            denominator: 1,
            ratio: FIXED_ONE,
            reciprocal: FIXED_ONE,
        };
        proof {
            lemma_interval_unison_wf();
        }
        match interval.set(np, dp) {
            Ok(()) => Some(interval),
            Err(_) => Option::None,
        }
    }

    /// The quotient of two intervals (this interval divided by the other),
    /// reduced to lowest terms, or `None` when an intermediate product does
    /// not fit `u16`.
    pub fn checked_div(&self, v: &Interval) -> (r: Option<Interval>)
        requires
            self.wf(),
            v.wf(),
        ensures
            ({
                let np = (self.numerator as int) * (v.denominator as int);
                let dp = (self.denominator as int) * (v.numerator as int);
                &&& (r is Some <==> np <= 0xffff && dp <= 0xffff)
                &&& (r matches Some(iv) ==> iv.wf() && iv.spec_numerator() == np as nat
                    / spec_gcd(np as nat, dp as nat) && iv.spec_denominator() == dp as nat
                    / spec_gcd(np as nat, dp as nat))
            }),
    {
        proof {
            interval_u16_prod_fits(self.numerator as int, v.denominator as int);
            interval_u16_prod_fits(self.denominator as int, v.numerator as int);
        }
        let np32: u32 = (self.numerator as u32) * (v.denominator as u32);
        let dp32: u32 = (self.denominator as u32) * (v.numerator as u32);
        if np32 > 0xffff || dp32 > 0xffff {
            return Option::None;
        }
        let np: u16 = np32 as u16;
        let dp: u16 = dp32 as u16;
        proof {
            interval_prod_pos(self.numerator as int, v.denominator as int);
            interval_prod_pos(self.denominator as int, v.numerator as int);
        }
        let mut interval = Interval {
            numerator: 1,
            denominator: 1,
            ratio: FIXED_ONE,
            reciprocal: FIXED_ONE,
        };
        proof {
            lemma_interval_unison_wf();
        }
        match interval.set(np, dp) {
            Ok(()) => Some(interval),
            Err(_) => Option::None,
        }
    }

    /// Gives the common name of the interval (if there is any).
    /// The name is looked up for the larger member of the fraction pair over
    /// the smaller one; unrecognized ratios give the empty string.
    pub fn get_name(&self) -> (r: &str)
        ensures
            r@ == spec_interval_name(
                if self.numerator > self.denominator {
                    self.numerator as int
                } else {
                    self.denominator as int
                },
                if self.numerator > self.denominator {
                    self.denominator as int
                } else {
                    self.numerator as int
                },
            ),
    {
        let hi: u16;
        let lo: u16;
        if self.numerator > self.denominator {
            hi = self.numerator;
            lo = self.denominator;
        } else {
            hi = self.denominator;
            lo = self.numerator;
        }
        if hi == 1 && lo == 1 {
            "unison"
        } else if hi == 2 && lo == 1 {
            "octave"
        } else if hi == 3 && lo == 2 {
            "perfect fifth"
        } else if hi == 4 && lo == 3 {
            "perfect fourth"
        } else if hi == 5 && lo == 4 {
            "major third"
        } else if hi == 5 && lo == 3 {
            "major sixth"
        } else if hi == 6 && lo == 5 {
            "minor third"
        } else if hi == 7 && lo == 6 {
            "septimal minor third"
        } else if hi == 7 && lo == 5 {
            "lesser septimal tritone"
        } else if hi == 7 && lo == 4 {
            "augmented sixth"
        } else if hi == 8 && lo == 7 {
            "septimal major second"
        } else if hi == 8 && lo == 5 {
            "minor sixth"
        } else if hi == 9 && lo == 8 {
            "major second"
        } else if hi == 9 && lo == 7 {
            "septimal major third"
        } else if hi == 9 && lo == 5 {
            "minor seventh"
        } else if hi == 10 && lo == 9 {
            "minor tone"
        } else if hi == 10 && lo == 7 {
            "greater septimal tritone"
        } else if hi == 11 && lo == 8 {
            "lesser undecimal tritone"
        } else if hi == 13 && lo == 8 {
            "acute minor sixth"
        } else if hi == 15 && lo == 8 {
            "major seventh"
        } else if hi == 16 && lo == 15 {
            "semitone"
        } else if hi == 16 && lo == 9 {
            "grave minor seventh"
        } else if hi == 31 && lo == 16 {
            "augmented seventh"
        } else if hi == 45 && lo == 32 {
            "augmented fourth"
        } else if hi == 64 && lo == 45 {
            "diminished fifth"
        } else {
            ""
        }
    }

    /// Change a frequency according to the interval.
    pub fn change_frequency(&self, frequency: SampleCalc) -> (r: SoundResult<SampleCalc>)
        requires
            self.wf(),
            0 <= frequency <= TONE_FREQUENCY_MAX,
        ensures
            ({
                let nf = spec_mul_fix(frequency as int, self.spec_ratio() as int);
                &&& (nf < TONE_FREQUENCY_MIN ==> r === Err(Error::FrequencyTooLow))
                &&& (nf > TONE_FREQUENCY_MAX ==> r === Err(Error::FrequencyTooHigh))
                &&& (spec_frequency_in_range(nf) ==> (r matches Ok(f) && f == nf))
            }),
    {
        proof {
            lemma_mul_fix_abs_bounds(
                frequency as int,
                self.ratio as int,
                TONE_FREQUENCY_MAX as int,
                0xffff * FIXED_ONE,
            );
        }
        let new_frequency = mul_fix(frequency, self.ratio);
        if new_frequency < TONE_FREQUENCY_MIN {
            return Err(Error::FrequencyTooLow);
        }
        if new_frequency > TONE_FREQUENCY_MAX {
            return Err(Error::FrequencyTooHigh);
        }
        Ok(new_frequency)
    }

    /// Change a frequency according to the interval's reciprocal.
    pub fn reverse_frequency(&self, frequency: SampleCalc) -> (r: SoundResult<SampleCalc>)
        requires
            self.wf(),
            0 <= frequency <= TONE_FREQUENCY_MAX,
        ensures
            ({
                let nf = spec_mul_fix(frequency as int, self.spec_reciprocal() as int);
                &&& (nf < TONE_FREQUENCY_MIN ==> r === Err(Error::FrequencyTooLow))
                &&& (nf > TONE_FREQUENCY_MAX ==> r === Err(Error::FrequencyTooHigh))
                &&& (spec_frequency_in_range(nf) ==> (r matches Ok(f) && f == nf))
            }),
    {
        proof {
            lemma_mul_fix_abs_bounds(
                frequency as int,
                self.reciprocal as int,
                TONE_FREQUENCY_MAX as int,
                0xffff * FIXED_ONE,
            );
        }
        let new_frequency = mul_fix(frequency, self.reciprocal);
        if new_frequency < TONE_FREQUENCY_MIN {
            return Err(Error::FrequencyTooLow);
        }
        if new_frequency > TONE_FREQUENCY_MAX {
            return Err(Error::FrequencyTooHigh);
        }
        Ok(new_frequency)
    }

    /// Change a buffer of frequencies according to the interval. On a range
    /// violation the output is partially written: every sample before the
    /// offending one, and the offending one itself, already hold transposed
    /// values.
    pub fn transpose(&self, base_frequency: &Vec<SampleCalc>, result: &mut Vec<SampleCalc>) -> (r:
        SoundResult<()>)
        requires
            self.wf(),
            forall|i: int|
                0 <= i < base_frequency@.len() ==> 0 <= #[trigger] base_frequency@[i]
                    <= TONE_FREQUENCY_MAX,
        ensures
            base_frequency@.len() != old(result)@.len() ==> r === Err(Error::BufferSize)
                && final(result)@ == old(result)@,
            base_frequency@.len() == old(result)@.len() ==> {
                let n = base_frequency@.len() as int;
                let ratio = self.spec_ratio() as int;
                &&& final(result)@.len() == n
                &&& (r === Ok(()) <==> forall|i: int|
                    0 <= i < n ==> spec_frequency_in_range(
                        spec_mul_fix(base_frequency@[i] as int, ratio),
                    ))
                &&& (r === Ok(()) ==> forall|i: int|
                    0 <= i < n ==> final(result)@[i] == spec_mul_fix(
                        base_frequency@[i] as int,
                        ratio,
                    ))
                &&& (!(r === Ok(())) ==> exists|k: int|
                    #![trigger base_frequency@[k]]
                    {
                        let nf = spec_mul_fix(base_frequency@[k] as int, ratio);
                        &&& 0 <= k < n
                        &&& !spec_frequency_in_range(nf)
                        &&& (forall|j: int|
                            0 <= j < k ==> spec_frequency_in_range(
                                #[trigger] spec_mul_fix(base_frequency@[j] as int, ratio),
                            ))
                        &&& (r === Err(Error::FrequencyTooLow) <==> nf < TONE_FREQUENCY_MIN)
                        &&& (r === Err(Error::FrequencyTooHigh) <==> nf > TONE_FREQUENCY_MAX)
                        &&& (forall|j: int|
                            0 <= j <= k ==> final(result)@[j] == spec_mul_fix(
                                #[trigger] base_frequency@[j] as int,
                                ratio,
                            ))
                        &&& (forall|j: int| k < j < n ==> final(result)@[j] == old(result)@[j])
                    })
            },
    {
        if base_frequency.len() != result.len() {
            return Err(Error::BufferSize);
        }
        let n = base_frequency.len();
        let mut i: usize = 0;
        while i < n
            invariant
                n == base_frequency@.len(),
                n == result@.len(),
                n == old(result)@.len(),
                0 <= i <= n,
                self.wf(),
                forall|p: int|
                    0 <= p < n ==> 0 <= #[trigger] base_frequency@[p] <= TONE_FREQUENCY_MAX,
                forall|j: int|
                    0 <= j < i ==> spec_frequency_in_range(
                        #[trigger] spec_mul_fix(base_frequency@[j] as int, self.spec_ratio() as int),
                    ),
                forall|j: int|
                    0 <= j < i ==> result@[j] == spec_mul_fix(
                        #[trigger] base_frequency@[j] as int,
                        self.spec_ratio() as int,
                    ),
                forall|j: int| i <= j < n ==> result@[j] == old(result)@[j],
            decreases n - i,
        {
            proof {
                lemma_mul_fix_abs_bounds(
                    base_frequency@[i as int] as int,
                    self.ratio as int,
                    TONE_FREQUENCY_MAX as int,
                    0xffff * FIXED_ONE,
                );
            }
            let new_frequency = mul_fix(base_frequency[i], self.ratio);
            result[i] = new_frequency;
            if new_frequency < TONE_FREQUENCY_MIN {
                return Err(Error::FrequencyTooLow);
            }
            if new_frequency > TONE_FREQUENCY_MAX {
                return Err(Error::FrequencyTooHigh);
            }
            i = i + 1;
        }
        Ok(())
    }
}

impl Default for Interval {
    /// The default interval is unison, `1:1`.
    fn default() -> (r: Interval)
        ensures
            r.wf(),
            r.spec_numerator() == 1,
            r.spec_denominator() == 1,
            r.spec_ratio() == FIXED_ONE,
            r.spec_reciprocal() == FIXED_ONE,
    {
        proof {
            lemma_interval_unison_wf();
        }
        Interval { numerator: 1, denominator: 1, ratio: FIXED_ONE, reciprocal: FIXED_ONE }
    }
}

/// The unison interval is well formed: `1 / 1` is in lowest terms and its
/// fixed-point ratio is exactly one.
proof fn lemma_interval_unison_wf()
    ensures
        (Interval { numerator: 1, denominator: 1, ratio: FIXED_ONE, reciprocal: FIXED_ONE }).wf(),
{
    assert(spec_gcd(1nat, 1nat) == spec_gcd(1nat, 0nat));
    vstd::arithmetic::div_mod::lemma_div_basics(FIXED_ONE as int);
    assert(spec_div_fix(1, 1) == FIXED_ONE);
}

/// A product of two values that fit `u16` fits `u32`.
proof fn interval_u16_prod_fits(a: int, b: int)
    requires
        0 <= a <= 0xffff,
        0 <= b <= 0xffff,
    ensures
        0 <= a * b <= 0xffff * 0xffff,
{
    assert(0 <= a * b <= 0xffff * 0xffff) by (nonlinear_arith)
        requires
            0 <= a <= 0xffff,
            0 <= b <= 0xffff,
    ;
}

/// A product of two positive numbers is positive.
proof fn interval_prod_pos(a: int, b: int)
    requires
        1 <= a,
        1 <= b,
    ensures
        a * b >= 1,
{
    assert(a * b >= 1) by (nonlinear_arith)
        requires
            1 <= a,
            1 <= b,
    ;
}

/// An interval built from a positive fraction is in lowest terms and is an
/// equivalent fraction: the reduction of `Interval::new` divides out exactly
/// the greatest common divisor, nothing more and nothing less.
pub proof fn lemma_interval_new_reduced(numerator: u16, denominator: u16, iv: Interval)
    requires
        numerator >= 1,
        denominator >= 1,
        iv.wf(),
        iv.spec_numerator() == numerator as nat / spec_gcd(numerator as nat, denominator as nat),
        iv.spec_denominator() == denominator as nat / spec_gcd(
            numerator as nat,
            denominator as nat,
        ),
    ensures
        spec_gcd(iv.spec_numerator() as nat, iv.spec_denominator() as nat) == 1,
        iv.spec_numerator() * denominator == iv.spec_denominator() * numerator,
        1 <= iv.spec_numerator() <= numerator,
        1 <= iv.spec_denominator() <= denominator,
{
    lemma_gcd_reduce(numerator as nat, denominator as nat);
}

} // verus!
