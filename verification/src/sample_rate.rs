//! Sample rates as the host hands them over: 64-bit IEEE floats, held here by
//! their bits.

use vstd::prelude::*;
use vstd::arithmetic::div_mod::{lemma_fundamental_div_mod, lemma_fundamental_div_mod_converse};
use vstd::arithmetic::power2::{
    lemma2_to64, lemma2_to64_rest, lemma_pow2_adds, lemma_pow2_pos, lemma_pow2_strictly_increases,
    pow2,
};
use crate::constants::{DEFAULT_SAMPLE_RATE, SAMPLE_RATE_44100};

verus! {

/// A sample rate in Hz, as the bits of a 64-bit IEEE float.
#[derive(Clone, Copy, Debug, PartialEq, Eq, Structural)]
pub struct SampleRate {
    pub bits: u64,
}

impl SampleRate {
    /// The biased exponent.
    pub open spec fn exponent(self) -> int {
        (self.bits / 0x10_0000_0000_0000) as int % 0x800
    }

    /// The fraction.
    pub open spec fn fraction(self) -> int {
        self.bits as int % 0x10_0000_0000_0000
    }

    /// The sign bit is set.
    pub open spec fn negative(self) -> bool {
        self.bits >= 0x8000_0000_0000_0000
    }

    /// The rate is a number, neither infinite nor a NaN.
    pub open spec fn finite(self) -> bool {
        self.exponent() != 0x7FF
    }

    /// The rate without its sign, in units of 2^-1074, the smallest positive
    /// float.
    pub open spec fn magnitude(self) -> int {
        if self.exponent() == 0 {
            self.fraction()
        } else {
            (0x10_0000_0000_0000 + self.fraction()) * pow2((self.exponent() - 1) as nat)
        }
    }

    /// The rate in units of 2^-1074.
    pub open spec fn scaled(self) -> int {
        if self.negative() {
            -self.magnitude()
        } else {
            self.magnitude()
        }
    }

    /// The rate in whole Hz, what lies behind the point cut off.
    pub open spec fn whole(self) -> int {
        self.scaled() / pow2(1074) as int
    }

    /// The rate differs from `hz` by less than one half.
    pub open spec fn near(self, hz: int) -> bool {
        &&& self.finite()
        &&& -(pow2(1074) as int) < 2 * (self.scaled() - hz * pow2(1074)) < pow2(1074)
    }

    /// The rate is one that the device runs at.
    pub open spec fn supported(self) -> bool {
        self.near(DEFAULT_SAMPLE_RATE as int) || self.near(SAMPLE_RATE_44100 as int)
    }

    /// The rate that a supported rate stands for.
    pub open spec fn nominal(self) -> u32 {
        if self.near(DEFAULT_SAMPLE_RATE as int) {
            DEFAULT_SAMPLE_RATE
        } else {
            SAMPLE_RATE_44100
        }
    }

    /// The rate at which a driver starts.
    pub open spec fn initial_spec() -> SampleRate {
        SampleRate { bits: 0x40E7_7000_0000_0000 }
    }

    proof fn lemma_bits(self)
        ensures
            0 <= self.exponent() < 0x800,
            0 <= self.fraction() < 0x10_0000_0000_0000,
            self.bits == (if self.negative() {
                0x8000_0000_0000_0000int
            } else {
                0
            }) + self.exponent() * 0x10_0000_0000_0000 + self.fraction(),
    {
    }

    /// With exponent 1038 the rate is the significand divided by 2^37.
    proof fn lemma_middle(self)
        requires
            self.exponent() == 1038,
        ensures
            self.magnitude() == (0x10_0000_0000_0000 + self.fraction()) * pow2(1037),
            pow2(1074) == 0x20_0000_0000 * pow2(1037),
            pow2(1037) > 0,
    {
        lemma_pow2_adds(37, 1037);
        lemma2_to64_rest();
        lemma_pow2_pos(1037);
    }

    /// Below and above exponent 1038 the rate is less than 2^15 and at least
    /// 2^16.
    proof fn lemma_outside(self)
        ensures
            self.magnitude() >= 0,
            self.exponent() < 1038 ==> self.magnitude() < 0x8000 * pow2(1074),
            self.exponent() > 1038 ==> self.magnitude() >= 0x1_0000 * pow2(1074),
    {
        self.lemma_bits();
        lemma2_to64();
        lemma2_to64_rest();
        let e = self.exponent();
        let m = 0x10_0000_0000_0000 + self.fraction();
        if e == 0 {
            lemma_pow2_adds(52, 1022);
            lemma_pow2_pos(1022);
            let p = pow2(1022) as int;
            assert(0x10_0000_0000_0000 <= 0x8000 * (0x10_0000_0000_0000 * p)) by (nonlinear_arith)
                requires
                    p > 0,
            ;
        } else {
            let p = pow2((e - 1) as nat) as int;
            lemma_pow2_pos((e - 1) as nat);
            assert(m * p >= 0) by (nonlinear_arith)
                requires
                    m >= 0,
                    p > 0,
            ;
            if e < 1038 {
                if e < 1037 {
                    lemma_pow2_strictly_increases((e - 1) as nat, 1036);
                }
                let q = pow2(1036) as int;
                lemma_pow2_adds(38, 1036);
                lemma_pow2_pos(1036);
                assert(m * p < 0x8000 * (0x40_0000_0000 * q)) by (nonlinear_arith)
                    requires
                        0 <= m < 0x20_0000_0000_0000,
                        0 < p <= q,
                ;
            } else if e > 1038 {
                if e > 1039 {
                    lemma_pow2_strictly_increases(1038, (e - 1) as nat);
                }
                let q = pow2(1038) as int;
                lemma_pow2_adds(36, 1038);
                lemma_pow2_pos(1038);
                assert(m * p >= 0x1_0000 * (0x10_0000_0000 * q)) by (nonlinear_arith)
                    requires
                        m >= 0x10_0000_0000_0000,
                        p >= q > 0,
                ;
            }
        }
    }

    /// What it takes to be near a rate between 2^15 and 2^16.
    proof fn lemma_near(self, hz: int)
        requires
            0x8001 <= hz < 0x1_0000,
        ensures
            self.near(hz) <==> !self.negative() && self.exponent() == 1038
                && -0x20_0000_0000 < 2 * (0x10_0000_0000_0000 + self.fraction() - hz
                * 0x20_0000_0000) < 0x20_0000_0000,
    {
        self.lemma_bits();
        self.lemma_outside();
        lemma_pow2_pos(1074);
        let unit = pow2(1074) as int;
        let v = self.magnitude();
        assert(hz * unit >= 0x8001 * unit && hz * unit <= 0xFFFF * unit) by (nonlinear_arith)
            requires
                0x8001 <= hz <= 0xFFFF,
                unit > 0,
        ;
        if self.exponent() == 1038 {
            self.lemma_middle();
            let p = pow2(1037) as int;
            let m = 0x10_0000_0000_0000 + self.fraction();
            let d = m - hz * 0x20_0000_0000;
            assert(v - hz * unit == d * p) by (nonlinear_arith)
                requires
                    v == m * p,
                    unit == 0x20_0000_0000 * p,
                    d == m - hz * 0x20_0000_0000,
            ;
            assert((-unit < 2 * (d * p) && 2 * (d * p) < unit) <==> -0x20_0000_0000 < 2 * d
                < 0x20_0000_0000) by (nonlinear_arith)
                requires
                    unit == 0x20_0000_0000 * p,
                    p > 0,
            ;
        }
    }

    /// Whether the rate differs from `hz` by less than one half.
    pub fn is_near(&self, hz: u32) -> (r: bool)
        requires
            0x8001 <= hz < 0x1_0000,
        ensures
            r == self.near(hz as int),
    {
        proof {
            self.lemma_bits();
            self.lemma_near(hz as int);
        }
        let exponent: u64 = (self.bits / 0x10_0000_0000_0000) % 0x800;
        if self.bits >= 0x8000_0000_0000_0000 || exponent != 1038 {
            return false;
        }
        let m: u64 = 0x10_0000_0000_0000 + self.bits % 0x10_0000_0000_0000;
        let twice: u64 = 2 * m;
        let middle: u64 = (hz as u64) * 0x40_0000_0000;
        twice + 0x20_0000_0000 > middle && twice < middle + 0x20_0000_0000
    }

    /// Whether the rate is one that the device runs at.
    pub fn is_supported(&self) -> (r: bool)
        ensures
            r == self.supported(),
    {
        self.is_near(DEFAULT_SAMPLE_RATE) || self.is_near(SAMPLE_RATE_44100)
    }

    /// The whole number of Hz in a supported rate.
    pub fn whole_hz(&self) -> (r: u32)
        requires
            self.supported(),
        ensures
            r == self.whole(),
    {
        proof {
            self.lemma_bits();
            self.lemma_near(DEFAULT_SAMPLE_RATE as int);
            self.lemma_near(SAMPLE_RATE_44100 as int);
            self.lemma_middle();
        }
        let m: u64 = 0x10_0000_0000_0000 + self.bits % 0x10_0000_0000_0000;
        let hz: u64 = m / 0x20_0000_0000;
        proof {
            let p = pow2(1037) as int;
            let unit = pow2(1074) as int;
            let n = m as int;
            let h = hz as int;
            assert(h * unit <= n * p && n * p < (h + 1) * unit) by (nonlinear_arith)
                requires
                    unit == 0x20_0000_0000 * p,
                    p > 0,
                    h * 0x20_0000_0000 <= n < (h + 1) * 0x20_0000_0000,
            ;
            assert((h + 1) * unit == h * unit + unit) by (nonlinear_arith);
            lemma_fundamental_div_mod_converse(n * p, unit, h, n * p - h * unit);
        }
        hz as u32
    }

    /// The rate that a supported rate stands for: 48 or 44.1 kHz.
    pub fn nominal_hz(&self) -> (r: u32)
        requires
            self.supported(),
        ensures
            r == self.nominal(),
            self.near(r as int),
    {
        if self.is_near(DEFAULT_SAMPLE_RATE) {
            DEFAULT_SAMPLE_RATE
        } else {
            SAMPLE_RATE_44100
        }
    }

    /// The rate at which a driver starts, 48 kHz.
    pub fn initial() -> (r: Self)
        ensures
            r == SampleRate::initial_spec(),
            r.supported(),
    {
        let r = SampleRate { bits: 0x40E7_7000_0000_0000 };
        proof {
            r.lemma_near(DEFAULT_SAMPLE_RATE as int);
        }
        r
    }
}

/// The rate at which a driver starts is exactly the default rate.
pub proof fn law_initial_rate()
    ensures
        SampleRate::initial_spec().scaled() == DEFAULT_SAMPLE_RATE * pow2(1074),
        SampleRate::initial_spec().whole() == DEFAULT_SAMPLE_RATE,
        SampleRate::initial_spec().supported(),
{
    let r = SampleRate::initial_spec();
    r.lemma_middle();
    r.lemma_near(DEFAULT_SAMPLE_RATE as int);
    let p = pow2(1037) as int;
    let unit = pow2(1074) as int;
    assert(0x17_7000_0000_0000 * p == 48_000 * unit) by (nonlinear_arith)
        requires
            unit == 0x20_0000_0000 * p,
    ;
    lemma_pow2_pos(1074);
    lemma_fundamental_div_mod_converse(r.scaled(), unit, 48_000, 0);
}

/// A supported rate, cut to whole Hz, is one of four values.
pub proof fn law_supported_in_whole_hz(rate: SampleRate)
    requires
        rate.supported(),
    ensures
        rate.whole() == 47_999 || rate.whole() == 48_000 || rate.whole() == 44_099 || rate.whole()
            == 44_100,
{
    let unit = pow2(1074) as int;
    lemma_pow2_pos(1074);
    let v = rate.scaled();
    let hz = rate.whole();
    lemma_fundamental_div_mod(v, unit);
    if rate.near(48_000) {
        assert(hz == 47_999 || hz == 48_000) by (nonlinear_arith)
            requires
                unit > 0,
                v == unit * hz + v % unit,
                0 <= v % unit < unit,
                -unit < 2 * (v - 48_000 * unit) < unit,
        ;
    } else {
        assert(hz == 44_099 || hz == 44_100) by (nonlinear_arith)
            requires
                unit > 0,
                v == unit * hz + v % unit,
                0 <= v % unit < unit,
                -unit < 2 * (v - 44_100 * unit) < unit,
        ;
    }
}

/// The rates that the device runs at, by their bits: those between 47 999.5 and
/// 48 000.5 Hz, and those between 44 099.5 and 44 100.5 Hz. The bits of positive
/// floats order as the floats do.
pub proof fn law_supported_by_bits(rate: SampleRate)
    ensures
        rate.supported() <==> {
            ||| 0x40E7_6FF0_0000_0000 < rate.bits < 0x40E7_7010_0000_0000
            ||| 0x40E5_8870_0000_0000 < rate.bits < 0x40E5_8890_0000_0000
        },
{
    rate.lemma_bits();
    rate.lemma_near(DEFAULT_SAMPLE_RATE as int);
    rate.lemma_near(SAMPLE_RATE_44100 as int);
}

/// The whole number of Hz of a supported rate does not exceed the rate, and one
/// more does.
pub proof fn law_whole_hz_cuts_off(rate: SampleRate)
    requires
        rate.supported(),
    ensures
        rate.whole() * pow2(1074) <= rate.scaled() < (rate.whole() + 1) * pow2(1074),
        rate.whole() == (0x10_0000_0000_0000 + rate.bits as int % 0x10_0000_0000_0000)
            / 0x20_0000_0000,
{
    rate.lemma_bits();
    rate.lemma_near(DEFAULT_SAMPLE_RATE as int);
    rate.lemma_near(SAMPLE_RATE_44100 as int);
    rate.lemma_middle();
    let p = pow2(1037) as int;
    let unit = pow2(1074) as int;
    let n = 0x10_0000_0000_0000 + rate.bits as int % 0x10_0000_0000_0000;
    let h = n / 0x20_0000_0000;
    assert(h * unit <= n * p && n * p < (h + 1) * unit && (h + 1) * unit == h * unit + unit)
        by (nonlinear_arith)
        requires
            unit == 0x20_0000_0000 * p,
            p > 0,
            h * 0x20_0000_0000 <= n < (h + 1) * 0x20_0000_0000,
    ;
    lemma_fundamental_div_mod_converse(n * p, unit, h, n * p - h * unit);
}

/// The value of a rate, from the fields of its bits: sign, exponent and fraction.
/// Each step of the exponent doubles it, and the sign bit negates it.
pub proof fn law_value_of_a_rate(rate: SampleRate, next: SampleRate)
    requires
        next.bits == rate.bits + 0x10_0000_0000_0000,
        rate.bits < 0x7FE0_0000_0000_0000,
        rate.bits >= 0x10_0000_0000_0000,
    ensures
        next.scaled() == 2 * rate.scaled(),
        rate.scaled() > 0,
{
    rate.lemma_bits();
    next.lemma_bits();
    let e = rate.exponent();
    let m = 0x10_0000_0000_0000 + rate.fraction();
    assert(next.exponent() == e + 1 && next.fraction() == rate.fraction());
    lemma_pow2_adds(1, (e - 1) as nat);
    lemma2_to64();
    lemma_pow2_pos((e - 1) as nat);
    let p = pow2((e - 1) as nat) as int;
    assert(m * (2 * p) == 2 * (m * p) && m * p > 0) by (nonlinear_arith)
        requires
            m > 0,
            p > 0,
    ;
}

/// A supported rate stands for the one of the device's rates that it lies near.
pub proof fn law_nominal_rate(rate: SampleRate)
    requires
        rate.supported(),
    ensures
        rate.nominal() == 48_000 <==> rate.bits > 0x40E6_0000_0000_0000,
        rate.nominal() == 44_100 <==> rate.bits < 0x40E6_0000_0000_0000,
        rate.nominal() - 1 <= rate.whole() <= rate.nominal(),
{
    law_supported_by_bits(rate);
    law_supported_in_whole_hz(rate);
    law_whole_hz_cuts_off(rate);
    rate.lemma_bits();
    rate.lemma_near(DEFAULT_SAMPLE_RATE as int);
    rate.lemma_near(SAMPLE_RATE_44100 as int);
}

/// A rate is a number unless its eleven bits of exponent are all set, and only a
/// number is near to anything.
pub proof fn law_finite(r: SampleRate, hz: int)
    ensures
        r.finite() <==> (r.bits as int / 0x10_0000_0000_0000) % 0x800 != 0x7FF,
        r.near(hz) ==> r.finite(),
{
}

} // verus!
