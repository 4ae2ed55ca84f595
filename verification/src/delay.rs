//! Delays between moves.

use vstd::prelude::*;

use crate::constants::BILLION;
use crate::decimal::scaled_fraction;
use crate::double::magnitude_bits;
use crate::double::num;
use crate::double::one_units;
use crate::double::parts;
use crate::double::units;
use crate::double::Double;
use crate::double::SIGN_BIT;
use crate::limits::DurationContractCategory;
use crate::limits::UnknownDurationCategory;
use crate::planning_move::Kind;
use crate::rounding::divide_half_even;
use crate::rounding::lemma_two52;
use crate::rounding::two_to;
use crate::rounding::INFINITY_BITS;
use vstd::arithmetic::div_mod::lemma_fundamental_div_mod_converse;
use vstd::arithmetic::power2::lemma2_to64;
use vstd::arithmetic::power2::lemma_pow2_adds;
use vstd::arithmetic::power2::lemma_pow2_pos;
use vstd::arithmetic::power2::lemma_pow2_strictly_increases;
use vstd::arithmetic::power2::pow2;

verus! {

/// A span of time in seconds and nanoseconds.
#[derive(Clone, Copy, Debug, PartialEq, Eq, Structural)]
pub struct Duration {
    pub secs: u64,
    pub nanos: u32,
}

/// The nanoseconds of a number of seconds, rounded half to even.
pub open spec fn nanoseconds(seconds: Double) -> nat {
    divide_half_even(units(seconds.magnitude()) * 1_000_000_000, one_units())
}

impl Duration {
    #[verifier::allow_in_spec]
    pub fn zero() -> Duration
        returns
            (Duration { secs: 0, nanos: 0 }),
    {
        Duration { secs: 0, nanos: 0 }
    }

    /// The span of a number of seconds, if it is finite, not negative, and its seconds fit 64
    /// bits.
    pub open spec fn of_seconds(seconds: Double) -> Option<Duration> {
        let n = nanoseconds(seconds);
        if !seconds.finite() || (seconds.negative() && seconds.magnitude() > 0) || n / 1_000_000_000
            > u64::MAX {
            None
        } else {
            Some(
                Duration { secs: (n / 1_000_000_000) as u64, nanos: (n % 1_000_000_000) as u32 },
            )
        }
    }

    pub fn from_secs(seconds: Double) -> (r: Option<Duration>)
        ensures
            r == Duration::of_seconds(seconds),
    {
        let mag: u64 = magnitude_bits(seconds);
        if mag >= INFINITY_BITS || (seconds.bits >= SIGN_BIT && mag > 0) {
            return None;
        }
        let (m, shift) = parts(mag);
        let ghost u = units(mag as nat);
        proof {
            lemma_two52();
            lemma2_to64();
            lemma_pow2_pos(1074);
        }
        if shift < 1074 {
            let n: u128 = scaled_fraction(m, shift, 1_000_000_000);
            let secs: u128 = n / 1_000_000_000;
            if secs > u64::MAX as u128 {
                return None;
            }
            return Some(Duration { secs: secs as u64, nanos: (n % 1_000_000_000) as u32 });
        }
        proof {
            let g = pow2((shift - 1074) as nat);
            let whole = m * g;
            lemma_pow2_adds((shift - 1074) as nat, 1074);
            assert(u * 1_000_000_000 == (whole * 1_000_000_000) * one_units()) by (nonlinear_arith)
                requires
                    u == m * pow2(shift as nat),
                    pow2(shift as nat) == g * one_units(),
                    whole == m * g,
            ;
            lemma_fundamental_div_mod_converse(
                (u * 1_000_000_000) as int,
                one_units() as int,
                whole * 1_000_000_000,
                0,
            );
            assert(nanoseconds(seconds) == whole * 1_000_000_000);
        }
        if shift - 1074 >= 12 {
            proof {
                let g = pow2((shift - 1074) as nat);
                if shift - 1074 > 12 {
                    lemma_pow2_strictly_increases(12, (shift - 1074) as nat);
                }
                assert(m * g >= 0x10_0000_0000_0000 * 0x1000) by (nonlinear_arith)
                    requires
                        m >= 0x10_0000_0000_0000,
                        g >= 0x1000,
                ;
            }
            return None;
        }
        let p: u128 = two_to(shift - 1074);
        proof {
            lemma_pow2_strictly_increases((shift - 1074) as nat, 12);
            assert(m * p < 0x20_0000_0000_0000 * 0x1000) by (nonlinear_arith)
                requires
                    m < 0x20_0000_0000_0000,
                    p < 0x1000,
                    p >= 1,
            ;
        }
        let whole: u128 = m as u128 * p;
        if whole > u64::MAX as u128 {
            return None;
        }
        Some(Duration { secs: whole as u64, nanos: 0 })
    }

    /// The span in seconds.
    #[verifier::allow_in_spec]
    pub fn as_secs(&self) -> Double
        returns
            Double::from_u64(self.secs) + Double::from_u64(self.nanos as u64) / num(BILLION),
    {
        Double::from_u64(self.secs) + Double::from_u64(self.nanos as u64) / num(BILLION)
    }
}

/// A pause of the toolhead.
#[derive(Clone, Debug)]
pub enum Delay<S = String> {
    /// A pause requested by the file.
    Dwell(Duration),
    /// A command with a declared duration.
    Contract { duration: Duration, command: S, category: DurationContractCategory },
    /// Time added by an estimator comment.
    EstimatorAddition { duration: Duration, kind: Option<Kind> },
    /// A command whose duration is not known.
    Unknown { command: S, category: UnknownDurationCategory },
}

impl View for Delay<String> {
    type V = Delay<Seq<char>>;

    open spec fn view(&self) -> Delay<Seq<char>> {
        match *self {
            Delay::Dwell(d) => Delay::Dwell(d),
            Delay::Contract { duration, command, category } => Delay::Contract {
                duration,
                command: command@,
                category,
            },
            Delay::EstimatorAddition { duration, kind } => Delay::EstimatorAddition {
                duration,
                kind,
            },
            Delay::Unknown { command, category } => Delay::Unknown { command: command@, category },
        }
    }
}

impl Delay {
    /// The known duration; an unknown duration counts as zero.
    pub fn duration(&self) -> (r: Duration)
        ensures
            r == match self@ {
                Delay::Dwell(d) => d,
                Delay::Contract { duration, .. } => duration,
                Delay::EstimatorAddition { duration, .. } => duration,
                Delay::Unknown { .. } => Duration::zero(),
            },
    {
        match self {
            Delay::Dwell(d) => *d,
            Delay::Contract { duration, .. } => *duration,
            Delay::EstimatorAddition { duration, .. } => *duration,
            Delay::Unknown { .. } => Duration::zero(),
        }
    }
}

} // verus!
