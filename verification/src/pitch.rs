//! Equal-tempered pitch in whole micro-hertz.
//!
//! A key is counted in semitones from A0 = 0, so that A4 is key 48 and sounds
//! at 440 Hz. The frequency of key `k` is `440 * 2^((k - 48) / 12)` Hz, which
//! is irrational unless `k` is a multiple of 12. This module works with its
//! floor in micro-hertz and characterises that floor without leaving the
//! integers: `f` is the floor exactly when
//! `f^12 <= (440 * 10^6)^12 * 2^(k - 48) < (f + 1)^12`.

use vstd::prelude::*;
use vstd::arithmetic::power::*;
use vstd::arithmetic::power2::*;
use vstd::arithmetic::mul::*;

verus! {

/// 440 Hz, the frequency of A4, in micro-hertz.
pub const CONCERT_PITCH: u64 = 440_000_000;

/// Lowest key that has a frequency here: C0, nine semitones below A0.
pub const LOWEST_KEY: i32 = -9;

/// Highest key that has a frequency here: B#9.
pub const HIGHEST_KEY: i32 = 111;

/// Key number of a tone, from its octave and its semitone offset from A.
pub open spec fn key_number(octave: int, semitone: int) -> int {
    octave * 12 + semitone
}

/// `f` is the frequency of `key` in micro-hertz, rounded down.
///
/// Both sides of `f^12 <= (440 * 10^6)^12 * 2^(key - 48)` are multiplied by
/// `2^57`, which keeps every exponent non-negative from `LOWEST_KEY` on.
pub open spec fn is_pitch_of(key: int, f: int) -> bool {
    &&& key >= LOWEST_KEY
    &&& f >= 0
    &&& pow(f, 12) * pow2(57) <= pow(CONCERT_PITCH as int, 12) * pow2((key + 9) as nat)
    &&& pow(CONCERT_PITCH as int, 12) * pow2((key + 9) as nat) < pow(f + 1, 12) * pow2(57)
}

/// The frequency of `key` in micro-hertz, rounded down, for the keys from
/// `LOWEST_KEY` to `HIGHEST_KEY`.
pub open spec fn pitch_of(key: int) -> int {
    choose|f: int| is_pitch_of(key, f)
}

/// A power grows with its base.
pub proof fn lemma_pow_base_increases(a: int, b: int, e: nat)
    requires
        0 <= a <= b,
    ensures
        0 <= pow(a, e) <= pow(b, e),
    decreases e,
{
    reveal(pow);
    if e > 0 {
        lemma_pow_base_increases(a, b, (e - 1) as nat);
        lemma_mul_upper_bound(a, b, pow(a, (e - 1) as nat), pow(b, (e - 1) as nat));
        lemma_mul_nonnegative(a, pow(a, (e - 1) as nat));
    }
}

/// A positive power grows strictly with its base.
pub proof fn lemma_pow_base_strictly_increases(a: int, b: int, e: nat)
    requires
        0 <= a < b,
        e > 0,
    ensures
        0 <= pow(a, e) < pow(b, e),
    decreases e,
{
    reveal(pow);
    lemma_pow_base_increases(a, b, (e - 1) as nat);
    lemma_pow_positive(b, (e - 1) as nat);
    let pa = pow(a, (e - 1) as nat);
    let pb = pow(b, (e - 1) as nat);
    lemma_mul_nonnegative(a, pa);
    // a * pa <= a * pb < b * pb
    lemma_mul_inequality(pa, pb, a);
    lemma_mul_is_commutative(pa, a);
    lemma_mul_is_commutative(pb, a);
    lemma_mul_strict_inequality(a, b, pb);
}

/// No key has two frequencies: the floor is unique.
pub proof fn lemma_pitch_unique(key: int, f: int, g: int)
    requires
        is_pitch_of(key, f),
        is_pitch_of(key, g),
    ensures
        f == g,
{
    lemma_pow2_pos(57);
    let p = pow2(57) as int;
    if f < g {
        lemma_pow_base_increases(f + 1, g, 12);
        lemma_mul_inequality(pow(f + 1, 12), pow(g, 12), p);
    } else if g < f {
        lemma_pow_base_increases(g + 1, f, 12);
        lemma_mul_inequality(pow(g + 1, 12), pow(f, 12), p);
    }
}

/// Twelve factors written out, for bases that are known numbers.
pub proof fn lemma_twelfth_power(x: int)
    ensures
        pow(x, 12) == twelfth_power(x),
{
    reveal_with_fuel(pow, 13);
}

/// One octave down halves the frequency, and the floor of the half is the
/// half of the floor, rounded down.
pub proof fn lemma_pitch_octave_down(key: int, f: int)
    requires
        is_pitch_of(key, f),
        key - 12 >= LOWEST_KEY,
    ensures
        is_pitch_of(key - 12, f / 2),
{
    let h = f / 2;
    let c = pow(CONCERT_PITCH as int, 12);
    let lo = pow2((key - 3) as nat) as int;
    let p = pow2(57) as int;
    lemma_pow2_pos(57);
    assert(pow2((key + 9) as nat) == 4096 * lo) by {
        lemma_pow2_adds(12, (key - 3) as nat);
        lemma2_to64();
    }
    assert(c * (4096 * lo) == 4096 * (c * lo)) by (nonlinear_arith);
    assert(pow(2, 12) == 4096) by {
        lemma_twelfth_power(2);
    }
    // (2h)^12 <= f^12
    assert(4096 * (pow(h, 12) * p) <= pow(f, 12) * p) by {
        lemma_pow_distributes(2, h, 12);
        lemma_pow_base_increases(2 * h, f, 12);
        lemma_mul_inequality(pow(2 * h, 12), pow(f, 12), p);
        assert((4096 * pow(h, 12)) * p == 4096 * (pow(h, 12) * p)) by (nonlinear_arith);
    }
    // (f + 1)^12 <= (2(h + 1))^12
    assert(pow(f + 1, 12) * p <= 4096 * (pow(h + 1, 12) * p)) by {
        lemma_pow_distributes(2, h + 1, 12);
        lemma_pow_base_increases(f + 1, 2 * (h + 1), 12);
        lemma_mul_inequality(pow(f + 1, 12), pow(2 * (h + 1), 12), p);
        assert((4096 * pow(h + 1, 12)) * p == 4096 * (pow(h + 1, 12) * p)) by (nonlinear_arith);
    }
}

/// A4 sounds at 440 Hz exactly.
pub proof fn lemma_concert_pitch()
    ensures
        is_pitch_of(48, CONCERT_PITCH as int),
{
    let c = pow(CONCERT_PITCH as int, 12);
    let p = pow2(57) as int;
    lemma_pow2_pos(57);
    lemma_pow_base_strictly_increases(CONCERT_PITCH as int, CONCERT_PITCH as int + 1, 12);
    lemma_mul_strict_inequality(c, pow(CONCERT_PITCH as int + 1, 12), p);
}

/// The product of twelve equal factors.
pub open spec fn twelfth_power(x: int) -> int {
    x * (x * (x * (x * (x * (x * (x * (x * (x * (x * (x * x))))))))))
}

/// Checks one line of the table of octave 9 against the twelfth powers.
proof fn lemma_top_octave_entry(semitone: int, f: int)
    requires
        LOWEST_KEY <= semitone <= 3,
        f >= 0,
        twelfth_power(f) <= concert_pitch_pow12() * pow2((60 + semitone) as nat),
        concert_pitch_pow12() * pow2((60 + semitone) as nat) < twelfth_power(f + 1),
    ensures
        is_pitch_of(108 + semitone, f),
{
    let p = pow2(57) as int;
    let c = pow(CONCERT_PITCH as int, 12);
    let q = pow2((60 + semitone) as nat) as int;
    lemma_pow2_pos(57);
    lemma_twelfth_power(f);
    lemma_twelfth_power(f + 1);
    lemma_twelfth_power(CONCERT_PITCH as int);
    assert(pow2((117 + semitone) as nat) == q * p) by {
        lemma_pow2_adds((60 + semitone) as nat, 57);
    }
    assert(c * (q * p) == (c * q) * p) by (nonlinear_arith);
    lemma_mul_inequality(twelfth_power(f), c * q, p);
    lemma_mul_strict_inequality(c * q, twelfth_power(f + 1), p);
}

/// `(440 * 10^6)^12`.
pub open spec fn concert_pitch_pow12() -> int {
    52654090776777588736000000000000000000000000000000000000000000000000000000000000000000000000000000000000int
}

/// Frequency of a key of octave 9, from C9 (semitone -9) to B#9 (semitone 3),
/// in micro-hertz, rounded down. The lower octaves are halves of these.
fn top_octave_pitch(semitone: i8) -> (f: u64)
    requires
        -9 <= semitone <= 3,
    ensures
        is_pitch_of(108 + semitone, f as int),
{
    proof {
        lemma2_to64_rest();
    }
    match semitone {
        -9 => {
            proof {
                lemma_top_octave_entry(-9, 8372018089);
            }
            8372018089
        },
        -8 => {
            proof {
                lemma_top_octave_entry(-8, 8869844191);
            }
            8869844191
        },
        -7 => {
            proof {
                lemma_top_octave_entry(-7, 9397272573);
            }
            9397272573
        },
        -6 => {
            proof {
                lemma_top_octave_entry(-6, 9956063479);
            }
            9956063479
        },
        -5 => {
            proof {
                lemma_top_octave_entry(-5, 10548081821);
            }
            10548081821
        },
        -4 => {
            proof {
                lemma_top_octave_entry(-4, 11175303405);
            }
            11175303405
        },
        -3 => {
            proof {
                lemma_top_octave_entry(-3, 11839821526);
            }
            11839821526
        },
        -2 => {
            proof {
                lemma_top_octave_entry(-2, 12543853951);
            }
            12543853951
        },
        -1 => {
            proof {
                lemma_top_octave_entry(-1, 13289750322);
            }
            13289750322
        },
        0 => {
            proof {
                lemma_top_octave_entry(0, 14080000000);
            }
            14080000000
        },
        1 => {
            proof {
                lemma_top_octave_entry(1, 14917240368);
            }
            14917240368
        },
        2 => {
            proof {
                lemma_top_octave_entry(2, 15804265640);
            }
            15804265640
        },
        _ => {
            proof {
                lemma_top_octave_entry(3, 16744036179);
            }
            16744036179
        },
    }
}

/// Frequency of a key in micro-hertz, rounded down, from its octave (0 to 9)
/// and its semitone offset from A (-9 for C up to 3 for B#).
pub fn pitch_micro_hz(octave: u8, semitone: i8) -> (f: u64)
    requires
        octave <= 9,
        -9 <= semitone <= 3,
    ensures
        LOWEST_KEY <= key_number(octave as int, semitone as int) <= HIGHEST_KEY,
        is_pitch_of(key_number(octave as int, semitone as int), f as int),
        f == pitch_of(key_number(octave as int, semitone as int)),
{
    let mut f: u64 = top_octave_pitch(semitone);
    let mut above: u8 = 9;
    while above > octave
        invariant
            octave <= above <= 9,
            -9 <= semitone <= 3,
            is_pitch_of(key_number(above as int, semitone as int), f as int),
        decreases above,
    {
        proof {
            lemma_pitch_octave_down(key_number(above as int, semitone as int), f as int);
        }
        f = f / 2;
        above = above - 1;
    }
    proof {
        let key = key_number(octave as int, semitone as int);
        lemma_pitch_unique(key, f as int, pitch_of(key));
    }
    f
}

} // verus!
