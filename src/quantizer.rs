//! Quantizes a requested PWM frequency into integer divider settings.
//!
//! The hardware produces `f = Fsys / period`, with
//! `period = (TOP + 1) * (PH + 1) * (DIV_INT + DIV_FRAC / 16)`.
//! Frequencies are handled in millihertz and periods in sixteenths of a
//! system clock cycle, so that every comparison below is exact.
use vstd::prelude::*;
use vstd::arithmetic::power2::{pow2, lemma_pow2_strictly_increases};
use vstd::bits::{lemma_u64_shl_is_mul, lemma_u64_shr_is_div, lemma_u64_pow2_no_overflow};

verus! {

/// System clock of the board, in hertz.
pub const SYS_CLOCK_HZ: u32 = 125_000_000;

/// Largest distance, in millihertz, at which the search stops.
pub const TOLERANCE_MHZ: u64 = 100;

/// Largest number of search steps.
pub const MAX_ITERATIONS: u16 = 20;

/// Targets under this many millihertz use the widest integer divider.
pub const LOW_FREQ_MHZ: u64 = 1_000_000;

/// Targets over this many millihertz leave phase-correct mode.
pub const HIGH_FREQ_MHZ: u64 = 62_500_500_000;

/// The period, in sixteenths of a system clock cycle, of a divider setting.
pub open spec fn period16(top: u16, phase_correct: bool, div_int: u8, div_frac: u8) -> int {
    (top as int + 1) * (if phase_correct { 2int } else { 1int }) * (16 * div_int as int + div_frac as int)
}

/// Whether a period of `p16` sixteenths of a cycle gives a frequency within
/// the tolerance of `f_mhz`: `|f_mhz / 1000 - fsys * 16 / p16| <= 0.1`.
pub open spec fn within_tolerance(fsys: u32, f_mhz: u64, p16: int) -> bool {
    let lhs = f_mhz as int * p16;
    let rhs = fsys as int * 16000;
    lhs - rhs <= TOLERANCE_MHZ as int * p16 && rhs - lhs <= TOLERANCE_MHZ as int * p16
}

/// The distance between the wanted frequency and the one of period `p16`,
/// scaled by `p16` (and by 1000/16).
pub open spec fn scaled_error(fsys: u32, f_mhz: u64, p16: int) -> int {
    let d = f_mhz as int * p16 - fsys as int * 16000;
    if d >= 0 { d } else { -d }
}

/// The integer divider chosen for a target.
pub open spec fn initial_div_int(f_mhz: u64) -> u8 {
    if f_mhz < LOW_FREQ_MHZ { 255 } else { 1 }
}

/// Whether phase-correct mode is kept for a target.
pub open spec fn initial_phase_correct(f_mhz: u64) -> bool {
    f_mhz < LOW_FREQ_MHZ || f_mhz <= HIGH_FREQ_MHZ
}

/// The counter top chosen for a target: the wanted period in cycles, over
/// the other factors, less one, held to the 16-bit range.
pub open spec fn initial_top(fsys: u32, f_mhz: u64) -> u16 {
    let wanted = (fsys as int * 1000) / f_mhz as int;
    let div = (if initial_phase_correct(f_mhz) { 2int } else { 1int }) * initial_div_int(f_mhz) as int;
    let t = wanted / div - 1;
    if t < 0 { 0 } else if t > 65535 { 65535 } else { t as u16 }
}

/// Divider settings for a target frequency, with diagnostics.
#[derive(Clone, Copy, Debug, PartialEq, Eq, Structural)]
pub struct Quantized {
    /// The wanted period, in whole system clock cycles.
    pub period_wanted: u64,
    /// The achieved period, in sixteenths of a system clock cycle.
    pub period16: u64,
    pub top: u16,
    /// Search steps taken.
    pub iterations: u16,
    /// The achieved frequency, in millihertz, rounded down.
    pub freq_mhz: u64,
    pub div_frac: u8,
    pub div_int: u8,
    pub phase_correct: bool,
}

/// What holds of the settings chosen for a target of `f_mhz` millihertz:
/// the thresholds fix the integer divider, the mode and the counter top;
/// the achieved period and frequency follow from the registers; and unless
/// the step budget ran out, the frequency is within tolerance.
pub open spec fn quantized_for(fsys: u32, f_mhz: u64, r: Quantized) -> bool {
    &&& f_mhz >= 1
    &&& r.period_wanted == (fsys as int * 1000) / f_mhz as int
    &&& r.div_int == initial_div_int(f_mhz)
    &&& r.phase_correct == initial_phase_correct(f_mhz)
    &&& r.top == initial_top(fsys, f_mhz)
    &&& r.period16 == period16(r.top, r.phase_correct, r.div_int, r.div_frac)
    &&& r.period16 > 0
    &&& r.freq_mhz == (fsys as int * 16000) / r.period16 as int
    &&& r.iterations <= MAX_ITERATIONS
    &&& r.iterations < MAX_ITERATIONS ==> within_tolerance(fsys, f_mhz, r.period16 as int)
}

fn period16_of(top: u16, phase_correct: bool, div_int: u8, div_frac: u8) -> (r: u64)
    ensures
        r == period16(top, phase_correct, div_int, div_frac),
        r <= 131072 * 4335,
        div_int >= 1 ==> r > 0,
{
    let ph: u64 = if phase_correct { 2 } else { 1 };
    let d: u64 = 16 * (div_int as u64) + (div_frac as u64);
    proof {
        assert((top as int + 1) * ph as int <= 65536 * 2) by (nonlinear_arith)
            requires top <= 65535, ph <= 2;
        assert(((top as int + 1) * ph as int) * d as int <= 131072 * 4335) by (nonlinear_arith)
            requires (top as int + 1) * ph as int <= 131072, d <= 4335, d >= 0;
        if div_int >= 1 {
            assert(((top as int + 1) * ph as int) * d as int > 0) by (nonlinear_arith)
                requires top >= 0, ph >= 1, d >= 16;
        }
    }
    ((top as u64) + 1) * ph * d
}

fn error_of(fsys: u32, f_mhz: u64, p16: u64) -> (r: u128)
    requires
        p16 <= 131072 * 4335,
    ensures
        r == scaled_error(fsys, f_mhz, p16 as int),
        r <= 0x4000_0000_0000_0000_0000_0000,
{
    proof {
        assert(f_mhz as int * p16 as int <= 0xFFFF_FFFF_FFFF_FFFF * (131072 * 4335)) by (nonlinear_arith)
            requires f_mhz <= 0xFFFF_FFFF_FFFF_FFFFu64, p16 <= 131072 * 4335;
        assert(0xFFFF_FFFF_FFFF_FFFF * (131072 * 4335) <= 0x4000_0000_0000_0000_0000_0000);
    }
    let lhs = (f_mhz as u128) * (p16 as u128);
    let rhs = (fsys as u128) * 16000;
    if lhs >= rhs { lhs - rhs } else { rhs - lhs }
}

/// The bounds and fractional divider of the search after `k` steps that
/// did not reach the tolerance: it starts at `(0, 255, 0)`; each step keeps
/// the half on the side of the wanted period and moves to its middle.
pub open spec fn search_state(fsys: u32, f_mhz: u64, top: u16, ph: bool, div_int: u8, k: nat) -> (u8, u8, u8)
    decreases k,
{
    if k == 0 {
        (0, 255, 0)
    } else {
        let (lo, hi, fr) = search_state(fsys, f_mhz, top, ph, div_int, (k - 1) as nat);
        let p = period16(top, ph, div_int, fr);
        let (lo2, hi2) = if (fsys as int * 16000) < f_mhz as int * p { (lo, fr) } else { (fr, hi) };
        (lo2, hi2, ((lo2 as int + hi2 as int) / 2) as u8)
    }
}

/// The fractional divider tried at step `k` of the search.
pub open spec fn tried_frac(fsys: u32, f_mhz: u64, top: u16, ph: bool, div_int: u8, k: nat) -> u8 {
    search_state(fsys, f_mhz, top, ph, div_int, k).2
}

/// The period of the setting tried at step `k` of the search.
pub open spec fn tried_period(fsys: u32, f_mhz: u64, top: u16, ph: bool, div_int: u8, k: nat) -> int {
    period16(top, ph, div_int, tried_frac(fsys, f_mhz, top, ph, div_int, k))
}

proof fn lemma_period16_pos(top: u16, ph: bool, div_int: u8, div_frac: u8)
    requires
        div_int >= 1,
    ensures
        period16(top, ph, div_int, div_frac) > 0,
{
    let a = top as int + 1;
    let b: int = if ph { 2 } else { 1 };
    let c = 16 * div_int as int + div_frac as int;
    assert(a * b * c > 0) by (nonlinear_arith)
        requires a >= 1, b >= 1, c >= 16;
}

/// Whether period `p` gives a frequency at least as close to the target as
/// period `q`: `err(p) / p <= err(q) / q`, compared without dividing.
pub open spec fn at_least_as_close(fsys: u32, f_mhz: u64, p: int, q: int) -> bool {
    scaled_error(fsys, f_mhz, p) * q <= scaled_error(fsys, f_mhz, q) * p
}

/// The search behind a result: every step before the last one missed the
/// tolerance; a result found within the budget is the setting of its last
/// step; and the result is a tried setting at least as close as every
/// tried setting.
pub open spec fn searched(fsys: u32, f_mhz: u64, r: Quantized) -> bool {
    &&& forall|k: nat| k < r.iterations ==> !within_tolerance(fsys, f_mhz,
        #[trigger] tried_period(fsys, f_mhz, r.top, r.phase_correct, r.div_int, k))
    &&& r.iterations < MAX_ITERATIONS ==> r.div_frac == tried_frac(fsys, f_mhz, r.top, r.phase_correct, r.div_int, r.iterations as nat)
    &&& exists|k: nat| k <= r.iterations && r.div_frac == #[trigger] tried_frac(fsys, f_mhz, r.top, r.phase_correct, r.div_int, k)
    &&& forall|k: nat| k < r.iterations ==> at_least_as_close(fsys, f_mhz, r.period16 as int,
        #[trigger] tried_period(fsys, f_mhz, r.top, r.phase_correct, r.div_int, k))
}

proof fn lemma_closer_transitive(e1: int, p1: int, e2: int, p2: int, e3: int, p3: int)
    requires
        p1 > 0,
        p2 > 0,
        p3 > 0,
        e1 * p2 <= e2 * p1,
        e2 * p3 <= e3 * p2,
    ensures
        e1 * p3 <= e3 * p1,
{
    assert(e1 * p2 * p3 <= e2 * p1 * p3) by (nonlinear_arith)
        requires e1 * p2 <= e2 * p1, p3 > 0;
    assert(e2 * p3 * p1 <= e3 * p2 * p1) by (nonlinear_arith)
        requires e2 * p3 <= e3 * p2, p1 > 0;
    assert(e1 * p3 * p2 <= e3 * p1 * p2) by (nonlinear_arith)
        requires e1 * p2 * p3 <= e2 * p1 * p3, e2 * p3 * p1 <= e3 * p2 * p1;
    assert(e1 * p3 <= e3 * p1) by (nonlinear_arith)
        requires e1 * p3 * p2 <= e3 * p1 * p2, p2 > 0;
}

proof fn lemma_within_is_closer(e1: int, p1: int, e2: int, p2: int)
    requires
        p1 > 0,
        p2 > 0,
        e1 <= 100 * p1,
        e2 > 100 * p2,
    ensures
        e1 * p2 <= e2 * p1,
{
    assert(e1 * p2 <= 100 * p1 * p2) by (nonlinear_arith)
        requires e1 <= 100 * p1, p2 > 0;
    assert(100 * p2 * p1 <= e2 * p1) by (nonlinear_arith)
        requires e2 > 100 * p2, p1 > 0;
    assert(e1 * p2 <= e2 * p1) by (nonlinear_arith)
        requires e1 * p2 <= 100 * p1 * p2, 100 * p2 * p1 <= e2 * p1;
}

/// Chooses divider settings for a target of `f_mhz` millihertz on a system
/// clock of `fsys` hertz. The integer divider and the phase-correct mode
/// follow from coarse thresholds on the target, and the counter top from the
/// wanted period; then up to `MAX_ITERATIONS` halving steps over the
/// fractional divider look for a frequency within `TOLERANCE_MHZ`. The
/// search never fails: when the tolerance is not met it returns the closest
/// setting it tried.
pub fn quantize(fsys: u32, f_mhz: u64) -> (r: Quantized)
    requires
        f_mhz >= 1,
    ensures
        quantized_for(fsys, f_mhz, r),
        searched(fsys, f_mhz, r),
        r.iterations == MAX_ITERATIONS || within_tolerance(fsys, f_mhz, r.period16 as int),
{
    let period_wanted: u64 = (fsys as u64) * 1000 / f_mhz;
    let mut phase_correct = true;
    let mut div_int: u8 = 1;
    if f_mhz < LOW_FREQ_MHZ {
        div_int = 255;
    } else if f_mhz > HIGH_FREQ_MHZ {
        phase_correct = false;
    }
    let ph: u64 = if phase_correct { 2 } else { 1 };
    let q = period_wanted / (ph * (div_int as u64));
    let top: u16 = if q == 0 { 0 } else if q - 1 > 65535 { 65535 } else { (q - 1) as u16 };

    let fsys16k: u128 = (fsys as u128) * 16000;
    let mut div_frac: u8 = 0;
    let mut lower: u8 = 0;
    let mut upper: u8 = 255;
    let mut iterations: u16 = 0;

    let mut best_frac: u8 = 0;
    let mut best_p16: u64 = period16_of(top, phase_correct, div_int, 0);
    let mut best_err: u128 = error_of(fsys, f_mhz, best_p16);
    assert(tried_frac(fsys, f_mhz, top, phase_correct, div_int, 0) == 0);

    let mut done = false;
    while iterations < MAX_ITERATIONS && !done
        invariant
            iterations <= MAX_ITERATIONS,
            done ==> within_tolerance(fsys, f_mhz, best_p16 as int),
            done ==> best_frac == tried_frac(fsys, f_mhz, top, phase_correct, div_int, iterations as nat),
            !done ==> (lower, upper, div_frac) == search_state(fsys, f_mhz, top, phase_correct, div_int, iterations as nat),
            lower <= div_frac <= upper,
            f_mhz >= 1,
            div_int >= 1,
            fsys16k == fsys as int * 16000,
            best_p16 == period16(top, phase_correct, div_int, best_frac),
            0 < best_p16 <= 131072 * 4335,
            best_err == scaled_error(fsys, f_mhz, best_p16 as int),
            best_err <= 0x4000_0000_0000_0000_0000_0000,
            exists|k: nat| k <= iterations && best_frac == #[trigger] tried_frac(fsys, f_mhz, top, phase_correct, div_int, k),
            forall|k: nat| k < iterations ==> !within_tolerance(fsys, f_mhz, #[trigger] tried_period(fsys, f_mhz, top, phase_correct, div_int, k)),
            forall|k: nat| k < iterations ==> at_least_as_close(fsys, f_mhz, best_p16 as int, #[trigger] tried_period(fsys, f_mhz, top, phase_correct, div_int, k)),
        decreases MAX_ITERATIONS - iterations, if done { 0int } else { 1int },
    {
        let p16 = period16_of(top, phase_correct, div_int, div_frac);
        let err = error_of(fsys, f_mhz, p16);
        let ghost it = iterations as nat;
        assert(div_frac == tried_frac(fsys, f_mhz, top, phase_correct, div_int, it));
        assert(p16 == tried_period(fsys, f_mhz, top, phase_correct, div_int, it));
        proof {
            assert(TOLERANCE_MHZ as int * p16 as int <= 100 * (131072 * 4335)) by (nonlinear_arith)
                requires p16 <= 131072 * 4335, TOLERANCE_MHZ == 100;
        }
        let tol: u128 = (TOLERANCE_MHZ as u128) * (p16 as u128);
        if err <= tol {
            proof {
                assert forall|k: nat| k < iterations implies at_least_as_close(fsys, f_mhz, p16 as int, #[trigger] tried_period(fsys, f_mhz, top, phase_correct, div_int, k)) by {
                    lemma_period16_pos(top, phase_correct, div_int, tried_frac(fsys, f_mhz, top, phase_correct, div_int, k));
                    assert(!within_tolerance(fsys, f_mhz, tried_period(fsys, f_mhz, top, phase_correct, div_int, k)));
                    lemma_within_is_closer(err as int, p16 as int, scaled_error(fsys, f_mhz, tried_period(fsys, f_mhz, top, phase_correct, div_int, k)), tried_period(fsys, f_mhz, top, phase_correct, div_int, k));
                }
            }
            best_frac = div_frac;
            best_p16 = p16;
            best_err = err;
            done = true;
        } else {
            // Keep the closer of the two settings: compare err / p16 with
            // best_err / best_p16 without dividing.
            proof {
                assert(err as int * best_p16 as int <= 0x4000_0000_0000_0000_0000_0000 * (131072 * 4335)) by (nonlinear_arith)
                    requires err <= 0x4000_0000_0000_0000_0000_0000int, best_p16 <= 131072 * 4335;
                assert(best_err as int * p16 as int <= 0x4000_0000_0000_0000_0000_0000 * (131072 * 4335)) by (nonlinear_arith)
                    requires best_err <= 0x4000_0000_0000_0000_0000_0000int, p16 <= 131072 * 4335;
            }
            if err * (best_p16 as u128) < best_err * (p16 as u128) {
                proof {
                    assert forall|k: nat| k < iterations implies at_least_as_close(fsys, f_mhz, p16 as int, #[trigger] tried_period(fsys, f_mhz, top, phase_correct, div_int, k)) by {
                        lemma_period16_pos(top, phase_correct, div_int, tried_frac(fsys, f_mhz, top, phase_correct, div_int, k));
                        lemma_closer_transitive(err as int, p16 as int, best_err as int, best_p16 as int,
                            scaled_error(fsys, f_mhz, tried_period(fsys, f_mhz, top, phase_correct, div_int, k)), tried_period(fsys, f_mhz, top, phase_correct, div_int, k));
                    }
                }
                best_frac = div_frac;
                best_p16 = p16;
                best_err = err;
            }
            assert(at_least_as_close(fsys, f_mhz, best_p16 as int, tried_period(fsys, f_mhz, top, phase_correct, div_int, it)));
            if fsys16k < (f_mhz as u128) * (p16 as u128) {
                upper = div_frac;
            } else {
                lower = div_frac;
            }
            div_frac = (((lower as u16) + (upper as u16)) / 2) as u8;
            iterations += 1;
            assert((lower, upper, div_frac) == search_state(fsys, f_mhz, top, phase_correct, div_int, iterations as nat));
        }
    }
    let freq_mhz: u64 = ((fsys as u64) * 16000) / best_p16;
    let r = Quantized {
        period_wanted,
        period16: best_p16,
        top,
        iterations,
        freq_mhz,
        div_frac: best_frac,
        div_int,
        phase_correct,
    };
    proof {
        let k0 = choose|k: nat| k <= iterations && best_frac == #[trigger] tried_frac(fsys, f_mhz, top, phase_correct, div_int, k);
        assert(r.div_frac == tried_frac(fsys, f_mhz, r.top, r.phase_correct, r.div_int, k0));
    }
    r
}

/// A thousand times the value of the IEEE-754 single-precision number with
/// bit pattern `bits`, rounded down; `None` for negative numbers, infinities,
/// NaNs and values of 2^53 or more.
pub open spec fn single_millis(bits: u32) -> Option<int> {
    let biased = (bits / 0x80_0000) % 256;
    let fraction = bits % 0x80_0000;
    let mantissa = if biased == 0 { fraction as int } else { fraction + 0x80_0000 };
    let exp = if biased == 0 { 1int } else { biased as int };
    if bits >= 0x8000_0000 || biased == 255 || exp > 179 {
        None
    } else if exp >= 150 {
        Some(mantissa * 1000 * pow2((exp - 150) as nat))
    } else {
        Some(mantissa * 1000 / pow2((150 - exp) as nat) as int)
    }
}

/// Reads a non-negative IEEE-754 single-precision number, given by its bit
/// pattern, as a count of thousandths rounded down (hertz to millihertz,
/// percent to thousandths of a percent).
pub fn single_to_millis(bits: u32) -> (r: Option<u64>)
    ensures
        match r {
            Some(v) => single_millis(bits) == Some(v as int),
            None => single_millis(bits) is None,
        },
{
    let biased: u32 = (bits / 0x80_0000) % 256;
    let fraction: u32 = bits % 0x80_0000;
    let mantissa: u64 = if biased == 0 { fraction as u64 } else { (fraction as u64) + 0x80_0000 };
    let exp: u32 = if biased == 0 { 1 } else { biased };
    if bits >= 0x8000_0000 || biased == 255 || exp > 179 {
        return None;
    }
    let x: u64 = mantissa * 1000;
    assert(x < 0x4_0000_0000);
    if exp >= 150 {
        let k: u64 = (exp - 150) as u64;
        proof {
            vstd::arithmetic::power2::lemma2_to64();
            if k < 29 {
                lemma_pow2_strictly_increases(k as nat, 29);
            }
            assert(x as int * pow2(k as nat) <= 0x4_0000_0000 * 0x2000_0000) by (nonlinear_arith)
                requires x <= 0x4_0000_0000int, pow2(k as nat) <= 0x2000_0000int;
            lemma_u64_shl_is_mul(x, k);
        }
        Some(x << k)
    } else {
        let k: u64 = (150 - exp) as u64;
        if k >= 64 {
            proof {
                lemma_pow2_strictly_increases(63, k as nat);
                vstd::arithmetic::power2::lemma2_to64_rest();
                assert(x < pow2(k as nat));
                assert(x as int / pow2(k as nat) as int == 0) by (nonlinear_arith)
                    requires 0 <= x < pow2(k as nat);
            }
            Some(0)
        } else {
            proof { lemma_u64_shr_is_div(x, k); }
            Some(x >> k)
        }
    }
}

} // verus!
