use picoha_protocols::quantizer::{quantize, single_to_millis, MAX_ITERATIONS, SYS_CLOCK_HZ};

fn within(f_mhz: u64, period16: u64) -> bool {
    let lhs = f_mhz as u128 * period16 as u128;
    let rhs = SYS_CLOCK_HZ as u128 * 16000;
    lhs.abs_diff(rhs) <= 100 * period16 as u128
}

#[test]
fn single_precision_to_millis() {
    assert_eq!(single_to_millis(1000.0f32.to_bits()), Some(1_000_000));
    assert_eq!(single_to_millis(5.6f32.to_bits()), Some(5_599));
    assert_eq!(single_to_millis(62_500_000.0f32.to_bits()), Some(62_500_000_000));
    assert_eq!(single_to_millis(0.0f32.to_bits()), Some(0));
    assert_eq!(single_to_millis(0.0005f32.to_bits()), Some(0));
    assert_eq!(single_to_millis((-1.0f32).to_bits()), None);
    assert_eq!(single_to_millis(f32::NAN.to_bits()), None);
    assert_eq!(single_to_millis(f32::INFINITY.to_bits()), None);
    assert_eq!(single_to_millis(1e30f32.to_bits()), None);
}

#[test]
fn convergence_on_listed_targets() {
    for f in [1000.0f32, 5.6, 62_500_000.0] {
        let f_mhz = single_to_millis(f.to_bits()).unwrap();
        let q = quantize(SYS_CLOCK_HZ, f_mhz);
        assert!(within(f_mhz, q.period16) || q.iterations == MAX_ITERATIONS);
        assert!(q.iterations <= MAX_ITERATIONS);
    }
}

#[test]
fn one_kilohertz() {
    let q = quantize(SYS_CLOCK_HZ, 1_000_000);
    assert_eq!(q.period_wanted, 125_000);
    assert_eq!(q.top, 62_499);
    assert_eq!(q.div_int, 1);
    assert_eq!(q.div_frac, 0);
    assert!(q.phase_correct);
    assert_eq!(q.iterations, 0);
    assert_eq!(q.period16, 2_000_000);
    assert_eq!(q.freq_mhz, 1_000_000);
}

#[test]
fn low_frequency_widens_divider() {
    let q = quantize(SYS_CLOCK_HZ, 5_599);
    assert_eq!(q.div_int, 255);
    assert_eq!(q.top, 43_774);
    assert_eq!(q.period_wanted, 22_325_415);
    assert_eq!(q.freq_mhz, 5_599);
    assert_eq!(q.iterations, 0);
}

#[test]
fn high_frequency_leaves_phase_correct_mode() {
    let q = quantize(SYS_CLOCK_HZ, 100_000_000_000);
    assert!(!q.phase_correct);
    assert_eq!(q.top, 0);
    assert_eq!(q.div_frac, 4);
    assert_eq!(q.iterations, 8);
    assert_eq!(q.freq_mhz, 100_000_000_000);
}

#[test]
fn search_converges_on_fraction() {
    let q = quantize(SYS_CLOCK_HZ, 40_000_000_000);
    assert_eq!(q.div_frac, 9);
    assert_eq!(q.iterations, 7);
    assert_eq!(q.period16, 50);
    assert_eq!(q.freq_mhz, 40_000_000_000);
}

#[test]
fn budget_exhausted_returns_closest() {
    let q = quantize(SYS_CLOCK_HZ, 10_000_000_000);
    assert_eq!(q.iterations, MAX_ITERATIONS);
    assert_eq!(q.div_frac, 1);
    assert_eq!(q.period16, 204);
    assert_eq!(q.freq_mhz, 9_803_921_568);
    assert!(!within(10_000_000_000, q.period16));
}
