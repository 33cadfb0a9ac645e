use audioviz::autocorr::AutocorrelationEstimator;
use audioviz::config::AC_BUFFER_SIZE;
use audioviz::config::AUTO_COEFFS;
use audioviz::config::COEFF_SCALE;

#[test]
fn silence_gives_an_all_zero_vector() {
    let mut est = AutocorrelationEstimator::new(AC_BUFFER_SIZE, AUTO_COEFFS);
    let buf = vec![0i64; 64];
    for _ in 0..3 {
        let out = est.feed(&buf);
        assert_eq!(out.len(), AUTO_COEFFS);
        assert!(out.iter().all(|&c| c == 0));
    }
}

#[test]
fn coefficients_match_the_formula() {
    let mut est = AutocorrelationEstimator::new(16, 2);
    let out = est.feed(&vec![1, 2]);
    // zero lag: 1*1 + 2*2 = 5; lag one: 1*2 = 2
    assert_eq!(out, vec![COEFF_SCALE, 2 * COEFF_SCALE / 5]);
}

#[test]
fn zero_lag_coefficient_is_the_unit() {
    let mut est = AutocorrelationEstimator::new(64, 4);
    let out = est.feed(&vec![3, -7, 11, 2, -5]);
    assert_eq!(out[0], COEFF_SCALE);
}

#[test]
fn sinusoid_peaks_near_its_period() {
    let period = 32usize;
    let mut est = AutocorrelationEstimator::new(AC_BUFFER_SIZE, AUTO_COEFFS);
    let mut out: Vec<i64> = Vec::new();
    for b in 0..16 {
        let buf: Vec<i64> = (0..64)
            .map(|i| {
                let n = (b * 64 + i) as f64;
                let x = (2.0 * std::f64::consts::PI * n / period as f64).sin();
                (x * 16384.0).round() as i64
            })
            .collect();
        out = est.feed(&buf);
    }
    assert_eq!(out.len(), AUTO_COEFFS);
    // away from the zero-lag peak, the strongest coefficient sits at the period
    let mut best = 8usize;
    for l in 8..AUTO_COEFFS {
        if out[l] > out[best] {
            best = l;
        }
    }
    assert!(best >= 31 && best <= 33, "peak lag {} not near period {}", best, period);
}
