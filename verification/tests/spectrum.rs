use audioviz::config::FFT_SIZE;
use audioviz::config::HALF_FFT_SIZE;
use audioviz::config::SAMPLE_RATE;
use audioviz::config::TABLE_SCALE;
use audioviz::spectrum::SpectralAnalyzer;

fn basis_tables(n: usize) -> (Vec<i64>, Vec<i64>) {
    let mut cos_t: Vec<i64> = Vec::new();
    let mut sin_t: Vec<i64> = Vec::new();
    for j in 0..n {
        let a = 2.0 * std::f64::consts::PI * j as f64 / n as f64;
        cos_t.push((a.cos() * TABLE_SCALE as f64).round() as i64);
        sin_t.push((a.sin() * TABLE_SCALE as f64).round() as i64);
    }
    (cos_t, sin_t)
}

#[test]
fn zero_input_gives_an_all_zero_spectrum() {
    let (cos_t, sin_t) = basis_tables(FFT_SIZE);
    let mut an = SpectralAnalyzer::new(FFT_SIZE, cos_t, sin_t);
    let out = an.feed(&vec![0i64; 64]);
    assert_eq!(out.len(), HALF_FFT_SIZE);
    assert!(out.iter().all(|&p| p == 0));
}

#[test]
fn constant_input_lands_entirely_in_the_zero_bin() {
    let (cos_t, sin_t) = basis_tables(4);
    assert_eq!(cos_t, vec![16384, 0, -16384, 0]);
    assert_eq!(sin_t, vec![0, 16384, 0, -16384]);
    let mut an = SpectralAnalyzer::new(4, cos_t, sin_t);
    let out = an.feed(&vec![16384i64; 4]);
    // zero bin: (4 * 16384 * 16384 / 16384)^2; the other bin cancels
    assert_eq!(out, vec![4294967296, 0]);
}

#[test]
fn sine_peak_bin_matches_its_frequency() {
    let freq = 440.0f64;
    let rate = SAMPLE_RATE as f64;
    let (cos_t, sin_t) = basis_tables(FFT_SIZE);
    let mut an = SpectralAnalyzer::new(FFT_SIZE, cos_t, sin_t);
    let buf: Vec<i64> = (0..FFT_SIZE)
        .map(|n| {
            let x = (2.0 * std::f64::consts::PI * freq * n as f64 / rate).sin();
            (x * 16384.0).round() as i64
        })
        .collect();
    let out = an.feed(&buf);
    assert_eq!(out.len(), HALF_FFT_SIZE);
    let mut best = 0usize;
    for k in 0..HALF_FFT_SIZE {
        if out[k] > out[best] {
            best = k;
        }
    }
    let expected = (freq * FFT_SIZE as f64 / rate).round() as usize;
    assert_eq!(expected, 3);
    assert_eq!(best, expected);
}
