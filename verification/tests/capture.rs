use audioviz::capture::CaptureLoop;
use audioviz::config::AUTO_COEFFS;
use audioviz::config::Config;
use audioviz::config::FFT_SIZE;
use audioviz::config::FRAMES_PER_BUFFER;
use audioviz::config::HALF_FFT_SIZE;
use audioviz::config::SAMPLE_RATE;
use audioviz::config::TABLE_SCALE;
use audioviz::handoff::RingHandoff;
use audioviz::render::RenderLoop;

fn basis_tables(n: usize) -> (Vec<i64>, Vec<i64>) {
    let mut cos_t: Vec<i64> = Vec::new();
    let mut sin_t: Vec<i64> = Vec::new();
    for j in 0..n {
        let a = 2.0 * std::f64::consts::PI * j as f64 / n as f64;
        cos_t.push((a.cos() * TABLE_SCALE as f64).round() as i64);
        sin_t.push((a.sin() * TABLE_SCALE as f64).round() as i64);
    }
    (cos_t, sin_t)
}

fn sine_buffer(start: usize, len: usize, freq: f64, rate: f64) -> Vec<i64> {
    (0..len)
        .map(|i| {
            let n = (start + i) as f64;
            let x = (2.0 * std::f64::consts::PI * freq * n / rate).sin();
            (x * 16384.0).round() as i64
        })
        .collect()
}

#[test]
fn silence_end_to_end_leaves_only_zeros() {
    let cfg = Config::default_config();
    let (cos_t, sin_t) = basis_tables(FFT_SIZE);
    let mut cap = CaptureLoop::new(&cfg, cos_t, sin_t);
    let mut coeff_h: RingHandoff<i64> = RingHandoff::new(AUTO_COEFFS);
    let mut fft_h: RingHandoff<i64> = RingHandoff::new(FFT_SIZE);
    let input = vec![0i64; FRAMES_PER_BUFFER];
    let mut output = vec![99i64; FRAMES_PER_BUFFER];
    for _ in 0..100 {
        cap.on_buffer(&input, &mut coeff_h, &mut fft_h, &mut output);
    }
    assert_eq!(output, vec![0i64; FRAMES_PER_BUFFER]);
    let mut saw_coeff = 0usize;
    while let Some(v) = coeff_h.try_pop() {
        assert_eq!(v, 0);
        saw_coeff += 1;
    }
    assert_eq!(saw_coeff, AUTO_COEFFS);
    let mut saw_bins = 0usize;
    while let Some(v) = fft_h.try_pop() {
        assert_eq!(v, 0);
        saw_bins += 1;
    }
    assert_eq!(saw_bins, FFT_SIZE);
}

#[test]
fn sine_end_to_end_peak_bin_is_three() {
    let freq = 440.0f64;
    let rate = SAMPLE_RATE as f64;
    let cfg = Config::default_config();
    let (cos_t, sin_t) = basis_tables(FFT_SIZE);
    let mut cap = CaptureLoop::new(&cfg, cos_t, sin_t);
    let mut coeff_h: RingHandoff<i64> = RingHandoff::new(AUTO_COEFFS);
    let mut fft_h: RingHandoff<i64> = RingHandoff::new(FFT_SIZE);
    let mut render = RenderLoop::new(AUTO_COEFFS, HALF_FFT_SIZE);
    let mut output = vec![0i64; FRAMES_PER_BUFFER];
    // enough buffers to fill the whole transform frame with the sine
    for b in 0..4 {
        let input = sine_buffer(b * FRAMES_PER_BUFFER, FRAMES_PER_BUFFER, freq, rate);
        cap.on_buffer(&input, &mut coeff_h, &mut fft_h, &mut output);
    }
    // discard the warm-up spectra, then take one fully warmed frame
    render.tick(&mut coeff_h, &mut fft_h);
    let input = sine_buffer(4 * FRAMES_PER_BUFFER, FRAMES_PER_BUFFER, freq, rate);
    cap.on_buffer(&input, &mut coeff_h, &mut fft_h, &mut output);
    render.tick(&mut coeff_h, &mut fft_h);
    let frame = render.fft_frame();
    assert_eq!(frame.len(), HALF_FFT_SIZE);
    let mut best = 0usize;
    for k in 0..HALF_FFT_SIZE {
        if frame[k] > frame[best] {
            best = k;
        }
    }
    let expected = (freq * FFT_SIZE as f64 / rate).round() as usize;
    assert_eq!(expected, 3);
    assert_eq!(best, expected);
}

#[test]
fn duplex_echo_copies_the_input() {
    let cfg = Config::default_config();
    let (cos_t, sin_t) = basis_tables(FFT_SIZE);
    let mut cap = CaptureLoop::new(&cfg, cos_t, sin_t);
    let mut coeff_h: RingHandoff<i64> = RingHandoff::new(AUTO_COEFFS);
    let mut fft_h: RingHandoff<i64> = RingHandoff::new(FFT_SIZE);
    let input: Vec<i64> = (0..FRAMES_PER_BUFFER as i64).map(|i| (i * 13) % 700 - 350).collect();
    let mut output = vec![0i64; FRAMES_PER_BUFFER];
    cap.on_buffer(&input, &mut coeff_h, &mut fft_h, &mut output);
    assert_eq!(output, input);
}
