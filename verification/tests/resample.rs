use laser_dac::resample::{resampled_len, StreamingResampler, Taps};

/// The spline through four samples, evaluated at a share of the way between the middle
/// two.
fn catmull_rom(s0: f32, s1: f32, s2: f32, s3: f32, t: f32) -> f32 {
    let c1 = 0.5 * (s2 - s0);
    let c2 = s0 - 2.5 * s1 + 2.0 * s2 - 0.5 * s3;
    let c3 = 0.5 * (s3 - s0) + 1.5 * (s1 - s2);
    ((c3 * t + c2) * t + c1) * t + s1
}

fn evaluate(taps: &Taps<f32>) -> f32 {
    let t = taps.phase as f32 / taps.to_rate as f32;
    catmull_rom(taps.s0, taps.s1, taps.s2, taps.s3, t)
}

#[test]
fn resampled_len_upsample() {
    assert_eq!(resampled_len(3, 30_000, 48_000), 5);
}

#[test]
fn resampled_len_downsample() {
    assert_eq!(resampled_len(5, 60_000, 48_000), 4);
}

#[test]
fn resampled_len_passthrough() {
    assert_eq!(resampled_len(10, 48_000, 48_000), 10);
    assert_eq!(resampled_len(1, 48_000, 48_000), 1);
    assert_eq!(resampled_len(0, 48_000, 48_000), 0);
}

#[test]
fn catmull_rom_passes_through_knots() {
    // At t=0, result should equal s1; at t=1, result should equal s2.
    let (s0, s1, s2, s3) = (0.0, 1.0, 2.0, 3.0);
    assert!((catmull_rom(s0, s1, s2, s3, 0.0) - s1).abs() < 1e-6);
    assert!((catmull_rom(s0, s1, s2, s3, 1.0) - s2).abs() < 1e-6);
}

#[test]
fn catmull_rom_midpoint_on_linear_data() {
    // For evenly spaced linear data, midpoint should be exact.
    assert!((catmull_rom(0.0, 1.0, 2.0, 3.0, 0.5) - 1.5).abs() < 1e-6);
}

#[test]
fn catmull_rom_with_clamped_boundaries() {
    // Simulates boundary clamping where s0 == s1 and s3 == s2.
    let s1 = -1.0;
    let s2 = 1.0;
    let result = catmull_rom(s1, s1, s2, s2, 0.5);
    // Should still be between s1 and s2.
    assert!(result > s1 && result < s2);
}

/// Resample a whole signal in one call.
fn resample_all(from: u32, to: u32, input: &[f32]) -> Vec<f32> {
    let mut r = StreamingResampler::new(from, to);
    r.process(input).iter().map(evaluate).collect()
}

/// Resample a signal split into fixed-size chunks.
fn resample_chunked(from: u32, to: u32, input: &[f32], chunk: usize) -> Vec<f32> {
    let mut r = StreamingResampler::new(from, to);
    let mut out = Vec::new();
    for c in input.chunks(chunk) {
        // Reserve-then-emit mirrors the backend usage.
        let expected = r.pending_output_count(c.len());
        let before = out.len();
        out.extend(r.process(c).iter().map(evaluate));
        assert_eq!(out.len() - before, expected, "pending_output_count matches process");
    }
    out
}

#[test]
fn streaming_passthrough_is_exact() {
    let input: Vec<f32> = (0..64).map(|i| i as f32).collect();
    let out = resample_all(48_000, 48_000, &input);
    assert_eq!(out.len(), input.len());
    for (a, b) in out.iter().zip(input.iter()) {
        assert!((a - b).abs() < 1e-6);
    }
}

#[test]
fn chunked_matches_single_call_on_smooth_signal() {
    // A smooth signal keeps adjacent-sample deltas small, so the trailing
    // s3-clamp at each chunk boundary produces only a sub-sample difference.
    let input: Vec<f32> = (0..500).map(|i| (i as f32 * 0.05).sin() * 0.9).collect();
    let one = resample_all(30_000, 96_000, &input);
    for chunk in [1usize, 3, 7, 32, 128] {
        let many = resample_chunked(30_000, 96_000, &input, chunk);
        assert_eq!(one.len(), many.len(), "chunk={chunk} output length");
        let max_diff =
            one.iter().zip(many.iter()).map(|(a, b)| (a - b).abs()).fold(0.0_f32, f32::max);
        assert!(max_diff < 0.01, "chunk={chunk} max_diff={max_diff} exceeds tolerance");
    }
}

#[test]
fn total_output_count_matches_rate_ratio() {
    // Over a long stream, the cumulative output count tracks the exact
    // rate ratio to within one sample.
    let len = 100_000usize;
    let input: Vec<f32> = (0..len).map(|i| (i as f32 * 0.001).sin()).collect();

    for (from, to) in [(30_000u32, 96_000u32), (96_000, 48_000), (30_000, 30_000)] {
        let many = resample_chunked(from, to, &input, 137);
        let ideal = (len as u64 - 1) * to as u64 / from as u64 + 1;
        let diff = (many.len() as i64 - ideal as i64).abs();
        assert!(
            diff <= 1,
            "from={from} to={to}: got {} expected ~{ideal} (diff {diff})",
            many.len()
        );
    }
}

#[test]
fn reset_rephases_stream() {
    let input: Vec<f32> = (0..32).map(|i| i as f32).collect();
    let mut r = StreamingResampler::new(30_000, 96_000);
    let first: Vec<f32> = r.process(&input).iter().map(evaluate).collect();

    r.reset();
    let second: Vec<f32> = r.process(&input).iter().map(evaluate).collect();

    assert_eq!(first, second);
}

#[test]
fn set_rates_resets_only_on_change() {
    let mut r = StreamingResampler::new(30_000, 96_000);
    r.process(&[0.0, 1.0, 2.0, 3.0]);
    let n_in_before = r.n_in;
    r.set_rates(30_000, 96_000); // no change -> no reset
    assert_eq!(r.n_in, n_in_before);
    r.set_rates(48_000, 96_000); // change -> reset
    assert_eq!(r.n_in, 0);
}

#[test]
fn stereo_pair_resamples_both_channels() {
    let input: Vec<(f32, f32)> = (0..16).map(|i| (i as f32, -(i as f32))).collect();
    let mut r = StreamingResampler::new(48_000, 96_000);
    let out: Vec<(f32, f32)> = r
        .process(&input)
        .iter()
        .map(|taps| {
            let t = taps.phase as f32 / taps.to_rate as f32;
            (
                catmull_rom(taps.s0.0, taps.s1.0, taps.s2.0, taps.s3.0, t),
                catmull_rom(taps.s0.1, taps.s1.1, taps.s2.1, taps.s3.1, t),
            )
        })
        .collect();
    assert!(out.len() > input.len());
    // First output is the first input exactly (t=0).
    assert!((out[0].0 - 0.0).abs() < 1e-6);
    assert!((out[0].1 - 0.0).abs() < 1e-6);
    // Right channel is the negation of the left throughout (linear ramp).
    for (l, rr) in &out {
        assert!((l + rr).abs() < 1e-4);
    }
}

#[test]
fn taps_carry_over_chunk_boundaries() {
    let mut r = StreamingResampler::new(2, 3);
    let first = r.process(&[10u32, 20, 30]);
    assert_eq!(first.len(), 4);
    assert_eq!((first[3].s0, first[3].s1, first[3].s2), (20, 30, 30));
    assert_eq!(first[3].phase, 0);
    let second = r.process(&[40, 50]);
    assert_eq!(second.len(), 3);
    // Output 4 lies two thirds of the way from the third to the fourth sample.
    assert_eq!((second[0].s0, second[0].s1, second[0].s2, second[0].s3), (20, 30, 40, 50));
    assert_eq!((second[0].phase, second[0].to_rate), (2, 3));
}

#[test]
fn only_samples_that_are_still_needed_are_kept() {
    let mut same: StreamingResampler<u32> = StreamingResampler::new(1, 1);
    same.process(&[10, 11, 12, 13, 14]);
    assert_eq!((same.buf_start, same.buf.len()), (4, 1));
    let mut double: StreamingResampler<u32> = StreamingResampler::new(1, 2);
    double.process(&[10, 11, 12]);
    assert_eq!(double.n_out, 5);
    assert_eq!((double.buf_start, double.buf.len()), (1, 2));
}
