use laser_dac::error::Error;
use laser_dac::protocols::oscilloscope::backend::{
    NextOutput, OscilloscopeBackend, RuntimeState, WriteStep,
};
use laser_dac::protocols::oscilloscope::discovery::{
    describe_device, format_stable_id, pick_config, pick_output, supports_rate,
    OscilloscopeDeviceInfo, OscilloscopeDiscoverer, OutputRange,
};
use laser_dac::protocols::oscilloscope::{buffer_capacity, capabilities};
use laser_dac::resample::Taps;

const MUTE_RAMP_MS: f32 = 3.0;

fn bits(l: f32, r: f32) -> (u32, u32) {
    (l.to_bits(), r.to_bits())
}

/// Play the next sample, with the mute ramp evaluated.
fn next_output(runtime: &mut RuntimeState) -> (f32, f32) {
    match runtime.next_output() {
        NextOutput::Sample((l, r)) => (f32::from_bits(l), f32::from_bits(r)),
        NextOutput::RampFrom((l, r)) => {
            let k = (1000.0 / (MUTE_RAMP_MS * runtime.sample_rate as f32)).clamp(0.0, 1.0);
            let (l, r) = (f32::from_bits(l), f32::from_bits(r));
            let (l, r) = (l + (0.0 - l) * k, r + (0.0 - r) * k);
            runtime.set_last_output(bits(l, r));
            (l, r)
        }
    }
}

fn fill_f32_output(data: &mut [f32], runtime: &mut RuntimeState) {
    for chunk in data.chunks_mut(2) {
        let (l, r) = next_output(runtime);
        chunk[0] = l;
        chunk[1] = r;
    }
}

#[test]
fn estimator_reports_pps_points_not_raw_samples() {
    // 600 device samples at 96kHz is ~187 pps-points at 30kpps.
    let mut runtime = RuntimeState::new(4096, 96_000);
    for _ in 0..600 {
        runtime.push(bits(0.0, 0.0));
    }
    assert_eq!(runtime.estimated_fullness(30_000), 187);
}

#[test]
fn underrun_holds_last_position_not_center() {
    let mut runtime = RuntimeState::new(16, 48_000);
    runtime.muted = false;
    // Drain a real sample so `last_output` is set, then underrun.
    runtime.push(bits(0.7, -0.3));
    assert_eq!(next_output(&mut runtime), (0.7, -0.3));
    // Queue now empty: the beam holds its last position (no centre spike).
    assert_eq!(next_output(&mut runtime), (0.7, -0.3));
    assert_eq!(next_output(&mut runtime), (0.7, -0.3));
}

#[test]
fn fill_f32_output_holds_last_on_underrun() {
    let mut runtime = RuntimeState::new(16, 48_000);
    runtime.muted = false;
    runtime.push(bits(0.4, 0.6));

    let mut data = vec![0.0f32; 6]; // 3 stereo frames, only 1 queued
    fill_f32_output(&mut data, &mut runtime);
    assert!((data[0] - 0.4).abs() < 1e-6 && (data[1] - 0.6).abs() < 1e-6);
    // Underrun frames hold the last position rather than snapping to 0.
    assert!((data[2] - 0.4).abs() < 1e-6 && (data[3] - 0.6).abs() < 1e-6);
    assert!((data[4] - 0.4).abs() < 1e-6 && (data[5] - 0.6).abs() < 1e-6);
}

#[test]
fn mute_ramps_toward_center_monotonically() {
    let mut runtime = RuntimeState::new(16, 48_000);
    runtime.muted = false;
    runtime.push(bits(1.0, -1.0));
    assert_eq!(next_output(&mut runtime), (1.0, -1.0));

    // Now mute: output should glide toward centre, not step to it.
    runtime.muted = true;
    let (l1, r1) = next_output(&mut runtime);
    assert!(l1 < 1.0 && l1 > 0.0, "left steps down but not to centre: {l1}");
    assert!(r1 > -1.0 && r1 < 0.0, "right steps up but not to centre: {r1}");

    let (l2, r2) = next_output(&mut runtime);
    assert!(l2 < l1 && l2 > 0.0);
    assert!(r2 > r1 && r2 < 0.0);

    // After enough samples it settles near centre.
    for _ in 0..4000 {
        let _ = next_output(&mut runtime);
    }
    let (l_end, r_end) = next_output(&mut runtime);
    assert!(l_end.abs() < 0.01 && r_end.abs() < 0.01);
}

#[test]
fn muted_still_drains_queue() {
    // Muting must keep consuming the queue so the producer never stalls.
    let mut runtime = RuntimeState::new(16, 48_000);
    runtime.muted = true;
    for _ in 0..8 {
        runtime.push(bits(0.5, 0.5));
    }
    assert_eq!(runtime.queued_points(), 8);
    let mut data = vec![0.0f32; 16]; // 8 stereo frames
    fill_f32_output(&mut data, &mut runtime);
    assert_eq!(runtime.queued_points(), 0);
}

#[test]
fn queue_is_first_in_first_out_and_bounded() {
    let mut runtime = RuntimeState::new(3, 48_000);
    runtime.muted = false;
    for i in 1..=3u32 {
        assert!(runtime.push((i, 10 * i)));
    }
    assert!(!runtime.push((9, 9)));
    assert_eq!(runtime.remaining_capacity(), 0);
    assert!(runtime.has_capacity_for(0) && !runtime.has_capacity_for(1));
    assert_eq!(runtime.next_output(), NextOutput::Sample((1, 10)));
    assert_eq!(runtime.next_output(), NextOutput::Sample((2, 20)));
    assert_eq!(runtime.remaining_capacity(), 2);
    assert_eq!(runtime.last_output(), (2, 20));
    runtime.clear_queue();
    assert_eq!(runtime.queued_points(), 0);
    assert_eq!(runtime.next_output(), NextOutput::Sample((2, 20)));
}

fn live_backend() -> OscilloscopeBackend {
    let mut backend = OscilloscopeBackend::new("scope".to_string(), 48_000);
    backend.connect();
    backend.runtime.as_mut().unwrap().connected = true;
    backend
}

#[test]
fn writes_need_a_live_stream() {
    let mut backend = OscilloscopeBackend::new("scope".to_string(), 48_000);
    let err = backend.begin_write(30_000, &[(1, 1)]).unwrap_err();
    assert!(matches!(err, Error::Disconnected(m) if m == "Not connected"));
    backend.connect();
    assert!(!backend.is_connected());
    assert!(backend.begin_write(30_000, &[(1, 1)]).unwrap_err().is_disconnected());
    backend.runtime.as_mut().unwrap().connected = true;
    assert!(backend.is_connected());
    assert!(matches!(backend.begin_write(30_000, &[]).unwrap(), WriteStep::Written));
}

#[test]
fn writes_are_resampled_into_the_queue() {
    let mut backend = live_backend();
    let points: Vec<(u32, u32)> = (0..100).map(|i| (i, i)).collect();
    let taps: Vec<Taps<(u32, u32)>> = match backend.begin_write(24_000, &points).unwrap() {
        WriteStep::Resampled(taps) => taps,
        other => panic!("{other:?}"),
    };
    // Twice as many samples, and the last one on the last point.
    assert_eq!(taps.len(), 199);
    assert_eq!((taps[0].s1, taps[0].phase), ((0, 0), 0));
    assert_eq!((taps[1].s1, taps[1].s2, taps[1].phase), ((0, 0), (1, 1), 24_000));
    let samples: Vec<(u32, u32)> = taps.iter().map(|t| t.s1).collect();
    backend.finish_write(&samples);
    assert_eq!(backend.runtime.as_ref().unwrap().queued_points(), 199);
}

#[test]
fn writes_without_room_block_and_change_nothing() {
    let mut backend = live_backend();
    let points = vec![(0u32, 0u32); 4800];
    let WriteStep::Resampled(taps) = backend.begin_write(48_000, &points).unwrap() else {
        panic!("room for a full buffer");
    };
    let samples: Vec<(u32, u32)> = taps.iter().map(|t| t.s1).collect();
    backend.finish_write(&samples);
    let before = backend.resampler.n_in;
    assert!(matches!(backend.begin_write(48_000, &[(0, 0)]).unwrap(), WriteStep::WouldBlock));
    assert_eq!(backend.resampler.n_in, before);
}

#[test]
fn stop_mutes_and_drops_the_phase() {
    let mut backend = live_backend();
    backend.set_shutter(true);
    assert!(!backend.runtime.as_ref().unwrap().muted);
    backend.begin_write(48_000, &[(0, 0); 10]).unwrap();
    assert_eq!(backend.resampler.n_in, 10);
    backend.stop();
    assert!(backend.runtime.as_ref().unwrap().muted);
    assert_eq!(backend.resampler.n_in, 0);
    backend.disconnect();
    assert!(backend.runtime.is_none());
}

#[test]
fn format_stable_id_slugs_device_name() {
    assert_eq!(format_stable_id("Built-in Output"), "oscilloscope:built-in-output");
    assert_eq!(format_stable_id("MOTU UltraLite"), "oscilloscope:motu-ultralite");
}

#[test]
fn audio_devices_need_two_channels() {
    let name = || "MOTU UltraLite".to_string();
    assert!(OscilloscopeDeviceInfo::from_output(name(), 1, 48_000).is_none());
    let info = OscilloscopeDeviceInfo::from_output(name(), 2, 96_000).unwrap();
    let (device, caps) = describe_device(&info);
    assert_eq!(device.stable_id(), "oscilloscope:motu-ultralite");
    assert_eq!(device.hardware_name, Some(name()));
    assert_eq!(caps, capabilities(96_000));
    assert_eq!(caps.max_points_per_chunk, 9600);
    assert_eq!(buffer_capacity(8_000), 4096);
    assert!(supports_rate(2, 44_100, 96_000, 48_000));
    assert!(!supports_rate(1, 44_100, 96_000, 48_000));
    assert!(!supports_rate(2, 44_100, 47_999, 48_000));
    assert_eq!(OscilloscopeDiscoverer::new().prefix(), "oscilloscope");
}

#[test]
fn the_first_output_that_fits_is_picked() {
    let names: Vec<Option<String>> =
        vec![None, Some("hdmi".to_string()), Some("dac".to_string()), Some("dac".to_string())];
    assert_eq!(pick_output(&names, &"dac".to_string()).unwrap(), 2);
    assert!(matches!(
        pick_output(&names, &"usb".to_string()),
        Err(Error::Disconnected(m)) if m == "Audio device 'usb' not found"
    ));
    let range = |channels, min_rate, max_rate| OutputRange { channels, min_rate, max_rate };
    let configs = vec![range(1, 8_000, 96_000), range(2, 44_100, 44_100), range(2, 48_000, 96_000)];
    assert_eq!(pick_config(&configs, 48_000).unwrap(), 2);
    assert!(matches!(
        pick_config(&configs, 8_000),
        Err(Error::InvalidConfig(m))
            if m == "Audio device doesn't support stereo output at 8000 Hz"
    ));
}

#[test]
fn a_device_without_a_rate_takes_no_points() {
    let mut backend = OscilloscopeBackend::new("dac".to_string(), 0);
    assert_eq!(backend.caps().max_points_per_chunk, 4096);
    assert!(backend.begin_write(30_000, &[bits(0.0, 0.0)]).is_err());
}
