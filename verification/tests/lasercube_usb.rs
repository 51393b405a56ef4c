use std::collections::VecDeque;

use laser_dac::backend::WriteOutcome;
use laser_dac::device::DacType;
use laser_dac::discovery::DiscoveredDeviceInfo;
use laser_dac::error::Error as DacError;
use laser_dac::protocols::lasercube_usb::backend::{
    classify_stream_error, map_open_error, not_connected, LaserCubeUsbBackend, StreamErrorClass,
};
use laser_dac::protocols::lasercube_usb::dac::stream::{
    check_response, check_transfer, response_u32, response_u8, runner_mode_packets, Stream,
    DEFAULT_FLIP_X, DEFAULT_FLIP_Y, INFO_QUERIES,
};
use laser_dac::protocols::lasercube_usb::dac::{DeviceInfo, DeviceStatus, FirmwareVersion};
use laser_dac::protocols::lasercube_usb::discovery::describe_device;
use laser_dac::protocols::lasercube_usb::error::{Error, UsbErrorKind, UsbFailure};
use laser_dac::protocols::lasercube_usb::protocol::{
    Sample, CMD_SET_DAC_RATE, CONTROL_PACKET_SIZE, ENDPOINT_CONTROL_OUT, ENDPOINT_DATA_OUT,
    MAX_COORDINATE_VALUE,
};
use laser_dac::protocols::lasercube_usb::{default_capabilities, is_laserdock};

/// A device that records every write and scripts control reads.
struct FakeUsb {
    writes: Vec<(u8, Vec<u8>)>,
    control_reads: VecDeque<[u8; CONTROL_PACKET_SIZE]>,
    /// If set, the next data write reports this many bytes.
    short_data_write: Option<usize>,
}

impl FakeUsb {
    fn new() -> Self {
        FakeUsb { writes: Vec::new(), control_reads: VecDeque::new(), short_data_write: None }
    }

    fn write_bulk(&mut self, endpoint: u8, buf: &[u8]) -> usize {
        self.writes.push((endpoint, buf.to_vec()));
        if endpoint == ENDPOINT_DATA_OUT {
            if let Some(n) = self.short_data_write.take() {
                return n;
            }
        }
        buf.len()
    }

    fn control(&mut self, packet: &[u8]) -> Result<[u8; CONTROL_PACKET_SIZE], Error> {
        let n = self.write_bulk(ENDPOINT_CONTROL_OUT, packet);
        check_transfer(n, packet.len())?;
        Ok(self.control_reads.pop_front().unwrap_or([0u8; CONTROL_PACKET_SIZE]))
    }

    fn writes_to(&self, endpoint: u8) -> Vec<Vec<u8>> {
        self.writes.iter().filter(|(ep, _)| *ep == endpoint).map(|(_, b)| b.clone()).collect()
    }

    fn send_samples(&mut self, stream: &Stream, samples: &[Sample]) -> Result<(), Error> {
        for transfer in stream.send_samples(samples)? {
            let n = self.write_bulk(ENDPOINT_DATA_OUT, &transfer);
            check_transfer(n, transfer.len())?;
        }
        Ok(())
    }

    fn write_frame(&mut self, stream: &mut Stream, samples: &[Sample], rate: u32) -> Result<u32, Error> {
        let (rate, packet) = stream.write_frame(rate);
        if let Some(packet) = packet {
            let response = self.control(&packet)?;
            check_response(&response, CONTROL_PACKET_SIZE)?;
            stream.rate_taken(rate);
        }
        self.send_samples(stream, samples)?;
        Ok(rate)
    }
}

fn info_with(bulk_packet_sample_count: u32, max_dac_rate: u32, current_rate: u32) -> DeviceInfo {
    DeviceInfo { bulk_packet_sample_count, max_dac_rate, current_rate, ..DeviceInfo::default() }
}

fn init_stream(info: DeviceInfo) -> (Stream, FakeUsb) {
    let stream = Stream {
        info,
        told_major: 0,
        status: DeviceStatus::Initialized,
        flip_x: DEFAULT_FLIP_X,
        flip_y: DEFAULT_FLIP_Y,
    };
    (stream, FakeUsb::new())
}

fn sample_at(x: u16, y: u16) -> Sample {
    Sample::new(x, y, 10, 20, 30)
}

fn usb(kind: UsbErrorKind) -> Error {
    Error::Usb(UsbFailure { kind, message: format!("{kind:?}") })
}

#[test]
fn send_samples_chunks_by_bulk_packet_sample_count() {
    // 64 samples/packet => 512-byte chunks. 512 samples => exactly 8 chunks.
    let (stream, mut fake) = init_stream(info_with(64, 0, 0));
    let samples: Vec<Sample> = (0..512).map(|i| sample_at(i % 4095, 0)).collect();
    fake.send_samples(&stream, &samples).unwrap();

    let data = fake.writes_to(ENDPOINT_DATA_OUT);
    assert_eq!(data.len(), 8, "expected 8 chunks");
    assert!(data.iter().all(|c| c.len() == 512), "each chunk 512 bytes");
}

#[test]
fn send_samples_chunks_with_remainder() {
    // 100 samples * 8 bytes = 800 bytes => 512 + 288.
    let (stream, mut fake) = init_stream(info_with(64, 0, 0));
    let samples: Vec<Sample> = (0..100).map(|_| sample_at(0, 0)).collect();
    fake.send_samples(&stream, &samples).unwrap();

    let sizes: Vec<usize> = fake.writes_to(ENDPOINT_DATA_OUT).iter().map(Vec::len).collect();
    assert_eq!(sizes, vec![512, 288]);
}

#[test]
fn send_samples_zero_packet_count_sends_single_transfer() {
    // Fallback: a device reporting bulk_packet_sample_count == 0 gets one
    // transfer of the whole buffer rather than a divide-by-zero chunk size.
    let (stream, mut fake) = init_stream(info_with(0, 0, 0));
    let samples: Vec<Sample> = (0..10).map(|_| sample_at(0, 0)).collect();
    fake.send_samples(&stream, &samples).unwrap();

    let data = fake.writes_to(ENDPOINT_DATA_OUT);
    assert_eq!(data.len(), 1);
    assert_eq!(data[0].len(), 80);
}

#[test]
fn send_samples_applies_flip_x_not_flip_y() {
    // `init_stream` builds with DEFAULT_FLIP_X/DEFAULT_FLIP_Y, so this also
    // pins the defaults: a silent flip regression fails.
    let (stream, mut fake) = init_stream(info_with(64, 0, 0));
    fake.send_samples(&stream, &[sample_at(1000, 3000)]).unwrap();

    let data = fake.writes_to(ENDPOINT_DATA_OUT);
    let bytes = &data[0];
    let x = u16::from_le_bytes([bytes[4], bytes[5]]);
    let y = u16::from_le_bytes([bytes[6], bytes[7]]);
    assert_eq!(x, MAX_COORDINATE_VALUE - 1000, "x flipped");
    assert_eq!(y, 3000, "y not flipped");
}

#[test]
fn send_samples_requires_initialized_status() {
    let (mut stream, mut fake) = init_stream(info_with(64, 0, 0));
    stream.status = DeviceStatus::Unknown;
    assert!(matches!(
        fake.send_samples(&stream, &[sample_at(0, 0)]),
        Err(Error::DeviceNotOpened)
    ));
}

#[test]
fn send_samples_short_write_is_io_error() {
    let (stream, mut fake) = init_stream(info_with(64, 0, 0));
    fake.short_data_write = Some(4);
    assert!(matches!(
        fake.send_samples(&stream, &[sample_at(0, 0)]),
        Err(Error::Usb(UsbFailure { kind: UsbErrorKind::Io, .. }))
    ));
}

#[test]
fn write_frame_clamps_rate_and_reports_effective_rate() {
    // The regression guard for the estimator/clamp divergence: a request
    // above the device max is clamped on the wire AND the clamped value is
    // returned so the caller drives its buffer model at the real rate.
    let (mut stream, mut fake) = init_stream(info_with(64, 30_000, 0));
    let effective = fake.write_frame(&mut stream, &[], 40_000).unwrap();
    assert_eq!(effective, 30_000, "returned rate is clamped");

    let ctrl = fake.writes_to(ENDPOINT_CONTROL_OUT);
    let set_rate = ctrl
        .iter()
        .find(|p| p.first() == Some(&CMD_SET_DAC_RATE))
        .expect("SET_DAC_RATE issued");
    let programmed = u32::from_le_bytes([set_rate[1], set_rate[2], set_rate[3], set_rate[4]]);
    assert_eq!(programmed, 30_000, "device programmed to clamped rate");
    assert_eq!(stream.rate(), 30_000);
}

#[test]
fn write_frame_does_not_clamp_when_max_rate_unknown() {
    let (mut stream, mut fake) = init_stream(info_with(64, 0, 0));
    assert_eq!(fake.write_frame(&mut stream, &[], 40_000).unwrap(), 40_000);
}

#[test]
fn write_frame_skips_set_rate_when_unchanged() {
    let (mut stream, mut fake) = init_stream(info_with(64, 30_000, 30_000));
    fake.write_frame(&mut stream, &[], 30_000).unwrap();
    assert!(
        fake.writes_to(ENDPOINT_CONTROL_OUT)
            .iter()
            .all(|p| p.first() != Some(&CMD_SET_DAC_RATE)),
        "no SET_DAC_RATE when already at target"
    );
}

#[test]
fn samples_are_written_in_eight_bytes() {
    let mut out = Vec::new();
    Sample::new(0x0123, 0x0456, 7, 8, 9).write_to(&mut out);
    assert_eq!(out, vec![7, 8, 9, 0, 0x23, 0x01, 0x56, 0x04]);
    let mut flipped = Sample::new(95, 4095, 0, 0, 0);
    flipped.flip_x();
    flipped.flip_y();
    assert_eq!((flipped.x, flipped.y), (4000, 0));
}

#[test]
fn device_information_is_read_value_by_value() {
    let mut stream = Stream::open();
    assert_eq!(stream.status(), DeviceStatus::Unknown);
    let mut fake = FakeUsb::new();
    for step in 0..INFO_QUERIES {
        let mut response = [0u8; CONTROL_PACKET_SIZE];
        let value = if step == INFO_QUERIES - 1 { 1 } else { 300 + step as u32 };
        response[2..6].copy_from_slice(&value.to_le_bytes());
        fake.control_reads.push_back(response);
        let answer = fake.control(&[Stream::info_command(step)]).unwrap();
        let value = if step == INFO_QUERIES - 1 {
            response_u8(&answer, CONTROL_PACKET_SIZE).unwrap() as u32
        } else {
            response_u32(&answer, CONTROL_PACKET_SIZE).unwrap()
        };
        stream.refresh_device_info(step, value);
        if step == 0 {
            // The version is not known before both its parts are.
            assert_eq!(stream.info().firmware_version, FirmwareVersion { major: 0, minor: 0 });
        }
    }
    stream.initialized();
    let info = *stream.info();
    assert_eq!(info.firmware_version, FirmwareVersion { major: 300, minor: 301 });
    assert_eq!(info.max_dac_rate, 302);
    assert_eq!(info.bulk_packet_sample_count, 306);
    assert_eq!(info.ringbuffer_capacity, 308);
    assert_eq!(info.ringbuffer_free_space, 309);
    assert!(stream.output_enabled());
    assert_eq!(
        info.to_text(),
        "LaserCube USB (firmware: 300.301, max rate: 302 Hz, buffer: 309/308)"
    );
    stream.ringbuffer_cleared();
    assert_eq!(stream.info().ringbuffer_free_space, 308);
    assert_eq!(stream.ringbuffer_free_space(5), 5);
    stream.output_switched(false);
    assert!(!stream.output_enabled());
}

#[test]
fn control_packets_and_responses() {
    let stream = Stream::open();
    assert_eq!(stream.enable_output(), [0x80, 1]);
    assert_eq!(stream.disable_output(), [0x80, 0]);
    assert_eq!(stream.clear_ringbuffer(), [0x8D, 0]);
    assert_eq!(stream.set_rate(30_000), [0x82, 0x30, 0x75, 0, 0]);
    assert_eq!(runner_mode_packets()[2], [0xC0, 2, 1]);
    let mut response = [0u8; CONTROL_PACKET_SIZE];
    assert!(matches!(response_u8(&response, 63), Err(Error::InvalidResponse)));
    response[1] = 1;
    assert!(matches!(check_response(&response, 64), Err(Error::InvalidResponse)));
    assert!(matches!(response_u32(&response, 64), Err(Error::InvalidResponse)));
}

#[test]
fn classify_stream_error_covers_every_variant() {
    let cases = [
        (usb(UsbErrorKind::NoDevice), StreamErrorClass::Fatal),
        (usb(UsbErrorKind::Io), StreamErrorClass::Fatal),
        (usb(UsbErrorKind::Pipe), StreamErrorClass::Fatal),
        (Error::DeviceNotOpened, StreamErrorClass::Fatal),
        (usb(UsbErrorKind::Timeout), StreamErrorClass::Transient),
        (usb(UsbErrorKind::Busy), StreamErrorClass::Transient),
        (usb(UsbErrorKind::Access), StreamErrorClass::Transient),
        (usb(UsbErrorKind::Other), StreamErrorClass::Transient),
        (Error::InvalidResponse, StreamErrorClass::Transient),
    ];
    for (err, expected) in cases {
        assert_eq!(classify_stream_error(&err), expected, "classification of {err:?}");
    }
}

#[test]
fn map_open_error_access_is_permission_denied() {
    // A denied open (no udev rule on Linux) surfaces as PermissionDenied so
    // the consumer can guide the user, not a generic backend error.
    let err = map_open_error(usb(UsbErrorKind::Access));
    assert!(err.is_permission_denied());
    assert!(!matches!(err, DacError::Backend(_)));
}

#[test]
fn map_open_error_other_stays_backend() {
    let err = map_open_error(usb(UsbErrorKind::Timeout));
    assert!(!err.is_permission_denied());
    assert!(matches!(err, DacError::Backend(_)));
}

#[test]
fn lasercube_usb_stable_id_uses_serial_when_present() {
    let info = DiscoveredDeviceInfo::new(
        DacType::LaserCubeUsb,
        "lasercube-usb:2:3".to_string(),
        "2:3".to_string(),
    )
    .with_usb_address("2:3".to_string());
    assert_eq!(info.stable_id(), "lasercube-usb:2:3");
    assert_eq!(describe_device(2, 3, None).stable_id(), "lasercube-usb:2:3");
    let named = describe_device(2, 3, Some("SN7".to_string()));
    assert_eq!(named.stable_id(), "lasercube-usb:SN7");
    assert_eq!(named.usb_address, Some("2:3".to_string()));
    assert_eq!(named.hardware_name, Some("SN7".to_string()));
}

#[test]
fn fatal_errors_cost_the_stream() {
    let (stream, _) = init_stream(info_with(64, 40_000, 0));
    let mut backend = LaserCubeUsbBackend::new();
    assert!(!backend.is_connected());
    backend.connect(stream);
    assert_eq!(backend.caps().pps_max, 40_000);
    // A second stream does not replace the first.
    let (other, _) = init_stream(info_with(64, 20_000, 0));
    backend.connect(other);
    assert_eq!(backend.caps().pps_max, 40_000);
    assert_eq!(backend.stream.as_ref().unwrap().info.max_dac_rate, 40_000);
    let err = backend.write_finished(0, 10, Err(Error::Timeout)).unwrap_err();
    assert!(matches!(err, DacError::Backend(m) if m == "operation timed out"));
    assert!(backend.is_connected());
    let err = backend.write_finished(0, 10, Err(usb(UsbErrorKind::NoDevice))).unwrap_err();
    assert!(matches!(err, DacError::Disconnected(m) if m == "USB device error: USB error: NoDevice"));
    assert!(!backend.is_connected());
    assert!(not_connected().is_disconnected());
}

#[test]
fn estimate_follows_the_effective_rate() {
    let mut backend = LaserCubeUsbBackend::from_stream(Stream::open());
    let outcome = backend.write_finished(0, 3000, Ok(30_000)).unwrap();
    assert_eq!(outcome, WriteOutcome::Written);
    assert_eq!(backend.estimator.estimated_fullness(50_000_000), 1500);
    backend.buffer_reset(60_000_000);
    assert_eq!(backend.estimator.estimated_fullness(60_000_000), 0);
    assert_eq!(default_capabilities().pps_max, 35_000);
    assert!(is_laserdock(0x1FC9, 0x04D8) && !is_laserdock(0x1FC9, 0));
}

#[test]
fn usb_errors_say_what_is_wrong() {
    assert_eq!(usb(UsbErrorKind::Busy).message(), "USB error: Busy");
    assert_eq!(Error::DeviceNotOpened.message(), "device is not opened");
    assert_eq!(Error::InvalidResponse.message(), "invalid device response");
    assert_eq!(Error::InitializationFailed.message(), "device initialization failed");
    assert_eq!(Error::Timeout.message(), "operation timed out");
    assert_eq!(FirmwareVersion { major: 1, minor: 20 }.to_text(), "1.20");
}
