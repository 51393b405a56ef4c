//! Oscilloscope device discovery.

use vstd::prelude::*;
use vstd::string::*;

use crate::device::{DacCapabilities, DacType};
use crate::discovery::{self, slugify_device_id, DiscoveredDeviceInfo};
use crate::error::Error;
use crate::protocols::oscilloscope::{self, capabilities};
use crate::text::{self, push_decimal, push_text};

verus! {

/// Information about a discovered oscilloscope-capable audio device.
#[derive(Debug)]
pub struct OscilloscopeDeviceInfo {
    pub name: String,
    pub sample_rate: u32,
}

impl OscilloscopeDeviceInfo {
    /// An audio device that can show XY: it has a channel for each coordinate.
    pub fn from_output(name: String, channels: u16, sample_rate: u32) -> (r: Option<
        OscilloscopeDeviceInfo,
    >)
        ensures
            r == if channels >= 2 {
                Some(OscilloscopeDeviceInfo { name, sample_rate })
            } else {
                None
            },
    {
        if channels < 2 {
            None
        } else {
            Some(OscilloscopeDeviceInfo { name, sample_rate })
        }
    }
}

pub struct OscilloscopeDiscoverer;

impl OscilloscopeDiscoverer {
    pub fn new() -> (r: OscilloscopeDiscoverer)
        ensures
            r == OscilloscopeDiscoverer,
    {
        OscilloscopeDiscoverer
    }

    pub fn dac_type(&self) -> (r: DacType)
        ensures
            r is Oscilloscope,
    {
        DacType::Oscilloscope
    }

    /// The prefix of the stable ids.
    pub fn prefix(&self) -> (r: &'static str)
        ensures
            r@ == "oscilloscope"@,
    {
        "oscilloscope"
    }
}

impl Default for OscilloscopeDiscoverer {
    fn default() -> (r: OscilloscopeDiscoverer)
        ensures
            r == OscilloscopeDiscoverer,
    {
        OscilloscopeDiscoverer
    }
}

/// The stable id of an audio device.
pub fn format_stable_id(name: &str) -> (r: String)
    ensures
        r@ == "oscilloscope:"@ + discovery::slug(name@),
{
    let mut out = "oscilloscope:".to_owned();
    let slug = slugify_device_id(name);
    push_text(&mut out, slug.as_str());
    out
}

/// How a device is presented to users, and what it can do.
pub fn describe_device(info: &OscilloscopeDeviceInfo) -> (r: (DiscoveredDeviceInfo, DacCapabilities))
    ensures
        r.0.dac_type is Oscilloscope,
        r.0.stable_id@ == "oscilloscope:"@ + discovery::slug(info.name@),
        r.0.name == info.name,
        r.0.hardware_name == Some(info.name),
        r.0.ip is None,
        r.0.hostname is None,
        r.0.usb_address is None,
        r.1.pps_min == 1,
        r.1.pps_max == 100_000,
        r.1.max_points_per_chunk == oscilloscope::capacity_at(info.sample_rate),
        r.1.output_model is NetworkFifo,
{
    let stable_id = format_stable_id(info.name.as_str());
    let caps = capabilities(info.sample_rate);
    let device_info = DiscoveredDeviceInfo::new(
        DacType::Oscilloscope,
        stable_id,
        info.name.clone(),
    ).with_hardware_name(info.name.clone());
    (device_info, caps)
}

/// Whether an output configuration can play stereo at a rate.
pub fn supports_rate(channels: u16, min_rate: u32, max_rate: u32, sample_rate: u32) -> (r: bool)
    ensures
        r == (channels == 2 && min_rate <= sample_rate <= max_rate),
{
    channels == 2 && min_rate <= sample_rate && max_rate >= sample_rate
}

/// Whether an audio device has this name; some do not tell theirs.
pub open spec fn is_named(device: Option<String>, name: Seq<char>) -> bool {
    device matches Some(n) && n@ == name
}

/// The first audio device with a name, among the names of all.
pub fn pick_output(names: &Vec<Option<String>>, device_name: &String) -> (r: Result<usize, Error>)
    ensures
        match r {
            Ok(i) => {
                &&& i < names@.len()
                &&& is_named(names@[i as int], device_name@)
                &&& forall|j: int| 0 <= j < i ==> !is_named(#[trigger] names@[j], device_name@)
            },
            Err(e) => {
                &&& forall|j: int|
                    0 <= j < names@.len() ==> !is_named(#[trigger] names@[j], device_name@)
                &&& e matches Error::Disconnected(m)
                &&& m@ == "Audio device '"@ + device_name@ + "' not found"@
            },
        },
{
    let mut i: usize = 0;
    while i < names.len()
        invariant
            i <= names@.len(),
            forall|j: int| 0 <= j < i ==> !is_named(#[trigger] names@[j], device_name@),
        decreases names.len() - i,
    {
        if let Some(name) = &names[i] {
            if *name == *device_name {
                return Ok(i);
            }
        }
        i += 1;
    }
    let mut message = "Audio device '".to_owned();
    push_text(&mut message, device_name.as_str());
    push_text(&mut message, "' not found");
    Err(Error::Disconnected(message))
}

/// An output configuration: its channels, and the rates it plays at.
#[derive(Clone, Copy, Debug, PartialEq, Eq, Structural)]
pub struct OutputRange {
    pub channels: u16,
    pub min_rate: u32,
    pub max_rate: u32,
}

impl OutputRange {
    /// Whether it can play stereo at a rate.
    pub open spec fn plays(self, sample_rate: u32) -> bool {
        self.channels == 2 && self.min_rate <= sample_rate <= self.max_rate
    }
}

/// The first configuration that can play stereo at a rate.
pub fn pick_config(configs: &Vec<OutputRange>, sample_rate: u32) -> (r: Result<usize, Error>)
    ensures
        match r {
            Ok(i) => {
                &&& i < configs@.len()
                &&& configs@[i as int].plays(sample_rate)
                &&& forall|j: int| 0 <= j < i ==> !(#[trigger] configs@[j]).plays(sample_rate)
            },
            Err(e) => {
                &&& forall|j: int|
                    0 <= j < configs@.len() ==> !(#[trigger] configs@[j]).plays(sample_rate)
                &&& e matches Error::InvalidConfig(m)
                &&& m@ == "Audio device doesn't support stereo output at "@ + text::decimal(
                    sample_rate as nat,
                ) + " Hz"@
            },
        },
{
    let mut i: usize = 0;
    while i < configs.len()
        invariant
            i <= configs@.len(),
            forall|j: int| 0 <= j < i ==> !(#[trigger] configs@[j]).plays(sample_rate),
        decreases configs.len() - i,
    {
        let c: OutputRange = configs[i];
        if supports_rate(c.channels, c.min_rate, c.max_rate, sample_rate) {
            return Ok(i);
        }
        i += 1;
    }
    let mut message = "Audio device doesn't support stereo output at ".to_owned();
    push_decimal(&mut message, sample_rate as u64);
    push_text(&mut message, " Hz");
    Err(Error::InvalidConfig(message))
}

/// An audio device can show a picture if it has two channels or more, and is known by its
/// name.
pub proof fn stereo_devices_are_found()
    ensures
        forall|name: String, channels: u16, rate: u32, r: Option<OscilloscopeDeviceInfo>| #[trigger]
            call_ensures(OscilloscopeDeviceInfo::from_output, (name, channels, rate), r) ==> {
                &&& r is Some <==> channels >= 2
                &&& r matches Some(d) ==> d.name == name && d.sample_rate == rate
            },
        forall|info: &OscilloscopeDeviceInfo, r: (DiscoveredDeviceInfo, DacCapabilities)| #[trigger]
            call_ensures(describe_device, (info,), r) ==> {
                &&& r.0.dac_type is Oscilloscope
                &&& r.0.stable_id@ == "oscilloscope:"@ + discovery::slug(info.name@)
                &&& r.0.name == info.name && r.0.hardware_name == Some(info.name)
                &&& r.0.ip is None && r.0.hostname is None && r.0.usb_address is None
                &&& r.1.pps_min == 1 && r.1.pps_max == 100_000
                &&& r.1.max_points_per_chunk == oscilloscope::capacity_at(info.sample_rate)
            },
        forall|name: &str, r: String| #[trigger]
            call_ensures(format_stable_id, (name,), r) ==> r@ == "oscilloscope:"@ + discovery::slug(
                name@,
            ),
{
}

/// The audio device and the configuration that are picked are the first that fit; where
/// none fits, none is picked.
pub proof fn first_fitting_output_is_picked()
    ensures
        forall|names: &Vec<Option<String>>, name: &String, r: Result<usize, Error>| #[trigger]
            call_ensures(pick_output, (names, name), r) ==> match r {
                Ok(i) => {
                    &&& i < names@.len()
                    &&& names@[i as int] is Some && names@[i as int]->0@ == name@
                    &&& forall|j: int|
                        0 <= j < i && (#[trigger] names@[j]) is Some ==> names@[j]->0@ != name@
                },
                Err(e) => {
                    &&& e is Disconnected
                    &&& forall|j: int|
                        0 <= j < names@.len() && (#[trigger] names@[j]) is Some ==> names@[j]->0@
                            != name@
                },
            },
        forall|configs: &Vec<OutputRange>, rate: u32, r: Result<usize, Error>| #[trigger]
            call_ensures(pick_config, (configs, rate), r) ==> match r {
                Ok(i) => {
                    &&& i < configs@.len()
                    &&& configs@[i as int].channels == 2
                    &&& configs@[i as int].min_rate <= rate <= configs@[i as int].max_rate
                    &&& forall|j: int|
                        0 <= j < i ==> (#[trigger] configs@[j]).channels != 2
                            || configs@[j].min_rate > rate || configs@[j].max_rate < rate
                },
                Err(e) => {
                    &&& e is InvalidConfig
                    &&& forall|j: int|
                        0 <= j < configs@.len() ==> (#[trigger] configs@[j]).channels != 2
                            || configs@[j].min_rate > rate || configs@[j].max_rate < rate
                },
            },
{
    assert forall|names: &Vec<Option<String>>, name: &String, r: Result<usize, Error>| #[trigger]
        call_ensures(pick_output, (names, name), r) && r is Err implies forall|j: int|
        0 <= j < names@.len() ==> !is_named(#[trigger] names@[j], name@) by {
        lemma_none_named((names, name), names@, name@, r);
    }
    assert forall|configs: &Vec<OutputRange>, rate: u32, r: Result<usize, Error>| #[trigger]
        call_ensures(pick_config, (configs, rate), r) && r is Err implies forall|j: int|
        0 <= j < configs@.len() ==> !(#[trigger] configs@[j]).plays(rate) by {
        lemma_none_plays((configs, rate), configs@, rate, r);
    }
}

proof fn lemma_none_named(
    args: (&Vec<Option<String>>, &String),
    names: Seq<Option<String>>,
    name: Seq<char>,
    r: Result<usize, Error>,
)
    requires
        call_ensures(pick_output, args, r),
        r is Err,
        args.0@ == names,
        args.1@ == name,
    ensures
        forall|j: int| 0 <= j < names.len() ==> !is_named(#[trigger] names[j], name),
{
}

proof fn lemma_none_plays(
    args: (&Vec<OutputRange>, u32),
    configs: Seq<OutputRange>,
    rate: u32,
    r: Result<usize, Error>,
)
    requires
        call_ensures(pick_config, args, r),
        r is Err,
        args.0@ == configs,
        args.1 == rate,
    ensures
        forall|j: int| 0 <= j < configs.len() ==> !(#[trigger] configs[j]).plays(rate),
{
}

} // verus!
