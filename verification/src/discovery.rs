//! Devices as discovery reports them.

use vstd::prelude::*;
use vstd::string::*;

use crate::device::DacType;
use crate::net::IpAddr;

verus! {

/// What discovery knows of a device.
#[derive(Debug)]
pub struct DiscoveredDeviceInfo {
    pub dac_type: DacType,
    /// Identifier that stays the same between scans.
    pub stable_id: String,
    /// Display name.
    pub name: String,
    pub ip: Option<IpAddr>,
    pub hostname: Option<String>,
    pub usb_address: Option<String>,
    pub hardware_name: Option<String>,
}

impl DiscoveredDeviceInfo {
    pub fn new(dac_type: DacType, stable_id: String, name: String) -> (r: DiscoveredDeviceInfo)
        ensures
            r == (DiscoveredDeviceInfo {
                dac_type,
                stable_id,
                name,
                ip: None,
                hostname: None,
                usb_address: None,
                hardware_name: None,
            }),
    {
        DiscoveredDeviceInfo {
            dac_type,
            stable_id,
            name,
            ip: None,
            hostname: None,
            usb_address: None,
            hardware_name: None,
        }
    }

    pub fn with_ip(self, ip: IpAddr) -> (r: DiscoveredDeviceInfo)
        ensures
            r == (DiscoveredDeviceInfo { ip: Some(ip), ..self }),
    {
        DiscoveredDeviceInfo { ip: Some(ip), ..self }
    }

    pub fn with_hostname(self, hostname: String) -> (r: DiscoveredDeviceInfo)
        ensures
            r == (DiscoveredDeviceInfo { hostname: Some(hostname), ..self }),
    {
        DiscoveredDeviceInfo { hostname: Some(hostname), ..self }
    }

    pub fn with_usb_address(self, usb_address: String) -> (r: DiscoveredDeviceInfo)
        ensures
            r == (DiscoveredDeviceInfo { usb_address: Some(usb_address), ..self }),
    {
        DiscoveredDeviceInfo { usb_address: Some(usb_address), ..self }
    }

    pub fn with_hardware_name(self, hardware_name: String) -> (r: DiscoveredDeviceInfo)
        ensures
            r == (DiscoveredDeviceInfo { hardware_name: Some(hardware_name), ..self }),
    {
        DiscoveredDeviceInfo { hardware_name: Some(hardware_name), ..self }
    }

    pub fn stable_id(&self) -> (r: &str)
        ensures
            r@ == self.stable_id@,
    {
        self.stable_id.as_str()
    }

    pub fn name(&self) -> (r: &str)
        ensures
            r@ == self.name@,
    {
        self.name.as_str()
    }
}

/// Whether a character is an ASCII letter or digit.
pub open spec fn is_slug_char(c: char) -> bool {
    ('0' <= c && c <= '9') || ('a' <= c && c <= 'z') || ('A' <= c && c <= 'Z')
}

/// An ASCII letter in lower case; any other character itself.
pub open spec fn lower(c: char) -> char {
    if 'A' <= c && c <= 'Z' {
        (c as int + 32) as char
    } else {
        c
    }
}

/// A name as part of an identifier: letters and digits in lower case, each run
/// of other characters between them as one hyphen.
pub open spec fn slug(name: Seq<char>) -> Seq<char>
    decreases name.len(),
{
    if name.len() == 0 {
        seq![]
    } else {
        let head = slug(name.drop_last());
        if !is_slug_char(name.last()) {
            head
        } else if name.len() > 1 && !is_slug_char(name[name.len() - 2]) && head.len() > 0 {
            head.push('-').push(lower(name.last()))
        } else {
            head.push(lower(name.last()))
        }
    }
}

fn lower_char(c: char) -> (r: char)
    ensures
        r == lower(c),
{
    if 'A' <= c && c <= 'Z' {
        (c as u8 + 32) as char
    } else {
        c
    }
}

/// Make a device name part of an identifier.
pub fn slugify_device_id(name: &str) -> (r: String)
    ensures
        r@ == slug(name@),
{
    let mut out = String::new();
    let mut empty: bool = true;
    let mut gap: bool = false;
    let n: usize = name.unicode_len();
    let mut i: usize = 0;
    assert(out@ =~= slug(name@.take(0)));
    while i < n
        invariant
            n == name@.len(),
            i <= n,
            out@ == slug(name@.take(i as int)),
            empty == (out@.len() == 0),
            gap == (i > 0 && !is_slug_char(name@[i - 1])),
        decreases n - i,
    {
        let c: char = name.get_char(i);
        proof {
            let part = name@.take(i + 1);
            assert(part.drop_last() =~= name@.take(i as int));
            assert(part.last() == c);
            if i > 0 {
                assert(part[part.len() - 2] == name@[i - 1]);
            }
        }
        if ('0' <= c && c <= '9') || ('a' <= c && c <= 'z') || ('A' <= c && c <= 'Z') {
            if gap && !empty {
                out.push('-');
            }
            out.push(lower_char(c));
            empty = false;
            gap = false;
        } else {
            gap = true;
        }
        i += 1;
    }
    assert(name@.take(i as int) =~= name@);
    out
}

/// Whether a character is a letter or a digit of ASCII, by its number.
pub open spec fn is_ascii_alphanumeric(c: char) -> bool {
    48 <= c as int <= 57 || 65 <= c as int <= 90 || 97 <= c as int <= 122
}

/// Letters and digits stay in their order; capital letters become small ones.
pub proof fn letters_are_kept_in_lower_case(name: Seq<char>)
    requires
        forall|i: int| 0 <= i < name.len() ==> is_ascii_alphanumeric(#[trigger] name[i]),
    ensures
        slug(name).len() == name.len(),
        forall|i: int|
            0 <= i < name.len() ==> {
                &&& 65 <= name[i] as int <= 90 ==> (#[trigger] slug(name)[i]) as int
                    == name[i] as int + 32
                &&& !(65 <= name[i] as int <= 90) ==> slug(name)[i] == name[i]
            },
    decreases name.len(),
{
    if name.len() > 0 {
        letters_are_kept_in_lower_case(name.drop_last());
        assert(is_slug_char(name.last()));
        if name.len() > 1 {
            assert(is_ascii_alphanumeric(name[name.len() - 2]));
        }
        assert forall|i: int| 0 <= i < name.len() - 1 implies #[trigger] slug(name)[i] == slug(
            name.drop_last(),
        )[i] by {}
    }
}

/// What is neither letter nor digit is dropped at the start and at the end; between
/// letters or digits, however much of it stands there, it becomes one hyphen.
pub proof fn gap_becomes_one_hyphen(head: Seq<char>, gap: Seq<char>, c: char)
    requires
        gap.len() > 0,
        forall|i: int| 0 <= i < gap.len() ==> !is_ascii_alphanumeric(#[trigger] gap[i]),
        is_ascii_alphanumeric(c),
    ensures
        slug(head + gap) == slug(head),
        slug(head).len() > 0 ==> slug((head + gap).push(c)).drop_last() == slug(head).push('-'),
        slug(head).len() == 0 ==> slug((head + gap).push(c)).len() == 1,
        65 <= c as int <= 90 ==> slug((head + gap).push(c)).last() as int == c as int + 32,
        !(65 <= c as int <= 90) ==> slug((head + gap).push(c)).last() == c,
{
    lemma_gap(head, gap);
    let whole = (head + gap).push(c);
    assert(whole.drop_last() =~= head + gap);
    assert(whole[whole.len() - 2] == gap.last());
    assert(!is_ascii_alphanumeric(gap[gap.len() - 1]));
    if slug(head).len() > 0 {
        assert(slug(whole).drop_last() =~= slug(head).push('-'));
    }
}

proof fn lemma_gap(head: Seq<char>, gap: Seq<char>)
    requires
        forall|i: int| 0 <= i < gap.len() ==> !is_ascii_alphanumeric(#[trigger] gap[i]),
    ensures
        slug(head + gap) == slug(head),
    decreases gap.len(),
{
    if gap.len() > 0 {
        lemma_gap(head, gap.drop_last());
        assert((head + gap).drop_last() =~= head + gap.drop_last());
        assert(!is_ascii_alphanumeric(gap[gap.len() - 1]));
    } else {
        assert(head + gap =~= head);
    }
}

/// What is added to a description is told of the device, and leaves the rest as it is.
pub proof fn descriptions_are_added_to()
    ensures
        forall|kind: DacType, id: String, name: String, r: DiscoveredDeviceInfo| #[trigger]
            call_ensures(DiscoveredDeviceInfo::new, (kind, id, name), r) ==> r.dac_type == kind
                && r.stable_id == id && r.name == name && r.ip is None && r.hostname is None
                && r.usb_address is None && r.hardware_name is None,
        forall|d: DiscoveredDeviceInfo, ip: IpAddr, r: DiscoveredDeviceInfo| #[trigger]
            call_ensures(DiscoveredDeviceInfo::with_ip, (d, ip), r) ==> r.ip == Some(ip)
                && r.stable_id == d.stable_id && r.name == d.name && r.hostname == d.hostname
                && r.usb_address == d.usb_address && r.hardware_name == d.hardware_name
                && r.dac_type == d.dac_type,
        forall|d: DiscoveredDeviceInfo, h: String, r: DiscoveredDeviceInfo| #[trigger]
            call_ensures(DiscoveredDeviceInfo::with_hostname, (d, h), r) ==> r.hostname == Some(h)
                && r.stable_id == d.stable_id && r.name == d.name && r.ip == d.ip && r.usb_address
                == d.usb_address && r.hardware_name == d.hardware_name && r.dac_type == d.dac_type,
        forall|d: DiscoveredDeviceInfo, u: String, r: DiscoveredDeviceInfo| #[trigger]
            call_ensures(DiscoveredDeviceInfo::with_usb_address, (d, u), r) ==> r.usb_address
                == Some(u) && r.stable_id == d.stable_id && r.name == d.name && r.ip == d.ip
                && r.hostname == d.hostname && r.hardware_name == d.hardware_name && r.dac_type
                == d.dac_type,
        forall|d: DiscoveredDeviceInfo, h: String, r: DiscoveredDeviceInfo| #[trigger]
            call_ensures(DiscoveredDeviceInfo::with_hardware_name, (d, h), r) ==> r.hardware_name
                == Some(h) && r.stable_id == d.stable_id && r.name == d.name && r.ip == d.ip
                && r.hostname == d.hostname && r.usb_address == d.usb_address && r.dac_type
                == d.dac_type,
{
}

} // verus!
