//! Receivers, their pairing tables, and the devices paired to them.

use vstd::prelude::*;
use crate::battery::Battery;
use crate::dpi::{Dpi, DpiView};
use crate::rate::{ReportRate, ReportRateView};
use crate::report::DIRECT_INDEX;
use crate::text::{lossy_trim, lossy_trimmed};

verus! {

/// A slot in a receiver's pairing table, plus whatever the device answered.
#[derive(Debug, Clone)]
pub struct Device {
    pub index: u8,
    /// Name from the receiver's pairing table (available even when offline).
    pub paired_name: String,
    /// Wireless PID from the pairing table.
    pub wpid: u16,
    pub kind: &'static str,
    pub online: bool,
    pub protocol: Option<(u8, u8)>,
    /// Name reported by the device itself (online only).
    pub name: Option<String>,
    pub battery: Option<Battery>,
    pub dpi: Option<Dpi>,
    pub report_rate: Option<ReportRate>,
    /// 0x8100 onboard-profiles mode (1 onboard, 2 host), if the feature exists.
    pub onboard_mode: Option<u8>,
    pub error: Option<String>,
}

pub struct DeviceView {
    pub index: u8,
    pub paired_name: Seq<char>,
    pub wpid: u16,
    pub kind: &'static str,
    pub online: bool,
    pub protocol: Option<(u8, u8)>,
    pub name: Option<Seq<char>>,
    pub battery: Option<Battery>,
    pub dpi: Option<DpiView>,
    pub report_rate: Option<ReportRateView>,
    pub onboard_mode: Option<u8>,
    pub error: Option<Seq<char>>,
}

pub open spec fn text_view(s: Option<String>) -> Option<Seq<char>> {
    match s {
        Some(t) => Some(t@),
        None => None,
    }
}

impl View for Device {
    type V = DeviceView;

    open spec fn view(&self) -> DeviceView {
        DeviceView {
            index: self.index,
            paired_name: self.paired_name@,
            wpid: self.wpid,
            kind: self.kind,
            online: self.online,
            protocol: self.protocol,
            name: text_view(self.name),
            battery: self.battery,
            dpi: match self.dpi {
                Some(d) => Some(d@),
                None => None,
            },
            report_rate: match self.report_rate {
                Some(r) => Some(r@),
                None => None,
            },
            onboard_mode: self.onboard_mode,
            error: text_view(self.error),
        }
    }
}

/// A device as first listed, before it is probed: offline, nothing known.
pub open spec fn fresh_device(d: Device, index: u8, paired_name: Seq<char>, wpid: u16, kind: &'static str) -> bool {
    &&& d.index == index
    &&& d.paired_name@ == paired_name
    &&& d.wpid == wpid
    &&& d.kind == kind
    &&& !d.online
    &&& d.protocol is None
    &&& d.name is None
    &&& d.battery is None
    &&& d.dpi is None
    &&& d.report_rate is None
    &&& d.onboard_mode is None
    &&& d.error is None
}

impl Device {
    pub fn listed(index: u8, paired_name: String, wpid: u16, kind: &'static str) -> (d: Device)
        ensures
            fresh_device(d, index, paired_name@, wpid, kind),
    {
        Device {
            index,
            paired_name,
            wpid,
            kind,
            online: false,
            protocol: None,
            name: None,
            battery: None,
            dpi: None,
            report_rate: None,
            onboard_mode: None,
            error: None,
        }
    }
}

/// How a [`Receiver`] entry is attached.
#[derive(Debug, Clone, Copy, PartialEq, Eq, Structural)]
pub enum Transport {
    /// A Unifying / Lightspeed / Bolt receiver with a pairing table.
    Receiver,
    /// A device plugged in over USB, talking HID++ itself.
    Usb,
    /// A device paired over Bluetooth (vendor page 0xFF43).
    Bluetooth,
}

/// One receiver or directly attached device (without its open handles).
#[derive(Debug, Clone)]
pub struct Receiver {
    pub pid: u16,
    pub product: String,
    pub transport: Transport,
}

/// Receiver product ids; anything else on the vendor page is a device.
pub open spec fn receiver_family(pid: u16) -> Option<&'static str> {
    if pid == 0xc52b || pid == 0xc532 || pid == 0xc517 || pid == 0xc51b || pid == 0xc526 || pid == 0xc52e
        || pid == 0xc531 || pid == 0xc542 {
        Some("Unifying receiver")
    } else if pid == 0xc52f || pid == 0xc534 || pid == 0xc53d {
        Some("Nano receiver")
    } else if pid == 0xc539 || pid == 0xc53a || pid == 0xc53f || pid == 0xc547 || pid == 0xc54d
        || pid == 0xc541 || pid == 0xc545 {
        Some("Lightspeed receiver")
    } else if pid == 0xc548 {
        Some("Bolt receiver")
    } else {
        None
    }
}

pub fn receiver_kind(pid: u16) -> (k: Option<&'static str>)
    ensures
        k == receiver_family(pid),
{
    match pid {
        0xc52b | 0xc532 | 0xc517 | 0xc51b | 0xc526 | 0xc52e | 0xc531 | 0xc542 => Some(
            "Unifying receiver",
        ),
        0xc52f | 0xc534 | 0xc53d => Some("Nano receiver"),
        0xc539 | 0xc53a | 0xc53f | 0xc547 | 0xc54d | 0xc541 | 0xc545 => Some("Lightspeed receiver"),
        0xc548 => Some("Bolt receiver"),
        _ => None,
    }
}

/// What a receiver entry is called: its family for a receiver ("receiver"
/// for an unknown pid), else its transport.
pub open spec fn receiver_label(pid: u16, t: Transport) -> &'static str {
    match t {
        Transport::Receiver => match receiver_family(pid) {
            Some(k) => k,
            None => "receiver",
        },
        Transport::Usb => "USB",
        Transport::Bluetooth => "Bluetooth",
    }
}

impl Receiver {
    pub fn kind(&self) -> (k: &'static str)
        ensures
            k == receiver_label(self.pid, self.transport),
    {
        match self.transport {
            Transport::Receiver => match receiver_kind(self.pid) {
                Some(k) => k,
                None => "receiver",
            },
            Transport::Usb => "USB",
            Transport::Bluetooth => "Bluetooth",
        }
    }

    /// The entry a direct (USB / Bluetooth) device is listed as before probing.
    pub fn direct_device(&self) -> (d: Device)
        ensures
            fresh_device(d, DIRECT_INDEX, self.product@, self.pid, "device"),
    {
        Device::listed(DIRECT_INDEX, self.product.clone(), self.pid, "device")
    }
}

/// 0x0005 getDeviceType code to a name.
pub open spec fn device_type_label(code: u8) -> &'static str {
    if code == 0 { "keyboard" }
    else if code == 1 { "remote" }
    else if code == 2 { "numpad" }
    else if code == 3 { "mouse" }
    else if code == 4 { "touchpad" }
    else if code == 5 { "trackball" }
    else if code == 6 { "gamepad" }
    else if code == 7 { "joystick" }
    else if code == 8 { "presenter" }
    else if code == 9 { "receiver" }
    else if code == 10 { "headset" }
    else if code == 11 { "webcam" }
    else if code == 12 { "steering wheel" }
    else { "device" }
}

pub fn device_type_name(code: u8) -> (k: &'static str)
    ensures
        k == device_type_label(code),
{
    match code {
        0 => "keyboard",
        1 => "remote",
        2 => "numpad",
        3 => "mouse",
        4 => "touchpad",
        5 => "trackball",
        6 => "gamepad",
        7 => "joystick",
        8 => "presenter",
        9 => "receiver",
        10 => "headset",
        11 => "webcam",
        12 => "steering wheel",
        _ => "device",
    }
}

/// Device type nibble of a pairing-table entry to a name.
pub open spec fn pairing_kind_label(code: u8) -> &'static str {
    let t = code % 16;
    if t == 0x01 { "keyboard" }
    else if t == 0x02 { "mouse" }
    else if t == 0x03 { "numpad" }
    else if t == 0x04 { "presenter" }
    else if t == 0x07 { "remote" }
    else if t == 0x08 { "trackball" }
    else if t == 0x09 { "touchpad" }
    else if t == 0x0a { "tablet" }
    else if t == 0x0b { "gamepad" }
    else if t == 0x0c { "joystick" }
    else { "device" }
}

pub fn pairing_kind(code: u8) -> (k: &'static str)
    ensures
        k == pairing_kind_label(code),
{
    match code % 16 {
        0x01 => "keyboard",
        0x02 => "mouse",
        0x03 => "numpad",
        0x04 => "presenter",
        0x07 => "remote",
        0x08 => "trackball",
        0x09 => "touchpad",
        0x0a => "tablet",
        0x0b => "gamepad",
        0x0c => "joystick",
        _ => "device",
    }
}

/// A pairing-table entry (register 0xB5, 0x20|n): wireless pid in bytes 7-8,
/// device type in the low nibble of byte 11. Shorter replies hold no entry.
pub open spec fn pairing_entry(info: Seq<u8>) -> Option<(u16, &'static str)> {
    if info.len() < 12 {
        None
    } else {
        Some(((info[7] as int * 256 + info[8] as int) as u16, pairing_kind_label(info[11])))
    }
}

pub fn decode_pairing(info: &Vec<u8>) -> (e: Option<(u16, &'static str)>)
    ensures
        e == pairing_entry(info@),
{
    if info.len() < 12 {
        None
    } else {
        let wpid: u16 = (info[7] as u16) * 256 + (info[8] as u16);
        Some((wpid, pairing_kind(info[11])))
    }
}

/// The name in a pairing-name reply (register 0xB5, 0x40|n): length in byte
/// 5 (at most 14), the name from byte 6, cut at the reply's end; empty when
/// the reply has no length byte.
pub open spec fn pairing_name_bytes(r: Seq<u8>) -> Seq<u8> {
    if r.len() <= 5 {
        Seq::empty()
    } else {
        let len = if r[5] < 14 { r[5] as int } else { 14 };
        let avail = r.len() - 6;
        r.subrange(6, 6 + if len < avail { len } else { avail })
    }
}

/// The paired name of a pairing-name reply, decoded and trimmed; empty for
/// a failed read.
pub open spec fn paired_name_of(r: core::result::Result<Vec<u8>, crate::error::HidppError>) -> Seq<char> {
    match r {
        Ok(v) => if v@.len() <= 5 { Seq::empty() } else { lossy_trimmed(pairing_name_bytes(v@)) },
        Err(_) => Seq::empty(),
    }
}

pub fn decode_paired_name(r: &core::result::Result<Vec<u8>, crate::error::HidppError>) -> (s: String)
    ensures
        s@ == paired_name_of(*r),
{
    match r {
        Ok(v) => {
            if v.len() <= 5 {
                return String::new();
            }
            let len: usize = if v[5] < 14 { v[5] as usize } else { 14 };
            let vlen = v.len();
            let avail = vlen - 6;
            let take = if len < avail { len } else { avail };
            let mut bytes: Vec<u8> = Vec::new();
            let mut i: usize = 0;
            while i < take
                invariant
                    take <= avail,
                    vlen == v@.len(),
                    avail == vlen - 6,
                    i <= take,
                    bytes@ == v@.subrange(6, 6 + i as int),
                decreases take - i,
            {
                bytes.push(v[6 + i]);
                assert(v@.subrange(6, 6 + i + 1) =~= v@.subrange(6, 6 + i as int).push(
                    v@[6 + i as int],
                ));
                i = i + 1;
            }
            lossy_trim(bytes.as_slice())
        },
        Err(_) => String::new(),
    }
}

/// The first receiver entry with this pid.
pub open spec fn first_with_pid(rs: Seq<Receiver>, pid: u16, i: int) -> int
    decreases rs.len() - i,
{
    if i < 0 || i >= rs.len() {
        -1
    } else if rs[i].pid == pid {
        i
    } else {
        first_with_pid(rs, pid, i + 1)
    }
}

pub fn find_receiver(rs: &Vec<Receiver>, pid: u16) -> (i: Option<usize>)
    ensures
        match i {
            Some(k) => k as int == first_with_pid(rs@, pid, 0) && k < rs@.len(),
            None => first_with_pid(rs@, pid, 0) == -1,
        },
{
    let mut k: usize = 0;
    while k < rs.len()
        invariant
            k <= rs@.len(),
            first_with_pid(rs@, pid, 0) == first_with_pid(rs@, pid, k as int),
        decreases rs@.len() - k,
    {
        if rs[k].pid == pid {
            return Some(k);
        }
        k = k + 1;
    }
    None
}


/// getDeviceType codes 0..=12 name the kinds in the order of the HID++
/// specification; any other code is a plain "device".
pub proof fn law_device_type_codes(code: u8)
    ensures
        code == 0 ==> device_type_label(code) == "keyboard",
        code == 1 ==> device_type_label(code) == "remote",
        code == 2 ==> device_type_label(code) == "numpad",
        code == 3 ==> device_type_label(code) == "mouse",
        code == 4 ==> device_type_label(code) == "touchpad",
        code == 5 ==> device_type_label(code) == "trackball",
        code == 6 ==> device_type_label(code) == "gamepad",
        code == 7 ==> device_type_label(code) == "joystick",
        code == 8 ==> device_type_label(code) == "presenter",
        code == 9 ==> device_type_label(code) == "receiver",
        code == 10 ==> device_type_label(code) == "headset",
        code == 11 ==> device_type_label(code) == "webcam",
        code == 12 ==> device_type_label(code) == "steering wheel",
        code > 12 ==> device_type_label(code) == "device",
{
}

/// A pairing-table entry is read only from a reply of at least 12 bytes: its
/// wireless pid is bytes 7-8 big-endian, and its kind depends on the low
/// nibble of byte 11 alone (1 keyboard, 2 mouse, 3 numpad, 4 presenter,
/// 7 remote, 8 trackball, 9 touchpad, 0xA tablet, 0xB gamepad, 0xC joystick,
/// else "device").
pub proof fn law_pairing_entry(info: Seq<u8>)
    ensures
        info.len() < 12 ==> pairing_entry(info) is None,
        info.len() >= 12 ==> (pairing_entry(info) matches Some((wpid, kind)) && wpid as int == info[7] as int
            * 256 + info[8] as int && kind == pairing_kind_label(info[11] % 16)),
        info.len() >= 12 ==> {
            let t = info[11] % 16;
            &&& t == 1 ==> pairing_kind_label(info[11]) == "keyboard"
            &&& t == 2 ==> pairing_kind_label(info[11]) == "mouse"
            &&& t == 3 ==> pairing_kind_label(info[11]) == "numpad"
            &&& t == 4 ==> pairing_kind_label(info[11]) == "presenter"
            &&& t == 7 ==> pairing_kind_label(info[11]) == "remote"
            &&& t == 8 ==> pairing_kind_label(info[11]) == "trackball"
            &&& t == 9 ==> pairing_kind_label(info[11]) == "touchpad"
            &&& t == 10 ==> pairing_kind_label(info[11]) == "tablet"
            &&& t == 11 ==> pairing_kind_label(info[11]) == "gamepad"
            &&& t == 12 ==> pairing_kind_label(info[11]) == "joystick"
            &&& (t == 0 || t == 5 || t == 6 || t >= 13) ==> pairing_kind_label(info[11]) == "device"
        },
{
    if info.len() >= 12 {
        assert((info[11] % 16) % 16 == info[11] % 16);
        assert((info[7] as int * 256 + info[8] as int) < 65536);
    }
}

/// The paired name is at most 14 bytes from byte 6, as many as byte 5
/// says and the reply holds; a failed read or a reply without a length
/// byte gives no name.
pub proof fn law_pairing_name(r: Seq<u8>)
    ensures
        r.len() <= 5 ==> pairing_name_bytes(r).len() == 0,
        r.len() > 5 ==> {
            let n = pairing_name_bytes(r).len() as int;
            &&& n <= 14 && n <= r[5] && 6 + n <= r.len()
            &&& (n == 14 || n == r[5] || 6 + n == r.len())
            &&& forall|i: int| 0 <= i < n ==> pairing_name_bytes(r)[i] == r[6 + i]
        },
{
}

} // verus!
