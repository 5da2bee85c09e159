use mouseutility::device::{decode_paired_name, Device, Receiver, Transport};
use mouseutility::error::HidppError;
use mouseutility::query::{Reply, Step};
use mouseutility::report::Request;
use mouseutility::scan::{DeviceScan, Probe};

/// A receiver with a pairing table and the devices behind it.
struct Bench {
    /// (slot, wpid, type byte, name)
    slots: Vec<(u8, u16, u8, &'static str)>,
    /// device indices that answer the ping; others are asleep (error 0x08)
    online: Vec<u8>,
    /// a device index whose ping fails with HID++ 1.0 error 0x0b
    broken: Option<u8>,
    requests: usize,
}

fn report(req: &Request, p: &[u8]) -> Vec<u8> {
    let (i, f, fb) = req.key();
    let mut r = vec![0x11, i, f, fb];
    r.extend(p);
    r.resize(20, 0);
    r
}

impl Bench {
    fn reply(&mut self, req: &Request) -> Reply {
        self.requests += 1;
        match req {
            Request::Register { sub, reg, params } => {
                assert_eq!((*sub, *reg), (0x83, 0xb5));
                let sel = params[0];
                let slot = sel & 0x0f;
                let Some(&(_, wpid, kind, name)) = self.slots.iter().find(|s| s.0 == slot) else {
                    return Err(HidppError::V1(0x02));
                };
                if sel & 0xf0 == 0x20 {
                    let mut r = vec![0x11, 0xff, 0x83, 0xb5, sel, 0, 0, (wpid >> 8) as u8, wpid as u8, 0, 0, kind];
                    r.resize(20, 0);
                    Ok(r)
                } else {
                    let mut r = vec![0x11, 0xff, 0x83, 0xb5, sel, name.len() as u8];
                    r.extend(name.as_bytes());
                    Ok(r)
                }
            }
            Request::Feature { idx, feat, func, params } => {
                if *feat == 0 && *func == 1 {
                    if Some(*idx) == self.broken {
                        return Err(HidppError::V1(0x0b));
                    }
                    return if self.online.contains(idx) { Ok(report(req, &[4, 2, 0x55])) } else { Err(HidppError::V1(0x08)) };
                }
                if *feat == 0 && *func == 0 {
                    // only the name (index 1), unified battery (2) and device type exist
                    let id = (params[0] as u16) << 8 | params[1] as u16;
                    let index = match id { 0x0005 => 1, 0x1004 => 2, _ => 0 };
                    return Ok(report(req, &[index]));
                }
                match (*feat, *func) {
                    (1, 0) => Ok(report(req, &[5])),
                    (1, 1) => Ok(report(req, b"G PRO")),
                    (1, 2) => Ok(report(req, &[3])),
                    (2, 1) => Ok(report(req, &[77, 0, 0])),
                    _ => Err(HidppError::V2(0x07)),
                }
            }
        }
    }

    fn run<Q, T>(&mut self, first: Step<Q, T>, step: impl Fn(Q, Reply) -> Step<Q, T>) -> T {
        let mut s = first;
        for _ in 0..10_000 {
            match s {
                Step::Ask(q, r) => {
                    let reply = self.reply(&r);
                    s = step(q, reply);
                }
                Step::Done(t) => return t,
            }
        }
        panic!("no end");
    }
}

fn bench() -> Bench {
    Bench {
        slots: vec![(0, 0x40bd, 0x02, " PRO X2 "), (2, 0x4099, 0x01, "K855")],
        online: vec![1],
        broken: None,
        requests: 0,
    }
}

#[test]
fn receiver_lists_paired_slots() {
    let mut b = bench();
    let r = Receiver { pid: 0xc54d, product: "USB Receiver".to_string(), transport: Transport::Receiver };
    let devices = b.run(DeviceScan::start(&r), DeviceScan::step);
    assert_eq!(devices.len(), 2);
    let d = &devices[0];
    assert_eq!((d.index, d.wpid, d.kind, d.paired_name.as_str()), (1, 0x40bd, "mouse", "PRO X2"));
    assert!(d.online);
    assert_eq!(d.protocol, Some((4, 2)));
    assert_eq!(d.name.as_deref(), Some("G PRO"));
    assert_eq!(d.battery.unwrap().percent, Some(77));
    assert!(d.dpi.is_none() && d.report_rate.is_none() && d.onboard_mode.is_none());
    assert!(d.error.is_none());
    // an asleep device stays listed, offline, without a failure
    let k = &devices[1];
    assert_eq!((k.index, k.wpid, k.kind, k.paired_name.as_str()), (3, 0x4099, "keyboard", "K855"));
    assert!(!k.online);
    assert!(k.error.is_none() && k.name.is_none() && k.battery.is_none());
}

#[test]
fn failed_ping_is_recorded() {
    let mut b = bench();
    b.broken = Some(3);
    let mut d = Device::listed(3, "K855".to_string(), 0x4099, "keyboard");
    d = b.run(Probe::start(d), Probe::step);
    assert!(!d.online);
    assert_eq!(d.error.as_deref(), Some("hid++ 1.0 error 0x0b"));
}

#[test]
fn asleep_device_forgets_live_fields() {
    let mut b = bench();
    let mut d = Device::listed(3, "K855".to_string(), 0x4099, "keyboard");
    d.online = true;
    d.protocol = Some((4, 2));
    d.name = Some("K855".to_string());
    d.battery = Some(mouseutility::battery::Battery {
        percent: Some(50),
        millivolts: None,
        status: mouseutility::battery::ChargeState::Discharging,
    });
    let d = b.run(Probe::start(d), Probe::step);
    assert!(!d.online);
    assert!(d.protocol.is_none() && d.battery.is_none());
    // the device's own name is kept until it answers again
    assert_eq!(d.name.as_deref(), Some("K855"));
    assert_eq!(b.requests, 1);
}

#[test]
fn direct_device_is_probed_and_typed() {
    let mut b = bench();
    b.online = vec![0xff];
    let r = Receiver { pid: 0xc09d, product: "G PRO Wireless".to_string(), transport: Transport::Usb };
    assert_eq!(r.kind(), "USB");
    let devices = b.run(DeviceScan::start(&r), DeviceScan::step);
    assert_eq!(devices.len(), 1);
    let d = &devices[0];
    assert_eq!((d.index, d.wpid, d.paired_name.as_str()), (0xff, 0xc09d, "G PRO Wireless"));
    assert!(d.online);
    assert_eq!(d.kind, "mouse");
    let mut b = bench();
    let r = Receiver { pid: 0xb023, product: "MX".to_string(), transport: Transport::Bluetooth };
    let devices = b.run(DeviceScan::start(&r), DeviceScan::step);
    assert_eq!((devices.len(), devices[0].kind, devices[0].online), (1, "device", false));
}

#[test]
fn pairing_names() {
    let ok: Reply = Ok(vec![0x11, 0xff, 0x83, 0xb5, 0x40, 4, b'M', b'X', b' ', b'3', 0]);
    assert_eq!(decode_paired_name(&ok), "MX 3");
    // the length is held to 14 and to the bytes present
    let mut long = vec![0x11, 0xff, 0x83, 0xb5, 0x40, 20];
    long.extend(b"ABCDEFGHIJKLMNOPQRST");
    assert_eq!(decode_paired_name(&Ok(long)), "ABCDEFGHIJKLMN");
    assert_eq!(decode_paired_name(&Ok(vec![0x11, 0xff, 0x83, 0xb5, 0x40, 9, b'a'])), "a");
    assert_eq!(decode_paired_name(&Ok(vec![0x11, 0xff, 0x83])), "");
    assert_eq!(decode_paired_name(&Err(HidppError::Timeout)), "");
    // invalid UTF-8 is replaced
    assert_eq!(decode_paired_name(&Ok(vec![0x11, 0xff, 0x83, 0xb5, 0x40, 2, 0xff, b'x'])), "\u{fffd}x");
}
