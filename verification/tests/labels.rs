use mouseutility::battery::{Battery, ChargeState};
use mouseutility::device::Device;
use mouseutility::labels::{battery_caption, battery_short, charge_suffix};

fn with_battery(b: Option<Battery>, online: bool) -> Device {
    let mut d = Device::listed(1, String::new(), 0x40bd, "mouse");
    d.battery = b;
    d.online = online;
    d
}

#[test]
fn battery_short_volts_match_float_formatting() {
    for mv in 0..=u16::MAX {
        let d = with_battery(Some(Battery { percent: None, millivolts: Some(mv), status: ChargeState::Discharging }), true);
        assert_eq!(battery_short(&d), format!("{:.2}V", mv as f32 / 1000.0), "mv {mv}");
    }
}

#[test]
fn battery_caption_volts_match_float_formatting() {
    for mv in 0..=u16::MAX {
        for st in [ChargeState::Charging, ChargeState::Full, ChargeState::Discharging, ChargeState::Unknown] {
            let b = Battery { percent: None, millivolts: Some(mv), status: st };
            assert_eq!(battery_caption(b), format!("battery {:.2} V{}", mv as f64 / 1000.0, charge_suffix(st)), "mv {mv}");
        }
    }
}

#[test]
fn battery_short_percent_and_states() {
    let d = with_battery(Some(Battery { percent: Some(88), millivolts: None, status: ChargeState::Charging }), true);
    assert_eq!(battery_short(&d), " 88%");
    let d = with_battery(Some(Battery { percent: Some(5), millivolts: None, status: ChargeState::Charging }), true);
    assert_eq!(battery_short(&d), "  5%");
    let d = with_battery(Some(Battery { percent: Some(100), millivolts: None, status: ChargeState::Full }), true);
    assert_eq!(battery_short(&d), "100%");
    let d = with_battery(Some(Battery { percent: None, millivolts: None, status: ChargeState::Unknown }), true);
    assert_eq!(battery_short(&d), "");
    assert_eq!(battery_short(&with_battery(None, true)), "");
    assert_eq!(battery_short(&with_battery(None, false)), "off");
}

#[test]
fn battery_caption_texts() {
    let b = Battery { percent: Some(88), millivolts: None, status: ChargeState::Charging };
    assert_eq!(battery_caption(b), "battery 88% charging");
    let b = Battery { percent: Some(100), millivolts: None, status: ChargeState::Full };
    assert_eq!(battery_caption(b), "battery 100% full");
    let b = Battery { percent: None, millivolts: None, status: ChargeState::Full };
    assert_eq!(battery_caption(b), "battery");
}

use mouseutility::dpi::{Dpi, DpiSegment};
use mouseutility::labels::{
    device_name, dpi_notes, link_line, list_label, missing_receiver, onboard_text, pid_hex, slot_line,
};

#[test]
fn list_label_falls_back_to_kind_and_wpid() {
    let d = Device::listed(2, String::new(), 0x40bd, "mouse");
    assert_eq!(device_name(&d), "");
    assert_eq!(list_label(&d), "mouse 40bd");
    let mut d = Device::listed(2, "G502".to_string(), 0x407f, "mouse");
    assert_eq!(list_label(&d), "G502");
    d.name = Some("G502 LIGHTSPEED".to_string());
    assert_eq!(device_name(&d), "G502 LIGHTSPEED");
    assert_eq!(list_label(&d), "G502 LIGHTSPEED");
}

#[test]
fn link_lines() {
    assert_eq!(link_line(0xff, "USB", 0xc09d), ("link", "USB (c09d)".to_string()));
    assert_eq!(
        link_line(3, "Lightspeed receiver", 0xc54d),
        ("receiver", "Lightspeed receiver (c54d) · slot 3".to_string())
    );
    assert_eq!(pid_hex(0x0a), "000a");
}

#[test]
fn dpi_note_variants() {
    let seg = vec![DpiSegment { from: 100, to: 25600, step: 50 }];
    let dpi = Dpi { segments: seg.clone(), default: 800, ..Default::default() };
    assert_eq!(dpi_notes(&dpi), "  (range 100–25600, default 800)");
    let dpi = Dpi { segments: seg, default: 0, ..Default::default() };
    assert_eq!(dpi_notes(&dpi), "  (range 100–25600)");
    let dpi = Dpi { default: 1600, ..Default::default() };
    assert_eq!(dpi_notes(&dpi), "  (default 1600)");
    assert_eq!(dpi_notes(&Dpi::default()), "");
}

#[test]
fn onboard_texts() {
    assert_eq!(onboard_text(1), "onboard — the mouse runs its stored profile");
    assert_eq!(onboard_text(2), "host");
    assert_eq!(onboard_text(0), "?");
}

#[test]
fn slot_line_pads_like_format() {
    let mut d = Device::listed(1, "G PRO".to_string(), 0x4093, "mouse");
    let want = format!("  slot {} {:<8} {:<20} wpid {:04x}  {}", 1, "mouse", "G PRO", 0x4093, "offline");
    assert_eq!(slot_line(&d), want);
    d.online = true;
    d.paired_name = "A name longer than twenty chars".to_string();
    d.kind = "keyboard+";
    let want = format!("  slot {} {:<8} {:<20} wpid {:04x}  {}", 1, "keyboard+", d.paired_name, 0x4093, "online");
    assert_eq!(slot_line(&d), want);
}

#[test]
fn missing_receiver_text() {
    assert_eq!(missing_receiver(0xc54d), "receiver c54d not found");
}

#[test]
fn dpi_row_note_as_documented() {
    let dpi = Dpi { current: 1600, segments: vec![DpiSegment { from: 100, to: 44000, step: 50 }], ..Default::default() };
    assert_eq!(format!("dpi  {}{}", dpi.current, dpi_notes(&dpi)), "dpi  1600  (range 100–44000)");
}

use mouseutility::labels::{battery_level, Level};

#[test]
fn gauge_bands_match_float_ratio() {
    let band = |ratio: f64| if ratio < 0.15 { Level::Low } else if ratio < 0.35 { Level::Medium } else { Level::Good };
    for p in 0..=u8::MAX {
        let b = Battery { percent: Some(p), millivolts: Some(3000), status: ChargeState::Unknown };
        assert_eq!(battery_level(b), band(p as f64 / 100.0), "percent {p}");
    }
    for mv in 0..=u16::MAX {
        let b = Battery { percent: None, millivolts: Some(mv), status: ChargeState::Unknown };
        assert_eq!(battery_level(b), band(((mv as f64 - 3500.0) / 700.0).clamp(0.0, 1.0)), "mv {mv}");
    }
    let b = Battery { percent: None, millivolts: None, status: ChargeState::Full };
    assert_eq!(battery_level(b), Level::Low);
}
