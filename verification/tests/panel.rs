use mouseutility::device::Device;
use mouseutility::dpi::{Dpi, DpiSegment};
use mouseutility::panel::{detail_rows, devices_panel_message, DetailRow};
use mouseutility::rate::ReportRate;

fn field(label: &str, value: &str, note: &str) -> (String, String, String) {
    (label.to_string(), value.to_string(), note.to_string())
}

fn fields(rows: &[DetailRow]) -> Vec<(String, String, String)> {
    rows.iter()
        .filter_map(|r| match r {
            DetailRow::Field { label, value, note } => Some((label.to_string(), value.clone(), note.clone())),
            _ => None,
        })
        .collect()
}

#[test]
fn devices_panel_messages() {
    assert_eq!(devices_panel_message(&Some("no access".to_string()), 2, true), Some((" no access".to_string(), true)));
    assert_eq!(devices_panel_message(&None, 0, false), Some((" scanning…".to_string(), false)));
    assert_eq!(devices_panel_message(&None, 0, true), Some((" No Logitech receiver found.".to_string(), false)));
    assert_eq!(devices_panel_message(&None, 1, true), None);
}

#[test]
fn online_device_rows() {
    let mut d = Device::listed(1, "PRO X2".to_string(), 0x40bd, "mouse");
    d.online = true;
    d.protocol = Some((4, 2));
    d.dpi = Some(Dpi {
        current: 1600,
        segments: vec![DpiSegment { from: 100, to: 44000, step: 50 }],
        presets: vec![800, 1600, 3200],
        ..Default::default()
    });
    d.report_rate = Some(ReportRate { hz: 1000, supported: vec![] });
    d.onboard_mode = Some(2);
    let rows = detail_rows(&d, "Lightspeed receiver", 0xc54d);
    assert_eq!(
        fields(&rows),
        vec![
            field("receiver", "Lightspeed receiver (c54d) · slot 1", ""),
            field("kind", "mouse", ""),
            field("wireless id", "40bd", ""),
            field("protocol", "HID++ 4.2", ""),
            field("dpi", "1600", "  (range 100–44000)"),
            field("report rate", "1000 Hz", ""),
            field("profiles", "host", ""),
        ]
    );
    assert_eq!(rows.len(), 8);
    match &rows[5] {
        DetailRow::Levels { presets, current } => {
            assert_eq!(presets, &vec![800, 1600, 3200]);
            assert_eq!(*current, 1600);
        }
        _ => panic!("levels row expected after the dpi row"),
    }
}

#[test]
fn offline_device_rows() {
    let mut d = Device::listed(0xff, "G PRO".to_string(), 0xc09d, "device");
    d.error = Some("hid++ 2.0 error 0x05".to_string());
    let rows = detail_rows(&d, "USB", 0xc09d);
    assert_eq!(rows.len(), 5);
    assert_eq!(fields(&rows), vec![field("link", "USB (c09d)", ""), field("kind", "device", ""), field("wireless id", "c09d", "")]);
    assert!(matches!(&rows[3], DetailRow::Error(e) if e == "  hid++ 2.0 error 0x05"));
    assert!(matches!(&rows[4], DetailRow::Hint(h) if h.starts_with("  Move the mouse to wake it")));
}

use mouseutility::app_state::ReceiverInfo;
use mouseutility::panel::{detail_header, device_rows, ListRow};

#[test]
fn details_header_lines() {
    let mut d = Device::listed(1, "PRO X2".to_string(), 0x40bd, "mouse");
    assert_eq!(detail_header(&d), (" PRO X2".to_string(), "○ offline — asleep or switched off"));
    d.online = true;
    d.name = Some("PRO X2 SUPERSTRIKE".to_string());
    assert_eq!(detail_header(&d), (" PRO X2 SUPERSTRIKE".to_string(), "● online"));
}

fn info(pid: u16, kind: &'static str, slots: &[(u8, bool)]) -> ReceiverInfo {
    let devices = slots
        .iter()
        .map(|&(i, online)| {
            let mut d = Device::listed(i, format!("m{i}"), 0x4000 + i as u16, "mouse");
            d.online = online;
            d
        })
        .collect();
    ReceiverInfo { pid, kind, devices }
}

fn shape(rows: &[ListRow]) -> Vec<String> {
    rows.iter()
        .map(|r| match r {
            ListRow::Receiver { kind, pid } => format!("R {kind}{pid}"),
            ListRow::Empty(t) => format!("E{t}"),
            ListRow::Device { selected, online, name, battery } => format!("D {selected} {online} {name} [{battery}]"),
        })
        .collect()
}

#[test]
fn device_rows_mark_the_flat_selection() {
    let rs = vec![
        info(0xc52b, "Unifying receiver", &[(1, true), (2, false)]),
        info(0xc548, "Bolt receiver", &[]),
        info(0xc54d, "Lightspeed receiver", &[(1, true)]),
    ];
    assert_eq!(
        shape(&device_rows(&rs, 2)),
        vec![
            "R Unifying receiver  c52b",
            "D false true m1 []",
            "D false false m2 [off]",
            "R Bolt receiver  c548",
            "E     nothing paired",
            "R Lightspeed receiver  c54d",
            "D true true m1 []",
        ]
    );
    let rows = device_rows(&rs, 1);
    let marked: Vec<usize> =
        rows.iter().enumerate().filter(|(_, r)| matches!(r, ListRow::Device { selected: true, .. })).map(|(i, _)| i).collect();
    assert_eq!(marked, vec![2]);
    // A selection past the list marks nothing.
    assert!(!device_rows(&rs, 3).iter().any(|r| matches!(r, ListRow::Device { selected: true, .. })));
    assert!(device_rows(&vec![], 0).is_empty());
}
