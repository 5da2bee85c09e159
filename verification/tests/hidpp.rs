use mouseutility::device::{receiver_kind, Receiver, Transport};
use mouseutility::dpi::{parse_dpi_list, Dpi, DpiSegment};
use mouseutility::rate::ext_rate_hz;

/// Range stream captured from a G PRO X2 SUPERSTRIKE (0x2202 fn 2, three replies).
const X2_RANGES: &[u8] = &[
    0x00, 0x64, 0xe0, 0x01, 0x00, 0xc8, 0xe0, 0x02, 0x01, 0xf4, 0xe0, 0x05, 0x03, 0xe8, 0xe0, 0x0a, 0x07, 0xd0, 0xe0, 0x14,
    0x13, 0x88, 0xe0, 0x32, 0x27, 0x10, 0xe0, 0x64, 0x4e, 0x20, 0xe0, 0x7d, 0x7d, 0x00, 0xe0, 0xc8, 0xab, 0xe0, 0x00, 0x00,
];

#[test]
fn dpi_ranges_decode() {
    let segs = parse_dpi_list(X2_RANGES);
    assert_eq!(segs.len(), 9);
    assert_eq!(segs[0], DpiSegment { from: 100, to: 200, step: 1 });
    assert_eq!(segs[3], DpiSegment { from: 1000, to: 2000, step: 10 });
    assert_eq!(segs[8], DpiSegment { from: 32000, to: 44000, step: 200 });
}

#[test]
fn dpi_snap() {
    let dpi = Dpi { segments: parse_dpi_list(X2_RANGES), ..Default::default() };
    assert_eq!((dpi.min(), dpi.max()), (100, 44000));
    assert_eq!(dpi.snap(1600), 1600);
    assert_eq!(dpi.snap(1604), 1600);
    assert_eq!(dpi.snap(1606), 1610);
    assert_eq!(dpi.snap(5), 100);
    assert_eq!(dpi.snap(60000), 44000);
    assert_eq!(dpi.snap(33333), 33400);
    assert_eq!(dpi.snap(25010), 25000);
}

#[test]
fn dpi_discrete_list() {
    // 0x2201 style: 800, 1600, 3200 with no steps.
    let segs = parse_dpi_list(&[0x03, 0x20, 0x06, 0x40, 0x0c, 0x80, 0, 0]);
    assert_eq!(segs.len(), 3);
    let dpi = Dpi { segments: segs, ..Default::default() };
    assert_eq!(dpi.snap(1000), 800);
    assert_eq!(dpi.snap(1300), 1600);
}

#[test]
fn rate_codes() {
    assert_eq!(ext_rate_hz(3), 1000);
    assert_eq!(ext_rate_hz(6), 8000);
}

#[test]
fn receiver_kinds() {
    let r = Receiver { pid: 0xc54d, product: String::new(), transport: Transport::Receiver };
    assert_eq!(r.kind(), "Lightspeed receiver");
    assert!(receiver_kind(0xc548).is_some());
    assert!(receiver_kind(0xc09d).is_none(), "a G PRO mouse pid is a device, not a receiver");
}
