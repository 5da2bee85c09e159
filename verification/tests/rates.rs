use mouseutility::dpi::{Dpi, DpiSegment};
use mouseutility::rate::{ext_rate_code, ext_rate_hz, ext_supported, legacy_hz, legacy_ms, legacy_supported};

#[test]
fn rate_code_table() {
    let table = [125, 250, 500, 1000, 2000, 4000, 8000];
    for (code, hz) in table.iter().enumerate() {
        assert_eq!(ext_rate_hz(code as u8), *hz);
        // The search finds each rate's own code back.
        assert_eq!(ext_rate_code(*hz), Some(code as u8));
    }
    assert_eq!(ext_rate_hz(7), 0);
    assert_eq!(ext_rate_hz(200), 0);
    assert_eq!(ext_rate_code(0), None);
    assert_eq!(ext_rate_code(333), None);
}

#[test]
fn support_masks() {
    assert_eq!(ext_supported(0b0100_1001), vec![125, 1000, 8000]);
    // Bit 7 names no rate code and is skipped.
    assert_eq!(ext_supported(0x80), Vec::<u16>::new());
    assert_eq!(ext_supported(0x7f), vec![125, 250, 500, 1000, 2000, 4000, 8000]);
    assert_eq!(legacy_supported(0b1000_1011), vec![1000, 500, 250, 125]);
    assert_eq!(legacy_supported(0xff), vec![1000, 500, 333, 250, 200, 166, 142, 125]);
}

#[test]
fn legacy_intervals() {
    assert_eq!(legacy_hz(0), 0);
    assert_eq!(legacy_hz(1), 1000);
    assert_eq!(legacy_hz(8), 125);
    assert_eq!(legacy_hz(255), 3);
    assert_eq!(legacy_ms(1000), 1);
    assert_eq!(legacy_ms(500), 2);
    assert_eq!(legacy_ms(125), 8);
    assert_eq!(legacy_ms(8000), 1);
    assert_eq!(legacy_ms(1), 8);
    assert_eq!(legacy_ms(0), 8);
    assert_eq!(legacy_ms(300), 3);
}

fn two_ranges() -> Dpi {
    Dpi {
        segments: vec![DpiSegment { from: 400, to: 1000, step: 100 }, DpiSegment { from: 1600, to: 3200, step: 800 }],
        ..Default::default()
    }
}

#[test]
fn snap_keeps_grid_values_and_clamps() {
    let dpi = two_ranges();
    for v in [400u16, 500, 1000, 1600, 2400, 3200] {
        assert!(dpi.snap_defined_at(v));
        assert_eq!(dpi.snap(v), v);
    }
    assert_eq!(dpi.snap(1), dpi.snap(400));
    assert_eq!(dpi.snap(65535), dpi.snap(3200));
}

#[test]
fn snap_lands_on_accepted_values() {
    let dpi = two_ranges();
    assert_eq!(dpi.snap(449), 400);
    assert_eq!(dpi.snap(450), 500);
    // In the gap: the nearer end, ties to the lower.
    assert_eq!(dpi.snap(1200), 1000);
    assert_eq!(dpi.snap(1300), 1000);
    assert_eq!(dpi.snap(1301), 1600);
    // A step that overshoots the segment's end stops at the end.
    let dpi = Dpi { segments: vec![DpiSegment { from: 100, to: 250, step: 100 }], ..Default::default() };
    assert_eq!(dpi.snap(250), 250);
    assert_eq!(dpi.snap(249), 200);
    for v in 0..=u16::MAX {
        let r = two_ranges().snap(v);
        assert!(
            ((400..=1000).contains(&r) && (r - 400) % 100 == 0) || ((1600..=3200).contains(&r) && (r - 1600) % 800 == 0),
            "{v} -> {r}"
        );
    }
}

#[test]
fn snap_without_segments_keeps_value() {
    let dpi = Dpi::default();
    assert!(dpi.snap_defined_at(1234));
    assert_eq!(dpi.snap(1234), 1234);
}

#[test]
fn snap_undefined_on_zero_step_cover() {
    let dpi = Dpi { segments: vec![DpiSegment { from: 100, to: 200, step: 0 }], ..Default::default() };
    assert!(!dpi.snap_defined_at(150));
}

fn x2_like() -> Dpi {
    let ranges: &[(u16, u16, u16)] = &[
        (100, 200, 1),
        (200, 500, 2),
        (500, 1000, 5),
        (1000, 2000, 10),
        (2000, 5000, 20),
        (5000, 10000, 50),
        (10000, 20000, 100),
        (20000, 32000, 125),
        (32000, 44000, 200),
    ];
    Dpi { segments: ranges.iter().map(|&(from, to, step)| DpiSegment { from, to, step }).collect(), ..Default::default() }
}

fn accepted_values(dpi: &Dpi) -> Vec<u16> {
    let mut out = Vec::new();
    for s in &dpi.segments {
        let mut a = s.from as u32;
        while a <= s.to as u32 {
            out.push(a as u16);
            a += s.step as u32;
        }
        out.push(s.to);
    }
    out.sort();
    out.dedup();
    out
}

#[test]
fn snap_is_nearest_accepted_value() {
    for dpi in [x2_like(), two_ranges()] {
        let acc = accepted_values(&dpi);
        for v in 0..=u16::MAX {
            let r = dpi.snap(v);
            assert!(acc.binary_search(&r).is_ok(), "{v} -> {r} not accepted");
            let best = acc.iter().map(|&a| (a as i32 - v as i32).abs()).min().unwrap();
            assert_eq!((r as i32 - v as i32).abs(), best, "{v} -> {r}");
        }
    }
}

#[test]
fn snapping_twice_changes_nothing() {
    for dpi in [x2_like(), two_ranges()] {
        for v in 0..=u16::MAX {
            let r = dpi.snap(v);
            assert!(dpi.snap_defined_at(r));
            assert_eq!(dpi.snap(r), r);
        }
    }
}
