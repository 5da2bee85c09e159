use mouseutility::dialog::{dpi_dialog, parse_u16};
use mouseutility::dpi::{Dpi, DpiSegment};

#[test]
fn parse_u16_reads_as_std_does() {
    let mut cases: Vec<String> = Vec::new();
    for v in 0u32..70_000 {
        cases.push(v.to_string());
        cases.push(format!("+{v}"));
        cases.push(format!("0{v}"));
    }
    for s in ["", "+", "-", "-1", "++1", " 1", "1 ", "1a", "a", "١٢", "+-1", "0000000000000000000065535", "65536", "99999999999999999999"] {
        cases.push(s.to_string());
    }
    for s in &cases {
        assert_eq!(parse_u16(s), s.parse::<u16>().ok(), "{s:?}");
    }
}

fn sensor(presets: Vec<u16>) -> Dpi {
    Dpi {
        current: 1600,
        segments: vec![DpiSegment { from: 100, to: 25600, step: 50 }],
        presets,
        ..Default::default()
    }
}

#[test]
fn dpi_dialog_texts() {
    let d = dpi_dialog(&sensor(vec![800, 1600, 3200]), Some(1), "1620");
    assert_eq!(d.now, "  now 1600 dpi");
    assert_eq!(d.input_note, Some(("  → 1600 (nearest supported)".to_string(), false)));
    assert_eq!(d.range, "  range 100–25600");
    assert_eq!(d.levels.as_deref(), Some("  onboard levels  800  1600  3200   (←→ to step)"));
    assert_eq!(d.warning, Some("  onboard profile active — the mouse may revert on its own"));

    let d = dpi_dialog(&sensor(vec![]), Some(2), "1650");
    assert_eq!(d.input_note, None);
    assert_eq!(d.levels, None);
    assert_eq!(d.warning, None);

    let d = dpi_dialog(&sensor(vec![400]), None, "fast");
    assert_eq!(d.input_note, Some(("  not a number".to_string(), true)));
    assert_eq!(d.levels.as_deref(), Some("  onboard levels  400   (←→ to step)"));
    assert_eq!(dpi_dialog(&sensor(vec![]), None, "").input_note, None);
}
