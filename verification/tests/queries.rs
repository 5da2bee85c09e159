use std::cell::RefCell;

use mouseutility::battery::{Battery, ChargeState};
use mouseutility::dpi::{Dpi, DpiSegment};
use mouseutility::error::HidppError;
use mouseutility::query::{
    device_type_of, feature_index_from, first_byte_of, lookup_request, ping_outcome, ping_request,
    unit_of, BatteryQuery, DpiQuery, NameQuery, OneCall, RateQuery, Reply, SetDpiQuery,
    SetRateQuery, Step,
};
use mouseutility::report::Request;

/// A device that answers feature calls from tables.
struct Fake {
    idx: u8,
    /// (feature id, feature index)
    features: Vec<(u16, u8)>,
    /// ((feature index, function, parameters), parameter bytes of the reply or error)
    answers: Vec<((u8, u8, Vec<u8>), Result<Vec<u8>, HidppError>)>,
    asked: RefCell<Vec<(u8, u8, Vec<u8>)>>,
}

fn params(bytes: &[u8]) -> Vec<u8> {
    let mut v = bytes.to_vec();
    v.resize(16, 0);
    v
}

impl Fake {
    fn new(idx: u8) -> Fake {
        Fake { idx, features: Vec::new(), answers: Vec::new(), asked: RefCell::new(Vec::new()) }
    }

    fn feature(mut self, id: u16, index: u8) -> Fake {
        self.features.push((id, index));
        self
    }

    fn answer(mut self, feat: u8, func: u8, ps: &[u8], reply: Result<&[u8], HidppError>) -> Fake {
        self.answers.push(((feat, func, ps.to_vec()), reply.map(params)));
        self
    }

    fn reply(&self, req: &Request) -> Reply {
        let Request::Feature { idx, feat, func, params: ps } = req else { panic!("register request") };
        assert_eq!(*idx, self.idx);
        self.asked.borrow_mut().push((*feat, *func, ps.clone()));
        let p = if *feat == 0 && *func == 0 {
            let id = (ps[0] as u16) << 8 | ps[1] as u16;
            let index = self.features.iter().find(|f| f.0 == id).map_or(0, |f| f.1);
            params(&[index])
        } else {
            match self.answers.iter().find(|a| a.0 == (*feat, *func, ps.clone())) {
                Some((_, Ok(p))) => p.clone(),
                Some((_, Err(e))) => return Err(e.clone()),
                None => return Err(HidppError::V2(0x07)),
            }
        };
        let (i, f, fb) = req.key();
        let mut r = vec![0x11, i, f, fb];
        r.extend(p);
        Ok(r)
    }

    fn drive<Q, T>(&self, first: Step<Q, T>, step: impl Fn(Q, Reply) -> Step<Q, T>) -> T {
        let mut s = first;
        for _ in 0..1000 {
            match s {
                Step::Ask(q, r) => {
                    let reply = self.reply(&r);
                    s = step(q, reply);
                }
                Step::Done(t) => return t,
            }
        }
        panic!("query did not end");
    }

    fn asked(&self) -> usize {
        self.asked.borrow().len()
    }
}

#[test]
fn feature_lookup() {
    let ok: Reply = Ok(vec![0x11, 1, 0, 0x0a, 4, 0, 0, 0]);
    assert_eq!(feature_index_from(0x1004, &ok), Ok(4));
    let zero: Reply = Ok(vec![0x11, 1, 0, 0x0a, 0]);
    assert_eq!(feature_index_from(0x1004, &zero), Err(HidppError::NoFeature(0x1004)));
    assert_eq!(feature_index_from(0x1004, &Err(HidppError::Timeout)), Err(HidppError::Timeout));
    assert_eq!(lookup_request(3, 0x2202).report()[..6], [0x11, 3, 0, 0x0a, 0x22, 0x02]);
}

#[test]
fn ping_outcomes() {
    assert_eq!(ping_request(2).report()[..7], [0x11, 2, 0, 0x1a, 0, 0, 0x55]);
    let ok: Reply = Ok(vec![0x11, 2, 0, 0x1a, 4, 2, 0x55]);
    assert_eq!(ping_outcome(&ok), Ok(Some((4, 2))));
    assert_eq!(ping_outcome(&Err(HidppError::V1(0x08))), Ok(None));
    assert_eq!(ping_outcome(&Err(HidppError::V1(0x09))), Ok(None));
    assert_eq!(ping_outcome(&Err(HidppError::Timeout)), Ok(None));
    assert_eq!(ping_outcome(&Err(HidppError::V1(0x0b))), Err(HidppError::V1(0x0b)));
    assert_eq!(ping_outcome(&Err(HidppError::V2(0x08))), Err(HidppError::V2(0x08)));
}

#[test]
fn battery_unified() {
    let dev = Fake::new(1).feature(0x1004, 6).answer(6, 1, &[], Ok(&[88, 0, 1]));
    let b = dev.drive(BatteryQuery::start(1), BatteryQuery::step);
    assert_eq!(b, Ok(Battery { percent: Some(88), millivolts: None, status: ChargeState::Charging }));
    assert_eq!(dev.asked(), 2);
}

#[test]
fn battery_status_fallback() {
    let dev = Fake::new(1).feature(0x1000, 5).answer(5, 0, &[], Ok(&[40, 0, 4]));
    let b = dev.drive(BatteryQuery::start(1), BatteryQuery::step);
    assert_eq!(b, Ok(Battery { percent: Some(40), millivolts: None, status: ChargeState::Charging }));
    let dev = Fake::new(1).feature(0x1000, 5).answer(5, 0, &[], Ok(&[100, 0, 3]));
    assert_eq!(dev.drive(BatteryQuery::start(1), BatteryQuery::step).unwrap().status, ChargeState::Full);
    let dev = Fake::new(1).feature(0x1000, 5).answer(5, 0, &[], Ok(&[10, 0, 7]));
    assert_eq!(dev.drive(BatteryQuery::start(1), BatteryQuery::step).unwrap().status, ChargeState::Unknown);
}

#[test]
fn battery_voltage_fallback() {
    let dev = Fake::new(1).feature(0x1001, 7).answer(7, 0, &[], Ok(&[0x0f, 0x0a, 0x80]));
    let b = dev.drive(BatteryQuery::start(1), BatteryQuery::step);
    assert_eq!(b, Ok(Battery { percent: None, millivolts: Some(3850), status: ChargeState::Charging }));
    assert_eq!(dev.asked(), 4);
}

#[test]
fn battery_without_feature() {
    let dev = Fake::new(1);
    assert_eq!(dev.drive(BatteryQuery::start(1), BatteryQuery::step), Err(HidppError::NoFeature(0x1000)));
    assert_eq!(dev.asked(), 3);
}

#[test]
fn battery_read_failure_is_the_answer() {
    let dev = Fake::new(1).feature(0x1004, 6).feature(0x1000, 5).answer(6, 1, &[], Err(HidppError::Timeout));
    assert_eq!(dev.drive(BatteryQuery::start(1), BatteryQuery::step), Err(HidppError::Timeout));
}

#[test]
fn device_name_in_chunks() {
    let name = b"  PRO X2 SUPERSTRIKE \0\0";
    let dev = Fake::new(1)
        .feature(0x0005, 3)
        .answer(3, 0, &[], Ok(&[name.len() as u8]))
        .answer(3, 1, &[0], Ok(&name[..16]))
        .answer(3, 1, &[16], Ok(&name[16..]));
    assert_eq!(dev.drive(NameQuery::start(1), NameQuery::step), Ok("PRO X2 SUPERSTRIKE".to_string()));
    assert_eq!(dev.asked(), 4);
}

#[test]
fn device_name_empty_and_failing() {
    let dev = Fake::new(1).feature(0x0005, 3).answer(3, 0, &[], Ok(&[0]));
    assert_eq!(dev.drive(NameQuery::start(1), NameQuery::step), Ok(String::new()));
    let dev = Fake::new(1);
    assert_eq!(dev.drive(NameQuery::start(1), NameQuery::step), Err(HidppError::NoFeature(0x0005)));
    let dev = Fake::new(1).feature(0x0005, 3).answer(3, 0, &[], Ok(&[4])).answer(3, 1, &[0], Err(HidppError::V2(5)));
    assert_eq!(dev.drive(NameQuery::start(1), NameQuery::step), Err(HidppError::V2(5)));
}

#[test]
fn device_type_names() {
    let dev = Fake::new(0xff).feature(0x0005, 3).answer(3, 2, &[], Ok(&[3]));
    assert_eq!(device_type_of(dev.drive(OneCall::start(0xff, 0x0005, 2, None), OneCall::step)), Ok("mouse"));
    let dev = Fake::new(0xff).feature(0x0005, 3).answer(3, 2, &[], Ok(&[12]));
    assert_eq!(device_type_of(dev.drive(OneCall::start(0xff, 0x0005, 2, None), OneCall::step)), Ok("steering wheel"));
    let dev = Fake::new(0xff).feature(0x0005, 3).answer(3, 2, &[], Ok(&[40]));
    assert_eq!(device_type_of(dev.drive(OneCall::start(0xff, 0x0005, 2, None), OneCall::step)), Ok("device"));
}

#[test]
fn onboard_profile_calls() {
    let dev = Fake::new(1).feature(0x8100, 9).answer(9, 2, &[], Ok(&[1])).answer(9, 11, &[], Ok(&[2])).answer(9, 12, &[3], Ok(&[]));
    assert_eq!(first_byte_of(dev.drive(OneCall::start(1, 0x8100, 2, None), OneCall::step)).ok(), Some(1));
    assert_eq!(first_byte_of(dev.drive(OneCall::start(1, 0x8100, 11, None), OneCall::step)), Ok(2));
    assert_eq!(unit_of(dev.drive(OneCall::start(1, 0x8100, 12, Some(3)), OneCall::step)), Ok(()));
    let dev = Fake::new(1);
    assert_eq!(first_byte_of(dev.drive(OneCall::start(1, 0x8100, 2, None), OneCall::step)).ok(), None);
    assert_eq!(first_byte_of(dev.drive(OneCall::start(1, 0x8100, 11, None), OneCall::step)), Err(HidppError::NoFeature(0x8100)));
}

/// The X2 range stream, split over replies of 13 stream bytes (parameters 3..16).
const X2_RANGES: &[u8] = &[
    0x00, 0x64, 0xe0, 0x01, 0x00, 0xc8, 0xe0, 0x02, 0x01, 0xf4, 0xe0, 0x05, 0x03, 0xe8, 0xe0, 0x0a, 0x07, 0xd0, 0xe0, 0x14,
    0x13, 0x88, 0xe0, 0x32, 0x27, 0x10, 0xe0, 0x64, 0x4e, 0x20, 0xe0, 0x7d, 0x7d, 0x00, 0xe0, 0xc8, 0xab, 0xe0, 0x00, 0x00,
];

fn range_reply(k: usize) -> Vec<u8> {
    let mut p = vec![0, 0, k as u8];
    let chunk: Vec<u8> = X2_RANGES.iter().copied().skip(13 * k).take(13).collect();
    p.extend(chunk);
    p
}

#[test]
fn dpi_extended() {
    let r0 = range_reply(0);
    let r1 = range_reply(1);
    let r2 = range_reply(2);
    let r3 = range_reply(3);
    let dev = Fake::new(1)
        .feature(0x2202, 8)
        .answer(8, 5, &[0], Ok(&[0, 0x06, 0x40, 0x03, 0x20, 0, 0, 0, 0, 2]))
        .answer(8, 2, &[0, 0, 0], Ok(&r0))
        .answer(8, 2, &[0, 0, 1], Ok(&r1))
        .answer(8, 2, &[0, 0, 2], Ok(&r2))
        .answer(8, 2, &[0, 0, 3], Ok(&r3))
        .answer(8, 3, &[0, 0], Ok(&[0, 0, 0x03, 0x20, 0x06, 0x40, 0x0c, 0x80, 0, 0, 0x19, 0]));
    let d = dev.drive(DpiQuery::start(1), DpiQuery::step).unwrap();
    assert_eq!((d.current, d.default, d.lod), (1600, 800, 2));
    assert_eq!(d.segments.len(), 9);
    assert_eq!(d.segments[0], DpiSegment { from: 100, to: 200, step: 1 });
    assert_eq!(d.segments[8], DpiSegment { from: 32000, to: 44000, step: 200 });
    assert_eq!(d.presets, vec![800, 1600, 3200]);
    // lookup, parameters, four range replies (the fourth ends the stream), presets
    assert_eq!(dev.asked(), 7);
}

#[test]
fn dpi_extended_stops_after_eight_ranges_and_tolerates_failures() {
    let mut dev = Fake::new(1).feature(0x2202, 8).answer(8, 5, &[0], Ok(&[0, 0x03, 0x20]));
    let mut stream = Vec::new();
    for k in 0..8u8 {
        let chunk: Vec<u8> = (0..13u8).map(|i| 0x10 + k + i).collect();
        let mut reply = vec![0, 0, k];
        reply.extend(&chunk);
        stream.extend(&chunk);
        dev = dev.answer(8, 2, &[0, 0, k], Ok(&reply));
    }
    let d = dev.drive(DpiQuery::start(1), DpiQuery::step).unwrap();
    assert_eq!(d.presets, Vec::<u16>::new());
    assert_eq!(d.segments, mouseutility::dpi::parse_dpi_list(&stream));
    assert!(!d.segments.is_empty());
    // lookup, parameters, eight ranges, presets (failing)
    assert_eq!(dev.asked(), 11);
    let dev = Fake::new(1).feature(0x2202, 8).answer(8, 5, &[0], Ok(&[0, 0x03, 0x20]));
    let d = dev.drive(DpiQuery::start(1), DpiQuery::step).unwrap();
    assert_eq!(d.current, 800);
    assert!(d.segments.is_empty());
}

#[test]
fn dpi_adjustable() {
    let dev = Fake::new(1)
        .feature(0x2201, 4)
        .answer(4, 2, &[0], Ok(&[0, 0x06, 0x40, 0x03, 0x20]))
        .answer(4, 1, &[0], Ok(&[0, 0x03, 0x20, 0x06, 0x40, 0x0c, 0x80, 0, 0]));
    let d = dev.drive(DpiQuery::start(1), DpiQuery::step).unwrap();
    assert_eq!((d.current, d.default, d.lod), (1600, 800, 0));
    assert_eq!(d.segments.len(), 3);
    assert!(d.presets.is_empty());
    let dev = Fake::new(1);
    assert_eq!(dev.drive(DpiQuery::start(1), DpiQuery::step).unwrap_err(), HidppError::NoFeature(0x2201));
}

#[test]
fn report_rate_extended() {
    let dev = Fake::new(1).feature(0x8061, 10).answer(10, 2, &[1], Ok(&[3])).answer(10, 1, &[1], Ok(&[1, 0b0111_1000]));
    let r = dev.drive(RateQuery::start(1), RateQuery::step).unwrap();
    assert_eq!((r.hz, r.supported), (1000, vec![1000, 2000, 4000, 8000]));
    // the wireless link failing falls back to the wired one; a failing mask lists nothing
    let dev = Fake::new(1).feature(0x8061, 10).answer(10, 2, &[0], Ok(&[2]));
    let r = dev.drive(RateQuery::start(1), RateQuery::step).unwrap();
    assert_eq!((r.hz, r.supported), (500, vec![]));
    let dev = Fake::new(1).feature(0x8061, 10);
    assert_eq!(dev.drive(RateQuery::start(1), RateQuery::step).unwrap_err(), HidppError::V2(0x07));
}

#[test]
fn report_rate_legacy() {
    let dev = Fake::new(1).feature(0x8060, 11).answer(11, 0, &[], Ok(&[0b1000_1011])).answer(11, 1, &[], Ok(&[2]));
    let r = dev.drive(RateQuery::start(1), RateQuery::step).unwrap();
    assert_eq!((r.hz, r.supported), (500, vec![1000, 500, 250, 125]));
    let dev = Fake::new(1).feature(0x8060, 11).answer(11, 0, &[], Ok(&[1])).answer(11, 1, &[], Ok(&[0]));
    assert_eq!(dev.drive(RateQuery::start(1), RateQuery::step).unwrap().hz, 0);
    let dev = Fake::new(1);
    assert_eq!(dev.drive(RateQuery::start(1), RateQuery::step).unwrap_err(), HidppError::NoFeature(0x8060));
}

#[test]
fn set_dpi_writes() {
    let dpi = Dpi { lod: 2, ..Default::default() };
    let dev = Fake::new(1).feature(0x2202, 8).answer(8, 6, &[0, 0x06, 0x40, 0x06, 0x40, 2], Ok(&[]));
    assert_eq!(dev.drive(SetDpiQuery::start(1, &dpi, 1600), SetDpiQuery::step), Ok(()));
    let dev = Fake::new(1).feature(0x2201, 4).answer(4, 3, &[0, 0x03, 0x20], Ok(&[]));
    assert_eq!(dev.drive(SetDpiQuery::start(1, &dpi, 800), SetDpiQuery::step), Ok(()));
    let dev = Fake::new(1).feature(0x2202, 8).answer(8, 6, &[0, 0x06, 0x41, 0x06, 0x41, 2], Err(HidppError::V2(2)));
    assert_eq!(dev.drive(SetDpiQuery::start(1, &dpi, 1601), SetDpiQuery::step), Err(HidppError::V2(2)));
    let dev = Fake::new(1);
    assert_eq!(dev.drive(SetDpiQuery::start(1, &dpi, 800), SetDpiQuery::step), Err(HidppError::NoFeature(0x2201)));
}

#[test]
fn set_report_rate_writes() {
    let dev = Fake::new(1).feature(0x8061, 10).answer(10, 3, &[6], Ok(&[]));
    assert_eq!(dev.drive(SetRateQuery::start(1, 8000), SetRateQuery::step), Ok(()));
    let dev = Fake::new(1).feature(0x8061, 10);
    assert_eq!(dev.drive(SetRateQuery::start(1, 333), SetRateQuery::step), Err(HidppError::V2(0x02)));
    assert_eq!(dev.asked(), 1);
    let dev = Fake::new(1).feature(0x8060, 11).answer(11, 2, &[2], Ok(&[]));
    assert_eq!(dev.drive(SetRateQuery::start(1, 500), SetRateQuery::step), Ok(()));
    // held to 1..=8 ms
    let dev = Fake::new(1).feature(0x8060, 11).answer(11, 2, &[8], Ok(&[])).answer(11, 2, &[1], Ok(&[]));
    assert_eq!(dev.drive(SetRateQuery::start(1, 10), SetRateQuery::step), Ok(()));
    assert_eq!(dev.drive(SetRateQuery::start(1, 0), SetRateQuery::step), Ok(()));
    assert_eq!(dev.drive(SetRateQuery::start(1, 4000), SetRateQuery::step), Ok(()));
}
