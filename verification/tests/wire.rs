use mouseutility::error::HidppError;
use mouseutility::report::{match_reply, pick_collection, reply_params, Collection, Request};

#[test]
fn feature_request_report() {
    let r = Request::Feature { idx: 1, feat: 0x05, func: 1, params: vec![0x10, 0x20] };
    let bytes = r.report();
    assert_eq!(bytes.len(), 20);
    assert_eq!(&bytes[..6], &[0x11, 0x01, 0x05, 0x1a, 0x10, 0x20]);
    assert!(bytes[6..].iter().all(|&b| b == 0));
    assert_eq!(r.key(), (1, 0x05, 0x1a));
}

#[test]
fn function_byte_keeps_low_nibble_of_function() {
    let r = Request::Feature { idx: 2, feat: 0x07, func: 12, params: vec![] };
    assert_eq!(r.report()[3], 0xca);
    let r = Request::Feature { idx: 2, feat: 0x07, func: 0x1f, params: vec![] };
    assert_eq!(r.report()[3], 0xfa);
}

#[test]
fn register_request_report() {
    let r = Request::Register { sub: 0x83, reg: 0xb5, params: vec![0x21] };
    assert_eq!(r.report(), vec![0x10, 0xff, 0x83, 0xb5, 0x21, 0, 0]);
    assert_eq!(r.key(), (0xff, 0x83, 0xb5));
}

#[test]
fn collection_choice() {
    assert_eq!(pick_collection(0x10, true, true), Some(Collection::Short));
    assert_eq!(pick_collection(0x10, false, true), Some(Collection::Long));
    assert_eq!(pick_collection(0x11, true, true), Some(Collection::Long));
    assert_eq!(pick_collection(0x11, true, false), Some(Collection::Short));
    assert_eq!(pick_collection(0x11, false, false), None);
    assert_eq!(pick_collection(0x10, false, false), None);
}

fn buf(bytes: &[u8]) -> [u8; 64] {
    let mut b = [0u8; 64];
    b[..bytes.len()].copy_from_slice(bytes);
    b
}

#[test]
fn reply_matching() {
    let key = (1, 0x05, 0x1a);
    // a reply
    let b = buf(&[0x11, 0x01, 0x05, 0x1a, 9, 8, 7]);
    assert_eq!(match_reply(&b, 20, key), Some(Ok(b[..20].to_vec())));
    // HID++ 1.0 error
    let b = buf(&[0x10, 0x01, 0x8f, 0x05, 0x1a, 0x08, 0]);
    assert_eq!(match_reply(&b, 7, key), Some(Err(HidppError::V1(0x08))));
    // HID++ 2.0 error
    let b = buf(&[0x11, 0x01, 0xff, 0x05, 0x1a, 0x02]);
    assert_eq!(match_reply(&b, 20, key), Some(Err(HidppError::V2(0x02))));
    // another device, a notification, a short read
    assert_eq!(match_reply(&buf(&[0x11, 0x02, 0x05, 0x1a]), 20, key), None);
    assert_eq!(match_reply(&buf(&[0x11, 0x01, 0x41, 0x04]), 20, key), None);
    assert_eq!(match_reply(&buf(&[0x11, 0x01, 0x05, 0x1a]), 3, key), None);
}

#[test]
fn params_of_replies() {
    let mut r: Vec<u8> = vec![0x11, 1, 2, 3];
    r.extend(1..=16u8);
    assert_eq!(reply_params(&r), (1..=16u8).collect::<Vec<_>>());
    // short reports are zero-padded, long ones cut at 20 bytes
    assert_eq!(reply_params(&vec![0x10, 0xff, 0x81, 0x00, 5, 6, 7]), {
        let mut v = vec![5, 6, 7];
        v.resize(16, 0);
        v
    });
    let mut long = r.clone();
    long.extend([99, 99, 99]);
    assert_eq!(reply_params(&long), (1..=16u8).collect::<Vec<_>>());
    assert_eq!(reply_params(&vec![1, 2]), vec![0; 16]);
}

#[test]
fn error_messages() {
    assert_eq!(HidppError::Hid("device gone".to_string()).message(), "hid: device gone");
    assert_eq!(HidppError::Timeout.message(), "no reply");
    assert_eq!(HidppError::V1(0x08).message(), "hid++ 1.0 error 0x08");
    assert_eq!(HidppError::V2(0x2a).message(), "hid++ 2.0 error 0x2a");
    assert_eq!(HidppError::NoFeature(0x1000).message(), "feature 0x1000 not supported");
    assert_eq!(HidppError::NoFeature(0x2202).message(), "feature 0x2202 not supported");
}
