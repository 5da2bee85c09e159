//! Errors of a HID++ exchange.

use vstd::prelude::*;
use crate::text::{hex_chars, hex_fixed, string_from_chars};

verus! {

#[derive(Debug, Clone, PartialEq, Eq)]
pub enum HidppError {
    /// The HID layer failed; its message.
    Hid(String),
    /// No reply.
    Timeout,
    /// HID++ 1.0 error code from the receiver (0x08 = device offline).
    V1(u8),
    /// HID++ 2.0 error code from the device.
    V2(u8),
    /// The device lacks the feature.
    NoFeature(u16),
}

pub type Result<T> = core::result::Result<T, HidppError>;

/// The text an error is shown as.
pub open spec fn error_text(e: HidppError) -> Seq<char> {
    match e {
        HidppError::Hid(m) => "hid: "@ + m@,
        HidppError::Timeout => "no reply"@,
        HidppError::V1(c) => "hid++ 1.0 error 0x"@ + hex_fixed(c as nat, 2),
        HidppError::V2(c) => "hid++ 2.0 error 0x"@ + hex_fixed(c as nat, 2),
        HidppError::NoFeature(f) => "feature 0x"@ + hex_fixed(f as nat, 4) + " not supported"@,
    }
}

impl HidppError {
    /// The error as text: "hid: ..", "no reply", "hid++ 1.0 error 0x08",
    /// "hid++ 2.0 error 0x02", "feature 0x1000 not supported".
    pub fn message(&self) -> (s: String)
        ensures
            s@ == error_text(*self),
    {
        match self {
            HidppError::Hid(m) => {
                let mut s = String::from_str("hid: ");
                s.append(m.as_str());
                s
            },
            HidppError::Timeout => String::from_str("no reply"),
            HidppError::V1(c) => {
                let mut s = String::from_str("hid++ 1.0 error 0x");
                let h = string_from_chars(&hex_chars(*c as u64, 2));
                s.append(h.as_str());
                s
            },
            HidppError::V2(c) => {
                let mut s = String::from_str("hid++ 2.0 error 0x");
                let h = string_from_chars(&hex_chars(*c as u64, 2));
                s.append(h.as_str());
                s
            },
            HidppError::NoFeature(f) => {
                let mut s = String::from_str("feature 0x");
                let h = string_from_chars(&hex_chars(*f as u64, 4));
                s.append(h.as_str());
                s.append(" not supported");
                s
            },
        }
    }
}

} // verus!
