//! Logitech HID++ decoding and the decisions of a terminal mouse utility.

pub mod app_state;
pub mod battery;
pub mod device;
pub mod dialog;
pub mod dpi;
pub mod error;
pub mod interfaces;
pub mod labels;
pub mod panel;
pub mod query;
pub mod rate;
pub mod report;
pub mod scan;
pub mod text;
