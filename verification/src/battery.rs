//! Battery replies: 0x1004 unified battery, 0x1000 battery status and
//! 0x1001 battery voltage.

use vstd::prelude::*;

verus! {

#[derive(Debug, Clone, Copy, PartialEq, Eq, Structural)]
pub enum ChargeState {
    Discharging,
    Charging,
    Full,
    Unknown,
}

#[derive(Debug, Clone, Copy, PartialEq, Eq, Structural)]
pub struct Battery {
    pub percent: Option<u8>,
    pub millivolts: Option<u16>,
    pub status: ChargeState,
}

/// Charging state byte of 0x1004 getStatus.
pub open spec fn unified_state(b: u8) -> ChargeState {
    if b == 0 { ChargeState::Discharging }
    else if b == 1 || b == 2 { ChargeState::Charging }
    else if b == 3 { ChargeState::Full }
    else { ChargeState::Unknown }
}

/// Charging state byte of 0x1000 getBatteryLevelStatus.
pub open spec fn status_state(b: u8) -> ChargeState {
    if b == 0 { ChargeState::Discharging }
    else if b == 1 || b == 2 || b == 4 || b == 5 { ChargeState::Charging }
    else if b == 3 { ChargeState::Full }
    else { ChargeState::Unknown }
}

/// Battery of a 0x1004 reply: percentage in byte 0, state in byte 2.
pub open spec fn unified_battery(p: Seq<u8>) -> Battery {
    Battery { percent: Some(p[0]), millivolts: None, status: unified_state(p[2]) }
}

/// Battery of a 0x1000 reply: percentage in byte 0, state in byte 2.
pub open spec fn status_battery(p: Seq<u8>) -> Battery {
    Battery { percent: Some(p[0]), millivolts: None, status: status_state(p[2]) }
}

/// Battery of a 0x1001 reply: big-endian millivolts in bytes 0-1, charging
/// when bit 7 of byte 2 is set.
pub open spec fn voltage_battery(p: Seq<u8>) -> Battery {
    Battery {
        percent: None,
        millivolts: Some((p[0] as int * 256 + p[1] as int) as u16),
        status: if p[2] >= 0x80 { ChargeState::Charging } else { ChargeState::Discharging },
    }
}

pub fn decode_unified(p: &Vec<u8>) -> (b: Battery)
    requires
        p@.len() == 16,
    ensures
        b == unified_battery(p@),
{
    let status = match p[2] {
        0 => ChargeState::Discharging,
        1 | 2 => ChargeState::Charging,
        3 => ChargeState::Full,
        _ => ChargeState::Unknown,
    };
    Battery { percent: Some(p[0]), millivolts: None, status }
}

pub fn decode_status(p: &Vec<u8>) -> (b: Battery)
    requires
        p@.len() == 16,
    ensures
        b == status_battery(p@),
{
    let status = match p[2] {
        0 => ChargeState::Discharging,
        1 | 2 | 4 | 5 => ChargeState::Charging,
        3 => ChargeState::Full,
        _ => ChargeState::Unknown,
    };
    Battery { percent: Some(p[0]), millivolts: None, status }
}

pub fn decode_voltage(p: &Vec<u8>) -> (b: Battery)
    requires
        p@.len() == 16,
    ensures
        b == voltage_battery(p@),
{
    let mv: u16 = (p[0] as u16) * 256 + (p[1] as u16);
    let status = if p[2] >= 0x80 { ChargeState::Charging } else { ChargeState::Discharging };
    Battery { percent: None, millivolts: Some(mv), status }
}


/// A 0x1004 unified-battery reply: the percentage is byte 0; state byte 0
/// is discharging, 1 and 2 charging, 3 full, anything else unknown.
pub proof fn law_unified_reply(p: Seq<u8>)
    requires
        p.len() >= 3,
    ensures
        unified_battery(p).percent == Some(p[0]),
        unified_battery(p).millivolts is None,
        p[2] == 0 ==> unified_battery(p).status == ChargeState::Discharging,
        p[2] == 1 ==> unified_battery(p).status == ChargeState::Charging,
        p[2] == 2 ==> unified_battery(p).status == ChargeState::Charging,
        p[2] == 3 ==> unified_battery(p).status == ChargeState::Full,
        p[2] >= 4 ==> unified_battery(p).status == ChargeState::Unknown,
{
}

/// A 0x1000 battery-status reply: the percentage is byte 0; state byte 0 is
/// discharging, 1, 2, 4 and 5 charging, 3 full, anything else unknown.
pub proof fn law_status_reply(p: Seq<u8>)
    requires
        p.len() >= 3,
    ensures
        status_battery(p).percent == Some(p[0]),
        status_battery(p).millivolts is None,
        p[2] == 0 ==> status_battery(p).status == ChargeState::Discharging,
        (p[2] == 1 || p[2] == 2 || p[2] == 4 || p[2] == 5) ==> status_battery(p).status == ChargeState::Charging,
        p[2] == 3 ==> status_battery(p).status == ChargeState::Full,
        p[2] >= 6 ==> status_battery(p).status == ChargeState::Unknown,
{
}

/// A 0x1001 voltage reply: big-endian millivolts in bytes 0 and 1, no
/// percentage, charging exactly when bit 7 of byte 2 is set.
pub proof fn law_voltage_reply(p: Seq<u8>)
    requires
        p.len() >= 3,
    ensures
        voltage_battery(p).percent is None,
        voltage_battery(p).millivolts == Some((p[0] as int * 256 + p[1] as int) as u16),
        p[2] >= 0x80 ==> voltage_battery(p).status == ChargeState::Charging,
        p[2] < 0x80 ==> voltage_battery(p).status == ChargeState::Discharging,
{
}

} // verus!
