//! Probing a device and listing what a receiver has paired, as state machines
//! over the same requests and replies as the single queries.

use vstd::prelude::*;
use crate::device::{
    device_type_label, fresh_device, pairing_entry, paired_name_of, decode_paired_name,
    decode_pairing, text_view, Device, DeviceView, Receiver, Transport,
};
use crate::error::{error_text, HidppError};
use crate::query::{
    battery_budget, battery_next, device_type_of, device_type_result, dpi_budget, dpi_next,
    lookup, name_budget, name_next, one_call_budget, one_call_next, ping_call, ping_outcome,
    ping_request, ping_result, rate_budget, rate_next, result_view, shrinks, step_view,
    BatteryQuery, DpiQuery, DpiQueryView, NameQuery, NameView, OneCall, RateQuery, Reply, Step,
    StepView,
};
use crate::report::{request_fits, Request, RequestView, DIRECT_INDEX};

verus! {

// ---------------------------------------------------------------------------
// Probe
// ---------------------------------------------------------------------------

/// Which question a probe is at.
pub enum ProbeStage {
    Ping,
    Name(NameQuery),
    Battery(BatteryQuery),
    Dpi(DpiQuery),
    Rate(RateQuery),
    Onboard(OneCall),
}

pub enum ProbeStageView {
    Ping,
    Name(NameView),
    Battery(BatteryQuery),
    Dpi(DpiQueryView),
    Rate(RateQuery),
    Onboard(OneCall),
}

/// Refresh the live fields of one device: ping it; when it answers, read its
/// name, battery, DPI, report rate and onboard mode, each left empty when its
/// query fails.
pub struct Probe {
    pub device: Device,
    pub stage: ProbeStage,
}

pub struct ProbeView {
    pub device: DeviceView,
    pub stage: ProbeStageView,
}

impl View for Probe {
    type V = ProbeView;

    open spec fn view(&self) -> ProbeView {
        ProbeView {
            device: self.device@,
            stage: match self.stage {
                ProbeStage::Ping => ProbeStageView::Ping,
                ProbeStage::Name(q) => ProbeStageView::Name(q@),
                ProbeStage::Battery(q) => ProbeStageView::Battery(q),
                ProbeStage::Dpi(q) => ProbeStageView::Dpi(q@),
                ProbeStage::Rate(q) => ProbeStageView::Rate(q),
                ProbeStage::Onboard(q) => ProbeStageView::Onboard(q),
            },
        }
    }
}

/// The onboard-profiles mode question: 0x8100 fn 2.
pub open spec fn onboard_query(idx: u8) -> OneCall {
    OneCall::Find { idx, feature: 0x8100, func: 2, arg: None }
}

pub open spec fn probe_budget(p: ProbeView) -> nat {
    match p.stage {
        ProbeStageView::Ping => 284,
        ProbeStageView::Name(q) => name_budget(q) + 25,
        ProbeStageView::Battery(q) => battery_budget(q) + 19,
        ProbeStageView::Dpi(q) => dpi_budget(q) + 7,
        ProbeStageView::Rate(q) => rate_budget(q) + 2,
        ProbeStageView::Onboard(q) => one_call_budget(q),
    }
}

/// `Some` of a success, `None` of a failure.
pub open spec fn ok_of<T, E>(r: core::result::Result<T, E>) -> Option<T> {
    match r {
        Ok(t) => Some(t),
        Err(_) => None,
    }
}

/// The onboard mode a finished 0x8100 fn 2 call gives: its first byte, none on failure.
pub open spec fn onboard_mode_result(r: core::result::Result<Seq<u8>, HidppError>) -> Option<u8> {
    match r {
        Ok(p) => Some(p[0]),
        Err(_) => None,
    }
}

pub open spec fn probe_next(p: ProbeView, reply: Reply) -> StepView<ProbeView, DeviceView> {
    let d = p.device;
    let idx = d.index;
    match p.stage {
        ProbeStageView::Ping => match ping_result(reply) {
            Ok(Some(v)) => StepView::Ask(
                ProbeView {
                    device: DeviceView { online: true, protocol: Some(v), error: None, ..d },
                    stage: ProbeStageView::Name(NameView::Find { idx }),
                },
                lookup(idx, 0x0005),
            ),
            Ok(None) => StepView::Done(DeviceView { online: false, protocol: None, battery: None, ..d }),
            Err(e) => StepView::Done(DeviceView { online: false, error: Some(error_text(e)), ..d }),
        },
        ProbeStageView::Name(q) => match name_next(q, reply) {
            StepView::Ask(q2, r) => StepView::Ask(ProbeView { device: d, stage: ProbeStageView::Name(q2) }, r),
            StepView::Done(res) => StepView::Ask(
                ProbeView {
                    device: DeviceView { name: ok_of(res), ..d },
                    stage: ProbeStageView::Battery(BatteryQuery::FindUnified { idx }),
                },
                lookup(idx, 0x1004),
            ),
        },
        ProbeStageView::Battery(q) => match battery_next(q, reply) {
            StepView::Ask(q2, r) => StepView::Ask(ProbeView { device: d, stage: ProbeStageView::Battery(q2) }, r),
            StepView::Done(res) => StepView::Ask(
                ProbeView {
                    device: DeviceView { battery: ok_of(res), ..d },
                    stage: ProbeStageView::Dpi(DpiQueryView::FindExtended { idx }),
                },
                lookup(idx, 0x2202),
            ),
        },
        ProbeStageView::Dpi(q) => match dpi_next(q, reply) {
            StepView::Ask(q2, r) => StepView::Ask(ProbeView { device: d, stage: ProbeStageView::Dpi(q2) }, r),
            StepView::Done(res) => StepView::Ask(
                ProbeView {
                    device: DeviceView { dpi: ok_of(res), ..d },
                    stage: ProbeStageView::Rate(RateQuery::FindExtended { idx }),
                },
                lookup(idx, 0x8061),
            ),
        },
        ProbeStageView::Rate(q) => match rate_next(q, reply) {
            StepView::Ask(q2, r) => StepView::Ask(ProbeView { device: d, stage: ProbeStageView::Rate(q2) }, r),
            StepView::Done(res) => StepView::Ask(
                ProbeView {
                    device: DeviceView { report_rate: ok_of(res), ..d },
                    stage: ProbeStageView::Onboard(onboard_query(idx)),
                },
                lookup(idx, 0x8100),
            ),
        },
        ProbeStageView::Onboard(q) => match one_call_next(q, reply) {
            StepView::Ask(q2, r) => StepView::Ask(ProbeView { device: d, stage: ProbeStageView::Onboard(q2) }, r),
            StepView::Done(res) => StepView::Done(DeviceView { onboard_mode: onboard_mode_result(res), ..d }),
        },
    }
}

pub open spec fn probe_step_view(s: Step<Probe, Device>) -> StepView<ProbeView, DeviceView> {
    step_view(s, |d: Device| d@)
}

fn ok_or_none<T>(r: core::result::Result<T, HidppError>) -> (o: Option<T>)
    ensures
        o == ok_of(r),
{
    match r {
        Ok(t) => Some(t),
        Err(_) => None,
    }
}

impl Probe {
    pub fn start(device: Device) -> (s: Step<Probe, Device>)
        ensures
            probe_step_view(s) == StepView::<ProbeView, DeviceView>::Ask(
                ProbeView { device: device@, stage: ProbeStageView::Ping },
                ping_call(device.index),
            ),
            s matches Step::Ask(_, r) ==> request_fits(r),
    {
        let r = ping_request(device.index);
        Step::Ask(Probe { device, stage: ProbeStage::Ping }, r)
    }

    pub fn step(self, reply: Reply) -> (s: Step<Probe, Device>)
        ensures
            probe_step_view(s) == probe_next(self@, reply),
            shrinks(probe_step_view(s), |q| probe_budget(q), probe_budget(self@)),
            s matches Step::Ask(_, r) ==> request_fits(r),
    {
        let mut d = self.device;
        let idx = d.index;
        match self.stage {
            ProbeStage::Ping => match ping_outcome(&reply) {
                Ok(Some(v)) => {
                    d.online = true;
                    d.protocol = Some(v);
                    d.error = None;
                    match NameQuery::start(idx) {
                        Step::Ask(q, r) => Step::Ask(Probe { device: d, stage: ProbeStage::Name(q) }, r),
                        Step::Done(_) => Step::Done(d),
                    }
                },
                Ok(None) => {
                    d.online = false;
                    d.protocol = None;
                    d.battery = None;
                    Step::Done(d)
                },
                Err(e) => {
                    d.online = false;
                    d.error = Some(e.message());
                    Step::Done(d)
                },
            },
            ProbeStage::Name(q) => match q.step(reply) {
                Step::Ask(q2, r) => Step::Ask(Probe { device: d, stage: ProbeStage::Name(q2) }, r),
                Step::Done(res) => {
                    d.name = ok_or_none(res);
                    match BatteryQuery::start(idx) {
                        Step::Ask(q, r) => Step::Ask(Probe { device: d, stage: ProbeStage::Battery(q) }, r),
                        Step::Done(_) => Step::Done(d),
                    }
                },
            },
            ProbeStage::Battery(q) => match q.step(reply) {
                Step::Ask(q2, r) => Step::Ask(Probe { device: d, stage: ProbeStage::Battery(q2) }, r),
                Step::Done(res) => {
                    d.battery = ok_or_none(res);
                    match DpiQuery::start(idx) {
                        Step::Ask(q, r) => Step::Ask(Probe { device: d, stage: ProbeStage::Dpi(q) }, r),
                        Step::Done(_) => Step::Done(d),
                    }
                },
            },
            ProbeStage::Dpi(q) => match q.step(reply) {
                Step::Ask(q2, r) => Step::Ask(Probe { device: d, stage: ProbeStage::Dpi(q2) }, r),
                Step::Done(res) => {
                    d.dpi = ok_or_none(res);
                    match RateQuery::start(idx) {
                        Step::Ask(q, r) => Step::Ask(Probe { device: d, stage: ProbeStage::Rate(q) }, r),
                        Step::Done(_) => Step::Done(d),
                    }
                },
            },
            ProbeStage::Rate(q) => match q.step(reply) {
                Step::Ask(q2, r) => Step::Ask(Probe { device: d, stage: ProbeStage::Rate(q2) }, r),
                Step::Done(res) => {
                    d.report_rate = ok_or_none(res);
                    match OneCall::start(idx, 0x8100, 2, None) {
                        Step::Ask(q, r) => Step::Ask(Probe { device: d, stage: ProbeStage::Onboard(q) }, r),
                        Step::Done(_) => Step::Done(d),
                    }
                },
            },
            ProbeStage::Onboard(q) => match q.step(reply) {
                Step::Ask(q2, r) => Step::Ask(Probe { device: d, stage: ProbeStage::Onboard(q2) }, r),
                Step::Done(res) => {
                    d.onboard_mode = match res {
                        Ok(p) => Some(p[0]),
                        Err(_) => None,
                    };
                    Step::Done(d)
                },
            },
        }
    }
}

// ---------------------------------------------------------------------------
// Listing a receiver's devices
// ---------------------------------------------------------------------------

/// HID++ 1.0 long register read (0x83) of the pairing information register
/// 0xB5 with `sel` (0x20|n: entry of slot n, 0x40|n: its name).
pub open spec fn pairing_read(sel: u8) -> RequestView {
    RequestView::Register { sub: 0x83, reg: 0xb5, params: seq![sel] }
}

fn pairing_request(sel: u8) -> (r: Request)
    ensures
        r@ == pairing_read(sel),
        request_fits(r),
{
    let mut params: Vec<u8> = Vec::new();
    params.push(sel);
    Request::Register { sub: 0x83, reg: 0xb5, params }
}

/// Where a listing stands.
pub enum ScanStage {
    /// Probing a direct device.
    DirectProbe(Probe),
    /// Asking an online direct device for its type.
    DirectType { device: Device, query: OneCall },
    /// Reading the pairing entry of a slot (0..6).
    Entry { slot: u8 },
    /// Reading the pairing name of a slot whose entry was read.
    Name { slot: u8, wpid: u16, kind: &'static str },
    /// Probing the device of a slot.
    SlotProbe { slot: u8, probe: Probe },
}

/// List the devices of a receiver entry: for a receiver, each of the six
/// pairing slots that holds an entry (slot n is device index n+1), with its
/// paired name, probed; for a direct device, the device itself, probed, its
/// kind read from getDeviceType when it is online.
pub struct DeviceScan {
    pub found: Vec<Device>,
    pub stage: ScanStage,
}

pub enum ScanStageView {
    DirectProbe(ProbeView),
    DirectType { device: DeviceView, query: OneCall },
    Entry { slot: u8 },
    Name { slot: u8, wpid: u16, kind: &'static str },
    SlotProbe { slot: u8, probe: ProbeView },
}

pub struct DeviceScanView {
    pub found: Seq<DeviceView>,
    pub stage: ScanStageView,
}

pub open spec fn devices_view(v: Seq<Device>) -> Seq<DeviceView> {
    v.map_values(|d: Device| d@)
}

impl View for DeviceScan {
    type V = DeviceScanView;

    open spec fn view(&self) -> DeviceScanView {
        DeviceScanView {
            found: devices_view(self.found@),
            stage: match self.stage {
                ScanStage::DirectProbe(p) => ScanStageView::DirectProbe(p@),
                ScanStage::DirectType { device, query } => ScanStageView::DirectType { device: device@, query },
                ScanStage::Entry { slot } => ScanStageView::Entry { slot },
                ScanStage::Name { slot, wpid, kind } => ScanStageView::Name { slot, wpid, kind },
                ScanStage::SlotProbe { slot, probe } => ScanStageView::SlotProbe { slot, probe: probe@ },
            },
        }
    }
}

/// Slots after `slot`, each worth an entry read, a name read and a probe.
pub open spec fn slots_after(slot: u8) -> nat {
    if slot < 6 { (5 - slot) as nat } else { 0 }
}

pub open spec fn scan_budget(s: DeviceScanView) -> nat {
    match s.stage {
        ScanStageView::DirectProbe(p) => probe_budget(p) + 2,
        ScanStageView::DirectType { query, .. } => one_call_budget(query),
        ScanStageView::Entry { slot } => if slot < 6 { (6 - slot) as nat * 287 } else { 1 },
        ScanStageView::Name { slot, .. } => slots_after(slot) * 287 + 286,
        ScanStageView::SlotProbe { slot, probe } => slots_after(slot) * 287 + probe_budget(probe),
    }
}

/// After a slot: read the next slot's entry, or finish after the sixth.
pub open spec fn next_slot(found: Seq<DeviceView>, slot: u8) -> StepView<DeviceScanView, Seq<DeviceView>> {
    if slot < 5 {
        StepView::Ask(
            DeviceScanView { found, stage: ScanStageView::Entry { slot: (slot + 1) as u8 } },
            pairing_read((0x20 + slot + 1) as u8),
        )
    } else {
        StepView::Done(found)
    }
}

/// The kind a direct device's type reply gives, "device" when it fails.
pub open spec fn direct_kind(r: core::result::Result<Seq<u8>, HidppError>) -> &'static str {
    match device_type_result(r) {
        Ok(k) => k,
        Err(_) => "device",
    }
}

/// The device index of pairing slot `slot`.
pub open spec fn slot_index(slot: u8) -> u8 {
    if slot < 255 { (slot + 1) as u8 } else { 0 }
}

/// A pairing slot's device as listed from its entry and name reply.
pub open spec fn slot_device(d: DeviceView, slot: u8, wpid: u16, kind: &'static str, reply: Reply) -> bool {
    &&& d.index == slot_index(slot)
    &&& d.paired_name == paired_name_of(reply)
    &&& d.wpid == wpid
    &&& d.kind == kind
    &&& !d.online
    &&& d.protocol is None
    &&& d.name is None
    &&& d.battery is None
    &&& d.dpi is None
    &&& d.report_rate is None
    &&& d.onboard_mode is None
    &&& d.error is None
}

pub open spec fn getdevicetype_query() -> OneCall {
    OneCall::Find { idx: DIRECT_INDEX, feature: 0x0005, func: 2, arg: None }
}

/// How a listing goes on after a reply. For a name reply the new probe's
/// device is described by `slot_device` (its paired name decoded from the reply).
pub open spec fn scan_next_ok(s: DeviceScanView, reply: Reply, next: StepView<DeviceScanView, Seq<DeviceView>>) -> bool {
    let found = s.found;
    match s.stage {
        ScanStageView::DirectProbe(p) => match probe_next(p, reply) {
            StepView::Ask(p2, r) => next == StepView::<DeviceScanView, Seq<DeviceView>>::Ask(
                DeviceScanView { found, stage: ScanStageView::DirectProbe(p2) },
                r,
            ),
            StepView::Done(d) => if d.online {
                next == StepView::<DeviceScanView, Seq<DeviceView>>::Ask(
                    DeviceScanView { found, stage: ScanStageView::DirectType { device: d, query: getdevicetype_query() } },
                    lookup(DIRECT_INDEX, 0x0005),
                )
            } else {
                next == StepView::<DeviceScanView, Seq<DeviceView>>::Done(found.push(d))
            },
        },
        ScanStageView::DirectType { device, query } => match one_call_next(query, reply) {
            StepView::Ask(q2, r) => next == StepView::<DeviceScanView, Seq<DeviceView>>::Ask(
                DeviceScanView { found, stage: ScanStageView::DirectType { device, query: q2 } },
                r,
            ),
            StepView::Done(res) => next == StepView::<DeviceScanView, Seq<DeviceView>>::Done(
                found.push(DeviceView { kind: direct_kind(res), ..device }),
            ),
        },
        ScanStageView::Entry { slot } => if slot >= 6 {
            next == StepView::<DeviceScanView, Seq<DeviceView>>::Done(found)
        } else {
            match reply {
                Ok(info) => match pairing_entry(info@) {
                    Some((wpid, kind)) => next == StepView::<DeviceScanView, Seq<DeviceView>>::Ask(
                        DeviceScanView { found, stage: ScanStageView::Name { slot, wpid, kind } },
                        pairing_read((0x40 + slot) as u8),
                    ),
                    None => next == next_slot(found, slot),
                },
                Err(_) => next == next_slot(found, slot),
            }
        },
        ScanStageView::Name { slot, wpid, kind } => {
            &&& next matches StepView::Ask(ns, r)
            &&& ns.found == found
            &&& ns.stage matches ScanStageView::SlotProbe { slot: s2, probe }
            &&& s2 == slot
            &&& probe.stage == ProbeStageView::Ping
            &&& slot_device(probe.device, slot, wpid, kind, reply)
            &&& r == ping_call(slot_index(slot))
        },
        ScanStageView::SlotProbe { slot, probe } => match probe_next(probe, reply) {
            StepView::Ask(p2, r) => next == StepView::<DeviceScanView, Seq<DeviceView>>::Ask(
                DeviceScanView { found, stage: ScanStageView::SlotProbe { slot, probe: p2 } },
                r,
            ),
            StepView::Done(d) => next == next_slot(found.push(d), slot),
        },
    }
}

pub open spec fn scan_step_view(s: Step<DeviceScan, Vec<Device>>) -> StepView<DeviceScanView, Seq<DeviceView>> {
    step_view(s, |v: Vec<Device>| devices_view(v@))
}

proof fn lemma_push_view(v: Seq<Device>, d: Device)
    ensures
        devices_view(v.push(d)) == devices_view(v).push(d@),
{
    assert(devices_view(v.push(d)) =~= devices_view(v).push(d@));
}

proof fn lemma_probe_budget_bound(p: ProbeView)
    ensures
        1 <= probe_budget(p) <= 284,
{
}

impl DeviceScan {
    fn after_slot(found: Vec<Device>, slot: u8) -> (s: Step<DeviceScan, Vec<Device>>)
        requires
            slot < 6,
        ensures
            scan_step_view(s) == next_slot(devices_view(found@), slot),
            s matches Step::Ask(_, r) ==> request_fits(r),
    {
        if slot < 5 {
            let r = pairing_request(0x20 + slot + 1);
            Step::Ask(DeviceScan { found, stage: ScanStage::Entry { slot: slot + 1 } }, r)
        } else {
            Step::Done(found)
        }
    }

    pub fn start(receiver: &Receiver) -> (s: Step<DeviceScan, Vec<Device>>)
        ensures
            receiver.transport != Transport::Receiver ==> (s matches Step::Ask(q, r) && q@.found
                == Seq::<DeviceView>::empty() && (q@.stage matches ScanStageView::DirectProbe(p)
                && p.stage == ProbeStageView::Ping && p.device.index == DIRECT_INDEX
                && p.device.paired_name == receiver.product@ && p.device.wpid == receiver.pid
                && p.device.kind == "device" && !p.device.online && p.device.protocol is None
                && p.device.name is None && p.device.battery is None && p.device.dpi is None
                && p.device.report_rate is None && p.device.onboard_mode is None
                && p.device.error is None) && r@ == ping_call(DIRECT_INDEX)),
            receiver.transport == Transport::Receiver ==> scan_step_view(s) == StepView::<
                DeviceScanView,
                Seq<DeviceView>,
            >::Ask(
                DeviceScanView { found: Seq::empty(), stage: ScanStageView::Entry { slot: 0 } },
                pairing_read(0x20),
            ),
            s matches Step::Ask(_, r) ==> request_fits(r),
    {
        let found: Vec<Device> = Vec::new();
        assert(devices_view(found@) =~= Seq::<DeviceView>::empty());
        if receiver.transport != Transport::Receiver {
            let d = receiver.direct_device();
            match Probe::start(d) {
                Step::Ask(p, r) => Step::Ask(DeviceScan { found, stage: ScanStage::DirectProbe(p) }, r),
                Step::Done(d) => Step::Done(found),
            }
        } else {
            Step::Ask(DeviceScan { found, stage: ScanStage::Entry { slot: 0 } }, pairing_request(0x20))
        }
    }

    pub fn step(self, reply: Reply) -> (s: Step<DeviceScan, Vec<Device>>)
        ensures
            scan_next_ok(self@, reply, scan_step_view(s)),
            shrinks(scan_step_view(s), |q| scan_budget(q), scan_budget(self@)),
            s matches Step::Ask(_, r) ==> request_fits(r),
    {
        let mut found = self.found;
        let ghost fv = devices_view(found@);
        match self.stage {
            ScanStage::DirectProbe(p) => {
                proof {
                    lemma_probe_budget_bound(p@);
                }
                match p.step(reply) {
                    Step::Ask(p2, r) => Step::Ask(DeviceScan { found, stage: ScanStage::DirectProbe(p2) }, r),
                    Step::Done(d) => {
                        if d.online {
                            match OneCall::start(DIRECT_INDEX, 0x0005, 2, None) {
                                Step::Ask(q, r) => Step::Ask(
                                    DeviceScan { found, stage: ScanStage::DirectType { device: d, query: q } },
                                    r,
                                ),
                                Step::Done(_) => Step::Done(found),
                            }
                        } else {
                            proof {
                                lemma_push_view(found@, d);
                            }
                            found.push(d);
                            Step::Done(found)
                        }
                    },
                }
            },
            ScanStage::DirectType { device, query } => match query.step(reply) {
                Step::Ask(q2, r) => Step::Ask(
                    DeviceScan { found, stage: ScanStage::DirectType { device, query: q2 } },
                    r,
                ),
                Step::Done(res) => {
                    let mut d = device;
                    d.kind = match device_type_of(res) {
                        Ok(k) => k,
                        Err(_) => "device",
                    };
                    proof {
                        lemma_push_view(found@, d);
                    }
                    found.push(d);
                    Step::Done(found)
                },
            },
            ScanStage::Entry { slot } => {
                if slot >= 6 {
                    return Step::Done(found);
                }
                let entry = match &reply {
                    Ok(info) => decode_pairing(info),
                    Err(_) => None,
                };
                match entry {
                    Some((wpid, kind)) => Step::Ask(
                        DeviceScan { found, stage: ScanStage::Name { slot, wpid, kind } },
                        pairing_request(0x40 + slot),
                    ),
                    None => DeviceScan::after_slot(found, slot),
                }
            },
            ScanStage::Name { slot, wpid, kind } => {
                let name = decode_paired_name(&reply);
                let index: u8 = if slot < 255 { slot + 1 } else { 0 };
                let d = Device::listed(index, name, wpid, kind);
                match Probe::start(d) {
                    Step::Ask(p, r) => Step::Ask(DeviceScan { found, stage: ScanStage::SlotProbe { slot, probe: p } }, r),
                    Step::Done(_) => Step::Done(found),
                }
            },
            ScanStage::SlotProbe { slot, probe } => {
                proof {
                    lemma_probe_budget_bound(probe@);
                }
                match probe.step(reply) {
                    Step::Ask(p2, r) => Step::Ask(DeviceScan { found, stage: ScanStage::SlotProbe { slot, probe: p2 } }, r),
                    Step::Done(d) => {
                        proof {
                            lemma_push_view(found@, d);
                        }
                        found.push(d);
                        if slot < 6 {
                            DeviceScan::after_slot(found, slot)
                        } else {
                            Step::Done(found)
                        }
                    },
                }
            },
        }
    }
}


/// A paired device that is asleep or switched off answers the ping with
/// HID++ 1.0 error 0x08 (or 0x09, or not at all): the probe reports it
/// offline, forgets its protocol and battery, and records no failure.
pub proof fn law_asleep_device_is_offline(p: ProbeView, code: u8, timed_out: bool)
    requires
        p.stage == ProbeStageView::Ping,
        code == 0x08 || code == 0x09,
    ensures
        ({
            let reply: Reply = if timed_out { Err(HidppError::Timeout) } else { Err(HidppError::V1(code)) };
            probe_next(p, reply) == StepView::<ProbeView, DeviceView>::Done(
                DeviceView { online: false, protocol: None, battery: None, ..p.device },
            )
        }),
{
}

/// Any other failed ping is a failure: the device is offline and the error's text is recorded.
pub proof fn law_failed_ping_is_recorded(p: ProbeView, e: HidppError)
    requires
        p.stage == ProbeStageView::Ping,
        !(e is Timeout),
        !(e matches HidppError::V1(c) && (c == 0x08 || c == 0x09)),
    ensures
        probe_next(p, Err(e)) == StepView::<ProbeView, DeviceView>::Done(
            DeviceView { online: false, error: Some(error_text(e)), ..p.device },
        ),
{
}

/// A device whose pairing entry was read stays listed whatever its probe
/// finds, offline ones included: the finished probe's device joins the list.
pub proof fn law_probed_slot_is_listed(s: DeviceScanView, reply: Reply, next: StepView<DeviceScanView, Seq<DeviceView>>)
    requires
        s.stage matches ScanStageView::SlotProbe { slot, probe } && slot < 6,
        scan_next_ok(s, reply, next),
        probe_next(s.stage->probe, reply) is Done,
    ensures
        match next {
            StepView::Ask(ns, _) => ns.found == s.found.push(probe_next(s.stage->probe, reply)->Done_0),
            StepView::Done(found) => found == s.found.push(probe_next(s.stage->probe, reply)->Done_0),
        },
{
}


/// The slot a receiver scan is at, -1 for a direct device.
pub open spec fn scan_slot(st: ScanStageView) -> int {
    match st {
        ScanStageView::Entry { slot } => slot as int,
        ScanStageView::Name { slot, .. } => slot as int,
        ScanStageView::SlotProbe { slot, .. } => slot as int,
        _ => -1,
    }
}

/// A receiver scan reads every pairing slot 0..=5: it finishes only at the
/// sixth slot (index 5), and whenever it moves on to another slot it is to
/// the next one, whose entry register (0x20 + slot) it reads at once.
pub proof fn law_scan_reads_every_slot(s: DeviceScanView, reply: Reply, next: StepView<DeviceScanView, Seq<DeviceView>>)
    requires
        0 <= scan_slot(s.stage) < 6,
        scan_next_ok(s, reply, next),
    ensures
        next is Done ==> scan_slot(s.stage) == 5,
        next matches StepView::Ask(ns, r) ==> (scan_slot(ns.stage) == scan_slot(s.stage) || (
        scan_slot(s.stage) < 5 && ns.stage == ScanStageView::Entry { slot: (scan_slot(s.stage) + 1) as u8 }
            && r == pairing_read((0x20 + scan_slot(s.stage) + 1) as u8))),
{
}


/// A probe asks, in this order, the name (0x0005), the battery (0x1004
/// first), the DPI (0x2202 first), the report rate (0x8061 first) and the
/// onboard mode (0x8100) of a device that answered the ping; each finished
/// question sets only its own field (empty when it failed), and the probe
/// ends after the onboard mode.
pub proof fn law_probe_order(p: ProbeView, reply: Reply)
    ensures
        ({
            let d = p.device;
            let idx = d.index;
            match p.stage {
                ProbeStageView::Ping => ping_result(reply) matches Ok(Some(v)) ==> (probe_next(p, reply) matches StepView::Ask(p2, r)
                    && r == lookup(idx, 0x0005) && p2.device.online && p2.device.protocol == Some(v)
                    && p2.device.error is None && p2.device.name == d.name && p2.device.battery == d.battery),
                ProbeStageView::Name(q) => name_next(q, reply) matches StepView::Done(res) ==> (probe_next(p, reply) matches StepView::Ask(p2, r)
                    && r == lookup(idx, 0x1004) && p2.device == (DeviceView { name: match res { Ok(n) => Some(n), Err(_) => None }, ..d })),
                ProbeStageView::Battery(q) => battery_next(q, reply) matches StepView::Done(res) ==> (probe_next(p, reply) matches StepView::Ask(p2, r)
                    && r == lookup(idx, 0x2202) && p2.device == (DeviceView { battery: match res { Ok(b) => Some(b), Err(_) => None }, ..d })),
                ProbeStageView::Dpi(q) => dpi_next(q, reply) matches StepView::Done(res) ==> (probe_next(p, reply) matches StepView::Ask(p2, r)
                    && r == lookup(idx, 0x8061) && p2.device == (DeviceView { dpi: match res { Ok(x) => Some(x), Err(_) => None }, ..d })),
                ProbeStageView::Rate(q) => rate_next(q, reply) matches StepView::Done(res) ==> (probe_next(p, reply) matches StepView::Ask(p2, r)
                    && r == lookup(idx, 0x8100) && p2.device == (DeviceView { report_rate: match res { Ok(x) => Some(x), Err(_) => None }, ..d })),
                ProbeStageView::Onboard(q) => one_call_next(q, reply) matches StepView::Done(res) ==> probe_next(p, reply) == StepView::<ProbeView, DeviceView>::Done(
                    DeviceView { onboard_mode: match res { Ok(b) => Some(b[0]), Err(_) => None }, ..d }),
            }
        }),
{
}

/// A directly attached device is listed once: probed; when it answered, its
/// kind is read with getDeviceType (0x0005 function 2 at index 0xFF) and is
/// "device" when that fails; an offline one is listed as the probe left it.
pub proof fn law_direct_device(s: DeviceScanView, reply: Reply, next: StepView<DeviceScanView, Seq<DeviceView>>)
    requires
        scan_next_ok(s, reply, next),
    ensures
        s.stage matches ScanStageView::DirectProbe(p) ==> (probe_next(p, reply) matches StepView::Done(d) ==> (
            d.online ==> (next matches StepView::Ask(ns, r) && r == lookup(0xff, 0x0005) && ns.found == s.found)) && (
            !d.online ==> next == StepView::<DeviceScanView, Seq<DeviceView>>::Done(s.found.push(d)))),
        s.stage matches ScanStageView::DirectType { device, query } ==> (one_call_next(query, reply) matches StepView::Done(res)
            ==> next == StepView::<DeviceScanView, Seq<DeviceView>>::Done(s.found.push(
            DeviceView { kind: match res { Ok(p) => device_type_label(p[0]), Err(_) => "device" }, ..device },
        ))),
        getdevicetype_query() == (OneCall::Find { idx: 0xff, feature: 0x0005, func: 2, arg: None }),
{
}

} // verus!
