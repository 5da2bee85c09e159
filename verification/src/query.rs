//! The HID++ 2.0 queries a device answers, as state machines.
//!
//! Each query says which request to send next (`Step::Ask`) or what it
//! found (`Step::Done`); whoever owns the HID handles sends the request and
//! feeds the raw reply back into `step`. Every step that asks again lowers
//! the query's budget, so each query ends after a bounded number of requests.

use vstd::prelude::*;
use crate::battery::{
    decode_status, decode_unified, decode_voltage, status_battery, unified_battery,
    voltage_battery, Battery,
};
use crate::device::{device_type_label, device_type_name};
use crate::dpi::{dpi_list, parse_dpi_list, Dpi, DpiView};
use crate::error::HidppError;
use crate::rate::{
    code_for_hz, ext_rate_code, ext_rate_hz, ext_supported, legacy_hz, legacy_interval,
    legacy_interval_hz, legacy_ms, legacy_supported, rate_code_hz, rates_of_bits, ReportRate,
    ReportRateView,
};
use crate::text::{
    lossy_utf8, string_from_chars, trim_chars, trim_trailing_nuls, trimmed, utf8_lossy_chars,
    without_trailing_nuls,
};
use crate::report::{params_of, reply_params, request_fits, Request, RequestView};

verus! {

/// A raw reply: the report that answered, or why none did.
pub type Reply = core::result::Result<Vec<u8>, HidppError>;

/// What a query does next.
pub enum Step<Q, T> {
    /// Send the request, then feed its reply to the new state.
    Ask(Q, Request),
    /// The query is over.
    Done(T),
}

pub enum StepView<Q, T> {
    Ask(Q, RequestView),
    Done(T),
}

/// A step with its state and request seen through their views and its result through `f`.
pub open spec fn step_view<Q: View, T, U>(s: Step<Q, T>, f: spec_fn(T) -> U) -> StepView<Q::V, U> {
    match s {
        Step::Ask(q, r) => StepView::Ask(q@, r@),
        Step::Done(t) => StepView::Done(f(t)),
    }
}

/// A result seen through the view of its success value.
pub open spec fn result_view<T: View>(r: core::result::Result<T, HidppError>) -> core::result::Result<T::V, HidppError> {
    match r {
        Ok(t) => Ok(t@),
        Err(e) => Err(e),
    }
}

/// A step asks again only with a smaller budget.
pub open spec fn shrinks<Q, U>(s: StepView<Q, U>, budget: spec_fn(Q) -> nat, before: nat) -> bool {
    s matches StepView::Ask(q, _) ==> budget(q) < before
}

/// HID++ 2.0 call of function `func` of feature index `feat` on device `idx`.
pub open spec fn call(idx: u8, feat: u8, func: u8, params: Seq<u8>) -> RequestView {
    RequestView::Feature { idx, feat, func, params }
}

/// Root feature (index 0) function 0: the index of `feature`.
pub open spec fn lookup(idx: u8, feature: u16) -> RequestView {
    call(idx, 0, 0, seq![(feature / 256) as u8, (feature % 256) as u8])
}

/// The parameter bytes of a reply, or its error.
pub open spec fn reply_params_of(reply: Reply) -> core::result::Result<Seq<u8>, HidppError> {
    match reply {
        Ok(r) => Ok(params_of(r@)),
        Err(e) => Err(e),
    }
}

/// The feature index a lookup reply gives: index 0 means the feature is absent.
pub open spec fn found_index(feature: u16, reply: Reply) -> core::result::Result<u8, HidppError> {
    match reply {
        Ok(r) => if params_of(r@)[0] == 0 {
            Err(HidppError::NoFeature(feature))
        } else {
            Ok(params_of(r@)[0])
        },
        Err(e) => Err(e),
    }
}

fn feature_call(idx: u8, feat: u8, func: u8, params: Vec<u8>) -> (r: Request)
    ensures
        r@ == call(idx, feat, func, params@),
{
    Request::Feature { idx, feat, func, params }
}

fn no_params() -> (v: Vec<u8>)
    ensures
        v@ == Seq::<u8>::empty(),
{
    Vec::new()
}

fn one_param(a: u8) -> (v: Vec<u8>)
    ensures
        v@ == seq![a],
{
    let mut v = Vec::new();
    v.push(a);
    v
}

fn two_params(a: u8, b: u8) -> (v: Vec<u8>)
    ensures
        v@ == seq![a, b],
{
    let mut v = Vec::new();
    v.push(a);
    v.push(b);
    v
}

fn three_params(a: u8, b: u8, c: u8) -> (v: Vec<u8>)
    ensures
        v@ == seq![a, b, c],
{
    let mut v = Vec::new();
    v.push(a);
    v.push(b);
    v.push(c);
    v
}

/// The request that looks up `feature` on device `idx`.
pub fn lookup_request(idx: u8, feature: u16) -> (r: Request)
    ensures
        r@ == lookup(idx, feature),
        request_fits(r),
{
    feature_call(idx, 0, 0, two_params((feature / 256) as u8, (feature % 256) as u8))
}

/// Root.getFeature: the index of `feature`, `NoFeature` when the device answers 0.
pub fn feature_index_from(feature: u16, reply: &Reply) -> (f: core::result::Result<u8, HidppError>)
    ensures
        f == found_index(feature, *reply),
{
    match reply {
        Ok(r) => {
            let p = reply_params(r);
            if p[0] == 0 {
                Err(HidppError::NoFeature(feature))
            } else {
                Ok(p[0])
            }
        },
        Err(e) => Err(e.clone_error()),
    }
}

impl HidppError {
    /// A copy of the error.
    pub fn clone_error(&self) -> (e: HidppError)
        ensures
            e == *self,
    {
        match self {
            HidppError::Hid(m) => HidppError::Hid(m.clone()),
            HidppError::Timeout => HidppError::Timeout,
            HidppError::V1(c) => HidppError::V1(*c),
            HidppError::V2(c) => HidppError::V2(*c),
            HidppError::NoFeature(f) => HidppError::NoFeature(*f),
        }
    }
}

/// The parameter bytes of a feature reply.
pub fn params_from(reply: &Reply) -> (p: core::result::Result<Vec<u8>, HidppError>)
    ensures
        result_view(p) == reply_params_of(*reply),
        p matches Ok(v) ==> v@.len() == 16,
{
    match reply {
        Ok(r) => Ok(reply_params(r)),
        Err(e) => Err(e.clone_error()),
    }
}

// ---------------------------------------------------------------------------
// Ping
// ---------------------------------------------------------------------------

/// Root.getProtocolVersion (root fn 1) with the ping byte 0x55.
pub open spec fn ping_call(idx: u8) -> RequestView {
    call(idx, 0, 1, seq![0u8, 0u8, 0x55u8])
}

pub fn ping_request(idx: u8) -> (r: Request)
    ensures
        r@ == ping_call(idx),
        request_fits(r),
{
    feature_call(idx, 0, 1, three_params(0, 0, 0x55))
}

/// What a ping reply says: the protocol version (major, minor) of an online
/// device; `None` for a paired device that is asleep or off (HID++ 1.0 error
/// 0x08 or 0x09, or no reply); any other error stays an error.
pub open spec fn ping_result(reply: Reply) -> core::result::Result<Option<(u8, u8)>, HidppError> {
    match reply {
        Ok(r) => Ok(Some((params_of(r@)[0], params_of(r@)[1]))),
        Err(HidppError::V1(c)) => if c == 0x08 || c == 0x09 { Ok(None) } else { Err(HidppError::V1(c)) },
        Err(HidppError::Timeout) => Ok(None),
        Err(e) => Err(e),
    }
}

pub fn ping_outcome(reply: &Reply) -> (o: core::result::Result<Option<(u8, u8)>, HidppError>)
    ensures
        o == ping_result(*reply),
{
    match reply {
        Ok(r) => {
            let p = reply_params(r);
            Ok(Some((p[0], p[1])))
        },
        Err(HidppError::V1(c)) => if *c == 0x08 || *c == 0x09 {
            Ok(None)
        } else {
            Err(HidppError::V1(*c))
        },
        Err(HidppError::Timeout) => Ok(None),
        Err(e) => Err(e.clone_error()),
    }
}

// ---------------------------------------------------------------------------
// One feature function
// ---------------------------------------------------------------------------

/// Look a feature up, then call one of its functions: the base of
/// getDeviceType, the onboard-profile getters and setCurrentDpiIndex.
#[derive(Debug, Clone, Copy, PartialEq, Eq, Structural)]
pub enum OneCall {
    Find { idx: u8, feature: u16, func: u8, arg: Option<u8> },
    Read,
}

impl View for OneCall {
    type V = OneCall;

    open spec fn view(&self) -> OneCall {
        *self
    }
}

pub open spec fn arg_params(arg: Option<u8>) -> Seq<u8> {
    match arg {
        Some(a) => seq![a],
        None => Seq::empty(),
    }
}

pub open spec fn one_call_budget(q: OneCall) -> nat {
    match q {
        OneCall::Find { .. } => 2,
        OneCall::Read => 1,
    }
}

pub open spec fn one_call_next(q: OneCall, reply: Reply) -> StepView<OneCall, core::result::Result<Seq<u8>, HidppError>> {
    match q {
        OneCall::Find { idx, feature, func, arg } => match found_index(feature, reply) {
            Ok(f) => StepView::Ask(OneCall::Read, call(idx, f, func, arg_params(arg))),
            Err(e) => StepView::Done(Err(e)),
        },
        OneCall::Read => StepView::Done(reply_params_of(reply)),
    }
}

impl OneCall {
    pub fn start(idx: u8, feature: u16, func: u8, arg: Option<u8>) -> (s: Step<OneCall, core::result::Result<Vec<u8>, HidppError>>)
        ensures
            step_view(s, |r| result_view(r)) == StepView::<OneCall, core::result::Result<Seq<u8>, HidppError>>::Ask(
                OneCall::Find { idx, feature, func, arg },
                lookup(idx, feature),
            ),
    {
        Step::Ask(OneCall::Find { idx, feature, func, arg }, lookup_request(idx, feature))
    }

    pub fn step(self, reply: Reply) -> (s: Step<OneCall, core::result::Result<Vec<u8>, HidppError>>)
        ensures
            step_view(s, |r| result_view(r)) == one_call_next(self, reply),
            shrinks(step_view(s, |r| result_view(r)), |q| one_call_budget(q), one_call_budget(self)),
            s matches Step::Ask(_, r) ==> request_fits(r),
            s matches Step::Done(Ok(p)) ==> p@.len() == 16,
    {
        match self {
            OneCall::Find { idx, feature, func, arg } => match feature_index_from(feature, &reply) {
                Ok(f) => {
                    let params = match arg {
                        Some(a) => one_param(a),
                        None => no_params(),
                    };
                    Step::Ask(OneCall::Read, feature_call(idx, f, func, params))
                },
                Err(e) => Step::Done(Err(e)),
            },
            OneCall::Read => Step::Done(params_from(&reply)),
        }
    }
}

/// getDeviceType: feature 0x0005, function 2.
pub open spec fn device_type_result(r: core::result::Result<Seq<u8>, HidppError>) -> core::result::Result<&'static str, HidppError> {
    match r {
        Ok(p) => Ok(device_type_label(p[0])),
        Err(e) => Err(e),
    }
}

pub fn device_type_of(r: core::result::Result<Vec<u8>, HidppError>) -> (t: core::result::Result<&'static str, HidppError>)
    requires
        r matches Ok(p) ==> p@.len() == 16,
    ensures
        t == device_type_result(result_view(r)),
{
    match r {
        Ok(p) => Ok(device_type_name(p[0])),
        Err(e) => Err(e),
    }
}

/// The first parameter byte of a successful call.
pub fn first_byte_of(r: core::result::Result<Vec<u8>, HidppError>) -> (b: core::result::Result<u8, HidppError>)
    requires
        r matches Ok(p) ==> p@.len() == 16,
    ensures
        match (b, result_view(r)) {
            (Ok(x), Ok(p)) => x == p[0],
            (Err(e), Err(f)) => e == f,
            _ => false,
        },
{
    match r {
        Ok(p) => Ok(p[0]),
        Err(e) => Err(e),
    }
}

/// Success of a call whose reply carries nothing.
pub fn unit_of(r: core::result::Result<Vec<u8>, HidppError>) -> (u: core::result::Result<(), HidppError>)
    ensures
        match (u, r) {
            (Ok(_), Ok(_)) => true,
            (Err(e), Err(f)) => e == f,
            _ => false,
        },
{
    match r {
        Ok(_) => Ok(()),
        Err(e) => Err(e),
    }
}

// ---------------------------------------------------------------------------
// Battery
// ---------------------------------------------------------------------------

/// Battery: 0x1004 unified battery (fn 1), else 0x1000 status (fn 0), else
/// 0x1001 voltage (fn 0); without any of them `NoFeature(0x1000)`. A failed
/// lookup falls through to the next feature; a failed read is the answer.
#[derive(Debug, Clone, Copy, PartialEq, Eq, Structural)]
pub enum BatteryQuery {
    FindUnified { idx: u8 },
    ReadUnified,
    FindStatus { idx: u8 },
    ReadStatus,
    FindVoltage { idx: u8 },
    ReadVoltage,
}

impl View for BatteryQuery {
    type V = BatteryQuery;

    open spec fn view(&self) -> BatteryQuery {
        *self
    }
}

pub open spec fn battery_budget(q: BatteryQuery) -> nat {
    match q {
        BatteryQuery::FindUnified { .. } => 6,
        BatteryQuery::FindStatus { .. } => 4,
        BatteryQuery::FindVoltage { .. } => 2,
        _ => 1,
    }
}

pub open spec fn battery_read(reply: Reply, decode: spec_fn(Seq<u8>) -> Battery) -> core::result::Result<Battery, HidppError> {
    match reply {
        Ok(r) => Ok(decode(params_of(r@))),
        Err(e) => Err(e),
    }
}

pub open spec fn battery_next(q: BatteryQuery, reply: Reply) -> StepView<BatteryQuery, core::result::Result<Battery, HidppError>> {
    match q {
        BatteryQuery::FindUnified { idx } => match found_index(0x1004, reply) {
            Ok(f) => StepView::Ask(BatteryQuery::ReadUnified, call(idx, f, 1, Seq::empty())),
            Err(_) => StepView::Ask(BatteryQuery::FindStatus { idx }, lookup(idx, 0x1000)),
        },
        BatteryQuery::ReadUnified => StepView::Done(battery_read(reply, |p| unified_battery(p))),
        BatteryQuery::FindStatus { idx } => match found_index(0x1000, reply) {
            Ok(f) => StepView::Ask(BatteryQuery::ReadStatus, call(idx, f, 0, Seq::empty())),
            Err(_) => StepView::Ask(BatteryQuery::FindVoltage { idx }, lookup(idx, 0x1001)),
        },
        BatteryQuery::ReadStatus => StepView::Done(battery_read(reply, |p| status_battery(p))),
        BatteryQuery::FindVoltage { idx } => match found_index(0x1001, reply) {
            Ok(f) => StepView::Ask(BatteryQuery::ReadVoltage, call(idx, f, 0, Seq::empty())),
            Err(_) => StepView::Done(Err(HidppError::NoFeature(0x1000))),
        },
        BatteryQuery::ReadVoltage => StepView::Done(battery_read(reply, |p| voltage_battery(p))),
    }
}

impl BatteryQuery {
    pub fn start(idx: u8) -> (s: Step<BatteryQuery, core::result::Result<Battery, HidppError>>)
        ensures
            step_view(s, |r| r) == StepView::<BatteryQuery, core::result::Result<Battery, HidppError>>::Ask(
                BatteryQuery::FindUnified { idx },
                lookup(idx, 0x1004),
            ),
    {
        Step::Ask(BatteryQuery::FindUnified { idx }, lookup_request(idx, 0x1004))
    }

    pub fn step(self, reply: Reply) -> (s: Step<BatteryQuery, core::result::Result<Battery, HidppError>>)
        ensures
            step_view(s, |r| r) == battery_next(self, reply),
            shrinks(step_view(s, |r| r), |q| battery_budget(q), battery_budget(self)),
            s matches Step::Ask(_, r) ==> request_fits(r),
    {
        match self {
            BatteryQuery::FindUnified { idx } => match feature_index_from(0x1004, &reply) {
                Ok(f) => Step::Ask(BatteryQuery::ReadUnified, feature_call(idx, f, 1, no_params())),
                Err(_) => Step::Ask(BatteryQuery::FindStatus { idx }, lookup_request(idx, 0x1000)),
            },
            BatteryQuery::FindStatus { idx } => match feature_index_from(0x1000, &reply) {
                Ok(f) => Step::Ask(BatteryQuery::ReadStatus, feature_call(idx, f, 0, no_params())),
                Err(_) => Step::Ask(BatteryQuery::FindVoltage { idx }, lookup_request(idx, 0x1001)),
            },
            BatteryQuery::FindVoltage { idx } => match feature_index_from(0x1001, &reply) {
                Ok(f) => Step::Ask(BatteryQuery::ReadVoltage, feature_call(idx, f, 0, no_params())),
                Err(_) => Step::Done(Err(HidppError::NoFeature(0x1000))),
            },
            BatteryQuery::ReadUnified => match reply {
                Ok(r) => Step::Done(Ok(decode_unified(&reply_params(&r)))),
                Err(e) => Step::Done(Err(e)),
            },
            BatteryQuery::ReadStatus => match reply {
                Ok(r) => Step::Done(Ok(decode_status(&reply_params(&r)))),
                Err(e) => Step::Done(Err(e)),
            },
            BatteryQuery::ReadVoltage => match reply {
                Ok(r) => Step::Done(Ok(decode_voltage(&reply_params(&r)))),
                Err(e) => Step::Done(Err(e)),
            },
        }
    }
}

// ---------------------------------------------------------------------------
// Device name
// ---------------------------------------------------------------------------

/// Device name (feature 0x0005): fn 0 gives the length, fn 1 with an offset
/// gives up to 16 further bytes.
pub enum NameQuery {
    Find { idx: u8 },
    Count { idx: u8, f: u8 },
    Read { idx: u8, f: u8, count: u8, name: Vec<u8> },
}

pub enum NameView {
    Find { idx: u8 },
    Count { idx: u8, f: u8 },
    Read { idx: u8, f: u8, count: u8, name: Seq<u8> },
}

impl View for NameQuery {
    type V = NameView;

    open spec fn view(&self) -> NameView {
        match self {
            NameQuery::Find { idx } => NameView::Find { idx: *idx },
            NameQuery::Count { idx, f } => NameView::Count { idx: *idx, f: *f },
            NameQuery::Read { idx, f, count, name } => NameView::Read {
                idx: *idx,
                f: *f,
                count: *count,
                name: name@,
            },
        }
    }
}

/// The name the bytes spell: decoded lossily, trailing NULs and surrounding
/// whitespace removed.
pub open spec fn name_text(name: Seq<u8>) -> Seq<char> {
    trimmed(without_trailing_nuls(lossy_utf8(name)))
}

/// How many bytes of the next 16 still belong to the name.
pub open spec fn chunk_take(count: u8, have: nat) -> int {
    if have < count {
        if count - have < 16 { count - have } else { 16 }
    } else {
        0
    }
}

pub open spec fn name_budget(q: NameView) -> nat {
    match q {
        NameView::Find { .. } => 258,
        NameView::Count { .. } => 257,
        NameView::Read { count, name, .. } => if name.len() < count { (count - name.len() + 1) as nat } else { 1 },
    }
}

pub open spec fn name_next(q: NameView, reply: Reply) -> StepView<NameView, core::result::Result<Seq<char>, HidppError>> {
    match q {
        NameView::Find { idx } => match found_index(0x0005, reply) {
            Ok(f) => StepView::Ask(NameView::Count { idx, f }, call(idx, f, 0, Seq::empty())),
            Err(e) => StepView::Done(Err(e)),
        },
        NameView::Count { idx, f } => match reply {
            Ok(r) => {
                let c = params_of(r@)[0];
                if c == 0 {
                    StepView::Done(Ok(name_text(Seq::empty())))
                } else {
                    StepView::Ask(NameView::Read { idx, f, count: c, name: Seq::empty() }, call(idx, f, 1, seq![0u8]))
                }
            },
            Err(e) => StepView::Done(Err(e)),
        },
        NameView::Read { idx, f, count, name } => match reply {
            Ok(r) => {
                let n2 = name + params_of(r@).take(chunk_take(count, name.len()));
                if n2.len() < count {
                    StepView::Ask(NameView::Read { idx, f, count, name: n2 }, call(idx, f, 1, seq![n2.len() as u8]))
                } else {
                    StepView::Done(Ok(name_text(n2)))
                }
            },
            Err(e) => StepView::Done(Err(e)),
        },
    }
}

fn name_string(name: &Vec<u8>) -> (s: String)
    ensures
        s@ == name_text(name@),
{
    let cs = utf8_lossy_chars(name.as_slice());
    let t = trim_trailing_nuls(&cs);
    let u = trim_chars(&t);
    string_from_chars(&u)
}


impl NameQuery {
    pub fn start(idx: u8) -> (s: Step<NameQuery, core::result::Result<String, HidppError>>)
        ensures
            step_view(s, |r| result_view(r)) == StepView::<NameView, core::result::Result<Seq<char>, HidppError>>::Ask(
                NameView::Find { idx },
                lookup(idx, 0x0005),
            ),
    {
        Step::Ask(NameQuery::Find { idx }, lookup_request(idx, 0x0005))
    }

    pub fn step(self, reply: Reply) -> (s: Step<NameQuery, core::result::Result<String, HidppError>>)
        ensures
            step_view(s, |r| result_view(r)) == name_next(self@, reply),
            shrinks(step_view(s, |r| result_view(r)), |q| name_budget(q), name_budget(self@)),
            s matches Step::Ask(_, r) ==> request_fits(r),
    {
        match self {
            NameQuery::Find { idx } => match feature_index_from(0x0005, &reply) {
                Ok(f) => Step::Ask(NameQuery::Count { idx, f }, feature_call(idx, f, 0, no_params())),
                Err(e) => Step::Done(Err(e)),
            },
            NameQuery::Count { idx, f } => match reply {
                Ok(r) => {
                    let c = reply_params(&r)[0];
                    if c == 0 {
                        let empty: Vec<u8> = Vec::new();
                        Step::Done(Ok(name_string(&empty)))
                    } else {
                        Step::Ask(
                            NameQuery::Read { idx, f, count: c, name: Vec::new() },
                            feature_call(idx, f, 1, one_param(0)),
                        )
                    }
                },
                Err(e) => Step::Done(Err(e)),
            },
            NameQuery::Read { idx, f, count, name } => match reply {
                Ok(r) => {
                    let p = reply_params(&r);
                    let have = name.len();
                    let take: usize = if have < count as usize {
                        if count as usize - have < 16 { count as usize - have } else { 16 }
                    } else {
                        0
                    };
                    let mut name = name;
                    let ghost old_name = name@;
                    let mut i: usize = 0;
                    while i < take
                        invariant
                            i <= take <= 16,
                            p@.len() == 16,
                            name@ == old_name + p@.take(i as int),
                        decreases take - i,
                    {
                        name.push(p[i]);
                        assert(p@.take(i + 1) =~= p@.take(i as int).push(p@[i as int]));
                        i = i + 1;
                    }
                    if name.len() < count as usize {
                        let at = name.len() as u8;
                        Step::Ask(NameQuery::Read { idx, f, count, name }, feature_call(idx, f, 1, one_param(at)))
                    } else {
                        Step::Done(Ok(name_string(&name)))
                    }
                },
                Err(e) => Step::Done(Err(e)),
            },
        }
    }
}

// ---------------------------------------------------------------------------
// DPI
// ---------------------------------------------------------------------------

/// A big-endian 16-bit value.
pub open spec fn be16(hi: u8, lo: u8) -> u16 {
    (hi as int * 256 + lo as int) as u16
}

fn be_u16(hi: u8, lo: u8) -> (v: u16)
    ensures
        v == be16(hi, lo),
{
    (hi as u16) * 256 + (lo as u16)
}

/// A range reply's 13 stream bytes (parameters 3..16) hold a `0x0000`
/// among their six complete pairs: the stream ends in this reply.
pub open spec fn ends_stream(chunk: Seq<u8>) -> bool {
    exists|i: int| 0 <= i < 6 && #[trigger] chunk[2 * i] == 0 && chunk[2 * i + 1] == 0
}

/// Index of the first zero at or after `i` (the length when none).
pub open spec fn first_zero(s: Seq<u16>, i: int) -> int
    decreases s.len() - i,
{
    if i < 0 || i >= s.len() {
        s.len() as int
    } else if s[i] == 0 {
        i
    } else {
        first_zero(s, i + 1)
    }
}

/// The seven big-endian values in parameters 2..16 of a preset reply.
pub open spec fn preset_words(p: Seq<u8>) -> Seq<u16> {
    Seq::new(7, |i: int| be16(p[2 + 2 * i], p[3 + 2 * i]))
}

/// The onboard DPI levels of a preset reply: its values up to the first zero.
pub open spec fn preset_levels(p: Seq<u8>) -> Seq<u16> {
    preset_words(p).take(first_zero(preset_words(p), 0))
}

/// DPI: 0x2202 Extended Adjustable DPI when present (fn 5 parameters,
/// fn 2 range stream over up to eight replies, fn 3 onboard levels),
/// else 0x2201 Adjustable DPI (fn 2 parameters, fn 1 list).
pub enum DpiQuery {
    FindExtended { idx: u8 },
    ExtParams { idx: u8, f: u8 },
    ExtRanges { idx: u8, f: u8, current: u16, default: u16, lod: u8, range: u8, stream: Vec<u8> },
    ExtPresets { current: u16, default: u16, lod: u8, stream: Vec<u8> },
    FindAdjustable { idx: u8 },
    AdjParams { idx: u8, f: u8 },
    AdjList { current: u16, default: u16 },
}

pub enum DpiQueryView {
    FindExtended { idx: u8 },
    ExtParams { idx: u8, f: u8 },
    ExtRanges { idx: u8, f: u8, current: u16, default: u16, lod: u8, range: u8, stream: Seq<u8> },
    ExtPresets { current: u16, default: u16, lod: u8, stream: Seq<u8> },
    FindAdjustable { idx: u8 },
    AdjParams { idx: u8, f: u8 },
    AdjList { current: u16, default: u16 },
}

impl View for DpiQuery {
    type V = DpiQueryView;

    open spec fn view(&self) -> DpiQueryView {
        match self {
            DpiQuery::FindExtended { idx } => DpiQueryView::FindExtended { idx: *idx },
            DpiQuery::ExtParams { idx, f } => DpiQueryView::ExtParams { idx: *idx, f: *f },
            DpiQuery::ExtRanges { idx, f, current, default, lod, range, stream } => DpiQueryView::ExtRanges {
                idx: *idx,
                f: *f,
                current: *current,
                default: *default,
                lod: *lod,
                range: *range,
                stream: stream@,
            },
            DpiQuery::ExtPresets { current, default, lod, stream } => DpiQueryView::ExtPresets {
                current: *current,
                default: *default,
                lod: *lod,
                stream: stream@,
            },
            DpiQuery::FindAdjustable { idx } => DpiQueryView::FindAdjustable { idx: *idx },
            DpiQuery::AdjParams { idx, f } => DpiQueryView::AdjParams { idx: *idx, f: *f },
            DpiQuery::AdjList { current, default } => DpiQueryView::AdjList {
                current: *current,
                default: *default,
            },
        }
    }
}

pub open spec fn dpi_budget(q: DpiQueryView) -> nat {
    match q {
        DpiQueryView::FindExtended { .. } => 12,
        DpiQueryView::ExtParams { .. } => 10,
        DpiQueryView::ExtRanges { range, .. } => if range < 8 { (9 - range) as nat } else { 2 },
        DpiQueryView::ExtPresets { .. } => 1,
        DpiQueryView::FindAdjustable { .. } => 3,
        DpiQueryView::AdjParams { .. } => 2,
        DpiQueryView::AdjList { .. } => 1,
    }
}

pub open spec fn dpi_next(q: DpiQueryView, reply: Reply) -> StepView<DpiQueryView, core::result::Result<DpiView, HidppError>> {
    match q {
        DpiQueryView::FindExtended { idx } => match found_index(0x2202, reply) {
            Ok(f) => StepView::Ask(DpiQueryView::ExtParams { idx, f }, call(idx, f, 5, seq![0u8])),
            Err(_) => StepView::Ask(DpiQueryView::FindAdjustable { idx }, lookup(idx, 0x2201)),
        },
        DpiQueryView::ExtParams { idx, f } => match reply {
            Ok(r) => {
                let p = params_of(r@);
                StepView::Ask(
                    DpiQueryView::ExtRanges {
                        idx,
                        f,
                        current: be16(p[1], p[2]),
                        default: be16(p[3], p[4]),
                        lod: p[9],
                        range: 0,
                        stream: Seq::empty(),
                    },
                    call(idx, f, 2, seq![0u8, 0u8, 0u8]),
                )
            },
            Err(e) => StepView::Done(Err(e)),
        },
        DpiQueryView::ExtRanges { idx, f, current, default, lod, range, stream } => match reply {
            Ok(r) => {
                let chunk = params_of(r@).subrange(3, 16);
                let s2 = stream + chunk;
                if ends_stream(chunk) || range >= 7 {
                    StepView::Ask(
                        DpiQueryView::ExtPresets { current, default, lod, stream: s2 },
                        call(idx, f, 3, seq![0u8, 0u8]),
                    )
                } else {
                    StepView::Ask(
                        DpiQueryView::ExtRanges { idx, f, current, default, lod, range: (range + 1) as u8, stream: s2 },
                        call(idx, f, 2, seq![0u8, 0u8, (range + 1) as u8]),
                    )
                }
            },
            Err(_) => StepView::Ask(
                DpiQueryView::ExtPresets { current, default, lod, stream },
                call(idx, f, 3, seq![0u8, 0u8]),
            ),
        },
        DpiQueryView::ExtPresets { current, default, lod, stream } => StepView::Done(
            Ok(DpiView {
                current,
                default,
                segments: dpi_list(stream),
                presets: match reply {
                    Ok(r) => preset_levels(params_of(r@)),
                    Err(_) => Seq::empty(),
                },
                lod,
            }),
        ),
        DpiQueryView::FindAdjustable { idx } => match found_index(0x2201, reply) {
            Ok(f) => StepView::Ask(DpiQueryView::AdjParams { idx, f }, call(idx, f, 2, seq![0u8])),
            Err(e) => StepView::Done(Err(e)),
        },
        DpiQueryView::AdjParams { idx, f } => match reply {
            Ok(r) => {
                let p = params_of(r@);
                StepView::Ask(
                    DpiQueryView::AdjList { current: be16(p[1], p[2]), default: be16(p[3], p[4]) },
                    call(idx, f, 1, seq![0u8]),
                )
            },
            Err(e) => StepView::Done(Err(e)),
        },
        DpiQueryView::AdjList { current, default } => match reply {
            Ok(r) => StepView::Done(
                Ok(DpiView {
                    current,
                    default,
                    segments: dpi_list(params_of(r@).subrange(1, 16)),
                    presets: Seq::empty(),
                    lod: 0,
                }),
            ),
            Err(e) => StepView::Done(Err(e)),
        },
    }
}

fn stream_ends(p: &Vec<u8>) -> (b: bool)
    requires
        p@.len() == 16,
    ensures
        b == ends_stream(p@.subrange(3, 16)),
{
    let ghost chunk = p@.subrange(3, 16);
    let mut i: usize = 0;
    while i < 6
        invariant
            i <= 6,
            p@.len() == 16,
            chunk == p@.subrange(3, 16),
            forall|j: int| 0 <= j < i ==> !(#[trigger] chunk[2 * j] == 0 && chunk[2 * j + 1] == 0),
        decreases 6 - i,
    {
        if p[3 + 2 * i] == 0 && p[4 + 2 * i] == 0 {
            assert(chunk[2 * i as int] == 0 && chunk[2 * i + 1] == 0);
            return true;
        }
        i = i + 1;
    }
    false
}

fn append_range(p: &Vec<u8>, from: usize, to: usize, out: &mut Vec<u8>)
    requires
        from <= to <= p@.len(),
    ensures
        final(out)@ == old(out)@ + p@.subrange(from as int, to as int),
{
    let mut i = from;
    while i < to
        invariant
            from <= i <= to <= p@.len(),
            out@ == old(out)@ + p@.subrange(from as int, i as int),
        decreases to - i,
    {
        out.push(p[i]);
        assert(p@.subrange(from as int, i + 1) =~= p@.subrange(from as int, i as int).push(p@[i as int]));
        i = i + 1;
    }
}

fn presets_of(p: &Vec<u8>) -> (v: Vec<u16>)
    requires
        p@.len() == 16,
    ensures
        v@ == preset_levels(p@),
{
    let ghost ws = preset_words(p@);
    let mut v: Vec<u16> = Vec::new();
    let mut i: usize = 0;
    while i < 7
        invariant
            i <= 7,
            p@.len() == 16,
            ws == preset_words(p@),
            v@ == ws.take(i as int),
            first_zero(ws, 0) == first_zero(ws, i as int),
        decreases 7 - i,
    {
        let w = be_u16(p[2 + 2 * i], p[3 + 2 * i]);
        assert(w == ws[i as int]);
        if w == 0 {
            return v;
        }
        v.push(w);
        assert(ws.take(i + 1) =~= ws.take(i as int).push(w));
        i = i + 1;
    }
    assert(ws.take(7) =~= ws);
    v
}


impl DpiQuery {
    pub fn start(idx: u8) -> (s: Step<DpiQuery, core::result::Result<Dpi, HidppError>>)
        ensures
            step_view(s, |r| result_view(r)) == StepView::<DpiQueryView, core::result::Result<DpiView, HidppError>>::Ask(
                DpiQueryView::FindExtended { idx },
                lookup(idx, 0x2202),
            ),
    {
        Step::Ask(DpiQuery::FindExtended { idx }, lookup_request(idx, 0x2202))
    }

    pub fn step(self, reply: Reply) -> (s: Step<DpiQuery, core::result::Result<Dpi, HidppError>>)
        ensures
            step_view(s, |r| result_view(r)) == dpi_next(self@, reply),
            shrinks(step_view(s, |r| result_view(r)), |q| dpi_budget(q), dpi_budget(self@)),
            s matches Step::Ask(_, r) ==> request_fits(r),
    {
        match self {
            DpiQuery::FindExtended { idx } => match feature_index_from(0x2202, &reply) {
                Ok(f) => Step::Ask(DpiQuery::ExtParams { idx, f }, feature_call(idx, f, 5, one_param(0))),
                Err(_) => Step::Ask(DpiQuery::FindAdjustable { idx }, lookup_request(idx, 0x2201)),
            },
            DpiQuery::ExtParams { idx, f } => match reply {
                Ok(r) => {
                    let p = reply_params(&r);
                    let current = be_u16(p[1], p[2]);
                    let default = be_u16(p[3], p[4]);
                    Step::Ask(
                        DpiQuery::ExtRanges { idx, f, current, default, lod: p[9], range: 0, stream: Vec::new() },
                        feature_call(idx, f, 2, three_params(0, 0, 0)),
                    )
                },
                Err(e) => Step::Done(Err(e)),
            },
            DpiQuery::ExtRanges { idx, f, current, default, lod, range, stream } => match reply {
                Ok(r) => {
                    let p = reply_params(&r);
                    let mut stream = stream;
                    append_range(&p, 3, 16, &mut stream);
                    if stream_ends(&p) || range >= 7 {
                        Step::Ask(
                            DpiQuery::ExtPresets { current, default, lod, stream },
                            feature_call(idx, f, 3, two_params(0, 0)),
                        )
                    } else {
                        Step::Ask(
                            DpiQuery::ExtRanges { idx, f, current, default, lod, range: range + 1, stream },
                            feature_call(idx, f, 2, three_params(0, 0, range + 1)),
                        )
                    }
                },
                Err(_) => Step::Ask(
                    DpiQuery::ExtPresets { current, default, lod, stream },
                    feature_call(idx, f, 3, two_params(0, 0)),
                ),
            },
            DpiQuery::ExtPresets { current, default, lod, stream } => {
                let presets = match reply {
                    Ok(r) => presets_of(&reply_params(&r)),
                    Err(_) => Vec::new(),
                };
                let segments = parse_dpi_list(stream.as_slice());
                Step::Done(Ok(Dpi { current, default, segments, presets, lod }))
            },
            DpiQuery::FindAdjustable { idx } => match feature_index_from(0x2201, &reply) {
                Ok(f) => Step::Ask(DpiQuery::AdjParams { idx, f }, feature_call(idx, f, 2, one_param(0))),
                Err(e) => Step::Done(Err(e)),
            },
            DpiQuery::AdjParams { idx, f } => match reply {
                Ok(r) => {
                    let p = reply_params(&r);
                    let current = be_u16(p[1], p[2]);
                    let default = be_u16(p[3], p[4]);
                    Step::Ask(DpiQuery::AdjList { current, default }, feature_call(idx, f, 1, one_param(0)))
                },
                Err(e) => Step::Done(Err(e)),
            },
            DpiQuery::AdjList { current, default } => match reply {
                Ok(r) => {
                    let p = reply_params(&r);
                    let mut list: Vec<u8> = Vec::new();
                    append_range(&p, 1, 16, &mut list);
                    let segments = parse_dpi_list(list.as_slice());
                    Step::Done(Ok(Dpi { current, default, segments, presets: Vec::new(), lod: 0 }))
                },
                Err(e) => Step::Done(Err(e)),
            },
        }
    }
}

// ---------------------------------------------------------------------------
// Report rate
// ---------------------------------------------------------------------------

/// Report rate: 0x8061 extended (fn 2 rate of the wireless link, connection
/// type 1, or of the wired link 0 as fallback; fn 1 supported codes of that
/// link, none when it fails), else 0x8060 (fn 0 supported intervals, fn 1 rate).
#[derive(Debug, Clone, Copy, PartialEq, Eq, Structural)]
pub enum RateQuery {
    FindExtended { idx: u8 },
    ExtWireless { idx: u8, f: u8 },
    ExtWired { idx: u8, f: u8 },
    ExtMask { code: u8 },
    FindLegacy { idx: u8 },
    LegacyMask { idx: u8, f: u8 },
    LegacyRate { mask: u8 },
}

impl View for RateQuery {
    type V = RateQuery;

    open spec fn view(&self) -> RateQuery {
        *self
    }
}

pub open spec fn rate_budget(q: RateQuery) -> nat {
    match q {
        RateQuery::FindExtended { .. } => 5,
        RateQuery::ExtWireless { .. } => 3,
        RateQuery::ExtWired { .. } => 2,
        RateQuery::ExtMask { .. } => 1,
        RateQuery::FindLegacy { .. } => 3,
        RateQuery::LegacyMask { .. } => 2,
        RateQuery::LegacyRate { .. } => 1,
    }
}

pub open spec fn rate_next(q: RateQuery, reply: Reply) -> StepView<RateQuery, core::result::Result<ReportRateView, HidppError>> {
    match q {
        RateQuery::FindExtended { idx } => match found_index(0x8061, reply) {
            Ok(f) => StepView::Ask(RateQuery::ExtWireless { idx, f }, call(idx, f, 2, seq![1u8])),
            Err(_) => StepView::Ask(RateQuery::FindLegacy { idx }, lookup(idx, 0x8060)),
        },
        RateQuery::ExtWireless { idx, f } => match reply {
            Ok(r) => StepView::Ask(RateQuery::ExtMask { code: params_of(r@)[0] }, call(idx, f, 1, seq![1u8])),
            Err(_) => StepView::Ask(RateQuery::ExtWired { idx, f }, call(idx, f, 2, seq![0u8])),
        },
        RateQuery::ExtWired { idx, f } => match reply {
            Ok(r) => StepView::Ask(RateQuery::ExtMask { code: params_of(r@)[0] }, call(idx, f, 1, seq![0u8])),
            Err(e) => StepView::Done(Err(e)),
        },
        RateQuery::ExtMask { code } => {
            let mask: u8 = match reply {
                Ok(r) => params_of(r@)[1],
                Err(_) => 0,
            };
            StepView::Done(Ok(ReportRateView { hz: rate_code_hz(code), supported: rates_of_bits(mask, 7, false) }))
        },
        RateQuery::FindLegacy { idx } => match found_index(0x8060, reply) {
            Ok(f) => StepView::Ask(RateQuery::LegacyMask { idx, f }, call(idx, f, 0, Seq::empty())),
            Err(e) => StepView::Done(Err(e)),
        },
        RateQuery::LegacyMask { idx, f } => match reply {
            Ok(r) => StepView::Ask(RateQuery::LegacyRate { mask: params_of(r@)[0] }, call(idx, f, 1, Seq::empty())),
            Err(e) => StepView::Done(Err(e)),
        },
        RateQuery::LegacyRate { mask } => match reply {
            Ok(r) => StepView::Done(
                Ok(ReportRateView {
                    hz: legacy_interval_hz(params_of(r@)[0]),
                    supported: rates_of_bits(mask, 8, true),
                }),
            ),
            Err(e) => StepView::Done(Err(e)),
        },
    }
}

impl RateQuery {
    pub fn start(idx: u8) -> (s: Step<RateQuery, core::result::Result<ReportRate, HidppError>>)
        ensures
            step_view(s, |r| result_view(r)) == StepView::<RateQuery, core::result::Result<ReportRateView, HidppError>>::Ask(
                RateQuery::FindExtended { idx },
                lookup(idx, 0x8061),
            ),
    {
        Step::Ask(RateQuery::FindExtended { idx }, lookup_request(idx, 0x8061))
    }

    pub fn step(self, reply: Reply) -> (s: Step<RateQuery, core::result::Result<ReportRate, HidppError>>)
        ensures
            step_view(s, |r| result_view(r)) == rate_next(self, reply),
            shrinks(step_view(s, |r| result_view(r)), |q| rate_budget(q), rate_budget(self)),
            s matches Step::Ask(_, r) ==> request_fits(r),
    {
        match self {
            RateQuery::FindExtended { idx } => match feature_index_from(0x8061, &reply) {
                Ok(f) => Step::Ask(RateQuery::ExtWireless { idx, f }, feature_call(idx, f, 2, one_param(1))),
                Err(_) => Step::Ask(RateQuery::FindLegacy { idx }, lookup_request(idx, 0x8060)),
            },
            RateQuery::ExtWireless { idx, f } => match reply {
                Ok(r) => {
                    let code = reply_params(&r)[0];
                    Step::Ask(RateQuery::ExtMask { code }, feature_call(idx, f, 1, one_param(1)))
                },
                Err(_) => Step::Ask(RateQuery::ExtWired { idx, f }, feature_call(idx, f, 2, one_param(0))),
            },
            RateQuery::ExtWired { idx, f } => match reply {
                Ok(r) => {
                    let code = reply_params(&r)[0];
                    Step::Ask(RateQuery::ExtMask { code }, feature_call(idx, f, 1, one_param(0)))
                },
                Err(e) => Step::Done(Err(e)),
            },
            RateQuery::ExtMask { code } => {
                let mask = match reply {
                    Ok(r) => reply_params(&r)[1],
                    Err(_) => 0,
                };
                Step::Done(Ok(ReportRate { hz: ext_rate_hz(code), supported: ext_supported(mask) }))
            },
            RateQuery::FindLegacy { idx } => match feature_index_from(0x8060, &reply) {
                Ok(f) => Step::Ask(RateQuery::LegacyMask { idx, f }, feature_call(idx, f, 0, no_params())),
                Err(e) => Step::Done(Err(e)),
            },
            RateQuery::LegacyMask { idx, f } => match reply {
                Ok(r) => {
                    let mask = reply_params(&r)[0];
                    Step::Ask(RateQuery::LegacyRate { mask }, feature_call(idx, f, 1, no_params()))
                },
                Err(e) => Step::Done(Err(e)),
            },
            RateQuery::LegacyRate { mask } => match reply {
                Ok(r) => {
                    let ms = reply_params(&r)[0];
                    Step::Done(Ok(ReportRate { hz: legacy_hz(ms), supported: legacy_supported(mask) }))
                },
                Err(e) => Step::Done(Err(e)),
            },
        }
    }
}

// ---------------------------------------------------------------------------
// Writes
// ---------------------------------------------------------------------------

/// Write a DPI on both axes: 0x2202 fn 6 (sensor 0, x, y, lift-off distance
/// passed back unchanged) when present, else 0x2201 fn 3 (sensor 0, dpi).
#[derive(Debug, Clone, Copy, PartialEq, Eq, Structural)]
pub enum SetDpiQuery {
    FindExtended { idx: u8, value: u16, lod: u8 },
    FindAdjustable { idx: u8, value: u16 },
    Write,
}

impl View for SetDpiQuery {
    type V = SetDpiQuery;

    open spec fn view(&self) -> SetDpiQuery {
        *self
    }
}

pub open spec fn set_dpi_budget(q: SetDpiQuery) -> nat {
    match q {
        SetDpiQuery::FindExtended { .. } => 3,
        SetDpiQuery::FindAdjustable { .. } => 2,
        SetDpiQuery::Write => 1,
    }
}

pub open spec fn written(reply: Reply) -> core::result::Result<(), HidppError> {
    match reply {
        Ok(_) => Ok(()),
        Err(e) => Err(e),
    }
}

pub open spec fn set_dpi_next(q: SetDpiQuery, reply: Reply) -> StepView<SetDpiQuery, core::result::Result<(), HidppError>> {
    match q {
        SetDpiQuery::FindExtended { idx, value, lod } => match found_index(0x2202, reply) {
            Ok(f) => StepView::Ask(
                SetDpiQuery::Write,
                call(idx, f, 6, seq![0u8, (value / 256) as u8, (value % 256) as u8, (value / 256) as u8, (value % 256) as u8, lod]),
            ),
            Err(_) => StepView::Ask(SetDpiQuery::FindAdjustable { idx, value }, lookup(idx, 0x2201)),
        },
        SetDpiQuery::FindAdjustable { idx, value } => match found_index(0x2201, reply) {
            Ok(f) => StepView::Ask(SetDpiQuery::Write, call(idx, f, 3, seq![0u8, (value / 256) as u8, (value % 256) as u8])),
            Err(e) => StepView::Done(Err(e)),
        },
        SetDpiQuery::Write => StepView::Done(written(reply)),
    }
}

fn write_result(reply: Reply) -> (w: core::result::Result<(), HidppError>)
    ensures
        w == written(reply),
{
    match reply {
        Ok(_) => Ok(()),
        Err(e) => Err(e),
    }
}

impl SetDpiQuery {
    /// Start writing `value` (which should already be snapped) with the
    /// lift-off distance of `dpi`.
    pub fn start(idx: u8, dpi: &Dpi, value: u16) -> (s: Step<SetDpiQuery, core::result::Result<(), HidppError>>)
        ensures
            step_view(s, |r| r) == StepView::<SetDpiQuery, core::result::Result<(), HidppError>>::Ask(
                SetDpiQuery::FindExtended { idx, value, lod: dpi.lod },
                lookup(idx, 0x2202),
            ),
    {
        Step::Ask(SetDpiQuery::FindExtended { idx, value, lod: dpi.lod }, lookup_request(idx, 0x2202))
    }

    pub fn step(self, reply: Reply) -> (s: Step<SetDpiQuery, core::result::Result<(), HidppError>>)
        ensures
            step_view(s, |r| r) == set_dpi_next(self, reply),
            shrinks(step_view(s, |r| r), |q| set_dpi_budget(q), set_dpi_budget(self)),
            s matches Step::Ask(_, r) ==> request_fits(r),
    {
        match self {
            SetDpiQuery::FindExtended { idx, value, lod } => match feature_index_from(0x2202, &reply) {
                Ok(f) => {
                    let hi = (value / 256) as u8;
                    let lo = (value % 256) as u8;
                    let mut params = three_params(0, hi, lo);
                    params.push(hi);
                    params.push(lo);
                    params.push(lod);
                    assert(params@ =~= seq![0u8, hi, lo, hi, lo, lod]);
                    Step::Ask(SetDpiQuery::Write, feature_call(idx, f, 6, params))
                },
                Err(_) => Step::Ask(SetDpiQuery::FindAdjustable { idx, value }, lookup_request(idx, 0x2201)),
            },
            SetDpiQuery::FindAdjustable { idx, value } => match feature_index_from(0x2201, &reply) {
                Ok(f) => {
                    let hi = (value / 256) as u8;
                    let lo = (value % 256) as u8;
                    Step::Ask(SetDpiQuery::Write, feature_call(idx, f, 3, three_params(0, hi, lo)))
                },
                Err(e) => Step::Done(Err(e)),
            },
            SetDpiQuery::Write => Step::Done(write_result(reply)),
        }
    }
}

/// Write a report rate: on 0x8061 fn 3 the code of `hz` (an unsupported rate
/// fails as HID++ 2.0 error 0x02 without a write), else on 0x8060 fn 2 the
/// interval in ms.
#[derive(Debug, Clone, Copy, PartialEq, Eq, Structural)]
pub enum SetRateQuery {
    FindExtended { idx: u8, hz: u16 },
    FindLegacy { idx: u8, hz: u16 },
    Write,
}

impl View for SetRateQuery {
    type V = SetRateQuery;

    open spec fn view(&self) -> SetRateQuery {
        *self
    }
}

pub open spec fn set_rate_budget(q: SetRateQuery) -> nat {
    match q {
        SetRateQuery::FindExtended { .. } => 3,
        SetRateQuery::FindLegacy { .. } => 2,
        SetRateQuery::Write => 1,
    }
}

pub open spec fn set_rate_next(q: SetRateQuery, reply: Reply) -> StepView<SetRateQuery, core::result::Result<(), HidppError>> {
    match q {
        SetRateQuery::FindExtended { idx, hz } => match found_index(0x8061, reply) {
            Ok(f) => match code_for_hz(hz) {
                Some(c) => StepView::Ask(SetRateQuery::Write, call(idx, f, 3, seq![c])),
                None => StepView::Done(Err(HidppError::V2(0x02))),
            },
            Err(_) => StepView::Ask(SetRateQuery::FindLegacy { idx, hz }, lookup(idx, 0x8060)),
        },
        SetRateQuery::FindLegacy { idx, hz } => match found_index(0x8060, reply) {
            Ok(f) => StepView::Ask(SetRateQuery::Write, call(idx, f, 2, seq![legacy_interval(hz)])),
            Err(e) => StepView::Done(Err(e)),
        },
        SetRateQuery::Write => StepView::Done(written(reply)),
    }
}

impl SetRateQuery {
    pub fn start(idx: u8, hz: u16) -> (s: Step<SetRateQuery, core::result::Result<(), HidppError>>)
        ensures
            step_view(s, |r| r) == StepView::<SetRateQuery, core::result::Result<(), HidppError>>::Ask(
                SetRateQuery::FindExtended { idx, hz },
                lookup(idx, 0x8061),
            ),
    {
        Step::Ask(SetRateQuery::FindExtended { idx, hz }, lookup_request(idx, 0x8061))
    }

    pub fn step(self, reply: Reply) -> (s: Step<SetRateQuery, core::result::Result<(), HidppError>>)
        ensures
            step_view(s, |r| r) == set_rate_next(self, reply),
            shrinks(step_view(s, |r| r), |q| set_rate_budget(q), set_rate_budget(self)),
            s matches Step::Ask(_, r) ==> request_fits(r),
    {
        match self {
            SetRateQuery::FindExtended { idx, hz } => match feature_index_from(0x8061, &reply) {
                Ok(f) => match ext_rate_code(hz) {
                    Some(c) => Step::Ask(SetRateQuery::Write, feature_call(idx, f, 3, one_param(c))),
                    None => Step::Done(Err(HidppError::V2(0x02))),
                },
                Err(_) => Step::Ask(SetRateQuery::FindLegacy { idx, hz }, lookup_request(idx, 0x8060)),
            },
            SetRateQuery::FindLegacy { idx, hz } => match feature_index_from(0x8060, &reply) {
                Ok(f) => Step::Ask(SetRateQuery::Write, feature_call(idx, f, 2, one_param(legacy_ms(hz)))),
                Err(e) => Step::Done(Err(e)),
            },
            SetRateQuery::Write => Step::Done(write_result(reply)),
        }
    }
}


/// The supported rates are read for the link whose rate was read: whenever
/// the rate query asks a function-2 (current rate) request and that reply
/// is then followed by a successful one, the next request is function 1
/// (supported rates) of the same device and feature with the same
/// connection-type byte (1 for the wireless link, 0 after the fallback to
/// the wired one).
pub proof fn law_rate_mask_follows_answering_link(q: RateQuery, first: Reply, second: Reply)
    ensures
        match rate_next(q, first) {
            StepView::Ask(q2, RequestView::Feature { idx, feat, func, params }) => (func == 2 && second is Ok)
                ==> (rate_next(q2, second) matches StepView::Ask(
                    _,
                    RequestView::Feature { idx: i2, feat: f2, func: g2, params: p2 },
                ) && i2 == idx && f2 == feat && g2 == 1 && p2 == params),
            _ => true,
        },
{
}

/// The current-rate request of the extended path asks the wireless link
/// first (connection type 1) and the wired link (0) only after it failed.
pub proof fn law_rate_wireless_first(idx: u8, lookup_reply: Reply, first: Reply)
    ensures
        match rate_next(RateQuery::FindExtended { idx }, lookup_reply) {
            StepView::Ask(q2, RequestView::Feature { idx: i, feat, func, params }) => func == 2 ==> {
                &&& i == idx && params == seq![1u8]
                &&& first is Err ==> (rate_next(q2, first) matches StepView::Ask(
                    _,
                    RequestView::Feature { idx: i3, feat: f3, func: g3, params: p3 },
                ) && i3 == idx && f3 == feat && g3 == 2 && p3 == seq![0u8])
            },
            _ => true,
        },
{
}


/// Root.getFeature asks feature index 0, function 0, with the feature
/// number big-endian; the answer is the index in the reply's first
/// parameter byte, where 0 means the device lacks the feature, and a failed
/// exchange stays a failure.
pub proof fn law_feature_lookup(idx: u8, feature: u16, reply: Reply)
    ensures
        lookup(idx, feature) matches RequestView::Feature { idx: i, feat, func, params } && i == idx && feat
            == 0 && func == 0 && params.len() == 2 && params[0] as int * 256 + params[1] as int == feature,
        match reply {
            Ok(r) => if params_of(r@)[0] == 0 {
                found_index(feature, reply) == Err::<u8, HidppError>(HidppError::NoFeature(feature))
            } else {
                found_index(feature, reply) == Ok::<u8, HidppError>(params_of(r@)[0])
            },
            Err(e) => found_index(feature, reply) == Err::<u8, HidppError>(e),
        },
{
}

/// The battery is asked from the first of 0x1004, 0x1000 and 0x1001 that the
/// device has, in that order: each missing feature moves on to looking up the
/// next, and without any of them the answer is `NoFeature(0x1000)`; a found
/// feature is read (0x1004 with function 1, the others with function 0) at
/// the index it was found at, and that read's failure is the answer.
pub proof fn law_battery_order(idx: u8, reply: Reply)
    ensures
        ({
            let absent = !(reply matches Ok(r) && params_of(r@)[0] != 0);
            let f = match reply { Ok(r) => params_of(r@)[0], Err(_) => 0u8 };
            &&& absent ==> battery_next(BatteryQuery::FindUnified { idx }, reply) == StepView::<BatteryQuery, core::result::Result<Battery, HidppError>>::Ask(
                BatteryQuery::FindStatus { idx }, lookup(idx, 0x1000))
            &&& absent ==> battery_next(BatteryQuery::FindStatus { idx }, reply) == StepView::<BatteryQuery, core::result::Result<Battery, HidppError>>::Ask(
                BatteryQuery::FindVoltage { idx }, lookup(idx, 0x1001))
            &&& absent ==> battery_next(BatteryQuery::FindVoltage { idx }, reply) == StepView::<BatteryQuery, core::result::Result<Battery, HidppError>>::Done(
                Err(HidppError::NoFeature(0x1000)))
            &&& !absent ==> (battery_next(BatteryQuery::FindUnified { idx }, reply) matches StepView::Ask(_, RequestView::Feature { idx: i, feat, func, params })
                && i == idx && feat == f && func == 1 && params.len() == 0)
            &&& !absent ==> (battery_next(BatteryQuery::FindStatus { idx }, reply) matches StepView::Ask(_, RequestView::Feature { idx: i, feat, func, params })
                && i == idx && feat == f && func == 0 && params.len() == 0)
            &&& !absent ==> (battery_next(BatteryQuery::FindVoltage { idx }, reply) matches StepView::Ask(_, RequestView::Feature { idx: i, feat, func, params })
                && i == idx && feat == f && func == 0 && params.len() == 0)
            &&& reply matches Err(e) ==> battery_next(BatteryQuery::ReadUnified, reply) == StepView::<BatteryQuery, core::result::Result<Battery, HidppError>>::Done(Err(e))
            &&& reply matches Err(e) ==> battery_next(BatteryQuery::ReadStatus, reply) == StepView::<BatteryQuery, core::result::Result<Battery, HidppError>>::Done(Err(e))
            &&& reply matches Err(e) ==> battery_next(BatteryQuery::ReadVoltage, reply) == StepView::<BatteryQuery, core::result::Result<Battery, HidppError>>::Done(Err(e))
        }),
{
}

/// The name is read in chunks: each read asks at the offset of the bytes
/// collected so far, adds the reply's first bytes (16, or fewer for the
/// last chunk) and nothing past the announced length, and the name is
/// complete exactly when that length is reached.
pub proof fn law_name_chunks(idx: u8, f: u8, count: u8, name: Seq<u8>, r: Vec<u8>)
    requires
        name.len() < count,
    ensures
        ({
            let p = params_of(r@);
            let add: int = if count - name.len() < 16 { count - name.len() } else { 16 };
            let n2 = name + p.take(add);
            &&& n2.len() <= count
            &&& n2.len() == name.len() + add
            &&& n2.len() < count ==> name_next(NameView::Read { idx, f, count, name }, Ok(r))
                == StepView::<NameView, core::result::Result<Seq<char>, HidppError>>::Ask(
                NameView::Read { idx, f, count, name: n2 },
                call(idx, f, 1, seq![n2.len() as u8]),
            )
            &&& n2.len() == count ==> name_next(NameView::Read { idx, f, count, name }, Ok(r))
                == StepView::<NameView, core::result::Result<Seq<char>, HidppError>>::Done(Ok(name_text(n2)))
        }),
{
}

/// The range stream of 0x2202 is read in pages: page `k` asks function 2
/// with `[0, 0, k]`, adds the page's bytes 3..16 to the stream, and the next
/// page is asked only when this one holds no terminating zero word and fewer
/// than eight pages were read; otherwise, and when a page fails, the onboard
/// levels (function 3) are asked next with the stream read so far.
pub proof fn law_dpi_range_pages(
    idx: u8,
    f: u8,
    current: u16,
    default: u16,
    lod: u8,
    k: u8,
    stream: Seq<u8>,
    reply: Reply,
)
    requires
        k < 8,
    ensures
        ({
            let q = DpiQueryView::ExtRanges { idx, f, current, default, lod, range: k, stream };
            match reply {
                Ok(r) => {
                    let page = params_of(r@).subrange(3, 16);
                    let more = !(exists|i: int| 0 <= i < 6 && #[trigger] page[2 * i] == 0 && page[2 * i + 1] == 0) && k < 7;
                    &&& more ==> dpi_next(q, reply) == StepView::<DpiQueryView, core::result::Result<DpiView, HidppError>>::Ask(
                        DpiQueryView::ExtRanges { idx, f, current, default, lod, range: (k + 1) as u8, stream: stream + page },
                        call(idx, f, 2, seq![0u8, 0u8, (k + 1) as u8]),
                    )
                    &&& !more ==> dpi_next(q, reply) == StepView::<DpiQueryView, core::result::Result<DpiView, HidppError>>::Ask(
                        DpiQueryView::ExtPresets { current, default, lod, stream: stream + page },
                        call(idx, f, 3, seq![0u8, 0u8]),
                    )
                },
                Err(_) => dpi_next(q, reply) == StepView::<DpiQueryView, core::result::Result<DpiView, HidppError>>::Ask(
                    DpiQueryView::ExtPresets { current, default, lod, stream },
                    call(idx, f, 3, seq![0u8, 0u8]),
                ),
            }
        }),
{
}

/// A DPI write sends the value big-endian: on 0x2202 function 6 as
/// `[sensor 0, x, y, lift-off distance]` with the same value on both axes
/// and the lift-off distance passed back unchanged; on 0x2201 function 3 as
/// `[sensor 0, value]`; at the index the feature was found at.
pub proof fn law_dpi_write(idx: u8, value: u16, lod: u8, r: Vec<u8>)
    requires
        params_of(r@)[0] != 0,
    ensures
        ({
            let f = params_of(r@)[0];
            &&& set_dpi_next(SetDpiQuery::FindExtended { idx, value, lod }, Ok(r)) matches StepView::Ask(
                SetDpiQuery::Write,
                RequestView::Feature { idx: i, feat, func, params },
            ) && i == idx && feat == f && func == 6 && params.len() == 6 && params[0] == 0
                && params[1] as int * 256 + params[2] as int == value
                && params[3] == params[1] && params[4] == params[2] && params[5] == lod
            &&& set_dpi_next(SetDpiQuery::FindAdjustable { idx, value }, Ok(r)) matches StepView::Ask(
                SetDpiQuery::Write,
                RequestView::Feature { idx: i, feat, func, params },
            ) && i == idx && feat == f && func == 3 && params.len() == 3 && params[0] == 0
                && params[1] as int * 256 + params[2] as int == value
        }),
{
}

/// A rate write on 0x8061 (function 3) sends the code whose rate is the one
/// asked for, and refuses a rate no code has with HID++ 2.0 error 0x02
/// without writing; on 0x8060 (function 2) it sends the interval in ms.
pub proof fn law_rate_write(idx: u8, hz: u16, r: Vec<u8>)
    requires
        params_of(r@)[0] != 0,
    ensures
        ({
            let f = params_of(r@)[0];
            &&& (forall|k: u8| k < 7 ==> rate_code_hz(k) != hz) ==> set_rate_next(
                SetRateQuery::FindExtended { idx, hz },
                Ok(r),
            ) == StepView::<SetRateQuery, core::result::Result<(), HidppError>>::Done(Err(HidppError::V2(0x02)))
            &&& (exists|k: u8| k < 7 && rate_code_hz(k) == hz) ==> (set_rate_next(
                SetRateQuery::FindExtended { idx, hz },
                Ok(r),
            ) matches StepView::Ask(SetRateQuery::Write, RequestView::Feature { idx: i, feat, func, params })
                && i == idx && feat == f && func == 3 && params.len() == 1 && params[0] < 7
                && rate_code_hz(params[0]) == hz)
            &&& set_rate_next(SetRateQuery::FindLegacy { idx, hz }, Ok(r)) matches StepView::Ask(
                SetRateQuery::Write,
                RequestView::Feature { idx: i, feat, func, params },
            ) && i == idx && feat == f && func == 2 && params == seq![legacy_interval(hz)]
        }),
{
    if exists|k: u8| k < 7 && rate_code_hz(k) == hz {
        let k = choose|k: u8| k < 7 && rate_code_hz(k) == hz;
        assert(code_for_hz(hz) is Some);
    } else {
        assert(rate_code_hz(0) != hz && rate_code_hz(1) != hz && rate_code_hz(2) != hz);
        assert(rate_code_hz(3) != hz && rate_code_hz(4) != hz && rate_code_hz(5) != hz);
        assert(rate_code_hz(6) != hz);
    }
}


/// A ping is Root function 1 with `[0, 0, 0x55]`; an answer gives the
/// protocol version from its first two parameter bytes; HID++ 1.0 errors
/// 0x08 and 0x09 and no answer mean the device is asleep or off; every other
/// failure stays a failure.
pub proof fn law_ping(idx: u8, reply: Reply)
    ensures
        ping_call(idx) == (RequestView::Feature { idx, feat: 0, func: 1, params: seq![0u8, 0u8, 0x55u8] }),
        (match reply {
            Ok(r) => ping_result(reply) == Ok::<Option<(u8, u8)>, HidppError>(Some((params_of(r@)[0], params_of(r@)[1]))),
            Err(HidppError::V1(c)) => (c == 0x08 || c == 0x09) == (ping_result(reply) == Ok::<Option<(u8, u8)>, HidppError>(None))
                && (!(c == 0x08 || c == 0x09) ==> ping_result(reply) == Err::<Option<(u8, u8)>, HidppError>(HidppError::V1(c))),
            Err(HidppError::Timeout) => ping_result(reply) == Ok::<Option<(u8, u8)>, HidppError>(None),
            Err(e) => ping_result(reply) == Err::<Option<(u8, u8)>, HidppError>(e),
        }),
{
}

/// The DPI parameters: on 0x2202 function 5 (sensor 0) the current DPI is
/// parameter bytes 1-2 and the default 3-4, big-endian, and the lift-off
/// distance byte 9, after which range page 0 is asked; on 0x2201 function 2
/// the same two values, after which function 1 (sensor 0) lists the DPIs,
/// whose bytes from 1 on are decoded as a range stream.
pub proof fn law_dpi_parameters(idx: u8, f: u8, r: Vec<u8>, list: Vec<u8>, current: u16, default: u16)
    ensures
        ({
            let p = params_of(r@);
            &&& dpi_next(DpiQueryView::ExtParams { idx, f }, Ok(r)) matches StepView::Ask(
                DpiQueryView::ExtRanges { idx: i2, f: f2, current: c, default: d, lod, range, stream },
                req,
            ) && i2 == idx && f2 == f && c as int == p[1] as int * 256 + p[2] as int && d as int == p[3] as int
                * 256 + p[4] as int && lod == p[9] && range == 0 && stream.len() == 0 && req == call(
                idx,
                f,
                2,
                seq![0u8, 0u8, 0u8],
            )
            &&& dpi_next(DpiQueryView::AdjParams { idx, f }, Ok(r)) matches StepView::Ask(
                DpiQueryView::AdjList { current: c, default: d },
                req,
            ) && c as int == p[1] as int * 256 + p[2] as int && d as int == p[3] as int * 256 + p[4] as int
                && req == call(idx, f, 1, seq![0u8])
            &&& dpi_next(DpiQueryView::AdjList { current, default }, Ok(list)) matches StepView::Done(Ok(v))
                && v.current == current && v.default == default && v.segments == dpi_list(
                params_of(list@).subrange(1, 16),
            ) && v.presets.len() == 0 && v.lod == 0
        }),
{
}

/// The onboard levels of a 0x2202 function-3 reply are its big-endian words
/// from parameter byte 2, in order, up to the first zero word.
pub proof fn law_preset_levels(p: Seq<u8>)
    requires
        p.len() == 16,
    ensures
        ({
            let l = preset_levels(p);
            &&& l.len() <= 7
            &&& forall|i: int| 0 <= i < l.len() ==> l[i] as int == p[2 + 2 * i] as int * 256 + p[3 + 2 * i] as int
                && l[i] != 0
            &&& l.len() < 7 ==> p[2 + 2 * (l.len() as int)] == 0 && p[3 + 2 * (l.len() as int)] == 0
        }),
{
    let ws = preset_words(p);
    lemma_first_zero(ws, 0);
    let l = preset_levels(p);
    if l.len() < 7 {
        let k = l.len() as int;
        assert(ws[k] == 0);
        assert(ws[k] == be16(p[2 + 2 * k], p[3 + 2 * k]));
    }
}

proof fn lemma_first_zero(s: Seq<u16>, i: int)
    requires
        0 <= i <= s.len(),
    ensures
        i <= first_zero(s, i) <= s.len(),
        first_zero(s, i) < s.len() ==> s[first_zero(s, i)] == 0,
        forall|j: int| i <= j < first_zero(s, i) ==> s[j] != 0,
    decreases s.len() - i,
{
    if i < s.len() && s[i] != 0 {
        lemma_first_zero(s, i + 1);
    }
}

} // verus!
