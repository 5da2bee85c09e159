//! The HID++ wire format: building request reports and recognising the reply.
//!
//! A receiver exposes two vendor collections: short reports (id 0x10, 7
//! bytes) and long reports (id 0x11, 20 bytes). The receiver itself (index
//! 0xFF) answers HID++ 1.0 register requests; paired devices answer HID++ 2.0
//! feature calls.

use vstd::prelude::*;
use crate::error::HidppError;

verus! {

pub const LOGITECH: u16 = 0x046d;

/// Software id carried in the low nibble of every feature call's function byte.
pub const SWID: u8 = 0x0a;

pub const SHORT_REPORT: u8 = 0x10;

pub const LONG_REPORT: u8 = 0x11;

/// Direct-device index: the device itself rather than a pairing slot.
pub const DIRECT_INDEX: u8 = 0xff;

/// One exchange with a receiver or device.
#[derive(Debug, Clone)]
pub enum Request {
    /// HID++ 2.0 feature call on device `idx`; the reply's 16 parameter bytes follow.
    Feature { idx: u8, feat: u8, func: u8, params: Vec<u8> },
    /// HID++ 1.0 register access on the receiver (`sub` 0x81 short / 0x83 long read).
    Register { sub: u8, reg: u8, params: Vec<u8> },
}

/// A request with its parameters as a sequence.
pub enum RequestView {
    Feature { idx: u8, feat: u8, func: u8, params: Seq<u8> },
    Register { sub: u8, reg: u8, params: Seq<u8> },
}

impl View for Request {
    type V = RequestView;

    open spec fn view(&self) -> RequestView {
        match self {
            Request::Feature { idx, feat, func, params } => RequestView::Feature {
                idx: *idx,
                feat: *feat,
                func: *func,
                params: params@,
            },
            Request::Register { sub, reg, params } => RequestView::Register {
                sub: *sub,
                reg: *reg,
                params: params@,
            },
        }
    }
}

/// A request is sendable when its parameters fit its report.
pub open spec fn request_fits(r: Request) -> bool {
    match r {
        Request::Feature { params, .. } => params@.len() <= 16,
        Request::Register { params, .. } => params@.len() <= 3,
    }
}

/// The function byte of a feature call: function number high, software id low.
pub open spec fn func_byte(func: u8) -> u8 {
    (((func as int * 16) % 256) + SWID) as u8
}

/// `params` written at offset 4 of `len` zero bytes that start with `head`.
pub open spec fn framed(head: Seq<u8>, params: Seq<u8>, len: nat) -> Seq<u8> {
    Seq::new(len, |i: int| if i < 4 { head[i] } else if i < 4 + params.len() { params[i - 4] } else { 0 })
}

/// The bytes of a request report.
pub open spec fn request_report(r: Request) -> Seq<u8> {
    match r {
        Request::Feature { idx, feat, func, params } =>
            framed(seq![LONG_REPORT, idx, feat, func_byte(func)], params@, 20),
        Request::Register { sub, reg, params } =>
            framed(seq![SHORT_REPORT, DIRECT_INDEX, sub, reg], params@, 7),
    }
}

/// What identifies the reply to a request: (device index, sub id / feature, address / function byte).
pub open spec fn reply_key(r: Request) -> (u8, u8, u8) {
    match r {
        Request::Feature { idx, feat, func, .. } => (idx, feat, func_byte(func)),
        Request::Register { sub, reg, .. } => (DIRECT_INDEX, sub, reg),
    }
}

fn function_byte(func: u8) -> (b: u8)
    ensures
        b == func_byte(func),
{
    let hi: u8 = ((func as u32 * 16) % 256) as u8;
    assert(hi as int + 10 < 256) by (nonlinear_arith)
        requires
            hi as int == (func as int * 16) % 256,
    ;
    hi + SWID
}

fn frame(head: [u8; 4], params: &Vec<u8>, len: usize) -> (out: Vec<u8>)
    requires
        4 + params@.len() <= len,
    ensures
        out@ == framed(head@, params@, len as nat),
{
    let mut out: Vec<u8> = Vec::new();
    let mut i: usize = 0;
    while i < len
        invariant
            i <= len,
            4 + params@.len() <= len,
            out@.len() == i,
            forall|j: int| 0 <= j < i ==> out@[j] == #[trigger] framed(head@, params@, len as nat)[j],
        decreases len - i,
    {
        let b = if i < 4 {
            head[i]
        } else if i < 4 + params.len() {
            params[i - 4]
        } else {
            0
        };
        out.push(b);
        i = i + 1;
    }
    assert(out@ =~= framed(head@, params@, len as nat));
    out
}

impl Request {
    /// The report to write for this request.
    pub fn report(&self) -> (out: Vec<u8>)
        requires
            request_fits(*self),
        ensures
            out@ == request_report(*self),
    {
        match self {
            Request::Feature { idx, feat, func, params } => {
                let fb = function_byte(*func);
                let out = frame([LONG_REPORT, *idx, *feat, fb], params, 20);
                assert([LONG_REPORT, *idx, *feat, fb]@ =~= seq![LONG_REPORT, *idx, *feat, fb]);
                out
            },
            Request::Register { sub, reg, params } => {
                let out = frame([SHORT_REPORT, DIRECT_INDEX, *sub, *reg], params, 7);
                assert([SHORT_REPORT, DIRECT_INDEX, *sub, *reg]@ =~= seq![
                    SHORT_REPORT,
                    DIRECT_INDEX,
                    *sub,
                    *reg,
                ]);
                out
            },
        }
    }

    /// (device index, sub id, address) that the reply carries.
    pub fn key(&self) -> (k: (u8, u8, u8))
        ensures
            k == reply_key(*self),
    {
        match self {
            Request::Feature { idx, feat, func, .. } => (*idx, *feat, function_byte(*func)),
            Request::Register { sub, reg, .. } => (DIRECT_INDEX, *sub, *reg),
        }
    }
}

/// Which vendor collection of a receiver.
#[derive(Debug, Clone, Copy, PartialEq, Eq, Structural)]
pub enum Collection {
    Short,
    Long,
}

/// The collection a report goes out on: its own kind if open, else the other one.
pub open spec fn collection_for(report_id: u8, has_short: bool, has_long: bool) -> Option<Collection> {
    if report_id == SHORT_REPORT {
        if has_short { Some(Collection::Short) } else if has_long { Some(Collection::Long) } else { None }
    } else {
        if has_long { Some(Collection::Long) } else if has_short { Some(Collection::Short) } else { None }
    }
}

/// Where to write a report whose first byte is `report_id`; `None` when
/// neither collection is open (the write then fails as a timeout).
pub fn pick_collection(report_id: u8, has_short: bool, has_long: bool) -> (c: Option<Collection>)
    ensures
        c == collection_for(report_id, has_short, has_long),
{
    if report_id == SHORT_REPORT {
        if has_short {
            Some(Collection::Short)
        } else if has_long {
            Some(Collection::Long)
        } else {
            None
        }
    } else {
        if has_long {
            Some(Collection::Long)
        } else if has_short {
            Some(Collection::Short)
        } else {
            None
        }
    }
}

/// How one report read from a collection answers a request with `key`:
/// `None` for notifications and unrelated reports (skipped), a HID++ 1.0
/// error `[10, idx, 8f, sub, addr, err]`, a HID++ 2.0 error
/// `[11, idx, ff, feat, fn|sw, err]`, or the reply itself (the `n` bytes read).
pub open spec fn reply_match(buf: Seq<u8>, n: int, key: (u8, u8, u8)) -> Option<core::result::Result<Seq<u8>, HidppError>> {
    if n < 4 || buf[1] != key.0 {
        None
    } else if buf[2] == 0x8f && buf[3] == key.1 && buf[4] == key.2 {
        Some(Err(HidppError::V1(buf[5])))
    } else if buf[2] == 0xff && buf[3] == key.1 && buf[4] == key.2 {
        Some(Err(HidppError::V2(buf[5])))
    } else if buf[2] == key.1 && buf[3] == key.2 {
        Some(Ok(buf.take(n)))
    } else {
        None
    }
}

/// Recognise the reply to `key` in a 64-byte read buffer holding `n` bytes.
pub fn match_reply(buf: &[u8], n: usize, key: (u8, u8, u8)) -> (m: Option<
    core::result::Result<Vec<u8>, HidppError>,
>)
    requires
        buf@.len() == 64,
        n <= 64,
    ensures
        match (m, reply_match(buf@, n as int, key)) {
            (None, None) => true,
            (Some(Ok(r)), Some(Ok(s))) => r@ == s,
            (Some(Err(e)), Some(Err(f))) => e == f,
            _ => false,
        },
{
    if n < 4 || buf[1] != key.0 {
        return None;
    }
    if buf[2] == 0x8f && buf[3] == key.1 && buf[4] == key.2 {
        return Some(Err(HidppError::V1(buf[5])));
    }
    if buf[2] == 0xff && buf[3] == key.1 && buf[4] == key.2 {
        return Some(Err(HidppError::V2(buf[5])));
    }
    if buf[2] == key.1 && buf[3] == key.2 {
        let mut out: Vec<u8> = Vec::new();
        let mut i: usize = 0;
        while i < n
            invariant
                i <= n <= 64,
                buf@.len() == 64,
                out@ == buf@.take(i as int),
            decreases n - i,
        {
            out.push(buf[i]);
            assert(buf@.take(i + 1) =~= buf@.take(i as int).push(buf@[i as int]));
            i = i + 1;
        }
        return Some(Ok(out));
    }
    None
}

/// The 16 parameter bytes of a feature reply: bytes 4.. of the (at most 20
/// byte) report, zero-padded.
pub open spec fn params_of(r: Seq<u8>) -> Seq<u8> {
    Seq::new(16, |i: int| if 4 + i < r.len() && 4 + i < 20 { r[4 + i] } else { 0 })
}

/// The parameter bytes of a feature call's reply.
pub fn reply_params(r: &Vec<u8>) -> (p: Vec<u8>)
    ensures
        p@ == params_of(r@),
        p@.len() == 16,
{
    let mut p: Vec<u8> = Vec::new();
    let mut i: usize = 0;
    while i < 16
        invariant
            i <= 16,
            p@.len() == i,
            forall|j: int| 0 <= j < i ==> p@[j] == #[trigger] params_of(r@)[j],
        decreases 16 - i,
    {
        let b = if 4 + i < r.len() && 4 + i < 20 {
            r[4 + i]
        } else {
            0
        };
        p.push(b);
        i = i + 1;
    }
    assert(p@ =~= params_of(r@));
    p
}


/// A report accepted as the reply to a request carries the request's device
/// index, sub id and address in bytes 1-3, and is what was read.
pub proof fn law_reply_answers_request(buf: Seq<u8>, n: int, key: (u8, u8, u8))
    requires
        4 <= n <= buf.len(),
        reply_match(buf, n, key) matches Some(Ok(_)),
    ensures
        ({
            let r = reply_match(buf, n, key)->Some_0->Ok_0;
            &&& r.len() == n
            &&& r[1] == key.0 && r[2] == key.1 && r[3] == key.2
        }),
{
}

/// A report finds a collection whenever one is open, its own kind first.
pub proof fn law_collection_choice(report_id: u8, has_short: bool, has_long: bool)
    ensures
        collection_for(report_id, has_short, has_long) is None <==> (!has_short && !has_long),
        report_id == SHORT_REPORT && has_short ==> collection_for(report_id, has_short, has_long) == Some(Collection::Short),
        report_id != SHORT_REPORT && has_long ==> collection_for(report_id, has_short, has_long) == Some(Collection::Long),
{
}


/// The report written for a request: a 20-byte long report `0x11` for a
/// feature call (device index, feature index, function number in the high
/// nibble and software id 0x0A in the low nibble) or a 7-byte short report
/// `0x10` to the receiver (0xFF) for a register access; the parameters from
/// byte 4, zeros after them; and bytes 1-3 are the key its reply is
/// recognised by.
pub proof fn law_request_report(r: Request)
    requires
        request_fits(r),
    ensures
        ({
            let b = request_report(r);
            &&& b[1] == reply_key(r).0 && b[2] == reply_key(r).1 && b[3] == reply_key(r).2
            &&& match r {
                Request::Feature { idx, feat, func, params } => {
                    &&& b.len() == 20
                    &&& b[0] == 0x11 && b[1] == idx && b[2] == feat
                    &&& b[3] == ((func % 16) * 16 + 0x0a) as u8
                    &&& forall|i: int| 0 <= i < params@.len() ==> b[4 + i] == params@[i]
                    &&& forall|i: int| 4 + params@.len() <= i < 20 ==> b[i] == 0
                },
                Request::Register { sub, reg, params } => {
                    &&& b.len() == 7
                    &&& b[0] == 0x10 && b[1] == 0xff && b[2] == sub && b[3] == reg
                    &&& forall|i: int| 0 <= i < params@.len() ==> b[4 + i] == params@[i]
                    &&& forall|i: int| 4 + params@.len() <= i < 7 ==> b[i] == 0
                },
            }
        }),
{
    if let Request::Feature { func, .. } = r {
        assert((func as int * 16) % 256 == (func as int % 16) * 16) by (nonlinear_arith)
            requires
                0 <= func < 256,
        ;
    }
}

/// What a report read back means for a request with `key`: a report of
/// another device, or too short, is skipped; `[_, idx, 0x8F, sub, addr, e]`
/// is HID++ 1.0 error `e`; `[_, idx, 0xFF, feat, fn, e]` is HID++ 2.0 error
/// `e`; a report echoing the key is the reply, all `n` bytes of it.
pub proof fn law_reply_kinds(buf: Seq<u8>, n: int, key: (u8, u8, u8))
    requires
        n <= buf.len(),
        buf.len() >= 6,
    ensures
        (n < 4 || buf[1] != key.0) ==> reply_match(buf, n, key) is None,
        (n >= 4 && buf[1] == key.0 && buf[2] == 0x8f && buf[3] == key.1 && buf[4] == key.2)
            ==> reply_match(buf, n, key) == Some(Err::<Seq<u8>, HidppError>(HidppError::V1(buf[5]))),
        (n >= 4 && buf[1] == key.0 && buf[2] == 0xff && buf[3] == key.1 && buf[4] == key.2)
            ==> reply_match(buf, n, key) == Some(Err::<Seq<u8>, HidppError>(HidppError::V2(buf[5]))),
        (n >= 4 && buf[1] == key.0 && buf[2] == key.1 && buf[3] == key.2 && key.1 != 0x8f && key.1 != 0xff)
            ==> reply_match(buf, n, key) == Some(Ok::<Seq<u8>, HidppError>(buf.take(n))),
{
}

/// The parameters of a reply are its bytes from offset 4, at most 16 of
/// them and never past byte 20, padded with zeros.
pub proof fn law_reply_params(r: Seq<u8>, i: int)
    requires
        0 <= i < 16,
    ensures
        params_of(r).len() == 16,
        4 + i < r.len() && 4 + i < 20 ==> params_of(r)[i] == r[4 + i],
        4 + i >= r.len() || 4 + i >= 20 ==> params_of(r)[i] == 0,
{
}

} // verus!
