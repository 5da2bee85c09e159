//! What the two panels of the screen show: the rows of the device list (or
//! its message when it has none), and the lines of the details panel.

use vstd::prelude::*;
use crate::app_state::{flat, lemma_flat_push, ReceiverInfo};
use crate::device::{text_view, Device, DeviceView};
use crate::dpi::{seg_max, seg_min};
use crate::labels::{
    battery_label, battery_short, device_name, dpi_note_text, dpi_notes, link_label, link_line,
    link_text, list_label, list_name, onboard_label, onboard_text, pid_hex, shown_name,
};
use crate::text::{decimal, decimal_chars, hex_fixed, str_chars, string_from_chars};

verus! {

// ---------------------------------------------------------------------------
// The device list
// ---------------------------------------------------------------------------

/// The message in place of the device list: the scan error (shown as an
/// error), else "scanning…" before the first scan ended, else "No Logitech
/// receiver found." when no receiver was found; none when there are receivers.
pub open spec fn panel_message(err: Option<Seq<char>>, receivers: nat, scanned: bool) -> Option<(Seq<char>, bool)> {
    match err {
        Some(e) => Some((" "@ + e, true)),
        None => if receivers == 0 {
            if scanned {
                Some((" No Logitech receiver found."@, false))
            } else {
                Some((" scanning…"@, false))
            }
        } else {
            None
        },
    }
}

/// The message of the device list, with whether it is an error.
pub fn devices_panel_message(scan_error: &Option<String>, receivers: usize, scanned: bool) -> (m: Option<(String, bool)>)
    ensures
        match m {
            Some((s, e)) => panel_message(text_view(*scan_error), receivers as nat, scanned) == Some((s@, e)),
            None => panel_message(text_view(*scan_error), receivers as nat, scanned) is None,
        },
{
    match scan_error {
        Some(e) => {
            let mut s = String::from_str(" ");
            s.append(e.as_str());
            Some((s, true))
        },
        None => {
            if receivers == 0 {
                if scanned {
                    Some((String::from_str(" No Logitech receiver found."), false))
                } else {
                    Some((String::from_str(" scanning…"), false))
                }
            } else {
                None
            }
        },
    }
}

// ---------------------------------------------------------------------------
// The details panel
// ---------------------------------------------------------------------------

/// One row of the details panel below the device's name and state.
pub enum DetailRow {
    /// A label, its value, and a dimmed note after the value.
    Field { label: &'static str, value: String, note: String },
    /// The onboard DPI levels, the current one marked.
    Levels { presets: Vec<u16>, current: u16 },
    /// The error of the last probe.
    Error(String),
    /// After a blank line, how to bring an offline device back.
    Hint(&'static str),
}

pub enum DetailRowView {
    Field { label: &'static str, value: Seq<char>, note: Seq<char> },
    Levels { presets: Seq<u16>, current: u16 },
    Error(Seq<char>),
    Hint(&'static str),
}

impl View for DetailRow {
    type V = DetailRowView;

    open spec fn view(&self) -> DetailRowView {
        match self {
            DetailRow::Field { label, value, note } => DetailRowView::Field { label: *label, value: value@, note: note@ },
            DetailRow::Levels { presets, current } => DetailRowView::Levels { presets: presets@, current: *current },
            DetailRow::Error(e) => DetailRowView::Error(e@),
            DetailRow::Hint(h) => DetailRowView::Hint(*h),
        }
    }
}

pub open spec fn rows_view(v: Seq<DetailRow>) -> Seq<DetailRowView> {
    v.map_values(|r: DetailRow| r@)
}

/// A row with a label and a value and no note.
pub open spec fn field(label: &'static str, value: Seq<char>) -> DetailRowView {
    DetailRowView::Field { label, value, note: Seq::empty() }
}

/// The hint under an offline device.
pub open spec fn wake_hint() -> &'static str {
    "  Move the mouse to wake it; the panel refreshes every few seconds."
}

/// The link, kind and wireless-id rows.
pub open spec fn head_rows(d: DeviceView, kind: &'static str, pid: u16) -> Seq<DetailRowView> {
    seq![
        field(link_label(d.index), link_text(d.index, kind, pid)),
        field("kind", d.kind@),
        field("wireless id", hex_fixed(d.wpid as nat, 4)),
    ]
}

/// The protocol row, when the device answered the ping.
pub open spec fn protocol_rows(d: DeviceView) -> Seq<DetailRowView> {
    match d.protocol {
        Some((maj, min)) => seq![field("protocol", "HID++ "@ + decimal(maj as nat) + "."@ + decimal(min as nat))],
        None => Seq::empty(),
    }
}

/// The DPI row with its notes, and the onboard levels when there are any.
pub open spec fn dpi_rows(d: DeviceView) -> Seq<DetailRowView> {
    match d.dpi {
        Some(x) => seq![
            DetailRowView::Field {
                label: "dpi",
                value: decimal(x.current as nat),
                note: dpi_note_text(seg_min(x.segments), seg_max(x.segments), x.default),
            },
        ] + if x.presets.len() > 0 {
            seq![DetailRowView::Levels { presets: x.presets, current: x.current }]
        } else {
            Seq::empty()
        },
        None => Seq::empty(),
    }
}

/// The report-rate, profiles and error rows, and the wake hint, each when it applies.
pub open spec fn tail_rows(d: DeviceView) -> Seq<DetailRowView> {
    let rate = match d.report_rate {
        Some(r) => seq![field("report rate", decimal(r.hz as nat) + " Hz"@)],
        None => Seq::empty(),
    };
    let profiles = match d.onboard_mode {
        Some(m) => seq![field("profiles", onboard_label(m)@)],
        None => Seq::empty(),
    };
    let error = match d.error {
        Some(e) => seq![DetailRowView::Error("  "@ + e)],
        None => Seq::empty(),
    };
    let hint = if d.online { Seq::empty() } else { seq![DetailRowView::Hint(wake_hint())] };
    rate + profiles + error + hint
}

/// The rows of the details panel for device `d` of a receiver of this kind
/// and pid: the link, kind and wireless id; then, as far as the device
/// reported them, the protocol version, the DPI with its notes (and the
/// onboard levels when there are any), the report rate, the onboard-profiles
/// mode and the probe's error; last, for an offline device, the wake hint.
pub open spec fn detail_rows_text(d: DeviceView, kind: &'static str, pid: u16) -> Seq<DetailRowView> {
    head_rows(d, kind, pid) + protocol_rows(d) + dpi_rows(d) + tail_rows(d)
}

proof fn lemma_rows_push(v: Seq<DetailRow>, r: DetailRow)
    ensures
        rows_view(v.push(r)) == rows_view(v).push(r@),
{
    assert(rows_view(v.push(r)) =~= rows_view(v).push(r@));
}

fn push_row(rows: &mut Vec<DetailRow>, r: DetailRow)
    ensures
        rows_view(final(rows)@) == rows_view(old(rows)@).push(r@),
{
    proof {
        lemma_rows_push(rows@, r);
    }
    rows.push(r);
}

fn extend_rows(rows: &mut Vec<DetailRow>, mut more: Vec<DetailRow>)
    ensures
        rows_view(final(rows)@) == rows_view(old(rows)@) + rows_view(more@),
{
    let ghost a = rows@;
    let ghost b = more@;
    rows.append(&mut more);
    assert(rows@ =~= a + b);
    assert(rows_view(a + b) =~= rows_view(a) + rows_view(b));
}

fn plain(label: &'static str, value: String) -> (r: DetailRow)
    ensures
        r@ == field(label, value@),
{
    DetailRow::Field { label, value, note: String::new() }
}

fn cat(a: Vec<char>, b: Vec<char>) -> (c: Vec<char>)
    ensures
        c@ == a@ + b@,
{
    let mut a = a;
    let mut b = b;
    a.append(&mut b);
    a
}

fn head_part(d: &Device, kind: &'static str, pid: u16) -> (rows: Vec<DetailRow>)
    ensures
        rows_view(rows@) == head_rows(d@, kind, pid),
{
    let mut rows: Vec<DetailRow> = Vec::new();
    assert(rows_view(rows@) =~= Seq::<DetailRowView>::empty());
    let (ll, lv) = link_line(d.index, kind, pid);
    push_row(&mut rows, plain(ll, lv));
    push_row(&mut rows, plain("kind", string_from_chars(&str_chars(d.kind))));
    push_row(&mut rows, plain("wireless id", pid_hex(d.wpid)));
    assert(rows_view(rows@) =~= head_rows(d@, kind, pid));
    rows
}

fn protocol_part(d: &Device) -> (rows: Vec<DetailRow>)
    ensures
        rows_view(rows@) == protocol_rows(d@),
{
    let mut rows: Vec<DetailRow> = Vec::new();
    assert(rows_view(rows@) =~= Seq::<DetailRowView>::empty());
    if let Some((maj, min)) = d.protocol {
        let all = cat(cat(cat(str_chars("HID++ "), decimal_chars(maj as u64)), str_chars(".")), decimal_chars(min as u64));
        push_row(&mut rows, plain("protocol", string_from_chars(&all)));
        assert(rows_view(rows@) =~= protocol_rows(d@));
    }
    rows
}

fn copy_u16s(v: &Vec<u16>) -> (out: Vec<u16>)
    ensures
        out@ == v@,
{
    let mut out: Vec<u16> = Vec::new();
    let mut i: usize = 0;
    while i < v.len()
        invariant
            i <= v@.len(),
            out@ == v@.take(i as int),
        decreases v@.len() - i,
    {
        out.push(v[i]);
        assert(v@.take(i + 1) =~= v@.take(i as int).push(v@[i as int]));
        i = i + 1;
    }
    assert(v@.take(v@.len() as int) =~= v@);
    out
}

fn dpi_part(d: &Device) -> (rows: Vec<DetailRow>)
    ensures
        rows_view(rows@) == dpi_rows(d@),
{
    let mut rows: Vec<DetailRow> = Vec::new();
    assert(rows_view(rows@) =~= Seq::<DetailRowView>::empty());
    if let Some(x) = &d.dpi {
        let row = DetailRow::Field {
            label: "dpi",
            value: string_from_chars(&decimal_chars(x.current as u64)),
            note: dpi_notes(x),
        };
        push_row(&mut rows, row);
        if x.presets.len() > 0 {
            push_row(&mut rows, DetailRow::Levels { presets: copy_u16s(&x.presets), current: x.current });
        }
        assert(rows_view(rows@) =~= dpi_rows(d@));
    }
    rows
}

fn tail_part(d: &Device) -> (rows: Vec<DetailRow>)
    ensures
        rows_view(rows@) == tail_rows(d@),
{
    let mut rows: Vec<DetailRow> = Vec::new();
    assert(rows_view(rows@) =~= Seq::<DetailRowView>::empty());
    if let Some(r) = &d.report_rate {
        let cs = cat(decimal_chars(r.hz as u64), str_chars(" Hz"));
        push_row(&mut rows, plain("report rate", string_from_chars(&cs)));
    }
    if let Some(m) = d.onboard_mode {
        push_row(&mut rows, plain("profiles", string_from_chars(&str_chars(onboard_text(m)))));
    }
    if let Some(e) = &d.error {
        let mut s = String::from_str("  ");
        s.append(e.as_str());
        push_row(&mut rows, DetailRow::Error(s));
    }
    if !d.online {
        push_row(&mut rows, DetailRow::Hint("  Move the mouse to wake it; the panel refreshes every few seconds."));
    }
    assert(rows_view(rows@) =~= tail_rows(d@));
    rows
}

/// The rows of the details panel for `d`, paired to a receiver of this kind and pid.
pub fn detail_rows(d: &Device, kind: &'static str, pid: u16) -> (rows: Vec<DetailRow>)
    ensures
        rows_view(rows@) == detail_rows_text(d@, kind, pid),
{
    let mut rows = head_part(d, kind, pid);
    extend_rows(&mut rows, protocol_part(d));
    extend_rows(&mut rows, dpi_part(d));
    extend_rows(&mut rows, tail_part(d));
    rows
}


/// The two lines above the rows: " name", and the device's state.
pub open spec fn header_text(d: DeviceView) -> (Seq<char>, &'static str) {
    (
        " "@ + shown_name(d.name, d.paired_name),
        if d.online { "● online" } else { "○ offline — asleep or switched off" },
    )
}

pub fn detail_header(d: &Device) -> (h: (String, &'static str))
    ensures
        (h.0@, h.1) == header_text(d@),
{
    let mut name = String::from_str(" ");
    let shown = device_name(d);
    name.append(shown.as_str());
    (name, if d.online { "● online" } else { "○ offline — asleep or switched off" })
}

// ---------------------------------------------------------------------------
// The rows of the device list
// ---------------------------------------------------------------------------

/// One row of the device list.
pub enum ListRow {
    /// A receiver: its kind and, dimmed, its pid.
    Receiver { kind: &'static str, pid: String },
    /// A dimmed line under a receiver with nothing paired.
    Empty(&'static str),
    /// A device: whether it is the selected one, whether it is online, its
    /// name (before fitting to the column) and its battery label.
    Device { selected: bool, online: bool, name: String, battery: String },
}

pub enum ListRowView {
    Receiver { kind: &'static str, pid: Seq<char> },
    Empty(&'static str),
    Device { selected: bool, online: bool, name: Seq<char>, battery: Seq<char> },
}

impl View for ListRow {
    type V = ListRowView;

    open spec fn view(&self) -> ListRowView {
        match self {
            ListRow::Receiver { kind, pid } => ListRowView::Receiver { kind: *kind, pid: pid@ },
            ListRow::Empty(t) => ListRowView::Empty(*t),
            ListRow::Device { selected, online, name, battery } => ListRowView::Device {
                selected: *selected,
                online: *online,
                name: name@,
                battery: battery@,
            },
        }
    }
}

pub open spec fn list_view(v: Seq<ListRow>) -> Seq<ListRowView> {
    v.map_values(|r: ListRow| r@)
}

/// The row of device `d`.
pub open spec fn device_row(d: Device, selected: bool) -> ListRowView {
    ListRowView::Device {
        selected,
        online: d.online,
        name: list_name(text_view(d.name), d.paired_name@, d.kind, d.wpid),
        battery: battery_label(d.battery, d.online),
    }
}

/// The rows of receiver `r` whose first device has flat index `base`: the
/// receiver, "nothing paired" when it has no device, then its devices, the
/// one whose flat index is `sel` selected.
pub open spec fn receiver_rows(r: ReceiverInfo, base: int, sel: int) -> Seq<ListRowView> {
    seq![ListRowView::Receiver { kind: r.kind, pid: "  "@ + hex_fixed(r.pid as nat, 4) }]
        + (if r.devices@.len() == 0 { seq![ListRowView::Empty("     nothing paired")] } else { Seq::empty() })
        + Seq::new(r.devices@.len(), |k: int| device_row(r.devices@[k], base + k == sel))
}

/// The rows of the device list: each receiver's rows in order, devices
/// numbered across receivers as in `flat`.
pub open spec fn list_rows(rs: Seq<ReceiverInfo>, sel: int) -> Seq<ListRowView>
    decreases rs.len(),
{
    if rs.len() == 0 {
        Seq::empty()
    } else {
        list_rows(rs.drop_last(), sel) + receiver_rows(rs.last(), flat(rs.drop_last()).len() as int, sel)
    }
}

proof fn lemma_list_push(v: Seq<ListRow>, r: ListRow)
    ensures
        list_view(v.push(r)) == list_view(v).push(r@),
{
    assert(list_view(v.push(r)) =~= list_view(v).push(r@));
}

fn push_list_row(rows: &mut Vec<ListRow>, r: ListRow)
    ensures
        list_view(final(rows)@) == list_view(old(rows)@).push(r@),
{
    proof {
        lemma_list_push(rows@, r);
    }
    rows.push(r);
}

/// The rows of one receiver; `left` is how far `sel` lies past its first
/// device's flat index `base`, none when `sel` comes before it.
fn receiver_part(r: &ReceiverInfo, left: Option<usize>, Ghost(base): Ghost<int>, Ghost(sel): Ghost<int>) -> (rows: Vec<ListRow>)
    requires
        match left {
            Some(l) => sel >= base && l == sel - base,
            None => sel < base,
        },
    ensures
        list_view(rows@) == receiver_rows(*r, base, sel),
{
    let mut rows: Vec<ListRow> = Vec::new();
    assert(list_view(rows@) =~= Seq::<ListRowView>::empty());
    let mut pid = String::from_str("  ");
    pid.append(pid_hex(r.pid).as_str());
    push_list_row(&mut rows, ListRow::Receiver { kind: r.kind, pid });
    if r.devices.len() == 0 {
        push_list_row(&mut rows, ListRow::Empty("     nothing paired"));
    }
    let ghost head = list_view(rows@);
    let n = r.devices.len();
    let mut j: usize = 0;
    while j < n
        invariant
            n == r.devices@.len(),
            j <= n,
            match left {
                Some(l) => sel >= base && l == sel - base,
                None => sel < base,
            },
            list_view(rows@) == head + Seq::new(j as nat, |k: int| device_row(r.devices@[k], base + k == sel)),
        decreases n - j,
    {
        let d = &r.devices[j];
        let selected = match left {
            Some(l) => l == j,
            None => false,
        };
        push_list_row(
            &mut rows,
            ListRow::Device { selected, online: d.online, name: list_label(d), battery: battery_short(d) },
        );
        assert(Seq::new((j + 1) as nat, |k: int| device_row(r.devices@[k], base + k == sel)) =~= Seq::new(
            j as nat,
            |k: int| device_row(r.devices@[k], base + k == sel),
        ).push(device_row(r.devices@[j as int], base + j == sel)));
        j = j + 1;
    }
    assert(list_view(rows@) =~= receiver_rows(*r, base, sel));
    rows
}

/// The rows of the device list, with the marker on the device whose flat
/// index is `sel`.
pub fn device_rows(rs: &Vec<ReceiverInfo>, sel: usize) -> (rows: Vec<ListRow>)
    ensures
        list_view(rows@) == list_rows(rs@, sel as int),
{
    let mut rows: Vec<ListRow> = Vec::new();
    let mut left: Option<usize> = Some(sel);
    let mut i: usize = 0;
    assert(rs@.take(0) =~= Seq::<ReceiverInfo>::empty());
    assert(list_view(rows@) =~= Seq::<ListRowView>::empty());
    while i < rs.len()
        invariant
            i <= rs@.len(),
            list_view(rows@) == list_rows(rs@.take(i as int), sel as int),
            match left {
                Some(l) => sel >= flat(rs@.take(i as int)).len() && l == sel - flat(rs@.take(i as int)).len(),
                None => sel < flat(rs@.take(i as int)).len(),
            },
        decreases rs@.len() - i,
    {
        let ghost base = flat(rs@.take(i as int)).len() as int;
        let part = receiver_part(&rs[i], left, Ghost(base), Ghost(sel as int));
        let ghost before = rows@;
        let mut part = part;
        let ghost pv = part@;
        rows.append(&mut part);
        proof {
            assert(rows@ =~= before + pv);
            assert(list_view(before + pv) =~= list_view(before) + list_view(pv));
            lemma_flat_push(rs@.take(i as int), rs@[i as int]);
            assert(rs@.take(i + 1) =~= rs@.take(i as int).push(rs@[i as int]));
            assert(rs@.take(i + 1).drop_last() =~= rs@.take(i as int));
        }
        let len = rs[i].devices.len();
        left = match left {
            Some(l) => if l >= len { Some(l - len) } else { None },
            None => None,
        };
        i = i + 1;
    }
    assert(rs@.take(rs@.len() as int) =~= rs@);
    rows
}

} // verus!
