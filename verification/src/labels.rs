//! The texts the screen shows for devices: names, battery labels, DPI
//! notes, link lines.

use vstd::prelude::*;
use crate::battery::{Battery, ChargeState};
use crate::device::Device;
use crate::dpi::{seg_max, seg_min, Dpi};
use crate::report::DIRECT_INDEX;
use crate::text::{decimal, decimal_chars, hex_chars, hex_fixed, str_chars, string_from_chars};

verus! {

// ---------------------------------------------------------------------------
// Volts with two decimals
// ---------------------------------------------------------------------------

/// Round `q + r / d` to an integer, halves to even (`0 <= r < d`).
pub open spec fn round_half_even(q: int, r: int, d: int) -> int {
    if 2 * r > d {
        q + 1
    } else if 2 * r < d {
        q
    } else if q % 2 == 0 {
        q
    } else {
        q + 1
    }
}

/// Doubling `n` (and `pw` with it) until `n` reaches `target`: `n / pw`
/// kept, `n` brought to the width of a float significand.
pub open spec fn normalized(target: nat, n: nat, pw: nat) -> (nat, nat)
    decreases (if n < target { target - n } else { 0 }),
{
    if n == 0 || n >= target {
        (n, pw)
    } else {
        normalized(target, 2 * n, 2 * pw)
    }
}

/// `2^23 * 1000`: where the 24-bit significand of an f32 starts, times 1000.
pub const F32_TARGET: u128 = 8_388_608_000;

/// `2^52 * 1000`: where the 53-bit significand of an f64 starts, times 1000.
pub const F64_TARGET: u128 = 4_503_599_627_370_496_000;

/// Hundredths of a volt that printing `mv / 1000` with two decimals shows,
/// when the quotient is a float whose significand spans `target / 1000`..:
/// `mv / 1000` is rounded to the float (halves to even), and the float to
/// hundredths (halves to even).
pub open spec fn centivolts(mv: u16, target: nat) -> int {
    if mv == 0 {
        0
    } else {
        let (n, pw) = normalized(target, mv as nat, 1);
        let m = round_half_even(n as int / 1000, n as int % 1000, 1000);
        round_half_even((100 * m) / (pw as int), (100 * m) % (pw as int), pw as int)
    }
}

/// `c` hundredths as "U.HH".
pub open spec fn hundredths_text(c: nat) -> Seq<char> {
    decimal(c / 100) + seq!['.'] + decimal((c % 100) / 10) + decimal(c % 10)
}

proof fn lemma_normalized_bounds(target: nat, n: nat, pw: nat)
    requires
        n >= 1,
        pw >= 1,
        pw <= n,
        target >= 1000,
    ensures
        normalized(target, n, pw).0 >= target || n >= target,
        normalized(target, n, pw).1 >= 1,
        normalized(target, n, pw).1 <= normalized(target, n, pw).0,
        n < target ==> normalized(target, n, pw).0 < 2 * target,
        n >= target ==> normalized(target, n, pw) == (n, pw),
    decreases (if n < target { target - n } else { 0 }),
{
    if n < target {
        lemma_normalized_bounds(target, 2 * n, 2 * pw);
    }
}

/// Hundredths of a volt shown for `mv` millivolts, for a float significand
/// described by `target` (`F32_TARGET` for f32, `F64_TARGET` for f64).
fn centivolts_of(mv: u16, target: u128) -> (c: u64)
    requires
        target == F32_TARGET || target == F64_TARGET,
    ensures
        c as int == centivolts(mv, target as nat),
{
    if mv == 0 {
        return 0;
    }
    let mut n: u128 = mv as u128;
    let mut pw: u128 = 1;
    while n < target
        invariant
            target == F32_TARGET || target == F64_TARGET,
            1 <= pw <= n,
            n < 2 * target,
            n == (mv as int) * (pw as int),
            normalized(target as nat, mv as nat, 1) == normalized(target as nat, n as nat, pw as nat),
        decreases (if n < target { target - n } else { 0 }),
    {
        assert(2 * n == (mv as int) * (2 * pw)) by (nonlinear_arith)
            requires
                n == (mv as int) * (pw as int),
        ;
        n = 2 * n;
        pw = 2 * pw;
    }
    let q = n / 1000;
    let r = n % 1000;
    let m: u128 = if 2 * r > 1000 { q + 1 } else if 2 * r < 1000 { q } else if q % 2 == 0 { q } else { q + 1 };
    assert(m * 1000 <= n + 1000) by (nonlinear_arith)
        requires
            q == n / 1000,
            m <= q + 1,
    ;
    let hm = 100 * m;
    assert(hm * 10 <= (mv as int + 1000) * pw) by (nonlinear_arith)
        requires
            hm == 100 * m,
            m * 1000 <= n + 1000,
            n == (mv as int) * (pw as int),
            pw >= 1,
    ;
    let q2 = hm / pw;
    assert(q2 * 10 <= mv as int + 1000) by (nonlinear_arith)
        requires
            q2 == hm / pw,
            hm * 10 <= (mv as int + 1000) * pw,
            pw >= 1,
    ;
    let r2 = hm % pw;
    let c: u128 = if 2 * r2 > pw { q2 + 1 } else if 2 * r2 < pw { q2 } else if q2 % 2 == 0 { q2 } else { q2 + 1 };
    c as u64
}

/// "U.HH" for `c` hundredths.
fn hundredths_chars(c: u64) -> (cs: Vec<char>)
    ensures
        cs@ == hundredths_text(c as nat),
{
    let mut cs = decimal_chars(c / 100);
    cs.push('.');
    let tens = decimal_chars((c % 100) / 10);
    let ones = decimal_chars(c % 10);
    let mut i: usize = 0;
    let ghost start = cs@;
    while i < tens.len()
        invariant
            i <= tens@.len(),
            cs@ == start + tens@.take(i as int),
        decreases tens@.len() - i,
    {
        cs.push(tens[i]);
        assert(tens@.take(i + 1) =~= tens@.take(i as int).push(tens@[i as int]));
        i = i + 1;
    }
    assert(tens@.take(tens@.len() as int) =~= tens@);
    let ghost mid = cs@;
    let mut j: usize = 0;
    while j < ones.len()
        invariant
            j <= ones@.len(),
            cs@ == mid + ones@.take(j as int),
        decreases ones@.len() - j,
    {
        cs.push(ones[j]);
        assert(ones@.take(j + 1) =~= ones@.take(j as int).push(ones@[j as int]));
        j = j + 1;
    }
    assert(ones@.take(ones@.len() as int) =~= ones@);
    assert(cs@ =~= hundredths_text(c as nat));
    cs
}

// ---------------------------------------------------------------------------
// Building texts
// ---------------------------------------------------------------------------

fn push_all(v: &mut Vec<char>, s: &Vec<char>)
    ensures
        final(v)@ == old(v)@ + s@,
{
    let mut i: usize = 0;
    while i < s.len()
        invariant
            i <= s@.len(),
            v@ == old(v)@ + s@.take(i as int),
        decreases s@.len() - i,
    {
        v.push(s[i]);
        assert(s@.take(i + 1) =~= s@.take(i as int).push(s@[i as int]));
        i = i + 1;
    }
    assert(s@.take(s@.len() as int) =~= s@);
}

fn push_str(v: &mut Vec<char>, s: &str)
    ensures
        final(v)@ == old(v)@ + s@,
{
    let cs = str_chars(s);
    push_all(v, &cs);
}

/// `s` right-aligned in three columns.
pub open spec fn right3(s: Seq<char>) -> Seq<char> {
    if s.len() >= 3 { s } else { Seq::new((3 - s.len()) as nat, |i: int| ' ') + s }
}

fn right_aligned3(s: &Vec<char>) -> (out: Vec<char>)
    ensures
        out@ == right3(s@),
{
    let mut out: Vec<char> = Vec::new();
    if s.len() < 3 {
        let pad = 3 - s.len();
        let mut i: usize = 0;
        while i < pad
            invariant
                i <= pad,
                out@ == Seq::new(i as nat, |j: int| ' '),
            decreases pad - i,
        {
            out.push(' ');
            assert(Seq::new((i + 1) as nat, |j: int| ' ') =~= Seq::new(i as nat, |j: int| ' ').push(' '));
            i = i + 1;
        }
    }
    push_all(&mut out, s);
    assert(out@ =~= right3(s@));
    out
}

// ---------------------------------------------------------------------------
// Device texts
// ---------------------------------------------------------------------------

/// The short battery label of the device list: "88%" right-aligned in
/// three columns, volts with two decimals ("3.85V"), nothing when the
/// battery reports neither, nothing for an online device without battery
/// reading, "off" for an offline one.
pub open spec fn battery_label(battery: Option<Battery>, online: bool) -> Seq<char> {
    match battery {
        Some(b) => match b.percent {
            Some(p) => right3(decimal(p as nat)) + "%"@,
            None => match b.millivolts {
                Some(mv) => hundredths_text(centivolts(mv, F32_TARGET as nat) as nat) + "V"@,
                None => Seq::empty(),
            },
        },
        None => if online { Seq::empty() } else { "off"@ },
    }
}

pub fn battery_short(d: &Device) -> (s: String)
    ensures
        s@ == battery_label(d.battery, d.online),
{
    let mut cs: Vec<char> = Vec::new();
    match d.battery {
        Some(b) => match b.percent {
            Some(p) => {
                cs = right_aligned3(&decimal_chars(p as u64));
                push_str(&mut cs, "%");
            },
            None => match b.millivolts {
                Some(mv) => {
                    let c = centivolts_of(mv, F32_TARGET);
                    cs = hundredths_chars(c);
                    push_str(&mut cs, "V");
                },
                None => {},
            },
        },
        None => {
            if !d.online {
                push_str(&mut cs, "off");
            }
        },
    }
    assert(cs@ =~= battery_label(d.battery, d.online));
    string_from_chars(&cs)
}

/// The name a device goes by: its own, else the paired one.
pub open spec fn shown_name(name: Option<Seq<char>>, paired: Seq<char>) -> Seq<char> {
    match name {
        Some(n) => n,
        None => paired,
    }
}

pub fn device_name(d: &Device) -> (s: String)
    ensures
        s@ == shown_name(crate::device::text_view(d.name), d.paired_name@),
{
    match &d.name {
        Some(n) => n.clone(),
        None => d.paired_name.clone(),
    }
}

/// The name in the device list: as [`device_name`], or "kind wpid" when empty.
pub open spec fn list_name(name: Option<Seq<char>>, paired: Seq<char>, kind: &'static str, wpid: u16) -> Seq<char> {
    if shown_name(name, paired).len() == 0 {
        kind@ + " "@ + hex_fixed(wpid as nat, 4)
    } else {
        shown_name(name, paired)
    }
}

pub fn list_label(d: &Device) -> (s: String)
    ensures
        s@ == list_name(crate::device::text_view(d.name), d.paired_name@, d.kind, d.wpid),
{
    let n = device_name(d);
    if n.as_str().is_empty() {
        let mut cs = str_chars(d.kind);
        push_str(&mut cs, " ");
        push_all(&mut cs, &hex_chars(d.wpid as u64, 4));
        string_from_chars(&cs)
    } else {
        n
    }
}

/// The label of the link line: "link" for a direct device, else "receiver".
pub open spec fn link_label(index: u8) -> &'static str {
    if index == DIRECT_INDEX { "link" } else { "receiver" }
}

/// The value of the link line: "Kind (pid)" for a direct device, "Kind (pid) · slot n" for a paired one.
pub open spec fn link_text(index: u8, kind: &'static str, pid: u16) -> Seq<char> {
    if index == DIRECT_INDEX {
        kind@ + " ("@ + hex_fixed(pid as nat, 4) + ")"@
    } else {
        kind@ + " ("@ + hex_fixed(pid as nat, 4) + ") · slot "@ + decimal(index as nat)
    }
}

pub fn link_line(index: u8, kind: &'static str, pid: u16) -> (l: (&'static str, String))
    ensures
        l.0 == link_label(index),
        l.1@ == link_text(index, kind, pid),
{
    let mut cs = str_chars(kind);
    push_str(&mut cs, " (");
    push_all(&mut cs, &hex_chars(pid as u64, 4));
    if index == DIRECT_INDEX {
        push_str(&mut cs, ")");
        assert(cs@ =~= link_text(index, kind, pid));
        ("link", string_from_chars(&cs))
    } else {
        push_str(&mut cs, ") · slot ");
        push_all(&mut cs, &decimal_chars(index as u64));
        assert(cs@ =~= link_text(index, kind, pid));
        ("receiver", string_from_chars(&cs))
    }
}

/// A pid in four hex digits.
pub fn pid_hex(pid: u16) -> (s: String)
    ensures
        s@ == hex_fixed(pid as nat, 4),
{
    string_from_chars(&hex_chars(pid as u64, 4))
}

/// The notes after the DPI: "  (range min–max, default d)", each part only
/// when nonzero (the range when its top is), nothing when neither is.
pub open spec fn dpi_note_text(min: u16, max: u16, default: u16) -> Seq<char> {
    let range = "range "@ + decimal(min as nat) + "–"@ + decimal(max as nat);
    let def = "default "@ + decimal(default as nat);
    if max > 0 && default > 0 {
        "  ("@ + range + ", "@ + def + ")"@
    } else if max > 0 {
        "  ("@ + range + ")"@
    } else if default > 0 {
        "  ("@ + def + ")"@
    } else {
        Seq::empty()
    }
}

pub fn dpi_notes(dpi: &Dpi) -> (s: String)
    ensures
        s@ == dpi_note_text(seg_min(dpi.segments@), seg_max(dpi.segments@), dpi.default),
{
    let min = dpi.min();
    let max = dpi.max();
    let mut cs: Vec<char> = Vec::new();
    if max > 0 || dpi.default > 0 {
        push_str(&mut cs, "  (");
        if max > 0 {
            push_str(&mut cs, "range ");
            push_all(&mut cs, &decimal_chars(min as u64));
            push_str(&mut cs, "–");
            push_all(&mut cs, &decimal_chars(max as u64));
            if dpi.default > 0 {
                push_str(&mut cs, ", ");
            }
        }
        if dpi.default > 0 {
            push_str(&mut cs, "default ");
            push_all(&mut cs, &decimal_chars(dpi.default as u64));
        }
        push_str(&mut cs, ")");
    }
    assert(cs@ =~= dpi_note_text(min, max, dpi.default));
    string_from_chars(&cs)
}

/// The onboard-profiles line: 1 onboard, 2 host.
pub open spec fn onboard_label(mode: u8) -> &'static str {
    if mode == 1 {
        "onboard — the mouse runs its stored profile"
    } else if mode == 2 {
        "host"
    } else {
        "?"
    }
}

pub fn onboard_text(mode: u8) -> (t: &'static str)
    ensures
        t == onboard_label(mode),
{
    match mode {
        1 => "onboard — the mouse runs its stored profile",
        2 => "host",
        _ => "?",
    }
}

/// The charging suffix of the battery gauge.
pub open spec fn charge_label(st: ChargeState) -> &'static str {
    match st {
        ChargeState::Charging => " charging",
        ChargeState::Full => " full",
        ChargeState::Discharging => "",
        ChargeState::Unknown => "",
    }
}

pub fn charge_suffix(st: ChargeState) -> (t: &'static str)
    ensures
        t == charge_label(st),
{
    match st {
        ChargeState::Charging => " charging",
        ChargeState::Full => " full",
        ChargeState::Discharging => "",
        ChargeState::Unknown => "",
    }
}

/// The caption of the battery gauge: "battery 88% charging", "battery
/// 3.85 V" (volts with two decimals), or just "battery".
pub open spec fn battery_caption_text(b: Battery) -> Seq<char> {
    match b.percent {
        Some(p) => "battery "@ + decimal(p as nat) + "%"@ + charge_label(b.status)@,
        None => match b.millivolts {
            Some(mv) => "battery "@ + hundredths_text(centivolts(mv, F64_TARGET as nat) as nat) + " V"@
                + charge_label(b.status)@,
            None => "battery"@,
        },
    }
}

pub fn battery_caption(b: Battery) -> (s: String)
    ensures
        s@ == battery_caption_text(b),
{
    let mut cs: Vec<char> = Vec::new();
    match b.percent {
        Some(p) => {
            push_str(&mut cs, "battery ");
            push_all(&mut cs, &decimal_chars(p as u64));
            push_str(&mut cs, "%");
            push_str(&mut cs, charge_suffix(b.status));
        },
        None => match b.millivolts {
            Some(mv) => {
                push_str(&mut cs, "battery ");
                push_all(&mut cs, &hundredths_chars(centivolts_of(mv, F64_TARGET)));
                push_str(&mut cs, " V");
                push_str(&mut cs, charge_suffix(b.status));
            },
            None => push_str(&mut cs, "battery"),
        },
    }
    assert(cs@ =~= battery_caption_text(b));
    string_from_chars(&cs)
}

/// `s` left-aligned in `w` columns (never cut).
pub open spec fn left_in(s: Seq<char>, w: nat) -> Seq<char> {
    if s.len() >= w { s } else { s + Seq::new((w - s.len()) as nat, |i: int| ' ') }
}

fn pad_right(v: &mut Vec<char>, s: &Vec<char>, w: usize)
    ensures
        final(v)@ == old(v)@ + left_in(s@, w as nat),
{
    push_all(v, s);
    if s.len() < w {
        let pad = w - s.len();
        let ghost mid = v@;
        let mut i: usize = 0;
        while i < pad
            invariant
                i <= pad,
                v@ == mid + Seq::new(i as nat, |j: int| ' '),
            decreases pad - i,
        {
            v.push(' ');
            assert(Seq::new((i + 1) as nat, |j: int| ' ') =~= Seq::new(i as nat, |j: int| ' ').push(' '));
            i = i + 1;
        }
    }
    assert(v@ =~= old(v)@ + left_in(s@, w as nat));
}

/// One device of the `--list` output:
/// "  slot N kind     paired name          wpid 40bd  online".
pub open spec fn slot_line_text(index: u8, kind: &'static str, paired: Seq<char>, wpid: u16, online: bool) -> Seq<char> {
    "  slot "@ + decimal(index as nat) + " "@ + left_in(kind@, 8) + " "@ + left_in(paired, 20) + " wpid "@
        + hex_fixed(wpid as nat, 4) + "  "@ + (if online { "online"@ } else { "offline"@ })
}

pub fn slot_line(d: &Device) -> (s: String)
    ensures
        s@ == slot_line_text(d.index, d.kind, d.paired_name@, d.wpid, d.online),
{
    let mut cs: Vec<char> = Vec::new();
    push_str(&mut cs, "  slot ");
    push_all(&mut cs, &decimal_chars(d.index as u64));
    push_str(&mut cs, " ");
    pad_right(&mut cs, &str_chars(d.kind), 8);
    push_str(&mut cs, " ");
    pad_right(&mut cs, &str_chars(d.paired_name.as_str()), 20);
    push_str(&mut cs, " wpid ");
    push_all(&mut cs, &hex_chars(d.wpid as u64, 4));
    push_str(&mut cs, "  ");
    if d.online {
        push_str(&mut cs, "online");
    } else {
        push_str(&mut cs, "offline");
    }
    assert(cs@ =~= slot_line_text(d.index, d.kind, d.paired_name@, d.wpid, d.online));
    string_from_chars(&cs)
}

/// The error of `receiver(pid)` when no entry has the pid.
pub open spec fn missing_receiver_text(pid: u16) -> Seq<char> {
    "receiver "@ + hex_fixed(pid as nat, 4) + " not found"@
}

pub fn missing_receiver(pid: u16) -> (s: String)
    ensures
        s@ == missing_receiver_text(pid),
{
    let mut cs: Vec<char> = Vec::new();
    push_str(&mut cs, "receiver ");
    push_all(&mut cs, &hex_chars(pid as u64, 4));
    push_str(&mut cs, " not found");
    string_from_chars(&cs)
}


/// The colour band of the battery gauge.
#[derive(Debug, Clone, Copy, PartialEq, Eq, Structural)]
pub enum Level {
    /// The gauge is under 15% full.
    Low,
    /// Under 35% full.
    Medium,
    /// 35% full or more.
    Good,
}

/// The band of a reading: a percentage under 15 is low, under 35 medium;
/// a voltage fills the gauge from 3.5 V to 4.2 V, so under 3.605 V is low
/// and under 3.745 V medium; a reading with neither is low (an empty gauge).
pub open spec fn level_of(b: Battery) -> Level {
    match b.percent {
        Some(p) => if p < 15 { Level::Low } else if p < 35 { Level::Medium } else { Level::Good },
        None => match b.millivolts {
            Some(mv) => if mv < 3605 { Level::Low } else if mv < 3745 { Level::Medium } else { Level::Good },
            None => Level::Low,
        },
    }
}

pub fn battery_level(b: Battery) -> (l: Level)
    ensures
        l == level_of(b),
{
    match b.percent {
        Some(p) => if p < 15 { Level::Low } else if p < 35 { Level::Medium } else { Level::Good },
        None => match b.millivolts {
            Some(mv) => if mv < 3605 { Level::Low } else if mv < 3745 { Level::Medium } else { Level::Good },
            None => Level::Low,
        },
    }
}

} // verus!
