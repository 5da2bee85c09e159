//! The texts of the DPI dialog: reading the typed value, the nearest
//! supported one, the range, the onboard levels and the onboard warning.

use vstd::prelude::*;
use crate::dpi::{seg_max, seg_min, snap_defined, snapped, Dpi};
use crate::text::{decimal, decimal_chars, str_chars, string_from_chars};

verus! {

// ---------------------------------------------------------------------------
// Reading a number
// ---------------------------------------------------------------------------

pub open spec fn is_digit(c: char) -> bool {
    '0' <= c <= '9'
}

/// The value of a string of decimal digits.
pub open spec fn digits_value(s: Seq<char>) -> nat
    decreases s.len(),
{
    if s.len() == 0 {
        0
    } else {
        digits_value(s.drop_last()) * 10 + (s.last() as nat - 48) as nat
    }
}

/// Every character is an ASCII digit.
pub open spec fn all_digits(s: Seq<char>) -> bool {
    forall|i: int| 0 <= i < s.len() ==> is_digit(#[trigger] s[i])
}

/// `str::parse::<u16>`: an optional `+`, then one or more ASCII digits whose
/// value fits 16 bits; anything else is no number.
pub open spec fn parsed_u16(s: Seq<char>) -> Option<u16> {
    let body = if s.len() > 0 && s[0] == '+' { s.drop_first() } else { s };
    if body.len() > 0 && all_digits(body) && digits_value(body) <= 0xffff {
        Some(digits_value(body) as u16)
    } else {
        None
    }
}

proof fn lemma_digits_grow(s: Seq<char>, i: int)
    requires
        0 <= i <= s.len(),
        all_digits(s),
    ensures
        digits_value(s.take(i)) <= digits_value(s),
    decreases s.len() - i,
{
    if i < s.len() {
        lemma_digits_grow(s, i + 1);
        assert(s.take(i + 1).drop_last() =~= s.take(i));
    } else {
        assert(s.take(i) =~= s);
    }
}

/// A typed value, read as `str::parse::<u16>` reads it.
pub fn parse_u16(s: &str) -> (r: Option<u16>)
    ensures
        r == parsed_u16(s@),
{
    let cs = str_chars(s);
    let start: usize = if cs.len() > 0 && cs[0] == '+' { 1 } else { 0 };
    let ghost body = if cs@.len() > 0 && cs@[0] == '+' { cs@.drop_first() } else { cs@ };
    assert(body =~= cs@.skip(start as int));
    if start >= cs.len() {
        return None;
    }
    let mut acc: u32 = 0;
    let mut i: usize = start;
    assert(body.take(0) =~= Seq::<char>::empty());
    while i < cs.len()
        invariant
            start <= i <= cs@.len(),
            cs@ == s@,
            body == (if s@.len() > 0 && s@[0] == '+' { s@.drop_first() } else { s@ }),
            body =~= cs@.skip(start as int),
            acc == digits_value(body.take(i - start)),
            acc <= 0xffff,
            all_digits(body.take(i - start)),
        decreases cs@.len() - i,
    {
        let c = cs[i];
        let ghost k = i - start;
        assert(body[k] == c);
        if !('0' <= c && c <= '9') {
            assert(!is_digit(body[k]));
            assert(!all_digits(body));
            return None;
        }
        let d: u32 = (c as u32) - 48;
        assert(body.take(k + 1).drop_last() =~= body.take(k));
        assert(body.take(k + 1).last() == c);
        assert(all_digits(body.take(k + 1))) by {
            assert forall|j: int| 0 <= j < k + 1 implies is_digit(#[trigger] body.take(k + 1)[j]) by {
                if j < k {
                    assert(body.take(k + 1)[j] == body.take(k)[j]);
                }
            }
        }
        let next: u32 = acc * 10 + d;
        assert(next == digits_value(body.take(k + 1)));
        if next > 0xffff {
            proof {
                if all_digits(body) {
                    lemma_digits_grow(body, k + 1);
                }
            }
            return None;
        }
        acc = next;
        i = i + 1;
    }
    assert(body.take(body.len() as int) =~= body);
    Some(acc as u16)
}

// ---------------------------------------------------------------------------
// The dialog
// ---------------------------------------------------------------------------

/// What the dialog shows beside the typed text: the nearest supported value
/// when it differs from a typed number, "not a number" (an error) for other
/// non-empty input, nothing otherwise.
pub open spec fn input_note_text(dpi_segments: Seq<crate::dpi::DpiSegment>, input: Seq<char>) -> Option<(Seq<char>, bool)> {
    match parsed_u16(input) {
        Some(t) => if snapped(dpi_segments, t) != t {
            Some(("  → "@ + decimal(snapped(dpi_segments, t) as nat) + " (nearest supported)"@, false))
        } else {
            None
        },
        None => if input.len() > 0 { Some(("  not a number"@, true)) } else { None },
    }
}

/// The onboard levels separated by two spaces.
pub open spec fn joined_levels(ps: Seq<u16>) -> Seq<char>
    decreases ps.len(),
{
    if ps.len() == 0 {
        Seq::empty()
    } else if ps.len() == 1 {
        decimal(ps[0] as nat)
    } else {
        joined_levels(ps.drop_last()) + "  "@ + decimal(ps.last() as nat)
    }
}

/// The lines of the DPI dialog below the device's name.
pub struct DpiDialog {
    /// "  now N dpi", after the name.
    pub now: String,
    /// The note after the typed text, and whether it is an error.
    pub input_note: Option<(String, bool)>,
    /// "  range MIN–MAX".
    pub range: String,
    /// "  onboard levels  A  B  C   (←→ to step)", when there are levels.
    pub levels: Option<String>,
    /// The warning while an onboard profile is active.
    pub warning: Option<&'static str>,
}

pub open spec fn onboard_warning() -> &'static str {
    "  onboard profile active — the mouse may revert on its own"
}

/// The dialog's texts for `dpi`, the device's onboard mode, and the typed `input`.
pub open spec fn dpi_dialog_text(
    current: u16,
    segs: Seq<crate::dpi::DpiSegment>,
    presets: Seq<u16>,
    onboard_mode: Option<u8>,
    input: Seq<char>,
    d: DpiDialog,
) -> bool {
    &&& d.now@ == "  now "@ + decimal(current as nat) + " dpi"@
    &&& match (d.input_note, input_note_text(segs, input)) {
        (Some((t, e)), Some((t2, e2))) => t@ == t2 && e == e2,
        (None, None) => true,
        _ => false,
    }
    &&& d.range@ == "  range "@ + decimal(seg_min(segs) as nat) + "–"@ + decimal(seg_max(segs) as nat)
    &&& match d.levels {
        Some(l) => presets.len() > 0 && l@ == "  onboard levels  "@ + joined_levels(presets) + "   (←→ to step)"@,
        None => presets.len() == 0,
    }
    &&& d.warning == (if onboard_mode == Some(1u8) { Some(onboard_warning()) } else { None })
}

fn push_all(v: &mut Vec<char>, s: &Vec<char>)
    ensures
        final(v)@ == old(v)@ + s@,
{
    let mut i: usize = 0;
    while i < s.len()
        invariant
            i <= s@.len(),
            v@ == old(v)@ + s@.take(i as int),
        decreases s@.len() - i,
    {
        v.push(s[i]);
        assert(s@.take(i + 1) =~= s@.take(i as int).push(s@[i as int]));
        i = i + 1;
    }
    assert(s@.take(s@.len() as int) =~= s@);
}

fn levels_chars(ps: &Vec<u16>) -> (cs: Vec<char>)
    ensures
        cs@ == joined_levels(ps@),
{
    let mut cs: Vec<char> = Vec::new();
    let mut i: usize = 0;
    assert(ps@.take(0) =~= Seq::<u16>::empty());
    while i < ps.len()
        invariant
            i <= ps@.len(),
            cs@ == joined_levels(ps@.take(i as int)),
        decreases ps@.len() - i,
    {
        assert(ps@.take(i + 1).drop_last() =~= ps@.take(i as int));
        if i > 0 {
            push_all(&mut cs, &str_chars("  "));
        }
        push_all(&mut cs, &decimal_chars(ps[i] as u64));
        proof {
            if i == 0 {
                assert(cs@ =~= joined_levels(ps@.take(1)));
            }
        }
        i = i + 1;
    }
    assert(ps@.take(ps@.len() as int) =~= ps@);
    cs
}

/// The texts of the DPI dialog.
pub fn dpi_dialog(dpi: &Dpi, onboard_mode: Option<u8>, input: &str) -> (d: DpiDialog)
    requires
        parsed_u16(input@) matches Some(t) ==> snap_defined(dpi.segments@, t),
    ensures
        dpi_dialog_text(dpi.current, dpi.segments@, dpi.presets@, onboard_mode, input@, d),
{
    let mut now = str_chars("  now ");
    push_all(&mut now, &decimal_chars(dpi.current as u64));
    push_all(&mut now, &str_chars(" dpi"));

    let input_note = match parse_u16(input) {
        Some(t) => {
            let s = dpi.snap(t);
            if s != t {
                let mut cs = str_chars("  → ");
                push_all(&mut cs, &decimal_chars(s as u64));
                push_all(&mut cs, &str_chars(" (nearest supported)"));
                Some((string_from_chars(&cs), false))
            } else {
                None
            }
        },
        None => {
            let empty = str_chars(input).len() == 0;
            if !empty {
                Some((String::from_str("  not a number"), true))
            } else {
                None
            }
        },
    };

    let mut range = str_chars("  range ");
    push_all(&mut range, &decimal_chars(dpi.min() as u64));
    push_all(&mut range, &str_chars("–"));
    push_all(&mut range, &decimal_chars(dpi.max() as u64));

    let levels = if dpi.presets.len() > 0 {
        let mut cs = str_chars("  onboard levels  ");
        push_all(&mut cs, &levels_chars(&dpi.presets));
        push_all(&mut cs, &str_chars("   (←→ to step)"));
        Some(string_from_chars(&cs))
    } else {
        None
    };

    let warning = match onboard_mode {
        Some(1) => Some("  onboard profile active — the mouse may revert on its own"),
        _ => None,
    };

    DpiDialog {
        now: string_from_chars(&now),
        input_note,
        range: string_from_chars(&range),
        levels,
        warning,
    }
}

} // verus!
