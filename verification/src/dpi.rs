//! DPI: the segment lists that features 0x2201 / 0x2202 report, and snapping
//! a wanted value to one the sensor accepts.

use vstd::prelude::*;

verus! {

/// `from..=to` every `step` DPI.
#[derive(Debug, Clone, Copy, PartialEq, Eq, Structural)]
pub struct DpiSegment {
    pub from: u16,
    pub to: u16,
    pub step: u16,
}

#[derive(Debug, Clone)]
pub struct Dpi {
    pub current: u16,
    pub default: u16,
    pub segments: Vec<DpiSegment>,
    /// Onboard DPI levels (0x2202 only).
    pub presets: Vec<u16>,
    /// Lift-off distance, passed back unchanged on write.
    pub lod: u8,
}

pub struct DpiView {
    pub current: u16,
    pub default: u16,
    pub segments: Seq<DpiSegment>,
    pub presets: Seq<u16>,
    pub lod: u8,
}

impl View for Dpi {
    type V = DpiView;

    open spec fn view(&self) -> DpiView {
        DpiView {
            current: self.current,
            default: self.default,
            segments: self.segments@,
            presets: self.presets@,
            lod: self.lod,
        }
    }
}

impl Default for Dpi {
    fn default() -> (d: Dpi)
        ensures
            d.current == 0,
            d.default == 0,
            d.segments@ == Seq::<DpiSegment>::empty(),
            d.presets@ == Seq::<u16>::empty(),
            d.lod == 0,
    {
        Dpi { current: 0, default: 0, segments: Vec::new(), presets: Vec::new(), lod: 0 }
    }
}

// ---------------------------------------------------------------------------
// The range stream
// ---------------------------------------------------------------------------

/// The `i`-th big-endian 16-bit word of a byte stream.
pub open spec fn word_at(bytes: Seq<u8>, i: int) -> u16 {
    (bytes[2 * i] as int * 256 + bytes[2 * i + 1] as int) as u16
}

/// The complete big-endian words of a byte stream (a trailing odd byte is dropped).
pub open spec fn words(bytes: Seq<u8>) -> Seq<u16> {
    Seq::new(bytes.len() / 2, |i: int| word_at(bytes, i))
}

/// A word `0xE000 | n` announces a step `n` between the surrounding values.
pub open spec fn is_step_word(w: u16) -> bool {
    w >= 0xe000
}

/// Where a left-to-right reading of the words stands.
pub struct ListScan {
    pub segs: Seq<DpiSegment>,
    pub prev: Option<u16>,
    pub step: u16,
    pub done: bool,
}

pub open spec fn scan_start() -> ListScan {
    ListScan { segs: Seq::empty(), prev: None, step: 0, done: false }
}

/// The segment that a value `w` closes: from the previous value every
/// pending step, or `w` alone as a discrete level.
pub open spec fn closing_segment(prev: Option<u16>, step: u16, w: u16) -> DpiSegment {
    if prev is Some && step > 0 {
        DpiSegment { from: prev->0, to: w, step }
    } else {
        DpiSegment { from: w, to: w, step: 1 }
    }
}

/// One word: `0` ends the list, a step word sets the pending step, any other
/// value closes a segment and becomes the previous value.
pub open spec fn scan_word(st: ListScan, w: u16) -> ListScan {
    if st.done {
        st
    } else if w == 0 {
        ListScan { segs: st.segs, prev: st.prev, step: st.step, done: true }
    } else if is_step_word(w) {
        ListScan { segs: st.segs, prev: st.prev, step: (w - 0xe000) as u16, done: false }
    } else {
        ListScan {
            segs: st.segs.push(closing_segment(st.prev, st.step, w)),
            prev: Some(w),
            step: 0,
            done: false,
        }
    }
}

pub open spec fn scan_words(ws: Seq<u16>) -> ListScan
    decreases ws.len(),
{
    if ws.len() == 0 {
        scan_start()
    } else {
        scan_word(scan_words(ws.drop_last()), ws.last())
    }
}

/// A leading discrete level that is just the start of the next range is dropped.
pub open spec fn collapse_leading(segs: Seq<DpiSegment>) -> Seq<DpiSegment> {
    if segs.len() > 1 && segs[0].from == segs[0].to && segs[0].to == segs[1].from {
        segs.drop_first()
    } else {
        segs
    }
}

/// The segments a DPI list stream decodes to.
pub open spec fn dpi_list(bytes: Seq<u8>) -> Seq<DpiSegment> {
    collapse_leading(scan_words(words(bytes)).segs)
}

/// Every step is at least 1 and fits the 13 bits of a step word.
pub open spec fn steps_in_range(segs: Seq<DpiSegment>) -> bool {
    forall|j: int| 0 <= j < segs.len() ==> 1 <= #[trigger] segs[j].step <= 0x1fff
}

proof fn lemma_scan_steps(ws: Seq<u16>)
    ensures
        steps_in_range(scan_words(ws).segs),
        scan_words(ws).step <= 0x1fff,
    decreases ws.len(),
{
    if ws.len() > 0 {
        lemma_scan_steps(ws.drop_last());
        let st = scan_words(ws.drop_last());
        let w = ws.last();
        if !st.done && w != 0 && !is_step_word(w) {
            assert forall|j: int| 0 <= j < scan_words(ws).segs.len() implies 1
                <= #[trigger] scan_words(ws).segs[j].step <= 0x1fff by {
                if j < st.segs.len() {
                    assert(scan_words(ws).segs[j] == st.segs[j]);
                }
            }
        }
    }
}

/// Once the terminating zero is read, later words change nothing.
proof fn lemma_scan_done_stays(ws: Seq<u16>, k: int)
    requires
        0 <= k <= ws.len(),
        scan_words(ws.take(k)).done,
    ensures
        scan_words(ws) == scan_words(ws.take(k)),
    decreases ws.len(),
{
    if k < ws.len() {
        assert(ws.drop_last().take(k) =~= ws.take(k));
        lemma_scan_done_stays(ws.drop_last(), k);
    } else {
        assert(ws.take(k) =~= ws);
    }
}

/// Decode a DPI list stream: big-endian values, with `0xE000 | step` between
/// two values meaning "every `step` from the previous value to the next",
/// ended by `0x0000` or by the end of the bytes.
pub fn parse_dpi_list(bytes: &[u8]) -> (out: Vec<DpiSegment>)
    ensures
        out@ == dpi_list(bytes@),
        steps_in_range(out@),
{
    let mut out: Vec<DpiSegment> = Vec::new();
    let mut prev: Option<u16> = None;
    let mut pending_step: u16 = 0;
    let mut stopped = false;
    let len = bytes.len();
    let n = len / 2;
    let mut i: usize = 0;
    let ghost ws = words(bytes@);
    assert(ws.take(0) =~= Seq::<u16>::empty());
    while i < n && !stopped
        invariant
            len == bytes@.len(),
            n == len / 2,
            ws == words(bytes@),
            i <= n,
            scan_words(ws.take(i as int)).segs == out@,
            scan_words(ws.take(i as int)).prev == prev,
            scan_words(ws.take(i as int)).step == pending_step,
            scan_words(ws.take(i as int)).done == stopped,
        decreases n - i,
    {
        assert(2 * i + 1 < len) by (nonlinear_arith)
            requires
                i < n,
                n == len / 2,
        ;
        let v: u16 = (bytes[2 * i] as u16) * 256 + (bytes[2 * i + 1] as u16);
        assert(ws.take(i + 1).drop_last() =~= ws.take(i as int));
        assert(ws.take(i + 1).last() == v);
        if v == 0 {
            stopped = true;
        } else if v >= 0xe000 {
            pending_step = v - 0xe000;
        } else {
            let seg = match prev {
                Some(from) if pending_step > 0 => DpiSegment { from, to: v, step: pending_step },
                _ => DpiSegment { from: v, to: v, step: 1 },
            };
            out.push(seg);
            pending_step = 0;
            prev = Some(v);
        }
        i = i + 1;
    }
    proof {
        if stopped {
            lemma_scan_done_stays(ws, i as int);
        } else {
            assert(ws.take(i as int) =~= ws);
        }
        lemma_scan_steps(ws);
    }
    if out.len() > 1 && out[0].from == out[0].to && out[0].to == out[1].from {
        out.remove(0);
        proof {
            assert forall|j: int| 0 <= j < out@.len() implies 1 <= #[trigger] out@[j].step
                <= 0x1fff by {
                assert(out@[j] == scan_words(ws).segs[j + 1]);
            }
        }
    }
    out
}

// ---------------------------------------------------------------------------
// Range and snapping
// ---------------------------------------------------------------------------

/// The lowest DPI: the start of the first segment, 0 without segments.
pub open spec fn seg_min(segs: Seq<DpiSegment>) -> u16 {
    if segs.len() == 0 { 0 } else { segs[0].from }
}

/// The highest DPI: the end of the last segment, 0 without segments.
pub open spec fn seg_max(segs: Seq<DpiSegment>) -> u16 {
    if segs.len() == 0 { 0 } else { segs.last().to }
}

pub open spec fn covers(s: DpiSegment, v: int) -> bool {
    s.from <= v <= s.to
}

/// Index of the first segment at or after `i` that covers `v`, -1 when none does.
pub open spec fn first_covering(segs: Seq<DpiSegment>, v: int, i: int) -> int
    decreases segs.len() - i,
{
    if i < 0 || i >= segs.len() {
        -1
    } else if covers(segs[i], v) {
        i
    } else {
        first_covering(segs, v, i + 1)
    }
}

/// The greatest segment end at or below `v`, if any.
pub open spec fn gap_below(segs: Seq<DpiSegment>, v: int) -> Option<u16>
    decreases segs.len(),
{
    if segs.len() == 0 {
        None
    } else {
        let r = gap_below(segs.drop_last(), v);
        let t = segs.last().to;
        if t <= v {
            match r {
                Some(b) => Some(if t > b { t } else { b }),
                None => Some(t),
            }
        } else {
            r
        }
    }
}

/// The least segment start at or above `v`, if any.
pub open spec fn gap_above(segs: Seq<DpiSegment>, v: int) -> Option<u16>
    decreases segs.len(),
{
    if segs.len() == 0 {
        None
    } else {
        let r = gap_above(segs.drop_last(), v);
        let f = segs.last().from;
        if f >= v {
            match r {
                Some(a) => Some(if f < a { f } else { a }),
                None => Some(f),
            }
        } else {
            r
        }
    }
}

/// `v` held to `lo..=hi`.
pub open spec fn clamp_to(v: u16, lo: u16, hi: u16) -> u16 {
    if v < lo { lo } else if v > hi { hi } else { v }
}

/// The grid index a covered value rounds to inside segment `s`.
pub open spec fn grid_index(s: DpiSegment, c: int) -> int {
    (c - s.from + s.step / 2) / (s.step as int)
}

/// What snapping `v` gives: the value held to the range; inside a segment the
/// nearest grid point (rounding halves up), capped at the segment's end;
/// in a gap between segments the closer boundary, the lower one on a tie.
pub open spec fn snapped(segs: Seq<DpiSegment>, v: u16) -> int {
    if segs.len() == 0 {
        v as int
    } else {
        let c = clamp_to(v, seg_min(segs), seg_max(segs)) as int;
        let i = first_covering(segs, c, 0);
        if i >= 0 {
            let s = segs[i];
            let g = s.from + grid_index(s, c) * s.step;
            if g < s.to { g } else { s.to as int }
        } else {
            let below = match gap_below(segs, c) {
                Some(b) => b as int,
                None => seg_min(segs) as int,
            };
            let above = match gap_above(segs, c) {
                Some(a) => a as int,
                None => seg_max(segs) as int,
            };
            if c - below <= above - c { below } else { above }
        }
    }
}

/// Snapping `v` neither divides by a zero step nor leaves 16 bits on the
/// way: the range is not inverted, and the segment that covers the held value
/// has a nonzero step whose rounding stays below 65536.
pub open spec fn snap_defined(segs: Seq<DpiSegment>, v: u16) -> bool {
    segs.len() > 0 ==> {
        let c = clamp_to(v, seg_min(segs), seg_max(segs)) as int;
        let i = first_covering(segs, c, 0);
        &&& seg_min(segs) <= seg_max(segs)
        &&& i >= 0 ==> {
            let s = segs[i];
            &&& s.step > 0
            &&& c - s.from + s.step / 2 <= 0xffff
            &&& s.from + grid_index(s, c) * s.step <= 0xffff
        }
    }
}

proof fn lemma_first_covering_step(segs: Seq<DpiSegment>, v: int, i: int)
    requires
        0 <= i < segs.len(),
        !covers(segs[i], v),
    ensures
        first_covering(segs, v, i) == first_covering(segs, v, i + 1),
{
}

proof fn lemma_first_covering_range(segs: Seq<DpiSegment>, v: int, i: int)
    requires
        0 <= i,
    ensures
        first_covering(segs, v, i) == -1 || (i <= first_covering(segs, v, i) < segs.len()
            && covers(segs[first_covering(segs, v, i)], v)),
    decreases segs.len() - i,
{
    if i < segs.len() && !covers(segs[i], v) {
        lemma_first_covering_range(segs, v, i + 1);
    }
}

impl Dpi {
    pub fn min(&self) -> (m: u16)
        ensures
            m == seg_min(self.segments@),
    {
        if self.segments.len() == 0 {
            0
        } else {
            self.segments[0].from
        }
    }

    pub fn max(&self) -> (m: u16)
        ensures
            m == seg_max(self.segments@),
    {
        let n = self.segments.len();
        if n == 0 {
            0
        } else {
            self.segments[n - 1].to
        }
    }

    /// Whether [`Dpi::snap`] is defined at `v` (see `snap_defined`).
    pub fn snap_defined_at(&self, v: u16) -> (ok: bool)
        ensures
            ok == snap_defined(self.segments@, v),
    {
        let n = self.segments.len();
        if n == 0 {
            return true;
        }
        let lo = self.min();
        let hi = self.max();
        if lo > hi {
            return false;
        }
        let c = if v < lo { lo } else if v > hi { hi } else { v };
        proof {
            lemma_first_covering_range(self.segments@, c as int, 0);
        }
        match self.first_covering_index(c) {
            None => true,
            Some(i) => {
                let s = self.segments[i];
                if s.step == 0 {
                    return false;
                }
                let num: u32 = (c - s.from) as u32 + (s.step / 2) as u32;
                if num > 0xffff {
                    return false;
                }
                let k: u32 = num / (s.step as u32);
                proof {
                    assert(k * (s.step as int) <= num) by (nonlinear_arith)
                        requires k == num as int / (s.step as int), s.step > 0;
                }
                (s.from as u32) + k * (s.step as u32) <= 0xffff
            },
        }
    }

    /// The first segment covering `c`.
    fn first_covering_index(&self, c: u16) -> (r: Option<usize>)
        ensures
            match r {
                Some(i) => i as int == first_covering(self.segments@, c as int, 0),
                None => first_covering(self.segments@, c as int, 0) == -1,
            },
    {
        let n = self.segments.len();
        let mut i: usize = 0;
        while i < n
            invariant
                n == self.segments@.len(),
                i <= n,
                first_covering(self.segments@, c as int, 0) == first_covering(
                    self.segments@,
                    c as int,
                    i as int,
                ),
            decreases n - i,
        {
            let s = self.segments[i];
            if c >= s.from && c <= s.to {
                return Some(i);
            }
            proof {
                lemma_first_covering_step(self.segments@, c as int, i as int);
            }
            i = i + 1;
        }
        None
    }

    /// Nearest value the sensor accepts.
    pub fn snap(&self, v: u16) -> (r: u16)
        requires
            snap_defined(self.segments@, v),
        ensures
            r == snapped(self.segments@, v),
    {
        let n = self.segments.len();
        if n == 0 {
            return v;
        }
        let lo = self.min();
        let hi = self.max();
        let c = if v < lo { lo } else if v > hi { hi } else { v };
        proof {
            lemma_first_covering_range(self.segments@, c as int, 0);
        }
        match self.first_covering_index(c) {
            Some(i) => {
                let s = self.segments[i];
                let k = (c - s.from + s.step / 2) / s.step;
                proof {
                    assert(k * s.step <= c - s.from + s.step / 2) by (nonlinear_arith)
                        requires k as int == (c - s.from + s.step / 2) as int / (s.step as int), s.step > 0;
                }
                let g = s.from + k * s.step;
                if g < s.to { g } else { s.to }
            },
            None => {
                let below = self.gap_below_of(c);
                let above = self.gap_above_of(c);
                let b = match below { Some(b) => b, None => lo };
                let a = match above { Some(a) => a, None => hi };
                proof {
                    lemma_gap_below_le(self.segments@, c as int);
                    lemma_gap_above_ge(self.segments@, c as int);
                }
                if c - b <= a - c { b } else { a }
            },
        }
    }

    fn gap_below_of(&self, c: u16) -> (r: Option<u16>)
        ensures
            r == gap_below(self.segments@, c as int),
    {
        let n = self.segments.len();
        let mut best: Option<u16> = None;
        let mut i: usize = 0;
        assert(self.segments@.take(0) =~= Seq::<DpiSegment>::empty());
        while i < n
            invariant
                n == self.segments@.len(),
                i <= n,
                best == gap_below(self.segments@.take(i as int), c as int),
            decreases n - i,
        {
            let t = self.segments[i].to;
            assert(self.segments@.take(i + 1).drop_last() =~= self.segments@.take(i as int));
            if t <= c {
                best = match best {
                    Some(b) => Some(if t > b { t } else { b }),
                    None => Some(t),
                };
            }
            i = i + 1;
        }
        assert(self.segments@.take(n as int) =~= self.segments@);
        best
    }

    fn gap_above_of(&self, c: u16) -> (r: Option<u16>)
        ensures
            r == gap_above(self.segments@, c as int),
    {
        let n = self.segments.len();
        let mut best: Option<u16> = None;
        let mut i: usize = 0;
        assert(self.segments@.take(0) =~= Seq::<DpiSegment>::empty());
        while i < n
            invariant
                n == self.segments@.len(),
                i <= n,
                best == gap_above(self.segments@.take(i as int), c as int),
            decreases n - i,
        {
            let f = self.segments[i].from;
            assert(self.segments@.take(i + 1).drop_last() =~= self.segments@.take(i as int));
            if f >= c {
                best = match best {
                    Some(a) => Some(if f < a { f } else { a }),
                    None => Some(f),
                };
            }
            i = i + 1;
        }
        assert(self.segments@.take(n as int) =~= self.segments@);
        best
    }
}

proof fn lemma_gap_below_le(segs: Seq<DpiSegment>, v: int)
    ensures
        gap_below(segs, v) matches Some(b) ==> b <= v,
    decreases segs.len(),
{
    if segs.len() > 0 {
        lemma_gap_below_le(segs.drop_last(), v);
    }
}

proof fn lemma_gap_above_ge(segs: Seq<DpiSegment>, v: int)
    ensures
        gap_above(segs, v) matches Some(a) ==> a >= v,
    decreases segs.len(),
{
    if segs.len() > 0 {
        lemma_gap_above_ge(segs.drop_last(), v);
    }
}

proof fn lemma_gap_below_witness(segs: Seq<DpiSegment>, v: int) -> (j: int)
    requires
        gap_below(segs, v) is Some,
    ensures
        0 <= j < segs.len(),
        segs[j].to == gap_below(segs, v)->0,
    decreases segs.len(),
{
    let r = gap_below(segs.drop_last(), v);
    let t = segs.last().to;
    if t <= v && (r is None || t > r->0) {
        segs.len() - 1
    } else {
        lemma_gap_below_witness(segs.drop_last(), v)
    }
}

proof fn lemma_gap_above_witness(segs: Seq<DpiSegment>, v: int) -> (j: int)
    requires
        gap_above(segs, v) is Some,
    ensures
        0 <= j < segs.len(),
        segs[j].from == gap_above(segs, v)->0,
    decreases segs.len(),
{
    let r = gap_above(segs.drop_last(), v);
    let f = segs.last().from;
    if f >= v && (r is None || f < r->0) {
        segs.len() - 1
    } else {
        lemma_gap_above_witness(segs.drop_last(), v)
    }
}

/// `r` is a value segment `s` offers: inside it, on its grid or at its end.
pub open spec fn on_grid(s: DpiSegment, r: int) -> bool {
    &&& covers(s, r)
    &&& (r == s.to || (r - s.from) % (s.step as int) == 0)
}

/// `r` is a value that some segment offers.
pub open spec fn accepted(segs: Seq<DpiSegment>, r: int) -> bool {
    exists|j: int| 0 <= j < segs.len() && on_grid(#[trigger] segs[j], r)
}

/// Every segment runs upward (`from <= to`) with a nonzero step.
pub open spec fn upward(segs: Seq<DpiSegment>) -> bool {
    forall|j: int| 0 <= j < segs.len() ==> #[trigger] segs[j].from <= segs[j].to && segs[j].step > 0
}

proof fn lemma_grid_multiple(k: int, step: int)
    requires
        k >= 0,
        step > 0,
    ensures
        (k * step) % step == 0,
        k * step >= 0,
{
    assert((k * step) % step == 0) by (nonlinear_arith)
        requires
            k >= 0,
            step > 0,
    ;
    assert(k * step >= 0) by (nonlinear_arith)
        requires
            k >= 0,
            step > 0,
    ;
}

/// Snapping gives a value the sensor accepts: over upward segments with
/// nonzero steps, wherever
/// snapping is defined, the result lies on some segment's grid or at its end.
pub proof fn law_snap_accepted(segs: Seq<DpiSegment>, v: u16)
    requires
        segs.len() > 0,
        upward(segs),
        snap_defined(segs, v),
    ensures
        accepted(segs, snapped(segs, v)),
{
    let c = clamp_to(v, seg_min(segs), seg_max(segs)) as int;
    let i = first_covering(segs, c, 0);
    lemma_first_covering_range(segs, c, 0);
    let r = snapped(segs, v);
    if i >= 0 {
        let s = segs[i];
        let k = grid_index(s, c);
        assert(k >= 0) by (nonlinear_arith)
            requires
                k == (c - s.from + s.step / 2) / (s.step as int),
                c >= s.from,
                s.step > 0,
        ;
        lemma_grid_multiple(k, s.step as int);
        assert(on_grid(segs[i], r));
    } else {
        lemma_gap_below_le(segs, c);
        lemma_gap_above_ge(segs, c);
        if gap_below(segs, c) is Some {
            let j = lemma_gap_below_witness(segs, c);
            assert(segs[j].from <= segs[j].to && segs[j].step > 0);
            assert(on_grid(segs[j], segs[j].to as int));
        } else {
            assert(segs[0].from <= segs[0].to && segs[0].step > 0);
            lemma_grid_multiple(0, segs[0].step as int);
            assert(on_grid(segs[0], segs[0].from as int));
        }
        if gap_above(segs, c) is Some {
            let j = lemma_gap_above_witness(segs, c);
            assert(segs[j].from <= segs[j].to && segs[j].step > 0);
            lemma_grid_multiple(0, segs[j].step as int);
            assert(on_grid(segs[j], segs[j].from as int));
        } else {
            assert(segs[segs.len() - 1].from <= segs[segs.len() - 1].to);
            assert(on_grid(segs[segs.len() - 1], segs.last().to as int));
        }
    }
}

/// A value already on the grid of the segment that covers it is kept as it is.
pub proof fn law_snap_keeps_grid_values(segs: Seq<DpiSegment>, v: u16)
    requires
        segs.len() > 0,
        seg_min(segs) <= v <= seg_max(segs),
        first_covering(segs, v as int, 0) >= 0,
        segs[first_covering(segs, v as int, 0)].step > 0,
        (v - segs[first_covering(segs, v as int, 0)].from) % (segs[first_covering(
            segs,
            v as int,
            0,
        )].step as int) == 0,
    ensures
        snapped(segs, v) == v,
{
    let i = first_covering(segs, v as int, 0);
    lemma_first_covering_range(segs, v as int, 0);
    let s = segs[i];
    let d = v - s.from;
    let st = s.step as int;
    let j = d / st;
    assert(grid_index(s, v as int) == j) by (nonlinear_arith)
        requires
            d >= 0,
            st > 0,
            d % st == 0,
            j == d / st,
            grid_index(s, v as int) == (d + st / 2) / st,
    ;
    assert(s.from + j * st == v) by (nonlinear_arith)
        requires
            d >= 0,
            st > 0,
            d % st == 0,
            j == d / st,
            d == v - s.from,
    ;
}

/// Values below the range snap as the range's start does, values above as its end does.
pub proof fn law_snap_clamps(segs: Seq<DpiSegment>, v: u16)
    requires
        segs.len() > 0,
        seg_min(segs) <= seg_max(segs),
    ensures
        v < seg_min(segs) ==> snapped(segs, v) == snapped(segs, seg_min(segs)),
        v > seg_max(segs) ==> snapped(segs, v) == snapped(segs, seg_max(segs)),
{
}


// ---------------------------------------------------------------------------
// Snapping gives the nearest accepted value
// ---------------------------------------------------------------------------

/// A segment as sensors report it: upward, with a nonzero step that divides
/// its length, and rounding inside it stays within 16 bits.
pub open spec fn segment_ok(s: DpiSegment) -> bool {
    &&& s.from <= s.to
    &&& s.step > 0
    &&& (s.to - s.from) % (s.step as int) == 0
    &&& s.to + s.step / 2 <= 0xffff
}

/// Segment `j` ends no later than segment `j + 1` starts.
pub open spec fn ordered_at(segs: Seq<DpiSegment>, j: int) -> bool {
    segs[j].to <= segs[j + 1].from
}

/// Well-formed segments, in increasing order and not overlapping (a segment
/// may end where the next starts).
pub open spec fn well_formed_dpi(segs: Seq<DpiSegment>) -> bool {
    &&& forall|j: int| 0 <= j < segs.len() ==> #[trigger] segment_ok(segs[j])
    &&& forall|j: int| 0 <= j < segs.len() - 1 ==> #[trigger] ordered_at(segs, j)
}

/// The distance between two values.
pub open spec fn dist(x: int, y: int) -> int {
    if x >= y { x - y } else { y - x }
}

proof fn lemma_ordered(segs: Seq<DpiSegment>, i: int, j: int)
    requires
        well_formed_dpi(segs),
        0 <= i < j < segs.len(),
    ensures
        segs[i].to <= segs[j].from,
    decreases j - i,
{
    assert(ordered_at(segs, j - 1));
    if j > i + 1 {
        lemma_ordered(segs, i, j - 1);
        assert(segment_ok(segs[j - 1]));
    }
}

proof fn lemma_within_range(segs: Seq<DpiSegment>, j: int)
    requires
        well_formed_dpi(segs),
        0 <= j < segs.len(),
    ensures
        seg_min(segs) <= segs[j].from <= segs[j].to <= seg_max(segs),
{
    assert(segment_ok(segs[0]));
    assert(segment_ok(segs[j]));
    assert(segment_ok(segs[segs.len() - 1]));
    if j > 0 {
        lemma_ordered(segs, 0, j);
    }
    if j < segs.len() - 1 {
        lemma_ordered(segs, j, segs.len() - 1);
    }
}

proof fn lemma_accepted_in_range(segs: Seq<DpiSegment>, a: int)
    requires
        well_formed_dpi(segs),
        accepted(segs, a),
    ensures
        seg_min(segs) <= a <= seg_max(segs),
{
    let j = choose|j: int| 0 <= j < segs.len() && on_grid(#[trigger] segs[j], a);
    lemma_within_range(segs, j);
}

/// Rounding `d` to a multiple of `step`, halves up, gives a multiple at
/// least as close to `d` as any other non-negative one.
proof fn lemma_round_nearest(d: int, step: int, k: int, m: int)
    requires
        step > 0,
        d >= 0,
        k == (d + step / 2) / step,
        m >= 0,
    ensures
        k >= 0,
        dist(k * step, d) <= dist(m * step, d),
{
    let h = step / 2;
    assert(k * step <= d + h && d + h < k * step + step && k >= 0) by (nonlinear_arith)
        requires
            step > 0,
            d >= 0,
            h >= 0,
            k == (d + h) / step,
    ;
    assert(2 * h <= step && 2 * h >= step - 1);
    if m >= k + 1 {
        assert(m * step >= k * step + step) by (nonlinear_arith)
            requires
                m >= k + 1,
                step > 0,
        ;
    } else if m <= k - 1 {
        assert(m * step <= k * step - step) by (nonlinear_arith)
            requires
                m <= k - 1,
                step > 0,
        ;
    }
}

/// Inside the segment that covers `c`, the rounded grid point lies on the
/// segment's grid and is at least as close to `c` as any accepted value.
proof fn lemma_covered_nearest(segs: Seq<DpiSegment>, c: int, i: int)
    requires
        well_formed_dpi(segs),
        0 <= i < segs.len(),
        covers(segs[i], c),
    ensures
        segs[i].from + grid_index(segs[i], c) * segs[i].step <= segs[i].to,
        on_grid(segs[i], segs[i].from + grid_index(segs[i], c) * segs[i].step),
        forall|a: int| #[trigger] accepted(segs, a) ==> dist(
            segs[i].from + grid_index(segs[i], c) * segs[i].step,
            c,
        ) <= dist(a, c),
{
    let s = segs[i];
    assert(segment_ok(s));
    let st = s.step as int;
    let d = c - s.from;
    let k = grid_index(s, c);
    let len = s.to - s.from;
    let big_m = len / st;
    assert(len == big_m * st) by (nonlinear_arith)
        requires
            st > 0,
            len >= 0,
            len % st == 0,
            big_m == len / st,
    ;
    assert(big_m >= 0) by (nonlinear_arith)
        requires
            st > 0,
            len >= 0,
            big_m == len / st,
    ;
    lemma_round_nearest(d, st, k, 0);
    assert(k <= big_m && k * st <= big_m * st) by (nonlinear_arith)
        requires
            st > 0,
            k == (d + st / 2) / st,
            d <= big_m * st,
            d >= 0,
    ;
    lemma_grid_multiple(k, st);
    let g = s.from + k * st;
    assert(on_grid(s, g));
    assert forall|a: int| #[trigger] accepted(segs, a) implies dist(g, c) <= dist(a, c) by {
        let j = choose|j: int| 0 <= j < segs.len() && on_grid(#[trigger] segs[j], a);
        if j == i {
            if a == s.to {
                lemma_round_nearest(d, st, k, big_m);
            } else {
                let m = (a - s.from) / st;
                assert(a - s.from == m * st && m >= 0) by (nonlinear_arith)
                    requires
                        st > 0,
                        a - s.from >= 0,
                        (a - s.from) % st == 0,
                        m == (a - s.from) / st,
                ;
                lemma_round_nearest(d, st, k, m);
            }
        } else if j < i {
            lemma_ordered(segs, j, i);
            lemma_round_nearest(d, st, k, 0);
        } else {
            lemma_ordered(segs, i, j);
            lemma_round_nearest(d, st, k, big_m);
        }
    }
}

proof fn lemma_first_covering_none(segs: Seq<DpiSegment>, v: int, i: int)
    requires
        0 <= i,
        first_covering(segs, v, i) == -1,
    ensures
        forall|j: int| i <= j < segs.len() ==> !covers(#[trigger] segs[j], v),
    decreases segs.len() - i,
{
    if i < segs.len() {
        lemma_first_covering_none(segs, v, i + 1);
    }
}

proof fn lemma_gap_below_max(segs: Seq<DpiSegment>, v: int, j: int)
    requires
        0 <= j < segs.len(),
        segs[j].to <= v,
    ensures
        gap_below(segs, v) is Some,
        gap_below(segs, v)->0 >= segs[j].to,
    decreases segs.len(),
{
    if j < segs.len() - 1 {
        assert(segs.drop_last()[j] == segs[j]);
        lemma_gap_below_max(segs.drop_last(), v, j);
    }
}

proof fn lemma_gap_above_min(segs: Seq<DpiSegment>, v: int, j: int)
    requires
        0 <= j < segs.len(),
        segs[j].from >= v,
    ensures
        gap_above(segs, v) is Some,
        gap_above(segs, v)->0 <= segs[j].from,
    decreases segs.len(),
{
    if j < segs.len() - 1 {
        assert(segs.drop_last()[j] == segs[j]);
        lemma_gap_above_min(segs.drop_last(), v, j);
    }
}

/// Between segments, the closer of the nearest end below and the nearest
/// start above is accepted and at least as close as any accepted value.
proof fn lemma_gap_nearest(segs: Seq<DpiSegment>, c: int)
    requires
        well_formed_dpi(segs),
        segs.len() > 0,
        seg_min(segs) <= c <= seg_max(segs),
        first_covering(segs, c, 0) == -1,
    ensures
        gap_below(segs, c) is Some,
        gap_above(segs, c) is Some,
        ({
            let b = gap_below(segs, c)->0 as int;
            let a = gap_above(segs, c)->0 as int;
            let r = if c - b <= a - c { b } else { a };
            &&& accepted(segs, r)
            &&& forall|x: int| #[trigger] accepted(segs, x) ==> dist(r, c) <= dist(x, c)
        }),
{
    let n = segs.len() as int;
    lemma_first_covering_none(segs, c, 0);
    assert(!covers(segs[0], c));
    assert(!covers(segs[n - 1], c));
    assert(segment_ok(segs[0]));
    assert(segment_ok(segs[n - 1]));
    lemma_gap_below_max(segs, c, 0);
    lemma_gap_above_min(segs, c, n - 1);
    lemma_gap_below_le(segs, c);
    lemma_gap_above_ge(segs, c);
    let b = gap_below(segs, c)->0 as int;
    let a = gap_above(segs, c)->0 as int;
    let r = if c - b <= a - c { b } else { a };
    let jb = lemma_gap_below_witness(segs, c);
    let ja = lemma_gap_above_witness(segs, c);
    assert(segment_ok(segs[jb]));
    assert(segment_ok(segs[ja]));
    lemma_grid_multiple(0, segs[ja].step as int);
    assert(on_grid(segs[jb], b));
    assert(on_grid(segs[ja], a));
    assert(accepted(segs, r));
    assert forall|x: int| #[trigger] accepted(segs, x) implies dist(r, c) <= dist(x, c) by {
        let j = choose|j: int| 0 <= j < segs.len() && on_grid(#[trigger] segs[j], x);
        assert(!covers(segs[j], c));
        if c < segs[j].from {
            lemma_gap_above_min(segs, c, j);
        } else {
            lemma_gap_below_max(segs, c, j);
        }
    }
}

/// "Nearest value the sensor accepts": over well-formed segments, snapping
/// is defined everywhere, gives an accepted value, and no accepted value is
/// closer to the one asked for.
pub proof fn law_snap_nearest(segs: Seq<DpiSegment>, v: u16)
    requires
        segs.len() > 0,
        well_formed_dpi(segs),
    ensures
        snap_defined(segs, v),
        accepted(segs, snapped(segs, v)),
        forall|a: int| #[trigger] accepted(segs, a) ==> dist(snapped(segs, v), v as int) <= dist(a, v as int),
{
    let n = segs.len() as int;
    let lo = seg_min(segs) as int;
    let hi = seg_max(segs) as int;
    lemma_within_range(segs, 0);
    lemma_within_range(segs, n - 1);
    let c = clamp_to(v, seg_min(segs), seg_max(segs)) as int;
    let i = first_covering(segs, c, 0);
    lemma_first_covering_range(segs, c, 0);
    let r = snapped(segs, v);
    if i >= 0 {
        lemma_covered_nearest(segs, c, i);
        assert(segment_ok(segs[i]));
    } else {
        lemma_gap_nearest(segs, c);
    }
    assert(accepted(segs, r));
    assert(forall|a: int| #[trigger] accepted(segs, a) ==> dist(r, c) <= dist(a, c));
    // The ends of the range are accepted.
    assert(segment_ok(segs[0]));
    assert(segment_ok(segs[n - 1]));
    lemma_grid_multiple(0, segs[0].step as int);
    assert(on_grid(segs[0], lo));
    assert(accepted(segs, lo));
    assert(on_grid(segs[n - 1], hi));
    assert(accepted(segs, hi));
    if (v as int) < lo {
        assert(dist(r, c) <= dist(lo, c));
    } else if (v as int) > hi {
        assert(dist(r, c) <= dist(hi, c));
    }
    assert forall|a: int| #[trigger] accepted(segs, a) implies dist(r, v as int) <= dist(a, v as int) by {
        lemma_accepted_in_range(segs, a);
    }
}

/// Snapping twice changes nothing: over well-formed segments a snapped
/// value is a DPI, snapping is defined on it, and it snaps to itself.
pub proof fn law_snap_idempotent(segs: Seq<DpiSegment>, v: u16)
    requires
        segs.len() > 0,
        well_formed_dpi(segs),
    ensures
        0 <= snapped(segs, v) <= 0xffff,
        snap_defined(segs, snapped(segs, v) as u16),
        snapped(segs, snapped(segs, v) as u16) == snapped(segs, v),
{
    law_snap_nearest(segs, v);
    let r = snapped(segs, v);
    lemma_accepted_in_range(segs, r);
    let w = r as u16;
    assert(w as int == r);
    law_snap_nearest(segs, w);
    assert(accepted(segs, r));
    assert(dist(snapped(segs, w), w as int) <= dist(r, w as int));
}


// ---------------------------------------------------------------------------
// What a range stream decodes to
// ---------------------------------------------------------------------------

/// The big-endian bytes of a sequence of words.
pub open spec fn word_bytes(ws: Seq<u16>) -> Seq<u8>
    decreases ws.len(),
{
    if ws.len() == 0 {
        Seq::empty()
    } else {
        word_bytes(ws.drop_last()) + seq![(ws.last() / 256) as u8, (ws.last() % 256) as u8]
    }
}

/// The words of a chain of ranges: a start value, then for each range its
/// step word `0xE000 | step` and its end value.
pub open spec fn chain_words(start: u16, ranges: Seq<(u16, u16)>) -> Seq<u16>
    decreases ranges.len(),
{
    if ranges.len() == 0 {
        seq![start]
    } else {
        chain_words(start, ranges.drop_last()).push((0xe000 + ranges.last().0) as u16).push(ranges.last().1)
    }
}

/// The segments such a chain describes: range `i` runs from the end of the
/// range before it (the start value for the first) to its own end.
pub open spec fn chain_segments(start: u16, ranges: Seq<(u16, u16)>) -> Seq<DpiSegment> {
    Seq::new(
        ranges.len(),
        |i: int| DpiSegment { from: if i == 0 { start } else { ranges[i - 1].1 }, to: ranges[i].1, step: ranges[i].0 },
    )
}

proof fn lemma_word_bytes(ws: Seq<u16>)
    ensures
        word_bytes(ws).len() == 2 * ws.len(),
        forall|i: int| 0 <= i < ws.len() ==> #[trigger] word_bytes(ws)[2 * i] == (ws[i] / 256) as u8
            && word_bytes(ws)[2 * i + 1] == (ws[i] % 256) as u8,
    decreases ws.len(),
{
    if ws.len() > 0 {
        lemma_word_bytes(ws.drop_last());
        let n = ws.len() - 1;
        assert forall|i: int| 0 <= i < ws.len() implies #[trigger] word_bytes(ws)[2 * i] == (ws[i] / 256) as u8
            && word_bytes(ws)[2 * i + 1] == (ws[i] % 256) as u8 by {
            if i < n {
                assert(ws.drop_last()[i] == ws[i]);
                assert(word_bytes(ws.drop_last())[2 * i] == (ws[i] / 256) as u8);
            }
        }
    }
}

proof fn lemma_words_of_word_bytes(ws: Seq<u16>)
    ensures
        words(word_bytes(ws)) == ws,
{
    lemma_word_bytes(ws);
    assert forall|i: int| 0 <= i < ws.len() implies #[trigger] words(word_bytes(ws))[i] == ws[i] by {
        let w = ws[i];
        assert(word_bytes(ws)[2 * i] == (w / 256) as u8);
        assert(word_bytes(ws)[2 * i + 1] == (w % 256) as u8);
        assert((w / 256) as int * 256 + (w % 256) as int == w as int);
    }
    assert(words(word_bytes(ws)) =~= ws);
}

/// Every range has a step that fits a step word and an end that is a value word.
pub open spec fn chain_ok(start: u16, ranges: Seq<(u16, u16)>) -> bool {
    &&& 0 < start < 0xe000
    &&& forall|i: int| 0 <= i < ranges.len() ==> 1 <= (#[trigger] ranges[i]).0 <= 0x1fff && 0 < ranges[i].1 < 0xe000
}

proof fn lemma_scan_chain(start: u16, ranges: Seq<(u16, u16)>)
    requires
        chain_ok(start, ranges),
    ensures
        scan_words(chain_words(start, ranges)) == (ListScan {
            segs: seq![DpiSegment { from: start, to: start, step: 1 }] + chain_segments(start, ranges),
            prev: Some(if ranges.len() == 0 { start } else { ranges.last().1 }),
            step: 0,
            done: false,
        }),
    decreases ranges.len(),
{
    let ws = chain_words(start, ranges);
    if ranges.len() == 0 {
        assert(ws.drop_last() =~= Seq::<u16>::empty());
        assert(scan_words(ws.drop_last()) == scan_start());
        assert(scan_words(ws) == scan_word(scan_start(), start));
        assert(seq![DpiSegment { from: start, to: start, step: 1 }] + chain_segments(start, ranges)
            =~= seq![DpiSegment { from: start, to: start, step: 1 }]);
        assert(Seq::<DpiSegment>::empty().push(DpiSegment { from: start, to: start, step: 1 })
            =~= seq![DpiSegment { from: start, to: start, step: 1 }]);
    } else {
        let rest = ranges.drop_last();
        assert(chain_ok(start, rest)) by {
            assert forall|i: int| 0 <= i < rest.len() implies 1 <= (#[trigger] rest[i]).0 <= 0x1fff
                && 0 < rest[i].1 < 0xe000 by {
                assert(rest[i] == ranges[i]);
            }
        }
        lemma_scan_chain(start, rest);
        let (st, to) = ranges.last();
        assert(1 <= st <= 0x1fff && 0 < to < 0xe000) by {
            assert(ranges[ranges.len() - 1] == ranges.last());
        }
        let before = chain_words(start, rest);
        let mid = before.push((0xe000 + st) as u16);
        assert(ws == mid.push(to));
        assert(ws.drop_last() =~= mid);
        assert(mid.drop_last() =~= before);
        let prev = if rest.len() == 0 { start } else { rest.last().1 };
        let sw = (0xe000 + st) as u16;
        assert(sw >= 0xe000 && sw - 0xe000 == st);
        assert(scan_words(mid) == scan_word(scan_words(before), sw));
        assert(scan_words(ws) == scan_word(scan_words(mid), to));
        assert(!is_step_word(to) && to != 0);
        assert(chain_segments(start, ranges) =~= chain_segments(start, rest).push(
            DpiSegment { from: prev, to, step: st },
        )) by {
            if rest.len() > 0 {
                assert(ranges[ranges.len() - 2] == rest.last());
            }
        }
        assert(seq![DpiSegment { from: start, to: start, step: 1 }] + chain_segments(start, ranges)
            =~= (seq![DpiSegment { from: start, to: start, step: 1 }] + chain_segments(start, rest)).push(
            DpiSegment { from: prev, to, step: st },
        ));
    }
}

/// A range stream decodes to exactly the ranges it lists: for a start value
/// followed by any number of (step word, end value) pairs and the ending
/// zero, the segments are those ranges, each starting where the previous one
/// ended (the start value for the first), with no discrete level left for
/// the start value; a lone value with no range after it is one discrete level.
pub proof fn law_range_stream_decodes(start: u16, ranges: Seq<(u16, u16)>)
    requires
        chain_ok(start, ranges),
    ensures
        ranges.len() > 0 ==> dpi_list(word_bytes(chain_words(start, ranges).push(0))) == chain_segments(
            start,
            ranges,
        ),
        ranges.len() == 0 ==> dpi_list(word_bytes(chain_words(start, ranges).push(0))) == seq![
            DpiSegment { from: start, to: start, step: 1 },
        ],
{
    let ws = chain_words(start, ranges).push(0);
    lemma_words_of_word_bytes(ws);
    lemma_scan_chain(start, ranges);
    assert(ws.drop_last() =~= chain_words(start, ranges));
    let segs = seq![DpiSegment { from: start, to: start, step: 1 }] + chain_segments(start, ranges);
    assert(scan_words(ws).segs == segs);
    if ranges.len() > 0 {
        assert(segs[1] == chain_segments(start, ranges)[0]);
        assert(segs.drop_first() =~= chain_segments(start, ranges));
    } else {
        assert(segs =~= seq![DpiSegment { from: start, to: start, step: 1 }]);
    }
}

/// The same for one range given as bytes: `start, 0xE000 | step, end, 0`
/// decodes to the single segment `start..=end` every `step`.
pub proof fn law_one_range_stream(start: u16, step: u16, end: u16)
    requires
        0 < start < 0xe000,
        1 <= step <= 0x1fff,
        0 < end < 0xe000,
    ensures
        dpi_list(seq![
            (start / 256) as u8, (start % 256) as u8,
            (0xe0 + step / 256) as u8, (step % 256) as u8,
            (end / 256) as u8, (end % 256) as u8,
            0u8, 0u8,
        ]) == seq![DpiSegment { from: start, to: end, step }],
{
    let ranges = seq![(step, end)];
    assert(chain_ok(start, ranges));
    law_range_stream_decodes(start, ranges);
    let ws = chain_words(start, ranges).push(0);
    assert(ranges.drop_last() =~= Seq::<(u16, u16)>::empty());
    assert(chain_words(start, ranges.drop_last()) == seq![start]);
    assert(ranges.last() == (step, end));
    assert(ws =~= seq![start, (0xe000 + step) as u16, end, 0u16]);
    reveal_with_fuel(word_bytes, 5);
    assert(((0xe000 + step) as u16) / 256 == 0xe0 + step / 256);
    assert(((0xe000 + step) as u16) % 256 == step % 256);
    assert(word_bytes(ws) =~= seq![
        (start / 256) as u8, (start % 256) as u8,
        (0xe0 + step / 256) as u8, (step % 256) as u8,
        (end / 256) as u8, (end % 256) as u8,
        0u8, 0u8,
    ]) by {
        assert(ws.drop_last() =~= seq![start, (0xe000 + step) as u16, end]);
        assert(ws.drop_last().drop_last() =~= seq![start, (0xe000 + step) as u16]);
        assert(ws.drop_last().drop_last().drop_last() =~= seq![start]);
        assert(ws.drop_last().drop_last().drop_last().drop_last() =~= Seq::<u16>::empty());
    }
    assert(chain_segments(start, ranges) =~= seq![DpiSegment { from: start, to: end, step }]);
}

} // verus!

