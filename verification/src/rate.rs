//! Report rates: the 0x8061 extended rate codes and the 0x8060 legacy
//! millisecond intervals.

use vstd::prelude::*;

verus! {

#[derive(Debug, Clone)]
pub struct ReportRate {
    pub hz: u16,
    pub supported: Vec<u16>,
}

pub struct ReportRateView {
    pub hz: u16,
    pub supported: Seq<u16>,
}

impl View for ReportRate {
    type V = ReportRateView;

    open spec fn view(&self) -> ReportRateView {
        ReportRateView { hz: self.hz, supported: self.supported@ }
    }
}

impl Default for ReportRate {
    fn default() -> (r: ReportRate)
        ensures
            r.hz == 0,
            r.supported@ == Seq::<u16>::empty(),
    {
        ReportRate { hz: 0, supported: Vec::new() }
    }
}

/// Hz of a 0x8061 rate code: 0=8ms 1=4ms 2=2ms 3=1ms 4=500us 5=250us 6=125us;
/// any other code is 0.
pub open spec fn rate_code_hz(code: u8) -> u16 {
    if code == 0 { 125 }
    else if code == 1 { 250 }
    else if code == 2 { 500 }
    else if code == 3 { 1000 }
    else if code == 4 { 2000 }
    else if code == 5 { 4000 }
    else if code == 6 { 8000 }
    else { 0 }
}

/// 0x8061 rate code to Hz.
pub fn ext_rate_hz(code: u8) -> (hz: u16)
    ensures
        hz == rate_code_hz(code),
{
    match code {
        0 => 125,
        1 => 250,
        2 => 500,
        3 => 1000,
        4 => 2000,
        5 => 4000,
        6 => 8000,
        _ => 0,
    }
}

/// Bit `b` of `mask` is set.
pub open spec fn bit_set(mask: u8, b: int) -> bool {
    (mask as int / pow2_u8(b)) % 2 == 1
}

/// 2^b for the bit positions of a byte.
pub open spec fn pow2_u8(b: int) -> int {
    if b == 0 { 1 }
    else if b == 1 { 2 }
    else if b == 2 { 4 }
    else if b == 3 { 8 }
    else if b == 4 { 16 }
    else if b == 5 { 32 }
    else if b == 6 { 64 }
    else { 128 }
}

fn has_bit(mask: u8, b: u8) -> (r: bool)
    requires
        b < 8,
    ensures
        r == bit_set(mask, b as int),
{
    let p: u8 = if b == 0 { 1 } else if b == 1 { 2 } else if b == 2 { 4 } else if b == 3 { 8 }
        else if b == 4 { 16 } else if b == 5 { 32 } else if b == 6 { 64 } else { 128 };
    (mask / p) % 2 == 1
}

/// The rates of bits `0..k` of `mask`, lowest bit first, each bit `b` giving `hz(b)`.
pub open spec fn rates_of_bits(mask: u8, k: int, legacy: bool) -> Seq<u16>
    decreases k,
{
    if k <= 0 {
        Seq::empty()
    } else {
        let rest = rates_of_bits(mask, k - 1, legacy);
        if bit_set(mask, k - 1) {
            rest.push(if legacy { legacy_bit_hz(k - 1) } else { rate_code_hz((k - 1) as u8) })
        } else {
            rest
        }
    }
}

/// Hz of bit `b` of a 0x8060 support mask: an interval of `b + 1` ms.
pub open spec fn legacy_bit_hz(b: int) -> u16 {
    (1000int / (b + 1)) as u16
}

fn collect_rates(mask: u8, bits: u8, legacy: bool) -> (v: Vec<u16>)
    requires
        bits <= 8,
    ensures
        v@ == rates_of_bits(mask, bits as int, legacy),
{
    let mut v: Vec<u16> = Vec::new();
    let mut b: u8 = 0;
    while b < bits
        invariant
            b <= bits <= 8,
            v@ == rates_of_bits(mask, b as int, legacy),
        decreases bits - b,
    {
        if has_bit(mask, b) {
            let hz = if legacy { 1000 / (b as u16 + 1) } else { ext_rate_hz(b) };
            v.push(hz);
        }
        b = b + 1;
    }
    v
}

/// The rates a 0x8061 support mask lists (codes 0..7, lowest first).
pub fn ext_supported(mask: u8) -> (v: Vec<u16>)
    ensures
        v@ == rates_of_bits(mask, 7, false),
{
    collect_rates(mask, 7, false)
}

/// The rates a 0x8060 support mask lists (bit b = an interval of b+1 ms).
pub fn legacy_supported(mask: u8) -> (v: Vec<u16>)
    ensures
        v@ == rates_of_bits(mask, 8, true),
{
    collect_rates(mask, 8, true)
}

/// Hz of a 0x8060 interval in ms; 0 for a zero interval.
pub open spec fn legacy_interval_hz(ms: u8) -> u16 {
    if ms == 0 { 0 } else { (1000int / ms as int) as u16 }
}

pub fn legacy_hz(ms: u8) -> (hz: u16)
    ensures
        hz == legacy_interval_hz(ms),
{
    if ms == 0 {
        0
    } else {
        1000 / ms as u16
    }
}

/// The first 0x8061 code (0..7) with this rate.
pub open spec fn code_for_hz(hz: u16) -> Option<u8> {
    if hz == 125 { Some(0u8) }
    else if hz == 250 { Some(1u8) }
    else if hz == 500 { Some(2u8) }
    else if hz == 1000 { Some(3u8) }
    else if hz == 2000 { Some(4u8) }
    else if hz == 4000 { Some(5u8) }
    else if hz == 8000 { Some(6u8) }
    else { None }
}

/// Search the codes 0..7 for one whose rate is `hz`.
pub fn ext_rate_code(hz: u16) -> (c: Option<u8>)
    ensures
        c == code_for_hz(hz),
        c matches Some(k) ==> k < 7 && rate_code_hz(k) == hz,
        c is None ==> forall|k: u8| k < 7 ==> rate_code_hz(k) != hz,
{
    let mut c: u8 = 0;
    while c < 7
        invariant
            c <= 7,
            forall|k: u8| k < c ==> rate_code_hz(k) != hz,
        decreases 7 - c,
    {
        if ext_rate_hz(c) == hz {
            return Some(c);
        }
        c = c + 1;
    }
    assert(rate_code_hz(0) != hz && rate_code_hz(1) != hz && rate_code_hz(2) != hz);
    assert(rate_code_hz(3) != hz && rate_code_hz(4) != hz && rate_code_hz(5) != hz);
    assert(rate_code_hz(6) != hz);
    None
}

/// The 0x8060 interval for a rate: 1000 / hz ms (hz 0 counts as 1), held to 1..=8.
pub open spec fn legacy_interval(hz: u16) -> u8 {
    let h: int = if hz < 1 { 1 } else { hz as int };
    let ms: int = 1000int / h;
    (if ms < 1 { 1 } else if ms > 8 { 8 } else { ms }) as u8
}

pub fn legacy_ms(hz: u16) -> (ms: u8)
    ensures
        ms == legacy_interval(hz),
{
    let h: u16 = if hz < 1 { 1 } else { hz };
    let ms: u16 = 1000 / h;
    (if ms < 1 { 1 } else if ms > 8 { 8 } else { ms }) as u8
}

/// Every code the extended search can pick is a supported code whose rate
/// maps back to it: asking for the rate of the found code gives the rate asked for.
pub proof fn law_rate_code_roundtrip(hz: u16)
    ensures
        code_for_hz(hz) matches Some(k) ==> rate_code_hz(k) == hz,
        forall|k: u8| k < 7 ==> code_for_hz(#[trigger] rate_code_hz(k)) == Some(k),
{
}


/// The 0x8061 rate codes double from 125 Hz: code 0 is 125 Hz, each code up
/// to 6 twice the one before (8000 Hz at 6), and code 7 and above name no rate.
pub proof fn law_rate_code_table(k: u8)
    ensures
        rate_code_hz(0) == 125,
        k < 6 ==> rate_code_hz((k + 1) as u8) == 2 * rate_code_hz(k),
        k >= 7 ==> rate_code_hz(k) == 0,
{
}

/// A 0x8060 interval of `ms` milliseconds is `1000 / ms` Hz, rounded down;
/// a zero interval is 0 Hz.
pub proof fn law_legacy_rate(ms: u8)
    ensures
        ms == 0 ==> legacy_interval_hz(ms) == 0,
        ms > 0 ==> legacy_interval_hz(ms) as int * ms as int <= 1000 < (legacy_interval_hz(ms) as int + 1)
            * ms as int,
{
    if ms > 0 {
        let h = legacy_interval_hz(ms) as int;
        assert(h * ms <= 1000 < (h + 1) * ms) by (nonlinear_arith)
            requires
                ms > 0,
                h == 1000int / (ms as int),
        ;
    }
}

/// Writing a rate to 0x8060 asks for the interval `1000 / hz` ms (a rate of
/// 0 counts as 1 Hz), held to 1..=8 ms.
pub proof fn law_legacy_interval(hz: u16)
    ensures
        1 <= legacy_interval(hz) <= 8,
        hz >= 1 && 1000int / (hz as int) >= 1 && 1000int / (hz as int) <= 8 ==> legacy_interval(hz) == 1000int / (hz as int),
        hz > 1000 ==> legacy_interval(hz) == 1,
        hz <= 125 ==> legacy_interval(hz) == 8,
{
    let h: int = if hz < 1 { 1 } else { hz as int };
    assert(h > 1000 ==> 1000int / h == 0) by (nonlinear_arith)
        requires
            h >= 1,
    ;
    assert(h <= 125 ==> 1000int / h >= 8) by (nonlinear_arith)
        requires
            h >= 1,
    ;
}

} // verus!
