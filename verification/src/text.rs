//! Text: hex and decimal numerals, trimming, and the std conversions
//! between bytes, characters and strings.

use vstd::prelude::*;

verus! {

// ---------------------------------------------------------------------------
// std conversions
// ---------------------------------------------------------------------------

/// The characters that `String::from_utf8_lossy` decodes a byte string to
/// (each invalid sequence becomes U+FFFD). Named rather than written out:
/// it is std's UTF-8 decoder.
pub uninterp spec fn lossy_utf8(bytes: Seq<u8>) -> Seq<char>;

/// `String::from_utf8_lossy`, as its characters. The result is a function of
/// the bytes alone, named `lossy_utf8`.
#[verifier::external_body]
pub(crate) fn utf8_lossy_chars(bytes: &[u8]) -> (cs: Vec<char>)
    ensures
        cs@ == lossy_utf8(bytes@),
{
    String::from_utf8_lossy(bytes).chars().collect()
}

/// `String::from_iter` over characters: the string of exactly these characters.
#[verifier::external_body]
pub(crate) fn string_from_chars(cs: &Vec<char>) -> (s: String)
    ensures
        s@ == cs@,
{
    cs.iter().collect()
}

/// The characters of a string, in order.
pub fn str_chars(s: &str) -> (cs: Vec<char>)
    ensures
        cs@ == s@,
{
    broadcast use vstd::string::group_string_axioms;

    let mut cs: Vec<char> = Vec::new();
    for c in it: s.chars()
        invariant
            it.seq() == s@,
            cs@ == it.seq().take(it.index() as int),
    {
        assert(it.seq().take(it.index() + 1) =~= it.seq().take(it.index() as int).push(c));
        cs.push(c);
    }
    assert(s@.take(s@.len() as int) =~= s@);
    cs
}

// ---------------------------------------------------------------------------
// Numerals
// ---------------------------------------------------------------------------

/// Lower-case hex digit of `d < 16`.
pub open spec fn hex_digit(d: int) -> char {
    if d < 10 {
        ((48 + d) as u8) as char
    } else {
        ((87 + d) as u8) as char
    }
}

/// Decimal digit of `d < 10`.
pub open spec fn dec_digit(d: int) -> char {
    ((48 + d) as u8) as char
}

/// `v` in lower-case hex with exactly `w` digits (the low `w` digits of `v`).
pub open spec fn hex_fixed(v: nat, w: nat) -> Seq<char>
    decreases w,
{
    if w == 0 {
        Seq::empty()
    } else {
        hex_fixed(v / 16, (w - 1) as nat).push(hex_digit((v % 16) as int))
    }
}

/// `v` in decimal, without leading zeros ("0" for zero).
pub open spec fn decimal(v: nat) -> Seq<char>
    decreases v,
{
    if v < 10 {
        seq![dec_digit(v as int)]
    } else {
        decimal(v / 10).push(dec_digit((v % 10) as int))
    }
}

fn hex_digit_char(d: u8) -> (c: char)
    requires
        d < 16,
    ensures
        c == hex_digit(d as int),
{
    if d < 10 {
        (48 + d) as char
    } else {
        (87 + d) as char
    }
}

/// The low `w` hex digits of `v`.
pub fn hex_chars(v: u64, w: usize) -> (cs: Vec<char>)
    ensures
        cs@ == hex_fixed(v as nat, w as nat),
{
    let mut k: usize = w;
    // digits are produced least significant first and then reversed
    let mut rev: Vec<char> = Vec::new();
    let mut x: u64 = v;
    while k > 0
        invariant
            k <= w,
            hex_fixed(v as nat, w as nat) == hex_fixed(x as nat, k as nat) + rev@.reverse(),
        decreases k,
    {
        let d = (x % 16) as u8;
        let c = hex_digit_char(d);
        proof {
            assert(hex_fixed(x as nat, k as nat) == hex_fixed((x / 16) as nat, (k - 1) as nat).push(c));
            assert(rev@.push(c).reverse() =~= seq![c] + rev@.reverse());
            assert(hex_fixed((x / 16) as nat, (k - 1) as nat).push(c) + rev@.reverse()
                =~= hex_fixed((x / 16) as nat, (k - 1) as nat) + (seq![c] + rev@.reverse()));
        }
        rev.push(c);
        x = x / 16;
        k = k - 1;
    }
    assert(hex_fixed(x as nat, 0) =~= Seq::<char>::empty());
    assert(hex_fixed(v as nat, w as nat) =~= rev@.reverse());
    let mut cs: Vec<char> = Vec::new();
    let mut i: usize = rev.len();
    while i > 0
        invariant
            i <= rev@.len(),
            cs@ =~= rev@.subrange(i as int, rev@.len() as int).reverse(),
        decreases i,
    {
        i = i - 1;
        cs.push(rev[i]);
        assert(rev@.subrange(i as int, rev@.len() as int) =~= seq![rev@[i as int]] + rev@.subrange(
            i + 1,
            rev@.len() as int,
        ));
        assert(rev@.subrange(i as int, rev@.len() as int).reverse() =~= rev@.subrange(
            i + 1,
            rev@.len() as int,
        ).reverse().push(rev@[i as int]));
    }
    assert(rev@.subrange(0, rev@.len() as int) =~= rev@);
    cs
}

/// `v` in decimal.
pub fn decimal_chars(v: u64) -> (cs: Vec<char>)
    ensures
        cs@ == decimal(v as nat),
    decreases v,
{
    if v < 10 {
        let mut cs: Vec<char> = Vec::new();
        cs.push((48 + v as u8) as char);
        cs
    } else {
        let mut cs = decimal_chars(v / 10);
        cs.push((48 + (v % 10) as u8) as char);
        cs
    }
}

// ---------------------------------------------------------------------------
// Trimming
// ---------------------------------------------------------------------------

/// `char::is_whitespace`: the Unicode White_Space property.
pub open spec fn is_white(c: char) -> bool {
    let u = c as u32;
    ||| 0x09 <= u <= 0x0d
    ||| u == 0x20
    ||| u == 0x85
    ||| u == 0xa0
    ||| u == 0x1680
    ||| 0x2000 <= u <= 0x200a
    ||| u == 0x2028
    ||| u == 0x2029
    ||| u == 0x202f
    ||| u == 0x205f
    ||| u == 0x3000
}

pub fn is_whitespace(c: char) -> (b: bool)
    ensures
        b == is_white(c),
{
    let u = c as u32;
    (0x09 <= u && u <= 0x0d) || u == 0x20 || u == 0x85 || u == 0xa0 || u == 0x1680 || (0x2000 <= u
        && u <= 0x200a) || u == 0x2028 || u == 0x2029 || u == 0x202f || u == 0x205f || u == 0x3000
}

/// Index just past the last character of `s` for which `drop` is false.
pub open spec fn end_without(s: Seq<char>, drop: spec_fn(char) -> bool) -> int
    decreases s.len(),
{
    if s.len() == 0 {
        0
    } else if drop(s.last()) {
        end_without(s.drop_last(), drop)
    } else {
        s.len() as int
    }
}

/// Index of the first character of `s` for which `drop` is false (`s.len()` if none).
pub open spec fn start_without(s: Seq<char>, drop: spec_fn(char) -> bool, i: int) -> int
    decreases s.len() - i,
{
    if i < 0 || i >= s.len() {
        s.len() as int
    } else if drop(s[i]) {
        start_without(s, drop, i + 1)
    } else {
        i
    }
}

/// `s` without trailing characters matching `drop`.
pub open spec fn trim_end_by(s: Seq<char>, drop: spec_fn(char) -> bool) -> Seq<char> {
    s.take(end_without(s, drop))
}

/// `s` without leading characters matching `drop`.
pub open spec fn trim_start_by(s: Seq<char>, drop: spec_fn(char) -> bool) -> Seq<char> {
    s.skip(start_without(s, drop, 0))
}

/// `str::trim`: no leading or trailing whitespace.
pub open spec fn trimmed(s: Seq<char>) -> Seq<char> {
    trim_start_by(trim_end_by(s, |c: char| is_white(c)), |c: char| is_white(c))
}

/// `str::trim_end_matches('\0')`.
pub open spec fn without_trailing_nuls(s: Seq<char>) -> Seq<char> {
    trim_end_by(s, |c: char| c == '\0')
}

proof fn lemma_end_without_range(s: Seq<char>, drop: spec_fn(char) -> bool)
    ensures
        0 <= end_without(s, drop) <= s.len(),
    decreases s.len(),
{
    if s.len() > 0 && drop(s.last()) {
        lemma_end_without_range(s.drop_last(), drop);
    }
}

proof fn lemma_start_without_range(s: Seq<char>, drop: spec_fn(char) -> bool, i: int)
    requires
        0 <= i <= s.len(),
    ensures
        i <= start_without(s, drop, i) <= s.len(),
    decreases s.len() - i,
{
    if i < s.len() && drop(s[i]) {
        lemma_start_without_range(s, drop, i + 1);
    }
}

/// The end index after dropping trailing whitespace (`nul == false`) or
/// trailing NULs (`nul == true`).
fn trailing_end(cs: &Vec<char>, nul: bool) -> (e: usize)
    ensures
        nul ==> e == end_without(cs@, |c: char| c == '\0'),
        !nul ==> e == end_without(cs@, |c: char| is_white(c)),
{
    let ghost drop = if nul { |c: char| c == '\0' } else { |c: char| is_white(c) };
    let mut e: usize = cs.len();
    assert(cs@.take(e as int) =~= cs@);
    while e > 0
        invariant
            e <= cs@.len(),
            end_without(cs@, drop) == end_without(cs@.take(e as int), drop),
            drop == (if nul { |c: char| c == '\0' } else { |c: char| is_white(c) }),
        decreases e,
    {
        let c = cs[e - 1];
        let dropped = if nul { c == '\0' } else { is_whitespace(c) };
        assert(dropped == drop(c));
        if !dropped {
            return e;
        }
        assert(cs@.take(e as int).drop_last() =~= cs@.take(e - 1));
        e = e - 1;
    }
    e
}

/// The start index after dropping leading whitespace from `cs[..end]`.
fn leading_start(cs: &Vec<char>, end: usize) -> (b: usize)
    requires
        end <= cs@.len(),
    ensures
        b == start_without(cs@.take(end as int), |c: char| is_white(c), 0),
{
    let ghost s = cs@.take(end as int);
    let ghost drop = |c: char| is_white(c);
    let mut b: usize = 0;
    while b < end
        invariant
            b <= end,
            end <= cs@.len(),
            s == cs@.take(end as int),
            drop == (|c: char| is_white(c)),
            start_without(s, drop, 0) == start_without(s, drop, b as int),
        decreases end - b,
    {
        if !is_whitespace(cs[b]) {
            return b;
        }
        b = b + 1;
    }
    b
}

/// Copy of `cs[from..to]`.
pub fn sub_chars(cs: &Vec<char>, from: usize, to: usize) -> (out: Vec<char>)
    requires
        from <= to <= cs@.len(),
    ensures
        out@ == cs@.subrange(from as int, to as int),
{
    let mut out: Vec<char> = Vec::new();
    let mut i = from;
    while i < to
        invariant
            from <= i <= to,
            to <= cs@.len(),
            out@ == cs@.subrange(from as int, i as int),
        decreases to - i,
    {
        out.push(cs[i]);
        assert(cs@.subrange(from as int, i + 1) =~= cs@.subrange(from as int, i as int).push(
            cs@[i as int],
        ));
        i = i + 1;
    }
    out
}

/// `str::trim` on characters.
pub fn trim_chars(cs: &Vec<char>) -> (out: Vec<char>)
    ensures
        out@ == trimmed(cs@),
{
    let e = trailing_end(cs, false);
    proof {
        lemma_end_without_range(cs@, |c: char| is_white(c));
    }
    let b = leading_start(cs, e);
    proof {
        lemma_start_without_range(cs@.take(e as int), |c: char| is_white(c), 0);
    }
    let out = sub_chars(cs, b, e);
    assert(out@ =~= cs@.take(e as int).skip(b as int));
    out
}

/// `str::trim_end_matches('\0')` on characters.
pub fn trim_trailing_nuls(cs: &Vec<char>) -> (out: Vec<char>)
    ensures
        out@ == without_trailing_nuls(cs@),
{
    let e = trailing_end(cs, true);
    proof {
        lemma_end_without_range(cs@, |c: char| c == '\0');
    }
    let out = sub_chars(cs, 0, e);
    assert(out@ =~= cs@.take(e as int));
    out
}

/// Decode bytes lossily as UTF-8 and trim surrounding whitespace.
pub open spec fn lossy_trimmed(bytes: Seq<u8>) -> Seq<char> {
    trimmed(lossy_utf8(bytes))
}

/// `String::from_utf8_lossy(bytes).trim()`.
pub fn lossy_trim(bytes: &[u8]) -> (s: String)
    ensures
        s@ == lossy_trimmed(bytes@),
{
    let cs = utf8_lossy_chars(bytes);
    let t = trim_chars(&cs);
    string_from_chars(&t)
}

} // verus!
