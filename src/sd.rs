//! The log line format: one frame per line, written by the capture task and read back by the
//! emission task.
//!
//! A line reads `(<10-digit counter>.000000) can0 <id>#<payload>\n`, where the identifier is
//! three upper-case hexadecimal digits for a standard frame and eight for an extended one, and
//! the payload is two upper-case hexadecimal digits per byte.

use vstd::prelude::*;

use crate::can::{Frame, FrameId, FrameView, EXTENDED_ID_LIMIT, MAX_PAYLOAD, STANDARD_ID_LIMIT};
use crate::dir::{base_of, ext_of, this_dir_bytes, DirContent, ShortName, MAX_ENTRIES};

verus! {

/// Digits of the identifier of a standard frame in a log line.
pub const STANDARD_ID_DIGITS: usize = 3;

/// Digits of the identifier of an extended frame in a log line.
pub const EXTENDED_ID_DIGITS: usize = 8;

/// Digits of the counter at the start of a log line.
pub const COUNTER_DIGITS: usize = 10;

/// The ASCII code of a space.
pub const SPACE: u8 = 0x20;

/// The ASCII code of `#`.
pub const HASH: u8 = 0x23;

/// The ASCII code of a line feed.
pub const NEWLINE: u8 = 0x0a;

/// `16` to the power `n`.
pub open spec fn pow16(n: nat) -> nat
    decreases n,
{
    if n == 0 {
        1
    } else {
        16 * pow16((n - 1) as nat)
    }
}

/// The upper-case hexadecimal digit of a value below 16.
pub open spec fn hex_char(d: nat) -> u8 {
    if d < 10 {
        (48 + d) as u8
    } else {
        (55 + d) as u8
    }
}

/// Whether a byte is a hexadecimal digit, in either case.
pub open spec fn is_hex(c: u8) -> bool {
    (48 <= c <= 57) || (65 <= c <= 70) || (97 <= c <= 102)
}

/// The value of a hexadecimal digit.
pub open spec fn hex_val(c: u8) -> nat {
    if 48 <= c <= 57 {
        (c - 48) as nat
    } else if 65 <= c <= 70 {
        (c - 55) as nat
    } else {
        (c - 87) as nat
    }
}

/// Every byte is a hexadecimal digit.
pub open spec fn all_hex(s: Seq<u8>) -> bool {
    forall|i: int| 0 <= i < s.len() ==> is_hex(#[trigger] s[i])
}

/// The value of a string of hexadecimal digits, most significant first.
pub open spec fn hex_number(s: Seq<u8>) -> nat
    decreases s.len(),
{
    if s.len() == 0 {
        0
    } else {
        hex_number(s.drop_last()) * 16 + hex_val(s.last())
    }
}

/// `n` written with exactly `w` upper-case hexadecimal digits (the lowest ones, if `n` needs
/// more).
pub open spec fn hex_digits(n: nat, w: nat) -> Seq<u8>
    decreases w,
{
    if w == 0 {
        Seq::empty()
    } else {
        hex_digits(n / 16, (w - 1) as nat).push(hex_char(n % 16))
    }
}

/// `n` written with exactly `w` decimal digits (the lowest ones, if `n` needs more).
pub open spec fn dec_digits(n: nat, w: nat) -> Seq<u8>
    decreases w,
{
    if w == 0 {
        Seq::empty()
    } else {
        dec_digits(n / 10, (w - 1) as nat).push((48 + n % 10) as u8)
    }
}

/// Two upper-case hexadecimal digits per byte, in order.
pub open spec fn hex_bytes(data: Seq<u8>) -> Seq<u8> {
    Seq::new(
        2 * data.len(),
        |k: int|
            if k % 2 == 0 {
                hex_char((data[k / 2] / 16) as nat)
            } else {
                hex_char((data[k / 2] % 16) as nat)
            },
    )
}

/// The bytes that pairs of hexadecimal digits stand for.
pub open spec fn hex_pairs(s: Seq<u8>) -> Seq<u8> {
    Seq::new(s.len() / 2, |i: int| (16 * hex_val(s[2 * i]) + hex_val(s[2 * i + 1])) as u8)
}

/// A payload in hexadecimal: an even number of at most sixteen hexadecimal digits.
pub open spec fn decode_hex_spec(s: Seq<u8>) -> Option<Seq<u8>> {
    if s.len() % 2 == 0 && s.len() <= 2 * MAX_PAYLOAD && all_hex(s) {
        Some(hex_pairs(s))
    } else {
        None
    }
}

/// The identifier as it is written in a log line.
pub open spec fn id_text(id: FrameId) -> Seq<u8> {
    match id {
        FrameId::Standard(n) => hex_digits(n as nat, STANDARD_ID_DIGITS as nat),
        FrameId::Extended(n) => hex_digits(n as nat, EXTENDED_ID_DIGITS as nat),
    }
}

/// An identifier read from a log line: one to three digits for a standard identifier, eight
/// for an extended one, and a value that fits the width.
pub open spec fn parse_id_spec(s: Seq<u8>) -> Option<FrameId> {
    if !all_hex(s) {
        None
    } else if 1 <= s.len() <= STANDARD_ID_DIGITS && hex_number(s) < STANDARD_ID_LIMIT {
        Some(FrameId::Standard(hex_number(s) as u16))
    } else if s.len() == EXTENDED_ID_DIGITS && hex_number(s) < EXTENDED_ID_LIMIT {
        Some(FrameId::Extended(hex_number(s) as u32))
    } else {
        None
    }
}

/// The text between the counter and the identifier: `.000000) can0 `.
pub open spec fn counter_suffix() -> Seq<u8> {
    seq![46u8, 48, 48, 48, 48, 48, 48, 41, 32, 99, 97, 110, 48, 32]
}

/// The log line of a frame, newline included, with the given counter value.
pub open spec fn log_line(f: FrameView, ticks: u32) -> Seq<u8> {
    seq![40u8] + dec_digits(ticks as nat, COUNTER_DIGITS as nat) + counter_suffix() + id_text(f.id)
        + seq![HASH] + hex_bytes(f.data) + seq![NEWLINE]
}

/// Where the last space-separated field of a line starts: just after its last space, or at 0.
pub open spec fn last_field_start(s: Seq<u8>) -> nat
    decreases s.len(),
{
    if s.len() == 0 {
        0
    } else if s.last() == SPACE {
        s.len()
    } else {
        last_field_start(s.drop_last())
    }
}

/// Index of the first byte `b` of `s`, or the length of `s` when there is none.
pub open spec fn first_of(s: Seq<u8>, b: u8) -> nat
    decreases s.len(),
{
    if s.len() == 0 {
        0
    } else if s[0] == b {
        0
    } else {
        1 + first_of(s.drop_first(), b)
    }
}

/// The frame that a log line (without its newline) stands for: its last space-separated field
/// is split at the first `#` into an identifier and a payload.
pub open spec fn parse_line_spec(line: Seq<u8>) -> Option<FrameView> {
    let field = line.subrange(last_field_start(line) as int, line.len() as int);
    let h = first_of(field, HASH);
    if h >= field.len() {
        None
    } else {
        match parse_id_spec(field.subrange(0, h as int)) {
            None => None,
            Some(id) => match decode_hex_spec(field.subrange((h + 1) as int, field.len() as int)) {
                None => None,
                Some(data) => Some(FrameView { id, data }),
            },
        }
    }
}

/// The value of a hexadecimal digit, either case.
fn hex_digit_value(c: u8) -> (r: Option<u8>)
    ensures
        r is Some <==> is_hex(c),
        r matches Some(v) ==> v == hex_val(c) && v < 16,
{
    if 48 <= c && c <= 57 {
        Some(c - 48)
    } else if 65 <= c && c <= 70 {
        Some(c - 55)
    } else if 97 <= c && c <= 102 {
        Some(c - 87)
    } else {
        None
    }
}

/// The upper-case hexadecimal digit of a value below 16.
fn hex_char_of(d: u8) -> (r: u8)
    requires
        d < 16,
    ensures
        r == hex_char(d as nat),
{
    if d < 10 {
        48 + d
    } else {
        55 + d
    }
}

/// Appends `n` written with exactly `w` upper-case hexadecimal digits.
fn push_hex_digits(out: &mut Vec<u8>, n: u32, w: usize)
    ensures
        final(out)@ == old(out)@ + hex_digits(n as nat, w as nat),
    decreases w,
{
    if w == 0 {
        assert(old(out)@ + Seq::<u8>::empty() =~= old(out)@);
        return;
    }
    push_hex_digits(out, n / 16, w - 1);
    out.push(hex_char_of((n % 16) as u8));
    assert(old(out)@ + hex_digits(n as nat, w as nat) =~= old(out)@ + hex_digits((n / 16) as nat, (w - 1) as nat) + seq![hex_char((n % 16) as nat)]);
}

/// Appends `n` written with exactly `w` decimal digits.
pub(crate) fn push_dec_digits(out: &mut Vec<u8>, n: u32, w: usize)
    ensures
        final(out)@ == old(out)@ + dec_digits(n as nat, w as nat),
    decreases w,
{
    if w == 0 {
        assert(old(out)@ + Seq::<u8>::empty() =~= old(out)@);
        return;
    }
    push_dec_digits(out, n / 10, w - 1);
    out.push(48 + (n % 10) as u8);
    assert(old(out)@ + dec_digits(n as nat, w as nat) =~= old(out)@ + dec_digits((n / 10) as nat, (w - 1) as nat) + seq![(48 + n % 10) as u8]);
}

/// Appends every byte of `bytes`.
pub(crate) fn push_all(out: &mut Vec<u8>, bytes: &[u8])
    ensures
        final(out)@ == old(out)@ + bytes@,
{
    let mut i: usize = 0;
    while i < bytes.len()
        invariant
            i <= bytes@.len(),
            out@ == old(out)@ + bytes@.subrange(0, i as int),
        decreases bytes@.len() - i,
    {
        out.push(bytes[i]);
        i = i + 1;
        assert(bytes@.subrange(0, i as int) =~= bytes@.subrange(0, i - 1 as int).push(bytes@[i - 1]));
    }
    assert(bytes@.subrange(0, i as int) =~= bytes@);
}

/// Appends two upper-case hexadecimal digits per byte of `data`.
fn push_hex_bytes(out: &mut Vec<u8>, data: &[u8])
    ensures
        final(out)@ == old(out)@ + hex_bytes(data@),
{
    let mut i: usize = 0;
    while i < data.len()
        invariant
            i <= data@.len(),
            out@ == old(out)@ + hex_bytes(data@.subrange(0, i as int)),
        decreases data@.len() - i,
    {
        let b = data[i];
        out.push(hex_char_of(b / 16));
        out.push(hex_char_of(b % 16));
        i = i + 1;
        assert(hex_bytes(data@.subrange(0, i as int)) =~= hex_bytes(data@.subrange(0, i - 1 as int)) + seq![hex_char((b / 16) as nat), hex_char((b % 16) as nat)]);
    }
    assert(data@.subrange(0, i as int) =~= data@);
}

/// The log line of `frame`, newline included, stamped with the counter value `ticks`.
pub fn frame_to_log(frame: &Frame, ticks: u32) -> (r: Vec<u8>)
    ensures
        r@ == log_line(frame@, ticks),
{
    let mut out: Vec<u8> = Vec::new();
    out.push(40);
    push_dec_digits(&mut out, ticks, COUNTER_DIGITS);
    push_all(&mut out, &[46u8, 48, 48, 48, 48, 48, 48, 41, 32, 99, 97, 110, 48, 32]);
    match frame.id() {
        FrameId::Standard(n) => push_hex_digits(&mut out, n as u32, STANDARD_ID_DIGITS),
        FrameId::Extended(n) => push_hex_digits(&mut out, n, EXTENDED_ID_DIGITS),
    }
    out.push(HASH);
    push_hex_bytes(&mut out, frame.data());
    out.push(NEWLINE);
    assert(out@ =~= log_line(frame@, ticks));
    out
}

/// The bytes that the hexadecimal digits of `s[lo..hi]` stand for; `Err` when there is an
/// odd number of digits, more than sixteen, or a byte that is no hexadecimal digit.
fn decode_hex_range(s: &[u8], lo: usize, hi: usize) -> (r: Result<Vec<u8>, ()>)
    requires
        lo <= hi <= s@.len(),
    ensures
        match decode_hex_spec(s@.subrange(lo as int, hi as int)) {
            Some(d) => r matches Ok(v) && v@ == d,
            None => r is Err,
        },
{
    let ghost t = s@.subrange(lo as int, hi as int);
    let n = hi - lo;
    if n % 2 != 0 || n > 2 * MAX_PAYLOAD {
        return Err(());
    }
    let mut out: Vec<u8> = Vec::new();
    let mut i: usize = 0;
    while i < n / 2
        invariant
            n == hi - lo,
            n % 2 == 0,
            n <= 2 * MAX_PAYLOAD,
            lo <= hi <= s@.len(),
            t == s@.subrange(lo as int, hi as int),
            i <= n / 2,
            forall|k: int| 0 <= k < 2 * i ==> is_hex(#[trigger] t[k]),
            out@ == hex_pairs(t).subrange(0, i as int),
        decreases n / 2 - i,
    {
        let hi_digit = hex_digit_value(s[lo + 2 * i]);
        let lo_digit = hex_digit_value(s[lo + 2 * i + 1]);
        match (hi_digit, lo_digit) {
            (Some(a), Some(b)) => {
                out.push(16 * a + b);
                assert(t[2 * i as int] == s@[lo + 2 * i]);
                assert(t[2 * i + 1 as int] == s@[lo + 2 * i + 1]);
                i = i + 1;
                assert(out@ =~= hex_pairs(t).subrange(0, i as int));
            },
            _ => {
                assert(t[2 * i as int] == s@[lo + 2 * i]);
                assert(t[2 * i + 1 as int] == s@[lo + 2 * i + 1]);
                assert(!all_hex(t));
                return Err(());
            },
        }
    }
    assert(all_hex(t)) by {
        assert forall|k: int| 0 <= k < t.len() implies is_hex(#[trigger] t[k]) by {
            assert(k < 2 * i);
        }
    }
    assert(out@ =~= hex_pairs(t));
    Ok(out)
}

/// The bytes that a string of hexadecimal digits stands for, two digits per byte; `Err` when
/// there is an odd number of digits, more than sixteen, or a byte that is no hexadecimal
/// digit.
pub fn decode_hex(s: &[u8]) -> (r: Result<Vec<u8>, ()>)
    ensures
        match decode_hex_spec(s@) {
            Some(d) => r matches Ok(v) && v@ == d,
            None => r is Err,
        },
{
    assert(s@.subrange(0, s@.len() as int) =~= s@);
    decode_hex_range(s, 0, s.len())
}

/// The value of the hexadecimal digits `s[lo..hi]`, at most eight of them; `None` when one is
/// no hexadecimal digit.
fn parse_hex_range(s: &[u8], lo: usize, hi: usize) -> (r: Option<u32>)
    requires
        lo <= hi <= s@.len(),
        hi - lo <= 8,
    ensures
        r is Some <==> all_hex(s@.subrange(lo as int, hi as int)),
        r matches Some(v) ==> v == hex_number(s@.subrange(lo as int, hi as int)),
{
    let ghost t = s@.subrange(lo as int, hi as int);
    let mut acc: u32 = 0;
    let mut i: usize = lo;
    while i < hi
        invariant
            lo <= i <= hi <= s@.len(),
            hi - lo <= 8,
            t == s@.subrange(lo as int, hi as int),
            forall|k: int| lo <= k < i ==> is_hex(#[trigger] s@[k]),
            acc == hex_number(s@.subrange(lo as int, i as int)),
            acc < pow16((i - lo) as nat),
        decreases hi - i,
    {
        match hex_digit_value(s[i]) {
            Some(d) => {
                let ghost p = pow16((i - lo) as nat);
                assert(pow16((i + 1 - lo) as nat) == 16 * p);
                assert(p <= pow16(7)) by {
                    lemma_pow16_mono((i - lo) as nat, 7);
                }
                assert(pow16(7) == 0x1000_0000) by {
                    reveal_with_fuel(pow16, 8);
                }
                assert(acc * 16 + d < 16 * p) by (nonlinear_arith)
                    requires acc < p, d < 16;
                assert(s@.subrange(lo as int, i + 1 as int).drop_last() =~= s@.subrange(lo as int, i as int));
                acc = acc * 16 + d as u32;
                i = i + 1;
            },
            None => {
                assert(t[i - lo] == s@[i as int]);
                return None;
            },
        }
    }
    assert(s@.subrange(lo as int, i as int) =~= t);
    assert(all_hex(t)) by {
        assert forall|k: int| 0 <= k < t.len() implies is_hex(#[trigger] t[k]) by {
            assert(t[k] == s@[lo + k]);
        }
    }
    Some(acc)
}

/// Powers of 16 grow with the exponent.
proof fn lemma_pow16_mono(a: nat, b: nat)
    requires
        a <= b,
    ensures
        pow16(a) <= pow16(b),
    decreases b,
{
    if a < b {
        lemma_pow16_mono(a, (b - 1) as nat);
    }
}

/// The identifier written as `s[lo..hi]`; see [`parse_id_spec`].
fn parse_id_range(s: &[u8], lo: usize, hi: usize) -> (r: Option<FrameId>)
    requires
        lo <= hi <= s@.len(),
    ensures
        r == parse_id_spec(s@.subrange(lo as int, hi as int)),
{
    let n = hi - lo;
    if n == 0 || (n > STANDARD_ID_DIGITS && n != EXTENDED_ID_DIGITS) {
        return None;
    }
    match parse_hex_range(s, lo, hi) {
        None => None,
        Some(v) => {
            if n <= STANDARD_ID_DIGITS {
                if v < STANDARD_ID_LIMIT as u32 {
                    Some(FrameId::Standard(v as u16))
                } else {
                    None
                }
            } else if v < EXTENDED_ID_LIMIT {
                Some(FrameId::Extended(v))
            } else {
                None
            }
        },
    }
}

/// The identifier that a string of hexadecimal digits stands for: one to three digits give a
/// standard identifier below 0x800, eight give an extended one below 0x2000_0000; anything
/// else is `None`.
pub fn parse_id(s: &[u8]) -> (r: Option<FrameId>)
    ensures
        r == parse_id_spec(s@),
{
    assert(s@.subrange(0, s@.len() as int) =~= s@);
    parse_id_range(s, 0, s.len())
}

/// [`first_of`] is at most the length.
pub(crate) proof fn lemma_first_of_le(s: Seq<u8>, b: u8)
    ensures
        first_of(s, b) <= s.len(),
    decreases s.len(),
{
    if s.len() > 0 && s[0] != b {
        lemma_first_of_le(s.drop_first(), b);
    }
}

/// Where the last space-separated field of `line` starts.
fn find_last_field(line: &[u8]) -> (r: usize)
    ensures
        r == last_field_start(line@),
        r <= line@.len(),
{
    let mut i: usize = line.len();
    assert(line@.subrange(0, i as int) =~= line@);
    while i > 0 && line[i - 1] != SPACE
        invariant
            i <= line@.len(),
            last_field_start(line@) == last_field_start(line@.subrange(0, i as int)),
        decreases i,
    {
        assert(line@.subrange(0, i as int).drop_last() =~= line@.subrange(0, i - 1 as int));
        i = i - 1;
    }
    i
}

/// The first byte `b` of `s[lo..hi]` is at `i - lo` when none comes before `i` and `i` is
/// `hi` or holds `b`.
pub(crate) proof fn lemma_first_of(s: Seq<u8>, b: u8, lo: int, i: int, hi: int)
    requires
        0 <= lo <= i <= hi <= s.len(),
        forall|k: int| lo <= k < i ==> s[k] != b,
        i == hi || s[i] == b,
    ensures
        first_of(s.subrange(lo, hi), b) == i - lo,
    decreases i - lo,
{
    if lo < i {
        assert(s.subrange(lo, hi).drop_first() =~= s.subrange(lo + 1, hi));
        lemma_first_of(s, b, lo + 1, i, hi);
    }
}

/// The frame that a log line (without its newline) stands for; `None` when the line is
/// malformed. See [`parse_line_spec`].
pub fn parse_log_line(line: &[u8]) -> (r: Option<Frame>)
    ensures
        r is Some <==> parse_line_spec(line@) is Some,
        r matches Some(f) ==> parse_line_spec(line@) == Some(f@),
{
    let start = find_last_field(line);
    let ghost field = line@.subrange(start as int, line@.len() as int);
    let mut h: usize = start;
    while h < line.len() && line[h] != HASH
        invariant
            start <= h <= line@.len(),
            forall|k: int| start <= k < h ==> line@[k] != HASH,
        decreases line@.len() - h,
    {
        h = h + 1;
    }
    proof {
        lemma_first_of(line@, HASH, start as int, h as int, line@.len() as int);
    }
    if h >= line.len() {
        return None;
    }
    assert(field.subrange(0, h - start as int) =~= line@.subrange(start as int, h as int));
    assert(field.subrange(h - start + 1 as int, field.len() as int) =~= line@.subrange(h + 1 as int, line@.len() as int));
    match parse_id_range(line, start, h) {
        None => None,
        Some(id) => match decode_hex_range(line, h + 1, line.len()) {
            Err(()) => None,
            Ok(data) => {
                proof {
                    if let FrameId::Extended(n) = id {
                        assert(n < EXTENDED_ID_LIMIT);
                    }
                }
                Frame::new(id, data)
            },
        },
    }
}

/// A digit written by [`hex_char`] is read back by [`hex_val`], and is neither a space nor a
/// `#`.
proof fn lemma_hex_char(d: nat)
    requires
        d < 16,
    ensures
        is_hex(hex_char(d)),
        hex_val(hex_char(d)) == d,
        hex_char(d) != SPACE,
        hex_char(d) != HASH,
{
}

/// Digits written by [`hex_digits`] are read back by [`hex_number`] when the value fits.
proof fn lemma_hex_digits(n: nat, w: nat)
    requires
        n < pow16(w),
    ensures
        hex_digits(n, w).len() == w,
        all_hex(hex_digits(n, w)),
        hex_number(hex_digits(n, w)) == n,
        forall|k: int| 0 <= k < w ==> #[trigger] hex_digits(n, w)[k] != SPACE && hex_digits(n, w)[k] != HASH,
    decreases w,
{
    if w > 0 {
        let p = pow16((w - 1) as nat);
        assert(n / 16 < p) by (nonlinear_arith)
            requires n < 16 * p;
        lemma_hex_digits(n / 16, (w - 1) as nat);
        lemma_hex_char(n % 16);
        let d = hex_digits(n, w);
        assert(d.drop_last() =~= hex_digits(n / 16, (w - 1) as nat));
        assert(n == (n / 16) * 16 + n % 16);
    }
}

/// Pairs written by [`hex_bytes`] are read back by [`hex_pairs`].
proof fn lemma_hex_bytes(data: Seq<u8>)
    ensures
        hex_bytes(data).len() == 2 * data.len(),
        all_hex(hex_bytes(data)),
        hex_pairs(hex_bytes(data)) == data,
        forall|k: int| 0 <= k < 2 * data.len() ==> #[trigger] hex_bytes(data)[k] != SPACE && hex_bytes(data)[k] != HASH,
{
    let h = hex_bytes(data);
    assert forall|k: int| 0 <= k < h.len() implies is_hex(#[trigger] h[k]) && h[k] != SPACE && h[k] != HASH by {
        lemma_hex_char((data[k / 2] / 16) as nat);
        lemma_hex_char((data[k / 2] % 16) as nat);
    }
    assert forall|i: int| 0 <= i < data.len() implies #[trigger] hex_pairs(h)[i] == data[i] by {
        let b = data[i];
        assert((2 * i) / 2 == i && (2 * i) % 2 == 0);
        assert((2 * i + 1) / 2 == i && (2 * i + 1) % 2 == 1);
        lemma_hex_char((b / 16) as nat);
        lemma_hex_char((b % 16) as nat);
        assert(16 * (b / 16) + b % 16 == b);
    }
    assert(hex_pairs(h) =~= data);
}

/// The last field of `prefix + field` is `field` when `prefix` ends with a space and `field`
/// holds none.
proof fn lemma_last_field(prefix: Seq<u8>, field: Seq<u8>)
    requires
        prefix.len() > 0,
        prefix.last() == SPACE,
        forall|k: int| 0 <= k < field.len() ==> field[k] != SPACE,
    ensures
        last_field_start(prefix + field) == prefix.len(),
    decreases field.len(),
{
    if field.len() == 0 {
        assert(prefix + field =~= prefix);
    } else {
        assert((prefix + field).drop_last() =~= prefix + field.drop_last());
        lemma_last_field(prefix, field.drop_last());
    }
}

/// The identifier written by [`id_text`] is read back by [`parse_id_spec`], and holds no space
/// and no `#`.
proof fn lemma_id_text(id: FrameId)
    requires
        id.valid(),
    ensures
        parse_id_spec(id_text(id)) == Some(id),
        forall|k: int| 0 <= k < id_text(id).len() ==> #[trigger] id_text(id)[k] != SPACE && id_text(id)[k] != HASH,
{
    assert(pow16(3) == 0x1000 && pow16(8) == 0x1_0000_0000) by {
        reveal_with_fuel(pow16, 9);
    }
    match id {
        FrameId::Standard(v) => {
            lemma_hex_digits(v as nat, STANDARD_ID_DIGITS as nat);
        },
        FrameId::Extended(v) => {
            lemma_hex_digits(v as nat, EXTENDED_ID_DIGITS as nat);
        },
    }
}

/// A line made of a prefix ending with a space, an identifier, `#` and a payload is parsed
/// into the identifier and payload that those stand for.
proof fn lemma_parse_field(prefix: Seq<u8>, idt: Seq<u8>, payload: Seq<u8>, id: FrameId, data: Seq<u8>)
    requires
        prefix.len() > 0,
        prefix.last() == SPACE,
        forall|k: int| 0 <= k < idt.len() ==> idt[k] != SPACE && idt[k] != HASH,
        forall|k: int| 0 <= k < payload.len() ==> payload[k] != SPACE,
        parse_id_spec(idt) == Some(id),
        decode_hex_spec(payload) == Some(data),
    ensures
        parse_line_spec(prefix + (idt + seq![HASH] + payload)) == Some(FrameView { id, data }),
{
    let field = idt + seq![HASH] + payload;
    let line = prefix + field;
    assert forall|k: int| 0 <= k < field.len() implies field[k] != SPACE by {
        if k < idt.len() {
            assert(field[k] == idt[k]);
        } else if k > idt.len() {
            assert(field[k] == payload[k - idt.len() - 1]);
        }
    }
    lemma_last_field(prefix, field);
    assert(line.subrange(last_field_start(line) as int, line.len() as int) =~= field);
    assert forall|k: int| 0 <= k < idt.len() implies field[k] != HASH by {
        assert(field[k] == idt[k]);
    }
    lemma_first_of(field, HASH, 0, idt.len() as int, field.len() as int);
    assert(field.subrange(0, field.len() as int) =~= field);
    assert(field.subrange(0, idt.len() as int) =~= idt);
    assert(field.subrange((idt.len() + 1) as int, field.len() as int) =~= payload);
}

/// A log line without its newline is a prefix ending with a space, then the identifier, `#`
/// and the payload.
proof fn lemma_log_line_parts(f: FrameView, ticks: u32)
    ensures
        log_line(f, ticks).drop_last() == (seq![40u8] + dec_digits(ticks as nat, COUNTER_DIGITS as nat)
            + counter_suffix()) + (id_text(f.id) + seq![HASH] + hex_bytes(f.data)),
{
    assert(log_line(f, ticks).drop_last() =~= (seq![40u8] + dec_digits(ticks as nat, COUNTER_DIGITS as nat)
        + counter_suffix()) + (id_text(f.id) + seq![HASH] + hex_bytes(f.data)));
}

/// Decoding the log line of a frame, newline left out, gives the frame back.
#[verifier::spinoff_prover]
pub proof fn lemma_round_trip(f: FrameView, ticks: u32)
    requires
        f.wf(),
    ensures
        parse_line_spec(log_line(f, ticks).drop_last()) == Some(f),
{
    let prefix = seq![40u8] + dec_digits(ticks as nat, COUNTER_DIGITS as nat) + counter_suffix();
    let idt = id_text(f.id);
    let payload = hex_bytes(f.data);
    lemma_log_line_parts(f, ticks);
    lemma_id_text(f.id);
    lemma_hex_bytes(f.data);
    assert(decode_hex_spec(payload) == Some(f.data));
    lemma_parse_field(prefix, idt, payload, f.id, f.data);
}

/// Digits written by [`dec_digits`] are no line feed.
proof fn lemma_dec_digits_no_newline(n: nat, w: nat)
    ensures
        dec_digits(n, w).len() == w,
        forall|k: int| 0 <= k < w ==> #[trigger] dec_digits(n, w)[k] != NEWLINE,
    decreases w,
{
    if w > 0 {
        lemma_dec_digits_no_newline(n / 10, (w - 1) as nat);
        let d = dec_digits(n, w);
        assert forall|k: int| 0 <= k < w implies #[trigger] d[k] != NEWLINE by {
            if k < w - 1 {
                assert(d[k] == dec_digits(n / 10, (w - 1) as nat)[k]);
            }
        }
    }
}

/// A buffer that starts with the log line of a frame holds that line, newline left out, up to
/// its first line feed, and the rest after it.
proof fn lemma_first_line(f: FrameView, ticks: u32, rest: Seq<u8>)
    requires
        f.wf(),
    ensures
        ({
            let line = log_line(f, ticks);
            let buf = line + rest;
            let h = first_of(buf, NEWLINE);
            &&& h == line.len() - 1
            &&& buf.subrange(0, h as int) == line.drop_last()
            &&& buf.subrange((h + 1) as int, buf.len() as int) == rest
        }),
{
    let line = log_line(f, ticks);
    let buf = line + rest;
    let dec = dec_digits(ticks as nat, COUNTER_DIGITS as nat);
    let idt = id_text(f.id);
    let payload = hex_bytes(f.data);
    lemma_dec_digits_no_newline(ticks as nat, COUNTER_DIGITS as nat);
    lemma_id_text(f.id);
    lemma_hex_bytes(f.data);
    assert(line.len() == 1 + dec.len() + 14 + idt.len() + 1 + payload.len() + 1);
    assert forall|k: int| 0 <= k < line.len() - 1 implies buf[k] != NEWLINE by {
        assert(buf[k] == line[k]);
        if k == 0 {
        } else if k < 1 + dec.len() {
            assert(line[k] == dec[k - 1]);
        } else if k < 1 + dec.len() + 14 {
            assert(line[k] == counter_suffix()[k - 1 - dec.len()]);
        } else if k < 1 + dec.len() + 14 + idt.len() {
            let j = k - 15 - dec.len();
            assert(line[k] == idt[j]);
            assert(is_hex(idt[j]));
        } else if k == 1 + dec.len() + 14 + idt.len() {
        } else {
            let j = k - 16 - dec.len() - idt.len();
            assert(line[k] == payload[j]);
            assert(is_hex(payload[j]));
        }
    }
    assert(buf[line.len() - 1] == NEWLINE);
    lemma_first_of(buf, NEWLINE, 0, line.len() - 1, buf.len() as int);
    assert(buf.subrange(0, buf.len() as int) =~= buf);
    assert(buf.subrange(0, line.len() - 1) =~= line.drop_last());
    assert(buf.subrange(line.len() as int, buf.len() as int) =~= rest);
}


/// Streaming decoding of an encoded frame: when the decoder's buffer starts with the log line
/// of a frame, the next step hands out that frame and keeps what follows the line.
pub proof fn lemma_stream_round_trip(f: FrameView, ticks: u32, rest: Seq<u8>)
    requires
        f.wf(),
    ensures
        ({
            let buf = log_line(f, ticks) + rest;
            let h = first_of(buf, NEWLINE);
            &&& h < buf.len()
            &&& parse_line_spec(buf.subrange(0, h as int)) == Some(f)
            &&& buf.subrange((h + 1) as int, buf.len() as int) == rest
        }),
{
    lemma_first_line(f, ticks, rest);
    lemma_round_trip(f, ticks);
}

/// Bytes read from storage at a time.
pub const READ_CHUNK: usize = 64;

/// Size of the read-ahead buffer: two chunks.
pub const BUFFER_SIZE: usize = 128;

/// What the decoder asks for next.
#[derive(Debug)]
pub enum LogStep {
    /// The next frame of the log.
    Frame(Frame),
    /// A chunk of the file is needed before a line can be completed.
    NeedData,
    /// The log ends here: end of file, a malformed line, or a line too long for the buffer.
    End,
}

/// The bytes held by a read-ahead buffer, in order.
pub uninterp spec fn buffered_bytes(v: heapless::Vec<u8, BUFFER_SIZE>) -> Seq<u8>;

/// Relies on heapless::Vec::new: a new vector is empty.
#[verifier::external_body]
fn store_new() -> (r: heapless::Vec<u8, BUFFER_SIZE>)
    ensures
        buffered_bytes(r) == Seq::<u8>::empty(),
{
    heapless::Vec::new()
}

/// Relies on heapless::Vec's length (through its slice): the number of bytes held, never more
/// than its capacity.
#[verifier::external_body]
fn store_len(v: &heapless::Vec<u8, BUFFER_SIZE>) -> (r: usize)
    ensures
        r == buffered_bytes(*v).len(),
        r <= BUFFER_SIZE,
{
    v.len()
}

/// Relies on heapless::Vec's indexing (through its slice): the byte at `i`.
#[verifier::external_body]
fn store_get(v: &heapless::Vec<u8, BUFFER_SIZE>, i: usize) -> (r: u8)
    requires
        i < buffered_bytes(*v).len(),
    ensures
        r == buffered_bytes(*v)[i as int],
{
    v[i]
}

/// Relies on heapless::Vec::extend_from_slice: appends all of `bytes` when they fit, and
/// changes nothing otherwise.
#[verifier::external_body]
fn store_extend(v: &mut heapless::Vec<u8, BUFFER_SIZE>, bytes: &[u8]) -> (r: Result<(), ()>)
    ensures
        buffered_bytes(*old(v)).len() + bytes@.len() <= BUFFER_SIZE ==> r is Ok && buffered_bytes(*final(v)) == buffered_bytes(*old(v)) + bytes@,
        buffered_bytes(*old(v)).len() + bytes@.len() > BUFFER_SIZE ==> r is Err && buffered_bytes(*final(v)) == buffered_bytes(*old(v)),
{
    v.extend_from_slice(bytes)
}

/// Streaming decoder of a log file: holds what was read but not yet decoded, at most
/// [`BUFFER_SIZE`] bytes, and hands out one frame per complete line.
///
/// A malformed line ends the log; bytes after the last line feed at the end of the file are
/// dropped.
pub struct CanLogsIterator {
    stored: heapless::Vec<u8, BUFFER_SIZE>,
}

impl CanLogsIterator {
    /// The bytes read but not yet decoded.
    pub closed spec fn buffered(&self) -> Seq<u8> {
        buffered_bytes(self.stored)
    }

    /// Whether another chunk fits in the buffer.
    pub open spec fn has_room(&self) -> bool {
        BUFFER_SIZE - self.buffered().len() >= READ_CHUNK
    }

    /// The buffer does not exceed [`BUFFER_SIZE`].
    pub closed spec fn wf(&self) -> bool {
        self.buffered().len() <= BUFFER_SIZE
    }

    /// A decoder with nothing buffered.
    pub fn new() -> (r: CanLogsIterator)
        ensures
            r.wf(),
            r.buffered() == Seq::<u8>::empty(),
    {
        CanLogsIterator { stored: store_new() }
    }

    /// Whether a chunk of [`READ_CHUNK`] bytes fits in the buffer.
    pub fn wants_data(&self) -> (r: bool)
        requires
            self.wf(),
        ensures
            r == self.has_room(),
    {
        BUFFER_SIZE - store_len(&self.stored) >= READ_CHUNK
    }

    /// Appends a chunk read from the file.
    pub fn push_chunk(&mut self, chunk: &[u8])
        requires
            old(self).wf(),
            old(self).buffered().len() + chunk@.len() <= BUFFER_SIZE,
        ensures
            final(self).wf(),
            final(self).buffered() == old(self).buffered() + chunk@,
    {
        let _ = store_extend(&mut self.stored, chunk);
    }

    /// Takes the next complete line from the buffer and decodes it. Without a complete line,
    /// asks for data unless the file is at its end or the buffer has no room, and ends the log
    /// otherwise.
    pub fn next_frame(&mut self, at_eof: bool) -> (r: LogStep)
        requires
            old(self).wf(),
        ensures
            final(self).wf(),
            ({
                let buf = old(self).buffered();
                let h = first_of(buf, NEWLINE);
                if h < buf.len() {
                    &&& final(self).buffered() == buf.subrange((h + 1) as int, buf.len() as int)
                    &&& match parse_line_spec(buf.subrange(0, h as int)) {
                        Some(f) => r matches LogStep::Frame(g) && g@ == f,
                        None => r is End,
                    }
                } else {
                    &&& final(self).buffered() == buf
                    &&& if !at_eof && old(self).has_room() {
                        r is NeedData
                    } else {
                        r is End
                    }
                }
            }),
    {
        let n = store_len(&self.stored);
        let ghost buf = self.buffered();
        let mut h: usize = 0;
        while h < n && store_get(&self.stored, h) != NEWLINE
            invariant
                n == buf.len(),
                buf == buffered_bytes(self.stored),
                h <= n,
                forall|k: int| 0 <= k < h ==> buf[k] != NEWLINE,
            decreases n - h,
        {
            h = h + 1;
        }
        proof {
            lemma_first_of(buf, NEWLINE, 0, h as int, n as int);
            assert(buf.subrange(0, n as int) =~= buf);
        }
        if h >= n {
            if !at_eof && BUFFER_SIZE - n >= READ_CHUNK {
                return LogStep::NeedData;
            } else {
                return LogStep::End;
            }
        }
        let mut line: Vec<u8> = Vec::new();
        let mut rest: Vec<u8> = Vec::new();
        let mut i: usize = 0;
        while i < n
            invariant
                n == buf.len(),
                buf == buffered_bytes(self.stored),
                h < n,
                i <= n,
                i <= h ==> line@ == buf.subrange(0, i as int) && rest@.len() == 0,
                i > h ==> line@ == buf.subrange(0, h as int) && rest@ == buf.subrange(h + 1, i as int),
            decreases n - i,
        {
            let b = store_get(&self.stored, i);
            if i < h {
                line.push(b);
                assert(buf.subrange(0, i + 1 as int) =~= buf.subrange(0, i as int).push(buf[i as int]));
            } else if i > h {
                rest.push(b);
                assert(buf.subrange(h + 1, i + 1 as int) =~= buf.subrange(h + 1, i as int).push(buf[i as int]));
            } else {
                assert(buf.subrange(h + 1, i + 1 as int) =~= Seq::<u8>::empty());
            }
            i = i + 1;
        }
        let mut kept = store_new();
        let _ = store_extend(&mut kept, rest.as_slice());
        self.stored = kept;
        match parse_log_line(line.as_slice()) {
            Some(f) => LogStep::Frame(f),
            None => LogStep::End,
        }
    }
}

/// `a` comes strictly before `b` in byte-wise lexicographic order (a proper prefix comes
/// first).
pub open spec fn lex_lt(a: Seq<u8>, b: Seq<u8>) -> bool
    decreases a.len(),
{
    if b.len() == 0 {
        false
    } else if a.len() == 0 {
        true
    } else if a[0] != b[0] {
        a[0] < b[0]
    } else {
        lex_lt(a.drop_first(), b.drop_first())
    }
}

/// Name order: by base name, then by extension.
pub open spec fn name_lt(a: Seq<u8>, b: Seq<u8>) -> bool {
    lex_lt(base_of(a), base_of(b)) || (base_of(a) == base_of(b) && lex_lt(ext_of(a), ext_of(b)))
}

/// Listing order: entry `x` goes before entry `e` when `x` is a directory and `e` is not, or
/// both are of one kind and the name of `x` comes first.
pub open spec fn entry_before(x: (bool, Seq<u8>), e: (bool, Seq<u8>)) -> bool {
    (x.0 && !e.0) || (x.0 == e.0 && name_lt(x.1, e.1))
}

/// Where a new entry goes in a listing: before the first entry that does not go before it.
pub open spec fn insert_position(entries: Seq<(bool, Seq<u8>)>, e: (bool, Seq<u8>)) -> nat
    decreases entries.len(),
{
    if entries.len() == 0 {
        0
    } else if !entry_before(entries[0], e) {
        0
    } else {
        1 + insert_position(entries.drop_first(), e)
    }
}

/// Every entry of the listing goes no earlier than the ones before it.
pub open spec fn sorted(entries: Seq<(bool, Seq<u8>)>) -> bool {
    forall|i: int, j: int| 0 <= i < j < entries.len() ==> !entry_before(#[trigger] entries[j], #[trigger] entries[i])
}

/// Byte-wise lexicographic order is transitive.
proof fn lemma_lex_lt_transitive(a: Seq<u8>, b: Seq<u8>, c: Seq<u8>)
    requires
        lex_lt(a, b),
        lex_lt(b, c),
    ensures
        lex_lt(a, c),
    decreases a.len(),
{
    if a.len() > 0 && b.len() > 0 && c.len() > 0 && a[0] == b[0] && b[0] == c[0] {
        lemma_lex_lt_transitive(a.drop_first(), b.drop_first(), c.drop_first());
    }
}

/// Of two different sequences, one comes first.
proof fn lemma_lex_lt_total(a: Seq<u8>, b: Seq<u8>)
    ensures
        a =~= b || lex_lt(a, b) || lex_lt(b, a),
    decreases a.len(),
{
    if a.len() > 0 && b.len() > 0 && a[0] == b[0] {
        lemma_lex_lt_total(a.drop_first(), b.drop_first());
        if a.drop_first() =~= b.drop_first() {
            assert(a =~= seq![a[0]] + a.drop_first());
            assert(b =~= seq![b[0]] + b.drop_first());
        }
    }
}

/// No sequence comes before itself, and no two come each before the other.
proof fn lemma_lex_lt_asymmetric(a: Seq<u8>, b: Seq<u8>)
    ensures
        !(lex_lt(a, b) && lex_lt(b, a)),
        !lex_lt(a, a),
    decreases a.len(),
{
    if a.len() > 0 && b.len() > 0 {
        lemma_lex_lt_asymmetric(a.drop_first(), b.drop_first());
    }
    if a.len() > 0 {
        lemma_lex_lt_asymmetric(a.drop_first(), a.drop_first());
    }
}

/// Byte-wise lexicographic order: "before" is asymmetric, "not before" chains, and of two
/// different sequences one comes first.
proof fn lemma_lex_order(x: Seq<u8>, y: Seq<u8>, z: Seq<u8>)
    ensures
        lex_lt(x, y) ==> !lex_lt(y, x),
        !lex_lt(x, y) && !lex_lt(y, z) ==> !lex_lt(x, z),
        x == y || lex_lt(x, y) || lex_lt(y, x),
{
    lemma_lex_lt_asymmetric(x, y);
    lemma_lex_lt_asymmetric(y, z);
    lemma_lex_lt_asymmetric(x, z);
    lemma_lex_lt_asymmetric(z, z);
    lemma_lex_lt_total(x, y);
    lemma_lex_lt_total(y, z);
    if lex_lt(z, y) && lex_lt(y, x) {
        lemma_lex_lt_transitive(z, y, x);
    }
    if lex_lt(x, z) && lex_lt(z, y) {
        lemma_lex_lt_transitive(x, z, y);
    }
    if lex_lt(y, x) && lex_lt(x, z) {
        lemma_lex_lt_transitive(y, x, z);
    }
}

/// Name order: "not before" chains, and "before" is asymmetric.
proof fn lemma_name_order(x: Seq<u8>, y: Seq<u8>, z: Seq<u8>)
    ensures
        name_lt(x, y) ==> !name_lt(y, x),
        !name_lt(x, y) && !name_lt(y, z) ==> !name_lt(x, z),
{
    let (bx, by, bz) = (base_of(x), base_of(y), base_of(z));
    let (ex, ey, ez) = (ext_of(x), ext_of(y), ext_of(z));
    lemma_lex_order(bx, by, bz);
    lemma_lex_order(by, bz, bx);
    lemma_lex_order(bz, bx, by);
    lemma_lex_order(ex, ey, ez);
    lemma_lex_order(ey, ez, ex);
    lemma_lex_order(ez, ex, ey);
    lemma_lex_order(bx, bz, by);
    lemma_lex_order(ex, ez, ey);
}

/// Listing order: "not before" is transitive, and "before" is asymmetric.
proof fn lemma_entry_order(x: (bool, Seq<u8>), y: (bool, Seq<u8>), z: (bool, Seq<u8>))
    ensures
        entry_before(x, y) ==> !entry_before(y, x),
        !entry_before(x, y) && !entry_before(y, z) ==> !entry_before(x, z),
{
    lemma_name_order(x.1, y.1, z.1);
}

/// Inserting an entry at its place keeps a sorted listing sorted.
proof fn lemma_insert_sorted(entries: Seq<(bool, Seq<u8>)>, e: (bool, Seq<u8>), p: int)
    requires
        sorted(entries),
        0 <= p <= entries.len(),
        forall|k: int| 0 <= k < p ==> entry_before(#[trigger] entries[k], e),
        p == entries.len() || !entry_before(entries[p], e),
    ensures
        sorted(entries.insert(p, e)),
{
    let r = entries.insert(p, e);
    assert forall|i: int, j: int| 0 <= i < j < r.len() implies !entry_before(#[trigger] r[j], #[trigger] r[i]) by {
        if j < p {
            assert(r[i] == entries[i] && r[j] == entries[j]);
        } else if j == p {
            assert(r[i] == entries[i]);
            lemma_entry_order(entries[i], e, e);
        } else if i == p {
            assert(r[j] == entries[j - 1]);
            if j - 1 > p {
                assert(!entry_before(entries[j - 1], entries[p]));
            }
            lemma_entry_order(entries[j - 1], entries[p], e);
        } else if i < p {
            assert(r[i] == entries[i] && r[j] == entries[j - 1]);
            if i < j - 1 {
                assert(!entry_before(entries[j - 1], entries[i]));
            }
        } else {
            assert(r[i] == entries[i - 1] && r[j] == entries[j - 1]);
        }
    }
}

/// The listing after one entry found in the directory: inserted at its place unless the
/// listing is full, or the entry is a file and only directories are listed.
pub open spec fn with_entry(entries: Seq<(bool, Seq<u8>)>, e: (bool, Seq<u8>), dirs_only: bool) -> Seq<(bool, Seq<u8>)> {
    if (dirs_only && !e.0) || entries.len() >= MAX_ENTRIES {
        entries
    } else {
        entries.insert(insert_position(entries, e) as int, e)
    }
}

/// The listing after the entries found in the directory, in the order they were found.
pub open spec fn with_entries(entries: Seq<(bool, Seq<u8>)>, found: Seq<(bool, Seq<u8>)>, dirs_only: bool) -> Seq<(bool, Seq<u8>)>
    decreases found.len(),
{
    if found.len() == 0 {
        entries
    } else {
        with_entry(with_entries(entries, found.drop_last(), dirs_only), found.last(), dirs_only)
    }
}

/// The listing once indexing ends: a `.` entry is put first when the listing is empty, or when
/// only directories are listed and there is none; when the listing is full, its last entry
/// makes room.
pub open spec fn with_sentinel(entries: Seq<(bool, Seq<u8>)>, dirs_only: bool) -> Seq<(bool, Seq<u8>)> {
    if entries.len() == 0 || (dirs_only && !entries.contains((true, this_dir_bytes()))) {
        let kept = if entries.len() >= MAX_ENTRIES { entries.drop_last() } else { entries };
        seq![(true, this_dir_bytes())] + kept
    } else {
        entries
    }
}

/// The listing that indexing a directory leaves.
pub open spec fn index_spec(entries: Seq<(bool, Seq<u8>)>, found: Seq<(bool, Seq<u8>)>, dirs_only: bool) -> Seq<(bool, Seq<u8>)> {
    with_sentinel(with_entries(entries, found, dirs_only), dirs_only)
}

/// The entries found, as `(is_directory, name)` values.
pub open spec fn found_view(found: Seq<(bool, ShortName)>) -> Seq<(bool, Seq<u8>)> {
    found.map_values(|e: (bool, ShortName)| (e.0, e.1@))
}

/// Whether `ca[off..off + la]` comes strictly before `cb[off..off + lb]`.
fn bytes_less(ca: &[u8; 11], cb: &[u8; 11], off: usize, la: usize, lb: usize) -> (r: bool)
    requires
        off + la <= 11,
        off + lb <= 11,
    ensures
        r == lex_lt(ca@.subrange(off as int, off + la), cb@.subrange(off as int, off + lb)),
{
    let ghost sa = ca@.subrange(off as int, off + la);
    let ghost sb = cb@.subrange(off as int, off + lb);
    let mut i: usize = 0;
    assert(sa.subrange(0, la as int) =~= sa);
    assert(sb.subrange(0, lb as int) =~= sb);
    while i < la && i < lb && ca[off + i] == cb[off + i]
        invariant
            off + la <= 11,
            off + lb <= 11,
            sa == ca@.subrange(off as int, off + la),
            sb == cb@.subrange(off as int, off + lb),
            i <= la,
            i <= lb,
            lex_lt(sa, sb) == lex_lt(sa.subrange(i as int, la as int), sb.subrange(i as int, lb as int)),
        decreases la - i,
    {
        assert(sa.subrange(i as int, la as int).drop_first() =~= sa.subrange(i + 1 as int, la as int));
        assert(sb.subrange(i as int, lb as int).drop_first() =~= sb.subrange(i + 1 as int, lb as int));
        i = i + 1;
    }
    if i >= lb {
        false
    } else if i >= la {
        true
    } else {
        assert(sa[i as int] == ca@[off + i]);
        assert(sb[i as int] == cb@[off + i]);
        ca[off + i] < cb[off + i]
    }
}

/// Whether the name `a` comes strictly before the name `b`; see [`name_lt`].
fn name_less(a: &ShortName, b: &ShortName) -> (r: bool)
    ensures
        r == name_lt(a@, b@),
{
    let ca = a.contents();
    let cb = b.contents();
    let la = a.base_len();
    let lb = b.base_len();
    let ea = a.ext_len();
    let eb = b.ext_len();
    proof {
        lemma_first_of_le(a@.subrange(0, 8), SPACE);
        lemma_first_of_le(b@.subrange(0, 8), SPACE);
        lemma_first_of_le(a@.subrange(8, 11), SPACE);
        lemma_first_of_le(b@.subrange(8, 11), SPACE);
        assert(base_of(a@) =~= ca@.subrange(0, la as int));
        assert(base_of(b@) =~= cb@.subrange(0, lb as int));
        assert(ext_of(a@) =~= ca@.subrange(8, 8 + ea));
        assert(ext_of(b@) =~= cb@.subrange(8, 8 + eb));
        lemma_lex_lt_total(base_of(a@), base_of(b@));
    }
    if bytes_less(&ca, &cb, 0, la, lb) {
        true
    } else if bytes_less(&cb, &ca, 0, lb, la) {
        proof {
            lemma_lex_lt_asymmetric(base_of(a@), base_of(b@));
        }
        false
    } else {
        bytes_less(&ca, &cb, 8, ea, eb)
    }
}

/// Whether entry `x` goes before entry `e` in a listing.
fn goes_before(x: &(bool, ShortName), e: &(bool, ShortName)) -> (r: bool)
    ensures
        r == entry_before((x.0, x.1@), (e.0, e.1@)),
{
    if x.0 != e.0 {
        x.0
    } else {
        name_less(&x.1, &e.1)
    }
}

/// `insert_position` is the first index whose entry does not go before `e`.
proof fn lemma_insert_position(entries: Seq<(bool, Seq<u8>)>, e: (bool, Seq<u8>), i: int)
    requires
        0 <= i <= entries.len(),
        forall|k: int| 0 <= k < i ==> entry_before(entries[k], e),
        i == entries.len() || !entry_before(entries[i], e),
    ensures
        insert_position(entries, e) == i,
    decreases i,
{
    if i > 0 {
        lemma_insert_position(entries.drop_first(), e, i - 1);
    }
}

/// Adds one entry found in the directory to the listing, at its place in listing order. A
/// file is skipped when only directories are listed; an entry is dropped when the listing is
/// full.
pub fn index_entry(content: &mut DirContent, is_dir: bool, name: ShortName, dirs_only: bool)
    ensures
        final(content).entries() == with_entry(old(content).entries(), (is_dir, name@), dirs_only),
        sorted(old(content).entries()) ==> sorted(final(content).entries()),
{
    if dirs_only && !is_dir {
        return;
    }
    let e = (is_dir, name);
    let n = content.len();
    let mut i: usize = 0;
    while i < n && goes_before(&content.get(i), &e)
        invariant
            n == content.entries().len(),
            content.entries() == old(content).entries(),
            i <= n,
            e.0 == is_dir,
            e.1@ == name@,
            forall|k: int| 0 <= k < i ==> entry_before(content.entries()[k], (is_dir, name@)),
        decreases n - i,
    {
        i = i + 1;
    }
    proof {
        lemma_insert_position(content.entries(), (is_dir, name@), i as int);
        if sorted(content.entries()) {
            lemma_insert_sorted(content.entries(), (is_dir, name@), i as int);
        }
    }
    content.insert(i, is_dir, name);
}

/// Whether the listing holds a `.` directory entry.
fn has_this_dir(content: &DirContent) -> (r: bool)
    ensures
        r == content.entries().contains((true, this_dir_bytes())),
{
    let n = content.len();
    let mut i: usize = 0;
    while i < n
        invariant
            n == content.entries().len(),
            i <= n,
            forall|k: int| 0 <= k < i ==> content.entries()[k] != (true, this_dir_bytes()),
        decreases n - i,
    {
        let x = content.get(i);
        if x.0 && x.1.is_this_dir() {
            assert(content.entries()[i as int] == (true, this_dir_bytes()));
            return true;
        }
        i = i + 1;
    }
    false
}

/// Indexes a directory into `content`: each entry of `found` is put at its place, directories
/// first and then by base name, at most [`MAX_ENTRIES`] of them, files skipped when
/// `dirs_only`; then a `.` entry is put first when the listing is empty, or when `dirs_only`
/// and it holds none.
pub fn index_dir(content: &mut DirContent, found: &[(bool, ShortName)], dirs_only: bool)
    ensures
        final(content).entries() == index_spec(old(content).entries(), found_view(found@), dirs_only),
        sorted(old(content).entries()) ==> sorted(with_entries(old(content).entries(), found_view(found@), dirs_only)),
{
    let mut i: usize = 0;
    while i < found.len()
        invariant
            i <= found@.len(),
            content.entries() == with_entries(old(content).entries(), found_view(found@.subrange(0, i as int)), dirs_only),
            sorted(old(content).entries()) ==> sorted(content.entries()),
        decreases found@.len() - i,
    {
        let e = found[i];
        index_entry(content, e.0, e.1, dirs_only);
        proof {
            let f1 = found_view(found@.subrange(0, i + 1 as int));
            assert(f1.drop_last() =~= found_view(found@.subrange(0, i as int)));
            assert(f1.last() == (e.0, e.1@));
        }
        i = i + 1;
    }
    assert(found@.subrange(0, i as int) =~= found@);
    let n = content.len();
    if n == 0 || (dirs_only && !has_this_dir(content)) {
        if n >= MAX_ENTRIES {
            content.pop();
        }
        let ghost kept = content.entries();
        content.insert(0, true, ShortName::this_dir());
        assert(kept.insert(0, (true, this_dir_bytes())) =~= seq![(true, this_dir_bytes())] + kept);
    }
}

} // verus!
