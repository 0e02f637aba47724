//! Decimal line framing of packet words on the serial line: the writer sends
//! each word as ten decimal digits, the controller answers one word per line.

use vstd::prelude::*;

use crate::packet::{spec_packet_word, spec_word_packet, Paquete, CMD_SET_PIN, CMD_WRITE_REGISTER};

verus! {

/// Number of digits in a frame: enough for every `u32`.
pub const FRAME_LEN: usize = 10;

/// ASCII line feed.
pub const LF: u8 = 10;
/// ASCII carriage return.
pub const CR: u8 = 13;

pub open spec fn is_digit(b: u8) -> bool {
    48 <= b <= 57
}

pub open spec fn all_digits(s: Seq<u8>) -> bool {
    forall|i: int| 0 <= i < s.len() ==> is_digit(#[trigger] s[i])
}

/// The number that a string of ASCII digits spells, most significant first.
pub open spec fn decimal_value(s: Seq<u8>) -> nat
    decreases s.len(),
{
    if s.len() == 0 {
        0
    } else {
        decimal_value(s.drop_last()) * 10 + (s.last() - 48) as nat
    }
}

pub open spec fn pow10(n: nat) -> nat
    decreases n,
{
    if n == 0 {
        1
    } else {
        10 * pow10((n - 1) as nat)
    }
}

/// `s` with every line feed and carriage return taken out.
pub open spec fn strip_line_breaks(s: Seq<u8>) -> Seq<u8>
    decreases s.len(),
{
    if s.len() == 0 {
        s
    } else {
        let rest = strip_line_breaks(s.drop_last());
        if s.last() == LF || s.last() == CR {
            rest
        } else {
            rest.push(s.last())
        }
    }
}

/// What reading `t` as an unsigned 32-bit decimal gives: an optional `+`, then
/// one or more ASCII digits whose value fits in 32 bits; anything else is
/// rejected.
pub open spec fn u32_text_value(t: Seq<u8>) -> Option<u32> {
    let digits = if t.len() > 0 && t[0] == 43 { t.drop_first() } else { t };
    if digits.len() > 0 && all_digits(digits) && decimal_value(digits) <= u32::MAX {
        Some(decimal_value(digits) as u32)
    } else {
        None
    }
}

/// `t` is a frame of `w`: exactly ten ASCII digits that spell `w`.
pub open spec fn is_frame_of(t: Seq<u8>, w: u32) -> bool {
    &&& t.len() == FRAME_LEN
    &&& all_digits(t)
    &&& decimal_value(t) == w
}

/// The word that a line received from the controller carries, once its line
/// breaks are dropped; `None` where the rest is no unsigned 32-bit decimal.
pub fn parse_line(line: &[u8]) -> (r: Option<u32>)
    ensures
        r == u32_text_value(strip_line_breaks(line@)),
{
    let text = strip_breaks(line);
    parse_u32(&text)
}

/// `line` without its line feeds and carriage returns.
fn strip_breaks(line: &[u8]) -> (out: Vec<u8>)
    ensures
        out@ == strip_line_breaks(line@),
{
    let mut out: Vec<u8> = Vec::new();
    let n = line.len();
    for i in 0..n
        invariant
            n == line@.len(),
            out@ == strip_line_breaks(line@.take(i as int)),
    {
        assert(line@.take(i + 1).drop_last() =~= line@.take(i as int));
        let b = line[i];
        if b != LF && b != CR {
            out.push(b);
        }
    }
    assert(line@.take(n as int) =~= line@);
    out
}

/// The value of `t` as an unsigned 32-bit decimal with an optional `+`.
fn parse_u32(t: &Vec<u8>) -> (r: Option<u32>)
    ensures
        r == u32_text_value(t@),
{
    let start: usize = if t.len() > 0 && t[0] == 43u8 { 1 } else { 0 };
    let ghost digits = if t@.len() > 0 && t@[0] == 43 { t@.drop_first() } else { t@ };
    assert(digits =~= t@.subrange(start as int, t@.len() as int));
    if start == t.len() {
        return None;
    }
    let mut value: u64 = 0;
    let mut overflow = false;
    let mut i = start;
    while i < t.len()
        invariant
            start <= i <= t@.len(),
            digits =~= t@.subrange(start as int, t@.len() as int),
            digits == (if t@.len() > 0 && t@[0] == 43 { t@.drop_first() } else { t@ }),
            all_digits(t@.subrange(start as int, i as int)),
            !overflow ==> value == decimal_value(t@.subrange(start as int, i as int)),
            !overflow ==> value <= u32::MAX,
            overflow ==> decimal_value(t@.subrange(start as int, i as int)) > u32::MAX,
        decreases t@.len() - i,
    {
        let ghost prev = t@.subrange(start as int, i as int);
        let ghost next = t@.subrange(start as int, i + 1);
        assert(next.drop_last() =~= prev);
        let b = t[i];
        if b < 48u8 || b > 57u8 {
            assert(digits[i - start] == b);
            assert(!is_digit(digits[i - start]));
            return None;
        }
        assert(all_digits(next)) by {
            assert forall|j: int| 0 <= j < next.len() implies is_digit(#[trigger] next[j]) by {
                if j < prev.len() {
                    assert(next[j] == prev[j]);
                }
            }
        }
        if !overflow {
            let v = value * 10 + (b - 48u8) as u64;
            if v > 0xFFFF_FFFFu64 {
                overflow = true;
            } else {
                value = v;
            }
        }
        i = i + 1;
    }
    assert(t@.subrange(start as int, i as int) =~= digits);
    if overflow {
        None
    } else {
        Some(value as u32)
    }
}

/// The ten ASCII digits, zero-padded, that the writer sends for `w`.
pub fn frame_word(w: u32) -> (t: Vec<u8>)
    ensures
        is_frame_of(t@, w),
{
    let mut out: Vec<u8> = Vec::new();
    let mut rest: u32 = w;
    let mut div: u32 = 1_000_000_000;
    assert(pow10(9) == 1_000_000_000 && pow10(10) == 10_000_000_000) by {
        reveal_with_fuel(pow10, 11);
    }
    let mut i: usize = 0;
    assert(decimal_value(out@) == 0);
    assert(decimal_value(out@) * pow10(10) == 0);
    while i < FRAME_LEN
        invariant
            i <= FRAME_LEN,
            out@.len() == i,
            all_digits(out@),
            i < FRAME_LEN ==> div as nat == pow10((9 - i) as nat),
            decimal_value(out@) * pow10((10 - i) as nat) + rest == w,
            rest < pow10((10 - i) as nat),
        decreases FRAME_LEN - i,
    {
        let ghost old_out = out@;
        let ghost v = decimal_value(old_out);
        let ghost p = pow10((9 - i) as nat);
        assert(pow10((10 - i) as nat) == 10 * p);
        assert(div > 0) by {
            assert(p >= 1) by {
                lemma_pow10_positive((9 - i) as nat);
            }
        }
        let d = rest / div;
        let r = rest % div;
        assert(d < 10 && rest == d * div + r) by (nonlinear_arith)
            requires
                rest < 10 * (div as int),
                div > 0,
                d == rest / div,
                r == rest % div,
        ;
        out.push(48u8 + d as u8);
        assert(out@.drop_last() =~= old_out);
        assert(decimal_value(out@) == v * 10 + d);
        assert((v * 10 + d) * p + r == v * (10 * p) + rest) by (nonlinear_arith)
            requires
                rest == d * p + r,
        ;
        assert(all_digits(out@)) by {
            assert forall|j: int| 0 <= j < out@.len() implies is_digit(#[trigger] out@[j]) by {
                if j < old_out.len() {
                    assert(out@[j] == old_out[j]);
                }
            }
        }
        rest = r;
        if i < 9 {
            div = div / 10;
            assert(p == 10 * pow10((8 - i) as nat));
        }
        i = i + 1;
    }
    assert(pow10(0) == 1);
    assert(i == 10);
    assert(rest == 0);
    assert(decimal_value(out@) * pow10(0) == decimal_value(out@));
    assert(decimal_value(out@) == w);
    out
}

proof fn lemma_pow10_positive(n: nat)
    ensures
        pow10(n) >= 1,
    decreases n,
{
    if n > 0 {
        lemma_pow10_positive((n - 1) as nat);
    }
}

/// Text without line breaks is left as it is by stripping them.
proof fn lemma_strip_no_breaks(t: Seq<u8>)
    requires
        all_digits(t),
    ensures
        strip_line_breaks(t) == t,
    decreases t.len(),
{
    if t.len() > 0 {
        let init = t.drop_last();
        assert(all_digits(init)) by {
            assert forall|j: int| 0 <= j < init.len() implies is_digit(#[trigger] init[j]) by {
                assert(init[j] == t[j]);
            }
        }
        lemma_strip_no_breaks(init);
        assert(is_digit(t[t.len() - 1]));
        assert(init.push(t.last()) =~= t);
    }
}

/// A frame parses back to its word, also when the line carries a carriage
/// return and a line feed after it: what the writer frames, the line reader
/// reads back.
pub proof fn lemma_frame_parses_back(t: Seq<u8>, w: u32)
    requires
        is_frame_of(t, w),
    ensures
        u32_text_value(t) == Some(w),
        u32_text_value(strip_line_breaks(t + seq![CR, LF])) == Some(w),
{
    lemma_strip_no_breaks(t);
    let line = t + seq![CR, LF];
    assert(line.drop_last() =~= t + seq![CR]);
    assert((t + seq![CR]).drop_last() =~= t);
    assert(line.last() == LF);
    assert(strip_line_breaks(line) == strip_line_breaks(t + seq![CR]));
    assert((t + seq![CR]).last() == CR);
    assert(strip_line_breaks(t + seq![CR]) == strip_line_breaks(t));
    assert(strip_line_breaks(line) == t);
    assert(is_digit(t[0]));
}

/// A write or pin packet that goes out as a framed word and comes back on a
/// line arrives as the same packet.
pub proof fn lemma_packet_line_roundtrip(p: Paquete, t: Seq<u8>)
    requires
        p.comando == CMD_WRITE_REGISTER || p.comando == CMD_SET_PIN,
        spec_packet_word(p) matches Some(w) && is_frame_of(t, w),
    ensures
        u32_text_value(strip_line_breaks(t + seq![CR, LF])) matches Some(w) && spec_word_packet(w)
            == p,
{
    let w = spec_packet_word(p).unwrap();
    lemma_frame_parses_back(t, w);
    crate::packet::lemma_word_roundtrip(p);
}

/// Taking the line breaks out works piece by piece: out of a concatenation it
/// is the concatenation of the pieces without breaks, and a single byte is
/// dropped exactly when it is a line feed or a carriage return.
pub proof fn lemma_strip_pieces(a: Seq<u8>, b: Seq<u8>)
    ensures
        strip_line_breaks(a + b) == strip_line_breaks(a) + strip_line_breaks(b),
        forall|x: u8| #[trigger] strip_line_breaks(seq![x]) == if x == LF || x == CR { Seq::<u8>::empty() } else { seq![x] },
    decreases b.len(),
{
    assert forall|x: u8| #[trigger] strip_line_breaks(seq![x]) == if x == LF || x == CR { Seq::<u8>::empty() } else { seq![x] } by {
        let one = seq![x];
        assert(one.len() == 1);
        assert(one.last() == x);
        assert(one.drop_last() =~= Seq::<u8>::empty());
        assert(strip_line_breaks(Seq::<u8>::empty()) == Seq::<u8>::empty());
        assert(Seq::<u8>::empty().push(x) =~= one);
        assert(strip_line_breaks(one) == if x == LF || x == CR { Seq::<u8>::empty() } else { Seq::<u8>::empty().push(x) });
    }
    if b.len() == 0 {
        assert(a + b =~= a);
        assert(strip_line_breaks(a) + strip_line_breaks(b) =~= strip_line_breaks(a));
    } else {
        lemma_strip_pieces(a, b.drop_last());
        assert((a + b).drop_last() =~= a + b.drop_last());
        assert((a + b).last() == b.last());
        if b.last() == LF || b.last() == CR {
        } else {
            assert((strip_line_breaks(a) + strip_line_breaks(b.drop_last())).push(b.last()) =~= strip_line_breaks(a)
                + strip_line_breaks(b.drop_last()).push(b.last()));
        }
    }
}

/// A leading plus sign does not change what a decimal reads as.
pub proof fn lemma_plus_sign(t: Seq<u8>)
    requires
        t.len() > 0,
        t[0] != 43,
    ensures
        u32_text_value(seq![43u8] + t) == u32_text_value(t),
{
    assert((seq![43u8] + t).drop_first() =~= t);
}

/// A text with a byte that is neither a digit nor a leading plus sign, or
/// with no digit at all, reads as nothing; a text of digits reads as their
/// value exactly when that fits in 32 bits.
pub proof fn lemma_text_rejects(t: Seq<u8>, i: int)
    requires
        0 <= i < t.len(),
        !is_digit(t[i]),
        i > 0 || t[i] != 43,
    ensures
        u32_text_value(t) is None,
        u32_text_value(seq![43u8]) is None,
        u32_text_value(Seq::<u8>::empty()) is None,
{
    if t[0] == 43 {
        assert(t.drop_first()[i - 1] == t[i]);
    }
    assert(seq![43u8].drop_first().len() == 0);
}

/// Digit `j` of an all-digit text is the digit of its value in that place:
/// the value divided by the power of ten of the places after it, modulo ten.
pub proof fn lemma_digit_places(s: Seq<u8>, j: int)
    requires
        all_digits(s),
        0 <= j < s.len(),
    ensures
        s[j] - 48 == (decimal_value(s) / pow10((s.len() - 1 - j) as nat)) % 10,
    decreases s.len(),
{
    let init = s.drop_last();
    let l = (s.last() - 48) as int;
    assert(is_digit(s[s.len() - 1]));
    assert(all_digits(init)) by {
        assert forall|k: int| 0 <= k < init.len() implies is_digit(#[trigger] init[k]) by {
            assert(init[k] == s[k]);
        }
    }
    let a = decimal_value(init) as int;
    assert(decimal_value(s) == a * 10 + l);
    if j == s.len() - 1 {
        assert(pow10(0) == 1);
        assert((a * 10 + l) / 1 == a * 10 + l);
        assert((a * 10 + l) % 10 == l);
    } else {
        lemma_digit_places(init, j);
        assert(init[j] == s[j]);
        let m = (s.len() - 2 - j) as nat;
        lemma_pow10_positive(m);
        assert(pow10((s.len() - 1 - j) as nat) == 10 * pow10(m));
        assert((a * 10 + l) / 10 == a);
        vstd::arithmetic::div_mod::lemma_div_denominator(a * 10 + l, 10, pow10(m) as int);
    }
}

/// The frame of a word spells it digit by digit: its `i`-th byte is the
/// ASCII digit in the place of `10^(9 - i)` of the word.
pub proof fn lemma_frame_digits(t: Seq<u8>, w: u32)
    requires
        is_frame_of(t, w),
    ensures
        forall|i: int| 0 <= i < FRAME_LEN ==> #[trigger] t[i] == 48 + (w as nat / pow10((9 - i) as nat)) % 10,
{
    assert forall|i: int| 0 <= i < FRAME_LEN implies #[trigger] t[i] == 48 + (w as nat / pow10((9 - i) as nat)) % 10 by {
        lemma_digit_places(t, i);
    }
}

} // verus!
