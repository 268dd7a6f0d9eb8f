//! Parsers of numbers: non-zero integers and hexadecimal bytes.
use vstd::prelude::*;
use crate::error::{IntErrorKind, ParsingError};
use crate::parse::{Parser, SpecResult};
use crate::text::{
    Input, digit_of, digit_value, digits_value, is_dec, is_dec_digit, is_hex, is_hex_digit,
    utf8_len,
};

verus! {

/// The end of the run of digits (hexadecimal ones when `hex`) that starts at `i`.
pub open spec fn digit_run_end(s: Seq<char>, i: int, hex: bool) -> int
    decreases s.len() - i,
{
    if 0 <= i < s.len() && (if hex { is_hex_digit(s[i]) } else { is_dec_digit(s[i]) }) {
        digit_run_end(s, i + 1, hex)
    } else {
        i
    }
}

proof fn lemma_digit_run_end(s: Seq<char>, i: int, hex: bool)
    requires
        0 <= i <= s.len(),
    ensures
        i <= digit_run_end(s, i, hex) <= s.len(),
    decreases s.len() - i,
{
    if i < s.len() && (if hex { is_hex_digit(s[i]) } else { is_dec_digit(s[i]) }) {
        lemma_digit_run_end(s, i + 1, hex);
    }
}

proof fn lemma_digits_step(s: Seq<char>, start: int, i: int, radix: nat)
    requires
        0 <= start <= i < s.len(),
    ensures
        digits_value(s.subrange(start, i + 1), radix) == digits_value(s.subrange(start, i), radix)
            * radix + digit_value(s[i]),
{
    assert(s.subrange(start, i + 1).drop_last() =~= s.subrange(start, i));
}

/// Whether `c` is a digit (a hexadecimal one when `hex`).
fn digit_in(c: char, hex: bool) -> (b: bool)
    ensures
        b == (if hex { is_hex_digit(c) } else { is_dec_digit(c) }),
{
    if hex {
        is_hex(c)
    } else {
        is_dec(c)
    }
}

/// Reads the run of digits from `start`: where it ends, and its value when that is
/// at most `limit` (`None` when it is larger).
fn read_digits(input: &Input, start: usize, hex: bool, limit: u64) -> (r: (usize, Option<u64>))
    requires
        start <= input.chars@.len(),
        limit <= u32::MAX,
    ensures
        r.0 == digit_run_end(input.chars@, start as int, hex),
        ({
            let v = digits_value(
                input.chars@.subrange(start as int, r.0 as int),
                if hex { 16nat } else { 10nat },
            );
            match r.1 {
                Some(x) => x == v && v <= limit,
                None => v > limit,
            }
        }),
{
    let radix: u64 = if hex { 16 } else { 10 };
    let ghost s = input.chars@;
    let ghost rad: nat = if hex { 16nat } else { 10nat };
    proof {
        lemma_digit_run_end(s, start as int, hex);
        assert(s.subrange(start as int, start as int) =~= Seq::<char>::empty());
    }
    let mut i = start;
    let mut acc: u64 = 0;
    let mut over = false;
    while i < input.chars.len() && digit_in(input.chars[i], hex)
        invariant
            start <= i <= s.len(),
            s == input.chars@,
            limit <= u32::MAX,
            radix == rad,
            rad == (if hex { 16nat } else { 10nat }),
            digit_run_end(s, i as int, hex) == digit_run_end(s, start as int, hex),
            !over ==> acc == digits_value(s.subrange(start as int, i as int), rad) && acc <= limit,
            over ==> digits_value(s.subrange(start as int, i as int), rad) > limit,
        decreases s.len() - i,
    {
        let d = digit_of(input.chars[i]) as u64;
        proof {
            lemma_digits_step(s, start as int, i as int, rad);
        }
        if !over {
            assert(acc * radix <= 0xffff_ffffu64 * 16) by (nonlinear_arith)
                requires
                    acc <= 0xffff_ffffu64,
                    radix <= 16,
            ;
            let next = acc * radix + d;
            if next > limit {
                over = true;
            } else {
                acc = next;
            }
        } else {
            let ghost v = digits_value(s.subrange(start as int, i as int), rad);
            assert(v * rad + digit_value(s[i as int]) > limit) by (nonlinear_arith)
                requires
                    v > limit,
                    rad >= 1,
            ;
        }
        i = i + 1;
    }
    if over {
        (i, None)
    } else {
        (i, Some(acc))
    }
}

/// Reads a non-zero `u32` written in decimal, or in hexadecimal after `0x`; the
/// digits run as far as they go.
#[derive(Debug, Clone, Copy)]
pub struct NonZeroU32Parser;

/// Where the digits of a [NonZeroU32Parser] start, and whether they are hexadecimal.
pub open spec fn u32_digits_start(s: Seq<char>, pos: int) -> (int, bool) {
    if pos + 2 <= s.len() && s[pos] == '0' && s[pos + 1] == 'x' {
        (pos + 2, true)
    } else {
        (pos, false)
    }
}

impl<'a> Parser<'a> for NonZeroU32Parser {
    type Dest = u32;

    open spec fn spec_parse(&self, s: Seq<char>, pos: int) -> SpecResult<u32> {
        let (start, hex) = u32_digits_start(s, pos);
        let end = digit_run_end(s, start, hex);
        let v = digits_value(s.subrange(start, end), if hex { 16nat } else { 10nat });
        if end == start {
            Err(ParsingError::ParseIntError(IntErrorKind::Empty))
        } else if v > u32::MAX {
            Err(ParsingError::ParseIntError(IntErrorKind::PosOverflow))
        } else if v == 0 {
            Err(ParsingError::ParseNonZeroIntError)
        } else {
            Ok((end, v as u32))
        }
    }

    fn parse_at(&self, input: &Input<'a>, pos: usize) -> (res: Result<(usize, u32), ParsingError>) {
        let n = input.chars.len();
        let hex = n >= 2 && pos <= n - 2 && input.chars[pos] == '0' && input.chars[pos + 1] == 'x';
        let start = if hex { pos + 2 } else { pos };
        proof {
            lemma_digit_run_end(input.chars@, start as int, hex);
        }
        assert(u32_digits_start(input.chars@, pos as int) == (start as int, hex));
        let (end, value) = read_digits(input, start, hex, 0xffff_ffff);
        if end == start {
            return Err(ParsingError::ParseIntError(IntErrorKind::Empty));
        }
        match value {
            None => {
                Err(ParsingError::ParseIntError(IntErrorKind::PosOverflow))
            },
            Some(v) => {
                if v == 0 {
                    Err(ParsingError::ParseNonZeroIntError)
                } else {
                    let r = v as u32;
                    assert(r.deep_view() == r);
                    Ok((end, r))
                }
            },
        }
    }
}

/// The lowercase digit that writes `d` (below 16).
pub open spec fn digit_char(d: nat) -> char {
    if d < 10 {
        (48 + d) as char
    } else {
        (87 + d) as char
    }
}

/// `n` written in `radix` with lowercase digits, most significant first and without
/// leading zeros, as `format!` writes a number; zero gives no digit at all.
pub open spec fn written_in(n: nat, radix: nat) -> Seq<char>
    decreases n,
{
    if n == 0 || radix < 2 {
        Seq::empty()
    } else {
        proof {
            vstd::arithmetic::div_mod::lemma_div_decreases(n as int, radix as int);
        }
        written_in(n / radix, radix).push(digit_char(n % radix))
    }
}

/// The digit that writes `d` is an ASCII hexadecimal digit of value `d`.
pub proof fn lemma_digit_char(d: nat)
    requires
        d < 16,
    ensures
        (digit_char(d) as u32) < 0x80,
        is_hex_digit(digit_char(d)),
        digit_value(digit_char(d)) == d,
        is_dec_digit(digit_char(d)) <==> d < 10,
        digit_char(d) == '0' <==> d == 0,
{
}

/// What a number written in decimal or hexadecimal is made of.
proof fn lemma_written_in(n: nat, radix: nat)
    requires
        radix == 10 || radix == 16,
    ensures
        digits_value(written_in(n, radix), radix) == n,
        forall|k: int|
            0 <= k < written_in(n, radix).len() ==> (if radix == 16 {
                is_hex_digit(#[trigger] written_in(n, radix)[k])
            } else {
                is_dec_digit(written_in(n, radix)[k])
            }),
        n > 0 ==> written_in(n, radix).len() > 0 && written_in(n, radix)[0] != '0',
    decreases n,
{
    if n > 0 {
        let q = n / radix;
        let r = n % radix;
        vstd::arithmetic::div_mod::lemma_fundamental_div_mod(n as int, radix as int);
        vstd::arithmetic::div_mod::lemma_mod_pos_bound(n as int, radix as int);
        vstd::arithmetic::div_mod::lemma_div_decreases(n as int, radix as int);
        vstd::arithmetic::div_mod::lemma_div_pos_is_pos(n as int, radix as int);
        lemma_written_in(q, radix);
        lemma_digit_char(r);
        let w = written_in(n, radix);
        assert(w == written_in(q, radix).push(digit_char(r)));
        assert(w.drop_last() =~= written_in(q, radix));
        assert(digits_value(w, radix) == q * radix + r) by {
            vstd::arithmetic::mul::lemma_mul_is_commutative(q as int, radix as int);
        }
        if q == 0 {
            assert(r == n);
        }
    }
}

/// A run of digits from `i` up to `b`, followed by the end of the text or by
/// something else, ends at `b`.
proof fn lemma_digit_run_ends_at(s: Seq<char>, i: int, b: int, hex: bool)
    requires
        0 <= i <= b <= s.len(),
        forall|k: int| i <= k < b ==> (if hex { is_hex_digit(#[trigger] s[k]) } else { is_dec_digit(s[k]) }),
        b == s.len() || !(if hex { is_hex_digit(s[b]) } else { is_dec_digit(s[b]) }),
    ensures
        digit_run_end(s, i, hex) == b,
    decreases b - i,
{
    if i < b {
        lemma_digit_run_ends_at(s, i + 1, b, hex);
    }
}

/// Any non-zero `u32` written in decimal, or in lowercase hexadecimal after `0x`, reads
/// back as itself, up to the end of its digits, whatever text that is not a further
/// digit follows it.
pub proof fn lemma_u32_reads_back(n: u32, t: Seq<char>)
    requires
        n != 0,
    ensures
        (t.len() == 0 || !is_dec_digit(t[0])) ==> NonZeroU32Parser.spec_parse(
            written_in(n as nat, 10) + t,
            0,
        ) == Ok::<(int, u32), ParsingError>((written_in(n as nat, 10).len() as int, n)),
        (t.len() == 0 || !is_hex_digit(t[0])) ==> NonZeroU32Parser.spec_parse(
            seq!['0', 'x'] + written_in(n as nat, 16) + t,
            0,
        ) == Ok::<(int, u32), ParsingError>((written_in(n as nat, 16).len() + 2int, n)),
{
    let w = written_in(n as nat, 10);
    lemma_written_in(n as nat, 10);
    if t.len() == 0 || !is_dec_digit(t[0]) {
        let s = w + t;
        assert(u32_digits_start(s, 0) == (0int, false));
        assert forall|k: int| 0 <= k < w.len() implies is_dec_digit(#[trigger] s[k]) by {
            assert(s[k] == w[k]);
        }
        lemma_digit_run_ends_at(s, 0, w.len() as int, false);
        assert(s.subrange(0, w.len() as int) =~= w);
    }
    let h = written_in(n as nat, 16);
    lemma_written_in(n as nat, 16);
    if t.len() == 0 || !is_hex_digit(t[0]) {
        let s = seq!['0', 'x'] + h + t;
        assert(u32_digits_start(s, 0) == (2int, true));
        assert forall|k: int| 2 <= k < h.len() + 2 implies is_hex_digit(#[trigger] s[k]) by {
            assert(s[k] == h[k - 2]);
        }
        lemma_digit_run_ends_at(s, 2, h.len() + 2int, true);
        assert(s.subrange(2, h.len() + 2int) =~= h);
    }
}

/// Reads a non-zero `i32`: its first character and the decimal digits after it,
/// read as `str::parse::<i32>` reads them.
#[derive(Debug, Clone, Copy)]
pub struct NonZeroI32Parser;

/// The largest magnitude of a negative `i32`.
pub open spec fn i32_neg_limit() -> nat {
    0x8000_0000
}

impl<'a> Parser<'a> for NonZeroI32Parser {
    type Dest = i32;

    open spec fn spec_parse(&self, s: Seq<char>, pos: int) -> SpecResult<i32> {
        if pos >= s.len() {
            Err(ParsingError::ParseIntError(IntErrorKind::Empty))
        } else {
            let first = s[pos];
            let end = digit_run_end(s, pos + 1, false);
            let tail = digits_value(s.subrange(pos + 1, end), 10);
            if first == '+' || first == '-' {
                if end == pos + 1 {
                    Err(ParsingError::ParseIntError(IntErrorKind::InvalidDigit))
                } else if first == '+' && tail > i32::MAX {
                    Err(ParsingError::ParseIntError(IntErrorKind::PosOverflow))
                } else if first == '-' && tail > i32_neg_limit() {
                    Err(ParsingError::ParseIntError(IntErrorKind::NegOverflow))
                } else if tail == 0 {
                    Err(ParsingError::ParseNonZeroIntError)
                } else if first == '+' {
                    Ok((end, tail as i32))
                } else {
                    Ok((end, (0 - tail) as i32))
                }
            } else if is_dec_digit(first) {
                let v = digits_value(s.subrange(pos, end), 10);
                if v > i32::MAX {
                    Err(ParsingError::ParseIntError(IntErrorKind::PosOverflow))
                } else if v == 0 {
                    Err(ParsingError::ParseNonZeroIntError)
                } else {
                    Ok((end, v as i32))
                }
            } else {
                Err(ParsingError::ParseIntError(IntErrorKind::InvalidDigit))
            }
        }
    }

    fn parse_at(&self, input: &Input<'a>, pos: usize) -> (res: Result<(usize, i32), ParsingError>) {
        let n = input.chars.len();
        if pos >= n {
            return Err(ParsingError::ParseIntError(IntErrorKind::Empty));
        }
        let first = input.chars[pos];
        proof {
            lemma_digit_run_end(input.chars@, pos + 1, false);
        }
        if first == '+' || first == '-' {
            let limit: u64 = if first == '+' { 0x7fff_ffff } else { 0x8000_0000 };
            let (end, value) = read_digits(input, pos + 1, false, limit);
            if end == pos + 1 {
                return Err(ParsingError::ParseIntError(IntErrorKind::InvalidDigit));
            }
            match value {
                None => {
                    if first == '+' {
                        Err(ParsingError::ParseIntError(IntErrorKind::PosOverflow))
                    } else {
                        Err(ParsingError::ParseIntError(IntErrorKind::NegOverflow))
                    }
                },
                Some(v) => {
                    if v == 0 {
                        Err(ParsingError::ParseNonZeroIntError)
                    } else if first == '+' {
                        let r = v as i32;
                        assert(r.deep_view() == r);
                        Ok((end, r))
                    } else {
                        let neg: i64 = 0 - (v as i64);
                        let r = neg as i32;
                        assert(r == (0 - v) as i32);
                        assert(r.deep_view() == r);
                        Ok((end, r))
                    }
                },
            }
        } else if is_dec(first) {
            let (end, value) = read_digits(input, pos, false, 0x7fff_ffff);
            proof {
                assert(digit_run_end(input.chars@, pos as int, false) == digit_run_end(
                    input.chars@,
                    pos + 1,
                    false,
                ));
            }
            match value {
                None => Err(ParsingError::ParseIntError(IntErrorKind::PosOverflow)),
                Some(v) => {
                    if v == 0 {
                        Err(ParsingError::ParseNonZeroIntError)
                    } else {
                        let r = v as i32;
                        assert(r.deep_view() == r);
                        Ok((end, r))
                    }
                },
            }
        } else {
            Err(ParsingError::ParseIntError(IntErrorKind::InvalidDigit))
        }
    }
}

/// Reads a byte written as exactly two hexadecimal digits, high digit first.
///
/// The two digits are the first two bytes of the UTF-8 text: where the text
/// cannot be split after two bytes the result is `SplitStringError`; where one
/// of the two characters is not a hexadecimal digit it is `InvalidDigit`.
#[derive(Debug, Clone, Copy)]
pub struct Byte;

impl<'a> Parser<'a> for Byte {
    type Dest = u8;

    open spec fn spec_parse(&self, s: Seq<char>, pos: int) -> SpecResult<u8> {
        if pos >= s.len() || utf8_len(s[pos]) > 2 {
            Err(ParsingError::SplitStringError)
        } else if utf8_len(s[pos]) == 2 {
            Err(ParsingError::ParseIntError(IntErrorKind::InvalidDigit))
        } else if pos + 1 >= s.len() || utf8_len(s[pos + 1]) != 1 {
            Err(ParsingError::SplitStringError)
        } else if is_hex_digit(s[pos]) && is_hex_digit(s[pos + 1]) {
            Ok((pos + 2, (digit_value(s[pos]) * 16 + digit_value(s[pos + 1])) as u8))
        } else {
            Err(ParsingError::ParseIntError(IntErrorKind::InvalidDigit))
        }
    }

    fn parse_at(&self, input: &Input<'a>, pos: usize) -> (res: Result<(usize, u8), ParsingError>) {
        let n = input.chars.len();
        if pos >= n {
            return Err(ParsingError::SplitStringError);
        }
        let c0 = input.chars[pos];
        let w0 = c0 as u32;
        if w0 >= 0x800 {
            return Err(ParsingError::SplitStringError);
        }
        if w0 >= 0x80 {
            return Err(ParsingError::ParseIntError(IntErrorKind::InvalidDigit));
        }
        if pos + 1 >= n {
            return Err(ParsingError::SplitStringError);
        }
        let c1 = input.chars[pos + 1];
        if (c1 as u32) >= 0x80 {
            return Err(ParsingError::SplitStringError);
        }
        assert(utf8_len(c0) == 1 && utf8_len(c1) == 1);
        if is_hex(c0) && is_hex(c1) {
            let v = digit_of(c0) * 16 + digit_of(c1);
            let r = v as u8;
            assert(r == (digit_value(c0) * 16 + digit_value(c1)) as u8);
            assert(r.deep_view() == r);
            Ok((pos + 2, r))
        } else {
            Err(ParsingError::ParseIntError(IntErrorKind::InvalidDigit))
        }
    }
}

} // verus!
