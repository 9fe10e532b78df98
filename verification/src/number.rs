//! Numbers in the template language: floating point literals (lexed by
//! `nom`), decimal integers and hexadecimal digits.
use crate::lex::{byte_in_class, is_digit, is_hex_digit_spec, lift, scan, scan_class, ByteClass, Fail, SpecRes};
use vstd::prelude::*;
use vstd::utf8::valid_utf8;

verus! {

/// What `nom::number::complete::float` gives for `input`: the number of
/// bytes it leaves unconsumed and the bit pattern of the `f32` it read, or
/// whether it failed unrecoverably (`true`) or recoverably (`false`).
pub uninterp spec fn nom_float(input: Seq<u8>) -> Result<(usize, u32), bool>;

/// Calls `nom::number::complete::float` on `input`.
///
/// Trusted: the result is named by `nom_float`; besides that, the contract
/// claims what nom 7.1.3's source shows, that a success consumes at least one
/// byte of the input (every branch of `recognize_float_or_exceptions` matches
/// a digit or a non-empty tag). The value read is returned as the bit pattern
/// of the `f32` (`f32::to_bits`).
#[verifier::external_body]
fn call_nom_float(input: &[u8]) -> (r: Result<(usize, u32), bool>)
    ensures
        r == nom_float(input@),
        r matches Ok((rest, _)) ==> rest < input@.len(),
{
    match nom::number::complete::float::<&[u8], nom::error::Error<&[u8]>>(input) {
        Ok((rest, value)) => Ok((rest.len(), value.to_bits())),
        Err(nom::Err::Failure(_)) => Err(true),
        Err(nom::Err::Error(_)) => Err(false),
        Err(nom::Err::Incomplete(_)) => Err(false),
    }
}

/// What a reading of `nom` gives, as a result at a position of a text of
/// `len` bytes: the position after the bytes it took, or how it failed.
pub open spec fn float_outcome_spec(len: int, r: Result<(usize, u32), bool>) -> SpecRes<u32> {
    match r {
        Ok((rest, bits)) => Ok((len - rest, bits)),
        Err(failure) => Err(
            if failure {
                Fail::Failure
            } else {
                Fail::Error
            },
        ),
    }
}

/// A floating point literal at position `p`, as `nom` reads it.
pub open spec fn float_at(s: Seq<u8>, p: int) -> SpecRes<u32> {
    float_outcome_spec(s.len() as int, nom_float(s.skip(p)))
}

/// The result at a position of a text of `len` bytes that the reading `r`
/// of `nom` gives, as `float_outcome_spec` says.
pub fn float_outcome(len: usize, r: Result<(usize, u32), bool>) -> (o: Result<(usize, u32), Fail>)
    requires
        r matches Ok((rest, _)) ==> rest <= len,
    ensures
        lift(o) == float_outcome_spec(len as int, r),
{
    match r {
        Ok((left, bits)) => Ok((len - left, bits)),
        Err(failure) => {
            if failure {
                Err(Fail::Failure)
            } else {
                Err(Fail::Error)
            }
        },
    }
}

/// Reads a floating point literal at `pos`; the value is the bit pattern of
/// the `f32`.
pub fn parse_float(input: &[u8], pos: usize) -> (r: Result<(usize, u32), Fail>)
    requires
        pos <= input@.len(),
    ensures
        lift(r) == float_at(input@, pos as int),
        r matches Ok((q, _)) ==> pos < q <= input@.len(),
{
    let rest = vstd::slice::slice_subrange(input, pos, input.len());
    proof {
        assert(rest@ =~= input@.skip(pos as int));
    }
    float_outcome(input.len(), call_nom_float(rest))
}

/// The value of a run of decimal digits.
pub open spec fn digits_value(d: Seq<u8>) -> int
    decreases d.len(),
{
    if d.len() == 0 {
        0
    } else {
        digits_value(d.drop_last()) * 10 + (d.last() - 48)
    }
}

pub open spec fn all_digits(d: Seq<u8>) -> bool {
    forall|i: int| 0 <= i < d.len() ==> is_digit(#[trigger] d[i])
}

/// What `str::parse::<i64>` gives for a text made of digits and `-` signs.
pub open spec fn parse_i64(t: Seq<u8>) -> Option<int> {
    if t.len() == 0 {
        None
    } else if t[0] == 45 {
        let d = t.skip(1);
        if d.len() > 0 && all_digits(d) && digits_value(d) <= 0x8000_0000_0000_0000 {
            Some(-digits_value(d))
        } else {
            None
        }
    } else if all_digits(t) && digits_value(t) <= 0x7fff_ffff_ffff_ffff {
        Some(digits_value(t))
    } else {
        None
    }
}

/// A decimal integer at position `p`: the longest run of digits and `-`
/// signs, which must read as an `i64`.
pub open spec fn integer_at(s: Seq<u8>, p: int) -> SpecRes<int> {
    let q = scan(s, p, ByteClass::DigitOrMinus);
    match parse_i64(s.subrange(p, q)) {
        Some(v) => Ok((q, v)),
        None => Err(Fail::Error),
    }
}

pub proof fn lemma_digits_value_nonneg(d: Seq<u8>)
    requires
        all_digits(d),
    ensures
        digits_value(d) >= 0,
    decreases d.len(),
{
    if d.len() > 0 {
        lemma_digits_value_nonneg(d.drop_last());
    }
}

pub proof fn lemma_digits_value_grows(d: Seq<u8>, k: int)
    requires
        all_digits(d),
        0 <= k <= d.len(),
    ensures
        digits_value(d.subrange(0, k)) <= digits_value(d),
    decreases d.len() - k,
{
    if k < d.len() {
        lemma_digits_value_grows(d, k + 1);
        let e = d.subrange(0, k + 1);
        assert(e.drop_last() =~= d.subrange(0, k));
        lemma_digits_value_nonneg(d.subrange(0, k));
    } else {
        assert(d.subrange(0, k) =~= d);
    }
}

/// Reads a decimal integer at `pos`.
pub fn parse_integer(input: &[u8], pos: usize) -> (r: Result<(usize, i64), Fail>)
    requires
        pos <= input@.len(),
    ensures
        r matches Ok((q, v)) ==> integer_at(input@, pos as int) == Ok::<(int, int), Fail>(
            (q as int, v as int),
        ),
        r is Err ==> integer_at(input@, pos as int) == Err::<(int, int), Fail>(Fail::Error),
        r matches Err(e) ==> e == Fail::Error,
        r matches Ok((q, _)) ==> pos <= q <= input@.len(),
{
    let q = scan_class(input, pos, ByteClass::DigitOrMinus);
    let ghost t = input@.subrange(pos as int, q as int);
    if q == pos {
        return Err(Fail::Error);
    }
    let neg = input[pos] == 45;
    let start = if neg {
        pos + 1
    } else {
        pos
    };
    let ghost d = input@.subrange(start as int, q as int);
    assert(neg ==> d =~= t.skip(1));
    assert(!neg ==> d =~= t);
    if start == q {
        return Err(Fail::Error);
    }
    let mut mag: u128 = 0;
    let mut i = start;
    while i < q
        invariant
            start <= i <= q <= input@.len(),
            d == input@.subrange(start as int, q as int),
            t == input@.subrange(pos as int, q as int),
            q as int == scan(input@, pos as int, ByteClass::DigitOrMinus),
            t.len() > 0,
            neg == (t[0] == 45),
            neg ==> d =~= t.skip(1),
            !neg ==> d =~= t,
            all_digits(input@.subrange(start as int, i as int)),
            mag as int == digits_value(input@.subrange(start as int, i as int)),
            mag <= 0x8000_0000_0000_0000,
        decreases q - i,
    {
        let b = input[i];
        if !(48 <= b && b <= 57) {
            assert(d[i - start] == b);
            return Err(Fail::Error);
        }
        let ghost prev = input@.subrange(start as int, i as int);
        mag = mag * 10 + (b - 48) as u128;
        i = i + 1;
        assert(input@.subrange(start as int, i as int).drop_last() =~= prev);
        assert(all_digits(input@.subrange(start as int, i as int))) by {
            assert forall|j: int| 0 <= j < i - start implies is_digit(
                #[trigger] input@.subrange(start as int, i as int)[j],
            ) by {
                if j < i - start - 1 {
                    assert(input@.subrange(start as int, i as int)[j] == prev[j]);
                }
            }
        }
        if mag > 0x8000_0000_0000_0000 {
            proof {
                assert(input@.subrange(start as int, i as int) =~= d.subrange(0, i - start));
                if all_digits(d) {
                    lemma_digits_value_grows(d, i - start);
                }
            }
            return Err(Fail::Error);
        }
    }
    assert(input@.subrange(start as int, i as int) =~= d);
    if neg {
        if mag == 0x8000_0000_0000_0000 {
            Ok((q, i64::MIN))
        } else {
            Ok((q, -(mag as i64)))
        }
    } else {
        if mag > 0x7fff_ffff_ffff_ffff {
            Err(Fail::Error)
        } else {
            Ok((q, mag as i64))
        }
    }
}

/// The kinds of error of `u8::from_str_radix`.
#[derive(PartialEq, Eq, Structural, Clone, Copy, Debug)]
pub enum IntErrorKind {
    Empty,
    InvalidDigit,
    PosOverflow,
}

/// The value of a hexadecimal digit.
pub open spec fn hex_value(b: u8) -> int {
    if is_digit(b) {
        b - 48
    } else if 65 <= b <= 70 {
        b - 55
    } else {
        b - 87
    }
}

/// Reads hexadecimal digits after an accumulated value `acc`, as
/// `u8::from_str_radix` does: digit by digit, failing on the first byte that
/// is no digit or on the first step past 255.
pub open spec fn hex_digits_u8(d: Seq<u8>, acc: int) -> Result<u8, IntErrorKind>
    decreases d.len(),
{
    if d.len() == 0 {
        Ok(acc as u8)
    } else if !is_hex_digit_spec(d[0]) {
        Err(IntErrorKind::InvalidDigit)
    } else if acc * 16 + hex_value(d[0]) > 255 {
        Err(IntErrorKind::PosOverflow)
    } else {
        hex_digits_u8(d.skip(1), acc * 16 + hex_value(d[0]))
    }
}

/// Two hexadecimal digits always read as a byte.
pub proof fn lemma_hex_byte_ok(d: Seq<u8>)
    requires
        d.len() == 2,
        is_hex_digit_spec(d[0]),
        is_hex_digit_spec(d[1]),
    ensures
        radix16_u8(d) is Ok,
{
    reveal_with_fuel(hex_digits_u8, 3);
    assert(d[0] != 43 && d[0] != 45);
    let d1 = d.skip(1);
    assert(d1[0] == d[1]);
    assert(d1.skip(1).len() == 0);
    assert(0 <= hex_value(d[0]) <= 15);
    assert(0 <= hex_value(d[1]) <= 15);
    assert(hex_value(d[0]) * 16 + hex_value(d[1]) <= 255) by (nonlinear_arith)
        requires
            0 <= hex_value(d[0]) <= 15,
            0 <= hex_value(d[1]) <= 15,
    ;
}

/// What `u8::from_str_radix(text, 16)` gives for the bytes of `text`.
pub open spec fn radix16_u8(s: Seq<u8>) -> Result<u8, IntErrorKind> {
    if s.len() == 0 {
        Err(IntErrorKind::Empty)
    } else if (s[0] == 43 || s[0] == 45) && s.len() == 1 {
        Err(IntErrorKind::InvalidDigit)
    } else if s[0] == 43 {
        hex_digits_u8(s.skip(1), 0)
    } else {
        hex_digits_u8(s, 0)
    }
}

/// Whether `c` is an ASCII hexadecimal digit.
pub fn is_hex_digit(c: u8) -> (r: bool)
    ensures
        r == is_hex_digit_spec(c),
{
    byte_in_class(ByteClass::HexDigit, c)
}

fn hex_digits_from(s: &[u8], start: usize) -> (r: Result<u8, IntErrorKind>)
    requires
        start <= s@.len(),
    ensures
        r == hex_digits_u8(s@.skip(start as int), 0),
{
    let mut acc: u32 = 0;
    let mut i = start;
    while i < s.len()
        invariant
            start <= i <= s@.len(),
            acc <= 255,
            hex_digits_u8(s@.skip(i as int), acc as int) == hex_digits_u8(s@.skip(start as int), 0),
        decreases s@.len() - i,
    {
        let b = s[i];
        assert(s@.skip(i as int)[0] == b);
        if !is_hex_digit(b) {
            return Err(IntErrorKind::InvalidDigit);
        }
        let v: u32 = if 48 <= b && b <= 57 {
            (b - 48) as u32
        } else if 65 <= b && b <= 70 {
            (b - 55) as u32
        } else {
            (b - 87) as u32
        };
        if acc * 16 + v > 255 {
            return Err(IntErrorKind::PosOverflow);
        }
        assert(s@.skip(i as int).skip(1) =~= s@.skip(i + 1));
        acc = acc * 16 + v;
        i = i + 1;
    }
    assert(s@.skip(i as int).len() == 0);
    Ok(acc as u8)
}

/// `u8::from_str_radix(s, 16)` on the bytes of `s`.
fn radix16(s: &[u8]) -> (r: Result<u8, IntErrorKind>)
    ensures
        r == radix16_u8(s@),
{
    if s.len() == 0 {
        Err(IntErrorKind::Empty)
    } else if (s[0] == 43 || s[0] == 45) && s.len() == 1 {
        Err(IntErrorKind::InvalidDigit)
    } else if s[0] == 43 {
        hex_digits_from(s, 1)
    } else {
        let r = hex_digits_from(s, 0);
        assert(s@.skip(0) =~= s@);
        r
    }
}

/// Reads two hexadecimal digits (`FF`) as a byte. The text must be UTF-8, as
/// reading it as a `str` panics otherwise.
pub fn from_hex_byte(input: &[u8]) -> (r: Result<u8, IntErrorKind>)
    requires
        valid_utf8(input@),
    ensures
        r == radix16_u8(input@),
{
    radix16(input)
}

/// Reads one hexadecimal digit as a byte by doubling it (`F` reads as `FF`).
/// The text must be UTF-8, as reading it as a `str` panics otherwise.
pub fn from_hex_nib(input: &[u8]) -> (r: Result<u8, IntErrorKind>)
    requires
        valid_utf8(input@),
    ensures
        r == radix16_u8(input@ + input@),
{
    let mut doubled: Vec<u8> = Vec::new();
    let mut k: usize = 0;
    while k < 2
        invariant
            0 <= k <= 2,
            k == 0 ==> doubled@ == Seq::<u8>::empty(),
            k == 1 ==> doubled@ == input@,
            k == 2 ==> doubled@ == input@ + input@,
        decreases 2 - k,
    {
        let ghost before = doubled@;
        let mut i: usize = 0;
        while i < input.len()
            invariant
                0 <= i <= input@.len(),
                doubled@ == before + input@.subrange(0, i as int),
            decreases input@.len() - i,
        {
            doubled.push(input[i]);
            i = i + 1;
            assert(before + input@.subrange(0, i as int) =~= (before + input@.subrange(
                0,
                i - 1,
            )).push(input@[i - 1]));
        }
        assert(input@.subrange(0, input@.len() as int) =~= input@);
        assert(k == 0 ==> before + input@ =~= input@);
        k = k + 1;
    }
    radix16(doubled.as_slice())
}

} // verus!
