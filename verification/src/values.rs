//! The values that style attributes take: lengths (`Val`), rectangles
//! (`UiRect`), colors, grid tracks and grid placements, and the keywords of
//! the layout enums. Floating point numbers are held as the bit patterns of
//! their `f32`.
use crate::lex::{
    has_tag, lift, or_else, scan, scan_class, skip_spaces, spaces, tag, tag_end, ByteClass,
    Fail, SpecRes,
};
use crate::number::{
    float_at, from_hex_byte, from_hex_nib, hex_value, integer_at, parse_float, parse_integer,
    radix16_u8,
};
use vstd::prelude::*;
use vstd::string::StringSliceAdditionalSpecFns;

verus! {

/// A length.
#[derive(Clone, Copy, Debug, PartialEq, Eq, Structural)]
pub enum Val {
    Auto,
    Px(u32),
    Percent(u32),
    Vw(u32),
    Vh(u32),
    VMin(u32),
    VMax(u32),
}

impl View for Val {
    type V = Val;

    open spec fn view(&self) -> Val {
        *self
    }
}

/// Four lengths, one per side.
#[derive(Clone, Copy, Debug, PartialEq, Eq, Structural)]
pub struct UiRect {
    pub left: Val,
    pub right: Val,
    pub top: Val,
    pub bottom: Val,
}

impl View for UiRect {
    type V = UiRect;

    open spec fn view(&self) -> UiRect {
        *self
    }
}

/// The same length on every side.
pub open spec fn rect_all(v: Val) -> UiRect {
    UiRect { left: v, right: v, top: v, bottom: v }
}

/// One length left and right, another top and bottom.
pub open spec fn rect_axes(horizontal: Val, vertical: Val) -> UiRect {
    UiRect { left: horizontal, right: horizontal, top: vertical, bottom: vertical }
}

/// A color. Colors written as `rgb(..)`/`rgba(..)` are linear RGBA floats;
/// colors written in hexadecimal are sRGB bytes.
#[derive(Clone, Copy, Debug, PartialEq, Eq, Structural)]
pub enum Color {
    Linear { red: u32, green: u32, blue: u32, alpha: u32 },
    Srgb8 { r: u8, g: u8, b: u8, a: u8 },
}

impl View for Color {
    type V = Color;

    open spec fn view(&self) -> Color {
        *self
    }
}

/// A span of time as written: a number of seconds or of milliseconds, the
/// number as the bit pattern of its `f32`.
#[derive(Clone, Copy, Debug, PartialEq, Eq, Structural)]
pub enum TimeSpan {
    Seconds(u32),
    Millis(u32),
}

impl View for TimeSpan {
    type V = TimeSpan;

    open spec fn view(&self) -> TimeSpan {
        *self
    }
}

/// A span of time at `p`: a number followed by `ms` (milliseconds) or `s`
/// (seconds); a number without a unit counts seconds.
pub open spec fn time_span_at(s: Seq<u8>, p: int) -> SpecRes<TimeSpan> {
    match float_at(s, p) {
        Err(e) => Err(e),
        Ok((q, x)) => if let Some(e) = tag(s, q, "ms") {
            Ok((e, TimeSpan::Millis(x)))
        } else if let Some(e) = tag(s, q, "s") {
            Ok((e, TimeSpan::Seconds(x)))
        } else {
            Ok((q, TimeSpan::Seconds(x)))
        },
    }
}

/// Reads a span of time at `pos` (`100ms`, `5s`, `0.2`).
pub fn parse_time_span(input: &[u8], pos: usize) -> (r: Result<(usize, TimeSpan), Fail>)
    requires
        pos <= input@.len(),
    ensures
        lift(r) == time_span_at(input@, pos as int),
        r matches Ok((q, _)) ==> pos <= q <= input@.len(),
{
    let (q, x) = parse_float(input, pos)?;
    if let Some(e) = tag_end(input, q, "ms") {
        Ok((e, TimeSpan::Millis(x)))
    } else if let Some(e) = tag_end(input, q, "s") {
        Ok((e, TimeSpan::Seconds(x)))
    } else {
        Ok((q, TimeSpan::Seconds(x)))
    }
}

/// The bit pattern of the `f32` zero.
pub open spec fn zero_bits() -> u32 {
    0
}

/// The bit pattern of the `f32` one.
pub open spec fn one_bits() -> u32 {
    0x3f80_0000
}

/// Keeps a success and moves its end position past trailing white space.
pub open spec fn then_spaces<T>(s: Seq<u8>, r: SpecRes<T>) -> SpecRes<T> {
    match r {
        Ok((q, v)) => Ok((spaces(s, q), v)),
        Err(e) => Err(e),
    }
}

/// A length after a number: the unit decides the kind.
pub open spec fn val_unit(s: Seq<u8>, q: int, x: u32) -> SpecRes<Val> {
    if let Some(e) = tag(s, q, "px") {
        Ok((e, Val::Px(x)))
    } else if let Some(e) = tag(s, q, "%") {
        Ok((e, Val::Percent(x)))
    } else if let Some(e) = tag(s, q, "vw") {
        Ok((e, Val::Vw(x)))
    } else if let Some(e) = tag(s, q, "vh") {
        Ok((e, Val::Vh(x)))
    } else if let Some(e) = tag(s, q, "vmin") {
        Ok((e, Val::VMin(x)))
    } else if let Some(e) = tag(s, q, "vmax") {
        Ok((e, Val::VMax(x)))
    } else {
        Err(Fail::Error)
    }
}

/// A number with a unit of length at `p`.
pub open spec fn number_val_at(s: Seq<u8>, p: int) -> SpecRes<Val> {
    match float_at(s, p) {
        Ok((q, x)) => val_unit(s, q, x),
        Err(e) => Err(e),
    }
}

/// A bare `0` at `p`, which stands for zero pixels.
pub open spec fn zero_val_at(s: Seq<u8>, p: int) -> SpecRes<Val> {
    match tag(s, p, "0") {
        Some(e) => Ok((e, Val::Px(zero_bits()))),
        None => Err(Fail::Error),
    }
}

/// A length at `p`, without surrounding white space: `auto`, a number with
/// one of the units `px % vw vh vmin vmax`, or else a bare `0`.
pub open spec fn val_core(s: Seq<u8>, p: int) -> SpecRes<Val> {
    if let Some(e) = tag(s, p, "auto") {
        Ok((e, Val::Auto))
    } else {
        or_else(number_val_at(s, p), zero_val_at(s, p))
    }
}

/// A length at `p` with the white space around it.
pub open spec fn val_at(s: Seq<u8>, p: int) -> SpecRes<Val> {
    then_spaces(s, val_core(s, spaces(s, p)))
}

fn parse_val_unit(input: &[u8], q: usize, x: u32) -> (r: Result<(usize, Val), Fail>)
    requires
        q <= input@.len(),
    ensures
        lift(r) == val_unit(input@, q as int, x),
        r matches Ok((e, _)) ==> q <= e <= input@.len(),
{
    if let Some(e) = tag_end(input, q, "px") {
        Ok((e, Val::Px(x)))
    } else if let Some(e) = tag_end(input, q, "%") {
        Ok((e, Val::Percent(x)))
    } else if let Some(e) = tag_end(input, q, "vw") {
        Ok((e, Val::Vw(x)))
    } else if let Some(e) = tag_end(input, q, "vh") {
        Ok((e, Val::Vh(x)))
    } else if let Some(e) = tag_end(input, q, "vmin") {
        Ok((e, Val::VMin(x)))
    } else if let Some(e) = tag_end(input, q, "vmax") {
        Ok((e, Val::VMax(x)))
    } else {
        Err(Fail::Error)
    }
}

/// Reads a length at `pos` with the white space around it (`20px`, `5%`,
/// `auto`, `0`, ...).
pub fn parse_val(input: &[u8], pos: usize) -> (r: Result<(usize, Val), Fail>)
    requires
        pos <= input@.len(),
    ensures
        lift(r) == val_at(input@, pos as int),
        r matches Ok((q, _)) ==> pos <= q <= input@.len(),
{
    let p = skip_spaces(input, pos);
    let core = if let Some(e) = tag_end(input, p, "auto") {
        Ok((e, Val::Auto))
    } else {
        let number = match parse_float(input, p) {
            Ok((q, x)) => parse_val_unit(input, q, x),
            Err(e) => Err(e),
        };
        match number {
            Err(Fail::Error) => match tag_end(input, p, "0") {
                Some(e) => Ok((e, Val::Px(0))),
                None => Err(Fail::Error),
            },
            other => other,
        }
    };
    match core {
        Ok((e, v)) => Ok((skip_spaces(input, e), v)),
        Err(e) => Err(e),
    }
}

/// Four lengths: top, right, bottom, left.
pub open spec fn rect4_at(s: Seq<u8>, p: int) -> SpecRes<UiRect> {
    match val_at(s, p) {
        Err(e) => Err(e),
        Ok((p1, top)) => match val_at(s, p1) {
            Err(e) => Err(e),
            Ok((p2, right)) => match val_at(s, p2) {
                Err(e) => Err(e),
                Ok((p3, bottom)) => match val_at(s, p3) {
                    Err(e) => Err(e),
                    Ok((p4, left)) => Ok((p4, UiRect { left, right, top, bottom })),
                },
            },
        },
    }
}

/// Two lengths: horizontal, vertical.
pub open spec fn rect2_at(s: Seq<u8>, p: int) -> SpecRes<UiRect> {
    match val_at(s, p) {
        Err(e) => Err(e),
        Ok((p1, x)) => match val_at(s, p1) {
            Err(e) => Err(e),
            Ok((p2, y)) => Ok((p2, rect_axes(x, y))),
        },
    }
}

/// One length for all sides.
pub open spec fn rect1_at(s: Seq<u8>, p: int) -> SpecRes<UiRect> {
    match val_at(s, p) {
        Err(e) => Err(e),
        Ok((p1, v)) => Ok((p1, rect_all(v))),
    }
}

/// A rectangle at `p`: four lengths if they stand there, else two, else one.
pub open spec fn ui_rect_at(s: Seq<u8>, p: int) -> SpecRes<UiRect> {
    or_else(rect4_at(s, p), or_else(rect2_at(s, p), rect1_at(s, p)))
}

/// One length alone stands for all four sides.
pub proof fn law_rect_one_length(s: Seq<u8>, p: int, q: int, x: Val)
    requires
        val_at(s, p) == Ok::<(int, Val), Fail>((q, x)),
        val_at(s, q) == Err::<(int, Val), Fail>(Fail::Error),
    ensures
        ui_rect_at(s, p) == Ok::<(int, UiRect), Fail>((q, rect_all(x))),
{
}

/// Two lengths alone stand for the horizontal and the vertical sides.
pub proof fn law_rect_two_lengths(s: Seq<u8>, p: int, q1: int, x: Val, q2: int, y: Val)
    requires
        val_at(s, p) == Ok::<(int, Val), Fail>((q1, x)),
        val_at(s, q1) == Ok::<(int, Val), Fail>((q2, y)),
        val_at(s, q2) == Err::<(int, Val), Fail>(Fail::Error),
    ensures
        ui_rect_at(s, p) == Ok::<(int, UiRect), Fail>((q2, rect_axes(x, y))),
{
}

/// Four lengths stand for top, right, bottom and left.
pub proof fn law_rect_four_lengths(s: Seq<u8>, p: int)
    requires
        rect4_at(s, p) is Ok,
    ensures
        ui_rect_at(s, p) == rect4_at(s, p),
{
}

fn parse_rect4(input: &[u8], pos: usize) -> (r: Result<(usize, UiRect), Fail>)
    requires
        pos <= input@.len(),
    ensures
        lift(r) == rect4_at(input@, pos as int),
        r matches Ok((q, _)) ==> pos <= q <= input@.len(),
{
    let (p1, top) = parse_val(input, pos)?;
    let (p2, right) = parse_val(input, p1)?;
    let (p3, bottom) = parse_val(input, p2)?;
    let (p4, left) = parse_val(input, p3)?;
    Ok((p4, UiRect { left, right, top, bottom }))
}

fn parse_rect2(input: &[u8], pos: usize) -> (r: Result<(usize, UiRect), Fail>)
    requires
        pos <= input@.len(),
    ensures
        lift(r) == rect2_at(input@, pos as int),
        r matches Ok((q, _)) ==> pos <= q <= input@.len(),
{
    let (p1, x) = parse_val(input, pos)?;
    let (p2, y) = parse_val(input, p1)?;
    Ok((p2, UiRect { left: x, right: x, top: y, bottom: y }))
}

/// Reads a rectangle at `pos`: `20px` (all sides), `20px 10px` (horizontal,
/// vertical) or `5px 10px 5% 6px` (top, right, bottom, left).
pub fn parse_ui_rect(input: &[u8], pos: usize) -> (r: Result<(usize, UiRect), Fail>)
    requires
        pos <= input@.len(),
    ensures
        lift(r) == ui_rect_at(input@, pos as int),
        r matches Ok((q, _)) ==> pos <= q <= input@.len(),
{
    match parse_rect4(input, pos) {
        Err(Fail::Error) => {},
        other => return other,
    }
    match parse_rect2(input, pos) {
        Err(Fail::Error) => {},
        other => return other,
    }
    let (p1, v) = parse_val(input, pos)?;
    Ok((p1, UiRect { left: v, right: v, top: v, bottom: v }))
}

} // verus!

verus! {

/// Two hexadecimal digits at `q` read as a byte.
pub open spec fn hex_byte_at(s: Seq<u8>, q: int) -> SpecRes<u8> {
    if 0 <= q && q + 2 <= s.len() && crate::lex::is_hex_digit_spec(s[q])
        && crate::lex::is_hex_digit_spec(s[q + 1]) {
        match radix16_u8(s.subrange(q, q + 2)) {
            Ok(v) => Ok((q + 2, v)),
            Err(_) => Err(Fail::Error),
        }
    } else {
        Err(Fail::Error)
    }
}

/// One hexadecimal digit at `q` read as a doubled digit (`F` is `FF`).
pub open spec fn hex_nib_at(s: Seq<u8>, q: int) -> SpecRes<u8> {
    if 0 <= q && q + 1 <= s.len() && crate::lex::is_hex_digit_spec(s[q]) {
        match radix16_u8(s.subrange(q, q + 1) + s.subrange(q, q + 1)) {
            Ok(v) => Ok((q + 1, v)),
            Err(_) => Err(Fail::Error),
        }
    } else {
        Err(Fail::Error)
    }
}

fn parse_hex_byte(input: &[u8], q: usize) -> (r: Result<(usize, u8), Fail>)
    requires
        q <= input@.len(),
    ensures
        lift(r) == hex_byte_at(input@, q as int),
        r matches Ok((e, _)) ==> q <= e <= input@.len(),
{
    if input.len() - q >= 2 && crate::number::is_hex_digit(input[q]) && crate::number::is_hex_digit(
        input[q + 1],
    ) {
        let digits = vstd::slice::slice_subrange(input, q, q + 2);
        proof {
            assert forall|i: int| 0 <= i < digits@.len() implies #[trigger] digits@[i] < 128 by {
                assert(digits@[i] == input@[q + i]);
            }
            crate::text::lemma_ascii_valid_utf8(digits@);
        }
        match from_hex_byte(digits) {
            Ok(v) => Ok((q + 2, v)),
            Err(_) => Err(Fail::Error),
        }
    } else {
        Err(Fail::Error)
    }
}

fn parse_hex_nib(input: &[u8], q: usize) -> (r: Result<(usize, u8), Fail>)
    requires
        q <= input@.len(),
    ensures
        lift(r) == hex_nib_at(input@, q as int),
        r matches Ok((e, _)) ==> q <= e <= input@.len(),
{
    if input.len() - q >= 1 && crate::number::is_hex_digit(input[q]) {
        let digit = vstd::slice::slice_subrange(input, q, q + 1);
        proof {
            assert forall|i: int| 0 <= i < digit@.len() implies #[trigger] digit@[i] < 128 by {
                assert(digit@[i] == input@[q + i]);
            }
            crate::text::lemma_ascii_valid_utf8(digit@);
        }
        match from_hex_nib(digit) {
            Ok(v) => Ok((q + 1, v)),
            Err(_) => Err(Fail::Error),
        }
    } else {
        Err(Fail::Error)
    }
}

/// `#` and exactly eight hexadecimal digits up to the end: red, green, blue,
/// alpha bytes.
pub open spec fn hex8_at(s: Seq<u8>, p: int) -> SpecRes<Color> {
    match tag(s, p, "#") {
        None => Err(Fail::Error),
        Some(q) => if s.len() - q != 8 {
            Err(Fail::Error)
        } else {
            match hex_byte_at(s, q) {
                Err(e) => Err(e),
                Ok((q1, red)) => match hex_byte_at(s, q1) {
                    Err(e) => Err(e),
                    Ok((q2, green)) => match hex_byte_at(s, q2) {
                        Err(e) => Err(e),
                        Ok((q3, blue)) => match hex_byte_at(s, q3) {
                            Err(e) => Err(e),
                            Ok((q4, alpha)) => Ok((q4, Color::Srgb8 { r: red, g: green, b: blue, a: alpha })),
                        },
                    },
                },
            }
        },
    }
}

/// `#` and exactly six hexadecimal digits up to the end: opaque.
pub open spec fn hex6_at(s: Seq<u8>, p: int) -> SpecRes<Color> {
    match tag(s, p, "#") {
        None => Err(Fail::Error),
        Some(q) => if s.len() - q != 6 {
            Err(Fail::Error)
        } else {
            match hex_byte_at(s, q) {
                Err(e) => Err(e),
                Ok((q1, red)) => match hex_byte_at(s, q1) {
                    Err(e) => Err(e),
                    Ok((q2, green)) => match hex_byte_at(s, q2) {
                        Err(e) => Err(e),
                        Ok((q3, blue)) => Ok((q3, Color::Srgb8 { r: red, g: green, b: blue, a: 255 })),
                    },
                },
            }
        },
    }
}

/// `#` and exactly four hexadecimal digits up to the end, each doubled.
pub open spec fn hex4_at(s: Seq<u8>, p: int) -> SpecRes<Color> {
    match tag(s, p, "#") {
        None => Err(Fail::Error),
        Some(q) => if s.len() - q != 4 {
            Err(Fail::Error)
        } else {
            match hex_nib_at(s, q) {
                Err(e) => Err(e),
                Ok((q1, red)) => match hex_nib_at(s, q1) {
                    Err(e) => Err(e),
                    Ok((q2, green)) => match hex_nib_at(s, q2) {
                        Err(e) => Err(e),
                        Ok((q3, blue)) => match hex_nib_at(s, q3) {
                            Err(e) => Err(e),
                            Ok((q4, alpha)) => Ok((q4, Color::Srgb8 { r: red, g: green, b: blue, a: alpha })),
                        },
                    },
                },
            }
        },
    }
}

/// `#` and exactly three hexadecimal digits up to the end, each doubled:
/// opaque.
pub open spec fn hex3_at(s: Seq<u8>, p: int) -> SpecRes<Color> {
    match tag(s, p, "#") {
        None => Err(Fail::Error),
        Some(q) => if s.len() - q != 3 {
            Err(Fail::Error)
        } else {
            match hex_nib_at(s, q) {
                Err(e) => Err(e),
                Ok((q1, red)) => match hex_nib_at(s, q1) {
                    Err(e) => Err(e),
                    Ok((q2, green)) => match hex_nib_at(s, q2) {
                        Err(e) => Err(e),
                        Ok((q3, blue)) => Ok((q3, Color::Srgb8 { r: red, g: green, b: blue, a: 255 })),
                    },
                },
            }
        },
    }
}

/// A number followed by the text `t`.
pub open spec fn float_then(s: Seq<u8>, p: int, t: &str) -> SpecRes<u32> {
    match float_at(s, p) {
        Err(e) => Err(e),
        Ok((q, x)) => match tag(s, q, t) {
            Some(e) => Ok((e, x)),
            None => Err(Fail::Error),
        },
    }
}

/// `rgba(r,g,b,a)` with linear components.
pub open spec fn rgba_at(s: Seq<u8>, p: int) -> SpecRes<Color> {
    match tag(s, p, "rgba") {
        None => Err(Fail::Error),
        Some(q) => match tag(s, q, "(") {
            None => Err(Fail::Error),
            Some(q0) => match float_then(s, q0, ",") {
                Err(e) => Err(e),
                Ok((q1, red)) => match float_then(s, q1, ",") {
                    Err(e) => Err(e),
                    Ok((q2, green)) => match float_then(s, q2, ",") {
                        Err(e) => Err(e),
                        Ok((q3, blue)) => match float_then(s, q3, ")") {
                            Err(e) => Err(e),
                            Ok((q4, alpha)) => Ok((q4, Color::Linear { red, green, blue, alpha })),
                        },
                    },
                },
            },
        },
    }
}

/// `rgb(r,g,b)` with linear components: opaque.
pub open spec fn rgb_at(s: Seq<u8>, p: int) -> SpecRes<Color> {
    match tag(s, p, "rgb") {
        None => Err(Fail::Error),
        Some(q) => match tag(s, q, "(") {
            None => Err(Fail::Error),
            Some(q0) => match float_then(s, q0, ",") {
                Err(e) => Err(e),
                Ok((q1, red)) => match float_then(s, q1, ",") {
                    Err(e) => Err(e),
                    Ok((q2, green)) => match float_then(s, q2, ")") {
                        Err(e) => Err(e),
                        Ok((q3, blue)) => Ok(
                            (q3, Color::Linear { red, green, blue, alpha: one_bits() }),
                        ),
                    },
                },
            },
        },
    }
}

/// A color at `p` with the white space around it: the first of `rgba(..)`,
/// `rgb(..)`, `#RRGGBBAA`, `#RRGGBB`, `#RGBA`, `#RGB` that reads.
pub open spec fn color_at(s: Seq<u8>, p: int) -> SpecRes<Color> {
    let a = spaces(s, p);
    then_spaces(
        s,
        or_else(
            rgba_at(s, a),
            or_else(
                rgb_at(s, a),
                or_else(hex8_at(s, a), or_else(hex6_at(s, a), or_else(hex4_at(s, a), hex3_at(s, a)))),
            ),
        ),
    )
}

fn parse_float_then(input: &[u8], pos: usize, t: &str) -> (r: Result<(usize, u32), Fail>)
    requires
        pos <= input@.len(),
    ensures
        lift(r) == float_then(input@, pos as int, t),
        r matches Ok((q, _)) ==> pos <= q <= input@.len(),
{
    let (q, x) = parse_float(input, pos)?;
    match tag_end(input, q, t) {
        Some(e) => Ok((e, x)),
        None => Err(Fail::Error),
    }
}

fn parse_rgba_color(input: &[u8], pos: usize) -> (r: Result<(usize, Color), Fail>)
    requires
        pos <= input@.len(),
    ensures
        lift(r) == rgba_at(input@, pos as int),
        r matches Ok((q, _)) ==> pos <= q <= input@.len(),
{
    let q = match tag_end(input, pos, "rgba") {
        Some(q) => q,
        None => return Err(Fail::Error),
    };
    let q0 = match tag_end(input, q, "(") {
        Some(q0) => q0,
        None => return Err(Fail::Error),
    };
    let (q1, red) = parse_float_then(input, q0, ",")?;
    let (q2, green) = parse_float_then(input, q1, ",")?;
    let (q3, blue) = parse_float_then(input, q2, ",")?;
    let (q4, alpha) = parse_float_then(input, q3, ")")?;
    Ok((q4, Color::Linear { red, green, blue, alpha }))
}

fn parse_rgb_color(input: &[u8], pos: usize) -> (r: Result<(usize, Color), Fail>)
    requires
        pos <= input@.len(),
    ensures
        lift(r) == rgb_at(input@, pos as int),
        r matches Ok((q, _)) ==> pos <= q <= input@.len(),
{
    let q = match tag_end(input, pos, "rgb") {
        Some(q) => q,
        None => return Err(Fail::Error),
    };
    let q0 = match tag_end(input, q, "(") {
        Some(q0) => q0,
        None => return Err(Fail::Error),
    };
    let (q1, red) = parse_float_then(input, q0, ",")?;
    let (q2, green) = parse_float_then(input, q1, ",")?;
    let (q3, blue) = parse_float_then(input, q2, ")")?;
    Ok((q3, Color::Linear { red, green, blue, alpha: 0x3f80_0000 }))
}

fn color_hex8_parser(input: &[u8], pos: usize) -> (r: Result<(usize, Color), Fail>)
    requires
        pos <= input@.len(),
    ensures
        lift(r) == hex8_at(input@, pos as int),
        r matches Ok((q, _)) ==> pos <= q <= input@.len(),
{
    let q = match tag_end(input, pos, "#") {
        Some(q) => q,
        None => return Err(Fail::Error),
    };
    if input.len() - q != 8 {
        return Err(Fail::Error);
    }
    let (q1, red) = parse_hex_byte(input, q)?;
    let (q2, green) = parse_hex_byte(input, q1)?;
    let (q3, blue) = parse_hex_byte(input, q2)?;
    let (q4, alpha) = parse_hex_byte(input, q3)?;
    Ok((q4, Color::Srgb8 { r: red, g: green, b: blue, a: alpha }))
}

fn color_hex6_parser(input: &[u8], pos: usize) -> (r: Result<(usize, Color), Fail>)
    requires
        pos <= input@.len(),
    ensures
        lift(r) == hex6_at(input@, pos as int),
        r matches Ok((q, _)) ==> pos <= q <= input@.len(),
{
    let q = match tag_end(input, pos, "#") {
        Some(q) => q,
        None => return Err(Fail::Error),
    };
    if input.len() - q != 6 {
        return Err(Fail::Error);
    }
    let (q1, red) = parse_hex_byte(input, q)?;
    let (q2, green) = parse_hex_byte(input, q1)?;
    let (q3, blue) = parse_hex_byte(input, q2)?;
    Ok((q3, Color::Srgb8 { r: red, g: green, b: blue, a: 255 }))
}

fn color_hex4_parser(input: &[u8], pos: usize) -> (r: Result<(usize, Color), Fail>)
    requires
        pos <= input@.len(),
    ensures
        lift(r) == hex4_at(input@, pos as int),
        r matches Ok((q, _)) ==> pos <= q <= input@.len(),
{
    let q = match tag_end(input, pos, "#") {
        Some(q) => q,
        None => return Err(Fail::Error),
    };
    if input.len() - q != 4 {
        return Err(Fail::Error);
    }
    let (q1, red) = parse_hex_nib(input, q)?;
    let (q2, green) = parse_hex_nib(input, q1)?;
    let (q3, blue) = parse_hex_nib(input, q2)?;
    let (q4, alpha) = parse_hex_nib(input, q3)?;
    Ok((q4, Color::Srgb8 { r: red, g: green, b: blue, a: alpha }))
}

fn color_hex3_parser(input: &[u8], pos: usize) -> (r: Result<(usize, Color), Fail>)
    requires
        pos <= input@.len(),
    ensures
        lift(r) == hex3_at(input@, pos as int),
        r matches Ok((q, _)) ==> pos <= q <= input@.len(),
{
    let q = match tag_end(input, pos, "#") {
        Some(q) => q,
        None => return Err(Fail::Error),
    };
    if input.len() - q != 3 {
        return Err(Fail::Error);
    }
    let (q1, red) = parse_hex_nib(input, q)?;
    let (q2, green) = parse_hex_nib(input, q1)?;
    let (q3, blue) = parse_hex_nib(input, q2)?;
    Ok((q3, Color::Srgb8 { r: red, g: green, b: blue, a: 255 }))
}

/// Reads a color at `pos` with the white space around it: `rgba(1,1,1,1)`,
/// `rgb(1,1,1)`, `#FFFFFFFF`, `#FFFFFF`, `#FFFF` or `#FFF`.
pub fn parse_color(input: &[u8], pos: usize) -> (r: Result<(usize, Color), Fail>)
    requires
        pos <= input@.len(),
    ensures
        lift(r) == color_at(input@, pos as int),
        r matches Ok((q, _)) ==> pos <= q <= input@.len(),
{
    let a = skip_spaces(input, pos);
    let core = match parse_rgba_color(input, a) {
        Err(Fail::Error) => match parse_rgb_color(input, a) {
            Err(Fail::Error) => match color_hex8_parser(input, a) {
                Err(Fail::Error) => match color_hex6_parser(input, a) {
                    Err(Fail::Error) => match color_hex4_parser(input, a) {
                        Err(Fail::Error) => color_hex3_parser(input, a),
                        other => other,
                    },
                    other => other,
                },
                other => other,
            },
            other => other,
        },
        other => other,
    };
    match core {
        Ok((e, c)) => Ok((skip_spaces(input, e), c)),
        Err(e) => Err(e),
    }
}

/// Whether the bytes of `t` stand in `s` at `p`.
pub open spec fn bytes_at(s: Seq<u8>, p: int, t: Seq<u8>) -> bool {
    0 <= p && p + t.len() <= s.len() && s.subrange(p, p + t.len()) == t
}

/// The components of `rgb(r,g,b)` are its numbers in the order written,
/// each read as a floating point number, with an alpha of one.
pub proof fn law_rgb_components(s: Seq<u8>, p: int, q1: int, r: u32, q2: int, g: u32, q3: int, b: u32)
    requires
        bytes_at(s, p, seq![114u8, 103u8, 98u8, 40u8]),
        float_at(s, p + 4) == Ok::<(int, u32), Fail>((q1, r)),
        bytes_at(s, q1, seq![44u8]),
        float_at(s, q1 + 1) == Ok::<(int, u32), Fail>((q2, g)),
        bytes_at(s, q2, seq![44u8]),
        float_at(s, q2 + 1) == Ok::<(int, u32), Fail>((q3, b)),
        bytes_at(s, q3, seq![41u8]),
    ensures
        color_at(s, p) == Ok::<(int, Color), Fail>(
            (spaces(s, q3 + 1), Color::Linear { red: r, green: g, blue: b, alpha: one_bits() }),
        ),
{
    lemma_color_literals();
    assert(s[p] == 114u8) by {
        assert(s.subrange(p, p + 4)[0] == s[p]);
    }
    assert(s[p + 3] == 40u8) by {
        assert(s.subrange(p, p + 4)[3] == s[p + 3]);
    }
    assert(spaces(s, p) == p);
    assert(s.subrange(p, p + 3) =~= "rgb".spec_bytes());
    assert(s.subrange(p + 3, p + 4) =~= "(".spec_bytes());
    assert(s.subrange(q1, q1 + 1) =~= ",".spec_bytes());
    assert(s.subrange(q2, q2 + 1) =~= ",".spec_bytes());
    assert(s.subrange(q3, q3 + 1) =~= ")".spec_bytes());
    assert(tag(s, p, "rgba") is None) by {
        if tag(s, p, "rgba") is Some {
            assert(s.subrange(p, p + 4)[3] == "rgba".spec_bytes()[3]);
        }
    }
}

/// The components of `rgba(r,g,b,a)` are its numbers in the order written,
/// each read as a floating point number.
pub proof fn law_rgba_components(
    s: Seq<u8>,
    p: int,
    q1: int,
    r: u32,
    q2: int,
    g: u32,
    q3: int,
    b: u32,
    q4: int,
    a: u32,
)
    requires
        bytes_at(s, p, seq![114u8, 103u8, 98u8, 97u8, 40u8]),
        float_at(s, p + 5) == Ok::<(int, u32), Fail>((q1, r)),
        bytes_at(s, q1, seq![44u8]),
        float_at(s, q1 + 1) == Ok::<(int, u32), Fail>((q2, g)),
        bytes_at(s, q2, seq![44u8]),
        float_at(s, q2 + 1) == Ok::<(int, u32), Fail>((q3, b)),
        bytes_at(s, q3, seq![44u8]),
        float_at(s, q3 + 1) == Ok::<(int, u32), Fail>((q4, a)),
        bytes_at(s, q4, seq![41u8]),
    ensures
        color_at(s, p) == Ok::<(int, Color), Fail>(
            (spaces(s, q4 + 1), Color::Linear { red: r, green: g, blue: b, alpha: a }),
        ),
{
    lemma_color_literals();
    assert(s[p] == 114u8) by {
        assert(s.subrange(p, p + 5)[0] == s[p]);
    }
    assert(spaces(s, p) == p);
    assert(s.subrange(p, p + 4) =~= "rgba".spec_bytes());
    assert(s.subrange(p + 4, p + 5) =~= "(".spec_bytes());
    assert(s.subrange(q1, q1 + 1) =~= ",".spec_bytes());
    assert(s.subrange(q2, q2 + 1) =~= ",".spec_bytes());
    assert(s.subrange(q3, q3 + 1) =~= ",".spec_bytes());
    assert(s.subrange(q4, q4 + 1) =~= ")".spec_bytes());
}

/// The bytes of the words that colors are written with.
proof fn lemma_color_literals()
    ensures
        "rgb".spec_bytes() == seq![114u8, 103u8, 98u8],
        "rgba".spec_bytes() == seq![114u8, 103u8, 98u8, 97u8],
        "(".spec_bytes() == seq![40u8],
        ",".spec_bytes() == seq![44u8],
        ")".spec_bytes() == seq![41u8],
{
    reveal_strlit("rgb");
    reveal_strlit("rgba");
    reveal_strlit("(");
    reveal_strlit(",");
    reveal_strlit(")");
    vstd::string::is_ascii_spec_bytes("rgb");
    vstd::string::is_ascii_spec_bytes("rgba");
    vstd::string::is_ascii_spec_bytes("(");
    vstd::string::is_ascii_spec_bytes(",");
    vstd::string::is_ascii_spec_bytes(")");
    assert("rgb".spec_bytes() =~= seq![114u8, 103u8, 98u8]);
    assert("rgba".spec_bytes() =~= seq![114u8, 103u8, 98u8, 97u8]);
    assert("(".spec_bytes() =~= seq![40u8]);
    assert(",".spec_bytes() =~= seq![44u8]);
    assert(")".spec_bytes() =~= seq![41u8]);
}

/// The components of `#rrggbb` are its pairs of digits in the order
/// written, read in base 16, with an alpha of 255; those of `#rrggbbaa`
/// likewise with the fourth pair as alpha.
pub proof fn law_hex_components(s: Seq<u8>)
    requires
        s.len() == 7 || s.len() == 9,
        s[0] == 35u8,
        forall|i: int| 1 <= i < s.len() ==> crate::lex::is_hex_digit_spec(#[trigger] s[i]),
    ensures
        color_at(s, 0) matches Ok((_, Color::Srgb8 { r, g, b, a })) && radix16_u8(s.subrange(1, 3))
            == Ok::<u8, crate::number::IntErrorKind>(r) && radix16_u8(s.subrange(3, 5)) == Ok::<
            u8,
            crate::number::IntErrorKind,
        >(g) && radix16_u8(s.subrange(5, 7)) == Ok::<u8, crate::number::IntErrorKind>(b) && (if s.len()
            == 9 {
            radix16_u8(s.subrange(7, 9)) == Ok::<u8, crate::number::IntErrorKind>(a)
        } else {
            a == 255
        }),
{
    reveal_strlit("#");
    vstd::string::is_ascii_spec_bytes("#");
    lemma_color_literals();
    reveal_strlit("rgba");
    assert(s.subrange(0, 1) =~= "#".spec_bytes());
    assert(spaces(s, 0) == 0);
    assert(tag(s, 0, "rgba") is None) by {
        if tag(s, 0, "rgba") is Some {
            assert(s.subrange(0, 4)[0] == "rgba".spec_bytes()[0]);
        }
    }
    assert(tag(s, 0, "rgb") is None) by {
        if tag(s, 0, "rgb") is Some {
            assert(s.subrange(0, 3)[0] == "rgb".spec_bytes()[0]);
        }
    }
    lemma_hex_pair(s, 1);
    lemma_hex_pair(s, 3);
    lemma_hex_pair(s, 5);
    if s.len() == 9 {
        lemma_hex_pair(s, 7);
    }
    crate::lex::lemma_scan(s, s.len() as int, crate::lex::ByteClass::Space);
}

/// Two hexadecimal digits read as a byte.
proof fn lemma_hex_pair(s: Seq<u8>, q: int)
    requires
        0 <= q,
        q + 2 <= s.len(),
        crate::lex::is_hex_digit_spec(s[q]),
        crate::lex::is_hex_digit_spec(s[q + 1]),
    ensures
        radix16_u8(s.subrange(q, q + 2)) is Ok,
        hex_byte_at(s, q) == Ok::<(int, u8), Fail>((q + 2, radix16_u8(s.subrange(q, q + 2))->Ok_0)),
{
    crate::number::lemma_hex_byte_ok(s.subrange(q, q + 2));
}

/// The color a result holds, if any.
pub open spec fn color_value(r: SpecRes<Color>) -> Option<Color> {
    match r {
        Ok((_, c)) => Some(c),
        Err(_) => None,
    }
}

/// A digit read as a doubled digit is the byte of that digit twice.
proof fn lemma_nib_is_doubled_byte(s: Seq<u8>, q: int, t: Seq<u8>, r: int)
    requires
        0 <= q < s.len(),
        0 <= r,
        r + 2 <= t.len(),
        crate::lex::is_hex_digit_spec(s[q]),
        t[r] == s[q],
        t[r + 1] == s[q],
    ensures
        hex_nib_at(s, q) matches Ok((q1, x)) ==> q1 == q + 1 && hex_byte_at(t, r) == Ok::<(int, u8), Fail>((r + 2, x)),
        hex_nib_at(s, q) is Err <==> hex_byte_at(t, r) is Err,
{
    assert(s.subrange(q, q + 1) + s.subrange(q, q + 1) =~= t.subrange(r, r + 2));
}

/// A short hexadecimal color stands for its digits doubled: `#abc` is
/// `#aabbcc`.
pub proof fn law_short_hex_doubles(a: u8, b: u8, c: u8)
    requires
        crate::lex::is_hex_digit_spec(a),
        crate::lex::is_hex_digit_spec(b),
        crate::lex::is_hex_digit_spec(c),
    ensures
        color_value(hex3_at(seq![35u8, a, b, c], 0)) == color_value(
            hex6_at(seq![35u8, a, a, b, b, c, c], 0),
        ),
{
    reveal_strlit("#");
    vstd::string::is_ascii_spec_bytes("#");
    let s3 = seq![35u8, a, b, c];
    let s6 = seq![35u8, a, a, b, b, c, c];
    assert(s3.subrange(0, 1) =~= "#".spec_bytes());
    assert(s6.subrange(0, 1) =~= "#".spec_bytes());
    lemma_nib_is_doubled_byte(s3, 1, s6, 1);
    lemma_nib_is_doubled_byte(s3, 2, s6, 3);
    lemma_nib_is_doubled_byte(s3, 3, s6, 5);
}

/// A short hexadecimal color with alpha stands for its digits doubled:
/// `#abcd` is `#aabbccdd`.
pub proof fn law_short_hex_alpha_doubles(a: u8, b: u8, c: u8, d: u8)
    requires
        crate::lex::is_hex_digit_spec(a),
        crate::lex::is_hex_digit_spec(b),
        crate::lex::is_hex_digit_spec(c),
        crate::lex::is_hex_digit_spec(d),
    ensures
        color_value(hex4_at(seq![35u8, a, b, c, d], 0)) == color_value(
            hex8_at(seq![35u8, a, a, b, b, c, c, d, d], 0),
        ),
{
    reveal_strlit("#");
    vstd::string::is_ascii_spec_bytes("#");
    let s4 = seq![35u8, a, b, c, d];
    let s8 = seq![35u8, a, a, b, b, c, c, d, d];
    assert(s4.subrange(0, 1) =~= "#".spec_bytes());
    assert(s8.subrange(0, 1) =~= "#".spec_bytes());
    lemma_nib_is_doubled_byte(s4, 1, s8, 1);
    lemma_nib_is_doubled_byte(s4, 2, s8, 3);
    lemma_nib_is_doubled_byte(s4, 3, s8, 5);
    lemma_nib_is_doubled_byte(s4, 4, s8, 7);
}

} // verus!

verus! {

/// The size of a grid track.
#[derive(Clone, Copy, Debug, PartialEq, Eq, Structural)]
pub enum GridTrack {
    Auto,
    MinContent,
    MaxContent,
    Px(u32),
    Percent(u32),
    Fr(u32),
    Flex(u32),
    Vh(u32),
    Vw(u32),
    VMin(u32),
    VMax(u32),
}

impl View for GridTrack {
    type V = GridTrack;

    open spec fn view(&self) -> GridTrack {
        *self
    }
}

/// A grid track repeated a number of times.
#[derive(Clone, Copy, Debug, PartialEq, Eq, Structural)]
pub struct RepeatedGridTrack {
    pub repetition: u16,
    pub track: GridTrack,
}

impl View for RepeatedGridTrack {
    type V = RepeatedGridTrack;

    open spec fn view(&self) -> RepeatedGridTrack {
        *self
    }
}

/// A track size after a number: the unit decides the kind.
pub open spec fn track_unit(s: Seq<u8>, q: int, x: u32) -> SpecRes<GridTrack> {
    if let Some(e) = tag(s, q, "px") {
        Ok((e, GridTrack::Px(x)))
    } else if let Some(e) = tag(s, q, "%") {
        Ok((e, GridTrack::Percent(x)))
    } else if let Some(e) = tag(s, q, "fr") {
        Ok((e, GridTrack::Fr(x)))
    } else if let Some(e) = tag(s, q, "flex") {
        Ok((e, GridTrack::Flex(x)))
    } else if let Some(e) = tag(s, q, "vh") {
        Ok((e, GridTrack::Vh(x)))
    } else if let Some(e) = tag(s, q, "vw") {
        Ok((e, GridTrack::Vw(x)))
    } else if let Some(e) = tag(s, q, "vmin") {
        Ok((e, GridTrack::VMin(x)))
    } else if let Some(e) = tag(s, q, "vmax") {
        Ok((e, GridTrack::VMax(x)))
    } else {
        Err(Fail::Error)
    }
}

/// A track size at `p`: `auto`, `min`, `max`, or a number with one of the
/// units `px % fr flex vh vw vmin vmax`.
pub open spec fn track_kind_at(s: Seq<u8>, p: int) -> SpecRes<GridTrack> {
    if let Some(e) = tag(s, p, "auto") {
        Ok((e, GridTrack::Auto))
    } else if let Some(e) = tag(s, p, "min") {
        Ok((e, GridTrack::MinContent))
    } else if let Some(e) = tag(s, p, "max") {
        Ok((e, GridTrack::MaxContent))
    } else {
        match float_at(s, p) {
            Ok((q, x)) => track_unit(s, q, x),
            Err(e) => Err(e),
        }
    }
}

/// A track size at `p` with the white space around it.
pub open spec fn grid_track_at(s: Seq<u8>, p: int) -> SpecRes<GridTrack> {
    then_spaces(s, track_kind_at(s, spaces(s, p)))
}

/// As many track sizes as stand one after the other from `p`.
pub open spec fn grid_tracks_at(s: Seq<u8>, p: int) -> SpecRes<Seq<GridTrack>>
    decreases s.len() - p,
{
    match grid_track_at(s, p) {
        Err(Fail::Error) => Ok((p, Seq::empty())),
        Err(Fail::Failure) => Err(Fail::Failure),
        Ok((q, t)) => if p < q <= s.len() {
            match grid_tracks_at(s, q) {
                Ok((e, ts)) => Ok((e, seq![t] + ts)),
                Err(e) => Err(e),
            }
        } else {
            Err(Fail::Error)
        },
    }
}

fn parse_track_unit(input: &[u8], q: usize, x: u32) -> (r: Result<(usize, GridTrack), Fail>)
    requires
        q <= input@.len(),
    ensures
        lift(r) == track_unit(input@, q as int, x),
        r matches Ok((e, _)) ==> q <= e <= input@.len(),
{
    if let Some(e) = tag_end(input, q, "px") {
        Ok((e, GridTrack::Px(x)))
    } else if let Some(e) = tag_end(input, q, "%") {
        Ok((e, GridTrack::Percent(x)))
    } else if let Some(e) = tag_end(input, q, "fr") {
        Ok((e, GridTrack::Fr(x)))
    } else if let Some(e) = tag_end(input, q, "flex") {
        Ok((e, GridTrack::Flex(x)))
    } else if let Some(e) = tag_end(input, q, "vh") {
        Ok((e, GridTrack::Vh(x)))
    } else if let Some(e) = tag_end(input, q, "vw") {
        Ok((e, GridTrack::Vw(x)))
    } else if let Some(e) = tag_end(input, q, "vmin") {
        Ok((e, GridTrack::VMin(x)))
    } else if let Some(e) = tag_end(input, q, "vmax") {
        Ok((e, GridTrack::VMax(x)))
    } else {
        Err(Fail::Error)
    }
}

fn parse_track_kind(input: &[u8], p: usize) -> (r: Result<(usize, GridTrack), Fail>)
    requires
        p <= input@.len(),
    ensures
        lift(r) == track_kind_at(input@, p as int),
        r matches Ok((e, _)) ==> p <= e <= input@.len(),
{
    if let Some(e) = tag_end(input, p, "auto") {
        Ok((e, GridTrack::Auto))
    } else if let Some(e) = tag_end(input, p, "min") {
        Ok((e, GridTrack::MinContent))
    } else if let Some(e) = tag_end(input, p, "max") {
        Ok((e, GridTrack::MaxContent))
    } else {
        let (q, x) = parse_float(input, p)?;
        parse_track_unit(input, q, x)
    }
}

/// Reads a track size at `pos` with the white space around it (`auto`,
/// `min`, `max`, `50px`, `10%`, `1fr`, ...).
pub fn parse_grid_track(input: &[u8], pos: usize) -> (r: Result<(usize, GridTrack), Fail>)
    requires
        pos <= input@.len(),
    ensures
        lift(r) == grid_track_at(input@, pos as int),
        r matches Ok((q, _)) ==> pos <= q <= input@.len(),
{
    let p = skip_spaces(input, pos);
    let (e, t) = parse_track_kind(input, p)?;
    Ok((skip_spaces(input, e), t))
}

/// Reads as many track sizes as stand one after the other from `pos`
/// (`auto 10% 10%`).
pub fn parse_grid_tracks(input: &[u8], pos: usize) -> (r: Result<(usize, Vec<GridTrack>), Fail>)
    requires
        pos <= input@.len(),
    ensures
        lift(r) == grid_tracks_at(input@, pos as int),
        r matches Ok((q, _)) ==> pos <= q <= input@.len(),
{
    let mut tracks: Vec<GridTrack> = Vec::new();
    let mut p = pos;
    let ghost out: SpecRes<Seq<GridTrack>> = grid_tracks_at(input@, pos as int);
    loop
        invariant
            pos <= p <= input@.len(),
            out == grid_tracks_at(input@, pos as int),
            grid_tracks_at(input@, p as int) matches Ok((e, rest)) ==> out == Ok::<
                (int, Seq<GridTrack>),
                Fail,
            >((e, tracks@ + rest)),
            grid_tracks_at(input@, p as int) is Err ==> out == grid_tracks_at(input@, p as int),
        decreases input@.len() - p,
    {
        match parse_grid_track(input, p) {
            Err(Fail::Error) => {
                assert(tracks@ + Seq::<GridTrack>::empty() =~= tracks@);
                return Ok((p, tracks));
            },
            Err(Fail::Failure) => return Err(Fail::Failure),
            Ok((q, t)) => {
                if q == p {
                    return Err(Fail::Error);
                }
                proof {
                    if let Ok((e, rest)) = grid_tracks_at(input@, q as int) {
                        assert(tracks@.push(t) + rest =~= tracks@ + (seq![t] + rest));
                    }
                }
                tracks.push(t);
                p = q;
            },
        }
    }
}

/// `(n, size)`: a track size repeated `n` times. The size is one run of
/// letters, digits, `%` and `.`, read as a track size from its start.
pub open spec fn repeated_track_at(s: Seq<u8>, p: int) -> SpecRes<RepeatedGridTrack> {
    match tag(s, spaces(s, p), "(") {
        None => Err(Fail::Error),
        Some(a) => match integer_at(s, spaces(s, a)) {
            Err(e) => Err(e),
            Ok((b, n)) => if !(0 <= n <= 0xffff) {
                Err(Fail::Error)
            } else {
                match tag(s, spaces(s, b), ",") {
                    None => Err(Fail::Error),
                    Some(c) => {
                        let d0 = spaces(s, c);
                        let d = scan(s, d0, ByteClass::TrackSize);
                        if d == d0 {
                            Err(Fail::Error)
                        } else {
                            match tag(s, spaces(s, d), ")") {
                                None => Err(Fail::Error),
                                Some(e) => match track_kind_at(s.subrange(d0, d), 0) {
                                    Err(x) => Err(x),
                                    Ok((_, t)) => Ok(
                                        (e, RepeatedGridTrack { repetition: n as u16, track: t }),
                                    ),
                                },
                            }
                        }
                    },
                }
            },
        },
    }
}

/// As many repeated tracks as stand one after the other from `p`.
pub open spec fn repeated_tracks_at(s: Seq<u8>, p: int) -> SpecRes<Seq<RepeatedGridTrack>>
    decreases s.len() - p,
{
    match repeated_track_at(s, p) {
        Err(Fail::Error) => Ok((p, Seq::empty())),
        Err(Fail::Failure) => Err(Fail::Failure),
        Ok((q, t)) => if p < q <= s.len() {
            match repeated_tracks_at(s, q) {
                Ok((e, ts)) => Ok((e, seq![t] + ts)),
                Err(e) => Err(e),
            }
        } else {
            Err(Fail::Error)
        },
    }
}

/// Reads a repeated track at `pos` (`(5, auto)`, `(2, 150px)`).
pub fn parse_grid_track_repeated(input: &[u8], pos: usize) -> (r: Result<
    (usize, RepeatedGridTrack),
    Fail,
>)
    requires
        pos <= input@.len(),
    ensures
        lift(r) == repeated_track_at(input@, pos as int),
        r matches Ok((q, _)) ==> pos <= q <= input@.len(),
{
    let a = match tag_end(input, skip_spaces(input, pos), "(") {
        Some(a) => a,
        None => return Err(Fail::Error),
    };
    let (b, n) = match parse_integer(input, skip_spaces(input, a)) {
        Ok(x) => x,
        Err(_) => return Err(Fail::Error),
    };
    if !(0 <= n && n <= 0xffff) {
        return Err(Fail::Error);
    }
    let c = match tag_end(input, skip_spaces(input, b), ",") {
        Some(c) => c,
        None => return Err(Fail::Error),
    };
    let d0 = skip_spaces(input, c);
    let d = scan_class(input, d0, ByteClass::TrackSize);
    if d == d0 {
        return Err(Fail::Error);
    }
    let e = match tag_end(input, skip_spaces(input, d), ")") {
        Some(e) => e,
        None => return Err(Fail::Error),
    };
    let value = vstd::slice::slice_subrange(input, d0, d);
    let (_, t) = parse_track_kind(value, 0)?;
    Ok((e, RepeatedGridTrack { repetition: n as u16, track: t }))
}

/// Reads as many repeated tracks as stand one after the other from `pos`
/// (`(4, 8flex)(1, 50px)`).
pub fn parse_grid_tracks_repeated(input: &[u8], pos: usize) -> (r: Result<
    (usize, Vec<RepeatedGridTrack>),
    Fail,
>)
    requires
        pos <= input@.len(),
    ensures
        lift(r) == repeated_tracks_at(input@, pos as int),
        r matches Ok((q, _)) ==> pos <= q <= input@.len(),
{
    let mut tracks: Vec<RepeatedGridTrack> = Vec::new();
    let mut p = pos;
    let ghost out: SpecRes<Seq<RepeatedGridTrack>> = repeated_tracks_at(input@, pos as int);
    loop
        invariant
            pos <= p <= input@.len(),
            out == repeated_tracks_at(input@, pos as int),
            repeated_tracks_at(input@, p as int) matches Ok((e, rest)) ==> out == Ok::<
                (int, Seq<RepeatedGridTrack>),
                Fail,
            >((e, tracks@ + rest)),
            repeated_tracks_at(input@, p as int) is Err ==> out == repeated_tracks_at(
                input@,
                p as int,
            ),
        decreases input@.len() - p,
    {
        match parse_grid_track_repeated(input, p) {
            Err(Fail::Error) => {
                assert(tracks@ + Seq::<RepeatedGridTrack>::empty() =~= tracks@);
                return Ok((p, tracks));
            },
            Err(Fail::Failure) => return Err(Fail::Failure),
            Ok((q, t)) => {
                if q == p {
                    return Err(Fail::Error);
                }
                proof {
                    if let Ok((e, rest)) = repeated_tracks_at(input@, q as int) {
                        assert(tracks@.push(t) + rest =~= tracks@ + (seq![t] + rest));
                    }
                }
                tracks.push(t);
                p = q;
            },
        }
    }
}

} // verus!

verus! {

/// Where an item goes in a grid.
#[derive(Clone, Copy, Debug, PartialEq, Eq, Structural)]
pub enum GridPlacement {
    Auto,
    Span(u16),
    Start(i16),
    End(i16),
    StartSpan(i16, u16),
    EndSpan(i16, u16),
}

impl View for GridPlacement {
    type V = GridPlacement;

    open spec fn view(&self) -> GridPlacement {
        *self
    }
}

/// An integer as `u16`, or 0 when out of range.
pub open spec fn u16_or_zero(v: int) -> u16 {
    if 0 <= v <= 0xffff {
        v as u16
    } else {
        0
    }
}

/// An integer as `i16`, or 0 when out of range.
pub open spec fn i16_or_zero(v: int) -> i16 {
    if -0x8000 <= v <= 0x7fff {
        v as i16
    } else {
        0
    }
}

/// `(n)` with white space inside the brackets.
pub open spec fn paren1_at(s: Seq<u8>, p: int) -> SpecRes<int> {
    match tag(s, p, "(") {
        None => Err(Fail::Error),
        Some(a) => match integer_at(s, spaces(s, a)) {
            Err(e) => Err(e),
            Ok((b, n)) => match tag(s, spaces(s, b), ")") {
                None => Err(Fail::Error),
                Some(c) => Ok((c, n)),
            },
        },
    }
}

/// `(n, m)` with white space around the numbers.
pub open spec fn paren2_at(s: Seq<u8>, p: int) -> SpecRes<(int, int)> {
    match tag(s, p, "(") {
        None => Err(Fail::Error),
        Some(a) => match integer_at(s, spaces(s, a)) {
            Err(e) => Err(e),
            Ok((b, n)) => match tag(s, spaces(s, b), ",") {
                None => Err(Fail::Error),
                Some(c) => match integer_at(s, spaces(s, c)) {
                    Err(e) => Err(e),
                    Ok((d, m)) => match tag(s, spaces(s, d), ")") {
                        None => Err(Fail::Error),
                        Some(e) => Ok((e, (n, m))),
                    },
                },
            },
        },
    }
}

/// The form of a grid placement at `p`: after white space, a name up to the
/// first `(` or `"`, which is `auto`, or `span`, `start`, `end` with one
/// number, or `start_span`, `end_span` with two numbers in brackets. Numbers
/// out of range of `u16`/`i16` count as 0.
pub open spec fn placement_form_at(s: Seq<u8>, p: int) -> SpecRes<GridPlacement> {
    let a = spaces(s, p);
    let b = scan(s, a, ByteClass::PlacementIdent);
    let id = s.subrange(a, b);
    if b == a {
        Err(Fail::Error)
    } else if id =~= "auto".spec_bytes() {
        Ok((b, GridPlacement::Auto))
    } else if id =~= "span".spec_bytes() {
        match paren1_at(s, b) {
            Ok((c, n)) => Ok((c, GridPlacement::Span(u16_or_zero(n)))),
            Err(e) => Err(e),
        }
    } else if id =~= "end".spec_bytes() {
        match paren1_at(s, b) {
            Ok((c, n)) => Ok((c, GridPlacement::End(i16_or_zero(n)))),
            Err(e) => Err(e),
        }
    } else if id =~= "start".spec_bytes() {
        match paren1_at(s, b) {
            Ok((c, n)) => Ok((c, GridPlacement::Start(i16_or_zero(n)))),
            Err(e) => Err(e),
        }
    } else if id =~= "start_span".spec_bytes() {
        match paren2_at(s, b) {
            Ok((c, (n, m))) => Ok((c, GridPlacement::StartSpan(i16_or_zero(n), u16_or_zero(m)))),
            Err(e) => Err(e),
        }
    } else if id =~= "end_span".spec_bytes() {
        match paren2_at(s, b) {
            Ok((c, (n, m))) => Ok((c, GridPlacement::EndSpan(i16_or_zero(n), u16_or_zero(m)))),
            Err(e) => Err(e),
        }
    } else {
        Err(Fail::Error)
    }
}

/// Whether a placement names no line 0 and no span of 0: lines are counted
/// from 1 (or from -1 at the end), and a span covers at least one track.
pub open spec fn placement_valid(g: GridPlacement) -> bool {
    match g {
        GridPlacement::Auto => true,
        GridPlacement::Span(n) => n != 0,
        GridPlacement::Start(i) => i != 0,
        GridPlacement::End(i) => i != 0,
        GridPlacement::StartSpan(i, n) => i != 0 && n != 0,
        GridPlacement::EndSpan(i, n) => i != 0 && n != 0,
    }
}

/// A grid placement at `p`, as `placement_form_at` reads it; a placement
/// with a line or span of 0 (a number out of range counts as 0) is refused.
pub open spec fn grid_placement_at(s: Seq<u8>, p: int) -> SpecRes<GridPlacement> {
    match placement_form_at(s, p) {
        Ok((q, g)) => if placement_valid(g) {
            Ok((q, g))
        } else {
            Err(Fail::Error)
        },
        Err(e) => Err(e),
    }
}

/// Whether `g` names no line 0 and no span of 0, as `placement_valid` says.
pub fn is_valid_placement(g: GridPlacement) -> (r: bool)
    ensures
        r == placement_valid(g),
{
    match g {
        GridPlacement::Auto => true,
        GridPlacement::Span(n) => n != 0,
        GridPlacement::Start(i) => i != 0,
        GridPlacement::End(i) => i != 0,
        GridPlacement::StartSpan(i, n) => i != 0 && n != 0,
        GridPlacement::EndSpan(i, n) => i != 0 && n != 0,
    }
}

fn to_u16_or_zero(v: i64) -> (r: u16)
    ensures
        r == u16_or_zero(v as int),
{
    if 0 <= v && v <= 0xffff {
        v as u16
    } else {
        0
    }
}

fn to_i16_or_zero(v: i64) -> (r: i16)
    ensures
        r == i16_or_zero(v as int),
{
    if -0x8000 <= v && v <= 0x7fff {
        v as i16
    } else {
        0
    }
}

fn parse_paren1(input: &[u8], p: usize) -> (r: Result<(usize, i64), Fail>)
    requires
        p <= input@.len(),
    ensures
        r matches Ok((q, n)) ==> paren1_at(input@, p as int) == Ok::<(int, int), Fail>(
            (q as int, n as int),
        ) && p <= q <= input@.len(),
        r matches Err(e) ==> paren1_at(input@, p as int) == Err::<(int, int), Fail>(e),
{
    let a = match tag_end(input, p, "(") {
        Some(a) => a,
        None => return Err(Fail::Error),
    };
    let (b, n) = parse_integer(input, skip_spaces(input, a))?;
    match tag_end(input, skip_spaces(input, b), ")") {
        Some(c) => Ok((c, n)),
        None => Err(Fail::Error),
    }
}

fn parse_paren2(input: &[u8], p: usize) -> (r: Result<(usize, (i64, i64)), Fail>)
    requires
        p <= input@.len(),
    ensures
        r matches Ok((q, (n, m))) ==> paren2_at(input@, p as int) == Ok::<
            (int, (int, int)),
            Fail,
        >((q as int, (n as int, m as int))) && p <= q <= input@.len(),
        r matches Err(e) ==> paren2_at(input@, p as int) == Err::<(int, (int, int)), Fail>(e),
{
    let a = match tag_end(input, p, "(") {
        Some(a) => a,
        None => return Err(Fail::Error),
    };
    let (b, n) = parse_integer(input, skip_spaces(input, a))?;
    let c = match tag_end(input, skip_spaces(input, b), ",") {
        Some(c) => c,
        None => return Err(Fail::Error),
    };
    let (d, m) = parse_integer(input, skip_spaces(input, c))?;
    match tag_end(input, skip_spaces(input, d), ")") {
        Some(e) => Ok((e, (n, m))),
        None => Err(Fail::Error),
    }
}

/// Reads a grid placement at `pos` (`auto`, `span(5)`, `start(2)`, `end(3)`,
/// `start_span(-5, 5)`, `end_span(5,50)`); one with a line or span of 0 is
/// refused.
pub fn parse_grid_placement(input: &[u8], pos: usize) -> (r: Result<
    (usize, GridPlacement),
    Fail,
>)
    requires
        pos <= input@.len(),
    ensures
        lift(r) == grid_placement_at(input@, pos as int),
        r matches Ok((q, g)) ==> pos <= q <= input@.len() && placement_valid(g),
{
    let (q, g) = parse_placement_form(input, pos)?;
    if is_valid_placement(g) {
        Ok((q, g))
    } else {
        Err(Fail::Error)
    }
}

/// Reads the form of a grid placement at `pos`, as `placement_form_at` says.
fn parse_placement_form(input: &[u8], pos: usize) -> (r: Result<(usize, GridPlacement), Fail>)
    requires
        pos <= input@.len(),
    ensures
        lift(r) == placement_form_at(input@, pos as int),
        r matches Ok((q, _)) ==> pos <= q <= input@.len(),
{
    let a = skip_spaces(input, pos);
    let b = scan_class(input, a, ByteClass::PlacementIdent);
    if b == a {
        return Err(Fail::Error);
    }
    let id = vstd::slice::slice_subrange(input, a, b);
    if crate::lex::bytes_eq(id, "auto") {
        Ok((b, GridPlacement::Auto))
    } else if crate::lex::bytes_eq(id, "span") {
        let (c, n) = parse_paren1(input, b)?;
        Ok((c, GridPlacement::Span(to_u16_or_zero(n))))
    } else if crate::lex::bytes_eq(id, "end") {
        let (c, n) = parse_paren1(input, b)?;
        Ok((c, GridPlacement::End(to_i16_or_zero(n))))
    } else if crate::lex::bytes_eq(id, "start") {
        let (c, n) = parse_paren1(input, b)?;
        Ok((c, GridPlacement::Start(to_i16_or_zero(n))))
    } else if crate::lex::bytes_eq(id, "start_span") {
        let (c, (n, m)) = parse_paren2(input, b)?;
        Ok((c, GridPlacement::StartSpan(to_i16_or_zero(n), to_u16_or_zero(m))))
    } else if crate::lex::bytes_eq(id, "end_span") {
        let (c, (n, m)) = parse_paren2(input, b)?;
        Ok((c, GridPlacement::EndSpan(to_i16_or_zero(n), to_u16_or_zero(m))))
    } else {
        Err(Fail::Error)
    }
}

} // verus!

verus! {
/// The position type.
#[derive(Clone, Copy, Debug, PartialEq, Eq, Structural)]
pub enum PositionType {
    Relative,
    Absolute,
}

impl View for PositionType {
    type V = PositionType;

    open spec fn view(&self) -> PositionType {
        *self
    }
}

/// The first of the words `absolute`, `relative` that stands at `p`.
pub open spec fn position_type_at(s: Seq<u8>, p: int) -> SpecRes<PositionType> {
    if let Some(e) = tag(s, p, "absolute") {
        Ok((e, PositionType::Absolute))
    } else if let Some(e) = tag(s, p, "relative") {
        Ok((e, PositionType::Relative))
    } else {
        Err(Fail::Error)
    }
}

/// Reads one of the words `absolute`, `relative` at `pos`.
pub fn parse_position_type(input: &[u8], pos: usize) -> (r: Result<(usize, PositionType), Fail>)
    requires
        pos <= input@.len(),
    ensures
        lift(r) == position_type_at(input@, pos as int),
        r matches Ok((q, _)) ==> pos <= q <= input@.len(),
{
    if let Some(e) = tag_end(input, pos, "absolute") {
        Ok((e, PositionType::Absolute))
    } else if let Some(e) = tag_end(input, pos, "relative") {
        Ok((e, PositionType::Relative))
    } else {
        Err(Fail::Error)
    }
}

/// The display mode.
#[derive(Clone, Copy, Debug, PartialEq, Eq, Structural)]
pub enum Display {
    Flex,
    Grid,
    Block,
    DisplayNone,
}

impl View for Display {
    type V = Display;

    open spec fn view(&self) -> Display {
        *self
    }
}

/// The first of the words `none`, `flex`, `block`, `grid` that stands at `p`.
pub open spec fn display_at(s: Seq<u8>, p: int) -> SpecRes<Display> {
    if let Some(e) = tag(s, p, "none") {
        Ok((e, Display::DisplayNone))
    } else if let Some(e) = tag(s, p, "flex") {
        Ok((e, Display::Flex))
    } else if let Some(e) = tag(s, p, "block") {
        Ok((e, Display::Block))
    } else if let Some(e) = tag(s, p, "grid") {
        Ok((e, Display::Grid))
    } else {
        Err(Fail::Error)
    }
}

/// Reads one of the words `none`, `flex`, `block`, `grid` at `pos`.
pub fn parse_display(input: &[u8], pos: usize) -> (r: Result<(usize, Display), Fail>)
    requires
        pos <= input@.len(),
    ensures
        lift(r) == display_at(input@, pos as int),
        r matches Ok((q, _)) ==> pos <= q <= input@.len(),
{
    if let Some(e) = tag_end(input, pos, "none") {
        Ok((e, Display::DisplayNone))
    } else if let Some(e) = tag_end(input, pos, "flex") {
        Ok((e, Display::Flex))
    } else if let Some(e) = tag_end(input, pos, "block") {
        Ok((e, Display::Block))
    } else if let Some(e) = tag_end(input, pos, "grid") {
        Ok((e, Display::Grid))
    } else {
        Err(Fail::Error)
    }
}

/// The text direction.
#[derive(Clone, Copy, Debug, PartialEq, Eq, Structural)]
pub enum Direction {
    Inherit,
    LeftToRight,
    RightToLeft,
}

impl View for Direction {
    type V = Direction;

    open spec fn view(&self) -> Direction {
        *self
    }
}

/// The first of the words `inherit`, `left_to_right`, `right_to_left` that stands at `p`.
pub open spec fn direction_at(s: Seq<u8>, p: int) -> SpecRes<Direction> {
    if let Some(e) = tag(s, p, "inherit") {
        Ok((e, Direction::Inherit))
    } else if let Some(e) = tag(s, p, "left_to_right") {
        Ok((e, Direction::LeftToRight))
    } else if let Some(e) = tag(s, p, "right_to_left") {
        Ok((e, Direction::RightToLeft))
    } else {
        Err(Fail::Error)
    }
}

/// Reads one of the words `inherit`, `left_to_right`, `right_to_left` at `pos`.
pub fn parse_direction(input: &[u8], pos: usize) -> (r: Result<(usize, Direction), Fail>)
    requires
        pos <= input@.len(),
    ensures
        lift(r) == direction_at(input@, pos as int),
        r matches Ok((q, _)) ==> pos <= q <= input@.len(),
{
    if let Some(e) = tag_end(input, pos, "inherit") {
        Ok((e, Direction::Inherit))
    } else if let Some(e) = tag_end(input, pos, "left_to_right") {
        Ok((e, Direction::LeftToRight))
    } else if let Some(e) = tag_end(input, pos, "right_to_left") {
        Ok((e, Direction::RightToLeft))
    } else {
        Err(Fail::Error)
    }
}

/// The overflow behaviour along one axis.
#[derive(Clone, Copy, Debug, PartialEq, Eq, Structural)]
pub enum OverflowAxis {
    Visible,
    Clip,
    Hidden,
    Scroll,
}

impl View for OverflowAxis {
    type V = OverflowAxis;

    open spec fn view(&self) -> OverflowAxis {
        *self
    }
}

/// The first of the words `visible`, `hidden`, `clip` that stands at `p`.
pub open spec fn overflow_axis_at(s: Seq<u8>, p: int) -> SpecRes<OverflowAxis> {
    if let Some(e) = tag(s, p, "visible") {
        Ok((e, OverflowAxis::Visible))
    } else if let Some(e) = tag(s, p, "hidden") {
        Ok((e, OverflowAxis::Hidden))
    } else if let Some(e) = tag(s, p, "clip") {
        Ok((e, OverflowAxis::Clip))
    } else {
        Err(Fail::Error)
    }
}

/// Reads one of the words `visible`, `hidden`, `clip` at `pos`.
pub fn parse_overflow_axis(input: &[u8], pos: usize) -> (r: Result<(usize, OverflowAxis), Fail>)
    requires
        pos <= input@.len(),
    ensures
        lift(r) == overflow_axis_at(input@, pos as int),
        r matches Ok((q, _)) ==> pos <= q <= input@.len(),
{
    if let Some(e) = tag_end(input, pos, "visible") {
        Ok((e, OverflowAxis::Visible))
    } else if let Some(e) = tag_end(input, pos, "hidden") {
        Ok((e, OverflowAxis::Hidden))
    } else if let Some(e) = tag_end(input, pos, "clip") {
        Ok((e, OverflowAxis::Clip))
    } else {
        Err(Fail::Error)
    }
}

/// The alignment of items.
#[derive(Clone, Copy, Debug, PartialEq, Eq, Structural)]
pub enum AlignItems {
    Default,
    Start,
    End,
    FlexStart,
    FlexEnd,
    Center,
    Baseline,
    Stretch,
}

impl View for AlignItems {
    type V = AlignItems;

    open spec fn view(&self) -> AlignItems {
        *self
    }
}

/// The first of the words `default`, `center`, `start`, `flex_end`, `stretch`, `end`, `baseline`, `flex_start` that stands at `p`.
pub open spec fn align_items_at(s: Seq<u8>, p: int) -> SpecRes<AlignItems> {
    if let Some(e) = tag(s, p, "default") {
        Ok((e, AlignItems::Default))
    } else if let Some(e) = tag(s, p, "center") {
        Ok((e, AlignItems::Center))
    } else if let Some(e) = tag(s, p, "start") {
        Ok((e, AlignItems::Start))
    } else if let Some(e) = tag(s, p, "flex_end") {
        Ok((e, AlignItems::FlexEnd))
    } else if let Some(e) = tag(s, p, "stretch") {
        Ok((e, AlignItems::Stretch))
    } else if let Some(e) = tag(s, p, "end") {
        Ok((e, AlignItems::End))
    } else if let Some(e) = tag(s, p, "baseline") {
        Ok((e, AlignItems::Baseline))
    } else if let Some(e) = tag(s, p, "flex_start") {
        Ok((e, AlignItems::FlexStart))
    } else {
        Err(Fail::Error)
    }
}

/// Reads one of the words `default`, `center`, `start`, `flex_end`, `stretch`, `end`, `baseline`, `flex_start` at `pos`.
pub fn parse_align_items(input: &[u8], pos: usize) -> (r: Result<(usize, AlignItems), Fail>)
    requires
        pos <= input@.len(),
    ensures
        lift(r) == align_items_at(input@, pos as int),
        r matches Ok((q, _)) ==> pos <= q <= input@.len(),
{
    if let Some(e) = tag_end(input, pos, "default") {
        Ok((e, AlignItems::Default))
    } else if let Some(e) = tag_end(input, pos, "center") {
        Ok((e, AlignItems::Center))
    } else if let Some(e) = tag_end(input, pos, "start") {
        Ok((e, AlignItems::Start))
    } else if let Some(e) = tag_end(input, pos, "flex_end") {
        Ok((e, AlignItems::FlexEnd))
    } else if let Some(e) = tag_end(input, pos, "stretch") {
        Ok((e, AlignItems::Stretch))
    } else if let Some(e) = tag_end(input, pos, "end") {
        Ok((e, AlignItems::End))
    } else if let Some(e) = tag_end(input, pos, "baseline") {
        Ok((e, AlignItems::Baseline))
    } else if let Some(e) = tag_end(input, pos, "flex_start") {
        Ok((e, AlignItems::FlexStart))
    } else {
        Err(Fail::Error)
    }
}

/// The alignment of content.
#[derive(Clone, Copy, Debug, PartialEq, Eq, Structural)]
pub enum AlignContent {
    Default,
    Start,
    End,
    FlexStart,
    FlexEnd,
    Center,
    Stretch,
    SpaceBetween,
    SpaceEvenly,
    SpaceAround,
}

impl View for AlignContent {
    type V = AlignContent;

    open spec fn view(&self) -> AlignContent {
        *self
    }
}

/// The first of the words `center`, `start`, `flex_end`, `stretch`, `end`, `space_evenly`, `space_around`, `space_between`, `flex_start` that stands at `p`.
pub open spec fn align_content_at(s: Seq<u8>, p: int) -> SpecRes<AlignContent> {
    if let Some(e) = tag(s, p, "center") {
        Ok((e, AlignContent::Center))
    } else if let Some(e) = tag(s, p, "start") {
        Ok((e, AlignContent::Start))
    } else if let Some(e) = tag(s, p, "flex_end") {
        Ok((e, AlignContent::FlexEnd))
    } else if let Some(e) = tag(s, p, "stretch") {
        Ok((e, AlignContent::Stretch))
    } else if let Some(e) = tag(s, p, "end") {
        Ok((e, AlignContent::End))
    } else if let Some(e) = tag(s, p, "space_evenly") {
        Ok((e, AlignContent::SpaceEvenly))
    } else if let Some(e) = tag(s, p, "space_around") {
        Ok((e, AlignContent::SpaceAround))
    } else if let Some(e) = tag(s, p, "space_between") {
        Ok((e, AlignContent::SpaceBetween))
    } else if let Some(e) = tag(s, p, "flex_start") {
        Ok((e, AlignContent::FlexStart))
    } else {
        Err(Fail::Error)
    }
}

/// Reads one of the words `center`, `start`, `flex_end`, `stretch`, `end`, `space_evenly`, `space_around`, `space_between`, `flex_start` at `pos`.
pub fn parse_align_content(input: &[u8], pos: usize) -> (r: Result<(usize, AlignContent), Fail>)
    requires
        pos <= input@.len(),
    ensures
        lift(r) == align_content_at(input@, pos as int),
        r matches Ok((q, _)) ==> pos <= q <= input@.len(),
{
    if let Some(e) = tag_end(input, pos, "center") {
        Ok((e, AlignContent::Center))
    } else if let Some(e) = tag_end(input, pos, "start") {
        Ok((e, AlignContent::Start))
    } else if let Some(e) = tag_end(input, pos, "flex_end") {
        Ok((e, AlignContent::FlexEnd))
    } else if let Some(e) = tag_end(input, pos, "stretch") {
        Ok((e, AlignContent::Stretch))
    } else if let Some(e) = tag_end(input, pos, "end") {
        Ok((e, AlignContent::End))
    } else if let Some(e) = tag_end(input, pos, "space_evenly") {
        Ok((e, AlignContent::SpaceEvenly))
    } else if let Some(e) = tag_end(input, pos, "space_around") {
        Ok((e, AlignContent::SpaceAround))
    } else if let Some(e) = tag_end(input, pos, "space_between") {
        Ok((e, AlignContent::SpaceBetween))
    } else if let Some(e) = tag_end(input, pos, "flex_start") {
        Ok((e, AlignContent::FlexStart))
    } else {
        Err(Fail::Error)
    }
}

/// The alignment of an item itself.
#[derive(Clone, Copy, Debug, PartialEq, Eq, Structural)]
pub enum AlignSelf {
    Auto,
    Start,
    End,
    FlexStart,
    FlexEnd,
    Center,
    Baseline,
    Stretch,
}

impl View for AlignSelf {
    type V = AlignSelf;

    open spec fn view(&self) -> AlignSelf {
        *self
    }
}

/// The first of the words `auto`, `center`, `start`, `flex_end`, `stretch`, `end`, `flex_start` that stands at `p`.
pub open spec fn align_self_at(s: Seq<u8>, p: int) -> SpecRes<AlignSelf> {
    if let Some(e) = tag(s, p, "auto") {
        Ok((e, AlignSelf::Auto))
    } else if let Some(e) = tag(s, p, "center") {
        Ok((e, AlignSelf::Center))
    } else if let Some(e) = tag(s, p, "start") {
        Ok((e, AlignSelf::Start))
    } else if let Some(e) = tag(s, p, "flex_end") {
        Ok((e, AlignSelf::FlexEnd))
    } else if let Some(e) = tag(s, p, "stretch") {
        Ok((e, AlignSelf::Stretch))
    } else if let Some(e) = tag(s, p, "end") {
        Ok((e, AlignSelf::End))
    } else if let Some(e) = tag(s, p, "flex_start") {
        Ok((e, AlignSelf::FlexStart))
    } else {
        Err(Fail::Error)
    }
}

/// Reads one of the words `auto`, `center`, `start`, `flex_end`, `stretch`, `end`, `flex_start` at `pos`.
pub fn parse_align_self(input: &[u8], pos: usize) -> (r: Result<(usize, AlignSelf), Fail>)
    requires
        pos <= input@.len(),
    ensures
        lift(r) == align_self_at(input@, pos as int),
        r matches Ok((q, _)) ==> pos <= q <= input@.len(),
{
    if let Some(e) = tag_end(input, pos, "auto") {
        Ok((e, AlignSelf::Auto))
    } else if let Some(e) = tag_end(input, pos, "center") {
        Ok((e, AlignSelf::Center))
    } else if let Some(e) = tag_end(input, pos, "start") {
        Ok((e, AlignSelf::Start))
    } else if let Some(e) = tag_end(input, pos, "flex_end") {
        Ok((e, AlignSelf::FlexEnd))
    } else if let Some(e) = tag_end(input, pos, "stretch") {
        Ok((e, AlignSelf::Stretch))
    } else if let Some(e) = tag_end(input, pos, "end") {
        Ok((e, AlignSelf::End))
    } else if let Some(e) = tag_end(input, pos, "flex_start") {
        Ok((e, AlignSelf::FlexStart))
    } else {
        Err(Fail::Error)
    }
}

/// The justification of items.
#[derive(Clone, Copy, Debug, PartialEq, Eq, Structural)]
pub enum JustifyItems {
    Default,
    Start,
    End,
    Center,
    Baseline,
    Stretch,
}

impl View for JustifyItems {
    type V = JustifyItems;

    open spec fn view(&self) -> JustifyItems {
        *self
    }
}

/// The first of the words `default`, `center`, `start`, `stretch`, `end`, `baseline` that stands at `p`.
pub open spec fn justify_items_at(s: Seq<u8>, p: int) -> SpecRes<JustifyItems> {
    if let Some(e) = tag(s, p, "default") {
        Ok((e, JustifyItems::Default))
    } else if let Some(e) = tag(s, p, "center") {
        Ok((e, JustifyItems::Center))
    } else if let Some(e) = tag(s, p, "start") {
        Ok((e, JustifyItems::Start))
    } else if let Some(e) = tag(s, p, "stretch") {
        Ok((e, JustifyItems::Stretch))
    } else if let Some(e) = tag(s, p, "end") {
        Ok((e, JustifyItems::End))
    } else if let Some(e) = tag(s, p, "baseline") {
        Ok((e, JustifyItems::Baseline))
    } else {
        Err(Fail::Error)
    }
}

/// Reads one of the words `default`, `center`, `start`, `stretch`, `end`, `baseline` at `pos`.
pub fn parse_justify_items(input: &[u8], pos: usize) -> (r: Result<(usize, JustifyItems), Fail>)
    requires
        pos <= input@.len(),
    ensures
        lift(r) == justify_items_at(input@, pos as int),
        r matches Ok((q, _)) ==> pos <= q <= input@.len(),
{
    if let Some(e) = tag_end(input, pos, "default") {
        Ok((e, JustifyItems::Default))
    } else if let Some(e) = tag_end(input, pos, "center") {
        Ok((e, JustifyItems::Center))
    } else if let Some(e) = tag_end(input, pos, "start") {
        Ok((e, JustifyItems::Start))
    } else if let Some(e) = tag_end(input, pos, "stretch") {
        Ok((e, JustifyItems::Stretch))
    } else if let Some(e) = tag_end(input, pos, "end") {
        Ok((e, JustifyItems::End))
    } else if let Some(e) = tag_end(input, pos, "baseline") {
        Ok((e, JustifyItems::Baseline))
    } else {
        Err(Fail::Error)
    }
}

/// The justification of content.
#[derive(Clone, Copy, Debug, PartialEq, Eq, Structural)]
pub enum JustifyContent {
    Default,
    Start,
    End,
    FlexStart,
    FlexEnd,
    Center,
    Stretch,
    SpaceBetween,
    SpaceEvenly,
    SpaceAround,
}

impl View for JustifyContent {
    type V = JustifyContent;

    open spec fn view(&self) -> JustifyContent {
        *self
    }
}

/// The first of the words `center`, `start`, `flex_end`, `stretch`, `end`, `space_evenly`, `space_around`, `space_between`, `flex_start` that stands at `p`.
pub open spec fn justify_content_at(s: Seq<u8>, p: int) -> SpecRes<JustifyContent> {
    if let Some(e) = tag(s, p, "center") {
        Ok((e, JustifyContent::Center))
    } else if let Some(e) = tag(s, p, "start") {
        Ok((e, JustifyContent::Start))
    } else if let Some(e) = tag(s, p, "flex_end") {
        Ok((e, JustifyContent::FlexEnd))
    } else if let Some(e) = tag(s, p, "stretch") {
        Ok((e, JustifyContent::Stretch))
    } else if let Some(e) = tag(s, p, "end") {
        Ok((e, JustifyContent::End))
    } else if let Some(e) = tag(s, p, "space_evenly") {
        Ok((e, JustifyContent::SpaceEvenly))
    } else if let Some(e) = tag(s, p, "space_around") {
        Ok((e, JustifyContent::SpaceAround))
    } else if let Some(e) = tag(s, p, "space_between") {
        Ok((e, JustifyContent::SpaceBetween))
    } else if let Some(e) = tag(s, p, "flex_start") {
        Ok((e, JustifyContent::FlexStart))
    } else {
        Err(Fail::Error)
    }
}

/// Reads one of the words `center`, `start`, `flex_end`, `stretch`, `end`, `space_evenly`, `space_around`, `space_between`, `flex_start` at `pos`.
pub fn parse_justify_content(input: &[u8], pos: usize) -> (r: Result<(usize, JustifyContent), Fail>)
    requires
        pos <= input@.len(),
    ensures
        lift(r) == justify_content_at(input@, pos as int),
        r matches Ok((q, _)) ==> pos <= q <= input@.len(),
{
    if let Some(e) = tag_end(input, pos, "center") {
        Ok((e, JustifyContent::Center))
    } else if let Some(e) = tag_end(input, pos, "start") {
        Ok((e, JustifyContent::Start))
    } else if let Some(e) = tag_end(input, pos, "flex_end") {
        Ok((e, JustifyContent::FlexEnd))
    } else if let Some(e) = tag_end(input, pos, "stretch") {
        Ok((e, JustifyContent::Stretch))
    } else if let Some(e) = tag_end(input, pos, "end") {
        Ok((e, JustifyContent::End))
    } else if let Some(e) = tag_end(input, pos, "space_evenly") {
        Ok((e, JustifyContent::SpaceEvenly))
    } else if let Some(e) = tag_end(input, pos, "space_around") {
        Ok((e, JustifyContent::SpaceAround))
    } else if let Some(e) = tag_end(input, pos, "space_between") {
        Ok((e, JustifyContent::SpaceBetween))
    } else if let Some(e) = tag_end(input, pos, "flex_start") {
        Ok((e, JustifyContent::FlexStart))
    } else {
        Err(Fail::Error)
    }
}

/// The justification of an item itself.
#[derive(Clone, Copy, Debug, PartialEq, Eq, Structural)]
pub enum JustifySelf {
    Auto,
    Start,
    End,
    Center,
    Baseline,
    Stretch,
}

impl View for JustifySelf {
    type V = JustifySelf;

    open spec fn view(&self) -> JustifySelf {
        *self
    }
}

/// The first of the words `auto`, `center`, `start`, `stretch`, `end`, `baseline` that stands at `p`.
pub open spec fn justify_self_at(s: Seq<u8>, p: int) -> SpecRes<JustifySelf> {
    if let Some(e) = tag(s, p, "auto") {
        Ok((e, JustifySelf::Auto))
    } else if let Some(e) = tag(s, p, "center") {
        Ok((e, JustifySelf::Center))
    } else if let Some(e) = tag(s, p, "start") {
        Ok((e, JustifySelf::Start))
    } else if let Some(e) = tag(s, p, "stretch") {
        Ok((e, JustifySelf::Stretch))
    } else if let Some(e) = tag(s, p, "end") {
        Ok((e, JustifySelf::End))
    } else if let Some(e) = tag(s, p, "baseline") {
        Ok((e, JustifySelf::Baseline))
    } else {
        Err(Fail::Error)
    }
}

/// Reads one of the words `auto`, `center`, `start`, `stretch`, `end`, `baseline` at `pos`.
pub fn parse_justify_self(input: &[u8], pos: usize) -> (r: Result<(usize, JustifySelf), Fail>)
    requires
        pos <= input@.len(),
    ensures
        lift(r) == justify_self_at(input@, pos as int),
        r matches Ok((q, _)) ==> pos <= q <= input@.len(),
{
    if let Some(e) = tag_end(input, pos, "auto") {
        Ok((e, JustifySelf::Auto))
    } else if let Some(e) = tag_end(input, pos, "center") {
        Ok((e, JustifySelf::Center))
    } else if let Some(e) = tag_end(input, pos, "start") {
        Ok((e, JustifySelf::Start))
    } else if let Some(e) = tag_end(input, pos, "stretch") {
        Ok((e, JustifySelf::Stretch))
    } else if let Some(e) = tag_end(input, pos, "end") {
        Ok((e, JustifySelf::End))
    } else if let Some(e) = tag_end(input, pos, "baseline") {
        Ok((e, JustifySelf::Baseline))
    } else {
        Err(Fail::Error)
    }
}

/// The direction of a flex layout.
#[derive(Clone, Copy, Debug, PartialEq, Eq, Structural)]
pub enum FlexDirection {
    Row,
    Column,
    RowReverse,
    ColumnReverse,
}

impl View for FlexDirection {
    type V = FlexDirection;

    open spec fn view(&self) -> FlexDirection {
        *self
    }
}

/// The first of the words `column_reverse`, `row_reverse`, `row`, `column`,
/// `default` (the row direction) that stands at `p`; the longer words are
/// tried first, so that each word can be read.
pub open spec fn flex_direction_at(s: Seq<u8>, p: int) -> SpecRes<FlexDirection> {
    if let Some(e) = tag(s, p, "column_reverse") {
        Ok((e, FlexDirection::ColumnReverse))
    } else if let Some(e) = tag(s, p, "row_reverse") {
        Ok((e, FlexDirection::RowReverse))
    } else if let Some(e) = tag(s, p, "row") {
        Ok((e, FlexDirection::Row))
    } else if let Some(e) = tag(s, p, "column") {
        Ok((e, FlexDirection::Column))
    } else if let Some(e) = tag(s, p, "default") {
        Ok((e, FlexDirection::Row))
    } else {
        Err(Fail::Error)
    }
}

/// Reads one of the words `column_reverse`, `row_reverse`, `row`, `column`,
/// `default` at `pos`.
pub fn parse_flex_direction(input: &[u8], pos: usize) -> (r: Result<(usize, FlexDirection), Fail>)
    requires
        pos <= input@.len(),
    ensures
        lift(r) == flex_direction_at(input@, pos as int),
        r matches Ok((q, _)) ==> pos <= q <= input@.len(),
{
    if let Some(e) = tag_end(input, pos, "column_reverse") {
        Ok((e, FlexDirection::ColumnReverse))
    } else if let Some(e) = tag_end(input, pos, "row_reverse") {
        Ok((e, FlexDirection::RowReverse))
    } else if let Some(e) = tag_end(input, pos, "row") {
        Ok((e, FlexDirection::Row))
    } else if let Some(e) = tag_end(input, pos, "column") {
        Ok((e, FlexDirection::Column))
    } else if let Some(e) = tag_end(input, pos, "default") {
        Ok((e, FlexDirection::Row))
    } else {
        Err(Fail::Error)
    }
}

/// The wrapping of a flex layout.
#[derive(Clone, Copy, Debug, PartialEq, Eq, Structural)]
pub enum FlexWrap {
    NoWrap,
    Wrap,
    WrapReverse,
}

impl View for FlexWrap {
    type V = FlexWrap;

    open spec fn view(&self) -> FlexWrap {
        *self
    }
}

/// The first of the words `wrap`, `no_wrap`, `wrap_reverse` that stands at `p`.
pub open spec fn flex_wrap_at(s: Seq<u8>, p: int) -> SpecRes<FlexWrap> {
    if let Some(e) = tag(s, p, "wrap") {
        Ok((e, FlexWrap::Wrap))
    } else if let Some(e) = tag(s, p, "no_wrap") {
        Ok((e, FlexWrap::NoWrap))
    } else if let Some(e) = tag(s, p, "wrap_reverse") {
        Ok((e, FlexWrap::WrapReverse))
    } else {
        Err(Fail::Error)
    }
}

/// Reads one of the words `wrap`, `no_wrap`, `wrap_reverse` at `pos`.
pub fn parse_flex_wrap(input: &[u8], pos: usize) -> (r: Result<(usize, FlexWrap), Fail>)
    requires
        pos <= input@.len(),
    ensures
        lift(r) == flex_wrap_at(input@, pos as int),
        r matches Ok((q, _)) ==> pos <= q <= input@.len(),
{
    if let Some(e) = tag_end(input, pos, "wrap") {
        Ok((e, FlexWrap::Wrap))
    } else if let Some(e) = tag_end(input, pos, "no_wrap") {
        Ok((e, FlexWrap::NoWrap))
    } else if let Some(e) = tag_end(input, pos, "wrap_reverse") {
        Ok((e, FlexWrap::WrapReverse))
    } else {
        Err(Fail::Error)
    }
}

/// The placement order of a grid.
#[derive(Clone, Copy, Debug, PartialEq, Eq, Structural)]
pub enum GridAutoFlow {
    Row,
    Column,
    RowDense,
    ColumnDense,
}

impl View for GridAutoFlow {
    type V = GridAutoFlow;

    open spec fn view(&self) -> GridAutoFlow {
        *self
    }
}

/// The first of the words `row_dense` or `dense_row`, `column_dense` or
/// `dense_column`, `row`, `column` that stands at `p`; the longer words are
/// tried first, so that each word can be read.
pub open spec fn grid_auto_flow_word_at(s: Seq<u8>, p: int) -> SpecRes<GridAutoFlow> {
    if let Some(e) = tag(s, p, "row_dense") {
        Ok((e, GridAutoFlow::RowDense))
    } else if let Some(e) = tag(s, p, "dense_row") {
        Ok((e, GridAutoFlow::RowDense))
    } else if let Some(e) = tag(s, p, "column_dense") {
        Ok((e, GridAutoFlow::ColumnDense))
    } else if let Some(e) = tag(s, p, "dense_column") {
        Ok((e, GridAutoFlow::ColumnDense))
    } else if let Some(e) = tag(s, p, "row") {
        Ok((e, GridAutoFlow::Row))
    } else if let Some(e) = tag(s, p, "column") {
        Ok((e, GridAutoFlow::Column))
    } else {
        Err(Fail::Error)
    }
}

/// A word of `grid_auto_flow_word_at` with the white space around it.
pub open spec fn grid_auto_flow_at(s: Seq<u8>, p: int) -> SpecRes<GridAutoFlow> {
    then_spaces(s, grid_auto_flow_word_at(s, spaces(s, p)))
}

fn parse_auto_flow_word(input: &[u8], pos: usize) -> (r: Result<(usize, GridAutoFlow), Fail>)
    requires
        pos <= input@.len(),
    ensures
        lift(r) == grid_auto_flow_word_at(input@, pos as int),
        r matches Ok((q, _)) ==> pos <= q <= input@.len(),
{
    if let Some(e) = tag_end(input, pos, "row_dense") {
        Ok((e, GridAutoFlow::RowDense))
    } else if let Some(e) = tag_end(input, pos, "dense_row") {
        Ok((e, GridAutoFlow::RowDense))
    } else if let Some(e) = tag_end(input, pos, "column_dense") {
        Ok((e, GridAutoFlow::ColumnDense))
    } else if let Some(e) = tag_end(input, pos, "dense_column") {
        Ok((e, GridAutoFlow::ColumnDense))
    } else if let Some(e) = tag_end(input, pos, "row") {
        Ok((e, GridAutoFlow::Row))
    } else if let Some(e) = tag_end(input, pos, "column") {
        Ok((e, GridAutoFlow::Column))
    } else {
        Err(Fail::Error)
    }
}

/// Reads one of the grid flow words (`row`, `column`, `row_dense`,
/// `dense_row`, `column_dense`, `dense_column`) at `pos` with the white
/// space around it.
pub fn parse_auto_flow(input: &[u8], pos: usize) -> (r: Result<(usize, GridAutoFlow), Fail>)
    requires
        pos <= input@.len(),
    ensures
        lift(r) == grid_auto_flow_at(input@, pos as int),
        r matches Ok((q, _)) ==> pos <= q <= input@.len(),
{
    let (e, v) = parse_auto_flow_word(input, skip_spaces(input, pos))?;
    Ok((skip_spaces(input, e), v))
}

/// Overflow behaviour along both axes.
#[derive(Clone, Copy, Debug, PartialEq, Eq, Structural)]
pub struct Overflow {
    pub x: OverflowAxis,
    pub y: OverflowAxis,
}

impl View for Overflow {
    type V = Overflow;

    open spec fn view(&self) -> Overflow {
        *self
    }
}

/// Two overflow words, for the x and the y axis, with white space between.
pub open spec fn overflow_at(s: Seq<u8>, p: int) -> SpecRes<Overflow> {
    match overflow_axis_at(s, p) {
        Err(e) => Err(e),
        Ok((q, x)) => match overflow_axis_at(s, spaces(s, q)) {
            Err(e) => Err(e),
            Ok((e, y)) => Ok((e, Overflow { x, y })),
        },
    }
}

/// Reads two overflow words at `pos` (`visible hidden`).
pub fn parse_overflow(input: &[u8], pos: usize) -> (r: Result<(usize, Overflow), Fail>)
    requires
        pos <= input@.len(),
    ensures
        lift(r) == overflow_at(input@, pos as int),
        r matches Ok((q, _)) ==> pos <= q <= input@.len(),
{
    let (q, x) = parse_overflow_axis(input, pos)?;
    let (e, y) = parse_overflow_axis(input, skip_spaces(input, q))?;
    Ok((e, Overflow { x, y }))
}

/// The word that names the value `x`.
pub open spec fn position_type_word(x: PositionType) -> Seq<u8> {
    match x {
        PositionType::Relative => "relative".spec_bytes(),
        PositionType::Absolute => "absolute".spec_bytes(),
    }
}

/// The word that names the value `x`.
pub open spec fn display_word(x: Display) -> Seq<u8> {
    match x {
        Display::Flex => "flex".spec_bytes(),
        Display::Grid => "grid".spec_bytes(),
        Display::Block => "block".spec_bytes(),
        Display::DisplayNone => "none".spec_bytes(),
    }
}

/// The word that names the value `x`.
pub open spec fn direction_word(x: Direction) -> Seq<u8> {
    match x {
        Direction::Inherit => "inherit".spec_bytes(),
        Direction::LeftToRight => "left_to_right".spec_bytes(),
        Direction::RightToLeft => "right_to_left".spec_bytes(),
    }
}

/// The word that names the value `x`.
pub open spec fn overflow_axis_word(x: OverflowAxis) -> Seq<u8> {
    match x {
        OverflowAxis::Visible => "visible".spec_bytes(),
        OverflowAxis::Clip => "clip".spec_bytes(),
        OverflowAxis::Hidden => "hidden".spec_bytes(),
        OverflowAxis::Scroll => "scroll".spec_bytes(),
    }
}

/// The word that names the value `x`.
pub open spec fn align_items_word(x: AlignItems) -> Seq<u8> {
    match x {
        AlignItems::Default => "default".spec_bytes(),
        AlignItems::Start => "start".spec_bytes(),
        AlignItems::End => "end".spec_bytes(),
        AlignItems::FlexStart => "flex_start".spec_bytes(),
        AlignItems::FlexEnd => "flex_end".spec_bytes(),
        AlignItems::Center => "center".spec_bytes(),
        AlignItems::Baseline => "baseline".spec_bytes(),
        AlignItems::Stretch => "stretch".spec_bytes(),
    }
}

/// The word that names the value `x`.
pub open spec fn align_content_word(x: AlignContent) -> Seq<u8> {
    match x {
        AlignContent::Default => "default".spec_bytes(),
        AlignContent::Start => "start".spec_bytes(),
        AlignContent::End => "end".spec_bytes(),
        AlignContent::FlexStart => "flex_start".spec_bytes(),
        AlignContent::FlexEnd => "flex_end".spec_bytes(),
        AlignContent::Center => "center".spec_bytes(),
        AlignContent::Stretch => "stretch".spec_bytes(),
        AlignContent::SpaceBetween => "space_between".spec_bytes(),
        AlignContent::SpaceEvenly => "space_evenly".spec_bytes(),
        AlignContent::SpaceAround => "space_around".spec_bytes(),
    }
}

/// The word that names the value `x`.
pub open spec fn align_self_word(x: AlignSelf) -> Seq<u8> {
    match x {
        AlignSelf::Auto => "auto".spec_bytes(),
        AlignSelf::Start => "start".spec_bytes(),
        AlignSelf::End => "end".spec_bytes(),
        AlignSelf::FlexStart => "flex_start".spec_bytes(),
        AlignSelf::FlexEnd => "flex_end".spec_bytes(),
        AlignSelf::Center => "center".spec_bytes(),
        AlignSelf::Baseline => "baseline".spec_bytes(),
        AlignSelf::Stretch => "stretch".spec_bytes(),
    }
}

/// The word that names the value `x`.
pub open spec fn justify_items_word(x: JustifyItems) -> Seq<u8> {
    match x {
        JustifyItems::Default => "default".spec_bytes(),
        JustifyItems::Start => "start".spec_bytes(),
        JustifyItems::End => "end".spec_bytes(),
        JustifyItems::Center => "center".spec_bytes(),
        JustifyItems::Baseline => "baseline".spec_bytes(),
        JustifyItems::Stretch => "stretch".spec_bytes(),
    }
}

/// The word that names the value `x`.
pub open spec fn justify_content_word(x: JustifyContent) -> Seq<u8> {
    match x {
        JustifyContent::Default => "default".spec_bytes(),
        JustifyContent::Start => "start".spec_bytes(),
        JustifyContent::End => "end".spec_bytes(),
        JustifyContent::FlexStart => "flex_start".spec_bytes(),
        JustifyContent::FlexEnd => "flex_end".spec_bytes(),
        JustifyContent::Center => "center".spec_bytes(),
        JustifyContent::Stretch => "stretch".spec_bytes(),
        JustifyContent::SpaceBetween => "space_between".spec_bytes(),
        JustifyContent::SpaceEvenly => "space_evenly".spec_bytes(),
        JustifyContent::SpaceAround => "space_around".spec_bytes(),
    }
}

/// The word that names the value `x`.
pub open spec fn justify_self_word(x: JustifySelf) -> Seq<u8> {
    match x {
        JustifySelf::Auto => "auto".spec_bytes(),
        JustifySelf::Start => "start".spec_bytes(),
        JustifySelf::End => "end".spec_bytes(),
        JustifySelf::Center => "center".spec_bytes(),
        JustifySelf::Baseline => "baseline".spec_bytes(),
        JustifySelf::Stretch => "stretch".spec_bytes(),
    }
}

/// The word that names the value `x`.
pub open spec fn flex_direction_word(x: FlexDirection) -> Seq<u8> {
    match x {
        FlexDirection::Row => "row".spec_bytes(),
        FlexDirection::Column => "column".spec_bytes(),
        FlexDirection::RowReverse => "row_reverse".spec_bytes(),
        FlexDirection::ColumnReverse => "column_reverse".spec_bytes(),
    }
}

/// The word that names the value `x`.
pub open spec fn flex_wrap_word(x: FlexWrap) -> Seq<u8> {
    match x {
        FlexWrap::NoWrap => "no_wrap".spec_bytes(),
        FlexWrap::Wrap => "wrap".spec_bytes(),
        FlexWrap::WrapReverse => "wrap_reverse".spec_bytes(),
    }
}

/// The word that names the value `x`.
pub open spec fn grid_auto_flow_word(x: GridAutoFlow) -> Seq<u8> {
    match x {
        GridAutoFlow::Row => "row".spec_bytes(),
        GridAutoFlow::Column => "column".spec_bytes(),
        GridAutoFlow::RowDense => "row_dense".spec_bytes(),
        GridAutoFlow::ColumnDense => "column_dense".spec_bytes(),
    }
}

proof fn lemma_position_type_at_word(s: Seq<u8>, p: int)
    ensures
        position_type_at(s, p) matches Ok((q, x)) ==> s.subrange(p, q) == position_type_word(x),
{
    if let Ok((q, x)) = position_type_at(s, p) {
        if tag(s, p, "absolute") is Some {
            assert(x is Absolute);
            assert(s.subrange(p, q) =~= "absolute".spec_bytes());
        } else if tag(s, p, "relative") is Some {
            assert(x is Relative);
            assert(s.subrange(p, q) =~= "relative".spec_bytes());
        }
    }
}

proof fn lemma_display_at_word(s: Seq<u8>, p: int)
    ensures
        display_at(s, p) matches Ok((q, x)) ==> s.subrange(p, q) == display_word(x),
{
    if let Ok((q, x)) = display_at(s, p) {
        if tag(s, p, "none") is Some {
            assert(x is DisplayNone);
            assert(s.subrange(p, q) =~= "none".spec_bytes());
        } else if tag(s, p, "flex") is Some {
            assert(x is Flex);
            assert(s.subrange(p, q) =~= "flex".spec_bytes());
        } else if tag(s, p, "block") is Some {
            assert(x is Block);
            assert(s.subrange(p, q) =~= "block".spec_bytes());
        } else if tag(s, p, "grid") is Some {
            assert(x is Grid);
            assert(s.subrange(p, q) =~= "grid".spec_bytes());
        }
    }
}

proof fn lemma_direction_at_word(s: Seq<u8>, p: int)
    ensures
        direction_at(s, p) matches Ok((q, x)) ==> s.subrange(p, q) == direction_word(x),
{
    if let Ok((q, x)) = direction_at(s, p) {
        if tag(s, p, "inherit") is Some {
            assert(x is Inherit);
            assert(s.subrange(p, q) =~= "inherit".spec_bytes());
        } else if tag(s, p, "left_to_right") is Some {
            assert(x is LeftToRight);
            assert(s.subrange(p, q) =~= "left_to_right".spec_bytes());
        } else if tag(s, p, "right_to_left") is Some {
            assert(x is RightToLeft);
            assert(s.subrange(p, q) =~= "right_to_left".spec_bytes());
        }
    }
}

proof fn lemma_overflow_axis_at_word(s: Seq<u8>, p: int)
    ensures
        overflow_axis_at(s, p) matches Ok((q, x)) ==> s.subrange(p, q) == overflow_axis_word(x),
{
    if let Ok((q, x)) = overflow_axis_at(s, p) {
        if tag(s, p, "visible") is Some {
            assert(x is Visible);
            assert(s.subrange(p, q) =~= "visible".spec_bytes());
        } else if tag(s, p, "hidden") is Some {
            assert(x is Hidden);
            assert(s.subrange(p, q) =~= "hidden".spec_bytes());
        } else if tag(s, p, "clip") is Some {
            assert(x is Clip);
            assert(s.subrange(p, q) =~= "clip".spec_bytes());
        }
    }
}

proof fn lemma_align_items_at_word(s: Seq<u8>, p: int)
    ensures
        align_items_at(s, p) matches Ok((q, x)) ==> s.subrange(p, q) == align_items_word(x),
{
    if let Ok((q, x)) = align_items_at(s, p) {
        if tag(s, p, "default") is Some {
            assert(x is Default);
            assert(s.subrange(p, q) =~= "default".spec_bytes());
        } else if tag(s, p, "center") is Some {
            assert(x is Center);
            assert(s.subrange(p, q) =~= "center".spec_bytes());
        } else if tag(s, p, "start") is Some {
            assert(x is Start);
            assert(s.subrange(p, q) =~= "start".spec_bytes());
        } else if tag(s, p, "flex_end") is Some {
            assert(x is FlexEnd);
            assert(s.subrange(p, q) =~= "flex_end".spec_bytes());
        } else if tag(s, p, "stretch") is Some {
            assert(x is Stretch);
            assert(s.subrange(p, q) =~= "stretch".spec_bytes());
        } else if tag(s, p, "end") is Some {
            assert(x is End);
            assert(s.subrange(p, q) =~= "end".spec_bytes());
        } else if tag(s, p, "baseline") is Some {
            assert(x is Baseline);
            assert(s.subrange(p, q) =~= "baseline".spec_bytes());
        } else if tag(s, p, "flex_start") is Some {
            assert(x is FlexStart);
            assert(s.subrange(p, q) =~= "flex_start".spec_bytes());
        }
    }
}

proof fn lemma_align_content_at_word(s: Seq<u8>, p: int)
    ensures
        align_content_at(s, p) matches Ok((q, x)) ==> s.subrange(p, q) == align_content_word(x),
{
    if let Ok((q, x)) = align_content_at(s, p) {
        if tag(s, p, "center") is Some {
            assert(x is Center);
            assert(s.subrange(p, q) =~= "center".spec_bytes());
        } else if tag(s, p, "start") is Some {
            assert(x is Start);
            assert(s.subrange(p, q) =~= "start".spec_bytes());
        } else if tag(s, p, "flex_end") is Some {
            assert(x is FlexEnd);
            assert(s.subrange(p, q) =~= "flex_end".spec_bytes());
        } else if tag(s, p, "stretch") is Some {
            assert(x is Stretch);
            assert(s.subrange(p, q) =~= "stretch".spec_bytes());
        } else if tag(s, p, "end") is Some {
            assert(x is End);
            assert(s.subrange(p, q) =~= "end".spec_bytes());
        } else if tag(s, p, "space_evenly") is Some {
            assert(x is SpaceEvenly);
            assert(s.subrange(p, q) =~= "space_evenly".spec_bytes());
        } else if tag(s, p, "space_around") is Some {
            assert(x is SpaceAround);
            assert(s.subrange(p, q) =~= "space_around".spec_bytes());
        } else if tag(s, p, "space_between") is Some {
            assert(x is SpaceBetween);
            assert(s.subrange(p, q) =~= "space_between".spec_bytes());
        } else if tag(s, p, "flex_start") is Some {
            assert(x is FlexStart);
            assert(s.subrange(p, q) =~= "flex_start".spec_bytes());
        }
    }
}

proof fn lemma_align_self_at_word(s: Seq<u8>, p: int)
    ensures
        align_self_at(s, p) matches Ok((q, x)) ==> s.subrange(p, q) == align_self_word(x),
{
    if let Ok((q, x)) = align_self_at(s, p) {
        if tag(s, p, "auto") is Some {
            assert(x is Auto);
            assert(s.subrange(p, q) =~= "auto".spec_bytes());
        } else if tag(s, p, "center") is Some {
            assert(x is Center);
            assert(s.subrange(p, q) =~= "center".spec_bytes());
        } else if tag(s, p, "start") is Some {
            assert(x is Start);
            assert(s.subrange(p, q) =~= "start".spec_bytes());
        } else if tag(s, p, "flex_end") is Some {
            assert(x is FlexEnd);
            assert(s.subrange(p, q) =~= "flex_end".spec_bytes());
        } else if tag(s, p, "stretch") is Some {
            assert(x is Stretch);
            assert(s.subrange(p, q) =~= "stretch".spec_bytes());
        } else if tag(s, p, "end") is Some {
            assert(x is End);
            assert(s.subrange(p, q) =~= "end".spec_bytes());
        } else if tag(s, p, "flex_start") is Some {
            assert(x is FlexStart);
            assert(s.subrange(p, q) =~= "flex_start".spec_bytes());
        }
    }
}

proof fn lemma_justify_items_at_word(s: Seq<u8>, p: int)
    ensures
        justify_items_at(s, p) matches Ok((q, x)) ==> s.subrange(p, q) == justify_items_word(x),
{
    if let Ok((q, x)) = justify_items_at(s, p) {
        if tag(s, p, "default") is Some {
            assert(x is Default);
            assert(s.subrange(p, q) =~= "default".spec_bytes());
        } else if tag(s, p, "center") is Some {
            assert(x is Center);
            assert(s.subrange(p, q) =~= "center".spec_bytes());
        } else if tag(s, p, "start") is Some {
            assert(x is Start);
            assert(s.subrange(p, q) =~= "start".spec_bytes());
        } else if tag(s, p, "stretch") is Some {
            assert(x is Stretch);
            assert(s.subrange(p, q) =~= "stretch".spec_bytes());
        } else if tag(s, p, "end") is Some {
            assert(x is End);
            assert(s.subrange(p, q) =~= "end".spec_bytes());
        } else if tag(s, p, "baseline") is Some {
            assert(x is Baseline);
            assert(s.subrange(p, q) =~= "baseline".spec_bytes());
        }
    }
}

proof fn lemma_justify_content_at_word(s: Seq<u8>, p: int)
    ensures
        justify_content_at(s, p) matches Ok((q, x)) ==> s.subrange(p, q) == justify_content_word(x),
{
    if let Ok((q, x)) = justify_content_at(s, p) {
        if tag(s, p, "center") is Some {
            assert(x is Center);
            assert(s.subrange(p, q) =~= "center".spec_bytes());
        } else if tag(s, p, "start") is Some {
            assert(x is Start);
            assert(s.subrange(p, q) =~= "start".spec_bytes());
        } else if tag(s, p, "flex_end") is Some {
            assert(x is FlexEnd);
            assert(s.subrange(p, q) =~= "flex_end".spec_bytes());
        } else if tag(s, p, "stretch") is Some {
            assert(x is Stretch);
            assert(s.subrange(p, q) =~= "stretch".spec_bytes());
        } else if tag(s, p, "end") is Some {
            assert(x is End);
            assert(s.subrange(p, q) =~= "end".spec_bytes());
        } else if tag(s, p, "space_evenly") is Some {
            assert(x is SpaceEvenly);
            assert(s.subrange(p, q) =~= "space_evenly".spec_bytes());
        } else if tag(s, p, "space_around") is Some {
            assert(x is SpaceAround);
            assert(s.subrange(p, q) =~= "space_around".spec_bytes());
        } else if tag(s, p, "space_between") is Some {
            assert(x is SpaceBetween);
            assert(s.subrange(p, q) =~= "space_between".spec_bytes());
        } else if tag(s, p, "flex_start") is Some {
            assert(x is FlexStart);
            assert(s.subrange(p, q) =~= "flex_start".spec_bytes());
        }
    }
}

proof fn lemma_justify_self_at_word(s: Seq<u8>, p: int)
    ensures
        justify_self_at(s, p) matches Ok((q, x)) ==> s.subrange(p, q) == justify_self_word(x),
{
    if let Ok((q, x)) = justify_self_at(s, p) {
        if tag(s, p, "auto") is Some {
            assert(x is Auto);
            assert(s.subrange(p, q) =~= "auto".spec_bytes());
        } else if tag(s, p, "center") is Some {
            assert(x is Center);
            assert(s.subrange(p, q) =~= "center".spec_bytes());
        } else if tag(s, p, "start") is Some {
            assert(x is Start);
            assert(s.subrange(p, q) =~= "start".spec_bytes());
        } else if tag(s, p, "stretch") is Some {
            assert(x is Stretch);
            assert(s.subrange(p, q) =~= "stretch".spec_bytes());
        } else if tag(s, p, "end") is Some {
            assert(x is End);
            assert(s.subrange(p, q) =~= "end".spec_bytes());
        } else if tag(s, p, "baseline") is Some {
            assert(x is Baseline);
            assert(s.subrange(p, q) =~= "baseline".spec_bytes());
        }
    }
}

proof fn lemma_flex_direction_at_word(s: Seq<u8>, p: int)
    ensures
        flex_direction_at(s, p) matches Ok((q, x)) ==> s.subrange(p, q) == flex_direction_word(x) || (x is Row && s.subrange(p, q) == "default".spec_bytes()),
{
    if let Ok((q, x)) = flex_direction_at(s, p) {
        if tag(s, p, "column_reverse") is Some {
            assert(x is ColumnReverse);
            assert(s.subrange(p, q) =~= "column_reverse".spec_bytes());
        } else if tag(s, p, "row_reverse") is Some {
            assert(x is RowReverse);
            assert(s.subrange(p, q) =~= "row_reverse".spec_bytes());
        } else if tag(s, p, "row") is Some {
            assert(x is Row);
            assert(s.subrange(p, q) =~= "row".spec_bytes());
        } else if tag(s, p, "column") is Some {
            assert(x is Column);
            assert(s.subrange(p, q) =~= "column".spec_bytes());
        } else if tag(s, p, "default") is Some {
            assert(x is Row);
            assert(s.subrange(p, q) =~= "default".spec_bytes());
        }
    }
}

proof fn lemma_flex_wrap_at_word(s: Seq<u8>, p: int)
    ensures
        flex_wrap_at(s, p) matches Ok((q, x)) ==> s.subrange(p, q) == flex_wrap_word(x),
{
    if let Ok((q, x)) = flex_wrap_at(s, p) {
        if tag(s, p, "wrap") is Some {
            assert(x is Wrap);
            assert(s.subrange(p, q) =~= "wrap".spec_bytes());
        } else if tag(s, p, "no_wrap") is Some {
            assert(x is NoWrap);
            assert(s.subrange(p, q) =~= "no_wrap".spec_bytes());
        } else if tag(s, p, "wrap_reverse") is Some {
            assert(x is WrapReverse);
            assert(s.subrange(p, q) =~= "wrap_reverse".spec_bytes());
        }
    }
}

proof fn lemma_grid_auto_flow_word_at_word(s: Seq<u8>, p: int)
    ensures
        grid_auto_flow_word_at(s, p) matches Ok((q, x)) ==> s.subrange(p, q) == grid_auto_flow_word(x) || (x is RowDense && s.subrange(p, q) == "dense_row".spec_bytes()) || (x is ColumnDense && s.subrange(p, q) == "dense_column".spec_bytes()),
{
    if let Ok((q, x)) = grid_auto_flow_word_at(s, p) {
        if tag(s, p, "row_dense") is Some {
            assert(x is RowDense);
            assert(s.subrange(p, q) =~= "row_dense".spec_bytes());
        } else if tag(s, p, "dense_row") is Some {
            assert(x is RowDense);
            assert(s.subrange(p, q) =~= "dense_row".spec_bytes());
        } else if tag(s, p, "column_dense") is Some {
            assert(x is ColumnDense);
            assert(s.subrange(p, q) =~= "column_dense".spec_bytes());
        } else if tag(s, p, "dense_column") is Some {
            assert(x is ColumnDense);
            assert(s.subrange(p, q) =~= "dense_column".spec_bytes());
        } else if tag(s, p, "row") is Some {
            assert(x is Row);
            assert(s.subrange(p, q) =~= "row".spec_bytes());
        } else if tag(s, p, "column") is Some {
            assert(x is Column);
            assert(s.subrange(p, q) =~= "column".spec_bytes());
        }
    }
}

/// A keyword value is the value its word names: whatever stands at `p`,
/// a keyword that is read names the value it gives (`flex_end` gives
/// `FlexEnd`, `none` gives no display; `default` names the row direction,
/// and `dense_row`, `dense_column` name the dense grid flows as well).
pub proof fn law_keyword_values_named_by_word(s: Seq<u8>, p: int)
    ensures
        position_type_at(s, p) matches Ok((q, x)) ==> s.subrange(p, q) == position_type_word(x),
        display_at(s, p) matches Ok((q, x)) ==> s.subrange(p, q) == display_word(x),
        direction_at(s, p) matches Ok((q, x)) ==> s.subrange(p, q) == direction_word(x),
        overflow_axis_at(s, p) matches Ok((q, x)) ==> s.subrange(p, q) == overflow_axis_word(x),
        align_items_at(s, p) matches Ok((q, x)) ==> s.subrange(p, q) == align_items_word(x),
        align_content_at(s, p) matches Ok((q, x)) ==> s.subrange(p, q) == align_content_word(x),
        align_self_at(s, p) matches Ok((q, x)) ==> s.subrange(p, q) == align_self_word(x),
        justify_items_at(s, p) matches Ok((q, x)) ==> s.subrange(p, q) == justify_items_word(x),
        justify_content_at(s, p) matches Ok((q, x)) ==> s.subrange(p, q) == justify_content_word(x),
        justify_self_at(s, p) matches Ok((q, x)) ==> s.subrange(p, q) == justify_self_word(x),
        flex_direction_at(s, p) matches Ok((q, x)) ==> s.subrange(p, q) == flex_direction_word(x) || (x is Row && s.subrange(p, q) == "default".spec_bytes()),
        flex_wrap_at(s, p) matches Ok((q, x)) ==> s.subrange(p, q) == flex_wrap_word(x),
        grid_auto_flow_word_at(s, p) matches Ok((q, x)) ==> s.subrange(p, q) == grid_auto_flow_word(x) || (x is RowDense && s.subrange(p, q) == "dense_row".spec_bytes()) || (x is ColumnDense && s.subrange(p, q) == "dense_column".spec_bytes()),
{
    lemma_position_type_at_word(s, p);
    lemma_display_at_word(s, p);
    lemma_direction_at_word(s, p);
    lemma_overflow_axis_at_word(s, p);
    lemma_align_items_at_word(s, p);
    lemma_align_content_at_word(s, p);
    lemma_align_self_at_word(s, p);
    lemma_justify_items_at_word(s, p);
    lemma_justify_content_at_word(s, p);
    lemma_justify_self_at_word(s, p);
    lemma_flex_direction_at_word(s, p);
    lemma_flex_wrap_at_word(s, p);
    lemma_grid_auto_flow_word_at_word(s, p);
}

/// The unit that a length is written with.
pub open spec fn val_unit_word(v: Val) -> Seq<u8> {
    match v {
        Val::Auto => "auto".spec_bytes(),
        Val::Px(_) => "px".spec_bytes(),
        Val::Percent(_) => "%".spec_bytes(),
        Val::Vw(_) => "vw".spec_bytes(),
        Val::Vh(_) => "vh".spec_bytes(),
        Val::VMin(_) => "vmin".spec_bytes(),
        Val::VMax(_) => "vmax".spec_bytes(),
    }
}

/// The number of a length, if it has one.
pub open spec fn val_number(v: Val) -> Option<u32> {
    match v {
        Val::Auto => None,
        Val::Px(x) => Some(x),
        Val::Percent(x) => Some(x),
        Val::Vw(x) => Some(x),
        Val::Vh(x) => Some(x),
        Val::VMin(x) => Some(x),
        Val::VMax(x) => Some(x),
    }
}

/// The unit that a track size is written with.
pub open spec fn track_unit_word(t: GridTrack) -> Seq<u8> {
    match t {
        GridTrack::Auto => "auto".spec_bytes(),
        GridTrack::MinContent => "min".spec_bytes(),
        GridTrack::MaxContent => "max".spec_bytes(),
        GridTrack::Px(_) => "px".spec_bytes(),
        GridTrack::Percent(_) => "%".spec_bytes(),
        GridTrack::Fr(_) => "fr".spec_bytes(),
        GridTrack::Flex(_) => "flex".spec_bytes(),
        GridTrack::Vh(_) => "vh".spec_bytes(),
        GridTrack::Vw(_) => "vw".spec_bytes(),
        GridTrack::VMin(_) => "vmin".spec_bytes(),
        GridTrack::VMax(_) => "vmax".spec_bytes(),
    }
}

/// The number of a track size, if it has one.
pub open spec fn track_number(t: GridTrack) -> Option<u32> {
    match t {
        GridTrack::Px(x) => Some(x),
        GridTrack::Percent(x) => Some(x),
        GridTrack::Fr(x) => Some(x),
        GridTrack::Flex(x) => Some(x),
        GridTrack::Vh(x) => Some(x),
        GridTrack::Vw(x) => Some(x),
        GridTrack::VMin(x) => Some(x),
        GridTrack::VMax(x) => Some(x),
        _ => None,
    }
}

/// The unit after a number decides the kind of a length or track size: the
/// one read holds the number and is the kind that its unit names.
pub proof fn law_unit_names_kind(s: Seq<u8>, q: int, x: u32)
    ensures
        val_unit(s, q, x) matches Ok((e, v)) ==> s.subrange(q, e) == val_unit_word(v) && val_number(v)
            == Some(x),
        track_unit(s, q, x) matches Ok((e, t)) ==> s.subrange(q, e) == track_unit_word(t)
            && track_number(t) == Some(x),
{
    if let Ok((e, v)) = val_unit(s, q, x) {
        assert(s.subrange(q, e) =~= val_unit_word(v));
    }
    if let Ok((e, t)) = track_unit(s, q, x) {
        assert(s.subrange(q, e) =~= track_unit_word(t));
    }
}

} // verus!
