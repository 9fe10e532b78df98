//! Styles written as plain markup attributes: `height`, `width`, `padding`,
//! `margin`, `border`, `background`, `border_color` and `border_radius`,
//! under an optional `hover` or `active` prefix.
use crate::attribute::{style_name, SpecStyleAttr, StyleAttr};
use crate::text::{text_or_empty, utf8_or_empty};
use crate::values::{color_at, parse_color, parse_ui_rect, parse_val, ui_rect_at, val_at};
use vstd::prelude::*;
use vstd::string::StringSliceAdditionalSpecFns;

verus! {

/// Why a markup attribute is no style: an unknown name, or a value that is
/// no length, no rectangle or no color. Each holds the value's text (empty
/// where it is not valid UTF-8).
#[derive(Debug, Clone, PartialEq)]
pub enum AttributeError {
    UnkownToken(String),
    FailedToParseVal(String),
    FailedToParseRect(String),
    FailedToParseColor(String),
}

/// A reason as a mathematical value.
pub enum SpecAttributeError {
    UnkownToken(Seq<char>),
    FailedToParseVal(Seq<char>),
    FailedToParseRect(Seq<char>),
    FailedToParseColor(Seq<char>),
}

impl View for AttributeError {
    type V = SpecAttributeError;

    open spec fn view(&self) -> SpecAttributeError {
        match self {
            AttributeError::UnkownToken(s) => SpecAttributeError::UnkownToken(s@),
            AttributeError::FailedToParseVal(s) => SpecAttributeError::FailedToParseVal(s@),
            AttributeError::FailedToParseRect(s) => SpecAttributeError::FailedToParseRect(s@),
            AttributeError::FailedToParseColor(s) => SpecAttributeError::FailedToParseColor(s@),
        }
    }
}

/// The length at the start of `v`, or why there is none.
pub open spec fn length_of(v: Seq<u8>) -> Result<crate::values::Val, SpecAttributeError> {
    match val_at(v, 0) {
        Ok((_, x)) => Ok(x),
        Err(_) => Err(SpecAttributeError::FailedToParseVal(utf8_or_empty(v))),
    }
}

/// The rectangle at the start of `v`, or why there is none.
pub open spec fn rect_of(v: Seq<u8>) -> Result<crate::values::UiRect, SpecAttributeError> {
    match ui_rect_at(v, 0) {
        Ok((_, x)) => Ok(x),
        Err(_) => Err(SpecAttributeError::FailedToParseRect(utf8_or_empty(v))),
    }
}

/// The color at the start of `v`, or why there is none.
pub open spec fn color_of(v: Seq<u8>) -> Result<crate::values::Color, SpecAttributeError> {
    match color_at(v, 0) {
        Ok((_, x)) => Ok(x),
        Err(_) => Err(SpecAttributeError::FailedToParseColor(utf8_or_empty(v))),
    }
}

/// Applies `f` to a success.
pub open spec fn map_ok<T>(r: Result<T, SpecAttributeError>, f: spec_fn(T) -> SpecStyleAttr) -> Result<
    SpecStyleAttr,
    SpecAttributeError,
> {
    match r {
        Ok(x) => Ok(f(x)),
        Err(e) => Err(e),
    }
}

/// The style that the attribute `key="v"` sets, without its prefix.
pub open spec fn plain_style_of(key: Seq<u8>, v: Seq<u8>) -> Result<SpecStyleAttr, SpecAttributeError> {
    if key == "height".spec_bytes() {
        map_ok(length_of(v), |x| SpecStyleAttr::Height(x))
    } else if key == "width".spec_bytes() {
        map_ok(length_of(v), |x| SpecStyleAttr::Width(x))
    } else if key == "padding".spec_bytes() {
        map_ok(rect_of(v), |x| SpecStyleAttr::Padding(x))
    } else if key == "margin".spec_bytes() {
        map_ok(rect_of(v), |x| SpecStyleAttr::Margin(x))
    } else if key == "border".spec_bytes() {
        map_ok(rect_of(v), |x| SpecStyleAttr::Border(x))
    } else if key == "background".spec_bytes() {
        map_ok(color_of(v), |x| SpecStyleAttr::Background(x))
    } else if key == "border_color".spec_bytes() {
        map_ok(color_of(v), |x| SpecStyleAttr::BorderColor(x))
    } else if key == "border_radius".spec_bytes() {
        map_ok(rect_of(v), |x| SpecStyleAttr::BorderRadius(x))
    } else {
        Err(SpecAttributeError::UnkownToken(utf8_or_empty(v)))
    }
}

/// Whether `prefix` is one that a style can stand under: none, `hover` or
/// `active`.
pub open spec fn known_prefix(prefix: Option<Seq<u8>>) -> bool {
    match prefix {
        None => true,
        Some(p) => p == "hover".spec_bytes() || p == "active".spec_bytes(),
    }
}

/// The style that the attribute `prefix:key="v"` sets: under `hover` or
/// `active` the style applies in that state.
pub open spec fn xml_style_of(prefix: Option<Seq<u8>>, key: Seq<u8>, v: Seq<u8>) -> Result<
    SpecStyleAttr,
    SpecAttributeError,
> {
    match plain_style_of(key, v) {
        Err(e) => Err(e),
        Ok(s) => match prefix {
            None => Ok(s),
            Some(p) => if p == "hover".spec_bytes() {
                Ok(SpecStyleAttr::Hover(Box::new(s)))
            } else {
                Ok(SpecStyleAttr::Active(Box::new(s)))
            },
        },
    }
}

/// A result as a mathematical value.
pub open spec fn style_result_view(r: Result<StyleAttr, AttributeError>) -> Result<SpecStyleAttr, SpecAttributeError> {
    match r {
        Ok(s) => Ok(s@),
        Err(e) => Err(e@),
    }
}

/// The optional bytes of an optional slice.
pub open spec fn opt_seq(b: Option<&[u8]>) -> Option<Seq<u8>> {
    match b {
        Some(x) => Some(x@),
        None => None,
    }
}

fn length_from(v: &[u8]) -> (r: Result<crate::values::Val, AttributeError>)
    ensures
        match r {
            Ok(x) => length_of(v@) == Ok::<crate::values::Val, SpecAttributeError>(x),
            Err(e) => length_of(v@) == Err::<crate::values::Val, SpecAttributeError>(e@),
        },
{
    match parse_val(v, 0) {
        Ok((_, x)) => Ok(x),
        Err(_) => Err(AttributeError::FailedToParseVal(text_or_empty(v))),
    }
}

fn rect_from(v: &[u8]) -> (r: Result<crate::values::UiRect, AttributeError>)
    ensures
        match r {
            Ok(x) => rect_of(v@) == Ok::<crate::values::UiRect, SpecAttributeError>(x),
            Err(e) => rect_of(v@) == Err::<crate::values::UiRect, SpecAttributeError>(e@),
        },
{
    match parse_ui_rect(v, 0) {
        Ok((_, x)) => Ok(x),
        Err(_) => Err(AttributeError::FailedToParseRect(text_or_empty(v))),
    }
}

fn color_from(v: &[u8]) -> (r: Result<crate::values::Color, AttributeError>)
    ensures
        match r {
            Ok(x) => color_of(v@) == Ok::<crate::values::Color, SpecAttributeError>(x),
            Err(e) => color_of(v@) == Err::<crate::values::Color, SpecAttributeError>(e@),
        },
{
    match parse_color(v, 0) {
        Ok((_, x)) => Ok(x),
        Err(_) => Err(AttributeError::FailedToParseColor(text_or_empty(v))),
    }
}

/// The style that the attribute `key="value"` sets, as `plain_style_of`
/// says.
#[verifier::rlimit(40)]
fn plain_style(key: &[u8], value: &[u8]) -> (r: Result<StyleAttr, AttributeError>)
    ensures
        style_result_view(r) == plain_style_of(key@, value@),
{
    proof {
        reveal_strlit("height");
        reveal_strlit("width");
        reveal_strlit("padding");
        reveal_strlit("margin");
        reveal_strlit("border");
        reveal_strlit("background");
        reveal_strlit("border_color");
        reveal_strlit("border_radius");
    }
    if crate::lex::bytes_eq(key, "height") {
        match length_from(value) {
            Ok(x) => Ok(StyleAttr::Height(x)),
            Err(e) => Err(e),
        }
    } else if crate::lex::bytes_eq(key, "width") {
        match length_from(value) {
            Ok(x) => Ok(StyleAttr::Width(x)),
            Err(e) => Err(e),
        }
    } else if crate::lex::bytes_eq(key, "padding") {
        match rect_from(value) {
            Ok(x) => Ok(StyleAttr::Padding(x)),
            Err(e) => Err(e),
        }
    } else if crate::lex::bytes_eq(key, "margin") {
        match rect_from(value) {
            Ok(x) => Ok(StyleAttr::Margin(x)),
            Err(e) => Err(e),
        }
    } else if crate::lex::bytes_eq(key, "border") {
        match rect_from(value) {
            Ok(x) => Ok(StyleAttr::Border(x)),
            Err(e) => Err(e),
        }
    } else if crate::lex::bytes_eq(key, "background") {
        match color_from(value) {
            Ok(x) => Ok(StyleAttr::Background(x)),
            Err(e) => Err(e),
        }
    } else if crate::lex::bytes_eq(key, "border_color") {
        match color_from(value) {
            Ok(x) => Ok(StyleAttr::BorderColor(x)),
            Err(e) => Err(e),
        }
    } else if crate::lex::bytes_eq(key, "border_radius") {
        match rect_from(value) {
            Ok(x) => Ok(StyleAttr::BorderRadius(x)),
            Err(e) => Err(e),
        }
    } else {
        Err(AttributeError::UnkownToken(text_or_empty(value)))
    }
}

impl StyleAttr {
    /// The style that the markup attribute `prefix:key="value"` sets, as
    /// `xml_style_of` says. A style name may stand under no other prefix
    /// than `hover` and `active`.
    pub fn try_from(prefix: Option<&[u8]>, key: &[u8], value: &[u8]) -> (r: Result<StyleAttr, AttributeError>)
        requires
            plain_style_of(key@, value@) is Ok ==> known_prefix(opt_seq(prefix)),
        ensures
            style_result_view(r) == xml_style_of(opt_seq(prefix), key@, value@),
    {
        proof {
            reveal_strlit("hover");
            reveal_strlit("active");
        }
        let style = match plain_style(key, value) {
            Ok(s) => s,
            Err(e) => return Err(e),
        };
        match prefix {
            None => Ok(style),
            Some(p) => if crate::lex::bytes_eq(p, "hover") {
                Ok(StyleAttr::Hover(Box::new(style)))
            } else {
                Ok(StyleAttr::Active(Box::new(style)))
            },
        }
    }
}

/// The attribute's name decides the style: a markup attribute `key="v"`
/// that reads as a style sets the property whose snake case name is `key`,
/// under the `hover` or `active` condition that its prefix names.
pub proof fn law_markup_style_named_by_key(prefix: Option<Seq<u8>>, key: Seq<u8>, v: Seq<u8>)
    ensures
        plain_style_of(key, v) matches Ok(x) ==> style_name(x) == key,
        xml_style_of(None, key, v) == plain_style_of(key, v),
        plain_style_of(key, v) matches Ok(x) ==> (prefix matches Some(p) && p == "hover".spec_bytes()
            ==> xml_style_of(prefix, key, v) == Ok::<SpecStyleAttr, SpecAttributeError>(
            SpecStyleAttr::Hover(Box::new(x)),
        )),
        plain_style_of(key, v) matches Ok(x) ==> (prefix matches Some(p) && p == "active".spec_bytes()
            ==> xml_style_of(prefix, key, v) == Ok::<SpecStyleAttr, SpecAttributeError>(
            SpecStyleAttr::Active(Box::new(x)),
        )),
{
    reveal_strlit("hover");
    reveal_strlit("active");
    vstd::string::is_ascii_spec_bytes("hover");
    vstd::string::is_ascii_spec_bytes("active");
    assert("hover".spec_bytes() != "active".spec_bytes()) by {
        assert("hover".spec_bytes()[0] != "active".spec_bytes()[0]);
    }
}

} // verus!
