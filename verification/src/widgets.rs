//! The settings of the text input and slider widgets: which characters an
//! input takes, and along which axis a slider moves.
use vstd::prelude::*;

verus! {

/// What `char::is_alphabetic` says of `c`: whether it has the Unicode
/// `Alphabetic` property.
pub uninterp spec fn alphabetic(c: char) -> bool;

/// What `char::is_numeric` says of `c`: whether its Unicode general category
/// is a number category.
pub uninterp spec fn numeric(c: char) -> bool;

/// Calls `char::is_alphabetic`.
///
/// Trusted: the result is named by `alphabetic`, a function of the
/// character alone; nothing more is claimed.
#[verifier::external_body]
fn is_alphabetic(c: char) -> (r: bool)
    ensures
        r == alphabetic(c),
{
    c.is_alphabetic()
}

/// Calls `char::is_numeric`.
///
/// Trusted: the result is named by `numeric`, a function of the character
/// alone; nothing more is claimed.
#[verifier::external_body]
fn is_numeric(c: char) -> (r: bool)
    ensures
        r == numeric(c),
{
    c.is_numeric()
}

/// The ASCII punctuation characters.
pub open spec fn ascii_punctuation(c: char) -> bool {
    ('!' <= c <= '/') || (':' <= c <= '@') || ('[' <= c <= '`') || ('{' <= c <= '~')
}

/// Which characters a text input takes.
#[derive(Debug, Clone, Copy, PartialEq, Eq, Structural)]
pub enum TextFilter {
    NoFilter,
    Text,
    Number,
}

/// Whether the filter `f` lets `c` through, where `is_alpha` and `is_num`
/// say whether `c` is alphabetic and numeric: every character, letters and
/// ASCII punctuation, or numbers and the decimal point.
pub open spec fn filter_accepts_with(f: TextFilter, c: char, is_alpha: bool, is_num: bool) -> bool {
    match f {
        TextFilter::NoFilter => true,
        TextFilter::Text => ascii_punctuation(c) || is_alpha,
        TextFilter::Number => is_num || c == '.',
    }
}

/// Whether the filter `f` lets `c` through.
pub open spec fn filter_accepts(f: TextFilter, c: char) -> bool {
    filter_accepts_with(f, c, alphabetic(c), numeric(c))
}

/// Whether the filter `f` lets `c` through, as `filter_accepts_with` says.
pub fn accepts_with(f: TextFilter, c: char, is_alpha: bool, is_num: bool) -> (r: bool)
    ensures
        r == filter_accepts_with(f, c, is_alpha, is_num),
{
    match f {
        TextFilter::NoFilter => true,
        TextFilter::Text => ('!' <= c && c <= '/') || (':' <= c && c <= '@') || ('[' <= c && c <= '`')
            || ('{' <= c && c <= '~') || is_alpha,
        TextFilter::Number => is_num || c == '.',
    }
}

/// The filter a name selects: `text`, `number`, or none for another name.
pub open spec fn filter_named(value: Seq<char>) -> TextFilter {
    if value == "text"@ {
        TextFilter::Text
    } else if value == "number"@ {
        TextFilter::Number
    } else {
        TextFilter::NoFilter
    }
}

impl Default for TextFilter {
    fn default() -> (r: TextFilter)
        ensures
            r == TextFilter::NoFilter,
    {
        TextFilter::NoFilter
    }
}

impl TextFilter {
    /// Whether this filter lets `c` through, as `filter_accepts` says.
    pub fn apply(&self, c: &char) -> (r: bool)
        ensures
            r == filter_accepts(*self, *c),
    {
        let c = *c;
        match self {
            TextFilter::NoFilter => true,
            TextFilter::Text => accepts_with(TextFilter::Text, c, is_alphabetic(c), false),
            TextFilter::Number => accepts_with(TextFilter::Number, c, false, is_numeric(c)),
        }
    }
}

impl<'a> From<&'a str> for TextFilter {
    fn from(value: &'a str) -> (r: TextFilter) {
        proof {
            reveal_strlit("text");
            reveal_strlit("number");
        }
        if crate::table::str_eq(value, "text") {
            TextFilter::Text
        } else if crate::table::str_eq(value, "number") {
            TextFilter::Number
        } else {
            TextFilter::NoFilter
        }
    }
}

impl<'a> vstd::std_specs::convert::FromSpecImpl<&'a str> for TextFilter {
    open spec fn obeys_from_spec() -> bool {
        true
    }

    open spec fn from_spec(v: &'a str) -> TextFilter {
        filter_named(v@)
    }
}

/// The axis along which a slider moves.
#[derive(Debug, Clone, Copy, PartialEq, Eq, Structural)]
pub enum SliderAxis {
    Horizontal,
    Vertical,
}

/// The axis a name selects: vertical for `y`, horizontal for any other.
pub open spec fn axis_named(value: Seq<char>) -> SliderAxis {
    if value == "y"@ {
        SliderAxis::Vertical
    } else {
        SliderAxis::Horizontal
    }
}

impl Default for SliderAxis {
    fn default() -> (r: SliderAxis)
        ensures
            r == SliderAxis::Horizontal,
    {
        SliderAxis::Horizontal
    }
}

impl<'a> From<&'a str> for SliderAxis {
    fn from(value: &'a str) -> (r: SliderAxis) {
        proof {
            reveal_strlit("y");
        }
        if crate::table::str_eq(value, "y") {
            SliderAxis::Vertical
        } else {
            SliderAxis::Horizontal
        }
    }
}

impl<'a> vstd::std_specs::convert::FromSpecImpl<&'a str> for SliderAxis {
    open spec fn obeys_from_spec() -> bool {
        true
    }

    open spec fn from_spec(v: &'a str) -> SliderAxis {
        axis_named(v@)
    }
}

} // verus!
