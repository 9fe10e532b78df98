//! Byte-level scanning shared by every parser of the template language.
//!
//! Parsers work on a byte slice and an absolute position in it. A parse
//! step either succeeds with the position where it stopped and a value, or
//! fails. A failure is either an `Error`, after which an enclosing
//! alternative tries its next branch, or a `Failure`, which aborts the whole
//! parse.
use vstd::prelude::*;
use vstd::string::StringSliceAdditionalSpecFns;

verus! {

/// The two ways a parse step can fail.
#[derive(PartialEq, Eq, Structural, Clone, Copy, Debug)]
pub enum Fail {
    /// Recoverable: an enclosing alternative or repetition may go on.
    Error,
    /// Unrecoverable: the whole parse stops.
    Failure,
}

/// The result of a parse step at the level of specifications: the position
/// where the step stopped and what it produced.
pub type SpecRes<T> = Result<(int, T), Fail>;

/// Turns the result of an executable parse step into its specification form.
pub open spec fn lift<T: View>(r: Result<(usize, T), Fail>) -> SpecRes<T::V> {
    match r {
        Ok((n, v)) => Ok((n as int, v@)),
        Err(e) => Err(e),
    }
}

/// The first alternative unless it failed with a recoverable `Error`, in
/// which case the second.
pub open spec fn or_else<T>(a: SpecRes<T>, b: SpecRes<T>) -> SpecRes<T> {
    match a {
        Err(Fail::Error) => b,
        _ => a,
    }
}

/// Classes of bytes that the grammar takes runs of.
#[derive(PartialEq, Eq, Structural, Clone, Copy)]
pub enum ByteClass {
    /// space, tab, carriage return, line feed
    Space,
    /// ASCII letters and `_`
    Snake,
    /// ASCII letters and digits, `%` and `.`
    TrackSize,
    /// ASCII digits and `-`
    DigitOrMinus,
    /// anything but `<`
    NotLt,
    /// anything but `"`
    NotQuote,
    /// anything but `}`
    NotCloseBrace,
    /// anything but `,` and `"`
    ListItem,
    /// anything but `(` and `"`
    PlacementIdent,
    /// ASCII hexadecimal digits
    HexDigit,
}

pub open spec fn is_space(b: u8) -> bool {
    b == 32 || b == 9 || b == 13 || b == 10
}

pub open spec fn is_alpha(b: u8) -> bool {
    (65 <= b && b <= 90) || (97 <= b && b <= 122)
}

pub open spec fn is_digit(b: u8) -> bool {
    48 <= b && b <= 57
}

pub open spec fn is_hex_digit_spec(b: u8) -> bool {
    is_digit(b) || (65 <= b && b <= 70) || (97 <= b && b <= 102)
}

pub open spec fn in_class(c: ByteClass, b: u8) -> bool {
    match c {
        ByteClass::Space => is_space(b),
        ByteClass::Snake => is_alpha(b) || b == 95,
        ByteClass::TrackSize => is_alpha(b) || is_digit(b) || b == 37 || b == 46,
        ByteClass::DigitOrMinus => is_digit(b) || b == 45,
        ByteClass::NotLt => b != 60,
        ByteClass::NotQuote => b != 34,
        ByteClass::NotCloseBrace => b != 125,
        ByteClass::ListItem => b != 44 && b != 34,
        ByteClass::PlacementIdent => b != 40 && b != 34,
        ByteClass::HexDigit => is_hex_digit_spec(b),
    }
}

pub fn byte_in_class(c: ByteClass, b: u8) -> (r: bool)
    ensures
        r == in_class(c, b),
{
    match c {
        ByteClass::Space => b == 32 || b == 9 || b == 13 || b == 10,
        ByteClass::Snake => (65 <= b && b <= 90) || (97 <= b && b <= 122) || b == 95,
        ByteClass::TrackSize => (65 <= b && b <= 90) || (97 <= b && b <= 122) || (48 <= b && b
            <= 57) || b == 37 || b == 46,
        ByteClass::DigitOrMinus => (48 <= b && b <= 57) || b == 45,
        ByteClass::NotLt => b != 60,
        ByteClass::NotQuote => b != 34,
        ByteClass::NotCloseBrace => b != 125,
        ByteClass::ListItem => b != 44 && b != 34,
        ByteClass::PlacementIdent => b != 40 && b != 34,
        ByteClass::HexDigit => (48 <= b && b <= 57) || (65 <= b && b <= 70) || (97 <= b && b
            <= 102),
    }
}

/// The end of the longest run of bytes of class `c` that starts at `p`.
pub open spec fn scan(s: Seq<u8>, p: int, c: ByteClass) -> int
    decreases s.len() - p,
{
    if 0 <= p < s.len() && in_class(c, s[p]) {
        scan(s, p + 1, c)
    } else {
        p
    }
}

/// The position after the white space that starts at `p`.
pub open spec fn spaces(s: Seq<u8>, p: int) -> int {
    scan(s, p, ByteClass::Space)
}

pub proof fn lemma_scan(s: Seq<u8>, p: int, c: ByteClass)
    requires
        0 <= p <= s.len(),
    ensures
        p <= scan(s, p, c) <= s.len(),
        forall|i: int| p <= i < scan(s, p, c) ==> in_class(c, #[trigger] s[i]),
        scan(s, p, c) < s.len() ==> !in_class(c, s[scan(s, p, c)]),
    decreases s.len() - p,
{
    if p < s.len() && in_class(c, s[p]) {
        lemma_scan(s, p + 1, c);
    }
}

/// The end of the longest run of bytes of class `c` that starts at `pos`.
pub fn scan_class(input: &[u8], pos: usize, c: ByteClass) -> (q: usize)
    requires
        pos <= input@.len(),
    ensures
        q as int == scan(input@, pos as int, c),
        pos <= q <= input@.len(),
{
    let mut i = pos;
    while i < input.len() && byte_in_class(c, input[i])
        invariant
            pos <= i <= input@.len(),
            scan(input@, i as int, c) == scan(input@, pos as int, c),
        decreases input@.len() - i,
    {
        i = i + 1;
    }
    i
}

/// The position after the white space that starts at `pos`.
pub fn skip_spaces(input: &[u8], pos: usize) -> (q: usize)
    requires
        pos <= input@.len(),
    ensures
        q as int == spaces(input@, pos as int),
        pos <= q <= input@.len(),
{
    scan_class(input, pos, ByteClass::Space)
}

/// The bytes of `t` stand in `s` at position `p`.
pub open spec fn has_tag(s: Seq<u8>, p: int, t: Seq<u8>) -> bool {
    0 <= p && p + t.len() <= s.len() && s.subrange(p, p + t.len()) =~= t
}

/// Whether the bytes of `t` stand in `input` at position `pos`.
pub fn tag_at(input: &[u8], pos: usize, t: &str) -> (r: bool)
    requires
        pos <= input@.len(),
    ensures
        r == has_tag(input@, pos as int, t.spec_bytes()),
{
    let tb = t.as_bytes();
    if tb.len() > input.len() - pos {
        return false;
    }
    let mut i: usize = 0;
    while i < tb.len()
        invariant
            0 <= i <= tb@.len(),
            pos + tb@.len() <= input@.len(),
            tb@.len() == tb.len(),
            input@.len() == input.len(),
            tb@ == t.spec_bytes(),
            forall|j: int| 0 <= j < i ==> input@[pos + j] == tb@[j],
        decreases tb@.len() - i,
    {
        if input[pos + i] != tb[i] {
            assert(input@.subrange(pos as int, pos + tb@.len())[i as int] != tb@[i as int]);
            return false;
        }
        i = i + 1;
    }
    assert(input@.subrange(pos as int, pos + tb@.len()) =~= tb@);
    true
}

/// Whether the bytes of `a` are those of `t`.
pub fn bytes_eq(a: &[u8], t: &str) -> (r: bool)
    ensures
        r == (a@ =~= t.spec_bytes()),
{
    let tb = t.as_bytes();
    if a.len() != tb.len() {
        return false;
    }
    let r = tag_at(a, 0, t);
    assert(a@.subrange(0, a@.len() as int) =~= a@);
    r
}

/// Two optional byte strings are equal.
pub fn opt_bytes_eq(a: Option<&[u8]>, t: &str) -> (r: bool)
    ensures
        r == (a matches Some(x) && x@ =~= t.spec_bytes()),
{
    match a {
        Some(x) => bytes_eq(x, t),
        None => false,
    }
}

/// The first position at or after `p` where the bytes of `t` stand, if any.
pub open spec fn find(s: Seq<u8>, p: int, t: Seq<u8>) -> Option<int>
    decreases s.len() - p,
{
    if p < 0 || p + t.len() > s.len() {
        None
    } else if has_tag(s, p, t) {
        Some(p)
    } else {
        find(s, p + 1, t)
    }
}

pub proof fn lemma_find(s: Seq<u8>, p: int, t: Seq<u8>)
    requires
        0 <= p,
    ensures
        find(s, p, t) matches Some(q) ==> p <= q && q + t.len() <= s.len() && has_tag(s, q, t),
    decreases s.len() - p,
{
    if !(p + t.len() > s.len()) && !has_tag(s, p, t) {
        lemma_find(s, p + 1, t);
    }
}

/// The first position at or after `pos` where the bytes of `t` stand, if any.
pub fn find_tag(input: &[u8], pos: usize, t: &str) -> (r: Option<usize>)
    requires
        pos <= input@.len(),
    ensures
        r matches Some(q) ==> find(input@, pos as int, t.spec_bytes()) == Some(q as int),
        r is None ==> find(input@, pos as int, t.spec_bytes()) is None,
        r matches Some(q) ==> pos <= q <= input@.len(),
{
    let tl = t.as_bytes().len();
    let mut i = pos;
    while i <= input.len() && tl <= input.len() - i
        invariant
            pos <= i,
            i <= input@.len() + 1,
            tl == t.spec_bytes().len(),
            find(input@, i as int, t.spec_bytes()) == find(input@, pos as int, t.spec_bytes()),
        decreases input@.len() + 1 - i,
    {
        if tag_at(input, i, t) {
            return Some(i);
        }
        i = i + 1;
    }
    None
}

} // verus!

verus! {

/// The position after the bytes of `t` if they stand at `p`.
pub open spec fn tag(s: Seq<u8>, p: int, t: &str) -> Option<int> {
    if has_tag(s, p, t.spec_bytes()) {
        Some(p + t.spec_bytes().len())
    } else {
        None
    }
}

/// The position after the bytes of `t` if they stand at `pos`.
pub fn tag_end(input: &[u8], pos: usize, t: &str) -> (r: Option<usize>)
    requires
        pos <= input@.len(),
    ensures
        r matches Some(q) ==> tag(input@, pos as int, t) == Some(q as int) && pos <= q
            <= input@.len(),
        r is None ==> tag(input@, pos as int, t) is None,
{
    if tag_at(input, pos, t) {
        let b = t.as_bytes();
        let n = b.len();
        assert(n == t.spec_bytes().len());
        assert(has_tag(input@, pos as int, t.spec_bytes()));
        assert(input@.len() == input.len());
        Some(pos + n)
    } else {
        None
    }
}

} // verus!
