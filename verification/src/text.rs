//! Text taken from template bytes.
use vstd::prelude::*;
use vstd::utf8::{decode_utf8, valid_utf8};

verus! {

/// What `String::from_utf8_lossy` makes of `bytes`.
pub uninterp spec fn lossy_utf8(bytes: Seq<u8>) -> Seq<char>;

/// Calls `String::from_utf8_lossy` on `bytes` and owns the result.
///
/// Trusted: the characters are named by `lossy_utf8`; besides that the
/// contract claims what the documentation of `from_utf8_lossy` says, that
/// valid UTF-8 comes back as the text it encodes.
#[verifier::external_body]
pub fn lossy_string(bytes: &[u8]) -> (s: String)
    ensures
        s@ == lossy_utf8(bytes@),
        valid_utf8(bytes@) ==> s@ == decode_utf8(bytes@),
{
    String::from_utf8_lossy(bytes).to_string()
}

/// `lossy_string` of optional bytes.
pub fn lossy_opt(bytes: Option<&[u8]>) -> (s: Option<String>)
    ensures
        s matches Some(t) ==> bytes matches Some(b) && t@ == lossy_utf8(b@),
        s is None ==> bytes is None,
{
    match bytes {
        Some(b) => Some(lossy_string(b)),
        None => None,
    }
}

/// Bytes below 128 are valid UTF-8.
pub proof fn lemma_ascii_valid_utf8(s: Seq<u8>)
    requires
        forall|i: int| 0 <= i < s.len() ==> #[trigger] s[i] < 128,
    ensures
        valid_utf8(s),
    decreases s.len(),
{
    if s.len() > 0 {
        let rest = s.subrange(1, s.len() as int);
        assert(vstd::utf8::pop_first_scalar(s) =~= rest);
        assert forall|i: int| 0 <= i < rest.len() implies #[trigger] rest[i] < 128 by {
            assert(rest[i] == s[i + 1]);
        }
        lemma_ascii_valid_utf8(rest);
    }
}

/// Appends `c` to `s` with `String::push`.
///
/// Trusted: the contract claims what the documentation of `String::push`
/// says, that the character is added at the end.
#[verifier::external_body]
pub fn push_char(s: &mut String, c: char)
    ensures
        final(s)@ == old(s)@.push(c),
{
    s.push(c);
}

/// Appends `t` to `s` with `String::push_str`.
///
/// Trusted: the contract claims what the documentation of `String::push_str`
/// says, that the text is added at the end.
#[verifier::external_body]
pub fn push_text(s: &mut String, t: &str)
    ensures
        final(s)@ == old(s)@ + t@,
{
    s.push_str(t);
}

/// The characters of `s`, in order.
pub fn chars_of(s: &str) -> (r: Vec<char>)
    ensures
        r@ == s@,
{
    let mut r: Vec<char> = Vec::new();
    for c in it: s.chars()
        invariant
            r@ == it.seq().take(it.index() as int),
    {
        r.push(c);
    }
    r
}

/// Calls `std::str::from_utf8` on `bytes` and owns the text.
///
/// Trusted: the contract claims what the documentation of `from_utf8` says:
/// it succeeds exactly on valid UTF-8, with the text that the bytes encode.
#[verifier::external_body]
pub fn utf8_text(bytes: &[u8]) -> (r: Option<String>)
    ensures
        r is Some <==> valid_utf8(bytes@),
        r matches Some(s) ==> s@ == decode_utf8(bytes@),
{
    match std::str::from_utf8(bytes) {
        Ok(s) => Some(s.to_string()),
        Err(_) => None,
    }
}

/// The text that `bytes` encode, or nothing where they are not valid UTF-8.
pub open spec fn utf8_or_empty(bytes: Seq<u8>) -> Seq<char> {
    if valid_utf8(bytes) {
        decode_utf8(bytes)
    } else {
        Seq::empty()
    }
}

/// The text that `bytes` encode, or the empty text where they are not
/// valid UTF-8.
pub fn text_or_empty(bytes: &[u8]) -> (r: String)
    ensures
        r@ == utf8_or_empty(bytes@),
{
    match utf8_text(bytes) {
        Some(s) => s,
        None => String::new(),
    }
}

} // verus!
