//! Where a piece of a source text stands: its line number, and the rest of
//! its line before and after it. Positions are byte offsets into the source.
use vstd::prelude::*;

verus! {

/// The line feed byte.
pub open spec fn is_newline(c: u8) -> bool {
    c == 10
}

/// The number of line feeds in `s`.
pub open spec fn newlines(s: Seq<u8>) -> nat
    decreases s.len(),
{
    if s.len() == 0 {
        0
    } else {
        newlines(s.drop_last()) + if is_newline(s.last()) { 1nat } else { 0nat }
    }
}

/// The line number, counted from one, of the byte at `p`.
pub open spec fn line_number(s: Seq<u8>, p: int) -> nat {
    newlines(s.take(p)) + 1
}

/// Where the line that holds position `p` begins: just after the last line
/// feed before `p`, or at zero.
pub open spec fn line_start(s: Seq<u8>, p: int) -> int
    decreases p,
{
    if p <= 0 {
        0
    } else if is_newline(s[p - 1]) {
        p
    } else {
        line_start(s, p - 1)
    }
}

/// Where the line that holds position `p` ends: at the first line feed at or
/// after `p`, or at the end of `s`.
pub open spec fn line_end(s: Seq<u8>, p: int) -> int
    decreases s.len() - p,
{
    if p >= s.len() {
        s.len() as int
    } else if is_newline(s[p]) {
        p
    } else {
        line_end(s, p + 1)
    }
}

/// Whether no line feed stands in `s` from `a` up to `b`.
pub open spec fn no_newline_in(s: Seq<u8>, a: int, b: int) -> bool {
    forall|i: int| a <= i < b ==> !is_newline(s[i])
}

proof fn lemma_line_start_bounds(s: Seq<u8>, p: int)
    requires
        0 <= p <= s.len(),
    ensures
        0 <= line_start(s, p) <= p,
        no_newline_in(s, line_start(s, p), p),
    decreases p,
{
    if p > 0 && !is_newline(s[p - 1]) {
        lemma_line_start_bounds(s, p - 1);
    }
}

proof fn lemma_line_end_bounds(s: Seq<u8>, p: int)
    requires
        0 <= p <= s.len(),
    ensures
        p <= line_end(s, p) <= s.len(),
        no_newline_in(s, p, line_end(s, p)),
        line_end(s, p) < s.len() ==> is_newline(s[line_end(s, p)]),
    decreases s.len() - p,
{
    if p < s.len() && !is_newline(s[p]) {
        lemma_line_end_bounds(s, p + 1);
    }
}

/// The number of line feeds in the first `n` bytes of `source`.
fn count_newlines(source: &[u8], n: usize) -> (r: usize)
    requires
        n <= source.len(),
    ensures
        r == newlines(source@.take(n as int)),
{
    let mut i: usize = 0;
    let mut count: usize = 0;
    while i < n
        invariant
            i <= n <= source.len(),
            count == newlines(source@.take(i as int)),
            count <= i,
        decreases n - i,
    {
        assert(source@.take(i as int + 1).drop_last() =~= source@.take(i as int));
        if source[i] == 10 {
            count = count + 1;
        }
        i = i + 1;
    }
    count
}

/// The line number, counted from one, of the byte at `start` in `source`.
pub fn get_line_num(source: &[u8], start: usize) -> (r: u32)
    requires
        start <= source.len(),
        newlines(source@.take(start as int)) < u32::MAX,
    ensures
        r == line_number(source@, start as int),
{
    let count = count_newlines(source, start);
    count as u32 + 1
}

/// For the piece of `source` that begins at `start` and is `len` bytes
/// long, and stands within one line: the part of its line before it, the
/// part after it, and its line number counted from one.
pub fn get_line_parts_and_num(source: &[u8], start: usize, len: usize) -> (r: (&[u8], &[u8], u32))
    requires
        start + len <= source.len(),
        no_newline_in(source@, start as int, start + len),
        newlines(source@.take(start as int)) < u32::MAX,
    ensures
        r.0@ == source@.subrange(line_start(source@, start as int), start as int),
        r.1@ == source@.subrange(start + len, line_end(source@, start as int)),
        r.2 == line_number(source@, start as int),
{
    let mut line_begin: usize = start;
    while line_begin > 0 && source[line_begin - 1] != 10
        invariant
            line_begin <= start <= source.len(),
            line_start(source@, line_begin as int) == line_start(source@, start as int),
        decreases line_begin,
    {
        line_begin = line_begin - 1;
    }
    let mut line_stop: usize = start;
    while line_stop < source.len() && source[line_stop] != 10
        invariant
            start <= line_stop <= source.len(),
            line_end(source@, line_stop as int) == line_end(source@, start as int),
        decreases source.len() - line_stop,
    {
        line_stop = line_stop + 1;
    }
    proof {
        lemma_line_end_bounds(source@, start as int);
        if line_stop < start + len {
            assert(is_newline(source@[line_stop as int]));
        }
    }
    let first = vstd::slice::slice_subrange(source, line_begin, start);
    let second = vstd::slice::slice_subrange(source, start + len, line_stop);
    let count = count_newlines(source, start);
    (first, second, count as u32 + 1)
}

/// The part of the line before a piece, the piece, and the part after it
/// make up the whole line, which holds no line feed.
pub proof fn law_line_parts(s: Seq<u8>, start: int, len: int)
    requires
        0 <= start,
        0 <= len,
        start + len <= s.len(),
        no_newline_in(s, start, start + len),
    ensures
        s.subrange(line_start(s, start), start) + s.subrange(start, start + len) + s.subrange(
            start + len,
            line_end(s, start),
        ) == s.subrange(line_start(s, start), line_end(s, start)),
        no_newline_in(s, line_start(s, start), line_end(s, start)),
{
    lemma_line_start_bounds(s, start);
    lemma_line_end_bounds(s, start);
    let e = line_end(s, start);
    assert(start + len <= e);
    assert(s.subrange(line_start(s, start), start) + s.subrange(start, start + len) + s.subrange(
        start + len,
        e,
    ) =~= s.subrange(line_start(s, start), e));
}

} // verus!
