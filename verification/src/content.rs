//! Text content with placeholders: each `{key}` in a text is replaced by the
//! property of that name.
use crate::table::{table_get, SpecEntries, StringMap};
use crate::text::{chars_of, push_char, push_text};
use vstd::prelude::*;

verus! {

/// The space characters that may stand after an opening brace: space, tab,
/// carriage return and line feed.
pub open spec fn is_multispace(c: char) -> bool {
    c == ' ' || c == '\t' || c == '\r' || c == '\n'
}

/// The characters with the Unicode `White_Space` property, which
/// `char::is_whitespace` tests.
pub open spec fn is_white_space(c: char) -> bool {
    let u = c as u32;
    (0x09 <= u <= 0x0d) || u == 0x20 || u == 0x85 || u == 0xa0 || u == 0x1680 || (0x2000 <= u
        <= 0x200a) || u == 0x2028 || u == 0x2029 || u == 0x202f || u == 0x205f || u == 0x3000
}

/// Whether `c` is a white space character, as `is_white_space` says.
pub fn is_white_space_char(c: char) -> (r: bool)
    ensures
        r == is_white_space(c),
{
    let u = c as u32;
    (0x09 <= u && u <= 0x0d) || u == 0x20 || u == 0x85 || u == 0xa0 || u == 0x1680 || (0x2000 <= u
        && u <= 0x200a) || u == 0x2028 || u == 0x2029 || u == 0x202f || u == 0x205f || u == 0x3000
}

/// `s` without the white space at its end.
pub open spec fn trim_end(s: Seq<char>) -> Seq<char>
    decreases s.len(),
{
    if s.len() > 0 && is_white_space(s.last()) {
        trim_end(s.drop_last())
    } else {
        s
    }
}

/// The first index at or after `p` where `c` stands.
pub open spec fn find_char(s: Seq<char>, p: int, c: char) -> Option<int>
    decreases s.len() - p,
{
    if p < 0 || p >= s.len() {
        None
    } else if s[p] == c {
        Some(p)
    } else {
        find_char(s, p + 1, c)
    }
}

/// The first index at or after `p` that holds no multispace character.
pub open spec fn skip_multispace(s: Seq<char>, p: int) -> int
    decreases s.len() - p,
{
    if p < 0 || p >= s.len() || !is_multispace(s[p]) {
        p
    } else {
        skip_multispace(s, p + 1)
    }
}

/// The next placeholder at or after `p`: where its opening brace stands,
/// where its key begins (after the spaces that follow the brace) and where
/// its closing brace stands. There is none where no opening brace follows,
/// or no closing brace follows it, or the key between them is empty.
pub open spec fn placeholder_at(s: Seq<char>, p: int) -> Option<(int, int, int)> {
    match find_char(s, p, '{') {
        None => None,
        Some(i) => {
            let k = skip_multispace(s, i + 1);
            match find_char(s, k, '}') {
                Some(m) if m > k => Some((i, k, m)),
                _ => None,
            }
        },
    }
}

/// The text of property `key`, or nothing where there is no such property.
pub open spec fn property_text(defs: SpecEntries, key: Seq<char>) -> Seq<char> {
    match table_get(defs, key) {
        Some(v) => v,
        None => Seq::empty(),
    }
}

/// The text from `p` on with each placeholder replaced by the property
/// named by its key, white space at the key's end left out. From the first
/// place where no placeholder follows, the text stays as it is.
pub open spec fn compile_at(s: Seq<char>, p: int, defs: SpecEntries) -> Seq<char>
    decreases s.len() - p,
{
    if p < 0 || p > s.len() {
        Seq::empty()
    } else {
        match placeholder_at(s, p) {
            None => s.subrange(p, s.len() as int),
            Some((i, k, m)) => if p <= i && i < k && k < m && m < s.len() {
                s.subrange(p, i) + property_text(defs, trim_end(s.subrange(k, m))) + compile_at(
                    s,
                    m + 1,
                    defs,
                )
            } else {
                Seq::empty()
            },
        }
    }
}

/// The whole text with its placeholders replaced.
pub open spec fn compile_text(s: Seq<char>, defs: SpecEntries) -> Seq<char> {
    compile_at(s, 0, defs)
}

proof fn lemma_find_char(s: Seq<char>, p: int, c: char)
    requires
        0 <= p,
    ensures
        find_char(s, p, c) matches Some(i) ==> p <= i < s.len() && s[i] == c && forall|j: int|
            p <= j < i ==> s[j] != c,
        find_char(s, p, c) is None ==> forall|j: int| p <= j < s.len() ==> s[j] != c,
    decreases s.len() - p,
{
    if p < s.len() && s[p] != c {
        lemma_find_char(s, p + 1, c);
    }
}

proof fn lemma_skip_multispace(s: Seq<char>, p: int)
    requires
        0 <= p <= s.len(),
    ensures
        p <= skip_multispace(s, p) <= s.len(),
    decreases s.len() - p,
{
    if p < s.len() && is_multispace(s[p]) {
        lemma_skip_multispace(s, p + 1);
    }
}

/// The first index at or after `p` where `c` stands, as `find_char` says.
fn find_char_exec(s: &Vec<char>, p: usize, c: char) -> (r: Option<usize>)
    requires
        p <= s.len(),
    ensures
        r matches Some(i) ==> find_char(s@, p as int, c) == Some(i as int),
        r is None ==> find_char(s@, p as int, c) is None,
{
    let mut i = p;
    while i < s.len()
        invariant
            p <= i <= s.len(),
            find_char(s@, i as int, c) == find_char(s@, p as int, c),
        decreases s.len() - i,
    {
        if s[i] == c {
            return Some(i);
        }
        i = i + 1;
    }
    None
}

/// The first index at or after `p` that holds no multispace character.
fn skip_multispace_exec(s: &Vec<char>, p: usize) -> (r: usize)
    requires
        p <= s.len(),
    ensures
        r == skip_multispace(s@, p as int),
{
    let mut i = p;
    while i < s.len() && (s[i] == ' ' || s[i] == '\t' || s[i] == '\r' || s[i] == '\n')
        invariant
            p <= i <= s.len(),
            skip_multispace(s@, i as int) == skip_multispace(s@, p as int),
        decreases s.len() - i,
    {
        i = i + 1;
    }
    i
}

/// The key between `k` and `m` without the white space at its end.
fn trimmed_key(s: &Vec<char>, k: usize, m: usize) -> (r: String)
    requires
        k <= m <= s.len(),
    ensures
        r@ == trim_end(s@.subrange(k as int, m as int)),
{
    let mut e = m;
    while e > k && is_white_space_char(s[e - 1])
        invariant
            k <= e <= m <= s.len(),
            trim_end(s@.subrange(k as int, e as int)) == trim_end(s@.subrange(k as int, m as int)),
        decreases e,
    {
        assert(s@.subrange(k as int, e as int).drop_last() =~= s@.subrange(k as int, e - 1));
        e = e - 1;
    }
    let mut key = String::new();
    let mut j = k;
    while j < e
        invariant
            k <= j <= e <= m <= s.len(),
            key@ == s@.subrange(k as int, j as int),
        decreases e - j,
    {
        push_char(&mut key, s[j]);
        assert(s@.subrange(k as int, j + 1) =~= s@.subrange(k as int, j as int).push(s@[j as int]));
        j = j + 1;
    }
    key
}

/// The placeholder at or after `p`, as `placeholder_at` says.
fn next_placeholder(s: &Vec<char>, p: usize) -> (r: Option<(usize, usize, usize)>)
    requires
        p <= s.len(),
    ensures
        r matches Some((i, k, m)) ==> placeholder_at(s@, p as int) == Some((i as int, k as int, m as int))
            && p <= i < k < m < s.len(),
        r is None ==> placeholder_at(s@, p as int) is None,
{
    proof {
        lemma_find_char(s@, p as int, '{');
    }
    match find_char_exec(s, p, '{') {
        None => None,
        Some(i) => {
            proof {
                lemma_skip_multispace(s@, i + 1);
            }
            let k = skip_multispace_exec(s, i + 1);
            proof {
                lemma_find_char(s@, k as int, '}');
            }
            match find_char_exec(s, k, '}') {
                Some(m) => if m > k {
                    Some((i, k, m))
                } else {
                    None
                },
                None => None,
            }
        },
    }
}

/// `input` with each `{key}` replaced by the property named `key` in `defs`
/// (spaces may stand after the opening brace, and white space at the key's
/// end is left out); a key with no property gives nothing. From the first
/// place where no placeholder follows, the text stays as it is.
pub fn compile_content(input: &str, defs: &StringMap) -> (r: String)
    ensures
        r@ == compile_text(input@, defs@),
{
    let s = chars_of(input);
    let mut out = String::new();
    let mut p: usize = 0;
    loop
        invariant
            p <= s.len(),
            s@ == input@,
            out@ + compile_at(s@, p as int, defs@) == compile_text(s@, defs@),
        decreases s.len() - p,
    {
        match next_placeholder(&s, p) {
            None => {
                let ghost before = out@;
                let mut j = p;
                while j < s.len()
                    invariant
                        p <= j <= s.len(),
                        out@ == before + s@.subrange(p as int, j as int),
                    decreases s.len() - j,
                {
                    push_char(&mut out, s[j]);
                    assert(s@.subrange(p as int, j + 1) =~= s@.subrange(p as int, j as int).push(s@[j as int]));
                    j = j + 1;
                }
                assert(out@ =~= before + compile_at(s@, p as int, defs@));
                return out;
            },
            Some((i, k, m)) => {
                let ghost before = out@;
                let mut j = p;
                while j < i
                    invariant
                        p <= j <= i < s.len(),
                        out@ == before + s@.subrange(p as int, j as int),
                    decreases i - j,
                {
                    push_char(&mut out, s[j]);
                    assert(s@.subrange(p as int, j + 1) =~= s@.subrange(p as int, j as int).push(s@[j as int]));
                    j = j + 1;
                }
                let key = trimmed_key(&s, k, m);
                let ghost mid = out@;
                match defs.get(key.as_str()) {
                    Some(v) => push_text(&mut out, v.as_str()),
                    None => {},
                }
                assert(out@ =~= mid + property_text(defs@, trim_end(s@.subrange(k as int, m as int))));
                assert(compile_at(s@, p as int, defs@) =~= s@.subrange(p as int, i as int) + property_text(
                    defs@,
                    trim_end(s@.subrange(k as int, m as int)),
                ) + compile_at(s@, m + 1, defs@));
                p = m + 1;
            },
        }
    }
}

/// A text without an opening brace stays as it is.
pub proof fn law_plain_text_unchanged(s: Seq<char>, defs: SpecEntries)
    requires
        forall|i: int| 0 <= i < s.len() ==> s[i] != '{',
    ensures
        compile_text(s, defs) == s,
{
    lemma_find_char(s, 0, '{');
    if let Some(i) = find_char(s, 0, '{') {
        assert(s[i] == '{');
    }
    assert(s.subrange(0, s.len() as int) =~= s);
}

/// A placeholder `{k}` alone, with a key that starts with no space and holds
/// no closing brace, becomes the text of property `k` (white space at its
/// end left out), or nothing where there is no such property.
pub proof fn law_placeholder_replaced(k: Seq<char>, defs: SpecEntries)
    requires
        k.len() > 0,
        !is_multispace(k[0]),
        forall|i: int| 0 <= i < k.len() ==> k[i] != '}',
    ensures
        compile_text(seq!['{'] + k + seq!['}'], defs) == property_text(defs, trim_end(k)),
{
    let s = seq!['{'] + k + seq!['}'];
    let n = k.len() as int;
    assert(s[0] == '{');
    assert(find_char(s, 0, '{') == Some(0int));
    assert(s[1] == k[0]);
    assert(skip_multispace(s, 1) == 1);
    lemma_find_char(s, 1, '}');
    assert(s[1 + n] == '}');
    if let Some(m) = find_char(s, 1, '}') {
        if m < 1 + n {
            assert(s[m] == k[m - 1]);
        }
    }
    assert(find_char(s, 1, '}') == Some(1 + n));
    assert(s.subrange(1, 1 + n) =~= k);
    assert(find_char(s, n + 2, '{') is None);
    assert(s.subrange(n + 2, n + 2) =~= Seq::<char>::empty());
    assert(compile_at(s, n + 2, defs) =~= Seq::<char>::empty());
    assert(s.subrange(0, 0) =~= Seq::<char>::empty());
    assert(compile_at(s, 0, defs) =~= property_text(defs, trim_end(k)));
}

} // verus!
