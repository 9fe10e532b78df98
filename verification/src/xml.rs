//! The markup: elements with an optional `prefix:`, attributes
//! `prefix:key="value"`, children, text, and `<!-- -->` comments. The tree
//! refers to the source by byte ranges.
use crate::lex::{
    find, find_tag, has_tag, lift, scan, scan_class, skip_spaces, spaces, tag, tag_at, tag_end,
    ByteClass, Fail, SpecRes,
};
use vstd::prelude::*;
use vstd::string::StringSliceAdditionalSpecFns;

verus! {

/// The bytes `start..end` of the source.
#[derive(Clone, Copy, Debug, PartialEq, Eq, Structural)]
pub struct Span {
    pub start: usize,
    pub end: usize,
}

impl View for Span {
    type V = Span;

    open spec fn view(&self) -> Span {
        *self
    }
}

pub open spec fn span(a: int, b: int) -> Span {
    Span { start: a as usize, end: b as usize }
}

/// The bytes of `s` that a span covers.
pub open spec fn span_bytes(s: Seq<u8>, sp: Span) -> Seq<u8> {
    s.subrange(sp.start as int, sp.end as int)
}

/// Comments, each followed by white space, from `p`; where the next one is
/// not closed, it stays.
pub open spec fn comments_at(s: Seq<u8>, p: int) -> int
    decreases s.len() - p,
{
    match tag(s, p, "<!--") {
        None => p,
        Some(a) => match find(s, a, "-->".spec_bytes()) {
            None => p,
            Some(b) => match tag(s, b, "-->") {
                None => p,
                Some(c) => {
                    let d = spaces(s, c);
                    if p < d <= s.len() {
                        comments_at(s, d)
                    } else {
                        p
                    }
                },
            },
        },
    }
}


/// The position after the white space and comments that start at `p`.
pub open spec fn trim_at(s: Seq<u8>, p: int) -> int {
    comments_at(s, spaces(s, p))
}

/// Skips the white space and the comments that start at `pos`.
pub fn trim_comments(input: &[u8], pos: usize) -> (q: usize)
    requires
        pos <= input@.len(),
    ensures
        q as int == trim_at(input@, pos as int),
        pos <= q <= input@.len(),
{
    let mut p = skip_spaces(input, pos);
    loop
        invariant
            pos <= p <= input@.len(),
            comments_at(input@, p as int) == trim_at(input@, pos as int),
        decreases input@.len() - p,
    {
        let a = match tag_end(input, p, "<!--") {
            Some(a) => a,
            None => return p,
        };
        let b = match find_tag(input, a, "-->") {
            Some(b) => b,
            None => return p,
        };
        let c = match tag_end(input, b, "-->") {
            Some(c) => c,
            None => return p,
        };
        let d = skip_spaces(input, c);
        if d <= p {
            return p;
        }
        p = d;
    }
}

/// White space skipped once stays skipped.
proof fn lemma_spaces_idempotent(s: Seq<u8>, p: int)
    requires
        0 <= p <= s.len(),
    ensures
        spaces(s, spaces(s, p)) == spaces(s, p),
{
    crate::lex::lemma_scan(s, p, ByteClass::Space);
}

/// Where comments stop, the white space after them was skipped, and no
/// further comment follows.
proof fn lemma_comments_stop(s: Seq<u8>, p: int)
    requires
        0 <= p <= s.len(),
        spaces(s, p) == p,
    ensures
        p <= comments_at(s, p) <= s.len(),
        spaces(s, comments_at(s, p)) == comments_at(s, p),
        comments_at(s, comments_at(s, p)) == comments_at(s, p),
    decreases s.len() - p,
{
    if let Some(a) = tag(s, p, "<!--") {
        if let Some(b) = find(s, a, "-->".spec_bytes()) {
            if let Some(c) = tag(s, b, "-->") {
                let d = spaces(s, c);
                if p < d <= s.len() {
                    crate::lex::lemma_scan(s, c, ByteClass::Space);
                    lemma_spaces_idempotent(s, c);
                    lemma_comments_stop(s, d);
                }
            }
        }
    }
}

/// Skipping white space and comments a second time moves no further.
pub proof fn law_trim_idempotent(s: Seq<u8>, p: int)
    requires
        0 <= p <= s.len(),
    ensures
        trim_at(s, trim_at(s, p)) == trim_at(s, p),
{
    crate::lex::lemma_scan(s, p, ByteClass::Space);
    lemma_spaces_idempotent(s, p);
    lemma_comments_stop(s, spaces(s, p));
}

/// A run of letters and `_` followed by `:`, if one stands at `p`.
pub open spec fn prefix0_at(s: Seq<u8>, p: int) -> (int, Option<Span>) {
    let a = scan(s, p, ByteClass::Snake);
    match tag(s, a, ":") {
        Some(b) => (b, Some(span(p, a))),
        None => (p, None),
    }
}

/// Reads an optional `prefix:` at `pos`.
pub fn parse_prefix0(input: &[u8], pos: usize) -> (r: (usize, Option<Span>))
    requires
        pos <= input@.len(),
    ensures
        (r.0 as int, r.1) == prefix0_at(input@, pos as int),
        pos <= r.0 <= input@.len(),
        r.1 matches Some(sp) ==> pos <= sp.start <= sp.end <= input@.len(),
{
    let a = scan_class(input, pos, ByteClass::Snake);
    match tag_end(input, a, ":") {
        Some(b) => (b, Some(Span { start: pos, end: a })),
        None => (pos, None),
    }
}

/// An attribute `prefix:key="value"`.
#[derive(Clone, Copy, Debug, PartialEq, Eq, Structural)]
pub struct XmlAttr {
    pub prefix: Option<Span>,
    pub key: Span,
    pub value: Span,
}

impl View for XmlAttr {
    type V = XmlAttr;

    open spec fn view(&self) -> XmlAttr {
        *self
    }
}

/// One attribute after white space and comments: an optional prefix, a key
/// of letters and `_`, `=`, and a non-empty value in double quotes.
pub open spec fn xml_attr_at(s: Seq<u8>, p: int) -> SpecRes<XmlAttr> {
    let (p2, prefix) = prefix0_at(s, trim_at(s, p));
    let k = scan(s, p2, ByteClass::Snake);
    match tag(s, k, "=") {
        None => Err(Fail::Error),
        Some(a) => match tag(s, a, "\"") {
            None => Err(Fail::Error),
            Some(b) => {
                let c = scan(s, b, ByteClass::NotQuote);
                if c == b {
                    Err(Fail::Error)
                } else {
                    match tag(s, c, "\"") {
                        None => Err(Fail::Error),
                        Some(d) => Ok((d, XmlAttr { prefix, key: span(p2, k), value: span(b, c) })),
                    }
                }
            },
        },
    }
}

/// As many attributes as stand one after the other from `p`.
pub open spec fn xml_attrs_at(s: Seq<u8>, p: int) -> SpecRes<Seq<XmlAttr>>
    decreases s.len() - p,
{
    match xml_attr_at(s, p) {
        Err(Fail::Error) => Ok((p, Seq::empty())),
        Err(Fail::Failure) => Err(Fail::Failure),
        Ok((q, a)) => if p < q <= s.len() {
            match xml_attrs_at(s, q) {
                Ok((e, rest)) => Ok((e, seq![a] + rest)),
                Err(e) => Err(e),
            }
        } else {
            Err(Fail::Error)
        },
    }
}

/// Within the source: every span of the attribute lies in `0..len`.
pub open spec fn attr_in(a: XmlAttr, len: int) -> bool {
    &&& (a.prefix matches Some(sp) ==> sp.start <= sp.end <= len)
    &&& a.key.start <= a.key.end <= len
    &&& a.value.start <= a.value.end <= len
}

fn parse_xml_attr_one(input: &[u8], pos: usize) -> (r: Result<(usize, XmlAttr), Fail>)
    requires
        pos <= input@.len(),
    ensures
        lift(r) == xml_attr_at(input@, pos as int),
        r matches Ok((q, a)) ==> pos <= q <= input@.len() && attr_in(a, input@.len() as int),
{
    let (p2, prefix) = parse_prefix0(input, trim_comments(input, pos));
    let k = scan_class(input, p2, ByteClass::Snake);
    let a = match tag_end(input, k, "=") {
        Some(a) => a,
        None => return Err(Fail::Error),
    };
    let b = match tag_end(input, a, "\"") {
        Some(b) => b,
        None => return Err(Fail::Error),
    };
    let c = scan_class(input, b, ByteClass::NotQuote);
    if c == b {
        return Err(Fail::Error);
    }
    match tag_end(input, c, "\"") {
        Some(d) => Ok(
            (d, XmlAttr { prefix, key: Span { start: p2, end: k }, value: Span { start: b, end: c } }),
        ),
        None => Err(Fail::Error),
    }
}

/// Reads as many attributes as stand one after the other from `pos`.
pub fn parse_xml_attr(input: &[u8], pos: usize) -> (r: Result<(usize, Vec<XmlAttr>), Fail>)
    requires
        pos <= input@.len(),
    ensures
        lift(r) == xml_attrs_at(input@, pos as int),
        r matches Ok((q, v)) ==> pos <= q <= input@.len() && forall|i: int|
            0 <= i < v@.len() ==> attr_in(#[trigger] v@[i], input@.len() as int),
{
    let mut attrs: Vec<XmlAttr> = Vec::new();
    let mut p = pos;
    let ghost out: SpecRes<Seq<XmlAttr>> = xml_attrs_at(input@, pos as int);
    loop
        invariant
            pos <= p <= input@.len(),
            out == xml_attrs_at(input@, pos as int),
            forall|i: int| 0 <= i < attrs@.len() ==> attr_in(#[trigger] attrs@[i], input@.len() as int),
            xml_attrs_at(input@, p as int) matches Ok((e, rest)) ==> out == Ok::<
                (int, Seq<XmlAttr>),
                Fail,
            >((e, attrs@ + rest)),
            xml_attrs_at(input@, p as int) is Err ==> out == xml_attrs_at(input@, p as int),
        decreases input@.len() - p,
    {
        match parse_xml_attr_one(input, p) {
            Err(Fail::Error) => {
                assert(attrs@ + Seq::<XmlAttr>::empty() =~= attrs@);
                return Ok((p, attrs));
            },
            Err(Fail::Failure) => return Err(Fail::Failure),
            Ok((q, a)) => {
                if q == p {
                    return Err(Fail::Error);
                }
                proof {
                    if let Ok((e, rest)) = xml_attrs_at(input@, q as int) {
                        assert(attrs@.push(a) + rest =~= attrs@ + (seq![a] + rest));
                    }
                }
                attrs.push(a);
                p = q;
            },
        }
    }
}

} // verus!

verus! {

/// An element of the markup.
pub struct Xml {
    pub prefix: Option<Span>,
    pub name: Span,
    pub value: Option<Span>,
    pub attributes: Vec<XmlAttr>,
    pub children: Vec<Xml>,
}

/// An element of the markup, as a mathematical value.
#[verifier::ext_equal]
pub struct SpecXml {
    pub prefix: Option<Span>,
    pub name: Span,
    pub value: Option<Span>,
    pub attributes: Seq<XmlAttr>,
    pub children: Seq<SpecXml>,
}

/// The value that stands for positions outside a sequence.
pub open spec fn no_xml() -> SpecXml {
    SpecXml {
        prefix: None,
        name: span(0, 0),
        value: None,
        attributes: Seq::empty(),
        children: Seq::empty(),
    }
}

impl View for Xml {
    type V = SpecXml;

    open spec fn view(&self) -> SpecXml
        decreases self,
    {
        SpecXml {
            prefix: self.prefix,
            name: self.name,
            value: self.value,
            attributes: self.attributes@,
            children: Seq::new(
                self.children@.len(),
                |i: int|
                    if 0 <= i < self.children@.len() {
                        self.children@[i]@
                    } else {
                        no_xml()
                    },
            ),
        }
    }
}

/// The views of a sequence of elements.
pub open spec fn xml_views(v: Seq<Xml>) -> Seq<SpecXml> {
    Seq::new(v.len(), |i: int| v[i]@)
}

pub proof fn lemma_xml_view_children(x: Xml)
    ensures
        x@.children =~= xml_views(x.children@),
        x@.attributes == x.attributes@,
        x@.name == x.name,
        x@.prefix == x.prefix,
        x@.value == x.value,
{
    reveal_with_fuel(<Xml as View>::view, 2);
    assert(x@.children.len() == x.children@.len());
    assert forall|i: int| 0 <= i < x.children@.len() implies x@.children[i] == xml_views(
        x.children@,
    )[i] by {}
}

/// An end tag `</prefix:name>`.
pub open spec fn xml_end_at(s: Seq<u8>, p: int) -> SpecRes<(Option<Span>, Span)> {
    match tag(s, p, "</") {
        None => Err(Fail::Error),
        Some(a) => {
            let (b, prefix) = prefix0_at(s, a);
            let c = scan(s, b, ByteClass::Snake);
            match tag(s, c, ">") {
                None => Err(Fail::Error),
                Some(d) => Ok((d, (prefix, span(b, c)))),
            }
        },
    }
}

/// Two optional prefixes cover the same bytes.
pub open spec fn same_prefix(s: Seq<u8>, a: Option<Span>, b: Option<Span>) -> bool {
    match (a, b) {
        (None, None) => true,
        (Some(x), Some(y)) => span_bytes(s, x) =~= span_bytes(s, y),
        _ => false,
    }
}

/// An element at `p`, after white space and comments: `<prefix:name attrs/>`
/// or `<prefix:name attrs>children text</prefix:name>`. An end tag whose
/// name or prefix differ from the start tag's is a `Failure`.
pub open spec fn xml_node_at(s: Seq<u8>, p: int) -> SpecRes<SpecXml>
    decreases s.len() - p, 0int,
{
    let p1 = trim_at(s, p);
    if has_tag(s, p1, "</".spec_bytes()) {
        Err(Fail::Error)
    } else {
        match tag(s, p1, "<") {
            None => Err(Fail::Error),
            Some(a) => {
                let (b, prefix) = prefix0_at(s, a);
                let c = scan(s, b, ByteClass::Snake);
                let name = span(b, c);
                match xml_attrs_at(s, c) {
                    Err(x) => Err(x),
                    Ok((d, attributes)) => {
                        let d1 = spaces(s, d);
                        if let Some(e) = tag(s, d1, "/>") {
                            Ok(
                                (
                                    e,
                                    SpecXml {
                                        prefix,
                                        name,
                                        value: None,
                                        attributes,
                                        children: Seq::empty(),
                                    },
                                ),
                            )
                        } else if let Some(e) = tag(s, d1, ">") {
                            if !(p < e <= s.len()) {
                                Err(Fail::Error)
                            } else {
                                match xml_children_at(s, e) {
                                    Err(x) => Err(x),
                                    Ok((f, children)) => {
                                        let g = trim_at(s, f);
                                        let h = scan(s, g, ByteClass::NotLt);
                                        let value = if g < h {
                                            Some(span(g, h))
                                        } else {
                                            None
                                        };
                                        match xml_end_at(s, h) {
                                            Err(x) => Err(x),
                                            Ok((i, (end_prefix, end_name))) => if span_bytes(
                                                s,
                                                name,
                                            ) =~= span_bytes(s, end_name) && same_prefix(
                                                s,
                                                prefix,
                                                end_prefix,
                                            ) {
                                                Ok(
                                                    (
                                                        i,
                                                        SpecXml {
                                                            prefix,
                                                            name,
                                                            value,
                                                            attributes,
                                                            children,
                                                        },
                                                    ),
                                                )
                                            } else {
                                                Err(Fail::Failure)
                                            },
                                        }
                                    },
                                }
                            }
                        } else {
                            Err(Fail::Error)
                        }
                    },
                }
            },
        }
    }
}

/// As many elements as stand one after the other from `p`.
pub open spec fn xml_children_at(s: Seq<u8>, p: int) -> SpecRes<Seq<SpecXml>>
    decreases s.len() - p, 1int,
{
    match xml_node_at(s, p) {
        Err(Fail::Error) => Ok((p, Seq::empty())),
        Err(Fail::Failure) => Err(Fail::Failure),
        Ok((q, x)) => if p < q <= s.len() {
            match xml_children_at(s, q) {
                Ok((e, rest)) => Ok((e, seq![x] + rest)),
                Err(e) => Err(e),
            }
        } else {
            Err(Fail::Error)
        },
    }
}

fn parse_xml_end(input: &[u8], pos: usize) -> (r: Result<(usize, (Option<Span>, Span)), Fail>)
    requires
        pos <= input@.len(),
    ensures
        r matches Ok((q, v)) ==> xml_end_at(input@, pos as int) == Ok::<
            (int, (Option<Span>, Span)),
            Fail,
        >((q as int, v)) && pos <= q <= input@.len() && v.1.start <= v.1.end <= input@.len() && (
        v.0 matches Some(sp) ==> sp.start <= sp.end <= input@.len()),
        r matches Err(e) ==> xml_end_at(input@, pos as int) == Err::<
            (int, (Option<Span>, Span)),
            Fail,
        >(e),
{
    let a = match tag_end(input, pos, "</") {
        Some(a) => a,
        None => return Err(Fail::Error),
    };
    let (b, prefix) = parse_prefix0(input, a);
    let c = scan_class(input, b, ByteClass::Snake);
    match tag_end(input, c, ">") {
        Some(d) => Ok((d, (prefix, Span { start: b, end: c }))),
        None => Err(Fail::Error),
    }
}

fn span_eq(input: &[u8], a: Span, b: Span) -> (r: bool)
    requires
        a.start <= a.end <= input@.len(),
        b.start <= b.end <= input@.len(),
    ensures
        r == (span_bytes(input@, a) =~= span_bytes(input@, b)),
{
    if a.end - a.start != b.end - b.start {
        return false;
    }
    let mut i: usize = 0;
    while i < a.end - a.start
        invariant
            a.start <= a.end <= input@.len(),
            b.start <= b.end <= input@.len(),
            a.end - a.start == b.end - b.start,
            0 <= i <= a.end - a.start,
            forall|j: int|
                0 <= j < i ==> #[trigger] span_bytes(input@, a)[j] == span_bytes(input@, b)[j],
        decreases a.end - a.start - i,
    {
        if input[a.start + i] != input[b.start + i] {
            assert(span_bytes(input@, a)[i as int] != span_bytes(input@, b)[i as int]);
            return false;
        }
        i = i + 1;
    }
    assert(span_bytes(input@, a) =~= span_bytes(input@, b));
    true
}

fn prefix_eq(input: &[u8], a: Option<Span>, b: Option<Span>) -> (r: bool)
    requires
        a matches Some(x) ==> x.start <= x.end <= input@.len(),
        b matches Some(y) ==> y.start <= y.end <= input@.len(),
    ensures
        r == same_prefix(input@, a, b),
{
    match (a, b) {
        (None, None) => true,
        (Some(x), Some(y)) => span_eq(input, x, y),
        _ => false,
    }
}

/// Every span of the element and of its descendants lies in `0..len`.
pub open spec fn xml_in(x: SpecXml, len: int) -> bool
    decreases x,
{
    &&& (x.prefix matches Some(sp) ==> sp.start <= sp.end <= len)
    &&& x.name.start <= x.name.end <= len
    &&& (x.value matches Some(sp) ==> sp.start <= sp.end <= len)
    &&& forall|i: int| 0 <= i < x.attributes.len() ==> attr_in(#[trigger] x.attributes[i], len)
    &&& forall|i: int| 0 <= i < x.children.len() ==> xml_in(#[trigger] x.children[i], len)
}

/// Reads an element at `pos`, after white space and comments, with all its
/// descendants.
pub fn parse_xml_node(input: &[u8], pos: usize) -> (r: Result<(usize, Xml), Fail>)
    requires
        pos <= input@.len(),
    ensures
        lift(r) == xml_node_at(input@, pos as int),
        r matches Ok((q, x)) ==> pos < q <= input@.len(),
        r matches Ok((q, x)) ==> xml_in(x@, input@.len() as int),
    decreases input@.len() - pos, 0int,
{
    let p1 = trim_comments(input, pos);
    proof {
        reveal_strlit("<");
        vstd::string::is_ascii_spec_bytes("<");
        reveal_strlit(">");
        vstd::string::is_ascii_spec_bytes(">");
    }
    if tag_at(input, p1, "</") {
        return Err(Fail::Error);
    }
    let a = match tag_end(input, p1, "<") {
        Some(a) => a,
        None => return Err(Fail::Error),
    };
    let (b, prefix) = parse_prefix0(input, a);
    let c = scan_class(input, b, ByteClass::Snake);
    let name = Span { start: b, end: c };
    let (d, attributes) = parse_xml_attr(input, c)?;
    let d1 = skip_spaces(input, d);
    if let Some(e) = tag_end(input, d1, "/>") {
        let x = Xml { prefix, name, value: None, attributes, children: Vec::new() };
        assert(x@.children =~= Seq::<SpecXml>::empty());
        return Ok((e, x));
    }
    let e = match tag_end(input, d1, ">") {
        Some(e) => e,
        None => return Err(Fail::Error),
    };
    assert(pos < e);
    let (f, children) = parse_xml_children(input, e)?;
    let ghost kids = xml_views(children@);
    let g = trim_comments(input, f);
    let h = scan_class(input, g, ByteClass::NotLt);
    let value = if g < h {
        Some(Span { start: g, end: h })
    } else {
        None
    };
    let (i, (end_prefix, end_name)) = parse_xml_end(input, h)?;
    if span_eq(input, name, end_name) && prefix_eq(input, prefix, end_prefix) {
        let x = Xml { prefix, name, value, attributes, children };
        proof {
            lemma_xml_view_children(x);
        }
        Ok((i, x))
    } else {
        Err(Fail::Failure)
    }
}

/// Reads as many elements as stand one after the other from `pos`.
pub fn parse_xml_children(input: &[u8], pos: usize) -> (r: Result<(usize, Vec<Xml>), Fail>)
    requires
        pos <= input@.len(),
    ensures
        r matches Ok((q, v)) ==> xml_children_at(input@, pos as int) == Ok::<
            (int, Seq<SpecXml>),
            Fail,
        >((q as int, xml_views(v@))) && pos <= q <= input@.len() && forall|i: int|
            0 <= i < v@.len() ==> xml_in(#[trigger] v@[i]@, input@.len() as int),
        r matches Err(e) ==> xml_children_at(input@, pos as int) == Err::<(int, Seq<SpecXml>), Fail>(
            e,
        ),
    decreases input@.len() - pos, 1int,
{
    let mut children: Vec<Xml> = Vec::new();
    let mut f = pos;
    let ghost out: SpecRes<Seq<SpecXml>> = xml_children_at(input@, pos as int);
    loop
        invariant
            pos <= f <= input@.len(),
            forall|i: int|
                0 <= i < children@.len() ==> xml_in(#[trigger] children@[i]@, input@.len() as int),
            out == xml_children_at(input@, pos as int),
            xml_children_at(input@, f as int) matches Ok((g, rest)) ==> out == Ok::<
                (int, Seq<SpecXml>),
                Fail,
            >((g, xml_views(children@) + rest)),
            xml_children_at(input@, f as int) is Err ==> out == xml_children_at(input@, f as int),
        decreases input@.len() - f,
    {
        match parse_xml_node(input, f) {
            Err(Fail::Error) => {
                assert(xml_children_at(input@, f as int) == Ok::<(int, Seq<SpecXml>), Fail>(
                    (f as int, Seq::empty()),
                ));
                assert(xml_views(children@) + Seq::<SpecXml>::empty() =~= xml_views(children@));
                return Ok((f, children));
            },
            Err(Fail::Failure) => return Err(Fail::Failure),
            Ok((q, x)) => {
                let ghost xv = x@;
                proof {
                    if let Ok((g, rest)) = xml_children_at(input@, q as int) {
                        assert(xml_views(children@.push(x)) + rest =~= xml_views(children@) + (seq![
                            xv,
                        ] + rest));
                    }
                }
                children.push(x);
                f = q;
            },
        }
    }
}

} // verus!
