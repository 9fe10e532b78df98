//! Templates: the root element of a file holds `<name>`, `<property>`
//! definitions and the nodes to build; each node has a kind, styles,
//! property definitions and uses, event bindings, tags, text and children.
use crate::attribute::{
    attribute_at, attribute_from_parts, opt_bytes, strings_view, Action, AttrTokens, Attribute,
    SpecAction, SpecAttrTokens, SpecAttribute, SpecStyleAttr, StyleAttr,
};
use crate::lex::{lift, scan, scan_class, tag, tag_end, ByteClass, Fail, SpecRes};
use crate::table::{entries_view, table_insert, SpecEntries, StringMap};
use crate::text::{lossy_opt, lossy_string, lossy_utf8};
use crate::xml::{
    lemma_xml_view_children, parse_xml_node, span_bytes, trim_at, trim_comments, xml_in,
    xml_node_at, xml_views, Span, SpecXml, Xml, XmlAttr,
};
use vstd::prelude::*;
use vstd::string::StringSliceAdditionalSpecFns;

verus! {

/// Why a template could not be read.
#[derive(Debug, PartialEq)]
pub enum ParseError {
    /// the bytes could not be read
    FailedToRead(String),
    /// the content is not UTF-8
    Utf8Error,
    /// the markup does not parse
    Nom(Fail),
    /// the markup ended too early
    Incomplete,
}

/// The kind of a node.
#[derive(Debug, PartialEq)]
pub enum NodeType {
    Node,
    Image,
    Text,
    Button,
    Include,
    Slot,
    Template,
    Custom(String),
}

/// The kind of a node as a mathematical value.
pub enum SpecNodeType {
    Node,
    Image,
    Text,
    Button,
    Include,
    Slot,
    Template,
    Custom(Seq<char>),
}

impl View for NodeType {
    type V = SpecNodeType;

    open spec fn view(&self) -> SpecNodeType {
        match self {
            NodeType::Node => SpecNodeType::Node,
            NodeType::Image => SpecNodeType::Image,
            NodeType::Text => SpecNodeType::Text,
            NodeType::Button => SpecNodeType::Button,
            NodeType::Include => SpecNodeType::Include,
            NodeType::Slot => SpecNodeType::Slot,
            NodeType::Template => SpecNodeType::Template,
            NodeType::Custom(s) => SpecNodeType::Custom(s@),
        }
    }
}

/// The kind named by the start of an element name: `node`, `img`,
/// `include`, `button`, `text`, `slot`, `template`, else a custom kind named
/// by the leading letters and underscores.
pub open spec fn node_type_at(n: Seq<u8>) -> SpecRes<SpecNodeType> {
    if let Some(e) = tag(n, 0, "node") {
        Ok((e, SpecNodeType::Node))
    } else if let Some(e) = tag(n, 0, "img") {
        Ok((e, SpecNodeType::Image))
    } else if let Some(e) = tag(n, 0, "include") {
        Ok((e, SpecNodeType::Include))
    } else if let Some(e) = tag(n, 0, "button") {
        Ok((e, SpecNodeType::Button))
    } else if let Some(e) = tag(n, 0, "text") {
        Ok((e, SpecNodeType::Text))
    } else if let Some(e) = tag(n, 0, "slot") {
        Ok((e, SpecNodeType::Slot))
    } else if let Some(e) = tag(n, 0, "template") {
        Ok((e, SpecNodeType::Template))
    } else {
        let b = scan(n, 0, ByteClass::Snake);
        if b == 0 {
            Err(Fail::Error)
        } else {
            Ok((b, SpecNodeType::Custom(lossy_utf8(n.subrange(0, b)))))
        }
    }
}

/// Reads the kind of a node from its element name.
pub fn parse_node_type(input: &[u8]) -> (r: Result<(usize, NodeType), Fail>)
    ensures
        lift(r) == node_type_at(input@),
{
    if let Some(e) = tag_end(input, 0, "node") {
        Ok((e, NodeType::Node))
    } else if let Some(e) = tag_end(input, 0, "img") {
        Ok((e, NodeType::Image))
    } else if let Some(e) = tag_end(input, 0, "include") {
        Ok((e, NodeType::Include))
    } else if let Some(e) = tag_end(input, 0, "button") {
        Ok((e, NodeType::Button))
    } else if let Some(e) = tag_end(input, 0, "text") {
        Ok((e, NodeType::Text))
    } else if let Some(e) = tag_end(input, 0, "slot") {
        Ok((e, NodeType::Slot))
    } else if let Some(e) = tag_end(input, 0, "template") {
        Ok((e, NodeType::Template))
    } else {
        let b = scan_class(input, 0, ByteClass::Snake);
        if b == 0 {
            Err(Fail::Error)
        } else {
            Ok((b, NodeType::Custom(lossy_string(vstd::slice::slice_subrange(input, 0, b)))))
        }
    }
}

/// A node of a template.
#[derive(Debug)]
pub struct XNode {
    pub src: Option<String>,
    pub styles: Vec<StyleAttr>,
    pub target: Option<String>,
    pub watch: Option<String>,
    pub id: Option<String>,
    pub uncompiled: Vec<AttrTokens>,
    pub tags: Vec<(String, String)>,
    pub defs: Vec<(String, String)>,
    pub event_listener: Vec<Action>,
    pub content: Option<String>,
    pub node_type: NodeType,
    pub children: Vec<XNode>,
}

/// A node of a template as a mathematical value.
#[verifier::ext_equal]
pub struct SpecXNode {
    pub src: Option<Seq<char>>,
    pub styles: Seq<SpecStyleAttr>,
    pub target: Option<Seq<char>>,
    pub watch: Option<Seq<char>>,
    pub id: Option<Seq<char>>,
    pub uncompiled: Seq<SpecAttrTokens>,
    pub tags: SpecEntries,
    pub defs: SpecEntries,
    pub event_listener: Seq<SpecAction>,
    pub content: Option<Seq<char>>,
    pub node_type: SpecNodeType,
    pub children: Seq<SpecXNode>,
}

pub open spec fn opt_text(s: Option<String>) -> Option<Seq<char>> {
    match s {
        Some(x) => Some(x@),
        None => None,
    }
}

pub open spec fn styles_view(v: Seq<StyleAttr>) -> Seq<SpecStyleAttr> {
    Seq::new(v.len(), |i: int| v[i]@)
}

pub open spec fn tokens_view(v: Seq<AttrTokens>) -> Seq<SpecAttrTokens> {
    Seq::new(v.len(), |i: int| v[i]@)
}

pub open spec fn actions_view(v: Seq<Action>) -> Seq<SpecAction> {
    Seq::new(v.len(), |i: int| v[i]@)
}

pub open spec fn xnodes_view(v: Seq<XNode>) -> Seq<SpecXNode> {
    Seq::new(v.len(), |i: int| v[i]@)
}

/// The value that stands for positions outside a sequence.
pub open spec fn no_xnode() -> SpecXNode {
    SpecXNode {
        src: None,
        styles: Seq::empty(),
        target: None,
        watch: None,
        id: None,
        uncompiled: Seq::empty(),
        tags: Seq::empty(),
        defs: Seq::empty(),
        event_listener: Seq::empty(),
        content: None,
        node_type: SpecNodeType::Node,
        children: Seq::empty(),
    }
}

impl View for XNode {
    type V = SpecXNode;

    open spec fn view(&self) -> SpecXNode
        decreases self,
    {
        SpecXNode {
            src: opt_text(self.src),
            styles: styles_view(self.styles@),
            target: opt_text(self.target),
            watch: opt_text(self.watch),
            id: opt_text(self.id),
            uncompiled: tokens_view(self.uncompiled@),
            tags: entries_view(self.tags@),
            defs: entries_view(self.defs@),
            event_listener: actions_view(self.event_listener@),
            content: opt_text(self.content),
            node_type: self.node_type@,
            children: Seq::new(
                self.children@.len(),
                |i: int|
                    if 0 <= i < self.children@.len() {
                        self.children@[i]@
                    } else {
                        no_xnode()
                    },
            ),
        }
    }
}

pub proof fn lemma_xnode_view_children(x: XNode)
    ensures
        x@.children =~= xnodes_view(x.children@),
{
    reveal_with_fuel(<XNode as View>::view, 2);
    assert(x@.children.len() == x.children@.len());
    assert forall|i: int| 0 <= i < x.children@.len() implies x@.children[i] == xnodes_view(
        x.children@,
    )[i] by {}
}

/// What the attributes of an element add up to.
#[verifier::ext_equal]
pub struct SpecAttrs {
    pub src: Option<Seq<char>>,
    pub styles: Seq<SpecStyleAttr>,
    pub target: Option<Seq<char>>,
    pub watch: Option<Seq<char>>,
    pub id: Option<Seq<char>>,
    pub uncompiled: Seq<SpecAttrTokens>,
    pub tags: SpecEntries,
    pub defs: SpecEntries,
    pub event_listener: Seq<SpecAction>,
}

pub open spec fn no_attrs() -> SpecAttrs {
    SpecAttrs {
        src: None,
        styles: Seq::empty(),
        target: None,
        watch: None,
        id: None,
        uncompiled: Seq::empty(),
        tags: Seq::empty(),
        defs: Seq::empty(),
        event_listener: Seq::empty(),
    }
}

/// Adds one attribute: styles, uses, events, tags and definitions are kept
/// in order; a later path, target, id or watch replaces an earlier one.
pub open spec fn attrs_add(acc: SpecAttrs, a: SpecAttribute) -> SpecAttrs {
    match a {
        SpecAttribute::Style(x) => SpecAttrs { styles: acc.styles.push(x), ..acc },
        SpecAttribute::PropertyDefinition(k, v) => SpecAttrs { defs: acc.defs.push((k, v)), ..acc },
        SpecAttribute::Uncompiled(t) => SpecAttrs { uncompiled: acc.uncompiled.push(t), ..acc },
        SpecAttribute::Action(x) => SpecAttrs { event_listener: acc.event_listener.push(x), ..acc },
        SpecAttribute::Path(p) => SpecAttrs { src: Some(p), ..acc },
        SpecAttribute::Target(t) => SpecAttrs { target: Some(t), ..acc },
        SpecAttribute::Id(i) => SpecAttrs { id: Some(i), ..acc },
        SpecAttribute::Tag(k, v) => SpecAttrs { tags: acc.tags.push((k, v)), ..acc },
        SpecAttribute::Watch(w) => SpecAttrs { watch: Some(w), ..acc },
    }
}

/// The bytes of an optional span.
pub open spec fn opt_span_bytes(s: Seq<u8>, sp: Option<Span>) -> Option<Seq<u8>> {
    match sp {
        Some(x) => Some(span_bytes(s, x)),
        None => None,
    }
}

/// What one attribute of the markup means.
pub open spec fn xml_attr_meaning(s: Seq<u8>, a: XmlAttr) -> Result<SpecAttribute, Fail> {
    attribute_at(opt_span_bytes(s, a.prefix), span_bytes(s, a.key), span_bytes(s, a.value))
}

/// What the attributes add up to, or the error of the first that does not
/// read.
pub open spec fn attrs_fold(s: Seq<u8>, attrs: Seq<XmlAttr>) -> Result<SpecAttrs, Fail>
    decreases attrs.len(),
{
    if attrs.len() == 0 {
        Ok(no_attrs())
    } else {
        match attrs_fold(s, attrs.drop_last()) {
            Err(e) => Err(e),
            Ok(acc) => match xml_attr_meaning(s, attrs.last()) {
                Err(e) => Err(e),
                Ok(a) => Ok(attrs_add(acc, a)),
            },
        }
    }
}

/// The node that an element describes.
pub open spec fn xnode_of(s: Seq<u8>, x: SpecXml) -> Result<SpecXNode, Fail>
    decreases x, 1int,
{
    match node_type_at(span_bytes(s, x.name)) {
        Err(e) => Err(e),
        Ok((_, node_type)) => match attrs_fold(s, x.attributes) {
            Err(e) => Err(e),
            Ok(acc) => match xnodes_of(s, x.children) {
                Err(e) => Err(e),
                Ok(children) => Ok(
                    SpecXNode {
                        src: acc.src,
                        styles: acc.styles,
                        target: acc.target,
                        watch: acc.watch,
                        id: acc.id,
                        uncompiled: acc.uncompiled,
                        tags: acc.tags,
                        defs: acc.defs,
                        event_listener: acc.event_listener,
                        content: match x.value {
                            Some(v) => Some(lossy_utf8(span_bytes(s, v))),
                            None => None,
                        },
                        node_type,
                        children,
                    },
                ),
            },
        },
    }
}

/// The nodes that elements describe, or the error of the first that fails.
pub open spec fn xnodes_of(s: Seq<u8>, kids: Seq<SpecXml>) -> Result<Seq<SpecXNode>, Fail>
    decreases kids, 0int,
{
    if kids.len() == 0 {
        Ok(Seq::empty())
    } else {
        match xnodes_of(s, kids.subrange(0, kids.len() - 1)) {
            Err(e) => Err(e),
            Ok(ns) => match xnode_of(s, kids[kids.len() - 1]) {
                Err(e) => Err(e),
                Ok(n) => Ok(ns.push(n)),
            },
        }
    }
}

} // verus!

verus! {

/// Once the attributes of a prefix fail, all fail with the same error.
pub proof fn lemma_attrs_fold_err(s: Seq<u8>, attrs: Seq<XmlAttr>, n: int)
    requires
        0 <= n <= attrs.len(),
        attrs_fold(s, attrs.subrange(0, n)) is Err,
    ensures
        attrs_fold(s, attrs) == attrs_fold(s, attrs.subrange(0, n)),
    decreases attrs.len() - n,
{
    if n == attrs.len() {
        assert(attrs.subrange(0, n) =~= attrs);
    } else {
        assert(attrs.subrange(0, n + 1).drop_last() =~= attrs.subrange(0, n));
        lemma_attrs_fold_err(s, attrs, n + 1);
    }
}

/// Once the nodes of a prefix fail, all fail with the same error.
pub proof fn lemma_xnodes_err(s: Seq<u8>, kids: Seq<SpecXml>, n: int)
    requires
        0 <= n <= kids.len(),
        xnodes_of(s, kids.subrange(0, n)) is Err,
    ensures
        xnodes_of(s, kids) == xnodes_of(s, kids.subrange(0, n)),
    decreases kids.len() - n,
{
    if n == kids.len() {
        assert(kids.subrange(0, n) =~= kids);
    } else {
        assert(kids.subrange(0, n + 1).subrange(0, n) =~= kids.subrange(0, n));
        lemma_xnodes_err(s, kids, n + 1);
    }
}

/// The bytes of a span of `source`.
fn span_slice<'a>(source: &'a [u8], sp: Span) -> (r: &'a [u8])
    requires
        sp.start <= sp.end <= source@.len(),
    ensures
        r@ == span_bytes(source@, sp),
{
    vstd::slice::slice_subrange(source, sp.start, sp.end)
}

/// The bytes of an optional span of `source`.
fn opt_span_slice<'a>(source: &'a [u8], sp: Option<Span>) -> (r: Option<&'a [u8]>)
    requires
        sp matches Some(x) ==> x.start <= x.end <= source@.len(),
    ensures
        opt_bytes(r) == opt_span_bytes(source@, sp),
{
    match sp {
        Some(x) => Some(span_slice(source, x)),
        None => None,
    }
}

/// What the attributes of an element add up to.
pub struct NodeAttrs {
    pub src: Option<String>,
    pub styles: Vec<StyleAttr>,
    pub target: Option<String>,
    pub watch: Option<String>,
    pub id: Option<String>,
    pub uncompiled: Vec<AttrTokens>,
    pub tags: Vec<(String, String)>,
    pub defs: Vec<(String, String)>,
    pub event_listener: Vec<Action>,
}

impl View for NodeAttrs {
    type V = SpecAttrs;

    open spec fn view(&self) -> SpecAttrs {
        SpecAttrs {
            src: opt_text(self.src),
            styles: styles_view(self.styles@),
            target: opt_text(self.target),
            watch: opt_text(self.watch),
            id: opt_text(self.id),
            uncompiled: tokens_view(self.uncompiled@),
            tags: entries_view(self.tags@),
            defs: entries_view(self.defs@),
            event_listener: actions_view(self.event_listener@),
        }
    }
}

/// Adds the meaning of one attribute.
fn add_attr(acc: &mut NodeAttrs, attr: Attribute)
    ensures
        final(acc)@ == attrs_add(old(acc)@, attr@),
{
    match attr {
        Attribute::Style(x) => {
            acc.styles.push(x);
            assert(styles_view(acc.styles@) =~= styles_view(old(acc).styles@).push(
                acc.styles@.last()@,
            ));
        },
        Attribute::PropertyDefinition(k, v) => {
            acc.defs.push((k, v));
            assert(entries_view(acc.defs@) =~= entries_view(old(acc).defs@).push(
                (acc.defs@.last().0@, acc.defs@.last().1@),
            ));
        },
        Attribute::Uncompiled(t) => {
            acc.uncompiled.push(t);
            assert(tokens_view(acc.uncompiled@) =~= tokens_view(old(acc).uncompiled@).push(
                acc.uncompiled@.last()@,
            ));
        },
        Attribute::Action(x) => {
            acc.event_listener.push(x);
            assert(actions_view(acc.event_listener@) =~= actions_view(
                old(acc).event_listener@,
            ).push(acc.event_listener@.last()@));
        },
        Attribute::Path(p) => acc.src = Some(p),
        Attribute::Target(t) => acc.target = Some(t),
        Attribute::Id(x) => acc.id = Some(x),
        Attribute::Tag(k, v) => {
            acc.tags.push((k, v));
            assert(entries_view(acc.tags@) =~= entries_view(old(acc).tags@).push(
                (acc.tags@.last().0@, acc.tags@.last().1@),
            ));
        },
        Attribute::Watch(w) => acc.watch = Some(w),
    }
}

/// Reads the attributes of an element, in order.
fn collect_attrs(attrs: &Vec<XmlAttr>, source: &[u8]) -> (r: Result<NodeAttrs, Fail>)
    requires
        forall|i: int|
            0 <= i < attrs@.len() ==> crate::xml::attr_in(#[trigger] attrs@[i], source@.len() as int),
    ensures
        r matches Ok(acc) ==> attrs_fold(source@, attrs@) == Ok::<SpecAttrs, Fail>(acc@),
        r matches Err(e) ==> attrs_fold(source@, attrs@) == Err::<SpecAttrs, Fail>(e),
{
    let mut acc = NodeAttrs {
        src: None,
        styles: Vec::new(),
        target: None,
        watch: None,
        id: None,
        uncompiled: Vec::new(),
        tags: Vec::new(),
        defs: Vec::new(),
        event_listener: Vec::new(),
    };
    assert(acc@ =~= no_attrs());
    assert(attrs@.subrange(0, 0).len() == 0);
    let mut i: usize = 0;
    while i < attrs.len()
        invariant
            0 <= i <= attrs@.len(),
            forall|k: int|
                0 <= k < attrs@.len() ==> crate::xml::attr_in(#[trigger] attrs@[k], source@.len() as int),
            attrs_fold(source@, attrs@.subrange(0, i as int)) == Ok::<SpecAttrs, Fail>(acc@),
        decreases attrs@.len() - i,
    {
        let a = attrs[i];
        assert(crate::xml::attr_in(attrs@[i as int], source@.len() as int));
        assert(attrs@.subrange(0, i + 1).drop_last() =~= attrs@.subrange(0, i as int));
        assert(attrs@.subrange(0, i + 1).last() == a);
        let meaning = attribute_from_parts(
            opt_span_slice(source, a.prefix),
            span_slice(source, a.key),
            span_slice(source, a.value),
        );
        match meaning {
            Err(e) => {
                proof {
                    lemma_attrs_fold_err(source@, attrs@, i + 1);
                }
                return Err(e);
            },
            Ok(attr) => {
                add_attr(&mut acc, attr);
            },
        }
        i = i + 1;
    }
    assert(attrs@.subrange(0, i as int) =~= attrs@);
    Ok(acc)
}

impl XNode {
    /// Builds the node that the element `xml` of `source` describes, with all
    /// its descendants.
    pub fn try_from(xml: &Xml, source: &[u8]) -> (r: Result<XNode, ParseError>)
        requires
            xml_in(xml@, source@.len() as int),
        ensures
            r matches Ok(n) ==> xnode_of(source@, xml@) == Ok::<SpecXNode, Fail>(n@),
            r matches Err(e) ==> e matches ParseError::Nom(f) && xnode_of(source@, xml@) == Err::<
                SpecXNode,
                Fail,
            >(f),
        decreases xml,
    {
        proof {
            lemma_xml_view_children(*xml);
        }
        let node_type = match parse_node_type(span_slice(source, xml.name)) {
            Ok((_, t)) => t,
            Err(e) => return Err(ParseError::Nom(e)),
        };
        let content = lossy_opt(opt_span_slice(source, xml.value));
        let acc = collect_attrs(&xml.attributes, source);
        let acc = match acc {
            Ok(acc) => acc,
            Err(e) => return Err(ParseError::Nom(e)),
        };
        let mut children: Vec<XNode> = Vec::new();
        let mut j: usize = 0;
        assert(xml@.children.subrange(0, 0) =~= Seq::<SpecXml>::empty());
        assert(xnodes_view(children@) =~= Seq::<SpecXNode>::empty());
        while j < xml.children.len()
            invariant
                0 <= j <= xml.children@.len(),
                xml_in(xml@, source@.len() as int),
                xml@.children =~= xml_views(xml.children@),
                forall|f: Fail|
                    xnodes_of(source@, xml@.children) == Err::<Seq<SpecXNode>, Fail>(f) ==> xnode_of(
                        source@,
                        xml@,
                    ) == Err::<SpecXNode, Fail>(f),
                xnodes_of(source@, xml@.children.subrange(0, j as int)) == Ok::<
                    Seq<SpecXNode>,
                    Fail,
                >(xnodes_view(children@)),
            decreases xml.children@.len() - j,
        {
            let child = &xml.children[j];
            assert(xml@.children[j as int] == child@);
            assert(xml@.children.subrange(0, j + 1).subrange(0, j as int) =~= xml@.children.subrange(
                0,
                j as int,
            ));
            assert(xml@.children.subrange(0, j + 1)[j as int] == child@);
            let node = match XNode::try_from(child, source) {
                Ok(node) => node,
                Err(e) => {
                    proof {
                        lemma_xnodes_err(source@, xml@.children, j + 1);
                    }
                    return Err(e);
                },
            };
            let ghost nv = node@;
            let ghost before = xnodes_view(children@);
            assert(xnodes_of(source@, xml@.children.subrange(0, j + 1)) == Ok::<
                Seq<SpecXNode>,
                Fail,
            >(before.push(nv)));
            children.push(node);
            assert(xnodes_view(children@) =~= before.push(nv));
            j = j + 1;
        }
        assert(xml@.children.subrange(0, j as int) =~= xml@.children);
        let n = XNode {
            src: acc.src,
            styles: acc.styles,
            target: acc.target,
            watch: acc.watch,
            id: acc.id,
            uncompiled: acc.uncompiled,
            tags: acc.tags,
            defs: acc.defs,
            event_listener: acc.event_listener,
            content,
            node_type,
            children,
        };
        proof {
            lemma_xnode_view_children(n);
        }
        Ok(n)
    }
}

} // verus!

verus! {

/// A template: its name, its properties with their default texts, and the
/// nodes to build.
#[derive(Debug)]
pub struct Template {
    pub name: Option<String>,
    pub properties: StringMap,
    pub root: Vec<XNode>,
}

/// A template as a mathematical value.
#[verifier::ext_equal]
pub struct SpecTemplate {
    pub name: Option<Seq<char>>,
    pub properties: SpecEntries,
    pub root: Seq<SpecXNode>,
}

impl View for Template {
    type V = SpecTemplate;

    open spec fn view(&self) -> SpecTemplate {
        SpecTemplate {
            name: opt_text(self.name),
            properties: self.properties@,
            root: xnodes_view(self.root@),
        }
    }
}

/// The value span of the first attribute whose key is `name`.
pub open spec fn name_attr(s: Seq<u8>, attrs: Seq<XmlAttr>, i: int) -> Option<Span>
    decreases attrs.len() - i,
{
    if i < 0 || i >= attrs.len() {
        None
    } else if span_bytes(s, attrs[i].key) =~= "name".spec_bytes() {
        Some(attrs[i].value)
    } else {
        name_attr(s, attrs, i + 1)
    }
}

/// The name, properties and nodes that the children of the root element
/// give: `<name>text</name>` names the template, `<property name="key">text
/// </property>` sets a property (both need their text), every other child
/// is a node to build.
pub open spec fn template_fold(s: Seq<u8>, kids: Seq<SpecXml>) -> Result<
    (Option<Seq<char>>, SpecEntries, Seq<SpecXNode>),
    Fail,
>
    decreases kids.len(),
{
    if kids.len() == 0 {
        Ok((None, Seq::empty(), Seq::empty()))
    } else {
        match template_fold(s, kids.drop_last()) {
            Err(e) => Err(e),
            Ok((name, props, root)) => {
                let c = kids.last();
                if span_bytes(s, c.name) =~= "property".spec_bytes() {
                    match (name_attr(s, c.attributes, 0), c.value) {
                        (Some(k), Some(v)) => Ok(
                            (
                                name,
                                table_insert(
                                    props,
                                    lossy_utf8(span_bytes(s, k)),
                                    lossy_utf8(span_bytes(s, v)),
                                ),
                                root,
                            ),
                        ),
                        _ => Ok((name, props, root)),
                    }
                } else if span_bytes(s, c.name) =~= "name".spec_bytes() {
                    match c.value {
                        Some(v) => Ok((Some(lossy_utf8(span_bytes(s, v))), props, root)),
                        None => Ok((name, props, root)),
                    }
                } else {
                    match xnode_of(s, c) {
                        Err(e) => Err(e),
                        Ok(n) => Ok((name, props, root.push(n))),
                    }
                }
            },
        }
    }
}

/// Where the root element starts: after white space and comments, and an
/// `<?...?>` header if there is one.
pub open spec fn template_start(s: Seq<u8>) -> int {
    let p0 = trim_at(s, 0);
    match tag(s, p0, "<?") {
        None => p0,
        Some(a) => match crate::lex::find(s, a, "?>".spec_bytes()) {
            None => p0,
            Some(b) => match tag(s, b, "?>") {
                None => p0,
                Some(c) => c,
            },
        },
    }
}

/// The template that the bytes `s` describe.
pub open spec fn template_of(s: Seq<u8>) -> Result<SpecTemplate, Fail> {
    match xml_node_at(s, template_start(s)) {
        Err(e) => Err(e),
        Ok((_, x)) => match template_fold(s, x.children) {
            Err(e) => Err(e),
            Ok((name, properties, root)) => Ok(SpecTemplate { name, properties, root }),
        },
    }
}

fn template_start_exec(input: &[u8]) -> (p: usize)
    ensures
        p as int == template_start(input@),
        p <= input@.len(),
{
    let p0 = trim_comments(input, 0);
    let a = match tag_end(input, p0, "<?") {
        Some(a) => a,
        None => return p0,
    };
    let b = match crate::lex::find_tag(input, a, "?>") {
        Some(b) => b,
        None => return p0,
    };
    match tag_end(input, b, "?>") {
        Some(c) => c,
        None => p0,
    }
}

fn find_name_attr(source: &[u8], attrs: &Vec<XmlAttr>) -> (r: Option<Span>)
    requires
        forall|i: int|
            0 <= i < attrs@.len() ==> crate::xml::attr_in(#[trigger] attrs@[i], source@.len() as int),
    ensures
        r == name_attr(source@, attrs@, 0),
        r matches Some(sp) ==> sp.start <= sp.end <= source@.len(),
{
    let mut i: usize = 0;
    while i < attrs.len()
        invariant
            0 <= i <= attrs@.len(),
            forall|k: int|
                0 <= k < attrs@.len() ==> crate::xml::attr_in(#[trigger] attrs@[k], source@.len() as int),
            name_attr(source@, attrs@, i as int) == name_attr(source@, attrs@, 0),
        decreases attrs@.len() - i,
    {
        assert(crate::xml::attr_in(attrs@[i as int], source@.len() as int));
        if crate::lex::bytes_eq(span_slice(source, attrs[i].key), "name") {
            return Some(attrs[i].value);
        }
        i = i + 1;
    }
    None
}

/// Reads a template from the bytes of its file.
pub fn parse_template(input: &[u8]) -> (r: Result<Template, ParseError>)
    ensures
        r matches Ok(t) ==> template_of(input@) == Ok::<SpecTemplate, Fail>(t@),
        r matches Err(e) ==> e matches ParseError::Nom(f) && template_of(input@) == Err::<
            SpecTemplate,
            Fail,
        >(f),
{
    let start = template_start_exec(input);
    let xml = match parse_xml_node(input, start) {
        Ok((_, xml)) => xml,
        Err(e) => return Err(ParseError::Nom(e)),
    };
    proof {
        lemma_xml_view_children(xml);
    }
    let ghost kids = xml@.children;
    let mut name: Option<String> = None;
    let mut properties = StringMap::new();
    let mut root: Vec<XNode> = Vec::new();
    let mut i: usize = 0;
    assert(kids.subrange(0, 0) =~= Seq::<SpecXml>::empty());
    assert(xnodes_view(root@) =~= Seq::<SpecXNode>::empty());
    while i < xml.children.len()
        invariant
            0 <= i <= xml.children@.len(),
            xml_in(xml@, input@.len() as int),
            kids == xml@.children,
            kids =~= xml_views(xml.children@),
            forall|f: Fail|
                template_fold(input@, kids) == Err::<
                    (Option<Seq<char>>, SpecEntries, Seq<SpecXNode>),
                    Fail,
                >(f) ==> template_of(input@) == Err::<SpecTemplate, Fail>(f),
            forall|t: (Option<Seq<char>>, SpecEntries, Seq<SpecXNode>)|
                template_fold(input@, kids) == Ok::<
                    (Option<Seq<char>>, SpecEntries, Seq<SpecXNode>),
                    Fail,
                >(t) ==> template_of(input@) == Ok::<SpecTemplate, Fail>(
                    SpecTemplate { name: t.0, properties: t.1, root: t.2 },
                ),
            template_fold(input@, kids.subrange(0, i as int)) == Ok::<
                (Option<Seq<char>>, SpecEntries, Seq<SpecXNode>),
                Fail,
            >((opt_text(name), properties@, xnodes_view(root@))),
        decreases xml.children@.len() - i,
    {
        let child = &xml.children[i];
        assert(kids[i as int] == child@);
        assert(kids.subrange(0, i + 1).drop_last() =~= kids.subrange(0, i as int));
        assert(kids.subrange(0, i + 1).last() == child@);
        assert(xml_in(child@, input@.len() as int));
        proof {
            lemma_xml_view_children(*child);
        }
        if crate::lex::bytes_eq(span_slice(input, child.name), "property") {
            match (find_name_attr(input, &child.attributes), child.value) {
                (Some(k), Some(v)) => {
                    properties.insert(lossy_string(span_slice(input, k)), lossy_string(span_slice(input, v)));
                },
                _ => {},
            }
        } else if crate::lex::bytes_eq(span_slice(input, child.name), "name") {
            match child.value {
                Some(v) => {
                    name = Some(lossy_string(span_slice(input, v)));
                },
                None => {},
            }
        } else {
            let node = match XNode::try_from(child, input) {
                Ok(node) => node,
                Err(e) => {
                    proof {
                        lemma_template_fold_err(input@, kids, i + 1);
                    }
                    return Err(e);
                },
            };
            let ghost before = xnodes_view(root@);
            let ghost nv = node@;
            root.push(node);
            assert(xnodes_view(root@) =~= before.push(nv));
        }
        i = i + 1;
    }
    assert(kids.subrange(0, i as int) =~= kids);
    Ok(Template { name, properties, root })
}

/// Once the children of a prefix fail, the whole template fails with the
/// same error.
pub proof fn lemma_template_fold_err(s: Seq<u8>, kids: Seq<SpecXml>, n: int)
    requires
        0 <= n <= kids.len(),
        template_fold(s, kids.subrange(0, n)) is Err,
    ensures
        template_fold(s, kids) == template_fold(s, kids.subrange(0, n)),
    decreases kids.len() - n,
{
    if n == kids.len() {
        assert(kids.subrange(0, n) =~= kids);
    } else {
        assert(kids.subrange(0, n + 1).drop_last() =~= kids.subrange(0, n));
        lemma_template_fold_err(s, kids, n + 1);
    }
}

/// Each attribute of an element sets the one field of the node it names and
/// leaves every other field as it was: a target sets only the target, an id
/// only the id, a path only the source, a watch only the watched name; a
/// style, a property use, an event list, a tag or a definition is added at
/// the end of its own list.
pub proof fn law_attribute_sets_its_field(acc: SpecAttrs, a: SpecAttribute)
    ensures
        a matches SpecAttribute::Target(t) ==> attrs_add(acc, a).target == Some(t)
            && attrs_add(acc, a).id == acc.id && attrs_add(acc, a).src == acc.src
            && attrs_add(acc, a).watch == acc.watch,
        a matches SpecAttribute::Id(i) ==> attrs_add(acc, a).id == Some(i)
            && attrs_add(acc, a).target == acc.target && attrs_add(acc, a).src == acc.src
            && attrs_add(acc, a).watch == acc.watch,
        a matches SpecAttribute::Path(p) ==> attrs_add(acc, a).src == Some(p)
            && attrs_add(acc, a).target == acc.target && attrs_add(acc, a).id == acc.id
            && attrs_add(acc, a).watch == acc.watch,
        a matches SpecAttribute::Watch(w) ==> attrs_add(acc, a).watch == Some(w)
            && attrs_add(acc, a).target == acc.target && attrs_add(acc, a).id == acc.id
            && attrs_add(acc, a).src == acc.src,
        a matches SpecAttribute::Style(x) ==> attrs_add(acc, a).styles == acc.styles.push(x),
        a matches SpecAttribute::Uncompiled(t) ==> attrs_add(acc, a).uncompiled == acc.uncompiled.push(t),
        a matches SpecAttribute::Action(x) ==> attrs_add(acc, a).event_listener == acc.event_listener.push(x),
        a matches SpecAttribute::Tag(k, v) ==> attrs_add(acc, a).tags == acc.tags.push((k, v)),
        a matches SpecAttribute::PropertyDefinition(k, v) ==> attrs_add(acc, a).defs == acc.defs.push((k, v)),
        !(a is Target) ==> attrs_add(acc, a).target == acc.target,
        !(a is Id) ==> attrs_add(acc, a).id == acc.id,
        !(a is Path) ==> attrs_add(acc, a).src == acc.src,
        !(a is Watch) ==> attrs_add(acc, a).watch == acc.watch,
        !(a is Style) ==> attrs_add(acc, a).styles == acc.styles,
        !(a is Uncompiled) ==> attrs_add(acc, a).uncompiled == acc.uncompiled,
        !(a is Action) ==> attrs_add(acc, a).event_listener == acc.event_listener,
        !(a is Tag) ==> attrs_add(acc, a).tags == acc.tags,
        !(a is PropertyDefinition) ==> attrs_add(acc, a).defs == acc.defs,
{
}

/// The last attribute of an element decides its field: where the last
/// attribute reads as a target `t`, the element's target is `t` and its id
/// is what the attributes before gave; where it reads as an id, alike.
pub proof fn law_last_attribute_decides(s: Seq<u8>, attrs: Seq<XmlAttr>)
    requires
        attrs.len() > 0,
    ensures
        attrs_fold(s, attrs.drop_last()) matches Ok(before) ==> (xml_attr_meaning(s, attrs.last()) matches Ok(
            SpecAttribute::Target(t),
        ) ==> attrs_fold(s, attrs) matches Ok(all) && all.target == Some(t) && all.id == before.id),
        attrs_fold(s, attrs.drop_last()) matches Ok(before) ==> (xml_attr_meaning(s, attrs.last()) matches Ok(
            SpecAttribute::Id(i),
        ) ==> attrs_fold(s, attrs) matches Ok(all) && all.id == Some(i) && all.target == before.target),
{
    if let Ok(before) = attrs_fold(s, attrs.drop_last()) {
        if let Ok(a) = xml_attr_meaning(s, attrs.last()) {
            law_attribute_sets_its_field(before, a);
        }
    }
}

/// The word that names a built-in kind of node.
pub open spec fn node_type_word(t: SpecNodeType) -> Option<Seq<u8>> {
    match t {
        SpecNodeType::Node => Some("node".spec_bytes()),
        SpecNodeType::Image => Some("img".spec_bytes()),
        SpecNodeType::Text => Some("text".spec_bytes()),
        SpecNodeType::Button => Some("button".spec_bytes()),
        SpecNodeType::Include => Some("include".spec_bytes()),
        SpecNodeType::Slot => Some("slot".spec_bytes()),
        SpecNodeType::Template => Some("template".spec_bytes()),
        SpecNodeType::Custom(_) => None,
    }
}

/// An element's name decides its kind: a built-in kind is read from the
/// word that names it, and a custom kind is named by the letters and
/// underscores that were read.
pub proof fn law_node_type_named_by_element(n: Seq<u8>)
    ensures
        node_type_at(n) matches Ok((q, t)) ==> (node_type_word(t) matches Some(w) ==> n.subrange(0, q) == w),
        node_type_at(n) matches Ok((q, SpecNodeType::Custom(c))) ==> c == lossy_utf8(n.subrange(0, q)),
{
    if let Ok((q, t)) = node_type_at(n) {
        if let Some(w) = node_type_word(t) {
            assert(n.subrange(0, q) =~= w);
        }
    }
}

/// A node holds what its element's attributes add up to, field by field,
/// and the element's text as its content.
pub proof fn law_node_takes_attributes(s: Seq<u8>, x: SpecXml)
    ensures
        xnode_of(s, x) matches Ok(n) ==> (attrs_fold(s, x.attributes) matches Ok(acc) && n.target
            == acc.target && n.id == acc.id && n.src == acc.src && n.watch == acc.watch && n.styles
            == acc.styles && n.uncompiled == acc.uncompiled && n.tags == acc.tags && n.defs == acc.defs
            && n.event_listener == acc.event_listener),
        xnode_of(s, x) matches Ok(n) ==> n.content == (match x.value {
            Some(v) => Some(lossy_utf8(span_bytes(s, v))),
            None => None,
        }),
{
}

/// A `<property name="k">v</property>` child of a template sets property
/// `k` to the text `v`, and leaves the name and the nodes as they were.
pub proof fn law_property_child(s: Seq<u8>, kids: Seq<SpecXml>, k: Span, v: Span)
    requires
        kids.len() > 0,
        span_bytes(s, kids.last().name) == "property".spec_bytes(),
        name_attr(s, kids.last().attributes, 0) == Some(k),
        kids.last().value == Some(v),
    ensures
        template_fold(s, kids.drop_last()) matches Ok((name, props, root)) ==> (template_fold(s, kids) matches Ok(
            (name2, props2, root2),
        ) && name2 == name && root2 == root && crate::table::table_get(props2, lossy_utf8(span_bytes(s, k)))
            == Some(lossy_utf8(span_bytes(s, v)))),
{
    assert(span_bytes(s, kids.last().name) =~= "property".spec_bytes());
    if let Ok((name, props, root)) = template_fold(s, kids.drop_last()) {
        let kk = lossy_utf8(span_bytes(s, k));
        assert(kk.push('x').len() != kk.len());
        crate::table::law_get_after_insert(props, kk, lossy_utf8(span_bytes(s, v)), kk.push('x'));
    }
}

} // verus!
