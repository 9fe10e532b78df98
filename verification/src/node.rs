//! A tree of typed user interface nodes, built one child, text, style or
//! path at a time.
use crate::attribute::{SpecStyleAttr, StyleAttr};
use crate::template::styles_view;
use vstd::prelude::*;

verus! {

/// A container node.
#[derive(Debug, Default)]
pub struct Div {
    pub styles: Vec<StyleAttr>,
    pub children: Vec<NNode>,
}

/// An image node, with the path of its image.
#[derive(Debug, Default)]
pub struct Image {
    pub path: String,
    pub styles: Vec<StyleAttr>,
    pub children: Vec<NNode>,
}

/// A text node.
#[derive(Debug, Default)]
pub struct Text {
    pub content: String,
    pub styles: Vec<StyleAttr>,
}

/// A button node, with the name of its action.
#[derive(Debug, Default)]
pub struct Button {
    pub action: String,
    pub styles: Vec<StyleAttr>,
    pub children: Vec<NNode>,
}

/// A node that includes another template, with its path and the entity
/// (as its bits) that its slot content goes to.
#[derive(Debug, Default)]
pub struct Include {
    pub path: String,
    pub styles: Vec<StyleAttr>,
    pub children: Vec<NNode>,
    pub slot: Option<u64>,
}

/// A node of the tree.
#[derive(Debug)]
pub enum NNode {
    Div(Div),
    Image(Image),
    Text(Text),
    Button(Button),
    Include(Include),
    Unkown,
}

/// A node as a mathematical value.
pub enum SpecNNode {
    Div { styles: Seq<SpecStyleAttr>, children: Seq<SpecNNode> },
    Image { path: Seq<char>, styles: Seq<SpecStyleAttr>, children: Seq<SpecNNode> },
    Text { content: Seq<char>, styles: Seq<SpecStyleAttr> },
    Button { action: Seq<char>, styles: Seq<SpecStyleAttr>, children: Seq<SpecNNode> },
    Include {
        path: Seq<char>,
        styles: Seq<SpecStyleAttr>,
        children: Seq<SpecNNode>,
        slot: Option<u64>,
    },
    Unkown,
}

/// The nodes of a list as mathematical values.
pub open spec fn nnodes_view(v: Seq<NNode>) -> Seq<SpecNNode> {
    Seq::new(v.len(), |i: int| v[i]@)
}

impl View for NNode {
    type V = SpecNNode;

    open spec fn view(&self) -> SpecNNode
        decreases self,
    {
        match self {
            NNode::Div(d) => SpecNNode::Div {
                styles: styles_view(d.styles@),
                children: Seq::new(
                    d.children@.len(),
                    |i: int|
                        if 0 <= i < d.children@.len() {
                            d.children@[i]@
                        } else {
                            SpecNNode::Unkown
                        },
                ),
            },
            NNode::Image(d) => SpecNNode::Image {
                path: d.path@,
                styles: styles_view(d.styles@),
                children: Seq::new(
                    d.children@.len(),
                    |i: int|
                        if 0 <= i < d.children@.len() {
                            d.children@[i]@
                        } else {
                            SpecNNode::Unkown
                        },
                ),
            },
            NNode::Text(d) => SpecNNode::Text { content: d.content@, styles: styles_view(d.styles@) },
            NNode::Button(d) => SpecNNode::Button {
                action: d.action@,
                styles: styles_view(d.styles@),
                children: Seq::new(
                    d.children@.len(),
                    |i: int|
                        if 0 <= i < d.children@.len() {
                            d.children@[i]@
                        } else {
                            SpecNNode::Unkown
                        },
                ),
            },
            NNode::Include(d) => SpecNNode::Include {
                path: d.path@,
                styles: styles_view(d.styles@),
                children: Seq::new(
                    d.children@.len(),
                    |i: int|
                        if 0 <= i < d.children@.len() {
                            d.children@[i]@
                        } else {
                            SpecNNode::Unkown
                        },
                ),
                slot: d.slot,
            },
            NNode::Unkown => SpecNNode::Unkown,
        }
    }
}

/// The node with `c` added as its last child; nothing for a node that
/// holds no children.
pub open spec fn with_child(n: SpecNNode, c: SpecNNode) -> Option<SpecNNode> {
    match n {
        SpecNNode::Div { styles, children } => Some(SpecNNode::Div { styles, children: children.push(c) }),
        SpecNNode::Image { path, styles, children } => Some(
            SpecNNode::Image { path, styles, children: children.push(c) },
        ),
        SpecNNode::Button { action, styles, children } => Some(
            SpecNNode::Button { action, styles, children: children.push(c) },
        ),
        SpecNNode::Include { path, styles, children, slot } => Some(
            SpecNNode::Include { path, styles, children: children.push(c), slot },
        ),
        _ => None,
    }
}

/// The text node with its content replaced by `t`; nothing for another
/// node.
pub open spec fn with_text(n: SpecNNode, t: Seq<char>) -> Option<SpecNNode> {
    match n {
        SpecNNode::Text { content, styles } => Some(SpecNNode::Text { content: t, styles }),
        _ => None,
    }
}

/// The node with the styles `s` added after its own; nothing for an
/// unknown node.
pub open spec fn with_styles(n: SpecNNode, s: Seq<SpecStyleAttr>) -> Option<SpecNNode> {
    match n {
        SpecNNode::Div { styles, children } => Some(SpecNNode::Div { styles: styles + s, children }),
        SpecNNode::Image { path, styles, children } => Some(
            SpecNNode::Image { path, styles: styles + s, children },
        ),
        SpecNNode::Text { content, styles } => Some(SpecNNode::Text { content, styles: styles + s }),
        SpecNNode::Button { action, styles, children } => Some(
            SpecNNode::Button { action, styles: styles + s, children },
        ),
        SpecNNode::Include { path, styles, children, slot } => Some(
            SpecNNode::Include { path, styles: styles + s, children, slot },
        ),
        SpecNNode::Unkown => None,
    }
}

/// The include or image node with its path replaced by `p`; nothing for
/// another node.
pub open spec fn with_path(n: SpecNNode, p: Seq<char>) -> Option<SpecNNode> {
    match n {
        SpecNNode::Include { path, styles, children, slot } => Some(
            SpecNNode::Include { path: p, styles, children, slot },
        ),
        SpecNNode::Image { path, styles, children } => Some(SpecNNode::Image { path: p, styles, children }),
        _ => None,
    }
}

/// The outcome of a change: `Ok` with the new node where the change applies,
/// `Err` with the node unchanged where it does not.
pub open spec fn changed(old: SpecNNode, new: SpecNNode, r: Result<(), ()>, to: Option<SpecNNode>) -> bool {
    match to {
        Some(n) => r is Ok && new == n,
        None => r is Err && new == old,
    }
}

/// The view of a node, one level down.
proof fn lemma_nnode_view(n: NNode)
    ensures
        n@ == match n {
            NNode::Div(d) => SpecNNode::Div { styles: styles_view(d.styles@), children: nnodes_view(d.children@) },
            NNode::Image(d) => SpecNNode::Image {
                path: d.path@,
                styles: styles_view(d.styles@),
                children: nnodes_view(d.children@),
            },
            NNode::Text(d) => SpecNNode::Text { content: d.content@, styles: styles_view(d.styles@) },
            NNode::Button(d) => SpecNNode::Button {
                action: d.action@,
                styles: styles_view(d.styles@),
                children: nnodes_view(d.children@),
            },
            NNode::Include(d) => SpecNNode::Include {
                path: d.path@,
                styles: styles_view(d.styles@),
                children: nnodes_view(d.children@),
                slot: d.slot,
            },
            NNode::Unkown => SpecNNode::Unkown,
        },
{
    reveal_with_fuel(<NNode as View>::view, 2);
    match n {
        NNode::Div(d) => assert(n@->Div_children =~= nnodes_view(d.children@)),
        NNode::Image(d) => assert(n@->Image_children =~= nnodes_view(d.children@)),
        NNode::Button(d) => assert(n@->Button_children =~= nnodes_view(d.children@)),
        NNode::Include(d) => assert(n@->Include_children =~= nnodes_view(d.children@)),
        _ => {},
    }
}

/// A list with one more node has one more node in its view.
proof fn lemma_push_view(v: Seq<NNode>, c: NNode)
    ensures
        nnodes_view(v.push(c)) =~= nnodes_view(v).push(c@),
{
}

/// The styles of a list with others added after it.
proof fn lemma_styles_append(a: Seq<StyleAttr>, b: Seq<StyleAttr>)
    ensures
        styles_view(a + b) =~= styles_view(a) + styles_view(b),
{
}

impl NNode {
    /// The node with `child` added, and whether it could be.
    fn push_child(self, child: NNode) -> (r: (NNode, Result<(), ()>))
        ensures
            changed(self@, r.0@, r.1, with_child(self@, child@)),
    {
        proof {
            lemma_nnode_view(self);
        }
        let r = match self {
            NNode::Div(mut d) => {
                proof { lemma_push_view(d.children@, child); }
                d.children.push(child);
                (NNode::Div(d), Ok(()))
            },
            NNode::Image(mut d) => {
                proof { lemma_push_view(d.children@, child); }
                d.children.push(child);
                (NNode::Image(d), Ok(()))
            },
            NNode::Button(mut d) => {
                proof { lemma_push_view(d.children@, child); }
                d.children.push(child);
                (NNode::Button(d), Ok(()))
            },
            NNode::Include(mut d) => {
                proof { lemma_push_view(d.children@, child); }
                d.children.push(child);
                (NNode::Include(d), Ok(()))
            },
            other => (other, Err(())),
        };
        proof {
            lemma_nnode_view(r.0);
        }
        r
    }

    /// Adds `child` as the last child of a node that holds children.
    pub fn add_child(&mut self, child: NNode) -> (r: Result<(), ()>)
        ensures
            changed(old(self)@, final(self)@, r, with_child(old(self)@, child@)),
    {
        let mut n = NNode::Unkown;
        core::mem::swap(self, &mut n);
        let (n, r) = n.push_child(child);
        *self = n;
        r
    }

    /// The node with text `txt`, and whether it could take it.
    fn put_text(self, txt: &str) -> (r: (NNode, Result<(), ()>))
        ensures
            changed(self@, r.0@, r.1, with_text(self@, txt@)),
    {
        proof {
            lemma_nnode_view(self);
        }
        let r = match self {
            NNode::Text(mut d) => {
                d.content = txt.to_owned();
                (NNode::Text(d), Ok(()))
            },
            other => (other, Err(())),
        };
        proof {
            lemma_nnode_view(r.0);
        }
        r
    }

    /// Sets the content of a text node to `txt`.
    pub fn add_text(&mut self, txt: &str) -> (r: Result<(), ()>)
        ensures
            changed(old(self)@, final(self)@, r, with_text(old(self)@, txt@)),
    {
        let mut n = NNode::Unkown;
        core::mem::swap(self, &mut n);
        let (n, r) = n.put_text(txt);
        *self = n;
        r
    }

    /// The node with the styles `style` added, and whether it could take
    /// them.
    fn put_styles(self, style: Vec<StyleAttr>) -> (r: (NNode, Result<(), ()>))
        ensures
            changed(self@, r.0@, r.1, with_styles(self@, styles_view(style@))),
    {
        proof {
            lemma_nnode_view(self);
        }
        let mut style = style;
        let ghost added = style@;
        let r = match self {
            NNode::Div(mut d) => {
                proof { lemma_styles_append(d.styles@, added); }
                d.styles.append(&mut style);
                (NNode::Div(d), Ok(()))
            },
            NNode::Image(mut d) => {
                proof { lemma_styles_append(d.styles@, added); }
                d.styles.append(&mut style);
                (NNode::Image(d), Ok(()))
            },
            NNode::Text(mut d) => {
                proof { lemma_styles_append(d.styles@, added); }
                d.styles.append(&mut style);
                (NNode::Text(d), Ok(()))
            },
            NNode::Button(mut d) => {
                proof { lemma_styles_append(d.styles@, added); }
                d.styles.append(&mut style);
                (NNode::Button(d), Ok(()))
            },
            NNode::Include(mut d) => {
                proof { lemma_styles_append(d.styles@, added); }
                d.styles.append(&mut style);
                (NNode::Include(d), Ok(()))
            },
            NNode::Unkown => (NNode::Unkown, Err(())),
        };
        proof {
            lemma_nnode_view(r.0);
        }
        r
    }

    /// Adds the styles `style` after the node's own.
    pub fn add_styles(&mut self, style: Vec<StyleAttr>) -> (r: Result<(), ()>)
        ensures
            changed(old(self)@, final(self)@, r, with_styles(old(self)@, styles_view(style@))),
    {
        let mut n = NNode::Unkown;
        core::mem::swap(self, &mut n);
        let (n, r) = n.put_styles(style);
        *self = n;
        r
    }

    /// The node with path `path`, and whether it could take it.
    fn put_path(self, path: &str) -> (r: (NNode, Result<(), ()>))
        ensures
            changed(self@, r.0@, r.1, with_path(self@, path@)),
    {
        proof {
            lemma_nnode_view(self);
        }
        let r = match self {
            NNode::Include(mut d) => {
                d.path = path.to_owned();
                (NNode::Include(d), Ok(()))
            },
            NNode::Image(mut d) => {
                d.path = path.to_owned();
                (NNode::Image(d), Ok(()))
            },
            other => (other, Err(())),
        };
        proof {
            lemma_nnode_view(r.0);
        }
        r
    }

    /// Sets the path of an include or image node.
    pub fn set_path(&mut self, path: &str) -> (r: Result<(), ()>)
        ensures
            changed(old(self)@, final(self)@, r, with_path(old(self)@, path@)),
    {
        let mut n = NNode::Unkown;
        core::mem::swap(self, &mut n);
        let (n, r) = n.put_path(path);
        *self = n;
        r
    }
}

/// Whether two nodes are of the same kind.
pub open spec fn same_node_kind(a: NNode, b: NNode) -> bool {
    match (a, b) {
        (NNode::Div(_), NNode::Div(_)) => true,
        (NNode::Image(_), NNode::Image(_)) => true,
        (NNode::Text(_), NNode::Text(_)) => true,
        (NNode::Button(_), NNode::Button(_)) => true,
        (NNode::Include(_), NNode::Include(_)) => true,
        (NNode::Unkown, NNode::Unkown) => true,
        _ => false,
    }
}

impl PartialEq for NNode {
    /// Nodes are equal when they are of the same kind.
    fn eq(&self, other: &NNode) -> (r: bool) {
        match (self, other) {
            (NNode::Div(_), NNode::Div(_)) => true,
            (NNode::Image(_), NNode::Image(_)) => true,
            (NNode::Text(_), NNode::Text(_)) => true,
            (NNode::Button(_), NNode::Button(_)) => true,
            (NNode::Include(_), NNode::Include(_)) => true,
            (NNode::Unkown, NNode::Unkown) => true,
            _ => false,
        }
    }
}

impl vstd::std_specs::cmp::PartialEqSpecImpl for NNode {
    open spec fn obeys_eq_spec() -> bool {
        true
    }

    open spec fn eq_spec(&self, other: &NNode) -> bool {
        same_node_kind(*self, *other)
    }
}

/// The children of a node (none for a text or unknown node).
pub open spec fn children_of(n: SpecNNode) -> Seq<SpecNNode> {
    match n {
        SpecNNode::Div { children, .. } => children,
        SpecNNode::Image { children, .. } => children,
        SpecNNode::Button { children, .. } => children,
        SpecNNode::Include { children, .. } => children,
        _ => Seq::empty(),
    }
}

/// The styles of a node (none for an unknown node).
pub open spec fn styles_of(n: SpecNNode) -> Seq<SpecStyleAttr> {
    match n {
        SpecNNode::Div { styles, .. } => styles,
        SpecNNode::Image { styles, .. } => styles,
        SpecNNode::Text { styles, .. } => styles,
        SpecNNode::Button { styles, .. } => styles,
        SpecNNode::Include { styles, .. } => styles,
        SpecNNode::Unkown => Seq::empty(),
    }
}

/// The path of an image or include node.
pub open spec fn path_of(n: SpecNNode) -> Option<Seq<char>> {
    match n {
        SpecNNode::Image { path, .. } => Some(path),
        SpecNNode::Include { path, .. } => Some(path),
        _ => None,
    }
}

/// The content of a text node.
pub open spec fn text_of(n: SpecNNode) -> Option<Seq<char>> {
    match n {
        SpecNNode::Text { content, .. } => Some(content),
        _ => None,
    }
}

/// Whether two nodes are of one kind.
pub open spec fn same_kind(a: SpecNNode, b: SpecNNode) -> bool {
    (a is Div && b is Div) || (a is Image && b is Image) || (a is Text && b is Text) || (a is Button
        && b is Button) || (a is Include && b is Include) || (a is Unkown && b is Unkown)
}

/// Building a node changes only what the step names: a child is added at
/// the end of the children of a div, image, button or include node; a text
/// replaces the content of a text node; styles are added after the node's
/// own on any known node; a path replaces that of an image or include node.
/// The node keeps its kind and everything else.
pub proof fn law_node_building(n: SpecNNode, c: SpecNNode, t: Seq<char>, st: Seq<SpecStyleAttr>)
    ensures
        (n is Div || n is Image || n is Button || n is Include) <==> with_child(n, c) is Some,
        with_child(n, c) matches Some(m) ==> same_kind(n, m) && children_of(m) == children_of(n).push(c)
            && styles_of(m) == styles_of(n) && path_of(m) == path_of(n),
        n is Text <==> with_text(n, t) is Some,
        with_text(n, t) matches Some(m) ==> same_kind(n, m) && text_of(m) == Some(t) && styles_of(m)
            == styles_of(n),
        !(n is Unkown) <==> with_styles(n, st) is Some,
        with_styles(n, st) matches Some(m) ==> same_kind(n, m) && styles_of(m) == styles_of(n) + st
            && children_of(m) == children_of(n) && path_of(m) == path_of(n) && text_of(m) == text_of(n),
        (n is Image || n is Include) <==> with_path(n, t) is Some,
        with_path(n, t) matches Some(m) ==> same_kind(n, m) && path_of(m) == Some(t) && children_of(m)
            == children_of(n) && styles_of(m) == styles_of(n),
{
}

} // verus!
