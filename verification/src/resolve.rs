//! Resolving the use of a template property in an attribute: the attribute
//! is read again with the property's text as its value, until it no longer
//! uses a property.
use crate::attribute::{attribute_at, attribute_from_parts, law_conditional_prefix, prop_var_at, AttrTokens, Attribute, SpecAttrTokens, SpecAttribute, SpecStyleAttr};
use crate::style::{html_add, html_fold, HtmlStyle, SpecHtmlStyle};
use crate::table::{table_get, table_insert, SpecEntries, StringMap};
use vstd::prelude::*;
use vstd::string::StringSliceAdditionalSpecFns;
use vstd::utf8::encode_utf8;

verus! {

/// The UTF-8 bytes of an optional text.
pub open spec fn opt_text_bytes(p: Option<Seq<char>>) -> Option<Seq<u8>> {
    match p {
        Some(x) => Some(encode_utf8(x)),
        None => None,
    }
}

/// An optional attribute as a mathematical value.
pub open spec fn opt_attribute_view(r: Option<Attribute>) -> Option<SpecAttribute> {
    match r {
        Some(a) => Some(a@),
        None => None,
    }
}

/// One step of resolving the property use `t`: the attribute read from
/// `t`'s prefix and name with the property's text as its value; nothing
/// where the property is missing or the attribute cannot be read.
pub open spec fn resolve_once(t: SpecAttrTokens, props: SpecEntries) -> Option<SpecAttribute> {
    match table_get(props, t.key) {
        None => None,
        Some(v) => match attribute_at(opt_text_bytes(t.prefix), encode_utf8(t.ident), encode_utf8(v)) {
            Ok(a) => Some(a),
            Err(_) => None,
        },
    }
}

/// Resolution of `t` in at most `n` steps: `Some` with its outcome where a
/// step gives something other than a further property use, `None` where
/// `n` steps do not reach that.
pub open spec fn resolve_within(t: SpecAttrTokens, props: SpecEntries, n: nat) -> Option<Option<SpecAttribute>>
    decreases n,
{
    if n == 0 {
        None
    } else {
        match resolve_once(t, props) {
            Some(SpecAttribute::Uncompiled(u)) => resolve_within(u, props, (n - 1) as nat),
            r => Some(r),
        }
    }
}

/// Whether the chain of property uses from `t` comes to an end.
pub open spec fn resolves(t: SpecAttrTokens, props: SpecEntries) -> bool {
    exists|n: nat| resolve_within(t, props, n) is Some
}

/// The outcome of resolving `t`, where the chain comes to an end.
pub open spec fn resolved(t: SpecAttrTokens, props: SpecEntries) -> Option<SpecAttribute> {
    resolve_within(t, props, choose|n: nat| resolve_within(t, props, n) is Some)->0
}

/// Once resolution ends within `n` steps, more steps give the same outcome.
pub proof fn lemma_resolve_within_mono(t: SpecAttrTokens, props: SpecEntries, n: nat, m: nat)
    requires
        resolve_within(t, props, n) is Some,
        n <= m,
    ensures
        resolve_within(t, props, m) == resolve_within(t, props, n),
    decreases n,
{
    if let Some(SpecAttribute::Uncompiled(u)) = resolve_once(t, props) {
        lemma_resolve_within_mono(u, props, (n - 1) as nat, (m - 1) as nat);
    }
}

/// Resolution that ends within `n` steps has the outcome `resolved` names.
pub proof fn lemma_resolved(t: SpecAttrTokens, props: SpecEntries, n: nat)
    requires
        resolve_within(t, props, n) is Some,
    ensures
        resolves(t, props),
        resolved(t, props) == resolve_within(t, props, n)->0,
{
    let c = choose|c: nat| resolve_within(t, props, c) is Some;
    if c <= n {
        lemma_resolve_within_mono(t, props, c, n);
    } else {
        lemma_resolve_within_mono(t, props, n, c);
    }
}

/// Property uses resolve recursively: where the property's text is itself
/// a use, the first use stands for what the second stands for; and where
/// it is no use, for the attribute read from it.
pub proof fn law_resolution_is_recursive(t: SpecAttrTokens, props: SpecEntries)
    ensures
        resolve_once(t, props) matches Some(SpecAttribute::Uncompiled(u)) ==> (resolves(u, props)
            ==> resolves(t, props) && resolved(t, props) == resolved(u, props)),
        !(resolve_once(t, props) matches Some(SpecAttribute::Uncompiled(_))) ==> resolves(t, props)
            && resolved(t, props) == resolve_once(t, props),
{
    if let Some(SpecAttribute::Uncompiled(u)) = resolve_once(t, props) {
        if resolves(u, props) {
            let n = choose|n: nat| resolve_within(u, props, n) is Some;
            assert(resolve_within(t, props, n + 1) == resolve_within(u, props, n));
            lemma_resolved(t, props, n + 1);
            lemma_resolved(u, props, n);
        }
    } else {
        assert(resolve_within(t, props, 1) == Some(resolve_once(t, props)));
        lemma_resolved(t, props, 1);
    }
}

/// Under the prefix `hover` or `pressed`, reading a value as an attribute
/// gives the style that it gives without the prefix, under that condition.
proof fn lemma_attribute_under_condition(p: Seq<u8>, key: Seq<u8>, v: Seq<u8>)
    requires
        p == "hover".spec_bytes() || p == "pressed".spec_bytes(),
    ensures
        attribute_at(None, key, v) matches Ok(SpecAttribute::Style(x)) ==> attribute_at(Some(p), key, v)
            == Ok::<SpecAttribute, crate::lex::Fail>(
            SpecAttribute::Style(
                if p == "hover".spec_bytes() {
                    SpecStyleAttr::Hover(Box::new(x))
                } else {
                    SpecStyleAttr::Pressed(Box::new(x))
                },
            ),
        ),
{
    reveal(attribute_at);
    reveal_strlit("hover");
    reveal_strlit("pressed");
    reveal_strlit("tag");
    reveal_strlit("prop");
    vstd::string::is_ascii_spec_bytes("hover");
    vstd::string::is_ascii_spec_bytes("pressed");
    vstd::string::is_ascii_spec_bytes("tag");
    vstd::string::is_ascii_spec_bytes("prop");
    law_conditional_prefix(p, key, v);
    assert(prop_var_at(None, key, v) is None ==> prop_var_at(Some(p), key, v) is None);
    assert(!(p =~= "tag".spec_bytes())) by {
        if p =~= "tag".spec_bytes() {
            assert(p[0] == "tag".spec_bytes()[0]);
        }
    }
    assert(!(p =~= "prop".spec_bytes())) by {
        if p =~= "prop".spec_bytes() {
            assert(p[1] == "prop".spec_bytes()[1]);
        }
    }
    assert(p == "hover".spec_bytes() ==> p != "pressed".spec_bytes()) by {
        if p == "hover".spec_bytes() && p == "pressed".spec_bytes() {
            assert("hover".spec_bytes()[0] == "pressed".spec_bytes()[0]);
        }
    }
}

/// A property use keeps the condition of its attribute: where resolving
/// `name="{key}"` gives a style, resolving `hover:name="{key}"` gives that
/// style under hover, and `pressed:name="{key}"` under press.
pub proof fn law_resolution_keeps_condition(ident: Seq<char>, key: Seq<char>, props: SpecEntries)
    ensures
        resolve_once(SpecAttrTokens { prefix: None, ident, key }, props) matches Some(SpecAttribute::Style(x))
            ==> resolved(SpecAttrTokens { prefix: Some("hover"@), ident, key }, props) == Some(
            SpecAttribute::Style(SpecStyleAttr::Hover(Box::new(x))),
        ) && resolved(SpecAttrTokens { prefix: Some("pressed"@), ident, key }, props) == Some(
            SpecAttribute::Style(SpecStyleAttr::Pressed(Box::new(x))),
        ),
{
    let plain = SpecAttrTokens { prefix: None, ident, key };
    let hover = SpecAttrTokens { prefix: Some("hover"@), ident, key };
    let pressed = SpecAttrTokens { prefix: Some("pressed"@), ident, key };
    if let Some(SpecAttribute::Style(x)) = resolve_once(plain, props) {
        let v = table_get(props, key)->0;
        assert(opt_text_bytes(hover.prefix) == Some("hover".spec_bytes()));
        assert(opt_text_bytes(pressed.prefix) == Some("pressed".spec_bytes()));
        lemma_attribute_under_condition("hover".spec_bytes(), encode_utf8(ident), encode_utf8(v));
        lemma_attribute_under_condition("pressed".spec_bytes(), encode_utf8(ident), encode_utf8(v));
        reveal_strlit("hover");
        reveal_strlit("pressed");
        vstd::string::is_ascii_spec_bytes("hover");
        vstd::string::is_ascii_spec_bytes("pressed");
        assert("hover".spec_bytes() != "pressed".spec_bytes()) by {
            assert("hover".spec_bytes()[0] != "pressed".spec_bytes()[0]);
        }
        assert(resolve_within(hover, props, 1) == Some(resolve_once(hover, props)));
        assert(resolve_within(pressed, props, 1) == Some(resolve_once(pressed, props)));
        lemma_resolved(hover, props, 1);
        lemma_resolved(pressed, props, 1);
    }
}

impl AttrTokens {
    /// One step of resolution, as `resolve_once` says.
    fn resolve_step(&self, props: &StringMap) -> (r: Option<Attribute>)
        ensures
            opt_attribute_view(r) == resolve_once(self@, props@),
    {
        let value = match props.get(self.key.as_str()) {
            Some(v) => v,
            None => return None,
        };
        let prefix = match &self.prefix {
            Some(p) => Some(p.as_str().as_bytes()),
            None => None,
        };
        match attribute_from_parts(prefix, self.ident.as_str().as_bytes(), value.as_str().as_bytes()) {
            Ok(a) => Some(a),
            Err(_) => None,
        }
    }

    /// Resolution with a ghost bound on the number of steps.
    fn compile_within(&self, props: &StringMap, Ghost(n): Ghost<nat>) -> (r: Option<Attribute>)
        requires
            resolve_within(self@, props@, n) is Some,
        ensures
            opt_attribute_view(r) == resolve_within(self@, props@, n)->0,
        decreases n,
    {
        match self.resolve_step(props) {
            Some(Attribute::Uncompiled(u)) => u.compile_within(props, Ghost((n - 1) as nat)),
            r => r,
        }
    }

    /// Resolution in at most `steps` steps, as `resolve_within` says.
    fn compile_steps(&self, props: &StringMap, steps: usize) -> (r: Option<Option<Attribute>>)
        ensures
            r is None <==> resolve_within(self@, props@, steps as nat) is None,
            r matches Some(x) ==> resolve_within(self@, props@, steps as nat) == Some(opt_attribute_view(x)),
        decreases steps,
    {
        if steps == 0 {
            return None;
        }
        match self.resolve_step(props) {
            Some(Attribute::Uncompiled(u)) => u.compile_steps(props, steps - 1),
            r => Some(r),
        }
    }

    /// The attribute that this property use stands for: the property's text
    /// read as the attribute's value, again while that text is itself a
    /// property use. Nothing where a property is missing or a text cannot
    /// be read. The chain of uses must come to an end.
    pub fn compile(&self, props: &StringMap) -> (r: Option<Attribute>)
        requires
            resolves(self@, props@),
        ensures
            opt_attribute_view(r) == resolved(self@, props@),
    {
        let ghost n = choose|n: nat| resolve_within(self@, props@, n) is Some;
        self.compile_within(props, Ghost(n))
    }

    /// `compile`, where the chain of property uses ends within `steps`
    /// steps; `None` where it does not.
    pub fn try_compile(&self, props: &StringMap, steps: usize) -> (r: Option<Option<Attribute>>)
        ensures
            r is None <==> resolve_within(self@, props@, steps as nat) is None,
            r matches Some(x) ==> opt_attribute_view(x) == resolved(self@, props@),
            r matches Some(x) ==> opt_attribute_view(x) == resolve_within(self@, props@, steps as nat)->0,
    {
        match self.compile_steps(props, steps) {
            Some(_) => {
                proof {
                    lemma_resolved(self@, props@, steps as nat);
                }
                Some(self.compile(props))
            },
            None => None,
        }
    }
}

/// The attributes that the property uses `exprs` stand for, in order,
/// leaving out those that resolve to nothing.
pub open spec fn resolved_all(exprs: Seq<SpecAttrTokens>, props: SpecEntries) -> Seq<SpecAttribute>
    decreases exprs.len(),
{
    if exprs.len() == 0 {
        Seq::empty()
    } else {
        let r = resolved_all(exprs.drop_last(), props);
        match resolved(exprs.last(), props) {
            Some(a) => r.push(a),
            None => r,
        }
    }
}

/// The style after the style attributes of `attrs`, added in order.
pub open spec fn add_styles_of(h: SpecHtmlStyle, attrs: Seq<SpecAttribute>) -> SpecHtmlStyle
    decreases attrs.len(),
{
    if attrs.len() == 0 {
        h
    } else {
        let g = add_styles_of(h, attrs.drop_last());
        match attrs.last() {
            SpecAttribute::Style(st) => html_add(g, st),
            _ => g,
        }
    }
}

/// The attributes of `attrs` that are no styles, in order.
pub open spec fn non_styles(attrs: Seq<SpecAttribute>) -> Seq<SpecAttribute>
    decreases attrs.len(),
{
    if attrs.len() == 0 {
        Seq::empty()
    } else {
        let r = non_styles(attrs.drop_last());
        match attrs.last() {
            SpecAttribute::Style(_) => r,
            a => r.push(a),
        }
    }
}

/// The property definitions among `attrs`, in order.
pub open spec fn definitions_of(attrs: Seq<SpecAttribute>) -> Seq<(Seq<char>, Seq<char>)>
    decreases attrs.len(),
{
    if attrs.len() == 0 {
        Seq::empty()
    } else {
        let r = definitions_of(attrs.drop_last());
        match attrs.last() {
            SpecAttribute::PropertyDefinition(k, v) => r.push((k, v)),
            _ => r,
        }
    }
}

/// The table after setting each entry of `defs`, in order.
pub open spec fn insert_all(m: SpecEntries, defs: Seq<(Seq<char>, Seq<char>)>) -> SpecEntries
    decreases defs.len(),
{
    if defs.len() == 0 {
        m
    } else {
        let n = insert_all(m, defs.drop_last());
        table_insert(n, defs.last().0, defs.last().1)
    }
}

/// The property uses of a list as mathematical values.
pub open spec fn tokens_of(v: Seq<AttrTokens>) -> Seq<SpecAttrTokens> {
    Seq::new(v.len(), |i: int| v[i]@)
}

/// The attributes of a list as mathematical values.
pub open spec fn attributes_of(v: Seq<Attribute>) -> Seq<SpecAttribute> {
    Seq::new(v.len(), |i: int| v[i]@)
}

/// Whether every use of `exprs` comes to an end with `props`.
pub open spec fn all_resolve(exprs: Seq<SpecAttrTokens>, props: SpecEntries) -> bool {
    forall|i: int| 0 <= i < exprs.len() ==> resolves(#[trigger] exprs[i], props)
}

/// Resolves the property uses of a node with its template's properties:
/// each style that comes out is added to the node's style, and the other
/// attributes are handed back, in order, for the node to take. A use that
/// resolves to nothing is passed over.
pub fn compile_node_attributes(style: &mut HtmlStyle, exprs: &Vec<AttrTokens>, props: &StringMap) -> (r: Vec<Attribute>)
    requires
        all_resolve(tokens_of(exprs@), props@),
    ensures
        final(style)@ == add_styles_of(old(style)@, resolved_all(tokens_of(exprs@), props@)),
        attributes_of(r@) == non_styles(resolved_all(tokens_of(exprs@), props@)),
{
    let ghost all = tokens_of(exprs@);
    let mut rest: Vec<Attribute> = Vec::new();
    let mut i: usize = 0;
    while i < exprs.len()
        invariant
            i <= exprs.len(),
            all == tokens_of(exprs@),
            all_resolve(all, props@),
            style@ == add_styles_of(old(style)@, resolved_all(all.take(i as int), props@)),
            attributes_of(rest@) == non_styles(resolved_all(all.take(i as int), props@)),
        decreases exprs.len() - i,
    {
        let ghost done = resolved_all(all.take(i as int), props@);
        assert(all.take(i + 1).drop_last() =~= all.take(i as int));
        assert(all.take(i + 1).last() == exprs@[i as int]@);
        assert(resolves(all[i as int], props@));
        proof {
            let t = all.take(i + 1);
            assert(t.drop_last() =~= all.take(i as int));
            assert(t.last() == all[i as int]);
        }
        match exprs[i].compile(props) {
            Some(Attribute::Style(st)) => {
                let ghost sv = st@;
                style.add_style_attr(st);
                assert(done.push(SpecAttribute::Style(sv)).drop_last() =~= done);
            },
            Some(a) => {
                let ghost av = a@;
                rest.push(a);
                assert(done.push(av).drop_last() =~= done);
                assert(attributes_of(rest@) =~= non_styles(done).push(av));
            },
            None => {},
        }
        i = i + 1;
    }
    assert(all.take(exprs.len() as int) =~= all);
    rest
}

/// Resolves the property uses of a node with the properties of the
/// template around it, and sets each property definition that comes out in
/// the node's own properties, in order. Every use must resolve to an
/// attribute.
pub fn compile_context_definitions(exprs: &Vec<AttrTokens>, parent: &StringMap, context: &mut StringMap)
    requires
        all_resolve(tokens_of(exprs@), parent@),
        forall|i: int| 0 <= i < exprs.len() ==> resolved(#[trigger] tokens_of(exprs@)[i], parent@) is Some,
    ensures
        final(context)@ == insert_all(old(context)@, definitions_of(resolved_all(tokens_of(exprs@), parent@))),
{
    let ghost all = tokens_of(exprs@);
    let mut defs: Vec<(String, String)> = Vec::new();
    let mut i: usize = 0;
    while i < exprs.len()
        invariant
            i <= exprs.len(),
            all == tokens_of(exprs@),
            all_resolve(all, parent@),
            forall|j: int| 0 <= j < exprs.len() ==> resolved(#[trigger] all[j], parent@) is Some,
            crate::table::entries_view(defs@) == definitions_of(resolved_all(all.take(i as int), parent@)),
        decreases exprs.len() - i,
    {
        let ghost done = resolved_all(all.take(i as int), parent@);
        assert(all.take(i + 1).drop_last() =~= all.take(i as int));
        assert(all.take(i + 1).last() == exprs@[i as int]@);
        assert(resolves(all[i as int], parent@));
        assert(resolved(all[i as int], parent@) is Some);
        proof {
            let t = all.take(i + 1);
            assert(t.drop_last() =~= all.take(i as int));
            assert(t.last() == all[i as int]);
        }
        match exprs[i].compile(parent) {
            Some(Attribute::PropertyDefinition(k, v)) => {
                let ghost kv = (k@, v@);
                defs.push((k, v));
                assert(done.push(SpecAttribute::PropertyDefinition(kv.0, kv.1)).drop_last() =~= done);
                assert(crate::table::entries_view(defs@) =~= definitions_of(done).push(kv));
            },
            Some(a) => {
                assert(done.push(a@).drop_last() =~= done);
            },
            None => {},
        }
        i = i + 1;
    }
    assert(all.take(exprs.len() as int) =~= all);
    let ghost found = crate::table::entries_view(defs@);
    let ghost start = context@;
    let mut j: usize = 0;
    while j < defs.len()
        invariant
            j <= defs.len(),
            found == crate::table::entries_view(defs@),
            context@ == insert_all(start, found.take(j as int)),
        decreases defs.len() - j,
    {
        assert(found.take(j + 1).drop_last() =~= found.take(j as int));
        let k = defs[j].0.clone();
        let v = defs[j].1.clone();
        context.insert(k, v);
        j = j + 1;
    }
    assert(found.take(defs.len() as int) =~= found);
}

/// Whether every use of `exprs` ends within `steps` steps and, where
/// `need_some` holds, resolves to an attribute.
fn all_end_within(exprs: &Vec<AttrTokens>, props: &StringMap, steps: usize, need_some: bool) -> (b: bool)
    ensures
        b <==> forall|i: int|
            0 <= i < exprs.len() ==> (#[trigger] resolve_within(tokens_of(exprs@)[i], props@, steps as nat)
                matches Some(x) && (need_some ==> x is Some)),
{
    let ghost all = tokens_of(exprs@);
    let mut i: usize = 0;
    while i < exprs.len()
        invariant
            i <= exprs.len(),
            all == tokens_of(exprs@),
            forall|j: int|
                0 <= j < i ==> (#[trigger] resolve_within(all[j], props@, steps as nat) matches Some(x) && (
                need_some ==> x is Some)),
        decreases exprs.len() - i,
    {
        assert(all[i as int] == exprs@[i as int]@);
        match exprs[i].compile_steps(props, steps) {
            Some(x) => {
                if need_some && x.is_none() {
                    return false;
                }
            },
            None => return false,
        }
        i = i + 1;
    }
    true
}

/// Uses that each end within some number of steps resolve, each to what
/// that bounded resolution gives.
proof fn lemma_all_resolve(exprs: Seq<SpecAttrTokens>, props: SpecEntries, steps: nat)
    requires
        forall|i: int| 0 <= i < exprs.len() ==> (#[trigger] resolve_within(exprs[i], props, steps)) is Some,
    ensures
        all_resolve(exprs, props),
        forall|i: int|
            0 <= i < exprs.len() ==> resolved(#[trigger] exprs[i], props) == resolve_within(exprs[i], props, steps)->0,
{
    assert forall|i: int| 0 <= i < exprs.len() implies resolves(#[trigger] exprs[i], props) && resolved(exprs[i], props)
        == resolve_within(exprs[i], props, steps)->0 by {
        lemma_resolved(exprs[i], props, steps);
    }
}

/// `compile_node_attributes`, where every use ends within `steps` steps;
/// otherwise `None`, with the style unchanged.
pub fn try_compile_node_attributes(style: &mut HtmlStyle, exprs: &Vec<AttrTokens>, props: &StringMap, steps: usize) -> (r:
    Option<Vec<Attribute>>)
    ensures
        r is Some <==> forall|i: int|
            0 <= i < exprs.len() ==> (#[trigger] resolve_within(tokens_of(exprs@)[i], props@, steps as nat)) is Some,
        r is None ==> final(style)@ == old(style)@,
        r matches Some(v) ==> final(style)@ == add_styles_of(old(style)@, resolved_all(tokens_of(exprs@), props@))
            && attributes_of(v@) == non_styles(resolved_all(tokens_of(exprs@), props@)),
{
    if !all_end_within(exprs, props, steps, false) {
        return None;
    }
    proof {
        lemma_all_resolve(tokens_of(exprs@), props@, steps as nat);
    }
    Some(compile_node_attributes(style, exprs, props))
}

/// `compile_context_definitions`, where every use ends within `steps`
/// steps in an attribute; otherwise `false`, with the properties unchanged.
pub fn try_compile_context_definitions(exprs: &Vec<AttrTokens>, parent: &StringMap, context: &mut StringMap, steps: usize) -> (r:
    bool)
    ensures
        r <==> forall|i: int|
            0 <= i < exprs.len() ==> (#[trigger] resolve_within(tokens_of(exprs@)[i], parent@, steps as nat)
                matches Some(x) && x is Some),
        !r ==> final(context)@ == old(context)@,
        r ==> final(context)@ == insert_all(old(context)@, definitions_of(resolved_all(tokens_of(exprs@), parent@))),
{
    if !all_end_within(exprs, parent, steps, true) {
        return false;
    }
    proof {
        lemma_all_resolve(tokens_of(exprs@), parent@, steps as nat);
    }
    compile_context_definitions(exprs, parent, context);
    true
}

} // verus!
