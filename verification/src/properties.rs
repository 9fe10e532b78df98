//! Template properties: the definitions a node holds, the property uses it
//! waits on, the tags it carries, and the lookup of a definition from a node
//! up through its ancestors.
use crate::attribute::{AttrTokens, SpecAttrTokens};
use crate::table::{str_eq, table_get, table_insert, SpecEntries, StringMap};
use vstd::prelude::*;

verus! {

/// Property definitions of a node: names and their texts.
#[derive(Debug, Clone, PartialEq, Default)]
pub struct PropertyDefintions(pub StringMap);

impl View for PropertyDefintions {
    type V = SpecEntries;

    open spec fn view(&self) -> SpecEntries {
        self.0@
    }
}

impl PropertyDefintions {
    /// No definitions.
    pub fn new() -> (r: PropertyDefintions)
        ensures
            r@ == Seq::<(Seq<char>, Seq<char>)>::empty(),
    {
        PropertyDefintions(StringMap::new())
    }

    /// These definitions with `key` set to `value`.
    pub fn with(self, key: String, value: String) -> (r: PropertyDefintions)
        ensures
            r@ == table_insert(self@, key@, value@),
    {
        let mut m = self.0;
        m.insert(key, value);
        PropertyDefintions(m)
    }

    /// The text of `key`.
    pub fn get(&self, key: &str) -> (r: Option<&String>)
        ensures
            r matches Some(v) ==> table_get(self@, key@) == Some(v@),
            r is None ==> table_get(self@, key@) is None,
    {
        self.0.get(key)
    }
}

/// The definition of `key` seen from the first node of `lineage` (the node,
/// then its parent, and so on up): that of the nearest node that defines
/// it. A node without definitions is passed over.
pub open spec fn def_in_lineage(lineage: Seq<Option<SpecEntries>>, key: Seq<char>) -> Option<Seq<char>>
    decreases lineage.len(),
{
    if lineage.len() == 0 {
        None
    } else {
        match lineage[0] {
            Some(d) if table_get(d, key) is Some => table_get(d, key),
            _ => def_in_lineage(lineage.drop_first(), key),
        }
    }
}

/// The definitions along a lineage as mathematical values.
pub open spec fn lineage_view(lineage: Seq<Option<&PropertyDefintions>>) -> Seq<Option<SpecEntries>> {
    Seq::new(
        lineage.len(),
        |i: int|
            match lineage[i] {
                Some(d) => Some(d@),
                None => None,
            },
    )
}

/// The definition of `key` seen from the first node of `lineage`, as
/// `def_in_lineage` says.
pub fn find_def<'a>(key: &str, lineage: &[Option<&'a PropertyDefintions>]) -> (r: Option<&'a str>)
    ensures
        r matches Some(v) ==> def_in_lineage(lineage_view(lineage@), key@) == Some(v@),
        r is None ==> def_in_lineage(lineage_view(lineage@), key@) is None,
{
    let ghost all = lineage_view(lineage@);
    let mut i: usize = 0;
    assert(all.subrange(0, all.len() as int) =~= all);
    while i < lineage.len()
        invariant
            0 <= i <= lineage.len(),
            all == lineage_view(lineage@),
            def_in_lineage(all.subrange(i as int, all.len() as int), key@) == def_in_lineage(all, key@),
        decreases lineage.len() - i,
    {
        let ghost rest = all.subrange(i as int, all.len() as int);
        assert(rest.drop_first() =~= all.subrange(i + 1, all.len() as int));
        if let Some(defs) = lineage[i] {
            if let Some(v) = defs.get(key) {
                return Some(v.as_str());
            }
        }
        i = i + 1;
    }
    None
}

/// The property uses of a node.
#[derive(Debug, Clone, PartialEq)]
pub struct Properties(pub Vec<AttrTokens>);

impl Properties {
    /// The property uses `props`.
    pub fn new(props: Vec<AttrTokens>) -> (r: Properties)
        ensures
            r.0@ == props@,
    {
        Properties(props)
    }

    /// Whether a use of the same property as `prop` is among them.
    pub fn has(&self, prop: &AttrTokens) -> (r: bool)
        ensures
            r == exists|i: int| 0 <= i < self.0.len() && #[trigger] self.0@[i]@.key == prop@.key,
    {
        let mut i: usize = 0;
        while i < self.0.len()
            invariant
                0 <= i <= self.0.len(),
                forall|j: int| 0 <= j < i ==> #[trigger] self.0@[j]@.key != prop@.key,
            decreases self.0.len() - i,
        {
            if str_eq(self.0[i].key.as_str(), prop.key.as_str()) {
                assert(self.0@[i as int]@.key == prop@.key);
                return true;
            }
            i = i + 1;
        }
        false
    }
}

/// The properties of a template instance: names and their texts.
#[derive(Debug, Clone, PartialEq, Default)]
pub struct TemplateProperties {
    pub props: StringMap,
}

impl TemplateProperties {
    /// No properties.
    pub fn new() -> (r: TemplateProperties)
        ensures
            r.props@ == Seq::<(Seq<char>, Seq<char>)>::empty(),
    {
        TemplateProperties { props: StringMap::new() }
    }

    /// Sets `key` to `value` unless the key is set already.
    pub fn try_set_prop(&mut self, key: &str, value: String)
        ensures
            table_get(old(self).props@, key@) is Some ==> final(self).props@ == old(self).props@,
            table_get(old(self).props@, key@) is None ==> final(self).props@ == table_insert(
                old(self).props@,
                key@,
                value@,
            ),
    {
        self.props.try_insert(key.to_owned(), value);
    }

    /// Sets `key` to `value`.
    pub fn set_prop(&mut self, key: &str, value: String)
        ensures
            final(self).props@ == table_insert(old(self).props@, key@, value@),
    {
        self.props.insert(key.to_owned(), value);
    }

    /// The text of `key`.
    pub fn get_prop(&self, key: &str) -> (r: Option<&String>)
        ensures
            r matches Some(v) ==> table_get(self.props@, key@) == Some(v@),
            r is None ==> table_get(self.props@, key@) is None,
    {
        self.props.get(key)
    }

    /// These properties with `key` set to `value`.
    pub fn with(self, key: &str, value: &str) -> (r: TemplateProperties)
        ensures
            r.props@ == table_insert(self.props@, key@, value@),
    {
        let mut s = self;
        s.props.insert(key.to_owned(), value.to_owned());
        s
    }
}

/// A tag of a node: a name and a text.
#[derive(Debug, Clone, PartialEq)]
pub struct Tag {
    pub key: String,
    pub value: String,
}

/// The tags of a node.
#[derive(Debug, Clone, PartialEq)]
pub struct Tags(pub Vec<Tag>);

/// The first index at or after `i` whose tag has the name `k`.
pub open spec fn tag_index(tags: Seq<Tag>, k: Seq<char>, i: int) -> Option<int>
    decreases tags.len() - i,
{
    if i < 0 || i >= tags.len() {
        None
    } else if tags[i].key@ == k {
        Some(i)
    } else {
        tag_index(tags, k, i + 1)
    }
}

impl Tags {
    /// The text of the first tag named `key`.
    pub fn get_tag(&self, key: &str) -> (r: Option<&str>)
        ensures
            r matches Some(v) ==> tag_index(self.0@, key@, 0) matches Some(i) && v@ == self.0@[i].value@,
            r is None ==> tag_index(self.0@, key@, 0) is None,
    {
        let mut i: usize = 0;
        while i < self.0.len()
            invariant
                0 <= i <= self.0.len(),
                tag_index(self.0@, key@, i as int) == tag_index(self.0@, key@, 0),
            decreases self.0.len() - i,
        {
            if str_eq(self.0[i].key.as_str(), key) {
                return Some(self.0[i].value.as_str());
            }
            i = i + 1;
        }
        None
    }
}

} // verus!
