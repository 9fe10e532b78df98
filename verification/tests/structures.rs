use bevy_hui::attribute::{Action, AttrTokens, Attribute, StyleAttr};
use bevy_hui::resolve::{
    compile_context_definitions, compile_node_attributes, try_compile_context_definitions,
    try_compile_node_attributes,
};
use bevy_hui::style::HtmlStyle;
use bevy_hui::content::compile_content;
use bevy_hui::location::{get_line_num, get_line_parts_and_num};
use bevy_hui::node::{Div, Image, NNode, Text};
use bevy_hui::properties::{find_def, Properties, PropertyDefintions, Tag, Tags, TemplateProperties};
use bevy_hui::slot_map::{SlotId, SlotMap};
use bevy_hui::table::StringMap;
use bevy_hui::timer::{InteractionTimer, DURATION_MAX_NANOS};
use bevy_hui::values::Val;

#[test]
fn slot_map_insert_get_remove() {
    let mut m: SlotMap<&str> = SlotMap::new();
    let a = m.insert("a");
    let b = m.insert("b");
    assert_eq!(a.index(), 0);
    assert_eq!(b.index(), 1);
    assert_eq!(m.get(a), Some(&"a"));
    assert_eq!(m.get(b), Some(&"b"));
    if let Some(v) = m.get_mut(b) {
        *v = "c";
    }
    assert_eq!(m.get(b), Some(&"c"));
    assert_eq!(m.remove(a), Some("a"));
    // the slots after a removed one move down
    assert_eq!(m.get(a), Some(&"c"));
    assert_eq!(m.get(b), None);
}

#[test]
fn slot_map_reuses_removed_numbers() {
    let mut m: SlotMap<u8> = SlotMap::new();
    let a = m.insert(1);
    let _b = m.insert(2);
    assert_eq!(m.remove(a), Some(1));
    let c = m.insert(3);
    assert_eq!(c.index(), 0);
    assert_eq!(m.get(c), Some(&3));
}

#[test]
fn slot_id_default_is_out_of_range() {
    let m: SlotMap<u8> = SlotMap::new();
    let id = SlotId::default();
    assert_eq!(id.index(), usize::MAX);
    assert_eq!(m.get(id), None);
}

fn defs(pairs: &[(&str, &str)]) -> StringMap {
    let mut m = StringMap::new();
    for (k, v) in pairs {
        m.insert(k.to_string(), v.to_string());
    }
    m
}

#[test]
fn content_placeholders() {
    let d = defs(&[("name", "World"), ("n", "3")]);
    assert_eq!(compile_content("Hello {name}!", &d), "Hello World!");
    assert_eq!(compile_content("{ name  } has {n}", &d), "World has 3");
    assert_eq!(compile_content("{missing} end", &d), " end");
    assert_eq!(compile_content("no braces", &d), "no braces");
    assert_eq!(compile_content("open { only", &d), "open { only");
    assert_eq!(compile_content("a {} b", &d), "a {} b");
    assert_eq!(compile_content("", &d), "");
}

#[test]
fn template_properties() {
    let mut p = TemplateProperties::new().with("a", "1");
    assert_eq!(p.get_prop("a").map(|s| s.as_str()), Some("1"));
    p.try_set_prop("a", "2".to_string());
    assert_eq!(p.get_prop("a").map(|s| s.as_str()), Some("1"));
    p.set_prop("a", "3".to_string());
    assert_eq!(p.get_prop("a").map(|s| s.as_str()), Some("3"));
    p.try_set_prop("b", "4".to_string());
    assert_eq!(p.get_prop("b").map(|s| s.as_str()), Some("4"));
    assert_eq!(p.get_prop("c"), None);
}

#[test]
fn definitions_along_lineage() {
    let child = PropertyDefintions::new().with("a".to_string(), "child".to_string());
    let parent = PropertyDefintions::new()
        .with("a".to_string(), "parent".to_string())
        .with("b".to_string(), "parent b".to_string());
    let lineage = [Some(&child), None, Some(&parent)];
    assert_eq!(find_def("a", &lineage), Some("child"));
    assert_eq!(find_def("b", &lineage), Some("parent b"));
    assert_eq!(find_def("c", &lineage), None);
}

fn tokens(key: &str) -> AttrTokens {
    AttrTokens { prefix: None, ident: "width".to_string(), key: key.to_string() }
}

#[test]
fn properties_has() {
    let p = Properties::new(vec![tokens("a"), tokens("b")]);
    assert!(p.has(&tokens("b")));
    assert!(!p.has(&tokens("c")));
}

#[test]
fn tags_lookup() {
    let t = Tags(vec![
        Tag { key: "source".to_string(), value: "beep.ogg".to_string() },
        Tag { key: "source".to_string(), value: "other.ogg".to_string() },
    ]);
    assert_eq!(t.get_tag("source"), Some("beep.ogg"));
    assert_eq!(t.get_tag("volume"), None);
}

#[test]
fn property_use_resolves() {
    let props = defs(&[("w", "{v}"), ("v", "10px"), ("loop", "{loop}")]);
    let w = tokens("w");
    assert_eq!(
        w.compile(&props),
        Some(Attribute::Style(StyleAttr::Width(Val::Px(10f32.to_bits()))))
    );
    assert_eq!(tokens("missing").compile(&props), None);
    assert_eq!(tokens("loop").try_compile(&props, 8), None);
    assert_eq!(
        w.try_compile(&props, 2),
        Some(Some(Attribute::Style(StyleAttr::Width(Val::Px(10f32.to_bits())))))
    );
    assert_eq!(w.try_compile(&props, 1), None);
}

#[test]
fn line_numbers() {
    let src = b"one\ntwo words\nthree";
    assert_eq!(get_line_num(src, 0), 1);
    assert_eq!(get_line_num(src, 4), 2);
    assert_eq!(get_line_num(src, 14), 3);
    let (before, after, line) = get_line_parts_and_num(src, 8, 5);
    assert_eq!(before, b"two ");
    assert_eq!(after, b"");
    assert_eq!(line, 2);
    let (before, after, line) = get_line_parts_and_num(src, 0, 2);
    assert_eq!(before, b"");
    assert_eq!(after, b"e");
    assert_eq!(line, 1);
}

#[test]
fn timer_runs_within_bounds() {
    let mut t = InteractionTimer::new(100);
    t.forward(30);
    assert_eq!(t.elapsed(), 30);
    t.forward(100);
    assert_eq!(t.elapsed(), 100);
    t.backward(40);
    assert_eq!(t.elapsed(), 60);
    t.backward(1000);
    assert_eq!(t.elapsed(), 0);
    assert_eq!(t.max(), 100);
}

#[test]
fn timer_sum_past_duration_stays() {
    let mut t = InteractionTimer::new(DURATION_MAX_NANOS);
    t.forward(DURATION_MAX_NANOS - 5);
    assert_eq!(t.elapsed(), DURATION_MAX_NANOS - 5);
    t.forward(10);
    assert_eq!(t.elapsed(), DURATION_MAX_NANOS - 5);
}

#[test]
fn node_building() {
    let mut div = NNode::Div(Div::default());
    assert_eq!(div.add_child(NNode::Text(Text::default())), Ok(()));
    assert_eq!(div.add_text("x"), Err(()));
    assert_eq!(div.set_path("p"), Err(()));
    assert_eq!(div.add_styles(vec![StyleAttr::Width(Val::Auto)]), Ok(()));
    match &div {
        NNode::Div(d) => {
            assert_eq!(d.children.len(), 1);
            assert_eq!(d.styles, vec![StyleAttr::Width(Val::Auto)]);
        }
        _ => panic!("not a div"),
    }
    let mut text = NNode::Text(Text::default());
    assert_eq!(text.add_text("hello"), Ok(()));
    assert_eq!(text.add_child(NNode::Unkown), Err(()));
    match &text {
        NNode::Text(t) => assert_eq!(t.content, "hello"),
        _ => panic!("not a text"),
    }
    let mut img = NNode::Image(Image::default());
    assert_eq!(img.set_path("a.png"), Ok(()));
    match &img {
        NNode::Image(i) => assert_eq!(i.path, "a.png"),
        _ => panic!("not an image"),
    }
    assert_eq!(NNode::Unkown.add_styles(vec![]), Err(()));
    assert!(NNode::Div(Div::default()) == div);
    assert!(NNode::Unkown != div);
}

#[test]
fn node_attributes_from_properties() {
    let props = defs(&[("w", "10px"), ("act", "start_game")]);
    let exprs = vec![
        tokens("w"),
        AttrTokens { prefix: None, ident: "onpress".to_string(), key: "act".to_string() },
        tokens("missing"),
    ];
    let mut style = HtmlStyle::new();
    let rest = compile_node_attributes(&mut style, &exprs, &props);
    assert_eq!(style.computed.node.width, Val::Px(10f32.to_bits()));
    assert_eq!(rest, vec![Attribute::Action(Action::OnPress(vec!["start_game".to_string()]))]);
}

#[test]
fn bounded_node_attributes() {
    let props = defs(&[("loop", "{loop}"), ("w", "5px")]);
    let mut style = HtmlStyle::new();
    assert_eq!(try_compile_node_attributes(&mut style, &vec![tokens("w"), tokens("loop")], &props, 10), None);
    assert_eq!(style, HtmlStyle::new());
    assert_eq!(try_compile_node_attributes(&mut style, &vec![tokens("w")], &props, 10), Some(vec![]));
    assert_eq!(style.computed.node.width, Val::Px(5f32.to_bits()));
}

#[test]
fn context_definitions_from_properties() {
    let parent = defs(&[("t", "hello")]);
    let exprs = vec![AttrTokens { prefix: Some("prop".to_string()), ident: "title".to_string(), key: "t".to_string() }];
    let mut context = StringMap::new();
    compile_context_definitions(&exprs, &parent, &mut context);
    assert_eq!(context.get("title").map(|s| s.as_str()), Some("hello"));
    let mut other = StringMap::new();
    assert!(!try_compile_context_definitions(&vec![tokens("none")], &parent, &mut other, 4));
    assert_eq!(other.len(), 0);
    assert!(try_compile_context_definitions(&exprs, &parent, &mut other, 4));
    assert_eq!(other.get("title").map(|s| s.as_str()), Some("hello"));
}
