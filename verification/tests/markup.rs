use bevy_hui::attribute::{attribute_from_parts, parse_style, Action, AttrTokens, Attribute, StyleAttr};
use bevy_hui::lex::Fail;
use bevy_hui::template::{parse_node_type, parse_template, NodeType, ParseError};
use bevy_hui::values::{Color, TimeSpan, Val};
use bevy_hui::xml::{parse_xml_attr, parse_xml_node, trim_comments, Span};

fn span_text<'a>(input: &'a str, sp: Span) -> &'a str {
    &input[sp.start..sp.end]
}

fn rest_after_comments(input: &str) -> &str {
    let q = trim_comments(input.as_bytes(), 0);
    &input[q..]
}

#[test]
fn test_comments_multiline() {
    assert_eq!(
        rest_after_comments("   \n<!-- hello world <button> test thah </button> fdsfsd-->\nok"),
        "ok"
    );
}

#[test]
fn test_comments_with_tags() {
    assert_eq!(rest_after_comments(r#"  <!-- hello <tag/> <""/>world -->    ok"#), "ok");
}

#[test]
fn test_comments_simple() {
    assert_eq!(rest_after_comments("   <!-- hello world -->    ok"), "ok");
}

#[test]
fn comments_unclosed_stay() {
    assert_eq!(rest_after_comments("  <!-- open"), "<!-- open");
}

#[test]
fn test_parse_xml_attr_repeated() {
    let input = "    pressed:background=\"fsdfsf\"  pressed:background=\"fsdfsf\"  <!-- test -->    pressed:background=\"fsdfsf\" \n";
    let (_, attrs) = parse_xml_attr(input.as_bytes(), 0).unwrap();
    assert_eq!(attrs.len(), 3);
    for a in attrs.iter() {
        assert_eq!(span_text(input, a.prefix.unwrap()), "pressed");
        assert_eq!(span_text(input, a.key), "background");
        assert_eq!(span_text(input, a.value), "fsdfsf");
    }
}

#[test]
fn test_parse_xml_attr_single() {
    // the value is not closed, so no attribute is read, and that is no error
    let input = r#"pressed:background="fsdfsf"#;
    let (_, attrs) = parse_xml_attr(input.as_bytes(), 0).unwrap();
    assert_eq!(attrs.len(), 0);
}

fn parses_as_node(input: &str) -> bool {
    parse_xml_node(input.as_bytes(), 0).is_ok()
}

#[test]
fn test_parse_xml_node_nested() {
    let input = r#"<node pressed:background="fsdfsf" active="hello"><text p:hello="sdf">hello</text></node>"#;
    let (_, xml) = parse_xml_node(input.as_bytes(), 0).unwrap();
    assert_eq!(span_text(input, xml.name), "node");
    assert_eq!(xml.attributes.len(), 2);
    assert_eq!(xml.children.len(), 1);
    assert_eq!(span_text(input, xml.children[0].name), "text");
    assert_eq!(span_text(input, xml.children[0].value.unwrap()), "hello");
}

#[test]
fn test_parse_xml_node_slot() {
    assert!(parses_as_node("<slot/>"));
}

#[test]
fn test_parse_xml_node_self_closing() {
    assert!(parses_as_node(r#"<node pressed:background="fsdfsf" active="hello" />"#));
}

#[test]
fn test_parse_xml_node_property() {
    assert!(parses_as_node(r#"<property name="press"><property name="press"></property></property>"#));
}

#[test]
fn test_parse_xml_node_template() {
    assert!(parses_as_node(
        r#"
    <my_template>
        <name>test</name>
        <property this="press">test</property>
        <property this="press">test</property>
        <node></node>
    </my_template>
    "#
    ));
}

#[test]
fn xml_node_mismatched_end_is_failure() {
    assert_eq!(parse_xml_node(b"<node></text>", 0).map(|_| ()), Err(Fail::Failure));
}

#[test]
fn parse_attribute_parts() {
    let input = r#"hover:background="{color}""#;
    let (_, attrs) = parse_xml_attr(input.as_bytes(), 0).unwrap();
    let first = &attrs[0];
    let bytes = input.as_bytes();
    let prefix = first.prefix.map(|p| &bytes[p.start..p.end]);
    let attribute = attribute_from_parts(
        prefix,
        &bytes[first.key.start..first.key.end],
        &bytes[first.value.start..first.value.end],
    )
    .unwrap();
    assert_eq!(
        attribute,
        Attribute::Uncompiled(AttrTokens {
            prefix: Some("hover".to_string()),
            ident: "background".to_string(),
            key: "color".to_string(),
        })
    );
}

fn attr(prefix: Option<&str>, key: &str, value: &str) -> Result<Attribute, Fail> {
    attribute_from_parts(prefix.map(|p| p.as_bytes()), key.as_bytes(), value.as_bytes())
}

#[test]
fn attribute_kinds() {
    assert_eq!(attr(None, "font_size", "20"), Ok(Attribute::Style(StyleAttr::FontSize(20f32.to_bits()))));
    assert_eq!(
        attr(Some("prop"), "myvar", "test"),
        Ok(Attribute::PropertyDefinition("myvar".to_string(), "test".to_string()))
    );
    assert_eq!(
        attr(None, "onenter", "test_enter"),
        Ok(Attribute::Action(Action::OnEnter(vec!["test_enter".to_string()])))
    );
    assert_eq!(
        attr(None, "onpress", "test,test_50,test o"),
        Ok(Attribute::Action(Action::OnPress(vec![
            "test".to_string(),
            "test_50".to_string(),
            "test o".to_string()
        ])))
    );
    assert_eq!(attr(None, "width", "10px"), Ok(Attribute::Style(StyleAttr::Width(Val::Px(10f32.to_bits())))));
    assert_eq!(
        attr(None, "height", "{my_var}"),
        Ok(Attribute::Uncompiled(AttrTokens {
            prefix: None,
            ident: "height".to_string(),
            key: "my_var".to_string()
        }))
    );
    assert_eq!(attr(Some("tag"), "source", "beep.ogg"), Ok(Attribute::Tag("source".to_string(), "beep.ogg".to_string())));
    assert_eq!(attr(None, "id", "button"), Ok(Attribute::Id("button".to_string())));
    assert_eq!(attr(None, "target", "panel"), Ok(Attribute::Target("panel".to_string())));
    assert_eq!(attr(None, "watch", "button"), Ok(Attribute::Watch("button".to_string())));
    assert_eq!(attr(None, "src", "menu.html"), Ok(Attribute::Path("menu.html".to_string())));
}

#[test]
fn conditional_styles() {
    let white = Color::Srgb8 { r: 255, g: 255, b: 255, a: 255 };
    assert_eq!(
        attr(Some("hover"), "background", "#FFF"),
        Ok(Attribute::Style(StyleAttr::Hover(Box::new(StyleAttr::Background(white)))))
    );
    assert_eq!(
        attr(Some("pressed"), "background", "#FFF"),
        Ok(Attribute::Style(StyleAttr::Pressed(Box::new(StyleAttr::Background(white)))))
    );
    assert_eq!(
        parse_style(Some(b"other"), b"background", b"#FFF").map(|(_, s)| s),
        Ok(StyleAttr::Background(white))
    );
}

#[test]
fn unknown_attribute_is_a_definition() {
    assert_eq!(
        attr(None, "greeting", "hello"),
        Ok(Attribute::PropertyDefinition("greeting".to_string(), "hello".to_string()))
    );
}

#[test]
fn template_with_properties_and_root() {
    let input = r#"<!-- a button -->
<template>
    <name>my_button</name>
    <property name="action">greet</property>
    <property name="text">Press me</property>
    <node padding="10px" hover:width="230px" on="x">
        <text font_size="20">{text}</text>
    </node>
</template>"#;
    let t = parse_template(input.as_bytes()).unwrap();
    assert_eq!(t.name, Some("my_button".to_string()));
    assert_eq!(t.properties.get("action").map(|s| s.as_str()), Some("greet"));
    assert_eq!(t.properties.get("text").map(|s| s.as_str()), Some("Press me"));
    assert_eq!(t.root.len(), 1);
    let root = &t.root[0];
    assert_eq!(root.node_type, NodeType::Node);
    assert_eq!(root.children.len(), 1);
    assert_eq!(root.children[0].node_type, NodeType::Text);
    assert_eq!(root.children[0].content, Some("{text}".to_string()));
}

#[test]
fn template_that_does_not_parse() {
    assert_eq!(parse_template(b"no markup").map(|_| ()), Err(ParseError::Nom(Fail::Error)));
}

#[test]
fn trimming_twice_is_trimming_once() {
    let input = b"  <!-- a -->  <!-- b -->\n <node/>";
    let q = trim_comments(input, 0);
    assert_eq!(&input[q..], b"<node/>");
    assert_eq!(trim_comments(input, q), q);
}

#[test]
fn delay_reads_its_unit() {
    assert_eq!(
        parse_style(None, b"delay", b"100ms").map(|(_, s)| s),
        Ok(StyleAttr::Delay(TimeSpan::Millis(100f32.to_bits())))
    );
    assert_eq!(
        parse_style(None, b"delay", b"5s").map(|(_, s)| s),
        Ok(StyleAttr::Delay(TimeSpan::Seconds(5f32.to_bits())))
    );
    assert_eq!(
        parse_style(None, b"delay", b"0.2"),
        Ok((3, StyleAttr::Delay(TimeSpan::Seconds(0.2f32.to_bits()))))
    );
}

#[test]
fn custom_node_names_keep_underscores() {
    assert_eq!(parse_node_type(b"my_button"), Ok((9, NodeType::Custom("my_button".to_string()))));
    assert_eq!(parse_node_type(b"button"), Ok((6, NodeType::Button)));
}

#[test]
fn event_lists_are_trimmed() {
    assert_eq!(
        attr(None, "onspawn", "my_func, my_second_func"),
        Ok(Attribute::Action(Action::OnSpawn(vec!["my_func".to_string(), "my_second_func".to_string()])))
    );
}
