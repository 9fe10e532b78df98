use bevy_hui::attribute::StyleAttr;
use bevy_hui::style::{kind_of, upsert_style, ComputedStyle, HtmlStyle, NodeLayout, NodeStyle};
use bevy_hui::values::{Color, Direction, Display, GridTrack, RepeatedGridTrack, TimeSpan, UiRect, Val};

fn px(x: f32) -> Val {
    Val::Px(x.to_bits())
}

fn hover(s: StyleAttr) -> StyleAttr {
    StyleAttr::Hover(Box::new(s))
}

#[test]
fn computed_style_defaults() {
    let c = ComputedStyle::new();
    assert_eq!(c.font_size, 12f32.to_bits());
    let one = 1f32.to_bits();
    assert_eq!(c.font_color, Color::Linear { red: one, green: one, blue: one, alpha: one });
    assert_eq!(c.background, Color::Linear { red: 0, green: 0, blue: 0, alpha: 0 });
    assert_eq!(c.node.flex_shrink, one);
    assert_eq!(c.node.display, Display::Flex);
    assert_eq!(c.node.width, Val::Auto);
    assert_eq!(c.node.margin, UiRect { left: px(0.0), right: px(0.0), top: px(0.0), bottom: px(0.0) });
    assert_eq!(c.delay, TimeSpan::Seconds(0));
}

#[test]
fn plain_properties_set_fields() {
    let mut h = HtmlStyle::new();
    h.add_style_attr(StyleAttr::Width(px(20.0)));
    h.add_style_attr(StyleAttr::Display(Display::Grid));
    h.add_style_attr(StyleAttr::FontSize(20f32.to_bits()));
    h.add_style_attr(StyleAttr::AspectRatio(2f32.to_bits()));
    assert_eq!(h.computed.node.width, px(20.0));
    assert_eq!(h.computed.node.display, Display::Grid);
    assert_eq!(h.computed.font_size, 20f32.to_bits());
    assert_eq!(h.computed.node.aspect_ratio, Some(2f32.to_bits()));
    assert!(h.hover.is_empty());
}

#[test]
fn max_height_sets_max_height() {
    let mut h = HtmlStyle::new();
    h.add_style_attr(StyleAttr::MaxHeight(px(50.0)));
    assert_eq!(h.computed.node.max_height, px(50.0));
    assert_eq!(h.computed.node.min_height, Val::Auto);
    let n = NodeStyle::from_styles(vec![StyleAttr::MaxHeight(Val::Percent(5f32.to_bits()))]);
    assert_eq!(n.regular.node.max_height, Val::Percent(5f32.to_bits()));
    assert_eq!(n.regular.node.min_height, Val::Auto);
}

#[test]
fn direction_and_font_leave_html_style() {
    let mut h = HtmlStyle::new();
    h.add_style_attr(StyleAttr::Direction(Direction::RightToLeft));
    h.add_style_attr(StyleAttr::Font("font.ttf".to_string()));
    assert_eq!(h, HtmlStyle::new());
}

#[test]
fn plain_property_twice_is_once() {
    let mut once = HtmlStyle::new();
    once.add_style_attr(StyleAttr::Height(px(3.0)));
    let mut twice = HtmlStyle::new();
    twice.add_style_attr(StyleAttr::Height(px(3.0)));
    twice.add_style_attr(StyleAttr::Height(px(3.0)));
    assert_eq!(once, twice);
}

#[test]
fn conditional_styles_go_before_older_of_their_kind() {
    let mut h = HtmlStyle::new();
    h.add_style_attr(hover(StyleAttr::Width(px(1.0))));
    h.add_style_attr(hover(StyleAttr::Height(px(2.0))));
    h.add_style_attr(hover(StyleAttr::Width(px(3.0))));
    assert_eq!(
        h.hover,
        vec![StyleAttr::Width(px(3.0)), StyleAttr::Width(px(1.0)), StyleAttr::Height(px(2.0))]
    );
    h.add_style_attr(StyleAttr::Pressed(Box::new(StyleAttr::Top(px(4.0)))));
    h.add_style_attr(StyleAttr::Active(Box::new(StyleAttr::Left(px(5.0)))));
    assert_eq!(h.pressed, vec![StyleAttr::Top(px(4.0))]);
    assert_eq!(h.active, vec![StyleAttr::Left(px(5.0))]);
    assert_eq!(h.computed, ComputedStyle::new());
}

#[test]
fn html_style_from_styles() {
    let tracks = vec![RepeatedGridTrack { repetition: 2, track: GridTrack::Auto }];
    let h = HtmlStyle::from_styles(vec![
        StyleAttr::Width(px(10.0)),
        hover(StyleAttr::Width(px(20.0))),
        StyleAttr::GridTemplateColumns(tracks.clone()),
        StyleAttr::Width(px(30.0)),
    ]);
    assert_eq!(h.computed.node.width, px(30.0));
    assert_eq!(h.computed.node.grid_template_columns, tracks);
    assert_eq!(h.hover, vec![StyleAttr::Width(px(20.0))]);
}

#[test]
fn node_style_from_styles() {
    let n = NodeStyle::from_styles(vec![
        hover(StyleAttr::Width(px(1.0))),
        hover(StyleAttr::Width(px(2.0))),
        StyleAttr::Direction(Direction::LeftToRight),
        StyleAttr::Active(Box::new(StyleAttr::Width(px(3.0)))),
        StyleAttr::Background(Color::Srgb8 { r: 1, g: 2, b: 3, a: 4 }),
    ]);
    assert_eq!(n.hover, vec![StyleAttr::Width(px(1.0)), StyleAttr::Width(px(2.0))]);
    assert_eq!(n.direction, Direction::LeftToRight);
    assert_eq!(n.regular.background, Color::Srgb8 { r: 1, g: 2, b: 3, a: 4 });
    assert_eq!(n.regular.font_size, 0);
    assert!(n.pressed.is_empty());
}

#[test]
fn upsert_replaces_first_of_kind() {
    let mut list = vec![StyleAttr::Width(px(1.0)), StyleAttr::Height(px(2.0)), StyleAttr::Width(px(3.0))];
    upsert_style(StyleAttr::Width(px(9.0)), &mut list);
    assert_eq!(list, vec![StyleAttr::Width(px(9.0)), StyleAttr::Height(px(2.0)), StyleAttr::Width(px(3.0))]);
    upsert_style(StyleAttr::Top(px(4.0)), &mut list);
    assert_eq!(list.len(), 4);
    assert_eq!(list[3], StyleAttr::Top(px(4.0)));
}

#[test]
fn kinds_tell_properties_apart() {
    assert_eq!(kind_of(&StyleAttr::Width(px(1.0))), kind_of(&StyleAttr::Width(px(2.0))));
    assert_ne!(kind_of(&StyleAttr::Width(px(1.0))), kind_of(&StyleAttr::Height(px(1.0))));
}

#[test]
fn layout_grid_fields() {
    let mut n = NodeLayout::new();
    n.set_layout(StyleAttr::GridAutoRows(vec![GridTrack::MinContent]));
    assert_eq!(n.grid_auto_rows, vec![GridTrack::MinContent]);
    n.set_layout(StyleAttr::FontSize(3));
    assert_eq!(n, {
        let mut m = NodeLayout::new();
        m.grid_auto_rows = vec![GridTrack::MinContent];
        m
    });
}

#[test]
fn later_plain_property_overrides_and_touches_one_field() {
    let mut h = HtmlStyle::new();
    h.add_style_attr(StyleAttr::Width(px(1.0)));
    h.add_style_attr(StyleAttr::Width(px(2.0)));
    let mut only = HtmlStyle::new();
    only.add_style_attr(StyleAttr::Width(px(2.0)));
    assert_eq!(h, only);
    let mut expected = NodeLayout::new();
    expected.width = px(2.0);
    assert_eq!(h.computed.node, expected);
    h.add_style_attr(StyleAttr::BorderColor(Color::Srgb8 { r: 1, g: 1, b: 1, a: 1 }));
    assert_eq!(h.computed.node, expected);
    assert_eq!(h.computed.background, ComputedStyle::new().background);
}
