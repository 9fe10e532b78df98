use bevy_hui::attribute::StyleAttr;
use bevy_hui::lex::Fail;
use bevy_hui::number::{float_outcome, from_hex_byte, from_hex_nib, is_hex_digit, parse_float, IntErrorKind};
use bevy_hui::text::lossy_string;
use bevy_hui::values::{Color, UiRect, Val};
use bevy_hui::widgets::{accepts_with, SliderAxis, TextFilter};
use bevy_hui::xml_style::AttributeError;

#[test]
fn text_filter_choice_and_use() {
    assert_eq!(TextFilter::from("text"), TextFilter::Text);
    assert_eq!(TextFilter::from("number"), TextFilter::Number);
    assert_eq!(TextFilter::from("other"), TextFilter::NoFilter);
    assert_eq!(TextFilter::default(), TextFilter::NoFilter);
    assert!(TextFilter::Text.apply(&'a'));
    assert!(TextFilter::Text.apply(&'!'));
    assert!(TextFilter::Text.apply(&'é'));
    assert!(!TextFilter::Text.apply(&'5'));
    assert!(TextFilter::Number.apply(&'5'));
    assert!(TextFilter::Number.apply(&'.'));
    assert!(!TextFilter::Number.apply(&'a'));
    assert!(TextFilter::NoFilter.apply(&' '));
}

#[test]
fn slider_axis_choice() {
    assert_eq!(SliderAxis::from("y"), SliderAxis::Vertical);
    assert_eq!(SliderAxis::from("x"), SliderAxis::Horizontal);
    assert_eq!(SliderAxis::default(), SliderAxis::Horizontal);
}

#[test]
fn hex_digits() {
    assert!(is_hex_digit(b'a'));
    assert!(is_hex_digit(b'F'));
    assert!(!is_hex_digit(b'g'));
    assert_eq!(from_hex_byte(b"ff"), Ok(255));
    assert_eq!(from_hex_byte(b"1A"), Ok(26));
    assert_eq!(from_hex_byte(b""), Err(IntErrorKind::Empty));
    assert_eq!(from_hex_byte(b"zz"), Err(IntErrorKind::InvalidDigit));
    assert_eq!(from_hex_byte(b"100"), Err(IntErrorKind::PosOverflow));
    assert_eq!(from_hex_nib(b"a"), Ok(0xaa));
}

#[test]
fn lossy_text() {
    assert_eq!(lossy_string(b"abc"), "abc");
    assert_eq!(lossy_string(&[0x61, 0xff]), "a\u{fffd}");
}

fn xml_style(prefix: Option<&str>, key: &str, value: &[u8]) -> Result<StyleAttr, AttributeError> {
    StyleAttr::try_from(prefix.map(|p| p.as_bytes()), key.as_bytes(), value)
}

#[test]
fn markup_attribute_styles() {
    let px = |x: f32| Val::Px(x.to_bits());
    assert_eq!(xml_style(None, "height", b"10px"), Ok(StyleAttr::Height(px(10.0))));
    assert_eq!(
        xml_style(Some("hover"), "padding", b"5px"),
        Ok(StyleAttr::Hover(Box::new(StyleAttr::Padding(UiRect {
            left: px(5.0),
            right: px(5.0),
            top: px(5.0),
            bottom: px(5.0)
        }))))
    );
    let white = Color::Srgb8 { r: 255, g: 255, b: 255, a: 255 };
    assert_eq!(xml_style(Some("active"), "border_color", b"#FFF"), Ok(StyleAttr::Active(Box::new(StyleAttr::BorderColor(white)))));
    assert_eq!(xml_style(None, "width", b"wide"), Err(AttributeError::FailedToParseVal("wide".to_string())));
    assert_eq!(xml_style(None, "margin", b"x"), Err(AttributeError::FailedToParseRect("x".to_string())));
    assert_eq!(xml_style(None, "background", &[0xff]), Err(AttributeError::FailedToParseColor(String::new())));
    assert_eq!(xml_style(Some("other"), "font", b"a.ttf"), Err(AttributeError::UnkownToken("a.ttf".to_string())));
}

#[test]
fn filter_with_given_classes() {
    assert!(accepts_with(TextFilter::Text, 'x', true, false));
    assert!(!accepts_with(TextFilter::Text, 'x', false, false));
    assert!(accepts_with(TextFilter::Text, '~', false, false));
    assert!(accepts_with(TextFilter::Number, '7', false, true));
    assert!(!accepts_with(TextFilter::Number, '7', false, false));
    assert!(accepts_with(TextFilter::NoFilter, '7', false, false));
}

#[test]
fn float_reading_outcomes() {
    assert_eq!(float_outcome(10, Ok((4, 7))), Ok((6, 7)));
    assert_eq!(float_outcome(10, Err(true)), Err(Fail::Failure));
    assert_eq!(float_outcome(10, Err(false)), Err(Fail::Error));
    assert_eq!(parse_float(b"x1.5e1y", 1), Ok((6, 15f32.to_bits())));
    assert_eq!(parse_float(b"abc", 0), Err(Fail::Error));
}
