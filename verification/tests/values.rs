use bevy_hui::lex::Fail;
use bevy_hui::values::{
    parse_color, parse_grid_placement, parse_grid_tracks, parse_grid_tracks_repeated, parse_ui_rect,
    parse_val, parse_align_items, parse_display, parse_overflow, AlignItems, Color, Display,
    GridPlacement, GridTrack, Overflow, OverflowAxis, RepeatedGridTrack, UiRect, Val,
};

fn bits(x: f32) -> u32 {
    x.to_bits()
}

fn all(v: Val) -> UiRect {
    UiRect { left: v, right: v, top: v, bottom: v }
}

fn color(input: &str) -> Result<(usize, Color), Fail> {
    parse_color(input.as_bytes(), 0)
}

const WHITE_BYTES: Color = Color::Srgb8 { r: 255, g: 255, b: 255, a: 255 };

#[test]
fn test_color_hex8() {
    assert_eq!(color("#FFFFFFFF"), Ok((9, WHITE_BYTES)));
}

#[test]
fn test_color_hex6() {
    assert_eq!(color("#FFFFFF"), Ok((7, WHITE_BYTES)));
}

#[test]
fn test_color_hex4() {
    assert_eq!(color("#FFFF"), Ok((5, WHITE_BYTES)));
}

#[test]
fn test_color_hex3() {
    assert_eq!(color("#FFF"), Ok((4, WHITE_BYTES)));
}

#[test]
fn test_color_rgb() {
    let one = bits(1.0);
    assert_eq!(
        color("rgb(1,1,1)"),
        Ok((10, Color::Linear { red: one, green: one, blue: one, alpha: one }))
    );
}

#[test]
fn test_color_rgba() {
    let one = bits(1.0);
    assert_eq!(
        color("rgba(1,1,1,1)"),
        Ok((13, Color::Linear { red: one, green: one, blue: one, alpha: one }))
    );
}

#[test]
fn color_short_hex_doubles_digits() {
    assert_eq!(color("#1a2"), Ok((4, Color::Srgb8 { r: 0x11, g: 0xaa, b: 0x22, a: 255 })));
    assert_eq!(color("#1a2b"), Ok((5, Color::Srgb8 { r: 0x11, g: 0xaa, b: 0x22, a: 0xbb })));
    assert_eq!(color("#11aa22"), Ok((7, Color::Srgb8 { r: 0x11, g: 0xaa, b: 0x22, a: 255 })));
}

#[test]
fn color_with_spaces_and_alpha() {
    let half = bits(0.5);
    let one = bits(1.0);
    let zero = bits(0.0);
    assert_eq!(
        color("  rgba(1,0,0.5,1)  "),
        Ok((19, Color::Linear { red: one, green: zero, blue: half, alpha: one }))
    );
}

#[test]
fn color_rejects_bad_input() {
    assert!(color("#FFFFF").is_err());
    assert!(color("#GGG").is_err());
    assert!(color("red").is_err());
}

#[test]
fn test_value_zero() {
    assert_eq!(parse_val(b"0", 0), Ok((1, Val::Px(bits(0.0)))));
}

#[test]
fn test_value_units() {
    let twenty = bits(20.0);
    assert_eq!(parse_val(b"20vw", 0), Ok((4, Val::Vw(twenty))));
    assert_eq!(parse_val(b"20%", 0), Ok((3, Val::Percent(twenty))));
    assert_eq!(parse_val(b"20vh", 0), Ok((4, Val::Vh(twenty))));
    assert_eq!(parse_val(b"20px", 0), Ok((4, Val::Px(twenty))));
    assert_eq!(parse_val(b"20vmin", 0), Ok((6, Val::VMin(twenty))));
    assert_eq!(parse_val(b"20vmax", 0), Ok((6, Val::VMax(twenty))));
}

#[test]
fn value_auto_and_fraction() {
    assert_eq!(parse_val(b"auto", 0), Ok((4, Val::Auto)));
    assert_eq!(parse_val(b"12.5px", 0), Ok((6, Val::Px(bits(12.5)))));
}

#[test]
fn test_grid_placement() {
    assert_eq!(parse_grid_placement(b"auto", 0), Ok((4, GridPlacement::Auto)));
    assert_eq!(parse_grid_placement(b"end_span(5,50)", 0), Ok((14, GridPlacement::EndSpan(5, 50))));
    assert_eq!(
        parse_grid_placement(b"start_span(-5, 5)", 0),
        Ok((17, GridPlacement::StartSpan(-5, 5)))
    );
    assert_eq!(parse_grid_placement(b"span( 55  )", 0), Ok((11, GridPlacement::Span(55))));
    assert_eq!(parse_grid_placement(b"span(5)", 0), Ok((7, GridPlacement::Span(5))));
}

#[test]
fn grid_placement_start_and_end() {
    assert_eq!(parse_grid_placement(b"start(-3)", 0), Ok((9, GridPlacement::Start(-3))));
    assert_eq!(parse_grid_placement(b"end(4)", 0), Ok((6, GridPlacement::End(4))));
}

#[test]
fn test_tracks() {
    assert_eq!(
        parse_grid_tracks(b"min max auto", 0),
        Ok((12, vec![GridTrack::MinContent, GridTrack::MaxContent, GridTrack::Auto]))
    );
    assert_eq!(
        parse_grid_tracks(b"50% auto   8fr   ", 0),
        Ok((17, vec![GridTrack::Percent(bits(50.0)), GridTrack::Auto, GridTrack::Fr(bits(8.0))]))
    );
    assert_eq!(parse_grid_tracks(b"50px       ", 0), Ok((11, vec![GridTrack::Px(bits(50.0))])));
}

#[test]
fn test_repeat_tracks() {
    assert_eq!(
        parse_grid_tracks_repeated(b"(4, 8flex)(1, 50px)", 0),
        Ok((
            19,
            vec![
                RepeatedGridTrack { repetition: 4, track: GridTrack::Flex(bits(8.0)) },
                RepeatedGridTrack { repetition: 1, track: GridTrack::Px(bits(50.0)) },
            ]
        ))
    );
    assert_eq!(
        parse_grid_tracks_repeated(b"(1, auto)(5, 50fr)", 0),
        Ok((
            18,
            vec![
                RepeatedGridTrack { repetition: 1, track: GridTrack::Auto },
                RepeatedGridTrack { repetition: 5, track: GridTrack::Fr(bits(50.0)) },
            ]
        ))
    );
    assert_eq!(
        parse_grid_tracks_repeated(b"(1, auto)", 0),
        Ok((9, vec![RepeatedGridTrack { repetition: 1, track: GridTrack::Auto }]))
    );
}

#[test]
fn test_rect() {
    let px = |x: f32| Val::Px(bits(x));
    assert_eq!(parse_ui_rect(b"20px", 0), Ok((4, all(px(20.0)))));
    assert_eq!(
        parse_ui_rect(b"20px 10px", 0),
        Ok((9, UiRect { left: px(20.0), right: px(20.0), top: px(10.0), bottom: px(10.0) }))
    );
    assert_eq!(
        parse_ui_rect(b"5px 10px 5% 6px", 0),
        Ok((
            15,
            UiRect {
                top: px(5.0),
                right: px(10.0),
                bottom: Val::Percent(bits(5.0)),
                left: px(6.0),
            }
        ))
    );
}

#[test]
fn keyword_values() {
    assert_eq!(parse_display(b"grid", 0), Ok((4, Display::Grid)));
    assert_eq!(parse_display(b"none", 0), Ok((4, Display::DisplayNone)));
    assert_eq!(parse_align_items(b"flex_end", 0), Ok((8, AlignItems::FlexEnd)));
    assert_eq!(
        parse_overflow(b"hidden visible", 0),
        Ok((14, Overflow { x: OverflowAxis::Hidden, y: OverflowAxis::Visible }))
    );
    assert!(parse_display(b"inline", 0).is_err());
}

#[test]
fn fractional_lengths_read_whole() {
    assert_eq!(parse_val(b"0.5px", 0), Ok((5, Val::Px(bits(0.5)))));
    assert_eq!(parse_val(b"0", 0), Ok((1, Val::Px(bits(0.0)))));
    assert_eq!(parse_val(b"0 ", 0), Ok((2, Val::Px(bits(0.0)))));
}

#[test]
fn repeated_tracks_in_percent() {
    assert_eq!(
        parse_grid_tracks_repeated(b"(2, 20%)", 0),
        Ok((8, vec![RepeatedGridTrack { repetition: 2, track: GridTrack::Percent(bits(20.0)) }]))
    );
    assert_eq!(
        parse_grid_tracks_repeated(b"(3, 1.5fr)", 0),
        Ok((10, vec![RepeatedGridTrack { repetition: 3, track: GridTrack::Fr(bits(1.5)) }]))
    );
}

#[test]
fn grid_placement_refuses_zero() {
    assert_eq!(parse_grid_placement(b"span(0)", 0), Err(Fail::Error));
    assert_eq!(parse_grid_placement(b"start(0)", 0), Err(Fail::Error));
    assert_eq!(parse_grid_placement(b"end_span(5,0)", 0), Err(Fail::Error));
    assert_eq!(parse_grid_placement(b"span(70000)", 0), Err(Fail::Error));
    assert_eq!(parse_grid_placement(b"row(2)", 0), Err(Fail::Error));
    assert_eq!(parse_grid_placement(b"end(-1)", 0), Ok((7, GridPlacement::End(-1))));
}
