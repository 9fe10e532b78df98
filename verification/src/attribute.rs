//! Attributes of an element: styles, property definitions and uses,
//! event bindings, paths, ids and tags, and how they are read from the
//! `prefix`, `key` and `value` of a markup attribute.
use crate::lex::{lift, or_else, scan, scan_class, tag, tag_end, ByteClass, Fail, SpecRes};
use crate::number::{float_at, parse_float};
use crate::text::{lossy_opt, lossy_string, lossy_utf8};
use crate::values::{align_content_at, align_items_at, align_self_at, color_at, direction_at, display_at, flex_direction_at, flex_wrap_at, grid_auto_flow_at, grid_placement_at, grid_tracks_at, justify_content_at, justify_items_at, justify_self_at, overflow_at, parse_time_span, time_span_at, TimeSpan, parse_align_content, parse_align_items, parse_align_self, parse_auto_flow, parse_color, parse_direction, parse_display, parse_flex_direction, parse_flex_wrap, parse_grid_placement, parse_grid_tracks, parse_grid_tracks_repeated, parse_justify_content, parse_justify_items, parse_justify_self, parse_overflow, parse_position_type, parse_ui_rect, parse_val, position_type_at, repeated_tracks_at, ui_rect_at, val_at, AlignContent, AlignItems, AlignSelf, Color, Direction, Display, FlexDirection, FlexWrap, GridAutoFlow, GridPlacement, GridTrack, JustifyContent, JustifyItems, JustifySelf, Overflow, PositionType, RepeatedGridTrack, UiRect, Val};
use vstd::prelude::*;
use vstd::string::StringSliceAdditionalSpecFns;

verus! {

/// One style property. Floating point numbers are the bit patterns of their
/// `f32`. `Hover`, `Pressed` and `Active` hold a style that applies under that
/// condition.
#[derive(Debug, PartialEq)]
pub enum StyleAttr {
    Display(Display),
    Position(PositionType),
    Overflow(Overflow),
    Left(Val),
    Right(Val),
    Top(Val),
    Bottom(Val),
    Width(Val),
    Height(Val),
    MinWidth(Val),
    MinHeight(Val),
    MaxWidth(Val),
    MaxHeight(Val),
    AspectRatio(u32),
    AlignItems(AlignItems),
    JustifyItems(JustifyItems),
    AlignSelf(AlignSelf),
    JustifySelf(JustifySelf),
    AlignContent(AlignContent),
    JustifyContent(JustifyContent),
    Margin(UiRect),
    Padding(UiRect),
    Border(UiRect),
    BorderColor(Color),
    BorderRadius(UiRect),
    FlexDirection(FlexDirection),
    FlexWrap(FlexWrap),
    FlexGrow(u32),
    FlexShrink(u32),
    FlexBasis(Val),
    RowGap(Val),
    ColumnGap(Val),
    GridAutoFlow(GridAutoFlow),
    GridTemplateRows(Vec<RepeatedGridTrack>),
    GridTemplateColumns(Vec<RepeatedGridTrack>),
    GridAutoRows(Vec<GridTrack>),
    GridAutoColumns(Vec<GridTrack>),
    GridRow(GridPlacement),
    GridColumn(GridPlacement),
    Direction(Direction),
    FontSize(u32),
    Font(String),
    FontColor(Color),
    Background(Color),
    Hover(Box<StyleAttr>),
    Pressed(Box<StyleAttr>),
    Active(Box<StyleAttr>),
    Delay(TimeSpan),
}

/// A style property as a mathematical value.
pub enum SpecStyleAttr {
    Display(Display),
    Position(PositionType),
    Overflow(Overflow),
    Left(Val),
    Right(Val),
    Top(Val),
    Bottom(Val),
    Width(Val),
    Height(Val),
    MinWidth(Val),
    MinHeight(Val),
    MaxWidth(Val),
    MaxHeight(Val),
    AspectRatio(u32),
    AlignItems(AlignItems),
    JustifyItems(JustifyItems),
    AlignSelf(AlignSelf),
    JustifySelf(JustifySelf),
    AlignContent(AlignContent),
    JustifyContent(JustifyContent),
    Margin(UiRect),
    Padding(UiRect),
    Border(UiRect),
    BorderColor(Color),
    BorderRadius(UiRect),
    FlexDirection(FlexDirection),
    FlexWrap(FlexWrap),
    FlexGrow(u32),
    FlexShrink(u32),
    FlexBasis(Val),
    RowGap(Val),
    ColumnGap(Val),
    GridAutoFlow(GridAutoFlow),
    GridTemplateRows(Seq<RepeatedGridTrack>),
    GridTemplateColumns(Seq<RepeatedGridTrack>),
    GridAutoRows(Seq<GridTrack>),
    GridAutoColumns(Seq<GridTrack>),
    GridRow(GridPlacement),
    GridColumn(GridPlacement),
    Direction(Direction),
    FontSize(u32),
    Font(Seq<char>),
    FontColor(Color),
    Background(Color),
    Hover(Box<SpecStyleAttr>),
    Pressed(Box<SpecStyleAttr>),
    Active(Box<SpecStyleAttr>),
    Delay(TimeSpan),
}

impl View for StyleAttr {
    type V = SpecStyleAttr;

    open spec fn view(&self) -> SpecStyleAttr
        decreases self,
    {
        match self {
            StyleAttr::Display(x) => SpecStyleAttr::Display(*x),
            StyleAttr::Position(x) => SpecStyleAttr::Position(*x),
            StyleAttr::Overflow(x) => SpecStyleAttr::Overflow(*x),
            StyleAttr::Left(x) => SpecStyleAttr::Left(*x),
            StyleAttr::Right(x) => SpecStyleAttr::Right(*x),
            StyleAttr::Top(x) => SpecStyleAttr::Top(*x),
            StyleAttr::Bottom(x) => SpecStyleAttr::Bottom(*x),
            StyleAttr::Width(x) => SpecStyleAttr::Width(*x),
            StyleAttr::Height(x) => SpecStyleAttr::Height(*x),
            StyleAttr::MinWidth(x) => SpecStyleAttr::MinWidth(*x),
            StyleAttr::MinHeight(x) => SpecStyleAttr::MinHeight(*x),
            StyleAttr::MaxWidth(x) => SpecStyleAttr::MaxWidth(*x),
            StyleAttr::MaxHeight(x) => SpecStyleAttr::MaxHeight(*x),
            StyleAttr::AspectRatio(x) => SpecStyleAttr::AspectRatio(*x),
            StyleAttr::AlignItems(x) => SpecStyleAttr::AlignItems(*x),
            StyleAttr::JustifyItems(x) => SpecStyleAttr::JustifyItems(*x),
            StyleAttr::AlignSelf(x) => SpecStyleAttr::AlignSelf(*x),
            StyleAttr::JustifySelf(x) => SpecStyleAttr::JustifySelf(*x),
            StyleAttr::AlignContent(x) => SpecStyleAttr::AlignContent(*x),
            StyleAttr::JustifyContent(x) => SpecStyleAttr::JustifyContent(*x),
            StyleAttr::Margin(x) => SpecStyleAttr::Margin(*x),
            StyleAttr::Padding(x) => SpecStyleAttr::Padding(*x),
            StyleAttr::Border(x) => SpecStyleAttr::Border(*x),
            StyleAttr::BorderColor(x) => SpecStyleAttr::BorderColor(*x),
            StyleAttr::BorderRadius(x) => SpecStyleAttr::BorderRadius(*x),
            StyleAttr::FlexDirection(x) => SpecStyleAttr::FlexDirection(*x),
            StyleAttr::FlexWrap(x) => SpecStyleAttr::FlexWrap(*x),
            StyleAttr::FlexGrow(x) => SpecStyleAttr::FlexGrow(*x),
            StyleAttr::FlexShrink(x) => SpecStyleAttr::FlexShrink(*x),
            StyleAttr::FlexBasis(x) => SpecStyleAttr::FlexBasis(*x),
            StyleAttr::RowGap(x) => SpecStyleAttr::RowGap(*x),
            StyleAttr::ColumnGap(x) => SpecStyleAttr::ColumnGap(*x),
            StyleAttr::GridAutoFlow(x) => SpecStyleAttr::GridAutoFlow(*x),
            StyleAttr::GridTemplateRows(x) => SpecStyleAttr::GridTemplateRows(x@),
            StyleAttr::GridTemplateColumns(x) => SpecStyleAttr::GridTemplateColumns(x@),
            StyleAttr::GridAutoRows(x) => SpecStyleAttr::GridAutoRows(x@),
            StyleAttr::GridAutoColumns(x) => SpecStyleAttr::GridAutoColumns(x@),
            StyleAttr::GridRow(x) => SpecStyleAttr::GridRow(*x),
            StyleAttr::GridColumn(x) => SpecStyleAttr::GridColumn(*x),
            StyleAttr::Direction(x) => SpecStyleAttr::Direction(*x),
            StyleAttr::FontSize(x) => SpecStyleAttr::FontSize(*x),
            StyleAttr::Font(x) => SpecStyleAttr::Font(x@),
            StyleAttr::FontColor(x) => SpecStyleAttr::FontColor(*x),
            StyleAttr::Background(x) => SpecStyleAttr::Background(*x),
            StyleAttr::Hover(x) => SpecStyleAttr::Hover(Box::new((**x)@)),
            StyleAttr::Pressed(x) => SpecStyleAttr::Pressed(Box::new((**x)@)),
            StyleAttr::Active(x) => SpecStyleAttr::Active(Box::new((**x)@)),
            StyleAttr::Delay(x) => SpecStyleAttr::Delay(*x),
        }
    }
}

} // verus!

verus! {

/// Applies `f` to the value of a success.
pub open spec fn map_style<T>(r: SpecRes<T>, f: spec_fn(T) -> SpecStyleAttr) -> SpecRes<SpecStyleAttr> {
    match r {
        Ok((q, x)) => Ok((q, f(x))),
        Err(e) => Err(e),
    }
}

/// The bytes of an optional slice.
pub open spec fn opt_bytes(b: Option<&[u8]>) -> Option<Seq<u8>> {
    match b {
        Some(x) => Some(x@),
        None => None,
    }
}

/// `style_core_at` for the style names of part 1; `None` for other names.
pub open spec fn style_part1_at(ident: Seq<u8>, v: Seq<u8>) -> Option<SpecRes<SpecStyleAttr>> {
    if ident =~= "position".spec_bytes() {
        Some(map_style(position_type_at(v, 0), |x| SpecStyleAttr::Position(x)))
    } else if ident =~= "display".spec_bytes() {
        Some(map_style(display_at(v, 0), |x| SpecStyleAttr::Display(x)))
    } else if ident =~= "overflow".spec_bytes() {
        Some(map_style(overflow_at(v, 0), |x| SpecStyleAttr::Overflow(x)))
    } else if ident =~= "direction".spec_bytes() {
        Some(map_style(direction_at(v, 0), |x| SpecStyleAttr::Direction(x)))
    } else if ident =~= "align_self".spec_bytes() {
        Some(map_style(align_self_at(v, 0), |x| SpecStyleAttr::AlignSelf(x)))
    } else if ident =~= "align_items".spec_bytes() {
        Some(map_style(align_items_at(v, 0), |x| SpecStyleAttr::AlignItems(x)))
    } else if ident =~= "align_content".spec_bytes() {
        Some(map_style(align_content_at(v, 0), |x| SpecStyleAttr::AlignContent(x)))
    } else if ident =~= "justify_self".spec_bytes() {
        Some(map_style(justify_self_at(v, 0), |x| SpecStyleAttr::JustifySelf(x)))
    } else if ident =~= "justify_items".spec_bytes() {
        Some(map_style(justify_items_at(v, 0), |x| SpecStyleAttr::JustifyItems(x)))
    } else if ident =~= "justify_content".spec_bytes() {
        Some(map_style(justify_content_at(v, 0), |x| SpecStyleAttr::JustifyContent(x)))
    } else if ident =~= "flex_direction".spec_bytes() {
        Some(map_style(flex_direction_at(v, 0), |x| SpecStyleAttr::FlexDirection(x)))
    } else if ident =~= "flex_wrap".spec_bytes() {
        Some(map_style(flex_wrap_at(v, 0), |x| SpecStyleAttr::FlexWrap(x)))
    } else {
        None
    }
}

/// `style_core_at` for the style names of part 2; `None` for other names.
pub open spec fn style_part2_at(ident: Seq<u8>, v: Seq<u8>) -> Option<SpecRes<SpecStyleAttr>> {
    if ident =~= "flex_grow".spec_bytes() {
        Some(map_style(float_at(v, 0), |x| SpecStyleAttr::FlexGrow(x)))
    } else if ident =~= "flex_shrink".spec_bytes() {
        Some(map_style(float_at(v, 0), |x| SpecStyleAttr::FlexShrink(x)))
    } else if ident =~= "flex_basis".spec_bytes() {
        Some(map_style(val_at(v, 0), |x| SpecStyleAttr::FlexBasis(x)))
    } else if ident =~= "row_gap".spec_bytes() {
        Some(map_style(val_at(v, 0), |x| SpecStyleAttr::RowGap(x)))
    } else if ident =~= "column_gap".spec_bytes() {
        Some(map_style(val_at(v, 0), |x| SpecStyleAttr::ColumnGap(x)))
    } else if ident =~= "grid_auto_flow".spec_bytes() {
        Some(map_style(grid_auto_flow_at(v, 0), |x| SpecStyleAttr::GridAutoFlow(x)))
    } else if ident =~= "grid_auto_rows".spec_bytes() {
        Some(map_style(grid_tracks_at(v, 0), |x| SpecStyleAttr::GridAutoRows(x)))
    } else if ident =~= "grid_auto_columns".spec_bytes() {
        Some(map_style(grid_tracks_at(v, 0), |x| SpecStyleAttr::GridAutoColumns(x)))
    } else if ident =~= "grid_template_rows".spec_bytes() {
        Some(map_style(repeated_tracks_at(v, 0), |x| SpecStyleAttr::GridTemplateRows(x)))
    } else if ident =~= "grid_template_columns".spec_bytes() {
        Some(map_style(repeated_tracks_at(v, 0), |x| SpecStyleAttr::GridTemplateColumns(x)))
    } else if ident =~= "grid_row".spec_bytes() {
        Some(map_style(grid_placement_at(v, 0), |x| SpecStyleAttr::GridRow(x)))
    } else if ident =~= "grid_column".spec_bytes() {
        Some(map_style(grid_placement_at(v, 0), |x| SpecStyleAttr::GridColumn(x)))
    } else {
        None
    }
}

/// `style_core_at` for the style names of part 3; `None` for other names.
pub open spec fn style_part3_at(ident: Seq<u8>, v: Seq<u8>) -> Option<SpecRes<SpecStyleAttr>> {
    if ident =~= "font".spec_bytes() {
        Some(Ok((v.len() as int, SpecStyleAttr::Font(lossy_utf8(v)))))
    } else if ident =~= "font_color".spec_bytes() {
        Some(map_style(color_at(v, 0), |x| SpecStyleAttr::FontColor(x)))
    } else if ident =~= "font_size".spec_bytes() {
        Some(map_style(float_at(v, 0), |x| SpecStyleAttr::FontSize(x)))
    } else if ident =~= "delay".spec_bytes() {
        Some(map_style(time_span_at(v, 0), |x| SpecStyleAttr::Delay(x)))
    } else if ident =~= "max_height".spec_bytes() {
        Some(map_style(val_at(v, 0), |x| SpecStyleAttr::MaxHeight(x)))
    } else if ident =~= "max_width".spec_bytes() {
        Some(map_style(val_at(v, 0), |x| SpecStyleAttr::MaxWidth(x)))
    } else if ident =~= "min_height".spec_bytes() {
        Some(map_style(val_at(v, 0), |x| SpecStyleAttr::MinHeight(x)))
    } else if ident =~= "min_width".spec_bytes() {
        Some(map_style(val_at(v, 0), |x| SpecStyleAttr::MinWidth(x)))
    } else if ident =~= "bottom".spec_bytes() {
        Some(map_style(val_at(v, 0), |x| SpecStyleAttr::Bottom(x)))
    } else if ident =~= "top".spec_bytes() {
        Some(map_style(val_at(v, 0), |x| SpecStyleAttr::Top(x)))
    } else {
        None
    }
}

/// `style_core_at` for the style names of part 4; `None` for other names.
pub open spec fn style_part4_at(ident: Seq<u8>, v: Seq<u8>) -> Option<SpecRes<SpecStyleAttr>> {
    if ident =~= "right".spec_bytes() {
        Some(map_style(val_at(v, 0), |x| SpecStyleAttr::Right(x)))
    } else if ident =~= "left".spec_bytes() {
        Some(map_style(val_at(v, 0), |x| SpecStyleAttr::Left(x)))
    } else if ident =~= "height".spec_bytes() {
        Some(map_style(val_at(v, 0), |x| SpecStyleAttr::Height(x)))
    } else if ident =~= "width".spec_bytes() {
        Some(map_style(val_at(v, 0), |x| SpecStyleAttr::Width(x)))
    } else if ident =~= "padding".spec_bytes() {
        Some(map_style(ui_rect_at(v, 0), |x| SpecStyleAttr::Padding(x)))
    } else if ident =~= "margin".spec_bytes() {
        Some(map_style(ui_rect_at(v, 0), |x| SpecStyleAttr::Margin(x)))
    } else if ident =~= "border".spec_bytes() {
        Some(map_style(ui_rect_at(v, 0), |x| SpecStyleAttr::Border(x)))
    } else if ident =~= "border_radius".spec_bytes() {
        Some(map_style(ui_rect_at(v, 0), |x| SpecStyleAttr::BorderRadius(x)))
    } else if ident =~= "background".spec_bytes() {
        Some(map_style(color_at(v, 0), |x| SpecStyleAttr::Background(x)))
    } else if ident =~= "border_color".spec_bytes() {
        Some(map_style(color_at(v, 0), |x| SpecStyleAttr::BorderColor(x)))
    } else {
        None
    }
}

/// The style named `ident` with its value read from `v` (the style names
/// are those of the layout in snake case). The position is where reading
/// the value stopped.
#[verifier::opaque]
pub open spec fn style_core_at(ident: Seq<u8>, v: Seq<u8>) -> SpecRes<SpecStyleAttr> {
    if let Some(r) = style_part1_at(ident, v) {
        r
    } else if let Some(r) = style_part2_at(ident, v) {
        r
    } else if let Some(r) = style_part3_at(ident, v) {
        r
    } else if let Some(r) = style_part4_at(ident, v) {
        r
    } else {
        Err(Fail::Error)
    }
}

/// A style under the prefix of its attribute: `pressed:` and `hover:` make
/// it conditional, any other prefix is ignored.
pub open spec fn style_at(prefix: Option<Seq<u8>>, ident: Seq<u8>, v: Seq<u8>) -> SpecRes<
    SpecStyleAttr,
> {
    match style_core_at(ident, v) {
        Err(e) => Err(e),
        Ok((q, st)) => Ok(
            (
                q,
                if prefix matches Some(p) && p =~= "pressed".spec_bytes() {
                    SpecStyleAttr::Pressed(Box::new(st))
                } else if prefix matches Some(p) && p =~= "hover".spec_bytes() {
                    SpecStyleAttr::Hover(Box::new(st))
                } else {
                    st
                },
            ),
        ),
    }
}

fn parse_style_part1(ident: &[u8], value: &[u8]) -> (r: Option<Result<(usize, StyleAttr), Fail>>)
    ensures
        r matches Some(x) ==> style_part1_at(ident@, value@) == Some(lift(x)),
        r is None ==> style_part1_at(ident@, value@) is None,
{
    if crate::lex::bytes_eq(ident, "position") {
        Some(
            match parse_position_type(value, 0) {
                Ok((q, x)) => Ok((q, StyleAttr::Position(x))),
                Err(e) => Err(e),
            },
        )
    } else if crate::lex::bytes_eq(ident, "display") {
        Some(
            match parse_display(value, 0) {
                Ok((q, x)) => Ok((q, StyleAttr::Display(x))),
                Err(e) => Err(e),
            },
        )
    } else if crate::lex::bytes_eq(ident, "overflow") {
        Some(
            match parse_overflow(value, 0) {
                Ok((q, x)) => Ok((q, StyleAttr::Overflow(x))),
                Err(e) => Err(e),
            },
        )
    } else if crate::lex::bytes_eq(ident, "direction") {
        Some(
            match parse_direction(value, 0) {
                Ok((q, x)) => Ok((q, StyleAttr::Direction(x))),
                Err(e) => Err(e),
            },
        )
    } else if crate::lex::bytes_eq(ident, "align_self") {
        Some(
            match parse_align_self(value, 0) {
                Ok((q, x)) => Ok((q, StyleAttr::AlignSelf(x))),
                Err(e) => Err(e),
            },
        )
    } else if crate::lex::bytes_eq(ident, "align_items") {
        Some(
            match parse_align_items(value, 0) {
                Ok((q, x)) => Ok((q, StyleAttr::AlignItems(x))),
                Err(e) => Err(e),
            },
        )
    } else if crate::lex::bytes_eq(ident, "align_content") {
        Some(
            match parse_align_content(value, 0) {
                Ok((q, x)) => Ok((q, StyleAttr::AlignContent(x))),
                Err(e) => Err(e),
            },
        )
    } else if crate::lex::bytes_eq(ident, "justify_self") {
        Some(
            match parse_justify_self(value, 0) {
                Ok((q, x)) => Ok((q, StyleAttr::JustifySelf(x))),
                Err(e) => Err(e),
            },
        )
    } else if crate::lex::bytes_eq(ident, "justify_items") {
        Some(
            match parse_justify_items(value, 0) {
                Ok((q, x)) => Ok((q, StyleAttr::JustifyItems(x))),
                Err(e) => Err(e),
            },
        )
    } else if crate::lex::bytes_eq(ident, "justify_content") {
        Some(
            match parse_justify_content(value, 0) {
                Ok((q, x)) => Ok((q, StyleAttr::JustifyContent(x))),
                Err(e) => Err(e),
            },
        )
    } else if crate::lex::bytes_eq(ident, "flex_direction") {
        Some(
            match parse_flex_direction(value, 0) {
                Ok((q, x)) => Ok((q, StyleAttr::FlexDirection(x))),
                Err(e) => Err(e),
            },
        )
    } else if crate::lex::bytes_eq(ident, "flex_wrap") {
        Some(
            match parse_flex_wrap(value, 0) {
                Ok((q, x)) => Ok((q, StyleAttr::FlexWrap(x))),
                Err(e) => Err(e),
            },
        )
    } else {
        None
    }
}

fn parse_style_part2(ident: &[u8], value: &[u8]) -> (r: Option<Result<(usize, StyleAttr), Fail>>)
    ensures
        r matches Some(x) ==> style_part2_at(ident@, value@) == Some(lift(x)),
        r is None ==> style_part2_at(ident@, value@) is None,
{
    if crate::lex::bytes_eq(ident, "flex_grow") {
        Some(
            match parse_float(value, 0) {
                Ok((q, x)) => Ok((q, StyleAttr::FlexGrow(x))),
                Err(e) => Err(e),
            },
        )
    } else if crate::lex::bytes_eq(ident, "flex_shrink") {
        Some(
            match parse_float(value, 0) {
                Ok((q, x)) => Ok((q, StyleAttr::FlexShrink(x))),
                Err(e) => Err(e),
            },
        )
    } else if crate::lex::bytes_eq(ident, "flex_basis") {
        Some(
            match parse_val(value, 0) {
                Ok((q, x)) => Ok((q, StyleAttr::FlexBasis(x))),
                Err(e) => Err(e),
            },
        )
    } else if crate::lex::bytes_eq(ident, "row_gap") {
        Some(
            match parse_val(value, 0) {
                Ok((q, x)) => Ok((q, StyleAttr::RowGap(x))),
                Err(e) => Err(e),
            },
        )
    } else if crate::lex::bytes_eq(ident, "column_gap") {
        Some(
            match parse_val(value, 0) {
                Ok((q, x)) => Ok((q, StyleAttr::ColumnGap(x))),
                Err(e) => Err(e),
            },
        )
    } else if crate::lex::bytes_eq(ident, "grid_auto_flow") {
        Some(
            match parse_auto_flow(value, 0) {
                Ok((q, x)) => Ok((q, StyleAttr::GridAutoFlow(x))),
                Err(e) => Err(e),
            },
        )
    } else if crate::lex::bytes_eq(ident, "grid_auto_rows") {
        Some(
            match parse_grid_tracks(value, 0) {
                Ok((q, x)) => Ok((q, StyleAttr::GridAutoRows(x))),
                Err(e) => Err(e),
            },
        )
    } else if crate::lex::bytes_eq(ident, "grid_auto_columns") {
        Some(
            match parse_grid_tracks(value, 0) {
                Ok((q, x)) => Ok((q, StyleAttr::GridAutoColumns(x))),
                Err(e) => Err(e),
            },
        )
    } else if crate::lex::bytes_eq(ident, "grid_template_rows") {
        Some(
            match parse_grid_tracks_repeated(value, 0) {
                Ok((q, x)) => Ok((q, StyleAttr::GridTemplateRows(x))),
                Err(e) => Err(e),
            },
        )
    } else if crate::lex::bytes_eq(ident, "grid_template_columns") {
        Some(
            match parse_grid_tracks_repeated(value, 0) {
                Ok((q, x)) => Ok((q, StyleAttr::GridTemplateColumns(x))),
                Err(e) => Err(e),
            },
        )
    } else if crate::lex::bytes_eq(ident, "grid_row") {
        Some(
            match parse_grid_placement(value, 0) {
                Ok((q, x)) => Ok((q, StyleAttr::GridRow(x))),
                Err(e) => Err(e),
            },
        )
    } else if crate::lex::bytes_eq(ident, "grid_column") {
        Some(
            match parse_grid_placement(value, 0) {
                Ok((q, x)) => Ok((q, StyleAttr::GridColumn(x))),
                Err(e) => Err(e),
            },
        )
    } else {
        None
    }
}

fn parse_style_part3(ident: &[u8], value: &[u8]) -> (r: Option<Result<(usize, StyleAttr), Fail>>)
    ensures
        r matches Some(x) ==> style_part3_at(ident@, value@) == Some(lift(x)),
        r is None ==> style_part3_at(ident@, value@) is None,
{
    if crate::lex::bytes_eq(ident, "font") {
        Some(Ok((value.len(), StyleAttr::Font(lossy_string(value)))))
    } else if crate::lex::bytes_eq(ident, "font_color") {
        Some(
            match parse_color(value, 0) {
                Ok((q, x)) => Ok((q, StyleAttr::FontColor(x))),
                Err(e) => Err(e),
            },
        )
    } else if crate::lex::bytes_eq(ident, "font_size") {
        Some(
            match parse_float(value, 0) {
                Ok((q, x)) => Ok((q, StyleAttr::FontSize(x))),
                Err(e) => Err(e),
            },
        )
    } else if crate::lex::bytes_eq(ident, "delay") {
        Some(
            match parse_time_span(value, 0) {
                Ok((q, x)) => Ok((q, StyleAttr::Delay(x))),
                Err(e) => Err(e),
            },
        )
    } else if crate::lex::bytes_eq(ident, "max_height") {
        Some(
            match parse_val(value, 0) {
                Ok((q, x)) => Ok((q, StyleAttr::MaxHeight(x))),
                Err(e) => Err(e),
            },
        )
    } else if crate::lex::bytes_eq(ident, "max_width") {
        Some(
            match parse_val(value, 0) {
                Ok((q, x)) => Ok((q, StyleAttr::MaxWidth(x))),
                Err(e) => Err(e),
            },
        )
    } else if crate::lex::bytes_eq(ident, "min_height") {
        Some(
            match parse_val(value, 0) {
                Ok((q, x)) => Ok((q, StyleAttr::MinHeight(x))),
                Err(e) => Err(e),
            },
        )
    } else if crate::lex::bytes_eq(ident, "min_width") {
        Some(
            match parse_val(value, 0) {
                Ok((q, x)) => Ok((q, StyleAttr::MinWidth(x))),
                Err(e) => Err(e),
            },
        )
    } else if crate::lex::bytes_eq(ident, "bottom") {
        Some(
            match parse_val(value, 0) {
                Ok((q, x)) => Ok((q, StyleAttr::Bottom(x))),
                Err(e) => Err(e),
            },
        )
    } else if crate::lex::bytes_eq(ident, "top") {
        Some(
            match parse_val(value, 0) {
                Ok((q, x)) => Ok((q, StyleAttr::Top(x))),
                Err(e) => Err(e),
            },
        )
    } else {
        None
    }
}

fn parse_style_part4(ident: &[u8], value: &[u8]) -> (r: Option<Result<(usize, StyleAttr), Fail>>)
    ensures
        r matches Some(x) ==> style_part4_at(ident@, value@) == Some(lift(x)),
        r is None ==> style_part4_at(ident@, value@) is None,
{
    if crate::lex::bytes_eq(ident, "right") {
        Some(
            match parse_val(value, 0) {
                Ok((q, x)) => Ok((q, StyleAttr::Right(x))),
                Err(e) => Err(e),
            },
        )
    } else if crate::lex::bytes_eq(ident, "left") {
        Some(
            match parse_val(value, 0) {
                Ok((q, x)) => Ok((q, StyleAttr::Left(x))),
                Err(e) => Err(e),
            },
        )
    } else if crate::lex::bytes_eq(ident, "height") {
        Some(
            match parse_val(value, 0) {
                Ok((q, x)) => Ok((q, StyleAttr::Height(x))),
                Err(e) => Err(e),
            },
        )
    } else if crate::lex::bytes_eq(ident, "width") {
        Some(
            match parse_val(value, 0) {
                Ok((q, x)) => Ok((q, StyleAttr::Width(x))),
                Err(e) => Err(e),
            },
        )
    } else if crate::lex::bytes_eq(ident, "padding") {
        Some(
            match parse_ui_rect(value, 0) {
                Ok((q, x)) => Ok((q, StyleAttr::Padding(x))),
                Err(e) => Err(e),
            },
        )
    } else if crate::lex::bytes_eq(ident, "margin") {
        Some(
            match parse_ui_rect(value, 0) {
                Ok((q, x)) => Ok((q, StyleAttr::Margin(x))),
                Err(e) => Err(e),
            },
        )
    } else if crate::lex::bytes_eq(ident, "border") {
        Some(
            match parse_ui_rect(value, 0) {
                Ok((q, x)) => Ok((q, StyleAttr::Border(x))),
                Err(e) => Err(e),
            },
        )
    } else if crate::lex::bytes_eq(ident, "border_radius") {
        Some(
            match parse_ui_rect(value, 0) {
                Ok((q, x)) => Ok((q, StyleAttr::BorderRadius(x))),
                Err(e) => Err(e),
            },
        )
    } else if crate::lex::bytes_eq(ident, "background") {
        Some(
            match parse_color(value, 0) {
                Ok((q, x)) => Ok((q, StyleAttr::Background(x))),
                Err(e) => Err(e),
            },
        )
    } else if crate::lex::bytes_eq(ident, "border_color") {
        Some(
            match parse_color(value, 0) {
                Ok((q, x)) => Ok((q, StyleAttr::BorderColor(x))),
                Err(e) => Err(e),
            },
        )
    } else {
        None
    }
}

fn parse_style_core(ident: &[u8], value: &[u8]) -> (r: Result<(usize, StyleAttr), Fail>)
    ensures
        lift(r) == style_core_at(ident@, value@),
{
    reveal(style_core_at);
    if let Some(r) = parse_style_part1(ident, value) {
        r
    } else if let Some(r) = parse_style_part2(ident, value) {
        r
    } else if let Some(r) = parse_style_part3(ident, value) {
        r
    } else if let Some(r) = parse_style_part4(ident, value) {
        r
    } else {
        Err(Fail::Error)
    }
}

/// Reads the style named `ident` from `value`, under the prefix of its
/// attribute (`width="10px"`, `hover:background="#FFF"`).
pub fn parse_style(prefix: Option<&[u8]>, ident: &[u8], value: &[u8]) -> (r: Result<
    (usize, StyleAttr),
    Fail,
>)
    ensures
        lift(r) == style_at(opt_bytes(prefix), ident@, value@),
{
    let (q, st) = parse_style_core(ident, value)?;
    if crate::lex::opt_bytes_eq(prefix, "pressed") {
        Ok((q, StyleAttr::Pressed(Box::new(st))))
    } else if crate::lex::opt_bytes_eq(prefix, "hover") {
        Ok((q, StyleAttr::Hover(Box::new(st))))
    } else {
        Ok((q, st))
    }
}

} // verus!

verus! {

/// The texts of a list of strings.
pub open spec fn strings_view(v: Seq<String>) -> Seq<Seq<char>> {
    Seq::new(v.len(), |i: int| v[i]@)
}

/// A use of a template property in an attribute: `prefix:ident="{key}"`.
#[derive(Debug, Clone, PartialEq)]
pub struct AttrTokens {
    pub prefix: Option<String>,
    pub ident: String,
    pub key: String,
}

/// A use of a template property as a mathematical value.
pub struct SpecAttrTokens {
    pub prefix: Option<Seq<char>>,
    pub ident: Seq<char>,
    pub key: Seq<char>,
}

/// The text of an optional string.
pub open spec fn opt_string_view(s: Option<String>) -> Option<Seq<char>> {
    match s {
        Some(x) => Some(x@),
        None => None,
    }
}

impl View for AttrTokens {
    type V = SpecAttrTokens;

    open spec fn view(&self) -> SpecAttrTokens {
        SpecAttrTokens { prefix: opt_string_view(self.prefix), ident: self.ident@, key: self.key@ }
    }
}

/// Functions bound to an event of an element.
#[derive(Debug, Clone, PartialEq)]
pub enum Action {
    OnPress(Vec<String>),
    OnEnter(Vec<String>),
    OnExit(Vec<String>),
    OnSpawn(Vec<String>),
}

/// Functions bound to an event, as a mathematical value.
pub enum SpecAction {
    OnPress(Seq<Seq<char>>),
    OnEnter(Seq<Seq<char>>),
    OnExit(Seq<Seq<char>>),
    OnSpawn(Seq<Seq<char>>),
}

impl View for Action {
    type V = SpecAction;

    open spec fn view(&self) -> SpecAction {
        match self {
            Action::OnPress(v) => SpecAction::OnPress(strings_view(v@)),
            Action::OnEnter(v) => SpecAction::OnEnter(strings_view(v@)),
            Action::OnExit(v) => SpecAction::OnExit(strings_view(v@)),
            Action::OnSpawn(v) => SpecAction::OnSpawn(strings_view(v@)),
        }
    }
}

/// What a markup attribute means.
#[derive(Debug, PartialEq)]
pub enum Attribute {
    Style(StyleAttr),
    PropertyDefinition(String, String),
    Uncompiled(AttrTokens),
    Action(Action),
    Path(String),
    Target(String),
    Id(String),
    Watch(String),
    Tag(String, String),
}

/// What a markup attribute means, as a mathematical value.
pub enum SpecAttribute {
    Style(SpecStyleAttr),
    PropertyDefinition(Seq<char>, Seq<char>),
    Uncompiled(SpecAttrTokens),
    Action(SpecAction),
    Path(Seq<char>),
    Target(Seq<char>),
    Id(Seq<char>),
    Watch(Seq<char>),
    Tag(Seq<char>, Seq<char>),
}

impl View for Attribute {
    type V = SpecAttribute;

    open spec fn view(&self) -> SpecAttribute {
        match self {
            Attribute::Style(x) => SpecAttribute::Style(x@),
            Attribute::PropertyDefinition(k, v) => SpecAttribute::PropertyDefinition(k@, v@),
            Attribute::Uncompiled(t) => SpecAttribute::Uncompiled(t@),
            Attribute::Action(a) => SpecAttribute::Action(a@),
            Attribute::Path(x) => SpecAttribute::Path(x@),
            Attribute::Target(x) => SpecAttribute::Target(x@),
            Attribute::Id(x) => SpecAttribute::Id(x@),
            Attribute::Watch(x) => SpecAttribute::Watch(x@),
            Attribute::Tag(k, v) => SpecAttribute::Tag(k@, v@),
        }
    }
}

/// `s` without the white space at its start and its end.
pub open spec fn trim_spaces(s: Seq<u8>) -> Seq<u8>
    decreases s.len(),
{
    if s.len() > 0 && crate::lex::is_space(s[0]) {
        trim_spaces(s.drop_first())
    } else if s.len() > 0 && crate::lex::is_space(s.last()) {
        trim_spaces(s.drop_last())
    } else {
        s
    }
}

/// The text of the bytes `a..b` of `v` without the white space around it.
fn trimmed_item(v: &[u8], a: usize, b: usize) -> (r: String)
    requires
        a <= b <= v@.len(),
    ensures
        r@ == lossy_utf8(trim_spaces(v@.subrange(a as int, b as int))),
{
    let mut i = a;
    while i < b && crate::lex::byte_in_class(ByteClass::Space, v[i])
        invariant
            a <= i <= b <= v@.len(),
            trim_spaces(v@.subrange(i as int, b as int)) == trim_spaces(v@.subrange(a as int, b as int)),
        decreases b - i,
    {
        assert(v@.subrange(i as int, b as int).drop_first() =~= v@.subrange(i + 1, b as int));
        i = i + 1;
    }
    let mut j = b;
    while j > i && crate::lex::byte_in_class(ByteClass::Space, v[j - 1])
        invariant
            a <= i <= j <= b <= v@.len(),
            i == j || !crate::lex::is_space(v@[i as int]),
            trim_spaces(v@.subrange(i as int, j as int)) == trim_spaces(v@.subrange(a as int, b as int)),
        decreases j,
    {
        assert(v@.subrange(i as int, j as int).drop_last() =~= v@.subrange(i as int, j - 1));
        assert(v@.subrange(i as int, j as int)[0] == v@[i as int]);
        j = j - 1;
    }
    proof {
        let t = v@.subrange(i as int, j as int);
        if t.len() > 0 {
            assert(t[0] == v@[i as int]);
            assert(t.last() == v@[j - 1]);
        }
    }
    lossy_string(vstd::slice::slice_subrange(v, i, j))
}

/// The items after the first of a comma separated list, from `p`: each
/// comma must be followed by a non-empty item, else the list ends before it.
pub open spec fn list_rest_at(v: Seq<u8>, p: int) -> SpecRes<Seq<Seq<char>>>
    decreases v.len() - p,
{
    match tag(v, p, ",") {
        None => Ok((p, Seq::empty())),
        Some(a) => {
            let b = scan(v, a, ByteClass::ListItem);
            if !(p < a < b <= v.len()) {
                Ok((p, Seq::empty()))
            } else {
                match list_rest_at(v, b) {
                    Ok((e, xs)) => Ok((e, seq![lossy_utf8(trim_spaces(v.subrange(a, b)))] + xs)),
                    Err(e) => Err(e),
                }
            }
        },
    }
}

/// A comma separated list of non-empty items (without `"`) at the start of
/// `v`; each item is taken without the white space around it.
pub open spec fn string_list_at(v: Seq<u8>) -> SpecRes<Seq<Seq<char>>> {
    let b = scan(v, 0, ByteClass::ListItem);
    if b == 0 {
        Err(Fail::Error)
    } else {
        match list_rest_at(v, b) {
            Ok((e, xs)) => Ok((e, seq![lossy_utf8(trim_spaces(v.subrange(0, b)))] + xs)),
            Err(e) => Err(e),
        }
    }
}

/// Reads a comma separated list of names (`start_game,play_beep`).
pub fn as_string_list(input: &[u8]) -> (r: Result<(usize, Vec<String>), Fail>)
    ensures
        r matches Ok((q, v)) ==> string_list_at(input@) == Ok::<(int, Seq<Seq<char>>), Fail>(
            (q as int, strings_view(v@)),
        ),
        r matches Err(e) ==> string_list_at(input@) == Err::<(int, Seq<Seq<char>>), Fail>(e),
{
    let b = scan_class(input, 0, ByteClass::ListItem);
    if b == 0 {
        return Err(Fail::Error);
    }
    let mut items: Vec<String> = Vec::new();
    items.push(trimmed_item(input, 0, b));
    let mut p = b;
    let ghost out = string_list_at(input@);
    assert(strings_view(items@) =~= seq![lossy_utf8(trim_spaces(input@.subrange(0, b as int)))]);
    loop
        invariant
            0 < p <= input@.len(),
            out == string_list_at(input@),
            list_rest_at(input@, p as int) matches Ok((e, rest)) ==> out == Ok::<
                (int, Seq<Seq<char>>),
                Fail,
            >((e, strings_view(items@) + rest)),
            list_rest_at(input@, p as int) is Err ==> out == list_rest_at(input@, p as int),
        decreases input@.len() - p,
    {
        let a = match tag_end(input, p, ",") {
            Some(a) => a,
            None => {
                assert(strings_view(items@) + Seq::<Seq<char>>::empty() =~= strings_view(items@));
                return Ok((p, items));
            },
        };
        let c = scan_class(input, a, ByteClass::ListItem);
        if !(p < a && a < c) {
            assert(strings_view(items@) + Seq::<Seq<char>>::empty() =~= strings_view(items@));
            return Ok((p, items));
        }
        let item = trimmed_item(input, a, c);
        proof {
            if let Ok((e, rest)) = list_rest_at(input@, c as int) {
                assert(strings_view(items@.push(item)) + rest =~= strings_view(items@) + (seq![
                    item@,
                ] + rest));
            }
        }
        items.push(item);
        p = c;
    }
}

/// A property use `{key}` at the start of `v`: the key is the non-empty text
/// up to the first `}`.
pub open spec fn prop_var_at(prefix: Option<Seq<u8>>, key: Seq<u8>, v: Seq<u8>) -> Option<
    SpecAttribute,
> {
    match tag(v, 0, "{") {
        None => None,
        Some(a) => {
            let b = scan(v, a, ByteClass::NotCloseBrace);
            if b == a {
                None
            } else {
                match tag(v, b, "}") {
                    None => None,
                    Some(_) => Some(
                        SpecAttribute::Uncompiled(
                            SpecAttrTokens {
                                prefix: match prefix {
                                    Some(p) => Some(lossy_utf8(p)),
                                    None => None,
                                },
                                ident: lossy_utf8(key),
                                key: lossy_utf8(v.subrange(a, b)),
                            },
                        ),
                    ),
                }
            }
        },
    }
}

/// Reads a property use `{key}` from an attribute value.
pub fn parse_prop_var(prefix: Option<&[u8]>, key: &[u8], value: &[u8]) -> (r: Option<Attribute>)
    ensures
        r matches Some(a) ==> prop_var_at(opt_bytes(prefix), key@, value@) == Some(a@),
        r is None ==> prop_var_at(opt_bytes(prefix), key@, value@) is None,
{
    let a = match tag_end(value, 0, "{") {
        Some(a) => a,
        None => return None,
    };
    let b = scan_class(value, a, ByteClass::NotCloseBrace);
    if b == a {
        return None;
    }
    match tag_end(value, b, "}") {
        None => None,
        Some(_) => Some(
            Attribute::Uncompiled(
                AttrTokens {
                    prefix: lossy_opt(prefix),
                    ident: lossy_string(key),
                    key: lossy_string(vstd::slice::slice_subrange(value, a, b)),
                },
            ),
        ),
    }
}

/// A list of names under an event.
pub open spec fn action_at(v: Seq<u8>, f: spec_fn(Seq<Seq<char>>) -> SpecAction) -> Result<
    SpecAttribute,
    Fail,
> {
    match string_list_at(v) {
        Ok((_, items)) => Ok(SpecAttribute::Action(f(items))),
        Err(e) => Err(e),
    }
}

/// What the markup attribute `prefix:key="v"` means: a property use if the
/// value starts with `{key}`; a tag under the prefix `tag:`; a property
/// definition under `prop:`; a watch, id, target or path for those keys;
/// functions for the events `onexit`, `onenter`, `onpress`, `onspawn`; a style
/// for a style name whose value reads; any other attribute defines a
/// property.
#[verifier::opaque]
pub open spec fn attribute_at(prefix: Option<Seq<u8>>, key: Seq<u8>, v: Seq<u8>) -> Result<
    SpecAttribute,
    Fail,
> {
    if let Some(a) = prop_var_at(prefix, key, v) {
        Ok(a)
    } else if prefix matches Some(p) && p =~= "tag".spec_bytes() {
        Ok(SpecAttribute::Tag(lossy_utf8(key), lossy_utf8(v)))
    } else if prefix matches Some(p) && p =~= "prop".spec_bytes() {
        Ok(SpecAttribute::PropertyDefinition(lossy_utf8(key), lossy_utf8(v)))
    } else if key =~= "watch".spec_bytes() {
        Ok(SpecAttribute::Watch(lossy_utf8(v)))
    } else if key =~= "id".spec_bytes() {
        Ok(SpecAttribute::Id(lossy_utf8(v)))
    } else if key =~= "target".spec_bytes() {
        Ok(SpecAttribute::Target(lossy_utf8(v)))
    } else if key =~= "src".spec_bytes() {
        Ok(SpecAttribute::Path(lossy_utf8(v)))
    } else if key =~= "onexit".spec_bytes() {
        action_at(v, |x| SpecAction::OnExit(x))
    } else if key =~= "onenter".spec_bytes() {
        action_at(v, |x| SpecAction::OnEnter(x))
    } else if key =~= "onpress".spec_bytes() {
        action_at(v, |x| SpecAction::OnPress(x))
    } else if key =~= "onspawn".spec_bytes() {
        action_at(v, |x| SpecAction::OnSpawn(x))
    } else {
        match style_at(prefix, key, v) {
            Ok((_, st)) => Ok(SpecAttribute::Style(st)),
            Err(_) => Ok(SpecAttribute::PropertyDefinition(lossy_utf8(key), lossy_utf8(v))),
        }
    }
}

/// The meaning of an attribute, as a mathematical value.
pub open spec fn attr_result_view(r: Result<Attribute, Fail>) -> Result<SpecAttribute, Fail> {
    match r {
        Ok(a) => Ok(a@),
        Err(e) => Err(e),
    }
}

/// Reads what the markup attribute `prefix:key="value"` means.
pub fn attribute_from_parts(prefix: Option<&[u8]>, key: &[u8], value: &[u8]) -> (r: Result<
    Attribute,
    Fail,
>)
    ensures
        attr_result_view(r) == attribute_at(opt_bytes(prefix), key@, value@),
{
    reveal(attribute_at);
    if let Some(attr) = parse_prop_var(prefix, key, value) {
        return Ok(attr);
    }
    if crate::lex::opt_bytes_eq(prefix, "tag") {
        return Ok(Attribute::Tag(lossy_string(key), lossy_string(value)));
    }
    if crate::lex::opt_bytes_eq(prefix, "prop") {
        return Ok(Attribute::PropertyDefinition(lossy_string(key), lossy_string(value)));
    }
    if crate::lex::bytes_eq(key, "watch") {
        Ok(Attribute::Watch(lossy_string(value)))
    } else if crate::lex::bytes_eq(key, "id") {
        Ok(Attribute::Id(lossy_string(value)))
    } else if crate::lex::bytes_eq(key, "target") {
        Ok(Attribute::Target(lossy_string(value)))
    } else if crate::lex::bytes_eq(key, "src") {
        Ok(Attribute::Path(lossy_string(value)))
    } else if crate::lex::bytes_eq(key, "onexit") {
        let (_, items) = as_string_list(value)?;
        Ok(Attribute::Action(Action::OnExit(items)))
    } else if crate::lex::bytes_eq(key, "onenter") {
        let (_, items) = as_string_list(value)?;
        Ok(Attribute::Action(Action::OnEnter(items)))
    } else if crate::lex::bytes_eq(key, "onpress") {
        let (_, items) = as_string_list(value)?;
        Ok(Attribute::Action(Action::OnPress(items)))
    } else if crate::lex::bytes_eq(key, "onspawn") {
        let (_, items) = as_string_list(value)?;
        Ok(Attribute::Action(Action::OnSpawn(items)))
    } else {
        match parse_style(prefix, key, value) {
            Ok((_, st)) => Ok(Attribute::Style(st)),
            Err(_) => Ok(Attribute::PropertyDefinition(lossy_string(key), lossy_string(value))),
        }
    }
}

/// The snake case name of the property `x`: the name of the attribute that
/// sets it (`min_width` for `MinWidth`).
pub open spec fn style_name(x: SpecStyleAttr) -> Seq<u8> {
    match x {
        SpecStyleAttr::Display(_) => "display".spec_bytes(),
        SpecStyleAttr::Position(_) => "position".spec_bytes(),
        SpecStyleAttr::Overflow(_) => "overflow".spec_bytes(),
        SpecStyleAttr::Left(_) => "left".spec_bytes(),
        SpecStyleAttr::Right(_) => "right".spec_bytes(),
        SpecStyleAttr::Top(_) => "top".spec_bytes(),
        SpecStyleAttr::Bottom(_) => "bottom".spec_bytes(),
        SpecStyleAttr::Width(_) => "width".spec_bytes(),
        SpecStyleAttr::Height(_) => "height".spec_bytes(),
        SpecStyleAttr::MinWidth(_) => "min_width".spec_bytes(),
        SpecStyleAttr::MinHeight(_) => "min_height".spec_bytes(),
        SpecStyleAttr::MaxWidth(_) => "max_width".spec_bytes(),
        SpecStyleAttr::MaxHeight(_) => "max_height".spec_bytes(),
        SpecStyleAttr::AspectRatio(_) => "aspect_ratio".spec_bytes(),
        SpecStyleAttr::AlignItems(_) => "align_items".spec_bytes(),
        SpecStyleAttr::JustifyItems(_) => "justify_items".spec_bytes(),
        SpecStyleAttr::AlignSelf(_) => "align_self".spec_bytes(),
        SpecStyleAttr::JustifySelf(_) => "justify_self".spec_bytes(),
        SpecStyleAttr::AlignContent(_) => "align_content".spec_bytes(),
        SpecStyleAttr::JustifyContent(_) => "justify_content".spec_bytes(),
        SpecStyleAttr::Margin(_) => "margin".spec_bytes(),
        SpecStyleAttr::Padding(_) => "padding".spec_bytes(),
        SpecStyleAttr::Border(_) => "border".spec_bytes(),
        SpecStyleAttr::BorderColor(_) => "border_color".spec_bytes(),
        SpecStyleAttr::BorderRadius(_) => "border_radius".spec_bytes(),
        SpecStyleAttr::FlexDirection(_) => "flex_direction".spec_bytes(),
        SpecStyleAttr::FlexWrap(_) => "flex_wrap".spec_bytes(),
        SpecStyleAttr::FlexGrow(_) => "flex_grow".spec_bytes(),
        SpecStyleAttr::FlexShrink(_) => "flex_shrink".spec_bytes(),
        SpecStyleAttr::FlexBasis(_) => "flex_basis".spec_bytes(),
        SpecStyleAttr::RowGap(_) => "row_gap".spec_bytes(),
        SpecStyleAttr::ColumnGap(_) => "column_gap".spec_bytes(),
        SpecStyleAttr::GridAutoFlow(_) => "grid_auto_flow".spec_bytes(),
        SpecStyleAttr::GridTemplateRows(_) => "grid_template_rows".spec_bytes(),
        SpecStyleAttr::GridTemplateColumns(_) => "grid_template_columns".spec_bytes(),
        SpecStyleAttr::GridAutoRows(_) => "grid_auto_rows".spec_bytes(),
        SpecStyleAttr::GridAutoColumns(_) => "grid_auto_columns".spec_bytes(),
        SpecStyleAttr::GridRow(_) => "grid_row".spec_bytes(),
        SpecStyleAttr::GridColumn(_) => "grid_column".spec_bytes(),
        SpecStyleAttr::Direction(_) => "direction".spec_bytes(),
        SpecStyleAttr::FontSize(_) => "font_size".spec_bytes(),
        SpecStyleAttr::Font(_) => "font".spec_bytes(),
        SpecStyleAttr::FontColor(_) => "font_color".spec_bytes(),
        SpecStyleAttr::Background(_) => "background".spec_bytes(),
        SpecStyleAttr::Hover(_) => "hover".spec_bytes(),
        SpecStyleAttr::Pressed(_) => "pressed".spec_bytes(),
        SpecStyleAttr::Active(_) => "active".spec_bytes(),
        SpecStyleAttr::Delay(_) => "delay".spec_bytes(),
    }
}

/// The property under a `hover:` or `pressed:` condition, or the property
/// itself.
pub open spec fn unconditional(x: SpecStyleAttr) -> SpecStyleAttr {
    match x {
        SpecStyleAttr::Hover(b) => *b,
        SpecStyleAttr::Pressed(b) => *b,
        _ => x,
    }
}

#[verifier::rlimit(80)]
proof fn lemma_part1_names(ident: Seq<u8>, v: Seq<u8>)
    ensures
        style_part1_at(ident, v) matches Some(Ok((_, x))) ==> style_name(x) == ident && !(x is Hover)
            && !(x is Pressed),
{
    if let Some(Ok((_, x))) = style_part1_at(ident, v) {
        if ident =~= "position".spec_bytes() {
            assert(x is Position);
        } else if ident =~= "display".spec_bytes() {
            assert(x is Display);
        } else if ident =~= "overflow".spec_bytes() {
            assert(x is Overflow);
        } else if ident =~= "direction".spec_bytes() {
            assert(x is Direction);
        } else if ident =~= "align_self".spec_bytes() {
            assert(x is AlignSelf);
        } else if ident =~= "align_items".spec_bytes() {
            assert(x is AlignItems);
        } else if ident =~= "align_content".spec_bytes() {
            assert(x is AlignContent);
        } else if ident =~= "justify_self".spec_bytes() {
            assert(x is JustifySelf);
        } else if ident =~= "justify_items".spec_bytes() {
            assert(x is JustifyItems);
        } else if ident =~= "justify_content".spec_bytes() {
            assert(x is JustifyContent);
        } else if ident =~= "flex_direction".spec_bytes() {
            assert(x is FlexDirection);
        } else if ident =~= "flex_wrap".spec_bytes() {
            assert(x is FlexWrap);
        }
    }
}

#[verifier::rlimit(80)]
proof fn lemma_part2_names(ident: Seq<u8>, v: Seq<u8>)
    ensures
        style_part2_at(ident, v) matches Some(Ok((_, x))) ==> style_name(x) == ident && !(x is Hover)
            && !(x is Pressed),
{
    if let Some(Ok((_, x))) = style_part2_at(ident, v) {
        if ident =~= "flex_grow".spec_bytes() {
            assert(x is FlexGrow);
        } else if ident =~= "flex_shrink".spec_bytes() {
            assert(x is FlexShrink);
        } else if ident =~= "flex_basis".spec_bytes() {
            assert(x is FlexBasis);
        } else if ident =~= "row_gap".spec_bytes() {
            assert(x is RowGap);
        } else if ident =~= "column_gap".spec_bytes() {
            assert(x is ColumnGap);
        } else if ident =~= "grid_auto_flow".spec_bytes() {
            assert(x is GridAutoFlow);
        } else if ident =~= "grid_auto_rows".spec_bytes() {
            assert(x is GridAutoRows);
        } else if ident =~= "grid_auto_columns".spec_bytes() {
            assert(x is GridAutoColumns);
        } else if ident =~= "grid_template_rows".spec_bytes() {
            assert(x is GridTemplateRows);
        } else if ident =~= "grid_template_columns".spec_bytes() {
            assert(x is GridTemplateColumns);
        } else if ident =~= "grid_row".spec_bytes() {
            assert(x is GridRow);
        } else if ident =~= "grid_column".spec_bytes() {
            assert(x is GridColumn);
        }
    }
}

#[verifier::rlimit(80)]
proof fn lemma_part3_names(ident: Seq<u8>, v: Seq<u8>)
    ensures
        style_part3_at(ident, v) matches Some(Ok((_, x))) ==> style_name(x) == ident && !(x is Hover)
            && !(x is Pressed),
{
    if let Some(Ok((_, x))) = style_part3_at(ident, v) {
        if ident =~= "font".spec_bytes() {
            assert(x is Font);
        } else if ident =~= "font_color".spec_bytes() {
            assert(x is FontColor);
        } else if ident =~= "font_size".spec_bytes() {
            assert(x is FontSize);
        } else if ident =~= "delay".spec_bytes() {
            assert(x is Delay);
        } else if ident =~= "max_height".spec_bytes() {
            assert(x is MaxHeight);
        } else if ident =~= "max_width".spec_bytes() {
            assert(x is MaxWidth);
        } else if ident =~= "min_height".spec_bytes() {
            assert(x is MinHeight);
        } else if ident =~= "min_width".spec_bytes() {
            assert(x is MinWidth);
        } else if ident =~= "bottom".spec_bytes() {
            assert(x is Bottom);
        } else if ident =~= "top".spec_bytes() {
            assert(x is Top);
        }
    }
}

#[verifier::rlimit(80)]
proof fn lemma_part4_names(ident: Seq<u8>, v: Seq<u8>)
    ensures
        style_part4_at(ident, v) matches Some(Ok((_, x))) ==> style_name(x) == ident && !(x is Hover)
            && !(x is Pressed),
{
    if let Some(Ok((_, x))) = style_part4_at(ident, v) {
        if ident =~= "right".spec_bytes() {
            assert(x is Right);
        } else if ident =~= "left".spec_bytes() {
            assert(x is Left);
        } else if ident =~= "height".spec_bytes() {
            assert(x is Height);
        } else if ident =~= "width".spec_bytes() {
            assert(x is Width);
        } else if ident =~= "padding".spec_bytes() {
            assert(x is Padding);
        } else if ident =~= "margin".spec_bytes() {
            assert(x is Margin);
        } else if ident =~= "border".spec_bytes() {
            assert(x is Border);
        } else if ident =~= "border_radius".spec_bytes() {
            assert(x is BorderRadius);
        } else if ident =~= "background".spec_bytes() {
            assert(x is Background);
        } else if ident =~= "border_color".spec_bytes() {
            assert(x is BorderColor);
        }
    }
}

/// The attribute's name decides the property: whatever its value and
/// prefix, an attribute `name="v"` that reads as a style sets the property
/// whose snake case name is `name` (under a `hover:` or `pressed:`
/// condition, the property inside it).
pub proof fn law_style_named_by_attribute(prefix: Option<Seq<u8>>, ident: Seq<u8>, v: Seq<u8>)
    ensures
        style_at(None, ident, v) matches Ok((_, x)) ==> style_name(x) == ident,
        style_at(prefix, ident, v) matches Ok((_, x)) ==> style_name(unconditional(x)) == ident,
        attribute_at(prefix, ident, v) matches Ok(SpecAttribute::Style(x)) ==> style_name(unconditional(x))
            == ident,
{
    lemma_core_names(ident, v);
    lemma_attribute_style_source(prefix, ident, v);
}

/// A style that the style reading gives has the attribute's name.
proof fn lemma_core_names(ident: Seq<u8>, v: Seq<u8>)
    ensures
        style_core_at(ident, v) matches Ok((_, x)) ==> style_name(x) == ident && !(x is Hover) && !(
            x is Pressed),
{
    reveal(style_core_at);
    lemma_part1_names(ident, v);
    lemma_part2_names(ident, v);
    lemma_part3_names(ident, v);
    lemma_part4_names(ident, v);
}

/// An attribute that reads as a style reads so through `style_at`.
proof fn lemma_attribute_style_source(prefix: Option<Seq<u8>>, ident: Seq<u8>, v: Seq<u8>)
    ensures
        attribute_at(prefix, ident, v) matches Ok(SpecAttribute::Style(x)) ==> style_at(prefix, ident, v)
            matches Ok((_, y)) && y == x,
{
    reveal(attribute_at);
}

/// The name of the attribute that binds functions to an event.
pub open spec fn action_name(a: SpecAction) -> Seq<u8> {
    match a {
        SpecAction::OnPress(_) => "onpress".spec_bytes(),
        SpecAction::OnEnter(_) => "onenter".spec_bytes(),
        SpecAction::OnExit(_) => "onexit".spec_bytes(),
        SpecAction::OnSpawn(_) => "onspawn".spec_bytes(),
    }
}

/// The attribute's name and value decide what it means: an id, target,
/// watch or path comes only from the attribute of that name (`src` for a
/// path) and holds its value; an event list comes only from the attribute
/// named after its event; a tag comes only from the `tag:` prefix with the
/// name as key and the value as text; a definition holds the name as key
/// and the value as text; a property use keeps the attribute's prefix and
/// name.
pub proof fn law_attribute_named_by_key(prefix: Option<Seq<u8>>, key: Seq<u8>, v: Seq<u8>)
    ensures
        attribute_at(prefix, key, v) matches Ok(SpecAttribute::Id(x)) ==> key == "id".spec_bytes() && x
            == lossy_utf8(v),
        attribute_at(prefix, key, v) matches Ok(SpecAttribute::Target(x)) ==> key == "target".spec_bytes()
            && x == lossy_utf8(v),
        attribute_at(prefix, key, v) matches Ok(SpecAttribute::Watch(x)) ==> key == "watch".spec_bytes()
            && x == lossy_utf8(v),
        attribute_at(prefix, key, v) matches Ok(SpecAttribute::Path(x)) ==> key == "src".spec_bytes() && x
            == lossy_utf8(v),
        attribute_at(prefix, key, v) matches Ok(SpecAttribute::Action(a)) ==> key == action_name(a),
        attribute_at(prefix, key, v) matches Ok(SpecAttribute::Tag(k, x)) ==> prefix == Some(
            "tag".spec_bytes(),
        ) && k == lossy_utf8(key) && x == lossy_utf8(v),
        attribute_at(prefix, key, v) matches Ok(SpecAttribute::PropertyDefinition(k, x)) ==> k
            == lossy_utf8(key) && x == lossy_utf8(v),
        attribute_at(prefix, key, v) matches Ok(SpecAttribute::Uncompiled(t)) ==> t.ident == lossy_utf8(key)
            && t.prefix == (match prefix {
            Some(p) => Some(lossy_utf8(p)),
            None => None,
        }),
{
    reveal(attribute_at);
}

/// A conditional style is the plain style under a condition: with the
/// prefix `hover` or `pressed` an attribute reads as the same style wrapped
/// in `Hover` or `Pressed`, and any other prefix leaves it as it is.
pub proof fn law_conditional_prefix(p: Seq<u8>, ident: Seq<u8>, v: Seq<u8>)
    ensures
        p == "hover".spec_bytes() ==> style_at(Some(p), ident, v) == map_style(
            style_at(None, ident, v),
            |x| SpecStyleAttr::Hover(Box::new(x)),
        ),
        p == "pressed".spec_bytes() ==> style_at(Some(p), ident, v) == map_style(
            style_at(None, ident, v),
            |x| SpecStyleAttr::Pressed(Box::new(x)),
        ),
        p != "hover".spec_bytes() && p != "pressed".spec_bytes() ==> style_at(Some(p), ident, v)
            == style_at(None, ident, v),
{
    reveal_strlit("hover");
    vstd::string::is_ascii_spec_bytes("hover");
    reveal_strlit("pressed");
    vstd::string::is_ascii_spec_bytes("pressed");
    assert(p == "hover".spec_bytes() ==> p =~= "hover".spec_bytes());
    assert(p =~= "hover".spec_bytes() ==> p == "hover".spec_bytes());
    assert(p =~= "pressed".spec_bytes() ==> p == "pressed".spec_bytes());
    assert("hover".spec_bytes() != "pressed".spec_bytes()) by {
        assert("hover".spec_bytes()[0] != "pressed".spec_bytes()[0]);
    }
}

/// Any value can be a property use: a value `{k}`, with `k` not empty and
/// free of `}`, reads as a use of property `k` under the attribute's prefix
/// and name, whatever the name.
pub proof fn law_value_as_property_use(prefix: Option<Seq<u8>>, key: Seq<u8>, k: Seq<u8>)
    requires
        k.len() > 0,
        forall|i: int| 0 <= i < k.len() ==> k[i] != 125,
    ensures
        attribute_at(prefix, key, seq![123u8] + k + seq![125u8]) == Ok::<SpecAttribute, Fail>(
            SpecAttribute::Uncompiled(
                SpecAttrTokens {
                    prefix: match prefix {
                        Some(p) => Some(lossy_utf8(p)),
                        None => None,
                    },
                    ident: lossy_utf8(key),
                    key: lossy_utf8(k),
                },
            ),
        ),
{
    reveal(attribute_at);
    reveal_strlit("{");
    vstd::string::is_ascii_spec_bytes("{");
    reveal_strlit("}");
    vstd::string::is_ascii_spec_bytes("}");
    let v = seq![123u8] + k + seq![125u8];
    let n = k.len() as int;
    assert(v.subrange(0, 1) =~= "{".spec_bytes());
    assert forall|i: int| 1 <= i < 1 + n implies in_class_close(v[i]) by {
        assert(v[i] == k[i - 1]);
    }
    crate::lex::lemma_scan(v, 1, ByteClass::NotCloseBrace);
    let b = scan(v, 1, ByteClass::NotCloseBrace);
    if b < 1 + n {
        assert(in_class_close(v[b]));
    }
    assert(v[1 + n] == 125u8);
    if b > 1 + n {
        assert(crate::lex::in_class(ByteClass::NotCloseBrace, v[1 + n]));
    }
    assert(b == 1 + n);
    assert(v.subrange(b, b + 1) =~= "}".spec_bytes());
    assert(v.subrange(1, b) =~= k);
}

/// Whether a byte is no closing brace.
pub open spec fn in_class_close(b: u8) -> bool {
    crate::lex::in_class(ByteClass::NotCloseBrace, b)
}

/// A `tag:` attribute is a custom tag: unless its value is a property use,
/// `tag:key="v"` reads as the tag `key` with the text `v`, and `prop:` as a
/// property definition alike.
pub proof fn law_tag_and_property_prefix(key: Seq<u8>, v: Seq<u8>)
    requires
        prop_var_at(Some("tag".spec_bytes()), key, v) is None,
    ensures
        attribute_at(Some("tag".spec_bytes()), key, v) == Ok::<SpecAttribute, Fail>(
            SpecAttribute::Tag(lossy_utf8(key), lossy_utf8(v)),
        ),
        attribute_at(Some("prop".spec_bytes()), key, v) == Ok::<SpecAttribute, Fail>(
            SpecAttribute::PropertyDefinition(lossy_utf8(key), lossy_utf8(v)),
        ),
{
    reveal(attribute_at);
    reveal_strlit("tag");
    vstd::string::is_ascii_spec_bytes("tag");
    reveal_strlit("prop");
    vstd::string::is_ascii_spec_bytes("prop");
    assert("prop".spec_bytes() != "tag".spec_bytes()) by {
        assert("prop".spec_bytes()[0] != "tag".spec_bytes()[0]);
    }
    assert(prop_var_at(Some("prop".spec_bytes()), key, v) is None);
}

} // verus!
