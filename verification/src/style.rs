//! The computed style of a node: the layout, colors and font that a list of
//! style properties gives, and the styles kept for hover, press and the
//! active state.
use crate::attribute::{SpecStyleAttr, StyleAttr};
use crate::template::styles_view;
use crate::values::{AlignContent, AlignItems, AlignSelf, Color, Direction, Display, FlexDirection, FlexWrap, GridAutoFlow, GridPlacement, GridTrack, JustifyContent, JustifyItems, JustifySelf, Overflow, OverflowAxis, TimeSpan, PositionType, RepeatedGridTrack, UiRect, Val};
use vstd::prelude::*;

verus! {

/// The layout of a node. Floating point numbers are the bit patterns of
/// their `f32`.
#[derive(Debug, PartialEq)]
pub struct NodeLayout {
    pub display: Display,
    pub position_type: PositionType,
    pub overflow: Overflow,
    pub left: Val,
    pub right: Val,
    pub top: Val,
    pub bottom: Val,
    pub width: Val,
    pub height: Val,
    pub min_width: Val,
    pub min_height: Val,
    pub max_width: Val,
    pub max_height: Val,
    pub aspect_ratio: Option<u32>,
    pub align_items: AlignItems,
    pub justify_items: JustifyItems,
    pub align_self: AlignSelf,
    pub justify_self: JustifySelf,
    pub align_content: AlignContent,
    pub justify_content: JustifyContent,
    pub margin: UiRect,
    pub padding: UiRect,
    pub border: UiRect,
    pub flex_direction: FlexDirection,
    pub flex_wrap: FlexWrap,
    pub flex_grow: u32,
    pub flex_shrink: u32,
    pub flex_basis: Val,
    pub row_gap: Val,
    pub column_gap: Val,
    pub grid_auto_flow: GridAutoFlow,
    pub grid_template_rows: Vec<RepeatedGridTrack>,
    pub grid_template_columns: Vec<RepeatedGridTrack>,
    pub grid_auto_rows: Vec<GridTrack>,
    pub grid_auto_columns: Vec<GridTrack>,
    pub grid_row: GridPlacement,
    pub grid_column: GridPlacement,
}

/// The layout of a node as a mathematical value.
pub struct SpecNodeLayout {
    pub display: Display,
    pub position_type: PositionType,
    pub overflow: Overflow,
    pub left: Val,
    pub right: Val,
    pub top: Val,
    pub bottom: Val,
    pub width: Val,
    pub height: Val,
    pub min_width: Val,
    pub min_height: Val,
    pub max_width: Val,
    pub max_height: Val,
    pub aspect_ratio: Option<u32>,
    pub align_items: AlignItems,
    pub justify_items: JustifyItems,
    pub align_self: AlignSelf,
    pub justify_self: JustifySelf,
    pub align_content: AlignContent,
    pub justify_content: JustifyContent,
    pub margin: UiRect,
    pub padding: UiRect,
    pub border: UiRect,
    pub flex_direction: FlexDirection,
    pub flex_wrap: FlexWrap,
    pub flex_grow: u32,
    pub flex_shrink: u32,
    pub flex_basis: Val,
    pub row_gap: Val,
    pub column_gap: Val,
    pub grid_auto_flow: GridAutoFlow,
    pub grid_template_rows: Seq<RepeatedGridTrack>,
    pub grid_template_columns: Seq<RepeatedGridTrack>,
    pub grid_auto_rows: Seq<GridTrack>,
    pub grid_auto_columns: Seq<GridTrack>,
    pub grid_row: GridPlacement,
    pub grid_column: GridPlacement,
}

impl View for NodeLayout {
    type V = SpecNodeLayout;

    open spec fn view(&self) -> SpecNodeLayout {
        SpecNodeLayout {
            display: self.display,
            position_type: self.position_type,
            overflow: self.overflow,
            left: self.left,
            right: self.right,
            top: self.top,
            bottom: self.bottom,
            width: self.width,
            height: self.height,
            min_width: self.min_width,
            min_height: self.min_height,
            max_width: self.max_width,
            max_height: self.max_height,
            aspect_ratio: self.aspect_ratio,
            align_items: self.align_items,
            justify_items: self.justify_items,
            align_self: self.align_self,
            justify_self: self.justify_self,
            align_content: self.align_content,
            justify_content: self.justify_content,
            margin: self.margin,
            padding: self.padding,
            border: self.border,
            flex_direction: self.flex_direction,
            flex_wrap: self.flex_wrap,
            flex_grow: self.flex_grow,
            flex_shrink: self.flex_shrink,
            flex_basis: self.flex_basis,
            row_gap: self.row_gap,
            column_gap: self.column_gap,
            grid_auto_flow: self.grid_auto_flow,
            grid_template_rows: self.grid_template_rows@,
            grid_template_columns: self.grid_template_columns@,
            grid_auto_rows: self.grid_auto_rows@,
            grid_auto_columns: self.grid_auto_columns@,
            grid_row: self.grid_row,
            grid_column: self.grid_column,
        }
    }
}

/// A length of zero pixels.
pub open spec fn px_zero() -> Val {
    Val::Px(0)
}

/// Zero pixels on every side.
pub open spec fn rect_zero() -> UiRect {
    UiRect { left: px_zero(), right: px_zero(), top: px_zero(), bottom: px_zero() }
}

/// The bit pattern of the `f32` one.
pub open spec fn one_bits() -> u32 {
    0x3f80_0000
}

/// The layout of a node that no property has touched: flex display,
/// relative position, automatic lengths, zero margins, paddings, borders and
/// gaps, no growth, a shrink factor of one, and no grid tracks.
pub open spec fn default_layout() -> SpecNodeLayout {
    SpecNodeLayout {
        display: Display::Flex,
        position_type: PositionType::Relative,
        overflow: Overflow { x: OverflowAxis::Visible, y: OverflowAxis::Visible },
        left: Val::Auto,
        right: Val::Auto,
        top: Val::Auto,
        bottom: Val::Auto,
        width: Val::Auto,
        height: Val::Auto,
        min_width: Val::Auto,
        min_height: Val::Auto,
        max_width: Val::Auto,
        max_height: Val::Auto,
        aspect_ratio: None,
        align_items: AlignItems::Default,
        justify_items: JustifyItems::Default,
        align_self: AlignSelf::Auto,
        justify_self: JustifySelf::Auto,
        align_content: AlignContent::Default,
        justify_content: JustifyContent::Default,
        margin: rect_zero(),
        padding: rect_zero(),
        border: rect_zero(),
        flex_direction: FlexDirection::Row,
        flex_wrap: FlexWrap::NoWrap,
        flex_grow: 0,
        flex_shrink: one_bits(),
        flex_basis: Val::Auto,
        row_gap: px_zero(),
        column_gap: px_zero(),
        grid_auto_flow: GridAutoFlow::Row,
        grid_template_rows: Seq::empty(),
        grid_template_columns: Seq::empty(),
        grid_auto_rows: Seq::empty(),
        grid_auto_columns: Seq::empty(),
        grid_row: GridPlacement::Auto,
        grid_column: GridPlacement::Auto,
    }
}

impl NodeLayout {
    /// The layout of a node that no property has touched.
    pub fn new() -> (r: NodeLayout)
        ensures
            r@ == default_layout(),
    {
        let zero = UiRect { left: Val::Px(0), right: Val::Px(0), top: Val::Px(0), bottom: Val::Px(0) };
        let r = NodeLayout {
            display: Display::Flex,
            position_type: PositionType::Relative,
            overflow: Overflow { x: OverflowAxis::Visible, y: OverflowAxis::Visible },
            left: Val::Auto,
            right: Val::Auto,
            top: Val::Auto,
            bottom: Val::Auto,
            width: Val::Auto,
            height: Val::Auto,
            min_width: Val::Auto,
            min_height: Val::Auto,
            max_width: Val::Auto,
            max_height: Val::Auto,
            aspect_ratio: None,
            align_items: AlignItems::Default,
            justify_items: JustifyItems::Default,
            align_self: AlignSelf::Auto,
            justify_self: JustifySelf::Auto,
            align_content: AlignContent::Default,
            justify_content: JustifyContent::Default,
            margin: zero,
            padding: zero,
            border: zero,
            flex_direction: FlexDirection::Row,
            flex_wrap: FlexWrap::NoWrap,
            flex_grow: 0,
            flex_shrink: 0x3f80_0000,
            flex_basis: Val::Auto,
            row_gap: Val::Px(0),
            column_gap: Val::Px(0),
            grid_auto_flow: GridAutoFlow::Row,
            grid_template_rows: Vec::new(),
            grid_template_columns: Vec::new(),
            grid_auto_rows: Vec::new(),
            grid_auto_columns: Vec::new(),
            grid_row: GridPlacement::Auto,
            grid_column: GridPlacement::Auto,
        };
        assert(r@.grid_template_rows =~= Seq::<RepeatedGridTrack>::empty());
        assert(r@.grid_template_columns =~= Seq::<RepeatedGridTrack>::empty());
        assert(r@.grid_auto_rows =~= Seq::<GridTrack>::empty());
        assert(r@.grid_auto_columns =~= Seq::<GridTrack>::empty());
        r
    }
}

/// The computed style of a node: its layout, border, background and font.
/// Floating point numbers are the bit patterns of their `f32`.
#[derive(Debug, PartialEq)]
pub struct ComputedStyle {
    pub node: NodeLayout,
    pub border_color: Color,
    pub border_radius: UiRect,
    pub background: Color,
    pub font_size: u32,
    pub font_color: Color,
    pub delay: TimeSpan,
}

/// The computed style of a node as a mathematical value.
pub struct SpecComputedStyle {
    pub node: SpecNodeLayout,
    pub border_color: Color,
    pub border_radius: UiRect,
    pub background: Color,
    pub font_size: u32,
    pub font_color: Color,
    pub delay: TimeSpan,
}

impl View for ComputedStyle {
    type V = SpecComputedStyle;

    open spec fn view(&self) -> SpecComputedStyle {
        SpecComputedStyle {
            node: self.node@,
            border_color: self.border_color,
            border_radius: self.border_radius,
            background: self.background,
            font_size: self.font_size,
            font_color: self.font_color,
            delay: self.delay,
        }
    }
}

/// A linear color with the four given bit patterns.
pub open spec fn linear(red: u32, green: u32, blue: u32, alpha: u32) -> Color {
    Color::Linear { red, green, blue, alpha }
}

/// The bit pattern of the `f32` twelve.
pub open spec fn twelve_bits() -> u32 {
    0x4140_0000
}

/// The computed style before any property: the untouched layout, transparent
/// border and background, no radius, a white font of size twelve, and no
/// delay.
pub open spec fn default_computed() -> SpecComputedStyle {
    SpecComputedStyle {
        node: default_layout(),
        border_color: linear(0, 0, 0, 0),
        border_radius: rect_zero(),
        background: linear(0, 0, 0, 0),
        font_size: twelve_bits(),
        font_color: linear(one_bits(), one_bits(), one_bits(), one_bits()),
        delay: TimeSpan::Seconds(0),
    }
}

/// The layout after a property of display, position or offset; another property leaves it as it is.
pub open spec fn with_position(n: SpecNodeLayout, a: SpecStyleAttr) -> SpecNodeLayout {
    match a {
        SpecStyleAttr::Display(x) => SpecNodeLayout { display: x, ..n },
        SpecStyleAttr::Position(x) => SpecNodeLayout { position_type: x, ..n },
        SpecStyleAttr::Overflow(x) => SpecNodeLayout { overflow: x, ..n },
        SpecStyleAttr::Left(x) => SpecNodeLayout { left: x, ..n },
        SpecStyleAttr::Right(x) => SpecNodeLayout { right: x, ..n },
        SpecStyleAttr::Top(x) => SpecNodeLayout { top: x, ..n },
        SpecStyleAttr::Bottom(x) => SpecNodeLayout { bottom: x, ..n },
        _ => n,
    }
}

/// The layout after a property of size; another property leaves it as it is.
pub open spec fn with_size(n: SpecNodeLayout, a: SpecStyleAttr) -> SpecNodeLayout {
    match a {
        SpecStyleAttr::Width(x) => SpecNodeLayout { width: x, ..n },
        SpecStyleAttr::Height(x) => SpecNodeLayout { height: x, ..n },
        SpecStyleAttr::MinWidth(x) => SpecNodeLayout { min_width: x, ..n },
        SpecStyleAttr::MinHeight(x) => SpecNodeLayout { min_height: x, ..n },
        SpecStyleAttr::MaxWidth(x) => SpecNodeLayout { max_width: x, ..n },
        SpecStyleAttr::MaxHeight(x) => SpecNodeLayout { max_height: x, ..n },
        SpecStyleAttr::AspectRatio(x) => SpecNodeLayout { aspect_ratio: Some(x), ..n },
        _ => n,
    }
}

/// The layout after a property of alignment; another property leaves it as it is.
pub open spec fn with_alignment(n: SpecNodeLayout, a: SpecStyleAttr) -> SpecNodeLayout {
    match a {
        SpecStyleAttr::AlignItems(x) => SpecNodeLayout { align_items: x, ..n },
        SpecStyleAttr::JustifyItems(x) => SpecNodeLayout { justify_items: x, ..n },
        SpecStyleAttr::AlignSelf(x) => SpecNodeLayout { align_self: x, ..n },
        SpecStyleAttr::JustifySelf(x) => SpecNodeLayout { justify_self: x, ..n },
        SpecStyleAttr::AlignContent(x) => SpecNodeLayout { align_content: x, ..n },
        SpecStyleAttr::JustifyContent(x) => SpecNodeLayout { justify_content: x, ..n },
        _ => n,
    }
}

/// The layout after a property of margin, padding, border or gap; another property leaves it as it is.
pub open spec fn with_spacing(n: SpecNodeLayout, a: SpecStyleAttr) -> SpecNodeLayout {
    match a {
        SpecStyleAttr::Margin(x) => SpecNodeLayout { margin: x, ..n },
        SpecStyleAttr::Padding(x) => SpecNodeLayout { padding: x, ..n },
        SpecStyleAttr::Border(x) => SpecNodeLayout { border: x, ..n },
        SpecStyleAttr::RowGap(x) => SpecNodeLayout { row_gap: x, ..n },
        SpecStyleAttr::ColumnGap(x) => SpecNodeLayout { column_gap: x, ..n },
        _ => n,
    }
}

/// The layout after a flex property; another property leaves it as it is.
pub open spec fn with_flex(n: SpecNodeLayout, a: SpecStyleAttr) -> SpecNodeLayout {
    match a {
        SpecStyleAttr::FlexDirection(x) => SpecNodeLayout { flex_direction: x, ..n },
        SpecStyleAttr::FlexWrap(x) => SpecNodeLayout { flex_wrap: x, ..n },
        SpecStyleAttr::FlexGrow(x) => SpecNodeLayout { flex_grow: x, ..n },
        SpecStyleAttr::FlexShrink(x) => SpecNodeLayout { flex_shrink: x, ..n },
        SpecStyleAttr::FlexBasis(x) => SpecNodeLayout { flex_basis: x, ..n },
        _ => n,
    }
}

/// The layout after a grid property; another property leaves it as it is.
pub open spec fn with_grid(n: SpecNodeLayout, a: SpecStyleAttr) -> SpecNodeLayout {
    match a {
        SpecStyleAttr::GridAutoFlow(x) => SpecNodeLayout { grid_auto_flow: x, ..n },
        SpecStyleAttr::GridTemplateRows(x) => SpecNodeLayout { grid_template_rows: x, ..n },
        SpecStyleAttr::GridTemplateColumns(x) => SpecNodeLayout { grid_template_columns: x, ..n },
        SpecStyleAttr::GridAutoRows(x) => SpecNodeLayout { grid_auto_rows: x, ..n },
        SpecStyleAttr::GridAutoColumns(x) => SpecNodeLayout { grid_auto_columns: x, ..n },
        SpecStyleAttr::GridRow(x) => SpecNodeLayout { grid_row: x, ..n },
        SpecStyleAttr::GridColumn(x) => SpecNodeLayout { grid_column: x, ..n },
        _ => n,
    }
}

/// The layout after the property `a`; a property of no layout field leaves
/// it as it is.
pub open spec fn with_layout(n: SpecNodeLayout, a: SpecStyleAttr) -> SpecNodeLayout {
    with_grid(with_flex(with_spacing(with_alignment(with_size(with_position(n, a), a), a), a), a), a)
}

/// The computed style after the property `a`, which sets the field it
/// names; the text direction, the font, and the conditional styles
/// leave it as it is.
pub open spec fn with_style(c: SpecComputedStyle, a: SpecStyleAttr) -> SpecComputedStyle {
    match a {
        SpecStyleAttr::BorderColor(x) => SpecComputedStyle { border_color: x, ..c },
        SpecStyleAttr::BorderRadius(x) => SpecComputedStyle { border_radius: x, ..c },
        SpecStyleAttr::FontSize(x) => SpecComputedStyle { font_size: x, ..c },
        SpecStyleAttr::FontColor(x) => SpecComputedStyle { font_color: x, ..c },
        SpecStyleAttr::Background(x) => SpecComputedStyle { background: x, ..c },
        SpecStyleAttr::Delay(x) => SpecComputedStyle { delay: x, ..c },
        _ => SpecComputedStyle { node: with_layout(c.node, a), ..c },
    }
}

impl ComputedStyle {
    /// The computed style before any property.
    pub fn new() -> (r: ComputedStyle)
        ensures
            r@ == default_computed(),
    {
        let clear = Color::Linear { red: 0, green: 0, blue: 0, alpha: 0 };
        let white = Color::Linear { red: 0x3f80_0000, green: 0x3f80_0000, blue: 0x3f80_0000, alpha: 0x3f80_0000 };
        ComputedStyle {
            node: NodeLayout::new(),
            border_color: clear,
            border_radius: UiRect { left: Val::Px(0), right: Val::Px(0), top: Val::Px(0), bottom: Val::Px(0) },
            background: clear,
            font_size: 0x4140_0000,
            font_color: white,
            delay: TimeSpan::Seconds(0),
        }
    }

    /// Applies the property `attr` as `with_style` says.
    pub fn set_style(&mut self, attr: StyleAttr)
        ensures
            final(self)@ == with_style(old(self)@, attr@),
    {
        match attr {
            StyleAttr::BorderColor(x) => self.border_color = x,
            StyleAttr::BorderRadius(x) => self.border_radius = x,
            StyleAttr::FontSize(x) => self.font_size = x,
            StyleAttr::FontColor(x) => self.font_color = x,
            StyleAttr::Background(x) => self.background = x,
            StyleAttr::Delay(x) => self.delay = x,
            other => self.node.set_layout(other),
        }
    }
}

impl NodeLayout {
    /// Applies the property `attr` as `with_layout` says.
    pub fn set_layout(&mut self, attr: StyleAttr)
        ensures
            final(self)@ == with_layout(old(self)@, attr@),
    {
        let mut n = NodeLayout::new();
        core::mem::swap(self, &mut n);
        let n = n.apply_position(&attr);
        let n = n.apply_size(&attr);
        let n = n.apply_alignment(&attr);
        let n = n.apply_spacing(&attr);
        let n = n.apply_flex(&attr);
        *self = n.apply_grid(attr);
    }

    /// The layout after a property of display, position or offset, as `with_position` says.
    fn apply_position(self, attr: &StyleAttr) -> (r: NodeLayout)
        ensures
            r@ == with_position(self@, attr@),
    {
        match attr {
            StyleAttr::Display(x) => NodeLayout { display: *x, ..self },
            StyleAttr::Position(x) => NodeLayout { position_type: *x, ..self },
            StyleAttr::Overflow(x) => NodeLayout { overflow: *x, ..self },
            StyleAttr::Left(x) => NodeLayout { left: *x, ..self },
            StyleAttr::Right(x) => NodeLayout { right: *x, ..self },
            StyleAttr::Top(x) => NodeLayout { top: *x, ..self },
            StyleAttr::Bottom(x) => NodeLayout { bottom: *x, ..self },
            _ => self,
        }
    }

    /// The layout after a property of size, as `with_size` says.
    #[verifier::rlimit(40)]
    fn apply_size(self, attr: &StyleAttr) -> (r: NodeLayout)
        ensures
            r@ == with_size(self@, attr@),
    {
        match attr {
            StyleAttr::Width(x) => NodeLayout { width: *x, ..self },
            StyleAttr::Height(x) => NodeLayout { height: *x, ..self },
            StyleAttr::MinWidth(x) => NodeLayout { min_width: *x, ..self },
            StyleAttr::MinHeight(x) => NodeLayout { min_height: *x, ..self },
            StyleAttr::MaxWidth(x) => NodeLayout { max_width: *x, ..self },
            StyleAttr::MaxHeight(x) => NodeLayout { max_height: *x, ..self },
            StyleAttr::AspectRatio(x) => NodeLayout { aspect_ratio: Some(*x), ..self },
            _ => self,
        }
    }

    /// The layout after a property of alignment, as `with_alignment` says.
    fn apply_alignment(self, attr: &StyleAttr) -> (r: NodeLayout)
        ensures
            r@ == with_alignment(self@, attr@),
    {
        match attr {
            StyleAttr::AlignItems(x) => NodeLayout { align_items: *x, ..self },
            StyleAttr::JustifyItems(x) => NodeLayout { justify_items: *x, ..self },
            StyleAttr::AlignSelf(x) => NodeLayout { align_self: *x, ..self },
            StyleAttr::JustifySelf(x) => NodeLayout { justify_self: *x, ..self },
            StyleAttr::AlignContent(x) => NodeLayout { align_content: *x, ..self },
            StyleAttr::JustifyContent(x) => NodeLayout { justify_content: *x, ..self },
            _ => self,
        }
    }

    /// The layout after a property of margin, padding, border or gap, as `with_spacing` says.
    #[verifier::rlimit(40)]
    fn apply_spacing(self, attr: &StyleAttr) -> (r: NodeLayout)
        ensures
            r@ == with_spacing(self@, attr@),
    {
        match attr {
            StyleAttr::Margin(x) => NodeLayout { margin: *x, ..self },
            StyleAttr::Padding(x) => NodeLayout { padding: *x, ..self },
            StyleAttr::Border(x) => NodeLayout { border: *x, ..self },
            StyleAttr::RowGap(x) => NodeLayout { row_gap: *x, ..self },
            StyleAttr::ColumnGap(x) => NodeLayout { column_gap: *x, ..self },
            _ => self,
        }
    }

    /// The layout after a flex property, as `with_flex` says.
    fn apply_flex(self, attr: &StyleAttr) -> (r: NodeLayout)
        ensures
            r@ == with_flex(self@, attr@),
    {
        match attr {
            StyleAttr::FlexDirection(x) => NodeLayout { flex_direction: *x, ..self },
            StyleAttr::FlexWrap(x) => NodeLayout { flex_wrap: *x, ..self },
            StyleAttr::FlexGrow(x) => NodeLayout { flex_grow: *x, ..self },
            StyleAttr::FlexShrink(x) => NodeLayout { flex_shrink: *x, ..self },
            StyleAttr::FlexBasis(x) => NodeLayout { flex_basis: *x, ..self },
            _ => self,
        }
    }

    /// The layout after a grid property, as `with_grid` says.
    #[verifier::rlimit(40)]
    fn apply_grid(self, attr: StyleAttr) -> (r: NodeLayout)
        ensures
            r@ == with_grid(self@, attr@),
    {
        match attr {
            StyleAttr::GridAutoFlow(x) => NodeLayout { grid_auto_flow: x, ..self },
            StyleAttr::GridTemplateRows(x) => NodeLayout { grid_template_rows: x, ..self },
            StyleAttr::GridTemplateColumns(x) => NodeLayout { grid_template_columns: x, ..self },
            StyleAttr::GridAutoRows(x) => NodeLayout { grid_auto_rows: x, ..self },
            StyleAttr::GridAutoColumns(x) => NodeLayout { grid_auto_columns: x, ..self },
            StyleAttr::GridRow(x) => NodeLayout { grid_row: x, ..self },
            StyleAttr::GridColumn(x) => NodeLayout { grid_column: x, ..self },
            _ => self,
        }
    }
}

/// Which property `a` sets: two properties of one kind differ at most in
/// their values.
pub open spec fn style_kind(a: SpecStyleAttr) -> nat {
    match a {
        SpecStyleAttr::Display(_) => 0,
        SpecStyleAttr::Position(_) => 1,
        SpecStyleAttr::Overflow(_) => 2,
        SpecStyleAttr::Left(_) => 3,
        SpecStyleAttr::Right(_) => 4,
        SpecStyleAttr::Top(_) => 5,
        SpecStyleAttr::Bottom(_) => 6,
        SpecStyleAttr::Width(_) => 7,
        SpecStyleAttr::Height(_) => 8,
        SpecStyleAttr::MinWidth(_) => 9,
        SpecStyleAttr::MinHeight(_) => 10,
        SpecStyleAttr::MaxWidth(_) => 11,
        SpecStyleAttr::MaxHeight(_) => 12,
        SpecStyleAttr::AspectRatio(_) => 13,
        SpecStyleAttr::AlignItems(_) => 14,
        SpecStyleAttr::JustifyItems(_) => 15,
        SpecStyleAttr::AlignSelf(_) => 16,
        SpecStyleAttr::JustifySelf(_) => 17,
        SpecStyleAttr::AlignContent(_) => 18,
        SpecStyleAttr::JustifyContent(_) => 19,
        SpecStyleAttr::Margin(_) => 20,
        SpecStyleAttr::Padding(_) => 21,
        SpecStyleAttr::Border(_) => 22,
        SpecStyleAttr::BorderColor(_) => 23,
        SpecStyleAttr::BorderRadius(_) => 24,
        SpecStyleAttr::FlexDirection(_) => 25,
        SpecStyleAttr::FlexWrap(_) => 26,
        SpecStyleAttr::FlexGrow(_) => 27,
        SpecStyleAttr::FlexShrink(_) => 28,
        SpecStyleAttr::FlexBasis(_) => 29,
        SpecStyleAttr::RowGap(_) => 30,
        SpecStyleAttr::ColumnGap(_) => 31,
        SpecStyleAttr::GridAutoFlow(_) => 32,
        SpecStyleAttr::GridTemplateRows(_) => 33,
        SpecStyleAttr::GridTemplateColumns(_) => 34,
        SpecStyleAttr::GridAutoRows(_) => 35,
        SpecStyleAttr::GridAutoColumns(_) => 36,
        SpecStyleAttr::GridRow(_) => 37,
        SpecStyleAttr::GridColumn(_) => 38,
        SpecStyleAttr::Direction(_) => 39,
        SpecStyleAttr::FontSize(_) => 40,
        SpecStyleAttr::Font(_) => 41,
        SpecStyleAttr::FontColor(_) => 42,
        SpecStyleAttr::Background(_) => 43,
        SpecStyleAttr::Hover(_) => 44,
        SpecStyleAttr::Pressed(_) => 45,
        SpecStyleAttr::Active(_) => 46,
        SpecStyleAttr::Delay(_) => 47,
    }
}

/// The kind of a property, as `style_kind` says.
pub fn kind_of(attr: &StyleAttr) -> (k: u8)
    ensures
        k as nat == style_kind(attr@),
{
    match attr {
            StyleAttr::Display(_) => 0,
            StyleAttr::Position(_) => 1,
            StyleAttr::Overflow(_) => 2,
            StyleAttr::Left(_) => 3,
            StyleAttr::Right(_) => 4,
            StyleAttr::Top(_) => 5,
            StyleAttr::Bottom(_) => 6,
            StyleAttr::Width(_) => 7,
            StyleAttr::Height(_) => 8,
            StyleAttr::MinWidth(_) => 9,
            StyleAttr::MinHeight(_) => 10,
            StyleAttr::MaxWidth(_) => 11,
            StyleAttr::MaxHeight(_) => 12,
            StyleAttr::AspectRatio(_) => 13,
            StyleAttr::AlignItems(_) => 14,
            StyleAttr::JustifyItems(_) => 15,
            StyleAttr::AlignSelf(_) => 16,
            StyleAttr::JustifySelf(_) => 17,
            StyleAttr::AlignContent(_) => 18,
            StyleAttr::JustifyContent(_) => 19,
            StyleAttr::Margin(_) => 20,
            StyleAttr::Padding(_) => 21,
            StyleAttr::Border(_) => 22,
            StyleAttr::BorderColor(_) => 23,
            StyleAttr::BorderRadius(_) => 24,
            StyleAttr::FlexDirection(_) => 25,
            StyleAttr::FlexWrap(_) => 26,
            StyleAttr::FlexGrow(_) => 27,
            StyleAttr::FlexShrink(_) => 28,
            StyleAttr::FlexBasis(_) => 29,
            StyleAttr::RowGap(_) => 30,
            StyleAttr::ColumnGap(_) => 31,
            StyleAttr::GridAutoFlow(_) => 32,
            StyleAttr::GridTemplateRows(_) => 33,
            StyleAttr::GridTemplateColumns(_) => 34,
            StyleAttr::GridAutoRows(_) => 35,
            StyleAttr::GridAutoColumns(_) => 36,
            StyleAttr::GridRow(_) => 37,
            StyleAttr::GridColumn(_) => 38,
            StyleAttr::Direction(_) => 39,
            StyleAttr::FontSize(_) => 40,
            StyleAttr::Font(_) => 41,
            StyleAttr::FontColor(_) => 42,
            StyleAttr::Background(_) => 43,
            StyleAttr::Hover(_) => 44,
            StyleAttr::Pressed(_) => 45,
            StyleAttr::Active(_) => 46,
            StyleAttr::Delay(_) => 47,
    }
}

/// Whether `i` is the first index of `list` that holds a property of kind
/// `k`.
pub open spec fn is_first_of_kind(list: Seq<SpecStyleAttr>, k: nat, i: int) -> bool {
    &&& 0 <= i < list.len()
    &&& style_kind(list[i]) == k
    &&& forall|j: int| 0 <= j < i ==> style_kind(list[j]) != k
}

/// The list of conditional styles after adding `a`: it goes just before the
/// first property of its kind, or at the end when there is none.
pub open spec fn add_conditional(list: Seq<SpecStyleAttr>, a: SpecStyleAttr) -> Seq<SpecStyleAttr> {
    if exists|i: int| is_first_of_kind(list, style_kind(a), i) {
        list.insert(choose|i: int| is_first_of_kind(list, style_kind(a), i), a)
    } else {
        list.push(a)
    }
}

/// Adds `attr` to a list of conditional styles as `add_conditional` says.
fn insert_by_kind(list: &mut Vec<StyleAttr>, attr: StyleAttr)
    ensures
        styles_view(final(list)@) == add_conditional(styles_view(old(list)@), attr@),
{
    let ghost l = styles_view(list@);
    let ghost a = attr@;
    let k = kind_of(&attr);
    match first_of_kind(list, k) {
        Some(i) => {
            proof {
                lemma_choose_first(l, k as nat, i as int);
            }
            list.insert(i, attr);
            assert(styles_view(list@) =~= l.insert(i as int, a));
        },
        None => {
            list.push(attr);
            assert(styles_view(list@) =~= l.push(a));
        },
    }
}

/// The list of styles after setting `a`: it takes the place of the first
/// property of its kind, or goes at the end when there is none.
pub open spec fn upsert(list: Seq<SpecStyleAttr>, a: SpecStyleAttr) -> Seq<SpecStyleAttr> {
    if exists|i: int| is_first_of_kind(list, style_kind(a), i) {
        list.update(choose|i: int| is_first_of_kind(list, style_kind(a), i), a)
    } else {
        list.push(a)
    }
}

/// The first index of `list` that holds a property of kind `k`, as
/// `is_first_of_kind` says.
fn first_of_kind(list: &Vec<StyleAttr>, k: u8) -> (r: Option<usize>)
    ensures
        r matches Some(i) ==> is_first_of_kind(styles_view(list@), k as nat, i as int),
        r is None ==> !exists|i: int| is_first_of_kind(styles_view(list@), k as nat, i),
        r is None ==> forall|i: int| 0 <= i < list.len() ==> style_kind(list@[i]@) != k as nat,
{
    let ghost l = styles_view(list@);
    let mut i: usize = 0;
    while i < list.len()
        invariant
            0 <= i <= list.len(),
            l == styles_view(list@),
            forall|j: int| 0 <= j < i ==> style_kind(l[j]) != k as nat,
        decreases list.len() - i,
    {
        if kind_of(&list[i]) == k {
            return Some(i);
        }
        i = i + 1;
    }
    proof {
        assert forall|c: int| !is_first_of_kind(l, k as nat, c) by {
            if 0 <= c < l.len() {
                assert(style_kind(l[c]) != k as nat);
            }
        }
        assert forall|j: int| 0 <= j < list.len() implies style_kind(list@[j]@) != k as nat by {
            assert(l[j] == list@[j]@);
        }
    }
    None
}

/// The first index whose property has the kind of `a`, where there is one.
proof fn lemma_choose_first(l: Seq<SpecStyleAttr>, k: nat, i: int)
    requires
        is_first_of_kind(l, k, i),
    ensures
        (choose|c: int| is_first_of_kind(l, k, c)) == i,
{
    let c = choose|c: int| is_first_of_kind(l, k, c);
    if c < i {
        assert(style_kind(l[c]) != k);
    } else if c > i {
        assert(style_kind(l[i]) != k);
    }
}

/// Sets `style` in `target` as `upsert` says.
pub fn upsert_style(style: StyleAttr, target: &mut Vec<StyleAttr>)
    ensures
        styles_view(final(target)@) == upsert(styles_view(old(target)@), style@),
{
    let ghost l = styles_view(target@);
    let ghost a = style@;
    let k = kind_of(&style);
    match first_of_kind(target, k) {
        Some(i) => {
            proof {
                lemma_choose_first(l, k as nat, i as int);
            }
            target.set(i, style);
            assert(styles_view(target@) =~= l.update(i as int, a));
        },
        None => {
            target.push(style);
            assert(styles_view(target@) =~= l.push(a));
        },
    }
}

/// The style of a node: its computed style, and the properties that apply
/// under hover, under press and while the node is active.
#[derive(Debug, PartialEq)]
pub struct HtmlStyle {
    pub computed: ComputedStyle,
    pub hover: Vec<StyleAttr>,
    pub pressed: Vec<StyleAttr>,
    pub active: Vec<StyleAttr>,
}

/// The style of a node as a mathematical value.
pub struct SpecHtmlStyle {
    pub computed: SpecComputedStyle,
    pub hover: Seq<SpecStyleAttr>,
    pub pressed: Seq<SpecStyleAttr>,
    pub active: Seq<SpecStyleAttr>,
}

impl View for HtmlStyle {
    type V = SpecHtmlStyle;

    open spec fn view(&self) -> SpecHtmlStyle {
        SpecHtmlStyle {
            computed: self.computed@,
            hover: styles_view(self.hover@),
            pressed: styles_view(self.pressed@),
            active: styles_view(self.active@),
        }
    }
}

/// The style of a node before any property.
pub open spec fn default_html() -> SpecHtmlStyle {
    SpecHtmlStyle {
        computed: default_computed(),
        hover: Seq::empty(),
        pressed: Seq::empty(),
        active: Seq::empty(),
    }
}

/// The style after the property `a`: a conditional property joins its list
/// as `add_conditional` says, another sets the computed style as
/// `with_style` says.
pub open spec fn html_add(h: SpecHtmlStyle, a: SpecStyleAttr) -> SpecHtmlStyle {
    match a {
        SpecStyleAttr::Hover(b) => SpecHtmlStyle { hover: add_conditional(h.hover, *b), ..h },
        SpecStyleAttr::Pressed(b) => SpecHtmlStyle { pressed: add_conditional(h.pressed, *b), ..h },
        SpecStyleAttr::Active(b) => SpecHtmlStyle { active: add_conditional(h.active, *b), ..h },
        _ => SpecHtmlStyle { computed: with_style(h.computed, a), ..h },
    }
}

/// The style after the properties of `s`, in order.
pub open spec fn html_fold(h: SpecHtmlStyle, s: Seq<SpecStyleAttr>) -> SpecHtmlStyle
    decreases s.len(),
{
    if s.len() == 0 {
        h
    } else {
        html_add(html_fold(h, s.drop_last()), s.last())
    }
}

impl HtmlStyle {
    /// The style of a node before any property.
    pub fn new() -> (r: HtmlStyle)
        ensures
            r@ == default_html(),
    {
        let r = HtmlStyle { computed: ComputedStyle::new(), hover: Vec::new(), pressed: Vec::new(), active: Vec::new() };
        assert(r@.hover =~= Seq::<SpecStyleAttr>::empty());
        assert(r@.pressed =~= Seq::<SpecStyleAttr>::empty());
        assert(r@.active =~= Seq::<SpecStyleAttr>::empty());
        r
    }

    /// Adds the property `attr` as `html_add` says.
    pub fn add_style_attr(&mut self, attr: StyleAttr)
        ensures
            final(self)@ == html_add(old(self)@, attr@),
    {
        match attr {
            StyleAttr::Hover(b) => insert_by_kind(&mut self.hover, *b),
            StyleAttr::Pressed(b) => insert_by_kind(&mut self.pressed, *b),
            StyleAttr::Active(b) => insert_by_kind(&mut self.active, *b),
            other => self.computed.set_style(other),
        }
    }

    /// The style that the properties of `styles` give, added in order.
    pub fn from_styles(styles: Vec<StyleAttr>) -> (r: HtmlStyle)
        ensures
            r@ == html_fold(default_html(), styles_view(styles@)),
    {
        let ghost all = styles_view(styles@);
        let mut rest = styles;
        let mut out = HtmlStyle::new();
        let ghost mut done: int = 0;
        while rest.len() > 0
            invariant
                0 <= done <= all.len(),
                rest.len() == all.len() - done,
                styles_view(rest@) == all.subrange(done, all.len() as int),
                out@ == html_fold(default_html(), all.subrange(0, done)),
            decreases rest.len(),
        {
            let ghost before = rest@;
            let attr = rest.remove(0);
            proof {
                assert(styles_view(before)[0] == all[done]);
                assert(attr@ == all[done]);
                assert forall|j: int| 0 <= j < rest.len() implies styles_view(rest@)[j] == all[done + 1 + j] by {
                    assert(rest@[j] == before[j + 1]);
                    assert(styles_view(before)[j + 1] == all[done + 1 + j]);
                }
                assert(styles_view(rest@) =~= all.subrange(done + 1, all.len() as int));
                assert(all.subrange(0, done + 1).drop_last() =~= all.subrange(0, done));
            }
            out.add_style_attr(attr);
            proof {
                done = done + 1;
            }
        }
        assert(all.subrange(0, done) =~= all);
        out
    }
}

impl Default for ComputedStyle {
    fn default() -> (r: ComputedStyle)
        ensures
            r@ == default_computed(),
    {
        ComputedStyle::new()
    }
}

impl Default for HtmlStyle {
    fn default() -> (r: HtmlStyle)
        ensures
            r@ == default_html(),
    {
        HtmlStyle::new()
    }
}

/// The computed style that a plain node style starts from: the untouched
/// layout, white border, background and font, no radius, a font size of
/// zero, and no delay.
pub open spec fn plain_computed() -> SpecComputedStyle {
    let white = linear(one_bits(), one_bits(), one_bits(), one_bits());
    SpecComputedStyle {
        node: default_layout(),
        border_color: white,
        border_radius: rect_zero(),
        background: white,
        font_size: 0,
        font_color: white,
        delay: TimeSpan::Seconds(0),
    }
}

/// A node style of the simpler kind: the computed style, the text
/// direction, and the properties that apply under hover and under press.
#[derive(Debug, PartialEq)]
pub struct NodeStyle {
    pub regular: ComputedStyle,
    pub direction: Direction,
    pub hover: Vec<StyleAttr>,
    pub pressed: Vec<StyleAttr>,
}

/// A node style as a mathematical value.
pub struct SpecNodeStyle {
    pub regular: SpecComputedStyle,
    pub direction: Direction,
    pub hover: Seq<SpecStyleAttr>,
    pub pressed: Seq<SpecStyleAttr>,
}

impl View for NodeStyle {
    type V = SpecNodeStyle;

    open spec fn view(&self) -> SpecNodeStyle {
        SpecNodeStyle {
            regular: self.regular@,
            direction: self.direction,
            hover: styles_view(self.hover@),
            pressed: styles_view(self.pressed@),
        }
    }
}

/// The node style before any property.
pub open spec fn default_node_style() -> SpecNodeStyle {
    SpecNodeStyle {
        regular: plain_computed(),
        direction: Direction::Inherit,
        hover: Seq::empty(),
        pressed: Seq::empty(),
    }
}

/// The node style after the property `a`: a hover or press property goes at
/// the end of its list, a direction sets the direction, an active-state
/// property is left out, and another sets the computed style as `with_style`
/// says.
pub open spec fn node_style_add(n: SpecNodeStyle, a: SpecStyleAttr) -> SpecNodeStyle {
    match a {
        SpecStyleAttr::Hover(b) => SpecNodeStyle { hover: n.hover.push(*b), ..n },
        SpecStyleAttr::Pressed(b) => SpecNodeStyle { pressed: n.pressed.push(*b), ..n },
        SpecStyleAttr::Direction(d) => SpecNodeStyle { direction: d, ..n },
        SpecStyleAttr::Active(_) => n,
        _ => SpecNodeStyle { regular: with_style(n.regular, a), ..n },
    }
}

/// The node style after the properties of `s`, in order.
pub open spec fn node_style_fold(n: SpecNodeStyle, s: Seq<SpecStyleAttr>) -> SpecNodeStyle
    decreases s.len(),
{
    if s.len() == 0 {
        n
    } else {
        node_style_add(node_style_fold(n, s.drop_last()), s.last())
    }
}

impl NodeStyle {
    /// The node style before any property.
    pub fn new() -> (r: NodeStyle)
        ensures
            r@ == default_node_style(),
    {
        let white = Color::Linear { red: 0x3f80_0000, green: 0x3f80_0000, blue: 0x3f80_0000, alpha: 0x3f80_0000 };
        let regular = ComputedStyle {
            node: NodeLayout::new(),
            border_color: white,
            border_radius: UiRect { left: Val::Px(0), right: Val::Px(0), top: Val::Px(0), bottom: Val::Px(0) },
            background: white,
            font_size: 0,
            font_color: white,
            delay: TimeSpan::Seconds(0),
        };
        let r = NodeStyle { regular, direction: Direction::Inherit, hover: Vec::new(), pressed: Vec::new() };
        assert(r@.hover =~= Seq::<SpecStyleAttr>::empty());
        assert(r@.pressed =~= Seq::<SpecStyleAttr>::empty());
        r
    }

    /// Adds the property `attr` as `node_style_add` says. A font cannot be
    /// set on this style.
    pub fn add_style(&mut self, attr: StyleAttr)
        requires
            !(attr is Font),
        ensures
            final(self)@ == node_style_add(old(self)@, attr@),
    {
        match attr {
            StyleAttr::Hover(b) => {
                let ghost a = (*b)@;
                self.hover.push(*b);
                assert(styles_view(self.hover@) =~= styles_view(old(self).hover@).push(a));
            },
            StyleAttr::Pressed(b) => {
                let ghost a = (*b)@;
                self.pressed.push(*b);
                assert(styles_view(self.pressed@) =~= styles_view(old(self).pressed@).push(a));
            },
            StyleAttr::Direction(d) => self.direction = d,
            StyleAttr::Active(_) => {},
            other => self.regular.set_style(other),
        }
    }

    /// The node style that the properties of `styles` give, added in order.
    /// A font cannot be set on this style.
    pub fn from_styles(styles: Vec<StyleAttr>) -> (r: NodeStyle)
        requires
            forall|i: int| 0 <= i < styles.len() ==> !(styles@[i] is Font),
        ensures
            r@ == node_style_fold(default_node_style(), styles_view(styles@)),
    {
        let ghost all = styles_view(styles@);
        let ghost orig = styles@;
        let mut rest = styles;
        let mut out = NodeStyle::new();
        let ghost mut done: int = 0;
        while rest.len() > 0
            invariant
                0 <= done <= all.len(),
                rest.len() == all.len() - done,
                all.len() == orig.len(),
                forall|j: int| 0 <= j < rest.len() ==> rest@[j] == orig[done + j],
                forall|i: int| 0 <= i < orig.len() ==> !(orig[i] is Font),
                styles_view(rest@) == all.subrange(done, all.len() as int),
                out@ == node_style_fold(default_node_style(), all.subrange(0, done)),
            decreases rest.len(),
        {
            let ghost before = rest@;
            let attr = rest.remove(0);
            proof {
                assert(styles_view(before)[0] == all[done]);
                assert(attr@ == all[done]);
                assert(attr == orig[done]);
                assert forall|j: int| 0 <= j < rest.len() implies styles_view(rest@)[j] == all[done + 1 + j] by {
                    assert(rest@[j] == before[j + 1]);
                    assert(styles_view(before)[j + 1] == all[done + 1 + j]);
                }
                assert(styles_view(rest@) =~= all.subrange(done + 1, all.len() as int));
                assert(all.subrange(0, done + 1).drop_last() =~= all.subrange(0, done));
            }
            out.add_style(attr);
            proof {
                done = done + 1;
            }
        }
        assert(all.subrange(0, done) =~= all);
        out
    }
}

impl Default for NodeStyle {
    fn default() -> (r: NodeStyle)
        ensures
            r@ == default_node_style(),
    {
        NodeStyle::new()
    }
}

/// Whether `a` is a conditional style (hover, pressed or active).
pub open spec fn is_conditional(a: SpecStyleAttr) -> bool {
    a is Hover || a is Pressed || a is Active
}

/// Whether `a` is a property that `with_position` sets.
pub open spec fn in_position(a: SpecStyleAttr) -> bool {
    a is Display || a is Position || a is Overflow || a is Left || a is Right || a is Top || a is Bottom
}

proof fn lemma_position(n: SpecNodeLayout, a: SpecStyleAttr)
    ensures
        !in_position(a) ==> with_position(n, a) == n,
        with_position(with_position(n, a), a) == with_position(n, a),
{
    match a {
        SpecStyleAttr::Display(_) => {},
        SpecStyleAttr::Position(_) => {},
        SpecStyleAttr::Overflow(_) => {},
        SpecStyleAttr::Left(_) => {},
        SpecStyleAttr::Right(_) => {},
        SpecStyleAttr::Top(_) => {},
        SpecStyleAttr::Bottom(_) => {},
        _ => {},
    }
}

/// Whether `a` is a property that `with_size` sets.
pub open spec fn in_size(a: SpecStyleAttr) -> bool {
    a is Width || a is Height || a is MinWidth || a is MinHeight || a is MaxWidth || a is MaxHeight || a is AspectRatio
}

proof fn lemma_size(n: SpecNodeLayout, a: SpecStyleAttr)
    ensures
        !in_size(a) ==> with_size(n, a) == n,
        with_size(with_size(n, a), a) == with_size(n, a),
{
    match a {
        SpecStyleAttr::Width(_) => {},
        SpecStyleAttr::Height(_) => {},
        SpecStyleAttr::MinWidth(_) => {},
        SpecStyleAttr::MinHeight(_) => {},
        SpecStyleAttr::MaxWidth(_) => {},
        SpecStyleAttr::MaxHeight(_) => {},
        SpecStyleAttr::AspectRatio(_) => {},
        _ => {},
    }
}

/// Whether `a` is a property that `with_alignment` sets.
pub open spec fn in_alignment(a: SpecStyleAttr) -> bool {
    a is AlignItems || a is JustifyItems || a is AlignSelf || a is JustifySelf || a is AlignContent || a is JustifyContent
}

proof fn lemma_alignment(n: SpecNodeLayout, a: SpecStyleAttr)
    ensures
        !in_alignment(a) ==> with_alignment(n, a) == n,
        with_alignment(with_alignment(n, a), a) == with_alignment(n, a),
{
    match a {
        SpecStyleAttr::AlignItems(_) => {},
        SpecStyleAttr::JustifyItems(_) => {},
        SpecStyleAttr::AlignSelf(_) => {},
        SpecStyleAttr::JustifySelf(_) => {},
        SpecStyleAttr::AlignContent(_) => {},
        SpecStyleAttr::JustifyContent(_) => {},
        _ => {},
    }
}

/// Whether `a` is a property that `with_spacing` sets.
pub open spec fn in_spacing(a: SpecStyleAttr) -> bool {
    a is Margin || a is Padding || a is Border || a is RowGap || a is ColumnGap
}

proof fn lemma_spacing(n: SpecNodeLayout, a: SpecStyleAttr)
    ensures
        !in_spacing(a) ==> with_spacing(n, a) == n,
        with_spacing(with_spacing(n, a), a) == with_spacing(n, a),
{
    match a {
        SpecStyleAttr::Margin(_) => {},
        SpecStyleAttr::Padding(_) => {},
        SpecStyleAttr::Border(_) => {},
        SpecStyleAttr::RowGap(_) => {},
        SpecStyleAttr::ColumnGap(_) => {},
        _ => {},
    }
}

/// Whether `a` is a property that `with_flex` sets.
pub open spec fn in_flex(a: SpecStyleAttr) -> bool {
    a is FlexDirection || a is FlexWrap || a is FlexGrow || a is FlexShrink || a is FlexBasis
}

proof fn lemma_flex(n: SpecNodeLayout, a: SpecStyleAttr)
    ensures
        !in_flex(a) ==> with_flex(n, a) == n,
        with_flex(with_flex(n, a), a) == with_flex(n, a),
{
    match a {
        SpecStyleAttr::FlexDirection(_) => {},
        SpecStyleAttr::FlexWrap(_) => {},
        SpecStyleAttr::FlexGrow(_) => {},
        SpecStyleAttr::FlexShrink(_) => {},
        SpecStyleAttr::FlexBasis(_) => {},
        _ => {},
    }
}

/// Whether `a` is a property that `with_grid` sets.
pub open spec fn in_grid(a: SpecStyleAttr) -> bool {
    a is GridAutoFlow || a is GridTemplateRows || a is GridTemplateColumns || a is GridAutoRows || a is GridAutoColumns || a is GridRow || a is GridColumn
}

proof fn lemma_grid(n: SpecNodeLayout, a: SpecStyleAttr)
    ensures
        !in_grid(a) ==> with_grid(n, a) == n,
        with_grid(with_grid(n, a), a) == with_grid(n, a),
{
    match a {
        SpecStyleAttr::GridAutoFlow(_) => {},
        SpecStyleAttr::GridTemplateRows(_) => {},
        SpecStyleAttr::GridTemplateColumns(_) => {},
        SpecStyleAttr::GridAutoRows(_) => {},
        SpecStyleAttr::GridAutoColumns(_) => {},
        SpecStyleAttr::GridRow(_) => {},
        SpecStyleAttr::GridColumn(_) => {},
        _ => {},
    }
}

/// The layout after `a` is that which the group of `a` gives.
proof fn lemma_layout_by_group(x: SpecNodeLayout, a: SpecStyleAttr)
    ensures
        with_layout(x, a) == if in_position(a) {
            with_position(x, a)
        } else if in_size(a) {
            with_size(x, a)
        } else if in_alignment(a) {
            with_alignment(x, a)
        } else if in_spacing(a) {
            with_spacing(x, a)
        } else if in_flex(a) {
            with_flex(x, a)
        } else if in_grid(a) {
            with_grid(x, a)
        } else {
            x
        },
{
    let p1 = with_position(x, a);
    let p2 = with_size(p1, a);
    let p3 = with_alignment(p2, a);
    let p4 = with_spacing(p3, a);
    let p5 = with_flex(p4, a);
    lemma_position(x, a);
    lemma_size(p1, a);
    lemma_alignment(p2, a);
    lemma_spacing(p3, a);
    lemma_flex(p4, a);
    lemma_grid(p5, a);
}

/// Whether the layouts `n` and `m` agree on every field but the one that
/// the property `a` names.
pub open spec fn layout_agrees_except(n: SpecNodeLayout, m: SpecNodeLayout, a: SpecStyleAttr) -> bool {
    &&& (!(a is Display) ==> m.display == n.display)
    &&& (!(a is Position) ==> m.position_type == n.position_type)
    &&& (!(a is Overflow) ==> m.overflow == n.overflow)
    &&& (!(a is Left) ==> m.left == n.left)
    &&& (!(a is Right) ==> m.right == n.right)
    &&& (!(a is Top) ==> m.top == n.top)
    &&& (!(a is Bottom) ==> m.bottom == n.bottom)
    &&& (!(a is Width) ==> m.width == n.width)
    &&& (!(a is Height) ==> m.height == n.height)
    &&& (!(a is MinWidth) ==> m.min_width == n.min_width)
    &&& (!(a is MinHeight) ==> m.min_height == n.min_height)
    &&& (!(a is MaxWidth) ==> m.max_width == n.max_width)
    &&& (!(a is MaxHeight) ==> m.max_height == n.max_height)
    &&& (!(a is AspectRatio) ==> m.aspect_ratio == n.aspect_ratio)
    &&& (!(a is AlignItems) ==> m.align_items == n.align_items)
    &&& (!(a is JustifyItems) ==> m.justify_items == n.justify_items)
    &&& (!(a is AlignSelf) ==> m.align_self == n.align_self)
    &&& (!(a is JustifySelf) ==> m.justify_self == n.justify_self)
    &&& (!(a is AlignContent) ==> m.align_content == n.align_content)
    &&& (!(a is JustifyContent) ==> m.justify_content == n.justify_content)
    &&& (!(a is Margin) ==> m.margin == n.margin)
    &&& (!(a is Padding) ==> m.padding == n.padding)
    &&& (!(a is Border) ==> m.border == n.border)
    &&& (!(a is FlexDirection) ==> m.flex_direction == n.flex_direction)
    &&& (!(a is FlexWrap) ==> m.flex_wrap == n.flex_wrap)
    &&& (!(a is FlexGrow) ==> m.flex_grow == n.flex_grow)
    &&& (!(a is FlexShrink) ==> m.flex_shrink == n.flex_shrink)
    &&& (!(a is FlexBasis) ==> m.flex_basis == n.flex_basis)
    &&& (!(a is RowGap) ==> m.row_gap == n.row_gap)
    &&& (!(a is ColumnGap) ==> m.column_gap == n.column_gap)
    &&& (!(a is GridAutoFlow) ==> m.grid_auto_flow == n.grid_auto_flow)
    &&& (!(a is GridTemplateRows) ==> m.grid_template_rows == n.grid_template_rows)
    &&& (!(a is GridTemplateColumns) ==> m.grid_template_columns == n.grid_template_columns)
    &&& (!(a is GridAutoRows) ==> m.grid_auto_rows == n.grid_auto_rows)
    &&& (!(a is GridAutoColumns) ==> m.grid_auto_columns == n.grid_auto_columns)
    &&& (!(a is GridRow) ==> m.grid_row == n.grid_row)
    &&& (!(a is GridColumn) ==> m.grid_column == n.grid_column)
}

/// Whether the computed styles `c` and `d` agree on every field but the one
/// that the property `a` names.
pub open spec fn agrees_except(c: SpecComputedStyle, d: SpecComputedStyle, a: SpecStyleAttr) -> bool {
    &&& layout_agrees_except(c.node, d.node, a)
    &&& (!(a is BorderColor) ==> d.border_color == c.border_color)
    &&& (!(a is BorderRadius) ==> d.border_radius == c.border_radius)
    &&& (!(a is FontSize) ==> d.font_size == c.font_size)
    &&& (!(a is FontColor) ==> d.font_color == c.font_color)
    &&& (!(a is Background) ==> d.background == c.background)
    &&& (!(a is Delay) ==> d.delay == c.delay)
}

/// Whether the field of the layout `m` that the property `a` names holds
/// the value of `a` (an aspect ratio as `Some`); true of a property that
/// names no field of the layout.
pub open spec fn layout_holds_value_of(m: SpecNodeLayout, a: SpecStyleAttr) -> bool {
    match a {
        SpecStyleAttr::Display(x) => m.display == x,
        SpecStyleAttr::Position(x) => m.position_type == x,
        SpecStyleAttr::Overflow(x) => m.overflow == x,
        SpecStyleAttr::Left(x) => m.left == x,
        SpecStyleAttr::Right(x) => m.right == x,
        SpecStyleAttr::Top(x) => m.top == x,
        SpecStyleAttr::Bottom(x) => m.bottom == x,
        SpecStyleAttr::Width(x) => m.width == x,
        SpecStyleAttr::Height(x) => m.height == x,
        SpecStyleAttr::MinWidth(x) => m.min_width == x,
        SpecStyleAttr::MinHeight(x) => m.min_height == x,
        SpecStyleAttr::MaxWidth(x) => m.max_width == x,
        SpecStyleAttr::MaxHeight(x) => m.max_height == x,
        SpecStyleAttr::AspectRatio(x) => m.aspect_ratio == Some(x),
        SpecStyleAttr::AlignItems(x) => m.align_items == x,
        SpecStyleAttr::JustifyItems(x) => m.justify_items == x,
        SpecStyleAttr::AlignSelf(x) => m.align_self == x,
        SpecStyleAttr::JustifySelf(x) => m.justify_self == x,
        SpecStyleAttr::AlignContent(x) => m.align_content == x,
        SpecStyleAttr::JustifyContent(x) => m.justify_content == x,
        SpecStyleAttr::Margin(x) => m.margin == x,
        SpecStyleAttr::Padding(x) => m.padding == x,
        SpecStyleAttr::Border(x) => m.border == x,
        SpecStyleAttr::FlexDirection(x) => m.flex_direction == x,
        SpecStyleAttr::FlexWrap(x) => m.flex_wrap == x,
        SpecStyleAttr::FlexGrow(x) => m.flex_grow == x,
        SpecStyleAttr::FlexShrink(x) => m.flex_shrink == x,
        SpecStyleAttr::FlexBasis(x) => m.flex_basis == x,
        SpecStyleAttr::RowGap(x) => m.row_gap == x,
        SpecStyleAttr::ColumnGap(x) => m.column_gap == x,
        SpecStyleAttr::GridAutoFlow(x) => m.grid_auto_flow == x,
        SpecStyleAttr::GridTemplateRows(x) => m.grid_template_rows == x,
        SpecStyleAttr::GridTemplateColumns(x) => m.grid_template_columns == x,
        SpecStyleAttr::GridAutoRows(x) => m.grid_auto_rows == x,
        SpecStyleAttr::GridAutoColumns(x) => m.grid_auto_columns == x,
        SpecStyleAttr::GridRow(x) => m.grid_row == x,
        SpecStyleAttr::GridColumn(x) => m.grid_column == x,
        _ => true,
    }
}

/// Whether the field of `d` that the property `a` names holds the value of
/// `a`; true of a property that names no field.
pub open spec fn holds_value_of(d: SpecComputedStyle, a: SpecStyleAttr) -> bool {
    &&& layout_holds_value_of(d.node, a)
    &&& match a {
        SpecStyleAttr::BorderColor(x) => d.border_color == x,
        SpecStyleAttr::BorderRadius(x) => d.border_radius == x,
        SpecStyleAttr::FontSize(x) => d.font_size == x,
        SpecStyleAttr::FontColor(x) => d.font_color == x,
        SpecStyleAttr::Background(x) => d.background == x,
        SpecStyleAttr::Delay(x) => d.delay == x,
        _ => true,
    }
}

proof fn lemma_position_fields(n: SpecNodeLayout, a: SpecStyleAttr)
    requires
        in_position(a),
    ensures
        layout_agrees_except(n, with_position(n, a), a),
        layout_holds_value_of(with_position(n, a), a),
{
    match a {
        SpecStyleAttr::Display(_) => {},
        SpecStyleAttr::Position(_) => {},
        SpecStyleAttr::Overflow(_) => {},
        SpecStyleAttr::Left(_) => {},
        SpecStyleAttr::Right(_) => {},
        SpecStyleAttr::Top(_) => {},
        SpecStyleAttr::Bottom(_) => {},
        _ => {},
    }
}

proof fn lemma_size_fields(n: SpecNodeLayout, a: SpecStyleAttr)
    requires
        in_size(a),
    ensures
        layout_agrees_except(n, with_size(n, a), a),
        layout_holds_value_of(with_size(n, a), a),
{
    match a {
        SpecStyleAttr::Width(_) => {},
        SpecStyleAttr::Height(_) => {},
        SpecStyleAttr::MinWidth(_) => {},
        SpecStyleAttr::MinHeight(_) => {},
        SpecStyleAttr::MaxWidth(_) => {},
        SpecStyleAttr::MaxHeight(_) => {},
        SpecStyleAttr::AspectRatio(_) => {},
        _ => {},
    }
}

proof fn lemma_alignment_fields(n: SpecNodeLayout, a: SpecStyleAttr)
    requires
        in_alignment(a),
    ensures
        layout_agrees_except(n, with_alignment(n, a), a),
        layout_holds_value_of(with_alignment(n, a), a),
{
    match a {
        SpecStyleAttr::AlignItems(_) => {},
        SpecStyleAttr::JustifyItems(_) => {},
        SpecStyleAttr::AlignSelf(_) => {},
        SpecStyleAttr::JustifySelf(_) => {},
        SpecStyleAttr::AlignContent(_) => {},
        SpecStyleAttr::JustifyContent(_) => {},
        _ => {},
    }
}

proof fn lemma_spacing_fields(n: SpecNodeLayout, a: SpecStyleAttr)
    requires
        in_spacing(a),
    ensures
        layout_agrees_except(n, with_spacing(n, a), a),
        layout_holds_value_of(with_spacing(n, a), a),
{
    match a {
        SpecStyleAttr::Margin(_) => {},
        SpecStyleAttr::Padding(_) => {},
        SpecStyleAttr::Border(_) => {},
        SpecStyleAttr::RowGap(_) => {},
        SpecStyleAttr::ColumnGap(_) => {},
        _ => {},
    }
}

proof fn lemma_flex_fields(n: SpecNodeLayout, a: SpecStyleAttr)
    requires
        in_flex(a),
    ensures
        layout_agrees_except(n, with_flex(n, a), a),
        layout_holds_value_of(with_flex(n, a), a),
{
    match a {
        SpecStyleAttr::FlexDirection(_) => {},
        SpecStyleAttr::FlexWrap(_) => {},
        SpecStyleAttr::FlexGrow(_) => {},
        SpecStyleAttr::FlexShrink(_) => {},
        SpecStyleAttr::FlexBasis(_) => {},
        _ => {},
    }
}

proof fn lemma_grid_fields(n: SpecNodeLayout, a: SpecStyleAttr)
    requires
        in_grid(a),
    ensures
        layout_agrees_except(n, with_grid(n, a), a),
        layout_holds_value_of(with_grid(n, a), a),
{
    match a {
        SpecStyleAttr::GridAutoFlow(_) => {},
        SpecStyleAttr::GridTemplateRows(_) => {},
        SpecStyleAttr::GridTemplateColumns(_) => {},
        SpecStyleAttr::GridAutoRows(_) => {},
        SpecStyleAttr::GridAutoColumns(_) => {},
        SpecStyleAttr::GridRow(_) => {},
        SpecStyleAttr::GridColumn(_) => {},
        _ => {},
    }
}

/// A plain property that names no field of the layout.
proof fn lemma_top_fields(c: SpecComputedStyle, a: SpecStyleAttr)
    requires
        !is_conditional(a),
        !in_position(a),
        !in_size(a),
        !in_alignment(a),
        !in_spacing(a),
        !in_flex(a),
        !in_grid(a),
    ensures
        agrees_except(c, with_style(c, a), a),
        holds_value_of(with_style(c, a), a),
        a is Direction || a is Font ==> with_style(c, a) == c,
{
    lemma_layout_by_group(c.node, a);
    match a {
        SpecStyleAttr::BorderColor(_) => {},
        SpecStyleAttr::BorderRadius(_) => {},
        SpecStyleAttr::FontSize(_) => {},
        SpecStyleAttr::FontColor(_) => {},
        SpecStyleAttr::Background(_) => {},
        SpecStyleAttr::Delay(_) => {},
        SpecStyleAttr::Direction(_) => {},
        SpecStyleAttr::Font(_) => {},
        _ => {},
    }
}

/// A plain property sets the one field it names, to its value, and leaves
/// every other field of the computed style and the conditional lists as
/// they were; the text direction and the font change nothing.
#[verifier::spinoff_prover]
pub proof fn law_plain_style_sets_its_field(h: SpecHtmlStyle, a: SpecStyleAttr)
    requires
        !is_conditional(a),
    ensures
        agrees_except(h.computed, html_add(h, a).computed, a),
        holds_value_of(html_add(h, a).computed, a),
        html_add(h, a).hover == h.hover,
        html_add(h, a).pressed == h.pressed,
        html_add(h, a).active == h.active,
        a is Direction || a is Font ==> html_add(h, a) == h,
{
    let c = h.computed;
    let n = c.node;
    assert(html_add(h, a) == SpecHtmlStyle { computed: with_style(c, a), ..h });
    lemma_layout_by_group(n, a);
    if in_position(a) {
        lemma_position_fields(n, a);
        assert(with_style(c, a) == SpecComputedStyle { node: with_position(n, a), ..c });
    } else if in_size(a) {
        lemma_size_fields(n, a);
        assert(with_style(c, a) == SpecComputedStyle { node: with_size(n, a), ..c });
    } else if in_alignment(a) {
        lemma_alignment_fields(n, a);
        assert(with_style(c, a) == SpecComputedStyle { node: with_alignment(n, a), ..c });
    } else if in_spacing(a) {
        lemma_spacing_fields(n, a);
        assert(with_style(c, a) == SpecComputedStyle { node: with_spacing(n, a), ..c });
    } else if in_flex(a) {
        lemma_flex_fields(n, a);
        assert(with_style(c, a) == SpecComputedStyle { node: with_flex(n, a), ..c });
    } else if in_grid(a) {
        lemma_grid_fields(n, a);
        assert(with_style(c, a) == SpecComputedStyle { node: with_grid(n, a), ..c });
    } else {
        lemma_top_fields(c, a);
    }
}

proof fn lemma_position_override(n: SpecNodeLayout, a: SpecStyleAttr, b: SpecStyleAttr)
    requires
        in_position(a),
        a is Display <==> b is Display,
        a is Position <==> b is Position,
        a is Overflow <==> b is Overflow,
        a is Left <==> b is Left,
        a is Right <==> b is Right,
        a is Top <==> b is Top,
        a is Bottom <==> b is Bottom,
    ensures
        in_position(b),
        with_position(with_position(n, a), b) == with_position(n, b),
{
    match a {
        SpecStyleAttr::Display(_) => {},
        SpecStyleAttr::Position(_) => {},
        SpecStyleAttr::Overflow(_) => {},
        SpecStyleAttr::Left(_) => {},
        SpecStyleAttr::Right(_) => {},
        SpecStyleAttr::Top(_) => {},
        SpecStyleAttr::Bottom(_) => {},
        _ => {},
    }
}

proof fn lemma_size_override(n: SpecNodeLayout, a: SpecStyleAttr, b: SpecStyleAttr)
    requires
        in_size(a),
        a is Width <==> b is Width,
        a is Height <==> b is Height,
        a is MinWidth <==> b is MinWidth,
        a is MinHeight <==> b is MinHeight,
        a is MaxWidth <==> b is MaxWidth,
        a is MaxHeight <==> b is MaxHeight,
        a is AspectRatio <==> b is AspectRatio,
    ensures
        in_size(b),
        with_size(with_size(n, a), b) == with_size(n, b),
{
    match a {
        SpecStyleAttr::Width(_) => {},
        SpecStyleAttr::Height(_) => {},
        SpecStyleAttr::MinWidth(_) => {},
        SpecStyleAttr::MinHeight(_) => {},
        SpecStyleAttr::MaxWidth(_) => {},
        SpecStyleAttr::MaxHeight(_) => {},
        SpecStyleAttr::AspectRatio(_) => {},
        _ => {},
    }
}

proof fn lemma_alignment_override(n: SpecNodeLayout, a: SpecStyleAttr, b: SpecStyleAttr)
    requires
        in_alignment(a),
        a is AlignItems <==> b is AlignItems,
        a is JustifyItems <==> b is JustifyItems,
        a is AlignSelf <==> b is AlignSelf,
        a is JustifySelf <==> b is JustifySelf,
        a is AlignContent <==> b is AlignContent,
        a is JustifyContent <==> b is JustifyContent,
    ensures
        in_alignment(b),
        with_alignment(with_alignment(n, a), b) == with_alignment(n, b),
{
    match a {
        SpecStyleAttr::AlignItems(_) => {},
        SpecStyleAttr::JustifyItems(_) => {},
        SpecStyleAttr::AlignSelf(_) => {},
        SpecStyleAttr::JustifySelf(_) => {},
        SpecStyleAttr::AlignContent(_) => {},
        SpecStyleAttr::JustifyContent(_) => {},
        _ => {},
    }
}

proof fn lemma_spacing_override(n: SpecNodeLayout, a: SpecStyleAttr, b: SpecStyleAttr)
    requires
        in_spacing(a),
        a is Margin <==> b is Margin,
        a is Padding <==> b is Padding,
        a is Border <==> b is Border,
        a is RowGap <==> b is RowGap,
        a is ColumnGap <==> b is ColumnGap,
    ensures
        in_spacing(b),
        with_spacing(with_spacing(n, a), b) == with_spacing(n, b),
{
    match a {
        SpecStyleAttr::Margin(_) => {},
        SpecStyleAttr::Padding(_) => {},
        SpecStyleAttr::Border(_) => {},
        SpecStyleAttr::RowGap(_) => {},
        SpecStyleAttr::ColumnGap(_) => {},
        _ => {},
    }
}

proof fn lemma_flex_override(n: SpecNodeLayout, a: SpecStyleAttr, b: SpecStyleAttr)
    requires
        in_flex(a),
        a is FlexDirection <==> b is FlexDirection,
        a is FlexWrap <==> b is FlexWrap,
        a is FlexGrow <==> b is FlexGrow,
        a is FlexShrink <==> b is FlexShrink,
        a is FlexBasis <==> b is FlexBasis,
    ensures
        in_flex(b),
        with_flex(with_flex(n, a), b) == with_flex(n, b),
{
    match a {
        SpecStyleAttr::FlexDirection(_) => {},
        SpecStyleAttr::FlexWrap(_) => {},
        SpecStyleAttr::FlexGrow(_) => {},
        SpecStyleAttr::FlexShrink(_) => {},
        SpecStyleAttr::FlexBasis(_) => {},
        _ => {},
    }
}

proof fn lemma_grid_override(n: SpecNodeLayout, a: SpecStyleAttr, b: SpecStyleAttr)
    requires
        in_grid(a),
        a is GridAutoFlow <==> b is GridAutoFlow,
        a is GridTemplateRows <==> b is GridTemplateRows,
        a is GridTemplateColumns <==> b is GridTemplateColumns,
        a is GridAutoRows <==> b is GridAutoRows,
        a is GridAutoColumns <==> b is GridAutoColumns,
        a is GridRow <==> b is GridRow,
        a is GridColumn <==> b is GridColumn,
    ensures
        in_grid(b),
        with_grid(with_grid(n, a), b) == with_grid(n, b),
{
    match a {
        SpecStyleAttr::GridAutoFlow(_) => {},
        SpecStyleAttr::GridTemplateRows(_) => {},
        SpecStyleAttr::GridTemplateColumns(_) => {},
        SpecStyleAttr::GridAutoRows(_) => {},
        SpecStyleAttr::GridAutoColumns(_) => {},
        SpecStyleAttr::GridRow(_) => {},
        SpecStyleAttr::GridColumn(_) => {},
        _ => {},
    }
}

/// A later plain property of the same kind overrides an earlier one: setting
/// `a` and then `b` is setting `b` alone.
#[verifier::spinoff_prover]
pub proof fn law_later_style_overrides(h: SpecHtmlStyle, a: SpecStyleAttr, b: SpecStyleAttr)
    requires
        !is_conditional(a),
        style_kind(a) == style_kind(b),
    ensures
        html_add(html_add(h, a), b) == html_add(h, b),
{
    lemma_same_kind_same_variant(a, b);
    let n = h.computed.node;
    let m = with_layout(n, a);
    lemma_layout_by_group(n, a);
    lemma_layout_by_group(m, b);
    lemma_layout_by_group(n, b);
    if in_position(a) {
        lemma_position_override(n, a, b);
    } else if in_size(a) {
        lemma_size_override(n, a, b);
    } else if in_alignment(a) {
        lemma_alignment_override(n, a, b);
    } else if in_spacing(a) {
        lemma_spacing_override(n, a, b);
    } else if in_flex(a) {
        lemma_flex_override(n, a, b);
    } else if in_grid(a) {
        lemma_grid_override(n, a, b);
    }
}

/// Properties of one kind are of one variant.
proof fn lemma_same_kind_same_variant(a: SpecStyleAttr, b: SpecStyleAttr)
    requires
        style_kind(a) == style_kind(b),
    ensures
        (a is Display <==> b is Display),
        (a is Position <==> b is Position),
        (a is Overflow <==> b is Overflow),
        (a is Left <==> b is Left),
        (a is Right <==> b is Right),
        (a is Top <==> b is Top),
        (a is Bottom <==> b is Bottom),
        (a is Width <==> b is Width),
        (a is Height <==> b is Height),
        (a is MinWidth <==> b is MinWidth),
        (a is MinHeight <==> b is MinHeight),
        (a is MaxWidth <==> b is MaxWidth),
        (a is MaxHeight <==> b is MaxHeight),
        (a is AspectRatio <==> b is AspectRatio),
        (a is AlignItems <==> b is AlignItems),
        (a is JustifyItems <==> b is JustifyItems),
        (a is AlignSelf <==> b is AlignSelf),
        (a is JustifySelf <==> b is JustifySelf),
        (a is AlignContent <==> b is AlignContent),
        (a is JustifyContent <==> b is JustifyContent),
        (a is Margin <==> b is Margin),
        (a is Padding <==> b is Padding),
        (a is Border <==> b is Border),
        (a is BorderColor <==> b is BorderColor),
        (a is BorderRadius <==> b is BorderRadius),
        (a is FlexDirection <==> b is FlexDirection),
        (a is FlexWrap <==> b is FlexWrap),
        (a is FlexGrow <==> b is FlexGrow),
        (a is FlexShrink <==> b is FlexShrink),
        (a is FlexBasis <==> b is FlexBasis),
        (a is RowGap <==> b is RowGap),
        (a is ColumnGap <==> b is ColumnGap),
        (a is GridAutoFlow <==> b is GridAutoFlow),
        (a is GridTemplateRows <==> b is GridTemplateRows),
        (a is GridTemplateColumns <==> b is GridTemplateColumns),
        (a is GridAutoRows <==> b is GridAutoRows),
        (a is GridAutoColumns <==> b is GridAutoColumns),
        (a is GridRow <==> b is GridRow),
        (a is GridColumn <==> b is GridColumn),
        (a is Direction <==> b is Direction),
        (a is FontSize <==> b is FontSize),
        (a is Font <==> b is Font),
        (a is FontColor <==> b is FontColor),
        (a is Background <==> b is Background),
        (a is Hover <==> b is Hover),
        (a is Pressed <==> b is Pressed),
        (a is Active <==> b is Active),
        (a is Delay <==> b is Delay),
{
    match a {
        SpecStyleAttr::Display(_) => {},
        SpecStyleAttr::Position(_) => {},
        SpecStyleAttr::Overflow(_) => {},
        SpecStyleAttr::Left(_) => {},
        SpecStyleAttr::Right(_) => {},
        SpecStyleAttr::Top(_) => {},
        SpecStyleAttr::Bottom(_) => {},
        SpecStyleAttr::Width(_) => {},
        SpecStyleAttr::Height(_) => {},
        SpecStyleAttr::MinWidth(_) => {},
        SpecStyleAttr::MinHeight(_) => {},
        SpecStyleAttr::MaxWidth(_) => {},
        SpecStyleAttr::MaxHeight(_) => {},
        SpecStyleAttr::AspectRatio(_) => {},
        SpecStyleAttr::AlignItems(_) => {},
        SpecStyleAttr::JustifyItems(_) => {},
        SpecStyleAttr::AlignSelf(_) => {},
        SpecStyleAttr::JustifySelf(_) => {},
        SpecStyleAttr::AlignContent(_) => {},
        SpecStyleAttr::JustifyContent(_) => {},
        SpecStyleAttr::Margin(_) => {},
        SpecStyleAttr::Padding(_) => {},
        SpecStyleAttr::Border(_) => {},
        SpecStyleAttr::BorderColor(_) => {},
        SpecStyleAttr::BorderRadius(_) => {},
        SpecStyleAttr::FlexDirection(_) => {},
        SpecStyleAttr::FlexWrap(_) => {},
        SpecStyleAttr::FlexGrow(_) => {},
        SpecStyleAttr::FlexShrink(_) => {},
        SpecStyleAttr::FlexBasis(_) => {},
        SpecStyleAttr::RowGap(_) => {},
        SpecStyleAttr::ColumnGap(_) => {},
        SpecStyleAttr::GridAutoFlow(_) => {},
        SpecStyleAttr::GridTemplateRows(_) => {},
        SpecStyleAttr::GridTemplateColumns(_) => {},
        SpecStyleAttr::GridAutoRows(_) => {},
        SpecStyleAttr::GridAutoColumns(_) => {},
        SpecStyleAttr::GridRow(_) => {},
        SpecStyleAttr::GridColumn(_) => {},
        SpecStyleAttr::Direction(_) => {},
        SpecStyleAttr::FontSize(_) => {},
        SpecStyleAttr::Font(_) => {},
        SpecStyleAttr::FontColor(_) => {},
        SpecStyleAttr::Background(_) => {},
        SpecStyleAttr::Hover(_) => {},
        SpecStyleAttr::Pressed(_) => {},
        SpecStyleAttr::Active(_) => {},
        SpecStyleAttr::Delay(_) => {},
    }
}

/// Where some property of kind `k` stands in `l`, a first one does.
proof fn lemma_first_exists(l: Seq<SpecStyleAttr>, k: nat, j: int)
    requires
        0 <= j < l.len(),
        style_kind(l[j]) == k,
    ensures
        exists|i: int| is_first_of_kind(l, k, i),
    decreases j,
{
    if forall|q: int| 0 <= q < j ==> style_kind(l[q]) != k {
        assert(is_first_of_kind(l, k, j));
    } else {
        let q = choose|q: int| 0 <= q < j && style_kind(l[q]) == k;
        lemma_first_exists(l, k, q);
    }
}

/// Setting a plain property twice is setting it once.
#[verifier::spinoff_prover]
pub proof fn law_plain_style_idempotent(h: SpecHtmlStyle, a: SpecStyleAttr)
    requires
        !is_conditional(a),
    ensures
        html_add(html_add(h, a), a) == html_add(h, a),
{
    let n = h.computed.node;
    lemma_layout_by_group(n, a);
    lemma_layout_by_group(with_layout(n, a), a);
    lemma_position(n, a);
    lemma_size(n, a);
    lemma_alignment(n, a);
    lemma_spacing(n, a);
    lemma_flex(n, a);
    lemma_grid(n, a);
}

/// A conditional style joins its list as the first of its kind, before the
/// older ones of that kind, and the list grows by one; the computed style
/// stays as it is.
pub proof fn law_conditional_first_of_kind(h: SpecHtmlStyle, b: SpecStyleAttr)
    ensures
        html_add(h, SpecStyleAttr::Hover(Box::new(b))).computed == h.computed,
        add_conditional(h.hover, b).len() == h.hover.len() + 1,
        exists|i: int| #[trigger] is_first_of_kind(add_conditional(h.hover, b), style_kind(b), i)
            && add_conditional(h.hover, b)[i] == b,
{
    let l = h.hover;
    let k = style_kind(b);
    let r = add_conditional(l, b);
    if exists|i: int| is_first_of_kind(l, k, i) {
        let i = choose|i: int| is_first_of_kind(l, k, i);
        assert(r == l.insert(i, b));
        assert(r[i] == b);
        assert forall|j: int| 0 <= j < i implies style_kind(r[j]) != k by {
            assert(r[j] == l[j]);
        }
        assert(is_first_of_kind(r, k, i));
    } else {
        assert(r == l.push(b));
        let i = l.len() as int;
        assert(r[i] == b);
        assert forall|j: int| 0 <= j < i implies style_kind(r[j]) != k by {
            assert(r[j] == l[j]);
            if style_kind(l[j]) == k {
                lemma_first_exists(l, k, j);
            }
        }
        assert(is_first_of_kind(r, k, i));
    }
}

/// After setting `a` in a list, `a` is the first property of its kind, the
/// list grows only where no property of that kind was there, and setting
/// `a` again changes nothing.
pub proof fn law_upsert(l: Seq<SpecStyleAttr>, a: SpecStyleAttr)
    ensures
        exists|i: int| #[trigger] is_first_of_kind(upsert(l, a), style_kind(a), i) && upsert(l, a)[i] == a,
        (exists|j: int| 0 <= j < l.len() && style_kind(l[j]) == style_kind(a)) ==> upsert(l, a).len()
            == l.len(),
        !(exists|j: int| 0 <= j < l.len() && style_kind(l[j]) == style_kind(a)) ==> upsert(l, a)
            == l.push(a),
        upsert(upsert(l, a), a) == upsert(l, a),
{
    let k = style_kind(a);
    let u = upsert(l, a);
    if exists|i: int| is_first_of_kind(l, k, i) {
        let i = choose|i: int| is_first_of_kind(l, k, i);
        assert(u == l.update(i, a));
        assert forall|j: int| 0 <= j < i implies style_kind(u[j]) != k by {
            assert(u[j] == l[j]);
        }
        assert(is_first_of_kind(u, k, i));
        lemma_choose_first(u, k, i);
        assert(u.update(i, a) =~= u);
    } else {
        assert(u == l.push(a));
        let i = l.len() as int;
        assert forall|j: int| 0 <= j < i implies style_kind(u[j]) != k by {
            assert(u[j] == l[j]);
            if style_kind(l[j]) == k {
                lemma_first_exists(l, k, j);
            }
        }
        assert(is_first_of_kind(u, k, i));
        lemma_choose_first(u, k, i);
        assert(u.update(i, a) =~= u);
        if exists|j: int| 0 <= j < l.len() && style_kind(l[j]) == style_kind(a) {
            let j = choose|j: int| 0 <= j < l.len() && style_kind(l[j]) == style_kind(a);
            lemma_first_exists(l, k, j);
        }
    }
}

/// A conditional style joins the list of its own condition: for a node
/// style a hover style goes at the end of the hover list and a pressed style
/// at the end of the pressed list, and the other list, the direction and the
/// computed style stay as they were.
pub proof fn law_node_style_conditions(n: SpecNodeStyle, b: SpecStyleAttr)
    ensures
        node_style_add(n, SpecStyleAttr::Hover(Box::new(b))).hover == n.hover.push(b),
        node_style_add(n, SpecStyleAttr::Hover(Box::new(b))).pressed == n.pressed,
        node_style_add(n, SpecStyleAttr::Hover(Box::new(b))).regular == n.regular,
        node_style_add(n, SpecStyleAttr::Hover(Box::new(b))).direction == n.direction,
        node_style_add(n, SpecStyleAttr::Pressed(Box::new(b))).pressed == n.pressed.push(b),
        node_style_add(n, SpecStyleAttr::Pressed(Box::new(b))).hover == n.hover,
        node_style_add(n, SpecStyleAttr::Pressed(Box::new(b))).regular == n.regular,
        node_style_add(n, SpecStyleAttr::Pressed(Box::new(b))).direction == n.direction,
{
}

/// A list of conditional styles grows by one with the added style in it.
proof fn lemma_add_conditional_holds(l: Seq<SpecStyleAttr>, b: SpecStyleAttr)
    ensures
        add_conditional(l, b).len() == l.len() + 1,
        exists|i: int| 0 <= i < add_conditional(l, b).len() && #[trigger] add_conditional(l, b)[i] == b,
{
    let k = style_kind(b);
    if exists|i: int| is_first_of_kind(l, k, i) {
        let i = choose|i: int| is_first_of_kind(l, k, i);
        assert(add_conditional(l, b)[i] == b);
    } else {
        assert(add_conditional(l, b)[l.len() as int] == b);
    }
}

/// A conditional style joins the list of its own condition: a hover style
/// only the hover list, a pressed style only the pressed list, an active
/// style only the active list; each list grows by one and holds the style,
/// and the computed style stays as it was.
pub proof fn law_html_style_conditions(h: SpecHtmlStyle, b: SpecStyleAttr)
    ensures
        html_add(h, SpecStyleAttr::Hover(Box::new(b))).pressed == h.pressed,
        html_add(h, SpecStyleAttr::Hover(Box::new(b))).active == h.active,
        html_add(h, SpecStyleAttr::Hover(Box::new(b))).computed == h.computed,
        html_add(h, SpecStyleAttr::Hover(Box::new(b))).hover.len() == h.hover.len() + 1,
        exists|i: int| 0 <= i < h.hover.len() + 1 && #[trigger] html_add(h, SpecStyleAttr::Hover(Box::new(b))).hover[i] == b,
        html_add(h, SpecStyleAttr::Pressed(Box::new(b))).hover == h.hover,
        html_add(h, SpecStyleAttr::Pressed(Box::new(b))).active == h.active,
        html_add(h, SpecStyleAttr::Pressed(Box::new(b))).computed == h.computed,
        html_add(h, SpecStyleAttr::Pressed(Box::new(b))).pressed.len() == h.pressed.len() + 1,
        exists|i: int| 0 <= i < h.pressed.len() + 1 && #[trigger] html_add(h, SpecStyleAttr::Pressed(Box::new(b))).pressed[i] == b,
        html_add(h, SpecStyleAttr::Active(Box::new(b))).hover == h.hover,
        html_add(h, SpecStyleAttr::Active(Box::new(b))).pressed == h.pressed,
        html_add(h, SpecStyleAttr::Active(Box::new(b))).computed == h.computed,
        html_add(h, SpecStyleAttr::Active(Box::new(b))).active.len() == h.active.len() + 1,
        exists|i: int| 0 <= i < h.active.len() + 1 && #[trigger] html_add(h, SpecStyleAttr::Active(Box::new(b))).active[i] == b,
{
    lemma_add_conditional_holds(h.hover, b);
    lemma_add_conditional_holds(h.pressed, b);
    lemma_add_conditional_holds(h.active, b);
}

} // verus!
