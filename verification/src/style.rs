//! Style descriptions and their resolution to canonical records.
//!
//! Callers describe a box with [`LayoutStyle`]: every field optional, enum-like
//! fields as strings, dimensions as a number plus a unit tag. [`resolve`]
//! turns such a description into a fully-defaulted canonical [`Style`]:
//! unrecognized enum strings fall back to each field's default, an
//! unrecognized unit tag is treated as an absolute length, and every
//! unspecified margin/padding/border edge becomes length 0 (never auto).

use vstd::prelude::*;

verus! {

/// A dimension description: a value and a unit tag ("px", "%", "auto";
/// any unrecognized tag is read as an absolute length).
#[derive(Clone, Debug)]
pub struct Dimension {
    pub value: i64,
    pub unit: String,
}

/// A four-edge description; an unspecified edge defaults to length 0.
#[derive(Clone, Copy, Debug)]
pub struct Edges {
    pub top: Option<i64>,
    pub right: Option<i64>,
    pub bottom: Option<i64>,
    pub left: Option<i64>,
}

/// A partial style description, every field optional.
#[derive(Clone, Debug)]
pub struct LayoutStyle {
    pub position: Option<String>,
    pub display: Option<String>,
    pub overflow: Option<String>,
    pub width: Option<Dimension>,
    pub height: Option<Dimension>,
    pub min_width: Option<Dimension>,
    pub min_height: Option<Dimension>,
    pub max_width: Option<Dimension>,
    pub max_height: Option<Dimension>,
    pub flex_direction: Option<String>,
    pub flex_wrap: Option<String>,
    pub flex_grow: Option<i64>,
    pub flex_shrink: Option<i64>,
    pub flex_basis: Option<Dimension>,
    pub align_items: Option<String>,
    pub align_self: Option<String>,
    pub align_content: Option<String>,
    pub justify_content: Option<String>,
    pub margin: Option<Edges>,
    pub padding: Option<Edges>,
    pub border: Option<Edges>,
    pub gap: Option<i64>,
    pub column_gap: Option<i64>,
    pub row_gap: Option<i64>,
}

/// Canonical position scheme.
#[derive(Clone, Copy, Debug, PartialEq, Eq, Structural)]
pub enum Position {
    Relative,
    Absolute,
}

/// Canonical display mode; `Gone` is the "display: none" mode, `Grid` is
/// accepted as an opaque tag and laid out with the flex rules.
#[derive(Clone, Copy, Debug, PartialEq, Eq, Structural)]
pub enum Display {
    Flex,
    Gone,
    Grid,
}

/// Canonical overflow mode for one axis.
#[derive(Clone, Copy, Debug, PartialEq, Eq, Structural)]
pub enum Overflow {
    Visible,
    Hidden,
    Scroll,
}

/// Canonical flex direction.
#[derive(Clone, Copy, Debug, PartialEq, Eq, Structural)]
pub enum FlexDirection {
    Row,
    RowReverse,
    Column,
    ColumnReverse,
}

/// Canonical flex wrapping mode.
#[derive(Clone, Copy, Debug, PartialEq, Eq, Structural)]
pub enum FlexWrap {
    NoWrap,
    Wrap,
    WrapReverse,
}

/// Canonical item alignment.
#[derive(Clone, Copy, Debug, PartialEq, Eq, Structural)]
pub enum AlignItems {
    FlexStart,
    FlexEnd,
    Center,
    Baseline,
    Stretch,
}

/// Canonical line alignment for multi-line containers.
#[derive(Clone, Copy, Debug, PartialEq, Eq, Structural)]
pub enum AlignContent {
    FlexStart,
    FlexEnd,
    Center,
    SpaceBetween,
    SpaceAround,
    SpaceEvenly,
    Stretch,
}

/// Canonical main-axis content distribution.
#[derive(Clone, Copy, Debug, PartialEq, Eq, Structural)]
pub enum JustifyContent {
    FlexStart,
    FlexEnd,
    Center,
    SpaceBetween,
    SpaceAround,
    SpaceEvenly,
}

/// A canonical dimension: an absolute length, a percentage of the containing
/// block's corresponding axis (in whole percent points), or auto.
#[derive(Clone, Copy, Debug, PartialEq, Eq, Structural)]
pub enum Dim {
    Length(i64),
    Percent(i64),
    Auto,
}

/// Per-item alignment override: inherit the container's `align_items`, or a
/// value of the item's own.
#[derive(Clone, Copy, Debug, PartialEq, Eq, Structural)]
pub enum AlignSelf {
    Inherit,
    Given(AlignItems),
}

/// Fully-resolved four-edge lengths.
#[derive(Clone, Copy, Debug, PartialEq, Eq, Structural)]
pub struct EdgeValues {
    pub top: i64,
    pub right: i64,
    pub bottom: i64,
    pub left: i64,
}

/// A fully-defaulted canonical style record.
#[derive(Clone, Copy, Debug, PartialEq, Eq, Structural)]
pub struct Style {
    pub position: Position,
    pub display: Display,
    pub overflow_x: Overflow,
    pub overflow_y: Overflow,
    pub width: Dim,
    pub height: Dim,
    pub min_width: Dim,
    pub min_height: Dim,
    pub max_width: Dim,
    pub max_height: Dim,
    pub flex_direction: FlexDirection,
    pub flex_wrap: FlexWrap,
    pub flex_grow: i64,
    pub flex_shrink: i64,
    pub flex_basis: Dim,
    pub align_items: AlignItems,
    pub align_self: AlignSelf,
    pub align_content: AlignContent,
    pub justify_content: JustifyContent,
    pub margin: EdgeValues,
    pub padding: EdgeValues,
    pub border: EdgeValues,
    pub column_gap: i64,
    pub row_gap: i64,
}

pub open spec fn spec_map_position(s: Seq<char>) -> Position {
    if s == "absolute"@ {
        Position::Absolute
    } else {
        Position::Relative
    }
}

pub open spec fn spec_map_display(s: Seq<char>) -> Display {
    if s == "none"@ {
        Display::Gone
    } else if s == "grid"@ {
        Display::Grid
    } else {
        Display::Flex
    }
}

pub open spec fn spec_map_overflow(s: Seq<char>) -> Overflow {
    if s == "hidden"@ {
        Overflow::Hidden
    } else if s == "scroll"@ {
        Overflow::Scroll
    } else {
        Overflow::Visible
    }
}

pub open spec fn spec_map_direction(s: Seq<char>) -> FlexDirection {
    if s == "row"@ {
        FlexDirection::Row
    } else if s == "row-reverse"@ {
        FlexDirection::RowReverse
    } else if s == "column-reverse"@ {
        FlexDirection::ColumnReverse
    } else {
        FlexDirection::Column
    }
}

pub open spec fn spec_map_wrap(s: Seq<char>) -> FlexWrap {
    if s == "wrap"@ {
        FlexWrap::Wrap
    } else if s == "wrap-reverse"@ {
        FlexWrap::WrapReverse
    } else {
        FlexWrap::NoWrap
    }
}

pub open spec fn spec_map_align_items(s: Seq<char>) -> AlignItems {
    if s == "flex-start"@ || s == "start"@ {
        AlignItems::FlexStart
    } else if s == "flex-end"@ || s == "end"@ {
        AlignItems::FlexEnd
    } else if s == "center"@ {
        AlignItems::Center
    } else if s == "baseline"@ {
        AlignItems::Baseline
    } else {
        AlignItems::Stretch
    }
}

pub open spec fn spec_map_align_content(s: Seq<char>) -> AlignContent {
    if s == "flex-start"@ || s == "start"@ {
        AlignContent::FlexStart
    } else if s == "flex-end"@ || s == "end"@ {
        AlignContent::FlexEnd
    } else if s == "center"@ {
        AlignContent::Center
    } else if s == "space-between"@ {
        AlignContent::SpaceBetween
    } else if s == "space-around"@ {
        AlignContent::SpaceAround
    } else if s == "space-evenly"@ {
        AlignContent::SpaceEvenly
    } else {
        AlignContent::Stretch
    }
}

pub open spec fn spec_map_justify(s: Seq<char>) -> JustifyContent {
    if s == "flex-start"@ || s == "start"@ {
        JustifyContent::FlexStart
    } else if s == "flex-end"@ || s == "end"@ {
        JustifyContent::FlexEnd
    } else if s == "center"@ {
        JustifyContent::Center
    } else if s == "space-between"@ {
        JustifyContent::SpaceBetween
    } else if s == "space-around"@ {
        JustifyContent::SpaceAround
    } else if s == "space-evenly"@ {
        JustifyContent::SpaceEvenly
    } else {
        JustifyContent::FlexStart
    }
}

pub open spec fn spec_map_dim(d: Dimension) -> Dim {
    if d.unit@ == "%"@ {
        Dim::Percent(d.value)
    } else if d.unit@ == "auto"@ {
        Dim::Auto
    } else {
        Dim::Length(d.value)
    }
}

pub open spec fn spec_resolve_dim_opt(o: Option<Dimension>) -> Dim {
    match o {
        Option::None => Dim::Auto,
        Option::Some(d) => spec_map_dim(d),
    }
}

pub open spec fn spec_resolve_edges(o: Option<Edges>) -> EdgeValues {
    match o {
        Option::None => (EdgeValues { top: 0, right: 0, bottom: 0, left: 0 }),
        Option::Some(e) => (EdgeValues {
            top: e.top.unwrap_or(0),
            right: e.right.unwrap_or(0),
            bottom: e.bottom.unwrap_or(0),
            left: e.left.unwrap_or(0),
        }),
    }
}

/// The canonical record a description resolves to. The combined `gap` sets
/// both axes first; `column_gap` / `row_gap` then override their axis.
pub open spec fn spec_resolve(ls: LayoutStyle) -> Style {
    Style {
        position: match ls.position {
            Option::None => Position::Relative,
            Option::Some(s) => spec_map_position(s@),
        },
        display: match ls.display {
            Option::None => Display::Flex,
            Option::Some(s) => spec_map_display(s@),
        },
        overflow_x: match ls.overflow {
            Option::None => Overflow::Visible,
            Option::Some(s) => spec_map_overflow(s@),
        },
        overflow_y: match ls.overflow {
            Option::None => Overflow::Visible,
            Option::Some(s) => spec_map_overflow(s@),
        },
        width: spec_resolve_dim_opt(ls.width),
        height: spec_resolve_dim_opt(ls.height),
        min_width: spec_resolve_dim_opt(ls.min_width),
        min_height: spec_resolve_dim_opt(ls.min_height),
        max_width: spec_resolve_dim_opt(ls.max_width),
        max_height: spec_resolve_dim_opt(ls.max_height),
        flex_direction: match ls.flex_direction {
            Option::None => FlexDirection::Column,
            Option::Some(s) => spec_map_direction(s@),
        },
        flex_wrap: match ls.flex_wrap {
            Option::None => FlexWrap::NoWrap,
            Option::Some(s) => spec_map_wrap(s@),
        },
        flex_grow: ls.flex_grow.unwrap_or(0),
        flex_shrink: ls.flex_shrink.unwrap_or(1),
        flex_basis: spec_resolve_dim_opt(ls.flex_basis),
        align_items: match ls.align_items {
            Option::None => AlignItems::Stretch,
            Option::Some(s) => spec_map_align_items(s@),
        },
        align_self: match ls.align_self {
            Option::None => AlignSelf::Inherit,
            Option::Some(s) => AlignSelf::Given(spec_map_align_items(s@)),
        },
        align_content: match ls.align_content {
            Option::None => AlignContent::Stretch,
            Option::Some(s) => spec_map_align_content(s@),
        },
        justify_content: match ls.justify_content {
            Option::None => JustifyContent::FlexStart,
            Option::Some(s) => spec_map_justify(s@),
        },
        margin: spec_resolve_edges(ls.margin),
        padding: spec_resolve_edges(ls.padding),
        border: spec_resolve_edges(ls.border),
        column_gap: match ls.column_gap {
            Option::Some(g) => g,
            Option::None => ls.gap.unwrap_or(0),
        },
        row_gap: match ls.row_gap {
            Option::Some(g) => g,
            Option::None => ls.gap.unwrap_or(0),
        },
    }
}

/// True string equality against a tag literal.
fn str_is(s: &String, lit: &str) -> (r: bool)
    ensures
        r == (s@ == lit@),
{
    let owned: String = lit.to_owned();
    *s == owned
}

fn map_position(s: &String) -> (r: Position)
    ensures
        r == spec_map_position(s@),
{
    if str_is(s, "absolute") {
        Position::Absolute
    } else {
        Position::Relative
    }
}

fn map_display(s: &String) -> (r: Display)
    ensures
        r == spec_map_display(s@),
{
    if str_is(s, "none") {
        Display::Gone
    } else if str_is(s, "grid") {
        Display::Grid
    } else {
        Display::Flex
    }
}

fn map_overflow(s: &String) -> (r: Overflow)
    ensures
        r == spec_map_overflow(s@),
{
    if str_is(s, "hidden") {
        Overflow::Hidden
    } else if str_is(s, "scroll") {
        Overflow::Scroll
    } else {
        Overflow::Visible
    }
}

fn map_direction(s: &String) -> (r: FlexDirection)
    ensures
        r == spec_map_direction(s@),
{
    if str_is(s, "row") {
        FlexDirection::Row
    } else if str_is(s, "row-reverse") {
        FlexDirection::RowReverse
    } else if str_is(s, "column-reverse") {
        FlexDirection::ColumnReverse
    } else {
        FlexDirection::Column
    }
}

fn map_wrap(s: &String) -> (r: FlexWrap)
    ensures
        r == spec_map_wrap(s@),
{
    if str_is(s, "wrap") {
        FlexWrap::Wrap
    } else if str_is(s, "wrap-reverse") {
        FlexWrap::WrapReverse
    } else {
        FlexWrap::NoWrap
    }
}

fn map_align_items(s: &String) -> (r: AlignItems)
    ensures
        r == spec_map_align_items(s@),
{
    if str_is(s, "flex-start") || str_is(s, "start") {
        AlignItems::FlexStart
    } else if str_is(s, "flex-end") || str_is(s, "end") {
        AlignItems::FlexEnd
    } else if str_is(s, "center") {
        AlignItems::Center
    } else if str_is(s, "baseline") {
        AlignItems::Baseline
    } else {
        AlignItems::Stretch
    }
}

fn map_align_content(s: &String) -> (r: AlignContent)
    ensures
        r == spec_map_align_content(s@),
{
    if str_is(s, "flex-start") || str_is(s, "start") {
        AlignContent::FlexStart
    } else if str_is(s, "flex-end") || str_is(s, "end") {
        AlignContent::FlexEnd
    } else if str_is(s, "center") {
        AlignContent::Center
    } else if str_is(s, "space-between") {
        AlignContent::SpaceBetween
    } else if str_is(s, "space-around") {
        AlignContent::SpaceAround
    } else if str_is(s, "space-evenly") {
        AlignContent::SpaceEvenly
    } else {
        AlignContent::Stretch
    }
}

fn map_justify(s: &String) -> (r: JustifyContent)
    ensures
        r == spec_map_justify(s@),
{
    if str_is(s, "flex-start") || str_is(s, "start") {
        JustifyContent::FlexStart
    } else if str_is(s, "flex-end") || str_is(s, "end") {
        JustifyContent::FlexEnd
    } else if str_is(s, "center") {
        JustifyContent::Center
    } else if str_is(s, "space-between") {
        JustifyContent::SpaceBetween
    } else if str_is(s, "space-around") {
        JustifyContent::SpaceAround
    } else if str_is(s, "space-evenly") {
        JustifyContent::SpaceEvenly
    } else {
        JustifyContent::FlexStart
    }
}

fn map_dim(d: &Dimension) -> (r: Dim)
    ensures
        r == spec_map_dim(*d),
{
    if str_is(&d.unit, "%") {
        Dim::Percent(d.value)
    } else if str_is(&d.unit, "auto") {
        Dim::Auto
    } else {
        Dim::Length(d.value)
    }
}

fn resolve_dim_opt(o: &Option<Dimension>) -> (r: Dim)
    ensures
        r == spec_resolve_dim_opt(*o),
{
    match o {
        Option::None => Dim::Auto,
        Option::Some(d) => map_dim(d),
    }
}

fn resolve_edges(o: &Option<Edges>) -> (r: EdgeValues)
    ensures
        r == spec_resolve_edges(*o),
{
    match o {
        Option::None => EdgeValues { top: 0, right: 0, bottom: 0, left: 0 },
        Option::Some(e) => EdgeValues {
            top: e.top.unwrap_or(0),
            right: e.right.unwrap_or(0),
            bottom: e.bottom.unwrap_or(0),
            left: e.left.unwrap_or(0),
        },
    }
}

impl LayoutStyle {
    /// A description with every field unspecified.
    pub fn empty() -> (r: LayoutStyle)
        ensures
            r.position is None,
            r.display is None,
            r.overflow is None,
            r.width is None,
            r.height is None,
            r.min_width is None,
            r.min_height is None,
            r.max_width is None,
            r.max_height is None,
            r.flex_direction is None,
            r.flex_wrap is None,
            r.flex_grow is None,
            r.flex_shrink is None,
            r.flex_basis is None,
            r.align_items is None,
            r.align_self is None,
            r.align_content is None,
            r.justify_content is None,
            r.margin is None,
            r.padding is None,
            r.border is None,
            r.gap is None,
            r.column_gap is None,
            r.row_gap is None,
    {
        LayoutStyle {
            position: None,
            display: None,
            overflow: None,
            width: None,
            height: None,
            min_width: None,
            min_height: None,
            max_width: None,
            max_height: None,
            flex_direction: None,
            flex_wrap: None,
            flex_grow: None,
            flex_shrink: None,
            flex_basis: None,
            align_items: None,
            align_self: None,
            align_content: None,
            justify_content: None,
            margin: None,
            padding: None,
            border: None,
            gap: None,
            column_gap: None,
            row_gap: None,
        }
    }

    /// Resolve this description to its canonical record.
    pub fn resolve(&self) -> (s: Style)
        ensures
            s == spec_resolve(*self),
    {
        Style {
            position: match &self.position {
                Option::None => Position::Relative,
                Option::Some(s) => map_position(s),
            },
            display: match &self.display {
                Option::None => Display::Flex,
                Option::Some(s) => map_display(s),
            },
            overflow_x: match &self.overflow {
                Option::None => Overflow::Visible,
                Option::Some(s) => map_overflow(s),
            },
            overflow_y: match &self.overflow {
                Option::None => Overflow::Visible,
                Option::Some(s) => map_overflow(s),
            },
            width: resolve_dim_opt(&self.width),
            height: resolve_dim_opt(&self.height),
            min_width: resolve_dim_opt(&self.min_width),
            min_height: resolve_dim_opt(&self.min_height),
            max_width: resolve_dim_opt(&self.max_width),
            max_height: resolve_dim_opt(&self.max_height),
            flex_direction: match &self.flex_direction {
                Option::None => FlexDirection::Column,
                Option::Some(s) => map_direction(s),
            },
            flex_wrap: match &self.flex_wrap {
                Option::None => FlexWrap::NoWrap,
                Option::Some(s) => map_wrap(s),
            },
            flex_grow: self.flex_grow.unwrap_or(0),
            flex_shrink: self.flex_shrink.unwrap_or(1),
            flex_basis: resolve_dim_opt(&self.flex_basis),
            align_items: match &self.align_items {
                Option::None => AlignItems::Stretch,
                Option::Some(s) => map_align_items(s),
            },
            align_self: match &self.align_self {
                Option::None => AlignSelf::Inherit,
                Option::Some(s) => AlignSelf::Given(map_align_items(s)),
            },
            align_content: match &self.align_content {
                Option::None => AlignContent::Stretch,
                Option::Some(s) => map_align_content(s),
            },
            justify_content: match &self.justify_content {
                Option::None => JustifyContent::FlexStart,
                Option::Some(s) => map_justify(s),
            },
            margin: resolve_edges(&self.margin),
            padding: resolve_edges(&self.padding),
            border: resolve_edges(&self.border),
            column_gap: match self.column_gap {
                Option::Some(g) => g,
                Option::None => self.gap.unwrap_or(0),
            },
            row_gap: match self.row_gap {
                Option::Some(g) => g,
                Option::None => self.gap.unwrap_or(0),
            },
        }
    }
}

impl Style {
    /// The canonical record of the empty description: every field's default.
    pub open spec fn spec_default() -> Style {
        Style {
            position: Position::Relative,
            display: Display::Flex,
            overflow_x: Overflow::Visible,
            overflow_y: Overflow::Visible,
            width: Dim::Auto,
            height: Dim::Auto,
            min_width: Dim::Auto,
            min_height: Dim::Auto,
            max_width: Dim::Auto,
            max_height: Dim::Auto,
            flex_direction: FlexDirection::Column,
            flex_wrap: FlexWrap::NoWrap,
            flex_grow: 0,
            flex_shrink: 1,
            flex_basis: Dim::Auto,
            align_items: AlignItems::Stretch,
            align_self: AlignSelf::Inherit,
            align_content: AlignContent::Stretch,
            justify_content: JustifyContent::FlexStart,
            margin: EdgeValues { top: 0, right: 0, bottom: 0, left: 0 },
            padding: EdgeValues { top: 0, right: 0, bottom: 0, left: 0 },
            border: EdgeValues { top: 0, right: 0, bottom: 0, left: 0 },
            column_gap: 0,
            row_gap: 0,
        }
    }
}

/// Unspecified margin, padding and border edges always resolve to length 0
/// (never auto): a wholly unspecified record gives all-zero edges, and an
/// unspecified single edge gives 0 whatever the other edges say.
pub proof fn lemma_unspecified_edges_resolve_to_zero(ls: LayoutStyle)
    ensures
        ls.margin is None ==> spec_resolve(ls).margin == (EdgeValues {
            top: 0,
            right: 0,
            bottom: 0,
            left: 0,
        }),
        ls.padding is None ==> spec_resolve(ls).padding == (EdgeValues {
            top: 0,
            right: 0,
            bottom: 0,
            left: 0,
        }),
        ls.border is None ==> spec_resolve(ls).border == (EdgeValues {
            top: 0,
            right: 0,
            bottom: 0,
            left: 0,
        }),
        ls.margin matches Some(e) && e.top is None ==> spec_resolve(ls).margin.top == 0,
        ls.margin matches Some(e) && e.right is None ==> spec_resolve(ls).margin.right == 0,
        ls.margin matches Some(e) && e.bottom is None ==> spec_resolve(ls).margin.bottom == 0,
        ls.margin matches Some(e) && e.left is None ==> spec_resolve(ls).margin.left == 0,
        ls.padding matches Some(e) && e.top is None ==> spec_resolve(ls).padding.top == 0,
        ls.padding matches Some(e) && e.right is None ==> spec_resolve(ls).padding.right == 0,
        ls.padding matches Some(e) && e.bottom is None ==> spec_resolve(ls).padding.bottom == 0,
        ls.padding matches Some(e) && e.left is None ==> spec_resolve(ls).padding.left == 0,
        ls.border matches Some(e) && e.top is None ==> spec_resolve(ls).border.top == 0,
        ls.border matches Some(e) && e.right is None ==> spec_resolve(ls).border.right == 0,
        ls.border matches Some(e) && e.bottom is None ==> spec_resolve(ls).border.bottom == 0,
        ls.border matches Some(e) && e.left is None ==> spec_resolve(ls).border.left == 0,
{
}

} // verus!
