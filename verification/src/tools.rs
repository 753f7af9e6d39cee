//! The drawing tools: their names, families, how many points each takes, and what each offers
//! (text, levels, fill, extension), plus the names of the waves of an Elliott drawing.

use vstd::prelude::*;

use crate::text::{chars_of, push_char, push_chars, same_chars, trim_chars, trimmed};

verus! {

/// The most drawings kept for one symbol, and the most points in one brush stroke. A guard
/// against a runaway file more than a limit anyone meets.
pub const MAX_DRAWINGS_PER_SYMBOL: usize = 2_000;
pub const MAX_BRUSH_POINTS: usize = 2_000;
/// The most points an arrow path can have.
pub const MAX_PATH_POINTS: usize = 64;
/// The most levels a drawing can have.
pub const MAX_LEVELS: usize = 24;
/// The version of the saved drawings document.
pub const SCHEMA_VERSION: u32 = 1;

/// The kinds of drawing. Their codes are written in saved files and never change.
#[derive(Debug, Clone, Copy, PartialEq, Eq, Structural, Hash, PartialOrd, Ord)]
pub enum Tool {
    TrendLine,
    Ray,
    ExtendedLine,
    HorizontalLine,
    HorizontalRay,
    VerticalLine,
    CrossLine,
    Arrow,
    /// A broken line of as many points as the user places, with an arrow head at the end.
    ArrowPath,
    /// A line with the change, the bars, the time and the angle written beside it.
    InfoLine,
    /// A line with its angle to the horizontal.
    TrendAngle,
    ParallelChannel,
    /// The linear regression of the closes between two times, with its deviation bands.
    RegressionTrend,
    /// A trend line with a flat line under or over it.
    FlatTopBottom,
    /// Two lines that need not be parallel, with the zone between them.
    DisjointChannel,
    Pitchfork,
    SchiffPitchfork,
    ModifiedSchiffPitchfork,
    InsidePitchfork,
    /// Rays from a point through the levels of the segment between two others.
    Pitchfan,
    FibRetracement,
    FibExtension,
    FibChannel,
    FibTimeZone,
    FibFan,
    /// The time zones of a move, repeated from a third point.
    FibTimeExtension,
    FibCircles,
    FibSpiral,
    FibArcs,
    FibWedge,
    GannFan,
    GannBox,
    GannSquare,
    /// A Gann square that is square on the screen, whatever the scale.
    GannSquareFixed,
    Xabcd,
    Cypher,
    Abcd,
    HeadAndShoulders,
    TrianglePattern,
    ThreeDrives,
    CyclicLines,
    TimeCycles,
    SineLine,
    ElliottImpulse,
    ElliottCorrection,
    ElliottTriangle,
    ElliottDoubleCombo,
    ElliottTripleCombo,
    Rectangle,
    RotatedRectangle,
    Circle,
    Ellipse,
    Triangle,
    Arc,
    Curve,
    DoubleCurve,
    Brush,
    Highlighter,
    /// A block arrow between two points.
    ArrowMarker,
    ArrowMarkUp,
    ArrowMarkDown,
    Measure,
    PriceRange,
    DateRange,
    DatePriceRange,
    LongPosition,
    ShortPosition,
    /// An arrow to a target, with the move it means written at its end.
    Forecast,
    /// The bars between two times, copied to start at a third point.
    BarsPattern,
    /// Bars made up from the moves of the bars between two times, from a third point.
    GhostFeed,
    AnchoredVwap,
    FixedRangeVolumeProfile,
    AnchoredVolumeProfile,
    Text,
    Note,
    PriceNote,
    Callout,
    Comment,
    Pin,
    Signpost,
    FlagMark,
    Table,
    Icon,
    PriceLabel,
    /// A tool a newer version wrote. Such drawings are dropped on load.
    Unknown,
}

/// The families of the toolbar.
#[derive(Debug, Clone, Copy, PartialEq, Eq, Structural, Hash)]
pub enum Group {
    Lines,
    Channels,
    Fibonacci,
    Gann,
    Patterns,
    Elliott,
    Shapes,
    Measure,
    Forecast,
    Annotations,
}

pub open spec fn group_label(g: Group) -> Seq<char> {
    match g {
        Group::Lines => "Lines"@,
        Group::Channels => "Channels and pitchforks"@,
        Group::Fibonacci => "Fibonacci"@,
        Group::Gann => "Gann"@,
        Group::Patterns => "Patterns"@,
        Group::Elliott => "Elliott waves"@,
        Group::Shapes => "Shapes"@,
        Group::Measure => "Measure and position"@,
        Group::Forecast => "Forecast and volume"@,
        Group::Annotations => "Annotations"@,
    }
}

impl Group {
    pub const ALL: [Group; 10] = [
        Group::Lines,
        Group::Channels,
        Group::Fibonacci,
        Group::Gann,
        Group::Patterns,
        Group::Elliott,
        Group::Shapes,
        Group::Measure,
        Group::Forecast,
        Group::Annotations,
    ];

    pub fn label(self) -> (s: &'static str)
        ensures
            s@ == group_label(self),
    {
        match self {
            Group::Lines => "Lines",
            Group::Channels => "Channels and pitchforks",
            Group::Fibonacci => "Fibonacci",
            Group::Gann => "Gann",
            Group::Patterns => "Patterns",
            Group::Elliott => "Elliott waves",
            Group::Shapes => "Shapes",
            Group::Measure => "Measure and position",
            Group::Forecast => "Forecast and volume",
            Group::Annotations => "Annotations",
        }
    }
}

/// The name a tool is shown under.
pub open spec fn tool_label(t: Tool) -> Seq<char> {
    match t {
        Tool::TrendLine => "Trend line"@,
        Tool::Ray => "Ray"@,
        Tool::ExtendedLine => "Extended line"@,
        Tool::HorizontalLine => "Horizontal line"@,
        Tool::HorizontalRay => "Horizontal ray"@,
        Tool::VerticalLine => "Vertical line"@,
        Tool::CrossLine => "Cross line"@,
        Tool::Arrow => "Arrow"@,
        Tool::ArrowPath => "Arrow path"@,
        Tool::InfoLine => "Info line"@,
        Tool::TrendAngle => "Trend angle"@,
        Tool::ParallelChannel => "Parallel channel"@,
        Tool::RegressionTrend => "Regression trend"@,
        Tool::FlatTopBottom => "Flat top/bottom"@,
        Tool::DisjointChannel => "Disjoint channel"@,
        Tool::Pitchfork => "Pitchfork"@,
        Tool::SchiffPitchfork => "Schiff pitchfork"@,
        Tool::ModifiedSchiffPitchfork => "Modified Schiff pitchfork"@,
        Tool::InsidePitchfork => "Inside pitchfork"@,
        Tool::Pitchfan => "Pitchfan"@,
        Tool::FibRetracement => "Fib retracement"@,
        Tool::FibExtension => "Trend-based fib extension"@,
        Tool::FibChannel => "Fib channel"@,
        Tool::FibTimeZone => "Fib time zone"@,
        Tool::FibFan => "Fib speed fan"@,
        Tool::FibTimeExtension => "Trend-based fib time"@,
        Tool::FibCircles => "Fib circles"@,
        Tool::FibSpiral => "Fib spiral"@,
        Tool::FibArcs => "Fib speed arcs"@,
        Tool::FibWedge => "Fib wedge"@,
        Tool::GannFan => "Gann fan"@,
        Tool::GannBox => "Gann box"@,
        Tool::GannSquare => "Gann square"@,
        Tool::GannSquareFixed => "Gann square fixed"@,
        Tool::Xabcd => "XABCD pattern"@,
        Tool::Cypher => "Cypher pattern"@,
        Tool::Abcd => "ABCD pattern"@,
        Tool::HeadAndShoulders => "Head and shoulders"@,
        Tool::TrianglePattern => "Triangle pattern"@,
        Tool::ThreeDrives => "Three drives pattern"@,
        Tool::CyclicLines => "Cyclic lines"@,
        Tool::TimeCycles => "Time cycles"@,
        Tool::SineLine => "Sine line"@,
        Tool::ElliottImpulse => "Elliott impulse wave (12345)"@,
        Tool::ElliottCorrection => "Elliott correction wave (ABC)"@,
        Tool::ElliottTriangle => "Elliott triangle wave (ABCDE)"@,
        Tool::ElliottDoubleCombo => "Elliott double combo (WXY)"@,
        Tool::ElliottTripleCombo => "Elliott triple combo (WXYXZ)"@,
        Tool::Rectangle => "Rectangle"@,
        Tool::RotatedRectangle => "Rotated rectangle"@,
        Tool::Circle => "Circle"@,
        Tool::Ellipse => "Ellipse"@,
        Tool::Triangle => "Triangle"@,
        Tool::Arc => "Arc"@,
        Tool::Curve => "Curve"@,
        Tool::DoubleCurve => "Double curve"@,
        Tool::Brush => "Brush"@,
        Tool::Highlighter => "Highlighter"@,
        Tool::ArrowMarker => "Arrow marker"@,
        Tool::ArrowMarkUp => "Arrow mark up"@,
        Tool::ArrowMarkDown => "Arrow mark down"@,
        Tool::Measure => "Measure"@,
        Tool::PriceRange => "Price range"@,
        Tool::DateRange => "Date range"@,
        Tool::DatePriceRange => "Date and price range"@,
        Tool::LongPosition => "Long position"@,
        Tool::ShortPosition => "Short position"@,
        Tool::Forecast => "Forecast"@,
        Tool::BarsPattern => "Bars pattern"@,
        Tool::GhostFeed => "Ghost feed"@,
        Tool::AnchoredVwap => "Anchored VWAP"@,
        Tool::FixedRangeVolumeProfile => "Fixed range volume profile"@,
        Tool::AnchoredVolumeProfile => "Anchored volume profile"@,
        Tool::Text => "Text"@,
        Tool::Note => "Note"@,
        Tool::PriceNote => "Price note"@,
        Tool::Callout => "Callout"@,
        Tool::Comment => "Comment"@,
        Tool::Pin => "Pin"@,
        Tool::Signpost => "Signpost"@,
        Tool::FlagMark => "Flag mark"@,
        Tool::Table => "Table"@,
        Tool::Icon => "Icon"@,
        Tool::PriceLabel => "Price label"@,
        Tool::Unknown => "Unknown"@,
    }
}

/// The code a tool is saved under: its name in snake case.
pub open spec fn tool_code(t: Tool) -> Seq<char> {
    match t {
        Tool::TrendLine => "trend_line"@,
        Tool::Ray => "ray"@,
        Tool::ExtendedLine => "extended_line"@,
        Tool::HorizontalLine => "horizontal_line"@,
        Tool::HorizontalRay => "horizontal_ray"@,
        Tool::VerticalLine => "vertical_line"@,
        Tool::CrossLine => "cross_line"@,
        Tool::Arrow => "arrow"@,
        Tool::ArrowPath => "arrow_path"@,
        Tool::InfoLine => "info_line"@,
        Tool::TrendAngle => "trend_angle"@,
        Tool::ParallelChannel => "parallel_channel"@,
        Tool::RegressionTrend => "regression_trend"@,
        Tool::FlatTopBottom => "flat_top_bottom"@,
        Tool::DisjointChannel => "disjoint_channel"@,
        Tool::Pitchfork => "pitchfork"@,
        Tool::SchiffPitchfork => "schiff_pitchfork"@,
        Tool::ModifiedSchiffPitchfork => "modified_schiff_pitchfork"@,
        Tool::InsidePitchfork => "inside_pitchfork"@,
        Tool::Pitchfan => "pitchfan"@,
        Tool::FibRetracement => "fib_retracement"@,
        Tool::FibExtension => "fib_extension"@,
        Tool::FibChannel => "fib_channel"@,
        Tool::FibTimeZone => "fib_time_zone"@,
        Tool::FibFan => "fib_fan"@,
        Tool::FibTimeExtension => "fib_time_extension"@,
        Tool::FibCircles => "fib_circles"@,
        Tool::FibSpiral => "fib_spiral"@,
        Tool::FibArcs => "fib_arcs"@,
        Tool::FibWedge => "fib_wedge"@,
        Tool::GannFan => "gann_fan"@,
        Tool::GannBox => "gann_box"@,
        Tool::GannSquare => "gann_square"@,
        Tool::GannSquareFixed => "gann_square_fixed"@,
        Tool::Xabcd => "xabcd"@,
        Tool::Cypher => "cypher"@,
        Tool::Abcd => "abcd"@,
        Tool::HeadAndShoulders => "head_and_shoulders"@,
        Tool::TrianglePattern => "triangle_pattern"@,
        Tool::ThreeDrives => "three_drives"@,
        Tool::CyclicLines => "cyclic_lines"@,
        Tool::TimeCycles => "time_cycles"@,
        Tool::SineLine => "sine_line"@,
        Tool::ElliottImpulse => "elliott_impulse"@,
        Tool::ElliottCorrection => "elliott_correction"@,
        Tool::ElliottTriangle => "elliott_triangle"@,
        Tool::ElliottDoubleCombo => "elliott_double_combo"@,
        Tool::ElliottTripleCombo => "elliott_triple_combo"@,
        Tool::Rectangle => "rectangle"@,
        Tool::RotatedRectangle => "rotated_rectangle"@,
        Tool::Circle => "circle"@,
        Tool::Ellipse => "ellipse"@,
        Tool::Triangle => "triangle"@,
        Tool::Arc => "arc"@,
        Tool::Curve => "curve"@,
        Tool::DoubleCurve => "double_curve"@,
        Tool::Brush => "brush"@,
        Tool::Highlighter => "highlighter"@,
        Tool::ArrowMarker => "arrow_marker"@,
        Tool::ArrowMarkUp => "arrow_mark_up"@,
        Tool::ArrowMarkDown => "arrow_mark_down"@,
        Tool::Measure => "measure"@,
        Tool::PriceRange => "price_range"@,
        Tool::DateRange => "date_range"@,
        Tool::DatePriceRange => "date_price_range"@,
        Tool::LongPosition => "long_position"@,
        Tool::ShortPosition => "short_position"@,
        Tool::Forecast => "forecast"@,
        Tool::BarsPattern => "bars_pattern"@,
        Tool::GhostFeed => "ghost_feed"@,
        Tool::AnchoredVwap => "anchored_vwap"@,
        Tool::FixedRangeVolumeProfile => "fixed_range_volume_profile"@,
        Tool::AnchoredVolumeProfile => "anchored_volume_profile"@,
        Tool::Text => "text"@,
        Tool::Note => "note"@,
        Tool::PriceNote => "price_note"@,
        Tool::Callout => "callout"@,
        Tool::Comment => "comment"@,
        Tool::Pin => "pin"@,
        Tool::Signpost => "signpost"@,
        Tool::FlagMark => "flag_mark"@,
        Tool::Table => "table"@,
        Tool::Icon => "icon"@,
        Tool::PriceLabel => "price_label"@,
        Tool::Unknown => "unknown"@,
    }
}

/// The family of the toolbar a tool is in.
pub open spec fn tool_group(t: Tool) -> Group {
    match t {
        Tool::TrendLine
        | Tool::Ray
        | Tool::ExtendedLine
        | Tool::HorizontalLine
        | Tool::HorizontalRay
        | Tool::VerticalLine
        | Tool::CrossLine
        | Tool::Arrow
        | Tool::ArrowPath
        | Tool::InfoLine
        | Tool::TrendAngle => Group::Lines,
        Tool::ParallelChannel
        | Tool::RegressionTrend
        | Tool::FlatTopBottom
        | Tool::DisjointChannel
        | Tool::Pitchfork
        | Tool::SchiffPitchfork
        | Tool::ModifiedSchiffPitchfork
        | Tool::InsidePitchfork
        | Tool::Pitchfan => Group::Channels,
        Tool::FibRetracement
        | Tool::FibExtension
        | Tool::FibChannel
        | Tool::FibTimeZone
        | Tool::FibFan
        | Tool::FibTimeExtension
        | Tool::FibCircles
        | Tool::FibSpiral
        | Tool::FibArcs
        | Tool::FibWedge => Group::Fibonacci,
        Tool::GannFan
        | Tool::GannBox
        | Tool::GannSquare
        | Tool::GannSquareFixed => Group::Gann,
        Tool::Xabcd
        | Tool::Cypher
        | Tool::Abcd
        | Tool::HeadAndShoulders
        | Tool::TrianglePattern
        | Tool::ThreeDrives
        | Tool::CyclicLines
        | Tool::TimeCycles
        | Tool::SineLine => Group::Patterns,
        Tool::ElliottImpulse
        | Tool::ElliottCorrection
        | Tool::ElliottTriangle
        | Tool::ElliottDoubleCombo
        | Tool::ElliottTripleCombo => Group::Elliott,
        Tool::Rectangle
        | Tool::RotatedRectangle
        | Tool::Circle
        | Tool::Ellipse
        | Tool::Triangle
        | Tool::Arc
        | Tool::Curve
        | Tool::DoubleCurve
        | Tool::Brush
        | Tool::Highlighter
        | Tool::ArrowMarker
        | Tool::ArrowMarkUp
        | Tool::ArrowMarkDown => Group::Shapes,
        Tool::Measure
        | Tool::PriceRange
        | Tool::DateRange
        | Tool::DatePriceRange
        | Tool::LongPosition
        | Tool::ShortPosition => Group::Measure,
        Tool::Forecast
        | Tool::BarsPattern
        | Tool::GhostFeed
        | Tool::AnchoredVwap
        | Tool::FixedRangeVolumeProfile
        | Tool::AnchoredVolumeProfile => Group::Forecast,
        Tool::Text
        | Tool::Note
        | Tool::PriceNote
        | Tool::Callout
        | Tool::Comment
        | Tool::Pin
        | Tool::Signpost
        | Tool::FlagMark
        | Tool::Table
        | Tool::Icon
        | Tool::PriceLabel
        | Tool::Unknown => Group::Annotations,
    }
}

/// How many points a tool needs (at least two for the ones that take as many as placed).
pub open spec fn tool_anchors(t: Tool) -> nat {
    match t {
        Tool::TrendLine
        | Tool::Ray
        | Tool::ExtendedLine
        | Tool::Arrow
        | Tool::ArrowPath
        | Tool::InfoLine
        | Tool::TrendAngle
        | Tool::RegressionTrend
        | Tool::FibRetracement
        | Tool::FibTimeZone
        | Tool::FibFan
        | Tool::FibCircles
        | Tool::FibSpiral
        | Tool::FibArcs
        | Tool::GannFan
        | Tool::GannBox
        | Tool::GannSquare
        | Tool::GannSquareFixed
        | Tool::CyclicLines
        | Tool::TimeCycles
        | Tool::SineLine
        | Tool::Rectangle
        | Tool::Circle
        | Tool::Ellipse
        | Tool::DoubleCurve
        | Tool::Brush
        | Tool::Highlighter
        | Tool::ArrowMarker
        | Tool::Measure
        | Tool::PriceRange
        | Tool::DateRange
        | Tool::DatePriceRange
        | Tool::Forecast
        | Tool::FixedRangeVolumeProfile
        | Tool::PriceNote
        | Tool::Callout => 2,
        Tool::HorizontalLine
        | Tool::HorizontalRay
        | Tool::VerticalLine
        | Tool::CrossLine
        | Tool::ArrowMarkUp
        | Tool::ArrowMarkDown
        | Tool::AnchoredVwap
        | Tool::AnchoredVolumeProfile
        | Tool::Text
        | Tool::Note
        | Tool::Comment
        | Tool::Pin
        | Tool::Signpost
        | Tool::FlagMark
        | Tool::Table
        | Tool::Icon
        | Tool::PriceLabel => 1,
        Tool::ParallelChannel
        | Tool::FlatTopBottom
        | Tool::Pitchfork
        | Tool::SchiffPitchfork
        | Tool::ModifiedSchiffPitchfork
        | Tool::InsidePitchfork
        | Tool::Pitchfan
        | Tool::FibExtension
        | Tool::FibChannel
        | Tool::FibTimeExtension
        | Tool::FibWedge
        | Tool::RotatedRectangle
        | Tool::Triangle
        | Tool::Arc
        | Tool::Curve
        | Tool::BarsPattern
        | Tool::GhostFeed => 3,
        Tool::DisjointChannel
        | Tool::Abcd
        | Tool::TrianglePattern
        | Tool::ElliottCorrection
        | Tool::ElliottDoubleCombo
        | Tool::LongPosition
        | Tool::ShortPosition => 4,
        Tool::Xabcd
        | Tool::Cypher => 5,
        Tool::HeadAndShoulders
        | Tool::ThreeDrives => 7,
        Tool::ElliottImpulse
        | Tool::ElliottTriangle
        | Tool::ElliottTripleCombo => 6,
        Tool::Unknown => 0,
    }
}

/// Tools laid out in the box between their two points, with a grip at every corner and side.
pub open spec fn is_box_spec(t: Tool) -> bool {
    (match t {
        Tool::Rectangle
        | Tool::Ellipse
        | Tool::GannBox
        | Tool::GannSquare
        | Tool::Measure
        | Tool::DatePriceRange => true,
        _ => false,
    })
}

/// The pitchforks.
pub open spec fn is_pitchfork_spec(t: Tool) -> bool {
    (match t {
        Tool::Pitchfork
        | Tool::SchiffPitchfork
        | Tool::ModifiedSchiffPitchfork
        | Tool::InsidePitchfork => true,
        _ => false,
    })
}

/// Tools with text the user can edit.
pub open spec fn has_text_spec(t: Tool) -> bool {
    (match t {
        Tool::Text
        | Tool::Note
        | Tool::PriceNote
        | Tool::Callout
        | Tool::Comment
        | Tool::Pin
        | Tool::Signpost
        | Tool::Table => true,
        _ => false,
    })
}

/// Tools whose lines can be extended past their points.
pub open spec fn has_extend_spec(t: Tool) -> bool {
    (match t {
        Tool::TrendLine
        | Tool::Arrow
        | Tool::InfoLine
        | Tool::TrendAngle
        | Tool::ParallelChannel
        | Tool::RegressionTrend
        | Tool::FlatTopBottom
        | Tool::DisjointChannel
        | Tool::SineLine
        | Tool::FibRetracement
        | Tool::FibExtension
        | Tool::FibChannel
        | Tool::Rectangle
        | Tool::HeadAndShoulders => true,
        _ => false,
    }) || is_pitchfork_spec(t)
}

/// Tools with an area that can be filled.
pub open spec fn has_fill_spec(t: Tool) -> bool {
    (match t {
        Tool::ParallelChannel
        | Tool::RegressionTrend
        | Tool::FlatTopBottom
        | Tool::DisjointChannel
        | Tool::Pitchfan
        | Tool::FibRetracement
        | Tool::FibExtension
        | Tool::FibChannel
        | Tool::FibFan
        | Tool::FibTimeExtension
        | Tool::FibWedge
        | Tool::GannFan
        | Tool::GannBox
        | Tool::GannSquare
        | Tool::GannSquareFixed
        | Tool::TimeCycles
        | Tool::Xabcd
        | Tool::Cypher
        | Tool::Abcd
        | Tool::HeadAndShoulders
        | Tool::TrianglePattern
        | Tool::Rectangle
        | Tool::RotatedRectangle
        | Tool::Circle
        | Tool::Ellipse
        | Tool::Triangle
        | Tool::Arc
        | Tool::PriceRange
        | Tool::DateRange
        | Tool::DatePriceRange
        | Tool::FixedRangeVolumeProfile
        | Tool::AnchoredVolumeProfile => true,
        _ => false,
    }) || is_pitchfork_spec(t)
}

/// Tools whose line style (solid, dashed, dotted) applies.
pub open spec fn has_dash_spec(t: Tool) -> bool {
    !(match t {
        Tool::Text
        | Tool::PriceLabel
        | Tool::Brush
        | Tool::Highlighter
        | Tool::Note
        | Tool::Comment
        | Tool::Pin
        | Tool::Signpost
        | Tool::FlagMark
        | Tool::Table
        | Tool::Icon
        | Tool::ArrowMarker
        | Tool::ArrowMarkUp
        | Tool::ArrowMarkDown
        | Tool::BarsPattern
        | Tool::GhostFeed
        | Tool::FixedRangeVolumeProfile
        | Tool::AnchoredVolumeProfile => true,
        _ => false,
    })
}

/// Tools whose line width applies.
pub open spec fn has_width_spec(t: Tool) -> bool {
    !(match t {
        Tool::Text
        | Tool::PriceLabel
        | Tool::Note
        | Tool::Comment
        | Tool::Pin
        | Tool::Signpost
        | Tool::FlagMark
        | Tool::Table
        | Tool::Icon
        | Tool::ArrowMarkUp
        | Tool::ArrowMarkDown
        | Tool::BarsPattern
        | Tool::GhostFeed
        | Tool::FixedRangeVolumeProfile
        | Tool::AnchoredVolumeProfile => true,
        _ => false,
    })
}

/// Tools whose levels can be drawn the other way round.
pub open spec fn has_reverse_spec(t: Tool) -> bool {
    (match t {
        Tool::FibRetracement
        | Tool::FibChannel
        | Tool::GannBox
        | Tool::FibSpiral => true,
        _ => false,
    })
}

/// Tools that come with levels (Fibonacci ratios, pitchfork lines, Gann angles).
pub open spec fn has_levels_spec(t: Tool) -> bool {
    (match t {
        Tool::FibRetracement
        | Tool::FibChannel
        | Tool::FibExtension
        | Tool::FibTimeZone
        | Tool::FibFan
        | Tool::Pitchfork
        | Tool::SchiffPitchfork
        | Tool::ModifiedSchiffPitchfork
        | Tool::InsidePitchfork
        | Tool::GannFan
        | Tool::FibTimeExtension
        | Tool::FibCircles
        | Tool::FibArcs
        | Tool::FibWedge
        | Tool::Pitchfan
        | Tool::RegressionTrend
        | Tool::AnchoredVwap
        | Tool::GannBox
        | Tool::GannSquare
        | Tool::GannSquareFixed => true,
        _ => false,
    })
}

/// Tools that write words on the chart (whose size and color can be set).
pub open spec fn has_words_spec(t: Tool) -> bool {
    ((tool_group(t) == Group::Patterns || tool_group(t) == Group::Elliott) && !(t == Tool::CyclicLines
        || t == Tool::TimeCycles || t == Tool::SineLine)) || t == Tool::PriceLabel || has_text_spec(t)
}

/// The name of the switch that turns a tool's own writing on and off.
pub open spec fn labels_switch_spec(t: Tool) -> Option<Seq<char>> {
    if has_levels_spec(t) {
        Some("Write the levels"@)
    } else if t == Tool::HorizontalLine {
        Some("Write the price"@)
    } else if t == Tool::InfoLine || t == Tool::TrendAngle || t == Tool::PriceRange || t
        == Tool::DateRange || t == Tool::DatePriceRange || t == Tool::Forecast {
        Some("Write the values"@)
    } else if has_words_spec(t) && !has_text_spec(t) && t != Tool::PriceLabel {
        Some("Write the names"@)
    } else {
        None
    }
}

/// The name of a tool's optional extra line.
pub open spec fn middle_label_spec(t: Tool) -> Option<Seq<char>> {
    match t {
        Tool::ParallelChannel | Tool::DisjointChannel => Some("Middle line"@),
        Tool::GannBox | Tool::GannSquare | Tool::GannSquareFixed => Some("Angles"@),
        Tool::Xabcd | Tool::Cypher | Tool::Abcd | Tool::ThreeDrives => Some("Ratios"@),
        _ => None,
    }
}

impl Tool {
    /// Every tool a user can pick, in toolbar order.
    pub const ALL: [Tool; 84] = [
        Tool::TrendLine,
        Tool::Ray,
        Tool::ExtendedLine,
        Tool::HorizontalLine,
        Tool::HorizontalRay,
        Tool::VerticalLine,
        Tool::CrossLine,
        Tool::Arrow,
        Tool::ArrowPath,
        Tool::InfoLine,
        Tool::TrendAngle,
        Tool::ParallelChannel,
        Tool::RegressionTrend,
        Tool::FlatTopBottom,
        Tool::DisjointChannel,
        Tool::Pitchfork,
        Tool::SchiffPitchfork,
        Tool::ModifiedSchiffPitchfork,
        Tool::InsidePitchfork,
        Tool::Pitchfan,
        Tool::FibRetracement,
        Tool::FibExtension,
        Tool::FibChannel,
        Tool::FibTimeZone,
        Tool::FibFan,
        Tool::FibTimeExtension,
        Tool::FibCircles,
        Tool::FibSpiral,
        Tool::FibArcs,
        Tool::FibWedge,
        Tool::GannFan,
        Tool::GannBox,
        Tool::GannSquare,
        Tool::GannSquareFixed,
        Tool::Xabcd,
        Tool::Cypher,
        Tool::Abcd,
        Tool::HeadAndShoulders,
        Tool::TrianglePattern,
        Tool::ThreeDrives,
        Tool::CyclicLines,
        Tool::TimeCycles,
        Tool::SineLine,
        Tool::ElliottImpulse,
        Tool::ElliottCorrection,
        Tool::ElliottTriangle,
        Tool::ElliottDoubleCombo,
        Tool::ElliottTripleCombo,
        Tool::Rectangle,
        Tool::RotatedRectangle,
        Tool::Circle,
        Tool::Ellipse,
        Tool::Triangle,
        Tool::Arc,
        Tool::Curve,
        Tool::DoubleCurve,
        Tool::Brush,
        Tool::Highlighter,
        Tool::ArrowMarker,
        Tool::ArrowMarkUp,
        Tool::ArrowMarkDown,
        Tool::Measure,
        Tool::PriceRange,
        Tool::DateRange,
        Tool::DatePriceRange,
        Tool::LongPosition,
        Tool::ShortPosition,
        Tool::Forecast,
        Tool::BarsPattern,
        Tool::GhostFeed,
        Tool::AnchoredVwap,
        Tool::FixedRangeVolumeProfile,
        Tool::AnchoredVolumeProfile,
        Tool::Text,
        Tool::Note,
        Tool::PriceNote,
        Tool::Callout,
        Tool::Comment,
        Tool::Pin,
        Tool::Signpost,
        Tool::FlagMark,
        Tool::Table,
        Tool::Icon,
        Tool::PriceLabel,
    ];

    pub fn label(self) -> (s: &'static str)
        ensures
            s@ == tool_label(self),
    {
        match self {
            Tool::TrendLine => "Trend line",
            Tool::Ray => "Ray",
            Tool::ExtendedLine => "Extended line",
            Tool::HorizontalLine => "Horizontal line",
            Tool::HorizontalRay => "Horizontal ray",
            Tool::VerticalLine => "Vertical line",
            Tool::CrossLine => "Cross line",
            Tool::Arrow => "Arrow",
            Tool::ArrowPath => "Arrow path",
            Tool::InfoLine => "Info line",
            Tool::TrendAngle => "Trend angle",
            Tool::ParallelChannel => "Parallel channel",
            Tool::RegressionTrend => "Regression trend",
            Tool::FlatTopBottom => "Flat top/bottom",
            Tool::DisjointChannel => "Disjoint channel",
            Tool::Pitchfork => "Pitchfork",
            Tool::SchiffPitchfork => "Schiff pitchfork",
            Tool::ModifiedSchiffPitchfork => "Modified Schiff pitchfork",
            Tool::InsidePitchfork => "Inside pitchfork",
            Tool::Pitchfan => "Pitchfan",
            Tool::FibRetracement => "Fib retracement",
            Tool::FibExtension => "Trend-based fib extension",
            Tool::FibChannel => "Fib channel",
            Tool::FibTimeZone => "Fib time zone",
            Tool::FibFan => "Fib speed fan",
            Tool::FibTimeExtension => "Trend-based fib time",
            Tool::FibCircles => "Fib circles",
            Tool::FibSpiral => "Fib spiral",
            Tool::FibArcs => "Fib speed arcs",
            Tool::FibWedge => "Fib wedge",
            Tool::GannFan => "Gann fan",
            Tool::GannBox => "Gann box",
            Tool::GannSquare => "Gann square",
            Tool::GannSquareFixed => "Gann square fixed",
            Tool::Xabcd => "XABCD pattern",
            Tool::Cypher => "Cypher pattern",
            Tool::Abcd => "ABCD pattern",
            Tool::HeadAndShoulders => "Head and shoulders",
            Tool::TrianglePattern => "Triangle pattern",
            Tool::ThreeDrives => "Three drives pattern",
            Tool::CyclicLines => "Cyclic lines",
            Tool::TimeCycles => "Time cycles",
            Tool::SineLine => "Sine line",
            Tool::ElliottImpulse => "Elliott impulse wave (12345)",
            Tool::ElliottCorrection => "Elliott correction wave (ABC)",
            Tool::ElliottTriangle => "Elliott triangle wave (ABCDE)",
            Tool::ElliottDoubleCombo => "Elliott double combo (WXY)",
            Tool::ElliottTripleCombo => "Elliott triple combo (WXYXZ)",
            Tool::Rectangle => "Rectangle",
            Tool::RotatedRectangle => "Rotated rectangle",
            Tool::Circle => "Circle",
            Tool::Ellipse => "Ellipse",
            Tool::Triangle => "Triangle",
            Tool::Arc => "Arc",
            Tool::Curve => "Curve",
            Tool::DoubleCurve => "Double curve",
            Tool::Brush => "Brush",
            Tool::Highlighter => "Highlighter",
            Tool::ArrowMarker => "Arrow marker",
            Tool::ArrowMarkUp => "Arrow mark up",
            Tool::ArrowMarkDown => "Arrow mark down",
            Tool::Measure => "Measure",
            Tool::PriceRange => "Price range",
            Tool::DateRange => "Date range",
            Tool::DatePriceRange => "Date and price range",
            Tool::LongPosition => "Long position",
            Tool::ShortPosition => "Short position",
            Tool::Forecast => "Forecast",
            Tool::BarsPattern => "Bars pattern",
            Tool::GhostFeed => "Ghost feed",
            Tool::AnchoredVwap => "Anchored VWAP",
            Tool::FixedRangeVolumeProfile => "Fixed range volume profile",
            Tool::AnchoredVolumeProfile => "Anchored volume profile",
            Tool::Text => "Text",
            Tool::Note => "Note",
            Tool::PriceNote => "Price note",
            Tool::Callout => "Callout",
            Tool::Comment => "Comment",
            Tool::Pin => "Pin",
            Tool::Signpost => "Signpost",
            Tool::FlagMark => "Flag mark",
            Tool::Table => "Table",
            Tool::Icon => "Icon",
            Tool::PriceLabel => "Price label",
            Tool::Unknown => "Unknown",
        }
    }

    /// The name the tool is saved under.
    pub fn code(self) -> (s: String)
        ensures
            s@ == tool_code(self),
    {
        let code: &str = match self {
            Tool::TrendLine => "trend_line",
            Tool::Ray => "ray",
            Tool::ExtendedLine => "extended_line",
            Tool::HorizontalLine => "horizontal_line",
            Tool::HorizontalRay => "horizontal_ray",
            Tool::VerticalLine => "vertical_line",
            Tool::CrossLine => "cross_line",
            Tool::Arrow => "arrow",
            Tool::ArrowPath => "arrow_path",
            Tool::InfoLine => "info_line",
            Tool::TrendAngle => "trend_angle",
            Tool::ParallelChannel => "parallel_channel",
            Tool::RegressionTrend => "regression_trend",
            Tool::FlatTopBottom => "flat_top_bottom",
            Tool::DisjointChannel => "disjoint_channel",
            Tool::Pitchfork => "pitchfork",
            Tool::SchiffPitchfork => "schiff_pitchfork",
            Tool::ModifiedSchiffPitchfork => "modified_schiff_pitchfork",
            Tool::InsidePitchfork => "inside_pitchfork",
            Tool::Pitchfan => "pitchfan",
            Tool::FibRetracement => "fib_retracement",
            Tool::FibExtension => "fib_extension",
            Tool::FibChannel => "fib_channel",
            Tool::FibTimeZone => "fib_time_zone",
            Tool::FibFan => "fib_fan",
            Tool::FibTimeExtension => "fib_time_extension",
            Tool::FibCircles => "fib_circles",
            Tool::FibSpiral => "fib_spiral",
            Tool::FibArcs => "fib_arcs",
            Tool::FibWedge => "fib_wedge",
            Tool::GannFan => "gann_fan",
            Tool::GannBox => "gann_box",
            Tool::GannSquare => "gann_square",
            Tool::GannSquareFixed => "gann_square_fixed",
            Tool::Xabcd => "xabcd",
            Tool::Cypher => "cypher",
            Tool::Abcd => "abcd",
            Tool::HeadAndShoulders => "head_and_shoulders",
            Tool::TrianglePattern => "triangle_pattern",
            Tool::ThreeDrives => "three_drives",
            Tool::CyclicLines => "cyclic_lines",
            Tool::TimeCycles => "time_cycles",
            Tool::SineLine => "sine_line",
            Tool::ElliottImpulse => "elliott_impulse",
            Tool::ElliottCorrection => "elliott_correction",
            Tool::ElliottTriangle => "elliott_triangle",
            Tool::ElliottDoubleCombo => "elliott_double_combo",
            Tool::ElliottTripleCombo => "elliott_triple_combo",
            Tool::Rectangle => "rectangle",
            Tool::RotatedRectangle => "rotated_rectangle",
            Tool::Circle => "circle",
            Tool::Ellipse => "ellipse",
            Tool::Triangle => "triangle",
            Tool::Arc => "arc",
            Tool::Curve => "curve",
            Tool::DoubleCurve => "double_curve",
            Tool::Brush => "brush",
            Tool::Highlighter => "highlighter",
            Tool::ArrowMarker => "arrow_marker",
            Tool::ArrowMarkUp => "arrow_mark_up",
            Tool::ArrowMarkDown => "arrow_mark_down",
            Tool::Measure => "measure",
            Tool::PriceRange => "price_range",
            Tool::DateRange => "date_range",
            Tool::DatePriceRange => "date_price_range",
            Tool::LongPosition => "long_position",
            Tool::ShortPosition => "short_position",
            Tool::Forecast => "forecast",
            Tool::BarsPattern => "bars_pattern",
            Tool::GhostFeed => "ghost_feed",
            Tool::AnchoredVwap => "anchored_vwap",
            Tool::FixedRangeVolumeProfile => "fixed_range_volume_profile",
            Tool::AnchoredVolumeProfile => "anchored_volume_profile",
            Tool::Text => "text",
            Tool::Note => "note",
            Tool::PriceNote => "price_note",
            Tool::Callout => "callout",
            Tool::Comment => "comment",
            Tool::Pin => "pin",
            Tool::Signpost => "signpost",
            Tool::FlagMark => "flag_mark",
            Tool::Table => "table",
            Tool::Icon => "icon",
            Tool::PriceLabel => "price_label",
            Tool::Unknown => "unknown",
        };
        code.to_owned()
    }

    pub fn group(self) -> (g: Group)
        ensures
            g == tool_group(self),
    {
        match self {
            Tool::TrendLine
            | Tool::Ray
            | Tool::ExtendedLine
            | Tool::HorizontalLine
            | Tool::HorizontalRay
            | Tool::VerticalLine
            | Tool::CrossLine
            | Tool::Arrow
            | Tool::ArrowPath
            | Tool::InfoLine
            | Tool::TrendAngle => Group::Lines,
            Tool::ParallelChannel
            | Tool::RegressionTrend
            | Tool::FlatTopBottom
            | Tool::DisjointChannel
            | Tool::Pitchfork
            | Tool::SchiffPitchfork
            | Tool::ModifiedSchiffPitchfork
            | Tool::InsidePitchfork
            | Tool::Pitchfan => Group::Channels,
            Tool::FibRetracement
            | Tool::FibExtension
            | Tool::FibChannel
            | Tool::FibTimeZone
            | Tool::FibFan
            | Tool::FibTimeExtension
            | Tool::FibCircles
            | Tool::FibSpiral
            | Tool::FibArcs
            | Tool::FibWedge => Group::Fibonacci,
            Tool::GannFan
            | Tool::GannBox
            | Tool::GannSquare
            | Tool::GannSquareFixed => Group::Gann,
            Tool::Xabcd
            | Tool::Cypher
            | Tool::Abcd
            | Tool::HeadAndShoulders
            | Tool::TrianglePattern
            | Tool::ThreeDrives
            | Tool::CyclicLines
            | Tool::TimeCycles
            | Tool::SineLine => Group::Patterns,
            Tool::ElliottImpulse
            | Tool::ElliottCorrection
            | Tool::ElliottTriangle
            | Tool::ElliottDoubleCombo
            | Tool::ElliottTripleCombo => Group::Elliott,
            Tool::Rectangle
            | Tool::RotatedRectangle
            | Tool::Circle
            | Tool::Ellipse
            | Tool::Triangle
            | Tool::Arc
            | Tool::Curve
            | Tool::DoubleCurve
            | Tool::Brush
            | Tool::Highlighter
            | Tool::ArrowMarker
            | Tool::ArrowMarkUp
            | Tool::ArrowMarkDown => Group::Shapes,
            Tool::Measure
            | Tool::PriceRange
            | Tool::DateRange
            | Tool::DatePriceRange
            | Tool::LongPosition
            | Tool::ShortPosition => Group::Measure,
            Tool::Forecast
            | Tool::BarsPattern
            | Tool::GhostFeed
            | Tool::AnchoredVwap
            | Tool::FixedRangeVolumeProfile
            | Tool::AnchoredVolumeProfile => Group::Forecast,
            Tool::Text
            | Tool::Note
            | Tool::PriceNote
            | Tool::Callout
            | Tool::Comment
            | Tool::Pin
            | Tool::Signpost
            | Tool::FlagMark
            | Tool::Table
            | Tool::Icon
            | Tool::PriceLabel
            | Tool::Unknown => Group::Annotations,
        }
    }

    /// How many points the tool needs. A brush, a highlighter or an arrow path takes as many as
    /// the user places, at least two.
    pub fn anchors(self) -> (n: usize)
        ensures
            n == tool_anchors(self),
    {
        match self {
            Tool::TrendLine
            | Tool::Ray
            | Tool::ExtendedLine
            | Tool::Arrow
            | Tool::ArrowPath
            | Tool::InfoLine
            | Tool::TrendAngle
            | Tool::RegressionTrend
            | Tool::FibRetracement
            | Tool::FibTimeZone
            | Tool::FibFan
            | Tool::FibCircles
            | Tool::FibSpiral
            | Tool::FibArcs
            | Tool::GannFan
            | Tool::GannBox
            | Tool::GannSquare
            | Tool::GannSquareFixed
            | Tool::CyclicLines
            | Tool::TimeCycles
            | Tool::SineLine
            | Tool::Rectangle
            | Tool::Circle
            | Tool::Ellipse
            | Tool::DoubleCurve
            | Tool::Brush
            | Tool::Highlighter
            | Tool::ArrowMarker
            | Tool::Measure
            | Tool::PriceRange
            | Tool::DateRange
            | Tool::DatePriceRange
            | Tool::Forecast
            | Tool::FixedRangeVolumeProfile
            | Tool::PriceNote
            | Tool::Callout => 2,
            Tool::HorizontalLine
            | Tool::HorizontalRay
            | Tool::VerticalLine
            | Tool::CrossLine
            | Tool::ArrowMarkUp
            | Tool::ArrowMarkDown
            | Tool::AnchoredVwap
            | Tool::AnchoredVolumeProfile
            | Tool::Text
            | Tool::Note
            | Tool::Comment
            | Tool::Pin
            | Tool::Signpost
            | Tool::FlagMark
            | Tool::Table
            | Tool::Icon
            | Tool::PriceLabel => 1,
            Tool::ParallelChannel
            | Tool::FlatTopBottom
            | Tool::Pitchfork
            | Tool::SchiffPitchfork
            | Tool::ModifiedSchiffPitchfork
            | Tool::InsidePitchfork
            | Tool::Pitchfan
            | Tool::FibExtension
            | Tool::FibChannel
            | Tool::FibTimeExtension
            | Tool::FibWedge
            | Tool::RotatedRectangle
            | Tool::Triangle
            | Tool::Arc
            | Tool::Curve
            | Tool::BarsPattern
            | Tool::GhostFeed => 3,
            Tool::DisjointChannel
            | Tool::Abcd
            | Tool::TrianglePattern
            | Tool::ElliottCorrection
            | Tool::ElliottDoubleCombo
            | Tool::LongPosition
            | Tool::ShortPosition => 4,
            Tool::Xabcd
            | Tool::Cypher => 5,
            Tool::HeadAndShoulders
            | Tool::ThreeDrives => 7,
            Tool::ElliottImpulse
            | Tool::ElliottTriangle
            | Tool::ElliottTripleCombo => 6,
            Tool::Unknown => 0,
        }
    }

    /// Whether a click places the last point and finishes, without a second click.
    pub fn is_single_click(self) -> (r: bool)
        ensures
            r == (tool_anchors(self) == 1 || self == Tool::LongPosition || self == Tool::ShortPosition),
    {
        self.anchors() == 1 || self.is_position()
    }

    pub fn is_position(self) -> (r: bool)
        ensures
            r == (self == Tool::LongPosition || self == Tool::ShortPosition),
    {
        matches!(self, Tool::LongPosition | Tool::ShortPosition)
    }

    /// Whether the drawing is a stroke that follows the pointer while the button is down.
    pub fn is_freehand(self) -> (r: bool)
        ensures
            r == (self == Tool::Brush || self == Tool::Highlighter),
    {
        matches!(self, Tool::Brush | Tool::Highlighter)
    }

    /// Whether the drawing is laid out in the box between its two points, with a grip at every
    /// corner and side.
    pub fn is_box(self) -> (r: bool)
        ensures
            r == is_box_spec(self),
    {
        matches!(
            self,
            Tool::Rectangle
                | Tool::Ellipse
                | Tool::GannBox
                | Tool::GannSquare
                | Tool::Measure
                | Tool::DatePriceRange
        )
    }


    pub fn is_pitchfork(self) -> (r: bool)
        ensures
            r == is_pitchfork_spec(self),
    {
        matches!(
            self,
            Tool::Pitchfork
                | Tool::SchiffPitchfork
                | Tool::ModifiedSchiffPitchfork
                | Tool::InsidePitchfork
        )
    }

    /// Whether the drawing has text the user can edit.
    pub fn has_text(self) -> (r: bool)
        ensures
            r == has_text_spec(self),
    {
        matches!(
            self,
            Tool::Text
                | Tool::Note
                | Tool::PriceNote
                | Tool::Callout
                | Tool::Comment
                | Tool::Pin
                | Tool::Signpost
                | Tool::Table
        )
    }

    /// Whether the drawing writes words on the chart (whose size and color can be set).
    pub fn has_words(self) -> (r: bool)
        ensures
            r == has_words_spec(self),
    {
        let g = self.group();
        ((g == Group::Patterns || g == Group::Elliott) && !matches!(
            self,
            Tool::CyclicLines | Tool::TimeCycles | Tool::SineLine
        )) || self == Tool::PriceLabel || self.has_text()
    }

    /// The name of the switch that turns the tool's own writing (levels, names, values) on and
    /// off, for a tool that has some.
    pub fn labels_switch(self) -> (r: Option<&'static str>)
        ensures
            match r {
                Some(s) => labels_switch_spec(self) == Some(s@),
                None => labels_switch_spec(self) is None,
            },
    {
        if self.has_levels() {
            return Some("Write the levels");
        }
        match self {
            Tool::HorizontalLine => Some("Write the price"),
            Tool::InfoLine
            | Tool::TrendAngle
            | Tool::PriceRange
            | Tool::DateRange
            | Tool::DatePriceRange
            | Tool::Forecast => Some("Write the values"),
            _ => if self.has_words() && !self.has_text() && self != Tool::PriceLabel {
                Some("Write the names")
            } else {
                None
            },
        }
    }

    /// Whether the drawing has levels (Fibonacci ratios, pitchfork lines, Gann angles).
    pub fn has_levels(self) -> (r: bool)
        ensures
            r == has_levels_spec(self),
    {
        matches!(
            self,
            Tool::FibRetracement
                | Tool::FibChannel
                | Tool::FibExtension
                | Tool::FibTimeZone
                | Tool::FibFan
                | Tool::Pitchfork
                | Tool::SchiffPitchfork
                | Tool::ModifiedSchiffPitchfork
                | Tool::InsidePitchfork
                | Tool::GannFan
                | Tool::FibTimeExtension
                | Tool::FibCircles
                | Tool::FibArcs
                | Tool::FibWedge
                | Tool::Pitchfan
                | Tool::RegressionTrend
                | Tool::AnchoredVwap
                | Tool::GannBox
                | Tool::GannSquare
                | Tool::GannSquareFixed
        )
    }

    /// Whether the drawing's lines can be extended past its points.
    pub fn has_extend(self) -> (r: bool)
        ensures
            r == has_extend_spec(self),
    {
        matches!(
            self,
            Tool::TrendLine
                | Tool::Arrow
                | Tool::InfoLine
                | Tool::TrendAngle
                | Tool::ParallelChannel
                | Tool::RegressionTrend
                | Tool::FlatTopBottom
                | Tool::DisjointChannel
                | Tool::SineLine
                | Tool::FibRetracement
                | Tool::FibExtension
                | Tool::FibChannel
                | Tool::Rectangle
                | Tool::HeadAndShoulders
        ) || self.is_pitchfork()
    }

    /// Whether the drawing has an area that can be filled.
    pub fn has_fill(self) -> (r: bool)
        ensures
            r == has_fill_spec(self),
    {
        matches!(
            self,
            Tool::ParallelChannel
                | Tool::RegressionTrend
                | Tool::FlatTopBottom
                | Tool::DisjointChannel
                | Tool::Pitchfan
                | Tool::FibRetracement
                | Tool::FibExtension
                | Tool::FibChannel
                | Tool::FibFan
                | Tool::FibTimeExtension
                | Tool::FibWedge
                | Tool::GannFan
                | Tool::GannBox
                | Tool::GannSquare
                | Tool::GannSquareFixed
                | Tool::TimeCycles
                | Tool::Xabcd
                | Tool::Cypher
                | Tool::Abcd
                | Tool::HeadAndShoulders
                | Tool::TrianglePattern
                | Tool::Rectangle
                | Tool::RotatedRectangle
                | Tool::Circle
                | Tool::Ellipse
                | Tool::Triangle
                | Tool::Arc
                | Tool::PriceRange
                | Tool::DateRange
                | Tool::DatePriceRange
                | Tool::FixedRangeVolumeProfile
                | Tool::AnchoredVolumeProfile
        ) || self.is_pitchfork()
    }

    /// Whether the line style (solid, dashed, dotted) applies.
    pub fn has_dash(self) -> (r: bool)
        ensures
            r == has_dash_spec(self),
    {
        !matches!(
            self,
            Tool::Text
                | Tool::PriceLabel
                | Tool::Brush
                | Tool::Highlighter
                | Tool::Note
                | Tool::Comment
                | Tool::Pin
                | Tool::Signpost
                | Tool::FlagMark
                | Tool::Table
                | Tool::Icon
                | Tool::ArrowMarker
                | Tool::ArrowMarkUp
                | Tool::ArrowMarkDown
                | Tool::BarsPattern
                | Tool::GhostFeed
                | Tool::FixedRangeVolumeProfile
                | Tool::AnchoredVolumeProfile
        )
    }

    /// Whether the width of the line applies.
    pub fn has_width(self) -> (r: bool)
        ensures
            r == has_width_spec(self),
    {
        !matches!(
            self,
            Tool::Text
                | Tool::PriceLabel
                | Tool::Note
                | Tool::Comment
                | Tool::Pin
                | Tool::Signpost
                | Tool::FlagMark
                | Tool::Table
                | Tool::Icon
                | Tool::ArrowMarkUp
                | Tool::ArrowMarkDown
                | Tool::BarsPattern
                | Tool::GhostFeed
                | Tool::FixedRangeVolumeProfile
                | Tool::AnchoredVolumeProfile
        )
    }

    /// The name of the drawing's optional extra line, if it has one: the middle of a channel,
    /// the diagonals of a Gann box.
    pub fn middle_label(self) -> (r: Option<&'static str>)
        ensures
            match r {
                Some(s) => middle_label_spec(self) == Some(s@),
                None => middle_label_spec(self) is None,
            },
    {
        match self {
            Tool::ParallelChannel | Tool::DisjointChannel => Some("Middle line"),
            Tool::GannBox | Tool::GannSquare | Tool::GannSquareFixed => Some("Angles"),
            Tool::Xabcd | Tool::Cypher | Tool::Abcd | Tool::ThreeDrives => Some("Ratios"),
            _ => None,
        }
    }

    /// Whether the levels can be drawn the other way round.
    pub fn has_reverse(self) -> (r: bool)
        ensures
            r == has_reverse_spec(self),
    {
        matches!(
            self,
            Tool::FibRetracement
                | Tool::FibChannel
                | Tool::GannBox
                | Tool::FibSpiral
        )
    }

    /// Whether the drawing labels its points with a wave degree.
    pub fn is_elliott(self) -> (r: bool)
        ensures
            r == (tool_group(self) == Group::Elliott),
    {
        self.group() == Group::Elliott
    }
}

/// The styles of a line.
#[derive(Debug, Clone, Copy, PartialEq, Eq, Structural)]
pub enum Dash {
    Solid,
    Dashed,
    Dotted,
}

impl Default for Dash {
    fn default() -> (d: Self)
        ensures
            d == Dash::Solid,
    {
        Dash::Solid
    }
}

/// The colors the style bar offers (`0xRRGGBB`).
pub const PALETTE: [u32; 8] = [
    0xffffff,
    0x4f8dff,
    0x00d492,
    0xff6467,
    0xffb900,
    0xc27aff,
    0x00d3f2,
    0x9ca3af,
];

/// The color a drawing has when its file says none.
pub fn default_color() -> (c: u32)
    ensures
        c == 0x4f8dff,
{
    0x4f8dff
}

/// The value of a switch a file leaves out: on.
pub fn yes() -> (b: bool)
    ensures
        b,
{
    true
}

/// The version a file without one is read as.
pub fn schema_version() -> (v: u32)
    ensures
        v == SCHEMA_VERSION,
{
    SCHEMA_VERSION
}

/// How the points of an Elliott wave are named, from the largest degree to the smallest.
pub const DEGREES: [&'static str; 7] = [
    "Supercycle",
    "Cycle",
    "Primary",
    "Intermediate",
    "Minor",
    "Minute",
    "Minuette",
];

/// The degree new waves start with: Minor, plain `1 2 3` and `A B C`.
pub const DEFAULT_DEGREE: u8 = 4;

/// The degree of a wave whose file says none.
pub fn default_degree() -> (d: u8)
    ensures
        d == DEFAULT_DEGREE,
{
    DEFAULT_DEGREE
}

/// `c` in lower case, for an ASCII capital; anything else as it is.
pub open spec fn ascii_lower(c: char) -> char {
    if 'A' <= c <= 'Z' {
        ((c as u32) + 32) as char
    } else {
        c
    }
}

pub open spec fn lower(s: Seq<char>) -> Seq<char> {
    s.map_values(|c: char| ascii_lower(c))
}

/// A wave number from one to five in roman numerals (capitals when `upper`); any other name as
/// it is.
pub open spec fn roman(t: Seq<char>, upper: bool) -> Seq<char> {
    if t == seq!['1'] {
        if upper { seq!['I'] } else { seq!['i'] }
    } else if t == seq!['2'] {
        if upper { seq!['I', 'I'] } else { seq!['i', 'i'] }
    } else if t == seq!['3'] {
        if upper { seq!['I', 'I', 'I'] } else { seq!['i', 'i', 'i'] }
    } else if t == seq!['4'] {
        if upper { seq!['I', 'V'] } else { seq!['i', 'v'] }
    } else if t == seq!['5'] {
        if upper { seq!['V'] } else { seq!['v'] }
    } else {
        t
    }
}

pub open spec fn in_parens(t: Seq<char>) -> Seq<char> {
    seq!['('] + t + seq![')']
}

/// The name of wave `name` at `degree`: `(I)`, `I`, `((1))`, `(1)`, `1`, `i` and `(i)` from the
/// largest degree down.
pub open spec fn wave_label_spec(name: Seq<char>, degree: u8) -> Seq<char> {
    if degree == 0 {
        in_parens(roman(name, true))
    } else if degree == 1 {
        roman(name, true)
    } else if degree == 2 {
        in_parens(in_parens(name))
    } else if degree == 3 {
        in_parens(name)
    } else if degree == 4 {
        name
    } else if degree == 5 {
        roman(lower(name), false)
    } else {
        in_parens(roman(lower(name), false))
    }
}

fn lower_chars(t: &Vec<char>) -> (out: Vec<char>)
    ensures
        out@ == lower(t@),
{
    let mut out: Vec<char> = Vec::new();
    let mut i: usize = 0;
    while i < t.len()
        invariant
            i <= t@.len(),
            out@ == lower(t@.subrange(0, i as int)),
        decreases t@.len() - i,
    {
        let c = t[i];
        let l = if 'A' <= c && c <= 'Z' {
            ((c as u8) + 32) as char
        } else {
            c
        };
        proof {
            assert(lower(t@.subrange(0, i + 1)) =~= lower(t@.subrange(0, i as int)).push(ascii_lower(c)));
        }
        out.push(l);
        i = i + 1;
    }
    proof {
        assert(t@.subrange(0, t@.len() as int) =~= t@);
    }
    out
}

fn is_one_char(t: &Vec<char>, c: char) -> (r: bool)
    ensures
        r == (t@ == seq![c]),
{
    let r = t.len() == 1 && t[0] == c;
    proof {
        if t@.len() == 1 && t@[0] == c {
            assert(t@ =~= seq![c]);
        }
    }
    r
}

fn roman_chars(t: &Vec<char>, upper: bool) -> (out: Vec<char>)
    ensures
        out@ == roman(t@, upper),
{
    let (i, v) = if upper { ('I', 'V') } else { ('i', 'v') };
    if is_one_char(t, '1') {
        vec![i]
    } else if is_one_char(t, '2') {
        vec![i, i]
    } else if is_one_char(t, '3') {
        vec![i, i, i]
    } else if is_one_char(t, '4') {
        vec![i, v]
    } else if is_one_char(t, '5') {
        vec![v]
    } else {
        let mut out: Vec<char> = Vec::new();
        let mut k: usize = 0;
        while k < t.len()
            invariant
                k <= t@.len(),
                out@ == t@.subrange(0, k as int),
            decreases t@.len() - k,
        {
            out.push(t[k]);
            k = k + 1;
            proof {
                assert(t@.subrange(0, k as int) == t@.subrange(0, k - 1).push(t@[k - 1]));
            }
        }
        proof {
            assert(t@.subrange(0, t@.len() as int) =~= t@);
        }
        out
    }
}

/// The name of wave `name` (a digit or a capital letter) at `degree`.
pub fn wave_label(name: &str, degree: u8) -> (r: String)
    ensures
        r@ == wave_label_spec(name@, degree),
{
    let chars = chars_of(name);
    let mut s = String::new();
    if degree == 0 || degree == 6 || degree > 6 || degree == 3 || degree == 2 {
        push_char(&mut s, '(');
    }
    if degree == 2 {
        push_char(&mut s, '(');
    }
    let body = if degree <= 1 {
        roman_chars(&chars, true)
    } else if degree <= 4 {
        chars
    } else {
        let low = lower_chars(&chars);
        roman_chars(&low, false)
    };
    push_chars(&mut s, &body);
    if degree == 0 || degree >= 6 || degree == 3 || degree == 2 {
        push_char(&mut s, ')');
    }
    if degree == 2 {
        push_char(&mut s, ')');
    }
    proof {
        let r = wave_label_spec(name@, degree);
        if degree == 0 || degree >= 6 || degree == 3 {
            assert(s@ =~= r);
        } else if degree == 2 {
            assert(s@ =~= r);
        } else {
            assert(s@ =~= r);
        }
    }
    s
}

/// Which of a point's price and time can be typed: a position's stop and target sit at the
/// entry's time, and its end at the entry's price.
pub fn point_fields(tool: Tool, index: usize) -> (r: (bool, bool))
    ensures
        r == if tool == Tool::LongPosition || tool == Tool::ShortPosition {
            if index == 0 {
                (true, true)
            } else if index == 1 || index == 2 {
                (true, false)
            } else {
                (false, true)
            }
        } else {
            (true, true)
        },
{
    if tool.is_position() {
        match index {
            0 => (true, true),
            1 | 2 => (true, false),
            _ => (false, true),
        }
    } else {
        (true, true)
    }
}

/// A number that tells the labels of the tools apart: the length, the first letter and the last
/// two letters of a label.
spec fn label_key(s: Seq<char>) -> int {
    ((s.len() * 0x110000 + s[0] as int) * 0x110000 + s[s.len() - 1] as int) * 0x110000
        + s[s.len() - 2] as int
}

/// The key of each tool's label, worked out.
spec fn tool_key(t: Tool) -> int {
    match t {
        Tool::TrendLine => 13828969870533132398,
        Tool::Ray => 4148761464008147041,
        Tool::ExtendedLine => 17977610933588263022,
        Tool::HorizontalLine => 20743387778483814510,
        Tool::HorizontalRay => 19360501217926643809,
        Tool::VerticalLine => 17977632034762588270,
        Tool::CrossLine => 13828948769358807150,
        Tool::Arrow => 6914513483990499439,
        Tool::ArrowPath => 13828946286871052404,
        Tool::InfoLine => 12446069656252645486,
        Tool::TrendAngle => 15211856431112585324,
        Tool::ParallelChannel => 22126284269035454565,
        Tool::RegressionTrend => 22126286751517638766,
        Tool::FlatTopBottom => 20743385296001630319,
        Tool::DisjointChannel => 22126269374088872037,
        Tool::Pitchfork => 12446078344978169970,
        Tool::SchiffPitchfork => 22126287992770986098,
        Tool::ModifiedSchiffPitchfork => 34572259590512771186,
        Tool::InsidePitchfork => 22126275580315500658,
        Tool::Pitchfan => 11063191784402059361,
        Tool::FibRetracement => 20743385296009429102,
        Tool::FibExtension => 34572268279234953327,
        Tool::FibChannel => 15211839053682704485,
        Tool::FibTimeZone => 17977612174833811566,
        Tool::FibFan => 17977612174843838561,
        Tool::FibTimeExtension => 27657835476327661677,
        Tool::FibCircles => 15211839053690503269,
        Tool::FibSpiral => 13828952493103251553,
        Tool::FibArcs => 19360498735428862051,
        Tool::FibWedge => 12446065932515999847,
        Tool::GannFan => 11063180613192122465,
        Tool::GannBox => 11063180613203263599,
        Tool::GannSquare => 15211840294920454258,
        Tool::GannSquareFixed => 23509159658396057701,
        Tool::Xabcd => 17977634517263712370,
        Tool::Cypher => 19360495011686645874,
        Tool::Abcd => 16594719408036642930,
        Tool::HeadAndShoulders => 24892047460237770866,
        Tool::TrianglePattern => 22126289234019876978,
        Tool::ThreeDrives => 27657835476337688690,
        Tool::CyclicLines => 16594721890533310565,
        Tool::TimeCycles => 15211856431128182885,
        Tool::SineLine => 12446082068708130926,
        Tool::ElliottImpulse => 38720909342213210165,
        Tool::ElliottCorrection => 40103795902792663107,
        Tool::ElliottTriangle => 40103795902792663109,
        Tool::ElliottDoubleCombo => 35955136221054304345,
        Tool::ElliottTripleCombo => 38720909342213210202,
        Tool::Rectangle => 12446080827462582380,
        Tool::RotatedRectangle => 23509173312098205804,
        Tool::Circle => 8297402527040995436,
        Tool::Ellipse => 9680291570111545459,
        Tool::Triangle => 11063196749374226540,
        Tool::Arc => 4148740362809311346,
        Tool::Curve => 6914515966461542518,
        Tool::DoubleCurve => 16594723131763261558,
        Tool::Brush => 6914514725219336307,
        Tool::Highlighter => 15211841536180486245,
        Tool::ArrowMarker => 16594719408041099365,
        Tool::ArrowMarkUp => 17977605968618324085,
        Tool::ArrowMarkDown => 20743379089775001719,
        Tool::Measure => 9680301500075933810,
        Tool::PriceRange => 15211851466130391143,
        Tool::DateRange => 13828950010604355687,
        Tool::DatePriceRange => 27657815616398884967,
        Tool::LongPosition => 17977619622317129839,
        Tool::ShortPosition => 19360514871615422575,
        Tool::Forecast => 11063179371953258611,
        Tool::BarsPattern => 16594720649282191474,
        Tool::GhostFeed => 13828953734339887205,
        Tool::AnchoredVwap => 17977605968582672449,
        Tool::FixedRangeVolumeProfile => 35955137462366699628,
        Tool::AnchoredVolumeProfile => 31806471574400598124,
        Tool::Text => 5531650507073126520,
        Tool::Note => 5531643059583123572,
        Tool::PriceNote => 13828964905550938228,
        Tool::Callout => 9680289087637160053,
        Tool::Comment => 9680289087637160046,
        Tool::Pin => 4148758981504794729,
        Tool::Signpost => 11063195508145389683,
        Tool::FlagMark => 12446065932522684530,
        Tool::Table => 6914537067635867756,
        Tool::Icon => 5531636853365407855,
        Tool::PriceLabel => 15211851466138189925,
        Tool::Unknown => 9680311430050349175,
    }
}

/// The tool whose label has the key `k`.
spec fn tool_of_key(k: int) -> Tool {
    if k == 13828969870533132398 { Tool::TrendLine }
    else if k == 4148761464008147041 { Tool::Ray }
    else if k == 17977610933588263022 { Tool::ExtendedLine }
    else if k == 20743387778483814510 { Tool::HorizontalLine }
    else if k == 19360501217926643809 { Tool::HorizontalRay }
    else if k == 17977632034762588270 { Tool::VerticalLine }
    else if k == 13828948769358807150 { Tool::CrossLine }
    else if k == 6914513483990499439 { Tool::Arrow }
    else if k == 13828946286871052404 { Tool::ArrowPath }
    else if k == 12446069656252645486 { Tool::InfoLine }
    else if k == 15211856431112585324 { Tool::TrendAngle }
    else if k == 22126284269035454565 { Tool::ParallelChannel }
    else if k == 22126286751517638766 { Tool::RegressionTrend }
    else if k == 20743385296001630319 { Tool::FlatTopBottom }
    else if k == 22126269374088872037 { Tool::DisjointChannel }
    else if k == 12446078344978169970 { Tool::Pitchfork }
    else if k == 22126287992770986098 { Tool::SchiffPitchfork }
    else if k == 34572259590512771186 { Tool::ModifiedSchiffPitchfork }
    else if k == 22126275580315500658 { Tool::InsidePitchfork }
    else if k == 11063191784402059361 { Tool::Pitchfan }
    else if k == 20743385296009429102 { Tool::FibRetracement }
    else if k == 34572268279234953327 { Tool::FibExtension }
    else if k == 15211839053682704485 { Tool::FibChannel }
    else if k == 17977612174833811566 { Tool::FibTimeZone }
    else if k == 17977612174843838561 { Tool::FibFan }
    else if k == 27657835476327661677 { Tool::FibTimeExtension }
    else if k == 15211839053690503269 { Tool::FibCircles }
    else if k == 13828952493103251553 { Tool::FibSpiral }
    else if k == 19360498735428862051 { Tool::FibArcs }
    else if k == 12446065932515999847 { Tool::FibWedge }
    else if k == 11063180613192122465 { Tool::GannFan }
    else if k == 11063180613203263599 { Tool::GannBox }
    else if k == 15211840294920454258 { Tool::GannSquare }
    else if k == 23509159658396057701 { Tool::GannSquareFixed }
    else if k == 17977634517263712370 { Tool::Xabcd }
    else if k == 19360495011686645874 { Tool::Cypher }
    else if k == 16594719408036642930 { Tool::Abcd }
    else if k == 24892047460237770866 { Tool::HeadAndShoulders }
    else if k == 22126289234019876978 { Tool::TrianglePattern }
    else if k == 27657835476337688690 { Tool::ThreeDrives }
    else if k == 16594721890533310565 { Tool::CyclicLines }
    else if k == 15211856431128182885 { Tool::TimeCycles }
    else if k == 12446082068708130926 { Tool::SineLine }
    else if k == 38720909342213210165 { Tool::ElliottImpulse }
    else if k == 40103795902792663107 { Tool::ElliottCorrection }
    else if k == 40103795902792663109 { Tool::ElliottTriangle }
    else if k == 35955136221054304345 { Tool::ElliottDoubleCombo }
    else if k == 38720909342213210202 { Tool::ElliottTripleCombo }
    else if k == 12446080827462582380 { Tool::Rectangle }
    else if k == 23509173312098205804 { Tool::RotatedRectangle }
    else if k == 8297402527040995436 { Tool::Circle }
    else if k == 9680291570111545459 { Tool::Ellipse }
    else if k == 11063196749374226540 { Tool::Triangle }
    else if k == 4148740362809311346 { Tool::Arc }
    else if k == 6914515966461542518 { Tool::Curve }
    else if k == 16594723131763261558 { Tool::DoubleCurve }
    else if k == 6914514725219336307 { Tool::Brush }
    else if k == 15211841536180486245 { Tool::Highlighter }
    else if k == 16594719408041099365 { Tool::ArrowMarker }
    else if k == 17977605968618324085 { Tool::ArrowMarkUp }
    else if k == 20743379089775001719 { Tool::ArrowMarkDown }
    else if k == 9680301500075933810 { Tool::Measure }
    else if k == 15211851466130391143 { Tool::PriceRange }
    else if k == 13828950010604355687 { Tool::DateRange }
    else if k == 27657815616398884967 { Tool::DatePriceRange }
    else if k == 17977619622317129839 { Tool::LongPosition }
    else if k == 19360514871615422575 { Tool::ShortPosition }
    else if k == 11063179371953258611 { Tool::Forecast }
    else if k == 16594720649282191474 { Tool::BarsPattern }
    else if k == 13828953734339887205 { Tool::GhostFeed }
    else if k == 17977605968582672449 { Tool::AnchoredVwap }
    else if k == 35955137462366699628 { Tool::FixedRangeVolumeProfile }
    else if k == 31806471574400598124 { Tool::AnchoredVolumeProfile }
    else if k == 5531650507073126520 { Tool::Text }
    else if k == 5531643059583123572 { Tool::Note }
    else if k == 13828964905550938228 { Tool::PriceNote }
    else if k == 9680289087637160053 { Tool::Callout }
    else if k == 9680289087637160046 { Tool::Comment }
    else if k == 4148758981504794729 { Tool::Pin }
    else if k == 11063195508145389683 { Tool::Signpost }
    else if k == 12446065932522684530 { Tool::FlagMark }
    else if k == 6914537067635867756 { Tool::Table }
    else if k == 5531636853365407855 { Tool::Icon }
    else if k == 15211851466138189925 { Tool::PriceLabel }
    else { Tool::Unknown }
}

proof fn lemma_label_key(t: Tool)
    ensures
        tool_label(t).len() >= 2,
        label_key(tool_label(t)) == tool_key(t),
{
    match t {
        Tool::TrendLine => reveal_strlit("Trend line"),
        Tool::Ray => reveal_strlit("Ray"),
        Tool::ExtendedLine => reveal_strlit("Extended line"),
        Tool::HorizontalLine => reveal_strlit("Horizontal line"),
        Tool::HorizontalRay => reveal_strlit("Horizontal ray"),
        Tool::VerticalLine => reveal_strlit("Vertical line"),
        Tool::CrossLine => reveal_strlit("Cross line"),
        Tool::Arrow => reveal_strlit("Arrow"),
        Tool::ArrowPath => reveal_strlit("Arrow path"),
        Tool::InfoLine => reveal_strlit("Info line"),
        Tool::TrendAngle => reveal_strlit("Trend angle"),
        Tool::ParallelChannel => reveal_strlit("Parallel channel"),
        Tool::RegressionTrend => reveal_strlit("Regression trend"),
        Tool::FlatTopBottom => reveal_strlit("Flat top/bottom"),
        Tool::DisjointChannel => reveal_strlit("Disjoint channel"),
        Tool::Pitchfork => reveal_strlit("Pitchfork"),
        Tool::SchiffPitchfork => reveal_strlit("Schiff pitchfork"),
        Tool::ModifiedSchiffPitchfork => reveal_strlit("Modified Schiff pitchfork"),
        Tool::InsidePitchfork => reveal_strlit("Inside pitchfork"),
        Tool::Pitchfan => reveal_strlit("Pitchfan"),
        Tool::FibRetracement => reveal_strlit("Fib retracement"),
        Tool::FibExtension => reveal_strlit("Trend-based fib extension"),
        Tool::FibChannel => reveal_strlit("Fib channel"),
        Tool::FibTimeZone => reveal_strlit("Fib time zone"),
        Tool::FibFan => reveal_strlit("Fib speed fan"),
        Tool::FibTimeExtension => reveal_strlit("Trend-based fib time"),
        Tool::FibCircles => reveal_strlit("Fib circles"),
        Tool::FibSpiral => reveal_strlit("Fib spiral"),
        Tool::FibArcs => reveal_strlit("Fib speed arcs"),
        Tool::FibWedge => reveal_strlit("Fib wedge"),
        Tool::GannFan => reveal_strlit("Gann fan"),
        Tool::GannBox => reveal_strlit("Gann box"),
        Tool::GannSquare => reveal_strlit("Gann square"),
        Tool::GannSquareFixed => reveal_strlit("Gann square fixed"),
        Tool::Xabcd => reveal_strlit("XABCD pattern"),
        Tool::Cypher => reveal_strlit("Cypher pattern"),
        Tool::Abcd => reveal_strlit("ABCD pattern"),
        Tool::HeadAndShoulders => reveal_strlit("Head and shoulders"),
        Tool::TrianglePattern => reveal_strlit("Triangle pattern"),
        Tool::ThreeDrives => reveal_strlit("Three drives pattern"),
        Tool::CyclicLines => reveal_strlit("Cyclic lines"),
        Tool::TimeCycles => reveal_strlit("Time cycles"),
        Tool::SineLine => reveal_strlit("Sine line"),
        Tool::ElliottImpulse => reveal_strlit("Elliott impulse wave (12345)"),
        Tool::ElliottCorrection => reveal_strlit("Elliott correction wave (ABC)"),
        Tool::ElliottTriangle => reveal_strlit("Elliott triangle wave (ABCDE)"),
        Tool::ElliottDoubleCombo => reveal_strlit("Elliott double combo (WXY)"),
        Tool::ElliottTripleCombo => reveal_strlit("Elliott triple combo (WXYXZ)"),
        Tool::Rectangle => reveal_strlit("Rectangle"),
        Tool::RotatedRectangle => reveal_strlit("Rotated rectangle"),
        Tool::Circle => reveal_strlit("Circle"),
        Tool::Ellipse => reveal_strlit("Ellipse"),
        Tool::Triangle => reveal_strlit("Triangle"),
        Tool::Arc => reveal_strlit("Arc"),
        Tool::Curve => reveal_strlit("Curve"),
        Tool::DoubleCurve => reveal_strlit("Double curve"),
        Tool::Brush => reveal_strlit("Brush"),
        Tool::Highlighter => reveal_strlit("Highlighter"),
        Tool::ArrowMarker => reveal_strlit("Arrow marker"),
        Tool::ArrowMarkUp => reveal_strlit("Arrow mark up"),
        Tool::ArrowMarkDown => reveal_strlit("Arrow mark down"),
        Tool::Measure => reveal_strlit("Measure"),
        Tool::PriceRange => reveal_strlit("Price range"),
        Tool::DateRange => reveal_strlit("Date range"),
        Tool::DatePriceRange => reveal_strlit("Date and price range"),
        Tool::LongPosition => reveal_strlit("Long position"),
        Tool::ShortPosition => reveal_strlit("Short position"),
        Tool::Forecast => reveal_strlit("Forecast"),
        Tool::BarsPattern => reveal_strlit("Bars pattern"),
        Tool::GhostFeed => reveal_strlit("Ghost feed"),
        Tool::AnchoredVwap => reveal_strlit("Anchored VWAP"),
        Tool::FixedRangeVolumeProfile => reveal_strlit("Fixed range volume profile"),
        Tool::AnchoredVolumeProfile => reveal_strlit("Anchored volume profile"),
        Tool::Text => reveal_strlit("Text"),
        Tool::Note => reveal_strlit("Note"),
        Tool::PriceNote => reveal_strlit("Price note"),
        Tool::Callout => reveal_strlit("Callout"),
        Tool::Comment => reveal_strlit("Comment"),
        Tool::Pin => reveal_strlit("Pin"),
        Tool::Signpost => reveal_strlit("Signpost"),
        Tool::FlagMark => reveal_strlit("Flag mark"),
        Tool::Table => reveal_strlit("Table"),
        Tool::Icon => reveal_strlit("Icon"),
        Tool::PriceLabel => reveal_strlit("Price label"),
        Tool::Unknown => reveal_strlit("Unknown"),
    }
}

proof fn lemma_key_names_the_tool(t: Tool)
    ensures
        tool_of_key(tool_key(t)) == t,
{
}

/// Every tool has a label, and no two tools share one.
pub proof fn law_every_tool_has_its_own_label(t1: Tool, t2: Tool)
    ensures
        tool_label(t1).len() > 0,
        t1 != t2 ==> tool_label(t1) != tool_label(t2),
{
    lemma_label_key(t1);
    lemma_label_key(t2);
    lemma_key_names_the_tool(t1);
    lemma_key_names_the_tool(t2);
}

/// The names the list of coordinates gives the points of a figure, where its figure names them: a
/// position's entry, stop, target and end; the X, A, B, C and D of a harmonic pattern; the A, B, C
/// and D of an ABCD or a triangle pattern; the seven points of a head and shoulders; the handle and
/// tines of a pitchfork. (The waves of an Elliott figure and the points of the other tools are
/// numbered instead.)
pub open spec fn named_points(t: Tool) -> Seq<Seq<char>> {
    if t == Tool::LongPosition || t == Tool::ShortPosition {
        seq!["Entry"@, "Stop"@, "Target"@, "End"@]
    } else if t == Tool::Xabcd || t == Tool::Cypher {
        seq!["X"@, "A"@, "B"@, "C"@, "D"@]
    } else if t == Tool::Abcd || t == Tool::TrianglePattern {
        seq!["A"@, "B"@, "C"@, "D"@]
    } else if t == Tool::HeadAndShoulders {
        seq![
            "Start"@,
            "Left shoulder"@,
            "Neckline 1"@,
            "Head"@,
            "Neckline 2"@,
            "Right shoulder"@,
            "End"@,
        ]
    } else if is_pitchfork_spec(t) {
        seq!["Handle"@, "Tine 1"@, "Tine 2"@]
    } else {
        Seq::empty()
    }
}

/// A figure whose points have names takes exactly one point per name: drawing an XABCD is done
/// after its fifth point, D, and a head and shoulders after its seventh.
pub proof fn law_a_figure_takes_a_point_per_name(t: Tool)
    ensures
        named_points(t).len() > 0 ==> tool_anchors(t) == named_points(t).len(),
{
}

/// The points each tool takes, by the figure it draws.
pub proof fn law_each_tool_takes_the_points_of_its_figure(t: Tool)
    ensures
        // A tool that is not known takes no point.
        t == Tool::Unknown ==> tool_anchors(t) == 0,
        // A single point: a horizontal or vertical line, a mark, a label, a text or a note.
        t == Tool::HorizontalLine || t == Tool::HorizontalRay || t == Tool::VerticalLine ||
            t == Tool::CrossLine || t == Tool::ArrowMarkUp || t == Tool::ArrowMarkDown ||
            t == Tool::AnchoredVwap || t == Tool::AnchoredVolumeProfile || t == Tool::Text ||
            t == Tool::Note || t == Tool::Comment || t == Tool::Pin || t == Tool::Signpost ||
            t == Tool::FlagMark || t == Tool::Table || t == Tool::Icon || t == Tool::PriceLabel ==> tool_anchors(t) == 1,
        // Two points: the two ends of a line, or two corners of a box, a range or a stroke to begin.
        t == Tool::TrendLine || t == Tool::Ray || t == Tool::ExtendedLine || t == Tool::Arrow ||
            t == Tool::ArrowPath || t == Tool::InfoLine || t == Tool::TrendAngle ||
            t == Tool::RegressionTrend || t == Tool::FibRetracement || t == Tool::FibTimeZone ||
            t == Tool::FibFan || t == Tool::FibCircles || t == Tool::FibSpiral ||
            t == Tool::FibArcs || t == Tool::GannFan || t == Tool::GannBox ||
            t == Tool::GannSquare || t == Tool::GannSquareFixed || t == Tool::CyclicLines ||
            t == Tool::TimeCycles || t == Tool::SineLine || t == Tool::Rectangle ||
            t == Tool::Circle || t == Tool::Ellipse || t == Tool::DoubleCurve ||
            t == Tool::Brush || t == Tool::Highlighter || t == Tool::ArrowMarker ||
            t == Tool::Measure || t == Tool::PriceRange || t == Tool::DateRange ||
            t == Tool::DatePriceRange || t == Tool::Forecast ||
            t == Tool::FixedRangeVolumeProfile || t == Tool::PriceNote || t == Tool::Callout ==> tool_anchors(t) == 2,
        // Three points: a channel's line and its width, a pitchfork's handle and tines, a triangle,
        // an arc or a curve.
        t == Tool::ParallelChannel || t == Tool::FlatTopBottom || t == Tool::Pitchfork ||
            t == Tool::SchiffPitchfork || t == Tool::ModifiedSchiffPitchfork ||
            t == Tool::InsidePitchfork || t == Tool::Pitchfan || t == Tool::FibExtension ||
            t == Tool::FibChannel || t == Tool::FibTimeExtension || t == Tool::FibWedge ||
            t == Tool::RotatedRectangle || t == Tool::Triangle || t == Tool::Arc ||
            t == Tool::Curve || t == Tool::BarsPattern || t == Tool::GhostFeed ==> tool_anchors(t) == 3,
        // Four points: a disjoint channel, an ABCD, a triangle pattern, an Elliott correction or
        // combination, and a position's entry, stop, target and end.
        t == Tool::DisjointChannel || t == Tool::Abcd || t == Tool::TrianglePattern ||
            t == Tool::ElliottCorrection || t == Tool::ElliottDoubleCombo ||
            t == Tool::LongPosition || t == Tool::ShortPosition ==> tool_anchors(t) == 4,
        // Five points: the X, A, B, C and D of a harmonic pattern.
        t == Tool::Xabcd || t == Tool::Cypher ==> tool_anchors(t) == 5,
        // Six points: the start and five waves of an Elliott impulse or triangle, or a triple
        // combination.
        t == Tool::ElliottImpulse || t == Tool::ElliottTriangle || t == Tool::ElliottTripleCombo ==> tool_anchors(t) == 6,
        // Seven points: a head and shoulders from start to end, and three drives.
        t == Tool::HeadAndShoulders || t == Tool::ThreeDrives ==> tool_anchors(t) == 7,
{
}

/// Every tool a user can pick takes at least one point, and a single-click tool exactly one
/// unless it is a position, which places all four of its own at once.
pub proof fn law_every_tool_takes_a_point(t: Tool)
    requires
        t != Tool::Unknown,
    ensures
        tool_anchors(t) >= 1,
        t == Tool::LongPosition || t == Tool::ShortPosition ==> tool_anchors(t) == 4,
        tool_anchors(t) <= 7,
{
}

/// A tool that writes the levels has levels, and a tool whose words are its own text gets no
/// switch for writing names.
pub proof fn law_label_switches_follow_what_a_tool_writes(t: Tool)
    ensures
        has_levels_spec(t) ==> labels_switch_spec(t) == Some("Write the levels"@),
        has_text_spec(t) && !has_levels_spec(t) && t != Tool::HorizontalLine && !(t == Tool::InfoLine
            || t == Tool::TrendAngle || t == Tool::PriceRange || t == Tool::DateRange || t
            == Tool::DatePriceRange || t == Tool::Forecast) ==> labels_switch_spec(t) is None,
        has_text_spec(t) ==> has_words_spec(t),
{
}

/// Whether a drawing of `tool` has the number of points its tool asks for: two or more (up to a
/// limit) for a stroke or an arrow path, exactly its anchors for the others, and never for a tool
/// that is not known.
pub open spec fn point_count_ok_spec(tool: Tool, count: nat) -> bool {
    match tool {
        Tool::Unknown => false,
        Tool::Brush | Tool::Highlighter => 2 <= count <= MAX_BRUSH_POINTS,
        Tool::ArrowPath => 2 <= count <= MAX_PATH_POINTS,
        _ => count == tool_anchors(tool),
    }
}

/// Whether a drawing of `tool` with `count` points has the points its tool asks for (the part of
/// a drawing's validity that does not look at the points themselves).
pub fn point_count_ok(tool: Tool, count: usize) -> (r: bool)
    ensures
        r == point_count_ok_spec(tool, count as nat),
{
    match tool {
        Tool::Unknown => false,
        Tool::Brush | Tool::Highlighter => 2 <= count && count <= MAX_BRUSH_POINTS,
        Tool::ArrowPath => 2 <= count && count <= MAX_PATH_POINTS,
        _ => count == tool.anchors(),
    }
}

/// What the list of drawings calls a drawing: the name given to it, else the first words of a
/// text, else the label of its tool.
pub open spec fn title_spec(name: Seq<char>, tool: Tool, text: Seq<char>) -> Seq<char> {
    if trimmed(name).len() > 0 {
        trimmed(name)
    } else if tool == Tool::Text && trimmed(text).len() > 0 {
        "Text: "@ + (if trimmed(text).len() <= 24 { trimmed(text) } else { trimmed(text).take(24) })
    } else {
        tool_label(tool)
    }
}

/// What the list of drawings calls a drawing of `tool` named `name` holding the words `text`.
pub fn drawing_title(name: &str, tool: Tool, text: &str) -> (r: String)
    ensures
        r@ == title_spec(name@, tool, text@),
{
    let own = trim_chars(&chars_of(name));
    if own.len() > 0 {
        let mut out = String::new();
        push_chars(&mut out, &own);
        proof {
            assert(Seq::<char>::empty() + own@ == own@);
        }
        return out;
    }
    let words = trim_chars(&chars_of(text));
    if tool == Tool::Text && words.len() > 0 {
        let mut out = String::new();
        let head = chars_of("Text: ");
        push_chars(&mut out, &head);
        let mut i: usize = 0;
        while i < words.len() && i < 24
            invariant
                i <= words@.len(),
                i <= 24,
                out@ == "Text: "@ + words@.take(i as int),
            decreases words@.len() - i,
        {
            push_char(&mut out, words[i]);
            proof {
                assert(words@.take(i + 1) == words@.take(i as int).push(words@[i as int]));
            }
            i = i + 1;
        }
        proof {
            if words@.len() <= 24 {
                assert(words@.take(words@.len() as int) =~= words@);
            }
        }
        return out;
    }
    let label = tool.label();
    let cs = chars_of(label);
    let mut out = String::new();
    push_chars(&mut out, &cs);
    proof {
        assert(Seq::<char>::empty() + label@ == label@);
    }
    out
}

/// Whether a drawing shows on a chart of `timeframe` (by its saved code): it is not hidden, and
/// it is kept for every timeframe or for that one.
pub fn shows_on(hidden: bool, timeframes: Option<&[String]>, timeframe: &str) -> (r: bool)
    ensures
        r == (!hidden && (timeframes is None || exists|k: int|
            0 <= k < timeframes->Some_0@.len() && (#[trigger] timeframes->Some_0@[k])@ == timeframe@)),
{
    if hidden {
        return false;
    }
    match timeframes {
        None => true,
        Some(list) => {
            let wanted = chars_of(timeframe);
            let mut i: usize = 0;
            while i < list.len()
                invariant
                    timeframes == Some(list),
                    !hidden,
                    wanted@ == timeframe@,
                    i <= list@.len(),
                    forall|k: int| 0 <= k < i ==> (#[trigger] list@[k])@ != timeframe@,
                decreases list@.len() - i,
            {
                let code = chars_of(list[i].as_str());
                if same_chars(&code, &wanted) {
                    assert((list@[i as int])@ == timeframe@);
                    assert(timeframes->Some_0@[i as int] == list@[i as int]);
                    assert(0 <= i < timeframes->Some_0@.len());
                    return true;
                }
                i = i + 1;
            }
            false
        },
    }
}

} // verus!
