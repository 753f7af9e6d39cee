//! What the pointer is over: the region of the chart, the part of a drawing, and the kind of grip
//! it would take, told finely enough to pick a cursor. Distances on the screen are measured by the
//! caller; these functions take the facts it found.

use vstd::prelude::*;

use crate::tools::{is_box_spec, Tool};

verus! {

/// Where on the chart a point is.
#[derive(Debug, Clone, Copy, PartialEq, Eq, Structural)]
pub enum Region {
    /// The plot, in band `n` (0 is the prices).
    Plot(usize),
    /// The price axis of band `n`.
    PriceAxis(usize),
    TimeAxis,
    Corner,
}

/// The region of a point left of the price axis or not (`in_plot`), in band `band` (`None` below
/// the bands, on the time axis).
pub open spec fn region_spec(in_plot: bool, band: Option<usize>) -> Region {
    match band {
        Some(b) => if in_plot { Region::Plot(b) } else { Region::PriceAxis(b) },
        None => if in_plot { Region::TimeAxis } else { Region::Corner },
    }
}

pub fn region_of(in_plot: bool, band: Option<usize>) -> (r: Region)
    ensures
        r == region_spec(in_plot, band),
{
    match (in_plot, band) {
        (true, Some(b)) => Region::Plot(b),
        (false, Some(b)) => Region::PriceAxis(b),
        (true, None) => Region::TimeAxis,
        (false, None) => Region::Corner,
    }
}

/// What part of a drawing a pointer is on.
#[derive(Debug, Clone, Copy, PartialEq, Eq, Structural)]
pub enum Part {
    /// A grip: the index of the point.
    Handle(usize),
    /// The drawing itself.
    Body,
}

/// What the pointer would take hold of.
#[derive(Debug, Clone, Copy, PartialEq, Eq, Structural)]
pub enum Grab {
    /// The drawing itself: it can be picked and moved.
    Body,
    /// A grip that moves freely.
    Grip,
    /// A grip that slides up and down only.
    GripVertical,
    /// A grip that slides sideways only.
    GripHorizontal,
    /// A corner on the diagonal from top left to bottom right.
    GripDiagonalDown,
    /// A corner on the diagonal from bottom left to top right.
    GripDiagonalUp,
}

/// The grab for `part` of a drawing of `tool` with `count` points (`drawing` is `None` when the
/// drawing could not be found). The grips of a position: its stop and target slide up and down,
/// its right edge sideways. The grips of a box: the four corners lie on a diagonal
/// (`corner_down` tells which, seen from the middle of the box, when the grips could be placed),
/// the next two slide up and down and the rest sideways.
pub open spec fn grab_spec(part: Part, drawing: Option<(Tool, usize)>, corner_down: Option<bool>) -> Grab {
    match part {
        Part::Body => Grab::Body,
        Part::Handle(index) => match drawing {
            None => Grab::Body,
            Some((tool, count)) => if (tool == Tool::LongPosition || tool == Tool::ShortPosition)
                && count == 4 {
                if index == 1 || index == 2 {
                    Grab::GripVertical
                } else if index == 3 {
                    Grab::GripHorizontal
                } else {
                    Grab::Grip
                }
            } else if is_box_spec(tool) && count == 2 {
                if index >= 4 {
                    if index < 6 {
                        Grab::GripVertical
                    } else {
                        Grab::GripHorizontal
                    }
                } else {
                    match corner_down {
                        Some(true) => Grab::GripDiagonalDown,
                        Some(false) => Grab::GripDiagonalUp,
                        None => Grab::Grip,
                    }
                }
            } else {
                Grab::Grip
            },
        },
    }
}

/// What the pointer over `part` of a drawing would take hold of, for picking a cursor.
pub fn grab_for(part: Part, drawing: Option<(Tool, usize)>, corner_down: Option<bool>) -> (g: Grab)
    ensures
        g == grab_spec(part, drawing, corner_down),
{
    let index = match part {
        Part::Body => {
            return Grab::Body;
        },
        Part::Handle(index) => index,
    };
    let (tool, count) = match drawing {
        None => {
            return Grab::Body;
        },
        Some(d) => d,
    };
    if tool.is_position() && count == 4 {
        return if index == 1 || index == 2 {
            Grab::GripVertical
        } else if index == 3 {
            Grab::GripHorizontal
        } else {
            Grab::Grip
        };
    }
    if tool.is_box() && count == 2 {
        if index >= 4 {
            return if index < 6 {
                Grab::GripVertical
            } else {
                Grab::GripHorizontal
            };
        }
        return match corner_down {
            Some(true) => Grab::GripDiagonalDown,
            Some(false) => Grab::GripDiagonalUp,
            None => Grab::Grip,
        };
    }
    Grab::Grip
}

/// What a press did.
#[derive(Debug, Clone, Copy, PartialEq, Eq, Structural)]
pub enum Press {
    /// The press is for the chart (to scroll it).
    Ignored,
    /// A drawing took the press.
    Taken,
}

/// How a drawing is being changed: by one of its grips, or moved whole from the point where the
/// press was.
#[derive(Debug, Clone, Copy, PartialEq, Eq)]
pub enum EditKind<P> {
    Handle(usize),
    Move(P),
}

/// What a press on the plot with no tool picked comes to: what it did, the drawing selected
/// after it, and the change it begins, if any.
#[derive(Debug, Clone, Copy)]
pub struct EditPress<P> {
    pub press: Press,
    pub selected: Option<u64>,
    pub edit: Option<EditKind<P>>,
}

/// The press lands on `found` (the drawing and its part under the pointer, the grips of the
/// selected drawing first), which is locked or not (`locked`, `None` when the drawing is gone),
/// at `start` (`None` off the plot). Nothing under the pointer: the press is for the chart and the
/// selection goes. Otherwise that drawing is selected, and unless it is locked or gone a grip
/// begins to move, or the whole drawing from where the press is.
pub open spec fn edit_press_spec<P>(found: Option<(u64, Part)>, locked: Option<bool>, start: Option<P>) -> EditPress<P> {
    match found {
        None => EditPress { press: Press::Ignored, selected: None, edit: None },
        Some((id, part)) => EditPress {
            press: Press::Taken,
            selected: Some(id),
            edit: if locked == Some(false) {
                match part {
                    Part::Handle(index) => Some(EditKind::Handle(index)),
                    Part::Body => match start {
                        Some(s) => Some(EditKind::Move(s)),
                        None => None,
                    },
                }
            } else {
                None
            },
        },
    }
}

pub fn edit_press<P: Copy>(found: Option<(u64, Part)>, locked: Option<bool>, start: Option<P>) -> (r: EditPress<P>)
    ensures
        r == edit_press_spec(found, locked, start),
{
    let (id, part) = match found {
        None => {
            return EditPress { press: Press::Ignored, selected: None, edit: None };
        },
        Some(f) => f,
    };
    let taken = EditPress { press: Press::Taken, selected: Some(id), edit: None };
    match locked {
        Some(false) => {},
        _ => {
            return taken;
        },
    }
    let edit = match part {
        Part::Handle(index) => Some(EditKind::Handle(index)),
        Part::Body => match start {
            Some(s) => Some(EditKind::Move(s)),
            None => None,
        },
    };
    EditPress { press: Press::Taken, selected: Some(id), edit }
}

} // verus!
