use wyck_chart::pointer::{edit_press, grab_for, region_of, EditKind, Grab, Part, Press, Region};
use wyck_chart::tools::Tool;

#[test]
fn regions_of_the_chart() {
    assert_eq!(region_of(true, Some(0)), Region::Plot(0));
    assert_eq!(region_of(true, Some(2)), Region::Plot(2));
    assert_eq!(region_of(false, Some(1)), Region::PriceAxis(1));
    assert_eq!(region_of(true, None), Region::TimeAxis);
    assert_eq!(region_of(false, None), Region::Corner);
}

#[test]
fn grips_of_a_position_and_a_box() {
    let position = Some((Tool::LongPosition, 4));
    assert_eq!(grab_for(Part::Handle(0), position, None), Grab::Grip);
    assert_eq!(grab_for(Part::Handle(1), position, None), Grab::GripVertical);
    assert_eq!(grab_for(Part::Handle(2), position, None), Grab::GripVertical);
    assert_eq!(grab_for(Part::Handle(3), position, None), Grab::GripHorizontal);
    let short = Some((Tool::ShortPosition, 4));
    assert_eq!(grab_for(Part::Handle(2), short, None), Grab::GripVertical);

    let rect = Some((Tool::Rectangle, 2));
    assert_eq!(grab_for(Part::Handle(0), rect, Some(true)), Grab::GripDiagonalDown);
    assert_eq!(grab_for(Part::Handle(2), rect, Some(false)), Grab::GripDiagonalUp);
    assert_eq!(grab_for(Part::Handle(3), rect, None), Grab::Grip);
    assert_eq!(grab_for(Part::Handle(4), rect, None), Grab::GripVertical);
    assert_eq!(grab_for(Part::Handle(5), rect, None), Grab::GripVertical);
    assert_eq!(grab_for(Part::Handle(6), rect, None), Grab::GripHorizontal);
    assert_eq!(grab_for(Part::Handle(7), rect, None), Grab::GripHorizontal);

    // Anything else: a free grip, and the body is the body.
    assert_eq!(grab_for(Part::Handle(1), Some((Tool::TrendLine, 2)), Some(true)), Grab::Grip);
    assert_eq!(grab_for(Part::Handle(1), Some((Tool::Rectangle, 3)), Some(true)), Grab::Grip);
    assert_eq!(grab_for(Part::Body, rect, None), Grab::Body);
    assert_eq!(grab_for(Part::Handle(1), None, None), Grab::Body);
}

#[test]
fn a_press_picks_and_begins_to_move_a_drawing() {
    // Nothing under the pointer: the press is for the chart and nothing stays selected.
    let r = edit_press::<i64>(None, None, Some(3));
    assert_eq!(r.press, Press::Ignored);
    assert_eq!(r.selected, None);
    assert_eq!(r.edit, None);
    // A grip of a drawing.
    let r = edit_press::<i64>(Some((7, Part::Handle(1))), Some(false), Some(3));
    assert_eq!(r.press, Press::Taken);
    assert_eq!(r.selected, Some(7));
    assert_eq!(r.edit, Some(EditKind::Handle(1)));
    // The body, from where the press is.
    let r = edit_press::<i64>(Some((7, Part::Body)), Some(false), Some(3));
    assert_eq!(r.edit, Some(EditKind::Move(3)));
    // Off the plot the body cannot be moved, but the drawing is selected.
    let r = edit_press::<i64>(Some((7, Part::Body)), Some(false), None);
    assert_eq!((r.press, r.selected, r.edit), (Press::Taken, Some(7), None));
    // A locked drawing is selected and stays put.
    let r = edit_press::<i64>(Some((9, Part::Handle(0))), Some(true), Some(3));
    assert_eq!((r.press, r.selected, r.edit), (Press::Taken, Some(9), None));
    // A drawing that is gone.
    let r = edit_press::<i64>(Some((9, Part::Handle(0))), None, Some(3));
    assert_eq!((r.press, r.selected, r.edit), (Press::Taken, Some(9), None));
}
