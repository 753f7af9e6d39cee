use wyck_chart::creating::{Creating, Next};
use wyck_chart::tools::{Tool, MAX_PATH_POINTS};

fn going<P: std::fmt::Debug + Copy>(next: Next<P>) -> Creating<P> {
    match next {
        Next::Going(c) => c,
        Next::Done(points) => panic!("finished early with {points:?}"),
        Next::Dropped => panic!("given up"),
    }
}

fn done<P: std::fmt::Debug + Copy>(next: Next<P>) -> Vec<P> {
    match next {
        Next::Done(points) => points,
        Next::Going(c) => panic!("still going with {:?}", c.points()),
        Next::Dropped => panic!("given up"),
    }
}

fn dropped(next: Next<i64>) -> bool {
    matches!(next, Next::Dropped)
}

#[test]
fn only_tools_made_point_by_point_begin() {
    assert!(Creating::begin(Tool::HorizontalLine, 1i64).is_none());
    assert!(Creating::begin(Tool::Text, 1i64).is_none());
    assert!(Creating::begin(Tool::LongPosition, 1i64).is_none());
    assert!(Creating::begin(Tool::ShortPosition, 1i64).is_none());
    assert!(Creating::begin(Tool::Unknown, 1i64).is_none());
    let line = Creating::begin(Tool::TrendLine, 5i64).unwrap();
    assert_eq!(line.points(), &[5, 5]);
    assert_eq!(line.progress(), (Tool::TrendLine, 1, 2));
    let brush = Creating::begin(Tool::Brush, 5i64).unwrap();
    assert_eq!(brush.points(), &[5]);
    assert_eq!(brush.progress(), (Tool::Brush, 1, 0));
    let path = Creating::begin(Tool::ArrowPath, 5i64).unwrap();
    assert_eq!(path.points(), &[5, 5]);
    assert_eq!(path.progress(), (Tool::ArrowPath, 1, 0));
    let pattern = Creating::begin(Tool::HeadAndShoulders, 0i64).unwrap();
    assert_eq!(pattern.points().len(), 7);
    assert_eq!(pattern.progress(), (Tool::HeadAndShoulders, 1, 7));
}

#[test]
fn a_click_then_a_click_draws_a_line() {
    let line = Creating::begin(Tool::TrendLine, 1i64).unwrap();
    // Letting go of the first click places nothing more.
    let (next, changed) = line.release(false, Some(1));
    assert!(!changed);
    let mut line = going(next);
    assert_eq!(line.placed(), 1);
    // The free point follows the pointer.
    assert!(line.pointer_moved(7, false, false));
    assert_eq!(line.points(), &[1, 7]);
    // The second point lands where the button is let go.
    line.press();
    let (next, changed) = line.release(false, Some(9));
    assert!(changed);
    assert_eq!(done(next), vec![1, 9]);
}

#[test]
fn a_drag_draws_a_line_in_one_stroke() {
    let mut line = Creating::begin(Tool::Rectangle, 1i64).unwrap();
    assert!(line.pointer_moved(4, false, true));
    let (next, changed) = line.release(false, Some(4));
    assert!(changed);
    assert_eq!(done(next), vec![1, 4]);
}

#[test]
fn a_release_off_the_plot_keeps_the_point_followed_last() {
    let mut line = Creating::begin(Tool::TrendLine, 1i64).unwrap();
    assert!(line.pointer_moved(6, false, true));
    let (next, _) = line.release(false, None);
    assert_eq!(done(next), vec![1, 6]);
}

#[test]
fn a_release_without_a_press_does_nothing() {
    let line = Creating::begin(Tool::TrendLine, 1i64).unwrap();
    let (next, _) = line.release(false, Some(1));
    let line = going(next);
    let (next, changed) = line.release(false, Some(3));
    assert!(!changed);
    let line = going(next);
    assert_eq!(line.points(), &[1, 1]);
}

#[test]
fn backspace_takes_back_the_last_point() {
    let tri = Creating::begin(Tool::Triangle, 1i64).unwrap();
    let (next, _) = tri.release(false, Some(1));
    let mut tri = going(next);
    tri.press();
    let (next, _) = tri.release(false, Some(2));
    let tri = going(next);
    assert_eq!(tri.points(), &[1, 2, 2]);
    assert_eq!(tri.placed(), 2);
    // The point taken back follows the pointer again.
    let tri = going(tri.remove_last_point());
    assert_eq!(tri.placed(), 1);
    assert_eq!(tri.points(), &[1, 2, 2]);
    // With only the first point placed, the drawing goes.
    assert!(dropped(tri.remove_last_point()));
    // A stroke goes at once.
    let brush = Creating::begin(Tool::Highlighter, 1i64).unwrap();
    assert!(dropped(brush.remove_last_point()));
}

#[test]
fn an_arrow_path_ends_on_a_click_on_its_last_point() {
    let path = Creating::begin(Tool::ArrowPath, 1i64).unwrap();
    let (next, _) = path.release(false, Some(1));
    let mut path = going(next);
    path.press();
    let (next, _) = path.release(false, Some(2));
    let mut path = going(next);
    assert_eq!(path.points(), &[1, 2, 2]);
    assert_eq!(path.placed(), 2);
    // Backspace drops the follower and the last point follows again.
    let mut back = going(Creating::begin(Tool::ArrowPath, 1i64).unwrap().release(false, Some(1)).0);
    back.press();
    let back = going(back.release(false, Some(2)).0);
    let back = going(back.remove_last_point());
    assert_eq!(back.points(), &[1, 2]);
    assert_eq!(back.placed(), 1);
    // A click on the last point: the path ends with the points placed.
    path.press();
    let (next, changed) = path.release(true, Some(2));
    assert!(changed);
    assert_eq!(done(next), vec![1, 2]);
}

#[test]
fn enter_ends_an_arrow_path_only() {
    let path = Creating::begin(Tool::ArrowPath, 1i64).unwrap();
    let (next, _) = path.release(false, Some(1));
    let mut path = going(next);
    path.press();
    let path = going(path.release(false, Some(3)).0);
    let (next, did) = path.finish();
    assert!(did);
    assert_eq!(done(next), vec![1, 3]);
    // With one point placed there is nothing to keep.
    let short = Creating::begin(Tool::ArrowPath, 1i64).unwrap();
    let (next, did) = short.finish();
    assert!(did);
    assert!(dropped(next));
    // Escape gives the same: a path of two points is kept.
    assert!(dropped(Creating::begin(Tool::ArrowPath, 1i64).unwrap().finish_path()));
    // Any other tool waits.
    let line = Creating::begin(Tool::TrendLine, 1i64).unwrap();
    let (next, did) = line.finish();
    assert!(!did);
    assert_eq!(going(next).points(), &[1, 1]);
    assert!(dropped(Creating::begin(Tool::TrendLine, 1i64).unwrap().finish_path()));
}

#[test]
fn an_arrow_path_stops_at_its_most_points() {
    let mut path = Creating::begin(Tool::ArrowPath, 0i64).unwrap();
    let mut placed = 1;
    loop {
        match path.place_point(placed as i64) {
            Next::Going(c) => {
                path = c;
                placed += 1;
            }
            Next::Done(points) => {
                assert_eq!(points.len(), MAX_PATH_POINTS);
                assert_eq!(points[MAX_PATH_POINTS - 1], (MAX_PATH_POINTS - 1) as i64);
                break;
            }
            Next::Dropped => panic!("given up"),
        }
    }
}

#[test]
fn a_stroke_grows_when_the_pointer_goes_far_enough() {
    let mut brush = Creating::begin(Tool::Brush, 0i64).unwrap();
    assert!(brush.pointer_moved(1, true, false));
    assert!(!brush.pointer_moved(2, false, false));
    assert!(brush.pointer_moved(3, true, false));
    assert_eq!(brush.points(), &[0, 1, 3]);
    let (next, changed) = brush.release(false, None);
    assert!(changed);
    assert_eq!(done(next), vec![0, 1, 3]);
    // A stroke of one point is given up.
    let dot = Creating::begin(Tool::Brush, 0i64).unwrap();
    let (next, changed) = dot.release(false, None);
    assert!(changed);
    assert!(dropped(next));
}

/// A pointer on a plot where a point is its own screen position: what the chart does around a
/// drawing being made, with the distances the book measures.
struct Desk {
    tool: Tool,
    creating: Option<Creating<(i64, i64)>>,
    made: Vec<Vec<(i64, i64)>>,
    press_at: Option<(i64, i64)>,
    last: Option<(i64, i64)>,
}

fn far(a: (i64, i64), b: (i64, i64), reach: i64) -> bool {
    (a.0 - b.0) * (a.0 - b.0) + (a.1 - b.1) * (a.1 - b.1) >= reach * reach
}

impl Desk {
    fn new(tool: Tool) -> Desk {
        Desk { tool, creating: None, made: Vec::new(), press_at: None, last: None }
    }

    fn press(&mut self, p: (i64, i64)) {
        match self.creating.as_mut() {
            Some(c) => c.press(),
            None => {
                self.creating = Creating::begin(self.tool, p);
                self.last = Some(p);
            }
        }
        self.press_at = Some(p);
    }

    fn moved(&mut self, p: (i64, i64)) {
        if let Some(c) = self.creating.as_mut() {
            let dragging = self.press_at.is_some_and(|q| far(p, q, 6));
            let far_enough = self.press_at.is_none_or(|q| far(p, q, 3));
            if c.pointer_moved(p, far_enough, dragging) && c.tool().is_freehand() {
                self.press_at = Some(p);
            }
        }
    }

    fn release(&mut self, p: (i64, i64)) {
        let Some(c) = self.creating.take() else {
            return;
        };
        let before = c.placed();
        let on_last = self.last.is_some_and(|l| !far(l, p, 4));
        self.press_at = None;
        match c.release(on_last, Some(p)).0 {
            Next::Going(c) => {
                if c.placed() != before {
                    self.last = Some(p);
                }
                self.creating = Some(c);
            }
            Next::Done(points) => self.made.push(points),
            Next::Dropped => {}
        }
    }

    fn click(&mut self, p: (i64, i64)) {
        self.press(p);
        self.release(p);
    }

    fn drag(&mut self, from: (i64, i64), to: (i64, i64)) {
        self.press(from);
        for step in 1..=4 {
            self.moved((from.0 + (to.0 - from.0) * step / 4, from.1 + (to.1 - from.1) * step / 4));
        }
        self.release(to);
    }

    fn placed(&self) -> Option<usize> {
        self.creating.as_ref().map(|c| c.placed())
    }
}

#[test]
fn a_channel_is_made_by_drags_or_clicks() {
    let mut desk = Desk::new(Tool::ParallelChannel);
    desk.click((60, 100));
    desk.click((360, 200));
    assert!(desk.made.is_empty());
    desk.click((180, 260));
    assert_eq!(desk.made, vec![vec![(60, 100), (360, 200), (180, 260)]]);

    // Two drags: the first places two points, the second one more, where it is let go.
    let mut desk = Desk::new(Tool::ParallelChannel);
    desk.drag((60, 100), (360, 200));
    assert_eq!(desk.placed(), Some(2));
    desk.drag((360, 200), (300, 40));
    assert_eq!(desk.made, vec![vec![(60, 100), (360, 200), (300, 40)]]);

    // A drag, then a click for the last point.
    let mut desk = Desk::new(Tool::ParallelChannel);
    desk.drag((60, 100), (360, 200));
    desk.click((240, 30));
    assert_eq!(desk.made[0][2], (240, 30));
}

#[test]
fn a_small_wobble_on_the_first_press_is_no_drag() {
    let mut desk = Desk::new(Tool::TrendLine);
    desk.press((60, 100));
    desk.moved((62, 101));
    desk.release((62, 101));
    assert!(desk.made.is_empty());
    assert_eq!(desk.placed(), Some(1));
}

#[test]
fn a_middle_point_lands_when_the_button_is_let_go() {
    let mut desk = Desk::new(Tool::Abcd);
    desk.click((60, 100));
    desk.drag((150, 150), (200, 220));
    assert_eq!(desk.placed(), Some(2));
    assert_eq!(desk.creating.as_ref().unwrap().points()[1], (200, 220));
    desk.press((300, 120));
    assert_eq!(desk.placed(), Some(2));
    desk.release((300, 120));
    assert_eq!(desk.placed(), Some(3));
}

#[test]
fn an_arrow_path_ends_on_a_double_click_however_it_was_made() {
    let mut desk = Desk::new(Tool::ArrowPath);
    for (t, p) in [(60, 100), (180, 200), (300, 150)] {
        desk.click((t, p));
        desk.moved((t + 40, p + 20));
    }
    assert!(desk.made.is_empty());
    desk.click((420, 250));
    desk.click((420, 250));
    assert_eq!(desk.made.len(), 1);
    assert_eq!(desk.made[0].len(), 4);

    let mut desk = Desk::new(Tool::ArrowPath);
    desk.drag((60, 100), (200, 180));
    desk.click((320, 120));
    desk.click((320, 120));
    assert_eq!(desk.made, vec![vec![(60, 100), (200, 180), (320, 120)]]);
}

#[test]
fn after_backspace_the_drawing_goes_on_from_the_point_before() {
    let mut desk = Desk::new(Tool::ParallelChannel);
    desk.click((60, 100));
    desk.click((360, 200));
    assert_eq!(desk.placed(), Some(2));
    let c = desk.creating.take().unwrap();
    desk.creating = Some(going(c.remove_last_point()));
    assert_eq!(desk.placed(), Some(1));
    desk.click((240, 150));
    desk.click((300, 40));
    assert_eq!(desk.made, vec![vec![(60, 100), (240, 150), (300, 40)]]);
}

#[test]
fn a_brush_stroke_is_kept_only_when_it_moved() {
    let mut desk = Desk::new(Tool::Brush);
    desk.press((60, 100));
    for i in 1..8 {
        desk.moved((60 + 12 * i, 100 + 6 * i));
    }
    desk.release((144, 142));
    assert_eq!(desk.made.len(), 1);
    assert_eq!(desk.made[0].len(), 8);

    let mut desk = Desk::new(Tool::Brush);
    desk.press((60, 100));
    desk.release((60, 100));
    assert!(desk.made.is_empty());
    assert!(desk.creating.is_none());
}
