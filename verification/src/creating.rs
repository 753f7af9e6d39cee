//! A drawing being made: the points fixed so far, the ones that follow the pointer, and what a
//! press, a move, a release, Backspace, Enter or Escape does to them. The points are of any type:
//! where they sit on the screen is worked out by the caller, which hands over the facts it needs
//! (whether the pointer went far enough, whether the release was on the last point).

use vstd::prelude::*;

use crate::tools::{point_count_ok_spec, tool_anchors, Tool, MAX_BRUSH_POINTS, MAX_PATH_POINTS};

verus! {

/// Whether the tool draws a stroke that grows while the button is down.
pub open spec fn is_stroke(tool: Tool) -> bool {
    tool == Tool::Brush || tool == Tool::Highlighter
}

/// Whether a drawing of the tool is made point by point: not in one click, not as a position
/// (laid out at once), and not a tool that takes no point.
pub open spec fn made_point_by_point(tool: Tool) -> bool {
    tool_anchors(tool) >= 2 && tool != Tool::LongPosition && tool != Tool::ShortPosition
}

/// A drawing being made.
pub struct Creating<P> {
    tool: Tool,
    points: Vec<P>,
    /// How many points are fixed. The others follow the pointer.
    placed: usize,
    /// Whether the button is down. The next point lands where it is let go.
    holding: bool,
    /// Whether the held press is the one that began the drawing.
    origin: bool,
    /// Whether the held press turned into a drag.
    dragged: bool,
}

/// A drawing being made, as values.
pub struct CreatingView<P> {
    pub tool: Tool,
    pub points: Seq<P>,
    pub placed: nat,
    pub holding: bool,
    pub origin: bool,
    pub dragged: bool,
}

impl<P> View for Creating<P> {
    type V = CreatingView<P>;

    closed spec fn view(&self) -> CreatingView<P> {
        CreatingView {
            tool: self.tool,
            points: self.points@,
            placed: self.placed as nat,
            holding: self.holding,
            origin: self.origin,
            dragged: self.dragged,
        }
    }
}

/// Whether every point from `from` on is the same point.
pub open spec fn followers_agree<P>(points: Seq<P>, from: nat) -> bool {
    forall|i: int| from <= i < points.len() ==> points[i] == points[from as int]
}

/// The points with every one from `from` on moved to `p`.
pub open spec fn follow_from<P>(points: Seq<P>, from: nat, p: P) -> Seq<P> {
    Seq::new(points.len(), |i: int| if i < from { points[i] } else { p })
}

impl<P> CreatingView<P> {
    /// A drawing being made is sane: at least its first point is fixed; a stroke has only that
    /// one fixed and no more points than a stroke may have; an arrow path has one point after the
    /// fixed ones, which follows the pointer, and room for more; any other tool has all its points
    /// and some still to place, all following the pointer together.
    pub open spec fn wf(self) -> bool {
        &&& 1 <= self.placed <= self.points.len()
        &&& if is_stroke(self.tool) {
            self.placed == 1 && self.points.len() <= MAX_BRUSH_POINTS
        } else if self.tool == Tool::ArrowPath {
            self.points.len() == self.placed + 1 && self.placed < MAX_PATH_POINTS
        } else {
            &&& self.points.len() == tool_anchors(self.tool)
            &&& self.placed < tool_anchors(self.tool)
            &&& followers_agree(self.points, self.placed)
        }
    }

    /// The same drawing with the button taken as up and the press forgotten.
    pub open spec fn let_go(self) -> CreatingView<P> {
        CreatingView {
            tool: self.tool,
            points: self.points,
            placed: self.placed,
            holding: false,
            origin: false,
            dragged: false,
        }
    }
}

/// What became of a drawing being made.
pub enum Next<P> {
    /// It is still being made.
    Going(Creating<P>),
    /// It is finished, with these points.
    Done(Vec<P>),
    /// It was given up.
    Dropped,
}

/// What became of a drawing being made, as values.
pub enum NextView<P> {
    Going(CreatingView<P>),
    Done(Seq<P>),
    Dropped,
}

impl<P> View for Next<P> {
    type V = NextView<P>;

    open spec fn view(&self) -> NextView<P> {
        match self {
            Next::Going(c) => NextView::Going(c@),
            Next::Done(points) => NextView::Done(points@),
            Next::Dropped => NextView::Dropped,
        }
    }
}

/// Whether an outcome for a drawing of `tool` is sound: one still being made is sane, and a
/// finished one has the points its tool asks for.
pub open spec fn sound_next<P>(tool: Tool, next: NextView<P>) -> bool {
    match next {
        NextView::Going(c) => c.wf() && c.tool == tool,
        NextView::Done(points) => point_count_ok_spec(tool, points.len()),
        NextView::Dropped => true,
    }
}

/// A drawing of `tool` begun at `point`: that point fixed, the others following it (a stroke
/// starts with its one point).
pub open spec fn begin_spec<P>(tool: Tool, point: P) -> CreatingView<P> {
    CreatingView {
        tool,
        points: if is_stroke(tool) {
            seq![point]
        } else {
            Seq::new(tool_anchors(tool), |i: int| point)
        },
        placed: 1,
        holding: true,
        origin: true,
        dragged: false,
    }
}

/// The drawing after the pointer moved to `point`: a stroke grows by it when the pointer went
/// far enough and the stroke has room; otherwise the points not yet fixed follow the pointer,
/// and a press that went far enough became a drag.
pub open spec fn moved_spec<P>(c: CreatingView<P>, point: P, far_enough: bool, dragging: bool) -> CreatingView<P> {
    if is_stroke(c.tool) {
        if far_enough && c.points.len() < MAX_BRUSH_POINTS {
            CreatingView {
                tool: c.tool,
                points: c.points.push(point),
                placed: c.placed,
                holding: c.holding,
                origin: c.origin,
                dragged: c.dragged,
            }
        } else {
            c
        }
    } else {
        CreatingView {
            tool: c.tool,
            points: follow_from(c.points, c.placed, point),
            placed: c.placed,
            holding: c.holding,
            origin: c.origin,
            dragged: c.dragged || dragging,
        }
    }
}

/// The drawing with its next point fixed at `p`: an arrow path gets one more point to follow the
/// pointer; for the other tools the points after it follow `p`.
pub open spec fn with_point<P>(c: CreatingView<P>, p: P) -> CreatingView<P> {
    CreatingView {
        tool: c.tool,
        points: if c.tool == Tool::ArrowPath {
            c.points.update(c.placed as int, p).push(p)
        } else {
            follow_from(c.points, c.placed, p)
        },
        placed: c.placed + 1,
        holding: c.holding,
        origin: c.origin,
        dragged: c.dragged,
    }
}

/// Ends an arrow path with the points it has placed, when it has at least two. Anything else is
/// given up.
pub open spec fn finish_path_spec<P>(c: CreatingView<P>) -> NextView<P> {
    if c.tool == Tool::ArrowPath && c.placed >= 2 {
        NextView::Done(c.points.take(c.placed as int))
    } else {
        NextView::Dropped
    }
}

/// Fixing the next point at `p`: the drawing is finished once its last point is placed (an arrow
/// path once it has as many points as a path may have).
pub open spec fn place_spec<P>(c: CreatingView<P>, p: P) -> NextView<P> {
    let next = with_point(c, p);
    if c.tool == Tool::ArrowPath {
        if next.placed >= MAX_PATH_POINTS {
            finish_path_spec(next)
        } else {
            NextView::Going(next)
        }
    } else if next.placed >= tool_anchors(c.tool) {
        NextView::Done(next.points)
    } else {
        NextView::Going(next)
    }
}

/// The button let go, on the last point placed (`on_last`) and over `under` (none off the plot).
/// A stroke ends, kept with two points or more. A release without a press does nothing. The
/// release of the press that began the drawing does nothing more unless it was a drag. A click
/// on the last point of an arrow path ends it. Otherwise the next point lands there, or, off the
/// plot, where the pointer was last followed. The flag tells whether anything changed.
pub open spec fn release_spec<P>(c: CreatingView<P>, on_last: bool, under: Option<P>) -> (NextView<P>, bool) {
    if is_stroke(c.tool) {
        (if c.points.len() >= 2 { NextView::Done(c.points) } else { NextView::Dropped }, true)
    } else if !c.holding {
        (NextView::Going(c), false)
    } else if c.origin && !c.dragged {
        (NextView::Going(c.let_go()), false)
    } else if c.tool == Tool::ArrowPath && !c.dragged && on_last {
        (finish_path_spec(c.let_go()), true)
    } else {
        let p = match under {
            Some(q) => q,
            None => c.points[c.placed as int],
        };
        (place_spec(c.let_go(), p), true)
    }
}

/// Backspace: takes back the last point placed, which follows the pointer again with the ones
/// after it (an arrow path drops its follower instead), or gives the drawing up when only its
/// first point is placed or it is a stroke.
pub open spec fn take_back_spec<P>(c: CreatingView<P>) -> NextView<P> {
    if c.placed <= 1 || is_stroke(c.tool) {
        NextView::Dropped
    } else {
        let placed = (c.placed - 1) as nat;
        NextView::Going(CreatingView {
            tool: c.tool,
            points: if c.tool == Tool::ArrowPath {
                c.points.drop_last()
            } else {
                follow_from(c.points, placed, c.points[placed as int])
            },
            placed,
            holding: false,
            origin: false,
            dragged: c.dragged,
        })
    }
}

/// Enter: ends an arrow path with the points it has; the other tools go on waiting. The flag
/// tells whether it did anything.
pub open spec fn finish_spec<P>(c: CreatingView<P>) -> (NextView<P>, bool) {
    if c.tool == Tool::ArrowPath {
        (finish_path_spec(c), true)
    } else {
        (NextView::Going(c), false)
    }
}

/// How many points a drawing in progress asks for: none for a stroke or an arrow path, which end
/// when the user says so, else the points of its tool.
pub open spec fn needed_spec(tool: Tool) -> nat {
    if is_stroke(tool) || tool == Tool::ArrowPath {
        0
    } else {
        tool_anchors(tool)
    }
}

proof fn lemma_follow_agrees<P>(points: Seq<P>, from: nat, p: P)
    requires
        from < points.len(),
    ensures
        followers_agree(follow_from(points, from, p), from),
        follow_from(points, from, p).len() == points.len(),
        follow_from(points, from, p)[from as int] == p,
{
}

proof fn lemma_place_is_sound<P>(c: CreatingView<P>, p: P)
    requires
        c.wf(),
        !is_stroke(c.tool),
    ensures
        sound_next(c.tool, place_spec(c, p)),
{
    let next = with_point(c, p);
    if c.tool == Tool::ArrowPath {
        assert(next.points.len() == next.placed + 1);
        if next.placed >= MAX_PATH_POINTS {
            assert(next.points.take(next.placed as int).len() == next.placed);
        }
    } else {
        lemma_follow_agrees(c.points, c.placed, p);
        assert(followers_agree(next.points, next.placed));
    }
}

impl<P: Copy> Creating<P> {
    /// Begins a drawing of `tool` at `point`, for a tool made point by point (`None` for the
    /// others, which a single press lays out whole).
    pub fn begin(tool: Tool, point: P) -> (r: Option<Creating<P>>)
        ensures
            r is Some <==> made_point_by_point(tool),
            r matches Some(c) ==> c@ == begin_spec(tool, point) && c@.wf(),
    {
        let anchors = tool.anchors();
        if anchors < 2 || tool.is_position() {
            return None;
        }
        let mut points: Vec<P> = Vec::new();
        if tool.is_freehand() {
            points.push(point);
        } else {
            let mut i: usize = 0;
            while i < anchors
                invariant
                    i <= anchors,
                    points@.len() == i,
                    forall|j: int| 0 <= j < i ==> points@[j] == point,
                decreases anchors - i,
            {
                points.push(point);
                i = i + 1;
            }
            assert(points@ == Seq::new(tool_anchors(tool), |i: int| point));
        }
        let c = Creating { tool, points, placed: 1, holding: true, origin: true, dragged: false };
        assert(c@.points == begin_spec(tool, point).points);
        Some(c)
    }

    pub fn tool(&self) -> (t: Tool)
        ensures
            t == self@.tool,
    {
        self.tool
    }

    pub fn points(&self) -> (points: &[P])
        ensures
            points@ == self@.points,
    {
        self.points.as_slice()
    }

    pub fn placed(&self) -> (n: usize)
        ensures
            n == self@.placed,
    {
        self.placed
    }

    /// The tool, how many points are placed and how many it needs (none for a stroke, which ends
    /// when the button is let go, or for an arrow path, which ends on a double click, Enter or
    /// Escape).
    pub fn progress(&self) -> (r: (Tool, usize, usize))
        ensures
            r == (self@.tool, self@.placed as usize, needed_spec(self@.tool) as usize),
    {
        let needed = if self.tool.is_freehand() || self.tool == Tool::ArrowPath {
            0
        } else {
            self.tool.anchors()
        };
        (self.tool, self.placed, needed)
    }

    /// Moves every point from `from` on to `point`.
    fn follow(&mut self, from: usize, point: P)
        requires
            from <= old(self)@.points.len(),
        ensures
            final(self)@.points == follow_from(old(self)@.points, from as nat, point),
            final(self)@.tool == old(self)@.tool,
            final(self)@.placed == old(self)@.placed,
            final(self)@.holding == old(self)@.holding,
            final(self)@.origin == old(self)@.origin,
            final(self)@.dragged == old(self)@.dragged,
    {
        let len = self.points.len();
        let mut i = from;
        while i < len
            invariant
                from <= i <= len,
                len == old(self)@.points.len(),
                self.points@.len() == len,
                forall|j: int|
                    0 <= j < len ==> self.points@[j] == (if from <= j < i {
                        point
                    } else {
                        old(self)@.points[j]
                    }),
                self.tool == old(self)@.tool,
                self.placed == old(self)@.placed,
                self.holding == old(self)@.holding,
                self.origin == old(self)@.origin,
                self.dragged == old(self)@.dragged,
            decreases len - i,
        {
            self.points.set(i, point);
            i = i + 1;
        }
        assert(self.points@ == follow_from(old(self)@.points, from as nat, point));
    }

    /// A press on a drawing already begun: it is for the next point, which lands where the button
    /// is let go.
    pub fn press(&mut self)
        requires
            old(self)@.wf(),
        ensures
            final(self)@ == (CreatingView {
                tool: old(self)@.tool,
                points: old(self)@.points,
                placed: old(self)@.placed,
                holding: true,
                origin: false,
                dragged: false,
            }),
            final(self)@.wf(),
    {
        self.holding = true;
        self.origin = false;
        self.dragged = false;
    }

    /// The pointer moved over `point`. `far_enough` tells whether it went far enough from the
    /// last point of a stroke to add one; `dragging`, whether a held press went far enough to be a
    /// drag. Returns whether the drawing changed.
    pub fn pointer_moved(&mut self, point: P, far_enough: bool, dragging: bool) -> (changed: bool)
        requires
            old(self)@.wf(),
        ensures
            final(self)@ == moved_spec(old(self)@, point, far_enough, dragging),
            final(self)@.wf(),
            changed == (!is_stroke(old(self)@.tool) || (far_enough && old(self)@.points.len()
                < MAX_BRUSH_POINTS)),
    {
        if self.tool.is_freehand() {
            if far_enough && self.points.len() < MAX_BRUSH_POINTS {
                self.points.push(point);
                return true;
            }
            return false;
        }
        let placed = self.placed;
        self.follow(placed, point);
        if dragging {
            self.dragged = true;
        }
        proof {
            lemma_follow_agrees(old(self)@.points, old(self)@.placed, point);
        }
        true
    }

    /// Ends an arrow path with the points it has placed, when it has at least two, dropping the
    /// point that followed the pointer. Anything else is given up.
    pub fn finish_path(self) -> (r: Next<P>)
        requires
            self@.placed <= self@.points.len(),
        ensures
            r@ == finish_path_spec(self@),
    {
        if self.tool != Tool::ArrowPath || self.placed < 2 {
            return Next::Dropped;
        }
        let ghost before = self@;
        let mut points = self.points;
        points.truncate(self.placed);
        assert(points@ == before.points.take(before.placed as int));
        Next::Done(points)
    }

    /// Fixes the next point at `point`, and finishes the drawing when that was its last one.
    pub fn place_point(self, point: P) -> (r: Next<P>)
        requires
            self@.wf(),
            !is_stroke(self@.tool),
        ensures
            r@ == place_spec(self@, point),
            sound_next(self@.tool, r@),
    {
        proof {
            lemma_place_is_sound(self@, point);
        }
        let ghost before = self@;
        let mut c = self;
        let placed = c.placed;
        if c.tool == Tool::ArrowPath {
            c.points.set(placed, point);
            c.points.push(point);
            c.placed = placed + 1;
            assert(c@.points == with_point(before, point).points);
            if c.placed >= MAX_PATH_POINTS {
                return c.finish_path();
            }
            return Next::Going(c);
        }
        c.follow(placed, point);
        c.placed = placed + 1;
        if c.placed >= c.tool.anchors() {
            return Next::Done(c.points);
        }
        Next::Going(c)
    }

    /// The button was let go, on the last point placed or not (`on_last`), over `under` (`None`
    /// off the plot). Returns what became of the drawing and whether anything changed.
    pub fn release(self, on_last: bool, under: Option<P>) -> (r: (Next<P>, bool))
        requires
            self@.wf(),
        ensures
            r.0@ == release_spec(self@, on_last, under).0,
            r.1 == release_spec(self@, on_last, under).1,
            sound_next(self@.tool, r.0@),
    {
        let ghost before = self@;
        if self.tool.is_freehand() {
            if self.points.len() >= 2 {
                return (Next::Done(self.points), true);
            }
            return (Next::Dropped, true);
        }
        if !self.holding {
            return (Next::Going(self), false);
        }
        let mut c = self;
        let (origin, dragged) = (c.origin, c.dragged);
        c.holding = false;
        c.origin = false;
        c.dragged = false;
        assert(c@ == before.let_go());
        if origin && !dragged {
            return (Next::Going(c), false);
        }
        if c.tool == Tool::ArrowPath && !dragged && on_last {
            return (c.finish_path(), true);
        }
        let point = match under {
            Some(q) => q,
            None => c.points[c.placed],
        };
        (c.place_point(point), true)
    }

    /// Backspace: takes back the last point placed, or gives the drawing up when only its first
    /// is placed or it is a stroke.
    pub fn remove_last_point(self) -> (r: Next<P>)
        requires
            self@.wf(),
        ensures
            r@ == take_back_spec(self@),
            sound_next(self@.tool, r@),
    {
        if self.placed <= 1 || self.tool.is_freehand() {
            return Next::Dropped;
        }
        let ghost before = self@;
        let mut c = self;
        c.placed = c.placed - 1;
        c.holding = false;
        c.origin = false;
        if c.tool == Tool::ArrowPath {
            c.points.pop();
            assert(c@.points == before.points.drop_last());
        } else {
            let placed = c.placed;
            let follower = c.points[placed];
            c.follow(placed, follower);
            proof {
                lemma_follow_agrees(before.points, placed as nat, follower);
            }
        }
        Next::Going(c)
    }

    /// Enter: ends an arrow path with the points it has. The other tools go on waiting. Returns
    /// what became of the drawing and whether anything was done.
    pub fn finish(self) -> (r: (Next<P>, bool))
        requires
            self@.wf(),
        ensures
            r.0@ == finish_spec(self@).0,
            r.1 == finish_spec(self@).1,
            sound_next(self@.tool, r.0@),
    {
        if self.tool == Tool::ArrowPath {
            return (self.finish_path(), true);
        }
        (Next::Going(self), false)
    }
}

/// Taking back the point just placed leaves the drawing as it was before that point, except that
/// the point taken back is now the one following the pointer and the button is taken as up.
pub proof fn law_taking_back_a_point_undoes_placing_it<P>(c: CreatingView<P>, p: P)
    requires
        c.wf(),
        !is_stroke(c.tool),
        place_spec(c, p) is Going,
    ensures
        take_back_spec(with_point(c, p)) == NextView::Going(
            CreatingView {
                tool: c.tool,
                points: follow_from(c.points, c.placed, p),
                placed: c.placed,
                holding: false,
                origin: false,
                dragged: c.dragged,
            },
        ),
{
    let next = with_point(c, p);
    if c.tool == Tool::ArrowPath {
        assert(next.points.drop_last() =~= follow_from(c.points, c.placed, p));
    } else {
        assert(follow_from(next.points, c.placed, next.points[c.placed as int]) =~= follow_from(
            c.points,
            c.placed,
            p,
        ));
    }
}

/// Every drawing that creation finishes, by any of its steps, has the points its tool asks for,
/// and every drawing it leaves in progress is sane.
pub proof fn law_finished_drawings_have_their_points<P>(
    c: CreatingView<P>,
    p: P,
    on_last: bool,
    under: Option<P>,
)
    requires
        c.wf(),
    ensures
        !is_stroke(c.tool) ==> sound_next(c.tool, place_spec(c, p)),
        sound_next(c.tool, release_spec(c, on_last, under).0),
        sound_next(c.tool, take_back_spec(c)),
        sound_next(c.tool, finish_spec(c).0),
        sound_next(c.tool, finish_path_spec(c)),
{
    if !is_stroke(c.tool) {
        lemma_place_is_sound(c, p);
        if c.holding && !(c.origin && !c.dragged) && !(c.tool == Tool::ArrowPath && !c.dragged
            && on_last) {
            let q = match under {
                Some(q) => q,
                None => c.points[c.placed as int],
            };
            lemma_place_is_sound(c.let_go(), q);
        }
        if c.placed > 1 {
            let placed = (c.placed - 1) as nat;
            if c.tool != Tool::ArrowPath {
                lemma_follow_agrees(c.points, placed, c.points[placed as int]);
            }
        }
    }
    if c.tool == Tool::ArrowPath && c.placed >= 2 {
        assert(c.points.take(c.placed as int).len() == c.placed);
    }
}

} // verus!
