//! The bookkeeping of the drawings of a chart that does not look at their shapes: the ids they
//! are known by, their place in the stack of their symbol, and the history that undo and redo
//! walk.

use vstd::prelude::*;

use crate::sorted::{increasing, insert_sorted, member, set_of};

verus! {

/// Most steps undo remembers.
pub const UNDO_DEPTH: usize = 200;

/// Whether the drawing at `i` keeps its id when a document is repaired: it has one, and no
/// drawing before it has the same.
pub open spec fn keeps_id(ids: Seq<u64>, i: int) -> bool {
    ids[i] != 0 && forall|j: int| 0 <= j < i ==> ids[j] != ids[i]
}

/// The highest id kept among the first `n` drawings, or 0.
pub open spec fn highest_kept(ids: Seq<u64>, n: int) -> int
    decreases n,
{
    if n <= 0 {
        0
    } else {
        let rest = highest_kept(ids, n - 1);
        if keeps_id(ids, n - 1) && ids[n - 1] > rest { ids[n - 1] as int } else { rest }
    }
}

/// How many of the first `n` drawings get a fresh id.
pub open spec fn fresh_before(ids: Seq<u64>, n: int) -> int
    decreases n,
{
    if n <= 0 {
        0
    } else {
        fresh_before(ids, n - 1) + if keeps_id(ids, n - 1) { 0int } else { 1int }
    }
}

/// The first fresh id: past the `next_id` the document held, past every id kept, and not 0.
pub open spec fn first_fresh(ids: Seq<u64>, next_id: u64) -> int {
    let past = highest_kept(ids, ids.len() as int) + 1;
    if next_id >= past { next_id as int } else { past }
}

/// The id the drawing at `i` has after the repair: its own where it keeps it, else the next
/// fresh one, in order.
pub open spec fn repaired_id(ids: Seq<u64>, next_id: u64, i: int) -> int {
    if keeps_id(ids, i) { ids[i] as int } else { first_fresh(ids, next_id) + fresh_before(ids, i) }
}

proof fn lemma_highest_kept(ids: Seq<u64>, n: int, i: int)
    requires
        0 <= i < n <= ids.len(),
        keeps_id(ids, i),
    ensures
        ids[i] <= highest_kept(ids, n),
    decreases n,
{
    if i < n - 1 {
        lemma_highest_kept(ids, n - 1, i);
    }
}

proof fn lemma_highest_nonnegative(ids: Seq<u64>, n: int)
    ensures
        highest_kept(ids, n) >= 0,
    decreases n,
{
    if n > 0 {
        lemma_highest_nonnegative(ids, n - 1);
    }
}

proof fn lemma_fresh_grows(ids: Seq<u64>, a: int, b: int)
    requires
        0 <= a <= b <= ids.len(),
    ensures
        fresh_before(ids, a) <= fresh_before(ids, b),
        a < b && !keeps_id(ids, a) ==> fresh_before(ids, a) < fresh_before(ids, b),
    decreases b - a,
{
    if a < b {
        lemma_fresh_grows(ids, a, b - 1);
        if !keeps_id(ids, a) && a == b - 1 {
        }
    }
}

/// The ids of a document's drawings, repaired: a missing id (0) or one a drawing before it
/// already has is replaced by a fresh one, fresh ones counting up from past both the document's
/// `next_id` and every id kept. Returns the ids and the next id to give. Afterwards every id is
/// set, no two are the same, and the next id to give is past all of them.
pub fn repair_ids(ids: &[u64], next_id: u64) -> (r: (Vec<u64>, u64))
    requires
        first_fresh(ids@, next_id) + fresh_before(ids@, ids@.len() as int) <= u64::MAX,
    ensures
        r.0@.len() == ids@.len(),
        forall|i: int| 0 <= i < ids@.len() ==> (#[trigger] r.0@[i]) as int == repaired_id(ids@, next_id, i),
        r.1 == first_fresh(ids@, next_id) + fresh_before(ids@, ids@.len() as int),
        forall|i: int| 0 <= i < ids@.len() ==> #[trigger] r.0@[i] != 0,
        forall|i: int, j: int| 0 <= i < j < ids@.len() ==> #[trigger] r.0@[i] != #[trigger] r.0@[j],
        forall|i: int| 0 <= i < ids@.len() ==> #[trigger] r.0@[i] < r.1,
{
    let n = ids.len();
    let mut seen: Vec<u64> = Vec::new();
    let mut keep: Vec<bool> = Vec::new();
    let mut highest: u64 = 0;
    let mut i: usize = 0;
    while i < n
        invariant
            n == ids@.len(),
            i <= n,
            increasing(seen@),
            forall|x: u64| #[trigger] set_of(seen@).contains(x) <==> exists|j: int| 0 <= j < i && ids@[j] == x && x != 0,
            keep@.len() == i,
            forall|j: int| 0 <= j < i ==> #[trigger] keep@[j] == keeps_id(ids@, j),
            highest == highest_kept(ids@, i as int),
        decreases n - i,
    {
        let id = ids[i];
        let fresh = id == 0 || member(&seen, id);
        proof {
            if id != 0 && !fresh {
                assert forall|j: int| 0 <= j < i implies ids@[j] != id by {
                    if ids@[j] == id {
                        assert(set_of(seen@).contains(id));
                    }
                }
            }
            if id != 0 && fresh {
                assert(set_of(seen@).contains(id));
                let j = choose|j: int| 0 <= j < i && ids@[j] == id && id != 0;
                assert(!keeps_id(ids@, i as int));
            }
        }
        keep.push(!fresh);
        if !fresh {
            if id > highest {
                highest = id;
            }
            let ghost before = seen@;
            insert_sorted(&mut seen, id);
            proof {
                assert forall|x: u64| #[trigger] set_of(seen@).contains(x) <==> exists|j: int| 0 <= j < i + 1 && ids@[j] == x && x != 0 by {
                    if set_of(before).contains(x) {
                        let j = choose|j: int| 0 <= j < i && ids@[j] == x && x != 0;
                        assert(0 <= j < i + 1 && ids@[j] == x);
                    }
                    if x == id {
                        assert(ids@[i as int] == x);
                    }
                }
            }
        } else {
            proof {
                assert forall|x: u64| #[trigger] set_of(seen@).contains(x) <==> exists|j: int| 0 <= j < i + 1 && ids@[j] == x && x != 0 by {
                    if exists|j: int| 0 <= j < i + 1 && ids@[j] == x && x != 0 {
                        let j = choose|j: int| 0 <= j < i + 1 && ids@[j] == x && x != 0;
                        if j == i {
                            assert(set_of(seen@).contains(id));
                        } else {
                            assert(set_of(seen@).contains(x));
                        }
                    }
                }
            }
        }
        proof {
            assert(keep@[i as int] == keeps_id(ids@, i as int));
        }
        i = i + 1;
    }
    proof {
        lemma_fresh_grows(ids@, 0, n as int);
        lemma_highest_nonnegative(ids@, n as int);
        assert(highest + 1 <= first_fresh(ids@, next_id));
    }
    let mut next: u64 = if next_id >= highest + 1 { next_id } else { highest + 1 };
    proof {
        assert(next == first_fresh(ids@, next_id));
        assert(fresh_before(ids@, 0) == 0);
    }
    let mut out: Vec<u64> = Vec::new();
    let mut k: usize = 0;
    while k < n
        invariant
            n == ids@.len(),
            k <= n,
            keep@.len() == n,
            forall|j: int| 0 <= j < n ==> #[trigger] keep@[j] == keeps_id(ids@, j),
            next == first_fresh(ids@, next_id) + fresh_before(ids@, k as int),
            first_fresh(ids@, next_id) + fresh_before(ids@, n as int) <= u64::MAX,
            out@.len() == k,
            forall|j: int| 0 <= j < k ==> (#[trigger] out@[j]) as int == repaired_id(ids@, next_id, j),
        decreases n - k,
    {
        proof {
            lemma_fresh_grows(ids@, k as int, n as int);
        }
        if keep[k] {
            out.push(ids[k]);
        } else {
            out.push(next);
            next = next + 1;
        }
        k = k + 1;
    }
    proof {
        let first = first_fresh(ids@, next_id);
        lemma_highest_nonnegative(ids@, n as int);
        assert forall|i: int| 0 <= i < n implies #[trigger] out@[i] != 0 by {
            if !keeps_id(ids@, i) {
                lemma_fresh_grows(ids@, 0, i);
                assert(first >= 1);
            }
        }
        assert forall|i: int| 0 <= i < n implies #[trigger] out@[i] < next by {
            lemma_fresh_grows(ids@, i, n as int);
            if keeps_id(ids@, i) {
                lemma_highest_kept(ids@, n as int, i);
            }
        }
        assert forall|i: int, j: int| 0 <= i < j < n implies #[trigger] out@[i] != #[trigger] out@[j] by {
            lemma_fresh_grows(ids@, 0, i);
            lemma_fresh_grows(ids@, 0, j);
            if keeps_id(ids@, i) && keeps_id(ids@, j) {
            } else if keeps_id(ids@, i) {
                lemma_highest_kept(ids@, n as int, i);
            } else if keeps_id(ids@, j) {
                lemma_highest_kept(ids@, n as int, j);
            } else {
                lemma_fresh_grows(ids@, i, j);
            }
        }
    }
    (out, next)
}

/// Gives the next id of a book: never 0, and one past it the next time.
pub fn new_id(next_id: &mut u64) -> (id: u64)
    requires
        *old(next_id) < u64::MAX,
    ensures
        id == (if *old(next_id) == 0 { 1 } else { *old(next_id) }),
        *final(next_id) == id + 1,
{
    if *next_id == 0 {
        *next_id = 1;
    }
    let id = *next_id;
    *next_id = id + 1;
    id
}

/// Where a drawing goes in the stack of its symbol.
#[derive(Debug, Clone, Copy, PartialEq, Eq, Structural)]
pub enum Order {
    Front,
    Forward,
    Backward,
    Back,
}

/// Where the drawing at `index` of a stack of `len` goes: the top, one up, one down, or the
/// bottom (the last one is drawn on top and picked first).
pub open spec fn reorder_target(index: int, len: int, order: Order) -> int {
    match order {
        Order::Front => len - 1,
        Order::Forward => if index + 1 <= len - 1 { index + 1 } else { len - 1 },
        Order::Backward => if index >= 1 { index - 1 } else { 0 },
        Order::Back => 0,
    }
}

/// Moves the item at `index` up or down the stack; false, with nothing changed, when it is
/// already where it would go.
pub fn reorder<T>(list: &mut Vec<T>, index: usize, order: Order) -> (moved: bool)
    requires
        index < old(list)@.len(),
    ensures
        moved == (reorder_target(index as int, old(list)@.len() as int, order) != index),
        !moved ==> final(list)@ == old(list)@,
        moved ==> final(list)@ == old(list)@.remove(index as int).insert(
            reorder_target(index as int, old(list)@.len() as int, order),
            old(list)@[index as int],
        ),
{
    let last = list.len() - 1;
    let target = match order {
        Order::Front => last,
        Order::Forward => if index + 1 <= last { index + 1 } else { last },
        Order::Backward => if index >= 1 { index - 1 } else { 0 },
        Order::Back => 0,
    };
    if target == index {
        return false;
    }
    let item = list.remove(index);
    list.insert(target, item);
    true
}

/// The steps undo and redo walk: what the drawings of a symbol were before each change.
pub struct History<S> {
    undo: Vec<S>,
    redo: Vec<S>,
}

impl<S> History<S> {
    /// The steps undo would go back through, the last one first.
    pub closed spec fn undo_steps(&self) -> Seq<S> {
        self.undo@
    }

    /// The steps redo would go forward through, the last one first.
    pub closed spec fn redo_steps(&self) -> Seq<S> {
        self.redo@
    }

    /// Nothing to undo or redo.
    pub fn new() -> (h: History<S>)
        ensures
            h.undo_steps().len() == 0,
            h.redo_steps().len() == 0,
    {
        History { undo: Vec::new(), redo: Vec::new() }
    }

    pub fn can_undo(&self) -> (r: bool)
        ensures
            r == (self.undo_steps().len() > 0),
    {
        self.undo.len() > 0
    }

    pub fn can_redo(&self) -> (r: bool)
        ensures
            r == (self.redo_steps().len() > 0),
    {
        self.redo.len() > 0
    }

    /// A change is made: what was before it is the last step to undo, the oldest step goes past
    /// `UNDO_DEPTH`, and nothing is left to redo.
    pub fn remember(&mut self, before: S)
        ensures
            final(self).undo_steps() == (if old(self).undo_steps().len() + 1 > UNDO_DEPTH {
                old(self).undo_steps().push(before).drop_first()
            } else {
                old(self).undo_steps().push(before)
            }),
            final(self).redo_steps().len() == 0,
    {
        self.undo.push(before);
        if self.undo.len() > UNDO_DEPTH {
            self.undo.remove(0);
        }
        self.redo.clear();
    }

    /// Takes the last step to undo, if any.
    pub fn take_undo(&mut self) -> (r: Option<S>)
        ensures
            old(self).undo_steps().len() == 0 ==> r is None && final(self).undo_steps() == old(self).undo_steps()
                && final(self).redo_steps() == old(self).redo_steps(),
            old(self).undo_steps().len() > 0 ==> r == Some(old(self).undo_steps().last())
                && final(self).undo_steps() == old(self).undo_steps().drop_last()
                && final(self).redo_steps() == old(self).redo_steps(),
    {
        self.undo.pop()
    }

    /// Takes the last step to redo, if any.
    pub fn take_redo(&mut self) -> (r: Option<S>)
        ensures
            old(self).redo_steps().len() == 0 ==> r is None && final(self).undo_steps() == old(self).undo_steps()
                && final(self).redo_steps() == old(self).redo_steps(),
            old(self).redo_steps().len() > 0 ==> r == Some(old(self).redo_steps().last())
                && final(self).redo_steps() == old(self).redo_steps().drop_last()
                && final(self).undo_steps() == old(self).undo_steps(),
    {
        self.redo.pop()
    }

    /// What an undo replaced can be redone.
    pub fn push_redo(&mut self, current: S)
        ensures
            final(self).redo_steps() == old(self).redo_steps().push(current),
            final(self).undo_steps() == old(self).undo_steps(),
    {
        self.redo.push(current);
    }

    /// What a redo replaced can be undone again.
    pub fn push_undo(&mut self, current: S)
        ensures
            final(self).undo_steps() == old(self).undo_steps().push(current),
            final(self).redo_steps() == old(self).redo_steps(),
    {
        self.undo.push(current);
    }
}

/// Undo and redo walk through every change: undoing takes back the last step remembered, and
/// what it replaced is what redo gives back; and a new change leaves nothing to redo.
pub proof fn law_undo_and_redo_walk_back_and_forth<S>(undo: Seq<S>, redo: Seq<S>, current: S)
    requires
        undo.len() > 0,
    ensures
        ({
            let step = undo.last();
            let undo_after = undo.drop_last();
            let redo_after = redo.push(current);
            redo_after.last() == current && redo_after.drop_last() == redo && undo_after.push(step) == undo
        }),
{
    assert(undo.drop_last().push(undo.last()) =~= undo);
    assert(redo.push(current).drop_last() =~= redo);
}

} // verus!
