//! Keeps the server's price and live bar subscriptions in step with what the app shows.
//!
//! Several charts may follow the same symbol and period, the header follows a symbol, the account
//! follows the symbols it holds positions in, and a chart that changes symbol or timeframe must
//! not cancel a subscription something else still needs. So nobody subscribes themselves: each
//! owner states what it wants, the union of every wish is worked out, and the differences from
//! what is subscribed are applied one after the other.

use vstd::prelude::*;

use crate::sorted::{difference, increasing, insert_sorted, lemma_set_of_push, set_of, BarFeed, SetKey};

verus! {

/// What one owner wants followed.
#[derive(Debug, Clone)]
pub struct Wish {
    /// Symbols whose prices it wants, in increasing order.
    pub spots: Vec<i64>,
    /// A symbol and period whose live bars it wants.
    pub bars: Option<BarFeed>,
}

/// What a wish asks for: a set of prices, and perhaps the live bars of one symbol and period.
pub struct WishView {
    pub spots: Set<i64>,
    pub bars: Option<BarFeed>,
}

impl View for Wish {
    type V = WishView;

    open spec fn view(&self) -> WishView {
        WishView { spots: set_of(self.spots@), bars: self.bars }
    }
}

impl Wish {
    /// Whether the prices are listed once each, in increasing order.
    pub open spec fn wf(&self) -> bool {
        increasing(self.spots@)
    }

    /// The prices of one symbol, and optionally its live bars of a period.
    pub fn symbol(symbol: i64, period: Option<u32>) -> (w: Wish)
        ensures
            w.wf(),
            w@.spots == Set::<i64>::empty().insert(symbol),
            w@.bars == (match period {
                Some(p) => Some(BarFeed { symbol, period: p }),
                None => None::<BarFeed>,
            }),
    {
        let mut spots: Vec<i64> = Vec::new();
        insert_sorted(&mut spots, symbol);
        proof {
            assert(set_of(Seq::<i64>::empty()) =~= Set::<i64>::empty());
        }
        let bars = match period {
            Some(p) => Some(BarFeed { symbol, period: p }),
            None => None,
        };
        Wish { spots, bars }
    }

    /// The prices of these symbols, and no live bars.
    pub fn spots(symbols: &[i64]) -> (w: Wish)
        ensures
            w.wf(),
            w@.spots == set_of(symbols@),
            w@.bars is None,
    {
        let mut spots: Vec<i64> = Vec::new();
        let mut i: usize = 0;
        proof {
            assert(set_of(Seq::<i64>::empty()) =~= set_of(symbols@.subrange(0, 0)));
        }
        while i < symbols.len()
            invariant
                i <= symbols@.len(),
                increasing(spots@),
                set_of(spots@) == set_of(symbols@.subrange(0, i as int)),
            decreases symbols@.len() - i,
        {
            insert_sorted(&mut spots, symbols[i]);
            proof {
                assert(symbols@.subrange(0, i + 1) =~= symbols@.subrange(0, i as int).push(symbols@[i as int]));
                lemma_set_of_push(symbols@.subrange(0, i as int), symbols@[i as int]);
            }
            i = i + 1;
        }
        proof {
            assert(symbols@.subrange(0, symbols@.len() as int) =~= symbols@);
        }
        Wish { spots, bars: None }
    }

    /// Whether it asks for nothing.
    pub fn is_empty(&self) -> (r: bool)
        ensures
            r == (self@.spots.is_empty() && self@.bars is None),
    {
        proof {
            if self.spots@.len() > 0 {
                assert(set_of(self.spots@).contains(self.spots@[0]));
            } else {
                assert(set_of(self.spots@) =~= Set::<i64>::empty());
            }
        }
        self.spots.len() == 0 && self.bars.is_none()
    }
}

/// Whether a wish asks for the price of `symbol`: directly, or because it wants live bars of it,
/// which ride on the price subscription.
pub open spec fn wants_spot(w: WishView, symbol: i64) -> bool {
    w.spots.contains(symbol) || (w.bars matches Some(f) && f.symbol == symbol)
}

/// Everything wanted together.
#[derive(Debug, Clone)]
pub struct Wanted {
    pub spots: Vec<i64>,
    pub bars: Vec<BarFeed>,
}

/// Everything wanted together: a set of prices and a set of live bars.
pub struct WantedView {
    pub spots: Set<i64>,
    pub bars: Set<BarFeed>,
}

impl View for Wanted {
    type V = WantedView;

    open spec fn view(&self) -> WantedView {
        WantedView { spots: set_of(self.spots@), bars: set_of(self.bars@) }
    }
}

impl Wanted {
    /// Whether both lists hold each value once, in increasing order.
    pub open spec fn wf(&self) -> bool {
        increasing(self.spots@) && increasing(self.bars@)
    }

    /// Nothing at all.
    pub fn new() -> (w: Wanted)
        ensures
            w.wf(),
            w@.spots == Set::<i64>::empty(),
            w@.bars == Set::<BarFeed>::empty(),
    {
        let w = Wanted { spots: Vec::new(), bars: Vec::new() };
        proof {
            assert(set_of(w.spots@) =~= Set::<i64>::empty());
            assert(set_of(w.bars@) =~= Set::<BarFeed>::empty());
        }
        w
    }
}

impl Wanted {
    /// Whether two unions want the same, list for list.
    pub fn same(&self, other: &Wanted) -> (r: bool)
        ensures
            r == (self.spots@ == other.spots@ && self.bars@ == other.bars@),
    {
        if self.spots.len() != other.spots.len() || self.bars.len() != other.bars.len() {
            return false;
        }
        let mut i: usize = 0;
        while i < self.spots.len()
            invariant
                self.spots@.len() == other.spots@.len(),
                i <= self.spots@.len(),
                forall|j: int| 0 <= j < i ==> self.spots@[j] == other.spots@[j],
            decreases self.spots@.len() - i,
        {
            if self.spots[i] != other.spots[i] {
                return false;
            }
            i = i + 1;
        }
        let mut k: usize = 0;
        while k < self.bars.len()
            invariant
                self.bars@.len() == other.bars@.len(),
                self.spots@ == other.spots@,
                k <= self.bars@.len(),
                forall|j: int| 0 <= j < k ==> self.bars@[j] == other.bars@[j],
            decreases self.bars@.len() - k,
        {
            let (a, b) = (self.bars[k], other.bars[k]);
            if a.symbol != b.symbol || a.period != b.period {
                return false;
            }
            k = k + 1;
        }
        proof {
            assert(self.spots@ =~= other.spots@);
            assert(self.bars@ =~= other.bars@);
        }
        true
    }
}

/// What each owner wants.
pub struct Wishes {
    entries: Vec<(u64, Wish)>,
}

impl Wishes {
    /// Every owner is listed once, with a wish that asks for something.
    pub closed spec fn wf(&self) -> bool {
        &&& forall|a: int, b: int| 0 <= a < b < self.entries@.len() ==> (#[trigger] self.entries@[a]).0 != (#[trigger] self.entries@[b]).0
        &&& forall|k: int| 0 <= k < self.entries@.len() ==> (#[trigger] self.entries@[k]).1.wf()
        &&& forall|k: int| 0 <= k < self.entries@.len() ==> !(#[trigger] self.entries@[k]).1@.spots.is_empty() || self.entries@[k].1@.bars is Some
    }

    /// What `owner` wants, if it wants anything.
    pub closed spec fn wish_of(&self, owner: u64) -> Option<WishView> {
        if exists|k: int| 0 <= k < self.entries@.len() && (#[trigger] self.entries@[k]).0 == owner {
            let k = choose|k: int| 0 <= k < self.entries@.len() && (#[trigger] self.entries@[k]).0 == owner;
            Some(self.entries@[k].1@)
        } else {
            None
        }
    }

    proof fn lemma_wish_at(&self, k: int)
        requires
            self.wf(),
            0 <= k < self.entries@.len(),
        ensures
            self.wish_of(self.entries@[k].0) == Some(self.entries@[k].1@),
    {
        let owner = self.entries@[k].0;
        assert(exists|j: int| 0 <= j < self.entries@.len() && (#[trigger] self.entries@[j]).0 == owner) by {
            assert(self.entries@[k].0 == owner);
        }
        let j = choose|j: int| 0 <= j < self.entries@.len() && (#[trigger] self.entries@[j]).0 == owner;
        if j != k {
            if j < k {
                assert(self.entries@[j].0 != self.entries@[k].0);
            } else {
                assert(self.entries@[k].0 != self.entries@[j].0);
            }
        }
    }

    /// Nobody wants anything.
    pub fn new() -> (w: Wishes)
        ensures
            w.wf(),
            forall|o: u64| w.wish_of(o) is None,
    {
        Wishes { entries: Vec::new() }
    }

    /// Records the wish of one owner (an empty one, or none, takes the owner away) and returns
    /// the union of every wish. A symbol with live bars always has its prices too: live bars
    /// ride on the price subscription.
    pub fn set(&mut self, owner: u64, wish: Option<Wish>) -> (wanted: Wanted)
        requires
            old(self).wf(),
            wish matches Some(w) ==> w.wf(),
        ensures
            final(self).wf(),
            forall|o: u64| o != owner ==> #[trigger] final(self).wish_of(o) == old(self).wish_of(o),
            final(self).wish_of(owner) == (match wish {
                Some(w) => if w@.spots.is_empty() && w@.bars is None { None::<WishView> } else { Some(w@) },
                None => None::<WishView>,
            }),
            wanted.wf(),
            forall|s: i64| #[trigger] wanted@.spots.contains(s) <==> exists|o: u64| #[trigger] final(self).wish_of(o) matches Some(w) && wants_spot(w, s),
            forall|f: BarFeed| #[trigger] wanted@.bars.contains(f) <==> exists|o: u64| #[trigger] final(self).wish_of(o) matches Some(w) && w.bars == Some(f),
    {
        let ghost before = *old(self);
        let mut i: usize = 0;
        let mut found: Option<usize> = None;
        while i < self.entries.len()
            invariant
                self.wf(),
                *self == before,
                i <= self.entries@.len(),
                found matches Some(f) ==> f < i && self.entries@[f as int].0 == owner,
                found is None ==> forall|k: int| 0 <= k < i ==> (#[trigger] self.entries@[k]).0 != owner,
            decreases self.entries@.len() - i,
        {
            if found.is_none() && self.entries[i].0 == owner {
                found = Some(i);
            }
            i = i + 1;
        }
        let i: usize = match found {
            Some(f) => f,
            None => self.entries.len(),
        };
        if i < self.entries.len() {
            let ghost at = self.entries@;
            self.entries.remove(i);
            proof {
                assert(forall|k: int| 0 <= k < self.entries@.len() ==> self.entries@[k] == (if k < i { at[k] } else { at[k + 1] }));
                assert forall|a: int, b: int| 0 <= a < b < self.entries@.len() implies (#[trigger] self.entries@[a]).0 != (#[trigger] self.entries@[b]).0 by {
                    let a2 = if a < i { a } else { a + 1 };
                    let b2 = if b < i { b } else { b + 1 };
                    assert(at[a2].0 != at[b2].0);
                }
            }
        }
        proof {
            assert forall|o: u64| o != owner implies #[trigger] self.wish_of(o) == before.wish_of(o) by {
                if exists|k: int| 0 <= k < before.entries@.len() && (#[trigger] before.entries@[k]).0 == o {
                    let k = choose|k: int| 0 <= k < before.entries@.len() && (#[trigger] before.entries@[k]).0 == o;
                    before.lemma_wish_at(k);
                    let k2 = if k < i { k } else { k - 1 };
                    assert(self.entries@[k2] == before.entries@[k]);
                    self.lemma_wish_at(k2);
                } else if exists|k: int| 0 <= k < self.entries@.len() && (#[trigger] self.entries@[k]).0 == o {
                    let k = choose|k: int| 0 <= k < self.entries@.len() && (#[trigger] self.entries@[k]).0 == o;
                    let k2 = if k < i { k } else { k + 1 };
                    assert(before.entries@[k2] == self.entries@[k]);
                }
            }
            assert forall|k: int| 0 <= k < self.entries@.len() implies (#[trigger] self.entries@[k]).0 != owner by {
                let k2 = if k < i { k } else { k + 1 };
                if i < before.entries@.len() {
                    if k2 != i {
                        if k2 < i {
                            assert(before.entries@[k2].0 != before.entries@[i as int].0);
                        } else {
                            assert(before.entries@[i as int].0 != before.entries@[k2].0);
                        }
                    }
                }
            }
        }
        match wish {
            Some(w) => {
                if !w.is_empty() {
                    let ghost mid = *self;
                    self.entries.push((owner, w));
                    proof {
                        assert forall|a: int, b: int| 0 <= a < b < self.entries@.len() implies (#[trigger] self.entries@[a]).0 != (#[trigger] self.entries@[b]).0 by {
                            if b < mid.entries@.len() {
                                assert(mid.entries@[a].0 != mid.entries@[b].0);
                            }
                        }
                        assert forall|o: u64| o != owner implies #[trigger] self.wish_of(o) == mid.wish_of(o) by {
                            if exists|k: int| 0 <= k < mid.entries@.len() && (#[trigger] mid.entries@[k]).0 == o {
                                let k = choose|k: int| 0 <= k < mid.entries@.len() && (#[trigger] mid.entries@[k]).0 == o;
                                mid.lemma_wish_at(k);
                                assert(self.entries@[k] == mid.entries@[k]);
                                self.lemma_wish_at(k);
                            } else if exists|k: int| 0 <= k < self.entries@.len() && (#[trigger] self.entries@[k]).0 == o {
                                let k = choose|k: int| 0 <= k < self.entries@.len() && (#[trigger] self.entries@[k]).0 == o;
                                assert(k < mid.entries@.len());
                                assert(mid.entries@[k] == self.entries@[k]);
                            }
                        }
                        self.lemma_wish_at(self.entries@.len() - 1);
                    }
                }
            },
            None => {},
        }
        self.union()
    }

    /// Everything the owners want together.
    fn union(&self) -> (wanted: Wanted)
        requires
            self.wf(),
        ensures
            wanted.wf(),
            forall|s: i64| #[trigger] wanted@.spots.contains(s) <==> exists|o: u64| #[trigger] self.wish_of(o) matches Some(w) && wants_spot(w, s),
            forall|f: BarFeed| #[trigger] wanted@.bars.contains(f) <==> exists|o: u64| #[trigger] self.wish_of(o) matches Some(w) && w.bars == Some(f),
    {
        let mut wanted = Wanted::new();
        let mut k: usize = 0;
        while k < self.entries.len()
            invariant
                self.wf(),
                k <= self.entries@.len(),
                wanted.wf(),
                forall|s: i64| #[trigger] wanted@.spots.contains(s) <==> exists|j: int| 0 <= j < k && wants_spot((#[trigger] self.entries@[j]).1@, s),
                forall|f: BarFeed| #[trigger] wanted@.bars.contains(f) <==> exists|j: int| 0 <= j < k && (#[trigger] self.entries@[j]).1@.bars == Some(f),
            decreases self.entries@.len() - k,
        {
            let ghost before = wanted@;
            let w = &self.entries[k].1;
            let mut n: usize = 0;
            while n < w.spots.len()
                invariant
                    w.wf(),
                    n <= w.spots@.len(),
                    wanted.wf(),
                    forall|s: i64| #[trigger] wanted@.spots.contains(s) <==> before.spots.contains(s) || w.spots@.subrange(0, n as int).contains(s),
                    wanted@.bars == before.bars,
                decreases w.spots@.len() - n,
            {
                let ghost prev = wanted@;
                insert_sorted(&mut wanted.spots, w.spots[n]);
                proof {
                    assert(w.spots@.subrange(0, n + 1) =~= w.spots@.subrange(0, n as int).push(w.spots@[n as int]));
                    lemma_set_of_push(w.spots@.subrange(0, n as int), w.spots@[n as int]);
                    assert forall|s: i64| #[trigger] wanted@.spots.contains(s) <==> before.spots.contains(s) || w.spots@.subrange(0, n + 1).contains(s) by {
                        assert(prev.spots.contains(s) <==> before.spots.contains(s) || w.spots@.subrange(0, n as int).contains(s));
                        assert(set_of(w.spots@.subrange(0, n + 1)).contains(s) == w.spots@.subrange(0, n + 1).contains(s));
                        assert(set_of(w.spots@.subrange(0, n as int)).contains(s) == w.spots@.subrange(0, n as int).contains(s));
                    }
                }
                n = n + 1;
            }
            proof {
                assert(w.spots@.subrange(0, w.spots@.len() as int) =~= w.spots@);
            }
            let ghost middle = wanted@;
            match w.bars {
                Some(f) => {
                    insert_sorted(&mut wanted.spots, f.symbol);
                    insert_sorted(&mut wanted.bars, f);
                },
                None => {},
            }
            proof {
                assert forall|s: i64| #[trigger] wanted@.spots.contains(s) <==> before.spots.contains(s) || wants_spot(w@, s) by {
                    assert(middle.spots.contains(s) <==> before.spots.contains(s) || w.spots@.subrange(0, w.spots@.len() as int).contains(s));
                    assert(set_of(w.spots@).contains(s) == w.spots@.contains(s));
                }
                assert forall|f: BarFeed| #[trigger] wanted@.bars.contains(f) <==> before.bars.contains(f) || w@.bars == Some(f) by {}
                assert forall|s: i64| #[trigger] wanted@.spots.contains(s) <==> exists|j: int| 0 <= j < k + 1 && wants_spot((#[trigger] self.entries@[j]).1@, s) by {
                    assert(wanted@.spots.contains(s) <==> before.spots.contains(s) || wants_spot(w@, s));
                    if wants_spot(self.entries@[k as int].1@, s) {
                        assert(0 <= k < k + 1);
                    }
                    if exists|j: int| 0 <= j < k + 1 && wants_spot((#[trigger] self.entries@[j]).1@, s) {
                        let j = choose|j: int| 0 <= j < k + 1 && wants_spot((#[trigger] self.entries@[j]).1@, s);
                        if j < k {
                            assert(before.spots.contains(s));
                        }
                    }
                }
                assert forall|f: BarFeed| #[trigger] wanted@.bars.contains(f) <==> exists|j: int| 0 <= j < k + 1 && (#[trigger] self.entries@[j]).1@.bars == Some(f) by {
                    if exists|j: int| 0 <= j < k + 1 && (#[trigger] self.entries@[j]).1@.bars == Some(f) {
                        let j = choose|j: int| 0 <= j < k + 1 && (#[trigger] self.entries@[j]).1@.bars == Some(f);
                        if j < k {
                            assert(before.bars.contains(f));
                        }
                    }
                }
            }
            k = k + 1;
        }
        proof {
            assert forall|s: i64| #[trigger] wanted@.spots.contains(s) <==> exists|o: u64| #[trigger] self.wish_of(o) matches Some(w) && wants_spot(w, s) by {
                if wanted@.spots.contains(s) {
                    let j = choose|j: int| 0 <= j < self.entries@.len() && wants_spot((#[trigger] self.entries@[j]).1@, s);
                    self.lemma_wish_at(j);
                    assert(self.wish_of(self.entries@[j].0) matches Some(w) && wants_spot(w, s));
                }
                if exists|o: u64| #[trigger] self.wish_of(o) matches Some(w) && wants_spot(w, s) {
                    let o = choose|o: u64| #[trigger] self.wish_of(o) matches Some(w) && wants_spot(w, s);
                    let j = choose|j: int| 0 <= j < self.entries@.len() && (#[trigger] self.entries@[j]).0 == o;
                    self.lemma_wish_at(j);
                    assert(wants_spot(self.entries@[j].1@, s));
                }
            }
            assert forall|f: BarFeed| #[trigger] wanted@.bars.contains(f) <==> exists|o: u64| #[trigger] self.wish_of(o) matches Some(w) && w.bars == Some(f) by {
                if wanted@.bars.contains(f) {
                    let j = choose|j: int| 0 <= j < self.entries@.len() && (#[trigger] self.entries@[j]).1@.bars == Some(f);
                    self.lemma_wish_at(j);
                    assert(self.wish_of(self.entries@[j].0) matches Some(w) && w.bars == Some(f));
                }
                if exists|o: u64| #[trigger] self.wish_of(o) matches Some(w) && w.bars == Some(f) {
                    let o = choose|o: u64| #[trigger] self.wish_of(o) matches Some(w) && w.bars == Some(f);
                    let j = choose|j: int| 0 <= j < self.entries@.len() && (#[trigger] self.entries@[j]).0 == o;
                    self.lemma_wish_at(j);
                }
            }
        }
        wanted
    }
}

/// The steps that take the server from what is subscribed to what is wanted, in the order they
/// must run: live bars go before the prices they ride on, and come after them.
#[derive(Debug)]
pub struct Plan {
    pub unsubscribe_bars: Vec<BarFeed>,
    pub unsubscribe_spots: Vec<i64>,
    pub subscribe_spots: Vec<i64>,
    pub subscribe_bars: Vec<BarFeed>,
}

/// The steps of a plan, as sets.
pub struct PlanView {
    pub unsubscribe_bars: Set<BarFeed>,
    pub unsubscribe_spots: Set<i64>,
    pub subscribe_spots: Set<i64>,
    pub subscribe_bars: Set<BarFeed>,
}

impl View for Plan {
    type V = PlanView;

    open spec fn view(&self) -> PlanView {
        PlanView {
            unsubscribe_bars: set_of(self.unsubscribe_bars@),
            unsubscribe_spots: set_of(self.unsubscribe_spots@),
            subscribe_spots: set_of(self.subscribe_spots@),
            subscribe_bars: set_of(self.subscribe_bars@),
        }
    }
}

/// What has to go and what has to come to get from `current` to `want`.
pub open spec fn plan_spec(current: WantedView, want: WantedView) -> PlanView {
    PlanView {
        unsubscribe_bars: current.bars.difference(want.bars),
        unsubscribe_spots: current.spots.difference(want.spots),
        subscribe_spots: want.spots.difference(current.spots),
        subscribe_bars: want.bars.difference(current.bars),
    }
}

/// What is subscribed after the steps of `plan` ran on `current`.
pub open spec fn after_plan(current: WantedView, plan: PlanView) -> WantedView {
    WantedView {
        spots: current.spots.difference(plan.unsubscribe_spots).union(plan.subscribe_spots),
        bars: current.bars.difference(plan.unsubscribe_bars).union(plan.subscribe_bars),
    }
}

/// The steps that take the server from `current` to `want`, each list in increasing order.
pub fn plan(current: &Wanted, want: &Wanted) -> (steps: Plan)
    requires
        current.wf(),
        want.wf(),
    ensures
        steps@ == plan_spec(current@, want@),
        increasing(steps.unsubscribe_bars@),
        increasing(steps.unsubscribe_spots@),
        increasing(steps.subscribe_spots@),
        increasing(steps.subscribe_bars@),
{
    Plan {
        unsubscribe_bars: difference(&current.bars, &want.bars),
        unsubscribe_spots: difference(&current.spots, &want.spots),
        subscribe_spots: difference(&want.spots, &current.spots),
        subscribe_bars: difference(&want.bars, &current.bars),
    }
}

/// Running the plan from `current` to `want` leaves exactly `want` subscribed, and the plan from
/// a wish to itself has nothing to do.
pub proof fn law_the_plan_reaches_the_wish(current: WantedView, want: WantedView)
    ensures
        after_plan(current, plan_spec(current, want)) == want,
        plan_spec(want, want).unsubscribe_bars.is_empty(),
        plan_spec(want, want).unsubscribe_spots.is_empty(),
        plan_spec(want, want).subscribe_spots.is_empty(),
        plan_spec(want, want).subscribe_bars.is_empty(),
{
    let p = plan_spec(current, want);
    assert(current.spots.difference(p.unsubscribe_spots).union(p.subscribe_spots) =~= want.spots);
    assert(current.bars.difference(p.unsubscribe_bars).union(p.subscribe_bars) =~= want.bars);
    let q = plan_spec(want, want);
    assert(q.unsubscribe_bars =~= Set::empty());
    assert(q.unsubscribe_spots =~= Set::empty());
    assert(q.subscribe_spots =~= Set::empty());
    assert(q.subscribe_bars =~= Set::empty());
}

/// The prices wanted are every price some owner wants, with the symbol of every live bars wanted:
/// live bars are never wanted without their prices.
pub open spec fn wanted_spot(w: &Wishes, s: i64) -> bool {
    exists|o: u64| #[trigger] w.wish_of(o) matches Some(v) && wants_spot(v, s)
}

/// The live bars wanted are those some owner wants.
pub open spec fn wanted_bars(w: &Wishes, f: BarFeed) -> bool {
    exists|o: u64| #[trigger] w.wish_of(o) matches Some(v) && v.bars == Some(f)
}

/// Live bars ride on the price subscription: whenever live bars of a symbol are wanted, its
/// prices are too.
pub proof fn law_bars_ride_on_prices(w: &Wishes, f: BarFeed)
    requires
        wanted_bars(w, f),
    ensures
        wanted_spot(w, f.symbol),
{
    let o = choose|o: u64| #[trigger] w.wish_of(o) matches Some(v) && v.bars == Some(f);
    assert(w.wish_of(o) matches Some(v) && wants_spot(v, f.symbol));
}

/// A price stays while anyone wants it: when one owner changes its wish, a price another owner
/// wants is still wanted, and so are live bars another owner wants.
pub proof fn law_a_price_stays_while_anyone_wants_it(before: &Wishes, after: &Wishes, owner: u64, other: u64, s: i64, f: BarFeed)
    requires
        forall|o: u64| o != owner ==> #[trigger] after.wish_of(o) == before.wish_of(o),
        other != owner,
    ensures
        before.wish_of(other) matches Some(v) && wants_spot(v, s) ==> wanted_spot(after, s),
        before.wish_of(other) matches Some(v) && v.bars == Some(f) ==> wanted_bars(after, f),
{
    assert(after.wish_of(other) == before.wish_of(other));
}

} // verus!
