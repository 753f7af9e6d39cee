//! Order flow: how much traded at each price of each bar, split between sellers and buyers.
//!
//! The feed has no trade tape, only the bid and the ask tick by tick, so the flow is inferred
//! from the quotes: every quote that moves the middle of the spread is one unit of volume, a buy
//! when the middle rose and a sell when it fell, put on the bid price. A quote that only widened
//! or narrowed the spread counts for nothing.

use vstd::prelude::*;

verus! {

/// The most bars of flow kept. Older ones are dropped as new ones arrive.
pub const MAX_FLOW_BARS: usize = 3_000;

/// Which side of the market a unit of volume came from.
#[derive(Debug, Clone, Copy, PartialEq, Eq, Structural)]
pub enum Side {
    /// Sellers hit the bid.
    Sell,
    /// Buyers lifted the ask.
    Buy,
}

/// A quote of the feed: its time and the sides that changed.
#[derive(Debug, Clone, Copy, PartialEq, Eq, Structural)]
pub struct Quote {
    pub time_ms: i64,
    pub bid: Option<i64>,
    pub ask: Option<i64>,
}

/// `a` when it is there, else `b`.
pub open spec fn either(a: Option<i64>, b: Option<i64>) -> Option<i64> {
    match a {
        Some(x) => Some(x),
        None => b,
    }
}

/// Turns a stream of quotes into units of volume with a side.
#[derive(Debug, Clone, Copy, PartialEq, Eq, Structural)]
pub struct Classifier {
    pub bid: Option<i64>,
    pub ask: Option<i64>,
}

/// How far the quote `(bid, ask)` moved the market from `c`: the middle of the spread when both
/// sides are known before and after, else the bid alone. `None` when there is nothing to compare.
pub open spec fn movement(c: Classifier, bid: Option<i64>, ask: Option<i64>) -> Option<int> {
    let now = either(bid, c.bid);
    let a = either(ask, c.ask);
    match (now, c.bid, c.ask, a) {
        (Some(n), Some(ob), Some(oa), Some(a)) => Some((n + a) - (ob + oa)),
        (Some(n), Some(ob), _, _) => Some(n - ob),
        _ => None,
    }
}

/// What a quote is counted as: the bid price with the side that moved it, or nothing.
pub open spec fn classified(c: Classifier, bid: Option<i64>, ask: Option<i64>) -> Option<(i64, Side)> {
    match movement(c, bid, ask) {
        Some(m) => if m > 0 {
            Some((either(bid, c.bid).unwrap(), Side::Buy))
        } else if m < 0 {
            Some((either(bid, c.bid).unwrap(), Side::Sell))
        } else {
            None
        },
        None => None,
    }
}

/// The classifier once it has seen a quote: each side that changed is taken.
pub open spec fn after_quote(c: Classifier, bid: Option<i64>, ask: Option<i64>) -> Classifier {
    Classifier { bid: either(bid, c.bid), ask: either(ask, c.ask) }
}

impl Default for Classifier {
    fn default() -> (c: Self)
        ensures
            c.bid is None && c.ask is None,
    {
        Classifier { bid: None, ask: None }
    }
}

impl Classifier {
    /// The next quote (a side that did not change may be `None`). Returns the bid price and the
    /// side of the volume it stands for, or `None` when it shows no aggression.
    pub fn push(&mut self, bid: Option<i64>, ask: Option<i64>) -> (r: Option<(i64, Side)>)
        ensures
            r == classified(*old(self), bid, ask),
            *final(self) == after_quote(*old(self), bid, ask),
    {
        let old_bid = self.bid;
        let old_ask = self.ask;
        self.bid = match bid {
            Some(b) => Some(b),
            None => old_bid,
        };
        self.ask = match ask {
            Some(a) => Some(a),
            None => old_ask,
        };
        let now = match self.bid {
            Some(n) => n,
            None => return None,
        };
        let moved: i128 = match (old_bid, old_ask, self.ask) {
            (Some(ob), Some(oa), Some(a)) => (now as i128 + a as i128) - (ob as i128 + oa as i128),
            (Some(ob), _, _) => now as i128 - ob as i128,
            _ => return None,
        };
        if moved > 0 {
            Some((now, Side::Buy))
        } else if moved < 0 {
            Some((now, Side::Sell))
        } else {
            None
        }
    }
}

/// What traded at one price of a bar.
#[derive(Debug, Clone, Copy, PartialEq, Eq, Structural)]
pub struct Level {
    /// Raw price units.
    pub price: i64,
    pub sell: u32,
    pub buy: u32,
}

/// Prices strictly rising along the levels.
pub open spec fn prices_ascending(levels: Seq<Level>) -> bool {
    forall|i: int, j: int| 0 <= i < j < levels.len() ==> levels[i].price < levels[j].price
}

/// Where `price` belongs among the levels: after every lower price, before every other.
pub open spec fn is_price_slot(levels: Seq<Level>, price: i64, at: int) -> bool {
    &&& 0 <= at <= levels.len()
    &&& forall|j: int| 0 <= j < at ==> #[trigger] levels[j].price < price
    &&& forall|j: int| at <= j < levels.len() ==> #[trigger] levels[j].price >= price
}

pub open spec fn price_slot(levels: Seq<Level>, price: i64) -> int {
    choose|at: int| is_price_slot(levels, price, at)
}

/// One more unit of `side` at a level (the count stops at its largest value).
pub open spec fn bumped(level: Level, side: Side) -> Level {
    match side {
        Side::Sell => Level {
            sell: if level.sell == u32::MAX { u32::MAX } else { (level.sell + 1) as u32 },
            ..level
        },
        Side::Buy => Level {
            buy: if level.buy == u32::MAX { u32::MAX } else { (level.buy + 1) as u32 },
            ..level
        },
    }
}

/// The levels with one more unit of `side` at `price`, a new level being made when none holds it.
pub open spec fn levels_with(levels: Seq<Level>, price: i64, side: Side) -> Seq<Level> {
    let at = price_slot(levels, price);
    if at < levels.len() && levels[at].price == price {
        levels.update(at, bumped(levels[at], side))
    } else {
        levels.insert(at, bumped(Level { price, sell: 0, buy: 0 }, side))
    }
}

pub open spec fn sum_sell(levels: Seq<Level>) -> nat
    decreases levels.len(),
{
    if levels.len() == 0 {
        0
    } else {
        sum_sell(levels.drop_last()) + levels.last().sell as nat
    }
}

pub open spec fn sum_buy(levels: Seq<Level>) -> nat
    decreases levels.len(),
{
    if levels.len() == 0 {
        0
    } else {
        sum_buy(levels.drop_last()) + levels.last().buy as nat
    }
}

proof fn lemma_price_slot_unique(levels: Seq<Level>, price: i64, at: int)
    requires
        is_price_slot(levels, price, at),
    ensures
        price_slot(levels, price) == at,
{
    let other = price_slot(levels, price);
    assert(is_price_slot(levels, price, other));
    if other < at {
        assert(levels[other].price >= price);
        assert(levels[other].price < price);
    } else if other > at {
        assert(levels[at].price < price);
        assert(levels[at].price >= price);
    }
}

proof fn lemma_prefix_sums(levels: Seq<Level>, i: int)
    requires
        0 <= i <= levels.len(),
    ensures
        sum_sell(levels.subrange(0, i)) <= sum_sell(levels),
        sum_buy(levels.subrange(0, i)) <= sum_buy(levels),
    decreases levels.len(),
{
    if i < levels.len() {
        lemma_prefix_sums(levels.drop_last(), i);
        assert(levels.drop_last().subrange(0, i) =~= levels.subrange(0, i));
    } else {
        assert(levels.subrange(0, i) =~= levels);
    }
}

/// The flow of one bar, from the lowest price up.
#[derive(Debug, Clone, PartialEq, Eq)]
pub struct BarFlow {
    /// When the bar opens, Unix milliseconds.
    pub time_ms: i64,
    pub levels: Vec<Level>,
}

/// A bar's flow as a value: its open time and its levels.
pub struct BarView {
    pub time_ms: i64,
    pub levels: Seq<Level>,
}

impl View for BarFlow {
    type V = BarView;

    open spec fn view(&self) -> BarView {
        BarView { time_ms: self.time_ms, levels: self.levels@ }
    }
}

impl BarFlow {
    pub open spec fn wf(&self) -> bool {
        prices_ascending(self.levels@)
    }

    pub fn new(time_ms: i64) -> (b: Self)
        ensures
            b.time_ms == time_ms,
            b.levels@ == Seq::<Level>::empty(),
            b.wf(),
    {
        BarFlow { time_ms, levels: Vec::new() }
    }

    /// Where `price` is, or would go, among the levels.
    fn slot(&self, price: i64) -> (at: usize)
        requires
            self.wf(),
        ensures
            is_price_slot(self.levels@, price, at as int),
            at as int == price_slot(self.levels@, price),
    {
        let mut lo: usize = 0;
        let mut hi: usize = self.levels.len();
        while lo < hi
            invariant
                lo <= hi <= self.levels.len(),
                self.wf(),
                forall|j: int| 0 <= j < lo ==> #[trigger] self.levels@[j].price < price,
                forall|j: int| hi <= j < self.levels.len() ==> #[trigger] self.levels@[j].price
                    >= price,
            decreases hi - lo,
        {
            let mid = lo + (hi - lo) / 2;
            if self.levels[mid].price < price {
                lo = mid + 1;
            } else {
                hi = mid;
            }
        }
        proof {
            lemma_price_slot_unique(self.levels@, price, lo as int);
        }
        lo
    }

    /// Counts one unit of `side` at `price`, keeping the levels in price order.
    pub fn add(&mut self, price: i64, side: Side)
        requires
            old(self).wf(),
        ensures
            final(self).wf(),
            final(self).time_ms == old(self).time_ms,
            final(self).levels@ == levels_with(old(self).levels@, price, side),
    {
        let at = self.slot(price);
        let ghost before = self.levels@;
        if at < self.levels.len() && self.levels[at].price == price {
            let mut level = self.levels[at];
            match side {
                Side::Sell => level.sell = level.sell.saturating_add(1),
                Side::Buy => level.buy = level.buy.saturating_add(1),
            }
            self.levels.set(at, level);
            proof {
                assert(self.levels@ =~= before.update(at as int, bumped(before[at as int], side)));
            }
        } else {
            let mut level = Level { price, sell: 0, buy: 0 };
            match side {
                Side::Sell => level.sell = 1,
                Side::Buy => level.buy = 1,
            }
            self.levels.insert(at, level);
            proof {
                assert(self.levels@ =~= before.insert(
                    at as int,
                    bumped(Level { price, sell: 0, buy: 0 }, side),
                ));
                assert forall|i: int, j: int| 0 <= i < j < self.levels@.len() implies
                    self.levels@[i].price < self.levels@[j].price by {
                    if j < at {
                    } else if i < at && j == at {
                    } else if i < at {
                        assert(self.levels@[j] == before[j - 1]);
                    } else if i == at {
                        assert(self.levels@[j] == before[j - 1]);
                        assert(before[j - 1].price >= price);
                        if before[j - 1].price == price {
                            if j - 1 == at {
                            } else {
                                assert(before[at as int].price < before[j - 1].price);
                            }
                        }
                    } else {
                        assert(self.levels@[i] == before[i - 1]);
                        assert(self.levels@[j] == before[j - 1]);
                    }
                }
            }
        }
    }

    /// The units sold and bought in the whole bar (each total fits in 64 bits).
    pub fn totals(&self) -> (r: (u64, u64))
        requires
            sum_sell(self.levels@) <= u64::MAX,
            sum_buy(self.levels@) <= u64::MAX,
        ensures
            r.0 == sum_sell(self.levels@),
            r.1 == sum_buy(self.levels@),
    {
        let mut sell: u64 = 0;
        let mut buy: u64 = 0;
        let mut i: usize = 0;
        while i < self.levels.len()
            invariant
                i <= self.levels.len(),
                sum_sell(self.levels@) <= u64::MAX,
                sum_buy(self.levels@) <= u64::MAX,
                sell == sum_sell(self.levels@.subrange(0, i as int)),
                buy == sum_buy(self.levels@.subrange(0, i as int)),
            decreases self.levels.len() - i,
        {
            let ghost prefix = self.levels@.subrange(0, i as int);
            let ghost next = self.levels@.subrange(0, i + 1);
            proof {
                assert(next.drop_last() =~= prefix);
                lemma_prefix_sums(self.levels@, i + 1);
            }
            sell = sell + self.levels[i].sell as u64;
            buy = buy + self.levels[i].buy as u64;
            i = i + 1;
        }
        proof {
            assert(self.levels@.subrange(0, i as int) =~= self.levels@);
        }
        (sell, buy)
    }
}

/// Open times that never go down.
pub open spec fn non_decreasing(times: Seq<i64>) -> bool {
    forall|i: int, j: int| 0 <= i <= j < times.len() ==> times[i] <= times[j]
}

/// `n` splits the times into those at or before `t` and those after it.
pub open spec fn splits_upto(times: Seq<i64>, t: int, n: int) -> bool {
    &&& 0 <= n <= times.len()
    &&& forall|j: int| 0 <= j < n ==> #[trigger] times[j] <= t
    &&& forall|j: int| n <= j < times.len() ==> #[trigger] times[j] > t
}

/// `n` splits the times into those before `t` and the others.
pub open spec fn splits_below(times: Seq<i64>, t: int, n: int) -> bool {
    &&& 0 <= n <= times.len()
    &&& forall|j: int| 0 <= j < n ==> #[trigger] times[j] < t
    &&& forall|j: int| n <= j < times.len() ==> #[trigger] times[j] >= t
}

/// How many of the times are at or before `t` (for times in order, the first ones).
pub open spec fn count_upto(times: Seq<i64>, t: int) -> int {
    choose|n: int| splits_upto(times, t, n)
}

/// How many of the times are before `t`.
pub open spec fn count_below(times: Seq<i64>, t: int) -> int {
    choose|n: int| splits_below(times, t, n)
}

/// The first index of sorted `times` past `t` (or, with `strict`, at or past it).
fn partition(times: &[i64], t: i64, strict: bool) -> (n: usize)
    requires
        non_decreasing(times@),
    ensures
        n <= times@.len(),
        strict ==> n == count_below(times@, t as int),
        !strict ==> n == count_upto(times@, t as int),
        forall|j: int| 0 <= j < n ==> if strict { times@[j] < t } else { times@[j] <= t },
        forall|j: int| n <= j < times@.len() ==> if strict { times@[j] >= t } else { times@[j] > t },
{
    let mut lo: usize = 0;
    let mut hi: usize = times.len();
    while lo < hi
        invariant
            lo <= hi <= times@.len(),
            non_decreasing(times@),
            forall|j: int| 0 <= j < lo ==> if strict { times@[j] < t } else { times@[j] <= t },
            forall|j: int| hi <= j < times@.len() ==> if strict { times@[j] >= t } else {
                times@[j] > t
            },
        decreases hi - lo,
    {
        let mid = lo + (hi - lo) / 2;
        let below = if strict { times[mid] < t } else { times[mid] <= t };
        if below {
            lo = mid + 1;
        } else {
            hi = mid;
        }
    }
    proof {
        if strict {
            assert(splits_below(times@, t as int, lo as int));
            let c = count_below(times@, t as int);
            if c < lo {
                assert(times@[c] >= t);
            } else if c > lo {
                assert(times@[lo as int] < t);
            }
        } else {
            assert(splits_upto(times@, t as int, lo as int));
            let c = count_upto(times@, t as int);
            if c < lo {
                assert(times@[c] > t);
            } else if c > lo {
                assert(times@[lo as int] <= t);
            }
        }
    }
    lo
}

/// The open time of the bar a quote at `time_ms` falls in.
pub open spec fn bar_open_spec(times: Seq<i64>, bar_ms: Option<i64>, time_ms: i64) -> Option<i64> {
    let after = count_upto(times, time_ms as int);
    if after == 0 {
        None
    } else {
        let open = times[after - 1];
        match bar_ms {
            Some(ms) => if ms > 0 && after == times.len() && time_ms >= open + ms {
                Some((open + (time_ms - open) / (ms as int) * ms) as i64)
            } else {
                Some(open)
            },
            None => Some(open),
        }
    }
}

/// The open time of the bar a quote at `time_ms` belongs to, given the open times of the bars
/// (oldest first). A time past the newest bar belongs to it, or, once the bar is over, to the
/// bar that will open after it (`bar_ms` long), which the chart has not received yet. `None` for
/// a time before the first bar.
pub fn bar_open(times: &[i64], bar_ms: Option<i64>, time_ms: i64) -> (r: Option<i64>)
    requires
        non_decreasing(times@),
    ensures
        r == bar_open_spec(times@, bar_ms, time_ms),
{
    let after = partition(times, time_ms, false);
    if after == 0 {
        return None;
    }
    let open = times[after - 1];
    match bar_ms {
        Some(ms) => {
            if ms > 0 && after == times.len() && time_ms as i128 >= open as i128 + ms as i128 {
                let span = time_ms as i128 - open as i128;
                let q = span / (ms as i128);
                proof {
                    assert(0 <= q * ms <= span) by (nonlinear_arith)
                        requires
                            span >= 0,
                            ms > 0,
                            q as int == (span as int) / (ms as int),
                    ;
                }
                let whole = q * (ms as i128);
                Some((open as i128 + whole) as i64)
            } else {
                Some(open)
            }
        },
        None => Some(open),
    }
}


/// One request for flow: the bars `start..end` of the chart, the quotes of `from..=to`.
#[derive(Debug, Clone, Copy, PartialEq, Eq, Structural)]
pub struct Step {
    pub start: usize,
    pub end: usize,
    pub from: i64,
    pub to: i64,
    /// The open time of the oldest bar the request makes complete.
    pub covers: i64,
    /// Whether it reaches the present (the flow carries on from its end).
    pub newest: bool,
}

/// What the flow held has, for [`next_step`].
#[derive(Debug, Clone, Copy, PartialEq, Eq, Structural)]
pub struct Held {
    /// The oldest bar whose flow is complete, `None` when nothing is held.
    pub covered: Option<i64>,
    /// How many bars of flow are held.
    pub len: usize,
    /// The time of the last quote counted, when the quotes since it are missing.
    pub gap_after: Option<i64>,
}

pub open spec fn min_int(a: int, b: int) -> int {
    if a <= b { a } else { b }
}

pub open spec fn max_int(a: int, b: int) -> int {
    if a >= b { a } else { b }
}

/// What to ask for next (see [`next_step`]).
pub open spec fn next_step_spec(
    times: Seq<i64>,
    held: Held,
    want: int,
    per_chunk: int,
    now: i64,
) -> Option<Step> {
    let len = times.len() as int;
    let per = max_int(per_chunk, 1);
    let w = min_int(want, len - 1);
    if len == 0 {
        None
    } else {
        match (held.covered, held.gap_after) {
            (Some(covered), Some(last)) => {
                let start = min_int(max_int(count_upto(times, last as int) - 1, 0), len - 1);
                Some(Step { start: start as usize, end: len as usize, from: last, to: now, covers: covered, newest: true })
            },
            (None, _) => {
                let start = max_int(w, max_int(len - per, 0));
                Some(Step {
                    start: start as usize,
                    end: len as usize,
                    from: times[start],
                    to: now,
                    covers: times[start],
                    newest: true,
                })
            },
            (Some(covered), None) => {
                let end = count_below(times, covered as int);
                if held.len >= MAX_FLOW_BARS || end == 0 || end <= w {
                    None
                } else {
                    let start = max_int(w, max_int(end - per, 0));
                    Some(Step {
                        start: start as usize,
                        end: end as usize,
                        from: times[start],
                        to: (covered - 1) as i64,
                        covers: times[start],
                        newest: false,
                    })
                }
            },
        }
    }
}

/// What to ask for next, given the open times of the bars (oldest first), what is held, `want`
/// (the index of the oldest bar the screen needs), `per_chunk` (the most bars one request covers)
/// and the time now.
///
/// Nothing is held: the newest bars, whatever the screen needs, so live quotes have something to
/// join. A gap: the quotes since the last one counted. Otherwise the bars before the oldest held,
/// a chunk at a time, until the screen is covered. `None` when there is nothing to ask.
pub fn next_step(
    times: &[i64],
    held: Held,
    want: usize,
    per_chunk: usize,
    now: i64,
) -> (r: Option<Step>)
    requires
        non_decreasing(times@),
    ensures
        r == next_step_spec(times@, held, want as int, per_chunk as int, now),
{
    let len = times.len();
    if len == 0 {
        return None;
    }
    let per = if per_chunk > 1 { per_chunk } else { 1 };
    let w = if want < len - 1 { want } else { len - 1 };
    match (held.covered, held.gap_after) {
        (Some(covered), Some(last)) => {
            let after = partition(times, last, false);
            let below = if after > 0 { after - 1 } else { 0 };
            let start = if below < len - 1 { below } else { len - 1 };
            Some(Step { start, end: len, from: last, to: now, covers: covered, newest: true })
        },
        (None, _) => {
            let tail = if len > per { len - per } else { 0 };
            let start = if w > tail { w } else { tail };
            Some(Step {
                start,
                end: len,
                from: times[start],
                to: now,
                covers: times[start],
                newest: true,
            })
        },
        (Some(covered), None) => {
            if held.len >= MAX_FLOW_BARS {
                return None;
            }
            let end = partition(times, covered, true);
            if end == 0 || end <= w {
                return None;
            }
            proof {
                assert(times@[0] < covered);
            }
            let tail = if end > per { end - per } else { 0 };
            let start = if w > tail { w } else { tail };
            Some(Step {
                start,
                end,
                from: times[start],
                to: covered - 1,
                covers: times[start],
                newest: false,
            })
        },
    }
}


/// Open times strictly rising along the bars, and every bar's levels in price order.
pub open spec fn bars_wf(bars: Seq<BarView>) -> bool {
    &&& forall|i: int, j: int| 0 <= i < j < bars.len() ==> bars[i].time_ms < bars[j].time_ms
    &&& forall|i: int| 0 <= i < bars.len() ==> prices_ascending(#[trigger] bars[i].levels)
}

/// Where the bar opening at `time_ms` is, or would go, among the bars.
pub open spec fn is_time_slot(bars: Seq<BarView>, time_ms: i64, at: int) -> bool {
    &&& 0 <= at <= bars.len()
    &&& forall|j: int| 0 <= j < at ==> #[trigger] bars[j].time_ms < time_ms
    &&& forall|j: int| at <= j < bars.len() ==> #[trigger] bars[j].time_ms >= time_ms
}

pub open spec fn time_slot(bars: Seq<BarView>, time_ms: i64) -> int {
    choose|at: int| is_time_slot(bars, time_ms, at)
}

/// The bars with one more unit of `side` at `price` in the bar opening at `open`, that bar being
/// made when it is not there.
pub open spec fn bars_with(bars: Seq<BarView>, open: i64, price: i64, side: Side) -> Seq<BarView> {
    let at = time_slot(bars, open);
    if at < bars.len() && bars[at].time_ms == open {
        bars.update(at, BarView { time_ms: open, levels: levels_with(bars[at].levels, price, side) })
    } else {
        bars.insert(
            at,
            BarView { time_ms: open, levels: levels_with(Seq::<Level>::empty(), price, side) },
        )
    }
}

/// The bars past the limit dropped, oldest first, and where the complete flow then starts.
pub open spec fn trimmed_bars(bars: Seq<BarView>, from_ms: Option<i64>) -> (Seq<BarView>, Option<i64>) {
    if bars.len() > MAX_FLOW_BARS {
        let kept = bars.subrange(bars.len() - MAX_FLOW_BARS, bars.len() as int);
        (kept, Some(kept[0].time_ms))
    } else {
        (bars, from_ms)
    }
}

/// The state a batch of quotes is counted into.
pub struct Tally {
    pub bars: Seq<BarView>,
    pub last_ms: i64,
    pub classifier: Classifier,
}

/// The tally after one more quote of a batch.
pub open spec fn tally_quote(
    t: Tally,
    times: Seq<i64>,
    bar_ms: Option<i64>,
    q: Quote,
    newest: bool,
) -> Tally {
    if newest && q.time_ms <= t.last_ms {
        t
    } else {
        let bars = match classified(t.classifier, q.bid, q.ask) {
            Some((price, side)) => match bar_open_spec(times, bar_ms, q.time_ms) {
                Some(open) => bars_with(t.bars, open, price, side),
                None => t.bars,
            },
            None => t.bars,
        };
        Tally {
            bars,
            last_ms: if newest { q.time_ms } else { t.last_ms },
            classifier: after_quote(t.classifier, q.bid, q.ask),
        }
    }
}

/// The tally after the first `n` quotes of a batch.
pub open spec fn tally(
    start: Tally,
    times: Seq<i64>,
    bar_ms: Option<i64>,
    quotes: Seq<Quote>,
    newest: bool,
    n: nat,
) -> Tally
    decreases n,
{
    if n == 0 {
        start
    } else {
        tally_quote(
            tally(start, times, bar_ms, quotes, newest, (n - 1) as nat),
            times,
            bar_ms,
            quotes[n - 1],
            newest,
        )
    }
}

proof fn lemma_time_slot_unique(bars: Seq<BarView>, time_ms: i64, at: int)
    requires
        is_time_slot(bars, time_ms, at),
    ensures
        time_slot(bars, time_ms) == at,
{
    let other = time_slot(bars, time_ms);
    assert(is_time_slot(bars, time_ms, other));
    if other < at {
        assert(bars[other].time_ms >= time_ms);
    } else if other > at {
        assert(bars[at].time_ms < time_ms);
    }
}

proof fn lemma_levels_with_wf(levels: Seq<Level>, price: i64, side: Side)
    requires
        prices_ascending(levels),
    ensures
        prices_ascending(levels_with(levels, price, side)),
{
    let at = price_slot(levels, price);
    lemma_price_slot_exists(levels, price);
    let new = levels_with(levels, price, side);
    if at < levels.len() && levels[at].price == price {
        assert forall|i: int, j: int| 0 <= i < j < new.len() implies new[i].price < new[j].price by {
            assert(new[i].price == levels[i].price);
            assert(new[j].price == levels[j].price);
        }
    } else {
        assert forall|i: int, j: int| 0 <= i < j < new.len() implies new[i].price < new[j].price by {
            if j < at {
            } else if i < at && j == at {
            } else if i < at {
                assert(new[j] == levels[j - 1]);
            } else if i == at {
                assert(new[j] == levels[j - 1]);
                if levels[j - 1].price == price {
                    if j - 1 > at {
                        assert(levels[at].price < levels[j - 1].price);
                    }
                }
            } else {
                assert(new[i] == levels[i - 1]);
                assert(new[j] == levels[j - 1]);
            }
        }
    }
}

proof fn lemma_price_slot_from(levels: Seq<Level>, price: i64, k: int)
    requires
        prices_ascending(levels),
        0 <= k <= levels.len(),
        forall|j: int| 0 <= j < k ==> #[trigger] levels[j].price < price,
    ensures
        is_price_slot(levels, price, price_slot(levels, price)),
    decreases levels.len() - k,
{
    if k == levels.len() || levels[k].price >= price {
        assert forall|j: int| k <= j < levels.len() implies #[trigger] levels[j].price >= price by {
            if j > k {
                assert(levels[k].price < levels[j].price);
            }
        }
        assert(is_price_slot(levels, price, k));
    } else {
        lemma_price_slot_from(levels, price, k + 1);
    }
}

proof fn lemma_price_slot_exists(levels: Seq<Level>, price: i64)
    requires
        prices_ascending(levels),
    ensures
        is_price_slot(levels, price, price_slot(levels, price)),
{
    lemma_price_slot_from(levels, price, 0);
}

proof fn lemma_time_slot_from(bars: Seq<BarView>, time_ms: i64, k: int)
    requires
        bars_wf(bars),
        0 <= k <= bars.len(),
        forall|j: int| 0 <= j < k ==> #[trigger] bars[j].time_ms < time_ms,
    ensures
        is_time_slot(bars, time_ms, time_slot(bars, time_ms)),
    decreases bars.len() - k,
{
    if k == bars.len() || bars[k].time_ms >= time_ms {
        assert forall|j: int| k <= j < bars.len() implies #[trigger] bars[j].time_ms >= time_ms by {
            if j > k {
                assert(bars[k].time_ms < bars[j].time_ms);
            }
        }
        assert(is_time_slot(bars, time_ms, k));
    } else {
        lemma_time_slot_from(bars, time_ms, k + 1);
    }
}

proof fn lemma_time_slot_exists(bars: Seq<BarView>, time_ms: i64)
    requires
        bars_wf(bars),
    ensures
        is_time_slot(bars, time_ms, time_slot(bars, time_ms)),
{
    lemma_time_slot_from(bars, time_ms, 0);
}

proof fn lemma_bars_with_wf(bars: Seq<BarView>, open: i64, price: i64, side: Side)
    requires
        bars_wf(bars),
    ensures
        bars_wf(bars_with(bars, open, price, side)),
        bars_with(bars, open, price, side).len() <= bars.len() + 1,
{
    lemma_time_slot_exists(bars, open);
    let at = time_slot(bars, open);
    let new = bars_with(bars, open, price, side);
    if at < bars.len() && bars[at].time_ms == open {
        lemma_levels_with_wf(bars[at].levels, price, side);
        assert forall|i: int| 0 <= i < new.len() implies prices_ascending(#[trigger] new[i].levels) by {
            if i != at {
                assert(new[i] == bars[i]);
            }
        }
    } else {
        lemma_levels_with_wf(Seq::<Level>::empty(), price, side);
        assert forall|i: int| 0 <= i < new.len() implies prices_ascending(#[trigger] new[i].levels) by {
            if i < at {
                assert(new[i] == bars[i]);
            } else if i > at {
                assert(new[i] == bars[i - 1]);
            }
        }
        assert forall|i: int, j: int| 0 <= i < j < new.len() implies new[i].time_ms < new[j].time_ms by {
            if j < at {
            } else if i < at && j == at {
            } else if i < at {
                assert(new[j] == bars[j - 1]);
            } else if i == at {
                assert(new[j] == bars[j - 1]);
                if bars[j - 1].time_ms == open {
                    if j - 1 > at {
                        assert(bars[at].time_ms < bars[j - 1].time_ms);
                    }
                }
            } else {
                assert(new[i] == bars[i - 1]);
                assert(new[j] == bars[j - 1]);
            }
        }
    }
}

/// The flow of the bars held, and how far back and forward it reaches.
#[derive(Debug, Clone)]
pub struct Flow {
    bars: Vec<BarFlow>,
    /// The open time of the oldest bar whose flow is complete; `None` until something loaded.
    from_ms: Option<i64>,
    /// The time of the newest quote counted.
    last_ms: i64,
    classifier: Classifier,
}

impl Flow {
    /// The bars held, as values.
    pub closed spec fn bars_view(&self) -> Seq<BarView> {
        self.bars@.map_values(|b: BarFlow| b@)
    }

    pub closed spec fn from_spec(&self) -> Option<i64> {
        self.from_ms
    }

    pub closed spec fn last_spec(&self) -> i64 {
        self.last_ms
    }

    pub closed spec fn classifier_spec(&self) -> Classifier {
        self.classifier
    }

    /// Bars in time order with their levels in price order, and no more than the limit.
    pub closed spec fn wf(&self) -> bool {
        &&& bars_wf(self.bars_view())
        &&& self.bars@.len() <= MAX_FLOW_BARS
    }

    pub fn new() -> (f: Self)
        ensures
            f.wf(),
            f.bars_view() == Seq::<BarView>::empty(),
            f.from_spec() is None,
            f.last_spec() == 0,
            f.classifier_spec() == (Classifier { bid: None, ask: None }),
    {
        let f = Flow { bars: Vec::new(), from_ms: None, last_ms: 0, classifier: Classifier { bid: None, ask: None } };
        proof {
            assert(f.bars_view() =~= Seq::<BarView>::empty());
        }
        f
    }

    pub fn is_loaded(&self) -> (r: bool)
        ensures
            r == self.from_spec() is Some,
    {
        self.from_ms.is_some()
    }

    pub fn covered_from(&self) -> (r: Option<i64>)
        ensures
            r == self.from_spec(),
    {
        self.from_ms
    }

    pub fn last_ms(&self) -> (r: i64)
        ensures
            r == self.last_spec(),
    {
        self.last_ms
    }

    pub fn len(&self) -> (r: usize)
        ensures
            r == self.bars_view().len(),
    {
        self.bars.len()
    }

    fn find(&self, time_ms: i64) -> (at: usize)
        requires
            self.wf(),
        ensures
            is_time_slot(self.bars_view(), time_ms, at as int),
            at as int == time_slot(self.bars_view(), time_ms),
    {
        let mut lo: usize = 0;
        let mut hi: usize = self.bars.len();
        while lo < hi
            invariant
                lo <= hi <= self.bars@.len(),
                self.wf(),
                forall|j: int| 0 <= j < lo ==> #[trigger] self.bars_view()[j].time_ms < time_ms,
                forall|j: int| hi <= j < self.bars@.len() ==> #[trigger] self.bars_view()[j].time_ms
                    >= time_ms,
            decreases hi - lo,
        {
            let mid = lo + (hi - lo) / 2;
            assert(self.bars_view()[mid as int] == self.bars@[mid as int]@);
            if self.bars[mid].time_ms < time_ms {
                lo = mid + 1;
            } else {
                hi = mid;
            }
        }
        proof {
            lemma_time_slot_unique(self.bars_view(), time_ms, lo as int);
        }
        lo
    }

    /// The flow of the bar that opens at `time_ms`.
    pub fn bar(&self, time_ms: i64) -> (r: Option<&BarFlow>)
        requires
            self.wf(),
        ensures
            match r {
                Some(b) => exists|i: int|
                    0 <= i < self.bars_view().len() && self.bars_view()[i] == b@ && b@.time_ms
                        == time_ms,
                None => forall|i: int|
                    0 <= i < self.bars_view().len() ==> self.bars_view()[i].time_ms != time_ms,
            },
    {
        let at = self.find(time_ms);
        if at < self.bars.len() && self.bars[at].time_ms == time_ms {
            assert(self.bars_view()[at as int] == self.bars@[at as int]@);
            Some(&self.bars[at])
        } else {
            proof {
                assert forall|i: int| 0 <= i < self.bars_view().len() implies self.bars_view()[i].time_ms
                    != time_ms by {
                    if i > at {
                        assert(self.bars_view()[at as int].time_ms < self.bars_view()[i].time_ms);
                    }
                }
            }
            None
        }
    }

    /// Counts one unit of `side` at `price` in the bar opening at `open` (made if missing).
    pub fn count(&mut self, open: i64, price: i64, side: Side)
        requires
            bars_wf(old(self).bars_view()),
        ensures
            bars_wf(final(self).bars_view()),
            final(self).bars_view() == bars_with(old(self).bars_view(), open, price, side),
            final(self).from_spec() == old(self).from_spec(),
            final(self).last_spec() == old(self).last_spec(),
            final(self).classifier_spec() == old(self).classifier_spec(),
    {
        proof {
            lemma_bars_with_wf(self.bars_view(), open, price, side);
        }
        let ghost before = self.bars_view();
        let at = self.find_any(open);
        if at < self.bars.len() && self.bars[at].time_ms == open {
            assert(before[at as int] == self.bars@[at as int]@);
            assert(self.bars@[at as int].wf());
            self.bars[at].add(price, side);
            proof {
                assert(self.bars_view() =~= before.update(
                    at as int,
                    BarView { time_ms: open, levels: levels_with(before[at as int].levels, price, side) },
                ));
            }
        } else {
            let mut bar = BarFlow::new(open);
            bar.add(price, side);
            self.bars.insert(at, bar);
            proof {
                assert(self.bars_view() =~= before.insert(
                    at as int,
                    BarView { time_ms: open, levels: levels_with(Seq::<Level>::empty(), price, side) },
                ));
            }
        }
    }

    /// Like `find`, for bars that may be past the limit.
    fn find_any(&self, time_ms: i64) -> (at: usize)
        requires
            bars_wf(self.bars_view()),
        ensures
            is_time_slot(self.bars_view(), time_ms, at as int),
            at as int == time_slot(self.bars_view(), time_ms),
    {
        let mut lo: usize = 0;
        let mut hi: usize = self.bars.len();
        while lo < hi
            invariant
                lo <= hi <= self.bars@.len(),
                bars_wf(self.bars_view()),
                forall|j: int| 0 <= j < lo ==> #[trigger] self.bars_view()[j].time_ms < time_ms,
                forall|j: int| hi <= j < self.bars@.len() ==> #[trigger] self.bars_view()[j].time_ms
                    >= time_ms,
            decreases hi - lo,
        {
            let mid = lo + (hi - lo) / 2;
            assert(self.bars_view()[mid as int] == self.bars@[mid as int]@);
            if self.bars[mid].time_ms < time_ms {
                lo = mid + 1;
            } else {
                hi = mid;
            }
        }
        proof {
            lemma_time_slot_unique(self.bars_view(), time_ms, lo as int);
        }
        lo
    }
    /// Says the flow is complete from the bar opening at `from_ms` on, even where no quote fell.
    pub fn cover_from(&mut self, from_ms: i64)
        requires
            old(self).wf(),
        ensures
            final(self).wf(),
            final(self).from_spec() == Some(match old(self).from_spec() {
                Some(held) => if held <= from_ms { held } else { from_ms },
                None => from_ms,
            }),
            final(self).bars_view() == old(self).bars_view(),
            final(self).last_spec() == old(self).last_spec(),
            final(self).classifier_spec() == old(self).classifier_spec(),
    {
        self.from_ms = Some(match self.from_ms {
            Some(held) => if held <= from_ms { held } else { from_ms },
            None => from_ms,
        });
    }

    /// Drops the oldest bars past the limit; the complete flow then starts at the oldest kept.
    pub fn trim(&mut self)
        requires
            bars_wf(old(self).bars_view()),
        ensures
            final(self).wf(),
            (final(self).bars_view(), final(self).from_spec()) == trimmed_bars(
                old(self).bars_view(),
                old(self).from_spec(),
            ),
            final(self).last_spec() == old(self).last_spec(),
            final(self).classifier_spec() == old(self).classifier_spec(),
    {
        let ghost before = self.bars_view();
        if self.bars.len() > MAX_FLOW_BARS {
            let excess = self.bars.len() - MAX_FLOW_BARS;
            let kept = self.bars.split_off(excess);
            self.bars = kept;
            proof {
                assert(self.bars_view() =~= before.subrange(excess as int, before.len() as int));
                assert(self.bars_view()[0] == self.bars@[0]@);
            }
            self.from_ms = Some(self.bars[0].time_ms);
        }
    }

    /// Counts a batch of quotes (oldest first). `times` are the open times of the bars (oldest
    /// first) and `bar_ms` their length when it is fixed.
    ///
    /// The batch is classified on its own, so its first quote has nothing to be compared with and
    /// counts for nothing. With `newest` set the batch reaches the present: the flow carries on
    /// from where it ended, for live quotes and for a refill after a lost connection.
    pub fn ingest(&mut self, times: &[i64], bar_ms: Option<i64>, quotes: &[Quote], newest: bool)
        requires
            old(self).wf(),
            non_decreasing(times@),
        ensures
            final(self).wf(),
            ({
                let start = Tally {
                    bars: old(self).bars_view(),
                    last_ms: old(self).last_spec(),
                    classifier: if newest {
                        old(self).classifier_spec()
                    } else {
                        Classifier { bid: None, ask: None }
                    },
                };
                let t = tally(start, times@, bar_ms, quotes@, newest, quotes@.len());
                let kept = trimmed_bars(t.bars, old(self).from_spec());
                &&& final(self).bars_view() == kept.0
                &&& final(self).from_spec() == kept.1
                &&& final(self).last_spec() == t.last_ms
                &&& final(self).classifier_spec() == if newest {
                    t.classifier
                } else {
                    old(self).classifier_spec()
                }
            }),
    {
        let ghost start = Tally {
            bars: self.bars_view(),
            last_ms: self.last_ms,
            classifier: if newest { self.classifier } else { Classifier { bid: None, ask: None } },
        };
        let ghost from0 = self.from_ms;
        let ghost classifier0 = self.classifier;
        let mut classifier = if newest { self.classifier } else { Classifier { bid: None, ask: None } };
        let mut i: usize = 0;
        while i < quotes.len()
            invariant
                i <= quotes@.len(),
                non_decreasing(times@),
                bars_wf(self.bars_view()),
                self.from_ms == from0,
                !newest ==> self.classifier == classifier0,
                newest ==> self.classifier == classifier0,
                ({
                    let t = tally(start, times@, bar_ms, quotes@, newest, i as nat);
                    &&& self.bars_view() == t.bars
                    &&& self.last_ms == t.last_ms
                    &&& classifier == t.classifier
                }),
            decreases quotes@.len() - i,
        {
            let quote = quotes[i];
            if !(newest && quote.time_ms <= self.last_ms) {
                if let Some((price, side)) = classifier.push(quote.bid, quote.ask) {
                    if let Some(open) = bar_open(times, bar_ms, quote.time_ms) {
                        proof {
                            lemma_bars_with_wf(self.bars_view(), open, price, side);
                        }
                        self.count(open, price, side);
                    }
                }
                if newest {
                    self.last_ms = quote.time_ms;
                }
            }
            i = i + 1;
        }
        if newest {
            self.classifier = classifier;
        }
        self.trim();
    }

    /// Counts one live quote into the bar that opens at `open`. A quote older than the newest
    /// one counted is folded in at the newest time, so the order never breaks.
    pub fn push_live(&mut self, open: i64, time_ms: i64, bid: Option<i64>, ask: Option<i64>)
        requires
            old(self).wf(),
        ensures
            final(self).wf(),
            final(self).last_spec() == if time_ms > old(self).last_spec() {
                time_ms
            } else {
                old(self).last_spec()
            },
            final(self).classifier_spec() == after_quote(old(self).classifier_spec(), bid, ask),
            ({
                let bars = match classified(old(self).classifier_spec(), bid, ask) {
                    Some((price, side)) => bars_with(old(self).bars_view(), open, price, side),
                    None => old(self).bars_view(),
                };
                match classified(old(self).classifier_spec(), bid, ask) {
                    Some(_) => (final(self).bars_view(), final(self).from_spec()) == trimmed_bars(
                        bars,
                        old(self).from_spec(),
                    ),
                    None => final(self).bars_view() == old(self).bars_view()
                        && final(self).from_spec() == old(self).from_spec(),
                }
            }),
    {
        if time_ms > self.last_ms {
            self.last_ms = time_ms;
        }
        if let Some((price, side)) = self.classifier.push(bid, ask) {
            proof {
                lemma_bars_with_wf(self.bars_view(), open, price, side);
            }
            self.count(open, price, side);
            self.trim();
        }
    }
}

impl Default for Flow {
    fn default() -> (f: Self)
        ensures
            f.wf(),
            f.bars_view() == Seq::<BarView>::empty(),
            f.from_spec() is None,
            f.last_spec() == 0,
            f.classifier_spec() == (Classifier { bid: None, ask: None }),
    {
        Flow::new()
    }
}

/// A batch that reaches the present counts nothing at or before the newest quote already
/// counted: refilling with quotes that were all counted leaves the tally as it was.
pub proof fn law_refill_skips_what_was_counted(
    start: Tally,
    times: Seq<i64>,
    bar_ms: Option<i64>,
    quotes: Seq<Quote>,
    n: nat,
)
    requires
        n <= quotes.len(),
        forall|i: int| 0 <= i < n ==> #[trigger] quotes[i].time_ms <= start.last_ms,
    ensures
        tally(start, times, bar_ms, quotes, true, n) == start,
    decreases n,
{
    if n > 0 {
        law_refill_skips_what_was_counted(start, times, bar_ms, quotes, (n - 1) as nat);
        assert(quotes[n - 1].time_ms <= start.last_ms);
    }
}

/// An older batch (one that does not reach the present) never moves the time of the newest
/// quote counted.
pub proof fn law_older_batch_keeps_the_newest_time(
    start: Tally,
    times: Seq<i64>,
    bar_ms: Option<i64>,
    quotes: Seq<Quote>,
    n: nat,
)
    ensures
        tally(start, times, bar_ms, quotes, false, n).last_ms == start.last_ms,
    decreases n,
{
    if n > 0 {
        law_older_batch_keeps_the_newest_time(start, times, bar_ms, quotes, (n - 1) as nat);
    }
}

/// A request for older flow takes no more than a chunk of the bars just before the oldest bar
/// held, never reaches past the screen's oldest bar, and asks for exactly the quotes up to the
/// moment that bar opens: no gap and no overlap with what is held.
pub proof fn law_older_steps_leave_no_gap_and_no_overlap(
    times: Seq<i64>,
    covered: i64,
    len: usize,
    want: usize,
    per_chunk: usize,
    now: i64,
)
    requires
        non_decreasing(times),
        times.len() <= usize::MAX,
        next_step_spec(times, Held { covered: Some(covered), len, gap_after: None }, want as int, per_chunk as int, now) is Some,
    ensures
        ({
            let step = next_step_spec(
                times,
                Held { covered: Some(covered), len, gap_after: None },
                want as int,
                per_chunk as int,
                now,
            ).unwrap();
            &&& !step.newest
            &&& step.start < step.end <= times.len()
            &&& step.end - step.start <= max_int(per_chunk as int, 1)
            &&& step.start >= min_int(want as int, times.len() - 1)
            &&& step.to == covered - 1
            &&& step.from == times[step.start as int]
            &&& step.covers == times[step.start as int]
            &&& forall|j: int| step.start <= j < step.end ==> #[trigger] times[j] < covered
            &&& forall|j: int| step.end <= j < times.len() ==> #[trigger] times[j] >= covered
        }),
{
    lemma_count_below_exists(times, covered as int);
}

proof fn lemma_count_below_exists(times: Seq<i64>, t: int)
    requires
        non_decreasing(times),
    ensures
        splits_below(times, t, count_below(times, t)),
{
    lemma_count_below_from(times, t, 0);
}

proof fn lemma_count_below_from(times: Seq<i64>, t: int, k: int)
    requires
        non_decreasing(times),
        0 <= k <= times.len(),
        forall|j: int| 0 <= j < k ==> #[trigger] times[j] < t,
    ensures
        splits_below(times, t, count_below(times, t)),
    decreases times.len() - k,
{
    if k == times.len() || times[k] >= t {
        assert forall|j: int| k <= j < times.len() implies #[trigger] times[j] >= t by {
            assert(times[k] <= times[j]);
        }
        assert(splits_below(times, t, k));
    } else {
        lemma_count_below_from(times, t, k + 1);
    }
}

} // verus!
