//! The rules for fetching history: which ranges to ask the server for, one after the other, and
//! when to stop.
//!
//! The server limits how long a range one request may cover (and truncates long answers), so a
//! range is always asked for in chunks that stay inside the documented limits. Each walk below is
//! a small state machine: it says which range to ask for next, is told what came back, and says
//! when it is done. Whoever talks to the server runs it.

use vstd::prelude::*;

verus! {

/// Bars in one request. Under the range limit the server sets for every period.
pub const CHUNK_BARS: i64 = 1_500;

/// How many bars a first load, and each older step, aims for.
pub const WANT_BARS: usize = 1_200;

/// Requests one walk may make: a guard, not a target.
pub const MAX_CHUNKS: usize = 40;

/// Empty chunks in a row that mean the history has begun (or the market is closed for long).
pub const MAX_EMPTY_RUN: usize = 6;

/// Windows a walk over ticks tries before it gives up.
pub const MAX_TICK_WINDOWS: usize = 12;

/// How many server bars a grouped load asks for: enough for `WANT_BARS` groups of `group_size`
/// bars, and never more than twelve thousand.
pub fn want_base(group_size: u32) -> (r: usize)
    ensures
        r == (if WANT_BARS * group_size <= 12_000 { WANT_BARS * group_size } else { 12_000 }),
{
    let wanted: u64 = 1_200 * (group_size as u64);
    if wanted <= 12_000 {
        wanted as usize
    } else {
        12_000
    }
}

/// Where the bucket of `bucket` milliseconds that holds `time_ms` begins.
pub fn bucket_start(time_ms: i64, bucket: i64) -> (r: i64)
    requires
        bucket > 0,
        (time_ms as int / bucket as int) * bucket >= i64::MIN,
    ensures
        r == (time_ms as int / bucket as int) * bucket,
{
    let t = time_ms as i128;
    let b = bucket as i128;
    let q: i128 = if t >= 0 { t / b } else { -((-(t + 1)) / b) - 1 };
    assert(q == t as int / b as int) by (nonlinear_arith)
        requires
            b > 0,
            q == (if t >= 0 { t as int / b as int } else { -((-(t + 1)) / b as int) - 1 }),
    ;
    assert(q * b <= t) by (nonlinear_arith)
        requires
            b > 0,
            q == t as int / b as int,
    ;
    (q * b) as i64
}

/// A walk forward over `[from, to]` in ranges of at most `span` milliseconds.
pub struct ForwardWalk {
    next_from: i64,
    to_ms: i64,
    span: i64,
    asked: usize,
    /// Where the walk began, for the contracts.
    first: Ghost<i64>,
}

impl ForwardWalk {
    pub closed spec fn wf(&self) -> bool {
        &&& self.span > 0
        &&& self.to_ms < i64::MAX
        &&& self.asked <= MAX_CHUNKS
        &&& self.first@ <= self.next_from
    }

    /// Where the next range starts.
    pub closed spec fn next_from(&self) -> int {
        self.next_from as int
    }

    /// The last millisecond wanted.
    pub closed spec fn end(&self) -> int {
        self.to_ms as int
    }

    /// The longest range one request may cover.
    pub closed spec fn span(&self) -> int {
        self.span as int
    }

    /// How many ranges were asked for.
    pub closed spec fn asked(&self) -> nat {
        self.asked as nat
    }

    /// Where the walk began.
    pub closed spec fn start(&self) -> int {
        self.first@ as int
    }

    /// A walk over `[from_ms, to_ms]` in chunks of `span` milliseconds.
    pub fn new(from_ms: i64, to_ms: i64, span: i64) -> (w: ForwardWalk)
        requires
            span > 0,
            to_ms < i64::MAX,
        ensures
            w.wf(),
            w.next_from() == from_ms,
            w.end() == to_ms,
            w.span() == span,
            w.asked() == 0,
            w.start() == from_ms,
    {
        ForwardWalk { next_from: from_ms, to_ms, span, asked: 0, first: Ghost(from_ms) }
    }

    /// The next range to ask for, oldest first: it starts where the last one ended, covers at
    /// most `span` milliseconds and stops at the end. `None` once the end is reached or after
    /// `MAX_CHUNKS` requests.
    pub fn next_range(&mut self) -> (r: Option<(i64, i64)>)
        requires
            old(self).wf(),
        ensures
            final(self).wf(),
            final(self).end() == old(self).end(),
            final(self).span() == old(self).span(),
            final(self).start() == old(self).start(),
            r is None <==> (old(self).asked() >= MAX_CHUNKS || old(self).next_from() > old(self).end()),
            r is None ==> *final(self) == *old(self),
            r matches Some(range) ==> {
                &&& range.0 == old(self).next_from()
                &&& range.1 == (if old(self).next_from() + old(self).span() - 1 <= old(self).end() {
                    old(self).next_from() + old(self).span() - 1
                } else {
                    old(self).end()
                })
                &&& final(self).next_from() == range.1 + 1
                &&& final(self).asked() == old(self).asked() + 1
            },
    {
        if self.asked >= MAX_CHUNKS || self.next_from > self.to_ms {
            return None;
        }
        let from = self.next_from;
        let to = if (from as i128) + (self.span as i128) - 1 <= self.to_ms as i128 {
            from + self.span - 1
        } else {
            self.to_ms
        };
        self.next_from = to + 1;
        self.asked = self.asked + 1;
        Some((from, to))
    }
}

/// A walk back from `before` in ranges of at most `span` milliseconds, until it holds `want`
/// items, reaches the start of time, finds `MAX_EMPTY_RUN` empty ranges in a row, or made
/// `MAX_CHUNKS` requests.
pub struct BackWalk {
    to: i64,
    span: i64,
    want: usize,
    held: usize,
    empty_run: usize,
    asked: usize,
    /// The range asked for last, while its answer is awaited.
    waiting: Option<(i64, i64)>,
}

impl BackWalk {
    pub closed spec fn wf(&self) -> bool {
        &&& self.span > 0
        &&& self.asked <= MAX_CHUNKS
        &&& (self.waiting matches Some(r) ==> 0 <= r.0 <= r.1 && r.1 == self.to && self.empty_run < MAX_EMPTY_RUN)
    }

    /// The last millisecond the next range may hold.
    pub closed spec fn to(&self) -> int {
        self.to as int
    }

    /// The longest range one request may cover.
    pub closed spec fn span(&self) -> int {
        self.span as int
    }

    /// How many items the walk holds so far.
    pub closed spec fn held(&self) -> nat {
        self.held as nat
    }

    /// How many items it aims for.
    pub closed spec fn want(&self) -> nat {
        self.want as nat
    }

    /// How many empty ranges came in a row, last.
    pub closed spec fn empty_run(&self) -> nat {
        self.empty_run as nat
    }

    /// How many ranges were asked for.
    pub closed spec fn asked(&self) -> nat {
        self.asked as nat
    }

    /// The range whose answer is awaited.
    pub closed spec fn waiting(&self) -> Option<(i64, i64)> {
        self.waiting
    }

    /// Whether the walk is over.
    pub open spec fn done_spec(&self) -> bool {
        self.to() < 0 || self.held() >= self.want() || self.empty_run() >= MAX_EMPTY_RUN
            || self.asked() >= MAX_CHUNKS
    }

    /// A walk for about `want` items that open before `before_ms`, in chunks of `span`.
    pub fn new(before_ms: i64, span: i64, want: usize) -> (w: BackWalk)
        requires
            span > 0,
            before_ms > i64::MIN,
        ensures
            w.wf(),
            w.to() == before_ms - 1,
            w.span() == span,
            w.want() == want,
            w.held() == 0,
            w.empty_run() == 0,
            w.asked() == 0,
            w.waiting() is None,
    {
        BackWalk { to: before_ms - 1, span, want, held: 0, empty_run: 0, asked: 0, waiting: None }
    }

    /// The next range to ask for, newest first: it ends just before the last one began, covers
    /// at most `span` milliseconds and does not go before the start of time. `None` once the walk
    /// is over.
    pub fn next_range(&mut self) -> (r: Option<(i64, i64)>)
        requires
            old(self).wf(),
            old(self).waiting() is None,
        ensures
            final(self).wf(),
            r is None <==> old(self).done_spec(),
            r is None ==> *final(self) == *old(self),
            r matches Some(range) ==> {
                &&& range.1 == old(self).to()
                &&& range.0 == (if old(self).to() - old(self).span() + 1 >= 0 { old(self).to() - old(self).span() + 1 } else { 0 })
                &&& final(self).waiting() == Some(range)
                &&& final(self).to() == old(self).to()
                &&& final(self).span() == old(self).span()
                &&& final(self).want() == old(self).want()
                &&& final(self).held() == old(self).held()
                &&& final(self).empty_run() == old(self).empty_run()
                &&& final(self).asked() == old(self).asked() + 1
            },
    {
        if self.to < 0 || self.held >= self.want || self.empty_run >= MAX_EMPTY_RUN || self.asked >= MAX_CHUNKS {
            return None;
        }
        let from = if (self.to as i128) - (self.span as i128) + 1 >= 0 { self.to - self.span + 1 } else { 0 };
        self.asked = self.asked + 1;
        self.waiting = Some((from, self.to));
        Some((from, self.to))
    }

    /// The answer to the range asked for came back with `count` items: an empty one adds to the
    /// run of empty ranges, any other ends it and is held; the next range ends before this one.
    pub fn answered(&mut self, count: usize)
        requires
            old(self).wf(),
            old(self).waiting() is Some,
        ensures
            final(self).wf(),
            final(self).waiting() is None,
            final(self).to() == old(self).waiting()->Some_0.0 - 1,
            final(self).span() == old(self).span(),
            final(self).want() == old(self).want(),
            final(self).asked() == old(self).asked(),
            count == 0 ==> final(self).held() == old(self).held() && final(self).empty_run() == old(self).empty_run() + 1,
            count > 0 ==> final(self).held() == (if old(self).held() + count <= usize::MAX { old(self).held() + count } else { usize::MAX as int }) && final(self).empty_run() == 0,
    {
        let (from, _) = match self.waiting {
            Some(r) => r,
            None => (0, 0),
        };
        if count == 0 {
            self.empty_run = self.empty_run + 1;
        } else {
            self.empty_run = 0;
            self.held = self.held.saturating_add(count);
        }
        self.to = from - 1;
        self.waiting = None;
    }
}

/// A walk back from `before` over ticks: a window of `window` milliseconds (widened to whole
/// buckets where the ticks become bars), doubled, up to `max_window`, each time it finds nothing,
/// so a weekend does not end the search. It ends at the first window with ticks, at the start of
/// time, or after `MAX_TICK_WINDOWS` windows.
pub struct TickWalk {
    to: i64,
    window: i64,
    max_window: i64,
    bucket: Option<i64>,
    tries: usize,
    waiting: Option<(i64, i64)>,
}

impl TickWalk {
    pub closed spec fn wf(&self) -> bool {
        &&& self.window > 0
        &&& self.max_window > 0
        &&& (self.bucket matches Some(b) ==> b > 0)
        &&& self.tries <= MAX_TICK_WINDOWS
        &&& (self.waiting matches Some(r) ==> 0 <= r.0 <= r.1 && r.1 == self.to)
    }

    /// The last millisecond the next window may hold.
    pub closed spec fn to(&self) -> int {
        self.to as int
    }

    /// How long the next window is, before it is widened to whole buckets.
    pub closed spec fn window(&self) -> int {
        self.window as int
    }

    /// The longest window.
    pub closed spec fn max_window(&self) -> int {
        self.max_window as int
    }

    /// The length of the bars the ticks become, if they do.
    pub closed spec fn bucket(&self) -> Option<i64> {
        self.bucket
    }

    /// How many windows were asked for.
    pub closed spec fn tries(&self) -> nat {
        self.tries as nat
    }

    /// The window whose answer is awaited.
    pub closed spec fn waiting(&self) -> Option<(i64, i64)> {
        self.waiting
    }

    /// A walk back from `before_ms` with a first window of `window` milliseconds.
    pub fn new(before_ms: i64, window: i64, max_window: i64, bucket: Option<i64>) -> (w: TickWalk)
        requires
            window > 0,
            max_window > 0,
            bucket matches Some(b) ==> b > 0,
        ensures
            w.wf(),
            w.to() == before_ms,
            w.window() == window,
            w.max_window() == max_window,
            w.bucket() == bucket,
            w.tries() == 0,
            w.waiting() is None,
    {
        TickWalk { to: before_ms, window, max_window, bucket, tries: 0, waiting: None }
    }

    /// The next window to ask for: it ends just before the last one began, reaches `window`
    /// milliseconds back (not before the start of time), and starts on a bucket's start where
    /// ticks become bars. `None` once the start of time is reached or every try is used.
    pub fn next_range(&mut self) -> (r: Option<(i64, i64)>)
        requires
            old(self).wf(),
            old(self).waiting() is None,
        ensures
            final(self).wf(),
            r is None <==> (old(self).to() < 0 || old(self).tries() >= MAX_TICK_WINDOWS),
            r is None ==> *final(self) == *old(self),
            r matches Some(range) ==> {
                let from = if old(self).to() - old(self).window() + 1 >= 0 { old(self).to() - old(self).window() + 1 } else { 0 };
                &&& range.1 == old(self).to()
                &&& range.0 == (match old(self).bucket() {
                    Some(b) => (from / b as int) * b,
                    None => from,
                })
                &&& final(self).waiting() == Some(range)
                &&& final(self).tries() == old(self).tries() + 1
                &&& final(self).to() == old(self).to()
                &&& final(self).window() == old(self).window()
                &&& final(self).max_window() == old(self).max_window()
                &&& final(self).bucket() == old(self).bucket()
            },
    {
        if self.to < 0 || self.tries >= MAX_TICK_WINDOWS {
            return None;
        }
        let mut from = if (self.to as i128) - (self.window as i128) + 1 >= 0 { self.to - self.window + 1 } else { 0 };
        match self.bucket {
            Some(b) => {
                proof {
                    assert((from as int / b as int) * b >= 0) by (nonlinear_arith)
                        requires
                            from >= 0,
                            b > 0,
                    ;
                }
                proof {
                    assert((from as int / b as int) * b <= from) by (nonlinear_arith)
                        requires
                            from >= 0,
                            b > 0,
                    ;
                }
                from = bucket_start(from, b);
            },
            None => {},
        }
        proof {
            assert(from <= self.to);
        }
        self.tries = self.tries + 1;
        self.waiting = Some((from, self.to));
        Some((from, self.to))
    }

    /// The window asked for came back empty: the next one ends before it and is twice as long,
    /// up to the longest.
    pub fn nothing_found(&mut self)
        requires
            old(self).wf(),
            old(self).waiting() is Some,
        ensures
            final(self).wf(),
            final(self).waiting() is None,
            final(self).to() == old(self).waiting()->Some_0.0 - 1,
            final(self).window() == (if 2 * old(self).window() <= old(self).max_window() { 2 * old(self).window() } else { old(self).max_window() }),
            final(self).max_window() == old(self).max_window(),
            final(self).bucket() == old(self).bucket(),
            final(self).tries() == old(self).tries(),
    {
        let from = match self.waiting {
            Some(r) => r.0,
            None => 0,
        };
        self.to = from - 1;
        self.window = if (self.window as i128) * 2 <= self.max_window as i128 { self.window * 2 } else { self.max_window };
        self.waiting = None;
    }
}

/// Whether the index `i` is the first with its time.
pub open spec fn first_with_time(times: Seq<i64>, i: int) -> bool {
    forall|j: int| 0 <= j < i ==> times[j] != times[i]
}

/// Whether `out` lists, by increasing time, the first index of each time among the first `n`.
pub open spec fn firsts_by_time(times: Seq<i64>, out: Seq<usize>, n: int) -> bool {
    &&& forall|k: int| 0 <= k < out.len() ==> (#[trigger] out[k]) < n
    &&& forall|a: int, b: int| 0 <= a < b < out.len() ==> times[(#[trigger] out[a]) as int] < times[(#[trigger] out[b]) as int]
    &&& forall|k: int| 0 <= k < out.len() ==> first_with_time(times, (#[trigger] out[k]) as int)
    &&& forall|j: int| 0 <= j < n ==> exists|k: int| 0 <= k < out.len() && times[(#[trigger] out[k]) as int] == #[trigger] times[j]
}

proof fn lemma_time_already_held(times: Seq<i64>, out: Seq<usize>, i: int, p: int)
    requires
        0 <= i < times.len(),
        firsts_by_time(times, out, i),
        0 < p <= out.len(),
        times[out[p - 1] as int] == times[i],
    ensures
        firsts_by_time(times, out, i + 1),
{
    assert forall|j: int| 0 <= j < i + 1 implies exists|k: int| 0 <= k < out.len() && times[(#[trigger] out[k]) as int] == #[trigger] times[j] by {
        if j == i {
            assert(times[out[p - 1] as int] == times[j]);
        }
    }
}

proof fn lemma_new_time(times: Seq<i64>, before: Seq<usize>, i: usize, p: int, out: Seq<usize>)
    requires
        0 <= i < times.len(),
        firsts_by_time(times, before, i as int),
        0 <= p <= before.len(),
        p > 0 ==> times[before[p - 1] as int] < times[i as int],
        forall|q: int| p <= q < before.len() ==> times[(#[trigger] before[q]) as int] > times[i as int],
        out == before.insert(p, i),
    ensures
        firsts_by_time(times, out, i + 1),
{
    let t = times[i as int];
    assert forall|j: int| 0 <= j < i implies times[j] != t by {
        let k = choose|k: int| 0 <= k < before.len() && times[(#[trigger] before[k]) as int] == #[trigger] times[j];
        if k < p - 1 {
            assert(times[before[k] as int] < times[before[p - 1] as int]);
        }
    }
    before.insert_ensures(p, i);
    assert(out.len() == before.len() + 1);
    assert forall|k: int| 0 <= k < out.len() implies (#[trigger] out[k]) == (if k < p { before[k] } else if k == p { i } else { before[k - 1] }) by {}
    assert forall|a: int, b: int| 0 <= a < b < out.len() implies times[(#[trigger] out[a]) as int] < times[(#[trigger] out[b]) as int] by {
        if a < p && b == p {
            if a < p - 1 {
                assert(times[before[a] as int] < times[before[p - 1] as int]);
            }
        } else if a == p && b > p {
            assert(times[before[b - 1] as int] > t);
        } else if a < p && b > p {
            assert(times[before[a] as int] < times[before[b - 1] as int]);
        } else if a > p {
            assert(times[before[a - 1] as int] < times[before[b - 1] as int]);
        } else {
            assert(times[before[a] as int] < times[before[b] as int]);
        }
    }
    assert forall|k: int| 0 <= k < out.len() implies first_with_time(times, (#[trigger] out[k]) as int) by {
        if k > p {
            assert(out[k] == before[k - 1]);
        }
    }
    assert forall|j: int| 0 <= j < i + 1 implies exists|k: int| 0 <= k < out.len() && times[(#[trigger] out[k]) as int] == #[trigger] times[j] by {
        if j == i {
            assert(times[out[p] as int] == times[j]);
        } else {
            let k = choose|k: int| 0 <= k < before.len() && times[(#[trigger] before[k]) as int] == #[trigger] times[j];
            if k < p {
                assert(out[k] == before[k]);
            } else {
                assert(out[k + 1] == before[k]);
            }
        }
    }
}

/// The items of a walk in the order of their times, each time once: the indices of the first
/// item with each time, by increasing time (what a stable sort by time and the dropping of
/// repeated times keep).
pub fn order_by_time(times: &[i64]) -> (out: Vec<usize>)
    ensures
        firsts_by_time(times@, out@, times@.len() as int),
{
    let mut out: Vec<usize> = Vec::new();
    let mut i: usize = 0;
    while i < times.len()
        invariant
            i <= times@.len(),
            firsts_by_time(times@, out@, i as int),
        decreases times@.len() - i,
    {
        let t = times[i];
        let mut p = out.len();
        while p > 0 && times[out[p - 1]] > t
            invariant
                p <= out@.len(),
                i < times@.len(),
                t == times@[i as int],
                firsts_by_time(times@, out@, i as int),
                forall|q: int| p <= q < out@.len() ==> times@[(#[trigger] out@[q]) as int] > t,
            decreases p,
        {
            p = p - 1;
        }
        if p > 0 && times[out[p - 1]] == t {
            proof {
                lemma_time_already_held(times@, out@, i as int, p as int);
            }
        } else {
            let ghost before = out@;
            out.insert(p, i);
            proof {
                lemma_new_time(times@, before, i, p as int, out@);
            }
        }
        i = i + 1;
    }
    out
}

} // verus!
