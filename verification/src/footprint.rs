//! The footprint chart type: its settings, and the analysis of one bar's flow (the rows it is cut
//! into, the point of control, the value area, the imbalances and the stacks of them).

use vstd::prelude::*;

use crate::double::{
    lemma_two_monotone_pub, lemma_two_pos_pub, lemma_two_step, lemma_two_values, nearest, nearest_double, two, two_to, whole, whole_of, P52,
    P53,
};
use crate::flow::Level;
use crate::text::{decimal, digit, digit_char, push_char, push_decimal};

verus! {

/// What each cell of a bar shows.
#[derive(Debug, Clone, Copy, PartialEq, Eq, Structural)]
pub enum CellMode {
    /// Sellers on the left, buyers on the right.
    BidAsk,
    /// Buyers minus sellers, one number a row.
    Delta,
    /// Buyers plus sellers, one number a row.
    Volume,
}

impl Default for CellMode {
    fn default() -> (m: Self)
        ensures
            m == CellMode::BidAsk,
    {
        CellMode::BidAsk
    }
}

impl CellMode {
    pub const ALL: [CellMode; 3] = [CellMode::BidAsk, CellMode::Delta, CellMode::Volume];

    pub fn label(self) -> (s: &'static str)
        ensures
            s@ == match self {
                CellMode::BidAsk => "Bid x Ask"@,
                CellMode::Delta => "Delta"@,
                CellMode::Volume => "Volume"@,
            },
    {
        match self {
            CellMode::BidAsk => "Bid x Ask",
            CellMode::Delta => "Delta",
            CellMode::Volume => "Volume",
        }
    }
}

/// What the intensity of a cell's color is compared with.
#[derive(Debug, Clone, Copy, PartialEq, Eq, Structural)]
pub enum HeatScope {
    /// The busiest cell of the same bar: every bar shows its own shape.
    Bar,
    /// The busiest cell on screen: bars can be told apart by how busy they were.
    Visible,
}

impl Default for HeatScope {
    fn default() -> (h: Self)
        ensures
            h == HeatScope::Bar,
    {
        HeatScope::Bar
    }
}

impl HeatScope {
    pub const ALL: [HeatScope; 2] = [HeatScope::Bar, HeatScope::Visible];

    pub fn label(self) -> (s: &'static str)
        ensures
            s@ == match self {
                HeatScope::Bar => "Each bar"@,
                HeatScope::Visible => "Whole screen"@,
            },
    {
        match self {
            HeatScope::Bar => "Each bar",
            HeatScope::Visible => "Whole screen",
        }
    }
}

#[derive(Debug, Clone, Copy, PartialEq, Eq, Structural)]
pub struct FootprintSettings {
    pub mode: CellMode,
    /// Rows of this many price steps (the last decimal of the symbol); 0 picks them for the zoom.
    pub row_steps: u32,
    /// Whether the cells are colored by how much traded.
    pub heat: bool,
    pub heat_scope: HeatScope,
    /// Whether the numbers show (they hide by themselves when they do not fit).
    pub numbers: bool,
    pub imbalance: bool,
    /// One side must be this many percent of the other (300 is three times).
    pub imbalance_percent: u32,
    /// The side that wins must have traded at least this much.
    pub imbalance_min: u32,
    /// Compare the ask with the bid one row below (and the bid with the ask one row above)
    /// rather than the two sides of the same row.
    pub diagonal: bool,
    pub stacked: bool,
    /// Rows in a row that make a stack.
    pub stack_rows: u32,
    /// Extend a stack to the right until the price comes back to it.
    pub project_stacks: bool,
    pub poc: bool,
    /// Extend the point of control to the right until the price comes back to it.
    pub extend_poc: bool,
    pub value_area: bool,
    /// The share of the volume the value area holds.
    pub value_area_percent: u32,
    /// The volume and the delta of each bar, under it.
    pub summary: bool,
}

pub open spec fn default_footprint() -> FootprintSettings {
    FootprintSettings {
        mode: CellMode::BidAsk,
        row_steps: 0,
        heat: true,
        heat_scope: HeatScope::Bar,
        numbers: true,
        imbalance: true,
        imbalance_percent: 300,
        imbalance_min: 3,
        diagonal: true,
        stacked: true,
        stack_rows: 3,
        project_stacks: true,
        poc: true,
        extend_poc: false,
        value_area: true,
        value_area_percent: 70,
        summary: true,
    }
}

impl Default for FootprintSettings {
    fn default() -> (s: Self)
        ensures
            s == default_footprint(),
    {
        FootprintSettings {
            mode: CellMode::BidAsk,
            row_steps: 0,
            heat: true,
            heat_scope: HeatScope::Bar,
            numbers: true,
            imbalance: true,
            imbalance_percent: 300,
            imbalance_min: 3,
            diagonal: true,
            stacked: true,
            stack_rows: 3,
            project_stacks: true,
            poc: true,
            extend_poc: false,
            value_area: true,
            value_area_percent: 70,
            summary: true,
        }
    }
}

/// `x` brought into `lo..=hi`.
pub open spec fn clamp(x: u32, lo: u32, hi: u32) -> u32 {
    if x < lo {
        lo
    } else if x > hi {
        hi
    } else {
        x
    }
}

fn clamp_u32(x: u32, lo: u32, hi: u32) -> (r: u32)
    requires
        lo <= hi,
    ensures
        r == clamp(x, lo, hi),
{
    if x < lo {
        lo
    } else if x > hi {
        hi
    } else {
        x
    }
}

impl FootprintSettings {
    /// The settings repaired: every number in range.
    pub fn normalized(self) -> (s: Self)
        ensures
            s == (FootprintSettings {
                row_steps: if self.row_steps <= 10_000 { self.row_steps } else { 10_000 },
                imbalance_percent: clamp(self.imbalance_percent, 110, 2_000),
                imbalance_min: clamp(self.imbalance_min, 1, 100_000),
                stack_rows: clamp(self.stack_rows, 2, 12),
                value_area_percent: clamp(self.value_area_percent, 50, 95),
                ..self
            }),
    {
        let mut s = self;
        s.row_steps = if s.row_steps <= 10_000 { s.row_steps } else { 10_000 };
        s.imbalance_percent = clamp_u32(s.imbalance_percent, 110, 2_000);
        s.imbalance_min = clamp_u32(s.imbalance_min, 1, 100_000);
        s.stack_rows = clamp_u32(s.stack_rows, 2, 12);
        s.value_area_percent = clamp_u32(s.value_area_percent, 50, 95);
        s
    }
}

/// Whether a footprint can be built for a timeframe whose bars are `bar_ms` long (`None` for a
/// timeframe of ticks): bars of a day or less. Ticks are single prices, and longer bars would
/// need weeks of quotes.
pub fn supports(bar_ms: Option<i64>) -> (r: bool)
    ensures
        r == match bar_ms {
            Some(ms) => ms <= 86_400_000,
            None => false,
        },
{
    match bar_ms {
        Some(ms) => ms <= 86_400_000,
        None => false,
    }
}

/// The largest row size that is counted in round steps: past it the ladder stops.
pub const NICE_CAP: i64 = 922_337_203_685_477_580;

/// The round row heights, in steps: 1, 2, 5, 10, 20, 50, 100...
pub open spec fn ladder(k: nat) -> int
    decreases k,
{
    if k < 3 {
        if k == 0 { 1 } else if k == 1 { 2 } else { 5 }
    } else {
        10 * ladder((k - 3) as nat)
    }
}

proof fn lemma_ladder_shape(k: nat)
    ensures
        ladder(k) == ladder((k - k % 3) as nat) * (if k % 3 == 0 { 1int } else if k % 3 == 1 { 2int } else { 5int }),
        ladder(k + 3) == 10 * ladder(k),
        ladder(k) >= 1,
    decreases k,
{
    assert(ladder(k + 3) == 10 * ladder(k));
    if k >= 3 {
        lemma_ladder_shape((k - 3) as nat);
        assert((k - 3) % 3 == k % 3);
        assert(((k - 3) - (k - 3) % 3) as nat + 3 == (k - k % 3) as nat);
    } else {
        assert(ladder(0) == 1);
        assert(ladder(1) == 2);
        assert(ladder(2) == 5);
    }
}

proof fn lemma_ladder_grows(k: nat)
    ensures
        ladder(k) >= 1,
        ladder(k + 1) > ladder(k),
    decreases k,
{
    lemma_ladder_shape(k);
    lemma_ladder_shape(k + 1);
    if k >= 3 {
        lemma_ladder_grows((k - 3) as nat);
        assert(ladder(k + 1) == 10 * ladder((k - 2) as nat));
        assert(ladder(k) == 10 * ladder((k - 3) as nat));
    } else {
        assert(ladder(0) == 1);
        assert(ladder(1) == 2);
        assert(ladder(2) == 5);
        assert(ladder(3) == 10 * ladder(0));
    }
}

proof fn lemma_ladder_monotone(a: nat, b: nat)
    requires
        a <= b,
    ensures
        ladder(a) <= ladder(b),
    decreases b - a,
{
    if a < b {
        lemma_ladder_grows((b - 1) as nat);
        lemma_ladder_monotone(a, (b - 1) as nat);
    }
}

/// `k` is the first step of the ladder that reaches `bound`.
pub open spec fn first_reaching(k: nat, bound: int) -> bool {
    ladder(k) >= bound && (k == 0 || ladder((k - 1) as nat) < bound)
}

/// The row height, in steps, for rows that must be at least `n` steps high: exactly `n` up to
/// ten, then the first round height that reaches `n` (or the cap, whichever comes first).
pub open spec fn nice_spec(n: u64) -> int {
    if n <= 10 {
        if n == 0 { 1 } else { n as int }
    } else {
        let bound = if n <= NICE_CAP { n as int } else { NICE_CAP as int };
        ladder(choose|k: nat| first_reaching(k, bound))
    }
}

/// The whole number of steps a row is at least `n` steps high: exactly `n` while that is small,
/// then the next of 10, 20, 50, 100, 200... so the rows of a wide range stay round numbers.
pub fn nice(n: u64) -> (r: i64)
    ensures
        r == nice_spec(n),
        r >= 1,
{
    if n <= 10 {
        return if n == 0 { 1 } else { n as i64 };
    }
    let ghost bound: int = if n <= NICE_CAP { n as int } else { NICE_CAP as int };
    let mut base: i64 = 1;
    let ghost mut k: nat = 0;
    let mut step: u8 = 0;
    proof {
        lemma_ladder_shape(0);
    }
    loop
        invariant
            n > 10,
            bound == if n <= NICE_CAP { n as int } else { NICE_CAP as int },
            step < 3,
            k % 3 == step,
            base == ladder((k - step) as nat),
            ladder(k) == base * (if step == 0 { 1int } else if step == 1 { 2int } else { 5int }),
            1 <= base,
            base * 5 <= 10 * NICE_CAP,
            ladder(k) <= 10 * NICE_CAP,
            k == 0 || ladder((k - 1) as nat) < bound,
        decreases 10 * NICE_CAP - ladder(k),
    {
        let m: i64 = if step == 0 { 1 } else if step == 1 { 2 } else { 5 };
        let v = base * m;
        proof {
            lemma_ladder_grows(k);
            lemma_ladder_shape(k);
            lemma_ladder_shape(k + 1);
        }
        if v as u64 >= n || v >= NICE_CAP {
            proof {
                assert(first_reaching(k, bound));
                let chosen = choose|j: nat| first_reaching(j, bound);
                if chosen < k {
                    lemma_ladder_monotone(chosen, (k - 1) as nat);
                } else if chosen > k {
                    lemma_ladder_monotone(k, (chosen - 1) as nat);
                }
            }
            return v;
        }
        if step == 2 {
            base = base * 10;
            step = 0;
            proof {
                assert(((k + 1) - (k + 1) % 3) as nat == k + 1);
                assert(ladder(k + 1) == 10 * ladder((k - 2) as nat));
            }
        } else {
            step = step + 1;
            proof {
                assert(((k + 1) - (k + 1) % 3) as nat == (k - k % 3) as nat);
            }
        }
        proof {
            k = k + 1;
        }
    }
}

/// One row of a bar: the levels that fall in it, added up.
#[derive(Debug, Clone, Copy, PartialEq, Eq, Structural)]
pub struct Row {
    /// The row number: the price divided by the row size, rounded down.
    pub index: i64,
    pub sell: u32,
    pub buy: u32,
}

pub open spec fn volume_of(r: Row) -> nat {
    r.sell as nat + r.buy as nat
}

pub open spec fn delta_of(r: Row) -> int {
    r.buy as int - r.sell as int
}

impl Row {
    pub fn volume(&self) -> (v: u64)
        ensures
            v == volume_of(*self),
    {
        self.sell as u64 + self.buy as u64
    }

    pub fn delta(&self) -> (d: i64)
        ensures
            d == delta_of(*self),
    {
        self.buy as i64 - self.sell as i64
    }
}

/// A run of rows with an imbalance on the same side.
#[derive(Debug, Clone, Copy, PartialEq, Eq, Structural)]
pub struct Stack {
    pub buy: bool,
    /// Positions in [`Analysis::rows`], both included.
    pub first: usize,
    pub last: usize,
}

/// A count that stops at its largest value.
pub open spec fn sat_add(a: u32, b: u32) -> u32 {
    if a + b > u32::MAX { u32::MAX } else { (a + b) as u32 }
}

/// The levels (from the lowest price up) gathered into rows of `size` raw units: neighboring
/// levels whose price falls in the same row are added up.
pub open spec fn gathered(levels: Seq<Level>, size: int) -> Seq<Row>
    decreases levels.len(),
{
    if levels.len() == 0 {
        Seq::empty()
    } else {
        let rows = gathered(levels.drop_last(), size);
        let level = levels.last();
        let index = level.price as int / size;
        if rows.len() > 0 && rows.last().index == index {
            let row = rows.last();
            rows.update(
                rows.len() - 1,
                Row { index: row.index, sell: sat_add(row.sell, level.sell), buy: sat_add(row.buy, level.buy) },
            )
        } else {
            rows.push(Row { index: index as i64, sell: level.sell, buy: level.buy })
        }
    }
}

/// The rows that traded.
pub open spec fn traded(rows: Seq<Row>) -> Seq<Row>
    decreases rows.len(),
{
    if rows.len() == 0 {
        Seq::empty()
    } else if volume_of(rows.last()) > 0 {
        traded(rows.drop_last()).push(rows.last())
    } else {
        traded(rows.drop_last())
    }
}

/// The rows of a bar's levels, in rows of `size` raw units (at least one).
pub open spec fn rows_spec(levels: Seq<Level>, size: i64) -> Seq<Row> {
    traded(gathered(levels, if size >= 1 { size as int } else { 1 }))
}

proof fn lemma_traded_len(rows: Seq<Row>)
    ensures
        traded(rows).len() <= rows.len(),
    decreases rows.len(),
{
    if rows.len() > 0 {
        lemma_traded_len(rows.drop_last());
    }
}

proof fn lemma_gathered_len(levels: Seq<Level>, size: int)
    ensures
        gathered(levels, size).len() <= levels.len(),
    decreases levels.len(),
{
    if levels.len() > 0 {
        lemma_gathered_len(levels.drop_last(), size);
    }
}

/// Cuts the levels into rows of `size` raw units and keeps the rows that traded.
fn rows_of(levels: &[Level], size: i64) -> (rows: Vec<Row>)
    requires
        size >= 1,
    ensures
        rows@ == rows_spec(levels@, size),
{
    let mut all: Vec<Row> = Vec::new();
    let mut i: usize = 0;
    while i < levels.len()
        invariant
            size >= 1,
            i <= levels@.len(),
            all@ == gathered(levels@.subrange(0, i as int), size as int),
        decreases levels@.len() - i,
    {
        let level = levels[i];
        proof {
            assert(levels@.subrange(0, i + 1).last() == levels@[i as int]);
            let q = level.price as int / size as int;
            assert(i64::MIN <= q <= i64::MAX) by (nonlinear_arith)
                requires
                    size >= 1,
                    q == level.price as int / size as int,
                    i64::MIN <= level.price <= i64::MAX,
            ;
        }
        let index = match level.price.checked_div_euclid(size) {
            Some(q) => q,
            None => 0,
        };
        proof {
            assert(levels@.subrange(0, i + 1).drop_last() =~= levels@.subrange(0, i as int));
        }
        let n = all.len();
        if n > 0 && all[n - 1].index == index {
            let row = all[n - 1];
            all.set(n - 1, Row {
                index: row.index,
                sell: row.sell.saturating_add(level.sell),
                buy: row.buy.saturating_add(level.buy),
            });
        } else {
            all.push(Row { index, sell: level.sell, buy: level.buy });
        }
        i = i + 1;
    }
    proof {
        assert(levels@.subrange(0, levels@.len() as int) =~= levels@);
    }
    let mut rows: Vec<Row> = Vec::new();
    let mut j: usize = 0;
    while j < all.len()
        invariant
            j <= all@.len(),
            rows@ == traded(all@.subrange(0, j as int)),
        decreases all@.len() - j,
    {
        proof {
            assert(all@.subrange(0, j + 1).drop_last() =~= all@.subrange(0, j as int));
        }
        if all[j].volume() > 0 {
            rows.push(all[j]);
        }
        j = j + 1;
    }
    proof {
        assert(all@.subrange(0, all@.len() as int) =~= all@);
    }
    rows
}

/// `p` is the row with the most volume, the first (lowest) when several tie.
pub open spec fn is_poc(rows: Seq<Row>, p: int) -> bool {
    &&& 0 <= p < rows.len()
    &&& forall|j: int| 0 <= j < p ==> volume_of(#[trigger] rows[j]) < volume_of(rows[p])
    &&& forall|j: int| 0 <= j < rows.len() ==> volume_of(#[trigger] rows[j]) <= volume_of(rows[p])
}

pub open spec fn poc_spec(rows: Seq<Row>) -> int {
    choose|p: int| is_poc(rows, p)
}

proof fn lemma_poc_unique(rows: Seq<Row>, p: int)
    requires
        is_poc(rows, p),
    ensures
        poc_spec(rows) == p,
{
    let q = poc_spec(rows);
    assert(is_poc(rows, q));
    if q < p {
        assert(volume_of(rows[q]) < volume_of(rows[p]));
        assert(volume_of(rows[p]) <= volume_of(rows[q]));
    } else if q > p {
        assert(volume_of(rows[p]) < volume_of(rows[q]));
        assert(volume_of(rows[q]) <= volume_of(rows[p]));
    }
}

/// The row with the most volume; the first (lowest) when several tie.
pub fn point_of_control(rows: &[Row]) -> (best: usize)
    requires
        rows@.len() > 0,
    ensures
        is_poc(rows@, best as int),
        best as int == poc_spec(rows@),
{
    let mut best: usize = 0;
    let mut i: usize = 1;
    while i < rows.len()
        invariant
            1 <= i <= rows@.len(),
            best < i,
            forall|j: int| 0 <= j < best ==> volume_of(#[trigger] rows@[j]) < volume_of(rows@[best as int]),
            forall|j: int| 0 <= j < i ==> volume_of(#[trigger] rows@[j]) <= volume_of(rows@[best as int]),
        decreases rows@.len() - i,
    {
        if rows[i].volume() > rows[best].volume() {
            best = i;
        }
        i = i + 1;
    }
    proof {
        lemma_poc_unique(rows@, best as int);
    }
    best
}

/// The volume of the next two rows (or the one left) from `from` in a direction, and how many
/// rows that is.
pub open spec fn pair(rows: Seq<Row>, from: int, up: bool) -> (nat, int) {
    let a = if up { from + 1 } else { from - 1 };
    let b = if up { from + 2 } else { from - 2 };
    let va: nat = if 0 <= a < rows.len() { volume_of(rows[a]) } else { 0 };
    let vb: nat = if 0 <= b < rows.len() { volume_of(rows[b]) } else { 0 };
    let na: int = if 0 <= a < rows.len() { 1 } else { 0 };
    let nb: int = if 0 <= b < rows.len() { 1 } else { 0 };
    (va + vb, na + nb)
}

/// The value area grown from `low..=high` holding `held`, by the pair of rows on the side that
/// holds more, until it holds `target` or there is nothing left.
pub open spec fn grown(rows: Seq<Row>, low: int, high: int, held: nat, target: nat) -> (int, int)
    decreases rows.len() - (high - low),
{
    if !(0 <= low <= high < rows.len()) || held >= target {
        (low, high)
    } else {
        let (up, up_n) = pair(rows, high, true);
        let (down, down_n) = pair(rows, low, false);
        if up_n == 0 && down_n == 0 {
            (low, high)
        } else if down_n == 0 || (up_n > 0 && up >= down) {
            grown(rows, low, high + up_n, held + up, target)
        } else {
            grown(rows, low - down_n, high, held + down, target)
        }
    }
}

pub open spec fn total_volume(rows: Seq<Row>) -> nat
    decreases rows.len(),
{
    if rows.len() == 0 {
        0
    } else {
        total_volume(rows.drop_last()) + volume_of(rows.last())
    }
}

/// The double nearest to the whole number `t`, as a mantissa and an exponent; zero for 0.
pub open spec fn double_of_whole(t: nat) -> (nat, int) {
    if t == 0 {
        (0, 0)
    } else {
        nearest(t, 1)
    }
}

/// The share of a value area as a double: `percent / 100`, at most 1.
pub open spec fn share_of(percent: u32) -> (nat, int) {
    if percent == 0 {
        (0, 0)
    } else if percent >= 100 {
        nearest(1, 1)
    } else {
        nearest(percent as nat, 100)
    }
}

/// The double nearest to the product of two doubles: the product of the mantissas rounded to 53
/// bits, with the exponents added (rounding does not depend on a power of two).
pub open spec fn product_of(a: (nat, int), b: (nat, int)) -> (nat, int) {
    if a.0 == 0 || b.0 == 0 {
        (0, 0)
    } else {
        let r = nearest(a.0 * b.0, 1);
        (r.0, r.1 + a.1 + b.1)
    }
}

/// The double `m * 2^e` rounded up to a whole number.
pub open spec fn ceil_of(x: (nat, int)) -> nat {
    if x.1 >= 0 {
        x.0 * two(x.1 as nat)
    } else {
        ((x.0 + two((-x.1) as nat) - 1) as nat) / two((-x.1) as nat)
    }
}

/// The volume a value area of `percent` of `total` must hold: in doubles, the total times the
/// share, rounded up (and no more than the largest `u64`).
pub open spec fn value_target(total: nat, percent: u32) -> nat {
    let c = ceil_of(product_of(double_of_whole(total), share_of(percent)));
    if c > u64::MAX { u64::MAX as nat } else { c }
}

/// The volume a value area of `percent` of `total` must hold.
fn float_target(total: u64, percent: u32) -> (t: u64)
    ensures
        t == value_target(total as nat, percent),
{
    proof {
        lemma_two_values();
    }
    if total == 0 || percent == 0 {
        proof {
            assert(ceil_of((0, 0)) == 0 * two(0));
        }
        return 0;
    }
    let (tm, te) = nearest_double(total as u128, 1);
    proof {
        // The exponent of the total is between -52 and 13.
        if te >= 14 {
            lemma_two_monotone_pub(14, te as nat);
            assert(two(14) == 0x4000) by {
                reveal_with_fuel(two, 15);
            }
            assert(two(te as nat) * P52 * 1 >= 0x4000 * P52) by (nonlinear_arith)
                requires
                    two(te as nat) >= 0x4000,
            ;
            assert(false);
        }
        if te < -52 {
            lemma_two_monotone_pub(53, (-te) as nat);
            assert(two(53) == P53) by {
                lemma_two_step(52);
            }
            assert(total * two((-te) as nat) >= P53) by (nonlinear_arith)
                requires
                    total >= 1,
                    two((-te) as nat) >= P53,
            ;
            assert(false);
        }
    }
    let sm: u64;
    let se: i32;
    if percent >= 100 {
        let r = nearest_double(1, 1);
        sm = r.0;
        se = r.1;
        proof {
            if se >= 0 {
                lemma_two_pos_pub(se as nat);
                assert(two(se as nat) * P52 * 1 >= P52) by (nonlinear_arith)
                    requires
                        two(se as nat) >= 1,
                ;
                assert(false);
            }
            if -se <= 50 {
                lemma_two_monotone_pub((-se) as nat, 50);
                assert(two(50) * 4 == P52) by {
                    lemma_two_step(50);
                    lemma_two_step(51);
                }
                assert(P52 * 1 <= 2 * 1 * two((-se) as nat));
                assert(false);
            }
            if -se >= 60 {
                lemma_two_monotone_pub(60, (-se) as nat);
                assert(1 * two((-se) as nat) >= two(60));
                assert(false);
            }
        }
    } else {
        let r = nearest_double(percent as u128, 100);
        sm = r.0;
        se = r.1;
        proof {
            if se >= 0 {
                lemma_two_pos_pub(se as nat);
                assert(two(se as nat) * P52 * 100 >= P52) by (nonlinear_arith)
                    requires
                        two(se as nat) >= 1,
                ;
                assert(false);
            }
            if -se <= 50 {
                lemma_two_monotone_pub((-se) as nat, 50);
                assert(two(50) * 4 == P52) by {
                    lemma_two_step(50);
                    lemma_two_step(51);
                }
                assert(P52 * 100 <= 2 * (percent as nat) * two((-se) as nat));
                assert(2 * (percent as nat) * two((-se) as nat) <= 2 * 99 * two(50)) by (nonlinear_arith)
                    requires
                        percent <= 99,
                        two((-se) as nat) <= two(50),
                ;
                assert(two(50) == 1125899906842624);
                assert(2 * 99 * two(50) < P52 * 100);
                assert(false);
            }
            if -se >= 60 {
                lemma_two_monotone_pub(60, (-se) as nat);
                assert((percent as nat) * two((-se) as nat) >= two(60)) by (nonlinear_arith)
                    requires
                        percent >= 1,
                        two((-se) as nat) >= two(60),
                ;
                assert(false);
            }
        }
    }
    proof {
        assert(-59 <= se <= -51);
        assert((sm as nat, se as int) == share_of(percent));
        assert(tm as u128 * sm as u128 <= 0x20_0000_0000_0000 * 0x20_0000_0000_0000) by (nonlinear_arith)
            requires
                tm < 0x20_0000_0000_0000,
                sm < 0x20_0000_0000_0000,
        ;
        assert(tm as u128 * sm as u128 >= P52 * P52) by (nonlinear_arith)
            requires
                tm >= P52,
                sm >= P52,
        ;
    }
    let n = tm as u128 * sm as u128;
    let (pm, pe) = nearest_double(n, 1);
    proof {
        // The product's mantissa needs an exponent from 50 to 56.
        if pe < 0 {
            lemma_two_pos_pub((-pe) as nat);
            assert(n * two((-pe) as nat) >= P52 * P52) by (nonlinear_arith)
                requires
                    n >= P52 * P52,
                    two((-pe) as nat) >= 1,
            ;
            assert(false);
        }
        if pe >= 57 {
            lemma_two_monotone_pub(57, pe as nat);
            assert(two(57) == 0x200_0000_0000_0000) by {
                lemma_two_step(56);
                lemma_two_step(55);
                lemma_two_step(54);
                lemma_two_step(53);
                lemma_two_step(52);
            }
            assert(two(pe as nat) * P52 * 1 >= 0x200_0000_0000_0000 * P52) by (nonlinear_arith)
                requires
                    two(pe as nat) >= 0x200_0000_0000_0000,
            ;
            assert(false);
        }
        assert(product_of((tm as nat, te as int), (sm as nat, se as int)) == (pm as nat, pe + te + se));
    }
    let e: i32 = pe + te + se;
    if e >= 0 {
        let shift = two_to(e as u32);
        proof {
            lemma_two_monotone_pub(e as nat, 18);
            assert(two(18) == 0x4_0000) by {
                reveal_with_fuel(two, 19);
            }
            assert(pm as u128 * shift <= 0x20_0000_0000_0000 * 0x4_0000) by (nonlinear_arith)
                requires
                    pm < 0x20_0000_0000_0000,
                    shift <= 0x4_0000,
            ;
        }
        let v = pm as u128 * shift;
        if v > u64::MAX as u128 {
            u64::MAX
        } else {
            v as u64
        }
    } else {
        let shift = two_to((-e) as u32);
        proof {
            assert(-e <= 113);
            lemma_two_monotone_pub((-e) as nat, 113);
            lemma_two_pos_pub((-e) as nat);
        }
        let c = (pm as u128 + shift - 1) / shift;
        proof {
            assert(c <= pm) by (nonlinear_arith)
                requires
                    c == ((pm + shift - 1) as int) / (shift as int),
                    shift >= 1,
                    pm >= 1,
            ;
        }
        c as u64
    }
}

/// The rows around the point of control that hold `percent` of the volume.
pub open spec fn value_area_spec(rows: Seq<Row>, poc: int, percent: u32) -> (int, int) {
    grown(rows, poc, poc, volume_of(rows[poc]), value_target(total_volume(rows), percent))
}

proof fn lemma_total_prefix(rows: Seq<Row>, i: int)
    requires
        0 <= i <= rows.len(),
    ensures
        total_volume(rows.subrange(0, i)) <= total_volume(rows),
    decreases rows.len(),
{
    if i < rows.len() {
        lemma_total_prefix(rows.drop_last(), i);
        assert(rows.drop_last().subrange(0, i) =~= rows.subrange(0, i));
    } else {
        assert(rows.subrange(0, i) =~= rows);
    }
}

fn total(rows: &[Row]) -> (t: u64)
    requires
        total_volume(rows@) <= u64::MAX,
    ensures
        t == total_volume(rows@),
{
    let mut t: u64 = 0;
    let mut i: usize = 0;
    while i < rows.len()
        invariant
            i <= rows@.len(),
            total_volume(rows@) <= u64::MAX,
            t == total_volume(rows@.subrange(0, i as int)),
        decreases rows@.len() - i,
    {
        proof {
            assert(rows@.subrange(0, i + 1).drop_last() =~= rows@.subrange(0, i as int));
            lemma_total_prefix(rows@, i + 1);
        }
        t = t + rows[i].volume();
        i = i + 1;
    }
    proof {
        assert(rows@.subrange(0, i as int) =~= rows@);
    }
    t
}

/// The rows around the point of control that hold `percent` (0 to 100) of the volume. As in a
/// market profile, it grows by the pair of rows on one side or the other, whichever holds more,
/// until it holds enough.
pub fn value_area(rows: &[Row], poc: usize, percent: u32) -> (r: (usize, usize))
    requires
        poc < rows@.len(),
        total_volume(rows@) <= u64::MAX,
    ensures
        (r.0 as int, r.1 as int) == value_area_spec(rows@, poc as int, percent),
        r.0 <= poc <= r.1 < rows@.len(),
{
    let all = total(rows);
    let target = float_target(all, percent);
    let mut low = poc;
    let mut high = poc;
    let mut held = rows[poc].volume();
    let n = rows.len();
    proof {
        lemma_window_single(rows@, poc as int);
    }
    loop
        invariant
            n == rows@.len(),
            low <= poc <= high < n,
            target == value_target(total_volume(rows@), percent),
            held == window_volume(rows@, low as int, high as int),
            total_volume(rows@) <= u64::MAX,
            grown(rows@, low as int, high as int, held as nat, target as nat) == value_area_spec(
                rows@,
                poc as int,
                percent,
            ),
        decreases n - (high - low),
    {
        if held >= target {
            return (low, high);
        }
        let mut up: u64 = 0;
        let mut up_n: usize = 0;
        if n - high > 1 {
            up = up + rows[high + 1].volume();
            up_n = up_n + 1;
        }
        if n - high > 2 {
            up = up + rows[high + 2].volume();
            up_n = up_n + 1;
        }
        let mut down: u64 = 0;
        let mut down_n: usize = 0;
        if low >= 1 {
            down = down + rows[low - 1].volume();
            down_n = down_n + 1;
        }
        if low >= 2 {
            down = down + rows[low - 2].volume();
            down_n = down_n + 1;
        }
        proof {
            assert((up as nat, up_n as int) == pair(rows@, high as int, true));
            assert((down as nat, down_n as int) == pair(rows@, low as int, false));
            lemma_window_within(rows@, low as int, high as int);
            if up_n > 0 {
                lemma_window_up(rows@, low as int, high as int, up_n as int);
                lemma_window_within(rows@, low as int, high + up_n);
            }
            if down_n > 0 {
                lemma_window_down(rows@, low as int, high as int, down_n as int);
                lemma_window_within(rows@, low - down_n, high as int);
            }
        }
        if up_n == 0 && down_n == 0 {
            return (low, high);
        } else if down_n == 0 || (up_n > 0 && up >= down) {
            high = high + up_n;
            held = held + up;
        } else {
            low = low - down_n;
            held = held + down;
        }
    }
}

/// The volume of the rows `lo..=hi`.
pub open spec fn window_volume(rows: Seq<Row>, lo: int, hi: int) -> nat {
    total_volume(rows.subrange(lo, hi + 1))
}

proof fn lemma_total_concat(a: Seq<Row>, b: Seq<Row>)
    ensures
        total_volume(a + b) == total_volume(a) + total_volume(b),
    decreases b.len(),
{
    if b.len() > 0 {
        assert((a + b).drop_last() =~= a + b.drop_last());
        lemma_total_concat(a, b.drop_last());
    } else {
        assert(a + b =~= a);
    }
}

proof fn lemma_total_one(r: Row)
    ensures
        total_volume(seq![r]) == volume_of(r),
{
    assert(seq![r].drop_last() =~= Seq::<Row>::empty());
    assert(seq![r].last() == r);
    assert(total_volume(Seq::<Row>::empty()) == 0);
}

proof fn lemma_window_single(rows: Seq<Row>, i: int)
    requires
        0 <= i < rows.len(),
    ensures
        window_volume(rows, i, i) == volume_of(rows[i]),
{
    assert(rows.subrange(i, i + 1) =~= seq![rows[i]]);
    lemma_total_one(rows[i]);
}

proof fn lemma_window_within(rows: Seq<Row>, lo: int, hi: int)
    requires
        0 <= lo <= hi < rows.len(),
    ensures
        window_volume(rows, lo, hi) <= total_volume(rows),
{
    let a = rows.subrange(0, lo);
    let b = rows.subrange(lo, hi + 1);
    let c = rows.subrange(hi + 1, rows.len() as int);
    assert(rows =~= a + b + c);
    lemma_total_concat(a + b, c);
    lemma_total_concat(a, b);
}

proof fn lemma_window_up(rows: Seq<Row>, lo: int, hi: int, k: int)
    requires
        0 <= lo <= hi,
        k == pair(rows, hi, true).1,
        1 <= k,
    ensures
        hi + k < rows.len(),
        window_volume(rows, lo, hi + k) == window_volume(rows, lo, hi) + pair(rows, hi, true).0,
{
    let base = rows.subrange(lo, hi + 1);
    let more = rows.subrange(hi + 1, hi + k + 1);
    assert(rows.subrange(lo, hi + k + 1) =~= base + more);
    lemma_total_concat(base, more);
    if k == 1 {
        assert(more =~= seq![rows[hi + 1]]);
        lemma_total_one(rows[hi + 1]);
    } else {
        assert(more =~= seq![rows[hi + 1]] + seq![rows[hi + 2]]);
        lemma_total_concat(seq![rows[hi + 1]], seq![rows[hi + 2]]);
        lemma_total_one(rows[hi + 1]);
        lemma_total_one(rows[hi + 2]);
    }
}

proof fn lemma_window_down(rows: Seq<Row>, lo: int, hi: int, k: int)
    requires
        lo <= hi < rows.len(),
        k == pair(rows, lo, false).1,
        1 <= k,
    ensures
        lo - k >= 0,
        window_volume(rows, lo - k, hi) == window_volume(rows, lo, hi) + pair(rows, lo, false).0,
{
    let base = rows.subrange(lo, hi + 1);
    let more = rows.subrange(lo - k, lo);
    assert(rows.subrange(lo - k, hi + 1) =~= more + base);
    lemma_total_concat(more, base);
    if k == 1 {
        assert(more =~= seq![rows[lo - 1]]);
        lemma_total_one(rows[lo - 1]);
    } else {
        assert(more =~= seq![rows[lo - 2]] + seq![rows[lo - 1]]);
        lemma_total_concat(seq![rows[lo - 2]], seq![rows[lo - 1]]);
        lemma_total_one(rows[lo - 1]);
        lemma_total_one(rows[lo - 2]);
    }
}

/// The double nearest to `percent / 100`, as a mantissa and an exponent (`m * 2^e`); zero for 0.
pub open spec fn ratio_of(percent: u32) -> (nat, int) {
    if percent == 0 {
        (0, 0)
    } else {
        nearest(percent as nat, 100)
    }
}

/// The double nearest to the double `m * 2^e` times the whole number `k`.
pub open spec fn times_whole(m: nat, e: int, k: nat) -> (nat, int) {
    if m == 0 || k == 0 {
        (0, 0)
    } else if e >= 0 {
        nearest(m * k * two(e as nat), 1)
    } else {
        nearest(m * k, two((-e) as nat))
    }
}

/// Whether the whole number `w` is at least the double `m * 2^e`.
pub open spec fn at_least(w: nat, m: nat, e: int) -> bool {
    if e >= 0 {
        w >= m * two(e as nat)
    } else {
        w * two((-e) as nat) >= m
    }
}

/// Whether the winner beats the other side by the ratio, and traded at least the smallest volume:
/// in doubles, the winner is at least the ratio (`percent / 100`) times the other side.
pub open spec fn wins_spec(winner: u32, other: u32, settings: FootprintSettings) -> bool {
    let ratio = ratio_of(settings.imbalance_percent);
    let bar = times_whole(ratio.0, ratio.1, other as nat);
    winner >= settings.imbalance_min && at_least(winner as nat, bar.0, bar.1)
}

/// Whether the winner beats the other side by the ratio, and traded at least the smallest.
pub fn wins(winner: u32, other: u32, settings: &FootprintSettings) -> (r: bool)
    ensures
        r == wins_spec(winner, other, *settings),
{
    if winner < settings.imbalance_min {
        return false;
    }
    let p = settings.imbalance_percent;
    if p == 0 || other == 0 {
        proof {
            assert(at_least(winner as nat, 0, 0));
        }
        return true;
    }
    let (m1, e1) = nearest_double(p as u128, 100);
    proof {
        if e1 >= 0 {
            lemma_two_pos_pub(e1 as nat);
            assert(two(e1 as nat) * P52 * 100 >= P52 * 100) by (nonlinear_arith)
                requires
                    two(e1 as nat) >= 1,
            ;
        }
        assert(e1 < 0);
        if -e1 >= 60 {
            lemma_two_monotone_pub(60, (-e1) as nat);
            assert(two(60) == 0x1000_0000_0000_0000) by {
                lemma_two_values();
            }
            assert(p * two((-e1) as nat) >= two(60)) by (nonlinear_arith)
                requires
                    p >= 1,
                    two((-e1) as nat) >= two(60),
            ;
        }
        assert(-e1 < 60);
    }
    let k: u32 = (-e1) as u32;
    let d = two_to(k);
    proof {
        lemma_two_monotone_pub(k as nat, 60);
        lemma_two_values();
        lemma_two_pos_pub(k as nat);
        assert(m1 as u128 * other as u128 <= 0x20_0000_0000_0000 * 0xffff_ffff) by (nonlinear_arith)
            requires
                m1 < 0x20_0000_0000_0000,
                other <= 0xffff_ffff,
        ;
        assert(m1 as u128 * other as u128 >= 1) by (nonlinear_arith)
            requires
                m1 >= 1,
                other >= 1,
        ;
    }
    let n = m1 as u128 * other as u128;
    let (m2, e2) = nearest_double(n, d);
    proof {
        assert(times_whole(m1 as nat, e1 as int, other as nat) == (m2 as nat, e2 as int));
    }
    if e2 >= 0 {
        proof {
            if e2 >= 40 {
                lemma_two_monotone_pub(40, e2 as nat);
                lemma_two_values();
                assert(two(e2 as nat) * P52 * d >= two(40) * P52) by (nonlinear_arith)
                    requires
                        two(e2 as nat) >= two(40),
                        d >= 1,
                ;
                assert(false);
            }
        }
        let shift = two_to(e2 as u32);
        proof {
            lemma_two_monotone_pub(e2 as nat, 40);
            assert(m2 as u128 * shift <= 0x20_0000_0000_0000 * 0x100_0000_0000) by (nonlinear_arith)
                requires
                    m2 < 0x20_0000_0000_0000,
                    shift <= 0x100_0000_0000,
            ;
        }
        winner as u128 >= m2 as u128 * shift
    } else {
        proof {
            if -e2 >= 80 {
                lemma_two_monotone_pub(80, (-e2) as nat);
                lemma_two_values();
                assert(n >= P52) by (nonlinear_arith)
                    requires
                        n == m1 as u128 * other as u128,
                        m1 >= P52,
                        other >= 1,
                ;
                assert(n * two((-e2) as nat) >= P52 * two(80)) by (nonlinear_arith)
                    requires
                        n >= P52,
                        two((-e2) as nat) >= two(80),
                ;
                assert(2 * P52 * d <= 2 * P52 * two(60)) by (nonlinear_arith)
                    requires
                        d <= two(60),
                ;
                assert(false);
            }
        }
        let shift = two_to((-e2) as u32);
        proof {
            lemma_two_monotone_pub((-e2) as nat, 80);
            assert(winner as u128 * shift <= 0xffff_ffff * 0x1_0000_0000_0000_0000_0000) by (nonlinear_arith)
                requires
                    winner <= 0xffff_ffff,
                    shift <= 0x1_0000_0000_0000_0000_0000,
            ;
        }
        winner as u128 * shift >= m2 as u128
    }
}

/// What the sellers of the row below row `i` traded, as its buyers are compared with: an empty
/// row when the row below is not the next one down.
pub open spec fn sellers_below(rows: Seq<Row>, i: int) -> u32 {
    if rows[i - 1].index == rows[i].index - 1 {
        rows[i - 1].sell
    } else {
        0
    }
}

/// What the buyers of the row above row `i` traded.
pub open spec fn buyers_above(rows: Seq<Row>, i: int) -> u32 {
    if rows[i + 1].index == rows[i].index + 1 {
        rows[i + 1].buy
    } else {
        0
    }
}

/// Whether the buyers of row `i` won an imbalance.
pub open spec fn buy_imbalance(rows: Seq<Row>, i: int, s: FootprintSettings) -> bool {
    if !s.imbalance {
        false
    } else if s.diagonal {
        i > 0 && wins_spec(rows[i].buy, sellers_below(rows, i), s)
    } else {
        wins_spec(rows[i].buy, rows[i].sell, s)
    }
}

/// Whether the sellers of row `i` won an imbalance.
pub open spec fn sell_imbalance(rows: Seq<Row>, i: int, s: FootprintSettings) -> bool {
    if !s.imbalance {
        false
    } else if s.diagonal {
        i + 1 < rows.len() && wins_spec(rows[i].sell, buyers_above(rows, i), s)
    } else {
        wins_spec(rows[i].sell, rows[i].buy, s)
    }
}

/// For every row, whether the buyers won an imbalance and whether the sellers did.
///
/// Diagonally, the buyers of a row are compared with the sellers of the row below (they compete
/// for the same price), and the sellers with the buyers of the row above. The lowest row has
/// nothing below it and the highest nothing above, so the buyers of the first and the sellers of
/// the last never win one. Not diagonally, the two sides of the same row are compared.
pub fn imbalances(rows: &[Row], settings: &FootprintSettings) -> (r: (Vec<bool>, Vec<bool>))
    ensures
        r.0@.len() == rows@.len(),
        r.1@.len() == rows@.len(),
        forall|i: int| 0 <= i < rows@.len() ==> #[trigger] r.0@[i] == buy_imbalance(rows@, i, *settings),
        forall|i: int| 0 <= i < rows@.len() ==> #[trigger] r.1@[i] == sell_imbalance(rows@, i, *settings),
{
    let n = rows.len();
    let mut buys: Vec<bool> = Vec::new();
    let mut sells: Vec<bool> = Vec::new();
    let mut i: usize = 0;
    while i < n
        invariant
            n == rows@.len(),
            i <= n,
            buys@.len() == i,
            sells@.len() == i,
            forall|j: int| 0 <= j < i ==> #[trigger] buys@[j] == buy_imbalance(rows@, j, *settings),
            forall|j: int| 0 <= j < i ==> #[trigger] sells@[j] == sell_imbalance(rows@, j, *settings),
        decreases n - i,
    {
        let row = rows[i];
        let (b, s) = if !settings.imbalance {
            (false, false)
        } else if settings.diagonal {
            let b = if i == 0 {
                false
            } else {
                let below = if rows[i - 1].index as i128 == row.index as i128 - 1 {
                    rows[i - 1].sell
                } else {
                    0
                };
                wins(row.buy, below, settings)
            };
            let s = if i + 1 == n {
                false
            } else {
                let above = if rows[i + 1].index as i128 == row.index as i128 + 1 {
                    rows[i + 1].buy
                } else {
                    0
                };
                wins(row.sell, above, settings)
            };
            (b, s)
        } else {
            (wins(row.buy, row.sell, settings), wins(row.sell, row.buy, settings))
        };
        buys.push(b);
        sells.push(s);
        i = i + 1;
    }
    (buys, sells)
}

/// How many bars of `ranges` (each a lowest and a highest raw price, in time order) pass before
/// the first one that reaches into `low..=high`: where the price came back to a level, so it
/// stops being worth showing to the right. `None` when none does.
pub fn first_touch(ranges: &[(i64, i64)], low: i64, high: i64) -> (r: Option<usize>)
    ensures
        match r {
            Some(k) => k < ranges@.len() && ranges@[k as int].1 >= low && ranges@[k as int].0
                <= high && forall|j: int|
                0 <= j < k ==> !(#[trigger] ranges@[j].1 >= low && ranges@[j].0 <= high),
            None => forall|j: int|
                0 <= j < ranges@.len() ==> !(#[trigger] ranges@[j].1 >= low && ranges@[j].0 <= high),
        },
{
    let mut i: usize = 0;
    while i < ranges.len()
        invariant
            i <= ranges@.len(),
            forall|j: int| 0 <= j < i ==> !(#[trigger] ranges@[j].1 >= low && ranges@[j].0 <= high),
        decreases ranges@.len() - i,
    {
        let (lo, hi) = ranges[i];
        if hi >= low && lo <= high {
            return Some(i);
        }
        i = i + 1;
    }
    None
}

/// Row `i` sits right above the row before it.
pub open spec fn linked(rows: Seq<Row>, i: int) -> bool {
    rows[i].index == rows[i - 1].index + 1
}

/// `first..=last` is a run of neighboring rows where `flags` hold, as long as it can be, and of
/// at least `min_rows` rows, its count of rows taken as a 32-bit number (cut to its low 32 bits).
pub open spec fn is_run(rows: Seq<Row>, flags: Seq<bool>, first: int, last: int, min_rows: u32) -> bool {
    &&& 0 <= first <= last < rows.len()
    &&& forall|k: int| first <= k <= last ==> #[trigger] flags[k]
    &&& forall|k: int| first < k <= last ==> #[trigger] linked(rows, k)
    &&& first == 0 || !flags[first - 1] || !linked(rows, first)
    &&& last == rows.len() - 1 || !flags[last + 1] || !linked(rows, last + 1)
    &&& (last - first + 1) as u32 >= min_rows
}

/// The order stacks are listed in: by first row, then last row, the buyers' before the sellers'.
pub open spec fn stack_before(a: Stack, b: Stack) -> bool {
    a.first < b.first || (a.first == b.first && (a.last < b.last || (a.last == b.last && a.buy
        && !b.buy)))
}

/// The flags of the buyers' imbalances or of the sellers'.
pub open spec fn side_flags(buy: bool, buys: Seq<bool>, sells: Seq<bool>) -> Seq<bool> {
    if buy { buys } else { sells }
}

/// `out` lists, in order, every run of the buyers' and of the sellers' imbalances.
pub open spec fn lists_stacks(
    out: Seq<Stack>,
    rows: Seq<Row>,
    buys: Seq<bool>,
    sells: Seq<bool>,
    min_rows: u32,
) -> bool {
    &&& forall|k: int| 0 <= k < out.len() ==> is_run(
        rows,
        side_flags(out[k].buy, buys, sells),
        #[trigger] out[k].first as int,
        out[k].last as int,
        min_rows,
    )
    &&& forall|first: int, last: int, buy: bool|
        #[trigger] is_run(rows, side_flags(buy, buys, sells), first, last, min_rows) ==> exists|k: int|
            0 <= k < out.len() && out[k] == (Stack { buy, first: first as usize, last: last as usize })
    &&& forall|a: int, b: int| 0 <= a < b < out.len() ==> stack_before(#[trigger] out[a], #[trigger] out[b])
}

/// The runs of one side, in order: every run of at least `min_rows` rows where `flags` hold.
fn runs(rows: &[Row], flags: &Vec<bool>, min_rows: u32, buy: bool) -> (out: Vec<Stack>)
    requires
        flags@.len() == rows@.len(),
    ensures
        forall|k: int| 0 <= k < out@.len() ==> #[trigger] out@[k].buy == buy,
        forall|k: int| 0 <= k < out@.len() ==> is_run(rows@, flags@, #[trigger] out@[k].first as int, out@[k].last as int, min_rows),
        forall|first: int, last: int| #[trigger] is_run(rows@, flags@, first, last, min_rows) ==> exists|k: int|
            0 <= k < out@.len() && out@[k] == (Stack { buy, first: first as usize, last: last as usize }),
        forall|a: int, b: int| 0 <= a < b < out@.len() ==> #[trigger] out@[a].first < #[trigger] out@[b].first,
{
    let n = rows.len();
    let mut out: Vec<Stack> = Vec::new();
    let mut start: Option<usize> = None;
    let mut i: usize = 0;
    // `pos` is the row looked at next; it goes one past the last row once that was looked at.
    let mut done = false;
    let ghost mut pos: int = 0;
    while !done
        invariant
            n == rows@.len(),
            flags@.len() == n,
            i <= n,
            !done ==> pos == i,
            done ==> pos == n + 1,
            match start {
                Some(s) => {
                    &&& s < pos <= n
                    &&& forall|k: int| s <= k < pos ==> #[trigger] flags@[k]
                    &&& forall|k: int| s < k < pos ==> #[trigger] linked(rows@, k)
                    &&& (s == 0 || !flags@[s - 1] || !linked(rows@, s as int))
                },
                None => pos == 0 || pos == n + 1 || !flags@[pos - 1],
            },
            forall|k: int| 0 <= k < out@.len() ==> #[trigger] out@[k].buy == buy,
            forall|k: int| 0 <= k < out@.len() ==> is_run(rows@, flags@, #[trigger] out@[k].first as int, out@[k].last as int, min_rows),
            forall|k: int| 0 <= k < out@.len() ==> #[trigger] out@[k].last < match start {
                Some(s) => s as int,
                None => pos as int,
            },
            forall|first: int, last: int| #[trigger] is_run(rows@, flags@, first, last, min_rows) && last
                < match start {
                Some(s) => s as int,
                None => pos as int,
            } ==> exists|k: int|
                0 <= k < out@.len() && out@[k] == (Stack { buy, first: first as usize, last: last as usize }),
            forall|a: int, b: int| 0 <= a < b < out@.len() ==> #[trigger] out@[a].first < #[trigger] out@[b].first,
        decreases n + 1 - pos,
    {
        let on = i < n && flags[i] && match start {
            None => true,
            Some(_) => rows[i].index as i128 == rows[i - 1].index as i128 + 1,
        };
        let ghost old_out = out@;
        match (on, start) {
            (true, None) => {
                start = Some(i);
            },
            (true, Some(_)) => {},
            (false, Some(s)) => {
                proof {
                    assert forall|first: int, last: int| #[trigger] is_run(rows@, flags@, first, last, min_rows) && s <= last < i
                        implies first == s && last == i - 1 by {
                        if last < i - 1 {
                            assert(flags@[last + 1]);
                            assert(linked(rows@, last + 1));
                        }
                        if first > s {
                            assert(flags@[first - 1]);
                            assert(linked(rows@, first));
                        } else if first < s {
                            assert(flags@[s - 1]);
                            assert(linked(rows@, s as int));
                        }
                    }
                }
                if (i - s) as u32 >= min_rows {
                    out.push(Stack { buy, first: s, last: i - 1 });
                    proof {
                        assert(is_run(rows@, flags@, s as int, i - 1, min_rows));
                        assert(out@[out@.len() - 1] == (Stack { buy, first: s, last: (i - 1) as usize }));
                    }
                } else {
                    proof {
                        assert forall|first: int, last: int| #[trigger] is_run(rows@, flags@, first, last, min_rows)
                            implies !(s <= last < i) by {
                        }
                    }
                }
                start = if i < n && flags[i] { Some(i) } else { None };
            },
            (false, None) => {},
        }
        proof {
            assert forall|k: int| 0 <= k < old_out.len() implies out@[k] == old_out[k] by {}
        }
        if i == n {
            done = true;
            proof {
                pos = n + 1;
            }
        } else {
            i = i + 1;
            proof {
                pos = i as int;
            }
        }
    }
    out
}

proof fn lemma_before_transitive(a: Stack, b: Stack, c: Stack)
    requires
        stack_before(a, b),
        stack_before(b, c),
    ensures
        stack_before(a, c),
{
}

/// The runs of at least `min_rows` neighboring rows where the same side won imbalances, in
/// order of their rows (the buyers' first when both sides have the same run).
#[verifier::rlimit(40)]
pub fn stacks(rows: &[Row], buys: &Vec<bool>, sells: &Vec<bool>, min_rows: u32) -> (out: Vec<Stack>)
    requires
        buys@.len() == rows@.len(),
        sells@.len() == rows@.len(),
    ensures
        lists_stacks(out@, rows@, buys@, sells@, min_rows),
{
    let b = runs(rows, buys, min_rows, true);
    let t = runs(rows, sells, min_rows, false);
    let mut out: Vec<Stack> = Vec::new();
    let mut i: usize = 0;
    let mut j: usize = 0;
    // Where each run of either side went, and where each entry came from.
    let ghost mut pos_b: Seq<int> = Seq::empty();
    let ghost mut pos_t: Seq<int> = Seq::empty();
    let ghost mut from_b: Seq<bool> = Seq::empty();
    let ghost mut src: Seq<int> = Seq::empty();
    while i < b.len() || j < t.len()
        invariant
            i <= b@.len(),
            j <= t@.len(),
            out@.len() == i + j,
            pos_b.len() == i,
            pos_t.len() == j,
            from_b.len() == out@.len(),
            src.len() == out@.len(),
            forall|k: int| 0 <= k < b@.len() ==> #[trigger] b@[k].buy,
            forall|k: int| 0 <= k < t@.len() ==> !(#[trigger] t@[k].buy),
            forall|x: int, y: int| 0 <= x < y < b@.len() ==> #[trigger] b@[x].first < #[trigger] b@[y].first,
            forall|x: int, y: int| 0 <= x < y < t@.len() ==> #[trigger] t@[x].first < #[trigger] t@[y].first,
            forall|k: int| 0 <= k < out@.len() ==> if #[trigger] from_b[k] {
                0 <= src[k] < i && out@[k] == b@[src[k]]
            } else {
                0 <= src[k] < j && out@[k] == t@[src[k]]
            },
            forall|m: int| 0 <= m < i ==> 0 <= #[trigger] pos_b[m] < out@.len() && out@[pos_b[m]] == b@[m],
            forall|m: int| 0 <= m < j ==> 0 <= #[trigger] pos_t[m] < out@.len() && out@[pos_t[m]] == t@[m],
            forall|x: int, y: int| 0 <= x < y < out@.len() ==> stack_before(#[trigger] out@[x], #[trigger] out@[y]),
            out@.len() > 0 && i < b@.len() ==> stack_before(out@.last(), b@[i as int]),
            out@.len() > 0 && j < t@.len() ==> stack_before(out@.last(), t@[j as int]),
        decreases b@.len() + t@.len() - i - j,
    {
        let ghost old_out = out@;
        let take_b = if i < b.len() && j < t.len() {
            let (x, y) = (b[i], t[j]);
            x.first < y.first || (x.first == y.first && x.last <= y.last)
        } else {
            i < b.len()
        };
        let next = if take_b { b[i] } else { t[j] };
        proof {
            if take_b {
                if j < t@.len() {
                    assert(stack_before(b@[i as int], t@[j as int]));
                }
                if i + 1 < b@.len() {
                    assert(b@[i as int].first < b@[i + 1].first);
                }
            } else {
                if i < b@.len() {
                    assert(stack_before(t@[j as int], b@[i as int]));
                }
                if j + 1 < t@.len() {
                    assert(t@[j as int].first < t@[j + 1].first);
                }
            }
            assert forall|x: int| 0 <= x < old_out.len() implies stack_before(#[trigger] old_out[x], next) by {
                if x < old_out.len() - 1 {
                    lemma_before_transitive(old_out[x], old_out.last(), next);
                }
            }
        }
        out.push(next);
        proof {
            let at = old_out.len() as int;
            if take_b {
                pos_b = pos_b.push(at);
                from_b = from_b.push(true);
                src = src.push(i as int);
            } else {
                pos_t = pos_t.push(at);
                from_b = from_b.push(false);
                src = src.push(j as int);
            }
        }
        if take_b {
            i = i + 1;
        } else {
            j = j + 1;
        }
        proof {
            assert forall|k: int| 0 <= k < old_out.len() implies out@[k] == old_out[k] by {}
        }
    }
    proof {
        assert forall|k: int| 0 <= k < out@.len() implies is_run(
            rows@,
            side_flags(out@[k].buy, buys@, sells@),
            #[trigger] out@[k].first as int,
            out@[k].last as int,
            min_rows,
        ) by {
            if from_b[k] {
                assert(is_run(rows@, buys@, b@[src[k]].first as int, b@[src[k]].last as int, min_rows));
            } else {
                assert(is_run(rows@, sells@, t@[src[k]].first as int, t@[src[k]].last as int, min_rows));
            }
        }
        assert forall|first: int, last: int, buy: bool| #[trigger] is_run(rows@, side_flags(buy, buys@, sells@), first, last, min_rows)
            implies exists|k: int| 0 <= k < out@.len() && out@[k] == (Stack { buy, first: first as usize, last: last as usize }) by {
            if buy {
                assert(is_run(rows@, buys@, first, last, min_rows));
                let m = choose|m: int| 0 <= m < b@.len() && b@[m] == (Stack { buy: true, first: first as usize, last: last as usize });
                assert(out@[pos_b[m]] == b@[m]);
            } else {
                assert(is_run(rows@, sells@, first, last, min_rows));
                let m = choose|m: int| 0 <= m < t@.len() && t@[m] == (Stack { buy: false, first: first as usize, last: last as usize });
                assert(out@[pos_t[m]] == t@[m]);
            }
        }
    }
    out
}

/// One bar's flow cut into rows, with what stands out in it.
#[derive(Debug)]
pub struct Analysis {
    /// The rows that traded, from the lowest price up.
    pub rows: Vec<Row>,
    /// The size of a row, raw price units.
    pub size: i64,
    /// The row with the most volume (the position in `rows`).
    pub poc: usize,
    /// The rows of the value area, both included.
    pub value_area: (usize, usize),
    pub sell: u64,
    pub buy: u64,
    /// Whether the buyers (or sellers) of the row at that position won an imbalance.
    pub buy_imbalance: Vec<bool>,
    pub sell_imbalance: Vec<bool>,
    pub stacks: Vec<Stack>,
    /// The busiest single number of a cell, of each side, and the largest delta or volume.
    pub max_side: u32,
    pub max_delta: u64,
    pub max_volume: u64,
}

impl Analysis {
    pub fn delta(&self) -> (d: i64)
        requires
            self.sell <= i64::MAX,
            self.buy <= i64::MAX,
        ensures
            d == self.buy - self.sell,
    {
        self.buy as i64 - self.sell as i64
    }

    pub fn volume(&self) -> (v: u64)
        requires
            self.sell + self.buy <= u64::MAX,
        ensures
            v == self.sell + self.buy,
    {
        self.sell + self.buy
    }
}

pub open spec fn sells_of(rows: Seq<Row>) -> nat
    decreases rows.len(),
{
    if rows.len() == 0 { 0 } else { sells_of(rows.drop_last()) + rows.last().sell as nat }
}

pub open spec fn buys_of(rows: Seq<Row>) -> nat
    decreases rows.len(),
{
    if rows.len() == 0 { 0 } else { buys_of(rows.drop_last()) + rows.last().buy as nat }
}

pub open spec fn max_nat(a: nat, b: nat) -> nat {
    if a >= b { a } else { b }
}

/// The busiest single side of any row.
pub open spec fn max_side_of(rows: Seq<Row>) -> nat
    decreases rows.len(),
{
    if rows.len() == 0 {
        0
    } else {
        max_nat(max_side_of(rows.drop_last()), max_nat(rows.last().sell as nat, rows.last().buy as nat))
    }
}

pub open spec fn abs_delta(r: Row) -> nat {
    if r.buy >= r.sell { (r.buy - r.sell) as nat } else { (r.sell - r.buy) as nat }
}

/// The largest delta of any row, either way.
pub open spec fn max_delta_of(rows: Seq<Row>) -> nat
    decreases rows.len(),
{
    if rows.len() == 0 { 0 } else { max_nat(max_delta_of(rows.drop_last()), abs_delta(rows.last())) }
}

/// The largest volume of any row.
pub open spec fn max_volume_of(rows: Seq<Row>) -> nat
    decreases rows.len(),
{
    if rows.len() == 0 { 0 } else { max_nat(max_volume_of(rows.drop_last()), volume_of(rows.last())) }
}

proof fn lemma_sides_make_the_total(rows: Seq<Row>)
    ensures
        sells_of(rows) + buys_of(rows) == total_volume(rows),
    decreases rows.len(),
{
    if rows.len() > 0 {
        lemma_sides_make_the_total(rows.drop_last());
    }
}

proof fn lemma_side_sums_bounded(rows: Seq<Row>)
    ensures
        sells_of(rows) <= rows.len() * 0xffff_ffff,
        buys_of(rows) <= rows.len() * 0xffff_ffff,
        max_side_of(rows) <= 0xffff_ffff,
        max_delta_of(rows) <= 0xffff_ffff,
        max_volume_of(rows) <= 0x1_ffff_fffe,
    decreases rows.len(),
{
    if rows.len() > 0 {
        lemma_side_sums_bounded(rows.drop_last());
    }
}

/// What the analysis of a bar holds, given its rows.
pub open spec fn analysis_holds(a: Analysis, rows: Seq<Row>, size: i64, s: FootprintSettings) -> bool {
    &&& a.rows@ == rows
    &&& a.size == size
    &&& a.poc == poc_spec(rows)
    &&& (a.value_area.0 as int, a.value_area.1 as int) == value_area_spec(rows, a.poc as int, s.value_area_percent)
    &&& a.sell == sells_of(rows)
    &&& a.buy == buys_of(rows)
    &&& a.buy_imbalance@.len() == rows.len()
    &&& a.sell_imbalance@.len() == rows.len()
    &&& forall|i: int| 0 <= i < rows.len() ==> #[trigger] a.buy_imbalance@[i] == buy_imbalance(rows, i, s)
    &&& forall|i: int| 0 <= i < rows.len() ==> #[trigger] a.sell_imbalance@[i] == sell_imbalance(rows, i, s)
    &&& if s.stacked {
        lists_stacks(a.stacks@, rows, a.buy_imbalance@, a.sell_imbalance@, s.stack_rows)
    } else {
        a.stacks@.len() == 0
    }
    &&& a.max_side == max_side_of(rows)
    &&& a.max_delta == max_delta_of(rows)
    &&& a.max_volume == max_volume_of(rows)
}

/// Cuts `levels` (from the lowest price up) into rows of `size` raw units and works out what
/// stands out. `None` when nothing traded. The units of all the rows together fit in 64 bits.
pub fn analyze(levels: &[Level], size: i64, settings: &FootprintSettings) -> (r: Option<Analysis>)
    requires
        total_volume(rows_spec(levels@, size)) <= u64::MAX,
    ensures
        match r {
            None => rows_spec(levels@, size).len() == 0,
            Some(a) => rows_spec(levels@, size).len() > 0 && analysis_holds(
                a,
                rows_spec(levels@, size),
                if size >= 1 { size } else { 1 },
                *settings,
            ),
        },
{
    let size = if size >= 1 { size } else { 1 };
    let rows = rows_of(levels, size);
    proof {
        lemma_gathered_len(levels@, size as int);
        lemma_traded_len(gathered(levels@, size as int));
    }
    if rows.len() == 0 {
        return None;
    }
    let mut sell: u64 = 0;
    let mut buy: u64 = 0;
    let mut max_side: u32 = 0;
    let mut max_delta: u64 = 0;
    let mut max_volume: u64 = 0;
    let mut i: usize = 0;
    while i < rows.len()
        invariant
            i <= rows@.len(),
            total_volume(rows@) <= u64::MAX,
            sell == sells_of(rows@.subrange(0, i as int)),
            buy == buys_of(rows@.subrange(0, i as int)),
            max_side == max_side_of(rows@.subrange(0, i as int)),
            max_delta == max_delta_of(rows@.subrange(0, i as int)),
            max_volume == max_volume_of(rows@.subrange(0, i as int)),
        decreases rows@.len() - i,
    {
        let row = rows[i];
        proof {
            let next = rows@.subrange(0, i + 1);
            assert(next.drop_last() =~= rows@.subrange(0, i as int));
            lemma_side_sums_bounded(next);
            lemma_sides_make_the_total(next);
            lemma_total_prefix(rows@, i + 1);
        }
        sell = sell + row.sell as u64;
        buy = buy + row.buy as u64;
        let side = if row.sell >= row.buy { row.sell } else { row.buy };
        if side > max_side {
            max_side = side;
        }
        let d: u64 = if row.buy >= row.sell { (row.buy - row.sell) as u64 } else { (row.sell - row.buy) as u64 };
        if d > max_delta {
            max_delta = d;
        }
        let v = row.volume();
        if v > max_volume {
            max_volume = v;
        }
        i = i + 1;
    }
    proof {
        assert(rows@.subrange(0, rows@.len() as int) =~= rows@);
    }
    let poc = point_of_control(rows.as_slice());
    let value_area = value_area(rows.as_slice(), poc, settings.value_area_percent);
    let (buy_imbalance, sell_imbalance) = imbalances(rows.as_slice(), settings);
    let stacks = if settings.stacked {
        stacks(rows.as_slice(), &buy_imbalance, &sell_imbalance, settings.stack_rows)
    } else {
        Vec::new()
    };
    Some(Analysis {
        rows,
        size,
        poc,
        value_area,
        sell,
        buy,
        buy_imbalance,
        sell_imbalance,
        stacks,
        max_side,
        max_delta,
        max_volume,
    })
}

/// A number of tenths written with one decimal: `123` is `12.3`.
pub open spec fn tenths_text(t: nat) -> Seq<char> {
    decimal(t / 10) + seq!['.', digit_char((t % 10) as int)]
}

/// The double nearest to `v / 1_000_000`, computed as `v as f64 / 1_000_000.0` does: `v` is
/// first rounded to a double, then divided.
pub open spec fn millions(v: nat) -> (nat, int) {
    let b = nearest(v, 1);
    if b.1 >= 0 {
        nearest(b.0 * two(b.1 as nat), 1_000_000)
    } else {
        nearest(b.0, 1_000_000 * two((-b.1) as nat))
    }
}

/// A volume as text: whole up to 9999, then thousands with one decimal (`12.3k`) below a
/// hundred of them, whole thousands (`123k`) below a million, and millions with one decimal
/// (`2.5M`). The decimals are those of the double nearest to the quotient, rounded half to even.
pub open spec fn compact_spec(v: u64) -> Seq<char> {
    if v < 10_000 {
        decimal(v as nat)
    } else if v < 1_000_000 {
        let k = nearest(v as nat, 1000);
        if v < 100_000 {
            tenths_text(whole_of(k.0, k.1, 10)) + seq!['k']
        } else {
            decimal(whole_of(k.0, k.1, 1)) + seq!['k']
        }
    } else {
        let m = millions(v as nat);
        tenths_text(whole_of(m.0, m.1, 10)) + seq!['M']
    }
}

pub(crate) fn push_tenths(s: &mut String, t: u128)
    requires
        t <= u64::MAX,
    ensures
        final(s)@ == old(s)@ + tenths_text(t as nat),
{
    push_decimal(s, (t / 10) as u64);
    push_char(s, '.');
    push_char(s, digit((t % 10) as u64));
    proof {
        assert(old(s)@ + decimal((t / 10) as nat) + seq!['.'] + seq![digit_char((t % 10) as int)]
            =~= old(s)@ + tenths_text(t as nat));
    }
}

proof fn lemma_two_13()
    ensures
        two(13) == 8192,
{
    reveal_with_fuel(two, 14);
}

/// Appends a volume as text (see [`compact_spec`]).
fn push_compact(s: &mut String, value: u64)
    ensures
        final(s)@ == old(s)@ + compact_spec(value),
{
    if value < 10_000 {
        push_decimal(s, value);
    } else if value < 1_000_000 {
        let (m, e) = nearest_double(value as u128, 1000);
        proof {
            if e >= 0 {
                crate::double::lemma_two_pos_pub(e as nat);
                assert(two(e as nat) * P52 * 1000 >= P52 * 1000) by (nonlinear_arith)
                    requires
                        two(e as nat) >= 1,
                ;
            }
        }
        if value < 100_000 {
            let t = whole(m, e, 10);
            proof {
                crate::double::lemma_whole_bound(m as nat, e as int, 10);
            }
            push_tenths(s, t);
        } else {
            let t = whole(m, e, 1);
            proof {
                crate::double::lemma_whole_bound(m as nat, e as int, 1);
            }
            push_decimal(s, t as u64);
        }
        push_char(s, 'k');
    } else {
        let (mb, eb) = nearest_double(value as u128, 1);
        let (mq, eq) = if eb >= 0 {
            proof {
                lemma_two_13();
                if eb >= 13 {
                    crate::double::lemma_two_monotone_pub(13, eb as nat);
                    assert(two(eb as nat) * P52 * 1 >= 8192 * P52) by (nonlinear_arith)
                        requires
                            two(eb as nat) >= 8192,
                    ;
                }
                assert(eb <= 12);
                crate::double::lemma_two_monotone_pub(eb as nat, 13);
                assert(mb as nat * two(eb as nat) <= P53 * 8192) by (nonlinear_arith)
                    requires
                        mb < P53,
                        two(eb as nat) <= 8192,
                ;
            }
            let p = two_to(eb as u32);
            proof {
                crate::double::lemma_two_pos_pub(eb as nat);
                assert(mb as u128 * p >= 1) by (nonlinear_arith)
                    requires
                        mb >= 1,
                        p >= 1,
                ;
            }
            let r = nearest_double(mb as u128 * p, 1_000_000);
            proof {
                if r.1 >= 0 {
                    crate::double::lemma_two_pos_pub(r.1 as nat);
                    assert(two(r.1 as nat) * P52 * 1_000_000 >= P52 * 1_000_000) by (nonlinear_arith)
                        requires
                            two(r.1 as nat) >= 1,
                    ;
                }
            }
            r
        } else {
            proof {
                assert(value * two((-eb) as nat) < 2 * P52 * 1);
                assert(1_000_000 * two((-eb) as nat) < 2 * P52) by (nonlinear_arith)
                    requires
                        value * two((-eb) as nat) < 2 * P52,
                        value >= 1_000_000,
                ;
                crate::double::lemma_two_monotone_pub((-eb) as nat, 113);
            }
            let p = two_to((-eb) as u32);
            proof {
                crate::double::lemma_two_pos_pub((-eb) as nat);
                assert(1_000_000 * p < 2 * P52);
            }
            let r = nearest_double(mb as u128, 1_000_000 * p);
            proof {
                if r.1 >= 0 {
                    crate::double::lemma_two_pos_pub(r.1 as nat);
                    assert(two(r.1 as nat) * P52 * (1_000_000 * p) >= P52 * 1_000_000) by (nonlinear_arith)
                        requires
                            two(r.1 as nat) >= 1,
                            p >= 1,
                    ;
                }
            }
            r
        };
        proof {
            if eq >= 0 {
                crate::double::lemma_two_pos_pub(eq as nat);
            }
            crate::double::lemma_whole_bound(mq as nat, eq as int, 10);
        }
        let t = whole(mq, eq, 10);
        push_tenths(s, t);
        push_char(s, 'M');
    }
}

/// A volume as text: whole up to 9999, then `12.3k` and `1.2M`.
pub fn compact(value: u64) -> (r: String)
    ensures
        r@ == compact_spec(value),
{
    let mut s = String::new();
    push_compact(&mut s, value);
    proof {
        assert(Seq::<char>::empty() + compact_spec(value) =~= compact_spec(value));
    }
    s
}

/// A signed volume as text: `+56`, `-1.2k`, `0`.
pub open spec fn signed_spec(value: i64) -> Seq<char> {
    if value > 0 {
        seq!['+'] + compact_spec(value as u64)
    } else if value < 0 {
        seq!['-'] + compact_spec((-(value as int)) as u64)
    } else {
        seq!['0']
    }
}

/// A signed volume as text: `+56`, `-1.2k`, `0`.
pub fn signed(value: i64) -> (r: String)
    ensures
        r@ == signed_spec(value),
{
    let mut s = String::new();
    if value > 0 {
        push_char(&mut s, '+');
        push_compact(&mut s, value as u64);
    } else if value < 0 {
        push_char(&mut s, '-');
        let magnitude: u64 = if value == i64::MIN { 0x8000_0000_0000_0000 } else { (-value) as u64 };
        push_compact(&mut s, magnitude);
    } else {
        push_char(&mut s, '0');
    }
    s
}

/// How many rows one step of the value area takes above row `hi`: the next two, or the one left.
pub open spec fn rows_above(rows: Seq<Row>, hi: int) -> int {
    if rows.len() - 1 - hi >= 2 { 2 } else { rows.len() - 1 - hi }
}

/// How many rows one step of the value area takes below row `lo`: the next two, or the one left.
pub open spec fn rows_below(lo: int) -> int {
    if lo >= 2 { 2 } else { lo }
}

proof fn lemma_pair_above(rows: Seq<Row>, hi: int)
    requires
        0 <= hi < rows.len(),
    ensures
        pair(rows, hi, true).1 == rows_above(rows, hi),
        pair(rows, hi, true).0 == window_volume(rows, hi + 1, hi + rows_above(rows, hi)),
{
    let k = rows_above(rows, hi);
    let more = rows.subrange(hi + 1, hi + k + 1);
    if k == 0 {
        assert(more =~= Seq::<Row>::empty());
    } else if k == 1 {
        assert(more =~= seq![rows[hi + 1]]);
        lemma_total_one(rows[hi + 1]);
    } else {
        assert(more =~= seq![rows[hi + 1]] + seq![rows[hi + 2]]);
        lemma_total_concat(seq![rows[hi + 1]], seq![rows[hi + 2]]);
        lemma_total_one(rows[hi + 1]);
        lemma_total_one(rows[hi + 2]);
    }
}

proof fn lemma_pair_below(rows: Seq<Row>, lo: int)
    requires
        0 <= lo < rows.len(),
    ensures
        pair(rows, lo, false).1 == rows_below(lo),
        pair(rows, lo, false).0 == window_volume(rows, lo - rows_below(lo), lo - 1),
{
    let k = rows_below(lo);
    let more = rows.subrange(lo - k, lo);
    if k == 0 {
        assert(more =~= Seq::<Row>::empty());
    } else if k == 1 {
        assert(more =~= seq![rows[lo - 1]]);
        lemma_total_one(rows[lo - 1]);
    } else {
        assert(more =~= seq![rows[lo - 2]] + seq![rows[lo - 1]]);
        lemma_total_concat(seq![rows[lo - 2]], seq![rows[lo - 1]]);
        lemma_total_one(rows[lo - 1]);
        lemma_total_one(rows[lo - 2]);
    }
}

/// The value area starts with the point of control alone. While it holds less than its share and
/// rows are left, it grows by one step: the next two rows above it (or the one left) when they
/// hold at least as much volume together as the next two below it (or the one left), or when
/// nothing is left below; otherwise by the rows below. It stops as soon as it holds its share.
pub proof fn law_value_area_grows_by_the_busier_pair(rows: Seq<Row>, poc: int, percent: u32, lo: int, hi: int, target: nat)
    requires
        0 <= poc < rows.len(),
        0 <= lo <= hi < rows.len(),
    ensures
        value_area_spec(rows, poc, percent) == grown(
            rows,
            poc,
            poc,
            window_volume(rows, poc, poc),
            value_target(total_volume(rows), percent),
        ),
        ({
            let held = window_volume(rows, lo, hi);
            let k_up = rows_above(rows, hi);
            let k_down = rows_below(lo);
            let up = window_volume(rows, hi + 1, hi + k_up);
            let down = window_volume(rows, lo - k_down, lo - 1);
            if held >= target || (k_up == 0 && k_down == 0) {
                grown(rows, lo, hi, held, target) == (lo, hi)
            } else if k_down == 0 || (k_up > 0 && up >= down) {
                grown(rows, lo, hi, held, target) == grown(rows, lo, hi + k_up, window_volume(rows, lo, hi + k_up), target)
            } else {
                grown(rows, lo, hi, held, target) == grown(rows, lo - k_down, hi, window_volume(rows, lo - k_down, hi), target)
            }
        }),
{
    lemma_window_single(rows, poc);
    lemma_pair_above(rows, hi);
    lemma_pair_below(rows, lo);
    let k_up = rows_above(rows, hi);
    let k_down = rows_below(lo);
    if k_up >= 1 {
        lemma_window_up(rows, lo, hi, k_up);
    }
    if k_down >= 1 {
        lemma_window_down(rows, lo, hi, k_down);
    }
}

/// Rows listed from the lowest price up, each price once.
pub open spec fn rows_ascending(rows: Seq<Row>) -> bool {
    forall|i: int, j: int| 0 <= i < j < rows.len() ==> (#[trigger] rows[i]).index < (#[trigger] rows[j]).index
}

/// Whether some row stands at the price row `index`.
pub open spec fn has_row_at(rows: Seq<Row>, index: int) -> bool {
    exists|j: int| 0 <= j < rows.len() && (#[trigger] rows[j]).index == index
}

/// The buyers of the row at the price row `index`, and 0 where no row traded there.
pub open spec fn buyers_at(rows: Seq<Row>, index: int) -> u32 {
    if has_row_at(rows, index) {
        rows[choose|j: int| 0 <= j < rows.len() && (#[trigger] rows[j]).index == index].buy
    } else {
        0
    }
}

/// The sellers of the row at the price row `index`, and 0 where no row traded there.
pub open spec fn sellers_at(rows: Seq<Row>, index: int) -> u32 {
    if has_row_at(rows, index) {
        rows[choose|j: int| 0 <= j < rows.len() && (#[trigger] rows[j]).index == index].sell
    } else {
        0
    }
}

proof fn lemma_row_at(rows: Seq<Row>, i: int, index: int)
    requires
        rows_ascending(rows),
        0 <= i < rows.len(),
        rows[i].index == index,
    ensures
        has_row_at(rows, index),
        buyers_at(rows, index) == rows[i].buy,
        sellers_at(rows, index) == rows[i].sell,
{
    assert(rows[i].index == index);
    let j = choose|j: int| 0 <= j < rows.len() && (#[trigger] rows[j]).index == index;
    if j < i {
        assert(rows[j].index < rows[i].index);
    } else if j > i {
        assert(rows[i].index < rows[j].index);
    }
}

/// Diagonally, with rows listed from the lowest price up: the sellers of a row that is not the
/// highest are weighed against the buyers of the price row just above, and the buyers of a row that
/// is not the lowest against the sellers of the price row just below; a price row where nothing
/// traded counts as an empty row. The sellers of the highest row and the buyers of the lowest win
/// nothing.
pub proof fn law_diagonal_imbalances_weigh_the_next_price(rows: Seq<Row>, i: int, s: FootprintSettings)
    requires
        rows_ascending(rows),
        0 <= i < rows.len(),
        s.imbalance,
        s.diagonal,
    ensures
        i + 1 < rows.len() ==> sell_imbalance(rows, i, s) == wins_spec(rows[i].sell, buyers_at(rows, rows[i].index + 1), s),
        i + 1 == rows.len() ==> !sell_imbalance(rows, i, s),
        i > 0 ==> buy_imbalance(rows, i, s) == wins_spec(rows[i].buy, sellers_at(rows, rows[i].index - 1), s),
        i == 0 ==> !buy_imbalance(rows, i, s),
{
    if i + 1 < rows.len() {
        assert(rows[i].index < rows[i + 1].index);
        if rows[i + 1].index == rows[i].index + 1 {
            lemma_row_at(rows, i + 1, rows[i].index + 1);
        } else {
            assert forall|j: int| 0 <= j < rows.len() implies (#[trigger] rows[j]).index != rows[i].index + 1 by {
                if j <= i {
                    if j < i {
                        assert(rows[j].index < rows[i].index);
                    }
                } else if j > i + 1 {
                    assert(rows[i + 1].index < rows[j].index);
                }
            }
        }
    }
    if i > 0 {
        assert(rows[i - 1].index < rows[i].index);
        if rows[i - 1].index == rows[i].index - 1 {
            lemma_row_at(rows, i - 1, rows[i].index - 1);
        } else {
            assert forall|j: int| 0 <= j < rows.len() implies (#[trigger] rows[j]).index != rows[i].index - 1 by {
                if j >= i {
                    if j > i {
                        assert(rows[i].index < rows[j].index);
                    }
                } else if j < i - 1 {
                    assert(rows[j].index < rows[i - 1].index);
                }
            }
        }
    }
}

/// The largest of two numbers, and the distance between them.
pub open spec fn larger(a: int, b: int) -> int {
    if a >= b { a } else { b }
}

pub open spec fn distance(a: int, b: int) -> int {
    if a >= b { a - b } else { b - a }
}

proof fn lemma_maxima(rows: Seq<Row>)
    ensures
        forall|k: int| 0 <= k < rows.len() ==> {
            &&& max_side_of(rows) >= larger((#[trigger] rows[k]).sell as int, rows[k].buy as int)
            &&& max_delta_of(rows) >= distance(rows[k].buy as int, rows[k].sell as int)
            &&& max_volume_of(rows) >= rows[k].sell + rows[k].buy
        },
        rows.len() > 0 ==> exists|k: int| 0 <= k < rows.len() && max_side_of(rows) == larger((#[trigger] rows[k]).sell as int, rows[k].buy as int),
        rows.len() > 0 ==> exists|k: int| 0 <= k < rows.len() && max_delta_of(rows) == distance((#[trigger] rows[k]).buy as int, rows[k].sell as int),
        rows.len() > 0 ==> exists|k: int| 0 <= k < rows.len() && max_volume_of(rows) == (#[trigger] rows[k]).sell + rows[k].buy,
    decreases rows.len(),
{
    if rows.len() > 0 {
        let init = rows.drop_last();
        let n = rows.len() - 1;
        lemma_maxima(init);
        assert forall|k: int| 0 <= k < rows.len() implies {
            &&& max_side_of(rows) >= larger((#[trigger] rows[k]).sell as int, rows[k].buy as int)
            &&& max_delta_of(rows) >= distance(rows[k].buy as int, rows[k].sell as int)
            &&& max_volume_of(rows) >= rows[k].sell + rows[k].buy
        } by {
            if k < n {
                assert(init[k] == rows[k]);
            }
        }
        if n == 0 {
            assert(rows[0] == rows.last());
        } else {
            let ks = choose|k: int| 0 <= k < init.len() && max_side_of(init) == larger((#[trigger] init[k]).sell as int, init[k].buy as int);
            let kd = choose|k: int| 0 <= k < init.len() && max_delta_of(init) == distance((#[trigger] init[k]).buy as int, init[k].sell as int);
            let kv = choose|k: int| 0 <= k < init.len() && max_volume_of(init) == (#[trigger] init[k]).sell + init[k].buy;
            assert(init[ks] == rows[ks] && init[kd] == rows[kd] && init[kv] == rows[kv]);
            assert(rows[n] == rows.last());
        }
    }
}

/// The heat scales of a bar's analysis: the busiest single side is at least the buyers and the
/// sellers of every row and is one of them; the largest delta is at least the difference between
/// buyers and sellers of every row, whichever side is ahead, and is one of them; the largest volume
/// is at least the volume of every row and is one of them.
pub proof fn law_the_heat_scales_reach_the_busiest_row(a: Analysis, rows: Seq<Row>, size: i64, s: FootprintSettings)
    requires
        analysis_holds(a, rows, size, s),
        rows.len() > 0,
    ensures
        forall|k: int| 0 <= k < rows.len() ==> {
            &&& a.max_side >= larger((#[trigger] rows[k]).sell as int, rows[k].buy as int)
            &&& a.max_delta >= distance(rows[k].buy as int, rows[k].sell as int)
            &&& a.max_volume >= rows[k].sell + rows[k].buy
        },
        exists|k: int| 0 <= k < rows.len() && a.max_side == larger((#[trigger] rows[k]).sell as int, rows[k].buy as int),
        exists|k: int| 0 <= k < rows.len() && a.max_delta == distance((#[trigger] rows[k]).buy as int, rows[k].sell as int),
        exists|k: int| 0 <= k < rows.len() && a.max_volume == (#[trigger] rows[k]).sell + rows[k].buy,
{
    lemma_maxima(rows);
}

proof fn lemma_gathered_keeps_order(levels: Seq<Level>, size: int)
    requires
        size >= 1,
        forall|i: int, j: int| 0 <= i < j < levels.len() ==> (#[trigger] levels[i]).price <= (#[trigger] levels[j]).price,
    ensures
        rows_ascending(gathered(levels, size)),
        levels.len() > 0 ==> gathered(levels, size).len() > 0 && gathered(levels, size).last().index
            == levels.last().price as int / size,
    decreases levels.len(),
{
    if levels.len() > 0 {
        let init = levels.drop_last();
        assert forall|i: int, j: int| 0 <= i < j < init.len() implies (#[trigger] init[i]).price <= (#[trigger] init[j]).price by {
            assert(init[i] == levels[i] && init[j] == levels[j]);
        }
        lemma_gathered_keeps_order(init, size);
        let rows = gathered(init, size);
        let level = levels.last();
        let index = level.price as int / size;
        assert(i64::MIN <= index <= i64::MAX) by (nonlinear_arith)
            requires
                size >= 1,
                index == level.price as int / size,
                i64::MIN <= level.price <= i64::MAX,
        ;
        if init.len() > 0 {
            assert(init.last() == levels[levels.len() - 2]);
            let (a, b) = (init.last().price as int, level.price as int);
            assert(a / size <= b / size) by (nonlinear_arith)
                requires
                    a <= b,
                    size >= 1,
            ;
        }
        let g = gathered(levels, size);
        if rows.len() > 0 && rows.last().index == index {
            assert forall|i: int, j: int| 0 <= i < j < g.len() implies (#[trigger] g[i]).index < (#[trigger] g[j]).index by {
                assert(g[i].index == rows[i].index && g[j].index == rows[j].index);
            }
        } else {
            assert forall|i: int, j: int| 0 <= i < j < g.len() implies (#[trigger] g[i]).index < (#[trigger] g[j]).index by {
                if j == g.len() - 1 && i < j {
                    assert(rows[i].index <= rows.last().index);
                }
            }
        }
    }
}

proof fn lemma_traded_keeps_order(rows: Seq<Row>)
    requires
        rows_ascending(rows),
    ensures
        rows_ascending(traded(rows)),
        forall|k: int| 0 <= k < traded(rows).len() ==> exists|j: int| 0 <= j < rows.len() && #[trigger] traded(rows)[k] == rows[j],
    decreases rows.len(),
{
    if rows.len() > 0 {
        let init = rows.drop_last();
        let n = rows.len() - 1;
        assert forall|i: int, j: int| 0 <= i < j < init.len() implies (#[trigger] init[i]).index < (#[trigger] init[j]).index by {
            assert(init[i] == rows[i] && init[j] == rows[j]);
        }
        lemma_traded_keeps_order(init);
        let t = traded(init);
        let out = traded(rows);
        assert forall|k: int| 0 <= k < t.len() implies exists|j: int| 0 <= j < n && #[trigger] t[k] == rows[j] by {
            let j = choose|j: int| 0 <= j < init.len() && #[trigger] t[k] == init[j];
            assert(init[j] == rows[j]);
        }
        if volume_of(rows.last()) > 0 {
            assert(out == t.push(rows[n]));
            assert forall|k: int| 0 <= k < out.len() implies exists|j: int| 0 <= j < rows.len() && #[trigger] out[k] == rows[j] by {
                if k < t.len() {
                    let j = choose|j: int| 0 <= j < n && #[trigger] t[k] == rows[j];
                    assert(out[k] == rows[j]);
                } else {
                    assert(out[k] == rows[n]);
                }
            }
            assert forall|i: int, j: int| 0 <= i < j < out.len() implies (#[trigger] out[i]).index < (#[trigger] out[j]).index by {
                if j < t.len() {
                    assert(out[i] == t[i] && out[j] == t[j]);
                } else {
                    let m = choose|m: int| 0 <= m < n && #[trigger] t[i] == rows[m];
                    assert(out[i] == rows[m]);
                    assert(out[j] == rows[n]);
                }
            }
        } else {
            assert(out == t);
        }
    }
}

/// Levels listed from the lowest price up give rows listed from the lowest price up, each price
/// row once.
pub proof fn law_rows_come_from_the_lowest_price_up(levels: Seq<Level>, size: i64)
    requires
        forall|i: int, j: int| 0 <= i < j < levels.len() ==> (#[trigger] levels[i]).price <= (#[trigger] levels[j]).price,
    ensures
        rows_ascending(rows_spec(levels, size)),
{
    let sz: int = if size >= 1 { size as int } else { 1 };
    lemma_gathered_keeps_order(levels, sz);
    lemma_traded_keeps_order(gathered(levels, sz));
}

/// Not diagonally, the two sides of the same row are weighed against each other; with imbalances
/// turned off, no side wins one.
pub proof fn law_row_imbalances_weigh_the_same_row(rows: Seq<Row>, i: int, s: FootprintSettings)
    requires
        0 <= i < rows.len(),
    ensures
        !s.imbalance ==> !buy_imbalance(rows, i, s) && !sell_imbalance(rows, i, s),
        s.imbalance && !s.diagonal ==> buy_imbalance(rows, i, s) == wins_spec(rows[i].buy, rows[i].sell, s),
        s.imbalance && !s.diagonal ==> sell_imbalance(rows, i, s) == wins_spec(rows[i].sell, rows[i].buy, s),
{
}

} // verus!
