use wyck_chart::load::{
    bucket_start, order_by_time, want_base, BackWalk, ForwardWalk, TickWalk, CHUNK_BARS, MAX_CHUNKS, MAX_EMPTY_RUN,
    WANT_BARS,
};

const MINUTE: i64 = 60_000;
/// 2026-01-05 00:00 UTC.
const NOW: i64 = 1_767_571_200_000;

/// How many bars of a minute a server that has them from `start` to `end` gives for a range.
fn bars_in(start: i64, end: i64, from: i64, to: i64) -> usize {
    let lo = from.max(start);
    let hi = to.min(end);
    if lo > hi {
        return 0;
    }
    let first = (lo + MINUTE - 1).div_euclid(MINUTE);
    let last = hi.div_euclid(MINUTE);
    if last < first { 0 } else { (last - first + 1) as usize }
}

#[test]
fn a_first_load_fills_a_screen_in_chunks_the_server_accepts() {
    let span = CHUNK_BARS * MINUTE;
    let (start, end) = (NOW - 30 * 86_400_000, NOW);
    let mut walk = BackWalk::new(NOW + 1, span, WANT_BARS);
    let mut held = 0;
    let mut asked = 0;
    let mut last_from = NOW + 1;
    while let Some((from, to)) = walk.next_range() {
        assert!((to - from) / MINUTE <= CHUNK_BARS, "a request asks for more bars than the server serves");
        assert_eq!(to, last_from - 1, "no gap, no overlap");
        last_from = from;
        let count = bars_in(start, end, from, to);
        held += count;
        walk.answered(count);
        asked += 1;
    }
    assert!(held >= WANT_BARS, "{held}");
    assert!(asked <= MAX_CHUNKS);
}

#[test]
fn walking_back_stops_where_the_history_begins() {
    // Only 100 bars exist: the walk gives up after a run of empty chunks.
    let (start, end) = (NOW - 99 * MINUTE, NOW);
    let mut walk = BackWalk::new(NOW + 1, CHUNK_BARS * MINUTE, WANT_BARS);
    let mut held = 0;
    let mut asked = 0;
    while let Some((from, to)) = walk.next_range() {
        let count = bars_in(start, end, from, to);
        held += count;
        walk.answered(count);
        asked += 1;
    }
    assert_eq!(held, 100);
    assert!(asked <= 1 + MAX_EMPTY_RUN, "{asked} requests");
}

#[test]
fn older_history_ends_before_the_oldest_bar_held() {
    let oldest = NOW - 2_000 * MINUTE;
    let mut walk = BackWalk::new(oldest, CHUNK_BARS * MINUTE, WANT_BARS);
    let (from, to) = walk.next_range().unwrap();
    assert!(to < oldest && from <= to);
}

#[test]
fn a_gap_is_fetched_forward_in_order_without_repeats() {
    let from = NOW - 3_500 * MINUTE;
    let mut walk = ForwardWalk::new(from, NOW, CHUNK_BARS * MINUTE);
    let mut ranges = Vec::new();
    while let Some(range) = walk.next_range() {
        ranges.push(range);
    }
    assert!(ranges.len() >= 3, "a long gap takes several chunks");
    assert_eq!(ranges[0].0, from);
    assert_eq!(ranges.last().unwrap().1, NOW);
    for pair in ranges.windows(2) {
        assert_eq!(pair[1].0, pair[0].1 + 1);
    }
    let total: usize = ranges.iter().map(|(a, b)| bars_in(from, NOW, *a, *b)).sum();
    assert_eq!(total, 3_501);
}

#[test]
fn a_forward_walk_makes_no_more_than_the_limit_of_requests() {
    let mut walk = ForwardWalk::new(0, i64::MAX - 1, 10);
    let mut asked = 0;
    while walk.next_range().is_some() {
        asked += 1;
    }
    assert_eq!(asked, MAX_CHUNKS);
}

#[test]
fn tick_history_widens_its_window_over_a_quiet_stretch() {
    // The last tick is two hours before "now": a first 10 minute window is empty.
    let last_tick = NOW - 2 * 3_600_000;
    let mut walk = TickWalk::new(NOW, 10 * MINUTE, 3_600_000 - 60_000, None);
    let mut asked = 0;
    let mut found = None;
    while let Some((from, to)) = walk.next_range() {
        asked += 1;
        if from <= last_tick && last_tick <= to {
            found = Some((from, to));
            break;
        }
        walk.nothing_found();
    }
    assert!(asked > 1, "it looked further back");
    assert!(found.is_some());
}

#[test]
fn second_bars_start_on_their_bucket() {
    let mut walk = TickWalk::new(NOW, 95_500, 3_600_000, Some(15_000));
    let (from, to) = walk.next_range().unwrap();
    assert_eq!(from % 15_000, 0);
    assert!(from <= NOW - 95_500 + 1 && to == NOW);
    assert_eq!(bucket_start(NOW - 95_500, 15_000), NOW - 105_000);
    assert_eq!(bucket_start(-1, 15_000), -15_000);
}

#[test]
fn a_grouped_load_asks_for_whole_groups_within_reason() {
    assert_eq!(want_base(1), WANT_BARS);
    assert_eq!(want_base(7), 8_400);
    assert_eq!(want_base(60), 12_000);
}

#[test]
fn bars_come_in_order_without_repeats() {
    let times = [300, 100, 200, 100, 400, 300];
    let order = order_by_time(&times);
    assert_eq!(order, vec![1, 2, 0, 4]);
    assert!(order_by_time(&[]).is_empty());
}
