use wyck_chart::live::{plan, Wanted, Wish, Wishes};
use wyck_chart::sorted::BarFeed;

const M1: u32 = 0;
const M5: u32 = 1;
const H1: u32 = 4;

fn feed(symbol: i64, period: u32) -> BarFeed {
    BarFeed { symbol, period }
}

#[test]
fn two_charts_on_one_period_share_a_subscription() {
    let mut wishes = Wishes::new();
    wishes.set(1, Some(Wish::symbol(7, Some(M5))));
    assert_eq!(wishes.set(2, Some(Wish::symbol(7, Some(M5)))).bars.len(), 1);
    assert_eq!(wishes.set(1, None).bars.len(), 1, "the other chart still needs it");
    let empty = wishes.set(2, None);
    assert!(empty.bars.is_empty() && empty.spots.is_empty());
}

#[test]
fn a_chart_that_changes_period_moves_its_wish() {
    let mut wishes = Wishes::new();
    wishes.set(1, Some(Wish::symbol(7, Some(M5))));
    let now = wishes.set(1, Some(Wish::symbol(7, Some(H1))));
    assert_eq!(now.bars, vec![feed(7, H1)]);
    assert_eq!(now.spots, vec![7]);
}

#[test]
fn a_price_stays_while_anyone_wants_it() {
    let mut wishes = Wishes::new();
    wishes.set(u64::MAX, Some(Wish::spots(&[7])));
    wishes.set(1, Some(Wish::symbol(7, Some(M1))));
    let after = wishes.set(1, Some(Wish::symbol(9, None)));
    assert_eq!(after.spots, vec![7, 9], "the header still follows 7");
    assert!(after.bars.is_empty());
}

#[test]
fn the_plan_moves_bars_off_before_their_prices_and_on_after() {
    let current = Wanted {
        spots: vec![1, 2],
        bars: vec![feed(1, M1)],
    };
    let want = Wanted {
        spots: vec![2, 3],
        bars: vec![feed(3, H1)],
    };
    let steps = plan(&current, &want);
    assert_eq!(steps.unsubscribe_bars, vec![feed(1, M1)]);
    assert_eq!(steps.unsubscribe_spots, vec![1]);
    assert_eq!(steps.subscribe_spots, vec![3]);
    assert_eq!(steps.subscribe_bars, vec![feed(3, H1)]);
    let none = plan(&want, &want);
    assert!(none.unsubscribe_bars.is_empty() && none.unsubscribe_spots.is_empty());
    assert!(none.subscribe_spots.is_empty() && none.subscribe_bars.is_empty());
}

#[test]
fn live_bars_bring_their_prices_and_wishes_are_kept_in_order() {
    let mut wishes = Wishes::new();
    let w = wishes.set(3, Some(Wish::spots(&[9, 2, 9, 5])));
    assert_eq!(w.spots, vec![2, 5, 9]);
    let w = wishes.set(4, Some(Wish::symbol(4, Some(H1))));
    assert_eq!(w.spots, vec![2, 4, 5, 9]);
    assert_eq!(w.bars, vec![feed(4, H1)]);
    // An empty wish takes its owner away.
    let w = wishes.set(4, Some(Wish::spots(&[])));
    assert_eq!(w.spots, vec![2, 5, 9]);
    assert!(w.bars.is_empty());
    assert!(Wish::spots(&[]).is_empty());
}

#[test]
fn running_the_plan_gives_the_wish() {
    let current = Wanted {
        spots: vec![1, 4, 6],
        bars: vec![feed(1, M1), feed(6, H1)],
    };
    let want = Wanted {
        spots: vec![4, 5, 6],
        bars: vec![feed(6, M1), feed(6, H1)],
    };
    let steps = plan(&current, &want);
    let mut spots: Vec<i64> = current.spots.iter().copied().filter(|s| !steps.unsubscribe_spots.contains(s)).collect();
    spots.extend(&steps.subscribe_spots);
    spots.sort_unstable();
    assert_eq!(spots, want.spots);
    let mut bars: Vec<BarFeed> = current.bars.iter().copied().filter(|b| !steps.unsubscribe_bars.contains(b)).collect();
    bars.extend(&steps.subscribe_bars);
    bars.sort_by_key(|b| (b.symbol, b.period));
    assert_eq!(bars, want.bars);
}
