use wyck_chart::export::human_bytes;
use wyck_chart::marks::{duration_text, ghost_order, icon_key, table_cells};

#[test]
fn a_ghost_feed_is_the_same_every_time_it_is_drawn() {
    let first = ghost_order(7, 300);
    let second = ghost_order(7, 300);
    assert_eq!(first, second);
    assert_eq!(first.len(), 300);
    assert!(first.iter().all(|i| *i < 300));
}

#[test]
fn a_ghost_feed_replays_the_generator_of_its_id() {
    // The first pick by hand: the seed is the id mixed with the count, stepped once.
    let (id, n) = (3u64, 5usize);
    let seed = id.wrapping_mul(0x9e37_79b9_7f4a_7c15).wrapping_add(n as u64);
    let seed = seed.wrapping_mul(6_364_136_223_846_793_005).wrapping_add(1_442_695_040_888_963_407);
    assert_eq!(ghost_order(id, n)[0], (seed >> 33) as usize % n);
    assert_ne!(ghost_order(3, 50), ghost_order(4, 50), "another drawing, another order");
    assert!(ghost_order(3, 0).is_empty());
}

#[test]
fn an_unknown_icon_is_a_star() {
    assert_eq!(icon_key(""), "star");
    assert_eq!(icon_key("nonsense"), "star");
    assert_eq!(icon_key(" heart "), "heart");
}

#[test]
fn a_table_reads_cells_from_bars_and_lines() {
    let cells = table_cells("a | b\nc");
    assert_eq!(cells, vec![vec!["a", "b"], vec!["c", ""]]);
    assert_eq!(table_cells("  ").len(), 3, "an empty table shows a sample");
}

#[test]
fn a_table_drops_a_last_empty_line_and_carriage_returns() {
    let cells = table_cells("x|y\r\nz\n");
    assert_eq!(cells, vec![vec!["x", "y"], vec!["z", ""]]);
    assert_eq!(table_cells("  ")[0], vec!["Item", "Value"]);
}

#[test]
fn durations_read_in_their_two_largest_units() {
    assert_eq!(duration_text(30_000), "30s");
    assert_eq!(duration_text(45 * 60_000), "45m");
    assert_eq!(duration_text(135 * 60_000), "2h 15m");
    assert_eq!(duration_text(-(3 * 86_400_000 + 4 * 3_600_000)), "3d 4h");
}

#[test]
fn a_short_span_reads_in_seconds_and_a_day_keeps_its_hours() {
    assert_eq!(duration_text(0), "0s");
    assert_eq!(duration_text(-90_000), "1m");
    assert_eq!(duration_text(86_400_000), "1d 0h");
    assert_eq!(duration_text(3_600_000), "1h 0m");
}

#[test]
fn sizes_read_in_bytes_kibibytes_and_mebibytes() {
    assert_eq!(human_bytes(830), "830 B");
    assert_eq!(human_bytes(1_023), "1023 B");
    assert_eq!(human_bytes(1_024), "1.0 KB");
    assert_eq!(human_bytes(12_697), "12.4 KB");
    assert_eq!(human_bytes(3_250_586), "3.1 MB");
    for bytes in [1_536usize, 1_075, 10_291, 1_048_575, 1_048_576, 5_347_737, 123_456_789, usize::MAX] {
        let b = bytes as f64;
        let expected = if b >= 1_048_576.0 {
            format!("{:.1} MB", b / 1_048_576.0)
        } else if b >= 1_024.0 {
            format!("{:.1} KB", b / 1_024.0)
        } else {
            format!("{bytes} B")
        };
        assert_eq!(human_bytes(bytes), expected, "{bytes}");
    }
}
