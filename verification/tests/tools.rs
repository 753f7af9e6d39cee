use wyck_chart::tools::{default_degree, shows_on, wave_label, Group, Tool, DEFAULT_DEGREE, DEGREES};

#[test]
fn every_tool_has_a_group_a_label_and_a_positive_anchor_count() {
    for tool in Tool::ALL {
        assert!(!tool.label().is_empty());
        assert!(tool.anchors() >= 1, "{tool:?}");
        let _ = tool.group();
    }
    let mut labels: Vec<_> = Tool::ALL.iter().map(|t| t.label()).collect();
    labels.sort_unstable();
    labels.dedup();
    assert_eq!(labels.len(), Tool::ALL.len());
}

#[test]
fn waves_are_named_by_their_degree() {
    assert_eq!(wave_label("3", DEFAULT_DEGREE), "3");
    assert_eq!(wave_label("3", 0), "(III)");
    assert_eq!(wave_label("4", 1), "IV");
    assert_eq!(wave_label("B", 2), "((B))");
    assert_eq!(wave_label("5", 5), "v");
    assert_eq!(wave_label("C", 6), "(c)");
}

#[test]
fn every_tool_has_a_code_in_snake_case() {
    assert_eq!(Tool::HeadAndShoulders.code(), "head_and_shoulders");
    assert_eq!(Tool::TrendLine.code(), "trend_line");
    let mut codes: Vec<String> = Tool::ALL.iter().map(|t| t.code()).collect();
    assert!(codes.iter().all(|c| c.chars().all(|ch| ch.is_ascii_lowercase() || ch.is_ascii_digit() || ch == '_')));
    codes.sort_unstable();
    codes.dedup();
    assert_eq!(codes.len(), Tool::ALL.len());
}

#[test]
fn a_label_switch_follows_what_a_tool_writes() {
    for tool in Tool::ALL {
        if tool.is_single_click() {
            assert!(tool.anchors() == 1 || tool.is_position(), "{tool:?}");
        }
    }
    assert!(Tool::FibRetracement.has_levels());
    assert!(!Tool::TrendLine.has_levels());
    assert!(Tool::ElliottImpulse.is_elliott());
    assert_eq!(Tool::TrendLine.group(), Group::Lines);
}

#[test]
fn the_default_degree_is_one_of_the_degrees() {
    assert_eq!(default_degree(), DEFAULT_DEGREE);
    assert!((DEFAULT_DEGREE as usize) < DEGREES.len());
    assert_eq!(wave_label("1", 99), "(i)", "a degree past the last reads as the last");
}

#[test]
fn a_drawing_shows_on_the_timeframes_it_is_kept_for() {
    // A trend line kept for every timeframe, then for H1 and D1 only, then hidden.
    let mut hidden = false;
    let mut timeframes: Option<Vec<String>> = None;
    assert!(shows_on(hidden, timeframes.as_deref(), "M5"));
    timeframes = Some(vec!["H1".into(), "D1".into()]);
    assert!(!shows_on(hidden, timeframes.as_deref(), "M5"));
    assert!(shows_on(hidden, timeframes.as_deref(), "H1"));
    hidden = true;
    assert!(!shows_on(hidden, timeframes.as_deref(), "H1"));
}
