use std::time::Duration;

use wyck_chart::custom::{Computed, Custom, Problem, Severity, Source, Status, StudyRef};

type Runs = Custom<Vec<f64>, u64, ()>;

fn study(script: Option<&str>) -> StudyRef {
    StudyRef {
        script: script.map(str::to_owned),
        is_script: script.is_some(),
    }
}

fn serial(custom: &Runs, index: usize) -> u64 {
    custom.slots[index].serial
}

#[test]
fn a_slot_follows_its_indicator_when_others_are_added_or_taken_away() {
    let mut custom = Runs::new();
    let studies = vec![study(None), study(Some("a")), study(Some("b"))];
    custom.align(&studies);
    let (a, b) = (serial(&custom, 1), serial(&custom, 2));
    assert_ne!(a, b);

    // The first is taken away: the scripts keep their slots, at their new places.
    let after = vec![study(Some("a")), study(Some("b"))];
    custom.align(&after);
    assert_eq!((serial(&custom, 0), serial(&custom, 1)), (a, b));

    // One is put in front, and a second copy of a script gets a slot of its own.
    let more = vec![study(None), study(Some("a")), study(Some("b")), study(Some("a"))];
    custom.align(&more);
    assert_eq!((serial(&custom, 1), serial(&custom, 2)), (a, b));
    let copy = serial(&custom, 3);
    assert!(copy != a && copy != b);
}

#[test]
fn what_was_run_is_forgotten_when_the_bars_are_no_longer_the_same_ones() {
    let mut custom = Runs::new();
    custom.data_changed(Some(1_000));
    custom.align(&[study(Some("a"))]);
    custom.slots[0].output = Some(Vec::new());
    custom.slots[0].computed = Some(custom.wanted);

    // More bars at the end: the first is the same, the output stays (and a new run is wanted).
    custom.data_changed(Some(1_000));
    assert!(custom.slots[0].output.is_some() && custom.pending);

    // Older bars put in front: the first bar is another one, so nothing lines up.
    custom.data_changed(Some(400));
    assert!(custom.slots[0].output.is_none() && custom.slots[0].computed.is_none());
}

#[test]
fn the_outputs_are_put_where_the_chart_draws_them_and_nothing_else_is_touched() {
    let mut custom = Runs::new();
    custom.align(&[study(None), study(Some("a"))]);
    custom.slots[1].output = Some(vec![70.0]);
    let mut targets = vec![Some(Vec::new()), None];
    custom.apply(&mut targets);
    assert_eq!(targets[0], Some(Vec::new()));
    assert_eq!(targets[1].as_ref().unwrap(), &vec![70.0]);
}

#[test]
fn a_run_is_started_once_and_a_change_during_it_is_remembered() {
    let mut custom = Runs::new();
    custom.align(&[study(Some("a"))]);
    assert!(custom.schedule(0, true, true, "a", Source::Ready, false));
    custom.started(0, ());
    // While it goes, another change only marks the slot.
    assert!(!custom.schedule(0, true, true, "a", Source::Ready, false));
    assert!(custom.slots[0].dirty);
    let serial = custom.slots[0].serial;
    let done = Computed {
        output: vec![1.0],
        log: vec!["hello".to_owned()],
        elapsed: Duration::from_millis(5),
    };
    custom.pending = false;
    assert_eq!(custom.finish(serial, 9, Ok(done)), Some(0));
    assert!(custom.pending, "the change that came meanwhile asks for another look");
    assert!(!custom.slots[0].dirty && custom.slots[0].running.is_none());
    assert_eq!(custom.slots[0].computed, Some(9));
    assert_eq!(custom.slots[0].log, vec!["hello".to_owned()]);
    // Made from the same data: no new run.
    assert!(!custom.schedule(0, true, true, "a", Source::Ready, true));
    // A run of a slot that is gone is dropped.
    assert_eq!(custom.finish(serial + 100, 9, Err(Vec::new())), None);
}

#[test]
fn a_missing_script_says_so_and_a_broken_one_shows_its_problems() {
    let mut custom = Runs::new();
    custom.align(&[study(Some("gone")), study(Some("bad")), study(None)]);
    assert!(!custom.schedule(0, true, true, "gone", Source::Missing, false));
    assert_eq!(
        custom.slots[0].problems[0].message,
        "the indicator \"gone\" is not in the indicators folder"
    );
    assert_eq!(custom.slots[0].problems[0].severity, Severity::Error);
    let problems = vec![Problem::error(3, 4, "unexpected end".to_owned())];
    assert!(!custom.schedule(1, true, true, "bad", Source::Broken(problems), false));
    assert_eq!(custom.slots[1].problems[0].line, 3);
    assert!(!custom.schedule(2, false, true, "", Source::Ready, false), "not a script");
}

#[test]
fn the_report_of_a_script_is_that_of_its_first_indicator() {
    let mut custom = Runs::new();
    let studies = vec![study(None), study(Some("a"))];
    custom.align(&studies);
    custom.slots[1].problems = vec![
        Problem {
            line: 1,
            column: 2,
            message: "careful".to_owned(),
            severity: Severity::Warning,
        },
        Problem::error(5, 6, "broken".to_owned()),
    ];
    let report = custom.script_report(&studies, "a", 321).unwrap();
    assert_eq!(report.bars, 321);
    assert_eq!(report.problems.len(), 2);
    assert_eq!(report.problems[1].message, "broken");
    assert!(custom.script_report(&studies, "b", 1).is_none());
    let status: Status = custom.custom_status(&studies, 1).unwrap();
    assert_eq!(status.first_error().unwrap().line, 5);
    assert!(custom.custom_status(&studies, 0).is_none(), "not a script");
}
