use canvas_todo::progress::Progress;

#[test]
fn in_flight_count_matches_unmatched_begins() {
    let mut p = Progress::new();
    assert_eq!(p.in_flight(), 0);
    let a = p.begin("Loading course list".to_string());
    let b = p.begin("Loading assignments for Algebra".to_string());
    let c = p.begin("Loading Gradescope courses".to_string());
    assert_eq!(p.in_flight(), 3);
    p.end(b);
    assert_eq!(p.in_flight(), 2);
    p.end(a);
    p.end(c);
    assert_eq!(p.in_flight(), 0);
    p.finish();
}

#[test]
fn status_line_joins_labels_in_slot_order() {
    let mut p = Progress::new();
    let a = p.begin("alpha".to_string());
    let b = p.begin("beta".to_string());
    let _c = p.begin("gamma".to_string());
    assert_eq!(p.status_line(), "alpha, beta, gamma");
    p.end(b);
    assert_eq!(p.status_line(), "alpha, gamma");
    // a freed slot is reused: the new label takes the old slot's place
    let _d = p.begin("delta".to_string());
    assert_eq!(p.status_line(), "alpha, delta, gamma");
    assert_eq!(p.in_flight(), 3);
    let _ = a;
}

#[test]
fn empty_tracker_reports_an_empty_line() {
    let p = Progress::new();
    assert_eq!(p.status_line(), "");
    assert_eq!(p.in_flight(), 0);
}
