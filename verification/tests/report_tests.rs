use std::rc::Rc;

use canvas_todo::assignment::{drop_undated, merge_sources, retain_not_excluded, Assignment};
use canvas_todo::canvas::{filter_excluded_courses, Calendar, CanvasAssignment, CanvasCourse, Submission};
use canvas_todo::config::{Config, Exclusion};
use canvas_todo::gradescope::{GradescopeAssignment, GradescopeCourse};
use canvas_todo::report::{build_selection, locked_summary_line, todo_report};
use canvas_todo::time::LocalParts;

fn base_config() -> Config {
    Config {
        canvas_url: "https://canvas.example".to_string(),
        token: "token".to_string(),
        gradescope_cookie: None,
        hide_overdue_after_days: None,
        hide_overdue_without_submission: false,
        exclude: Vec::new(),
        inclusions: Vec::new(),
        hide_locked: false,
    }
}

fn course(id: i64, name: &str) -> CanvasCourse {
    CanvasCourse {
        id,
        name: name.to_string(),
        calendar: Calendar { ics: String::new() },
    }
}

fn canvas_assignment(id: i64, name: &str, due_at: Option<i64>) -> CanvasAssignment {
    CanvasAssignment {
        id,
        name: name.to_string(),
        due_at,
        points_possible: Some("10".to_string()),
        submission_types: vec!["online_upload".to_string()],
        submission: Some(Submission {
            submitted_at: None,
            discussion_entry_count: 0,
        }),
        locked_for_user: false,
        peer_reviews: false,
        html_url: "https://canvas.example/a".to_string(),
        external_tool_tag_attributes: None,
    }
}

fn gradescope_course(id: i64, name: &str) -> GradescopeCourse {
    GradescopeCourse {
        shortname: name.to_string(),
        name: name.to_string(),
        assignment_count: 1,
        id,
    }
}

/// A consistent calendar reading around the fixed instant 1_000_000_000.
fn now_parts() -> LocalParts {
    LocalParts {
        ts: 1_000_000_000,
        day_number: 11574,
        month: 9,
        day: 9,
        hour: 1,
        minute: 46,
        weekday: 6,
    }
}

fn due_of(a: &Assignment) -> Option<i64> {
    match a {
        Assignment::Canvas(_, x) => x.due_at,
        Assignment::Gradescope(_, g) => g.due_at,
    }
}

fn course_id_of(a: &Assignment) -> i64 {
    match a {
        Assignment::Canvas(c, _) => c.id,
        Assignment::Gradescope(c, _) => c.id,
    }
}

fn name_of(a: &Assignment) -> String {
    match a {
        Assignment::Canvas(_, x) => x.name.clone(),
        Assignment::Gradescope(_, g) => g.name.clone(),
    }
}

#[test]
fn printed_order_is_non_increasing_by_due() {
    let config = base_config();
    let c = Rc::new(course(7, "Algebra"));
    let dues = [1_000_050_000, 1_000_000_500, 1_000_900_000, 999_000_000];
    let assignments: Vec<CanvasAssignment> = dues
        .iter()
        .enumerate()
        .map(|(i, d)| canvas_assignment(i as i64, &format!("a{}", i), Some(*d)))
        .collect();
    let all = merge_sources(vec![], vec![(c, assignments)]);
    let report = todo_report(&config, false, &now_parts(), all);
    assert_eq!(report.shown.len(), 4);
    let shown_dues: Vec<i64> = report.shown.iter().map(|a| due_of(a).unwrap()).collect();
    for w in shown_dues.windows(2) {
        assert!(w[0] >= w[1]);
    }
}

#[test]
fn excluded_course_never_reaches_the_report() {
    let mut config = base_config();
    config.exclude.push(Exclusion::ByClassId { class_id: 100 });
    let fetched = vec![course(100, "Hidden"), course(101, "Kept")];
    let kept = filter_excluded_courses(&config, fetched);
    assert_eq!(kept.len(), 1);
    assert_eq!(kept[0].id, 101);
    let pairs: Vec<(Rc<CanvasCourse>, Vec<CanvasAssignment>)> = kept
        .into_iter()
        .map(|c| {
            let id = c.id;
            (
                Rc::new(c),
                vec![canvas_assignment(id * 10, "hw", Some(1_000_500_000))],
            )
        })
        .collect();
    let all = merge_sources(vec![], pairs);
    let report = todo_report(&config, false, &now_parts(), all);
    assert_eq!(report.shown.len(), 1);
    assert_eq!(course_id_of(&report.shown[0]), 101);
}

#[test]
fn excluded_assignment_id_is_removed_before_anything_else() {
    let config = base_config();
    let c = Rc::new(course(1, "C"));
    let all = merge_sources(
        vec![],
        vec![(
            c,
            vec![
                canvas_assignment(5, "gone", Some(1_000_500_000)),
                canvas_assignment(6, "stays", Some(1_000_500_000)),
            ],
        )],
    );
    let exclude = vec![Exclusion::ByAssignmentId { assignment_id: 5 }];
    let remaining = retain_not_excluded(&exclude, all);
    assert_eq!(remaining.len(), 1);
    assert_eq!(name_of(&remaining[0]), "stays");
}

#[test]
fn undated_assignment_never_appears_and_never_moves_next_due() {
    let config = base_config();
    let c = Rc::new(course(1, "C"));
    let all = merge_sources(
        vec![],
        vec![(c, vec![canvas_assignment(1, "no due date", None)])],
    );
    assert_eq!(all.len(), 1);
    let dated = drop_undated(all);
    assert_eq!(dated.len(), 0);
    let c2 = Rc::new(course(1, "C"));
    let all2 = merge_sources(
        vec![],
        vec![(
            c2,
            vec![
                canvas_assignment(1, "no due date", None),
                canvas_assignment(2, "dated", Some(1_000_600_000)),
            ],
        )],
    );
    let report = todo_report(&config, false, &now_parts(), all2);
    assert_eq!(report.shown.len(), 1);
    assert_eq!(name_of(&report.shown[0]), "dated");
    assert_eq!(report.next_due, Some(1_000_600_000));
}

#[test]
fn equal_due_times_from_different_courses_both_appear_once() {
    let config = base_config();
    let due = 1_000_700_000;
    let c1 = Rc::new(course(1, "One"));
    let gc = Rc::new(gradescope_course(2, "Two"));
    let all = merge_sources(
        vec![(
            gc,
            vec![GradescopeAssignment {
                name: "gs hw".to_string(),
                submitted: false,
                due_at: Some(due),
                link: None,
            }],
        )],
        vec![(c1, vec![canvas_assignment(11, "cv hw", Some(due))])],
    );
    let report = todo_report(&config, false, &now_parts(), all);
    assert_eq!(report.shown.len(), 2);
    let names: Vec<String> = report.shown.iter().map(name_of).collect();
    assert!(names.contains(&"gs hw".to_string()));
    assert!(names.contains(&"cv hw".to_string()));
}

#[test]
fn locked_assignment_is_withheld_and_tallied() {
    let mut config = base_config();
    config.hide_locked = true;
    let c = Rc::new(course(1, "C"));
    let mut locked = canvas_assignment(1, "locked hw", Some(1_000_500_000));
    locked.locked_for_user = true;
    let open = canvas_assignment(2, "open hw", Some(1_000_500_100));
    let all = merge_sources(vec![], vec![(c, vec![locked, open])]);
    let report = todo_report(&config, false, &now_parts(), all);
    assert_eq!(report.locked_count, 1);
    assert_eq!(report.shown.len(), 1);
    assert_eq!(name_of(&report.shown[0]), "open hw");
    assert_eq!(locked_summary_line(1), "(+1 locked assignment)");
    assert_eq!(locked_summary_line(3), "(+3 locked assignments)");
    assert!(report
        .lines
        .iter()
        .any(|l| l.contains("(+1 locked assignment)")));
}

#[test]
fn next_due_markers_track_earliest_pending_future_assignment() {
    let config = base_config();
    let c = Rc::new(course(1, "C"));
    let mut offline = canvas_assignment(1, "paper", Some(1_000_200_000));
    offline.submission_types = vec!["on_paper".to_string()];
    let online = canvas_assignment(2, "upload", Some(1_000_300_000));
    let past = canvas_assignment(3, "past", Some(999_900_000));
    let all = merge_sources(vec![], vec![(c, vec![offline, online, past])]);
    let selection = build_selection(&config, false, 1_000_000_000, all);
    assert_eq!(selection.next_due, Some(1_000_200_000));
    assert_eq!(selection.next_online_due, Some(1_000_300_000));
}

#[test]
fn submitted_assignment_does_not_move_next_due() {
    let config = base_config();
    let c = Rc::new(course(1, "C"));
    let mut done = canvas_assignment(1, "done", Some(1_000_100_000));
    done.submission = Some(Submission {
        submitted_at: Some("2021-01-01T00:00:00Z".to_string()),
        discussion_entry_count: 0,
    });
    let pending = canvas_assignment(2, "pending", Some(1_000_400_000));
    let all = merge_sources(vec![], vec![(c, vec![done, pending])]);
    let selection = build_selection(&config, true, 1_000_000_000, all);
    assert_eq!(selection.next_due, Some(1_000_400_000));
}

#[test]
fn show_all_overrides_the_soft_rules_but_not_exclusion() {
    let mut config = base_config();
    config.hide_overdue_after_days = Some(0);
    config.exclude.push(Exclusion::ByAssignmentId { assignment_id: 2 });
    let c = Rc::new(course(1, "C"));
    let overdue = canvas_assignment(1, "long overdue", Some(999_000_000));
    let excluded = canvas_assignment(2, "excluded", Some(1_000_500_000));
    let all = merge_sources(vec![], vec![(c, vec![overdue, excluded])]);
    let hidden = todo_report(&config, false, &now_parts(), all.clone());
    assert_eq!(hidden.shown.len(), 0);
    let shown = todo_report(&config, true, &now_parts(), all);
    assert_eq!(shown.shown.len(), 1);
    assert_eq!(name_of(&shown.shown[0]), "long overdue");
}

#[test]
fn report_line_layout_matches_entries_and_trailers() {
    let config = base_config();
    let c = Rc::new(course(1, "C"));
    let all = merge_sources(
        vec![],
        vec![(c, vec![canvas_assignment(1, "hw", Some(1_000_500_000))])],
    );
    let report = todo_report(&config, false, &now_parts(), all);
    // one canvas entry: 4 lines; next-due and next-online trailers: 1 each
    assert_eq!(report.shown.len(), 1);
    assert_eq!(report.lines.len(), 4 + 1 + 1);
    assert!(report.lines[4].contains("Next assignment is due in "));
    assert!(report.lines[5].contains("Next online submission is due in "));
}
