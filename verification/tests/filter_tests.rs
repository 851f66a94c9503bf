use std::rc::Rc;

use canvas_todo::assignment::Assignment;
use canvas_todo::canvas::{Calendar, CanvasAssignment, CanvasCourse, Submission};
use canvas_todo::config::{Config, Inclusion};
use canvas_todo::filter::should_show;
use canvas_todo::gradescope::{GradescopeAssignment, GradescopeCourse};

const NOW: i64 = 1_000_000_000;

fn base_config() -> Config {
    Config {
        canvas_url: String::new(),
        token: String::new(),
        gradescope_cookie: None,
        hide_overdue_after_days: None,
        hide_overdue_without_submission: false,
        exclude: Vec::new(),
        inclusions: Vec::new(),
        hide_locked: false,
    }
}

fn canvas(id: i64, due_at: Option<i64>, submission: Option<Submission>) -> Assignment {
    Assignment::Canvas(
        Rc::new(CanvasCourse {
            id: 1,
            name: "C".to_string(),
            calendar: Calendar { ics: String::new() },
        }),
        CanvasAssignment {
            id,
            name: "hw".to_string(),
            due_at,
            points_possible: Some("5".to_string()),
            submission_types: vec!["online_upload".to_string()],
            submission,
            locked_for_user: false,
            peer_reviews: false,
            html_url: String::new(),
            external_tool_tag_attributes: None,
        },
    )
}

fn gradescope(submitted: bool, due_at: Option<i64>) -> Assignment {
    Assignment::Gradescope(
        Rc::new(GradescopeCourse {
            shortname: "G".to_string(),
            name: "G".to_string(),
            assignment_count: 1,
            id: 2,
        }),
        GradescopeAssignment {
            name: "gs".to_string(),
            submitted,
            due_at,
            link: None,
        },
    )
}

#[test]
fn plain_pending_assignment_is_shown() {
    let config = base_config();
    let a = canvas(1, Some(NOW + 1000), None);
    assert!(should_show(&config, &a, NOW));
}

#[test]
fn inclusion_overrides_every_other_rule() {
    let mut config = base_config();
    config.hide_overdue_after_days = Some(1);
    config
        .inclusions
        .push(Inclusion::ByAssignmentId { assignment_id: 9 });
    // overdue far past the threshold AND finalized: both hiding rules hit
    let finalized = Some(Submission {
        submitted_at: Some("t".to_string()),
        discussion_entry_count: 0,
    });
    let a = canvas(9, Some(NOW - 30 * 86400), finalized);
    assert!(should_show(&config, &a, NOW));
    // the same assignment without the inclusion is hidden
    let mut hidden_config = base_config();
    hidden_config.hide_overdue_after_days = Some(1);
    let b = canvas(9, Some(NOW - 30 * 86400), None);
    assert!(!should_show(&hidden_config, &b, NOW));
}

#[test]
fn overdue_threshold_counts_whole_days() {
    let mut config = base_config();
    config.hide_overdue_after_days = Some(2);
    // overdue by just under three days: 2 whole days, not over the threshold
    let a = canvas(1, Some(NOW - 2 * 86400 - 3600), None);
    assert!(should_show(&config, &a, NOW));
    // overdue by a bit over three days: 3 whole days, over the threshold
    let b = canvas(1, Some(NOW - 3 * 86400 - 3600), None);
    assert!(!should_show(&config, &b, NOW));
}

#[test]
fn submitted_dashboard_assignment_hidden_only_under_the_flag() {
    let mut config = base_config();
    config.hide_overdue_without_submission = true;
    let a = gradescope(true, Some(NOW + 1000));
    assert!(!should_show(&config, &a, NOW));
    let b = gradescope(false, Some(NOW + 1000));
    assert!(should_show(&config, &b, NOW));
    let unflagged = base_config();
    assert!(should_show(&unflagged, &a, NOW));
}

#[test]
fn finalized_submission_is_hidden_unless_peer_review_is_pending() {
    let config = base_config();
    let finalized = Some(Submission {
        submitted_at: Some("t".to_string()),
        discussion_entry_count: 0,
    });
    let a = canvas(1, Some(NOW + 1000), finalized.clone());
    assert!(!should_show(&config, &a, NOW));

    // peer review required with fewer than two entries keeps it actionable
    let mut b = canvas(1, Some(NOW + 1000), finalized);
    if let Assignment::Canvas(_, x) = &mut b {
        x.peer_reviews = true;
    }
    assert!(should_show(&config, &b, NOW));

    // peer review with two entries is done
    let reviewed = Some(Submission {
        submitted_at: Some("t".to_string()),
        discussion_entry_count: 2,
    });
    let mut c = canvas(1, Some(NOW + 1000), reviewed);
    if let Assignment::Canvas(_, x) = &mut c {
        x.peer_reviews = true;
    }
    assert!(!should_show(&config, &c, NOW));
}
