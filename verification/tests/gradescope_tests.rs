use canvas_todo::gradescope::{
    assignment_from_row, course_from_box, course_id_of_href, course_page_path, first_token,
};

#[test]
fn course_boxes_parse_id_and_count() {
    let texts = vec![
        "CS 101".to_string(),
        "Computer Science".to_string(),
        "12 assignments".to_string(),
    ];
    let course = course_from_box("/courses/123", texts).unwrap();
    assert_eq!(course.id, 123);
    assert_eq!(course.shortname, "CS 101");
    assert_eq!(course.name, "Computer Science");
    assert_eq!(course.assignment_count, 12);
}

#[test]
fn malformed_course_boxes_parse_to_nothing() {
    let three = || {
        vec![
            "a".to_string(),
            "b".to_string(),
            "3 assignments".to_string(),
        ]
    };
    assert!(course_from_box("/enrollments/123", three()).is_none());
    assert!(course_from_box("/courses/abc", three()).is_none());
    assert!(course_from_box("/courses/", three()).is_none());
    assert!(course_from_box("/courses/1", vec!["a".to_string(), "b".to_string()]).is_none());
    let unnumbered = vec!["a".to_string(), "b".to_string(), "none".to_string()];
    assert!(course_from_box("/courses/1", unnumbered).is_none());
}

#[test]
fn hrefs_yield_ids_only_with_the_course_prefix() {
    assert_eq!(course_id_of_href("/courses/98765"), Some(98765));
    assert_eq!(course_id_of_href("/courses/"), None);
    assert_eq!(course_id_of_href("/course/1"), None);
    assert_eq!(course_id_of_href(""), None);
}

#[test]
fn first_tokens_skip_leading_whitespace() {
    assert_eq!(first_token("12 assignments"), "12");
    assert_eq!(first_token("  7\tthings"), "7");
    assert_eq!(first_token(""), "");
    assert_eq!(first_token("   "), "");
    assert_eq!(first_token("one"), "one");
}

#[test]
fn rows_parse_the_dashboard_due_format_to_the_exact_timestamp() {
    let texts = vec![
        "HW 1".to_string(),
        "No Submission".to_string(),
        "2024-03-04 13:30:00 +0000".to_string(),
    ];
    let a = assignment_from_row(texts, Some("/hw1".to_string()), false).unwrap();
    assert_eq!(a.name, "HW 1");
    assert!(!a.submitted);
    // 2024-03-04 13:30:00 UTC
    assert_eq!(a.due_at, Some(1_709_559_000));
    assert_eq!(a.link, Some("/hw1".to_string()));
}

#[test]
fn the_due_timestamp_honors_the_offset_in_the_text() {
    let texts = vec![
        "HW 2".to_string(),
        "2024-03-04 13:30:00 -0500".to_string(),
    ];
    let a = assignment_from_row(texts, None, false).unwrap();
    assert_eq!(a.due_at, Some(1_709_559_000 + 5 * 3600));
}

#[test]
fn submission_markers_decide_before_the_score_badge() {
    let submitted = vec!["HW".to_string(), "Submitted".to_string()];
    assert!(assignment_from_row(submitted, None, false).unwrap().submitted);
    let none = vec!["HW".to_string(), "No Submission".to_string()];
    assert!(!assignment_from_row(none, None, true).unwrap().submitted);
    let unmarked = vec!["HW".to_string()];
    assert!(assignment_from_row(unmarked.clone(), None, true).unwrap().submitted);
    assert!(!assignment_from_row(unmarked, None, false).unwrap().submitted);
}

#[test]
fn rows_without_text_cells_name_no_assignment() {
    assert!(assignment_from_row(vec![], None, false).is_none());
}

#[test]
fn rows_without_a_due_text_have_no_due_time() {
    let texts = vec!["HW".to_string(), "Submitted".to_string()];
    let a = assignment_from_row(texts, None, false).unwrap();
    assert_eq!(a.due_at, None);
}

#[test]
fn course_pages_are_addressed_by_id() {
    assert_eq!(course_page_path(456), "/courses/456");
}
