use canvas_todo::canvas::{
    assignments_path, courses_path, filter_excluded_courses, sort_courses_by_name, Calendar,
    CanvasCourse,
};
use canvas_todo::color::{colorize, CourseColors};
use canvas_todo::config::{Config, Exclusion};
use canvas_todo::digits::{i64_to_string, parse_u64, parse_usize, str_eq, u64_to_string};
use canvas_todo::canvas::{CanvasAssignment, Submission};
use canvas_todo::report::{process_submission, submission_type_label};
use canvas_todo::seq_util::trim_spaces;

fn course(id: i64, name: &str) -> CanvasCourse {
    CanvasCourse {
        id,
        name: name.to_string(),
        calendar: Calendar { ics: String::new() },
    }
}

fn config_excluding(rules: Vec<Exclusion>) -> Config {
    Config {
        canvas_url: String::new(),
        token: String::new(),
        gradescope_cookie: None,
        hide_overdue_after_days: None,
        hide_overdue_without_submission: false,
        exclude: rules,
        inclusions: Vec::new(),
        hide_locked: false,
    }
}

#[test]
fn request_paths_match_the_remote_api() {
    assert_eq!(
        courses_path(),
        "/api/v1/courses?enrollment_state=active&per_page=10000"
    );
    assert_eq!(
        assignments_path(42),
        "/api/v1/courses/42/assignments?per_page=10000&include=submission"
    );
}

#[test]
fn course_exclusion_removes_exactly_the_named_ids() {
    let config = config_excluding(vec![
        Exclusion::ByClassId { class_id: 2 },
        Exclusion::ByAssignmentId { assignment_id: 3 },
    ]);
    let courses = vec![course(1, "a"), course(2, "b"), course(3, "c")];
    let kept = filter_excluded_courses(&config, courses);
    let ids: Vec<i64> = kept.iter().map(|c| c.id).collect();
    // an assignment-id rule does not remove a course of the same number
    assert_eq!(ids, vec![1, 3]);
}

#[test]
fn courses_sort_by_name() {
    let courses = vec![course(1, "Zoology"), course(2, "Algebra"), course(3, "Music")];
    let sorted = sort_courses_by_name(courses);
    let names: Vec<String> = sorted.iter().map(|c| c.name.clone()).collect();
    assert_eq!(names, vec!["Algebra", "Music", "Zoology"]);
}

#[test]
fn course_colors_are_remembered_for_the_whole_run() {
    let mut colors = CourseColors::new();
    let first = colors.course_color(7, "Algebra");
    let second = colors.course_color(9, "Music");
    let again = colors.course_color(7, "Algebra");
    assert_eq!(first, again);
    assert!(first.contains("Algebra"));
    assert!(second.contains("Music"));
}

#[test]
fn the_palette_embeds_the_text_it_styles() {
    for i in 0..7 {
        assert!(colorize(i, "Course Name").contains("Course Name"));
    }
}

#[test]
fn submission_types_map_to_their_labels() {
    assert_eq!(
        submission_type_label("none"),
        ("No submission".to_string(), false)
    );
    assert_eq!(
        submission_type_label("on_paper"),
        ("On paper".to_string(), false)
    );
    assert_eq!(
        submission_type_label("online_upload"),
        ("File upload".to_string(), true)
    );
    assert_eq!(
        submission_type_label("online_quiz"),
        ("Quiz".to_string(), true)
    );
    assert_eq!(
        submission_type_label("something_new"),
        ("Unknown".to_string(), true)
    );
}

#[test]
fn offline_submission_notes_read_exactly() {
    let assignment = CanvasAssignment {
        id: 1,
        name: "hw".to_string(),
        due_at: None,
        points_possible: Some("7.5".to_string()),
        submission_types: vec!["none".to_string(), "on_paper".to_string()],
        submission: Some(Submission {
            submitted_at: None,
            discussion_entry_count: 0,
        }),
        locked_for_user: false,
        peer_reviews: false,
        html_url: String::new(),
        external_tool_tag_attributes: None,
    };
    let (note, online) = process_submission(&assignment, "7.5");
    assert!(!online);
    assert_eq!(note, "No submission, On paper - 7.5 points");
}

#[test]
fn decimal_texts_parse_exactly_and_render_back() {
    assert_eq!(parse_u64("123"), Some(123));
    assert_eq!(parse_u64(""), None);
    assert_eq!(parse_u64("12a"), None);
    assert_eq!(parse_u64("18446744073709551615"), Some(u64::MAX));
    assert_eq!(parse_u64("18446744073709551616"), None);
    assert_eq!(parse_usize("042"), Some(42));
    assert_eq!(u64_to_string(0), "0");
    assert_eq!(u64_to_string(907), "907");
    assert_eq!(i64_to_string(-45), "-45");
    assert_eq!(i64_to_string(i64::MIN), "-9223372036854775808");
    assert!(str_eq("abc", "abc"));
    assert!(!str_eq("abc", "abd"));
}

#[test]
fn trimming_strips_both_ends() {
    assert_eq!(trim_spaces("  Homework 3 \n"), "Homework 3");
    assert_eq!(trim_spaces("x"), "x");
    assert_eq!(trim_spaces("  \t "), "");
}
