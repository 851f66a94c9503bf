//! The report: which candidates are printed, in what order, what the
//! locked tally and the two next-due markers say, and the lines the
//! terminal gets. The selection and the markers carry exact contracts;
//! of the styled lines, whose bytes depend on the terminal environment,
//! the report states their number and layout.

use vstd::prelude::*;
use vstd::relations::sorted_by;
use vstd::string::*;
use crate::assignment::{
    Assignment, drop_undated, retain_not_excluded, sort_by_due_desc, spec_dated, spec_due_desc,
    spec_kept_after_exclusion,
};
use crate::canvas::CanvasAssignment;
use crate::color::{
    CourseColors, bold_of, bright_black_of, purple_of, red_of, underline_of, white_of,
};
use crate::config::Config;
use crate::digits::{i64_to_string, spec_udec, str_eq, usize_to_string};
use crate::filter::{should_show, spec_should_show};
use crate::seq_util::{lemma_filter_push, trim_spaces};
use crate::time::{
    LocalParts, format_datetime, format_duration, format_duration_full, local_parts,
    spec_format_duration,
};

verus! {

/// Whether a candidate has everything the report prints: an API record
/// needs its points and its submission record; a dashboard record always
/// prints.
pub open spec fn spec_printable(a: Assignment) -> bool {
    match a {
        Assignment::Canvas(_, x) => x.points_possible is Some && x.submission is Some,
        Assignment::Gradescope(_, _) => true,
    }
}

/// Whether a candidate is locked away from the user.
pub open spec fn spec_locked_flag(a: Assignment) -> bool {
    match a {
        Assignment::Canvas(_, x) => x.locked_for_user,
        Assignment::Gradescope(_, _) => false,
    }
}

/// Whether a candidate would be printed, before the locked rule: dated,
/// passing the visibility rules (or `show_all`), and printable.
pub open spec fn spec_visible(c: Config, show_all: bool, now: i64, a: Assignment) -> bool {
    spec_dated(a) && (show_all || spec_should_show(c, a, now)) && spec_printable(a)
}

/// Whether a candidate is withheld and tallied instead: visible, but
/// locked while the configuration hides locked assignments.
pub open spec fn spec_locked_counted(c: Config, show_all: bool, now: i64, a: Assignment) -> bool {
    spec_visible(c, show_all, now, a) && c.hide_locked && spec_locked_flag(a)
}

/// Whether a candidate is printed.
pub open spec fn spec_shown(c: Config, show_all: bool, now: i64, a: Assignment) -> bool {
    spec_visible(c, show_all, now, a) && !(c.hide_locked && spec_locked_flag(a))
}

/// Whether a candidate still awaits action: no finalized API submission,
/// no dashboard submission.
pub open spec fn spec_pending(a: Assignment) -> bool {
    match a {
        Assignment::Canvas(_, x) => match x.submission {
            Some(s) => s.submitted_at is None,
            None => true,
        },
        Assignment::Gradescope(_, g) => !g.submitted,
    }
}

/// Whether a candidate's type of submission is an online one.
pub open spec fn spec_is_online_type(t: Seq<char>) -> bool {
    t != "none"@ && t != "on_paper"@
}

/// Whether any of an API record's submission types is online.
pub open spec fn spec_any_online(types: Seq<String>) -> bool {
    exists|i: int| 0 <= i < types.len() && spec_is_online_type(#[trigger] types[i]@)
}

/// Whether completing a candidate takes online action.
pub open spec fn spec_online(a: Assignment) -> bool {
    match a {
        Assignment::Canvas(_, x) => spec_any_online(x.submission_types@),
        Assignment::Gradescope(_, _) => true,
    }
}

/// Whether a candidate moves the next-due marker: printed, due ahead of
/// now, and still awaiting action.
pub open spec fn spec_contributes(c: Config, show_all: bool, now: i64, a: Assignment) -> bool {
    spec_shown(c, show_all, now, a) && (match a.spec_due_at() {
        Some(d) => d > now,
        None => false,
    }) && spec_pending(a)
}

/// Whether a candidate moves the next-online-submission marker.
pub open spec fn spec_contributes_online(
    c: Config,
    show_all: bool,
    now: i64,
    a: Assignment,
) -> bool {
    spec_contributes(c, show_all, now, a) && spec_online(a)
}

/// The tally of visible but locked candidates.
pub open spec fn spec_count_locked(c: Config, show_all: bool, now: i64, s: Seq<Assignment>) -> int
    decreases s.len(),
{
    if s.len() == 0 {
        0
    } else {
        spec_count_locked(c, show_all, now, s.drop_last()) + (if spec_locked_counted(
            c,
            show_all,
            now,
            s.last(),
        ) {
            1int
        } else {
            0int
        })
    }
}

/// The earliest due timestamp among the candidates that move the next-due
/// marker, if any does.
pub open spec fn spec_min_due(c: Config, show_all: bool, now: i64, s: Seq<Assignment>) -> Option<
    i64,
>
    decreases s.len(),
{
    if s.len() == 0 {
        None
    } else {
        let prev = spec_min_due(c, show_all, now, s.drop_last());
        if spec_contributes(c, show_all, now, s.last()) {
            let d = s.last().spec_due_at().unwrap();
            match prev {
                None => Some(d),
                Some(m) => Some(
                    if d < m {
                        d
                    } else {
                        m
                    },
                ),
            }
        } else {
            prev
        }
    }
}

/// The earliest due timestamp among the candidates that move the
/// next-online-submission marker, if any does.
pub open spec fn spec_min_online_due(
    c: Config,
    show_all: bool,
    now: i64,
    s: Seq<Assignment>,
) -> Option<i64>
    decreases s.len(),
{
    if s.len() == 0 {
        None
    } else {
        let prev = spec_min_online_due(c, show_all, now, s.drop_last());
        if spec_contributes_online(c, show_all, now, s.last()) {
            let d = s.last().spec_due_at().unwrap();
            match prev {
                None => Some(d),
                Some(m) => Some(
                    if d < m {
                        d
                    } else {
                        m
                    },
                ),
            }
        } else {
            prev
        }
    }
}

/// Law: the next-due marker is exactly the earliest due time of the
/// contributing candidates — absent when none contributes, and otherwise a
/// contributor's due time no later than every contributor's.
pub proof fn lemma_min_due_is_earliest(c: Config, show_all: bool, now: i64, s: Seq<Assignment>)
    ensures
        match spec_min_due(c, show_all, now, s) {
            None => forall|i: int|
                0 <= i < s.len() ==> !spec_contributes(c, show_all, now, #[trigger] s[i]),
            Some(t) => {
                &&& t > now
                &&& exists|i: int|
                    0 <= i < s.len() && spec_contributes(c, show_all, now, #[trigger] s[i]) && s[i].spec_due_at()
                        == Some(t)
                &&& forall|i: int|
                    0 <= i < s.len() && spec_contributes(c, show_all, now, #[trigger] s[i])
                        ==> t <= s[i].spec_due_at().unwrap()
            },
        },
    decreases s.len(),
{
    if s.len() > 0 {
        lemma_min_due_is_earliest(c, show_all, now, s.drop_last());
        let d = s.drop_last();
        match spec_min_due(c, show_all, now, s) {
            None => {
                assert forall|i: int|
                    0 <= i < s.len() implies !spec_contributes(c, show_all, now, #[trigger] s[i]) by {
                    if i < s.len() - 1 {
                        assert(s[i] == d[i]);
                    } else {
                        assert(s[i] == s.last());
                    }
                }
            },
            Some(t) => {
                assert(exists|i: int|
                    0 <= i < s.len() && spec_contributes(c, show_all, now, #[trigger] s[i])
                        && s[i].spec_due_at() == Some(t)) by {
                    if spec_contributes(c, show_all, now, s.last()) && s.last().spec_due_at()
                        == Some(t) {
                        assert(s[s.len() - 1] == s.last());
                        assert(spec_contributes(c, show_all, now, s[s.len() - 1]));
                    } else {
                        let w = choose|i: int|
                            0 <= i < d.len() && spec_contributes(c, show_all, now, #[trigger] d[i])
                                && d[i].spec_due_at() == Some(t);
                        assert(s[w] == d[w]);
                        assert(spec_contributes(c, show_all, now, s[w]));
                    }
                }
                assert forall|i: int|
                    0 <= i < s.len() && spec_contributes(c, show_all, now, #[trigger] s[i]) implies t
                    <= s[i].spec_due_at().unwrap() by {
                    if i < s.len() - 1 {
                        assert(s[i] == d[i]);
                        assert(spec_contributes(c, show_all, now, d[i]));
                    } else {
                        assert(s[i] == s.last());
                    }
                }
            },
        }
    }
}

/// Law: the next-online-submission marker is exactly the earliest due time
/// of the candidates contributing online — absent when none does, and
/// otherwise such a candidate's due time no later than every one of
/// theirs.
pub proof fn lemma_min_online_due_is_earliest(
    c: Config,
    show_all: bool,
    now: i64,
    s: Seq<Assignment>,
)
    ensures
        match spec_min_online_due(c, show_all, now, s) {
            None => forall|i: int|
                0 <= i < s.len() ==> !spec_contributes_online(c, show_all, now, #[trigger] s[i]),
            Some(t) => {
                &&& t > now
                &&& exists|i: int|
                    0 <= i < s.len() && spec_contributes_online(c, show_all, now, #[trigger] s[i])
                        && s[i].spec_due_at() == Some(t)
                &&& forall|i: int|
                    0 <= i < s.len() && spec_contributes_online(c, show_all, now, #[trigger] s[i])
                        ==> t <= s[i].spec_due_at().unwrap()
            },
        },
    decreases s.len(),
{
    if s.len() > 0 {
        lemma_min_online_due_is_earliest(c, show_all, now, s.drop_last());
        let d = s.drop_last();
        match spec_min_online_due(c, show_all, now, s) {
            None => {
                assert forall|i: int|
                    0 <= i < s.len() implies !spec_contributes_online(
                    c,
                    show_all,
                    now,
                    #[trigger] s[i],
                ) by {
                    if i < s.len() - 1 {
                        assert(s[i] == d[i]);
                    } else {
                        assert(s[i] == s.last());
                    }
                }
            },
            Some(t) => {
                assert(exists|i: int|
                    0 <= i < s.len() && spec_contributes_online(c, show_all, now, #[trigger] s[i])
                        && s[i].spec_due_at() == Some(t)) by {
                    if spec_contributes_online(c, show_all, now, s.last()) && s.last().spec_due_at()
                        == Some(t) {
                        assert(s[s.len() - 1] == s.last());
                        assert(spec_contributes_online(c, show_all, now, s[s.len() - 1]));
                    } else {
                        let w = choose|i: int|
                            0 <= i < d.len() && spec_contributes_online(
                                c,
                                show_all,
                                now,
                                #[trigger] d[i],
                            ) && d[i].spec_due_at() == Some(t);
                        assert(s[w] == d[w]);
                        assert(spec_contributes_online(c, show_all, now, s[w]));
                    }
                }
                assert forall|i: int|
                    0 <= i < s.len() && spec_contributes_online(c, show_all, now, #[trigger] s[i]) implies t
                    <= s[i].spec_due_at().unwrap() by {
                    if i < s.len() - 1 {
                        assert(s[i] == d[i]);
                        assert(spec_contributes_online(c, show_all, now, d[i]));
                    } else {
                        assert(s[i] == s.last());
                    }
                }
            },
        }
    }
}

/// What the selection pass of the report says: the records to print, the
/// locked tally, and the two next-due markers.
pub struct Selection {
    pub shown: Vec<Assignment>,
    pub locked_count: usize,
    pub next_due: Option<i64>,
    pub next_online_due: Option<i64>,
}

fn printable(a: &Assignment) -> (r: bool)
    ensures
        r == spec_printable(*a),
{
    match a {
        Assignment::Canvas(_, x) => x.points_possible.is_some() && x.submission.is_some(),
        Assignment::Gradescope(_, _) => true,
    }
}

fn locked_flag(a: &Assignment) -> (r: bool)
    ensures
        r == spec_locked_flag(*a),
{
    match a {
        Assignment::Canvas(_, x) => x.locked_for_user,
        Assignment::Gradescope(_, _) => false,
    }
}

fn pending(a: &Assignment) -> (r: bool)
    ensures
        r == spec_pending(*a),
{
    match a {
        Assignment::Canvas(_, x) => match &x.submission {
            Some(s) => s.submitted_at.is_none(),
            None => true,
        },
        Assignment::Gradescope(_, g) => !g.submitted,
    }
}

fn is_online_type(t: &str) -> (r: bool)
    ensures
        r == spec_is_online_type(t@),
{
    !(str_eq(t, "none") || str_eq(t, "on_paper"))
}

fn any_online(types: &Vec<String>) -> (r: bool)
    ensures
        r == spec_any_online(types@),
{
    let mut i: usize = 0;
    while i < types.len()
        invariant
            0 <= i <= types@.len(),
            forall|q: int| 0 <= q < i ==> !spec_is_online_type(#[trigger] types@[q]@),
        decreases types@.len() - i,
    {
        if is_online_type(types[i].as_str()) {
            return true;
        }
        i = i + 1;
    }
    false
}

fn online(a: &Assignment) -> (r: bool)
    ensures
        r == spec_online(*a),
{
    match a {
        Assignment::Canvas(_, x) => any_online(&x.submission_types),
        Assignment::Gradescope(_, _) => true,
    }
}

/// Walks the candidates once, deciding for each whether it is printed or
/// tallied as locked, and tracking the earliest pending future due time,
/// overall and restricted to online submissions.
pub fn build_selection(config: &Config, show_all: bool, now: i64, candidates: Vec<Assignment>)
    -> (r: Selection)
    ensures
        r.shown@ == candidates@.filter(
            |a: Assignment| spec_shown(*config, show_all, now, a),
        ),
        r.locked_count == spec_count_locked(*config, show_all, now, candidates@),
        r.next_due == spec_min_due(*config, show_all, now, candidates@),
        r.next_online_due == spec_min_online_due(*config, show_all, now, candidates@),
{
    let ghost p = |a: Assignment| spec_shown(*config, show_all, now, a);
    let ghost orig = candidates@;
    let total = candidates.len();
    let mut rest = candidates;
    let mut shown: Vec<Assignment> = Vec::new();
    let mut locked_count: usize = 0;
    let mut next_due: Option<i64> = None;
    let mut next_online_due: Option<i64> = None;
    let ghost mut k: int = 0;
    proof {
        reveal(Seq::filter);
        assert(orig.take(0) =~= Seq::<Assignment>::empty());
        assert(orig.skip(0) =~= orig);
    }
    while rest.len() > 0
        invariant
            0 <= k <= orig.len(),
            orig.len() == total,
            rest@ == orig.skip(k),
            shown@ == orig.take(k).filter(p),
            locked_count <= k,
            locked_count == spec_count_locked(*config, show_all, now, orig.take(k)),
            next_due == spec_min_due(*config, show_all, now, orig.take(k)),
            next_online_due == spec_min_online_due(*config, show_all, now, orig.take(k)),
            p == (|a: Assignment| spec_shown(*config, show_all, now, a)),
        decreases rest@.len(),
    {
        proof {
            assert(orig.skip(k)[0] == orig[k]);
            assert(orig.skip(k).remove(0) =~= orig.skip(k + 1));
            assert(orig.take(k + 1) =~= orig.take(k).push(orig[k]));
            assert(orig.take(k + 1).drop_last() =~= orig.take(k));
            assert(orig.take(k + 1).last() == orig[k]);
            lemma_filter_push(orig.take(k), orig[k], p);
        }
        let a = rest.remove(0);
        let is_dated = a.due_at().is_some();
        let is_visible = is_dated && (show_all || should_show(config, &a, now)) && printable(&a);
        let is_locked_counted = is_visible && config.hide_locked && locked_flag(&a);
        let is_shown = is_visible && !is_locked_counted;
        if is_shown && a.due_at().is_some() && pending(&a) {
            let d = match a.due_at() {
                Some(d) => d,
                None => 0,
            };
            if d > now {
                next_due = match next_due {
                    None => Some(d),
                    Some(m) => Some(
                        if d < m {
                            d
                        } else {
                            m
                        },
                    ),
                };
                if online(&a) {
                    next_online_due = match next_online_due {
                        None => Some(d),
                        Some(m) => Some(
                            if d < m {
                                d
                            } else {
                                m
                            },
                        ),
                    };
                }
            }
        }
        if is_locked_counted {
            locked_count = locked_count + 1;
        }
        if is_shown {
            shown.push(a);
        }
        proof {
            k = k + 1;
        }
    }
    proof {
        assert(orig.take(k) =~= orig);
    }
    Selection {
        shown: shown,
        locked_count: locked_count,
        next_due: next_due,
        next_online_due: next_online_due,
    }
}

/// The display label of one submission type.
pub open spec fn spec_type_label(t: Seq<char>) -> Seq<char> {
    if t == "none"@ {
        "No submission"@
    } else if t == "on_paper"@ {
        "On paper"@
    } else if t == "online_text_entry"@ {
        "Text entry"@
    } else if t == "online_upload"@ {
        "File upload"@
    } else if t == "online_quiz"@ {
        "Quiz"@
    } else if t == "discussion_topic"@ {
        "Discussion"@
    } else if t == "media_recording"@ {
        "Media recording"@
    } else if t == "external_tool"@ {
        "External tool"@
    } else {
        "Unknown"@
    }
}

/// The display label of one submission type, and whether the type is an
/// online one.
pub fn submission_type_label(t: &str) -> (r: (String, bool))
    ensures
        r.0@ == spec_type_label(t@),
        r.1 == spec_is_online_type(t@),
{
    if str_eq(t, "none") {
        (String::from_str("No submission"), false)
    } else if str_eq(t, "on_paper") {
        (String::from_str("On paper"), false)
    } else if str_eq(t, "online_text_entry") {
        (String::from_str("Text entry"), true)
    } else if str_eq(t, "online_upload") {
        (String::from_str("File upload"), true)
    } else if str_eq(t, "online_quiz") {
        (String::from_str("Quiz"), true)
    } else if str_eq(t, "discussion_topic") {
        (String::from_str("Discussion"), true)
    } else if str_eq(t, "media_recording") {
        (String::from_str("Media recording"), true)
    } else if str_eq(t, "external_tool") {
        (String::from_str("External tool"), true)
    } else {
        (String::from_str("Unknown"), true)
    }
}

/// The type labels joined with commas, unstyled.
pub open spec fn spec_joined_labels(types: Seq<String>) -> Seq<char>
    decreases types.len(),
{
    if types.len() == 0 {
        Seq::empty()
    } else if types.len() == 1 {
        spec_type_label(types[0]@)
    } else {
        spec_joined_labels(types.drop_last()) + ", "@ + spec_type_label(types.last()@)
    }
}

/// The whole note of an API record when nothing is styled: the labels
/// joined, then the points.
pub open spec fn spec_plain_note(types: Seq<String>, points: Seq<char>) -> Seq<char> {
    spec_joined_labels(types) + " - "@ + points + " points"@
}

/// Writes the submission-types note of an API record — the type labels,
/// online ones accented, joined with commas, then the points — and says
/// whether any type is online. An online label's styling depends on the
/// terminal environment, so the note's text is pinned down exactly when no
/// type is online.
pub fn process_submission(assignment: &CanvasAssignment, points: &str) -> (r: (String, bool))
    ensures
        r.1 == spec_any_online(assignment.submission_types@),
        !spec_any_online(assignment.submission_types@) ==> r.0@ == spec_plain_note(
            assignment.submission_types@,
            points@,
        ),
{
    let types = &assignment.submission_types;
    let mut text = String::new();
    let mut has_online = false;
    let mut i: usize = 0;
    proof {
        assert(types@.take(0) =~= Seq::<String>::empty());
    }
    while i < types.len()
        invariant
            0 <= i <= types@.len(),
            has_online == exists|q: int|
                0 <= q < i && spec_is_online_type(#[trigger] types@[q]@),
            !has_online ==> text@ == spec_joined_labels(types@.take(i as int)),
        decreases types@.len() - i,
    {
        proof {
            assert(types@.take(i as int + 1).drop_last() =~= types@.take(i as int));
            assert(types@.take(i as int + 1).last() == types@[i as int]);
        }
        let (label, is_online) = submission_type_label(types[i].as_str());
        if i > 0 {
            text.append(", ");
        }
        if is_online {
            let accented = purple_of(label.as_str());
            text.append(accented.as_str());
        } else {
            text.append(label.as_str());
        }
        proof {
            if is_online {
                assert(spec_is_online_type(types@[i as int]@));
            }
        }
        has_online = has_online || is_online;
        i = i + 1;
    }
    proof {
        assert(types@.take(types@.len() as int) =~= types@);
    }
    text.append(" - ");
    text.append(points);
    text.append(" points");
    proof {
        if !has_online {
            assert(text@ =~= spec_plain_note(types@, points@));
        }
    }
    (text, has_online)
}

/// The trailing locked tally: how many visible assignments were withheld
/// because they are locked.
pub open spec fn spec_locked_summary(n: nat) -> Seq<char> {
    "(+"@ + spec_udec(n) + " locked assignment"@ + (if n == 1 {
        Seq::<char>::empty()
    } else {
        "s"@
    }) + ")"@
}

/// Writes the locked tally.
pub fn locked_summary_line(n: usize) -> (r: String)
    ensures
        r@ == spec_locked_summary(n as nat),
{
    let mut s = String::from_str("(+");
    let count = usize_to_string(n);
    s.append(count.as_str());
    s.append(" locked assignment");
    if n != 1 {
        s.append("s");
    }
    s.append(")");
    proof {
        assert(s@ =~= spec_locked_summary(n as nat));
    }
    s
}

/// Writes the overall next-due trailer.
pub fn next_due_line(now: &LocalParts, due: &LocalParts) -> (r: String)
    requires
        now.wf(),
        due.wf(),
        due.ts >= now.ts,
    ensures
        r@ == "Next assignment is due in "@ + spec_format_duration(*now, *due),
{
    let mut s = String::from_str("Next assignment is due in ");
    let d = format_duration(now, due);
    s.append(d.as_str());
    s
}

/// Writes the next-online-submission trailer.
pub fn next_submission_due_line(now: &LocalParts, due: &LocalParts) -> (r: String)
    requires
        now.wf(),
        due.wf(),
        due.ts >= now.ts,
    ensures
        r@ == "Next online submission is due in "@ + spec_format_duration(*now, *due),
{
    let mut s = String::from_str("Next online submission is due in ");
    let d = format_duration(now, due);
    s.append(d.as_str());
    s
}

/// How many lines one printed record takes: header, name, link and a
/// blank, except that a dashboard record without a link has no link line.
pub open spec fn spec_entry_line_count(a: Assignment) -> int {
    match a {
        Assignment::Canvas(_, _) => 4,
        Assignment::Gradescope(_, g) => if g.link is Some {
            4
        } else {
            3
        },
    }
}

/// How many lines a printed sequence of records takes.
pub open spec fn spec_total_entry_lines(s: Seq<Assignment>) -> int
    decreases s.len(),
{
    if s.len() == 0 {
        0
    } else {
        spec_total_entry_lines(s.drop_last()) + spec_entry_line_count(s.last())
    }
}

/// Writes the lines of one printed record: the underlined header with the
/// due words, the span to now, the colored course and the completion mark;
/// the name with its note; the link, when there is one; and a blank line.
fn render_entry(now_parts: &LocalParts, a: &Assignment, colors: &mut CourseColors) -> (lines: Vec<
    String,
>)
    requires
        now_parts.wf(),
        old(colors).wf(),
        spec_dated(*a),
    ensures
        final(colors).wf(),
        lines@.len() == spec_entry_line_count(*a),
        lines@.last()@.len() == 0,
{
    let due = match a.due_at() {
        Some(d) => d,
        None => 0,
    };
    let parts_opt = local_parts(due);
    let dt_plain = match &parts_opt {
        Some(p) => format_datetime(now_parts, p),
        None => {
            let mut s = String::from_str("at time ");
            let t = i64_to_string(due);
            s.append(t.as_str());
            s
        },
    };
    let dt_styled = if due < now_parts.ts {
        let r = red_of(dt_plain.as_str());
        bold_of(r.as_str())
    } else {
        bold_of(dt_plain.as_str())
    };
    let dur_text = match &parts_opt {
        Some(p) => format_duration_full(now_parts, p),
        None => String::from_str("beyond the calendar"),
    };
    let mut lines: Vec<String> = Vec::new();
    match a {
        Assignment::Canvas(course, x) => {
            let course_text = colors.course_color(course.id, course.name.as_str());
            let completed = x.submission.is_some() && match &x.submission {
                Some(s) => s.submitted_at.is_some(),
                None => false,
            };
            let mut header = String::from_str("Due ");
            header.append(dt_styled.as_str());
            header.append(" (");
            header.append(dur_text.as_str());
            header.append(") - ");
            header.append(course_text.as_str());
            if completed {
                let mark = white_of(" (completed)");
                header.append(mark.as_str());
            }
            lines.push(underline_of(header.as_str()));
            let points_text = match &x.points_possible {
                Some(p) => p.clone(),
                None => String::new(),
            };
            let (note, _) = process_submission(x, points_text.as_str());
            let mut name_line = String::from_str("  ");
            let trimmed = trim_spaces(x.name.as_str());
            name_line.append(trimmed.as_str());
            name_line.append(" ");
            let mut noted = String::from_str("(");
            noted.append(note.as_str());
            noted.append(")");
            let dim = bright_black_of(noted.as_str());
            name_line.append(dim.as_str());
            lines.push(name_line);
            let mut url_line = String::from_str("  ");
            url_line.append(x.html_url.as_str());
            lines.push(url_line);
            lines.push(String::new());
        },
        Assignment::Gradescope(course, g) => {
            let course_text = colors.course_color(course.id, course.name.as_str());
            let mut header = String::from_str("Due ");
            header.append(dt_styled.as_str());
            header.append(" (");
            header.append(dur_text.as_str());
            header.append(") - ");
            header.append(course_text.as_str());
            if g.submitted {
                let mark = white_of(" (completed)");
                header.append(mark.as_str());
            }
            lines.push(underline_of(header.as_str()));
            let mut name_line = String::from_str("  ");
            let trimmed = trim_spaces(g.name.as_str());
            name_line.append(trimmed.as_str());
            name_line.append(" ");
            let tag = purple_of("Gradescope");
            let mut noted = String::from_str("(");
            noted.append(tag.as_str());
            noted.append(")");
            let dim = bright_black_of(noted.as_str());
            name_line.append(dim.as_str());
            lines.push(name_line);
            match &g.link {
                Some(link) => {
                    let mut url_line = String::from_str("  https://www.gradescope.com");
                    url_line.append(link.as_str());
                    lines.push(url_line);
                },
                None => {},
            }
            lines.push(String::new());
        },
    }
    lines
}

/// The candidate set of a run: every fetched record that no exclusion rule
/// removes and that has a due timestamp.
pub open spec fn spec_report_candidates(c: Config, s: Seq<Assignment>) -> Seq<Assignment> {
    s.filter(|a: Assignment| spec_kept_after_exclusion(c.exclude@, a)).filter(
        |a: Assignment| spec_dated(a),
    )
}

/// A finished report: the lines to print, and what they were computed
/// from — the printed records in order, the locked tally, and the two
/// next-due markers.
pub struct Report {
    pub lines: Vec<String>,
    pub shown: Vec<Assignment>,
    pub locked_count: usize,
    pub next_due: Option<i64>,
    pub next_online_due: Option<i64>,
}

/// Builds the whole report from the merged records: removes the excluded
/// and the undated, selects and tallies, orders the printed records by due
/// time latest first, and writes the lines.
pub fn todo_report(config: &Config, show_all: bool, now_parts: &LocalParts, all: Vec<Assignment>)
    -> (r: Report)
    requires
        now_parts.wf(),
    ensures
        r.shown@.to_multiset() == spec_report_candidates(*config, all@).filter(
            |a: Assignment| spec_shown(*config, show_all, now_parts.ts, a),
        ).to_multiset(),
        sorted_by(r.shown@, |a: Assignment, b: Assignment| spec_due_desc(a, b)),
        forall|i: int|
            0 <= i < r.shown@.len() ==> spec_shown(*config, show_all, now_parts.ts, #[trigger] r.shown@[i])
                && spec_dated(r.shown@[i]),
        r.locked_count == spec_count_locked(
            *config,
            show_all,
            now_parts.ts,
            spec_report_candidates(*config, all@),
        ),
        r.next_due == spec_min_due(
            *config,
            show_all,
            now_parts.ts,
            spec_report_candidates(*config, all@),
        ),
        r.next_online_due == spec_min_online_due(
            *config,
            show_all,
            now_parts.ts,
            spec_report_candidates(*config, all@),
        ),
        r.lines@.len() == spec_total_entry_lines(r.shown@) + (if r.locked_count > 0 {
            2int
        } else {
            0int
        }) + (if r.next_due is Some {
            1int
        } else {
            0int
        }) + (if r.next_online_due is Some {
            1int
        } else {
            0int
        }),
{
    let now = now_parts.ts;
    let kept = retain_not_excluded(&config.exclude, all);
    let dated = drop_undated(kept);
    proof {
        assert(dated@ == spec_report_candidates(*config, all@));
    }
    let sel = build_selection(config, show_all, now, dated);
    let ghost shown_pred = |a: Assignment| spec_shown(*config, show_all, now_parts.ts, a);
    let ghost filtered = spec_report_candidates(*config, all@).filter(shown_pred);
    let shown_sorted = sort_by_due_desc(sel.shown);
    proof {
        assert forall|i: int|
            0 <= i < shown_sorted@.len() implies spec_shown(
            *config,
            show_all,
            now_parts.ts,
            #[trigger] shown_sorted@[i],
        ) && spec_dated(shown_sorted@[i]) by {
            let x = shown_sorted@[i];
            shown_sorted@.to_multiset_ensures();
            assert(shown_sorted@.contains(x));
            assert(shown_sorted@.to_multiset().count(x) > 0);
            filtered.to_multiset_ensures();
            assert(filtered.to_multiset().count(x) > 0);
            assert(filtered.contains(x));
            let j = choose|j: int| 0 <= j < filtered.len() && filtered[j] == x;
            Seq::lemma_filter_pred(spec_report_candidates(*config, all@), shown_pred, j);
        }
    }
    let mut lines: Vec<String> = Vec::new();
    let mut colors = CourseColors::new();
    let mut i: usize = 0;
    proof {
        assert(shown_sorted@.take(0) =~= Seq::<Assignment>::empty());
    }
    while i < shown_sorted.len()
        invariant
            0 <= i <= shown_sorted@.len(),
            now_parts.wf(),
            colors.wf(),
            forall|q: int|
                0 <= q < shown_sorted@.len() ==> spec_dated(#[trigger] shown_sorted@[q]),
            lines@.len() == spec_total_entry_lines(shown_sorted@.take(i as int)),
        decreases shown_sorted@.len() - i,
    {
        proof {
            assert(shown_sorted@.take(i as int + 1).drop_last() =~= shown_sorted@.take(i as int));
            assert(shown_sorted@.take(i as int + 1).last() == shown_sorted@[i as int]);
        }
        let mut entry = render_entry(now_parts, &shown_sorted[i], &mut colors);
        lines.append(&mut entry);
        i = i + 1;
    }
    proof {
        assert(shown_sorted@.take(shown_sorted@.len() as int) =~= shown_sorted@);
    }
    if sel.locked_count > 0 {
        let summary = locked_summary_line(sel.locked_count);
        lines.push(bright_black_of(summary.as_str()));
        lines.push(String::new());
    }
    proof {
        lemma_min_due_is_earliest(*config, show_all, now, spec_report_candidates(*config, all@));
        lemma_min_online_due_is_earliest(
            *config,
            show_all,
            now,
            spec_report_candidates(*config, all@),
        );
    }
    match sel.next_due {
        Some(t) => {
            let line = match local_parts(t) {
                Some(p) => next_due_line(now_parts, &p),
                None => String::from_str("Next assignment is due"),
            };
            lines.push(line);
        },
        None => {},
    }
    match sel.next_online_due {
        Some(t) => {
            let line = match local_parts(t) {
                Some(p) => next_submission_due_line(now_parts, &p),
                None => String::from_str("Next online submission is due"),
            };
            lines.push(line);
        },
        None => {},
    }
    Report {
        lines: lines,
        shown: shown_sorted,
        locked_count: sel.locked_count,
        next_due: sel.next_due,
        next_online_due: sel.next_online_due,
    }
}

} // verus!
