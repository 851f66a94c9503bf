//! The model of what the scraped dashboard reports, and the logic reading
//! course and assignment records out of the text a page's boxes and table
//! rows carry. Fetching and HTML selection happen outside the library; they
//! hand in the extracted texts.

use vstd::prelude::*;
use vstd::string::*;
use crate::digits::{parse_id, parse_usize, spec_parse_id, spec_parse_usize, str_eq};
use crate::seq_util::{is_space, spec_is_space};

verus! {

/// One course box of the dashboard.
#[derive(Debug, Clone, PartialEq, Eq)]
pub struct GradescopeCourse {
    pub shortname: String,
    pub name: String,
    pub assignment_count: usize,
    pub id: i64,
}

/// One assignment row of a course page.
#[derive(Debug, Clone, PartialEq, Eq)]
pub struct GradescopeAssignment {
    pub name: String,
    pub submitted: bool,
    pub due_at: Option<i64>,
    pub link: Option<String>,
}

/// What the dashboard's due texts parse to: the timestamp named by a text
/// in the page's `%Y-%m-%d %H:%M:%S %z` format, or nothing. The result
/// depends on the text alone.
pub uninterp spec fn scrape_due_of(s: Seq<char>) -> Option<i64>;

/// Relies on chrono's `DateTime::parse_from_str` with the dashboard's
/// date format, and on `DateTime::timestamp`: both compute from the text
/// alone, so the parsed timestamp is a function of it.
#[verifier::external_body]
pub fn parse_scrape_due(s: &str) -> (r: Option<i64>)
    ensures
        r == scrape_due_of(s@),
{
    match chrono::DateTime::parse_from_str(s, "%Y-%m-%d %H:%M:%S %z") {
        Ok(d) => Some(d.timestamp()),
        Err(_) => None,
    }
}

/// The prefix course links start with.
pub open spec fn spec_courses_prefix() -> Seq<char> {
    "/courses/"@
}

/// What a course box's link parses to: the id named by the digits after
/// the `/courses/` prefix, if the link has that shape.
pub open spec fn spec_course_id_of_href(href: Seq<char>) -> Option<i64> {
    if href.len() >= spec_courses_prefix().len() && href.take(spec_courses_prefix().len() as int)
        == spec_courses_prefix() {
        spec_parse_id(href.skip(spec_courses_prefix().len() as int))
    } else {
        None
    }
}

/// Reads the course id out of a course box's link.
pub fn course_id_of_href(href: &str) -> (r: Option<i64>)
    ensures
        r == spec_course_id_of_href(href@),
{
    proof {
        reveal_strlit("/courses/");
    }
    let hlen = href.unicode_len();
    if hlen < 9 {
        return None;
    }
    let prefix = "/courses/";
    let mut i: usize = 0;
    while i < 9
        invariant
            0 <= i <= 9,
            href@.len() >= 9,
            prefix@ == spec_courses_prefix(),
            prefix@.len() == 9,
            forall|j: int| 0 <= j < i ==> href@[j] == spec_courses_prefix()[j],
        decreases 9 - i,
    {
        if href.get_char(i) != prefix.get_char(i) {
            proof {
                assert(href@.take(9)[i as int] != spec_courses_prefix()[i as int]);
            }
            return None;
        }
        i = i + 1;
    }
    proof {
        assert(href@.take(9) =~= spec_courses_prefix());
    }
    let tail = href.substring_char(9, hlen);
    proof {
        assert(tail@ =~= href@.skip(9));
    }
    parse_id(tail)
}

/// The first whitespace-separated token of a text: what remains after
/// leading whitespace, up to the next whitespace.
pub open spec fn spec_first_token(s: Seq<char>) -> Seq<char>
    decreases s.len(),
{
    if s.len() == 0 {
        s
    } else if spec_is_space(s[0]) {
        spec_first_token(s.drop_first())
    } else {
        spec_take_until_space(s)
    }
}

/// The prefix of a text up to its first whitespace character.
pub open spec fn spec_take_until_space(s: Seq<char>) -> Seq<char>
    decreases s.len(),
{
    if s.len() == 0 {
        s
    } else if spec_is_space(s[0]) {
        Seq::empty()
    } else {
        seq![s[0]] + spec_take_until_space(s.drop_first())
    }
}

/// Extracts the first whitespace-separated token of a text.
pub fn first_token(s: &str) -> (r: String)
    ensures
        r@ == spec_first_token(s@),
{
    let len = s.unicode_len();
    let mut start: usize = 0;
    proof {
        assert(s@.skip(0) =~= s@);
    }
    while start < len && is_space(s.get_char(start))
        invariant
            0 <= start <= len,
            len == s@.len(),
            spec_first_token(s@) == spec_first_token(s@.skip(start as int)),
            forall|j: int| 0 <= j < start ==> spec_is_space(s@[j]),
        decreases len - start,
    {
        proof {
            assert(s@.skip(start as int)[0] == s@[start as int]);
            assert(s@.skip(start as int).drop_first() =~= s@.skip(start as int + 1));
        }
        start = start + 1;
    }
    let mut end: usize = start;
    while end < len && !is_space(s.get_char(end))
        invariant
            0 <= start <= end <= len,
            len == s@.len(),
            spec_first_token(s@) == spec_first_token(s@.skip(start as int)),
            start < len ==> !spec_is_space(s@[start as int]),
            forall|j: int| start <= j < end ==> !spec_is_space(s@[j]),
        decreases len - end,
    {
        end = end + 1;
    }
    let token = s.substring_char(start, end);
    proof {
        lemma_take_until_space_shape(s@, start as int, end as int);
        assert(token@ =~= s@.skip(start as int).take(end - start));
    }
    String::from_str(token)
}

/// In a text whose first character is not whitespace, the prefix up to the
/// first whitespace character is exactly `spec_take_until_space`.
proof fn lemma_take_until_space_shape(s: Seq<char>, start: int, end: int)
    requires
        0 <= start <= end <= s.len(),
        forall|j: int| start <= j < end ==> !spec_is_space(s[j]),
        end < s.len() ==> spec_is_space(s[end]),
        start < s.len() ==> !spec_is_space(s[start]),
    ensures
        spec_first_token(s.skip(start)) == s.skip(start).take(end - start),
    decreases end - start,
{
    let t = s.skip(start);
    if start == end {
        if t.len() == 0 {
            assert(t.take(0) =~= t);
        } else {
            assert(!spec_is_space(s[start]) && spec_is_space(s[end]));
            assert(false);
        }
    } else {
        assert(!spec_is_space(t[0]));
        assert(spec_first_token(t) == spec_take_until_space(t));
        lemma_take_until_space_tail(s, start, end);
    }
}

/// Unrolls `spec_take_until_space` over a run of non-whitespace characters.
proof fn lemma_take_until_space_tail(s: Seq<char>, start: int, end: int)
    requires
        0 <= start < end <= s.len(),
        forall|j: int| start <= j < end ==> !spec_is_space(s[j]),
        end < s.len() ==> spec_is_space(s[end]),
    ensures
        spec_take_until_space(s.skip(start)) == s.skip(start).take(end - start),
    decreases end - start,
{
    let t = s.skip(start);
    assert(!spec_is_space(t[0]));
    if start + 1 == end {
        if t.len() == 1 {
            assert(spec_take_until_space(t.drop_first()) =~= Seq::<char>::empty());
        } else {
            assert(t.drop_first()[0] == s[start + 1]);
            assert(spec_is_space(t.drop_first()[0]));
            assert(spec_take_until_space(t.drop_first()) =~= Seq::<char>::empty());
        }
        assert(seq![t[0]] + spec_take_until_space(t.drop_first()) =~= t.take(1));
    } else {
        lemma_take_until_space_tail(s, start + 1, end);
        assert(t.drop_first() =~= s.skip(start + 1));
        assert(seq![t[0]] + s.skip(start + 1).take(end - start - 1) =~= t.take(end - start));
    }
}

/// What a course box with its link and three text cells describes.
pub open spec fn spec_course_from_box(href: Seq<char>, texts: Seq<String>) -> Option<
    GradescopeCourse,
> {
    match spec_course_id_of_href(href) {
        None => None,
        Some(id) => {
            if texts.len() == 3 {
                match spec_parse_usize(spec_first_token(texts[2]@)) {
                    None => None,
                    Some(count) => Some(
                        GradescopeCourse {
                            shortname: texts[0],
                            name: texts[1],
                            assignment_count: count,
                            id: id,
                        },
                    ),
                }
            } else {
                None
            }
        },
    }
}

/// Reads one course record out of a dashboard course box, given the box's
/// link and its text cells in order.
pub fn course_from_box(href: &str, texts: Vec<String>) -> (r: Option<GradescopeCourse>)
    ensures
        r == spec_course_from_box(href@, texts@),
{
    let id = match course_id_of_href(href) {
        None => {
            return None;
        },
        Some(id) => id,
    };
    if texts.len() != 3 {
        return None;
    }
    let token = first_token(texts[2].as_str());
    let count = match parse_usize(token.as_str()) {
        None => {
            return None;
        },
        Some(c) => c,
    };
    let mut texts = texts;
    let shortname = texts.remove(0);
    let name = texts.remove(0);
    Some(
        GradescopeCourse {
            shortname: shortname,
            name: name,
            assignment_count: count,
            id: id,
        },
    )
}

/// The due timestamp named by a row's text cells: the last cell, searching
/// from the end, whose text parses in the dashboard's due format.
pub open spec fn spec_due_from_texts(texts: Seq<String>) -> Option<i64>
    decreases texts.len(),
{
    if texts.len() == 0 {
        None
    } else {
        match scrape_due_of(texts.last()@) {
            Some(t) => Some(t),
            None => spec_due_from_texts(texts.drop_last()),
        }
    }
}

/// The submission state named by a row's text cells: the first cell that
/// reads `Submitted` or `No Submission` decides; otherwise the row counts
/// as submitted exactly when it shows a score badge.
pub open spec fn spec_submitted_from_texts(texts: Seq<String>, has_score_badge: bool) -> bool
    decreases texts.len(),
{
    if texts.len() == 0 {
        has_score_badge
    } else if texts[0]@ == "Submitted"@ {
        true
    } else if texts[0]@ == "No Submission"@ {
        false
    } else {
        spec_submitted_from_texts(texts.drop_first(), has_score_badge)
    }
}

/// What an assignment row with its text cells, link and score badge
/// describes. A row with no text cells names no assignment.
pub open spec fn spec_assignment_from_row(
    texts: Seq<String>,
    link: Option<String>,
    has_score_badge: bool,
) -> Option<GradescopeAssignment> {
    if texts.len() == 0 {
        None
    } else {
        Some(
            GradescopeAssignment {
                name: texts[0],
                submitted: spec_submitted_from_texts(texts, has_score_badge),
                due_at: spec_due_from_texts(texts),
                link: link,
            },
        )
    }
}

/// Reads one assignment record out of a course page's table row, given the
/// row's text cells in order, its first link, and whether the row shows a
/// score badge.
pub fn assignment_from_row(texts: Vec<String>, link: Option<String>, has_score_badge: bool) -> (r:
    Option<GradescopeAssignment>)
    ensures
        r == spec_assignment_from_row(texts@, link, has_score_badge),
{
    if texts.len() == 0 {
        return None;
    }
    let mut due: Option<i64> = None;
    let mut i: usize = texts.len();
    proof {
        assert(texts@.take(texts@.len() as int) =~= texts@);
    }
    while i > 0 && due.is_none()
        invariant
            0 <= i <= texts@.len(),
            due is None ==> spec_due_from_texts(texts@) == spec_due_from_texts(
                texts@.take(i as int),
            ),
            due is Some ==> due == spec_due_from_texts(texts@),
        decreases i,
    {
        proof {
            assert(texts@.take(i as int).last() == texts@[i as int - 1]);
            assert(texts@.take(i as int).drop_last() =~= texts@.take(i as int - 1));
        }
        match parse_scrape_due(texts[i - 1].as_str()) {
            Some(t) => {
                due = Some(t);
            },
            None => {},
        }
        i = i - 1;
    }
    proof {
        if due is None {
            assert(texts@.take(0) =~= Seq::<String>::empty());
        }
    }
    let mut submitted: Option<bool> = None;
    let mut j: usize = 0;
    while j < texts.len() && submitted.is_none()
        invariant
            0 <= j <= texts@.len(),
            submitted is None ==> spec_submitted_from_texts(texts@, has_score_badge)
                == spec_submitted_from_texts(texts@.skip(j as int), has_score_badge),
            submitted is Some ==> submitted == Some(
                spec_submitted_from_texts(texts@, has_score_badge),
            ),
        decreases texts@.len() - j,
    {
        proof {
            assert(texts@.skip(j as int)[0] == texts@[j as int]);
            assert(texts@.skip(j as int).drop_first() =~= texts@.skip(j as int + 1));
        }
        if str_eq(texts[j].as_str(), "Submitted") {
            submitted = Some(true);
        } else if str_eq(texts[j].as_str(), "No Submission") {
            submitted = Some(false);
        }
        j = j + 1;
    }
    let submitted = match submitted {
        Some(s) => s,
        None => {
            proof {
                assert(texts@.skip(j as int).len() == 0);
            }
            has_score_badge
        },
    };
    let mut texts = texts;
    let name = texts.remove(0);
    Some(GradescopeAssignment { name: name, submitted: submitted, due_at: due, link: link })
}

/// The request path of one course's page.
pub fn course_page_path(course_id: i64) -> (r: String)
    ensures
        r@ == "/courses/"@ + crate::digits::spec_idec(course_id as int),
{
    let mut r = String::from_str("/courses/");
    let id_text = crate::digits::i64_to_string(course_id);
    r.append(id_text.as_str());
    r
}

} // verus!
