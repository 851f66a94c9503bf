//! The model of what the remote JSON API reports: courses and assignments
//! with the fields the todo logic reads, and the request paths the fetch
//! layer asks for. Decoding the wire records into these types happens
//! outside the library.

use vstd::prelude::*;
use vstd::string::*;
use vstd::multiset::Multiset;
use vstd::utf8::encode_utf8;
use crate::config::{Config, Exclusion, spec_excludes_class};
use crate::digits::{i64_to_string, spec_idec};
use crate::seq_util::{
    lemma_filter_push, lemma_lex_le_total, lemma_lex_le_trans, lemma_to_multiset_insert,
    lemma_to_multiset_remove_first, lex_le_bytes, spec_lex_le,
};

verus! {

/// The calendar record attached to a course.
#[derive(Debug, Clone, PartialEq, Eq)]
pub struct Calendar {
    pub ics: String,
}

/// The tool-launch attributes an assignment may carry.
#[derive(Debug, Clone, PartialEq, Eq)]
pub struct ExternalToolTagAttributes {
    pub url: String,
    pub new_tab: Option<bool>,
    pub resource_link_id: String,
    pub external_data: String,
    pub content_type: String,
    pub content_id: i64,
}

/// The student's recorded response to an assignment. A submission is
/// finalized once it has a submission timestamp.
#[derive(Debug, Clone, PartialEq, Eq)]
pub struct Submission {
    pub submitted_at: Option<String>,
    pub discussion_entry_count: usize,
}

/// One assignment of the JSON API, reduced to the fields the logic reads.
/// The possible points are carried already rendered, as the text the report
/// prints.
#[derive(Debug, Clone, PartialEq, Eq)]
pub struct CanvasAssignment {
    pub id: i64,
    pub name: String,
    pub due_at: Option<i64>,
    pub points_possible: Option<String>,
    pub submission_types: Vec<String>,
    pub submission: Option<Submission>,
    pub locked_for_user: bool,
    pub peer_reviews: bool,
    pub html_url: String,
    pub external_tool_tag_attributes: Option<ExternalToolTagAttributes>,
}

/// One course of the JSON API.
#[derive(Debug, Clone, PartialEq, Eq)]
pub struct CanvasCourse {
    pub id: i64,
    pub name: String,
    pub calendar: Calendar,
}

/// The request path listing the active courses.
pub fn courses_path() -> (r: String)
    ensures
        r@ == "/api/v1/courses?enrollment_state=active&per_page=10000"@,
{
    String::from_str("/api/v1/courses?enrollment_state=active&per_page=10000")
}

/// The request path listing one course's assignments with their
/// submissions.
pub fn assignments_path(course_id: i64) -> (r: String)
    ensures
        r@ == "/api/v1/courses/"@ + spec_idec(course_id as int)
            + "/assignments?per_page=10000&include=submission"@,
{
    let mut r = String::from_str("/api/v1/courses/");
    let id_text = i64_to_string(course_id);
    r.append(id_text.as_str());
    r.append("/assignments?per_page=10000&include=submission");
    r
}

/// Whether the exclusion rules leave this course in the candidate set.
pub open spec fn spec_course_kept(exclude: Seq<Exclusion>, c: CanvasCourse) -> bool {
    !spec_excludes_class(exclude, c.id)
}

/// Removes every course whose id an exclusion rule names. No assignment of
/// a removed course can reach any later stage, because assignments are only
/// fetched for the courses this returns.
pub fn filter_excluded_courses(config: &Config, courses: Vec<CanvasCourse>) -> (r: Vec<
    CanvasCourse,
>)
    ensures
        r@ == courses@.filter(|c: CanvasCourse| spec_course_kept(config.exclude@, c)),
{
    let ghost p = |c: CanvasCourse| spec_course_kept(config.exclude@, c);
    let ghost orig = courses@;
    let mut rest = courses;
    let mut out: Vec<CanvasCourse> = Vec::new();
    let ghost mut k: int = 0;
    proof {
        reveal(Seq::filter);
        assert(orig.take(0) =~= Seq::<CanvasCourse>::empty());
        assert(orig.skip(0) =~= orig);
    }
    while rest.len() > 0
        invariant
            0 <= k <= orig.len(),
            rest@ == orig.skip(k),
            out@ == orig.take(k).filter(p),
            p == (|c: CanvasCourse| spec_course_kept(config.exclude@, c)),
        decreases rest@.len(),
    {
        proof {
            assert(orig.skip(k)[0] == orig[k]);
            assert(orig.skip(k).remove(0) =~= orig.skip(k + 1));
            assert(orig.take(k + 1) =~= orig.take(k).push(orig[k]));
            lemma_filter_push(orig.take(k), orig[k], p);
        }
        let c = rest.remove(0);
        if !config.excludes_class(c.id) {
            out.push(c);
        }
        proof {
            k = k + 1;
        }
    }
    proof {
        assert(orig.take(k) =~= orig);
    }
    out
}

/// The name order courses are listed in: byte-wise comparison of the course
/// names, the order a `sort` by the name key produces.
pub open spec fn spec_course_le(a: CanvasCourse, b: CanvasCourse) -> bool {
    spec_lex_le(encode_utf8(a.name@), encode_utf8(b.name@))
}

fn course_le(a: &CanvasCourse, b: &CanvasCourse) -> (r: bool)
    ensures
        r == spec_course_le(*a, *b),
{
    let ab = a.name.as_str().as_bytes_vec();
    let bb = b.name.as_str().as_bytes_vec();
    lex_le_bytes(&ab, &bb)
}

/// Orders courses by name, so that the colors assigned in first-encounter
/// order do not depend on fetch completion order.
pub fn sort_courses_by_name(courses: Vec<CanvasCourse>) -> (r: Vec<CanvasCourse>)
    ensures
        r@.to_multiset() == courses@.to_multiset(),
        r@.len() == courses@.len(),
        vstd::relations::sorted_by(r@, |a: CanvasCourse, b: CanvasCourse| spec_course_le(a, b)),
{
    let ghost leq = |a: CanvasCourse, b: CanvasCourse| spec_course_le(a, b);
    let ghost orig = courses@;
    let mut rest = courses;
    let mut out: Vec<CanvasCourse> = Vec::new();
    proof {
        out@.to_multiset_ensures();
        rest@.to_multiset_ensures();
        assert(out@.to_multiset().add(rest@.to_multiset()) =~= orig.to_multiset());
    }
    while rest.len() > 0
        invariant
            out@.to_multiset().add(rest@.to_multiset()) =~= orig.to_multiset(),
            out@.len() + rest@.len() == orig.len(),
            vstd::relations::sorted_by(out@, leq),
            leq == (|a: CanvasCourse, b: CanvasCourse| spec_course_le(a, b)),
        decreases rest@.len(),
    {
        let ghost rest0 = rest@;
        let x = rest.remove(0);
        proof {
            lemma_to_multiset_remove_first(rest0);
        }
        let mut j: usize = 0;
        while j < out.len() && course_le(&out[j], &x)
            invariant
                0 <= j <= out@.len(),
                forall|m: int| 0 <= m < j ==> leq(out@[m], x),
                leq == (|a: CanvasCourse, b: CanvasCourse| spec_course_le(a, b)),
            decreases out@.len() - j,
        {
            j = j + 1;
        }
        proof {
            let ghost out0 = out@;
            if j < out0.len() {
                assert(!leq(out0[j as int], x));
                lemma_lex_le_total(encode_utf8(out0[j as int].name@), encode_utf8(x.name@));
                assert(leq(x, out0[j as int]));
                assert forall|m: int| j <= m < out0.len() implies leq(x, out0[m]) by {
                    if m > j {
                        assert(leq(out0[j as int], out0[m]));
                        lemma_lex_le_trans(
                            encode_utf8(x.name@),
                            encode_utf8(out0[j as int].name@),
                            encode_utf8(out0[m].name@),
                        );
                    }
                }
            }
            lemma_to_multiset_insert(out@, j as int, x);
        }
        let ghost out0 = out@;
        out.insert(j, x);
        proof {
            assert forall|m: int, n: int|
                0 <= m < n < out@.len() implies leq(out@[m], out@[n]) by {
                if n < j {
                    assert(leq(out0[m], out0[n]));
                } else if m < j && n == j {
                    assert(leq(out0[m], x));
                } else if m < j && n > j {
                    assert(leq(out0[m], out0[n - 1]));
                } else if m == j {
                    assert(leq(x, out0[n - 1]));
                } else {
                    assert(leq(out0[m - 1], out0[n - 1]));
                }
            }
        }
    }
    proof {
        rest@.to_multiset_ensures();
        assert(rest@.to_multiset() =~= Multiset::<CanvasCourse>::empty());
        assert(out@.to_multiset() =~= orig.to_multiset());
        assert(out@.to_multiset().len() == out@.len());
        assert(orig.to_multiset().len() == orig.len());
        orig.to_multiset_ensures();
        out@.to_multiset_ensures();
    }
    out
}

} // verus!
