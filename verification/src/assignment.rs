//! The unified assignment model: records of both sources tagged by origin,
//! flattened into one candidate sequence, cut down by the exclusion rules,
//! stripped of undated records, and ordered by due time, latest first.
//! Courses are shared by reference count: every assignment of a course
//! carries the same course value.

use std::rc::Rc;
use vstd::prelude::*;
use crate::canvas::{CanvasAssignment, CanvasCourse};
use crate::config::{Exclusion, spec_excludes_assignment, spec_excludes_class};
use crate::gradescope::{GradescopeAssignment, GradescopeCourse};
use crate::seq_util::{lemma_filter_push, lemma_to_multiset_insert, lemma_to_multiset_remove_first};

verus! {

/// Relies on `Rc::clone`: the clone shares the same pointed-to value.
#[verifier::external_body]
fn rc_clone<T>(v: &Rc<T>) -> (r: Rc<T>)
    ensures
        r == *v,
{
    Rc::clone(v)
}

/// One assignment of either source, with its course.
#[derive(Debug, Clone)]
pub enum Assignment {
    Canvas(Rc<CanvasCourse>, CanvasAssignment),
    Gradescope(Rc<GradescopeCourse>, GradescopeAssignment),
}

impl Assignment {
    /// The id the exclusion and inclusion rules can name. Only the JSON
    /// API names assignment ids.
    pub open spec fn spec_assignment_id(&self) -> Option<i64> {
        match self {
            Assignment::Canvas(_, a) => Some(a.id),
            Assignment::Gradescope(_, _) => None,
        }
    }

    /// Reads the id the rules can name.
    pub fn assignment_id(&self) -> (r: Option<i64>)
        ensures
            r == self.spec_assignment_id(),
    {
        match self {
            Assignment::Canvas(_, a) => Some(a.id),
            Assignment::Gradescope(_, _) => None,
        }
    }

    /// The due timestamp, when the record has one.
    pub open spec fn spec_due_at(&self) -> Option<i64> {
        match self {
            Assignment::Canvas(_, a) => a.due_at,
            Assignment::Gradescope(_, a) => a.due_at,
        }
    }

    /// Reads the due timestamp.
    pub fn due_at(&self) -> (r: Option<i64>)
        ensures
            r == self.spec_due_at(),
    {
        match self {
            Assignment::Canvas(_, a) => a.due_at,
            Assignment::Gradescope(_, a) => a.due_at,
        }
    }

    /// The id of the course the assignment belongs to.
    pub open spec fn spec_course_id(&self) -> i64 {
        match self {
            Assignment::Canvas(c, _) => c.id,
            Assignment::Gradescope(c, _) => c.id,
        }
    }
}

/// The assignments of one course of the JSON API, in order, as candidate
/// records.
pub open spec fn spec_canvas_pairs(c: Rc<CanvasCourse>, aa: Seq<CanvasAssignment>) -> Seq<
    Assignment,
> {
    aa.map(|i: int, a: CanvasAssignment| Assignment::Canvas(c, a))
}

/// The assignments of one course of the dashboard, in order, as candidate
/// records.
pub open spec fn spec_gradescope_pairs(c: Rc<GradescopeCourse>, aa: Seq<GradescopeAssignment>)
    -> Seq<Assignment> {
    aa.map(|i: int, a: GradescopeAssignment| Assignment::Gradescope(c, a))
}

/// The candidate records of all courses of the JSON API, course by course.
pub open spec fn spec_flatten_canvas(s: Seq<(Rc<CanvasCourse>, Vec<CanvasAssignment>)>) -> Seq<
    Assignment,
>
    decreases s.len(),
{
    if s.len() == 0 {
        Seq::empty()
    } else {
        spec_canvas_pairs(s[0].0, s[0].1@) + spec_flatten_canvas(s.drop_first())
    }
}

/// The candidate records of all courses of the dashboard, course by course.
pub open spec fn spec_flatten_gradescope(s: Seq<(Rc<GradescopeCourse>, Vec<GradescopeAssignment>)>)
    -> Seq<Assignment>
    decreases s.len(),
{
    if s.len() == 0 {
        Seq::empty()
    } else {
        spec_gradescope_pairs(s[0].0, s[0].1@) + spec_flatten_gradescope(s.drop_first())
    }
}

proof fn lemma_flatten_canvas_push(
    u: Seq<(Rc<CanvasCourse>, Vec<CanvasAssignment>)>,
    p: (Rc<CanvasCourse>, Vec<CanvasAssignment>),
)
    ensures
        spec_flatten_canvas(u.push(p)) == spec_flatten_canvas(u) + spec_canvas_pairs(p.0, p.1@),
    decreases u.len(),
{
    let s = u.push(p);
    if u.len() == 0 {
        assert(s.drop_first() =~= Seq::<(Rc<CanvasCourse>, Vec<CanvasAssignment>)>::empty());
        assert(s[0] == p);
        assert(spec_flatten_canvas(s.drop_first()) =~= Seq::<Assignment>::empty());
        assert(spec_flatten_canvas(s) == spec_canvas_pairs(s[0].0, s[0].1@) + spec_flatten_canvas(
            s.drop_first(),
        ));
        assert(spec_flatten_canvas(u) =~= Seq::<Assignment>::empty());
        assert(spec_flatten_canvas(s) =~= spec_flatten_canvas(u) + spec_canvas_pairs(p.0, p.1@));
    } else {
        assert(s.drop_first() =~= u.drop_first().push(p));
        lemma_flatten_canvas_push(u.drop_first(), p);
        assert(s[0] == u[0]);
        assert(spec_flatten_canvas(s) =~= spec_flatten_canvas(u) + spec_canvas_pairs(p.0, p.1@));
    }
}

proof fn lemma_flatten_gradescope_push(
    u: Seq<(Rc<GradescopeCourse>, Vec<GradescopeAssignment>)>,
    p: (Rc<GradescopeCourse>, Vec<GradescopeAssignment>),
)
    ensures
        spec_flatten_gradescope(u.push(p)) == spec_flatten_gradescope(u) + spec_gradescope_pairs(
            p.0,
            p.1@,
        ),
    decreases u.len(),
{
    let s = u.push(p);
    if u.len() == 0 {
        assert(s.drop_first() =~= Seq::<(Rc<GradescopeCourse>, Vec<GradescopeAssignment>)>::empty());
        assert(s[0] == p);
        assert(spec_flatten_gradescope(s.drop_first()) =~= Seq::<Assignment>::empty());
        assert(spec_flatten_gradescope(s) == spec_gradescope_pairs(s[0].0, s[0].1@)
            + spec_flatten_gradescope(s.drop_first()));
        assert(spec_flatten_gradescope(u) =~= Seq::<Assignment>::empty());
        assert(spec_flatten_gradescope(s) =~= spec_flatten_gradescope(u) + spec_gradescope_pairs(
            p.0,
            p.1@,
        ));
    } else {
        assert(s.drop_first() =~= u.drop_first().push(p));
        lemma_flatten_gradescope_push(u.drop_first(), p);
        assert(s[0] == u[0]);
        assert(spec_flatten_gradescope(s) =~= spec_flatten_gradescope(u) + spec_gradescope_pairs(
            p.0,
            p.1@,
        ));
    }
}

/// Flattens the per-course lists of both sources into one candidate
/// sequence: the dashboard's records first, then the JSON API's, each
/// source course by course in order.
pub fn merge_sources(
    gradescope: Vec<(Rc<GradescopeCourse>, Vec<GradescopeAssignment>)>,
    canvas: Vec<(Rc<CanvasCourse>, Vec<CanvasAssignment>)>,
) -> (r: Vec<Assignment>)
    ensures
        r@ == spec_flatten_gradescope(gradescope@) + spec_flatten_canvas(canvas@),
{
    let ghost gorig = gradescope@;
    let ghost corig = canvas@;
    let mut out: Vec<Assignment> = Vec::new();
    let mut grest = gradescope;
    let ghost mut k: int = 0;
    proof {
        assert(gorig.take(0) =~= Seq::<(Rc<GradescopeCourse>, Vec<GradescopeAssignment>)>::empty());
        assert(gorig.skip(0) =~= gorig);
        assert(out@ =~= spec_flatten_gradescope(gorig.take(0)));
    }
    while grest.len() > 0
        invariant
            0 <= k <= gorig.len(),
            grest@ == gorig.skip(k),
            out@ == spec_flatten_gradescope(gorig.take(k)),
        decreases grest@.len(),
    {
        proof {
            assert(gorig.skip(k)[0] == gorig[k]);
            assert(gorig.skip(k).remove(0) =~= gorig.skip(k + 1));
            assert(gorig.take(k + 1) =~= gorig.take(k).push(gorig[k]));
            lemma_flatten_gradescope_push(gorig.take(k), gorig[k]);
        }
        let pair = grest.remove(0);
        let course = pair.0;
        let mut aa = pair.1;
        let ghost aorig = aa@;
        let ghost mut j: int = 0;
        proof {
            assert(aorig.skip(0) =~= aorig);
            assert(spec_gradescope_pairs(course, aorig.take(0)) =~= Seq::<Assignment>::empty());
        }
        while aa.len() > 0
            invariant
                0 <= j <= aorig.len(),
                aa@ == aorig.skip(j),
                out@ == spec_flatten_gradescope(gorig.take(k)) + spec_gradescope_pairs(
                    course,
                    aorig.take(j),
                ),
            decreases aa@.len(),
        {
            proof {
                assert(aorig.skip(j)[0] == aorig[j]);
                assert(aorig.skip(j).remove(0) =~= aorig.skip(j + 1));
            }
            let a = aa.remove(0);
            let c = rc_clone(&course);
            out.push(Assignment::Gradescope(c, a));
            proof {
                j = j + 1;
                assert(spec_gradescope_pairs(course, aorig.take(j)) =~= spec_gradescope_pairs(
                    course,
                    aorig.take(j - 1),
                ).push(Assignment::Gradescope(course, aorig[j - 1])));
            }
        }
        proof {
            assert(aorig.take(aorig.len() as int) =~= aorig);
            k = k + 1;
        }
    }
    proof {
        assert(gorig.take(k) =~= gorig);
    }
    let mut crest = canvas;
    let ghost mut m: int = 0;
    proof {
        assert(corig.take(0) =~= Seq::<(Rc<CanvasCourse>, Vec<CanvasAssignment>)>::empty());
        assert(corig.skip(0) =~= corig);
        assert(spec_flatten_canvas(corig.take(0)) =~= Seq::<Assignment>::empty());
        assert(out@ =~= spec_flatten_gradescope(gorig) + spec_flatten_canvas(corig.take(0)));
    }
    while crest.len() > 0
        invariant
            0 <= m <= corig.len(),
            crest@ == corig.skip(m),
            out@ == spec_flatten_gradescope(gorig) + spec_flatten_canvas(corig.take(m)),
        decreases crest@.len(),
    {
        proof {
            assert(corig.skip(m)[0] == corig[m]);
            assert(corig.skip(m).remove(0) =~= corig.skip(m + 1));
            assert(corig.take(m + 1) =~= corig.take(m).push(corig[m]));
            lemma_flatten_canvas_push(corig.take(m), corig[m]);
        }
        let pair = crest.remove(0);
        let course = pair.0;
        let mut aa = pair.1;
        let ghost aorig = aa@;
        let ghost mut j: int = 0;
        proof {
            assert(aorig.skip(0) =~= aorig);
            assert(spec_canvas_pairs(course, aorig.take(0)) =~= Seq::<Assignment>::empty());
        }
        while aa.len() > 0
            invariant
                0 <= j <= aorig.len(),
                aa@ == aorig.skip(j),
                out@ == spec_flatten_gradescope(gorig) + spec_flatten_canvas(corig.take(m))
                    + spec_canvas_pairs(course, aorig.take(j)),
            decreases aa@.len(),
        {
            proof {
                assert(aorig.skip(j)[0] == aorig[j]);
                assert(aorig.skip(j).remove(0) =~= aorig.skip(j + 1));
            }
            let a = aa.remove(0);
            let c = rc_clone(&course);
            out.push(Assignment::Canvas(c, a));
            proof {
                j = j + 1;
                assert(spec_canvas_pairs(course, aorig.take(j)) =~= spec_canvas_pairs(
                    course,
                    aorig.take(j - 1),
                ).push(Assignment::Canvas(course, aorig[j - 1])));
                assert(out@ =~= spec_flatten_gradescope(gorig) + spec_flatten_canvas(corig.take(m))
                    + spec_canvas_pairs(course, aorig.take(j)));
            }
        }
        proof {
            assert(aorig.take(aorig.len() as int) =~= aorig);
            m = m + 1;
            assert(out@ =~= spec_flatten_gradescope(gorig) + spec_flatten_canvas(corig.take(m)));
        }
    }
    proof {
        assert(corig.take(m) =~= corig);
    }
    out
}

/// Whether the exclusion rules leave an assignment in the candidate set:
/// they remove exactly the assignments whose id they name.
pub open spec fn spec_kept_after_exclusion(exclude: Seq<Exclusion>, a: Assignment) -> bool {
    match a.spec_assignment_id() {
        Some(id) => !spec_excludes_assignment(exclude, id),
        None => true,
    }
}

/// Removes every candidate whose assignment id an exclusion rule names.
pub fn retain_not_excluded(exclude: &Vec<Exclusion>, all: Vec<Assignment>) -> (r: Vec<Assignment>)
    ensures
        r@ == all@.filter(|a: Assignment| spec_kept_after_exclusion(exclude@, a)),
{
    let ghost p = |a: Assignment| spec_kept_after_exclusion(exclude@, a);
    let ghost orig = all@;
    let mut rest = all;
    let mut out: Vec<Assignment> = Vec::new();
    let ghost mut k: int = 0;
    proof {
        reveal(Seq::filter);
        assert(orig.take(0) =~= Seq::<Assignment>::empty());
        assert(orig.skip(0) =~= orig);
    }
    while rest.len() > 0
        invariant
            0 <= k <= orig.len(),
            rest@ == orig.skip(k),
            out@ == orig.take(k).filter(p),
            p == (|a: Assignment| spec_kept_after_exclusion(exclude@, a)),
        decreases rest@.len(),
    {
        proof {
            assert(orig.skip(k)[0] == orig[k]);
            assert(orig.skip(k).remove(0) =~= orig.skip(k + 1));
            assert(orig.take(k + 1) =~= orig.take(k).push(orig[k]));
            lemma_filter_push(orig.take(k), orig[k], p);
        }
        let a = rest.remove(0);
        let keep = match a.assignment_id() {
            Some(id) => {
                let mut i: usize = 0;
                let mut found = false;
                while i < exclude.len()
                    invariant
                        0 <= i <= exclude@.len(),
                        found == exists|q: int|
                            0 <= q < i && exclude@[q] == (Exclusion::ByAssignmentId {
                                assignment_id: id,
                            }),
                    decreases exclude@.len() - i,
                {
                    if exclude[i] == (Exclusion::ByAssignmentId { assignment_id: id }) {
                        found = true;
                    }
                    i = i + 1;
                }
                !found
            },
            None => true,
        };
        if keep {
            out.push(a);
        }
        proof {
            k = k + 1;
        }
    }
    proof {
        assert(orig.take(k) =~= orig);
    }
    out
}

/// Whether a candidate can be scheduled at all: it has a due timestamp.
pub open spec fn spec_dated(a: Assignment) -> bool {
    a.spec_due_at() is Some
}

/// Drops every candidate without a due timestamp. Such records never
/// appear in the report and never move the next-due markers.
pub fn drop_undated(all: Vec<Assignment>) -> (r: Vec<Assignment>)
    ensures
        r@ == all@.filter(|a: Assignment| spec_dated(a)),
{
    let ghost p = |a: Assignment| spec_dated(a);
    let ghost orig = all@;
    let mut rest = all;
    let mut out: Vec<Assignment> = Vec::new();
    let ghost mut k: int = 0;
    proof {
        reveal(Seq::filter);
        assert(orig.take(0) =~= Seq::<Assignment>::empty());
        assert(orig.skip(0) =~= orig);
    }
    while rest.len() > 0
        invariant
            0 <= k <= orig.len(),
            rest@ == orig.skip(k),
            out@ == orig.take(k).filter(p),
            p == (|a: Assignment| spec_dated(a)),
        decreases rest@.len(),
    {
        proof {
            assert(orig.skip(k)[0] == orig[k]);
            assert(orig.skip(k).remove(0) =~= orig.skip(k + 1));
            assert(orig.take(k + 1) =~= orig.take(k).push(orig[k]));
            lemma_filter_push(orig.take(k), orig[k], p);
        }
        let a = rest.remove(0);
        let keep = match a.due_at() {
            Some(_) => true,
            None => false,
        };
        if keep {
            out.push(a);
        }
        proof {
            k = k + 1;
        }
    }
    proof {
        assert(orig.take(k) =~= orig);
    }
    out
}

/// The ordering key of a candidate: its due timestamp, with undated
/// records below every dated one.
pub open spec fn spec_due_key(a: Assignment) -> int {
    match a.spec_due_at() {
        Some(t) => t as int,
        None => (i64::MIN as int) - 1,
    }
}

/// The report's order: by due timestamp, latest first.
pub open spec fn spec_due_desc(a: Assignment, b: Assignment) -> bool {
    spec_due_key(a) >= spec_due_key(b)
}

fn due_desc(a: &Assignment, b: &Assignment) -> (r: bool)
    ensures
        r == spec_due_desc(*a, *b),
{
    match (a.due_at(), b.due_at()) {
        (Some(x), Some(y)) => x >= y,
        (Some(_), None) => true,
        (None, None) => true,
        (None, Some(_)) => false,
    }
}

/// Orders the candidates by due timestamp, latest first. The records are
/// exactly the input's records; ties stand in some order, both sides kept.
pub fn sort_by_due_desc(all: Vec<Assignment>) -> (r: Vec<Assignment>)
    ensures
        r@.to_multiset() == all@.to_multiset(),
        r@.len() == all@.len(),
        vstd::relations::sorted_by(r@, |a: Assignment, b: Assignment| spec_due_desc(a, b)),
{
    let ghost leq = |a: Assignment, b: Assignment| spec_due_desc(a, b);
    let ghost orig = all@;
    let mut rest = all;
    let mut out: Vec<Assignment> = Vec::new();
    proof {
        out@.to_multiset_ensures();
        rest@.to_multiset_ensures();
        assert(out@.to_multiset().add(rest@.to_multiset()) =~= orig.to_multiset());
    }
    while rest.len() > 0
        invariant
            out@.to_multiset().add(rest@.to_multiset()) =~= orig.to_multiset(),
            out@.len() + rest@.len() == orig.len(),
            vstd::relations::sorted_by(out@, leq),
            leq == (|a: Assignment, b: Assignment| spec_due_desc(a, b)),
        decreases rest@.len(),
    {
        let ghost rest0 = rest@;
        let x = rest.remove(0);
        proof {
            lemma_to_multiset_remove_first(rest0);
        }
        let mut j: usize = 0;
        while j < out.len() && due_desc(&out[j], &x)
            invariant
                0 <= j <= out@.len(),
                forall|q: int| 0 <= q < j ==> leq(out@[q], x),
                leq == (|a: Assignment, b: Assignment| spec_due_desc(a, b)),
            decreases out@.len() - j,
        {
            j = j + 1;
        }
        proof {
            let ghost out0 = out@;
            if j < out0.len() {
                assert(!leq(out0[j as int], x));
                assert(leq(x, out0[j as int]));
                assert forall|q: int| j <= q < out0.len() implies leq(x, out0[q]) by {
                    if q > j {
                        assert(leq(out0[j as int], out0[q]));
                    }
                }
            }
            lemma_to_multiset_insert(out@, j as int, x);
        }
        let ghost out0 = out@;
        out.insert(j, x);
        proof {
            assert forall|q: int, n: int|
                0 <= q < n < out@.len() implies leq(out@[q], out@[n]) by {
                if n < j {
                    assert(leq(out0[q], out0[n]));
                } else if q < j && n == j {
                    assert(leq(out0[q], x));
                } else if q < j && n > j {
                    assert(leq(out0[q], out0[n - 1]));
                } else if q == j {
                    assert(leq(x, out0[n - 1]));
                } else {
                    assert(leq(out0[q - 1], out0[n - 1]));
                }
            }
        }
    }
    proof {
        rest@.to_multiset_ensures();
        assert(rest@.to_multiset() =~= vstd::multiset::Multiset::<Assignment>::empty());
        assert(out@.to_multiset() =~= orig.to_multiset());
        orig.to_multiset_ensures();
        out@.to_multiset_ensures();
    }
    out
}

/// Law: when every fetched course survived the course-exclusion filter, no
/// candidate of an excluded course exists at all — the exclusion empties a
/// course before filtering or ordering ever sees its assignments.
pub proof fn lemma_excluded_courses_reach_nothing(
    exclude: Seq<Exclusion>,
    pairs: Seq<(Rc<CanvasCourse>, Vec<CanvasAssignment>)>,
)
    requires
        forall|p: int|
            0 <= p < pairs.len() ==> !spec_excludes_class(exclude, (#[trigger] pairs[p].0).id),
    ensures
        forall|q: int|
            0 <= q < spec_flatten_canvas(pairs).len() ==> !spec_excludes_class(
                exclude,
                (#[trigger] spec_flatten_canvas(pairs)[q]).spec_course_id(),
            ),
    decreases pairs.len(),
{
    if pairs.len() > 0 {
        lemma_excluded_courses_reach_nothing(exclude, pairs.drop_first());
        let flat = spec_flatten_canvas(pairs);
        let head = spec_canvas_pairs(pairs[0].0, pairs[0].1@);
        let tail = spec_flatten_canvas(pairs.drop_first());
        assert forall|q: int|
            0 <= q < flat.len() implies !spec_excludes_class(
            exclude,
            (#[trigger] flat[q]).spec_course_id(),
        ) by {
            if q < head.len() {
                assert(flat[q] == head[q]);
                assert(head[q] == Assignment::Canvas(pairs[0].0, pairs[0].1@[q]));
            } else {
                assert(flat[q] == tail[q - head.len()]);
                assert(pairs.drop_first()[0] == pairs[1] || true);
            }
        }
    }
}

} // verus!
