//! Course and accent coloring. The terminal styling itself comes from the
//! colored crate, whose output depends on the environment (a dumb terminal
//! or `NO_COLOR` turns it off), so of each styled text only its length is
//! claimed. What is checked is the assignment of colors to courses: the
//! palette cycles, and a course keeps the exact text it was first given.

use colored::Colorize;
use vstd::prelude::*;
use vstd::string::*;

verus! {

/// Relies on colored's `blue`: the styled text embeds the input, between
/// an optional style prefix and reset suffix.
#[verifier::external_body]
fn blue_of(s: &str) -> (r: String)
    ensures
        r@.len() >= s@.len(),
{
    s.blue().to_string()
}

/// Relies on colored's `yellow`, as `blue` above.
#[verifier::external_body]
fn yellow_of(s: &str) -> (r: String)
    ensures
        r@.len() >= s@.len(),
{
    s.yellow().to_string()
}

/// Relies on colored's `purple`, as `blue` above.
#[verifier::external_body]
pub(crate) fn purple_of(s: &str) -> (r: String)
    ensures
        r@.len() >= s@.len(),
{
    s.purple().to_string()
}

/// Relies on colored's `cyan`, as `blue` above.
#[verifier::external_body]
fn cyan_of(s: &str) -> (r: String)
    ensures
        r@.len() >= s@.len(),
{
    s.cyan().to_string()
}

/// Relies on colored's `red`, as `blue` above.
#[verifier::external_body]
pub(crate) fn red_of(s: &str) -> (r: String)
    ensures
        r@.len() >= s@.len(),
{
    s.red().to_string()
}

/// Relies on colored's `bold`, as `blue` above.
#[verifier::external_body]
pub(crate) fn bold_of(s: &str) -> (r: String)
    ensures
        r@.len() >= s@.len(),
{
    s.bold().to_string()
}

/// Relies on colored's `underline`, as `blue` above.
#[verifier::external_body]
pub(crate) fn underline_of(s: &str) -> (r: String)
    ensures
        r@.len() >= s@.len(),
{
    s.underline().to_string()
}

/// Relies on colored's `white`, as `blue` above.
#[verifier::external_body]
pub(crate) fn white_of(s: &str) -> (r: String)
    ensures
        r@.len() >= s@.len(),
{
    s.white().to_string()
}

/// Relies on colored's `bright_black`, as `blue` above.
#[verifier::external_body]
pub(crate) fn bright_black_of(s: &str) -> (r: String)
    ensures
        r@.len() >= s@.len(),
{
    s.bright_black().to_string()
}

/// Styles a text with the color of the given palette position: the five
/// palette colors repeat in cycle.
pub fn colorize(i: usize, s: &str) -> (r: String)
    ensures
        r@.len() >= s@.len(),
{
    match i % 5 {
        0 => blue_of(s),
        1 => yellow_of(s),
        2 => purple_of(s),
        3 => cyan_of(s),
        _ => red_of(s),
    }
}

/// The color text a course was assigned, looked up by course id: the first
/// assignment wins.
pub open spec fn spec_color_of(m: Seq<(i64, String)>, id: i64) -> Option<Seq<char>>
    decreases m.len(),
{
    if m.len() == 0 {
        None
    } else if m[0].0 == id {
        Some(m[0].1@)
    } else {
        spec_color_of(m.drop_first(), id)
    }
}

proof fn lemma_color_of_push(m: Seq<(i64, String)>, p: (i64, String), id: i64)
    ensures
        spec_color_of(m.push(p), id) == (match spec_color_of(m, id) {
            Some(c) => Some(c),
            None => if p.0 == id {
                Some(p.1@)
            } else {
                None
            },
        }),
    decreases m.len(),
{
    let s = m.push(p);
    if m.len() == 0 {
        assert(s[0] == p);
        assert(s.drop_first() =~= Seq::<(i64, String)>::empty());
    } else {
        assert(s[0] == m[0]);
        assert(s.drop_first() =~= m.drop_first().push(p));
        lemma_color_of_push(m.drop_first(), p, id);
        if m[0].0 == id {
            assert(spec_color_of(s, id) == Some(m[0].1@));
            assert(spec_color_of(m, id) == Some(m[0].1@));
        } else {
            assert(spec_color_of(s, id) == spec_color_of(s.drop_first(), id));
            assert(spec_color_of(m, id) == spec_color_of(m.drop_first(), id));
        }
    }
}

/// The memo of course display colors: courses are colored lazily, in
/// first-encounter order, and a course keeps the text it was first given
/// for the rest of the run.
#[derive(Debug)]
pub struct CourseColors {
    assigned: Vec<(i64, String)>,
    next_index: usize,
}

impl CourseColors {
    /// The assignments made so far, in order.
    pub closed spec fn model(&self) -> Seq<(i64, String)> {
        self.assigned@
    }

    /// The memo's invariant: as many colors were dealt as courses are
    /// remembered.
    pub closed spec fn wf(&self) -> bool {
        self.next_index == self.assigned@.len()
    }

    /// An empty memo.
    pub fn new() -> (r: CourseColors)
        ensures
            r.wf(),
            r.model().len() == 0,
    {
        CourseColors { assigned: Vec::new(), next_index: 0 }
    }

    /// The colored text of one course: the remembered text when the course
    /// was seen before, a fresh palette color otherwise, remembered from
    /// then on. Every other course's text stands unchanged either way.
    pub fn course_color(&mut self, id: i64, name: &str) -> (r: String)
        requires
            old(self).wf(),
        ensures
            final(self).wf(),
            spec_color_of(final(self).model(), id) == Some(r@),
            forall|id2: i64|
                id2 != id ==> spec_color_of(final(self).model(), id2) == spec_color_of(
                    old(self).model(),
                    id2,
                ),
            spec_color_of(old(self).model(), id) is Some ==> r@ == spec_color_of(
                old(self).model(),
                id,
            ).unwrap() && final(self).model() == old(self).model(),
    {
        let ghost m = self.assigned@;
        let mut i: usize = 0;
        proof {
            assert(m.skip(0) =~= m);
        }
        while i < self.assigned.len()
            invariant
                0 <= i <= m.len(),
                old(self).wf(),
                *self == *old(self),
                m == self.assigned@,
                spec_color_of(m, id) == spec_color_of(m.skip(i as int), id),
                forall|q: int| 0 <= q < i ==> m[q].0 != id,
            decreases m.len() - i,
        {
            proof {
                assert(m.skip(i as int)[0] == m[i as int]);
                assert(m.skip(i as int).drop_first() =~= m.skip(i as int + 1));
            }
            if self.assigned[i].0 == id {
                proof {
                    assert(spec_color_of(m.skip(i as int), id) == Some(m[i as int].1@));
                }
                return self.assigned[i].1.clone();
            }
            i = i + 1;
        }
        proof {
            assert(m.skip(i as int).len() == 0);
            assert(spec_color_of(m, id) is None);
        }
        let colored_name = colorize(self.next_index, name);
        let stored = colored_name.clone();
        let ghost pair_ghost = (id, stored);
        self.assigned.push((id, stored));
        let new_len = self.assigned.len();
        proof {
            assert(self.next_index < new_len);
        }
        self.next_index = self.next_index + 1;
        proof {
            assert forall|id2: i64|
                spec_color_of(self.assigned@, id2) == (if id2 == id {
                    Some(colored_name@)
                } else {
                    spec_color_of(m, id2)
                }) by {
                lemma_color_of_push(m, pair_ghost, id2);
            }
        }
        colored_name
    }
}

} // verus!
