//! Configuration of a run: source credentials, visibility flags, and the
//! exclusion and inclusion rules that the filter engine applies.

use vstd::prelude::*;

verus! {

/// A rule removing records from the candidate set before anything else runs.
#[derive(Debug, Clone, Copy, PartialEq, Eq, Structural)]
pub enum Exclusion {
    ByClassId { class_id: i64 },
    ByAssignmentId { assignment_id: i64 },
}

/// A rule forcing an assignment to be shown, overriding every other rule.
#[derive(Debug, Clone, Copy, PartialEq, Eq, Structural)]
pub enum Inclusion {
    ByAssignmentId { assignment_id: i64 },
}

/// Everything a run is configured with. The credential fields are carried
/// for the fetch layer; the rules and flags drive the filter engine.
#[derive(Debug, Clone)]
pub struct Config {
    pub canvas_url: String,
    pub token: String,
    pub gradescope_cookie: Option<String>,
    pub hide_overdue_after_days: Option<i64>,
    pub hide_overdue_without_submission: bool,
    pub exclude: Vec<Exclusion>,
    pub inclusions: Vec<Inclusion>,
    pub hide_locked: bool,
}

/// Whether the exclusion rules name this course id.
pub open spec fn spec_excludes_class(exclude: Seq<Exclusion>, id: i64) -> bool {
    exists|i: int|
        0 <= i < exclude.len() && exclude[i] == (Exclusion::ByClassId { class_id: id })
}

/// Whether the exclusion rules name this assignment id.
pub open spec fn spec_excludes_assignment(exclude: Seq<Exclusion>, id: i64) -> bool {
    exists|i: int|
        0 <= i < exclude.len() && exclude[i] == (Exclusion::ByAssignmentId { assignment_id: id })
}

/// Whether the inclusion rules name this assignment id.
pub open spec fn spec_includes_assignment(inclusions: Seq<Inclusion>, id: i64) -> bool {
    exists|i: int|
        0 <= i < inclusions.len() && inclusions[i] == (Inclusion::ByAssignmentId {
            assignment_id: id,
        })
}

impl Config {
    /// Tests whether a course id is excluded by rule.
    pub fn excludes_class(&self, id: i64) -> (r: bool)
        ensures
            r == spec_excludes_class(self.exclude@, id),
    {
        let mut i: usize = 0;
        while i < self.exclude.len()
            invariant
                0 <= i <= self.exclude@.len(),
                forall|j: int|
                    0 <= j < i ==> self.exclude@[j] != (Exclusion::ByClassId { class_id: id }),
            decreases self.exclude@.len() - i,
        {
            if self.exclude[i] == (Exclusion::ByClassId { class_id: id }) {
                return true;
            }
            i = i + 1;
        }
        false
    }

    /// Tests whether an assignment id is excluded by rule.
    pub fn excludes_assignment(&self, id: i64) -> (r: bool)
        ensures
            r == spec_excludes_assignment(self.exclude@, id),
    {
        let mut i: usize = 0;
        while i < self.exclude.len()
            invariant
                0 <= i <= self.exclude@.len(),
                forall|j: int|
                    0 <= j < i ==> self.exclude@[j] != (Exclusion::ByAssignmentId {
                        assignment_id: id,
                    }),
            decreases self.exclude@.len() - i,
        {
            if self.exclude[i] == (Exclusion::ByAssignmentId { assignment_id: id }) {
                return true;
            }
            i = i + 1;
        }
        false
    }

    /// Tests whether an assignment id is force-included by rule.
    pub fn includes_assignment(&self, id: i64) -> (r: bool)
        ensures
            r == spec_includes_assignment(self.inclusions@, id),
    {
        let mut i: usize = 0;
        while i < self.inclusions.len()
            invariant
                0 <= i <= self.inclusions@.len(),
                forall|j: int|
                    0 <= j < i ==> self.inclusions@[j] != (Inclusion::ByAssignmentId {
                        assignment_id: id,
                    }),
            decreases self.inclusions@.len() - i,
        {
            if self.inclusions[i] == (Inclusion::ByAssignmentId { assignment_id: id }) {
                return true;
            }
            i = i + 1;
        }
        false
    }
}

} // verus!
