//! The soft visibility rules, one predicate per assignment: inclusion
//! overrides everything, long-overdue records are hidden on request,
//! submitted dashboard records are hidden on request, and finalized API
//! submissions are hidden unless a pending peer review keeps them
//! actionable. The hard exclusion rules run earlier, before ordering.

use vstd::prelude::*;
use crate::assignment::Assignment;
use crate::config::{Config, spec_includes_assignment};

verus! {

/// Whole days in a span of seconds, counted toward zero.
pub open spec fn spec_days_trunc(secs: int) -> int {
    if secs >= 0 {
        secs / 86400
    } else {
        -((-secs) / 86400)
    }
}

/// Rule one: an assignment whose id the inclusion rules name is always
/// shown.
pub open spec fn spec_force_included(c: Config, a: Assignment) -> bool {
    match a.spec_assignment_id() {
        Some(id) => spec_includes_assignment(c.inclusions@, id),
        None => false,
    }
}

/// Rule two: with an overdue threshold configured, a dated assignment
/// overdue by more whole days than the threshold is hidden.
pub open spec fn spec_overdue_hidden(c: Config, a: Assignment, now: i64) -> bool {
    match (a.spec_due_at(), c.hide_overdue_after_days) {
        (Some(due), Some(off)) => spec_days_trunc(now as int - due as int) > off,
        _ => false,
    }
}

/// Rule three: with the flag configured, a dashboard assignment already
/// submitted is hidden — nothing of it is actionable any more.
pub open spec fn spec_scraped_submitted_hidden(c: Config, a: Assignment) -> bool {
    c.hide_overdue_without_submission && match a {
        Assignment::Gradescope(_, g) => g.submitted,
        Assignment::Canvas(_, _) => false,
    }
}

/// Rule four: an API assignment whose submission is finalized is hidden,
/// unless it requires peer review and fewer than two review entries exist.
pub open spec fn spec_finalized_hidden(a: Assignment) -> bool {
    match a {
        Assignment::Canvas(_, x) => match x.submission {
            Some(s) => s.submitted_at is Some && !(x.peer_reviews && s.discussion_entry_count < 2),
            None => false,
        },
        Assignment::Gradescope(_, _) => false,
    }
}

/// The visibility of one assignment: the four rules in order, and shown
/// otherwise.
pub open spec fn spec_should_show(c: Config, a: Assignment, now: i64) -> bool {
    if spec_force_included(c, a) {
        true
    } else if spec_overdue_hidden(c, a, now) {
        false
    } else if spec_scraped_submitted_hidden(c, a) {
        false
    } else if spec_finalized_hidden(a) {
        false
    } else {
        true
    }
}

fn days_trunc_exceeds(now: i64, due: i64, off: i64) -> (r: bool)
    ensures
        r == (spec_days_trunc(now as int - due as int) > off),
{
    let diff: i128 = now as i128 - due as i128;
    let days: i128 = if diff >= 0 {
        ((diff as u128) / 86400) as i128
    } else {
        -((((-diff) as u128) / 86400) as i128)
    };
    proof {
        assert(days == spec_days_trunc(now as int - due as int));
    }
    days > off as i128
}

/// Decides the visibility of one assignment under the configured rules.
pub fn should_show(config: &Config, assignment: &Assignment, now: i64) -> (r: bool)
    ensures
        r == spec_should_show(*config, *assignment, now),
{
    match assignment.assignment_id() {
        Some(id) => {
            if config.includes_assignment(id) {
                return true;
            }
        },
        None => {},
    }
    match (assignment.due_at(), config.hide_overdue_after_days) {
        (Some(due), Some(off)) => {
            if days_trunc_exceeds(now, due, off) {
                return false;
            }
        },
        _ => {},
    }
    if config.hide_overdue_without_submission {
        match assignment {
            Assignment::Gradescope(_, g) => {
                if g.submitted {
                    return false;
                }
            },
            Assignment::Canvas(_, _) => {},
        }
    }
    match assignment {
        Assignment::Canvas(_, x) => {
            match &x.submission {
                Some(s) => {
                    if s.submitted_at.is_some() && !(x.peer_reviews && s.discussion_entry_count
                        < 2) {
                        return false;
                    }
                },
                None => {},
            }
        },
        Assignment::Gradescope(_, _) => {},
    }
    true
}

/// Law: visibility is monotonic under inclusion — an assignment whose id
/// the inclusion rules name is shown, whatever the other rules would have
/// said of it.
pub proof fn lemma_included_always_shown(c: Config, a: Assignment, now: i64)
    requires
        spec_force_included(c, a),
    ensures
        spec_should_show(c, a, now),
{
}

} // verus!
