//! Decisions of the group selection: the shortcut for a single group with
//! fans, the menu lines, and the bounded retries of an invalid choice.

use vstd::prelude::*;
use crate::hwmon::Hwmon;
use crate::text::{nat_decimal, nat_to_text};

verus! {

/// Choices asked for, the first included, before giving up.
pub const MAX_ATTEMPTS: usize = 10;

#[derive(PartialEq, Eq, Structural, Clone, Copy, Debug)]
pub enum SelectError {
    /// No sensor group was found.
    NoGroups,
    /// This many choices were invalid.
    TooMany(usize),
}

impl SelectError {
    /// A message for the operator.
    pub fn message(&self) -> (r: String)
        ensures
            *self == SelectError::NoGroups ==> r@ == "no hwmons found"@,
            self matches SelectError::TooMany(n) ==> r@ == "too many invalid attempts: "@ + nat_decimal(
                n as nat,
            ),
    {
        match self {
            SelectError::NoGroups => String::from_str("no hwmons found"),
            SelectError::TooMany(n) => {
                let mut r = String::from_str("too many invalid attempts: ");
                let digits = nat_to_text(*n as u64);
                r.append(digits.as_str());
                assert(r@ =~= "too many invalid attempts: "@ + nat_decimal(*n as nat));
                r
            },
        }
    }
}

pub open spec fn has_fans(h: Hwmon) -> bool {
    h.fans@.len() > 0
}

/// The position of the one group with fans, if exactly one has any.
pub open spec fn spec_single_fan_group(groups: Seq<Hwmon>) -> Option<usize> {
    if exists|i: int|
        0 <= i < groups.len() && has_fans(#[trigger] groups[i]) && forall|j: int|
            0 <= j < groups.len() && j != i ==> !has_fans(#[trigger] groups[j]) {
        Some(
            (choose|i: int|
                0 <= i < groups.len() && has_fans(#[trigger] groups[i]) && forall|j: int|
                    0 <= j < groups.len() && j != i ==> !has_fans(#[trigger] groups[j])) as usize,
        )
    } else {
        None
    }
}

/// Where selection starts: an error without any group; otherwise the group
/// to offer first when it is the only one with fans.
pub fn initial_select(hwmons: &Vec<Hwmon>) -> (r: Result<Option<usize>, SelectError>)
    ensures
        hwmons@.len() == 0 <==> r == Err::<Option<usize>, SelectError>(SelectError::NoGroups),
        hwmons@.len() > 0 ==> r == Ok::<Option<usize>, SelectError>(
            spec_single_fan_group(hwmons@),
        ),
{
    if hwmons.len() == 0 {
        return Err(SelectError::NoGroups);
    }
    let n = hwmons.len();
    let mut count: usize = 0;
    let mut found: usize = 0;
    let mut i: usize = 0;
    while i < n
        invariant
            n == hwmons@.len(),
            i <= n,
            count <= 2,
            count == 0 ==> forall|j: int| 0 <= j < i ==> !has_fans(#[trigger] hwmons@[j]),
            count >= 1 ==> found < i && has_fans(hwmons@[found as int]),
            count == 1 ==> forall|j: int|
                0 <= j < i && j != found ==> !has_fans(#[trigger] hwmons@[j]),
            count == 2 ==> exists|j: int|
                0 <= j < i && j != found && has_fans(#[trigger] hwmons@[j]),
        decreases n - i,
    {
        if hwmons[i].fans.len() > 0 {
            if count == 0 {
                found = i;
                count = 1;
            } else if count == 1 {
                assert(has_fans(hwmons@[i as int]));
                count = 2;
            }
        }
        i = i + 1;
    }
    let ghost g = hwmons@;
    if count == 1 {
        proof {
            let k = choose|k: int|
                0 <= k < g.len() && has_fans(#[trigger] g[k]) && forall|j: int|
                    0 <= j < g.len() && j != k ==> !has_fans(#[trigger] g[j]);
            if k != found as int {
                assert(!has_fans(g[found as int]));
            }
        }
        Ok(Some(found))
    } else {
        proof {
            if count == 2 {
                let j0 = choose|j: int| 0 <= j < g.len() && j != found && has_fans(#[trigger] g[j]);
                assert forall|k: int|
                    !(0 <= k < g.len() && has_fans(#[trigger] g[k]) && forall|j: int|
                        0 <= j < g.len() && j != k ==> !has_fans(#[trigger] g[j])) by {
                    if 0 <= k < g.len() && has_fans(g[k]) {
                        if k == found as int {
                            assert(has_fans(g[j0]));
                        } else {
                            assert(has_fans(g[found as int]));
                        }
                    }
                }
            }
        }
        Ok(None)
    }
}

/// What follows the choice `index` at attempt `attempt` (from 0) among
/// `group_count` groups.
#[derive(PartialEq, Eq, Structural, Clone, Copy, Debug)]
pub enum SelectStep {
    Accept(usize),
    Reprompt,
    Fail(SelectError),
}

/// A valid choice is accepted; an invalid one is asked again, until the
/// last attempt, which fails.
pub fn handle_selection_error(index: usize, attempt: usize, group_count: usize) -> (r: SelectStep)
    requires
        attempt < MAX_ATTEMPTS,
    ensures
        index < group_count ==> r == SelectStep::Accept(index),
        index >= group_count && attempt + 1 == MAX_ATTEMPTS ==> r == SelectStep::Fail(
            SelectError::TooMany(MAX_ATTEMPTS),
        ),
        index >= group_count && attempt + 1 < MAX_ATTEMPTS ==> r == SelectStep::Reprompt,
{
    if index < group_count {
        SelectStep::Accept(index)
    } else if attempt + 1 == MAX_ATTEMPTS {
        SelectStep::Fail(SelectError::TooMany(MAX_ATTEMPTS))
    } else {
        SelectStep::Reprompt
    }
}

pub open spec fn menu_line(i: nat, h: Hwmon) -> Seq<char> {
    nat_decimal(i) + ": "@ + h.name@ + " ("@ + nat_decimal(h.fans@.len()) + " fans, "@ + nat_decimal(
        h.temps@.len(),
    ) + " temp sensors, "@ + nat_decimal(h.pwms@.len()) + " pwm inputs)"@
}

/// The menu line of group `i`.
pub fn group_menu_line(i: usize, h: &Hwmon) -> (r: String)
    ensures
        r@ == menu_line(i as nat, *h),
{
    let mut r = nat_to_text(i as u64);
    r.append(": ");
    r.append(h.name.as_str());
    r.append(" (");
    let fans = nat_to_text(h.fans.len() as u64);
    r.append(fans.as_str());
    r.append(" fans, ");
    let temps = nat_to_text(h.temps.len() as u64);
    r.append(temps.as_str());
    r.append(" temp sensors, ");
    let pwms = nat_to_text(h.pwms.len() as u64);
    r.append(pwms.as_str());
    r.append(" pwm inputs)");
    assert(r@ =~= menu_line(i as nat, *h));
    r
}

} // verus!
