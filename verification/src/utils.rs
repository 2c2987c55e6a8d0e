//! Checks on what a caller hands in, made before any list is touched.

use vstd::prelude::*;

verus! {

/// What `check_priority` makes of a priority as the user gave it.
pub open spec fn checked_priority(priority: Option<i32>, default: i32) -> Option<i32> {
    match priority {
        Some(p) => if 1 <= p <= 5 {
            Some(p)
        } else {
            None
        },
        None => Some(default),
    }
}

/// Checks a priority as the user gave it. A level of 1 to 5 is accepted as
/// it is, any other level is refused with `None`, and where no level was
/// given the `default` stands in. The bounds `min` and `max` are those that
/// the caller names to the user when a level is refused; the levels
/// themselves are fixed.
#[allow(unused_variables)]
pub fn check_priority(priority: &Option<i32>, min: i32, max: i32, default: i32) -> (checked:
    Option<i32>)
    ensures
        checked == checked_priority(*priority, default),
{
    match priority {
        Some(p) => {
            if 1 <= *p && *p <= 5 {
                Some(*p)
            } else {
                None
            }
        },
        None => Some(default),
    }
}

} // verus!
