//! Small helpers around the random number generator.

use vstd::prelude::*;

verus! {

/// Picks one of the two options, each with probability one half.
///
/// Relies on `rand::random::<bool>()`: it returns an arbitrary boolean, so
/// nothing more than "one of the two" can be promised of the result.
#[verifier::external_body]
pub fn random_choose<T>(option1: T, option2: T) -> (r: T)
    ensures
        r == option1 || r == option2,
{
    if rand::random() {
        option1
    } else {
        option2
    }
}

} // verus!
