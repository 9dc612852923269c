//! Profile lookup used when switching to another user's shell.

use vstd::prelude::*;
use crate::text::same_text;

verus! {

/// The one profile name that is known not to exist.
pub open spec fn missing_profile() -> Seq<char> {
    "nonexistentprofile"@
}

/// Whether a profile of this name can be switched to.
pub fn profile_exists(username: &str) -> (found: bool)
    ensures
        found == (username@ != missing_profile()),
{
    !same_text(username, "nonexistentprofile")
}

} // verus!
