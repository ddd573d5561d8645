//! The decision behind the URL probe: the caller's HTTP collaborator
//! fetches the status code; whether that code counts as a valid answer is
//! decided here.

use vstd::prelude::*;

verus! {

/// Whether the probed URL answered with plain success: exactly status 200.
pub fn status_is_ok(code: u16) -> (r: bool)
    ensures
        r == (code == 200),
{
    code == 200
}

} // verus!
