//! The decision behind the create-defaults table: what action and detail a
//! default project file reports, given whether it already existed and
//! whether writing it succeeded.

use vstd::prelude::*;

verus! {

/// The action and detail cells for one default file: an existing file is
/// left alone, a missing one is created from its template, and a failed
/// write reports an error whose message the caller appends.
pub fn default_action_cells(existed: bool, wrote_ok: bool) -> (r: (String, String))
    ensures
        r.0@ == if existed {
            "exists"@
        } else if wrote_ok {
            "created"@
        } else {
            "error"@
        },
        r.1@ == if existed {
            "no changes"@
        } else if wrote_ok {
            "default template written"@
        } else {
            ""@
        },
{
    if existed {
        ("exists".to_owned(), "no changes".to_owned())
    } else if wrote_ok {
        ("created".to_owned(), "default template written".to_owned())
    } else {
        ("error".to_owned(), "".to_owned())
    }
}

} // verus!
