//! Messages the greeter core reports to the user.

use vstd::prelude::*;
use crate::text::{owned, str_eq};

verus! {

broadcast use vstd::string::group_string_axioms;

/// The text of a message id; an unknown id is shown as itself.
pub open spec fn message_for(id: Seq<char>) -> Seq<char> {
    if id == "failed"@ {
        "Authentication failed, please try again."@
    } else if id == "command_missing"@ {
        "No command configured"@
    } else if id == "command_exited"@ {
        "Command exited with"@
    } else if id == "command_failed"@ {
        "Command failed"@
    } else {
        id
    }
}

/// The text of a message id; an unknown id is shown as itself.
pub fn get(id: &str) -> (r: String)
    ensures
        r@ == message_for(id@),
{
    if str_eq(id, "failed") {
        owned("Authentication failed, please try again.")
    } else if str_eq(id, "command_missing") {
        owned("No command configured")
    } else if str_eq(id, "command_exited") {
        owned("Command exited with")
    } else if str_eq(id, "command_failed") {
        owned("Command failed")
    } else {
        owned(id)
    }
}

} // verus!
