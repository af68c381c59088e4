//! English UI strings.

use vstd::prelude::*;
use crate::text::{concat, owned, str_eq};

verus! {

broadcast use vstd::string::group_string_axioms;

/// The clock's default strftime format.
pub const DATE_FORMAT: &'static str = "%a, %d %h %Y - %H:%M";

/// The text shown for a message id; an unknown id is shown as itself.
pub open spec fn text_for(id: Seq<char>) -> Seq<char> {
    if id == "title_command"@ {
        "Change session command"@
    } else if id == "title_power"@ {
        "Power options"@
    } else if id == "title_session"@ {
        "Change session"@
    } else if id == "action_reset"@ {
        "Reset"@
    } else if id == "action_command"@ {
        "Change command"@
    } else if id == "action_session"@ {
        "Choose session"@
    } else if id == "action_power"@ {
        "Power"@
    } else if id == "date"@ {
        DATE_FORMAT@
    } else if id == "username"@ {
        "Username:"@
    } else if id == "wait"@ {
        "Please wait..."@
    } else if id == "failed"@ {
        "Authentication failed, please try again."@
    } else if id == "new_command"@ {
        "New command:"@
    } else if id == "shutdown"@ {
        "Shut down"@
    } else if id == "reboot"@ {
        "Reboot"@
    } else if id == "command_missing"@ {
        "No command configured"@
    } else if id == "command_exited"@ {
        "Command exited with"@
    } else if id == "command_failed"@ {
        "Command failed"@
    } else if id == "status_command"@ {
        "CMD"@
    } else if id == "status_session"@ {
        "SESS"@
    } else if id == "status_caps"@ {
        "CAPS LOCK"@
    } else {
        id
    }
}

/// The text shown for a message id; an unknown id is shown as itself.
pub fn get(id: &str) -> (r: String)
    ensures
        r@ == text_for(id@),
{
    if str_eq(id, "title_command") {
        owned("Change session command")
    } else if str_eq(id, "title_power") {
        owned("Power options")
    } else if str_eq(id, "title_session") {
        owned("Change session")
    } else if str_eq(id, "action_reset") {
        owned("Reset")
    } else if str_eq(id, "action_command") {
        owned("Change command")
    } else if str_eq(id, "action_session") {
        owned("Choose session")
    } else if str_eq(id, "action_power") {
        owned("Power")
    } else if str_eq(id, "date") {
        owned(DATE_FORMAT)
    } else if str_eq(id, "username") {
        owned("Username:")
    } else if str_eq(id, "wait") {
        owned("Please wait...")
    } else if str_eq(id, "failed") {
        owned("Authentication failed, please try again.")
    } else if str_eq(id, "new_command") {
        owned("New command:")
    } else if str_eq(id, "shutdown") {
        owned("Shut down")
    } else if str_eq(id, "reboot") {
        owned("Reboot")
    } else if str_eq(id, "command_missing") {
        owned("No command configured")
    } else if str_eq(id, "command_exited") {
        owned("Command exited with")
    } else if str_eq(id, "command_failed") {
        owned("Command failed")
    } else if str_eq(id, "status_command") {
        owned("CMD")
    } else if str_eq(id, "status_session") {
        owned("SESS")
    } else if str_eq(id, "status_caps") {
        owned("CAPS LOCK")
    } else {
        owned(id)
    }
}

/// The title of the login box.
pub fn title_authenticate(hostname: &str) -> (r: String)
    ensures
        r@ == "Authenticate into "@ + hostname@,
{
    concat("Authenticate into ", hostname)
}

} // verus!
