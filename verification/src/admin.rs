//! The lines the admin commands print, as the command surface promises
//! them.

use vstd::prelude::*;

verus! {

/// The line printed after an allow command: names the identity when it was
/// newly added.
pub fn allow_output(added: bool, id: &String) -> (r: String)
    ensures
        added ==> r@ == "Added Device ID: "@ + id@,
        !added ==> r@ == "The given Device ID has been allowed already"@,
{
    if added {
        let mut r = String::from_str("Added Device ID: ");
        r.append(id.as_str());
        r
    } else {
        String::from_str("The given Device ID has been allowed already")
    }
}

/// The line printed after a disable command: names the identity when it was
/// present and removed.
pub fn disable_output(removed: bool, id: &String) -> (r: String)
    ensures
        removed ==> r@ == "Removed Device ID: "@ + id@,
        !removed ==> r@ == "The given Device ID has not been allowed"@,
{
    if removed {
        let mut r = String::from_str("Removed Device ID: ");
        r.append(id.as_str());
        r
    } else {
        String::from_str("The given Device ID has not been allowed")
    }
}

/// The line printed by the show command.
pub fn show_output(id: &String) -> (r: String)
    ensures
        r@ == "Device ID: "@ + id@,
{
    let mut r = String::from_str("Device ID: ");
    r.append(id.as_str());
    r
}

} // verus!
