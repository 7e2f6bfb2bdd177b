//! How the browser is started.

use vstd::prelude::*;
use vstd::string::*;

verus! {

/// The command that starts the browser for profile `name`: through `setsid`,
/// so that it gets a session and a process group of its own, with no remote
/// instance and the profile selected.
pub open spec fn launch_command(name: Seq<char>) -> Seq<Seq<char>> {
    seq!["setsid"@, "-f"@, "firefox"@, "--no-remote"@, "-P"@, name]
}

/// Builds the command that starts the browser for profile `name`: the
/// program first, then its arguments.
pub fn launch_firefox(name: &str) -> (r: Vec<String>)
    ensures
        r.deep_view() == launch_command(name@),
{
    let mut command: Vec<String> = Vec::new();
    command.push(String::from_str("setsid"));
    command.push(String::from_str("-f"));
    command.push(String::from_str("firefox"));
    command.push(String::from_str("--no-remote"));
    command.push(String::from_str("-P"));
    command.push(String::from_str(name));
    assert(command.deep_view() =~= launch_command(name@));
    command
}

} // verus!
