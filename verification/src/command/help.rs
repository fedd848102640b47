//! The help command: a fixed description of what the bot offers.

use vstd::prelude::*;
use vstd::string::*;

verus! {

/// The help command.
pub struct HelpCommand;

impl HelpCommand {
    /// The help text shown to the caller.
    pub fn run() -> (r: String)
        ensures
            r@
                == "This bot manages invite links for the aiode bot. Use the 'overview' command to view available public and private invite links or use 'invite private' or 'invite public' to get an invite link for a private or public aiode instance."@,
    {
        String::from_str(
            "This bot manages invite links for the aiode bot. Use the 'overview' command to view available public and private invite links or use 'invite private' or 'invite public' to get an invite link for a private or public aiode instance.",
        )
    }
}

} // verus!
