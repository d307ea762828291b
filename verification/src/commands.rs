//! The commands that members can issue, and how a command's name is routed.

use vstd::prelude::*;
use crate::text::{chars_of, same_chars};

verus! {

/// A command known to the dispatcher.
#[derive(Clone, Copy, Debug, PartialEq, Eq, Structural)]
pub enum Command {
    Invite,
    CreatorChannel,
}

/// The command that goes by `name`, if there is one.
pub open spec fn command_named(name: Seq<char>) -> Option<Command> {
    if name == "invite"@ {
        Some(Command::Invite)
    } else if name == "creator-channel"@ {
        Some(Command::CreatorChannel)
    } else {
        None
    }
}

/// Routes the name of an issued command: `Some` for a known command, `None`
/// for any other name.
pub fn route_command(name: &str) -> (route: Option<Command>)
    ensures
        route == command_named(name@),
{
    let given = chars_of(name);
    let invite = chars_of("invite");
    let creator_channel = chars_of("creator-channel");
    if same_chars(&given, &invite) {
        Some(Command::Invite)
    } else if same_chars(&given, &creator_channel) {
        Some(Command::CreatorChannel)
    } else {
        None
    }
}

impl Command {
    /// The name under which the command is registered.
    pub fn name(&self) -> (name: &'static str)
        ensures
            command_named(name@) == Some(*self),
    {
        match self {
            Command::Invite => "invite",
            Command::CreatorChannel => {
                proof {
                    reveal_strlit("invite");
                    reveal_strlit("creator-channel");
                    assert("invite"@.len() == 6);
                    assert("creator-channel"@.len() == 15);
                }
                "creator-channel"
            },
        }
    }
}

} // verus!
