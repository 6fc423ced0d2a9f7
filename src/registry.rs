//! Finding registered commands, and the commands that may not be changed.
use vstd::prelude::*;
use crate::resolve::{FindError, FindType};

verus! {

/// Everything that can go wrong while handling an utterance.
#[derive(Clone, Copy, PartialEq, Eq, Structural, Debug)]
pub enum CommandError {
    /// The token at this position does not read as the grammar asks.
    Parse(usize),
    /// No entity of this kind fits the reference.
    NotFound(FindType),
    /// Too many entities fit the reference to list them.
    TooManyResults,
    /// The reply picks no listed candidate.
    SelectionOutOfRange,
    /// The command may not be changed.
    ProtectedCommand,
    /// The command is protected, so it has no per-channel settings to show.
    ProtectedDetails,
    /// The chat service would not apply the channel lock.
    LockRefused,
    /// No command has this name.
    UnknownCommand,
    /// The chat service did not list the entities of this kind.
    UpstreamUnavailable(FindType),
}

impl CommandError {
    /// The message shown to the user.
    pub fn message(&self) -> (r: String)
        ensures
            r@ == error_message(*self),
    {
        match self {
            CommandError::Parse(_) => "Invalid argument value!".to_owned(),
            CommandError::NotFound(FindType::Channel) => "Could not find requested channel!".to_owned(),
            CommandError::NotFound(FindType::Role) => "Could not find requested role!".to_owned(),
            CommandError::NotFound(FindType::User) => "Could not find requested user!".to_owned(),
            CommandError::TooManyResults => "Too many results. Please be more specific.".to_owned(),
            CommandError::SelectionOutOfRange => "There is no such number on the list!".to_owned(),
            CommandError::ProtectedCommand => "Command is protected. It can't be modified!".to_owned(),
            CommandError::ProtectedDetails => "Command is protected. Enabled in every channel by default!".to_owned(),
            CommandError::LockRefused => "Could not lock the channel. Check permissions!".to_owned(),
            CommandError::UnknownCommand => "Could not find this command!".to_owned(),
            CommandError::UpstreamUnavailable(FindType::Channel) => "Could not retrieve guild channels!".to_owned(),
            CommandError::UpstreamUnavailable(FindType::Role) => "Could not retrieve guild roles!".to_owned(),
            CommandError::UpstreamUnavailable(FindType::User) => "Could not retrieve guild members!".to_owned(),
        }
    }

    /// The error that a failed lookup stands for.
    pub fn from_find(e: FindError) -> (r: CommandError)
        ensures
            r == match e {
                FindError::NotFound(k) => CommandError::NotFound(k),
                FindError::TooManyResults => CommandError::TooManyResults,
            },
    {
        match e {
            FindError::NotFound(k) => CommandError::NotFound(k),
            FindError::TooManyResults => CommandError::TooManyResults,
        }
    }
}

pub open spec fn error_message(e: CommandError) -> Seq<char> {
    match e {
        CommandError::Parse(_) => "Invalid argument value!"@,
        CommandError::NotFound(FindType::Channel) => "Could not find requested channel!"@,
        CommandError::NotFound(FindType::Role) => "Could not find requested role!"@,
        CommandError::NotFound(FindType::User) => "Could not find requested user!"@,
        CommandError::TooManyResults => "Too many results. Please be more specific."@,
        CommandError::SelectionOutOfRange => "There is no such number on the list!"@,
        CommandError::ProtectedCommand => "Command is protected. It can't be modified!"@,
        CommandError::ProtectedDetails => "Command is protected. Enabled in every channel by default!"@,
        CommandError::LockRefused => "Could not lock the channel. Check permissions!"@,
        CommandError::UnknownCommand => "Could not find this command!"@,
        CommandError::UpstreamUnavailable(FindType::Channel) => "Could not retrieve guild channels!"@,
        CommandError::UpstreamUnavailable(FindType::Role) => "Could not retrieve guild roles!"@,
        CommandError::UpstreamUnavailable(FindType::User) => "Could not retrieve guild members!"@,
    }
}

/// The commands that no one may enable, disable or otherwise change.
pub open spec fn protected_name(name: Seq<char>) -> bool {
    name == "help"@ || name == "command"@ || name == "modules"@
}

/// Whether `a` and `b` hold the same text.
pub fn same_text(a: &String, b: &str) -> (r: bool)
    ensures
        r == (a@ == b@),
{
    let owned = b.to_owned();
    *a == owned
}

/// Whether the command called `name` is protected.
pub fn is_command_protected(name: &String) -> (r: bool)
    ensures
        r == protected_name(name@),
{
    same_text(name, "help") || same_text(name, "command") || same_text(name, "modules")
}

/// The index of the first registered command called `name`.
pub fn find_command(name: &String, registered: &Vec<String>) -> (r: Result<usize, CommandError>)
    ensures
        match r {
            Ok(i) => i < registered@.len() && registered@[i as int]@ == name@ && forall|j: int|
                0 <= j < i ==> #[trigger] registered@[j]@ != name@,
            Err(e) => e == CommandError::UnknownCommand && forall|j: int|
                0 <= j < registered@.len() ==> #[trigger] registered@[j]@ != name@,
        },
{
    let mut i: usize = 0;
    while i < registered.len()
        invariant
            i <= registered@.len(),
            forall|j: int| 0 <= j < i ==> #[trigger] registered@[j]@ != name@,
        decreases registered@.len() - i,
    {
        if registered[i] == *name {
            return Ok(i);
        }
        i = i + 1;
    }
    Err(CommandError::UnknownCommand)
}

} // verus!
