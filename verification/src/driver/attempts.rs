//! What is tried again, and where the program goes.

use crate::text::{cat, decimal, push_decimal, push_wide};
use vstd::prelude::*;

verus! {

/// How often a temporary object file is created before that is given up.
pub const OBJECT_ATTEMPTS: usize = 16;

/// How often a tool is started before that is given up.
pub const START_ATTEMPTS: usize = 5;

/// How creating a file that must not exist went.
#[derive(Debug, Clone, Copy, PartialEq, Eq)]
pub enum Creation<'a> {
    Created,
    /// A file of that name exists.
    Taken,
    Failed(&'a str),
}

/// What follows an attempt to create the object file.
#[derive(Debug)]
pub enum ObjectStep {
    Use,
    Again,
    GiveUp(String),
}

/// What follows an attempt to create the object file, where `attempts` counts
/// the attempts up to this one. Only a taken name is worth another.
pub fn after_creation(attempts: usize, path: &str, outcome: Creation<'_>) -> (r: ObjectStep)
    ensures
        match outcome {
            Creation::Created => r is Use,
            Creation::Taken => if attempts < OBJECT_ATTEMPTS {
                r is Again
            } else {
                r matches ObjectStep::GiveUp(e) && e@ == "could not create a temporary object file"@
            },
            Creation::Failed(e) => r matches ObjectStep::GiveUp(m) && m@
                == "failed to create a temporary object file at "@ + path@ + ": "@ + e@,
        },
{
    match outcome {
        Creation::Created => ObjectStep::Use,
        Creation::Taken => if attempts < OBJECT_ATTEMPTS {
            ObjectStep::Again
        } else {
            ObjectStep::GiveUp("could not create a temporary object file".to_owned())
        },
        Creation::Failed(e) => {
            let mut message = cat("failed to create a temporary object file at ", path);
            message.append(": ");
            message.append(e);
            ObjectStep::GiveUp(message)
        },
    }
}

/// The name of a temporary object file.
pub open spec fn object_name_text(name: Seq<char>, process: nat, time: nat, count: nat) -> Seq<
    char,
> {
    "mux-"@ + name + "-"@ + decimal(process) + "-"@ + decimal(time) + "-"@ + decimal(count) + ".o"@
}

/// The name of a temporary object file: the program's, the process, the time
/// and a running number keep compilations apart.
pub fn object_name(name: &str, process: u32, time: u128, count: u64) -> (r: String)
    ensures
        r@ == object_name_text(name@, process as nat, time as nat, count as nat),
{
    let mut out = cat("mux-", name);
    out.append("-");
    push_decimal(&mut out, process as u64);
    out.append("-");
    push_wide(&mut out, time);
    out.append("-");
    push_decimal(&mut out, count);
    out.append(".o");
    out
}

/// Whether a tool that failed to start is started once more. One that was just
/// written can fail to start at first.
pub fn starts_again(failures: usize) -> (r: bool)
    ensures
        r == (failures < START_ATTEMPTS),
{
    failures < START_ATTEMPTS
}

/// Where a program goes.
#[derive(Debug, Clone, Copy, PartialEq, Eq, Structural)]
pub enum ExecutablePlace {
    /// To the path that was asked for.
    AsGiven,
    /// To the path that was asked for, in the working directory.
    Here,
    /// Beside its source, without the extension.
    BesideSource,
}

/// Where a program goes, where `output` says of the path that was asked for
/// whether it names a directory. A bare name is run from the working
/// directory, not looked up as a command.
pub fn executable_place(output: Option<bool>) -> (r: ExecutablePlace)
    ensures
        r == (match output {
            Some(true) => ExecutablePlace::AsGiven,
            Some(false) => ExecutablePlace::Here,
            None => ExecutablePlace::BesideSource,
        }),
{
    match output {
        Some(directory) => if directory {
            ExecutablePlace::AsGiven
        } else {
            ExecutablePlace::Here
        },
        None => ExecutablePlace::BesideSource,
    }
}

} // verus!
