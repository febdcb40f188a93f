//! Starting a mode command with the right privileges.
//!
//! Devices can only be rebound by the superuser, but a command that turns the
//! screen or talks to an input daemon has to run inside the desktop session of
//! the user who sits in front of it. This module decides how a command is
//! started; the caller starts it and does not wait for it.

use vstd::prelude::*;
use vstd::string::*;
use crate::text::{begins_with, starts_with};

verus! {

/// Who the process runs as, and whose desktop session it serves.
#[derive(Debug, PartialEq, Eq)]
pub struct PrivilegeContext {
    /// Whether the process runs as the superuser.
    pub superuser: bool,
    /// The user whose desktop session is running, where known.
    pub orig_user: Option<String>,
    /// The address of that session's message bus, where known.
    pub session_bus: Option<String>,
}

/// A privilege context as a mathematical value.
pub struct PrivilegeContextView {
    pub superuser: bool,
    pub orig_user: Option<Seq<char>>,
    pub session_bus: Option<Seq<char>>,
}

/// The view of a text that may be absent.
pub open spec fn optional_text(t: Option<String>) -> Option<Seq<char>> {
    match t {
        Some(s) => Some(s@),
        None => None,
    }
}

impl View for PrivilegeContext {
    type V = PrivilegeContextView;

    open spec fn view(&self) -> PrivilegeContextView {
        PrivilegeContextView {
            superuser: self.superuser,
            orig_user: optional_text(self.orig_user),
            session_bus: optional_text(self.session_bus),
        }
    }
}

/// A process to start: a program and its arguments.
#[derive(Debug, PartialEq, Eq)]
pub struct Invocation {
    pub program: String,
    pub args: Vec<String>,
}

/// An invocation as a mathematical value.
pub struct InvocationView {
    pub program: Seq<char>,
    pub args: Seq<Seq<char>>,
}

impl View for Invocation {
    type V = InvocationView;

    open spec fn view(&self) -> InvocationView {
        InvocationView {
            program: self.program@,
            args: self.args@.map_values(|s: String| s@),
        }
    }
}

/// Why a command could not be started.
#[derive(Debug, Clone, Copy, PartialEq, Eq, Structural)]
pub enum SpawnError {
    /// The command has to run as the desktop user, and the user's name or the
    /// session bus address is not known.
    MissingContext,
}

/// The command runs as the process itself: the process is no superuser, or
/// the command asks for `sudo` in its own words.
pub open spec fn runs_directly(command: Seq<char>, superuser: bool) -> bool {
    !superuser || begins_with(command, "sudo "@)
}

/// `command` handed to a shell.
pub open spec fn shell_invocation(command: Seq<char>) -> InvocationView {
    InvocationView { program: "bash"@, args: seq!["-c"@, command] }
}

/// `command` handed to a shell that runs as `user`, with the address of the
/// user's session bus in its environment.
pub open spec fn deescalated_invocation(
    command: Seq<char>,
    user: Seq<char>,
    session_bus: Seq<char>,
) -> InvocationView {
    InvocationView {
        program: "sudo"@,
        args: seq![
            "-u"@,
            user,
            "DBUS_SESSION_BUS_ADDRESS="@ + session_bus,
            "bash"@,
            "-c"@,
            command,
        ],
    }
}

/// How `command` is started in the context `context`.
pub open spec fn dispatch(command: Seq<char>, context: PrivilegeContextView) -> Result<
    InvocationView,
    SpawnError,
> {
    if runs_directly(command, context.superuser) {
        Ok(shell_invocation(command))
    } else {
        match (context.orig_user, context.session_bus) {
            (Some(user), Some(session_bus)) => Ok(
                deescalated_invocation(command, user, session_bus),
            ),
            _ => Err(SpawnError::MissingContext),
        }
    }
}

/// An invocation result as a mathematical value.
pub open spec fn dispatch_view(r: Result<Invocation, SpawnError>) -> Result<
    InvocationView,
    SpawnError,
> {
    match r {
        Ok(invocation) => Ok(invocation@),
        Err(e) => Err(e),
    }
}

/// Decides how `command` is started. Run by anyone but the superuser, or
/// beginning with `sudo `, it goes to a shell as it is. Run by the superuser
/// otherwise, it goes to a shell of the desktop user, which needs the user's
/// name and the session bus address.
pub fn smart_execute(command: &str, context: &PrivilegeContext) -> (r: Result<
    Invocation,
    SpawnError,
>)
    ensures
        dispatch_view(r) == dispatch(command@, context@),
{
    if !context.superuser || starts_with(command, "sudo ") {
        let mut args: Vec<String> = Vec::new();
        args.push(String::from_str("-c"));
        args.push(String::from_str(command));
        let r = Invocation { program: String::from_str("bash"), args };
        proof {
            assert(r@.args =~= seq!["-c"@, command@]);
        }
        return Ok(r);
    }
    match (&context.orig_user, &context.session_bus) {
        (Some(user), Some(session_bus)) => {
            let mut address = String::from_str("DBUS_SESSION_BUS_ADDRESS=");
            address.append(session_bus.as_str());
            let mut args: Vec<String> = Vec::new();
            args.push(String::from_str("-u"));
            args.push(user.clone());
            args.push(address);
            args.push(String::from_str("bash"));
            args.push(String::from_str("-c"));
            args.push(String::from_str(command));
            let r = Invocation { program: String::from_str("sudo"), args };
            proof {
                assert(r@.args =~= deescalated_invocation(command@, user@, session_bus@).args);
            }
            Ok(r)
        },
        _ => Err(SpawnError::MissingContext),
    }
}

} // verus!
