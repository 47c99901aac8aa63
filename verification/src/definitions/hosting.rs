//! Serving a directory of a test over HTTP.

use crate::args::SegmentArgs;
use crate::civilization::Civilization;
use crate::definitions::process::{not_a_string, string_argument};
use crate::definitions::HumaneInstruction;
use crate::errors::{HumaneInternalError, HumaneStepError};
use crate::json::Json;
use vstd::prelude::*;

verus! {

/// `I serve the directory {dir}`.
pub struct HostDir;

/// `I serve the directory {dir} and debug`: serves the directory and keeps it
/// up for a minute.
pub struct DebugHostDir;

/// How often a port is tried before the server is given up.
pub const MAX_BIND_ATTEMPTS: u8 = 5;

/// How long the server is given to come up, in milliseconds.
pub const SETTLE_MILLIS: u64 = 100;

/// How long a directory that is debugged stays up, in milliseconds.
pub const DEBUG_MILLIS: u64 = 60000;

/// Where the start of a server stands.
#[derive(Debug, Clone, Copy, PartialEq, Eq, Structural)]
pub enum HostProgress {
    /// The server runs.
    Running,
    /// The port could not be bound and another one is tried; so many attempts
    /// have failed.
    Retry(u8),
    /// The port could not be bound and no other one is tried.
    GivenUp,
}

/// What an attempt to bind comes to after `failed` attempts have failed
/// before it: the server runs if the port was bound; otherwise another port is
/// tried unless this was the last attempt.
pub fn bind_progress(failed: u8, bound: bool) -> (r: HostProgress)
    requires
        failed < MAX_BIND_ATTEMPTS,
    ensures
        r == if bound {
            HostProgress::Running
        } else if failed + 1 < MAX_BIND_ATTEMPTS {
            HostProgress::Retry((failed + 1) as u8)
        } else {
            HostProgress::GivenUp
        },
{
    if bound {
        HostProgress::Running
    } else if failed + 1 < MAX_BIND_ATTEMPTS {
        HostProgress::Retry(failed + 1)
    } else {
        HostProgress::GivenUp
    }
}

/// `e` is the error of a server that could not be started: no port was
/// available, or none of those that were tried could be bound.
pub open spec fn no_server(e: HumaneStepError) -> bool {
    e matches HumaneStepError::Internal(HumaneInternalError::Custom { msg }) && (msg@
        == "No port was available"@ || msg@ == "No port could be bound"@)
}

/// The internal error with the message `text`.
fn internal(text: &str) -> (e: HumaneStepError)
    ensures
        e matches HumaneStepError::Internal(HumaneInternalError::Custom { msg }) && msg@ == text@,
{
    HumaneStepError::Internal(HumaneInternalError::Custom { msg: text.to_string() })
}

/// Serves a directory of the test on the port of the test. A port that cannot
/// be bound is given up for another, five times at most; then, or when no port
/// is available, the step fails with an internal error. Once the server runs
/// it is given a moment to come up, and the test has a port.
pub fn host(dir: &String, civ: &mut Civilization) -> (r: Result<(), HumaneStepError>)
    ensures
        match r {
            Ok(()) => final(civ).assigned_server_port is Some,
            Err(e) => no_server(e) && final(civ).assigned_server_port is None,
        },
        final(civ).last_command_output == old(civ).last_command_output,
        final(civ).window_open == old(civ).window_open,
        final(civ).env_vars == old(civ).env_vars,
        final(civ).shut_down == old(civ).shut_down,
{
    let mut failed: u8 = 0;
    loop
        invariant
            failed < MAX_BIND_ATTEMPTS,
            civ.last_command_output == old(civ).last_command_output,
            civ.window_open == old(civ).window_open,
            civ.env_vars == old(civ).env_vars,
            civ.shut_down == old(civ).shut_down,
        decreases MAX_BIND_ATTEMPTS - failed,
    {
        let port = match civ.ensure_port() {
            Some(port) => port,
            None => {
                return Err(internal("No port was available"));
            },
        };
        let bound = civ.backend.serve_directory(dir.as_str(), port);
        match bind_progress(failed, bound) {
            HostProgress::Running => {
                civ.backend.pause(SETTLE_MILLIS);
                return Ok(());
            },
            HostProgress::Retry(now_failed) => {
                civ.purge_port();
                failed = now_failed;
            },
            HostProgress::GivenUp => {
                civ.purge_port();
                return Err(internal("No port could be bound"));
            },
        }
    }
}

impl HumaneInstruction for HostDir {
    fn segments(&self) -> (r: &'static str)
        ensures
            r@ == "I serve the directory {dir}"@,
    {
        "I serve the directory {dir}"
    }

    /// Serves the directory. The directory has to be a string; where it is
    /// not, nothing is started.
    fn run(&self, args: &SegmentArgs, civ: &mut Civilization) -> (r: Result<(), HumaneStepError>)
        ensures
            match args.value_of("dir"@) {
                Some(Json::String(_)) => match r {
                    Ok(()) => final(civ).assigned_server_port is Some,
                    Err(e) => no_server(e) && final(civ).assigned_server_port is None,
                },
                _ => r matches Err(e) && not_a_string(e, *args, "dir"@) && *final(civ) == *old(
                    civ,
                ),
            },
            final(civ).last_command_output == old(civ).last_command_output,
            final(civ).window_open == old(civ).window_open,
            final(civ).env_vars == old(civ).env_vars,
            final(civ).shut_down == old(civ).shut_down,
    {
        let dir = string_argument(args, "dir")?;
        host(&dir, civ)
    }
}

impl HumaneInstruction for DebugHostDir {
    fn segments(&self) -> (r: &'static str)
        ensures
            r@ == "I serve the directory {dir} and debug"@,
    {
        "I serve the directory {dir} and debug"
    }

    /// Serves the directory and keeps the test waiting for a minute, so that
    /// the directory can be looked at.
    fn run(&self, args: &SegmentArgs, civ: &mut Civilization) -> (r: Result<(), HumaneStepError>)
        ensures
            match args.value_of("dir"@) {
                Some(Json::String(_)) => match r {
                    Ok(()) => final(civ).assigned_server_port is Some,
                    Err(e) => no_server(e) && final(civ).assigned_server_port is None,
                },
                _ => r matches Err(e) && not_a_string(e, *args, "dir"@) && *final(civ) == *old(
                    civ,
                ),
            },
            final(civ).last_command_output == old(civ).last_command_output,
            final(civ).window_open == old(civ).window_open,
            final(civ).env_vars == old(civ).env_vars,
            final(civ).shut_down == old(civ).shut_down,
    {
        let dir = string_argument(args, "dir")?;
        host(&dir, civ)?;
        civ.backend.pause(DEBUG_MILLIS);
        Ok(())
    }
}

} // verus!
