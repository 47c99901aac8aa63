//! Running commands: the environment of a command, the command itself, and
//! what it wrote.

use crate::args::SegmentArgs;
use crate::civilization::{Civilization, CommandOutput, CommandStatus};
use crate::definitions::{HumaneInstruction, HumaneRetriever};
use crate::errors::{HumaneInputError, HumaneStepError, HumaneTestFailure};
use crate::json::{Json, JsonValue};
use vstd::prelude::*;

verus! {

/// `I have the environment variable {name} set to {value}`.
pub struct EnvVar;

/// `I run {command}`: the command has to succeed.
pub struct Run;

/// `I run {command} and expect it to fail`: the command has to fail.
pub struct FailingRun;

/// `stdout`: what the last command wrote to its standard output.
pub struct StdOut;

/// `stderr`: what the last command wrote to its standard error.
pub struct StdErr;

/// What stands for an output where no command has run.
pub open spec fn shown_output(output: Option<Seq<char>>) -> Seq<char> {
    match output {
        Some(text) => text,
        None => "<empty>"@,
    }
}

/// The report of a command: a heading with how it ended, the command, and
/// what it wrote.
pub open spec fn command_report(
    heading: Seq<char>,
    status: Seq<char>,
    command: Seq<char>,
    stdout: Option<Seq<char>>,
    stderr: Option<Seq<char>>,
) -> Seq<char> {
    heading + " ("@ + status + ")\nCommand: "@ + command + "\nstdout:\n---\n"@ + shown_output(
        stdout,
    ) + "\n---\nstderr:\n---\n"@ + shown_output(stderr) + "\n---"@
}

/// What a command wrote to its standard output, if a command has run.
pub open spec fn stdout_of(output: Option<CommandOutput>) -> Option<Seq<char>> {
    match output {
        Some(o) => Some(o.stdout@),
        None => None,
    }
}

/// What a command wrote to its standard error, if a command has run.
pub open spec fn stderr_of(output: Option<CommandOutput>) -> Option<Seq<char>> {
    match output {
        Some(o) => Some(o.stderr@),
        None => None,
    }
}

/// The report of a command.
fn report(heading: &str, status: &CommandStatus, command: &str, output: &Option<CommandOutput>) -> (r:
    String)
    ensures
        r@ == command_report(
            heading@,
            status.text@,
            command@,
            stdout_of(*output),
            stderr_of(*output),
        ),
{
    let mut out = String::new();
    out.append(heading);
    out.append(" (");
    out.append(status.text.as_str());
    out.append(")\nCommand: ");
    out.append(command);
    out.append("\nstdout:\n---\n");
    match output {
        Some(o) => out.append(o.stdout.as_str()),
        None => out.append("<empty>"),
    }
    out.append("\n---\nstderr:\n---\n");
    match output {
        Some(o) => out.append(o.stderr.as_str()),
        None => out.append("<empty>"),
    }
    out.append("\n---");
    assert(out@ =~= command_report(
        heading@,
        status.text@,
        command@,
        stdout_of(*output),
        stderr_of(*output),
    ));
    out
}

/// What a command that had to succeed comes to: nothing if it succeeded, a
/// failure with its report otherwise.
pub fn run_verdict(command: &str, status: &CommandStatus, output: &Option<CommandOutput>) -> (r:
    Result<(), HumaneTestFailure>)
    ensures
        if status.success {
            r is Ok
        } else {
            r matches Err(HumaneTestFailure::Custom { msg }) && msg@ == command_report(
                "Failed to run command"@,
                status.text@,
                command@,
                stdout_of(*output),
                stderr_of(*output),
            )
        },
{
    if status.success {
        Ok(())
    } else {
        Err(
            HumaneTestFailure::Custom {
                msg: report("Failed to run command", status, command, output),
            },
        )
    }
}

/// What a command that had to fail comes to: nothing if it failed, a failure
/// with its report otherwise.
pub fn failing_run_verdict(
    command: &str,
    status: &CommandStatus,
    output: &Option<CommandOutput>,
) -> (r: Result<(), HumaneTestFailure>)
    ensures
        if !status.success {
            r is Ok
        } else {
            r matches Err(HumaneTestFailure::Custom { msg }) && msg@ == command_report(
                "Command ran successfully, but should not have"@,
                status.text@,
                command@,
                stdout_of(*output),
                stderr_of(*output),
            )
        },
{
    if !status.success {
        Ok(())
    } else {
        Err(
            HumaneTestFailure::Custom {
                msg: report(
                    "Command ran successfully, but should not have",
                    status,
                    command,
                    output,
                ),
            },
        )
    }
}

/// `e` is the error of a step whose argument under `key` is no string:
/// `NonexistentArgument`, with the names that are bound, where nothing is
/// bound to `key`, and `IncorrectArgumentType`, with the type that was found,
/// where what is bound is not a string.
pub open spec fn not_a_string(e: HumaneStepError, args: SegmentArgs, key: Seq<char>) -> bool {
    e matches HumaneStepError::External(inner) && match args.value_of(key) {
        None => {
            &&& inner matches HumaneInputError::NonexistentArgument { arg, has }
            &&& arg@ == key
            &&& has@ == args.known_names()
        },
        Some(found) => {
            &&& !(found is String)
            &&& inner matches HumaneInputError::IncorrectArgumentType { arg, was, expected }
            &&& arg@ == key
            &&& was@ == crate::args::argument_type(found)
            &&& expected@ == "string"@
        },
    }
}

/// `e` is the failure of a step that ran `command`: the command could not be
/// run, and what an earlier command wrote is kept; or it ran and ended
/// otherwise than the step expects, and the failure is its report under
/// `heading`, with what it wrote.
pub open spec fn command_failed(
    e: HumaneStepError,
    heading: Seq<char>,
    command: Seq<char>,
    before: Option<CommandOutput>,
    after: Option<CommandOutput>,
) -> bool {
    &&& e matches HumaneStepError::Assertion(HumaneTestFailure::Custom { msg })
    &&& {
        ||| msg@ == crate::civilization::failed_to_run(command) && after == before
        ||| after is Some && exists|status: Seq<char>|
            msg@ == #[trigger] command_report(
                heading,
                status,
                command,
                stdout_of(after),
                stderr_of(after),
            )
    }
}

/// The string under `key`, or the error of the step that has none.
pub fn string_argument(args: &SegmentArgs, key: &str) -> (r: Result<String, HumaneStepError>)
    ensures
        match r {
            Ok(text) => args.value_of(key@) == Some(Json::String(text@)),
            Err(e) => e is External && !(args.value_of(key@) matches Some(Json::String(_)))
                && not_a_string(e, *args, key@),
        },
{
    match args.get_string(key) {
        Ok(text) => Ok(text),
        Err(e) => Err(HumaneStepError::External(e)),
    }
}

impl HumaneInstruction for EnvVar {
    fn segments(&self) -> (r: &'static str)
        ensures
            r@ == "I have the environment variable {name} set to {value}"@,
    {
        "I have the environment variable {name} set to {value}"
    }

    /// Sets the variable for the commands that run from now on. Both
    /// arguments have to be strings; where one is not, nothing is set.
    fn run(&self, args: &SegmentArgs, civ: &mut Civilization) -> (r: Result<(), HumaneStepError>)
        ensures
            match (args.value_of("name"@), args.value_of("value"@)) {
                (Some(Json::String(name)), Some(Json::String(value))) => {
                    &&& r is Ok
                    &&& crate::options::pairs_view(final(civ).env_vars@)
                        == crate::civilization::with_variable(
                        crate::options::pairs_view(old(civ).env_vars@),
                        name,
                        value,
                    )
                },
                (Some(Json::String(_)), _) => r matches Err(e) && not_a_string(
                    e,
                    *args,
                    "value"@,
                ) && *final(civ) == *old(civ),
                _ => r matches Err(e) && not_a_string(e, *args, "name"@) && *final(civ) == *old(
                    civ,
                ),
            },
    {
        let env_name = string_argument(args, "name")?;
        let env_value = string_argument(args, "value")?;
        civ.set_env(env_name, env_value);
        Ok(())
    }
}

impl HumaneInstruction for Run {
    fn segments(&self) -> (r: &'static str)
        ensures
            r@ == "I run {command}"@,
    {
        "I run {command}"
    }

    /// Runs the command and keeps what it wrote. The step fails if the command
    /// is not a string, cannot be run or does not succeed.
    fn run(&self, args: &SegmentArgs, civ: &mut Civilization) -> (r: Result<(), HumaneStepError>)
        ensures
            match args.value_of("command"@) {
                Some(Json::String(command)) => match r {
                    Ok(()) => final(civ).last_command_output is Some,
                    Err(e) => command_failed(
                        e,
                        "Failed to run command"@,
                        command,
                        old(civ).last_command_output,
                        final(civ).last_command_output,
                    ),
                },
                _ => r matches Err(e) && not_a_string(e, *args, "command"@) && *final(civ)
                    == *old(civ),
            },
            final(civ).assigned_server_port == old(civ).assigned_server_port,
            final(civ).window_open == old(civ).window_open,
            final(civ).env_vars == old(civ).env_vars,
            final(civ).shut_down == old(civ).shut_down,
    {
        let command = string_argument(args, "command")?;
        let status = match civ.run_command(command.clone()) {
            Ok(status) => status,
            Err(e) => {
                return Err(HumaneStepError::Assertion(e));
            },
        };
        match run_verdict(command.as_str(), &status, &civ.last_command_output) {
            Ok(()) => Ok(()),
            Err(e) => Err(HumaneStepError::Assertion(e)),
        }
    }
}

impl HumaneInstruction for FailingRun {
    fn segments(&self) -> (r: &'static str)
        ensures
            r@ == "I run {command} and expect it to fail"@,
    {
        "I run {command} and expect it to fail"
    }

    /// Runs the command and keeps what it wrote. The step fails if the command
    /// is not a string, cannot be run or succeeds.
    fn run(&self, args: &SegmentArgs, civ: &mut Civilization) -> (r: Result<(), HumaneStepError>)
        ensures
            match args.value_of("command"@) {
                Some(Json::String(command)) => match r {
                    Ok(()) => final(civ).last_command_output is Some,
                    Err(e) => command_failed(
                        e,
                        "Command ran successfully, but should not have"@,
                        command,
                        old(civ).last_command_output,
                        final(civ).last_command_output,
                    ),
                },
                _ => r matches Err(e) && not_a_string(e, *args, "command"@) && *final(civ)
                    == *old(civ),
            },
            final(civ).assigned_server_port == old(civ).assigned_server_port,
            final(civ).window_open == old(civ).window_open,
            final(civ).env_vars == old(civ).env_vars,
            final(civ).shut_down == old(civ).shut_down,
    {
        let command = string_argument(args, "command")?;
        let status = match civ.run_command(command.clone()) {
            Ok(status) => status,
            Err(e) => {
                return Err(HumaneStepError::Assertion(e));
            },
        };
        match failing_run_verdict(command.as_str(), &status, &civ.last_command_output) {
            Ok(()) => Ok(()),
            Err(e) => Err(HumaneStepError::Assertion(e)),
        }
    }
}

impl HumaneRetriever for StdOut {
    fn segments(&self) -> (r: &'static str)
        ensures
            r@ == "stdout"@,
    {
        "stdout"
    }

    /// What the last command wrote to its standard output; a failed assertion
    /// if no command has run.
    fn run(&self, args: &SegmentArgs, civ: &mut Civilization) -> (r: Result<
        JsonValue,
        HumaneStepError,
    >)
        ensures
            *final(civ) == *old(civ),
            match old(civ).last_command_output {
                Some(output) => r matches Ok(v) && v@ == Json::String(output.stdout@),
                None => r matches Err(HumaneStepError::Assertion(HumaneTestFailure::Custom { msg }))
                    && msg@ == "no stdout exists"@,
            },
    {
        match &civ.last_command_output {
            Some(output) => Ok(JsonValue::String(output.stdout.clone())),
            None => Err(
                HumaneStepError::Assertion(
                    HumaneTestFailure::Custom { msg: "no stdout exists".to_string() },
                ),
            ),
        }
    }
}

impl HumaneRetriever for StdErr {
    fn segments(&self) -> (r: &'static str)
        ensures
            r@ == "stderr"@,
    {
        "stderr"
    }

    /// What the last command wrote to its standard error; a failed assertion
    /// if no command has run.
    fn run(&self, args: &SegmentArgs, civ: &mut Civilization) -> (r: Result<
        JsonValue,
        HumaneStepError,
    >)
        ensures
            *final(civ) == *old(civ),
            match old(civ).last_command_output {
                Some(output) => r matches Ok(v) && v@ == Json::String(output.stderr@),
                None => r matches Err(HumaneStepError::Assertion(HumaneTestFailure::Custom { msg }))
                    && msg@ == "no stderr exists"@,
            },
    {
        match &civ.last_command_output {
            Some(output) => Ok(JsonValue::String(output.stderr.clone())),
            None => Err(
                HumaneStepError::Assertion(
                    HumaneTestFailure::Custom { msg: "no stderr exists".to_string() },
                ),
            ),
        }
    }
}

} // verus!
