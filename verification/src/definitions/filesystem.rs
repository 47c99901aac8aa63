//! Files below the root of a test: writing them and reading them.

use crate::args::SegmentArgs;
use crate::civilization::{is_read_failure, Civilization};
use crate::definitions::process::{not_a_string, string_argument};
use crate::definitions::{HumaneInstruction, HumaneRetriever};
use crate::errors::{HumaneInputError, HumaneInternalError, HumaneStepError};
use crate::json::{Json, JsonValue};
use vstd::prelude::*;

verus! {

/// `I have a {filename} file with the content {contents}`.
pub struct NewFile;

/// `The file {filename}`: the text of a file.
pub struct PlainFile;

/// The argument under `key` is a string that is not empty.
pub open spec fn is_name(args: SegmentArgs, key: Seq<char>) -> bool {
    args.value_of(key) matches Some(Json::String(text)) && text.len() > 0
}

/// `e` is the error of a step whose argument under `key` is no string that
/// holds something: `ArgumentRequiresValue` for an empty string, and for
/// anything else the error of an argument that is no string.
pub open spec fn not_a_name(e: HumaneStepError, args: SegmentArgs, key: Seq<char>) -> bool {
    match args.value_of(key) {
        Some(Json::String(_)) => {
            &&& e matches HumaneStepError::External(
                HumaneInputError::ArgumentRequiresValue { arg },
            )
            &&& arg@ == key
        },
        _ => not_a_string(e, args, key),
    }
}

/// The string under `key`, which must not be empty. An argument that is
/// missing or not a string is refused as `get_string` refuses it, an empty
/// string with `ArgumentRequiresValue`.
pub fn required_argument(args: &SegmentArgs, key: &str) -> (r: Result<String, HumaneStepError>)
    ensures
        match r {
            Ok(found) => is_name(*args, key@) && args.value_of(key@) == Some(
                Json::String(found@),
            ),
            Err(e) => !is_name(*args, key@) && not_a_name(e, *args, key@),
        },
{
    let text = string_argument(args, key)?;
    if text.as_str().unicode_len() == 0 {
        return Err(
            HumaneStepError::External(
                HumaneInputError::ArgumentRequiresValue { arg: key.to_string() },
            ),
        );
    }
    Ok(text)
}

impl HumaneInstruction for NewFile {
    fn segments(&self) -> (r: &'static str)
        ensures
            r@ == "I have a {filename} file with the content {contents}"@,
    {
        "I have a {filename} file with the content {contents}"
    }

    /// Writes the file. The name has to be a string that is not empty and the
    /// contents a string; where they are not, nothing is written and the
    /// error is the author's. A file that cannot be written is an internal
    /// error.
    fn run(&self, args: &SegmentArgs, civ: &mut Civilization) -> (r: Result<(), HumaneStepError>)
        ensures
            !is_name(*args, "filename"@) ==> r is Err && not_a_name(
                r->Err_0,
                *args,
                "filename"@,
            ) && *final(civ) == *old(civ),
            is_name(*args, "filename"@) && !(args.value_of("contents"@) matches Some(
                Json::String(_),
            )) ==> r is Err && not_a_string(r->Err_0, *args, "contents"@) && *final(civ) == *old(
                civ,
            ),
            is_name(*args, "filename"@) && (args.value_of("contents"@) matches Some(
                Json::String(_),
            )) && r is Err ==> r->Err_0 is Internal,
            final(civ).last_command_output == old(civ).last_command_output,
            final(civ).assigned_server_port == old(civ).assigned_server_port,
            final(civ).window_open == old(civ).window_open,
            final(civ).env_vars == old(civ).env_vars,
            final(civ).shut_down == old(civ).shut_down,
    {
        let filename = required_argument(args, "filename")?;
        let contents = string_argument(args, "contents")?;
        match civ.write_file(filename.as_str(), contents.as_str()) {
            Ok(()) => Ok(()),
            Err(msg) => Err(HumaneStepError::Internal(HumaneInternalError::Custom { msg })),
        }
    }
}

impl HumaneRetriever for PlainFile {
    fn segments(&self) -> (r: &'static str)
        ensures
            r@ == "The file {filename}"@,
    {
        "The file {filename}"
    }

    /// The text of the file. The name has to be a string that is not empty;
    /// where it is not, nothing is read. A file that cannot be read is a
    /// failed assertion that says what was wrong with it.
    fn run(&self, args: &SegmentArgs, civ: &mut Civilization) -> (r: Result<
        JsonValue,
        HumaneStepError,
    >)
        ensures
            !is_name(*args, "filename"@) ==> r is Err && not_a_name(
                r->Err_0,
                *args,
                "filename"@,
            ) && *final(civ) == *old(civ),
            is_name(*args, "filename"@) ==> match r {
                Ok(v) => v is String,
                Err(e) => e matches HumaneStepError::Assertion(failure) && is_read_failure(
                    failure,
                ),
            },
            final(civ).last_command_output == old(civ).last_command_output,
            final(civ).assigned_server_port == old(civ).assigned_server_port,
            final(civ).window_open == old(civ).window_open,
            final(civ).env_vars == old(civ).env_vars,
            final(civ).shut_down == old(civ).shut_down,
    {
        let filename = required_argument(args, "filename")?;
        match civ.read_file(filename.as_str()) {
            Ok(contents) => Ok(JsonValue::String(contents)),
            Err(e) => Err(HumaneStepError::Assertion(e)),
        }
    }
}

} // verus!
