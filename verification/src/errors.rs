//! What can go wrong: mistakes in a test file, failures of the environment, and
//! expectations that were not met.

use crate::steps::{HumaneTestStep, Step};
use vstd::prelude::*;

verus! {

/// A mistake in what the author of a test wrote.
#[derive(Debug, PartialEq)]
#[allow(inconsistent_fields)]
pub enum HumaneInputError {
    NonexistentArgument { arg: String, has: String },
    IncorrectArgumentType { arg: String, was: String, expected: String },
    ArgumentRequiresValue { arg: String },
    ParseError(String),
    UnclosedValue { expected: char },
    InvalidRef { input: String, closest: String },
    CyclicRef { input: String },
    DuplicateName { path_one: String, path_two: String, name: String },
    NonexistentStep,
    StepRequirementsNotMet { reason: String },
    StepError { reason: String },
}

/// A failure of the environment in which a step ran.
#[derive(Debug, PartialEq)]
pub enum HumaneInternalError {
    Custom { msg: String },
    PagebrowseError(String),
}

/// An expectation of a test that was not met.
#[derive(Debug, PartialEq)]
pub enum HumaneTestFailure {
    Custom { msg: String },
    BrowserJavascriptErr { msg: String, logs: String },
}

/// Why a step failed.
#[derive(Debug, PartialEq)]
pub enum HumaneStepError {
    External(HumaneInputError),
    Internal(HumaneInternalError),
    Assertion(HumaneTestFailure),
}

/// The message of an input error.
pub open spec fn input_error_text(e: HumaneInputError) -> Seq<char> {
    match e {
        HumaneInputError::NonexistentArgument { arg, has } => "Argument "@ + arg@
            + " was not supplied. (have ["@ + has@ + "])"@,
        HumaneInputError::IncorrectArgumentType { arg, was, expected } => "Argument "@ + arg@
            + " expected to be a "@ + expected@ + ", but is a "@ + was@,
        HumaneInputError::ArgumentRequiresValue { arg } => "Argument "@ + arg@
            + " requires a value, cannot be empty"@,
        HumaneInputError::ParseError(inner) => "yaml failed to parse: "@ + inner@,
        HumaneInputError::UnclosedValue { expected } => "unclosed argument, expected a "@
            + seq![expected] + " character"@,
        HumaneInputError::InvalidRef { input, closest } => "invalid reference: "@ + input@
            + ", closest match: "@ + closest@,
        HumaneInputError::CyclicRef { input } => "cyclic reference: "@ + input@,
        HumaneInputError::DuplicateName { path_one, path_two, name } => "test name "@ + name@
            + " is used by both "@ + path_one@ + " and "@ + path_two@,
        HumaneInputError::NonexistentStep => "step does not exist"@,
        HumaneInputError::StepRequirementsNotMet { reason } => "step requirements were not met: "@
            + reason@,
        HumaneInputError::StepError { reason } => "step failed: "@ + reason@,
    }
}

/// The message of an internal error.
pub open spec fn internal_error_text(e: HumaneInternalError) -> Seq<char> {
    match e {
        HumaneInternalError::Custom { msg } => "Test error: "@ + msg@,
        HumaneInternalError::PagebrowseError(inner) => inner@,
    }
}

/// The message of a failed expectation.
pub open spec fn test_failure_text(e: HumaneTestFailure) -> Seq<char> {
    match e {
        HumaneTestFailure::Custom { msg } => "Test failure: "@ + msg@,
        HumaneTestFailure::BrowserJavascriptErr { msg, logs } => "Test failure: "@ + msg@
            + "\nBrowser logs:\n"@ + logs@,
    }
}

/// The message of a step error.
pub open spec fn step_error_text(e: HumaneStepError) -> Seq<char> {
    match e {
        HumaneStepError::External(inner) => "Parse error: "@ + input_error_text(inner),
        HumaneStepError::Internal(inner) => "Step error: "@ + internal_error_text(inner),
        HumaneStepError::Assertion(inner) => "Failed assertion: "@ + test_failure_text(inner),
    }
}

/// The text made of `a` followed by `b`.
pub fn join2(a: &str, b: &str) -> (r: String)
    ensures
        r@ == a@ + b@,
{
    let mut out = String::new();
    out.append(a);
    out.append(b);
    assert(out@ =~= a@ + b@);
    out
}

impl HumaneInputError {
    /// The message of the error.
    pub fn message(&self) -> (r: String)
        ensures
            r@ == input_error_text(*self),
    {
        let mut out = String::new();
        match self {
            HumaneInputError::NonexistentArgument { arg, has } => {
                out.append("Argument ");
                out.append(arg.as_str());
                out.append(" was not supplied. (have [");
                out.append(has.as_str());
                out.append("])");
            },
            HumaneInputError::IncorrectArgumentType { arg, was, expected } => {
                out.append("Argument ");
                out.append(arg.as_str());
                out.append(" expected to be a ");
                out.append(expected.as_str());
                out.append(", but is a ");
                out.append(was.as_str());
            },
            HumaneInputError::ArgumentRequiresValue { arg } => {
                out.append("Argument ");
                out.append(arg.as_str());
                out.append(" requires a value, cannot be empty");
            },
            HumaneInputError::ParseError(inner) => {
                out.append("yaml failed to parse: ");
                out.append(inner.as_str());
            },
            HumaneInputError::UnclosedValue { expected } => {
                out.append("unclosed argument, expected a ");
                out.push(*expected);
                out.append(" character");
            },
            HumaneInputError::InvalidRef { input, closest } => {
                out.append("invalid reference: ");
                out.append(input.as_str());
                out.append(", closest match: ");
                out.append(closest.as_str());
            },
            HumaneInputError::CyclicRef { input } => {
                out.append("cyclic reference: ");
                out.append(input.as_str());
            },
            HumaneInputError::DuplicateName { path_one, path_two, name } => {
                out.append("test name ");
                out.append(name.as_str());
                out.append(" is used by both ");
                out.append(path_one.as_str());
                out.append(" and ");
                out.append(path_two.as_str());
            },
            HumaneInputError::NonexistentStep => {
                out.append("step does not exist");
            },
            HumaneInputError::StepRequirementsNotMet { reason } => {
                out.append("step requirements were not met: ");
                out.append(reason.as_str());
            },
            HumaneInputError::StepError { reason } => {
                out.append("step failed: ");
                out.append(reason.as_str());
            },
        }
        assert(out@ =~= input_error_text(*self));
        out
    }
}

impl HumaneInternalError {
    /// The message of the error.
    pub fn message(&self) -> (r: String)
        ensures
            r@ == internal_error_text(*self),
    {
        match self {
            HumaneInternalError::Custom { msg } => join2("Test error: ", msg.as_str()),
            HumaneInternalError::PagebrowseError(inner) => {
                let r = join2("", inner.as_str());
                proof {
                    reveal_strlit("");
                    assert(r@ =~= inner@);
                }
                r
            },
        }
    }
}

impl HumaneTestFailure {
    /// The message of the failure.
    pub fn message(&self) -> (r: String)
        ensures
            r@ == test_failure_text(*self),
    {
        let mut out = String::new();
        match self {
            HumaneTestFailure::Custom { msg } => {
                out.append("Test failure: ");
                out.append(msg.as_str());
            },
            HumaneTestFailure::BrowserJavascriptErr { msg, logs } => {
                out.append("Test failure: ");
                out.append(msg.as_str());
                out.append("\nBrowser logs:\n");
                out.append(logs.as_str());
            },
        }
        assert(out@ =~= test_failure_text(*self));
        out
    }
}

impl HumaneStepError {
    /// The message of the error.
    pub fn message(&self) -> (r: String)
        ensures
            r@ == step_error_text(*self),
    {
        match self {
            HumaneStepError::External(inner) => {
                let m = inner.message();
                join2("Parse error: ", m.as_str())
            },
            HumaneStepError::Internal(inner) => {
                let m = inner.message();
                join2("Step error: ", m.as_str())
            },
            HumaneStepError::Assertion(inner) => {
                let m = inner.message();
                join2("Failed assertion: ", m.as_str())
            },
        }
    }
}

} // verus!

verus! {

/// The failure of a test: the error, the step that raised it as it was before
/// it ran, and the arguments of that step as they are shown to the user.
#[derive(Debug, PartialEq)]
pub struct HumaneTestError {
    pub err: HumaneStepError,
    pub step: HumaneTestStep,
    pub arg_str: String,
}

/// The message of the failure of a test.
pub open spec fn test_error_text(step: Step, err: HumaneStepError) -> Seq<char> {
    "Error in step \""@ + step.display_text() + "\":\n"@ + step_error_text(err)
}

impl HumaneTestError {
    /// The message of the failure.
    pub fn message(&self) -> (r: String)
        ensures
            r@ == test_error_text(self.step@, self.err),
    {
        let mut out = String::new();
        out.append("Error in step \"");
        out.append(self.step.display_text().as_str());
        out.append("\":\n");
        out.append(self.err.message().as_str());
        assert(out@ =~= test_error_text(self.step@, self.err));
        out
    }
}

} // verus!

verus! {

impl From<HumaneInputError> for HumaneStepError {
    fn from(value: HumaneInputError) -> (r: Self) {
        HumaneStepError::External(value)
    }
}

impl vstd::std_specs::convert::FromSpecImpl<HumaneInputError> for HumaneStepError {
    open spec fn obeys_from_spec() -> bool {
        true
    }

    open spec fn from_spec(value: HumaneInputError) -> Self {
        HumaneStepError::External(value)
    }
}

impl From<HumaneInternalError> for HumaneStepError {
    fn from(value: HumaneInternalError) -> (r: Self) {
        HumaneStepError::Internal(value)
    }
}

impl vstd::std_specs::convert::FromSpecImpl<HumaneInternalError> for HumaneStepError {
    open spec fn obeys_from_spec() -> bool {
        true
    }

    open spec fn from_spec(value: HumaneInternalError) -> Self {
        HumaneStepError::Internal(value)
    }
}

impl From<HumaneTestFailure> for HumaneStepError {
    fn from(value: HumaneTestFailure) -> (r: Self) {
        HumaneStepError::Assertion(value)
    }
}

impl vstd::std_specs::convert::FromSpecImpl<HumaneTestFailure> for HumaneStepError {
    open spec fn obeys_from_spec() -> bool {
        true
    }

    open spec fn from_spec(value: HumaneTestFailure) -> Self {
        HumaneStepError::Assertion(value)
    }
}

} // verus!
