//! The capabilities that a line of a test can name: instructions, which act;
//! retrievers, which compute a value; and assertions, which check one.

use crate::args::SegmentArgs;
use crate::civilization::Civilization;
use crate::errors::{HumaneInputError, HumaneStepError};
use crate::json::JsonValue;
use crate::registry::{declare, declared_patterns, enrolled_all, index_declared, Registry};
use vstd::prelude::*;

pub mod assertions;
pub mod browser;
pub mod filesystem;
pub mod hosting;
pub mod process;

verus! {

/// An action, such as `I run {command}`. A capability of this role declares
/// the pattern that defines it and acts on the sandbox with the arguments that
/// were bound for it.
pub trait HumaneInstruction: Send + Sync {
    /// The pattern that defines the instruction.
    fn segments(&self) -> &'static str;

    /// Acts on the sandbox.
    fn run(&self, args: &SegmentArgs, civ: &mut Civilization) -> Result<(), HumaneStepError>;
}

/// What stands before `should` in an assertion, such as `stdout`: a capability
/// of this role computes a value.
pub trait HumaneRetriever: Send + Sync {
    /// The pattern that defines the retriever.
    fn segments(&self) -> &'static str;

    /// Computes the value.
    fn run(&self, args: &SegmentArgs, civ: &mut Civilization) -> Result<
        JsonValue,
        HumaneStepError,
    >;
}

/// What stands after `should` in an assertion, such as `contain {expected}`: a
/// capability of this role checks a value.
pub trait HumaneAssertion: Send + Sync {
    /// The pattern that defines the assertion.
    fn segments(&self) -> &'static str;

    /// Checks the value.
    fn run(&self, base_value: JsonValue, args: &SegmentArgs, civ: &mut Civilization) -> Result<
        (),
        HumaneStepError,
    >;
}

} // verus!

verus! {

/// The patterns of the instructions that come with the runner.
pub open spec fn instruction_patterns() -> Seq<Seq<char>> {
    seq![
        "In my browser, I load {url}"@,
        "In my browser, I evaluate {js}"@,
        "I have a {filename} file with the content {contents}"@,
        "I serve the directory {dir}"@,
        "I serve the directory {dir} and debug"@,
        "I have the environment variable {name} set to {value}"@,
        "I run {command}"@,
        "I run {command} and expect it to fail"@,
    ]
}

/// The patterns of the retrievers that come with the runner.
pub open spec fn retriever_patterns() -> Seq<Seq<char>> {
    seq![
        "In my browser, the result of {js}"@,
        "In my browser, the console"@,
        "The file {filename}"@,
        "stdout"@,
        "stderr"@,
    ]
}

/// The patterns of the assertions that come with the runner.
pub open spec fn assertion_patterns() -> Seq<Seq<char>> {
    seq![
        "contain {expected}"@,
        "not contain {expected}"@,
        "be exactly {expected}"@,
        "not be exactly {expected}"@,
        "be empty"@,
        "not be empty"@,
    ]
}

/// The instructions that come with the runner, each with its pattern.
pub fn builtin_instructions() -> (r: Vec<(&'static str, Box<dyn HumaneInstruction>)>)
    ensures
        declared_patterns(r@) == instruction_patterns(),
{
    let mut out: Vec<(&'static str, Box<dyn HumaneInstruction>)> = Vec::new();
    assert(declared_patterns(out@) =~= Seq::<Seq<char>>::empty());
    declare(&mut out, browser::LoadPage.segments(), Box::new(browser::LoadPage));
    declare(&mut out, browser::EvalJs.segments(), Box::new(browser::EvalJs));
    declare(&mut out, filesystem::NewFile.segments(), Box::new(filesystem::NewFile));
    declare(&mut out, hosting::HostDir.segments(), Box::new(hosting::HostDir));
    declare(&mut out, hosting::DebugHostDir.segments(), Box::new(hosting::DebugHostDir));
    declare(&mut out, process::EnvVar.segments(), Box::new(process::EnvVar));
    declare(&mut out, process::Run.segments(), Box::new(process::Run));
    declare(&mut out, process::FailingRun.segments(), Box::new(process::FailingRun));
    assert(declared_patterns(out@) =~= instruction_patterns());
    out
}

/// The retrievers that come with the runner, each with its pattern.
pub fn builtin_retrievers() -> (r: Vec<(&'static str, Box<dyn HumaneRetriever>)>)
    ensures
        declared_patterns(r@) == retriever_patterns(),
{
    let mut out: Vec<(&'static str, Box<dyn HumaneRetriever>)> = Vec::new();
    assert(declared_patterns(out@) =~= Seq::<Seq<char>>::empty());
    declare(&mut out, browser::GetJs.segments(), Box::new(browser::GetJs));
    declare(&mut out, browser::GetConsole.segments(), Box::new(browser::GetConsole));
    declare(&mut out, filesystem::PlainFile.segments(), Box::new(filesystem::PlainFile));
    declare(&mut out, process::StdOut.segments(), Box::new(process::StdOut));
    declare(&mut out, process::StdErr.segments(), Box::new(process::StdErr));
    assert(declared_patterns(out@) =~= retriever_patterns());
    out
}

/// The assertions that come with the runner, each with its pattern.
pub fn builtin_assertions() -> (r: Vec<(&'static str, Box<dyn HumaneAssertion>)>)
    ensures
        declared_patterns(r@) == assertion_patterns(),
{
    let mut out: Vec<(&'static str, Box<dyn HumaneAssertion>)> = Vec::new();
    assert(declared_patterns(out@) =~= Seq::<Seq<char>>::empty());
    declare(&mut out, assertions::Contain.segments(), Box::new(assertions::Contain));
    declare(&mut out, assertions::NotContain.segments(), Box::new(assertions::NotContain));
    declare(&mut out, assertions::Exactly.segments(), Box::new(assertions::Exactly));
    declare(&mut out, assertions::NotExactly.segments(), Box::new(assertions::NotExactly));
    declare(&mut out, assertions::Empty.segments(), Box::new(assertions::Empty));
    declare(&mut out, assertions::NotEmpty.segments(), Box::new(assertions::NotEmpty));
    assert(declared_patterns(out@) =~= assertion_patterns());
    out
}

/// An instruction with the pattern that it declares: the instruction as it
/// was given, beside what its `segments` hands out.
pub fn declared_instruction(capability: Box<dyn HumaneInstruction>) -> (r: (
    &'static str,
    Box<dyn HumaneInstruction>,
))
    ensures
        r.1 == capability,
{
    let pattern = capability.segments();
    let declared = (pattern, capability);
    declared
}

/// A retriever with the pattern that it declares: the retriever as it was
/// given, beside what its `segments` hands out.
pub fn declared_retriever(capability: Box<dyn HumaneRetriever>) -> (r: (
    &'static str,
    Box<dyn HumaneRetriever>,
))
    ensures
        r.1 == capability,
{
    let pattern = capability.segments();
    let declared = (pattern, capability);
    declared
}

/// An assertion with the pattern that it declares: the assertion as it was
/// given, beside what its `segments` hands out.
pub fn declared_assertion(capability: Box<dyn HumaneAssertion>) -> (r: (
    &'static str,
    Box<dyn HumaneAssertion>,
))
    ensures
        r.1 == capability,
{
    let pattern = capability.segments();
    let declared = (pattern, capability);
    declared
}

/// The registry of the instructions that come with the runner: each under
/// its pattern, in their order.
pub fn register_instructions() -> (r: Result<
    Registry<Box<dyn HumaneInstruction>>,
    HumaneInputError,
>)
    ensures
        match enrolled_all(instruction_patterns(), 8) {
            Some(definitions) => r matches Ok(registry) && registry.wf()
                && registry.definitions() == definitions,
            None => r matches Err(e) && e is UnclosedValue,
        },
{
    let capabilities = builtin_instructions();
    assert(declared_patterns(capabilities@).len() == 8);
    index_declared(capabilities)
}

/// The registry of the retrievers that come with the runner: each under its
/// pattern, in their order.
pub fn register_retrievers() -> (r: Result<Registry<Box<dyn HumaneRetriever>>, HumaneInputError>)
    ensures
        match enrolled_all(retriever_patterns(), 5) {
            Some(definitions) => r matches Ok(registry) && registry.wf()
                && registry.definitions() == definitions,
            None => r matches Err(e) && e is UnclosedValue,
        },
{
    let capabilities = builtin_retrievers();
    assert(declared_patterns(capabilities@).len() == 5);
    index_declared(capabilities)
}

/// The registry of the assertions that come with the runner: each under its
/// pattern, in their order.
pub fn register_assertions() -> (r: Result<Registry<Box<dyn HumaneAssertion>>, HumaneInputError>)
    ensures
        match enrolled_all(assertion_patterns(), 6) {
            Some(definitions) => r matches Ok(registry) && registry.wf()
                && registry.definitions() == definitions,
            None => r matches Err(e) && e is UnclosedValue,
        },
{
    let capabilities = builtin_assertions();
    assert(declared_patterns(capabilities@).len() == 6);
    index_declared(capabilities)
}

} // verus!
