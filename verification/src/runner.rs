//! Running the steps of a test: each step is resolved against the registry,
//! bound to its arguments, executed in the sandbox and marked with what
//! became of it. The first step that fails ends the file.

use crate::args::{bind, common_length, law_matching_patterns_are_bindable, SegmentArgs};
use crate::civilization::{Civilization, Sandbox};
use crate::errors::{HumaneInputError, HumaneStepError, HumaneTestError};
use crate::json::{members_view, names, to_yaml_text, yaml_text, Json, JsonValue};
use crate::options::{pairs_view, HumaneContext};
use crate::registry::{first_match, lemma_first_match_is_first, Registry};
use crate::segments::{HumaneSegments, Segment};
use crate::steps::{
    clone_steps, lemma_ref_view, option_text, pretty_args, steps_view, HumaneTestFile,
    HumaneTestStep, HumaneTestStepState, Step, TestFile,
};
use crate::text::join_text;
use crate::universe::{first_path, joined_path, normalized_path, Universe};
use vstd::prelude::*;

verus! {

/// `after` is the step `before` after a run: what the step says is the same,
/// and only its state and what the run attached to it may differ.
pub open spec fn same_plan(before: Step, after: Step) -> bool {
    match before {
        Step::Ref { other_file, orig, .. } => {
            &&& after is Ref
            &&& after->Ref_other_file == other_file
            &&& after->Ref_orig == orig
        },
        Step::Instruction { step, args, orig, .. } => {
            &&& after is Instruction
            &&& after->step == step
            &&& after->Instruction_args == args
            &&& after->Instruction_orig == orig
        },
        Step::Assertion { retrieval, assertion, args, orig, .. } => {
            &&& after is Assertion
            &&& after->retrieval == retrieval
            &&& after->assertion == assertion
            &&& after->Assertion_args == args
            &&& after->Assertion_orig == orig
        },
        Step::Snapshot { snapshot, args, orig, .. } => {
            &&& after is Snapshot
            &&& after->snapshot == snapshot
            &&& after->Snapshot_args == args
            &&& after->Snapshot_orig == orig
        },
    }
}

/// `after` is the step `before` after it has run and passed: it says what it
/// said, it is marked as passed, a snapshot holds the text that was retrieved,
/// and a reference holds the steps that it has run.
pub open spec fn passed(before: Step, after: Step) -> bool {
    &&& same_plan(before, after)
    &&& after.state() == HumaneTestStepState::Passed
    &&& after is Snapshot ==> after->snapshot_content is Some
    &&& after is Ref ==> after->hydrated_steps is Some
}

/// Every step has run and passed.
pub open spec fn all_passed(before: Seq<Step>, after: Seq<Step>) -> bool {
    &&& after.len() == before.len()
    &&& forall|i: int| 0 <= i < before.len() ==> passed(before[i], #[trigger] after[i])
}

/// The steps before position `k` have run and passed, the step at `k` has
/// failed, and the steps after it are as they were.
pub open spec fn failed_at(before: Seq<Step>, after: Seq<Step>, k: int) -> bool {
    &&& after.len() == before.len()
    &&& 0 <= k < before.len()
    &&& forall|i: int| 0 <= i < k ==> passed(before[i], #[trigger] after[i])
    &&& same_plan(before[k], after[k])
    &&& after[k].state() == HumaneTestStepState::Failed
    &&& forall|i: int| k < i < before.len() ==> #[trigger] after[i] == before[i]
}

/// The files that are being run, each inside the one before it: no file
/// twice, and each of them a file of the universe.
pub open spec fn inclusion_stack(stack: Seq<usize>, files: int) -> bool {
    &&& forall|i: int| 0 <= i < stack.len() ==> (#[trigger] stack[i]) < files
    &&& forall|i: int, j: int| 0 <= i < j < stack.len() ==> #[trigger] stack[i] != #[trigger] stack[j]
}

/// A stack of files holds no more files than there are.
pub proof fn lemma_stack_bound(stack: Seq<usize>, files: int)
    requires
        files >= 0,
        inclusion_stack(stack, files),
    ensures
        stack.len() <= files,
    decreases files,
{
    if stack.len() > 0 {
        if files == 0 {
            assert(stack[0] < files);
        } else {
            if exists|k: int| 0 <= k < stack.len() && #[trigger] stack[k] == files - 1 {
                let k = choose|k: int| 0 <= k < stack.len() && #[trigger] stack[k] == files - 1;
                let rest = stack.remove(k);
                assert forall|i: int| 0 <= i < rest.len() implies (#[trigger] rest[i]) < files
                    - 1 by {
                    if i < k {
                        assert(rest[i] == stack[i]);
                        assert(stack[i] != stack[k]);
                    } else {
                        assert(rest[i] == stack[i + 1]);
                        assert(stack[k] != stack[i + 1]);
                    }
                }
                assert forall|i: int, j: int| 0 <= i < j < rest.len() implies #[trigger] rest[i]
                    != #[trigger] rest[j] by {
                    let a = if i < k {
                        i
                    } else {
                        i + 1
                    };
                    let b = if j < k {
                        j
                    } else {
                        j + 1
                    };
                    assert(rest[i] == stack[a] && rest[j] == stack[b]);
                    assert(stack[a] != stack[b]);
                }
                lemma_stack_bound(rest, files - 1);
            } else {
                assert forall|i: int| 0 <= i < stack.len() implies (#[trigger] stack[i]) < files
                    - 1 by {
                    assert(stack[i] < files);
                }
                lemma_stack_bound(stack, files - 1);
            }
        }
    }
}

/// Whether `file` is on the stack.
fn on_stack(stack: &Vec<usize>, file: usize) -> (r: bool)
    ensures
        r == stack@.contains(file),
{
    let mut i: usize = 0;
    while i < stack.len()
        invariant
            i <= stack.len(),
            forall|j: int| 0 <= j < i ==> stack@[j] != file,
        decreases stack.len() - i,
    {
        if stack[i] == file {
            return true;
        }
        i = i + 1;
    }
    false
}

/// The stack with `file` on top.
fn stacked(stack: &Vec<usize>, file: usize) -> (r: Vec<usize>)
    ensures
        r@ == stack@.push(file),
{
    let mut out: Vec<usize> = Vec::new();
    let mut i: usize = 0;
    while i < stack.len()
        invariant
            i <= stack.len(),
            out@ == stack@.subrange(0, i as int),
        decreases stack.len() - i,
    {
        out.push(stack[i]);
        i = i + 1;
    }
    out.push(file);
    assert(stack@.subrange(0, stack@.len() as int) =~= stack@);
    out
}

/// Why a line cannot be run before any capability has acted.
pub enum BindFault {
    /// No capability is registered under a definition that stands for the
    /// line.
    NoCapability,
    /// The line names an argument that was not given.
    MissingArgument(Seq<char>),
}

/// The capability that a line names among the definitions of its role, as a
/// position, and the arguments that are bound for it; or why there are none.
/// The capability is the one under the first definition that stands for the
/// line.
pub open spec fn binding(
    definitions: Seq<Seq<Segment>>,
    line: Seq<Segment>,
    args: Seq<(Seq<char>, Json)>,
) -> Result<(int, Seq<(Seq<char>, Json)>), BindFault> {
    match first_match(definitions, line) {
        None => Err(BindFault::NoCapability),
        Some(at) => match bind(
            definitions[at],
            line,
            args,
            common_length(definitions[at], line),
        ) {
            Ok(bindings) => Ok((at, bindings)),
            Err(missing) => Err(BindFault::MissingArgument(missing)),
        },
    }
}

/// `e` is the error that reports `fault` for a line with the arguments `args`.
pub open spec fn reports_fault(
    e: HumaneInputError,
    fault: BindFault,
    args: Seq<(Seq<char>, Json)>,
) -> bool {
    match fault {
        BindFault::NoCapability => e is NonexistentStep,
        BindFault::MissingArgument(missing) => {
            &&& e matches HumaneInputError::NonexistentArgument { arg, has }
            &&& arg@ == missing
            &&& has@ == join_text(names(args), ", "@)
        },
    }
}

/// `e` is the error of a step that reports `fault`.
pub open spec fn step_reports_fault(
    e: HumaneStepError,
    fault: BindFault,
    args: Seq<(Seq<char>, Json)>,
) -> bool {
    e matches HumaneStepError::External(inner) && reports_fault(inner, fault, args)
}

/// Finds the capability that a line names and binds its arguments.
///
/// The capability is the one under the first definition that stands for the
/// line; where there is none the result is `NonexistentStep`. The arguments
/// are bound as `SegmentArgs::build` binds them, with the placeholders of the
/// configuration; where the line names an argument that was not given, the
/// result is `NonexistentArgument`.
pub fn bind_step<T>(
    registry: &Registry<T>,
    invocation: &HumaneSegments,
    args: &Vec<(String, JsonValue)>,
    ctx: &HumaneContext,
) -> (r: Result<(usize, SegmentArgs), HumaneInputError>)
    ensures
        r matches Ok((found, _)) ==> found < registry.definitions().len(),
        match binding(registry.definitions(), invocation@, members_view(args@)) {
            Ok((at, bindings)) => {
                &&& r matches Ok((found, built))
                &&& found == at
                &&& built.bindings() == bindings
                &&& built.delimiter() == ctx.params.placeholder_delimiter@
                &&& built.replacements() == pairs_view(ctx.params.placeholders@)
            },
            Err(fault) => r matches Err(e) && reports_fault(e, fault, members_view(args@)),
        },
{
    let at = match registry.lookup(invocation) {
        Some(at) => at,
        None => {
            return Err(HumaneInputError::NonexistentStep);
        },
    };
    proof {
        lemma_first_match_is_first(registry.definitions(), invocation@);
        law_matching_patterns_are_bindable(registry.definitions()[at as int], invocation@);
    }
    match SegmentArgs::build(registry.definition(at), invocation, args, Some(ctx)) {
        Ok(built) => Ok((at, built)),
        Err(e) => Err(e),
    }
}

/// The text that a snapshot keeps of a value: a string as it is, any other
/// value as its YAML text.
pub open spec fn snapshot_text(value: Json) -> Seq<char> {
    match value {
        Json::String(text) => text,
        _ => yaml_text(value),
    }
}

/// The text that a snapshot keeps of a value.
pub fn snapshot_content_of(value: &JsonValue) -> (r: String)
    ensures
        r@ == snapshot_text(value@),
{
    match value {
        JsonValue::String(text) => text.clone(),
        _ => to_yaml_text(value),
    }
}

/// The arguments of a step as they are attached to its failure.
pub open spec fn shown_args(step: Step) -> Seq<char> {
    match step.args() {
        Some(args) => pretty_args(args),
        None => Seq::empty(),
    }
}

/// `e` is the failure of the step `base` with the error `err`.
pub open spec fn failure_of(e: HumaneTestError, base: Step) -> bool {
    e.step@ == base && e.arg_str@ == shown_args(base)
}

/// The step with the state that a run gives it and, for a snapshot, with the
/// text that the run has retrieved; everything else as it is.
pub open spec fn concluded(step: Step, state: HumaneTestStepState, content: Option<Seq<char>>) -> Step {
    match step {
        Step::Ref { other_file, orig, hydrated_steps, .. } => Step::Ref {
            other_file,
            orig,
            hydrated_steps,
            state,
        },
        Step::Instruction { step, args, orig, .. } => Step::Instruction { step, args, orig, state },
        Step::Assertion { retrieval, assertion, args, orig, .. } => Step::Assertion {
            retrieval,
            assertion,
            args,
            orig,
            state,
        },
        Step::Snapshot { snapshot, snapshot_content, args, orig, .. } => Step::Snapshot {
            snapshot,
            snapshot_content: if content is Some {
                content
            } else {
                snapshot_content
            },
            args,
            orig,
            state,
        },
    }
}

/// Marks a step with what became of it. A step whose work went well is
/// passed, and a snapshot keeps the text that was retrieved. A step whose work
/// failed is failed, and its failure holds the error as it came, the step as
/// it was before and its arguments as they are shown.
pub fn conclude_step(step: HumaneTestStep, outcome: Result<Option<String>, HumaneStepError>) -> (r:
    (HumaneTestStep, Result<(), HumaneTestError>))
    ensures
        match outcome {
            Ok(content) => {
                &&& r.1 is Ok
                &&& r.0@ == concluded(step@, HumaneTestStepState::Passed, option_text(content))
            },
            Err(err) => {
                &&& r.0@ == concluded(step@, HumaneTestStepState::Failed, None)
                &&& r.1 matches Err(e)
                &&& e.err == err
                &&& failure_of(e, step@)
            },
        },
{
    let (state, content, result) = match outcome {
        Ok(content) => (HumaneTestStepState::Passed, content, Ok(())),
        Err(err) => {
            let failure = HumaneTestError {
                err,
                step: step.clone(),
                arg_str: step.args_pretty(),
            };
            (HumaneTestStepState::Failed, None, Err(failure))
        },
    };
    proof {
        if step is Ref {
            lemma_ref_view(step);
        }
    }
    let after = match step {
        HumaneTestStep::Ref { other_file, orig, hydrated_steps, state: _ } => {
            let marked = HumaneTestStep::Ref { other_file, orig, hydrated_steps, state };
            proof {
                lemma_ref_view(marked);
            }
            marked
        },
        HumaneTestStep::Instruction { step: line, args, orig, state: _ } => {
            HumaneTestStep::Instruction { step: line, args, orig, state }
        },
        HumaneTestStep::Assertion { retrieval, assertion, args, orig, state: _ } => {
            HumaneTestStep::Assertion { retrieval, assertion, args, orig, state }
        },
        HumaneTestStep::Snapshot { snapshot, snapshot_content, args, orig, state: _ } => {
            HumaneTestStep::Snapshot {
                snapshot,
                snapshot_content: match content {
                    Some(text) => Some(text),
                    None => snapshot_content,
                },
                args,
                orig,
                state,
            }
        },
    };
    (after, result)
}

/// A line that cannot be bound among the definitions of its role is reported
/// by the failure of its step.
pub open spec fn fault_reported(
    definitions: Seq<Seq<Segment>>,
    line: Seq<Segment>,
    args: Seq<(Seq<char>, Json)>,
    e: Result<(), HumaneStepError>,
) -> bool {
    binding(definitions, line, args) matches Err(fault) ==> e is Err && step_reports_fault(
        e->Err_0,
        fault,
        args,
    )
}

/// Checks a value that was retrieved against what a line expects of it. Where
/// the retrieval has failed, its error is handed on and nothing is checked.
/// Otherwise the assertion that the line names is looked up and bound: a line
/// for which no assertion is registered fails with `NonexistentStep`, a line
/// that names an argument that was not given with `NonexistentArgument`, and
/// in both cases the sandbox stays as it is. Only then does the assertion
/// decide.
pub fn check_retrieved(
    universe: &Universe,
    assertion: &HumaneSegments,
    args: &Vec<(String, JsonValue)>,
    retrieved: Result<JsonValue, HumaneStepError>,
    civ: &mut Civilization,
) -> (r: Result<(), HumaneStepError>)
    ensures
        retrieved matches Err(e) ==> r == Err::<(), HumaneStepError>(e) && *final(civ) == *old(civ),
        retrieved is Ok ==> fault_reported(
            universe.assertions.definitions(),
            assertion@,
            members_view(args@),
            r,
        ),
        retrieved is Ok && binding(
            universe.assertions.definitions(),
            assertion@,
            members_view(args@),
        ) is Err ==> *final(civ) == *old(civ),
{
    match retrieved {
        Err(e) => Err(e),
        Ok(value) => match bind_step(&universe.assertions, assertion, args, &universe.ctx) {
            Err(e) => Err(HumaneStepError::External(e)),
            Ok((at, built)) => universe.assertions.capability(at).run(value, &built, civ),
        },
    }
}

/// What a snapshot keeps of what was retrieved: the text of the value, a
/// string as it is and any other value as its YAML text. Where the retrieval
/// has failed, its error is handed on.
pub fn keep_snapshot(retrieved: Result<JsonValue, HumaneStepError>) -> (r: Result<
    Option<String>,
    HumaneStepError,
>)
    ensures
        match retrieved {
            Ok(value) => r matches Ok(Some(text)) && text@ == snapshot_text(value@),
            Err(e) => r == Err::<Option<String>, HumaneStepError>(e),
        },
{
    match retrieved {
        Ok(value) => Ok(Some(snapshot_content_of(&value))),
        Err(e) => Err(e),
    }
}

/// What the work of a step that is no reference has come to, before the step
/// is marked.
///
/// A line that cannot be bound fails before any capability acts:
/// `NonexistentStep` where no capability is registered for it,
/// `NonexistentArgument` where it names an argument that was not given. For an
/// assertion this holds of what is retrieved; what is expected is looked up
/// only when the retrieval went well, and an assertion whose expectation
/// cannot be bound never passes. A snapshot that went well has a text, and
/// nothing else has.
pub open spec fn work_done(universe: &Universe, step: Step, outcome: Result<
    Option<Seq<char>>,
    HumaneStepError,
>) -> bool {
    let e: Result<(), HumaneStepError> = match outcome {
        Ok(_) => Ok(()),
        Err(err) => Err(err),
    };
    match step {
        Step::Ref { .. } => true,
        Step::Instruction { step: line, args, .. } => {
            &&& fault_reported(universe.instructions.definitions(), line, args, e)
            &&& outcome matches Ok(content) ==> content is None
        },
        Step::Assertion { retrieval, assertion, args, .. } => {
            &&& fault_reported(universe.retrievers.definitions(), retrieval, args, e)
            &&& binding(universe.assertions.definitions(), assertion, args) is Err ==> outcome
                is Err
            &&& outcome matches Ok(content) ==> content is None
        },
        Step::Snapshot { snapshot, args, .. } => {
            &&& fault_reported(universe.retrievers.definitions(), snapshot, args, e)
            &&& outcome matches Ok(content) ==> content is Some
        },
    }
}

/// The failure of a run, if it has one.
pub open spec fn failure_in(result: Result<(), HumaneTestError>) -> Option<HumaneTestError> {
    match result {
        Ok(_) => None,
        Err(e) => Some(e),
    }
}

/// No capability acts for the step: it is a reference, or the line that is
/// bound first for it cannot be bound.
pub open spec fn unbound(universe: &Universe, step: Step) -> bool {
    match step {
        Step::Ref { .. } => true,
        Step::Instruction { step: line, args, .. } => binding(
            universe.instructions.definitions(),
            line,
            args,
        ) is Err,
        Step::Assertion { retrieval, args, .. } => binding(
            universe.retrievers.definitions(),
            retrieval,
            args,
        ) is Err,
        Step::Snapshot { snapshot, args, .. } => binding(
            universe.retrievers.definitions(),
            snapshot,
            args,
        ) is Err,
    }
}

/// The text of an outcome.
pub open spec fn outcome_view(outcome: Result<Option<String>, HumaneStepError>) -> Result<
    Option<Seq<char>>,
    HumaneStepError,
> {
    match outcome {
        Ok(content) => Ok(option_text(content)),
        Err(err) => Err(err),
    }
}

/// Does the work of a step that is no reference: an instruction is looked up
/// among the instructions, bound and run; an assertion retrieves its value
/// with a retriever and has it checked as `check_retrieved` checks it; a
/// snapshot retrieves its value and keeps its text as `keep_snapshot` keeps
/// it. There is no work in a reference.
pub fn perform(step: &HumaneTestStep, civ: &mut Civilization, universe: &Universe) -> (r: Result<
    Option<String>,
    HumaneStepError,
>)
    ensures
        work_done(universe, step@, outcome_view(r)),
        step is Ref ==> r == Ok::<Option<String>, HumaneStepError>(None),
        unbound(universe, step@) ==> *final(civ) == *old(civ),
{
    match step {
        HumaneTestStep::Ref { .. } => Ok(None),
        HumaneTestStep::Instruction { step: line, args, .. } => {
            match bind_step(&universe.instructions, line, args, &universe.ctx) {
                Err(e) => Err(HumaneStepError::External(e)),
                Ok((at, built)) => match universe.instructions.capability(at).run(&built, civ) {
                    Ok(()) => Ok(None),
                    Err(e) => Err(e),
                },
            }
        },
        HumaneTestStep::Assertion { retrieval, assertion, args, .. } => {
            let retrieved = match bind_step(&universe.retrievers, retrieval, args, &universe.ctx) {
                Err(e) => Err(HumaneStepError::External(e)),
                Ok((at, built)) => universe.retrievers.capability(at).run(&built, civ),
            };
            match check_retrieved(universe, assertion, args, retrieved, civ) {
                Ok(()) => Ok(None),
                Err(e) => Err(e),
            }
        },
        HumaneTestStep::Snapshot { snapshot, args, .. } => {
            let retrieved = match bind_step(&universe.retrievers, snapshot, args, &universe.ctx) {
                Err(e) => Err(HumaneStepError::External(e)),
                Ok((at, built)) => universe.retrievers.capability(at).run(&built, civ),
            };
            keep_snapshot(retrieved)
        },
    }
}

/// The file that a step enters: the file under the path of a reference, seen
/// from `directory` and normalized, unless that file is being run already.
/// Any other step enters no file.
pub open spec fn entered_file(
    universe: &Universe,
    directory: Seq<char>,
    stack: Seq<usize>,
    step: Step,
) -> Option<int> {
    match step {
        Step::Ref { other_file, .. } => match first_path(
            universe.paths(),
            normalized_path(joined_path(directory, other_file)),
        ) {
            Some(target) => if exists|i: int| 0 <= i < stack.len() && stack[i] as int == target {
                None
            } else {
                Some(target)
            },
            None => None,
        },
        _ => None,
    }
}

/// `e` is the error for a reference to `path`, under which no test file
/// stands: `InvalidRef` with the path and with the closest of the paths that
/// there are, or `<nothing found>` where there is none.
pub open spec fn is_invalid_ref(e: HumaneStepError, universe: &Universe, path: Seq<char>) -> bool {
    &&& e matches HumaneStepError::External(HumaneInputError::InvalidRef { input, closest })
    &&& input@ == path
    &&& closest@ == match crate::universe::best_similarity(path, universe.paths()) {
        Some(found) => found,
        None => crate::universe::nothing_found(),
    }
}

/// `e` is the error for a reference to the file at `target`, which is being
/// run already: `CyclicRef` with the path of that file.
pub open spec fn is_cyclic_ref(e: HumaneStepError, universe: &Universe, target: int) -> bool {
    &&& e matches HumaneStepError::External(HumaneInputError::CyclicRef { input })
    &&& input@ == universe.paths()[target]
}

/// What holds of a step `before` that has run with `failure` and is now
/// `after`, apart from the steps that a reference has run.
///
/// The step says what it said. It is passed if the run went well and failed
/// otherwise.
///
/// A step that is no reference fails with its own failure: the error as it
/// came, the step as it was and its arguments. A line that cannot be bound
/// fails before any capability acts, as `work_done` says. On failure nothing
/// but the state of the step changes; on success a snapshot also has its text.
///
/// A reference to a path under which no test file stands fails with
/// `InvalidRef`, and a reference to a file that is being run already with
/// `CyclicRef`; both are its own failure and leave the steps that it holds as
/// they were. Any other reference holds steps after the run.
pub open spec fn step_settled(
    universe: &Universe,
    directory: Seq<char>,
    stack: Seq<usize>,
    before: Step,
    after: Step,
    failure: Option<HumaneTestError>,
) -> bool {
    &&& same_plan(before, after)
    &&& failure is None ==> passed(before, after)
    &&& failure is Some ==> after.state() == HumaneTestStepState::Failed
    &&& match before {
        Step::Ref { other_file, .. } => match first_path(
            universe.paths(),
            normalized_path(joined_path(directory, other_file)),
        ) {
            None => {
                &&& failure is Some
                &&& failure_of(failure->Some_0, before)
                &&& is_invalid_ref(
                    failure->Some_0.err,
                    universe,
                    normalized_path(joined_path(directory, other_file)),
                )
                &&& after == concluded(before, HumaneTestStepState::Failed, None)
            },
            Some(target) => if entered_file(universe, directory, stack, before) is None {
                &&& failure is Some
                &&& failure_of(failure->Some_0, before)
                &&& is_cyclic_ref(failure->Some_0.err, universe, target)
                &&& after == concluded(before, HumaneTestStepState::Failed, None)
            } else {
                after->hydrated_steps is Some
            },
        },
        _ => {
            &&& failure is Some ==> failure_of(failure->Some_0, before) && after == concluded(
                before,
                HumaneTestStepState::Failed,
                None,
            )
            &&& exists|content: Option<Seq<char>>|
                #![trigger concluded(before, HumaneTestStepState::Passed, content)]
                {
                    &&& work_done(
                        universe,
                        before,
                        match failure {
                            None => Ok(content),
                            Some(e) => Err(e.err),
                        },
                    )
                    &&& failure is None ==> after == concluded(
                        before,
                        HumaneTestStepState::Passed,
                        content,
                    )
                }
        },
    }
}

/// What holds of the steps `before` of a file in `directory` that have run
/// with `failure` and are now `after`, while the files of `stack` were being
/// run.
///
/// If the run went well, every step has run and is settled as `step_settled`
/// says. If it failed, there is a first step that failed: the steps before it
/// have run and passed, it is settled with the failure, and the steps after it
/// are as they were.
///
/// A reference that enters a file holds the steps of that file, and they have
/// run in the same way, in the directory of that file and with that file on
/// the stack; their result is the result of the reference. So the failure of
/// a reference that has entered a file is the failure of the step that failed
/// inside it.
pub open spec fn steps_ran(
    universe: &Universe,
    directory: Seq<char>,
    stack: Seq<usize>,
    before: Seq<Step>,
    after: Seq<Step>,
    failure: Option<HumaneTestError>,
) -> bool
    decreases after,
{
    &&& after.len() == before.len()
    &&& match failure {
        None => forall|i: int|
            0 <= i < after.len() ==> {
                &&& step_settled(universe, directory, stack, before[i], #[trigger] after[i], failure)
                &&& (entered_file(universe, directory, stack, before[i]) is Some && after[i] is Ref
                    && after[i]->hydrated_steps is Some) ==> steps_ran(
                    universe,
                    universe.tests@[entered_file(universe, directory, stack, before[i])->Some_0].1.file_directory@,
                    stack.push(
                        entered_file(universe, directory, stack, before[i])->Some_0 as usize,
                    ),
                    steps_view(
                        universe.tests@[entered_file(
                            universe,
                            directory,
                            stack,
                            before[i],
                        )->Some_0].1.steps@,
                    ),
                    after[i]->hydrated_steps->Some_0,
                    failure,
                )
            },
        Some(e) => exists|k: int|
            {
                &&& 0 <= k < after.len()
                &&& #[trigger] failed_from(before, after, k)
                &&& forall|i: int|
                    0 <= i < k ==> {
                        &&& step_settled(
                            universe,
                            directory,
                            stack,
                            before[i],
                            #[trigger] after[i],
                            None,
                        )
                        &&& (entered_file(universe, directory, stack, before[i]) is Some
                            && after[i] is Ref && after[i]->hydrated_steps is Some) ==> steps_ran(
                            universe,
                            universe.tests@[entered_file(
                                universe,
                                directory,
                                stack,
                                before[i],
                            )->Some_0].1.file_directory@,
                            stack.push(
                                entered_file(universe, directory, stack, before[i])->Some_0 as usize,
                            ),
                            steps_view(
                                universe.tests@[entered_file(
                                    universe,
                                    directory,
                                    stack,
                                    before[i],
                                )->Some_0].1.steps@,
                            ),
                            after[i]->hydrated_steps->Some_0,
                            None,
                        )
                    }
                &&& step_settled(universe, directory, stack, before[k], after[k], failure)
                &&& (entered_file(universe, directory, stack, before[k]) is Some && after[k] is Ref
                    && after[k]->hydrated_steps is Some) ==> steps_ran(
                    universe,
                    universe.tests@[entered_file(universe, directory, stack, before[k])->Some_0].1.file_directory@,
                    stack.push(
                        entered_file(universe, directory, stack, before[k])->Some_0 as usize,
                    ),
                    steps_view(
                        universe.tests@[entered_file(
                            universe,
                            directory,
                            stack,
                            before[k],
                        )->Some_0].1.steps@,
                    ),
                    after[k]->hydrated_steps->Some_0,
                    failure,
                )
            },
    }
}

/// The steps after position `k` are as they were.
pub open spec fn failed_from(before: Seq<Step>, after: Seq<Step>, k: int) -> bool {
    forall|i: int| k < i < before.len() ==> #[trigger] after[i] == before[i]
}

/// What holds of a step `before` that has run with `failure` and is now
/// `after`: it is settled as `step_settled` says, and the steps of a file that
/// it has entered have run as `steps_ran` says, with the same result.
pub open spec fn step_ran(
    universe: &Universe,
    directory: Seq<char>,
    stack: Seq<usize>,
    before: Step,
    after: Step,
    failure: Option<HumaneTestError>,
) -> bool {
    &&& step_settled(universe, directory, stack, before, after, failure)
    &&& (entered_file(universe, directory, stack, before) is Some && after is Ref
        && after->hydrated_steps is Some) ==> steps_ran(
        universe,
        universe.tests@[entered_file(universe, directory, stack, before)->Some_0].1.file_directory@,
        stack.push(entered_file(universe, directory, stack, before)->Some_0 as usize),
        steps_view(
            universe.tests@[entered_file(universe, directory, stack, before)->Some_0].1.steps@,
        ),
        after->hydrated_steps->Some_0,
        failure,
    )
}

/// Steps that have run well have each run well.
pub proof fn lemma_steps_ran_well(
    universe: &Universe,
    directory: Seq<char>,
    stack: Seq<usize>,
    before: Seq<Step>,
    after: Seq<Step>,
)
    requires
        after.len() == before.len(),
        forall|i: int|
            0 <= i < after.len() ==> step_ran(
                universe,
                directory,
                stack,
                before[i],
                #[trigger] after[i],
                None,
            ),
    ensures
        steps_ran(universe, directory, stack, before, after, None),
{
    assert forall|i: int| 0 <= i < after.len() implies {
        &&& step_settled(universe, directory, stack, before[i], #[trigger] after[i], None)
        &&& (entered_file(universe, directory, stack, before[i]) is Some && after[i] is Ref
            && after[i]->hydrated_steps is Some) ==> steps_ran(
            universe,
            universe.tests@[entered_file(universe, directory, stack, before[i])->Some_0].1.file_directory@,
            stack.push(entered_file(universe, directory, stack, before[i])->Some_0 as usize),
            steps_view(
                universe.tests@[entered_file(universe, directory, stack, before[i])->Some_0].1.steps@,
            ),
            after[i]->hydrated_steps->Some_0,
            None,
        )
    } by {
        assert(step_ran(universe, directory, stack, before[i], after[i], None));
    }
}

/// Steps of which the first `k` have run well, the next has failed and the
/// rest are as they were have run with that failure.
pub proof fn lemma_steps_ran_until(
    universe: &Universe,
    directory: Seq<char>,
    stack: Seq<usize>,
    before: Seq<Step>,
    after: Seq<Step>,
    k: int,
    e: HumaneTestError,
)
    requires
        after.len() == before.len(),
        0 <= k < after.len(),
        forall|i: int|
            0 <= i < k ==> step_ran(
                universe,
                directory,
                stack,
                before[i],
                #[trigger] after[i],
                None,
            ),
        step_ran(universe, directory, stack, before[k], after[k], Some(e)),
        failed_from(before, after, k),
    ensures
        steps_ran(universe, directory, stack, before, after, Some(e)),
{
    assert forall|i: int| 0 <= i < k implies {
        &&& step_settled(universe, directory, stack, before[i], #[trigger] after[i], None)
        &&& (entered_file(universe, directory, stack, before[i]) is Some && after[i] is Ref
            && after[i]->hydrated_steps is Some) ==> steps_ran(
            universe,
            universe.tests@[entered_file(universe, directory, stack, before[i])->Some_0].1.file_directory@,
            stack.push(entered_file(universe, directory, stack, before[i])->Some_0 as usize),
            steps_view(
                universe.tests@[entered_file(universe, directory, stack, before[i])->Some_0].1.steps@,
            ),
            after[i]->hydrated_steps->Some_0,
            None,
        )
    } by {
        assert(step_ran(universe, directory, stack, before[i], after[i], None));
    }
    assert(failed_from(before, after, k));
}

/// Whatever the capabilities did, steps that have run have kept their shape:
/// after a run that went well every step is passed, and after a run that
/// failed the steps are passed up to one that is failed, and as they were after
/// it.
pub proof fn law_run_keeps_shape(
    universe: &Universe,
    directory: Seq<char>,
    stack: Seq<usize>,
    before: Seq<Step>,
    after: Seq<Step>,
    failure: Option<HumaneTestError>,
)
    requires
        steps_ran(universe, directory, stack, before, after, failure),
    ensures
        failure is None ==> all_passed(before, after),
        failure is Some ==> exists|k: int| failed_at(before, after, k),
{
    match failure {
        None => {
            assert forall|i: int| 0 <= i < before.len() implies passed(
                before[i],
                #[trigger] after[i],
            ) by {
                assert(step_settled(universe, directory, stack, before[i], after[i], failure));
            }
        },
        Some(e) => {
            let k = choose|k: int|
                {
                    &&& 0 <= k < after.len()
                    &&& #[trigger] failed_from(before, after, k)
                    &&& forall|i: int|
                        0 <= i < k ==> step_settled(
                            universe,
                            directory,
                            stack,
                            before[i],
                            #[trigger] after[i],
                            None,
                        )
                    &&& step_settled(universe, directory, stack, before[k], after[k], failure)
                };
            assert forall|i: int| 0 <= i < k implies passed(before[i], #[trigger] after[i]) by {
                assert(step_settled(universe, directory, stack, before[i], after[i], None));
            }
            assert(failed_at(before, after, k));
        },
    }
}

/// A run of no steps goes well.
pub proof fn law_empty_run_passes(
    universe: &Universe,
    directory: Seq<char>,
    stack: Seq<usize>,
    after: Seq<Step>,
    failure: Option<HumaneTestError>,
)
    requires
        steps_ran(universe, directory, stack, Seq::empty(), after, failure),
    ensures
        failure is None,
        after.len() == 0,
{
}

/// Where every step is a reference to a file without steps that is not being
/// run already, no capability decides anything, and the run goes well.
pub proof fn law_references_to_empty_files_pass(
    universe: &Universe,
    directory: Seq<char>,
    stack: Seq<usize>,
    before: Seq<Step>,
    after: Seq<Step>,
    failure: Option<HumaneTestError>,
)
    requires
        steps_ran(universe, directory, stack, before, after, failure),
        forall|i: int|
            0 <= i < before.len() ==> {
                &&& entered_file(universe, directory, stack, #[trigger] before[i]) matches Some(
                    target,
                )
                &&& universe.tests@[target].1.steps@.len() == 0
            },
    ensures
        failure is None,
        all_passed(before, after),
{
    if failure is Some {
        let k = choose|k: int|
            {
                &&& 0 <= k < after.len()
                &&& #[trigger] failed_from(before, after, k)
                &&& step_settled(universe, directory, stack, before[k], after[k], failure)
                &&& (entered_file(universe, directory, stack, before[k]) is Some && after[k] is Ref
                    && after[k]->hydrated_steps is Some) ==> steps_ran(
                    universe,
                    universe.tests@[entered_file(universe, directory, stack, before[k])->Some_0].1.file_directory@,
                    stack.push(
                        entered_file(universe, directory, stack, before[k])->Some_0 as usize,
                    ),
                    steps_view(
                        universe.tests@[entered_file(
                            universe,
                            directory,
                            stack,
                            before[k],
                        )->Some_0].1.steps@,
                    ),
                    after[k]->hydrated_steps->Some_0,
                    failure,
                )
            };
        assert(entered_file(universe, directory, stack, before[k]) is Some);
        assert(false);
    }
    law_run_keeps_shape(universe, directory, stack, before, after, failure);
}

/// A run fails at its first step where no capability can be bound for it:
/// the failure is that of the first step, with the error that reports why
/// the line cannot be bound, and every later step is as it was.
pub proof fn law_unbound_first_step_fails(
    universe: &Universe,
    directory: Seq<char>,
    stack: Seq<usize>,
    before: Seq<Step>,
    after: Seq<Step>,
    failure: Option<HumaneTestError>,
)
    requires
        steps_ran(universe, directory, stack, before, after, failure),
        before.len() > 0,
        !(before[0] is Ref),
        unbound(universe, before[0]),
    ensures
        failure matches Some(e) && failure_of(e, before[0]) && e.err is External,
        after[0] == concluded(before[0], HumaneTestStepState::Failed, None),
        forall|i: int| 0 < i < before.len() ==> after[i] == before[i],
        before[0] matches Step::Instruction { step: line, args, .. } ==> step_reports_fault(
            failure->Some_0.err,
            binding(universe.instructions.definitions(), line, args)->Err_0,
            args,
        ),
        before[0] matches Step::Assertion { retrieval, args, .. } ==> step_reports_fault(
            failure->Some_0.err,
            binding(universe.retrievers.definitions(), retrieval, args)->Err_0,
            args,
        ),
        before[0] matches Step::Snapshot { snapshot, args, .. } ==> step_reports_fault(
            failure->Some_0.err,
            binding(universe.retrievers.definitions(), snapshot, args)->Err_0,
            args,
        ),
{
    match failure {
        None => {
            assert(step_settled(universe, directory, stack, before[0], after[0], None));
        },
        Some(e) => {
            let k = choose|k: int|
                {
                    &&& 0 <= k < after.len()
                    &&& #[trigger] failed_from(before, after, k)
                    &&& forall|i: int|
                        0 <= i < k ==> step_settled(
                            universe,
                            directory,
                            stack,
                            before[i],
                            #[trigger] after[i],
                            None,
                        )
                    &&& step_settled(universe, directory, stack, before[k], after[k], failure)
                };
            if k > 0 {
                assert(step_settled(universe, directory, stack, before[0], after[0], None));
            }
            assert(k == 0);
            assert(step_settled(universe, directory, stack, before[0], after[0], failure));
        },
    }
}

/// A run fails at its first step where that step refers to a path under
/// which no test file stands: the failure is `InvalidRef` with the normalized
/// path and the closest path that there is, which is not empty where no path
/// of a test file is.
pub proof fn law_missing_reference_fails(
    universe: &Universe,
    directory: Seq<char>,
    stack: Seq<usize>,
    before: Seq<Step>,
    after: Seq<Step>,
    failure: Option<HumaneTestError>,
)
    requires
        steps_ran(universe, directory, stack, before, after, failure),
        before.len() > 0,
        before[0] is Ref,
        first_path(
            universe.paths(),
            normalized_path(joined_path(directory, before[0]->other_file)),
        ) is None,
    ensures
        failure matches Some(e) && failure_of(e, before[0]) && is_invalid_ref(
            e.err,
            universe,
            normalized_path(joined_path(directory, before[0]->other_file)),
        ),
        after[0] == concluded(before[0], HumaneTestStepState::Failed, None),
        forall|i: int| 0 < i < before.len() ==> after[i] == before[i],
        (forall|i: int| 0 <= i < universe.paths().len() ==> (#[trigger] universe.paths()[i]).len() > 0)
            ==> failure->Some_0.err->External_0->closest@.len() > 0,
{
    reveal_strlit("<nothing found>");
    if universe.paths().len() > 0 {
        crate::universe::law_closest_is_most_similar(
            normalized_path(joined_path(directory, before[0]->other_file)),
            universe.paths(),
            universe.paths().len() as int,
        );
    }
    match failure {
        None => {
            assert(step_settled(universe, directory, stack, before[0], after[0], None));
        },
        Some(e) => {
            let k = choose|k: int|
                {
                    &&& 0 <= k < after.len()
                    &&& #[trigger] failed_from(before, after, k)
                    &&& forall|i: int|
                        0 <= i < k ==> step_settled(
                            universe,
                            directory,
                            stack,
                            before[i],
                            #[trigger] after[i],
                            None,
                        )
                    &&& step_settled(universe, directory, stack, before[k], after[k], failure)
                };
            if k > 0 {
                assert(step_settled(universe, directory, stack, before[0], after[0], None));
            }
            assert(k == 0);
        },
    }
}

/// Runs one step and hands it back as the run has left it.
///
/// A step that is no reference does its work as `perform` does it and is
/// marked as `conclude_step` marks it. A reference runs the steps of the file
/// that it names in the same sandbox and keeps them, each with its own state;
/// its result is the result of that run. A reference to a path under which no
/// test file stands fails with `InvalidRef`, and a file that is being run
/// already is not run inside itself but refused with `CyclicRef`.
pub fn run_step(
    file_directory: &String,
    step: HumaneTestStep,
    civ: &mut Civilization,
    universe: &Universe,
    stack: &Vec<usize>,
) -> (r: (HumaneTestStep, Result<(), HumaneTestError>))
    requires
        inclusion_stack(stack@, universe.tests@.len() as int),
    ensures
        step_ran(universe, file_directory@, stack@, step@, r.0@, failure_in(r.1)),
    decreases universe.tests@.len() - stack@.len(), 0int,
{
    let other_file = match &step {
        HumaneTestStep::Ref { other_file, .. } => other_file.clone(),
        _ => {
            let outcome = perform(&step, civ, universe);
            let ghost seen = outcome_view(outcome);
            let marked = conclude_step(step, outcome);
            proof {
                let content = match seen {
                    Ok(content) => content,
                    Err(_) => None,
                };
                assert(work_done(
                    universe,
                    step@,
                    match failure_in(marked.1) {
                        None => Ok(content),
                        Some(e) => Err(e.err),
                    },
                ));
                assert(marked.1 is Ok ==> marked.0@ == concluded(
                    step@,
                    HumaneTestStepState::Passed,
                    content,
                ));
            }
            return marked;
        },
    };
    proof {
        lemma_ref_view(step);
    }
    let ghost path = normalized_path(joined_path(file_directory@, other_file@));
    let target = match universe.resolve_ref(file_directory.as_str(), other_file.as_str()) {
        Ok(target) => target,
        Err(e) => {
            return conclude_step(step, Err(HumaneStepError::External(e)));
        },
    };
    assert(first_path(universe.paths(), path) == Some(target as int));
    if on_stack(stack, target) {
        proof {
            let at = stack@.index_of(target);
            assert(stack@[at] as int == target as int);
            assert(universe.paths()[target as int] == universe.tests@[target as int].0@);
        }
        let cyclic = HumaneInputError::CyclicRef { input: universe.tests[target].0.clone() };
        return conclude_step(step, Err(HumaneStepError::External(cyclic)));
    }
    let mut hydrated = clone_steps(&universe.tests[target].1.steps);
    let deeper = stacked(stack, target);
    proof {
        assert forall|i: int| 0 <= i < deeper@.len() implies (#[trigger] deeper@[i])
            < universe.tests@.len() by {
            if i < stack@.len() {
                assert(deeper@[i] == stack@[i]);
            }
        }
        assert forall|i: int, j: int| 0 <= i < j < deeper@.len() implies #[trigger] deeper@[i]
            != #[trigger] deeper@[j] by {
            assert(deeper@[i] == stack@[i]);
            if j == deeper@.len() - 1 {
                assert(stack@.contains(stack@[i]));
            } else {
                assert(deeper@[j] == stack@[j]);
            }
        }
        lemma_stack_bound(deeper@, universe.tests@.len() as int);
        assert(entered_file(universe, file_directory@, stack@, step@) == Some(target as int));
    }
    let outcome = run_humane_steps(
        &universe.tests[target].1.file_directory,
        &mut hydrated,
        civ,
        universe,
        &deeper,
    );
    let ghost inner = steps_view(hydrated@);
    let (state, result) = match outcome {
        Ok(()) => (HumaneTestStepState::Passed, Ok(())),
        Err(e) => (HumaneTestStepState::Failed, Err(e)),
    };
    let after = match step {
        HumaneTestStep::Ref { other_file, orig, hydrated_steps: _, state: _ } => {
            HumaneTestStep::Ref { other_file, orig, hydrated_steps: Some(hydrated), state }
        },
        other => other,
    };
    proof {
        lemma_ref_view(after);
        assert(after@->hydrated_steps == Some(inner));
        assert(failure_in(result) == failure_in(outcome));
        assert(deeper@ == stack@.push((target as int) as usize));
        assert(step_settled(universe, file_directory@, stack@, step@, after@, failure_in(result)));
    }
    (after, result)
}

/// Runs the steps of a file in their order, each when the one before it has
/// passed. The first step that fails ends the run: the steps before it have
/// passed, it is marked as failed, the steps after it stay as they were, and
/// its failure is the result. What holds of each step is what `steps_ran`
/// says.
pub fn run_humane_steps(
    file_directory: &String,
    steps: &mut Vec<HumaneTestStep>,
    civ: &mut Civilization,
    universe: &Universe,
    stack: &Vec<usize>,
) -> (r: Result<(), HumaneTestError>)
    requires
        inclusion_stack(stack@, universe.tests@.len() as int),
    ensures
        steps_ran(
            universe,
            file_directory@,
            stack@,
            steps_view(old(steps)@),
            steps_view(final(steps)@),
            failure_in(r),
        ),
    decreases universe.tests@.len() - stack@.len(), 1int,
{
    let ghost before = steps_view(steps@);
    let mut out: Vec<HumaneTestStep> = Vec::new();
    let mut i: usize = 0;
    let mut failure: Option<HumaneTestError> = None;
    while i < steps.len() && failure.is_none()
        invariant
            i <= steps.len(),
            steps@ == old(steps)@,
            before == steps_view(steps@),
            inclusion_stack(stack@, universe.tests@.len() as int),
            out@.len() == i,
            failure is None ==> forall|j: int|
                0 <= j < i ==> step_ran(
                    universe,
                    file_directory@,
                    stack@,
                    before[j],
                    (#[trigger] out@[j])@,
                    None,
                ),
            failure matches Some(e) ==> {
                &&& i > 0
                &&& forall|j: int|
                    0 <= j < i - 1 ==> step_ran(
                        universe,
                        file_directory@,
                        stack@,
                        before[j],
                        (#[trigger] out@[j])@,
                        None,
                    )
                &&& step_ran(
                    universe,
                    file_directory@,
                    stack@,
                    before[i - 1],
                    out@[i - 1]@,
                    Some(e),
                )
            },
        decreases steps.len() - i,
    {
        let ghost so_far = out@;
        let (after, outcome) = run_step(file_directory, steps[i].clone(), civ, universe, stack);
        out.push(after);
        proof {
            assert forall|j: int| 0 <= j < i implies out@[j] == so_far[j] by {}
            assert(before[i as int] == steps@[i as int]@);
        }
        match outcome {
            Ok(()) => {},
            Err(e) => {
                failure = Some(e);
            },
        }
        i = i + 1;
    }
    let ghost stopped = i as int;
    let ghost ran = out@;
    while i < steps.len()
        invariant
            stopped <= i <= steps.len(),
            steps@ == old(steps)@,
            before == steps_view(steps@),
            out@.len() == i,
            ran.len() == stopped,
            forall|j: int| 0 <= j < stopped ==> #[trigger] out@[j] == ran[j],
            forall|j: int| stopped <= j < i ==> (#[trigger] out@[j])@ == before[j],
        decreases steps.len() - i,
    {
        let ghost so_far = out@;
        out.push(steps[i].clone());
        proof {
            assert forall|j: int| 0 <= j < i implies out@[j] == so_far[j] by {}
            assert(before[i as int] == steps@[i as int]@);
        }
        i = i + 1;
    }
    *steps = out;
    let ghost after = steps_view(steps@);
    match failure {
        None => {
            proof {
                assert forall|j: int| 0 <= j < after.len() implies step_ran(
                    universe,
                    file_directory@,
                    stack@,
                    before[j],
                    #[trigger] after[j],
                    None,
                ) by {
                    assert(steps@[j] == ran[j]);
                }
                lemma_steps_ran_well(universe, file_directory@, stack@, before, after);
            }
            Ok(())
        },
        Some(e) => {
            proof {
                assert forall|j: int| 0 <= j < stopped - 1 implies step_ran(
                    universe,
                    file_directory@,
                    stack@,
                    before[j],
                    #[trigger] after[j],
                    None,
                ) by {
                    assert(steps@[j] == ran[j]);
                }
                assert(steps@[stopped - 1] == ran[stopped - 1]);
                assert forall|j: int| stopped - 1 < j < before.len() implies #[trigger] after[j]
                    == before[j] by {
                    assert(after[j] == steps@[j]@);
                }
                lemma_steps_ran_until(
                    universe,
                    file_directory@,
                    stack@,
                    before,
                    after,
                    stopped - 1,
                    e,
                );
            }
            Err(e)
        },
    }
}

/// The files that are being run when a test file starts: the file itself,
/// where it stands in the universe under its normalized path.
pub open spec fn own_stack(universe: &Universe, file_path: Seq<char>) -> Seq<usize> {
    match first_path(universe.paths(), normalized_path(file_path)) {
        Some(own) => seq![own as usize],
        None => Seq::empty(),
    }
}

/// What holds of a test file `before` that has run with `failure` and is now
/// `after`: the steps of its setup have run, and after them the steps of the
/// test, as `steps_ran` says; where the setup has failed, the steps of the
/// test are as they were.
pub open spec fn file_ran(
    universe: &Universe,
    before: TestFile,
    after: TestFile,
    failure: Option<HumaneTestError>,
) -> bool {
    let stack = own_stack(universe, before.file_path);
    match failure {
        None => {
            &&& steps_ran(universe, before.file_directory, stack, before.setup, after.setup, failure)
            &&& steps_ran(universe, before.file_directory, stack, before.steps, after.steps, failure)
        },
        Some(e) => {
            ||| {
                &&& steps_ran(
                    universe,
                    before.file_directory,
                    stack,
                    before.setup,
                    after.setup,
                    failure,
                )
                &&& after.steps == before.steps
            }
            ||| {
                &&& steps_ran(
                    universe,
                    before.file_directory,
                    stack,
                    before.setup,
                    after.setup,
                    None,
                )
                &&& steps_ran(
                    universe,
                    before.file_directory,
                    stack,
                    before.steps,
                    after.steps,
                    failure,
                )
            }
        },
    }
}

/// Runs a test file in a sandbox and shuts the sandbox down, whatever became
/// of the steps.
///
/// The steps of the setup run first and the steps of the test after them. The
/// first step that fails ends the run, and its failure is the result. Where
/// the file stands in the universe under its normalized path, references to
/// the file itself, direct or through other files, are refused as cyclic.
pub fn run_in_sandbox(input: &mut HumaneTestFile, universe: &Universe, civ: &mut Civilization) -> (r:
    Result<(), HumaneTestError>)
    ensures
        final(civ).shut_down,
        final(input).name == old(input).name,
        final(input).file_type == old(input).file_type,
        final(input).original_source == old(input).original_source,
        final(input).file_path == old(input).file_path,
        final(input).file_directory == old(input).file_directory,
        file_ran(universe, old(input)@, final(input)@, failure_in(r)),
{
    let mut stack: Vec<usize> = Vec::new();
    let own_path = crate::universe::normalize(input.file_path.as_str());
    match universe.find_test(own_path.as_str()) {
        Some(own) => {
            stack.push(own);
        },
        None => {},
    }
    assert(stack@ =~= own_stack(universe, input.file_path@));
    let directory = input.file_directory.clone();
    let mut setup = clone_steps(&input.setup);
    let mut steps = clone_steps(&input.steps);
    let outcome = match run_humane_steps(&directory, &mut setup, civ, universe, &stack) {
        Ok(()) => run_humane_steps(&directory, &mut steps, civ, universe, &stack),
        Err(e) => Err(e),
    };
    input.setup = setup;
    input.steps = steps;
    civ.shutdown();
    outcome
}

/// Runs a test file in a sandbox of its own, around the environment that it is
/// given. The sandbox is shut down when the run ends, whatever became of the
/// steps.
pub fn run_humane_experiment(
    input: &mut HumaneTestFile,
    universe: &Universe,
    backend: Box<dyn Sandbox>,
) -> (r: Result<(), HumaneTestError>)
    ensures
        final(input).name == old(input).name,
        final(input).file_type == old(input).file_type,
        final(input).original_source == old(input).original_source,
        final(input).file_path == old(input).file_path,
        final(input).file_directory == old(input).file_directory,
        file_ran(universe, old(input)@, final(input)@, failure_in(r)),
{
    let mut civ = Civilization::new(backend);
    run_in_sandbox(input, universe, &mut civ)
}

} // verus!
