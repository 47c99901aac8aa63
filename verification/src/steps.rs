//! The steps of a test file and the state that a run leaves on each of them.

use crate::json::{
    clone_members, lemma_object_view, members_view, to_yaml_text, yaml_text, Json, JsonValue,
};
use crate::segments::{HumaneSegments, Segment};
use crate::text::{same_text, trim, trimmed};
use vstd::prelude::*;

verus! {

/// Where a step stands in a run: not yet run, or run with one of two outcomes.
#[derive(Debug, Clone, Copy, PartialEq, Eq, Structural)]
pub enum HumaneTestStepState {
    Dormant,
    Failed,
    Passed,
}

/// One step of a test file.
#[derive(Debug, PartialEq)]
pub enum HumaneTestStep {
    /// The steps of another file, run in place.
    Ref {
        other_file: String,
        orig: String,
        hydrated_steps: Option<Vec<HumaneTestStep>>,
        state: HumaneTestStepState,
    },
    /// An action.
    Instruction {
        step: HumaneSegments,
        args: Vec<(String, JsonValue)>,
        orig: String,
        state: HumaneTestStepState,
    },
    /// A value that is retrieved and an expectation that it has to meet.
    Assertion {
        retrieval: HumaneSegments,
        assertion: HumaneSegments,
        args: Vec<(String, JsonValue)>,
        orig: String,
        state: HumaneTestStepState,
    },
    /// A value that is retrieved and kept as text beside the step.
    Snapshot {
        snapshot: HumaneSegments,
        snapshot_content: Option<String>,
        args: Vec<(String, JsonValue)>,
        orig: String,
        state: HumaneTestStepState,
    },
}

/// The mathematical value of a [`HumaneTestStep`].
pub enum Step {
    Ref {
        other_file: Seq<char>,
        orig: Seq<char>,
        hydrated_steps: Option<Seq<Step>>,
        state: HumaneTestStepState,
    },
    Instruction {
        step: Seq<Segment>,
        args: Seq<(Seq<char>, Json)>,
        orig: Seq<char>,
        state: HumaneTestStepState,
    },
    Assertion {
        retrieval: Seq<Segment>,
        assertion: Seq<Segment>,
        args: Seq<(Seq<char>, Json)>,
        orig: Seq<char>,
        state: HumaneTestStepState,
    },
    Snapshot {
        snapshot: Seq<Segment>,
        snapshot_content: Option<Seq<char>>,
        args: Seq<(Seq<char>, Json)>,
        orig: Seq<char>,
        state: HumaneTestStepState,
    },
}

/// The text of an optional string.
pub open spec fn option_text(s: Option<String>) -> Option<Seq<char>> {
    match s {
        Some(text) => Some(text@),
        None => None,
    }
}

impl View for HumaneTestStep {
    type V = Step;

    open spec fn view(&self) -> Step
        decreases self,
    {
        match self {
            HumaneTestStep::Ref { other_file, orig, hydrated_steps, state } => Step::Ref {
                other_file: other_file@,
                orig: orig@,
                hydrated_steps: match hydrated_steps {
                    Some(steps) => Some(Seq::new(steps@.len(), |i: int| step_at(steps@, i))),
                    None => None,
                },
                state: *state,
            },
            HumaneTestStep::Instruction { step, args, orig, state } => Step::Instruction {
                step: step@,
                args: members_view(args@),
                orig: orig@,
                state: *state,
            },
            HumaneTestStep::Assertion {
                retrieval,
                assertion,
                args,
                orig,
                state,
            } => Step::Assertion {
                retrieval: retrieval@,
                assertion: assertion@,
                args: members_view(args@),
                orig: orig@,
                state: *state,
            },
            HumaneTestStep::Snapshot {
                snapshot,
                snapshot_content,
                args,
                orig,
                state,
            } => Step::Snapshot {
                snapshot: snapshot@,
                snapshot_content: option_text(*snapshot_content),
                args: members_view(args@),
                orig: orig@,
                state: *state,
            },
        }
    }
}

/// The value of the step at position `i`.
pub open spec fn step_at(steps: Seq<HumaneTestStep>, i: int) -> Step
    decreases steps,
{
    if 0 <= i < steps.len() {
        steps[i]@
    } else {
        arbitrary()
    }
}

/// The values of a sequence of steps.
pub open spec fn steps_view(steps: Seq<HumaneTestStep>) -> Seq<Step> {
    Seq::new(steps.len(), |i: int| steps[i]@)
}

/// The steps that a reference holds are seen as the sequence of their values.
pub proof fn lemma_ref_view(step: HumaneTestStep)
    requires
        step is Ref,
    ensures
        step@ is Ref,
        step@->Ref_other_file == step->Ref_other_file@,
        step@->Ref_orig == step->Ref_orig@,
        step@->Ref_state == step->Ref_state,
        step@->Ref_hydrated_steps == match step->hydrated_steps {
            Some(steps) => Some(steps_view(steps@)),
            None => None,
        },
{
    match step->hydrated_steps {
        Some(steps) => {
            assert(step@->Ref_hydrated_steps->Some_0 =~= steps_view(steps@));
        },
        None => {},
    }
}

impl Step {
    /// The state of the step.
    pub open spec fn state(self) -> HumaneTestStepState {
        match self {
            Step::Ref { state, .. } => state,
            Step::Instruction { state, .. } => state,
            Step::Assertion { state, .. } => state,
            Step::Snapshot { state, .. } => state,
        }
    }

    /// The named arguments that the step carries; a reference carries none.
    pub open spec fn args(self) -> Option<Seq<(Seq<char>, Json)>> {
        match self {
            Step::Ref { .. } => None,
            Step::Instruction { args, .. } => Some(args),
            Step::Assertion { args, .. } => Some(args),
            Step::Snapshot { args, .. } => Some(args),
        }
    }

    /// The line by which the step is shown to the user.
    pub open spec fn display_text(self) -> Seq<char> {
        match self {
            Step::Instruction { orig, .. } => orig,
            Step::Assertion { orig, .. } => orig,
            Step::Ref { orig, .. } => "run steps from: "@ + orig,
            Step::Snapshot { orig, .. } => "snapshot: "@ + orig,
        }
    }
}

/// The arguments of a step as they are shown to the user: their YAML text, or
/// nothing where that text is an empty mapping.
pub open spec fn pretty_args(args: Seq<(Seq<char>, Json)>) -> Seq<char> {
    let text = yaml_text(Json::Object(args));
    if trimmed(text) == "{}"@ {
        Seq::empty()
    } else {
        text
    }
}

impl Clone for HumaneTestStep {
    fn clone(&self) -> (r: Self)
        ensures
            r@ == self@,
        decreases self,
    {
        match self {
            HumaneTestStep::Ref { other_file, orig, hydrated_steps, state } => {
                let hydrated = match hydrated_steps {
                    Some(steps) => Some(clone_steps(steps)),
                    None => None,
                };
                let r = HumaneTestStep::Ref {
                    other_file: other_file.clone(),
                    orig: orig.clone(),
                    hydrated_steps: hydrated,
                    state: *state,
                };
                proof {
                    lemma_ref_view(r);
                    lemma_ref_view(*self);
                }
                r
            },
            HumaneTestStep::Instruction { step, args, orig, state } => HumaneTestStep::Instruction {
                step: step.clone(),
                args: clone_members(args),
                orig: orig.clone(),
                state: *state,
            },
            HumaneTestStep::Assertion {
                retrieval,
                assertion,
                args,
                orig,
                state,
            } => HumaneTestStep::Assertion {
                retrieval: retrieval.clone(),
                assertion: assertion.clone(),
                args: clone_members(args),
                orig: orig.clone(),
                state: *state,
            },
            HumaneTestStep::Snapshot {
                snapshot,
                snapshot_content,
                args,
                orig,
                state,
            } => HumaneTestStep::Snapshot {
                snapshot: snapshot.clone(),
                snapshot_content: match snapshot_content {
                    Some(text) => Some(text.clone()),
                    None => None,
                },
                args: clone_members(args),
                orig: orig.clone(),
                state: *state,
            },
        }
    }
}

/// A copy of a list of steps.
pub fn clone_steps(steps: &Vec<HumaneTestStep>) -> (r: Vec<HumaneTestStep>)
    ensures
        steps_view(r@) == steps_view(steps@),
    decreases steps,
{
    let mut out: Vec<HumaneTestStep> = Vec::new();
    let mut i: usize = 0;
    while i < steps.len()
        invariant
            i <= steps.len(),
            out@.len() == i,
            forall|j: int| 0 <= j < i ==> out@[j]@ == steps@[j]@,
        decreases steps.len() - i,
    {
        out.push(steps[i].clone());
        i = i + 1;
    }
    assert(steps_view(out@) =~= steps_view(steps@));
    out
}

impl HumaneTestStep {
    /// The state of the step.
    pub fn state(&self) -> (r: HumaneTestStepState)
        ensures
            r == self@.state(),
    {
        match self {
            HumaneTestStep::Ref { state, .. } => *state,
            HumaneTestStep::Instruction { state, .. } => *state,
            HumaneTestStep::Assertion { state, .. } => *state,
            HumaneTestStep::Snapshot { state, .. } => *state,
        }
    }

    /// The arguments of the step as they are shown to the user; nothing for a
    /// reference and for a step without arguments.
    pub fn args_pretty(&self) -> (r: String)
        ensures
            r@ == match self@.args() {
                Some(args) => pretty_args(args),
                None => Seq::<char>::empty(),
            },
    {
        let args = match self {
            HumaneTestStep::Instruction { args, .. } => args,
            HumaneTestStep::Assertion { args, .. } => args,
            HumaneTestStep::Snapshot { args, .. } => args,
            _ => {
                return String::new();
            },
        };
        let copy = clone_members(args);
        proof {
            lemma_object_view(copy);
        }
        let text = to_yaml_text(&JsonValue::Object(copy));
        let bare = trim(text.as_str());
        if same_text(bare.as_str(), "{}") {
            String::new()
        } else {
            text
        }
    }

    /// The line by which the step is shown to the user.
    pub fn display_text(&self) -> (r: String)
        ensures
            r@ == self@.display_text(),
    {
        let mut out = String::new();
        match self {
            HumaneTestStep::Instruction { orig, .. } => {
                out.append(orig.as_str());
            },
            HumaneTestStep::Assertion { orig, .. } => {
                out.append(orig.as_str());
            },
            HumaneTestStep::Ref { orig, .. } => {
                out.append("run steps from: ");
                out.append(orig.as_str());
            },
            HumaneTestStep::Snapshot { orig, .. } => {
                out.append("snapshot: ");
                out.append(orig.as_str());
            },
        }
        assert(out@ =~= self@.display_text());
        out
    }
}

/// Whether a file is a test of its own or only holds steps for others to
/// refer to.
#[derive(Debug, Clone, Copy, PartialEq, Eq, Structural)]
pub enum HumaneFileType {
    Test,
    Reference,
}

/// A test file: its name, its steps, and what is needed to resolve the
/// references in it and to write its snapshots back.
#[derive(Debug, PartialEq)]
pub struct HumaneTestFile {
    pub name: String,
    pub file_type: HumaneFileType,
    pub setup: Vec<HumaneTestStep>,
    pub steps: Vec<HumaneTestStep>,
    pub original_source: String,
    pub file_path: String,
    pub file_directory: String,
}

/// The mathematical value of a [`HumaneTestFile`].
pub struct TestFile {
    pub name: Seq<char>,
    pub file_type: HumaneFileType,
    pub setup: Seq<Step>,
    pub steps: Seq<Step>,
    pub original_source: Seq<char>,
    pub file_path: Seq<char>,
    pub file_directory: Seq<char>,
}

impl View for HumaneTestFile {
    type V = TestFile;

    open spec fn view(&self) -> TestFile {
        TestFile {
            name: self.name@,
            file_type: self.file_type,
            setup: steps_view(self.setup@),
            steps: steps_view(self.steps@),
            original_source: self.original_source@,
            file_path: self.file_path@,
            file_directory: self.file_directory@,
        }
    }
}

impl Clone for HumaneTestFile {
    fn clone(&self) -> (r: Self)
        ensures
            r@ == self@,
    {
        HumaneTestFile {
            name: self.name.clone(),
            file_type: self.file_type,
            setup: clone_steps(&self.setup),
            steps: clone_steps(&self.steps),
            original_source: self.original_source.clone(),
            file_path: self.file_path.clone(),
            file_directory: self.file_directory.clone(),
        }
    }
}

} // verus!
