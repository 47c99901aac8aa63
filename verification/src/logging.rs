//! The steps of a test that has run, as lines for the user.

use crate::steps::{lemma_ref_view, steps_view, HumaneTestStep, HumaneTestStepState, Step};
use vstd::prelude::*;

verus! {

/// One line of the log of a run: the state of a step, for the colour of the
/// line, and its text.
#[derive(Debug)]
pub struct StepLine {
    pub state: HumaneTestStepState,
    pub text: String,
}

/// The sign that stands for a state.
pub open spec fn state_sign(state: HumaneTestStepState) -> Seq<char> {
    match state {
        HumaneTestStepState::Dormant => "\u{29b8} "@,
        HumaneTestStepState::Failed => "\u{2718} "@,
        HumaneTestStepState::Passed => "\u{2713} "@,
    }
}

/// So many spaces.
pub open spec fn spaces(n: nat) -> Seq<char> {
    Seq::new(n, |i: int| ' ')
}

/// What stands before the line of a step at a depth: nothing at the top, and
/// below it the spaces of the depth and an arrow.
pub open spec fn line_prefix(indent: nat) -> Seq<char> {
    if indent > 0 {
        spaces(indent) + "\u{21b3} "@
    } else {
        Seq::empty()
    }
}

/// The depth below `indent`: two more, as far as the machine can count.
pub open spec fn deeper(indent: nat) -> nat {
    if indent + 2 <= usize::MAX {
        indent + 2
    } else {
        indent
    }
}

/// The line of a step.
pub open spec fn step_line(step: Step, indent: nat) -> (HumaneTestStepState, Seq<char>) {
    (step.state(), line_prefix(indent) + state_sign(step.state()) + step.display_text())
}

/// The lines of a step: its own line and, for a reference that has run, the
/// lines of the steps that it holds, two deeper.
pub open spec fn step_lines(step: Step, indent: nat) -> Seq<(HumaneTestStepState, Seq<char>)>
    decreases step, 0nat,
{
    match step {
        Step::Ref { hydrated_steps: Some(inner), .. } => seq![step_line(step, indent)]
            + lines_upto(inner, inner.len(), deeper(indent)),
        _ => seq![step_line(step, indent)],
    }
}

/// The lines of the first `n` steps.
pub open spec fn lines_upto(steps: Seq<Step>, n: nat, indent: nat) -> Seq<
    (HumaneTestStepState, Seq<char>),
>
    decreases steps, n,
{
    if n == 0 || n > steps.len() {
        Seq::empty()
    } else {
        lines_upto(steps, (n - 1) as nat, indent) + step_lines(steps[n - 1], indent)
    }
}

/// The states and texts of a list of lines.
pub open spec fn lines_view(lines: Seq<StepLine>) -> Seq<(HumaneTestStepState, Seq<char>)> {
    Seq::new(lines.len(), |i: int| (lines[i].state, lines[i].text@))
}

/// What stands before the line of a step at a depth.
fn prefix(indent: usize) -> (r: String)
    ensures
        r@ == line_prefix(indent as nat),
{
    let mut out = String::new();
    if indent > 0 {
        let mut i: usize = 0;
        while i < indent
            invariant
                i <= indent,
                out@ == spaces(i as nat),
            decreases indent - i,
        {
            out.push(' ');
            assert(out@ =~= spaces((i + 1) as nat));
            i = i + 1;
        }
        out.append("\u{21b3} ");
    }
    out
}

/// The steps of a run as lines for the user: each step with the sign of its
/// state, and the steps of a reference below it, two deeper.
pub fn log_step_runs(steps: &Vec<HumaneTestStep>, indent: usize) -> (r: Vec<StepLine>)
    ensures
        lines_view(r@) == lines_upto(steps_view(steps@), steps@.len() as nat, indent as nat),
    decreases steps,
{
    let ghost all = steps_view(steps@);
    let mut out: Vec<StepLine> = Vec::new();
    let mut i: usize = 0;
    assert(lines_view(out@) =~= lines_upto(all, 0, indent as nat));
    while i < steps.len()
        invariant
            i <= steps.len(),
            all == steps_view(steps@),
            lines_view(out@) == lines_upto(all, i as nat, indent as nat),
        decreases steps.len() - i,
    {
        let step = &steps[i];
        let ghost before = lines_view(out@);
        assert(all[i as int] == step@);
        let mut text = prefix(indent);
        match step.state() {
            HumaneTestStepState::Dormant => text.append("\u{29b8} "),
            HumaneTestStepState::Failed => text.append("\u{2718} "),
            HumaneTestStepState::Passed => text.append("\u{2713} "),
        }
        text.append(step.display_text().as_str());
        assert(text@ =~= step_line(step@, indent as nat).1);
        out.push(StepLine { state: step.state(), text });
        assert(lines_view(out@) =~= before + seq![step_line(step@, indent as nat)]);
        match step {
            HumaneTestStep::Ref { hydrated_steps: Some(inner), .. } => {
                proof {
                    lemma_ref_view(*step);
                }
                let below = if indent <= usize::MAX - 2 {
                    indent + 2
                } else {
                    indent
                };
                let mut inner_lines = log_step_runs(inner, below);
                let ghost so_far = lines_view(out@);
                let ghost added = lines_view(inner_lines@);
                out.append(&mut inner_lines);
                assert(lines_view(out@) =~= so_far + added);
                assert(lines_view(out@) =~= before + step_lines(step@, indent as nat));
            },
            _ => {
                proof {
                    if step is Ref {
                        lemma_ref_view(*step);
                    }
                }
                assert(lines_view(out@) =~= before + step_lines(step@, indent as nat));
            },
        }
        i = i + 1;
    }
    out
}

} // verus!
