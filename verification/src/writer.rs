//! Reconciling snapshots: the text that a snapshot step has retrieved is
//! written into the document of its test file, beside the step, and nothing
//! else in the document changes.

use crate::steps::{option_text, HumaneTestFile, HumaneTestStep, Step};
use crate::text::{lines, lines_of, same_text, texts, trim, trimmed};
use vstd::prelude::*;

verus! {

/// How the text of a block is written in YAML.
#[derive(Debug, Clone, Copy, PartialEq, Eq, Structural)]
pub enum BlockStyle {
    /// After `|`: line breaks are kept.
    Literal,
    /// After `>`: line breaks become spaces.
    Folded,
}

/// What becomes of the line breaks at the end of a block.
#[derive(Debug, Clone, Copy, PartialEq, Eq, Structural)]
pub enum Chomping {
    /// `-`: they are taken away.
    Strip,
    /// One of them is kept.
    Clip,
    /// `+`: all of them are kept.
    Keep,
}

/// The YAML document `doc` after a block of text has been put under
/// `block_key` in the mapping that is item number `index` of the list under
/// `list_key`, written in the given style; nothing where the document has no
/// such mapping.
pub uninterp spec fn with_block(
    doc: Seq<char>,
    list_key: Seq<char>,
    index: int,
    block_key: Seq<char>,
    block: Seq<Seq<char>>,
    style: BlockStyle,
    chomping: Chomping,
) -> Option<Seq<char>>;

/// An edit of a YAML document by `nondestructive`: the document is read by
/// `yaml::from_slice`; its root mapping, the list under `list_key`, and the
/// mapping at `index` in that list are reached by `into_mapping_mut`,
/// `get_into_mut` and `into_sequence_mut`; `insert_block` puts the lines under
/// `block_key` as a block of the given style; and the document is written back
/// by `to_string`. Where the document cannot be read or has no such mapping
/// there is no result. The result depends on the arguments alone and is named:
/// it is `with_block` of them.
#[verifier::external_body]
fn insert_block(
    doc: &str,
    list_key: &str,
    index: usize,
    block_key: &str,
    block: &Vec<String>,
    style: BlockStyle,
    chomping: Chomping,
) -> (r: Option<String>)
    ensures
        option_text(r) == with_block(
            doc@,
            list_key@,
            index as int,
            block_key@,
            texts(block@),
            style,
            chomping,
        ),
{
    let mut parsed = nondestructive::yaml::from_slice(doc).ok()?;
    let list = parsed.as_mut().into_mapping_mut()?.get_into_mut(list_key)?.into_sequence_mut()?;
    let chomp = match chomping {
        Chomping::Strip => nondestructive::yaml::Chomp::Strip,
        Chomping::Clip => nondestructive::yaml::Chomp::Clip,
        Chomping::Keep => nondestructive::yaml::Chomp::Keep,
    };
    let block_style = match style {
        BlockStyle::Literal => nondestructive::yaml::Block::Literal(chomp),
        BlockStyle::Folded => nondestructive::yaml::Block::Folded(chomp),
    };
    list.get_into_mut(index)?.into_mapping_mut()?.insert_block(block_key, block, block_style);
    Some(parsed.to_string())
}

/// The lines of a text, each after two spaces.
pub open spec fn indented(block: Seq<Seq<char>>) -> Seq<Seq<char>> {
    Seq::new(block.len(), |i: int| "  "@ + block[i])
}

/// The lines of a text, each after two spaces.
pub fn indented_lines(content: &str) -> (r: Vec<String>)
    ensures
        texts(r@) == indented(lines_of(content@)),
{
    let plain = lines(content);
    let mut out: Vec<String> = Vec::new();
    let mut i: usize = 0;
    while i < plain.len()
        invariant
            i <= plain.len(),
            out@.len() == i,
            forall|j: int| 0 <= j < i ==> out@[j]@ == "  "@ + plain@[j]@,
        decreases plain.len() - i,
    {
        let mut line = String::new();
        line.append("  ");
        line.append(plain[i].as_str());
        assert(line@ =~= "  "@ + plain@[i as int]@);
        out.push(line);
        i = i + 1;
    }
    assert(texts(out@) =~= indented(texts(plain@)));
    out
}

/// The text that a step has to write into the document: what a snapshot step
/// has retrieved, and nothing for any other step.
pub open spec fn pending_snapshot(step: Step) -> Option<Seq<char>> {
    match step {
        Step::Snapshot { snapshot_content, .. } => snapshot_content,
        _ => None,
    }
}

/// The document after the first `n` steps have written their snapshots into
/// it: each snapshot step that has retrieved a text puts it, indented, under
/// `snapshot_content` in its own entry of `steps`, as a literal block that
/// keeps the line breaks at its end. Nothing where one of them does not find
/// its entry.
pub open spec fn rewritten(doc: Seq<char>, steps: Seq<Step>, n: int) -> Option<Seq<char>>
    decreases n,
{
    if n <= 0 || n > steps.len() {
        Some(doc)
    } else {
        match rewritten(doc, steps, n - 1) {
            None => None,
            Some(so_far) => match pending_snapshot(steps[n - 1]) {
                None => Some(so_far),
                Some(content) => with_block(
                    so_far,
                    "steps"@,
                    n - 1,
                    "snapshot_content"@,
                    indented(lines_of(content)),
                    BlockStyle::Literal,
                    Chomping::Keep,
                ),
            },
        }
    }
}

/// Once the first `n` steps cannot be written, none of the documents after
/// them can.
pub proof fn lemma_rewritten_stays_none(doc: Seq<char>, steps: Seq<Step>, n: int, total: int)
    requires
        0 <= n <= total <= steps.len(),
        rewritten(doc, steps, n) is None,
    ensures
        rewritten(doc, steps, total) is None,
    decreases total - n,
{
    if n < total {
        lemma_rewritten_stays_none(doc, steps, n + 1, total);
    }
}

/// Writes the snapshots of a test file that has run into its document.
///
/// Every snapshot step that has retrieved a text puts it under
/// `snapshot_content` in its own entry of the list `steps`, as a block of
/// literal text; the rest of the document stays as it is. There is no result
/// where the document is not YAML or lacks the entry of such a step.
pub fn write_yaml_snapshots(input_doc: &str, hydrated_file: &HumaneTestFile) -> (r: Option<String>)
    ensures
        option_text(r) == rewritten(
            input_doc@,
            hydrated_file@.steps,
            hydrated_file@.steps.len() as int,
        ),
{
    let ghost steps = hydrated_file@.steps;
    let mut doc = input_doc.to_string();
    let mut step_id: usize = 0;
    while step_id < hydrated_file.steps.len()
        invariant
            step_id <= hydrated_file.steps.len(),
            steps == hydrated_file@.steps,
            rewritten(input_doc@, steps, step_id as int) == Some(doc@),
        decreases hydrated_file.steps.len() - step_id,
    {
        assert(steps[step_id as int] == hydrated_file.steps@[step_id as int]@);
        match &hydrated_file.steps[step_id] {
            HumaneTestStep::Snapshot { snapshot_content: Some(content), .. } => {
                let block = indented_lines(content.as_str());
                match insert_block(
                    doc.as_str(),
                    "steps",
                    step_id,
                    "snapshot_content",
                    &block,
                    BlockStyle::Literal,
                    Chomping::Keep,
                ) {
                    Some(next) => {
                        doc = next;
                    },
                    None => {
                        proof {
                            lemma_rewritten_stays_none(
                                input_doc@,
                                steps,
                                step_id + 1,
                                steps.len() as int,
                            );
                        }
                        return None;
                    },
                }
            },
            _ => {},
        }
        step_id = step_id + 1;
    }
    Some(doc)
}

/// What a run of a test file has come to, for the summary of all tests.
#[derive(Debug, PartialEq)]
pub enum HoldingError {
    /// A step has failed.
    TestFailure,
    /// All steps have passed and a snapshot has changed; the document with the
    /// new snapshots is kept.
    SnapFailure { out: String },
}

/// What the run of a test file comes to.
///
/// A run with a failure is a failed test. A run without one is a clean pass if
/// the document with the snapshots that were retrieved is the original
/// document, white space at their ends aside, and a snapshot mismatch that
/// holds the new document otherwise. A document into which the snapshots
/// cannot be written counts as a failed test.
pub fn settle_run(file: &HumaneTestFile, passed: bool) -> (r: Result<(), HoldingError>)
    ensures
        match (passed, rewritten(file@.original_source, file@.steps, file@.steps.len() as int)) {
            (true, Some(doc)) => if trimmed(doc) == trimmed(file@.original_source) {
                r is Ok
            } else {
                r matches Err(HoldingError::SnapFailure { out }) && out@ == doc
            },
            _ => r matches Err(HoldingError::TestFailure),
        },
{
    if !passed {
        return Err(HoldingError::TestFailure);
    }
    let output_doc = match write_yaml_snapshots(file.original_source.as_str(), file) {
        Some(doc) => doc,
        None => {
            return Err(HoldingError::TestFailure);
        },
    };
    let new = trim(output_doc.as_str());
    let old = trim(file.original_source.as_str());
    if same_text(new.as_str(), old.as_str()) {
        Ok(())
    } else {
        Err(HoldingError::SnapFailure { out: output_doc })
    }
}

} // verus!

verus! {

/// Where no step has retrieved a snapshot, the document stays as it is.
pub proof fn law_without_snapshots_the_document_stays(doc: Seq<char>, steps: Seq<Step>, n: int)
    requires
        0 <= n <= steps.len(),
        forall|i: int| 0 <= i < n ==> pending_snapshot(#[trigger] steps[i]) is None,
    ensures
        rewritten(doc, steps, n) == Some(doc),
    decreases n,
{
    if n > 0 {
        law_without_snapshots_the_document_stays(doc, steps, n - 1);
        assert(pending_snapshot(steps[n - 1]) is None);
    }
}

} // verus!
