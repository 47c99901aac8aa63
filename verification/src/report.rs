//! What the user is told about a run: which part of a step could not be
//! resolved and what comes closest to it, and how many tests passed.

use crate::errors::HumaneInputError;
use crate::registry::first_match;
use crate::segments::{skeleton, HumaneSegments};
use crate::steps::{HumaneTestFile, HumaneTestStep, Step};
use crate::suggest::{closest_definitions, suggests};
use crate::text::{join, join_text, same_text, texts};
use crate::universe::{normalize, normalized_path, Universe};
use crate::writer::HoldingError;
use vstd::prelude::*;

verus! {

/// The role of the capability that a step could not find.
#[derive(Debug, Clone, Copy, PartialEq, Eq, Structural)]
pub enum StepKind {
    Instruction,
    Retrieval,
    Assertion,
}

/// A part of a step for which no capability is registered, and the
/// definitions that come closest to it.
#[derive(Debug)]
pub struct MissingStep {
    pub kind: StepKind,
    /// The step as it was written.
    pub original: String,
    /// The comparison string of the part that was not found.
    pub comparator: String,
    /// The readable forms of the closest definitions, the closest first.
    pub closest: Vec<String>,
}

/// The part of a step that is looked for first and not found, with its role:
/// the line of an instruction; of an assertion what is retrieved if no
/// retriever stands for it, and what is expected otherwise; what a snapshot
/// retrieves. A reference has no such part.
pub open spec fn unresolved_part(step: Step, universe: &Universe) -> Option<
    (StepKind, Seq<crate::segments::Segment>),
> {
    match step {
        Step::Ref { .. } => None,
        Step::Instruction { step: line, .. } => Some((StepKind::Instruction, line)),
        Step::Assertion { retrieval, assertion, .. } => if first_match(
            universe.retrievers.definitions(),
            retrieval,
        ) is None {
            Some((StepKind::Retrieval, retrieval))
        } else {
            Some((StepKind::Assertion, assertion))
        },
        Step::Snapshot { snapshot, .. } => Some((StepKind::Retrieval, snapshot)),
    }
}

/// The definitions of the role `kind`.
pub open spec fn definitions_of(universe: &Universe, kind: StepKind) -> Seq<
    Seq<crate::segments::Segment>,
> {
    match kind {
        StepKind::Instruction => universe.instructions.definitions(),
        StepKind::Retrieval => universe.retrievers.definitions(),
        StepKind::Assertion => universe.assertions.definitions(),
    }
}

/// The closest definitions of one role.
fn closest_of(universe: &Universe, kind: StepKind, part: &HumaneSegments) -> (r: Vec<String>)
    ensures
        suggests(definitions_of(universe, kind), skeleton(part@), texts(r@)),
        definitions_of(universe, kind).len() > 0 ==> r@.len() > 0,
{
    match kind {
        StepKind::Instruction => closest_definitions(part, &universe.instructions),
        StepKind::Retrieval => closest_definitions(part, &universe.retrievers),
        StepKind::Assertion => closest_definitions(part, &universe.assertions),
    }
}

/// Explains a step that has failed because no capability stands for it: the
/// part of the step that could not be resolved, with its role, and the
/// definitions of that role that come closest, the closest first. Where a
/// capability of that role is registered at all, there is a suggestion. A
/// reference has nothing to explain.
pub fn explain_missing_step(step: &HumaneTestStep, universe: &Universe) -> (r: Option<MissingStep>)
    ensures
        match unresolved_part(step@, universe) {
            None => r is None,
            Some((kind, part)) => {
                &&& r matches Some(missing)
                &&& missing.kind == kind
                &&& missing.comparator@ == skeleton(part)
                &&& suggests(definitions_of(universe, kind), skeleton(part), texts(missing.closest@))
                &&& definitions_of(universe, kind).len() > 0 ==> missing.closest@.len() > 0
            },
        },
{
    match step {
        HumaneTestStep::Ref { .. } => None,
        HumaneTestStep::Instruction { step: line, orig, .. } => Some(
            MissingStep {
                kind: StepKind::Instruction,
                original: orig.clone(),
                comparator: line.get_comparison_string(),
                closest: closest_of(universe, StepKind::Instruction, line),
            },
        ),
        HumaneTestStep::Assertion { retrieval, assertion, orig, .. } => {
            if universe.retrievers.lookup(retrieval).is_none() {
                Some(
                    MissingStep {
                        kind: StepKind::Retrieval,
                        original: orig.clone(),
                        comparator: retrieval.get_comparison_string(),
                        closest: closest_of(universe, StepKind::Retrieval, retrieval),
                    },
                )
            } else {
                Some(
                    MissingStep {
                        kind: StepKind::Assertion,
                        original: orig.clone(),
                        comparator: assertion.get_comparison_string(),
                        closest: closest_of(universe, StepKind::Assertion, assertion),
                    },
                )
            }
        },
        HumaneTestStep::Snapshot { snapshot, orig, .. } => Some(
            MissingStep {
                kind: StepKind::Retrieval,
                original: orig.clone(),
                comparator: snapshot.get_comparison_string(),
                closest: closest_of(universe, StepKind::Retrieval, snapshot),
            },
        ),
    }
}

/// The word for a role in a message.
pub open spec fn kind_word(kind: StepKind) -> Seq<char> {
    match kind {
        StepKind::Instruction => "Instruction"@,
        StepKind::Retrieval => "Retrieval"@,
        StepKind::Assertion => "Assertion"@,
    }
}

/// The word for the capabilities of a role in a message.
pub open spec fn kind_plural(kind: StepKind) -> Seq<char> {
    match kind {
        StepKind::Instruction => "instructions"@,
        StepKind::Retrieval => "retrievals"@,
        StepKind::Assertion => "assertions"@,
    }
}

/// Each text after a bullet.
pub open spec fn bulleted(items: Seq<Seq<char>>) -> Seq<Seq<char>> {
    Seq::new(items.len(), |i: int| "\u{2022} "@ + items[i])
}

/// The message that explains a step that could not be resolved.
pub open spec fn missing_step_text(
    kind: StepKind,
    original: Seq<char>,
    comparator: Seq<char>,
    closest: Seq<Seq<char>>,
) -> Seq<char> {
    "Unable to resolve: \""@ + original + "\"\n"@ + kind_word(kind) + " \""@ + comparator
        + "\" was not found.\n"@ + if closest.len() == 0 {
        "No similar "@ + kind_plural(kind) + " found"@
    } else {
        "Closest "@ + kind_plural(kind) + ":\n"@ + join_text(bulleted(closest), "\n"@)
    }
}

impl MissingStep {
    /// The message that explains the step to the user.
    pub fn message(&self) -> (r: String)
        ensures
            r@ == missing_step_text(
                self.kind,
                self.original@,
                self.comparator@,
                texts(self.closest@),
            ),
    {
        let mut out = String::new();
        out.append("Unable to resolve: \"");
        out.append(self.original.as_str());
        out.append("\"\n");
        let (word, plural) = match self.kind {
            StepKind::Instruction => ("Instruction", "instructions"),
            StepKind::Retrieval => ("Retrieval", "retrievals"),
            StepKind::Assertion => ("Assertion", "assertions"),
        };
        out.append(word);
        out.append(" \"");
        out.append(self.comparator.as_str());
        out.append("\" was not found.\n");
        if self.closest.len() == 0 {
            out.append("No similar ");
            out.append(plural);
            out.append(" found");
        } else {
            let mut lines: Vec<String> = Vec::new();
            let mut i: usize = 0;
            while i < self.closest.len()
                invariant
                    i <= self.closest.len(),
                    lines@.len() == i,
                    forall|j: int| 0 <= j < i ==> lines@[j]@ == "\u{2022} "@ + self.closest@[j]@,
                decreases self.closest.len() - i,
            {
                let mut line = String::new();
                line.append("\u{2022} ");
                line.append(self.closest[i].as_str());
                assert(line@ =~= "\u{2022} "@ + self.closest@[i as int]@);
                lines.push(line);
                i = i + 1;
            }
            assert(texts(lines@) =~= bulleted(texts(self.closest@)));
            out.append("Closest ");
            out.append(plural);
            out.append(":\n");
            out.append(join(&lines, "\n").as_str());
        }
        assert(out@ =~= missing_step_text(
            self.kind,
            self.original@,
            self.comparator@,
            texts(self.closest@),
        ));
        out
    }
}

/// How the run of one test has ended for the summary: the outcome of the run,
/// and whether the user has accepted its new snapshots.
#[derive(Debug)]
pub struct TestVerdict {
    pub outcome: Result<(), HoldingError>,
    pub accepted: bool,
}

/// Whether a test counts as passed: it passed, or its snapshots changed and
/// the user has accepted them.
pub open spec fn counts_as_passed(verdict: TestVerdict) -> bool {
    match verdict.outcome {
        Ok(()) => true,
        Err(HoldingError::SnapFailure { .. }) => verdict.accepted,
        Err(HoldingError::TestFailure) => false,
    }
}

/// How many of the first `n` tests count as passed.
pub open spec fn passed_among(verdicts: Seq<TestVerdict>, n: int) -> nat
    decreases n,
{
    if n <= 0 || n > verdicts.len() {
        0
    } else if counts_as_passed(verdicts[n - 1]) {
        passed_among(verdicts, n - 1) + 1
    } else {
        passed_among(verdicts, n - 1)
    }
}

/// The numbers of the summary: how many tests count as passed and how many as
/// failed. Every test counts as one or the other, and the run as a whole has
/// failed if a test has.
pub fn tally(verdicts: &Vec<TestVerdict>) -> (r: (usize, usize))
    ensures
        r.0 == passed_among(verdicts@, verdicts@.len() as int),
        r.0 + r.1 == verdicts@.len(),
{
    let mut passing: usize = 0;
    let mut failing: usize = 0;
    let mut i: usize = 0;
    while i < verdicts.len()
        invariant
            i <= verdicts.len(),
            passing == passed_among(verdicts@, i as int),
            passing + failing == i,
        decreases verdicts.len() - i,
    {
        let passed = match &verdicts[i].outcome {
            Ok(()) => true,
            Err(HoldingError::SnapFailure { .. }) => verdicts[i].accepted,
            Err(HoldingError::TestFailure) => false,
        };
        if passed {
            passing = passing + 1;
        } else {
            failing = failing + 1;
        }
        i = i + 1;
    }
    (passing, failing)
}

/// The names of the test files, in their order.
pub open spec fn file_names(tests: Seq<(String, HumaneTestFile)>) -> Seq<Seq<char>> {
    Seq::new(tests.len(), |i: int| tests[i].1.name@)
}

/// No two of the texts are the same.
pub open spec fn all_distinct(items: Seq<Seq<char>>) -> bool {
    forall|i: int, j: int| 0 <= i < j < items.len() ==> #[trigger] items[i] != #[trigger] items[j]
}

/// One of the first `n` files could not be read, or has the name of a file
/// before it.
pub open spec fn faulty(parsed: Seq<Result<HumaneTestFile, HumaneInputError>>, n: int) -> bool {
    ||| exists|i: int| 0 <= i < n && (#[trigger] parsed[i]) is Err
    ||| exists|i: int, j: int|
        0 <= i < j < n && (#[trigger] parsed[i]) is Ok && (#[trigger] parsed[j]) is Ok
            && parsed[i]->Ok_0.name@ == parsed[j]->Ok_0.name@
}

/// The first of the first `n` files that was read and has the name `name`.
pub open spec fn first_named(
    parsed: Seq<Result<HumaneTestFile, HumaneInputError>>,
    name: Seq<char>,
    n: int,
) -> Option<int>
    decreases n,
{
    if n <= 0 {
        None
    } else {
        match first_named(parsed, name, n - 1) {
            Some(i) => Some(i),
            None => if parsed[n - 1] is Ok && parsed[n - 1]->Ok_0.name@ == name {
                Some(n - 1)
            } else {
                None
            },
        }
    }
}

/// The file at position `i` is an error of the run: it could not be read, or
/// a file before it has its name.
pub open spec fn fault_at(parsed: Seq<Result<HumaneTestFile, HumaneInputError>>, i: int) -> bool {
    match parsed[i] {
        Err(_) => true,
        Ok(file) => first_named(parsed, file.name@, i) is Some,
    }
}

/// `e` is the error of the run for the file at position `i`: the error with
/// which the file could not be read, or `DuplicateName` with the path of the
/// first file that has its name, its own path and the name.
pub open spec fn reports_file(
    e: HumaneInputError,
    parsed: Seq<Result<HumaneTestFile, HumaneInputError>>,
    i: int,
) -> bool {
    match parsed[i] {
        Err(own) => e == own,
        Ok(file) => {
            &&& first_named(parsed, file.name@, i) matches Some(j)
            &&& e matches HumaneInputError::DuplicateName { path_one, path_two, name }
            &&& path_one@ == parsed[j]->Ok_0.file_path@
            &&& path_two@ == file.file_path@
            &&& name@ == file.name@
        },
    }
}

/// The positions among the first `n` files that are errors of the run, in
/// the order of the files.
pub open spec fn faults(parsed: Seq<Result<HumaneTestFile, HumaneInputError>>, n: int) -> Seq<int>
    decreases n,
{
    if n <= 0 {
        Seq::empty()
    } else if fault_at(parsed, n - 1) {
        faults(parsed, n - 1).push(n - 1)
    } else {
        faults(parsed, n - 1)
    }
}

/// The first file with a name has that name, was read, and no file before it
/// has the name; where there is none, no file that was read has the name.
pub proof fn lemma_first_named(
    parsed: Seq<Result<HumaneTestFile, HumaneInputError>>,
    name: Seq<char>,
    n: int,
)
    requires
        0 <= n <= parsed.len(),
    ensures
        match first_named(parsed, name, n) {
            Some(j) => {
                &&& 0 <= j < n
                &&& parsed[j] is Ok
                &&& parsed[j]->Ok_0.name@ == name
                &&& first_named(parsed, name, j) is None
            },
            None => forall|i: int|
                0 <= i < n ==> !((#[trigger] parsed[i]) is Ok && parsed[i]->Ok_0.name@ == name),
        },
    decreases n,
{
    if n > 0 {
        lemma_first_named(parsed, name, n - 1);
    }
}

/// Gathers the test files of a run, each under its normalized path.
///
/// A file that could not be read is an error, and so is a file whose name
/// another file before it has: `DuplicateName` with the two paths. Where there
/// is an error the run has no test files, and the errors are handed back in
/// the order of the files. Otherwise every file is there, in the order in
/// which the files came, and no two of them have the same name.
pub fn collect_tests(parsed: Vec<Result<HumaneTestFile, HumaneInputError>>) -> (r: Result<
    Vec<(String, HumaneTestFile)>,
    Vec<HumaneInputError>,
>)
    ensures
        r is Err <==> faulty(parsed@, parsed@.len() as int),
        match r {
            Ok(tests) => {
                &&& tests@.len() == parsed@.len()
                &&& all_distinct(file_names(tests@))
                &&& forall|i: int|
                    0 <= i < tests@.len() ==> {
                        &&& (#[trigger] parsed@[i]) is Ok
                        &&& (#[trigger] tests@[i]).1 == parsed@[i]->Ok_0
                        &&& tests@[i].0@ == normalized_path(tests@[i].1.file_path@)
                        &&& tests@[i].0@.len() > 0
                    }
            },
            Err(errors) => {
                &&& errors@.len() > 0
                &&& errors@.len() == faults(parsed@, parsed@.len() as int).len()
                &&& forall|k: int|
                    0 <= k < errors@.len() ==> reports_file(
                        #[trigger] errors@[k],
                        parsed@,
                        faults(parsed@, parsed@.len() as int)[k],
                    )
            },
        },
{
    let ghost total = parsed@;
    let mut rest = parsed;
    assert(total.len() == rest.len());
    let mut tests: Vec<(String, HumaneTestFile)> = Vec::new();
    let mut errors: Vec<HumaneInputError> = Vec::new();
    let mut done: usize = 0;
    let ghost mut origin: Seq<int> = Seq::empty();
    let ghost mut slot: Seq<int> = Seq::empty();
    while rest.len() > 0
        invariant
            slot.len() == done,
            forall|i: int|
                0 <= i < done && !fault_at(total, i) ==> 0 <= #[trigger] slot[i] < tests@.len()
                    && origin[slot[i]] == i,
            errors@.len() == faults(total, done as int).len(),
            forall|k: int|
                0 <= k < errors@.len() ==> reports_file(
                    #[trigger] errors@[k],
                    total,
                    faults(total, done as int)[k],
                ),
            done + rest@.len() == total.len(),
            total.len() <= usize::MAX,
            tests@.len() + errors@.len() == done,
            all_distinct(file_names(tests@)),
            rest@ == total.subrange(done as int, total.len() as int),
            origin.len() == tests@.len(),
            forall|k: int|
                0 <= k < tests@.len() ==> {
                    &&& 0 <= #[trigger] origin[k] < done
                    &&& total[origin[k]] is Ok
                    &&& tests@[k].1 == total[origin[k]]->Ok_0
                    &&& tests@[k].0@ == normalized_path(tests@[k].1.file_path@)
                    &&& tests@[k].0@.len() > 0
                },
            errors@.len() == 0 ==> forall|k: int| 0 <= k < done ==> #[trigger] origin[k] == k,
            (errors@.len() > 0) == faulty(total, done as int),
        decreases rest@.len(),
    {
        let ghost before = rest@;
        let ghost was_faulty = faulty(total, done as int);
        let next = rest.remove(0);
        proof {
            assert(next == before[0]);
            assert(before[0] == total[done as int]);
            assert(rest@ =~= total.subrange(done + 1, total.len() as int));
        }
        match next {
            Ok(file) => {
                let mut clash: Option<usize> = None;
                let mut k: usize = 0;
                while k < tests.len() && clash.is_none()
                    invariant
                        k <= tests.len(),
                        clash is None ==> forall|j: int|
                            0 <= j < k ==> #[trigger] file_names(tests@)[j] != file.name@,
                        clash matches Some(at) ==> at < tests@.len() && tests@[at as int].1.name@
                            == file.name@,
                    decreases tests.len() - k,
                {
                    if same_text(tests[k].1.name.as_str(), file.name.as_str()) {
                        clash = Some(k);
                    } else {
                        assert(file_names(tests@)[k as int] == tests@[k as int].1.name@);
                    }
                    k = k + 1;
                }
                proof {
                    lemma_first_named(total, file.name@, done as int);
                    match first_named(total, file.name@, done as int) {
                        Some(first) => {
                            assert(!fault_at(total, first));
                            let k = slot[first];
                            assert(file_names(tests@)[k] == tests@[k].1.name@);
                            match clash {
                                Some(at) => {
                                    assert(file_names(tests@)[at as int] == tests@[at as int].1.name@);
                                    assert(k == at);
                                },
                                None => {},
                            }
                        },
                        None => {
                            match clash {
                                Some(at) => {
                                    assert(total[origin[at as int]] is Ok);
                                },
                                None => {},
                            }
                        },
                    }
                }
                let ghost errors_before = errors@;
                match clash {
                    Some(at) => {
                        errors.push(
                            HumaneInputError::DuplicateName {
                                path_one: tests[at].1.file_path.clone(),
                                path_two: file.file_path.clone(),
                                name: file.name.clone(),
                            },
                        );
                        proof {
                            let i = origin[at as int];
                            assert(total[i] is Ok && total[done as int] is Ok);
                            assert(total[i]->Ok_0.name@ == total[done as int]->Ok_0.name@);
                            assert(faulty(total, done + 1));
                            slot = slot.push(-1);
                            assert(fault_at(total, done as int));
                            assert forall|k: int| 0 <= k < errors@.len() implies reports_file(
                                #[trigger] errors@[k],
                                total,
                                faults(total, done + 1)[k],
                            ) by {
                                if k < errors_before.len() {
                                    assert(errors@[k] == errors_before[k]);
                                }
                            }
                        }
                    },
                    None => {
                        let key = normalize(file.file_path.as_str());
                        let ghost names_before = file_names(tests@);
                        let ghost tests_before = tests@;
                        tests.push((key, file));
                        proof {
                            origin = origin.push(done as int);
                            slot = slot.push(tests@.len() - 1);
                            assert(!fault_at(total, done as int));
                            let names = file_names(tests@);
                            assert forall|i: int, j: int| 0 <= i < j < names.len() implies #[trigger] names[i]
                                != #[trigger] names[j] by {
                                assert(names[i] == names_before[i]);
                                if j < names.len() - 1 {
                                    assert(names[j] == names_before[j]);
                                }
                            }
                            assert forall|k: int| 0 <= k < tests@.len() implies {
                                &&& 0 <= #[trigger] origin[k] < done + 1
                                &&& total[origin[k]] is Ok
                                &&& tests@[k].1 == total[origin[k]]->Ok_0
                                &&& tests@[k].0@ == normalized_path(tests@[k].1.file_path@)
                                &&& tests@[k].0@.len() > 0
                            } by {
                                if k < tests_before.len() {
                                    assert(tests@[k] == tests_before[k]);
                                }
                            }
                            if errors@.len() == 0 {
                                // every file so far is kept, so a fault among
                                // them would be a clash that was not found
                                if faulty(total, done + 1) {
                                    if exists|i: int| 0 <= i < done + 1 && (#[trigger] total[i]) is Err {
                                        let i = choose|i: int|
                                            0 <= i < done + 1 && (#[trigger] total[i]) is Err;
                                        if i < done {
                                            assert(faulty(total, done as int));
                                        }
                                    } else {
                                        let (i, j) = choose|i: int, j: int|
                                            0 <= i < j < done + 1 && (#[trigger] total[i]) is Ok && (
                                            #[trigger] total[j]) is Ok && total[i]->Ok_0.name@
                                                == total[j]->Ok_0.name@;
                                        if j < done {
                                            assert(faulty(total, done as int));
                                        } else {
                                            assert(origin[i] == i);
                                            assert(names_before[i] == tests_before[i].1.name@);
                                            assert(names_before[i] != total[done as int]->Ok_0.name@);
                                        }
                                    }
                                }
                            } else {
                                assert(faulty(total, done + 1)) by {
                                    lemma_faulty_stays(total, done as int);
                                }
                            }
                        }
                    },
                }
            },
            Err(e) => {
                let ghost errors_before = errors@;
                errors.push(e);
                proof {
                    assert(total[done as int] is Err);
                    assert(faulty(total, done + 1));
                    slot = slot.push(-1);
                    assert forall|k: int| 0 <= k < errors@.len() implies reports_file(
                        #[trigger] errors@[k],
                        total,
                        faults(total, done + 1)[k],
                    ) by {
                        if k < errors_before.len() {
                            assert(errors@[k] == errors_before[k]);
                        }
                    }
                }
            },
        }
        done = done + 1;
    }
    if errors.len() > 0 {
        Err(errors)
    } else {
        proof {
            assert forall|i: int| 0 <= i < tests@.len() implies {
                &&& (#[trigger] total[i]) is Ok
                &&& (#[trigger] tests@[i]).1 == total[i]->Ok_0
                &&& tests@[i].0@ == normalized_path(tests@[i].1.file_path@)
                &&& tests@[i].0@.len() > 0
            } by {
                assert(origin[i] == i);
            }
        }
        Ok(tests)
    }
}

/// A fault among the first files is a fault among one more of them.
pub proof fn lemma_faulty_stays(parsed: Seq<Result<HumaneTestFile, HumaneInputError>>, n: int)
    requires
        faulty(parsed, n),
    ensures
        faulty(parsed, n + 1),
{
    if exists|i: int| 0 <= i < n && (#[trigger] parsed[i]) is Err {
        let i = choose|i: int| 0 <= i < n && (#[trigger] parsed[i]) is Err;
        assert(0 <= i < n + 1 && parsed[i] is Err);
    } else {
        let (i, j) = choose|i: int, j: int|
            0 <= i < j < n && (#[trigger] parsed[i]) is Ok && (#[trigger] parsed[j]) is Ok
                && parsed[i]->Ok_0.name@ == parsed[j]->Ok_0.name@;
        assert(0 <= i < j < n + 1 && parsed[i] is Ok && parsed[j] is Ok && parsed[i]->Ok_0.name@
            == parsed[j]->Ok_0.name@);
    }
}

} // verus!

verus! {

/// What the user is told about the failure of a test.
#[derive(Debug)]
pub enum FailureReport {
    /// No capability stands for a part of the step: the part and the closest
    /// definitions.
    Missing(MissingStep),
    /// Anything else: the message of the failure.
    Message(String),
}

/// What the user is told about the failure of a test. A step for which no
/// capability is registered is explained with the closest definitions of the
/// role of its unresolved part; any other failure is told by its message.
pub fn describe_failure(e: &crate::errors::HumaneTestError, universe: &Universe) -> (r:
    FailureReport)
    ensures
        match (
            e.err matches crate::errors::HumaneStepError::External(
                HumaneInputError::NonexistentStep,
            ),
            unresolved_part(e.step@, universe),
        ) {
            (true, Some((kind, part))) => {
                &&& r matches FailureReport::Missing(missing)
                &&& missing.kind == kind
                &&& missing.comparator@ == skeleton(part)
                &&& suggests(definitions_of(universe, kind), skeleton(part), texts(missing.closest@))
                &&& definitions_of(universe, kind).len() > 0 ==> missing.closest@.len() > 0
            },
            _ => r matches FailureReport::Message(text) && text@
                == crate::errors::test_error_text(e.step@, e.err),
        },
{
    let missing = match &e.err {
        crate::errors::HumaneStepError::External(HumaneInputError::NonexistentStep) => {
            explain_missing_step(&e.step, universe)
        },
        _ => None,
    };
    match missing {
        Some(missing) => FailureReport::Missing(missing),
        None => FailureReport::Message(e.message()),
    }
}

} // verus!
