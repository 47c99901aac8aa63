//! Which tests the user wants to run.

use crate::steps::HumaneFileType;
use crate::text::texts;
use crate::universe::Universe;
use vstd::prelude::*;

verus! {

/// Which tests run.
#[derive(Debug, PartialEq)]
pub enum RunMode {
    /// All test files that are tests.
    All,
    /// The test file under this path.
    One(String),
}

/// How a test is shown where the user picks one: its path, and its name in
/// brackets.
pub open spec fn choice_label(path: Seq<char>, name: Seq<char>) -> Seq<char> {
    path + " ("@ + name + ")"@
}

/// The positions of the first `n` test files that are tests of their own, in
/// their order.
pub open spec fn runnable(universe: &Universe, n: int) -> Seq<int>
    decreases n,
{
    if n <= 0 || n > universe.tests@.len() {
        Seq::empty()
    } else if universe.tests@[n - 1].1.file_type == HumaneFileType::Test {
        runnable(universe, n - 1).push(n - 1)
    } else {
        runnable(universe, n - 1)
    }
}

/// The test files that are tests of their own: their positions, in their
/// order.
pub fn runnable_tests(universe: &Universe) -> (r: Vec<usize>)
    ensures
        r@.len() == runnable(universe, universe.tests@.len() as int).len(),
        forall|i: int|
            0 <= i < r@.len() ==> r@[i] as int == runnable(
                universe,
                universe.tests@.len() as int,
            )[i] && r@[i] < universe.tests@.len(),
{
    let mut out: Vec<usize> = Vec::new();
    let mut i: usize = 0;
    while i < universe.tests.len()
        invariant
            i <= universe.tests.len(),
            out@.len() == runnable(universe, i as int).len(),
            forall|j: int|
                0 <= j < out@.len() ==> out@[j] as int == runnable(universe, i as int)[j]
                    && out@[j] < universe.tests@.len(),
        decreases universe.tests.len() - i,
    {
        if universe.tests[i].1.file_type == HumaneFileType::Test {
            out.push(i);
        }
        i = i + 1;
    }
    out
}

/// The test files that a mode runs: all tests, or the one under the path of
/// the mode if there is one.
pub fn tests_to_run(universe: &Universe, mode: &RunMode) -> (r: Vec<usize>)
    ensures
        forall|i: int| 0 <= i < r@.len() ==> r@[i] < universe.tests@.len(),
        match mode {
            RunMode::All => r@.len() == runnable(universe, universe.tests@.len() as int).len()
                && forall|i: int|
                0 <= i < r@.len() ==> r@[i] as int == runnable(
                    universe,
                    universe.tests@.len() as int,
                )[i],
            RunMode::One(path) => match crate::universe::first_path(universe.paths(), path@) {
                Some(at) => r@.len() == 1 && r@[0] as int == at,
                None => r@.len() == 0,
            },
        },
{
    match mode {
        RunMode::All => runnable_tests(universe),
        RunMode::One(path) => {
            let mut out: Vec<usize> = Vec::new();
            match universe.find_test(path.as_str()) {
                Some(at) => {
                    out.push(at);
                },
                None => {},
            }
            out
        },
    }
}

/// The label of the test file at position `at`.
pub fn test_label(universe: &Universe, at: usize) -> (r: String)
    requires
        at < universe.tests@.len(),
    ensures
        r@ == choice_label(universe.tests@[at as int].0@, universe.tests@[at as int].1.name@),
{
    let mut out = String::new();
    out.append(universe.tests[at].0.as_str());
    out.append(" (");
    out.append(universe.tests[at].1.name.as_str());
    out.append(")");
    assert(out@ =~= choice_label(
        universe.tests@[at as int].0@,
        universe.tests@[at as int].1.name@,
    ));
    out
}

/// The mode that the answers of the user stand for: all tests if the first
/// answer is the first of its choices; otherwise the test that the second
/// answer picks among the tests of the universe, and all tests if it picks
/// none.
pub fn get_run_mode(universe: &Universe, mode: usize, picked: usize) -> (r: RunMode)
    ensures
        mode == 0 ==> r is All,
        mode != 0 && picked < runnable(universe, universe.tests@.len() as int).len() ==> (r
            matches RunMode::One(path) && path@ == universe.tests@[runnable(
            universe,
            universe.tests@.len() as int,
        )[picked as int]].0@),
        mode != 0 && picked >= runnable(universe, universe.tests@.len() as int).len() ==> r
            is All,
{
    if mode == 0 {
        return RunMode::All;
    }
    let tests = runnable_tests(universe);
    if picked < tests.len() {
        RunMode::One(universe.tests[tests[picked]].0.clone())
    } else {
        RunMode::All
    }
}

} // verus!

verus! {

/// What the user sees while a snapshot is reviewed: the comparison with the
/// snapshot that was there, or the new document alone.
#[derive(Debug, Clone, Copy, PartialEq, Eq, Structural)]
pub enum ReviewView {
    Diff,
    Source,
}

/// What a key means while a snapshot is reviewed.
#[derive(Debug, Clone, Copy, PartialEq, Eq, Structural)]
pub enum ReviewAction {
    /// The new snapshot is accepted.
    Accept,
    /// The new snapshot is rejected.
    Reject,
    /// The other view is shown once so many lines of the terminal have been
    /// cleared.
    Toggle { clear: usize, next: ReviewView },
    /// The key means nothing.
    Ignore,
}

/// How many lines are cleared below what is shown: the prompt and the line
/// above it.
pub const PROMPT_LINES: usize = 2;

/// What a key means while a snapshot is reviewed: `a` accepts, `r` rejects,
/// `d` clears what is shown, with its prompt, and shows the other view; any
/// other key means nothing.
pub fn review_key(key: char, view: ReviewView, diff_height: usize, source_height: usize) -> (r:
    ReviewAction)
    ensures
        r == if key == 'a' {
            ReviewAction::Accept
        } else if key == 'r' {
            ReviewAction::Reject
        } else if key == 'd' {
            match view {
                ReviewView::Diff => ReviewAction::Toggle {
                    clear: if diff_height <= usize::MAX - PROMPT_LINES {
                        (diff_height + PROMPT_LINES) as usize
                    } else {
                        usize::MAX
                    },
                    next: ReviewView::Source,
                },
                ReviewView::Source => ReviewAction::Toggle {
                    clear: if source_height <= usize::MAX - PROMPT_LINES {
                        (source_height + PROMPT_LINES) as usize
                    } else {
                        usize::MAX
                    },
                    next: ReviewView::Diff,
                },
            }
        } else {
            ReviewAction::Ignore
        },
{
    if key == 'a' {
        ReviewAction::Accept
    } else if key == 'r' {
        ReviewAction::Reject
    } else if key == 'd' {
        match view {
            ReviewView::Diff => ReviewAction::Toggle {
                clear: if diff_height <= usize::MAX - PROMPT_LINES {
                    diff_height + PROMPT_LINES
                } else {
                    usize::MAX
                },
                next: ReviewView::Source,
            },
            ReviewView::Source => ReviewAction::Toggle {
                clear: if source_height <= usize::MAX - PROMPT_LINES {
                    source_height + PROMPT_LINES
                } else {
                    usize::MAX
                },
                next: ReviewView::Diff,
            },
        }
    } else {
        ReviewAction::Ignore
    }
}

} // verus!
