//! What all tests of a run share: the test files, the capabilities and the
//! configuration. It is built once, before the first test runs, and only read
//! after that.

use crate::definitions::{HumaneAssertion, HumaneInstruction, HumaneRetriever};
use crate::errors::HumaneInputError;
use crate::options::HumaneContext;
use crate::registry::Registry;
use crate::steps::{option_text, HumaneTestFile};
use crate::suggest::similarity_score;
use crate::text::{same_text, texts};
use normalize_path::NormalizePath;
use vstd::prelude::*;

verus! {

/// The path `file` as seen from the directory `dir`.
pub uninterp spec fn joined_path(dir: Seq<char>, file: Seq<char>) -> Seq<char>;

/// The path without redundant separators, `.` and `..`.
pub uninterp spec fn normalized_path(path: Seq<char>) -> Seq<char>;

/// The position, among the first `n` options, of the option that is most
/// similar to `target`: the first of those with the highest rating.
pub open spec fn best_option(target: Seq<char>, options: Seq<Seq<char>>, n: int) -> int
    decreases n,
{
    if n <= 1 {
        0
    } else if similarity_score(options[n - 1], target) > similarity_score(
        options[best_option(target, options, n - 1)],
        target,
    ) {
        n - 1
    } else {
        best_option(target, options, n - 1)
    }
}

/// The option that is most similar to `target`, if there is an option.
pub open spec fn best_similarity(target: Seq<char>, options: Seq<Seq<char>>) -> Option<
    Seq<char>,
> {
    if options.len() == 0 {
        None
    } else {
        Some(options[best_option(target, options, options.len() as int)])
    }
}

/// The closest of some options is one of them, no option is more similar to
/// the target than it is, and every option before it is less similar.
pub proof fn law_closest_is_most_similar(target: Seq<char>, options: Seq<Seq<char>>, n: int)
    requires
        0 < n <= options.len(),
    ensures
        0 <= best_option(target, options, n) < n,
        forall|j: int|
            0 <= j < n ==> similarity_score(#[trigger] options[j], target) <= similarity_score(
                options[best_option(target, options, n)],
                target,
            ),
        forall|j: int|
            0 <= j < best_option(target, options, n) ==> similarity_score(
                #[trigger] options[j],
                target,
            ) < similarity_score(options[best_option(target, options, n)], target),
    decreases n,
{
    if n > 1 {
        law_closest_is_most_similar(target, options, n - 1);
    }
}

/// `std::path::Path::join`: the path `file` as seen from `dir`, by the rules
/// of the platform for which the library is built. The result is named: it is
/// `joined_path` of the two.
#[verifier::external_body]
pub(crate) fn join_path(dir: &str, file: &str) -> (r: String)
    ensures
        r@ == joined_path(dir@, file@),
{
    std::path::Path::new(dir).join(file).to_string_lossy().into_owned()
}

/// `normalize_path::NormalizePath::normalize`: the path with its redundant
/// separators and its `.` and `..` components collapsed, without looking at
/// the file system. The result is named: it is `normalized_path` of the path.
/// It is never empty, as a path that collapses to nothing becomes `.`.
#[verifier::external_body]
pub(crate) fn normalize(path: &str) -> (r: String)
    ensures
        r@ == normalized_path(path@),
        r@.len() > 0,
{
    std::path::Path::new(path).normalize().to_string_lossy().into_owned()
}

/// `similar_string::find_best_similarity`: nothing if there is no option;
/// otherwise the option whose rating against the target, as
/// `similar_string::compare_similarity` gives it, is the highest, and the
/// first of them where several have that rating.
#[verifier::external_body]
fn closest_text(target: &str, options: &Vec<String>) -> (r: Option<String>)
    ensures
        option_text(r) == best_similarity(target@, texts(options@)),
{
    similar_string::find_best_similarity(target, options).map(|found| found.0)
}

/// What stands for the closest path where there is no path at all.
pub open spec fn nothing_found() -> Seq<char> {
    "<nothing found>"@
}

/// What all tests of a run share.
pub struct Universe {
    /// The test files, each under its normalized path.
    pub tests: Vec<(String, HumaneTestFile)>,
    pub instructions: Registry<Box<dyn HumaneInstruction>>,
    pub retrievers: Registry<Box<dyn HumaneRetriever>>,
    pub assertions: Registry<Box<dyn HumaneAssertion>>,
    pub ctx: HumaneContext,
}

/// The position of the first of the paths that is `path`, if there is one.
pub open spec fn first_path(paths: Seq<Seq<char>>, path: Seq<char>) -> Option<int>
    decreases paths.len(),
{
    if paths.len() == 0 {
        None
    } else {
        match first_path(paths.drop_last(), path) {
            Some(at) => Some(at),
            None => if paths.last() == path {
                Some(paths.len() - 1)
            } else {
                None
            },
        }
    }
}

/// `first_path` finds the first position that holds the path.
pub proof fn lemma_first_path(paths: Seq<Seq<char>>, path: Seq<char>)
    ensures
        match first_path(paths, path) {
            Some(at) => 0 <= at < paths.len() && paths[at] == path && forall|j: int|
                0 <= j < at ==> #[trigger] paths[j] != path,
            None => forall|j: int| 0 <= j < paths.len() ==> #[trigger] paths[j] != path,
        },
    decreases paths.len(),
{
    if paths.len() > 0 {
        let shorter = paths.drop_last();
        lemma_first_path(shorter, path);
        assert forall|j: int| 0 <= j < shorter.len() implies shorter[j] == paths[j] by {}
        match first_path(shorter, path) {
            Some(at) => {
                assert(shorter[at] == paths[at]);
                assert forall|j: int| 0 <= j < at implies #[trigger] paths[j] != path by {
                    assert(shorter[j] == paths[j]);
                }
            },
            None => {
                assert forall|j: int| 0 <= j < shorter.len() implies #[trigger] paths[j]
                    != path by {
                    assert(shorter[j] == paths[j]);
                }
            },
        }
    }
}

impl Universe {
    /// The paths of the test files, in their order.
    pub open spec fn paths(&self) -> Seq<Seq<char>> {
        Seq::new(self.tests@.len(), |i: int| self.tests@[i].0@)
    }

    /// The paths of the test files, in their order.
    pub fn test_paths(&self) -> (r: Vec<String>)
        ensures
            texts(r@) == self.paths(),
    {
        let mut out: Vec<String> = Vec::new();
        let mut i: usize = 0;
        while i < self.tests.len()
            invariant
                i <= self.tests.len(),
                out@.len() == i,
                forall|j: int| 0 <= j < i ==> out@[j]@ == self.tests@[j].0@,
            decreases self.tests.len() - i,
        {
            out.push(self.tests[i].0.clone());
            i = i + 1;
        }
        assert(texts(out@) =~= self.paths());
        out
    }

    /// The position of the test file under `path`, if there is one.
    pub fn find_test(&self, path: &str) -> (r: Option<usize>)
        ensures
            match r {
                Some(at) => first_path(self.paths(), path@) == Some(at as int) && at
                    < self.tests@.len(),
                None => first_path(self.paths(), path@) is None,
            },
    {
        let mut i: usize = 0;
        while i < self.tests.len()
            invariant
                i <= self.tests.len(),
                forall|j: int| 0 <= j < i ==> #[trigger] self.paths()[j] != path@,
            decreases self.tests.len() - i,
        {
            if same_text(self.tests[i].0.as_str(), path) {
                proof {
                    assert(self.paths()[i as int] == path@);
                    lemma_first_path(self.paths(), path@);
                    match first_path(self.paths(), path@) {
                        Some(at) => {
                            if at < i {
                                assert(self.paths()[at] != path@);
                            }
                        },
                        None => {
                            assert(self.paths()[i as int] != path@);
                        },
                    }
                }
                return Some(i);
            }
            assert(self.paths()[i as int] == self.tests@[i as int].0@);
            i = i + 1;
        }
        proof {
            lemma_first_path(self.paths(), path@);
            match first_path(self.paths(), path@) {
                Some(at) => {
                    assert(self.paths()[at] != path@);
                },
                None => {},
            }
        }
        None
    }

    /// Finds the test file that a reference names. The path of the reference
    /// is taken from the directory of the file that refers, and normalized; the
    /// file is the one under that path. Where there is none, the reference is
    /// refused with `InvalidRef`, which holds the path and the closest of the
    /// paths that there are, or `<nothing found>` where there is no test file
    /// at all.
    pub fn resolve_ref(&self, file_directory: &str, other_file: &str) -> (r: Result<
        usize,
        HumaneInputError,
    >)
        ensures
            r matches Ok(found) ==> found < self.tests@.len(),
            match first_path(
                self.paths(),
                normalized_path(joined_path(file_directory@, other_file@)),
            ) {
                Some(at) => r matches Ok(found) && found as int == at,
                None => {
                    &&& r matches Err(HumaneInputError::InvalidRef { input, closest })
                    &&& input@ == normalized_path(joined_path(file_directory@, other_file@))
                    &&& closest@ == match best_similarity(input@, self.paths()) {
                        Some(path) => path,
                        None => nothing_found(),
                    }
                    &&& (forall|i: int| 0 <= i < self.paths().len() ==> (#[trigger] self.paths()[i]).len() > 0)
                        ==> closest@.len() > 0
                },
            },
    {
        let target_path = normalize(join_path(file_directory, other_file).as_str());
        match self.find_test(target_path.as_str()) {
            Some(at) => Ok(at),
            None => {
                let available = self.test_paths();
                let closest = match closest_text(target_path.as_str(), &available) {
                    Some(path) => {
                        proof {
                            let options = texts(available@);
                            law_closest_is_most_similar(
                                target_path@,
                                options,
                                options.len() as int,
                            );
                            let i = best_option(target_path@, options, options.len() as int);
                            assert(options[i] == path@);
                            assert(self.paths()[i] == path@);
                        }
                        path
                    },
                    None => {
                        proof {
                            reveal_strlit("<nothing found>");
                        }
                        "<nothing found>".to_string()
                    },
                };
                Err(HumaneInputError::InvalidRef { input: target_path, closest })
            },
        }
    }
}

} // verus!
