//! The configuration of a run.

use vstd::prelude::*;

verus! {

/// What the user can set.
#[derive(Debug)]
pub struct HumaneParams {
    /// The location from which to look for test files.
    pub root: Option<String>,
    /// Print verbose logging while running.
    pub verbose: bool,
    /// Reduce logging to be stable.
    pub porcelain: bool,
    /// Ask the user which tests to run and whether to accept new snapshots.
    pub interactive: bool,
    /// Run all tests, also in interactive mode.
    pub all: bool,
    /// How many tests run at the same time.
    pub concurrency: usize,
    /// The delimiter that stands before and after a placeholder.
    pub placeholder_delimiter: String,
    /// Placeholder keys and the values that replace them, in the order in which
    /// they are applied.
    pub placeholders: Vec<(String, String)>,
}

/// The texts of a sequence of pairs of strings.
pub open spec fn pairs_view(pairs: Seq<(String, String)>) -> Seq<(Seq<char>, Seq<char>)> {
    Seq::new(pairs.len(), |i: int| (pairs[i].0@, pairs[i].1@))
}

/// A copy of a list of pairs of strings.
pub fn clone_pairs(pairs: &Vec<(String, String)>) -> (r: Vec<(String, String)>)
    ensures
        pairs_view(r@) == pairs_view(pairs@),
{
    let mut out: Vec<(String, String)> = Vec::new();
    let mut i: usize = 0;
    while i < pairs.len()
        invariant
            i <= pairs.len(),
            out@.len() == i,
            forall|j: int| 0 <= j < i ==> out@[j].0@ == pairs@[j].0@ && out@[j].1@ == pairs@[j].1@,
        decreases pairs.len() - i,
    {
        out.push((pairs[i].0.clone(), pairs[i].1.clone()));
        i = i + 1;
    }
    assert(pairs_view(out@) =~= pairs_view(pairs@));
    out
}

impl Default for HumaneParams {
    /// Ten tests at a time, `%` around placeholders, and nothing else set.
    fn default() -> (r: Self)
        ensures
            r.root is None,
            !r.verbose,
            !r.porcelain,
            !r.interactive,
            !r.all,
            r.concurrency == 10,
            r.placeholder_delimiter@ == "%"@,
            r.placeholders@.len() == 0,
    {
        HumaneParams {
            root: None,
            verbose: false,
            porcelain: false,
            interactive: false,
            all: false,
            concurrency: 10,
            placeholder_delimiter: "%".to_string(),
            placeholders: Vec::new(),
        }
    }
}

impl Clone for HumaneParams {
    fn clone(&self) -> (r: Self)
        ensures
            r.root == self.root,
            r.verbose == self.verbose,
            r.porcelain == self.porcelain,
            r.interactive == self.interactive,
            r.all == self.all,
            r.concurrency == self.concurrency,
            r.placeholder_delimiter@ == self.placeholder_delimiter@,
            pairs_view(r.placeholders@) == pairs_view(self.placeholders@),
    {
        HumaneParams {
            root: match &self.root {
                Some(root) => Some(root.clone()),
                None => None,
            },
            verbose: self.verbose,
            porcelain: self.porcelain,
            interactive: self.interactive,
            all: self.all,
            concurrency: self.concurrency,
            placeholder_delimiter: self.placeholder_delimiter.clone(),
            placeholders: clone_pairs(&self.placeholders),
        }
    }
}

/// The configuration that the runner works with.
#[derive(Debug)]
pub struct HumaneContext {
    pub version: String,
    pub working_directory: String,
    pub params: HumaneParams,
}

} // verus!

verus! {

/// What was given on the command line.
#[derive(Debug)]
pub struct CliMatches {
    pub verbose: bool,
    pub porcelain: bool,
    pub interactive: bool,
    pub root: Option<String>,
    pub concurrency: Option<usize>,
    /// Placeholders, each written as `key=value`.
    pub placeholders: Vec<String>,
}

/// What stands before and after the first `=` of each item, in their order;
/// `Err` holds the first item without `=`.
pub open spec fn parsed_placeholders(items: Seq<Seq<char>>) -> Result<
    Seq<(Seq<char>, Seq<char>)>,
    Seq<char>,
>
    decreases items.len(),
{
    if items.len() == 0 {
        Ok(Seq::empty())
    } else {
        match parsed_placeholders(items.drop_last()) {
            Err(bad) => Err(bad),
            Ok(before) => match crate::text::split_once(items.last(), "="@) {
                Some(pair) => Ok(before.push(pair)),
                None => Err(items.last()),
            },
        }
    }
}

/// The variables after each of the pairs has been set, in their order.
pub open spec fn with_variables(
    vars: Seq<(Seq<char>, Seq<char>)>,
    pairs: Seq<(Seq<char>, Seq<char>)>,
) -> Seq<(Seq<char>, Seq<char>)>
    decreases pairs.len(),
{
    if pairs.len() == 0 {
        vars
    } else {
        crate::civilization::with_variable(
            with_variables(vars, pairs.drop_last()),
            pairs.last().0,
            pairs.last().1,
        )
    }
}

/// The message for a placeholder that is not written as `key=value`.
pub open spec fn bad_placeholder_text(item: Seq<char>) -> Seq<char> {
    "Error parsing --placeholders, expected a value of key=value but received "@ + item
}

/// Once a prefix of the items holds an item without `=`, the whole list
/// reports that item.
pub proof fn lemma_bad_placeholder_stays(items: Seq<Seq<char>>, n: int)
    requires
        0 <= n <= items.len(),
        parsed_placeholders(items.subrange(0, n)) is Err,
    ensures
        parsed_placeholders(items) == parsed_placeholders(items.subrange(0, n)),
    decreases items.len() - n,
{
    if n == items.len() {
        assert(items.subrange(0, n) =~= items);
    } else {
        let next = items.subrange(0, n + 1);
        assert(next.drop_last() =~= items.subrange(0, n));
        lemma_bad_placeholder_stays(items, n + 1);
    }
}

/// Reads placeholders that are written as `key=value`.
pub fn parse_placeholders(items: &Vec<String>) -> (r: Result<Vec<(String, String)>, String>)
    ensures
        match r {
            Ok(pairs) => parsed_placeholders(crate::text::texts(items@)) == Ok::<
                Seq<(Seq<char>, Seq<char>)>,
                Seq<char>,
            >(pairs_view(pairs@)),
            Err(message) => parsed_placeholders(crate::text::texts(items@)) is Err && message@
                == bad_placeholder_text(parsed_placeholders(crate::text::texts(items@))->Err_0),
        },
{
    let ghost all = crate::text::texts(items@);
    let mut out: Vec<(String, String)> = Vec::new();
    let mut i: usize = 0;
    assert(all.subrange(0, 0) =~= Seq::<Seq<char>>::empty());
    assert(pairs_view(out@) =~= Seq::<(Seq<char>, Seq<char>)>::empty());
    while i < items.len()
        invariant
            i <= items.len(),
            all == crate::text::texts(items@),
            parsed_placeholders(all.subrange(0, i as int)) == Ok::<
                Seq<(Seq<char>, Seq<char>)>,
                Seq<char>,
            >(pairs_view(out@)),
        decreases items.len() - i,
    {
        let ghost before = pairs_view(out@);
        proof {
            let next = all.subrange(0, i + 1);
            assert(next.drop_last() =~= all.subrange(0, i as int));
            assert(next.last() == items@[i as int]@);
        }
        match crate::text::split_at_first(items[i].as_str(), "=") {
            Some((key, value)) => {
                out.push((key, value));
                proof {
                    assert(pairs_view(out@) =~= before.push((key@, value@)));
                }
            },
            None => {
                proof {
                    lemma_bad_placeholder_stays(all, i + 1);
                }
                let mut message = String::new();
                message.append(
                    "Error parsing --placeholders, expected a value of key=value but received ",
                );
                message.append(items[i].as_str());
                assert(message@ =~= bad_placeholder_text(items@[i as int]@));
                return Err(message);
            },
        }
        i = i + 1;
    }
    assert(all.subrange(0, all.len() as int) =~= all);
    Ok(out)
}

impl HumaneParams {
    /// Lets what was given on the command line take the place of what the
    /// configuration holds: a flag that is given is set, a root and a
    /// concurrency that are given replace those of the configuration, and each
    /// placeholder is added or gets its new value. A placeholder that is not
    /// written as `key=value` is refused with a message, and the configuration
    /// stays as it is.
    pub fn override_from_cli(&mut self, cli_matches: CliMatches) -> (r: Result<(), String>)
        ensures
            final(self).all == old(self).all,
            final(self).placeholder_delimiter == old(self).placeholder_delimiter,
            match parsed_placeholders(crate::text::texts(cli_matches.placeholders@)) {
                Ok(pairs) => {
                    &&& r is Ok
                    &&& final(self).verbose == (old(self).verbose || cli_matches.verbose)
                    &&& final(self).porcelain == (old(self).porcelain || cli_matches.porcelain)
                    &&& final(self).interactive == (old(self).interactive
                        || cli_matches.interactive)
                    &&& final(self).root == if cli_matches.root is Some {
                        cli_matches.root
                    } else {
                        old(self).root
                    }
                    &&& final(self).concurrency == if cli_matches.concurrency is Some {
                        cli_matches.concurrency->Some_0
                    } else {
                        old(self).concurrency
                    }
                    &&& pairs_view(final(self).placeholders@) == with_variables(
                        pairs_view(old(self).placeholders@),
                        pairs,
                    )
                },
                Err(bad) => {
                    &&& r matches Err(message)
                    &&& message@ == bad_placeholder_text(bad)
                    &&& *final(self) == *old(self)
                },
            },
    {
        let pairs = match parse_placeholders(&cli_matches.placeholders) {
            Ok(pairs) => pairs,
            Err(message) => {
                return Err(message);
            },
        };
        if cli_matches.verbose {
            self.verbose = true;
        }
        if cli_matches.porcelain {
            self.porcelain = true;
        }
        if cli_matches.interactive {
            self.interactive = true;
        }
        match cli_matches.root {
            Some(root) => {
                self.root = Some(root);
            },
            None => {},
        }
        match cli_matches.concurrency {
            Some(concurrency) => {
                self.concurrency = concurrency;
            },
            None => {},
        }
        let ghost wanted = pairs_view(pairs@);
        let ghost start = pairs_view(self.placeholders@);
        let mut done: usize = 0;
        let total = pairs.len();
        assert(wanted.subrange(0, 0) =~= Seq::<(Seq<char>, Seq<char>)>::empty());
        while done < total
            invariant
                done <= total,
                total == pairs@.len(),
                wanted == pairs_view(pairs@),
                pairs_view(self.placeholders@) == with_variables(
                    start,
                    wanted.subrange(0, done as int),
                ),
                self.all == old(self).all,
                self.placeholder_delimiter == old(self).placeholder_delimiter,
                self.verbose == (old(self).verbose || cli_matches.verbose),
                self.porcelain == (old(self).porcelain || cli_matches.porcelain),
                self.interactive == (old(self).interactive || cli_matches.interactive),
                self.root == if cli_matches.root is Some {
                    cli_matches.root
                } else {
                    old(self).root
                },
                self.concurrency == if cli_matches.concurrency is Some {
                    cli_matches.concurrency->Some_0
                } else {
                    old(self).concurrency
                },
            decreases total - done,
        {
            let key = pairs[done].0.clone();
            let value = pairs[done].1.clone();
            proof {
                assert(wanted[done as int] == (key@, value@));
                let next = wanted.subrange(0, done + 1);
                assert(next.drop_last() =~= wanted.subrange(0, done as int));
                assert(next.last() == wanted[done as int]);
            }
            crate::civilization::set_variable(&mut self.placeholders, key, value);
            done = done + 1;
        }
        assert(wanted.subrange(0, total as int) =~= wanted);
        Ok(())
    }
}

impl HumaneContext {
    /// The configuration that the runner works with: what the user has set,
    /// with the root seen from the working directory.
    pub fn load(config: HumaneParams, working_directory: String, version: String) -> (r: Result<
        Self,
        (),
    >)
        ensures
            r matches Ok(ctx) && ctx.version == version && ctx.working_directory
                == working_directory && ctx.params.verbose == config.verbose
                && ctx.params.porcelain == config.porcelain && ctx.params.interactive
                == config.interactive && ctx.params.all == config.all && ctx.params.concurrency
                == config.concurrency && ctx.params.placeholder_delimiter
                == config.placeholder_delimiter && ctx.params.placeholders == config.placeholders
                && match config.root {
                Some(root) => ctx.params.root matches Some(joined) && joined@
                    == crate::universe::joined_path(working_directory@, root@),
                None => ctx.params.root is None,
            },
    {
        let mut config = config;
        let root = match &config.root {
            Some(root) => Some(crate::universe::join_path(working_directory.as_str(), root.as_str())),
            None => None,
        };
        config.root = root;
        Ok(HumaneContext { working_directory, version, params: config })
    }
}

} // verus!
