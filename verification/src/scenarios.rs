//! Running scenarios against a binary: which scenarios run on a platform, and
//! the command line that a scenario builds.

use crate::text::{
    contains_text, has_prefix, replace_text, same_text, starts_with, str_contains, str_replace,
    texts,
};
use vstd::prelude::*;

verus! {

/// Where test files are looked for when nothing else is said: the current
/// directory.
pub fn default_test_files() -> (r: String)
    ensures
        r@ == "."@,
{
    ".".to_string()
}

/// The configuration as the user gives it.
#[derive(Debug)]
pub struct HumanHumaneConfig {
    /// Where to load test files from.
    pub test_file_root: String,
}

/// The configuration as the runner uses it.
#[derive(Debug)]
pub struct RobotHumaneConfig {
    pub test_file_root: String,
    pub version: String,
}

impl RobotHumaneConfig {
    /// The configuration of the runner for what the user has given.
    pub fn load(config: HumanHumaneConfig, version: String) -> (r: Self)
        ensures
            r.test_file_root == config.test_file_root,
            r.version == version,
    {
        RobotHumaneConfig { test_file_root: config.test_file_root, version }
    }
}

/// A runner of scenarios.
pub struct Humane {
    options: RobotHumaneConfig,
}

/// Whether `tag` is one of the tags.
pub open spec fn tagged(tags: Seq<Seq<char>>, tag: Seq<char>) -> bool {
    exists|i: int| 0 <= i < tags.len() && tags[i] == tag
}

/// Whether one of the tags names a platform.
pub open spec fn platform_limited(tags: Seq<Seq<char>>) -> bool {
    exists|i: int| 0 <= i < tags.len() && starts_with(tags[i], "platform-"@)
}

/// Whether a scenario with these tags runs on the operating system `os`. A
/// scenario tagged `skip` never runs. A scenario that names platforms runs
/// only on those: on Linux if it names `platform-linux` or `platform-unix`,
/// on macOS if it names `platform-macos` or `platform-unix`, on Windows if it
/// names `platform-windows`, and nowhere else. Any other scenario runs.
pub open spec fn scenario_runs(tags: Seq<Seq<char>>, os: Seq<char>) -> bool {
    if tagged(tags, "skip"@) {
        false
    } else if platform_limited(tags) {
        if os == "linux"@ {
            tagged(tags, "platform-linux"@) || tagged(tags, "platform-unix"@)
        } else if os == "macos"@ {
            tagged(tags, "platform-macos"@) || tagged(tags, "platform-unix"@)
        } else if os == "windows"@ {
            tagged(tags, "platform-windows"@)
        } else {
            false
        }
    } else {
        true
    }
}

/// Whether `tag` is one of the tags.
pub fn has_tag(tags: &Vec<String>, tag: &str) -> (r: bool)
    ensures
        r == tagged(texts(tags@), tag@),
{
    let mut i: usize = 0;
    while i < tags.len()
        invariant
            i <= tags.len(),
            forall|j: int| 0 <= j < i ==> texts(tags@)[j] != tag@,
        decreases tags.len() - i,
    {
        if same_text(tags[i].as_str(), tag) {
            assert(texts(tags@)[i as int] == tag@);
            return true;
        }
        i = i + 1;
    }
    false
}

impl Humane {
    /// A runner with this configuration.
    pub fn new(options: RobotHumaneConfig) -> (r: Self)
        ensures
            r.options() == options,
    {
        Self { options }
    }

    /// The configuration of the runner.
    pub closed spec fn options(&self) -> RobotHumaneConfig {
        self.options
    }

    /// Where the runner looks for test files.
    pub fn test_file_root(&self) -> (r: &String)
        ensures
            *r == self.options().test_file_root,
    {
        &self.options.test_file_root
    }

    /// Whether a scenario with these tags runs on the operating system `os`.
    pub fn runs_scenario(tags: &Vec<String>, os: &str) -> (r: bool)
        ensures
            r == scenario_runs(texts(tags@), os@),
    {
        if has_tag(tags, "skip") {
            return false;
        }
        let mut limited = false;
        let mut i: usize = 0;
        while i < tags.len()
            invariant
                i <= tags.len(),
                limited == exists|j: int|
                    0 <= j < i && starts_with(#[trigger] texts(tags@)[j], "platform-"@),
            decreases tags.len() - i,
        {
            if has_prefix(tags[i].as_str(), "platform-") {
                limited = true;
                assert(starts_with(texts(tags@)[i as int], "platform-"@));
            }
            proof {
                if !limited {
                    assert forall|j: int| 0 <= j < i + 1 implies !starts_with(
                        #[trigger] texts(tags@)[j],
                        "platform-"@,
                    ) by {
                        if j < i {
                        }
                    }
                }
            }
            i = i + 1;
        }
        if !limited {
            return true;
        }
        if same_text(os, "linux") {
            has_tag(tags, "platform-linux") || has_tag(tags, "platform-unix")
        } else if same_text(os, "macos") {
            has_tag(tags, "platform-macos") || has_tag(tags, "platform-unix")
        } else if same_text(os, "windows") {
            has_tag(tags, "platform-windows")
        } else {
            false
        }
    }

    /// Whether a run has failed: something could not be read, a hook, a
    /// scenario or a step has failed.
    pub fn has_failed(
        parsing_errors: usize,
        failed_hooks: usize,
        failed_scenarios: usize,
        failed_steps: usize,
    ) -> (r: bool)
        ensures
            r == (parsing_errors > 0 || failed_hooks > 0 || failed_scenarios > 0 || failed_steps
                > 0),
    {
        parsing_errors > 0 || failed_hooks > 0 || failed_scenarios > 0 || failed_steps > 0
    }
}

/// A command line that is being put together.
pub struct BinaryCommand(pub String);

impl BinaryCommand {
    /// Adds a flag after a space.
    pub fn add_flag(&mut self, flag: &str)
        ensures
            final(self).0@ == old(self).0@ + " "@ + flag@,
    {
        self.0.append(" ");
        self.0.append(flag);
        assert(self.0@ =~= old(self).0@ + " "@ + flag@);
    }

    /// The command line.
    pub fn consume(self) -> (r: String)
        ensures
            r == self.0,
    {
        self.0
    }
}

/// A command line with the first `n` flags added.
pub open spec fn with_flags(command: Seq<char>, flags: Seq<Seq<char>>, n: int) -> Seq<char>
    decreases n,
{
    if n <= 0 || n > flags.len() {
        command
    } else {
        with_flags(command, flags, n - 1) + " "@ + flags[n - 1]
    }
}

/// The start of a command line: the binary, and the subcommand after a space
/// if there is one.
pub open spec fn command_start(binary: Seq<char>, subcommand: Option<Seq<char>>) -> Seq<char> {
    match subcommand {
        Some(sub) => binary + " "@ + sub,
        None => binary,
    }
}

/// The command line for a binary, a subcommand and flags: each after a space.
pub fn build_command(binary_path: &str, subcommand: Option<&str>, flags: &Vec<String>) -> (r:
    String)
    ensures
        r@ == with_flags(
            command_start(
                binary_path@,
                match subcommand {
                    Some(sub) => Some(sub@),
                    None => None,
                },
            ),
            texts(flags@),
            flags@.len() as int,
        ),
{
    let mut start = String::new();
    start.append(binary_path);
    match subcommand {
        Some(sub) => {
            start.append(" ");
            start.append(sub);
            assert(start@ =~= binary_path@ + " "@ + sub@);
        },
        None => {
            assert(start@ =~= binary_path@);
        },
    }
    let ghost first = start@;
    let mut command = BinaryCommand(start);
    let mut i: usize = 0;
    while i < flags.len()
        invariant
            i <= flags.len(),
            command.0@ == with_flags(first, texts(flags@), i as int),
        decreases flags.len() - i,
    {
        assert(texts(flags@)[i as int] == flags@[i as int]@);
        command.add_flag(flags[i].as_str());
        i = i + 1;
    }
    command.consume()
}

/// What stands for the directory of the test in a flag.
pub open spec fn temp_dir_marker() -> Seq<char> {
    "{{humane_temp_dir}}"@
}

/// A flag with the directory of the test in the place of its marker. There is
/// no result where the flag holds the marker and the test has no directory.
pub fn process_value(text: &str, tmp_dir: Option<&str>) -> (r: Option<String>)
    ensures
        if contains_text(text@, temp_dir_marker()) {
            match tmp_dir {
                Some(dir) => r matches Some(out) && out@ == replace_text(
                    text@,
                    temp_dir_marker(),
                    dir@,
                ),
                None => r is None,
            }
        } else {
            r matches Some(out) && out@ == text@
        },
{
    if str_contains(text, "{{humane_temp_dir}}") {
        match tmp_dir {
            Some(dir) => Some(str_replace(text, "{{humane_temp_dir}}", dir)),
            None => None,
        }
    } else {
        Some(text.to_string())
    }
}

} // verus!
