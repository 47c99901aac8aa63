//! The sandbox of one test: what a test has set and produced so far, and the
//! environment in which its steps act.

use crate::errors::HumaneTestFailure;
use crate::json::JsonValue;
use crate::options::pairs_view;
use crate::text::{chars_of, join, join_text, replace, replace_text, same_text, text_of, texts};
use vstd::prelude::*;

verus! {

/// Why a file could not be read.
#[derive(Debug, Clone, Copy, PartialEq, Eq, Structural)]
pub enum FileReadFault {
    NotFound,
    Unreadable,
    NotUtf8,
}

/// How a command ended.
#[derive(Debug)]
pub struct CommandStatus {
    /// Whether the command reported success.
    pub success: bool,
    /// The exit status as it is shown to the user.
    pub text: String,
}

/// What a command that ran has left: how it ended and what it wrote, each
/// output absent where it was not valid UTF-8.
#[derive(Debug)]
pub struct CommandResult {
    pub status: CommandStatus,
    pub stdout: Option<String>,
    pub stderr: Option<String>,
}

/// The environment in which the steps of one test act: a directory of its
/// own, a shell, a network port, a file server and a browser window. Nothing
/// is promised of what it does; every capability is verified for whatever it
/// answers.
pub trait Sandbox: Send {
    /// Writes a file below the root of the test, creating the directories
    /// above it; the message says why it could not.
    fn write_file(&mut self, filename: &str, contents: &str) -> Result<(), String>;

    /// Reads a file below the root of the test.
    fn read_file(&mut self, filename: &str) -> Result<String, FileReadFault>;

    /// Whether there is a file of that name below the root of the test.
    fn file_exists(&mut self, filename: &str) -> bool;

    /// The files below the root of the test: for each its depth below the root
    /// and its name.
    fn file_entries(&mut self) -> Vec<(usize, String)>;

    /// Runs a command in a shell in the root of the test, with the variables
    /// added to its environment; `None` if it could not be run.
    fn run_command(&mut self, cmd: &str, env_vars: &Vec<(String, String)>) -> Option<
        CommandResult,
    >;

    /// A network port that is free at the moment, if one is found.
    fn pick_port(&mut self) -> Option<u16>;

    /// Starts serving a directory below the root of the test on a port; `false`
    /// if the port could not be bound.
    fn serve_directory(&mut self, dir: &str, port: u16) -> bool;

    /// Waits for that many milliseconds.
    fn pause(&mut self, millis: u64);

    /// Opens a browser window on a page; the message says why it could not.
    fn load_page(&mut self, url: &str) -> Result<(), String>;

    /// Evaluates a script in the window that is open and hands back what it
    /// returned, if anything; the message says why it could not.
    fn evaluate_script(&mut self, script: &str) -> Result<Option<JsonValue>, String>;

    /// Stops every server that was started and gives up every background task.
    fn shutdown(&mut self);
}

/// What the last command that ran wrote.
#[derive(Debug)]
pub struct CommandOutput {
    pub stdout: String,
    pub stderr: String,
}

/// The sandbox of one test. Its environment is whatever implements
/// [`Sandbox`], behind a box unless another type is named.
pub struct Civilization<B = Box<dyn Sandbox>> {
    /// What the last command that ran wrote, if a command has run.
    pub last_command_output: Option<CommandOutput>,
    /// The port that this test serves on, once it has asked for one.
    pub assigned_server_port: Option<u16>,
    /// Whether a page has been loaded into the browser window.
    pub window_open: bool,
    /// The variables that are added to the environment of every command.
    pub env_vars: Vec<(String, String)>,
    /// Whether the sandbox has been shut down.
    pub shut_down: bool,
    /// The environment in which the steps act.
    pub backend: B,
}

/// A list of variables with `value` under `name`: in the place of the first
/// variable of that name if there is one, at the end otherwise.
pub open spec fn with_variable(
    vars: Seq<(Seq<char>, Seq<char>)>,
    name: Seq<char>,
    value: Seq<char>,
) -> Seq<(Seq<char>, Seq<char>)>
    decreases vars.len(),
{
    if vars.len() == 0 {
        seq![(name, value)]
    } else if vars[0].0 == name {
        seq![(name, value)] + vars.drop_first()
    } else {
        seq![vars[0]] + with_variable(vars.drop_first(), name, value)
    }
}

/// What stands for an output that was not valid UTF-8.
pub open spec fn output_text(output: Option<String>) -> Seq<char> {
    match output {
        Some(text) => text@,
        None => "failed utf8"@,
    }
}

/// The message for a command that could not be run.
pub open spec fn failed_to_run(cmd: Seq<char>) -> Seq<char> {
    "Failed to run command: "@ + cmd
}

/// The message for a file that could not be read.
pub open spec fn read_fault_text(fault: FileReadFault) -> Seq<char> {
    match fault {
        FileReadFault::NotFound => "the file does not exist"@,
        FileReadFault::Unreadable => "the file was not readable"@,
        FileReadFault::NotUtf8 => "the file was not valid UTF-8"@,
    }
}

/// The line of one file in the tree of files: a bar, two spaces for every
/// level below the first, and the name.
pub open spec fn tree_line(depth: int, name: Seq<char>) -> Seq<char>
    decreases depth,
{
    if depth <= 1 {
        "| "@ + name
    } else {
        tree_line(depth - 1, "  "@ + name)
    }
}

/// The lines of the files of a tree.
pub open spec fn tree_lines(entries: Seq<(usize, String)>) -> Seq<Seq<char>> {
    Seq::new(entries.len(), |i: int| tree_line(entries[i].0 as int, entries[i].1@))
}

/// The line of one file in the tree of files.
pub fn file_tree_line(depth: usize, name: &str) -> (r: String)
    ensures
        r@ == tree_line(depth as int, name@),
{
    let mut indented = String::new();
    indented.append(name);
    let mut level: usize = depth;
    assert(indented@ =~= name@);
    while level > 1
        invariant
            tree_line(level as int, indented@) == tree_line(depth as int, name@),
        decreases level,
    {
        let mut next = String::new();
        next.append("  ");
        next.append(indented.as_str());
        assert(next@ =~= "  "@ + indented@);
        indented = next;
        level = level - 1;
    }
    let mut out = String::new();
    out.append("| ");
    out.append(indented.as_str());
    assert(out@ =~= "| "@ + indented@);
    out
}

/// The character that parts the directories of a path on this platform, as
/// `std::path::MAIN_SEPARATOR` gives it. Nothing is claimed of it.
#[verifier::external_body]
fn main_separator() -> char {
    std::path::MAIN_SEPARATOR
}

impl Civilization {
    /// A sandbox in which nothing has happened yet, around the environment
    /// that it is given.
    pub fn new(backend: Box<dyn Sandbox>) -> (r: Self)
        ensures
            r.last_command_output is None,
            r.assigned_server_port is None,
            !r.window_open,
            r.env_vars@.len() == 0,
            !r.shut_down,
            r.backend == backend,
    {
        let environment = backend;
        let fresh = Civilization {
            last_command_output: None,
            assigned_server_port: None,
            window_open: false,
            env_vars: Vec::new(),
            shut_down: false,
            backend: environment,
        };
        fresh
    }

    /// Shuts the sandbox down: the environment stops what it has started. This
    /// ends every test, whatever became of its steps.
    pub fn shutdown(&mut self)
        ensures
            final(self).shut_down,
            final(self).last_command_output == old(self).last_command_output,
            final(self).assigned_server_port == old(self).assigned_server_port,
            final(self).window_open == old(self).window_open,
            final(self).env_vars == old(self).env_vars,
    {
        self.backend.shutdown();
        self.shut_down = true;
    }

    /// The port of this test. The first call asks the environment for a free
    /// port and keeps it; later calls hand out the port that was kept. `None`
    /// if no port was available.
    pub fn ensure_port(&mut self) -> (r: Option<u16>)
        ensures
            r == final(self).assigned_server_port,
            old(self).assigned_server_port is Some ==> *final(self) == *old(self),
            final(self).last_command_output == old(self).last_command_output,
            final(self).window_open == old(self).window_open,
            final(self).env_vars == old(self).env_vars,
            final(self).shut_down == old(self).shut_down,
    {
        if self.assigned_server_port.is_none() {
            let picked = self.backend.pick_port();
            self.assigned_server_port = picked;
        }
        self.assigned_server_port
    }

    /// Forgets the port of this test, so that the next call of `ensure_port`
    /// asks for another.
    pub fn purge_port(&mut self)
        ensures
            final(self).assigned_server_port is None,
            final(self).last_command_output == old(self).last_command_output,
            final(self).window_open == old(self).window_open,
            final(self).env_vars == old(self).env_vars,
            final(self).shut_down == old(self).shut_down,
            final(self).backend == old(self).backend,
    {
        self.assigned_server_port = None;
    }

    /// Sets a variable in the environment of the commands that run from now
    /// on; a variable of that name gets the new value.
    pub fn set_env(&mut self, name: String, value: String)
        ensures
            pairs_view(final(self).env_vars@) == with_variable(
                pairs_view(old(self).env_vars@),
                name@,
                value@,
            ),
            final(self).last_command_output == old(self).last_command_output,
            final(self).assigned_server_port == old(self).assigned_server_port,
            final(self).window_open == old(self).window_open,
            final(self).shut_down == old(self).shut_down,
            final(self).backend == old(self).backend,
    {
        set_variable(&mut self.env_vars, name, value);
    }

    /// Writes a file below the root of the test.
    pub fn write_file(&mut self, filename: &str, contents: &str) -> (r: Result<(), String>)
        ensures
            final(self).last_command_output == old(self).last_command_output,
            final(self).assigned_server_port == old(self).assigned_server_port,
            final(self).window_open == old(self).window_open,
            final(self).env_vars == old(self).env_vars,
            final(self).shut_down == old(self).shut_down,
    {
        self.backend.write_file(filename, contents)
    }

    /// Reads a file below the root of the test. A file that cannot be read is a
    /// failure of the test, with a message that says what was wrong with it:
    /// it does not exist, it is not readable, or it is not valid UTF-8.
    pub fn read_file(&mut self, filename: &str) -> (r: Result<String, HumaneTestFailure>)
        ensures
            r matches Err(e) ==> is_read_failure(e),
            final(self).last_command_output == old(self).last_command_output,
            final(self).assigned_server_port == old(self).assigned_server_port,
            final(self).window_open == old(self).window_open,
            final(self).env_vars == old(self).env_vars,
            final(self).shut_down == old(self).shut_down,
    {
        let outcome = self.backend.read_file(filename);
        read_outcome(outcome)
    }

    /// Whether there is a file of that name below the root of the test.
    pub fn check_file_exists(&mut self, filename: &str) -> (r: bool)
        ensures
            final(self).last_command_output == old(self).last_command_output,
            final(self).assigned_server_port == old(self).assigned_server_port,
            final(self).window_open == old(self).window_open,
            final(self).env_vars == old(self).env_vars,
            final(self).shut_down == old(self).shut_down,
    {
        self.backend.file_exists(filename)
    }

    /// The files below the root of the test, one line for each: the tree of
    /// the entries that the environment lists.
    pub fn get_file_tree(&mut self) -> (r: String)
        ensures
            is_file_tree(r@),
            final(self).last_command_output == old(self).last_command_output,
            final(self).assigned_server_port == old(self).assigned_server_port,
            final(self).window_open == old(self).window_open,
            final(self).env_vars == old(self).env_vars,
            final(self).shut_down == old(self).shut_down,
    {
        let entries = self.backend.file_entries();
        let tree = file_tree(&entries);
        assert(tree@ == join_text(tree_lines(entries@), "\n"@));
        tree
    }

    /// Nothing if the file exists; otherwise the message that says that it
    /// does not, with the tree of the files that there are.
    pub fn assert_file_exists(&mut self, filename: &str) -> (r: Result<(), String>)
        ensures
            r matches Err(message) ==> exists|tree: Seq<char>|
                is_file_tree(tree) && message@ == #[trigger] missing_file_text(filename@, tree),
            final(self).last_command_output == old(self).last_command_output,
            final(self).assigned_server_port == old(self).assigned_server_port,
            final(self).window_open == old(self).window_open,
            final(self).env_vars == old(self).env_vars,
            final(self).shut_down == old(self).shut_down,
    {
        if self.check_file_exists(filename) {
            Ok(())
        } else {
            let tree = self.get_file_tree();
            let message = missing_file_message(filename, tree.as_str());
            assert(is_file_tree(tree@) && message@ == missing_file_text(filename@, tree@));
            Err(message)
        }
    }

    /// Nothing if the file does not exist; otherwise the message that says that
    /// it does, with the tree of the files that there are.
    pub fn assert_file_doesnt_exist(&mut self, filename: &str) -> (r: Result<(), String>)
        ensures
            r matches Err(message) ==> exists|tree: Seq<char>|
                is_file_tree(tree) && message@ == #[trigger] unexpected_file_text(filename@, tree),
            final(self).last_command_output == old(self).last_command_output,
            final(self).assigned_server_port == old(self).assigned_server_port,
            final(self).window_open == old(self).window_open,
            final(self).env_vars == old(self).env_vars,
            final(self).shut_down == old(self).shut_down,
    {
        if self.check_file_exists(filename) {
            let tree = self.get_file_tree();
            let message = unexpected_file_message(filename, tree.as_str());
            assert(is_file_tree(tree@) && message@ == unexpected_file_text(filename@, tree@));
            Err(message)
        } else {
            Ok(())
        }
    }

    /// Runs a command in a shell in the root of the test and keeps what it
    /// wrote. The separators of this platform's paths in the command are
    /// written as `/`. A command that cannot be run is a failure of the test.
    pub fn run_command(&mut self, cmd: String) -> (r: Result<CommandStatus, HumaneTestFailure>)
        ensures
            final(self).assigned_server_port == old(self).assigned_server_port,
            final(self).window_open == old(self).window_open,
            final(self).env_vars == old(self).env_vars,
            final(self).shut_down == old(self).shut_down,
            match r {
                Ok(status) => final(self).last_command_output is Some,
                Err(e) => {
                    &&& e matches HumaneTestFailure::Custom { msg }
                    &&& msg@ == failed_to_run(cmd@)
                    &&& final(self).last_command_output == old(self).last_command_output
                },
            },
    {
        let separator = main_separator();
        let mut from: Vec<char> = Vec::new();
        from.push(separator);
        let mut to: Vec<char> = Vec::new();
        to.push('/');
        let portable = text_of(&replace(&chars_of(cmd.as_str()), &from, &to));
        let outcome = self.backend.run_command(portable.as_str(), &self.env_vars);
        self.record_command(cmd.as_str(), outcome)
    }

    /// Keeps what a command wrote and hands on how it ended. Without an
    /// outcome the command could not be run, which is a failure of the test
    /// that names the command, and what an earlier command wrote stays.
    /// An output that was not valid UTF-8 is kept as `failed utf8`.
    pub fn record_command(&mut self, cmd: &str, outcome: Option<CommandResult>) -> (r: Result<
        CommandStatus,
        HumaneTestFailure,
    >)
        ensures
            final(self).assigned_server_port == old(self).assigned_server_port,
            final(self).window_open == old(self).window_open,
            final(self).env_vars == old(self).env_vars,
            final(self).shut_down == old(self).shut_down,
            final(self).backend == old(self).backend,
            match outcome {
                Some(result) => {
                    &&& r matches Ok(status)
                    &&& status.success == result.status.success
                    &&& status.text@ == result.status.text@
                    &&& final(self).last_command_output matches Some(output)
                    &&& output.stdout@ == output_text(result.stdout)
                    &&& output.stderr@ == output_text(result.stderr)
                },
                None => {
                    &&& r matches Err(HumaneTestFailure::Custom { msg })
                    &&& msg@ == failed_to_run(cmd@)
                    &&& final(self).last_command_output == old(self).last_command_output
                },
            },
    {
        match outcome {
            Some(result) => {
                let stdout = match result.stdout {
                    Some(text) => text,
                    None => "failed utf8".to_string(),
                };
                let stderr = match result.stderr {
                    Some(text) => text,
                    None => "failed utf8".to_string(),
                };
                self.last_command_output = Some(CommandOutput { stdout, stderr });
                Ok(result.status)
            },
            None => {
                let mut msg = String::new();
                msg.append("Failed to run command: ");
                msg.append(cmd);
                assert(msg@ =~= failed_to_run(cmd@));
                Err(HumaneTestFailure::Custom { msg })
            },
        }
    }
}

/// `e` is the failure for a file that could not be read: its message says
/// that the file does not exist, is not readable or is not valid UTF-8.
pub open spec fn is_read_failure(e: HumaneTestFailure) -> bool {
    e matches HumaneTestFailure::Custom { msg } && (msg@ == read_fault_text(
        FileReadFault::NotFound,
    ) || msg@ == read_fault_text(FileReadFault::Unreadable) || msg@ == read_fault_text(
        FileReadFault::NotUtf8,
    ))
}

/// `text` is the tree of some list of files.
pub open spec fn is_file_tree(text: Seq<char>) -> bool {
    exists|entries: Seq<(usize, String)>| text == join_text(#[trigger] tree_lines(entries), "\n"@)
}

/// What reading a file comes to: its text, or the failure that says what was
/// wrong with the file.
pub fn read_outcome(outcome: Result<String, FileReadFault>) -> (r: Result<
    String,
    HumaneTestFailure,
>)
    ensures
        match outcome {
            Ok(text) => r == Ok::<String, HumaneTestFailure>(text),
            Err(fault) => r matches Err(HumaneTestFailure::Custom { msg }) && msg@
                == read_fault_text(fault),
        },
{
    match outcome {
        Ok(text) => Ok(text),
        Err(fault) => {
            let msg = match fault {
                FileReadFault::NotFound => "the file does not exist".to_string(),
                FileReadFault::Unreadable => "the file was not readable".to_string(),
                FileReadFault::NotUtf8 => "the file was not valid UTF-8".to_string(),
            };
            Err(HumaneTestFailure::Custom { msg })
        },
    }
}

/// The tree of files: the line of each file, one below the other.
pub fn file_tree(entries: &Vec<(usize, String)>) -> (r: String)
    ensures
        r@ == join_text(tree_lines(entries@), "\n"@),
{
    let mut lines: Vec<String> = Vec::new();
    let mut i: usize = 0;
    while i < entries.len()
        invariant
            i <= entries.len(),
            lines@.len() == i,
            forall|j: int|
                0 <= j < i ==> lines@[j]@ == tree_line(entries@[j].0 as int, entries@[j].1@),
        decreases entries.len() - i,
    {
        lines.push(file_tree_line(entries[i].0, entries[i].1.as_str()));
        i = i + 1;
    }
    assert(texts(lines@) =~= tree_lines(entries@));
    join(&lines, "\n")
}

/// The message for a file that should exist and does not.
pub open spec fn missing_file_text(filename: Seq<char>, tree: Seq<char>) -> Seq<char> {
    "\""@ + filename + "\" does not exist in the tree:\n-----\n"@ + tree + "\n-----\n"@
}

/// The message for a file that should not exist and does.
pub open spec fn unexpected_file_text(filename: Seq<char>, tree: Seq<char>) -> Seq<char> {
    "\""@ + filename + "\" should not exist but does in the tree:\n-----\n"@ + tree
        + "\n-----\n"@
}

/// The message for a file that should exist and does not.
pub fn missing_file_message(filename: &str, tree: &str) -> (r: String)
    ensures
        r@ == missing_file_text(filename@, tree@),
{
    let mut out = String::new();
    out.append("\"");
    out.append(filename);
    out.append("\" does not exist in the tree:\n-----\n");
    out.append(tree);
    out.append("\n-----\n");
    assert(out@ =~= missing_file_text(filename@, tree@));
    out
}

/// The message for a file that should not exist and does.
pub fn unexpected_file_message(filename: &str, tree: &str) -> (r: String)
    ensures
        r@ == unexpected_file_text(filename@, tree@),
{
    let mut out = String::new();
    out.append("\"");
    out.append(filename);
    out.append("\" should not exist but does in the tree:\n-----\n");
    out.append(tree);
    out.append("\n-----\n");
    assert(out@ =~= unexpected_file_text(filename@, tree@));
    out
}

/// Puts `value` under `name`: in the place of the first variable of that name
/// if there is one, at the end otherwise.
pub fn set_variable(vars: &mut Vec<(String, String)>, name: String, value: String)
    ensures
        pairs_view(final(vars)@) == with_variable(pairs_view(old(vars)@), name@, value@),
{
    let ghost before = pairs_view(vars@);
    let mut i: usize = 0;
    assert(before.subrange(0, before.len() as int) =~= before);
    while i < vars.len()
        invariant
            i <= vars.len(),
            vars@ == old(vars)@,
            before == pairs_view(vars@),
            forall|j: int| 0 <= j < i ==> before[j].0 != name@,
        decreases vars.len() - i,
    {
        if same_text(vars[i].0.as_str(), name.as_str()) {
            let ghost at = i as int;
            let (kept, _) = vars.remove(i);
            vars.insert(i, (kept, value));
            proof {
                assert(before[at].0 == name@);
                lemma_with_variable_at(before, name@, value@, at);
                assert(pairs_view(vars@) =~= before.update(at, (name@, value@)));
            }
            return ;
        }
        assert(before[i as int].0 == vars@[i as int].0@);
        i = i + 1;
    }
    vars.push((name, value));
    proof {
        lemma_with_variable_absent(before, name@, value@);
        assert(pairs_view(vars@) =~= before.push((name@, value@)));
    }
}

/// Where the first variable of that name stands at `at`, only its value changes.
pub proof fn lemma_with_variable_at(
    vars: Seq<(Seq<char>, Seq<char>)>,
    name: Seq<char>,
    value: Seq<char>,
    at: int,
)
    requires
        0 <= at < vars.len(),
        vars[at].0 == name,
        forall|j: int| 0 <= j < at ==> vars[j].0 != name,
    ensures
        with_variable(vars, name, value) == vars.update(at, (name, value)),
    decreases vars.len(),
{
    if at == 0 {
        assert(seq![(name, value)] + vars.drop_first() =~= vars.update(0, (name, value)));
    } else {
        let rest = vars.drop_first();
        assert(rest[at - 1] == vars[at]);
        assert forall|j: int| 0 <= j < at - 1 implies rest[j].0 != name by {
            assert(rest[j] == vars[j + 1]);
        }
        lemma_with_variable_at(rest, name, value, at - 1);
        assert(seq![vars[0]] + rest.update(at - 1, (name, value)) =~= vars.update(
            at,
            (name, value),
        ));
    }
}

/// Where no variable has that name, the variable is added at the end.
pub proof fn lemma_with_variable_absent(
    vars: Seq<(Seq<char>, Seq<char>)>,
    name: Seq<char>,
    value: Seq<char>,
)
    requires
        forall|j: int| 0 <= j < vars.len() ==> vars[j].0 != name,
    ensures
        with_variable(vars, name, value) == vars.push((name, value)),
    decreases vars.len(),
{
    if vars.len() == 0 {
        assert(seq![(name, value)] =~= vars.push((name, value)));
    } else {
        let rest = vars.drop_first();
        assert forall|j: int| 0 <= j < rest.len() implies rest[j].0 != name by {
            assert(rest[j] == vars[j + 1]);
        }
        lemma_with_variable_absent(rest, name, value);
        assert(seq![vars[0]] + rest.push((name, value)) =~= vars.push((name, value)));
    }
}

} // verus!
