use humane::args::SegmentArgs;
use humane::civilization::{
    Civilization, CommandResult, CommandStatus, FileReadFault, Sandbox,
};
use humane::definitions::{
    builtin_instructions, declared_instruction, register_assertions, register_instructions,
    register_retrievers, HumaneInstruction,
};
use humane::registry::index_declared;
use humane::errors::{HumaneInputError, HumaneInternalError, HumaneStepError, HumaneTestFailure};
use humane::json::JsonValue;
use humane::options::{HumaneContext, HumaneParams};
use humane::parser::{parse_file, parse_segments, parse_step};
use humane::report::{describe_failure, explain_missing_step, FailureReport, StepKind};
use humane::runner::{
    check_retrieved, conclude_step, keep_snapshot, perform, run_humane_experiment,
    run_humane_steps, run_in_sandbox,
};
use humane::steps::{HumaneTestFile, HumaneTestStep, HumaneTestStepState};
use humane::universe::Universe;
use std::sync::{Arc, Mutex};

#[derive(Default)]
struct Recorder {
    commands: Vec<String>,
    files: Vec<(String, String)>,
    shutdowns: usize,
    pauses: Vec<u64>,
    served: Vec<(String, u16)>,
    pages: Vec<String>,
    scripts: Vec<String>,
}

struct FakeSandbox {
    record: Arc<Mutex<Recorder>>,
    bind_failures: usize,
    next_port: u16,
    script_result: Option<JsonValue>,
}

impl FakeSandbox {
    fn new(record: &Arc<Mutex<Recorder>>) -> Box<FakeSandbox> {
        Box::new(FakeSandbox {
            record: record.clone(),
            bind_failures: 0,
            next_port: 8000,
            script_result: None,
        })
    }
}

impl Sandbox for FakeSandbox {
    fn write_file(&mut self, filename: &str, contents: &str) -> Result<(), String> {
        self.record.lock().unwrap().files.push((filename.to_string(), contents.to_string()));
        Ok(())
    }

    fn read_file(&mut self, filename: &str) -> Result<String, FileReadFault> {
        let record = self.record.lock().unwrap();
        match record.files.iter().rev().find(|f| f.0 == filename) {
            Some(file) => Ok(file.1.clone()),
            None => Err(FileReadFault::NotFound),
        }
    }

    fn file_exists(&mut self, filename: &str) -> bool {
        self.record.lock().unwrap().files.iter().any(|f| f.0 == filename)
    }

    fn file_entries(&mut self) -> Vec<(usize, String)> {
        self.record.lock().unwrap().files.iter().map(|f| (1, f.0.clone())).collect()
    }

    fn run_command(&mut self, cmd: &str, env_vars: &Vec<(String, String)>) -> Option<CommandResult> {
        self.record.lock().unwrap().commands.push(cmd.to_string());
        if cmd == "missing" {
            return None;
        }
        let mut stdout = cmd.strip_prefix("echo ").unwrap_or("").to_string();
        for (name, value) in env_vars {
            stdout = stdout.replace(&format!("${name}"), value);
        }
        let success = !cmd.starts_with("false");
        Some(CommandResult {
            status: CommandStatus {
                success,
                text: if success { "exit status: 0".to_string() } else { "exit status: 1".to_string() },
            },
            stdout: Some(stdout),
            stderr: if cmd == "binary" { None } else { Some(String::new()) },
        })
    }

    fn pick_port(&mut self) -> Option<u16> {
        if self.next_port == 0 {
            return None;
        }
        self.next_port += 1;
        Some(self.next_port)
    }

    fn serve_directory(&mut self, dir: &str, port: u16) -> bool {
        if self.bind_failures > 0 {
            self.bind_failures -= 1;
            return false;
        }
        self.record.lock().unwrap().served.push((dir.to_string(), port));
        true
    }

    fn pause(&mut self, millis: u64) {
        self.record.lock().unwrap().pauses.push(millis);
    }

    fn load_page(&mut self, url: &str) -> Result<(), String> {
        self.record.lock().unwrap().pages.push(url.to_string());
        if url.ends_with("/broken") {
            Err("could not navigate".to_string())
        } else {
            Ok(())
        }
    }

    fn evaluate_script(&mut self, script: &str) -> Result<Option<JsonValue>, String> {
        self.record.lock().unwrap().scripts.push(script.to_string());
        Ok(self.script_result.clone())
    }

    fn shutdown(&mut self) {
        self.record.lock().unwrap().shutdowns += 1;
    }
}

fn context() -> HumaneContext {
    HumaneContext {
        version: "test".to_string(),
        working_directory: ".".to_string(),
        params: HumaneParams::default(),
    }
}

fn universe(tests: Vec<(String, HumaneTestFile)>) -> Universe {
    Universe {
        tests,
        instructions: register_instructions().unwrap(),
        retrievers: register_retrievers().unwrap(),
        assertions: register_assertions().unwrap(),
        ctx: context(),
    }
}

fn file(name: &str, path: &str, directory: &str, steps: &[&str]) -> HumaneTestFile {
    let mut doc = format!("test: {name}\nsteps:{}\n", if steps.is_empty() { " []" } else { "" });
    for step in steps {
        if let Some(target) = step.strip_prefix("ref: ") {
            doc.push_str(&format!("  - ref: {target}\n"));
        } else if let Some(target) = step.strip_prefix("snapshot: ") {
            doc.push_str(&format!("  - snapshot: {target}\n"));
        } else {
            doc.push_str(&format!("  - {}\n", JsonValue::String(step.to_string()).to_json()));
        }
    }
    parse_file(&doc, path, directory).unwrap()
}

fn states(steps: &Vec<HumaneTestStep>) -> Vec<HumaneTestStepState> {
    steps.iter().map(|s| s.state()).collect()
}

use HumaneTestStepState::{Dormant, Failed, Passed};

#[test]
fn the_assertion_path_resolves_retrieval_then_assertion() {
    let record = Arc::new(Mutex::new(Recorder::default()));
    let universe = universe(Vec::new());
    let mut input = file(
        "ok",
        "tests/ok.humane.yml",
        "tests",
        &["I run \"echo OK\"", "stdout should be exactly \"OK\""],
    );
    let result = run_humane_experiment(&mut input, &universe, FakeSandbox::new(&record));
    assert!(result.is_ok());
    assert_eq!(states(&input.steps), vec![Passed, Passed]);
    assert_eq!(record.lock().unwrap().commands, vec!["echo OK".to_string()]);
    assert_eq!(record.lock().unwrap().shutdowns, 1);
}

#[test]
fn the_first_failure_ends_the_file() {
    let record = Arc::new(Mutex::new(Recorder::default()));
    let universe = universe(Vec::new());
    let mut input = file(
        "fails",
        "tests/fails.humane.yml",
        "tests",
        &[
            "I run \"echo OK\"",
            "stdout should be exactly \"NO\"",
            "I run \"echo never\"",
        ],
    );
    let before = input.steps[1].clone();
    let error = run_humane_experiment(&mut input, &universe, FakeSandbox::new(&record))
        .err()
        .unwrap();
    assert_eq!(states(&input.steps), vec![Passed, Failed, Dormant]);
    assert_eq!(format!("{:?}", error.step), format!("{:?}", before));
    assert_eq!(error.step.state(), Dormant);
    assert_eq!(error.arg_str, "");
    assert_eq!(
        error.err,
        HumaneStepError::Assertion(HumaneTestFailure::Custom {
            msg: "The value\n---\n\"OK\"\n---\nshould be exactly the following value, but is not\n---\n\"NO\"\n---".to_string()
        })
    );
    assert_eq!(record.lock().unwrap().commands, vec!["echo OK".to_string()]);
    assert_eq!(record.lock().unwrap().shutdowns, 1);
    assert_eq!(
        error.message(),
        "Error in step \"stdout should be exactly \"NO\"\":\nFailed assertion: Test failure: The value\n---\n\"OK\"\n---\nshould be exactly the following value, but is not\n---\n\"NO\"\n---"
    );
}

#[test]
fn a_step_without_a_capability_is_a_nonexistent_step() {
    let record = Arc::new(Mutex::new(Recorder::default()));
    let universe = universe(Vec::new());
    let mut input = file("x", "x.yml", ".", &["I rn \"echo\"", "I run \"echo\""]);
    let error = run_humane_experiment(&mut input, &universe, FakeSandbox::new(&record))
        .err()
        .unwrap();
    assert_eq!(error.err, HumaneStepError::External(HumaneInputError::NonexistentStep));
    assert_eq!(states(&input.steps), vec![Failed, Dormant]);
    assert!(record.lock().unwrap().commands.is_empty());

    assert!(matches!(describe_failure(&error, &universe), FailureReport::Missing(_)));
    let missing = explain_missing_step(&error.step, &universe).unwrap();
    assert_eq!(missing.kind, StepKind::Instruction);
    assert_eq!(missing.comparator, "I rn {___}");
    assert_eq!(missing.closest[0], "I run {command}");
    assert!(missing.message().starts_with(
        "Unable to resolve: \"I rn \"echo\"\"\nInstruction \"I rn {___}\" was not found.\nClosest instructions:\n\u{2022} I run {command}"
    ));
}

#[test]
fn suggestions_go_to_the_registry_of_the_part_that_is_unresolved() {
    let universe = universe(Vec::new());
    let step = parse_step("stdoot should be exactly 'a'".to_string(), Vec::new()).unwrap();
    let missing = explain_missing_step(&step, &universe).unwrap();
    assert_eq!(missing.kind, StepKind::Retrieval);
    assert_eq!(missing.comparator, "stdoot");
    assert_eq!(missing.closest[0], "stdout");

    let step = parse_step("stdout should be exactli 'a'".to_string(), Vec::new()).unwrap();
    let missing = explain_missing_step(&step, &universe).unwrap();
    assert_eq!(missing.kind, StepKind::Assertion);
    assert_eq!(missing.comparator, "be exactli {___}");
    assert_eq!(missing.closest[0], "be exactly {expected}");

    let snapshot = HumaneTestStep::Snapshot {
        snapshot: parse_segments("stdoot").unwrap(),
        snapshot_content: None,
        args: Vec::new(),
        orig: "stdoot".to_string(),
        state: Dormant,
    };
    let missing = explain_missing_step(&snapshot, &universe).unwrap();
    assert_eq!(missing.kind, StepKind::Retrieval);

    let reference = HumaneTestStep::Ref {
        other_file: "a".to_string(),
        orig: "a".to_string(),
        hydrated_steps: None,
        state: Dormant,
    };
    assert!(explain_missing_step(&reference, &universe).is_none());
}

#[test]
fn a_missing_argument_fails_the_step_with_its_arguments() {
    let record = Arc::new(Mutex::new(Recorder::default()));
    let universe = universe(Vec::new());
    let mut input = parse_file(
        "test: x\nsteps:\n  - step: I run {cmd}\n    command: echo\n",
        "x.yml",
        ".",
    )
    .unwrap();
    let error = run_humane_experiment(&mut input, &universe, FakeSandbox::new(&record))
        .err()
        .unwrap();
    assert_eq!(
        error.err,
        HumaneStepError::External(HumaneInputError::NonexistentArgument {
            arg: "cmd".to_string(),
            has: "command".to_string()
        })
    );
    assert_eq!(error.arg_str, "command: echo\n");
    assert_eq!(states(&input.steps), vec![Failed]);
    let FailureReport::Message(message) = describe_failure(&error, &universe) else {
        panic!("not a message");
    };
    assert_eq!(
        message,
        "Error in step \"I run {cmd}\":\nParse error: Argument cmd was not supplied. (have [command])"
    );
}

#[test]
fn a_reference_runs_the_steps_of_the_other_file() {
    let record = Arc::new(Mutex::new(Recorder::default()));
    let shared = file("shared", "tests/shared/setup.yml", "tests/shared", &["I run \"echo a\"", "I run \"echo b\""]);
    let universe = universe(vec![("tests/shared/setup.yml".to_string(), shared)]);
    let mut input = file(
        "main",
        "tests/deep/main.yml",
        "tests/deep",
        &["ref: ../shared/./setup.yml", "stdout should be exactly \"b\""],
    );
    let result = run_humane_experiment(&mut input, &universe, FakeSandbox::new(&record));
    assert!(result.is_ok());
    assert_eq!(states(&input.steps), vec![Passed, Passed]);
    let HumaneTestStep::Ref { hydrated_steps: Some(hydrated), .. } = &input.steps[0] else {
        panic!("not hydrated");
    };
    assert_eq!(states(hydrated), vec![Passed, Passed]);
    // the file of the universe is not touched
    assert_eq!(states(&universe.tests[0].1.steps), vec![Dormant, Dormant]);
    assert_eq!(
        record.lock().unwrap().commands,
        vec!["echo a".to_string(), "echo b".to_string()]
    );
}

#[test]
fn a_failure_inside_a_reference_fails_the_reference() {
    let record = Arc::new(Mutex::new(Recorder::default()));
    let shared = file("shared", "shared.yml", ".", &["I run \"echo a\"", "I run \"false\"", "I run \"echo c\""]);
    let universe = universe(vec![("shared.yml".to_string(), shared)]);
    let mut input = file("main", "main.yml", ".", &["ref: shared.yml", "I run \"echo d\""]);
    let error = run_humane_experiment(&mut input, &universe, FakeSandbox::new(&record))
        .err()
        .unwrap();
    assert_eq!(states(&input.steps), vec![Failed, Dormant]);
    let HumaneTestStep::Ref { hydrated_steps: Some(hydrated), .. } = &input.steps[0] else {
        panic!("not hydrated");
    };
    assert_eq!(states(hydrated), vec![Passed, Failed, Dormant]);
    assert_eq!(format!("{:?}", error.step), format!("{:?}", universe.tests[0].1.steps[1]));
    assert_eq!(
        error.err,
        HumaneStepError::Assertion(HumaneTestFailure::Custom {
            msg: "Failed to run command (exit status: 1)\nCommand: false\nstdout:\n---\n\n---\nstderr:\n---\n\n---".to_string()
        })
    );
}

#[test]
fn a_reference_to_a_missing_path_names_the_closest_path() {
    let record = Arc::new(Mutex::new(Recorder::default()));
    let shared = file("shared", "tests/shared.yml", "tests", &[]);
    let other = file("other", "tests/zzz.yml", "tests", &[]);
    let universe = universe(vec![
        ("tests/zzz.yml".to_string(), other),
        ("tests/shared.yml".to_string(), shared),
    ]);
    let mut input = file("main", "tests/main.yml", "tests", &["ref: ./shard.yml"]);
    let error = run_humane_experiment(&mut input, &universe, FakeSandbox::new(&record))
        .err()
        .unwrap();
    assert_eq!(
        error.err,
        HumaneStepError::External(HumaneInputError::InvalidRef {
            input: "tests/shard.yml".to_string(),
            closest: "tests/shared.yml".to_string()
        })
    );
    assert_eq!(states(&input.steps), vec![Failed]);
    assert_eq!(universe.resolve_ref("tests", "./shared.yml"), Ok(1));
    assert_eq!(universe.resolve_ref("tests/a/b", "../.././zzz.yml"), Ok(0));
}

#[test]
fn a_reference_without_any_test_file_finds_nothing() {
    let universe = universe(Vec::new());
    assert_eq!(
        universe.resolve_ref(".", "a.yml"),
        Err(HumaneInputError::InvalidRef {
            input: "a.yml".to_string(),
            closest: "<nothing found>".to_string()
        })
    );
}

#[test]
fn a_cyclic_reference_is_refused() {
    let record = Arc::new(Mutex::new(Recorder::default()));
    let a = file("a", "a.yml", ".", &["I run \"echo a\"", "ref: b.yml"]);
    let b = file("b", "b.yml", ".", &["ref: a.yml"]);
    let universe = universe(vec![("a.yml".to_string(), a.clone()), ("b.yml".to_string(), b)]);
    let mut input = a;
    let error = run_humane_experiment(&mut input, &universe, FakeSandbox::new(&record))
        .err()
        .unwrap();
    assert_eq!(
        error.err,
        HumaneStepError::External(HumaneInputError::CyclicRef { input: "a.yml".to_string() })
    );
    assert_eq!(states(&input.steps), vec![Passed, Failed]);
    assert_eq!(record.lock().unwrap().commands, vec!["echo a".to_string()]);
    assert_eq!(record.lock().unwrap().shutdowns, 1);
}

#[test]
fn the_same_file_can_be_referred_to_twice_in_a_row() {
    let record = Arc::new(Mutex::new(Recorder::default()));
    let shared = file("shared", "shared.yml", ".", &["I run \"echo a\""]);
    let universe = universe(vec![("shared.yml".to_string(), shared)]);
    let mut input = file("main", "main.yml", ".", &["ref: shared.yml", "ref: shared.yml"]);
    assert!(run_humane_experiment(&mut input, &universe, FakeSandbox::new(&record)).is_ok());
    assert_eq!(record.lock().unwrap().commands.len(), 2);
}

#[test]
fn a_snapshot_keeps_the_text_that_was_retrieved() {
    let record = Arc::new(Mutex::new(Recorder::default()));
    let universe = universe(Vec::new());
    let mut input = file("snap", "snap.yml", ".", &["I run \"echo hello\"", "snapshot: stdout"]);
    assert!(run_humane_experiment(&mut input, &universe, FakeSandbox::new(&record)).is_ok());
    let HumaneTestStep::Snapshot { snapshot_content, state, .. } = &input.steps[1] else {
        panic!("not a snapshot");
    };
    assert_eq!(snapshot_content, &Some("hello".to_string()));
    assert_eq!(state, &Passed);
}

#[test]
fn a_snapshot_of_a_value_that_is_no_string_keeps_its_yaml() {
    let record = Arc::new(Mutex::new(Recorder::default()));
    let universe = universe(Vec::new());
    let mut sandbox = FakeSandbox::new(&record);
    sandbox.script_result = Some(JsonValue::Object(vec![
        ("humane_errs".to_string(), JsonValue::Array(vec![])),
        (
            "inner_response".to_string(),
            JsonValue::Object(vec![
                ("a".to_string(), JsonValue::Number("1".to_string())),
                ("b".to_string(), JsonValue::Array(vec![JsonValue::Bool(true)])),
            ]),
        ),
    ]));
    let mut input = file(
        "snap",
        "snap.yml",
        ".",
        &["In my browser, I load \"/\"", "snapshot: In my browser, the result of \"return 1\""],
    );
    assert!(run_humane_experiment(&mut input, &universe, sandbox).is_ok());
    let HumaneTestStep::Snapshot { snapshot_content, .. } = &input.steps[1] else {
        panic!("not a snapshot");
    };
    assert_eq!(snapshot_content, &Some("a: 1\nb:\n- true\n".to_string()));
    assert_eq!(record.lock().unwrap().pages, vec!["http://localhost:8001/".to_string()]);
}

#[test]
fn setup_runs_before_the_steps_and_its_failure_leaves_them_alone() {
    let record = Arc::new(Mutex::new(Recorder::default()));
    let universe = universe(Vec::new());
    let mut input = parse_file(
        "test: x\nsetup:\n  - I run \"echo a\"\n  - I run \"false\"\nsteps:\n  - I run \"echo b\"\n",
        "x.yml",
        ".",
    )
    .unwrap();
    let mut civ = Civilization::new(FakeSandbox::new(&record));
    assert!(run_in_sandbox(&mut input, &universe, &mut civ).is_err());
    assert_eq!(states(&input.setup), vec![Passed, Failed]);
    assert_eq!(states(&input.steps), vec![Dormant]);
    assert!(civ.shut_down);
    assert_eq!(record.lock().unwrap().shutdowns, 1);
}

#[test]
fn no_steps_pass() {
    let record = Arc::new(Mutex::new(Recorder::default()));
    let universe = universe(Vec::new());
    let mut steps = Vec::new();
    let mut civ = Civilization::new(FakeSandbox::new(&record));
    assert!(run_humane_steps(&".".to_string(), &mut steps, &mut civ, &universe, &Vec::new()).is_ok());
    assert!(!civ.shut_down);
}

pub struct Counting {
    pub seen: Arc<Mutex<Vec<String>>>,
}

impl HumaneInstruction for Counting {
    fn segments(&self) -> &'static str {
        "I count {what}"
    }

    fn run(&self, args: &SegmentArgs, _civ: &mut Civilization) -> Result<(), HumaneStepError> {
        let what = args.get_string("what").map_err(HumaneStepError::External)?;
        self.seen.lock().unwrap().push(what);
        Ok(())
    }
}

#[test]
fn a_capability_of_the_user_gets_its_arguments_with_placeholders_replaced() {
    let record = Arc::new(Mutex::new(Recorder::default()));
    let seen = Arc::new(Mutex::new(Vec::new()));
    let mut capabilities = builtin_instructions();
    capabilities.push(declared_instruction(Box::new(Counting { seen: seen.clone() })));
    let mut universe = universe(Vec::new());
    universe.instructions = index_declared(capabilities).unwrap();
    universe.ctx.params.placeholders.push(("n".to_string(), "42".to_string()));
    let mut input = parse_file(
        "test: x\nsteps:\n  - I count \"to %n%\"\n  - step: I count {x}\n    x: \"%n% sheep\"\n",
        "x.yml",
        ".",
    )
    .unwrap();
    assert!(run_humane_experiment(&mut input, &universe, FakeSandbox::new(&record)).is_ok());
    assert_eq!(*seen.lock().unwrap(), vec!["to 42".to_string(), "42 sheep".to_string()]);
}

fn broken() -> HumaneStepError {
    HumaneStepError::Internal(HumaneInternalError::Custom { msg: "no value".to_string() })
}

#[test]
fn a_failed_retrieval_is_handed_on_and_nothing_is_checked() {
    let record = Arc::new(Mutex::new(Recorder::default()));
    let universe = universe(Vec::new());
    let mut civ = Civilization::new(FakeSandbox::new(&record));
    let known = parse_segments("be exactly \"OK\"").unwrap();
    let unknown = parse_segments("be exctly \"OK\"").unwrap();
    assert_eq!(
        check_retrieved(&universe, &known, &Vec::new(), Err(broken()), &mut civ),
        Err(broken())
    );
    assert_eq!(
        check_retrieved(&universe, &unknown, &Vec::new(), Err(broken()), &mut civ),
        Err(broken())
    );
}

#[test]
fn a_retrieved_value_is_checked_by_the_assertion_of_the_line() {
    let record = Arc::new(Mutex::new(Recorder::default()));
    let universe = universe(Vec::new());
    let mut civ = Civilization::new(FakeSandbox::new(&record));
    let right = parse_segments("be exactly \"OK\"").unwrap();
    let wrong = parse_segments("be exactly \"NO\"").unwrap();
    let value = || Ok(JsonValue::String("OK".to_string()));
    assert_eq!(check_retrieved(&universe, &right, &Vec::new(), value(), &mut civ), Ok(()));
    assert_eq!(
        check_retrieved(&universe, &wrong, &Vec::new(), value(), &mut civ),
        Err(HumaneStepError::Assertion(HumaneTestFailure::Custom {
            msg: "The value\n---\n\"OK\"\n---\nshould be exactly the following value, but is not\n---\n\"NO\"\n---".to_string()
        }))
    );
}

#[test]
fn a_retrieved_value_without_an_assertion_for_it_fails() {
    let record = Arc::new(Mutex::new(Recorder::default()));
    let universe = universe(Vec::new());
    let mut civ = Civilization::new(FakeSandbox::new(&record));
    let unknown = parse_segments("be exctly \"OK\"").unwrap();
    let value = || Ok(JsonValue::String("OK".to_string()));
    assert_eq!(
        check_retrieved(&universe, &unknown, &Vec::new(), value(), &mut civ),
        Err(HumaneStepError::External(HumaneInputError::NonexistentStep))
    );
    let unbound = parse_segments("be exactly {want}").unwrap();
    let args = vec![("other".to_string(), JsonValue::String("OK".to_string()))];
    assert_eq!(
        check_retrieved(&universe, &unbound, &args, value(), &mut civ),
        Err(HumaneStepError::External(HumaneInputError::NonexistentArgument {
            arg: "want".to_string(),
            has: "other".to_string()
        }))
    );
    let bound = vec![("want".to_string(), JsonValue::String("OK".to_string()))];
    assert_eq!(check_retrieved(&universe, &unbound, &bound, value(), &mut civ), Ok(()));
}

#[test]
fn a_snapshot_keeps_a_string_as_it_is_and_anything_else_as_yaml() {
    assert_eq!(
        keep_snapshot(Ok(JsonValue::String("- not: yaml\n".to_string()))),
        Ok(Some("- not: yaml\n".to_string()))
    );
    assert_eq!(keep_snapshot(Ok(JsonValue::String(String::new()))), Ok(Some(String::new())));
    assert_eq!(
        keep_snapshot(Ok(JsonValue::Array(vec![
            JsonValue::Number("1".to_string()),
            JsonValue::Bool(false)
        ]))),
        Ok(Some("- 1\n- false\n".to_string()))
    );
    assert_eq!(keep_snapshot(Ok(JsonValue::Null)), Ok(Some("null\n".to_string())));
    assert_eq!(keep_snapshot(Err(broken())), Err(broken()));
}

#[test]
fn a_step_is_marked_with_what_became_of_it() {
    let plain = parse_step("I run \"echo\"".to_string(), Vec::new()).unwrap();
    let (after, result) = conclude_step(plain.clone(), Ok(None));
    assert!(result.is_ok());
    assert_eq!(after.state(), Passed);
    assert_eq!(after.display_text(), plain.display_text());

    let (after, result) = conclude_step(plain.clone(), Err(broken()));
    let error = result.err().unwrap();
    assert_eq!(after.state(), Failed);
    assert_eq!(error.err, broken());
    assert_eq!(error.step.state(), Dormant);
    assert_eq!(format!("{:?}", error.step), format!("{:?}", plain));
    assert_eq!(error.arg_str, "");

    let input = file("snap", "snap.yml", ".", &["snapshot: stdout"]);
    let snapshot = input.steps[0].clone();
    let (after, result) = conclude_step(snapshot.clone(), Ok(Some("seen".to_string())));
    assert!(result.is_ok());
    let HumaneTestStep::Snapshot { snapshot_content, state, .. } = &after else {
        panic!("not a snapshot");
    };
    assert_eq!(snapshot_content, &Some("seen".to_string()));
    assert_eq!(state, &Passed);

    let (after, result) = conclude_step(after, Err(broken()));
    assert!(result.is_err());
    let HumaneTestStep::Snapshot { snapshot_content, state, .. } = &after else {
        panic!("not a snapshot");
    };
    assert_eq!(snapshot_content, &Some("seen".to_string()));
    assert_eq!(state, &Failed);
}

#[test]
fn the_work_of_a_step_is_that_of_its_capability() {
    let record = Arc::new(Mutex::new(Recorder::default()));
    let universe = universe(Vec::new());
    let mut civ = Civilization::new(FakeSandbox::new(&record));
    let input = file(
        "x",
        "x.yml",
        ".",
        &[
            "I run \"echo hi\"",
            "stdout should be exactly \"hi\"",
            "snapshot: stdout",
            "ref: ./other.yml",
            "I rn \"echo\"",
            "stdot should be exactly \"hi\"",
            "stdout should be exctly \"hi\"",
            "snapshot: stdot",
        ],
    );
    assert_eq!(perform(&input.steps[0], &mut civ, &universe), Ok(None));
    assert_eq!(record.lock().unwrap().commands, vec!["echo hi".to_string()]);
    assert_eq!(perform(&input.steps[1], &mut civ, &universe), Ok(None));
    assert_eq!(perform(&input.steps[2], &mut civ, &universe), Ok(Some("hi".to_string())));
    assert_eq!(perform(&input.steps[3], &mut civ, &universe), Ok(None));
    for at in 4..8 {
        assert_eq!(
            perform(&input.steps[at], &mut civ, &universe),
            Err(HumaneStepError::External(HumaneInputError::NonexistentStep))
        );
    }
    assert_eq!(record.lock().unwrap().commands.len(), 1);
}

#[test]
fn references_to_files_without_steps_pass() {
    let record = Arc::new(Mutex::new(Recorder::default()));
    let empty = file("empty", "tests/empty.humane.yml", "tests", &[]);
    let universe = universe(vec![("tests/empty.humane.yml".to_string(), empty)]);
    let mut input = file(
        "main",
        "tests/main.humane.yml",
        "tests",
        &["ref: ./empty.humane.yml", "ref: empty.humane.yml"],
    );
    assert!(run_humane_experiment(&mut input, &universe, FakeSandbox::new(&record)).is_ok());
    assert_eq!(states(&input.steps), vec![Passed, Passed]);
    for step in &input.steps {
        let HumaneTestStep::Ref { hydrated_steps, .. } = step else {
            panic!("not a reference");
        };
        assert_eq!(hydrated_steps.as_ref().map(|steps| steps.len()), Some(0));
    }
}

#[test]
fn of_two_paths_that_are_as_close_the_first_is_named() {
    let one = file("one", "tests/ab.yml", "tests", &[]);
    let two = file("two", "tests/ba.yml", "tests", &[]);
    let far = file("far", "elsewhere/q.yml", "elsewhere", &[]);
    let universe = universe(vec![
        ("elsewhere/q.yml".to_string(), far),
        ("tests/ab.yml".to_string(), one),
        ("tests/ba.yml".to_string(), two),
    ]);
    assert_eq!(
        universe.resolve_ref("tests", "aa.yml"),
        Err(HumaneInputError::InvalidRef {
            input: "tests/aa.yml".to_string(),
            closest: "tests/ab.yml".to_string()
        })
    );
    assert_eq!(
        universe.resolve_ref("tests", "./x/../bb.yml"),
        Err(HumaneInputError::InvalidRef {
            input: "tests/bb.yml".to_string(),
            closest: "tests/ab.yml".to_string()
        })
    );
}
