use humane::differ::{
    detect_newlines, diff_line, newlines_matter, number_column, render_invisible, show_changes,
    trailing_newline, LineChange,
    ChangeKind, Emphasis,
};
use humane::errors::{
    HumaneInputError, HumaneInternalError, HumaneStepError, HumaneTestFailure,
};
use humane::interactive::{
    get_run_mode, review_key, runnable_tests, test_label, tests_to_run, ReviewAction, ReviewView,
    RunMode,
};
use humane::json::{find_member, json_equal, members_without, JsonValue};
use humane::logging::log_step_runs;
use humane::options::{parse_placeholders, CliMatches, HumaneContext, HumaneParams};
use humane::parser::parse_file;
use humane::report::{collect_tests, tally, TestVerdict};
use humane::scenarios::{
    build_command, default_test_files, has_tag, process_value, BinaryCommand, HumanHumaneConfig,
    Humane, RobotHumaneConfig,
};
use humane::scheduler::Schedule;
use humane::steps::{HumaneFileType, HumaneTestStep, HumaneTestStepState};
use humane::text::{
    chars_of, contains, decimal, find_text, has_prefix, join, lines, replace, split_at_first,
    str_contains, str_replace, text_of,
};
use humane::universe::Universe;
use humane::writer::HoldingError;

fn tags(items: &[&str]) -> Vec<String> {
    items.iter().map(|s| s.to_string()).collect()
}

fn chars(s: &str) -> Vec<char> {
    s.chars().collect()
}

#[test]
fn text_is_searched_and_replaced_as_the_standard_library_does() {
    let cases = [
        ("", "", "x"),
        ("abc", "", "-"),
        ("aaa", "aa", "b"),
        ("abcabc", "bc", ""),
        ("abcabc", "abcabcd", "x"),
        ("%a%%a%", "%a%", "%"),
        ("caf\u{e9}\u{2713}", "\u{e9}", "e"),
        ("xyz", "z", "zz"),
    ];
    for (s, from, to) in cases {
        assert_eq!(text_of(&replace(&chars(s), &chars(from), &chars(to))), s.replace(from, to));
        assert_eq!(str_replace(s, from, to), s.replace(from, to));
        assert_eq!(contains(&chars(s), &chars(from)), s.contains(from));
        assert_eq!(str_contains(s, to), s.contains(to));
        assert_eq!(has_prefix(s, from), s.starts_with(from));
        assert_eq!(
            split_at_first(s, from),
            s.split_once(from).map(|(a, b)| (a.to_string(), b.to_string()))
        );
    }
    assert_eq!(chars_of("a\u{e9}"), vec!['a', '\u{e9}']);
    assert_eq!(find_text(&chars("abcabc"), &chars("bc"), 2), Some(4));
    assert_eq!(find_text(&chars("abcabc"), &chars("bc"), 5), None);
    assert_eq!(find_text(&chars("abc"), &chars(""), 3), Some(3));
    assert_eq!(find_text(&chars("abc"), &chars(""), 4), None);
}

#[test]
fn texts_are_joined_and_split_into_lines() {
    assert_eq!(join(&tags(&["a", "b", "c"]), ", "), "a, b, c");
    assert_eq!(join(&tags(&["a"]), ", "), "a");
    assert_eq!(join(&tags(&[]), ", "), "");
    assert_eq!(join(&tags(&["", ""]), "-"), "-");
    for text in ["", "a", "a\n", "a\nb", "\n\n", "a\r\nb\r\n", "\r\n", "a\r\r\nb"] {
        let expected: Vec<String> = text.lines().map(|l| l.to_string()).collect();
        assert_eq!(lines(text), expected);
    }
}

#[test]
fn numbers_are_written_in_decimal() {
    for n in [0u64, 7, 10, 99, 100, 8080, 65535, u64::MAX] {
        assert_eq!(decimal(n), n.to_string());
    }
}

#[test]
fn json_values_are_compared_and_rendered() {
    let a = JsonValue::Object(vec![
        ("a".to_string(), JsonValue::Number("-1.5e3".to_string())),
        ("b".to_string(), JsonValue::Array(vec![JsonValue::Null, JsonValue::Bool(true)])),
    ]);
    assert!(json_equal(&a, &a.clone()));
    assert!(!json_equal(&a, &JsonValue::Object(vec![])));
    assert!(!json_equal(&JsonValue::Number("1".to_string()), &JsonValue::String("1".to_string())));
    assert!(!json_equal(
        &JsonValue::Array(vec![JsonValue::Null]),
        &JsonValue::Array(vec![JsonValue::Bool(false)])
    ));
    assert_eq!(a.to_json(), "{\"a\":-1500.0,\"b\":[null,true]}");
    assert_eq!(a.to_yaml(), "a: -1500.0\nb:\n- null\n- true\n");
    assert_eq!(JsonValue::String("a \"b\"".to_string()).to_json(), "\"a \\\"b\\\"\"");
    assert_eq!(JsonValue::Object(vec![]).to_yaml(), "{}\n");
    assert_eq!(
        JsonValue::from_yaml("a: [1, two, 3.5]\nb: ~\n"),
        Ok(JsonValue::Object(vec![
            (
                "a".to_string(),
                JsonValue::Array(vec![
                    JsonValue::Number("1".to_string()),
                    JsonValue::String("two".to_string()),
                    JsonValue::Number("3.5".to_string())
                ])
            ),
            ("b".to_string(), JsonValue::Null)
        ]))
    );
    assert!(JsonValue::from_yaml("a: [").is_err());
    let members = vec![
        ("x".to_string(), JsonValue::Null),
        ("y".to_string(), JsonValue::Bool(true)),
        ("x".to_string(), JsonValue::Bool(false)),
    ];
    assert_eq!(find_member(&members, "x"), Some(0));
    assert_eq!(find_member(&members, "y"), Some(1));
    assert_eq!(find_member(&members, "z"), None);
    assert_eq!(members_without(&members, "x"), vec![("y".to_string(), JsonValue::Bool(true))]);
}

#[test]
fn the_arguments_of_a_step_are_shown_as_yaml() {
    let file = parse_file(
        "test: x\nsteps:\n  - step: I run {cmd}\n    cmd: echo\n    n: 2\n  - I run 'x'\n  - ref: a\n",
        "x.yml",
        ".",
    )
    .unwrap();
    assert_eq!(file.steps[0].args_pretty(), "cmd: echo\nn: 2\n");
    assert_eq!(file.steps[1].args_pretty(), "");
    assert_eq!(file.steps[2].args_pretty(), "");
    assert_eq!(file.steps[0].display_text(), "I run {cmd}");
    assert_eq!(file.steps[2].display_text(), "run steps from: a");
    let snapshot = HumaneTestStep::Snapshot {
        snapshot: humane::parser::parse_segments("stdout").unwrap(),
        snapshot_content: None,
        args: Vec::new(),
        orig: "stdout".to_string(),
        state: HumaneTestStepState::Dormant,
    };
    assert_eq!(snapshot.display_text(), "snapshot: stdout");
    assert_eq!(snapshot.state(), HumaneTestStepState::Dormant);
}

#[test]
fn errors_have_messages() {
    assert_eq!(
        HumaneInputError::NonexistentArgument { arg: "a".to_string(), has: "b, c".to_string() }
            .message(),
        "Argument a was not supplied. (have [b, c])"
    );
    assert_eq!(
        HumaneInputError::IncorrectArgumentType {
            arg: "a".to_string(),
            was: "number".to_string(),
            expected: "string".to_string()
        }
        .message(),
        "Argument a expected to be a string, but is a number"
    );
    assert_eq!(
        HumaneInputError::ArgumentRequiresValue { arg: "a".to_string() }.message(),
        "Argument a requires a value, cannot be empty"
    );
    assert_eq!(
        HumaneInputError::ParseError("bad".to_string()).message(),
        "yaml failed to parse: bad"
    );
    assert_eq!(
        HumaneInputError::UnclosedValue { expected: '}' }.message(),
        "unclosed argument, expected a } character"
    );
    assert_eq!(HumaneInputError::NonexistentStep.message(), "step does not exist");
    assert_eq!(
        HumaneInputError::StepRequirementsNotMet { reason: "r".to_string() }.message(),
        "step requirements were not met: r"
    );
    assert_eq!(
        HumaneInputError::InvalidRef { input: "a".to_string(), closest: "b".to_string() }
            .message(),
        "invalid reference: a, closest match: b"
    );
    assert_eq!(
        HumaneInputError::CyclicRef { input: "a".to_string() }.message(),
        "cyclic reference: a"
    );
    assert_eq!(
        HumaneInputError::DuplicateName {
            path_one: "a".to_string(),
            path_two: "b".to_string(),
            name: "n".to_string()
        }
        .message(),
        "test name n is used by both a and b"
    );
    assert_eq!(
        HumaneInputError::StepError { reason: "r".to_string() }.message(),
        "step failed: r"
    );
    assert_eq!(
        HumaneInternalError::Custom { msg: "m".to_string() }.message(),
        "Test error: m"
    );
    assert_eq!(HumaneInternalError::PagebrowseError("p".to_string()).message(), "p");
    assert_eq!(HumaneTestFailure::Custom { msg: "m".to_string() }.message(), "Test failure: m");
    assert_eq!(
        HumaneTestFailure::BrowserJavascriptErr { msg: "m".to_string(), logs: "l".to_string() }
            .message(),
        "Test failure: m\nBrowser logs:\nl"
    );
    assert_eq!(
        HumaneStepError::External(HumaneInputError::NonexistentStep).message(),
        "Parse error: step does not exist"
    );
    assert_eq!(
        HumaneStepError::Internal(HumaneInternalError::Custom { msg: "m".to_string() }).message(),
        "Step error: Test error: m"
    );
    assert_eq!(
        HumaneStepError::Assertion(HumaneTestFailure::Custom { msg: "m".to_string() }).message(),
        "Failed assertion: Test failure: m"
    );
}

#[test]
fn the_line_break_at_the_end_of_a_text() {
    assert_eq!(trailing_newline("a\r\n"), "\r\n");
    assert_eq!(trailing_newline("a\r"), "\r");
    assert_eq!(trailing_newline("a\n"), "\n");
    assert_eq!(trailing_newline("a"), "");
    assert_eq!(trailing_newline(""), "");
    assert_eq!(trailing_newline("\n\r"), "\r");
}

#[test]
fn the_kinds_of_line_breaks_in_a_text() {
    assert_eq!(detect_newlines(""), (false, false, false));
    assert_eq!(detect_newlines("abc"), (false, false, false));
    assert_eq!(detect_newlines("a\nb"), (false, false, true));
    assert_eq!(detect_newlines("a\r\nb"), (false, true, false));
    assert_eq!(detect_newlines("a\rb"), (true, false, false));
    assert_eq!(detect_newlines("a\r"), (true, false, false));
    assert_eq!(detect_newlines("\n"), (false, false, true));
    assert_eq!(detect_newlines("a\r\r\nb\n"), (true, true, true));
    assert_eq!(detect_newlines("\r\n\r\n"), (false, true, false));
    assert_eq!(detect_newlines("\n\r"), (true, false, true));
}

#[test]
fn when_line_breaks_matter() {
    assert!(!newlines_matter("a\nb\n", "c\n"));
    assert!(!newlines_matter("a", "b"));
    assert!(newlines_matter("a\n", "a"));
    assert!(newlines_matter("a\r\n", "a\n"));
    assert!(newlines_matter("a\nb\r\nc", "d"));
    assert!(newlines_matter("a\rb", "c\nd"));
    assert!(!newlines_matter("a\r\nb", "c\r\nd"));
}

#[test]
fn invisible_characters_are_rendered() {
    assert_eq!(render_invisible("a\nb\r\nc\r", false), "a\nb\r\nc\r");
    assert_eq!(
        render_invisible("a\nb\r\nc\r", true),
        "a\u{240a}\nb\u{240d}\u{240a}\r\nc\u{240d}\r"
    );
    assert_eq!(render_invisible("a\x1b[0m\n", false), "a\x1b[0m\u{240a}\n");
    assert_eq!(render_invisible("\x07", false), "\x07");
    assert_eq!(render_invisible("\x08\n", false), "\x08\u{240a}\n");
    assert_eq!(render_invisible("\x7f\r", false), "\x7f\u{240d}\r");
    assert_eq!(render_invisible("", true), "");
}

#[test]
fn no_more_tests_run_than_the_concurrency_allows() {
    let mut schedule = Schedule::new(2, vec![10, 11, 12, 13]);
    let mut most = 0;
    let mut order = Vec::new();
    while !schedule.is_done() {
        while let Some(test) = schedule.start_next() {
            order.push(test);
        }
        most = most.max(schedule.running.len());
        assert!(schedule.running.len() <= 2);
        let first = schedule.running[0];
        assert!(schedule.finish(first));
        assert!(!schedule.finish(first));
    }
    assert_eq!(most, 2);
    assert_eq!(order, vec![10, 11, 12, 13]);
    assert_eq!(schedule.finished, vec![10, 11, 12, 13]);
    assert_eq!(schedule.start_next(), None);
    let mut blocked = Schedule::new(0, vec![1]);
    assert_eq!(blocked.start_next(), None);
    assert!(!blocked.is_done());
}

#[test]
fn the_defaults_of_the_configuration() {
    let params = HumaneParams::default();
    assert_eq!(params.concurrency, 10);
    assert_eq!(params.placeholder_delimiter, "%");
    assert!(params.placeholders.is_empty());
    assert!(params.root.is_none());
    assert!(!params.verbose && !params.porcelain && !params.interactive && !params.all);
    let copy = params.clone();
    assert_eq!(copy.concurrency, 10);
}

#[test]
fn the_command_line_overrides_the_configuration() {
    let mut params = HumaneParams::default();
    params.placeholders.push(("a".to_string(), "1".to_string()));
    params.verbose = true;
    let cli = CliMatches {
        verbose: false,
        porcelain: true,
        interactive: false,
        root: Some("tests".to_string()),
        concurrency: Some(3),
        placeholders: vec!["b=2".to_string(), "a=x=y".to_string(), "c=".to_string()],
    };
    assert_eq!(params.override_from_cli(cli), Ok(()));
    assert!(params.verbose);
    assert!(params.porcelain);
    assert!(!params.interactive);
    assert_eq!(params.root, Some("tests".to_string()));
    assert_eq!(params.concurrency, 3);
    assert_eq!(
        params.placeholders,
        vec![
            ("a".to_string(), "x=y".to_string()),
            ("b".to_string(), "2".to_string()),
            ("c".to_string(), "".to_string())
        ]
    );
    let bad = CliMatches {
        verbose: true,
        porcelain: false,
        interactive: true,
        root: None,
        concurrency: Some(9),
        placeholders: vec!["d=4".to_string(), "novalue".to_string(), "alsobad".to_string()],
    };
    let mut untouched = HumaneParams::default();
    assert_eq!(
        untouched.override_from_cli(bad),
        Err("Error parsing --placeholders, expected a value of key=value but received novalue"
            .to_string())
    );
    assert!(!untouched.verbose);
    assert_eq!(untouched.concurrency, 10);
    assert!(untouched.placeholders.is_empty());
    assert_eq!(
        parse_placeholders(&vec!["k=v".to_string()]),
        Ok(vec![("k".to_string(), "v".to_string())])
    );
}

#[test]
fn the_root_is_seen_from_the_working_directory() {
    let mut params = HumaneParams::default();
    params.root = Some("tests".to_string());
    let ctx = HumaneContext::load(params, "/work".to_string(), "1.0".to_string()).unwrap();
    assert_eq!(ctx.params.root, Some("/work/tests".to_string()));
    assert_eq!(ctx.working_directory, "/work");
    assert_eq!(ctx.version, "1.0");
    let ctx =
        HumaneContext::load(HumaneParams::default(), "/work".to_string(), "1.0".to_string())
            .unwrap();
    assert_eq!(ctx.params.root, None);
}

#[test]
fn scenarios_run_by_their_tags() {
    assert!(Humane::runs_scenario(&tags(&[]), "linux"));
    assert!(Humane::runs_scenario(&tags(&["slow"]), "plan9"));
    assert!(!Humane::runs_scenario(&tags(&["skip"]), "linux"));
    assert!(!Humane::runs_scenario(&tags(&["platform-linux", "skip"]), "linux"));
    assert!(Humane::runs_scenario(&tags(&["platform-linux"]), "linux"));
    assert!(Humane::runs_scenario(&tags(&["platform-unix"]), "linux"));
    assert!(Humane::runs_scenario(&tags(&["platform-unix"]), "macos"));
    assert!(Humane::runs_scenario(&tags(&["platform-macos"]), "macos"));
    assert!(!Humane::runs_scenario(&tags(&["platform-macos"]), "linux"));
    assert!(!Humane::runs_scenario(&tags(&["platform-unix"]), "windows"));
    assert!(Humane::runs_scenario(&tags(&["platform-windows"]), "windows"));
    assert!(!Humane::runs_scenario(&tags(&["platform-linux"]), "plan9"));
    assert!(!Humane::runs_scenario(&tags(&["platform-"]), "linux"));
    assert!(has_tag(&tags(&["a", "b"]), "b"));
    assert!(!has_tag(&tags(&["a", "b"]), "c"));
    assert!(Humane::has_failed(0, 0, 0, 1));
    assert!(Humane::has_failed(1, 0, 0, 0));
    assert!(!Humane::has_failed(0, 0, 0, 0));
}

#[test]
fn the_runner_of_scenarios_keeps_its_configuration() {
    assert_eq!(default_test_files(), ".");
    let config = RobotHumaneConfig::load(
        HumanHumaneConfig { test_file_root: default_test_files() },
        "0.1.0".to_string(),
    );
    assert_eq!(config.test_file_root, ".");
    assert_eq!(config.version, "0.1.0");
    let humane = Humane::new(config);
    assert_eq!(humane.test_file_root(), ".");
}

#[test]
fn command_lines_are_built_from_flags() {
    let mut command = BinaryCommand("bin".to_string());
    command.add_flag("--a");
    command.add_flag("b c");
    assert_eq!(command.consume(), "bin --a b c");
    assert_eq!(build_command("/cwd/bin", None, &tags(&[])), "/cwd/bin");
    assert_eq!(build_command("/cwd/bin", Some("build"), &tags(&["-v", "--out x"])), "/cwd/bin build -v --out x");
    assert_eq!(process_value("--dir {{humane_temp_dir}}/a", Some("/tmp/x")), Some("--dir /tmp/x/a".to_string()));
    assert_eq!(process_value("--dir {{humane_temp_dir}}", None), None);
    assert_eq!(process_value("--plain", None), Some("--plain".to_string()));
}

fn small_universe() -> Universe {
    let test = |name: &str, path: &str, role: &str| {
        (
            path.to_string(),
            parse_file(&format!("test: {name}\n{role}steps: []\n"), path, ".").unwrap(),
        )
    };
    Universe {
        tests: vec![
            test("shared", "shared.yml", "type: reference\n"),
            test("first", "a.yml", ""),
            test("second", "b.yml", ""),
        ],
        instructions: humane::definitions::register_instructions().unwrap(),
        retrievers: humane::definitions::register_retrievers().unwrap(),
        assertions: humane::definitions::register_assertions().unwrap(),
        ctx: HumaneContext {
            version: "test".to_string(),
            working_directory: ".".to_string(),
            params: HumaneParams::default(),
        },
    }
}

#[test]
fn only_tests_are_run() {
    let universe = small_universe();
    assert_eq!(universe.tests[0].1.file_type, HumaneFileType::Reference);
    assert_eq!(runnable_tests(&universe), vec![1, 2]);
    assert_eq!(tests_to_run(&universe, &RunMode::All), vec![1, 2]);
    assert_eq!(tests_to_run(&universe, &RunMode::One("b.yml".to_string())), vec![2]);
    assert_eq!(tests_to_run(&universe, &RunMode::One("zzz.yml".to_string())), Vec::<usize>::new());
    assert_eq!(test_label(&universe, 1), "a.yml (first)");
    assert_eq!(get_run_mode(&universe, 0, 1), RunMode::All);
    assert_eq!(get_run_mode(&universe, 1, 1), RunMode::One("b.yml".to_string()));
    assert_eq!(get_run_mode(&universe, 1, 2), RunMode::All);
    assert_eq!(universe.find_test("a.yml"), Some(1));
    assert_eq!(universe.test_paths(), vec!["shared.yml", "a.yml", "b.yml"]);
}

#[test]
fn the_steps_of_a_run_are_logged_as_lines() {
    let mut file = parse_file(
        "test: x\nsteps:\n  - I run 'a'\n  - ref: other\n  - snapshot: stdout\n",
        "x.yml",
        ".",
    )
    .unwrap();
    if let HumaneTestStep::Instruction { state, .. } = &mut file.steps[0] {
        *state = HumaneTestStepState::Passed;
    }
    let inner = parse_file("test: y\nsteps:\n  - I run 'b'\n  - ref: deeper\n", "y.yml", ".")
        .unwrap();
    let passed = file.steps[0].clone();
    if let HumaneTestStep::Ref { hydrated_steps, state, .. } = &mut file.steps[1] {
        let mut steps = inner.steps.clone();
        if let HumaneTestStep::Ref { hydrated_steps, .. } = &mut steps[1] {
            *hydrated_steps = Some(vec![passed]);
        }
        *hydrated_steps = Some(steps);
        *state = HumaneTestStepState::Failed;
    }
    let lines = log_step_runs(&file.steps, 0);
    let texts: Vec<&str> = lines.iter().map(|l| l.text.as_str()).collect();
    assert_eq!(
        texts,
        vec![
            "\u{2713} I run 'a'",
            "\u{2718} run steps from: other",
            "  \u{21b3} \u{29b8} I run 'b'",
            "  \u{21b3} \u{29b8} run steps from: deeper",
            "    \u{21b3} \u{2713} I run 'a'",
            "\u{29b8} snapshot: stdout",
        ]
    );
    assert_eq!(lines[1].state, HumaneTestStepState::Failed);
    assert_eq!(lines[4].state, HumaneTestStepState::Passed);
    assert!(log_step_runs(&Vec::new(), 3).is_empty());
}

#[test]
fn the_summary_counts_every_test_once() {
    let verdicts = vec![
        TestVerdict { outcome: Ok(()), accepted: false },
        TestVerdict { outcome: Err(HoldingError::TestFailure), accepted: false },
        TestVerdict { outcome: Err(HoldingError::TestFailure), accepted: true },
        TestVerdict { outcome: Err(HoldingError::SnapFailure { out: "a".to_string() }), accepted: true },
        TestVerdict { outcome: Err(HoldingError::SnapFailure { out: "b".to_string() }), accepted: false },
    ];
    assert_eq!(tally(&verdicts), (2, 3));
    assert_eq!(tally(&Vec::new()), (0, 0));
}

#[test]
fn test_files_are_gathered_under_their_normalized_paths() {
    let read = |name: &str, path: &str| parse_file(&format!("test: {name}\nsteps: []\n"), path, ".");
    let tests = collect_tests(vec![read("a", "./tests/../tests/a.yml"), read("b", "b.yml")]).unwrap();
    assert_eq!(tests.len(), 2);
    assert_eq!(tests[0].0, "tests/a.yml");
    assert_eq!(tests[0].1.name, "a");
    assert_eq!(tests[1].0, "b.yml");
    assert!(collect_tests(Vec::new()).unwrap().is_empty());
}

#[test]
fn duplicate_names_and_unreadable_files_are_errors() {
    let read = |name: &str, path: &str| parse_file(&format!("test: {name}\nsteps: []\n"), path, ".");
    let errors = collect_tests(vec![
        read("a", "one.yml"),
        parse_file("nothing", "bad.yml", "."),
        read("b", "two.yml"),
        read("a", "three.yml"),
    ])
    .unwrap_err();
    assert_eq!(
        errors,
        vec![
            HumaneInputError::ParseError(
                "the document does not have the shape of a test file".to_string()
            ),
            HumaneInputError::DuplicateName {
                path_one: "one.yml".to_string(),
                path_two: "three.yml".to_string(),
                name: "a".to_string()
            }
        ]
    );
}

#[test]
fn line_numbers_stand_at_the_right_of_their_column() {
    assert_eq!(number_column(None), "     ");
    assert_eq!(number_column(Some(0)), "    0");
    assert_eq!(number_column(Some(42)), "   42");
    assert_eq!(number_column(Some(99999)), "99999");
    assert_eq!(number_column(Some(123456)), "123456");
    for n in [0usize, 7, 1234, 100000] {
        assert_eq!(number_column(Some(n)), format!("{:>5}", n));
    }
}

#[test]
fn the_lines_of_a_comparison() {
    let values = vec![(false, "same ".to_string()), (true, "new\n".to_string())];
    let line = diff_line(ChangeKind::Insert, Some(3), Some(4), &values, false, true);
    assert_eq!(line.kind, ChangeKind::Insert);
    assert_eq!(line.old_column, "     ");
    assert_eq!(line.new_column, "    4");
    assert_eq!(line.pieces.len(), 2);
    assert_eq!(line.pieces[0].text, "same ");
    assert_eq!(line.pieces[0].emphasis, Emphasis::Dim);
    assert_eq!(line.pieces[1].text, "new\u{240a}\n");
    assert_eq!(line.pieces[1].emphasis, Emphasis::Strong);
    assert!(!line.missing_newline);

    let plain = vec![(false, "only\n".to_string())];
    let line = diff_line(ChangeKind::Insert, None, Some(0), &plain, true, false);
    assert_eq!(line.pieces[0].emphasis, Emphasis::Plain);
    assert_eq!(line.pieces[0].text, "only\n");
    assert!(line.missing_newline);

    let line = diff_line(ChangeKind::Delete, Some(12), Some(13), &values, false, false);
    assert_eq!(line.old_column, "   12");
    assert_eq!(line.new_column, "     ");
    assert_eq!(line.pieces[0].emphasis, Emphasis::Dim);
    assert_eq!(line.pieces[1].emphasis, Emphasis::Strong);

    let line = diff_line(ChangeKind::Equal, Some(1), Some(2), &values, false, false);
    assert_eq!(line.old_column, "    1");
    assert_eq!(line.new_column, "    2");
    assert_eq!(line.pieces[0].emphasis, Emphasis::Dim);
    assert_eq!(line.pieces[1].emphasis, Emphasis::Dim);
    assert!(diff_line(ChangeKind::Equal, None, None, &Vec::new(), false, false).pieces.is_empty());
}

#[test]
fn the_keys_of_a_review() {
    assert_eq!(review_key('a', ReviewView::Diff, 3, 9), ReviewAction::Accept);
    assert_eq!(review_key('r', ReviewView::Source, 3, 9), ReviewAction::Reject);
    assert_eq!(
        review_key('d', ReviewView::Diff, 3, 9),
        ReviewAction::Toggle { clear: 5, next: ReviewView::Source }
    );
    assert_eq!(
        review_key('d', ReviewView::Source, 3, 9),
        ReviewAction::Toggle { clear: 11, next: ReviewView::Diff }
    );
    assert_eq!(
        review_key('d', ReviewView::Diff, usize::MAX, 0),
        ReviewAction::Toggle { clear: usize::MAX, next: ReviewView::Source }
    );
    assert_eq!(review_key('x', ReviewView::Diff, 3, 9), ReviewAction::Ignore);
    assert_eq!(review_key('A', ReviewView::Diff, 3, 9), ReviewAction::Ignore);
}

#[test]
fn trimming_takes_white_space_from_both_ends() {
    assert_eq!(humane::text::trim("  a b \n"), "a b");
    assert_eq!(humane::text::trim("\u{a0}\t{}\u{3000}\r\n"), "{}");
    assert_eq!(humane::text::trim(" \u{2003} "), "");
    assert_eq!(humane::text::trim(""), "");
    assert_eq!(humane::text::trim("\u{200b}x\u{200b}"), "\u{200b}x\u{200b}");
}

#[test]
fn trimming_agrees_with_the_standard_library_on_every_character() {
    for code in 0u32..0x11_0000 {
        let Some(c) = char::from_u32(code) else {
            continue;
        };
        assert_eq!(humane::text::white_space(c), c.is_whitespace(), "U+{code:04X}");
    }
    for c in [' ', '\u{85}', '\u{1680}', '\u{2028}', '\u{205f}', 'x', '\u{200b}', '\u{feff}'] {
        let text = format!("{c}{c}a{c}b{c}");
        assert_eq!(humane::text::trim(&text), text.trim());
    }
}

#[test]
fn every_later_file_of_a_name_is_reported_against_the_first() {
    let read = |name: &str, path: &str| parse_file(&format!("test: {name}\nsteps: []\n"), path, ".");
    let errors = collect_tests(vec![
        read("a", "one.yml"),
        read("a", "two.yml"),
        read("b", "b.yml"),
        read("a", "three.yml"),
    ])
    .unwrap_err();
    let clash = |second: &str| HumaneInputError::DuplicateName {
        path_one: "one.yml".to_string(),
        path_two: second.to_string(),
        name: "a".to_string(),
    };
    assert_eq!(errors, vec![clash("two.yml"), clash("three.yml")]);
}

fn texts_of(line: &humane::differ::DiffLine) -> Vec<(Emphasis, String)> {
    line.pieces.iter().map(|p| (p.emphasis, p.text.clone())).collect()
}

#[test]
fn snapshots_are_compared_line_by_line() {
    let lines = humane::differ::diff_snapshots("a\nb\nc\n", "a\nx\nc\n");
    let kinds: Vec<ChangeKind> = lines.iter().map(|l| l.kind).collect();
    assert_eq!(
        kinds,
        vec![ChangeKind::Equal, ChangeKind::Delete, ChangeKind::Insert, ChangeKind::Equal]
    );
    assert_eq!(lines[0].old_column, "    0");
    assert_eq!(lines[0].new_column, "    0");
    assert_eq!(lines[1].old_column, "    1");
    assert_eq!(lines[1].new_column, "     ");
    assert_eq!(lines[2].old_column, "     ");
    assert_eq!(lines[2].new_column, "    1");
    assert_eq!(lines[3].old_column, "    2");
    let shown: String = lines[2].pieces.iter().map(|p| p.text.as_str()).collect();
    assert_eq!(shown, "x\n");
    let kept: String = lines[0].pieces.iter().map(|p| p.text.as_str()).collect();
    assert_eq!(kept, "a\n");
    assert!(lines.iter().all(|l| !l.missing_newline));
}

#[test]
fn a_comparison_of_equal_snapshots_holds_only_kept_lines() {
    let lines = humane::differ::diff_snapshots("one\ntwo", "one\ntwo");
    assert_eq!(lines.len(), 2);
    assert!(lines.iter().all(|l| l.kind == ChangeKind::Equal));
    assert_eq!(texts_of(&lines[1]), vec![(Emphasis::Dim, "two".to_string())]);
    assert!(lines[1].missing_newline);
    assert!(humane::differ::diff_snapshots("", "").is_empty());
}

#[test]
fn a_comparison_shows_line_breaks_where_they_differ() {
    let lines = humane::differ::diff_snapshots("a\r\nb\n", "a\nb\n");
    let all: String =
        lines.iter().flat_map(|l| l.pieces.iter().map(|p| p.text.clone())).collect();
    assert!(all.contains("\u{240d}\u{240a}\r\n"));
    assert!(all.contains("\u{240a}\n"));
}

#[test]
fn changes_are_shown_in_their_order() {
    let changes = vec![
        LineChange {
            kind: ChangeKind::Delete,
            old_index: Some(0),
            new_index: None,
            values: vec![(false, "ab".to_string()), (true, "c\n".to_string())],
            missing_newline: false,
        },
        LineChange {
            kind: ChangeKind::Insert,
            old_index: None,
            new_index: Some(0),
            values: vec![(false, "ab".to_string()), (true, "d".to_string())],
            missing_newline: true,
        },
    ];
    let lines = show_changes(&changes, false);
    assert_eq!(lines.len(), 2);
    assert_eq!(lines[0].kind, ChangeKind::Delete);
    assert_eq!(lines[0].old_column, "    0");
    assert_eq!(lines[0].new_column, "     ");
    assert_eq!(
        texts_of(&lines[0]),
        vec![(Emphasis::Dim, "ab".to_string()), (Emphasis::Strong, "c\n".to_string())]
    );
    assert_eq!(lines[1].kind, ChangeKind::Insert);
    assert!(lines[1].missing_newline);
    assert_eq!(
        texts_of(&lines[1]),
        vec![(Emphasis::Dim, "ab".to_string()), (Emphasis::Strong, "d".to_string())]
    );
    let visible = show_changes(&changes, true);
    assert_eq!(texts_of(&visible[0])[1].1, "c\u{240a}\n");
    assert!(show_changes(&Vec::new(), true).is_empty());
}
