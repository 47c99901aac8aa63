use humane::parser::parse_file;
use humane::steps::{HumaneTestFile, HumaneTestStep, HumaneTestStepState};
use humane::writer::{indented_lines, settle_run, write_yaml_snapshots, HoldingError};

const DOC: &str = "# a comment that stays\ntest: Snapshots\nsteps:\n  - I run \"echo hi\"   # trailing comment\n  - snapshot: stdout\n    snapshot_content: |-\n      hi\n  - snapshot:   stderr\n";

fn hydrated(contents: &[Option<&str>]) -> HumaneTestFile {
    let mut file = parse_file(DOC, "snap.yml", ".").unwrap();
    let mut given = contents.iter();
    for step in file.steps.iter_mut() {
        if let HumaneTestStep::Snapshot { snapshot_content, state, .. } = step {
            *snapshot_content = given.next().unwrap().map(|s| s.to_string());
            *state = HumaneTestStepState::Passed;
        }
    }
    file
}

#[test]
fn lines_are_indented_by_two_spaces() {
    assert_eq!(indented_lines("a\n b\r\n\nc"), vec!["  a", "   b", "  ", "  c"]);
    assert_eq!(indented_lines("a\n"), vec!["  a"]);
    assert_eq!(indented_lines(""), Vec::<String>::new());
    assert_eq!(indented_lines("\n"), vec!["  "]);
    assert_eq!(indented_lines("a\r"), vec!["  a\r"]);
}

#[test]
fn steps_without_pending_snapshots_leave_the_document_alone() {
    let file = hydrated(&[None, None]);
    assert_eq!(write_yaml_snapshots(DOC, &file), Some(DOC.to_string()));
    assert_eq!(settle_run(&file, true), Ok(()));
}

#[test]
fn a_snapshot_that_differs_is_a_mismatch_that_changes_only_its_block() {
    let file = hydrated(&[Some("hello\nworld"), None]);
    let rewritten = write_yaml_snapshots(DOC, &file).unwrap();
    assert_eq!(
        rewritten,
        "# a comment that stays\ntest: Snapshots\nsteps:\n  - I run \"echo hi\"   # trailing comment\n  - snapshot: stdout\n    snapshot_content: |2+\n        hello\n        world\n  - snapshot:   stderr\n"
    );
    let again = parse_file(&rewritten, "snap.yml", ".").unwrap();
    assert_eq!(again.name, "Snapshots");
    assert_eq!(again.steps.len(), 3);
    let HumaneTestStep::Snapshot { args, .. } = &again.steps[1] else {
        panic!("not a snapshot");
    };
    assert_eq!(args.len(), 1);
    assert_eq!(args[0].0, "snapshot_content");
    assert_eq!(args[0].1.to_json(), "\"  hello\\n  world\\n\"");
    assert_eq!(
        settle_run(&file, true),
        Err(HoldingError::SnapFailure { out: rewritten })
    );
}

#[test]
fn writing_the_same_snapshot_twice_changes_nothing_more() {
    let file = hydrated(&[Some("hello"), Some("second")]);
    let once = write_yaml_snapshots(DOC, &file).unwrap();
    let twice = write_yaml_snapshots(&once, &file).unwrap();
    assert_eq!(once.trim(), twice.trim());
    let mut settled = file.clone();
    settled.original_source = once;
    assert_eq!(settle_run(&settled, true), Ok(()));
}

#[test]
fn a_failed_run_is_a_test_failure() {
    let file = hydrated(&[Some("hello"), None]);
    assert_eq!(settle_run(&file, false), Err(HoldingError::TestFailure));
}

#[test]
fn a_document_without_the_entry_of_a_snapshot_cannot_be_written() {
    let file = hydrated(&[Some("hello"), None]);
    assert_eq!(write_yaml_snapshots("test: x\nsteps:\n  - a\n", &file), None);
    assert_eq!(write_yaml_snapshots("test: x\n", &file), None);
    assert_eq!(write_yaml_snapshots("- a\n- b\n", &file), None);
    let mut broken = file.clone();
    broken.original_source = "test: x\n".to_string();
    assert_eq!(settle_run(&broken, true), Err(HoldingError::TestFailure));
}
