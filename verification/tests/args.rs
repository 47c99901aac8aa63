use humane::args::{replace_inside_text, replace_inside_value, InstructionArgs, SegmentArgs};
use humane::errors::{HumaneInputError, HumaneInternalError, HumaneStepError, HumaneTestFailure};
use humane::json::JsonValue;
use humane::options::{HumaneContext, HumaneParams};
use humane::parser::parse_segments;

fn st(s: &str) -> JsonValue {
    JsonValue::String(s.to_string())
}

fn pairs(items: &[(&str, &str)]) -> Vec<(String, String)> {
    items.iter().map(|(k, v)| (k.to_string(), v.to_string())).collect()
}

fn context(placeholders: &[(&str, &str)]) -> HumaneContext {
    let mut params = HumaneParams::default();
    for (key, value) in placeholders {
        params.placeholders.push((key.to_string(), value.to_string()));
    }
    HumaneContext { version: "test".to_string(), working_directory: ".".to_string(), params }
}

#[test]
fn mod_test_building_args() {
    let instruction_def = parse_segments("I have a {name} file with the contents {var}")
        .expect("Valid instruction");

    let user_instruction =
        parse_segments("I have a \"index.html\" file with the contents ':)'")
            .expect("Valid instruction");

    let input = Vec::new();

    let args = InstructionArgs::build(&instruction_def, &user_instruction, &input)
        .expect("Args built successfully");

    let Ok(str) = args.get_str("name") else {
        panic!("Argument was not a string, got {:?}", args.get_str("name"));
    };
    assert_eq!(str, "index.html");
}

#[test]
fn instruction_args_name_what_they_hold() {
    let definition = parse_segments("I have a {name} file with the contents {var}").unwrap();
    let invocation = parse_segments("I have a 'a.txt' file with the contents 'b'").unwrap();
    let input = vec![("extra".to_string(), st("more"))];
    let args = InstructionArgs::build(&definition, &invocation, &input).unwrap();
    match args.get_str("absent") {
        Err(HumaneInputError::NonexistentArgument { arg, has }) => {
            assert_eq!(arg, "absent");
            assert_eq!(has, "name, var");
        }
        other => panic!("expected a missing argument, got {:?}", other),
    }
}

#[test]
fn segments_test_building_args() {
    let segments_def = parse_segments("I have a {name} file with the contents {var}")
        .expect("Valid instruction");

    let user_instruction =
        parse_segments("I have a \"index.html\" file with the contents ':)'")
            .expect("Valid instruction");

    let input = Vec::new();

    let args = SegmentArgs::build(&segments_def, &user_instruction, &input, None)
        .expect("Args built successfully");

    let Ok(str) = args.get_string("name") else {
        panic!(
            "Argument was not a string, got {:?}",
            args.get_string("name")
        );
    };
    assert_eq!(str, "index.html");
}

#[test]
fn test_arg_placeholders() {
    let instruction_def = parse_segments("I have a {name} file with the contents {var}")
        .expect("Valid instruction");

    let user_instruction =
        parse_segments("I have a \"index.%ext%\" file with the contents ':)'")
            .expect("Valid instruction");

    let input = Vec::new();
    let mut params = HumaneParams::default();
    params.placeholders.push(("ext".into(), "pdf".into()));
    let ctx = HumaneContext {
        version: "test".to_string(),
        working_directory: ".".to_string(),
        params,
    };

    let args = SegmentArgs::build(&instruction_def, &user_instruction, &input, Some(&ctx))
        .expect("Args built successfully");

    let Ok(str) = args.get_string("name") else {
        panic!(
            "Argument was not a string, got {:?}",
            args.get_string("name")
        );
    };
    assert_eq!(str, "index.pdf");
}

#[test]
fn test_complex_placeholders() {
    let placeholders = pairs(&[("cloud", "cannon"), ("thekey", "the value")]);

    let start_value = JsonValue::Object(vec![
        ("title".to_string(), st("Hello cloud%cloud%")),
        ("tags".to_string(), JsonValue::Array(vec![st("cannon"), st("%cloud%")])),
        (
            "nested".to_string(),
            JsonValue::Object(vec![
                ("null".to_string(), JsonValue::Null),
                ("count".to_string(), JsonValue::Number("3".to_string())),
                ("replaced".to_string(), st("thekey is %thekey%")),
            ]),
        ),
    ]);

    let mut end_value = start_value.clone();
    replace_inside_value(&mut end_value, "%", &placeholders);

    let expected_end_value = JsonValue::Object(vec![
        ("title".to_string(), st("Hello cloudcannon")),
        ("tags".to_string(), JsonValue::Array(vec![st("cannon"), st("cannon")])),
        (
            "nested".to_string(),
            JsonValue::Object(vec![
                ("null".to_string(), JsonValue::Null),
                ("count".to_string(), JsonValue::Number("3".to_string())),
                ("replaced".to_string(), st("thekey is the value")),
            ]),
        ),
    ]);

    assert_eq!(end_value, expected_end_value);
}

#[test]
fn substitution_keeps_values_without_the_delimiter() {
    let placeholders = pairs(&[("cloud", "cannon"), ("", "x")]);
    let value = JsonValue::Object(vec![
        ("%cloud%".to_string(), st("cloud and cannon")),
        ("list".to_string(), JsonValue::Array(vec![st(""), JsonValue::Bool(true), st("plain")])),
    ]);
    let mut after = value.clone();
    replace_inside_value(&mut after, "%", &placeholders);
    assert_eq!(after, value);
}

#[test]
fn substitution_leaves_names_numbers_and_booleans_alone() {
    let placeholders = pairs(&[("a", "b")]);
    let mut value = JsonValue::Object(vec![
        ("%a%".to_string(), JsonValue::Number("1".to_string())),
        ("t".to_string(), JsonValue::Bool(false)),
        ("n".to_string(), JsonValue::Null),
    ]);
    let before = value.clone();
    replace_inside_value(&mut value, "%", &placeholders);
    assert_eq!(value, before);
}

#[test]
fn placeholders_apply_in_the_order_of_the_list() {
    assert_eq!(
        replace_inside_text("%a%", "%", &pairs(&[("a", "%b%"), ("b", "done")])),
        "done"
    );
    assert_eq!(
        replace_inside_text("%a%", "%", &pairs(&[("b", "done"), ("a", "%b%")])),
        "%b%"
    );
}

#[test]
fn every_occurrence_of_a_placeholder_is_replaced() {
    assert_eq!(
        replace_inside_text("%x%-%x%%x%", "%", &pairs(&[("x", "1")])),
        "1-11"
    );
    assert_eq!(replace_inside_text("%%%", "%", &pairs(&[("", "1")])), "1%");
    assert_eq!(replace_inside_text("100%", "%", &pairs(&[("x", "1")])), "100%");
    assert_eq!(replace_inside_text("[[x]]", "[[", &pairs(&[("x]]", "1")])), "[[x]]");
}

#[test]
fn an_empty_delimiter_replaces_the_bare_key() {
    assert_eq!(replace_inside_text("a key", "", &pairs(&[("key", "lock")])), "a lock");
    assert_eq!(replace_inside_text("ab", "", &pairs(&[("", "-")])), "-a-b-");
}

#[test]
fn variables_take_their_values_from_the_arguments() {
    let definition = parse_segments("I have a {name} file with the contents {var}").unwrap();
    let invocation = parse_segments("I have a {file} file with the contents {body}").unwrap();
    let input = vec![
        ("file".to_string(), st("a.txt")),
        ("body".to_string(), JsonValue::Array(vec![st("%v%")])),
    ];
    let ctx = context(&[("v", "1")]);
    let args = SegmentArgs::build(&definition, &invocation, &input, Some(&ctx)).unwrap();
    assert_eq!(args.get_string("name").unwrap(), "a.txt");
    assert_eq!(args.get_value("var").unwrap(), JsonValue::Array(vec![st("1")]));
}

#[test]
fn a_missing_argument_names_what_there_is() {
    let definition = parse_segments("I have a {name} file").unwrap();
    let invocation = parse_segments("I have a {file} file").unwrap();
    let input = vec![("other".to_string(), st("a")), ("more".to_string(), st("b"))];
    let error = SegmentArgs::build(&definition, &invocation, &input, None).err().unwrap();
    assert_eq!(
        error,
        HumaneInputError::NonexistentArgument {
            arg: "file".to_string(),
            has: "other, more".to_string()
        }
    );
}

#[test]
fn reading_an_unknown_name_names_what_is_bound() {
    let definition = parse_segments("{a} and {b}").unwrap();
    let invocation = parse_segments("'1' and '2'").unwrap();
    let args = SegmentArgs::build(&definition, &invocation, &Vec::new(), None).unwrap();
    assert_eq!(
        args.get_value("c").unwrap_err(),
        HumaneInputError::NonexistentArgument { arg: "c".to_string(), has: "a, b".to_string() }
    );
    assert_eq!(
        args.get_string("c").unwrap_err(),
        HumaneInputError::NonexistentArgument { arg: "c".to_string(), has: "a, b".to_string() }
    );
}

#[test]
fn reading_a_string_names_the_type_that_was_found() {
    let definition = parse_segments("{a}{b}{c}{d}{e}").unwrap();
    let invocation = parse_segments("{a}{b}{c}{d}{e}").unwrap();
    let input = vec![
        ("a".to_string(), JsonValue::Null),
        ("b".to_string(), JsonValue::Bool(true)),
        ("c".to_string(), JsonValue::Number("1".to_string())),
        ("d".to_string(), JsonValue::Array(vec![])),
        ("e".to_string(), JsonValue::Object(vec![])),
    ];
    let args = SegmentArgs::build(&definition, &invocation, &input, None).unwrap();
    for (key, was) in
        [("a", "null"), ("b", "boolean"), ("c", "number"), ("d", "array"), ("e", "object")]
    {
        assert_eq!(
            args.get_string(key).unwrap_err(),
            HumaneInputError::IncorrectArgumentType {
                arg: key.to_string(),
                was: was.to_string(),
                expected: "string".to_string()
            }
        );
    }
}

#[test]
fn a_later_binding_of_a_name_replaces_an_earlier_one() {
    let definition = parse_segments("{a} then {a}").unwrap();
    let invocation = parse_segments("'1' then '2'").unwrap();
    let args = SegmentArgs::build(&definition, &invocation, &Vec::new(), None).unwrap();
    assert_eq!(args.get_string("a").unwrap(), "2");
}

#[test]
fn arguments_without_placeholders_read_strings() {
    let definition = parse_segments("I have a {name} file with the contents {var}").unwrap();
    let invocation = parse_segments("I have a \"index.%ext%\" file with the contents {body}").unwrap();
    let input = vec![("body".to_string(), JsonValue::Number("3".to_string()))];
    let args = humane::args::InstructionArgs::build(&definition, &invocation, &input).unwrap();
    assert_eq!(args.get_str("name"), Ok("index.%ext%".to_string()));
    assert_eq!(
        args.get_str("var"),
        Err(HumaneInputError::IncorrectArgumentType {
            arg: "var".to_string(),
            was: "number".to_string(),
            expected: "string".to_string()
        })
    );
    assert!(matches!(
        args.get_str("none"),
        Err(HumaneInputError::NonexistentArgument { .. })
    ));
    let missing = parse_segments("I have a {file} file with the contents {body}").unwrap();
    assert!(humane::args::InstructionArgs::build(&definition, &missing, &input).is_err());
}

#[test]
fn errors_become_step_errors() {
    let external: HumaneStepError = HumaneInputError::NonexistentStep.into();
    assert_eq!(external, HumaneStepError::External(HumaneInputError::NonexistentStep));
    let internal: HumaneStepError = HumaneInternalError::Custom { msg: "m".to_string() }.into();
    assert_eq!(
        internal,
        HumaneStepError::Internal(HumaneInternalError::Custom { msg: "m".to_string() })
    );
    let failure: HumaneStepError = HumaneTestFailure::Custom { msg: "m".to_string() }.into();
    assert_eq!(
        failure,
        HumaneStepError::Assertion(HumaneTestFailure::Custom { msg: "m".to_string() })
    );
}
