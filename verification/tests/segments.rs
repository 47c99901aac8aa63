use humane::json::JsonValue;
use humane::parser::parse_segments;
use humane::segments::{HumaneSegment, HumaneSegments};
use std::collections::hash_map::DefaultHasher;
use std::collections::HashMap;
use std::hash::{Hash, Hasher};

fn hash_of(pattern: &HumaneSegments) -> u64 {
    let mut hasher = DefaultHasher::new();
    pattern.hash(&mut hasher);
    hasher.finish()
}

fn lit(text: &str) -> HumaneSegment {
    HumaneSegment::Literal(text.to_string())
}

fn var(name: &str) -> HumaneSegment {
    HumaneSegment::Variable(name.to_string())
}

fn val(text: &str) -> HumaneSegment {
    HumaneSegment::Value(JsonValue::String(text.to_string()))
}

// Instructions should alias to each other regardless of the contents of their
// variables or values.
#[test]
fn test_instruction_equality() {
    let instruction_a = parse_segments("I have a 'index.html' file with the contents {var}")
        .expect("Valid instruction");

    let instruction_b = parse_segments("I have a {filename} file with the contents {var}")
        .expect("Valid instruction");

    let instruction_c = parse_segments("I have one {filename} file with the contents {var}")
        .expect("Valid instruction");

    assert_eq!(instruction_a, instruction_b);

    let mut map = HashMap::new();
    map.insert(&instruction_b, "b");

    assert_eq!(map.get(&&instruction_a), Some(&"b"));

    assert_ne!(instruction_b, instruction_c);
    assert_eq!(map.get(&&instruction_c), None);
}

// Segments should alias to each other regardless of the contents of their
// variables or values.
#[test]
fn test_segments_equality() {
    let segments_a = parse_segments("I have a 'index.html' file with the contents {var}")
        .expect("Valid segments");

    let segments_b = parse_segments("I have a {filename} file with the contents {var}")
        .expect("Valid segments");

    let segments_c = parse_segments("I have one {filename} file with the contents {var}")
        .expect("Valid segments");

    assert_eq!(segments_a, segments_b);

    let mut map = HashMap::new();
    map.insert(&segments_b, "b");

    assert_eq!(map.get(&&segments_a), Some(&"b"));

    assert_ne!(segments_b, segments_c);
    assert_eq!(map.get(&&segments_c), None);
}

#[test]
fn matching_is_symmetric_and_reflexive_without_values() {
    let definition = HumaneSegments { segments: vec![lit("I have a "), var("name"), lit(" file")] };
    let invocation = HumaneSegments { segments: vec![lit("I have a "), val("a.html"), lit(" file")] };
    assert!(definition == invocation);
    assert!(invocation == definition);
    assert!(definition == definition);
    // A quoted value does not stand for a quoted value.
    assert!(invocation != invocation);
}

#[test]
fn matching_is_not_transitive() {
    let a = HumaneSegments { segments: vec![val("one")] };
    let b = HumaneSegments { segments: vec![var("x")] };
    let c = HumaneSegments { segments: vec![val("two")] };
    assert!(a == b);
    assert!(b == c);
    assert!(a != c);
}

#[test]
fn placeholders_never_stand_for_literals() {
    let literal = HumaneSegments { segments: vec![lit("stdout")] };
    let variable = HumaneSegments { segments: vec![var("stdout")] };
    let value = HumaneSegments { segments: vec![val("stdout")] };
    assert!(literal != variable);
    assert!(variable != literal);
    assert!(literal != value);
    assert!(literal == HumaneSegments { segments: vec![lit("stdout")] });
    assert!(literal != HumaneSegments { segments: vec![lit("stderr")] });
}

#[test]
fn patterns_of_different_length_do_not_match() {
    let short = HumaneSegments { segments: vec![lit("a")] };
    let long = HumaneSegments { segments: vec![lit("a"), var("b")] };
    assert!(short != long);
    assert!(long != short);
}

#[test]
fn matching_patterns_hash_alike() {
    let definition = parse_segments("I have a {filename} file").unwrap();
    let quoted = parse_segments("I have a \"index.html\" file").unwrap();
    let other = parse_segments("I have a 'about.html' file").unwrap();
    assert_eq!(hash_of(&definition), hash_of(&quoted));
    assert_eq!(hash_of(&definition), hash_of(&other));
    assert_eq!(definition.hash_key(), quoted.hash_key());
    assert_eq!(
        definition.hash_key(),
        vec![Some("I have a ".to_string()), None, Some(" file".to_string())]
    );
}

#[test]
fn comparison_string_replaces_placeholders() {
    let pattern = parse_segments("I have a \"index.html\" file with the contents {var}").unwrap();
    assert_eq!(
        pattern.get_comparison_string(),
        "I have a {___} file with the contents {___}"
    );
    let empty = HumaneSegments { segments: vec![] };
    assert_eq!(empty.get_comparison_string(), "");
}

#[test]
fn readable_form_of_a_pattern() {
    let pattern = parse_segments("I have a \"a.html\" file named {name}").unwrap();
    assert_eq!(pattern.get_as_string(), "I have a \"a.html\" file named {name}");
    let single = HumaneSegments { segments: vec![val("say \"hi\"")] };
    assert_eq!(single.get_as_string(), "'say \"hi\"'");
    let number =
        HumaneSegments { segments: vec![HumaneSegment::Value(JsonValue::Number("3".to_string()))] };
    assert_eq!(number.get_as_string(), "\"3\"");
}

#[test]
fn readable_form_parses_back_to_the_same_segments() {
    let texts = [
        "I have a \"a.html\" file",
        "I run 'echo \"hi\"' and expect it to fail",
        "The file {name} should contain {html}",
        "''{}",
        "plain words",
    ];
    for text in texts {
        let first = parse_segments(text).unwrap();
        let second = parse_segments(&first.get_as_string()).unwrap();
        assert_eq!(first.segments, second.segments);
    }
}

#[test]
fn cloning_keeps_the_segments() {
    let pattern = parse_segments("I have a \"a.html\" file named {name}").unwrap();
    assert_eq!(pattern.clone().segments, pattern.segments);
}
