use humane::args::SegmentArgs;
use humane::civilization::Civilization;
use humane::definitions::{
    declared_assertion, declared_instruction, declared_retriever, register_assertions,
    register_instructions, register_retrievers, HumaneAssertion, HumaneInstruction,
    HumaneRetriever,
};
use humane::errors::{HumaneInputError, HumaneStepError};
use humane::json::JsonValue;
use humane::parser::parse_segments;
use humane::registry::{index_declared, Registry};
use humane::suggest::{
    closest_definitions, closest_strings, suggested_candidates, LATE_SIMILARITY_FLOOR,
    SIMILARITY_FLOOR,
};

pub struct TestInstruction;

impl HumaneInstruction for TestInstruction {
    fn segments(&self) -> &'static str {
        "I am an instruction asking for {argument}"
    }

    fn run(&self, _args: &SegmentArgs, _civ: &mut Civilization) -> Result<(), HumaneStepError> {
        Ok(())
    }
}

pub struct TestRetriever;

impl HumaneRetriever for TestRetriever {
    fn segments(&self) -> &'static str {
        "the file {filename}"
    }

    fn run(
        &self,
        _args: &SegmentArgs,
        _civ: &mut Civilization,
    ) -> Result<JsonValue, HumaneStepError> {
        Ok(JsonValue::Null)
    }
}

pub struct TestAssertion;

impl HumaneAssertion for TestAssertion {
    fn segments(&self) -> &'static str {
        "be exactly {value}"
    }

    fn run(
        &self,
        _base_value: JsonValue,
        _args: &SegmentArgs,
        _civ: &mut Civilization,
    ) -> Result<(), HumaneStepError> {
        Ok(())
    }
}

pub struct Unreadable;

impl HumaneInstruction for Unreadable {
    fn segments(&self) -> &'static str {
        "I am {unclosed"
    }

    fn run(&self, _args: &SegmentArgs, _civ: &mut Civilization) -> Result<(), HumaneStepError> {
        Ok(())
    }
}

#[test]
fn mod_test_getting_an_instruction() {
    let users_instruction = parse_segments("I am an instruction asking for \"this argument\"")
        .expect("Valid instruction");

    let mut capabilities = humane::definitions::builtin_instructions();
    capabilities.push(declared_instruction(Box::new(TestInstruction)));
    let all_instructions = index_declared(capabilities).expect("Valid instructions");
    let at = all_instructions
        .lookup(&users_instruction)
        .expect("should be able to retrieve instruction");
    let matching_instruction = all_instructions.capability(at);

    assert_eq!(
        matching_instruction.segments(),
        "I am an instruction asking for {argument}"
    );
}

#[test]
fn test_getting_an_instruction() {
    let users_instruction = parse_segments("I am an instruction asking for \"this argument\"")
        .expect("Valid instruction");

    let mut capabilities = humane::definitions::builtin_instructions();
    capabilities.push(declared_instruction(Box::new(TestInstruction)));
    let all_instructions = index_declared(capabilities).expect("Valid instructions");
    let at = all_instructions
        .lookup(&users_instruction)
        .expect("should be able to retrieve instruction");

    assert_eq!(
        all_instructions.capability(at).segments(),
        "I am an instruction asking for {argument}"
    );
}

#[test]
fn test_getting_a_retriever() {
    let users_segments = parse_segments("the file \"index.html\"").expect("Valid instruction");

    let mut capabilities = humane::definitions::builtin_retrievers();
    capabilities.push(declared_retriever(Box::new(TestRetriever)));
    let all_segments = index_declared(capabilities).expect("Valid retrievers");
    let at = all_segments.lookup(&users_segments).expect("should be able to retrieve segments");

    assert_eq!(all_segments.capability(at).segments(), "the file {filename}");
}

#[test]
fn test_getting_an_assertion() {
    let users_segments = parse_segments("be exactly {my_json}").expect("Valid instruction");

    let mut capabilities = humane::definitions::builtin_assertions();
    capabilities.push(declared_assertion(Box::new(TestAssertion)));
    let all_segments = index_declared(capabilities).expect("Valid assertions");
    let at = all_segments.lookup(&users_segments).expect("should be able to retrieve segments");

    assert_eq!(all_segments.capability(at).segments(), "be exactly {value}");
}

#[test]
fn the_capabilities_that_come_with_the_runner_are_registered() {
    let instructions = register_instructions().unwrap();
    let retrievers = register_retrievers().unwrap();
    let assertions = register_assertions().unwrap();
    assert_eq!(instructions.len(), 8);
    assert_eq!(retrievers.len(), 5);
    assert_eq!(assertions.len(), 6);
    let run = parse_segments("I run \"echo\"").unwrap();
    let at = instructions.lookup(&run).unwrap();
    assert_eq!(instructions.capability(at).segments(), "I run {command}");
    let failing = parse_segments("I run \"echo\" and expect it to fail").unwrap();
    let at = instructions.lookup(&failing).unwrap();
    assert_eq!(instructions.capability(at).segments(), "I run {command} and expect it to fail");
    let exactly = parse_segments("be exactly \"OK\"").unwrap();
    let at = assertions.lookup(&exactly).unwrap();
    assert_eq!(assertions.capability(at).segments(), "be exactly {expected}");
    assert_eq!(assertions.definition(at).get_as_string(), "be exactly {expected}");
    let stdout = parse_segments("stdout").unwrap();
    assert!(retrievers.lookup(&stdout).is_some());
    assert!(retrievers.lookup(&parse_segments("stdin").unwrap()).is_none());
}

#[test]
fn capabilities_are_enrolled_under_the_patterns_that_are_read() {
    let mut registry: Registry<u8> = Registry::new();
    assert_eq!(registry.enroll("I run {command}", 1), Ok(()));
    assert_eq!(
        registry.enroll("I run {command", 2),
        Err(HumaneInputError::UnclosedValue { expected: '}' })
    );
    assert_eq!(registry.enroll("I run {other}", 3), Ok(()));
    assert_eq!(registry.len(), 1);
    assert_eq!(*registry.capability(0), 3);
    let indexed = index_declared(vec![("a {b}", 1u8), ("c", 2), ("a {d}", 3)]).unwrap();
    assert_eq!(indexed.comparison_strings(), vec!["a {___}".to_string(), "c".to_string()]);
    assert_eq!(*indexed.capability(0), 3);
    assert!(index_declared(vec![("a {b}", 1u8), ("'c", 2)]).is_err());
}

#[test]
fn a_later_capability_takes_the_place_of_one_with_a_matching_pattern() {
    let mut registry: Registry<u8> = Registry::new();
    registry.register(parse_segments("I run {command}").unwrap(), 1);
    registry.register(parse_segments("I stop {command}").unwrap(), 2);
    registry.register(parse_segments("I run {other}").unwrap(), 3);
    assert_eq!(registry.len(), 2);
    let at = registry.lookup(&parse_segments("I run 'x'").unwrap()).unwrap();
    assert_eq!(*registry.capability(at), 3);
    assert_eq!(registry.definition(at).get_as_string(), "I run {command}");
    assert_eq!(
        registry.comparison_strings(),
        vec!["I run {___}".to_string(), "I stop {___}".to_string()]
    );
}

#[test]
fn a_pattern_that_cannot_be_read_is_refused() {
    let capabilities: Vec<(&'static str, Box<dyn HumaneInstruction>)> = vec![
        declared_instruction(Box::new(TestInstruction)),
        declared_instruction(Box::new(Unreadable)),
    ];
    let error = index_declared(capabilities).err().unwrap();
    assert_eq!(error, HumaneInputError::UnclosedValue { expected: '}' });
}

#[test]
fn candidates_are_ranked_by_descending_similarity() {
    let options =
        vec!["fill".to_string(), "night".to_string(), "ride".to_string(), "fight".to_string()];
    let ranking = closest_strings(&"fight".to_string(), &options);
    let order: Vec<usize> = ranking.iter().map(|r| r.0).collect();
    assert_eq!(order, vec![3, 1, 0, 2]);
    let scores: Vec<f64> = ranking.iter().map(|r| f64::from_bits(r.1)).collect();
    assert_eq!(scores, vec![1.0, 0.8, 0.4, 0.2]);
}

#[test]
fn candidates_that_are_as_similar_keep_their_order() {
    let options = vec!["ab".to_string(), "ba".to_string(), "ab".to_string(), "zz".to_string()];
    let ranking = closest_strings(&"ab".to_string(), &options);
    let order: Vec<usize> = ranking.iter().map(|r| r.0).collect();
    assert_eq!(order, vec![0, 2, 1, 3]);
    assert!(closest_strings(&"ab".to_string(), &Vec::new()).is_empty());
}

#[test]
fn the_floors_are_the_ratings_they_stand_for() {
    assert_eq!(f64::from_bits(SIMILARITY_FLOOR), 0.4);
    assert_eq!(f64::from_bits(LATE_SIMILARITY_FLOOR), 0.6);
    assert_eq!(f64::from_bits(humane::suggest::FULL_SIMILARITY), 1.0);
}

#[test]
fn the_best_candidate_is_always_suggested() {
    let low = 0.1f64.to_bits();
    let floor = 0.4f64.to_bits();
    let below_floor = 0.39f64.to_bits();
    let late = 0.6f64.to_bits();
    let below_late = 0.59f64.to_bits();
    assert_eq!(suggested_candidates(&vec![(7, low)]), vec![7]);
    assert_eq!(suggested_candidates(&vec![(7, low), (3, low)]), vec![7]);
    assert_eq!(suggested_candidates(&vec![(2, floor), (1, floor), (0, below_floor)]), vec![2, 1]);
    let many = vec![
        (0, late),
        (1, late),
        (2, late),
        (3, late),
        (4, late),
        (5, below_late),
        (6, below_late),
        (7, late),
    ];
    assert_eq!(suggested_candidates(&many), vec![0, 1, 2, 3, 4, 5, 7]);
    assert!(suggested_candidates(&Vec::new()).is_empty());
}

#[test]
fn the_closest_definitions_are_suggested_in_order() {
    let instructions = register_instructions().unwrap();
    let line = parse_segments("I run 'x' and expect it to fall").unwrap();
    assert!(instructions.lookup(&line).is_none());
    let closest = closest_definitions(&line, &instructions);
    assert_eq!(closest[0], "I run {command} and expect it to fail");
    let mut own: Registry<u8> = Registry::new();
    own.register(parse_segments("I stop {a}").unwrap(), 1);
    own.register(parse_segments("I run {a}").unwrap(), 2);
    own.register(parse_segments("I run {a} now").unwrap(), 3);
    let near = parse_segments("I run 'x' noww").unwrap();
    assert_eq!(
        closest_definitions(&near, &own),
        vec!["I run {a} now".to_string(), "I run {a}".to_string(), "I stop {a}".to_string()]
    );
    let far = parse_segments("zzzzzzzzzzzzzzzzzzzzzzzzzzzzzzzzzzzzzzzzzzzzzzzzzzzzzzzzzzzz").unwrap();
    assert_eq!(closest_definitions(&far, &instructions).len(), 1);
    let empty: Registry<u8> = Registry::new();
    assert!(closest_definitions(&far, &empty).is_empty());
}
