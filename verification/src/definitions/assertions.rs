//! The assertions that come with the runner.

use crate::args::SegmentArgs;
use crate::civilization::Civilization;
use crate::definitions::HumaneAssertion;
use crate::errors::{HumaneInputError, HumaneInternalError, HumaneStepError, HumaneTestFailure};
use crate::json::{json_equal, json_text, to_json_text, Json, JsonValue};
use crate::text::{contains_text, str_contains};
use vstd::prelude::*;

verus! {

/// The text of a boolean.
pub open spec fn bool_text(b: bool) -> Seq<char> {
    if b {
        "true"@
    } else {
        "false"@
    }
}

/// Whether `base` contains `expected`, where the question has an answer. A
/// value contains itself. A string contains a string that stands in it, and a
/// boolean or a number whose text stands in it. Null, a boolean and a number
/// contain nothing else. Of an array or an object it is only known that it
/// contains itself, and of a string it is not known whether it contains null,
/// an array or an object.
pub open spec fn contains_value(base: Json, expected: Json) -> Option<bool> {
    if base == expected {
        Some(true)
    } else {
        match (base, expected) {
            (Json::Null, _) => Some(false),
            (Json::Bool(_), _) => Some(false),
            (Json::Number(_), _) => Some(false),
            (Json::String(s), Json::Bool(b)) => Some(contains_text(s, bool_text(b))),
            (Json::String(s), Json::Number(n)) => Some(contains_text(s, n)),
            (Json::String(s), Json::String(other)) => Some(contains_text(s, other)),
            _ => None,
        }
    }
}

/// The message for two values of which it is not known whether one contains
/// the other.
pub open spec fn not_comparable_text(base: Json, expected: Json) -> Seq<char> {
    "A comparison for these values has not been implemented.\n---\n"@ + json_text(base)
        + "\n---\ncannot compare with\n---\n"@ + json_text(expected) + "\n---"@
}

/// Whether a value is empty: null, an empty string, an empty array or an empty
/// object.
pub open spec fn is_empty_value(v: Json) -> bool {
    match v {
        Json::Null => true,
        Json::String(s) => s.len() == 0,
        Json::Bool(_) => false,
        Json::Number(_) => false,
        Json::Array(items) => items.len() == 0,
        Json::Object(members) => members.len() == 0,
    }
}

/// The name of the type of a value.
pub open spec fn kind_name(v: Json) -> Seq<char> {
    match v {
        Json::Null => "null"@,
        Json::String(_) => "string"@,
        Json::Bool(_) => "bool"@,
        Json::Number(_) => "number"@,
        Json::Array(_) => "array"@,
        Json::Object(_) => "object"@,
    }
}

/// The text made of a heading, a value, a second heading, a second value and
/// an ending.
pub open spec fn two_value_text(
    heading: Seq<char>,
    first: Json,
    between: Seq<char>,
    second: Json,
    ending: Seq<char>,
) -> Seq<char> {
    heading + json_text(first) + between + json_text(second) + ending
}

/// The text made of a heading, a value, a second heading, a second value and
/// an ending.
fn two_value_message(
    heading: &str,
    first: &JsonValue,
    between: &str,
    second: &JsonValue,
    ending: &str,
) -> (r: String)
    ensures
        r@ == two_value_text(heading@, first@, between@, second@, ending@),
{
    let mut out = String::new();
    out.append(heading);
    out.append(to_json_text(first).as_str());
    out.append(between);
    out.append(to_json_text(second).as_str());
    out.append(ending);
    assert(out@ =~= two_value_text(heading@, first@, between@, second@, ending@));
    out
}

/// Whether `base` contains `expected`; an internal error where that is not
/// known.
pub fn value_contains_value(base: &JsonValue, expected: &JsonValue) -> (r: Result<
    bool,
    HumaneStepError,
>)
    ensures
        match contains_value(base@, expected@) {
            Some(answer) => r == Ok::<bool, HumaneStepError>(answer),
            None => r matches Err(HumaneStepError::Internal(HumaneInternalError::Custom { msg }))
                && msg@ == not_comparable_text(base@, expected@),
        },
{
    if json_equal(base, expected) {
        return Ok(true);
    }
    match base {
        JsonValue::Null => Ok(false),
        JsonValue::Bool(_) => Ok(false),
        JsonValue::Number(_) => Ok(false),
        JsonValue::String(s) => match expected {
            JsonValue::Bool(b) => {
                let text = if *b {
                    "true"
                } else {
                    "false"
                };
                Ok(str_contains(s.as_str(), text))
            },
            JsonValue::Number(n) => Ok(str_contains(s.as_str(), n.as_str())),
            JsonValue::String(other) => Ok(str_contains(s.as_str(), other.as_str())),
            _ => Err(not_comparable(base, expected)),
        },
        _ => Err(not_comparable(base, expected)),
    }
}

/// The internal error for two values of which it is not known whether one
/// contains the other.
fn not_comparable(base: &JsonValue, expected: &JsonValue) -> (e: HumaneStepError)
    ensures
        e matches HumaneStepError::Internal(HumaneInternalError::Custom { msg }) && msg@
            == not_comparable_text(base@, expected@),
{
    HumaneStepError::Internal(
        HumaneInternalError::Custom {
            msg: two_value_message(
                "A comparison for these values has not been implemented.\n---\n",
                base,
                "\n---\ncannot compare with\n---\n",
                expected,
                "\n---",
            ),
        },
    )
}

/// Whether a value is empty.
pub fn value_is_empty(val: &JsonValue) -> (r: bool)
    ensures
        r == is_empty_value(val@),
{
    match val {
        JsonValue::Null => true,
        JsonValue::String(s) => s.as_str().unicode_len() == 0,
        JsonValue::Bool(_) => false,
        JsonValue::Number(_) => false,
        JsonValue::Array(items) => {
            proof {
                crate::json::lemma_array_view(*items);
            }
            items.len() == 0
        },
        JsonValue::Object(members) => {
            proof {
                crate::json::lemma_object_view(*members);
            }
            members.len() == 0
        },
    }
}

/// The name of the type of a value.
pub fn value_type(val: &JsonValue) -> (r: &'static str)
    ensures
        r@ == kind_name(val@),
{
    match val {
        JsonValue::Null => "null",
        JsonValue::String(_) => "string",
        JsonValue::Bool(_) => "bool",
        JsonValue::Number(_) => "number",
        JsonValue::Array(_) => "array",
        JsonValue::Object(_) => "object",
    }
}

/// The name under which the assertions that compare find what is expected.
pub open spec fn expected_key() -> Seq<char> {
    "expected"@
}

/// `e` is the error for an argument that is missing under `key`.
pub open spec fn missing_argument(e: HumaneStepError, args: SegmentArgs, key: Seq<char>) -> bool {
    &&& e matches HumaneStepError::External(HumaneInputError::NonexistentArgument { arg, has })
    &&& arg@ == key
    &&& has@ == args.known_names()
}

/// `e` is the failed assertion with the message `text`.
pub open spec fn failed_assertion(e: HumaneStepError, text: Seq<char>) -> bool {
    e matches HumaneStepError::Assertion(HumaneTestFailure::Custom { msg }) && msg@ == text
}

/// `e` is the internal error that says that the two values cannot be compared.
pub open spec fn incomparable(e: HumaneStepError, base: Json, expected: Json) -> bool {
    e matches HumaneStepError::Internal(HumaneInternalError::Custom { msg }) && msg@
        == not_comparable_text(base, expected)
}

/// What is expected, read from the arguments.
fn expected_value(args: &SegmentArgs) -> (r: Result<JsonValue, HumaneStepError>)
    ensures
        match r {
            Ok(v) => args.value_of(expected_key()) == Some(v@),
            Err(e) => args.value_of(expected_key()) is None && missing_argument(
                e,
                *args,
                expected_key(),
            ),
        },
{
    match args.get_value("expected") {
        Ok(v) => Ok(v),
        Err(e) => Err(HumaneStepError::External(e)),
    }
}

/// `contain {expected}`: the value contains what is expected.
pub struct Contain;

/// `not contain {expected}`: the value does not contain what is expected.
pub struct NotContain;

/// `be exactly {expected}`: the value is what is expected.
pub struct Exactly;

/// `not be exactly {expected}`: the value is not what is expected.
pub struct NotExactly;

/// `be empty`: the value is empty.
pub struct Empty;

/// `not be empty`: the value is not empty.
pub struct NotEmpty;

impl HumaneAssertion for Contain {
    fn segments(&self) -> (r: &'static str)
        ensures
            r@ == "contain {expected}"@,
    {
        "contain {expected}"
    }

    /// Passes if the value contains what is expected; fails with both values
    /// in the message if it does not, and with an internal error where that
    /// is not known.
    fn run(&self, base_value: JsonValue, args: &SegmentArgs, civ: &mut Civilization) -> (r:
        Result<(), HumaneStepError>)
        ensures
            *final(civ) == *old(civ),
            match args.value_of(expected_key()) {
                None => r matches Err(e) && missing_argument(e, *args, expected_key()),
                Some(expected) => match contains_value(base_value@, expected) {
                    Some(true) => r is Ok,
                    Some(false) => r matches Err(e) && failed_assertion(
                        e,
                        two_value_text(
                            "The value\n---\n"@,
                            base_value@,
                            "\n---\ndoes not contain\n---\n"@,
                            expected,
                            "\n---"@,
                        ),
                    ),
                    None => r matches Err(e) && incomparable(e, base_value@, expected),
                },
            },
    {
        let expected = expected_value(args)?;
        if value_contains_value(&base_value, &expected)? {
            Ok(())
        } else {
            Err(
                HumaneStepError::Assertion(
                    HumaneTestFailure::Custom {
                        msg: two_value_message(
                            "The value\n---\n",
                            &base_value,
                            "\n---\ndoes not contain\n---\n",
                            &expected,
                            "\n---",
                        ),
                    },
                ),
            )
        }
    }
}

impl HumaneAssertion for NotContain {
    fn segments(&self) -> (r: &'static str)
        ensures
            r@ == "not contain {expected}"@,
    {
        "not contain {expected}"
    }

    /// Passes if the value does not contain what is expected; fails with
    /// both values in the message if it does, and with an internal error
    /// where that is not known.
    fn run(&self, base_value: JsonValue, args: &SegmentArgs, civ: &mut Civilization) -> (r:
        Result<(), HumaneStepError>)
        ensures
            *final(civ) == *old(civ),
            match args.value_of(expected_key()) {
                None => r matches Err(e) && missing_argument(e, *args, expected_key()),
                Some(expected) => match contains_value(base_value@, expected) {
                    Some(false) => r is Ok,
                    Some(true) => r matches Err(e) && failed_assertion(
                        e,
                        two_value_text(
                            "The value\n---\n"@,
                            base_value@,
                            "\n---\nshould not contain the following value, but does\n---\n"@,
                            expected,
                            "\n---"@,
                        ),
                    ),
                    None => r matches Err(e) && incomparable(e, base_value@, expected),
                },
            },
    {
        let expected = expected_value(args)?;
        if value_contains_value(&base_value, &expected)? {
            Err(
                HumaneStepError::Assertion(
                    HumaneTestFailure::Custom {
                        msg: two_value_message(
                            "The value\n---\n",
                            &base_value,
                            "\n---\nshould not contain the following value, but does\n---\n",
                            &expected,
                            "\n---",
                        ),
                    },
                ),
            )
        } else {
            Ok(())
        }
    }
}

impl HumaneAssertion for Exactly {
    fn segments(&self) -> (r: &'static str)
        ensures
            r@ == "be exactly {expected}"@,
    {
        "be exactly {expected}"
    }

    /// Passes if the value is what is expected; fails with both values in
    /// the message otherwise.
    fn run(&self, base_value: JsonValue, args: &SegmentArgs, civ: &mut Civilization) -> (r:
        Result<(), HumaneStepError>)
        ensures
            *final(civ) == *old(civ),
            match args.value_of(expected_key()) {
                None => r matches Err(e) && missing_argument(e, *args, expected_key()),
                Some(expected) => if base_value@ == expected {
                    r is Ok
                } else {
                    r matches Err(e) && failed_assertion(
                        e,
                        two_value_text(
                            "The value\n---\n"@,
                            base_value@,
                            "\n---\nshould be exactly the following value, but is not\n---\n"@,
                            expected,
                            "\n---"@,
                        ),
                    )
                },
            },
    {
        let expected = expected_value(args)?;
        if json_equal(&base_value, &expected) {
            Ok(())
        } else {
            Err(
                HumaneStepError::Assertion(
                    HumaneTestFailure::Custom {
                        msg: two_value_message(
                            "The value\n---\n",
                            &base_value,
                            "\n---\nshould be exactly the following value, but is not\n---\n",
                            &expected,
                            "\n---",
                        ),
                    },
                ),
            )
        }
    }
}

impl HumaneAssertion for NotExactly {
    fn segments(&self) -> (r: &'static str)
        ensures
            r@ == "not be exactly {expected}"@,
    {
        "not be exactly {expected}"
    }

    /// Passes if the value is not what is expected; fails with both values
    /// in the message otherwise.
    fn run(&self, base_value: JsonValue, args: &SegmentArgs, civ: &mut Civilization) -> (r:
        Result<(), HumaneStepError>)
        ensures
            *final(civ) == *old(civ),
            match args.value_of(expected_key()) {
                None => r matches Err(e) && missing_argument(e, *args, expected_key()),
                Some(expected) => if base_value@ != expected {
                    r is Ok
                } else {
                    r matches Err(e) && failed_assertion(
                        e,
                        two_value_text(
                            "The value\n---\n"@,
                            base_value@,
                            "\n---\nshould be exactly the following value, but is not\n---\n"@,
                            expected,
                            "\n---"@,
                        ),
                    )
                },
            },
    {
        let expected = expected_value(args)?;
        if !json_equal(&base_value, &expected) {
            Ok(())
        } else {
            Err(
                HumaneStepError::Assertion(
                    HumaneTestFailure::Custom {
                        msg: two_value_message(
                            "The value\n---\n",
                            &base_value,
                            "\n---\nshould be exactly the following value, but is not\n---\n",
                            &expected,
                            "\n---",
                        ),
                    },
                ),
            )
        }
    }
}

/// The message for a value that should be empty and is not.
pub open spec fn not_empty_text(v: Json) -> Seq<char> {
    "The value should be empty, but was:\n---\n"@ + json_text(v) + "\n---"@
}

/// The message for a value that should not be empty and is.
pub open spec fn empty_text(v: Json) -> Seq<char> {
    "The value should not be empty, but was an empty "@ + kind_name(v) + " value"@
}

impl HumaneAssertion for Empty {
    fn segments(&self) -> (r: &'static str)
        ensures
            r@ == "be empty"@,
    {
        "be empty"
    }

    /// Passes if the value is empty; fails with the value in the message
    /// otherwise.
    fn run(&self, base_value: JsonValue, args: &SegmentArgs, civ: &mut Civilization) -> (r:
        Result<(), HumaneStepError>)
        ensures
            *final(civ) == *old(civ),
            if is_empty_value(base_value@) {
                r is Ok
            } else {
                r matches Err(e) && failed_assertion(e, not_empty_text(base_value@))
            },
    {
        if value_is_empty(&base_value) {
            Ok(())
        } else {
            let mut msg = String::new();
            msg.append("The value should be empty, but was:\n---\n");
            msg.append(to_json_text(&base_value).as_str());
            msg.append("\n---");
            assert(msg@ =~= not_empty_text(base_value@));
            Err(HumaneStepError::Assertion(HumaneTestFailure::Custom { msg }))
        }
    }
}

impl HumaneAssertion for NotEmpty {
    fn segments(&self) -> (r: &'static str)
        ensures
            r@ == "not be empty"@,
    {
        "not be empty"
    }

    /// Passes if the value is not empty; fails with the type of the value
    /// in the message otherwise.
    fn run(&self, base_value: JsonValue, args: &SegmentArgs, civ: &mut Civilization) -> (r:
        Result<(), HumaneStepError>)
        ensures
            *final(civ) == *old(civ),
            if is_empty_value(base_value@) {
                r matches Err(e) && failed_assertion(e, empty_text(base_value@))
            } else {
                r is Ok
            },
    {
        if value_is_empty(&base_value) {
            let mut msg = String::new();
            msg.append("The value should not be empty, but was an empty ");
            msg.append(value_type(&base_value));
            msg.append(" value");
            assert(msg@ =~= empty_text(base_value@));
            Err(HumaneStepError::Assertion(HumaneTestFailure::Custom { msg }))
        } else {
            Ok(())
        }
    }
}

} // verus!
