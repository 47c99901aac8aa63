//! Reading a line of a test into its segments.

use crate::errors::HumaneInputError;
use crate::json::{
    decode_yaml, find_member, items_view, lemma_array_view, lemma_object_view, lookup,
    members_view, members_without, without, yaml_document, Json, JsonValue,
};
use crate::segments::{
    pattern_text, segment_text, segments_view, HumaneSegment, HumaneSegments, Segment,
};
use crate::steps::{
    lemma_ref_view, steps_view, HumaneFileType, HumaneTestFile, HumaneTestStep,
    HumaneTestStepState, Step, TestFile,
};
use crate::text::{chars_of, same_text, split_at_first, split_once, text_of_range};
use vstd::prelude::*;

verus! {

/// Whether `c` opens a placeholder: a quote or an opening brace.
pub open spec fn is_opener(c: char) -> bool {
    c == '"' || c == '\'' || c == '{'
}

/// The character that closes what `opener` opened.
pub open spec fn closer_of(opener: char) -> char {
    if opener == '{' {
        '}'
    } else {
        opener
    }
}

/// The first position not before `from` that holds an opener; the length of
/// `s` if there is none.
pub open spec fn first_opener(s: Seq<char>, from: int) -> int
    decreases s.len() - from,
{
    if from < 0 || from >= s.len() {
        s.len() as int
    } else if is_opener(s[from]) {
        from
    } else {
        first_opener(s, from + 1)
    }
}

/// The first position not before `from` that holds `c`; the length of `s` if
/// there is none.
pub open spec fn first_char(s: Seq<char>, c: char, from: int) -> int
    decreases s.len() - from,
{
    if from < 0 || from >= s.len() {
        s.len() as int
    } else if s[from] == c {
        from
    } else {
        first_char(s, c, from + 1)
    }
}

/// Where the first opener is found: not before `from`, with no opener between
/// `from` and it.
pub proof fn lemma_first_opener_bounds(s: Seq<char>, from: int)
    requires
        0 <= from <= s.len(),
    ensures
        from <= first_opener(s, from) <= s.len(),
        first_opener(s, from) < s.len() ==> is_opener(s[first_opener(s, from)]),
        forall|j: int| from <= j < first_opener(s, from) ==> !is_opener(s[j]),
    decreases s.len() - from,
{
    if from < s.len() && !is_opener(s[from]) {
        lemma_first_opener_bounds(s, from + 1);
    }
}

/// Where the first occurrence of a character is found: not before `from`, with
/// no occurrence between `from` and it.
pub proof fn lemma_first_char_bounds(s: Seq<char>, c: char, from: int)
    requires
        0 <= from <= s.len(),
    ensures
        from <= first_char(s, c, from) <= s.len(),
        first_char(s, c, from) < s.len() ==> s[first_char(s, c, from)] == c,
        forall|j: int| from <= j < first_char(s, c, from) ==> s[j] != c,
    decreases s.len() - from,
{
    if from < s.len() && s[from] != c {
        lemma_first_char_bounds(s, c, from + 1);
    }
}

/// The placeholder that `opener` opened around `inner`: a variable for a
/// brace, a string value for a quote.
pub open spec fn placeholder(opener: char, inner: Seq<char>) -> Segment {
    if opener == '{' {
        Segment::Variable(inner)
    } else {
        Segment::Value(Json::String(inner))
    }
}

/// The segments of `s` from `pos` on. Up to the next opener the text is a
/// literal, kept even if it is empty; from the opener to the next closer it is
/// a placeholder; after the closer the rest is read in the same way. Text after
/// the last placeholder is a literal unless it is empty. An opener without its
/// closer is an error that names the closer.
pub open spec fn parse_from(s: Seq<char>, pos: int) -> Result<Seq<Segment>, char>
    decreases s.len() - pos,
{
    if pos < 0 || pos > s.len() {
        Ok(Seq::empty())
    } else {
        let open = first_opener(s, pos);
        if open >= s.len() {
            if pos < s.len() {
                Ok(seq![Segment::Literal(s.subrange(pos, s.len() as int))])
            } else {
                Ok(Seq::empty())
            }
        } else {
            let close = first_char(s, closer_of(s[open]), open + 1);
            if close >= s.len() {
                Err(closer_of(s[open]))
            } else {
                proof {
                    lemma_first_opener_bounds(s, pos);
                    lemma_first_char_bounds(s, closer_of(s[open]), open + 1);
                }
                match parse_from(s, close + 1) {
                    Ok(rest) => Ok(
                        seq![
                            Segment::Literal(s.subrange(pos, open)),
                            placeholder(s[open], s.subrange(open + 1, close)),
                        ] + rest,
                    ),
                    Err(expected) => Err(expected),
                }
            }
        }
    }
}

/// The segments of a whole line.
pub open spec fn parse_spec(s: Seq<char>) -> Result<Seq<Segment>, char> {
    parse_from(s, 0)
}

/// `before` followed by what `rest` holds, or the error of `rest`.
pub open spec fn prepend(before: Seq<Segment>, rest: Result<Seq<Segment>, char>) -> Result<
    Seq<Segment>,
    char,
> {
    match rest {
        Ok(segments) => Ok(before + segments),
        Err(expected) => Err(expected),
    }
}

/// The first position not before `from` that holds an opener.
fn find_opener(s: &Vec<char>, from: usize) -> (r: usize)
    requires
        from <= s.len(),
    ensures
        r == first_opener(s@, from as int),
        from <= r <= s.len(),
{
    let mut i: usize = from;
    while i < s.len()
        invariant
            from <= i <= s.len(),
            first_opener(s@, from as int) == first_opener(s@, i as int),
        decreases s.len() - i,
    {
        let c = s[i];
        if c == '"' || c == '\'' || c == '{' {
            return i;
        }
        i = i + 1;
    }
    i
}

/// The first position not before `from` that holds `c`.
fn find_char(s: &Vec<char>, c: char, from: usize) -> (r: usize)
    requires
        from <= s.len(),
    ensures
        r == first_char(s@, c, from as int),
        from <= r <= s.len(),
{
    let mut i: usize = from;
    while i < s.len()
        invariant
            from <= i <= s.len(),
            first_char(s@, c, from as int) == first_char(s@, c, i as int),
        decreases s.len() - i,
    {
        if s[i] == c {
            return i;
        }
        i = i + 1;
    }
    i
}

/// Reads a line into its segments.
///
/// A `"`, a `'` or a `{` opens a placeholder, and the text before it becomes a
/// literal; what stands between quotes becomes a string value, what stands
/// between braces a variable. An opener without its closer is refused with
/// `UnclosedValue`, which names the closer that is missing.
pub fn parse_segments(s: &str) -> (r: Result<HumaneSegments, HumaneInputError>)
    ensures
        match r {
            Ok(pattern) => parse_spec(s@) == Ok::<Seq<Segment>, char>(pattern@),
            Err(e) => e matches HumaneInputError::UnclosedValue { expected } && parse_spec(s@)
                == Err::<Seq<Segment>, char>(expected),
        },
{
    let chars = chars_of(s);
    let mut segments: Vec<HumaneSegment> = Vec::new();
    let mut pos: usize = 0;
    proof {
        assert(segments_view(segments@) + parse_from(s@, 0)->Ok_0 =~= parse_from(s@, 0)->Ok_0);
    }
    loop
        invariant
            chars@ == s@,
            pos <= chars.len(),
            parse_spec(s@) == prepend(segments_view(segments@), parse_from(s@, pos as int)),
        decreases chars.len() - pos,
    {
        let ghost before = segments_view(segments@);
        let open = find_opener(&chars, pos);
        if open >= chars.len() {
            if pos < chars.len() {
                segments.push(HumaneSegment::Literal(text_of_range(&chars, pos, chars.len())));
            }
            let pattern = HumaneSegments { segments };
            proof {
                assert(pattern@ =~= before + parse_from(s@, pos as int)->Ok_0);
            }
            return Ok(pattern);
        }
        let opener = chars[open];
        let closer = if opener == '{' {
            '}'
        } else {
            opener
        };
        let close = find_char(&chars, closer, open + 1);
        if close >= chars.len() {
            return Err(HumaneInputError::UnclosedValue { expected: closer });
        }
        segments.push(HumaneSegment::Literal(text_of_range(&chars, pos, open)));
        let inner = text_of_range(&chars, open + 1, close);
        if opener == '{' {
            segments.push(HumaneSegment::Variable(inner));
        } else {
            segments.push(HumaneSegment::Value(JsonValue::String(inner)));
        }
        proof {
            let added = seq![
                Segment::Literal(s@.subrange(pos as int, open as int)),
                placeholder(s@[open as int], s@.subrange(open + 1, close as int)),
            ];
            assert(segments_view(segments@) =~= before + added);
            match parse_from(s@, close + 1) {
                Ok(rest) => {
                    assert(before + (added + rest) =~= (before + added) + rest);
                },
                Err(_) => {},
            }
        }
        pos = close + 1;
    }
}

} // verus!

verus! {

/// The word that parts what is retrieved from what is expected of it.
pub open spec fn should_separator() -> Seq<char> {
    " should "@
}

/// The step that a line of text stands for, with the arguments given beside
/// it. A line with the separator is an assertion: what stands before the first
/// separator names what is retrieved, what stands after it what is expected.
/// Any other line is an instruction. An opener without its closer in either
/// part is an error that names the closer.
pub open spec fn line_step(text: Seq<char>, args: Seq<(Seq<char>, Json)>) -> Result<Step, char> {
    match split_once(text, should_separator()) {
        Some((retrieval, assertion)) => match parse_spec(retrieval) {
            Err(expected) => Err(expected),
            Ok(retrieval_pattern) => match parse_spec(assertion) {
                Err(expected) => Err(expected),
                Ok(assertion_pattern) => Ok(
                    Step::Assertion {
                        retrieval: retrieval_pattern,
                        assertion: assertion_pattern,
                        args,
                        orig: text,
                        state: HumaneTestStepState::Dormant,
                    },
                ),
            },
        },
        None => match parse_spec(text) {
            Err(expected) => Err(expected),
            Ok(pattern) => Ok(
                Step::Instruction {
                    step: pattern,
                    args,
                    orig: text,
                    state: HumaneTestStepState::Dormant,
                },
            ),
        },
    }
}

/// Reads a line of a test file into a step that has not run yet.
pub fn parse_step(step: String, args: Vec<(String, JsonValue)>) -> (r: Result<
    HumaneTestStep,
    HumaneInputError,
>)
    ensures
        match r {
            Ok(parsed) => line_step(step@, members_view(args@)) == Ok::<Step, char>(parsed@),
            Err(e) => e matches HumaneInputError::UnclosedValue { expected } && line_step(
                step@,
                members_view(args@),
            ) == Err::<Step, char>(expected),
        },
{
    match split_at_first(step.as_str(), " should ") {
        Some((retrieval, assertion)) => {
            let retrieval_pattern = match parse_segments(retrieval.as_str()) {
                Ok(pattern) => pattern,
                Err(e) => {
                    return Err(e);
                },
            };
            let assertion_pattern = match parse_segments(assertion.as_str()) {
                Ok(pattern) => pattern,
                Err(e) => {
                    return Err(e);
                },
            };
            Ok(
                HumaneTestStep::Assertion {
                    retrieval: retrieval_pattern,
                    assertion: assertion_pattern,
                    args,
                    orig: step,
                    state: HumaneTestStepState::Dormant,
                },
            )
        },
        None => {
            let pattern = match parse_segments(step.as_str()) {
                Ok(pattern) => pattern,
                Err(e) => {
                    return Err(e);
                },
            };
            Ok(
                HumaneTestStep::Instruction {
                    step: pattern,
                    args,
                    orig: step,
                    state: HumaneTestStepState::Dormant,
                },
            )
        },
    }
}

/// Why a document is not a test file.
pub enum FileFault {
    /// The document is not YAML; the message says why.
    Yaml(Seq<char>),
    /// The document is YAML of another shape than a test file has.
    Shape,
    /// A line opens a placeholder and does not close it with this character.
    Unclosed(char),
}

/// The step that one entry of a list of steps stands for.
///
/// A string is a line without arguments. A mapping with a string under `ref`
/// refers to another file. A mapping with a string under `step` is a line, and
/// its other members are the arguments. A mapping with a string under
/// `snapshot` is a snapshot of what the line retrieves, and its other members
/// are the arguments. The kinds are tried in this order.
pub open spec fn entry_step(entry: Json) -> Result<Step, FileFault> {
    match entry {
        Json::String(text) => match line_step(text, Seq::empty()) {
            Ok(step) => Ok(step),
            Err(expected) => Err(FileFault::Unclosed(expected)),
        },
        Json::Object(members) => match lookup(members, "ref"@) {
            Some(Json::String(target)) => Ok(
                Step::Ref {
                    other_file: target,
                    orig: target,
                    hydrated_steps: None,
                    state: HumaneTestStepState::Dormant,
                },
            ),
            _ => match lookup(members, "step"@) {
                Some(Json::String(text)) => match line_step(text, without(members, "step"@)) {
                    Ok(step) => Ok(step),
                    Err(expected) => Err(FileFault::Unclosed(expected)),
                },
                _ => match lookup(members, "snapshot"@) {
                    Some(Json::String(text)) => match parse_spec(text) {
                        Ok(pattern) => Ok(
                            Step::Snapshot {
                                snapshot: pattern,
                                snapshot_content: None,
                                args: without(members, "snapshot"@),
                                orig: text,
                                state: HumaneTestStepState::Dormant,
                            },
                        ),
                        Err(expected) => Err(FileFault::Unclosed(expected)),
                    },
                    _ => Err(FileFault::Shape),
                },
            },
        },
        _ => Err(FileFault::Shape),
    }
}

/// The steps that a list of entries stands for, or the fault of the first
/// entry that has one.
pub open spec fn entries_steps(entries: Seq<Json>) -> Result<Seq<Step>, FileFault>
    decreases entries.len(),
{
    if entries.len() == 0 {
        Ok(Seq::empty())
    } else {
        match entries_steps(entries.drop_last()) {
            Err(fault) => Err(fault),
            Ok(before) => match entry_step(entries.last()) {
                Err(fault) => Err(fault),
                Ok(step) => Ok(before.push(step)),
            },
        }
    }
}

/// The steps under `key` in a document: none if the key is absent, the steps of
/// the list if it holds one, a fault otherwise.
pub open spec fn listed_steps(members: Seq<(Seq<char>, Json)>, key: Seq<char>) -> Result<
    Seq<Step>,
    FileFault,
> {
    match lookup(members, key) {
        None => Ok(Seq::empty()),
        Some(Json::Array(entries)) => entries_steps(entries),
        Some(_) => Err(FileFault::Shape),
    }
}

/// The role of a file: a reference if `type` says so, a test otherwise.
pub open spec fn file_role(members: Seq<(Seq<char>, Json)>) -> HumaneFileType {
    if lookup(members, "type"@) == Some(Json::String("reference"@)) {
        HumaneFileType::Reference
    } else {
        HumaneFileType::Test
    }
}

/// The test file that a document stands for: a mapping with the name of the
/// test under `test` and lists of steps under `setup` and `steps`.
pub open spec fn document_file(
    text: Seq<char>,
    path: Seq<char>,
    directory: Seq<char>,
) -> Result<TestFile, FileFault> {
    match yaml_document(text) {
        Err(message) => Err(FileFault::Yaml(message)),
        Ok(Json::Object(members)) => match lookup(members, "test"@) {
            Some(Json::String(name)) => match listed_steps(members, "setup"@) {
                Err(fault) => Err(fault),
                Ok(setup) => match listed_steps(members, "steps"@) {
                    Err(fault) => Err(fault),
                    Ok(steps) => Ok(
                        TestFile {
                            name,
                            file_type: file_role(members),
                            setup,
                            steps,
                            original_source: text,
                            file_path: path,
                            file_directory: directory,
                        },
                    ),
                },
            },
            _ => Err(FileFault::Shape),
        },
        Ok(_) => Err(FileFault::Shape),
    }
}

/// The message with which a document of the wrong shape is refused.
pub open spec fn shape_message() -> Seq<char> {
    "the document does not have the shape of a test file"@
}

/// `e` is the error that reports `fault`.
pub open spec fn reports(e: HumaneInputError, fault: FileFault) -> bool {
    match fault {
        FileFault::Yaml(message) => e matches HumaneInputError::ParseError(text) && text@
            == message,
        FileFault::Shape => e matches HumaneInputError::ParseError(text) && text@
            == shape_message(),
        FileFault::Unclosed(c) => e matches HumaneInputError::UnclosedValue { expected }
            && expected == c,
    }
}

/// The error for a document of the wrong shape.
fn shape_error() -> (e: HumaneInputError)
    ensures
        reports(e, FileFault::Shape),
{
    HumaneInputError::ParseError(
        "the document does not have the shape of a test file".to_string(),
    )
}

/// The string under `key`, if the member is there and holds a string.
fn string_member<'a>(members: &'a Vec<(String, JsonValue)>, key: &str) -> (r: Option<&'a String>)
    ensures
        match r {
            Some(text) => lookup(members_view(members@), key@) == Some(Json::String(text@)),
            None => !(lookup(members_view(members@), key@) matches Some(Json::String(_))),
        },
{
    match find_member(members, key) {
        Some(at) => match &members[at].1 {
            JsonValue::String(text) => Some(text),
            _ => None,
        },
        None => None,
    }
}

/// Reads one entry of a list of steps.
fn parse_entry(entry: &JsonValue) -> (r: Result<HumaneTestStep, HumaneInputError>)
    ensures
        match r {
            Ok(step) => entry_step(entry@) == Ok::<Step, FileFault>(step@),
            Err(e) => entry_step(entry@) is Err && reports(e, entry_step(entry@)->Err_0),
        },
{
    match entry {
        JsonValue::String(text) => {
            let none: Vec<(String, JsonValue)> = Vec::new();
            assert(members_view(none@) =~= Seq::<(Seq<char>, Json)>::empty());
            parse_step(text.clone(), none)
        },
        JsonValue::Object(members) => {
            proof {
                lemma_object_view(*members);
            }
            if let Some(path) = string_member(members, "ref") {
                let r = HumaneTestStep::Ref {
                    other_file: path.clone(),
                    orig: path.clone(),
                    hydrated_steps: None,
                    state: HumaneTestStepState::Dormant,
                };
                proof {
                    lemma_ref_view(r);
                }
                Ok(r)
            } else if let Some(text) = string_member(members, "step") {
                parse_step(text.clone(), members_without(members, "step"))
            } else if let Some(text) = string_member(members, "snapshot") {
                match parse_segments(text.as_str()) {
                    Ok(pattern) => Ok(
                        HumaneTestStep::Snapshot {
                            snapshot: pattern,
                            snapshot_content: None,
                            args: members_without(members, "snapshot"),
                            orig: text.clone(),
                            state: HumaneTestStepState::Dormant,
                        },
                    ),
                    Err(e) => Err(e),
                }
            } else {
                Err(shape_error())
            }
        },
        _ => Err(shape_error()),
    }
}

/// Reads the list of steps under `key`.
fn parse_listed(members: &Vec<(String, JsonValue)>, key: &str) -> (r: Result<
    Vec<HumaneTestStep>,
    HumaneInputError,
>)
    ensures
        match r {
            Ok(steps) => listed_steps(members_view(members@), key@) == Ok::<
                Seq<Step>,
                FileFault,
            >(steps_view(steps@)),
            Err(e) => listed_steps(members_view(members@), key@) is Err && reports(
                e,
                listed_steps(members_view(members@), key@)->Err_0,
            ),
        },
{
    let at = match find_member(members, key) {
        Some(at) => at,
        None => {
            let none: Vec<HumaneTestStep> = Vec::new();
            assert(steps_view(none@) =~= Seq::<Step>::empty());
            return Ok(none);
        },
    };
    let entries = match &members[at].1 {
        JsonValue::Array(entries) => entries,
        _ => {
            return Err(shape_error());
        },
    };
    proof {
        lemma_array_view(*entries);
    }
    let ghost all = items_view(entries@);
    let mut out: Vec<HumaneTestStep> = Vec::new();
    let mut i: usize = 0;
    assert(all.subrange(0, 0) =~= Seq::<Json>::empty());
    assert(steps_view(out@) =~= Seq::<Step>::empty());
    while i < entries.len()
        invariant
            i <= entries.len(),
            all == items_view(entries@),
            lookup(members_view(members@), key@) == Some(Json::Array(all)),
            entries_steps(all.subrange(0, i as int)) == Ok::<Seq<Step>, FileFault>(
                steps_view(out@),
            ),
        decreases entries.len() - i,
    {
        let ghost before = steps_view(out@);
        proof {
            let next = all.subrange(0, i + 1);
            assert(next.drop_last() =~= all.subrange(0, i as int));
            assert(next.last() == entries@[i as int]@);
        }
        match parse_entry(&entries[i]) {
            Ok(step) => {
                out.push(step);
                proof {
                    assert(steps_view(out@) =~= before.push(step@));
                }
            },
            Err(e) => {
                proof {
                    lemma_entries_fault_stays(all, i + 1);
                }
                return Err(e);
            },
        }
        i = i + 1;
    }
    proof {
        assert(all.subrange(0, all.len() as int) =~= all);
    }
    Ok(out)
}

/// Once a prefix of the entries has a fault, the whole list has that fault.
pub proof fn lemma_entries_fault_stays(entries: Seq<Json>, n: int)
    requires
        0 <= n <= entries.len(),
        entries_steps(entries.subrange(0, n)) is Err,
    ensures
        entries_steps(entries) == entries_steps(entries.subrange(0, n)),
    decreases entries.len() - n,
{
    if n == entries.len() {
        assert(entries.subrange(0, n) =~= entries);
    } else {
        let next = entries.subrange(0, n + 1);
        assert(next.drop_last() =~= entries.subrange(0, n));
        lemma_entries_fault_stays(entries, n + 1);
    }
}

/// Reads a test file.
///
/// The text is YAML: a mapping with the name of the test under `test` and
/// lists of steps under `setup` and `steps`, either of which may be absent. The
/// file is a reference if it holds `type: reference`, and a test otherwise. The
/// text, the path and the directory are kept with the steps.
pub fn parse_file(s: &str, path: &str, directory: &str) -> (r: Result<
    HumaneTestFile,
    HumaneInputError,
>)
    ensures
        match r {
            Ok(file) => document_file(s@, path@, directory@) == Ok::<TestFile, FileFault>(file@),
            Err(e) => document_file(s@, path@, directory@) is Err && reports(
                e,
                document_file(s@, path@, directory@)->Err_0,
            ),
        },
{
    let doc = match decode_yaml(s) {
        Ok(doc) => doc,
        Err(message) => {
            return Err(HumaneInputError::ParseError(message));
        },
    };
    let members = match &doc {
        JsonValue::Object(members) => members,
        _ => {
            return Err(shape_error());
        },
    };
    proof {
        lemma_object_view(*members);
    }
    let name = match string_member(members, "test") {
        Some(name) => name.clone(),
        None => {
            return Err(shape_error());
        },
    };
    let setup = match parse_listed(members, "setup") {
        Ok(steps) => steps,
        Err(e) => {
            return Err(e);
        },
    };
    let steps = match parse_listed(members, "steps") {
        Ok(steps) => steps,
        Err(e) => {
            return Err(e);
        },
    };
    let file_type = match string_member(members, "type") {
        Some(role) => if same_text(role.as_str(), "reference") {
            HumaneFileType::Reference
        } else {
            HumaneFileType::Test
        },
        None => HumaneFileType::Test,
    };
    Ok(
        HumaneTestFile {
            name,
            file_type,
            setup,
            steps,
            original_source: s.to_string(),
            file_path: path.to_string(),
            file_directory: directory.to_string(),
        },
    )
}

} // verus!

verus! {

/// No character of the text opens a placeholder.
pub open spec fn opener_free(s: Seq<char>) -> bool {
    forall|i: int| 0 <= i < s.len() ==> !is_opener(#[trigger] s[i])
}

/// The character `c` does not stand in the text.
pub open spec fn lacks(s: Seq<char>, c: char) -> bool {
    forall|i: int| 0 <= i < s.len() ==> #[trigger] s[i] != c
}

/// The segment can be written and read back: a literal without openers, a
/// string value that does not hold both kinds of quotes, or a variable whose
/// name holds no closing brace.
pub open spec fn writable(segment: Segment) -> bool {
    match segment {
        Segment::Literal(text) => opener_free(text),
        Segment::Value(Json::String(text)) => lacks(text, '"') || lacks(text, '\''),
        Segment::Value(_) => false,
        Segment::Variable(name) => lacks(name, '}'),
    }
}

/// The pattern has the shape in which lines are read: literals and
/// placeholders take turns, starting with a literal; every segment can be
/// written and read back; and a literal at the end is not empty.
pub open spec fn parsed_shape(p: Seq<Segment>) -> bool {
    &&& forall|i: int|
        0 <= i < p.len() ==> writable(#[trigger] p[i]) && (p[i] is Literal <==> i % 2 == 0)
    &&& p.len() % 2 == 1 ==> p.last()->Literal_0.len() > 0
}

/// The opener is found where the characters before it are no openers.
proof fn lemma_first_opener_at(s: Seq<char>, from: int, at: int)
    requires
        0 <= from <= at <= s.len(),
        forall|j: int| from <= j < at ==> !is_opener(#[trigger] s[j]),
        at < s.len() ==> is_opener(s[at]),
    ensures
        first_opener(s, from) == at,
    decreases at - from,
{
    if from < at {
        assert(!is_opener(s[from]));
        lemma_first_opener_at(s, from + 1, at);
    }
}

/// The character is found where the characters before it are others.
proof fn lemma_first_char_at(s: Seq<char>, c: char, from: int, at: int)
    requires
        0 <= from <= at <= s.len(),
        forall|j: int| from <= j < at ==> #[trigger] s[j] != c,
        at < s.len() ==> s[at] == c,
    ensures
        first_char(s, c, from) == at,
    decreases at - from,
{
    if from < at {
        assert(s[from] != c);
        lemma_first_char_at(s, c, from + 1, at);
    }
}

/// What is read from a position of a text does not depend on what stands
/// before that position.
proof fn lemma_parse_shift(before: Seq<char>, s: Seq<char>, k: int)
    requires
        0 <= k <= s.len(),
    ensures
        parse_from(before + s, before.len() + k) == parse_from(s, k),
    decreases s.len() - k,
{
    let whole = before + s;
    let shift = before.len() as int;
    lemma_first_opener_bounds(s, k);
    let open = first_opener(s, k);
    assert forall|j: int| shift + k <= j < shift + open implies !is_opener(#[trigger] whole[j]) by {
        assert(whole[j] == s[j - shift]);
    }
    if open < s.len() {
        assert(whole[shift + open] == s[open]);
    }
    lemma_first_opener_at(whole, shift + k, shift + open);
    if open >= s.len() {
        if k < s.len() {
            assert(whole.subrange(shift + k, whole.len() as int) =~= s.subrange(k, s.len() as int));
        }
    } else {
        let closer = closer_of(s[open]);
        lemma_first_char_bounds(s, closer, open + 1);
        let close = first_char(s, closer, open + 1);
        assert forall|j: int| shift + open + 1 <= j < shift + close implies #[trigger] whole[j]
            != closer by {
            assert(whole[j] == s[j - shift]);
        }
        if close < s.len() {
            assert(whole[shift + close] == s[close]);
        }
        lemma_first_char_at(whole, closer, shift + open + 1, shift + close);
        if close < s.len() {
            lemma_parse_shift(before, s, close + 1);
            assert(whole.subrange(shift + k, shift + open) =~= s.subrange(k, open));
            assert(whole.subrange(shift + open + 1, shift + close) =~= s.subrange(open + 1, close));
        }
    }
}

/// The readable form of a pattern starts with the readable form of its first
/// segment.
proof fn lemma_pattern_text_front(p: Seq<Segment>)
    requires
        p.len() > 0,
    ensures
        pattern_text(p) == segment_text(p[0]) + pattern_text(p.drop_first()),
    decreases p.len(),
{
    if p.len() == 1 {
        assert(p.drop_last() =~= Seq::<Segment>::empty());
        assert(p.drop_first() =~= Seq::<Segment>::empty());
        assert(pattern_text(p) =~= segment_text(p[0]) + pattern_text(p.drop_first()));
    } else {
        let shorter = p.drop_last();
        lemma_pattern_text_front(shorter);
        assert(shorter[0] == p[0]);
        assert(shorter.drop_first() =~= p.drop_first().drop_last());
        assert(p.drop_first().last() == p.last());
        assert(pattern_text(p) =~= segment_text(p[0]) + pattern_text(p.drop_first()));
    }
}

/// What is read from a text has the shape in which lines are read.
pub proof fn lemma_parsed_shape(s: Seq<char>, pos: int)
    requires
        0 <= pos <= s.len(),
        parse_from(s, pos) is Ok,
    ensures
        parsed_shape(parse_from(s, pos)->Ok_0),
    decreases s.len() - pos,
{
    let p = parse_from(s, pos)->Ok_0;
    lemma_first_opener_bounds(s, pos);
    let open = first_opener(s, pos);
    if open >= s.len() {
        if pos < s.len() {
            let text = s.subrange(pos, s.len() as int);
            assert forall|i: int| 0 <= i < text.len() implies !is_opener(#[trigger] text[i]) by {
                assert(text[i] == s[pos + i]);
            }
            assert(p =~= seq![Segment::Literal(text)]);
        }
    } else {
        let closer = closer_of(s[open]);
        lemma_first_char_bounds(s, closer, open + 1);
        let close = first_char(s, closer, open + 1);
        lemma_parsed_shape(s, close + 1);
        let rest = parse_from(s, close + 1)->Ok_0;
        let text = s.subrange(pos, open);
        let inner = s.subrange(open + 1, close);
        let head = seq![Segment::Literal(text), placeholder(s[open], inner)];
        assert(p == head + rest);
        assert forall|i: int| 0 <= i < text.len() implies !is_opener(#[trigger] text[i]) by {
            assert(text[i] == s[pos + i]);
        }
        assert forall|i: int| 0 <= i < inner.len() implies #[trigger] inner[i] != closer by {
            assert(inner[i] == s[open + 1 + i]);
        }
        assert(writable(head[1]));
        assert forall|i: int| 0 <= i < p.len() implies writable(#[trigger] p[i]) && (p[i]
            is Literal <==> i % 2 == 0) by {
            if i >= 2 {
                assert(p[i] == rest[i - 2]);
            } else {
                assert(p[i] == head[i]);
            }
        }
        if p.len() % 2 == 1 {
            assert(rest.len() % 2 == 1);
            assert(p.last() == rest.last());
        }
    }
}

/// A pattern that has the shape in which lines are read is what its readable
/// form is read as.
pub proof fn lemma_shape_reads_back(p: Seq<Segment>)
    requires
        parsed_shape(p),
    ensures
        parse_spec(pattern_text(p)) == Ok::<Seq<Segment>, char>(p),
    decreases p.len(),
{
    let text = pattern_text(p);
    if p.len() == 0 {
        assert(text.len() == 0);
        assert(first_opener(text, 0) == text.len());
        assert(p =~= Seq::<Segment>::empty());
    } else if p.len() == 1 {
        assert(writable(p[0]) && p[0] is Literal);
        let literal = p[0]->Literal_0;
        assert(p.drop_last() =~= Seq::<Segment>::empty());
        assert(pattern_text(p.drop_last()) =~= Seq::<char>::empty());
        assert(segment_text(p.last()) == literal);
        assert(text =~= literal);
        lemma_first_opener_at(text, 0, text.len() as int);
        assert(text.subrange(0, text.len() as int) =~= literal);
        assert(p =~= seq![Segment::Literal(literal)]);
    } else {
        assert(writable(p[0]) && p[0] is Literal);
        assert(writable(p[1]) && !(p[1] is Literal));
        let literal = p[0]->Literal_0;
        let after_first = p.drop_first();
        let rest = after_first.drop_first();
        assert(rest =~= p.subrange(2, p.len() as int));
        assert forall|i: int| 0 <= i < rest.len() implies writable(#[trigger] rest[i]) && (rest[i]
            is Literal <==> i % 2 == 0) by {
            assert(rest[i] == p[i + 2]);
        }
        if rest.len() % 2 == 1 {
            assert(rest.last() == p.last());
        }
        lemma_shape_reads_back(rest);
        lemma_pattern_text_front(p);
        lemma_pattern_text_front(after_first);
        assert(after_first[0] == p[1]);
        let written = segment_text(p[1]);
        let tail = pattern_text(rest);
        assert(text =~= literal + written + tail);
        let opener = written[0];
        let inner = written.subrange(1, written.len() - 1);
        let closer = written.last();
        match p[1] {
            Segment::Variable(name) => {
                assert(written =~= seq!['{'] + name + seq!['}']);
                assert(inner =~= name);
            },
            Segment::Value(Json::String(value)) => {
                if value.contains('"') {
                    assert(written =~= seq!['\''] + value + seq!['\'']);
                    assert(!lacks(value, '"')) by {
                        let at = choose|at: int| 0 <= at < value.len() && value[at] == '"';
                        assert(value[at] == '"');
                    }
                } else {
                    assert(written =~= seq!['"'] + value + seq!['"']);
                }
                assert(inner =~= value);
            },
            _ => {},
        }
        assert(is_opener(opener));
        assert(closer == closer_of(opener));
        assert(lacks(inner, closer)) by {
            match p[1] {
                Segment::Value(Json::String(value)) => {
                    if !value.contains('"') {
                        assert forall|i: int| 0 <= i < value.len() implies #[trigger] value[i]
                            != '"' by {
                            if value[i] == '"' {
                                assert(value.contains('"'));
                            }
                        }
                    }
                },
                _ => {},
            }
        }
        let open = literal.len() as int;
        let close = open + 1 + inner.len();
        assert(written.len() == inner.len() + 2);
        assert forall|j: int| 0 <= j < open implies !is_opener(#[trigger] text[j]) by {
            assert(text[j] == literal[j]);
        }
        assert(text[open] == opener);
        lemma_first_opener_at(text, 0, open);
        assert forall|j: int| open + 1 <= j < close implies #[trigger] text[j] != closer by {
            assert(text[j] == inner[j - open - 1]);
        }
        assert(text[close] == closer);
        lemma_first_char_at(text, closer, open + 1, close);
        lemma_parse_shift(literal + written, tail, 0);
        assert((literal + written) + tail =~= text);
        assert(text.subrange(0, open) =~= literal);
        assert(text.subrange(open + 1, close) =~= inner);
        assert(placeholder(opener, inner) == p[1]);
        assert(seq![p[0], p[1]] + rest =~= p);
    }
}

/// Reading, writing and reading again gives what the first reading gave: the
/// readable form of the segments of a line is read as the same segments.
pub proof fn law_readable_form_reads_back(s: Seq<char>)
    requires
        parse_spec(s) is Ok,
    ensures
        parse_spec(pattern_text(parse_spec(s)->Ok_0)) == parse_spec(s),
{
    lemma_parsed_shape(s, 0);
    lemma_shape_reads_back(parse_spec(s)->Ok_0);
}

} // verus!
