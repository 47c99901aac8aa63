//! The browser: loading a page of the test's server and evaluating scripts in
//! it.

use crate::args::SegmentArgs;
use crate::civilization::Civilization;
use crate::definitions::process::{not_a_string, string_argument};
use crate::definitions::{HumaneInstruction, HumaneRetriever};
use crate::errors::{HumaneInputError, HumaneInternalError, HumaneStepError, HumaneTestFailure};
use crate::json::{
    find_member, items_view, json_text, lemma_array_view, lemma_object_view, lookup,
    to_json_text, Json, JsonValue,
};
use crate::text::{chars_of, decimal, decimal_text, join, join_text, replace, replace_text, text_of, texts};
use vstd::prelude::*;

verus! {

/// `In my browser, I load {url}`.
pub struct LoadPage;

/// `In my browser, I evaluate {js}`.
pub struct EvalJs;

/// `In my browser, the result of {js}`: what a script returns.
pub struct GetJs;

/// `In my browser, the console`: what the page has logged.
pub struct GetConsole;

/// The script around every script of a test: it collects the errors of the
/// assertions that the script makes, runs the script, and hands back the
/// errors, what the script returned and what the page has logged.
pub const HARNESS: &'static str =
    "const humane_errs = [];\n\nconst humane = {\n    assert_eq: (left, right) => {\n        if (left !== right) {\n            humane_errs.push(`Equality Assertion failed. Left: ${JSON.stringify(left)}, Right: ${JSON.stringify(right)}`);\n        }\n    }\n};\n\nconst inner = async () => {\n// insert_humane_inner_js\n};\n\nlet inner_response;\ntry {\n    inner_response = await inner();\n} catch (e) {\n    humane_errs.push(`JavaScript error: ${e}`);\n}\n\nreturn { humane_errs, inner_response, logs: JSON.stringify(humane_log_events[`ALL`]) };\n";

/// The line of the harness in whose place the script of the test is put.
pub open spec fn harness_marker() -> Seq<char> {
    "// insert_humane_inner_js"@
}

/// The script of a test inside the harness.
pub fn harnessed(js: String) -> (r: String)
    ensures
        r@ == replace_text(HARNESS@, harness_marker(), js@),
{
    let whole = chars_of(HARNESS);
    let marker = chars_of("// insert_humane_inner_js");
    let inner = chars_of(js.as_str());
    text_of(&replace(&whole, &marker, &inner))
}

/// The address of a page on the server of a test.
pub open spec fn page_address(port: u16, path: Seq<char>) -> Seq<char> {
    "http://localhost:"@ + decimal_text(port as nat) + path
}

/// The address of a page on the server of a test.
pub fn page_url(port: u16, path: &str) -> (r: String)
    ensures
        r@ == page_address(port, path@),
{
    let mut out = String::new();
    out.append("http://localhost:");
    out.append(decimal(port as u64).as_str());
    out.append(path);
    assert(out@ =~= page_address(port, path@));
    out
}

/// The text of an error that a script has collected: the string itself, or the
/// JSON text of anything else.
pub open spec fn script_error_text(v: Json) -> Seq<char> {
    match v {
        Json::String(text) => text,
        _ => json_text(v),
    }
}

/// The texts of the errors that a script has collected.
pub open spec fn script_error_texts(errors: Seq<Json>) -> Seq<Seq<char>> {
    Seq::new(errors.len(), |i: int| script_error_text(errors[i]))
}

/// What the page has logged, as the harness hands it back: the string under
/// `logs`, or nothing.
pub open spec fn script_logs(members: Seq<(Seq<char>, Json)>) -> Seq<char> {
    match lookup(members, "logs"@) {
        Some(Json::String(text)) => text,
        _ => Seq::empty(),
    }
}

/// What a script has returned through the harness.
pub enum ScriptOutcome {
    /// The script ran and returned this value.
    Returned(Json),
    /// What came back is not what the harness returns: the script did not run.
    NotRun,
    /// What came back holds no list of errors.
    Unexpected,
    /// The script ran and collected these errors, and the page has logged this.
    Failed(Seq<Seq<char>>, Seq<char>),
}

/// What came back from a script means: without an object the script did not
/// run; without a list under `humane_errs` the value is unexpected; with
/// errors in the list the script failed; otherwise it returned what stands
/// under `inner_response`, or null.
pub open spec fn script_outcome(value: Option<Json>) -> ScriptOutcome {
    match value {
        Some(Json::Object(members)) => match lookup(members, "humane_errs"@) {
            Some(Json::Array(errors)) => if errors.len() > 0 {
                ScriptOutcome::Failed(script_error_texts(errors), script_logs(members))
            } else {
                match lookup(members, "inner_response"@) {
                    Some(v) => ScriptOutcome::Returned(v),
                    None => ScriptOutcome::Returned(Json::Null),
                }
            },
            _ => ScriptOutcome::Unexpected,
        },
        _ => ScriptOutcome::NotRun,
    }
}

/// The JSON text of what came back from a script, or `null` if nothing did.
pub open spec fn returned_text(value: Option<Json>) -> Seq<char> {
    match value {
        Some(v) => json_text(v),
        None => "null"@,
    }
}

/// The value of an optional value.
pub open spec fn option_json(value: Option<JsonValue>) -> Option<Json> {
    match value {
        Some(v) => Some(v@),
        None => None,
    }
}

/// `r` is what reading `value`, which came back from a script, comes to: the
/// value that the script returned, or the error that says why there is none.
pub open spec fn reads_as(r: Result<JsonValue, HumaneStepError>, value: Option<Json>) -> bool {
    match script_outcome(value) {
        ScriptOutcome::Returned(v) => r matches Ok(found) && found@ == v,
        ScriptOutcome::NotRun => r matches Err(
            HumaneStepError::External(HumaneInputError::StepError { reason }),
        ) && reason@ == "JavaScript failed to parse and run"@,
        ScriptOutcome::Unexpected => r matches Err(
            HumaneStepError::Internal(HumaneInternalError::Custom { msg }),
        ) && msg@ == "JavaScript returned an unexpected value: "@ + returned_text(value),
        ScriptOutcome::Failed(errors, page_logs) => r matches Err(
            HumaneStepError::Assertion(HumaneTestFailure::BrowserJavascriptErr { msg, logs }),
        ) && msg@ == join_text(errors, "\n"@) && logs@ == page_logs,
    }
}

/// `r` is what an answer of the browser to a script comes to: what reading
/// the value comes to where the browser has evaluated the script, and an
/// internal error with the browser's message where it has not.
pub open spec fn is_verdict_on(
    r: Result<JsonValue, HumaneStepError>,
    answer: Result<Option<Json>, Seq<char>>,
) -> bool {
    match answer {
        Ok(value) => reads_as(r, value),
        Err(message) => r matches Err(
            HumaneStepError::Internal(HumaneInternalError::PagebrowseError(text)),
        ) && text@ == message,
    }
}

/// The value and the message of an answer of the browser.
pub open spec fn answer_view(answer: Result<Option<JsonValue>, String>) -> Result<
    Option<Json>,
    Seq<char>,
> {
    match answer {
        Ok(value) => Ok(option_json(value)),
        Err(message) => Err(message@),
    }
}

/// Reads what came back from a script: the value that the script returned, or
/// the error of the step.
pub fn read_script_result(value: Option<JsonValue>) -> (r: Result<JsonValue, HumaneStepError>)
    ensures
        reads_as(r, option_json(value)),
{
    let members = match &value {
        Some(JsonValue::Object(members)) => members,
        _ => {
            return Err(
                HumaneStepError::External(
                    HumaneInputError::StepError {
                        reason: "JavaScript failed to parse and run".to_string(),
                    },
                ),
            );
        },
    };
    proof {
        lemma_object_view(*members);
    }
    let errors = match find_member(members, "humane_errs") {
        Some(at) => match &members[at].1 {
            JsonValue::Array(errors) => Some(errors),
            _ => None,
        },
        None => None,
    };
    let errors = match errors {
        Some(errors) => errors,
        None => {
            let mut msg = String::new();
            msg.append("JavaScript returned an unexpected value: ");
            match &value {
                Some(v) => msg.append(to_json_text(v).as_str()),
                None => msg.append("null"),
            }
            return Err(HumaneStepError::Internal(HumaneInternalError::Custom { msg }));
        },
    };
    proof {
        lemma_array_view(*errors);
    }
    if errors.len() > 0 {
        let mut lines: Vec<String> = Vec::new();
        let mut i: usize = 0;
        while i < errors.len()
            invariant
                i <= errors.len(),
                lines@.len() == i,
                forall|j: int| 0 <= j < i ==> lines@[j]@ == script_error_text(errors@[j]@),
            decreases errors.len() - i,
        {
            let line = match &errors[i] {
                JsonValue::String(text) => text.clone(),
                other => to_json_text(other),
            };
            lines.push(line);
            i = i + 1;
        }
        assert(texts(lines@) =~= script_error_texts(items_view(errors@)));
        let logs = match find_member(members, "logs") {
            Some(at) => match &members[at].1 {
                JsonValue::String(text) => text.clone(),
                _ => String::new(),
            },
            None => String::new(),
        };
        return Err(
            HumaneStepError::Assertion(
                HumaneTestFailure::BrowserJavascriptErr { msg: join(&lines, "\n"), logs },
            ),
        );
    }
    match find_member(members, "inner_response") {
        Some(at) => Ok(members[at].1.clone()),
        None => Ok(JsonValue::Null),
    }
}

/// What an answer of the browser to a script comes to: what reading the
/// value comes to where the browser has evaluated the script, and an internal
/// error with the browser's message where it has not.
pub fn script_verdict(answer: Result<Option<JsonValue>, String>) -> (r: Result<
    JsonValue,
    HumaneStepError,
>)
    ensures
        is_verdict_on(r, answer_view(answer)),
{
    match answer {
        Ok(value) => read_script_result(value),
        Err(message) => Err(
            HumaneStepError::Internal(HumaneInternalError::PagebrowseError(message)),
        ),
    }
}

/// `e` is the error of a step that needs a page where the test has loaded
/// none.
pub open spec fn needs_page(e: HumaneStepError) -> bool {
    e matches HumaneStepError::External(HumaneInputError::StepRequirementsNotMet { reason })
        && reason@ == "no page has been loaded into the browser for this test"@
}

/// Evaluates a script in the page of the test and reads what comes back. A
/// test that has not loaded a page does not meet the requirements of the step,
/// and nothing is evaluated. Otherwise the script is put into the harness and
/// handed to the browser, and the result is what the browser's answer comes
/// to: a script that the browser cannot evaluate is an internal error, and
/// what an evaluated script hands back is read as `read_script_result` reads
/// it.
pub fn eval_and_return_js(js: String, civ: &mut Civilization) -> (r: Result<
    JsonValue,
    HumaneStepError,
>)
    ensures
        !old(civ).window_open ==> *final(civ) == *old(civ),
        !old(civ).window_open ==> (r matches Err(e) && needs_page(e)),
        old(civ).window_open ==> exists|answer: Result<Option<Json>, Seq<char>>|
            is_verdict_on(r, answer),
        final(civ).last_command_output == old(civ).last_command_output,
        final(civ).assigned_server_port == old(civ).assigned_server_port,
        final(civ).window_open == old(civ).window_open,
        final(civ).env_vars == old(civ).env_vars,
        final(civ).shut_down == old(civ).shut_down,
{
    if !civ.window_open {
        return Err(
            HumaneStepError::External(
                HumaneInputError::StepRequirementsNotMet {
                    reason: "no page has been loaded into the browser for this test".to_string(),
                },
            ),
        );
    }
    let script = harnessed(js);
    let answer = civ.backend.evaluate_script(script.as_str());
    let ghost seen = answer_view(answer);
    let verdict = script_verdict(answer);
    assert(is_verdict_on(verdict, seen));
    verdict
}

/// `e` is the error of a step that needs a port where none is available.
pub open spec fn no_port(e: HumaneStepError) -> bool {
    e matches HumaneStepError::Internal(HumaneInternalError::Custom { msg }) && msg@
        == "No port was available"@
}

/// What loading a page has come to, for a test that has `port` after the
/// step. Without a port the step fails because none was available. With a
/// port, an address that is no string fails as an argument that is no string
/// does. Otherwise the browser decides: the step passes and the test has a page,
/// or it fails with the browser's message as an internal error. Wherever the
/// step fails, the test has a page only if it had one before.
pub open spec fn page_load_result(
    r: Result<(), HumaneStepError>,
    args: SegmentArgs,
    port: Option<u16>,
    had_page: bool,
    has_page: bool,
) -> bool {
    match port {
        None => r matches Err(e) && no_port(e) && has_page == had_page,
        Some(_) => match args.value_of("url"@) {
            Some(Json::String(_)) => match r {
                Ok(()) => has_page,
                Err(e) => e matches HumaneStepError::Internal(
                    HumaneInternalError::PagebrowseError(_),
                ) && has_page == had_page,
            },
            _ => r matches Err(e) && not_a_string(e, args, "url"@) && has_page == had_page,
        },
    }
}

/// Keeps what the browser has answered to the loading of a page: a page that
/// was loaded is the page of the test from now on, and a page that could not
/// be loaded is an internal error with the browser's message, which leaves the
/// test as it was.
pub fn record_page(civ: &mut Civilization, loaded: Result<(), String>) -> (r: Result<
    (),
    HumaneStepError,
>)
    ensures
        final(civ).last_command_output == old(civ).last_command_output,
        final(civ).assigned_server_port == old(civ).assigned_server_port,
        final(civ).env_vars == old(civ).env_vars,
        final(civ).shut_down == old(civ).shut_down,
        final(civ).backend == old(civ).backend,
        match loaded {
            Ok(()) => r is Ok && final(civ).window_open,
            Err(message) => {
                &&& r matches Err(
                    HumaneStepError::Internal(HumaneInternalError::PagebrowseError(text)),
                )
                &&& text == message
                &&& final(civ).window_open == old(civ).window_open
            },
        },
{
    match loaded {
        Ok(()) => {
            civ.window_open = true;
            Ok(())
        },
        Err(message) => Err(
            HumaneStepError::Internal(HumaneInternalError::PagebrowseError(message)),
        ),
    }
}

impl HumaneInstruction for LoadPage {
    fn segments(&self) -> (r: &'static str)
        ensures
            r@ == "In my browser, I load {url}"@,
    {
        "In my browser, I load {url}"
    }

    /// Loads the page at `url` on the server of the test. The test gets a port
    /// if it has none, and keeps the port that it has; without a port the step
    /// fails. After that the address has to be a string. The browser is then
    /// asked for the page at that address on the port of the test: a page that
    /// cannot be loaded is an internal error, and on success the test has a
    /// page.
    fn run(&self, args: &SegmentArgs, civ: &mut Civilization) -> (r: Result<(), HumaneStepError>)
        ensures
            page_load_result(
                r,
                *args,
                final(civ).assigned_server_port,
                old(civ).window_open,
                final(civ).window_open,
            ),
            old(civ).assigned_server_port is Some ==> final(civ).assigned_server_port == old(
                civ,
            ).assigned_server_port,
            r is Ok ==> final(civ).window_open && final(civ).assigned_server_port is Some,
            r is Err ==> final(civ).window_open == old(civ).window_open,
            final(civ).last_command_output == old(civ).last_command_output,
            final(civ).env_vars == old(civ).env_vars,
            final(civ).shut_down == old(civ).shut_down,
    {
        let port = match civ.ensure_port() {
            Some(port) => port,
            None => {
                return Err(
                    HumaneStepError::Internal(
                        HumaneInternalError::Custom { msg: "No port was available".to_string() },
                    ),
                );
            },
        };
        let path = match string_argument(args, "url") {
            Ok(path) => path,
            Err(e) => {
                return Err(e);
            },
        };
        let url = page_url(port, path.as_str());
        let loaded = civ.backend.load_page(url.as_str());
        record_page(civ, loaded)
    }
}

impl HumaneInstruction for EvalJs {
    fn segments(&self) -> (r: &'static str)
        ensures
            r@ == "In my browser, I evaluate {js}"@,
    {
        "In my browser, I evaluate {js}"
    }

    /// Evaluates the script and lets go of what it returns.
    fn run(&self, args: &SegmentArgs, civ: &mut Civilization) -> (r: Result<(), HumaneStepError>)
        ensures
            match args.value_of("js"@) {
                Some(Json::String(_)) => if old(civ).window_open {
                    exists|answer: Result<Option<Json>, Seq<char>>, found: Result<
                        JsonValue,
                        HumaneStepError,
                    >|
                        #[trigger] is_verdict_on(found, answer) && match found {
                            Ok(_) => r is Ok,
                            Err(e) => r == Err::<(), HumaneStepError>(e),
                        }
                } else {
                    r matches Err(e) && needs_page(e) && *final(civ) == *old(civ)
                },
                _ => r matches Err(e) && not_a_string(e, *args, "js"@) && *final(civ) == *old(
                    civ,
                ),
            },
            final(civ).last_command_output == old(civ).last_command_output,
            final(civ).assigned_server_port == old(civ).assigned_server_port,
            final(civ).window_open == old(civ).window_open,
            final(civ).env_vars == old(civ).env_vars,
            final(civ).shut_down == old(civ).shut_down,
    {
        let js = string_argument(args, "js")?;
        match eval_and_return_js(js, civ) {
            Ok(_) => Ok(()),
            Err(e) => Err(e),
        }
    }
}

impl HumaneRetriever for GetJs {
    fn segments(&self) -> (r: &'static str)
        ensures
            r@ == "In my browser, the result of {js}"@,
    {
        "In my browser, the result of {js}"
    }

    /// Evaluates the script and hands on what it returns.
    fn run(&self, args: &SegmentArgs, civ: &mut Civilization) -> (r: Result<
        JsonValue,
        HumaneStepError,
    >)
        ensures
            match args.value_of("js"@) {
                Some(Json::String(_)) => if old(civ).window_open {
                    exists|answer: Result<Option<Json>, Seq<char>>| is_verdict_on(r, answer)
                } else {
                    r matches Err(e) && needs_page(e) && *final(civ) == *old(civ)
                },
                _ => r matches Err(e) && not_a_string(e, *args, "js"@) && *final(civ) == *old(
                    civ,
                ),
            },
            final(civ).last_command_output == old(civ).last_command_output,
            final(civ).assigned_server_port == old(civ).assigned_server_port,
            final(civ).window_open == old(civ).window_open,
            final(civ).env_vars == old(civ).env_vars,
            final(civ).shut_down == old(civ).shut_down,
    {
        let js = string_argument(args, "js")?;
        eval_and_return_js(js, civ)
    }
}

impl HumaneRetriever for GetConsole {
    fn segments(&self) -> (r: &'static str)
        ensures
            r@ == "In my browser, the console"@,
    {
        "In my browser, the console"
    }

    /// What the page has logged so far. A test that has not loaded a page
    /// does not meet the requirements of the step. Otherwise the browser is
    /// asked for what the page has logged, and the result is what its answer
    /// comes to.
    fn run(&self, args: &SegmentArgs, civ: &mut Civilization) -> (r: Result<
        JsonValue,
        HumaneStepError,
    >)
        ensures
            !old(civ).window_open ==> *final(civ) == *old(civ),
            !old(civ).window_open ==> (r matches Err(e) && needs_page(e)),
            old(civ).window_open ==> exists|answer: Result<Option<Json>, Seq<char>>|
                is_verdict_on(r, answer),
            final(civ).last_command_output == old(civ).last_command_output,
            final(civ).assigned_server_port == old(civ).assigned_server_port,
            final(civ).window_open == old(civ).window_open,
            final(civ).env_vars == old(civ).env_vars,
            final(civ).shut_down == old(civ).shut_down,
    {
        eval_and_return_js("return humane_log_events[`ALL`];".to_string(), civ)
    }
}

} // verus!
