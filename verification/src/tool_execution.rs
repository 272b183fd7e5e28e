//! What the user is shown of tool calls: while they run, and their results.
use vstd::prelude::*;
use vstd::string::StringExecFns;
use vstd::string::StringSliceAdditionalSpecFns;
use vstd::utf8::*;

use crate::mcp::{display_name_from_namespaced, spec_display_name};
use crate::protocol::{decimal_string, ToolCall, ToolResult};
use crate::text::{decimal, str_eq};

verus! {

#[verifier::external_type_specification]
#[verifier::external_body]
#[verifier::reject_recursive_types(K)]
#[verifier::reject_recursive_types(V)]
pub struct ExJsonMap<K, V>(serde_json::Map<K, V>);

/// The entries of a JSON object whose values are JSON strings: each key with
/// the text of its string.
pub uninterp spec fn json_string_entries(object: serde_json::Map<String, serde_json::Value>) -> Map<
    Seq<char>,
    Seq<char>,
>;

/// The text that `serde_json::to_string_pretty` gives of a JSON object, if it
/// gives one.
pub uninterp spec fn json_pretty_text(object: serde_json::Map<String, serde_json::Value>) -> Option<
    Seq<char>,
>;

/// What `serde_json::from_str` reads in `text`, where it reads a JSON object:
/// the entries of that object whose values are strings, and its pretty text.
/// `None` where `text` is not JSON, or is JSON but not an object.
pub uninterp spec fn json_object_of(text: Seq<char>) -> Option<
    (Map<Seq<char>, Seq<char>>, Option<Seq<char>>),
>;

/// Parses `text` as JSON (`serde_json::from_str`) and gives the object it holds,
/// if it holds one. The contract claims that the parse depends on the text
/// alone (`json_object_of`), and ties the object's string entries and its
/// pretty text to that parse.
#[verifier::external_body]
fn parse_json_object(text: &str) -> (r: Option<serde_json::Map<String, serde_json::Value>>)
    ensures
        r is None <==> json_object_of(text@) is None,
        r matches Some(object) ==> json_object_of(text@) == Some(
            (json_string_entries(object), json_pretty_text(object)),
        ),
{
    match serde_json::from_str::<serde_json::Value>(text) {
        Ok(serde_json::Value::Object(object)) => Some(object),
        _ => None,
    }
}

/// The string held under `key` in `object` (`serde_json::Map::get`), if what is
/// there is a string: the contract claims it is the entry under `key` among the
/// object's string entries.
#[verifier::external_body]
fn string_field(object: &serde_json::Map<String, serde_json::Value>, key: &str) -> (r: Option<
    String,
>)
    ensures
        r is Some <==> json_string_entries(*object).dom().contains(key@),
        r matches Some(s) ==> json_string_entries(*object)[key@] == s@,
{
    match object.get(key) {
        Some(serde_json::Value::String(s)) => Some(s.clone()),
        _ => None,
    }
}

/// `object` printed as indented JSON (`serde_json::to_string_pretty`), if that
/// succeeds: the contract claims it is the object's pretty text.
#[verifier::external_body]
fn pretty_json(object: &serde_json::Map<String, serde_json::Value>) -> (r: Option<String>)
    ensures
        r is None <==> json_pretty_text(*object) is None,
        r matches Some(p) ==> json_pretty_text(*object) == Some(p@),
{
    serde_json::to_string_pretty(object).ok()
}

/// How many bytes of an output are shown at most.
pub const SUMMARY_LIMIT: usize = 500;

/// A text cut down for display: as it is up to the limit; beyond it, its first
/// bytes followed by `...`. `None` where the cut would fall inside a character.
pub open spec fn spec_cut(s: Seq<char>) -> Option<Seq<char>> {
    let b = encode_utf8(s);
    if b.len() > SUMMARY_LIMIT {
        if is_char_boundary(b, SUMMARY_LIMIT as int) {
            Some(decode_utf8(b.subrange(0, SUMMARY_LIMIT as int)) + "..."@)
        } else {
            None
        }
    } else {
        Some(s)
    }
}

/// `s` cut down for display, as `spec_cut` says.
pub fn cut_for_display(s: &str) -> (r: Option<String>)
    ensures
        match r {
            Some(t) => spec_cut(s@) == Some(t@),
            None => spec_cut(s@) is None,
        },
{
    let n = s.as_bytes().len();
    if n > SUMMARY_LIMIT {
        if s.is_char_boundary(SUMMARY_LIMIT) {
            let (head, _) = s.split_at(SUMMARY_LIMIT);
            proof {
                encode_utf8_decode_utf8(head@);
                assert(head@ == decode_utf8(encode_utf8(s@).subrange(0, SUMMARY_LIMIT as int)));
            }
            let mut r = String::from_str(head);
            r.append("...");
            assert(r@ == head@ + "..."@);
            Some(r)
        } else {
            None
        }
    } else {
        let r = String::from_str(s);
        assert(spec_cut(s@) == Some(r@));
        Some(r)
    }
}

/// What JSON made of a tool's output, where the output is a JSON object: the
/// text of its `summary` field, if it is a string, and the object printed
/// indented, if that succeeded.
pub struct JsonOutput {
    pub summary: Option<String>,
    pub pretty: Option<String>,
}

/// The summary shown of a tool's output `content`, given what JSON made of it:
/// the `summary` field of a JSON object; else the object printed, cut down;
/// else the output itself, cut down. `None` where the cut falls inside a character.
pub open spec fn spec_summary(json: Option<(Option<Seq<char>>, Option<Seq<char>>)>, content: Seq<
    char,
>) -> Option<Seq<char>> {
    match json {
        Some((Some(summary), _)) => Some(summary),
        Some((None, Some(pretty))) => spec_cut(pretty),
        _ => spec_cut(content),
    }
}

/// The abstract form of what JSON made of an output.
pub open spec fn json_output_view(json: Option<JsonOutput>) -> Option<(Option<Seq<char>>, Option<Seq<char>>)> {
    match json {
        Some(j) => Some(
            (
                match j.summary {
                    Some(s) => Some(s@),
                    None => None,
                },
                match j.pretty {
                    Some(p) => Some(p@),
                    None => None,
                },
            ),
        ),
        None => None,
    }
}

/// The summary shown of a tool's output, given what JSON made of it.
pub fn summary_of(json: Option<JsonOutput>, content: &str) -> (r: Option<String>)
    ensures
        match r {
            Some(t) => spec_summary(json_output_view(json), content@) == Some(t@),
            None => spec_summary(json_output_view(json), content@) is None,
        },
{
    match json {
        Some(JsonOutput { summary: Some(summary), .. }) => Some(summary),
        Some(JsonOutput { summary: None, pretty: Some(pretty) }) => cut_for_display(pretty.as_str()),
        _ => cut_for_display(content),
    }
}

/// What reading `text` as JSON gives for its summary: for a JSON object, the
/// text of its `summary` field where that is a string, and the object printed
/// indented.
pub open spec fn json_reading(text: Seq<char>) -> Option<(Option<Seq<char>>, Option<Seq<char>>)> {
    match json_object_of(text) {
        Some((strings, pretty)) => Some(
            (
                if strings.dom().contains("summary"@) {
                    Some(strings["summary"@])
                } else {
                    None
                },
                pretty,
            ),
        ),
        None => None,
    }
}

/// The summary shown of a tool's output `content`.
pub open spec fn output_summary(content: Seq<char>) -> Option<Seq<char>> {
    spec_summary(json_reading(content), content)
}

/// Create a formatted summary of tool output for display: the `summary` field
/// of a JSON object; else the object printed indented, cut down; else the
/// output itself, cut down. `None` where a cut would fall inside a character.
pub fn create_tool_output_summary(tool_name: &str, content: &str) -> (r: Option<String>)
    ensures
        match r {
            Some(t) => output_summary(content@) == Some(t@),
            None => output_summary(content@) is None,
        },
{
    let json = match parse_json_object(content) {
        Some(object) => {
            let summary = string_field(&object, "summary");
            proof {
                reveal_strlit("summary");
            }
            Some(JsonOutput { summary, pretty: pretty_json(&object) })
        },
        None => None,
    };
    assert(json_output_view(json) == json_reading(content@));
    summary_of(json, content)
}

/// The text shown while tool calls run.
pub open spec fn spec_executing_text(calls: Seq<ToolCall>) -> Seq<char> {
    if calls.len() == 1 {
        "Executing tool '"@ + spec_display_name(calls[0].name@) + "'..."@
    } else {
        "Executing "@ + decimal(calls.len()) + " tools..."@
    }
}

/// The text shown while tool calls run: the tool's name where there is one
/// call, the number of calls otherwise.
pub fn executing_text(calls: &[ToolCall]) -> (r: String)
    ensures
        r@ == spec_executing_text(calls@),
{
    if calls.len() == 1 {
        let mut r = String::from_str("Executing tool '");
        let name = display_name_from_namespaced(calls[0].name.as_str());
        r.append(name.as_str());
        r.append("'...");
        r
    } else {
        let mut r = String::from_str("Executing ");
        let n = decimal_string(calls.len());
        r.append(n.as_str());
        r.append(" tools...");
        r
    }
}

/// The name of the first call with the id `id`, or `unknown`.
pub open spec fn tool_name_of(calls: Seq<ToolCall>, id: Seq<char>) -> Seq<char>
    decreases calls.len(),
{
    if calls.len() == 0 {
        "unknown"@
    } else if calls[0].id@ == id {
        calls[0].name@
    } else {
        tool_name_of(calls.drop_first(), id)
    }
}

/// The name of the first call with the id `id`, or `unknown`.
fn find_tool_name<'a>(calls: &'a [ToolCall], id: &str) -> (r: &'a str)
    ensures
        r@ == tool_name_of(calls@, id@),
{
    let mut i: usize = 0;
    assert(calls@.skip(0) =~= calls@);
    while i < calls.len()
        invariant
            i <= calls@.len(),
            tool_name_of(calls@, id@) == tool_name_of(calls@.skip(i as int), id@),
        decreases calls@.len() - i,
    {
        assert(calls@.skip(i as int)[0] == calls@[i as int]);
        assert(calls@.skip(i as int).drop_first() =~= calls@.skip(i + 1));
        if str_eq(calls[i].id.as_str(), id) {
            return calls[i].name.as_str();
        }
        i += 1;
    }
    proof {
        reveal_strlit("unknown");
    }
    "unknown"
}

/// The line of one result among several.
pub open spec fn spec_result_line(calls: Seq<ToolCall>, result: ToolResult, summary: Seq<char>) -> Seq<
    char,
> {
    let display = spec_display_name(tool_name_of(calls, result.tool_call_id@));
    if result.is_error {
        "**"@ + display + "** ❌: "@ + result.content@ + "\n\n"@
    } else {
        "**"@ + display + "** ✅: `"@ + summary + "`\n\n"@
    }
}

/// The lines of several results, in order.
pub open spec fn spec_result_lines(
    calls: Seq<ToolCall>,
    results: Seq<ToolResult>,
    summaries: Seq<Seq<char>>,
) -> Seq<char>
    decreases results.len(),
{
    if results.len() == 0 {
        Seq::empty()
    } else {
        spec_result_lines(calls, results.drop_last(), summaries.drop_last()) + spec_result_line(
            calls,
            results.last(),
            summaries.last(),
        )
    }
}

/// The text shown of the results of tool calls, given the summary of each
/// successful output: one result is told with its tool's name and its summary
/// (or its error); several are counted and told one per line.
pub open spec fn spec_results_text(
    calls: Seq<ToolCall>,
    results: Seq<ToolResult>,
    summaries: Seq<Seq<char>>,
) -> Seq<char> {
    if results.len() == 1 {
        let result = results[0];
        let display = spec_display_name(tool_name_of(calls, result.tool_call_id@));
        if result.is_error {
            "🔧 Tool '"@ + display + "' failed:\n"@ + result.content@
        } else {
            "🔧 Tool '"@ + display + "' executed successfully:\n`"@ + summaries[0] + "`"@
        }
    } else {
        "🔧 Executed "@ + decimal(results.len()) + " tools:\n\n"@ + spec_result_lines(
            calls,
            results,
            summaries,
        )
    }
}

/// The text shown of the results of tool calls, given the summary of each
/// successful output (the summaries of failed calls are not used).
pub fn results_text(calls: &[ToolCall], results: &[ToolResult], summaries: &[String]) -> (r: String)
    requires
        summaries@.len() == results@.len(),
    ensures
        r@ == spec_results_text(calls@, results@, summaries@.map_values(|s: String| s@)),
{
    let ghost sums = summaries@.map_values(|s: String| s@);
    if results.len() == 1 {
        let result = &results[0];
        let display = display_name_from_namespaced(find_tool_name(calls, result.tool_call_id.as_str()));
        let mut r = String::from_str("🔧 Tool '");
        r.append(display.as_str());
        if result.is_error {
            r.append("' failed:\n");
            r.append(result.content.as_str());
        } else {
            r.append("' executed successfully:\n`");
            r.append(summaries[0].as_str());
            r.append("`");
        }
        r
    } else {
        let mut r = String::from_str("🔧 Executed ");
        let n = decimal_string(results.len());
        r.append(n.as_str());
        r.append(" tools:\n\n");
        let ghost head = r@;
        let mut i: usize = 0;
        while i < results.len()
            invariant
                i <= results@.len(),
                summaries@.len() == results@.len(),
                sums == summaries@.map_values(|s: String| s@),
                r@ == head + spec_result_lines(
                    calls@,
                    results@.take(i as int),
                    sums.take(i as int),
                ),
            decreases results@.len() - i,
        {
            let result = &results[i];
            let display = display_name_from_namespaced(
                find_tool_name(calls, result.tool_call_id.as_str()),
            );
            let ghost before = r@;
            r.append("**");
            r.append(display.as_str());
            if result.is_error {
                r.append("** ❌: ");
                r.append(result.content.as_str());
                r.append("\n\n");
            } else {
                r.append("** ✅: `");
                r.append(summaries[i].as_str());
                r.append("`\n\n");
            }
            proof {
                let line = spec_result_line(calls@, results@[i as int], summaries@[i as int]@);
                assert(results@.take(i + 1).drop_last() =~= results@.take(i as int));
                assert(sums.take(i + 1).drop_last() =~= sums.take(i as int));
                assert(results@.take(i + 1).last() == results@[i as int]);
                assert(sums.take(i + 1).last() == summaries@[i as int]@);
                assert(r@ =~= before + line);
                assert(spec_result_lines(calls@, results@.take(i + 1), sums.take(i + 1))
                    == spec_result_lines(calls@, results@.take(i as int), sums.take(i as int))
                    + line);
                assert(r@ =~= head + spec_result_lines(
                    calls@,
                    results@.take(i + 1),
                    sums.take(i + 1),
                ));
            }
            i += 1;
        }
        assert(results@.take(results@.len() as int) =~= results@);
        assert(sums.take(results@.len() as int) =~= sums);
        r
    }
}

/// The summary of a result as the results text uses it: none is shown of a
/// failed call; of a successful one, the summary of its output.
pub open spec fn result_summary(result: ToolResult) -> Option<Seq<char>> {
    if result.is_error {
        Some(Seq::empty())
    } else {
        output_summary(result.content@)
    }
}

/// The summaries of `results`, where each has one.
pub open spec fn result_summaries(results: Seq<ToolResult>) -> Seq<Seq<char>> {
    Seq::new(results.len(), |i: int| result_summary(results[i])->Some_0)
}

/// The text shown of the results of tool calls, with the summary of each
/// successful output made from it. `None` where a summary cannot be cut down,
/// which can only be for a successful call.
pub fn tool_results_text(calls: &[ToolCall], results: &[ToolResult]) -> (r: Option<String>)
    ensures
        r is None <==> exists|i: int|
            0 <= i < results@.len() && (#[trigger] result_summary(results@[i])) is None,
        r matches Some(t) ==> t@ == spec_results_text(calls@, results@, result_summaries(results@)),
{
    let mut summaries: Vec<String> = Vec::new();
    let mut i: usize = 0;
    while i < results.len()
        invariant
            i <= results@.len(),
            summaries@.len() == i,
            forall|j: int| 0 <= j < i ==> #[trigger] result_summary(results@[j]) == Some(summaries@[j]@),
        decreases results@.len() - i,
    {
        let ghost before = summaries@;
        if results[i].is_error {
            summaries.push(String::new());
        } else {
            match create_tool_output_summary(
                find_tool_name(calls, results[i].tool_call_id.as_str()),
                results[i].content.as_str(),
            ) {
                Some(s) => summaries.push(s),
                None => {
                    assert(result_summary(results@[i as int]) is None);
                    return None;
                },
            }
        }
        assert forall|j: int| 0 <= j < i + 1 implies #[trigger] result_summary(results@[j]) == Some(
            summaries@[j]@,
        ) by {
            if j < i {
                assert(summaries@[j] == before[j]);
            }
        }
        i += 1;
    }
    let r = results_text(calls, results, &summaries);
    proof {
        let sums = summaries@.map_values(|s: String| s@);
        assert forall|k: int| 0 <= k < results@.len() implies #[trigger] sums[k] == result_summaries(
            results@,
        )[k] by {
            assert(result_summary(results@[k]) == Some(summaries@[k]@));
        }
        assert(sums =~= result_summaries(results@));
        assert forall|k: int| 0 <= k < results@.len() implies (#[trigger] result_summary(
            results@[k],
        )) is Some by {
            assert(result_summary(results@[k]) == Some(summaries@[k]@));
        }
    }
    Some(r)
}

} // verus!
