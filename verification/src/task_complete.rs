//! The tool by which an agent says that its task is complete.
//!
//! An agent ends its loop by calling this tool with a summary of what it did, rather than by
//! calling no tool at all.

use crate::json;
use crate::json::{Json, JsonView};
use crate::strmap::StrMap;
use crate::text;
use crate::text::{concat2, concat3, join, str_eq, trim};
use vstd::prelude::*;

verus! {

/// What the call of a tool brought.
#[derive(Debug)]
pub struct ToolResult {
    /// Whether the call succeeded.
    pub success: bool,
    /// What the tool has to say, where it succeeded.
    pub output: Option<String>,
    /// What went wrong, where it failed.
    pub error: Option<String>,
    /// Further facts about the call.
    pub metadata: StrMap<Json>,
}

/// What the call of a tool brought, with texts as sequences of characters.
pub struct ToolResultView {
    pub success: bool,
    pub output: Option<Seq<char>>,
    pub error: Option<Seq<char>>,
    pub metadata: Map<Seq<char>, JsonView>,
}

impl View for ToolResult {
    type V = ToolResultView;

    open spec fn view(&self) -> ToolResultView {
        ToolResultView {
            success: self.success,
            output: text::string_chars(self.output),
            error: text::string_chars(self.error),
            metadata: json::object_view(self.metadata),
        }
    }
}

impl ToolResultView {
    /// A failure.
    pub open spec fn failed(message: Seq<char>) -> Self {
        ToolResultView { success: false, output: None, error: Some(message), metadata: Map::empty() }
    }

    /// A success.
    pub open spec fn succeeded(output: Seq<char>, metadata: Map<Seq<char>, JsonView>) -> Self {
        ToolResultView { success: true, output: Some(output), error: None, metadata }
    }
}

impl ToolResult {
    /// A failure.
    pub fn fail(message: String) -> (r: Self)
        ensures
            r@ == ToolResultView::failed(message@),
    {
        ToolResult { success: false, output: None, error: Some(message), metadata: StrMap::new() }
    }

    /// A success with further facts.
    pub fn ok_with_metadata(output: String, metadata: StrMap<Json>) -> (r: Self)
        ensures
            r@ == ToolResultView::succeeded(output@, json::object_view(metadata)),
    {
        ToolResult { success: true, output: Some(output), error: None, metadata }
    }
}

/// The statuses with which a task can be completed.
pub open spec fn valid_statuses() -> Seq<Seq<char>> {
    seq!["success"@, "partial"@, "failed"@]
}

/// The text under which an agent hands in its summary.
pub open spec fn summary_argument(args: Map<Seq<char>, JsonView>) -> Option<Seq<char>> {
    let value = if args.contains_key("result"@) {
        JsonView::Object(args).get("result"@)
    } else {
        JsonView::Object(args).get("summary"@)
    };
    match value {
        Some(v) => v.text(),
        None => None,
    }
}

/// The status that an agent hands in.
pub open spec fn status_argument(args: Map<Seq<char>, JsonView>) -> Seq<char> {
    match JsonView::Object(args).get_text("status"@) {
        Some(s) => s,
        None => "success"@,
    }
}

/// The facts that go with a completed task.
pub open spec fn completion_facts(summary: Seq<char>, status: Seq<char>) -> Map<
    Seq<char>,
    JsonView,
> {
    Map::empty().insert("_completion"@, JsonView::Bool(true)).insert(
        "summary"@,
        JsonView::String(summary),
    ).insert("status"@, JsonView::String(status))
}

/// What the call of the tool brings.
pub open spec fn completion(args: Map<Seq<char>, JsonView>) -> ToolResultView {
    let status = status_argument(args);
    match summary_argument(args) {
        Some(given) if text::trimmed(given).len() > 0 => {
            let summary = text::trimmed(given);
            if valid_statuses().contains(status) {
                ToolResultView::succeeded(
                    "Task completed ("@ + status + "): "@ + summary,
                    completion_facts(summary, status),
                )
            } else {
                ToolResultView::failed(
                    "Invalid status '"@ + status + "'. Must be one of: "@ + text::joined(
                        valid_statuses(),
                        ", "@,
                    ),
                )
            }
        },
        _ => ToolResultView::failed("Result is required for task_complete"@),
    }
}

/// The schema of a text argument.
pub open spec fn text_property(description: Seq<char>) -> Map<Seq<char>, JsonView> {
    Map::empty().insert("type"@, JsonView::String("string"@)).insert(
        "description"@,
        JsonView::String(description),
    )
}

/// The schema of the arguments of the tool.
pub open spec fn completion_schema() -> JsonView {
    let result = text_property(
        "Your response to the user \u{2014} what was accomplished or your conversational reply"@,
    );
    let status = text_property("Completion status: 'success', 'partial', or 'failed'"@).insert(
        "enum"@,
        JsonView::Array(
            valid_statuses().map_values(|s: Seq<char>| JsonView::String(s)),
        ),
    ).insert("default"@, JsonView::String("success"@));
    JsonView::Object(
        Map::empty().insert("type"@, JsonView::String("object"@)).insert(
            "properties"@,
            JsonView::Object(
                Map::empty().insert("result"@, JsonView::Object(result)).insert(
                    "status"@,
                    JsonView::Object(status),
                ),
            ),
        ).insert("required"@, JsonView::Array(seq![JsonView::String("result"@)])),
    )
}

/// The statuses with which a task can be completed.
fn statuses() -> (r: Vec<String>)
    ensures
        text::texts(r@) == valid_statuses(),
{
    let mut r: Vec<String> = Vec::new();
    r.push("success".to_owned());
    r.push("partial".to_owned());
    r.push("failed".to_owned());
    proof {
        assert(text::texts(r@) =~= valid_statuses());
    }
    r
}

fn is_valid_status(status: &str) -> (r: bool)
    ensures
        r == valid_statuses().contains(status@),
{
    proof {
        assert(valid_statuses()[0] == "success"@);
        assert(valid_statuses()[1] == "partial"@);
        assert(valid_statuses()[2] == "failed"@);
    }
    str_eq(status, "success") || str_eq(status, "partial") || str_eq(status, "failed")
}

fn build_text_property(description: &str) -> (r: StrMap<Json>)
    ensures
        json::object_view(r) == text_property(description@),
{
    let mut r: StrMap<Json> = StrMap::new();
    r.set_member("type", Json::text("string"));
    r.set_member("description", Json::text(description));
    r
}

/// The tool that signals the completion of a task.
#[derive(Debug)]
pub struct TaskCompleteTool;

impl TaskCompleteTool {
    /// The name of the tool.
    pub fn name(&self) -> (r: &str)
        ensures
            r@ == "task_complete"@,
    {
        "task_complete"
    }

    /// What the tool is for.
    pub fn description(&self) -> (r: &str)
        ensures
            r@ == "Call this tool when you have completed the user's request. You MUST call this tool to end the conversation. Provide your response to the user in the result parameter."@,
    {
        "Call this tool when you have completed the user's request. You MUST call this tool to end the conversation. Provide your response to the user in the result parameter."
    }

    /// The schema of the arguments of the tool.
    pub fn parameter_schema(&self) -> (r: Json)
        ensures
            r@ == completion_schema(),
    {
        let result = build_text_property(
            "Your response to the user \u{2014} what was accomplished or your conversational reply",
        );
        let mut status = build_text_property("Completion status: 'success', 'partial', or 'failed'");
        let mut choices: Vec<Json> = Vec::new();
        choices.push(Json::text("success"));
        choices.push(Json::text("partial"));
        choices.push(Json::text("failed"));
        let mut required: Vec<Json> = Vec::new();
        required.push(Json::text("result"));
        proof {
            json::lemma_array_view(choices@);
            json::lemma_array_view(required@);
            assert(json::array_view(choices@) =~= valid_statuses().map_values(
                |s: Seq<char>| JsonView::String(s),
            ));
            assert(json::array_view(required@) =~= seq![JsonView::String("result"@)]);
        }
        status.set_member("enum", Json::Array(choices));
        status.set_member("default", Json::text("success"));
        let mut properties: StrMap<Json> = StrMap::new();
        properties.set_member("result", Json::Object(result));
        properties.set_member("status", Json::Object(status));
        let mut schema: StrMap<Json> = StrMap::new();
        schema.set_member("type", Json::text("object"));
        schema.set_member("properties", Json::Object(properties));
        schema.set_member("required", Json::Array(required));
        Json::Object(schema)
    }

    /// Complete the task.
    ///
    /// The summary is required; the status is `success` where none is given.
    pub fn execute(&self, args: &StrMap<Json>) -> (r: ToolResult)
        ensures
            r@ == completion(json::object_view(*args)),
            r.success ==> JsonView::Object(r@.metadata).get_text("status"@) == Some(
                match JsonView::Object(json::object_view(*args)).get_text("status"@) {
                    Some(status) => status,
                    None => "success"@,
                },
            ),
    {
        proof {
            lemma_fact_names();
        }
        let given = match args.member("result") {
            Some(value) => Some(value),
            None => args.member("summary"),
        };
        let summary = match given {
            Some(value) => match value.as_str() {
                Some(s) => trim(s),
                None => "",
            },
            None => "",
        };
        proof {
            reveal_strlit("");
        }
        if summary.is_empty() {
            return ToolResult::fail("Result is required for task_complete".to_owned());
        }
        let status = match args.member("status") {
            Some(value) => match value.as_str() {
                Some(s) => s,
                None => "success",
            },
            None => "success",
        };
        if !is_valid_status(status) {
            let choices = join(&statuses(), ", ");
            let front = concat3("Invalid status '", status, "'. Must be one of: ");
            return ToolResult::fail(concat2(front.as_str(), choices.as_str()));
        }
        let front = concat3("Task completed (", status, "): ");
        let output = concat2(front.as_str(), summary);
        let mut metadata: StrMap<Json> = StrMap::new();
        metadata.set_member("_completion", Json::Bool(true));
        metadata.set_member("summary", Json::text(summary));
        metadata.set_member("status", Json::text(status));
        ToolResult::ok_with_metadata(output, metadata)
    }
}

/// A completed task carries its mark, its trimmed summary and a status from the list.
pub proof fn law_completion_is_marked(args: Map<Seq<char>, JsonView>)
    requires
        completion(args).success,
    ensures
        ({
            let facts = JsonView::Object(completion(args).metadata);
            &&& facts.get("_completion"@) == Some(JsonView::Bool(true))
            &&& facts.get_text("summary"@) matches Some(summary) && summary.len() > 0
                && summary_argument(args) is Some && summary
                == text::trimmed(summary_argument(args)->Some_0)
            &&& facts.get_text("status"@) matches Some(status) && valid_statuses().contains(status)
        }),
{
    reveal_strlit("_completion");
    reveal_strlit("summary");
    reveal_strlit("status");
    assert("_completion"@.len() == 11);
    assert("summary"@.len() == 7);
    assert("status"@.len() == 6);
}

/// Without a status, a task with a summary is completed with success.
pub proof fn law_status_defaults_to_success(args: Map<Seq<char>, JsonView>)
    requires
        JsonView::Object(args).get_text("status"@) is None,
        summary_argument(args) matches Some(given) && text::trimmed(given).len() > 0,
    ensures
        completion(args).success,
        JsonView::Object(completion(args).metadata).get_text("status"@) == Some("success"@),
{
    assert(valid_statuses()[0] == "success"@);
}

proof fn lemma_fact_names()
    ensures
        "_completion"@ != "summary"@,
        "_completion"@ != "status"@,
        "summary"@ != "status"@,
{
    reveal_strlit("_completion");
    reveal_strlit("summary");
    reveal_strlit("status");
    assert("_completion"@.len() == 11);
    assert("summary"@.len() == 7);
    assert("status"@.len() == 6);
}

proof fn lemma_status_choices()
    ensures
        text::joined(valid_statuses(), ", "@) == "success, partial, failed"@,
{
    reveal_strlit(", ");
    reveal_strlit("success");
    reveal_strlit("partial");
    reveal_strlit("failed");
    reveal_strlit("success, partial, failed");
    let all = valid_statuses();
    let two = all.drop_last();
    let one = two.drop_last();
    assert(one =~= seq!["success"@]);
    assert(text::joined(one, ", "@) =~= "success"@);
    assert(text::joined(two, ", "@) =~= "success"@ + ", "@ + "partial"@);
    assert(text::joined(all, ", "@) =~= "success"@ + ", "@ + "partial"@ + ", "@ + "failed"@);
    assert("success"@ + ", "@ + "partial"@ + ", "@ + "failed"@ =~= "success, partial, failed"@);
}

/// A completed task tells the status that was handed in, success where none was, and the summary
/// without the white space around it, and nothing but these two and the mark.
pub proof fn law_completion_tells_what_was_handed_in(
    args: Map<Seq<char>, JsonView>,
    key: Seq<char>,
)
    requires
        completion(args).success,
    ensures
        ({
            let given = JsonView::Object(args);
            let done = completion(args);
            let facts = JsonView::Object(done.metadata);
            let handed_in = if given.get("result"@) is Some {
                given.get_text("result"@)
            } else {
                given.get_text("summary"@)
            };
            &&& given.get_text("status"@) matches Some(status) ==> facts.get_text("status"@)
                == Some(status)
            &&& given.get_text("status"@) is None ==> facts.get_text("status"@) == Some(
                "success"@,
            )
            &&& handed_in is Some
            &&& facts.get_text("summary"@) == Some(text::trimmed(handed_in->Some_0))
            &&& facts.get("_completion"@) == Some(JsonView::Bool(true))
            &&& key != "_completion"@ && key != "summary"@ && key != "status"@ ==> facts.get(
                key,
            ) is None
            &&& done.error is None
            &&& done.output == Some(
                "Task completed ("@ + facts.get_text("status"@)->Some_0 + "): "@ + facts.get_text(
                    "summary"@,
                )->Some_0,
            )
        }),
{
    lemma_fact_names();
}

/// A task is completed exactly where the summary is more than white space and the status, if one
/// is handed in, is one of the three. Otherwise the failure says what is wrong, the summary
/// first, and carries no facts.
pub proof fn law_completion_is_refused_by_name(args: Map<Seq<char>, JsonView>)
    ensures
        ({
            let given = JsonView::Object(args);
            let done = completion(args);
            let handed_in = if given.get("result"@) is Some {
                given.get_text("result"@)
            } else {
                given.get_text("summary"@)
            };
            let told = handed_in matches Some(summary) && text::trimmed(summary).len() > 0;
            let status = given.get_text("status"@);
            let known = status is None || status == Some("success"@) || status == Some("partial"@)
                || status == Some("failed"@);
            &&& done.success <==> told && known
            &&& !done.success ==> done.output is None && done.metadata.dom().is_empty()
            &&& !told ==> done.error == Some("Result is required for task_complete"@)
            &&& told && !known ==> done.error == Some(
                "Invalid status '"@ + status->Some_0
                    + "'. Must be one of: "@ + "success, partial, failed"@,
            )
        }),
{
    lemma_status_choices();
    assert(valid_statuses()[0] == "success"@);
    assert(valid_statuses()[1] == "partial"@);
    assert(valid_statuses()[2] == "failed"@);
}

proof fn lemma_schema_names()
    ensures
        "type"@ != "description"@,
        "type"@ != "enum"@,
        "type"@ != "default"@,
        "description"@ != "enum"@,
        "description"@ != "default"@,
        "enum"@ != "default"@,
        "type"@ != "properties"@,
        "type"@ != "required"@,
        "properties"@ != "required"@,
        "result"@ != "status"@,
{
    reveal_strlit("type");
    reveal_strlit("description");
    reveal_strlit("enum");
    reveal_strlit("default");
    reveal_strlit("properties");
    reveal_strlit("required");
    reveal_strlit("result");
    reveal_strlit("status");
    assert("type"@.len() == 4 && "type"@[0] == 't');
    assert("description"@.len() == 11);
    assert("enum"@.len() == 4 && "enum"@[0] == 'e');
    assert("default"@.len() == 7);
    assert("properties"@.len() == 10);
    assert("required"@.len() == 8);
    assert("result"@.len() == 6 && "result"@[0] == 'r');
    assert("status"@.len() == 6 && "status"@[0] == 's');
}

/// The schema describes an object with two texts: the result, which is required, and the status,
/// which is success where it is left out.
pub proof fn law_schema_describes_the_arguments(key: Seq<char>)
    ensures
        ({
            let schema = completion_schema();
            &&& schema.get_text("type"@) == Some("object"@)
            &&& schema.get("required"@) == Some(
                JsonView::Array(seq![JsonView::String("result"@)]),
            )
            &&& schema.get("properties"@) matches Some(properties) && {
                &&& properties.get("result"@) matches Some(result) && result.get_text("type"@)
                    == Some("string"@) && result.get_text("description"@) == Some(
                    "Your response to the user \u{2014} what was accomplished or your conversational reply"@,
                ) && result.get("enum"@) is None && result.get("default"@) is None
                &&& properties.get("status"@) matches Some(status) && status.get_text("type"@)
                    == Some("string"@) && status.get_text("description"@) == Some(
                    "Completion status: 'success', 'partial', or 'failed'"@,
                ) && status.get_text("default"@) == Some("success"@)
                &&& key != "result"@ && key != "status"@ ==> properties.get(key) is None
            }
            &&& key != "type"@ && key != "required"@ && key != "properties"@ ==> schema.get(
                key,
            ) is None
        }),
{
    lemma_schema_names();
}

/// With a summary, a status completes a task exactly where the schema offers it.
pub proof fn law_schema_offers_what_completes(
    args: Map<Seq<char>, JsonView>,
    summary: Seq<char>,
    status: Seq<char>,
)
    requires
        JsonView::Object(args).get_text("result"@) == Some(summary),
        text::trimmed(summary).len() > 0,
        JsonView::Object(args).get_text("status"@) == Some(status),
    ensures
        completion_schema().get("properties"@) matches Some(properties) && properties.get(
            "status"@,
        ) matches Some(property) && property.get("enum"@) matches Some(JsonView::Array(choices))
            && (completion(args).success <==> choices.contains(JsonView::String(status)))
            && choices.len() == 3,
{
    lemma_schema_names();
    let choices = valid_statuses().map_values(|s: Seq<char>| JsonView::String(s));
    if completion(args).success {
        let i = choose|i: int| 0 <= i < 3 && valid_statuses()[i] == status;
        assert(choices[i] == JsonView::String(status));
    }
    if choices.contains(JsonView::String(status)) {
        let i = choose|i: int| 0 <= i < 3 && choices[i] == JsonView::String(status);
        assert(valid_statuses()[i] == status);
    }
}

/// What a result says is what its fields hold: a success its output and facts, a failure its
/// error.
pub proof fn law_result_says_its_fields(
    result: ToolResult,
    text: Seq<char>,
    facts: Map<Seq<char>, JsonView>,
)
    ensures
        result@.success == result.success,
        result@.output == text::string_chars(result.output),
        result@.error == text::string_chars(result.error),
        result@.metadata == json::object_view(result.metadata),
        ToolResultView::succeeded(text, facts).success,
        ToolResultView::succeeded(text, facts).output == Some(text),
        ToolResultView::succeeded(text, facts).error is None,
        ToolResultView::succeeded(text, facts).metadata == facts,
        !ToolResultView::failed(text).success,
        ToolResultView::failed(text).output is None,
        ToolResultView::failed(text).error == Some(text),
        ToolResultView::failed(text).metadata.dom().is_empty(),
{
}

} // verus!
