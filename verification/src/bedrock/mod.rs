//! Adapter for Amazon Bedrock's `InvokeModel` interface.
//!
//! Bedrock takes the model in the address of the request, and the messages in the form of
//! Anthropic's models: the system prompt in a field of its own, tool calls and tool results as
//! content blocks.

pub mod request;

use crate::json::{Json, JsonView};
use crate::text::concat3;
use request::{
    convert_tool_messages, convert_tools, drop_member, ensure_max_tokens, extract_system,
    put_member,
};
use vstd::prelude::*;

verus! {

/// The region that is used where the environment names none.
pub const DEFAULT_REGION: &'static str = "us-east-1";

/// The version that Bedrock asks for in requests to Anthropic's models.
pub const ANTHROPIC_VERSION: &'static str = "bedrock-2023-05-31";

/// The address under which a region serves a model.
pub open spec fn endpoint(region: Seq<char>, model_id: Seq<char>) -> Seq<char> {
    "https://bedrock-runtime."@ + region + ".amazonaws.com/model/"@ + model_id + "/invoke"@
}

/// The headers of a request: name and value.
pub open spec fn json_headers() -> Seq<(Seq<char>, Seq<char>)> {
    seq![("Content-Type"@, "application/json"@), ("Accept"@, "application/json"@)]
}

/// The characters of a list of headers.
pub open spec fn headers_view(headers: Seq<(String, String)>) -> Seq<(Seq<char>, Seq<char>)> {
    headers.map_values(|h: (String, String)| (h.0@, h.1@))
}

/// The payload without a member.
pub open spec fn without(payload: JsonView, key: Seq<char>) -> JsonView {
    match payload {
        JsonView::Object(members) => JsonView::Object(members.remove(key)),
        other => other,
    }
}

/// The payload without the fields that Bedrock does not accept.
pub open spec fn without_unsupported(payload: JsonView) -> JsonView {
    without(
        without(
            without(
                without(without(without(payload, "model"@), "n"@), "frequency_penalty"@),
                "presence_penalty"@,
            ),
            "logprobs"@,
        ),
        "stream"@,
    )
}

/// The request that Bedrock takes for a chat-completion payload.
pub open spec fn bedrock_request(payload: JsonView) -> JsonView {
    let plain = without(payload, "_reasoning_effort"@);
    let messages = request::tool_messages_converted(
        request::tools_converted(request::system_extracted(plain)),
    );
    let limited = without_unsupported(request::max_tokens_ensured(messages));
    JsonView::Object(
        request::members_or_none(limited).insert(
            "anthropic_version"@,
            JsonView::String(ANTHROPIC_VERSION@),
        ),
    )
}

/// Adapter for Amazon Bedrock.
#[derive(Debug)]
pub struct BedrockAdapter {
    region: String,
    model_id: String,
    api_url: String,
}

impl BedrockAdapter {
    /// The region of the adapter.
    pub closed spec fn region_chars(&self) -> Seq<char> {
        self.region@
    }

    /// The model of the adapter.
    pub closed spec fn model_chars(&self) -> Seq<char> {
        self.model_id@
    }

    #[verifier::type_invariant]
    spec fn url_belongs_to_region_and_model(&self) -> bool {
        self.api_url@ == endpoint(self.region@, self.model_id@)
    }

    /// An adapter for a model in the region that the environment names.
    ///
    /// `region_setting` is the value of `AWS_REGION`, where it is set.
    pub fn new(model_id: &str, region_setting: Option<&str>) -> (r: Self)
        ensures
            r.model_chars() == model_id@,
            r.region_chars() == match region_setting {
                Some(region) => region@,
                None => DEFAULT_REGION@,
            },
            region_setting is None ==> r.region_chars() == "us-east-1"@,
    {
        match region_setting {
            Some(region) => Self::with_region(model_id, region),
            None => Self::with_region(model_id, DEFAULT_REGION),
        }
    }

    /// An adapter for a model in a region.
    pub fn with_region(model_id: &str, region: &str) -> (r: Self)
        ensures
            r.model_chars() == model_id@,
            r.region_chars() == region@,
    {
        let api_url = Self::build_url(region, model_id);
        BedrockAdapter { region: region.to_owned(), model_id: model_id.to_owned(), api_url }
    }

    /// The address under which a region serves a model.
    pub fn build_url(region: &str, model_id: &str) -> (r: String)
        ensures
            r@ == endpoint(region@, model_id@),
            r@ == "https://bedrock-runtime."@ + region@ + ".amazonaws.com/model/"@ + model_id@
                + "/invoke"@,
    {
        let host = concat3("https://bedrock-runtime.", region, ".amazonaws.com/model/");
        concat3(host.as_str(), model_id, "/invoke")
    }

    /// The region of the adapter.
    pub fn region(&self) -> (r: &str)
        ensures
            r@ == self.region_chars(),
    {
        self.region.as_str()
    }

    /// The model of the adapter.
    pub fn model_id(&self) -> (r: &str)
        ensures
            r@ == self.model_chars(),
    {
        self.model_id.as_str()
    }

    /// The address that requests go to.
    pub fn api_url(&self) -> (r: &str)
        ensures
            r@ == endpoint(self.region_chars(), self.model_chars()),
    {
        proof {
            use_type_invariant(self);
        }
        self.api_url.as_str()
    }

    /// The name of the provider.
    pub fn provider_name(&self) -> (r: &str)
        ensures
            r@ == "bedrock"@,
    {
        "bedrock"
    }

    /// The headers that requests carry besides the standard ones.
    pub fn extra_headers(&self) -> (r: Vec<(String, String)>)
        ensures
            headers_view(r@) == json_headers(),
            r@.len() == 2,
            r@[0].0@ == "Content-Type"@ && r@[0].1@ == "application/json"@,
            r@[1].0@ == "Accept"@ && r@[1].1@ == "application/json"@,
    {
        let mut headers: Vec<(String, String)> = Vec::new();
        headers.push(("Content-Type".to_owned(), "application/json".to_owned()));
        headers.push(("Accept".to_owned(), "application/json".to_owned()));
        proof {
            assert(headers_view(headers@) =~= json_headers());
        }
        headers
    }

    /// The headers that sign a payload. Requests are not signed yet, so there are none.
    pub fn sigv4_headers(&self, _payload: &[u8]) -> (r: Vec<(String, String)>)
        ensures
            r@.len() == 0,
    {
        Vec::new()
    }

    /// The request that Bedrock takes for a chat-completion payload.
    ///
    /// The payload is an object, or a null, which stands for an empty one.
    pub fn convert_request(&self, payload: Json) -> (r: Json)
        requires
            payload@ is Object || payload@ is Null,
        ensures
            r@ == bedrock_request(payload@),
    {
        let mut payload = payload;
        drop_member(&mut payload, "_reasoning_effort");
        extract_system(&mut payload);
        convert_tools(&mut payload);
        convert_tool_messages(&mut payload);
        ensure_max_tokens(&mut payload);
        drop_member(&mut payload, "model");
        drop_member(&mut payload, "n");
        drop_member(&mut payload, "frequency_penalty");
        drop_member(&mut payload, "presence_penalty");
        drop_member(&mut payload, "logprobs");
        drop_member(&mut payload, "stream");
        put_member(&mut payload, "anthropic_version", Json::text(ANTHROPIC_VERSION));
        payload
    }
}

impl Clone for BedrockAdapter {
    fn clone(&self) -> (r: Self)
        ensures
            r.region_chars() == self.region_chars(),
            r.model_chars() == self.model_chars(),
    {
        Self::with_region(self.model_id.as_str(), self.region.as_str())
    }
}

/// Whether Bedrock does not accept a field.
pub open spec fn is_unsupported(key: Seq<char>) -> bool {
    ||| key == "model"@
    ||| key == "n"@
    ||| key == "frequency_penalty"@
    ||| key == "presence_penalty"@
    ||| key == "logprobs"@
    ||| key == "stream"@
    ||| key == "_reasoning_effort"@
}

/// Whether the conversion of a request writes or moves a field.
pub open spec fn is_rewritten(key: Seq<char>) -> bool {
    ||| key == "messages"@
    ||| key == "system"@
    ||| key == "tools"@
    ||| key == "max_tokens"@
    ||| key == "max_completion_tokens"@
    ||| key == "anthropic_version"@
}

proof fn lemma_fields_differ()
    ensures
        !is_unsupported("anthropic_version"@),
        !is_unsupported("max_tokens"@),
        !is_unsupported("messages"@),
        !is_unsupported("system"@),
        !is_unsupported("tools"@),
        !is_unsupported("max_completion_tokens"@),
        "max_tokens"@ != "anthropic_version"@,
        "max_tokens"@ != "messages"@,
        "max_tokens"@ != "system"@,
        "max_tokens"@ != "tools"@,
        "max_tokens"@ != "max_completion_tokens"@,
        "messages"@ != "anthropic_version"@,
        "messages"@ != "system"@,
        "messages"@ != "tools"@,
        "messages"@ != "max_completion_tokens"@,
        "system"@ != "anthropic_version"@,
        "system"@ != "max_completion_tokens"@,
        "system"@ != "tools"@,
{
    reveal_strlit("model");
    reveal_strlit("n");
    reveal_strlit("frequency_penalty");
    reveal_strlit("presence_penalty");
    reveal_strlit("logprobs");
    reveal_strlit("stream");
    reveal_strlit("_reasoning_effort");
    reveal_strlit("messages");
    reveal_strlit("system");
    reveal_strlit("tools");
    reveal_strlit("max_tokens");
    reveal_strlit("max_completion_tokens");
    reveal_strlit("anthropic_version");
    assert("model"@.len() == 5 && "model"@[0] == 'm');
    assert("n"@.len() == 1);
    assert("frequency_penalty"@.len() == 17 && "frequency_penalty"@[0] == 'f');
    assert("presence_penalty"@.len() == 16);
    assert("logprobs"@.len() == 8 && "logprobs"@[0] == 'l');
    assert("stream"@.len() == 6 && "stream"@[1] == 't');
    assert("_reasoning_effort"@.len() == 17 && "_reasoning_effort"@[0] == '_');
    assert("messages"@.len() == 8 && "messages"@[0] == 'm');
    assert("system"@.len() == 6 && "system"@[1] == 'y');
    assert("tools"@.len() == 5 && "tools"@[0] == 't');
    assert("max_tokens"@.len() == 10);
    assert("max_completion_tokens"@.len() == 21);
    assert("anthropic_version"@.len() == 17 && "anthropic_version"@[0] == 'a');
}

/// A converted request carries the version, a limit on the tokens, and no field that Bedrock
/// does not accept.
pub proof fn law_request_is_acceptable(payload: JsonView, key: Seq<char>)
    requires
        payload is Object || payload is Null,
        is_unsupported(key),
    ensures
        bedrock_request(payload).get("anthropic_version"@) == Some(
            JsonView::String(ANTHROPIC_VERSION@),
        ),
        bedrock_request(payload).get("max_tokens"@) is Some,
        bedrock_request(payload).get(key) is None,
{
    lemma_fields_differ();
}

/// A limit on the tokens that the payload carries is the limit of the converted request.
pub proof fn law_request_keeps_max_tokens(payload: JsonView)
    requires
        payload is Object || payload is Null,
        payload.get("max_tokens"@) is Some,
    ensures
        bedrock_request(payload).get("max_tokens"@) == payload.get("max_tokens"@),
{
    lemma_fields_differ();
}

/// Without a limit of its own, a request takes the one under the newer name, or 4096.
pub proof fn law_request_limits_tokens(payload: JsonView)
    requires
        payload is Object || payload is Null,
        payload.get("max_tokens"@) is None,
    ensures
        bedrock_request(payload).get("max_completion_tokens"@) is None,
        bedrock_request(payload).get("max_tokens"@) == match payload.get(
            "max_completion_tokens"@,
        ) {
            Some(limit) => Some(limit),
            None => Some(JsonView::Number(crate::json::JsonNumber::PosInt(4096))),
        },
{
    lemma_fields_differ();
    reveal_strlit("max_completion_tokens");
    reveal_strlit("tools");
    reveal_strlit("anthropic_version");
    assert("max_completion_tokens"@.len() == 21);
    assert("tools"@.len() == 5);
    assert("anthropic_version"@.len() == 17);
}

/// The fields that the conversion has no business with stay as they are.
pub proof fn law_request_keeps_other_fields(payload: JsonView, key: Seq<char>)
    requires
        payload is Object || payload is Null,
        !is_unsupported(key),
        !is_rewritten(key),
    ensures
        bedrock_request(payload).get(key) == payload.get(key),
{
}

/// The messages of a converted request are those of the payload without the system messages,
/// each converted in its turn.
pub proof fn law_request_messages(payload: JsonView, messages: Seq<JsonView>)
    requires
        payload.get("messages"@) == Some(JsonView::Array(messages)),
    ensures
        bedrock_request(payload).get("messages"@) == Some(
            JsonView::Array(request::messages_converted(request::without_system(messages))),
        ),
{
    lemma_fields_differ();
}

/// None of the fields that Bedrock does not accept is left in a converted request, and it names
/// the version that Bedrock asks for.
pub proof fn law_request_has_no_foreign_field(payload: JsonView)
    requires
        payload is Object || payload is Null,
    ensures
        bedrock_request(payload).get("model"@) is None,
        bedrock_request(payload).get("n"@) is None,
        bedrock_request(payload).get("frequency_penalty"@) is None,
        bedrock_request(payload).get("presence_penalty"@) is None,
        bedrock_request(payload).get("logprobs"@) is None,
        bedrock_request(payload).get("stream"@) is None,
        bedrock_request(payload).get("_reasoning_effort"@) is None,
        bedrock_request(payload).get_text("anthropic_version"@) == Some("bedrock-2023-05-31"@),
{
    law_request_is_acceptable(payload, "model"@);
    law_request_is_acceptable(payload, "n"@);
    law_request_is_acceptable(payload, "frequency_penalty"@);
    law_request_is_acceptable(payload, "presence_penalty"@);
    law_request_is_acceptable(payload, "logprobs"@);
    law_request_is_acceptable(payload, "stream"@);
    law_request_is_acceptable(payload, "_reasoning_effort"@);
}

/// Every field that is neither removed nor rewritten is the same before and after.
pub proof fn law_request_changes_named_fields_only(payload: JsonView, key: Seq<char>)
    requires
        payload is Object || payload is Null,
        bedrock_request(payload).get(key) != payload.get(key),
    ensures
        key == "model"@ || key == "n"@ || key == "frequency_penalty"@ || key
            == "presence_penalty"@ || key == "logprobs"@ || key == "stream"@ || key
            == "_reasoning_effort"@ || key == "messages"@ || key == "system"@ || key == "tools"@
            || key == "max_tokens"@ || key == "max_completion_tokens"@ || key
            == "anthropic_version"@,
{
}

/// The texts of the system messages make up the system prompt of a converted request; without
/// any, the prompt of the payload is its prompt.
pub proof fn law_request_takes_the_system_prompt(payload: JsonView, messages: Seq<JsonView>)
    requires
        payload.get("messages"@) == Some(JsonView::Array(messages)),
    ensures
        ({
            let parts = request::system_parts(messages);
            &&& parts.len() > 0 ==> bedrock_request(payload).get_text("system"@) == Some(
                crate::text::joined(parts, "\n\n"@),
            )
            &&& parts.len() == 0 ==> bedrock_request(payload).get("system"@) == payload.get(
                "system"@,
            )
        }),
{
    lemma_fields_differ();
}

/// Messages that are no list, and a system prompt beside them, stay as they are.
pub proof fn law_request_without_messages_keeps_them(payload: JsonView)
    requires
        payload is Object || payload is Null,
        !(payload.get("messages"@) matches Some(JsonView::Array(_))),
    ensures
        bedrock_request(payload).get("messages"@) == payload.get("messages"@),
        bedrock_request(payload).get("system"@) == payload.get("system"@),
{
    lemma_fields_differ();
}

proof fn lemma_tools_key()
    ensures
        "tools"@ != "anthropic_version"@,
        "tools"@ != "max_completion_tokens"@,
        "_reasoning_effort"@ != "tools"@,
{
    reveal_strlit("tools");
    reveal_strlit("anthropic_version");
    reveal_strlit("max_completion_tokens");
    reveal_strlit("_reasoning_effort");
    assert("tools"@.len() == 5);
    assert("anthropic_version"@.len() == 17);
    assert("max_completion_tokens"@.len() == 21);
    assert("_reasoning_effort"@.len() == 17);
}

/// The tools of a converted request are those of the payload, converted.
pub proof fn law_request_converts_the_tools(payload: JsonView)
    requires
        payload is Object || payload is Null,
    ensures
        bedrock_request(payload).get("tools"@) == request::tools_converted(payload).get("tools"@),
{
    lemma_fields_differ();
    lemma_tools_key();
}

/// What a tool answered reaches the request: the last block of its last message holds the
/// identifier and the text of a tool message that ends the payload.
pub proof fn law_request_ends_in_the_last_result(
    payload: JsonView,
    messages: Seq<JsonView>,
    message: JsonView,
)
    requires
        payload.get("messages"@) == Some(JsonView::Array(messages.push(message))),
        message.get_text("role"@) == Some("tool"@),
    ensures
        ({
            &&& bedrock_request(payload).get("messages"@) matches Some(JsonView::Array(done))
            &&& done.len() > 0
            &&& done.last().get_text("role"@) == Some("user"@)
            &&& done.last().get("content"@) matches Some(JsonView::Array(blocks))
            &&& blocks.len() > 0
            &&& blocks.last().get_text("type"@) == Some("tool_result"@)
            &&& message.get("tool_call_id"@) is Some ==> blocks.last().get("tool_use_id"@)
                == message.get("tool_call_id"@)
            &&& message.get_text("content"@) is Some ==> blocks.last().get_text("content"@)
                == message.get_text("content"@)
        }),
{
    law_request_messages(payload, messages.push(message));
    request::law_system_texts_are_collected(messages, message);
    reveal_strlit("tool");
    reveal_strlit("system");
    assert("tool"@.len() == 4);
    assert("system"@.len() == 6);
    request::law_tool_message_is_the_last_block(request::without_system(messages), message);
}

/// The address of a model names its region and the model, and no two models of a region share
/// one.
pub proof fn law_addresses_tell_models_apart(
    region: Seq<char>,
    model_id: Seq<char>,
    other: Seq<char>,
)
    ensures
        endpoint(region, model_id) == "https://bedrock-runtime."@ + region
            + ".amazonaws.com/model/"@ + model_id + "/invoke"@,
        endpoint(region, model_id) == endpoint(region, other) ==> model_id == other,
{
    let front = "https://bedrock-runtime."@ + region + ".amazonaws.com/model/"@;
    let a = endpoint(region, model_id);
    let b = endpoint(region, other);
    if a == b {
        assert(model_id =~= a.subrange(front.len() as int, a.len() - "/invoke"@.len()));
        assert(other =~= b.subrange(front.len() as int, b.len() - "/invoke"@.len()));
    }
}

/// Requests carry JSON and ask for JSON.
pub proof fn law_headers_speak_json(i: int)
    requires
        0 <= i < json_headers().len(),
    ensures
        json_headers().len() == 2,
        json_headers()[i].1 == "application/json"@,
        json_headers()[0].0 == "Content-Type"@,
        json_headers()[1].0 == "Accept"@,
{
}

} // verus!
