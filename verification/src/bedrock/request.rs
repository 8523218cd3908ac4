//! Turning chat-completion requests into Bedrock requests.

use crate::json;
use crate::json::{Json, JsonNumber, JsonView};
use crate::parse;
use crate::strmap::StrMap;
use crate::text;
use crate::text::{join, opt_str_eq};
use vstd::prelude::*;

verus! {

// ---------------------------------------------------------------------------
// System messages
// ---------------------------------------------------------------------------

/// Whether a message is a system message.
pub open spec fn is_system(message: JsonView) -> bool {
    message.get_text("role"@) == Some("system"@)
}

/// The text of a system message, where the message is one and has a text.
pub open spec fn system_text(message: JsonView) -> Option<Seq<char>> {
    if is_system(message) {
        message.get_text("content"@)
    } else {
        None
    }
}

/// The messages that are no system messages, in their order.
pub open spec fn without_system(messages: Seq<JsonView>) -> Seq<JsonView> {
    messages.filter(|m: JsonView| !is_system(m))
}

/// The texts of the system messages, in their order.
pub open spec fn system_parts(messages: Seq<JsonView>) -> Seq<Seq<char>> {
    messages.filter_map(|m: JsonView| system_text(m))
}

/// The members with the system messages taken out of the messages and put under their own key.
pub open spec fn system_extracted(payload: JsonView) -> JsonView {
    match (payload, payload.get("messages"@)) {
        (JsonView::Object(members), Some(JsonView::Array(messages))) => {
            let kept = members.insert("messages"@, JsonView::Array(without_system(messages)));
            let parts = system_parts(messages);
            if parts.len() > 0 {
                JsonView::Object(
                    kept.insert("system"@, JsonView::String(text::joined(parts, "\n\n"@))),
                )
            } else {
                JsonView::Object(kept)
            }
        },
        _ => payload,
    }
}

/// The messages that are no system messages, and the texts of those that are.
fn split_system(messages: Vec<Json>) -> (r: (Vec<Json>, Vec<String>))
    ensures
        json::array_view(r.0@) == without_system(json::array_view(messages@)),
        text::texts(r.1@) == system_parts(json::array_view(messages@)),
{
    let ghost all = json::array_view(messages@);
    let ghost given = messages@;
    proof {
        json::lemma_array_view(given);
    }
    let mut kept: Vec<Json> = Vec::new();
    let mut parts: Vec<String> = Vec::new();
    for message in it: messages
        invariant
            it.seq() == given,
            all == json::array_view(given),
            all.len() == given.len(),
            forall|i: int| 0 <= i < given.len() ==> #[trigger] all[i] == given[i]@,
            json::array_view(kept@) == without_system(all.take(it.index())),
            text::texts(parts@) == system_parts(all.take(it.index())),
    {
        let ghost i = it.index();
        let ghost kept_before = kept@;
        let ghost parts_before = parts@;
        proof {
            assert(all[i] == message@);
            all.take(i).lemma_filter_push(all[i], |m: JsonView| !is_system(m));
            all.lemma_filter_map_take_succ(|m: JsonView| system_text(m), i);
            assert(all.take(i + 1) =~= all.take(i).push(all[i]));
        }
        if opt_str_eq(message.get_str("role"), "system") {
            if let Some(content) = message.get_str("content") {
                parts.push(content.to_owned());
                proof {
                    assert(text::texts(parts@) =~= text::texts(parts_before).push(content@));
                }
            }
        } else {
            kept.push(message);
            proof {
                assert(kept@.drop_last() =~= kept_before);
            }
        }
    }
    proof {
        assert(all.take(all.len() as int) =~= all);
    }
    (kept, parts)
}

/// Move the system messages out of the messages into a field of their own.
pub fn extract_system(payload: &mut Json)
    ensures
        final(payload)@ == system_extracted(old(payload)@),
{
    match payload {
        Json::Object(members) => {
            let ghost before = json::object_view(*members);
            match members.take_member("messages") {
                Some(Json::Array(messages)) => {
                    let (kept, parts) = split_system(messages);
                    members.set_member("messages", Json::Array(kept));
                    proof {
                        assert(before.remove("messages"@).insert("messages"@, Json::Array(kept)@) =~= before.insert("messages"@, Json::Array(kept)@));
                    }
                    if parts.len() > 0 {
                        let combined = join(&parts, "\n\n");
                        members.set_member("system", Json::String(combined));
                    }
                },
                Some(other) => {
                    members.set_member("messages", other);
                    proof {
                        assert(before.remove("messages"@).insert("messages"@, other@) =~= before);
                    }
                },
                None => {
                    proof {
                        assert(before.remove("messages"@) =~= before);
                    }
                },
            }
        },
        _ => {},
    }
}

// ---------------------------------------------------------------------------
// Tool schemas
// ---------------------------------------------------------------------------

/// The member under a key, or another value where there is none.
pub open spec fn member_or(value: JsonView, key: Seq<char>, otherwise: JsonView) -> JsonView {
    match value.get(key) {
        Some(member) => member,
        None => otherwise,
    }
}

/// A copy of the member under `key`, or another value where there is none.
fn copied_or(value: &Json, key: &str, otherwise: Json) -> (r: Json)
    ensures
        r@ == member_or(value@, key@, otherwise@),
{
    match value.get(key) {
        Some(member) => member.copied(),
        None => otherwise,
    }
}

/// The schema of a tool without parameters.
pub open spec fn empty_schema() -> JsonView {
    JsonView::Object(
        Map::empty().insert("type"@, JsonView::String("object"@)).insert(
            "properties"@,
            JsonView::Object(Map::empty()),
        ),
    )
}

/// A tool in the form that Bedrock takes; nothing for a tool without a function or a name.
pub open spec fn bedrock_tool(tool: JsonView) -> Option<JsonView> {
    match tool.get("function"@) {
        Some(function) => match function.get("name"@) {
            Some(name) => Some(
                JsonView::Object(
                    Map::empty().insert("name"@, name).insert(
                        "description"@,
                        member_or(function, "description"@, JsonView::String(""@)),
                    ).insert(
                        "input_schema"@,
                        member_or(function, "parameters"@, empty_schema()),
                    ),
                ),
            ),
            None => None,
        },
        None => None,
    }
}

/// The payload with its tools in the form that Bedrock takes.
pub open spec fn tools_converted(payload: JsonView) -> JsonView {
    match (payload, payload.get("tools"@)) {
        (JsonView::Object(members), Some(JsonView::Array(tools))) => JsonView::Object(
            members.insert(
                "tools"@,
                JsonView::Array(tools.filter_map(|tool: JsonView| bedrock_tool(tool))),
            ),
        ),
        _ => payload,
    }
}

/// A tool in the form that Bedrock takes.
fn convert_tool(tool: &Json) -> (r: Option<Json>)
    ensures
        match r {
            Some(converted) => bedrock_tool(tool@) == Some(converted@),
            None => bedrock_tool(tool@) is None,
        },
{
    match tool.get("function") {
        Some(function) => match function.get("name") {
            Some(name) => {
                let mut schema: StrMap<Json> = StrMap::new();
                schema.set_member("type", Json::text("object"));
                schema.set_member("properties", Json::empty_object());
                let mut converted: StrMap<Json> = StrMap::new();
                converted.set_member("name", name.copied());
                converted.set_member(
                    "description",
                    copied_or(function, "description", Json::text("")),
                );
                converted.set_member(
                    "input_schema",
                    copied_or(function, "parameters", Json::Object(schema)),
                );
                Some(Json::Object(converted))
            },
            None => None,
        },
        None => None,
    }
}

/// Convert chat-completion tool schemas to the form that Bedrock takes.
pub fn convert_tools(payload: &mut Json)
    ensures
        final(payload)@ == tools_converted(old(payload)@),
{
    match payload {
        Json::Object(members) => {
            let ghost before = json::object_view(*members);
            match members.take_member("tools") {
                Some(Json::Array(tools)) => {
                    let ghost all = json::array_view(tools@);
                    let ghost rule = |tool: JsonView| bedrock_tool(tool);
                    let mut converted: Vec<Json> = Vec::new();
                    let mut i: usize = 0;
                    proof {
                        json::lemma_array_view(tools@);
                    }
                    while i < tools.len()
                        invariant
                            i <= tools@.len(),
                            all.len() == tools@.len(),
                            forall|j: int| 0 <= j < tools@.len() ==> #[trigger] all[j] == tools@[j]@,
                            rule == (|tool: JsonView| bedrock_tool(tool)),
                            json::array_view(converted@) == all.take(i as int).filter_map(rule),
                        decreases tools@.len() - i,
                    {
                        proof {
                            all.lemma_filter_map_take_succ(rule, i as int);
                            assert(all[i as int] == tools@[i as int]@);
                        }
                        let ghost earlier = converted@;
                        if let Some(tool) = convert_tool(&tools[i]) {
                            converted.push(tool);
                            proof {
                                assert(converted@.drop_last() =~= earlier);
                            }
                        }
                        i += 1;
                    }
                    proof {
                        assert(all.take(all.len() as int) =~= all);
                    }
                    members.set_member("tools", Json::Array(converted));
                    proof {
                        assert(json::object_view(*members) =~= before.insert(
                            "tools"@,
                            Json::Array(converted)@,
                        ));
                    }
                },
                Some(other) => {
                    members.set_member("tools", other);
                    proof {
                        assert(json::object_view(*members) =~= before);
                    }
                },
                None => {
                    proof {
                        assert(json::object_view(*members) =~= before);
                    }
                },
            }
        },
        _ => {},
    }
}

// ---------------------------------------------------------------------------
// Tool messages
// ---------------------------------------------------------------------------

/// The characters, or others where there are none.
pub open spec fn text_or(value: Option<Seq<char>>, otherwise: Seq<char>) -> Seq<char> {
    match value {
        Some(s) => s,
        None => otherwise,
    }
}

/// A block of text.
pub open spec fn text_block(content: Seq<char>) -> JsonView {
    JsonView::Object(
        Map::empty().insert("type"@, JsonView::String("text"@)).insert(
            "text"@,
            JsonView::String(content),
        ),
    )
}

/// The arguments of a call: what their text spells, or an empty object where it is not JSON.
pub open spec fn call_arguments(arguments: Seq<char>) -> JsonView {
    match parse::parsed(arguments) {
        Some(value) => value,
        None => JsonView::Object(Map::empty()),
    }
}

/// The block for a tool call, given the value of its arguments.
pub open spec fn tool_use_block(call: JsonView, input: JsonView) -> JsonView {
    let function = member_or(call, "function"@, JsonView::Object(Map::empty()));
    JsonView::Object(
        Map::empty().insert("type"@, JsonView::String("tool_use"@)).insert(
            "id"@,
            member_or(call, "id"@, JsonView::String(""@)),
        ).insert("name"@, member_or(function, "name"@, JsonView::String(""@))).insert(
            "input"@,
            input,
        ),
    )
}

/// The text of the arguments of a tool call.
pub open spec fn arguments_text(call: JsonView) -> Seq<char> {
    let function = member_or(call, "function"@, JsonView::Object(Map::empty()));
    text_or(function.get_text("arguments"@), "{}"@)
}

/// The block for a tool call.
pub open spec fn call_block(call: JsonView) -> JsonView {
    tool_use_block(call, call_arguments(arguments_text(call)))
}

/// The blocks in front of the tool calls of a message: its text, unless it is empty.
pub open spec fn leading_blocks(message: JsonView) -> Seq<JsonView> {
    match message.get_text("content"@) {
        Some(content) => if content.len() > 0 {
            seq![text_block(content)]
        } else {
            Seq::empty()
        },
        None => Seq::empty(),
    }
}

/// A message with a role and content blocks.
pub open spec fn blocks_message(role: Seq<char>, blocks: Seq<JsonView>) -> JsonView {
    JsonView::Object(
        Map::empty().insert("role"@, JsonView::String(role)).insert(
            "content"@,
            JsonView::Array(blocks),
        ),
    )
}

/// An assistant message with its tool calls as content blocks.
pub open spec fn assistant_message(message: JsonView, calls: Seq<JsonView>) -> JsonView {
    blocks_message(
        "assistant"@,
        leading_blocks(message) + calls.map_values(|call: JsonView| call_block(call)),
    )
}

/// The block for the result that a tool message carries.
pub open spec fn result_block(message: JsonView) -> JsonView {
    JsonView::Object(
        Map::empty().insert("type"@, JsonView::String("tool_result"@)).insert(
            "tool_use_id"@,
            member_or(message, "tool_call_id"@, JsonView::String(""@)),
        ).insert("content"@, JsonView::String(text_or(message.get_text("content"@), ""@))),
    )
}

/// Whether a block is the result of a tool.
pub open spec fn is_result(block: JsonView) -> bool {
    block.get_text("type"@) == Some("tool_result"@)
}

/// Whether a message takes further tool results: a user message that holds nothing else.
pub open spec fn takes_results(message: JsonView) -> bool {
    &&& message.get_text("role"@) == Some("user"@)
    &&& match message.get("content"@) {
        Some(JsonView::Array(blocks)) => forall|i: int|
            0 <= i < blocks.len() ==> is_result(#[trigger] blocks[i]),
        _ => false,
    }
}

/// A message with a block put behind those that it holds.
pub open spec fn with_block(message: JsonView, block: JsonView) -> JsonView {
    match (message, message.get("content"@)) {
        (JsonView::Object(members), Some(JsonView::Array(blocks))) => JsonView::Object(
            members.insert("content"@, JsonView::Array(blocks.push(block))),
        ),
        _ => message,
    }
}

/// The converted messages with one more message converted behind them.
pub open spec fn message_added(done: Seq<JsonView>, message: JsonView) -> Seq<JsonView> {
    let role = text_or(message.get_text("role"@), ""@);
    if role == "assistant"@ {
        match message.get("tool_calls"@) {
            Some(JsonView::Array(calls)) => done.push(assistant_message(message, calls)),
            _ => done.push(message),
        }
    } else if role == "tool"@ {
        if done.len() > 0 && takes_results(done.last()) {
            done.drop_last().push(with_block(done.last(), result_block(message)))
        } else {
            done.push(blocks_message("user"@, seq![result_block(message)]))
        }
    } else {
        done.push(message)
    }
}

/// The messages, each converted in its turn.
pub open spec fn messages_converted(messages: Seq<JsonView>) -> Seq<JsonView>
    decreases messages.len(),
{
    if messages.len() == 0 {
        Seq::empty()
    } else {
        message_added(messages_converted(messages.drop_last()), messages.last())
    }
}

/// The payload with its messages converted.
pub open spec fn tool_messages_converted(payload: JsonView) -> JsonView {
    match (payload, payload.get("messages"@)) {
        (JsonView::Object(members), Some(JsonView::Array(messages))) => JsonView::Object(
            members.insert("messages"@, JsonView::Array(messages_converted(messages))),
        ),
        _ => payload,
    }
}

/// The block for a tool call, given the value of its arguments.
pub fn build_tool_use(call: &Json, input: Json) -> (r: Json)
    ensures
        r@ == tool_use_block(call@, input@),
{
    let function = copied_or(call, "function", Json::empty_object());
    let mut block: StrMap<Json> = StrMap::new();
    block.set_member("type", Json::text("tool_use"));
    block.set_member("id", copied_or(call, "id", Json::text("")));
    block.set_member("name", copied_or(&function, "name", Json::text("")));
    block.set_member("input", input);
    Json::Object(block)
}

/// The block for a tool call.
fn convert_call(call: &Json) -> (r: Json)
    ensures
        r@ == call_block(call@),
{
    let function = copied_or(call, "function", Json::empty_object());
    let arguments = match function.get_str("arguments") {
        Some(s) => s,
        None => "{}",
    };
    let input = match parse::parse(arguments) {
        Some(value) => value,
        None => Json::empty_object(),
    };
    build_tool_use(call, input)
}

/// An assistant message with its tool calls as content blocks.
fn convert_assistant(message: &Json, calls: &Vec<Json>) -> (r: Json)
    ensures
        r@ == assistant_message(message@, json::array_view(calls@)),
{
    let mut blocks: Vec<Json> = Vec::new();
    if let Some(content) = message.get_str("content") {
        if !content.is_empty() {
            let mut block: StrMap<Json> = StrMap::new();
            block.set_member("type", Json::text("text"));
            block.set_member("text", Json::text(content));
            blocks.push(Json::Object(block));
        }
    }
    let ghost front = leading_blocks(message@);
    let ghost all = json::array_view(calls@);
    let ghost rule = |call: JsonView| call_block(call);
    proof {
        json::lemma_array_view(calls@);
        json::lemma_array_view(blocks@);
        assert(json::array_view(blocks@) =~= front);
        assert(front =~= front + all.take(0).map_values(rule));
    }
    let mut i: usize = 0;
    while i < calls.len()
        invariant
            i <= calls@.len(),
            all.len() == calls@.len(),
            forall|j: int| 0 <= j < calls@.len() ==> #[trigger] all[j] == calls@[j]@,
            rule == (|call: JsonView| call_block(call)),
            json::array_view(blocks@) == front + all.take(i as int).map_values(rule),
        decreases calls@.len() - i,
    {
        let ghost earlier = blocks@;
        blocks.push(convert_call(&calls[i]));
        proof {
            assert(blocks@.drop_last() =~= earlier);
            assert(all[i as int] == calls@[i as int]@);
            assert(all.take(i + 1).map_values(rule) =~= all.take(i as int).map_values(rule).push(
                rule(all[i as int]),
            ));
            assert(front + all.take(i + 1).map_values(rule) =~= (front + all.take(
                i as int,
            ).map_values(rule)).push(rule(all[i as int])));
        }
        i += 1;
    }
    proof {
        assert(all.take(all.len() as int) =~= all);
    }
    let mut converted: StrMap<Json> = StrMap::new();
    converted.set_member("role", Json::text("assistant"));
    converted.set_member("content", Json::Array(blocks));
    Json::Object(converted)
}

/// The block for the result that a tool message carries.
fn convert_result(message: &Json) -> (r: Json)
    ensures
        r@ == result_block(message@),
{
    let content = match message.get_str("content") {
        Some(s) => s,
        None => "",
    };
    let mut block: StrMap<Json> = StrMap::new();
    block.set_member("type", Json::text("tool_result"));
    block.set_member("tool_use_id", copied_or(message, "tool_call_id", Json::text("")));
    block.set_member("content", Json::text(content));
    Json::Object(block)
}

/// Whether a message takes further tool results.
fn accepts_results(message: &Json) -> (r: bool)
    ensures
        r == takes_results(message@),
{
    if !opt_str_eq(message.get_str("role"), "user") {
        return false;
    }
    match message.get("content") {
        Some(content) => match content.as_array() {
            Some(blocks) => {
                let ghost all = json::array_view(blocks@);
                proof {
                    json::lemma_array_view(blocks@);
                }
                let mut i: usize = 0;
                while i < blocks.len()
                    invariant
                        i <= blocks@.len(),
                        message@.get("content"@) == Some(JsonView::Array(all)),
                        all.len() == blocks@.len(),
                        forall|j: int|
                            0 <= j < blocks@.len() ==> #[trigger] all[j] == blocks@[j]@,
                        forall|j: int| 0 <= j < i ==> is_result(#[trigger] all[j]),
                    decreases blocks@.len() - i,
                {
                    if !opt_str_eq(blocks[i].get_str("type"), "tool_result") {
                        proof {
                            let held = message@.get("content"@)->Some_0->Array_0;
                            assert(held == all);
                            assert(!is_result(held[i as int]));
                        }
                        return false;
                    }
                    i += 1;
                }
                true
            },
            None => false,
        },
        None => false,
    }
}

/// A message with a block put behind those that it holds.
fn add_block(message: Json, block: Json) -> (r: Json)
    ensures
        r@ == with_block(message@, block@),
{
    match message {
        Json::Object(members) => {
            let ghost before = json::object_view(members);
            let mut members = members;
            match members.take_member("content") {
                Some(Json::Array(blocks)) => {
                    let ghost held = blocks@;
                    let mut blocks = blocks;
                    blocks.push(block);
                    proof {
                        assert(blocks@.drop_last() =~= held);
                    }
                    members.set_member("content", Json::Array(blocks));
                    proof {
                        assert(json::object_view(members) =~= before.insert(
                            "content"@,
                            Json::Array(blocks)@,
                        ));
                    }
                },
                Some(other) => {
                    members.set_member("content", other);
                    proof {
                        assert(json::object_view(members) =~= before);
                    }
                },
                None => {
                    proof {
                        assert(json::object_view(members) =~= before);
                    }
                },
            }
            Json::Object(members)
        },
        other => other,
    }
}

/// Convert one message behind those that are converted already.
fn add_message(done: &mut Vec<Json>, message: Json)
    ensures
        json::array_view(final(done)@) == message_added(json::array_view(old(done)@), message@),
{
    let ghost before = done@;
    proof {
        json::lemma_array_view(before);
    }
    let is_assistant: bool = opt_str_eq(message.get_str("role"), "assistant");
    let is_tool: bool = opt_str_eq(message.get_str("role"), "tool");
    proof {
        reveal_strlit("");
        reveal_strlit("assistant");
        reveal_strlit("tool");
        assert(""@.len() == 0);
        assert("tool"@.len() == 4);
        assert("assistant"@.len() == 9);
    }
    if is_assistant {
        let converted = match message.get("tool_calls") {
            Some(calls) => match calls.as_array() {
                Some(calls) => Some(convert_assistant(&message, calls)),
                None => None,
            },
            None => None,
        };
        match converted {
            Some(converted) => {
                done.push(converted);
            },
            None => {
                done.push(message);
            },
        }
        proof {
            assert(done@.drop_last() =~= before);
        }
    } else if is_tool {
        let block = convert_result(&message);
        let merges: bool = done.len() > 0 && accepts_results(&done[done.len() - 1]);
        if merges {
            let last = done.pop();
            proof {
                assert(done@ =~= before.drop_last());
                assert(json::array_view(before).drop_last() =~= json::array_view(
                    before.drop_last(),
                ));
            }
            if let Some(last) = last {
                done.push(add_block(last, block));
                proof {
                    assert(done@.drop_last() =~= before.drop_last());
                }
            }
        } else {
            let mut blocks: Vec<Json> = Vec::new();
            blocks.push(block);
            proof {
                json::lemma_array_view(blocks@);
                assert(json::array_view(blocks@) =~= seq![result_block(message@)]);
            }
            let mut user: StrMap<Json> = StrMap::new();
            user.set_member("role", Json::text("user"));
            user.set_member("content", Json::Array(blocks));
            done.push(Json::Object(user));
            proof {
                assert(done@.drop_last() =~= before);
                assert(done@.last()@ == blocks_message("user"@, seq![result_block(message@)]));
                assert(before.len() > 0 ==> json::array_view(before).last() == before.last()@);
            }
        }
    } else {
        done.push(message);
        proof {
            assert(done@.drop_last() =~= before);
        }
    }
}

/// Convert tool calls and tool results to the form that Bedrock takes.
///
/// A `tool` message becomes a `user` message with a `tool_result` block; one that follows
/// another is put into the same message. The tool calls of an `assistant` message become
/// `tool_use` blocks.
pub fn convert_tool_messages(payload: &mut Json)
    ensures
        final(payload)@ == tool_messages_converted(old(payload)@),
{
    match payload {
        Json::Object(members) => {
            let ghost before = json::object_view(*members);
            match members.take_member("messages") {
                Some(Json::Array(messages)) => {
                    let ghost given = messages@;
                    let ghost all = json::array_view(given);
                    proof {
                        json::lemma_array_view(given);
                    }
                    let mut converted: Vec<Json> = Vec::new();
                    for message in it: messages
                        invariant
                            it.seq() == given,
                            all.len() == given.len(),
                            forall|j: int| 0 <= j < given.len() ==> #[trigger] all[j] == given[j]@,
                            json::array_view(converted@) == messages_converted(
                                all.take(it.index()),
                            ),
                    {
                        let ghost i = it.index();
                        proof {
                            assert(all[i] == message@);
                            assert(all.take(i + 1).drop_last() =~= all.take(i));
                        }
                        add_message(&mut converted, message);
                    }
                    proof {
                        assert(all.take(all.len() as int) =~= all);
                    }
                    members.set_member("messages", Json::Array(converted));
                    proof {
                        assert(json::object_view(*members) =~= before.insert(
                            "messages"@,
                            Json::Array(converted)@,
                        ));
                    }
                },
                Some(other) => {
                    members.set_member("messages", other);
                    proof {
                        assert(json::object_view(*members) =~= before);
                    }
                },
                None => {
                    proof {
                        assert(json::object_view(*members) =~= before);
                    }
                },
            }
        },
        _ => {},
    }
}

// ---------------------------------------------------------------------------
// Token limits
// ---------------------------------------------------------------------------

/// The members of an object, or none for a null.
pub open spec fn members_or_none(payload: JsonView) -> Map<Seq<char>, JsonView> {
    match payload {
        JsonView::Object(members) => members,
        _ => Map::empty(),
    }
}

/// The payload with a limit on the tokens: its own one, the one under the newer name, or 4096.
pub open spec fn max_tokens_ensured(payload: JsonView) -> JsonView {
    let members = members_or_none(payload);
    if payload.get("max_tokens"@) is Some {
        payload
    } else {
        match payload.get("max_completion_tokens"@) {
            Some(limit) => JsonView::Object(
                members.remove("max_completion_tokens"@).insert("max_tokens"@, limit),
            ),
            None => JsonView::Object(
                members.insert("max_tokens"@, JsonView::Number(JsonNumber::PosInt(4096))),
            ),
        }
    }
}

/// Put a member into an object, or into a null, which becomes an object.
pub(crate) fn put_member(payload: &mut Json, key: &str, value: Json)
    requires
        old(payload)@ is Object || old(payload)@ is Null,
    ensures
        final(payload)@ == JsonView::Object(
            members_or_none(old(payload)@).insert(key@, value@),
        ),
{
    match payload {
        Json::Object(members) => {
            members.set_member(key, value);
        },
        _ => {
            let mut members: StrMap<Json> = StrMap::new();
            members.set_member(key, value);
            *payload = Json::Object(members);
        },
    }
}

/// Take a member out of a value that is an object.
pub(crate) fn drop_member(payload: &mut Json, key: &str) -> (r: Option<Json>)
    ensures
        final(payload)@ == match old(payload)@ {
            JsonView::Object(members) => JsonView::Object(members.remove(key@)),
            other => other,
        },
        match r {
            Some(value) => old(payload)@.get(key@) == Some(value@),
            None => old(payload)@.get(key@) is None,
        },
{
    match payload {
        Json::Object(members) => members.take_member(key),
        _ => None,
    }
}

/// Make sure that the payload limits the tokens, which Bedrock asks for.
///
/// The payload is an object, or a null, which stands for an empty one.
pub fn ensure_max_tokens(payload: &mut Json)
    requires
        old(payload)@ is Object || old(payload)@ is Null,
    ensures
        final(payload)@ == max_tokens_ensured(old(payload)@),
{
    if payload.get("max_tokens").is_none() {
        match drop_member(payload, "max_completion_tokens") {
            Some(limit) => {
                put_member(payload, "max_tokens", limit);
            },
            None => {
                proof {
                    let members = members_or_none(old(payload)@);
                    assert(members.remove("max_completion_tokens"@) =~= members);
                }
                put_member(payload, "max_tokens", Json::unsigned(4096));
            },
        }
    }
}

// ---------------------------------------------------------------------------
// Laws
// ---------------------------------------------------------------------------

/// No system message is left among the messages, and every other message stays.
pub proof fn law_system_messages_are_taken_out(messages: Seq<JsonView>)
    ensures
        forall|i: int|
            0 <= i < without_system(messages).len() ==> !is_system(
                #[trigger] without_system(messages)[i],
            ),
        forall|i: int|
            0 <= i < messages.len() && !is_system(#[trigger] messages[i]) ==> without_system(
                messages,
            ).contains(messages[i]),
{
    broadcast use vstd::seq_lib::group_filter_ensures;

    let keeps = |m: JsonView| !is_system(m);
    assert forall|i: int| 0 <= i < without_system(messages).len() implies !is_system(
        #[trigger] without_system(messages)[i],
    ) by {
        assert(keeps(messages.filter(keeps)[i]));
    }
    assert forall|i: int|
        0 <= i < messages.len() && !is_system(#[trigger] messages[i]) implies without_system(
        messages,
    ).contains(messages[i]) by {
        assert(keeps(messages[i]));
    }
}

proof fn lemma_role_names()
    ensures
        "role"@ != "content"@,
        "user"@ != "tool"@,
        "assistant"@ != "tool"@,
        "assistant"@ != "user"@,
        ""@ != "tool"@,
        ""@ != "assistant"@,
        "type"@ != "content"@,
        "type"@ != "tool_use_id"@,
{
    reveal_strlit("role");
    reveal_strlit("content");
    reveal_strlit("user");
    reveal_strlit("tool");
    reveal_strlit("assistant");
    reveal_strlit("");
    reveal_strlit("type");
    reveal_strlit("tool_use_id");
    assert("role"@.len() == 4);
    assert("content"@.len() == 7);
    assert("user"@[0] == 'u' && "user"@.len() == 4);
    assert("tool"@[0] == 't' && "tool"@.len() == 4);
    assert("assistant"@.len() == 9);
    assert(""@.len() == 0);
    assert("type"@.len() == 4);
    assert("tool_use_id"@.len() == 11);
}

/// After the conversion no message has the role of a tool.
pub proof fn law_no_tool_role_is_left(messages: Seq<JsonView>, i: int)
    requires
        0 <= i < messages_converted(messages).len(),
    ensures
        messages_converted(messages)[i].get_text("role"@) != Some("tool"@),
    decreases messages.len(),
{
    lemma_role_names();
    let done = messages_converted(messages.drop_last());
    if i < done.len() {
        law_no_tool_role_is_left(messages.drop_last(), i);
    }
}

/// The result of a tool that follows another result goes into the same message, behind it.
pub proof fn law_consecutive_results_are_merged(
    messages: Seq<JsonView>,
    first: JsonView,
    second: JsonView,
)
    requires
        first.get_text("role"@) == Some("tool"@),
        second.get_text("role"@) == Some("tool"@),
    ensures
        ({
            let one = messages_converted(messages.push(first));
            let both = messages_converted(messages.push(first).push(second));
            &&& both == one.drop_last().push(with_block(one.last(), result_block(second)))
            &&& one.last().get("content"@) matches Some(JsonView::Array(blocks)) && both.last().get(
                "content"@,
            ) == Some(JsonView::Array(blocks.push(result_block(second)))) && blocks.last()
                == result_block(first)
        }),
{
    lemma_role_names();
    let done = messages_converted(messages);
    let one = messages_converted(messages.push(first));
    assert(messages.push(first).drop_last() =~= messages);
    assert(messages.push(first).push(second).drop_last() =~= messages.push(first));
    assert(one == message_added(done, first));
    assert(is_result(result_block(first)));
    let held = one.last().get("content"@)->Some_0->Array_0;
    if done.len() > 0 && takes_results(done.last()) {
        let before = done.last().get("content"@)->Some_0->Array_0;
        assert(held =~= before.push(result_block(first)));
    } else {
        assert(held =~= seq![result_block(first)]);
    }
    assert(takes_results(one.last()));
}

/// Every message but a merged result stands for one message.
pub proof fn law_conversion_keeps_the_count(messages: Seq<JsonView>)
    ensures
        messages_converted(messages).len() <= messages.len(),
        (forall|i: int|
            0 <= i < messages.len() ==> (#[trigger] messages[i]).get_text("role"@) != Some(
                "tool"@,
            )) ==> messages_converted(messages).len() == messages.len(),
    decreases messages.len(),
{
    lemma_role_names();
    if messages.len() > 0 {
        let init = messages.drop_last();
        law_conversion_keeps_the_count(init);
        if forall|i: int|
            0 <= i < messages.len() ==> (#[trigger] messages[i]).get_text("role"@) != Some(
                "tool"@,
            ) {
            assert forall|i: int| 0 <= i < init.len() implies (#[trigger] init[i]).get_text("role"@)
                != Some("tool"@) by {
                assert(init[i] == messages[i]);
            }
            assert(messages.last() == messages[messages.len() - 1]);
        }
    }
}

/// Whether a message carries the result of a tool.
pub open spec fn is_tool_message(message: JsonView) -> bool {
    message.get_text("role"@) == Some("tool"@)
}

/// The blocks for the results that some tool messages carry.
pub open spec fn result_blocks(messages: Seq<JsonView>) -> Seq<JsonView> {
    messages.map_values(|m: JsonView| result_block(m))
}

/// A run of tool messages, behind what is no tool message and no user message of content blocks,
/// becomes one user message that holds their results in their order.
pub proof fn law_run_of_results_is_one_message(front: Seq<JsonView>, run: Seq<JsonView>)
    requires
        run.len() > 0,
        forall|i: int| 0 <= i < run.len() ==> is_tool_message(#[trigger] run[i]),
        front.len() > 0 ==> !is_tool_message(front.last()) && !(front.last().get_text("role"@)
            == Some("user"@) && front.last().get("content"@) matches Some(JsonView::Array(_))),
    ensures
        messages_converted(front + run) == messages_converted(front).push(
            blocks_message("user"@, result_blocks(run)),
        ),
    decreases run.len(),
{
    lemma_role_names();
    let done = messages_converted(front);
    let init = run.drop_last();
    let last = run.last();
    let blocks = result_blocks(run);
    assert((front + run).drop_last() =~= front + init);
    assert(is_tool_message(run[run.len() - 1]));
    if init.len() == 0 {
        assert(front + init =~= front);
        assert(blocks =~= seq![result_block(last)]);
        if front.len() > 0 {
            let before = messages_converted(front.drop_last());
            assert(done == message_added(before, front.last()));
            assert(!takes_results(done.last()));
        }
    } else {
        assert forall|i: int| 0 <= i < init.len() implies is_tool_message(#[trigger] init[i]) by {
            assert(init[i] == run[i]);
        }
        law_run_of_results_is_one_message(front, init);
        let held = result_blocks(init);
        let user = blocks_message("user"@, held);
        let now = done.push(user);
        assert(user.get("content"@) == Some(JsonView::Array(held)));
        assert forall|i: int| 0 <= i < held.len() implies is_result(#[trigger] held[i]) by {
            assert(held[i] == result_block(init[i]));
        }
        assert(takes_results(now.last()));
        assert(blocks =~= held.push(result_block(last)));
        assert(with_block(user, result_block(last))->Object_0 =~= blocks_message(
            "user"@,
            blocks,
        )->Object_0);
        assert(now.drop_last() =~= done);
    }
}

/// What follows a message that is no tool message does not change what stands before it.
pub proof fn law_results_do_not_reach_back(front: Seq<JsonView>, rest: Seq<JsonView>)
    requires
        rest.len() > 0,
        !is_tool_message(rest[0]),
    ensures
        messages_converted(front).is_prefix_of(messages_converted(front + rest)),
        messages_converted(front + rest).len() > messages_converted(front).len(),
    decreases rest.len(),
{
    lemma_role_names();
    let done = messages_converted(front);
    let init = rest.drop_last();
    assert((front + rest).drop_last() =~= front + init);
    let before = messages_converted(front + init);
    let after = messages_converted(front + rest);
    assert(after == message_added(before, rest.last()));
    if init.len() == 0 {
        assert(front + init =~= front);
    } else {
        assert(init[0] == rest[0]);
        law_results_do_not_reach_back(front, init);
    }
    assert(done =~= after.subrange(0, done.len() as int));
}

proof fn lemma_key_names()
    ensures
        "type"@ != "tool_use_id"@,
        "type"@ != "content"@,
        "tool_use_id"@ != "content"@,
        "type"@ != "id"@,
        "type"@ != "name"@,
        "type"@ != "input"@,
        "id"@ != "name"@,
        "id"@ != "input"@,
        "name"@ != "input"@,
        "type"@ != "text"@,
        "role"@ != "content"@,
        "name"@ != "description"@,
        "name"@ != "input_schema"@,
        "description"@ != "input_schema"@,
        "type"@ != "properties"@,
        "messages"@ != "system"@,
        "messages"@ != "tools"@,
        "system"@ != "tools"@,
        "max_tokens"@ != "max_completion_tokens"@,
{
    reveal_strlit("type");
    reveal_strlit("tool_use_id");
    reveal_strlit("content");
    reveal_strlit("id");
    reveal_strlit("name");
    reveal_strlit("input");
    reveal_strlit("text");
    reveal_strlit("role");
    reveal_strlit("description");
    reveal_strlit("input_schema");
    reveal_strlit("properties");
    reveal_strlit("messages");
    reveal_strlit("system");
    reveal_strlit("tools");
    reveal_strlit("max_tokens");
    reveal_strlit("max_completion_tokens");
    assert("type"@.len() == 4 && "type"@[0] == 't' && "type"@[1] == 'y');
    assert("tool_use_id"@.len() == 11 && "tool_use_id"@[0] == 't');
    assert("content"@.len() == 7);
    assert("id"@.len() == 2);
    assert("name"@.len() == 4 && "name"@[0] == 'n');
    assert("input"@.len() == 5 && "input"@[0] == 'i');
    assert("text"@.len() == 4 && "text"@[1] == 'e');
    assert("role"@.len() == 4);
    assert("description"@.len() == 11);
    assert("input_schema"@.len() == 12);
    assert("properties"@.len() == 10);
    assert("messages"@.len() == 8);
    assert("system"@.len() == 6);
    assert("tools"@.len() == 5 && "tools"@[0] == 't');
    assert("max_tokens"@.len() == 10);
    assert("max_completion_tokens"@.len() == 21);
}

/// The block of a tool message carries the identifier of the call and the text of the message,
/// and nothing else.
pub proof fn law_result_block_carries_its_message(message: JsonView, key: Seq<char>)
    ensures
        ({
            let block = result_block(message);
            &&& block.get_text("type"@) == Some("tool_result"@)
            &&& message.get("tool_call_id"@) matches Some(id) ==> block.get("tool_use_id"@) == Some(
                id,
            )
            &&& message.get("tool_call_id"@) is None ==> block.get_text("tool_use_id"@) == Some(
                ""@,
            )
            &&& message.get_text("content"@) matches Some(content) ==> block.get_text("content"@)
                == Some(content)
            &&& message.get_text("content"@) is None ==> block.get_text("content"@) == Some(""@)
            &&& key != "type"@ && key != "tool_use_id"@ && key != "content"@ ==> block.get(
                key,
            ) is None
        }),
{
    lemma_key_names();
}

/// A tool message ends up as the last block of a user message, with its identifier and its text.
pub proof fn law_tool_message_is_the_last_block(messages: Seq<JsonView>, message: JsonView)
    requires
        message.get_text("role"@) == Some("tool"@),
    ensures
        ({
            let done = messages_converted(messages.push(message));
            &&& done.len() > 0
            &&& done.last().get_text("role"@) == Some("user"@)
            &&& done.last().get("content"@) matches Some(JsonView::Array(blocks)) && blocks.len()
                > 0 && blocks.last().get_text("type"@) == Some("tool_result"@) && (message.get(
                "tool_call_id"@,
            ) matches Some(id) ==> blocks.last().get("tool_use_id"@) == Some(id)) && (
            message.get_text("content"@) matches Some(content) ==> blocks.last().get_text(
                "content"@,
            ) == Some(content))
        }),
{
    lemma_role_names();
    lemma_key_names();
    assert(messages.push(message).drop_last() =~= messages);
    law_result_block_carries_its_message(message, "type"@);
}

/// One message more changes none that stands already, but that the last one may take a block
/// behind those that it holds.
pub proof fn law_conversion_only_adds(messages: Seq<JsonView>, message: JsonView, i: int)
    requires
        0 <= i < messages_converted(messages).len(),
    ensures
        ({
            let done = messages_converted(messages);
            let now = messages_converted(messages.push(message));
            &&& now.len() >= done.len()
            &&& i < done.len() - 1 || message.get_text("role"@) != Some("tool"@) ==> now[i]
                == done[i]
            &&& now[i] != done[i] ==> {
                &&& now.len() == done.len()
                &&& done[i].get("content"@) matches Some(JsonView::Array(before)) && now[i].get(
                    "content"@,
                ) matches Some(JsonView::Array(after)) && after.len() == before.len() + 1
                    && before.is_prefix_of(after)
            }
            &&& forall|key: Seq<char>|
                key != "content"@ ==> #[trigger] now[i].get(key) == done[i].get(key)
        }),
{
    lemma_role_names();
    assert(messages.push(message).drop_last() =~= messages);
    let done = messages_converted(messages);
    let now = messages_converted(messages.push(message));
    assert(now == message_added(done, message));
    if now[i] != done[i] {
        let before = done[i].get("content"@)->Some_0->Array_0;
        let after = now[i].get("content"@)->Some_0->Array_0;
        assert(after == before.push(result_block(message)));
        assert(before =~= after.subrange(0, before.len() as int));
    }
}

/// A message that is neither a tool message nor an assistant message with tool calls is taken
/// over as it is.
pub proof fn law_other_messages_are_taken_over(messages: Seq<JsonView>, message: JsonView)
    requires
        message.get_text("role"@) != Some("tool"@),
        message.get_text("role"@) != Some("assistant"@) || !(message.get(
            "tool_calls"@,
        ) matches Some(JsonView::Array(_))),
    ensures
        messages_converted(messages.push(message)) == messages_converted(messages).push(message),
{
    lemma_role_names();
    assert(messages.push(message).drop_last() =~= messages);
}

/// The block of a tool call carries its identifier, the name of its function and the given
/// input, and nothing else.
pub proof fn law_tool_use_carries_its_call(call: JsonView, input: JsonView, key: Seq<char>)
    ensures
        ({
            let block = tool_use_block(call, input);
            &&& block.get_text("type"@) == Some("tool_use"@)
            &&& call.get("id"@) matches Some(id) ==> block.get("id"@) == Some(id)
            &&& call.get("id"@) is None ==> block.get_text("id"@) == Some(""@)
            &&& (call.get("function"@) matches Some(function) && function.get("name"@) matches Some(
                name,
            )) ==> block.get("name"@) == call.get("function"@)->Some_0.get("name"@)
            &&& (call.get("function"@) matches Some(function) ==> function.get("name"@) is None)
                ==> block.get_text("name"@) == Some(""@)
            &&& block.get("input"@) == Some(input)
            &&& key != "type"@ && key != "id"@ && key != "name"@ && key != "input"@ ==> block.get(
                key,
            ) is None
        }),
{
    lemma_key_names();
}

/// The input of a tool call is what the text of its arguments spells, and an empty object where
/// that text is not JSON.
pub proof fn law_call_input_is_what_its_arguments_spell(call: JsonView, arguments: Seq<char>)
    requires
        match call.get("function"@) {
            Some(function) => function.get_text("arguments"@) == Some(arguments) || (
            function.get_text("arguments"@) is None && arguments == "{}"@),
            None => arguments == "{}"@,
        },
    ensures
        parse::parsed(arguments) matches Some(value) ==> call_block(call).get("input"@) == Some(
            value,
        ),
        parse::parsed(arguments) is None ==> call_block(call).get("input"@) == Some(
            JsonView::Object(Map::empty()),
        ),
        call_block(call) == tool_use_block(call, call_block(call).get("input"@)->Some_0),
{
    lemma_key_names();
}

/// An assistant message with tool calls becomes one with content blocks: its text, unless it is
/// empty, and a block for each call, in their order.
pub proof fn law_assistant_message_holds_text_and_calls(
    messages: Seq<JsonView>,
    message: JsonView,
    calls: Seq<JsonView>,
)
    requires
        message.get_text("role"@) == Some("assistant"@),
        message.get("tool_calls"@) == Some(JsonView::Array(calls)),
    ensures
        ({
            let done = messages_converted(messages.push(message));
            let speaks = message.get_text("content"@) matches Some(content) && content.len() > 0;
            let front: int = if speaks {
                1
            } else {
                0
            };
            &&& done.drop_last() == messages_converted(messages)
            &&& done.last().get_text("role"@) == Some("assistant"@)
            &&& done.last().get("content"@) matches Some(JsonView::Array(blocks)) && blocks.len()
                == front + calls.len() && (speaks ==> blocks[0].get_text("type"@) == Some("text"@)
                && blocks[0].get_text("text"@) == message.get_text("content"@) && (forall|
                key: Seq<char>,
            |
                key != "type"@ && key != "text"@ ==> #[trigger] blocks[0].get(key) is None)) && (
            forall|i: int|
                0 <= i < calls.len() ==> #[trigger] blocks[front + i] == call_block(calls[i]))
            &&& forall|key: Seq<char>|
                key != "role"@ && key != "content"@ ==> #[trigger] done.last().get(key) is None
        }),
{
    lemma_role_names();
    lemma_key_names();
    assert(messages.push(message).drop_last() =~= messages);
    let done = messages_converted(messages);
    let now = messages_converted(messages.push(message));
    assert(now == done.push(assistant_message(message, calls)));
    assert(now.drop_last() =~= done);
    let blocks = now.last().get("content"@)->Some_0->Array_0;
    assert(blocks == leading_blocks(message) + calls.map_values(
        |call: JsonView| call_block(call),
    ));
}

/// A tool message behind a user message of content blocks goes into that message exactly when
/// all of its blocks are results of tools.
pub proof fn law_results_join_results_only(
    messages: Seq<JsonView>,
    user: JsonView,
    blocks: Seq<JsonView>,
    message: JsonView,
)
    requires
        user.get_text("role"@) == Some("user"@),
        user.get("content"@) == Some(JsonView::Array(blocks)),
        message.get_text("role"@) == Some("tool"@),
    ensures
        ({
            let done = messages_converted(messages.push(user));
            let now = messages_converted(messages.push(user).push(message));
            let all_results = forall|i: int|
                0 <= i < blocks.len() ==> (#[trigger] blocks[i]).get_text("type"@) == Some(
                    "tool_result"@,
                );
            &&& all_results ==> now.len() == done.len() && now.last().get("content"@) == Some(
                JsonView::Array(blocks.push(result_block(message))),
            )
            &&& !all_results ==> now.len() == done.len() + 1 && now.drop_last() == done
                && now.last().get("content"@) == Some(
                JsonView::Array(seq![result_block(message)]),
            )
        }),
{
    lemma_role_names();
    lemma_key_names();
    assert(messages.push(user).drop_last() =~= messages);
    assert(messages.push(user).push(message).drop_last() =~= messages.push(user));
    let done = messages_converted(messages.push(user));
    let now = messages_converted(messages.push(user).push(message));
    assert(done == messages_converted(messages).push(user));
    assert(done.last() == user);
    assert(now == message_added(done, message));
    if forall|i: int|
        0 <= i < blocks.len() ==> (#[trigger] blocks[i]).get_text("type"@) == Some(
            "tool_result"@,
        ) {
        assert(forall|i: int| 0 <= i < blocks.len() ==> is_result(#[trigger] blocks[i]));
        assert(takes_results(user));
    } else {
        assert(!takes_results(user)) by {
            let i = choose|i: int|
                0 <= i < blocks.len() && (#[trigger] blocks[i]).get_text("type"@) != Some(
                    "tool_result"@,
                );
            assert(!is_result(blocks[i]));
        }
        assert(now.drop_last() =~= done);
    }
}

/// A tool in the form that Bedrock takes has the name, the description and the parameters of its
/// function, and nothing else. A tool without a function or a name is left out.
pub proof fn law_tool_keeps_its_function(tool: JsonView, key: Seq<char>)
    ensures
        match tool.get("function"@) {
            Some(function) => match function.get("name"@) {
                Some(name) => bedrock_tool(tool) matches Some(converted) && {
                    &&& converted.get("name"@) == Some(name)
                    &&& function.get("description"@) matches Some(text) ==> converted.get(
                        "description"@,
                    ) == Some(text)
                    &&& function.get("description"@) is None ==> converted.get_text(
                        "description"@,
                    ) == Some(""@)
                    &&& function.get("parameters"@) matches Some(schema) ==> converted.get(
                        "input_schema"@,
                    ) == Some(schema)
                    &&& function.get("parameters"@) is None ==> (converted.get(
                        "input_schema"@,
                    ) matches Some(schema) && schema.get_text("type"@) == Some("object"@)
                        && schema.get("properties"@) == Some(JsonView::Object(Map::empty())) && (
                    key != "type"@ && key != "properties"@ ==> schema.get(key) is None))
                    &&& key != "name"@ && key != "description"@ && key != "input_schema"@
                        ==> converted.get(key) is None
                },
                None => bedrock_tool(tool) is None,
            },
            None => bedrock_tool(tool) is None,
        },
{
    lemma_key_names();
}

/// The tools of a payload are converted one by one, in their order, and nothing else changes.
pub proof fn law_tools_are_converted_in_order(
    members: Map<Seq<char>, JsonView>,
    tools: Seq<JsonView>,
    tool: JsonView,
    key: Seq<char>,
)
    requires
        key != "tools"@,
    ensures
        ({
            let fewer = tools_converted(
                JsonView::Object(members.insert("tools"@, JsonView::Array(tools))),
            );
            let more = tools_converted(
                JsonView::Object(members.insert("tools"@, JsonView::Array(tools.push(tool)))),
            );
            let none = tools_converted(
                JsonView::Object(members.insert("tools"@, JsonView::Array(Seq::empty()))),
            );
            &&& none.get("tools"@) == Some(JsonView::Array(Seq::empty()))
            &&& fewer.get("tools"@) matches Some(JsonView::Array(before)) && more.get(
                "tools"@,
            ) matches Some(JsonView::Array(after)) && after == match bedrock_tool(tool) {
                Some(converted) => before.push(converted),
                None => before,
            }
            &&& fewer.get(key) == JsonView::Object(members).get(key)
        }),
{
    let rule = |tool: JsonView| bedrock_tool(tool);
    let all = tools.push(tool);
    all.lemma_filter_map_take_succ(rule, tools.len() as int);
    assert(all.take(tools.len() as int) =~= tools);
    assert(all.take(all.len() as int) =~= all);
    assert(Seq::<JsonView>::empty().filter_map(rule) =~= Seq::empty());
    let fewer = tools.filter_map(rule);
    let more = all.filter_map(rule);
    if let Some(converted) = bedrock_tool(tool) {
        assert(more =~= fewer.push(converted));
    } else {
        assert(more =~= fewer);
    }
}

/// Without a list of tools, the tools of a payload stay as they are.
pub proof fn law_payload_without_tools_stays(payload: JsonView)
    requires
        !(payload.get("tools"@) matches Some(JsonView::Array(_))),
    ensures
        tools_converted(payload) == payload,
{
}

/// The texts of the system messages are collected in their order, and no other text is.
pub proof fn law_system_texts_are_collected(messages: Seq<JsonView>, message: JsonView)
    ensures
        system_parts(Seq::empty()) == Seq::<Seq<char>>::empty(),
        message.get_text("role"@) == Some("system"@) && message.get_text("content"@) is Some
            ==> system_parts(messages.push(message)) == system_parts(messages).push(
            message.get_text("content"@)->Some_0,
        ),
        message.get_text("role"@) != Some("system"@) || message.get_text("content"@) is None
            ==> system_parts(messages.push(message)) == system_parts(messages),
        without_system(Seq::empty()) == Seq::<JsonView>::empty(),
        message.get_text("role"@) == Some("system"@) ==> without_system(messages.push(message))
            == without_system(messages),
        message.get_text("role"@) != Some("system"@) ==> without_system(messages.push(message))
            == without_system(messages).push(message),
{
    let rule = |m: JsonView| system_text(m);
    let keeps = |m: JsonView| !is_system(m);
    let all = messages.push(message);
    all.lemma_filter_map_take_succ(rule, messages.len() as int);
    assert(all.take(messages.len() as int) =~= messages);
    assert(all.take(all.len() as int) =~= all);
    messages.lemma_filter_push(message, keeps);
    reveal(Seq::filter);
    assert(Seq::<JsonView>::empty().filter_map(rule) =~= Seq::empty());
    assert(Seq::<JsonView>::empty().filter(keeps) =~= Seq::empty());
    if system_text(message) is Some {
        assert(system_parts(all) =~= system_parts(messages).push(system_text(message)->Some_0));
    } else {
        assert(system_parts(all) =~= system_parts(messages));
    }
}

/// The system messages of a payload move into its system prompt, with an empty line between each
/// two of them. Without a text the prompt stays as it is, and no other field changes.
pub proof fn law_system_prompt_is_extracted(
    members: Map<Seq<char>, JsonView>,
    messages: Seq<JsonView>,
    key: Seq<char>,
)
    requires
        members.contains_key("messages"@) && members["messages"@] == JsonView::Array(messages),
    ensures
        ({
            let payload = JsonView::Object(members);
            let done = system_extracted(payload);
            &&& done.get("messages"@) == Some(JsonView::Array(without_system(messages)))
            &&& system_parts(messages).len() > 0 ==> done.get_text("system"@) == Some(
                text::joined(system_parts(messages), "\n\n"@),
            )
            &&& system_parts(messages).len() == 0 ==> done.get("system"@) == payload.get(
                "system"@,
            )
            &&& key != "messages"@ && key != "system"@ ==> done.get(key) == payload.get(key)
        }),
{
    lemma_key_names();
}

/// Without a list of messages, a payload keeps its messages and its system prompt.
pub proof fn law_payload_without_messages_stays(payload: JsonView)
    requires
        !(payload.get("messages"@) matches Some(JsonView::Array(_))),
    ensures
        system_extracted(payload) == payload,
        tool_messages_converted(payload) == payload,
{
}

/// The conversion of the messages changes no other field.
pub proof fn law_message_conversion_keeps_other_fields(
    members: Map<Seq<char>, JsonView>,
    messages: Seq<JsonView>,
    key: Seq<char>,
)
    requires
        members.contains_key("messages"@) && members["messages"@] == JsonView::Array(messages),
    ensures
        tool_messages_converted(JsonView::Object(members)).get("messages"@) == Some(
            JsonView::Array(messages_converted(messages)),
        ),
        messages_converted(Seq::empty()) == Seq::<JsonView>::empty(),
        key != "messages"@ ==> tool_messages_converted(JsonView::Object(members)).get(key)
            == JsonView::Object(members).get(key),
{
}

/// A payload keeps its own limit on the tokens; without one it takes the limit under the newer
/// name, which is removed, or 4096. No other field changes.
pub proof fn law_token_limit_is_ensured(payload: JsonView, key: Seq<char>)
    requires
        payload is Object || payload is Null,
    ensures
        ({
            let done = max_tokens_ensured(payload);
            &&& payload.get("max_tokens"@) is Some ==> done == payload
            &&& payload.get("max_tokens"@) is None ==> {
                &&& done.get("max_completion_tokens"@) is None
                &&& payload.get("max_completion_tokens"@) matches Some(limit) ==> done.get(
                    "max_tokens"@,
                ) == Some(limit)
                &&& payload.get("max_completion_tokens"@) is None ==> done.get("max_tokens"@)
                    == Some(JsonView::Number(JsonNumber::PosInt(4096)))
            }
            &&& key != "max_tokens"@ && key != "max_completion_tokens"@ ==> done.get(key)
                == payload.get(key)
        }),
{
    lemma_key_names();
}

} // verus!
