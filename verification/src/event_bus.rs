//! Typed events, and the subscribers that pick the ones they care about.
//!
//! Events travel over a broadcast channel that the caller runs. A subscriber is handed what comes
//! out of the channel and says whether to deliver it.

use crate::json;
use crate::json::{Json, JsonNumber, JsonView};
use crate::strmap::StrMap;
use crate::text;
use crate::text::contains_text;
use vstd::prelude::*;

verus! {

/// The number of events that the channel buffers, where nothing else is said.
pub const DEFAULT_CAPACITY: usize = 256;

/// The category of an event.
#[derive(Debug, Clone, Copy, PartialEq, Eq, Structural, Hash)]
pub enum EventTopic {
    /// Tool execution.
    Tool,
    /// Requests to a language model and its responses.
    Llm,
    /// The lifecycle of agents.
    Agent,
    /// The lifecycle of sessions.
    Session,
    /// Cost and token usage.
    Cost,
    /// The system itself.
    System,
    /// Anything else.
    Custom,
}

impl EventTopic {
    /// The name of a topic.
    pub open spec fn text(self) -> Seq<char> {
        match self {
            EventTopic::Tool => "Tool"@,
            EventTopic::Llm => "Llm"@,
            EventTopic::Agent => "Agent"@,
            EventTopic::Session => "Session"@,
            EventTopic::Cost => "Cost"@,
            EventTopic::System => "System"@,
            EventTopic::Custom => "Custom"@,
        }
    }

    /// The name of a topic.
    pub fn name(self) -> (r: &'static str)
        ensures
            r@ == self.text(),
    {
        match self {
            EventTopic::Tool => "Tool",
            EventTopic::Llm => "Llm",
            EventTopic::Agent => "Agent",
            EventTopic::Session => "Session",
            EventTopic::Cost => "Cost",
            EventTopic::System => "System",
            EventTopic::Custom => "Custom",
        }
    }
}

/// An amount in dollars, as the bits of a 64-bit IEEE 754 number.
#[derive(Debug, Clone, Copy, PartialEq, Eq, Structural)]
pub struct Usd {
    /// The bits of the number.
    pub bits: u64,
}

/// The weight of the exponent in the bits of a number.
pub const EXPONENT_WEIGHT: u64 = 0x10_0000_0000_0000;

/// The number of exponents, the sign left out.
pub const EXPONENTS: u64 = 0x800;

impl Usd {
    /// Whether the amount is a number: infinities and what is no number have the largest exponent.
    pub open spec fn finite(self) -> bool {
        self.bits / EXPONENT_WEIGHT % EXPONENTS != EXPONENTS - 1
    }

    /// The amount as a JSON value: null where it is no number.
    pub open spec fn json(self) -> JsonView {
        if self.finite() {
            JsonView::Number(JsonNumber::Float(self.bits))
        } else {
            JsonView::Null
        }
    }

    /// The amount as a JSON value: null where it is no number.
    pub fn to_json(&self) -> (r: Json)
        ensures
            r@ == self.json(),
    {
        if self.bits / EXPONENT_WEIGHT % EXPONENTS != EXPONENTS - 1 {
            Json::Number(JsonNumber::Float(self.bits))
        } else {
            Json::Null
        }
    }
}

/// An event.
#[derive(Debug, Clone)]
pub enum RuntimeEvent {
    /// A tool call is about to start.
    ToolCallStart { tool_name: String, call_id: String, timestamp_ms: u64 },
    /// A tool call completed.
    ToolCallEnd {
        tool_name: String,
        call_id: String,
        duration_ms: u64,
        success: bool,
        timestamp_ms: u64,
    },
    /// A request was sent to a language model.
    LlmRequestStart { model: String, request_id: String, timestamp_ms: u64 },
    /// A language model responded.
    LlmResponseEnd {
        model: String,
        request_id: String,
        input_tokens: u64,
        output_tokens: u64,
        duration_ms: u64,
        timestamp_ms: u64,
    },
    /// An agent started working.
    AgentStart { agent_id: String, task: String, timestamp_ms: u64 },
    /// An agent finished.
    AgentEnd { agent_id: String, success: bool, timestamp_ms: u64 },
    /// An agent met an error.
    AgentError { agent_id: String, error: String, timestamp_ms: u64 },
    /// A session started.
    SessionStart { session_id: String, timestamp_ms: u64 },
    /// A session ended.
    SessionEnd { session_id: String, timestamp_ms: u64 },
    /// The status of a session changed.
    SessionStatusChanged { session_id: String, status: Json, timestamp_ms: u64 },
    /// Tokens were used.
    TokenUsage {
        model: String,
        input_tokens: u64,
        output_tokens: u64,
        cost_usd: Usd,
        timestamp_ms: u64,
    },
    /// The budget of a session is used up.
    BudgetExhausted { budget_usd: Usd, total_cost_usd: Usd, timestamp_ms: u64 },
    /// The configuration was read again.
    ConfigReloaded { timestamp_ms: u64 },
    /// A shutdown was requested.
    ShutdownRequested { reason: String, timestamp_ms: u64 },
    /// Anything else.
    Custom { event_type: String, source: String, data: Json, timestamp_ms: u64 },
}

/// No members.
pub open spec fn no_members() -> Map<Seq<char>, JsonView> {
    Map::empty()
}

/// A text as a JSON value.
pub open spec fn text_json(text: String) -> JsonView {
    JsonView::String(text@)
}

/// A number as a JSON value.
pub open spec fn number_json(n: u64) -> JsonView {
    JsonView::Number(JsonNumber::PosInt(n))
}

/// An object with one member: fields under the name of what they belong to.
pub open spec fn tagged(tag: Seq<char>, fields: Map<Seq<char>, JsonView>) -> JsonView {
    JsonView::Object(no_members().insert(tag, JsonView::Object(fields)))
}

fn tagged_value(tag: &str, fields: StrMap<Json>) -> (r: Json)
    ensures
        r@ == tagged(tag@, json::object_view(fields)),
{
    let mut outer: StrMap<Json> = StrMap::new();
    proof {
        json::lemma_object_view(outer);
        assert(json::object_view(outer) =~= no_members());
    }
    outer.set_member(tag, Json::Object(fields));
    Json::Object(outer)
}

impl RuntimeEvent {
    /// The topic of an event.
    pub open spec fn topic_of(&self) -> EventTopic {
        match self {
            RuntimeEvent::ToolCallStart { .. } => EventTopic::Tool,
            RuntimeEvent::ToolCallEnd { .. } => EventTopic::Tool,
            RuntimeEvent::LlmRequestStart { .. } => EventTopic::Llm,
            RuntimeEvent::LlmResponseEnd { .. } => EventTopic::Llm,
            RuntimeEvent::AgentStart { .. } => EventTopic::Agent,
            RuntimeEvent::AgentEnd { .. } => EventTopic::Agent,
            RuntimeEvent::AgentError { .. } => EventTopic::Agent,
            RuntimeEvent::SessionStart { .. } => EventTopic::Session,
            RuntimeEvent::SessionEnd { .. } => EventTopic::Session,
            RuntimeEvent::SessionStatusChanged { .. } => EventTopic::Session,
            RuntimeEvent::TokenUsage { .. } => EventTopic::Cost,
            RuntimeEvent::BudgetExhausted { .. } => EventTopic::Cost,
            RuntimeEvent::ConfigReloaded { .. } => EventTopic::System,
            RuntimeEvent::ShutdownRequested { .. } => EventTopic::System,
            RuntimeEvent::Custom { .. } => EventTopic::Custom,
        }
    }

    /// When the event happened, in milliseconds from the Unix epoch.
    pub open spec fn time_of(&self) -> u64 {
        match self {
            RuntimeEvent::ToolCallStart { timestamp_ms, .. } => *timestamp_ms,
            RuntimeEvent::ToolCallEnd { timestamp_ms, .. } => *timestamp_ms,
            RuntimeEvent::LlmRequestStart { timestamp_ms, .. } => *timestamp_ms,
            RuntimeEvent::LlmResponseEnd { timestamp_ms, .. } => *timestamp_ms,
            RuntimeEvent::AgentStart { timestamp_ms, .. } => *timestamp_ms,
            RuntimeEvent::AgentEnd { timestamp_ms, .. } => *timestamp_ms,
            RuntimeEvent::AgentError { timestamp_ms, .. } => *timestamp_ms,
            RuntimeEvent::SessionStart { timestamp_ms, .. } => *timestamp_ms,
            RuntimeEvent::SessionEnd { timestamp_ms, .. } => *timestamp_ms,
            RuntimeEvent::SessionStatusChanged { timestamp_ms, .. } => *timestamp_ms,
            RuntimeEvent::TokenUsage { timestamp_ms, .. } => *timestamp_ms,
            RuntimeEvent::BudgetExhausted { timestamp_ms, .. } => *timestamp_ms,
            RuntimeEvent::ConfigReloaded { timestamp_ms } => *timestamp_ms,
            RuntimeEvent::ShutdownRequested { timestamp_ms, .. } => *timestamp_ms,
            RuntimeEvent::Custom { timestamp_ms, .. } => *timestamp_ms,
        }
    }

    /// The event as a JSON value: its fields under the name of its variant.
    pub open spec fn json(self) -> JsonView {
        match self {
            RuntimeEvent::ToolCallStart { tool_name, call_id, timestamp_ms } => tagged(
                "ToolCallStart"@,
                no_members()
                    .insert("tool_name"@, text_json(tool_name))
                    .insert("call_id"@, text_json(call_id))
                    .insert("timestamp_ms"@, number_json(timestamp_ms)),
            ),
            RuntimeEvent::ToolCallEnd { tool_name, call_id, duration_ms, success, timestamp_ms } => tagged(
                "ToolCallEnd"@,
                no_members()
                    .insert("tool_name"@, text_json(tool_name))
                    .insert("call_id"@, text_json(call_id))
                    .insert("duration_ms"@, number_json(duration_ms))
                    .insert("success"@, JsonView::Bool(success))
                    .insert("timestamp_ms"@, number_json(timestamp_ms)),
            ),
            RuntimeEvent::LlmRequestStart { model, request_id, timestamp_ms } => tagged(
                "LlmRequestStart"@,
                no_members()
                    .insert("model"@, text_json(model))
                    .insert("request_id"@, text_json(request_id))
                    .insert("timestamp_ms"@, number_json(timestamp_ms)),
            ),
            RuntimeEvent::LlmResponseEnd { model, request_id, input_tokens, output_tokens, duration_ms, timestamp_ms } => tagged(
                "LlmResponseEnd"@,
                no_members()
                    .insert("model"@, text_json(model))
                    .insert("request_id"@, text_json(request_id))
                    .insert("input_tokens"@, number_json(input_tokens))
                    .insert("output_tokens"@, number_json(output_tokens))
                    .insert("duration_ms"@, number_json(duration_ms))
                    .insert("timestamp_ms"@, number_json(timestamp_ms)),
            ),
            RuntimeEvent::AgentStart { agent_id, task, timestamp_ms } => tagged(
                "AgentStart"@,
                no_members()
                    .insert("agent_id"@, text_json(agent_id))
                    .insert("task"@, text_json(task))
                    .insert("timestamp_ms"@, number_json(timestamp_ms)),
            ),
            RuntimeEvent::AgentEnd { agent_id, success, timestamp_ms } => tagged(
                "AgentEnd"@,
                no_members()
                    .insert("agent_id"@, text_json(agent_id))
                    .insert("success"@, JsonView::Bool(success))
                    .insert("timestamp_ms"@, number_json(timestamp_ms)),
            ),
            RuntimeEvent::AgentError { agent_id, error, timestamp_ms } => tagged(
                "AgentError"@,
                no_members()
                    .insert("agent_id"@, text_json(agent_id))
                    .insert("error"@, text_json(error))
                    .insert("timestamp_ms"@, number_json(timestamp_ms)),
            ),
            RuntimeEvent::SessionStart { session_id, timestamp_ms } => tagged(
                "SessionStart"@,
                no_members()
                    .insert("session_id"@, text_json(session_id))
                    .insert("timestamp_ms"@, number_json(timestamp_ms)),
            ),
            RuntimeEvent::SessionEnd { session_id, timestamp_ms } => tagged(
                "SessionEnd"@,
                no_members()
                    .insert("session_id"@, text_json(session_id))
                    .insert("timestamp_ms"@, number_json(timestamp_ms)),
            ),
            RuntimeEvent::SessionStatusChanged { session_id, status, timestamp_ms } => tagged(
                "SessionStatusChanged"@,
                no_members()
                    .insert("session_id"@, text_json(session_id))
                    .insert("status"@, status@)
                    .insert("timestamp_ms"@, number_json(timestamp_ms)),
            ),
            RuntimeEvent::TokenUsage { model, input_tokens, output_tokens, cost_usd, timestamp_ms } => tagged(
                "TokenUsage"@,
                no_members()
                    .insert("model"@, text_json(model))
                    .insert("input_tokens"@, number_json(input_tokens))
                    .insert("output_tokens"@, number_json(output_tokens))
                    .insert("cost_usd"@, cost_usd.json())
                    .insert("timestamp_ms"@, number_json(timestamp_ms)),
            ),
            RuntimeEvent::BudgetExhausted { budget_usd, total_cost_usd, timestamp_ms } => tagged(
                "BudgetExhausted"@,
                no_members()
                    .insert("budget_usd"@, budget_usd.json())
                    .insert("total_cost_usd"@, total_cost_usd.json())
                    .insert("timestamp_ms"@, number_json(timestamp_ms)),
            ),
            RuntimeEvent::ConfigReloaded { timestamp_ms } => tagged(
                "ConfigReloaded"@,
                no_members()
                    .insert("timestamp_ms"@, number_json(timestamp_ms)),
            ),
            RuntimeEvent::ShutdownRequested { reason, timestamp_ms } => tagged(
                "ShutdownRequested"@,
                no_members()
                    .insert("reason"@, text_json(reason))
                    .insert("timestamp_ms"@, number_json(timestamp_ms)),
            ),
            RuntimeEvent::Custom { event_type, source, data, timestamp_ms } => tagged(
                "Custom"@,
                no_members()
                    .insert("event_type"@, text_json(event_type))
                    .insert("source"@, text_json(source))
                    .insert("data"@, data@)
                    .insert("timestamp_ms"@, number_json(timestamp_ms)),
            ),
        }
    }

    /// The topic of the event.
    pub fn topic(&self) -> (r: EventTopic)
        ensures
            r == self.topic_of(),
    {
        match self {
            RuntimeEvent::ToolCallStart { .. } | RuntimeEvent::ToolCallEnd { .. } => {
                EventTopic::Tool
            },
            RuntimeEvent::LlmRequestStart { .. } | RuntimeEvent::LlmResponseEnd { .. } => {
                EventTopic::Llm
            },
            RuntimeEvent::AgentStart { .. }
            | RuntimeEvent::AgentEnd { .. }
            | RuntimeEvent::AgentError { .. } => EventTopic::Agent,
            RuntimeEvent::SessionStart { .. }
            | RuntimeEvent::SessionEnd { .. }
            | RuntimeEvent::SessionStatusChanged { .. } => EventTopic::Session,
            RuntimeEvent::TokenUsage { .. } | RuntimeEvent::BudgetExhausted { .. } => {
                EventTopic::Cost
            },
            RuntimeEvent::ConfigReloaded { .. } | RuntimeEvent::ShutdownRequested { .. } => {
                EventTopic::System
            },
            RuntimeEvent::Custom { .. } => EventTopic::Custom,
        }
    }

    /// When the event happened, in milliseconds from the Unix epoch.
    pub fn timestamp_ms(&self) -> (r: u64)
        ensures
            r == self.time_of(),
    {
        match self {
            RuntimeEvent::ToolCallStart { timestamp_ms, .. }
            | RuntimeEvent::ToolCallEnd { timestamp_ms, .. }
            | RuntimeEvent::LlmRequestStart { timestamp_ms, .. }
            | RuntimeEvent::LlmResponseEnd { timestamp_ms, .. }
            | RuntimeEvent::AgentStart { timestamp_ms, .. }
            | RuntimeEvent::AgentEnd { timestamp_ms, .. }
            | RuntimeEvent::AgentError { timestamp_ms, .. }
            | RuntimeEvent::SessionStart { timestamp_ms, .. }
            | RuntimeEvent::SessionEnd { timestamp_ms, .. }
            | RuntimeEvent::SessionStatusChanged { timestamp_ms, .. }
            | RuntimeEvent::TokenUsage { timestamp_ms, .. }
            | RuntimeEvent::BudgetExhausted { timestamp_ms, .. }
            | RuntimeEvent::ConfigReloaded { timestamp_ms }
            | RuntimeEvent::ShutdownRequested { timestamp_ms, .. }
            | RuntimeEvent::Custom { timestamp_ms, .. } => *timestamp_ms,
        }
    }

    /// The event as a JSON value: its fields under the name of its variant.
    pub fn to_json(&self) -> (r: Json)
        ensures
            r@ == self.json(),
    {
        let mut fields: StrMap<Json> = StrMap::new();
        proof {
            json::lemma_object_view(fields);
            assert(json::object_view(fields) =~= no_members());
        }
        match self {
            RuntimeEvent::ToolCallStart { tool_name, call_id, timestamp_ms } => {
                fields.set_member("tool_name", Json::text(tool_name.as_str()));
                fields.set_member("call_id", Json::text(call_id.as_str()));
                fields.set_member("timestamp_ms", Json::unsigned(*timestamp_ms));
                tagged_value("ToolCallStart", fields)
            },
            RuntimeEvent::ToolCallEnd { tool_name, call_id, duration_ms, success, timestamp_ms } => {
                fields.set_member("tool_name", Json::text(tool_name.as_str()));
                fields.set_member("call_id", Json::text(call_id.as_str()));
                fields.set_member("duration_ms", Json::unsigned(*duration_ms));
                fields.set_member("success", Json::Bool(*success));
                fields.set_member("timestamp_ms", Json::unsigned(*timestamp_ms));
                tagged_value("ToolCallEnd", fields)
            },
            RuntimeEvent::LlmRequestStart { model, request_id, timestamp_ms } => {
                fields.set_member("model", Json::text(model.as_str()));
                fields.set_member("request_id", Json::text(request_id.as_str()));
                fields.set_member("timestamp_ms", Json::unsigned(*timestamp_ms));
                tagged_value("LlmRequestStart", fields)
            },
            RuntimeEvent::LlmResponseEnd { model, request_id, input_tokens, output_tokens, duration_ms, timestamp_ms } => {
                fields.set_member("model", Json::text(model.as_str()));
                fields.set_member("request_id", Json::text(request_id.as_str()));
                fields.set_member("input_tokens", Json::unsigned(*input_tokens));
                fields.set_member("output_tokens", Json::unsigned(*output_tokens));
                fields.set_member("duration_ms", Json::unsigned(*duration_ms));
                fields.set_member("timestamp_ms", Json::unsigned(*timestamp_ms));
                tagged_value("LlmResponseEnd", fields)
            },
            RuntimeEvent::AgentStart { agent_id, task, timestamp_ms } => {
                fields.set_member("agent_id", Json::text(agent_id.as_str()));
                fields.set_member("task", Json::text(task.as_str()));
                fields.set_member("timestamp_ms", Json::unsigned(*timestamp_ms));
                tagged_value("AgentStart", fields)
            },
            RuntimeEvent::AgentEnd { agent_id, success, timestamp_ms } => {
                fields.set_member("agent_id", Json::text(agent_id.as_str()));
                fields.set_member("success", Json::Bool(*success));
                fields.set_member("timestamp_ms", Json::unsigned(*timestamp_ms));
                tagged_value("AgentEnd", fields)
            },
            RuntimeEvent::AgentError { agent_id, error, timestamp_ms } => {
                fields.set_member("agent_id", Json::text(agent_id.as_str()));
                fields.set_member("error", Json::text(error.as_str()));
                fields.set_member("timestamp_ms", Json::unsigned(*timestamp_ms));
                tagged_value("AgentError", fields)
            },
            RuntimeEvent::SessionStart { session_id, timestamp_ms } => {
                fields.set_member("session_id", Json::text(session_id.as_str()));
                fields.set_member("timestamp_ms", Json::unsigned(*timestamp_ms));
                tagged_value("SessionStart", fields)
            },
            RuntimeEvent::SessionEnd { session_id, timestamp_ms } => {
                fields.set_member("session_id", Json::text(session_id.as_str()));
                fields.set_member("timestamp_ms", Json::unsigned(*timestamp_ms));
                tagged_value("SessionEnd", fields)
            },
            RuntimeEvent::SessionStatusChanged { session_id, status, timestamp_ms } => {
                fields.set_member("session_id", Json::text(session_id.as_str()));
                fields.set_member("status", status.copied());
                fields.set_member("timestamp_ms", Json::unsigned(*timestamp_ms));
                tagged_value("SessionStatusChanged", fields)
            },
            RuntimeEvent::TokenUsage { model, input_tokens, output_tokens, cost_usd, timestamp_ms } => {
                fields.set_member("model", Json::text(model.as_str()));
                fields.set_member("input_tokens", Json::unsigned(*input_tokens));
                fields.set_member("output_tokens", Json::unsigned(*output_tokens));
                fields.set_member("cost_usd", cost_usd.to_json());
                fields.set_member("timestamp_ms", Json::unsigned(*timestamp_ms));
                tagged_value("TokenUsage", fields)
            },
            RuntimeEvent::BudgetExhausted { budget_usd, total_cost_usd, timestamp_ms } => {
                fields.set_member("budget_usd", budget_usd.to_json());
                fields.set_member("total_cost_usd", total_cost_usd.to_json());
                fields.set_member("timestamp_ms", Json::unsigned(*timestamp_ms));
                tagged_value("BudgetExhausted", fields)
            },
            RuntimeEvent::ConfigReloaded { timestamp_ms } => {
                fields.set_member("timestamp_ms", Json::unsigned(*timestamp_ms));
                tagged_value("ConfigReloaded", fields)
            },
            RuntimeEvent::ShutdownRequested { reason, timestamp_ms } => {
                fields.set_member("reason", Json::text(reason.as_str()));
                fields.set_member("timestamp_ms", Json::unsigned(*timestamp_ms));
                tagged_value("ShutdownRequested", fields)
            },
            RuntimeEvent::Custom { event_type, source, data, timestamp_ms } => {
                fields.set_member("event_type", Json::text(event_type.as_str()));
                fields.set_member("source", Json::text(source.as_str()));
                fields.set_member("data", data.copied());
                fields.set_member("timestamp_ms", Json::unsigned(*timestamp_ms));
                tagged_value("Custom", fields)
            },
        }
    }
}

/// Read the clock: the nanoseconds from the Unix epoch, unless the clock stands before it.
///
/// The call is `std::time::SystemTime::elapsed` on `std::time::UNIX_EPOCH`; the time that it
/// gives is handed on as a whole number of nanoseconds. Nothing is claimed of it: the clock can
/// be set.
#[verifier::external_body]
fn epoch_nanos() -> (r: Option<u128>)
{
    match std::time::UNIX_EPOCH.elapsed() {
        Ok(time) => Some(time.as_nanos()),
        Err(_) => None,
    }
}

/// Whether a reading of the clock can come back from it.
pub closed spec fn clock_can_show(nanos: Option<u128>) -> bool {
    call_ensures(epoch_nanos, (), nanos)
}

/// The number of nanoseconds in a millisecond.
pub const NANOS_PER_MILLI: u128 = 1_000_000;

/// The number of 64-bit timestamps.
pub const TIMESTAMPS: u128 = 0x1_0000_0000_0000_0000;

/// The timestamp for a reading of the clock: the low 64 bits of its whole milliseconds, and zero
/// for no reading.
pub open spec fn timestamp_of(nanos: Option<u128>) -> u64 {
    match nanos {
        Some(n) => (n / NANOS_PER_MILLI % TIMESTAMPS) as u64,
        None => 0,
    }
}

/// The timestamp for a reading of the clock: the low 64 bits of its whole milliseconds, and zero
/// for no reading.
pub fn to_timestamp(nanos: Option<u128>) -> (r: u64)
    ensures
        r == timestamp_of(nanos),
{
    match nanos {
        Some(n) => (n / NANOS_PER_MILLI % TIMESTAMPS) as u64,
        None => 0,
    }
}

/// The time in milliseconds from the Unix epoch.
///
/// It is the timestamp for a reading of the clock; what the clock shows is not known.
pub fn now_ms() -> (r: u64)
    ensures
        exists|nanos: Option<u128>| clock_can_show(nanos) && r == #[trigger] timestamp_of(nanos),
{
    let nanos = epoch_nanos();
    let r: u64 = to_timestamp(nanos);
    assert(clock_can_show(nanos) && r == timestamp_of(nanos));
    r
}

/// What an untyped event says.
pub struct EventView {
    pub event_type: Seq<char>,
    pub source: Seq<char>,
    pub data: JsonView,
    pub timestamp_ms: u64,
}

/// An event whose type is a text.
#[derive(Debug, Clone)]
pub struct Event {
    /// The type of the event.
    pub event_type: String,
    /// The component that published the event.
    pub source: String,
    /// What the event carries.
    pub data: Json,
    /// When the event happened, in milliseconds from the Unix epoch.
    pub timestamp_ms: u64,
}

impl View for Event {
    type V = EventView;

    open spec fn view(&self) -> EventView {
        EventView {
            event_type: self.event_type@,
            source: self.source@,
            data: self.data@,
            timestamp_ms: self.timestamp_ms,
        }
    }
}

/// An event as an untyped one.
pub open spec fn untyped(event: RuntimeEvent) -> EventView {
    match event {
        RuntimeEvent::Custom { event_type, source, data, timestamp_ms } => EventView {
            event_type: event_type@,
            source: source@,
            data: data@,
            timestamp_ms,
        },
        _ => EventView {
            event_type: event.topic_of().text(),
            source: Seq::empty(),
            data: event.json(),
            timestamp_ms: event.time_of(),
        },
    }
}

impl Event {
    /// An event that happened at a given time.
    pub fn at(event_type: &str, source: &str, data: Json, timestamp_ms: u64) -> (r: Self)
        ensures
            r@ == (EventView {
                event_type: event_type@,
                source: source@,
                data: data@,
                timestamp_ms,
            }),
    {
        Event {
            event_type: event_type.to_owned(),
            source: source.to_owned(),
            data,
            timestamp_ms,
        }
    }

    /// An event that happens now.
    pub fn new(event_type: &str, source: &str, data: Json) -> (r: Self)
        ensures
            r@ == (EventView {
                event_type: event_type@,
                source: source@,
                data: data@,
                timestamp_ms: r.timestamp_ms,
            }),
            exists|nanos: Option<u128>|
                clock_can_show(nanos) && r.timestamp_ms == #[trigger] timestamp_of(nanos),
    {
        let timestamp_ms: u64 = now_ms();
        Event::at(event_type, source, data, timestamp_ms)
    }

    /// The event as a typed one.
    pub fn into_runtime_event(self) -> (r: RuntimeEvent)
        ensures
            r == (RuntimeEvent::Custom {
                event_type: self.event_type,
                source: self.source,
                data: self.data,
                timestamp_ms: self.timestamp_ms,
            }),
            untyped(r) == self@,
    {
        RuntimeEvent::Custom {
            event_type: self.event_type,
            source: self.source,
            data: self.data,
            timestamp_ms: self.timestamp_ms,
        }
    }

    /// An event as an untyped one: under the name of its topic, unless it has a type of its own.
    pub fn from_runtime_event(event: &RuntimeEvent) -> (r: Self)
        ensures
            r@ == untyped(*event),
    {
        match event {
            RuntimeEvent::Custom { event_type, source, data, timestamp_ms } => Event {
                event_type: event_type.clone(),
                source: source.clone(),
                data: data.copied(),
                timestamp_ms: *timestamp_ms,
            },
            _ => {
                let source = String::new();
                proof {
                    assert(source@ =~= Seq::empty());
                }
                Event {
                    event_type: event.topic().name().to_owned(),
                    source,
                    data: event.to_json(),
                    timestamp_ms: event.timestamp_ms(),
                }
            },
        }
    }
}

/// What comes out of the channel of a subscriber.
#[derive(Debug)]
pub enum Received {
    /// The next event.
    Event(RuntimeEvent),
    /// So many events were missed.
    Lagged(u64),
    /// No event will come any more.
    Closed,
}

/// What a subscriber does with what it received.
#[derive(Debug)]
pub enum Delivery<T> {
    /// It delivers an event.
    Deliver(T),
    /// It waits for what comes next.
    Skip,
    /// It ends.
    Closed,
}

/// What a subscriber to some topics does with what it received.
pub open spec fn topic_delivery(topics: Set<EventTopic>, received: Received) -> Delivery<
    RuntimeEvent,
> {
    match received {
        Received::Event(event) => if topics.contains(event.topic_of()) {
            Delivery::Deliver(event)
        } else {
            Delivery::Skip
        },
        Received::Lagged(_) => Delivery::Skip,
        Received::Closed => Delivery::Closed,
    }
}

/// A subscriber that delivers the events of its topics only.
#[derive(Debug, Clone)]
pub struct TopicSubscriber {
    topics: Vec<EventTopic>,
}

impl View for TopicSubscriber {
    type V = Set<EventTopic>;

    closed spec fn view(&self) -> Set<EventTopic> {
        self.topics@.to_set()
    }
}

impl TopicSubscriber {
    /// The topics of the subscriber, as they were given.
    pub closed spec fn list(&self) -> Seq<EventTopic> {
        self.topics@
    }

    /// A subscriber to the given topics.
    pub fn new(topics: Vec<EventTopic>) -> (r: Self)
        ensures
            r.list() == topics@,
            r@ == topics@.to_set(),
    {
        TopicSubscriber { topics }
    }

    /// Whether the subscriber delivers events of a topic.
    pub fn wants(&self, topic: EventTopic) -> (r: bool)
        ensures
            r == self@.contains(topic),
    {
        let mut i: usize = 0;
        while i < self.topics.len()
            invariant
                i <= self.topics@.len(),
                forall|j: int| 0 <= j < i ==> #[trigger] self.topics@[j] != topic,
            decreases self.topics@.len() - i,
        {
            if self.topics[i] == topic {
                assert(self.topics@.contains(topic));
                return true;
            }
            i += 1;
        }
        false
    }

    /// Decide on what came out of the channel.
    pub fn recv(&self, received: Received) -> (r: Delivery<RuntimeEvent>)
        ensures
            r == topic_delivery(self@, received),
    {
        match received {
            Received::Event(event) => {
                if self.wants(event.topic()) {
                    Delivery::Deliver(event)
                } else {
                    Delivery::Skip
                }
            },
            Received::Lagged(_) => Delivery::Skip,
            Received::Closed => Delivery::Closed,
        }
    }

    /// The topics of the subscriber.
    pub fn topics(&self) -> (r: &Vec<EventTopic>)
        ensures
            r@ == self.list(),
            r@.to_set() == self@,
    {
        &self.topics
    }
}

/// What the delivery of an untyped event says.
pub open spec fn delivery_view(delivery: Delivery<Event>) -> Delivery<EventView> {
    match delivery {
        Delivery::Deliver(event) => Delivery::Deliver(event@),
        Delivery::Skip => Delivery::Skip,
        Delivery::Closed => Delivery::Closed,
    }
}

/// A subscriber that delivers untyped events, optionally those of some types only.
#[derive(Debug, Clone)]
pub struct FilteredSubscriber {
    event_types: Option<Vec<String>>,
}

impl FilteredSubscriber {
    /// Whether the subscriber delivers events of a type.
    pub closed spec fn accepts(&self, event_type: Seq<char>) -> bool {
        accepts_type(self.event_types, event_type)
    }

    /// A subscriber to events of the given types, or to all.
    pub fn new(event_types: Option<Vec<String>>) -> (r: Self)
        ensures
            forall|t: Seq<char>| #[trigger] r.accepts(t) == accepts_type(event_types, t),
    {
        FilteredSubscriber { event_types }
    }

    /// Whether the subscriber delivers events of a type.
    pub fn wants(&self, event_type: &str) -> (r: bool)
        ensures
            r == self.accepts(event_type@),
    {
        match &self.event_types {
            Some(types) => contains_text(types, event_type),
            None => true,
        }
    }

    /// What the subscriber does with what it received.
    pub open spec fn delivery(&self, received: Received) -> Delivery<EventView> {
        match received {
            Received::Event(event) => if self.accepts(untyped(event).event_type) {
                Delivery::Deliver(untyped(event))
            } else {
                Delivery::Skip
            },
            Received::Lagged(_) => Delivery::Skip,
            Received::Closed => Delivery::Closed,
        }
    }

    /// Decide on what came out of the channel.
    pub fn recv(&self, received: Received) -> (r: Delivery<Event>)
        ensures
            delivery_view(r) == self.delivery(received),
    {
        match received {
            Received::Event(runtime_event) => {
                let event = Event::from_runtime_event(&runtime_event);
                if self.wants(event.event_type.as_str()) {
                    Delivery::Deliver(event)
                } else {
                    Delivery::Skip
                }
            },
            Received::Lagged(_) => Delivery::Skip,
            Received::Closed => Delivery::Closed,
        }
    }
}

/// Whether a type is among the given ones; without them, every type is.
pub open spec fn accepts_type(types: Option<Vec<String>>, event_type: Seq<char>) -> bool {
    match types {
        Some(list) => text::texts(list@).contains(event_type),
        None => true,
    }
}

/// The test whether an event is of a type.
pub open spec fn is_of_type(event_type: Seq<char>) -> spec_fn(Event) -> bool {
    |e: Event| e.event_type@ == event_type
}

/// The events of a type, in their order.
pub open spec fn of_type<'a>(events: Seq<Event>, event_type: Seq<char>) -> Seq<&'a Event> {
    events.filter(is_of_type(event_type)).map_values(|e: Event| &e)
}

/// The groups of a list of events: each type that occurs, with its events.
pub open spec fn are_groups(groups: Map<Seq<char>, Vec<&Event>>, events: Seq<Event>) -> bool {
    &&& forall|t: Seq<char>| #[trigger]
        groups.contains_key(t) <==> of_type(events, t).len() > 0
    &&& forall|t: Seq<char>| #[trigger]
        groups.contains_key(t) ==> groups[t]@ == of_type(events, t)
}

/// Group events by their types.
pub fn group_events_by_type(events: &[Event]) -> (r: StrMap<Vec<&Event>>)
    ensures
        are_groups(r@, events@),
{
    let mut groups: StrMap<Vec<&Event>> = StrMap::new();
    let mut i: usize = 0;
    proof {
        assert(events@.take(0) =~= Seq::empty());
    }
    while i < events.len()
        invariant
            i <= events@.len(),
            are_groups(groups@, events@.take(i as int)),
        decreases events@.len() - i,
    {
        let event = &events[i];
        let name = event.event_type.as_str();
        let ghost before = groups@;
        let ghost seen = events@.take(i as int);
        let ghost now = events@.take(i + 1);
        proof {
            assert(now =~= seen.push(*event));
            assert forall|t: Seq<char>| #[trigger] of_type(now, t) == if event.event_type@ == t {
                of_type(seen, t).push(event)
            } else {
                of_type(seen, t)
            } by {
                seen.lemma_filter_push(*event, is_of_type(t));
                assert(of_type(now, t) =~= if event.event_type@ == t {
                    of_type(seen, t).push(event)
                } else {
                    of_type(seen, t)
                });
            }
        }
        let mut group: Vec<&Event> = match groups.remove(name) {
            Some(found) => found,
            None => Vec::new(),
        };
        proof {
            assert(group@ =~= of_type(seen, name@));
        }
        group.push(event);
        groups.insert(name, group);
        proof {
            assert forall|t: Seq<char>| true implies (#[trigger] groups@.contains_key(t) <==> of_type(
                now,
                t,
            ).len() > 0) && (groups@.contains_key(t) ==> groups@[t]@ == of_type(now, t)) by {
                if t != name@ {
                    assert(groups@.contains_key(t) == before.contains_key(t));
                }
            }
        }
        i += 1;
    }
    proof {
        assert(events@.take(events@.len() as int) =~= events@);
    }
    groups
}

/// The test whether an event is of a topic.
pub open spec fn is_of_topic(topic: EventTopic) -> spec_fn(RuntimeEvent) -> bool {
    |e: RuntimeEvent| e.topic_of() == topic
}

/// The events of a topic, in their order.
pub open spec fn of_topic<'a>(events: Seq<RuntimeEvent>, topic: EventTopic) -> Seq<
    &'a RuntimeEvent,
> {
    events.filter(is_of_topic(topic)).map_values(|e: RuntimeEvent| &e)
}

/// Events by their topics.
#[derive(Debug)]
pub struct TopicGroups<'a> {
    tool: Vec<&'a RuntimeEvent>,
    llm: Vec<&'a RuntimeEvent>,
    agent: Vec<&'a RuntimeEvent>,
    session: Vec<&'a RuntimeEvent>,
    cost: Vec<&'a RuntimeEvent>,
    system: Vec<&'a RuntimeEvent>,
    custom: Vec<&'a RuntimeEvent>,
}

impl<'a> TopicGroups<'a> {
    /// The events of a topic.
    pub closed spec fn group(&self, topic: EventTopic) -> Seq<&'a RuntimeEvent> {
        match topic {
            EventTopic::Tool => self.tool@,
            EventTopic::Llm => self.llm@,
            EventTopic::Agent => self.agent@,
            EventTopic::Session => self.session@,
            EventTopic::Cost => self.cost@,
            EventTopic::System => self.system@,
            EventTopic::Custom => self.custom@,
        }
    }

    /// The events of a topic, if there are any.
    pub fn get(&self, topic: EventTopic) -> (r: Option<&Vec<&'a RuntimeEvent>>)
        ensures
            match r {
                Some(events) => events@.len() > 0 && events@ == self.group(topic),
                None => self.group(topic).len() == 0,
            },
    {
        let group = match topic {
            EventTopic::Tool => &self.tool,
            EventTopic::Llm => &self.llm,
            EventTopic::Agent => &self.agent,
            EventTopic::Session => &self.session,
            EventTopic::Cost => &self.cost,
            EventTopic::System => &self.system,
            EventTopic::Custom => &self.custom,
        };
        if group.len() > 0 {
            Some(group)
        } else {
            None
        }
    }
}

fn select_topic(events: &[RuntimeEvent], topic: EventTopic) -> (r: Vec<&RuntimeEvent>)
    ensures
        r@ == of_topic(events@, topic),
{
    let mut r: Vec<&RuntimeEvent> = Vec::new();
    let mut i: usize = 0;
    proof {
        assert(r@ =~= of_topic(events@.take(0), topic));
    }
    while i < events.len()
        invariant
            i <= events@.len(),
            r@ == of_topic(events@.take(i as int), topic),
        decreases events@.len() - i,
    {
        let event = &events[i];
        proof {
            assert(events@.take(i + 1) =~= events@.take(i as int).push(*event));
            events@.take(i as int).lemma_filter_push(*event, is_of_topic(topic));
        }
        if event.topic() == topic {
            r.push(event);
        }
        i += 1;
    }
    proof {
        assert(events@.take(events@.len() as int) =~= events@);
    }
    r
}

/// Group events by their topics.
pub fn group_runtime_events_by_topic(events: &[RuntimeEvent]) -> (r: TopicGroups<'_>)
    ensures
        forall|topic: EventTopic| #[trigger] r.group(topic) == of_topic(events@, topic),
{
    TopicGroups {
        tool: select_topic(events, EventTopic::Tool),
        llm: select_topic(events, EventTopic::Llm),
        agent: select_topic(events, EventTopic::Agent),
        session: select_topic(events, EventTopic::Session),
        cost: select_topic(events, EventTopic::Cost),
        system: select_topic(events, EventTopic::System),
        custom: select_topic(events, EventTopic::Custom),
    }
}

/// The event that a subscriber to some topics delivers, if it delivers one.
pub open spec fn event_delivered(topics: Set<EventTopic>) -> spec_fn(Received) -> Option<
    RuntimeEvent,
> {
    |received: Received|
        match topic_delivery(topics, received) {
            Delivery::Deliver(event) => Some(event),
            _ => None,
        }
}

/// Of what comes out of the channel, a subscriber delivers exactly the events of its topics.
pub proof fn law_subscriber_delivers_its_topics(
    topics: Set<EventTopic>,
    queue: Seq<Received>,
    event: RuntimeEvent,
)
    ensures
        queue.filter_map(event_delivered(topics)).contains(event) <==> queue.contains(
            Received::Event(event),
        ) && topics.contains(event.topic_of()),
    decreases queue.len(),
{
    broadcast use vstd::seq_lib::group_seq_properties;

    if queue.len() > 0 {
        let init = queue.drop_last();
        let rule = event_delivered(topics);
        law_subscriber_delivers_its_topics(topics, init, event);
        queue.lemma_filter_map_take_succ(rule, queue.len() - 1);
        assert(queue.take(queue.len() as int) =~= queue);
        assert(queue.take(queue.len() - 1) =~= init);
        assert(init.push(queue.last()) =~= queue);
    }
}

/// The event that was received, if it is one.
pub open spec fn received_event() -> spec_fn(Received) -> Option<RuntimeEvent> {
    |received: Received|
        match received {
            Received::Event(event) => Some(event),
            _ => None,
        }
}

/// The events that come out of the channel, in their order.
pub open spec fn received_events(queue: Seq<Received>) -> Seq<RuntimeEvent> {
    queue.filter_map(received_event())
}

/// The test whether an event is of one of some topics.
pub open spec fn is_wanted(topics: Set<EventTopic>) -> spec_fn(RuntimeEvent) -> bool {
    |event: RuntimeEvent| topics.contains(event.topic_of())
}

/// A subscriber delivers the events of its topics in the order in which they come out of the
/// channel.
pub proof fn law_subscriber_keeps_the_order(topics: Set<EventTopic>, queue: Seq<Received>)
    ensures
        queue.filter_map(event_delivered(topics)) == received_events(queue).filter(
            is_wanted(topics),
        ),
    decreases queue.len(),
{
    if queue.len() > 0 {
        let init = queue.drop_last();
        let n = queue.len() - 1;
        law_subscriber_keeps_the_order(topics, init);
        queue.lemma_filter_map_take_succ(event_delivered(topics), n);
        queue.lemma_filter_map_take_succ(received_event(), n);
        assert(queue.take(n + 1) =~= queue);
        assert(queue.take(n) =~= init);
        if let Received::Event(event) = queue.last() {
            let before = received_events(init);
            assert(received_events(queue) =~= before.push(event));
            before.lemma_filter_push(event, is_wanted(topics));
        }
    } else {
        assert(received_events(queue) =~= Seq::empty());
        assert(received_events(queue).filter(is_wanted(topics)) =~= Seq::empty());
    }
}

impl FilteredSubscriber {
    /// The untyped event that the subscriber delivers, if it delivers one.
    pub open spec fn delivered(self) -> spec_fn(Received) -> Option<EventView> {
        |received: Received|
            match self.delivery(received) {
                Delivery::Deliver(event) => Some(event),
                _ => None,
            }
    }

    /// The test whether the subscriber delivers an untyped event.
    pub open spec fn wanted(self) -> spec_fn(EventView) -> bool {
        |event: EventView| self.accepts(event.event_type)
    }
}

/// Events as untyped ones.
pub open spec fn all_untyped(events: Seq<RuntimeEvent>) -> Seq<EventView> {
    events.map_values(|event: RuntimeEvent| untyped(event))
}

/// A subscriber to types delivers exactly the events of its types, as untyped ones, in the order
/// in which they come out of the channel.
pub proof fn law_filtered_subscriber_keeps_the_order(
    subscriber: FilteredSubscriber,
    queue: Seq<Received>,
)
    ensures
        queue.filter_map(subscriber.delivered()) == all_untyped(received_events(queue)).filter(
            subscriber.wanted(),
        ),
    decreases queue.len(),
{
    if queue.len() > 0 {
        let init = queue.drop_last();
        let n = queue.len() - 1;
        law_filtered_subscriber_keeps_the_order(subscriber, init);
        queue.lemma_filter_map_take_succ(subscriber.delivered(), n);
        queue.lemma_filter_map_take_succ(received_event(), n);
        assert(queue.take(n + 1) =~= queue);
        assert(queue.take(n) =~= init);
        if let Received::Event(event) = queue.last() {
            let before = all_untyped(received_events(init));
            assert(all_untyped(received_events(queue)) =~= before.push(untyped(event)));
            before.lemma_filter_push(untyped(event), subscriber.wanted());
        }
    } else {
        assert(received_events(queue) =~= Seq::empty());
        assert(all_untyped(received_events(queue)) =~= Seq::empty());
        assert(all_untyped(received_events(queue)).filter(subscriber.wanted()) =~= Seq::empty());
    }
}

/// Every event stands in the group of its topic, and in no other.
pub proof fn law_event_is_in_its_group_only(events: Seq<RuntimeEvent>, i: int, topic: EventTopic)
    requires
        0 <= i < events.len(),
    ensures
        of_topic(events, topic).contains(&events[i]) <==> events[i].topic_of() == topic,
{
    broadcast use vstd::seq_lib::group_filter_ensures;

    let kept = events.filter(is_of_topic(topic));
    let group = of_topic(events, topic);
    if events[i].topic_of() == topic {
        assert(is_of_topic(topic)(events[i]));
        assert(kept.contains(events[i]));
        let k = choose|k: int| 0 <= k < kept.len() && kept[k] == events[i];
        assert(group[k] == &events[i]);
    }
    if group.contains(&events[i]) {
        let k = choose|k: int| 0 <= k < group.len() && group[k] == &events[i];
        assert(kept[k] == events[i]);
        assert(is_of_topic(topic)(kept[k]));
    }
}

proof fn lemma_field_names()
    ensures
        "agent_id"@ != "error"@,
        "agent_id"@ != "success"@,
        "agent_id"@ != "task"@,
        "agent_id"@ != "timestamp_ms"@,
        "budget_usd"@ != "timestamp_ms"@,
        "budget_usd"@ != "total_cost_usd"@,
        "call_id"@ != "duration_ms"@,
        "call_id"@ != "success"@,
        "call_id"@ != "timestamp_ms"@,
        "call_id"@ != "tool_name"@,
        "cost_usd"@ != "input_tokens"@,
        "cost_usd"@ != "model"@,
        "cost_usd"@ != "output_tokens"@,
        "cost_usd"@ != "timestamp_ms"@,
        "data"@ != "event_type"@,
        "data"@ != "source"@,
        "data"@ != "timestamp_ms"@,
        "duration_ms"@ != "input_tokens"@,
        "duration_ms"@ != "model"@,
        "duration_ms"@ != "output_tokens"@,
        "duration_ms"@ != "request_id"@,
        "duration_ms"@ != "success"@,
        "duration_ms"@ != "timestamp_ms"@,
        "duration_ms"@ != "tool_name"@,
        "error"@ != "timestamp_ms"@,
        "event_type"@ != "source"@,
        "event_type"@ != "timestamp_ms"@,
        "input_tokens"@ != "model"@,
        "input_tokens"@ != "output_tokens"@,
        "input_tokens"@ != "request_id"@,
        "input_tokens"@ != "timestamp_ms"@,
        "model"@ != "output_tokens"@,
        "model"@ != "request_id"@,
        "model"@ != "timestamp_ms"@,
        "output_tokens"@ != "request_id"@,
        "output_tokens"@ != "timestamp_ms"@,
        "reason"@ != "timestamp_ms"@,
        "request_id"@ != "timestamp_ms"@,
        "session_id"@ != "status"@,
        "session_id"@ != "timestamp_ms"@,
        "source"@ != "timestamp_ms"@,
        "status"@ != "timestamp_ms"@,
        "success"@ != "timestamp_ms"@,
        "success"@ != "tool_name"@,
        "task"@ != "timestamp_ms"@,
        "timestamp_ms"@ != "tool_name"@,
        "timestamp_ms"@ != "total_cost_usd"@,
{
    reveal_strlit("agent_id");
    reveal_strlit("budget_usd");
    reveal_strlit("call_id");
    reveal_strlit("cost_usd");
    reveal_strlit("data");
    reveal_strlit("duration_ms");
    reveal_strlit("error");
    reveal_strlit("event_type");
    reveal_strlit("input_tokens");
    reveal_strlit("model");
    reveal_strlit("output_tokens");
    reveal_strlit("reason");
    reveal_strlit("request_id");
    reveal_strlit("session_id");
    reveal_strlit("source");
    reveal_strlit("status");
    reveal_strlit("success");
    reveal_strlit("task");
    reveal_strlit("timestamp_ms");
    reveal_strlit("tool_name");
    reveal_strlit("total_cost_usd");
    assert("agent_id"@.len() == 8 && "agent_id"@[0] == 'a');
    assert("budget_usd"@.len() == 10 && "budget_usd"@[0] == 'b');
    assert("call_id"@.len() == 7 && "call_id"@[0] == 'c');
    assert("cost_usd"@.len() == 8 && "cost_usd"@[0] == 'c');
    assert("data"@.len() == 4 && "data"@[0] == 'd');
    assert("duration_ms"@.len() == 11 && "duration_ms"@[0] == 'd');
    assert("error"@.len() == 5 && "error"@[0] == 'e');
    assert("event_type"@.len() == 10 && "event_type"@[0] == 'e');
    assert("input_tokens"@.len() == 12 && "input_tokens"@[0] == 'i');
    assert("model"@.len() == 5 && "model"@[0] == 'm');
    assert("output_tokens"@.len() == 13 && "output_tokens"@[0] == 'o');
    assert("reason"@.len() == 6 && "reason"@[0] == 'r');
    assert("request_id"@.len() == 10 && "request_id"@[0] == 'r');
    assert("session_id"@.len() == 10 && "session_id"@[0] == 's');
    assert("source"@.len() == 6 && "source"@[0] == 's');
    assert("status"@.len() == 6 && "status"@[0] == 's');
    assert("success"@.len() == 7 && "success"@[0] == 's');
    assert("task"@.len() == 4 && "task"@[0] == 't');
    assert("timestamp_ms"@.len() == 12 && "timestamp_ms"@[0] == 't');
    assert("tool_name"@.len() == 9 && "tool_name"@[0] == 't');
    assert("total_cost_usd"@.len() == 14 && "total_cost_usd"@[0] == 't');
}

/// The JSON value of an event gives every field back under its own name, below the name of the
/// variant, and holds nothing else.
pub proof fn law_event_json_holds_every_field(event: RuntimeEvent, key: Seq<char>)
    ensures
        match event {
            RuntimeEvent::ToolCallStart { tool_name, call_id, timestamp_ms } => {
                let outer = event.json();
                &&& outer.get("ToolCallStart"@) matches Some(fields)
                &&& fields.get("tool_name"@) == Some(JsonView::String(tool_name@))
                &&& fields.get("call_id"@) == Some(JsonView::String(call_id@))
                &&& fields.get("timestamp_ms"@) == Some(JsonView::Number(JsonNumber::PosInt(timestamp_ms)))
                &&& key != "tool_name"@ && key != "call_id"@ && key != "timestamp_ms"@ ==> fields.get(key) is None
                &&& key != "ToolCallStart"@ ==> outer.get(key) is None
            },
            RuntimeEvent::ToolCallEnd { tool_name, call_id, duration_ms, success, timestamp_ms } => {
                let outer = event.json();
                &&& outer.get("ToolCallEnd"@) matches Some(fields)
                &&& fields.get("tool_name"@) == Some(JsonView::String(tool_name@))
                &&& fields.get("call_id"@) == Some(JsonView::String(call_id@))
                &&& fields.get("duration_ms"@) == Some(JsonView::Number(JsonNumber::PosInt(duration_ms)))
                &&& fields.get("success"@) == Some(JsonView::Bool(success))
                &&& fields.get("timestamp_ms"@) == Some(JsonView::Number(JsonNumber::PosInt(timestamp_ms)))
                &&& key != "tool_name"@ && key != "call_id"@ && key != "duration_ms"@ && key != "success"@ && key != "timestamp_ms"@ ==> fields.get(key) is None
                &&& key != "ToolCallEnd"@ ==> outer.get(key) is None
            },
            RuntimeEvent::LlmRequestStart { model, request_id, timestamp_ms } => {
                let outer = event.json();
                &&& outer.get("LlmRequestStart"@) matches Some(fields)
                &&& fields.get("model"@) == Some(JsonView::String(model@))
                &&& fields.get("request_id"@) == Some(JsonView::String(request_id@))
                &&& fields.get("timestamp_ms"@) == Some(JsonView::Number(JsonNumber::PosInt(timestamp_ms)))
                &&& key != "model"@ && key != "request_id"@ && key != "timestamp_ms"@ ==> fields.get(key) is None
                &&& key != "LlmRequestStart"@ ==> outer.get(key) is None
            },
            RuntimeEvent::LlmResponseEnd { model, request_id, input_tokens, output_tokens, duration_ms, timestamp_ms } => {
                let outer = event.json();
                &&& outer.get("LlmResponseEnd"@) matches Some(fields)
                &&& fields.get("model"@) == Some(JsonView::String(model@))
                &&& fields.get("request_id"@) == Some(JsonView::String(request_id@))
                &&& fields.get("input_tokens"@) == Some(JsonView::Number(JsonNumber::PosInt(input_tokens)))
                &&& fields.get("output_tokens"@) == Some(JsonView::Number(JsonNumber::PosInt(output_tokens)))
                &&& fields.get("duration_ms"@) == Some(JsonView::Number(JsonNumber::PosInt(duration_ms)))
                &&& fields.get("timestamp_ms"@) == Some(JsonView::Number(JsonNumber::PosInt(timestamp_ms)))
                &&& key != "model"@ && key != "request_id"@ && key != "input_tokens"@ && key != "output_tokens"@ && key != "duration_ms"@ && key != "timestamp_ms"@ ==> fields.get(key) is None
                &&& key != "LlmResponseEnd"@ ==> outer.get(key) is None
            },
            RuntimeEvent::AgentStart { agent_id, task, timestamp_ms } => {
                let outer = event.json();
                &&& outer.get("AgentStart"@) matches Some(fields)
                &&& fields.get("agent_id"@) == Some(JsonView::String(agent_id@))
                &&& fields.get("task"@) == Some(JsonView::String(task@))
                &&& fields.get("timestamp_ms"@) == Some(JsonView::Number(JsonNumber::PosInt(timestamp_ms)))
                &&& key != "agent_id"@ && key != "task"@ && key != "timestamp_ms"@ ==> fields.get(key) is None
                &&& key != "AgentStart"@ ==> outer.get(key) is None
            },
            RuntimeEvent::AgentEnd { agent_id, success, timestamp_ms } => {
                let outer = event.json();
                &&& outer.get("AgentEnd"@) matches Some(fields)
                &&& fields.get("agent_id"@) == Some(JsonView::String(agent_id@))
                &&& fields.get("success"@) == Some(JsonView::Bool(success))
                &&& fields.get("timestamp_ms"@) == Some(JsonView::Number(JsonNumber::PosInt(timestamp_ms)))
                &&& key != "agent_id"@ && key != "success"@ && key != "timestamp_ms"@ ==> fields.get(key) is None
                &&& key != "AgentEnd"@ ==> outer.get(key) is None
            },
            RuntimeEvent::AgentError { agent_id, error, timestamp_ms } => {
                let outer = event.json();
                &&& outer.get("AgentError"@) matches Some(fields)
                &&& fields.get("agent_id"@) == Some(JsonView::String(agent_id@))
                &&& fields.get("error"@) == Some(JsonView::String(error@))
                &&& fields.get("timestamp_ms"@) == Some(JsonView::Number(JsonNumber::PosInt(timestamp_ms)))
                &&& key != "agent_id"@ && key != "error"@ && key != "timestamp_ms"@ ==> fields.get(key) is None
                &&& key != "AgentError"@ ==> outer.get(key) is None
            },
            RuntimeEvent::SessionStart { session_id, timestamp_ms } => {
                let outer = event.json();
                &&& outer.get("SessionStart"@) matches Some(fields)
                &&& fields.get("session_id"@) == Some(JsonView::String(session_id@))
                &&& fields.get("timestamp_ms"@) == Some(JsonView::Number(JsonNumber::PosInt(timestamp_ms)))
                &&& key != "session_id"@ && key != "timestamp_ms"@ ==> fields.get(key) is None
                &&& key != "SessionStart"@ ==> outer.get(key) is None
            },
            RuntimeEvent::SessionEnd { session_id, timestamp_ms } => {
                let outer = event.json();
                &&& outer.get("SessionEnd"@) matches Some(fields)
                &&& fields.get("session_id"@) == Some(JsonView::String(session_id@))
                &&& fields.get("timestamp_ms"@) == Some(JsonView::Number(JsonNumber::PosInt(timestamp_ms)))
                &&& key != "session_id"@ && key != "timestamp_ms"@ ==> fields.get(key) is None
                &&& key != "SessionEnd"@ ==> outer.get(key) is None
            },
            RuntimeEvent::SessionStatusChanged { session_id, status, timestamp_ms } => {
                let outer = event.json();
                &&& outer.get("SessionStatusChanged"@) matches Some(fields)
                &&& fields.get("session_id"@) == Some(JsonView::String(session_id@))
                &&& fields.get("status"@) == Some(status@)
                &&& fields.get("timestamp_ms"@) == Some(JsonView::Number(JsonNumber::PosInt(timestamp_ms)))
                &&& key != "session_id"@ && key != "status"@ && key != "timestamp_ms"@ ==> fields.get(key) is None
                &&& key != "SessionStatusChanged"@ ==> outer.get(key) is None
            },
            RuntimeEvent::TokenUsage { model, input_tokens, output_tokens, cost_usd, timestamp_ms } => {
                let outer = event.json();
                &&& outer.get("TokenUsage"@) matches Some(fields)
                &&& fields.get("model"@) == Some(JsonView::String(model@))
                &&& fields.get("input_tokens"@) == Some(JsonView::Number(JsonNumber::PosInt(input_tokens)))
                &&& fields.get("output_tokens"@) == Some(JsonView::Number(JsonNumber::PosInt(output_tokens)))
                &&& fields.get("cost_usd"@) == Some(cost_usd.json())
                &&& fields.get("timestamp_ms"@) == Some(JsonView::Number(JsonNumber::PosInt(timestamp_ms)))
                &&& key != "model"@ && key != "input_tokens"@ && key != "output_tokens"@ && key != "cost_usd"@ && key != "timestamp_ms"@ ==> fields.get(key) is None
                &&& key != "TokenUsage"@ ==> outer.get(key) is None
            },
            RuntimeEvent::BudgetExhausted { budget_usd, total_cost_usd, timestamp_ms } => {
                let outer = event.json();
                &&& outer.get("BudgetExhausted"@) matches Some(fields)
                &&& fields.get("budget_usd"@) == Some(budget_usd.json())
                &&& fields.get("total_cost_usd"@) == Some(total_cost_usd.json())
                &&& fields.get("timestamp_ms"@) == Some(JsonView::Number(JsonNumber::PosInt(timestamp_ms)))
                &&& key != "budget_usd"@ && key != "total_cost_usd"@ && key != "timestamp_ms"@ ==> fields.get(key) is None
                &&& key != "BudgetExhausted"@ ==> outer.get(key) is None
            },
            RuntimeEvent::ConfigReloaded { timestamp_ms } => {
                let outer = event.json();
                &&& outer.get("ConfigReloaded"@) matches Some(fields)
                &&& fields.get("timestamp_ms"@) == Some(JsonView::Number(JsonNumber::PosInt(timestamp_ms)))
                &&& key != "timestamp_ms"@ ==> fields.get(key) is None
                &&& key != "ConfigReloaded"@ ==> outer.get(key) is None
            },
            RuntimeEvent::ShutdownRequested { reason, timestamp_ms } => {
                let outer = event.json();
                &&& outer.get("ShutdownRequested"@) matches Some(fields)
                &&& fields.get("reason"@) == Some(JsonView::String(reason@))
                &&& fields.get("timestamp_ms"@) == Some(JsonView::Number(JsonNumber::PosInt(timestamp_ms)))
                &&& key != "reason"@ && key != "timestamp_ms"@ ==> fields.get(key) is None
                &&& key != "ShutdownRequested"@ ==> outer.get(key) is None
            },
            RuntimeEvent::Custom { event_type, source, data, timestamp_ms } => {
                let outer = event.json();
                &&& outer.get("Custom"@) matches Some(fields)
                &&& fields.get("event_type"@) == Some(JsonView::String(event_type@))
                &&& fields.get("source"@) == Some(JsonView::String(source@))
                &&& fields.get("data"@) == Some(data@)
                &&& fields.get("timestamp_ms"@) == Some(JsonView::Number(JsonNumber::PosInt(timestamp_ms)))
                &&& key != "event_type"@ && key != "source"@ && key != "data"@ && key != "timestamp_ms"@ ==> fields.get(key) is None
                &&& key != "Custom"@ ==> outer.get(key) is None
            },
        },
{
    lemma_field_names();
}

/// The time of an event is what its JSON value shows.
pub proof fn law_event_time_is_shown(event: RuntimeEvent, tag: Seq<char>, fields: JsonView)
    requires
        event.json().get(tag) == Some(fields),
    ensures
        fields.get("timestamp_ms"@) == Some(
            JsonView::Number(JsonNumber::PosInt(event.time_of())),
        ),
{
    law_event_json_holds_every_field(event, tag);
}

/// Every event belongs to the topic of its kind.
pub proof fn law_event_kinds_have_their_topics(event: RuntimeEvent)
    ensures
        event.topic_of() == EventTopic::Tool <==> event is ToolCallStart || event is ToolCallEnd,
        event.topic_of() == EventTopic::Llm <==> event is LlmRequestStart
            || event is LlmResponseEnd,
        event.topic_of() == EventTopic::Agent <==> event is AgentStart || event is AgentEnd
            || event is AgentError,
        event.topic_of() == EventTopic::Session <==> event is SessionStart || event is SessionEnd
            || event is SessionStatusChanged,
        event.topic_of() == EventTopic::Cost <==> event is TokenUsage || event is BudgetExhausted,
        event.topic_of() == EventTopic::System <==> event is ConfigReloaded
            || event is ShutdownRequested,
        event.topic_of() == EventTopic::Custom <==> event is Custom,
{
}

/// No two topics share a name.
pub proof fn law_topic_names_tell_topics_apart(a: EventTopic, b: EventTopic)
    ensures
        a.text() == b.text() <==> a == b,
        a.text() == "Tool"@ <==> a == EventTopic::Tool,
        a.text() == "Llm"@ <==> a == EventTopic::Llm,
        a.text() == "Agent"@ <==> a == EventTopic::Agent,
        a.text() == "Session"@ <==> a == EventTopic::Session,
        a.text() == "Cost"@ <==> a == EventTopic::Cost,
        a.text() == "System"@ <==> a == EventTopic::System,
        a.text() == "Custom"@ <==> a == EventTopic::Custom,
{
    reveal_strlit("Tool");
    reveal_strlit("Llm");
    reveal_strlit("Agent");
    reveal_strlit("Session");
    reveal_strlit("Cost");
    reveal_strlit("System");
    reveal_strlit("Custom");
    assert("Tool"@.len() == 4 && "Tool"@[0] == 'T');
    assert("Llm"@.len() == 3);
    assert("Agent"@.len() == 5);
    assert("Session"@.len() == 7);
    assert("Cost"@.len() == 4 && "Cost"@[0] == 'C');
    assert("System"@.len() == 6 && "System"@[0] == 'S');
    assert("Custom"@.len() == 6 && "Custom"@[0] == 'C');
}

/// An amount is written as its own bits, and as null exactly where its exponent is the largest,
/// whatever its sign and its fraction are.
pub proof fn law_amount_keeps_its_bits(amount: Usd, sign: nat, exponent: nat, fraction: nat)
    requires
        sign < 2,
        exponent < 0x800,
        fraction < 0x10_0000_0000_0000,
        amount.bits == sign * 0x8000_0000_0000_0000 + exponent * 0x10_0000_0000_0000 + fraction,
    ensures
        exponent < 0x7ff ==> amount.json() == JsonView::Number(JsonNumber::Float(amount.bits)),
        exponent == 0x7ff ==> amount.json() == JsonView::Null,
{
    let high: nat = sign * 0x800 + exponent;
    assert(amount.bits == high * 0x10_0000_0000_0000 + fraction);
    assert(amount.bits as int / 0x10_0000_0000_0000 == high);
    assert(high as int % 0x800 == exponent);
}

/// A timestamp counts the whole milliseconds of a reading of the clock, and starts again where
/// they no longer fit.
pub proof fn law_timestamp_counts_milliseconds(nanos: u128)
    ensures
        nanos < 0x1_0000_0000_0000_0000 * 1_000_000 ==> {
            &&& timestamp_of(Some(nanos)) * 1_000_000 <= nanos
            &&& nanos < (timestamp_of(Some(nanos)) + 1) * 1_000_000
        },
        nanos + 0x1_0000_0000_0000_0000 * 1_000_000 <= u128::MAX ==> timestamp_of(
            Some((nanos + 0x1_0000_0000_0000_0000 * 1_000_000) as u128),
        ) == timestamp_of(Some(nanos)),
        timestamp_of(None) == 0,
{
    let millis: int = nanos as int / 1_000_000;
    let period: int = 0x1_0000_0000_0000_0000;
    assert((nanos + period * 1_000_000) / 1_000_000 == millis + period);
    assert((millis + period) % period == millis % period);
}

/// An untyped event says what the event says: a custom one keeps its parts, and any other goes
/// under the name of its topic, with its time and with all of its fields.
pub proof fn law_untyped_event_says_the_same(event: RuntimeEvent)
    ensures
        untyped(event).timestamp_ms == event.time_of(),
        match event {
            RuntimeEvent::Custom { event_type, source, data, timestamp_ms } => {
                &&& untyped(event).event_type == event_type@
                &&& untyped(event).source == source@
                &&& untyped(event).data == data@
                &&& untyped(event).timestamp_ms == timestamp_ms
            },
            _ => {
                &&& untyped(event).event_type == event.topic_of().text()
                &&& untyped(event).source.len() == 0
                &&& untyped(event).data == event.json()
            },
        },
{
}

/// A subscriber delivers an event of its topics as it is, waits on any other and on a gap, and
/// ends with the channel.
pub proof fn law_subscriber_decides(topics: Seq<EventTopic>, received: Received)
    ensures
        ({
            let decision = topic_delivery(topics.to_set(), received);
            match received {
                Received::Event(event) => {
                    &&& decision is Deliver ==> decision->Deliver_0 == event
                    &&& decision is Deliver <==> exists|i: int|
                        0 <= i < topics.len() && #[trigger] topics[i] == event.topic_of()
                    &&& !(decision is Closed)
                },
                Received::Lagged(_) => decision is Skip,
                Received::Closed => decision is Closed,
            }
        }),
{
    broadcast use vstd::seq_lib::group_to_multiset_ensures;

    if let Received::Event(event) = received {
        assert(topics.to_set().contains(event.topic_of()) <==> topics.contains(event.topic_of()));
    }
}

/// A type is accepted exactly where it is one of the given texts, or where none are given.
pub proof fn law_accepted_types_are_the_given_ones(types: Vec<String>, event_type: Seq<char>)
    ensures
        accepts_type(None, event_type),
        accepts_type(Some(types), event_type) <==> exists|i: int|
            0 <= i < types@.len() && (#[trigger] types@[i])@ == event_type,
{
    let list = text::texts(types@);
    if accepts_type(Some(types), event_type) {
        let i = choose|i: int| 0 <= i < list.len() && list[i] == event_type;
        assert(types@[i]@ == event_type);
    }
    if exists|i: int| 0 <= i < types@.len() && (#[trigger] types@[i])@ == event_type {
        let i = choose|i: int| 0 <= i < types@.len() && (#[trigger] types@[i])@ == event_type;
        assert(list[i] == event_type);
    }
}

/// A subscriber to types delivers an event of its types as an untyped one, waits on any other and
/// on a gap, and ends with the channel.
pub proof fn law_filtered_subscriber_decides(subscriber: FilteredSubscriber, received: Received)
    ensures
        match received {
            Received::Event(event) => {
                &&& subscriber.delivery(received) is Deliver <==> subscriber.accepts(
                    match event {
                        RuntimeEvent::Custom { event_type, .. } => event_type@,
                        _ => event.topic_of().text(),
                    },
                )
                &&& subscriber.delivery(received) is Deliver ==> subscriber.delivery(
                    received,
                )->Deliver_0 == untyped(event)
                &&& !(subscriber.delivery(received) is Closed)
            },
            Received::Lagged(_) => subscriber.delivery(received) is Skip,
            Received::Closed => subscriber.delivery(received) is Closed,
        },
{
}

/// The events of a type come in their order, and one more event joins those of its own type only.
pub proof fn law_types_are_grouped_in_order(
    events: Seq<Event>,
    event: Event,
    event_type: Seq<char>,
)
    ensures
        of_type(Seq::empty(), event_type).len() == 0,
        event.event_type@ == event_type ==> of_type(events.push(event), event_type) == of_type(
            events,
            event_type,
        ).push(&event),
        event.event_type@ != event_type ==> of_type(events.push(event), event_type) == of_type(
            events,
            event_type,
        ),
{
    events.lemma_filter_push(event, is_of_type(event_type));
    assert(Seq::<Event>::empty().filter(is_of_type(event_type)) =~= Seq::empty()) by {
        reveal(Seq::filter);
    }
    if event.event_type@ == event_type {
        assert(of_type(events.push(event), event_type) =~= of_type(events, event_type).push(
            &event,
        ));
    }
}

/// The groups by types hold every event under its own type, and no group is empty.
pub proof fn law_groups_hold_every_event(
    groups: Map<Seq<char>, Vec<&Event>>,
    events: Seq<Event>,
    i: int,
    event_type: Seq<char>,
)
    requires
        are_groups(groups, events),
        0 <= i < events.len(),
    ensures
        groups.contains_key(events[i].event_type@),
        groups[events[i].event_type@]@.contains(&events[i]),
        groups.contains_key(event_type) ==> groups[event_type]@.len() > 0 && forall|k: int|
            0 <= k < groups[event_type]@.len() ==> (
            #[trigger] groups[event_type]@[k]).event_type@ == event_type,
        groups.contains_key(event_type) && groups[event_type]@.contains(&events[i])
            ==> events[i].event_type@ == event_type,
        groups.contains_key(event_type) ==> groups[event_type]@ == of_type(events, event_type),
{
    broadcast use vstd::seq_lib::group_filter_ensures;

    let own = events[i].event_type@;
    let kept = events.filter(is_of_type(own));
    assert(is_of_type(own)(events[i]));
    assert(kept.contains(events[i]));
    let k = choose|k: int| 0 <= k < kept.len() && kept[k] == events[i];
    assert(of_type(events, own)[k] == &events[i]);
    assert(groups.contains_key(own));
    if groups.contains_key(event_type) {
        let group = groups[event_type]@;
        let all = events.filter(is_of_type(event_type));
        assert forall|k: int| 0 <= k < group.len() implies (
        #[trigger] group[k]).event_type@ == event_type by {
            assert(group[k] == &all[k]);
            assert(is_of_type(event_type)(all[k]));
        }
    }
}

/// The events of a topic come in their order, and one more event joins those of its own topic
/// only.
pub proof fn law_topics_are_grouped_in_order(
    events: Seq<RuntimeEvent>,
    event: RuntimeEvent,
    topic: EventTopic,
)
    ensures
        of_topic(Seq::empty(), topic).len() == 0,
        event.topic_of() == topic ==> of_topic(events.push(event), topic) == of_topic(
            events,
            topic,
        ).push(&event),
        event.topic_of() != topic ==> of_topic(events.push(event), topic) == of_topic(
            events,
            topic,
        ),
{
    events.lemma_filter_push(event, is_of_topic(topic));
    assert(Seq::<RuntimeEvent>::empty().filter(is_of_topic(topic)) =~= Seq::empty()) by {
        reveal(Seq::filter);
    }
    if event.topic_of() == topic {
        assert(of_topic(events.push(event), topic) =~= of_topic(events, topic).push(&event));
    }
}

/// A delivery is of the same kind as what it says, and a delivered event says what it is.
pub proof fn law_delivery_says_what_it_is(delivery: Delivery<Event>, event: Event)
    ensures
        match delivery {
            Delivery::Deliver(sent) => delivery_view(delivery) is Deliver && delivery_view(
                delivery,
            )->Deliver_0 == sent@,
            Delivery::Skip => delivery_view(delivery) is Skip,
            Delivery::Closed => delivery_view(delivery) is Closed,
        },
        event@.event_type == event.event_type@,
        event@.source == event.source@,
        event@.data == event.data@,
        event@.timestamp_ms == event.timestamp_ms,
{
}

/// What the clock can show is what the call of it can return.
proof fn law_clock_is_read_by_the_call(nanos: Option<u128>)
    ensures
        clock_can_show(nanos) <==> call_ensures(epoch_nanos, (), nanos),
{
}

} // verus!
