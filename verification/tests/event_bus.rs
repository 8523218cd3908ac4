use opendev::event_bus::{
    group_events_by_type, group_runtime_events_by_topic, now_ms, to_timestamp, Delivery, Event,
    EventTopic, FilteredSubscriber, Received, RuntimeEvent, TopicSubscriber, Usd, DEFAULT_CAPACITY,
};
use opendev::json::{Json, JsonNumber};
use opendev::parse::parse;

fn usd(value: f64) -> Usd {
    Usd {
        bits: value.to_bits(),
    }
}

fn llm_request() -> RuntimeEvent {
    RuntimeEvent::LlmRequestStart {
        model: "gpt-4".into(),
        request_id: "r1".into(),
        timestamp_ms: now_ms(),
    }
}

fn tool_call() -> RuntimeEvent {
    RuntimeEvent::ToolCallStart {
        tool_name: "bash".into(),
        call_id: "c1".into(),
        timestamp_ms: now_ms(),
    }
}

fn custom(event_type: &str, data: Json) -> RuntimeEvent {
    Event::new(event_type, "src", data).into_runtime_event()
}

fn next_of_topics(sub: &TopicSubscriber, queue: Vec<Received>) -> Option<RuntimeEvent> {
    for received in queue {
        match sub.recv(received) {
            Delivery::Deliver(event) => return Some(event),
            Delivery::Skip => {}
            Delivery::Closed => return None,
        }
    }
    panic!("the subscriber still waits");
}

fn next_of_types(sub: &FilteredSubscriber, queue: Vec<Received>) -> Option<Event> {
    for received in queue {
        match sub.recv(received) {
            Delivery::Deliver(event) => return Some(event),
            Delivery::Skip => {}
            Delivery::Closed => return None,
        }
    }
    panic!("the subscriber still waits");
}

#[test]
fn test_event_creation() {
    let event = Event::new("test", "component", parse(r#"{"key": "value"}"#).unwrap());
    assert_eq!(event.event_type, "test");
    assert_eq!(event.source, "component");
    assert!(event.timestamp_ms > 0);
    assert_eq!(event.data.get_str("key"), Some("value"));
}

#[test]
fn test_filtered_subscriber() {
    let sub = FilteredSubscriber::new(Some(vec!["wanted".to_string()]));
    let event = next_of_types(
        &sub,
        vec![
            Received::Event(custom("unwanted", Json::Null)),
            Received::Event(custom("wanted", parse(r#"{"ok": true}"#).unwrap())),
        ],
    )
    .unwrap();
    assert_eq!(event.event_type, "wanted");
    assert_eq!(event.source, "src");
    assert_eq!(event.data.get("ok").unwrap().as_bool(), Some(true));
}

#[test]
fn test_group_events_by_type() {
    let events = vec![
        Event::new("a", "src", Json::Null),
        Event::new("b", "src", Json::Null),
        Event::new("a", "src", Json::Null),
    ];
    let groups = group_events_by_type(&events);
    assert_eq!(groups.get("a").unwrap().len(), 2);
    assert_eq!(groups.get("b").unwrap().len(), 1);
    assert!(groups.get("c").is_none());
}

#[test]
fn test_runtime_event_topic() {
    let ev = RuntimeEvent::ToolCallStart {
        tool_name: "bash".into(),
        call_id: "1".into(),
        timestamp_ms: now_ms(),
    };
    assert_eq!(ev.topic(), EventTopic::Tool);

    let ev = RuntimeEvent::LlmRequestStart {
        model: "gpt-4".into(),
        request_id: "r1".into(),
        timestamp_ms: now_ms(),
    };
    assert_eq!(ev.topic(), EventTopic::Llm);

    let ev = RuntimeEvent::AgentStart {
        agent_id: "a1".into(),
        task: "test".into(),
        timestamp_ms: now_ms(),
    };
    assert_eq!(ev.topic(), EventTopic::Agent);

    let ev = RuntimeEvent::SessionStart {
        session_id: "s1".into(),
        timestamp_ms: now_ms(),
    };
    assert_eq!(ev.topic(), EventTopic::Session);

    let ev = RuntimeEvent::TokenUsage {
        model: "gpt-4".into(),
        input_tokens: 100,
        output_tokens: 50,
        cost_usd: usd(0.01),
        timestamp_ms: now_ms(),
    };
    assert_eq!(ev.topic(), EventTopic::Cost);

    let ev = RuntimeEvent::ConfigReloaded {
        timestamp_ms: now_ms(),
    };
    assert_eq!(ev.topic(), EventTopic::System);
}

#[test]
fn test_topic_subscriber_filters() {
    let sub = TopicSubscriber::new(vec![EventTopic::Tool]);
    let received = next_of_topics(
        &sub,
        vec![Received::Event(llm_request()), Received::Event(tool_call())],
    )
    .unwrap();
    assert_eq!(received.topic(), EventTopic::Tool);
}

#[test]
fn test_topic_subscriber_multiple_topics() {
    let sub = TopicSubscriber::new(vec![EventTopic::Tool, EventTopic::Session]);
    let received = next_of_topics(
        &sub,
        vec![
            Received::Event(RuntimeEvent::LlmRequestStart {
                model: "m".into(),
                request_id: "r".into(),
                timestamp_ms: now_ms(),
            }),
            Received::Event(RuntimeEvent::SessionStart {
                session_id: "s1".into(),
                timestamp_ms: now_ms(),
            }),
        ],
    )
    .unwrap();
    assert_eq!(received.topic(), EventTopic::Session);
}

#[test]
fn test_legacy_event_into_runtime_event() {
    let legacy = Event::new("test", "comp", Json::unsigned(42));
    let rt = legacy.into_runtime_event();
    assert_eq!(rt.topic(), EventTopic::Custom);
    if let RuntimeEvent::Custom {
        event_type, data, ..
    } = rt
    {
        assert_eq!(event_type, "test");
        assert_eq!(data.as_u64(), Some(42));
    } else {
        panic!("expected Custom variant");
    }
}

#[test]
fn test_group_runtime_events_by_topic() {
    let events = vec![
        RuntimeEvent::ToolCallStart {
            tool_name: "a".into(),
            call_id: "1".into(),
            timestamp_ms: 0,
        },
        RuntimeEvent::LlmRequestStart {
            model: "m".into(),
            request_id: "r".into(),
            timestamp_ms: 0,
        },
        RuntimeEvent::ToolCallEnd {
            tool_name: "a".into(),
            call_id: "1".into(),
            duration_ms: 100,
            success: true,
            timestamp_ms: 0,
        },
    ];
    let groups = group_runtime_events_by_topic(&events);
    assert_eq!(groups.get(EventTopic::Tool).unwrap().len(), 2);
    assert_eq!(groups.get(EventTopic::Llm).unwrap().len(), 1);
    assert!(groups.get(EventTopic::Cost).is_none());
}

#[test]
fn test_topic_subscriber_topics_accessor() {
    let topics = vec![EventTopic::Agent, EventTopic::Cost];
    let sub = TopicSubscriber::new(topics.clone());
    assert_eq!(*sub.topics(), topics);
}

#[test]
fn test_now_ms_is_positive() {
    assert!(now_ms() > 0);
}

#[test]
fn test_budget_exhausted_event_topic() {
    let ev = RuntimeEvent::BudgetExhausted {
        budget_usd: usd(1.0),
        total_cost_usd: usd(1.05),
        timestamp_ms: now_ms(),
    };
    assert_eq!(ev.topic(), EventTopic::Cost);
    assert!(ev.timestamp_ms() > 0);
}

#[test]
fn test_budget_exhausted_received_by_cost_subscriber() {
    let sub = TopicSubscriber::new(vec![EventTopic::Cost]);
    let received = next_of_topics(
        &sub,
        vec![Received::Event(RuntimeEvent::BudgetExhausted {
            budget_usd: usd(1.0),
            total_cost_usd: usd(1.5),
            timestamp_ms: now_ms(),
        })],
    )
    .unwrap();
    assert!(matches!(received, RuntimeEvent::BudgetExhausted { .. }));
}

#[test]
fn subscribers_skip_gaps_and_end_with_the_channel() {
    let topics = TopicSubscriber::new(vec![EventTopic::Tool]);
    assert!(next_of_topics(&topics, vec![Received::Lagged(3), Received::Closed]).is_none());
    let types = FilteredSubscriber::new(None);
    assert!(next_of_types(&types, vec![Received::Lagged(3), Received::Closed]).is_none());
    let any = next_of_types(&types, vec![Received::Event(custom("x", Json::Null))]);
    assert_eq!(any.unwrap().event_type, "x");
}

#[test]
fn typed_events_are_delivered_under_their_topic() {
    let sub = FilteredSubscriber::new(Some(vec!["Cost".to_string()]));
    let event = next_of_types(
        &sub,
        vec![
            Received::Event(tool_call()),
            Received::Event(RuntimeEvent::BudgetExhausted {
                budget_usd: usd(2.5),
                total_cost_usd: usd(f64::INFINITY),
                timestamp_ms: 7,
            }),
        ],
    )
    .unwrap();
    assert_eq!(event.event_type, "Cost");
    assert_eq!(event.source, "");
    assert_eq!(event.timestamp_ms, 7);
    let fields = event.data.get("BudgetExhausted").unwrap();
    assert!(matches!(
        fields.get("budget_usd"),
        Some(Json::Number(JsonNumber::Float(bits))) if *bits == 2.5f64.to_bits()
    ));
    assert!(matches!(fields.get("total_cost_usd"), Some(Json::Null)));
    assert_eq!(fields.get("timestamp_ms").unwrap().as_u64(), Some(7));
    assert_eq!(fields.as_object().unwrap().len(), 3);
    assert_eq!(event.data.as_object().unwrap().len(), 1);
}

#[test]
fn numbers_without_value_are_null() {
    assert!(matches!(usd(f64::NAN).to_json(), Json::Null));
    assert!(matches!(usd(f64::NEG_INFINITY).to_json(), Json::Null));
    for value in [0.0, -1.5, f64::MAX, f64::MIN_POSITIVE] {
        assert!(matches!(
            usd(value).to_json(),
            Json::Number(JsonNumber::Float(bits)) if bits == value.to_bits()
        ));
    }
}

#[test]
fn timestamps_are_the_low_bits_of_the_clock() {
    assert_eq!(to_timestamp(Some(12_345_000_000)), 12345);
    assert_eq!(to_timestamp(Some(12_345_999_999)), 12345);
    assert_eq!(to_timestamp(Some(((1u128 << 64) + 5) * 1_000_000)), 5);
    assert_eq!(to_timestamp(None), 0);
    assert!(now_ms() > 1_600_000_000_000);
}

#[test]
fn every_event_has_its_time_and_topic() {
    let events = [
        (
            RuntimeEvent::LlmResponseEnd {
                model: "m".into(),
                request_id: "r".into(),
                input_tokens: 1,
                output_tokens: 2,
                duration_ms: 3,
                timestamp_ms: 1,
            },
            EventTopic::Llm,
            "LlmResponseEnd",
        ),
        (
            RuntimeEvent::AgentEnd {
                agent_id: "a".into(),
                success: true,
                timestamp_ms: 2,
            },
            EventTopic::Agent,
            "AgentEnd",
        ),
        (
            RuntimeEvent::AgentError {
                agent_id: "a".into(),
                error: "e".into(),
                timestamp_ms: 3,
            },
            EventTopic::Agent,
            "AgentError",
        ),
        (
            RuntimeEvent::SessionEnd {
                session_id: "s".into(),
                timestamp_ms: 4,
            },
            EventTopic::Session,
            "SessionEnd",
        ),
        (
            RuntimeEvent::SessionStatusChanged {
                session_id: "s".into(),
                status: Json::text("Idle"),
                timestamp_ms: 5,
            },
            EventTopic::Session,
            "SessionStatusChanged",
        ),
        (
            RuntimeEvent::ShutdownRequested {
                reason: "r".into(),
                timestamp_ms: 6,
            },
            EventTopic::System,
            "ShutdownRequested",
        ),
    ];
    for (i, (event, topic, name)) in events.iter().enumerate() {
        assert_eq!(event.timestamp_ms(), i as u64 + 1);
        assert_eq!(event.topic(), *topic);
        assert_eq!(topic.name(), format!("{:?}", topic));
        let fields = event.to_json();
        let time = fields.get(name).unwrap().get("timestamp_ms").unwrap();
        assert_eq!(time.as_u64(), Some(i as u64 + 1));
        assert_eq!(event.clone().topic(), *topic);
    }
}

#[test]
fn channel_has_a_default_capacity() {
    assert_eq!(DEFAULT_CAPACITY, 256);
}

#[test]
fn events_are_delivered_in_their_order() {
    let queue = || {
        vec![
            Received::Event(custom("b", Json::unsigned(1))),
            Received::Lagged(1),
            Received::Event(llm_request()),
            Received::Event(custom("a", Json::unsigned(2))),
            Received::Event(custom("b", Json::unsigned(3))),
        ]
    };
    let topics = TopicSubscriber::new(vec![EventTopic::Custom]);
    let mut seen: Vec<u64> = Vec::new();
    for received in queue() {
        if let Delivery::Deliver(RuntimeEvent::Custom { data, .. }) = topics.recv(received) {
            seen.push(data.as_u64().unwrap());
        }
    }
    assert_eq!(seen, vec![1, 2, 3]);

    let types = FilteredSubscriber::new(Some(vec!["b".to_string(), "Llm".to_string()]));
    let mut seen: Vec<String> = Vec::new();
    for received in queue() {
        if let Delivery::Deliver(event) = types.recv(received) {
            seen.push(event.event_type);
        }
    }
    assert_eq!(seen, vec!["b", "Llm", "b"]);
}

#[test]
fn topics_are_kept_as_they_were_given() {
    let topics = vec![EventTopic::Tool, EventTopic::Cost, EventTopic::Tool];
    assert_eq!(*TopicSubscriber::new(topics.clone()).topics(), topics);
}
