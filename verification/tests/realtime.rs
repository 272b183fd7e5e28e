use moly_kit::protocol::{BotId, RealtimeEvent, Tool};
use moly_kit::realtime::{
    event_for_response, function_call_output, response_done_event, time_of_day, tool_choice,
    ErrorDetails, OpenAIRealtimeClient, OpenAIRealtimeResponse, ResponseDoneData,
    ResponseOutputItem,
};

fn call(name: &str) -> ResponseOutputItem {
    ResponseOutputItem::FunctionCall {
        id: "i".into(),
        name: name.into(),
        call_id: format!("c-{}", name),
        arguments: "{}".into(),
        status: "completed".into(),
    }
}

#[test]
fn response_done_takes_first_function_call() {
    let data = ResponseDoneData {
        id: "r".into(),
        status: "completed".into(),
        output: vec![ResponseOutputItem::Other, call("a"), call("b")],
    };
    match response_done_event(&data) {
        RealtimeEvent::FunctionCallRequest { name, call_id, arguments } => {
            assert_eq!(name, "a");
            assert_eq!(call_id, "c-a");
            assert_eq!(arguments, "{}");
        }
        other => panic!("unexpected {:?}", other),
    }
}

#[test]
fn response_done_without_call_completes() {
    let data = ResponseDoneData { id: "r".into(), status: "s".into(), output: vec![ResponseOutputItem::Other] };
    assert!(matches!(response_done_event(&data), RealtimeEvent::ResponseCompleted));
}

#[test]
fn audio_delta_is_decoded() {
    let r = OpenAIRealtimeResponse::ResponseAudioDelta {
        response_id: "r".into(),
        item_id: "i".into(),
        output_index: 0,
        content_index: 0,
        delta: "AQID".into(),
    };
    match event_for_response(r) {
        Some(RealtimeEvent::AudioData(bytes)) => assert_eq!(bytes, vec![1u8, 2, 3]),
        other => panic!("unexpected {:?}", other),
    }
    let bad = OpenAIRealtimeResponse::ResponseAudioDelta {
        response_id: "r".into(),
        item_id: "i".into(),
        output_index: 0,
        content_index: 0,
        delta: "not base64!".into(),
    };
    assert!(event_for_response(bad).is_none());
}

#[test]
fn other_events() {
    assert!(matches!(
        event_for_response(OpenAIRealtimeResponse::SessionCreated { session: serde_json::Value::Null }),
        Some(RealtimeEvent::SessionReady)
    ));
    assert!(event_for_response(OpenAIRealtimeResponse::SessionUpdated { session: serde_json::Value::Null }).is_none());
    assert!(event_for_response(OpenAIRealtimeResponse::Other).is_none());
    match event_for_response(OpenAIRealtimeResponse::Error {
        error: ErrorDetails { code: None, message: "boom".into(), param: None, error_type: None },
    }) {
        Some(RealtimeEvent::Error(m)) => assert_eq!(m, "boom"),
        other => panic!("unexpected {:?}", other),
    }
    match event_for_response(OpenAIRealtimeResponse::ResponseAudioTranscriptDone {
        response_id: "r".into(),
        item_id: "item".into(),
        output_index: 0,
        content_index: 0,
        transcript: "hi".into(),
    }) {
        Some(RealtimeEvent::AudioTranscriptCompleted(t, i)) => {
            assert_eq!(t, "hi");
            assert_eq!(i, "item");
        }
        other => panic!("unexpected {:?}", other),
    }
    assert!(matches!(
        event_for_response(OpenAIRealtimeResponse::InputAudioBufferSpeechStopped { audio_end_ms: 1, item_id: "i".into() }),
        Some(RealtimeEvent::SpeechStopped)
    ));
}

#[test]
fn session_url_adds_model_for_openai() {
    let bot = BotId::new("gpt-realtime", "wss://api.openai.com/v1/realtime");
    let c = OpenAIRealtimeClient::new("wss://api.openai.com/v1/realtime".into());
    assert_eq!(c.session_url(&bot), "wss://api.openai.com/v1/realtime?model=gpt-realtime");
    let c = OpenAIRealtimeClient::new("ws://localhost:8123".into());
    assert_eq!(c.session_url(&bot), "ws://localhost:8123");
}

#[test]
fn set_key_stores_the_key() {
    let mut c = OpenAIRealtimeClient::new("ws://x".into());
    assert_eq!(c.api_key(), None);
    assert_eq!(c.set_key("sk-1"), Ok(()));
    assert_eq!(c.api_key(), Some("sk-1"));
    assert_eq!(c.address(), "ws://x");
}

#[test]
fn times_of_day() {
    assert_eq!(time_of_day(5), "evening");
    assert_eq!(time_of_day(6), "morning");
    assert_eq!(time_of_day(11), "morning");
    assert_eq!(time_of_day(12), "afternoon");
    assert_eq!(time_of_day(17), "afternoon");
    assert_eq!(time_of_day(18), "evening");
}

#[test]
fn tool_choice_depends_on_tools() {
    assert_eq!(tool_choice(&[]), "none");
    let tool = Tool { name: "t".into(), description: None, input_schema: "{}".into() };
    assert_eq!(tool_choice(&[tool]), "auto");
}

#[test]
fn function_call_output_item() {
    let item = function_call_output("c1".into(), "42".into());
    assert_eq!(item.item_type, "function_call_output");
    assert_eq!(item.call_id, "c1");
    assert_eq!(item.output, "42");
}

#[test]
fn realtime_bots_are_listed() {
    let c = OpenAIRealtimeClient::new("wss://api.openai.com/v1/realtime".into());
    let bots = c.supported_bots();
    assert_eq!(bots.len(), 5);
    assert_eq!(bots[0].name, "gpt-realtime");
    assert_eq!(bots[4].id, BotId::new("unsloth/Qwen3-4B-Instruct-2507-GGUF", "wss://api.openai.com/v1/realtime"));
    assert!(bots.iter().all(|b| b.capabilities.supports_realtime()));
}
