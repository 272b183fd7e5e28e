use moly_kit::chat::{
    consult_plugins, ChatTask, PluginLog,
    connections_reset, content_received, streaming_cleared, load_finished, load_started, send_started, execute_finished, execute_started, ChatControllerPluginRegistrationId, ChatState,
    ChatStateMutation, Status,
};
use moly_kit::protocol::{
    Bot, BotCapabilities, BotId, ClientError, ClientErrorKind, ClientResult, Picture, EntityId, Message, MessageContent, MessageMetadata, ToolCall, ToolCallPermissionStatus,
    ToolResult,
};
use moly_kit::vec::VecMutation;

#[test]
fn status_predicates() {
    assert!(Status::default().is_idle());
    assert!(Status::Working.is_working());
    assert!(Status::Error.is_error());
    assert!(Status::Success.is_success());
    assert!(!Status::Idle.is_working());
}

#[test]
fn registration_ids_are_taken_in_turn() {
    let mut counter = 7u64;
    let a = ChatControllerPluginRegistrationId::new(&mut counter);
    let b = ChatControllerPluginRegistrationId::new(&mut counter);
    assert_ne!(a, b);
    assert_eq!(counter, 9);
    let mut last = u64::MAX;
    let _ = ChatControllerPluginRegistrationId::new(&mut last);
    assert_eq!(last, 0);
}

fn call(id: &str, name: &str) -> ToolCall {
    ToolCall {
        id: id.into(),
        name: name.into(),
        arguments: "{}".into(),
        permission_status: ToolCallPermissionStatus::Approved,
    }
}

fn text_message(from: EntityId, text: &str, writing: bool) -> Message {
    let mut content = MessageContent::default();
    content.text = text.to_string();
    let mut metadata = MessageMetadata::new(5);
    metadata.is_writing = writing;
    Message { from, metadata, content }
}

#[test]
fn app_errors_are_app_messages() {
    let m = Message::app_error("boom", 7);
    assert_eq!(m.from, EntityId::App);
    assert_eq!(m.content.text, "boom");
    assert!(m.metadata.is_idle());
    assert!(!m.metadata.is_writing());
    assert!(!m.content.is_empty());
    assert!(MessageContent::default().is_empty());
}

#[test]
fn default_metadata_shares_one_time() {
    let m = MessageMetadata::new(42);
    assert!(!m.is_writing);
    assert_eq!((m.created_at, m.text_updated_at, m.reasoning_updated_at), (42, 42, 42));
    assert_eq!(MessageMetadata::epoch(), MessageMetadata::new(0));
}

#[test]
fn executing_without_tool_manager_shows_an_error() {
    let r = execute_started(&[call("1", "fs__read")], false, 3);
    assert_eq!(r.len(), 1);
    match &r[0] {
        ChatStateMutation::MutateMessages(VecMutation::Push(m)) => {
            assert_eq!(m.from, EntityId::App);
            assert_eq!(m.content.text, "Tool execution failed: Tool manager not available");
        }
        _ => panic!("expected a pushed message"),
    }
}

#[test]
fn executing_shows_a_loading_message_and_streams() {
    let r = execute_started(&[call("1", "fs__read")], true, 3);
    assert_eq!(r.len(), 2);
    match &r[0] {
        ChatStateMutation::MutateMessages(VecMutation::Push(m)) => {
            assert_eq!(m.from, EntityId::Tool);
            assert!(m.metadata.is_writing);
            assert_eq!(m.content.text, "Executing tool 'fs: read'...");
        }
        _ => panic!("expected a pushed message"),
    }
    assert!(matches!(r[1], ChatStateMutation::SetIsStreaming(true)));
    let r = execute_started(&[call("1", "a__b"), call("2", "c__d")], true, 3);
    match &r[0] {
        ChatStateMutation::MutateMessages(VecMutation::Push(m)) => {
            assert_eq!(m.content.text, "Executing 2 tools...");
        }
        _ => panic!("expected a pushed message"),
    }
}

#[test]
fn finishing_removes_loading_messages_and_shows_results() {
    let messages = vec![
        text_message(EntityId::User, "hi", false),
        text_message(EntityId::Tool, "Executing tool 'fs: read'...", true),
        text_message(EntityId::Tool, "old results", false),
        text_message(EntityId::App, "writing app", true),
        text_message(EntityId::Tool, "Executing 2 tools...", true),
    ];
    let calls = vec![call("1", "fs__read")];
    let results = vec![ToolResult {
        tool_call_id: "1".into(),
        content: "{\"summary\":\"done\"}".into(),
        is_error: false,
    }];
    let v = execute_finished(&messages, &calls, results.clone(), 9).unwrap();
    assert_eq!(v.len(), 3);
    assert!(matches!(v[0], ChatStateMutation::SetIsStreaming(false)));

    let mut state = ChatState::default();
    state.messages = messages;
    state.is_streaming = true;
    for m in v {
        m.apply(&mut state);
    }
    assert!(!state.is_streaming);
    let texts: Vec<&str> = state.messages.iter().map(|m| m.content.text.as_str()).collect();
    assert_eq!(
        texts,
        vec![
            "hi",
            "old results",
            "writing app",
            "🔧 Tool 'fs: read' executed successfully:\n`done`",
        ]
    );
    let last = state.messages.last().unwrap();
    assert_eq!(last.from, EntityId::Tool);
    assert!(!last.metadata.is_writing);
    assert_eq!(last.content.tool_results, results);
}

#[test]
fn finishing_fails_where_a_summary_cannot_be_cut() {
    let straddling = format!("{}é{}", "z".repeat(499), "z".repeat(10));
    let results = vec![ToolResult { tool_call_id: "1".into(), content: straddling, is_error: false }];
    assert!(execute_finished(&[], &[call("1", "t")], results, 9).is_none());
}

#[test]
fn state_mutations_touch_one_part() {
    let mut state = ChatState::default();
    assert_eq!(state.load_status, Status::Idle);
    ChatStateMutation::SetLoadStatus(Status::Working).apply(&mut state);
    assert_eq!(state.load_status, Status::Working);
    assert!(!state.is_streaming);
    ChatStateMutation::MutateMessages(VecMutation::Push(Message::app_error("e", 1))).apply(&mut state);
    assert_eq!(state.messages.len(), 1);
    ChatStateMutation::MutateMessages(VecMutation::Clear).apply(&mut state);
    assert!(state.messages.is_empty());
    assert_eq!(state.load_status, Status::Working);
}

fn bot(name: &str) -> Bot {
    Bot {
        id: BotId::new(name, "p"),
        name: name.to_string(),
        avatar: Picture::Grapheme("X".into()),
        capabilities: BotCapabilities::new(),
    }
}

#[test]
fn bots_are_found_by_id() {
    let mut state = ChatState::default();
    state.bots = vec![bot("a"), bot("b")];
    assert_eq!(state.get_bot(&BotId::new("b", "p")).map(|b| b.name.as_str()), Some("b"));
    assert!(state.get_bot(&BotId::new("c", "p")).is_none());
}

fn state_with_calls() -> ChatState {
    let mut state = ChatState::default();
    let mut asking = text_message(EntityId::Bot(BotId::new("m", "p")), "let me look", false);
    asking.content.tool_calls = vec![call("1", "fs__read"), call("2", "web__get")];
    for c in &mut asking.content.tool_calls {
        c.permission_status = ToolCallPermissionStatus::Pending;
    }
    state.messages = vec![text_message(EntityId::User, "hi", false), asking];
    state
}

#[test]
fn approving_tool_calls_marks_them_approved() {
    let mut state = state_with_calls();
    let before = state.messages[1].metadata;
    state.approve_tool_calls(1);
    assert_eq!(state.messages.len(), 2);
    assert!(state.messages[1]
        .content
        .tool_calls
        .iter()
        .all(|c| c.permission_status == ToolCallPermissionStatus::Approved));
    assert_eq!(state.messages[1].metadata, before);
    assert_eq!(state.messages[1].content.text, "let me look");
}

#[test]
fn denying_tool_calls_reports_failed_results() {
    let mut state = state_with_calls();
    state.deny_tool_calls(1, 6);
    assert_eq!(state.messages.len(), 3);
    assert!(state.messages[1]
        .content
        .tool_calls
        .iter()
        .all(|c| c.permission_status == ToolCallPermissionStatus::Denied));
    let last = &state.messages[2];
    assert_eq!(last.from, EntityId::Tool);
    assert_eq!(last.content.text, "🚫 Tool execution was denied by the user.");
    assert_eq!(
        last.content.tool_results,
        vec![
            ToolResult {
                tool_call_id: "1".into(),
                content: "Tool execution was denied by the user. Tool 'fs: read' was not executed."
                    .into(),
                is_error: true,
            },
            ToolResult {
                tool_call_id: "2".into(),
                content: "Tool execution was denied by the user. Tool 'web: get' was not executed."
                    .into(),
                is_error: true,
            },
        ]
    );
}

#[test]
fn setting_content_updates_only_changed_times() {
    let mut m = text_message(EntityId::User, "a", false);
    m.metadata.created_at = 1;
    m.metadata.text_updated_at = 1;
    m.metadata.reasoning_updated_at = 1;
    let mut same_text = MessageContent::default();
    same_text.text = "a".into();
    same_text.citations = vec!["https://x".into()];
    m.set_content(same_text, 2);
    assert_eq!(m.metadata.text_updated_at, 1);
    assert_eq!(m.metadata.reasoning_updated_at, 1);
    assert_eq!(m.content.citations, vec!["https://x".to_string()]);
    let mut both = MessageContent::default();
    both.text = "b".into();
    both.reasoning = "r".into();
    m.set_content(both, 3);
    assert_eq!(m.metadata.created_at, 1);
    assert_eq!(m.metadata.text_updated_at, 3);
    assert_eq!(m.metadata.reasoning_updated_at, 3);
    assert_eq!(m.content.text, "b");
    m.update_content(|c| c.reasoning = "r2".into(), 4);
    assert_eq!(m.metadata.text_updated_at, 3);
    assert_eq!(m.metadata.reasoning_updated_at, 4);
    assert_eq!(m.content.reasoning, "r2");
    assert_eq!(m.content.text, "b");
}

#[test]
fn the_first_plugin_that_stops_a_task_ends_the_round() {
    let mut plugins = vec![PluginLog::new(false), PluginLog::new(true), PluginLog::new(false)];
    assert!(!consult_plugins(&mut plugins, &ChatTask::Stop));
    assert_eq!(plugins.iter().map(|p| p.tasks.len()).collect::<Vec<_>>(), vec![1, 1, 0]);
    let mut plugins = vec![PluginLog::new(false), PluginLog::new(false)];
    assert!(consult_plugins(&mut plugins, &ChatTask::Load));
    assert_eq!(plugins.iter().map(|p| p.tasks.len()).collect::<Vec<_>>(), vec![1, 1]);
}

#[test]
fn plugins_see_each_mutation_before_it_applies() {
    let mut state = ChatState::default();
    let mut plugins = vec![PluginLog::new(false), PluginLog::new(false)];
    let batch = vec![
        ChatStateMutation::MutateMessages(VecMutation::Push(Message::app_error("a", 1))),
        ChatStateMutation::SetIsStreaming(true),
        ChatStateMutation::MutateMessages(VecMutation::Push(Message::app_error("b", 1))),
    ];
    assert!(batch[0].can_apply(&state));
    moly_kit::chat::dispatch_mutations(&mut state, &mut plugins, batch);
    assert_eq!(state.messages.len(), 2);
    assert!(state.is_streaming);
    for p in &plugins {
        assert_eq!(p.mutations, vec![(0, false), (1, false), (1, true)]);
        assert_eq!(p.batches, vec![(2, 3)]);
    }
}

#[test]
fn out_of_bounds_mutations_cannot_apply() {
    let state = ChatState::default();
    assert!(!ChatStateMutation::MutateMessages(VecMutation::RemoveOne(0)).can_apply(&state));
    assert!(!ChatStateMutation::MutateMessages(VecMutation::UpdateLast(Message::app_error("x", 1)))
        .can_apply(&state));
    assert!(ChatStateMutation::MutateMessages(VecMutation::RemoveLast).can_apply(&state));
}

#[test]
fn loading_without_client_fails_at_once() {
    let r = load_started(false, 4);
    assert_eq!(r.len(), 3);
    assert!(matches!(r[0], ChatStateMutation::SetLoadStatus(Status::Working)));
    assert!(matches!(r[1], ChatStateMutation::SetLoadStatus(Status::Error)));
    match &r[2] {
        ChatStateMutation::MutateMessages(VecMutation::Push(m)) => {
            assert_eq!(m.from, EntityId::App);
            assert_eq!(m.content.text, "No bot client configured");
        }
        _ => panic!("expected a pushed message"),
    }
    assert_eq!(load_started(true, 4).len(), 1);
}

#[test]
fn finished_loads_set_bots_and_show_errors() {
    let mut state = ChatState::default();
    let r = load_finished(Some(vec![bot("a")]), vec![], 4);
    assert!(matches!(r[0], ChatStateMutation::SetLoadStatus(Status::Success)));
    for m in r {
        m.apply(&mut state);
    }
    assert_eq!(state.bots.len(), 1);
    assert!(state.messages.is_empty());

    let errors = vec![ClientError::new(ClientErrorKind::Network, "down".into())];
    let r = load_finished(None, errors, 4);
    assert!(matches!(r[0], ChatStateMutation::SetLoadStatus(Status::Error)));
    for m in r {
        m.apply(&mut state);
    }
    assert!(state.bots.is_empty());
    assert_eq!(state.load_status, Status::Error);
    assert_eq!(state.messages.len(), 1);
    assert_eq!(state.messages[0].content.text, "Network error: down");
}

#[test]
fn resetting_connections_clears_bots() {
    let mut state = ChatState::default();
    state.bots = vec![bot("a")];
    state.load_status = Status::Success;
    for m in connections_reset() {
        m.apply(&mut state);
    }
    assert!(state.bots.is_empty());
    assert_eq!(state.load_status, Status::Idle);
}

#[test]
fn sending_adds_a_writing_bot_message() {
    let id = BotId::new("m", "p");
    let r = send_started(id.clone(), true, 4);
    assert_eq!(r.len(), 2);
    match &r[0] {
        ChatStateMutation::MutateMessages(VecMutation::Push(m)) => {
            assert_eq!(m.from, EntityId::Bot(id.clone()));
            assert!(m.metadata.is_writing);
            assert!(m.content.is_empty());
        }
        _ => panic!("expected a pushed message"),
    }
    assert!(matches!(r[1], ChatStateMutation::SetIsStreaming(true)));
    let r = send_started(id, false, 4);
    assert_eq!(r.len(), 1);
    match &r[0] {
        ChatStateMutation::MutateMessages(VecMutation::Push(m)) => {
            assert_eq!(m.content.text, "No bot client configured");
        }
        _ => panic!("expected a pushed message"),
    }
}

#[test]
fn clearing_streaming_finishes_or_drops_writing_messages() {
    let bot_id = EntityId::Bot(BotId::new("m", "p"));
    let messages = vec![
        text_message(EntityId::User, "hi", false),
        text_message(bot_id.clone(), "", true),
        text_message(bot_id.clone(), "partial", true),
        text_message(bot_id.clone(), "", true),
    ];
    assert!(streaming_cleared(&messages, false).is_empty());
    let r = streaming_cleared(&messages, true);
    assert_eq!(r.len(), 3);
    assert!(matches!(r[0], ChatStateMutation::SetIsStreaming(false)));
    match &r[1] {
        ChatStateMutation::MutateMessages(VecMutation::Update(2, m)) => {
            assert!(!m.metadata.is_writing);
            assert_eq!(m.content.text, "partial");
        }
        _ => panic!("expected an update of message 2"),
    }
    let mut state = ChatState::default();
    state.messages = messages;
    state.is_streaming = true;
    for m in r {
        m.apply(&mut state);
    }
    assert!(!state.is_streaming);
    let texts: Vec<&str> = state.messages.iter().map(|m| m.content.text.as_str()).collect();
    assert_eq!(texts, vec!["hi", "partial"]);
    assert!(state.messages.iter().all(|m| !m.metadata.is_writing));
}

#[test]
fn received_content_replaces_the_last_message_content() {
    let messages = vec![text_message(EntityId::Bot(BotId::new("m", "p")), "", true)];
    let mut content = MessageContent::default();
    content.text = "Hello".into();
    let (r, stop) = content_received(&messages, ClientResult::new_ok(content), 11);
    assert!(!stop);
    match &r[0] {
        ChatStateMutation::MutateMessages(VecMutation::UpdateLast(m)) => {
            assert_eq!(m.content.text, "Hello");
            assert!(m.metadata.is_writing);
        }
        _ => panic!("expected an update of the last message"),
    }
}

#[test]
fn received_errors_are_shown_and_stop_the_stream() {
    let errors = vec![
        ClientError::new(ClientErrorKind::Response, "500".into()),
        ClientError::new(ClientErrorKind::Format, "bad json".into()),
    ];
    let (r, stop) = content_received(&[], ClientResult::<MessageContent>::new_err(errors), 11);
    assert!(stop);
    match &r[0] {
        ChatStateMutation::MutateMessages(VecMutation::Extend(ms)) => {
            let texts: Vec<&str> = ms.iter().map(|m| m.content.text.as_str()).collect();
            assert_eq!(texts, vec!["Remote error: 500", "Format error: bad json"]);
        }
        _ => panic!("expected messages to be added"),
    }
}
