//! State and tasks of a chat, framework agnostic.
use vstd::prelude::*;
use vstd::string::StringExecFns;

use crate::mcp::{display_name_from_namespaced, spec_display_name};
use crate::protocol::{
    Bot, BotId, ClientError, ClientResult, EntityId, Message, MessageContent, MessageMetadata, MessageView, ToolCall,
    ToolCallPermissionStatus, ToolResult,
};
use crate::tool_execution::{
    executing_text, result_summaries, result_summary, spec_executing_text, spec_results_text,
    tool_results_text,
};
use crate::vec::{strictly_increasing, without_indices, IndexSet, VecMutation};
use crate::vec_laws::{law_remove_many_is_retain, retained};

verus! {

/// Represents a generic status in which an operation can be.
#[derive(Clone, Copy, Debug, PartialEq, Eq, Structural)]
pub enum Status {
    Idle,
    Working,
    Error,
    Success,
}

impl Default for Status {
    fn default() -> (r: Status)
        ensures
            r == Status::Idle,
    {
        Status::Idle
    }
}

impl Status {
    pub fn is_idle(&self) -> (r: bool)
        ensures
            r == (*self is Idle),
    {
        matches!(self, Status::Idle)
    }

    pub fn is_working(&self) -> (r: bool)
        ensures
            r == (*self is Working),
    {
        matches!(self, Status::Working)
    }

    pub fn is_error(&self) -> (r: bool)
        ensures
            r == (*self is Error),
    {
        matches!(self, Status::Error)
    }

    pub fn is_success(&self) -> (r: bool)
        ensures
            r == (*self is Success),
    {
        matches!(self, Status::Success)
    }
}

/// Represents complex (mostly async) operations that may cause multiple mutations
/// over time.
#[derive(Clone, Debug, PartialEq)]
pub enum ChatTask {
    /// Causes the whole list of messages to be sent to the specified bot and starts
    /// the streaming response work in the background.
    Send(BotId),
    /// Calls the given MCP tools. If a bot is specified, successful tool calls
    /// will be processed by that bot.
    Execute(Vec<ToolCall>, Option<BotId>),
    /// Interrupts the streaming started by `Send`.
    Stop,
    /// Should be triggered to start fetching async data (e.g. bots).
    ///
    /// Eventually, the state will contain the list of bots or errors as messages.
    Load,
}

/// Controls if remaining callbacks and default behavior should be executed.
pub enum ChatControl {
    Continue,
    Stop,
}

/// Unique identifier for a registered plugin. Can be used to unregister it later.
#[derive(Clone, Copy, PartialEq, Eq, Hash, Debug, Structural)]
pub struct ChatControllerPluginRegistrationId(u64);

impl View for ChatControllerPluginRegistrationId {
    type V = u64;

    closed spec fn view(&self) -> u64 {
        self.0
    }
}

impl ChatControllerPluginRegistrationId {
    /// Takes the next id from the counter `next_id` (shared by everything that
    /// registers plugins) and advances the counter, wrapping around after
    /// `u64::MAX` as an atomic `fetch_add` does.
    pub fn new(next_id: &mut u64) -> (r: Self)
        ensures
            r@ == *old(next_id),
            *final(next_id) == (if *old(next_id) == u64::MAX {
                0
            } else {
                (*old(next_id) + 1) as u64
            }),
    {
        let id = *next_id;
        *next_id = id.wrapping_add(1);
        ChatControllerPluginRegistrationId(id)
    }
}

/// State of the chat that a view should reflect.
pub struct ChatState {
    /// The chat history sent as context to LLMs.
    pub messages: Vec<Message>,
    /// Indicates that the LLM is still streaming the response ("writing").
    pub is_streaming: bool,
    /// The bots that were loaded from the configured client.
    pub bots: Vec<Bot>,
    pub load_status: Status,
}

impl Default for ChatState {
    fn default() -> (r: ChatState)
        ensures
            r.messages@.len() == 0,
            !r.is_streaming,
            r.bots@.len() == 0,
            r.load_status == Status::Idle,
    {
        ChatState {
            messages: Vec::new(),
            is_streaming: false,
            bots: Vec::new(),
            load_status: Status::Idle,
        }
    }
}

/// Abstract form of a [`ChatState`].
pub ghost struct ChatStateView {
    pub messages: Seq<Message>,
    pub is_streaming: bool,
    pub bots: Seq<Bot>,
    pub load_status: Status,
}

impl View for ChatState {
    type V = ChatStateView;

    open spec fn view(&self) -> ChatStateView {
        ChatStateView {
            messages: self.messages@,
            is_streaming: self.is_streaming,
            bots: self.bots@,
            load_status: self.load_status,
        }
    }
}

/// `calls` with every permission set to `status`.
pub open spec fn with_permission(calls: Seq<ToolCall>, status: ToolCallPermissionStatus) -> Seq<
    ToolCall,
> {
    calls.map_values(
        |c: ToolCall|
            ToolCall { id: c.id, name: c.name, arguments: c.arguments, permission_status: status },
    )
}

/// `after` is the message `before` with the permission of each of its tool
/// calls set to `status`, and nothing else changed.
pub open spec fn permissions_set(before: Message, after: Message, status: ToolCallPermissionStatus) -> bool {
    &&& after.from == before.from
    &&& after.metadata == before.metadata
    &&& after.content.text == before.content.text
    &&& after.content.citations@ == before.content.citations@
    &&& after.content.reasoning == before.content.reasoning
    &&& after.content.tool_results@ == before.content.tool_results@
    &&& after.content.data == before.content.data
    &&& after.content.tool_calls@ == with_permission(before.content.tool_calls@, status)
}

/// The text of the result given for a tool call the user refused.
pub open spec fn denial_text(call: ToolCall) -> Seq<char> {
    "Tool execution was denied by the user. Tool '"@ + spec_display_name(call.name@)
        + "' was not executed."@
}

/// `results` are the results given for the refused calls `calls`: one failed
/// result per call, in order, telling of the refusal.
pub open spec fn denial_results(calls: Seq<ToolCall>, results: Seq<ToolResult>) -> bool {
    &&& results.len() == calls.len()
    &&& forall|k: int|
        0 <= k < calls.len() ==> {
            &&& (#[trigger] results[k]).tool_call_id == calls[k].id
            &&& results[k].content@ == denial_text(calls[k])
            &&& results[k].is_error
        }
}

impl ChatState {
    /// The first bot with the id `bot_id`, if there is one.
    pub fn get_bot(&self, bot_id: &BotId) -> (r: Option<&Bot>)
        ensures
            match r {
                Some(b) => exists|i: int|
                    0 <= i < self.bots@.len() && self.bots@[i] == *b && b.id@ == bot_id@ && (forall|
                        j: int,
                    | 0 <= j < i ==> (#[trigger] self.bots@[j]).id@ != bot_id@),
                None => forall|i: int|
                    0 <= i < self.bots@.len() ==> (#[trigger] self.bots@[i]).id@ != bot_id@,
            },
    {
        let mut i: usize = 0;
        while i < self.bots.len()
            invariant
                i <= self.bots@.len(),
                forall|j: int| 0 <= j < i ==> (#[trigger] self.bots@[j]).id@ != bot_id@,
            decreases self.bots@.len() - i,
        {
            if self.bots[i].id == *bot_id {
                return Some(&self.bots[i]);
            }
            i += 1;
        }
        None
    }

    /// Sets the permission of every tool call of the message at `index`.
    fn set_permissions(&mut self, index: usize, status: ToolCallPermissionStatus)
        requires
            index < old(self).messages@.len(),
        ensures
            final(self).messages@.len() == old(self).messages@.len(),
            permissions_set(old(self).messages@[index as int], final(self).messages@[index as int], status),
            forall|j: int|
                0 <= j < old(self).messages@.len() && j != index ==> #[trigger] final(self).messages@[j]
                    == old(self).messages@[j],
            final(self).bots@ == old(self).bots@,
            final(self).is_streaming == old(self).is_streaming,
            final(self).load_status == old(self).load_status,
    {
        let ghost before = self.messages@;
        let mut m = self.messages.remove(index);
        let mut calls: Vec<ToolCall> = Vec::new();
        let mut k: usize = 0;
        while k < m.content.tool_calls.len()
            invariant
                k <= m.content.tool_calls@.len(),
                calls@ == with_permission(m.content.tool_calls@, status).take(k as int),
            decreases m.content.tool_calls@.len() - k,
        {
            let c = &m.content.tool_calls[k];
            calls.push(
                ToolCall {
                    id: c.id.clone(),
                    name: c.name.clone(),
                    arguments: c.arguments.clone(),
                    permission_status: status,
                },
            );
            assert(calls@ =~= with_permission(m.content.tool_calls@, status).take(k + 1));
            k += 1;
        }
        assert(calls@ =~= with_permission(m.content.tool_calls@, status));
        let ghost old_m = m;
        m.content.tool_calls = calls;
        self.messages.insert(index, m);
        assert(self.messages@ =~= before.update(index as int, m));
        assert(old_m == before[index as int]);
    }

    /// Marks every tool call of the message at `index` as approved by the user.
    pub fn approve_tool_calls(&mut self, index: usize)
        requires
            index < old(self).messages@.len(),
        ensures
            final(self).messages@.len() == old(self).messages@.len(),
            permissions_set(
                old(self).messages@[index as int],
                final(self).messages@[index as int],
                ToolCallPermissionStatus::Approved,
            ),
            forall|j: int|
                0 <= j < old(self).messages@.len() && j != index ==> #[trigger] final(self).messages@[j]
                    == old(self).messages@[j],
            final(self).bots@ == old(self).bots@,
            final(self).is_streaming == old(self).is_streaming,
            final(self).load_status == old(self).load_status,
    {
        self.set_permissions(index, ToolCallPermissionStatus::Approved);
    }

    /// Marks every tool call of the message at `index` as refused by the user,
    /// and adds a message from the tools that tells of the refusal and carries
    /// a failed result for each refused call, so that the conversation goes on.
    pub fn deny_tool_calls(&mut self, index: usize, now: i64)
        requires
            index < old(self).messages@.len(),
        ensures
            final(self).messages@.len() == old(self).messages@.len() + 1,
            permissions_set(
                old(self).messages@[index as int],
                final(self).messages@[index as int],
                ToolCallPermissionStatus::Denied,
            ),
            forall|j: int|
                0 <= j < old(self).messages@.len() && j != index ==> #[trigger] final(self).messages@[j]
                    == old(self).messages@[j],
            ({
                let m = final(self).messages@.last();
                &&& m.from is Tool
                &&& m.metadata == MessageMetadata::spec_new(now)
                &&& m.content.text@ == "🚫 Tool execution was denied by the user."@
                &&& m.content.citations@.len() == 0
                &&& m.content.reasoning@.len() == 0
                &&& m.content.tool_calls@.len() == 0
                &&& m.content.data is None
                &&& denial_results(old(self).messages@[index as int].content.tool_calls@, m.content.tool_results@)
            }),
            final(self).bots@ == old(self).bots@,
            final(self).is_streaming == old(self).is_streaming,
            final(self).load_status == old(self).load_status,
    {
        self.set_permissions(index, ToolCallPermissionStatus::Denied);
        let ghost calls_before = self.messages@[index as int].content.tool_calls@;
        let mut results: Vec<ToolResult> = Vec::new();
        let calls = &self.messages[index].content.tool_calls;
        let mut k: usize = 0;
        while k < calls.len()
            invariant
                k <= calls@.len(),
                calls@ == with_permission(calls_before, ToolCallPermissionStatus::Denied),
                results@.len() == k,
                forall|q: int|
                    0 <= q < k ==> {
                        &&& (#[trigger] results@[q]).tool_call_id == calls_before[q].id
                        &&& results@[q].content@ == denial_text(calls_before[q])
                        &&& results@[q].is_error
                    },
            decreases calls@.len() - k,
        {
            let call = &calls[k];
            let mut content = String::from_str("Tool execution was denied by the user. Tool '");
            let display = display_name_from_namespaced(call.name.as_str());
            content.append(display.as_str());
            content.append("' was not executed.");
            results.push(ToolResult { tool_call_id: call.id.clone(), content, is_error: true });
            k += 1;
        }
        let mut content = MessageContent::default();
        content.text = String::from_str("🚫 Tool execution was denied by the user.");
        content.tool_results = results;
        let message = Message { from: EntityId::Tool, metadata: MessageMetadata::new(now), content };
        self.messages.push(message);
    }
}

/// A change of the chat state.
#[derive(Clone, Debug)]
pub enum ChatStateMutation {
    SetIsStreaming(bool),
    SetLoadStatus(Status),
    MutateMessages(VecMutation<Message>),
    MutateBots(VecMutation<Bot>),
}

impl ChatStateMutation {
    /// The mutation can be applied to a state whose abstract form is `v` (a
    /// list mutation stays in bounds).
    pub open spec fn applicable_to(&self, v: ChatStateView) -> bool {
        match self {
            ChatStateMutation::MutateMessages(m) => m.applicable(v.messages.len()),
            ChatStateMutation::MutateBots(m) => m.applicable(v.bots.len()),
            _ => true,
        }
    }

    /// The abstract form of a state of abstract form `v` once this mutation is applied.
    pub open spec fn apply_to(self, v: ChatStateView) -> ChatStateView {
        match self {
            ChatStateMutation::SetIsStreaming(b) => ChatStateView { is_streaming: b, ..v },
            ChatStateMutation::SetLoadStatus(status) => ChatStateView { load_status: status, ..v },
            ChatStateMutation::MutateMessages(m) => ChatStateView {
                messages: m.spec_apply(v.messages),
                ..v
            },
            ChatStateMutation::MutateBots(m) => ChatStateView { bots: m.spec_apply(v.bots), ..v },
        }
    }

    /// Whether the mutation can be applied to `state`.
    pub fn can_apply(&self, state: &ChatState) -> (r: bool)
        ensures
            r == self.applicable_to(state@),
    {
        match self {
            ChatStateMutation::MutateMessages(m) => m.can_apply(state.messages.len()),
            ChatStateMutation::MutateBots(m) => m.can_apply(state.bots.len()),
            _ => true,
        }
    }

    /// Applies the mutation to `state`.
    pub fn apply(self, state: &mut ChatState)
        requires
            self.applicable_to(old(state)@),
        ensures
            final(state)@ == self.apply_to(old(state)@),
    {
        match self {
            ChatStateMutation::SetIsStreaming(is_streaming) => {
                state.is_streaming = is_streaming;
            },
            ChatStateMutation::SetLoadStatus(status) => {
                state.load_status = status;
            },
            ChatStateMutation::MutateMessages(mutation) => {
                mutation.apply(&mut state.messages);
            },
            ChatStateMutation::MutateBots(mutation) => {
                mutation.apply(&mut state.bots);
            },
        }
    }
}

/// An error of the app shown at the time `now`: a message of the app holding
/// only the text `text`, made at `now`.
pub open spec fn is_app_error(m: Message, text: Seq<char>, now: i64) -> bool {
    m.is_app_text(text) && m.metadata == MessageMetadata::spec_new(now)
}

/// A message from the tools holding only the text `text`, made at `now`.
pub open spec fn is_tool_text(m: Message, text: Seq<char>, writing: bool, now: i64) -> bool {
    &&& m.from is Tool
    &&& m.metadata == MessageMetadata { is_writing: writing, ..MessageMetadata::spec_new(now) }
    &&& m.content.holds_only_text(text)
}

/// The message tells that tool calls are running: it is from the tools and
/// still being written.
pub open spec fn is_running_tools_message(m: Message) -> bool {
    m.metadata.is_writing && m.from is Tool
}

/// The text of the error shown when tools are to run and nothing can run them.
pub open spec fn no_tool_manager_text() -> Seq<char> {
    "Tool execution failed: Tool manager not available"@
}

/// What the chat does when it is asked to run the tool calls `calls`, before
/// they run. Without a tool manager, it shows an error and nothing runs.
/// Otherwise it shows a message, being written, that tells which tools run,
/// and marks the chat as streaming; the calls then run.
pub fn execute_started(calls: &[ToolCall], has_tool_manager: bool, now: i64) -> (r: Vec<
    ChatStateMutation,
>)
    ensures
        !has_tool_manager ==> {
            &&& r@.len() == 1
            &&& r@[0] matches ChatStateMutation::MutateMessages(VecMutation::Push(m))
                && is_app_error(m, no_tool_manager_text(), now)
        },
        has_tool_manager ==> {
            &&& r@.len() == 2
            &&& r@[0] matches ChatStateMutation::MutateMessages(VecMutation::Push(m))
                && is_tool_text(m, spec_executing_text(calls@), true, now)
            &&& r@[1] == ChatStateMutation::SetIsStreaming(true)
        },
{
    let mut r: Vec<ChatStateMutation> = Vec::new();
    if !has_tool_manager {
        let text = "Tool execution failed: Tool manager not available";
        proof {
            reveal_strlit("Tool execution failed: Tool manager not available");
        }
        r.push(ChatStateMutation::MutateMessages(VecMutation::Push(Message::app_error(text, now))));
        return r;
    }
    let mut content = MessageContent::default();
    content.text = executing_text(calls);
    let mut metadata = MessageMetadata::new(now);
    metadata.is_writing = true;
    let loading = Message { from: EntityId::Tool, metadata, content };
    r.push(ChatStateMutation::MutateMessages(VecMutation::Push(loading)));
    r.push(ChatStateMutation::SetIsStreaming(true));
    r
}

/// `m` shows the results `results` of the tool calls `calls`: a message from
/// the tools, not being written, holding the results text and the results.
pub open spec fn is_results_message(
    m: Message,
    calls: Seq<ToolCall>,
    results: Seq<ToolResult>,
    now: i64,
) -> bool {
    &&& m.from is Tool
    &&& m.metadata == MessageMetadata::spec_new(now)
    &&& m.content.text@ == spec_results_text(calls, results, result_summaries(results))
    &&& m.content.tool_results@ == results
    &&& m.content.citations@.len() == 0
    &&& m.content.reasoning@.len() == 0
    &&& m.content.tool_calls@.len() == 0
    &&& m.content.data is None
}

/// `v` is what the chat does once the tool calls `calls` gave `results`, its
/// messages being `messages`: stop streaming, remove exactly the messages that
/// tell of running tools (by their indices, in increasing order), and push the
/// results message.
pub open spec fn finish_mutations(
    v: Seq<ChatStateMutation>,
    messages: Seq<Message>,
    calls: Seq<ToolCall>,
    results: Seq<ToolResult>,
    now: i64,
) -> bool {
    &&& v.len() == 3
    &&& v[0] == ChatStateMutation::SetIsStreaming(false)
    &&& v[1] matches ChatStateMutation::MutateMessages(VecMutation::RemoveMany(ix)) && {
        &&& strictly_increasing(ix@)
        &&& forall|j: int|
            0 <= j < ix@.len() ==> #[trigger] ix@[j] < messages.len() && is_running_tools_message(
                messages[ix@[j] as int],
            )
        &&& forall|i: usize|
            i < messages.len() && is_running_tools_message(#[trigger] messages[i as int])
                ==> ix@.contains(i)
    }
    &&& v[2] matches ChatStateMutation::MutateMessages(VecMutation::Push(m)) && is_results_message(
        m,
        calls,
        results,
        now,
    )
}

/// Once tool calls finished, what the chat does can be applied in turn to the
/// state it was decided on; doing so stops streaming, drops exactly the
/// messages that told of running tools (every other message stays, in order),
/// and ends with the message showing the results; the bots and the load
/// status are kept.
pub proof fn law_finished_tool_calls(
    v: Seq<ChatStateMutation>,
    calls: Seq<ToolCall>,
    results: Seq<ToolResult>,
    now: i64,
    s: ChatStateView,
)
    requires
        finish_mutations(v, s.messages, calls, results, now),
        s.messages.len() <= usize::MAX,
    ensures
        applicable_in_turn(v, s),
        !apply_in_turn(v, s).is_streaming,
        apply_in_turn(v, s).bots == s.bots,
        apply_in_turn(v, s).load_status == s.load_status,
        apply_in_turn(v, s).messages.len() > 0,
        apply_in_turn(v, s).messages.drop_last() == retained(
            s.messages,
            |i: usize, m: Message| !is_running_tools_message(m),
        ),
        is_results_message(apply_in_turn(v, s).messages.last(), calls, results, now),
{
    let messages = s.messages;
    let keep = |i: usize, m: Message| !is_running_tools_message(m);
    let s1 = v[0].apply_to(s);
    let s2 = v[1].apply_to(s1);
    let s3 = v[2].apply_to(s2);
    assert(v.drop_first().drop_first().drop_first() =~= Seq::<ChatStateMutation>::empty());
    assert(v.drop_first()[0] == v[1]);
    assert(v.drop_first().drop_first()[0] == v[2]);
    assert(apply_in_turn(v, s) == s3) by {
        reveal_with_fuel(apply_in_turn, 4);
    }
    assert(applicable_in_turn(v, s)) by {
        reveal_with_fuel(applicable_in_turn, 4);
    }
    if let ChatStateMutation::MutateMessages(VecMutation::RemoveMany(ix)) = v[1] {
        assert forall|i: usize| i < messages.len() implies (ix@.contains(i) <==> !keep(
            i,
            messages[i as int],
        )) by {
            if ix@.contains(i) {
                let j = choose|j: int| 0 <= j < ix@.len() && ix@[j] == i;
                assert(ix@[j] < messages.len());
            }
        }
        law_remove_many_is_retain(messages, ix@, keep);
        assert(s2.messages == retained(messages, keep));
    }
    assert(s3.messages.drop_last() =~= s2.messages);
}

/// What the chat does once the tool calls `calls` ran and gave `results`, its
/// messages being `messages`: it stops streaming, removes the messages telling
/// that tools run, and shows the results in a message from the tools that
/// carries them. `None` where the summary of a successful output cannot be cut
/// down for display.
pub fn execute_finished(
    messages: &[Message],
    calls: &[ToolCall],
    results: Vec<ToolResult>,
    now: i64,
) -> (r:
    Option<Vec<ChatStateMutation>>)
    ensures
        r is None <==> exists|i: int|
            0 <= i < results@.len() && (#[trigger] result_summary(results@[i])) is None,
        r matches Some(v) ==> finish_mutations(v@, messages@, calls@, results@, now),
{
    let text = match tool_results_text(calls, &results) {
        Some(text) => text,
        None => {
            return None;
        },
    };
    let keep = |_i: usize, m: &Message| -> (keep: bool)
        ensures
            keep == !is_running_tools_message(*m),
        { !(m.metadata.is_writing && matches!(m.from, EntityId::Tool)) };
    let remove = VecMutation::remove_many_with_retain(messages, keep);
    let mut content = MessageContent::default();
    content.text = text;
    content.tool_results = results;
    let done = Message { from: EntityId::Tool, metadata: MessageMetadata::new(now), content };
    let mut v: Vec<ChatStateMutation> = Vec::new();
    v.push(ChatStateMutation::SetIsStreaming(false));
    v.push(ChatStateMutation::MutateMessages(remove));
    v.push(ChatStateMutation::MutateMessages(VecMutation::Push(done)));
    Some(v)
}

/// Every mutation of `ms` can be applied in turn, from a state of abstract form `v`.
pub open spec fn applicable_in_turn(ms: Seq<ChatStateMutation>, v: ChatStateView) -> bool
    decreases ms.len(),
{
    if ms.len() == 0 {
        true
    } else {
        ms[0].applicable_to(v) && applicable_in_turn(ms.drop_first(), ms[0].apply_to(v))
    }
}

/// The abstract form of a state of abstract form `v` once the mutations `ms`
/// are applied in turn.
pub open spec fn apply_in_turn(ms: Seq<ChatStateMutation>, v: ChatStateView) -> ChatStateView
    decreases ms.len(),
{
    if ms.len() == 0 {
        v
    } else {
        apply_in_turn(ms.drop_first(), ms[0].apply_to(v))
    }
}

/// What a plugin is shown: a mutation with the state before it, a final state
/// with its batch of mutations, or a task with what the plugin answered.
pub ghost enum PluginEvent {
    Mutation(ChatStateMutation, ChatStateView),
    Ready(ChatStateView, Seq<ChatStateMutation>),
    Task(ChatTask, ChatControl),
}

/// Hooks between the events of a chat, to extend what it does or to reflect its
/// state in a view. Each plugin keeps the history of what it has been shown.
pub trait ChatControllerPlugin {
    /// What the plugin has been shown so far, in order.
    spec fn seen(&self) -> Seq<PluginEvent>;

    /// Called once every mutation of a batch has been applied, with the final
    /// state and the mutations of the batch.
    fn on_state_ready(&mut self, state: &ChatState, mutations: &[ChatStateMutation])
        ensures
            final(self).seen() == old(self).seen().push(PluginEvent::Ready(state@, mutations@)),
    ;

    /// Called right before a task runs; `ChatControl::Stop` keeps the remaining
    /// plugins and the default behavior from running.
    fn on_task(&mut self, task: &ChatTask) -> (r: ChatControl)
        ensures
            final(self).seen() == old(self).seen().push(PluginEvent::Task(*task, r)),
    ;

    /// Called for every mutation of a batch, with the state before it is applied.
    fn on_state_mutation(&mut self, mutation: &ChatStateMutation, state: &ChatState)
        ensures
            final(self).seen() == old(self).seen().push(PluginEvent::Mutation(*mutation, state@)),
    ;
}

/// A plugin that keeps a log of what it is shown: for each mutation, the
/// number of messages and the streaming flag of the state before it; for each
/// finished batch, the number of messages of the final state and the size of
/// the batch; for each task, whether it let the task go on. It stops every task
/// where `stops_tasks`.
pub struct PluginLog {
    pub stops_tasks: bool,
    pub mutations: Vec<(usize, bool)>,
    pub batches: Vec<(usize, usize)>,
    pub tasks: Vec<bool>,
    /// What the plugin has been shown, in order.
    pub events: Ghost<Seq<PluginEvent>>,
}

impl PluginLog {
    /// A plugin that has been shown nothing yet.
    pub fn new(stops_tasks: bool) -> (r: PluginLog)
        ensures
            r.seen() == Seq::<PluginEvent>::empty(),
            r.stops_tasks == stops_tasks,
            r.mutations@.len() == 0,
            r.batches@.len() == 0,
            r.tasks@.len() == 0,
    {
        PluginLog {
            stops_tasks,
            mutations: Vec::new(),
            batches: Vec::new(),
            tasks: Vec::new(),
            events: Ghost(Seq::empty()),
        }
    }
}

impl ChatControllerPlugin for PluginLog {
    closed spec fn seen(&self) -> Seq<PluginEvent> {
        self.events@
    }

    fn on_state_ready(&mut self, state: &ChatState, mutations: &[ChatStateMutation]) {
        self.batches.push((state.messages.len(), mutations.len()));
        self.events = Ghost(self.events@.push(PluginEvent::Ready(state@, mutations@)));
    }

    fn on_task(&mut self, task: &ChatTask) -> (r: ChatControl) {
        self.tasks.push(!self.stops_tasks);
        let r = if self.stops_tasks {
            ChatControl::Stop
        } else {
            ChatControl::Continue
        };
        self.events = Ghost(self.events@.push(PluginEvent::Task(*task, r)));
        r
    }

    fn on_state_mutation(&mut self, mutation: &ChatStateMutation, state: &ChatState) {
        self.mutations.push((state.messages.len(), state.is_streaming));
        self.events = Ghost(self.events@.push(PluginEvent::Mutation(*mutation, state@)));
    }
}

/// What every plugin is shown while the mutations `ms` are applied in turn
/// from a state of abstract form `v`: each mutation, in order, with the state
/// before it.
pub open spec fn mutation_events(ms: Seq<ChatStateMutation>, v: ChatStateView) -> Seq<PluginEvent>
    decreases ms.len(),
{
    if ms.len() == 0 {
        Seq::empty()
    } else {
        seq![PluginEvent::Mutation(ms[0], v)] + mutation_events(ms.drop_first(), ms[0].apply_to(v))
    }
}

/// Applies `mutations` to `state` in turn as one batch: every plugin, in order,
/// is shown each mutation with the state before it; once all are applied,
/// every plugin is shown the final state and the batch (as clones of the
/// mutations).
pub fn dispatch_mutations<P: ChatControllerPlugin>(
    state: &mut ChatState,
    plugins: &mut Vec<P>,
    mutations: Vec<ChatStateMutation>,
)
    requires
        applicable_in_turn(mutations@, old(state)@),
    ensures
        final(state)@ == apply_in_turn(mutations@, old(state)@),
        final(plugins)@.len() == old(plugins)@.len(),
        exists|batch: Seq<ChatStateMutation>|
            #![trigger batch.len()]
            {
                &&& batch.len() == mutations@.len()
                &&& forall|i: int|
                    0 <= i < batch.len() ==> cloned(mutations@[i], #[trigger] batch[i])
                &&& forall|j: int|
                    0 <= j < old(plugins)@.len() ==> (#[trigger] final(plugins)@[j]).seen()
                        == old(plugins)@[j].seen() + mutation_events(mutations@, old(state)@).push(
                        PluginEvent::Ready(final(state)@, batch),
                    )
            },
{
    let ghost start = state@;
    let ghost orig = plugins@;
    let batch = mutations.clone();
    let mut pending = mutations;
    assert forall|j: int| 0 <= j < plugins@.len() implies (#[trigger] plugins@[j]).seen()
        + mutation_events(pending@, state@) == orig[j].seen() + mutation_events(mutations@, start) by {}
    while pending.len() > 0
        invariant
            applicable_in_turn(pending@, state@),
            apply_in_turn(mutations@, start) == apply_in_turn(pending@, state@),
            plugins@.len() == orig.len(),
            forall|j: int|
                0 <= j < plugins@.len() ==> (#[trigger] plugins@[j]).seen() + mutation_events(
                    pending@,
                    state@,
                ) == orig[j].seen() + mutation_events(mutations@, start),
        decreases pending@.len(),
    {
        let ghost round = plugins@;
        let ghost event = PluginEvent::Mutation(pending@[0], state@);
        let mut p: usize = 0;
        while p < plugins.len()
            invariant
                p <= plugins@.len(),
                plugins@.len() == round.len(),
                pending@.len() > 0,
                event == PluginEvent::Mutation(pending@[0], state@),
                forall|j: int|
                    0 <= j < p ==> (#[trigger] plugins@[j]).seen() == round[j].seen().push(event),
                forall|j: int| p <= j < plugins@.len() ==> #[trigger] plugins@[j] == round[j],
            decreases plugins@.len() - p,
        {
            plugins[p].on_state_mutation(&pending[0], state);
            p += 1;
        }
        let ghost before = pending@;
        let ghost before_state = state@;
        let mutation = pending.remove(0);
        assert(pending@ =~= before.drop_first());
        mutation.apply(state);
        assert forall|j: int| 0 <= j < plugins@.len() implies (#[trigger] plugins@[j]).seen()
            + mutation_events(pending@, state@) == orig[j].seen() + mutation_events(
            mutations@,
            start,
        ) by {
            assert(mutation_events(before, before_state) == seq![event] + mutation_events(
                pending@,
                state@,
            ));
            assert(plugins@[j].seen() + mutation_events(pending@, state@) =~= round[j].seen()
                + mutation_events(before, before_state));
        }
    }
    assert forall|j: int| 0 <= j < plugins@.len() implies (#[trigger] plugins@[j]).seen()
        == orig[j].seen() + mutation_events(mutations@, start) by {
        assert(plugins@[j].seen() + mutation_events(pending@, state@) =~= plugins@[j].seen());
    }
    let ghost done = plugins@;
    let mut p: usize = 0;
    while p < plugins.len()
        invariant
            p <= plugins@.len(),
            plugins@.len() == done.len(),
            forall|j: int|
                0 <= j < p ==> (#[trigger] plugins@[j]).seen() == done[j].seen().push(
                    PluginEvent::Ready(state@, batch@),
                ),
            forall|j: int| p <= j < plugins@.len() ==> #[trigger] plugins@[j] == done[j],
        decreases plugins@.len() - p,
    {
        plugins[p].on_state_ready(state, batch.as_slice());
        p += 1;
    }
    assert(forall|i: int| 0 <= i < batch@.len() ==> cloned(mutations@[i], #[trigger] batch@[i]));
    assert(batch@.len() == mutations@.len());
}

/// The plugins `before` became `after` by being shown `task` in order up to
/// the one at `k`: those before `k` answered `Continue`; the one at `k`, if
/// any, answered `Stop`, and then the task does not proceed; those after it
/// were not shown it. Where none stopped it, the task proceeds.
pub open spec fn consulted<P: ChatControllerPlugin>(
    before: Seq<P>,
    after: Seq<P>,
    task: ChatTask,
    k: int,
    proceed: bool,
) -> bool {
    &&& after.len() == before.len()
    &&& 0 <= k <= before.len()
    &&& forall|j: int|
        0 <= j < k ==> (#[trigger] after[j]).seen() == before[j].seen().push(
            PluginEvent::Task(task, ChatControl::Continue),
        )
    &&& forall|j: int| k < j < before.len() ==> #[trigger] after[j] == before[j]
    &&& k < before.len() ==> !proceed && after[k].seen() == before[k].seen().push(
        PluginEvent::Task(task, ChatControl::Stop),
    )
    &&& k == before.len() ==> proceed
}

/// Shows the task `task` to the plugins in order, until one answers
/// `ChatControl::Stop`; tells whether the default behavior is to run (no
/// plugin stopped it). The plugins after one that stopped are not shown it.
pub fn consult_plugins<P: ChatControllerPlugin>(plugins: &mut Vec<P>, task: &ChatTask) -> (proceed:
    bool)
    ensures
        final(plugins)@.len() == old(plugins)@.len(),
        exists|k: int| consulted(old(plugins)@, final(plugins)@, *task, k, proceed),
{
    let ghost orig = plugins@;
    let mut proceed = true;
    let mut p: usize = 0;
    while proceed && p < plugins.len()
        invariant
            p <= plugins@.len(),
            plugins@.len() == orig.len(),
            proceed ==> forall|j: int|
                0 <= j < p ==> (#[trigger] plugins@[j]).seen() == orig[j].seen().push(
                    PluginEvent::Task(*task, ChatControl::Continue),
                ),
            proceed ==> forall|j: int| p <= j < plugins@.len() ==> #[trigger] plugins@[j] == orig[j],
            !proceed ==> p >= 1 && consulted(orig, plugins@, *task, p - 1, false),
        decreases plugins@.len() - p,
    {
        let control = plugins[p].on_task(task);
        match control {
            ChatControl::Stop => {
                proceed = false;
                assert(consulted(orig, plugins@, *task, p as int, false));
            },
            ChatControl::Continue => {},
        }
        p += 1;
    }
    if proceed {
        assert(consulted(orig, plugins@, *task, p as int, true));
    }
    proceed
}

/// The text of the error shown when the chat has no client to ask.
pub open spec fn no_client_text() -> Seq<char> {
    "No bot client configured"@
}

/// What the chat does when asked to load its bots, before any answer: the load
/// is working; without a client it fails at once and says so.
pub fn load_started(has_client: bool, now: i64) -> (r: Vec<ChatStateMutation>)
    ensures
        r@.len() >= 1,
        r@[0] == ChatStateMutation::SetLoadStatus(Status::Working),
        has_client ==> r@.len() == 1,
        !has_client ==> {
            &&& r@.len() == 3
            &&& r@[1] == ChatStateMutation::SetLoadStatus(Status::Error)
            &&& r@[2] matches ChatStateMutation::MutateMessages(VecMutation::Push(m))
                && is_app_error(m, no_client_text(), now)
        },
{
    let mut r: Vec<ChatStateMutation> = Vec::new();
    r.push(ChatStateMutation::SetLoadStatus(Status::Working));
    if !has_client {
        r.push(ChatStateMutation::SetLoadStatus(Status::Error));
        proof {
            reveal_strlit("No bot client configured");
        }
        r.push(
            ChatStateMutation::MutateMessages(
                VecMutation::Push(Message::app_error("No bot client configured", now)),
            ),
        );
    }
    r
}

/// The messages of the app showing `errors`, in order, made at `now`.
pub open spec fn shows_errors(messages: Seq<Message>, errors: Seq<ClientError>, now: i64) -> bool {
    &&& messages.len() == errors.len()
    &&& forall|i: int|
        0 <= i < errors.len() ==> is_app_error(
            #[trigger] messages[i],
            errors[i].spec_kind().human_readable() + ": "@ + errors[i].spec_message(),
            now,
        )
}

/// What the chat does once its client answered the load of bots with `bots`
/// and `errors`: the load succeeded where there is no error, else failed; the
/// bots become those given (none where none came); each error is shown.
pub fn load_finished(bots: Option<Vec<Bot>>, errors: Vec<ClientError>, now: i64) -> (r: Vec<
    ChatStateMutation,
>)
    ensures
        r@.len() == 3,
        r@[0] == ChatStateMutation::SetLoadStatus(
            if errors@.len() == 0 {
                Status::Success
            } else {
                Status::Error
            },
        ),
        r@[1] matches ChatStateMutation::MutateBots(VecMutation::SetAll(b)) && b@ == match bots {
            Some(v) => v@,
            None => Seq::empty(),
        },
        r@[2] matches ChatStateMutation::MutateMessages(VecMutation::Extend(ms)) && shows_errors(
            ms@,
            errors@,
            now,
        ),
{
    let status = if errors.len() == 0 {
        Status::Success
    } else {
        Status::Error
    };
    let mut messages: Vec<Message> = Vec::new();
    let mut i: usize = 0;
    while i < errors.len()
        invariant
            i <= errors@.len(),
            shows_errors(messages@, errors@.take(i as int), now),
        decreases errors@.len() - i,
    {
        let text = errors[i].to_display_string();
        messages.push(Message::app_error(text.as_str(), now));
        assert(errors@.take(i + 1)[i as int] == errors@[i as int]);
        i += 1;
    }
    assert(errors@.take(errors@.len() as int) =~= errors@);
    let all = match bots {
        Some(v) => v,
        None => Vec::new(),
    };
    let mut r: Vec<ChatStateMutation> = Vec::new();
    r.push(ChatStateMutation::SetLoadStatus(status));
    r.push(ChatStateMutation::MutateBots(VecMutation::SetAll(all)));
    r.push(ChatStateMutation::MutateMessages(VecMutation::Extend(messages)));
    r
}

/// What the chat does when its client changes or its connections are reset:
/// its bots are cleared and its load goes back to idle.
pub fn connections_reset() -> (r: Vec<ChatStateMutation>)
    ensures
        r@ == seq![
            ChatStateMutation::MutateBots(VecMutation::Clear),
            ChatStateMutation::SetLoadStatus(Status::Idle),
        ],
{
    let mut r: Vec<ChatStateMutation> = Vec::new();
    r.push(ChatStateMutation::MutateBots(VecMutation::Clear));
    r.push(ChatStateMutation::SetLoadStatus(Status::Idle));
    r
}

/// What the chat does when asked to send its messages to the bot `bot_id`,
/// before the answer streams: without a client it shows an error; otherwise it
/// adds an empty message from the bot, being written, and marks the chat as
/// streaming.
pub fn send_started(bot_id: BotId, has_client: bool, now: i64) -> (r: Vec<ChatStateMutation>)
    ensures
        !has_client ==> {
            &&& r@.len() == 1
            &&& r@[0] matches ChatStateMutation::MutateMessages(VecMutation::Push(m))
                && is_app_error(m, no_client_text(), now)
        },
        has_client ==> {
            &&& r@.len() == 2
            &&& r@[0] matches ChatStateMutation::MutateMessages(VecMutation::Push(m)) && {
                &&& m.from == EntityId::Bot(bot_id)
                &&& m.metadata == MessageMetadata {
                    is_writing: true,
                    ..MessageMetadata::spec_new(now)
                }
                &&& m.content.holds_only_text(Seq::empty())
            }
            &&& r@[1] == ChatStateMutation::SetIsStreaming(true)
        },
{
    let mut r: Vec<ChatStateMutation> = Vec::new();
    if !has_client {
        proof {
            reveal_strlit("No bot client configured");
        }
        r.push(
            ChatStateMutation::MutateMessages(
                VecMutation::Push(Message::app_error("No bot client configured", now)),
            ),
        );
        return r;
    }
    let mut metadata = MessageMetadata::new(now);
    metadata.is_writing = true;
    let m = Message { from: EntityId::Bot(bot_id), metadata, content: MessageContent::default() };
    r.push(ChatStateMutation::MutateMessages(VecMutation::Push(m)));
    r.push(ChatStateMutation::SetIsStreaming(true));
    r
}

/// `m` with its writing finished, and nothing else changed.
pub open spec fn finished_writing(m: MessageView) -> MessageView {
    MessageView { metadata: MessageMetadata { is_writing: false, ..m.metadata }, ..m }
}

/// A message still being written that holds nothing: it is dropped when
/// streaming stops.
pub open spec fn is_abandoned(m: Message) -> bool {
    m.metadata.is_writing && m.content.spec_is_empty()
}

/// A message still being written that holds something: it is kept, finished,
/// when streaming stops.
pub open spec fn is_unfinished(m: Message) -> bool {
    m.metadata.is_writing && !m.content.spec_is_empty()
}

/// The updates that finish the unfinished messages of `messages`: each one's
/// index and its finished form, in order.
pub open spec fn finishing_updates(messages: Seq<Message>) -> Seq<(usize, MessageView)>
    decreases messages.len(),
{
    if messages.len() == 0 {
        Seq::empty()
    } else {
        let rest = finishing_updates(messages.drop_last());
        if is_unfinished(messages.last()) {
            rest.push(((messages.len() - 1) as usize, finished_writing(messages.last()@)))
        } else {
            rest
        }
    }
}

/// `v` is a run of list updates of messages that follows `updates`.
pub open spec fn updates_as(v: Seq<ChatStateMutation>, updates: Seq<(usize, MessageView)>) -> bool {
    &&& v.len() == updates.len()
    &&& forall|k: int| 0 <= k < v.len() ==> #[trigger] updates_at(v[k], updates[k])
}

/// `mutation` updates the message at `update.0` to `update.1`.
pub open spec fn updates_at(mutation: ChatStateMutation, update: (usize, MessageView)) -> bool {
    mutation matches ChatStateMutation::MutateMessages(VecMutation::Update(i, m)) && i == update.0
        && m@ == update.1
}

/// `v` is what the chat does when streaming stops, its messages being
/// `messages`: it is no longer streaming, the unfinished messages are finished
/// in order, and the abandoned ones are removed.
pub open spec fn clear_mutations(v: Seq<ChatStateMutation>, messages: Seq<Message>) -> bool {
    &&& v.len() == finishing_updates(messages).len() + 2
    &&& v[0] == ChatStateMutation::SetIsStreaming(false)
    &&& updates_as(v.subrange(1, v.len() - 1), finishing_updates(messages))
    &&& v.last() matches ChatStateMutation::MutateMessages(VecMutation::RemoveMany(ix)) && {
        &&& strictly_increasing(ix@)
        &&& forall|x: usize|
            ix@.contains(x) <==> (x < messages.len() && is_abandoned(#[trigger] messages[x as int]))
    }
}

/// The updates that finish messages are those of the unfinished messages, by
/// increasing index, each giving the finished form of its message.
proof fn lemma_finishing_updates(messages: Seq<Message>)
    requires
        messages.len() <= usize::MAX,
    ensures
        forall|k: int|
            0 <= k < finishing_updates(messages).len() ==> {
                let (i, w) = #[trigger] finishing_updates(messages)[k];
                &&& i < messages.len()
                &&& is_unfinished(messages[i as int])
                &&& w == finished_writing(messages[i as int]@)
            },
        forall|k1: int, k2: int|
            0 <= k1 < k2 < finishing_updates(messages).len() ==> (#[trigger] finishing_updates(
                messages,
            )[k1]).0 < (#[trigger] finishing_updates(messages)[k2]).0,
        forall|j: usize|
            j < messages.len() && is_unfinished(#[trigger] messages[j as int]) ==> exists|k: int|
                0 <= k < finishing_updates(messages).len() && (#[trigger] finishing_updates(
                    messages,
                )[k]).0 == j,
    decreases messages.len(),
{
    if messages.len() > 0 {
        let rest = messages.drop_last();
        lemma_finishing_updates(rest);
        let ups = finishing_updates(messages);
        let rups = finishing_updates(rest);
        assert forall|k: int| 0 <= k < rups.len() implies (#[trigger] rups[k]).0 < messages.len()
            - 1 && rest[rups[k].0 as int] == messages[rups[k].0 as int] by {}
        let n = (messages.len() - 1) as usize;
        assert forall|j: usize|
            j < messages.len() && is_unfinished(#[trigger] messages[j as int]) implies exists|k: int|
                0 <= k < ups.len() && (#[trigger] ups[k]).0 == j by {
            if j < n {
                assert(rest[j as int] == messages[j as int]);
                let k = choose|k: int| 0 <= k < rups.len() && (#[trigger] rups[k]).0 == j;
                assert(ups[k] == rups[k]);
            } else {
                assert(ups[rups.len() as int].0 == j);
            }
        }
    }
}

/// Applying in turn updates of a list at strictly increasing indices in range
/// sets each updated position to its new value and keeps every other part.
proof fn lemma_apply_updates(v: Seq<ChatStateMutation>, ups: Seq<(usize, MessageView)>, s: ChatStateView)
    requires
        updates_as(v, ups),
        forall|k: int| 0 <= k < ups.len() ==> (#[trigger] ups[k]).0 < s.messages.len(),
        forall|k1: int, k2: int|
            0 <= k1 < k2 < ups.len() ==> (#[trigger] ups[k1]).0 < (#[trigger] ups[k2]).0,
    ensures
        applicable_in_turn(v, s),
        apply_in_turn(v, s).messages.len() == s.messages.len(),
        apply_in_turn(v, s).is_streaming == s.is_streaming,
        apply_in_turn(v, s).bots == s.bots,
        apply_in_turn(v, s).load_status == s.load_status,
        forall|k: int|
            0 <= k < ups.len() ==> apply_in_turn(v, s).messages[(#[trigger] ups[k]).0 as int]@
                == ups[k].1,
        forall|j: int|
            0 <= j < s.messages.len() && (forall|k: int| 0 <= k < ups.len() ==> (#[trigger] ups[k]).0
                != j) ==> #[trigger] apply_in_turn(v, s).messages[j] == s.messages[j],
    decreases v.len(),
{
    if v.len() > 0 {
        assert(updates_at(v[0], ups[0]));
        let s1 = v[0].apply_to(s);
        let rv = v.drop_first();
        let rups = ups.drop_first();
        assert forall|k: int| 0 <= k < rv.len() implies #[trigger] updates_at(rv[k], rups[k]) by {
            assert(updates_at(v[k + 1], ups[k + 1]));
        }
        assert forall|k1: int, k2: int| 0 <= k1 < k2 < rups.len() implies (#[trigger] rups[k1]).0
            < (#[trigger] rups[k2]).0 by {
            assert(ups[k1 + 1].0 < ups[k2 + 1].0);
        }
        lemma_apply_updates(rv, rups, s1);
        let r = apply_in_turn(v, s);
        assert(r == apply_in_turn(rv, s1));
        assert forall|k: int| 0 <= k < ups.len() implies r.messages[(#[trigger] ups[k]).0 as int]@
            == ups[k].1 by {
            if k == 0 {
                assert forall|q: int| 0 <= q < rups.len() implies (#[trigger] rups[q]).0 != ups[0].0 by {
                    assert(ups[0].0 < ups[q + 1].0);
                }
            } else {
                assert(rups[k - 1] == ups[k]);
            }
        }
        assert forall|j: int|
            0 <= j < s.messages.len() && (forall|k: int| 0 <= k < ups.len() ==> (#[trigger] ups[k]).0
                != j) implies #[trigger] r.messages[j] == s.messages[j] by {
            assert(ups[0].0 != j);
            assert forall|q: int| 0 <= q < rups.len() implies (#[trigger] rups[q]).0 != j by {
                assert(ups[q + 1].0 != j);
            }
        }
    }
}

/// Applying `a` then `b` in turn is applying `a + b` in turn.
proof fn lemma_apply_concat(a: Seq<ChatStateMutation>, b: Seq<ChatStateMutation>, s: ChatStateView)
    ensures
        applicable_in_turn(a + b, s) == (applicable_in_turn(a, s) && applicable_in_turn(
            b,
            apply_in_turn(a, s),
        )),
        apply_in_turn(a + b, s) == apply_in_turn(b, apply_in_turn(a, s)),
    decreases a.len(),
{
    if a.len() == 0 {
        assert(a + b =~= b);
    } else {
        assert((a + b).drop_first() =~= a.drop_first() + b);
        assert((a + b)[0] == a[0]);
        lemma_apply_concat(a.drop_first(), b, a[0].apply_to(s));
    }
}

/// Every element left once positions are removed is an element at a position
/// that was not removed.
proof fn lemma_without_indices_members<T>(s: Seq<T>, removed: Seq<usize>)
    requires
        s.len() <= usize::MAX,
    ensures
        forall|p: int|
            0 <= p < without_indices(s, removed).len() ==> exists|j: int|
                0 <= j < s.len() && !removed.contains(j as usize) && #[trigger] without_indices(
                    s,
                    removed,
                )[p] == s[j],
    decreases s.len(),
{
    if s.len() > 0 {
        let rest = s.drop_last();
        lemma_without_indices_members(rest, removed);
        let w = without_indices(s, removed);
        let rw = without_indices(rest, removed);
        assert forall|p: int| 0 <= p < w.len() implies exists|j: int|
            0 <= j < s.len() && !removed.contains(j as usize) && #[trigger] w[p] == s[j] by {
            if p < rw.len() {
                assert(w[p] == rw[p]);
                let j = choose|j: int|
                    0 <= j < rest.len() && !removed.contains(j as usize) && #[trigger] rw[p] == rest[j];
                assert(s[j] == rest[j]);
            } else {
                assert(w[p] == s[s.len() - 1]);
            }
        }
    }
}

/// Once streaming stops, what the chat does can be applied in turn to the
/// state it was decided on; doing so leaves the chat not streaming and no
/// message still being written; the bots and the load status are kept.
pub proof fn law_streaming_cleared(v: Seq<ChatStateMutation>, s: ChatStateView)
    requires
        clear_mutations(v, s.messages),
        s.messages.len() <= usize::MAX,
    ensures
        applicable_in_turn(v, s),
        !apply_in_turn(v, s).is_streaming,
        apply_in_turn(v, s).bots == s.bots,
        apply_in_turn(v, s).load_status == s.load_status,
        forall|p: int|
            0 <= p < apply_in_turn(v, s).messages.len() ==> !(#[trigger] apply_in_turn(
                v,
                s,
            ).messages[p]).metadata.is_writing,
{
    let messages = s.messages;
    let ups = finishing_updates(messages);
    lemma_finishing_updates(messages);
    let head = v.subrange(0, 1);
    let mid = v.subrange(1, v.len() - 1);
    let tail = v.subrange(v.len() - 1, v.len() as int);
    assert(v =~= head + mid + tail);
    let s1 = v[0].apply_to(s);
    assert(apply_in_turn(head, s) == s1 && applicable_in_turn(head, s)) by {
        assert(head.drop_first() =~= Seq::<ChatStateMutation>::empty());
        assert(head[0] == v[0]);
        reveal_with_fuel(apply_in_turn, 2);
        reveal_with_fuel(applicable_in_turn, 2);
    }
    assert forall|k: int| 0 <= k < ups.len() implies (#[trigger] ups[k]).0 < s1.messages.len() by {}
    lemma_apply_updates(mid, ups, s1);
    let s2 = apply_in_turn(mid, s1);
    lemma_apply_concat(head, mid, s);
    lemma_apply_concat(head + mid, tail, s);
    let s3 = tail[0].apply_to(s2);
    assert(apply_in_turn(tail, s2) == s3 && applicable_in_turn(tail, s2)) by {
        assert(tail.drop_first() =~= Seq::<ChatStateMutation>::empty());
        assert(tail[0] == v.last());
        reveal_with_fuel(apply_in_turn, 2);
        reveal_with_fuel(applicable_in_turn, 2);
    }
    if let ChatStateMutation::MutateMessages(VecMutation::RemoveMany(ix)) = tail[0] {
        lemma_without_indices_members(s2.messages, ix@);
        assert forall|p: int| 0 <= p < s3.messages.len() implies !(#[trigger] s3.messages[p]).metadata.is_writing by {
            let j = choose|j: int|
                0 <= j < s2.messages.len() && !ix@.contains(j as usize) && #[trigger] s3.messages[p]
                    == s2.messages[j];
            assert(!is_abandoned(messages[j]));
            if is_unfinished(messages[j]) {
                let k = choose|k: int| 0 <= k < ups.len() && (#[trigger] ups[k]).0 == j as usize;
                assert(s2.messages[ups[k].0 as int]@ == ups[k].1);
            } else {
                assert forall|k: int| 0 <= k < ups.len() implies (#[trigger] ups[k]).0 != j by {}
                assert(s2.messages[j] == s1.messages[j]);
            }
        }
    }
}

/// What the chat does when streaming stops (`was_sending` says that a send was
/// streaming; otherwise nothing is done): it is no longer streaming, every
/// message still being written that holds something is finished, in order, and
/// those that hold nothing are removed.
pub fn streaming_cleared(messages: &[Message], was_sending: bool) -> (r: Vec<ChatStateMutation>)
    ensures
        !was_sending ==> r@.len() == 0,
        was_sending ==> clear_mutations(r@, messages@),
{
    let mut r: Vec<ChatStateMutation> = Vec::new();
    if !was_sending {
        return r;
    }
    r.push(ChatStateMutation::SetIsStreaming(false));
    let mut abandoned: Vec<usize> = Vec::new();
    let mut i: usize = 0;
    while i < messages.len()
        invariant
            i <= messages@.len(),
            r@.len() == finishing_updates(messages@.take(i as int)).len() + 1,
            r@[0] == ChatStateMutation::SetIsStreaming(false),
            updates_as(r@.subrange(1, r@.len() as int), finishing_updates(messages@.take(i as int))),
            forall|x: usize|
                #![trigger abandoned@.contains(x)]
                #![trigger messages@[x as int]]
                abandoned@.contains(x) <==> (x < i && is_abandoned(messages@[x as int])),
        decreases messages@.len() - i,
    {
        let ghost before = r@;
        let ghost before_ab = abandoned@;
        let m = &messages[i];
        assert(messages@.take(i + 1).drop_last() =~= messages@.take(i as int));
        assert(messages@.take(i + 1).last() == messages@[i as int]);
        if m.metadata.is_writing {
            if m.content.is_empty() {
                abandoned.push(i);
                assert(abandoned@ == before_ab.push(i));
                assert forall|x: usize|
                    abandoned@.contains(x) <==> (x < i + 1 && is_abandoned(
                        #[trigger] messages@[x as int],
                    )) by {
                    if x == i {
                        assert(abandoned@[before_ab.len() as int] == i);
                    } else {
                        if abandoned@.contains(x) {
                            let j = choose|j: int| 0 <= j < abandoned@.len() && abandoned@[j] == x;
                            assert(j < before_ab.len());
                            assert(before_ab[j] == x);
                            assert(before_ab.contains(x));
                        }
                        if x < i && is_abandoned(messages@[x as int]) {
                            assert(before_ab.contains(x));
                            let j = choose|j: int| 0 <= j < before_ab.len() && before_ab[j] == x;
                            assert(abandoned@[j] == x);
                        }
                    }
                }
            } else {
                let mut finished = m.clone();
                finished.metadata.is_writing = false;
                assert(finished@ == finished_writing(messages@[i as int]@));
                r.push(ChatStateMutation::MutateMessages(VecMutation::Update(i, finished)));
                assert(r@.subrange(1, r@.len() as int) =~= before.subrange(1, before.len() as int).push(
                    r@.last(),
                ));
            }
        }
        i += 1;
    }
    assert(messages@.take(messages@.len() as int) =~= messages@);
    let ghost ab = abandoned@;
    let ix = IndexSet::from_indices(abandoned);
    assert forall|x: usize|
        ix@.contains(x) <==> (x < messages@.len() && is_abandoned(#[trigger] messages@[x as int])) by {
        assert(ix@.contains(x) <==> ab.contains(x));
    }
    let ghost body = r@;
    r.push(ChatStateMutation::MutateMessages(VecMutation::RemoveMany(ix)));
    assert(r@.subrange(1, r@.len() - 1) =~= body.subrange(1, body.len() as int));
    r
}

/// What the chat does with a piece of the answer streamed for its last
/// message, and whether the stream is to stop. Content without error becomes
/// the content of the last message, and the stream goes on; errors are shown,
/// one message each, and the stream stops (any content is then dropped).
pub fn content_received(messages: &[Message], result: ClientResult<MessageContent>, now: i64) -> (r: (
    Vec<ChatStateMutation>,
    bool,
))
    requires
        result.spec_errors().len() == 0 ==> messages@.len() > 0,
    ensures
        r.0@.len() == 1,
        r.1 == (result.spec_errors().len() > 0),
        result.spec_errors().len() == 0 ==> {
            &&& r.0@[0] matches ChatStateMutation::MutateMessages(VecMutation::UpdateLast(m))
                && Message::content_set(messages@.last()@, m, result.spec_value()->Some_0, now)
        },
        result.spec_errors().len() > 0 ==> {
            &&& r.0@[0] matches ChatStateMutation::MutateMessages(VecMutation::Extend(ms))
                && shows_errors(ms@, result.spec_errors(), now)
        },
{
    let mut r: Vec<ChatStateMutation> = Vec::new();
    match result.into_result() {
        Ok(content) => {
            let mut last = messages[messages.len() - 1].clone();
            last.set_content(content, now);
            r.push(ChatStateMutation::MutateMessages(VecMutation::UpdateLast(last)));
            (r, false)
        },
        Err(errors) => {
            let mut shown: Vec<Message> = Vec::new();
            let mut i: usize = 0;
            while i < errors.len()
                invariant
                    i <= errors@.len(),
                    shows_errors(shown@, errors@.take(i as int), now),
                decreases errors@.len() - i,
            {
                let text = errors[i].to_display_string();
                shown.push(Message::app_error(text.as_str(), now));
                assert(errors@.take(i + 1)[i as int] == errors@[i as int]);
                i += 1;
            }
            assert(errors@.take(errors@.len() as int) =~= errors@);
            r.push(ChatStateMutation::MutateMessages(VecMutation::Extend(shown)));
            (r, true)
        },
    }
}

} // verus!
